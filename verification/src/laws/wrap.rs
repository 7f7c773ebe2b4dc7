//! What making a connection does.

use crate::connection::{Connection, HandshakeState};
use crate::context::Context;
use crate::error::Error;
use crate::plan::{ArgumentModel, Function, Plan};
use crate::wrap::{private_plan, wrap_plan, NativeSnapshot, WrapModel};
use vstd::prelude::*;

verus! {

/// The inputs of a connection: what it was asked to be made of.
pub open spec fn inputs(
    host: Option<&str>,
    is_ip: bool,
    session: bool,
    native: NativeSnapshot,
) -> WrapModel {
    WrapModel {
        hostname: match host {
            Some(h) => Some(h@),
            None => None,
        },
        is_ip,
        session,
        native: native@,
    }
}

/// A connection is refused outright exactly where a client that checks
/// hostnames has none. One that is made has not started; a client's knows the
/// hostname that was given, and a server's knows none.
pub proof fn law_connections(
    c: &Context,
    host: Option<&str>,
    is_ip: bool,
    session: bool,
    native: &NativeSnapshot,
    r: Result<(Connection, Plan), Error>,
)
    requires
        call_ensures(Context::wrap_bio, (c, host, is_ip, session, native), r),
    ensures
        r is Err <==> !c@.is_server && c@.check_hostname && host is None,
        r is Err ==> r->Err_0 is Usage,
        r matches Ok(made) ==> {
            &&& made.0@.state == HandshakeState::NotStarted
            &&& made.0@.is_server == c@.is_server
            &&& made.0@.server_hostname == (if c@.is_server {
                None
            } else {
                inputs(host, is_ip, session, *native).hostname
            })
            &&& made.1@ == wrap_plan(c@, inputs(host, is_ip, session, *native))
        },
{
}

/// A client that is given a name, and not an address, sends that name; where it
/// checks hostnames it has the engine compare the very same name. Given an
/// address it sends none and has the address compared.
pub proof fn law_names_and_addresses(
    c: &Context,
    host: &str,
    is_ip: bool,
    session: bool,
    native: &NativeSnapshot,
    r: Result<(Connection, Plan), Error>,
)
    requires
        !c@.is_server,
        call_ensures(Context::wrap_bio, (c, Some(host), is_ip, session, native), r),
    ensures
        r matches Ok(made) && (made.1@.refusal is None ==> {
            let steps = made.1@.steps;
            &&& crate::plan::last_argument(steps, Function::SetServerName) == (if is_ip {
                None
            } else {
                Some(ArgumentModel::Text(host@))
            })
            &&& crate::plan::last_argument(steps, Function::ExpectHost) == (if is_ip
                || !c@.check_hostname {
                None
            } else {
                Some(ArgumentModel::Text(host@))
            })
            &&& crate::plan::last_argument(steps, Function::ExpectIp) == (if is_ip
                && c@.check_hostname {
                Some(ArgumentModel::Text(host@))
            } else {
                None
            })
        }),
{
    let w = inputs(Some(host), is_ip, session, *native);
    if wrap_plan(c@, w).refusal is None {
        crate::wrap::law_server_name_is_sent(c@, w);
        crate::wrap::law_what_is_compared(c@, w);
    }
}

/// A name with a NUL byte is refused before it reaches the engine, and nothing
/// else about the arguments is.
pub proof fn law_refused_names(
    c: &Context,
    host: &str,
    is_ip: bool,
    session: bool,
    native: &NativeSnapshot,
    r: Result<(Connection, Plan), Error>,
)
    requires
        !c@.is_server,
        c@.fingerprint is None,
        c@.own_keylog is None,
        call_ensures(Context::wrap_bio, (c, Some(host), is_ip, session, native), r),
    ensures
        r matches Ok(made) && (made.1@.refusal is Some <==> host@.contains('\0')),
{
    if host@.contains('\0') {
        let i = choose|i: int| 0 <= i < host@.len() && host@[i] == '\0';
        assert(crate::text::has_nul(host@));
    }
}

/// The private context of a connection is a fresh one of its side.
pub proof fn law_private_contexts(c: &Context, native: &NativeSnapshot, r: (Context, Plan))
    requires
        call_ensures(Context::fingerprint_context, (c, native), r),
    ensures
        r.0@.is_server == c@.is_server,
        !r.0@.shared && r.0@.fingerprint is None && r.0@.ech_config_list is None,
        r.0@.alpn_list.len() == 0 && r.0@.verify_flags == 0,
        r.1@ == private_plan(c@, native@),
{
}

/// What a private context shares follows what the engine's context has: a
/// certificate, a key, a chain and a key log are handed on exactly where there
/// are any, and the names of the cipher suites in their order.
pub proof fn law_private_contexts_share(c: &Context, native: &NativeSnapshot, r: (Context, Plan))
    requires
        call_ensures(Context::fingerprint_context, (c, native), r),
        r.1@.refusal is None,
    ensures
        ({
            let steps = r.1@.steps;
            &&& crate::plan::last_argument(steps, Function::CopyCertificate) is Some
                <==> native.certificate
            &&& crate::plan::last_argument(steps, Function::CopyKey) is Some <==> native.key
            &&& crate::plan::last_argument(steps, Function::CopyChain) is Some <==> native.chain
            &&& crate::plan::last_argument(steps, Function::CopyKeylog) is Some <==> native.keylog
            &&& crate::plan::last_argument(steps, Function::SetContextCiphers) == (
            if native.ciphers@.len() > 0 {
                Some(
                    ArgumentModel::Text(
                        crate::text::joined(native.ciphers@.map_values(|s: String| s@), ":"@),
                    ),
                )
            } else {
                None
            })
        }),
{
    crate::wrap::law_private_context_shares(c@, native@);
    crate::wrap::law_private_context_carries_on(c@, native@);
    assert(native.ciphers@.map_values(|s: String| s@) =~= crate::text::texts(native.ciphers@));
}

} // verus!
