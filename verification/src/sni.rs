//! Server-side dispatch by the name that a client asks for.

use vstd::prelude::*;

verus! {

/// What a dispatcher decides.
#[derive(Debug, Clone, Copy, PartialEq, Eq, Structural)]
pub enum SniAction {
    /// The handshake goes on.
    Proceed,
    /// The handshake is aborted with this TLS alert.
    Abort(u8),
}

/// The engine's handle of a handshake in progress, as a number. It is valid
/// only while the dispatcher runs.
#[derive(Debug, Clone, Copy, PartialEq, Eq, Structural)]
pub struct SniSslHandle {
    ssl: usize,
}

impl View for SniSslHandle {
    type V = usize;

    /// The number.
    closed spec fn view(&self) -> usize {
        self.ssl
    }
}

impl SniSslHandle {
    /// The handle with the given number.
    pub fn from_raw(ssl: usize) -> (r: Self)
        ensures
            r@ == ssl,
    {
        SniSslHandle { ssl }
    }

    /// The number of the handle.
    pub fn as_usize(&self) -> (r: usize)
        ensures
            r == self@,
    {
        self.ssl
    }
}

/// Decides about handshakes by the name that the client asks for.
pub trait SniDispatcher: Send + Sync {
    /// Called once for each ClientHello, with the server name where the client
    /// sent one that is valid UTF-8.
    fn dispatch(&self, handle: SniSslHandle, server_name: Option<&str>) -> SniAction;
}

/// What the engine's callback returns: a code, and an alert where the
/// handshake is aborted.
#[derive(Debug, Clone, Copy, PartialEq, Eq, Structural)]
pub struct SniReply {
    pub code: i32,
    pub alert: Option<i32>,
}

/// The engine's code for a handshake that goes on.
pub const SNI_OK: i32 = 0;

/// The engine's code for a handshake that is aborted.
pub const SNI_ALERT_FATAL: i32 = 2;

impl SniAction {
    /// What the engine's callback returns for this decision.
    pub open spec fn reply(self) -> SniReply {
        match self {
            SniAction::Proceed => SniReply { code: SNI_OK, alert: None },
            SniAction::Abort(alert) => SniReply {
                code: SNI_ALERT_FATAL,
                alert: Some(alert as i32),
            },
        }
    }
}

/// What the engine's callback returns for a decision.
pub fn reply_to(action: SniAction) -> (r: SniReply)
    ensures
        r == action.reply(),
{
    match action {
        SniAction::Proceed => SniReply { code: SNI_OK, alert: None },
        SniAction::Abort(alert) => SniReply { code: SNI_ALERT_FATAL, alert: Some(alert as i32) },
    }
}

/// The server name as a dispatcher sees it: absent where the client sent none,
/// or one that is not valid UTF-8.
pub open spec fn dispatched_name(name: Option<Seq<u8>>) -> Option<Seq<char>> {
    match name {
        Some(b) if vstd::utf8::valid_utf8(b) => Some(vstd::utf8::decode_utf8(b)),
        _ => None,
    }
}

/// The server name as a dispatcher sees it.
pub fn server_name_for_dispatch(name: Option<&[u8]>) -> (r: Option<String>)
    ensures
        crate::plan::opt_text(r) == dispatched_name(crate::chain::opt_slice_bytes(name)),
{
    match name {
        Some(b) => crate::text::decode_strict(b),
        None => None,
    }
}

/// What the engine's callback returns. Without a dispatcher every name is
/// accepted; otherwise the answer is the one for what the dispatcher decides.
pub fn sni_callback<D: SniDispatcher>(
    dispatcher: Option<&D>,
    handle: SniSslHandle,
    name: Option<&[u8]>,
) -> (r: SniReply)
    ensures
        match dispatcher {
            None => r == SniAction::Proceed.reply(),
            Some(d) => exists|action: SniAction, text: Option<&str>| #[trigger]
                call_ensures(D::dispatch, (d, handle, text), action)
                    && crate::context::opt_slice(text) == dispatched_name(
                    crate::chain::opt_slice_bytes(name),
                ) && r == action.reply(),
        },
{
    match dispatcher {
        None => reply_to(SniAction::Proceed),
        Some(d) => {
            let owned = server_name_for_dispatch(name);
            let text: Option<&str> = match &owned {
                Some(s) => Some(s.as_str()),
                None => None,
            };
            let action = d.dispatch(handle, text);
            assert(call_ensures(D::dispatch, (d, handle, text), action));
            reply_to(action)
        },
    }
}

/// Different decisions get different answers, and only an abort carries an
/// alert.
pub proof fn law_replies_are_faithful(a: SniAction, b: SniAction)
    ensures
        a.reply() == b.reply() ==> a == b,
        a.reply().alert is Some <==> a.reply().code == SNI_ALERT_FATAL,
{
}

} // verus!
