//! Making a connection from a context: which calls set it up.

use crate::connection::Connection;
use crate::context::{Context, ContextModel, Protocol};
use crate::error::Error;
use crate::fingerprint::spec::FingerprintModel;
use crate::plan::{Argument, ArgumentModel, Function, Plan, PlanModel, StepModel};
use vstd::prelude::*;

verus! {

// ---------------------------------------------------------- private context

/// What the engine's context holds that a private context has to share.
#[derive(Debug)]
pub struct NativeSnapshot {
    /// Whether it has a certificate.
    pub certificate: bool,
    /// Whether it has a private key.
    pub key: bool,
    /// Whether it has chain certificates.
    pub chain: bool,
    /// The names of its cipher suites, in order.
    pub ciphers: Vec<String>,
    /// Whether it has a key-log writer.
    pub keylog: bool,
}

/// The mathematical content of a [`NativeSnapshot`].
pub struct SnapshotModel {
    pub certificate: bool,
    pub key: bool,
    pub chain: bool,
    pub ciphers: Seq<Seq<char>>,
    pub keylog: bool,
}

impl View for NativeSnapshot {
    type V = SnapshotModel;

    open spec fn view(&self) -> SnapshotModel {
        SnapshotModel {
            certificate: self.certificate,
            key: self.key,
            chain: self.chain,
            ciphers: crate::text::texts(self.ciphers@),
            keylog: self.keylog,
        }
    }
}

/// A call without an argument, reported under a label.
pub open spec fn plain_call(function: Function, label: Seq<char>) -> StepModel {
    crate::plan::reporting(function, ArgumentModel::Nothing, label)
}

/// The store, the verification parameters, and certificate, key and chain
/// where there are any.
pub open spec fn shared_steps(s: SnapshotModel) -> Seq<StepModel> {
    seq![
        plain_call(Function::ShareStore, "X509_STORE_up_ref"@),
        crate::plan::ignoring(Function::SetStore, ArgumentModel::Nothing),
        plain_call(Function::CopyParam, "X509_VERIFY_PARAM_set1"@),
    ] + crate::plan::step_if(
        s.certificate,
        plain_call(Function::CopyCertificate, "SSL_CTX_use_certificate"@),
    ) + crate::plan::step_if(s.key, plain_call(Function::CopyKey, "SSL_CTX_use_PrivateKey"@)) + seq![
        plain_call(Function::GetChain, "SSL_CTX_set1_chain"@),
    ] + crate::plan::step_if(s.chain, plain_call(Function::CopyChain, "SSL_CTX_set1_chain"@))
}

/// The cipher suites, in their order, where there are any.
pub open spec fn ciphers_plan(names: Seq<Seq<char>>) -> PlanModel {
    let list = crate::text::joined(names, ":"@);
    if names.len() == 0 {
        crate::plan::plan_of(seq![])
    } else if crate::text::has_nul(list) {
        crate::plan::refused("cipher list contains a NUL byte"@)
    } else {
        crate::context::text_plan(Function::SetContextCiphers, list, "SSL_CTX_set_cipher_list"@)
    }
}

/// What a private context's callbacks find: the key-log writer, where there is
/// one, and on a server the SNI dispatcher. The key-log callback is also needed
/// where the context has a key log of its own.
pub open spec fn callback_steps(c: ContextModel, s: SnapshotModel) -> Seq<StepModel> {
    crate::plan::step_if(
        s.keylog,
        crate::plan::ignoring(Function::CopyKeylog, ArgumentModel::Nothing),
    ) + crate::plan::step_if(
        s.keylog || c.own_keylog == Some(true),
        crate::plan::ignoring(Function::SetKeylogCallback, ArgumentModel::Flag(true)),
    ) + crate::plan::step_if(
        c.is_server,
        crate::plan::ignoring(Function::CopySni, ArgumentModel::Nothing),
    )
}

/// The side of a connection that a context is for.
pub open spec fn side_of(c: ContextModel) -> Protocol {
    if c.is_server {
        Protocol::TlsServer
    } else {
        Protocol::TlsClient
    }
}

/// What making a private context for a connection asks of the engine: a fresh
/// context that shares what the connection's own context holds.
pub open spec fn private_plan(c: ContextModel, s: SnapshotModel) -> PlanModel {
    crate::context::creation_plan(side_of(c)).followed_by(
        crate::plan::plan_of(shared_steps(s)),
    ).followed_by(ciphers_plan(s.ciphers)).followed_by(
        crate::plan::plan_of(callback_steps(c, s)),
    )
}

fn shared_plan(s: &NativeSnapshot) -> (r: Plan)
    ensures
        r@ == crate::plan::plan_of(shared_steps(s@)),
{
    let mut plan = Plan::new();
    plan.report(Function::ShareStore, Argument::Nothing, "X509_STORE_up_ref");
    plan.ignore(Function::SetStore, Argument::Nothing);
    plan.report(Function::CopyParam, Argument::Nothing, "X509_VERIFY_PARAM_set1");
    if s.certificate {
        plan.report(Function::CopyCertificate, Argument::Nothing, "SSL_CTX_use_certificate");
    }
    if s.key {
        plan.report(Function::CopyKey, Argument::Nothing, "SSL_CTX_use_PrivateKey");
    }
    plan.report(Function::GetChain, Argument::Nothing, "SSL_CTX_set1_chain");
    if s.chain {
        plan.report(Function::CopyChain, Argument::Nothing, "SSL_CTX_set1_chain");
    }
    assert(plan@.steps =~= shared_steps(s@));
    plan
}

impl Context {
    /// A private context for a connection that shows a fingerprint or has a
    /// key log of its own, so that its settings touch no other connection.
    pub fn fingerprint_context(&self, native: &NativeSnapshot) -> (r: (Context, Plan))
        ensures
            r.0@ == ContextModel::fresh(side_of(self@)),
            r.1@ == private_plan(self@, native@),
    {
        let side = if self.is_server() {
            Protocol::TlsServer
        } else {
            Protocol::TlsClient
        };
        let (private, creation) = Context::new(side);
        let mut plan = creation;
        plan.follow(shared_plan(native));
        assert(native@.ciphers.len() == native.ciphers@.len());
        let ciphers = if native.ciphers.len() == 0 {
            Plan::new()
        } else {
            let list = crate::text::join_strings(&native.ciphers, ":");
            match private.set_ciphers(list.as_str()) {
                Ok(p) => p,
                Err(_) => Plan::refusing("cipher list contains a NUL byte".to_owned()),
            }
        };
        plan.follow(ciphers);
        let mut callbacks = Plan::new();
        if native.keylog {
            callbacks.ignore(Function::CopyKeylog, Argument::Nothing);
        }
        if native.keylog || self.has_own_keylog() {
            callbacks.ignore(Function::SetKeylogCallback, Argument::Flag(true));
        }
        if self.is_server() {
            callbacks.ignore(Function::CopySni, Argument::Nothing);
        }
        assert(callbacks@.steps =~= callback_steps(self@, native@));
        plan.follow(callbacks);
        (private, plan)
    }
}

// --------------------------------------------------------------- connection

/// The engine's flag for taking no wildcard for a part of a label.
pub const NO_PARTIAL_WILDCARDS: u64 = 0;

/// The engine's flag for never looking at the subject's common name.
pub const NEVER_CHECK_SUBJECT: u64 = 0x20;

/// The flags of a strict comparison of hostnames: no partial wildcards, and no
/// common name in place of a subject alternative name.
pub open spec fn strict_host_flags() -> u64 {
    (NO_PARTIAL_WILDCARDS + NEVER_CHECK_SUBJECT) as u64
}

/// What a connection needs beyond the context: the hostname, whether it is an
/// IP address, whether a session is to be resumed, and what the engine's
/// context holds.
pub struct WrapModel {
    pub hostname: Option<Seq<char>>,
    pub is_ip: bool,
    pub session: bool,
    pub native: SnapshotModel,
}

/// Whether a connection needs a private context: GREASE and certificate
/// compression, which a fingerprint sets, and the key-log callback are settings
/// of a context.
pub open spec fn needs_private(c: ContextModel) -> bool {
    c.fingerprint is Some || c.own_keylog == Some(true)
}

/// The private context of a connection that needs one.
pub open spec fn attach_plan(c: ContextModel, native: SnapshotModel) -> PlanModel {
    if needs_private(c) {
        private_plan(c, native).followed_by(
            crate::plan::plan_of(
                seq![plain_call(Function::AttachPrivateContext, "SSL_set_SSL_CTX"@)],
            ),
        )
    } else {
        crate::plan::plan_of(seq![])
    }
}

/// The resumption of a session.
pub open spec fn session_plan(there: bool) -> PlanModel {
    crate::plan::plan_of(
        crate::plan::step_if(there, plain_call(Function::SetSession, "SSL_set_session"@)),
    )
}

/// Server name and hostname check. A name goes out as SNI and is compared
/// strictly; an IP address is compared as such and never goes out.
pub open spec fn hostname_plan(hostname: Option<Seq<char>>, is_ip: bool, check: bool) -> PlanModel {
    match hostname {
        None => crate::plan::plan_of(seq![]),
        Some(host) => if crate::text::has_nul(host) {
            crate::plan::refused("server_hostname contains a NUL byte"@)
        } else if is_ip {
            crate::plan::plan_of(
                crate::plan::step_if(
                    check,
                    crate::plan::reporting(
                        Function::ExpectIp,
                        ArgumentModel::Text(host),
                        "X509_VERIFY_PARAM_set1_ip_asc"@,
                    ),
                ),
            )
        } else {
            crate::plan::plan_of(
                seq![crate::plan::ignoring(Function::SetServerName, ArgumentModel::Text(host))]
                    + crate::plan::step_if(
                    check,
                    crate::plan::reporting(
                        Function::ExpectHost,
                        ArgumentModel::Text(host),
                        "SSL_set1_host"@,
                    ),
                ) + crate::plan::step_if(
                    check,
                    crate::plan::ignoring(
                        Function::SetHostFlags,
                        ArgumentModel::Number(strict_host_flags()),
                    ),
                ),
            )
        },
    }
}

/// The fingerprint, where there is one. Where protocols were set on the
/// context, they stand in for the fingerprint's own.
pub open spec fn fingerprint_plan(c: ContextModel) -> PlanModel {
    match c.fingerprint {
        Some(fp) => crate::fingerprint::apply::applied(
            fp,
            if c.alpn_list.len() == 0 {
                None
            } else {
                Some(c.alpn_list)
            },
        ),
        None => crate::plan::plan_of(seq![]),
    }
}

/// The context's own ECH configuration, where there is one.
pub open spec fn ech_override_plan(c: ContextModel) -> PlanModel {
    crate::plan::plan_of(
        match c.ech_config_list {
            Some(b) => seq![crate::fingerprint::apply::ech_config_step(b)],
            None => seq![],
        },
    )
}

/// What a server's connection asks for.
pub open spec fn accept_plan(w: WrapModel) -> PlanModel {
    crate::plan::plan_of(
        seq![
            crate::plan::ignoring(Function::SetAcceptState, ArgumentModel::Nothing),
            crate::plan::ignoring(Function::AttachCaptureSlot, ArgumentModel::Nothing),
        ],
    ).followed_by(session_plan(w.session))
}

/// What a client's connection asks for.
pub open spec fn connect_plan(c: ContextModel, w: WrapModel) -> PlanModel {
    crate::plan::plan_of(
        seq![crate::plan::ignoring(Function::SetConnectState, ArgumentModel::Nothing)],
    ).followed_by(hostname_plan(w.hostname, w.is_ip, c.check_hostname)).followed_by(
        session_plan(w.session),
    ).followed_by(fingerprint_plan(c)).followed_by(ech_override_plan(c))
}

/// What a connection asks for by the side that it is on.
pub open spec fn side_plan(c: ContextModel, w: WrapModel) -> PlanModel {
    if c.is_server {
        accept_plan(w)
    } else {
        connect_plan(c, w)
    }
}

/// What making a connection asks of the engine.
pub open spec fn wrap_plan(c: ContextModel, w: WrapModel) -> PlanModel {
    crate::plan::plan_of(seq![plain_call(Function::NewConnection, "SSL_new"@)]).followed_by(
        attach_plan(c, w.native),
    ).followed_by(
        crate::plan::plan_of(
            seq![crate::plan::ignoring(Function::SetBio, ArgumentModel::Nothing)],
        ),
    ).followed_by(crate::context::settings_plan(c)).followed_by(side_plan(c, w))
}

fn plan_session(there: bool) -> (r: Plan)
    ensures
        r@ == session_plan(there),
{
    let mut plan = Plan::new();
    if there {
        plan.report(Function::SetSession, Argument::Nothing, "SSL_set_session");
    }
    assert(plan@.steps =~= session_plan(there).steps);
    plan
}

fn plan_hostname(hostname: Option<&str>, is_ip: bool, check: bool) -> (r: Plan)
    ensures
        r@ == hostname_plan(crate::context::opt_slice(hostname), is_ip, check),
{
    let ghost expected = hostname_plan(crate::context::opt_slice(hostname), is_ip, check);
    let mut plan = Plan::new();
    match hostname {
        None => {},
        Some(host) => {
            if crate::text::contains_nul(host) {
                return Plan::refusing("server_hostname contains a NUL byte".to_owned());
            }
            if !is_ip {
                plan.ignore(Function::SetServerName, Argument::Text(host.to_owned()));
            }
            if check {
                if is_ip {
                    plan.report(
                        Function::ExpectIp,
                        Argument::Text(host.to_owned()),
                        "X509_VERIFY_PARAM_set1_ip_asc",
                    );
                } else {
                    plan.report(
                        Function::ExpectHost,
                        Argument::Text(host.to_owned()),
                        "SSL_set1_host",
                    );
                    plan.ignore(
                        Function::SetHostFlags,
                        Argument::Number(NO_PARTIAL_WILDCARDS + NEVER_CHECK_SUBJECT),
                    );
                }
            }
        },
    }
    assert(plan@.steps =~= expected.steps);
    plan
}

impl Context {
    fn plan_fingerprint(&self) -> (r: Plan)
        ensures
            r@ == fingerprint_plan(self@),
    {
        match self.fingerprint() {
            Some(fp) => {
                let own = self.alpn_list_snapshot();
                assert(self@.alpn_list.len() == own@.len());
                if own.len() == 0 {
                    fp.apply_to_ssl()
                } else {
                    fp.apply_to_ssl_with_alpn_override(own.as_slice())
                }
            },
            None => Plan::new(),
        }
    }

    fn plan_ech_override(&self) -> (r: Plan)
        ensures
            r@ == ech_override_plan(self@),
    {
        let mut plan = Plan::new();
        match self.ech_config_list() {
            Some(b) => {
                plan.report(
                    Function::SetEchConfig,
                    Argument::Bytes(b),
                    "SSL_set1_ech_config_list",
                );
            },
            None => {},
        }
        assert(plan@.steps =~= ech_override_plan(self@).steps);
        plan
    }

    fn plan_attach(&self, native: &NativeSnapshot) -> (r: Plan)
        ensures
            r@ == attach_plan(self@, native@),
    {
        if self.fingerprint().is_some() || self.has_own_keylog() {
            let (_, private) = self.fingerprint_context(native);
            let mut plan = private;
            let mut attach = Plan::new();
            attach.report(Function::AttachPrivateContext, Argument::Nothing, "SSL_set_SSL_CTX");
            assert(attach@.steps =~= seq![attach@.steps[0]]);
            plan.follow(attach);
            plan
        } else {
            Plan::new()
        }
    }

    /// Makes a connection. A client that checks hostnames needs one; a server
    /// ignores it.
    pub fn wrap_bio(
        &self,
        server_hostname: Option<&str>,
        is_ip: bool,
        session: bool,
        native: &NativeSnapshot,
    ) -> (r: Result<(Connection, Plan), Error>)
        ensures
            ({
                let w = WrapModel {
                    hostname: crate::context::opt_slice(server_hostname),
                    is_ip,
                    session,
                    native: native@,
                };
                if !self@.is_server && self@.check_hostname && server_hostname is None {
                    r matches Err(e) && e.is_usage(
                        "server_hostname is required when check_hostname is True"@,
                    )
                } else {
                    &&& r matches Ok(made)
                    &&& made.0@ == crate::connection::ConnectionModel::fresh(
                        self@.is_server,
                        w.hostname,
                    )
                    &&& made.1@ == wrap_plan(self@, w)
                }
            }),
    {
        if !self.is_server() && self.check_hostname() && server_hostname.is_none() {
            return Err(
                crate::error::usage("server_hostname is required when check_hostname is True"),
            );
        }
        let connection = Connection::new(self.is_server(), server_hostname);
        let mut plan = Plan::new();
        plan.report(Function::NewConnection, Argument::Nothing, "SSL_new");
        assert(plan@.steps =~= seq![plain_call(Function::NewConnection, "SSL_new"@)]);
        plan.follow(self.plan_attach(native));
        let mut bio = Plan::new();
        bio.ignore(Function::SetBio, Argument::Nothing);
        assert(bio@.steps =~= seq![bio@.steps[0]]);
        plan.follow(bio);
        plan.follow(self.plan_settings());
        let mut side = Plan::new();
        if self.is_server() {
            side.ignore(Function::SetAcceptState, Argument::Nothing);
            side.ignore(Function::AttachCaptureSlot, Argument::Nothing);
            assert(side@.steps =~= seq![side@.steps[0], side@.steps[1]]);
            side.follow(plan_session(session));
        } else {
            side.ignore(Function::SetConnectState, Argument::Nothing);
            assert(side@.steps =~= seq![side@.steps[0]]);
            side.follow(plan_hostname(server_hostname, is_ip, self.check_hostname()));
            side.follow(plan_session(session));
            side.follow(self.plan_fingerprint());
            side.follow(self.plan_ech_override());
        }
        plan.follow(side);
        Ok((connection, plan))
    }
}

// ------------------------------------------------------------------- laws

/// Whether a function changes settings of the connection's context that every
/// connection of that context would share.
pub open spec fn changes_context(function: Function) -> bool {
    function == Function::SetGrease || function == Function::SetGreaseSigalgs || function
        == Function::AddCompression
}

/// Whether a function has nothing to do with the settings of a context or of
/// a connection that a context or a fingerprint determines.
spec fn is_neutral(function: Function) -> bool {
    &&& !changes_context(function)
    &&& function != Function::SetAlpn
    &&& function != Function::SetConnectionVerify
    &&& function != Function::SetConnectionMinVersion
    &&& function != Function::SetConnectionMaxVersion
    &&& function != Function::ClearVerifyFlags
    &&& function != Function::SetVerifyFlags
    &&& function != Function::RegisterConnectionKeylog
    &&& function != Function::RegisterConnectionSni
}

/// What comes before the memory buffers are set.
spec fn opening(c: ContextModel, w: WrapModel) -> PlanModel {
    crate::plan::plan_of(seq![plain_call(Function::NewConnection, "SSL_new"@)]).followed_by(
        attach_plan(c, w.native),
    )
}

/// What comes before the settings of the context.
spec fn prelude(c: ContextModel, w: WrapModel) -> PlanModel {
    opening(c, w).followed_by(
        crate::plan::plan_of(
            seq![crate::plan::ignoring(Function::SetBio, ArgumentModel::Nothing)],
        ),
    )
}

#[verifier::rlimit(40)]
proof fn lemma_private_is_neutral(c: ContextModel, s: SnapshotModel)
    ensures
        crate::plan::every(private_plan(c, s).steps, |x: StepModel| is_neutral(x.call.function)),
{
    let p = |x: StepModel| is_neutral(x.call.function);
    let a1 = crate::context::creation_plan(side_of(c));
    let shared = crate::plan::plan_of(shared_steps(s));
    let a2 = a1.followed_by(shared);
    crate::plan::lemma_every_followed(a1, shared, p);
    let a3 = a2.followed_by(ciphers_plan(s.ciphers));
    crate::plan::lemma_every_followed(a2, ciphers_plan(s.ciphers), p);
    crate::plan::lemma_every_followed(a3, crate::plan::plan_of(callback_steps(c, s)), p);
}

#[verifier::rlimit(40)]
proof fn lemma_opening(c: ContextModel, w: WrapModel)
    ensures
        crate::plan::every(opening(c, w).steps, |x: StepModel| is_neutral(x.call.function)),
        crate::plan::every(prelude(c, w).steps, |x: StepModel| is_neutral(x.call.function)),
        needs_private(c) && opening(c, w).refusal is None ==> opening(c, w).steps.len() > 0
            && opening(c, w).steps.last() == plain_call(
            Function::AttachPrivateContext,
            "SSL_set_SSL_CTX"@,
        ),
{
    let p = |x: StepModel| is_neutral(x.call.function);
    let new = crate::plan::plan_of(seq![plain_call(Function::NewConnection, "SSL_new"@)]);
    let attach = crate::plan::plan_of(
        seq![plain_call(Function::AttachPrivateContext, "SSL_set_SSL_CTX"@)],
    );
    let bio = crate::plan::plan_of(
        seq![crate::plan::ignoring(Function::SetBio, ArgumentModel::Nothing)],
    );
    lemma_private_is_neutral(c, w.native);
    crate::plan::lemma_every_followed(private_plan(c, w.native), attach, p);
    crate::plan::lemma_every_followed(new, attach_plan(c, w.native), p);
    crate::plan::lemma_every_followed(opening(c, w), bio, p);
}

/// What holds of neutral steps and of those of a fingerprint holds of all that
/// a connection asks for by its side.
#[verifier::rlimit(40)]
proof fn lemma_every_side(c: ContextModel, w: WrapModel, p: spec_fn(StepModel) -> bool)
    requires
        forall|x: StepModel| is_neutral(x.call.function) ==> #[trigger] p(x),
        crate::plan::every(fingerprint_plan(c).steps, p),
    ensures
        crate::plan::every(side_plan(c, w).steps, p),
{
    let accept = crate::plan::plan_of(
        seq![
            crate::plan::ignoring(Function::SetAcceptState, ArgumentModel::Nothing),
            crate::plan::ignoring(Function::AttachCaptureSlot, ArgumentModel::Nothing),
        ],
    );
    crate::plan::lemma_every_followed(accept, session_plan(w.session), p);
    let a1 = crate::plan::plan_of(
        seq![crate::plan::ignoring(Function::SetConnectState, ArgumentModel::Nothing)],
    );
    let host = hostname_plan(w.hostname, w.is_ip, c.check_hostname);
    let a2 = a1.followed_by(host);
    crate::plan::lemma_every_followed(a1, host, p);
    let a3 = a2.followed_by(session_plan(w.session));
    crate::plan::lemma_every_followed(a2, session_plan(w.session), p);
    let a4 = a3.followed_by(fingerprint_plan(c));
    crate::plan::lemma_every_followed(a3, fingerprint_plan(c), p);
    crate::plan::lemma_every_followed(a4, ech_override_plan(c), p);
}

/// What holds of neutral steps, of the context's settings and of the
/// fingerprint's steps holds of all that a connection asks for.
#[verifier::rlimit(40)]
proof fn lemma_every_wrapped(c: ContextModel, w: WrapModel, p: spec_fn(StepModel) -> bool)
    requires
        forall|x: StepModel| is_neutral(x.call.function) ==> #[trigger] p(x),
        crate::plan::every(crate::context::settings_plan(c).steps, p),
        crate::plan::every(fingerprint_plan(c).steps, p),
    ensures
        crate::plan::every(wrap_plan(c, w).steps, p),
{
    let before = prelude(c, w);
    let settings = crate::context::settings_plan(c);
    lemma_opening(c, w);
    let neutral = |x: StepModel| is_neutral(x.call.function);
    assert forall|i: int| 0 <= i < before.steps.len() implies p(#[trigger] before.steps[i]) by {
        assert(neutral(before.steps[i]));
    }
    lemma_every_side(c, w, p);
    crate::plan::lemma_every_followed(before, settings, p);
    crate::plan::lemma_every_followed(before.followed_by(settings), side_plan(c, w), p);
}

/// GREASE and certificate compression, which are settings of a context, are
/// set only once the connection has a private one: no other connection sees
/// them.
#[verifier::rlimit(40)]
pub proof fn law_context_settings_are_private(c: ContextModel, w: WrapModel, i: int)
    requires
        0 <= i < wrap_plan(c, w).steps.len(),
        changes_context(wrap_plan(c, w).steps[i].call.function),
    ensures
        exists|j: int|
            0 <= j < i && #[trigger] wrap_plan(c, w).steps[j].call.function
                == Function::AttachPrivateContext,
{
    let open = opening(c, w);
    let all = wrap_plan(c, w).steps;
    lemma_opening(c, w);
    let n = open.steps.len() as int;
    if i < n {
        let neutral = |x: StepModel| is_neutral(x.call.function);
        assert(all[i] == open.steps[i]);
        assert(neutral(open.steps[i]));
    }
    if c.fingerprint is Some {
        assert(all[n - 1] == open.steps[n - 1]);
    } else {
        let p = |x: StepModel| !changes_context(x.call.function);
        lemma_every_wrapped(c, w, p);
        assert(p(all[i]));
    }
}

proof fn lemma_settings_at(c: ContextModel, w: WrapModel, k: int)
    requires
        wrap_plan(c, w).refusal is None,
        0 <= k < crate::context::settings_plan(c).steps.len(),
    ensures
        0 <= prelude(c, w).steps.len() + k < wrap_plan(c, w).steps.len(),
        wrap_plan(c, w).steps[prelude(c, w).steps.len() + k] == crate::context::settings_plan(
            c,
        ).steps[k],
{
}

/// What a connection is given of a setting, where its context shares the
/// engine context: every call of the function gives the context's own value.
#[verifier::rlimit(40)]
proof fn lemma_setting_is_own(
    c: ContextModel,
    w: WrapModel,
    k: int,
    function: Function,
    argument: ArgumentModel,
)
    requires
        wrap_plan(c, w).refusal is None,
        !is_neutral(function),
        0 <= k < crate::context::settings_plan(c).steps.len(),
        crate::context::settings_plan(c).steps[k].call.function == function,
        crate::plan::every(
            crate::context::settings_plan(c).steps,
            |x: StepModel| x.call.function == function ==> x.call.argument == argument,
        ),
        crate::plan::every(
            fingerprint_plan(c).steps,
            |x: StepModel| x.call.function == function ==> x.call.argument == argument,
        ),
    ensures
        crate::plan::last_argument(wrap_plan(c, w).steps, function) == Some(argument),
{
    let p = |x: StepModel| x.call.function == function ==> x.call.argument == argument;
    lemma_every_wrapped(c, w, p);
    lemma_settings_at(c, w, k);
    let at = prelude(c, w).steps.len() + k;
    crate::plan::lemma_last_argument(wrap_plan(c, w).steps, function, argument, at);
}

proof fn lemma_fingerprint_keeps(c: ContextModel, function: Function, argument: ArgumentModel)
    requires
        !crate::fingerprint::apply::is_shaping(function),
    ensures
        crate::plan::every(
            fingerprint_plan(c).steps,
            |x: StepModel| x.call.function == function ==> x.call.argument == argument,
        ),
{
    let p = |x: StepModel| x.call.function == function ==> x.call.argument == argument;
    let steps = fingerprint_plan(c).steps;
    assert forall|i: int| 0 <= i < steps.len() implies p(#[trigger] steps[i]) by {
        crate::fingerprint::apply::law_fingerprint_only_shapes(
            c.fingerprint->Some_0,
            if c.alpn_list.len() == 0 {
                None
            } else {
                Some(c.alpn_list)
            },
            i,
        );
    }
}

/// Where contexts share an engine context, a connection has the verify mode
/// and the version bounds of the context that it was made from, whatever was
/// set on the others.
#[verifier::rlimit(40)]
pub proof fn law_connection_has_own_settings(c: ContextModel, w: WrapModel)
    requires
        c.shared,
        wrap_plan(c, w).refusal is None,
    ensures
        crate::plan::last_argument(wrap_plan(c, w).steps, Function::SetConnectionVerify) == Some(
            ArgumentModel::Number(c.verify_mode.flags()),
        ),
        crate::plan::last_argument(wrap_plan(c, w).steps, Function::SetConnectionMinVersion)
            == Some(ArgumentModel::Number(c.minimum_version.wire() as u64)),
        crate::plan::last_argument(wrap_plan(c, w).steps, Function::SetConnectionMaxVersion)
            == Some(ArgumentModel::Number(c.maximum_version.wire() as u64)),
{
    lemma_leading_is_own(c, w, 0);
    lemma_leading_is_own(c, w, 1);
    lemma_leading_is_own(c, w, 2);
}

#[verifier::rlimit(40)]
proof fn lemma_leading_is_own(c: ContextModel, w: WrapModel, k: int)
    requires
        c.shared,
        wrap_plan(c, w).refusal is None,
        0 <= k < 3,
    ensures
        crate::plan::last_argument(
            wrap_plan(c, w).steps,
            crate::context::leading_settings(c)[k].call.function,
        ) == Some(crate::context::leading_settings(c)[k].call.argument),
{
    let function = crate::context::leading_settings(c)[k].call.function;
    let argument = crate::context::leading_settings(c)[k].call.argument;
    let p = |x: StepModel| x.call.function == function ==> x.call.argument == argument;
    let settings = crate::context::settings_plan(c).steps;
    assert forall|i: int| 0 <= i < settings.len() implies p(#[trigger] settings[i]) by {}
    lemma_fingerprint_keeps(c, function, argument);
    lemma_setting_is_own(c, w, k, function, argument);
}

/// A client's connection advertises the protocols that were set on its
/// context, be there a fingerprint or not, unless there is one and none were
/// set. Without a fingerprint, an engine context of its own has them already.
pub proof fn law_own_protocols_are_advertised(c: ContextModel, w: WrapModel)
    requires
        !c.is_server,
        wrap_plan(c, w).refusal is None,
        if c.fingerprint is Some {
            c.alpn_list.len() > 0
        } else {
            c.shared
        },
    ensures
        crate::plan::last_argument(wrap_plan(c, w).steps, Function::SetAlpn) == Some(
            ArgumentModel::Bytes(crate::lists::encoded(c.alpn_list)),
        ),
{
    match c.fingerprint {
        Some(fp) => {
            lemma_override_prevails(c, w, fp);
        },
        None => {
            let function = Function::SetAlpn;
            let argument = ArgumentModel::Bytes(crate::lists::encoded(c.alpn_list));
            let p = |x: StepModel| x.call.function == function ==> x.call.argument == argument;
            let settings = crate::context::settings_plan(c).steps;
            assert forall|i: int| 0 <= i < settings.len() implies p(#[trigger] settings[i]) by {}
            lemma_setting_is_own(c, w, 3, function, argument);
        },
    }
}

#[verifier::rlimit(40)]
proof fn lemma_protocols_set_alike(c: ContextModel, w: WrapModel, fp: FingerprintModel)
    requires
        c.fingerprint == Some(fp),
        c.alpn_list.len() > 0,
    ensures
        crate::plan::every(
            wrap_plan(c, w).steps,
            |x: StepModel|
                x.call.function == Function::SetAlpn ==> x.call.argument == ArgumentModel::Bytes(
                    crate::lists::encoded(c.alpn_list),
                ),
        ),
{
    let argument = ArgumentModel::Bytes(crate::lists::encoded(c.alpn_list));
    let p = |x: StepModel| x.call.function == Function::SetAlpn ==> x.call.argument == argument;
    let steps = fingerprint_plan(c).steps;
    assert forall|i: int| 0 <= i < steps.len() implies p(#[trigger] steps[i]) by {
        crate::fingerprint::apply::law_override_is_respected(fp, c.alpn_list, i);
    }
    let settings = crate::context::settings_plan(c).steps;
    assert forall|i: int| 0 <= i < settings.len() implies p(#[trigger] settings[i]) by {}
    lemma_every_wrapped(c, w, p);
}

/// The steps of the fingerprint stand among those of the connection.
#[verifier::rlimit(40)]
proof fn lemma_fingerprint_at(c: ContextModel, w: WrapModel, k: int) -> (at: int)
    requires
        !c.is_server,
        wrap_plan(c, w).refusal is None,
        0 <= k < fingerprint_plan(c).steps.len(),
    ensures
        0 <= at < wrap_plan(c, w).steps.len(),
        wrap_plan(c, w).steps[at] == fingerprint_plan(c).steps[k],
        fingerprint_plan(c).refusal is None,
{
    let host = hostname_plan(w.hostname, w.is_ip, c.check_hostname);
    let settings = crate::context::settings_plan(c);
    let start = prelude(c, w).steps.len() + settings.steps.len();
    let ahead = 1 + host.steps.len() + session_plan(w.session).steps.len();
    let side = connect_plan(c, w);
    assert(side.refusal is None);
    assert(side.steps[ahead + k] == fingerprint_plan(c).steps[k]);
    assert(wrap_plan(c, w).steps[start + (ahead + k)] == side.steps[ahead + k]);
    start + (ahead + k)
}

#[verifier::rlimit(40)]
proof fn lemma_override_prevails(c: ContextModel, w: WrapModel, fp: FingerprintModel)
    requires
        !c.is_server,
        wrap_plan(c, w).refusal is None,
        c.fingerprint == Some(fp),
        c.alpn_list.len() > 0,
    ensures
        crate::plan::last_argument(wrap_plan(c, w).steps, Function::SetAlpn) == Some(
            ArgumentModel::Bytes(crate::lists::encoded(c.alpn_list)),
        ),
{
    let list = c.alpn_list;
    lemma_protocols_set_alike(c, w, fp);
    assert(fingerprint_plan(c).refusal is None);
    crate::fingerprint::apply::law_when_a_fingerprint_is_refused(fp, Some(list));
    crate::fingerprint::apply::law_override_is_advertised(fp, list);
    let steps = fingerprint_plan(c).steps;
    let k = choose|k: int|
        0 <= k < steps.len() && steps[k] == crate::fingerprint::apply::alpn_step(list);
    let at = lemma_fingerprint_at(c, w, k);
    crate::plan::lemma_last_argument(
        wrap_plan(c, w).steps,
        Function::SetAlpn,
        ArgumentModel::Bytes(crate::lists::encoded(list)),
        at,
    );
}

/// Where contexts share an engine context, a connection has the verify flags
/// of the context that it was made from: those of the engine context that were
/// set through it are gone.
#[verifier::rlimit(40)]
pub proof fn law_connection_has_own_flags(c: ContextModel, w: WrapModel, base: u64)
    requires
        c.shared,
        wrap_plan(c, w).refusal is None,
        base & c.inherited_flags == 0,
    ensures
        crate::context::engine_flags(base | c.inherited_flags, wrap_plan(c, w).steps) == base
            | c.verify_flags,
{
    let keeps = |x: StepModel| crate::context::keeps_flags(x);
    let bits = base | c.inherited_flags;
    let lead = crate::context::leading_settings(c) + crate::context::own_lists(c)
        + crate::context::own_callbacks(c) + seq![crate::context::connection_param_step()];
    let change = crate::context::replacing_steps(c.inherited_flags, c.verify_flags);
    let before = prelude(c, w).steps;
    let after = side_plan(c, w).steps;
    assert(wrap_plan(c, w).steps =~= before + lead + change + after);
    lemma_opening(c, w);
    let neutral = |x: StepModel| is_neutral(x.call.function);
    assert forall|i: int| 0 <= i < before.len() implies keeps(#[trigger] before[i]) by {
        assert(neutral(before[i]));
    }
    let steps = fingerprint_plan(c).steps;
    assert forall|i: int| 0 <= i < steps.len() implies keeps(#[trigger] steps[i]) by {
        crate::fingerprint::apply::law_fingerprint_only_shapes(
            c.fingerprint->Some_0,
            if c.alpn_list.len() == 0 {
                None
            } else {
                Some(c.alpn_list)
            },
            i,
        );
    }
    lemma_every_side(c, w, keeps);
    assert forall|i: int| 0 <= i < lead.len() implies keeps(#[trigger] lead[i]) by {}
    crate::context::lemma_flags_append(bits, before + lead + change, after);
    crate::context::lemma_flags_append(bits, before + lead, change);
    crate::context::lemma_flags_append(bits, before, lead);
    crate::context::lemma_flags_kept(bits, before);
    crate::context::lemma_flags_kept(bits, lead);
    crate::context::lemma_flags_replaced(base, c.inherited_flags, c.verify_flags);
    crate::context::lemma_flags_kept(base | c.verify_flags, after);
}

/// Where contexts share an engine context, what the callbacks find for a
/// connection follows the context that it was made from: the key log and the
/// SNI dispatcher that were set on that context, or taken out.
#[verifier::rlimit(40)]
pub proof fn law_connection_has_own_callbacks(c: ContextModel, w: WrapModel)
    requires
        c.shared,
        wrap_plan(c, w).refusal is None,
    ensures
        c.own_keylog matches Some(on) ==> crate::plan::last_argument(
            wrap_plan(c, w).steps,
            Function::RegisterConnectionKeylog,
        ) == Some(ArgumentModel::Flag(on)),
        c.own_sni matches Some(on) ==> crate::plan::last_argument(
            wrap_plan(c, w).steps,
            Function::RegisterConnectionSni,
        ) == Some(ArgumentModel::Flag(on)),
{
    let ahead = crate::context::leading_settings(c).len() + crate::context::own_lists(c).len();
    match c.own_keylog {
        Some(on) => {
            lemma_callback_is_own(c, w, ahead as int, Function::RegisterConnectionKeylog, on);
        },
        None => {},
    }
    match c.own_sni {
        Some(on) => {
            let before: int = if c.own_keylog is Some {
                1
            } else {
                0
            };
            lemma_callback_is_own(c, w, ahead + before, Function::RegisterConnectionSni, on);
        },
        None => {},
    }
}

#[verifier::rlimit(40)]
proof fn lemma_callback_is_own(
    c: ContextModel,
    w: WrapModel,
    k: int,
    function: Function,
    on: bool,
)
    requires
        c.shared,
        wrap_plan(c, w).refusal is None,
        function == Function::RegisterConnectionKeylog && c.own_keylog == Some(on) || function
            == Function::RegisterConnectionSni && c.own_sni == Some(on),
        0 <= k < crate::context::settings_plan(c).steps.len(),
        crate::context::settings_plan(c).steps[k].call.function == function,
    ensures
        crate::plan::last_argument(wrap_plan(c, w).steps, function) == Some(
            ArgumentModel::Flag(on),
        ),
{
    let argument = ArgumentModel::Flag(on);
    let p = |x: StepModel| x.call.function == function ==> x.call.argument == argument;
    let settings = crate::context::settings_plan(c).steps;
    assert forall|i: int| 0 <= i < settings.len() implies p(#[trigger] settings[i]) by {}
    lemma_fingerprint_keeps(c, function, argument);
    lemma_setting_is_own(c, w, k, function, argument);
}

/// Where a key log was switched on while the engine context was shared, the
/// key-log callback is set on a private context, which the connection has
/// before anything is written: the shared one is not touched.
#[verifier::rlimit(40)]
pub proof fn law_own_keylog_is_private(c: ContextModel, w: WrapModel)
    requires
        c.own_keylog == Some(true),
        wrap_plan(c, w).refusal is None,
    ensures
        exists|i: int, j: int|
            0 <= i < j < wrap_plan(c, w).steps.len() && (#[trigger] wrap_plan(c, w).steps[i]).call
                == (crate::plan::CallModel {
                function: Function::SetKeylogCallback,
                argument: ArgumentModel::Flag(true),
            }) && (#[trigger] wrap_plan(c, w).steps[j]).call.function
                == Function::AttachPrivateContext,
{
    let all = wrap_plan(c, w).steps;
    let private = private_plan(c, w.native);
    let head = crate::context::creation_plan(side_of(c)).followed_by(
        crate::plan::plan_of(shared_steps(w.native)),
    ).followed_by(ciphers_plan(w.native.ciphers));
    let k: int = head.steps.len() + if w.native.keylog {
        1int
    } else {
        0
    };
    assert(private.refusal is None);
    assert(private.steps[k] == callback_steps(c, w.native)[k - head.steps.len()]);
    let n = private.steps.len() as int;
    assert(all[1 + k] == private.steps[k]);
    assert(all[1 + n].call.function == Function::AttachPrivateContext);
    assert(0 <= 1 + k < 1 + n < all.len());
}

/// A context's own ECH configuration is set last, so it prevails over what the
/// fingerprint says of ECH.
#[verifier::rlimit(40)]
pub proof fn law_own_ech_prevails(c: ContextModel, w: WrapModel)
    requires
        !c.is_server,
        wrap_plan(c, w).refusal is None,
    ensures
        c.ech_config_list matches Some(b) ==> wrap_plan(c, w).steps.len() > 0 && wrap_plan(
            c,
            w,
        ).steps.last() == crate::fingerprint::apply::ech_config_step(b),
{
}

/// A client that checks hostnames always has the engine compare what it was
/// given: a name strictly, an address as an address.
#[verifier::rlimit(40)]
pub proof fn law_hostname_is_checked(c: ContextModel, w: WrapModel)
    requires
        !c.is_server,
        c.check_hostname,
        w.hostname is Some,
        wrap_plan(c, w).refusal is None,
    ensures
        exists|i: int|
            0 <= i < wrap_plan(c, w).steps.len() && (#[trigger] wrap_plan(c, w).steps[i]).call
                == (crate::plan::CallModel {
                function: if w.is_ip {
                    Function::ExpectIp
                } else {
                    Function::ExpectHost
                },
                argument: ArgumentModel::Text(w.hostname->Some_0),
            }),
{
    let all = wrap_plan(c, w).steps;
    let n: int = prelude(c, w).steps.len() + crate::context::settings_plan(c).steps.len() as int;
    let host = hostname_plan(w.hostname, w.is_ip, true);
    let at: int = if w.is_ip {
        n + 1
    } else {
        n + 2
    };
    assert(connect_plan(c, w).refusal is None);
    assert(all[at] == connect_plan(c, w).steps[at - n]);
    assert(connect_plan(c, w).steps[at - n] == host.steps[at - n - 1]);
}

/// An IP address never goes out as a server name.
pub proof fn law_no_server_name_for_addresses(hostname: Option<Seq<char>>, check: bool, i: int)
    requires
        0 <= i < hostname_plan(hostname, true, check).steps.len(),
    ensures
        hostname_plan(hostname, true, check).steps[i].call.function != Function::SetServerName,
{
}

/// A server's connection is set up from nothing but the settings of its
/// context and the session: hostname, hostname check and ECH configuration
/// play no part.
#[verifier::rlimit(40)]
pub proof fn law_server_connection(c: ContextModel, w: WrapModel)
    requires
        c.is_proper(),
        c.is_server,
    ensures
        wrap_plan(c, w) == crate::plan::plan_of(
            seq![plain_call(Function::NewConnection, "SSL_new"@)],
        ).followed_by(attach_plan(c, w.native)).followed_by(
            crate::plan::plan_of(
                seq![crate::plan::ignoring(Function::SetBio, ArgumentModel::Nothing)]
                    + crate::context::settings_plan(c).steps + seq![
                    crate::plan::ignoring(Function::SetAcceptState, ArgumentModel::Nothing),
                    crate::plan::ignoring(Function::AttachCaptureSlot, ArgumentModel::Nothing),
                ] + crate::plan::step_if(
                    w.session,
                    plain_call(Function::SetSession, "SSL_set_session"@),
                ),
            ),
        ),
        attach_plan(c, w.native).steps.len() > 0 ==> c.own_keylog == Some(true),
{
    let tail = seq![crate::plan::ignoring(Function::SetBio, ArgumentModel::Nothing)]
        + crate::context::settings_plan(c).steps + seq![
        crate::plan::ignoring(Function::SetAcceptState, ArgumentModel::Nothing),
        crate::plan::ignoring(Function::AttachCaptureSlot, ArgumentModel::Nothing),
    ] + crate::plan::step_if(w.session, plain_call(Function::SetSession, "SSL_set_session"@));
    if opening(c, w).refusal is None {
        assert(wrap_plan(c, w).steps =~= opening(c, w).steps + tail);
    }
}

// ------------------------------------ what the arguments of a connection do

/// Whether a function sets up a connection by its own arguments and side.
spec fn is_of_side(function: Function) -> bool {
    match function {
        Function::SetServerName | Function::ExpectHost | Function::ExpectIp => true,
        Function::SetHostFlags | Function::SetSession => true,
        Function::SetConnectState | Function::SetAcceptState => true,
        Function::AttachCaptureSlot => true,
        _ => false,
    }
}

/// What comes before a connection is set up by its side.
spec fn before_side(c: ContextModel, w: WrapModel) -> PlanModel {
    prelude(c, w).followed_by(crate::context::settings_plan(c))
}

#[verifier::rlimit(40)]
proof fn lemma_before_side(c: ContextModel, w: WrapModel)
    ensures
        crate::plan::every(
            before_side(c, w).steps,
            |x: StepModel| !is_of_side(x.call.function) && x.call.function
                != Function::SetEchConfig,
        ),
{
    let p = |x: StepModel| !is_of_side(x.call.function) && x.call.function
        != Function::SetEchConfig;
    let s = w.native;
    let a1 = crate::context::creation_plan(side_of(c));
    let shared = crate::plan::plan_of(shared_steps(s));
    let a2 = a1.followed_by(shared);
    crate::plan::lemma_every_followed(a1, shared, p);
    let a3 = a2.followed_by(ciphers_plan(s.ciphers));
    crate::plan::lemma_every_followed(a2, ciphers_plan(s.ciphers), p);
    crate::plan::lemma_every_followed(a3, crate::plan::plan_of(callback_steps(c, s)), p);
    let attach = crate::plan::plan_of(
        seq![plain_call(Function::AttachPrivateContext, "SSL_set_SSL_CTX"@)],
    );
    let new = crate::plan::plan_of(seq![plain_call(Function::NewConnection, "SSL_new"@)]);
    let bio = crate::plan::plan_of(
        seq![crate::plan::ignoring(Function::SetBio, ArgumentModel::Nothing)],
    );
    crate::plan::lemma_every_followed(private_plan(c, s), attach, p);
    crate::plan::lemma_every_followed(new, attach_plan(c, s), p);
    crate::plan::lemma_every_followed(opening(c, w), bio, p);
    let settings = crate::context::settings_plan(c);
    assert forall|i: int| 0 <= i < settings.steps.len() implies p(
        #[trigger] settings.steps[i],
    ) by {}
    crate::plan::lemma_every_followed(prelude(c, w), settings, p);
}

/// What the last call of a function of the side is given is what it is given
/// there.
#[verifier::rlimit(40)]
proof fn lemma_side_decides(c: ContextModel, w: WrapModel, function: Function)
    requires
        wrap_plan(c, w).refusal is None,
        is_of_side(function) || function == Function::SetEchConfig,
    ensures
        crate::plan::last_argument(wrap_plan(c, w).steps, function) == crate::plan::last_argument(
            side_plan(c, w).steps,
            function,
        ),
        side_plan(c, w).refusal is None,
{
    lemma_before_side(c, w);
    let before = before_side(c, w).steps;
    let p = |x: StepModel| !is_of_side(x.call.function) && x.call.function
        != Function::SetEchConfig;
    let q = |x: StepModel| x.call.function != function;
    assert forall|i: int| 0 <= i < before.len() implies q(#[trigger] before[i]) by {
        assert(p(before[i]));
    }
    crate::plan::lemma_no_argument(before, function);
    crate::plan::lemma_last_append(before, side_plan(c, w).steps, function);
    assert(wrap_plan(c, w).steps =~= before + side_plan(c, w).steps);
}

#[verifier::rlimit(40)]
proof fn lemma_side_gives(
    c: ContextModel,
    w: WrapModel,
    function: Function,
    argument: Option<ArgumentModel>,
    at: int,
)
    requires
        wrap_plan(c, w).refusal is None,
        is_of_side(function),
        crate::plan::every(
            accept_plan(w).steps,
            |x: StepModel|
                c.is_server ==> x.call.function == function ==> Some(x.call.argument) == argument,
        ),
        !c.is_server ==> crate::plan::every(
            hostname_plan(w.hostname, w.is_ip, c.check_hostname).steps,
            crate::plan::gives(function, argument),
        ),
        !c.is_server && function == Function::SetConnectState ==> argument == Some(
            ArgumentModel::Nothing,
        ),
        !c.is_server && w.session && function == Function::SetSession ==> argument == Some(
            ArgumentModel::Nothing,
        ),
        argument is Some ==> 0 <= at < side_plan(c, w).steps.len() && side_plan(
            c,
            w,
        ).steps[at].call.function == function,
    ensures
        crate::plan::last_argument(wrap_plan(c, w).steps, function) == argument,
{
    lemma_side_decides(c, w, function);
    let p = crate::plan::gives(function, argument);
    let side = side_plan(c, w).steps;
    if c.is_server {
        let q = |x: StepModel|
            c.is_server ==> x.call.function == function ==> Some(x.call.argument) == argument;
        assert forall|i: int| 0 <= i < side.len() implies p(#[trigger] side[i]) by {
            assert(q(accept_plan(w).steps[i]));
        }
    } else {
        let a1 = crate::plan::plan_of(
            seq![crate::plan::ignoring(Function::SetConnectState, ArgumentModel::Nothing)],
        );
        let host = hostname_plan(w.hostname, w.is_ip, c.check_hostname);
        let a2 = a1.followed_by(host);
        crate::plan::lemma_every_followed(a1, host, p);
        let a3 = a2.followed_by(session_plan(w.session));
        crate::plan::lemma_every_followed(a2, session_plan(w.session), p);
        let a4 = a3.followed_by(fingerprint_plan(c));
        let steps = fingerprint_plan(c).steps;
        assert forall|i: int| 0 <= i < steps.len() implies p(#[trigger] steps[i]) by {
            crate::fingerprint::apply::law_fingerprint_only_shapes(
                c.fingerprint->Some_0,
                if c.alpn_list.len() == 0 {
                    None
                } else {
                    Some(c.alpn_list)
                },
                i,
            );
        }
        crate::plan::lemma_every_followed(a3, fingerprint_plan(c), p);
        crate::plan::lemma_every_followed(a4, ech_override_plan(c), p);
    }
    crate::plan::lemma_given(side, function, argument, at);
}

/// A client sends the name that it connects to as SNI, whether hostnames are
/// checked or not; an address is never sent, and a server sends none.
pub proof fn law_server_name_is_sent(c: ContextModel, w: WrapModel)
    requires
        wrap_plan(c, w).refusal is None,
    ensures
        crate::plan::last_argument(wrap_plan(c, w).steps, Function::SetServerName) == (
        if c.is_server || w.is_ip {
            None
        } else {
            match w.hostname {
                Some(host) => Some(ArgumentModel::Text(host)),
                None => None,
            }
        }),
{
    let argument = if c.is_server || w.is_ip {
        None
    } else {
        match w.hostname {
            Some(host) => Some(ArgumentModel::Text(host)),
            None => None,
        }
    };
    lemma_side_decides(c, w, Function::SetServerName);
    lemma_side_gives(c, w, Function::SetServerName, argument, 1);
}

/// A client that checks hostnames has the engine compare the name, strictly:
/// with no partial wildcards and without the subject's common name. An address
/// is compared as an address. Where hostnames are not checked, and on a
/// server, nothing is compared.
#[verifier::rlimit(40)]
pub proof fn law_what_is_compared(c: ContextModel, w: WrapModel)
    requires
        wrap_plan(c, w).refusal is None,
    ensures
        ({
            let compared = if c.is_server || !c.check_hostname {
                None
            } else {
                w.hostname
            };
            &&& crate::plan::last_argument(wrap_plan(c, w).steps, Function::ExpectHost) == (
            match compared {
                Some(host) if !w.is_ip => Some(ArgumentModel::Text(host)),
                _ => None,
            })
            &&& crate::plan::last_argument(wrap_plan(c, w).steps, Function::SetHostFlags) == (
            match compared {
                Some(host) if !w.is_ip => Some(ArgumentModel::Number(0x20)),
                _ => None,
            })
            &&& crate::plan::last_argument(wrap_plan(c, w).steps, Function::ExpectIp) == (
            match compared {
                Some(host) if w.is_ip => Some(ArgumentModel::Text(host)),
                _ => None,
            })
        }),
{
    let compared = if c.is_server || !c.check_hostname {
        None
    } else {
        w.hostname
    };
    let name = match compared {
        Some(host) if !w.is_ip => Some(ArgumentModel::Text(host)),
        _ => None,
    };
    let flags = match compared {
        Some(host) if !w.is_ip => Some(ArgumentModel::Number(0x20)),
        _ => None,
    };
    let address = match compared {
        Some(host) if w.is_ip => Some(ArgumentModel::Text(host)),
        _ => None,
    };
    lemma_side_decides(c, w, Function::ExpectHost);
    lemma_side_gives(c, w, Function::ExpectHost, name, 2);
    lemma_side_gives(c, w, Function::SetHostFlags, flags, 3);
    lemma_side_gives(c, w, Function::ExpectIp, address, 1);
}

/// A connection connects or accepts by the side of its context; only one that
/// accepts has a slot for the captured ClientHello; and a session is resumed
/// exactly where one is given.
#[verifier::rlimit(40)]
pub proof fn law_sides_and_sessions(c: ContextModel, w: WrapModel)
    requires
        wrap_plan(c, w).refusal is None,
    ensures
        crate::plan::last_argument(wrap_plan(c, w).steps, Function::SetConnectState) is Some
            <==> !c.is_server,
        crate::plan::last_argument(wrap_plan(c, w).steps, Function::SetAcceptState) is Some
            <==> c.is_server,
        crate::plan::last_argument(wrap_plan(c, w).steps, Function::AttachCaptureSlot) is Some
            <==> c.is_server,
        crate::plan::last_argument(wrap_plan(c, w).steps, Function::SetSession) is Some
            <==> w.session,
{
    let on = |there: bool|
        if there {
            Some(ArgumentModel::Nothing)
        } else {
            None
        };
    lemma_side_decides(c, w, Function::SetSession);
    lemma_side_gives(c, w, Function::SetConnectState, on(!c.is_server), 0);
    lemma_side_gives(c, w, Function::SetAcceptState, on(c.is_server), 0);
    lemma_side_gives(c, w, Function::AttachCaptureSlot, on(c.is_server), 1);
    let host = hostname_plan(w.hostname, w.is_ip, c.check_hostname);
    let at: int = if c.is_server {
        2
    } else {
        1 + host.steps.len() as int
    };
    if w.session && !c.is_server {
        assert(side_plan(c, w).steps[at] == session_plan(w.session).steps[0]);
    }
    lemma_side_gives(c, w, Function::SetSession, on(w.session), at);
}

/// The list that the caller set on a context, where it is not empty.
pub open spec fn set_protocols(c: ContextModel) -> Option<Seq<Seq<u8>>> {
    if c.alpn_list.len() == 0 {
        None
    } else {
        Some(c.alpn_list)
    }
}

/// A client's connection shows the fingerprint of its context: whatever the
/// fingerprint gives to a function is what that function is given last, but
/// for a real ECH configuration, which the context's own replaces. Protocols
/// that were set on the context stand in for the fingerprint's.
#[verifier::rlimit(40)]
pub proof fn law_fingerprint_is_shown(
    c: ContextModel,
    w: WrapModel,
    fp: FingerprintModel,
    function: Function,
)
    requires
        !c.is_server,
        c.fingerprint == Some(fp),
        wrap_plan(c, w).refusal is None,
        function != Function::SetEchConfig,
    ensures
        crate::fingerprint::apply::applied(
            fp,
            if c.alpn_list.len() == 0 {
                None
            } else {
                Some(c.alpn_list)
            },
        ).refusal is None,
        crate::plan::last_argument(
            crate::fingerprint::apply::applied(
                fp,
                if c.alpn_list.len() == 0 {
                    None
                } else {
                    Some(c.alpn_list)
                },
            ).steps,
            function,
        ) matches Some(a) ==> crate::plan::last_argument(wrap_plan(c, w).steps, function) == Some(
            a,
        ),
{
    let applied = fingerprint_plan(c);
    let ech = ech_override_plan(c);
    let side = connect_plan(c, w);
    let ahead = crate::plan::plan_of(
        seq![crate::plan::ignoring(Function::SetConnectState, ArgumentModel::Nothing)],
    ).followed_by(hostname_plan(w.hostname, w.is_ip, c.check_hostname)).followed_by(
        session_plan(w.session),
    );
    assert(side.refusal is None);
    assert(ahead.refusal is None);
    assert(applied.refusal is None);
    assert(side.steps =~= ahead.steps + (applied.steps + ech.steps));
    let before = before_side(c, w).steps;
    assert(wrap_plan(c, w).steps =~= before + side.steps);
    let q = |x: StepModel| x.call.function != function;
    assert(crate::plan::every(ech.steps, q));
    crate::plan::lemma_no_argument(ech.steps, function);
    crate::plan::lemma_last_append(applied.steps, ech.steps, function);
    crate::plan::lemma_last_append(ahead.steps, applied.steps + ech.steps, function);
    crate::plan::lemma_last_append(before, side.steps, function);
}

/// A client's connection offers the ECH configuration of its context where
/// that has one, whatever the fingerprint says; else the fingerprint's, where
/// that holds a real one; else none. A server's offers none.
#[verifier::rlimit(40)]
pub proof fn law_which_ech_is_offered(c: ContextModel, w: WrapModel)
    requires
        c.is_proper(),
        wrap_plan(c, w).refusal is None,
    ensures
        crate::plan::last_argument(wrap_plan(c, w).steps, Function::SetEchConfig) == (
        if c.is_server {
            None
        } else {
            match (c.ech_config_list, c.fingerprint) {
                (Some(own), _) => Some(ArgumentModel::Bytes(own)),
                (None, Some(fp)) => match fp.ech {
                    crate::fingerprint::spec::EchModel::Real(b) => Some(ArgumentModel::Bytes(b)),
                    _ => None,
                },
                (None, None) => None,
            }
        }),
{
    let f = Function::SetEchConfig;
    lemma_side_decides(c, w, f);
    let q = |x: StepModel| x.call.function != f;
    if c.is_server {
        assert(crate::plan::every(accept_plan(w).steps, q));
        crate::plan::lemma_no_argument(accept_plan(w).steps, f);
    } else {
        let applied = fingerprint_plan(c);
        let ech = ech_override_plan(c);
        let side = connect_plan(c, w);
        let a1 = crate::plan::plan_of(
            seq![crate::plan::ignoring(Function::SetConnectState, ArgumentModel::Nothing)],
        );
        let host = hostname_plan(w.hostname, w.is_ip, c.check_hostname);
        let a2 = a1.followed_by(host);
        let ahead = a2.followed_by(session_plan(w.session));
        crate::plan::lemma_every_followed(a1, host, q);
        crate::plan::lemma_every_followed(a2, session_plan(w.session), q);
        crate::plan::lemma_no_argument(ahead.steps, f);
        assert(side.steps =~= ahead.steps + applied.steps + ech.steps);
        crate::plan::lemma_last_append(ahead.steps + applied.steps, ech.steps, f);
        crate::plan::lemma_last_append(ahead.steps, applied.steps, f);
        match c.ech_config_list {
            Some(own) => {
                crate::plan::lemma_given(ech.steps, f, Some(ArgumentModel::Bytes(own)), 0);
            },
            None => {
                crate::plan::lemma_no_argument(ech.steps, f);
            },
        }
        match c.fingerprint {
            Some(fp) => {
                crate::fingerprint::apply::law_ech_follows_the_policy(fp, set_protocols(c));
            },
            None => {
                crate::plan::lemma_no_argument(applied.steps, f);
            },
        }
    }
}

/// Whether a function hands something of a context on to a private one.
spec fn is_sharing(function: Function) -> bool {
    match function {
        Function::ShareStore | Function::SetStore | Function::CopyParam => true,
        Function::CopyCertificate | Function::CopyKey | Function::CopyChain => true,
        _ => false,
    }
}

#[verifier::rlimit(40)]
proof fn lemma_private_segments(c: ContextModel, s: SnapshotModel, function: Function)
    requires
        private_plan(c, s).refusal is None,
    ensures
        is_sharing(function) ==> crate::plan::last_argument(private_plan(c, s).steps, function)
            == crate::plan::last_argument(shared_steps(s), function),
        function == Function::SetContextCiphers ==> crate::plan::last_argument(
            private_plan(c, s).steps,
            function,
        ) == crate::plan::last_argument(ciphers_plan(s.ciphers).steps, function),
        function == Function::CopyKeylog || function == Function::SetKeylogCallback || function
            == Function::CopySni ==> crate::plan::last_argument(
            private_plan(c, s).steps,
            function,
        ) == crate::plan::last_argument(callback_steps(c, s), function),
        ciphers_plan(s.ciphers).refusal is None,
{
    let made = crate::context::creation_plan(side_of(c)).steps;
    let shared = shared_steps(s);
    let ciphers = ciphers_plan(s.ciphers).steps;
    let callbacks = callback_steps(c, s);
    assert(private_plan(c, s).steps =~= made + shared + ciphers + callbacks);
    crate::plan::lemma_last_append(made + shared + ciphers, callbacks, function);
    crate::plan::lemma_last_append(made + shared, ciphers, function);
    crate::plan::lemma_last_append(made, shared, function);
    let q = |x: StepModel| x.call.function != function;
    if is_sharing(function) {
        assert(crate::plan::every(made, q));
        crate::plan::lemma_no_argument(made, function);
        crate::plan::lemma_no_argument(ciphers, function);
        crate::plan::lemma_no_argument(callbacks, function);
    } else if function == Function::SetContextCiphers {
        assert(crate::plan::every(made, q));
        crate::plan::lemma_no_argument(made, function);
        crate::plan::lemma_no_argument(shared, function);
        crate::plan::lemma_no_argument(callbacks, function);
    } else if function == Function::CopyKeylog || function == Function::SetKeylogCallback
        || function == Function::CopySni {
        assert(crate::plan::every(made, q));
        crate::plan::lemma_no_argument(made, function);
        crate::plan::lemma_no_argument(shared, function);
        crate::plan::lemma_no_argument(ciphers, function);
    }
}

proof fn lemma_shared_given(s: SnapshotModel, function: Function, there: bool, at: int)
    requires
        is_sharing(function),
        there ==> 0 <= at < shared_steps(s).len() && shared_steps(s)[at].call.function == function,
        !there ==> crate::plan::every(
            shared_steps(s),
            |x: StepModel| x.call.function != function,
        ),
    ensures
        crate::plan::last_argument(shared_steps(s), function) is Some <==> there,
{
    if there {
        let p = crate::plan::gives(function, Some(ArgumentModel::Nothing));
        assert(crate::plan::every(shared_steps(s), p));
        crate::plan::lemma_given(shared_steps(s), function, Some(ArgumentModel::Nothing), at);
    } else {
        crate::plan::lemma_no_argument(shared_steps(s), function);
    }
}

/// A private context shares what its source has and nothing that it lacks:
/// store and verification parameters always, certificate, key and chain where
/// there are any.
#[verifier::rlimit(40)]
pub proof fn law_private_context_shares(c: ContextModel, s: SnapshotModel)
    requires
        private_plan(c, s).refusal is None,
    ensures
        ({
            let steps = private_plan(c, s).steps;
            &&& crate::plan::last_argument(steps, Function::ShareStore) is Some
            &&& crate::plan::last_argument(steps, Function::SetStore) is Some
            &&& crate::plan::last_argument(steps, Function::CopyParam) is Some
            &&& crate::plan::last_argument(steps, Function::CopyCertificate) is Some
                <==> s.certificate
            &&& crate::plan::last_argument(steps, Function::CopyKey) is Some <==> s.key
            &&& crate::plan::last_argument(steps, Function::CopyChain) is Some <==> s.chain
        }),
{
    let after_certificate: int = 3 + if s.certificate {
        1int
    } else {
        0
    };
    lemma_private_segments(c, s, Function::ShareStore);
    lemma_shared_given(s, Function::ShareStore, true, 0);
    lemma_private_segments(c, s, Function::SetStore);
    lemma_shared_given(s, Function::SetStore, true, 1);
    lemma_private_segments(c, s, Function::CopyParam);
    lemma_shared_given(s, Function::CopyParam, true, 2);
    lemma_private_segments(c, s, Function::CopyCertificate);
    lemma_shared_given(s, Function::CopyCertificate, s.certificate, 3);
    lemma_private_segments(c, s, Function::CopyKey);
    lemma_shared_given(s, Function::CopyKey, s.key, after_certificate);
    lemma_private_segments(c, s, Function::CopyChain);
    lemma_shared_given(s, Function::CopyChain, s.chain, shared_steps(s).len() - 1);
}

/// A private context has the cipher suites of its source, in their order; the
/// key log of its source where there is one; and on a server the SNI
/// dispatcher.
#[verifier::rlimit(40)]
pub proof fn law_private_context_carries_on(c: ContextModel, s: SnapshotModel)
    requires
        private_plan(c, s).refusal is None,
    ensures
        ({
            let steps = private_plan(c, s).steps;
            &&& crate::plan::last_argument(steps, Function::SetContextCiphers) == (
            if s.ciphers.len() > 0 {
                Some(ArgumentModel::Text(crate::text::joined(s.ciphers, ":"@)))
            } else {
                None
            })
            &&& crate::plan::last_argument(steps, Function::CopyKeylog) is Some <==> s.keylog
            &&& crate::plan::last_argument(steps, Function::SetKeylogCallback) == (if s.keylog
                || c.own_keylog == Some(true) {
                Some(ArgumentModel::Flag(true))
            } else {
                None
            })
            &&& crate::plan::last_argument(steps, Function::CopySni) is Some <==> c.is_server
        }),
{
    lemma_private_segments(c, s, Function::SetContextCiphers);
    lemma_private_segments(c, s, Function::CopyKeylog);
    lemma_private_segments(c, s, Function::SetKeylogCallback);
    lemma_private_segments(c, s, Function::CopySni);
    let text = if s.ciphers.len() > 0 {
        Some(ArgumentModel::Text(crate::text::joined(s.ciphers, ":"@)))
    } else {
        None
    };
    crate::plan::lemma_given(ciphers_plan(s.ciphers).steps, Function::SetContextCiphers, text, 0);
    let on = |there: bool|
        if there {
            Some(ArgumentModel::Nothing)
        } else {
            None
        };
    let callback = if s.keylog || c.own_keylog == Some(true) {
        Some(ArgumentModel::Flag(true))
    } else {
        None
    };
    let callbacks = callback_steps(c, s);
    let second: int = if s.keylog {
        1
    } else {
        0
    };
    crate::plan::lemma_given(callbacks, Function::CopyKeylog, on(s.keylog), 0);
    crate::plan::lemma_given(callbacks, Function::SetKeylogCallback, callback, second);
    crate::plan::lemma_given(callbacks, Function::CopySni, on(c.is_server), callbacks.len() - 1);
}

/// Whether a connection needs and has a private context: one is made and
/// attached exactly where there is a fingerprint, or a key log of the
/// context's own.
#[verifier::rlimit(40)]
pub proof fn law_when_a_private_context_is_made(c: ContextModel, w: WrapModel)
    requires
        wrap_plan(c, w).refusal is None,
    ensures
        (exists|i: int|
            0 <= i < wrap_plan(c, w).steps.len() && (#[trigger] wrap_plan(
                c,
                w,
            ).steps[i]).call.function == Function::AttachPrivateContext) <==> (c.fingerprint is Some
            || c.own_keylog == Some(true)),
{
    let all = wrap_plan(c, w).steps;
    lemma_opening(c, w);
    if needs_private(c) {
        let n = opening(c, w).steps.len() as int;
        assert(all[n - 1] == opening(c, w).steps[n - 1]);
    } else {
        let p = |x: StepModel| x.call.function != Function::AttachPrivateContext;
        let before = before_side(c, w);
        let settings = crate::context::settings_plan(c);
        assert forall|i: int| 0 <= i < settings.steps.len() implies p(
            #[trigger] settings.steps[i],
        ) by {}
        assert(crate::plan::every(prelude(c, w).steps, p));
        crate::plan::lemma_every_followed(prelude(c, w), settings, p);
        let accept = crate::plan::plan_of(
            seq![
                crate::plan::ignoring(Function::SetAcceptState, ArgumentModel::Nothing),
                crate::plan::ignoring(Function::AttachCaptureSlot, ArgumentModel::Nothing),
            ],
        );
        crate::plan::lemma_every_followed(accept, session_plan(w.session), p);
        let a1 = crate::plan::plan_of(
            seq![crate::plan::ignoring(Function::SetConnectState, ArgumentModel::Nothing)],
        );
        let host = hostname_plan(w.hostname, w.is_ip, c.check_hostname);
        let a2 = a1.followed_by(host);
        crate::plan::lemma_every_followed(a1, host, p);
        let a3 = a2.followed_by(session_plan(w.session));
        crate::plan::lemma_every_followed(a2, session_plan(w.session), p);
        let a4 = a3.followed_by(fingerprint_plan(c));
        crate::plan::lemma_every_followed(a3, fingerprint_plan(c), p);
        crate::plan::lemma_every_followed(a4, ech_override_plan(c), p);
        crate::plan::lemma_every_followed(before, side_plan(c, w), p);
        assert forall|i: int| 0 <= i < all.len() implies (#[trigger] all[i]).call.function
            != Function::AttachPrivateContext by {
            assert(p(all[i]));
        }
    }
}

/// The engine's name for a call of a connection's set-up whose failure ends it.
pub open spec fn reported_call(function: Function) -> Option<Seq<char>> {
    match function {
        Function::NewContext => Some("SSL_CTX_new"@),
        Function::SetMinVersion => Some("SSL_CTX_set_min_proto_version"@),
        Function::SetMaxVersion => Some("SSL_CTX_set_max_proto_version"@),
        Function::ShareStore => Some("X509_STORE_up_ref"@),
        Function::CopyParam => Some("X509_VERIFY_PARAM_set1"@),
        Function::CopyCertificate => Some("SSL_CTX_use_certificate"@),
        Function::CopyKey => Some("SSL_CTX_use_PrivateKey"@),
        Function::GetChain | Function::CopyChain => Some("SSL_CTX_set1_chain"@),
        Function::SetContextCiphers => Some("SSL_CTX_set_cipher_list"@),
        Function::NewConnection => Some("SSL_new"@),
        Function::AttachPrivateContext => Some("SSL_set_SSL_CTX"@),
        Function::SetConnectionMinVersion => Some("SSL_set_min_proto_version"@),
        Function::SetConnectionMaxVersion => Some("SSL_set_max_proto_version"@),
        Function::SetConnectionIdContext => Some("SSL_set_session_id_context"@),
        Function::GetConnectionParam => Some("SSL_get0_param"@),
        Function::SetVerifyFlags => Some("X509_VERIFY_PARAM_set_flags"@),
        Function::ExpectHost => Some("SSL_set1_host"@),
        Function::ExpectIp => Some("X509_VERIFY_PARAM_set1_ip_asc"@),
        Function::SetSession => Some("SSL_set_session"@),
        Function::SetEchConfig => Some("SSL_set1_ech_config_list"@),
        Function::SetAlpn => Some("SSL_set_alpn_protos"@),
        _ => None,
    }
}

/// Whether the failure of a step is reported under the name of the call, where
/// the call can fail.
pub open spec fn fails_by_name(step: StepModel) -> bool {
    reported_call(step.call.function) matches Some(name) ==> step.on_failure
        == crate::plan::FailureModel::Report(name)
}

/// No failure that matters is passed over while a connection is set up: where
/// the comparison of the hostname, a session, a setting or the private context
/// is refused, that is reported and the connection is not made.
#[verifier::rlimit(40)]
pub proof fn law_no_failure_is_passed_over(c: ContextModel, w: WrapModel, i: int)
    requires
        0 <= i < wrap_plan(c, w).steps.len(),
    ensures
        fails_by_name(wrap_plan(c, w).steps[i]),
{
    let p = |x: StepModel| fails_by_name(x);
    lemma_prelude_fails_by_name(c, w);
    lemma_settings_fail_by_name(c);
    lemma_side_fails_by_name(c, w);
    crate::plan::lemma_every_followed(prelude(c, w), crate::context::settings_plan(c), p);
    crate::plan::lemma_every_followed(before_side(c, w), side_plan(c, w), p);
    assert(p(wrap_plan(c, w).steps[i]));
}

#[verifier::rlimit(40)]
proof fn lemma_prelude_fails_by_name(c: ContextModel, w: WrapModel)
    ensures
        crate::plan::every(prelude(c, w).steps, |x: StepModel| fails_by_name(x)),
{
    let p = |x: StepModel| fails_by_name(x);
    let s = w.native;
    lemma_private_fails_by_name(c, s);
    let attach = crate::plan::plan_of(
        seq![plain_call(Function::AttachPrivateContext, "SSL_set_SSL_CTX"@)],
    );
    let new = crate::plan::plan_of(seq![plain_call(Function::NewConnection, "SSL_new"@)]);
    let bio = crate::plan::plan_of(
        seq![crate::plan::ignoring(Function::SetBio, ArgumentModel::Nothing)],
    );
    crate::plan::lemma_every_followed(private_plan(c, s), attach, p);
    crate::plan::lemma_every_followed(new, attach_plan(c, s), p);
    crate::plan::lemma_every_followed(opening(c, w), bio, p);
}

#[verifier::rlimit(40)]
proof fn lemma_settings_fail_by_name(c: ContextModel)
    ensures
        crate::plan::every(
            crate::context::settings_plan(c).steps,
            |x: StepModel| fails_by_name(x),
        ),
{
    let p = |x: StepModel| fails_by_name(x);
    if c.shared {
        let a1 = crate::plan::plan_of(crate::context::leading_settings(c));
        let a2 = crate::plan::plan_of(crate::context::own_lists(c));
        let a3 = crate::plan::plan_of(crate::context::own_callbacks(c));
        let a4 = crate::plan::plan_of(seq![crate::context::connection_param_step()]);
        let a5 = crate::plan::plan_of(
            crate::context::replacing_steps(c.inherited_flags, c.verify_flags),
        );
        let b2 = a1.followed_by(a2);
        crate::plan::lemma_every_followed(a1, a2, p);
        let b3 = b2.followed_by(a3);
        crate::plan::lemma_every_followed(b2, a3, p);
        let b4 = b3.followed_by(a4);
        crate::plan::lemma_every_followed(b3, a4, p);
        crate::plan::lemma_every_followed(b4, a5, p);
    }
}

#[verifier::rlimit(40)]
proof fn lemma_private_fails_by_name(c: ContextModel, s: SnapshotModel)
    ensures
        crate::plan::every(private_plan(c, s).steps, |x: StepModel| fails_by_name(x)),
{
    let p = |x: StepModel| fails_by_name(x);
    let a1 = crate::context::creation_plan(side_of(c));
    let shared = crate::plan::plan_of(shared_steps(s));
    let a2 = a1.followed_by(shared);
    crate::plan::lemma_every_followed(a1, shared, p);
    let a3 = a2.followed_by(ciphers_plan(s.ciphers));
    crate::plan::lemma_every_followed(a2, ciphers_plan(s.ciphers), p);
    crate::plan::lemma_every_followed(a3, crate::plan::plan_of(callback_steps(c, s)), p);
}

#[verifier::rlimit(40)]
proof fn lemma_side_fails_by_name(c: ContextModel, w: WrapModel)
    ensures
        crate::plan::every(side_plan(c, w).steps, |x: StepModel| fails_by_name(x)),
{
    let p = |x: StepModel| fails_by_name(x);
    let accept = crate::plan::plan_of(
        seq![
            crate::plan::ignoring(Function::SetAcceptState, ArgumentModel::Nothing),
            crate::plan::ignoring(Function::AttachCaptureSlot, ArgumentModel::Nothing),
        ],
    );
    crate::plan::lemma_every_followed(accept, session_plan(w.session), p);
    let a1 = crate::plan::plan_of(
        seq![crate::plan::ignoring(Function::SetConnectState, ArgumentModel::Nothing)],
    );
    let host = hostname_plan(w.hostname, w.is_ip, c.check_hostname);
    let a2 = a1.followed_by(host);
    crate::plan::lemma_every_followed(a1, host, p);
    let a3 = a2.followed_by(session_plan(w.session));
    crate::plan::lemma_every_followed(a2, session_plan(w.session), p);
    let a4 = a3.followed_by(fingerprint_plan(c));
    let steps = fingerprint_plan(c).steps;
    assert forall|k: int| 0 <= k < steps.len() implies p(#[trigger] steps[k]) by {
        let offered = if c.alpn_list.len() == 0 {
            None
        } else {
            Some(c.alpn_list)
        };
        crate::fingerprint::apply::law_no_refusal_is_passed_over(
            c.fingerprint->Some_0,
            offered,
            k,
        );
        crate::fingerprint::apply::law_fingerprint_only_shapes(
            c.fingerprint->Some_0,
            offered,
            k,
        );
    }
    crate::plan::lemma_every_followed(a3, fingerprint_plan(c), p);
    crate::plan::lemma_every_followed(a4, ech_override_plan(c), p);
}

/// Where contexts share an engine context and there is no fingerprint, a
/// connection has the cipher suites and groups of its own context, where that
/// has its own; the session ID context it has in any case.
#[verifier::rlimit(40)]
pub proof fn law_connection_has_own_lists(c: ContextModel, w: WrapModel)
    requires
        c.shared,
        wrap_plan(c, w).refusal is None,
    ensures
        c.fingerprint is None ==> (c.own_ciphers matches Some(t) ==> crate::plan::last_argument(
            wrap_plan(c, w).steps,
            Function::SetCiphers,
        ) == Some(ArgumentModel::Text(t))),
        c.fingerprint is None ==> (c.own_groups matches Some(t) ==> crate::plan::last_argument(
            wrap_plan(c, w).steps,
            Function::SetGroups,
        ) == Some(ArgumentModel::Text(t))),
        c.own_session_id matches Some(id) ==> crate::plan::last_argument(
            wrap_plan(c, w).steps,
            Function::SetConnectionIdContext,
        ) == Some(ArgumentModel::Bytes(id)),
{
    let n = crate::context::leading_settings(c).len() as int;
    let a: int = if c.own_ciphers is Some {
        1
    } else {
        0
    };
    let b: int = if c.own_groups is Some {
        1
    } else {
        0
    };
    if c.fingerprint is None {
        match c.own_ciphers {
            Some(t) => lemma_list_is_own(c, w, n, Function::SetCiphers, ArgumentModel::Text(t)),
            None => {},
        }
        match c.own_groups {
            Some(t) => lemma_list_is_own(c, w, n + a, Function::SetGroups, ArgumentModel::Text(t)),
            None => {},
        }
    }
    match c.own_session_id {
        Some(id) => lemma_list_is_own(
            c,
            w,
            n + a + b,
            Function::SetConnectionIdContext,
            ArgumentModel::Bytes(id),
        ),
        None => {},
    }
}

#[verifier::rlimit(40)]
proof fn lemma_list_is_own(
    c: ContextModel,
    w: WrapModel,
    k: int,
    function: Function,
    argument: ArgumentModel,
)
    requires
        c.shared,
        wrap_plan(c, w).refusal is None,
        function == Function::SetConnectionIdContext || (c.fingerprint is None && (function
            == Function::SetCiphers || function == Function::SetGroups)),
        0 <= k < crate::context::settings_plan(c).steps.len(),
        crate::context::settings_plan(c).steps[k].call.function == function,
        crate::context::settings_plan(c).steps[k].call.argument == argument,
    ensures
        crate::plan::last_argument(wrap_plan(c, w).steps, function) == Some(argument),
{
    lemma_own_step_is_the_last(c, k, function, argument);
    lemma_side_lacks(c, w, function);
    let settings = crate::context::settings_plan(c).steps;
    let side = side_plan(c, w).steps;
    let before = prelude(c, w).steps;
    crate::plan::lemma_no_argument(side, function);
    assert(wrap_plan(c, w).steps =~= before + settings + side);
    crate::plan::lemma_last_append(before + settings, side, function);
    crate::plan::lemma_last_append(before, settings, function);
}

#[verifier::rlimit(40)]
proof fn lemma_own_step_is_the_last(
    c: ContextModel,
    k: int,
    function: Function,
    argument: ArgumentModel,
)
    requires
        c.shared,
        function == Function::SetConnectionIdContext || function == Function::SetCiphers || function
            == Function::SetGroups,
        0 <= k < crate::context::settings_plan(c).steps.len(),
        crate::context::settings_plan(c).steps[k].call.function == function,
        crate::context::settings_plan(c).steps[k].call.argument == argument,
    ensures
        crate::plan::last_argument(crate::context::settings_plan(c).steps, function) == Some(
            argument,
        ),
{
    let settings = crate::context::settings_plan(c).steps;
    let p = crate::plan::gives(function, Some(argument));
    assert forall|i: int| 0 <= i < settings.len() implies p(#[trigger] settings[i]) by {}
    crate::plan::lemma_given(settings, function, Some(argument), k);
}

#[verifier::rlimit(40)]
proof fn lemma_side_lacks(c: ContextModel, w: WrapModel, function: Function)
    requires
        function == Function::SetConnectionIdContext || (c.fingerprint is None && (function
            == Function::SetCiphers || function == Function::SetGroups)),
    ensures
        crate::plan::every(side_plan(c, w).steps, |x: StepModel| x.call.function != function),
{
    let q = |x: StepModel| x.call.function != function;
    let accept = crate::plan::plan_of(
        seq![
            crate::plan::ignoring(Function::SetAcceptState, ArgumentModel::Nothing),
            crate::plan::ignoring(Function::AttachCaptureSlot, ArgumentModel::Nothing),
        ],
    );
    crate::plan::lemma_every_followed(accept, session_plan(w.session), q);
    let a1 = crate::plan::plan_of(
        seq![crate::plan::ignoring(Function::SetConnectState, ArgumentModel::Nothing)],
    );
    let host = hostname_plan(w.hostname, w.is_ip, c.check_hostname);
    let a2 = a1.followed_by(host);
    crate::plan::lemma_every_followed(a1, host, q);
    let a3 = a2.followed_by(session_plan(w.session));
    crate::plan::lemma_every_followed(a2, session_plan(w.session), q);
    let a4 = a3.followed_by(fingerprint_plan(c));
    let steps = fingerprint_plan(c).steps;
    assert forall|i: int| 0 <= i < steps.len() implies q(#[trigger] steps[i]) by {
        crate::fingerprint::apply::law_fingerprint_only_shapes(
            c.fingerprint->Some_0,
            if c.alpn_list.len() == 0 {
                None
            } else {
                Some(c.alpn_list)
            },
            i,
        );
    }
    crate::plan::lemma_every_followed(a3, fingerprint_plan(c), q);
    crate::plan::lemma_every_followed(a4, ech_override_plan(c), q);
}

/// A connection of a context that shares nothing is left with what it starts
/// with: verify mode, version bounds and verify flags are the engine context's,
/// and nothing is recorded for the connection alone.
#[verifier::rlimit(40)]
pub proof fn law_connections_inherit(c: ContextModel, w: WrapModel, function: Function)
    requires
        !c.shared,
        c.is_proper(),
        function == Function::SetConnectionVerify || function == Function::SetConnectionMinVersion
            || function == Function::SetConnectionMaxVersion || function
            == Function::ClearVerifyFlags || function == Function::SetVerifyFlags || function
            == Function::RegisterConnectionKeylog || function == Function::RegisterConnectionSni,
    ensures
        crate::plan::last_argument(wrap_plan(c, w).steps, function) is None,
{
    let q = |x: StepModel| x.call.function != function;
    let steps = fingerprint_plan(c).steps;
    assert forall|i: int| 0 <= i < steps.len() implies q(#[trigger] steps[i]) by {
        crate::fingerprint::apply::law_fingerprint_only_shapes(
            c.fingerprint->Some_0,
            if c.alpn_list.len() == 0 {
                None
            } else {
                Some(c.alpn_list)
            },
            i,
        );
    }
    lemma_every_wrapped(c, w, q);
    crate::plan::lemma_no_argument(wrap_plan(c, w).steps, function);
}

/// Without a fingerprint and without protocols of a fork, nothing is said of
/// protocols, cipher suites or groups: the engine context has them.
pub proof fn law_plain_connections_say_nothing(c: ContextModel, w: WrapModel)
    requires
        !c.shared,
        c.fingerprint is None,
    ensures
        crate::plan::last_argument(wrap_plan(c, w).steps, Function::SetAlpn) is None,
        crate::context::settings_plan(c).steps.len() == 0,
        fingerprint_plan(c).steps.len() == 0,
{
    let q = |x: StepModel| x.call.function != Function::SetAlpn;
    lemma_every_wrapped(c, w, q);
    crate::plan::lemma_no_argument(wrap_plan(c, w).steps, Function::SetAlpn);
}

} // verus!
