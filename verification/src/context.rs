//! The state of a TLS context and what its settings ask of the engine.

use crate::error::Error;
use crate::fingerprint::spec::{Fingerprint, FingerprintModel};
use crate::plan::{Argument, ArgumentModel, End, Function, Plan, PlanModel, StepModel};
use vstd::prelude::*;

verus! {

// ------------------------------------------------------------ small types

/// Which side of a connection a context is for.
#[derive(Debug, Clone, Copy, PartialEq, Eq, Structural)]
pub enum Protocol {
    TlsClient,
    TlsServer,
}

impl Protocol {
    /// Whether this is the server's side.
    pub fn is_server(self) -> (r: bool)
        ensures
            r == (self == Protocol::TlsServer),
    {
        matches!(self, Protocol::TlsServer)
    }
}

/// Whether the peer has to show a certificate.
#[derive(Debug, Clone, Copy, PartialEq, Eq, Structural)]
pub enum VerifyMode {
    /// No certificate is asked for.
    Disabled,
    /// A certificate is checked where the peer shows one.
    Optional,
    /// A certificate is demanded and checked.
    Required,
}

/// The engine's flag for checking the peer's certificate.
pub const VERIFY_PEER: u64 = 1;

/// The engine's flag for demanding a certificate.
pub const VERIFY_FAIL_IF_NO_PEER_CERT: u64 = 2;

impl VerifyMode {
    /// The engine's flags for this mode.
    pub open spec fn flags(self) -> u64 {
        match self {
            VerifyMode::Disabled => 0,
            VerifyMode::Optional => VERIFY_PEER,
            VerifyMode::Required => (VERIFY_PEER + VERIFY_FAIL_IF_NO_PEER_CERT) as u64,
        }
    }

    fn to_flags(self) -> (r: u64)
        ensures
            r == self.flags(),
    {
        match self {
            VerifyMode::Disabled => 0,
            VerifyMode::Optional => VERIFY_PEER,
            VerifyMode::Required => VERIFY_PEER + VERIFY_FAIL_IF_NO_PEER_CERT,
        }
    }
}

/// What default certificates are loaded for.
#[derive(Debug, Clone, Copy, PartialEq, Eq, Structural)]
pub enum Purpose {
    ServerAuth,
    ClientAuth,
}

/// A TLS version, or the lowest or highest there is.
#[derive(Debug, Clone, Copy, PartialEq, Eq, PartialOrd, Ord, Structural)]
pub enum TlsVersion {
    MinimumSupported,
    Tls1_2,
    Tls1_3,
    MaximumSupported,
}

impl TlsVersion {
    /// The place of a version in their order.
    pub open spec fn rank(self) -> int {
        match self {
            TlsVersion::MinimumSupported => 0,
            TlsVersion::Tls1_2 => 1,
            TlsVersion::Tls1_3 => 2,
            TlsVersion::MaximumSupported => 3,
        }
    }

    /// The number of the version on the wire. Nothing below TLS 1.2 and
    /// nothing above TLS 1.3 is negotiated.
    pub open spec fn wire(self) -> u16 {
        match self {
            TlsVersion::MinimumSupported => 0x0303,
            TlsVersion::Tls1_2 => 0x0303,
            TlsVersion::Tls1_3 => 0x0304,
            TlsVersion::MaximumSupported => 0x0304,
        }
    }

    /// The name of the variant.
    pub open spec fn text(self) -> Seq<char> {
        match self {
            TlsVersion::MinimumSupported => "MinimumSupported"@,
            TlsVersion::Tls1_2 => "Tls1_2"@,
            TlsVersion::Tls1_3 => "Tls1_3"@,
            TlsVersion::MaximumSupported => "MaximumSupported"@,
        }
    }

    /// The number of the version on the wire.
    pub fn to_boring_version(self) -> (r: u16)
        ensures
            r == self.wire(),
    {
        match self {
            TlsVersion::MinimumSupported => 0x0303,
            TlsVersion::Tls1_2 => 0x0303,
            TlsVersion::Tls1_3 => 0x0304,
            TlsVersion::MaximumSupported => 0x0304,
        }
    }

    fn name(self) -> (r: &'static str)
        ensures
            r@ == self.text(),
    {
        match self {
            TlsVersion::MinimumSupported => "MinimumSupported",
            TlsVersion::Tls1_2 => "Tls1_2",
            TlsVersion::Tls1_3 => "Tls1_3",
            TlsVersion::MaximumSupported => "MaximumSupported",
        }
    }

    /// Whether this version comes after the other.
    fn exceeds(self, other: TlsVersion) -> (r: bool)
        ensures
            r == (self.rank() > other.rank()),
    {
        match self {
            TlsVersion::MinimumSupported => false,
            TlsVersion::Tls1_2 => other == TlsVersion::MinimumSupported,
            TlsVersion::Tls1_3 => other == TlsVersion::MinimumSupported || other
                == TlsVersion::Tls1_2,
            TlsVersion::MaximumSupported => other != TlsVersion::MaximumSupported,
        }
    }
}

/// A later version never has a lower number, and no bound lies outside TLS 1.2
/// and TLS 1.3.
pub proof fn law_versions_in_range(a: TlsVersion, b: TlsVersion)
    ensures
        a.rank() <= b.rank() ==> a.wire() <= b.wire(),
        0x0303 <= a.wire() <= 0x0304,
{
}

// ---------------------------------------------------------------- context

/// The settings of a TLS context.
#[derive(Debug)]
pub struct Context {
    is_server: bool,
    fingerprint: Option<Fingerprint>,
    ech_config_list: Option<Vec<u8>>,
    verify_mode: VerifyMode,
    check_hostname: bool,
    /// The lowest and the highest version.
    versions: (TlsVersion, TlsVersion),
    alpn_list: Vec<Vec<u8>>,
    /// The verify flags, and those of the engine context.
    flags: (u64, u64),
    keylog: bool,
    /// Whether another context works on the same engine context.
    shared: bool,
    /// The cipher suites that were set while the engine context was shared.
    own_ciphers: Option<String>,
    /// The groups that were set while it was shared.
    own_groups: Option<String>,
    /// The session ID context that was set while it was shared.
    own_session_id: Option<Vec<u8>>,
    /// Whether the key log was switched on or off while it was shared.
    own_keylog: Option<bool>,
    /// Whether an SNI dispatcher was installed or taken out while it was
    /// shared.
    own_sni: Option<bool>,
    /// The number of session tickets that was set while it was shared.
    own_tickets: Option<usize>,
}

/// The mathematical content of a [`Context`].
pub struct ContextModel {
    pub is_server: bool,
    pub fingerprint: Option<FingerprintModel>,
    pub ech_config_list: Option<Seq<u8>>,
    pub verify_mode: VerifyMode,
    pub check_hostname: bool,
    pub minimum_version: TlsVersion,
    pub maximum_version: TlsVersion,
    pub alpn_list: Seq<Seq<u8>>,
    pub verify_flags: u64,
    pub keylog: bool,
    /// Whether another context works on the same engine context.
    pub shared: bool,
    /// The verify flags of the engine context.
    pub inherited_flags: u64,
    /// The cipher suites that were set while the engine context was shared.
    pub own_ciphers: Option<Seq<char>>,
    /// The groups that were set while it was shared.
    pub own_groups: Option<Seq<char>>,
    /// The session ID context that was set while it was shared.
    pub own_session_id: Option<Seq<u8>>,
    /// Whether the key log was switched on or off while it was shared.
    pub own_keylog: Option<bool>,
    /// Whether an SNI dispatcher was installed or taken out while it was
    /// shared.
    pub own_sni: Option<bool>,
    /// The number of session tickets that was set while it was shared.
    pub own_tickets: Option<usize>,
}

/// The content of an optional fingerprint.
pub open spec fn opt_fingerprint(fp: Option<Fingerprint>) -> Option<FingerprintModel> {
    match fp {
        Some(f) => Some(f@),
        None => None,
    }
}

impl View for Context {
    type V = ContextModel;

    closed spec fn view(&self) -> ContextModel {
        ContextModel {
            is_server: self.is_server,
            fingerprint: opt_fingerprint(self.fingerprint),
            ech_config_list: crate::fingerprint::spec::opt_bytes(self.ech_config_list),
            verify_mode: self.verify_mode,
            check_hostname: self.check_hostname,
            minimum_version: self.versions.0,
            maximum_version: self.versions.1,
            alpn_list: crate::plan::byte_strings(self.alpn_list@),
            verify_flags: self.flags.0,
            keylog: self.keylog,
            shared: self.shared,
            inherited_flags: self.flags.1,
            own_ciphers: crate::plan::opt_text(self.own_ciphers),
            own_groups: crate::plan::opt_text(self.own_groups),
            own_session_id: crate::fingerprint::spec::opt_bytes(self.own_session_id),
            own_keylog: self.own_keylog,
            own_sni: self.own_sni,
            own_tickets: self.own_tickets,
        }
    }
}

impl ContextModel {
    /// What holds of every context: a server has no fingerprint, a fingerprint
    /// is valid, each protocol can go on the wire, the version bounds are in
    /// order, what is kept for the engine can be handed to it, only a server
    /// has an SNI dispatcher, and a context that shares nothing has no settings
    /// apart from its engine context's.
    pub open spec fn is_proper(self) -> bool {
        &&& self.is_server ==> self.fingerprint is None
        &&& self.fingerprint matches Some(fp) ==> fp.is_valid()
        &&& crate::lists::proper(self.alpn_list)
        &&& self.minimum_version.rank() <= self.maximum_version.rank()
        &&& !opt_has_nul(self.own_ciphers)
        &&& !opt_has_nul(self.own_groups)
        &&& self.own_session_id matches Some(id) ==> id.len() <= 32
        &&& self.own_sni is Some ==> self.is_server
        &&& !self.shared ==> self.inherited_flags == self.verify_flags && self.own_ciphers is None
            && self.own_groups is None && self.own_session_id is None && self.own_keylog is None
            && self.own_sni is None && self.own_tickets is None
    }

    /// What a setting asks of the engine context. While that is shared it is
    /// left alone: the setting is this context's own, and each of its
    /// connections is given it.
    pub open spec fn on_context(self, plan: PlanModel) -> PlanModel {
        if self.shared {
            crate::plan::plan_of(seq![])
        } else {
            plan
        }
    }

    /// A fresh context: a client demands certificates and checks hostnames, a
    /// server does neither, and both speak TLS 1.2 and TLS 1.3.
    pub open spec fn fresh(protocol: Protocol) -> ContextModel {
        ContextModel {
            is_server: protocol == Protocol::TlsServer,
            fingerprint: None,
            ech_config_list: None,
            verify_mode: if protocol == Protocol::TlsServer {
                VerifyMode::Disabled
            } else {
                VerifyMode::Required
            },
            check_hostname: protocol == Protocol::TlsClient,
            minimum_version: TlsVersion::Tls1_2,
            maximum_version: TlsVersion::Tls1_3,
            alpn_list: seq![],
            verify_flags: 0,
            keylog: false,
            shared: false,
            inherited_flags: 0,
            own_ciphers: None,
            own_groups: None,
            own_session_id: None,
            own_keylog: None,
            own_sni: None,
            own_tickets: None,
        }
    }
}

/// What setting version bounds asks of the engine.
pub open spec fn version_plan(min: TlsVersion, max: TlsVersion) -> PlanModel {
    crate::plan::plan_of(
        seq![
            crate::plan::reporting(
                Function::SetMinVersion,
                ArgumentModel::Number(min.wire() as u64),
                "SSL_CTX_set_min_proto_version"@,
            ),
            crate::plan::reporting(
                Function::SetMaxVersion,
                ArgumentModel::Number(max.wire() as u64),
                "SSL_CTX_set_max_proto_version"@,
            ),
        ],
    )
}

fn apply_version_bounds(min: TlsVersion, max: TlsVersion) -> (r: Plan)
    ensures
        r@ == version_plan(min, max),
{
    let mut plan = Plan::new();
    plan.report(
        Function::SetMinVersion,
        Argument::Number(min.to_boring_version() as u64),
        "SSL_CTX_set_min_proto_version",
    );
    plan.report(
        Function::SetMaxVersion,
        Argument::Number(max.to_boring_version() as u64),
        "SSL_CTX_set_max_proto_version",
    );
    assert(plan@.steps =~= version_plan(min, max).steps);
    plan
}

/// What setting the verify mode asks of the engine.
pub open spec fn verify_plan(mode: VerifyMode) -> PlanModel {
    crate::plan::plan_of(
        seq![crate::plan::ignoring(Function::SetVerify, ArgumentModel::Number(mode.flags()))],
    )
}

fn apply_verify_mode(mode: VerifyMode) -> (r: Plan)
    ensures
        r@ == verify_plan(mode),
{
    let mut plan = Plan::new();
    plan.ignore(Function::SetVerify, Argument::Number(mode.to_flags()));
    assert(plan@.steps =~= verify_plan(mode).steps);
    plan
}

/// What creating a context asks of the engine. A server has callbacks for
/// capturing ClientHellos, choosing protocols and dispatching by server name.
pub open spec fn creation_plan(protocol: Protocol) -> PlanModel {
    let fresh = ContextModel::fresh(protocol);
    crate::plan::plan_of(
        seq![
            crate::plan::reporting(
                Function::NewContext,
                ArgumentModel::Flag(fresh.is_server),
                "SSL_CTX_new"@,
            ),
        ],
    ).followed_by(version_plan(fresh.minimum_version, fresh.maximum_version)).followed_by(
        verify_plan(fresh.verify_mode),
    ).followed_by(
        crate::plan::plan_of(
            if fresh.is_server {
                seq![
                    crate::plan::ignoring(Function::ClearAutoRetry, ArgumentModel::Nothing),
                    crate::plan::ignoring(Function::InstallCapture, ArgumentModel::Nothing),
                    crate::plan::ignoring(Function::InstallAlpnSelection, ArgumentModel::Nothing),
                    crate::plan::ignoring(Function::InstallSniDispatch, ArgumentModel::Nothing),
                ]
            } else {
                seq![crate::plan::ignoring(Function::ClearAutoRetry, ArgumentModel::Nothing)]
            },
        ),
    )
}

impl Context {
    #[verifier::type_invariant]
    closed spec fn is_proper(self) -> bool {
        self@.is_proper()
    }

    /// A fresh context, and what creating it asks of the engine.
    pub fn new(protocol: Protocol) -> (r: (Self, Plan))
        ensures
            r.0@ == ContextModel::fresh(protocol),
            r.1@ == creation_plan(protocol),
    {
        let is_server = protocol.is_server();
        let verify_mode = if is_server {
            VerifyMode::Disabled
        } else {
            VerifyMode::Required
        };
        let alpn_list: Vec<Vec<u8>> = Vec::new();
        assert(crate::plan::byte_strings(alpn_list@) =~= seq![]);
        let this = Context {
            is_server,
            fingerprint: None,
            ech_config_list: None,
            verify_mode,
            check_hostname: !is_server,
            versions: (TlsVersion::Tls1_2, TlsVersion::Tls1_3),
            alpn_list,
            flags: (0, 0),
            keylog: false,
            shared: false,
            own_ciphers: None,
            own_groups: None,
            own_session_id: None,
            own_keylog: None,
            own_sni: None,
            own_tickets: None,
        };
        let mut plan = Plan::new();
        plan.report(Function::NewContext, Argument::Flag(is_server), "SSL_CTX_new");
        plan.follow(apply_version_bounds(TlsVersion::Tls1_2, TlsVersion::Tls1_3));
        plan.follow(apply_verify_mode(verify_mode));
        plan.ignore(Function::ClearAutoRetry, Argument::Nothing);
        if is_server {
            plan.ignore(Function::InstallCapture, Argument::Nothing);
            plan.ignore(Function::InstallAlpnSelection, Argument::Nothing);
            plan.ignore(Function::InstallSniDispatch, Argument::Nothing);
        }
        assert(plan@.steps =~= creation_plan(protocol).steps);
        (this, plan)
    }

    /// Whether connections of this context accept rather than connect.
    pub fn is_server(&self) -> (r: bool)
        ensures
            r == self@.is_server,
    {
        self.is_server
    }

    /// The plan, unless the engine context is shared.
    fn unless_shared(&self, plan: Plan) -> (r: Plan)
        ensures
            r@ == self@.on_context(plan@),
    {
        if self.shared {
            Plan::new()
        } else {
            plan
        }
    }

    /// Sets the verify mode.
    pub fn set_verify_mode(&mut self, mode: VerifyMode) -> (r: Plan)
        ensures
            final(self)@ == (ContextModel { verify_mode: mode, ..old(self)@ }),
            r@ == old(self)@.on_context(verify_plan(mode)),
    {
        proof {
            use_type_invariant(&*self);
        }
        self.verify_mode = mode;
        self.unless_shared(apply_verify_mode(mode))
    }

    /// The verify mode.
    pub fn verify_mode(&self) -> (r: VerifyMode)
        ensures
            r == self@.verify_mode,
    {
        self.verify_mode
    }

    /// Switches hostname checks on or off. They cannot be switched on while no
    /// certificate is asked for.
    pub fn set_check_hostname(&mut self, enabled: bool) -> (r: Result<(), Error>)
        ensures
            if enabled && old(self)@.verify_mode == VerifyMode::Disabled {
                &&& r matches Err(e) && e.is_usage(
                    "Cannot enable check_hostname while verify_mode is CERT_NONE"@,
                )
                &&& final(self)@ == old(self)@
            } else {
                r is Ok && final(self)@ == (ContextModel { check_hostname: enabled, ..old(self)@ })
            },
    {
        proof {
            use_type_invariant(&*self);
        }
        if enabled && self.verify_mode == VerifyMode::Disabled {
            return Err(
                crate::error::usage("Cannot enable check_hostname while verify_mode is CERT_NONE"),
            );
        }
        self.check_hostname = enabled;
        Ok(())
    }

    /// Whether hostnames are checked.
    pub fn check_hostname(&self) -> (r: bool)
        ensures
            r == self@.check_hostname,
    {
        self.check_hostname
    }

    /// Sets the lowest and the highest version. They have to be in order.
    pub fn set_version_bounds(&mut self, min: TlsVersion, max: TlsVersion) -> (r: Result<
        Plan,
        Error,
    >)
        ensures
            if min.rank() > max.rank() {
                &&& r matches Err(e) && e.is_usage(
                    "minimum_version ("@ + min.text() + ") cannot exceed maximum_version ("@
                        + max.text() + ")"@,
                )
                &&& final(self)@ == old(self)@
            } else {
                &&& r matches Ok(p) && p@ == old(self)@.on_context(version_plan(min, max))
                &&& final(self)@ == (ContextModel {
                    minimum_version: min,
                    maximum_version: max,
                    ..old(self)@
                })
            },
    {
        proof {
            use_type_invariant(&*self);
        }
        if min.exceeds(max) {
            let mut text = String::new();
            text.append("minimum_version (");
            text.append(min.name());
            text.append(") cannot exceed maximum_version (");
            text.append(max.name());
            text.append(")");
            assert(text@ =~= "minimum_version ("@ + min.text()
                + ") cannot exceed maximum_version ("@ + max.text() + ")"@);
            return Err(Error::Usage(text));
        }
        self.versions = (min, max);
        Ok(self.unless_shared(apply_version_bounds(min, max)))
    }
}

// -------------------------------------------------------------- protocols

/// The texts of a list of string slices.
pub open spec fn slice_texts(v: Seq<&str>) -> Seq<Seq<char>> {
    v.map_values(|s: &str| s@)
}

/// What is said of a protocol that cannot go on the wire.
pub open spec fn protocol_fault(name: Seq<char>) -> Seq<char> {
    "ALPN protocol "@ + crate::text::quoted(name) + " must be 1..=255 bytes"@
}

/// What setting the protocols asks for. A client advertises them; a server
/// keeps them for the selection callback.
pub open spec fn protocols_plan(is_server: bool, items: Seq<Seq<u8>>) -> PlanModel {
    crate::plan::plan_of(
        if is_server {
            seq![crate::plan::ignoring(Function::RegisterAlpn, ArgumentModel::Names(items))]
        } else {
            seq![
                crate::plan::reporting(
                    Function::SetContextAlpn,
                    ArgumentModel::Bytes(crate::lists::encoded(items)),
                    "SSL_CTX_set_alpn_protos"@,
                ),
            ]
        },
    )
}

/// The bytes of each of the given strings.
fn bytes_of_slices(names: &[&str]) -> (r: Vec<Vec<u8>>)
    ensures
        crate::plan::byte_strings(r@) == crate::alpn::name_bytes(slice_texts(names@)),
{
    let mut out: Vec<Vec<u8>> = Vec::new();
    let mut i: usize = 0;
    while i < names.len()
        invariant
            i <= names@.len(),
            out@.len() == i,
            forall|j: int|
                0 <= j < i ==> (#[trigger] out@[j])@ == vstd::utf8::encode_utf8(names@[j]@),
        decreases names@.len() - i,
    {
        out.push(vstd::slice::slice_to_vec(names[i].as_bytes()));
        i = i + 1;
    }
    assert(crate::plan::byte_strings(out@) =~= crate::alpn::name_bytes(slice_texts(names@)));
    out
}

/// A copy of a list of byte strings.
pub(crate) fn copy_byte_strings(v: &Vec<Vec<u8>>) -> (r: Vec<Vec<u8>>)
    ensures
        crate::plan::byte_strings(r@) == crate::plan::byte_strings(v@),
{
    let mut out: Vec<Vec<u8>> = Vec::new();
    let mut i: usize = 0;
    while i < v.len()
        invariant
            i <= v@.len(),
            out@.len() == i,
            forall|j: int| 0 <= j < i ==> (#[trigger] out@[j])@ == v@[j]@,
        decreases v@.len() - i,
    {
        out.push(vstd::slice::slice_to_vec(v[i].as_slice()));
        i = i + 1;
    }
    assert(crate::plan::byte_strings(out@) =~= crate::plan::byte_strings(v@));
    out
}

impl Context {
    /// Sets the protocols, in order of preference. Each has to be between 1
    /// and 255 bytes long.
    pub fn set_alpn_protocols(&mut self, protocols: &[&str]) -> (r: Result<Plan, Error>)
        ensures
            ({
                let names = slice_texts(protocols@);
                let items = crate::alpn::name_bytes(names);
                if crate::lists::proper(items) {
                    &&& r matches Ok(p) && p@ == old(self)@.on_context(
                        protocols_plan(old(self)@.is_server, items),
                    )
                    &&& final(self)@ == (ContextModel { alpn_list: items, ..old(self)@ })
                } else {
                    &&& r matches Err(e) && e.is_usage(
                        protocol_fault(names[crate::alpn::first_misfit(items)]),
                    )
                    &&& final(self)@ == old(self)@
                }
            }),
    {
        proof {
            use_type_invariant(&*self);
        }
        let ghost names = slice_texts(protocols@);
        let items = bytes_of_slices(protocols);
        assert(crate::plan::byte_strings(items@).len() == items@.len());
        assert(crate::alpn::name_bytes(names).len() == protocols@.len());
        match crate::alpn::encode(items.as_slice()) {
            Ok(wire) => {
                let mut plan = Plan::new();
                if self.is_server {
                    plan.ignore(Function::RegisterAlpn, Argument::Names(copy_byte_strings(&items)));
                } else {
                    plan.report(
                        Function::SetContextAlpn,
                        Argument::Bytes(wire),
                        "SSL_CTX_set_alpn_protos",
                    );
                }
                self.alpn_list = items;
                assert(plan@.steps =~= protocols_plan(
                    self.is_server,
                    crate::alpn::name_bytes(names),
                ).steps);
                Ok(self.unless_shared(plan))
            },
            Err(i) => {
                let mut text = String::new();
                text.append("ALPN protocol ");
                text.append(crate::text::quote(protocols[i]).as_str());
                text.append(" must be 1..=255 bytes");
                assert(text@ =~= protocol_fault(names[i as int]));
                Err(Error::Usage(text))
            },
        }
    }

    /// The protocols, in order of preference.
    pub fn alpn_list_snapshot(&self) -> (r: Vec<Vec<u8>>)
        ensures
            crate::plan::byte_strings(r@) == self@.alpn_list,
            crate::lists::proper(self@.alpn_list),
    {
        proof {
            use_type_invariant(self);
        }
        copy_byte_strings(&self.alpn_list)
    }
}

// ----------------------------------------------- fingerprint, ciphers, flags

/// What setting a text asks for, where the text can be handed to the engine.
pub open spec fn text_plan(function: Function, text: Seq<char>, label: Seq<char>) -> PlanModel {
    crate::plan::plan_of(
        seq![crate::plan::reporting(function, ArgumentModel::Text(text), label)],
    )
}

/// What trying a text on a connection asks for, where the text can be handed
/// to the engine.
pub open spec fn trial_plan(function: Function, text: Seq<char>, label: Seq<char>) -> PlanModel {
    crate::plan::plan_of(
        seq![
            crate::plan::reporting(Function::NewTrial, ArgumentModel::Nothing, "SSL_new"@),
            crate::plan::reporting(function, ArgumentModel::Text(text), label),
        ],
    )
}

/// What setting cipher suites asks for. While the engine context is shared,
/// they are tried on a connection that is thrown away.
pub open spec fn ciphers_setting(c: ContextModel, list: Seq<char>) -> PlanModel {
    if c.shared {
        trial_plan(Function::SetCiphers, list, "SSL_set_cipher_list"@)
    } else {
        text_plan(Function::SetContextCiphers, list, "SSL_CTX_set_cipher_list"@)
    }
}

/// What setting groups asks for. While the engine context is shared, they are
/// tried on a connection that is thrown away.
pub open spec fn curves_setting(c: ContextModel, names: Seq<char>) -> PlanModel {
    if c.shared {
        trial_plan(Function::SetGroups, names, "SSL_set1_groups_list"@)
    } else {
        text_plan(Function::SetCurves, names, "SSL_CTX_set1_curves_list"@)
    }
}

/// What setting the session ID context asks for.
pub open spec fn session_id_plan(id: Seq<u8>) -> PlanModel {
    crate::plan::plan_of(
        seq![
            crate::plan::reporting(
                Function::SetSessionIdContext,
                ArgumentModel::Bytes(id),
                "SSL_CTX_set_session_id_context"@,
            ),
        ],
    )
}

/// The most session tickets that the engine sends.
pub const MAX_TICKETS: usize = 16;

/// A number of session tickets as the engine takes it.
pub open spec fn capped_tickets(n: usize) -> usize {
    if n <= MAX_TICKETS {
        n
    } else {
        MAX_TICKETS
    }
}

/// What setting the number of session tickets asks for.
pub open spec fn tickets_plan(n: usize) -> PlanModel {
    crate::plan::plan_of(
        seq![
            crate::plan::reporting(
                Function::SetNumTickets,
                ArgumentModel::Number(n as u64),
                "SSL_CTX_set_num_tickets"@,
            ),
        ],
    )
}

/// The replacement of verify flags: the old bits are cleared, then the new
/// ones are set.
pub open spec fn replacing_steps(before: u64, flags: u64) -> Seq<StepModel> {
    crate::plan::step_if(
        before != 0,
        crate::plan::ignoring(Function::ClearVerifyFlags, ArgumentModel::Number(before)),
    ) + crate::plan::step_if(
        flags != 0,
        crate::plan::reporting(
            Function::SetVerifyFlags,
            ArgumentModel::Number(flags),
            "X509_VERIFY_PARAM_set_flags"@,
        ),
    )
}

/// What replacing the verify flags of the engine context asks for.
pub open spec fn verify_flags_plan(before: u64, flags: u64) -> PlanModel {
    crate::plan::plan_of(
        seq![
            crate::plan::reporting(
                Function::GetContextParam,
                ArgumentModel::Nothing,
                "SSL_CTX_get0_param"@,
            ),
        ] + replacing_steps(before, flags),
    )
}

fn replace_flags(plan: &mut Plan, before: u64, flags: u64)
    ensures
        final(plan)@ == (PlanModel {
            steps: old(plan)@.steps + replacing_steps(before, flags),
            ..old(plan)@
        }),
{
    if before != 0 {
        plan.ignore(Function::ClearVerifyFlags, Argument::Number(before));
    }
    if flags != 0 {
        plan.report(
            Function::SetVerifyFlags,
            Argument::Number(flags),
            "X509_VERIFY_PARAM_set_flags",
        );
    }
    assert(plan@.steps =~= old(plan)@.steps + replacing_steps(before, flags));
}

impl Context {
    /// What setting the list of cipher suites asks of the engine; the list must
    /// not hold a NUL byte. While the engine context is shared, the list counts
    /// as set once [`Context::ciphers_set`] has been told that it was taken.
    pub fn set_ciphers(&self, list: &str) -> (r: Result<Plan, Error>)
        ensures
            if crate::text::has_nul(list@) {
                r matches Err(e) && e.is_usage("cipher list contains a NUL byte"@)
            } else {
                r matches Ok(p) && p@ == ciphers_setting(self@, list@)
            },
    {
        if crate::text::contains_nul(list) {
            return Err(crate::error::usage("cipher list contains a NUL byte"));
        }
        let mut plan = Plan::new();
        if self.shared {
            plan.report(Function::NewTrial, Argument::Nothing, "SSL_new");
            plan.report(
                Function::SetCiphers,
                Argument::Text(list.to_owned()),
                "SSL_set_cipher_list",
            );
        } else {
            plan.report(
                Function::SetContextCiphers,
                Argument::Text(list.to_owned()),
                "SSL_CTX_set_cipher_list",
            );
        }
        assert(plan@.steps =~= ciphers_setting(self@, list@).steps);
        Ok(plan)
    }

    /// Takes note of how setting cipher suites ended. Where the engine context
    /// is shared and took them, connections of this context will be given them.
    pub fn ciphers_set(&mut self, list: &str, end: &End)
        ensures
            final(self)@ == (if old(self)@.shared && end@ is Done && !crate::text::has_nul(list@) {
                ContextModel { own_ciphers: Some(list@), ..old(self)@ }
            } else {
                old(self)@
            }),
    {
        proof {
            use_type_invariant(&*self);
        }
        if self.shared && matches!(end, End::Done) && !crate::text::contains_nul(list) {
            self.own_ciphers = Some(list.to_owned());
        }
    }

    /// What setting the list of groups asks of the engine; the list must not
    /// hold a NUL byte. While the engine context is shared, the list counts as
    /// set once [`Context::curves_set`] has been told that it was taken.
    pub fn set_curves_list(&self, names: &str) -> (r: Result<Plan, Error>)
        ensures
            if crate::text::has_nul(names@) {
                r matches Err(e) && e.is_usage("curves list contains a NUL byte"@)
            } else {
                r matches Ok(p) && p@ == curves_setting(self@, names@)
            },
    {
        if crate::text::contains_nul(names) {
            return Err(crate::error::usage("curves list contains a NUL byte"));
        }
        let mut plan = Plan::new();
        if self.shared {
            plan.report(Function::NewTrial, Argument::Nothing, "SSL_new");
            plan.report(
                Function::SetGroups,
                Argument::Text(names.to_owned()),
                "SSL_set1_groups_list",
            );
        } else {
            plan.report(
                Function::SetCurves,
                Argument::Text(names.to_owned()),
                "SSL_CTX_set1_curves_list",
            );
        }
        assert(plan@.steps =~= curves_setting(self@, names@).steps);
        Ok(plan)
    }

    /// Takes note of how setting groups ended. Where the engine context is
    /// shared and took them, connections of this context will be given them.
    pub fn curves_set(&mut self, names: &str, end: &End)
        ensures
            final(self)@ == (if old(self)@.shared && end@ is Done && !crate::text::has_nul(names@) {
                ContextModel { own_groups: Some(names@), ..old(self)@ }
            } else {
                old(self)@
            }),
    {
        proof {
            use_type_invariant(&*self);
        }
        if self.shared && matches!(end, End::Done) && !crate::text::contains_nul(names) {
            self.own_groups = Some(names.to_owned());
        }
    }

    /// Sets or clears the fingerprint that connections will show. A server
    /// cannot have one, and its trust-anchor IDs have to form a list.
    pub fn set_fingerprint(&mut self, fp: Option<Fingerprint>) -> (r: Result<(), Error>)
        ensures
            match opt_fingerprint(fp) {
                Some(_) if old(self)@.is_server => {
                    &&& r matches Err(e) && e.is_usage(
                        "set_fingerprint() is client-only (servers do not send a ClientHello)"@,
                    )
                    &&& final(self)@ == old(self)@
                },
                Some(m) if !m.is_valid() => {
                    &&& r matches Err(e) && e.is_usage(
                        crate::fingerprint::spec::trust_anchor_fault(),
                    )
                    &&& final(self)@ == old(self)@
                },
                m => r is Ok && final(self)@ == (ContextModel { fingerprint: m, ..old(self)@ }),
            },
    {
        proof {
            use_type_invariant(&*self);
        }
        if self.is_server && fp.is_some() {
            return Err(
                crate::error::usage(
                    "set_fingerprint() is client-only (servers do not send a ClientHello)",
                ),
            );
        }
        match &fp {
            Some(f) => {
                f.validate()?;
            },
            None => {},
        }
        self.fingerprint = fp;
        Ok(())
    }

    /// The fingerprint that connections will show.
    pub fn fingerprint(&self) -> (r: Option<Fingerprint>)
        ensures
            opt_fingerprint(r) == self@.fingerprint,
            r matches Some(fp) ==> fp@.is_valid() && !self@.is_server,
    {
        proof {
            use_type_invariant(self);
        }
        match &self.fingerprint {
            Some(fp) => Some(fp.clone()),
            None => None,
        }
    }

    /// Sets the session ID context, of at most 32 bytes.
    pub fn set_session_id_context(&mut self, ctx_id: &[u8]) -> (r: Result<Plan, Error>)
        ensures
            if ctx_id@.len() > 32 {
                &&& r matches Err(e) && e.is_usage("session_id_context must be at most 32 bytes"@)
                &&& final(self)@ == old(self)@
            } else {
                &&& r matches Ok(p) && p@ == old(self)@.on_context(session_id_plan(ctx_id@))
                &&& final(self)@ == (if old(self)@.shared {
                    ContextModel { own_session_id: Some(ctx_id@), ..old(self)@ }
                } else {
                    old(self)@
                })
            },
    {
        proof {
            use_type_invariant(&*self);
        }
        if ctx_id.len() > 32 {
            return Err(crate::error::usage("session_id_context must be at most 32 bytes"));
        }
        let mut plan = Plan::new();
        if self.shared {
            self.own_session_id = Some(vstd::slice::slice_to_vec(ctx_id));
        } else {
            plan.report(
                Function::SetSessionIdContext,
                Argument::Bytes(vstd::slice::slice_to_vec(ctx_id)),
                "SSL_CTX_set_session_id_context",
            );
        }
        assert(plan@.steps =~= old(self)@.on_context(session_id_plan(ctx_id@)).steps);
        Ok(plan)
    }

    /// Sets how many session tickets a server sends. While the engine context
    /// is shared, the number is kept in this context and nowhere else: the
    /// engine has none for one connection, so that connections go on sending
    /// as many as the engine context says.
    pub fn set_num_tickets(&mut self, n: usize) -> (r: Plan)
        ensures
            r@ == old(self)@.on_context(tickets_plan(n)),
            final(self)@ == (if old(self)@.shared {
                ContextModel { own_tickets: Some(capped_tickets(n)), ..old(self)@ }
            } else {
                old(self)@
            }),
    {
        proof {
            use_type_invariant(&*self);
        }
        let mut plan = Plan::new();
        if self.shared {
            let capped: usize = if n <= MAX_TICKETS {
                n
            } else {
                MAX_TICKETS
            };
            self.own_tickets = Some(capped);
        } else {
            plan.report(
                Function::SetNumTickets,
                Argument::Number(n as u64),
                "SSL_CTX_set_num_tickets",
            );
        }
        assert(plan@.steps =~= old(self)@.on_context(tickets_plan(n)).steps);
        plan
    }

    /// The number of session tickets, where the engine context has `engine`.
    pub fn num_tickets(&self, engine: usize) -> (r: usize)
        ensures
            r == (match self@.own_tickets {
                Some(n) => n,
                None => engine,
            }),
    {
        match self.own_tickets {
            Some(n) => n,
            None => engine,
        }
    }

    /// The verify flags that were set last.
    pub fn verify_flags(&self) -> (r: u64)
        ensures
            r == self@.verify_flags,
    {
        self.flags.0
    }

    /// What replacing the verify flags asks of the engine. The flags count as
    /// set once [`Context::verify_flags_set`] has been told that it was done.
    pub fn set_verify_flags(&self, flags: u64) -> (r: Plan)
        ensures
            r@ == self@.on_context(verify_flags_plan(self@.verify_flags, flags)),
    {
        let mut plan = Plan::new();
        plan.report(Function::GetContextParam, Argument::Nothing, "SSL_CTX_get0_param");
        replace_flags(&mut plan, self.flags.0, flags);
        assert(plan@.steps =~= verify_flags_plan(self@.verify_flags, flags).steps);
        self.unless_shared(plan)
    }

    /// Takes note of how replacing the verify flags ended. Where it failed,
    /// the flags that were set last still count.
    pub fn verify_flags_set(&mut self, flags: u64, end: &End)
        ensures
            final(self)@ == (if end@ is Done {
                ContextModel {
                    verify_flags: flags,
                    inherited_flags: if old(self)@.shared {
                        old(self)@.inherited_flags
                    } else {
                        flags
                    },
                    ..old(self)@
                }
            } else {
                old(self)@
            }),
    {
        proof {
            use_type_invariant(&*self);
        }
        match end {
            End::Done => {
                let inherited: u64 = if self.shared {
                    self.flags.1
                } else {
                    flags
                };
                self.flags = (flags, inherited);
            },
            _ => {},
        }
    }
}

/// The verify flags of the engine after some calls, where they were `bits`.
pub open spec fn engine_flags(bits: u64, steps: Seq<StepModel>) -> u64
    decreases steps.len(),
{
    if steps.len() == 0 {
        bits
    } else {
        let before = engine_flags(bits, steps.drop_last());
        match (steps.last().call.function, steps.last().call.argument) {
            (Function::ClearVerifyFlags, ArgumentModel::Number(n)) => before & !n,
            (Function::SetVerifyFlags, ArgumentModel::Number(n)) => before | n,
            _ => before,
        }
    }
}

/// Whether a step leaves verify flags alone.
pub open spec fn keeps_flags(step: StepModel) -> bool {
    step.call.function != Function::ClearVerifyFlags && step.call.function
        != Function::SetVerifyFlags
}

/// Calls one after the other have their effects one after the other.
pub proof fn lemma_flags_append(bits: u64, a: Seq<StepModel>, b: Seq<StepModel>)
    ensures
        engine_flags(bits, a + b) == engine_flags(engine_flags(bits, a), b),
    decreases b.len(),
{
    if b.len() > 0 {
        assert((a + b).drop_last() =~= a + b.drop_last());
        lemma_flags_append(bits, a, b.drop_last());
    } else {
        assert(a + b =~= a);
    }
}

/// Calls that leave verify flags alone have no effect on them.
pub proof fn lemma_flags_kept(bits: u64, steps: Seq<StepModel>)
    requires
        crate::plan::every(steps, |x: StepModel| keeps_flags(x)),
    ensures
        engine_flags(bits, steps) == bits,
    decreases steps.len(),
{
    if steps.len() > 0 {
        let p = |x: StepModel| keeps_flags(x);
        let rest = steps.drop_last();
        assert(p(steps.last()));
        assert forall|i: int| 0 <= i < rest.len() implies p(#[trigger] rest[i]) by {
            assert(rest[i] == steps[i]);
        }
        lemma_flags_kept(bits, rest);
    }
}

/// The bits that were set before and are not set again are gone, and bits that
/// were never set here stay.
pub proof fn lemma_flags_replaced(base: u64, before: u64, flags: u64)
    requires
        base & before == 0,
    ensures
        engine_flags(base | before, replacing_steps(before, flags)) == base | flags,
{
    let all = replacing_steps(before, flags);
    let bits = base | before;
    reveal_with_fuel(engine_flags, 3);
    assert(bits & !before == base) by (bit_vector)
        requires
            base & before == 0,
            bits == base | before,
    ;
    assert(base | 0 == base) by (bit_vector);
    if before != 0 && flags != 0 {
        assert(all.drop_last() =~= seq![all[0]]);
        assert(all.drop_last().drop_last() =~= seq![]);
    } else if before != 0 || flags != 0 {
        assert(all.drop_last() =~= seq![]);
    } else {
        assert(all =~= seq![]);
    }
}

/// Setting verify flags replaces them: the bits that were set before and are
/// not set again are gone, and bits that were never set here stay.
pub proof fn law_verify_flags_are_replaced(base: u64, before: u64, flags: u64)
    requires
        base & before == 0,
    ensures
        engine_flags(base | before, verify_flags_plan(before, flags).steps) == base | flags,
{
    let bits = base | before;
    let head = seq![verify_flags_plan(before, flags).steps[0]];
    assert(verify_flags_plan(before, flags).steps =~= head + replacing_steps(before, flags));
    lemma_flags_append(bits, head, replacing_steps(before, flags));
    lemma_flags_kept(bits, head);
    lemma_flags_replaced(base, before, flags);
}

// ------------------------------------------------- settings of a connection

/// A list of at most one step, where there is a text to set.
pub open spec fn text_steps(function: Function, text: Option<Seq<char>>, label: Seq<char>) -> Seq<
    StepModel,
> {
    match text {
        Some(t) => seq![crate::plan::reporting(function, ArgumentModel::Text(t), label)],
        None => seq![],
    }
}

/// The verify mode, the version bounds and the protocols of a connection.
pub open spec fn leading_settings(c: ContextModel) -> Seq<StepModel> {
    seq![
        crate::plan::ignoring(
            Function::SetConnectionVerify,
            ArgumentModel::Number(c.verify_mode.flags()),
        ),
        crate::plan::reporting(
            Function::SetConnectionMinVersion,
            ArgumentModel::Number(c.minimum_version.wire() as u64),
            "SSL_set_min_proto_version"@,
        ),
        crate::plan::reporting(
            Function::SetConnectionMaxVersion,
            ArgumentModel::Number(c.maximum_version.wire() as u64),
            "SSL_set_max_proto_version"@,
        ),
        if c.is_server {
            crate::plan::ignoring(
                Function::RegisterConnectionAlpn,
                ArgumentModel::Names(c.alpn_list),
            )
        } else {
            crate::fingerprint::apply::alpn_step(c.alpn_list)
        },
    ]
}

/// A list of at most one step, where something was switched on or off.
pub open spec fn flag_steps(function: Function, flag: Option<bool>) -> Seq<StepModel> {
    match flag {
        Some(on) => seq![crate::plan::ignoring(function, ArgumentModel::Flag(on))],
        None => seq![],
    }
}

/// What the callbacks find for a connection, where its context has a key log
/// or an SNI dispatcher of its own.
pub open spec fn own_callbacks(c: ContextModel) -> Seq<StepModel> {
    flag_steps(Function::RegisterConnectionKeylog, c.own_keylog) + flag_steps(
        Function::RegisterConnectionSni,
        c.own_sni,
    )
}

/// The cipher suites, the groups and the session ID context of a connection,
/// where its context has its own.
pub open spec fn own_lists(c: ContextModel) -> Seq<StepModel> {
    text_steps(Function::SetCiphers, c.own_ciphers, "SSL_set_cipher_list"@) + text_steps(
        Function::SetGroups,
        c.own_groups,
        "SSL_set1_groups_list"@,
    ) + (match c.own_session_id {
        Some(id) => seq![
            crate::plan::reporting(
                Function::SetConnectionIdContext,
                ArgumentModel::Bytes(id),
                "SSL_set_session_id_context"@,
            ),
        ],
        None => seq![],
    })
}

/// Where the verify flags of a connection are replaced.
pub open spec fn connection_param_step() -> StepModel {
    crate::plan::reporting(
        Function::GetConnectionParam,
        ArgumentModel::Nothing,
        "SSL_get0_param"@,
    )
}

/// What the settings of a context ask for on one of its connections. A
/// connection starts with the settings of the engine context; where that is
/// shared, they are replaced by the context's own.
pub open spec fn settings_plan(c: ContextModel) -> PlanModel {
    crate::plan::plan_of(
        if c.shared {
            leading_settings(c) + own_lists(c) + own_callbacks(c) + seq![connection_param_step()]
                + replacing_steps(c.inherited_flags, c.verify_flags)
        } else {
            seq![]
        },
    )
}

impl Context {
    /// What the settings of this context ask for on one of its connections.
    pub(crate) fn plan_settings(&self) -> (r: Plan)
        ensures
            r@ == settings_plan(self@),
    {
        proof {
            use_type_invariant(self);
        }
        let mut plan = Plan::new();
        if !self.shared {
            return plan;
        }
        plan.ignore(Function::SetConnectionVerify, Argument::Number(self.verify_mode.to_flags()));
        plan.report(
            Function::SetConnectionMinVersion,
            Argument::Number(self.versions.0.to_boring_version() as u64),
            "SSL_set_min_proto_version",
        );
        plan.report(
            Function::SetConnectionMaxVersion,
            Argument::Number(self.versions.1.to_boring_version() as u64),
            "SSL_set_max_proto_version",
        );
        if self.is_server {
            plan.ignore(
                Function::RegisterConnectionAlpn,
                Argument::Names(copy_byte_strings(&self.alpn_list)),
            );
        } else {
            match crate::alpn::encode(self.alpn_list.as_slice()) {
                Ok(wire) => {
                    plan.report(Function::SetAlpn, Argument::Bytes(wire), "SSL_set_alpn_protos");
                },
                Err(_) => {},
            }
        }
        assert(plan@.steps =~= leading_settings(self@));
        match &self.own_ciphers {
            Some(list) => {
                plan.report(
                    Function::SetCiphers,
                    Argument::Text(list.clone()),
                    "SSL_set_cipher_list",
                );
            },
            None => {},
        }
        match &self.own_groups {
            Some(names) => {
                plan.report(
                    Function::SetGroups,
                    Argument::Text(names.clone()),
                    "SSL_set1_groups_list",
                );
            },
            None => {},
        }
        match &self.own_session_id {
            Some(id) => {
                plan.report(
                    Function::SetConnectionIdContext,
                    Argument::Bytes(vstd::slice::slice_to_vec(id.as_slice())),
                    "SSL_set_session_id_context",
                );
            },
            None => {},
        }
        assert(plan@.steps =~= leading_settings(self@) + own_lists(self@));
        match self.own_keylog {
            Some(on) => {
                plan.ignore(Function::RegisterConnectionKeylog, Argument::Flag(on));
            },
            None => {},
        }
        match self.own_sni {
            Some(on) => {
                plan.ignore(Function::RegisterConnectionSni, Argument::Flag(on));
            },
            None => {},
        }
        assert(plan@.steps =~= leading_settings(self@) + own_lists(self@) + own_callbacks(self@));
        plan.report(Function::GetConnectionParam, Argument::Nothing, "SSL_get0_param");
        replace_flags(&mut plan, self.flags.1, self.flags.0);
        assert(plan@.steps =~= settings_plan(self@).steps);
        plan
    }
}

/// Whether a function changes a setting of the engine context, which every
/// connection that is made from it would start with.
pub open spec fn sets_context(function: Function) -> bool {
    match function {
        Function::SetVerify | Function::SetMinVersion | Function::SetMaxVersion => true,
        Function::SetContextAlpn | Function::RegisterAlpn => true,
        Function::SetContextCiphers | Function::SetCurves => true,
        Function::SetSessionIdContext | Function::SetNumTickets => true,
        Function::ClearVerifyFlags | Function::SetVerifyFlags => true,
        Function::RegisterKeylog | Function::SetKeylogCallback => true,
        Function::RegisterSni => true,
        _ => false,
    }
}

/// Whether a plan leaves the settings of the engine context alone.
pub open spec fn leaves_context_alone(plan: PlanModel) -> bool {
    crate::plan::every(plan.steps, |x: StepModel| !sets_context(x.call.function))
}

/// Once two contexts share an engine context, no setting of either changes
/// it: verify mode, version bounds, protocols, cipher suites, groups, session
/// ID context, verify flags, number of session tickets, key log and SNI
/// dispatcher are each context's own.
pub proof fn law_shared_context_is_left_alone(
    c: ContextModel,
    mode: VerifyMode,
    min: TlsVersion,
    max: TlsVersion,
    items: Seq<Seq<u8>>,
    text: Seq<char>,
    id: Seq<u8>,
    flags: u64,
    tickets: usize,
    on: bool,
)
    requires
        c.shared,
    ensures
        leaves_context_alone(c.on_context(verify_plan(mode))),
        leaves_context_alone(c.on_context(version_plan(min, max))),
        leaves_context_alone(c.on_context(protocols_plan(c.is_server, items))),
        leaves_context_alone(ciphers_setting(c, text)),
        leaves_context_alone(curves_setting(c, text)),
        leaves_context_alone(c.on_context(session_id_plan(id))),
        leaves_context_alone(c.on_context(verify_flags_plan(c.verify_flags, flags))),
        leaves_context_alone(c.on_context(tickets_plan(tickets))),
        leaves_context_alone(c.on_context(keylog_plan(on))),
        leaves_context_alone(c.on_context(sni_plan(on))),
{
}

// ------------------------------------------------- key log, SNI, ECH, trust

/// What switching the key log on or off asks for.
pub open spec fn keylog_plan(on: bool) -> PlanModel {
    crate::plan::plan_of(
        seq![
            crate::plan::ignoring(Function::RegisterKeylog, ArgumentModel::Flag(on)),
            crate::plan::ignoring(Function::SetKeylogCallback, ArgumentModel::Flag(on)),
        ],
    )
}

/// What installing an SNI dispatcher, or taking it out, asks for.
pub open spec fn sni_plan(present: bool) -> PlanModel {
    crate::plan::plan_of(
        seq![crate::plan::ignoring(Function::RegisterSni, ArgumentModel::Flag(present))],
    )
}

/// What is said of a key-log file that could not be opened.
pub open spec fn keylog_fault(path: Seq<char>, reason: Seq<char>) -> Seq<char> {
    "keylog_filename: could not open "@ + crate::text::quoted(path) + ": "@ + reason
}

/// What loading trusted certificates from files asks for.
pub open spec fn locations_plan(cafile: Option<Seq<char>>, capath: Option<Seq<char>>) -> PlanModel {
    crate::plan::plan_of(
        seq![
            crate::plan::reporting(
                Function::LoadVerifyLocations,
                ArgumentModel::Paths(cafile, capath),
                "SSL_CTX_load_verify_locations"@,
            ),
        ],
    )
}

/// The content of an optional string slice.
pub open spec fn opt_slice(s: Option<&str>) -> Option<Seq<char>> {
    match s {
        Some(t) => Some(t@),
        None => None,
    }
}

/// Whether there is a text and it holds a NUL byte.
pub open spec fn opt_has_nul(s: Option<Seq<char>>) -> bool {
    s matches Some(t) && crate::text::has_nul(t)
}

fn own(s: Option<&str>) -> (r: Option<String>)
    ensures
        crate::plan::opt_text(r) == opt_slice(s),
{
    match s {
        Some(t) => Some(t.to_owned()),
        None => None,
    }
}

fn copy_opt_text(t: &Option<String>) -> (r: Option<String>)
    ensures
        crate::plan::opt_text(r) == crate::plan::opt_text(*t),
{
    match t {
        Some(s) => Some(s.clone()),
        None => None,
    }
}

fn opt_contains_nul(s: Option<&str>) -> (r: bool)
    ensures
        r == opt_has_nul(opt_slice(s)),
{
    match s {
        Some(t) => crate::text::contains_nul(t),
        None => false,
    }
}

impl Context {
    /// Switches the key log on, where its file could be opened, or off.
    pub fn set_keylog_filename(&mut self, path: Option<&str>, opened: Result<(), String>) -> (r:
        Result<Plan, Error>)
        ensures
            match (opt_slice(path), opened) {
                (Some(p), Err(reason)) => {
                    &&& r matches Err(Error::Protocol { message, code }) && message@
                        == keylog_fault(p, reason@) && code is None
                    &&& final(self)@ == old(self)@
                },
                (p, _) => {
                    &&& r matches Ok(plan) && plan@ == old(self)@.on_context(
                        keylog_plan(p is Some),
                    )
                    &&& final(self)@ == (ContextModel {
                        keylog: p is Some,
                        own_keylog: if old(self)@.shared {
                            Some(p is Some)
                        } else {
                            None
                        },
                        ..old(self)@
                    })
                },
            },
    {
        proof {
            use_type_invariant(&*self);
        }
        match (path, opened) {
            (Some(p), Err(reason)) => {
                let mut message = String::new();
                message.append("keylog_filename: could not open ");
                message.append(crate::text::quote(p).as_str());
                message.append(": ");
                message.append(reason.as_str());
                assert(message@ =~= keylog_fault(p@, reason@));
                return Err(Error::Protocol { message, code: None });
            },
            _ => {},
        }
        let on = path.is_some();
        self.keylog = on;
        if self.shared {
            self.own_keylog = Some(on);
        }
        let mut plan = Plan::new();
        plan.ignore(Function::RegisterKeylog, Argument::Flag(on));
        plan.ignore(Function::SetKeylogCallback, Argument::Flag(on));
        assert(plan@.steps =~= keylog_plan(on).steps);
        Ok(self.unless_shared(plan))
    }

    /// Whether the key log was switched on while the engine context was shared.
    pub(crate) fn has_own_keylog(&self) -> (r: bool)
        ensures
            r == (self@.own_keylog == Some(true)),
    {
        match self.own_keylog {
            Some(on) => on,
            None => false,
        }
    }

    /// Installs an SNI dispatcher, or takes it out. Only a server has one.
    pub fn set_sni_dispatcher(&mut self, present: bool) -> (r: Result<Plan, Error>)
        ensures
            if old(self)@.is_server {
                &&& r matches Ok(p) && p@ == old(self)@.on_context(sni_plan(present))
                &&& final(self)@ == (if old(self)@.shared {
                    ContextModel { own_sni: Some(present), ..old(self)@ }
                } else {
                    old(self)@
                })
            } else {
                &&& r matches Err(e) && e.is_usage("set_servername_callback is server-side only"@)
                &&& final(self)@ == old(self)@
            },
    {
        proof {
            use_type_invariant(&*self);
        }
        if !self.is_server {
            return Err(crate::error::usage("set_servername_callback is server-side only"));
        }
        if self.shared {
            self.own_sni = Some(present);
        }
        let mut plan = Plan::new();
        plan.ignore(Function::RegisterSni, Argument::Flag(present));
        assert(plan@.steps =~= sni_plan(present).steps);
        Ok(self.unless_shared(plan))
    }

    /// A copy of this context with another ECH configuration, or with none, on
    /// the same engine context. The settings of this context stay as they are.
    /// From now on neither context changes the settings of the engine context
    /// that both share: what is set on one is given to its own connections and
    /// to no others, but for the number of session tickets, which the engine
    /// has for a context alone. Trusted certificates and loaded chains stay
    /// shared.
    pub fn set_ech_configs(&mut self, ech: Option<Vec<u8>>) -> (r: Self)
        ensures
            r@ == (ContextModel {
                ech_config_list: crate::fingerprint::spec::opt_bytes(ech),
                shared: true,
                ..old(self)@
            }),
            final(self)@ == (ContextModel { shared: true, ..old(self)@ }),
    {
        proof {
            use_type_invariant(&*self);
        }
        self.shared = true;
        Context {
            is_server: self.is_server,
            fingerprint: self.fingerprint(),
            ech_config_list: ech,
            verify_mode: self.verify_mode,
            check_hostname: self.check_hostname,
            versions: self.versions,
            alpn_list: copy_byte_strings(&self.alpn_list),
            flags: self.flags,
            keylog: self.keylog,
            shared: true,
            own_ciphers: copy_opt_text(&self.own_ciphers),
            own_groups: copy_opt_text(&self.own_groups),
            own_session_id: crate::fingerprint::spec::copy_opt_bytes(&self.own_session_id),
            own_keylog: self.own_keylog,
            own_sni: self.own_sni,
            own_tickets: self.own_tickets,
        }
    }

    /// The ECH configuration that connections will offer.
    pub fn ech_config_list(&self) -> (r: Option<Vec<u8>>)
        ensures
            crate::fingerprint::spec::opt_bytes(r) == self@.ech_config_list,
    {
        crate::fingerprint::spec::copy_opt_bytes(&self.ech_config_list)
    }

    /// Loads trusted certificates from a file, a directory or both. Neither
    /// path may hold a NUL byte, and one of them has to be given.
    pub fn load_verify_locations(&self, cafile: Option<&str>, capath: Option<&str>) -> (r: Result<
        Plan,
        Error,
    >)
        ensures
            if opt_has_nul(opt_slice(cafile)) {
                r matches Err(e) && e.is_usage("cafile path contains a NUL byte"@)
            } else if opt_has_nul(opt_slice(capath)) {
                r matches Err(e) && e.is_usage("capath path contains a NUL byte"@)
            } else if cafile is None && capath is None {
                r matches Err(e) && e.is_usage(
                    "load_verify_locations() needs at least one of cafile / capath"@,
                )
            } else {
                r matches Ok(p) && p@ == locations_plan(opt_slice(cafile), opt_slice(capath))
            },
    {
        if opt_contains_nul(cafile) {
            return Err(crate::error::usage("cafile path contains a NUL byte"));
        }
        if opt_contains_nul(capath) {
            return Err(crate::error::usage("capath path contains a NUL byte"));
        }
        if cafile.is_none() && capath.is_none() {
            return Err(
                crate::error::usage("load_verify_locations() needs at least one of cafile / capath"),
            );
        }
        let mut plan = Plan::new();
        plan.report(
            Function::LoadVerifyLocations,
            Argument::Paths(own(cafile), own(capath)),
            "SSL_CTX_load_verify_locations",
        );
        assert(plan@.steps =~= locations_plan(opt_slice(cafile), opt_slice(capath)).steps);
        Ok(plan)
    }

    /// Adds one certificate to the trusted ones.
    pub fn add_trusted_cert_der(&self, der: &[u8]) -> (r: Plan)
        ensures
            r@ == crate::plan::plan_of(
                seq![
                    crate::plan::reporting(
                        Function::ParseCertificate,
                        ArgumentModel::Bytes(der@),
                        "d2i_X509 (cadata)"@,
                    ),
                    crate::plan::reporting(
                        Function::AddToStore,
                        ArgumentModel::Nothing,
                        "X509_STORE_add_cert"@,
                    ),
                ],
            ),
    {
        let mut plan = Plan::new();
        plan.report(
            Function::ParseCertificate,
            Argument::Bytes(vstd::slice::slice_to_vec(der)),
            "d2i_X509 (cadata)",
        );
        plan.report(Function::AddToStore, Argument::Nothing, "X509_STORE_add_cert");
        assert(plan@.steps =~= seq![plan@.steps[0], plan@.steps[1]]);
        plan
    }
}

} // verus!
