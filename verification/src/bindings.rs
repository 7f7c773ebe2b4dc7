//! What the Python module makes of its arguments and of the library's errors.

use crate::context::{Protocol, Purpose, TlsVersion, VerifyMode};
use crate::error::Error;
use crate::fingerprint::spec::{
    CertCompressAlg, EchModel, EchPolicy, Fingerprint, FingerprintModel,
};
use crate::sni::{SniAction, SniSslHandle};
use vstd::prelude::*;

verus! {

// ------------------------------------------------------------------- codes

/// The protocol with the given number.
pub fn protocol_of(code: i32) -> (r: Result<Protocol, &'static str>)
    ensures
        if code == 2 {
            r == Ok::<Protocol, &'static str>(Protocol::TlsClient)
        } else if code == 3 {
            r == Ok::<Protocol, &'static str>(Protocol::TlsServer)
        } else {
            r matches Err(t) && t@
                == "protocol must be PROTOCOL_TLS_CLIENT (2) or PROTOCOL_TLS_SERVER (3)"@
        },
{
    match code {
        2 => Ok(Protocol::TlsClient),
        3 => Ok(Protocol::TlsServer),
        _ => Err("protocol must be PROTOCOL_TLS_CLIENT (2) or PROTOCOL_TLS_SERVER (3)"),
    }
}

/// The number of a verify mode.
pub open spec fn mode_code(mode: VerifyMode) -> u8 {
    match mode {
        VerifyMode::Disabled => 0,
        VerifyMode::Optional => 1,
        VerifyMode::Required => 2,
    }
}

/// The verify mode with the given number.
pub fn verify_mode_of(code: u8) -> (r: Result<VerifyMode, &'static str>)
    ensures
        match r {
            Ok(mode) => mode_code(mode) == code,
            Err(t) => code > 2 && t@ == "verify_mode must be 0, 1, or 2"@,
        },
{
    match code {
        0 => Ok(VerifyMode::Disabled),
        1 => Ok(VerifyMode::Optional),
        2 => Ok(VerifyMode::Required),
        _ => Err("verify_mode must be 0, 1, or 2"),
    }
}

/// The number of a verify mode.
pub fn verify_mode_code(mode: VerifyMode) -> (r: u8)
    ensures
        r == mode_code(mode),
{
    match mode {
        VerifyMode::Disabled => 0,
        VerifyMode::Optional => 1,
        VerifyMode::Required => 2,
    }
}

/// The number of a version bound.
pub open spec fn bound_code(version: TlsVersion) -> u8 {
    match version {
        TlsVersion::MinimumSupported => 0,
        TlsVersion::Tls1_2 => 2,
        TlsVersion::Tls1_3 => 3,
        TlsVersion::MaximumSupported => 9,
    }
}

/// Whether a number stands for a version bound.
pub open spec fn is_bound_code(code: u8) -> bool {
    code == 0 || code == 2 || code == 3 || code == 9
}

/// The version bound with the given number.
pub fn version_of(code: u8) -> (r: Result<TlsVersion, &'static str>)
    ensures
        match r {
            Ok(version) => bound_code(version) == code,
            Err(t) => !is_bound_code(code) && t@ == "invalid TLS version code"@,
        },
{
    match code {
        0 => Ok(TlsVersion::MinimumSupported),
        2 => Ok(TlsVersion::Tls1_2),
        3 => Ok(TlsVersion::Tls1_3),
        9 => Ok(TlsVersion::MaximumSupported),
        _ => Err("invalid TLS version code"),
    }
}

/// Both version bounds, the lower one looked at first.
pub fn version_bounds_of(min: u8, max: u8) -> (r: Result<(TlsVersion, TlsVersion), &'static str>)
    ensures
        match r {
            Ok((low, high)) => bound_code(low) == min && bound_code(high) == max,
            Err(t) => (!is_bound_code(min) || !is_bound_code(max)) && t@
                == "invalid TLS version code"@,
        },
{
    match version_of(min) {
        Ok(low) => match version_of(max) {
            Ok(high) => Ok((low, high)),
            Err(t) => Err(t),
        },
        Err(t) => Err(t),
    }
}

/// The purpose with the given number.
pub fn purpose_of(code: u8) -> (r: Result<Purpose, &'static str>)
    ensures
        if code == 0 {
            r == Ok::<Purpose, &'static str>(Purpose::ServerAuth)
        } else if code == 1 {
            r == Ok::<Purpose, &'static str>(Purpose::ClientAuth)
        } else {
            r matches Err(t) && t@ == "purpose must be 0 (SERVER_AUTH) or 1 (CLIENT_AUTH)"@
        },
{
    match code {
        0 => Ok(Purpose::ServerAuth),
        1 => Ok(Purpose::ClientAuth),
        _ => Err("purpose must be 0 (SERVER_AUTH) or 1 (CLIENT_AUTH)"),
    }
}

/// Different verify modes and different version bounds have different
/// numbers, so a number leads back to one of them at most.
pub proof fn law_codes_are_distinct(a: VerifyMode, b: VerifyMode, v: TlsVersion, w: TlsVersion)
    ensures
        mode_code(a) == mode_code(b) ==> a == b,
        bound_code(v) == bound_code(w) ==> v == w,
        is_bound_code(bound_code(v)),
{
}

/// How much to read from a memory buffer: a negative number asks for all.
pub fn read_limit(n: isize) -> (r: Option<usize>)
    ensures
        r == (if n < 0 {
            None
        } else {
            Some(n as usize)
        }),
{
    if n < 0 {
        None
    } else {
        Some(n as usize)
    }
}

// ------------------------------------------------------------- fingerprints

/// The argument that says what to do about ECH.
#[derive(Debug)]
pub enum EchArgument {
    Absent,
    Flag(bool),
    Bytes(Vec<u8>),
    /// Something that is neither a truth value nor bytes.
    Other,
}

/// The ECH policy that an argument stands for.
pub open spec fn ech_of(arg: EchArgument) -> Option<EchModel> {
    match arg {
        EchArgument::Absent => Some(EchModel::Off),
        EchArgument::Flag(on) => Some(
            if on {
                EchModel::Grease
            } else {
                EchModel::Off
            },
        ),
        EchArgument::Bytes(b) => Some(EchModel::Real(b@)),
        EchArgument::Other => None,
    }
}

/// The arguments of the fingerprint constructor.
#[derive(Debug)]
pub struct FingerprintArguments {
    pub cipher_suites: Option<Vec<u16>>,
    pub extensions_order: Option<Vec<u16>>,
    pub supported_groups: Option<Vec<u16>>,
    pub key_shares: Option<Vec<u16>>,
    pub signature_algorithms: Option<Vec<u16>>,
    pub alpn: Option<Vec<String>>,
    pub alps: Option<Vec<String>>,
    pub alps_use_new_codepoint: bool,
    pub compress_certificate: Option<Vec<String>>,
    pub record_size_limit: Option<u16>,
    pub grease: bool,
    pub grease_sigalgs: bool,
    pub ech: EchArgument,
    pub padding: Option<usize>,
    pub trust_anchors: Option<Vec<u8>>,
}

/// Why arguments make no fingerprint.
#[derive(Debug, PartialEq, Eq)]
pub enum ArgumentFault {
    /// An argument has a wrong value.
    Value(String),
    /// The fingerprint is not valid.
    Invalid(Error),
}

/// The given codepoints, or none.
pub open spec fn codes_or_none(v: Option<Vec<u16>>) -> Seq<u16> {
    match v {
        Some(c) => c@,
        None => seq![],
    }
}

/// The given strings, or none.
pub open spec fn texts_or_none(v: Option<Vec<String>>) -> Seq<Seq<char>> {
    match v {
        Some(t) => crate::text::texts(t@),
        None => seq![],
    }
}

/// The position of the first name that stands for no algorithm; the length of
/// the list where each stands for one.
pub open spec fn first_unknown(names: Seq<Seq<char>>) -> int
    decreases names.len(),
{
    if names.len() == 0 || CertCompressAlg::of_name(names[0]) is None {
        0
    } else {
        1 + first_unknown(names.drop_first())
    }
}

/// The algorithms that names stand for.
pub open spec fn algorithms_of(names: Seq<Seq<char>>) -> Seq<CertCompressAlg> {
    names.map_values(|n: Seq<char>| CertCompressAlg::of_name(n)->Some_0)
}

/// What is said of a name that stands for no algorithm.
pub open spec fn unknown_algorithm(name: Seq<char>) -> Seq<char> {
    "unknown compress_certificate algorithm: "@ + crate::text::quoted(name)
        + " (allowed: zlib, brotli, zstd)"@
}

impl FingerprintArguments {
    /// The fingerprint that the arguments describe, where algorithm names and
    /// the ECH argument are in order.
    pub open spec fn described(self) -> FingerprintModel {
        FingerprintModel {
            cipher_suites: codes_or_none(self.cipher_suites),
            extensions_order: codes_or_none(self.extensions_order),
            permute_extensions: true,
            supported_groups: codes_or_none(self.supported_groups),
            key_shares: codes_or_none(self.key_shares),
            signature_algorithms: codes_or_none(self.signature_algorithms),
            alpn: texts_or_none(self.alpn),
            alps: texts_or_none(self.alps),
            alps_use_new_codepoint: self.alps_use_new_codepoint,
            compress_certificate: algorithms_of(texts_or_none(self.compress_certificate)),
            record_size_limit: self.record_size_limit,
            grease: self.grease,
            grease_sigalgs: self.grease_sigalgs,
            ech: ech_of(self.ech)->Some_0,
            padding: self.padding,
            trust_anchors: crate::fingerprint::spec::opt_bytes(self.trust_anchors),
        }
    }
}

proof fn lemma_first_unknown(names: Seq<Seq<char>>, i: int)
    requires
        0 <= i <= names.len(),
        forall|j: int| 0 <= j < i ==> CertCompressAlg::of_name(#[trigger] names[j]) is Some,
        i < names.len() ==> CertCompressAlg::of_name(names[i]) is None,
    ensures
        first_unknown(names) == i,
    decreases names.len(),
{
    if i > 0 {
        let rest = names.drop_first();
        assert forall|j: int| 0 <= j < i - 1 implies CertCompressAlg::of_name(
            #[trigger] rest[j],
        ) is Some by {
            assert(rest[j] == names[j + 1]);
        }
        lemma_first_unknown(rest, i - 1);
        assert(CertCompressAlg::of_name(names[0]) is Some);
    }
}

/// The algorithms that names stand for, or the position of the first that
/// stands for none.
fn read_algorithm_names(names: &Vec<String>) -> (r: Result<Vec<CertCompressAlg>, usize>)
    ensures
        ({
            let all = crate::text::texts(names@);
            match r {
                Ok(v) => first_unknown(all) == all.len() && v@ == algorithms_of(all),
                Err(i) => i == first_unknown(all) && i < names@.len(),
            }
        }),
{
    let ghost all = crate::text::texts(names@);
    let mut out: Vec<CertCompressAlg> = Vec::new();
    let mut i: usize = 0;
    while i < names.len()
        invariant
            i <= names@.len(),
            all == crate::text::texts(names@),
            out@.len() == i,
            forall|j: int|
                0 <= j < i ==> CertCompressAlg::of_name(#[trigger] all[j]) == Some(out@[j]),
        decreases names@.len() - i,
    {
        assert(all[i as int] == names@[i as int]@);
        match CertCompressAlg::from_name(names[i].as_str()) {
            Some(alg) => {
                out.push(alg);
            },
            None => {
                proof {
                    lemma_first_unknown(all, i as int);
                }
                return Err(i);
            },
        }
        i = i + 1;
    }
    proof {
        lemma_first_unknown(all, i as int);
        assert(out@ =~= algorithms_of(all));
    }
    Ok(out)
}

fn or_no_codes(v: Option<Vec<u16>>) -> (r: Vec<u16>)
    ensures
        r@ == codes_or_none(v),
{
    match v {
        Some(c) => c,
        None => Vec::new(),
    }
}

fn or_no_texts(v: Option<Vec<String>>) -> (r: Vec<String>)
    ensures
        crate::text::texts(r@) == texts_or_none(v),
{
    match v {
        Some(t) => t,
        None => {
            let r: Vec<String> = Vec::new();
            assert(crate::text::texts(r@) =~= seq![]);
            r
        },
    }
}

/// Makes a fingerprint of the constructor's arguments. Algorithm names are
/// looked at first, then the ECH argument, then the fingerprint as a whole.
pub fn new_fingerprint(args: FingerprintArguments) -> (r: Result<Fingerprint, ArgumentFault>)
    ensures
        ({
            let names = texts_or_none(args.compress_certificate);
            if first_unknown(names) < names.len() {
                r matches Err(ArgumentFault::Value(t)) && t@ == unknown_algorithm(
                    names[first_unknown(names)],
                )
            } else if ech_of(args.ech) is None {
                r matches Err(ArgumentFault::Value(t)) && t@ == "ech must be bool or bytes"@
            } else if !args.described().is_valid() {
                r matches Err(ArgumentFault::Invalid(e)) && e.is_usage(
                    crate::fingerprint::spec::trust_anchor_fault(),
                )
            } else {
                r matches Ok(fp) && fp@ == args.described()
            }
        }),
{
    let ghost wanted = args.described();
    let ghost names = texts_or_none(args.compress_certificate);
    let algorithms = match &args.compress_certificate {
        Some(list) => {
            assert(names.len() == list@.len());
            match read_algorithm_names(list) {
                Ok(algs) => algs,
                Err(i) => {
                    let mut text = String::new();
                    text.append("unknown compress_certificate algorithm: ");
                    text.append(crate::text::quote(list[i].as_str()).as_str());
                    text.append(" (allowed: zlib, brotli, zstd)");
                    assert(text@ =~= unknown_algorithm(names[i as int]));
                    return Err(ArgumentFault::Value(text));
                },
            }
        },
        None => {
            let none: Vec<CertCompressAlg> = Vec::new();
            assert(none@ =~= algorithms_of(names));
            none
        },
    };
    let ech = match args.ech {
        EchArgument::Absent => EchPolicy::Off,
        EchArgument::Flag(on) => if on {
            EchPolicy::Grease
        } else {
            EchPolicy::Off
        },
        EchArgument::Bytes(b) => EchPolicy::Real(b),
        EchArgument::Other => {
            return Err(ArgumentFault::Value("ech must be bool or bytes".to_owned()));
        },
    };
    let fp = Fingerprint::builder().cipher_suites(
        or_no_codes(args.cipher_suites),
    ).extensions_order(or_no_codes(args.extensions_order)).supported_groups(
        or_no_codes(args.supported_groups),
    ).key_shares(or_no_codes(args.key_shares)).signature_algorithms(
        or_no_codes(args.signature_algorithms),
    ).alpn(or_no_texts(args.alpn)).alps(or_no_texts(args.alps)).alps_use_new_codepoint(
        args.alps_use_new_codepoint,
    ).compress_certificate(algorithms).record_size_limit(args.record_size_limit).grease(
        args.grease,
    ).grease_sigalgs(args.grease_sigalgs).ech(ech).padding(args.padding).trust_anchors(
        args.trust_anchors,
    ).build();
    assert(fp@ == wanted);
    match fp.validate() {
        Ok(_) => Ok(fp),
        Err(e) => Err(ArgumentFault::Invalid(e)),
    }
}

// ------------------------------------------------------------------ errors

/// The exception that an error becomes.
#[derive(Debug, PartialEq, Eq)]
pub enum ErrorReport {
    /// The module's own exception, with its kind and message; a failed
    /// certificate check carries its code.
    Core { kind: &'static str, message: String, verify_code: Option<i64> },
    /// A value error.
    Value(String),
    /// A not-implemented error.
    NotImplemented(String),
}

/// The name of an error's kind.
pub open spec fn kind_of(err: Error) -> Seq<char> {
    match err {
        Error::WantRead => "WantRead"@,
        Error::WantWrite => "WantWrite"@,
        Error::Eof => "Eof"@,
        Error::ZeroReturn => "ZeroReturn"@,
        Error::Verification { reason, verify_code } => "Verification"@,
        Error::Protocol { message, code } => "Protocol"@,
        Error::Usage(_) => "Usage"@,
        Error::Io(_) => "Io"@,
        Error::Unsupported(_) => "Unsupported"@,
    }
}

/// The exception that an error becomes. `shown` is the error's description.
/// What the engine or the certificate check said comes through as it is.
pub fn report_error(err: &Error, shown: String) -> (r: ErrorReport)
    ensures
        match *err {
            Error::Usage(_) => r == ErrorReport::Value(shown),
            Error::Unsupported(_) => r == ErrorReport::NotImplemented(shown),
            Error::Verification { reason, verify_code } => {
                &&& r matches ErrorReport::Core { kind, message, verify_code: given }
                &&& kind@ == kind_of(*err)
                &&& message@ == reason@
                &&& given == Some(
                    match verify_code {
                        Some(c) => c,
                        None => 0i64,
                    },
                )
            },
            Error::Protocol { message: said, code } => {
                &&& r matches ErrorReport::Core { kind, message, verify_code }
                &&& kind@ == kind_of(*err)
                &&& message@ == said@
                &&& verify_code is None
            },
            _ => {
                &&& r matches ErrorReport::Core { kind, message, verify_code }
                &&& kind@ == kind_of(*err)
                &&& message@ == shown@
                &&& verify_code is None
            },
        },
{
    match err {
        Error::WantRead => ErrorReport::Core {
            kind: "WantRead",
            message: shown,
            verify_code: None,
        },
        Error::WantWrite => ErrorReport::Core {
            kind: "WantWrite",
            message: shown,
            verify_code: None,
        },
        Error::Eof => ErrorReport::Core { kind: "Eof", message: shown, verify_code: None },
        Error::ZeroReturn => ErrorReport::Core {
            kind: "ZeroReturn",
            message: shown,
            verify_code: None,
        },
        Error::Verification { reason, verify_code } => {
            let code: i64 = match verify_code {
                Some(c) => *c,
                None => 0,
            };
            ErrorReport::Core {
                kind: "Verification",
                message: reason.clone(),
                verify_code: Some(code),
            }
        },
        Error::Protocol { message, code: _ } => ErrorReport::Core {
            kind: "Protocol",
            message: message.clone(),
            verify_code: None,
        },
        Error::Usage(_) => ErrorReport::Value(shown),
        Error::Io(_) => ErrorReport::Core { kind: "Io", message: shown, verify_code: None },
        Error::Unsupported(_) => ErrorReport::NotImplemented(shown),
    }
}

// --------------------------------------------------------------------- SNI

/// What a Python dispatcher came back with.
#[derive(Debug, Clone, Copy, PartialEq, Eq, Structural)]
pub enum CallbackReply {
    /// It raised an exception.
    Raised,
    /// It returned `None`.
    Nothing,
    /// It returned a whole number that fits in two bytes.
    Number(u16),
    /// It returned something else.
    Other,
}

/// Why what a Python dispatcher came back with is no decision.
#[derive(Debug, Clone, Copy, PartialEq, Eq, Structural)]
pub enum CallbackFault {
    /// It raised an exception.
    Raised,
    /// It returned neither `None` nor an alert.
    NotAnAlert,
    /// It returned a number that no alert has.
    AlertTooLarge,
}

/// The alert for a dispatcher that does not work.
pub const ALERT_INTERNAL_ERROR: u8 = 80;

/// The decision of a Python dispatcher.
pub fn callback_decision(reply: CallbackReply) -> (r: Result<SniAction, CallbackFault>)
    ensures
        r == (match reply {
            CallbackReply::Raised => Err(CallbackFault::Raised),
            CallbackReply::Nothing => Ok(SniAction::Proceed),
            CallbackReply::Number(n) => if n <= 255 {
                Ok(SniAction::Abort(n as u8))
            } else {
                Err(CallbackFault::AlertTooLarge)
            },
            CallbackReply::Other => Err(CallbackFault::NotAnAlert),
        }),
{
    match reply {
        CallbackReply::Raised => Err(CallbackFault::Raised),
        CallbackReply::Nothing => Ok(SniAction::Proceed),
        CallbackReply::Number(n) => if n <= 255 {
            Ok(SniAction::Abort(n as u8))
        } else {
            Err(CallbackFault::AlertTooLarge)
        },
        CallbackReply::Other => Err(CallbackFault::NotAnAlert),
    }
}

/// What is done for a decision: a dispatcher that does not work aborts the
/// handshake.
pub fn action_for(decision: Result<SniAction, CallbackFault>) -> (r: SniAction)
    ensures
        r == (match decision {
            Ok(action) => action,
            Err(_) => SniAction::Abort(ALERT_INTERNAL_ERROR),
        }),
{
    match decision {
        Ok(action) => action,
        Err(_) => SniAction::Abort(ALERT_INTERNAL_ERROR),
    }
}

/// What is said of a dispatcher that came back with no decision; of one that
/// raised an exception, the exception speaks for itself.
pub fn fault_text(fault: CallbackFault) -> (r: Option<&'static str>)
    ensures
        crate::fingerprint::apply::opt_str(r) == (match fault {
            CallbackFault::Raised => None,
            CallbackFault::NotAnAlert => Some(
                "SNI callback must return None or an int TLS alert code"@,
            ),
            CallbackFault::AlertTooLarge => Some(
                "SNI callback alert code must fit in a byte (0..=255)"@,
            ),
        }),
{
    match fault {
        CallbackFault::Raised => None,
        CallbackFault::NotAnAlert => Some("SNI callback must return None or an int TLS alert code"),
        CallbackFault::AlertTooLarge => Some(
            "SNI callback alert code must fit in a byte (0..=255)",
        ),
    }
}

/// A handshake as a Python dispatcher sees it. It is usable only until the
/// dispatcher returns.
#[derive(Debug)]
pub struct SniView {
    /// The engine's handle, zero once the dispatcher has returned.
    ssl: usize,
    server_name: Option<String>,
}

/// The mathematical content of a [`SniView`].
pub struct SniViewModel {
    pub ssl: usize,
    pub server_name: Option<Seq<char>>,
}

impl View for SniView {
    type V = SniViewModel;

    closed spec fn view(&self) -> SniViewModel {
        SniViewModel { ssl: self.ssl, server_name: crate::plan::opt_text(self.server_name) }
    }
}

impl SniView {
    /// A view of the handshake with the given handle.
    pub fn new(handle: SniSslHandle, server_name: Option<String>) -> (r: Self)
        ensures
            r@ == (SniViewModel {
                ssl: handle@,
                server_name: crate::plan::opt_text(server_name),
            }),
    {
        SniView { ssl: handle.as_usize(), server_name }
    }

    /// The name that the client asked for.
    pub fn server_name(&self) -> (r: Option<&str>)
        ensures
            crate::context::opt_slice(r) == self@.server_name,
    {
        match &self.server_name {
            Some(s) => Some(s.as_str()),
            None => None,
        }
    }

    /// The handle to switch to another context, while the dispatcher runs.
    pub fn swap_target(&self) -> (r: Result<SniSslHandle, &'static str>)
        ensures
            if self@.ssl == 0 {
                r matches Err(t) && t@
                    == "SniHandshakeView is no longer valid (the callback has returned)"@
            } else {
                r matches Ok(h) && h@ == self@.ssl
            },
    {
        if self.ssl == 0 {
            return Err("SniHandshakeView is no longer valid (the callback has returned)");
        }
        Ok(SniSslHandle::from_raw(self.ssl))
    }

    /// Makes the view unusable. The name stays readable.
    pub fn invalidate(&mut self)
        ensures
            final(self)@ == (SniViewModel { ssl: 0, ..old(self)@ }),
    {
        self.ssl = 0;
    }
}

// ------------------------------------------------------- peer certificates

/// What is known of a peer's certificate.
#[derive(Debug)]
pub struct PeerCertInfo {
    /// The parts of the subject's name, each a list of attributes.
    pub subject: Vec<Vec<(String, String)>>,
    /// The parts of the issuer's name.
    pub issuer: Vec<Vec<(String, String)>>,
    pub version: i64,
    pub serial_number: String,
    pub not_before: String,
    pub not_after: String,
    /// Alternative names, each with its kind.
    pub subject_alt_name: Vec<(String, String)>,
}

/// A value of the dictionary form of a certificate.
#[derive(Debug)]
pub enum CertValue {
    Name(Vec<Vec<(String, String)>>),
    Number(i64),
    Text(String),
    Pairs(Vec<(String, String)>),
}

/// The keys of the dictionary form of a certificate. Alternative names have
/// one only where there are any.
pub open spec fn certificate_keys(with_alternatives: bool) -> Seq<Seq<char>> {
    seq![
        "subject"@,
        "issuer"@,
        "version"@,
        "serialNumber"@,
        "notBefore"@,
        "notAfter"@,
    ] + (if with_alternatives {
        seq!["subjectAltName"@]
    } else {
        seq![]
    })
}

/// The values of the dictionary form of a certificate, in the order of the
/// keys.
pub open spec fn certificate_values(info: PeerCertInfo) -> Seq<CertValue> {
    seq![
        CertValue::Name(info.subject),
        CertValue::Name(info.issuer),
        CertValue::Number(info.version),
        CertValue::Text(info.serial_number),
        CertValue::Text(info.not_before),
        CertValue::Text(info.not_after),
    ] + (if info.subject_alt_name@.len() > 0 {
        seq![CertValue::Pairs(info.subject_alt_name)]
    } else {
        seq![]
    })
}

/// The keys of a list of dictionary entries.
pub open spec fn keys_of(entries: Seq<(&'static str, CertValue)>) -> Seq<Seq<char>> {
    entries.map_values(|e: (&'static str, CertValue)| e.0@)
}

/// The values of a list of dictionary entries.
pub open spec fn values_of(entries: Seq<(&'static str, CertValue)>) -> Seq<CertValue> {
    entries.map_values(|e: (&'static str, CertValue)| e.1)
}

/// A certificate as key and value pairs.
pub fn certificate_entries(info: PeerCertInfo) -> (r: Vec<(&'static str, CertValue)>)
    ensures
        keys_of(r@) == certificate_keys(info.subject_alt_name@.len() > 0),
        values_of(r@) == certificate_values(info),
{
    let ghost whole = info;
    let mut d: Vec<(&'static str, CertValue)> = Vec::new();
    d.push(("subject", CertValue::Name(info.subject)));
    d.push(("issuer", CertValue::Name(info.issuer)));
    d.push(("version", CertValue::Number(info.version)));
    d.push(("serialNumber", CertValue::Text(info.serial_number)));
    d.push(("notBefore", CertValue::Text(info.not_before)));
    d.push(("notAfter", CertValue::Text(info.not_after)));
    if info.subject_alt_name.len() > 0 {
        d.push(("subjectAltName", CertValue::Pairs(info.subject_alt_name)));
    }
    proof {
        assert(keys_of(d@) =~= certificate_keys(whole.subject_alt_name@.len() > 0));
        assert(values_of(d@) =~= certificate_values(whole));
    }
    d
}

/// The names of algorithms stand for those algorithms.
pub proof fn law_names_rebuild_algorithms(algs: Seq<CertCompressAlg>)
    ensures
        ({
            let names = crate::fingerprint::spec::algorithm_names(algs);
            first_unknown(names) == names.len() && algorithms_of(names) == algs
        }),
{
    let names = crate::fingerprint::spec::algorithm_names(algs);
    assert forall|i: int| 0 <= i < names.len() implies CertCompressAlg::of_name(#[trigger] names[i])
        == Some(algs[i]) by {
        crate::fingerprint::spec::law_algorithms_distinct(algs[i], algs[i]);
    }
    lemma_first_unknown(names, names.len() as int);
    assert(algorithms_of(names) =~= algs);
}

/// Arguments that repeat a fingerprint, with its algorithms by name, describe
/// that fingerprint, as long as it permutes its extensions: the constructor
/// makes no other.
pub proof fn law_arguments_rebuild(args: FingerprintArguments, fp: FingerprintModel)
    requires
        fp.permute_extensions,
        codes_or_none(args.cipher_suites) == fp.cipher_suites,
        codes_or_none(args.extensions_order) == fp.extensions_order,
        codes_or_none(args.supported_groups) == fp.supported_groups,
        codes_or_none(args.key_shares) == fp.key_shares,
        codes_or_none(args.signature_algorithms) == fp.signature_algorithms,
        texts_or_none(args.alpn) == fp.alpn,
        texts_or_none(args.alps) == fp.alps,
        args.alps_use_new_codepoint == fp.alps_use_new_codepoint,
        texts_or_none(args.compress_certificate) == crate::fingerprint::spec::algorithm_names(
            fp.compress_certificate,
        ),
        args.record_size_limit == fp.record_size_limit,
        args.grease == fp.grease,
        args.grease_sigalgs == fp.grease_sigalgs,
        ech_of(args.ech) == Some(fp.ech),
        args.padding == fp.padding,
        crate::fingerprint::spec::opt_bytes(args.trust_anchors) == fp.trust_anchors,
    ensures
        args.described() == fp,
        first_unknown(texts_or_none(args.compress_certificate)) == fp.compress_certificate.len(),
{
    law_names_rebuild_algorithms(fp.compress_certificate);
}

} // verus!
