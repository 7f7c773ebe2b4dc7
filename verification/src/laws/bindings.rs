//! What the Python module's arguments, errors and dictionaries become.

use crate::bindings::{
    action_for, callback_decision, certificate_entries, certificate_keys, certificate_values,
    codes_or_none, first_unknown, keys_of, new_fingerprint, protocol_of, purpose_of, read_limit,
    report_error, texts_or_none, values_of, verify_mode_code, verify_mode_of, version_bounds_of,
    version_of, ArgumentFault, CallbackFault, CallbackReply, CertValue, EchArgument, ErrorReport,
    FingerprintArguments, PeerCertInfo, SniView,
};
use crate::context::{Protocol, Purpose, TlsVersion, VerifyMode};
use crate::error::Error;
use crate::fingerprint::spec::{CertCompressAlg, EchModel, Fingerprint};
use crate::sni::{SniAction, SniSslHandle};
use vstd::prelude::*;

verus! {

/// What a key of the dictionary form of a certificate names.
pub open spec fn names_field(key: Seq<char>, value: CertValue, info: PeerCertInfo) -> bool {
    &&& key == "subject"@ ==> value == CertValue::Name(info.subject)
    &&& key == "issuer"@ ==> value == CertValue::Name(info.issuer)
    &&& key == "version"@ ==> value == CertValue::Number(info.version)
    &&& key == "serialNumber"@ ==> value == CertValue::Text(info.serial_number)
    &&& key == "notBefore"@ ==> value == CertValue::Text(info.not_before)
    &&& key == "notAfter"@ ==> value == CertValue::Text(info.not_after)
    &&& key == "subjectAltName"@ ==> value == CertValue::Pairs(info.subject_alt_name)
}

/// Whether a key is among the entries of a dictionary.
pub open spec fn has_key(entries: Seq<(&'static str, CertValue)>, key: Seq<char>) -> bool {
    exists|i: int| 0 <= i < entries.len() && (#[trigger] entries[i]).0@ == key
}

/// Each key of a certificate's dictionary is paired with the field that it
/// names. Every key is there, but for the alternative names where there are
/// none.
pub proof fn law_certificate_keys_name_fields(
    info: PeerCertInfo,
    r: Vec<(&'static str, CertValue)>,
)
    requires
        call_ensures(certificate_entries, (info,), r),
    ensures
        forall|i: int|
            0 <= i < r@.len() ==> names_field((#[trigger] r@[i]).0@, r@[i].1, info),
        has_key(r@, "subject"@),
        has_key(r@, "issuer"@),
        has_key(r@, "version"@),
        has_key(r@, "serialNumber"@),
        has_key(r@, "notBefore"@),
        has_key(r@, "notAfter"@),
        has_key(r@, "subjectAltName"@) <==> info.subject_alt_name@.len() > 0,
        r@.len() <= 7,
{
    reveal_strlit("subject");
    reveal_strlit("issuer");
    reveal_strlit("version");
    reveal_strlit("serialNumber");
    reveal_strlit("notBefore");
    reveal_strlit("notAfter");
    reveal_strlit("subjectAltName");
    let keys = keys_of(r@);
    let values = values_of(r@);
    assert(keys == certificate_keys(info.subject_alt_name@.len() > 0));
    assert(values == certificate_values(info));
    assert(keys.len() == r@.len());
    assert("subject"@.len() == 7 && "version"@.len() == 7 && "subject"@[0] != "version"@[0]);
    assert("issuer"@.len() == 6 && "serialNumber"@.len() == 12 && "notBefore"@.len() == 9);
    assert("notAfter"@.len() == 8 && "subjectAltName"@.len() == 14);
    assert forall|i: int| 0 <= i < r@.len() implies names_field(
        (#[trigger] r@[i]).0@,
        r@[i].1,
        info,
    ) by {
        assert(keys[i] == r@[i].0@);
        assert(values[i] == r@[i].1);
    }
    assert(keys[0] == r@[0].0@ && keys[1] == r@[1].0@ && keys[2] == r@[2].0@);
    assert(keys[3] == r@[3].0@ && keys[4] == r@[4].0@ && keys[5] == r@[5].0@);
    if info.subject_alt_name@.len() > 0 {
        assert(keys[6] == r@[6].0@);
    } else {
        assert forall|i: int| 0 <= i < r@.len() implies (#[trigger] r@[i]).0@
            != "subjectAltName"@ by {
            assert(keys[i] == r@[i].0@);
        }
    }
}

/// The module's numbers: a protocol, a verify mode, a version bound and a
/// purpose come from exactly their numbers. The number of a verify mode counts
/// the engine's bits for it, and a number leads back to its mode.
pub proof fn law_numbers(
    code: i32,
    small: u8,
    protocol: Result<Protocol, &'static str>,
    mode: Result<VerifyMode, &'static str>,
    version: Result<TlsVersion, &'static str>,
    purpose: Result<Purpose, &'static str>,
    m: VerifyMode,
    number: u8,
)
    requires
        call_ensures(protocol_of, (code,), protocol),
        call_ensures(verify_mode_of, (small,), mode),
        call_ensures(version_of, (small,), version),
        call_ensures(purpose_of, (small,), purpose),
        call_ensures(verify_mode_code, (m,), number),
    ensures
        protocol is Ok <==> code == 2 || code == 3,
        protocol matches Ok(p) ==> (p == Protocol::TlsServer <==> code == 3),
        mode is Ok <==> small <= 2,
        mode matches Ok(v) ==> small == v.flags() % 2 + v.flags() / 2,
        number == m.flags() % 2 + m.flags() / 2,
        mode matches Ok(v) ==> (number == small <==> v == m),
        version is Ok <==> small == 0 || small == 2 || small == 3 || small == 9,
        version matches Ok(v) ==> (v == TlsVersion::MinimumSupported <==> small == 0) && (v
            == TlsVersion::Tls1_2 <==> small == 2) && (v == TlsVersion::Tls1_3 <==> small == 3) && (v
            == TlsVersion::MaximumSupported <==> small == 9),
        purpose is Ok <==> small <= 1,
        purpose matches Ok(p) ==> (p == Purpose::ClientAuth <==> small == 1),
{
}

/// Two version bounds come from two numbers, the lower from the first and the
/// upper from the second.
pub proof fn law_bounds_keep_their_places(
    min: u8,
    max: u8,
    r: Result<(TlsVersion, TlsVersion), &'static str>,
    low: Result<TlsVersion, &'static str>,
    high: Result<TlsVersion, &'static str>,
)
    requires
        call_ensures(version_bounds_of, (min, max), r),
        call_ensures(version_of, (min,), low),
        call_ensures(version_of, (max,), high),
    ensures
        r is Ok <==> low is Ok && high is Ok,
        r matches Ok(both) ==> low == Ok::<TlsVersion, &'static str>(both.0) && high == Ok::<
            TlsVersion,
            &'static str,
        >(both.1),
{
}

/// A negative limit means all there is; any other is taken as it is.
pub proof fn law_read_limits(n: isize, r: Option<usize>)
    requires
        call_ensures(read_limit, (n,), r),
    ensures
        r is None <==> n < 0,
        r matches Some(m) ==> m == n,
{
}

/// The constructor makes a fingerprint exactly where every algorithm has a
/// known name, the ECH argument is a truth value or bytes, and the trust-anchor
/// IDs form a list; each field of it is then the argument of that name.
pub proof fn law_constructor(
    args: FingerprintArguments,
    r: Result<Fingerprint, ArgumentFault>,
)
    requires
        call_ensures(new_fingerprint, (args,), r),
    ensures
        r matches Ok(fp) ==> {
            &&& fp@.cipher_suites == codes_or_none(args.cipher_suites)
            &&& fp@.extensions_order == codes_or_none(args.extensions_order)
            &&& fp@.permute_extensions
            &&& fp@.supported_groups == codes_or_none(args.supported_groups)
            &&& fp@.key_shares == codes_or_none(args.key_shares)
            &&& fp@.signature_algorithms == codes_or_none(args.signature_algorithms)
            &&& fp@.alpn == texts_or_none(args.alpn)
            &&& fp@.alps == texts_or_none(args.alps)
            &&& fp@.alps_use_new_codepoint == args.alps_use_new_codepoint
            &&& fp@.compress_certificate.len() == texts_or_none(args.compress_certificate).len()
            &&& forall|i: int|
                0 <= i < fp@.compress_certificate.len() ==> (
                #[trigger] fp@.compress_certificate[i]).text() == crate::text::lower_text(
                    texts_or_none(args.compress_certificate)[i],
                )
            &&& fp@.record_size_limit == args.record_size_limit
            &&& fp@.grease == args.grease
            &&& fp@.grease_sigalgs == args.grease_sigalgs
            &&& fp@.ech == (match args.ech {
                EchArgument::Bytes(b) => EchModel::Real(b@),
                EchArgument::Flag(true) => EchModel::Grease,
                _ => EchModel::Off,
            })
            &&& fp@.padding == args.padding
            &&& fp@.trust_anchors == (match args.trust_anchors {
                Some(b) => Some(b@),
                None => None,
            })
            &&& fp@.is_valid()
        },
        r is Ok <==> {
            &&& forall|i: int|
                0 <= i < texts_or_none(args.compress_certificate).len()
                    ==> CertCompressAlg::of_name(
                    #[trigger] texts_or_none(args.compress_certificate)[i],
                ) is Some
            &&& !(args.ech is Other)
            &&& args.trust_anchors matches Some(b)
                ==> crate::fingerprint::spec::valid_trust_anchor_ids(b@)
        },
{
    let names = texts_or_none(args.compress_certificate);
    lemma_unknown(names);
    if let Ok(fp) = r {
        assert forall|i: int| 0 <= i < fp@.compress_certificate.len() implies (
        #[trigger] fp@.compress_certificate[i]).text() == crate::text::lower_text(names[i]) by {
            assert(CertCompressAlg::of_name(names[i]) is Some);
        }
    }
}

proof fn lemma_unknown(names: Seq<Seq<char>>)
    ensures
        first_unknown(names) <= names.len(),
        first_unknown(names) == names.len() <==> forall|i: int|
            0 <= i < names.len() ==> CertCompressAlg::of_name(#[trigger] names[i]) is Some,
    decreases names.len(),
{
    if names.len() > 0 && CertCompressAlg::of_name(names[0]) is Some {
        let rest = names.drop_first();
        lemma_unknown(rest);
        if first_unknown(rest) == rest.len() {
            assert forall|i: int| 0 <= i < names.len() implies CertCompressAlg::of_name(
                #[trigger] names[i],
            ) is Some by {
                if i > 0 {
                    assert(names[i] == rest[i - 1]);
                }
            }
        } else {
            let j = choose|j: int|
                0 <= j < rest.len() && !(CertCompressAlg::of_name(#[trigger] rest[j]) is Some);
            assert(names[j + 1] == rest[j]);
        }
    }
}

/// An error that the caller made is a value error, one that says what is not
/// supported a not-implemented error, and any other is the module's own, under
/// the name of its kind. What the engine or the certificate check said comes
/// through word for word, and only a failed check carries a code.
pub proof fn law_error_reports(err: &Error, shown: String, r: ErrorReport)
    requires
        call_ensures(report_error, (err, shown), r),
    ensures
        r is Value <==> err is Usage,
        r is NotImplemented <==> err is Unsupported,
        r matches ErrorReport::Value(t) ==> t@ == shown@,
        r matches ErrorReport::NotImplemented(t) ==> t@ == shown@,
        r matches ErrorReport::Core { kind, message, verify_code } ==> {
            &&& kind@ == (match *err {
                Error::WantRead => "WantRead"@,
                Error::WantWrite => "WantWrite"@,
                Error::Eof => "Eof"@,
                Error::ZeroReturn => "ZeroReturn"@,
                Error::Verification { reason, verify_code } => "Verification"@,
                Error::Protocol { message, code } => "Protocol"@,
                _ => "Io"@,
            })
            &&& message@ == (match *err {
                Error::Verification { reason, verify_code } => reason@,
                Error::Protocol { message, code } => message@,
                _ => shown@,
            })
            &&& verify_code is Some <==> err is Verification
            &&& *err matches Error::Verification { reason, verify_code: Some(code) }
                ==> verify_code == Some(code)
        },
{
}

/// A dispatcher that returns nothing lets the handshake go on; one that returns
/// a byte aborts it with that alert; one that does anything else aborts it with
/// alert 80.
pub proof fn law_callback_decisions(
    reply: CallbackReply,
    decision: Result<SniAction, CallbackFault>,
    action: SniAction,
)
    requires
        call_ensures(callback_decision, (reply,), decision),
        call_ensures(action_for, (decision,), action),
    ensures
        action == SniAction::Proceed <==> reply == CallbackReply::Nothing,
        reply matches CallbackReply::Number(n) ==> action == SniAction::Abort(
            if n <= 255 {
                n as u8
            } else {
                80
            },
        ),
        reply == CallbackReply::Raised || reply == CallbackReply::Other ==> action
            == SniAction::Abort(80),
        decision is Ok <==> reply == CallbackReply::Nothing || (reply matches CallbackReply::Number(
            n,
        ) && n <= 255),
{
}

/// A view of a handshake hands out the handle it was made with until it is made
/// unusable, and never after; the name stays readable.
pub proof fn law_views(
    handle: SniSslHandle,
    name: Option<String>,
    made: SniView,
    target: Result<SniSslHandle, &'static str>,
    read: Option<&str>,
    v: &mut SniView,
    done: (),
    after: &SniView,
    late: Result<SniSslHandle, &'static str>,
    still: Option<&str>,
)
    requires
        call_ensures(SniView::new, (handle, name), made),
        call_ensures(SniView::swap_target, (&made,), target),
        call_ensures(SniView::server_name, (&made,), read),
        old(v)@ == made@,
        call_ensures(SniView::invalidate, (v,), done),
        after@ == final(v)@,
        call_ensures(SniView::swap_target, (after,), late),
        call_ensures(SniView::server_name, (after,), still),
    ensures
        target is Ok <==> handle@ != 0,
        target matches Ok(h) ==> h@ == handle@,
        late is Err,
        read is Some <==> name is Some,
        name matches Some(n) ==> read->Some_0@ == n@,
        still is Some <==> name is Some,
        name matches Some(n) ==> still->Some_0@ == n@,
{
}

} // verus!
