//! What applying a fingerprint does, by its fields.

use crate::fingerprint::spec::{CertCompressAlg, EchPolicy, Fingerprint, FingerprintBuilder};
use crate::plan::{ArgumentModel, Function, Plan};
use vstd::prelude::*;

verus! {

/// A fingerprint says what its fields say.
pub proof fn law_fields(fp: Fingerprint)
    ensures
        fp@.cipher_suites == fp.cipher_suites@,
        fp@.extensions_order == fp.extensions_order@,
        fp@.permute_extensions == fp.permute_extensions,
        fp@.supported_groups == fp.supported_groups@,
        fp@.key_shares == fp.key_shares@,
        fp@.signature_algorithms == fp.signature_algorithms@,
        fp@.alps_use_new_codepoint == fp.alps_use_new_codepoint,
        fp@.compress_certificate == fp.compress_certificate@,
        fp@.record_size_limit == fp.record_size_limit,
        fp@.grease == fp.grease,
        fp@.grease_sigalgs == fp.grease_sigalgs,
        fp@.padding == fp.padding,
        fp@.alpn == fp.alpn@.map_values(|s: String| s@),
        fp@.alps == fp.alps@.map_values(|s: String| s@),
        fp.trust_anchors is Some <==> fp@.trust_anchors is Some,
        fp.trust_anchors matches Some(ids) ==> fp@.trust_anchors == Some(ids@),
        fp.ech is Off <==> fp@.ech is Off,
        fp.ech is Grease <==> fp@.ech is Grease,
        fp.ech matches EchPolicy::Real(b) ==> fp@.ech
            == crate::fingerprint::spec::EchModel::Real(b@),
{
}

/// A copy of a fingerprint says what the original says, and a fresh one says
/// what the builder starts from.
pub proof fn law_copies(
    fp: &Fingerprint,
    copy: Fingerprint,
    fresh: Fingerprint,
    start: FingerprintBuilder,
)
    requires
        call_ensures(<Fingerprint as Clone>::clone, (fp,), copy),
        call_ensures(<Fingerprint as Default>::default, (), fresh),
        call_ensures(Fingerprint::builder, (), start),
    ensures
        copy@ == fp@,
        fresh@ == start@,
{
}

/// Applying a fingerprint to a connection gives the engine what its fields say:
/// the key shares, the signature algorithms, whether extensions are permuted,
/// whether GREASE is on, the ECH policy and the trust-anchor IDs.
pub proof fn law_fields_reach_the_engine(fp: &Fingerprint, plan: Plan)
    requires
        call_ensures(Fingerprint::apply_to_ssl, (fp,), plan),
        plan@.refusal is None,
    ensures
        ({
            let steps = plan@.steps;
            &&& crate::plan::last_argument(steps, Function::SetKeyShares) == (
            if fp.key_shares@.len() > 0 {
                Some(ArgumentModel::Codes(fp.key_shares@))
            } else {
                None
            })
            &&& crate::plan::last_argument(steps, Function::SetVerifyAlgorithms) == (
            if fp.signature_algorithms@.len() > 0 {
                Some(ArgumentModel::Codes(fp.signature_algorithms@))
            } else {
                None
            })
            &&& crate::plan::last_argument(steps, Function::SetPermuteExtensions) == (
            if fp.extensions_order@.len() > 0 {
                Some(ArgumentModel::Flag(fp.permute_extensions))
            } else {
                None
            })
            &&& crate::plan::last_argument(steps, Function::SetGrease) == Some(
                ArgumentModel::Flag(fp.grease),
            )
            &&& crate::plan::last_argument(steps, Function::SetGreaseSigalgs) == Some(
                ArgumentModel::Flag(fp.grease && fp.grease_sigalgs),
            )
            &&& crate::plan::last_argument(steps, Function::SetEchConfig) == (match fp.ech {
                EchPolicy::Real(b) => Some(ArgumentModel::Bytes(b@)),
                _ => None,
            })
            &&& crate::plan::last_argument(steps, Function::SetEchGrease) == (match fp.ech {
                EchPolicy::Grease => Some(ArgumentModel::Flag(true)),
                _ => None,
            })
            &&& crate::plan::last_argument(steps, Function::SetTrustAnchors) == (
            match fp.trust_anchors {
                Some(ids) => Some(ArgumentModel::Bytes(ids@)),
                None => None,
            })
            &&& crate::plan::last_argument(steps, Function::AddCompression) == (
            if fp.compress_certificate@.contains(CertCompressAlg::Brotli) {
                Some(ArgumentModel::Number(2))
            } else {
                None
            })
        }),
{
    crate::fingerprint::apply::law_key_shares_are_sent(fp@, None);
    crate::fingerprint::apply::law_signature_algorithms_are_sent(fp@, None);
    crate::fingerprint::apply::law_permutation_is_set(fp@, None);
    crate::fingerprint::apply::law_grease_follows_the_flags(fp@, None);
    crate::fingerprint::apply::law_ech_follows_the_policy(fp@, None);
    crate::fingerprint::apply::law_trust_anchors_are_sent(fp@, None);
    crate::fingerprint::apply::law_compression_is_offered(fp@, None);
}

/// Whether a fingerprint is refused is told before anything that it asks for
/// reaches the engine, where its trust-anchor IDs are at fault.
pub proof fn law_invalid_fingerprints_do_nothing(fp: &Fingerprint, plan: Plan)
    requires
        call_ensures(Fingerprint::apply_to_ssl, (fp,), plan),
        !fp@.is_valid(),
    ensures
        plan@.steps.len() == 0,
        plan@.refusal is Some,
{
}

} // verus!
