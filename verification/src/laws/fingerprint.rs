//! What building, checking and listing a fingerprint does.

use crate::error::Error;
use crate::fingerprint::spec::{
    validate_trust_anchor_ids, CertCompressAlg, EchModel, EchPolicy, Fingerprint,
    FingerprintBuilder, FingerprintModel, FpModel, FpValue,
};
use vstd::prelude::*;

verus! {

/// Each step of the builder that takes codepoints sets the field of its name to what
/// it is given, and no other field.
pub proof fn law_builder_sets_lists(
    b: FingerprintBuilder,
    codes: Vec<u16>,
    with_cipher_suites: FingerprintBuilder,
    with_extensions_order: FingerprintBuilder,
    with_supported_groups: FingerprintBuilder,
    with_key_shares: FingerprintBuilder,
    with_signature_algorithms: FingerprintBuilder,
)
    requires
        call_ensures(FingerprintBuilder::cipher_suites, (b, codes), with_cipher_suites),
        call_ensures(FingerprintBuilder::extensions_order, (b, codes), with_extensions_order),
        call_ensures(FingerprintBuilder::supported_groups, (b, codes), with_supported_groups),
        call_ensures(FingerprintBuilder::key_shares, (b, codes), with_key_shares),
        call_ensures(FingerprintBuilder::signature_algorithms, (b, codes), with_signature_algorithms),
    ensures
        with_cipher_suites@.cipher_suites == codes@,
        with_cipher_suites@ == (FingerprintModel { cipher_suites: with_cipher_suites@.cipher_suites, ..b@ }),
        with_extensions_order@.extensions_order == codes@,
        with_extensions_order@ == (FingerprintModel { extensions_order: with_extensions_order@.extensions_order, ..b@ }),
        with_supported_groups@.supported_groups == codes@,
        with_supported_groups@ == (FingerprintModel { supported_groups: with_supported_groups@.supported_groups, ..b@ }),
        with_key_shares@.key_shares == codes@,
        with_key_shares@ == (FingerprintModel { key_shares: with_key_shares@.key_shares, ..b@ }),
        with_signature_algorithms@.signature_algorithms == codes@,
        with_signature_algorithms@ == (FingerprintModel { signature_algorithms: with_signature_algorithms@.signature_algorithms, ..b@ }),
{
}

/// Each step of the builder that takes names sets the field of its name to what
/// it is given, and no other field.
pub proof fn law_builder_sets_names(
    b: FingerprintBuilder,
    names: Vec<String>,
    with_alpn: FingerprintBuilder,
    with_alps: FingerprintBuilder,
)
    requires
        call_ensures(FingerprintBuilder::alpn, (b, names), with_alpn),
        call_ensures(FingerprintBuilder::alps, (b, names), with_alps),
    ensures
        with_alpn@.alpn == crate::text::texts(names@),
        with_alpn@ == (FingerprintModel { alpn: with_alpn@.alpn, ..b@ }),
        with_alps@.alps == crate::text::texts(names@),
        with_alps@ == (FingerprintModel { alps: with_alps@.alps, ..b@ }),
{
}

/// Each step of the builder that takes flags sets the field of its name to what
/// it is given, and no other field.
pub proof fn law_builder_sets_flags(
    b: FingerprintBuilder,
    flag: bool,
    with_permute_extensions: FingerprintBuilder,
    with_alps_use_new_codepoint: FingerprintBuilder,
    with_grease: FingerprintBuilder,
    with_grease_sigalgs: FingerprintBuilder,
)
    requires
        call_ensures(FingerprintBuilder::permute_extensions, (b, flag), with_permute_extensions),
        call_ensures(FingerprintBuilder::alps_use_new_codepoint, (b, flag), with_alps_use_new_codepoint),
        call_ensures(FingerprintBuilder::grease, (b, flag), with_grease),
        call_ensures(FingerprintBuilder::grease_sigalgs, (b, flag), with_grease_sigalgs),
    ensures
        with_permute_extensions@.permute_extensions == flag,
        with_permute_extensions@ == (FingerprintModel { permute_extensions: with_permute_extensions@.permute_extensions, ..b@ }),
        with_alps_use_new_codepoint@.alps_use_new_codepoint == flag,
        with_alps_use_new_codepoint@ == (FingerprintModel { alps_use_new_codepoint: with_alps_use_new_codepoint@.alps_use_new_codepoint, ..b@ }),
        with_grease@.grease == flag,
        with_grease@ == (FingerprintModel { grease: with_grease@.grease, ..b@ }),
        with_grease_sigalgs@.grease_sigalgs == flag,
        with_grease_sigalgs@ == (FingerprintModel { grease_sigalgs: with_grease_sigalgs@.grease_sigalgs, ..b@ }),
{
}

/// Each other step of the builder sets the field of its name to what it is
/// given, and no other field; building gives what was set.
pub proof fn law_builder_sets_the_rest(
    b: FingerprintBuilder,
    algorithms: Vec<CertCompressAlg>,
    limit: Option<u16>,
    ech: EchPolicy,
    padding: Option<usize>,
    ids: Option<Vec<u8>>,
    with_compress_certificate: FingerprintBuilder,
    with_record_size_limit: FingerprintBuilder,
    with_ech: FingerprintBuilder,
    with_padding: FingerprintBuilder,
    with_trust_anchors: FingerprintBuilder,
    built: Fingerprint,
    fresh: FingerprintBuilder,
)
    requires
        call_ensures(FingerprintBuilder::compress_certificate, (b, algorithms), with_compress_certificate),
        call_ensures(FingerprintBuilder::record_size_limit, (b, limit), with_record_size_limit),
        call_ensures(FingerprintBuilder::ech, (b, ech), with_ech),
        call_ensures(FingerprintBuilder::padding, (b, padding), with_padding),
        call_ensures(FingerprintBuilder::trust_anchors, (b, ids), with_trust_anchors),
        call_ensures(FingerprintBuilder::build, (b,), built),
        call_ensures(Fingerprint::builder, (), fresh),
    ensures
        with_compress_certificate@.compress_certificate == algorithms@,
        with_compress_certificate@ == (FingerprintModel { compress_certificate: with_compress_certificate@.compress_certificate, ..b@ }),
        with_record_size_limit@.record_size_limit == limit,
        with_record_size_limit@ == (FingerprintModel { record_size_limit: with_record_size_limit@.record_size_limit, ..b@ }),
        with_ech@.ech == ech@,
        with_ech@ == (FingerprintModel { ech: with_ech@.ech, ..b@ }),
        with_padding@.padding == padding,
        with_padding@ == (FingerprintModel { padding: with_padding@.padding, ..b@ }),
        with_trust_anchors@.trust_anchors is Some <==> ids is Some,
        ids matches Some(i) ==> with_trust_anchors@.trust_anchors == Some(i@),
        with_trust_anchors@ == (FingerprintModel {
            trust_anchors: with_trust_anchors@.trust_anchors,
            ..b@
        }),
        built@ == b@,
        fresh@.permute_extensions && fresh@.alps_use_new_codepoint && fresh@.grease,
        !fresh@.grease_sigalgs && fresh@.ech is Off,
        fresh@.cipher_suites.len() == 0 && fresh@.extensions_order.len() == 0,
        fresh@.supported_groups.len() == 0 && fresh@.key_shares.len() == 0,
        fresh@.signature_algorithms.len() == 0 && fresh@.compress_certificate.len() == 0,
        fresh@.alpn.len() == 0 && fresh@.alps.len() == 0,
        fresh@.record_size_limit is None && fresh@.padding is None && fresh@.trust_anchors is None,
{
}

/// What a key of the dictionary form of a fingerprint names.
pub open spec fn names_field(key: Seq<char>, value: FpModel, fp: FingerprintModel) -> bool {
    &&& key == "alpn"@ ==> value == FpModel::StringVec(fp.alpn)
    &&& key == "alps"@ ==> value == FpModel::StringVec(fp.alps)
    &&& key == "alps_use_new_codepoint"@ ==> value == FpModel::Bool(fp.alps_use_new_codepoint)
    &&& key == "cipher_suites"@ ==> value == FpModel::U16Vec(fp.cipher_suites)
    &&& key == "compress_certificate"@ ==> value == FpModel::StringVec(fp.compress_certificate.map_values(|a: CertCompressAlg| a.text()))
    &&& key == "extensions_order"@ ==> value == FpModel::U16Vec(fp.extensions_order)
    &&& key == "grease"@ ==> value == FpModel::Bool(fp.grease)
    &&& key == "grease_sigalgs"@ ==> value == FpModel::Bool(fp.grease_sigalgs)
    &&& key == "key_shares"@ ==> value == FpModel::U16Vec(fp.key_shares)
    &&& key == "padding"@ ==> value == FpModel::OptUsize(fp.padding)
    &&& key == "permute_extensions"@ ==> value == FpModel::Bool(fp.permute_extensions)
    &&& key == "record_size_limit"@ ==> value == FpModel::OptU16(fp.record_size_limit)
    &&& key == "signature_algorithms"@ ==> value == FpModel::U16Vec(fp.signature_algorithms)
    &&& key == "supported_groups"@ ==> value == FpModel::U16Vec(fp.supported_groups)
    &&& key == "trust_anchors"@ ==> value == FpModel::OptBytes(fp.trust_anchors)
    &&& key == "ech"@ ==> value == (match fp.ech {
        EchModel::Off => FpModel::Str("off"@),
        EchModel::Grease => FpModel::Str("grease"@),
        EchModel::Real(b) => FpModel::Bytes(b),
    })
}

/// Whether a text is one of the sixteen keys.
pub open spec fn is_key(key: Seq<char>) -> bool {
    ||| key == "alpn"@
    ||| key == "alps"@
    ||| key == "alps_use_new_codepoint"@
    ||| key == "cipher_suites"@
    ||| key == "compress_certificate"@
    ||| key == "extensions_order"@
    ||| key == "grease"@
    ||| key == "grease_sigalgs"@
    ||| key == "key_shares"@
    ||| key == "padding"@
    ||| key == "permute_extensions"@
    ||| key == "record_size_limit"@
    ||| key == "signature_algorithms"@
    ||| key == "supported_groups"@
    ||| key == "trust_anchors"@
    ||| key == "ech"@
}

/// Each key of a fingerprint's dictionary is paired with the field that it
/// names. There are sixteen entries, with sixteen different keys.
pub proof fn law_fingerprint_keys_name_fields(fp: &Fingerprint, r: Vec<(&'static str, FpValue)>)
    requires
        call_ensures(Fingerprint::to_btreemap, (fp,), r),
    ensures
        r@.len() == 16,
        forall|i: int|
            0 <= i < 16 ==> is_key((#[trigger] r@[i]).0@) && names_field(r@[i].0@, r@[i].1@, fp@),
        forall|i: int, j: int| 0 <= i < j < 16 ==> (#[trigger] r@[i]).0@ != (#[trigger] r@[j]).0@,
{
    let all = fp@.entries();
    assert(crate::fingerprint::spec::entries_view(r@) == all);
    assert(all.len() == r@.len());
    assert forall|i: int| 0 <= i < 16 implies is_key((#[trigger] r@[i]).0@) && names_field(
        r@[i].0@,
        r@[i].1@,
        fp@,
    ) by {
        assert(crate::fingerprint::spec::entries_view(r@)[i] == (r@[i].0@, r@[i].1@));
        lemma_entry(fp@, i);
    }
    assert forall|i: int, j: int| 0 <= i < j < 16 implies (#[trigger] r@[i]).0@ != (
    #[trigger] r@[j]).0@ by {
        assert(crate::fingerprint::spec::entries_view(r@)[i].0 == r@[i].0@);
        assert(crate::fingerprint::spec::entries_view(r@)[j].0 == r@[j].0@);
        crate::fingerprint::spec::law_entries_sorted(fp@, i, j);
    }
}

proof fn lemma_entry(fp: FingerprintModel, i: int)
    requires
        0 <= i < 16,
    ensures
        is_key(fp.entries()[i].0),
        names_field(fp.entries()[i].0, fp.entries()[i].1, fp),
{
    reveal_strlit("alpn");
    reveal_strlit("alps");
    reveal_strlit("alps_use_new_codepoint");
    reveal_strlit("cipher_suites");
    reveal_strlit("compress_certificate");
    reveal_strlit("ech");
    reveal_strlit("extensions_order");
    reveal_strlit("grease");
    reveal_strlit("grease_sigalgs");
    reveal_strlit("key_shares");
    reveal_strlit("padding");
    reveal_strlit("permute_extensions");
    reveal_strlit("record_size_limit");
    reveal_strlit("signature_algorithms");
    reveal_strlit("supported_groups");
    reveal_strlit("trust_anchors");
    let key = fp.entries()[i].0;
    assert(crate::fingerprint::spec::algorithm_names(fp.compress_certificate)
        =~= fp.compress_certificate.map_values(|a: CertCompressAlg| a.text()));
    lemma_keys_differ(key);
}

/// The keys differ by their lengths or by a character.
proof fn lemma_keys_differ(key: Seq<char>)
    ensures
        key == "alpn"@ ==> key.len() == 4,
        key == "alps"@ ==> key.len() == 4,
        key == "alps_use_new_codepoint"@ ==> key.len() == 22,
        key == "cipher_suites"@ ==> key.len() == 13,
        key == "compress_certificate"@ ==> key.len() == 20,
        key == "ech"@ ==> key.len() == 3,
        key == "extensions_order"@ ==> key.len() == 16,
        key == "grease"@ ==> key.len() == 6,
        key == "grease_sigalgs"@ ==> key.len() == 14,
        key == "key_shares"@ ==> key.len() == 10,
        key == "padding"@ ==> key.len() == 7,
        key == "permute_extensions"@ ==> key.len() == 18,
        key == "record_size_limit"@ ==> key.len() == 17,
        key == "signature_algorithms"@ ==> key.len() == 20,
        key == "supported_groups"@ ==> key.len() == 16,
        key == "trust_anchors"@ ==> key.len() == 13,
        "alpn"@ != "alps"@,
        "cipher_suites"@ != "trust_anchors"@,
        "compress_certificate"@ != "signature_algorithms"@,
        "extensions_order"@ != "supported_groups"@,
{
    reveal_strlit("alpn");
    reveal_strlit("alps");
    reveal_strlit("alps_use_new_codepoint");
    reveal_strlit("cipher_suites");
    reveal_strlit("compress_certificate");
    reveal_strlit("ech");
    reveal_strlit("extensions_order");
    reveal_strlit("grease");
    reveal_strlit("grease_sigalgs");
    reveal_strlit("key_shares");
    reveal_strlit("padding");
    reveal_strlit("permute_extensions");
    reveal_strlit("record_size_limit");
    reveal_strlit("signature_algorithms");
    reveal_strlit("supported_groups");
    reveal_strlit("trust_anchors");
    assert("alpn"@[3] != "alps"@[3]);
    assert("cipher_suites"@[0] != "trust_anchors"@[0]);
    assert("compress_certificate"@[0] != "signature_algorithms"@[0]);
    assert("extensions_order"@[0] != "supported_groups"@[0]);
}

/// An algorithm has the codepoint 1, 2 or 3 on the wire, and a name is that of
/// an algorithm exactly where it is its lower-case name but for the case of
/// letters.
pub proof fn law_algorithms(a: CertCompressAlg, code: u16, name: &str, r: Option<CertCompressAlg>)
    requires
        call_ensures(CertCompressAlg::codepoint, (a,), code),
        call_ensures(CertCompressAlg::from_name, (name,), r),
    ensures
        code == (match a {
            CertCompressAlg::Zlib => 1int,
            CertCompressAlg::Brotli => 2,
            CertCompressAlg::Zstd => 3,
        }),
        r == Some(a) <==> crate::text::lower_text(name@) == (match a {
            CertCompressAlg::Zlib => "zlib"@,
            CertCompressAlg::Brotli => "brotli"@,
            CertCompressAlg::Zstd => "zstd"@,
        }),
{
    reveal_strlit("zlib");
    reveal_strlit("brotli");
    reveal_strlit("zstd");
    assert("zlib"@[1] != "zstd"@[1]);
}

/// A fingerprint is valid exactly where it has no trust-anchor IDs, or where
/// they are non-empty IDs of at most 255 bytes, each behind its length.
pub proof fn law_validation(
    fp: &Fingerprint,
    r: Result<(), Error>,
    ids: &[u8],
    q: Result<(), Error>,
)
    requires
        call_ensures(Fingerprint::validate, (fp,), r),
        call_ensures(validate_trust_anchor_ids, (ids,), q),
    ensures
        r is Ok <==> (fp@.trust_anchors matches Some(b) ==> exists|items: Seq<Seq<u8>>|
            (forall|i: int| 0 <= i < items.len() ==> 1 <= (#[trigger] items[i]).len() <= 255) && b
                == #[trigger] crate::lists::encoded(items)),
        q is Ok <==> exists|items: Seq<Seq<u8>>|
            (forall|i: int| 0 <= i < items.len() ==> 1 <= (#[trigger] items[i]).len() <= 255)
                && ids@ == #[trigger] crate::lists::encoded(items),
        r is Err ==> r->Err_0 is Usage,
        q is Err ==> q->Err_0 is Usage,
{
    lemma_lists_of_ids(ids@);
    match fp@.trust_anchors {
        Some(b) => lemma_lists_of_ids(b),
        None => {},
    }
}

proof fn lemma_lists_of_ids(b: Seq<u8>)
    ensures
        crate::fingerprint::spec::valid_trust_anchor_ids(b) <==> exists|items: Seq<Seq<u8>>|
            (forall|i: int| 0 <= i < items.len() ==> 1 <= (#[trigger] items[i]).len() <= 255) && b
                == #[trigger] crate::lists::encoded(items),
{
    crate::fingerprint::spec::law_valid_ids_are_encodings(b);
    if crate::fingerprint::spec::valid_trust_anchor_ids(b) {
        let items = choose|items: Seq<Seq<u8>>|
            crate::lists::proper(items) && b == #[trigger] crate::lists::encoded(items);
        assert(forall|i: int| 0 <= i < items.len() ==> 1 <= (#[trigger] items[i]).len() <= 255);
        assert(b == crate::lists::encoded(items));
    }
    if exists|items: Seq<Seq<u8>>|
        (forall|i: int| 0 <= i < items.len() ==> 1 <= (#[trigger] items[i]).len() <= 255) && b
            == #[trigger] crate::lists::encoded(items) {
        let items = choose|items: Seq<Seq<u8>>|
            (forall|i: int| 0 <= i < items.len() ==> 1 <= (#[trigger] items[i]).len() <= 255) && b
                == #[trigger] crate::lists::encoded(items);
        assert(crate::lists::proper(items));
        assert(b == crate::lists::encoded(items));
    }
}

} // verus!
