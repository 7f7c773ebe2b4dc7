//! The declarative description of a ClientHello.

use crate::error::Error;
use vstd::prelude::*;

verus! {

/// Stands in `extensions_order` for an extension with a GREASE codepoint. It
/// is no GREASE codepoint itself.
pub const GREASE_EXTENSION: u16 = 0xFFFE;

/// The codepoint of the `trust_anchors` extension.
pub const TRUST_ANCHORS_EXTENSION: u16 = 0xCA34;

/// A certificate-compression algorithm.
#[derive(Debug, Clone, Copy, PartialEq, Eq, Structural)]
pub enum CertCompressAlg {
    Zlib,
    Brotli,
    Zstd,
}

/// What to do about Encrypted Client Hello.
#[derive(Debug, PartialEq, Eq)]
pub enum EchPolicy {
    /// Leave the `encrypted_client_hello` extension out.
    Off,
    /// Send an extension of the right shape without a real configuration.
    Grease,
    /// Offer the given `ECHConfigList`.
    Real(Vec<u8>),
}

/// A complete ClientHello description.
#[derive(Debug, PartialEq, Eq)]
pub struct Fingerprint {
    /// Cipher suites, in the order of the ClientHello.
    pub cipher_suites: Vec<u16>,
    /// Extension codepoints in wire order, with [`GREASE_EXTENSION`] for each
    /// GREASE extension.
    pub extensions_order: Vec<u16>,
    /// Whether each handshake sends its extensions in a new random order.
    pub permute_extensions: bool,
    /// Codepoints of the `supported_groups` extension.
    pub supported_groups: Vec<u16>,
    /// The groups for which a key share is sent.
    pub key_shares: Vec<u16>,
    /// Codepoints of the `signature_algorithms` extension.
    pub signature_algorithms: Vec<u16>,
    /// ALPN protocol names.
    pub alpn: Vec<String>,
    /// ALPS protocol names.
    pub alps: Vec<String>,
    /// Whether ALPS uses codepoint 17613 rather than the older 17513.
    pub alps_use_new_codepoint: bool,
    /// Algorithms of the `compress_certificate` extension.
    pub compress_certificate: Vec<CertCompressAlg>,
    /// Value of the `record_size_limit` extension.
    pub record_size_limit: Option<u16>,
    /// Whether GREASE values are sent.
    pub grease: bool,
    /// Whether a GREASE value leads `signature_algorithms`.
    pub grease_sigalgs: bool,
    /// The Encrypted Client Hello policy.
    pub ech: EchPolicy,
    /// Length of the `padding` extension.
    pub padding: Option<usize>,
    /// Trust-anchor IDs, each non-empty and preceded by its length in one
    /// byte. `None` leaves the extension out; an empty list sends it empty.
    pub trust_anchors: Option<Vec<u8>>,
}

/// The mathematical content of an [`EchPolicy`].
pub enum EchModel {
    Off,
    Grease,
    Real(Seq<u8>),
}

/// The mathematical content of a [`Fingerprint`].
pub struct FingerprintModel {
    pub cipher_suites: Seq<u16>,
    pub extensions_order: Seq<u16>,
    pub permute_extensions: bool,
    pub supported_groups: Seq<u16>,
    pub key_shares: Seq<u16>,
    pub signature_algorithms: Seq<u16>,
    pub alpn: Seq<Seq<char>>,
    pub alps: Seq<Seq<char>>,
    pub alps_use_new_codepoint: bool,
    pub compress_certificate: Seq<CertCompressAlg>,
    pub record_size_limit: Option<u16>,
    pub grease: bool,
    pub grease_sigalgs: bool,
    pub ech: EchModel,
    pub padding: Option<usize>,
    pub trust_anchors: Option<Seq<u8>>,
}

/// The content of an optional byte string.
pub open spec fn opt_bytes(b: Option<Vec<u8>>) -> Option<Seq<u8>> {
    match b {
        Some(v) => Some(v@),
        None => None,
    }
}

impl View for EchPolicy {
    type V = EchModel;

    open spec fn view(&self) -> EchModel {
        match *self {
            EchPolicy::Off => EchModel::Off,
            EchPolicy::Grease => EchModel::Grease,
            EchPolicy::Real(b) => EchModel::Real(b@),
        }
    }
}

impl View for Fingerprint {
    type V = FingerprintModel;

    open spec fn view(&self) -> FingerprintModel {
        FingerprintModel {
            cipher_suites: self.cipher_suites@,
            extensions_order: self.extensions_order@,
            permute_extensions: self.permute_extensions,
            supported_groups: self.supported_groups@,
            key_shares: self.key_shares@,
            signature_algorithms: self.signature_algorithms@,
            alpn: crate::text::texts(self.alpn@),
            alps: crate::text::texts(self.alps@),
            alps_use_new_codepoint: self.alps_use_new_codepoint,
            compress_certificate: self.compress_certificate@,
            record_size_limit: self.record_size_limit,
            grease: self.grease,
            grease_sigalgs: self.grease_sigalgs,
            ech: self.ech@,
            padding: self.padding,
            trust_anchors: opt_bytes(self.trust_anchors),
        }
    }
}

/// The fingerprint that says nothing but the defaults: extensions permuted,
/// the newer ALPS codepoint, GREASE on, everything else absent.
pub open spec fn default_model() -> FingerprintModel {
    FingerprintModel {
        cipher_suites: seq![],
        extensions_order: seq![],
        permute_extensions: true,
        supported_groups: seq![],
        key_shares: seq![],
        signature_algorithms: seq![],
        alpn: seq![],
        alps: seq![],
        alps_use_new_codepoint: true,
        compress_certificate: seq![],
        record_size_limit: None,
        grease: true,
        grease_sigalgs: false,
        ech: EchModel::Off,
        padding: None,
        trust_anchors: None,
    }
}

/// A copy of a list of strings.
pub(crate) fn copy_strings(v: &Vec<String>) -> (r: Vec<String>)
    ensures
        crate::text::texts(r@) == crate::text::texts(v@),
{
    let mut out: Vec<String> = Vec::new();
    let mut i: usize = 0;
    while i < v.len()
        invariant
            i <= v.len(),
            out@.len() == i,
            forall|j: int| 0 <= j < i ==> (#[trigger] out@[j])@ == v@[j]@,
        decreases v.len() - i,
    {
        out.push(v[i].clone());
        i = i + 1;
    }
    assert(crate::text::texts(out@) =~= crate::text::texts(v@));
    out
}

/// A copy of an optional byte string.
pub(crate) fn copy_opt_bytes(b: &Option<Vec<u8>>) -> (r: Option<Vec<u8>>)
    ensures
        opt_bytes(r) == opt_bytes(*b),
{
    match b {
        Some(v) => {
            let c = vstd::slice::slice_to_vec(v.as_slice());
            Some(c)
        },
        None => None,
    }
}

/// A copy of a list of codepoints.
pub(crate) fn copy_codes(v: &Vec<u16>) -> (r: Vec<u16>)
    ensures
        r@ == v@,
{
    vstd::slice::slice_to_vec(v.as_slice())
}

impl Clone for EchPolicy {
    fn clone(&self) -> (r: Self)
        ensures
            r@ == self@,
    {
        match self {
            EchPolicy::Off => EchPolicy::Off,
            EchPolicy::Grease => EchPolicy::Grease,
            EchPolicy::Real(b) => EchPolicy::Real(vstd::slice::slice_to_vec(b.as_slice())),
        }
    }
}

impl Clone for Fingerprint {
    fn clone(&self) -> (r: Self)
        ensures
            r@ == self@,
    {
        Fingerprint {
            cipher_suites: copy_codes(&self.cipher_suites),
            extensions_order: copy_codes(&self.extensions_order),
            permute_extensions: self.permute_extensions,
            supported_groups: copy_codes(&self.supported_groups),
            key_shares: copy_codes(&self.key_shares),
            signature_algorithms: copy_codes(&self.signature_algorithms),
            alpn: copy_strings(&self.alpn),
            alps: copy_strings(&self.alps),
            alps_use_new_codepoint: self.alps_use_new_codepoint,
            compress_certificate: vstd::slice::slice_to_vec(self.compress_certificate.as_slice()),
            record_size_limit: self.record_size_limit,
            grease: self.grease,
            grease_sigalgs: self.grease_sigalgs,
            ech: self.ech.clone(),
            padding: self.padding,
            trust_anchors: copy_opt_bytes(&self.trust_anchors),
        }
    }
}

impl Default for Fingerprint {
    fn default() -> (r: Self)
        ensures
            r@ == default_model(),
    {
        let r = Fingerprint {
            cipher_suites: Vec::new(),
            extensions_order: Vec::new(),
            permute_extensions: true,
            supported_groups: Vec::new(),
            key_shares: Vec::new(),
            signature_algorithms: Vec::new(),
            alpn: Vec::new(),
            alps: Vec::new(),
            alps_use_new_codepoint: true,
            compress_certificate: Vec::new(),
            record_size_limit: None,
            grease: true,
            grease_sigalgs: false,
            ech: EchPolicy::Off,
            padding: None,
            trust_anchors: None,
        };
        assert(r@.alpn =~= seq![]);
        assert(r@.alps =~= seq![]);
        r
    }
}

/// Whether `bytes` is a list of non-empty trust-anchor IDs, each preceded by
/// its length in one byte. The empty list counts.
pub open spec fn valid_trust_anchor_ids(bytes: Seq<u8>) -> bool {
    crate::lists::is_list(bytes) && crate::lists::proper(crate::lists::leading_items(bytes))
}

/// What is said of a list that is not one of non-empty IDs.
pub open spec fn trust_anchor_fault() -> Seq<char> {
    "trust_anchors must be a list of non-empty IDs, each preceded by its length"@
}

proof fn lemma_valid_ids_step(bytes: Seq<u8>)
    requires
        bytes.len() > 0,
    ensures
        valid_trust_anchor_ids(bytes) == (bytes[0] > 0 && bytes.len() >= 1 + bytes[0]
            && valid_trust_anchor_ids(bytes.skip(1 + bytes[0]))),
{
    if bytes.len() >= 1 + bytes[0] {
        let first = bytes.subrange(1, 1 + bytes[0]);
        let rest = crate::lists::leading_items(bytes.skip(1 + bytes[0]));
        let all = crate::lists::leading_items(bytes);
        assert(all == seq![first] + rest);
        assert(all[0] == first);
        if crate::lists::proper(all) {
            assert forall|i: int| 0 <= i < rest.len() implies 1 <= (#[trigger] rest[i]).len()
                <= 255 by {
                assert(rest[i] == all[i + 1]);
            }
        }
        if bytes[0] > 0 && crate::lists::proper(rest) {
            assert forall|i: int| 0 <= i < all.len() implies 1 <= (#[trigger] all[i]).len()
                <= 255 by {
                if i > 0 {
                    assert(all[i] == rest[i - 1]);
                }
            }
        }
    }
}

/// Accepts exactly the lists of non-empty trust-anchor IDs.
pub fn validate_trust_anchor_ids(ids: &[u8]) -> (r: Result<(), Error>)
    ensures
        r is Ok <==> valid_trust_anchor_ids(ids@),
        r matches Err(e) ==> e.is_usage(trust_anchor_fault()),
{
    let mut pos: usize = 0;
    assert(ids@.skip(0) =~= ids@);
    while pos < ids.len()
        invariant
            pos <= ids@.len(),
            valid_trust_anchor_ids(ids@) == valid_trust_anchor_ids(ids@.skip(pos as int)),
        decreases ids@.len() - pos,
    {
        let len: usize = ids[pos] as usize;
        proof {
            lemma_valid_ids_step(ids@.skip(pos as int));
            assert(ids@.skip(pos as int)[0] == len);
        }
        if len == 0 || ids.len() - pos < 1 + len {
            return Err(
                crate::error::usage(
                    "trust_anchors must be a list of non-empty IDs, each preceded by its length",
                ),
            );
        }
        assert(ids@.skip(pos as int).skip(1 + len) =~= ids@.skip(pos + 1 + len));
        pos = pos + 1 + len;
    }
    assert(ids@.skip(pos as int) =~= seq![]);
    Ok(())
}

impl FingerprintModel {
    /// Whether the trust-anchor IDs, where there are any, form a list.
    pub open spec fn is_valid(self) -> bool {
        self.trust_anchors matches Some(ids) ==> valid_trust_anchor_ids(ids)
    }
}

impl Fingerprint {
    /// Accepts a fingerprint whose trust-anchor IDs, where there are any, are
    /// a list of non-empty IDs.
    pub fn validate(&self) -> (r: Result<(), Error>)
        ensures
            r is Ok <==> self@.is_valid(),
            r matches Err(e) ==> e.is_usage(trust_anchor_fault()),
    {
        match &self.trust_anchors {
            Some(ids) => validate_trust_anchor_ids(ids.as_slice()),
            None => Ok(()),
        }
    }
}

impl CertCompressAlg {
    /// The codepoint that stands for an algorithm on the wire.
    pub open spec fn wire_code(self) -> u16 {
        match self {
            CertCompressAlg::Zlib => 1,
            CertCompressAlg::Brotli => 2,
            CertCompressAlg::Zstd => 3,
        }
    }

    /// The lower-case name of an algorithm.
    pub open spec fn text(self) -> Seq<char> {
        match self {
            CertCompressAlg::Zlib => "zlib"@,
            CertCompressAlg::Brotli => "brotli"@,
            CertCompressAlg::Zstd => "zstd"@,
        }
    }

    /// The algorithm with the given codepoint.
    pub open spec fn of_wire_code(code: u16) -> Option<CertCompressAlg> {
        if code == 1 {
            Some(CertCompressAlg::Zlib)
        } else if code == 2 {
            Some(CertCompressAlg::Brotli)
        } else if code == 3 {
            Some(CertCompressAlg::Zstd)
        } else {
            None
        }
    }

    /// The algorithm that a name stands for, in upper or lower case.
    pub open spec fn of_name(name: Seq<char>) -> Option<CertCompressAlg> {
        let low = crate::text::lower_text(name);
        if low == CertCompressAlg::Zlib.text() {
            Some(CertCompressAlg::Zlib)
        } else if low == CertCompressAlg::Brotli.text() {
            Some(CertCompressAlg::Brotli)
        } else if low == CertCompressAlg::Zstd.text() {
            Some(CertCompressAlg::Zstd)
        } else {
            None
        }
    }

    /// The codepoint that stands for the algorithm on the wire.
    pub fn codepoint(self) -> (r: u16)
        ensures
            r == self.wire_code(),
    {
        match self {
            CertCompressAlg::Zlib => 1,
            CertCompressAlg::Brotli => 2,
            CertCompressAlg::Zstd => 3,
        }
    }

    /// The algorithm of that name, in upper or lower case.
    pub fn from_name(name: &str) -> (r: Option<Self>)
        ensures
            r == Self::of_name(name@),
    {
        if crate::text::lower_equals(name, "zlib") {
            Some(CertCompressAlg::Zlib)
        } else if crate::text::lower_equals(name, "brotli") {
            Some(CertCompressAlg::Brotli)
        } else if crate::text::lower_equals(name, "zstd") {
            Some(CertCompressAlg::Zstd)
        } else {
            None
        }
    }

    /// The algorithm with the given codepoint.
    pub(crate) fn from_codepoint(code: u16) -> (r: Option<Self>)
        ensures
            r == Self::of_wire_code(code),
    {
        match code {
            1 => Some(CertCompressAlg::Zlib),
            2 => Some(CertCompressAlg::Brotli),
            3 => Some(CertCompressAlg::Zstd),
            _ => None,
        }
    }

    /// The lower-case name of the algorithm.
    pub(crate) fn name(self) -> (r: &'static str)
        ensures
            r@ == self.text(),
    {
        match self {
            CertCompressAlg::Zlib => "zlib",
            CertCompressAlg::Brotli => "brotli",
            CertCompressAlg::Zstd => "zstd",
        }
    }
}

/// Different algorithms have different codepoints and different names; a
/// codepoint and a name lead back to their algorithm.
pub proof fn law_algorithms_distinct(a: CertCompressAlg, b: CertCompressAlg)
    ensures
        a.wire_code() == b.wire_code() ==> a == b,
        a.text() == b.text() ==> a == b,
        CertCompressAlg::of_wire_code(a.wire_code()) == Some(a),
        CertCompressAlg::of_name(a.text()) == Some(a),
{
    assert(crate::text::lower_text(a.text()) =~= a.text()) by {
        reveal_strlit("zlib");
        reveal_strlit("brotli");
        reveal_strlit("zstd");
    }
    reveal_strlit("zlib");
    reveal_strlit("brotli");
    reveal_strlit("zstd");
    assert("zlib"@[1] != "zstd"@[1]);
}

// ------------------------------------------------------------ dictionary

/// A value of the dictionary form of a fingerprint.
#[derive(Debug)]
pub enum FpValue {
    U16Vec(Vec<u16>),
    StringVec(Vec<String>),
    OptU16(Option<u16>),
    OptUsize(Option<usize>),
    Bool(bool),
    Str(String),
    Bytes(Vec<u8>),
    OptBytes(Option<Vec<u8>>),
}

/// The mathematical content of an [`FpValue`].
pub enum FpModel {
    U16Vec(Seq<u16>),
    StringVec(Seq<Seq<char>>),
    OptU16(Option<u16>),
    OptUsize(Option<usize>),
    Bool(bool),
    Str(Seq<char>),
    Bytes(Seq<u8>),
    OptBytes(Option<Seq<u8>>),
}

impl View for FpValue {
    type V = FpModel;

    open spec fn view(&self) -> FpModel {
        match *self {
            FpValue::U16Vec(v) => FpModel::U16Vec(v@),
            FpValue::StringVec(v) => FpModel::StringVec(crate::text::texts(v@)),
            FpValue::OptU16(v) => FpModel::OptU16(v),
            FpValue::OptUsize(v) => FpModel::OptUsize(v),
            FpValue::Bool(v) => FpModel::Bool(v),
            FpValue::Str(v) => FpModel::Str(v@),
            FpValue::Bytes(v) => FpModel::Bytes(v@),
            FpValue::OptBytes(v) => FpModel::OptBytes(opt_bytes(v)),
        }
    }
}

impl Clone for FpValue {
    fn clone(&self) -> (r: Self)
        ensures
            r@ == self@,
    {
        match self {
            FpValue::U16Vec(v) => FpValue::U16Vec(copy_codes(v)),
            FpValue::StringVec(v) => FpValue::StringVec(copy_strings(v)),
            FpValue::OptU16(v) => FpValue::OptU16(*v),
            FpValue::OptUsize(v) => FpValue::OptUsize(*v),
            FpValue::Bool(v) => FpValue::Bool(*v),
            FpValue::Str(v) => FpValue::Str(v.clone()),
            FpValue::Bytes(v) => FpValue::Bytes(vstd::slice::slice_to_vec(v.as_slice())),
            FpValue::OptBytes(v) => FpValue::OptBytes(copy_opt_bytes(v)),
        }
    }
}

/// The names of the algorithms of `algs`.
pub open spec fn algorithm_names(algs: Seq<CertCompressAlg>) -> Seq<Seq<char>> {
    algs.map_values(|a: CertCompressAlg| a.text())
}

/// The dictionary value of an ECH policy: a word, or the configuration.
pub open spec fn ech_value(ech: EchModel) -> FpModel {
    match ech {
        EchModel::Off => FpModel::Str("off"@),
        EchModel::Grease => FpModel::Str("grease"@),
        EchModel::Real(b) => FpModel::Bytes(b),
    }
}

impl FingerprintModel {
    /// The dictionary form of a fingerprint, in the order of its keys.
    pub open spec fn entries(self) -> Seq<(Seq<char>, FpModel)> {
        seq![
            ("alpn"@, FpModel::StringVec(self.alpn)),
            ("alps"@, FpModel::StringVec(self.alps)),
            ("alps_use_new_codepoint"@, FpModel::Bool(self.alps_use_new_codepoint)),
            ("cipher_suites"@, FpModel::U16Vec(self.cipher_suites)),
            (
                "compress_certificate"@,
                FpModel::StringVec(algorithm_names(self.compress_certificate)),
            ),
            ("ech"@, ech_value(self.ech)),
            ("extensions_order"@, FpModel::U16Vec(self.extensions_order)),
            ("grease"@, FpModel::Bool(self.grease)),
            ("grease_sigalgs"@, FpModel::Bool(self.grease_sigalgs)),
            ("key_shares"@, FpModel::U16Vec(self.key_shares)),
            ("padding"@, FpModel::OptUsize(self.padding)),
            ("permute_extensions"@, FpModel::Bool(self.permute_extensions)),
            ("record_size_limit"@, FpModel::OptU16(self.record_size_limit)),
            ("signature_algorithms"@, FpModel::U16Vec(self.signature_algorithms)),
            ("supported_groups"@, FpModel::U16Vec(self.supported_groups)),
            ("trust_anchors"@, FpModel::OptBytes(self.trust_anchors)),
        ]
    }
}

/// The content of a list of dictionary entries.
pub open spec fn entries_view(v: Seq<(&'static str, FpValue)>) -> Seq<(Seq<char>, FpModel)> {
    v.map_values(|e: (&'static str, FpValue)| (e.0@, e.1@))
}

impl Fingerprint {
    /// The names of the compression algorithms.
    fn algorithm_name_list(&self) -> (r: Vec<String>)
        ensures
            crate::text::texts(r@) == algorithm_names(self@.compress_certificate),
    {
        let mut out: Vec<String> = Vec::new();
        let mut i: usize = 0;
        while i < self.compress_certificate.len()
            invariant
                i <= self.compress_certificate@.len(),
                out@.len() == i,
                forall|j: int|
                    0 <= j < i ==> (#[trigger] out@[j])@ == self.compress_certificate@[j].text(),
            decreases self.compress_certificate@.len() - i,
        {
            out.push(self.compress_certificate[i].name().to_owned());
            i = i + 1;
        }
        assert(crate::text::texts(out@) =~= algorithm_names(self@.compress_certificate));
        out
    }

    /// The fingerprint as key and value pairs, sorted by key.
    pub fn to_btreemap(&self) -> (r: Vec<(&'static str, FpValue)>)
        ensures
            entries_view(r@) == self@.entries(),
    {
        let ech = match &self.ech {
            EchPolicy::Off => FpValue::Str("off".to_owned()),
            EchPolicy::Grease => FpValue::Str("grease".to_owned()),
            EchPolicy::Real(b) => FpValue::Bytes(vstd::slice::slice_to_vec(b.as_slice())),
        };
        let names = self.algorithm_name_list();
        let mut m: Vec<(&'static str, FpValue)> = Vec::new();
        m.push(("alpn", FpValue::StringVec(copy_strings(&self.alpn))));
        m.push(("alps", FpValue::StringVec(copy_strings(&self.alps))));
        m.push(("alps_use_new_codepoint", FpValue::Bool(self.alps_use_new_codepoint)));
        m.push(("cipher_suites", FpValue::U16Vec(copy_codes(&self.cipher_suites))));
        m.push(("compress_certificate", FpValue::StringVec(names)));
        m.push(("ech", ech));
        m.push(("extensions_order", FpValue::U16Vec(copy_codes(&self.extensions_order))));
        m.push(("grease", FpValue::Bool(self.grease)));
        m.push(("grease_sigalgs", FpValue::Bool(self.grease_sigalgs)));
        m.push(("key_shares", FpValue::U16Vec(copy_codes(&self.key_shares))));
        m.push(("padding", FpValue::OptUsize(self.padding)));
        m.push(("permute_extensions", FpValue::Bool(self.permute_extensions)));
        m.push(("record_size_limit", FpValue::OptU16(self.record_size_limit)));
        m.push(("signature_algorithms", FpValue::U16Vec(copy_codes(&self.signature_algorithms))));
        m.push(("supported_groups", FpValue::U16Vec(copy_codes(&self.supported_groups))));
        m.push(("trust_anchors", FpValue::OptBytes(copy_opt_bytes(&self.trust_anchors))));
        assert(entries_view(m@) =~= self@.entries());
        m
    }
}

/// Different fingerprints have different dictionary forms.
pub proof fn law_entries_lose_nothing(a: FingerprintModel, b: FingerprintModel)
    requires
        a.entries() == b.entries(),
    ensures
        a == b,
{
    let x = a.entries();
    let y = b.entries();
    assert(x[0] == y[0] && x[1] == y[1] && x[2] == y[2] && x[3] == y[3]);
    assert(x[4].1 == y[4].1 && x[5].1 == y[5].1 && x[6] == y[6] && x[7] == y[7]);
    assert(x[8] == y[8] && x[9] == y[9] && x[10] == y[10] && x[11] == y[11]);
    assert(x[12] == y[12] && x[13] == y[13] && x[14] == y[14] && x[15] == y[15]);
    assert(algorithm_names(a.compress_certificate) == algorithm_names(b.compress_certificate));
    assert(a.compress_certificate =~= b.compress_certificate) by {
        let n = algorithm_names(a.compress_certificate);
        assert(n.len() == a.compress_certificate.len() == b.compress_certificate.len());
        assert forall|i: int| 0 <= i < n.len() implies a.compress_certificate[i]
            == b.compress_certificate[i] by {
            assert(n[i] == a.compress_certificate[i].text());
            assert(algorithm_names(b.compress_certificate)[i] == b.compress_certificate[i].text());
            law_algorithms_distinct(a.compress_certificate[i], b.compress_certificate[i]);
        }
    }
    reveal_strlit("off");
    reveal_strlit("grease");
    assert("off"@.len() != "grease"@.len());
    assert(ech_value(a.ech) == ech_value(b.ech));
}

/// The position at which `a` stops being a prefix of `b`, where `a` comes
/// before `b` in the order of text.
pub open spec fn differ_at(a: Seq<char>, b: Seq<char>, k: int) -> bool {
    &&& 0 <= k <= a.len()
    &&& k < b.len()
    &&& forall|i: int| 0 <= i < k ==> a[i] == b[i]
    &&& k == a.len() || a[k] < b[k]
}

/// Whether `a` comes before `b` in the order of text.
pub open spec fn text_before(a: Seq<char>, b: Seq<char>) -> bool {
    exists|k: int| differ_at(a, b, k)
}

proof fn lemma_text_before_transitive(a: Seq<char>, b: Seq<char>, c: Seq<char>)
    requires
        text_before(a, b),
        text_before(b, c),
    ensures
        text_before(a, c),
{
    let k = choose|k: int| differ_at(a, b, k);
    let l = choose|l: int| differ_at(b, c, l);
    assert(differ_at(a, c, if k <= l { k } else { l }));
}

proof fn lemma_neighbours_sorted(fp: FingerprintModel, i: int)
    requires
        0 <= i < 15,
    ensures
        text_before(fp.entries()[i].0, fp.entries()[i + 1].0),
{
    let a = fp.entries()[i].0;
    let b = fp.entries()[i + 1].0;
    reveal_strlit("alpn");
    reveal_strlit("alps");
    reveal_strlit("alps_use_new_codepoint");
    reveal_strlit("cipher_suites");
    reveal_strlit("compress_certificate");
    reveal_strlit("ech");
    reveal_strlit("extensions_order");
    reveal_strlit("grease");
    reveal_strlit("grease_sigalgs");
    reveal_strlit("key_shares");
    reveal_strlit("padding");
    reveal_strlit("permute_extensions");
    reveal_strlit("record_size_limit");
    reveal_strlit("signature_algorithms");
    reveal_strlit("supported_groups");
    reveal_strlit("trust_anchors");
    let k: int = if i == 0 {
        3
    } else if i == 1 {
        4
    } else if i == 3 || i == 5 || i == 10 || i == 13 {
        1
    } else if i == 7 {
        6
    } else {
        0
    };
    assert(differ_at(a, b, k));
}

/// The keys of the dictionary form are in ascending order, so none occurs
/// twice.
pub proof fn law_entries_sorted(fp: FingerprintModel, i: int, j: int)
    requires
        0 <= i < j < fp.entries().len(),
    ensures
        text_before(fp.entries()[i].0, fp.entries()[j].0),
        fp.entries()[i].0 != fp.entries()[j].0,
    decreases j - i,
{
    lemma_neighbours_sorted(fp, j - 1);
    if i < j - 1 {
        law_entries_sorted(fp, i, j - 1);
        lemma_text_before_transitive(
            fp.entries()[i].0,
            fp.entries()[j - 1].0,
            fp.entries()[j].0,
        );
    }
    let k = choose|k: int| differ_at(fp.entries()[i].0, fp.entries()[j].0, k);
    assert(differ_at(fp.entries()[i].0, fp.entries()[j].0, k));
}

// --------------------------------------------------------------- builder

/// Builds a fingerprint field by field, starting from the defaults.
#[derive(Debug)]
pub struct FingerprintBuilder(Fingerprint);

impl View for FingerprintBuilder {
    type V = FingerprintModel;

    /// The fingerprint as it stands.
    closed spec fn view(&self) -> FingerprintModel {
        self.0@
    }
}

impl Default for FingerprintBuilder {
    fn default() -> (r: Self)
        ensures
            r@ == default_model(),
    {
        FingerprintBuilder(Fingerprint::default())
    }
}

impl Fingerprint {
    /// A builder that starts from the defaults.
    pub fn builder() -> (r: FingerprintBuilder)
        ensures
            r@ == default_model(),
    {
        FingerprintBuilder::default()
    }
}

impl FingerprintBuilder {
    /// Sets `cipher_suites` and nothing else.
    pub fn cipher_suites(self, v: Vec<u16>) -> (r: Self)
        ensures
            r@ == (FingerprintModel { cipher_suites: v@, ..self@ }),
    {
        let mut b = self;
        b.0.cipher_suites = v;
        b
    }

    /// Sets `extensions_order` and nothing else.
    pub fn extensions_order(self, v: Vec<u16>) -> (r: Self)
        ensures
            r@ == (FingerprintModel { extensions_order: v@, ..self@ }),
    {
        let mut b = self;
        b.0.extensions_order = v;
        b
    }

    /// Sets `permute_extensions` and nothing else.
    pub fn permute_extensions(self, v: bool) -> (r: Self)
        ensures
            r@ == (FingerprintModel { permute_extensions: v, ..self@ }),
    {
        let mut b = self;
        b.0.permute_extensions = v;
        b
    }

    /// Sets `supported_groups` and nothing else.
    pub fn supported_groups(self, v: Vec<u16>) -> (r: Self)
        ensures
            r@ == (FingerprintModel { supported_groups: v@, ..self@ }),
    {
        let mut b = self;
        b.0.supported_groups = v;
        b
    }

    /// Sets `key_shares` and nothing else.
    pub fn key_shares(self, v: Vec<u16>) -> (r: Self)
        ensures
            r@ == (FingerprintModel { key_shares: v@, ..self@ }),
    {
        let mut b = self;
        b.0.key_shares = v;
        b
    }

    /// Sets `signature_algorithms` and nothing else.
    pub fn signature_algorithms(self, v: Vec<u16>) -> (r: Self)
        ensures
            r@ == (FingerprintModel { signature_algorithms: v@, ..self@ }),
    {
        let mut b = self;
        b.0.signature_algorithms = v;
        b
    }

    /// Sets `alpn` and nothing else.
    pub fn alpn(self, v: Vec<String>) -> (r: Self)
        ensures
            r@ == (FingerprintModel { alpn: crate::text::texts(v@), ..self@ }),
    {
        let mut b = self;
        b.0.alpn = v;
        b
    }

    /// Sets `alps` and nothing else.
    pub fn alps(self, v: Vec<String>) -> (r: Self)
        ensures
            r@ == (FingerprintModel { alps: crate::text::texts(v@), ..self@ }),
    {
        let mut b = self;
        b.0.alps = v;
        b
    }

    /// Sets `alps_use_new_codepoint` and nothing else.
    pub fn alps_use_new_codepoint(self, v: bool) -> (r: Self)
        ensures
            r@ == (FingerprintModel { alps_use_new_codepoint: v, ..self@ }),
    {
        let mut b = self;
        b.0.alps_use_new_codepoint = v;
        b
    }

    /// Sets `compress_certificate` and nothing else.
    pub fn compress_certificate(self, v: Vec<CertCompressAlg>) -> (r: Self)
        ensures
            r@ == (FingerprintModel { compress_certificate: v@, ..self@ }),
    {
        let mut b = self;
        b.0.compress_certificate = v;
        b
    }

    /// Sets `record_size_limit` and nothing else.
    pub fn record_size_limit(self, v: Option<u16>) -> (r: Self)
        ensures
            r@ == (FingerprintModel { record_size_limit: v, ..self@ }),
    {
        let mut b = self;
        b.0.record_size_limit = v;
        b
    }

    /// Sets `grease` and nothing else.
    pub fn grease(self, v: bool) -> (r: Self)
        ensures
            r@ == (FingerprintModel { grease: v, ..self@ }),
    {
        let mut b = self;
        b.0.grease = v;
        b
    }

    /// Sets `grease_sigalgs` and nothing else.
    pub fn grease_sigalgs(self, v: bool) -> (r: Self)
        ensures
            r@ == (FingerprintModel { grease_sigalgs: v, ..self@ }),
    {
        let mut b = self;
        b.0.grease_sigalgs = v;
        b
    }

    /// Sets `ech` and nothing else.
    pub fn ech(self, v: EchPolicy) -> (r: Self)
        ensures
            r@ == (FingerprintModel { ech: v@, ..self@ }),
    {
        let mut b = self;
        b.0.ech = v;
        b
    }

    /// Sets `padding` and nothing else.
    pub fn padding(self, v: Option<usize>) -> (r: Self)
        ensures
            r@ == (FingerprintModel { padding: v, ..self@ }),
    {
        let mut b = self;
        b.0.padding = v;
        b
    }

    /// Sets `trust_anchors` and nothing else.
    pub fn trust_anchors(self, v: Option<Vec<u8>>) -> (r: Self)
        ensures
            r@ == (FingerprintModel { trust_anchors: opt_bytes(v), ..self@ }),
    {
        let mut b = self;
        b.0.trust_anchors = v;
        b
    }

    /// The fingerprint.
    pub fn build(self) -> (r: Fingerprint)
        ensures
            r@ == self@,
    {
        self.0
    }
}

/// The trust-anchor lists that are accepted are exactly the concatenations of
/// IDs of 1 to 255 bytes, each behind its length.
pub proof fn law_valid_ids_are_encodings(bytes: Seq<u8>)
    ensures
        valid_trust_anchor_ids(bytes) <==> exists|items: Seq<Seq<u8>>|
            crate::lists::proper(items) && bytes == #[trigger] crate::lists::encoded(items),
{
    if valid_trust_anchor_ids(bytes) {
        crate::lists::law_encoded_of_split(bytes);
        assert(bytes == crate::lists::encoded(crate::lists::leading_items(bytes)));
    }
    if exists|items: Seq<Seq<u8>>|
        crate::lists::proper(items) && bytes == #[trigger] crate::lists::encoded(items) {
        let items = choose|items: Seq<Seq<u8>>|
            crate::lists::proper(items) && bytes == #[trigger] crate::lists::encoded(items);
        crate::lists::law_split_of_encoded(items);
    }
}

} // verus!
