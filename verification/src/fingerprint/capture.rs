//! Reading a fingerprint out of a captured ClientHello record.

use crate::error::Error;
use crate::fingerprint::spec::{
    validate_trust_anchor_ids, CertCompressAlg, EchModel, EchPolicy, Fingerprint, FingerprintModel,
    GREASE_EXTENSION, TRUST_ANCHORS_EXTENSION,
};
use vstd::prelude::*;

verus! {

/// The type of a record that carries handshake messages.
pub const TLS_HANDSHAKE_RECORD: u8 = 0x16;

/// The type of a ClientHello among handshake messages.
pub const HANDSHAKE_CLIENT_HELLO: u8 = 0x01;

// ---------------------------------------------------------------- GREASE

/// Whether `v` is a GREASE value: both bytes are equal, and the low half of
/// each is ten.
pub open spec fn grease_value(v: u16) -> bool {
    v / 256 == v % 256 && v % 16 == 10
}

/// Whether `v` is a GREASE value.
pub fn is_grease(v: u16) -> (b: bool)
    ensures
        b == grease_value(v),
{
    v / 256 == v % 256 && v % 16 == 10
}

/// The `k`th GREASE value, counted from zero.
pub open spec fn nth_grease(k: int) -> int {
    0x0A0A + k * 0x1010
}

/// The GREASE values are the sixteen values from 0x0A0A in steps of 0x1010,
/// and the placeholder for a GREASE extension is none of them.
pub proof fn law_grease_values(v: u16)
    ensures
        grease_value(v) <==> exists|k: int| 0 <= k < 16 && v == #[trigger] nth_grease(k),
        !grease_value(GREASE_EXTENSION),
{
    if grease_value(v) {
        let k = ((v / 256) / 16) as int;
        assert(v == nth_grease(k));
    }
    if exists|k: int| 0 <= k < 16 && v == #[trigger] nth_grease(k) {
        let k = choose|k: int| 0 <= k < 16 && v == #[trigger] nth_grease(k);
        assert(v / 256 == 10 + 16 * k);
        assert(v % 256 == 10 + 16 * k);
    }
}

// ---------------------------------------------------------- byte reading

/// The number written in two bytes, the higher one first.
pub open spec fn be16(hi: u8, lo: u8) -> u16 {
    (hi * 256 + lo) as u16
}

/// The number written in three bytes, the highest one first.
pub open spec fn be24(hi: u8, mid: u8, lo: u8) -> u32 {
    (hi * 65536 + mid * 256 + lo) as u32
}

/// What is said of input that ends `have` bytes after a point where `need`
/// bytes for `label` have to follow.
pub open spec fn truncated(need: nat, label: Seq<char>, have: nat) -> Seq<char> {
    "truncated ClientHello: need "@ + crate::text::decimal(need) + " more bytes for "@ + label
        + ", have "@ + crate::text::decimal(have)
}

/// The first `n` bytes of `s` and the rest, or what is said where there are
/// fewer.
pub open spec fn take(s: Seq<u8>, n: nat, label: Seq<char>) -> Result<
    (Seq<u8>, Seq<u8>),
    Seq<char>,
> {
    if s.len() < n {
        Err(truncated(n, label, s.len()))
    } else {
        Ok((s.take(n as int), s.skip(n as int)))
    }
}

/// A number of one byte at the front of `s`, and the rest.
pub open spec fn take_u8(s: Seq<u8>, label: Seq<char>) -> Result<(u8, Seq<u8>), Seq<char>> {
    if s.len() < 1 {
        Err(truncated(1, label, s.len()))
    } else {
        Ok((s[0], s.skip(1)))
    }
}

/// A number of two bytes at the front of `s`, and the rest.
pub open spec fn take_u16(s: Seq<u8>, label: Seq<char>) -> Result<(u16, Seq<u8>), Seq<char>> {
    if s.len() < 2 {
        Err(truncated(2, label, s.len()))
    } else {
        Ok((be16(s[0], s[1]), s.skip(2)))
    }
}

/// A number of three bytes at the front of `s`, and the rest.
pub open spec fn take_u24(s: Seq<u8>, label: Seq<char>) -> Result<(u32, Seq<u8>), Seq<char>> {
    if s.len() < 3 {
        Err(truncated(3, label, s.len()))
    } else {
        Ok((be24(s[0], s[1], s[2]), s.skip(3)))
    }
}

/// A reader that never goes past the end of its bytes.
pub struct Reader<'a> {
    buf: &'a [u8],
    pos: usize,
}

impl<'a> View for Reader<'a> {
    type V = Seq<u8>;

    /// The bytes that are still to be read.
    closed spec fn view(&self) -> Seq<u8> {
        self.buf@.skip(self.pos as int)
    }
}

/// The error for input that ends too early.
fn truncation(need: usize, label: &str, have: usize) -> (e: Error)
    ensures
        e.is_usage(truncated(need as nat, label@, have as nat)),
{
    let mut text = String::new();
    text.append("truncated ClientHello: need ");
    crate::text::append_decimal(&mut text, need);
    text.append(" more bytes for ");
    text.append(label);
    text.append(", have ");
    crate::text::append_decimal(&mut text, have);
    assert(text@ =~= truncated(need as nat, label@, have as nat));
    Error::Usage(text)
}

impl<'a> Reader<'a> {
    #[verifier::type_invariant]
    closed spec fn in_bounds(self) -> bool {
        self.pos <= self.buf@.len()
    }

    /// A reader of all of `buf`.
    pub fn new(buf: &'a [u8]) -> (r: Self)
        ensures
            r@ == buf@,
    {
        let r = Reader { buf, pos: 0 };
        assert(r@ =~= buf@);
        r
    }

    /// How many bytes are still to be read.
    pub fn remaining(&self) -> (n: usize)
        ensures
            n == self@.len(),
    {
        proof {
            use_type_invariant(self);
        }
        self.buf.len() - self.pos
    }

    /// The next `n` bytes.
    pub fn take(&mut self, n: usize, label: &str) -> (r: Result<&'a [u8], Error>)
        ensures
            match take(old(self)@, n as nat, label@) {
                Ok((b, rest)) => r matches Ok(s) && s@ == b && final(self)@ == rest,
                Err(t) => r matches Err(e) && e.is_usage(t) && final(self)@ == old(self)@,
            },
    {
        proof {
            use_type_invariant(&*self);
        }
        let have: usize = self.remaining();
        if have < n {
            return Err(truncation(n, label, have));
        }
        let ghost before = self@;
        assert(self.pos + n <= self.buf.len());
        let s = vstd::slice::slice_subrange(self.buf, self.pos, self.pos + n);
        self.pos = self.pos + n;
        assert(s@ =~= before.take(n as int));
        assert(self@ =~= before.skip(n as int));
        Ok(s)
    }

    /// The next byte.
    pub fn u8(&mut self, label: &str) -> (r: Result<u8, Error>)
        ensures
            match take_u8(old(self)@, label@) {
                Ok((v, rest)) => r == Ok::<u8, Error>(v) && final(self)@ == rest,
                Err(t) => r matches Err(e) && e.is_usage(t) && final(self)@ == old(self)@,
            },
    {
        let b = self.take(1, label)?;
        Ok(b[0])
    }

    /// The next two bytes as a number.
    pub fn u16(&mut self, label: &str) -> (r: Result<u16, Error>)
        ensures
            match take_u16(old(self)@, label@) {
                Ok((v, rest)) => r == Ok::<u16, Error>(v) && final(self)@ == rest,
                Err(t) => r matches Err(e) && e.is_usage(t) && final(self)@ == old(self)@,
            },
    {
        let b = self.take(2, label)?;
        Ok(number16(b[0], b[1]))
    }

    /// The next three bytes as a number.
    pub fn u24(&mut self, label: &str) -> (r: Result<u32, Error>)
        ensures
            match take_u24(old(self)@, label@) {
                Ok((v, rest)) => r == Ok::<u32, Error>(v) && final(self)@ == rest,
                Err(t) => r matches Err(e) && e.is_usage(t) && final(self)@ == old(self)@,
            },
    {
        let b = self.take(3, label)?;
        Ok((b[0] as u32) * 65536 + (b[1] as u32) * 256 + (b[2] as u32))
    }
}

/// The number written in two bytes, the higher one first.
fn number16(hi: u8, lo: u8) -> (v: u16)
    ensures
        v == be16(hi, lo),
{
    (hi as u16) * 256 + (lo as u16)
}

// ------------------------------------------------- lists in extensions

/// The numbers written in `b`, two bytes each.
pub open spec fn codes(b: Seq<u8>) -> Seq<u16> {
    Seq::new((b.len() / 2) as nat, |i: int| be16(b[2 * i], b[2 * i + 1]))
}

/// The codepoints of `c` that are no GREASE values, in order.
pub open spec fn plain(c: Seq<u16>) -> Seq<u16> {
    c.filter(|v: u16| !grease_value(v))
}

/// Whether a GREASE value is among `c`.
pub open spec fn has_grease(c: Seq<u16>) -> bool {
    exists|i: int| 0 <= i < c.len() && grease_value(#[trigger] c[i])
}

/// The algorithms that the codepoints of `c` stand for; others are left out.
pub open spec fn algorithms(c: Seq<u16>) -> Seq<CertCompressAlg> {
    c.filter_map(|v: u16| CertCompressAlg::of_wire_code(v))
}

/// The numbers written in `b`.
fn read_codes(b: &[u8]) -> (r: Vec<u16>)
    ensures
        r@ == codes(b@),
{
    let mut out: Vec<u16> = Vec::new();
    let mut i: usize = 0;
    let n: usize = b.len() / 2;
    while i < n
        invariant
            i <= n,
            n == b@.len() / 2,
            out@ == codes(b@).take(i as int),
        decreases n - i,
    {
        assert(2 * i + 1 < b.len());
        out.push(number16(b[2 * i], b[2 * i + 1]));
        i = i + 1;
        assert(out@ =~= codes(b@).take(i as int));
    }
    assert(codes(b@).take(i as int) =~= codes(b@));
    out
}

/// The codepoints of `c` that are no GREASE values, and whether there were
/// any others.
fn without_grease(c: &Vec<u16>) -> (r: (Vec<u16>, bool))
    ensures
        r.0@ == plain(c@),
        r.1 == has_grease(c@),
{
    let mut out: Vec<u16> = Vec::new();
    let mut seen = false;
    let mut i: usize = 0;
    assert(plain(c@.take(0)) =~= seq![]) by {
        reveal(Seq::filter);
    }
    while i < c.len()
        invariant
            i <= c.len(),
            out@ == plain(c@.take(i as int)),
            seen == has_grease(c@.take(i as int)),
        decreases c.len() - i,
    {
        let v: u16 = c[i];
        proof {
            reveal(Seq::filter);
            assert(c@.take(i + 1).drop_last() =~= c@.take(i as int));
            assert(c@.take(i + 1)[i as int] == v);
            assert forall|j: int| 0 <= j < i implies c@.take(i as int)[j] == #[trigger] c@.take(
                i + 1,
            )[j] by {}
            if seen {
                let j = choose|j: int|
                    0 <= j < c@.take(i as int).len() && grease_value(
                        #[trigger] c@.take(i as int)[j],
                    );
                assert(grease_value(c@.take(i + 1)[j]));
            }
        }
        if is_grease(v) {
            seen = true;
        } else {
            out.push(v);
        }
        i = i + 1;
    }
    assert(c@.take(i as int) =~= c@);
    (out, seen)
}

/// The algorithms that the codepoints of `c` stand for.
fn read_algorithms(c: &Vec<u16>) -> (r: Vec<CertCompressAlg>)
    ensures
        r@ == algorithms(c@),
{
    let mut out: Vec<CertCompressAlg> = Vec::new();
    let mut i: usize = 0;
    assert(algorithms(c@.take(0)) =~= seq![]) by {
        reveal(Seq::filter_map);
    }
    while i < c.len()
        invariant
            i <= c.len(),
            out@ == algorithms(c@.take(i as int)),
        decreases c.len() - i,
    {
        proof {
            reveal(Seq::filter_map);
            assert(c@.take(i + 1).drop_last() =~= c@.take(i as int));
        }
        match CertCompressAlg::from_codepoint(c[i]) {
            Some(alg) => {
                out.push(alg);
            },
            None => {},
        }
        i = i + 1;
    }
    assert(c@.take(i as int) =~= c@);
    out
}

/// The bytes behind a length of two bytes; what follows them is left alone.
pub open spec fn block16(
    s: Seq<u8>,
    len_label: Seq<char>,
    label: Seq<char>,
) -> Result<Seq<u8>, Seq<char>> {
    match take_u16(s, len_label) {
        Err(t) => Err(t),
        Ok((n, rest)) => match take(rest, n as nat, label) {
            Err(t) => Err(t),
            Ok((b, _)) => Ok(b),
        },
    }
}

/// The items of a list in which each is preceded by its length in one byte.
pub open spec fn names(b: Seq<u8>, len_label: Seq<char>, label: Seq<char>) -> Result<
    Seq<Seq<u8>>,
    Seq<char>,
>
    decreases b.len(),
{
    if b.len() == 0 {
        Ok(seq![])
    } else {
        match take_u8(b, len_label) {
            Err(t) => Err(t),
            Ok((n, rest)) => match take(rest, n as nat, label) {
                Err(t) => Err(t),
                Ok((item, rest2)) => match names(rest2, len_label, label) {
                    Err(t) => Err(t),
                    Ok(items) => Ok(seq![item] + items),
                },
            },
        }
    }
}

/// The text of each item.
pub open spec fn lossy_all(items: Seq<Seq<u8>>) -> Seq<Seq<char>> {
    items.map_values(|b: Seq<u8>| crate::text::lossy(b))
}

/// The groups of a list of key shares: each is a group, the length of its key
/// in two bytes, and the key.
pub open spec fn share_groups(b: Seq<u8>) -> Result<Seq<u16>, Seq<char>>
    decreases b.len(),
{
    if b.len() == 0 {
        Ok(seq![])
    } else {
        match take_u16(b, "key_share group"@) {
            Err(t) => Err(t),
            Ok((group, r1)) => match take_u16(r1, "key_share length"@) {
                Err(t) => Err(t),
                Ok((n, r2)) => match take(r2, n as nat, "key_share key"@) {
                    Err(t) => Err(t),
                    Ok((_, r3)) => match share_groups(r3) {
                        Err(t) => Err(t),
                        Ok(groups) => Ok(seq![group] + groups),
                    },
                },
            },
        }
    }
}

/// Reads the bytes behind a length of two bytes.
fn read_block16<'a>(r: &mut Reader<'a>, len_label: &str, label: &str) -> (res: Result<
    &'a [u8],
    Error,
>)
    ensures
        match block16(old(r)@, len_label@, label@) {
            Ok(b) => res matches Ok(s) && s@ == b,
            Err(t) => res matches Err(e) && e.is_usage(t),
        },
{
    let n: u16 = r.u16(len_label)?;
    r.take(n as usize, label)
}

/// The text of each item of a list in which each is preceded by its length.
fn read_names(b: &[u8], len_label: &str, label: &str) -> (res: Result<Vec<String>, Error>)
    ensures
        match names(b@, len_label@, label@) {
            Ok(items) => res matches Ok(v) && crate::text::texts(v@) == lossy_all(items),
            Err(t) => res matches Err(e) && e.is_usage(t),
        },
{
    let mut r = Reader::new(b);
    let mut out: Vec<String> = Vec::new();
    while r.remaining() > 0
        invariant
            match names(r@, len_label@, label@) {
                Ok(items) => names(b@, len_label@, label@) matches Ok(all)
                    && crate::text::texts(out@) + lossy_all(items) =~= lossy_all(all),
                Err(t) => names(b@, len_label@, label@) == Err::<Seq<Seq<u8>>, Seq<char>>(t),
            },
        decreases r@.len(),
    {
        let n: u8 = r.u8(len_label)?;
        let item = r.take(n as usize, label)?;
        out.push(crate::text::decode_lossy(item));
    }
    assert(lossy_all(seq![]) =~= seq![]);
    Ok(out)
}

/// The groups of a list of key shares.
fn read_share_groups(b: &[u8]) -> (res: Result<Vec<u16>, Error>)
    ensures
        match share_groups(b@) {
            Ok(groups) => res matches Ok(v) && v@ == groups,
            Err(t) => res matches Err(e) && e.is_usage(t),
        },
{
    let mut r = Reader::new(b);
    let mut out: Vec<u16> = Vec::new();
    while r.remaining() > 0
        invariant
            match share_groups(r@) {
                Ok(groups) => share_groups(b@) matches Ok(all) && out@ + groups =~= all,
                Err(t) => share_groups(b@) == Err::<Seq<u16>, Seq<char>>(t),
            },
        decreases r@.len(),
    {
        let group: u16 = r.u16("key_share group")?;
        let n: u16 = r.u16("key_share length")?;
        let _ = r.take(n as usize, "key_share key")?;
        out.push(group);
    }
    Ok(out)
}

// ------------------------------------------------------------ extensions

/// The groups of a `supported_groups` extension, without GREASE values. The
/// list is of two-byte numbers, so its length is even.
pub open spec fn supported_groups_in(body: Seq<u8>) -> Result<Seq<u16>, Seq<char>> {
    match block16(body, "supported_groups length"@, "supported_groups"@) {
        Err(t) => Err(t),
        Ok(b) => if b.len() % 2 != 0 {
            Err("supported_groups length is not even"@)
        } else {
            Ok(plain(codes(b)))
        },
    }
}

/// The schemes of a `signature_algorithms` extension, GREASE values kept. The
/// list fills the extension and is not empty.
pub open spec fn signature_algorithms_in(body: Seq<u8>) -> Result<Seq<u16>, Seq<char>> {
    match take_u16(body, "signature_algorithms length"@) {
        Err(t) => Err(t),
        Ok((n, rest)) => if n == 0 || n % 2 != 0 || n != rest.len() {
            Err("invalid signature_algorithms length"@)
        } else {
            Ok(codes(rest))
        },
    }
}

/// The protocols of an ALPN extension.
pub open spec fn alpn_in(body: Seq<u8>) -> Result<Seq<Seq<char>>, Seq<char>> {
    match block16(body, "alpn length"@, "alpn list"@) {
        Err(t) => Err(t),
        Ok(b) => match names(b, "alpn proto length"@, "alpn proto"@) {
            Err(t) => Err(t),
            Ok(items) => Ok(lossy_all(items)),
        },
    }
}

/// The protocols of an `application_settings` extension.
pub open spec fn alps_in(body: Seq<u8>) -> Result<Seq<Seq<char>>, Seq<char>> {
    match block16(body, "alps length"@, "alps list"@) {
        Err(t) => Err(t),
        Ok(b) => match names(b, "alps proto length"@, "alps proto"@) {
            Err(t) => Err(t),
            Ok(items) => Ok(lossy_all(items)),
        },
    }
}

/// The groups of a `key_share` extension, without GREASE values.
pub open spec fn key_shares_in(body: Seq<u8>) -> Result<Seq<u16>, Seq<char>> {
    match block16(body, "key_share list length"@, "key_share list"@) {
        Err(t) => Err(t),
        Ok(b) => match share_groups(b) {
            Err(t) => Err(t),
            Ok(groups) => Ok(plain(groups)),
        },
    }
}

/// The known algorithms of a `compress_certificate` extension. The list is of
/// two-byte numbers, so its length is even.
pub open spec fn algorithms_in(body: Seq<u8>) -> Result<Seq<CertCompressAlg>, Seq<char>> {
    match take_u8(body, "compress_certificate count"@) {
        Err(t) => Err(t),
        Ok((n, rest)) => match take(rest, n as nat, "compress_certificate algs"@) {
            Err(t) => Err(t),
            Ok((b, _)) => if b.len() % 2 != 0 {
                Err("compress_certificate length is not even"@)
            } else {
                Ok(algorithms(codes(b)))
            },
        },
    }
}

/// The IDs of a `trust_anchors` extension, which they fill.
pub open spec fn trust_anchors_in(body: Seq<u8>) -> Result<Seq<u8>, Seq<char>> {
    match take_u16(body, "trust_anchors length"@) {
        Err(t) => Err(t),
        Ok((n, rest)) => match take(rest, n as nat, "trust_anchors list"@) {
            Err(t) => Err(t),
            Ok((ids, left)) => if left.len() != 0 {
                Err("trailing bytes in trust_anchors extension"@)
            } else if !crate::fingerprint::spec::valid_trust_anchor_ids(ids) {
                Err(crate::fingerprint::spec::trust_anchor_fault())
            } else {
                Ok(ids)
            },
        },
    }
}

/// `fp` with what the extension of the given codepoint and contents adds to
/// it. An extension that a fingerprint does not describe adds nothing.
#[verifier::opaque]
pub open spec fn extension(
    kind: u16,
    body: Seq<u8>,
    fp: FingerprintModel,
) -> Result<FingerprintModel, Seq<char>> {
    if kind == 10 {
        match supported_groups_in(body) {
            Err(t) => Err(t),
            Ok(g) => Ok(
                FingerprintModel {
                    supported_groups: fp.supported_groups + g,
                    ..fp
                },
            ),
        }
    } else if kind == 13 {
        match signature_algorithms_in(body) {
            Err(t) => Err(t),
            Ok(c) => Ok(
                FingerprintModel {
                    signature_algorithms: fp.signature_algorithms + plain(c),
                    grease_sigalgs: fp.grease_sigalgs || has_grease(c),
                    ..fp
                },
            ),
        }
    } else if kind == 16 {
        match alpn_in(body) {
            Err(t) => Err(t),
            Ok(n) => Ok(
                FingerprintModel { alpn: fp.alpn + n, ..fp },
            ),
        }
    } else if kind == 51 {
        match key_shares_in(body) {
            Err(t) => Err(t),
            Ok(g) => Ok(
                FingerprintModel { key_shares: fp.key_shares + g, ..fp },
            ),
        }
    } else if kind == 27 {
        match algorithms_in(body) {
            Err(t) => Err(t),
            Ok(a) => Ok(
                FingerprintModel {
                    compress_certificate: fp.compress_certificate + a,
                    ..fp
                },
            ),
        }
    } else if kind == 17513 || kind == 17613 {
        match alps_in(body) {
            Err(t) => Err(t),
            Ok(n) => Ok(
                FingerprintModel {
                    alps: fp.alps + n,
                    alps_use_new_codepoint: kind == 17613,
                    ..fp
                },
            ),
        }
    } else if kind == 28 {
        match take_u16(body, "record_size_limit"@) {
            Err(t) => Err(t),
            Ok((v, _)) => Ok(
                FingerprintModel { record_size_limit: Some(v), ..fp },
            ),
        }
    } else if kind == 65037 {
        Ok(
            FingerprintModel {
                ech: EchModel::Grease,
                ..fp
            },
        )
    } else if kind == 21 {
        Ok(
            FingerprintModel {
                padding: Some(body.len() as usize),
                ..fp
            },
        )
    } else if kind == TRUST_ANCHORS_EXTENSION {
        match trust_anchors_in(body) {
            Err(t) => Err(t),
            Ok(ids) => Ok(
                FingerprintModel { trust_anchors: Some(ids), ..fp },
            ),
        }
    } else {
        Ok(fp)
    }
}

/// Adds to `fp` what an extension says. Where it is malformed, `fp` is left
/// as it was.
pub fn parse_extension(kind: u16, body: &[u8], fp: &mut Fingerprint) -> (r: Result<(), Error>)
    ensures
        match extension(kind, body@, old(fp)@) {
            Ok(m) => r is Ok && final(fp)@ == m,
            Err(t) => r matches Err(e) && e.is_usage(t) && final(fp)@ == old(fp)@,
        },
{
    reveal(extension);
    let mut r = Reader::new(body);
    match kind {
        10 => {
            let b = read_block16(&mut r, "supported_groups length", "supported_groups")?;
            if b.len() % 2 != 0 {
                return Err(crate::error::usage("supported_groups length is not even"));
            }
            let (mut groups, _) = without_grease(&read_codes(b));
            fp.supported_groups.append(&mut groups);
        },
        13 => {
            let n: usize = r.u16("signature_algorithms length")? as usize;
            if n == 0 || n % 2 != 0 || n != r.remaining() {
                return Err(crate::error::usage("invalid signature_algorithms length"));
            }
            let ghost rest = r@;
            let b = r.take(n, "signature_algorithms")?;
            assert(b@ =~= rest);
            let (mut schemes, grease) = without_grease(&read_codes(b));
            fp.signature_algorithms.append(&mut schemes);
            if grease {
                fp.grease_sigalgs = true;
            }
        },
        16 => {
            let b = read_block16(&mut r, "alpn length", "alpn list")?;
            let mut protocols = read_names(b, "alpn proto length", "alpn proto")?;
            fp.alpn.append(&mut protocols);
            assert(fp@.alpn =~= extension(kind, body@, old(fp)@)->Ok_0.alpn);
        },
        51 => {
            let b = read_block16(&mut r, "key_share list length", "key_share list")?;
            let groups = read_share_groups(b)?;
            let (mut plain_groups, _) = without_grease(&groups);
            fp.key_shares.append(&mut plain_groups);
        },
        27 => {
            let n: usize = r.u8("compress_certificate count")? as usize;
            let b = r.take(n, "compress_certificate algs")?;
            if b.len() % 2 != 0 {
                return Err(crate::error::usage("compress_certificate length is not even"));
            }
            let mut algs = read_algorithms(&read_codes(b));
            fp.compress_certificate.append(&mut algs);
        },
        17513 | 17613 => {
            let b = read_block16(&mut r, "alps length", "alps list")?;
            let mut protocols = read_names(b, "alps proto length", "alps proto")?;
            fp.alps.append(&mut protocols);
            fp.alps_use_new_codepoint = kind == 17613;
            assert(fp@.alps =~= extension(kind, body@, old(fp)@)->Ok_0.alps);
        },
        28 => {
            fp.record_size_limit = Some(r.u16("record_size_limit")?);
        },
        65037 => {
            fp.ech = EchPolicy::Grease;
        },
        21 => {
            fp.padding = Some(body.len());
        },
        _ => {
            if kind == TRUST_ANCHORS_EXTENSION {
                let n: usize = r.u16("trust_anchors length")? as usize;
                let ids = r.take(n, "trust_anchors list")?;
                if r.remaining() != 0 {
                    return Err(crate::error::usage("trailing bytes in trust_anchors extension"));
                }
                validate_trust_anchor_ids(ids)?;
                fp.trust_anchors = Some(vstd::slice::slice_to_vec(ids));
            }
        },
    }
    Ok(())
}

/// `fp` with one more extension, in its place in the order.
pub open spec fn with_extension(kind: u16, body: Seq<u8>, fp: FingerprintModel) -> Result<
    FingerprintModel,
    Seq<char>,
> {
    if grease_value(kind) {
        Ok(
            FingerprintModel {
                extensions_order: fp.extensions_order.push(GREASE_EXTENSION),
                grease: true,
                ..fp
            },
        )
    } else {
        extension(
            kind,
            body,
            FingerprintModel { extensions_order: fp.extensions_order.push(kind), ..fp },
        )
    }
}

/// `fp` with the extensions of a block, one after the other: each is its
/// codepoint, the length of its contents in two bytes, and its contents.
pub open spec fn with_extensions(block: Seq<u8>, fp: FingerprintModel) -> Result<
    FingerprintModel,
    Seq<char>,
>
    decreases block.len(),
{
    if block.len() == 0 {
        Ok(fp)
    } else {
        match take_u16(block, "extension type"@) {
            Err(t) => Err(t),
            Ok((kind, r1)) => match take_u16(r1, "extension length"@) {
                Err(t) => Err(t),
                Ok((n, r2)) => match take(r2, n as nat, "extension body"@) {
                    Err(t) => Err(t),
                    Ok((body, r3)) => match with_extension(kind, body, fp) {
                        Err(t) => Err(t),
                        Ok(next) => with_extensions(r3, next),
                    },
                },
            },
        }
    }
}

/// Adds the extensions of a block to `fp`.
fn read_extensions(block: &[u8], fp: &mut Fingerprint) -> (r: Result<(), Error>)
    ensures
        match with_extensions(block@, old(fp)@) {
            Ok(m) => r is Ok && final(fp)@ == m,
            Err(t) => r matches Err(e) && e.is_usage(t),
        },
{
    let mut er = Reader::new(block);
    while er.remaining() > 0
        invariant
            with_extensions(er@, fp@) == with_extensions(block@, old(fp)@),
        decreases er@.len(),
    {
        let kind: u16 = er.u16("extension type")?;
        let n: u16 = er.u16("extension length")?;
        let body = er.take(n as usize, "extension body")?;
        if is_grease(kind) {
            fp.extensions_order.push(GREASE_EXTENSION);
            fp.grease = true;
        } else {
            fp.extensions_order.push(kind);
            parse_extension(kind, body, fp)?;
        }
    }
    Ok(())
}

// ----------------------------------------------------------- ClientHello

/// Bytes behind a length of one byte, and the rest.
pub open spec fn vector8(s: Seq<u8>, len_label: Seq<char>, label: Seq<char>) -> Result<
    (Seq<u8>, Seq<u8>),
    Seq<char>,
> {
    match take_u8(s, len_label) {
        Err(t) => Err(t),
        Ok((n, rest)) => take(rest, n as nat, label),
    }
}

/// Bytes behind a length of two bytes, and the rest.
pub open spec fn vector16(s: Seq<u8>, len_label: Seq<char>, label: Seq<char>) -> Result<
    (Seq<u8>, Seq<u8>),
    Seq<char>,
> {
    match take_u16(s, len_label) {
        Err(t) => Err(t),
        Ok((n, rest)) => take(rest, n as nat, label),
    }
}

/// The fingerprint of a ClientHello that has these cipher suites and no
/// extensions.
pub open spec fn bare(suites: Seq<u16>) -> FingerprintModel {
    FingerprintModel {
        cipher_suites: plain(suites),
        grease: false,
        ..crate::fingerprint::spec::default_model()
    }
}

/// What follows the cipher suites: compression methods, and extensions unless
/// the ClientHello ends before them.
pub open spec fn hello_tail(s: Seq<u8>, suites: Seq<u16>) -> Result<FingerprintModel, Seq<char>> {
    match vector8(s, "compression_methods length"@, "compression_methods"@) {
        Err(t) => Err(t),
        Ok((_, rest)) => if rest.len() == 0 {
            Ok(bare(suites))
        } else {
            match vector16(rest, "extensions length"@, "extensions block"@) {
                Err(t) => Err(t),
                Ok((block, _)) => with_extensions(block, bare(suites)),
            }
        },
    }
}

/// The fingerprint in the body of a ClientHello message.
#[verifier::opaque]
pub open spec fn hello(s: Seq<u8>) -> Result<FingerprintModel, Seq<char>> {
    match take_u16(s, "client_version"@) {
        Err(t) => Err(t),
        Ok((_, r1)) => match take(r1, 32, "random"@) {
            Err(t) => Err(t),
            Ok((_, r2)) => match vector8(r2, "session_id length"@, "session_id"@) {
                Err(t) => Err(t),
                Ok((_, r3)) => match vector16(r3, "cipher_suites length"@, "cipher_suites"@) {
                    Err(t) => Err(t),
                    Ok((suites, r4)) => if suites.len() % 2 != 0 {
                        Err("cipher_suites length is not even"@)
                    } else {
                        hello_tail(r4, codes(suites))
                    },
                },
            },
        },
    }
}

/// The fingerprint in a handshake message, which has to be a ClientHello.
pub open spec fn handshake(s: Seq<u8>) -> Result<FingerprintModel, Seq<char>> {
    match take_u8(s, "handshake type"@) {
        Err(t) => Err(t),
        Ok((kind, r1)) => if kind != HANDSHAKE_CLIENT_HELLO {
            Err("expected ClientHello (0x01), got 0x"@ + crate::text::hex_pair(kind))
        } else {
            match take_u24(r1, "handshake length"@) {
                Err(t) => Err(t),
                Ok((n, r2)) => match take(r2, n as nat, "handshake body"@) {
                    Err(t) => Err(t),
                    Ok((body, _)) => hello(body),
                },
            }
        },
    }
}

/// The fingerprint in a TLS record, which has to be a handshake record with a
/// complete ClientHello.
pub open spec fn client_hello(raw: Seq<u8>) -> Result<FingerprintModel, Seq<char>> {
    match take_u8(raw, "record type"@) {
        Err(t) => Err(t),
        Ok((kind, r1)) => if kind != TLS_HANDSHAKE_RECORD {
            Err("expected TLS handshake record (0x16), got 0x"@ + crate::text::hex_pair(kind))
        } else {
            match take_u16(r1, "record version"@) {
                Err(t) => Err(t),
                Ok((_, r2)) => match vector16(r2, "record length"@, "record body"@) {
                    Err(t) => Err(t),
                    Ok((body, _)) => handshake(body),
                },
            }
        },
    }
}

/// The error for a message or record of the wrong kind.
fn wrong_kind(expected: &str, got: u8) -> (e: Error)
    ensures
        e.is_usage(expected@ + crate::text::hex_pair(got)),
{
    let mut text = expected.to_owned();
    crate::text::append_hex_pair(&mut text, got);
    Error::Usage(text)
}

/// Reads the body of a ClientHello message.
fn read_hello(body: &[u8]) -> (res: Result<Fingerprint, Error>)
    ensures
        match hello(body@) {
            Ok(m) => res matches Ok(fp) && fp@ == m,
            Err(t) => res matches Err(e) && e.is_usage(t),
        },
{
    reveal(hello);
    let mut r = Reader::new(body);
    let _ = r.u16("client_version")?;
    let _ = r.take(32, "random")?;
    let sid_len: u8 = r.u8("session_id length")?;
    let _ = r.take(sid_len as usize, "session_id")?;

    let suites_len: u16 = r.u16("cipher_suites length")?;
    let suites = r.take(suites_len as usize, "cipher_suites")?;
    if suites_len % 2 != 0 {
        return Err(crate::error::usage("cipher_suites length is not even"));
    }
    let (cipher_suites, _) = without_grease(&read_codes(suites));

    let methods_len: u8 = r.u8("compression_methods length")?;
    let _ = r.take(methods_len as usize, "compression_methods")?;

    let mut fp = Fingerprint { cipher_suites, grease: false, ..Fingerprint::default() };
    assert(fp@ == bare(codes(suites@)));
    if r.remaining() == 0 {
        return Ok(fp);
    }
    let ext_len: u16 = r.u16("extensions length")?;
    let block = r.take(ext_len as usize, "extensions block")?;
    read_extensions(block, &mut fp)?;
    Ok(fp)
}

/// Reads the fingerprint out of a TLS record that holds a ClientHello.
pub fn parse_client_hello(raw: &[u8]) -> (res: Result<Fingerprint, Error>)
    ensures
        match client_hello(raw@) {
            Ok(m) => res matches Ok(fp) && fp@ == m,
            Err(t) => res matches Err(e) && e.is_usage(t),
        },
{
    let mut r = Reader::new(raw);
    let record: u8 = r.u8("record type")?;
    if record != TLS_HANDSHAKE_RECORD {
        return Err(wrong_kind("expected TLS handshake record (0x16), got 0x", record));
    }
    let _ = r.u16("record version")?;
    let record_len: u16 = r.u16("record length")?;
    let record_body = r.take(record_len as usize, "record body")?;

    let mut h = Reader::new(record_body);
    let message: u8 = h.u8("handshake type")?;
    if message != HANDSHAKE_CLIENT_HELLO {
        return Err(wrong_kind("expected ClientHello (0x01), got 0x", message));
    }
    let message_len: u32 = h.u24("handshake length")?;
    let body = h.take(message_len as usize, "handshake body")?;
    read_hello(body)
}

/// Lists of two-byte numbers have an even length: an extension that announces
/// an odd one is refused.
pub proof fn law_odd_lists_are_refused(kind: u16, body: Seq<u8>, fp: FingerprintModel)
    requires
        if kind == 27 {
            body.len() >= 1 && body[0] % 2 != 0
        } else {
            (kind == 10 || kind == 13) && body.len() >= 2 && be16(body[0], body[1]) % 2 != 0
        },
    ensures
        extension(kind, body, fp) is Err,
{
    reveal(extension);
}

/// A list of names is read exactly where it is a list, and as its items.
pub proof fn law_names_are_list_items(b: Seq<u8>, len_label: Seq<char>, label: Seq<char>)
    ensures
        names(b, len_label, label) is Ok <==> crate::lists::is_list(b),
        names(b, len_label, label) matches Ok(items) ==> items == crate::lists::leading_items(b),
    decreases b.len(),
{
    if b.len() > 0 && b.len() >= 1 + b[0] {
        let rest = b.skip(1).skip(b[0] as int);
        assert(rest =~= b.skip(1 + b[0]));
        assert(b.skip(1).take(b[0] as int) =~= b.subrange(1, 1 + b[0]));
        law_names_are_list_items(rest, len_label, label);
    }
}

// ------------------------------------------------- what capturing keeps

/// Whether `v` is one of the sixteen values from 0x0A0A in steps of 0x1010.
pub open spec fn is_reserved(v: u16) -> bool {
    v >= 0x0A0A && (v - 0x0A0A) % 0x1010 == 0
}

/// The sixteen reserved values are the GREASE values, and no others are.
pub proof fn law_reserved_values(v: u16)
    ensures
        is_reserved(v) == grease_value(v),
{
    law_grease_values(v);
    if grease_value(v) {
        let k = choose|k: int| 0 <= k < 16 && v == #[trigger] nth_grease(k);
        assert((v - 0x0A0A) % 0x1010 == 0) by (nonlinear_arith)
            requires
                v == 0x0A0A + k * 0x1010,
        ;
    }
    if is_reserved(v) {
        let k = (v - 0x0A0A) / 0x1010;
        assert(v == nth_grease(k));
    }
}

/// Capturing a list loses no codepoint but the reserved ones: each part of the
/// list is kept by itself and in its place, a codepoint alone is dropped
/// exactly where it is reserved, and a list without reserved ones is kept as it
/// is.
pub proof fn law_only_reserved_values_are_lost(a: Seq<u16>, b: Seq<u16>, v: u16)
    ensures
        plain(a + b) == plain(a) + plain(b),
        plain(seq![v]) == (if is_reserved(v) {
            Seq::<u16>::empty()
        } else {
            seq![v]
        }),
        (forall|i: int| 0 <= i < a.len() ==> !is_reserved(#[trigger] a[i])) ==> plain(a) == a,
{
    let keep = |w: u16| !grease_value(w);
    Seq::filter_distributes_over_add(a, b, keep);
    law_reserved_values(v);
    reveal(Seq::filter);
    let one = seq![v];
    assert(one.drop_last() =~= seq![]);
    assert(one.drop_last().filter(keep) =~= seq![]);
    assert(one.last() == v);
    assert(plain(one) =~= if is_reserved(v) {
        Seq::<u16>::empty()
    } else {
        one
    });
    if forall|i: int| 0 <= i < a.len() ==> !is_reserved(#[trigger] a[i]) {
        lemma_nothing_reserved(a);
    }
}

proof fn lemma_nothing_reserved(a: Seq<u16>)
    requires
        forall|i: int| 0 <= i < a.len() ==> !is_reserved(#[trigger] a[i]),
    ensures
        plain(a) == a,
    decreases a.len(),
{
    reveal(Seq::filter);
    if a.len() > 0 {
        let rest = a.drop_last();
        assert forall|i: int| 0 <= i < rest.len() implies !is_reserved(#[trigger] rest[i]) by {
            assert(rest[i] == a[i]);
        }
        lemma_nothing_reserved(rest);
        assert(!is_reserved(a[a.len() - 1]));
        law_reserved_values(a.last());
        assert(rest.push(a.last()) =~= a);
    } else {
        assert(plain(a) =~= a);
    }
}

/// A codepoint is in the captured list exactly as often as on the wire, unless
/// it is reserved; then it is not there at all.
pub proof fn law_codepoints_keep_their_number(c: Seq<u16>, v: u16)
    ensures
        plain(c).to_multiset().count(v) == (if is_reserved(v) {
            0
        } else {
            c.to_multiset().count(v)
        }),
    decreases c.len(),
{
    broadcast use vstd::seq_lib::group_to_multiset_ensures;

    law_reserved_values(v);
    reveal(Seq::filter);
    if c.len() > 0 {
        let rest = c.drop_last();
        law_codepoints_keep_their_number(rest, v);
        law_reserved_values(c.last());
        assert(rest.push(c.last()) =~= c);
    } else {
        assert(plain(c) =~= c);
        assert(c =~= seq![]);
    }
}

/// GREASE is seen in a list exactly where a reserved value is in it.
pub proof fn law_grease_is_seen(c: Seq<u16>)
    ensures
        has_grease(c) <==> exists|i: int| 0 <= i < c.len() && is_reserved(#[trigger] c[i]),
{
    if has_grease(c) {
        let i = choose|i: int| 0 <= i < c.len() && grease_value(#[trigger] c[i]);
        law_reserved_values(c[i]);
        assert(is_reserved(c[i]));
    }
    if exists|i: int| 0 <= i < c.len() && is_reserved(#[trigger] c[i]) {
        let i = choose|i: int| 0 <= i < c.len() && is_reserved(#[trigger] c[i]);
        law_reserved_values(c[i]);
        assert(grease_value(c[i]));
    }
}

/// Each part of a list of compression algorithms is read by itself and in its
/// place; 1 is zlib, 2 brotli and 3 zstd, and any other codepoint is passed
/// over.
pub proof fn law_algorithms_are_read(a: Seq<u16>, b: Seq<u16>, v: u16)
    ensures
        algorithms(a + b) == algorithms(a) + algorithms(b),
        algorithms(seq![v]) == (if v == 1 {
            seq![CertCompressAlg::Zlib]
        } else if v == 2 {
            seq![CertCompressAlg::Brotli]
        } else if v == 3 {
            seq![CertCompressAlg::Zstd]
        } else {
            Seq::<CertCompressAlg>::empty()
        }),
    decreases b.len(),
{
    reveal(Seq::filter_map);
    let f = |w: u16| CertCompressAlg::of_wire_code(w);
    let one = seq![v];
    assert(one.drop_last() =~= seq![]);
    assert(one.drop_last().filter_map(f) =~= seq![]);
    assert(one.last() == v);
    if b.len() > 0 {
        law_algorithms_are_read(a, b.drop_last(), v);
        assert((a + b).drop_last() =~= a + b.drop_last());
        assert(algorithms(a + b) =~= algorithms(a) + algorithms(b));
    } else {
        assert(a + b =~= a);
        assert(algorithms(b) =~= seq![]);
        assert(algorithms(a + b) =~= algorithms(a) + algorithms(b));
    }
}

/// Each extension touches its own fields and no others, and lists are added to
/// what is there: `supported_groups` is 10, `signature_algorithms` 13, ALPN 16,
/// `padding` 21, `compress_certificate` 27, `record_size_limit` 28, `key_share`
/// 51, ALPS 17513 or 17613, ECH 65037 and `trust_anchors` 0xCA34.
pub proof fn law_extensions_touch_their_fields(kind: u16, body: Seq<u8>, fp: FingerprintModel)
    ensures
        extension(kind, body, fp) matches Ok(m) ==> {
            &&& m.cipher_suites == fp.cipher_suites
            &&& m.extensions_order == fp.extensions_order
            &&& m.permute_extensions == fp.permute_extensions
            &&& m.grease == fp.grease
            &&& fp.supported_groups.is_prefix_of(m.supported_groups)
            &&& kind != 10 ==> m.supported_groups == fp.supported_groups
            &&& fp.signature_algorithms.is_prefix_of(m.signature_algorithms)
            &&& kind != 13 ==> m.signature_algorithms == fp.signature_algorithms
                && m.grease_sigalgs == fp.grease_sigalgs
            &&& fp.alpn.is_prefix_of(m.alpn)
            &&& kind != 16 ==> m.alpn == fp.alpn
            &&& m.padding == (if kind == 21 {
                Some(body.len() as usize)
            } else {
                fp.padding
            })
            &&& fp.compress_certificate.is_prefix_of(m.compress_certificate)
            &&& kind != 27 ==> m.compress_certificate == fp.compress_certificate
            &&& m.record_size_limit == (if kind == 28 {
                Some((body[0] * 256 + body[1]) as u16)
            } else {
                fp.record_size_limit
            })
            &&& fp.key_shares.is_prefix_of(m.key_shares)
            &&& kind != 51 ==> m.key_shares == fp.key_shares
            &&& fp.alps.is_prefix_of(m.alps)
            &&& kind != 17513 && kind != 17613 ==> m.alps == fp.alps
            &&& m.alps_use_new_codepoint == (if kind == 17613 {
                true
            } else if kind == 17513 {
                false
            } else {
                fp.alps_use_new_codepoint
            })
            &&& m.ech == (if kind == 65037 {
                EchModel::Grease
            } else {
                fp.ech
            })
            &&& m.trust_anchors == (if kind == 0xCA34 {
                Some(body.skip(2))
            } else {
                fp.trust_anchors
            })
        },
{
    reveal(extension);
    if let Ok(m) = extension(kind, body, fp) {
        if kind == 0xCA34 {
            let n = be16(body[0], body[1]);
            assert(body.skip(2).take(n as int) =~= body.skip(2));
        }
    }
}

/// What is captured was complete: a handshake record that holds a whole
/// ClientHello message. No record that ends before the length it announces,
/// and no record or message of another kind, is ever captured.
pub proof fn law_captured_records_are_complete(raw: Seq<u8>)
    ensures
        client_hello(raw) is Ok ==> {
            &&& raw.len() >= 9
            &&& raw[0] == 0x16
            &&& raw[5] == 0x01
            &&& raw.len() >= 5 + (raw[3] * 256 + raw[4])
            &&& raw[3] * 256 + raw[4] >= 4 + (raw[6] * 65536 + raw[7] * 256 + raw[8])
        },
{
    if client_hello(raw) is Ok {
        let r2 = raw.skip(1).skip(2);
        let n = be16(r2[0], r2[1]);
        let body = r2.skip(2).take(n as int);
        assert(handshake(body) is Ok);
        assert(body[0] == raw[5]);
        assert(body.skip(1)[0] == raw[6]);
        assert(body.skip(1)[1] == raw[7]);
        assert(body.skip(1)[2] == raw[8]);
    }
}

/// Reading a ClientHello gives what its bytes say, and fails where they say
/// nothing, whatever they are.
pub proof fn law_parsing(raw: &[u8], r: Result<Fingerprint, Error>)
    requires
        call_ensures(parse_client_hello, (raw,), r),
    ensures
        r is Ok <==> client_hello(raw@) is Ok,
        r matches Ok(fp) ==> client_hello(raw@) == Ok::<FingerprintModel, Seq<char>>(fp@),
        r matches Err(e) ==> e is Usage,
{
}

/// An extension that is read is as long as it announces: at least, for the
/// lists of groups, names, key shares and algorithms; exactly, for signature
/// algorithms, which are not empty, and for trust-anchor IDs.
pub proof fn law_extensions_hold_what_they_announce(
    kind: u16,
    body: Seq<u8>,
    fp: FingerprintModel,
)
    requires
        extension(kind, body, fp) is Ok,
    ensures
        kind == 10 || kind == 16 || kind == 51 || kind == 17513 || kind == 17613 ==> body.len()
            >= 2 && body.len() >= 2 + (256 * body[0] + body[1]),
        kind == 13 || kind == 0xCA34 ==> body.len() >= 2 && body.len() == 2 + (256 * body[0]
            + body[1]),
        kind == 13 ==> body.len() > 2 && body.len() % 2 == 0,
        kind == 10 ==> (256 * body[0] + body[1]) % 2 == 0,
        kind == 27 ==> body.len() >= 1 && body.len() >= 1 + body[0] && body[0] % 2 == 0,
        kind == 28 ==> body.len() >= 2,
{
    reveal(extension);
}

/// The text of an error for input that ends too early names what was missing,
/// how much was needed and how much was there.
pub proof fn law_truncation_is_explained(s: Seq<u8>, n: nat, label: Seq<char>)
    ensures
        take(s, n, label) is Err <==> s.len() < n,
        take(s, n, label) matches Err(t) ==> t == "truncated ClientHello: need "@
            + crate::text::decimal(n) + " more bytes for "@ + label + ", have "@
            + crate::text::decimal(s.len()),
        take(s, n, label) matches Ok(parts) ==> parts.0.len() == n && parts.0 + parts.1 == s,
{
    if s.len() >= n {
        assert(s.take(n as int) + s.skip(n as int) =~= s);
    }
}

} // verus!
