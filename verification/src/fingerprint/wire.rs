//! How a ClientHello is written, and what capturing one gives back.

use crate::fingerprint::spec::{
    CertCompressAlg, EchModel, FingerprintModel, GREASE_EXTENSION, TRUST_ANCHORS_EXTENSION,
};
use vstd::prelude::*;

verus! {

// -------------------------------------------------------------- numbers

/// `v` in two bytes, the higher one first.
pub open spec fn bytes16(v: u16) -> Seq<u8> {
    seq![(v / 256) as u8, (v % 256) as u8]
}

/// `v` in three bytes, the highest one first.
pub open spec fn bytes24(v: nat) -> Seq<u8> {
    seq![(v / 65536) as u8, (v / 256 % 256) as u8, (v % 256) as u8]
}

/// Bytes behind their length in one byte.
pub open spec fn sized8(b: Seq<u8>) -> Seq<u8> {
    seq![b.len() as u8] + b
}

/// Bytes behind their length in two bytes.
pub open spec fn sized16(b: Seq<u8>) -> Seq<u8> {
    bytes16(b.len() as u16) + b
}

/// Codepoints, two bytes each.
#[verifier::opaque]
pub open spec fn code_bytes(c: Seq<u16>) -> Seq<u8> {
    Seq::new(2 * c.len(), |i: int| bytes16(c[i / 2])[i % 2])
}

proof fn lemma_take_u16(v: u16, rest: Seq<u8>, label: Seq<char>)
    ensures
        crate::fingerprint::capture::take_u16(bytes16(v) + rest, label) == Ok::<
            (u16, Seq<u8>),
            Seq<char>,
        >((v, rest)),
{
    assert((bytes16(v) + rest).skip(2) =~= rest);
}

proof fn lemma_take_u24(v: nat, rest: Seq<u8>, label: Seq<char>)
    requires
        v <= 65535,
    ensures
        crate::fingerprint::capture::take_u24(bytes24(v) + rest, label) == Ok::<
            (u32, Seq<u8>),
            Seq<char>,
        >((v as u32, rest)),
{
    assert((bytes24(v) + rest).skip(3) =~= rest);
}

proof fn lemma_take(b: Seq<u8>, rest: Seq<u8>, label: Seq<char>)
    ensures
        crate::fingerprint::capture::take(b + rest, b.len(), label) == Ok::<
            (Seq<u8>, Seq<u8>),
            Seq<char>,
        >((b, rest)),
{
    assert((b + rest).take(b.len() as int) =~= b);
    assert((b + rest).skip(b.len() as int) =~= rest);
}

proof fn lemma_vector8(b: Seq<u8>, rest: Seq<u8>, len_label: Seq<char>, label: Seq<char>)
    requires
        b.len() <= 255,
    ensures
        crate::fingerprint::capture::vector8(sized8(b) + rest, len_label, label) == Ok::<
            (Seq<u8>, Seq<u8>),
            Seq<char>,
        >((b, rest)),
{
    assert((sized8(b) + rest).skip(1) =~= b + rest);
    lemma_take(b, rest, label);
}

proof fn lemma_vector16(b: Seq<u8>, rest: Seq<u8>, len_label: Seq<char>, label: Seq<char>)
    requires
        b.len() <= 65535,
    ensures
        crate::fingerprint::capture::vector16(sized16(b) + rest, len_label, label) == Ok::<
            (Seq<u8>, Seq<u8>),
            Seq<char>,
        >((b, rest)),
        crate::fingerprint::capture::block16(sized16(b) + rest, len_label, label) == Ok::<
            Seq<u8>,
            Seq<char>,
        >(b),
{
    assert(sized16(b) + rest =~= bytes16(b.len() as u16) + (b + rest));
    lemma_take_u16(b.len() as u16, b + rest, len_label);
    lemma_take(b, rest, label);
}

proof fn lemma_codes(c: Seq<u16>)
    ensures
        code_bytes(c).len() == 2 * c.len(),
        crate::fingerprint::capture::codes(code_bytes(c)) == c,
{
    reveal(code_bytes);
    let b = code_bytes(c);
    let back = crate::fingerprint::capture::codes(b);
    assert forall|i: int| 0 <= i < c.len() implies back[i] == c[i] by {
        assert((2 * i) / 2 == i && (2 * i) % 2 == 0 && (2 * i + 1) / 2 == i && (2 * i + 1) % 2
            == 1);
        assert(b[2 * i] == bytes16(c[i])[0]);
        assert(b[2 * i + 1] == bytes16(c[i])[1]);
    }
    assert(back =~= c);
}

// --------------------------------------------------------------- framing

/// One extension: its codepoint and its contents.
pub struct WireExtension {
    pub kind: u16,
    pub body: Seq<u8>,
}

/// The parts of a ClientHello.
pub struct WireHello {
    pub record_version: u16,
    pub version: u16,
    pub random: Seq<u8>,
    pub session_id: Seq<u8>,
    pub suites: Seq<u16>,
    pub methods: Seq<u8>,
    pub extensions: Seq<WireExtension>,
}

/// The bytes of a list of extensions.
pub open spec fn extension_bytes(list: Seq<WireExtension>) -> Seq<u8>
    decreases list.len(),
{
    if list.len() == 0 {
        seq![]
    } else {
        bytes16(list[0].kind) + sized16(list[0].body) + extension_bytes(list.drop_first())
    }
}

/// Whether the contents of each extension fit behind a two-byte length.
pub open spec fn bodies_fit(list: Seq<WireExtension>) -> bool {
    forall|i: int| 0 <= i < list.len() ==> (#[trigger] list[i]).body.len() <= 65535
}

impl WireHello {
    /// The ClientHello message without its header.
    pub open spec fn body(self) -> Seq<u8> {
        bytes16(self.version) + (self.random + (sized8(self.session_id) + (sized16(
            code_bytes(self.suites),
        ) + (sized8(self.methods) + sized16(extension_bytes(self.extensions))))))
    }

    /// The ClientHello message.
    pub open spec fn message(self) -> Seq<u8> {
        seq![0x01u8] + (bytes24(self.body().len()) + self.body())
    }

    /// The handshake record that holds the ClientHello.
    pub open spec fn record(self) -> Seq<u8> {
        seq![0x16u8] + bytes16(self.record_version) + sized16(self.message())
    }

    /// Whether every part fits behind its length.
    pub open spec fn is_writable(self) -> bool {
        &&& self.random.len() == 32
        &&& self.session_id.len() <= 255
        &&& 2 * self.suites.len() <= 65535
        &&& self.methods.len() <= 255
        &&& bodies_fit(self.extensions)
        &&& extension_bytes(self.extensions).len() <= 65535
        &&& self.message().len() <= 65535
    }
}

/// `fp` with the extensions of `list`, one after the other.
pub open spec fn added(list: Seq<WireExtension>, fp: FingerprintModel) -> Result<
    FingerprintModel,
    Seq<char>,
>
    decreases list.len(),
{
    if list.len() == 0 {
        Ok(fp)
    } else {
        match crate::fingerprint::capture::with_extension(list[0].kind, list[0].body, fp) {
            Err(t) => Err(t),
            Ok(next) => added(list.drop_first(), next),
        }
    }
}

proof fn lemma_extensions(list: Seq<WireExtension>, fp: FingerprintModel)
    requires
        bodies_fit(list),
    ensures
        crate::fingerprint::capture::with_extensions(extension_bytes(list), fp) == added(list, fp),
    decreases list.len(),
{
    if list.len() > 0 {
        let first = list[0];
        let rest = list.drop_first();
        let tail = extension_bytes(rest);
        assert(bodies_fit(rest)) by {
            assert forall|i: int| 0 <= i < rest.len() implies (#[trigger] rest[i]).body.len()
                <= 65535 by {
                assert(rest[i] == list[i + 1]);
            }
        }
        assert(extension_bytes(list) =~= bytes16(first.kind) + (bytes16(first.body.len() as u16) + (
        first.body + tail)));
        lemma_take_u16(
            first.kind,
            bytes16(first.body.len() as u16) + (first.body + tail),
            "extension type"@,
        );
        lemma_take_u16(first.body.len() as u16, first.body + tail, "extension length"@);
        lemma_take(first.body, tail, "extension body"@);
        match crate::fingerprint::capture::with_extension(first.kind, first.body, fp) {
            Err(_) => {},
            Ok(next) => {
                lemma_extensions(rest, next);
            },
        }
    }
}

proof fn lemma_hello_tail(methods: Seq<u8>, list: Seq<WireExtension>, suites: Seq<u16>)
    requires
        methods.len() <= 255,
        bodies_fit(list),
        extension_bytes(list).len() <= 65535,
    ensures
        crate::fingerprint::capture::hello_tail(
            sized8(methods) + sized16(extension_bytes(list)),
            suites,
        ) == added(list, crate::fingerprint::capture::bare(suites)),
{
    let ext = extension_bytes(list);
    lemma_vector8(methods, sized16(ext), "compression_methods length"@, "compression_methods"@);
    assert(sized16(ext) + seq![] =~= sized16(ext));
    lemma_vector16(ext, seq![], "extensions length"@, "extensions block"@);
    lemma_extensions(list, crate::fingerprint::capture::bare(suites));
}

proof fn lemma_hello(version: u16, random: Seq<u8>, sid: Seq<u8>, suites: Seq<u8>, tail: Seq<u8>)
    requires
        random.len() == 32,
        sid.len() <= 255,
        suites.len() <= 65535,
        suites.len() % 2 == 0,
    ensures
        crate::fingerprint::capture::hello(
            bytes16(version) + (random + (sized8(sid) + (sized16(suites) + tail))),
        ) == crate::fingerprint::capture::hello_tail(
            tail,
            crate::fingerprint::capture::codes(suites),
        ),
{
    reveal(crate::fingerprint::capture::hello);
    let t3 = sized16(suites) + tail;
    let t2 = sized8(sid) + t3;
    lemma_take_u16(version, random + t2, "client_version"@);
    lemma_take(random, t2, "random"@);
    lemma_vector8(sid, t3, "session_id length"@, "session_id"@);
    lemma_vector16(suites, tail, "cipher_suites length"@, "cipher_suites"@);
}

proof fn lemma_message(body: Seq<u8>)
    requires
        body.len() <= 65535,
    ensures
        crate::fingerprint::capture::handshake(seq![0x01u8] + (bytes24(body.len()) + body))
            == crate::fingerprint::capture::hello(body),
{
    assert((seq![0x01u8] + (bytes24(body.len()) + body)).skip(1) =~= bytes24(body.len()) + body);
    lemma_take_u24(body.len(), body, "handshake length"@);
    assert(body.take(body.len() as int) =~= body);
}

proof fn lemma_record(version: u16, message: Seq<u8>, trailing: Seq<u8>)
    requires
        message.len() <= 65535,
    ensures
        crate::fingerprint::capture::client_hello(
            seq![0x16u8] + bytes16(version) + sized16(message) + trailing,
        ) == crate::fingerprint::capture::handshake(message),
{
    let raw = seq![0x16u8] + bytes16(version) + sized16(message) + trailing;
    assert(raw.skip(1) =~= bytes16(version) + (sized16(message) + trailing));
    lemma_take_u16(version, sized16(message) + trailing, "record version"@);
    lemma_vector16(message, trailing, "record length"@, "record body"@);
}

/// The handshake record, of the oldest version that carries one, around the
/// body of a ClientHello.
pub open spec fn record_around(body: Seq<u8>) -> Seq<u8> {
    seq![0x16u8] + bytes16(0x0301) + sized16(seq![0x01u8] + (bytes24(body.len()) + body))
}

/// Puts the body of a ClientHello, as the engine hands it to a server, back
/// into a record; nothing where it is too long for one.
pub fn record_of(body: &[u8]) -> (r: Option<Vec<u8>>)
    ensures
        crate::fingerprint::spec::opt_bytes(r) == (if body@.len() <= 65531 {
            Some(record_around(body@))
        } else {
            None
        }),
{
    let n: usize = body.len();
    if n > 65531 {
        return None;
    }
    let mut out: Vec<u8> = Vec::new();
    out.push(0x16);
    out.push(0x03);
    out.push(0x01);
    out.push(((n + 4) / 256) as u8);
    out.push(((n + 4) % 256) as u8);
    out.push(0x01);
    out.push(0);
    out.push((n / 256) as u8);
    out.push((n % 256) as u8);
    out.extend_from_slice(body);
    proof {
        let message = seq![0x01u8] + (bytes24(body@.len()) + body@);
        assert(message.len() == n + 4);
        assert(bytes16(0x0301) =~= seq![0x03u8, 0x01u8]);
        assert(bytes24(body@.len()) =~= seq![0u8, (n / 256) as u8, (n % 256) as u8]);
        assert(out@ =~= record_around(body@));
    }
    Some(out)
}

/// A ClientHello that was put back into a record is captured as what its body
/// says.
pub proof fn law_record_of_body(body: Seq<u8>)
    requires
        body.len() <= 65531,
    ensures
        crate::fingerprint::capture::client_hello(record_around(body))
            == crate::fingerprint::capture::hello(body),
{
    let message = seq![0x01u8] + (bytes24(body.len()) + body);
    assert(record_around(body) + seq![] =~= record_around(body));
    lemma_record(0x0301, message, seq![]);
    lemma_message(body);
}

/// Capturing a written ClientHello reads its cipher suites and its extensions
/// in order. The versions, the random bytes, the session ID, the compression
/// methods and whatever follows the record play no part.
pub proof fn law_capture_of_written(h: WireHello, trailing: Seq<u8>)
    requires
        h.is_writable(),
    ensures
        crate::fingerprint::capture::client_hello(h.record() + trailing) == added(
            h.extensions,
            crate::fingerprint::capture::bare(h.suites),
        ),
{
    let tail = sized8(h.methods) + sized16(extension_bytes(h.extensions));
    lemma_codes(h.suites);
    lemma_record(h.record_version, h.message(), trailing);
    lemma_message(h.body());
    lemma_hello(
        h.version,
        h.random,
        h.session_id,
        code_bytes(h.suites),
        tail,
    );
    lemma_hello_tail(h.methods, h.extensions, h.suites);
}

// ------------------------------------------------------------ extensions

/// A list of codepoints behind its length in two bytes.
pub open spec fn code_list(c: Seq<u16>) -> Seq<u8> {
    sized16(code_bytes(c))
}

/// A list of codepoints behind its length in one byte.
pub open spec fn short_code_list(c: Seq<u16>) -> Seq<u8> {
    sized8(code_bytes(c))
}

/// A list of names, each behind its length, behind its own length.
pub open spec fn name_list(items: Seq<Seq<u8>>) -> Seq<u8> {
    sized16(crate::lists::encoded(items))
}

/// A key share: a group and a key.
pub struct WireShare {
    pub group: u16,
    pub key: Seq<u8>,
}

/// The bytes of a list of key shares.
pub open spec fn share_bytes(shares: Seq<WireShare>) -> Seq<u8>
    decreases shares.len(),
{
    if shares.len() == 0 {
        seq![]
    } else {
        bytes16(shares[0].group) + (sized16(shares[0].key) + share_bytes(shares.drop_first()))
    }
}

/// The groups of a list of key shares.
pub open spec fn groups_of(shares: Seq<WireShare>) -> Seq<u16> {
    shares.map_values(|s: WireShare| s.group)
}

/// Whether each key fits behind a two-byte length.
pub open spec fn keys_fit(shares: Seq<WireShare>) -> bool {
    forall|i: int| 0 <= i < shares.len() ==> (#[trigger] shares[i]).key.len() <= 65535
}

/// A list of key shares behind its length.
pub open spec fn share_list(shares: Seq<WireShare>) -> Seq<u8> {
    sized16(share_bytes(shares))
}

proof fn lemma_names(items: Seq<Seq<u8>>, len_label: Seq<char>, label: Seq<char>)
    requires
        crate::lists::fits(items),
    ensures
        crate::fingerprint::capture::names(crate::lists::encoded(items), len_label, label) == Ok::<
            Seq<Seq<u8>>,
            Seq<char>,
        >(items),
    decreases items.len(),
{
    let b = crate::lists::encoded(items);
    if items.len() > 0 {
        let rest = items.drop_first();
        assert forall|i: int| 0 <= i < rest.len() implies (#[trigger] rest[i]).len() <= 255 by {
            assert(rest[i] == items[i + 1]);
        }
        lemma_names(rest, len_label, label);
        let tail = crate::lists::encoded(rest);
        assert(items[0].len() <= 255);
        assert(b.skip(1) =~= items[0] + tail);
        lemma_take(items[0], tail, label);
        assert(seq![items[0]] + rest =~= items);
    } else {
        assert(items =~= seq![]);
    }
}

proof fn lemma_shares(shares: Seq<WireShare>)
    requires
        keys_fit(shares),
    ensures
        crate::fingerprint::capture::share_groups(share_bytes(shares)) == Ok::<
            Seq<u16>,
            Seq<char>,
        >(groups_of(shares)),
    decreases shares.len(),
{
    if shares.len() > 0 {
        let first = shares[0];
        let rest = shares.drop_first();
        assert forall|i: int| 0 <= i < rest.len() implies (#[trigger] rest[i]).key.len()
            <= 65535 by {
            assert(rest[i] == shares[i + 1]);
        }
        lemma_shares(rest);
        let tail = share_bytes(rest);
        let n = first.key.len() as u16;
        assert(sized16(first.key) + tail =~= bytes16(n) + (first.key + tail));
        lemma_take_u16(first.group, sized16(first.key) + tail, "key_share group"@);
        lemma_take_u16(n, first.key + tail, "key_share length"@);
        lemma_take(first.key, tail, "key_share key"@);
        assert(seq![first.group] + groups_of(rest) =~= groups_of(shares));
    } else {
        assert(groups_of(shares) =~= seq![]);
    }
}

/// Whether the contents of an extension say what `fp` has for it. GREASE
/// values may stand anywhere among the codepoints, key shares may have any
/// keys, and unknown compression algorithms may be listed. An extension that a
/// fingerprint does not describe may hold anything.
pub open spec fn describes(e: WireExtension, fp: FingerprintModel) -> bool {
    if e.kind == 10 {
        exists|c: Seq<u16>|
            e.body == #[trigger] code_list(c) && 2 * c.len() <= 65535
                && crate::fingerprint::capture::plain(c) == fp.supported_groups
    } else if e.kind == 13 {
        exists|c: Seq<u16>|
            e.body == #[trigger] code_list(c) && 0 < 2 * c.len() <= 65535
                && crate::fingerprint::capture::plain(c) == fp.signature_algorithms
                && crate::fingerprint::capture::has_grease(c) == fp.grease_sigalgs
    } else if e.kind == 16 {
        exists|items: Seq<Seq<u8>>|
            e.body == #[trigger] name_list(items) && crate::lists::fits(items)
                && crate::lists::encoded(items).len() <= 65535
                && crate::fingerprint::capture::lossy_all(items) == fp.alpn
    } else if e.kind == 51 {
        exists|shares: Seq<WireShare>|
            e.body == #[trigger] share_list(shares) && keys_fit(shares) && share_bytes(shares).len()
                <= 65535 && crate::fingerprint::capture::plain(groups_of(shares)) == fp.key_shares
    } else if e.kind == 27 {
        exists|c: Seq<u16>|
            e.body == #[trigger] short_code_list(c) && 2 * c.len() <= 255
                && crate::fingerprint::capture::algorithms(c) == fp.compress_certificate
    } else if e.kind == 17513 || e.kind == 17613 {
        fp.alps_use_new_codepoint == (e.kind == 17613) && exists|items: Seq<Seq<u8>>|
            e.body == #[trigger] name_list(items) && crate::lists::fits(items)
                && crate::lists::encoded(items).len() <= 65535
                && crate::fingerprint::capture::lossy_all(items) == fp.alps
    } else if e.kind == 28 {
        exists|v: u16| e.body == #[trigger] bytes16(v) && fp.record_size_limit == Some(v)
    } else if e.kind == 65037 {
        fp.ech == EchModel::Grease
    } else if e.kind == 21 {
        fp.padding == Some(e.body.len() as usize)
    } else if e.kind == TRUST_ANCHORS_EXTENSION {
        exists|ids: Seq<u8>|
            e.body == #[trigger] sized16(ids) && ids.len() <= 65535
                && crate::fingerprint::spec::valid_trust_anchor_ids(ids) && fp.trust_anchors
                == Some(ids)
    } else {
        true
    }
}

proof fn lemma_code_list(c: Seq<u16>)
    requires
        2 * c.len() <= 65535,
    ensures
        crate::fingerprint::capture::supported_groups_in(code_list(c)) == Ok::<
            Seq<u16>,
            Seq<char>,
        >(crate::fingerprint::capture::plain(c)),
        c.len() > 0 ==> crate::fingerprint::capture::signature_algorithms_in(code_list(c)) == Ok::<
            Seq<u16>,
            Seq<char>,
        >(c),
{
    let b = code_bytes(c);
    lemma_codes(c);
    assert(sized16(b) + seq![] =~= sized16(b));
    lemma_vector16(b, seq![], "supported_groups length"@, "supported_groups"@);
    lemma_take_u16(b.len() as u16, b, "signature_algorithms length"@);
}

proof fn lemma_name_list(items: Seq<Seq<u8>>)
    requires
        crate::lists::fits(items),
        crate::lists::encoded(items).len() <= 65535,
    ensures
        crate::fingerprint::capture::alpn_in(name_list(items)) == Ok::<
            Seq<Seq<char>>,
            Seq<char>,
        >(crate::fingerprint::capture::lossy_all(items)),
        crate::fingerprint::capture::alps_in(name_list(items)) == Ok::<
            Seq<Seq<char>>,
            Seq<char>,
        >(crate::fingerprint::capture::lossy_all(items)),
{
    let b = crate::lists::encoded(items);
    assert(sized16(b) + seq![] =~= sized16(b));
    lemma_vector16(b, seq![], "alpn length"@, "alpn list"@);
    lemma_vector16(b, seq![], "alps length"@, "alps list"@);
    lemma_names(items, "alpn proto length"@, "alpn proto"@);
    lemma_names(items, "alps proto length"@, "alps proto"@);
}

proof fn lemma_share_list(shares: Seq<WireShare>)
    requires
        keys_fit(shares),
        share_bytes(shares).len() <= 65535,
    ensures
        crate::fingerprint::capture::key_shares_in(share_list(shares)) == Ok::<
            Seq<u16>,
            Seq<char>,
        >(crate::fingerprint::capture::plain(groups_of(shares))),
{
    let b = share_bytes(shares);
    assert(sized16(b) + seq![] =~= sized16(b));
    lemma_vector16(b, seq![], "key_share list length"@, "key_share list"@);
    lemma_shares(shares);
}

proof fn lemma_short_code_list(c: Seq<u16>)
    requires
        2 * c.len() <= 255,
    ensures
        crate::fingerprint::capture::algorithms_in(short_code_list(c)) == Ok::<
            Seq<CertCompressAlg>,
            Seq<char>,
        >(crate::fingerprint::capture::algorithms(c)),
{
    let b = code_bytes(c);
    lemma_codes(c);
    assert(sized8(b) + seq![] =~= sized8(b));
    lemma_vector8(b, seq![], "compress_certificate count"@, "compress_certificate algs"@);
}

proof fn lemma_anchor_list(ids: Seq<u8>)
    requires
        ids.len() <= 65535,
        crate::fingerprint::spec::valid_trust_anchor_ids(ids),
    ensures
        crate::fingerprint::capture::trust_anchors_in(sized16(ids)) == Ok::<Seq<u8>, Seq<char>>(
            ids,
        ),
{
    lemma_take_u16(ids.len() as u16, ids, "trust_anchors length"@);
    assert(ids + seq![] =~= ids);
    lemma_take(ids, seq![], "trust_anchors list"@);
}

/// `fp` with the fields that the extension with the given codepoint describes
/// taken from `whole`.
pub open spec fn filled(kind: u16, fp: FingerprintModel, whole: FingerprintModel) -> FingerprintModel {
    FingerprintModel {
        supported_groups: if kind == 10 { whole.supported_groups } else { fp.supported_groups },
        signature_algorithms: if kind == 13 {
            whole.signature_algorithms
        } else {
            fp.signature_algorithms
        },
        grease_sigalgs: if kind == 13 { whole.grease_sigalgs } else { fp.grease_sigalgs },
        alpn: if kind == 16 { whole.alpn } else { fp.alpn },
        key_shares: if kind == 51 { whole.key_shares } else { fp.key_shares },
        compress_certificate: if kind == 27 {
            whole.compress_certificate
        } else {
            fp.compress_certificate
        },
        alps: if kind == 17513 || kind == 17613 { whole.alps } else { fp.alps },
        alps_use_new_codepoint: if kind == 17513 || kind == 17613 {
            whole.alps_use_new_codepoint
        } else {
            fp.alps_use_new_codepoint
        },
        record_size_limit: if kind == 28 { whole.record_size_limit } else { fp.record_size_limit },
        ech: if kind == 65037 { whole.ech } else { fp.ech },
        padding: if kind == 21 { whole.padding } else { fp.padding },
        trust_anchors: if kind == TRUST_ANCHORS_EXTENSION {
            whole.trust_anchors
        } else {
            fp.trust_anchors
        },
        ..fp
    }
}

/// Whether `fp` has nothing yet for the extension with the given codepoint.
pub open spec fn lacks(kind: u16, fp: FingerprintModel) -> bool {
    &&& kind == 10 ==> fp.supported_groups == Seq::<u16>::empty()
    &&& kind == 13 ==> fp.signature_algorithms == Seq::<u16>::empty() && !fp.grease_sigalgs
    &&& kind == 16 ==> fp.alpn == Seq::<Seq<char>>::empty()
    &&& kind == 51 ==> fp.key_shares == Seq::<u16>::empty()
    &&& kind == 27 ==> fp.compress_certificate == Seq::<CertCompressAlg>::empty()
    &&& kind == 17513 || kind == 17613 ==> fp.alps == Seq::<Seq<char>>::empty()
}

proof fn lemma_extension(e: WireExtension, fp: FingerprintModel, whole: FingerprintModel)
    requires
        describes(e, whole),
        lacks(e.kind, fp),
    ensures
        crate::fingerprint::capture::extension(e.kind, e.body, fp) == Ok::<
            FingerprintModel,
            Seq<char>,
        >(filled(e.kind, fp, whole)),
{
    reveal(crate::fingerprint::capture::extension);
    if e.kind == 10 {
        let c = choose|c: Seq<u16>|
            e.body == #[trigger] code_list(c) && 2 * c.len() <= 65535
                && crate::fingerprint::capture::plain(c) == whole.supported_groups;
        lemma_code_list(c);
        assert(fp.supported_groups + whole.supported_groups =~= whole.supported_groups);
    } else if e.kind == 13 {
        let c = choose|c: Seq<u16>|
            e.body == #[trigger] code_list(c) && 0 < 2 * c.len() <= 65535
                && crate::fingerprint::capture::plain(c) == whole.signature_algorithms
                && crate::fingerprint::capture::has_grease(c) == whole.grease_sigalgs;
        lemma_code_list(c);
        assert(fp.signature_algorithms + whole.signature_algorithms
            =~= whole.signature_algorithms);
    } else if e.kind == 16 {
        let items = choose|items: Seq<Seq<u8>>|
            e.body == #[trigger] name_list(items) && crate::lists::fits(items)
                && crate::lists::encoded(items).len() <= 65535
                && crate::fingerprint::capture::lossy_all(items) == whole.alpn;
        lemma_name_list(items);
        assert(fp.alpn + whole.alpn =~= whole.alpn);
    } else if e.kind == 51 {
        let shares = choose|shares: Seq<WireShare>|
            e.body == #[trigger] share_list(shares) && keys_fit(shares) && share_bytes(shares).len()
                <= 65535 && crate::fingerprint::capture::plain(groups_of(shares))
                == whole.key_shares;
        lemma_share_list(shares);
        assert(fp.key_shares + whole.key_shares =~= whole.key_shares);
    } else if e.kind == 27 {
        let c = choose|c: Seq<u16>|
            e.body == #[trigger] short_code_list(c) && 2 * c.len() <= 255
                && crate::fingerprint::capture::algorithms(c) == whole.compress_certificate;
        lemma_short_code_list(c);
        assert(fp.compress_certificate + whole.compress_certificate
            =~= whole.compress_certificate);
    } else if e.kind == 17513 || e.kind == 17613 {
        let items = choose|items: Seq<Seq<u8>>|
            e.body == #[trigger] name_list(items) && crate::lists::fits(items)
                && crate::lists::encoded(items).len() <= 65535
                && crate::fingerprint::capture::lossy_all(items) == whole.alps;
        lemma_name_list(items);
        assert(fp.alps + whole.alps =~= whole.alps);
    } else if e.kind == 28 {
        let v = choose|v: u16|
            e.body == #[trigger] bytes16(v) && whole.record_size_limit == Some(v);
        assert(bytes16(v) + seq![] =~= bytes16(v));
        lemma_take_u16(v, seq![], "record_size_limit"@);
    } else if e.kind == TRUST_ANCHORS_EXTENSION {
        let ids = choose|ids: Seq<u8>|
            e.body == #[trigger] sized16(ids) && ids.len() <= 65535
                && crate::fingerprint::spec::valid_trust_anchor_ids(ids) && whole.trust_anchors
                == Some(ids);
        lemma_anchor_list(ids);
    }
}

// -------------------------------------------------------- what comes back

/// Whether `fp` is what capturing a ClientHello can give: each extension
/// occurs once, a field is set where its extension occurs and nowhere else,
/// and GREASE is on where there is a GREASE extension.
pub open spec fn is_capturable(fp: FingerprintModel) -> bool {
    let order = fp.extensions_order;
    &&& forall|i: int|
        0 <= i < order.len() ==> !crate::fingerprint::capture::grease_value(#[trigger] order[i])
    &&& forall|i: int, j: int|
        0 <= i < j < order.len() && #[trigger] order[i] == #[trigger] order[j] ==> order[i]
            == GREASE_EXTENSION
    &&& !(order.contains(17513) && order.contains(17613))
    &&& fp == only(fp, order)
}

/// What of `fp` belongs to the extensions of `order`.
pub open spec fn only(fp: FingerprintModel, order: Seq<u16>) -> FingerprintModel {
    FingerprintModel {
        cipher_suites: fp.cipher_suites,
        extensions_order: order,
        permute_extensions: true,
        supported_groups: if order.contains(10) { fp.supported_groups } else { seq![] },
        key_shares: if order.contains(51) { fp.key_shares } else { seq![] },
        signature_algorithms: if order.contains(13) { fp.signature_algorithms } else { seq![] },
        alpn: if order.contains(16) { fp.alpn } else { seq![] },
        alps: if order.contains(17513) || order.contains(17613) { fp.alps } else { seq![] },
        alps_use_new_codepoint: if order.contains(17513) || order.contains(17613) {
            fp.alps_use_new_codepoint
        } else {
            true
        },
        compress_certificate: if order.contains(27) { fp.compress_certificate } else { seq![] },
        record_size_limit: if order.contains(28) { fp.record_size_limit } else { None },
        grease: order.contains(GREASE_EXTENSION),
        grease_sigalgs: order.contains(13) && fp.grease_sigalgs,
        ech: if order.contains(65037) { fp.ech } else { EchModel::Off },
        padding: if order.contains(21) { fp.padding } else { None },
        trust_anchors: if order.contains(TRUST_ANCHORS_EXTENSION) {
            fp.trust_anchors
        } else {
            None
        },
    }
}

/// Whether a list of extensions is the one that `fp` describes, with any
/// GREASE codepoint and any contents for each GREASE placeholder.
pub open spec fn carries(list: Seq<WireExtension>, fp: FingerprintModel) -> bool {
    &&& list.len() == fp.extensions_order.len()
    &&& forall|i: int|
        0 <= i < list.len() ==> {
            let e = #[trigger] list[i];
            if fp.extensions_order[i] == GREASE_EXTENSION {
                crate::fingerprint::capture::grease_value(e.kind)
            } else {
                e.kind == fp.extensions_order[i] && describes(e, fp)
            }
        }
}

proof fn lemma_contains_push(before: Seq<u16>, x: u16)
    ensures
        forall|k: u16| #[trigger]
            before.push(x).contains(k) == (before.contains(k) || k == x),
{
    let after = before.push(x);
    assert forall|k: u16| #[trigger] after.contains(k) == (before.contains(k) || k == x) by {
        if before.contains(k) {
            let i = choose|i: int| 0 <= i < before.len() && before[i] == k;
            assert(after[i] == k);
        }
        if k == x {
            assert(after[before.len() as int] == k);
        }
        if after.contains(k) {
            let i = choose|i: int| 0 <= i < after.len() && after[i] == k;
            if i < before.len() {
                assert(before[i] == k);
            }
        }
    }
}

proof fn lemma_only_push(fp: FingerprintModel, before: Seq<u16>, x: u16)
    requires
        !before.contains(x),
        x == 17513 ==> !before.contains(17613),
        x == 17613 ==> !before.contains(17513),
    ensures
        x != GREASE_EXTENSION ==> filled(
            x,
            (FingerprintModel { extensions_order: before.push(x), ..only(fp, before) }),
            fp,
        ) == only(fp, before.push(x)),
        lacks(x, (FingerprintModel { extensions_order: before.push(x), ..only(fp, before) })),
{
    lemma_contains_push(before, x);
}

proof fn lemma_only_push_grease(fp: FingerprintModel, before: Seq<u16>)
    ensures
        (FingerprintModel {
            extensions_order: before.push(GREASE_EXTENSION),
            grease: true,
            ..only(fp, before)
        }) == only(fp, before.push(GREASE_EXTENSION)),
{
    lemma_contains_push(before, GREASE_EXTENSION);
}

proof fn lemma_step(list: Seq<WireExtension>, fp: FingerprintModel, n: int)
    requires
        is_capturable(fp),
        carries(list, fp),
        0 <= n < list.len(),
    ensures
        crate::fingerprint::capture::with_extension(
            list[n].kind,
            list[n].body,
            only(fp, fp.extensions_order.take(n)),
        ) == Ok::<FingerprintModel, Seq<char>>(only(fp, fp.extensions_order.take(n + 1))),
{
    let order = fp.extensions_order;
    let before = order.take(n);
    let x = order[n];
    assert(order.take(n + 1) =~= before.push(x));
    if x == GREASE_EXTENSION {
        lemma_only_push_grease(fp, before);
    } else {
        assert forall|k: u16| #[trigger] before.contains(k) implies order.contains(k) && (k == x
            ==> x == GREASE_EXTENSION) by {
            let i = choose|i: int| 0 <= i < before.len() && before[i] == k;
            assert(order[i] == k);
        }
        assert(order.contains(x));
        lemma_only_push(fp, before, x);
        lemma_extension(
            list[n],
            FingerprintModel { extensions_order: before.push(x), ..only(fp, before) },
            fp,
        );
        assert(!crate::fingerprint::capture::grease_value(x));
    }
}

proof fn lemma_added(list: Seq<WireExtension>, fp: FingerprintModel, n: int)
    requires
        is_capturable(fp),
        carries(list, fp),
        0 <= n <= list.len(),
    ensures
        added(list.skip(n), only(fp, fp.extensions_order.take(n))) == Ok::<
            FingerprintModel,
            Seq<char>,
        >(fp),
    decreases list.len() - n,
{
    let rest = list.skip(n);
    if n < list.len() {
        lemma_step(list, fp, n);
        lemma_added(list, fp, n + 1);
        assert(rest.drop_first() =~= list.skip(n + 1));
        assert(rest[0] == list[n]);
    } else {
        assert(fp.extensions_order.take(n) =~= fp.extensions_order);
    }
}

/// A ClientHello that carries a fingerprint is captured as that fingerprint,
/// whatever its versions, random bytes, session ID, compression methods, key
/// shares and GREASE values are, and whatever follows the record.
pub proof fn law_capture_gives_back(fp: FingerprintModel, h: WireHello, trailing: Seq<u8>)
    requires
        is_capturable(fp),
        h.is_writable(),
        crate::fingerprint::capture::plain(h.suites) == fp.cipher_suites,
        carries(h.extensions, fp),
    ensures
        crate::fingerprint::capture::client_hello(h.record() + trailing) == Ok::<
            FingerprintModel,
            Seq<char>,
        >(fp),
{
    law_capture_of_written(h, trailing);
    lemma_added(h.extensions, fp, 0);
    assert(h.extensions.skip(0) =~= h.extensions);
    let none = fp.extensions_order.take(0);
    assert(none =~= seq![]);
    assert(only(fp, none) == crate::fingerprint::capture::bare(h.suites));
}

/// What stands in the order for an extension with the given codepoint.
pub open spec fn placed(kind: u16) -> u16 {
    if crate::fingerprint::capture::grease_value(kind) {
        GREASE_EXTENSION
    } else {
        kind
    }
}

/// Whether no GREASE value is among `c`.
pub open spec fn grease_free(c: Seq<u16>) -> bool {
    !crate::fingerprint::capture::has_grease(c)
}

/// What holds of every fingerprint that was captured: its lists hold no GREASE
/// values, its trust-anchor IDs are a proper list, it offers no real ECH
/// configuration, extensions are permuted, and GREASE is on only where a
/// GREASE extension is in the order.
pub open spec fn captured_shape(fp: FingerprintModel) -> bool {
    &&& grease_free(fp.cipher_suites)
    &&& grease_free(fp.extensions_order)
    &&& grease_free(fp.supported_groups)
    &&& grease_free(fp.key_shares)
    &&& grease_free(fp.signature_algorithms)
    &&& fp.is_valid()
    &&& fp.ech is Off || fp.ech is Grease
    &&& fp.permute_extensions
    &&& fp.grease ==> fp.extensions_order.contains(GREASE_EXTENSION)
}

proof fn lemma_plain_is_grease_free(c: Seq<u16>)
    ensures
        grease_free(crate::fingerprint::capture::plain(c)),
{
    let p = crate::fingerprint::capture::plain(c);
    assert forall|i: int| 0 <= i < p.len() implies !crate::fingerprint::capture::grease_value(
        #[trigger] p[i],
    ) by {
        c.lemma_filter_pred(|v: u16| !crate::fingerprint::capture::grease_value(v), i);
    }
}

proof fn lemma_grease_free_add(a: Seq<u16>, b: Seq<u16>)
    requires
        grease_free(a),
        grease_free(b),
    ensures
        grease_free(a + b),
{
    assert forall|i: int| 0 <= i < (a + b).len() implies !crate::fingerprint::capture::grease_value(
        #[trigger] (a + b)[i],
    ) by {
        if i < a.len() {
            assert((a + b)[i] == a[i]);
        } else {
            assert((a + b)[i] == b[i - a.len()]);
        }
    }
}

proof fn lemma_extension_keeps_shape(kind: u16, body: Seq<u8>, fp: FingerprintModel)
    requires
        captured_shape(fp),
    ensures
        crate::fingerprint::capture::extension(kind, body, fp) matches Ok(m) ==> captured_shape(m)
            && m.extensions_order == fp.extensions_order && m.cipher_suites == fp.cipher_suites
            && m.grease == fp.grease,
{
    reveal(crate::fingerprint::capture::extension);
    if kind == 10 {
        if let Ok(g) = crate::fingerprint::capture::supported_groups_in(body) {
            let b = crate::fingerprint::capture::block16(
                body,
                "supported_groups length"@,
                "supported_groups"@,
            )->Ok_0;
            lemma_plain_is_grease_free(crate::fingerprint::capture::codes(b));
            lemma_grease_free_add(fp.supported_groups, g);
        }
    } else if kind == 13 {
        if let Ok(c) = crate::fingerprint::capture::signature_algorithms_in(body) {
            lemma_plain_is_grease_free(c);
            lemma_grease_free_add(
                fp.signature_algorithms,
                crate::fingerprint::capture::plain(c),
            );
        }
    } else if kind == 51 {
        if let Ok(g) = crate::fingerprint::capture::key_shares_in(body) {
            let b = crate::fingerprint::capture::block16(
                body,
                "key_share list length"@,
                "key_share list"@,
            )->Ok_0;
            lemma_plain_is_grease_free(crate::fingerprint::capture::share_groups(b)->Ok_0);
            lemma_grease_free_add(fp.key_shares, g);
        }
    }
}

proof fn lemma_with_extension_keeps_shape(kind: u16, body: Seq<u8>, fp: FingerprintModel)
    requires
        captured_shape(fp),
    ensures
        crate::fingerprint::capture::with_extension(kind, body, fp) matches Ok(m)
            ==> captured_shape(m),
{
    let code = placed(kind);
    assert(seq![code][0] == code);
    assert(grease_free(seq![code])) by {
        crate::fingerprint::capture::law_grease_values(kind);
    }
    lemma_grease_free_add(fp.extensions_order, seq![code]);
    assert(fp.extensions_order.push(code) =~= fp.extensions_order + seq![code]);
    lemma_contains_push(fp.extensions_order, code);
    assert(fp.extensions_order.push(code).contains(code));
    let start = FingerprintModel { extensions_order: fp.extensions_order.push(kind), ..fp };
    if !crate::fingerprint::capture::grease_value(kind) {
        assert(fp.grease ==> start.extensions_order.contains(GREASE_EXTENSION));
        lemma_extension_keeps_shape(kind, body, start);
    }
}

proof fn lemma_extensions_keep_shape(block: Seq<u8>, fp: FingerprintModel)
    requires
        captured_shape(fp),
    ensures
        crate::fingerprint::capture::with_extensions(block, fp) matches Ok(m) ==> captured_shape(m),
    decreases block.len(),
{
    if block.len() > 0 {
        if let Ok((kind, r1)) = crate::fingerprint::capture::take_u16(block, "extension type"@) {
            if let Ok((n, r2)) = crate::fingerprint::capture::take_u16(r1, "extension length"@) {
                if let Ok((body, r3)) = crate::fingerprint::capture::take(
                    r2,
                    n as nat,
                    "extension body"@,
                ) {
                    lemma_with_extension_keeps_shape(kind, body, fp);
                    if let Ok(next) = crate::fingerprint::capture::with_extension(kind, body, fp) {
                        lemma_extensions_keep_shape(r3, next);
                    }
                }
            }
        }
    }
}

/// Every captured fingerprint has the shape of one: no GREASE values in its
/// lists, proper trust-anchor IDs, no real ECH configuration.
pub proof fn law_captured_shape(raw: Seq<u8>)
    ensures
        crate::fingerprint::capture::client_hello(raw) matches Ok(m) ==> captured_shape(m),
{
    reveal(crate::fingerprint::capture::hello);
    assert forall|block: Seq<u8>, suites: Seq<u16>|
        captured_shape(crate::fingerprint::capture::bare(suites)) && (#[trigger] crate::fingerprint::capture::with_extensions(
            block,
            crate::fingerprint::capture::bare(suites),
        ) matches Ok(m) ==> captured_shape(m)) by {
        lemma_plain_is_grease_free(suites);
        lemma_extensions_keep_shape(block, crate::fingerprint::capture::bare(suites));
    }
    assert forall|suites: Seq<u16>|
        captured_shape(#[trigger] crate::fingerprint::capture::bare(suites)) by {
        lemma_plain_is_grease_free(suites);
    }
}

/// What stands in the order for the extensions of `list`.
pub open spec fn order_of(list: Seq<WireExtension>) -> Seq<u16> {
    list.map_values(|e: WireExtension| placed(e.kind))
}

/// Whether one of the extensions has a GREASE codepoint.
pub open spec fn has_grease_extension(list: Seq<WireExtension>) -> bool {
    exists|i: int|
        0 <= i < list.len() && crate::fingerprint::capture::grease_value((#[trigger] list[i]).kind)
}

proof fn lemma_extension_keeps_order(kind: u16, body: Seq<u8>, fp: FingerprintModel)
    ensures
        crate::fingerprint::capture::extension(kind, body, fp) matches Ok(m) ==> m.extensions_order
            == fp.extensions_order && m.cipher_suites == fp.cipher_suites && m.grease == fp.grease,
{
    reveal(crate::fingerprint::capture::extension);
}

proof fn lemma_added_keeps_order(list: Seq<WireExtension>, fp: FingerprintModel)
    ensures
        added(list, fp) matches Ok(m) ==> {
            &&& m.extensions_order == fp.extensions_order + order_of(list)
            &&& m.cipher_suites == fp.cipher_suites
            &&& m.grease == (fp.grease || has_grease_extension(list))
        },
    decreases list.len(),
{
    if list.len() > 0 {
        let first = list[0];
        let rest = list.drop_first();
        let start = FingerprintModel {
            extensions_order: fp.extensions_order.push(first.kind),
            ..fp
        };
        lemma_extension_keeps_order(first.kind, first.body, start);
        if let Ok(next) = crate::fingerprint::capture::with_extension(first.kind, first.body, fp) {
            lemma_added_keeps_order(rest, next);
            assert(next.extensions_order + order_of(rest) =~= fp.extensions_order + order_of(list));
            assert(has_grease_extension(list) == (crate::fingerprint::capture::grease_value(
                first.kind,
            ) || has_grease_extension(rest))) by {
                if has_grease_extension(rest) {
                    let i = choose|i: int|
                        0 <= i < rest.len() && crate::fingerprint::capture::grease_value(
                            (#[trigger] rest[i]).kind,
                        );
                    assert(list[i + 1] == rest[i]);
                }
                if has_grease_extension(list) {
                    let i = choose|i: int|
                        0 <= i < list.len() && crate::fingerprint::capture::grease_value(
                            (#[trigger] list[i]).kind,
                        );
                    if i > 0 {
                        assert(rest[i - 1] == list[i]);
                    }
                }
            }
        }
    } else {
        assert(fp.extensions_order + order_of(list) =~= fp.extensions_order);
    }
}

/// A captured ClientHello keeps its cipher suites and its extensions in wire
/// order: GREASE suites are left out, GREASE extensions become placeholders,
/// and GREASE counts as on where there is such an extension.
pub proof fn law_capture_keeps_order(h: WireHello, trailing: Seq<u8>)
    requires
        h.is_writable(),
    ensures
        crate::fingerprint::capture::client_hello(h.record() + trailing) matches Ok(m) ==> {
            &&& m.extensions_order == order_of(h.extensions)
            &&& m.cipher_suites == crate::fingerprint::capture::plain(h.suites)
            &&& m.grease == has_grease_extension(h.extensions)
        },
{
    law_capture_of_written(h, trailing);
    lemma_added_keeps_order(h.extensions, crate::fingerprint::capture::bare(h.suites));
    assert(seq![] + order_of(h.extensions) =~= order_of(h.extensions));
}

/// The lists of a captured ClientHello hold every codepoint of the wire as
/// often as it stands there, in its order, but for the reserved values: a list
/// without reserved values is captured as it is.
pub proof fn law_captured_suites(h: WireHello, trailing: Seq<u8>, v: u16)
    requires
        h.is_writable(),
    ensures
        crate::fingerprint::capture::client_hello(h.record() + trailing) matches Ok(m) ==> {
            &&& m.cipher_suites.to_multiset().count(v) == (
            if crate::fingerprint::capture::is_reserved(v) {
                0
            } else {
                h.suites.to_multiset().count(v)
            })
            &&& (forall|i: int|
                0 <= i < h.suites.len() ==> !crate::fingerprint::capture::is_reserved(
                    #[trigger] h.suites[i],
                )) ==> m.cipher_suites == h.suites
        },
{
    law_capture_keeps_order(h, trailing);
    crate::fingerprint::capture::law_codepoints_keep_their_number(h.suites, v);
    crate::fingerprint::capture::law_only_reserved_values_are_lost(h.suites, seq![], v);
}

/// An extension with a list of codepoints adds that list, without the reserved
/// values, to the field of its own: groups for 10, signature algorithms for 13,
/// and for 51 the groups of the key shares, whatever the keys are.
pub proof fn law_captured_lists(
    c: Seq<u16>,
    shares: Seq<WireShare>,
    fp: FingerprintModel,
)
    requires
        0 < 2 * c.len() <= 65535,
        keys_fit(shares),
        share_bytes(shares).len() <= 65535,
    ensures
        crate::fingerprint::capture::extension(10, code_list(c), fp) matches Ok(m)
            && m.supported_groups == fp.supported_groups + crate::fingerprint::capture::plain(c),
        crate::fingerprint::capture::extension(13, code_list(c), fp) matches Ok(m)
            && m.signature_algorithms == fp.signature_algorithms
            + crate::fingerprint::capture::plain(c) && m.grease_sigalgs == (fp.grease_sigalgs
            || exists|i: int|
            0 <= i < c.len() && crate::fingerprint::capture::is_reserved(#[trigger] c[i])),
        crate::fingerprint::capture::extension(51, share_list(shares), fp) matches Ok(m)
            && m.key_shares == fp.key_shares + crate::fingerprint::capture::plain(
            shares.map_values(|s: WireShare| s.group),
        ),
{
    reveal(crate::fingerprint::capture::extension);
    lemma_code_list(c);
    lemma_share_list(shares);
    crate::fingerprint::capture::law_grease_is_seen(c);
}

/// Protocol names that were written in UTF-8 are captured as those names: by
/// extension 16 for ALPN, and by 17513 and 17613 for ALPS.
pub proof fn law_captured_names(names: Seq<Seq<char>>, fp: FingerprintModel)
    requires
        crate::lists::fits(names.map_values(|n: Seq<char>| vstd::utf8::encode_utf8(n))),
        crate::lists::encoded(
            names.map_values(|n: Seq<char>| vstd::utf8::encode_utf8(n)),
        ).len() <= 65535,
    ensures
        ({
            let body = name_list(names.map_values(|n: Seq<char>| vstd::utf8::encode_utf8(n)));
            &&& crate::fingerprint::capture::extension(16, body, fp) matches Ok(m) && m.alpn
                == fp.alpn + names
            &&& crate::fingerprint::capture::extension(17513, body, fp) matches Ok(m) && m.alps
                == fp.alps + names
            &&& crate::fingerprint::capture::extension(17613, body, fp) matches Ok(m) && m.alps
                == fp.alps + names
        }),
{
    reveal(crate::fingerprint::capture::extension);
    let items = names.map_values(|n: Seq<char>| vstd::utf8::encode_utf8(n));
    lemma_name_list(items);
    let back = crate::fingerprint::capture::lossy_all(items);
    assert forall|i: int| 0 <= i < names.len() implies back[i] == names[i] by {
        crate::text::law_utf8_reads_back(names[i]);
    }
    assert(back =~= names);
}

/// The algorithms of a compression list are captured in order.
pub proof fn law_captured_algorithms(algs: Seq<CertCompressAlg>, fp: FingerprintModel)
    requires
        2 * algs.len() <= 255,
    ensures
        ({
            let c = algs.map_values(|a: CertCompressAlg| a.wire_code());
            crate::fingerprint::capture::extension(27, short_code_list(c), fp) matches Ok(m)
                && m.compress_certificate == fp.compress_certificate + algs
        }),
{
    reveal(crate::fingerprint::capture::extension);
    let c = algs.map_values(|a: CertCompressAlg| a.wire_code());
    lemma_short_code_list(c);
    lemma_algorithms_back(algs);
}

proof fn lemma_algorithms_back(algs: Seq<CertCompressAlg>)
    ensures
        crate::fingerprint::capture::algorithms(
            algs.map_values(|a: CertCompressAlg| a.wire_code()),
        ) == algs,
    decreases algs.len(),
{
    reveal(Seq::filter_map);
    let c = algs.map_values(|a: CertCompressAlg| a.wire_code());
    if algs.len() > 0 {
        lemma_algorithms_back(algs.drop_last());
        assert(c.drop_last() =~= algs.drop_last().map_values(
            |a: CertCompressAlg| a.wire_code(),
        ));
        crate::fingerprint::spec::law_algorithms_distinct(algs.last(), algs.last());
        assert(algs.drop_last().push(algs.last()) =~= algs);
    } else {
        assert(crate::fingerprint::capture::algorithms(c) =~= algs);
    }
}

/// Whatever is read as key shares is a list of key shares: groups with keys,
/// each key behind its length, and nothing besides.
pub proof fn law_key_shares_are_shares(b: Seq<u8>)
    ensures
        crate::fingerprint::capture::share_groups(b) matches Ok(groups) ==> exists|
            shares: Seq<WireShare>,
        |
            #[trigger] share_bytes(shares) == b && keys_fit(shares) && groups_of(shares) == groups,
    decreases b.len(),
{
    if let Ok(groups) = crate::fingerprint::capture::share_groups(b) {
        if b.len() == 0 {
            let none = Seq::<WireShare>::empty();
            assert(share_bytes(none) =~= b);
            assert(groups_of(none) =~= groups);
            assert(keys_fit(none));
        } else {
            let group = crate::fingerprint::capture::be16(b[0], b[1]);
            let r1 = b.skip(2);
            let n = crate::fingerprint::capture::be16(r1[0], r1[1]);
            let r2 = r1.skip(2);
            let key = r2.take(n as int);
            let r3 = r2.skip(n as int);
            law_key_shares_are_shares(r3);
            let rest = crate::fingerprint::capture::share_groups(r3)->Ok_0;
            let tail = choose|shares: Seq<WireShare>|
                #[trigger] share_bytes(shares) == r3 && keys_fit(shares) && groups_of(shares)
                    == rest;
            let first = WireShare { group, key };
            let all = seq![first] + tail;
            assert(all.drop_first() =~= tail);
            assert(bytes16(group) =~= b.take(2));
            assert(bytes16(n) =~= r1.take(2));
            assert(sized16(key) + r3 =~= r1);
            assert(share_bytes(all) =~= b);
            assert(groups_of(all) =~= groups);
            assert forall|i: int| 0 <= i < all.len() implies (#[trigger] all[i]).key.len()
                <= 65535 by {
                if i > 0 {
                    assert(all[i] == tail[i - 1]);
                }
            }
        }
    }
}

/// Whatever is read as extensions is a list of extensions, each with its
/// codepoint, the length of its contents and its contents, and nothing besides.
pub proof fn law_blocks_are_extensions(block: Seq<u8>, fp: FingerprintModel)
    ensures
        crate::fingerprint::capture::with_extensions(block, fp) is Ok ==> exists|
            list: Seq<WireExtension>,
        |
            #[trigger] extension_bytes(list) == block && bodies_fit(list),
    decreases block.len(),
{
    if crate::fingerprint::capture::with_extensions(block, fp) is Ok {
        if block.len() == 0 {
            let none = Seq::<WireExtension>::empty();
            assert(extension_bytes(none) =~= block);
            assert(bodies_fit(none));
        } else {
            let kind = crate::fingerprint::capture::be16(block[0], block[1]);
            let r1 = block.skip(2);
            let n = crate::fingerprint::capture::be16(r1[0], r1[1]);
            let r2 = r1.skip(2);
            let body = r2.take(n as int);
            let r3 = r2.skip(n as int);
            let next = crate::fingerprint::capture::with_extension(kind, body, fp)->Ok_0;
            law_blocks_are_extensions(r3, next);
            let tail = choose|list: Seq<WireExtension>|
                #[trigger] extension_bytes(list) == r3 && bodies_fit(list);
            let first = WireExtension { kind, body };
            let all = seq![first] + tail;
            assert(all.drop_first() =~= tail);
            assert(bytes16(kind) =~= block.take(2));
            assert(bytes16(n) =~= r1.take(2));
            assert(extension_bytes(all) =~= block);
            assert forall|i: int| 0 <= i < all.len() implies (#[trigger] all[i]).body.len()
                <= 65535 by {
                if i > 0 {
                    assert(all[i] == tail[i - 1]);
                }
            }
        }
    }
}

} // verus!
