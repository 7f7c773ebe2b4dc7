//! What a context's store of trusted certificates holds.

use crate::context::Context;
use vstd::prelude::*;

verus! {

/// The engine's number for a store object that is a certificate.
pub const KIND_CERTIFICATE: i32 = 1;

/// The engine's number for a store object that is a revocation list.
pub const KIND_REVOCATION_LIST: i32 = 2;

/// What the engine returned for a certificate: the length it announced, the
/// length it then wrote, and the bytes.
#[derive(Debug)]
pub struct Encoding {
    pub announced: i32,
    pub written: i32,
    pub der: Vec<u8>,
}

/// An object of a store.
#[derive(Debug)]
pub struct StoreEntry {
    pub kind: i32,
    /// The certificate, where the object holds one.
    pub encoding: Option<Encoding>,
}

impl StoreEntry {
    /// The bytes of the certificate, where the object is one and the engine
    /// wrote all of it.
    pub open spec fn certificate(self) -> Option<Seq<u8>> {
        match self.encoding {
            Some(e) if self.kind == KIND_CERTIFICATE && e.announced > 0 && e.written
                == e.announced => Some(e.der@),
            _ => None,
        }
    }
}

/// The bytes of the certificate in a slot of a store.
pub open spec fn slot_certificate(slot: Option<StoreEntry>) -> Option<Seq<u8>> {
    match slot {
        Some(entry) => entry.certificate(),
        None => None,
    }
}

/// Whether a slot of a store holds an object of the given kind.
pub open spec fn slot_is(slot: Option<StoreEntry>, kind: i32) -> bool {
    slot matches Some(entry) && entry.kind == kind
}

/// How many slots hold an object of the given kind.
pub open spec fn count_of(slots: Seq<Option<StoreEntry>>, kind: i32) -> nat {
    slots.filter(|s: Option<StoreEntry>| slot_is(s, kind)).len()
}

impl Context {
    /// The certificates of a store, in order. Objects of other kinds, empty slots
    /// and certificates that the engine could not write are left out.
    pub fn ca_certs_der(&self, slots: &Vec<Option<StoreEntry>>) -> (r: Vec<Vec<u8>>)
        ensures
            crate::plan::byte_strings(r@) == slots@.filter_map(
                |s: Option<StoreEntry>| slot_certificate(s),
            ),
    {
        let ghost pick = |s: Option<StoreEntry>| slot_certificate(s);
        let mut out: Vec<Vec<u8>> = Vec::new();
        let mut i: usize = 0;
        proof {
            reveal(Seq::filter_map);
            assert(crate::plan::byte_strings(out@) =~= slots@.take(0).filter_map(pick));
        }
        while i < slots.len()
            invariant
                i <= slots@.len(),
                pick == |s: Option<StoreEntry>| slot_certificate(s),
                crate::plan::byte_strings(out@) == slots@.take(i as int).filter_map(pick),
            decreases slots@.len() - i,
        {
            let ghost before = out@;
            proof {
                reveal(Seq::filter_map);
                assert(slots@.take(i + 1).drop_last() =~= slots@.take(i as int));
                assert(pick(slots@[i as int]) == slot_certificate(slots@[i as int]));
            }
            match &slots[i] {
                Some(entry) => if entry.kind == KIND_CERTIFICATE {
                    match &entry.encoding {
                        Some(e) => if e.announced > 0 && e.written == e.announced {
                            out.push(vstd::slice::slice_to_vec(e.der.as_slice()));
                            assert(crate::plan::byte_strings(out@) =~= crate::plan::byte_strings(
                                before,
                            ).push(e.der@));
                        },
                        None => {},
                    }
                },
                None => {},
            }
            i = i + 1;
        }
        assert(slots@.take(i as int) =~= slots@);
        out
    }

    /// How many certificates and how many revocation lists a store holds.
    pub fn cert_store_counts(&self, slots: &Vec<Option<StoreEntry>>) -> (r: (usize, usize))
        ensures
            r.0 == count_of(slots@, KIND_CERTIFICATE),
            r.1 == count_of(slots@, KIND_REVOCATION_LIST),
    {
        let mut x509: usize = 0;
        let mut crl: usize = 0;
        let mut i: usize = 0;
        proof {
            reveal(Seq::filter);
        }
        while i < slots.len()
            invariant
                i <= slots@.len(),
                x509 <= i,
                crl <= i,
                x509 == count_of(slots@.take(i as int), KIND_CERTIFICATE),
                crl == count_of(slots@.take(i as int), KIND_REVOCATION_LIST),
            decreases slots@.len() - i,
        {
            proof {
                reveal(Seq::filter);
                assert(slots@.take(i + 1).drop_last() =~= slots@.take(i as int));
                assert(slots@.take(i + 1).last() == slots@[i as int]);
            }
            match &slots[i] {
                Some(entry) => if entry.kind == KIND_CERTIFICATE {
                    x509 = x509 + 1;
                } else if entry.kind == KIND_REVOCATION_LIST {
                    crl = crl + 1;
                },
                None => {},
            }
            i = i + 1;
        }
        assert(slots@.take(i as int) =~= slots@);
        (x509, crl)
    }
}

proof fn lemma_fewer_picked(slots: Seq<Option<StoreEntry>>)
    ensures
        slots.filter_map(|s: Option<StoreEntry>| slot_certificate(s)).len() <= count_of(
            slots,
            KIND_CERTIFICATE,
        ) <= slots.len(),
    decreases slots.len(),
{
    reveal(Seq::filter);
    reveal(Seq::filter_map);
    if slots.len() > 0 {
        lemma_fewer_picked(slots.drop_last());
    }
}

/// The list of certificates is never longer than the count of certificates
/// says, and the two counts together cover no slot twice.
pub proof fn law_counts_bound_the_list(slots: Seq<Option<StoreEntry>>)
    ensures
        slots.filter_map(|s: Option<StoreEntry>| slot_certificate(s)).len() <= count_of(
            slots,
            KIND_CERTIFICATE,
        ),
        count_of(slots, KIND_CERTIFICATE) + count_of(slots, KIND_REVOCATION_LIST) <= slots.len(),
    decreases slots.len(),
{
    lemma_fewer_picked(slots);
    reveal(Seq::filter);
    if slots.len() > 0 {
        law_counts_bound_the_list(slots.drop_last());
    }
}

} // verus!
