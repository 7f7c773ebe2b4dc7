//! What is told of a store of trusted certificates.

use crate::context::Context;
use crate::store::{slot_certificate, slot_is, StoreEntry};
use vstd::prelude::*;

verus! {

/// A store is told of part by part: what two stores hold one after the other
/// is what each of them holds, in order.
pub proof fn law_stores_add_up(
    c: &Context,
    a: &Vec<Option<StoreEntry>>,
    b: &Vec<Option<StoreEntry>>,
    both: &Vec<Option<StoreEntry>>,
    of_a: Vec<Vec<u8>>,
    of_b: Vec<Vec<u8>>,
    of_both: Vec<Vec<u8>>,
    na: (usize, usize),
    nb: (usize, usize),
    nboth: (usize, usize),
)
    requires
        both@ == a@ + b@,
        call_ensures(Context::ca_certs_der, (c, a), of_a),
        call_ensures(Context::ca_certs_der, (c, b), of_b),
        call_ensures(Context::ca_certs_der, (c, both), of_both),
        call_ensures(Context::cert_store_counts, (c, a), na),
        call_ensures(Context::cert_store_counts, (c, b), nb),
        call_ensures(Context::cert_store_counts, (c, both), nboth),
    ensures
        crate::plan::byte_strings(of_both@) == crate::plan::byte_strings(of_a@)
            + crate::plan::byte_strings(of_b@),
        nboth.0 == na.0 + nb.0,
        nboth.1 == na.1 + nb.1,
{
    lemma_picked_adds_up(a@, b@);
    Seq::filter_distributes_over_add(a@, b@, |s: Option<StoreEntry>| slot_is(s, 1));
    Seq::filter_distributes_over_add(a@, b@, |s: Option<StoreEntry>| slot_is(s, 2));
}

proof fn lemma_picked_adds_up(a: Seq<Option<StoreEntry>>, b: Seq<Option<StoreEntry>>)
    ensures
        (a + b).filter_map(|s: Option<StoreEntry>| slot_certificate(s)) == a.filter_map(
            |s: Option<StoreEntry>| slot_certificate(s),
        ) + b.filter_map(|s: Option<StoreEntry>| slot_certificate(s)),
    decreases b.len(),
{
    reveal(Seq::filter_map);
    let f = |s: Option<StoreEntry>| slot_certificate(s);
    if b.len() > 0 {
        lemma_picked_adds_up(a, b.drop_last());
        assert((a + b).drop_last() =~= a + b.drop_last());
        assert((a + b).filter_map(f) =~= a.filter_map(f) + b.filter_map(f));
    } else {
        assert(a + b =~= a);
        assert((a + b).filter_map(f) =~= a.filter_map(f) + b.filter_map(f));
    }
}

/// One slot: an object of kind 1 counts as a certificate and one of kind 2 as a
/// revocation list. A certificate is listed by its bytes exactly where the
/// engine announced some and wrote as many; nothing else is listed.
pub proof fn law_one_slot(
    c: &Context,
    slot: Option<StoreEntry>,
    slots: &Vec<Option<StoreEntry>>,
    listed: Vec<Vec<u8>>,
    n: (usize, usize),
)
    requires
        slots@ == seq![slot],
        call_ensures(Context::ca_certs_der, (c, slots), listed),
        call_ensures(Context::cert_store_counts, (c, slots), n),
    ensures
        n.0 == (if slot matches Some(e) && e.kind == 1 {
            1int
        } else {
            0
        }),
        n.1 == (if slot matches Some(e) && e.kind == 2 {
            1int
        } else {
            0
        }),
        ({
            let whole = slot matches Some(e) && e.kind == 1 && (e.encoding matches Some(w)
                && w.announced > 0 && w.announced == w.written);
            &&& listed@.len() == (if whole {
                1int
            } else {
                0
            })
            &&& whole ==> listed@[0]@ == slot->Some_0.encoding->Some_0.der@
        }),
{
    reveal(Seq::filter_map);
    reveal(Seq::filter);
    let f = |s: Option<StoreEntry>| slot_certificate(s);
    let none = slots@.drop_last();
    assert(none =~= seq![]);
    assert(slots@.last() == slot);
    assert(none.filter_map(f) =~= seq![]);
    assert(none.filter(|s: Option<StoreEntry>| slot_is(s, 1)) =~= seq![]);
    assert(none.filter(|s: Option<StoreEntry>| slot_is(s, 2)) =~= seq![]);
    let bytes = crate::plan::byte_strings(listed@);
    assert(bytes.len() == listed@.len());
    assert(bytes == slots@.filter_map(f));
    if listed@.len() > 0 {
        assert(bytes[0] == listed@[0]@);
    }
}

} // verus!
