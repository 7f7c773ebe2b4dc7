//! ALPN protocol lists: writing one for the wire, and choosing from what a
//! client offers.

use vstd::prelude::*;

verus! {

/// The bytes of each name.
pub open spec fn name_bytes(names: Seq<Seq<char>>) -> Seq<Seq<u8>> {
    names.map_values(|n: Seq<char>| vstd::utf8::encode_utf8(n))
}

/// Whether an item can stand in a protocol list.
pub open spec fn item_fits(item: Seq<u8>) -> bool {
    1 <= item.len() <= 255
}

/// The position of the first item that cannot stand in a protocol list; the
/// length of the list where all can.
pub open spec fn first_misfit(items: Seq<Seq<u8>>) -> int
    decreases items.len(),
{
    if items.len() == 0 || !item_fits(items[0]) {
        0
    } else {
        1 + first_misfit(items.drop_first())
    }
}

proof fn lemma_first_misfit(items: Seq<Seq<u8>>, i: int)
    requires
        0 <= i <= items.len(),
        forall|j: int| 0 <= j < i ==> item_fits(#[trigger] items[j]),
        i < items.len() ==> !item_fits(items[i]),
    ensures
        first_misfit(items) == i,
        crate::lists::proper(items) == (i == items.len()),
    decreases items.len(),
{
    if i > 0 {
        let rest = items.drop_first();
        assert forall|j: int| 0 <= j < i - 1 implies item_fits(#[trigger] rest[j]) by {
            assert(rest[j] == items[j + 1]);
        }
        lemma_first_misfit(rest, i - 1);
        assert(item_fits(items[0]));
    }
    if i < items.len() {
        assert(!(1 <= items[i].len() <= 255));
    }
}

proof fn lemma_encoded_push(items: Seq<Seq<u8>>, item: Seq<u8>)
    ensures
        crate::lists::encoded(items.push(item)) == crate::lists::encoded(items)
            + crate::lists::prefixed(item),
    decreases items.len(),
{
    let all = items.push(item);
    if items.len() > 0 {
        lemma_encoded_push(items.drop_first(), item);
        assert(all.drop_first() =~= items.drop_first().push(item));
        assert(crate::lists::encoded(all) =~= crate::lists::encoded(items)
            + crate::lists::prefixed(item));
    } else {
        assert(crate::lists::encoded(all.drop_first()) =~= seq![]);
        assert(all[0] == item);
        assert(crate::lists::encoded(all) =~= crate::lists::encoded(items)
            + crate::lists::prefixed(item));
    }
}

/// Writes a protocol list, each item behind its length. Where an item is
/// empty or longer than 255 bytes, the position of the first such one comes
/// back.
pub fn encode(items: &[Vec<u8>]) -> (r: Result<Vec<u8>, usize>)
    ensures
        ({
            let all = crate::plan::byte_strings(items@);
            if crate::lists::proper(all) {
                r matches Ok(wire) && wire@ == crate::lists::encoded(all)
            } else {
                r matches Err(i) && i == first_misfit(all) && i < items@.len()
            }
        }),
{
    let ghost all = crate::plan::byte_strings(items@);
    let mut wire: Vec<u8> = Vec::new();
    let mut i: usize = 0;
    while i < items.len()
        invariant
            i <= items@.len(),
            all == crate::plan::byte_strings(items@),
            wire@ == crate::lists::encoded(all.take(i as int)),
            forall|j: int| 0 <= j < i ==> item_fits(#[trigger] all[j]),
        decreases items@.len() - i,
    {
        let n: usize = items[i].len();
        assert(all[i as int] == items@[i as int]@);
        if n == 0 || n > 255 {
            proof {
                lemma_first_misfit(all, i as int);
            }
            return Err(i);
        }
        let ghost before = wire@;
        wire.push(n as u8);
        wire.extend_from_slice(items[i].as_slice());
        proof {
            lemma_encoded_push(all.take(i as int), all[i as int]);
            assert(all.take(i + 1) =~= all.take(i as int).push(all[i as int]));
            assert(wire@ =~= before + crate::lists::prefixed(all[i as int]));
        }
        i = i + 1;
    }
    proof {
        lemma_first_misfit(all, i as int);
        assert(all.take(i as int) =~= all);
    }
    Ok(wire)
}

/// The bytes of each of the given strings.
pub(crate) fn bytes_of(names: &Vec<String>) -> (r: Vec<Vec<u8>>)
    ensures
        crate::plan::byte_strings(r@) == name_bytes(crate::text::texts(names@)),
{
    let mut out: Vec<Vec<u8>> = Vec::new();
    let mut i: usize = 0;
    while i < names.len()
        invariant
            i <= names@.len(),
            out@.len() == i,
            forall|j: int|
                0 <= j < i ==> (#[trigger] out@[j])@ == vstd::utf8::encode_utf8(names@[j]@),
        decreases names@.len() - i,
    {
        out.push(vstd::slice::slice_to_vec(names[i].as_str().as_bytes()));
        i = i + 1;
    }
    assert(crate::plan::byte_strings(out@) =~= name_bytes(crate::text::texts(names@)));
    out
}

// -------------------------------------------------------------- choosing

/// Whether two byte strings are equal.
pub(crate) fn same_bytes(a: &[u8], b: &[u8]) -> (r: bool)
    ensures
        r == (a@ == b@),
{
    if a.len() != b.len() {
        return false;
    }
    let mut i: usize = 0;
    while i < a.len()
        invariant
            i <= a@.len(),
            a@.len() == b@.len(),
            forall|j: int| 0 <= j < i ==> a@[j] == b@[j],
        decreases a@.len() - i,
    {
        if a[i] != b[i] {
            return false;
        }
        i = i + 1;
    }
    assert(a@ =~= b@);
    true
}

/// The first of `prefs` that is among the offers of a client.
pub open spec fn chosen(prefs: Seq<Seq<u8>>, offers: Seq<Seq<u8>>) -> Option<Seq<u8>>
    decreases prefs.len(),
{
    if prefs.len() == 0 {
        None
    } else if offers.contains(prefs[0]) {
        Some(prefs[0])
    } else {
        chosen(prefs.drop_first(), offers)
    }
}

/// Whether a client's list, as far as it is well-formed, offers `pref`.
fn is_offered(pref: &[u8], client: &[u8]) -> (r: bool)
    ensures
        r == crate::lists::leading_items(client@).contains(pref@),
{
    let mut i: usize = 0;
    assert(client@.skip(0) =~= client@);
    while i < client.len()
        invariant
            i <= client@.len(),
            crate::lists::leading_items(client@).contains(pref@) == crate::lists::leading_items(
                client@.skip(i as int),
            ).contains(pref@),
        decreases client@.len() - i,
    {
        let ghost left = client@.skip(i as int);
        let len: usize = client[i] as usize;
        assert(left[0] == len);
        if client.len() - i < 1 + len {
            assert(!crate::lists::leading_items(left).contains(pref@));
            return false;
        }
        let ghost first = left.subrange(1, 1 + len);
        let ghost rest = crate::lists::leading_items(left.skip(1 + len));
        proof {
            let items = crate::lists::leading_items(left);
            assert(items == seq![first] + rest);
            assert(items[0] == first);
            if rest.contains(pref@) {
                let j = choose|j: int| 0 <= j < rest.len() && rest[j] == pref@;
                assert(items[j + 1] == pref@);
            }
            if items.contains(pref@) {
                let j = choose|j: int| 0 <= j < items.len() && items[j] == pref@;
                if j > 0 {
                    assert(rest[j - 1] == pref@);
                }
            }
        }
        let item = vstd::slice::slice_subrange(client, i + 1, i + 1 + len);
        assert(item@ =~= first);
        if same_bytes(item, pref) {
            return true;
        }
        assert(left.skip(1 + len) =~= client@.skip(i + 1 + len));
        i = i + 1 + len;
    }
    assert(client@.skip(i as int) =~= seq![]);
    assert(!crate::lists::leading_items(client@.skip(i as int)).contains(pref@));
    false
}

/// The first of `prefs` that the client offers. The client's list is read as
/// far as it is well-formed.
pub fn select(prefs: &Vec<Vec<u8>>, client: &[u8]) -> (r: Option<Vec<u8>>)
    ensures
        crate::fingerprint::spec::opt_bytes(r) == chosen(
            crate::plan::byte_strings(prefs@),
            crate::lists::leading_items(client@),
        ),
{
    let ghost all = crate::plan::byte_strings(prefs@);
    let ghost offers = crate::lists::leading_items(client@);
    let mut i: usize = 0;
    assert(all.skip(0) =~= all);
    while i < prefs.len()
        invariant
            i <= prefs@.len(),
            all == crate::plan::byte_strings(prefs@),
            offers == crate::lists::leading_items(client@),
            chosen(all, offers) == chosen(all.skip(i as int), offers),
        decreases prefs@.len() - i,
    {
        assert(all.skip(i as int)[0] == prefs@[i as int]@);
        assert(all.skip(i as int).drop_first() =~= all.skip(i + 1));
        if is_offered(prefs[i].as_slice(), client) {
            return Some(vstd::slice::slice_to_vec(prefs[i].as_slice()));
        }
        i = i + 1;
    }
    None
}

/// The code for a selection that succeeded.
pub const SELECT_OK: i32 = 0;

/// The code for a selection that names no protocol; the handshake goes on
/// without ALPN.
pub const SELECT_NOACK: i32 = 3;

/// What a server's selection callback answers: a code, and the protocol where
/// there is one. Without a preference list, or without a common protocol,
/// none is named and the handshake is not aborted.
pub fn select_reply(prefs: Option<&Vec<Vec<u8>>>, client: &[u8]) -> (r: (i32, Option<Vec<u8>>))
    ensures
        crate::fingerprint::spec::opt_bytes(r.1) == match prefs {
            Some(p) => chosen(
                crate::plan::byte_strings(p@),
                crate::lists::leading_items(client@),
            ),
            None => None,
        },
        r.0 == if r.1 is Some {
            SELECT_OK
        } else {
            SELECT_NOACK
        },
{
    match prefs {
        Some(p) => match select(p, client) {
            Some(name) => (SELECT_OK, Some(name)),
            None => (SELECT_NOACK, None),
        },
        None => (SELECT_NOACK, None),
    }
}

/// The protocol that is chosen is one that both sides have, and no protocol
/// before it in the server's order is offered. None is chosen exactly where
/// the two lists have nothing in common.
pub proof fn law_first_preference_wins(prefs: Seq<Seq<u8>>, offers: Seq<Seq<u8>>)
    ensures
        match chosen(prefs, offers) {
            Some(p) => offers.contains(p) && exists|i: int|
                0 <= i < prefs.len() && #[trigger] prefs[i] == p && (forall|j: int|
                    0 <= j < i ==> !offers.contains(#[trigger] prefs[j])),
            None => forall|i: int| 0 <= i < prefs.len() ==> !offers.contains(#[trigger] prefs[i]),
        },
    decreases prefs.len(),
{
    if prefs.len() > 0 {
        if offers.contains(prefs[0]) {
            assert(prefs[0] == chosen(prefs, offers)->Some_0);
        } else {
            let rest = prefs.drop_first();
            law_first_preference_wins(rest, offers);
            match chosen(rest, offers) {
                Some(p) => {
                    let i = choose|i: int|
                        0 <= i < rest.len() && #[trigger] rest[i] == p && (forall|j: int|
                            0 <= j < i ==> !offers.contains(#[trigger] rest[j]));
                    assert(prefs[i + 1] == p);
                    assert forall|j: int| 0 <= j < i + 1 implies !offers.contains(
                        #[trigger] prefs[j],
                    ) by {
                        if j > 0 {
                            assert(prefs[j] == rest[j - 1]);
                        }
                    }
                },
                None => {
                    assert forall|i: int| 0 <= i < prefs.len() implies !offers.contains(
                        #[trigger] prefs[i],
                    ) by {
                        if i > 0 {
                            assert(prefs[i] == rest[i - 1]);
                        }
                    }
                },
            }
        }
    }
}

/// A client's list that was written with [`encode`] is read back as what it
/// offers, so the choice is made among exactly those protocols.
pub proof fn law_choice_from_encoded(prefs: Seq<Seq<u8>>, offers: Seq<Seq<u8>>)
    requires
        crate::lists::proper(offers),
    ensures
        chosen(prefs, crate::lists::leading_items(crate::lists::encoded(offers))) == chosen(
            prefs,
            offers,
        ),
{
    crate::lists::law_split_of_encoded(offers);
}

/// The first item that cannot stand in a protocol list is empty or longer than
/// 255 bytes, and none before it is; where there is no such item, every item
/// is between 1 and 255 bytes long.
pub proof fn law_first_misfit(items: Seq<Seq<u8>>)
    ensures
        0 <= first_misfit(items) <= items.len(),
        forall|i: int|
            0 <= i < first_misfit(items) ==> 1 <= (#[trigger] items[i]).len() <= 255,
        first_misfit(items) < items.len() ==> items[first_misfit(items)].len() == 0
            || items[first_misfit(items)].len() > 255,
    decreases items.len(),
{
    if items.len() > 0 && item_fits(items[0]) {
        let rest = items.drop_first();
        law_first_misfit(rest);
        assert forall|i: int| 0 <= i < first_misfit(items) implies 1 <= (
        #[trigger] items[i]).len() <= 255 by {
            if i > 0 {
                assert(items[i] == rest[i - 1]);
            }
        }
    }
}

/// What comes back for a list that is written: the bytes where every item can
/// stand in it, else the place of the first that cannot.
pub proof fn law_encoding(items: &[Vec<u8>], r: Result<Vec<u8>, usize>)
    requires
        call_ensures(encode, (items,), r),
    ensures
        r is Ok <==> forall|i: int| 0 <= i < items@.len() ==> 1 <= (#[trigger] items@[i])@.len()
            <= 255,
        r matches Ok(wire) ==> crate::lists::leading_items(wire@) == items@.map_values(
            |b: Vec<u8>| b@,
        ) && crate::lists::is_list(wire@),
        r matches Err(i) ==> i < items@.len() && (items@[i as int]@.len() == 0
            || items@[i as int]@.len() > 255),
{
    let all = crate::plan::byte_strings(items@);
    assert(all =~= items@.map_values(|b: Vec<u8>| b@));
    law_first_misfit(all);
    if crate::lists::proper(all) {
        crate::lists::law_split_of_encoded(all);
        assert forall|i: int| 0 <= i < items@.len() implies 1 <= (#[trigger] items@[i])@.len()
            <= 255 by {
            assert(all[i] == items@[i]@);
        }
    } else {
        let i = choose|i: int| 0 <= i < all.len() && !(1 <= (#[trigger] all[i]).len() <= 255);
        assert(all[i] == items@[i]@);
        assert(!(1 <= items@[i]@.len() <= 255));
    }
}

/// A server answers with the first of its protocols that the client offers,
/// and never aborts: without one in common it names none. Nothing is chosen
/// that the client did not offer.
pub proof fn law_selection(
    prefs: &Vec<Vec<u8>>,
    client: &[u8],
    chosen_name: Option<Vec<u8>>,
    reply: (i32, Option<Vec<u8>>),
    without: (i32, Option<Vec<u8>>),
)
    requires
        call_ensures(select, (prefs, client), chosen_name),
        call_ensures(select_reply, (Some(prefs), client), reply),
        call_ensures(select_reply, (None, client), without),
    ensures
        without.0 == 3 && without.1 is None,
        reply.0 == (if reply.1 is Some {
            0int
        } else {
            3
        }),
        reply.1 is Some <==> chosen_name is Some,
        reply.1 matches Some(n) ==> n@ == chosen_name->Some_0@,
        reply.1 matches Some(n) ==> crate::lists::leading_items(client@).contains(n@) && exists|
            i: int,
        |
            0 <= i < prefs@.len() && (#[trigger] prefs@[i])@ == n@ && forall|j: int|
                0 <= j < i ==> !crate::lists::leading_items(client@).contains(
                    (#[trigger] prefs@[j])@,
                ),
        reply.1 is None ==> forall|j: int|
            0 <= j < prefs@.len() ==> !crate::lists::leading_items(client@).contains(
                (#[trigger] prefs@[j])@,
            ),
{
    let all = crate::plan::byte_strings(prefs@);
    let offers = crate::lists::leading_items(client@);
    law_first_preference_wins(all, offers);
    assert(all.len() == prefs@.len());
    assert forall|j: int| 0 <= j < prefs@.len() implies all[j] == (#[trigger] prefs@[j])@ by {}
    match chosen(all, offers) {
        Some(p) => {
            let i = choose|i: int|
                0 <= i < all.len() && all[i] == p && forall|j: int|
                    0 <= j < i ==> !offers.contains(#[trigger] all[j]);
            assert(prefs@[i]@ == p);
        },
        None => {
            assert forall|j: int| 0 <= j < prefs@.len() implies !offers.contains(
                (#[trigger] prefs@[j])@,
            ) by {
                assert(all[j] == prefs@[j]@);
            }
        },
    }
}

} // verus!
