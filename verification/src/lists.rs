//! Lists of byte strings in which each item is preceded by its length in one
//! byte: the format of ALPN protocol lists and of trust-anchor IDs.

use vstd::prelude::*;

verus! {

/// Whether every item fits behind a one-byte length.
pub open spec fn fits(items: Seq<Seq<u8>>) -> bool {
    forall|i: int| 0 <= i < items.len() ==> (#[trigger] items[i]).len() <= 255
}

/// Whether every item is between 1 and 255 bytes long.
pub open spec fn proper(items: Seq<Seq<u8>>) -> bool {
    forall|i: int| 0 <= i < items.len() ==> 1 <= (#[trigger] items[i]).len() <= 255
}

/// One item with its length in front.
pub open spec fn prefixed(item: Seq<u8>) -> Seq<u8> {
    seq![item.len() as u8] + item
}

/// The items of a list, each with its length in front.
pub open spec fn encoded(items: Seq<Seq<u8>>) -> Seq<u8>
    decreases items.len(),
{
    if items.len() == 0 {
        seq![]
    } else {
        prefixed(items[0]) + encoded(items.drop_first())
    }
}

/// The items of the longest prefix of `bytes` that is a list.
pub open spec fn leading_items(bytes: Seq<u8>) -> Seq<Seq<u8>>
    decreases bytes.len(),
{
    if bytes.len() == 0 || bytes.len() < 1 + bytes[0] {
        seq![]
    } else {
        seq![bytes.subrange(1, 1 + bytes[0])] + leading_items(bytes.skip(1 + bytes[0]))
    }
}

/// Whether `bytes` as a whole is a list.
pub open spec fn is_list(bytes: Seq<u8>) -> bool
    decreases bytes.len(),
{
    bytes.len() == 0 || (bytes.len() >= 1 + bytes[0] && is_list(bytes.skip(1 + bytes[0])))
}

/// Encoding a list and splitting the bytes again gives the same items.
pub proof fn law_split_of_encoded(items: Seq<Seq<u8>>)
    requires
        fits(items),
    ensures
        is_list(encoded(items)),
        leading_items(encoded(items)) == items,
    decreases items.len(),
{
    if items.len() > 0 {
        let rest = items.drop_first();
        assert forall|i: int| 0 <= i < rest.len() implies (#[trigger] rest[i]).len() <= 255 by {
            assert(rest[i] == items[i + 1]);
        }
        law_split_of_encoded(rest);
        let b = encoded(items);
        assert(items[0].len() <= 255);
        assert(b[0] == items[0].len());
        assert(b.subrange(1, 1 + b[0]) =~= items[0]);
        assert(b.skip(1 + b[0]) =~= encoded(rest));
        assert(items =~= seq![items[0]] + rest);
    } else {
        assert(leading_items(encoded(items)) =~= items);
    }
}

/// Splitting a list and encoding the items again gives the same bytes.
pub proof fn law_encoded_of_split(bytes: Seq<u8>)
    requires
        is_list(bytes),
    ensures
        fits(leading_items(bytes)),
        encoded(leading_items(bytes)) == bytes,
    decreases bytes.len(),
{
    if bytes.len() > 0 {
        let first = bytes.subrange(1, 1 + bytes[0]);
        let rest = bytes.skip(1 + bytes[0]);
        law_encoded_of_split(rest);
        let items = leading_items(bytes);
        assert(items.drop_first() =~= leading_items(rest));
        assert(items[0] == first);
        assert(prefixed(first) + rest =~= bytes);
        assert forall|i: int| 0 <= i < items.len() implies (#[trigger] items[i]).len() <= 255 by {
            if i > 0 {
                assert(items[i] == leading_items(rest)[i - 1]);
            }
        }
    } else {
        assert(encoded(leading_items(bytes)) =~= bytes);
    }
}

/// One more item stands behind the others, with its length in front of it.
pub proof fn law_one_more_item(items: Seq<Seq<u8>>, item: Seq<u8>)
    ensures
        encoded(Seq::<Seq<u8>>::empty()) == Seq::<u8>::empty(),
        encoded(items.push(item)) == encoded(items) + (seq![item.len() as u8] + item),
    decreases items.len(),
{
    let all = items.push(item);
    assert(encoded(Seq::<Seq<u8>>::empty()) =~= seq![]);
    if items.len() > 0 {
        law_one_more_item(items.drop_first(), item);
        assert(all.drop_first() =~= items.drop_first().push(item));
        assert(encoded(all) =~= encoded(items) + (seq![item.len() as u8] + item));
    } else {
        assert(all.drop_first() =~= seq![]);
        assert(encoded(all) =~= encoded(items) + (seq![item.len() as u8] + item));
    }
}

} // verus!
