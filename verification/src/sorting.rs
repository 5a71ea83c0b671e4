//! Byte strings in order.

use vstd::prelude::*;

use crate::text::views;

verus! {

/// Whether one byte string comes before another or is the same: byte by byte, a
/// string before its extensions.
pub open spec fn bytes_le(a: Seq<u8>, b: Seq<u8>) -> bool
    decreases a.len(),
{
    if a.len() == 0 {
        true
    } else if b.len() == 0 {
        false
    } else if a[0] != b[0] {
        a[0] < b[0]
    } else {
        bytes_le(a.drop_first(), b.drop_first())
    }
}

/// Whether byte strings stand in order.
pub open spec fn is_sorted(s: Seq<Seq<u8>>) -> bool {
    forall|i: int, j: int| 0 <= i <= j < s.len() ==> bytes_le(#[trigger] s[i], #[trigger] s[j])
}

/// The order has every string before or at itself, and of two strings one before or
/// at the other.
pub proof fn law_order_is_total(a: Seq<u8>, b: Seq<u8>)
    ensures
        bytes_le(a, a),
        bytes_le(a, b) || bytes_le(b, a),
    decreases a.len(),
{
    if a.len() > 0 {
        if b.len() > 0 {
            law_order_is_total(a.drop_first(), b.drop_first());
        } else {
            law_order_is_total(a.drop_first(), b);
        }
    }
}

/// Two strings that come before or at each other are the same.
pub proof fn law_order_is_antisymmetric(a: Seq<u8>, b: Seq<u8>)
    requires
        bytes_le(a, b),
        bytes_le(b, a),
    ensures
        a == b,
    decreases a.len(),
{
    if a.len() > 0 && b.len() > 0 {
        law_order_is_antisymmetric(a.drop_first(), b.drop_first());
        assert(a =~= seq![a[0]] + a.drop_first());
        assert(b =~= seq![b[0]] + b.drop_first());
    } else {
        assert(a =~= b);
    }
}

/// What comes before a string comes before what that string comes before.
pub proof fn law_order_is_transitive(a: Seq<u8>, b: Seq<u8>, c: Seq<u8>)
    requires
        bytes_le(a, b),
        bytes_le(b, c),
    ensures
        bytes_le(a, c),
    decreases a.len(),
{
    if a.len() > 0 && b.len() > 0 && c.len() > 0 {
        if a[0] == b[0] && b[0] == c[0] {
            law_order_is_transitive(a.drop_first(), b.drop_first(), c.drop_first());
        }
    }
}

/// Two sorted lists of the same strings are the same list.
pub proof fn law_sorted_list_is_unique(a: Seq<Seq<u8>>, b: Seq<Seq<u8>>)
    requires
        is_sorted(a),
        is_sorted(b),
        a.to_multiset() == b.to_multiset(),
    ensures
        a == b,
    decreases a.len(),
{
    broadcast use vstd::seq_lib::group_to_multiset_ensures;

    a.to_multiset_ensures();
    b.to_multiset_ensures();
    assert(a.len() == b.len());
    if a.len() > 0 {
        let x = a[0];
        let y = b[0];
        assert(a.to_multiset().contains(x) && b.to_multiset().contains(y)) by {
            assert(a.contains(x) && b.contains(y));
        }
        assert(b.contains(x) && a.contains(y));
        let i = choose|i: int| 0 <= i < b.len() && b[i] == x;
        let j = choose|j: int| 0 <= j < a.len() && a[j] == y;
        assert(bytes_le(a[0], a[j]) && bytes_le(b[0], b[i]));
        law_order_is_antisymmetric(x, y);
        assert(a.remove(0) =~= a.drop_first());
        assert(b.remove(0) =~= b.drop_first());
        law_sorted_list_is_unique(a.drop_first(), b.drop_first());
        assert(a =~= seq![a[0]] + a.drop_first());
        assert(b =~= seq![b[0]] + b.drop_first());
    } else {
        assert(a =~= b);
    }
}

fn comes_first(a: &[u8], b: &[u8]) -> (first: bool)
    ensures
        first == bytes_le(a@, b@),
{
    let mut i: usize = 0;
    assert(a@.skip(0) =~= a@ && b@.skip(0) =~= b@);
    while i < a.len() && i < b.len()
        invariant
            i <= a@.len(),
            i <= b@.len(),
            bytes_le(a@, b@) == bytes_le(a@.skip(i as int), b@.skip(i as int)),
        decreases a@.len() - i,
    {
        proof {
            assert(a@.skip(i as int).drop_first() =~= a@.skip(i + 1));
            assert(b@.skip(i as int).drop_first() =~= b@.skip(i + 1));
        }
        if a[i] != b[i] {
            return a[i] < b[i];
        }
        i = i + 1;
    }
    i == a.len()
}

/// The byte strings in order.
pub fn sorted(items: Vec<Vec<u8>>) -> (result: Vec<Vec<u8>>)
    ensures
        is_sorted(views(result@)),
        views(result@).to_multiset() == views(items@).to_multiset(),
{
    broadcast use vstd::seq_lib::group_to_multiset_ensures;

    let mut result: Vec<Vec<u8>> = Vec::new();
    let ghost all = views(items@);
    assert(views(result@) =~= all.take(0));
    for n in 0..items.len()
        invariant
            all == views(items@),
            is_sorted(views(result@)),
            result@.len() == n,
            views(result@).to_multiset() == all.take(n as int).to_multiset(),
    {
        broadcast use vstd::seq_lib::group_to_multiset_ensures;

        let item = vstd::slice::slice_to_vec(items[n].as_slice());
        let ghost before = views(result@);
        let mut place: usize = 0;
        while place < result.len() && !comes_first(item.as_slice(), result[place].as_slice())
            invariant
                place <= result@.len(),
                before == views(result@),
                forall|k: int| 0 <= k < place ==> !bytes_le(item@, #[trigger] before[k]),
            ensures
                place <= result@.len(),
                forall|k: int| 0 <= k < place ==> !bytes_le(item@, #[trigger] before[k]),
                place < result@.len() ==> bytes_le(item@, before[place as int]),
            decreases result@.len() - place,
        {
            place = place + 1;
        }
        let ghost bytes = item@;
        result.insert(place, item);
        proof {
            let after = views(result@);
            assert(after =~= before.insert(place as int, bytes));
            lemma_insert_in_place(before, place as int, bytes);
            assert(all.take(n + 1) =~= all.take(n as int).push(bytes));
        }
    }
    assert(all.take(items@.len() as int) =~= all);
    result
}

/// A string put where it belongs leaves a sorted list sorted.
proof fn lemma_insert_in_place(s: Seq<Seq<u8>>, place: int, item: Seq<u8>)
    requires
        is_sorted(s),
        0 <= place <= s.len(),
        forall|k: int| 0 <= k < place ==> !bytes_le(item, #[trigger] s[k]),
        place < s.len() ==> bytes_le(item, s[place]),
    ensures
        is_sorted(s.insert(place, item)),
        s.insert(place, item).to_multiset() == s.to_multiset().insert(item),
{
    broadcast use vstd::seq_lib::group_to_multiset_ensures;

    let t = s.insert(place, item);
    vstd::seq_lib::to_multiset_insert(s, place, item);
    assert forall|i: int, j: int| 0 <= i <= j < t.len() implies bytes_le(
        #[trigger] t[i],
        #[trigger] t[j],
    ) by {
        law_order_is_total(t[i], t[j]);
        law_order_is_total(item, item);
        if i < place && j == place {
            assert(t[i] == s[i]);
        } else if i == place && j > place {
            assert(t[j] == s[j - 1]);
            law_order_is_transitive(item, s[place], s[j - 1]);
        } else if i < place && j > place {
            assert(t[i] == s[i] && t[j] == s[j - 1]);
        } else if i > place {
            assert(t[i] == s[i - 1] && t[j] == s[j - 1]);
        }
    }
}

} // verus!
