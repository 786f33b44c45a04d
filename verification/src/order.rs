//! The order of texts, and sorting.

use vstd::prelude::*;
use crate::outside::texts;
use crate::text::chars_of;

verus! {

/// `a` stands before `b` or equals it: the first characters that differ decide, and
/// a text stands before its continuations.
pub open spec fn text_le(a: Seq<char>, b: Seq<char>) -> bool
    decreases a.len(),
{
    if a.len() == 0 {
        true
    } else if b.len() == 0 {
        false
    } else if a[0] != b[0] {
        a[0] < b[0]
    } else {
        text_le(a.skip(1), b.skip(1))
    }
}

/// Each text stands before the later ones or equals them.
pub open spec fn is_sorted(list: Seq<Seq<char>>) -> bool {
    forall|i: int, j: int| 0 <= i <= j < list.len() ==> text_le(#[trigger] list[i], #[trigger] list[j])
}

/// Of two texts one stands before the other or they are equal.
pub proof fn lemma_total(a: Seq<char>, b: Seq<char>)
    ensures
        text_le(a, b) || text_le(b, a),
    decreases a.len(),
{
    if a.len() > 0 && b.len() > 0 && a[0] == b[0] {
        lemma_total(a.skip(1), b.skip(1));
    }
}

/// The order is transitive.
pub proof fn lemma_transitive(a: Seq<char>, b: Seq<char>, c: Seq<char>)
    requires
        text_le(a, b),
        text_le(b, c),
    ensures
        text_le(a, c),
    decreases a.len(),
{
    if a.len() > 0 && b.len() > 0 && c.len() > 0 && a[0] == b[0] && b[0] == c[0] {
        lemma_transitive(a.skip(1), b.skip(1), c.skip(1));
    }
}

/// Two texts that each stand before the other are equal.
pub proof fn lemma_antisymmetric(a: Seq<char>, b: Seq<char>)
    requires
        text_le(a, b),
        text_le(b, a),
    ensures
        a == b,
    decreases a.len(),
{
    if a.len() > 0 && b.len() > 0 {
        lemma_antisymmetric(a.skip(1), b.skip(1));
        assert(a =~= seq![a[0]] + a.skip(1));
        assert(b =~= seq![b[0]] + b.skip(1));
    } else {
        assert(a =~= b);
    }
}

/// There is only one way to sort texts: two sorted lists of the same texts are the
/// same list.
pub proof fn law_sorting_is_unique(a: Seq<Seq<char>>, b: Seq<Seq<char>>)
    requires
        is_sorted(a),
        is_sorted(b),
        a.to_multiset() == b.to_multiset(),
    ensures
        a == b,
    decreases a.len(),
{
    broadcast use vstd::seq_lib::group_to_multiset_ensures;

    if a.len() == 0 {
        assert(b.len() == a.to_multiset().len());
        assert(a =~= b);
    } else {
        assert(b.len() == a.to_multiset().len());
        let x = a.last();
        let y = b.last();
        assert(b.to_multiset().count(x) > 0) by {
            assert(a.contains(x));
        }
        assert(b.contains(x));
        assert(a.to_multiset().count(y) > 0) by {
            assert(b.contains(y));
        }
        assert(a.contains(y));
        let i = choose|i: int| 0 <= i < b.len() && b[i] == x;
        let j = choose|j: int| 0 <= j < a.len() && a[j] == y;
        assert(text_le(b[i], b[b.len() - 1]));
        assert(text_le(a[j], a[a.len() - 1]));
        lemma_antisymmetric(x, y);
        let a2 = a.drop_last();
        let b2 = b.drop_last();
        assert(a =~= a2.push(x));
        assert(b =~= b2.push(x));
        assert(a2.to_multiset() =~= a.to_multiset().remove(x)) by {
            assert(a2.push(x).to_multiset() =~= a2.to_multiset().insert(x));
        }
        assert(b2.to_multiset() =~= b.to_multiset().remove(x)) by {
            assert(b2.push(x).to_multiset() =~= b2.to_multiset().insert(x));
        }
        assert forall|i: int, j: int| 0 <= i <= j < a2.len() implies text_le(#[trigger] a2[i], #[trigger] a2[j]) by {
            assert(a2[i] == a[i] && a2[j] == a[j]);
        }
        assert forall|i: int, j: int| 0 <= i <= j < b2.len() implies text_le(#[trigger] b2[i], #[trigger] b2[j]) by {
            assert(b2[i] == b[i] && b2[j] == b[j]);
        }
        law_sorting_is_unique(a2, b2);
    }
}

/// Whether `a` stands before `b` or equals it.
pub fn not_after(a: &str, b: &str) -> (le: bool)
    ensures
        le == text_le(a@, b@),
{
    let x = chars_of(a);
    let y = chars_of(b);
    let mut i: usize = 0;
    assert(a@.skip(0) =~= a@);
    assert(b@.skip(0) =~= b@);
    while i < x.len() && i < y.len()
        invariant
            x@ == a@,
            y@ == b@,
            i <= x@.len(),
            i <= y@.len(),
            text_le(a@.skip(i as int), b@.skip(i as int)) == text_le(a@, b@),
        decreases x@.len() - i,
    {
        if x[i] != y[i] {
            return x[i] < y[i];
        }
        assert(a@.skip(i as int).skip(1) =~= a@.skip(i + 1));
        assert(b@.skip(i as int).skip(1) =~= b@.skip(i + 1));
        i += 1;
    }
    i == x.len()
}

/// A list of texts in order.
pub open spec fn in_order(list: Seq<Seq<char>>) -> Seq<Seq<char>> {
    choose|ordered: Seq<Seq<char>>| is_sorted(ordered) && ordered.to_multiset() == list.to_multiset()
}

/// The texts in order.
pub fn sorted(list: Vec<String>) -> (result: Vec<String>)
    ensures
        texts(result@) == in_order(texts(list@)),
        is_sorted(texts(result@)),
        texts(result@).to_multiset() == texts(list@).to_multiset(),
{
    broadcast use vstd::seq_lib::group_to_multiset_ensures;

    let mut result: Vec<String> = Vec::new();
    let ghost all = list@;
    let mut rest = list;
    assert(texts(result@).to_multiset().add(texts(rest@).to_multiset()) =~= texts(all).to_multiset());
    while rest.len() > 0
        invariant
            is_sorted(texts(result@)),
            texts(result@).to_multiset().add(texts(rest@).to_multiset()) == texts(all).to_multiset(),
        decreases rest@.len(),
    {
        let ghost rest_before = rest@;
        let ghost before = result@;
        let item = match rest.pop() {
            Some(item) => item,
            None => String::new(),
        };
        assert(texts(rest_before) =~= texts(rest@).push(item@));
        let mut at: usize = 0;
        while at < result.len() && !not_after(&item, &result[at])
            invariant
                result@ == before,
                at <= result@.len(),
                forall|k: int| 0 <= k < at ==> !text_le(item@, #[trigger] result@[k]@),
            decreases result@.len() - at,
        {
            at += 1;
        }
        result.insert(at, item);
        let ghost after = texts(result@);
        let ghost old_texts = texts(before);
        proof {
            assert(after =~= old_texts.insert(at as int, item@));
            assert forall|i: int, j: int| 0 <= i <= j < after.len() implies text_le(
                #[trigger] after[i],
                #[trigger] after[j],
            ) by {
                lemma_inserted_in_order(old_texts, item@, at as int, i, j);
            }
            vstd::seq_lib::to_multiset_insert(old_texts, at as int, item@);
            vstd::seq_lib::to_multiset_build(texts(rest@), item@);
            assert(texts(rest_before).to_multiset() =~= texts(rest@).to_multiset().insert(item@));
            assert(after.to_multiset().add(texts(rest@).to_multiset()) =~= old_texts.to_multiset().add(
                texts(rest_before).to_multiset(),
            ));
        }
    }
    proof {
        assert(texts(rest@) =~= Seq::<Seq<char>>::empty());
        assert(texts(result@).to_multiset() =~= texts(all).to_multiset());
        law_sorting_is_unique(texts(result@), in_order(texts(all)));
    }
    result
}

/// A text put in front of the first one that it stands before keeps a list sorted.
proof fn lemma_inserted_in_order(list: Seq<Seq<char>>, item: Seq<char>, at: int, i: int, j: int)
    requires
        is_sorted(list),
        0 <= at <= list.len(),
        forall|k: int| 0 <= k < at ==> !text_le(item, #[trigger] list[k]),
        at < list.len() ==> text_le(item, list[at]),
        0 <= i <= j <= list.len(),
    ensures
        text_le(list.insert(at, item)[i], list.insert(at, item)[j]),
{
    let after = list.insert(at, item);
    if i == j {
        lemma_total(after[i], after[j]);
    } else if j < at {
        assert(text_le(list[i], list[j]));
    } else if j == at {
        assert(!text_le(item, list[i]));
        lemma_total(item, list[i]);
    } else if i == at {
        assert(text_le(list[at], list[j - 1]));
        lemma_transitive(item, list[at], list[j - 1]);
    } else if i < at {
        assert(text_le(list[i], list[j - 1]));
    } else {
        assert(text_le(list[i - 1], list[j - 1]));
    }
}

/// The members of a set, each once and in order.
pub open spec fn is_listing(list: Seq<Seq<char>>, members: Set<Seq<char>>) -> bool {
    &&& is_sorted(list)
    &&& list.no_duplicates()
    &&& forall|k: Seq<char>| list.contains(k) <==> members.contains(k)
}

/// The members of a finite set, each once and in order.
pub open spec fn listing(members: Set<Seq<char>>) -> Seq<Seq<char>> {
    choose|list: Seq<Seq<char>>| is_listing(list, members)
}

/// A set has one listing.
pub proof fn lemma_listing(list: Seq<Seq<char>>, members: Set<Seq<char>>)
    requires
        is_listing(list, members),
    ensures
        listing(members) == list,
{
    let other = listing(members);
    assert(is_listing(other, members));
    list.lemma_multiset_has_no_duplicates();
    other.lemma_multiset_has_no_duplicates();
    assert(list.to_multiset() =~= other.to_multiset()) by {
        broadcast use vstd::seq_lib::group_to_multiset_ensures;

        assert forall|k: Seq<char>| list.to_multiset().count(k) == other.to_multiset().count(k) by {
            if list.contains(k) {
                assert(other.contains(k));
                assert(list.to_multiset().contains(k));
                assert(other.to_multiset().contains(k));
            } else {
                assert(!members.contains(k));
                assert(!other.contains(k));
            }
        }
    }
    law_sorting_is_unique(list, other);
}

/// Sorting a list that holds each member once gives the listing.
pub(crate) fn sorted_listing(list: Vec<String>, Ghost(members): Ghost<Set<Seq<char>>>) -> (result: Vec<String>)
    requires
        texts(list@).no_duplicates(),
        forall|k: Seq<char>| texts(list@).contains(k) <==> members.contains(k),
    ensures
        texts(result@) == listing(members),
        is_listing(texts(result@), members),
{
    let ghost before = texts(list@);
    let result = sorted(list);
    proof {
        broadcast use vstd::seq_lib::group_to_multiset_ensures;

        let after = texts(result@);
        before.lemma_multiset_has_no_duplicates();
        after.lemma_multiset_has_no_duplicates_conv();
        assert forall|k: Seq<char>| after.contains(k) <==> members.contains(k) by {
            assert(after.contains(k) <==> after.to_multiset().count(k) > 0);
            assert(before.contains(k) <==> before.to_multiset().count(k) > 0);
        }
        lemma_listing(after, members);
    }
    result
}

/// Where a text is to be put into a sorted list, found from some place on.
proof fn lemma_place(list: Seq<Seq<char>>, item: Seq<char>, from: int) -> (at: int)
    requires
        0 <= from <= list.len(),
        forall|k: int| 0 <= k < from ==> !text_le(item, #[trigger] list[k]),
    ensures
        from <= at <= list.len(),
        forall|k: int| 0 <= k < at ==> !text_le(item, #[trigger] list[k]),
        at < list.len() ==> text_le(item, list[at]),
    decreases list.len() - from,
{
    if from == list.len() || text_le(item, list[from]) {
        from
    } else {
        lemma_place(list, item, from + 1)
    }
}

/// Every list of texts can be sorted.
proof fn lemma_sortable(list: Seq<Seq<char>>) -> (ordered: Seq<Seq<char>>)
    ensures
        is_sorted(ordered),
        ordered.to_multiset() == list.to_multiset(),
    decreases list.len(),
{
    broadcast use vstd::seq_lib::group_to_multiset_ensures;

    if list.len() == 0 {
        list
    } else {
        let item = list.last();
        let rest = list.drop_last();
        let before = lemma_sortable(rest);
        let at = lemma_place(before, item, 0);
        let after = before.insert(at, item);
        assert forall|i: int, j: int| 0 <= i <= j < after.len() implies text_le(#[trigger] after[i], #[trigger] after[j]) by {
            lemma_inserted_in_order(before, item, at, i, j);
        }
        vstd::seq_lib::to_multiset_insert(before, at, item);
        vstd::seq_lib::to_multiset_build(rest, item);
        assert(rest.push(item) =~= list);
        after
    }
}

/// Putting texts in order keeps each as often as it was there, and leaves no text in
/// front of one that comes before it.
pub proof fn law_order_keeps_the_texts(list: Seq<Seq<char>>, i: int, j: int)
    ensures
        in_order(list).len() == list.len(),
        in_order(list).to_multiset() == list.to_multiset(),
        0 <= i < j < list.len() ==> text_le(in_order(list)[i], in_order(list)[j]),
{
    broadcast use vstd::seq_lib::group_to_multiset_ensures;

    let ordered = lemma_sortable(list);
    assert(is_sorted(ordered) && ordered.to_multiset() == list.to_multiset());
    let result = in_order(list);
    assert(is_sorted(result) && result.to_multiset() == list.to_multiset());
    assert(result.len() == result.to_multiset().len());
    if 0 <= i < j < list.len() {
        assert(text_le(result[i], result[j]));
    }
}

/// The first characters that differ decide which of two texts comes first, and a text
/// comes before what continues it.
pub proof fn law_first_difference_decides(common: Seq<char>, a: Seq<char>, b: Seq<char>)
    ensures
        a.len() > 0 && b.len() > 0 && a[0] != b[0] ==> (text_le(common + a, common + b) <==> a[0] < b[0]),
        text_le(common, common + a),
        a.len() > 0 ==> !text_le(common + a, common),
    decreases common.len(),
{
    if common.len() > 0 {
        law_first_difference_decides(common.skip(1), a, b);
        assert((common + a).skip(1) =~= common.skip(1) + a);
        assert((common + b).skip(1) =~= common.skip(1) + b);
    } else {
        assert(common + a =~= a);
        assert(common + b =~= b);
    }
}

/// A listing of a set holds every member and nothing else, and each only once, with the
/// smaller text first.
pub proof fn law_listing_is_complete(list: Seq<Seq<char>>, members: Set<Seq<char>>, text: Seq<char>, i: int, j: int)
    requires
        is_listing(list, members),
    ensures
        listing(members) == list,
        list.contains(text) <==> members.contains(text),
        0 <= i < j < list.len() ==> list[i] != list[j] && text_le(list[i], list[j]),
{
    lemma_listing(list, members);
}

} // verus!
