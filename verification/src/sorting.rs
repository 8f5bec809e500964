use vstd::prelude::*;

use crate::collation::{
    compare_text, lemma_text_precedes_irreflexive, lemma_text_precedes_total,
    lemma_text_precedes_transitive, text_precedes, Precedence,
};

verus! {

/// A value ordered by a text key, in the order of `str`.
pub trait TextKeyed {
    spec fn text_key(&self) -> Seq<char>;

    fn key_text(&self) -> (text: &str)
        ensures
            text@ == self.text_key(),
    ;
}

/// Inserts `x` after every element whose key does not come after the key
/// of `x`, so that equal keys keep their order of arrival.
pub open spec fn insert_by_key<T: TextKeyed>(sorted: Seq<T>, x: T) -> Seq<T>
    decreases sorted.len(),
{
    if sorted.len() == 0 {
        seq![x]
    } else if text_precedes(x.text_key(), sorted[0].text_key()) {
        seq![x] + sorted
    } else {
        seq![sorted[0]] + insert_by_key(sorted.drop_first(), x)
    }
}

/// The stable sort of a sequence by text key.
pub open spec fn sort_by_key<T: TextKeyed>(items: Seq<T>) -> Seq<T>
    decreases items.len(),
{
    if items.len() == 0 {
        Seq::empty()
    } else {
        insert_by_key(sort_by_key(items.drop_last()), items.last())
    }
}

pub open spec fn keys_ascending<T: TextKeyed>(items: Seq<T>) -> bool {
    forall|i: int, j: int|
        0 <= i < j < items.len() ==> !text_precedes(
            #[trigger] items[j].text_key(),
            #[trigger] items[i].text_key(),
        )
}

/// Inserting at the first element whose key comes after the new key.
proof fn lemma_insert_by_key_at<T: TextKeyed>(sorted: Seq<T>, x: T, position: int)
    requires
        0 <= position <= sorted.len(),
        forall|i: int|
            0 <= i < position ==> !text_precedes(x.text_key(), #[trigger] sorted[i].text_key()),
        position < sorted.len() ==> text_precedes(x.text_key(), sorted[position].text_key()),
    ensures
        insert_by_key(sorted, x) == sorted.insert(position, x),
    decreases sorted.len(),
{
    if sorted.len() == 0 {
        assert(sorted.insert(position, x) =~= seq![x]);
    } else if position == 0 {
        assert(sorted.insert(0, x) =~= seq![x] + sorted);
    } else {
        let rest = sorted.drop_first();
        assert forall|i: int| 0 <= i < position - 1 implies !text_precedes(
            x.text_key(),
            #[trigger] rest[i].text_key(),
        ) by {
            assert(rest[i] == sorted[i + 1]);
        }
        if position < sorted.len() {
            assert(rest[position - 1] == sorted[position]);
        }
        lemma_insert_by_key_at(rest, x, position - 1);
        assert(seq![sorted[0]] + rest.insert(position - 1, x) =~= sorted.insert(position, x));
    }
}

proof fn lemma_insert_by_key_len<T: TextKeyed>(sorted: Seq<T>, x: T)
    ensures
        insert_by_key(sorted, x).len() == sorted.len() + 1,
    decreases sorted.len(),
{
    if sorted.len() > 0 && !text_precedes(x.text_key(), sorted[0].text_key()) {
        lemma_insert_by_key_len(sorted.drop_first(), x);
    }
}

pub proof fn lemma_sort_by_key_len<T: TextKeyed>(items: Seq<T>)
    ensures
        sort_by_key(items).len() == items.len(),
    decreases items.len(),
{
    if items.len() > 0 {
        lemma_sort_by_key_len(items.drop_last());
        lemma_insert_by_key_len(sort_by_key(items.drop_last()), items.last());
    }
}

/// Pairs of sequences with the same keys, element by element, are
/// rearranged alike by the sort.
proof fn lemma_insert_by_key_corresponds<A: TextKeyed, B: TextKeyed>(
    a: Seq<A>,
    b: Seq<B>,
    x: A,
    y: B,
    related: spec_fn(A, B) -> bool,
)
    requires
        a.len() == b.len(),
        forall|i: int|
            0 <= i < a.len() ==> (#[trigger] a[i]).text_key() == b[i].text_key() && related(
                a[i],
                b[i],
            ),
        x.text_key() == y.text_key(),
        related(x, y),
    ensures
        insert_by_key(a, x).len() == insert_by_key(b, y).len(),
        forall|i: int|
            0 <= i < insert_by_key(a, x).len() ==> (#[trigger] insert_by_key(a, x)[i]).text_key()
                == insert_by_key(b, y)[i].text_key() && related(
                insert_by_key(a, x)[i],
                insert_by_key(b, y)[i],
            ),
    decreases a.len(),
{
    if a.len() == 0 {
    } else if text_precedes(x.text_key(), a[0].text_key()) {
        assert(b[0].text_key() == a[0].text_key());
        let ia = insert_by_key(a, x);
        let ib = insert_by_key(b, y);
        assert forall|i: int| 0 <= i < ia.len() implies (#[trigger] ia[i]).text_key()
            == ib[i].text_key() && related(ia[i], ib[i]) by {
            if i > 0 {
                assert(ia[i] == a[i - 1]);
                assert(ib[i] == b[i - 1]);
            }
        }
    } else {
        assert(b[0].text_key() == a[0].text_key());
        let ra = a.drop_first();
        let rb = b.drop_first();
        assert forall|i: int| 0 <= i < ra.len() implies (#[trigger] ra[i]).text_key()
            == rb[i].text_key() && related(ra[i], rb[i]) by {
            assert(ra[i] == a[i + 1]);
            assert(rb[i] == b[i + 1]);
        }
        lemma_insert_by_key_corresponds(ra, rb, x, y, related);
        let ia = insert_by_key(a, x);
        let ib = insert_by_key(b, y);
        assert forall|i: int| 0 <= i < ia.len() implies (#[trigger] ia[i]).text_key()
            == ib[i].text_key() && related(ia[i], ib[i]) by {
            if i > 0 {
                assert(ia[i] == insert_by_key(ra, x)[i - 1]);
                assert(ib[i] == insert_by_key(rb, y)[i - 1]);
            }
        }
    }
}

/// Sorting two sequences whose elements correspond one to one, with equal
/// keys, keeps the correspondence.
pub proof fn lemma_sort_by_key_corresponds<A: TextKeyed, B: TextKeyed>(
    a: Seq<A>,
    b: Seq<B>,
    related: spec_fn(A, B) -> bool,
)
    requires
        a.len() == b.len(),
        forall|i: int|
            0 <= i < a.len() ==> (#[trigger] a[i]).text_key() == b[i].text_key() && related(
                a[i],
                b[i],
            ),
    ensures
        sort_by_key(a).len() == sort_by_key(b).len(),
        forall|i: int|
            0 <= i < sort_by_key(a).len() ==> (#[trigger] sort_by_key(a)[i]).text_key()
                == sort_by_key(b)[i].text_key() && related(sort_by_key(a)[i], sort_by_key(b)[i]),
    decreases a.len(),
{
    if a.len() > 0 {
        let ra = a.drop_last();
        let rb = b.drop_last();
        assert forall|i: int| 0 <= i < ra.len() implies (#[trigger] ra[i]).text_key()
            == rb[i].text_key() && related(ra[i], rb[i]) by {
            assert(ra[i] == a[i]);
            assert(rb[i] == b[i]);
        }
        lemma_sort_by_key_corresponds(ra, rb, related);
        lemma_insert_by_key_corresponds(
            sort_by_key(ra),
            sort_by_key(rb),
            a.last(),
            b.last(),
            related,
        );
    }
}

proof fn lemma_insert_by_key_ascending<T: TextKeyed>(sorted: Seq<T>, x: T)
    requires
        keys_ascending(sorted),
    ensures
        keys_ascending(insert_by_key(sorted, x)),
        insert_by_key(sorted, x).to_multiset() == sorted.to_multiset().insert(x),
    decreases sorted.len(),
{
    broadcast use vstd::seq_lib::group_to_multiset_ensures;

    let r = insert_by_key(sorted, x);
    if sorted.len() == 0 {
        assert(r =~= seq![x]);
        assert(seq![x] =~= Seq::<T>::empty().push(x));
    } else if text_precedes(x.text_key(), sorted[0].text_key()) {
        assert forall|i: int, j: int| 0 <= i < j < r.len() implies !text_precedes(
            #[trigger] r[j].text_key(),
            #[trigger] r[i].text_key(),
        ) by {
            if i == 0 {
                assert(r[j] == sorted[j - 1]);
                if j - 1 > 0 {
                    assert(!text_precedes(sorted[j - 1].text_key(), sorted[0].text_key()));
                    if sorted[j - 1].text_key() != sorted[0].text_key() {
                        lemma_text_precedes_total(sorted[j - 1].text_key(), sorted[0].text_key());
                    }
                }
                if text_precedes(sorted[j - 1].text_key(), x.text_key()) {
                    if j - 1 == 0 {
                        lemma_text_precedes_transitive(
                            x.text_key(),
                            sorted[0].text_key(),
                            x.text_key(),
                        );
                    } else {
                        if sorted[j - 1].text_key() == sorted[0].text_key() {
                            lemma_text_precedes_transitive(
                                x.text_key(),
                                sorted[0].text_key(),
                                x.text_key(),
                            );
                        } else {
                            lemma_text_precedes_transitive(
                                x.text_key(),
                                sorted[0].text_key(),
                                sorted[j - 1].text_key(),
                            );
                            lemma_text_precedes_transitive(
                                x.text_key(),
                                sorted[j - 1].text_key(),
                                x.text_key(),
                            );
                        }
                    }
                    lemma_text_precedes_irreflexive(x.text_key());
                }
            } else {
                assert(r[i] == sorted[i - 1]);
                assert(r[j] == sorted[j - 1]);
            }
        }
        assert(r =~= seq![x] + sorted);
        vstd::seq_lib::lemma_multiset_commutative(seq![x], sorted);
        assert(seq![x] =~= Seq::<T>::empty().push(x));
    } else {
        let rest = sorted.drop_first();
        assert(keys_ascending(rest)) by {
            assert forall|i: int, j: int| 0 <= i < j < rest.len() implies !text_precedes(
                #[trigger] rest[j].text_key(),
                #[trigger] rest[i].text_key(),
            ) by {
                assert(rest[i] == sorted[i + 1]);
                assert(rest[j] == sorted[j + 1]);
            }
        }
        lemma_insert_by_key_ascending(rest, x);
        let inner = insert_by_key(rest, x);
        assert(r =~= seq![sorted[0]] + inner);
        assert forall|i: int, j: int| 0 <= i < j < r.len() implies !text_precedes(
            #[trigger] r[j].text_key(),
            #[trigger] r[i].text_key(),
        ) by {
            if i == 0 {
                assert(r[j] == inner[j - 1]);
                assert(inner.to_multiset().count(inner[j - 1]) > 0);
                assert(rest.to_multiset().insert(x).count(inner[j - 1]) > 0);
                if inner[j - 1] != x {
                    assert(rest.to_multiset().count(inner[j - 1]) > 0);
                    assert(rest.contains(inner[j - 1]));
                    let m = choose|m: int| 0 <= m < rest.len() && rest[m] == inner[j - 1];
                    assert(rest[m] == sorted[m + 1]);
                } else {
                    if x.text_key() != sorted[0].text_key() {
                        lemma_text_precedes_total(x.text_key(), sorted[0].text_key());
                    } else {
                        lemma_text_precedes_irreflexive(x.text_key());
                    }
                }
            } else {
                assert(r[i] == inner[i - 1]);
                assert(r[j] == inner[j - 1]);
            }
        }
        vstd::seq_lib::lemma_multiset_commutative(seq![sorted[0]], inner);
        vstd::seq_lib::lemma_multiset_commutative(seq![sorted[0]], rest);
        assert(sorted =~= seq![sorted[0]] + rest);
        assert(seq![sorted[0]] =~= Seq::<T>::empty().push(sorted[0]));
    }
}

/// The sort puts keys in ascending order and keeps every element.
pub proof fn lemma_sort_by_key_ascending<T: TextKeyed>(items: Seq<T>)
    ensures
        keys_ascending(sort_by_key(items)),
        sort_by_key(items).to_multiset() == items.to_multiset(),
    decreases items.len(),
{
    broadcast use vstd::seq_lib::group_to_multiset_ensures;

    if items.len() == 0 {
        assert(sort_by_key(items) =~= Seq::<T>::empty());
    } else {
        lemma_sort_by_key_ascending(items.drop_last());
        lemma_insert_by_key_ascending(sort_by_key(items.drop_last()), items.last());
        assert(items =~= items.drop_last().push(items.last()));
    }
}

/// Sorts by text key, keeping the order of arrival among equal keys.
pub fn sort_by_text_key<T: TextKeyed>(items: Vec<T>) -> (sorted: Vec<T>)
    ensures
        sorted@ == sort_by_key(items@),
{
    let ghost input = items@;
    assert(input.len() == items.len());
    let mut rest = items;
    let mut sorted: Vec<T> = Vec::new();
    let mut taken: usize = 0;
    proof {
        assert(input.take(0) =~= Seq::<T>::empty());
        assert(input.skip(0) =~= input);
    }
    while rest.len() > 0
        invariant
            taken <= input.len() <= usize::MAX,
            rest@ == input.skip(taken as int),
            sorted@ == sort_by_key(input.take(taken as int)),
        decreases rest@.len(),
    {
        assert(rest@.len() == input.len() - taken);
        let x = rest.remove(0);
        let ghost prefix = sorted@;
        let mut position: usize = 0;
        let mut found = false;
        while !found && position < sorted.len()
            invariant
                position <= sorted@.len(),
                sorted@ == prefix,
                taken < input.len() <= usize::MAX,
                forall|i: int|
                    0 <= i < position ==> !text_precedes(
                        x.text_key(),
                        #[trigger] sorted@[i].text_key(),
                    ),
                found ==> position < sorted@.len() && text_precedes(
                    x.text_key(),
                    sorted@[position as int].text_key(),
                ),
            decreases sorted@.len() - position + (if found {
                0int
            } else {
                1int
            }),
        {
            let order = compare_text(x.key_text(), sorted[position].key_text());
            if order == Precedence::Before {
                found = true;
            } else {
                position = position + 1;
            }
        }
        proof {
            lemma_insert_by_key_at(prefix, x, position as int);
            let next = input.take(taken + 1);
            assert(next.drop_last() =~= input.take(taken as int));
            assert(next.last() == input[taken as int]);
            assert(input.skip(taken as int)[0] == input[taken as int]);
            assert(input.skip(taken + 1) =~= input.skip(taken as int).drop_first());
        }
        sorted.insert(position, x);
        taken = taken + 1;
    }
    proof {
        assert(input.take(taken as int) =~= input);
    }
    sorted
}

} // verus!
