//! Lists: their newest entries, and stable sorting.

use vstd::prelude::*;
use vstd::seq_lib::*;

verus! {

/// The last `count` entries of a list.
pub open spec fn newest<T>(list: Seq<T>, count: nat) -> Seq<T> {
    if list.len() <= count {
        list
    } else {
        list.skip(list.len() - count)
    }
}

/// A type whose values come before or after each other.
pub trait Rank: Sized {
    spec fn before(self, other: Self) -> bool;

    fn comes_before(&self, other: &Self) -> (result: bool)
        ensures
            result == self.before(*other),
    ;
}

/// A sorted list with one more value, after all that it does not come before.
pub open spec fn inserted<T: Rank>(list: Seq<T>, value: T) -> Seq<T>
    decreases list.len(),
{
    if list.len() == 0 || !value.before(list.last()) {
        list.push(value)
    } else {
        inserted(list.drop_last(), value).push(list.last())
    }
}

/// The values in order; those that do not come before each other stay as they
/// were.
pub open spec fn sorted<T: Rank>(list: Seq<T>) -> Seq<T>
    decreases list.len(),
{
    if list.len() == 0 {
        list
    } else {
        inserted(sorted(list.drop_last()), list.last())
    }
}

/// Whether `before` orders the values of a list so that those which do not come
/// before each other are equal in rank.
pub open spec fn ranks_consistently<T: Rank>(list: Seq<T>) -> bool {
    &&& forall|a: T, b: T|
        #![trigger a.before(b)]
        list.contains(a) && list.contains(b) && a.before(b) ==> !b.before(a)
    &&& forall|a: T, b: T, c: T|
        #![trigger a.before(b), b.before(c)]
        list.contains(a) && list.contains(b) && list.contains(c) && !a.before(b) && !b.before(c)
            ==> !a.before(c)
}

proof fn lemma_inserted_at<T: Rank>(list: Seq<T>, value: T, at: int)
    requires
        0 <= at <= list.len(),
        forall|j: int| at <= j < list.len() ==> value.before(#[trigger] list[j]),
        at > 0 ==> !value.before(list[at - 1]),
    ensures
        inserted(list, value) == list.insert(at, value),
    decreases list.len(),
{
    if at == list.len() {
        assert(list.insert(at, value) =~= list.push(value));
    } else {
        lemma_inserted_at(list.drop_last(), value, at);
        assert(list.drop_last().insert(at, value).push(list.last()) =~= list.insert(at, value));
    }
}

/// The values in order; those that do not come before each other stay as they
/// were.
pub fn sort<T: Rank>(values: Vec<T>) -> (result: Vec<T>)
    ensures
        result@ == sorted(values@),
{
    let mut rest = values;
    let mut result: Vec<T> = Vec::new();
    let ghost mut done: int = 0;
    proof {
        assert(values@.take(0) =~= Seq::empty());
        assert(values@.skip(0) =~= values@);
    }
    while rest.len() > 0
        invariant
            0 <= done <= values@.len(),
            rest@ == values@.skip(done),
            result@ == sorted(values@.take(done)),
        decreases rest@.len(),
    {
        let value = rest.remove(0);
        let mut at: usize = result.len();
        while at > 0 && value.comes_before(&result[at - 1])
            invariant
                at <= result@.len(),
                forall|j: int| at <= j < result@.len() ==> value.before(#[trigger] result@[j]),
            decreases at,
        {
            at = at - 1;
        }
        proof {
            lemma_inserted_at(result@, value, at as int);
            assert(values@.take(done + 1).drop_last() =~= values@.take(done));
            assert(values@.take(done + 1).last() == value);
            assert(rest@ =~= values@.skip(done + 1));
            done = done + 1;
        }
        result.insert(at, value);
    }
    assert(values@.take(done) =~= values@);
    result
}

proof fn lemma_inserted_multiset<T: Rank>(list: Seq<T>, value: T)
    ensures
        inserted(list, value).to_multiset() == list.to_multiset().insert(value),
        inserted(list, value).len() == list.len() + 1,
    decreases list.len(),
{
    broadcast use group_to_multiset_ensures;

    if list.len() > 0 && value.before(list.last()) {
        lemma_inserted_multiset(list.drop_last(), value);
        assert(list =~= list.drop_last().push(list.last()));
        assert(list.to_multiset() =~= list.drop_last().to_multiset().insert(list.last()));
        assert(inserted(list, value).to_multiset() =~= list.to_multiset().insert(value));
    }
}

/// Sorting keeps every value, as often as it occurs.
pub proof fn sorting_permutes<T: Rank>(list: Seq<T>)
    ensures
        sorted(list).to_multiset() == list.to_multiset(),
        sorted(list).len() == list.len(),
    decreases list.len(),
{
    broadcast use group_to_multiset_ensures;

    if list.len() > 0 {
        sorting_permutes(list.drop_last());
        lemma_inserted_multiset(sorted(list.drop_last()), list.last());
        assert(list =~= list.drop_last().push(list.last()));
    }
}

/// No value comes before one that stands to its left.
pub open spec fn in_order<T: Rank>(list: Seq<T>) -> bool {
    forall|i: int, j: int| 0 <= i < j < list.len() ==> !(
        #[trigger] list[j]
    ).before(#[trigger] list[i])
}

proof fn lemma_inserted_in_order<T: Rank>(list: Seq<T>, value: T, all: Seq<T>)
    requires
        ranks_consistently(all),
        all.contains(value),
        forall|x: T| #[trigger] list.contains(x) ==> all.contains(x),
        in_order(list),
    ensures
        in_order(inserted(list, value)),
        forall|x: T| #[trigger] inserted(list, value).contains(x) ==> x == value
            || list.contains(x),
    decreases list.len(),
{
    let result = inserted(list, value);
    if list.len() == 0 || !value.before(list.last()) {
        assert forall|i: int, j: int| 0 <= i < j < result.len() implies !(
        #[trigger] result[j]).before(#[trigger] result[i]) by {
            if j == list.len() && i < list.len() - 1 {
                assert(list.contains(list[i]) && list.contains(list[list.len() - 1]));
                assert(!list[list.len() - 1].before(list[i]));
                assert(!value.before(list.last()));
            }
        }
        assert forall|x: T| #[trigger] result.contains(x) implies x == value || list.contains(
            x,
        ) by {
            let i = choose|i: int| 0 <= i < result.len() && result[i] == x;
            if i < list.len() {
                assert(list[i] == x);
            }
        }
    } else {
        let shorter = inserted(list.drop_last(), value);
        assert forall|x: T| #[trigger] list.drop_last().contains(x) implies all.contains(x) by {
            let k = choose|k: int| 0 <= k < list.drop_last().len() && list.drop_last()[k] == x;
            assert(list[k] == x);
            assert(list.contains(x));
        }
        lemma_inserted_in_order(list.drop_last(), value, all);
        assert(list.contains(list.last())) by {
            assert(list[list.len() - 1] == list.last());
        }
        assert forall|i: int, j: int| 0 <= i < j < result.len() implies !(
        #[trigger] result[j]).before(#[trigger] result[i]) by {
            if j == shorter.len() {
                assert(shorter.contains(shorter[i]));
                if result[i] != value {
                    assert(list.drop_last().contains(result[i]));
                    let k = choose|k: int| 0 <= k < list.drop_last().len()
                        && list.drop_last()[k] == result[i];
                    assert(list[k] == result[i]);
                    assert(!list[list.len() - 1].before(list[k]));
                } else {
                    assert(value.before(list.last()));
                }
            } else {
                assert(!shorter[j].before(shorter[i]));
            }
        }
        assert forall|x: T| #[trigger] result.contains(x) implies x == value || list.contains(
            x,
        ) by {
            let i = choose|i: int| 0 <= i < result.len() && result[i] == x;
            if i < shorter.len() {
                assert(shorter.contains(x));
                if x != value {
                    assert(list.drop_last().contains(x));
                    let k = choose|k: int| 0 <= k < list.drop_last().len()
                        && list.drop_last()[k] == x;
                    assert(list[k] == x);
                }
            } else {
                assert(list[list.len() - 1] == x);
            }
        }
    }
}

proof fn lemma_sorted_contains<T: Rank>(list: Seq<T>, x: T)
    requires
        sorted(list).contains(x),
    ensures
        list.contains(x),
{
    broadcast use group_to_multiset_ensures;

    sorting_permutes(list);
    assert(sorted(list).to_multiset().count(x) > 0);
    assert(list.to_multiset().count(x) > 0);
}

proof fn lemma_sorted_in_order<T: Rank>(list: Seq<T>, all: Seq<T>)
    requires
        ranks_consistently(all),
        forall|x: T| #[trigger] list.contains(x) ==> all.contains(x),
    ensures
        in_order(sorted(list)),
    decreases list.len(),
{
    if list.len() > 0 {
        let shorter = list.drop_last();
        assert forall|x: T| #[trigger] shorter.contains(x) implies all.contains(x) by {
            let k = choose|k: int| 0 <= k < shorter.len() && shorter[k] == x;
            assert(list[k] == x);
            assert(list.contains(x));
        }
        lemma_sorted_in_order(shorter, all);
        assert forall|x: T| #[trigger] sorted(shorter).contains(x) implies all.contains(x) by {
            lemma_sorted_contains(shorter, x);
        }
        assert(list[list.len() - 1] == list.last());
        assert(list.contains(list.last()));
        lemma_inserted_in_order(sorted(shorter), list.last(), all);
    }
}

/// After sorting, no value comes before one that stands to its left.
pub proof fn sorting_orders<T: Rank>(list: Seq<T>)
    requires
        ranks_consistently(list),
    ensures
        in_order(sorted(list)),
{
    lemma_sorted_in_order(list, list);
}

} // verus!
