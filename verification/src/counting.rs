//! Counting the items of a sequence that have a property.

use vstd::prelude::*;

verus! {

/// 1 for `true`, 0 for `false`.
pub open spec fn one_if(b: bool) -> int {
    if b {
        1
    } else {
        0
    }
}

/// Items equal to `x`.
pub open spec fn is_item<T>(x: T) -> spec_fn(T) -> bool {
    |y: T| y == x
}

/// How many of the first `n` items of `s` satisfy `f`.
pub open spec fn count_below<T>(s: Seq<T>, f: spec_fn(T) -> bool, n: int) -> int
    decreases n,
{
    if n <= 0 {
        0
    } else {
        count_below(s, f, n - 1) + one_if(f(s[n - 1]))
    }
}

/// How many items of `s` satisfy `f`.
pub open spec fn count<T>(s: Seq<T>, f: spec_fn(T) -> bool) -> int {
    count_below(s, f, s.len() as int)
}

/// A count lies between 0 and the number of items looked at.
pub proof fn lemma_count_bounds<T>(s: Seq<T>, f: spec_fn(T) -> bool, n: int)
    requires
        0 <= n,
    ensures
        0 <= count_below(s, f, n) <= n,
    decreases n,
{
    if n > 0 {
        lemma_count_bounds(s, f, n - 1);
    }
}

/// Two sequences whose first `n` items agree on `f` have the same count there.
pub proof fn lemma_count_same<T>(s1: Seq<T>, s2: Seq<T>, f: spec_fn(T) -> bool, n: int)
    requires
        forall|i: int| 0 <= i < n ==> f(#[trigger] s1[i]) == f(s2[i]),
    ensures
        count_below(s1, f, n) == count_below(s2, f, n),
    decreases n,
{
    if n > 0 {
        lemma_count_same(s1, s2, f, n - 1);
    }
}

/// Replacing item `i` changes the count by what the new item adds and the old
/// one took with it.
pub proof fn lemma_count_update<T>(s: Seq<T>, f: spec_fn(T) -> bool, i: int, x: T)
    requires
        0 <= i < s.len(),
    ensures
        count(s.update(i, x), f) == count(s, f) + one_if(f(x)) - one_if(f(s[i])),
{
    lemma_count_update_below(s, f, i, x, s.len() as int);
}

/// Replacing item `i` changes the count over the first `n` items where `i`
/// is among them.
proof fn lemma_count_update_below<T>(s: Seq<T>, f: spec_fn(T) -> bool, i: int, x: T, n: int)
    requires
        0 <= i < s.len(),
        0 <= n <= s.len(),
    ensures
        count_below(s.update(i, x), f, n) == count_below(s, f, n) + if i < n {
            one_if(f(x)) - one_if(f(s[i]))
        } else {
            0
        },
    decreases n,
{
    if n > 0 {
        lemma_count_update_below(s, f, i, x, n - 1);
    }
}

/// Appending an item adds it to the count if it satisfies `f`.
pub proof fn lemma_count_push<T>(s: Seq<T>, f: spec_fn(T) -> bool, x: T)
    ensures
        count(s.push(x), f) == count(s, f) + one_if(f(x)),
{
    lemma_count_same(s.push(x), s, f, s.len() as int);
}

/// Dropping the last item takes it out of the count.
pub proof fn lemma_count_drop_last<T>(s: Seq<T>, f: spec_fn(T) -> bool)
    requires
        s.len() > 0,
    ensures
        count(s.drop_last(), f) == count(s, f) - one_if(f(s.last())),
{
    lemma_count_same(s.drop_last(), s, f, s.len() - 1);
}

/// Removing item `i` takes it out of the count.
pub proof fn lemma_count_remove<T>(s: Seq<T>, f: spec_fn(T) -> bool, i: int)
    requires
        0 <= i < s.len(),
    ensures
        count(s.remove(i), f) == count(s, f) - one_if(f(s[i])),
{
    lemma_count_remove_below(s, f, i, s.len() as int);
}

/// Removing item `i` takes it out of the count over the items before `n`.
proof fn lemma_count_remove_below<T>(s: Seq<T>, f: spec_fn(T) -> bool, i: int, n: int)
    requires
        0 <= i < s.len(),
        i < n <= s.len(),
    ensures
        count_below(s.remove(i), f, n - 1) == count_below(s, f, n) - one_if(f(s[i])),
    decreases n,
{
    if n == i + 1 {
        lemma_count_same(s.remove(i), s, f, i);
    } else {
        lemma_count_remove_below(s, f, i, n - 1);
    }
}

/// Where no item satisfies `f`, the count is 0.
pub proof fn lemma_count_none<T>(s: Seq<T>, f: spec_fn(T) -> bool, n: int)
    requires
        forall|i: int| 0 <= i < n ==> !f(#[trigger] s[i]),
    ensures
        count_below(s, f, n) == 0,
    decreases n,
{
    if n > 0 {
        lemma_count_none(s, f, n - 1);
    }
}

/// An item that satisfies `f` makes the count positive.
pub proof fn lemma_count_positive<T>(s: Seq<T>, f: spec_fn(T) -> bool, i: int)
    requires
        0 <= i < s.len(),
        f(s[i]),
    ensures
        count(s, f) >= 1,
{
    lemma_count_positive_below(s, f, i, s.len() as int);
}

/// An item among the first `n` that satisfies `f` makes their count positive.
proof fn lemma_count_positive_below<T>(s: Seq<T>, f: spec_fn(T) -> bool, i: int, n: int)
    requires
        0 <= i < n,
        f(s[i]),
    ensures
        count_below(s, f, n) >= 1,
    decreases n,
{
    if n == i + 1 {
        lemma_count_bounds(s, f, n - 1);
    } else {
        lemma_count_positive_below(s, f, i, n - 1);
    }
}

/// A count grows with the number of items looked at.
pub proof fn lemma_count_grows<T>(s: Seq<T>, f: spec_fn(T) -> bool, n: int, m: int)
    requires
        0 <= n <= m,
    ensures
        count_below(s, f, n) <= count_below(s, f, m),
    decreases m,
{
    if n < m {
        lemma_count_grows(s, f, n, m - 1);
    }
}

/// The items that satisfy `f` and those that do not are all the items.
pub proof fn lemma_count_complement<T>(
    s: Seq<T>,
    f: spec_fn(T) -> bool, g: spec_fn(T) -> bool, n: int,
)
    requires
        0 <= n,
        forall|i: int| 0 <= i < n ==> f(#[trigger] s[i]) != g(s[i]),
    ensures
        count_below(s, f, n) + count_below(s, g, n) == n,
    decreases n,
{
    if n > 0 {
        lemma_count_complement(s, f, g, n - 1);
    }
}

/// Where exactly one item satisfies `f`, any two that do are the same.
pub proof fn lemma_count_one<T>(s: Seq<T>, f: spec_fn(T) -> bool, i: int, j: int)
    requires
        count(s, f) == 1,
        0 <= i < s.len(),
        0 <= j < s.len(),
        f(s[i]),
        f(s[j]),
    ensures
        i == j,
{
    if i < j {
        lemma_count_positive_below(s, f, i, j);
        lemma_count_grows(s, f, j + 1, s.len() as int);
    } else if j < i {
        lemma_count_positive_below(s, f, j, i);
        lemma_count_grows(s, f, i + 1, s.len() as int);
    }
}

/// Where the count is positive, some item satisfies `f`.
pub proof fn lemma_count_witness<T>(s: Seq<T>, f: spec_fn(T) -> bool) -> (i: int)
    requires
        count(s, f) >= 1,
    ensures
        0 <= i < s.len(),
        f(s[i]),
{
    if forall|i: int| 0 <= i < s.len() ==> !f(#[trigger] s[i]) {
        lemma_count_none(s, f, s.len() as int);
    }
    choose|i: int| 0 <= i < s.len() && f(#[trigger] s[i])
}

/// The count of the items equal to `x` is the number of times that `x` occurs
/// in the multiset of the items.
pub proof fn lemma_count_is_multiplicity<T>(s: Seq<T>, x: T)
    ensures
        count(s, is_item(x)) == s.to_multiset().count(x),
    decreases s.len(),
{
    broadcast use vstd::multiset::group_multiset_axioms;
    if s.len() == 0 {
        s.to_multiset_ensures();
        assert(s.to_multiset().len() == 0);
        if s.to_multiset().count(x) > 0 {
            assert(s.to_multiset().contains(x));
            assert(s.contains(x));
        }
    } else {
        let before = s.drop_last();
        lemma_count_is_multiplicity(before, x);
        lemma_count_drop_last(s, is_item(x));
        assert(s =~= before.push(s.last()));
        vstd::seq_lib::to_multiset_build(before, s.last());
    }
}

} // verus!
