//! Stable sorting, and sorting without repetition.
use crate::text;
use crate::webauthn::WebauthnRegistration;
use vstd::prelude::*;

verus! {

broadcast use vstd::string::group_string_axioms;

/// Values with a place in an order, which several of them may share.
pub trait Ranked: Sized {
    /// Whether `self` comes before `other` or shares its place.
    spec fn precedes(self, other: Self) -> bool;

    /// Any two values are ordered one way or the other.
    proof fn total(a: Self, b: Self)
        ensures
            a.precedes(b) || b.precedes(a),
    ;

    /// The order is transitive.
    proof fn transitive(a: Self, b: Self, c: Self)
        requires
            a.precedes(b),
            b.precedes(c),
        ensures
            a.precedes(c),
    ;

    /// Whether `self` comes before `other` or shares its place.
    fn not_after(&self, other: &Self) -> (r: bool)
        ensures
            r == self.precedes(*other),
    ;
}

impl Ranked for i32 {
    open spec fn precedes(self, other: Self) -> bool {
        self <= other
    }

    proof fn total(a: Self, b: Self) {
    }

    proof fn transitive(a: Self, b: Self, c: Self) {
    }

    fn not_after(&self, other: &Self) -> (r: bool) {
        *self <= *other
    }
}

/// Texts are ordered by their characters from the left.
impl Ranked for String {
    open spec fn precedes(self, other: Self) -> bool {
        text::text_le(self@, other@)
    }

    proof fn total(a: Self, b: Self) {
        text::lemma_text_le_total(a@, b@);
    }

    proof fn transitive(a: Self, b: Self, c: Self) {
        text::lemma_text_le_transitive(a@, b@, c@);
    }

    fn not_after(&self, other: &Self) -> (r: bool) {
        text::text_not_after(self.as_str(), other.as_str())
    }
}

/// A parameter is ordered by its name.
impl Ranked for (String, String) {
    open spec fn precedes(self, other: Self) -> bool {
        text::text_le(self.0@, other.0@)
    }

    proof fn total(a: Self, b: Self) {
        text::lemma_text_le_total(a.0@, b.0@);
    }

    proof fn transitive(a: Self, b: Self, c: Self) {
        text::lemma_text_le_transitive(a.0@, b.0@, c.0@);
    }

    fn not_after(&self, other: &Self) -> (r: bool) {
        text::text_not_after(self.0.as_str(), other.0.as_str())
    }
}

/// A registration is ordered by its slot.
impl Ranked for WebauthnRegistration {
    open spec fn precedes(self, other: Self) -> bool {
        self.id <= other.id
    }

    proof fn total(a: Self, b: Self) {
    }

    proof fn transitive(a: Self, b: Self, c: Self) {
    }

    fn not_after(&self, other: &Self) -> (r: bool) {
        self.id <= other.id
    }
}

/// Whether two values share their place.
pub open spec fn same_rank<T: Ranked>(a: T, b: T) -> bool {
    a.precedes(b) && b.precedes(a)
}

/// Whether the values stand in order.
pub open spec fn ordered<T: Ranked>(s: Seq<T>) -> bool {
    forall|i: int, j: int| 0 <= i < j < s.len() ==> (#[trigger] s[i]).precedes(#[trigger] s[j])
}

/// Whether the values stand in order and no two share a place.
pub open spec fn strictly_ordered<T: Ranked>(s: Seq<T>) -> bool {
    forall|i: int, j: int|
        0 <= i < j < s.len() ==> (#[trigger] s[i]).precedes(#[trigger] s[j]) && !s[j].precedes(s[i])
}

/// The values of `s` that share the place of `t`, in the order in which they stand.
pub open spec fn sharing<T: Ranked>(s: Seq<T>, t: T) -> Seq<T>
    decreases s.len(),
{
    if s.len() == 0 {
        s
    } else if same_rank(s.last(), t) {
        sharing(s.drop_last(), t).push(s.last())
    } else {
        sharing(s.drop_last(), t)
    }
}

/// Whether `r` holds the values of `s` in order, those that share a place as they stood in `s`.
pub open spec fn stably_sorts<T: Ranked>(s: Seq<T>, r: Seq<T>) -> bool {
    &&& r.len() == s.len()
    &&& ordered(r)
    &&& forall|t: T| #[trigger] sharing(r, t) == sharing(s, t)
}

/// Whether `r` holds the places of `s` in order, each once.
pub open spec fn sorts_without_repetition<T: Ranked>(s: Seq<T>, r: Seq<T>) -> bool {
    &&& strictly_ordered(r)
    &&& forall|i: int| 0 <= i < r.len() ==> s.contains(#[trigger] r[i])
    &&& forall|j: int| 0 <= j < s.len() ==> #[trigger] has_rank(r, s[j])
}

/// Whether a value of `s` shares the place of `t`.
pub open spec fn has_rank<T: Ranked>(s: Seq<T>, t: T) -> bool {
    exists|i: int| 0 <= i < s.len() && same_rank(#[trigger] s[i], t)
}

/// Values that do not share the place of `t` leave no trace in `sharing`.
proof fn lemma_sharing_none<T: Ranked>(s: Seq<T>, t: T)
    requires
        forall|i: int| 0 <= i < s.len() ==> !same_rank(#[trigger] s[i], t),
    ensures
        sharing(s, t) == Seq::<T>::empty(),
    decreases s.len(),
{
    if s.len() > 0 {
        assert forall|i: int| 0 <= i < s.drop_last().len() implies !same_rank(
            #[trigger] s.drop_last()[i],
            t,
        ) by {
            assert(s.drop_last()[i] == s[i]);
        }
        lemma_sharing_none(s.drop_last(), t);
    }
    assert(sharing(s, t) =~= Seq::<T>::empty());
}

/// A value that alone shares the place of `t` is all there is in `sharing`.
proof fn lemma_sharing_one<T: Ranked>(s: Seq<T>, i: int, t: T)
    requires
        0 <= i < s.len(),
        same_rank(s[i], t),
        forall|k: int| 0 <= k < s.len() && k != i ==> !same_rank(#[trigger] s[k], t),
    ensures
        sharing(s, t) == seq![s[i]],
    decreases s.len(),
{
    let head = s.drop_last();
    assert(forall|k: int| 0 <= k < head.len() ==> #[trigger] head[k] == s[k]);
    if i == s.len() - 1 {
        lemma_sharing_none(head, t);
        assert(sharing(s, t) =~= seq![s[i]]);
    } else {
        lemma_sharing_one(head, i, t);
    }
}

/// Whether no two values share a place.
pub open spec fn all_apart<T: Ranked>(s: Seq<T>) -> bool {
    forall|i: int, j: int|
        0 <= i < s.len() && 0 <= j < s.len() && i != j ==> !same_rank(
            #[trigger] s[i],
            #[trigger] s[j],
        )
}

/// Values of which no two share a place, and the same values in another order, share with any value
/// alike.
proof fn lemma_sharing_apart<T: Ranked>(a: Seq<T>, b: Seq<T>, t: T)
    requires
        all_apart(a),
        all_apart(b),
        forall|i: int| 0 <= i < a.len() ==> b.contains(#[trigger] a[i]),
        forall|j: int| 0 <= j < b.len() ==> a.contains(#[trigger] b[j]),
    ensures
        sharing(a, t) == sharing(b, t),
{
    if exists|i: int| 0 <= i < a.len() && same_rank(#[trigger] a[i], t) {
        let i = choose|i: int| 0 <= i < a.len() && same_rank(#[trigger] a[i], t);
        let j = choose|j: int| 0 <= j < b.len() && b[j] == a[i];
        assert forall|k: int| 0 <= k < a.len() && k != i implies !same_rank(#[trigger] a[k], t) by {
            if same_rank(a[k], t) {
                T::transitive(a[k], t, a[i]);
                T::transitive(a[i], t, a[k]);
            }
        }
        assert forall|k: int| 0 <= k < b.len() && k != j implies !same_rank(#[trigger] b[k], t) by {
            if same_rank(b[k], t) {
                T::transitive(b[k], t, b[j]);
                T::transitive(b[j], t, b[k]);
            }
        }
        lemma_sharing_one(a, i, t);
        lemma_sharing_one(b, j, t);
    } else {
        assert forall|k: int| 0 <= k < b.len() implies !same_rank(#[trigger] b[k], t) by {
            let i = choose|i: int| 0 <= i < a.len() && a[i] == b[k];
            assert(!same_rank(a[i], t));
        }
        lemma_sharing_none(a, t);
        lemma_sharing_none(b, t);
    }
}

/// Where no two values share a place, it does not matter in which order they are sorted.
pub proof fn law_order_does_not_matter<T: Ranked>(a: Seq<T>, b: Seq<T>)
    requires
        a.len() == b.len(),
        all_apart(a),
        all_apart(b),
        forall|i: int| 0 <= i < a.len() ==> b.contains(#[trigger] a[i]),
        forall|j: int| 0 <= j < b.len() ==> a.contains(#[trigger] b[j]),
    ensures
        in_order(a) == in_order(b),
{
    lemma_in_order_sorts(a);
    let r = in_order(a);
    assert forall|t: T| #[trigger] sharing(r, t) == sharing(b, t) by {
        lemma_sharing_apart(a, b, t);
        assert(sharing(r, t) == sharing(a, t));
    }
    lemma_in_order(b, r);
}

/// `sharing` of one sequence after another.
proof fn lemma_sharing_add<T: Ranked>(a: Seq<T>, b: Seq<T>, t: T)
    ensures
        sharing(a + b, t) == sharing(a, t) + sharing(b, t),
    decreases b.len(),
{
    if b.len() == 0 {
        assert(a + b =~= a);
        assert(sharing(a, t) + sharing(b, t) =~= sharing(a, t));
    } else {
        assert((a + b).drop_last() =~= a + b.drop_last());
        lemma_sharing_add(a, b.drop_last(), t);
        assert(sharing(a, t) + sharing(b, t) =~= if same_rank(b.last(), t) {
            (sharing(a, t) + sharing(b.drop_last(), t)).push(b.last())
        } else {
            sharing(a, t) + sharing(b.drop_last(), t)
        });
    }
}

/// A value put behind all that are not after it is the last of those that share its place.
proof fn lemma_sharing_insert<T: Ranked>(s: Seq<T>, at: int, x: T, t: T)
    requires
        0 <= at <= s.len(),
        forall|k: int| at <= k < s.len() ==> !(#[trigger] s[k]).precedes(x),
    ensures
        sharing(s.insert(at, x), t) == sharing(s.push(x), t),
{
    let head = s.take(at);
    let tail = s.skip(at);
    assert(s.insert(at, x) =~= head.push(x) + tail);
    assert(s =~= head + tail);
    lemma_sharing_add(head.push(x), tail, t);
    lemma_sharing_add(head, tail, t);
    assert(head.push(x).drop_last() =~= head);
    assert(s.push(x).drop_last() =~= s);
    if same_rank(x, t) {
        assert forall|k: int| 0 <= k < tail.len() implies !same_rank(#[trigger] tail[k], t) by {
            assert(tail[k] == s[at + k]);
            if same_rank(tail[k], t) {
                T::transitive(tail[k], t, x);
            }
        }
        lemma_sharing_none(tail, t);
        assert(sharing(s.insert(at, x), t) =~= sharing(head, t).push(x));
        assert(sharing(s, t) =~= sharing(head, t));
    } else {
        assert(sharing(head.push(x), t) == sharing(head, t));
    }
}

/// Where a value goes in a sorted list: behind all that are not after it.
fn place<T: Ranked>(sorted: &Vec<T>, x: &T) -> (r: usize)
    requires
        ordered(sorted@),
    ensures
        r <= sorted@.len(),
        forall|k: int| 0 <= k < r ==> (#[trigger] sorted@[k]).precedes(*x),
        forall|k: int| r <= k < sorted@.len() ==> !(#[trigger] sorted@[k]).precedes(*x),
{
    let mut i: usize = 0;
    while i < sorted.len() && sorted[i].not_after(x)
        invariant
            i <= sorted.len(),
            forall|k: int| 0 <= k < i ==> (#[trigger] sorted@[k]).precedes(*x),
        decreases sorted.len() - i,
    {
        i = i + 1;
    }
    proof {
        assert forall|k: int| i <= k < sorted@.len() implies !(#[trigger] sorted@[k]).precedes(*x) by {
            if sorted@[k].precedes(*x) && k > i {
                T::transitive(sorted@[i as int], sorted@[k], *x);
            }
        }
    }
    i
}

/// Sorts values, keeping the order of those that share a place.
pub fn stable_sort<T: Ranked>(values: Vec<T>) -> (r: Vec<T>)
    ensures
        stably_sorts(values@, r@),
        r@ == in_order(values@),
{
    let mut rest = values;
    let mut sorted: Vec<T> = Vec::new();
    let ghost all = values@;
    let ghost mut done: int = 0;
    assert(all.take(0) =~= Seq::<T>::empty());
    assert(all.skip(0) =~= all);
    while rest.len() > 0
        invariant
            0 <= done <= all.len(),
            rest@ == all.skip(done),
            sorted@.len() == done,
            ordered(sorted@),
            forall|t: T| #[trigger] sharing(sorted@, t) == sharing(all.take(done), t),
        decreases rest.len(),
    {
        let ghost before = sorted@;
        let x = rest.remove(0);
        let at = place(&sorted, &x);
        sorted.insert(at, x);
        proof {
            assert(x == all[done]);
            assert(rest@ =~= all.skip(done + 1));
            assert forall|i: int, j: int| 0 <= i < j < sorted@.len() implies (
            #[trigger] sorted@[i]).precedes(#[trigger] sorted@[j]) by {
                if i == at {
                    assert(sorted@[j] == before[j - 1]);
                    T::total(x, before[j - 1]);
                } else if j == at {
                    assert(sorted@[i] == before[i]);
                } else if i < at && j < at {
                    assert(before[i].precedes(before[j]));
                } else if i < at && j > at {
                    assert(before[i].precedes(before[j - 1]));
                } else {
                    assert(before[i - 1].precedes(before[j - 1]));
                }
            }
            assert(all.take(done + 1) =~= all.take(done).push(x));
            assert forall|t: T| #[trigger] sharing(sorted@, t) == sharing(all.take(done + 1), t) by {
                lemma_sharing_insert(before, at as int, x, t);
                assert(before.push(x).drop_last() =~= before);
                assert(all.take(done).push(x).drop_last() =~= all.take(done));
                assert(sharing(before, t) == sharing(all.take(done), t));
            }
            done = done + 1;
        }
    }
    assert(all.take(done) =~= all);
    proof {
        lemma_in_order(all, sorted@);
    }
    sorted
}

/// Sorts values and keeps one for each place.
pub fn sort_without_repetition<T: Ranked>(values: Vec<T>) -> (r: Vec<T>)
    ensures
        sorts_without_repetition(values@, r@),
{
    let mut rest = values;
    let mut sorted: Vec<T> = Vec::new();
    let ghost all = values@;
    let ghost mut done: int = 0;
    assert(all.skip(0) =~= all);
    while rest.len() > 0
        invariant
            0 <= done <= all.len(),
            rest@ == all.skip(done),
            strictly_ordered(sorted@),
            forall|i: int| 0 <= i < sorted@.len() ==> all.contains(#[trigger] sorted@[i]),
            forall|j: int| 0 <= j < done ==> #[trigger] has_rank(sorted@, all[j]),
        decreases rest.len(),
    {
        let ghost before = sorted@;
        let x = rest.remove(0);
        let at = place(&sorted, &x);
        assert(x == all[done]);
        assert(rest@ =~= all.skip(done + 1));
        if at > 0 && x.not_after(&sorted[at - 1]) {
            assert(same_rank(sorted@[at - 1], x));
            assert(has_rank(sorted@, all[done]));
            proof {
                done = done + 1;
            }
        } else {
            sorted.insert(at, x);
            proof {
                assert forall|i: int, j: int| 0 <= i < j < sorted@.len() implies (
                #[trigger] sorted@[i]).precedes(#[trigger] sorted@[j]) && !sorted@[j].precedes(
                    sorted@[i],
                ) by {
                    if i == at {
                        assert(sorted@[j] == before[j - 1]);
                        T::total(x, before[j - 1]);
                    } else if j == at {
                        assert(sorted@[i] == before[i]);
                        if i < at - 1 && x.precedes(before[i]) {
                            assert(before[i].precedes(before[at - 1]));
                            T::transitive(x, before[i], before[at - 1]);
                        }
                    } else if i < at && j < at {
                        assert(before[i].precedes(before[j]));
                    } else if i < at && j > at {
                        assert(before[i].precedes(before[j - 1]));
                    } else {
                        assert(before[i - 1].precedes(before[j - 1]));
                    }
                }
                assert forall|i: int| 0 <= i < sorted@.len() implies all.contains(
                    #[trigger] sorted@[i],
                ) by {
                    if i < at {
                        assert(sorted@[i] == before[i]);
                    } else if i > at {
                        assert(sorted@[i] == before[i - 1]);
                    }
                }
                T::total(x, x);
                assert(same_rank(sorted@[at as int], all[done]));
                assert forall|j: int| 0 <= j < done + 1 implies #[trigger] has_rank(
                    sorted@,
                    all[j],
                ) by {
                    if j < done {
                        assert(has_rank(before, all[j]));
                        let i = choose|i: int|
                            0 <= i < before.len() && same_rank(#[trigger] before[i], all[j]);
                        if i < at {
                            assert(sorted@[i] == before[i]);
                        } else {
                            assert(sorted@[i + 1] == before[i]);
                        }
                    }
                }
                done = done + 1;
            }
        }
    }
    sorted
}

/// Sorting keeps every value.
pub proof fn law_stable_sort_keeps_values<T: Ranked>(s: Seq<T>, r: Seq<T>, i: int)
    requires
        stably_sorts(s, r),
        0 <= i < s.len(),
    ensures
        r.contains(s[i]),
{
    let t = s[i];
    T::total(t, t);
    lemma_sharing_holds(s, i, t);
    lemma_sharing_comes_from(r, t);
    let k = choose|k: int| 0 <= k < sharing(r, t).len() && sharing(r, t)[k] == t;
    assert(r.contains(sharing(r, t)[k]));
}

/// A value that shares the place of `t` is in `sharing`.
proof fn lemma_sharing_holds<T: Ranked>(s: Seq<T>, i: int, t: T)
    requires
        0 <= i < s.len(),
        same_rank(s[i], t),
    ensures
        sharing(s, t).contains(s[i]),
    decreases s.len(),
{
    if i == s.len() - 1 {
        assert(sharing(s, t).last() == s[i]);
    } else {
        lemma_sharing_holds(s.drop_last(), i, t);
        let shorter = sharing(s.drop_last(), t);
        let k = choose|k: int| 0 <= k < shorter.len() && shorter[k] == s[i];
        assert(sharing(s, t)[k] == s[i]);
    }
}

/// What is in `sharing` is in the sequence.
proof fn lemma_sharing_comes_from<T: Ranked>(s: Seq<T>, t: T)
    ensures
        forall|k: int| 0 <= k < sharing(s, t).len() ==> s.contains(#[trigger] sharing(s, t)[k]),
    decreases s.len(),
{
    if s.len() > 0 {
        lemma_sharing_comes_from(s.drop_last(), t);
        assert forall|k: int| 0 <= k < sharing(s, t).len() implies s.contains(
            #[trigger] sharing(s, t)[k],
        ) by {
            let shorter = sharing(s.drop_last(), t);
            if k < shorter.len() {
                assert(s.drop_last().contains(shorter[k]));
                let m = choose|m: int|
                    0 <= m < s.drop_last().len() && s.drop_last()[m] == shorter[k];
                assert(s[m] == shorter[k]);
            } else {
                assert(s[s.len() - 1] == sharing(s, t)[k]);
            }
        }
    }
}

/// There is one way to sort stably.
pub proof fn law_stable_sort_is_unique<T: Ranked>(s: Seq<T>, a: Seq<T>, b: Seq<T>)
    requires
        stably_sorts(s, a),
        stably_sorts(s, b),
    ensures
        a == b,
{
    assert forall|t: T| #[trigger] sharing(a, t) == sharing(b, t) by {
        assert(sharing(a, t) == sharing(s, t));
    }
    lemma_ordered_twins(a, b);
}

/// Ordered sequences that agree on every place are the same.
pub proof fn lemma_ordered_twins<T: Ranked>(a: Seq<T>, b: Seq<T>)
    requires
        a.len() == b.len(),
        ordered(a),
        ordered(b),
        forall|t: T| #[trigger] sharing(a, t) == sharing(b, t),
    ensures
        a == b,
    decreases a.len(),
{
    if a.len() == 0 {
        assert(a =~= b);
    } else {
        let x = a.last();
        let y = b.last();
        T::total(x, x);
        T::total(y, y);
        lemma_last_is_greatest(b, a, x);
        lemma_last_is_greatest(a, b, y);
        assert(same_rank(x, y));
        assert(same_rank(y, x));
        assert(sharing(a, x).last() == x);
        assert(sharing(b, x).last() == y);
        assert forall|t: T| #[trigger] sharing(a.drop_last(), t) == sharing(b.drop_last(), t) by {
            assert(sharing(a, t) == sharing(b, t));
            if same_rank(x, t) {
                assert(sharing(a, t).drop_last() =~= sharing(a.drop_last(), t));
                assert(sharing(b, t).drop_last() =~= sharing(b.drop_last(), t));
            }
        }
        lemma_ordered_twins(a.drop_last(), b.drop_last());
        assert(a =~= a.drop_last().push(x));
        assert(b =~= b.drop_last().push(y));
    }
}

/// The last value of an ordered sequence is not before the last one of its twin.
proof fn lemma_last_is_greatest<T: Ranked>(s: Seq<T>, twin: Seq<T>, x: T)
    requires
        s.len() > 0,
        twin.len() > 0,
        twin.last() == x,
        ordered(s),
        x.precedes(x),
        sharing(twin, x) == sharing(s, x),
    ensures
        x.precedes(s.last()),
{
    lemma_sharing_holds(twin, twin.len() - 1, x);
    lemma_sharing_comes_from(s, x);
    let k = choose|k: int| 0 <= k < sharing(s, x).len() && sharing(s, x)[k] == x;
    assert(s.contains(sharing(s, x)[k]));
    let m = choose|m: int| 0 <= m < s.len() && s[m] == x;
    if m < s.len() - 1 {
        assert(s[m].precedes(s[s.len() - 1]));
    }
}

/// `s` in order, values that share a place as they stood.
pub open spec fn in_order<T: Ranked>(s: Seq<T>) -> Seq<T> {
    choose|r: Seq<T>| stably_sorts(s, r)
}

/// A stable sort of `s` is `in_order`.
pub proof fn lemma_in_order<T: Ranked>(s: Seq<T>, r: Seq<T>)
    requires
        stably_sorts(s, r),
    ensures
        in_order(s) == r,
{
    law_stable_sort_is_unique(s, in_order(s), r);
}

/// An ordered sequence with one more value, behind all that are not after it.
spec fn with_inserted<T: Ranked>(s: Seq<T>, x: T) -> Seq<T>
    decreases s.len(),
{
    if s.len() == 0 || s.last().precedes(x) {
        s.push(x)
    } else {
        with_inserted(s.drop_last(), x).push(s.last())
    }
}

/// A value can be inserted.
proof fn lemma_with_inserted<T: Ranked>(s: Seq<T>, x: T)
    requires
        ordered(s),
    ensures
        with_inserted(s, x).len() == s.len() + 1,
        ordered(with_inserted(s, x)),
        forall|i: int|
            0 <= i < with_inserted(s, x).len() ==> (#[trigger] with_inserted(s, x)[i]) == x
                || s.contains(with_inserted(s, x)[i]),
        forall|t: T| #[trigger] sharing(with_inserted(s, x), t) == sharing(s.push(x), t),
    decreases s.len(),
{
    let r = with_inserted(s, x);
    if s.len() == 0 || s.last().precedes(x) {
        assert forall|i: int, j: int| 0 <= i < j < r.len() implies (#[trigger] r[i]).precedes(
            #[trigger] r[j],
        ) by {
            if j == s.len() && i < s.len() - 1 {
                assert(s[i].precedes(s.last()));
                T::transitive(s[i], s.last(), x);
            }
        }
        assert forall|i: int| 0 <= i < r.len() implies (#[trigger] r[i]) == x || s.contains(
            r[i],
        ) by {
            if i < s.len() {
                assert(r[i] == s[i]);
            }
        }
    } else {
        let head = s.drop_last();
        let last = s.last();
        lemma_with_inserted(head, x);
        let q = with_inserted(head, x);
        T::total(x, last);
        assert forall|i: int| 0 <= i < q.len() implies (#[trigger] q[i]).precedes(last) by {
            if q[i] != x {
                let k = choose|k: int| 0 <= k < head.len() && head[k] == q[i];
                assert(s[k].precedes(s[s.len() - 1]));
            }
        }
        assert forall|i: int, j: int| 0 <= i < j < r.len() implies (#[trigger] r[i]).precedes(
            #[trigger] r[j],
        ) by {
            if j < q.len() {
                assert(q[i].precedes(q[j]));
            }
        }
        assert forall|i: int| 0 <= i < r.len() implies (#[trigger] r[i]) == x || s.contains(
            r[i],
        ) by {
            if i < q.len() {
                if q[i] != x {
                    let k = choose|k: int| 0 <= k < head.len() && head[k] == q[i];
                    assert(s[k] == r[i]);
                }
            } else {
                assert(s[s.len() - 1] == r[i]);
            }
        }
        assert forall|t: T| #[trigger] sharing(r, t) == sharing(s.push(x), t) by {
            assert(r.drop_last() =~= q);
            assert(s.push(x).drop_last() =~= s);
            assert(head.push(x).drop_last() =~= head);
            assert(sharing(q, t) == sharing(head.push(x), t));
            if same_rank(last, t) && same_rank(x, t) {
                T::transitive(last, t, x);
            }
            assert(sharing(s, t) == if same_rank(last, t) {
                sharing(head, t).push(last)
            } else {
                sharing(head, t)
            });
            assert(sharing(head.push(x), t) == if same_rank(x, t) {
                sharing(head, t).push(x)
            } else {
                sharing(head, t)
            });
            assert(sharing(s.push(x), t) == if same_rank(x, t) {
                sharing(s, t).push(x)
            } else {
                sharing(s, t)
            });
            assert(sharing(q.push(last), t) == if same_rank(last, t) {
                sharing(q, t).push(last)
            } else {
                sharing(q, t)
            });
        }
    }
}

/// Every sequence can be sorted.
pub proof fn lemma_in_order_sorts<T: Ranked>(s: Seq<T>)
    ensures
        stably_sorts(s, in_order(s)),
    decreases s.len(),
{
    if s.len() == 0 {
        assert(stably_sorts(s, s));
    } else {
        let head = s.drop_last();
        let x = s.last();
        lemma_in_order_sorts(head);
        let sorted = in_order(head);
        lemma_with_inserted(sorted, x);
        let r = with_inserted(sorted, x);
        assert forall|t: T| #[trigger] sharing(r, t) == sharing(s, t) by {
            assert(sharing(r, t) == sharing(sorted.push(x), t));
            assert(sorted.push(x).drop_last() =~= sorted);
            assert(sharing(sorted, t) == sharing(head, t));
        }
        assert(stably_sorts(s, r));
    }
}

/// Sorting adds no value.
pub proof fn law_stable_sort_adds_nothing<T: Ranked>(s: Seq<T>, r: Seq<T>, i: int)
    requires
        stably_sorts(s, r),
        0 <= i < r.len(),
    ensures
        s.contains(r[i]),
{
    let t = r[i];
    T::total(t, t);
    lemma_sharing_holds(r, i, t);
    lemma_sharing_comes_from(s, t);
    let k = choose|k: int| 0 <= k < sharing(s, t).len() && sharing(s, t)[k] == t;
    assert(s.contains(sharing(s, t)[k]));
}

} // verus!
