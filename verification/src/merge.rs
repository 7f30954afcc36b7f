//! The two-stream merge-reduce algorithm: its mathematical definition, the
//! verified executable merge, and the laws it obeys.

use crate::order::{Comparator, DefaultComparator, KeepExisting, Reducer};
use core::cmp::Ordering;
use vstd::multiset::Multiset;
use vstd::prelude::*;

verus! {

/// `a` is not ordered strictly after `b`: the comparator answers `Less`,
/// `Equal`, or `None` (an incomparable pair stays in encounter order).
pub open spec fn sorts_before<T, C: Comparator<T>>(comp: C, a: T, b: T) -> bool {
    comp.compare_spec(a, b) != Some(Ordering::Greater)
}

/// Every adjacent pair of `s` is in order under `comp`: what "sorted" means
/// for a partial order whose incomparable pairs stay in encounter order.
pub open spec fn sorted_under<T, C: Comparator<T>>(comp: C, s: Seq<T>) -> bool {
    forall|i: int, j: int|
        #![trigger s[i], s[j]]
        0 <= i && j == i + 1 && j < s.len() ==> sorts_before(comp, s[i], s[j])
}

/// The comparator never orders each of two elements strictly after the other.
pub open spec fn greater_antisymmetric<T, C: Comparator<T>>(comp: C) -> bool {
    forall|a: T, b: T|
        (#[trigger] comp.compare_spec(a, b)) == Some(Ordering::Greater)
            ==> comp.compare_spec(b, a) != Some(Ordering::Greater)
}

/// Elements the comparator calls `Equal` are interchangeable in every other
/// comparison: the comparator looks only at a key that equal elements share.
pub open spec fn equals_congruent<T, C: Comparator<T>>(comp: C) -> bool {
    forall|a: T, b: T, c: T|
        #![trigger comp.compare_spec(a, b), comp.compare_spec(a, c)]
        #![trigger comp.compare_spec(a, b), comp.compare_spec(c, a)]
        comp.compare_spec(a, b) == Some(Ordering::Equal) ==> (comp.compare_spec(a, c)
            == comp.compare_spec(b, c) && comp.compare_spec(c, a) == comp.compare_spec(c, b))
}

/// A successful reduction keeps the key of the element it replaces: the
/// combined element compares `Equal` to the existing one.
pub open spec fn reducer_keeps_key<T, C: Comparator<T>, R: Reducer<T>>(comp: C, red: R) -> bool {
    forall|a: T, b: T|
        comp.compare_spec(a, b) == Some(Ordering::Equal) && (#[trigger] red.reduce_spec(a, b))
            is Ok ==> comp.compare_spec(red.reduce_spec(a, b)->Ok_0, a) == Some(Ordering::Equal)
}

/// From one `Equal` answer, replaces one side of any other comparison.
proof fn lemma_equal_swap<T, C: Comparator<T>>(comp: C, a: T, b: T, c: T)
    requires
        equals_congruent(comp),
        comp.compare_spec(a, b) == Some(Ordering::Equal),
    ensures
        comp.compare_spec(a, c) == comp.compare_spec(b, c),
        comp.compare_spec(c, a) == comp.compare_spec(c, b),
{
}

/// Prepends an already-emitted prefix to the outcome of the rest of a merge.
pub open spec fn prepend_merged<T, E>(prefix: Seq<T>, rest: Result<Seq<T>, E>) -> Result<
    Seq<T>,
    E,
> {
    match rest {
        Ok(s) => Ok(prefix + s),
        Err(e) => Err(e),
    }
}

/// The comparator-sorted union of two individually-sorted streams `a` and `b`,
/// with equal-keyed cross-stream pairs collapsed by the reducer; or the first
/// reduction error. This is the mathematical meaning of one update:
/// - both streams live: the heads are compared. `Less` — or `None`, an
///   incomparable pair is treated as "left sorts first" — emits `a`'s head;
///   `Greater` emits `b`'s head; `Equal` emits the reduction of the two heads
///   and consumes both. Elements of the same stream are never reduced against
///   each other.
/// - one stream exhausted: the rest of the other is emitted verbatim.
pub open spec fn merge_spec<T, C: Comparator<T>, R: Reducer<T>>(
    comp: C,
    red: R,
    a: Seq<T>,
    b: Seq<T>,
) -> Result<Seq<T>, R::Error>
    decreases a.len() + b.len(),
{
    if a.len() == 0 {
        Ok(b)
    } else if b.len() == 0 {
        Ok(a)
    } else {
        match comp.compare_spec(a[0], b[0]) {
            Some(Ordering::Greater) => prepend_merged(
                seq![b[0]],
                merge_spec(comp, red, a, b.skip(1)),
            ),
            Some(Ordering::Equal) => match red.reduce_spec(a[0], b[0]) {
                Ok(combined) => prepend_merged(
                    seq![combined],
                    merge_spec(comp, red, a.skip(1), b.skip(1)),
                ),
                Err(e) => Err(e),
            },
            _ => prepend_merged(seq![a[0]], merge_spec(comp, red, a.skip(1), b)),
        }
    }
}

/// Merges the drained contents of `src_a` with the batch `src_b` into
/// `target`, exactly as `merge_spec` describes. `target` is cleared first;
/// `src_a` is left empty, whether the merge completes or a reduction fails.
/// On a reduction failure the error is returned and `target` is left holding
/// the part of the merge emitted before the failure.
pub fn union_into<T, C: Comparator<T>, R: Reducer<T>>(
    target: &mut Vec<T>,
    src_a: &mut Vec<T>,
    src_b: Vec<T>,
    comp: &C,
    red: &R,
) -> (res: Result<(), R::Error>)
    ensures
        final(src_a)@ == Seq::<T>::empty(),
        match merge_spec(*comp, *red, old(src_a)@, src_b@) {
            Ok(s) => res is Ok && final(target)@ == s,
            Err(e) => res == Err::<(), R::Error>(e),
        },
{
    let ghost a0 = src_a@;
    let ghost b0 = src_b@;
    let mut rest_b = src_b;
    target.clear();
    loop
        invariant
            a0 == old(src_a)@,
            b0 == src_b@,
            merge_spec(*comp, *red, a0, b0) == prepend_merged(
                target@,
                merge_spec(*comp, *red, src_a@, rest_b@),
            ),
        ensures
            src_a@ == Seq::<T>::empty(),
            rest_b@ == Seq::<T>::empty(),
            merge_spec(*comp, *red, a0, b0) == Ok::<Seq<T>, R::Error>(target@),
        decreases src_a@.len() + rest_b@.len(),
    {
        if src_a.len() > 0 && rest_b.len() > 0 {
            let ghost rem_a = src_a@;
            let ghost rem_b = rest_b@;
            let ghost emitted = target@;
            let ordering = comp.compare(&src_a[0], &rest_b[0]);
            match ordering {
                Some(Ordering::Greater) => {
                    let entry_b = rest_b.remove(0);
                    target.push(entry_b);
                    proof {
                        assert(rest_b@ =~= rem_b.skip(1));
                        assert(target@ =~= emitted + seq![rem_b[0]]);
                        assert(merge_spec(*comp, *red, rem_a, rem_b) == prepend_merged(
                            seq![rem_b[0]],
                            merge_spec(*comp, *red, rem_a, rem_b.skip(1)),
                        ));
                        lemma_emit_step(
                            emitted,
                            seq![rem_b[0]],
                            merge_spec(*comp, *red, rem_a, rem_b.skip(1)),
                        );
                    }
                },
                Some(Ordering::Equal) => {
                    let mut entry_a = src_a.remove(0);
                    let entry_b = rest_b.remove(0);
                    match red.reduce(&mut entry_a, entry_b) {
                        Ok(()) => {
                            target.push(entry_a);
                            proof {
                                assert(src_a@ =~= rem_a.skip(1));
                                assert(rest_b@ =~= rem_b.skip(1));
                                assert(target@ =~= emitted + seq![entry_a]);
                                assert(merge_spec(*comp, *red, rem_a, rem_b) == prepend_merged(
                                    seq![entry_a],
                                    merge_spec(*comp, *red, rem_a.skip(1), rem_b.skip(1)),
                                ));
                                lemma_emit_step(
                                    emitted,
                                    seq![entry_a],
                                    merge_spec(*comp, *red, rem_a.skip(1), rem_b.skip(1)),
                                );
                            }
                        },
                        Err(e) => {
                            proof {
                                assert(merge_spec(*comp, *red, rem_a, rem_b) == Err::<
                                    Seq<T>,
                                    R::Error,
                                >(e));
                                assert(merge_spec(*comp, *red, a0, b0) == Err::<
                                    Seq<T>,
                                    R::Error,
                                >(e));
                            }
                            src_a.clear();
                            return Err(e);
                        },
                    }
                },
                _ => {
                    let entry_a = src_a.remove(0);
                    target.push(entry_a);
                    proof {
                        assert(src_a@ =~= rem_a.skip(1));
                        assert(target@ =~= emitted + seq![rem_a[0]]);
                        assert(merge_spec(*comp, *red, rem_a, rem_b) == prepend_merged(
                            seq![rem_a[0]],
                            merge_spec(*comp, *red, rem_a.skip(1), rem_b),
                        ));
                        lemma_emit_step(
                            emitted,
                            seq![rem_a[0]],
                            merge_spec(*comp, *red, rem_a.skip(1), rem_b),
                        );
                    }
                },
            }
        } else if src_a.len() > 0 {
            let ghost rem_a = src_a@;
            let ghost emitted = target@;
            let entry_a = src_a.remove(0);
            target.push(entry_a);
            proof {
                assert(src_a@ =~= rem_a.skip(1));
                assert(target@ =~= emitted + seq![rem_a[0]]);
                assert(merge_spec(*comp, *red, rem_a.skip(1), rest_b@) == Ok::<Seq<T>, R::Error>(
                    rem_a.skip(1),
                )) by {
                    if rem_a.skip(1).len() == 0 {
                        assert(rest_b@ =~= rem_a.skip(1));
                    }
                }
                assert(merge_spec(*comp, *red, rem_a, rest_b@) == prepend_merged(
                    seq![rem_a[0]],
                    merge_spec(*comp, *red, rem_a.skip(1), rest_b@),
                )) by {
                    assert(seq![rem_a[0]] + rem_a.skip(1) =~= rem_a);
                }
                lemma_emit_step(
                    emitted,
                    seq![rem_a[0]],
                    merge_spec(*comp, *red, rem_a.skip(1), rest_b@),
                );
            }
        } else if rest_b.len() > 0 {
            let ghost rem_b = rest_b@;
            let ghost emitted = target@;
            let entry_b = rest_b.remove(0);
            target.push(entry_b);
            proof {
                assert(rest_b@ =~= rem_b.skip(1));
                assert(target@ =~= emitted + seq![rem_b[0]]);
                assert(merge_spec(*comp, *red, src_a@, rem_b) == prepend_merged(
                    seq![rem_b[0]],
                    merge_spec(*comp, *red, src_a@, rem_b.skip(1)),
                )) by {
                    assert(seq![rem_b[0]] + rem_b.skip(1) =~= rem_b);
                }
                lemma_emit_step(
                    emitted,
                    seq![rem_b[0]],
                    merge_spec(*comp, *red, src_a@, rem_b.skip(1)),
                );
            }
        } else {
            proof {
                assert(target@ + rest_b@ =~= target@);
            }
            break;
        }
    }
    Ok(())
}

/// A merge driven by a reducer that never fails cannot fail.
pub proof fn lemma_merge_total<T, C: Comparator<T>, R: Reducer<T>>(
    comp: C,
    red: R,
    a: Seq<T>,
    b: Seq<T>,
)
    requires
        forall|x: T, y: T| (#[trigger] red.reduce_spec(x, y)) is Ok,
    ensures
        merge_spec(comp, red, a, b) is Ok,
    decreases a.len() + b.len(),
{
    if a.len() == 0 {
    } else if b.len() == 0 {
    } else {
        match comp.compare_spec(a[0], b[0]) {
            Some(Ordering::Greater) => lemma_merge_total(comp, red, a, b.skip(1)),
            Some(Ordering::Equal) => {
                assert(red.reduce_spec(a[0], b[0]) is Ok);
                lemma_merge_total(comp, red, a.skip(1), b.skip(1));
            },
            _ => lemma_merge_total(comp, red, a.skip(1), b),
        }
    }
}

/// A sorted sequence stays sorted when its first element is dropped.
proof fn lemma_sorted_skip<T, C: Comparator<T>>(comp: C, s: Seq<T>)
    requires
        sorted_under(comp, s),
        s.len() > 0,
    ensures
        sorted_under(comp, s.skip(1)),
{
    assert forall|i: int, j: int|
        0 <= i && j == i + 1 && j < s.skip(1).len() implies sorts_before(
        comp,
        #[trigger] s.skip(1)[i],
        #[trigger] s.skip(1)[j],
    ) by {
        assert(s.skip(1)[i] == s[i + 1]);
        assert(s.skip(1)[j] == s[j + 1]);
        assert(sorts_before(comp, s[i + 1], s[j + 1]));
    };
}

/// A sorted sequence stays sorted under an element that sorts no later than
/// its head.
proof fn lemma_sorted_cons<T, C: Comparator<T>>(comp: C, x: T, s: Seq<T>)
    requires
        sorted_under(comp, s),
        s.len() > 0 ==> sorts_before(comp, x, s[0]),
    ensures
        sorted_under(comp, seq![x] + s),
{
    let t = seq![x] + s;
    assert forall|i: int, j: int|
        0 <= i && j == i + 1 && j < t.len() implies sorts_before(
        comp,
        #[trigger] t[i],
        #[trigger] t[j],
    ) by {
        if i == 0 {
            assert(t[0] == x);
            assert(t[1] == s[0]);
        } else {
            assert(t[i] == s[i - 1]);
            assert(t[j] == s[j - 1]);
            assert(sorts_before(comp, s[i - 1], s[j - 1]));
        }
    };
}

/// The induction behind [`lemma_merge_sorted`], strengthened with where the
/// head of the merged stream comes from.
proof fn lemma_merge_sorted_rec<T, C: Comparator<T>, R: Reducer<T>>(
    comp: C,
    red: R,
    a: Seq<T>,
    b: Seq<T>,
)
    requires
        greater_antisymmetric(comp),
        equals_congruent(comp),
        reducer_keeps_key(comp, red),
        sorted_under(comp, a),
        sorted_under(comp, b),
        merge_spec(comp, red, a, b) is Ok,
    ensures
        sorted_under(comp, merge_spec(comp, red, a, b)->Ok_0),
        (merge_spec(comp, red, a, b)->Ok_0).len() > 0 ==> {
            let h = (merge_spec(comp, red, a, b)->Ok_0)[0];
            (a.len() > 0 && (h == a[0] || comp.compare_spec(h, a[0]) == Some(Ordering::Equal))) || (
            b.len() > 0 && h == b[0])
        },
    decreases a.len() + b.len(),
{
    let s = merge_spec(comp, red, a, b)->Ok_0;
    if a.len() == 0 {
        assert(s == b);
    } else if b.len() == 0 {
        assert(s == a);
    } else {
        match comp.compare_spec(a[0], b[0]) {
            Some(Ordering::Greater) => {
                let rest = merge_spec(comp, red, a, b.skip(1));
                assert(rest is Ok);
                lemma_sorted_skip(comp, b);
                lemma_merge_sorted_rec(comp, red, a, b.skip(1));
                let s1 = rest->Ok_0;
                assert(s == seq![b[0]] + s1);
                if s1.len() > 0 {
                    let h = s1[0];
                    if a.len() > 0 && (h == a[0] || comp.compare_spec(h, a[0]) == Some(
                        Ordering::Equal,
                    )) {
                        // antisymmetry: a[0] is greater, so b[0] sorts no
                        // later than a[0], hence no later than its key class
                        if h != a[0] {
                            lemma_equal_swap(comp, h, a[0], b[0]);
                        }
                        assert(sorts_before(comp, b[0], h));
                    } else {
                        assert(h == b.skip(1)[0]);
                        assert(sorts_before(comp, b[0], b[1]));
                    }
                }
                lemma_sorted_cons(comp, b[0], s1);
            },
            Some(Ordering::Equal) => {
                let combined = red.reduce_spec(a[0], b[0])->Ok_0;
                assert(red.reduce_spec(a[0], b[0]) is Ok);
                assert(comp.compare_spec(combined, a[0]) == Some(Ordering::Equal));
                let rest = merge_spec(comp, red, a.skip(1), b.skip(1));
                assert(rest is Ok);
                lemma_sorted_skip(comp, a);
                lemma_sorted_skip(comp, b);
                lemma_merge_sorted_rec(comp, red, a.skip(1), b.skip(1));
                let s1 = rest->Ok_0;
                assert(s == seq![combined] + s1);
                if s1.len() > 0 {
                    let h = s1[0];
                    if a.skip(1).len() > 0 && (h == a.skip(1)[0] || comp.compare_spec(
                        h,
                        a.skip(1)[0],
                    ) == Some(Ordering::Equal)) {
                        assert(a.skip(1)[0] == a[1]);
                        assert(sorts_before(comp, a[0], a[1]));
                        if h != a[1] {
                            lemma_equal_swap(comp, h, a[1], combined);
                        }
                        lemma_equal_swap(comp, combined, a[0], h);
                        assert(sorts_before(comp, combined, h));
                    } else {
                        assert(h == b.skip(1)[0]);
                        assert(sorts_before(comp, b[0], b[1]));
                        lemma_equal_swap(comp, combined, a[0], h);
                        lemma_equal_swap(comp, a[0], b[0], h);
                        assert(sorts_before(comp, combined, h));
                    }
                }
                lemma_sorted_cons(comp, combined, s1);
            },
            _ => {
                let rest = merge_spec(comp, red, a.skip(1), b);
                assert(rest is Ok);
                lemma_sorted_skip(comp, a);
                lemma_merge_sorted_rec(comp, red, a.skip(1), b);
                let s1 = rest->Ok_0;
                assert(s == seq![a[0]] + s1);
                if s1.len() > 0 {
                    let h = s1[0];
                    if a.skip(1).len() > 0 && (h == a.skip(1)[0] || comp.compare_spec(
                        h,
                        a.skip(1)[0],
                    ) == Some(Ordering::Equal)) {
                        assert(a.skip(1)[0] == a[1]);
                        assert(sorts_before(comp, a[0], a[1]));
                        if h != a[1] {
                            lemma_equal_swap(comp, h, a[1], a[0]);
                        }
                        assert(sorts_before(comp, a[0], h));
                    } else {
                        assert(h == b[0]);
                        assert(sorts_before(comp, a[0], b[0]));
                    }
                }
                lemma_sorted_cons(comp, a[0], s1);
            },
        }
    }
}

/// Sortedness law: merging two individually-sorted streams yields a sorted
/// stream, provided the comparator never calls each of two elements greater
/// than the other, treats `Equal` elements as interchangeable, and the
/// reducer keeps the key of the element it replaces. Since an update ensures
/// that the new front view equals `merge_spec` of the old front view and the
/// batch, the front view is sorted after every successful update whose inputs
/// were sorted.
pub proof fn lemma_merge_sorted<T, C: Comparator<T>, R: Reducer<T>>(
    comp: C,
    red: R,
    a: Seq<T>,
    b: Seq<T>,
)
    requires
        greater_antisymmetric(comp),
        equals_congruent(comp),
        reducer_keeps_key(comp, red),
        sorted_under(comp, a),
        sorted_under(comp, b),
        merge_spec(comp, red, a, b) is Ok,
    ensures
        sorted_under(comp, merge_spec(comp, red, a, b)->Ok_0),
{
    lemma_merge_sorted_rec(comp, red, a, b);
}

/// The default first-seen-wins reducer keeps keys under any comparator that
/// treats `Equal` elements as interchangeable.
pub proof fn lemma_keep_existing_keeps_key<T, C: Comparator<T>>(comp: C)
    requires
        equals_congruent(comp),
    ensures
        reducer_keeps_key::<T, C, KeepExisting>(comp, KeepExisting),
{
    assert forall|a: T, b: T|
        comp.compare_spec(a, b) == Some(Ordering::Equal) && (#[trigger] KeepExisting.reduce_spec(
            a,
            b,
        )) is Ok implies comp.compare_spec(KeepExisting.reduce_spec(a, b)->Ok_0, a) == Some(
        Ordering::Equal,
    ) by {
        lemma_equal_swap(comp, a, b, a);
        assert(KeepExisting.reduce_spec(a, b)->Ok_0 == a);
    };
}

/// Elements collapse only across the two streams, never within one: the
/// merged stream is at least as long as either input stream, and no longer
/// than both together. In particular a batch's own equal-keyed duplicates all
/// survive an update (and when the front is empty, `merge_spec` is the batch
/// verbatim, by definition).
pub proof fn lemma_merge_len<T, C: Comparator<T>, R: Reducer<T>>(
    comp: C,
    red: R,
    a: Seq<T>,
    b: Seq<T>,
)
    requires
        merge_spec(comp, red, a, b) is Ok,
    ensures
        a.len() <= (merge_spec(comp, red, a, b)->Ok_0).len(),
        b.len() <= (merge_spec(comp, red, a, b)->Ok_0).len(),
        (merge_spec(comp, red, a, b)->Ok_0).len() <= a.len() + b.len(),
    decreases a.len() + b.len(),
{
    if a.len() == 0 {
    } else if b.len() == 0 {
    } else {
        match comp.compare_spec(a[0], b[0]) {
            Some(Ordering::Greater) => {
                lemma_merge_len(comp, red, a, b.skip(1));
            },
            Some(Ordering::Equal) => {
                lemma_merge_len(comp, red, a.skip(1), b.skip(1));
            },
            _ => {
                lemma_merge_len(comp, red, a.skip(1), b);
            },
        }
    }
}

/// Prepending an element inserts it into the sequence's multiset of elements.
proof fn lemma_cons_to_multiset<T>(x: T, s: Seq<T>)
    ensures
        (seq![x] + s).to_multiset() == s.to_multiset().insert(x),
{
    broadcast use vstd::seq_lib::group_to_multiset_ensures;
    broadcast use vstd::multiset::group_multiset_axioms;

    let t = seq![x] + s;
    assert(t.remove(0) =~= s);
    assert(t.remove(0).to_multiset() =~= t.to_multiset().remove(t[0]));
    assert(t.contains(x));
    assert(t.to_multiset().count(x) > 0);
    assert(t.to_multiset() =~= s.to_multiset().insert(x));
}

/// A sequence with no elements has no elements in its multiset either.
proof fn lemma_empty_to_multiset<T>(s: Seq<T>)
    requires
        s.len() == 0,
    ensures
        s.to_multiset() == Multiset::<T>::empty(),
{
    broadcast use vstd::seq_lib::group_to_multiset_ensures;
    broadcast use vstd::multiset::group_multiset_axioms;

    assert forall|y: T| s.to_multiset().count(y) == 0 by {
        if s.to_multiset().count(y) > 0 {
            assert(s.contains(y));
        }
    };
    assert(s.to_multiset() =~= Multiset::<T>::empty());
}

/// Union correctness in multiset form: when no element of `a` compares
/// `Equal` to an element of `b`, nothing is reduced, so the merge cannot fail
/// and the merged stream holds exactly the elements of the two inputs
/// together: the merge only reorders them.
pub proof fn lemma_merge_disjoint_union<T, C: Comparator<T>, R: Reducer<T>>(
    comp: C,
    red: R,
    a: Seq<T>,
    b: Seq<T>,
)
    requires
        forall|i: int, j: int|
            0 <= i < a.len() && 0 <= j < b.len() ==> (#[trigger] comp.compare_spec(a[i], b[j]))
                != Some(Ordering::Equal),
    ensures
        merge_spec(comp, red, a, b) is Ok,
        (merge_spec(comp, red, a, b)->Ok_0).to_multiset() == a.to_multiset().add(b.to_multiset()),
    decreases a.len() + b.len(),
{
    broadcast use vstd::multiset::group_multiset_axioms;

    if a.len() == 0 {
        lemma_empty_to_multiset(a);
        assert(a.to_multiset().add(b.to_multiset()) =~= b.to_multiset());
    } else if b.len() == 0 {
        lemma_empty_to_multiset(b);
        assert(a.to_multiset().add(b.to_multiset()) =~= a.to_multiset());
    } else {
        assert(comp.compare_spec(a[0], b[0]) != Some(Ordering::Equal));
        match comp.compare_spec(a[0], b[0]) {
            Some(Ordering::Greater) => {
                assert forall|i: int, j: int|
                    0 <= i < a.len() && 0 <= j < b.skip(1).len() implies (
                #[trigger] comp.compare_spec(a[i], b.skip(1)[j])) != Some(Ordering::Equal) by {
                    assert(b.skip(1)[j] == b[j + 1]);
                    assert(comp.compare_spec(a[i], b[j + 1]) != Some(Ordering::Equal));
                };
                lemma_merge_disjoint_union(comp, red, a, b.skip(1));
                let s1 = merge_spec(comp, red, a, b.skip(1))->Ok_0;
                assert(merge_spec(comp, red, a, b) == Ok::<Seq<T>, R::Error>(seq![b[0]] + s1));
                lemma_cons_to_multiset(b[0], s1);
                lemma_cons_to_multiset(b[0], b.skip(1));
                assert(seq![b[0]] + b.skip(1) =~= b);
                assert(s1.to_multiset().insert(b[0]) =~= a.to_multiset().add(b.to_multiset()));
            },
            Some(Ordering::Equal) => {
                assert(false);
            },
            _ => {
                assert forall|i: int, j: int|
                    0 <= i < a.skip(1).len() && 0 <= j < b.len() implies (
                #[trigger] comp.compare_spec(a.skip(1)[i], b[j])) != Some(Ordering::Equal) by {
                    assert(a.skip(1)[i] == a[i + 1]);
                    assert(comp.compare_spec(a[i + 1], b[j]) != Some(Ordering::Equal));
                };
                lemma_merge_disjoint_union(comp, red, a.skip(1), b);
                let s1 = merge_spec(comp, red, a.skip(1), b)->Ok_0;
                assert(merge_spec(comp, red, a, b) == Ok::<Seq<T>, R::Error>(seq![a[0]] + s1));
                lemma_cons_to_multiset(a[0], s1);
                lemma_cons_to_multiset(a[0], a.skip(1));
                assert(seq![a[0]] + a.skip(1) =~= a);
                assert(s1.to_multiset().insert(a[0]) =~= a.to_multiset().add(b.to_multiset()));
            },
        }
    }
}

/// The natural order behind the default entry points satisfies the
/// comparator-side hypotheses of the sortedness law.
pub proof fn lemma_default_comparator_coherent_i32()
    ensures
        greater_antisymmetric::<i32, DefaultComparator>(DefaultComparator),
        equals_congruent::<i32, DefaultComparator>(DefaultComparator),
{
}

/// The natural order behind the default entry points satisfies the
/// comparator-side hypotheses of the sortedness law.
pub proof fn lemma_default_comparator_coherent_i64()
    ensures
        greater_antisymmetric::<i64, DefaultComparator>(DefaultComparator),
        equals_congruent::<i64, DefaultComparator>(DefaultComparator),
{
}

/// The natural order behind the default entry points satisfies the
/// comparator-side hypotheses of the sortedness law.
pub proof fn lemma_default_comparator_coherent_u32()
    ensures
        greater_antisymmetric::<u32, DefaultComparator>(DefaultComparator),
        equals_congruent::<u32, DefaultComparator>(DefaultComparator),
{
}

/// The natural order behind the default entry points satisfies the
/// comparator-side hypotheses of the sortedness law.
pub proof fn lemma_default_comparator_coherent_u64()
    ensures
        greater_antisymmetric::<u64, DefaultComparator>(DefaultComparator),
        equals_congruent::<u64, DefaultComparator>(DefaultComparator),
{
}

/// The natural order behind the default entry points satisfies the
/// comparator-side hypotheses of the sortedness law.
pub proof fn lemma_default_comparator_coherent_usize()
    ensures
        greater_antisymmetric::<usize, DefaultComparator>(DefaultComparator),
        equals_congruent::<usize, DefaultComparator>(DefaultComparator),
{
}

/// Moving one emitted element from the pending merge to the prefix keeps the
/// prepended outcome the same.
proof fn lemma_emit_step<T, E>(emitted: Seq<T>, one: Seq<T>, rest: Result<Seq<T>, E>)
    ensures
        prepend_merged(emitted, prepend_merged(one, rest)) == prepend_merged(emitted + one, rest),
{
    match rest {
        Ok(s) => {
            assert(emitted + (one + s) =~= (emitted + one) + s);
        },
        Err(_) => {},
    }
}

} // verus!
