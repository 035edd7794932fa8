//! Half-open intervals of integers, and how a set of them merges into one.

use vstd::prelude::*;
use std::ops::Range;
use crate::error::ParseError;

verus! {

/// The half-open interval of the integers `x` with `start <= x < end`.
pub struct Span {
    pub start: int,
    pub end: int,
}

impl Span {
    /// Whether `x` lies in this interval.
    pub open spec fn holds(self, x: int) -> bool {
        self.start <= x < self.end
    }

    /// Whether some integer lies in this interval.
    pub open spec fn inhabited(self) -> bool {
        self.start < self.end
    }
}

/// An integer type whose values bound a range.
pub trait Endpoint: Copy {
    /// The integer that the bound stands for.
    spec fn value(self) -> int;

    /// Whether this bound is at most `other`.
    fn at_most(self, other: Self) -> (r: bool)
        ensures
            r == (self.value() <= other.value()),
    ;
}

impl Endpoint for i16 {
    open spec fn value(self) -> int {
        self as int
    }

    fn at_most(self, other: i16) -> (r: bool) {
        self <= other
    }
}

impl Endpoint for u16 {
    open spec fn value(self) -> int {
        self as int
    }

    fn at_most(self, other: u16) -> (r: bool) {
        self <= other
    }
}

/// The interval that a range stands for.
pub open spec fn span_of<Idx: Endpoint>(r: Range<Idx>) -> Span {
    Span { start: r.start.value(), end: r.end.value() }
}

/// The intervals that a sequence of ranges stands for.
pub open spec fn spans_of<Idx: Endpoint>(ranges: Seq<Range<Idx>>) -> Seq<Span> {
    Seq::new(ranges.len(), |i: int| span_of(ranges[i]))
}

/// Whether the intervals come in ascending order of their start.
pub open spec fn ascending(s: Seq<Span>) -> bool {
    forall|i: int, j: int| 0 <= i <= j < s.len() ==> s[i].start <= s[j].start
}

/// Folds intervals from the left into one: each next interval has to start at
/// or before the end of what was merged so far, and extends it. `None` where
/// one starts behind that end, and for no interval at all.
pub open spec fn fold_spans(s: Seq<Span>) -> Option<Span>
    decreases s.len(),
{
    if s.len() == 0 {
        None
    } else if s.len() == 1 {
        Some(s[0])
    } else {
        match fold_spans(s.drop_last()) {
            Some(acc) => if s.last().start <= acc.end {
                Some(
                    Span {
                        start: acc.start,
                        end: if acc.end >= s.last().end {
                            acc.end
                        } else {
                            s.last().end
                        },
                    },
                )
            } else {
                None
            },
            None => None,
        }
    }
}

/// Whether `s` holds the intervals of `spans` in ascending order of their start.
pub open spec fn arranges(s: Seq<Span>, spans: Seq<Span>) -> bool {
    ascending(s) && s.to_multiset() == spans.to_multiset()
}

/// Whether `r` is what the fold of the intervals `s` gives: the range of the
/// merged interval, or the gap that the fold met.
pub open spec fn folds_to<Idx: Endpoint>(s: Seq<Span>, r: Result<Range<Idx>, ParseError>) -> bool {
    match fold_spans(s) {
        Some(span) => r matches Ok(merged) && span_of(merged) == span,
        None => r == Err::<Range<Idx>, ParseError>(ParseError::IncontinuousRange),
    }
}

/// Moves the last range of `v` down to its place among the ranges before it,
/// which are in ascending order of their start.
fn settle_last<Idx: Endpoint>(v: &mut Vec<Range<Idx>>)
    requires
        old(v).len() > 0,
        ascending(spans_of(old(v)@.drop_last())),
    ensures
        ascending(spans_of(final(v)@)),
        spans_of(final(v)@).to_multiset() == spans_of(old(v)@).to_multiset(),
        final(v).len() == old(v).len(),
{
    let last = v.pop().unwrap();
    let ghost before = v@;
    let mut at: usize = v.len();
    while at > 0 && !(v[at - 1].start.at_most(last.start))
        invariant
            v@ == before,
            at <= v.len(),
            forall|k: int| at <= k < v.len() ==> last.start.value() < (#[trigger] v@[k]).start.value(),
        decreases at,
    {
        at = at - 1;
    }
    v.insert(at, last);
    proof {
        let old_spans = spans_of(old(v)@);
        let new_spans = spans_of(v@);
        let base = spans_of(before);
        assert(base =~= spans_of(old(v)@.drop_last()));
        assert(new_spans =~= base.insert(at as int, span_of(last)));
        assert(old_spans =~= base.push(span_of(last)));
        vstd::seq_lib::to_multiset_insert(base, at as int, span_of(last));
        vstd::seq_lib::to_multiset_build(base, span_of(last));
        assert forall|i: int, j: int| 0 <= i <= j < new_spans.len() implies new_spans[i].start
            <= new_spans[j].start by {
            if i < at && j > at {
                assert(base[i].start <= base[j - 1].start);
            } else if i < at && j < at {
                assert(base[i].start <= base[j].start);
            } else if i > at {
                assert(base[i - 1].start <= base[j - 1].start);
            } else if i < at && j == at {
                assert(base[i].start <= base[at - 1].start);
            } else if i == at && j > at {
                assert(last.start.value() < v@[j].start.value()) by {
                    assert(v@[j] == before[j - 1]);
                }
            }
        }
    }
}

/// Puts the ranges in ascending order of their start.
fn sort_by_start<Idx: Endpoint>(ranges: Vec<Range<Idx>>) -> (sorted: Vec<Range<Idx>>)
    ensures
        arranges(spans_of(sorted@), spans_of(ranges@)),
        sorted.len() == ranges.len(),
{
    let mut sorted: Vec<Range<Idx>> = Vec::new();
    let mut i: usize = 0;
    assert(spans_of(sorted@) =~= spans_of(ranges@.take(0)));
    while i < ranges.len()
        invariant
            i <= ranges.len(),
            sorted.len() == i,
            ascending(spans_of(sorted@)),
            spans_of(sorted@).to_multiset() == spans_of(ranges@.take(i as int)).to_multiset(),
        decreases ranges.len() - i,
    {
        let item = Range { start: ranges[i].start, end: ranges[i].end };
        let ghost before = sorted@;
        sorted.push(item);
        proof {
            assert(sorted@.drop_last() =~= before);
            assert(spans_of(sorted@) =~= spans_of(before).push(span_of(item)));
            assert(spans_of(ranges@.take(i + 1)) =~= spans_of(ranges@.take(i as int)).push(
                span_of(item),
            ));
            vstd::seq_lib::to_multiset_build(spans_of(before), span_of(item));
            vstd::seq_lib::to_multiset_build(spans_of(ranges@.take(i as int)), span_of(item));
        }
        settle_last(&mut sorted);
        i = i + 1;
    }
    assert(ranges@.take(i as int) =~= ranges@);
    sorted
}

/// Merges ranges into one: sorts them by their start and folds them from the
/// left. A range that starts behind the end of those before it leaves a gap.
///
/// Among ranges with one start the order is left open; for ranges that each
/// hold an integer the outcome does not depend on it, see [`fold_is_union`].
pub fn merge_ranges<Idx: Endpoint>(ranges: Vec<Range<Idx>>) -> (r: Result<Range<Idx>, ParseError>)
    ensures
        ranges.len() == 0 ==> r == Err::<Range<Idx>, ParseError>(ParseError::Empty),
        ranges.len() > 0 ==> exists|s: Seq<Span>| #[trigger]
            arranges(s, spans_of(ranges@)) && folds_to(s, r),
{
    if ranges.len() == 0 {
        return Err(ParseError::Empty);
    }
    let sorted = sort_by_start(ranges);
    let ghost s = spans_of(sorted@);
    let mut acc = Range { start: sorted[0].start, end: sorted[0].end };
    let mut i: usize = 1;
    assert(s.take(1) =~= seq![s[0]]);
    while i < sorted.len()
        invariant
            1 <= i <= sorted.len(),
            ranges.len() > 0,
            s == spans_of(sorted@),
            arranges(s, spans_of(ranges@)),
            fold_spans(s.take(i as int)) == Some(span_of(acc)),
        decreases sorted.len() - i,
    {
        let curr = Range { start: sorted[i].start, end: sorted[i].end };
        proof {
            assert(s.take(i + 1).drop_last() =~= s.take(i as int));
            assert(s.take(i + 1).last() == span_of(curr));
        }
        if curr.start.at_most(acc.end) {
            if !curr.end.at_most(acc.end) {
                acc.end = curr.end;
            }
        } else {
            proof {
                lemma_fold_gap_stays(s, i + 1);
            }
            return Err(ParseError::IncontinuousRange);
        }
        i = i + 1;
    }
    assert(s.take(i as int) =~= s);
    Ok(acc)
}

/// Once a fold has met a gap, more intervals do not mend it.
proof fn lemma_fold_gap_stays(s: Seq<Span>, n: int)
    requires
        0 < n <= s.len(),
        fold_spans(s.take(n)) is None,
    ensures
        fold_spans(s) is None,
    decreases s.len() - n,
{
    if n == s.len() {
        assert(s.take(n) =~= s);
    } else {
        assert(s.take(n + 1).drop_last() =~= s.take(n));
        lemma_fold_gap_stays(s, n + 1);
    }
}

/// Whether one of the intervals holds `x`.
pub open spec fn covered(s: Seq<Span>, x: int) -> bool {
    exists|i: int| 0 <= i < s.len() && (#[trigger] s[i]).holds(x)
}

/// The least start among the intervals.
pub open spec fn least_start(s: Seq<Span>) -> int
    decreases s.len(),
{
    if s.len() <= 1 {
        s[0].start
    } else if s.last().start < least_start(s.drop_last()) {
        s.last().start
    } else {
        least_start(s.drop_last())
    }
}

/// The greatest end among the intervals.
pub open spec fn greatest_end(s: Seq<Span>) -> int
    decreases s.len(),
{
    if s.len() <= 1 {
        s[0].end
    } else if s.last().end > greatest_end(s.drop_last()) {
        s.last().end
    } else {
        greatest_end(s.drop_last())
    }
}

/// The least interval that includes all the intervals.
pub open spec fn hull(s: Seq<Span>) -> Span {
    Span { start: least_start(s), end: greatest_end(s) }
}

/// The union of the intervals where it is an interval itself, that is where
/// the intervals leave no integer of their hull out; `None` where they leave a
/// gap, and for no interval at all.
pub open spec fn union_of(s: Seq<Span>) -> Option<Span> {
    if s.len() > 0 && (forall|x: int| hull(s).holds(x) ==> covered(s, x)) {
        Some(hull(s))
    } else {
        None
    }
}

/// Whether each of the intervals holds an integer.
pub open spec fn all_inhabited(s: Seq<Span>) -> bool {
    forall|i: int| 0 <= i < s.len() ==> (#[trigger] s[i]).inhabited()
}

/// The least start is the start of one interval, and no interval starts before it.
pub proof fn lemma_least_start(s: Seq<Span>)
    requires
        s.len() > 0,
    ensures
        exists|i: int| 0 <= i < s.len() && (#[trigger] s[i]).start == least_start(s),
        forall|i: int| 0 <= i < s.len() ==> least_start(s) <= (#[trigger] s[i]).start,
    decreases s.len(),
{
    if s.len() > 1 {
        let t = s.drop_last();
        lemma_least_start(t);
        let k = choose|i: int| 0 <= i < t.len() && (#[trigger] t[i]).start == least_start(t);
        assert(t[k] == s[k]);
        if s.last().start < least_start(t) {
            assert(s[s.len() - 1].start == least_start(s));
        } else {
            assert(s[k].start == least_start(s));
        }
        assert forall|i: int| 0 <= i < s.len() implies least_start(s) <= (#[trigger] s[i]).start by {
            if i < t.len() {
                assert(t[i] == s[i]);
            }
        }
    } else {
        assert(s[0].start == least_start(s));
    }
}

/// The greatest end is the end of one interval, and no interval ends behind it.
pub proof fn lemma_greatest_end(s: Seq<Span>)
    requires
        s.len() > 0,
    ensures
        exists|i: int| 0 <= i < s.len() && (#[trigger] s[i]).end == greatest_end(s),
        forall|i: int| 0 <= i < s.len() ==> (#[trigger] s[i]).end <= greatest_end(s),
    decreases s.len(),
{
    if s.len() > 1 {
        let t = s.drop_last();
        lemma_greatest_end(t);
        let k = choose|i: int| 0 <= i < t.len() && (#[trigger] t[i]).end == greatest_end(t);
        assert(t[k] == s[k]);
        if s.last().end > greatest_end(t) {
            assert(s[s.len() - 1].end == greatest_end(s));
        } else {
            assert(s[k].end == greatest_end(s));
        }
        assert forall|i: int| 0 <= i < s.len() implies (#[trigger] s[i]).end <= greatest_end(s) by {
            if i < t.len() {
                assert(t[i] == s[i]);
            }
        }
    } else {
        assert(s[0].end == greatest_end(s));
    }
}

/// What a left fold of intervals in ascending order gives, each of them
/// holding an integer: their hull where they leave no gap, nothing where they
/// do. A gap that the fold has met lies before the start of its last interval.
proof fn lemma_fold_ascending(s: Seq<Span>)
    requires
        s.len() > 0,
        ascending(s),
        all_inhabited(s),
    ensures
        match fold_spans(s) {
            Some(h) => h == hull(s) && forall|x: int| h.holds(x) ==> covered(s, x),
            None => exists|x: int|
                #![trigger covered(s, x)]
                least_start(s) <= x < greatest_end(s) && !covered(s, x) && x < s.last().start,
        },
    decreases s.len(),
{
    lemma_least_start(s);
    lemma_greatest_end(s);
    assert(s[0].inhabited());
    if s.len() == 1 {
        assert forall|x: int| s[0].holds(x) implies covered(s, x) by {
            assert(s[0].holds(x));
        }
    } else {
        let t = s.drop_last();
        let e = s.last();
        assert(e == s[s.len() - 1]);
        assert(e.inhabited());
        assert(ascending(t)) by {
            assert forall|i: int, j: int| 0 <= i <= j < t.len() implies t[i].start <= t[j].start by {
                assert(t[i] == s[i] && t[j] == s[j]);
            }
        }
        assert(all_inhabited(t)) by {
            assert forall|i: int| 0 <= i < t.len() implies (#[trigger] t[i]).inhabited() by {
                assert(t[i] == s[i]);
            }
        }
        lemma_fold_ascending(t);
        lemma_least_start(t);
        lemma_greatest_end(t);
        assert(t.last() == s[s.len() - 2]);
        assert(t.last().start <= e.start);
        assert(least_start(s) == least_start(t)) by {
            let k = choose|i: int| 0 <= i < t.len() && (#[trigger] t[i]).start == least_start(t);
            assert(t[k] == s[k]);
            assert(s[k].start <= e.start);
        }
        assert forall|x: int| covered(t, x) implies covered(s, x) by {
            let k = choose|i: int| 0 <= i < t.len() && (#[trigger] t[i]).holds(x);
            assert(s[k] == t[k]);
        }
        assert forall|x: int| covered(s, x) && !e.holds(x) implies covered(t, x) by {
            let k = choose|i: int| 0 <= i < s.len() && (#[trigger] s[i]).holds(x);
            assert(k < t.len());
            assert(s[k] == t[k]);
        }
        match fold_spans(t) {
            Some(acc) => {
                if e.start <= acc.end {
                    let h = fold_spans(s)->0;
                    assert forall|x: int| h.holds(x) implies covered(s, x) by {
                        if x < acc.end {
                            assert(acc.holds(x));
                            assert(covered(t, x));
                        } else {
                            assert(e.holds(x));
                            assert(s[s.len() - 1].holds(x));
                        }
                    }
                } else {
                    let x = acc.end;
                    assert(!covered(t, x)) by {
                        if covered(t, x) {
                            let k = choose|i: int| 0 <= i < t.len() && (#[trigger] t[i]).holds(x);
                            assert(t[k].end <= greatest_end(t));
                        }
                    }
                    assert(!covered(s, x));
                    assert(least_start(t) < greatest_end(t)) by {
                        assert(t[0].inhabited());
                        assert(least_start(t) <= t[0].start);
                        assert(t[0].end <= greatest_end(t));
                    }
                    assert(least_start(s) <= x < greatest_end(s) && !covered(s, x) && x
                        < s.last().start);
                }
            },
            None => {
                let x = choose|x: int|
                    #![trigger covered(t, x)]
                    least_start(t) <= x < greatest_end(t) && !covered(t, x) && x < t.last().start;
                assert(!e.holds(x));
                assert(!covered(s, x));
                assert(least_start(s) <= x < greatest_end(s) && !covered(s, x) && x
                    < s.last().start);
            },
        }
    }
}

/// Folding intervals in ascending order gives their union: for intervals that
/// each hold an integer, the fold yields their hull where they leave no gap
/// and nothing where they leave one.
pub proof fn fold_is_union(s: Seq<Span>)
    requires
        ascending(s),
        all_inhabited(s),
    ensures
        fold_spans(s) == union_of(s),
{
    if s.len() > 0 {
        lemma_fold_ascending(s);
        if fold_spans(s) is None {
            let x = choose|x: int|
                #![trigger covered(s, x)]
                least_start(s) <= x < greatest_end(s) && !covered(s, x) && x < s.last().start;
            assert(hull(s).holds(x));
        }
    }
}

/// The union of intervals does not depend on their order.
pub proof fn union_ignores_order(a: Seq<Span>, b: Seq<Span>)
    requires
        a.to_multiset() == b.to_multiset(),
    ensures
        union_of(a) == union_of(b),
        all_inhabited(a) == all_inhabited(b),
{
    lemma_same_members(a, b);
    lemma_same_members(b, a);
    vstd::seq_lib::to_multiset_len(a);
    vstd::seq_lib::to_multiset_len(b);
    if a.len() > 0 {
        lemma_least_start(a);
        lemma_least_start(b);
        lemma_greatest_end(a);
        lemma_greatest_end(b);
        let i = choose|i: int| 0 <= i < a.len() && (#[trigger] a[i]).start == least_start(a);
        let j = choose|j: int| 0 <= j < b.len() && (#[trigger] b[j]).start == least_start(b);
        assert(least_start(a) == least_start(b)) by {
            let k = choose|k: int| 0 <= k < b.len() && b[k] == a[i];
            assert(least_start(b) <= b[k].start);
            let m = choose|m: int| 0 <= m < a.len() && a[m] == b[j];
            assert(least_start(a) <= a[m].start);
        }
        let p = choose|i: int| 0 <= i < a.len() && (#[trigger] a[i]).end == greatest_end(a);
        let q = choose|j: int| 0 <= j < b.len() && (#[trigger] b[j]).end == greatest_end(b);
        assert(greatest_end(a) == greatest_end(b)) by {
            let k = choose|k: int| 0 <= k < b.len() && b[k] == a[p];
            assert(b[k].end <= greatest_end(b));
            let m = choose|m: int| 0 <= m < a.len() && a[m] == b[q];
            assert(a[m].end <= greatest_end(a));
        }
        assert forall|x: int| covered(a, x) == covered(b, x) by {
            if covered(a, x) {
                let u = choose|u: int| 0 <= u < a.len() && (#[trigger] a[u]).holds(x);
                let k = choose|k: int| 0 <= k < b.len() && b[k] == a[u];
                assert(b[k].holds(x));
            }
            if covered(b, x) {
                let u = choose|u: int| 0 <= u < b.len() && (#[trigger] b[u]).holds(x);
                let k = choose|k: int| 0 <= k < a.len() && a[k] == b[u];
                assert(a[k].holds(x));
            }
        }
    }
    assert(all_inhabited(a) == all_inhabited(b)) by {
        if all_inhabited(a) {
            assert forall|u: int| 0 <= u < b.len() implies (#[trigger] b[u]).inhabited() by {
                let k = choose|k: int| 0 <= k < a.len() && a[k] == b[u];
                assert(a[k].inhabited());
            }
        }
        if all_inhabited(b) {
            assert forall|u: int| 0 <= u < a.len() implies (#[trigger] a[u]).inhabited() by {
                let k = choose|k: int| 0 <= k < b.len() && b[k] == a[u];
                assert(b[k].inhabited());
            }
        }
    }
}

/// Each interval of `a` is one of `b`, where the two hold the same intervals.
proof fn lemma_same_members(a: Seq<Span>, b: Seq<Span>)
    requires
        a.to_multiset() == b.to_multiset(),
    ensures
        forall|i: int| 0 <= i < a.len() ==> b.contains(#[trigger] a[i]),
{
    assert forall|i: int| 0 <= i < a.len() implies b.contains(#[trigger] a[i]) by {
        vstd::seq_lib::to_multiset_contains(a, a[i]);
        vstd::seq_lib::to_multiset_contains(b, a[i]);
        assert(a.contains(a[i]));
    }
}

/// Merging intervals that each hold an integer gives their union, in whatever
/// order intervals with one start are folded.
pub proof fn merge_is_union(s: Seq<Span>, spans: Seq<Span>)
    requires
        arranges(s, spans),
        all_inhabited(spans),
    ensures
        fold_spans(s) == union_of(spans),
{
    union_ignores_order(s, spans);
    fold_is_union(s);
}

} // verus!
