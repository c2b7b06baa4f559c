//! A one-dimensional span.
use super::{snap_defined, snap_to_grid, spec_snap_to_grid, Sign};
use vstd::prelude::*;

verus! {

/// The smaller of two integers.
pub open spec fn min_int(a: int, b: int) -> int {
    if a <= b {
        a
    } else {
        b
    }
}

/// The larger of two integers.
pub open spec fn max_int(a: int, b: int) -> int {
    if a >= b {
        a
    } else {
        b
    }
}

/// The absolute value of an integer.
pub open spec fn abs_int(a: int) -> int {
    if a >= 0 {
        a
    } else {
        -a
    }
}

/// Integer division rounding towards zero, as Rust's `/` does.
pub open spec fn trunc_div(a: int, b: int) -> int {
    if a >= 0 {
        a / b
    } else {
        -((-a) / b)
    }
}

/// A one-dimensional span `[start, stop]`.
#[derive(Debug, Default, Clone, Copy, Hash, PartialEq, Eq, Structural)]
pub struct Span {
    start: i64,
    stop: i64,
}

impl View for Span {
    type V = (i64, i64);

    /// The span as the pair `(start, stop)`.
    closed spec fn view(&self) -> (i64, i64) {
        (self.start, self.stop)
    }
}

/// The union of two spans: the smallest span covering both.
pub open spec fn union_view(a: (i64, i64), b: (i64, i64)) -> (int, int) {
    (min_int(a.0 as int, b.0 as int), max_int(a.1 as int, b.1 as int))
}

/// The length of a span.
pub open spec fn length_view(a: (i64, i64)) -> int {
    a.1 - a.0
}

/// The length of the union of two spans minus the lengths of both.
pub open spec fn gap_view(a: (i64, i64), b: (i64, i64)) -> int {
    (union_view(a, b).1 - union_view(a, b).0) - length_view(a) - length_view(b)
}

/// Whether two spans overlap or touch.
pub open spec fn intersects_view(a: (i64, i64), b: (i64, i64)) -> bool {
    !(b.1 < a.0 || a.1 < b.0)
}

/// The least start of a non-empty sequence of spans.
pub open spec fn min_start(s: Seq<Span>) -> int
    decreases s.len(),
{
    if s.len() <= 1 {
        s[0]@.0 as int
    } else {
        min_int(min_start(s.drop_last()), s.last()@.0 as int)
    }
}

/// The greatest stop of a non-empty sequence of spans.
pub open spec fn max_stop(s: Seq<Span>) -> int
    decreases s.len(),
{
    if s.len() <= 1 {
        s[0]@.1 as int
    } else {
        max_int(max_stop(s.drop_last()), s.last()@.1 as int)
    }
}

/// Inserts `x` into `t` after every element whose start is at most the start of
/// `x`, scanning from the end: one step of a stable insertion sort by start.
pub open spec fn insert_by_start(t: Seq<Span>, x: Span) -> Seq<Span>
    decreases t.len(),
{
    if t.len() == 0 {
        seq![x]
    } else if t.last()@.0 > x@.0 {
        insert_by_start(t.drop_last(), x).push(t.last())
    } else {
        t.push(x)
    }
}

/// Insertion adds exactly one element.
pub proof fn lemma_insert_len(t: Seq<Span>, x: Span)
    ensures
        insert_by_start(t, x).len() == t.len() + 1,
    decreases t.len(),
{
    if t.len() > 0 && t.last()@.0 > x@.0 {
        lemma_insert_len(t.drop_last(), x);
    }
}

/// Sorting keeps the number of spans.
pub proof fn lemma_sort_len(s: Seq<Span>)
    ensures
        sort_by_start(s).len() == s.len(),
    decreases s.len(),
{
    if s.len() > 0 {
        lemma_sort_len(s.drop_last());
        lemma_insert_len(sort_by_start(s.drop_last()), s.last());
    }
}

/// The spans of `s` stably sorted by their start.
pub open spec fn sort_by_start(s: Seq<Span>) -> Seq<Span>
    decreases s.len(),
{
    if s.len() == 0 {
        seq![]
    } else {
        insert_by_start(sort_by_start(s.drop_last()), s.last())
    }
}

/// The span that [`Span::merge_adjacent`] is growing when it reaches element
/// `j` (for `1 <= j <= s.len()`), given the decision `d[k]` it took at each
/// earlier element `k`: merge `s[k]` into the current span, or start anew.
pub open spec fn current_before(s: Seq<Span>, d: Seq<bool>, j: int) -> Span
    decreases j,
{
    if j <= 1 {
        s[0]
    } else if d[j - 1] {
        current_before(s, d, j - 1).spec_union(s[j - 1])
    } else {
        s[j - 1]
    }
}

/// The spans completed by [`Span::merge_adjacent`] before it reaches element `j`.
pub open spec fn completed_before(s: Seq<Span>, d: Seq<bool>, j: int) -> Seq<Span>
    decreases j,
{
    if j <= 1 {
        seq![]
    } else if d[j - 1] {
        completed_before(s, d, j - 1)
    } else {
        completed_before(s, d, j - 1).push(current_before(s, d, j - 1))
    }
}

/// The output of [`Span::merge_adjacent`] on sorted spans `s` with decisions `d`.
pub open spec fn merged_with(s: Seq<Span>, d: Seq<bool>) -> Seq<Span> {
    if s.len() == 0 {
        seq![]
    } else {
        completed_before(s, d, s.len() as int).push(current_before(s, d, s.len() as int))
    }
}

impl Span {
    /// The union of two spans, as a specification.
    pub open spec fn spec_union(self, other: Span) -> Span {
        Span::spec_from_view(union_view(self@, other@))
    }

    /// The span with the given view.
    pub closed spec fn spec_from_view(v: (int, int)) -> Span {
        Span { start: v.0 as i64, stop: v.1 as i64 }
    }

    /// The view of a span built from an in-range pair is that pair.
    pub proof fn lemma_from_view(v: (int, int))
        requires
            i64::MIN <= v.0 <= i64::MAX,
            i64::MIN <= v.1 <= i64::MAX,
        ensures
            Span::spec_from_view(v)@ == (v.0 as i64, v.1 as i64),
    {
    }

    /// Two spans with the same view are equal.
    pub proof fn lemma_view_eq(a: Span, b: Span)
        requires
            a@ == b@,
        ensures
            a == b,
    {
    }

    /// Creates a new [`Span`] from 0 until the specified stop.
    pub fn until(stop: i64) -> (r: Span)
        requires
            stop >= 0,
        ensures
            r@ == (0i64, stop),
    {
        Span { start: 0, stop }
    }

    /// Creates a new [`Span`] between two integers.
    ///
    /// The caller must ensure that `start` is less than or equal to `stop`.
    pub fn new_unchecked(start: i64, stop: i64) -> (r: Span)
        requires
            start <= stop,
        ensures
            r@ == (start, stop),
    {
        Span { start, stop }
    }

    /// Creates a new [`Span`] between two integers, in either order.
    pub fn new(start: i64, stop: i64) -> (r: Span)
        ensures
            r@.0 == min_int(start as int, stop as int),
            r@.1 == max_int(start as int, stop as int),
    {
        let lower = if start <= stop {
            start
        } else {
            stop
        };
        let upper = if start <= stop {
            stop
        } else {
            start
        };
        Span { start: lower, stop: upper }
    }

    /// Creates a span of zero length encompassing the given point.
    pub fn from_point(x: i64) -> (r: Span)
        ensures
            r@ == (x, x),
    {
        Span { start: x, stop: x }
    }

    /// Creates a span starting at `start` with the given length.
    pub fn with_start_and_length(start: i64, length: i64) -> (r: Span)
        requires
            i64::MIN <= start + length <= i64::MAX,
        ensures
            r@.0 == start,
            r@.1 == start + length,
    {
        Span { stop: start + length, start }
    }

    /// Creates a span stopping at `stop` with the given length.
    pub fn with_stop_and_length(stop: i64, length: i64) -> (r: Span)
        requires
            i64::MIN <= stop - length <= i64::MAX,
        ensures
            r@.0 == stop - length,
            r@.1 == stop,
    {
        Span { start: stop - length, stop }
    }

    /// Creates a span with the given endpoint and length.
    ///
    /// If `sign` is [`Sign::Pos`], `point` is treated as the ending/stopping point of the span.
    /// If `sign` is [`Sign::Neg`], `point` is treated as the beginning/starting point of the span.
    pub fn with_point_and_length(sign: Sign, point: i64, length: i64) -> (r: Span)
        requires
            sign == Sign::Pos ==> i64::MIN <= point - length <= i64::MAX,
            sign == Sign::Neg ==> i64::MIN <= point + length <= i64::MAX,
        ensures
            sign == Sign::Pos ==> r@.0 == point - length && r@.1 == point,
            sign == Sign::Neg ==> r@.0 == point && r@.1 == point + length,
    {
        match sign {
            Sign::Pos => Self::with_stop_and_length(point, length),
            Sign::Neg => Self::with_start_and_length(point, length),
        }
    }

    /// Creates a new [`Span`] expanded by `amount` in the direction indicated by `pos`.
    pub fn expand(self, pos: bool, amount: i64) -> (r: Span)
        requires
            pos ==> self@.1 + amount <= i64::MAX && self@.1 + amount >= i64::MIN,
            !pos ==> self@.0 - amount <= i64::MAX && self@.0 - amount >= i64::MIN,
        ensures
            pos ==> r@.0 == self@.0 && r@.1 == self@.1 + amount,
            !pos ==> r@.0 == self@.0 - amount && r@.1 == self@.1,
    {
        let mut s = self;
        if pos {
            s.stop = s.stop + amount;
        } else {
            s.start = s.start - amount;
        }
        s
    }

    /// Creates a new [`Span`] expanded by `amount` in both directions.
    pub fn expand_all(self, amount: i64) -> (r: Span)
        requires
            i64::MIN <= self@.1 + amount <= i64::MAX,
            i64::MIN <= self@.0 - amount <= i64::MAX,
        ensures
            r@.0 == self@.0 - amount,
            r@.1 == self@.1 + amount,
    {
        let mut s = self;
        s.stop = s.stop + amount;
        s.start = s.start - amount;
        s
    }

    /// Gets the starting ([`Sign::Neg`]) or stopping ([`Sign::Pos`]) point of a span.
    pub fn point(&self, sign: Sign) -> (r: i64)
        ensures
            sign == Sign::Neg ==> r == self@.0,
            sign == Sign::Pos ==> r == self@.1,
    {
        match sign {
            Sign::Neg => self.start(),
            Sign::Pos => self.stop(),
        }
    }

    /// Gets the shortest distance to a point.
    pub fn distance_to(&self, point: i64) -> (r: i64)
        requires
            i64::MIN < point - self@.0 <= i64::MAX,
            i64::MIN < point - self@.1 <= i64::MAX,
        ensures
            r == min_int(abs_int(point - self@.0), abs_int(point - self@.1)),
    {
        let a = point - self.start;
        let b = point - self.stop;
        let a = if a < 0 {
            -a
        } else {
            a
        };
        let b = if b < 0 {
            -b
        } else {
            b
        };
        if a <= b {
            a
        } else {
            b
        }
    }

    /// Creates a new [`Span`] with center `center` and length `span`.
    pub fn from_center_span(center: i64, span: i64) -> (r: Span)
        requires
            span >= 0,
            span % 2 == 0,
            center - span / 2 >= i64::MIN,
            center + span / 2 <= i64::MAX,
        ensures
            r@.0 == center - span / 2,
            r@.1 == center + span / 2,
    {
        Self::new(center - (span / 2), center + (span / 2))
    }

    /// Creates a new [`Span`] with center `center` and length `span` and snap the edges to the
    /// grid.
    pub fn from_center_span_gridded(center: i64, span: i64, grid: i64) -> (r: Span)
        requires
            span >= 0,
            span % 2 == 0,
            grid != 0,
            span % grid == 0,
            center - span / 2 >= i64::MIN,
            snap_defined(center - span / 2, grid as int),
            spec_snap_to_grid(center - span / 2, grid as int) + span <= i64::MAX,
        ensures
            r@.0 == spec_snap_to_grid(center - span / 2, grid as int),
            r@.1 == spec_snap_to_grid(center - span / 2, grid as int) + span,
    {
        let start = snap_to_grid(center - (span / 2), grid);
        Self::new(start, start + span)
    }

    /// Gets the center of the span.
    pub fn center(&self) -> (r: i64)
        requires
            i64::MIN <= self@.0 + self@.1 <= i64::MAX,
        ensures
            r == trunc_div(self@.0 + self@.1, 2),
    {
        (self.start + self.stop) / 2
    }

    /// Gets the length of the span.
    pub fn length(&self) -> (r: i64)
        requires
            i64::MIN <= self@.1 - self@.0 <= i64::MAX,
        ensures
            r == length_view(self@),
    {
        self.stop - self.start
    }

    /// Gets the start of the span.
    pub fn start(&self) -> (r: i64)
        ensures
            r == self@.0,
    {
        self.start
    }

    /// Gets the stop of the span.
    pub fn stop(&self) -> (r: i64)
        ensures
            r == self@.1,
    {
        self.stop
    }

    /// Checks if the span intersects with the [`Span`] `other`.
    pub fn intersects(&self, other: &Self) -> (r: bool)
        ensures
            r == intersects_view(self@, other@),
    {
        !(other.stop < self.start || self.stop < other.start)
    }

    /// Creates a new minimal [`Span`] that contains all of the elements of `spans`.
    pub fn merge(spans: Vec<Span>) -> (r: Span)
        requires
            spans@.len() > 0,
            min_start(spans@) <= max_stop(spans@),
        ensures
            r@.0 == min_start(spans@),
            r@.1 == max_stop(spans@),
    {
        let mut start = spans[0].start;
        let mut stop = spans[0].stop;
        let mut i: usize = 1;
        while i < spans.len()
            invariant
                1 <= i <= spans@.len(),
                start == min_start(spans@.take(i as int)),
                stop == max_stop(spans@.take(i as int)),
            decreases spans@.len() - i,
        {
            assert(spans@.take(i as int + 1).drop_last() =~= spans@.take(i as int));
            let s = spans[i];
            if s.start < start {
                start = s.start;
            }
            if s.stop > stop {
                stop = s.stop;
            }
            i = i + 1;
        }
        assert(spans@.take(i as int) =~= spans@);
        Span { start, stop }
    }

    /// Merges adjacent spans when `merge_fn` evaluates to true.
    ///
    /// The spans are first stably sorted by start. Walking the sorted spans in
    /// order, each span after the first is offered to `merge_fn` together with the
    /// span being grown; if `merge_fn` accepts, it is merged in, otherwise the grown
    /// span is emitted and a new one starts.
    pub fn merge_adjacent<F: Fn(Span, Span) -> bool>(spans: Vec<Span>, merge_fn: F) -> (r: Vec<
        Span,
    >)
        requires
            forall|a: Span, b: Span| #[trigger] merge_fn.requires((a, b)),
        ensures
            exists|d: Seq<bool>|
                {
                    &&& d.len() == spans@.len()
                    &&& r@ == merged_with(sort_by_start(spans@), d)
                    &&& forall|j: int|
                        1 <= j < spans@.len() ==> #[trigger] merge_fn.ensures(
                            (current_before(sort_by_start(spans@), d, j), sort_by_start(spans@)[j]),
                            d[j],
                        )
                },
    {
        let ghost input = spans@;
        let sorted = Self::sort_by_start_vec(spans);
        let ghost s = sorted@;
        proof {
            lemma_sort_len(input);
        }
        let mut merged: Vec<Span> = Vec::new();
        let n = sorted.len();
        if n == 0 {
            proof {
                let d: Seq<bool> = seq![];
                assert(merged@ =~= merged_with(s, d));
                assert(d.len() == input.len());
            }
            return merged;
        }
        let mut curr = sorted[0];
        let mut j: usize = 1;
        let ghost mut d: Seq<bool> = seq![false];
        while j < n
            invariant
                s == sorted@,
                n == s.len(),
                1 <= j <= n,
                d.len() == j,
                curr == current_before(s, d, j as int),
                merged@ == completed_before(s, d, j as int),
                forall|k: int| 1 <= k < j ==> #[trigger] merge_fn.ensures(
                    (current_before(s, d, k), s[k]),
                    d[k],
                ),
                forall|a: Span, b: Span| #[trigger] merge_fn.requires((a, b)),
            decreases n - j,
        {
            let next = sorted[j];
            let m = merge_fn(curr, next);
            proof {
                let d2 = d.push(m);
                assert forall|k: int| 1 <= k <= j implies current_before(s, d2, k)
                    == current_before(s, d, k) by {
                    Self::lemma_current_prefix(s, d, d2, k);
                }
                assert forall|k: int| 1 <= k <= j implies completed_before(s, d2, k)
                    == completed_before(s, d, k) by {
                    Self::lemma_completed_prefix(s, d, d2, k);
                }
                d = d2;
            }
            if m {
                curr = curr.union(next);
            } else {
                merged.push(curr);
                curr = next;
            }
            j = j + 1;
        }
        merged.push(curr);
        proof {
            assert(merged@ =~= merged_with(s, d));
            assert(d.len() == input.len());
        }
        merged
    }

    proof fn lemma_current_prefix(s: Seq<Span>, d: Seq<bool>, d2: Seq<bool>, k: int)
        requires
            1 <= k <= d.len(),
            d.len() < d2.len(),
            forall|i: int| 0 <= i < d.len() ==> d[i] == d2[i],
        ensures
            current_before(s, d2, k) == current_before(s, d, k),
        decreases k,
    {
        if k > 1 {
            Self::lemma_current_prefix(s, d, d2, k - 1);
        }
    }

    proof fn lemma_completed_prefix(s: Seq<Span>, d: Seq<bool>, d2: Seq<bool>, k: int)
        requires
            1 <= k <= d.len(),
            d.len() < d2.len(),
            forall|i: int| 0 <= i < d.len() ==> d[i] == d2[i],
        ensures
            completed_before(s, d2, k) == completed_before(s, d, k),
        decreases k,
    {
        if k > 1 {
            Self::lemma_completed_prefix(s, d, d2, k - 1);
            Self::lemma_current_prefix(s, d, d2, k - 1);
        }
    }

    /// Stably sorts spans by their start (insertion sort).
    fn sort_by_start_vec(spans: Vec<Span>) -> (r: Vec<Span>)
        ensures
            r@ == sort_by_start(spans@),
    {
        let mut out: Vec<Span> = Vec::new();
        let mut i: usize = 0;
        while i < spans.len()
            invariant
                i <= spans@.len(),
                out@ == sort_by_start(spans@.take(i as int)),
            decreases spans@.len() - i,
        {
            assert(spans@.take(i as int + 1).drop_last() =~= spans@.take(i as int));
            let x = spans[i];
            Self::insert_sorted(&mut out, x);
            i = i + 1;
        }
        assert(spans@.take(i as int) =~= spans@);
        out
    }

    /// Inserts `x` after every element whose start is at most the start of `x`.
    fn insert_sorted(v: &mut Vec<Span>, x: Span)
        ensures
            final(v)@ == insert_by_start(old(v)@, x),
    {
        let ghost orig = v@;
        let mut k = v.len();
        proof {
            assert(orig.take(k as int) =~= orig);
            assert(orig.skip(k as int) =~= Seq::<Span>::empty());
        }
        // Find the insertion point scanning from the end.
        while k > 0 && v[k - 1].start > x.start
            invariant
                v@ == orig,
                k <= orig.len(),
                insert_by_start(orig, x) == insert_by_start(orig.take(k as int), x) + orig.skip(
                    k as int,
                ),
                forall|i: int| k <= i < orig.len() ==> orig[i]@.0 > x@.0,
            decreases k,
        {
            proof {
                let t = orig.take(k as int);
                assert(t.last() == orig[k - 1]);
                assert(t.drop_last() =~= orig.take(k - 1));
                assert(insert_by_start(t, x) == insert_by_start(t.drop_last(), x).push(t.last()));
                assert(orig.skip(k - 1) =~= seq![orig[k - 1]] + orig.skip(k as int));
                assert(insert_by_start(t.drop_last(), x).push(t.last()) + orig.skip(k as int)
                    =~= insert_by_start(t.drop_last(), x) + orig.skip(k - 1));
            }
            k = k - 1;
        }
        proof {
            let t = orig.take(k as int);
            if k > 0 {
                assert(t.last() == orig[k - 1]);
                assert(insert_by_start(t, x) == t.push(x));
            } else {
                assert(insert_by_start(t, x) == seq![x]);
            }
        }
        v.insert(k, x);
        proof {
            assert(v@ =~= orig.take(k as int).push(x) + orig.skip(k as int));
        }
    }

    /// The smallest span containing both `self` and `other`.
    pub fn union(self, other: Self) -> (r: Span)
        ensures
            r@.0 == min_int(self@.0 as int, other@.0 as int),
            r@.1 == max_int(self@.1 as int, other@.1 as int),
            r == self.spec_union(other),
    {
        let start = if self.start <= other.start {
            self.start
        } else {
            other.start
        };
        let stop = if self.stop >= other.stop {
            self.stop
        } else {
            other.stop
        };
        Span { start, stop }
    }

    /// Whether `self` contains `other`: the union of the two is `self`.
    pub fn contains(self, other: Self) -> (r: bool)
        ensures
            r == (self.spec_union(other) == self),
            r == (self@.0 <= other@.0 && other@.1 <= self@.1),
    {
        let u = self.union(other);
        u.start == self.start && u.stop == self.stop
    }

    /// Returns a new [`Span`] representing the union of the current span with the given point.
    pub fn add_point(self, pos: i64) -> (r: Span)
        ensures
            r@.0 == min_int(self@.0 as int, pos as int),
            r@.1 == max_int(self@.1 as int, pos as int),
    {
        let start = if self.start <= pos {
            self.start
        } else {
            pos
        };
        let stop = if self.stop >= pos {
            self.stop
        } else {
            pos
        };
        Span { start, stop }
    }

    /// Shrinks the given side by the given amount.
    ///
    /// Behavior is controlled by the given [`Sign`]:
    /// * If `side` is [`Sign::Pos`], shrinks from the positive end (ie. decreases the `stop`).
    /// * If `side` is [`Sign::Neg`], shrinks from the negative end (ie. increases the `start`).
    pub fn shrink(self, side: Sign, amount: i64) -> (r: Span)
        requires
            i64::MIN <= self@.1 - self@.0 <= i64::MAX,
            length_view(self@) >= amount,
            side == Sign::Pos ==> i64::MIN <= self@.1 - amount <= i64::MAX,
            side == Sign::Neg ==> i64::MIN <= self@.0 + amount <= i64::MAX,
        ensures
            side == Sign::Pos ==> r@.0 == min_int(self@.0 as int, self@.1 - amount) && r@.1
                == max_int(self@.0 as int, self@.1 - amount),
            side == Sign::Neg ==> r@.0 == min_int(self@.0 + amount, self@.1 as int) && r@.1
                == max_int(self@.0 + amount, self@.1 as int),
    {
        match side {
            Sign::Pos => Self::new(self.start, self.stop - amount),
            Sign::Neg => Self::new(self.start + amount, self.stop),
        }
    }

    /// Shrinks both sides by the given amount.
    pub fn shrink_all(self, amount: i64) -> (r: Span)
        requires
            i64::MIN <= self@.1 - self@.0 <= i64::MAX,
            i64::MIN <= 2 * amount <= i64::MAX,
            length_view(self@) >= 2 * amount,
            i64::MIN <= self@.0 + amount <= i64::MAX,
            i64::MIN <= self@.1 - amount <= i64::MAX,
        ensures
            r@.0 == self@.0 + amount,
            r@.1 == self@.1 - amount,
    {
        Span { start: self.start + amount, stop: self.stop - amount }
    }

    /// Translates the span by `amount`.
    pub fn translate(self, amount: i64) -> (r: Span)
        requires
            i64::MIN <= self@.0 + amount <= i64::MAX,
            i64::MIN <= self@.1 + amount <= i64::MAX,
        ensures
            r@.0 == self@.0 + amount,
            r@.1 == self@.1 + amount,
    {
        Span { start: self.start + amount, stop: self.stop + amount }
    }

    /// The gap between two spans, or 0 if they overlap.
    pub fn min_distance(self, other: Span) -> (r: i64)
        requires
            i64::MIN <= union_view(self@, other@).1 - union_view(self@, other@).0 <= i64::MAX,
            i64::MIN <= length_view(self@) <= i64::MAX,
            i64::MIN <= length_view(other@) <= i64::MAX,
            i64::MIN <= union_view(self@, other@).1 - union_view(self@, other@).0 - length_view(
                self@,
            ) <= i64::MAX,
            i64::MIN <= union_view(self@, other@).1 - union_view(self@, other@).0 - length_view(
                self@,
            ) - length_view(other@) <= i64::MAX,
        ensures
            r == max_int(0, gap_view(self@, other@)),
    {
        let u = self.union(other);
        let d = u.length() - self.length() - other.length();
        if d >= 0 {
            d
        } else {
            0
        }
    }

    /// The pair `(start, stop)`.
    pub fn into_tuple(self) -> (r: (i64, i64))
        ensures
            r == self@,
    {
        (self.start, self.stop)
    }

    /// The span between the two ends of the pair, in either order.
    pub fn from_tuple(tup: (i64, i64)) -> (r: Span)
        ensures
            r@.0 == min_int(tup.0 as int, tup.1 as int),
            r@.1 == max_int(tup.0 as int, tup.1 as int),
    {
        Self::new(tup.0, tup.1)
    }
}

/// Whether span `a` contains span `b`.
pub open spec fn spans_contain(a: Span, b: Span) -> bool {
    a@.0 <= b@.0 && b@.1 <= a@.1
}

/// Whether some span of `t` contains `x`.
pub open spec fn covered_by(t: Seq<Span>, x: Span) -> bool {
    exists|i: int| 0 <= i < t.len() && spans_contain(#[trigger] t[i], x)
}

/// Whether the starts of the spans of `t` never decrease.
pub open spec fn starts_ordered(t: Seq<Span>) -> bool {
    forall|i: int, j: int| 0 <= i <= j < t.len() ==> (#[trigger] t[i])@.0 <= (#[trigger] t[j])@.0
}

/// The union of two spans starts at the smaller start and contains both.
proof fn lemma_union_contains(a: Span, b: Span)
    ensures
        a.spec_union(b)@.0 == min_int(a@.0 as int, b@.0 as int),
        spans_contain(a.spec_union(b), a),
        spans_contain(a.spec_union(b), b),
{
    Span::lemma_from_view(union_view(a@, b@));
}

/// Every start of `insert_by_start(t, x)` is at most `b` where those of `t` and `x` are.
proof fn lemma_insert_bound(t: Seq<Span>, x: Span, b: int)
    requires
        forall|i: int| 0 <= i < t.len() ==> (#[trigger] t[i])@.0 <= b,
        x@.0 <= b,
    ensures
        forall|i: int| 0 <= i < insert_by_start(t, x).len() ==> (#[trigger] insert_by_start(t, x)[i])@.0 <= b,
    decreases t.len(),
{
    lemma_insert_len(t, x);
    if t.len() > 0 && t.last()@.0 > x@.0 {
        lemma_insert_bound(t.drop_last(), x, b);
        lemma_insert_len(t.drop_last(), x);
        assert forall|i: int| 0 <= i < insert_by_start(t, x).len() implies (#[trigger] insert_by_start(t, x)[i])@.0 <= b by {
            if i < insert_by_start(t.drop_last(), x).len() {
                assert(insert_by_start(t, x)[i] == insert_by_start(t.drop_last(), x)[i]);
            }
        }
    }
}

/// Inserting into spans of ordered starts keeps the starts ordered, and the result holds
/// `x` and every span of `t`.
proof fn lemma_insert_sorted(t: Seq<Span>, x: Span)
    requires
        starts_ordered(t),
    ensures
        starts_ordered(insert_by_start(t, x)),
        insert_by_start(t, x).contains(x),
        forall|i: int| 0 <= i < t.len() ==> insert_by_start(t, x).contains(#[trigger] t[i]),
    decreases t.len(),
{
    lemma_insert_len(t, x);
    let r = insert_by_start(t, x);
    if t.len() == 0 {
        assert(r[0] == x);
    } else if t.last()@.0 > x@.0 {
        let t0 = t.drop_last();
        let r0 = insert_by_start(t0, x);
        assert(starts_ordered(t0)) by {
            assert forall|i: int, j: int| 0 <= i <= j < t0.len() implies (#[trigger] t0[i])@.0 <= (#[trigger] t0[j])@.0 by {
                assert(t0[i] == t[i] && t0[j] == t[j]);
            }
        }
        lemma_insert_sorted(t0, x);
        lemma_insert_len(t0, x);
        assert forall|i: int| 0 <= i < t0.len() implies (#[trigger] t0[i])@.0 <= t.last()@.0 by {
            assert(t0[i] == t[i]);
        }
        lemma_insert_bound(t0, x, t.last()@.0 as int);
        assert(r == r0.push(t.last()));
        assert forall|i: int, j: int| 0 <= i <= j < r.len() implies (#[trigger] r[i])@.0 <= (#[trigger] r[j])@.0 by {
            if j < r0.len() {
                assert(r[i] == r0[i] && r[j] == r0[j]);
            } else if i < r0.len() {
                assert(r[i] == r0[i]);
            }
        }
        let k = choose|k: int| 0 <= k < r0.len() && r0[k] == x;
        assert(r[k] == x);
        assert forall|i: int| 0 <= i < t.len() implies r.contains(#[trigger] t[i]) by {
            if i < t0.len() {
                assert(t0[i] == t[i]);
                let m = choose|m: int| 0 <= m < r0.len() && r0[m] == t0[i];
                assert(r[m] == t[i]);
            } else {
                assert(r[r0.len() as int] == t[i]);
            }
        }
    } else {
        assert(r == t.push(x));
        assert(r[t.len() as int] == x);
        assert forall|i: int| 0 <= i < t.len() implies r.contains(#[trigger] t[i]) by {
            assert(r[i] == t[i]);
        }
    }
}

/// Sorting by start orders the starts and keeps every span.
pub proof fn lemma_sort_by_start(s: Seq<Span>)
    ensures
        starts_ordered(sort_by_start(s)),
        forall|k: int| 0 <= k < s.len() ==> sort_by_start(s).contains(#[trigger] s[k]),
    decreases s.len(),
{
    if s.len() > 0 {
        let s0 = s.drop_last();
        lemma_sort_by_start(s0);
        lemma_insert_sorted(sort_by_start(s0), s.last());
        let r0 = sort_by_start(s0);
        assert forall|k: int| 0 <= k < s.len() implies sort_by_start(s).contains(#[trigger] s[k]) by {
            if k < s0.len() {
                assert(s0[k] == s[k]);
                let m = choose|m: int| 0 <= m < r0.len() && r0[m] == s0[k];
                assert(r0.contains(r0[m]));
            }
        }
    }
}

/// What holds of [`Span::merge_adjacent`] on sorted spans `s` with decisions `d` when it
/// reaches element `j`: the completed spans have ordered starts, none starts after the
/// span being grown, which starts no later than `s[j - 1]`; every span before `j` lies
/// in a completed span or the one being grown; and without merges nothing changed.
proof fn lemma_merge_run(s: Seq<Span>, d: Seq<bool>, j: int)
    requires
        starts_ordered(s),
        d.len() == s.len(),
        1 <= j <= s.len(),
    ensures
        completed_before(s, d, j).len() <= j - 1,
        starts_ordered(completed_before(s, d, j)),
        forall|i: int|
            0 <= i < completed_before(s, d, j).len() ==> (#[trigger] completed_before(s, d, j)[i])@.0
                <= current_before(s, d, j)@.0,
        current_before(s, d, j)@.0 <= s[j - 1]@.0,
        forall|k: int|
            0 <= k < j ==> covered_by(
                completed_before(s, d, j).push(current_before(s, d, j)),
                #[trigger] s[k],
            ),
        (forall|m: int| 1 <= m < j ==> !#[trigger] d[m]) ==> completed_before(s, d, j) == s.take(
            j - 1,
        ) && current_before(s, d, j) == s[j - 1],
    decreases j,
{
    let c = completed_before(s, d, j);
    let cur = current_before(s, d, j);
    let t = c.push(cur);
    if j == 1 {
        assert(t[0] == s[0]);
        assert(c =~= s.take(0));
    } else {
        lemma_merge_run(s, d, j - 1);
        let c0 = completed_before(s, d, j - 1);
        let cur0 = current_before(s, d, j - 1);
        let t0 = c0.push(cur0);
        assert(s[j - 2]@.0 <= s[j - 1]@.0);
        if d[j - 1] {
            lemma_union_contains(cur0, s[j - 1]);
            assert(c == c0);
            assert(cur == cur0.spec_union(s[j - 1]));
            assert forall|k: int| 0 <= k < j implies covered_by(t, #[trigger] s[k]) by {
                if k < j - 1 {
                    let i = choose|i: int| 0 <= i < t0.len() && spans_contain(#[trigger] t0[i], s[k]);
                    if i < c0.len() {
                        assert(t[i] == t0[i]);
                    } else {
                        assert(t[c.len() as int] == cur);
                    }
                } else {
                    assert(t[c.len() as int] == cur);
                }
            }
        } else {
            assert(c == c0.push(cur0));
            assert(cur == s[j - 1]);
            assert forall|i: int, i2: int| 0 <= i <= i2 < c.len() implies (#[trigger] c[i])@.0 <= (#[trigger] c[i2])@.0 by {
                if i2 < c0.len() {
                    assert(c[i] == c0[i] && c[i2] == c0[i2]);
                } else if i < c0.len() {
                    assert(c[i] == c0[i]);
                }
            }
            assert forall|i: int| 0 <= i < c.len() implies (#[trigger] c[i])@.0 <= cur@.0 by {
                if i < c0.len() {
                    assert(c[i] == c0[i]);
                }
            }
            assert forall|k: int| 0 <= k < j implies covered_by(t, #[trigger] s[k]) by {
                if k < j - 1 {
                    let i = choose|i: int| 0 <= i < t0.len() && spans_contain(#[trigger] t0[i], s[k]);
                    assert(t[i] == t0[i]);
                } else {
                    assert(t[c.len() as int] == s[k]);
                }
            }
            if forall|m: int| 1 <= m < j ==> !#[trigger] d[m] {
                assert(forall|m: int| 1 <= m < j - 1 ==> !#[trigger] d[m]);
                assert(c =~= s.take(j - 1));
            }
        }
    }
}

/// The laws of [`Span::merge_adjacent`], whatever the merge function decides: the output
/// has non-decreasing starts and no more spans than the input; every input span lies in
/// some output span; an empty input gives an empty output; and where nothing is merged,
/// the output is the input stably sorted by start.
pub proof fn law_merge_adjacent(spans: Seq<Span>, d: Seq<bool>)
    requires
        d.len() == spans.len(),
    ensures
        starts_ordered(merged_with(sort_by_start(spans), d)),
        merged_with(sort_by_start(spans), d).len() <= spans.len(),
        forall|k: int|
            0 <= k < spans.len() ==> covered_by(merged_with(sort_by_start(spans), d), #[trigger] spans[k]),
        spans.len() == 0 ==> merged_with(sort_by_start(spans), d).len() == 0,
        (forall|m: int| 1 <= m < spans.len() ==> !#[trigger] d[m]) ==> merged_with(
            sort_by_start(spans),
            d,
        ) == sort_by_start(spans),
{
    let s = sort_by_start(spans);
    lemma_sort_len(spans);
    lemma_sort_by_start(spans);
    if spans.len() > 0 {
        let n = s.len() as int;
        lemma_merge_run(s, d, n);
        let c = completed_before(s, d, n);
        let cur = current_before(s, d, n);
        let m = merged_with(s, d);
        assert(m == c.push(cur));
        assert forall|i: int, i2: int| 0 <= i <= i2 < m.len() implies (#[trigger] m[i])@.0 <= (#[trigger] m[i2])@.0 by {
            if i2 < c.len() {
                assert(m[i] == c[i] && m[i2] == c[i2]);
            } else if i < c.len() {
                assert(m[i] == c[i]);
            }
        }
        assert forall|k: int| 0 <= k < spans.len() implies covered_by(m, #[trigger] spans[k]) by {
            let q = choose|q: int| 0 <= q < s.len() && s[q] == spans[k];
            assert(covered_by(m, s[q]));
        }
        if forall|mm: int| 1 <= mm < spans.len() ==> !#[trigger] d[mm] {
            assert(m =~= s);
        }
    }
}

} // verus!
