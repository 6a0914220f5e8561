//! Operations on columns of floating point values.
//!
//! A floating point value is held by its bit pattern. Whether it is a
//! number, whether it is zero, and which of two numbers is the smaller one
//! can be read from the pattern; what arithmetic makes of two values cannot,
//! and is asked of the caller.
use vstd::prelude::*;
use crate::engine::series::generic::{accepts_all, accepts_any_pair, copy_labels, mapped, scanned};
use crate::engine::series::{Float32, Float64, Scalar, Series, SeriesView};
use crate::engine::block_manager::manager::{par_map, Block};

verus! {

/// A floating point element type.
pub trait Real: Scalar + Copy {
    /// Whether the value is not a number.
    spec fn nan(self) -> bool;

    /// The place of a number among the numbers: of two numbers, the smaller
    /// one has the smaller rank, and equal ones have the same rank. Both
    /// zeros have the rank 0.
    spec fn rank(self) -> int;

    /// Whether the value is not a number.
    fn is_nan(&self) -> (b: bool)
        ensures
            b == self.nan(),
    ;

    /// The rank of the value.
    fn place(&self) -> (r: i64)
        ensures
            r == self.rank(),
    ;

    /// A value that is not a number.
    fn not_a_number() -> (r: Self)
        ensures
            r.nan(),
    ;
}

/// The pattern of a double precision value without its sign.
pub open spec fn magnitude64(bits: u64) -> u64 {
    bits % 0x8000_0000_0000_0000
}

/// The pattern of a single precision value without its sign.
pub open spec fn magnitude32(bits: u32) -> u32 {
    bits % 0x8000_0000
}

impl Real for Float64 {
    open spec fn nan(self) -> bool {
        magnitude64(self.bits) > 0x7ff0_0000_0000_0000
    }

    open spec fn rank(self) -> int {
        if self.bits >= 0x8000_0000_0000_0000 {
            -(magnitude64(self.bits) as int)
        } else {
            magnitude64(self.bits) as int
        }
    }

    fn is_nan(&self) -> (b: bool) {
        self.bits % 0x8000_0000_0000_0000 > 0x7ff0_0000_0000_0000
    }

    fn place(&self) -> (r: i64) {
        let magnitude = (self.bits % 0x8000_0000_0000_0000) as i64;
        if self.bits >= 0x8000_0000_0000_0000 {
            -magnitude
        } else {
            magnitude
        }
    }

    fn not_a_number() -> (r: Self) {
        Float64 { bits: 0x7ff8_0000_0000_0000 }
    }
}

impl Real for Float32 {
    open spec fn nan(self) -> bool {
        magnitude32(self.bits) > 0x7f80_0000
    }

    open spec fn rank(self) -> int {
        if self.bits >= 0x8000_0000 {
            -(magnitude32(self.bits) as int)
        } else {
            magnitude32(self.bits) as int
        }
    }

    fn is_nan(&self) -> (b: bool) {
        self.bits % 0x8000_0000 > 0x7f80_0000
    }

    fn place(&self) -> (r: i64) {
        let magnitude = (self.bits % 0x8000_0000) as i64;
        if self.bits >= 0x8000_0000 {
            -magnitude
        } else {
            magnitude
        }
    }

    fn not_a_number() -> (r: Self) {
        Float32 { bits: 0x7fc0_0000 }
    }
}

/// Whether the value is a number other than zero, or not a number: whether
/// it differs from zero.
pub open spec fn nonzero<T: Real>(x: T) -> bool {
    x.nan() || x.rank() != 0
}

/// Whether both values are numbers and `a` is smaller than `b`.
pub open spec fn below<T: Real>(a: T, b: T) -> bool {
    !a.nan() && !b.nan() && a.rank() < b.rank()
}

/// Whether both values are numbers and `a` is not greater than `b`.
pub open spec fn at_most<T: Real>(a: T, b: T) -> bool {
    !a.nan() && !b.nan() && a.rank() <= b.rank()
}

/// Whether `x` lies between `left` and `right`; with `inclusive`, the
/// bounds themselves count as between. What is not a number lies nowhere.
pub open spec fn lies_between<T: Real>(x: T, left: T, right: T, inclusive: bool) -> bool {
    if inclusive {
        at_most(left, x) && at_most(x, right)
    } else {
        below(left, x) && below(x, right)
    }
}

/// `x`, or the bound that it lies beyond.
pub open spec fn held_within<T: Real>(x: T, lower: T, upper: T) -> T {
    if below(x, lower) {
        lower
    } else if below(upper, x) {
        upper
    } else {
        x
    }
}

/// Of the first `n` values, those that are numbers, in order.
pub open spec fn numbers_upto<T: Real>(values: Seq<T>, n: nat) -> Seq<T>
    decreases n,
{
    if n == 0 {
        Seq::empty()
    } else {
        let before = numbers_upto(values, (n - 1) as nat);
        if values[n - 1].nan() {
            before
        } else {
            before.push(values[n - 1])
        }
    }
}

/// Those of the values that are numbers, in order.
pub open spec fn numbers_of<T: Real>(values: Seq<T>) -> Seq<T> {
    numbers_upto(values, values.len())
}

/// How many of the first `n` values are not a number.
pub open spec fn gaps_upto<T: Real>(values: Seq<T>, n: nat) -> nat
    decreases n,
{
    if n == 0 {
        0
    } else if values[n - 1].nan() {
        gaps_upto(values, (n - 1) as nat) + 1
    } else {
        gaps_upto(values, (n - 1) as nat)
    }
}

/// There are no more gaps than values.
pub proof fn lemma_gaps_bound<T: Real>(values: Seq<T>, n: nat)
    ensures
        gaps_upto(values, n) <= n,
    decreases n,
{
    if n > 0 {
        lemma_gaps_bound(values, (n - 1) as nat);
    }
}

/// `best` is one of the first `n` numbers, and none of them is greater
/// (with `rising`) or smaller (without).
pub open spec fn is_extreme<T: Real>(numbers: Seq<T>, n: int, best: T, rising: bool) -> bool {
    &&& exists|k: int| 0 <= k < n && #[trigger] numbers[k] == best
    &&& forall|k: int|
        0 <= k < n ==> if rising {
            (#[trigger] numbers[k]).rank() <= best.rank()
        } else {
            best.rank() <= (#[trigger] numbers[k]).rank()
        }
}

/// `out` holds, for every one of `numbers`, the extreme of the numbers up
/// to it.
pub open spec fn running_extremes<T: Real>(numbers: Seq<T>, out: Seq<T>, rising: bool) -> bool {
    &&& out.len() == numbers.len()
    &&& forall|j: int| 0 <= j < out.len() ==> is_extreme(numbers, j + 1, #[trigger] out[j], rising)
}

/// The position whose value stands beside that at `at` when values are
/// compared `period` positions apart, if the column has such a position.
pub open spec fn partner(at: int, period: int, len: int) -> Option<int> {
    if 0 <= at - period < len {
        Some(at - period)
    } else {
        None
    }
}

/// `out` holds at every position what `func` returned for the value there
/// and the value `period` positions before it, and a value that is not a
/// number where there is no such position.
pub open spec fn shifted<T: Real, F: Fn(T, T) -> T>(func: F, values: Seq<T>, period: int, out: Seq<T>) -> bool {
    &&& out.len() == values.len()
    &&& forall|i: int|
        0 <= i < values.len() ==> match partner(i, period, values.len() as int) {
            Some(other) => call_ensures(func, (values[i], values[other]), #[trigger] out[i]),
            None => out[i].nan(),
        }
}

/// Whether every one of `values` differs from zero.
pub open spec fn none_zero<T: Real>(values: Seq<T>) -> bool {
    forall|i: int| 0 <= i < values.len() ==> nonzero(#[trigger] values[i])
}

/// Whether one of `values` differs from zero.
pub open spec fn some_nonzero<T: Real>(values: Seq<T>) -> bool {
    exists|i: int| 0 <= i < values.len() && nonzero(#[trigger] values[i])
}

/// Whether every one of `values` differs from zero.
pub fn all_nonzero<T: Real>(values: &Vec<T>) -> (b: bool)
    ensures
        b == none_zero(values@),
{
    let n = values.len();
    let mut i: usize = 0;
    while i < n
        invariant
            i <= n,
            n == values@.len(),
            forall|k: int| 0 <= k < i ==> nonzero(#[trigger] values@[k]),
        decreases n - i,
    {
        if !values[i].is_nan() && values[i].place() == 0 {
            assert(!nonzero(values@[i as int]));
            return false;
        }
        i += 1;
    }
    true
}

/// Whether one of `values` differs from zero.
pub fn any_nonzero<T: Real>(values: &Vec<T>) -> (b: bool)
    ensures
        b == some_nonzero(values@),
{
    let n = values.len();
    let mut i: usize = 0;
    while i < n
        invariant
            i <= n,
            n == values@.len(),
            forall|k: int| 0 <= k < i ==> !nonzero(#[trigger] values@[k]),
        decreases n - i,
    {
        if values[i].is_nan() || values[i].place() != 0 {
            assert(nonzero(values@[i as int]));
            return true;
        }
        i += 1;
    }
    false
}

/// Whether both values are numbers and `a` is smaller than `b`.
pub fn is_below<T: Real>(a: &T, b: &T) -> (r: bool)
    ensures
        r == below(*a, *b),
{
    !a.is_nan() && !b.is_nan() && a.place() < b.place()
}

/// Whether both values are numbers and `a` is not greater than `b`.
pub fn is_at_most<T: Real>(a: &T, b: &T) -> (r: bool)
    ensures
        r == at_most(*a, *b),
{
    !a.is_nan() && !b.is_nan() && a.place() <= b.place()
}

/// For every one of `values`, whether it lies between `left` and `right`.
pub fn marks_between<T: Real>(values: &Vec<T>, left: T, right: T, inclusive: bool) -> (out: Vec<bool>)
    ensures
        out@.len() == values@.len(),
        forall|i: int|
            0 <= i < values@.len() ==> #[trigger] out@[i] == lies_between(
                values@[i],
                left,
                right,
                inclusive,
            ),
{
    let mut out: Vec<bool> = Vec::new();
    let n = values.len();
    let mut i: usize = 0;
    while i < n
        invariant
            i <= n,
            n == values@.len(),
            out@.len() == i,
            forall|k: int|
                0 <= k < i ==> #[trigger] out@[k] == lies_between(values@[k], left, right, inclusive),
        decreases n - i,
    {
        let x = &values[i];
        let mark = if inclusive {
            is_at_most(&left, x) && is_at_most(x, &right)
        } else {
            is_below(&left, x) && is_below(x, &right)
        };
        out.push(mark);
        i += 1;
    }
    out
}

/// Every one of `values`, or the bound that it lies beyond.
pub fn values_within<T: Real>(values: &Vec<T>, lower: T, upper: T) -> (out: Vec<T>)
    ensures
        out@.len() == values@.len(),
        forall|i: int|
            0 <= i < values@.len() ==> #[trigger] out@[i] == held_within(values@[i], lower, upper),
{
    let mut out: Vec<T> = Vec::new();
    let n = values.len();
    let mut i: usize = 0;
    while i < n
        invariant
            i <= n,
            n == values@.len(),
            out@.len() == i,
            forall|k: int| 0 <= k < i ==> #[trigger] out@[k] == held_within(values@[k], lower, upper),
        decreases n - i,
    {
        let x = values[i];
        if is_below(&x, &lower) {
            out.push(lower);
        } else if is_below(&upper, &x) {
            out.push(upper);
        } else {
            out.push(x);
        }
        i += 1;
    }
    out
}

/// For every one of `numbers`, none of which is not a number, the greatest
/// (with `rising`) or the smallest (without) of the numbers up to it.
pub fn extremes<T: Real>(numbers: &Vec<T>, rising: bool) -> (out: Vec<T>)
    ensures
        running_extremes(numbers@, out@, rising),
{
    let mut out: Vec<T> = Vec::new();
    let n = numbers.len();
    if n == 0 {
        return out;
    }
    let mut best = numbers[0];
    out.push(best);
    assert(is_extreme(numbers@, 1, best, rising)) by {
        assert(numbers@[0] == best);
    }
    let mut i: usize = 1;
    while i < n
        invariant
            1 <= i <= n,
            n == numbers@.len(),
            out@.len() == i,
            is_extreme(numbers@, i as int, best, rising),
            forall|j: int| 0 <= j < i ==> is_extreme(numbers@, j + 1, #[trigger] out@[j], rising),
        decreases n - i,
    {
        let next = numbers[i];
        let ghost before = best;
        let ghost at = choose|k: int| 0 <= k < i && #[trigger] numbers@[k] == before;
        let better = if rising {
            best.place() < next.place()
        } else {
            next.place() < best.place()
        };
        if better {
            best = next;
            assert(numbers@[i as int] == best);
        } else {
            assert(numbers@[at] == best);
        }
        assert(is_extreme(numbers@, i + 1, best, rising));
        out.push(best);
        i += 1;
    }
    out
}

impl<T: Real> Series<T> {
    /// The number of values that are not a number.
    pub fn count(&self) -> (n: usize)
        ensures
            n == gaps_upto(self@.values, self@.values.len()),
    {
        let len = self.array.len();
        let mut n: usize = 0;
        let mut i: usize = 0;
        while i < len
            invariant
                i <= len,
                len == self.array@.len(),
                n == gaps_upto(self@.values, i as nat),
                n <= i,
            decreases len - i,
        {
            if self.array[i].is_nan() {
                n += 1;
            }
            i += 1;
        }
        n
    }

    /// For every value, whether it is not a number. Name and labels stay.
    pub fn isnull(&self) -> (r: Series<bool>)
        ensures
            r@.values.len() == self@.values.len(),
            forall|i: int| 0 <= i < self@.values.len() ==> #[trigger] r@.values[i] == self@.values[i].nan(),
            r@.name == self@.name,
            r@.index == self@.index,
    {
        proof {
            use_type_invariant(self);
        }
        let mut out: Vec<bool> = Vec::new();
        let n = self.array.len();
        let mut i: usize = 0;
        while i < n
            invariant
                i <= n,
                n == self.array@.len(),
                out@.len() == i,
                forall|k: int| 0 <= k < i ==> #[trigger] out@[k] == self.array@[k].nan(),
            decreases n - i,
        {
            out.push(self.array[i].is_nan());
            i += 1;
        }
        Series { array: out, name: self.name.clone(), index: copy_labels(&self.index) }
    }

    /// For every value, whether it is a number. Name and labels stay.
    pub fn notna(&self) -> (r: Series<bool>)
        ensures
            r@.values.len() == self@.values.len(),
            forall|i: int|
                0 <= i < self@.values.len() ==> #[trigger] r@.values[i] == !self@.values[i].nan(),
            r@.name == self@.name,
            r@.index == self@.index,
    {
        proof {
            use_type_invariant(self);
        }
        let mut out: Vec<bool> = Vec::new();
        let n = self.array.len();
        let mut i: usize = 0;
        while i < n
            invariant
                i <= n,
                n == self.array@.len(),
                out@.len() == i,
                forall|k: int| 0 <= k < i ==> #[trigger] out@[k] == !self.array@[k].nan(),
            decreases n - i,
        {
            out.push(!self.array[i].is_nan());
            i += 1;
        }
        Series { array: out, name: self.name.clone(), index: copy_labels(&self.index) }
    }

    /// The values that are numbers, in order.
    fn numbers(&self) -> (out: Vec<T>)
        ensures
            out@ == numbers_of(self@.values),
    {
        let mut out: Vec<T> = Vec::new();
        let n = self.array.len();
        let mut i: usize = 0;
        while i < n
            invariant
                i <= n,
                n == self.array@.len(),
                out@ == numbers_upto(self@.values, i as nat),
            decreases n - i,
        {
            if !self.array[i].is_nan() {
                out.push(self.array[i]);
            }
            i += 1;
        }
        out
    }

    /// The column of the values that are numbers, under the same name; its
    /// labels are `0`, `1`, ...
    pub fn drop_na(&self) -> (r: Series<T>)
        ensures
            r@ == SeriesView::from_values(numbers_of(self@.values)).renamed(self@.name),
    {
        let mut made = Series::from_vec(self.numbers());
        made.set_name(self.name.as_str());
        made
    }

    /// The column with `value` in place of every value that is not a
    /// number. Name and labels stay.
    pub fn fillna(&self, value: T) -> (r: Series<T>)
        ensures
            r@.values.len() == self@.values.len(),
            forall|i: int|
                0 <= i < self@.values.len() ==> #[trigger] r@.values[i] == if self@.values[i].nan() {
                    value
                } else {
                    self@.values[i]
                },
            r@ == self@.with_values(r@.values),
    {
        proof {
            use_type_invariant(self);
        }
        let mut out: Vec<T> = Vec::new();
        let n = self.array.len();
        let mut i: usize = 0;
        while i < n
            invariant
                i <= n,
                n == self.array@.len(),
                out@.len() == i,
                forall|k: int|
                    0 <= k < i ==> #[trigger] out@[k] == if self.array@[k].nan() {
                        value
                    } else {
                        self.array@[k]
                    },
            decreases n - i,
        {
            if self.array[i].is_nan() {
                out.push(value);
            } else {
                out.push(self.array[i]);
            }
            i += 1;
        }
        Series { array: out, name: self.name.clone(), index: copy_labels(&self.index) }
    }

    /// Puts `value` in place of every value that is not a number.
    pub fn fillna_inplace(&mut self, value: T)
        ensures
            final(self)@.values.len() == old(self)@.values.len(),
            forall|i: int|
                0 <= i < old(self)@.values.len() ==> #[trigger] final(self)@.values[i] == if old(
                    self,
                )@.values[i].nan() {
                    value
                } else {
                    old(self)@.values[i]
                },
            final(self)@ == old(self)@.with_values(final(self)@.values),
    {
        let filled = self.fillna(value);
        *self = filled;
    }

    /// The label of the first value that is a number, if there is one.
    pub fn first_valid_index(&self) -> (r: Option<String>)
        ensures
            match r {
                Some(label) => exists|i: int|
                    0 <= i < self@.values.len() && !(#[trigger] self@.values[i]).nan()
                        && label@ == self@.index[i] && forall|k: int|
                        0 <= k < i ==> (#[trigger] self@.values[k]).nan(),
                None => forall|i: int| 0 <= i < self@.values.len() ==> (#[trigger] self@.values[i]).nan(),
            },
    {
        proof {
            use_type_invariant(self);
        }
        let n = self.array.len();
        let mut i: usize = 0;
        while i < n
            invariant
                i <= n,
                n == self.array@.len(),
                n == self.index@.len(),
                forall|k: int| 0 <= k < i ==> (#[trigger] self@.values[k]).nan(),
            decreases n - i,
        {
            if !self.array[i].is_nan() {
                let label = self.index[i].clone();
                assert(label@ == self@.index[i as int]);
                assert(!self@.values[i as int].nan());
                return Some(label);
            }
            i += 1;
        }
        None
    }

    /// For every value, what `func` returns for it and the value `period`
    /// positions before it (behind it, where `period` is negative), and a
    /// value that is not a number where the column has no such position.
    /// Name and labels stay.
    pub fn shift_with<F: Fn(T, T) -> T>(&self, period: i32, func: F) -> (r: Series<T>)
        requires
            accepts_any_pair(func),
        ensures
            shifted(func, self@.values, period as int, r@.values),
            r@ == self@.with_values(r@.values),
    {
        proof {
            use_type_invariant(self);
        }
        let mut out: Vec<T> = Vec::new();
        let n = self.array.len();
        let mut i: usize = 0;
        while i < n
            invariant
                i <= n,
                n == self.array@.len(),
                out@.len() == i,
                accepts_any_pair(func),
                forall|k: int|
                    0 <= k < i ==> match partner(k, period as int, n as int) {
                        Some(other) => call_ensures(
                            func,
                            (self.array@[k], self.array@[other]),
                            #[trigger] out@[k],
                        ),
                        None => out@[k].nan(),
                    },
            decreases n - i,
        {
            let other = i as i128 - period as i128;
            if 0 <= other && other < n as i128 {
                let made = func(self.array[i], self.array[other as usize]);
                out.push(made);
            } else {
                out.push(T::not_a_number());
            }
            i += 1;
        }
        Series { array: out, name: self.name.clone(), index: copy_labels(&self.index) }
    }

    /// The difference of every value and the value `period` positions
    /// before it; `minus` subtracts. See [`Series::shift_with`].
    pub fn diff<F: Fn(T, T) -> T>(&self, period: i32, minus: F) -> (r: Series<T>)
        requires
            accepts_any_pair(minus),
        ensures
            shifted(minus, self@.values, period as int, r@.values),
            r@ == self@.with_values(r@.values),
    {
        self.shift_with(period, minus)
    }

    /// The quotient of every value and the value `period` positions before
    /// it; `over` divides. See [`Series::shift_with`].
    pub fn pct_change<F: Fn(T, T) -> T>(&self, period: i32, over: F) -> (r: Series<T>)
        requires
            accepts_any_pair(over),
        ensures
            shifted(over, self@.values, period as int, r@.values),
            r@ == self@.with_values(r@.values),
    {
        self.shift_with(period, over)
    }

    /// The running maxima of the values that are numbers, under the same
    /// name; the labels are `0`, `1`, ...
    pub fn cum_max_f(&self) -> (r: Series<T>)
        ensures
            running_extremes(numbers_of(self@.values), r@.values, true),
            r@ == SeriesView::from_values(r@.values).renamed(self@.name),
    {
        let mut made = Series::from_vec(extremes(&self.numbers(), true));
        made.set_name(self.name.as_str());
        made
    }

    /// The running minima of the values that are numbers, under the same
    /// name; the labels are `0`, `1`, ...
    pub fn cum_min_f(&self) -> (r: Series<T>)
        ensures
            running_extremes(numbers_of(self@.values), r@.values, false),
            r@ == SeriesView::from_values(r@.values).renamed(self@.name),
    {
        let mut made = Series::from_vec(extremes(&self.numbers(), false));
        made.set_name(self.name.as_str());
        made
    }

    /// The running maxima (with `rising`) or minima (without) of a column
    /// whose values are all numbers. Name and labels stay.
    pub fn running_extreme(&self, rising: bool) -> (r: Series<T>)
        requires
            !some_nan(self@.values),
        ensures
            running_extremes(self@.values, r@.values, rising),
            r@ == self@.with_values(r@.values),
    {
        proof {
            use_type_invariant(self);
        }
        Series {
            array: extremes(&self.array, rising),
            name: self.name.clone(),
            index: copy_labels(&self.index),
        }
    }

    /// The column of what `nearest`, which rounds, returns for every value.
    /// Name and labels stay.
    pub fn round<F: Fn(T) -> T>(&self, nearest: F) -> (r: Series<T>)
        requires
            accepts_all(nearest, self@.values),
        ensures
            mapped(nearest, self@.values, r@.values),
            r@ == self@.with_values(r@.values),
    {
        self.apply(nearest)
    }
}

impl Series<Float64> {
    /// Whether every value differs from zero.
    pub fn all(&self) -> (b: bool)
        ensures
            b == none_zero(self@.values),
    {
        all_nonzero(&self.array)
    }

    /// Whether some value differs from zero.
    pub fn any(&self) -> (b: bool)
        ensures
            b == some_nonzero(self@.values),
    {
        any_nonzero(&self.array)
    }

    /// The truth value of a column of one value: whether that value
    /// differs from zero.
    pub fn bool(&self) -> (b: bool)
        requires
            self@.values.len() == 1,
        ensures
            b == nonzero(self@.values[0]),
    {
        self.array[0].is_nan() || self.array[0].place() != 0
    }

    /// For every value, whether it lies between `left` and `right`; with
    /// `inclusive`, the bounds count as between. Name and labels stay.
    pub fn between(&self, left: Float64, right: Float64, inclusive: bool) -> (r: Series<bool>)
        ensures
            r@.values.len() == self@.values.len(),
            forall|i: int|
                0 <= i < self@.values.len() ==> #[trigger] r@.values[i] == lies_between(
                    self@.values[i],
                    left,
                    right,
                    inclusive,
                ),
            r@.name == self@.name,
            r@.index == self@.index,
    {
        proof {
            use_type_invariant(self);
        }
        Series {
            array: marks_between(&self.array, left, right, inclusive),
            name: self.name.clone(),
            index: copy_labels(&self.index),
        }
    }

    /// The column with every value below `lower` replaced by `lower` and
    /// every value above `upper` replaced by `upper`. Name and labels stay.
    pub fn clip(&self, lower: Float64, upper: Float64) -> (r: Series<Float64>)
        ensures
            r@.values.len() == self@.values.len(),
            forall|i: int|
                0 <= i < self@.values.len() ==> #[trigger] r@.values[i] == held_within(
                    self@.values[i],
                    lower,
                    upper,
                ),
            r@ == self@.with_values(r@.values),
    {
        proof {
            use_type_invariant(self);
        }
        Series {
            array: values_within(&self.array, lower, upper),
            name: self.name.clone(),
            index: copy_labels(&self.index),
        }
    }

    /// The running sums of the values; `plus` adds. Name and labels stay.
    pub fn cum_sum<F: Fn(Float64, Float64) -> Float64>(&self, plus: F) -> (r: Series<Float64>)
        requires
            accepts_any_pair(plus),
        ensures
            scanned(plus, self@.values, r@.values),
            r@ == self@.with_values(r@.values),
    {
        self.scan(&plus)
    }

    /// The running products of the values; `times` multiplies. With
    /// `skip_na`, of the values that are numbers: the column then has the
    /// same name and the labels `0`, `1`, ...; else name and labels stay.
    pub fn cum_prod<F: Fn(Float64, Float64) -> Float64>(&self, skip_na: bool, times: F) -> (r: Series<Float64>)
        requires
            accepts_any_pair(times),
        ensures
            skip_na ==> scanned(times, numbers_of(self@.values), r@.values) && r@
                == SeriesView::from_values(r@.values).renamed(self@.name),
            !skip_na ==> scanned(times, self@.values, r@.values) && r@ == self@.with_values(
                r@.values,
            ),
    {
        if skip_na {
            self.drop_na().scan(&times)
        } else {
            self.scan(&times)
        }
    }

    /// The running maxima of the values that are numbers: see
    /// [`Series::cum_max_f`].
    pub fn cum_max(&self) -> (r: Series<Float64>)
        ensures
            running_extremes(numbers_of(self@.values), r@.values, true),
            r@ == SeriesView::from_values(r@.values).renamed(self@.name),
    {
        self.cum_max_f()
    }

    /// The running minima of the values that are numbers: see
    /// [`Series::cum_min_f`].
    pub fn cum_min(&self) -> (r: Series<Float64>)
        ensures
            running_extremes(numbers_of(self@.values), r@.values, false),
            r@ == SeriesView::from_values(r@.values).renamed(self@.name),
    {
        self.cum_min_f()
    }
}

impl Series<Float32> {
    /// Whether every value differs from zero.
    pub fn all(&self) -> (b: bool)
        ensures
            b == none_zero(self@.values),
    {
        all_nonzero(&self.array)
    }

    /// Whether some value differs from zero.
    pub fn any(&self) -> (b: bool)
        ensures
            b == some_nonzero(self@.values),
    {
        any_nonzero(&self.array)
    }

    /// The truth value of a column of one value: whether that value
    /// differs from zero.
    pub fn bool(&self) -> (b: bool)
        requires
            self@.values.len() == 1,
        ensures
            b == nonzero(self@.values[0]),
    {
        self.array[0].is_nan() || self.array[0].place() != 0
    }

    /// For every value, whether it lies between `left` and `right`; with
    /// `inclusive`, the bounds count as between. Name and labels stay.
    pub fn between(&self, left: Float32, right: Float32, inclusive: bool) -> (r: Series<bool>)
        ensures
            r@.values.len() == self@.values.len(),
            forall|i: int|
                0 <= i < self@.values.len() ==> #[trigger] r@.values[i] == lies_between(
                    self@.values[i],
                    left,
                    right,
                    inclusive,
                ),
            r@.name == self@.name,
            r@.index == self@.index,
    {
        proof {
            use_type_invariant(self);
        }
        Series {
            array: marks_between(&self.array, left, right, inclusive),
            name: self.name.clone(),
            index: copy_labels(&self.index),
        }
    }

    /// The column with every value below `lower` replaced by `lower` and
    /// every value above `upper` replaced by `upper`. Name and labels stay.
    pub fn clip(&self, lower: Float32, upper: Float32) -> (r: Series<Float32>)
        ensures
            r@.values.len() == self@.values.len(),
            forall|i: int|
                0 <= i < self@.values.len() ==> #[trigger] r@.values[i] == held_within(
                    self@.values[i],
                    lower,
                    upper,
                ),
            r@ == self@.with_values(r@.values),
    {
        proof {
            use_type_invariant(self);
        }
        Series {
            array: values_within(&self.array, lower, upper),
            name: self.name.clone(),
            index: copy_labels(&self.index),
        }
    }

    /// The running sums of the values; `plus` adds. Name and labels stay.
    pub fn cum_sum<F: Fn(Float32, Float32) -> Float32>(&self, plus: F) -> (r: Series<Float32>)
        requires
            accepts_any_pair(plus),
        ensures
            scanned(plus, self@.values, r@.values),
            r@ == self@.with_values(r@.values),
    {
        self.scan(&plus)
    }

    /// The running products of the values; `times` multiplies. With
    /// `skip_na`, of the values that are numbers: the column then has the
    /// same name and the labels `0`, `1`, ...; else name and labels stay.
    pub fn cum_prod<F: Fn(Float32, Float32) -> Float32>(&self, skip_na: bool, times: F) -> (r: Series<Float32>)
        requires
            accepts_any_pair(times),
        ensures
            skip_na ==> scanned(times, numbers_of(self@.values), r@.values) && r@
                == SeriesView::from_values(r@.values).renamed(self@.name),
            !skip_na ==> scanned(times, self@.values, r@.values) && r@ == self@.with_values(
                r@.values,
            ),
    {
        if skip_na {
            self.drop_na().scan(&times)
        } else {
            self.scan(&times)
        }
    }

    /// The running maxima of the values that are numbers: see
    /// [`Series::cum_max_f`].
    pub fn cum_max(&self) -> (r: Series<Float32>)
        ensures
            running_extremes(numbers_of(self@.values), r@.values, true),
            r@ == SeriesView::from_values(r@.values).renamed(self@.name),
    {
        self.cum_max_f()
    }

    /// The running minima of the values that are numbers: see
    /// [`Series::cum_min_f`].
    pub fn cum_min(&self) -> (r: Series<Float32>)
        ensures
            running_extremes(numbers_of(self@.values), r@.values, false),
            r@ == SeriesView::from_values(r@.values).renamed(self@.name),
    {
        self.cum_min_f()
    }
}

/// Why a column has no least or greatest value.
#[derive(Clone, Copy, Debug, PartialEq, Eq, Structural)]
pub enum MinMaxError {
    /// The column holds no value.
    EmptyInput,
    /// The column holds a value that is not a number, which stands in no
    /// order to the others.
    UndefinedOrder,
}

/// Whether one of `values` is not a number.
pub open spec fn some_nan<T: Real>(values: Seq<T>) -> bool {
    exists|i: int| 0 <= i < values.len() && (#[trigger] values[i]).nan()
}

/// Whether one of `values` is a number.
pub open spec fn some_number<T: Real>(values: Seq<T>) -> bool {
    exists|i: int| 0 <= i < values.len() && !(#[trigger] values[i]).nan()
}

/// Whether `a` comes before `b`: is smaller (without `rising`) or greater (with).
pub open spec fn beats<T: Real>(a: T, b: T, rising: bool) -> bool {
    if rising {
        a.rank() > b.rank()
    } else {
        a.rank() < b.rank()
    }
}

/// `i` is the first position of the greatest (with `rising`) or the
/// smallest (without) of the numbers among `values`.
pub open spec fn is_first_extreme<T: Real>(values: Seq<T>, i: int, rising: bool) -> bool {
    &&& 0 <= i < values.len()
    &&& !values[i].nan()
    &&& forall|k: int|
        0 <= k < values.len() && !(#[trigger] values[k]).nan() ==> !beats(values[k], values[i], rising)
    &&& forall|k: int| 0 <= k < i && !(#[trigger] values[k]).nan() ==> beats(values[i], values[k], rising)
}

/// `best` is among the numbers of `values`, and none of them is greater
/// (with `rising`) or smaller (without).
pub open spec fn is_extreme_of<T: Real>(values: Seq<T>, best: T, rising: bool) -> bool {
    exists|i: int| is_first_extreme(values, i, rising) && #[trigger] values[i] == best
}

/// What the search for the first extreme of `values` gives as `r`: a
/// column without values has none, and neither has one with a value that
/// is not a number.
pub open spec fn extreme_found<T: Real>(values: Seq<T>, rising: bool, r: Result<usize, MinMaxError>) -> bool {
    match r {
        Ok(i) => !some_nan(values) && is_first_extreme(values, i as int, rising),
        Err(MinMaxError::EmptyInput) => values.len() == 0,
        Err(MinMaxError::UndefinedOrder) => values.len() > 0 && some_nan(values),
    }
}

/// What the search for an extreme value of `values` gives as `r`.
pub open spec fn extreme_value_found<T: Real>(values: Seq<T>, rising: bool, r: Result<T, MinMaxError>) -> bool {
    match r {
        Ok(best) => !some_nan(values) && is_extreme_of(values, best, rising),
        Err(MinMaxError::EmptyInput) => values.len() == 0,
        Err(MinMaxError::UndefinedOrder) => values.len() > 0 && some_nan(values),
    }
}

/// The first position of the greatest (with `rising`) or the smallest
/// (without) of the numbers among `values`, if there is a number.
pub fn first_extreme<T: Real>(values: &Vec<T>, rising: bool) -> (r: Option<usize>)
    ensures
        r is Some <==> some_number(values@),
        r matches Some(i) ==> is_first_extreme(values@, i as int, rising),
{
    let n = values.len();
    let mut best: Option<usize> = None;
    let mut i: usize = 0;
    while i < n
        invariant
            i <= n,
            n == values@.len(),
            best is None ==> forall|k: int| 0 <= k < i ==> (#[trigger] values@[k]).nan(),
            best matches Some(b) ==> b < i && !values@[b as int].nan() && (forall|k: int|
                0 <= k < i && !(#[trigger] values@[k]).nan() ==> !beats(
                    values@[k],
                    values@[b as int],
                    rising,
                )) && (forall|k: int|
                0 <= k < b && !(#[trigger] values@[k]).nan() ==> beats(
                    values@[b as int],
                    values@[k],
                    rising,
                )),
        decreases n - i,
    {
        if !values[i].is_nan() {
            match best {
                None => {
                    best = Some(i);
                },
                Some(b) => {
                    let better = if rising {
                        values[i].place() > values[b].place()
                    } else {
                        values[i].place() < values[b].place()
                    };
                    if better {
                        best = Some(i);
                    }
                },
            }
        }
        i += 1;
    }
    proof {
        match best {
            Some(b) => {
                assert(!values@[b as int].nan());
            },
            None => {},
        }
    }
    best
}

/// Whether one of `values` is not a number.
pub fn has_nan<T: Real>(values: &Vec<T>) -> (b: bool)
    ensures
        b == some_nan(values@),
{
    let n = values.len();
    let mut i: usize = 0;
    while i < n
        invariant
            i <= n,
            n == values@.len(),
            forall|k: int| 0 <= k < i ==> !(#[trigger] values@[k]).nan(),
        decreases n - i,
    {
        if values[i].is_nan() {
            assert(values@[i as int].nan());
            return true;
        }
        i += 1;
    }
    false
}

/// The first position of the greatest (with `rising`) or the smallest
/// (without) of `values`: see [`extreme_found`].
pub fn extreme_position<T: Real>(values: &Vec<T>, rising: bool) -> (r: Result<usize, MinMaxError>)
    ensures
        extreme_found(values@, rising, r),
{
    if values.len() == 0 {
        return Err(MinMaxError::EmptyInput);
    }
    if has_nan(values) {
        return Err(MinMaxError::UndefinedOrder);
    }
    match first_extreme(values, rising) {
        Some(i) => Ok(i),
        None => {
            proof {
                assert(!values@[0].nan());
            }
            Err(MinMaxError::EmptyInput)
        },
    }
}

impl<T: Real> Series<T> {
    /// The first position of the smallest value. A column without values
    /// has none, and neither has one with a value that is not a number.
    pub fn argmin(&self) -> (r: Result<usize, MinMaxError>)
        ensures
            extreme_found(self@.values, false, r),
    {
        extreme_position(&self.array, false)
    }

    /// The first position of the greatest value. A column without values
    /// has none, and neither has one with a value that is not a number.
    pub fn argmax(&self) -> (r: Result<usize, MinMaxError>)
        ensures
            extreme_found(self@.values, true, r),
    {
        extreme_position(&self.array, true)
    }

    /// The smallest value. A column without values has none, and neither
    /// has one with a value that is not a number.
    pub fn min(&self) -> (r: Result<T, MinMaxError>)
        ensures
            extreme_value_found(self@.values, false, r),
    {
        match extreme_position(&self.array, false) {
            Ok(i) => Ok(self.array[i]),
            Err(e) => Err(e),
        }
    }

    /// The greatest value. A column without values has none, and neither
    /// has one with a value that is not a number.
    pub fn max(&self) -> (r: Result<T, MinMaxError>)
        ensures
            extreme_value_found(self@.values, true, r),
    {
        match extreme_position(&self.array, true) {
            Ok(i) => Ok(self.array[i]),
            Err(e) => Err(e),
        }
    }

    /// The first position of the smallest of the values that are numbers;
    /// [`MinMaxError::EmptyInput`] where the column holds no number.
    pub fn argmin_skipnan(&self) -> (r: Result<usize, MinMaxError>)
        ensures
            match r {
                Ok(i) => is_first_extreme(self@.values, i as int, false),
                Err(e) => e == MinMaxError::EmptyInput && !some_number(self@.values),
            },
    {
        match first_extreme(&self.array, false) {
            Some(i) => Ok(i),
            None => Err(MinMaxError::EmptyInput),
        }
    }

    /// The greatest of the values that are numbers, and a value that is
    /// not a number where the column holds no number.
    pub fn max_skipnan(&self) -> (r: T)
        ensures
            if some_number(self@.values) {
                is_extreme_of(self@.values, r, true)
            } else {
                r.nan()
            },
    {
        match first_extreme(&self.array, true) {
            Some(i) => self.array[i],
            None => T::not_a_number(),
        }
    }
}

/// `out` holds, for every column of the block, its greatest (with
/// `rising`) or smallest (without) value.
pub open spec fn block_extremes<T: Real>(columns: Seq<SeriesView<T>>, rising: bool, out: Seq<T>) -> bool {
    &&& out.len() == columns.len()
    &&& forall|k: int|
        0 <= k < columns.len() ==> extreme_value_found(columns[k].values, rising, Ok(#[trigger] out[k]))
}

/// Whether every one of the columns has a least and a greatest value: it
/// holds a value, and none that is not a number.
pub open spec fn all_ordered<T: Real>(columns: Seq<SeriesView<T>>) -> bool {
    forall|k: int|
        0 <= k < columns.len() ==> (#[trigger] columns[k]).values.len() > 0 && !some_nan(
            columns[k].values,
        )
}

/// The values of `found`, unless one of them is an error.
fn all_found<T: Real>(found: Vec<Result<T, MinMaxError>>) -> (r: Option<Vec<T>>)
    ensures
        r is Some <==> forall|k: int| 0 <= k < found@.len() ==> (#[trigger] found@[k]) is Ok,
        r matches Some(out) ==> out@.len() == found@.len() && forall|k: int|
            0 <= k < found@.len() ==> found@[k] == Ok::<T, MinMaxError>(#[trigger] out@[k]),
{
    let mut out: Vec<T> = Vec::new();
    let n = found.len();
    let mut i: usize = 0;
    while i < n
        invariant
            i <= n,
            n == found@.len(),
            out@.len() == i,
            forall|k: int| 0 <= k < i ==> found@[k] == Ok::<T, MinMaxError>(#[trigger] out@[k]),
            forall|k: int| 0 <= k < i ==> (#[trigger] found@[k]) is Ok,
        decreases n - i,
    {
        match found[i] {
            Ok(v) => out.push(v),
            Err(_) => {
                assert(!(found@[i as int] is Ok));
                return None;
            },
        }
        i += 1;
    }
    Some(out)
}

impl<T: Real + Send + Sync> Block<T> {
    /// The greatest (with `rising`) or smallest (without) value of every
    /// column, found on `rayon`'s worker threads; `None` where one of the
    /// columns has none.
    fn extremes(&self, rising: bool) -> (r: Option<Series<T>>)
        ensures
            r is Some <==> all_ordered(self@.data),
            r matches Some(s) ==> block_extremes(self@.data, rising, s@.values) && s@
                == SeriesView::from_values(s@.values),
    {
        let each = |s: &Series<T>| -> (o: Result<T, MinMaxError>)
            ensures
                extreme_value_found(s@.values, rising, o),
            {
                if rising {
                    s.max()
                } else {
                    s.min()
                }
            };
        let found = par_map(&self.data, each);
        proof {
            assert forall|k: int| 0 <= k < found@.len() implies extreme_value_found(
                self@.data[k].values,
                rising,
                #[trigger] found@[k],
            ) by {
                assert(call_ensures(each, (&self.data@[k],), found@[k]));
                assert(self.data@[k]@ == self@.data[k]);
            }
            if all_ordered(self@.data) {
                assert forall|k: int| 0 <= k < found@.len() implies (#[trigger] found@[k]) is Ok by {
                    assert(self@.data[k].values.len() > 0 && !some_nan(self@.data[k].values));
                    assert(extreme_value_found(self@.data[k].values, rising, found@[k]));
                }
            }
        }
        match all_found(found) {
            Some(values) => {
                proof {
                    assert forall|k: int| 0 <= k < self@.data.len() implies (
                    #[trigger] self@.data[k]).values.len() > 0 && !some_nan(self@.data[k].values) by {
                        assert(extreme_value_found(self@.data[k].values, rising, found@[k]));
                        assert(found@[k] == Ok::<T, MinMaxError>(values@[k]));
                    }
                }
                Some(Series::from_vec(values))
            },
            None => {
                proof {
                    let k = choose|k: int| 0 <= k < found@.len() && !((#[trigger] found@[k]) is Ok);
                    assert(extreme_value_found(self@.data[k].values, rising, found@[k]));
                    assert(!(self@.data[k].values.len() > 0 && !some_nan(self@.data[k].values)));
                }
                None
            },
        }
    }

    /// The smallest value of every column, in the order of the columns and
    /// labelled `0`, `1`, ...; `None` where a column holds no value, or a
    /// value that is not a number.
    pub fn min(&self) -> (r: Option<Series<T>>)
        ensures
            r is Some <==> all_ordered(self@.data),
            r matches Some(s) ==> block_extremes(self@.data, false, s@.values) && s@
                == SeriesView::from_values(s@.values),
    {
        self.extremes(false)
    }

    /// The greatest value of every column, in the order of the columns and
    /// labelled `0`, `1`, ...; `None` where a column holds no value, or a
    /// value that is not a number.
    pub fn max(&self) -> (r: Option<Series<T>>)
        ensures
            r is Some <==> all_ordered(self@.data),
            r matches Some(s) ==> block_extremes(self@.data, true, s@.values) && s@
                == SeriesView::from_values(s@.values),
    {
        self.extremes(true)
    }
}

/// `out` holds, for every column of the block, the first position of its
/// smallest value.
pub open spec fn block_positions<T: Real>(columns: Seq<SeriesView<T>>, out: Seq<usize>) -> bool {
    &&& out.len() == columns.len()
    &&& forall|k: int|
        0 <= k < columns.len() ==> extreme_found(columns[k].values, false, Ok(#[trigger] out[k]))
}

impl<T: Real + Send + Sync> Block<T> {
    /// The first position of the smallest value of every column, in the
    /// order of the columns and labelled `0`, `1`, ...; `None` where a
    /// column holds no value, or a value that is not a number.
    pub fn argmin(&self) -> (r: Option<Series<usize>>)
        ensures
            r is Some <==> all_ordered(self@.data),
            r matches Some(s) ==> block_positions(self@.data, s@.values) && s@
                == SeriesView::from_values(s@.values),
    {
        let mut out: Vec<usize> = Vec::new();
        let n = self.data.len();
        let mut i: usize = 0;
        while i < n
            invariant
                i <= n,
                n == self.data@.len(),
                out@.len() == i,
                forall|k: int|
                    0 <= k < i ==> (#[trigger] self@.data[k]).values.len() > 0 && !some_nan(
                        self@.data[k].values,
                    ),
                forall|k: int|
                    0 <= k < i ==> extreme_found(self@.data[k].values, false, Ok(#[trigger] out@[k])),
            decreases n - i,
        {
            assert(self.data@[i as int]@ == self@.data[i as int]);
            match self.data[i].argmin() {
                Ok(at) => out.push(at),
                Err(_) => {
                    assert(!(self@.data[i as int].values.len() > 0 && !some_nan(
                        self@.data[i as int].values,
                    )));
                    return None;
                },
            }
            i += 1;
        }
        Some(Series::from_vec(out))
    }
}

} // verus!
