//! Operations on columns whose elements are ordered, and on columns of integers.
use vstd::prelude::*;
use crate::engine::series::errors::SeriesErrors;
use crate::engine::series::generic::copy_labels;
use crate::engine::series::traits::{Integer, Ordered};
use crate::engine::series::Series;

verus! {

/// Whether `x` lies between `left` and `right`; with `inclusive`, the bounds
/// themselves count as between.
pub open spec fn is_between<T: Ordered>(x: T, left: T, right: T, inclusive: bool) -> bool {
    if inclusive {
        !x.lt(left) && !right.lt(x)
    } else {
        left.lt(x) && x.lt(right)
    }
}

/// `x`, or the bound that it lies beyond.
pub open spec fn clipped<T: Ordered>(x: T, lower: T, upper: T) -> T {
    if x.lt(lower) {
        lower
    } else if upper.lt(x) {
        upper
    } else {
        x
    }
}

/// The numbers that integer values stand for.
pub open spec fn numbers<T: Integer>(values: Seq<T>) -> Seq<int> {
    values.map_values(|x: T| x.value())
}

/// The sum of the first `n` numbers of `v`.
pub open spec fn prefix_sum(v: Seq<int>, n: nat) -> int
    decreases n,
{
    if n == 0 {
        0
    } else {
        prefix_sum(v, (n - 1) as nat) + v[n - 1]
    }
}

/// The product of the first `n` numbers of `v`.
pub open spec fn prefix_product(v: Seq<int>, n: nat) -> int
    decreases n,
{
    if n == 0 {
        1
    } else {
        prefix_product(v, (n - 1) as nat) * v[n - 1]
    }
}

/// The greatest of the first `n` numbers of `v`, for `n` of at least 1.
pub open spec fn prefix_max(v: Seq<int>, n: nat) -> int
    decreases n,
{
    if n <= 1 {
        v[0]
    } else if prefix_max(v, (n - 1) as nat) < v[n - 1] {
        v[n - 1]
    } else {
        prefix_max(v, (n - 1) as nat)
    }
}

/// The least of the first `n` numbers of `v`, for `n` of at least 1.
pub open spec fn prefix_min(v: Seq<int>, n: nat) -> int
    decreases n,
{
    if n <= 1 {
        v[0]
    } else if v[n - 1] < prefix_min(v, (n - 1) as nat) {
        v[n - 1]
    } else {
        prefix_min(v, (n - 1) as nat)
    }
}

/// The sum of the products of the first `n` numbers of `a` and `b`, position by position.
pub open spec fn dot_product(a: Seq<int>, b: Seq<int>, n: nat) -> int
    decreases n,
{
    if n == 0 {
        0
    } else {
        dot_product(a, b, (n - 1) as nat) + a[n - 1] * b[n - 1]
    }
}

/// `v` lies within the range of `T`.
pub open spec fn in_range<T: Integer>(v: int) -> bool {
    T::least() <= v <= T::greatest()
}

impl<T: Ordered> Series<T> {
    /// For every value, whether it lies between `left` and `right`; with
    /// `inclusive`, the bounds count as between. Name and labels stay.
    pub fn between(&self, left: T, right: T, inclusive: bool) -> (r: Series<bool>)
        ensures
            r@.values.len() == self@.values.len(),
            forall|i: int|
                0 <= i < self@.values.len() ==> #[trigger] r@.values[i] == is_between(
                    self@.values[i],
                    left,
                    right,
                    inclusive,
                ),
            r@.name == self@.name,
            r@.index == self@.index,
    {
        proof {
            use_type_invariant(self);
        }
        let mut out: Vec<bool> = Vec::new();
        let n = self.array.len();
        let mut i: usize = 0;
        while i < n
            invariant
                i <= n,
                n == self.array@.len(),
                out@.len() == i,
                forall|k: int|
                    0 <= k < i ==> #[trigger] out@[k] == is_between(
                        self.array@[k],
                        left,
                        right,
                        inclusive,
                    ),
            decreases n - i,
        {
            let x = &self.array[i];
            let b = if inclusive {
                !x.less(&left) && !right.less(x)
            } else {
                left.less(x) && x.less(&right)
            };
            out.push(b);
            i += 1;
        }
        Series {
            array: out,
            name: self.name.clone(),
            index: copy_labels(&self.index),
        }
    }

    /// The column with every value below `lower` replaced by `lower` and every
    /// value above `upper` replaced by `upper`. Name and labels stay.
    pub fn clip(&self, lower: T, upper: T) -> (r: Series<T>)
        ensures
            r@.values.len() == self@.values.len(),
            forall|i: int|
                0 <= i < self@.values.len() ==> #[trigger] r@.values[i] == clipped(
                    self@.values[i],
                    lower,
                    upper,
                ),
            r@ == self@.with_values(r@.values),
    {
        proof {
            use_type_invariant(self);
        }
        let mut out: Vec<T> = Vec::new();
        let n = self.array.len();
        let mut i: usize = 0;
        while i < n
            invariant
                i <= n,
                n == self.array@.len(),
                out@.len() == i,
                forall|k: int|
                    0 <= k < i ==> #[trigger] out@[k] == clipped(self.array@[k], lower, upper),
            decreases n - i,
        {
            let x = &self.array[i];
            if x.less(&lower) {
                out.push(lower.dup());
            } else if upper.less(x) {
                out.push(upper.dup());
            } else {
                out.push(x.dup());
            }
            i += 1;
        }
        Series {
            array: out,
            name: self.name.clone(),
            index: copy_labels(&self.index),
        }
    }
}

impl<T: Integer> Series<T> {
    /// Whether no value is 0.
    pub fn all(&self) -> (b: bool)
        ensures
            b == forall|i: int| 0 <= i < self@.values.len() ==> (#[trigger] self@.values[i]).value() != 0,
    {
        let n = self.array.len();
        let mut i: usize = 0;
        while i < n
            invariant
                i <= n,
                n == self.array@.len(),
                forall|k: int| 0 <= k < i ==> (#[trigger] self@.values[k]).value() != 0,
            decreases n - i,
        {
            if self.array[i].is_zero() {
                assert(self@.values[i as int].value() == 0);
                return false;
            }
            i += 1;
        }
        true
    }

    /// Whether some value is not 0.
    pub fn any(&self) -> (b: bool)
        ensures
            b == exists|i: int| 0 <= i < self@.values.len() && (#[trigger] self@.values[i]).value() != 0,
    {
        let n = self.array.len();
        let mut i: usize = 0;
        while i < n
            invariant
                i <= n,
                n == self.array@.len(),
                forall|k: int| 0 <= k < i ==> (#[trigger] self@.values[k]).value() == 0,
            decreases n - i,
        {
            if !self.array[i].is_zero() {
                assert(self@.values[i as int].value() != 0);
                return true;
            }
            i += 1;
        }
        false
    }

    /// The truth value of a column of one value: whether that value is not 0.
    pub fn bool(&self) -> (b: bool)
        requires
            self@.values.len() == 1,
        ensures
            b == (self@.values[0].value() != 0),
    {
        !self.array[0].is_zero()
    }

    /// The running sums of the values. Name and labels stay.
    pub fn cum_sum(&self) -> (r: Series<T>)
        requires
            forall|n: nat|
                1 <= n <= self@.values.len() ==> in_range::<T>(
                    #[trigger] prefix_sum(numbers(self@.values), n),
                ),
        ensures
            r@.values.len() == self@.values.len(),
            forall|i: int|
                0 <= i < self@.values.len() ==> (#[trigger] r@.values[i]).value() == prefix_sum(
                    numbers(self@.values),
                    (i + 1) as nat,
                ),
            r@ == self@.with_values(r@.values),
    {
        proof {
            use_type_invariant(self);
        }
        let mut out: Vec<T> = Vec::new();
        let mut total = T::zero();
        let n = self.array.len();
        let mut i: usize = 0;
        while i < n
            invariant
                i <= n,
                n == self.array@.len(),
                out@.len() == i,
                total.value() == prefix_sum(numbers(self@.values), i as nat),
                forall|m: nat|
                    1 <= m <= self@.values.len() ==> in_range::<T>(
                        #[trigger] prefix_sum(numbers(self@.values), m),
                    ),
                forall|k: int|
                    0 <= k < i ==> (#[trigger] out@[k]).value() == prefix_sum(
                        numbers(self@.values),
                        (k + 1) as nat,
                    ),
            decreases n - i,
        {
            proof {
                assert(numbers(self@.values)[i as int] == self.array@[i as int].value());
                assert(in_range::<T>(prefix_sum(numbers(self@.values), (i + 1) as nat)));
            }
            total = total.sum(self.array[i]);
            out.push(total);
            i += 1;
        }
        Series {
            array: out,
            name: self.name.clone(),
            index: copy_labels(&self.index),
        }
    }

    /// The running products of the values. Name and labels stay.
    pub fn cum_prod(&self) -> (r: Series<T>)
        requires
            forall|n: nat|
                1 <= n <= self@.values.len() ==> in_range::<T>(
                    #[trigger] prefix_product(numbers(self@.values), n),
                ),
        ensures
            r@.values.len() == self@.values.len(),
            forall|i: int|
                0 <= i < self@.values.len() ==> (#[trigger] r@.values[i]).value()
                    == prefix_product(numbers(self@.values), (i + 1) as nat),
            r@ == self@.with_values(r@.values),
    {
        proof {
            use_type_invariant(self);
        }
        let mut out: Vec<T> = Vec::new();
        let n = self.array.len();
        if n == 0 {
            return Series {
                array: out,
                name: self.name.clone(),
                index: copy_labels(&self.index),
            };
        }
        let mut total = self.array[0];
        out.push(total);
        proof {
            assert(numbers(self@.values)[0] == self.array@[0].value());
            assert(prefix_product(numbers(self@.values), 0) == 1);
            assert(prefix_product(numbers(self@.values), 1) == 1 * numbers(self@.values)[0]);
        }
        let mut i: usize = 1;
        while i < n
            invariant
                1 <= i <= n,
                n == self.array@.len(),
                out@.len() == i,
                total.value() == prefix_product(numbers(self@.values), i as nat),
                forall|m: nat|
                    1 <= m <= self@.values.len() ==> in_range::<T>(
                        #[trigger] prefix_product(numbers(self@.values), m),
                    ),
                forall|k: int|
                    0 <= k < i ==> (#[trigger] out@[k]).value() == prefix_product(
                        numbers(self@.values),
                        (k + 1) as nat,
                    ),
            decreases n - i,
        {
            proof {
                assert(numbers(self@.values)[i as int] == self.array@[i as int].value());
                assert(in_range::<T>(prefix_product(numbers(self@.values), (i + 1) as nat)));
            }
            total = total.product(self.array[i]);
            out.push(total);
            i += 1;
        }
        Series {
            array: out,
            name: self.name.clone(),
            index: copy_labels(&self.index),
        }
    }

    /// The running maxima of the values. Name and labels stay.
    pub fn cum_max(&self) -> (r: Series<T>)
        ensures
            r@.values.len() == self@.values.len(),
            forall|i: int|
                0 <= i < self@.values.len() ==> (#[trigger] r@.values[i]).value() == prefix_max(
                    numbers(self@.values),
                    (i + 1) as nat,
                ),
            r@ == self@.with_values(r@.values),
    {
        proof {
            use_type_invariant(self);
        }
        let mut out: Vec<T> = Vec::new();
        let n = self.array.len();
        if n == 0 {
            return Series {
                array: out,
                name: self.name.clone(),
                index: copy_labels(&self.index),
            };
        }
        let mut best = self.array[0];
        out.push(best);
        proof {
            assert(numbers(self@.values)[0] == self.array@[0].value());
        }
        let mut i: usize = 1;
        while i < n
            invariant
                1 <= i <= n,
                n == self.array@.len(),
                out@.len() == i,
                best.value() == prefix_max(numbers(self@.values), i as nat),
                forall|k: int|
                    0 <= k < i ==> (#[trigger] out@[k]).value() == prefix_max(
                        numbers(self@.values),
                        (k + 1) as nat,
                    ),
            decreases n - i,
        {
            proof {
                assert(numbers(self@.values)[i as int] == self.array@[i as int].value());
            }
            if best.below(&self.array[i]) {
                best = self.array[i];
            }
            out.push(best);
            i += 1;
        }
        Series {
            array: out,
            name: self.name.clone(),
            index: copy_labels(&self.index),
        }
    }

    /// The running minima of the values. Name and labels stay.
    pub fn cum_min(&self) -> (r: Series<T>)
        ensures
            r@.values.len() == self@.values.len(),
            forall|i: int|
                0 <= i < self@.values.len() ==> (#[trigger] r@.values[i]).value() == prefix_min(
                    numbers(self@.values),
                    (i + 1) as nat,
                ),
            r@ == self@.with_values(r@.values),
    {
        proof {
            use_type_invariant(self);
        }
        let mut out: Vec<T> = Vec::new();
        let n = self.array.len();
        if n == 0 {
            return Series {
                array: out,
                name: self.name.clone(),
                index: copy_labels(&self.index),
            };
        }
        let mut best = self.array[0];
        out.push(best);
        proof {
            assert(numbers(self@.values)[0] == self.array@[0].value());
        }
        let mut i: usize = 1;
        while i < n
            invariant
                1 <= i <= n,
                n == self.array@.len(),
                out@.len() == i,
                best.value() == prefix_min(numbers(self@.values), i as nat),
                forall|k: int|
                    0 <= k < i ==> (#[trigger] out@[k]).value() == prefix_min(
                        numbers(self@.values),
                        (k + 1) as nat,
                    ),
            decreases n - i,
        {
            proof {
                assert(numbers(self@.values)[i as int] == self.array@[i as int].value());
            }
            if self.array[i].below(&best) {
                best = self.array[i];
            }
            out.push(best);
            i += 1;
        }
        Series {
            array: out,
            name: self.name.clone(),
            index: copy_labels(&self.index),
        }
    }

    /// The dot product of two columns of one length: the sum of the products
    /// of their values, position by position.
    pub fn dot(&self, other: &Series<T>) -> (r: Result<T, SeriesErrors>)
        requires
            self@.values.len() == other@.values.len() ==> forall|n: nat|
                1 <= n <= self@.values.len() ==> in_range::<T>(
                    #[trigger] dot_product(numbers(self@.values), numbers(other@.values), n),
                ) && in_range::<T>(
                    numbers(self@.values)[n - 1] * numbers(other@.values)[n - 1],
                ),
        ensures
            r is Ok <==> self@.values.len() == other@.values.len(),
            r matches Ok(v) ==> v.value() == dot_product(
                numbers(self@.values),
                numbers(other@.values),
                self@.values.len(),
            ),
            r matches Err(e) ==> e == SeriesErrors::MatrixUnaligned(
                self@.values.len() as usize,
                other@.values.len() as usize,
            ),
    {
        let n = self.array.len();
        if n != other.array.len() {
            return Err(SeriesErrors::MatrixUnaligned(n, other.array.len()));
        }
        let mut total = T::zero();
        let mut i: usize = 0;
        while i < n
            invariant
                i <= n,
                n == self.array@.len(),
                n == other.array@.len(),
                total.value() == dot_product(
                    numbers(self@.values),
                    numbers(other@.values),
                    i as nat,
                ),
                forall|m: nat|
                    1 <= m <= self@.values.len() ==> in_range::<T>(
                        #[trigger] dot_product(numbers(self@.values), numbers(other@.values), m),
                    ) && in_range::<T>(
                        numbers(self@.values)[m - 1] * numbers(other@.values)[m - 1],
                    ),
            decreases n - i,
        {
            proof {
                assert(numbers(self@.values)[i as int] == self.array@[i as int].value());
                assert(numbers(other@.values)[i as int] == other.array@[i as int].value());
                assert(in_range::<T>(
                    dot_product(numbers(self@.values), numbers(other@.values), (i + 1) as nat),
                ));
            }
            let p = self.array[i].product(other.array[i]);
            total = total.sum(p);
            i += 1;
        }
        Ok(total)
    }
}

} // verus!
