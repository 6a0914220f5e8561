//! Arithmetic on columns of integers, value by value.
use vstd::prelude::*;
use vstd::std_specs::ops::{AddSpecImpl, DivSpecImpl, MulSpecImpl, SubSpecImpl};
use crate::engine::series::ints::in_range;
use crate::engine::series::traits::{truncated_quotient, Integer};
use crate::engine::series::{Series, SeriesView};
use crate::text::texts;

verus! {

/// The four operations of arithmetic.
#[derive(Clone, Copy, Debug, PartialEq, Eq, Structural)]
pub enum Operation {
    /// Addition.
    Add,
    /// Subtraction.
    Sub,
    /// Multiplication.
    Mul,
    /// Division, rounded towards zero.
    Div,
}

/// What `op` makes of `a` and `b`.
pub open spec fn computed(op: Operation, a: int, b: int) -> int {
    match op {
        Operation::Add => a + b,
        Operation::Sub => a - b,
        Operation::Mul => a * b,
        Operation::Div => truncated_quotient(a, b),
    }
}

/// `op` can be applied to `a` and `b` within `T`: the result lies within the
/// range of `T`, and nothing is divided by 0.
pub open spec fn computable<T: Integer>(op: Operation, a: T, b: T) -> bool {
    &&& in_range::<T>(computed(op, a.value(), b.value()))
    &&& op == Operation::Div ==> b.value() != 0
}

/// `op` can be applied to the values of `left` and `right` at every position that both have.
pub open spec fn computable_pairs<T: Integer>(op: Operation, left: Seq<T>, right: Seq<T>) -> bool {
    forall|i: int|
        0 <= i < left.len() && i < right.len() ==> computable(op, #[trigger] left[i], right[i])
}

/// `op` can be applied to every value of `left` and to `right`.
pub open spec fn computable_all<T: Integer>(op: Operation, left: Seq<T>, right: T) -> bool {
    forall|i: int| 0 <= i < left.len() ==> computable(op, #[trigger] left[i], right)
}

/// The smaller of two lengths.
pub open spec fn shorter(a: nat, b: nat) -> nat {
    if a <= b {
        a
    } else {
        b
    }
}

/// `out` is what `op` makes of `left` and `right`: name and labels of
/// `left`, cut to the positions that both have, and at each of them what
/// `op` makes of the two values.
pub open spec fn computed_column<T: Integer>(
    op: Operation,
    left: SeriesView<T>,
    right: SeriesView<T>,
    out: SeriesView<T>,
) -> bool {
    &&& out.name == left.name
    &&& out.index == left.index.take(shorter(left.values.len(), right.values.len()) as int)
    &&& out.values.len() == shorter(left.values.len(), right.values.len())
    &&& forall|i: int|
        0 <= i < out.values.len() ==> (#[trigger] out.values[i]).value() == computed(
            op,
            left.values[i].value(),
            right.values[i].value(),
        )
}

/// `out` is `left` with what `op` makes of each value and `right` in place of the value.
pub open spec fn computed_with<T: Integer>(
    op: Operation,
    left: SeriesView<T>,
    right: T,
    out: SeriesView<T>,
) -> bool {
    &&& out == left.with_values(out.values)
    &&& out.values.len() == left.values.len()
    &&& forall|i: int|
        0 <= i < out.values.len() ==> (#[trigger] out.values[i]).value() == computed(
            op,
            left.values[i].value(),
            right.value(),
        )
}

/// What `op` makes of `a` and `b`.
pub fn compute<T: Integer>(op: Operation, a: T, b: T) -> (r: T)
    requires
        computable(op, a, b),
    ensures
        r.value() == computed(op, a.value(), b.value()),
{
    match op {
        Operation::Add => a.sum(b),
        Operation::Sub => a.difference(b),
        Operation::Mul => a.product(b),
        Operation::Div => a.quotient(b),
    }
}

/// Whether `op` can be applied to `a` and `b` within `T`.
pub fn can_compute<T: Integer>(op: Operation, a: T, b: T) -> (r: bool)
    ensures
        r == computable(op, a, b),
{
    let x = a.number();
    let y = b.number();
    let (least, greatest) = T::range();
    let made: i128 = match op {
        Operation::Add => x + y,
        Operation::Sub => x - y,
        Operation::Mul => {
            assert(-0x4000_0000_0000_0000_0000_0000_0000_0000 <= x * y
                <= 0x4000_0000_0000_0000_0000_0000_0000_0000) by (nonlinear_arith)
                requires
                    -0x8000_0000_0000_0000 <= x <= 0x8000_0000_0000_0000,
                    -0x8000_0000_0000_0000 <= y <= 0x8000_0000_0000_0000,
            ;
            x * y
        },
        Operation::Div => {
            if y == 0 {
                return false;
            }
            let p: i128 = if x >= 0 {
                x
            } else {
                -x
            };
            let q: i128 = if y >= 0 {
                y
            } else {
                -y
            };
            let d: i128 = p / q;
            assert(0 <= d <= p) by (nonlinear_arith)
                requires
                    d == p / q,
                    p >= 0,
                    q > 0,
            ;
            if (x >= 0 && y > 0) || (x <= 0 && y < 0) {
                d
            } else {
                -d
            }
        },
    };
    least <= made && made <= greatest
}

impl<T: Integer> Series<T> {
    /// Whether `op` can be applied to this column and `rhs` at every
    /// position that both have: every result lies within the range of `T`,
    /// and nothing is divided by 0.
    pub fn can_arith(&self, rhs: &Series<T>, op: Operation) -> (b: bool)
        ensures
            b == computable_pairs(op, self@.values, rhs@.values),
    {
        let n = if self.array.len() <= rhs.array.len() {
            self.array.len()
        } else {
            rhs.array.len()
        };
        let mut i: usize = 0;
        while i < n
            invariant
                i <= n,
                n <= self.array@.len(),
                n <= rhs.array@.len(),
                n == self.array@.len() || n == rhs.array@.len(),
                forall|k: int|
                    0 <= k < i ==> computable(op, #[trigger] self@.values[k], rhs@.values[k]),
            decreases n - i,
        {
            if !can_compute(op, self.array[i], rhs.array[i]) {
                assert(!computable(op, self@.values[i as int], rhs@.values[i as int]));
                return false;
            }
            i += 1;
        }
        true
    }

    /// Whether `op` can be applied to every value of this column and `rhs`.
    pub fn can_arith_scalar(&self, rhs: T, op: Operation) -> (b: bool)
        ensures
            b == computable_all(op, self@.values, rhs),
    {
        let n = self.array.len();
        let mut i: usize = 0;
        while i < n
            invariant
                i <= n,
                n == self.array@.len(),
                forall|k: int| 0 <= k < i ==> computable(op, #[trigger] self@.values[k], rhs),
            decreases n - i,
        {
            if !can_compute(op, self.array[i], rhs) {
                assert(!computable(op, self@.values[i as int], rhs));
                return false;
            }
            i += 1;
        }
        true
    }

    /// What `op` makes of this column and `rhs`: see [`Series::arith`].
    /// `None` where a result leaves the range of `T` or a divisor is 0.
    pub fn checked_arith(&self, rhs: &Series<T>, op: Operation) -> (r: Option<Series<T>>)
        ensures
            r is Some <==> computable_pairs(op, self@.values, rhs@.values),
            r matches Some(made) ==> computed_column(op, self@, rhs@, made@),
    {
        if self.can_arith(rhs, op) {
            Some(self.arith(rhs, op))
        } else {
            None
        }
    }

    /// What `op` makes of this column and `rhs`, value by value, at the
    /// positions that both have. Name and labels are those of this column.
    pub fn arith(&self, rhs: &Series<T>, op: Operation) -> (r: Series<T>)
        requires
            computable_pairs(op, self@.values, rhs@.values),
        ensures
            computed_column(op, self@, rhs@, r@),
    {
        proof {
            use_type_invariant(self);
            use_type_invariant(rhs);
        }
        let n = if self.array.len() <= rhs.array.len() {
            self.array.len()
        } else {
            rhs.array.len()
        };
        let mut out: Vec<T> = Vec::new();
        let mut labels: Vec<String> = Vec::new();
        let mut i: usize = 0;
        while i < n
            invariant
                i <= n,
                n <= self.array@.len(),
                n <= rhs.array@.len(),
                self.index@.len() == self.array@.len(),
                computable_pairs(op, self@.values, rhs@.values),
                out@.len() == i,
                labels@ == self.index@.take(i as int),
                forall|k: int|
                    0 <= k < i ==> (#[trigger] out@[k]).value() == computed(
                        op,
                        self@.values[k].value(),
                        rhs@.values[k].value(),
                    ),
            decreases n - i,
        {
            assert(computable(op, self@.values[i as int], rhs@.values[i as int]));
            out.push(compute(op, self.array[i], rhs.array[i]));
            labels.push(self.index[i].clone());
            proof {
                assert(self.index@.take(i + 1) =~= self.index@.take(i as int).push(
                    self.index@[i as int],
                ));
            }
            i += 1;
        }
        proof {
            assert(texts(labels@) =~= texts(self.index@).take(n as int));
        }
        Series { array: out, name: self.name.clone(), index: labels }
    }

    /// What `op` makes of every value of this column and `rhs`. Name and labels stay.
    pub fn arith_scalar(&self, rhs: T, op: Operation) -> (r: Series<T>)
        requires
            computable_all(op, self@.values, rhs),
        ensures
            computed_with(op, self@, rhs, r@),
    {
        proof {
            use_type_invariant(self);
        }
        let n = self.array.len();
        let mut out: Vec<T> = Vec::new();
        let mut i: usize = 0;
        while i < n
            invariant
                i <= n,
                n == self.array@.len(),
                computable_all(op, self@.values, rhs),
                out@.len() == i,
                forall|k: int|
                    0 <= k < i ==> (#[trigger] out@[k]).value() == computed(
                        op,
                        self@.values[k].value(),
                        rhs.value(),
                    ),
            decreases n - i,
        {
            assert(computable(op, self@.values[i as int], rhs));
            out.push(compute(op, self.array[i], rhs));
            i += 1;
        }
        Series {
            array: out,
            name: self.name.clone(),
            index: crate::engine::series::generic::copy_labels(&self.index),
        }
    }

    /// Puts what `op` makes of each value and `rhs` in place of the value.
    pub fn arith_assign(&mut self, rhs: T, op: Operation)
        requires
            computable_all(op, old(self)@.values, rhs),
        ensures
            computed_with(op, old(self)@, rhs, final(self)@),
    {
        let made = self.arith_scalar(rhs, op);
        *self = made;
    }
}

impl<T: Integer> AddSpecImpl for Series<T> {
    open spec fn obeys_add_spec() -> bool {
        false
    }

    open spec fn add_req(self, rhs: Series<T>) -> bool {
        computable_pairs(Operation::Add, self@.values, rhs@.values)
    }

    open spec fn add_spec(self, rhs: Series<T>) -> Series<T> {
        arbitrary()
    }
}

impl<T: Integer> core::ops::Add for Series<T> {
    type Output = Series<T>;

    /// The sums of the values of the two columns, position by position.
    fn add(self, rhs: Series<T>) -> (ret: Series<T>)
        ensures
            computed_column(Operation::Add, self@, rhs@, ret@),
    {
        self.arith(&rhs, Operation::Add)
    }
}

impl<T: Integer> SubSpecImpl for Series<T> {
    open spec fn obeys_sub_spec() -> bool {
        false
    }

    open spec fn sub_req(self, rhs: Series<T>) -> bool {
        computable_pairs(Operation::Sub, self@.values, rhs@.values)
    }

    open spec fn sub_spec(self, rhs: Series<T>) -> Series<T> {
        arbitrary()
    }
}

impl<T: Integer> core::ops::Sub for Series<T> {
    type Output = Series<T>;

    /// The differences of the values of the two columns, position by position.
    fn sub(self, rhs: Series<T>) -> (ret: Series<T>)
        ensures
            computed_column(Operation::Sub, self@, rhs@, ret@),
    {
        self.arith(&rhs, Operation::Sub)
    }
}

impl<T: Integer> MulSpecImpl for Series<T> {
    open spec fn obeys_mul_spec() -> bool {
        false
    }

    open spec fn mul_req(self, rhs: Series<T>) -> bool {
        computable_pairs(Operation::Mul, self@.values, rhs@.values)
    }

    open spec fn mul_spec(self, rhs: Series<T>) -> Series<T> {
        arbitrary()
    }
}

impl<T: Integer> core::ops::Mul for Series<T> {
    type Output = Series<T>;

    /// The products of the values of the two columns, position by position.
    fn mul(self, rhs: Series<T>) -> (ret: Series<T>)
        ensures
            computed_column(Operation::Mul, self@, rhs@, ret@),
    {
        self.arith(&rhs, Operation::Mul)
    }
}

impl<T: Integer> DivSpecImpl for Series<T> {
    open spec fn obeys_div_spec() -> bool {
        false
    }

    open spec fn div_req(self, rhs: Series<T>) -> bool {
        computable_pairs(Operation::Div, self@.values, rhs@.values)
    }

    open spec fn div_spec(self, rhs: Series<T>) -> Series<T> {
        arbitrary()
    }
}

impl<T: Integer> core::ops::Div for Series<T> {
    type Output = Series<T>;

    /// The quotients of the values of the two columns, position by position,
    /// each rounded towards zero.
    fn div(self, rhs: Series<T>) -> (ret: Series<T>)
        ensures
            computed_column(Operation::Div, self@, rhs@, ret@),
    {
        self.arith(&rhs, Operation::Div)
    }
}

} // verus!
