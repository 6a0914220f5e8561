//! What element types offer beyond being stored: identity, order and arithmetic.
use vstd::prelude::*;
use vstd::string::StringExecFns;
use crate::engine::series::Scalar;
use crate::text::{lex_less, text_less};

verus! {

/// Element types whose values can be told apart and found again.
/// Two values count as the same when their views are equal.
pub trait Keyed: Scalar + View {
    /// Whether the two values are the same.
    fn same(&self, other: &Self) -> (b: bool)
        ensures
            b == (self@ == other@),
    ;
}

/// Element types with a total order.
pub trait Ordered: Scalar {
    /// Whether `self` comes strictly before `other`.
    spec fn lt(self, other: Self) -> bool;

    /// Whether `self` comes strictly before `other`.
    fn less(&self, other: &Self) -> (b: bool)
        ensures
            b == self.lt(*other),
    ;
}

/// The quotient of `a` by `b`, rounded towards zero.
pub open spec fn truncated_quotient(a: int, b: int) -> int {
    if b == 0 {
        0
    } else if (a >= 0 && b > 0) || (a <= 0 && b < 0) {
        (if a >= 0 { a } else { -a }) / (if b >= 0 { b } else { -b })
    } else {
        -((if a >= 0 { a } else { -a }) / (if b >= 0 { b } else { -b }))
    }
}

/// Integer element types.
pub trait Integer: Scalar + Copy {
    /// The number that the value stands for.
    spec fn value(self) -> int;

    /// The least number of the type.
    spec fn least() -> int;

    /// The greatest number of the type.
    spec fn greatest() -> int;

    /// Values are their numbers: no two values stand for the same number,
    /// and all of them lie within the type's range.
    proof fn lemma_value(a: Self, b: Self)
        ensures
            Self::least() <= a.value() <= Self::greatest(),
            a.value() == b.value() ==> a == b,
            Self::least() <= 0 <= Self::greatest(),
    ;

    /// The value that stands for 0.
    fn zero() -> (r: Self)
        ensures
            r.value() == 0,
    ;

    /// The number that the value stands for. It has room in 64 bits.
    fn number(&self) -> (r: i128)
        ensures
            r == self.value(),
            i64::MIN <= r <= i64::MAX,
    ;

    /// The least and the greatest number of the type.
    fn range() -> (r: (i128, i128))
        ensures
            r.0 == Self::least(),
            r.1 == Self::greatest(),
    ;

    /// Whether the value stands for 0.
    fn is_zero(&self) -> (b: bool)
        ensures
            b == (self.value() == 0),
    ;

    /// Whether `self` is smaller than `other`.
    fn below(&self, other: &Self) -> (b: bool)
        ensures
            b == (self.value() < other.value()),
    ;

    /// The sum, where it lies within the type's range.
    fn sum(self, other: Self) -> (r: Self)
        requires
            Self::least() <= self.value() + other.value() <= Self::greatest(),
        ensures
            r.value() == self.value() + other.value(),
    ;

    /// The difference, where it lies within the type's range.
    fn difference(self, other: Self) -> (r: Self)
        requires
            Self::least() <= self.value() - other.value() <= Self::greatest(),
        ensures
            r.value() == self.value() - other.value(),
    ;

    /// The product, where it lies within the type's range.
    fn product(self, other: Self) -> (r: Self)
        requires
            Self::least() <= self.value() * other.value() <= Self::greatest(),
        ensures
            r.value() == self.value() * other.value(),
    ;

    /// The quotient rounded towards zero, where the divisor is not 0 and the
    /// quotient lies within the type's range.
    fn quotient(self, other: Self) -> (r: Self)
        requires
            other.value() != 0,
            Self::least() <= truncated_quotient(self.value(), other.value()) <= Self::greatest(),
        ensures
            r.value() == truncated_quotient(self.value(), other.value()),
    ;
}

impl Integer for i32 {
    open spec fn value(self) -> int {
        self as int
    }

    open spec fn least() -> int {
        i32::MIN as int
    }

    open spec fn greatest() -> int {
        i32::MAX as int
    }

    proof fn lemma_value(a: Self, b: Self) {
    }

    fn zero() -> (r: Self) {
        0
    }

    fn number(&self) -> (r: i128) {
        *self as i128
    }

    fn range() -> (r: (i128, i128)) {
        (i32::MIN as i128, i32::MAX as i128)
    }

    fn is_zero(&self) -> (b: bool) {
        *self == 0
    }

    fn below(&self, other: &Self) -> (b: bool) {
        *self < *other
    }

    fn sum(self, other: Self) -> (r: Self) {
        self + other
    }

    fn difference(self, other: Self) -> (r: Self) {
        self - other
    }

    fn product(self, other: Self) -> (r: Self) {
        self * other
    }

    fn quotient(self, other: Self) -> (r: Self) {
        let a: i64 = self as i64;
        let b: i64 = other as i64;
        let x: i64 = if a >= 0 {
            a
        } else {
            -a
        };
        let y: i64 = if b >= 0 {
            b
        } else {
            -b
        };
        let q: i64 = x / y;
        assert(0 <= q <= x) by (nonlinear_arith)
            requires
                q == x / y,
                x >= 0,
                y > 0,
        ;
        if (a >= 0 && b > 0) || (a <= 0 && b < 0) {
            q as i32
        } else {
            (-q) as i32
        }
    }
}

impl Integer for i64 {
    open spec fn value(self) -> int {
        self as int
    }

    open spec fn least() -> int {
        i64::MIN as int
    }

    open spec fn greatest() -> int {
        i64::MAX as int
    }

    proof fn lemma_value(a: Self, b: Self) {
    }

    fn zero() -> (r: Self) {
        0
    }

    fn number(&self) -> (r: i128) {
        *self as i128
    }

    fn range() -> (r: (i128, i128)) {
        (i64::MIN as i128, i64::MAX as i128)
    }

    fn is_zero(&self) -> (b: bool) {
        *self == 0
    }

    fn below(&self, other: &Self) -> (b: bool) {
        *self < *other
    }

    fn sum(self, other: Self) -> (r: Self) {
        self + other
    }

    fn difference(self, other: Self) -> (r: Self) {
        self - other
    }

    fn product(self, other: Self) -> (r: Self) {
        self * other
    }

    fn quotient(self, other: Self) -> (r: Self) {
        let a: i128 = self as i128;
        let b: i128 = other as i128;
        let x: i128 = if a >= 0 {
            a
        } else {
            -a
        };
        let y: i128 = if b >= 0 {
            b
        } else {
            -b
        };
        let q: i128 = x / y;
        assert(0 <= q <= x) by (nonlinear_arith)
            requires
                q == x / y,
                x >= 0,
                y > 0,
        ;
        if (a >= 0 && b > 0) || (a <= 0 && b < 0) {
            q as i64
        } else {
            (-q) as i64
        }
    }
}


impl Keyed for i32 {
    fn same(&self, other: &Self) -> (b: bool) {
        *self == *other
    }
}

impl Keyed for i64 {
    fn same(&self, other: &Self) -> (b: bool) {
        *self == *other
    }
}

impl Keyed for bool {
    fn same(&self, other: &Self) -> (b: bool) {
        *self == *other
    }
}

impl Keyed for String {
    fn same(&self, other: &Self) -> (b: bool) {
        *self == *other
    }
}

impl Keyed for &'static str {
    fn same(&self, other: &Self) -> (b: bool) {
        let a = String::from_str(*self);
        let b = String::from_str(*other);
        a == b
    }
}

impl Ordered for i32 {
    open spec fn lt(self, other: Self) -> bool {
        self < other
    }

    fn less(&self, other: &Self) -> (b: bool) {
        *self < *other
    }
}

impl Ordered for i64 {
    open spec fn lt(self, other: Self) -> bool {
        self < other
    }

    fn less(&self, other: &Self) -> (b: bool) {
        *self < *other
    }
}

impl Ordered for String {
    open spec fn lt(self, other: Self) -> bool {
        lex_less(self@, other@)
    }

    fn less(&self, other: &Self) -> (b: bool) {
        text_less(self.as_str(), other.as_str())
    }
}

impl Ordered for &'static str {
    open spec fn lt(self, other: Self) -> bool {
        lex_less(self@, other@)
    }

    fn less(&self, other: &Self) -> (b: bool) {
        text_less(*self, *other)
    }
}

} // verus!
