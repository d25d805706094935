//! What the numeric code of this crate asks of a scalar type.
//!
//! Weights and vector components are values of one type `T` that has `+`, `*`,
//! `/` and `==` and can be made from a small integer. Nothing here fixes the
//! type, and the contracts speak of it in two ways. For every `T` they say
//! which operator was applied to which operands, in terms of what the
//! operator can return (`is_sum`, `is_product` and so on): that much holds
//! also where the arithmetic rounds. For a `T` whose operators are `exact`
//! they say which value comes out.

use vstd::prelude::*;
use vstd::std_specs::cmp::PartialEqSpec;
use vstd::std_specs::convert::FromSpec;
use vstd::std_specs::ops::{AddSpec, DivSpec, MulSpec};

verus! {

/// A scalar: a value that can be copied, compared with `==`, added,
/// multiplied and divided, and made from a small integer. Every type with
/// these operators is one.
pub trait Scalar: Copy + From<u8> + PartialEq + core::ops::Add<Output = Self> + core::ops::Mul<
    Output = Self,
> + core::ops::Div<Output = Self> {

}

impl<T> Scalar for T where
    T: Copy + From<u8> + PartialEq + core::ops::Add<Output = T> + core::ops::Mul<Output = T>
        + core::ops::Div<Output = T>,
{

}

/// The additive identity of `T`.
pub open spec fn zero<T: Scalar>() -> T {
    T::from_spec(0u8)
}

/// The multiplicative identity of `T`.
pub open spec fn one<T: Scalar>() -> T {
    T::from_spec(1u8)
}

/// The operators of `T` compute exactly what their specifications say.
pub open spec fn exact<T: Scalar>() -> bool {
    &&& <T as FromSpec<u8>>::obeys_from_spec()
    &&& <T as PartialEqSpec>::obeys_eq_spec()
    &&& <T as AddSpec>::obeys_add_spec()
    &&& <T as MulSpec>::obeys_mul_spec()
    &&& <T as DivSpec>::obeys_div_spec()
}

/// `value` is what `T::from(n)` can return.
pub open spec fn is_made_from<T: Scalar>(value: T, n: u8) -> bool {
    call_ensures(<T as From<u8>>::from, (n,), value)
}

/// `sum` is what `a + b` can return.
pub open spec fn is_sum<T: Scalar>(sum: T, a: T, b: T) -> bool {
    call_ensures(<T as core::ops::Add>::add, (a, b), sum)
}

/// `product` is what `a * b` can return.
pub open spec fn is_product<T: Scalar>(product: T, a: T, b: T) -> bool {
    call_ensures(<T as core::ops::Mul>::mul, (a, b), product)
}

/// `quotient` is what `a / b` can return.
pub open spec fn is_quotient<T: Scalar>(quotient: T, a: T, b: T) -> bool {
    call_ensures(<T as core::ops::Div>::div, (a, b), quotient)
}

/// `outcome` is what `a != b` can return.
pub open spec fn is_unequal<T: Scalar>(outcome: bool, a: T, b: T) -> bool {
    call_ensures(<T as PartialEq>::ne, (&a, &b), outcome)
}

/// Sums and products of `T` are defined for all operands, and quotients for
/// every divisor that was found unequal to a zero of `T`.
pub open spec fn total_arithmetic<T: Scalar>() -> bool {
    &&& forall|a: T, b: T| #[trigger] a.add_req(b)
    &&& forall|a: T, b: T| #[trigger] a.mul_req(b)
    &&& forall|a: T, b: T, nought: T|
        #![trigger is_unequal(true, b, nought), a.div_req(b)]
        is_made_from(nought, 0u8) && is_unequal(true, b, nought) ==> a.div_req(b)
}

/// `==` on `T` holds exactly of equal values.
pub open spec fn equality_is_identity<T: Scalar>() -> bool {
    forall|a: T, b: T| #[trigger] a.eq_spec(&b) <==> a == b
}

/// Adding a value to zero gives that value.
pub open spec fn zero_is_neutral<T: Scalar>() -> bool {
    forall|a: T| #[trigger] zero::<T>().add_spec(a) == a
}

/// `*` distributes over `+` in its right operand.
pub open spec fn product_distributes<T: Scalar>() -> bool {
    forall|v: T, a: T, b: T| #[trigger]
        v.mul_spec(a).add_spec(v.mul_spec(b)) == v.mul_spec(a.add_spec(b))
}

/// Multiplying by a nonzero value and then dividing by it gives the value
/// back.
pub open spec fn division_cancels<T: Scalar>() -> bool {
    forall|v: T, w: T| w != zero::<T>() ==> #[trigger] v.mul_spec(w).div_spec(w) == v
}

/// The laws of arithmetic without rounding, as far as a weighted mean needs
/// them.
pub open spec fn field_laws<T: Scalar>() -> bool {
    &&& equality_is_identity::<T>()
    &&& zero_is_neutral::<T>()
    &&& product_distributes::<T>()
    &&& division_cancels::<T>()
}

} // verus!
