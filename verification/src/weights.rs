//! Geometric decay weights: the first item counts fully, each later one a
//! fixed fraction of the one before it.

use vstd::prelude::*;
use vstd::std_specs::cmp::PartialEqSpec;
use vstd::std_specs::convert::FromSpec;
use vstd::std_specs::ops::{DivSpec, MulSpec};
use crate::scalar::{
    exact, is_made_from, is_product, is_quotient, is_unequal, one, total_arithmetic, zero, Scalar,
};

verus! {

/// The `i`-th decay weight: `decay_rate` to the power `i`, built up by
/// multiplying the previous weight by `decay_rate`.
pub open spec fn decay_weight<T: Scalar>(decay_rate: T, i: nat) -> T
    decreases i,
{
    if i == 0 {
        one::<T>()
    } else {
        decay_rate.mul_spec(decay_weight(decay_rate, (i - 1) as nat))
    }
}

/// The first `size` decay weights, in order.
pub open spec fn decay_weights<T: Scalar>(size: nat, decay_rate: T) -> Seq<T> {
    Seq::new(size, |i: int| decay_weight(decay_rate, i as nat))
}

/// `weights` are decay weights for `decay_rate`: the first is made from 1,
/// and each of the others is the product of `decay_rate` and the one before
/// it.
pub open spec fn are_decay_weights<T: Scalar>(weights: Seq<T>, decay_rate: T) -> bool {
    &&& weights.len() > 0 ==> is_made_from(weights[0], 1u8)
    &&& forall|i: int|
        0 < i < weights.len() ==> is_product(#[trigger] weights[i], decay_rate, weights[i - 1])
}

/// With exact operators, decay weights are the powers of the decay rate.
pub proof fn lemma_exact_decay_weights<T: Scalar>(weights: Seq<T>, decay_rate: T)
    requires
        exact::<T>(),
        are_decay_weights(weights, decay_rate),
    ensures
        weights == decay_weights(weights.len(), decay_rate),
{
    assert forall|i: int| 0 <= i < weights.len() implies weights[i] == decay_weight(
        decay_rate,
        i as nat,
    ) by {
        lemma_exact_decay_weight(weights, decay_rate, i);
    }
    assert(weights =~= decay_weights(weights.len(), decay_rate));
}

/// With exact operators, the decay weight at `i` is the `i`-th power of the
/// decay rate.
proof fn lemma_exact_decay_weight<T: Scalar>(weights: Seq<T>, decay_rate: T, i: int)
    requires
        exact::<T>(),
        are_decay_weights(weights, decay_rate),
        0 <= i < weights.len(),
    ensures
        weights[i] == decay_weight(decay_rate, i as nat),
    decreases i,
{
    if i > 0 {
        lemma_exact_decay_weight(weights, decay_rate, i - 1);
        assert(is_product(weights[i], decay_rate, weights[i - 1]));
    }
}

/// Every product on the way to the first `size` decay weights is defined.
pub open spec fn weights_defined<T: Scalar>(size: nat, decay_rate: T) -> bool {
    forall|i: nat| i + 1 < size ==> decay_rate.mul_req(#[trigger] decay_weight(decay_rate, i))
}

/// The first `size` decay weights can be computed: either `T` defines every
/// product, or its operators are exact and define the products that are
/// needed. For a machine integer the latter says that no product overflows.
pub open spec fn can_weigh<T: Scalar>(size: nat, decay_rate: T) -> bool {
    ||| total_arithmetic::<T>()
    ||| exact::<T>() && weights_defined(size, decay_rate)
}

/// Produces `size` weights, the `i`-th being `decay_rate` to the power `i`.
///
/// The range of `decay_rate` is not checked. An empty result is no error here.
pub fn calculate_weights<T: Scalar>(size: usize, decay_rate: T) -> (weights: Vec<T>)
    requires
        can_weigh(size as nat, decay_rate),
    ensures
        weights@.len() == size,
        are_decay_weights(weights@, decay_rate),
        exact::<T>() ==> weights@ == decay_weights(size as nat, decay_rate),
{
    let mut weights: Vec<T> = Vec::new();
    if size == 0 {
        return weights;
    }
    let mut current: T = T::from(1u8);
    weights.push(current);
    let mut i: usize = 1;
    while i < size
        invariant
            1 <= i <= size,
            can_weigh(size as nat, decay_rate),
            weights@.len() == i,
            current == weights@[i - 1],
            are_decay_weights(weights@, decay_rate),
            exact::<T>() ==> current == decay_weight(decay_rate, (i - 1) as nat),
            exact::<T>() ==> forall|k: int|
                0 <= k < i ==> #[trigger] weights@[k] == decay_weight(decay_rate, k as nat),
        decreases size - i,
    {
        assert(decay_rate.mul_req(current)) by {
            if !total_arithmetic::<T>() {
                assert(decay_rate.mul_req(decay_weight(decay_rate, (i - 1) as nat)));
            }
        }
        current = decay_rate * current;
        weights.push(current);
        i += 1;
    }
    weights
}

/// The numerator of the default decay rate, four fifths.
pub const DECAY_NUMERATOR: u8 = 4;

/// The denominator of the default decay rate.
pub const DECAY_DENOMINATOR: u8 = 5;

/// The default decay rate as a value of `T`.
pub open spec fn default_decay<T: Scalar>() -> T {
    T::from_spec(DECAY_NUMERATOR).div_spec(T::from_spec(DECAY_DENOMINATOR))
}

/// `rate` is what the default decay rate comes to in `T`: the quotient of
/// numerator and denominator, both made in `T`, where the denominator was
/// found unequal to zero, and nothing where it was not.
pub open spec fn is_default_decay<T: Scalar>(rate: Option<T>) -> bool {
    exists|numerator: T, denominator: T, nought: T|
        #![trigger
            is_made_from(numerator, DECAY_NUMERATOR),
            is_unequal(rate is Some, denominator, nought),
        ]
        {
            &&& is_made_from(numerator, DECAY_NUMERATOR)
            &&& is_made_from(denominator, DECAY_DENOMINATOR)
            &&& is_made_from(nought, 0u8)
            &&& is_unequal(rate is Some, denominator, nought)
            &&& match rate {
                Some(quotient) => is_quotient(quotient, numerator, denominator),
                None => true,
            }
        }
}

/// The default decay rate can be computed: either `T` defines every
/// operation, or its operators are exact and define the one division that is
/// needed, unless the divisor is zero in `T`.
pub open spec fn can_decay<T: Scalar>() -> bool {
    ||| total_arithmetic::<T>()
    ||| exact::<T>() && (!T::from_spec(DECAY_DENOMINATOR).eq_spec(&zero::<T>())
        ==> T::from_spec(DECAY_NUMERATOR).div_req(T::from_spec(DECAY_DENOMINATOR)))
}

/// The default decay rate, four fifths, as a value of `T`; none where `T`
/// counts five as zero, so that the ratio does not exist in it.
pub fn default_decay_rate<T: Scalar>() -> (rate: Option<T>)
    requires
        can_decay::<T>(),
    ensures
        is_default_decay(rate),
        exact::<T>() ==> rate == if T::from_spec(DECAY_DENOMINATOR).eq_spec(&zero::<T>()) {
            None
        } else {
            Some(default_decay::<T>())
        },
{
    let numerator: T = T::from(DECAY_NUMERATOR);
    let denominator: T = T::from(DECAY_DENOMINATOR);
    let nought: T = T::from(0u8);
    let rate = if denominator != nought {
        assert(is_unequal(true, denominator, nought));
        Some(numerator / denominator)
    } else {
        None
    };
    proof {
        assert(is_made_from(numerator, DECAY_NUMERATOR));
        assert(is_unequal(rate is Some, denominator, nought));
    }
    rate
}

} // verus!
