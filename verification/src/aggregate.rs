//! The weighted mean of a sequence of equal-length vectors.
//!
//! The mean is described twice. `weighted_mean` is its value for a scalar
//! type with exact operators. `is_mean_of` says, for every scalar type, which
//! operations lead to it and in which order, so that it also covers a type
//! whose arithmetic rounds; `lemma_exact_mean` shows that the two agree where
//! both apply. The proof functions at the end state what holds of the mean
//! under the laws of arithmetic without rounding.

use vstd::prelude::*;
use vstd::std_specs::cmp::PartialEqSpec;
use vstd::std_specs::ops::{AddSpec, DivSpec, MulSpec};
use crate::error::PipelineError;
use crate::scalar::{
    division_cancels, equality_is_identity, exact, field_laws, is_made_from, is_product,
    is_quotient, is_sum, is_unequal, total_arithmetic, zero, zero_is_neutral, Scalar,
};

verus! {

/// The vectors of `vectors`, each as a sequence of its components.
pub open spec fn rows<T>(vectors: Seq<Vec<T>>) -> Seq<Seq<T>> {
    vectors.map_values(|v: Vec<T>| v@)
}

/// Every vector is as long as the first.
pub open spec fn uniform<T>(vectors: Seq<Seq<T>>) -> bool {
    forall|i: int| 0 <= i < vectors.len() ==> (#[trigger] vectors[i]).len() == vectors[0].len()
}

/// `index` is the position of the first vector whose length differs from
/// that of the first vector.
pub open spec fn first_mismatch<T>(vectors: Seq<Seq<T>>, index: int) -> bool {
    &&& 0 < index < vectors.len()
    &&& vectors[index].len() != vectors[0].len()
    &&& forall|i: int| 0 <= i < index ==> (#[trigger] vectors[i]).len() == vectors[0].len()
}

/// How many vectors are combined with a weight: vectors and weights pair up
/// by position, and what has no partner is left out.
pub open spec fn paired<T>(vectors: Seq<Seq<T>>, weights: Seq<T>) -> nat {
    if vectors.len() <= weights.len() {
        vectors.len()
    } else {
        weights.len()
    }
}

/// The inputs can be aggregated as far as their shape goes: there is at
/// least one vector and one weight, and all vectors have one length.
pub open spec fn well_shaped<T>(vectors: Seq<Seq<T>>, weights: Seq<T>) -> bool {
    &&& vectors.len() > 0
    &&& weights.len() > 0
    &&& uniform(vectors)
}

/// The sum of all weights, added up from the left, starting at zero.
pub open spec fn weight_sum<T: Scalar>(weights: Seq<T>) -> T
    decreases weights.len(),
{
    if weights.len() == 0 {
        zero::<T>()
    } else {
        weight_sum(weights.drop_last()).add_spec(weights.last())
    }
}

/// Component `j` of the weighted sum of the first `count` vectors: starting
/// at zero, `vectors[k][j] * weights[k]` is added for `k = 0, 1, ..` in turn.
pub open spec fn weighted_component<T: Scalar>(
    vectors: Seq<Seq<T>>,
    weights: Seq<T>,
    j: int,
    count: nat,
) -> T
    decreases count,
{
    if count == 0 {
        zero::<T>()
    } else {
        weighted_component(vectors, weights, j, (count - 1) as nat).add_spec(
            vectors[count - 1][j].mul_spec(weights[count - 1]),
        )
    }
}

/// The weighted mean: each component of the weighted sum of the paired
/// vectors, divided by the sum of all weights.
pub open spec fn weighted_mean<T: Scalar>(vectors: Seq<Seq<T>>, weights: Seq<T>) -> Seq<T> {
    Seq::new(
        vectors[0].len(),
        |j: int|
            weighted_component(vectors, weights, j, paired(vectors, weights)).div_spec(
                weight_sum(weights),
            ),
    )
}

/// `total` is what adding the items of `terms` to `start`, one after the
/// other from the left, can come to.
pub open spec fn is_left_sum<T: Scalar>(total: T, start: T, terms: Seq<T>) -> bool
    decreases terms.len(),
{
    if terms.len() == 0 {
        total == start
    } else {
        exists|before: T|
            is_left_sum(before, start, terms.drop_last()) && #[trigger] is_sum(
                total,
                before,
                terms.last(),
            )
    }
}

/// `products` are products of component `j` and the weight of the first
/// `count` vectors, in order.
pub open spec fn are_products<T: Scalar>(
    products: Seq<T>,
    vectors: Seq<Seq<T>>,
    weights: Seq<T>,
    j: int,
    count: nat,
) -> bool {
    &&& products.len() == count
    &&& forall|k: int|
        0 <= k < count ==> is_product(#[trigger] products[k], vectors[k][j], weights[k])
}

/// `sum` is what component `j` of the weighted sum of the first `count`
/// vectors can come to: products of the component and the weight, added to
/// `start` from the left.
pub open spec fn is_weighted_sum<T: Scalar>(
    sum: T,
    start: T,
    vectors: Seq<Seq<T>>,
    weights: Seq<T>,
    j: int,
    count: nat,
) -> bool {
    exists|products: Seq<T>| #[trigger]
        are_products(products, vectors, weights, j, count) && is_left_sum(sum, start, products)
}

/// `mean` is what the weighted mean can come to: with a zero made in `T`,
/// the weighted sums of the paired vectors, each divided by the sum of all
/// weights, which was found unequal to that zero.
pub open spec fn is_mean_of<T: Scalar>(
    mean: Seq<T>,
    vectors: Seq<Seq<T>>,
    weights: Seq<T>,
) -> bool {
    exists|nought: T, total: T, sums: Seq<T>|
        #![trigger is_left_sum(total, nought, weights), sums.len()]
        {
            &&& is_made_from(nought, 0u8)
            &&& is_left_sum(total, nought, weights)
            &&& is_unequal(true, total, nought)
            &&& sums.len() == vectors[0].len()
            &&& mean.len() == vectors[0].len()
            &&& forall|j: int|
                0 <= j < mean.len() ==> {
                    &&& is_weighted_sum(
                        #[trigger] sums[j],
                        nought,
                        vectors,
                        weights,
                        j,
                        paired(vectors, weights),
                    )
                    &&& is_quotient(mean[j], sums[j], total)
                }
        }
}

/// The sum of all weights was found equal to a zero made in `T`.
pub open spec fn is_zero_total<T: Scalar>(weights: Seq<T>) -> bool {
    exists|nought: T, total: T|
        {
            &&& is_made_from(nought, 0u8)
            &&& #[trigger] is_left_sum(total, nought, weights)
            &&& is_unequal(false, total, nought)
        }
}

/// Every sum on the way to the sum of all weights is defined.
pub open spec fn sum_defined<T: Scalar>(weights: Seq<T>) -> bool {
    forall|i: int|
        0 <= i < weights.len() ==> (#[trigger] weight_sum(weights.take(i))).add_req(weights[i])
}

/// Every product of a component and its weight, and every sum of such
/// products, on the way to the weighted sum of the paired vectors is defined.
pub open spec fn products_defined<T: Scalar>(vectors: Seq<Seq<T>>, weights: Seq<T>) -> bool {
    forall|j: int, k: nat|
        0 <= j < vectors[0].len() && k < paired(vectors, weights) ==> {
            &&& vectors[k as int][j].mul_req(weights[k as int])
            &&& (#[trigger] weighted_component(vectors, weights, j, k)).add_req(
                vectors[k as int][j].mul_spec(weights[k as int]),
            )
        }
}

/// Unless the weights sum to zero, every division of a component of the
/// weighted sum by the sum of the weights is defined.
pub open spec fn quotients_defined<T: Scalar>(vectors: Seq<Seq<T>>, weights: Seq<T>) -> bool {
    !weight_sum(weights).eq_spec(&zero::<T>()) ==> forall|j: int|
        0 <= j < vectors[0].len() ==> (#[trigger] weighted_component(
            vectors,
            weights,
            j,
            paired(vectors, weights),
        )).div_req(weight_sum(weights))
}

/// Every operation on the way to the weighted mean is defined.
pub open spec fn mean_defined<T: Scalar>(vectors: Seq<Seq<T>>, weights: Seq<T>) -> bool {
    &&& sum_defined(weights)
    &&& products_defined(vectors, weights)
    &&& quotients_defined(vectors, weights)
}

/// The sum of `weights` can be computed: either `T` defines every sum, or
/// its operators are exact and define the sums that are needed.
pub open spec fn can_sum<T: Scalar>(weights: Seq<T>) -> bool {
    ||| total_arithmetic::<T>()
    ||| exact::<T>() && sum_defined(weights)
}

/// Aggregation can be computed: either `T` defines every operation, or its
/// operators are exact and, where the shape of the inputs is in order, define
/// the operations that are needed. For a machine integer the latter says
/// that nothing overflows.
pub open spec fn can_aggregate<T: Scalar>(vectors: Seq<Seq<T>>, weights: Seq<T>) -> bool {
    ||| total_arithmetic::<T>()
    ||| exact::<T>() && (shape_error(vectors, weights.len()) is None ==> mean_defined(
        vectors,
        weights,
    ))
}

/// What is wrong with the shape of the inputs, if anything. The checks come
/// in this order: no vector at all; vectors of different lengths, reported
/// with the position of the first vector that is not as long as the first
/// one; no weight at all.
pub open spec fn shape_error<T>(vectors: Seq<Seq<T>>, weight_count: nat) -> Option<PipelineError> {
    if vectors.len() == 0 {
        Some(PipelineError::EmptyInput)
    } else if !uniform(vectors) {
        Some(
            PipelineError::DimensionMismatch {
                index: (choose|i: int| first_mismatch(vectors, i)) as usize,
            },
        )
    } else if weight_count == 0 {
        Some(PipelineError::EmptyInput)
    } else {
        None
    }
}

/// What aggregation yields for a scalar type with exact operators: the
/// failure that the shape of the inputs calls for; else `ZeroTotalWeight`
/// where the weights sum to zero; else the weighted mean.
pub open spec fn aggregate<T: Scalar>(vectors: Seq<Seq<T>>, weights: Seq<T>) -> Result<
    Seq<T>,
    PipelineError,
> {
    match shape_error(vectors, weights.len()) {
        Some(e) => Err(e),
        None => if weight_sum(weights).eq_spec(&zero::<T>()) {
            Err(PipelineError::ZeroTotalWeight)
        } else {
            Ok(weighted_mean(vectors, weights))
        },
    }
}

/// `result` is an outcome of aggregating `vectors` with `weights`.
///
/// A fault in the shape of the inputs is reported as `shape_error` says.
/// Inputs of sound shape give the weighted mean, computed with the operators
/// of `T` in the order that `is_mean_of` lays down, or else `ZeroTotalWeight`,
/// where the sum of the weights was found equal to zero. For a scalar type
/// with exact operators that is the outcome that `aggregate` names.
pub open spec fn is_aggregate_of<T: Scalar>(
    result: Result<Seq<T>, PipelineError>,
    vectors: Seq<Seq<T>>,
    weights: Seq<T>,
) -> bool {
    &&& shape_error(vectors, weights.len()) matches Some(e) ==> result == Err::<
        Seq<T>,
        PipelineError,
    >(e)
    &&& shape_error(vectors, weights.len()) is None ==> match result {
        Ok(mean) => is_mean_of(mean, vectors, weights),
        Err(e) => e == PipelineError::ZeroTotalWeight && is_zero_total(weights),
    }
    &&& exact::<T>() ==> result == aggregate(vectors, weights)
}

/// A result with its vector, if it has one, as a sequence.
pub open spec fn viewed<T>(result: Result<Vec<T>, PipelineError>) -> Result<
    Seq<T>,
    PipelineError,
> {
    match result {
        Ok(vector) => Ok(vector@),
        Err(e) => Err(e),
    }
}

/// Adds the items of `terms` to `start`, from the left.
fn sum_from<T: Scalar>(start: T, terms: &Vec<T>) -> (total: T)
    requires
        total_arithmetic::<T>() || (exact::<T>() && start == zero::<T>() && sum_defined(terms@)),
    ensures
        is_left_sum(total, start, terms@),
        exact::<T>() && start == zero::<T>() ==> total == weight_sum(terms@),
{
    let mut total: T = start;
    let mut i: usize = 0;
    proof {
        assert(terms@.take(0).len() == 0);
    }
    while i < terms.len()
        invariant
            0 <= i <= terms.len(),
            total_arithmetic::<T>() || (exact::<T>() && start == zero::<T>() && sum_defined(
                terms@,
            )),
            is_left_sum(total, start, terms@.take(i as int)),
            exact::<T>() && start == zero::<T>() ==> total == weight_sum(terms@.take(i as int)),
        decreases terms.len() - i,
    {
        let ghost before = total;
        proof {
            if !total_arithmetic::<T>() {
                assert(weight_sum(terms@.take(i as int)).add_req(terms@[i as int]));
            }
        }
        total = total + terms[i];
        proof {
            let next = terms@.take(i + 1);
            assert(next.drop_last() == terms@.take(i as int));
            assert(next.last() == terms@[i as int]);
            assert(is_left_sum(before, start, next.drop_last()) && is_sum(
                total,
                before,
                next.last(),
            ));
        }
        i += 1;
    }
    proof {
        assert(terms@.take(i as int) == terms@);
    }
    total
}

/// Adds up all weights from the left, starting at zero.
pub fn total_weight<T: Scalar>(weights: &Vec<T>) -> (total: T)
    requires
        can_sum(weights@),
    ensures
        exists|nought: T|
            is_made_from(nought, 0u8) && #[trigger] is_left_sum(total, nought, weights@),
        exact::<T>() ==> total == weight_sum(weights@),
{
    let nought: T = T::from(0u8);
    let total = sum_from(nought, weights);
    assert(is_made_from(nought, 0u8) && is_left_sum(total, nought, weights@));
    total
}

/// Looks for the first vector whose length differs from that of the first.
pub fn find_mismatch<T>(vectors: &Vec<Vec<T>>) -> (found: Option<usize>)
    ensures
        match found {
            Some(index) => first_mismatch(rows(vectors@), index as int),
            None => uniform(rows(vectors@)),
        },
{
    if vectors.len() == 0 {
        return None;
    }
    let dim = vectors[0].len();
    let mut i: usize = 1;
    while i < vectors.len()
        invariant
            1 <= i <= vectors.len(),
            dim == vectors@[0]@.len(),
            forall|k: int| 0 <= k < i ==> (#[trigger] rows(vectors@)[k]).len() == dim,
        decreases vectors.len() - i,
    {
        if vectors[i].len() != dim {
            return Some(i);
        }
        i += 1;
    }
    None
}

/// A vector of `count` items, each of them `item`.
fn repeated<T: Copy>(item: T, count: usize) -> (items: Vec<T>)
    ensures
        items@.len() == count,
        forall|i: int| 0 <= i < count ==> #[trigger] items@[i] == item,
{
    let mut items: Vec<T> = Vec::new();
    let mut i: usize = 0;
    while i < count
        invariant
            0 <= i <= count,
            items@.len() == i,
            forall|c: int| 0 <= c < i ==> #[trigger] items@[c] == item,
        decreases count - i,
    {
        items.push(item);
        i += 1;
    }
    items
}

/// The weighted sum of the paired vectors, component by component: for each
/// pair in turn, the product of component and weight is added to what has
/// been summed so far, beginning with `nought`.
fn weighted_sums<T: Scalar>(vectors: &Vec<Vec<T>>, weights: &Vec<T>, nought: T) -> (sums: Vec<T>)
    requires
        vectors@.len() > 0,
        uniform(rows(vectors@)),
        total_arithmetic::<T>() || (exact::<T>() && nought == zero::<T>() && products_defined(
            rows(vectors@),
            weights@,
        )),
    ensures
        sums@.len() == vectors@[0]@.len(),
        forall|j: int|
            0 <= j < sums@.len() ==> is_weighted_sum(
                #[trigger] sums@[j],
                nought,
                rows(vectors@),
                weights@,
                j,
                paired(rows(vectors@), weights@),
            ),
        exact::<T>() && nought == zero::<T>() ==> forall|j: int|
            0 <= j < sums@.len() ==> #[trigger] sums@[j] == weighted_component(
                rows(vectors@),
                weights@,
                j,
                paired(rows(vectors@), weights@),
            ),
{
    let ghost grid = rows(vectors@);
    let dim = vectors[0].len();
    let pairs = if vectors.len() <= weights.len() {
        vectors.len()
    } else {
        weights.len()
    };
    let mut sums = repeated(nought, dim);
    let ghost mut products: Seq<Seq<T>> = Seq::new(dim as nat, |j: int| Seq::<T>::empty());
    let mut k: usize = 0;
    while k < pairs
        invariant
            0 <= k <= pairs,
            pairs == paired(grid, weights@),
            grid == rows(vectors@),
            vectors@.len() > 0,
            uniform(grid),
            dim == grid[0].len(),
            total_arithmetic::<T>() || (exact::<T>() && nought == zero::<T>() && products_defined(
                grid,
                weights@,
            )),
            sums@.len() == dim,
            products.len() == dim,
            forall|c: int|
                0 <= c < dim ==> are_products(#[trigger] products[c], grid, weights@, c, k as nat)
                    && is_left_sum(sums@[c], nought, products[c]),
            exact::<T>() && nought == zero::<T>() ==> forall|c: int|
                0 <= c < dim ==> #[trigger] sums@[c] == weighted_component(
                    grid,
                    weights@,
                    c,
                    k as nat,
                ),
        decreases pairs - k,
    {
        let weight = weights[k];
        assert(grid[k as int].len() == dim);
        let mut j: usize = 0;
        while j < dim
            invariant
                0 <= j <= dim,
                0 <= k < pairs,
                pairs == paired(grid, weights@),
                weight == weights@[k as int],
                grid == rows(vectors@),
                grid[k as int].len() == dim,
                dim == grid[0].len(),
                total_arithmetic::<T>() || (exact::<T>() && nought == zero::<T>()
                    && products_defined(grid, weights@)),
                sums@.len() == dim,
                products.len() == dim,
                forall|c: int|
                    0 <= c < j ==> are_products(
                        #[trigger] products[c],
                        grid,
                        weights@,
                        c,
                        (k + 1) as nat,
                    ) && is_left_sum(sums@[c], nought, products[c]),
                forall|c: int|
                    j <= c < dim ==> are_products(
                        #[trigger] products[c],
                        grid,
                        weights@,
                        c,
                        k as nat,
                    ) && is_left_sum(sums@[c], nought, products[c]),
                exact::<T>() && nought == zero::<T>() ==> forall|c: int|
                    0 <= c < j ==> #[trigger] sums@[c] == weighted_component(
                        grid,
                        weights@,
                        c,
                        (k + 1) as nat,
                    ),
                exact::<T>() && nought == zero::<T>() ==> forall|c: int|
                    j <= c < dim ==> #[trigger] sums@[c] == weighted_component(
                        grid,
                        weights@,
                        c,
                        k as nat,
                    ),
            decreases dim - j,
        {
            proof {
                if !total_arithmetic::<T>() {
                    let so_far = weighted_component(grid, weights@, j as int, k as nat);
                    assert(so_far.add_req(grid[k as int][j as int].mul_spec(weight)));
                }
            }
            let term = vectors[k][j] * weight;
            let sum = sums[j] + term;
            proof {
                let before = products[j as int];
                let after = before.push(term);
                assert(after.drop_last() == before);
                assert(after.last() == term);
                assert(is_left_sum(sums@[j as int], nought, after.drop_last()) && is_sum(
                    sum,
                    sums@[j as int],
                    after.last(),
                ));
                assert(is_left_sum(sum, nought, after));
                assert(are_products(after, grid, weights@, j as int, (k + 1) as nat));
                products = products.update(j as int, after);
            }
            sums.set(j, sum);
            j += 1;
        }
        k += 1;
    }
    proof {
        assert forall|c: int| 0 <= c < dim implies is_weighted_sum(
            #[trigger] sums@[c],
            nought,
            grid,
            weights@,
            c,
            pairs as nat,
        ) by {
            assert(are_products(products[c], grid, weights@, c, pairs as nat));
        }
    }
    sums
}

/// Divides each item of `sums` by `total`.
fn divide_all<T: Scalar>(sums: Vec<T>, total: T) -> (quotients: Vec<T>)
    requires
        forall|j: int| 0 <= j < sums@.len() ==> (#[trigger] sums@[j]).div_req(total),
    ensures
        quotients@.len() == sums@.len(),
        forall|j: int|
            0 <= j < sums@.len() ==> is_quotient(#[trigger] quotients@[j], sums@[j], total),
{
    let ghost dividends = sums@;
    let mut quotients = sums;
    let mut j: usize = 0;
    while j < quotients.len()
        invariant
            0 <= j <= quotients@.len(),
            quotients@.len() == dividends.len(),
            forall|c: int| 0 <= c < dividends.len() ==> (#[trigger] dividends[c]).div_req(total),
            forall|c: int|
                0 <= c < j ==> is_quotient(#[trigger] quotients@[c], dividends[c], total),
            forall|c: int| j <= c < dividends.len() ==> #[trigger] quotients@[c] == dividends[c],
        decreases quotients@.len() - j,
    {
        let quotient = quotients[j] / total;
        quotients.set(j, quotient);
        j += 1;
    }
    quotients
}

/// Combines `vectors` into their weighted mean.
///
/// Vectors and weights pair up by position; where one sequence is longer, its
/// tail takes no part in the sum, while the divisor is the sum of all
/// weights. The inputs are checked in this order: no vector at all is
/// `EmptyInput`; vectors of different lengths are `DimensionMismatch`, with
/// the first offending position; no weight at all is `EmptyInput`; weights
/// that sum to zero are `ZeroTotalWeight`.
///
/// The sums run from the left, so the result is reproducible for a scalar
/// type whose arithmetic rounds.
pub fn weighted_average<T: Scalar>(vectors: Vec<Vec<T>>, weights: Vec<T>) -> (result: Result<
    Vec<T>,
    PipelineError,
>)
    requires
        can_aggregate(rows(vectors@), weights@),
    ensures
        is_aggregate_of(viewed(result), rows(vectors@), weights@),
        vectors@.len() == 0 ==> result == Err::<Vec<T>, PipelineError>(PipelineError::EmptyInput),
        vectors@.len() > 0 && !uniform(rows(vectors@)) ==> (result matches Err(
            PipelineError::DimensionMismatch { index },
        ) && first_mismatch(rows(vectors@), index as int)),
        result matches Ok(mean) ==> mean@.len() == vectors@[0]@.len(),
{
    if vectors.len() == 0 {
        return Err(PipelineError::EmptyInput);
    }
    let ghost grid = rows(vectors@);
    match find_mismatch(&vectors) {
        Some(index) => {
            proof {
                let chosen = choose|i: int| first_mismatch(grid, i);
                assert(first_mismatch(grid, chosen));
                assert(chosen == index);
            }
            return Err(PipelineError::DimensionMismatch { index });
        },
        None => {},
    }
    if weights.len() == 0 {
        return Err(PipelineError::EmptyInput);
    }
    let nought: T = T::from(0u8);
    let sums = weighted_sums(&vectors, &weights, nought);
    let total = sum_from(nought, &weights);
    if total != nought {
        let ghost dividends = sums@;
        proof {
            assert(is_unequal(true, total, nought));
            assert forall|j: int| 0 <= j < dividends.len() implies (
            #[trigger] dividends[j]).div_req(total) by {
                if !total_arithmetic::<T>() {
                    let sum = weighted_component(grid, weights@, j, paired(grid, weights@));
                    assert(sum.div_req(weight_sum(weights@)));
                }
            }
        }
        let mean = divide_all(sums, total);
        proof {
            assert(is_left_sum(total, nought, weights@) && dividends.len() == grid[0].len());
            assert(is_mean_of(mean@, grid, weights@));
            if exact::<T>() {
                assert(mean@ =~= weighted_mean(grid, weights@));
            }
        }
        Ok(mean)
    } else {
        proof {
            assert(is_left_sum(total, nought, weights@));
        }
        Err(PipelineError::ZeroTotalWeight)
    }
}

/// With exact operators, adding up from zero comes to one value only.
pub proof fn lemma_exact_left_sum<T: Scalar>(total: T, terms: Seq<T>)
    requires
        exact::<T>(),
        is_left_sum(total, zero::<T>(), terms),
    ensures
        total == weight_sum(terms),
    decreases terms.len(),
{
    if terms.len() > 0 {
        let before = choose|before: T|
            is_left_sum(before, zero::<T>(), terms.drop_last()) && #[trigger] is_sum(
                total,
                before,
                terms.last(),
            );
        lemma_exact_left_sum(before, terms.drop_last());
    }
}

/// With exact operators, a component of the weighted sum comes to one value
/// only.
pub proof fn lemma_exact_weighted_sum<T: Scalar>(
    sum: T,
    vectors: Seq<Seq<T>>,
    weights: Seq<T>,
    j: int,
    count: nat,
)
    requires
        exact::<T>(),
        is_weighted_sum(sum, zero::<T>(), vectors, weights, j, count),
    ensures
        sum == weighted_component(vectors, weights, j, count),
    decreases count,
{
    let products = choose|products: Seq<T>| #[trigger]
        are_products(products, vectors, weights, j, count) && is_left_sum(
            sum,
            zero::<T>(),
            products,
        );
    if count > 0 {
        let before = choose|before: T|
            is_left_sum(before, zero::<T>(), products.drop_last()) && #[trigger] is_sum(
                sum,
                before,
                products.last(),
            );
        assert(are_products(products.drop_last(), vectors, weights, j, (count - 1) as nat));
        lemma_exact_weighted_sum(before, vectors, weights, j, (count - 1) as nat);
    }
}

/// With exact operators, the weighted mean comes to one value only, the one
/// that `weighted_mean` names, and it exists only where the weights do not
/// sum to zero.
pub proof fn lemma_exact_mean<T: Scalar>(mean: Seq<T>, vectors: Seq<Seq<T>>, weights: Seq<T>)
    requires
        exact::<T>(),
        is_mean_of(mean, vectors, weights),
    ensures
        mean == weighted_mean(vectors, weights),
        !weight_sum(weights).eq_spec(&zero::<T>()),
{
    let (nought, total, sums) = choose|nought: T, total: T, sums: Seq<T>|
        #![trigger is_left_sum(total, nought, weights), sums.len()]
        {
            &&& is_made_from(nought, 0u8)
            &&& is_left_sum(total, nought, weights)
            &&& is_unequal(true, total, nought)
            &&& sums.len() == vectors[0].len()
            &&& mean.len() == vectors[0].len()
            &&& forall|j: int|
                0 <= j < mean.len() ==> {
                    &&& is_weighted_sum(
                        #[trigger] sums[j],
                        nought,
                        vectors,
                        weights,
                        j,
                        paired(vectors, weights),
                    )
                    &&& is_quotient(mean[j], sums[j], total)
                }
        };
    lemma_exact_left_sum(total, weights);
    assert forall|j: int| 0 <= j < mean.len() implies mean[j] == weighted_mean(
        vectors,
        weights,
    )[j] by {
        lemma_exact_weighted_sum(sums[j], vectors, weights, j, paired(vectors, weights));
    }
    assert(mean =~= weighted_mean(vectors, weights));
}

/// Weights that are all zero sum to zero.
pub proof fn lemma_zero_weights_sum_to_zero<T: Scalar>(weights: Seq<T>)
    requires
        zero_is_neutral::<T>(),
        forall|i: int| 0 <= i < weights.len() ==> weights[i] == zero::<T>(),
    ensures
        weight_sum(weights) == zero::<T>(),
    decreases weights.len(),
{
    if weights.len() > 0 {
        lemma_zero_weights_sum_to_zero(weights.drop_last());
    }
}

/// Aggregation of well-shaped inputs fails with `ZeroTotalWeight` when every
/// weight is zero.
pub proof fn lemma_zero_weights_rejected<T: Scalar>(vectors: Seq<Seq<T>>, weights: Seq<T>)
    requires
        equality_is_identity::<T>(),
        zero_is_neutral::<T>(),
        well_shaped(vectors, weights),
        forall|i: int| 0 <= i < weights.len() ==> weights[i] == zero::<T>(),
    ensures
        aggregate(vectors, weights) == Err::<Seq<T>, PipelineError>(
            PipelineError::ZeroTotalWeight,
        ),
{
    lemma_zero_weights_sum_to_zero(weights);
}

/// Aggregation fails with `EmptyInput` when there is no vector, whatever the
/// weights.
pub proof fn lemma_no_vectors_rejected<T: Scalar>(weights: Seq<T>)
    ensures
        aggregate(Seq::<Seq<T>>::empty(), weights) == Err::<Seq<T>, PipelineError>(
            PipelineError::EmptyInput,
        ),
{
}

/// Aggregation fails with `DimensionMismatch` when two of the vectors differ
/// in length, whatever the weights; the position reported is that of the
/// first vector that is not as long as the first one.
pub proof fn lemma_differing_lengths_rejected<T: Scalar>(
    vectors: Seq<Seq<T>>,
    weights: Seq<T>,
    a: int,
    b: int,
)
    requires
        0 <= a < vectors.len(),
        0 <= b < vectors.len(),
        vectors.len() <= usize::MAX,
        vectors[a].len() != vectors[b].len(),
    ensures
        aggregate(vectors, weights) matches Err(PipelineError::DimensionMismatch { index })
            && first_mismatch(vectors, index as int),
{
    let other = if vectors[a].len() != vectors[0].len() {
        a
    } else {
        b
    };
    assert(vectors[other].len() != vectors[0].len());
    lemma_first_mismatch_exists(vectors, other);
    let chosen = choose|i: int| first_mismatch(vectors, i);
    assert(first_mismatch(vectors, chosen));
}

/// Where some vector is not as long as the first, there is a first such
/// vector.
proof fn lemma_first_mismatch_exists<T>(vectors: Seq<Seq<T>>, bad: int)
    requires
        0 <= bad < vectors.len(),
        vectors[bad].len() != vectors[0].len(),
    ensures
        exists|i: int| first_mismatch(vectors, i),
    decreases bad,
{
    if forall|i: int| 0 <= i < bad ==> (#[trigger] vectors[i]).len() == vectors[0].len() {
        assert(first_mismatch(vectors, bad));
    } else {
        let earlier = choose|i: int|
            0 <= i < bad && (#[trigger] vectors[i]).len() != vectors[0].len();
        lemma_first_mismatch_exists(vectors, earlier);
    }
}

/// The weighted mean of one vector with one nonzero weight is that vector:
/// the division undoes the weight.
pub proof fn lemma_single_vector_unchanged<T: Scalar>(vector: Seq<T>, weight: T)
    requires
        equality_is_identity::<T>(),
        zero_is_neutral::<T>(),
        division_cancels::<T>(),
        weight != zero::<T>(),
    ensures
        aggregate(seq![vector], seq![weight]) == Ok::<Seq<T>, PipelineError>(vector),
{
    let vectors = seq![vector];
    let weights = seq![weight];
    assert(weights.drop_last().len() == 0);
    assert(weight_sum(weights.drop_last()) == zero::<T>());
    assert(weight_sum(weights) == weight);
    assert forall|j: int| 0 <= j < vector.len() implies #[trigger] weighted_mean(
        vectors,
        weights,
    )[j] == vector[j] by {
        assert(weighted_component(vectors, weights, j, 0) == zero::<T>());
        assert(weighted_component(vectors, weights, j, 1) == vector[j].mul_spec(weight));
    }
    assert(weighted_mean(vectors, weights) =~= vector);
}

/// With every vector equal to `vector`, the weighted sum of the first `count`
/// of them is `vector` times the sum of the first `count` weights.
proof fn lemma_identical_vectors_sum<T: Scalar>(
    vectors: Seq<Seq<T>>,
    weights: Seq<T>,
    vector: Seq<T>,
    j: int,
    count: nat,
)
    requires
        field_laws::<T>(),
        1 <= count <= weights.len(),
        count <= vectors.len(),
        forall|i: int| 0 <= i < vectors.len() ==> vectors[i] == vector,
    ensures
        weighted_component(vectors, weights, j, count) == vector[j].mul_spec(
            weight_sum(weights.take(count as int)),
        ),
    decreases count,
{
    let head = weights.take(count as int);
    assert(head.drop_last() == weights.take(count - 1));
    assert(head.last() == weights[count - 1]);
    if count == 1 {
        assert(weighted_component(vectors, weights, j, 0) == zero::<T>());
        assert(weight_sum(weights.take(0)) == zero::<T>());
    } else {
        lemma_identical_vectors_sum(vectors, weights, vector, j, (count - 1) as nat);
    }
}

/// When all vectors are one and the same, their weighted mean is that
/// vector, however the weights are spread, provided that each weight has a
/// vector to go with and that the weights do not sum to zero.
pub proof fn lemma_identical_vectors_unchanged<T: Scalar>(
    vectors: Seq<Seq<T>>,
    weights: Seq<T>,
    vector: Seq<T>,
)
    requires
        field_laws::<T>(),
        0 < weights.len() <= vectors.len(),
        forall|i: int| 0 <= i < vectors.len() ==> vectors[i] == vector,
        weight_sum(weights) != zero::<T>(),
    ensures
        aggregate(vectors, weights) == Ok::<Seq<T>, PipelineError>(vector),
{
    assert(uniform(vectors));
    assert(weights.take(weights.len() as int) == weights);
    assert forall|j: int| 0 <= j < vector.len() implies #[trigger] weighted_mean(
        vectors,
        weights,
    )[j] == vector[j] by {
        lemma_identical_vectors_sum(vectors, weights, vector, j, weights.len());
    }
    assert(weighted_mean(vectors, weights) =~= vector);
}

} // verus!
