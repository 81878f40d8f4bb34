//! Transaction fee computation: a linear weight function over the number of
//! kernels, inputs and outputs, priced per gram.

use vstd::prelude::*;

verus! {

/// Grams contributed by each kernel of a transaction.
pub const WEIGHT_PER_KERNEL: u64 = 10;
/// Grams contributed by each transaction input.
pub const WEIGHT_PER_INPUT: u64 = 5;
/// Grams contributed by each transaction output.
pub const WEIGHT_PER_OUTPUT: u64 = 12;
/// Floor applied by the minimum-fee variant, in micro-units.
pub const MINIMUM_FEE: u64 = 100;

/// Weight, in grams, of a transaction with the given component counts.
pub open spec fn spec_weight(num_kernels: int, num_inputs: int, num_outputs: int) -> int {
    WEIGHT_PER_KERNEL * num_kernels + WEIGHT_PER_INPUT * num_inputs + WEIGHT_PER_OUTPUT * num_outputs
}

/// Fee owed for a transaction: fee per gram times its weight.
pub open spec fn spec_fee(fee_per_gram: int, num_kernels: int, num_inputs: int, num_outputs: int) -> int {
    fee_per_gram * spec_weight(num_kernels, num_inputs, num_outputs)
}

/// Fee with the minimum-fee floor applied.
pub open spec fn spec_fee_with_minimum(
    fee_per_gram: int,
    num_kernels: int,
    num_inputs: int,
    num_outputs: int,
) -> int {
    if spec_fee(fee_per_gram, num_kernels, num_inputs, num_outputs) < MINIMUM_FEE {
        MINIMUM_FEE as int
    } else {
        spec_fee(fee_per_gram, num_kernels, num_inputs, num_outputs)
    }
}

/// Fees are never negative.
pub proof fn lemma_fee_nonneg(fee_per_gram: int, num_kernels: int, num_inputs: int, num_outputs: int)
    by (nonlinear_arith)
    requires
        0 <= fee_per_gram,
        0 <= num_kernels,
        0 <= num_inputs,
        0 <= num_outputs,
    ensures
        0 <= spec_fee(fee_per_gram, num_kernels, num_inputs, num_outputs),
{
}

/// A product of non-negative factors grows with each factor.
proof fn lemma_mul_le(a: int, a_bound: int, b: int, b_bound: int)
    by (nonlinear_arith)
    requires
        0 <= a <= a_bound,
        0 <= b <= b_bound,
    ensures
        a * b <= a_bound * b_bound,
{
}

/// Namespace for the fee formulas.
pub struct Fee {}

impl Fee {
    /// Weight of a transaction with the given component counts, saturating at
    /// `u64::MAX` (the true weight always fits for realistic counts).
    pub fn weight(num_kernels: u64, num_inputs: u64, num_outputs: u64) -> (r: u64)
        ensures
            spec_weight(num_kernels as int, num_inputs as int, num_outputs as int) <= u64::MAX
                ==> r == spec_weight(num_kernels as int, num_inputs as int, num_outputs as int),
            r <= spec_weight(num_kernels as int, num_inputs as int, num_outputs as int),
    {
        proof {
            lemma_mul_le(num_kernels as int, u64::MAX as int, WEIGHT_PER_KERNEL as int, 16);
            lemma_mul_le(num_inputs as int, u64::MAX as int, WEIGHT_PER_INPUT as int, 16);
            lemma_mul_le(num_outputs as int, u64::MAX as int, WEIGHT_PER_OUTPUT as int, 16);
        }
        let k = (num_kernels as u128) * (WEIGHT_PER_KERNEL as u128);
        let i = (num_inputs as u128) * (WEIGHT_PER_INPUT as u128);
        let o = (num_outputs as u128) * (WEIGHT_PER_OUTPUT as u128);
        let total: u128 = k + i + o;
        if total > u64::MAX as u128 {
            u64::MAX
        } else {
            total as u64
        }
    }

    /// Fee for a transaction of the given shape.
    pub fn calculate(fee_per_gram: u64, num_kernels: u64, num_inputs: u64, num_outputs: u64) -> (r: u64)
        requires
            spec_fee(fee_per_gram as int, num_kernels as int, num_inputs as int, num_outputs as int)
                <= u64::MAX,
        ensures
            r == spec_fee(fee_per_gram as int, num_kernels as int, num_inputs as int, num_outputs as int),
    {
        proof {
            lemma_mul_le(num_kernels as int, u64::MAX as int, WEIGHT_PER_KERNEL as int, 16);
            lemma_mul_le(num_inputs as int, u64::MAX as int, WEIGHT_PER_INPUT as int, 16);
            lemma_mul_le(num_outputs as int, u64::MAX as int, WEIGHT_PER_OUTPUT as int, 16);
        }
        let k = (num_kernels as u128) * (WEIGHT_PER_KERNEL as u128);
        let i = (num_inputs as u128) * (WEIGHT_PER_INPUT as u128);
        let o = (num_outputs as u128) * (WEIGHT_PER_OUTPUT as u128);
        let w: u128 = k + i + o;
        proof {
            lemma_fee_product_fits(
                fee_per_gram as int,
                num_kernels as int,
                num_inputs as int,
                num_outputs as int,
            );
        }
        let f: u128 = (fee_per_gram as u128) * w;
        f as u64
    }

    /// Fee for a transaction of the given shape, never below the minimum fee.
    pub fn calculate_with_minimum(
        fee_per_gram: u64,
        num_kernels: u64,
        num_inputs: u64,
        num_outputs: u64,
    ) -> (r: u64)
        requires
            spec_fee(fee_per_gram as int, num_kernels as int, num_inputs as int, num_outputs as int)
                <= u64::MAX,
        ensures
            r == spec_fee_with_minimum(
                fee_per_gram as int,
                num_kernels as int,
                num_inputs as int,
                num_outputs as int,
            ),
    {
        let f = Self::calculate(fee_per_gram, num_kernels, num_inputs, num_outputs);
        if f < MINIMUM_FEE {
            MINIMUM_FEE
        } else {
            f
        }
    }
}

/// When the fee fits in `u64`, the product of the fee rate and the weight
/// neither overflows `u128` nor differs from the fee formula.
proof fn lemma_fee_product_fits(fee_per_gram: int, num_kernels: int, num_inputs: int, num_outputs: int)
    by (nonlinear_arith)
    requires
        0 <= fee_per_gram,
        0 <= num_kernels,
        0 <= num_inputs,
        0 <= num_outputs,
        spec_fee(fee_per_gram, num_kernels, num_inputs, num_outputs) <= u64::MAX,
    ensures
        fee_per_gram * (WEIGHT_PER_KERNEL * num_kernels + WEIGHT_PER_INPUT * num_inputs
            + WEIGHT_PER_OUTPUT * num_outputs)
            == spec_fee(fee_per_gram, num_kernels, num_inputs, num_outputs),
        fee_per_gram * (WEIGHT_PER_KERNEL * num_kernels + WEIGHT_PER_INPUT * num_inputs
            + WEIGHT_PER_OUTPUT * num_outputs) <= u64::MAX,
{
}

} // verus!
