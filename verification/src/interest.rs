//! Interest accrual and the arithmetic of a liquidation.
//!
//! All amounts are unsigned 128-bit integers and every division truncates.
//! The executable functions return `None` exactly when an intermediate value
//! of the formula leaves the 128-bit range.
use vstd::prelude::*;

verus! {

/// Seconds of a 365-day year times the percent scale of the annual rate.
pub const YEAR_SCALE: u128 = 3_153_600_000;

/// Percent of the outstanding debt that the liquidator is credited with.
pub const LIQUIDATOR_DEBT_PERCENT: u128 = 90;

/// Percent of the collateral that is handed to the liquidator.
pub const LIQUIDATOR_COLLATERAL_PERCENT: u128 = 95;

/// Interest accrued on `principal` at `rate` over `elapsed` seconds.
pub open spec fn interest_spec(principal: int, rate: int, elapsed: int) -> int {
    (principal * rate * elapsed) / 3_153_600_000
}

/// Principal plus the interest accrued on it.
pub open spec fn total_debt_spec(principal: int, rate: int, elapsed: int) -> int {
    principal + interest_spec(principal, rate, elapsed)
}

/// Every intermediate value of the debt formula fits in 128 bits.
pub open spec fn debt_in_range(principal: int, rate: int, elapsed: int) -> bool {
    &&& principal * rate <= u128::MAX
    &&& principal * rate * elapsed <= u128::MAX
    &&& total_debt_spec(principal, rate, elapsed) <= u128::MAX
}

/// The part of the debt credited to the liquidator.
pub open spec fn liquidator_share_spec(debt: int) -> int {
    debt * 90 / 100
}

/// The part of the debt paid on to the lender: the exact complement.
pub open spec fn lender_share_spec(debt: int) -> int {
    debt - liquidator_share_spec(debt)
}

/// The part of the collateral handed to the liquidator.
pub open spec fn collateral_to_liquidator_spec(collateral: int) -> int {
    collateral * 95 / 100
}

/// Both products of the split fit in 128 bits.
pub open spec fn split_in_range(debt: int, collateral: int) -> bool {
    debt * 90 <= u128::MAX && collateral * 95 <= u128::MAX
}

/// Both products of the health check fit in 128 bits.
pub open spec fn health_in_range(collateral: int, price: int, debt: int, threshold: int) -> bool {
    collateral * price <= u128::MAX && debt * threshold <= u128::MAX
}

/// The collateral is worth less than the debt scaled by the threshold percentage.
pub open spec fn undercollateralized_spec(
    collateral: int,
    price: int,
    debt: int,
    threshold: int,
) -> bool {
    collateral * price < debt * threshold / 100
}

/// How the proceeds of a liquidation are divided.
#[derive(Clone, Copy, Debug, PartialEq, Eq, Structural)]
pub struct LiquidationSplit {
    pub liquidator_share: u128,
    pub lender_share: u128,
    pub collateral_to_liquidator: u128,
}

/// Interest accrued on `principal` at `rate` over `elapsed` seconds.
pub fn accrued_interest(principal: u128, rate: u128, elapsed: u64) -> (res: Option<u128>)
    ensures
        res == if principal * rate <= u128::MAX && principal * rate * elapsed <= u128::MAX {
            Some(interest_spec(principal as int, rate as int, elapsed as int) as u128)
        } else {
            None::<u128>
        },
{
    match principal.checked_mul(rate) {
        None => None,
        Some(weighted) => match weighted.checked_mul(elapsed as u128) {
            None => None,
            Some(product) => Some(product / YEAR_SCALE),
        },
    }
}

/// Principal plus accrued interest, the amount that closes a position.
pub fn total_debt(principal: u128, rate: u128, elapsed: u64) -> (res: Option<u128>)
    ensures
        res == if debt_in_range(principal as int, rate as int, elapsed as int) {
            Some(total_debt_spec(principal as int, rate as int, elapsed as int) as u128)
        } else {
            None::<u128>
        },
{
    match accrued_interest(principal, rate, elapsed) {
        None => None,
        Some(interest) => principal.checked_add(interest),
    }
}

/// Whether collateral priced at `price` falls short of `debt` scaled by
/// `threshold` percent.
pub fn is_undercollateralized(collateral: u128, price: u128, debt: u128, threshold: u128) -> (res:
    Option<bool>)
    ensures
        res == if health_in_range(collateral as int, price as int, debt as int, threshold as int) {
            Some(
                undercollateralized_spec(
                    collateral as int,
                    price as int,
                    debt as int,
                    threshold as int,
                ),
            )
        } else {
            None::<bool>
        },
{
    match collateral.checked_mul(price) {
        None => None,
        Some(value) => match debt.checked_mul(threshold) {
            None => None,
            Some(scaled) => Some(value < scaled / 100),
        },
    }
}

/// Divides the debt and the collateral of a liquidated position.
pub fn liquidation_split(debt: u128, collateral: u128) -> (res: Option<LiquidationSplit>)
    ensures
        res == if split_in_range(debt as int, collateral as int) {
            Some(
                LiquidationSplit {
                    liquidator_share: liquidator_share_spec(debt as int) as u128,
                    lender_share: lender_share_spec(debt as int) as u128,
                    collateral_to_liquidator: collateral_to_liquidator_spec(collateral as int) as u128,
                },
            )
        } else {
            None::<LiquidationSplit>
        },
{
    match debt.checked_mul(LIQUIDATOR_DEBT_PERCENT) {
        None => None,
        Some(weighted_debt) => match collateral.checked_mul(LIQUIDATOR_COLLATERAL_PERCENT) {
            None => None,
            Some(weighted_collateral) => {
                let liquidator_share: u128 = weighted_debt / 100;
                Some(
                    LiquidationSplit {
                        liquidator_share,
                        lender_share: debt - liquidator_share,
                        collateral_to_liquidator: weighted_collateral / 100,
                    },
                )
            },
        },
    }
}

/// The two shares of the debt add up to the debt, and neither the
/// liquidator's share nor the collateral handed over exceeds its whole.
pub proof fn lemma_split_is_exact(debt: int, collateral: int)
    requires
        0 <= debt,
        0 <= collateral,
    ensures
        liquidator_share_spec(debt) + lender_share_spec(debt) == debt,
        0 <= liquidator_share_spec(debt) <= debt,
        0 <= lender_share_spec(debt) <= debt,
        0 <= collateral_to_liquidator_spec(collateral) <= collateral,
{
}

/// Interest never decreases as time passes.
pub proof fn lemma_interest_monotonic(principal: int, rate: int, earlier: int, later: int)
    requires
        0 <= principal,
        0 <= rate,
        0 <= earlier <= later,
    ensures
        interest_spec(principal, rate, earlier) <= interest_spec(principal, rate, later),
        interest_spec(principal, rate, 0) == 0,
{
    assert(principal * rate * earlier <= principal * rate * later) by (nonlinear_arith)
        requires
            0 <= principal,
            0 <= rate,
            0 <= earlier <= later,
    ;
    assert(principal * rate * 0 == 0) by (nonlinear_arith);
}

} // verus!
