use vstd::prelude::*;
use crate::decide::OrderSide;
use crate::dto::PRICE_SCALE;

verus! {

/// Smallest order value that the exchange accepts: 20 units of the quote
/// asset, fixed-point.
pub const MIN_NOTIONAL: u64 = 20 * PRICE_SCALE;

/// Why no order quantity can be formed.
#[derive(Clone, Copy, Debug, PartialEq, Eq, Structural)]
pub enum OrderError {
    /// The price is zero.
    ZeroPrice,
    /// The lot step is zero.
    ZeroStep,
    /// The quantity does not fit in 64 bits.
    TooLarge,
    /// The order's value (fixed-point) is below [`MIN_NOTIONAL`].
    BelowMinimumNotional(u64),
}

/// Quantity (fixed-point) that `money` buys at `price`, rounded down.
pub open spec fn raw_quantity(money: int, price: int) -> int {
    money * 100000000 / price
}

/// `q` rounded down to a multiple of `step`.
pub open spec fn round_to_step(q: int, step: int) -> int {
    q - q % step
}

/// Value of `q` at `price`, fixed-point, rounded down.
pub open spec fn notional(q: int, price: int) -> int {
    q * price / 100000000
}

/// The order quantity for spending `money` at `price` with lot step `step`
/// (all fixed-point): what `money` buys, rounded down to the step, refused
/// when its value is below [`MIN_NOTIONAL`].
pub fn order_quantity(money: u64, price: u64, step: u64) -> (r: Result<u64, OrderError>)
    ensures
        price == 0 ==> r == Err::<u64, OrderError>(OrderError::ZeroPrice),
        price != 0 && step == 0 ==> r == Err::<u64, OrderError>(OrderError::ZeroStep),
        price != 0 && step != 0 ==> ({
            let q = round_to_step(raw_quantity(money as int, price as int), step as int);
            r == if q > u64::MAX {
                Err::<u64, OrderError>(OrderError::TooLarge)
            } else if notional(q, price as int) < MIN_NOTIONAL {
                Err(OrderError::BelowMinimumNotional(notional(q, price as int) as u64))
            } else {
                Ok(q as u64)
            }
        }),
{
    if price == 0 {
        return Err(OrderError::ZeroPrice);
    }
    if step == 0 {
        return Err(OrderError::ZeroStep);
    }
    proof {
        assert((money as int) * 100000000 <= 0xffff_ffff_ffff_ffff * 100000000) by (nonlinear_arith)
            requires
                money <= 0xffff_ffff_ffff_ffffu64,
        ;
        assert((money as int) * 100000000 / (price as int) <= (money as int) * 100000000) by (nonlinear_arith)
            requires
                price >= 1,
                money >= 0,
        ;
    }
    let raw: u128 = (money as u128) * 100000000 / (price as u128);
    assert(raw % (step as u128) <= raw) by (nonlinear_arith)
        requires
            step >= 1,
    ;
    let q: u128 = raw - raw % (step as u128);
    if q > u64::MAX as u128 {
        return Err(OrderError::TooLarge);
    }
    proof {
        assert((q as int) * (price as int) <= 0xffff_ffff_ffff_ffff * 0xffff_ffff_ffff_ffff) by (nonlinear_arith)
            requires
                q <= 0xffff_ffff_ffff_ffffu128,
                price <= 0xffff_ffff_ffff_ffffu64,
        ;
        assert((q as int) * (price as int) / 100000000 <= (q as int) * (price as int)) by (nonlinear_arith)
            requires
                q >= 0,
                price >= 0,
        ;
        assert((q as int) * (price as int) / 100000000 <= 0xffff_ffff_ffff_ffff * 0xffff_ffff_ffff_ffff / 100000000)
            by (nonlinear_arith)
            requires
                (q as int) * (price as int) <= 0xffff_ffff_ffff_ffff * 0xffff_ffff_ffff_ffff,
        ;
    }
    let value: u128 = (q * (price as u128)) / 100000000;
    if value < MIN_NOTIONAL as u128 {
        return Err(OrderError::BelowMinimumNotional(value as u64));
    }
    Ok(q as u64)
}

/// The order that closes a position of signed size `amount` (fixed-point)
/// with lot step `step`: a sell for a long position, a buy for a short one,
/// for the size rounded down to the step. `None` for an empty position or a
/// zero step.
pub fn closing_order(amount: i128, step: u64) -> (r: Option<(OrderSide, u128)>)
    ensures
        amount == 0 || step == 0 ==> r is None,
        amount != 0 && step != 0 ==> r == Some((
            if amount > 0 {
                OrderSide::Sell
            } else {
                OrderSide::Buy
            },
            round_to_step(if amount > 0 { amount as int } else { -amount }, step as int) as u128,
        )),
{
    if amount == 0 || step == 0 {
        return None;
    }
    let size: u128 = if amount > 0 {
        amount as u128
    } else {
        (-(amount + 1)) as u128 + 1
    };
    let side = if amount > 0 {
        OrderSide::Sell
    } else {
        OrderSide::Buy
    };
    assert(size % (step as u128) <= size) by (nonlinear_arith)
        requires
            step >= 1,
    ;
    Some((side, size - size % (step as u128)))
}

} // verus!
