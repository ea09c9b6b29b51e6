use vstd::prelude::*;
use crate::blockchain::{get_last_trade_for, key_index, TradeLedger};
use crate::dto::{Bias, TradeStatus};

verus! {

/// Side of a market order.
#[derive(Clone, Copy, Debug, PartialEq, Eq, Structural)]
pub enum OrderSide {
    Buy,
    Sell,
}

impl OrderSide {
    /// The exchange's name for the side.
    pub fn name(&self) -> (r: &'static str) {
        match self {
            OrderSide::Buy => "BUY",
            OrderSide::Sell => "SELL",
        }
    }
}

/// What the exchange is asked to do for a symbol.
#[derive(Clone, Copy, Debug, PartialEq, Eq, Structural)]
pub enum Decision {
    /// Close every position, then set the leverage to the value.
    CloseAllThenLeverage(u32),
    /// Open a market order on the side.
    Open(OrderSide),
    /// Set the leverage to the value.
    SetLeverage(u32),
    /// Nothing.
    NoAction,
}

/// The action for a snapshot's bias and status.
pub open spec fn decision_for(bias: Bias, status: Option<TradeStatus>) -> Decision {
    match (bias, status) {
        (_, Option::None) => Decision::CloseAllThenLeverage(1),
        (Bias::Bullish, Option::Some(TradeStatus::InZone7))
        | (Bias::Bullish, Option::Some(TradeStatus::InZone3))
        | (Bias::Bullish, Option::Some(TradeStatus::LongZone3)) => Decision::Open(OrderSide::Buy),
        (Bias::Bearish, Option::Some(TradeStatus::InZone1))
        | (Bias::Bearish, Option::Some(TradeStatus::InZone5))
        | (Bias::Bearish, Option::Some(TradeStatus::ShortZone5)) => Decision::Open(OrderSide::Sell),
        (Bias::Bullish, Option::Some(TradeStatus::TargetZone7))
        | (Bias::Bearish, Option::Some(TradeStatus::TargetZone1)) => Decision::SetLeverage(1),
        (Bias::Bullish, Option::Some(TradeStatus::OutZone5))
        | (Bias::Bullish, Option::Some(TradeStatus::PrepareZone1))
        | (Bias::Bearish, Option::Some(TradeStatus::OutZone3))
        | (Bias::Bearish, Option::Some(TradeStatus::PrepareZone7)) => Decision::CloseAllThenLeverage(1),
        (Bias::Bullish, Option::Some(TradeStatus::PrepareZone1Long))
        | (Bias::Bearish, Option::Some(TradeStatus::PrepareZone7Short)) => Decision::CloseAllThenLeverage(2),
        _ => Decision::NoAction,
    }
}

/// The action for a bias and status.
pub fn decide_action(bias: Bias, status: Option<TradeStatus>) -> (r: Decision)
    ensures
        r == decision_for(bias, status),
{
    match (bias, status) {
        (_, None) => Decision::CloseAllThenLeverage(1),
        (Bias::Bullish, Some(TradeStatus::InZone7))
        | (Bias::Bullish, Some(TradeStatus::InZone3))
        | (Bias::Bullish, Some(TradeStatus::LongZone3)) => Decision::Open(OrderSide::Buy),
        (Bias::Bearish, Some(TradeStatus::InZone1))
        | (Bias::Bearish, Some(TradeStatus::InZone5))
        | (Bias::Bearish, Some(TradeStatus::ShortZone5)) => Decision::Open(OrderSide::Sell),
        (Bias::Bullish, Some(TradeStatus::TargetZone7))
        | (Bias::Bearish, Some(TradeStatus::TargetZone1)) => Decision::SetLeverage(1),
        (Bias::Bullish, Some(TradeStatus::OutZone5))
        | (Bias::Bullish, Some(TradeStatus::PrepareZone1))
        | (Bias::Bearish, Some(TradeStatus::OutZone3))
        | (Bias::Bearish, Some(TradeStatus::PrepareZone7)) => Decision::CloseAllThenLeverage(1),
        (Bias::Bullish, Some(TradeStatus::PrepareZone1Long))
        | (Bias::Bearish, Some(TradeStatus::PrepareZone7Short)) => Decision::CloseAllThenLeverage(2),
        _ => Decision::NoAction,
    }
}

/// The action for `symbol`'s latest snapshot in the ledger; `None` when the
/// symbol is not tracked.
pub fn decide(ledger: &TradeLedger, symbol: &str) -> (r: Option<Decision>)
    requires
        ledger.well_formed(),
    ensures
        r == (if key_index(ledger@, symbol@) >= 0 {
            let t = ledger@[key_index(ledger@, symbol@)].1.last().trade;
            Some(decision_for(t.bias, t.status))
        } else {
            None
        }),
{
    match get_last_trade_for(ledger, symbol) {
        Some(t) => Some(decide_action(t.bias, t.status)),
        None => None,
    }
}

} // verus!
