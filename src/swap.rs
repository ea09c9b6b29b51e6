use vstd::prelude::*;
use crate::blockchain::{get_blockchain_for, key_index, remove_blockchain, TradeBlock, TradeLedger};
use crate::dto::{same_status, Bias, Trade, TradeStatus};

verus! {

/// What the exit rules decide for a tracked symbol.
#[derive(Clone, Copy, Debug, PartialEq, Eq, Structural)]
pub enum ExitAction {
    /// The profit target was reached: close every position and stop tracking.
    CloseAndRemove,
    /// Stop tracking.
    Remove,
    /// Keep tracking.
    Keep,
}

/// The two last statuses of a chain end one of the bias's cycles.
pub open spec fn is_exit_pair(bias: Bias, last: Option<TradeStatus>, previous: Option<TradeStatus>) -> bool {
    match bias {
        Bias::Bullish => (last == Some(TradeStatus::PrepareZone1) && previous == Some(TradeStatus::LongZone3))
            || (last is None && previous == Some(TradeStatus::TargetZone7)),
        Bias::Bearish => (last == Some(TradeStatus::PrepareZone7) && previous == Some(TradeStatus::ShortZone5))
            || (last is None && previous == Some(TradeStatus::TargetZone1)),
        Bias::Neutral => false,
    }
}

/// The status is the bias's "out" status.
pub open spec fn is_out_status(bias: Bias, status: Option<TradeStatus>) -> bool {
    (bias == Bias::Bullish && status == Some(TradeStatus::OutZone5))
        || (bias == Bias::Bearish && status == Some(TradeStatus::OutZone3))
}

/// Exit rules for snapshot `t` whose symbol's chain is `chain`, with
/// unrealized profit `profit` (fixed-point; `None` when unknown or no
/// position is open) and profit target `gain`, checked in order.
pub open spec fn exit_decision(t: Trade, chain: Seq<TradeBlock>, profit: Option<i64>, gain: i64) -> ExitAction {
    if profit is Some && profit->0 >= gain {
        ExitAction::CloseAndRemove
    } else if is_out_status(t.bias, t.status) {
        ExitAction::Remove
    } else if chain.len() >= 2 && is_exit_pair(
        t.bias,
        chain[chain.len() - 1].trade.status,
        chain[chain.len() - 2].trade.status,
    ) {
        ExitAction::Remove
    } else if t.status is None && t.current_price > t.zone_4 && t.current_price <= t.zone_5 {
        ExitAction::Remove
    } else {
        ExitAction::Keep
    }
}

/// The chain of `symbol` in a ledger view, empty when untracked.
pub open spec fn chain_of(v: Seq<(Seq<char>, Seq<TradeBlock>)>, symbol: Seq<char>) -> Seq<TradeBlock> {
    if key_index(v, symbol) >= 0 {
        v[key_index(v, symbol)].1
    } else {
        Seq::empty()
    }
}

fn exit_pair(bias: Bias, last: Option<TradeStatus>, previous: Option<TradeStatus>) -> (r: bool)
    ensures
        r == is_exit_pair(bias, last, previous),
{
    match bias {
        Bias::Bullish => (same_status(last, Some(TradeStatus::PrepareZone1))
            && same_status(previous, Some(TradeStatus::LongZone3)))
            || (last.is_none() && same_status(previous, Some(TradeStatus::TargetZone7))),
        Bias::Bearish => (same_status(last, Some(TradeStatus::PrepareZone7))
            && same_status(previous, Some(TradeStatus::ShortZone5)))
            || (last.is_none() && same_status(previous, Some(TradeStatus::TargetZone1))),
        Bias::Neutral => false,
    }
}

/// Applies the exit rules to `trade`, whose block was just appended, and
/// removes its symbol from the ledger unless the decision is to keep it.
/// `unrealized_profit` is the open position's profit (fixed-point), `None`
/// when the exchange gave none; a profit at or above `gain` asks the caller
/// to close every position.
pub fn remove_if_out_of_zone(
    ledger: &mut TradeLedger,
    trade: &Trade,
    unrealized_profit: Option<i64>,
    gain: i64,
) -> (r: ExitAction)
    requires
        old(ledger).well_formed(),
    ensures
        r == exit_decision(*trade, chain_of(old(ledger)@, trade.symbol@), unrealized_profit, gain),
        final(ledger).well_formed(),
        final(ledger).limit() == old(ledger).limit(),
        r == ExitAction::Keep ==> final(ledger)@ == old(ledger)@,
        r != ExitAction::Keep ==> final(ledger)@ == if key_index(old(ledger)@, trade.symbol@) >= 0 {
            old(ledger)@.remove(key_index(old(ledger)@, trade.symbol@))
        } else {
            old(ledger)@
        },
{
    let decision = match unrealized_profit {
        Some(pnl) if pnl >= gain => ExitAction::CloseAndRemove,
        _ => {
            let out = match (trade.bias, trade.status) {
                (Bias::Bullish, Some(TradeStatus::OutZone5)) => true,
                (Bias::Bearish, Some(TradeStatus::OutZone3)) => true,
                _ => false,
            };
            if out {
                ExitAction::Remove
            } else {
                let cycle_done = match get_blockchain_for(ledger, trade.symbol.as_str()) {
                    Some(blocks) => {
                        let n = blocks.len();
                        n >= 2 && exit_pair(trade.bias, blocks[n - 1].trade.status, blocks[n - 2].trade.status)
                    },
                    None => false,
                };
                if cycle_done {
                    ExitAction::Remove
                } else if trade.status.is_none() && trade.current_price > trade.zone_4
                    && trade.current_price <= trade.zone_5 {
                    ExitAction::Remove
                } else {
                    ExitAction::Keep
                }
            }
        },
    };
    if decision != ExitAction::Keep {
        remove_blockchain(ledger, trade.symbol.as_str());
    }
    decision
}

} // verus!
