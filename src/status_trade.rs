use vstd::prelude::*;
use crate::dto::{Bias, Trade, TradeStatus};

verus! {

/// Next status under a bullish bias, from the previous status, the current
/// price and the zones it is compared with. From the absent status the
/// machine always leaves: into `InZone7` at or above `zone_7`, else into
/// `PrepareZone1`. A status of the other bias keeps itself.
pub open spec fn bullish_next(
    last: Option<TradeStatus>,
    p: int,
    z1: int,
    z3: int,
    z5: int,
    z6: int,
    z7: int,
) -> Option<TradeStatus> {
    match last {
        Option::None => if p >= z7 {
            Some(TradeStatus::InZone7)
        } else {
            Some(TradeStatus::PrepareZone1)
        },
        Option::Some(TradeStatus::OutZone5) => if p >= z7 {
            Some(TradeStatus::InZone7)
        } else if p > z1 {
            Some(TradeStatus::OutZone5)
        } else {
            Some(TradeStatus::PrepareZone1)
        },
        Option::Some(TradeStatus::InZone7) => if p > z5 {
            Some(TradeStatus::InZone7)
        } else {
            Some(TradeStatus::OutZone5)
        },
        Option::Some(TradeStatus::PrepareZone1) => if p < z3 {
            Some(TradeStatus::PrepareZone1)
        } else {
            Some(TradeStatus::InZone3)
        },
        Option::Some(TradeStatus::InZone3) => if p >= z7 {
            Some(TradeStatus::TargetZone7)
        } else if p > z1 {
            Some(TradeStatus::InZone3)
        } else {
            Some(TradeStatus::PrepareZone1Long)
        },
        Option::Some(TradeStatus::PrepareZone1Long) => if p < z3 {
            Some(TradeStatus::PrepareZone1Long)
        } else {
            Some(TradeStatus::LongZone3)
        },
        Option::Some(TradeStatus::LongZone3) => if p > z1 && p < z7 {
            Some(TradeStatus::LongZone3)
        } else if p <= z1 {
            Some(TradeStatus::PrepareZone1)
        } else {
            Some(TradeStatus::TargetZone7)
        },
        Option::Some(TradeStatus::TargetZone7) => if p > z6 {
            Some(TradeStatus::TargetZone7)
        } else {
            None
        },
        _ => last,
    }
}

/// Next status under a bearish bias; the mirror of [`bullish_next`]. From the
/// absent status it enters `InZone1` at or below `zone_1`, else
/// `PrepareZone7`.
pub open spec fn bearish_next(
    last: Option<TradeStatus>,
    p: int,
    z1: int,
    z2: int,
    z3: int,
    z5: int,
    z7: int,
) -> Option<TradeStatus> {
    match last {
        Option::None => if p <= z1 {
            Some(TradeStatus::InZone1)
        } else {
            Some(TradeStatus::PrepareZone7)
        },
        Option::Some(TradeStatus::OutZone3) => if p <= z1 {
            Some(TradeStatus::InZone1)
        } else if p < z7 {
            Some(TradeStatus::OutZone3)
        } else {
            Some(TradeStatus::PrepareZone7)
        },
        Option::Some(TradeStatus::InZone1) => if p < z3 {
            Some(TradeStatus::InZone1)
        } else {
            Some(TradeStatus::OutZone3)
        },
        Option::Some(TradeStatus::PrepareZone7) => if p > z5 {
            Some(TradeStatus::PrepareZone7)
        } else {
            Some(TradeStatus::InZone5)
        },
        Option::Some(TradeStatus::InZone5) => if p <= z1 {
            Some(TradeStatus::TargetZone1)
        } else if p < z7 {
            Some(TradeStatus::InZone5)
        } else {
            Some(TradeStatus::PrepareZone7Short)
        },
        Option::Some(TradeStatus::PrepareZone7Short) => if p > z5 {
            Some(TradeStatus::PrepareZone7Short)
        } else {
            Some(TradeStatus::ShortZone5)
        },
        Option::Some(TradeStatus::ShortZone5) => if p < z7 && p > z1 {
            Some(TradeStatus::ShortZone5)
        } else if p >= z7 {
            Some(TradeStatus::PrepareZone7)
        } else {
            Some(TradeStatus::TargetZone1)
        },
        Option::Some(TradeStatus::TargetZone1) => if p < z2 {
            Some(TradeStatus::TargetZone1)
        } else {
            None
        },
        _ => last,
    }
}

/// The status that `t` takes after `last`: absent when the bias changed or is
/// neutral, else the bias's transition from `last.status` on `t`'s price and
/// zones.
pub open spec fn next_status(t: Trade, last: Trade) -> Option<TradeStatus> {
    if t.bias != last.bias {
        None
    } else {
        match t.bias {
            Bias::Bullish => bullish_next(
                last.status,
                t.current_price as int,
                t.zone_1 as int,
                t.zone_3 as int,
                t.zone_5 as int,
                t.zone_6 as int,
                t.zone_7 as int,
            ),
            Bias::Bearish => bearish_next(
                last.status,
                t.current_price as int,
                t.zone_1 as int,
                t.zone_2 as int,
                t.zone_3 as int,
                t.zone_5 as int,
                t.zone_7 as int,
            ),
            Bias::Neutral => None,
        }
    }
}

/// Assigns `trade` the status that follows `last`; every other field stays.
/// A bias that differs from `last`'s resets the status to absent, whatever
/// the price.
pub fn update_status(trade: Trade, last: &Trade) -> (r: Trade)
    ensures
        r == trade.with_status(next_status(trade, *last)),
        trade.bias != last.bias ==> r.status is None,
{
    let mut trade = trade;
    if trade.bias != last.bias {
        trade.status = None;
        return trade;
    }
    let p = trade.current_price;
    let z1 = trade.zone_1;
    let z7 = trade.zone_7;
    trade.status = match trade.bias {
        Bias::Bullish => handle_bullish_status(last.status, p, z1, trade.zone_3, trade.zone_5, trade.zone_6, z7),
        Bias::Bearish => handle_bearish_status(last.status, p, z1, trade.zone_2, trade.zone_3, trade.zone_5, z7),
        Bias::Neutral => None,
    };
    trade
}

fn handle_bullish_status(
    last: Option<TradeStatus>,
    p: u64,
    z1: u64,
    z3: u64,
    z5: u64,
    z6: u64,
    z7: u64,
) -> (r: Option<TradeStatus>)
    ensures
        r == bullish_next(last, p as int, z1 as int, z3 as int, z5 as int, z6 as int, z7 as int),
{
    match last {
        None => if p >= z7 {
            Some(TradeStatus::InZone7)
        } else {
            Some(TradeStatus::PrepareZone1)
        },
        Some(TradeStatus::OutZone5) => if p >= z7 {
            Some(TradeStatus::InZone7)
        } else if p > z1 {
            Some(TradeStatus::OutZone5)
        } else {
            Some(TradeStatus::PrepareZone1)
        },
        Some(TradeStatus::InZone7) => if p > z5 {
            Some(TradeStatus::InZone7)
        } else {
            Some(TradeStatus::OutZone5)
        },
        Some(TradeStatus::PrepareZone1) => if p < z3 {
            Some(TradeStatus::PrepareZone1)
        } else {
            Some(TradeStatus::InZone3)
        },
        Some(TradeStatus::InZone3) => if p >= z7 {
            Some(TradeStatus::TargetZone7)
        } else if p > z1 {
            Some(TradeStatus::InZone3)
        } else {
            Some(TradeStatus::PrepareZone1Long)
        },
        Some(TradeStatus::PrepareZone1Long) => if p < z3 {
            Some(TradeStatus::PrepareZone1Long)
        } else {
            Some(TradeStatus::LongZone3)
        },
        Some(TradeStatus::LongZone3) => if p > z1 && p < z7 {
            Some(TradeStatus::LongZone3)
        } else if p <= z1 {
            Some(TradeStatus::PrepareZone1)
        } else {
            Some(TradeStatus::TargetZone7)
        },
        Some(TradeStatus::TargetZone7) => if p > z6 {
            Some(TradeStatus::TargetZone7)
        } else {
            None
        },
        _ => last,
    }
}

fn handle_bearish_status(
    last: Option<TradeStatus>,
    p: u64,
    z1: u64,
    z2: u64,
    z3: u64,
    z5: u64,
    z7: u64,
) -> (r: Option<TradeStatus>)
    ensures
        r == bearish_next(last, p as int, z1 as int, z2 as int, z3 as int, z5 as int, z7 as int),
{
    match last {
        None => if p <= z1 {
            Some(TradeStatus::InZone1)
        } else {
            Some(TradeStatus::PrepareZone7)
        },
        Some(TradeStatus::OutZone3) => if p <= z1 {
            Some(TradeStatus::InZone1)
        } else if p < z7 {
            Some(TradeStatus::OutZone3)
        } else {
            Some(TradeStatus::PrepareZone7)
        },
        Some(TradeStatus::InZone1) => if p < z3 {
            Some(TradeStatus::InZone1)
        } else {
            Some(TradeStatus::OutZone3)
        },
        Some(TradeStatus::PrepareZone7) => if p > z5 {
            Some(TradeStatus::PrepareZone7)
        } else {
            Some(TradeStatus::InZone5)
        },
        Some(TradeStatus::InZone5) => if p <= z1 {
            Some(TradeStatus::TargetZone1)
        } else if p < z7 {
            Some(TradeStatus::InZone5)
        } else {
            Some(TradeStatus::PrepareZone7Short)
        },
        Some(TradeStatus::PrepareZone7Short) => if p > z5 {
            Some(TradeStatus::PrepareZone7Short)
        } else {
            Some(TradeStatus::ShortZone5)
        },
        Some(TradeStatus::ShortZone5) => if p < z7 && p > z1 {
            Some(TradeStatus::ShortZone5)
        } else if p >= z7 {
            Some(TradeStatus::PrepareZone7)
        } else {
            Some(TradeStatus::TargetZone1)
        },
        Some(TradeStatus::TargetZone1) => if p < z2 {
            Some(TradeStatus::TargetZone1)
        } else {
            None
        },
        _ => last,
    }
}

} // verus!
