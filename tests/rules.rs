use zone_trader::blockchain::{add_trade_block, get_all_symbols, get_blockchain_for, get_last_trade_for, TradeLedger};
use zone_trader::crypto_candidate::{
    admit_finalist, choose_candidate_cryptos, pick_bucket, process_existing_cryptos,
    select_finalists, Bucket,
};
use zone_trader::decide::{decide, decide_action, Decision, OrderSide};
use zone_trader::dto::{same_status, Bias, Trade, TradeStatus};
use zone_trader::dto::TradeStatus::{
    InZone1, InZone3, InZone5, InZone7, LongZone3, OutZone3, OutZone5, PrepareZone1,
    PrepareZone1Long, PrepareZone7, PrepareZone7Short, ShortZone5, TargetZone1, TargetZone7,
};
use zone_trader::monitor::{find_zone_index, zone_distribution};
use zone_trader::schedule::{Scheduler, TICK_SECONDS};
use zone_trader::status_trade::update_status;
use zone_trader::swap::{remove_if_out_of_zone, ExitAction};

/// A snapshot with zones 10, 20, .., 70 between 5 and 80.
fn at(symbol: &str, bias: Bias, status: Option<TradeStatus>, price: u64) -> Trade {
    Trade {
        symbol: symbol.to_string(),
        current_price: price,
        cma: 0,
        oma: 0,
        bias,
        status,
        zone_max: 80,
        zone_7: 70,
        zone_6: 60,
        zone_5: 50,
        zone_4: 40,
        zone_3: 30,
        zone_2: 20,
        zone_1: 10,
        zone_min: 5,
        of: 271,
        performance_24: 0,
        performance_btc_24: 0,
        ma_200: 0,
        volume: 0,
        quote_asset_volume: 0,
        number_of_trades: 0,
        taker_buy_base_asset_volume: 0,
        taker_buy_quote_asset_volume: 0,
    }
}

fn next(bias: Bias, last: Option<TradeStatus>, price: u64) -> Option<TradeStatus> {
    update_status(at("X", bias, None, price), &at("X", bias, last, 0)).status
}

#[test]
fn same_status_compares_absent_too() {
    assert!(same_status(None, None));
    assert!(same_status(Some(TradeStatus::InZone1), Some(TradeStatus::InZone1)));
    assert!(!same_status(Some(TradeStatus::InZone1), None));
    assert!(!same_status(Some(TradeStatus::InZone1), Some(TradeStatus::InZone3)));
}

#[test]
fn bias_change_resets_status() {
    for price in [0, 5, 10, 45, 70, 1000] {
        let t = at("X", Bias::Bearish, Some(TradeStatus::InZone1), price);
        let last = at("X", Bias::Bullish, Some(TradeStatus::InZone7), 0);
        let r = update_status(t, &last);
        assert_eq!(r.status, None);
        assert_eq!(r.current_price, price);
        assert_eq!(r.bias, Bias::Bearish);
    }
}

#[test]
fn neutral_bias_is_always_absent() {
    assert_eq!(next(Bias::Neutral, None, 1), None);
    assert_eq!(next(Bias::Neutral, None, 95), None);
    assert_eq!(next(Bias::Neutral, Some(TradeStatus::InZone7), 100), None);
}

#[test]
fn bullish_from_absent() {
    // below zone_7 the bullish machine prepares, at or above it enters
    assert_eq!(next(Bias::Bullish, None, 8), Some(PrepareZone1));
    assert_eq!(next(Bias::Bullish, None, 10), Some(PrepareZone1));
    assert_eq!(next(Bias::Bullish, None, 11), Some(PrepareZone1));
    assert_eq!(next(Bias::Bullish, None, 69), Some(PrepareZone1));
    assert_eq!(next(Bias::Bullish, None, 70), Some(InZone7));
    assert_eq!(next(Bias::Bullish, None, 1000), Some(InZone7));
}

#[test]
fn bullish_absent_below_zone7_prepares_zone1() {
    let mut t = at("ETHUSDT", Bias::Bullish, None, 95);
    t.zone_1 = 90;
    t.zone_2 = 96;
    t.zone_3 = 102;
    t.zone_4 = 108;
    t.zone_5 = 115;
    t.zone_6 = 122;
    t.zone_7 = 130;
    t.zone_max = 138;
    let last = at("ETHUSDT", Bias::Bullish, None, 0);
    assert_eq!(update_status(t.clone(), &last).status, Some(PrepareZone1));
    t.current_price = 129;
    assert_eq!(update_status(t.clone(), &last).status, Some(PrepareZone1));
    t.current_price = 90;
    assert_eq!(update_status(t.clone(), &last).status, Some(PrepareZone1));
    t.current_price = 130;
    assert_eq!(update_status(t, &last).status, Some(InZone7));
}

#[test]
fn bullish_in_zone7_drops_to_zone5() {
    assert_eq!(next(Bias::Bullish, Some(InZone7), 50), Some(OutZone5));
    assert_eq!(next(Bias::Bullish, Some(InZone7), 51), Some(InZone7));
}

#[test]
fn bullish_cycle() {
    assert_eq!(next(Bias::Bullish, Some(OutZone5), 70), Some(InZone7));
    assert_eq!(next(Bias::Bullish, Some(OutZone5), 40), Some(OutZone5));
    assert_eq!(next(Bias::Bullish, Some(OutZone5), 10), Some(PrepareZone1));
    assert_eq!(next(Bias::Bullish, Some(PrepareZone1), 29), Some(PrepareZone1));
    assert_eq!(next(Bias::Bullish, Some(PrepareZone1), 30), Some(InZone3));
    assert_eq!(next(Bias::Bullish, Some(InZone3), 70), Some(TargetZone7));
    assert_eq!(next(Bias::Bullish, Some(InZone3), 40), Some(InZone3));
    assert_eq!(next(Bias::Bullish, Some(InZone3), 10), Some(PrepareZone1Long));
    assert_eq!(next(Bias::Bullish, Some(PrepareZone1Long), 29), Some(PrepareZone1Long));
    assert_eq!(next(Bias::Bullish, Some(PrepareZone1Long), 30), Some(LongZone3));
    assert_eq!(next(Bias::Bullish, Some(LongZone3), 40), Some(LongZone3));
    assert_eq!(next(Bias::Bullish, Some(LongZone3), 10), Some(PrepareZone1));
    assert_eq!(next(Bias::Bullish, Some(LongZone3), 70), Some(TargetZone7));
    assert_eq!(next(Bias::Bullish, Some(TargetZone7), 61), Some(TargetZone7));
    assert_eq!(next(Bias::Bullish, Some(TargetZone7), 60), None);
}

#[test]
fn bearish_cycle() {
    assert_eq!(next(Bias::Bearish, None, 10), Some(InZone1));
    assert_eq!(next(Bias::Bearish, None, 70), Some(PrepareZone7));
    assert_eq!(next(Bias::Bearish, None, 11), Some(PrepareZone7));
    assert_eq!(next(Bias::Bearish, None, 40), Some(PrepareZone7));
    assert_eq!(next(Bias::Bearish, Some(InZone1), 29), Some(InZone1));
    assert_eq!(next(Bias::Bearish, Some(InZone1), 30), Some(OutZone3));
    assert_eq!(next(Bias::Bearish, Some(OutZone3), 10), Some(InZone1));
    assert_eq!(next(Bias::Bearish, Some(OutZone3), 40), Some(OutZone3));
    assert_eq!(next(Bias::Bearish, Some(OutZone3), 70), Some(PrepareZone7));
    assert_eq!(next(Bias::Bearish, Some(PrepareZone7), 51), Some(PrepareZone7));
    assert_eq!(next(Bias::Bearish, Some(PrepareZone7), 50), Some(InZone5));
    assert_eq!(next(Bias::Bearish, Some(InZone5), 10), Some(TargetZone1));
    assert_eq!(next(Bias::Bearish, Some(InZone5), 40), Some(InZone5));
    assert_eq!(next(Bias::Bearish, Some(InZone5), 70), Some(PrepareZone7Short));
    assert_eq!(next(Bias::Bearish, Some(PrepareZone7Short), 51), Some(PrepareZone7Short));
    assert_eq!(next(Bias::Bearish, Some(PrepareZone7Short), 50), Some(ShortZone5));
    assert_eq!(next(Bias::Bearish, Some(ShortZone5), 40), Some(ShortZone5));
    assert_eq!(next(Bias::Bearish, Some(ShortZone5), 70), Some(PrepareZone7));
    assert_eq!(next(Bias::Bearish, Some(ShortZone5), 10), Some(TargetZone1));
    assert_eq!(next(Bias::Bearish, Some(TargetZone1), 19), Some(TargetZone1));
    assert_eq!(next(Bias::Bearish, Some(TargetZone1), 20), None);
}

#[test]
fn status_of_the_other_bias_stays() {
    assert_eq!(next(Bias::Bullish, Some(InZone5), 40), Some(InZone5));
    assert_eq!(next(Bias::Bearish, Some(LongZone3), 40), Some(LongZone3));
}

#[test]
fn decision_table() {
    assert_eq!(decide_action(Bias::Neutral, None), Decision::CloseAllThenLeverage(1));
    assert_eq!(decide_action(Bias::Bullish, None), Decision::CloseAllThenLeverage(1));
    for s in [InZone7, InZone3, LongZone3] {
        assert_eq!(decide_action(Bias::Bullish, Some(s)), Decision::Open(OrderSide::Buy));
        assert_eq!(decide_action(Bias::Bearish, Some(s)), Decision::NoAction);
    }
    for s in [InZone1, InZone5, ShortZone5] {
        assert_eq!(decide_action(Bias::Bearish, Some(s)), Decision::Open(OrderSide::Sell));
    }
    assert_eq!(decide_action(Bias::Bullish, Some(TargetZone7)), Decision::SetLeverage(1));
    assert_eq!(decide_action(Bias::Bearish, Some(TargetZone1)), Decision::SetLeverage(1));
    for s in [OutZone5, PrepareZone1] {
        assert_eq!(decide_action(Bias::Bullish, Some(s)), Decision::CloseAllThenLeverage(1));
    }
    for s in [OutZone3, PrepareZone7] {
        assert_eq!(decide_action(Bias::Bearish, Some(s)), Decision::CloseAllThenLeverage(1));
    }
    assert_eq!(decide_action(Bias::Bullish, Some(PrepareZone1Long)), Decision::CloseAllThenLeverage(2));
    assert_eq!(decide_action(Bias::Bearish, Some(PrepareZone7Short)), Decision::CloseAllThenLeverage(2));
    assert_eq!(decide_action(Bias::Neutral, Some(InZone7)), Decision::NoAction);
    assert_eq!(OrderSide::Buy.name(), "BUY");
    assert_eq!(OrderSide::Sell.name(), "SELL");
}

#[test]
fn decide_reads_latest_snapshot() {
    let mut ledger = TradeLedger::new(2);
    assert_eq!(decide(&ledger, "X"), None);
    add_trade_block(&mut ledger, at("X", Bias::Bullish, Some(TradeStatus::InZone7), 70), 1);
    assert_eq!(decide(&ledger, "X"), Some(Decision::Open(OrderSide::Buy)));
}

#[test]
fn profit_at_target_closes_and_removes() {
    let mut ledger = TradeLedger::new(2);
    let t = at("X", Bias::Bullish, Some(TradeStatus::InZone3), 40);
    add_trade_block(&mut ledger, t.clone(), 1);
    assert_eq!(remove_if_out_of_zone(&mut ledger, &t, Some(500), 500), ExitAction::CloseAndRemove);
    assert!(get_last_trade_for(&ledger, "X").is_none());
}

#[test]
fn profit_below_target_keeps() {
    let mut ledger = TradeLedger::new(2);
    let t = at("X", Bias::Bullish, Some(TradeStatus::InZone3), 40);
    add_trade_block(&mut ledger, t.clone(), 1);
    assert_eq!(remove_if_out_of_zone(&mut ledger, &t, Some(499), 500), ExitAction::Keep);
    assert_eq!(remove_if_out_of_zone(&mut ledger, &t, None, 500), ExitAction::Keep);
    assert!(get_last_trade_for(&ledger, "X").is_some());
}

#[test]
fn out_status_removes() {
    let mut ledger = TradeLedger::new(2);
    let t = at("X", Bias::Bullish, Some(TradeStatus::OutZone5), 40);
    add_trade_block(&mut ledger, t.clone(), 1);
    assert_eq!(remove_if_out_of_zone(&mut ledger, &t, None, 500), ExitAction::Remove);
    assert!(get_all_symbols(&ledger).is_empty());
    let b = at("Y", Bias::Bearish, Some(TradeStatus::OutZone3), 40);
    add_trade_block(&mut ledger, b.clone(), 1);
    assert_eq!(remove_if_out_of_zone(&mut ledger, &b, Some(1), 500), ExitAction::Remove);
    assert!(get_all_symbols(&ledger).is_empty());
}

#[test]
fn finished_cycle_removes() {
    let mut ledger = TradeLedger::new(2);
    add_trade_block(&mut ledger, at("X", Bias::Bullish, Some(TradeStatus::LongZone3), 40), 1);
    let t = at("X", Bias::Bullish, Some(TradeStatus::PrepareZone1), 10);
    add_trade_block(&mut ledger, t.clone(), 2);
    assert_eq!(remove_if_out_of_zone(&mut ledger, &t, None, 500), ExitAction::Remove);

    add_trade_block(&mut ledger, at("Y", Bias::Bearish, Some(TradeStatus::TargetZone1), 10), 1);
    let t = at("Y", Bias::Bearish, None, 20);
    add_trade_block(&mut ledger, t.clone(), 2);
    assert_eq!(remove_if_out_of_zone(&mut ledger, &t, None, 500), ExitAction::Remove);
    assert!(get_all_symbols(&ledger).is_empty());
}

#[test]
fn quiet_zone_reentry_removes() {
    let mut ledger = TradeLedger::new(2);
    let t = at("X", Bias::Bullish, None, 50);
    add_trade_block(&mut ledger, t.clone(), 1);
    assert_eq!(remove_if_out_of_zone(&mut ledger, &t, None, 500), ExitAction::Remove);
    let t = at("X", Bias::Bullish, None, 40);
    add_trade_block(&mut ledger, t.clone(), 1);
    assert_eq!(remove_if_out_of_zone(&mut ledger, &t, None, 500), ExitAction::Keep);
    assert_eq!(get_all_symbols(&ledger), vec!["X".to_string()]);
}

fn scored(symbol: &str, bias: Bias, price: u64, perf_vs_ref: i128, ma_200: u64) -> Trade {
    let mut t = at(symbol, bias, None, price);
    t.performance_btc_24 = perf_vs_ref;
    t.ma_200 = ma_200;
    t
}

fn batch() -> Vec<Trade> {
    vec![
        scored("A", Bias::Bullish, 65, 10, 0),  // from above, worse
        scored("B", Bias::Bullish, 65, 30, 0),  // from above, best
        scored("C", Bias::Bullish, 8, 0, 4),    // from below, amplitude 8/4
        scored("D", Bias::Bullish, 6, 0, 6),    // from below, amplitude 6/6: smallest
        scored("E", Bias::Bearish, 15, -5, 0),  // from below, worst
        scored("F", Bias::Bearish, 15, 5, 0),
        scored("G", Bias::Bearish, 90, 0, 100), // from above, 90/100
        scored("H", Bias::Bearish, 95, 0, 50),  // from above, 95/50: largest
        scored("I", Bias::Neutral, 1, 100, 0),
        scored("J", Bias::Bullish, 40, 100, 0),
    ]
}

#[test]
fn windows_pick_their_extremes() {
    let trades = batch();
    let none: Vec<String> = vec![];
    assert_eq!(pick_bucket(&trades, &none, Bucket::BullishFromAbove), Some(1));
    assert_eq!(pick_bucket(&trades, &none, Bucket::BullishFromBelow), Some(3));
    assert_eq!(pick_bucket(&trades, &none, Bucket::BearishFromBelow), Some(4));
    assert_eq!(pick_bucket(&trades, &none, Bucket::BearishFromAbove), Some(7));
    assert_eq!(select_finalists(&trades, &none), vec![1, 3, 4, 7]);
    let held = vec!["B".to_string(), "H".to_string()];
    assert_eq!(select_finalists(&trades, &held), vec![0, 3, 4, 6]);
    assert!(select_finalists(&trades[8..].to_vec(), &none).is_empty());
}

#[test]
fn ties_keep_the_iteration_rule() {
    let trades = vec![
        scored("A", Bias::Bullish, 65, 10, 0),
        scored("B", Bias::Bullish, 65, 10, 0),
        scored("C", Bias::Bearish, 15, 1, 0),
        scored("D", Bias::Bearish, 15, 1, 0),
    ];
    let none: Vec<String> = vec![];
    // the best of equals is the later one; the worst of equals the earlier
    assert_eq!(pick_bucket(&trades, &none, Bucket::BullishFromAbove), Some(1));
    assert_eq!(pick_bucket(&trades, &none, Bucket::BearishFromBelow), Some(2));
}

#[test]
fn candidate_is_one_of_the_finalists() {
    let trades = batch();
    let mut ledger = TradeLedger::new(3);
    let chosen = choose_candidate_cryptos(&mut ledger, &trades, 7).unwrap();
    assert!(["B", "D", "E", "H"].contains(&chosen.symbol.as_str()));
    assert_eq!(get_all_symbols(&ledger), vec![chosen.symbol.clone()]);
    assert_eq!(get_blockchain_for(&ledger, &chosen.symbol).unwrap()[0].timestamp, 7);
}

#[test]
fn full_ledger_chooses_nothing() {
    let trades = batch();
    let mut ledger = TradeLedger::new(1);
    add_trade_block(&mut ledger, at("Z", Bias::Bullish, None, 1), 1);
    assert!(choose_candidate_cryptos(&mut ledger, &trades, 2).is_none());
    assert_eq!(get_all_symbols(&ledger), vec!["Z".to_string()]);
    let mut empty = TradeLedger::new(3);
    assert!(choose_candidate_cryptos(&mut empty, &trades[8..].to_vec(), 2).is_none());
    assert!(get_all_symbols(&empty).is_empty());
}

#[test]
fn admit_finalist_by_position() {
    let trades = batch();
    let mut ledger = TradeLedger::new(3);
    let finalists = vec![1, 3, 4, 7];
    let t = admit_finalist(&mut ledger, &trades, &finalists, 2, 9).unwrap();
    assert_eq!(t.symbol, "E");
    assert!(admit_finalist(&mut ledger, &trades, &finalists, 2, 10).is_none());
}

#[test]
fn existing_symbols_get_new_blocks() {
    let mut ledger = TradeLedger::new(3);
    add_trade_block(&mut ledger, at("A", Bias::Bullish, None, 40), 1);
    add_trade_block(&mut ledger, at("B", Bias::Bullish, Some(TradeStatus::InZone7), 70), 1);
    let tick = vec![
        at("A", Bias::Bullish, Some(TradeStatus::PrepareZone1), 10),
        at("B", Bias::Bullish, Some(TradeStatus::InZone7), 71),
        at("C", Bias::Bullish, Some(TradeStatus::InZone7), 71),
    ];
    let added = process_existing_cryptos(&mut ledger, &tick, 2);
    assert_eq!(added.len(), 1);
    assert_eq!(added[0].symbol, "A");
    assert_eq!(get_all_symbols(&ledger), vec!["A".to_string(), "B".to_string()]);
    assert_eq!(get_blockchain_for(&ledger, "A").unwrap().len(), 2);
    assert_eq!(get_blockchain_for(&ledger, "B").unwrap().len(), 1);
}

#[test]
fn repeated_symbols_in_one_batch_follow_the_head() {
    let mut ledger = TradeLedger::new(2);
    add_trade_block(&mut ledger, at("A", Bias::Bullish, None, 40), 1);
    let tick = vec![
        at("A", Bias::Bullish, Some(PrepareZone1), 10),
        at("A", Bias::Bullish, Some(PrepareZone1), 9),
        at("A", Bias::Bullish, None, 45),
        at("A", Bias::Bullish, None, 46),
    ];
    let added = process_existing_cryptos(&mut ledger, &tick, 2);
    assert_eq!(added.iter().map(|t| t.current_price).collect::<Vec<_>>(), vec![10, 45]);
    assert_eq!(get_blockchain_for(&ledger, "A").unwrap().len(), 3);
    assert_eq!(get_last_trade_for(&ledger, "A").unwrap().status, None);
}

#[test]
fn scheduler_start_is_idempotent() {
    let mut s = Scheduler::new();
    assert!(!s.is_active());
    assert!(s.start());
    assert!(s.is_active());
    assert!(!s.start());
    assert!(s.is_active());
    assert!(s.stop());
    assert!(!s.is_active());
    assert!(!s.stop());
    assert_eq!(TICK_SECONDS, 50);
}

#[test]
fn zone_index_and_distribution() {
    assert_eq!(find_zone_index(&at("X", Bias::Bullish, None, 0)), Some(0));
    assert_eq!(find_zone_index(&at("X", Bias::Bullish, None, 10)), Some(0));
    assert_eq!(find_zone_index(&at("X", Bias::Bullish, None, 11)), Some(1));
    assert_eq!(find_zone_index(&at("X", Bias::Bullish, None, 70)), Some(6));
    assert_eq!(find_zone_index(&at("X", Bias::Bullish, None, 71)), Some(7));
    let trades = vec![
        at("A", Bias::Bullish, None, 5),
        at("B", Bias::Bullish, None, 35),
        at("C", Bias::Bullish, None, 36),
        at("D", Bias::Bullish, None, 1000),
    ];
    assert_eq!(zone_distribution(&trades), vec![1, 0, 0, 2, 0, 0, 0, 1]);
    assert_eq!(Bias::Neutral.name(), "None");
}
