use zone_trader::blockchain::{
    add_trade_block, get_all_symbols, get_blockchain_for,
    get_current_blockchain_symbols, get_last_trade_for, is_blockchain_limit_reached,
    is_chain_valid_for, is_valid_chain, remove_blockchain, TradeBlock, TradeBlockchain, TradeLedger,
};
use zone_trader::dto::{Bias, Trade, TradeStatus};

fn snapshot(symbol: &str, status: Option<TradeStatus>, price: u64) -> Trade {
    Trade {
        symbol: symbol.to_string(),
        current_price: price,
        cma: 0,
        oma: 0,
        bias: Bias::Bullish,
        status,
        zone_max: 0,
        zone_7: 0,
        zone_6: 0,
        zone_5: 0,
        zone_4: 0,
        zone_3: 0,
        zone_2: 0,
        zone_1: 0,
        zone_min: 0,
        of: 271,
        performance_24: 0,
        performance_btc_24: 0,
        ma_200: 0,
        volume: 0,
        quote_asset_volume: 0,
        number_of_trades: 0,
        taker_buy_base_asset_volume: 0,
        taker_buy_quote_asset_volume: 0,
    }
}

#[test]
fn block_hash_is_sha256_of_canonical_bytes() {
    let mut t = snapshot("BTCUSDT", Some(TradeStatus::InZone7), 100);
    t.performance_24 = -5;
    t.performance_btc_24 = 7;
    let h = TradeBlock::calculate_hash(0, 1700000000, &t, "0");
    assert_eq!(h, "317d4b248c747f7878dc1542c0b3aac1026ded228d56f17cdb63f153c4b1b1b1");
}

#[test]
fn hash_depends_on_every_input() {
    let t = snapshot("ETHUSDT", None, 5);
    let base = TradeBlock::calculate_hash(1, 2, &t, "abc");
    assert_eq!(base.len(), 64);
    assert!(base.chars().all(|c| c.is_ascii_hexdigit() && !c.is_ascii_uppercase()));
    assert_ne!(base, TradeBlock::calculate_hash(2, 2, &t, "abc"));
    assert_ne!(base, TradeBlock::calculate_hash(1, 3, &t, "abc"));
    assert_ne!(base, TradeBlock::calculate_hash(1, 2, &t, "abd"));
    assert_ne!(base, TradeBlock::calculate_hash(1, 2, &snapshot("ETHUSDT", None, 6), "abc"));
}

#[test]
fn new_block_carries_its_digest() {
    let t = snapshot("BTCUSDT", None, 10);
    let b = TradeBlock::new(3, 99, t.clone(), "prev".to_string());
    assert_eq!(b.index, 3);
    assert_eq!(b.timestamp, 99);
    assert_eq!(b.previous_hash, "prev");
    assert_eq!(b.hash, TradeBlock::calculate_hash(3, 99, &t, "prev"));
}

#[test]
fn chain_appends_only_on_status_change() {
    let mut chain = TradeBlockchain::new();
    assert!(chain.get_last_trade().is_none());
    assert!(chain.add_block(snapshot("BTCUSDT", None, 1), 10));
    assert!(!chain.add_block(snapshot("BTCUSDT", None, 2), 11));
    assert_eq!(chain.all().len(), 1);
    assert!(chain.add_block(snapshot("BTCUSDT", Some(TradeStatus::InZone7), 3), 12));
    assert!(!chain.add_block(snapshot("BTCUSDT", Some(TradeStatus::InZone7), 4), 13));
    assert_eq!(chain.all().len(), 2);
    assert_eq!(chain.get_last_trade().unwrap().current_price, 3);
    let blocks = chain.all();
    assert_eq!(blocks[0].previous_hash, "0");
    assert_eq!(blocks[1].previous_hash, blocks[0].hash);
    assert_eq!(blocks[0].index, 0);
    assert_eq!(blocks[1].index, 1);
    assert!(chain.is_valid());
}

#[test]
fn ledger_dedup_keeps_length() {
    let mut ledger = TradeLedger::new(3);
    assert!(add_trade_block(&mut ledger, snapshot("BTCUSDT", Some(TradeStatus::InZone3), 1), 1));
    assert!(!add_trade_block(&mut ledger, snapshot("BTCUSDT", Some(TradeStatus::InZone3), 2), 2));
    assert!(!add_trade_block(&mut ledger, snapshot("BTCUSDT", Some(TradeStatus::InZone3), 3), 3));
    assert_eq!(get_blockchain_for(&ledger, "BTCUSDT").unwrap().len(), 1);
    assert!(add_trade_block(&mut ledger, snapshot("BTCUSDT", None, 4), 4));
    assert_eq!(get_blockchain_for(&ledger, "BTCUSDT").unwrap().len(), 2);
    assert_eq!(get_last_trade_for(&ledger, "BTCUSDT").unwrap().current_price, 4);
}

#[test]
fn ledger_capacity_and_removal() {
    let mut ledger = TradeLedger::new(2);
    assert_eq!(ledger.capacity(), 2);
    assert!(!is_blockchain_limit_reached(&ledger));
    assert!(add_trade_block(&mut ledger, snapshot("AAAUSDT", None, 1), 1));
    assert!(add_trade_block(&mut ledger, snapshot("BBBUSDT", None, 1), 1));
    assert!(is_blockchain_limit_reached(&ledger));
    assert!(!add_trade_block(&mut ledger, snapshot("CCCUSDT", None, 1), 2));
    assert!(get_blockchain_for(&ledger, "CCCUSDT").is_none());
    // a held symbol still gets blocks while the ledger is full
    assert!(add_trade_block(&mut ledger, snapshot("AAAUSDT", Some(TradeStatus::InZone1), 1), 3));
    remove_blockchain(&mut ledger, "AAAUSDT");
    assert!(!is_blockchain_limit_reached(&ledger));
    assert!(get_last_trade_for(&ledger, "AAAUSDT").is_none());
    assert!(add_trade_block(&mut ledger, snapshot("CCCUSDT", None, 1), 4));
    assert!(!add_trade_block(&mut ledger, snapshot("DDDUSDT", None, 1), 5));
    assert_eq!(get_current_blockchain_symbols(&ledger), vec!["BBBUSDT".to_string(), "CCCUSDT".to_string()]);
    assert_eq!(get_all_symbols(&ledger), vec!["BBBUSDT".to_string(), "CCCUSDT".to_string()]);
}

#[test]
fn remove_unknown_symbol_changes_nothing() {
    let mut ledger = TradeLedger::new(2);
    assert!(add_trade_block(&mut ledger, snapshot("AAAUSDT", None, 1), 1));
    remove_blockchain(&mut ledger, "ZZZUSDT");
    assert_eq!(get_all_symbols(&ledger), vec!["AAAUSDT".to_string()]);
}

#[test]
fn zero_capacity_admits_nothing() {
    let mut ledger = TradeLedger::new(0);
    assert!(is_blockchain_limit_reached(&ledger));
    assert!(!add_trade_block(&mut ledger, snapshot("AAAUSDT", None, 1), 1));
    assert!(get_all_symbols(&ledger).is_empty());
}

#[test]
fn appended_chains_are_valid() {
    let mut ledger = TradeLedger::new(2);
    let statuses = [None, Some(TradeStatus::InZone7), Some(TradeStatus::OutZone5), None, Some(TradeStatus::PrepareZone1)];
    for (i, s) in statuses.iter().enumerate() {
        add_trade_block(&mut ledger, snapshot("BTCUSDT", *s, i as u64), i as u64);
    }
    assert_eq!(get_blockchain_for(&ledger, "BTCUSDT").unwrap().len(), 5);
    assert_eq!(is_chain_valid_for(&ledger, "BTCUSDT"), Some(true));
    assert_eq!(is_chain_valid_for(&ledger, "ETHUSDT"), None);
}

#[test]
fn tampering_with_any_field_breaks_the_chain() {
    let mut ledger = TradeLedger::new(1);
    add_trade_block(&mut ledger, snapshot("BTCUSDT", None, 1), 100);
    add_trade_block(&mut ledger, snapshot("BTCUSDT", Some(TradeStatus::InZone7), 2), 101);
    add_trade_block(&mut ledger, snapshot("BTCUSDT", Some(TradeStatus::OutZone5), 3), 102);
    let blocks = get_blockchain_for(&ledger, "BTCUSDT").unwrap();
    assert!(is_valid_chain(&blocks));
    for i in 0..blocks.len() {
        let mut b = blocks.clone();
        b[i].trade.current_price += 1;
        assert!(!is_valid_chain(&b));
        let mut b = blocks.clone();
        b[i].trade.status = Some(TradeStatus::TargetZone1);
        assert!(!is_valid_chain(&b));
        let mut b = blocks.clone();
        b[i].trade.symbol.push('X');
        assert!(!is_valid_chain(&b));
        let mut b = blocks.clone();
        b[i].timestamp += 1;
        assert!(!is_valid_chain(&b));
        let mut b = blocks.clone();
        b[i].index += 1;
        assert!(!is_valid_chain(&b));
        let mut b = blocks.clone();
        b[i].previous_hash.push('0');
        assert!(!is_valid_chain(&b));
        let mut b = blocks.clone();
        b[i].hash = b[i].hash.replace(|c: char| c != '0', "0");
        assert!(!is_valid_chain(&b));
        // recomputing the tampered block's own hash still breaks the link
        let mut b = blocks.clone();
        b[i].trade.current_price += 1;
        b[i].hash = TradeBlock::calculate_hash(b[i].index, b[i].timestamp, &b[i].trade, &b[i].previous_hash);
        assert_eq!(is_valid_chain(&b), i + 1 == blocks.len());
    }
}
