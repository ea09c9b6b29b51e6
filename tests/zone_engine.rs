use zone_trader::blockchain::{add_trade_block, TradeLedger};
use zone_trader::dto::{Bias, Candlestick, TradeStatus, PRICE_SCALE};
use zone_trader::numeric::{floor_sqrt, geometric_mid};
use zone_trader::trade::{
    analyze_trade, calculate_ma_200, calculate_moving_average, calculate_performance_24,
    calculate_performance_btc_24, degenerate_trade, generate_trade, generate_trade_at,
};

const P: u64 = PRICE_SCALE;

fn bar(open: u64, high: u64, low: u64, close: u64, close_time: u64) -> Candlestick {
    Candlestick {
        open_time: close_time.saturating_sub(3600),
        open_price: open,
        high_price: high,
        low_price: low,
        close_price: close,
        volume: 11,
        close_time,
        quote_asset_volume: 12,
        number_of_trades: 13,
        taker_buy_base_asset_volume: 14,
        taker_buy_quote_asset_volume: 15,
    }
}

fn flat(n: usize, price: u64) -> Vec<Candlestick> {
    (0..n).map(|i| bar(price, price, price, price, i as u64)).collect()
}

/// Reference history whose recent average is 105 and older average is 100.
fn rising_reference() -> Vec<Candlestick> {
    let mut r = flat(200, 100 * P);
    for i in 200..270 {
        r.push(bar(100 * P, 114 * P, 114 * P, 114 * P, i as u64));
    }
    r.push(bar(100 * P, 120 * P, 120 * P, 120 * P, 270));
    r
}

/// Symbol history: lows of 50 and highs of 200 after the warm-up bars.
fn ranged_history(n: usize, last_close: u64) -> Vec<Candlestick> {
    let mut c: Vec<Candlestick> = (0..n).map(|i| bar(100 * P, 200 * P, 50 * P, 100 * P, i as u64)).collect();
    let last = c.len() - 1;
    c[last].close_price = last_close;
    c
}

#[test]
fn floor_sqrt_exact_values() {
    assert_eq!(floor_sqrt(0), 0);
    assert_eq!(floor_sqrt(1), 1);
    assert_eq!(floor_sqrt(15), 3);
    assert_eq!(floor_sqrt(16), 4);
    assert_eq!(floor_sqrt(u128::MAX), u64::MAX);
    assert_eq!(geometric_mid(50 * P, 200 * P), 100 * P);
    assert_eq!(geometric_mid(u64::MAX, u64::MAX), u64::MAX);
}

#[test]
fn moving_averages() {
    let r = rising_reference();
    assert_eq!(calculate_moving_average(&r, 71, r.len()), 105 * P);
    assert_eq!(calculate_moving_average(&r, 0, 200), 100 * P);
    let c = vec![bar(1, 1, 1, 1, 0), bar(1, 1, 1, 2, 1)];
    assert_eq!(calculate_moving_average(&c, 0, 2), 1);
    assert_eq!(calculate_ma_200(&flat(199, 7)), 0);
    assert_eq!(calculate_ma_200(&flat(250, 7)), 7);
}

#[test]
fn reference_averages_give_bullish_bias() {
    let t = analyze_trade("ETHUSDT".to_string(), &ranged_history(271, 100 * P), &rising_reference(), 12);
    assert_eq!(t.cma, 105 * P);
    assert_eq!(t.oma, 100 * P);
    assert_eq!(t.bias, Bias::Bullish);
    assert_eq!(t.status, None);
}

#[test]
fn reference_averages_give_bearish_and_neutral_bias() {
    let mut r = rising_reference();
    r.reverse();
    let t = analyze_trade("ETHUSDT".to_string(), &ranged_history(271, 100 * P), &r, 12);
    assert!(t.cma < t.oma);
    assert_eq!(t.bias, Bias::Bearish);
    let t = analyze_trade("ETHUSDT".to_string(), &ranged_history(271, 100 * P), &flat(300, 3 * P), 12);
    assert_eq!(t.bias, Bias::Neutral);
}

#[test]
fn zones_bisect_in_log_space() {
    let t = analyze_trade("ETHUSDT".to_string(), &ranged_history(300, 100 * P), &rising_reference(), 5);
    assert_eq!(t.zone_min, 50 * P);
    assert_eq!(t.zone_max, 200 * P);
    assert_eq!(t.zone_1, 5946035574);
    assert_eq!(t.zone_2, 7071067811);
    assert_eq!(t.zone_3, 8408964152);
    assert_eq!(t.zone_4, 10000000000);
    assert_eq!(t.zone_5, 11892071149);
    assert_eq!(t.zone_6, 14142135623);
    assert_eq!(t.zone_7, 16817928304);
    let z = [t.zone_min, t.zone_1, t.zone_2, t.zone_3, t.zone_4, t.zone_5, t.zone_6, t.zone_7, t.zone_max];
    assert!(z.windows(2).all(|w| w[0] <= w[1]));
    assert_eq!(t.of, 300);
    assert_eq!(t.volume, 11);
    assert_eq!(t.number_of_trades, 13);
    assert_eq!(t.taker_buy_quote_asset_volume, 15);
}

#[test]
fn extremes_ignore_warmup_bars() {
    let mut c = ranged_history(271, 100 * P);
    c[10].high_price = 900 * P;
    c[10].low_price = P;
    let t = analyze_trade("ETHUSDT".to_string(), &c, &rising_reference(), 5);
    assert_eq!(t.zone_max, 200 * P);
    assert_eq!(t.zone_min, 50 * P);
}

#[test]
fn current_price_is_latest_close() {
    let mut c = ranged_history(271, 100 * P);
    c[150].close_time = 10_000;
    c[150].close_price = 77 * P;
    let t = analyze_trade("ETHUSDT".to_string(), &c, &rising_reference(), 5);
    assert_eq!(t.current_price, 77 * P);
    let t = analyze_trade("ETHUSDT".to_string(), &ranged_history(271, 123 * P), &rising_reference(), 5);
    assert_eq!(t.current_price, 123 * P);
}

#[test]
fn thin_history_gives_degenerate_snapshot() {
    let t = analyze_trade("ETHUSDT".to_string(), &ranged_history(270, 100 * P), &rising_reference(), 5);
    assert_eq!(t.bias, Bias::Neutral);
    assert_eq!(t.status, None);
    assert_eq!(t.of, 270);
    assert_eq!(
        [t.current_price, t.cma, t.oma, t.zone_max, t.zone_7, t.zone_1, t.zone_min, t.ma_200, t.volume],
        [0; 9]
    );
    assert_eq!(t.performance_24, 0);
    let mut short_ref = rising_reference();
    short_ref.pop();
    let t = analyze_trade("ETHUSDT".to_string(), &ranged_history(300, 100 * P), &short_ref, 5);
    assert_eq!(t.bias, Bias::Neutral);
    assert_eq!(t.zone_4, 0);
    let d = degenerate_trade("X".to_string(), 3);
    assert_eq!(d.of, 3);
    assert_eq!(d.zone_5, 0);
}

#[test]
fn performance_uses_the_daily_anchor_bar() {
    let mut c = flat(30, 100 * P);
    let last = c.len() - 1;
    c[last].close_price = 110 * P;
    // at 21:00 the anchor is the last bar itself
    c[last].open_price = 50 * P;
    assert_eq!(calculate_performance_24(&c, 21), 12000);
    // at 23:00 the anchor is two bars back
    assert_eq!(calculate_performance_24(&c, 23), 1000);
    assert_eq!(calculate_performance_24(&flat(24, P), 23), 0);
    let mut zero_open = flat(30, P);
    zero_open[27].open_price = 0;
    assert_eq!(calculate_performance_24(&zero_open, 23), 0);
    let mut down = flat(30, 100 * P);
    down[last].close_price = 90 * P;
    assert_eq!(calculate_performance_24(&down, 0), -1000);
}

#[test]
fn performance_against_reference() {
    let mut r = flat(30, 100 * P);
    let last = r.len() - 1;
    r[last].close_price = 104 * P;
    assert_eq!(calculate_performance_btc_24(&r, 1000, 23), 600);
    assert_eq!(calculate_performance_btc_24(&flat(24, P), 1000, 23), 0);
    let mut zero_close = flat(30, P);
    zero_close[last].close_price = 0;
    assert_eq!(calculate_performance_btc_24(&zero_close, 1000, 23), 0);
}

#[test]
fn generated_trade_takes_status_from_ledger() {
    let c = ranged_history(271, 40 * P);
    let r = rising_reference();
    let mut ledger = TradeLedger::new(3);
    let fresh = generate_trade_at("ETHUSDT".to_string(), &c, &r, 3, &ledger);
    assert_eq!(fresh.status, None);
    assert_eq!(fresh.bias, Bias::Bullish);
    assert!(add_trade_block(&mut ledger, fresh, 1));
    // price 40 is below zone_1, so a bullish absent status becomes PrepareZone1
    let next = generate_trade_at("ETHUSDT".to_string(), &c, &r, 3, &ledger);
    assert_eq!(next.status, Some(TradeStatus::PrepareZone1));
    let now = generate_trade("ETHUSDT".to_string(), c.clone(), r.clone(), &ledger);
    assert_eq!(now.status, Some(TradeStatus::PrepareZone1));
    assert_eq!(now.zone_4, next.zone_4);
}
