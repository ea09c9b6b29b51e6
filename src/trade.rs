use vstd::prelude::*;
use chrono::Timelike;
use crate::blockchain::{get_last_trade_for, key_index, TradeLedger};
use crate::dto::{Bias, Candlestick, Trade};
use crate::status_trade::{next_status, update_status};
use crate::numeric::{floor_sqrt, geometric_mid, is_floor_sqrt, lemma_floor_sqrt_between};

verus! {

/// Fewest bars that a history needs before it is analysed.
pub const MIN_HISTORY: usize = 271;

/// Bars at the start of a history that the zones and the current moving
/// average skip.
pub const WARMUP_BARS: usize = 71;

/// Bars in the older moving average and in the amplitude's moving average.
pub const MA_BARS: usize = 200;

/// Bars that a 24-hour performance figure needs.
pub const MIN_PERFORMANCE_BARS: usize = 25;

/// Sum of the closes of `s`.
pub open spec fn sum_closes(s: Seq<Candlestick>) -> int
    decreases s.len(),
{
    if s.len() == 0 {
        0
    } else {
        sum_closes(s.drop_last()) + s.last().close_price
    }
}

/// Arithmetic mean of the closes of `s`, rounded down (zero when empty).
pub open spec fn mean_close(s: Seq<Candlestick>) -> int {
    if s.len() == 0 {
        0
    } else {
        sum_closes(s) / (s.len() as int)
    }
}

/// Highest high of a non-empty `s`.
pub open spec fn max_high(s: Seq<Candlestick>) -> int
    decreases s.len(),
{
    if s.len() <= 1 {
        s[0].high_price as int
    } else {
        let m = max_high(s.drop_last());
        if s.last().high_price > m {
            s.last().high_price as int
        } else {
            m
        }
    }
}

/// Lowest low of a non-empty `s`.
pub open spec fn min_low(s: Seq<Candlestick>) -> int
    decreases s.len(),
{
    if s.len() <= 1 {
        s[0].low_price as int
    } else {
        let m = min_low(s.drop_last());
        if s.last().low_price < m {
            s.last().low_price as int
        } else {
            m
        }
    }
}

/// Index of the most recently closed bar of a non-empty `s`: the greatest
/// close time, the later bar among equal ones.
pub open spec fn latest_index(s: Seq<Candlestick>) -> int
    decreases s.len(),
{
    if s.len() <= 1 {
        0
    } else {
        let i = latest_index(s.drop_last());
        if s.last().close_time >= s[i].close_time {
            s.len() - 1
        } else {
            i
        }
    }
}

/// `Bullish` when the recent average is above the older one, `Bearish` when
/// below, else `Neutral`.
pub open spec fn bias_of(cma: int, oma: int) -> Bias {
    if cma > oma {
        Bias::Bullish
    } else if cma < oma {
        Bias::Bearish
    } else {
        Bias::Neutral
    }
}

/// Bars back from the last one to the bar that opened the trading day, whose
/// anchor is 21:00 local time, at local hour `hour`.
pub open spec fn hours_since_anchor(hour: int) -> int {
    (hour + 3) % 24
}

/// Index of the bar that opened the trading day, in a history of `len` bars.
pub open spec fn anchor_index(len: int, hour: int) -> int {
    len - (hours_since_anchor(hour) + 1)
}

/// Change from `open` to `close` in hundredths of a percent, rounded down.
pub open spec fn change_bp(close: int, open: int) -> int {
    (close * 10000) / open - 10000
}

/// 24-hour performance of a history at local hour `hour`, in hundredths of a
/// percent: last close against the open of the anchor bar; zero with fewer
/// than 25 bars or a zero open.
pub open spec fn performance_24(s: Seq<Candlestick>, hour: int) -> int {
    if s.len() < MIN_PERFORMANCE_BARS as nat {
        0
    } else {
        let open = s[anchor_index(s.len() as int, hour)].open_price as int;
        if open == 0 {
            0
        } else {
            change_bp(s.last().close_price as int, open)
        }
    }
}

/// 24-hour performance `perf` of a symbol less that of the reference history
/// `r`; zero with fewer than 25 reference bars or a zero open or close.
pub open spec fn performance_vs_reference(perf: int, r: Seq<Candlestick>, hour: int) -> int {
    if r.len() < MIN_PERFORMANCE_BARS as nat {
        0
    } else {
        let open = r[anchor_index(r.len() as int, hour)].open_price as int;
        let close = r.last().close_price as int;
        if open != 0 && close != 0 {
            perf - change_bp(close, open)
        } else {
            0
        }
    }
}

/// Mean close of the last 200 bars; zero with fewer bars.
pub open spec fn ma_200(s: Seq<Candlestick>) -> int {
    if s.len() < MA_BARS as nat {
        0
    } else {
        mean_close(s.subrange(s.len() - MA_BARS as int, s.len() as int))
    }
}

/// The seven zones bisect `[zone_min, zone_max]` in log space: each is the
/// rounded-down geometric mean of its two neighbours in the bisection.
pub open spec fn zones_bisect(t: Trade) -> bool {
    &&& is_floor_sqrt(t.zone_4 as int, t.zone_min * t.zone_max)
    &&& is_floor_sqrt(t.zone_2 as int, t.zone_min * t.zone_4)
    &&& is_floor_sqrt(t.zone_6 as int, t.zone_4 * t.zone_max)
    &&& is_floor_sqrt(t.zone_3 as int, t.zone_2 * t.zone_4)
    &&& is_floor_sqrt(t.zone_5 as int, t.zone_6 * t.zone_4)
    &&& is_floor_sqrt(t.zone_1 as int, t.zone_min * t.zone_2)
    &&& is_floor_sqrt(t.zone_7 as int, t.zone_max * t.zone_6)
}

/// The degenerate snapshot of a thin history: every figure zero, neutral bias.
pub open spec fn is_degenerate(t: Trade) -> bool {
    &&& t.current_price == 0 && t.cma == 0 && t.oma == 0
    &&& t.bias == Bias::Neutral
    &&& t.zone_max == 0 && t.zone_7 == 0 && t.zone_6 == 0 && t.zone_5 == 0
    &&& t.zone_4 == 0 && t.zone_3 == 0 && t.zone_2 == 0 && t.zone_1 == 0
    &&& t.zone_min == 0
    &&& t.performance_24 == 0 && t.performance_btc_24 == 0 && t.ma_200 == 0
    &&& t.volume == 0 && t.quote_asset_volume == 0 && t.number_of_trades == 0
    &&& t.taker_buy_base_asset_volume == 0 && t.taker_buy_quote_asset_volume == 0
}

/// Whether a history of `c` bars and a reference history of `r` bars are long
/// enough to analyse.
pub open spec fn long_enough(c: Seq<Candlestick>, r: Seq<Candlestick>) -> bool {
    c.len() >= MIN_HISTORY as nat && r.len() >= MIN_HISTORY as nat
}

/// `t` is the snapshot of `symbol` computed from its history `c` and the
/// reference history `r` at local hour `hour`, before any status is assigned.
pub open spec fn is_snapshot_of(
    t: Trade,
    symbol: Seq<char>,
    c: Seq<Candlestick>,
    r: Seq<Candlestick>,
    hour: int,
) -> bool {
    &&& t.symbol@ == symbol
    &&& t.of == c.len()
    &&& t.status is None
    &&& if !long_enough(c, r) {
        is_degenerate(t)
    } else {
        let a = c.subrange(WARMUP_BARS as int, c.len() as int);
        let last = c.last();
        &&& t.cma == mean_close(r.subrange(WARMUP_BARS as int, r.len() as int))
        &&& t.oma == mean_close(r.subrange(0, MA_BARS as int))
        &&& t.bias == bias_of(t.cma as int, t.oma as int)
        &&& t.zone_max == max_high(a)
        &&& t.zone_min == min_low(a)
        &&& zones_bisect(t)
        &&& t.current_price == a[latest_index(a)].close_price
        &&& t.performance_24 == performance_24(c, hour)
        &&& t.performance_btc_24 == performance_vs_reference(performance_24(c, hour), r, hour)
        &&& t.ma_200 == ma_200(c)
        &&& t.volume == last.volume
        &&& t.quote_asset_volume == last.quote_asset_volume
        &&& t.number_of_trades == last.number_of_trades
        &&& t.taker_buy_base_asset_volume == last.taker_buy_base_asset_volume
        &&& t.taker_buy_quote_asset_volume == last.taker_buy_quote_asset_volume
    }
}

/// Every bar's low is at most its high.
pub open spec fn bars_well_formed(c: Seq<Candlestick>) -> bool {
    forall|i: int| 0 <= i < c.len() ==> #[trigger] c[i].low_price <= c[i].high_price
}

proof fn lemma_extremes_bound_first(s: Seq<Candlestick>)
    requires
        s.len() >= 1,
    ensures
        min_low(s) <= s[0].low_price,
        max_high(s) >= s[0].high_price,
    decreases s.len(),
{
    if s.len() > 1 {
        lemma_extremes_bound_first(s.drop_last());
    }
}

/// Zone ordering: in the snapshot of a history long enough to analyse, whose
/// bars each have a low no higher than their high, the zone boundaries
/// ascend from `zone_min` through `zone_1` .. `zone_7` to `zone_max`.
pub proof fn lemma_zone_ordering(
    t: Trade,
    symbol: Seq<char>,
    c: Seq<Candlestick>,
    r: Seq<Candlestick>,
    hour: int,
)
    requires
        is_snapshot_of(t, symbol, c, r, hour),
        long_enough(c, r),
        bars_well_formed(c),
    ensures
        t.zone_min <= t.zone_1 <= t.zone_2 <= t.zone_3 <= t.zone_4,
        t.zone_4 <= t.zone_5 <= t.zone_6 <= t.zone_7 <= t.zone_max,
{
    let a = c.subrange(WARMUP_BARS as int, c.len() as int);
    lemma_extremes_bound_first(a);
    assert(a[0] == c[WARMUP_BARS as int]);
    assert(c[WARMUP_BARS as int].low_price <= c[WARMUP_BARS as int].high_price);
    let (lo, hi) = (t.zone_min as int, t.zone_max as int);
    let (z1, z2, z3, z4) = (t.zone_1 as int, t.zone_2 as int, t.zone_3 as int, t.zone_4 as int);
    let (z5, z6, z7) = (t.zone_5 as int, t.zone_6 as int, t.zone_7 as int);
    lemma_floor_sqrt_between(lo, hi, z4);
    lemma_floor_sqrt_between(lo, z4, z2);
    lemma_floor_sqrt_between(z4, hi, z6);
    lemma_floor_sqrt_between(z2, z4, z3);
    assert(z6 * z4 == z4 * z6) by (nonlinear_arith);
    lemma_floor_sqrt_between(z4, z6, z5);
    lemma_floor_sqrt_between(lo, z2, z1);
    assert(hi * z6 == z6 * hi) by (nonlinear_arith);
    lemma_floor_sqrt_between(z6, hi, z7);
}

proof fn lemma_sum_closes_bound(s: Seq<Candlestick>)
    ensures
        0 <= sum_closes(s) <= s.len() * 0xffff_ffff_ffff_ffff,
    decreases s.len(),
{
    if s.len() > 0 {
        lemma_sum_closes_bound(s.drop_last());
    }
}

/// Mean close of the bars `lo..hi` of `c`, rounded down.
pub fn calculate_moving_average(c: &Vec<Candlestick>, lo: usize, hi: usize) -> (r: u64)
    requires
        lo < hi <= c@.len(),
    ensures
        r == mean_close(c@.subrange(lo as int, hi as int)),
{
    let mut sum: u128 = 0;
    let mut i: usize = lo;
    while i < hi
        invariant
            lo <= i <= hi <= c@.len(),
            sum == sum_closes(c@.subrange(lo as int, i as int)),
        decreases hi - i,
    {
        proof {
            let s = c@.subrange(lo as int, i as int + 1);
            assert(s.drop_last() =~= c@.subrange(lo as int, i as int));
            lemma_sum_closes_bound(s);
            assert(s.len() * 0xffff_ffff_ffff_ffff <= 0xffff_ffff_ffff_ffff * 0xffff_ffff_ffff_ffff)
                by (nonlinear_arith)
                requires
                    s.len() <= 0xffff_ffff_ffff_ffff,
            ;
        }
        sum = sum + c[i].close_price as u128;
        i = i + 1;
    }
    let n: u128 = (hi - lo) as u128;
    proof {
        let s = c@.subrange(lo as int, hi as int);
        lemma_sum_closes_bound(s);
        assert(sum_closes(s) / (s.len() as int) <= 0xffff_ffff_ffff_ffff) by (nonlinear_arith)
            requires
                0 <= sum_closes(s) <= s.len() * 0xffff_ffff_ffff_ffff,
                s.len() > 0,
        ;
    }
    (sum / n) as u64
}

/// Highest high of the bars from `lo` to the end of `c`.
fn highest_high(c: &Vec<Candlestick>, lo: usize) -> (r: u64)
    requires
        lo < c@.len(),
    ensures
        r == max_high(c@.subrange(lo as int, c@.len() as int)),
{
    let mut best: u64 = c[lo].high_price;
    let n: usize = c.len();
    let mut i: usize = lo + 1;
    assert(c@.subrange(lo as int, i as int).len() == 1);
    while i < n
        invariant
            lo < i <= n,
            n == c@.len(),
            best == max_high(c@.subrange(lo as int, i as int)),
        decreases n - i,
    {
        assert(c@.subrange(lo as int, i as int + 1).drop_last() =~= c@.subrange(lo as int, i as int));
        if c[i].high_price > best {
            best = c[i].high_price;
        }
        i = i + 1;
    }
    best
}

/// Lowest low of the bars from `lo` to the end of `c`.
fn lowest_low(c: &Vec<Candlestick>, lo: usize) -> (r: u64)
    requires
        lo < c@.len(),
    ensures
        r == min_low(c@.subrange(lo as int, c@.len() as int)),
{
    let mut best: u64 = c[lo].low_price;
    let n: usize = c.len();
    let mut i: usize = lo + 1;
    assert(c@.subrange(lo as int, i as int).len() == 1);
    while i < n
        invariant
            lo < i <= n,
            n == c@.len(),
            best == min_low(c@.subrange(lo as int, i as int)),
        decreases n - i,
    {
        assert(c@.subrange(lo as int, i as int + 1).drop_last() =~= c@.subrange(lo as int, i as int));
        if c[i].low_price < best {
            best = c[i].low_price;
        }
        i = i + 1;
    }
    best
}

/// Close of the most recently closed bar from `lo` to the end of `c`.
fn latest_close(c: &Vec<Candlestick>, lo: usize) -> (r: u64)
    requires
        lo < c@.len(),
    ensures
        ({
            let a = c@.subrange(lo as int, c@.len() as int);
            r == a[latest_index(a)].close_price
        }),
{
    let mut best: usize = lo;
    let n: usize = c.len();
    let mut i: usize = lo + 1;
    assert(c@.subrange(lo as int, i as int).len() == 1);
    while i < n
        invariant
            lo <= best < i <= n,
            n == c@.len(),
            best - lo == latest_index(c@.subrange(lo as int, i as int)),
        decreases n - i,
    {
        assert(c@.subrange(lo as int, i as int + 1).drop_last() =~= c@.subrange(lo as int, i as int));
        if c[i].close_time >= c[best].close_time {
            best = i;
        }
        i = i + 1;
    }
    c[best].close_price
}

/// Change from `open` to `close` in hundredths of a percent, rounded down.
fn change_in_bp(close: u64, open: u64) -> (r: i128)
    requires
        open != 0,
    ensures
        r == change_bp(close as int, open as int),
{
    let scaled: u128 = close as u128 * 10000;
    let ratio: u128 = scaled / (open as u128);
    assert(ratio <= scaled);
    ratio as i128 - 10000
}

/// Index of the bar that opened the trading day, at local hour `hour`.
fn anchor_of(len: usize, hour: u32) -> (r: usize)
    requires
        len >= 25,
        hour < 24,
    ensures
        r == anchor_index(len as int, hour as int),
        r < len,
{
    let hours: usize = ((hour + 3) % 24) as usize;
    len - (hours + 1)
}

/// 24-hour performance of `c` at local hour `hour`, in hundredths of a percent.
pub fn calculate_performance_24(c: &Vec<Candlestick>, hour: u32) -> (r: i128)
    requires
        hour < 24,
    ensures
        r == performance_24(c@, hour as int),
{
    if c.len() < MIN_PERFORMANCE_BARS {
        return 0;
    }
    let anchor = anchor_of(c.len(), hour);
    let open = c[anchor].open_price;
    if open == 0 {
        return 0;
    }
    change_in_bp(c[c.len() - 1].close_price, open)
}

/// 24-hour performance `perf` less that of the reference history `r`.
pub fn calculate_performance_btc_24(r: &Vec<Candlestick>, perf: i128, hour: u32) -> (out: i128)
    requires
        hour < 24,
        -10000 <= perf <= 0x1_0000_0000_0000_0000 * 10000,
    ensures
        out == performance_vs_reference(perf as int, r@, hour as int),
{
    if r.len() < MIN_PERFORMANCE_BARS {
        return 0;
    }
    let anchor = anchor_of(r.len(), hour);
    let open = r[anchor].open_price;
    let close = r[r.len() - 1].close_price;
    if open != 0 && close != 0 {
        let reference = change_in_bp(close, open);
        proof {
            assert((close as int * 10000) / (open as int) <= close as int * 10000) by (nonlinear_arith)
                requires
                    open as int >= 1,
                    close as int >= 0,
            ;
        }
        perf - reference
    } else {
        0
    }
}

/// Mean close of the last 200 bars of `c`; zero with fewer bars.
pub fn calculate_ma_200(c: &Vec<Candlestick>) -> (r: u64)
    ensures
        r == ma_200(c@),
{
    if c.len() < MA_BARS {
        return 0;
    }
    calculate_moving_average(c, c.len() - MA_BARS, c.len())
}

fn bias_from(cma: u64, oma: u64) -> (r: Bias)
    ensures
        r == bias_of(cma as int, oma as int),
{
    if cma > oma {
        Bias::Bullish
    } else if cma < oma {
        Bias::Bearish
    } else {
        Bias::Neutral
    }
}

/// The degenerate snapshot of `symbol` for a history of `of` bars.
pub fn degenerate_trade(symbol: String, of: usize) -> (t: Trade)
    ensures
        t.symbol == symbol,
        t.of == of,
        t.status is None,
        is_degenerate(t),
{
    Trade {
        symbol,
        current_price: 0,
        cma: 0,
        oma: 0,
        bias: Bias::Neutral,
        status: None,
        zone_max: 0,
        zone_7: 0,
        zone_6: 0,
        zone_5: 0,
        zone_4: 0,
        zone_3: 0,
        zone_2: 0,
        zone_1: 0,
        zone_min: 0,
        of,
        performance_24: 0,
        performance_btc_24: 0,
        ma_200: 0,
        volume: 0,
        quote_asset_volume: 0,
        number_of_trades: 0,
        taker_buy_base_asset_volume: 0,
        taker_buy_quote_asset_volume: 0,
    }
}

/// Computes the snapshot of `symbol` from its history and the reference
/// asset's history at local hour `hour`, with no status yet. A history or
/// reference history shorter than 271 bars gives the degenerate snapshot.
pub fn analyze_trade(
    symbol: String,
    candlesticks: &Vec<Candlestick>,
    reference_candles: &Vec<Candlestick>,
    hour: u32,
) -> (t: Trade)
    requires
        hour < 24,
    ensures
        is_snapshot_of(t, symbol@, candlesticks@, reference_candles@, hour as int),
{
    let of = candlesticks.len();
    if of < MIN_HISTORY || reference_candles.len() < MIN_HISTORY {
        return degenerate_trade(symbol, of);
    }
    let cma = calculate_moving_average(reference_candles, WARMUP_BARS, reference_candles.len());
    let oma = calculate_moving_average(reference_candles, 0, MA_BARS);
    let bias = bias_from(cma, oma);

    let zone_max = highest_high(candlesticks, WARMUP_BARS);
    let zone_min = lowest_low(candlesticks, WARMUP_BARS);
    let current_price = latest_close(candlesticks, WARMUP_BARS);

    let zone_4 = geometric_mid(zone_min, zone_max);
    let zone_2 = geometric_mid(zone_min, zone_4);
    let zone_6 = geometric_mid(zone_4, zone_max);
    let zone_3 = geometric_mid(zone_2, zone_4);
    let zone_5 = geometric_mid(zone_6, zone_4);
    let zone_1 = geometric_mid(zone_min, zone_2);
    let zone_7 = geometric_mid(zone_max, zone_6);

    let performance_24 = calculate_performance_24(candlesticks, hour);
    proof {
        let c = candlesticks@;
        let open = c[anchor_index(c.len() as int, hour as int)].open_price as int;
        if open != 0 {
            let close = c.last().close_price as int;
            assert((close * 10000) / open <= close * 10000) by (nonlinear_arith)
                requires
                    open >= 1,
                    close >= 0,
            ;
            assert(close * 10000 <= 0x1_0000_0000_0000_0000 * 10000);
        }
    }
    let performance_btc_24 = calculate_performance_btc_24(reference_candles, performance_24, hour);
    let ma_200 = calculate_ma_200(candlesticks);

    let last = candlesticks[of - 1];
    Trade {
        symbol,
        current_price,
        cma,
        oma,
        bias,
        status: None,
        zone_max,
        zone_7,
        zone_6,
        zone_5,
        zone_4,
        zone_3,
        zone_2,
        zone_1,
        zone_min,
        of,
        performance_24,
        performance_btc_24,
        ma_200,
        volume: last.volume,
        quote_asset_volume: last.quote_asset_volume,
        number_of_trades: last.number_of_trades,
        taker_buy_base_asset_volume: last.taker_buy_base_asset_volume,
        taker_buy_quote_asset_volume: last.taker_buy_quote_asset_volume,
    }
}

/// Relies on chrono's `Local::now()` and `Timelike::hour`: the current hour
/// of the local clock, from 0 to 23.
#[verifier::external_body]
fn local_hour() -> (r: u32)
    ensures
        r < 24,
{
    chrono::Local::now().hour()
}

/// `t` is the snapshot of `symbol` from histories `c` and `r` at local hour
/// `hour`, with the status that follows the ledger's latest snapshot of the
/// symbol (absent when the symbol is not in the ledger).
pub open spec fn is_generated_trade(
    t: Trade,
    ledger: Seq<(Seq<char>, Seq<crate::blockchain::TradeBlock>)>,
    symbol: Seq<char>,
    c: Seq<Candlestick>,
    r: Seq<Candlestick>,
    hour: int,
) -> bool {
    let k = key_index(ledger, symbol);
    &&& is_snapshot_of(t.with_status(None), symbol, c, r, hour)
    &&& t.status == if k >= 0 {
        next_status(t.with_status(None), ledger[k].1.last().trade)
    } else {
        None
    }
}

/// Snapshot of `symbol` at local hour `hour`, with its status assigned from
/// the ledger's latest snapshot of the symbol.
pub fn generate_trade_at(
    symbol: String,
    candlesticks: &Vec<Candlestick>,
    reference_candles: &Vec<Candlestick>,
    hour: u32,
    ledger: &TradeLedger,
) -> (t: Trade)
    requires
        hour < 24,
        ledger.well_formed(),
    ensures
        is_generated_trade(t, ledger@, symbol@, candlesticks@, reference_candles@, hour as int),
{
    let ghost name = symbol@;
    let base = analyze_trade(symbol, candlesticks, reference_candles, hour);
    assert(base.with_status(None) == base);
    match get_last_trade_for(ledger, base.symbol.as_str()) {
        Some(last) => {
            let t = update_status(base, &last);
            assert(t.with_status(None) == base);
            t
        },
        None => base,
    }
}

/// Snapshot of `symbol` at the current local hour, with its status assigned
/// from the ledger's latest snapshot of the symbol.
pub fn generate_trade(
    symbol: String,
    candlesticks: Vec<Candlestick>,
    reference_candles: Vec<Candlestick>,
    ledger: &TradeLedger,
) -> (t: Trade)
    requires
        ledger.well_formed(),
    ensures
        exists|hour: int|
            0 <= hour < 24 && #[trigger] is_generated_trade(t, ledger@, symbol@, candlesticks@, reference_candles@, hour),
{
    let hour = local_hour();
    generate_trade_at(symbol, &candlesticks, &reference_candles, hour, ledger)
}

} // verus!
