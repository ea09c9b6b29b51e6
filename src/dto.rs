use vstd::prelude::*;

verus! {

/// Number of fixed-point units in one whole price unit (eight decimals).
pub const PRICE_SCALE: u64 = 100000000;

/// Directional regime derived from two moving averages of a reference asset;
/// `Neutral` is the regime with no direction (displayed as "None").
#[derive(Clone, Copy, Debug, PartialEq, Eq, Structural)]
pub enum Bias {
    Bullish,
    Bearish,
    Neutral,
}

impl Bias {
    /// Display name of the bias.
    pub fn name(&self) -> (r: &'static str) {
        match self {
            Bias::Bullish => "Bullish",
            Bias::Bearish => "Bearish",
            Bias::Neutral => "None",
        }
    }
}

/// The named states of the per-symbol state machine; the absent state is
/// `Option::None` wherever a status is stored.
#[derive(Clone, Copy, Debug, PartialEq, Eq, Structural)]
pub enum TradeStatus {
    InZone7,
    OutZone5,
    PrepareZone1,
    InZone3,
    PrepareZone1Long,
    LongZone3,
    TargetZone7,
    InZone1,
    OutZone3,
    PrepareZone7,
    InZone5,
    PrepareZone7Short,
    ShortZone5,
    TargetZone1,
}

/// Compares two optional statuses.
pub fn same_status(a: Option<TradeStatus>, b: Option<TradeStatus>) -> (r: bool)
    ensures
        r == (a == b),
{
    match (a, b) {
        (Option::None, Option::None) => true,
        (Option::Some(x), Option::Some(y)) => x == y,
        _ => false,
    }
}

/// One OHLCV bar; prices and volumes are fixed-point with eight decimals.
#[derive(Clone, Copy, Debug, PartialEq, Eq, Structural)]
pub struct Candlestick {
    pub open_time: u64,
    pub open_price: u64,
    pub high_price: u64,
    pub low_price: u64,
    pub close_price: u64,
    pub volume: u64,
    pub close_time: u64,
    pub quote_asset_volume: u64,
    pub number_of_trades: u64,
    pub taker_buy_base_asset_volume: u64,
    pub taker_buy_quote_asset_volume: u64,
}

/// One computed observation of a symbol (the snapshot stored in the ledger).
///
/// Prices and volumes are fixed-point with eight decimals; the two
/// performance figures are in hundredths of a percent; `ma_200` is the
/// 200-bar moving average of closes that the amplitude is measured against.
#[derive(Clone, Debug)]
pub struct Trade {
    pub symbol: String,
    pub current_price: u64,
    pub cma: u64,
    pub oma: u64,
    pub bias: Bias,
    pub status: Option<TradeStatus>,
    pub zone_max: u64,
    pub zone_7: u64,
    pub zone_6: u64,
    pub zone_5: u64,
    pub zone_4: u64,
    pub zone_3: u64,
    pub zone_2: u64,
    pub zone_1: u64,
    pub zone_min: u64,
    pub of: usize,
    pub performance_24: i128,
    pub performance_btc_24: i128,
    pub ma_200: u64,
    pub volume: u64,
    pub quote_asset_volume: u64,
    pub number_of_trades: u64,
    pub taker_buy_base_asset_volume: u64,
    pub taker_buy_quote_asset_volume: u64,
}

impl Trade {
    /// The same snapshot with another status.
    pub open spec fn with_status(self, s: Option<TradeStatus>) -> Trade {
        Trade { status: s, ..self }
    }

    /// A field-for-field copy.
    pub fn copied(&self) -> (r: Trade)
        ensures
            r == *self,
    {
        Trade {
            symbol: self.symbol.clone(),
            current_price: self.current_price,
            cma: self.cma,
            oma: self.oma,
            bias: self.bias,
            status: self.status,
            zone_max: self.zone_max,
            zone_7: self.zone_7,
            zone_6: self.zone_6,
            zone_5: self.zone_5,
            zone_4: self.zone_4,
            zone_3: self.zone_3,
            zone_2: self.zone_2,
            zone_1: self.zone_1,
            zone_min: self.zone_min,
            of: self.of,
            performance_24: self.performance_24,
            performance_btc_24: self.performance_btc_24,
            ma_200: self.ma_200,
            volume: self.volume,
            quote_asset_volume: self.quote_asset_volume,
            number_of_trades: self.number_of_trades,
            taker_buy_base_asset_volume: self.taker_buy_base_asset_volume,
            taker_buy_quote_asset_volume: self.taker_buy_quote_asset_volume,
        }
    }
}

} // verus!
