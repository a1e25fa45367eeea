use vstd::prelude::*;

verus! {

/// The 24 hour ticker of one trading pair, as Binance reports it.
#[derive(Clone, Debug)]
pub struct Crypto {
    pub symbol: String,
    pub price_change: String,
    pub price_change_percent: String,
    pub weighted_avg_price: String,
    pub open_price: String,
    pub high_price: String,
    pub low_price: String,
    pub last_price: String,
    pub volume: String,
    pub quote_volume: String,
    pub open_time: i64,
    pub close_time: i64,
    pub first_id: i64,
    pub last_id: i64,
    pub count: i64,
}

impl Default for Crypto {
    /// A ticker with empty texts and zero numbers.
    fn default() -> (ticker: Self)
        ensures
            ticker.symbol@ == Seq::<char>::empty(),
            ticker.price_change@ == Seq::<char>::empty(),
            ticker.price_change_percent@ == Seq::<char>::empty(),
            ticker.weighted_avg_price@ == Seq::<char>::empty(),
            ticker.open_price@ == Seq::<char>::empty(),
            ticker.high_price@ == Seq::<char>::empty(),
            ticker.low_price@ == Seq::<char>::empty(),
            ticker.last_price@ == Seq::<char>::empty(),
            ticker.volume@ == Seq::<char>::empty(),
            ticker.quote_volume@ == Seq::<char>::empty(),
            ticker.open_time == 0,
            ticker.close_time == 0,
            ticker.first_id == 0,
            ticker.last_id == 0,
            ticker.count == 0,
    {
        Crypto {
            symbol: String::new(),
            price_change: String::new(),
            price_change_percent: String::new(),
            weighted_avg_price: String::new(),
            open_price: String::new(),
            high_price: String::new(),
            low_price: String::new(),
            last_price: String::new(),
            volume: String::new(),
            quote_volume: String::new(),
            open_time: 0,
            close_time: 0,
            first_id: 0,
            last_id: 0,
            count: 0,
        }
    }
}

/// The text that every Binance 24h ticker request starts with.
pub open spec fn binance_ticker_prefix() -> Seq<char> {
    "https://api.binance.com/api/v3/ticker?symbol="@
}

/// The Binance ticker URL for the pair made of `first_symbol` and
/// `second_symbol`, written one after the other.
pub fn binance_url(first_symbol: &str, second_symbol: &str) -> (url: String)
    ensures
        url@ == binance_ticker_prefix() + first_symbol@ + second_symbol@,
{
    let url = String::from_str("https://api.binance.com/api/v3/ticker?symbol=");
    let url = url.concat(first_symbol);
    url.concat(second_symbol)
}

} // verus!
