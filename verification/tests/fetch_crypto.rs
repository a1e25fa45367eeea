use letsgetbackrusty::fetch_crypto::{binance_url, Crypto};

#[test]
fn test_binance_url() {
    assert_eq!(binance_url("BNB", "USDT"), format!("https://api.binance.com/api/v3/ticker?symbol=BNBUSDT"));
    assert_eq!(binance_url("FTM", "USDT"), format!("https://api.binance.com/api/v3/ticker?symbol=FTMUSDT"));
}

#[test]
fn binance_url_keeps_empty_and_unusual_symbols() {
    assert_eq!(binance_url("", ""), "https://api.binance.com/api/v3/ticker?symbol=");
    assert_eq!(binance_url("ÉTH", "€"), "https://api.binance.com/api/v3/ticker?symbol=ÉTH€");
    assert_ne!(binance_url("USDT", "BNB"), binance_url("BNB", "USDT"));
}

#[test]
fn default_ticker_is_empty() {
    let ticker = Crypto::default();
    assert_eq!(ticker.symbol, "");
    assert_eq!(ticker.last_price, "");
    assert_eq!(ticker.quote_volume, "");
    assert_eq!(ticker.open_time, 0);
    assert_eq!(ticker.count, 0);
}
