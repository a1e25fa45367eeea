use letsgetbackrusty::fetch_new_crypto::{convert_vec_to_str, listed_tokens, Daum, Platform};
use letsgetbackrusty::serialize_own_vec::SerdeVec;

fn symbols(items: &[&str]) -> SerdeVec {
    SerdeVec { list: items.iter().map(|s| s.to_string()).collect() }
}

fn token(rank: Option<i64>, name: &str, platform: Option<(&str, &str)>) -> Daum {
    Daum {
        rank,
        name: name.to_string(),
        symbol: name.to_uppercase(),
        platform: platform.map(|(slug, addr)| Platform { slug: slug.to_string(), token_address: addr.to_string() }),
    }
}

#[test]
fn query_of_no_symbols_is_empty() {
    assert_eq!(convert_vec_to_str(&symbols(&[])), "");
}

#[test]
fn query_of_one_symbol_has_no_comma() {
    assert_eq!(convert_vec_to_str(&symbols(&["BTC"])), "BTC");
}

#[test]
fn query_joins_symbols_with_commas() {
    assert_eq!(convert_vec_to_str(&symbols(&["BTC", "ETH", "BNB"])), "BTC,ETH,BNB");
    assert_eq!(convert_vec_to_str(&symbols(&["", "X", ""])), ",X,");
}

#[test]
fn query_splits_back_into_symbols() {
    let list = ["SHIB", "PEPE", "FLOKI", "DOGE"];
    let query = convert_vec_to_str(&symbols(&list));
    let pieces: Vec<&str> = query.split(',').collect();
    assert_eq!(pieces, list.to_vec());
}

#[test]
fn listed_tokens_keeps_tokens_with_rank_and_platform() {
    let tokens = vec![
        token(Some(1), "btc", None),
        token(Some(5), "usdt", Some(("ethereum", "0xdac17f958d2ee523a2206206994597c13d831ec7"))),
        token(None, "foo", Some(("ethereum", "0x1"))),
        token(None, "bar", None),
        token(Some(9), "link", Some(("ethereum", "0x514910771af9ca656af840dff83e8264ecf986ca"))),
    ];
    let kept = listed_tokens(tokens);
    assert_eq!(kept.len(), 2);
    assert_eq!(kept[0].name, "usdt");
    assert_eq!(kept[0].rank, Some(5));
    assert_eq!(kept[1].name, "link");
    assert_eq!(kept[1].platform.as_ref().unwrap().token_address, "0x514910771af9ca656af840dff83e8264ecf986ca");
}

#[test]
fn listed_tokens_of_nothing_is_nothing() {
    assert!(listed_tokens(Vec::new()).is_empty());
    assert!(listed_tokens(vec![token(None, "a", None), token(Some(2), "b", None)]).is_empty());
}
