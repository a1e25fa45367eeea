use letsgetbackrusty::fetch_new_crypto::{listed_tokens, Daum, Platform};
use letsgetbackrusty::grading_machine_actor::{address_crypto_of, address_records, MessageAddress};

fn token(rank: Option<i64>, name: &str, platform: Option<(&str, &str)>) -> Daum {
    Daum {
        rank,
        name: name.to_string(),
        symbol: name.to_uppercase(),
        platform: platform.map(|(slug, addr)| Platform { slug: slug.to_string(), token_address: addr.to_string() }),
    }
}

#[test]
fn record_of_a_listed_token() {
    let record = address_crypto_of(token(Some(3), "uni", Some(("ethereum", "0x1f98"))));
    assert_eq!(record.rank, 3);
    assert_eq!(record.name, "uni");
    assert_eq!(record.symbol, "UNI");
    assert_eq!(record.slug, "ethereum");
    assert_eq!(record.token_address, "0x1f98");
}

#[test]
fn records_follow_the_tokens() {
    let msg = MessageAddress {
        address_list: vec![
            token(Some(10), "aave", Some(("ethereum", "0xaave"))),
            token(Some(-4), "cake", Some(("bnb", "0xcake"))),
        ],
    };
    let (records, whole) = address_records(msg);
    assert!(whole);
    assert_eq!(records.len(), 2);
    assert_eq!(records[0].name, "aave");
    assert_eq!(records[0].rank, 10);
    assert_eq!(records[1].slug, "bnb");
    assert_eq!(records[1].rank, -4);
    assert_eq!(records[1].token_address, "0xcake");
}

#[test]
fn filtered_tokens_can_always_be_recorded() {
    let tokens = vec![
        token(None, "x", Some(("s", "a"))),
        token(Some(1), "y", None),
        token(Some(2), "z", Some(("s", "b"))),
    ];
    let (records, whole) = address_records(MessageAddress { address_list: listed_tokens(tokens) });
    assert!(whole);
    assert_eq!(records.len(), 1);
    assert_eq!(records[0].name, "z");
}

#[test]
fn no_tokens_no_records() {
    let (records, whole) = address_records(MessageAddress { address_list: Vec::new() });
    assert!(records.is_empty());
    assert!(whole);
}

#[test]
fn records_stop_at_the_first_unlisted_token() {
    let msg = MessageAddress {
        address_list: vec![
            token(Some(1), "a", Some(("ethereum", "0xa"))),
            token(Some(2), "b", None),
            token(Some(3), "c", Some(("ethereum", "0xc"))),
        ],
    };
    let (records, whole) = address_records(msg);
    assert!(!whole);
    assert_eq!(records.len(), 1);
    assert_eq!(records[0].name, "a");

    let (records, whole) = address_records(MessageAddress { address_list: vec![token(None, "d", Some(("s", "0xd")))] });
    assert!(!whole);
    assert!(records.is_empty());
}
