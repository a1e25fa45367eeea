use letsgetbackrusty::fetch_new_crypto::{convert_vec_to_str, Daum, Platform, COINMARKETCAP_ERROR};
use letsgetbackrusty::system_actors_fetching::{fetch_step, CrytpoOfTheDay, FetchAction, FetchEvent, FetchPhase};

fn token(rank: Option<i64>, name: &str, platform: bool) -> Daum {
    Daum {
        rank,
        name: name.to_string(),
        symbol: name.to_uppercase(),
        platform: if platform {
            Some(Platform { slug: "ethereum".to_string(), token_address: format!("0x{}", name) })
        } else {
            None
        },
    }
}

#[test]
fn a_round_that_goes_through() {
    let (phase, action) = fetch_step(FetchPhase::Idle, FetchEvent::Start);
    assert!(matches!(phase, FetchPhase::AwaitingNews));
    assert!(matches!(action, FetchAction::FetchNews));

    let (phase, action) =
        fetch_step(phase, FetchEvent::NewsReceived(vec!["BTC".to_string(), "UNI".to_string()]));
    assert!(matches!(action, FetchAction::ForwardSymbols));

    let (phase, action) = fetch_step(phase, FetchEvent::SymbolsForwarded);
    assert!(matches!(phase, FetchPhase::AwaitingAddresses));
    match action {
        FetchAction::FetchAddresses(symbols) => assert_eq!(convert_vec_to_str(&symbols), "BTC,UNI"),
        other => panic!("unexpected action {:?}", other),
    }

    let (phase, action) = fetch_step(
        phase,
        FetchEvent::AddressesReceived(vec![token(Some(1), "btc", false), token(Some(20), "uni", true)]),
    );
    assert!(matches!(phase, FetchPhase::ForwardingAddresses));
    match action {
        FetchAction::ForwardAddresses(msg) => {
            assert_eq!(msg.address_list.len(), 1);
            assert_eq!(msg.address_list[0].name, "uni");
        }
        other => panic!("unexpected action {:?}", other),
    }

    let (phase, action) = fetch_step(phase, FetchEvent::AddressesForwarded);
    assert!(matches!(phase, FetchPhase::Finished));
    assert!(matches!(action, FetchAction::ReportSuccess));
}

#[test]
fn failed_news_stops_the_round() {
    let (phase, action) = fetch_step(FetchPhase::AwaitingNews, FetchEvent::NewsFailed);
    assert!(matches!(phase, FetchPhase::Failed(COINMARKETCAP_ERROR::FetchNewsError)));
    assert!(matches!(action, FetchAction::Abort(COINMARKETCAP_ERROR::FetchNewsError)));
    let (phase, action) = fetch_step(phase, FetchEvent::Start);
    assert!(matches!(phase, FetchPhase::Failed(COINMARKETCAP_ERROR::FetchNewsError)));
    assert!(matches!(action, FetchAction::Wait));
}

#[test]
fn failed_addresses_stop_the_round() {
    let (phase, action) = fetch_step(FetchPhase::AwaitingAddresses, FetchEvent::AddressesFailed);
    assert!(matches!(phase, FetchPhase::Failed(COINMARKETCAP_ERROR::FetchAddressError)));
    assert!(matches!(action, FetchAction::Abort(COINMARKETCAP_ERROR::FetchAddressError)));
}

#[test]
fn out_of_turn_events_change_nothing() {
    let (phase, action) = fetch_step(FetchPhase::Idle, FetchEvent::SymbolsForwarded);
    assert!(matches!(phase, FetchPhase::Idle));
    assert!(matches!(action, FetchAction::Wait));
    let (phase, action) = fetch_step(FetchPhase::AwaitingNews, FetchEvent::AddressesReceived(Vec::new()));
    assert!(matches!(phase, FetchPhase::AwaitingNews));
    assert!(matches!(action, FetchAction::Wait));
    let (phase, action) = fetch_step(FetchPhase::Finished, FetchEvent::Start);
    assert!(matches!(phase, FetchPhase::Finished));
    assert!(matches!(action, FetchAction::Wait));
}

#[test]
fn fresh_fetcher_has_no_response() {
    let actor = CrytpoOfTheDay::default();
    assert!(format!("{:?}", actor).contains("None"));
}
