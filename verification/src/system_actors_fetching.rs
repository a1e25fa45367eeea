use vstd::prelude::*;
use crate::fetch_new_crypto::{COINMARKETCAP_ERROR, Daum, listed, listed_tokens};
use crate::grading_machine_actor::MessageAddress;
use crate::serialize_own_vec::SerdeVec;

verus! {

/// How an update of the stored crypto data ended.
#[derive(Debug, Clone, Copy, PartialEq, Eq)]
pub enum UpdateCryptoStatus {
    Updated,
    FailedToUpdate,
    Error,
}

/// The actor that runs the daily round of requests to CoinMarketCap.
#[derive(Debug, Clone)]
pub struct CrytpoOfTheDay {
    response: Option<bool>,
}

impl CrytpoOfTheDay {
    /// The answer the actor keeps; a fresh actor has none.
    pub closed spec fn spec_response(&self) -> Option<bool> {
        self.response
    }
}

impl Default for CrytpoOfTheDay {
    fn default() -> (actor: Self)
        ensures
            actor.spec_response() is None,
    {
        CrytpoOfTheDay { response: None }
    }
}

/// Where a daily round of requests stands.
#[derive(Debug, Clone)]
pub enum FetchPhase {
    /// Nothing asked yet.
    Idle,
    /// The latest listings were asked for.
    AwaitingNews,
    /// The listings go to the grader; their symbols are kept for the next
    /// request.
    ForwardingSymbols(SerdeVec),
    /// The contract addresses of those symbols were asked for.
    AwaitingAddresses,
    /// The recordable tokens go to the grader.
    ForwardingAddresses,
    /// The round is over.
    Finished,
    /// The round stopped on a failed request.
    Failed(COINMARKETCAP_ERROR),
}

/// What the outside world reports to a round.
#[derive(Debug, Clone)]
pub enum FetchEvent {
    /// Begin the round.
    Start,
    /// The listings arrived; these are their symbols, in order.
    NewsReceived(Vec<String>),
    /// The listings could not be had.
    NewsFailed,
    /// The grader took the listings.
    SymbolsForwarded,
    /// The map endpoint answered with these tokens.
    AddressesReceived(Vec<Daum>),
    /// The map endpoint could not be reached or read.
    AddressesFailed,
    /// The grader took the tokens.
    AddressesForwarded,
}

/// What a round asks the outside world to do next.
#[derive(Debug, Clone)]
pub enum FetchAction {
    /// Ask CoinMarketCap for the latest listings.
    FetchNews,
    /// Hand the listings just received to the grader.
    ForwardSymbols,
    /// Ask the map endpoint for the contracts of these symbols.
    FetchAddresses(SerdeVec),
    /// Hand these tokens to the grader.
    ForwardAddresses(MessageAddress),
    /// The round went through.
    ReportSuccess,
    /// Stop the round on this failure.
    Abort(COINMARKETCAP_ERROR),
    /// The event does not belong to this phase: nothing to do.
    Wait,
}

/// The place of a phase in the order of a successful round.
pub open spec fn phase_rank(phase: FetchPhase) -> int {
    match phase {
        FetchPhase::Idle => 0,
        FetchPhase::AwaitingNews => 1,
        FetchPhase::ForwardingSymbols(_) => 2,
        FetchPhase::AwaitingAddresses => 3,
        FetchPhase::ForwardingAddresses => 4,
        FetchPhase::Finished => 5,
        FetchPhase::Failed(_) => 6,
    }
}

/// A phase that no event leaves.
pub open spec fn is_final(phase: FetchPhase) -> bool {
    phase is Finished || phase is Failed
}

/// One step of the daily round: the phase after `event`, and what to do.
pub fn fetch_step(phase: FetchPhase, event: FetchEvent) -> (next: (FetchPhase, FetchAction))
    ensures
        match (phase, event) {
            (FetchPhase::Idle, FetchEvent::Start) => next.0 is AwaitingNews && next.1 is FetchNews,
            (FetchPhase::AwaitingNews, FetchEvent::NewsReceived(symbols)) => {
                &&& next.0 matches FetchPhase::ForwardingSymbols(kept) && kept.list == symbols
                &&& next.1 is ForwardSymbols
            },
            (FetchPhase::AwaitingNews, FetchEvent::NewsFailed) => {
                &&& next.0 == FetchPhase::Failed(COINMARKETCAP_ERROR::FetchNewsError)
                &&& next.1 == FetchAction::Abort(COINMARKETCAP_ERROR::FetchNewsError)
            },
            (FetchPhase::ForwardingSymbols(symbols), FetchEvent::SymbolsForwarded) => {
                &&& next.0 is AwaitingAddresses
                &&& next.1 == FetchAction::FetchAddresses(symbols)
            },
            (FetchPhase::AwaitingAddresses, FetchEvent::AddressesReceived(tokens)) => {
                &&& next.0 is ForwardingAddresses
                &&& next.1 matches FetchAction::ForwardAddresses(msg) && msg.address_list@
                    == listed(tokens@)
            },
            (FetchPhase::AwaitingAddresses, FetchEvent::AddressesFailed) => {
                &&& next.0 == FetchPhase::Failed(COINMARKETCAP_ERROR::FetchAddressError)
                &&& next.1 == FetchAction::Abort(COINMARKETCAP_ERROR::FetchAddressError)
            },
            (FetchPhase::ForwardingAddresses, FetchEvent::AddressesForwarded) => {
                next.0 is Finished && next.1 is ReportSuccess
            },
            (p, _) => next.0 == p && next.1 is Wait,
        },
        phase_rank(phase) <= phase_rank(next.0),
        is_final(phase) ==> next.0 == phase && next.1 is Wait,
{
    match (phase, event) {
        (FetchPhase::Idle, FetchEvent::Start) => (FetchPhase::AwaitingNews, FetchAction::FetchNews),
        (FetchPhase::AwaitingNews, FetchEvent::NewsReceived(symbols)) => (
            FetchPhase::ForwardingSymbols(SerdeVec { list: symbols }),
            FetchAction::ForwardSymbols,
        ),
        (FetchPhase::AwaitingNews, FetchEvent::NewsFailed) => (
            FetchPhase::Failed(COINMARKETCAP_ERROR::FetchNewsError),
            FetchAction::Abort(COINMARKETCAP_ERROR::FetchNewsError),
        ),
        (FetchPhase::ForwardingSymbols(symbols), FetchEvent::SymbolsForwarded) => (
            FetchPhase::AwaitingAddresses,
            FetchAction::FetchAddresses(symbols),
        ),
        (FetchPhase::AwaitingAddresses, FetchEvent::AddressesReceived(tokens)) => (
            FetchPhase::ForwardingAddresses,
            FetchAction::ForwardAddresses(MessageAddress { address_list: listed_tokens(tokens) }),
        ),
        (FetchPhase::AwaitingAddresses, FetchEvent::AddressesFailed) => (
            FetchPhase::Failed(COINMARKETCAP_ERROR::FetchAddressError),
            FetchAction::Abort(COINMARKETCAP_ERROR::FetchAddressError),
        ),
        (FetchPhase::ForwardingAddresses, FetchEvent::AddressesForwarded) => (
            FetchPhase::Finished,
            FetchAction::ReportSuccess,
        ),
        (p, _) => (p, FetchAction::Wait),
    }
}

} // verus!
