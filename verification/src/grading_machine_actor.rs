use vstd::prelude::*;
use crate::database::AddressCrypto;
use crate::fetch_new_crypto::{Daum, is_listed, all_listed, listed};

verus! {

/// The tokens that the fetcher hands to the grader.
#[derive(Debug, Clone)]
pub struct MessageAddress {
    pub address_list: Vec<Daum>,
}

/// `record` holds the rank, names and platform of `token`.
pub open spec fn records_token(record: AddressCrypto, token: Daum) -> bool {
    &&& token.rank == Some(record.rank)
    &&& record.name == token.name
    &&& record.symbol == token.symbol
    &&& token.platform matches Some(platform) && {
        &&& record.slug == platform.slug
        &&& record.token_address == platform.token_address
    }
}

/// A record holds a token exactly when its rank, name, symbol, slug and
/// token address are those of the token, copied unchanged.
pub proof fn lemma_record_copies_token(record: AddressCrypto, token: Daum)
    ensures
        records_token(record, token) <==> {
            &&& token.rank == Some(record.rank)
            &&& record.name == token.name
            &&& record.symbol == token.symbol
            &&& token.platform is Some
            &&& record.slug == token.platform->0.slug
            &&& record.token_address == token.platform->0.token_address
        },
        records_token(record, token) ==> {
            &&& record.name@ == token.name@
            &&& record.symbol@ == token.symbol@
            &&& record.slug@ == token.platform->0.slug@
            &&& record.token_address@ == token.platform->0.token_address@
        },
{
}

/// The database record of a token that has a rank and a platform.
pub fn address_crypto_of(token: Daum) -> (record: AddressCrypto)
    requires
        is_listed(token),
    ensures
        records_token(record, token),
        token.rank == Some(record.rank),
        record.name@ == token.name@,
        record.symbol@ == token.symbol@,
        record.slug@ == token.platform->0.slug@,
        record.token_address@ == token.platform->0.token_address@,
{
    let Daum { rank, name, symbol, platform } = token;
    let platform = platform.unwrap();
    AddressCrypto {
        rank: rank.unwrap(),
        name,
        symbol,
        slug: platform.slug,
        token_address: platform.token_address,
    }
}

/// The database records of the tokens of `msg`, in their order, up to the
/// first token that has no rank or no platform; the flag tells whether the
/// whole message was recorded (no such token was met).
pub fn address_records(msg: MessageAddress) -> (out: (Vec<AddressCrypto>, bool))
    ensures
        out.1 == all_listed(msg.address_list@),
        out.1 ==> out.0.len() == msg.address_list.len(),
        !out.1 ==> out.0.len() < msg.address_list.len() && !is_listed(
            msg.address_list[out.0.len() as int],
        ),
        all_listed(msg.address_list@.take(out.0.len() as int)),
        forall|i: int|
            0 <= i < out.0.len() ==> records_token(#[trigger] out.0[i], msg.address_list[i]),
        (forall|i: int|
            0 <= i < msg.address_list.len() ==> (#[trigger] msg.address_list[i]).rank is Some
                && msg.address_list[i].platform is Some) ==> out.1 && out.0.len()
            == msg.address_list.len(),
        !out.1 ==> (msg.address_list[out.0.len() as int].rank is None
            || msg.address_list[out.0.len() as int].platform is None),
        forall|i: int|
            0 <= i < out.0.len() ==> {
                &&& msg.address_list[i].rank == Some((#[trigger] out.0[i]).rank)
                &&& out.0[i].token_address@ == msg.address_list[i].platform->0.token_address@
                &&& out.0[i].slug@ == msg.address_list[i].platform->0.slug@
                &&& out.0[i].name@ == msg.address_list[i].name@
                &&& out.0[i].symbol@ == msg.address_list[i].symbol@
            },
{
    let ghost tokens = msg.address_list@;
    let mut records: Vec<AddressCrypto> = Vec::new();
    let mut whole = true;
    for token in it: msg.address_list.into_iter()
        invariant
            it.seq() == tokens,
            whole ==> records.len() == it.index(),
            !whole ==> records.len() < it.index() && !is_listed(tokens[records.len() as int]),
            records.len() <= it.index(),
            all_listed(tokens.take(records.len() as int)),
            forall|i: int| 0 <= i < records.len() ==> records_token(#[trigger] records[i], tokens[i]),
    {
        if whole {
            if token.rank.is_some() && token.platform.is_some() {
                proof {
                    let n = records.len() as int;
                    assert forall|i: int| 0 <= i < n + 1 implies is_listed(
                        #[trigger] tokens.take(n + 1)[i],
                    ) by {
                        if i < n {
                            assert(tokens.take(n + 1)[i] == tokens.take(n)[i]);
                        }
                    }
                }
                records.push(address_crypto_of(token));
            } else {
                whole = false;
            }
        }
    }
    proof {
        assert forall|i: int| 0 <= i < records.len() implies {
            &&& tokens[i].rank == Some((#[trigger] records[i]).rank)
            &&& records[i].token_address@ == tokens[i].platform->0.token_address@
            &&& records[i].slug@ == tokens[i].platform->0.slug@
            &&& records[i].name@ == tokens[i].name@
            &&& records[i].symbol@ == tokens[i].symbol@
        } by {
            lemma_record_copies_token(records[i], tokens[i]);
        }
        if whole {
            assert(tokens.take(tokens.len() as int) =~= tokens);
        } else {
            assert(!is_listed(tokens[records.len() as int]));
        }
    }
    (records, whole)
}

/// Every token that survives the fetcher's filter can be turned into a
/// database record: a message from the fetcher is recorded whole, and the
/// grader never meets a token without a rank or a platform.
pub proof fn lemma_forwarded_tokens_are_recordable(tokens: Seq<Daum>)
    ensures
        all_listed(listed(tokens)),
{
    assert forall|i: int| 0 <= i < listed(tokens).len() implies is_listed(
        #[trigger] listed(tokens)[i],
    ) by {
        tokens.lemma_filter_pred(|t: Daum| is_listed(t), i);
    }
}

} // verus!
