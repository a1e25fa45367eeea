use vstd::prelude::*;
use crate::serialize_own_vec::{SerdeVec, seq_join, lemma_texts_are_the_strings, lemma_join_push};

verus! {

/// The two ways a round of requests to CoinMarketCap can fail.
#[allow(non_camel_case_types)]
#[derive(Debug, Clone, Copy, PartialEq, Eq)]
pub enum COINMARKETCAP_ERROR {
    FetchNewsError,
    FetchAddressError,
}

/// The answer of the CoinMarketCap map endpoint.
#[derive(Debug, Clone)]
pub struct Address {
    pub data: Vec<Daum>,
}

/// One token of the map endpoint: its rank and, for a token that lives on
/// another chain, the platform that holds its contract.
#[derive(Debug, Clone)]
pub struct Daum {
    pub rank: Option<i64>,
    pub name: String,
    pub symbol: String,
    pub platform: Option<Platform>,
}

/// Where a token's contract lives.
#[derive(Debug, Clone)]
pub struct Platform {
    pub slug: String,
    pub token_address: String,
}

/// The separator between two symbols of a query.
pub open spec fn symbol_separator() -> Seq<char> {
    ","@
}

/// The symbols of `list` joined by commas, as the `symbol` parameter of
/// the map endpoint wants them.
pub fn convert_vec_to_str(list: &SerdeVec) -> (query: String)
    ensures
        query@ == seq_join(list.texts(), symbol_separator()),
        list.list.len() > 0 && (forall|i: int|
            0 <= i < list.list.len() ==> !(#[trigger] list.list[i]@).contains(','))
            ==> split_on(query@, ',').len() == list.list.len() && forall|i: int|
            0 <= i < list.list.len() ==> #[trigger] split_on(query@, ',')[i] == list.list[i]@,
{
    let n = list.list.len();
    let mut query = String::new();
    let mut i: usize = 0;
    while i < n
        invariant
            n == list.list.len(),
            i <= n,
            query@ == seq_join(list.texts().take(i as int), symbol_separator()),
        decreases n - i,
    {
        if i > 0 {
            query.append(",");
        }
        query.append(list.list[i].as_str());
        proof {
            let items = list.texts();
            assert(items.take(i + 1).drop_last() =~= items.take(i as int));
            if i == 0 {
                assert(items.take(1) =~= seq![items[0]]);
            }
        }
        i = i + 1;
    }
    proof {
        assert(list.texts().take(n as int) =~= list.texts());
        if list.list.len() > 0 && (forall|i: int|
            0 <= i < list.list.len() ==> !(#[trigger] list.list[i]@).contains(',')) {
            lemma_query_reads_back_as_list(*list);
        }
    }
    query
}

/// The pieces of `s` between the occurrences of `sep`, in order: one more
/// piece than there are separators (the empty text gives one empty piece).
pub open spec fn split_on(s: Seq<char>, sep: char) -> Seq<Seq<char>>
    decreases s.len(),
{
    if s.len() == 0 {
        seq![Seq::<char>::empty()]
    } else {
        let before = split_on(s.drop_last(), sep);
        if s.last() == sep {
            before.push(Seq::<char>::empty())
        } else {
            before.update(before.len() - 1, before.last().push(s.last()))
        }
    }
}

proof fn lemma_split_without_sep(s: Seq<char>, sep: char)
    requires
        !s.contains(sep),
    ensures
        split_on(s, sep) == seq![s],
    decreases s.len(),
{
    if s.len() > 0 {
        assert(!s.drop_last().contains(sep)) by {
            if s.drop_last().contains(sep) {
                let k = choose|k: int| 0 <= k < s.drop_last().len() && s.drop_last()[k] == sep;
                assert(s[k] == sep);
            }
        }
        lemma_split_without_sep(s.drop_last(), sep);
        assert(s.last() != sep) by {
            assert(s[s.len() - 1] == s.last());
        }
        assert(s.drop_last().push(s.last()) =~= s);
        let before = split_on(s.drop_last(), sep);
        assert(before.update(before.len() - 1, before.last().push(s.last())) =~= seq![s]);
    } else {
        assert(s =~= Seq::<char>::empty());
    }
}

proof fn lemma_split_after_sep(a: Seq<char>, b: Seq<char>, sep: char)
    requires
        !b.contains(sep),
    ensures
        split_on(a + seq![sep] + b, sep) == split_on(a, sep) + seq![b],
    decreases b.len(),
{
    let s = a + seq![sep] + b;
    if b.len() == 0 {
        assert(s.drop_last() =~= a);
        assert(s.last() == sep);
        assert(b =~= Seq::<char>::empty());
        assert(split_on(a, sep).push(Seq::<char>::empty()) =~= split_on(a, sep) + seq![b]);
    } else {
        assert(!b.drop_last().contains(sep)) by {
            if b.drop_last().contains(sep) {
                let k = choose|k: int| 0 <= k < b.drop_last().len() && b.drop_last()[k] == sep;
                assert(b[k] == sep);
            }
        }
        lemma_split_after_sep(a, b.drop_last(), sep);
        assert(s.drop_last() =~= a + seq![sep] + b.drop_last());
        assert(s.last() == b.last());
        assert(b.last() != sep) by {
            assert(b[b.len() - 1] == b.last());
        }
        let before = split_on(s.drop_last(), sep);
        assert(before =~= split_on(a, sep) + seq![b.drop_last()]);
        assert(b.drop_last().push(b.last()) =~= b);
        assert(before.update(before.len() - 1, before.last().push(s.last())) =~= split_on(a, sep)
            + seq![b]);
    }
}

/// A query of symbols that hold no comma reads back, split at its commas,
/// as exactly those symbols in their order: the map endpoint gets the list
/// that was sent.
pub proof fn lemma_query_splits_into_symbols(symbols: Seq<Seq<char>>)
    requires
        symbols.len() > 0,
        forall|i: int| 0 <= i < symbols.len() ==> !(#[trigger] symbols[i]).contains(','),
    ensures
        split_on(seq_join(symbols, symbol_separator()), ',') == symbols,
    decreases symbols.len(),
{
    reveal_strlit(",");
    assert(symbol_separator() =~= seq![',']);
    if symbols.len() == 1 {
        lemma_split_without_sep(symbols[0], ',');
        assert(seq![symbols[0]] =~= symbols);
    } else {
        let init = symbols.drop_last();
        assert forall|i: int| 0 <= i < init.len() implies !(#[trigger] init[i]).contains(',') by {
            assert(init[i] == symbols[i]);
        }
        lemma_query_splits_into_symbols(init);
        assert(!symbols.last().contains(',')) by {
            assert(symbols[symbols.len() - 1] == symbols.last());
        }
        lemma_split_after_sep(seq_join(init, symbol_separator()), symbols.last(), ',');
        assert(init + seq![symbols.last()] =~= symbols);
    }
}

proof fn lemma_split_nonempty(s: Seq<char>, sep: char)
    ensures
        split_on(s, sep).len() >= 1,
    decreases s.len(),
{
    if s.len() > 0 {
        lemma_split_nonempty(s.drop_last(), sep);
    }
}

/// The pieces of a split hold no separator, and joined again with the
/// separator they give back the text that was split.
pub proof fn lemma_split_pieces(s: Seq<char>, sep: char)
    ensures
        forall|k: int| 0 <= k < split_on(s, sep).len() ==> !(#[trigger] split_on(s, sep)[k]).contains(sep),
        seq_join(split_on(s, sep), seq![sep]) == s,
    decreases s.len(),
{
    lemma_join_push(Seq::<Seq<char>>::empty(), seq![sep], Seq::<char>::empty());
    if s.len() == 0 {
        assert(s =~= Seq::<char>::empty());
        assert forall|k: int| 0 <= k < split_on(s, sep).len() implies !(#[trigger] split_on(s, sep)[k]).contains(sep) by {
            assert(split_on(s, sep)[k] =~= Seq::<char>::empty());
        }
    } else {
        let before = split_on(s.drop_last(), sep);
        lemma_split_pieces(s.drop_last(), sep);
        lemma_split_nonempty(s.drop_last(), sep);
        let l = s.last();
        let n = before.len();
        if l == sep {
            let after = before.push(Seq::<char>::empty());
            lemma_join_push(before, seq![sep], Seq::<char>::empty());
            assert(seq_join(after, seq![sep]) =~= s);
            assert forall|k: int| 0 <= k < after.len() implies !(#[trigger] after[k]).contains(sep) by {
                if k < n {
                    assert(after[k] == before[k]);
                } else {
                    assert(after[k] =~= Seq::<char>::empty());
                }
            }
        } else {
            let piece = before.last().push(l);
            let after = before.update(n - 1, piece);
            assert(after.drop_last() =~= before.drop_last());
            assert(after =~= before.drop_last().push(piece));
            assert(before =~= before.drop_last().push(before.last()));
            lemma_join_push(before.drop_last(), seq![sep], piece);
            lemma_join_push(before.drop_last(), seq![sep], before.last());
            if n == 1 {
                assert(before =~= seq![before.last()]);
                assert(after =~= seq![piece]);
                assert(seq_join(after, seq![sep]) =~= s);
            } else {
                let head = seq_join(before.drop_last(), seq![sep]);
                assert(before.drop_last().len() > 0);
                assert(seq_join(after, seq![sep]) == head + seq![sep] + piece);
                assert(seq_join(before, seq![sep]) == head + seq![sep] + before.last());
                assert(s =~= s.drop_last().push(l));
                assert(seq_join(after, seq![sep]) =~= s);
            }
            assert forall|k: int| 0 <= k < after.len() implies !(#[trigger] after[k]).contains(sep) by {
                if k < n - 1 {
                    assert(after[k] == before[k]);
                } else {
                    assert(!before[n - 1].contains(sep));
                    if piece.contains(sep) {
                        let j = choose|j: int| 0 <= j < piece.len() && piece[j] == sep;
                        if j < piece.len() - 1 {
                            assert(before.last()[j] == sep);
                        }
                    }
                }
            }
        }
    }
}

/// The query of a list whose strings hold no comma is made of commas and
/// those strings: split at its commas it gives back every string of the
/// list, in order, one piece for each.
pub proof fn lemma_query_reads_back_as_list(list: SerdeVec)
    requires
        list.list.len() > 0,
        forall|i: int| 0 <= i < list.list.len() ==> !(#[trigger] list.list[i]@).contains(','),
    ensures
        symbol_separator() == seq![','],
        split_on(seq_join(list.texts(), symbol_separator()), ',').len() == list.list.len(),
        forall|i: int|
            0 <= i < list.list.len() ==> #[trigger] split_on(
                seq_join(list.texts(), symbol_separator()),
                ',',
            )[i] == list.list[i]@,
{
    reveal_strlit(",");
    assert(symbol_separator() =~= seq![',']);
    lemma_texts_are_the_strings(list);
    assert forall|i: int| 0 <= i < list.texts().len() implies !(#[trigger] list.texts()[i]).contains(',') by {
        assert(list.texts()[i] == list.list[i]@);
    }
    lemma_query_splits_into_symbols(list.texts());
}

/// A token can be recorded when both its rank and its platform are known.
pub open spec fn is_listed(token: Daum) -> bool {
    token.rank is Some && token.platform is Some
}

/// Every token of `tokens` can be recorded.
pub open spec fn all_listed(tokens: Seq<Daum>) -> bool {
    forall|i: int| 0 <= i < tokens.len() ==> is_listed(#[trigger] tokens[i])
}

/// The tokens of `tokens` that can be recorded, in their order.
pub open spec fn listed(tokens: Seq<Daum>) -> Seq<Daum> {
    tokens.filter(|t: Daum| is_listed(t))
}

/// How many tokens of `tokens` have both a rank and a platform.
pub open spec fn count_with_rank_and_platform(tokens: Seq<Daum>) -> nat
    decreases tokens.len(),
{
    if tokens.len() == 0 {
        0
    } else {
        count_with_rank_and_platform(tokens.drop_last()) + if tokens.last().rank is Some
            && tokens.last().platform is Some {
            1nat
        } else {
            0nat
        }
    }
}

/// A token is recordable exactly when it has a rank and a platform, and a
/// list is recordable exactly when each of its tokens is.
pub proof fn lemma_listed_means_rank_and_platform(token: Daum, tokens: Seq<Daum>)
    ensures
        is_listed(token) <==> (token.rank is Some && token.platform is Some),
        all_listed(tokens) <==> forall|i: int|
            0 <= i < tokens.len() ==> (#[trigger] tokens[i]).rank is Some && tokens[i].platform
                is Some,
{
}

/// One token is kept exactly when it has a rank and a platform.
pub proof fn lemma_listed_single(token: Daum)
    ensures
        listed(seq![token]) == (if token.rank is Some && token.platform is Some {
            seq![token]
        } else {
            Seq::<Daum>::empty()
        }),
{
    reveal(Seq::filter);
    assert(seq![token].drop_last() =~= Seq::<Daum>::empty());
    assert(seq![token].last() == token);
    assert(Seq::<Daum>::empty().filter(|t: Daum| is_listed(t)) =~= Seq::<Daum>::empty());
    assert(Seq::<Daum>::empty().push(token) =~= seq![token]);
}

/// Filtering two lists one after the other keeps what filtering each keeps,
/// in the same order.
pub proof fn lemma_listed_concat(a: Seq<Daum>, b: Seq<Daum>)
    ensures
        listed(a + b) == listed(a) + listed(b),
{
    Seq::<Daum>::filter_distributes_over_add(a, b, |t: Daum| is_listed(t));
}

/// Every token that has a rank and a platform is kept, every kept token
/// has both, and as many tokens are kept as have both.
pub proof fn lemma_listed_keeps_exactly_the_recordable(tokens: Seq<Daum>)
    ensures
        forall|i: int|
            0 <= i < tokens.len() && (#[trigger] tokens[i]).rank is Some && tokens[i].platform
                is Some ==> listed(tokens).contains(tokens[i]),
        forall|j: int|
            0 <= j < listed(tokens).len() ==> (#[trigger] listed(tokens)[j]).rank is Some
                && listed(tokens)[j].platform is Some,
        listed(tokens).len() == count_with_rank_and_platform(tokens),
    decreases tokens.len(),
{
    assert forall|i: int|
        0 <= i < tokens.len() && (#[trigger] tokens[i]).rank is Some && tokens[i].platform
            is Some implies listed(tokens).contains(tokens[i]) by {
        tokens.lemma_filter_contains(|t: Daum| is_listed(t), i);
    }
    assert forall|j: int| 0 <= j < listed(tokens).len() implies (#[trigger] listed(
        tokens,
    )[j]).rank is Some && listed(tokens)[j].platform is Some by {
        tokens.lemma_filter_pred(|t: Daum| is_listed(t), j);
    }
    if tokens.len() > 0 {
        lemma_listed_keeps_exactly_the_recordable(tokens.drop_last());
        reveal(Seq::filter);
    } else {
        reveal(Seq::filter);
    }
}

/// Keeps the tokens that have a platform and a rank, in their order.
pub fn listed_tokens(tokens: Vec<Daum>) -> (kept: Vec<Daum>)
    ensures
        kept@ == listed(tokens@),
        forall|i: int|
            0 <= i < tokens.len() && (#[trigger] tokens@[i]).rank is Some && tokens@[i].platform
                is Some ==> kept@.contains(tokens@[i]),
        forall|j: int|
            0 <= j < kept.len() ==> (#[trigger] kept@[j]).rank is Some && kept@[j].platform is Some,
        kept.len() == count_with_rank_and_platform(tokens@),
{
    let ghost all = tokens@;
    let mut kept: Vec<Daum> = Vec::new();
    for token in it: tokens.into_iter()
        invariant
            it.seq() == all,
            kept@ == listed(all.take(it.index())),
    {
        let ghost i = it.index();
        proof {
            reveal(Seq::filter);
            assert(all.take(i + 1).drop_last() =~= all.take(i));
            assert(all.take(i + 1).last() == token);
        }
        if token.platform.is_some() && token.rank.is_some() {
            kept.push(token);
        }
    }
    proof {
        assert(all.take(all.len() as int) =~= all);
        lemma_listed_keeps_exactly_the_recordable(all);
    }
    kept
}

} // verus!
