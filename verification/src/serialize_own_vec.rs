use vstd::prelude::*;

verus! {

/// A list of strings that travels as one value (the symbols of a query).
#[derive(Debug, Clone)]
pub struct SerdeVec {
    pub list: Vec<String>,
}

impl SerdeVec {
    /// The list as a sequence of character sequences.
    pub open spec fn texts(&self) -> Seq<Seq<char>> {
        self.list@.map_values(|s: String| s@)
    }
}

/// `items` written one after the other with `sep` between two neighbours;
/// the empty list gives the empty text.
pub open spec fn seq_join(items: Seq<Seq<char>>, sep: Seq<char>) -> Seq<char>
    decreases items.len(),
{
    if items.len() == 0 {
        Seq::empty()
    } else if items.len() == 1 {
        items[0]
    } else {
        seq_join(items.drop_last(), sep) + sep + items.last()
    }
}

/// The texts of a list are its strings, one for one and in order.
pub proof fn lemma_texts_are_the_strings(list: SerdeVec)
    ensures
        list.texts().len() == list.list.len(),
        forall|i: int| 0 <= i < list.list.len() ==> #[trigger] list.texts()[i] == list.list[i]@,
{
}

/// Joining one more text adds the separator and that text at the end;
/// one text is joined into itself, no text into the empty text.
pub proof fn lemma_join_push(items: Seq<Seq<char>>, sep: Seq<char>, last: Seq<char>)
    ensures
        seq_join(Seq::<Seq<char>>::empty(), sep) == Seq::<char>::empty(),
        seq_join(seq![last], sep) == last,
        items.len() > 0 ==> seq_join(items.push(last), sep) == seq_join(items, sep) + sep + last,
{
    assert(items.push(last).drop_last() =~= items);
}

} // verus!
