use vstd::prelude::*;

verus! {

/// A token address as it is handed to the database.
#[derive(Debug, Clone)]
pub struct AddressCrypto {
    pub rank: i64,
    pub name: String,
    pub symbol: String,
    pub slug: String,
    pub token_address: String,
}

/// The character of the decimal digit `d`.
pub open spec fn digit_char(d: nat) -> char
    recommends
        d < 10,
{
    if d == 0 {
        '0'
    } else if d == 1 {
        '1'
    } else if d == 2 {
        '2'
    } else if d == 3 {
        '3'
    } else if d == 4 {
        '4'
    } else if d == 5 {
        '5'
    } else if d == 6 {
        '6'
    } else if d == 7 {
        '7'
    } else if d == 8 {
        '8'
    } else {
        '9'
    }
}

/// The decimal digits of `n`, most significant first, without leading zeros
/// (zero is written "0").
pub open spec fn decimal_digits(n: nat) -> Seq<char>
    decreases n,
{
    if n < 10 {
        seq![digit_char(n)]
    } else {
        decimal_digits(n / 10) + seq![digit_char(n % 10)]
    }
}

/// The decimal writing of the integer `n`, with a leading '-' when it is
/// negative.
pub open spec fn decimal(n: int) -> Seq<char> {
    if n < 0 {
        seq!['-'] + decimal_digits((-n) as nat)
    } else {
        decimal_digits(n as nat)
    }
}

/// The number that a text of decimal digits stands for, read most
/// significant digit first (each character counts by its code minus that of
/// '0').
pub open spec fn digits_value(s: Seq<char>) -> int
    decreases s.len(),
{
    if s.len() == 0 {
        0
    } else {
        10 * digits_value(s.drop_last()) + ((s.last() as int) - ('0' as int))
    }
}

/// The number that a decimal text stands for: a leading '-' makes it
/// negative.
pub open spec fn text_value(s: Seq<char>) -> int {
    if s.len() > 0 && s[0] == '-' {
        -digits_value(s.drop_first())
    } else {
        digits_value(s)
    }
}

/// Every character of `s` is one of '0'..'9', there is at least one, and
/// the first is not '0' unless it is the only one.
pub open spec fn plain_digits(s: Seq<char>) -> bool {
    &&& s.len() > 0
    &&& forall|i: int| 0 <= i < s.len() ==> ('0' as int) <= (#[trigger] s[i] as int) <= ('9' as int)
    &&& s.len() > 1 ==> s[0] != '0'
}

proof fn lemma_digit_char(d: nat)
    requires
        d < 10,
    ensures
        (digit_char(d) as int) - ('0' as int) == d,
        d != 0 ==> digit_char(d) != '0',
        digit_char(d) != '-',
{
    assert('0' as int == 48);
    assert('9' as int == 57);
    assert('-' as int == 45);
    if d == 1 {
        assert('1' as int == 49);
    } else if d == 2 {
        assert('2' as int == 50);
    } else if d == 3 {
        assert('3' as int == 51);
    } else if d == 4 {
        assert('4' as int == 52);
    } else if d == 5 {
        assert('5' as int == 53);
    } else if d == 6 {
        assert('6' as int == 54);
    } else if d == 7 {
        assert('7' as int == 55);
    } else if d == 8 {
        assert('8' as int == 56);
    }
}

proof fn lemma_digits_len(n: nat)
    ensures
        decimal_digits(n).len() >= 1,
        n >= 10 ==> decimal_digits(n).len() >= 2,
    decreases n,
{
    if n >= 10 {
        lemma_digits_len(n / 10);
    }
}

proof fn lemma_digits_read_back(n: nat)
    ensures
        digits_value(decimal_digits(n)) == n,
        plain_digits(decimal_digits(n)),
        decimal_digits(n)[0] != '-',
    decreases n,
{
    lemma_digit_char(n % 10);
    if n >= 10 {
        lemma_digits_read_back(n / 10);
        lemma_digits_len(n / 10);
        let s = decimal_digits(n);
        assert(s.drop_last() =~= decimal_digits(n / 10));
        assert(s.last() == digit_char(n % 10));
        assert(digits_value(s) == 10 * digits_value(s.drop_last()) + ((s.last() as int) - (
        '0' as int)));
        assert(n == 10 * (n / 10) + n % 10);
        assert forall|i: int| 0 <= i < s.len() implies ('0' as int) <= (#[trigger] s[i] as int)
            <= ('9' as int) by {
            if i < s.len() - 1 {
                assert(s[i] == decimal_digits(n / 10)[i]);
            }
        }
        assert(s[0] == decimal_digits(n / 10)[0]);
        if n / 10 < 10 {
            lemma_digit_char(n / 10);
        }
    } else {
        let s = decimal_digits(n);
        assert(s.drop_last() =~= Seq::<char>::empty());
        assert(s.last() == digit_char(n));
        assert(digits_value(s) == 10 * digits_value(s.drop_last()) + ((s.last() as int) - (
        '0' as int)));
    }
}

/// The decimal writing of a number reads back as that number: its digits
/// are plain decimal digits without leading zeros, preceded by '-' exactly
/// when the number is negative.
pub proof fn lemma_decimal_reads_back(n: int)
    ensures
        text_value(decimal(n)) == n,
        n < 0 ==> decimal(n)[0] == '-' && plain_digits(decimal(n).drop_first()),
        n >= 0 ==> plain_digits(decimal(n)),
{
    if n < 0 {
        lemma_digits_read_back((-n) as nat);
        assert(decimal(n).drop_first() =~= decimal_digits((-n) as nat));
    } else {
        lemma_digits_read_back(n as nat);
    }
}

fn digit_text(d: u64) -> (text: &'static str)
    requires
        d < 10,
    ensures
        text@ == seq![digit_char(d as nat)],
{
    if d == 0 {
        proof { reveal_strlit("0"); }
        "0"
    } else if d == 1 {
        proof { reveal_strlit("1"); }
        "1"
    } else if d == 2 {
        proof { reveal_strlit("2"); }
        "2"
    } else if d == 3 {
        proof { reveal_strlit("3"); }
        "3"
    } else if d == 4 {
        proof { reveal_strlit("4"); }
        "4"
    } else if d == 5 {
        proof { reveal_strlit("5"); }
        "5"
    } else if d == 6 {
        proof { reveal_strlit("6"); }
        "6"
    } else if d == 7 {
        proof { reveal_strlit("7"); }
        "7"
    } else if d == 8 {
        proof { reveal_strlit("8"); }
        "8"
    } else {
        proof { reveal_strlit("9"); }
        "9"
    }
}

fn append_decimal_digits(text: &mut String, n: u64)
    ensures
        final(text)@ == old(text)@ + decimal_digits(n as nat),
    decreases n,
{
    if n >= 10 {
        append_decimal_digits(text, n / 10);
    }
    text.append(digit_text(n % 10));
    proof {
        assert(old(text)@ + decimal_digits(n as nat) =~= text@);
    }
}

/// The decimal text of `n`, as a column of a database row holds it.
pub fn decimal_text(n: i64) -> (text: String)
    ensures
        text@ == decimal(n as int),
        text_value(text@) == n,
        n < 0 ==> text@[0] == '-' && plain_digits(text@.drop_first()),
        n >= 0 ==> plain_digits(text@),
{
    let mut text = String::new();
    let magnitude: u64 = if n < 0 {
        text.append("-");
        proof { reveal_strlit("-"); }
        ((-(n + 1)) as u64) + 1
    } else {
        n as u64
    };
    append_decimal_digits(&mut text, magnitude);
    proof {
        assert(text@ =~= decimal(n as int));
        lemma_decimal_reads_back(n as int);
    }
    text
}

/// What the insertion of a token address into the table did.
#[derive(Debug, Clone, Copy, PartialEq, Eq)]
pub enum AddressInsert {
    /// The row is new.
    Added,
    /// A row with the same token address was there already.
    AlreadyStored,
    /// The database reports a number of rows that one insertion cannot touch.
    Unexpected,
}

/// Reads the number of rows that an insertion of one token address touched.
pub fn address_insert_outcome(rows: usize) -> (outcome: AddressInsert)
    ensures
        rows == 1 ==> outcome is Added,
        rows == 0 ==> outcome is AlreadyStored,
        rows > 1 ==> outcome is Unexpected,
{
    if rows == 1 {
        AddressInsert::Added
    } else if rows == 0 {
        AddressInsert::AlreadyStored
    } else {
        AddressInsert::Unexpected
    }
}

} // verus!
