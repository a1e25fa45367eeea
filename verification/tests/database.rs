use letsgetbackrusty::database::{address_insert_outcome, decimal_text, AddressInsert};

#[test]
fn decimal_text_of_small_numbers() {
    assert_eq!(decimal_text(0), "0");
    assert_eq!(decimal_text(7), "7");
    assert_eq!(decimal_text(10), "10");
    assert_eq!(decimal_text(1234), "1234");
    assert_eq!(decimal_text(-1), "-1");
    assert_eq!(decimal_text(-905), "-905");
}

#[test]
fn decimal_text_matches_to_string_at_the_edges() {
    for n in [i64::MIN, i64::MIN + 1, -1000000, 99, 100, 101, 999999999, i64::MAX - 1, i64::MAX] {
        assert_eq!(decimal_text(n), n.to_string());
    }
}

#[test]
fn insert_outcomes() {
    assert_eq!(address_insert_outcome(1), AddressInsert::Added);
    assert_eq!(address_insert_outcome(0), AddressInsert::AlreadyStored);
    assert_eq!(address_insert_outcome(2), AddressInsert::Unexpected);
    assert_eq!(address_insert_outcome(usize::MAX), AddressInsert::Unexpected);
}
