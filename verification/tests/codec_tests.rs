use form4::model::TransactionCode;

#[test]
fn codes_two_letters() {
    let r = TransactionCode::from_str("PZ").unwrap();
    assert_eq!(r, vec![TransactionCode::P, TransactionCode::Z]);
}

#[test]
fn codes_one_bad_letter_discards_all() {
    assert_eq!(TransactionCode::from_str("PZ?"), None);
}

#[test]
fn codes_lowercase_is_unknown() {
    assert_eq!(TransactionCode::from_str("p"), None);
}

#[test]
fn codes_empty_string_is_empty_list() {
    assert_eq!(TransactionCode::from_str(""), Some(vec![]));
}

#[test]
fn codes_whole_alphabet() {
    let r = TransactionCode::from_str("PSVADFIMCEHOXGLWZJKU").unwrap();
    assert_eq!(r.len(), 20);
    assert_eq!(r[0], TransactionCode::P);
    assert_eq!(r[19], TransactionCode::U);
}
