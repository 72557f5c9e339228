use xtract::semantic::{classify_column, classify_value, email_matches, ColumnType};

#[test]
fn email_pattern_accepts() {
    assert!(email_matches("alice@example.com"));
    assert!(email_matches("a@b.c"));
    assert!(email_matches("first.last+tag@mail-host.co.uk"));
    assert!(email_matches("under_score@x.y.z"));
}

#[test]
fn email_pattern_rejects() {
    // empty local part
    assert!(!email_matches("@b.c"));
    // no at sign
    assert!(!email_matches("abc.def"));
    // no dot after the at sign
    assert!(!email_matches("a@bc"));
    // empty label between at sign and dot
    assert!(!email_matches("a@.c"));
    // empty tail after the dot
    assert!(!email_matches("a@b."));
    // two at signs
    assert!(!email_matches("a@b@c.d"));
    // forbidden character in the local part
    assert!(!email_matches("a/b@c.d"));
    // empty string
    assert!(!email_matches(""));
}

#[test]
fn classify_precedence() {
    assert_eq!(classify_value("alice@example.com"), ColumnType::Email);
    assert_eq!(classify_value("GB82WEST12345698765432"), ColumnType::Iban);
    assert_eq!(classify_value("just text"), ColumnType::Unknown);
    // an invalid IBAN-looking string is unknown
    assert_eq!(classify_value("GB00WEST12345698765432"), ColumnType::Unknown);
}

#[test]
fn classify_column_counts_every_value_once() {
    let values: Vec<String> = vec![
        "alice@example.com".to_string(),
        "GB82WEST12345698765432".to_string(),
        "plain".to_string(),
        "bob@mail.org".to_string(),
        "".to_string(),
    ];
    let c = classify_column(&values);
    assert_eq!(c.email, 2);
    assert_eq!(c.iban, 1);
    assert_eq!(c.unknown, 2);
    assert_eq!(c.email + c.iban + c.unknown, values.len());
}
