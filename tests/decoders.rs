use pass_migrate::decode::{
    bool_from_int, csv_str_to_vec, parse_int_field, parse_secret_data,
    serialize_vec_to_comma_separated, DecodeError,
};

#[test]
fn list_of_empty_text_is_empty() {
    assert!(csv_str_to_vec("").is_empty());
}

#[test]
fn list_of_blank_text_is_empty() {
    assert!(csv_str_to_vec("   ").is_empty());
    assert!(csv_str_to_vec(" \t\n ").is_empty());
}

#[test]
fn list_keeps_pieces_in_order() {
    assert_eq!(csv_str_to_vec("a,b,c"), vec!["a", "b", "c"]);
}

#[test]
fn list_pieces_are_not_trimmed() {
    assert_eq!(csv_str_to_vec(" a, b ,c "), vec![" a", " b ", "c "]);
    assert_eq!(csv_str_to_vec("a,,b,"), vec!["a", "", "b", ""]);
    assert_eq!(csv_str_to_vec("x"), vec!["x"]);
}

#[test]
fn join_puts_commas_between_pieces() {
    let v = vec!["https://a.com".to_string(), "https://b.com".to_string()];
    assert_eq!(serialize_vec_to_comma_separated(&v), "https://a.com,https://b.com");
    assert_eq!(serialize_vec_to_comma_separated(&[]), "");
    assert_eq!(serialize_vec_to_comma_separated(&["one".to_string()]), "one");
}

#[test]
fn flag_zero_is_false() {
    assert_eq!(bool_from_int(0), Ok(false));
}

#[test]
fn flag_one_is_true() {
    assert_eq!(bool_from_int(1), Ok(true));
}

#[test]
fn flag_two_is_an_error() {
    assert_eq!(bool_from_int(2), Err(DecodeError::InvalidFlag));
    assert_eq!(bool_from_int(255), Err(DecodeError::InvalidFlag));
}

#[test]
fn integer_column_forms() {
    assert_eq!(parse_int_field("0"), Some(0));
    assert_eq!(parse_int_field("1"), Some(1));
    assert_eq!(parse_int_field("+1"), Some(1));
    assert_eq!(parse_int_field("001"), Some(1));
    assert_eq!(parse_int_field("0x1F"), Some(31));
    assert_eq!(parse_int_field("0xff"), Some(255));
    assert_eq!(parse_int_field("255"), Some(255));
    assert_eq!(parse_int_field("256"), None);
    assert_eq!(parse_int_field("0x100"), None);
    assert_eq!(parse_int_field(""), None);
    assert_eq!(parse_int_field("+"), None);
    assert_eq!(parse_int_field("0x"), None);
    assert_eq!(parse_int_field("-1"), None);
    assert_eq!(parse_int_field(" 1"), None);
    assert_eq!(parse_int_field("1a"), None);
    assert_eq!(parse_int_field("99999999999999999999"), None);
}

#[test]
fn secret_block_reads_three_labels() {
    let s = parse_secret_data("SecretType: Web Account\nUser Name: alice@example.com\nPassword: hunter2");
    assert_eq!(s.secret_type, "Web Account");
    assert_eq!(s.username, "alice@example.com");
    assert_eq!(s.password, "hunter2");
}

#[test]
fn secret_block_missing_labels_are_empty() {
    let s = parse_secret_data("Password: only");
    assert_eq!(s.secret_type, "");
    assert_eq!(s.username, "");
    assert_eq!(s.password, "only");
    let e = parse_secret_data("");
    assert_eq!(e.username, "");
    assert_eq!(e.password, "");
}

#[test]
fn secret_block_trims_and_skips_unknown_lines() {
    let s = parse_secret_data("  User Name:   bob  \r\nNote: ignored\r\n\tPassword:p w \r\n");
    assert_eq!(s.username, "bob");
    assert_eq!(s.password, "p w");
    assert_eq!(s.secret_type, "");
}

#[test]
fn secret_block_last_line_of_a_label_wins() {
    let s = parse_secret_data("User Name: first\nUser Name: second");
    assert_eq!(s.username, "second");
}

#[test]
fn secret_block_label_must_start_the_line() {
    let s = parse_secret_data("x User Name: nobody\nusername: lower");
    assert_eq!(s.username, "");
}

#[test]
fn list_joined_again_gives_the_column_text() {
    for text in ["a, b,,c", "https://x.example", ",", " lead,trail "] {
        let pieces = csv_str_to_vec(text);
        assert_eq!(serialize_vec_to_comma_separated(&pieces), text);
    }
}
