use pass_migrate::batch::{convert_text, output_table, proton_row, render_records};
use pass_migrate::decode::DecodeError;
use pass_migrate::record::ProtonStyleCsv;
use pass_migrate::table::{decode_row, Column, RowFault};

const HEADER: &str =
    "Password Name,Description,Password URL,SecretData,Notes,CustomData,Tags,Classification,Favorite,TOTP,Folder Name\n";

fn strings(v: &[&str]) -> Vec<String> {
    v.iter().map(|s| s.to_string()).collect()
}

fn header() -> Vec<String> {
    strings(&[
        "Password Name", "Description", "Password URL", "SecretData", "Notes", "CustomData",
        "Tags", "Favorite", "TOTP", "Folder Name",
    ])
}

#[test]
fn three_rows_with_bad_middle_row() {
    let text = format!(
        "{HEADER}{}{}{}",
        "Mail,,https://mail.example,\"SecretType: Web Account\nUser Name: alice@example.com\nPassword: pw1\",,,,,0,,Personal\n",
        "Bank,,,\"User Name: bob\nPassword: pw2\",,,,,2,,\n",
        "Git,,\"https://a.example,https://b.example\",\"User Name: carol\nPassword: pw3\",note,,,,1,JBSW,\n",
    );
    let c = convert_text(text.as_bytes());
    assert_eq!(c.records.len(), 2);
    assert_eq!(c.errors.len(), 1);
    assert_eq!(c.errors[0].index, 2);
    assert_eq!(c.errors[0].cause, RowFault::Invalid(Column::Favorite, DecodeError::InvalidFlag));
    let a = &c.records[0];
    assert_eq!(a.name, "Mail");
    assert_eq!(a.url, vec!["https://mail.example"]);
    assert_eq!(a.email.as_deref(), Some("alice@example.com"));
    assert_eq!(a.username, "alice@example.com");
    assert_eq!(a.password, "pw1");
    assert_eq!(a.note, None);
    assert_eq!(a.totp, None);
    assert_eq!(a.vault.as_deref(), Some("Personal"));
    let g = &c.records[1];
    assert_eq!(g.name, "Git");
    assert_eq!(g.url, vec!["https://a.example", "https://b.example"]);
    assert_eq!(g.email, None);
    assert_eq!(g.username, "carol");
    assert_eq!(g.note.as_deref(), Some("note"));
    assert_eq!(g.totp.as_deref(), Some("JBSW"));
    assert_eq!(g.vault, None);
}

#[test]
fn empty_input_gives_nothing() {
    let c = convert_text(b"");
    assert!(c.records.is_empty());
    assert!(c.errors.is_empty());
}

#[test]
fn unreadable_row_is_reported() {
    let mut text = HEADER.as_bytes().to_vec();
    text.extend_from_slice(b"A,,,x,,,,,0,,\n");
    text.extend_from_slice(b"B\xff,,,x,,,,,0,,\n");
    let c = convert_text(&text);
    assert_eq!(c.records.len(), 1);
    assert_eq!(c.errors.len(), 1);
    assert_eq!(c.errors[0].index, 2);
    assert_eq!(c.errors[0].cause, RowFault::Unreadable);
}

#[test]
fn short_row_may_stop_before_totp_only() {
    let h = Some(strings(&[
        "Password Name", "Description", "Password URL", "SecretData", "Notes", "CustomData",
        "Tags", "Favorite", "Folder Name", "TOTP",
    ]));
    let ok = decode_row(&h, &strings(&["n", "", "", "", "", "", "", "1", "f"])).unwrap();
    assert_eq!(ok.totp, None);
    assert!(ok.favorite);
    assert_eq!(ok.folder_name, "f");
    let short = decode_row(&h, &strings(&["n", "", "", "", "", "", "", "1"]));
    assert_eq!(short.err(), Some(RowFault::EndOfRow));
}

#[test]
fn header_faults() {
    let mut dup = header();
    dup.push("Notes".to_string());
    let row = strings(&["n", "", "", "", "", "", "", "0", "", "", ""]);
    assert_eq!(decode_row(&Some(dup), &row).err(), Some(RowFault::Duplicate(Column::Notes)));
    let mut missing = header();
    missing.remove(1);
    let shifted = strings(&["n", "", "", "", "", "", "0", "", ""]);
    assert_eq!(
        decode_row(&Some(missing), &shifted).err(),
        Some(RowFault::Missing(Column::Description))
    );
    let bad_number = strings(&["n", "", "", "", "", "", "", "yes", "", ""]);
    assert_eq!(
        decode_row(&Some(header()), &bad_number).err(),
        Some(RowFault::Invalid(Column::Favorite, DecodeError::InvalidNumber))
    );
}

#[test]
fn columns_follow_the_header_not_the_position() {
    let h = Some(strings(&[
        "Folder Name", "Favorite", "Tags", "CustomData", "Notes", "SecretData", "Password URL",
        "Description", "Password Name", "Extra",
    ]));
    let row = strings(&["F", "0x1", "a,b", "c", " ", "User Name: u@v", "", "d", "N", "x"]);
    let z = decode_row(&h, &row).unwrap();
    assert_eq!(z.password_name, "N");
    assert_eq!(z.folder_name, "F");
    assert!(z.favorite);
    assert_eq!(z.tags, vec!["a", "b"]);
    assert!(z.password_url.is_empty());
    assert_eq!(z.secret_data.username, "u@v");
    assert_eq!(z.totp, None);
}

#[test]
fn without_header_columns_are_positional() {
    let row = strings(&["N", "d", "u", "User Name: x", "", "", "", "0", "", "F"]);
    let z = decode_row(&None, &row).unwrap();
    assert_eq!(z.password_name, "N");
    assert_eq!(z.password_url, vec!["u"]);
    assert_eq!(z.folder_name, "F");
    assert!(!z.favorite);
    let short = strings(&["N", "d", "u", "User Name: x", "", "", "", "0", ""]);
    assert_eq!(decode_row(&None, &short).err(), Some(RowFault::EndOfRow));
}

fn sample() -> ProtonStyleCsv {
    ProtonStyleCsv {
        name: "Git".to_string(),
        url: strings(&["https://a.example", "https://b.example"]),
        email: Some("c@d.e".to_string()),
        username: "c@d.e".to_string(),
        password: "p\"w".to_string(),
        note: None,
        totp: Some("JBSW".to_string()),
        vault: None,
    }
}

#[test]
fn target_row_columns() {
    assert_eq!(
        proton_row(&sample()),
        strings(&["Git", "https://a.example,https://b.example", "c@d.e", "c@d.e", "p\"w", "", "JBSW", ""])
    );
    let t = output_table(&vec![sample()]);
    assert_eq!(t.len(), 2);
    assert_eq!(t[0], strings(&["name", "url", "email", "username", "password", "note", "totp", "vault"]));
}

#[test]
fn rendered_text_has_header_then_rows() {
    let b = render_records(&vec![sample()]).unwrap();
    assert_eq!(
        String::from_utf8(b).unwrap(),
        "name,url,email,username,password,note,totp,vault\nGit,\"https://a.example,https://b.example\",c@d.e,c@d.e,\"p\"\"w\",,JBSW,\n"
    );
}

#[test]
fn no_records_render_to_nothing() {
    assert_eq!(render_records(&vec![]), Some(vec![]));
}

#[test]
fn one_row_export_renders_header_and_row() {
    let text = format!("{HEADER}n,,\"a,b\",\"User Name: u\nPassword: p\",,,,,0,,\n");
    let c = convert_text(text.as_bytes());
    assert!(c.errors.is_empty());
    let out = String::from_utf8(render_records(&c.records).unwrap()).unwrap();
    assert_eq!(out, "name,url,email,username,password,note,totp,vault\nn,\"a,b\",,u,p,,,\n");
}

#[test]
fn export_with_only_bad_rows_renders_nothing() {
    let text = format!("{HEADER}a,,,x,,,,,7,,\nb,,,x,,,,,nope,,\n");
    let c = convert_text(text.as_bytes());
    assert!(c.records.is_empty());
    assert_eq!(c.errors.len(), 2);
    assert_eq!(c.errors[1].index, 2);
    assert_eq!(render_records(&c.records), Some(vec![]));
}
