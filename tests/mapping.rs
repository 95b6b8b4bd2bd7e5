use pass_migrate::record::{ProtonStyleCsv, SecretData, ZohoStyleCsv};

fn zoho(username: &str, notes: &str, folder: &str, totp: Option<&str>) -> ZohoStyleCsv {
    ZohoStyleCsv {
        password_name: "Mail".to_string(),
        description: "desc".to_string(),
        password_url: vec!["https://mail.example".to_string(), "https://m.example".to_string()],
        secret_data: SecretData {
            secret_type: "Web Account".to_string(),
            username: username.to_string(),
            password: "pw".to_string(),
        },
        notes: notes.to_string(),
        custom_data: "custom".to_string(),
        tags: vec!["t1".to_string()],
        classification: None,
        favorite: true,
        totp: totp.map(|t| t.to_string()),
        folder_name: folder.to_string(),
    }
}

#[test]
fn user_name_with_at_becomes_email() {
    let p = ProtonStyleCsv::from(zoho("alice@example.com", "n", "f", None));
    assert_eq!(p.email.as_deref(), Some("alice@example.com"));
    assert_eq!(p.username, "alice@example.com");
}

#[test]
fn user_name_without_at_gives_no_email() {
    let p = ProtonStyleCsv::from(zoho("alice", "n", "f", None));
    assert_eq!(p.email, None);
    assert_eq!(p.username, "alice");
}

#[test]
fn fields_are_carried_over() {
    let p = ProtonStyleCsv::from(zoho("bob", "  a note ", "Work", Some("JBSWY3DP")));
    assert_eq!(p.name, "Mail");
    assert_eq!(p.url, vec!["https://mail.example", "https://m.example"]);
    assert_eq!(p.password, "pw");
    assert_eq!(p.note.as_deref(), Some("  a note "));
    assert_eq!(p.totp.as_deref(), Some("JBSWY3DP"));
    assert_eq!(p.vault.as_deref(), Some("Work"));
}

#[test]
fn blank_notes_and_folder_are_absent() {
    let p = ProtonStyleCsv::from(zoho("bob", " \t ", "   ", None));
    assert_eq!(p.note, None);
    assert_eq!(p.vault, None);
    assert_eq!(p.totp, None);
}

#[test]
fn empty_record_maps_to_empty_record() {
    let z = ZohoStyleCsv {
        password_name: String::new(),
        description: String::new(),
        password_url: vec![],
        secret_data: SecretData {
            secret_type: String::new(),
            username: String::new(),
            password: String::new(),
        },
        notes: String::new(),
        custom_data: String::new(),
        tags: vec![],
        classification: None,
        favorite: false,
        totp: None,
        folder_name: String::new(),
    };
    let p = ProtonStyleCsv::from(z);
    assert_eq!(p.name, "");
    assert!(p.url.is_empty());
    assert_eq!(p.email, None);
    assert_eq!(p.username, "");
    assert_eq!(p.password, "");
    assert_eq!(p.note, None);
    assert_eq!(p.totp, None);
    assert_eq!(p.vault, None);
}
