//! The source record (Zoho Vault layout), its embedded secret block, the target
//! record (Proton Pass layout), and the mapping between them.

use vstd::prelude::*;
use crate::text::{is_blank, str_contains, str_is_blank};

verus! {

/// The sub-fields of the embedded `SecretData` column.
#[derive(Debug)]
pub struct SecretData {
    pub secret_type: String,
    pub username: String,
    pub password: String,
}

/// One row of a Zoho Vault export.
#[derive(Debug)]
pub struct ZohoStyleCsv {
    pub password_name: String,
    pub description: String,
    pub password_url: Vec<String>,
    pub secret_data: SecretData,
    pub notes: String,
    pub custom_data: String,
    pub tags: Vec<String>,
    /// Never read from the export; always `None`.
    pub classification: Option<String>,
    pub favorite: bool,
    pub totp: Option<String>,
    pub folder_name: String,
}

/// One row of a Proton Pass import file.
#[derive(Debug)]
pub struct ProtonStyleCsv {
    pub name: String,
    pub url: Vec<String>,
    pub email: Option<String>,
    pub username: String,
    pub password: String,
    pub note: Option<String>,
    pub totp: Option<String>,
    pub vault: Option<String>,
}

/// What a `SecretData` holds.
pub struct SecretView {
    pub secret_type: Seq<char>,
    pub username: Seq<char>,
    pub password: Seq<char>,
}

impl View for SecretData {
    type V = SecretView;

    open spec fn view(&self) -> SecretView {
        SecretView {
            secret_type: self.secret_type@,
            username: self.username@,
            password: self.password@,
        }
    }
}

/// What a `ZohoStyleCsv` holds.
pub struct ZohoView {
    pub password_name: Seq<char>,
    pub description: Seq<char>,
    pub password_url: Seq<Seq<char>>,
    pub secret_data: SecretView,
    pub notes: Seq<char>,
    pub custom_data: Seq<char>,
    pub tags: Seq<Seq<char>>,
    pub classification: Option<Seq<char>>,
    pub favorite: bool,
    pub totp: Option<Seq<char>>,
    pub folder_name: Seq<char>,
}

impl View for ZohoStyleCsv {
    type V = ZohoView;

    open spec fn view(&self) -> ZohoView {
        ZohoView {
            password_name: self.password_name@,
            description: self.description@,
            password_url: self.password_url.deep_view(),
            secret_data: self.secret_data@,
            notes: self.notes@,
            custom_data: self.custom_data@,
            tags: self.tags.deep_view(),
            classification: self.classification.deep_view(),
            favorite: self.favorite,
            totp: self.totp.deep_view(),
            folder_name: self.folder_name@,
        }
    }
}

/// What a `ProtonStyleCsv` holds.
pub struct ProtonView {
    pub name: Seq<char>,
    pub url: Seq<Seq<char>>,
    pub email: Option<Seq<char>>,
    pub username: Seq<char>,
    pub password: Seq<char>,
    pub note: Option<Seq<char>>,
    pub totp: Option<Seq<char>>,
    pub vault: Option<Seq<char>>,
}

impl View for ProtonStyleCsv {
    type V = ProtonView;

    open spec fn view(&self) -> ProtonView {
        ProtonView {
            name: self.name@,
            url: self.url.deep_view(),
            email: self.email.deep_view(),
            username: self.username@,
            password: self.password@,
            note: self.note.deep_view(),
            totp: self.totp.deep_view(),
            vault: self.vault.deep_view(),
        }
    }
}

/// `Some(s)` unless `s` is empty or whitespace only.
pub open spec fn optional(s: Seq<char>) -> Option<Seq<char>> {
    if is_blank(s) {
        None
    } else {
        Some(s)
    }
}

/// The target record for a source record: the user name doubles as the email
/// when it holds an `@`; blank notes and folder names become absent.
pub open spec fn map_record(z: ZohoView) -> ProtonView {
    ProtonView {
        name: z.password_name,
        url: z.password_url,
        email: if z.secret_data.username.contains('@') {
            Some(z.secret_data.username)
        } else {
            None
        },
        username: z.secret_data.username,
        password: z.secret_data.password,
        note: optional(z.notes),
        totp: z.totp,
        vault: optional(z.folder_name),
    }
}

/// `Some(s)` unless `s` is empty or whitespace only.
pub open spec fn present(s: String) -> Option<String> {
    if is_blank(s@) {
        None
    } else {
        Some(s)
    }
}

/// The Proton Pass record for a Zoho Vault record: the user name doubles as
/// the email when it holds an `@`, and blank notes and folder names are absent.
pub open spec fn proton_of(z: ZohoStyleCsv) -> ProtonStyleCsv {
    ProtonStyleCsv {
        name: z.password_name,
        url: z.password_url,
        email: if z.secret_data.username@.contains('@') {
            Some(z.secret_data.username)
        } else {
            None
        },
        username: z.secret_data.username,
        password: z.secret_data.password,
        note: present(z.notes),
        totp: z.totp,
        vault: present(z.folder_name),
    }
}

fn present_string(s: String) -> (r: Option<String>)
    ensures
        r == present(s),
{
    if str_is_blank(s.as_str()) {
        None
    } else {
        Some(s)
    }
}

impl From<ZohoStyleCsv> for ProtonStyleCsv {
    fn from(z: ZohoStyleCsv) -> (r: Self)
        ensures
            r == proton_of(z),
            r@ == map_record(z@),
    {
        let email = if str_contains(z.secret_data.username.as_str(), '@') {
            Some(z.secret_data.username.clone())
        } else {
            None
        };
        ProtonStyleCsv {
            name: z.password_name,
            url: z.password_url,
            email,
            username: z.secret_data.username,
            password: z.secret_data.password,
            note: present_string(z.notes),
            totp: z.totp,
            vault: present_string(z.folder_name),
        }
    }
}

impl vstd::std_specs::convert::FromSpecImpl<ZohoStyleCsv> for ProtonStyleCsv {
    open spec fn obeys_from_spec() -> bool {
        true
    }

    open spec fn from_spec(z: ZohoStyleCsv) -> Self {
        proton_of(z)
    }
}

} // verus!
