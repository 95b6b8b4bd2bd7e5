//! Decoding one row of an export against its header row: which column each
//! field comes from, which fault a bad row raises, and in which order.

use vstd::prelude::*;
use vstd::string::*;
use crate::decode::{
    bool_from_int, csv_str_to_vec, int_field, list_of, parse_int_field, parse_secret_data,
    secret_of, DecodeError,
};
use crate::record::{ZohoStyleCsv, ZohoView};
use crate::text::str_equals;

verus! {

/// The columns of the export that are read.
#[derive(Debug, Clone, Copy, PartialEq, Eq, Structural)]
pub enum Column {
    PasswordName,
    Description,
    PasswordUrl,
    SecretData,
    Notes,
    CustomData,
    Tags,
    Favorite,
    Totp,
    FolderName,
}

/// The header text of a column.
pub open spec fn column_name(c: Column) -> Seq<char> {
    match c {
        Column::PasswordName => "Password Name"@,
        Column::Description => "Description"@,
        Column::PasswordUrl => "Password URL"@,
        Column::SecretData => "SecretData"@,
        Column::Notes => "Notes"@,
        Column::CustomData => "CustomData"@,
        Column::Tags => "Tags"@,
        Column::Favorite => "Favorite"@,
        Column::Totp => "TOTP"@,
        Column::FolderName => "Folder Name"@,
    }
}

/// The column a header text names, if any; other headers are ignored.
pub open spec fn column_named(h: Seq<char>) -> Option<Column> {
    if h == column_name(Column::PasswordName) {
        Some(Column::PasswordName)
    } else if h == column_name(Column::Description) {
        Some(Column::Description)
    } else if h == column_name(Column::PasswordUrl) {
        Some(Column::PasswordUrl)
    } else if h == column_name(Column::SecretData) {
        Some(Column::SecretData)
    } else if h == column_name(Column::Notes) {
        Some(Column::Notes)
    } else if h == column_name(Column::CustomData) {
        Some(Column::CustomData)
    } else if h == column_name(Column::Tags) {
        Some(Column::Tags)
    } else if h == column_name(Column::Favorite) {
        Some(Column::Favorite)
    } else if h == column_name(Column::Totp) {
        Some(Column::Totp)
    } else if h == column_name(Column::FolderName) {
        Some(Column::FolderName)
    } else {
        None
    }
}

/// The column order that rows are read in when the header row itself cannot be read.
pub open spec fn positional_header() -> Seq<Seq<char>> {
    seq![
        column_name(Column::PasswordName),
        column_name(Column::Description),
        column_name(Column::PasswordUrl),
        column_name(Column::SecretData),
        column_name(Column::Notes),
        column_name(Column::CustomData),
        column_name(Column::Tags),
        column_name(Column::Favorite),
        column_name(Column::Totp),
        column_name(Column::FolderName),
    ]
}

/// Why one row of the export was skipped.
#[derive(Debug, Clone, Copy, PartialEq, Eq, Structural)]
pub enum RowFault {
    /// The row could not be read as text.
    Unreadable,
    /// The row ended before a column that the header announces.
    EndOfRow,
    /// The header names this column twice.
    Duplicate(Column),
    /// The header does not name this required column.
    Missing(Column),
    /// The column's text could not be decoded.
    Invalid(Column, DecodeError),
}

/// A skipped row: its 1-based position among the data rows, and why.
#[derive(Debug, Clone, Copy)]
pub struct RowError {
    pub index: usize,
    pub cause: RowFault,
}

/// The fault that the text of the `Favorite` column raises, if any.
pub open spec fn flag_fault(s: Seq<char>) -> Option<RowFault> {
    match int_field(s) {
        None => Some(RowFault::Invalid(Column::Favorite, DecodeError::InvalidNumber)),
        Some(v) => if v > 1 {
            Some(RowFault::Invalid(Column::Favorite, DecodeError::InvalidFlag))
        } else {
            None
        },
    }
}

/// The fault that header column `j` raises on `row`, if any. `totp_optional`
/// says whether a row may end before the `TOTP` column.
pub open spec fn column_fault(
    h: Seq<Seq<char>>,
    row: Seq<Seq<char>>,
    j: int,
    totp_optional: bool,
) -> Option<RowFault> {
    match column_named(h[j]) {
        Some(c) => if exists|k: int| 0 <= k < j && h[k] == h[j] {
            Some(RowFault::Duplicate(c))
        } else if j >= row.len() {
            if c == Column::Totp && totp_optional {
                None
            } else {
                Some(RowFault::EndOfRow)
            }
        } else if c == Column::Favorite {
            flag_fault(row[j])
        } else {
            None
        },
        None => if j >= row.len() {
            Some(RowFault::EndOfRow)
        } else {
            None
        },
    }
}

/// The first fault among the first `n` header columns, in header order.
pub open spec fn fault_upto(
    h: Seq<Seq<char>>,
    row: Seq<Seq<char>>,
    n: int,
    totp_optional: bool,
) -> Option<RowFault>
    decreases n,
{
    if n <= 0 {
        None
    } else {
        match fault_upto(h, row, n - 1, totp_optional) {
            Some(f) => Some(f),
            None => column_fault(h, row, n - 1, totp_optional),
        }
    }
}

/// The position of the last header that equals `name`.
pub open spec fn last_pos(h: Seq<Seq<char>>, name: Seq<char>) -> Option<nat>
    decreases h.len(),
{
    if h.len() == 0 {
        None
    } else if h.last() == name {
        Some((h.len() - 1) as nat)
    } else {
        last_pos(h.drop_last(), name)
    }
}

/// Whether the header names column `c`.
pub open spec fn names(h: Seq<Seq<char>>, c: Column) -> bool {
    last_pos(h, column_name(c)) is Some
}

/// The first required column, in declaration order, that the header does not name.
pub open spec fn missing_fault(h: Seq<Seq<char>>) -> Option<RowFault> {
    if !names(h, Column::PasswordName) {
        Some(RowFault::Missing(Column::PasswordName))
    } else if !names(h, Column::Description) {
        Some(RowFault::Missing(Column::Description))
    } else if !names(h, Column::PasswordUrl) {
        Some(RowFault::Missing(Column::PasswordUrl))
    } else if !names(h, Column::SecretData) {
        Some(RowFault::Missing(Column::SecretData))
    } else if !names(h, Column::Notes) {
        Some(RowFault::Missing(Column::Notes))
    } else if !names(h, Column::CustomData) {
        Some(RowFault::Missing(Column::CustomData))
    } else if !names(h, Column::Tags) {
        Some(RowFault::Missing(Column::Tags))
    } else if !names(h, Column::Favorite) {
        Some(RowFault::Missing(Column::Favorite))
    } else if !names(h, Column::FolderName) {
        Some(RowFault::Missing(Column::FolderName))
    } else {
        None
    }
}

/// The fault of a row: the first column fault in header order, else the first missing column.
pub open spec fn row_fault(h: Seq<Seq<char>>, row: Seq<Seq<char>>, totp_optional: bool) -> Option<
    RowFault,
> {
    match fault_upto(h, row, h.len() as int, totp_optional) {
        Some(f) => Some(f),
        None => missing_fault(h),
    }
}

/// The text of column `c` in `row`, if the header names it and the row reaches it.
pub open spec fn cell(h: Seq<Seq<char>>, row: Seq<Seq<char>>, c: Column) -> Option<Seq<char>> {
    match last_pos(h, column_name(c)) {
        Some(j) => if j < row.len() {
            Some(row[j as int])
        } else {
            None
        },
        None => None,
    }
}

/// The text of column `c` in `row`, or "" where there is none.
pub open spec fn text_cell(h: Seq<Seq<char>>, row: Seq<Seq<char>>, c: Column) -> Seq<char> {
    match cell(h, row, c) {
        Some(t) => t,
        None => Seq::empty(),
    }
}

/// The source record that a row spells once it is known to have no fault.
pub open spec fn zoho_model(h: Seq<Seq<char>>, row: Seq<Seq<char>>) -> ZohoView {
    ZohoView {
        password_name: text_cell(h, row, Column::PasswordName),
        description: text_cell(h, row, Column::Description),
        password_url: list_of(text_cell(h, row, Column::PasswordUrl)),
        secret_data: secret_of(text_cell(h, row, Column::SecretData)),
        notes: text_cell(h, row, Column::Notes),
        custom_data: text_cell(h, row, Column::CustomData),
        tags: list_of(text_cell(h, row, Column::Tags)),
        classification: None,
        favorite: int_field(text_cell(h, row, Column::Favorite)) == Some(1u8),
        totp: match cell(h, row, Column::Totp) {
            Some(t) => if t.len() == 0 {
                None
            } else {
                Some(t)
            },
            None => None,
        },
        folder_name: text_cell(h, row, Column::FolderName),
    }
}

/// The header that rows are decoded against: the header row, or the column
/// order where the header row could not be read.
pub open spec fn header_or_position(headers: Option<Seq<Seq<char>>>) -> Seq<Seq<char>> {
    match headers {
        Some(h) => h,
        None => positional_header(),
    }
}

/// The outcome of decoding `row` against the header row, or by position where
/// the header row could not be read.
pub open spec fn row_outcome(headers: Option<Seq<Seq<char>>>, row: Seq<Seq<char>>) -> Result<
    ZohoView,
    RowFault,
> {
    let h = header_or_position(headers);
    let totp_optional = headers is Some;
    match row_fault(h, row, totp_optional) {
        Some(f) => Err(f),
        None => Ok(zoho_model(h, row)),
    }
}

proof fn lemma_fault_stays(h: Seq<Seq<char>>, row: Seq<Seq<char>>, n: int, m: int, o: bool)
    requires
        0 <= n <= m,
        fault_upto(h, row, n, o) is Some,
    ensures
        fault_upto(h, row, m, o) == fault_upto(h, row, n, o),
    decreases m - n,
{
    if m > n {
        lemma_fault_stays(h, row, n, m - 1, o);
    }
}

proof fn lemma_first_fault(
    headers: Option<Seq<Seq<char>>>,
    h: Seq<Seq<char>>,
    row: Seq<Seq<char>>,
    j: int,
    o: bool,
)
    requires
        headers is Some <==> o,
        headers matches Some(hh) ==> hh == h,
        headers is None ==> h == positional_header(),
        0 <= j < h.len(),
        fault_upto(h, row, j, o) is None,
        column_fault(h, row, j, o) is Some,
    ensures
        row_outcome(headers, row) == Err::<ZohoView, RowFault>(column_fault(h, row, j, o)->0),
{
    assert(fault_upto(h, row, j + 1, o) == column_fault(h, row, j, o));
    lemma_fault_stays(h, row, j + 1, h.len() as int, o);
}

fn name_of(c: Column) -> (r: &'static str)
    ensures
        r@ == column_name(c),
{
    match c {
        Column::PasswordName => "Password Name",
        Column::Description => "Description",
        Column::PasswordUrl => "Password URL",
        Column::SecretData => "SecretData",
        Column::Notes => "Notes",
        Column::CustomData => "CustomData",
        Column::Tags => "Tags",
        Column::Favorite => "Favorite",
        Column::Totp => "TOTP",
        Column::FolderName => "Folder Name",
    }
}

fn column_of(h: &str) -> (r: Option<Column>)
    ensures
        r == column_named(h@),
{
    if str_equals(h, name_of(Column::PasswordName)) {
        Some(Column::PasswordName)
    } else if str_equals(h, name_of(Column::Description)) {
        Some(Column::Description)
    } else if str_equals(h, name_of(Column::PasswordUrl)) {
        Some(Column::PasswordUrl)
    } else if str_equals(h, name_of(Column::SecretData)) {
        Some(Column::SecretData)
    } else if str_equals(h, name_of(Column::Notes)) {
        Some(Column::Notes)
    } else if str_equals(h, name_of(Column::CustomData)) {
        Some(Column::CustomData)
    } else if str_equals(h, name_of(Column::Tags)) {
        Some(Column::Tags)
    } else if str_equals(h, name_of(Column::Favorite)) {
        Some(Column::Favorite)
    } else if str_equals(h, name_of(Column::Totp)) {
        Some(Column::Totp)
    } else if str_equals(h, name_of(Column::FolderName)) {
        Some(Column::FolderName)
    } else {
        None
    }
}

fn positional_names() -> (r: Vec<String>)
    ensures
        r.deep_view() == positional_header(),
{
    let mut v: Vec<String> = Vec::new();
    v.push(name_of(Column::PasswordName).to_owned());
    v.push(name_of(Column::Description).to_owned());
    v.push(name_of(Column::PasswordUrl).to_owned());
    v.push(name_of(Column::SecretData).to_owned());
    v.push(name_of(Column::Notes).to_owned());
    v.push(name_of(Column::CustomData).to_owned());
    v.push(name_of(Column::Tags).to_owned());
    v.push(name_of(Column::Favorite).to_owned());
    v.push(name_of(Column::Totp).to_owned());
    v.push(name_of(Column::FolderName).to_owned());
    assert(v.deep_view() =~= positional_header());
    v
}

/// Whether a header before position `j` equals the one at `j`.
fn repeats_earlier(h: &Vec<String>, j: usize) -> (r: bool)
    requires
        j < h@.len(),
    ensures
        r == exists|k: int| 0 <= k < j && h.deep_view()[k] == h.deep_view()[j as int],
{
    let mut k: usize = 0;
    while k < j
        invariant
            j < h@.len(),
            k <= j,
            forall|m: int| 0 <= m < k ==> h.deep_view()[m] != h.deep_view()[j as int],
        decreases j - k,
    {
        if str_equals(h[k].as_str(), h[j].as_str()) {
            assert(h.deep_view()[k as int] == h.deep_view()[j as int]);
            return true;
        }
        k = k + 1;
    }
    false
}

fn flag_fault_of(s: &str) -> (r: Option<RowFault>)
    ensures
        r == flag_fault(s@),
{
    match parse_int_field(s) {
        None => Some(RowFault::Invalid(Column::Favorite, DecodeError::InvalidNumber)),
        Some(v) => match bool_from_int(v) {
            Ok(_) => None,
            Err(e) => Some(RowFault::Invalid(Column::Favorite, e)),
        },
    }
}

fn column_fault_at(h: &Vec<String>, row: &Vec<String>, j: usize, totp_optional: bool) -> (r:
    Option<RowFault>)
    requires
        j < h@.len(),
    ensures
        r == column_fault(h.deep_view(), row.deep_view(), j as int, totp_optional),
{
    match column_of(h[j].as_str()) {
        Some(c) => {
            if repeats_earlier(h, j) {
                Some(RowFault::Duplicate(c))
            } else if j >= row.len() {
                if c == Column::Totp && totp_optional {
                    None
                } else {
                    Some(RowFault::EndOfRow)
                }
            } else if c == Column::Favorite {
                flag_fault_of(row[j].as_str())
            } else {
                None
            }
        },
        None => {
            if j >= row.len() {
                Some(RowFault::EndOfRow)
            } else {
                None
            }
        },
    }
}

fn last_position(h: &Vec<String>, name: &str) -> (r: Option<usize>)
    ensures
        r is Some ==> last_pos(h.deep_view(), name@) == Some(r->0 as nat),
        r is None ==> last_pos(h.deep_view(), name@) is None,
{
    let ghost hv = h.deep_view();
    let mut j: usize = h.len();
    assert(hv.subrange(0, j as int) =~= hv);
    while j > 0
        invariant
            hv == h.deep_view(),
            j <= hv.len(),
            last_pos(hv, name@) == last_pos(hv.subrange(0, j as int), name@),
        decreases j,
    {
        let ghost sub = hv.subrange(0, j as int);
        assert(sub.drop_last() =~= hv.subrange(0, j - 1));
        if str_equals(h[j - 1].as_str(), name) {
            return Some(j - 1);
        }
        j = j - 1;
    }
    assert(hv.subrange(0, 0) =~= Seq::<Seq<char>>::empty());
    None
}

fn cell_of(h: &Vec<String>, row: &Vec<String>, c: Column) -> (r: Option<String>)
    ensures
        r.deep_view() == cell(h.deep_view(), row.deep_view(), c),
{
    match last_position(h, name_of(c)) {
        Some(j) => if j < row.len() {
            Some(row[j].clone())
        } else {
            None
        },
        None => None,
    }
}

fn text_cell_of(h: &Vec<String>, row: &Vec<String>, c: Column) -> (r: String)
    ensures
        r@ == text_cell(h.deep_view(), row.deep_view(), c),
{
    match cell_of(h, row, c) {
        Some(t) => t,
        None => String::new(),
    }
}

fn missing_fault_of(h: &Vec<String>) -> (r: Option<RowFault>)
    ensures
        r == missing_fault(h.deep_view()),
{
    if last_position(h, name_of(Column::PasswordName)).is_none() {
        Some(RowFault::Missing(Column::PasswordName))
    } else if last_position(h, name_of(Column::Description)).is_none() {
        Some(RowFault::Missing(Column::Description))
    } else if last_position(h, name_of(Column::PasswordUrl)).is_none() {
        Some(RowFault::Missing(Column::PasswordUrl))
    } else if last_position(h, name_of(Column::SecretData)).is_none() {
        Some(RowFault::Missing(Column::SecretData))
    } else if last_position(h, name_of(Column::Notes)).is_none() {
        Some(RowFault::Missing(Column::Notes))
    } else if last_position(h, name_of(Column::CustomData)).is_none() {
        Some(RowFault::Missing(Column::CustomData))
    } else if last_position(h, name_of(Column::Tags)).is_none() {
        Some(RowFault::Missing(Column::Tags))
    } else if last_position(h, name_of(Column::Favorite)).is_none() {
        Some(RowFault::Missing(Column::Favorite))
    } else if last_position(h, name_of(Column::FolderName)).is_none() {
        Some(RowFault::Missing(Column::FolderName))
    } else {
        None
    }
}

fn build_record(h: &Vec<String>, row: &Vec<String>) -> (r: ZohoStyleCsv)
    ensures
        r@ == zoho_model(h.deep_view(), row.deep_view()),
{
    let url = text_cell_of(h, row, Column::PasswordUrl);
    let secret = text_cell_of(h, row, Column::SecretData);
    let tags = text_cell_of(h, row, Column::Tags);
    let flag = text_cell_of(h, row, Column::Favorite);
    let favorite = match parse_int_field(flag.as_str()) {
        Some(v) => match bool_from_int(v) {
            Ok(b) => b,
            Err(_) => false,
        },
        None => false,
    };
    let totp = match cell_of(h, row, Column::Totp) {
        Some(t) => if t.as_str().unicode_len() == 0 {
            None
        } else {
            Some(t)
        },
        None => None,
    };
    ZohoStyleCsv {
        password_name: text_cell_of(h, row, Column::PasswordName),
        description: text_cell_of(h, row, Column::Description),
        password_url: csv_str_to_vec(url.as_str()),
        secret_data: parse_secret_data(secret.as_str()),
        notes: text_cell_of(h, row, Column::Notes),
        custom_data: text_cell_of(h, row, Column::CustomData),
        tags: csv_str_to_vec(tags.as_str()),
        classification: None,
        favorite,
        totp,
        folder_name: text_cell_of(h, row, Column::FolderName),
    }
}

/// Decodes one row against the header row (`None` where the header row could
/// not be read, in which case columns are taken by position).
pub fn decode_row(headers: &Option<Vec<String>>, row: &Vec<String>) -> (r: Result<
    ZohoStyleCsv,
    RowFault,
>)
    ensures
        r matches Ok(z) ==> row_outcome(headers.deep_view(), row.deep_view()) == Ok::<
            ZohoView,
            RowFault,
        >(z@),
        r matches Err(f) ==> row_outcome(headers.deep_view(), row.deep_view()) == Err::<
            ZohoView,
            RowFault,
        >(f),
{
    let positional = positional_names();
    let (h, totp_optional) = match headers {
        Some(h) => (h, true),
        None => (&positional, false),
    };
    let ghost hv = h.deep_view();
    let ghost rv = row.deep_view();
    assert(headers.deep_view() is Some <==> totp_optional);
    assert(headers.deep_view() matches Some(hh) ==> hh == hv);
    assert(headers.deep_view() is None ==> hv == positional_header());
    let mut j: usize = 0;
    while j < h.len()
        invariant
            hv == h.deep_view(),
            rv == row.deep_view(),
            headers.deep_view() is Some <==> totp_optional,
            headers.deep_view() matches Some(hh) ==> hh == hv,
            headers.deep_view() is None ==> hv == positional_header(),
            j <= hv.len(),
            fault_upto(hv, rv, j as int, totp_optional) is None,
        decreases hv.len() - j,
    {
        let f = column_fault_at(h, row, j, totp_optional);
        if f.is_some() {
            proof {
                lemma_first_fault(headers.deep_view(), hv, rv, j as int, totp_optional);
            }
            return Err(f.unwrap());
        }
        j = j + 1;
    }
    match missing_fault_of(h) {
        Some(f) => Err(f),
        None => Ok(build_record(h, row)),
    }
}

} // verus!
