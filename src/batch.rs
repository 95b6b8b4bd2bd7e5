//! The batch pipeline: every record of an export decoded, mapped and kept in
//! order, every bad record reported and skipped; and the target file's rows.

use vstd::prelude::*;
use vstd::string::*;
use crate::decode::serialize_vec_to_comma_separated;
use crate::record::{map_record, ProtonStyleCsv, ProtonView, ZohoView};
use crate::table::{decode_row, row_outcome, RowError, RowFault};
use crate::text::join_with;

verus! {

/// An export as the CSV reader hands it over: the header row, if it could be
/// read as text, and each further row, or `None` where that row could not.
pub struct CsvTable {
    pub headers: Option<Vec<String>>,
    pub rows: Vec<Option<Vec<String>>>,
}

/// The header row and data rows that the CSV reader finds in `text`.
pub uninterp spec fn csv_table_of(text: Seq<u8>) -> (
    Option<Seq<Seq<char>>>,
    Seq<Option<Seq<Seq<char>>>>,
);

/// The CSV text that the CSV writer makes of `rows`.
pub uninterp spec fn csv_text_of(rows: Seq<Seq<Seq<char>>>) -> Seq<u8>;

/// Relies on csv's `Reader` built with `flexible(true)`: `headers` gives the
/// first row, `records` each further row, each as text or as an error, in order.
#[verifier::external_body]
fn read_table(text: &[u8]) -> (r: CsvTable)
    ensures
        (r.headers.deep_view(), r.rows.deep_view()) == csv_table_of(text@),
{
    let mut rdr = csv::ReaderBuilder::new().flexible(true).from_reader(text);
    let headers = rdr.headers().ok().map(|h| h.iter().map(|f| f.to_string()).collect());
    let rows = rdr.records().map(|rec| rec.ok().map(|r| r.iter().map(|f| f.to_string()).collect()))
        .collect();
    CsvTable { headers, rows }
}

/// Relies on csv's `Writer::write_record` and `into_inner` over an in-memory
/// buffer: the bytes are the CSV text of `rows`. Writing into a `Vec` fails
/// only on rows of different lengths (`check_field_count`).
#[verifier::external_body]
fn write_table(rows: &Vec<Vec<String>>) -> (r: Option<Vec<u8>>)
    ensures
        r matches Some(b) ==> b@ == csv_text_of(rows.deep_view()),
        (forall|i: int|
            0 <= i < rows.deep_view().len() ==> (#[trigger] rows.deep_view()[i]).len()
                == rows.deep_view()[0].len()) ==> r is Some,
{
    let mut wtr = csv::Writer::from_writer(Vec::new());
    for row in rows {
        wtr.write_record(row).ok()?;
    }
    wtr.into_inner().ok()
}

impl View for RowError {
    type V = (nat, RowFault);

    open spec fn view(&self) -> (nat, RowFault) {
        (self.index as nat, self.cause)
    }
}

/// The outcome for one row as the reader handed it over.
pub open spec fn record_outcome(
    headers: Option<Seq<Seq<char>>>,
    rec: Option<Seq<Seq<char>>>,
) -> Result<ZohoView, RowFault> {
    match rec {
        Some(row) => row_outcome(headers, row),
        None => Err(RowFault::Unreadable),
    }
}

/// The target records of the rows that decode, in input order, and the
/// 1-based position and fault of each row that does not.
pub open spec fn converted(headers: Option<Seq<Seq<char>>>, recs: Seq<Option<Seq<Seq<char>>>>) -> (
    Seq<ProtonView>,
    Seq<(nat, RowFault)>,
)
    decreases recs.len(),
{
    if recs.len() == 0 {
        (Seq::empty(), Seq::empty())
    } else {
        let before = converted(headers, recs.drop_last());
        match record_outcome(headers, recs.last()) {
            Ok(z) => (before.0.push(map_record(z)), before.1),
            Err(f) => (before.0, before.1.push((recs.len() as nat, f))),
        }
    }
}

/// The result of converting an export.
pub struct Conversion {
    pub records: Vec<ProtonStyleCsv>,
    pub errors: Vec<RowError>,
}

/// The target records of a conversion, as views.
pub open spec fn records_view(v: Seq<ProtonStyleCsv>) -> Seq<ProtonView> {
    v.map_values(|p: ProtonStyleCsv| p@)
}

/// The errors of a conversion, as views.
pub open spec fn errors_view(v: Seq<RowError>) -> Seq<(nat, RowFault)> {
    v.map_values(|e: RowError| e@)
}

/// Converts every row of a table; a bad row is reported and skipped, never fatal.
pub fn convert_table(table: &CsvTable) -> (r: Conversion)
    ensures
        records_view(r.records@) == converted(table.headers.deep_view(), table.rows.deep_view()).0,
        errors_view(r.errors@) == converted(table.headers.deep_view(), table.rows.deep_view()).1,
{
    let ghost hv = table.headers.deep_view();
    let ghost rv = table.rows.deep_view();
    let mut records: Vec<ProtonStyleCsv> = Vec::new();
    let mut errors: Vec<RowError> = Vec::new();
    let mut i: usize = 0;
    assert(rv.subrange(0, 0) =~= Seq::<Option<Seq<Seq<char>>>>::empty());
    assert(records_view(records@) =~= Seq::<ProtonView>::empty());
    assert(errors_view(errors@) =~= Seq::<(nat, RowFault)>::empty());
    while i < table.rows.len()
        invariant
            hv == table.headers.deep_view(),
            rv == table.rows.deep_view(),
            i <= rv.len(),
            records_view(records@) == converted(hv, rv.subrange(0, i as int)).0,
            errors_view(errors@) == converted(hv, rv.subrange(0, i as int)).1,
        decreases rv.len() - i,
    {
        let ghost next = rv.subrange(0, i + 1);
        assert(next.drop_last() =~= rv.subrange(0, i as int));
        assert(next.last() == rv[i as int]);
        let ghost rec_before = records@;
        let ghost err_before = errors@;
        match &table.rows[i] {
            Some(row) => match decode_row(&table.headers, row) {
                Ok(z) => {
                    let ghost zv = z@;
                    records.push(ProtonStyleCsv::from(z));
                    assert(records_view(records@) =~= records_view(rec_before).push(map_record(zv)));
                },
                Err(f) => {
                    errors.push(RowError { index: i + 1, cause: f });
                    assert(errors_view(errors@) =~= errors_view(err_before).push(((i + 1) as nat, f)));
                },
            },
            None => {
                errors.push(RowError { index: i + 1, cause: RowFault::Unreadable });
                assert(errors_view(errors@) =~= errors_view(err_before).push(
                    ((i + 1) as nat, RowFault::Unreadable),
                ));
            },
        }
        i = i + 1;
    }
    assert(rv.subrange(0, rv.len() as int) =~= rv);
    Conversion { records, errors }
}

/// Reads `text` as a CSV export and converts every row.
pub fn convert_text(text: &[u8]) -> (r: Conversion)
    ensures
        records_view(r.records@) == converted(csv_table_of(text@).0, csv_table_of(text@).1).0,
        errors_view(r.errors@) == converted(csv_table_of(text@).0, csv_table_of(text@).1).1,
{
    let table = read_table(text);
    convert_table(&table)
}

/// An optional column as written out: absent is empty text.
pub open spec fn or_empty(o: Option<Seq<char>>) -> Seq<char> {
    match o {
        Some(s) => s,
        None => Seq::empty(),
    }
}

/// The header row of the target file.
pub open spec fn proton_header() -> Seq<Seq<char>> {
    seq![
        "name"@,
        "url"@,
        "email"@,
        "username"@,
        "password"@,
        "note"@,
        "totp"@,
        "vault"@,
    ]
}

/// The columns of one target record, the URL list joined with commas.
pub open spec fn proton_fields(p: ProtonView) -> Seq<Seq<char>> {
    seq![
        p.name,
        join_with(p.url, ","@),
        or_empty(p.email),
        p.username,
        p.password,
        or_empty(p.note),
        or_empty(p.totp),
        or_empty(p.vault),
    ]
}

/// The rows of the target file: nothing at all for no records, else the
/// header row followed by one row per record, in order.
pub open spec fn output_rows(records: Seq<ProtonView>) -> Seq<Seq<Seq<char>>> {
    if records.len() == 0 {
        Seq::empty()
    } else {
        seq![proton_header()] + records.map_values(|p: ProtonView| proton_fields(p))
    }
}

fn text_or_empty(o: &Option<String>) -> (r: String)
    ensures
        r@ == or_empty(o.deep_view()),
{
    match o {
        Some(s) => s.clone(),
        None => String::new(),
    }
}

/// The columns of one target record, in the order of the target header.
pub fn proton_row(p: &ProtonStyleCsv) -> (r: Vec<String>)
    ensures
        r.deep_view() == proton_fields(p@),
{
    let mut v: Vec<String> = Vec::new();
    v.push(p.name.clone());
    let url = serialize_vec_to_comma_separated(p.url.as_slice());
    assert(p.url@.map_values(|s: String| s@) =~= p.url.deep_view());
    v.push(url);
    v.push(text_or_empty(&p.email));
    v.push(p.username.clone());
    v.push(p.password.clone());
    v.push(text_or_empty(&p.note));
    v.push(text_or_empty(&p.totp));
    v.push(text_or_empty(&p.vault));
    assert(v.deep_view() =~= proton_fields(p@));
    v
}

fn header_row() -> (r: Vec<String>)
    ensures
        r.deep_view() == proton_header(),
{
    let mut v: Vec<String> = Vec::new();
    v.push("name".to_owned());
    v.push("url".to_owned());
    v.push("email".to_owned());
    v.push("username".to_owned());
    v.push("password".to_owned());
    v.push("note".to_owned());
    v.push("totp".to_owned());
    v.push("vault".to_owned());
    assert(v.deep_view() =~= proton_header());
    v
}

/// The rows of the target file for `records`.
pub fn output_table(records: &Vec<ProtonStyleCsv>) -> (r: Vec<Vec<String>>)
    ensures
        r.deep_view() == output_rows(records_view(records@)),
{
    let ghost rv = records_view(records@);
    let mut out: Vec<Vec<String>> = Vec::new();
    if records.len() == 0 {
        assert(out.deep_view() =~= output_rows(rv));
        return out;
    }
    out.push(header_row());
    let mut i: usize = 0;
    while i < records.len()
        invariant
            rv == records_view(records@),
            i <= records@.len(),
            out.deep_view() == seq![proton_header()] + rv.subrange(0, i as int).map_values(
                |p: ProtonView| proton_fields(p),
            ),
        decreases records@.len() - i,
    {
        let ghost before = out.deep_view();
        let row = proton_row(&records[i]);
        out.push(row);
        assert(out.deep_view() =~= before.push(row.deep_view()));
        assert(rv.subrange(0, i + 1).map_values(|p: ProtonView| proton_fields(p)) =~= rv.subrange(
            0,
            i as int,
        ).map_values(|p: ProtonView| proton_fields(p)).push(proton_fields(rv[i as int])));
        i = i + 1;
    }
    assert(rv.subrange(0, rv.len() as int) =~= rv);
    out
}

/// The target file's CSV text for `records`: every row has the header's
/// eight columns, so writing always succeeds.
pub fn render_records(records: &Vec<ProtonStyleCsv>) -> (r: Option<Vec<u8>>)
    ensures
        r matches Some(b) && b@ == csv_text_of(output_rows(records_view(records@))),
{
    let rows = output_table(records);
    proof {
        let rv = records_view(records@);
        let o = rows.deep_view();
        assert forall|i: int| 0 <= i < o.len() implies (#[trigger] o[i]).len() == o[0].len() by {
            assert(o[0] == proton_header());
            if i > 0 {
                assert(o[i] == proton_fields(rv[i - 1]));
            }
        }
    }
    write_table(&rows)
}

} // verus!
