//! Properties that hold across the decoders, the mapping and the batch.

use vstd::prelude::*;
use crate::batch::converted;
use crate::decode::{block_lines, labelled, list_of, secret_of};
use crate::record::{map_record, ProtonView, ZohoView};
use crate::table::{header_or_position, row_outcome, text_cell, Column};
use crate::text::{
    has_prefix, is_blank, join_with, lemma_join_split, lemma_split_without_sep, lemma_trim_end_concat,
    lemma_trim_of_trim_end, trim, trim_end, trim_start,
};

verus! {

/// The user name that the `SecretData` column of a row spells.
pub open spec fn row_user_name(headers: Option<Seq<Seq<char>>>, row: Seq<Seq<char>>) -> Seq<char> {
    labelled(
        block_lines(text_cell(header_or_position(headers), row, Column::SecretData)),
        "User Name:"@,
    )
}

/// A row whose secret block names a user containing `@` is mapped to a record
/// whose email is that user name.
pub proof fn lemma_email_from_user_name(headers: Option<Seq<Seq<char>>>, row: Seq<Seq<char>>)
    requires
        row_outcome(headers, row) is Ok,
        row_user_name(headers, row).contains('@'),
    ensures
        map_record(row_outcome(headers, row)->Ok_0).email == Some(row_user_name(headers, row)),
{
}

/// A row whose secret block names a user without `@` is mapped to a record
/// with no email, whatever else the row holds.
pub proof fn lemma_no_email_without_at(headers: Option<Seq<Seq<char>>>, row: Seq<Seq<char>>)
    requires
        row_outcome(headers, row) is Ok,
        !row_user_name(headers, row).contains('@'),
    ensures
        map_record(row_outcome(headers, row)->Ok_0).email is None,
{
}

/// Mapping a record whose fields are all empty gives a record whose optional
/// fields are all absent and whose other fields are all empty.
pub proof fn lemma_empty_record_maps_to_empty(z: ZohoView)
    requires
        z.password_name.len() == 0,
        z.password_url.len() == 0,
        z.secret_data.username.len() == 0,
        z.secret_data.password.len() == 0,
        z.notes.len() == 0,
        z.totp is None,
        z.folder_name.len() == 0,
    ensures
        map_record(z) == (ProtonView {
            name: Seq::empty(),
            url: Seq::empty(),
            email: None,
            username: Seq::empty(),
            password: Seq::empty(),
            note: None,
            totp: None,
            vault: None,
        }),
{
    assert(z.password_name =~= Seq::<char>::empty());
    assert(z.password_url =~= Seq::<Seq<char>>::empty());
    assert(z.secret_data.username =~= Seq::<char>::empty());
    assert(z.secret_data.password =~= Seq::<char>::empty());
    assert(is_blank(z.notes));
    assert(is_blank(z.folder_name));
    assert(!z.secret_data.username.contains('@'));
}

/// Every row of an export ends up either as a record or as an error, never both
/// and never neither: a bad row does not stop the batch.
pub proof fn lemma_every_row_accounted(
    headers: Option<Seq<Seq<char>>>,
    recs: Seq<Option<Seq<Seq<char>>>>,
)
    ensures
        converted(headers, recs).0.len() + converted(headers, recs).1.len() == recs.len(),
    decreases recs.len(),
{
    if recs.len() > 0 {
        lemma_every_row_accounted(headers, recs.drop_last());
    }
}


/// A block made of the one line `User Name:<v>` names the user `<v>`, trimmed.
pub proof fn lemma_user_name_line(v: Seq<char>)
    requires
        !v.contains('\n'),
    ensures
        secret_of("User Name:"@ + v).username == trim(v),
{
    let label = "User Name:"@;
    reveal_strlit("User Name:");
    let b = label + v;
    assert(!b.contains('\n')) by {
        if b.contains('\n') {
            let k = choose|k: int| 0 <= k < b.len() && b[k] == '\n';
            if k >= label.len() {
                assert(v[k - label.len()] == '\n');
            }
        }
    }
    lemma_split_without_sep(b, '\n');
    assert(b[0] == 'U');
    assert(trim_start(b) == b);
    lemma_trim_end_concat(label, v);
    assert(label.last() == ':');
    assert(trim_end(label) == label);
    let t = label + trim_end(v);
    assert(trim_end(v).len() == 0 ==> t =~= label);
    assert(trim(b) == t);
    assert(t.subrange(0, label.len() as int) =~= label);
    assert(has_prefix(t, label));
    assert(t.subrange(label.len() as int, t.len() as int) =~= trim_end(v));
    lemma_trim_of_trim_end(v);
    let lines = block_lines(b);
    assert(lines.len() == 1 && lines.last() == b);
}

/// A record whose secret block is the one line `User Name:<v>`, where `<v>`
/// trimmed holds an `@`, is mapped to a record whose email is `<v>` trimmed.
pub proof fn lemma_email_from_user_line(z: ZohoView, v: Seq<char>)
    requires
        !v.contains('\n'),
        z.secret_data == secret_of("User Name:"@ + v),
        trim(v).contains('@'),
    ensures
        map_record(z).email == Some(trim(v)),
{
    lemma_user_name_line(v);
}


/// Joining a decoded list column with commas gives back the column's text,
/// unless that text was blank.
pub proof fn lemma_list_round_trip(s: Seq<char>)
    requires
        !is_blank(s),
    ensures
        join_with(list_of(s), ","@) == s,
{
    reveal_strlit(",");
    assert(","@ =~= seq![',']);
    lemma_join_split(s, ',');
}

} // verus!
