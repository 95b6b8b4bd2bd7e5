//! Decoders that turn one raw column of the export into a richer value.

use vstd::prelude::*;
use vstd::string::*;
use crate::record::{SecretData, SecretView};
use crate::text::{
    has_prefix, is_blank, join_strs, join_with, split_on, split_str, str_is_blank,
    strip_prefix_str, trim, trim_str,
};

verus! {

/// Why a column could not be decoded.
#[derive(Debug, Clone, Copy, PartialEq, Eq, Structural)]
pub enum DecodeError {
    /// The integer column held something other than 0 or 1.
    InvalidFlag,
    /// The integer column was not an integer in `0..=255`.
    InvalidNumber,
}

/// A comma-joined list column: nothing when blank, else every piece between
/// commas, untrimmed.
pub open spec fn list_of(s: Seq<char>) -> Seq<Seq<char>> {
    if is_blank(s) {
        Seq::empty()
    } else {
        split_on(s, ',')
    }
}

/// Decodes a comma-joined list column.
pub fn csv_str_to_vec(s: &str) -> (r: Vec<String>)
    ensures
        r.deep_view() == list_of(s@),
{
    if str_is_blank(s) {
        let r: Vec<String> = Vec::new();
        assert(r.deep_view() =~= Seq::<Seq<char>>::empty());
        r
    } else {
        split_str(s, ',')
    }
}

/// Joins a list back into one comma-separated column.
pub fn serialize_vec_to_comma_separated(value: &[String]) -> (r: String)
    ensures
        r@ == join_with(value@.map_values(|p: String| p@), ","@),
{
    join_strs(value, ",")
}

/// The value of the last of `lines` that, trimmed, begins with `label`: the
/// rest of that line, trimmed. Empty when no line carries the label.
pub open spec fn labelled(lines: Seq<Seq<char>>, label: Seq<char>) -> Seq<char>
    decreases lines.len(),
{
    if lines.len() == 0 {
        Seq::empty()
    } else {
        let t = trim(lines.last());
        if has_prefix(t, label) {
            trim(t.subrange(label.len() as int, t.len() as int))
        } else {
            labelled(lines.drop_last(), label)
        }
    }
}

/// The lines of an embedded block. A final empty line and a `\r` before each
/// `\n` are kept here; both vanish once a line is trimmed.
pub open spec fn block_lines(s: Seq<char>) -> Seq<Seq<char>> {
    split_on(s, '\n')
}

/// The sub-fields that an embedded block spells.
pub open spec fn secret_of(s: Seq<char>) -> SecretView {
    SecretView {
        secret_type: labelled(block_lines(s), "SecretType:"@),
        username: labelled(block_lines(s), "User Name:"@),
        password: labelled(block_lines(s), "Password:"@),
    }
}

/// Decodes the embedded `SecretData` block of `SecretType:`, `User Name:` and
/// `Password:` lines; unknown lines are skipped and missing labels give "".
pub fn parse_secret_data(s: &str) -> (r: SecretData)
    ensures
        r.secret_type@ == labelled(block_lines(s@), "SecretType:"@),
        r.username@ == labelled(block_lines(s@), "User Name:"@),
        r.password@ == labelled(block_lines(s@), "Password:"@),
        r@ == secret_of(s@),
{
    let lines = split_str(s, '\n');
    let ghost views = lines@.map_values(|p: String| p@);
    assert(views =~= lines.deep_view());
    let mut secret_type = String::new();
    let mut username = String::new();
    let mut password = String::new();
    let ghost st = "SecretType:"@;
    let ghost un = "User Name:"@;
    let ghost pw = "Password:"@;
    proof {
        reveal_strlit("SecretType:");
        reveal_strlit("User Name:");
        reveal_strlit("Password:");
    }
    let mut i: usize = 0;
    assert(views.subrange(0, 0) =~= Seq::<Seq<char>>::empty());
    while i < lines.len()
        invariant
            views == lines@.map_values(|p: String| p@),
            views == block_lines(s@),
            st == "SecretType:"@,
            un == "User Name:"@,
            pw == "Password:"@,
            st.len() == 11 && st[0] == 'S',
            un.len() == 10 && un[0] == 'U',
            pw.len() == 9 && pw[0] == 'P',
            i <= lines@.len(),
            secret_type@ == labelled(views.subrange(0, i as int), st),
            username@ == labelled(views.subrange(0, i as int), un),
            password@ == labelled(views.subrange(0, i as int), pw),
        decreases lines@.len() - i,
    {
        let line = trim_str(lines[i].as_str());
        let ghost t = line@;
        let ghost next = views.subrange(0, i + 1);
        assert(next.drop_last() =~= views.subrange(0, i as int));
        assert(next.last() == views[i as int]);
        if let Some(rest) = strip_prefix_str(line.as_str(), "SecretType:") {
            secret_type = trim_str(rest);
            assert(!has_prefix(t, un) && !has_prefix(t, pw)) by {
                assert(t.subrange(0, 10)[0] == t[0]);
                assert(t.subrange(0, 9)[0] == t[0]);
                assert(t.subrange(0, 11)[0] == t[0]);
            }
        } else if let Some(rest) = strip_prefix_str(line.as_str(), "User Name:") {
            username = trim_str(rest);
            assert(!has_prefix(t, pw)) by {
                assert(t.subrange(0, 10)[0] == t[0]);
                assert(t.subrange(0, 9)[0] == t[0]);
            }
        } else if let Some(rest) = strip_prefix_str(line.as_str(), "Password:") {
            password = trim_str(rest);
        }
        i = i + 1;
    }
    assert(views.subrange(0, lines@.len() as int) =~= views);
    SecretData { secret_type, username, password }
}

/// Decodes the favourite flag: 0 is false, 1 is true, anything else fails.
pub fn bool_from_int(v: u8) -> (r: Result<bool, DecodeError>)
    ensures
        v == 0 ==> r == Ok::<bool, DecodeError>(false),
        v == 1 ==> r == Ok::<bool, DecodeError>(true),
        v > 1 ==> r == Err::<bool, DecodeError>(DecodeError::InvalidFlag),
{
    match v {
        0 => Ok(false),
        1 => Ok(true),
        _ => Err(DecodeError::InvalidFlag),
    }
}

/// The value of a digit in the given radix (10 or 16), if it is one.
pub open spec fn digit_value(c: char, radix: nat) -> Option<nat> {
    if '0' <= c && c <= '9' {
        Some((c as int - '0' as int) as nat)
    } else if radix == 16 && 'a' <= c && c <= 'f' {
        Some((c as int - 'a' as int + 10) as nat)
    } else if radix == 16 && 'A' <= c && c <= 'F' {
        Some((c as int - 'A' as int + 10) as nat)
    } else {
        None
    }
}

/// The number a non-empty run of digits spells, if every character is a digit.
pub open spec fn digits_value(s: Seq<char>, radix: nat) -> Option<nat>
    decreases s.len(),
{
    if s.len() == 0 {
        None
    } else if s.len() == 1 {
        digit_value(s[0], radix)
    } else {
        match (digits_value(s.drop_last(), radix), digit_value(s.last(), radix)) {
            (Some(a), Some(d)) => Some(a * radix + d),
            _ => None,
        }
    }
}

/// An unsigned number with an optional leading `+`, as `u8::from_str_radix` reads it.
pub open spec fn unsigned_value(s: Seq<char>, radix: nat) -> Option<nat> {
    if s.len() > 0 && s[0] == '+' {
        digits_value(s.drop_first(), radix)
    } else {
        digits_value(s, radix)
    }
}

/// An integer column read as `u8`: hexadecimal after a `0x` prefix, decimal
/// otherwise; values above 255 are rejected.
pub open spec fn int_field(s: Seq<char>) -> Option<u8> {
    let v = if has_prefix(s, seq!['0', 'x']) {
        unsigned_value(s.subrange(2, s.len() as int), 16)
    } else {
        unsigned_value(s, 10)
    };
    match v {
        Some(n) => if n <= 255 {
            Some(n as u8)
        } else {
            None
        },
        None => None,
    }
}

fn char_digit(c: char, radix: u32) -> (r: Option<u32>)
    requires
        radix == 10 || radix == 16,
    ensures
        r matches Some(d) ==> digit_value(c, radix as nat) == Some(d as nat) && d < radix,
        r is None ==> digit_value(c, radix as nat) is None,
{
    if '0' <= c && c <= '9' {
        Some((c as u32) - ('0' as u32))
    } else if radix == 16 && 'a' <= c && c <= 'f' {
        Some((c as u32) - ('a' as u32) + 10)
    } else if radix == 16 && 'A' <= c && c <= 'F' {
        Some((c as u32) - ('A' as u32) + 10)
    } else {
        None
    }
}

proof fn lemma_cap_step(a: nat, d: nat, radix: nat, capped: nat)
    requires
        radix == 10 || radix == 16,
        d < radix,
        capped == if a > 255 { 256 } else { a },
    ensures
        (if capped * radix + d > 255 { 256 } else { capped * radix + d }) == (if a * radix + d
            > 255 {
            256nat
        } else {
            a * radix + d
        }),
{
    if a > 255 {
        assert(a * radix >= 256) by (nonlinear_arith)
            requires
                a > 255,
                radix >= 10,
        ;
        assert(capped * radix >= 256) by (nonlinear_arith)
            requires
                capped == 256,
                radix >= 10,
        ;
    }
}

/// Reads `s[from..]` as digits in `radix`, keeping the value only while it fits in `u8`.
fn digits_u8(s: &str, from: usize, radix: u32) -> (r: Option<u8>)
    requires
        radix == 10 || radix == 16,
        from <= s@.len(),
    ensures
        r == (match digits_value(s@.subrange(from as int, s@.len() as int), radix as nat) {
            Some(n) => if n <= 255 {
                Some(n as u8)
            } else {
                None
            },
            None => None,
        }),
{
    let n = s.unicode_len();
    if from == n {
        return None;
    }
    let ghost t = s@.subrange(from as int, n as int);
    let mut acc: u32 = 0;
    let mut i: usize = from;
    while i < n
        invariant
            n == s@.len(),
            from < n,
            from <= i <= n,
            radix == 10 || radix == 16,
            t == s@.subrange(from as int, n as int),
            acc <= 256,
            i > from ==> (digits_value(t.subrange(0, i - from), radix as nat) matches Some(v)
                && acc == (if v > 255 {
                256nat
            } else {
                v
            })),
            i == from ==> acc == 0,
        decreases n - i,
    {
        let c = s.get_char(i);
        let ghost pre = t.subrange(0, i - from);
        let ghost cur = t.subrange(0, i + 1 - from);
        assert(cur.drop_last() =~= pre);
        assert(cur.last() == c);
        match char_digit(c, radix) {
            None => {
                proof {
                    lemma_digits_none_extends(t, (i + 1 - from) as int, radix as nat);
                }
                return None;
            },
            Some(d) => {
                if i == from {
                    assert(cur.len() == 1);
                    acc = d;
                } else {
                    let ghost v = digits_value(pre, radix as nat)->0;
                    proof {
                        lemma_cap_step(v, d as nat, radix as nat, acc as nat);
                    }
                    assert(acc * radix + d <= 256 * 16 + 16) by (nonlinear_arith)
                        requires
                            acc <= 256,
                            radix <= 16,
                            d < radix,
                    ;
                    let next = acc * radix + d;
                    acc = if next > 255 {
                        256
                    } else {
                        next
                    };
                }
            },
        }
        i = i + 1;
    }
    assert(t.subrange(0, n - from) =~= t);
    if acc > 255 {
        None
    } else {
        Some(acc as u8)
    }
}

proof fn lemma_digits_none_extends(t: Seq<char>, k: int, radix: nat)
    requires
        1 <= k <= t.len(),
        digit_value(t[k - 1], radix) is None,
    ensures
        digits_value(t, radix) is None,
    decreases t.len() - k,
{
    if k < t.len() {
        assert(t.drop_last()[k - 1] == t[k - 1]);
        lemma_digits_none_extends(t.drop_last(), k, radix);
    }
}

/// Reads an integer column as `u8`, the way the export's `Favorite` column is read.
pub fn parse_int_field(s: &str) -> (r: Option<u8>)
    ensures
        r == int_field(s@),
{
    let n = s.unicode_len();
    let mut start: usize = 0;
    let mut radix: u32 = 10;
    if n >= 2 && s.get_char(0) == '0' && s.get_char(1) == 'x' {
        start = 2;
        radix = 16;
        assert(s@.subrange(0, 2) =~= seq!['0', 'x']);
    } else {
        assert(!has_prefix(s@, seq!['0', 'x'])) by {
            if n >= 2 {
                assert(s@.subrange(0, 2)[0] == s@[0]);
                assert(s@.subrange(0, 2)[1] == s@[1]);
            }
        }
    }
    let ghost body = s@.subrange(start as int, n as int);
    assert(start == 0 ==> body =~= s@);
    if start < n && s.get_char(start) == '+' {
        assert(body.drop_first() =~= s@.subrange(start + 1, n as int));
        digits_u8(s, start + 1, radix)
    } else {
        if start < n {
            assert(body[0] == s@[start as int]);
        }
        digits_u8(s, start, radix)
    }
}

} // verus!
