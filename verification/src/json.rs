//! Rendering of the service's JSON responses: hyphenated identifiers,
//! escaped strings, and the `/users` array body.

use vstd::prelude::*;
use vstd::string::*;
use crate::user::{rows_of, User};

verus! {

/// The lower-case hex digit for a value below 16.
pub open spec fn hex_char(d: int) -> char {
    if d == 0 { '0' }
    else if d == 1 { '1' }
    else if d == 2 { '2' }
    else if d == 3 { '3' }
    else if d == 4 { '4' }
    else if d == 5 { '5' }
    else if d == 6 { '6' }
    else if d == 7 { '7' }
    else if d == 8 { '8' }
    else if d == 9 { '9' }
    else if d == 10 { 'a' }
    else if d == 11 { 'b' }
    else if d == 12 { 'c' }
    else if d == 13 { 'd' }
    else if d == 14 { 'e' }
    else { 'f' }
}

/// The low-order `count` hex digits of `n`, most significant first.
pub open spec fn hex_digits(n: u128, count: nat) -> Seq<char>
    decreases count,
{
    if count == 0 {
        Seq::empty()
    } else {
        hex_digits(n / 16, (count - 1) as nat).push(hex_char((n % 16) as int))
    }
}

pub proof fn lemma_hex_digits_len(n: u128, count: nat)
    ensures
        hex_digits(n, count).len() == count,
    decreases count,
{
    if count > 0 {
        lemma_hex_digits_len(n / 16, (count - 1) as nat);
    }
}

/// One lower-case hex digit as text.
fn hex_lit(d: u128) -> (r: &'static str)
    requires
        d < 16,
    ensures
        r@ == seq![hex_char(d as int)],
{
    let r: &'static str = if d == 0 { "0" }
    else if d == 1 { "1" }
    else if d == 2 { "2" }
    else if d == 3 { "3" }
    else if d == 4 { "4" }
    else if d == 5 { "5" }
    else if d == 6 { "6" }
    else if d == 7 { "7" }
    else if d == 8 { "8" }
    else if d == 9 { "9" }
    else if d == 10 { "a" }
    else if d == 11 { "b" }
    else if d == 12 { "c" }
    else if d == 13 { "d" }
    else if d == 14 { "e" }
    else { "f" };
    proof {
        reveal_strlit("0");
        reveal_strlit("1");
        reveal_strlit("2");
        reveal_strlit("3");
        reveal_strlit("4");
        reveal_strlit("5");
        reveal_strlit("6");
        reveal_strlit("7");
        reveal_strlit("8");
        reveal_strlit("9");
        reveal_strlit("a");
        reveal_strlit("b");
        reveal_strlit("c");
        reveal_strlit("d");
        reveal_strlit("e");
        reveal_strlit("f");
        assert(r@ =~= seq![hex_char(d as int)]);
    }
    r
}

/// The low-order `count` hex digits of `n`, most significant first.
fn hex_str(n: u128, count: usize) -> (r: String)
    ensures
        r@ == hex_digits(n, count as nat),
    decreases count,
{
    if count == 0 {
        let r = String::new();
        proof {
            assert(r@ =~= hex_digits(n, 0));
        }
        r
    } else {
        let mut r = hex_str(n / 16, count - 1);
        r.append(hex_lit(n % 16));
        proof {
            assert(r@ =~= hex_digits(n, count as nat));
        }
        r
    }
}

/// The canonical hyphenated form of a 128-bit identifier: its 32 lower-case
/// hex digits in groups of 8, 4, 4, 4 and 12.
pub open spec fn spec_uuid_str(id: u128) -> Seq<char> {
    let d = hex_digits(id, 32);
    d.subrange(0, 8) + seq!['-'] + d.subrange(8, 12) + seq!['-'] + d.subrange(12, 16)
        + seq!['-'] + d.subrange(16, 20) + seq!['-'] + d.subrange(20, 32)
}

pub proof fn lemma_uuid_str_len(id: u128)
    ensures
        spec_uuid_str(id).len() == 36,
{
    lemma_hex_digits_len(id, 32);
}

/// Renders an identifier in its canonical hyphenated form.
pub fn uuid_str(id: u128) -> (r: String)
    ensures
        r@ == spec_uuid_str(id),
        r@.len() == 36,
{
    let digits = hex_str(id, 32);
    proof {
        lemma_hex_digits_len(id, 32);
    }
    let s = digits.as_str();
    let mut r = String::from_str(s.substring_char(0, 8));
    r.append("-");
    r.append(s.substring_char(8, 12));
    r.append("-");
    r.append(s.substring_char(12, 16));
    r.append("-");
    r.append(s.substring_char(16, 20));
    r.append("-");
    r.append(s.substring_char(20, 32));
    proof {
        reveal_strlit("-");
        assert(r@ =~= spec_uuid_str(id));
        lemma_uuid_str_len(id);
    }
    r
}

/// JSON escaping of one character, as the response writer emits it: quote
/// and backslash get a backslash; control characters get their short escape
/// or a `\u00XX` escape; every other character stands as it is.
pub open spec fn esc_char(c: char) -> Seq<char> {
    if c == '"' { seq!['\\', '"'] }
    else if c == '\\' { seq!['\\', '\\'] }
    else if c == '\u{8}' { seq!['\\', 'b'] }
    else if c == '\u{c}' { seq!['\\', 'f'] }
    else if c == '\n' { seq!['\\', 'n'] }
    else if c == '\r' { seq!['\\', 'r'] }
    else if c == '\t' { seq!['\\', 't'] }
    else if (c as u32) < 32 {
        seq!['\\', 'u', '0', '0', hex_char((c as u32) as int / 16), hex_char((c as u32) as int % 16)]
    }
    else { seq![c] }
}

/// JSON escaping of a character sequence, character by character.
pub open spec fn esc(s: Seq<char>) -> Seq<char>
    decreases s.len(),
{
    if s.len() == 0 {
        Seq::empty()
    } else {
        esc(s.drop_last()) + esc_char(s.last())
    }
}

/// Escapes a string for inclusion in a JSON string literal.
pub fn escape_json(s: &str) -> (r: String)
    ensures
        r@ == esc(s@),
{
    let len = s.unicode_len();
    let mut r = String::new();
    let mut i: usize = 0;
    while i < len
        invariant
            len == s@.len(),
            i <= len,
            r@ == esc(s@.subrange(0, i as int)),
        decreases len - i,
    {
        let c = s.get_char(i);
        if c == '"' {
            r.append("\\\"");
            proof { reveal_strlit("\\\""); }
        } else if c == '\\' {
            r.append("\\\\");
            proof { reveal_strlit("\\\\"); }
        } else if c == '\u{8}' {
            r.append("\\b");
            proof { reveal_strlit("\\b"); }
        } else if c == '\u{c}' {
            r.append("\\f");
            proof { reveal_strlit("\\f"); }
        } else if c == '\n' {
            r.append("\\n");
            proof { reveal_strlit("\\n"); }
        } else if c == '\r' {
            r.append("\\r");
            proof { reveal_strlit("\\r"); }
        } else if c == '\t' {
            r.append("\\t");
            proof { reveal_strlit("\\t"); }
        } else if (c as u32) < 32 {
            r.append("\\u00");
            let cu: u32 = c as u32;
            r.append(hex_lit((cu / 16) as u128));
            r.append(hex_lit((cu % 16) as u128));
            proof { reveal_strlit("\\u00"); }
        } else {
            r.append(s.substring_char(i, i + 1));
        }
        proof {
            assert(s@.subrange(0, i + 1).drop_last() =~= s@.subrange(0, i as int));
            assert(s@.subrange(0, i + 1).last() == s@[i as int]);
            assert(r@ =~= esc(s@.subrange(0, i + 1)));
        }
        i = i + 1;
    }
    proof {
        assert(s@.subrange(0, len as int) =~= s@);
    }
    r
}

/// The JSON object text for one row: its identifier in hyphenated form and
/// its escaped username, under the keys `id` and `username` and no others.
pub open spec fn spec_user_json(id: u128, name: Seq<char>) -> Seq<char> {
    "{\"id\":\""@ + spec_uuid_str(id) + "\",\"username\":\""@ + esc(name) + "\"}"@
}

/// Renders one row as a JSON object.
pub fn user_json(u: &User) -> (r: String)
    ensures
        r@ == spec_user_json(u.id, u.username@),
{
    let mut r = String::from_str("{\"id\":\"");
    let id_part = uuid_str(u.id);
    r.append(id_part.as_str());
    r.append("\",\"username\":\"");
    let name_part = escape_json(u.username.as_str());
    r.append(name_part.as_str());
    r.append("\"}");
    proof {
        assert(r@ =~= spec_user_json(u.id, u.username@));
    }
    r
}

/// The row objects joined by commas, without the surrounding brackets.
pub open spec fn spec_users_inner(rows: Seq<(u128, Seq<char>)>) -> Seq<char>
    decreases rows.len(),
{
    if rows.len() == 0 {
        Seq::empty()
    } else if rows.len() == 1 {
        spec_user_json(rows[0].0, rows[0].1)
    } else {
        spec_users_inner(rows.drop_last()) + ","@ + spec_user_json(rows.last().0, rows.last().1)
    }
}

/// The JSON array text for a table: the row objects joined by commas inside
/// brackets, in table order.
pub open spec fn spec_users_json(rows: Seq<(u128, Seq<char>)>) -> Seq<char> {
    "["@ + spec_users_inner(rows) + "]"@
}

/// Renders the rows as the body of a list response.
pub fn users_json(users: &Vec<User>) -> (r: String)
    ensures
        r@ == spec_users_json(rows_of(users@)),
{
    let ghost rows = rows_of(users@);
    let mut r = String::from_str("[");
    let mut i: usize = 0;
    while i < users.len()
        invariant
            rows == rows_of(users@),
            rows.len() == users@.len(),
            i <= users.len(),
            r@ == "["@ + spec_users_inner(rows.subrange(0, i as int)),
        decreases users.len() - i,
    {
        if i > 0 {
            r.append(",");
            proof { reveal_strlit(","); }
        }
        let obj = user_json(&users[i]);
        r.append(obj.as_str());
        proof {
            assert(rows.subrange(0, i + 1).drop_last() =~= rows.subrange(0, i as int));
            assert(rows.subrange(0, i + 1).last() == rows[i as int]);
            assert(rows[i as int] == users@[i as int]@);
            assert(r@ =~= "["@ + spec_users_inner(rows.subrange(0, i + 1)));
        }
        i = i + 1;
    }
    r.append("]");
    proof {
        assert(rows.subrange(0, rows.len() as int) =~= rows);
        assert(r@ =~= spec_users_json(rows));
    }
    r
}

/// Every rendered row object opens with its `id` field and, right after the
/// 36-character identifier, carries its `username` field: no response row
/// lacks either.
pub proof fn lemma_user_json_has_both_fields(id: u128, name: Seq<char>)
    ensures
        spec_user_json(id, name).subrange(0, 7) == "{\"id\":\""@,
        spec_user_json(id, name).subrange(43, 57) == "\",\"username\":\""@,
{
    lemma_uuid_str_len(id);
    reveal_strlit("{\"id\":\"");
    reveal_strlit("\",\"username\":\"");
    assert(spec_user_json(id, name).subrange(0, 7) =~= "{\"id\":\""@);
    assert(spec_user_json(id, name).subrange(43, 57) =~= "\",\"username\":\""@);
}

} // verus!
