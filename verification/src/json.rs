//! Structured output: the displayed announcements as one JSON document, an
//! array of objects whose field names match the announcement record. A
//! missing description or date serializes as `null`; categories as an
//! array of strings. Strings are escaped: quote, backslash, and control
//! characters (the common three named, the rest as `\u00XX`).

use vstd::prelude::*;
use crate::chars::{chars_to_string, str_to_chars};
use crate::item::{ItemView, RssItem};
use crate::words::{join_sep, lemma_join_sep_push, push_all};

verus! {

/// Hexadecimal digit for a value below sixteen.
pub open spec fn hex_digit(d: int) -> char {
    if d < 10 {
        crate::num::digit_char(d)
    } else if d == 10 {
        'a'
    } else if d == 11 {
        'b'
    } else if d == 12 {
        'c'
    } else if d == 13 {
        'd'
    } else if d == 14 {
        'e'
    } else {
        'f'
    }
}

/// The JSON escape of one character.
pub open spec fn json_escape_char(c: char) -> Seq<char> {
    if c == '"' {
        seq!['\\', '"']
    } else if c == '\\' {
        seq!['\\', '\\']
    } else if c == '\n' {
        seq!['\\', 'n']
    } else if c == '\r' {
        seq!['\\', 'r']
    } else if c == '\t' {
        seq!['\\', 't']
    } else if (c as u32) < 32 {
        seq!['\\', 'u', '0', '0', hex_digit((c as u32) as int / 16), hex_digit(
            (c as u32) as int % 16,
        )]
    } else {
        seq![c]
    }
}

/// The JSON escape of a string's characters from position `i` on.
pub open spec fn json_escape_at(s: Seq<char>, i: int) -> Seq<char>
    decreases s.len() - i when 0 <= i <= s.len()
{
    if i >= s.len() {
        Seq::empty()
    } else {
        json_escape_char(s[i]) + json_escape_at(s, i + 1)
    }
}

/// A JSON string literal: escaped and quoted.
pub open spec fn json_string(s: Seq<char>) -> Seq<char> {
    seq!['"'] + json_escape_at(s, 0) + seq!['"']
}

/// An optional field: `null` when absent.
pub open spec fn json_opt(d: Option<Seq<char>>) -> Seq<char> {
    match d {
        None => "null"@,
        Some(s) => json_string(s),
    }
}

/// An array of JSON strings.
pub open spec fn json_str_array(ss: Seq<Seq<char>>) -> Seq<char> {
    seq!['['] + join_sep(ss.map_values(|s: Seq<char>| json_string(s)), ","@) + seq![']']
}

/// One announcement as a JSON object.
pub open spec fn json_item(it: ItemView) -> Seq<char> {
    "{\"title\":"@ + json_string(it.title) + ",\"link\":"@ + json_string(it.link)
        + ",\"description\":"@ + json_opt(it.description) + ",\"pub_date\":"@ + json_opt(
        it.pub_date,
    ) + ",\"categories\":"@ + json_str_array(it.categories) + "}"@
}

/// A sequence of announcements as a JSON array.
pub open spec fn spec_items_json(items: Seq<ItemView>) -> Seq<char> {
    seq!['['] + join_sep(items.map_values(|it: ItemView| json_item(it)), ","@) + seq![']']
}

/// A hexadecimal digit character as written by `hex_digit`.
pub open spec fn is_hex(c: char) -> bool {
    (48 <= c as u32 <= 57) || (97 <= c as u32 <= 102)
}

/// The value of a hexadecimal digit character.
pub open spec fn hex_val(c: char) -> int {
    if 48 <= c as u32 <= 57 {
        c as u32 - 48
    } else {
        c as u32 - 87
    }
}

/// Read a JSON string body (after the opening quote) up to and including
/// its closing quote: the decoded characters and what follows the string.
pub open spec fn parse_str_body(s: Seq<char>) -> Option<(Seq<char>, Seq<char>)>
    decreases s.len(),
{
    if s.len() == 0 {
        None
    } else if s[0] == '"' {
        Some((Seq::empty(), s.skip(1)))
    } else if s[0] == '\\' {
        if s.len() >= 2 && (s[1] == '"' || s[1] == '\\') {
            match parse_str_body(s.skip(2)) {
                Some((w, r)) => Some((seq![s[1]] + w, r)),
                None => None,
            }
        } else if s.len() >= 2 && s[1] == 'n' {
            match parse_str_body(s.skip(2)) {
                Some((w, r)) => Some((seq!['\n'] + w, r)),
                None => None,
            }
        } else if s.len() >= 2 && s[1] == 'r' {
            match parse_str_body(s.skip(2)) {
                Some((w, r)) => Some((seq!['\r'] + w, r)),
                None => None,
            }
        } else if s.len() >= 2 && s[1] == 't' {
            match parse_str_body(s.skip(2)) {
                Some((w, r)) => Some((seq!['\t'] + w, r)),
                None => None,
            }
        } else if s.len() >= 6 && s[1] == 'u' && s[2] == '0' && s[3] == '0' && is_hex(s[4])
            && is_hex(s[5]) {
            match parse_str_body(s.skip(6)) {
                Some((w, r)) => Some(
                    (seq![(((16 * hex_val(s[4]) + hex_val(s[5])) as u8) as char)] + w, r),
                ),
                None => None,
            }
        } else {
            None
        }
    } else {
        match parse_str_body(s.skip(1)) {
            Some((w, r)) => Some((seq![s[0]] + w, r)),
            None => None,
        }
    }
}

/// Reading back the escape of any string consumes exactly the escaped
/// characters and the closing quote, and restores the string.
pub proof fn lemma_parse_str_body(v: Seq<char>, k: int, tail: Seq<char>)
    requires
        0 <= k <= v.len(),
    ensures
        parse_str_body(json_escape_at(v, k) + seq!['"'] + tail) == Some((v.skip(k), tail)),
    decreases v.len() - k,
{
    let s = json_escape_at(v, k) + seq!['"'] + tail;
    if k == v.len() {
        assert(json_escape_at(v, k) =~= Seq::<char>::empty());
        assert(s[0] == '"');
        assert(s.skip(1) =~= tail);
        assert(v.skip(k) =~= Seq::<char>::empty());
    } else {
        lemma_parse_str_body(v, k + 1, tail);
        let c = v[k];
        let chunk = json_escape_char(c);
        assert(json_escape_at(v, k) == chunk + json_escape_at(v, k + 1));
        let s2 = json_escape_at(v, k + 1) + seq!['"'] + tail;
        assert(seq![c] + v.skip(k + 1) =~= v.skip(k));
        if c == '"' || c == '\\' {
            assert(s[0] == '\\' && s[1] == c);
            assert(s.skip(2) =~= s2);
        } else if c == '\n' {
            assert(s[0] == '\\' && s[1] == 'n');
            assert(s.skip(2) =~= s2);
        } else if c == '\r' {
            assert(s[0] == '\\' && s[1] == 'r');
            assert(s.skip(2) =~= s2);
        } else if c == '\t' {
            assert(s[0] == '\\' && s[1] == 't');
            assert(s.skip(2) =~= s2);
        } else if (c as u32) < 32 {
            let d = (c as u32) as int;
            assert(s[0] == '\\' && s[1] == 'u' && s[2] == '0' && s[3] == '0');
            assert(s[4] == hex_digit(d / 16) && s[5] == hex_digit(d % 16));
            assert(is_hex(hex_digit(d / 16)) && hex_val(hex_digit(d / 16)) == d / 16);
            assert(is_hex(hex_digit(d % 16)) && hex_val(hex_digit(d % 16)) == d % 16);
            vstd::arithmetic::div_mod::lemma_fundamental_div_mod(d, 16);
            vstd::utf8::char_u32_cast(c, c as u32);
            assert((((16 * hex_val(s[4]) + hex_val(s[5])) as u8) as char) == ((c as u32) as char));
            assert(s.skip(6) =~= s2);
        } else {
            assert(s[0] == c && c != '"' && c != '\\');
            assert(s.skip(1) =~= s2);
        }
    }
}

/// A successful string read consumes at least the closing quote.
pub proof fn lemma_parse_str_body_len(s: Seq<char>)
    ensures
        parse_str_body(s) matches Some(p) ==> p.1.len() < s.len(),
    decreases s.len(),
{
    if s.len() == 0 {
    } else if s[0] == '"' {
    } else if s[0] == '\\' {
        if s.len() >= 2 && (s[1] == '"' || s[1] == '\\' || s[1] == 'n' || s[1] == 'r' || s[1]
            == 't') {
            lemma_parse_str_body_len(s.skip(2));
        } else if s.len() >= 6 && s[1] == 'u' {
            lemma_parse_str_body_len(s.skip(6));
        }
    } else {
        lemma_parse_str_body_len(s.skip(1));
    }
}

/// Strip an expected literal prefix.
pub open spec fn peel(s: Seq<char>, p: Seq<char>) -> Option<Seq<char>> {
    if p.len() <= s.len() && s.subrange(0, p.len() as int) == p {
        Some(s.skip(p.len() as int))
    } else {
        None
    }
}

pub proof fn lemma_peel(p: Seq<char>, t: Seq<char>)
    ensures
        peel(p + t, p) == Some(t),
{
    assert((p + t).subrange(0, p.len() as int) =~= p);
    assert((p + t).skip(p.len() as int) =~= t);
}

/// Read an optional field: `null`, or a JSON string.
pub open spec fn parse_opt_field(s: Seq<char>) -> Option<(Option<Seq<char>>, Seq<char>)> {
    if s.len() >= 4 && s.subrange(0, 4) == "null"@ {
        Some((None, s.skip(4)))
    } else if s.len() >= 1 && s[0] == '"' {
        match parse_str_body(s.skip(1)) {
            Some((w, r)) => Some((Some(w), r)),
            None => None,
        }
    } else {
        None
    }
}

/// Reading back an optional field restores it.
pub proof fn lemma_parse_opt_field(d: Option<Seq<char>>, tail: Seq<char>)
    ensures
        parse_opt_field(json_opt(d) + tail) == Some((d, tail)),
{
    reveal_strlit("null");
    let s = json_opt(d) + tail;
    match d {
        None => {
            assert(s.subrange(0, 4) =~= "null"@);
            assert(s.skip(4) =~= tail);
        },
        Some(v) => {
            assert(s[0] == '"');
            if s.len() >= 4 {
                assert(s.subrange(0, 4)[0] == '"');
                assert("null"@[0] == 'n');
            }
            assert(s.skip(1) =~= json_escape_at(v, 0) + seq!['"'] + tail);
            lemma_parse_str_body(v, 0, tail);
            assert(v.skip(0) =~= v);
        },
    }
}

/// Read the strings of a non-empty array up to and including `]`.
pub open spec fn parse_str_list(s: Seq<char>) -> Option<(Seq<Seq<char>>, Seq<char>)>
    decreases s.len() via parse_str_list_dec
{
    if s.len() >= 1 && s[0] == '"' {
        match parse_str_body(s.skip(1)) {
            Some((w, r)) => if r.len() >= 1 && r[0] == ']' {
                Some((seq![w], r.skip(1)))
            } else if r.len() >= 1 && r[0] == ',' {
                match parse_str_list(r.skip(1)) {
                    Some((ws, r2)) => Some((seq![w] + ws, r2)),
                    None => None,
                }
            } else {
                None
            },
            None => None,
        }
    } else {
        None
    }
}

#[via_fn]
proof fn parse_str_list_dec(s: Seq<char>) {
    if s.len() >= 1 && s[0] == '"' {
        lemma_parse_str_body_len(s.skip(1));
    }
}

/// Read a string array.
pub open spec fn parse_str_array(s: Seq<char>) -> Option<(Seq<Seq<char>>, Seq<char>)> {
    if s.len() >= 2 && s[0] == '[' && s[1] == ']' {
        Some((Seq::empty(), s.skip(2)))
    } else if s.len() >= 1 && s[0] == '[' {
        parse_str_list(s.skip(1))
    } else {
        None
    }
}

/// Reading back a non-empty joined string list restores it.
pub proof fn lemma_parse_str_list(ss: Seq<Seq<char>>, tail: Seq<char>)
    requires
        ss.len() >= 1,
    ensures
        parse_str_list(
            join_sep(ss.map_values(|x: Seq<char>| json_string(x)), ","@) + seq![']'] + tail,
        ) == Some((ss, tail)),
    decreases ss.len(),
{
    reveal_strlit(",");
    let m = ss.map_values(|x: Seq<char>| json_string(x));
    let s = join_sep(m, ","@) + seq![']'] + tail;
    assert(m[0] == json_string(ss[0]));
    if ss.len() == 1 {
        assert(join_sep(m, ","@) == m[0]);
        let t1 = seq![']'] + tail;
        assert(s =~= seq!['"'] + (json_escape_at(ss[0], 0) + seq!['"'] + t1));
        assert(s[0] == '"');
        assert(s.skip(1) =~= json_escape_at(ss[0], 0) + seq!['"'] + t1);
        lemma_parse_str_body(ss[0], 0, t1);
        assert(ss[0].skip(0) =~= ss[0]);
        assert(t1[0] == ']');
        assert(t1.skip(1) =~= tail);
        assert(seq![ss[0]] =~= ss);
    } else {
        assert(join_sep(m, ","@) == m[0] + ","@ + join_sep(m.skip(1), ","@));
        let t1 = ","@ + join_sep(m.skip(1), ","@) + seq![']'] + tail;
        assert(s =~= seq!['"'] + (json_escape_at(ss[0], 0) + seq!['"'] + t1));
        assert(s[0] == '"');
        assert(s.skip(1) =~= json_escape_at(ss[0], 0) + seq!['"'] + t1);
        lemma_parse_str_body(ss[0], 0, t1);
        assert(ss[0].skip(0) =~= ss[0]);
        assert(t1[0] == ',');
        assert(m.skip(1) =~= ss.skip(1).map_values(|x: Seq<char>| json_string(x)));
        lemma_parse_str_list(ss.skip(1), tail);
        assert(t1.skip(1) =~= join_sep(ss.skip(1).map_values(|x: Seq<char>| json_string(x)), ","@)
            + seq![']'] + tail);
        assert(seq![ss[0]] + ss.skip(1) =~= ss);
    }
}

/// Reading back a string array restores it.
pub proof fn lemma_parse_str_array(ss: Seq<Seq<char>>, tail: Seq<char>)
    ensures
        parse_str_array(json_str_array(ss) + tail) == Some((ss, tail)),
{
    let m = ss.map_values(|x: Seq<char>| json_string(x));
    let s = json_str_array(ss) + tail;
    assert(s[0] == '[');
    if ss.len() == 0 {
        assert(join_sep(m, ","@) == Seq::<char>::empty());
        assert(s =~= seq!['[', ']'] + tail);
        assert(s[1] == ']');
        assert(s.skip(2) =~= tail);
        assert(Seq::<Seq<char>>::empty() =~= ss);
    } else {
        assert(m.len() >= 1);
        assert(m[0] == json_string(ss[0]));
        if join_sep(m, ","@).len() >= 1 {
            assert(join_sep(m, ","@)[0] == '"') by {
                if m.len() == 1 {
                    assert(join_sep(m, ","@) == m[0]);
                } else {
                    assert(join_sep(m, ","@) == m[0] + ","@ + join_sep(m.skip(1), ","@));
                }
                assert(m[0][0] == '"');
            };
        }
        assert(json_string(ss[0]).len() >= 2);
        assert(s[1] == '"');
        assert(s.skip(1) =~= join_sep(m, ","@) + seq![']'] + tail);
        lemma_parse_str_list(ss, tail);
    }
}

/// Read the trailing fields of an announcement object: description,
/// publication date and categories, up to and including `}`.
pub open spec fn parse_item_tail(s: Seq<char>) -> Option<
    (Option<Seq<char>>, Option<Seq<char>>, Seq<Seq<char>>, Seq<char>),
> {
    match peel(s, ",\"description\":"@) {
        None => None,
        Some(s5) => match parse_opt_field(s5) {
            None => None,
            Some((description, s6)) => match peel(s6, ",\"pub_date\":"@) {
                None => None,
                Some(s7) => match parse_opt_field(s7) {
                    None => None,
                    Some((pub_date, s8)) => match peel(s8, ",\"categories\":"@) {
                        None => None,
                        Some(s9) => match parse_str_array(s9) {
                            None => None,
                            Some((categories, s10)) => match peel(s10, "}"@) {
                                None => None,
                                Some(s11) => Some((description, pub_date, categories, s11)),
                            },
                        },
                    },
                },
            },
        },
    }
}

/// Read one announcement object.
pub open spec fn parse_item_obj(s: Seq<char>) -> Option<(ItemView, Seq<char>)> {
    match peel(s, "{\"title\":"@) {
        None => None,
        Some(s1) => if s1.len() >= 1 && s1[0] == '"' {
            match parse_str_body(s1.skip(1)) {
                None => None,
                Some((title, s2)) => match peel(s2, ",\"link\":"@) {
                    None => None,
                    Some(s3) => if s3.len() >= 1 && s3[0] == '"' {
                        match parse_str_body(s3.skip(1)) {
                            None => None,
                            Some((link, s4)) => match parse_item_tail(s4) {
                                None => None,
                                Some((description, pub_date, categories, s11)) => Some(
                                    (
                                        ItemView {
                                            title,
                                            link,
                                            description,
                                            pub_date,
                                            categories,
                                        },
                                        s11,
                                    ),
                                ),
                            },
                        }
                    } else {
                        None
                    },
                },
            }
        } else {
            None
        },
    }
}

/// An optional field read consumes at least one character.
pub proof fn lemma_parse_opt_field_len(s: Seq<char>)
    ensures
        parse_opt_field(s) matches Some(p) ==> p.1.len() < s.len(),
{
    if s.len() >= 1 && s[0] == '"' && !(s.len() >= 4 && s.subrange(0, 4) == "null"@) {
        lemma_parse_str_body_len(s.skip(1));
    }
}

/// A string-list read consumes at least one character.
pub proof fn lemma_parse_str_list_len(s: Seq<char>)
    ensures
        parse_str_list(s) matches Some(p) ==> p.1.len() < s.len(),
    decreases s.len(),
{
    if s.len() >= 1 && s[0] == '"' {
        lemma_parse_str_body_len(s.skip(1));
        match parse_str_body(s.skip(1)) {
            Some((w, r)) => {
                if r.len() >= 1 && r[0] == ',' {
                    lemma_parse_str_list_len(r.skip(1));
                }
            },
            None => {},
        }
    }
}

/// An array read consumes at least one character.
pub proof fn lemma_parse_str_array_len(s: Seq<char>)
    ensures
        parse_str_array(s) matches Some(p) ==> p.1.len() < s.len(),
{
    if !(s.len() >= 2 && s[0] == '[' && s[1] == ']') && s.len() >= 1 && s[0] == '[' {
        lemma_parse_str_list_len(s.skip(1));
    }
}

/// A tail read consumes at least one character.
pub proof fn lemma_parse_item_tail_len(s: Seq<char>)
    ensures
        parse_item_tail(s) matches Some(p) ==> p.3.len() < s.len(),
{
    reveal_strlit(",\"description\":");
    match peel(s, ",\"description\":"@) {
        None => {},
        Some(s5) => {
            lemma_parse_opt_field_len(s5);
            match parse_opt_field(s5) {
                None => {},
                Some((d, s6)) => match peel(s6, ",\"pub_date\":"@) {
                    None => {},
                    Some(s7) => {
                        lemma_parse_opt_field_len(s7);
                        match parse_opt_field(s7) {
                            None => {},
                            Some((pd, s8)) => match peel(s8, ",\"categories\":"@) {
                                None => {},
                                Some(s9) => {
                                    lemma_parse_str_array_len(s9);
                                },
                            },
                        }
                    },
                },
            }
        },
    }
}

/// An object read consumes at least one character.
pub proof fn lemma_parse_item_len(s: Seq<char>)
    ensures
        parse_item_obj(s) matches Some(p) ==> p.1.len() < s.len(),
{
    match peel(s, "{\"title\":"@) {
        None => {},
        Some(s1) => {
            assert(s1.len() <= s.len());
            if s1.len() >= 1 && s1[0] == '"' {
                lemma_parse_str_body_len(s1.skip(1));
                match parse_str_body(s1.skip(1)) {
                    None => {},
                    Some((title, s2)) => {
                        assert(s2.len() < s.len());
                        match peel(s2, ",\"link\":"@) {
                            None => {},
                            Some(s3) => if s3.len() >= 1 && s3[0] == '"' {
                                lemma_parse_str_body_len(s3.skip(1));
                                match parse_str_body(s3.skip(1)) {
                                    None => {},
                                    Some((link, s4)) => {
                                        lemma_parse_item_tail_len(s4);
                                    },
                                }
                            } else {
                            },
                        }
                    },
                }
            }
        },
    }
}

/// Reading back the trailing fields of an emitted object restores them.
#[verifier::rlimit(100)]
pub proof fn lemma_parse_item_tail(
    description: Option<Seq<char>>,
    pub_date: Option<Seq<char>>,
    categories: Seq<Seq<char>>,
    tail: Seq<char>,
)
    ensures
        parse_item_tail(
            ",\"description\":"@ + json_opt(description) + ",\"pub_date\":"@ + json_opt(pub_date)
                + ",\"categories\":"@ + json_str_array(categories) + "}"@ + tail,
        ) == Some((description, pub_date, categories, tail)),
{
    let jd = json_opt(description);
    let jp = json_opt(pub_date);
    let ja = json_str_array(categories);
    let s = ",\"description\":"@ + jd + ",\"pub_date\":"@ + jp + ",\"categories\":"@ + ja + "}"@
        + tail;
    let rest5 = jd + ",\"pub_date\":"@ + jp + ",\"categories\":"@ + ja + "}"@ + tail;
    assert(s =~= ",\"description\":"@ + rest5);
    lemma_peel(",\"description\":"@, rest5);

    let rest6 = ",\"pub_date\":"@ + jp + ",\"categories\":"@ + ja + "}"@ + tail;
    assert(rest5 =~= jd + rest6);
    lemma_parse_opt_field(description, rest6);
    assert(parse_opt_field(rest5) == Some((description, rest6)));

    let rest7 = jp + ",\"categories\":"@ + ja + "}"@ + tail;
    assert(rest6 =~= ",\"pub_date\":"@ + rest7);
    lemma_peel(",\"pub_date\":"@, rest7);

    let rest8 = ",\"categories\":"@ + ja + "}"@ + tail;
    assert(rest7 =~= jp + rest8);
    lemma_parse_opt_field(pub_date, rest8);
    assert(parse_opt_field(rest7) == Some((pub_date, rest8)));

    let rest9 = ja + "}"@ + tail;
    assert(rest8 =~= ",\"categories\":"@ + rest9);
    lemma_peel(",\"categories\":"@, rest9);

    let rest10 = "}"@ + tail;
    assert(rest9 =~= ja + rest10);
    lemma_parse_str_array(categories, rest10);
    assert(parse_str_array(rest9) == Some((categories, rest10)));

    lemma_peel("}"@, tail);
}

/// The emitted object with a tail, regrouped behind its leading label.
#[verifier::rlimit(100)]
proof fn lemma_item_shape(it: ItemView, tail: Seq<char>)
    ensures
        json_item(it) + tail == "{\"title\":"@ + (json_string(it.title) + ",\"link\":"@
            + json_string(it.link) + ",\"description\":"@ + json_opt(it.description)
            + ",\"pub_date\":"@ + json_opt(it.pub_date) + ",\"categories\":"@ + json_str_array(
            it.categories,
        ) + "}"@ + tail),
{
    assert(json_item(it) + tail =~= "{\"title\":"@ + (json_string(it.title) + ",\"link\":"@
        + json_string(it.link) + ",\"description\":"@ + json_opt(it.description)
        + ",\"pub_date\":"@ + json_opt(it.pub_date) + ",\"categories\":"@ + json_str_array(
        it.categories,
    ) + "}"@ + tail));
}

/// Splitting the leading string value off a field sequence.
#[verifier::rlimit(100)]
proof fn lemma_shape_title(it: ItemView, tail: Seq<char>)
    ensures
        json_string(it.title) + ",\"link\":"@ + json_string(it.link) + ",\"description\":"@
            + json_opt(it.description) + ",\"pub_date\":"@ + json_opt(it.pub_date)
            + ",\"categories\":"@ + json_str_array(it.categories) + "}"@ + tail == json_string(
            it.title,
        ) + (",\"link\":"@ + (json_string(it.link) + ",\"description\":"@ + json_opt(it.description)
            + ",\"pub_date\":"@ + json_opt(it.pub_date) + ",\"categories\":"@ + json_str_array(
            it.categories,
        ) + "}"@ + tail)),
{
    assert(json_string(it.title) + ",\"link\":"@ + json_string(it.link) + ",\"description\":"@
        + json_opt(it.description) + ",\"pub_date\":"@ + json_opt(it.pub_date)
        + ",\"categories\":"@ + json_str_array(it.categories) + "}"@ + tail =~= json_string(
        it.title,
    ) + (",\"link\":"@ + (json_string(it.link) + ",\"description\":"@ + json_opt(it.description)
        + ",\"pub_date\":"@ + json_opt(it.pub_date) + ",\"categories\":"@ + json_str_array(
        it.categories,
    ) + "}"@ + tail)));
}

/// Splitting the link value off the remaining field sequence.
#[verifier::rlimit(100)]
proof fn lemma_shape_link(it: ItemView, tail: Seq<char>)
    ensures
        json_string(it.link) + ",\"description\":"@ + json_opt(it.description) + ",\"pub_date\":"@
            + json_opt(it.pub_date) + ",\"categories\":"@ + json_str_array(it.categories) + "}"@
            + tail == json_string(it.link) + (",\"description\":"@ + json_opt(it.description)
            + ",\"pub_date\":"@ + json_opt(it.pub_date) + ",\"categories\":"@ + json_str_array(
            it.categories,
        ) + "}"@ + tail),
{
    assert(json_string(it.link) + ",\"description\":"@ + json_opt(it.description)
        + ",\"pub_date\":"@ + json_opt(it.pub_date) + ",\"categories\":"@ + json_str_array(
        it.categories,
    ) + "}"@ + tail =~= json_string(it.link) + (",\"description\":"@ + json_opt(it.description)
        + ",\"pub_date\":"@ + json_opt(it.pub_date) + ",\"categories\":"@ + json_str_array(
        it.categories,
    ) + "}"@ + tail));
}

/// Reading a JSON string value at the head of a sequence.
#[verifier::rlimit(100)]
proof fn lemma_string_field(v: Seq<char>, rest: Seq<char>)
    ensures
        (json_string(v) + rest).len() >= 1,
        (json_string(v) + rest)[0] == '"',
        parse_str_body((json_string(v) + rest).skip(1)) == Some((v, rest)),
{
    assert((json_string(v) + rest)[0] == '"');
    assert((json_string(v) + rest).skip(1) =~= json_escape_at(v, 0) + seq!['"'] + rest);
    lemma_parse_str_body(v, 0, rest);
    assert(v.skip(0) =~= v);
}

/// Reading back one emitted announcement object restores it.
#[verifier::rlimit(100)]
pub proof fn lemma_parse_item(it: ItemView, tail: Seq<char>)
    ensures
        parse_item_obj(json_item(it) + tail) == Some((it, tail)),
{
    let jt = json_string(it.title);
    let jl = json_string(it.link);
    let jd = json_opt(it.description);
    let jp = json_opt(it.pub_date);
    let ja = json_str_array(it.categories);
    let s = json_item(it) + tail;
    let rest1 = jt + ",\"link\":"@ + jl + ",\"description\":"@ + jd + ",\"pub_date\":"@ + jp
        + ",\"categories\":"@ + ja + "}"@ + tail;
    lemma_item_shape(it, tail);
    lemma_peel("{\"title\":"@, rest1);
    assert(peel(s, "{\"title\":"@) == Some(rest1));

    let rest2 = ",\"link\":"@ + (jl + ",\"description\":"@ + jd + ",\"pub_date\":"@ + jp
        + ",\"categories\":"@ + ja + "}"@ + tail);
    lemma_shape_title(it, tail);
    assert(rest1 == jt + rest2);
    lemma_string_field(it.title, rest2);
    assert(parse_str_body(rest1.skip(1)) == Some((it.title, rest2)));

    let rest3 = jl + ",\"description\":"@ + jd + ",\"pub_date\":"@ + jp + ",\"categories\":"@ + ja
        + "}"@ + tail;
    lemma_peel(",\"link\":"@, rest3);
    assert(peel(rest2, ",\"link\":"@) == Some(rest3));

    let rest4 = ",\"description\":"@ + jd + ",\"pub_date\":"@ + jp + ",\"categories\":"@ + ja
        + "}"@ + tail;
    lemma_shape_link(it, tail);
    assert(rest3 == jl + rest4);
    lemma_string_field(it.link, rest4);
    assert(parse_str_body(rest3.skip(1)) == Some((it.link, rest4)));

    lemma_parse_item_tail(it.description, it.pub_date, it.categories, tail);
    assert(parse_item_tail(rest4) == Some((it.description, it.pub_date, it.categories, tail)));
}

/// Read the objects of a non-empty array up to and including `]`.
pub open spec fn parse_items_list(s: Seq<char>) -> Option<(Seq<ItemView>, Seq<char>)>
    decreases s.len() via parse_items_list_dec
{
    match parse_item_obj(s) {
        None => None,
        Some((it, r)) => if r.len() >= 1 && r[0] == ']' {
            Some((seq![it], r.skip(1)))
        } else if r.len() >= 1 && r[0] == ',' {
            match parse_items_list(r.skip(1)) {
                Some((its, r2)) => Some((seq![it] + its, r2)),
                None => None,
            }
        } else {
            None
        },
    }
}

#[via_fn]
proof fn parse_items_list_dec(s: Seq<char>) {
    lemma_parse_item_len(s);
}

/// Read a whole document: an array of announcement objects and nothing
/// after it.
pub open spec fn parse_items_doc(s: Seq<char>) -> Option<Seq<ItemView>> {
    if s.len() == 2 && s[0] == '[' && s[1] == ']' {
        Some(Seq::empty())
    } else if s.len() >= 1 && s[0] == '[' {
        match parse_items_list(s.skip(1)) {
            Some((its, r)) => if r.len() == 0 {
                Some(its)
            } else {
                None
            },
            None => None,
        }
    } else {
        None
    }
}

/// Reading back a non-empty joined object list restores it.
#[verifier::rlimit(100)]
pub proof fn lemma_parse_items_list(items: Seq<ItemView>, tail: Seq<char>)
    requires
        items.len() >= 1,
    ensures
        parse_items_list(
            join_sep(items.map_values(|it: ItemView| json_item(it)), ","@) + seq![']'] + tail,
        ) == Some((items, tail)),
    decreases items.len(),
{
    reveal_strlit(",");
    let m = items.map_values(|it: ItemView| json_item(it));
    let s = join_sep(m, ","@) + seq![']'] + tail;
    assert(m[0] == json_item(items[0]));
    if items.len() == 1 {
        assert(join_sep(m, ","@) == m[0]);
        let t1 = seq![']'] + tail;
        assert(s =~= json_item(items[0]) + t1);
        lemma_parse_item(items[0], t1);
        assert(t1[0] == ']');
        assert(t1.skip(1) =~= tail);
        assert(seq![items[0]] =~= items);
    } else {
        assert(join_sep(m, ","@) == m[0] + ","@ + join_sep(m.skip(1), ","@));
        let t1 = ","@ + join_sep(m.skip(1), ","@) + seq![']'] + tail;
        assert(s =~= json_item(items[0]) + t1);
        lemma_parse_item(items[0], t1);
        assert(t1[0] == ',');
        assert(m.skip(1) =~= items.skip(1).map_values(|it: ItemView| json_item(it)));
        lemma_parse_items_list(items.skip(1), tail);
        assert(t1.skip(1) =~= join_sep(items.skip(1).map_values(|it: ItemView| json_item(it)), ","@)
            + seq![']'] + tail);
        assert(seq![items[0]] + items.skip(1) =~= items);
    }
}

/// Round-trip of the structured output: reading back the JSON document of
/// any announcement sequence restores that sequence field for field.
pub proof fn lemma_json_round_trip(items: Seq<ItemView>)
    ensures
        parse_items_doc(spec_items_json(items)) == Some(items),
{
    let m = items.map_values(|it: ItemView| json_item(it));
    let doc = spec_items_json(items);
    assert(doc[0] == '[');
    if items.len() == 0 {
        assert(join_sep(m, ","@) == Seq::<char>::empty());
        assert(doc =~= seq!['[', ']']);
        assert(Seq::<ItemView>::empty() =~= items);
    } else {
        lemma_parse_items_list(items, Seq::empty());
        assert(doc.skip(1) =~= join_sep(m, ","@) + seq![']'] + Seq::<char>::empty());
        assert(!(doc.len() == 2 && doc[1] == ']')) by {
            reveal_strlit("{\"title\":");
            assert(m[0] == json_item(items[0]));
            assert(json_item(items[0]).len() >= "{\"title\":"@.len());
            if m.len() == 1 {
                assert(join_sep(m, ","@) == m[0]);
            } else {
                assert(join_sep(m, ","@) == m[0] + ","@ + join_sep(m.skip(1), ","@));
            }
            assert(join_sep(m, ","@).len() >= m[0].len());
            assert(doc.len() >= 2 + "{\"title\":"@.len());
        };
    }
}

/// Hexadecimal digit, exact for `hex_digit`.
fn hex_digit_exec(d: u32) -> (c: char)
    requires
        d < 16,
    ensures
        c == hex_digit(d as int),
{
    if d == 0 {
        '0'
    } else if d == 1 {
        '1'
    } else if d == 2 {
        '2'
    } else if d == 3 {
        '3'
    } else if d == 4 {
        '4'
    } else if d == 5 {
        '5'
    } else if d == 6 {
        '6'
    } else if d == 7 {
        '7'
    } else if d == 8 {
        '8'
    } else if d == 9 {
        '9'
    } else if d == 10 {
        'a'
    } else if d == 11 {
        'b'
    } else if d == 12 {
        'c'
    } else if d == 13 {
        'd'
    } else if d == 14 {
        'e'
    } else {
        'f'
    }
}

/// Escape one character, exact for `json_escape_char`.
fn escape_char_exec(c: char) -> (r: Vec<char>)
    ensures
        r@ == json_escape_char(c),
{
    let mut r: Vec<char> = Vec::new();
    if c == '"' {
        r.push('\\');
        r.push('"');
        proof {
            assert(r@ =~= json_escape_char(c));
        }
    } else if c == '\\' {
        r.push('\\');
        r.push('\\');
        proof {
            assert(r@ =~= json_escape_char(c));
        }
    } else if c == '\n' {
        r.push('\\');
        r.push('n');
        proof {
            assert(r@ =~= json_escape_char(c));
        }
    } else if c == '\r' {
        r.push('\\');
        r.push('r');
        proof {
            assert(r@ =~= json_escape_char(c));
        }
    } else if c == '\t' {
        r.push('\\');
        r.push('t');
        proof {
            assert(r@ =~= json_escape_char(c));
        }
    } else if (c as u32) < 32 {
        let code = c as u32;
        r.push('\\');
        r.push('u');
        r.push('0');
        r.push('0');
        r.push(hex_digit_exec(code / 16));
        r.push(hex_digit_exec(code % 16));
        proof {
            assert(r@ =~= json_escape_char(c));
        }
    } else {
        r.push(c);
        proof {
            assert(r@ =~= json_escape_char(c));
        }
    }
    r
}

/// Escape a string's characters, exact for `json_escape_at`.
fn escape_exec(v: &Vec<char>) -> (r: Vec<char>)
    ensures
        r@ == json_escape_at(v@, 0),
{
    let n = v.len();
    let mut r: Vec<char> = Vec::new();
    let mut i: usize = 0;
    while i < n
        invariant
            i <= n,
            n == v@.len(),
            json_escape_at(v@, 0) == r@ + json_escape_at(v@, i as int),
        decreases n - i,
    {
        let e = escape_char_exec(v[i]);
        push_all(&mut r, &e);
        proof {
            assert(json_escape_at(v@, i as int) == json_escape_char(v@[i as int])
                + json_escape_at(v@, i + 1));
        }
        i += 1;
    }
    proof {
        assert(r@ + json_escape_at(v@, i as int) =~= r@);
    }
    r
}

/// A quoted escaped JSON string, exact for `json_string`.
fn json_string_exec(v: &Vec<char>) -> (r: Vec<char>)
    ensures
        r@ == json_string(v@),
{
    let mut r: Vec<char> = Vec::new();
    r.push('"');
    let e = escape_exec(v);
    push_all(&mut r, &e);
    r.push('"');
    proof {
        assert(r@ =~= json_string(v@));
    }
    r
}

/// An optional field, exact for `json_opt`.
fn json_opt_exec(d: &Option<String>) -> (r: Vec<char>)
    ensures
        r@ == json_opt(crate::text::opt_view(d)),
{
    match d {
        None => str_to_chars("null"),
        Some(s) => {
            let sc = str_to_chars(s.as_str());
            json_string_exec(&sc)
        },
    }
}

/// An array of strings, exact for `json_str_array`.
fn json_str_array_exec(ss: &Vec<String>) -> (r: Vec<char>)
    ensures
        r@ == json_str_array(ss@.map_values(|s: String| s@)),
{
    let ghost m = ss@.map_values(|s: String| s@).map_values(|s: Seq<char>| json_string(s));
    let mut r: Vec<char> = Vec::new();
    r.push('[');
    let mut k: usize = 0;
    while k < ss.len()
        invariant
            k <= ss@.len(),
            m == ss@.map_values(|s: String| s@).map_values(|s: Seq<char>| json_string(s)),
            r@ == seq!['['] + join_sep(m.take(k as int), ","@),
        decreases ss@.len() - k,
    {
        if k > 0 {
            let comma = str_to_chars(",");
            push_all(&mut r, &comma);
        }
        let sc = str_to_chars(ss[k].as_str());
        let js = json_string_exec(&sc);
        push_all(&mut r, &js);
        proof {
            assert(m[k as int] == json_string(ss@[k as int]@));
            assert(m.take(k + 1) =~= m.take(k as int).push(m[k as int]));
            lemma_join_sep_push(m.take(k as int), m[k as int], ","@);
            if k > 0 {
                assert(r@ =~= seq!['['] + (join_sep(m.take(k as int), ","@) + ","@ + m[k as int]));
            } else {
                assert(m.take(0) =~= Seq::<Seq<char>>::empty());
                assert(r@ =~= seq!['['] + m[0]);
            }
        }
        k += 1;
    }
    r.push(']');
    proof {
        assert(m.take(ss@.len() as int) =~= m);
        assert(r@ =~= json_str_array(ss@.map_values(|s: String| s@)));
    }
    r
}

/// One announcement object, exact for `json_item`.
fn json_item_exec(it: &RssItem) -> (r: Vec<char>)
    ensures
        r@ == json_item(it@),
{
    let mut r = str_to_chars("{\"title\":");
    let tc = str_to_chars(it.title.as_str());
    let tj = json_string_exec(&tc);
    push_all(&mut r, &tj);
    let p1 = str_to_chars(",\"link\":");
    push_all(&mut r, &p1);
    let lc = str_to_chars(it.link.as_str());
    let lj = json_string_exec(&lc);
    push_all(&mut r, &lj);
    let p2 = str_to_chars(",\"description\":");
    push_all(&mut r, &p2);
    let dj = json_opt_exec(&it.description);
    push_all(&mut r, &dj);
    let p3 = str_to_chars(",\"pub_date\":");
    push_all(&mut r, &p3);
    let pj = json_opt_exec(&it.pub_date);
    push_all(&mut r, &pj);
    let p4 = str_to_chars(",\"categories\":");
    push_all(&mut r, &p4);
    let cj = json_str_array_exec(&it.categories);
    push_all(&mut r, &cj);
    let p5 = str_to_chars("}");
    push_all(&mut r, &p5);
    proof {
        assert(r@ =~= json_item(it@));
    }
    r
}

/// The displayed announcements as one JSON document, exact for
/// `spec_items_json`.
pub fn items_to_json(items: &Vec<RssItem>) -> (r: String)
    ensures
        r@ == spec_items_json(items@.map_values(|it: RssItem| it@)),
{
    let ghost m = items@.map_values(|it: RssItem| it@).map_values(|it: ItemView| json_item(it));
    let mut r: Vec<char> = Vec::new();
    r.push('[');
    let mut k: usize = 0;
    while k < items.len()
        invariant
            k <= items@.len(),
            m == items@.map_values(|it: RssItem| it@).map_values(|it: ItemView| json_item(it)),
            r@ == seq!['['] + join_sep(m.take(k as int), ","@),
        decreases items@.len() - k,
    {
        if k > 0 {
            let comma = str_to_chars(",");
            push_all(&mut r, &comma);
        }
        let ij = json_item_exec(&items[k]);
        push_all(&mut r, &ij);
        proof {
            assert(m[k as int] == json_item(items@[k as int]@));
            assert(m.take(k + 1) =~= m.take(k as int).push(m[k as int]));
            lemma_join_sep_push(m.take(k as int), m[k as int], ","@);
            if k > 0 {
                assert(r@ =~= seq!['['] + (join_sep(m.take(k as int), ","@) + ","@ + m[k as int]));
            } else {
                assert(m.take(0) =~= Seq::<Seq<char>>::empty());
                assert(r@ =~= seq!['['] + m[0]);
            }
        }
        k += 1;
    }
    r.push(']');
    proof {
        assert(m.take(items@.len() as int) =~= m);
        assert(r@ =~= spec_items_json(items@.map_values(|it: RssItem| it@)));
    }
    chars_to_string(&r)
}

} // verus!
