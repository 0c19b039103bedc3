//! Text normalization: reduce a raw HTML description to plain terminal
//! text. Tags are removed; the block-level tags `p`, `div` and `br`
//! (opening, closing or self-closed, lowercase) leave a whitespace
//! separator so words do not run together, while inline tags leave none.
//! The common entities `&lt;`, `&gt;`, `&amp;`, `&quot;`, `&#39;` and
//! `&nbsp;` are decoded after tag removal. Runs of whitespace collapse to
//! single spaces and the ends are trimmed. Unless the full text is asked
//! for, the result is cut to its first 50 whitespace-delimited words: if a
//! period occurs in that window the cut moves back to the last period, and
//! an ellipsis marker is appended.
//!
//! A `<` that is never closed by a `>` is kept as literal text.

use vstd::prelude::*;
use crate::chars::{eq_at, lemma_find_characterizes, spec_find, str_to_chars, subvec, chars_to_string, chars_eq};
use crate::words::{join_words, join_with_spaces, split_words, words, push_all};

verus! {

/// Lowercase ASCII letter, the characters tag names are read from.
pub open spec fn is_tag_letter(c: char) -> bool {
    97 <= c as u32 <= 122
}

/// End of the run of tag-name letters starting at `i`.
pub open spec fn name_end(s: Seq<char>, i: int) -> int
    decreases s.len() - i when 0 <= i <= s.len()
{
    if i >= s.len() || !is_tag_letter(s[i]) {
        i
    } else {
        name_end(s, i + 1)
    }
}

pub proof fn lemma_name_end(s: Seq<char>, i: int)
    requires
        0 <= i <= s.len(),
    ensures
        i <= name_end(s, i) <= s.len(),
    decreases s.len() - i,
{
    if !(i >= s.len() || !is_tag_letter(s[i])) {
        lemma_name_end(s, i + 1);
    }
}

/// `name_end` is pinned down by its characterization.
pub proof fn lemma_name_end_is(s: Seq<char>, i: int, j: int)
    requires
        0 <= i <= j <= s.len(),
        forall|t: int| i <= t < j ==> is_tag_letter(s[t]),
        j == s.len() || !is_tag_letter(s[j]),
    ensures
        name_end(s, i) == j,
    decreases j - i,
{
    if i < j {
        lemma_name_end_is(s, i + 1, j);
    }
}

/// The inside of a tag (between `<` and `>`) names a block-level element:
/// `p`, `div` or `br`, possibly closing (leading `/`) and possibly with
/// trailing attributes or a self-closing slash.
pub open spec fn is_block_tag(inner: Seq<char>) -> bool {
    let off: int = if inner.len() > 0 && inner[0] == '/' {
        1
    } else {
        0
    };
    let name = inner.subrange(off, name_end(inner, off));
    name == seq!['p'] || name == seq!['d', 'i', 'v'] || name == seq!['b', 'r']
}

/// Remove tags: a block tag becomes one space, any other tag vanishes, and
/// text is kept. A `<` with no later `>` is kept with the rest verbatim.
pub open spec fn strip_html(s: Seq<char>) -> Seq<char>
    decreases s.len() via strip_html_dec
{
    if s.len() == 0 {
        Seq::empty()
    } else if s[0] == '<' {
        match spec_find(s, seq!['>'], 0) {
            Some(g) => (if is_block_tag(s.subrange(1, g)) {
                seq![' ']
            } else {
                Seq::empty()
            }) + strip_html(s.skip(g + 1)),
            None => s,
        }
    } else {
        seq![s[0]] + strip_html(s.skip(1))
    }
}

#[via_fn]
proof fn strip_html_dec(s: Seq<char>) {
    if s.len() > 0 && s[0] == '<' {
        lemma_find_characterizes(s, seq!['>'], 0);
    }
}

/// Decode the six common entities; everything else is kept as it stands.
pub open spec fn decode_entities(s: Seq<char>) -> Seq<char>
    decreases s.len(),
{
    if s.len() == 0 {
        Seq::empty()
    } else if s.len() >= 4 && s.subrange(0, 4) == seq!['&', 'l', 't', ';'] {
        seq!['<'] + decode_entities(s.skip(4))
    } else if s.len() >= 4 && s.subrange(0, 4) == seq!['&', 'g', 't', ';'] {
        seq!['>'] + decode_entities(s.skip(4))
    } else if s.len() >= 5 && s.subrange(0, 5) == seq!['&', 'a', 'm', 'p', ';'] {
        seq!['&'] + decode_entities(s.skip(5))
    } else if s.len() >= 6 && s.subrange(0, 6) == seq!['&', 'q', 'u', 'o', 't', ';'] {
        seq!['"'] + decode_entities(s.skip(6))
    } else if s.len() >= 5 && s.subrange(0, 5) == seq!['&', '#', '3', '9', ';'] {
        seq!['\''] + decode_entities(s.skip(5))
    } else if s.len() >= 6 && s.subrange(0, 6) == seq!['&', 'n', 'b', 's', 'p', ';'] {
        seq![' '] + decode_entities(s.skip(6))
    } else {
        seq![s[0]] + decode_entities(s.skip(1))
    }
}

/// The whitespace-delimited words of the cleaned description.
pub open spec fn desc_words(h: Seq<char>) -> Seq<Seq<char>> {
    words(decode_entities(strip_html(h)))
}

/// The fully cleaned description: tags stripped, entities decoded,
/// whitespace collapsed and trimmed.
pub open spec fn spec_clean_full(h: Seq<char>) -> Seq<char> {
    join_words(desc_words(h))
}

/// Index of the last period in `s`.
pub open spec fn last_dot(s: Seq<char>) -> Option<int>
    decreases s.len(),
{
    if s.len() == 0 {
        None
    } else if s[s.len() - 1] == '.' {
        Some(s.len() - 1)
    } else {
        last_dot(s.drop_last())
    }
}

pub proof fn lemma_last_dot(s: Seq<char>)
    ensures
        last_dot(s) matches Some(d) ==> 0 <= d < s.len() && s[d] == '.',
    decreases s.len(),
{
    if s.len() > 0 && s[s.len() - 1] != '.' {
        lemma_last_dot(s.drop_last());
    }
}

/// The ellipsis marker appended to a truncated summary.
pub open spec fn ellipsis() -> Seq<char> {
    seq!['.', '.', '.']
}

/// The truncated summary: at most the first 50 words; if truncation
/// happened, cut back to the last period in that window when there is one,
/// and append the ellipsis marker.
pub open spec fn spec_summary(h: Seq<char>) -> Seq<char> {
    let ws = desc_words(h);
    if ws.len() <= 50 {
        join_words(ws)
    } else {
        let t = join_words(ws.take(50));
        match last_dot(t) {
            Some(d) => t.subrange(0, d) + ellipsis(),
            None => t + ellipsis(),
        }
    }
}

/// View of an optional string.
pub open spec fn opt_view(h: &Option<String>) -> Option<Seq<char>> {
    match *h {
        Some(s) => Some(s@),
        None => None,
    }
}

/// What an optional raw description renders to: nothing when absent, the
/// full cleaned text or the 50-word summary otherwise.
pub open spec fn spec_format_description(d: Option<Seq<char>>, full: bool) -> Seq<char> {
    match d {
        None => Seq::empty(),
        Some(h) => if full {
            spec_clean_full(h)
        } else {
            spec_summary(h)
        },
    }
}

/// A description of at most 50 words is returned unmodified by the
/// summary: truncation and the ellipsis marker only apply beyond 50 words.
pub proof fn lemma_short_description_unchanged(h: Seq<char>)
    ensures
        desc_words(h).len() <= 50 ==> spec_summary(h) == spec_clean_full(h),
{
}

/// A description of more than 50 words always gets the ellipsis marker:
/// the summary ends with it, and what precedes it is a prefix of the first
/// 50 words joined (the cut point moves back at most to the last period).
pub proof fn lemma_long_description_truncated(h: Seq<char>)
    requires
        desc_words(h).len() > 50,
    ensures
        spec_summary(h).len() >= 3,
        spec_summary(h).subrange(spec_summary(h).len() - 3, spec_summary(h).len() as int)
            == ellipsis(),
        spec_summary(h).len() <= join_words(desc_words(h).take(50)).len() + 3,
        spec_summary(h).subrange(0, spec_summary(h).len() - 3) == join_words(
            desc_words(h).take(50),
        ).subrange(0, spec_summary(h).len() - 3),
{
    let t = join_words(desc_words(h).take(50));
    lemma_last_dot(t);
    match last_dot(t) {
        Some(d) => {
            let r = t.subrange(0, d) + ellipsis();
            assert(r.subrange(r.len() - 3, r.len() as int) =~= ellipsis());
            assert(r.subrange(0, r.len() - 3) =~= t.subrange(0, d));
            assert(t.subrange(0, d) =~= t.subrange(0, r.len() - 3));
        },
        None => {
            let r = t + ellipsis();
            assert(r.subrange(r.len() - 3, r.len() as int) =~= ellipsis());
            assert(r.subrange(0, r.len() - 3) =~= t);
            assert(t.subrange(0, r.len() - 3) =~= t);
        },
    }
}

/// The inside of a tag names a block element, exact for `is_block_tag`.
fn is_block_tag_exec(inner: &Vec<char>) -> (b: bool)
    ensures
        b == is_block_tag(inner@),
{
    let n = inner.len();
    let off: usize = if n > 0 && inner[0] == '/' {
        1
    } else {
        0
    };
    let mut j = off;
    while j < n && (inner[j] as u32) >= 97 && (inner[j] as u32) <= 122
        invariant
            off <= j <= n,
            n == inner@.len(),
            forall|t: int| off <= t < j ==> is_tag_letter(inner@[t]),
        decreases n - j,
    {
        j += 1;
    }
    proof {
        lemma_name_end_is(inner@, off as int, j as int);
    }
    let name = subvec(inner, off, j);
    let p_pat = str_to_chars("p");
    let div_pat = str_to_chars("div");
    let br_pat = str_to_chars("br");
    proof {
        reveal_strlit("p");
        reveal_strlit("div");
        reveal_strlit("br");
        assert(p_pat@ =~= seq!['p']);
        assert(div_pat@ =~= seq!['d', 'i', 'v']);
        assert(br_pat@ =~= seq!['b', 'r']);
    }
    if chars_eq(&name, &p_pat) {
        return true;
    }
    if chars_eq(&name, &div_pat) {
        return true;
    }
    if chars_eq(&name, &br_pat) {
        return true;
    }
    false
}

/// Remove tags, exact for `strip_html`.
fn strip_html_exec(v: &Vec<char>) -> (r: Vec<char>)
    ensures
        r@ == strip_html(v@),
    decreases v@.len(),
{
    if v.len() == 0 {
        let r: Vec<char> = Vec::new();
        proof {
            assert(r@ =~= strip_html(v@));
        }
        return r;
    }
    if v[0] == '<' {
        let gt = str_to_chars(">");
        proof {
            reveal_strlit(">");
            assert(gt@ =~= seq!['>']);
        }
        match crate::chars::find_from(v, &gt, 0) {
            Some(g) => {
                proof {
                    lemma_find_characterizes(v@, seq!['>'], 0);
                    assert(v@.subrange(g as int, g + 1)[0] == v@[g as int]);
                    assert(v@[g as int] == '>');
                }
                let inner = subvec(v, 1, g);
                let rest = subvec(v, g + 1, v.len());
                proof {
                    assert(rest@ =~= v@.skip(g + 1));
                }
                let tail = strip_html_exec(&rest);
                let mut out: Vec<char> = Vec::new();
                if is_block_tag_exec(&inner) {
                    out.push(' ');
                    push_all(&mut out, &tail);
                    proof {
                        assert(out@ =~= seq![' '] + strip_html(v@.skip(g + 1)));
                    }
                } else {
                    push_all(&mut out, &tail);
                    proof {
                        assert(out@ =~= Seq::<char>::empty() + strip_html(v@.skip(g + 1)));
                    }
                }
                out
            },
            None => {
                let r = subvec(v, 0, v.len());
                proof {
                    assert(r@ =~= v@);
                }
                r
            },
        }
    } else {
        let rest = subvec(v, 1, v.len());
        proof {
            assert(rest@ =~= v@.skip(1));
        }
        let tail = strip_html_exec(&rest);
        let mut out: Vec<char> = Vec::new();
        out.push(v[0]);
        push_all(&mut out, &tail);
        proof {
            assert(out@ =~= seq![v@[0]] + strip_html(v@.skip(1)));
        }
        out
    }
}

/// Decode entities, exact for `decode_entities`.
fn decode_entities_exec(v: &Vec<char>) -> (r: Vec<char>)
    ensures
        r@ == decode_entities(v@),
    decreases v@.len(),
{
    if v.len() == 0 {
        let r: Vec<char> = Vec::new();
        proof {
            assert(r@ =~= decode_entities(v@));
        }
        return r;
    }
    proof {
        reveal_strlit("&lt;");
        reveal_strlit("&gt;");
        reveal_strlit("&amp;");
        reveal_strlit("&quot;");
        reveal_strlit("&#39;");
        reveal_strlit("&nbsp;");
        assert("&lt;"@ =~= seq!['&', 'l', 't', ';']);
        assert("&gt;"@ =~= seq!['&', 'g', 't', ';']);
        assert("&amp;"@ =~= seq!['&', 'a', 'm', 'p', ';']);
        assert("&quot;"@ =~= seq!['&', 'q', 'u', 'o', 't', ';']);
        assert("&#39;"@ =~= seq!['&', '#', '3', '9', ';']);
        assert("&nbsp;"@ =~= seq!['&', 'n', 'b', 's', 'p', ';']);
    }
    let (rep, skip): (char, usize) = if v.len() >= 4 && starts_at(v, "&lt;", 4) {
        ('<', 4)
    } else if v.len() >= 4 && starts_at(v, "&gt;", 4) {
        ('>', 4)
    } else if v.len() >= 5 && starts_at(v, "&amp;", 5) {
        ('&', 5)
    } else if v.len() >= 6 && starts_at(v, "&quot;", 6) {
        ('"', 6)
    } else if v.len() >= 5 && starts_at(v, "&#39;", 5) {
        ('\'', 5)
    } else if v.len() >= 6 && starts_at(v, "&nbsp;", 6) {
        (' ', 6)
    } else {
        (v[0], 1)
    };
    let rest = subvec(v, skip, v.len());
    proof {
        assert(rest@ =~= v@.skip(skip as int));
    }
    let tail = decode_entities_exec(&rest);
    let mut out: Vec<char> = Vec::new();
    out.push(rep);
    push_all(&mut out, &tail);
    proof {
        assert(out@ =~= seq![rep] + decode_entities(v@.skip(skip as int)));
    }
    out
}

/// The first `k` characters of `v` are the literal `pat` (whose character
/// count is `k`).
fn starts_at(v: &Vec<char>, pat: &str, k: usize) -> (b: bool)
    requires
        pat@.len() == k,
        k <= v@.len(),
    ensures
        b == (v@.subrange(0, k as int) == pat@),
{
    let p = str_to_chars(pat);
    let b = eq_at(v, &p, 0);
    proof {
        if b {
            assert(v@.subrange(0, k as int) == pat@);
        } else {
            assert(v@.subrange(0, k as int) != pat@);
        }
    }
    b
}

/// Clean a raw description fully: exact for `spec_clean_full`.
pub fn normalize_description(html: &Vec<char>) -> (r: Vec<char>)
    ensures
        r@ == spec_clean_full(html@),
{
    let stripped = strip_html_exec(html);
    let decoded = decode_entities_exec(&stripped);
    let ws = split_words(&decoded);
    join_with_spaces(&ws)
}

/// Index of the last period, exact for `last_dot`.
fn last_dot_exec(t: &Vec<char>) -> (r: Option<usize>)
    ensures
        match r {
            Some(d) => last_dot(t@) == Some(d as int),
            None => last_dot(t@) is None,
        },
{
    let mut i = t.len();
    proof {
        assert(t@.take(t@.len() as int) =~= t@);
    }
    while i > 0
        invariant
            i <= t@.len(),
            last_dot(t@) == last_dot(t@.take(i as int)),
        decreases i,
    {
        if t[i - 1] == '.' {
            proof {
                assert(t@.take(i as int).len() == i);
                assert(t@.take(i as int)[i - 1] == t@[i - 1]);
            }
            return Some(i - 1);
        }
        proof {
            assert(t@.take(i as int)[i - 1] == t@[i - 1]);
            assert(t@.take(i as int).drop_last() =~= t@.take(i - 1));
        }
        i -= 1;
    }
    proof {
        assert(t@.take(0) =~= Seq::<char>::empty());
    }
    None
}

/// Summarize a raw description: exact for `spec_summary`.
pub fn summarize_description(html: &Vec<char>) -> (r: Vec<char>)
    ensures
        r@ == spec_summary(html@),
{
    let stripped = strip_html_exec(html);
    let decoded = decode_entities_exec(&stripped);
    let mut ws = split_words(&decoded);
    if ws.len() <= 50 {
        return join_with_spaces(&ws);
    }
    let ghost all = ws@.map_values(|x: Vec<char>| x@);
    ws.truncate(50);
    proof {
        assert(ws@.map_values(|x: Vec<char>| x@) =~= all.take(50));
    }
    let t = join_with_spaces(&ws);
    match last_dot_exec(&t) {
        Some(d) => {
            proof {
                lemma_last_dot(t@);
            }
            let mut out = subvec(&t, 0, d);
            out.push('.');
            out.push('.');
            out.push('.');
            proof {
                assert(out@ =~= t@.subrange(0, d as int) + ellipsis());
            }
            out
        },
        None => {
            let mut out = t;
            out.push('.');
            out.push('.');
            out.push('.');
            proof {
                assert(out@ =~= spec_summary(html@));
            }
            out
        },
    }
}

/// Normalize an optional raw HTML description for display: empty when the
/// description is absent, the full cleaned text when `full_description` is
/// set, and the 50-word summary otherwise.
pub fn format_description(html: &Option<String>, full_description: bool) -> (r: String)
    ensures
        r@ == spec_format_description(opt_view(html), full_description),
{
    match html {
        None => {
            let empty: Vec<char> = Vec::new();
            let r = chars_to_string(&empty);
            proof {
                assert(r@ =~= Seq::<char>::empty());
            }
            r
        },
        Some(h) => {
            let hc = str_to_chars(h.as_str());
            let out = if full_description {
                normalize_description(&hc)
            } else {
                summarize_description(&hc)
            };
            chars_to_string(&out)
        },
    }
}

} // verus!
