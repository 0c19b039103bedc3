//! Whitespace-delimited words of a character sequence, and joining words
//! back together with single spaces. Splitting and rejoining collapses runs
//! of whitespace and trims the ends, which is the normal form all rendered
//! text uses.

use vstd::prelude::*;

verus! {

/// Whitespace for the purposes of word splitting.
pub open spec fn is_space(c: char) -> bool {
    c == ' ' || c == '\t' || c == '\n' || c == '\r'
}

/// First position at or after `i` that ends the current run of non-space
/// characters.
pub open spec fn word_end(s: Seq<char>, i: int) -> int
    decreases s.len() - i when 0 <= i <= s.len()
{
    if i >= s.len() || is_space(s[i]) {
        i
    } else {
        word_end(s, i + 1)
    }
}

pub proof fn lemma_word_end(s: Seq<char>, i: int)
    requires
        0 <= i <= s.len(),
    ensures
        i <= word_end(s, i) <= s.len(),
        forall|t: int| i <= t < word_end(s, i) ==> !is_space(s[t]),
        word_end(s, i) == s.len() || is_space(s[word_end(s, i)]),
        i < s.len() && !is_space(s[i]) ==> word_end(s, i) > i,
    decreases s.len() - i,
{
    if i >= s.len() || is_space(s[i]) {
    } else {
        lemma_word_end(s, i + 1);
    }
}

/// `word_end` is pinned down by its characterization.
pub proof fn lemma_word_end_is(s: Seq<char>, i: int, j: int)
    requires
        0 <= i <= j <= s.len(),
        forall|t: int| i <= t < j ==> !is_space(s[t]),
        j == s.len() || is_space(s[j]),
    ensures
        word_end(s, i) == j,
    decreases j - i,
{
    if i < j {
        lemma_word_end_is(s, i + 1, j);
    }
}

/// The words of `s` from position `i` on: maximal runs of non-space
/// characters, in order.
pub open spec fn words_at(s: Seq<char>, i: int) -> Seq<Seq<char>>
    decreases s.len() - i when 0 <= i <= s.len() via words_at_dec
{
    if i >= s.len() {
        Seq::empty()
    } else if is_space(s[i]) {
        words_at(s, i + 1)
    } else {
        seq![s.subrange(i, word_end(s, i))] + words_at(s, word_end(s, i))
    }
}

#[via_fn]
proof fn words_at_dec(s: Seq<char>, i: int) {
    if 0 <= i && i < s.len() && !is_space(s[i]) {
        lemma_word_end(s, i);
    }
}

/// The whitespace-delimited words of `s`.
pub open spec fn words(s: Seq<char>) -> Seq<Seq<char>> {
    words_at(s, 0)
}

/// Words joined with single spaces.
pub open spec fn join_words(ws: Seq<Seq<char>>) -> Seq<char>
    decreases ws.len(),
{
    if ws.len() == 0 {
        Seq::empty()
    } else if ws.len() == 1 {
        ws[0]
    } else {
        ws[0] + seq![' '] + join_words(ws.skip(1))
    }
}

/// Appending one word to a joined sequence.
pub proof fn lemma_join_push(ws: Seq<Seq<char>>, w: Seq<char>)
    ensures
        join_words(ws.push(w)) == if ws.len() == 0 {
            w
        } else {
            (join_words(ws) + seq![' '] + w)
        },
    decreases ws.len(),
{
    let p = ws.push(w);
    if ws.len() == 0 {
        assert(p[0] == w);
    } else if ws.len() == 1 {
        assert(p.skip(1) =~= seq![w]);
        assert(join_words(p) == p[0] + seq![' '] + join_words(p.skip(1)));
        assert(join_words(seq![w]) == w);
    } else {
        assert(p.skip(1) =~= ws.skip(1).push(w));
        lemma_join_push(ws.skip(1), w);
        assert(p[0] + seq![' '] + (join_words(ws.skip(1)) + seq![' '] + w) =~= (ws[0] + seq![' ']
            + join_words(ws.skip(1))) + seq![' '] + w);
    }
}

/// Words joined with an arbitrary separator.
pub open spec fn join_sep(ws: Seq<Seq<char>>, sep: Seq<char>) -> Seq<char>
    decreases ws.len(),
{
    if ws.len() == 0 {
        Seq::empty()
    } else if ws.len() == 1 {
        ws[0]
    } else {
        ws[0] + sep + join_sep(ws.skip(1), sep)
    }
}

/// Appending one word to a separator-joined sequence.
pub proof fn lemma_join_sep_push(ws: Seq<Seq<char>>, w: Seq<char>, sep: Seq<char>)
    ensures
        join_sep(ws.push(w), sep) == if ws.len() == 0 {
            w
        } else {
            (join_sep(ws, sep) + sep + w)
        },
    decreases ws.len(),
{
    let p = ws.push(w);
    if ws.len() == 0 {
        assert(p[0] == w);
    } else if ws.len() == 1 {
        assert(p.skip(1) =~= seq![w]);
        assert(join_sep(p, sep) == p[0] + sep + join_sep(p.skip(1), sep));
        assert(join_sep(seq![w], sep) == w);
    } else {
        assert(p.skip(1) =~= ws.skip(1).push(w));
        lemma_join_sep_push(ws.skip(1), w, sep);
        assert(p[0] + sep + (join_sep(ws.skip(1), sep) + sep + w) =~= (ws[0] + sep + join_sep(
            ws.skip(1),
            sep,
        )) + sep + w);
    }
}

/// Join strings with a separator, exact with respect to `join_sep`.
pub fn join_strings(ws: &Vec<String>, sep: &str) -> (r: Vec<char>)
    ensures
        r@ == join_sep(ws@.map_values(|s: String| s@), sep@),
{
    let ghost m = ws@.map_values(|s: String| s@);
    let mut r: Vec<char> = Vec::new();
    let mut k: usize = 0;
    while k < ws.len()
        invariant
            k <= ws@.len(),
            m == ws@.map_values(|s: String| s@),
            r@ == join_sep(m.take(k as int), sep@),
        decreases ws@.len() - k,
    {
        if k > 0 {
            let sc = crate::chars::str_to_chars(sep);
            push_all(&mut r, &sc);
        }
        let wc = crate::chars::str_to_chars(ws[k].as_str());
        push_all(&mut r, &wc);
        proof {
            assert(m.take(k + 1) =~= m.take(k as int).push(m[k as int]));
            lemma_join_sep_push(m.take(k as int), m[k as int], sep@);
            if k > 0 {
                assert(r@ =~= join_sep(m.take(k as int), sep@) + sep@ + m[k as int]);
            } else {
                assert(m.take(0) =~= Seq::<Seq<char>>::empty());
                assert(r@ =~= m[0]);
            }
        }
        k += 1;
    }
    proof {
        assert(m.take(ws@.len() as int) =~= m);
    }
    r
}

/// Split `v` into its whitespace-delimited words.
pub fn split_words(v: &Vec<char>) -> (ws: Vec<Vec<char>>)
    ensures
        ws@.map_values(|x: Vec<char>| x@) == words(v@),
{
    let n = v.len();
    let mut ws: Vec<Vec<char>> = Vec::new();
    let mut i: usize = 0;
    while i < n
        invariant
            i <= n,
            n == v@.len(),
            words(v@) == ws@.map_values(|x: Vec<char>| x@) + words_at(v@, i as int),
        decreases n - i,
    {
        if v[i] == ' ' || v[i] == '\t' || v[i] == '\n' || v[i] == '\r' {
            proof {
                assert(words_at(v@, i as int) == words_at(v@, i + 1));
            }
            i += 1;
        } else {
            let start = i;
            let mut w: Vec<char> = Vec::new();
            while i < n && v[i] != ' ' && v[i] != '\t' && v[i] != '\n' && v[i] != '\r'
                invariant
                    start <= i <= n,
                    n == v@.len(),
                    w@ == v@.subrange(start as int, i as int),
                    forall|t: int| start <= t < i ==> !is_space(v@[t]),
                decreases n - i,
            {
                w.push(v[i]);
                proof {
                    assert(w@ =~= v@.subrange(start as int, i + 1));
                }
                i += 1;
            }
            proof {
                lemma_word_end_is(v@, start as int, i as int);
                assert(words_at(v@, start as int) == seq![v@.subrange(start as int, i as int)]
                    + words_at(v@, i as int));
                assert(ws@.push(w).map_values(|x: Vec<char>| x@) =~= ws@.map_values(
                    |x: Vec<char>| x@,
                ).push(w@));
                assert(ws@.map_values(|x: Vec<char>| x@).push(w@) + words_at(v@, i as int) =~= ws@.map_values(
                    |x: Vec<char>| x@,
                ) + words_at(v@, start as int));
            }
            ws.push(w);
        }
    }
    proof {
        assert(ws@.map_values(|x: Vec<char>| x@) + words_at(v@, i as int) =~= ws@.map_values(
            |x: Vec<char>| x@,
        ));
    }
    ws
}

/// Append the characters of `src` to `dst`.
pub fn push_all(dst: &mut Vec<char>, src: &Vec<char>)
    ensures
        final(dst)@ == old(dst)@ + src@,
{
    let mut t: usize = 0;
    while t < src.len()
        invariant
            t <= src@.len(),
            dst@ == old(dst)@ + src@.subrange(0, t as int),
        decreases src@.len() - t,
    {
        dst.push(src[t]);
        proof {
            assert(dst@ =~= old(dst)@ + src@.subrange(0, t + 1));
        }
        t += 1;
    }
    proof {
        assert(dst@ =~= old(dst)@ + src@);
    }
}

/// Join words with single spaces, exact with respect to `join_words`.
pub fn join_with_spaces(ws: &Vec<Vec<char>>) -> (r: Vec<char>)
    ensures
        r@ == join_words(ws@.map_values(|x: Vec<char>| x@)),
{
    let ghost m = ws@.map_values(|x: Vec<char>| x@);
    let mut r: Vec<char> = Vec::new();
    let mut k: usize = 0;
    while k < ws.len()
        invariant
            k <= ws@.len(),
            m == ws@.map_values(|x: Vec<char>| x@),
            r@ == join_words(m.take(k as int)),
        decreases ws@.len() - k,
    {
        if k > 0 {
            r.push(' ');
        }
        push_all(&mut r, &ws[k]);
        proof {
            assert(m.take(k + 1) =~= m.take(k as int).push(m[k as int]));
            lemma_join_push(m.take(k as int), m[k as int]);
            if k > 0 {
                assert(r@ =~= join_words(m.take(k as int)) + seq![' '] + m[k as int]);
            } else {
                assert(m.take(0) =~= Seq::<Seq<char>>::empty());
                assert(r@ =~= m[0]);
            }
        }
        k += 1;
    }
    proof {
        assert(m.take(ws@.len() as int) =~= m);
    }
    r
}

} // verus!
