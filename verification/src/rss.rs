//! The feed parser: from the text of an RSS document to the ordered
//! sequence of announcements.
//!
//! The accepted shape is RSS 2.0-like XML: a `<channel` container holding
//! zero or more `<item>` ... `</item>` blocks, each with optional
//! `<title>`, `<link>`, `<description>`, `<pubDate>` elements and zero or
//! more `<category>` children, all written without attributes on those
//! exact tags. Element text may hold embedded markup and `<![CDATA[` ...
//! `]]>` sections; the text fragments of one element are joined with single
//! spaces and trimmed. A document without a `<channel` container, or with
//! an `<item>` that is never closed, is rejected. The document arrives
//! already decoded to characters: byte decoding is the fetcher's edge, and
//! a decoding failure never reaches this parser.

use vstd::prelude::*;
use crate::chars::{find_from, lemma_find_characterizes, spec_find, str_to_chars, subvec,
    chars_to_string};
use crate::item::{announce, ItemView, RawItemView, RssItem, RssItemRaw};
use crate::words::{join_words, join_with_spaces, split_words, words};

verus! {

/// Why a document was rejected.
#[derive(Clone, Copy, Debug, PartialEq, Eq, Structural)]
pub enum ParseError {
    /// No `<channel` container was found.
    MissingChannel,
    /// An `<item>` block is never closed by `</item>`.
    UnclosedItem,
}

impl ParseError {
    /// A short description of the failure, for the error stream.
    pub fn message(&self) -> (r: String)
        ensures
            *self is MissingChannel ==> r@ == "missing channel element"@,
            *self is UnclosedItem ==> r@ == "unclosed item element"@,
    {
        match self {
            ParseError::MissingChannel => String::from_str("missing channel element"),
            ParseError::UnclosedItem => String::from_str("unclosed item element"),
        }
    }
}

/// The readable text of one element's content: character data is kept,
/// CDATA sections contribute their raw content, and embedded tags become
/// whitespace separators. A CDATA section that is never closed contributes
/// the rest verbatim; a `<` that never closes drops the malformed rest.
pub open spec fn xml_text(c: Seq<char>) -> Seq<char>
    decreases c.len() via xml_text_dec
{
    if c.len() == 0 {
        Seq::empty()
    } else if c.len() >= "<![CDATA["@.len() && c.subrange(0, "<![CDATA["@.len() as int)
        == "<![CDATA["@ {
        match spec_find(c, "]]>"@, "<![CDATA["@.len()) {
            Some(e) => c.subrange("<![CDATA["@.len() as int, e) + seq![' '] + xml_text(
                c.skip(e + "]]>"@.len()),
            ),
            None => c.skip("<![CDATA["@.len() as int),
        }
    } else if c[0] == '<' {
        match spec_find(c, seq!['>'], 0) {
            Some(g) => seq![' '] + xml_text(c.skip(g + 1)),
            None => Seq::empty(),
        }
    } else {
        seq![c[0]] + xml_text(c.skip(1))
    }
}

#[via_fn]
proof fn xml_text_dec(c: Seq<char>) {
    reveal_strlit("<![CDATA[");
    reveal_strlit("]]>");
    if c.len() >= "<![CDATA["@.len() && c.subrange(0, "<![CDATA["@.len() as int)
        == "<![CDATA["@ {
        lemma_find_characterizes(c, "]]>"@, "<![CDATA["@.len());
    } else if c.len() > 0 && c[0] == '<' {
        lemma_find_characterizes(c, seq!['>'], 0);
    }
}

/// The value of one element: its text fragments joined with single spaces,
/// whitespace collapsed and the ends trimmed.
pub open spec fn spec_element_value(c: Seq<char>) -> Seq<char> {
    join_words(words(xml_text(c)))
}

/// The value of the first `open` ... `close` element of `c`, when both
/// tags occur in order; a tag that is absent or never closed leaves the
/// field missing.
pub open spec fn spec_field(c: Seq<char>, open: Seq<char>, close: Seq<char>) -> Option<Seq<char>> {
    match spec_find(c, open, 0) {
        None => None,
        Some(a) => match spec_find(c, close, (a + open.len()) as nat) {
            None => None,
            Some(b) => Some(spec_element_value(c.subrange(a + open.len(), b))),
        },
    }
}

/// The values of all `<category>` ... `</category>` children at or after
/// `pos`, in document order.
pub open spec fn spec_categories(c: Seq<char>, pos: nat) -> Seq<Seq<char>>
    decreases c.len() - pos via spec_categories_dec
{
    match spec_find(c, "<category>"@, pos) {
        None => Seq::empty(),
        Some(a) => match spec_find(c, "</category>"@, (a + "<category>"@.len()) as nat) {
            None => Seq::empty(),
            Some(b) => seq![
                spec_element_value(c.subrange(a + "<category>"@.len(), b)),
            ] + spec_categories(c, (b + "</category>"@.len()) as nat),
        },
    }
}

#[via_fn]
proof fn spec_categories_dec(c: Seq<char>, pos: nat) {
    reveal_strlit("<category>");
    reveal_strlit("</category>");
    lemma_find_characterizes(c, "<category>"@, pos);
    match spec_find(c, "<category>"@, pos) {
        Some(a) => {
            lemma_find_characterizes(c, "</category>"@, (a + "<category>"@.len()) as nat);
        },
        None => {},
    }
}

/// The raw item one `<item>` block's content maps to.
pub open spec fn spec_raw_item(c: Seq<char>) -> RawItemView {
    RawItemView {
        title: spec_field(c, "<title>"@, "</title>"@),
        link: spec_field(c, "<link>"@, "</link>"@),
        description: spec_field(c, "<description>"@, "</description>"@),
        pub_date: spec_field(c, "<pubDate>"@, "</pubDate>"@),
        categories: spec_categories(c, 0),
    }
}

/// The announcements of all `<item>` blocks at or after `pos`, in document
/// order; `None` when some `<item>` is never closed.
pub open spec fn spec_items(s: Seq<char>, pos: nat) -> Option<Seq<ItemView>>
    decreases s.len() - pos via spec_items_dec
{
    match spec_find(s, "<item>"@, pos) {
        None => Some(Seq::empty()),
        Some(a) => match spec_find(s, "</item>"@, (a + "<item>"@.len()) as nat) {
            None => None,
            Some(b) => match spec_items(s, (b + "</item>"@.len()) as nat) {
                None => None,
                Some(rest) => Some(
                    seq![announce(spec_raw_item(s.subrange(a + "<item>"@.len(), b)))] + rest,
                ),
            },
        },
    }
}

#[via_fn]
proof fn spec_items_dec(s: Seq<char>, pos: nat) {
    reveal_strlit("<item>");
    reveal_strlit("</item>");
    lemma_find_characterizes(s, "<item>"@, pos);
    match spec_find(s, "<item>"@, pos) {
        Some(a) => {
            lemma_find_characterizes(s, "</item>"@, (a + "<item>"@.len()) as nat);
        },
        None => {},
    }
}

/// What parsing a document yields: its announcements in feed order, or the
/// reason it is rejected.
pub open spec fn spec_parse(s: Seq<char>) -> Result<Seq<ItemView>, ParseError> {
    if spec_find(s, "<channel"@, 0) is None {
        Err(ParseError::MissingChannel)
    } else {
        match spec_items(s, 0) {
            Some(items) => Ok(items),
            None => Err(ParseError::UnclosedItem),
        }
    }
}

/// The number of `<item>` ... `</item>` blocks at or after `pos`.
pub open spec fn spec_item_count(s: Seq<char>, pos: nat) -> nat
    decreases s.len() - pos via spec_item_count_dec
{
    match spec_find(s, "<item>"@, pos) {
        None => 0,
        Some(a) => match spec_find(s, "</item>"@, (a + "<item>"@.len()) as nat) {
            None => 0,
            Some(b) => 1 + spec_item_count(s, (b + "</item>"@.len()) as nat),
        },
    }
}

#[via_fn]
proof fn spec_item_count_dec(s: Seq<char>, pos: nat) {
    reveal_strlit("<item>");
    reveal_strlit("</item>");
    lemma_find_characterizes(s, "<item>"@, pos);
    match spec_find(s, "<item>"@, pos) {
        Some(a) => {
            lemma_find_characterizes(s, "</item>"@, (a + "<item>"@.len()) as nat);
        },
        None => {},
    }
}

/// A well-formed document parses to exactly one announcement per `<item>`
/// element, and `spec_items` lists them in document order.
pub proof fn lemma_count_preserved(s: Seq<char>, pos: nat)
    ensures
        spec_items(s, pos) matches Some(items) ==> items.len() == spec_item_count(s, pos),
    decreases s.len() + 1 - pos,
{
    reveal_strlit("<item>");
    reveal_strlit("</item>");
    lemma_find_characterizes(s, "<item>"@, pos);
    match spec_find(s, "<item>"@, pos) {
        Some(a) => {
            lemma_find_characterizes(s, "</item>"@, (a + "<item>"@.len()) as nat);
            match spec_find(s, "</item>"@, (a + "<item>"@.len()) as nat) {
                Some(b) => {
                    lemma_count_preserved(s, (b + "</item>"@.len()) as nat);
                },
                None => {},
            }
        },
        None => {},
    }
}

/// An item block without `<category>` children yields the empty category
/// sequence (never an absent one: the type has no absent case).
pub proof fn lemma_no_categories_empty(c: Seq<char>)
    ensures
        spec_find(c, "<category>"@, 0) is None ==> spec_categories(c, 0) == Seq::<Seq<char>>::empty(),
{
}

/// The readable text of an element's content, exact for `xml_text`.
fn xml_text_exec(c: &Vec<char>) -> (r: Vec<char>)
    ensures
        r@ == xml_text(c@),
    decreases c@.len(),
{
    let cd_open = str_to_chars("<![CDATA[");
    let cd_close = str_to_chars("]]>");
    let gt = str_to_chars(">");
    proof {
        reveal_strlit("<![CDATA[");
        reveal_strlit("]]>");
        reveal_strlit(">");
        assert(gt@ =~= seq!['>']);
    }
    if c.len() == 0 {
        let r: Vec<char> = Vec::new();
        proof {
            assert(r@ =~= xml_text(c@));
        }
        return r;
    }
    if c.len() >= 9 && crate::chars::eq_at(c, &cd_open, 0) {
        proof {
            assert(c@.subrange(0, 9) == "<![CDATA["@);
        }
        match find_from(c, &cd_close, 9) {
            Some(e) => {
                proof {
                    lemma_find_characterizes(c@, "]]>"@, 9);
                }
                let content = subvec(c, 9, e);
                let rest = subvec(c, e + 3, c.len());
                proof {
                    assert(rest@ =~= c@.skip(e + 3));
                }
                let tail = xml_text_exec(&rest);
                let mut out = content;
                out.push(' ');
                crate::words::push_all(&mut out, &tail);
                proof {
                    assert(out@ =~= c@.subrange(9, e as int) + seq![' '] + xml_text(c@.skip(e + 3)));
                }
                out
            },
            None => {
                let r = subvec(c, 9, c.len());
                proof {
                    assert(r@ =~= c@.skip(9));
                }
                r
            },
        }
    } else if c[0] == '<' {
        match find_from(c, &gt, 0) {
            Some(g) => {
                proof {
                    lemma_find_characterizes(c@, seq!['>'], 0);
                }
                let rest = subvec(c, g + 1, c.len());
                proof {
                    assert(rest@ =~= c@.skip(g + 1));
                }
                let tail = xml_text_exec(&rest);
                let mut out: Vec<char> = Vec::new();
                out.push(' ');
                crate::words::push_all(&mut out, &tail);
                proof {
                    assert(out@ =~= seq![' '] + xml_text(c@.skip(g + 1)));
                }
                out
            },
            None => {
                let r: Vec<char> = Vec::new();
                proof {
                    assert(r@ =~= xml_text(c@));
                }
                r
            },
        }
    } else {
        let rest = subvec(c, 1, c.len());
        proof {
            assert(rest@ =~= c@.skip(1));
        }
        let tail = xml_text_exec(&rest);
        let mut out: Vec<char> = Vec::new();
        out.push(c[0]);
        crate::words::push_all(&mut out, &tail);
        proof {
            assert(out@ =~= seq![c@[0]] + xml_text(c@.skip(1)));
        }
        out
    }
}

/// One element's value, exact for `spec_element_value`.
fn element_value_exec(c: &Vec<char>) -> (r: Vec<char>)
    ensures
        r@ == spec_element_value(c@),
{
    let t = xml_text_exec(c);
    let ws = split_words(&t);
    join_with_spaces(&ws)
}

/// The first `open` ... `close` field of `c`, exact for `spec_field`.
fn field_exec(c: &Vec<char>, open: &Vec<char>, close: &Vec<char>) -> (r: Option<String>)
    ensures
        (match r {
            Some(s) => Some(s@),
            None => None,
        }) == spec_field(c@, open@, close@),
{
    let _n = c.len();
    assert(c@.len() <= usize::MAX);
    match find_from(c, open, 0) {
        None => None,
        Some(a) => {
            proof {
                lemma_find_characterizes(c@, open@, 0);
            }
            match find_from(c, close, a + open.len()) {
                None => None,
                Some(b) => {
                    proof {
                        lemma_find_characterizes(c@, close@, (a + open@.len()) as nat);
                    }
                    let content = subvec(c, a + open.len(), b);
                    let value = element_value_exec(&content);
                    Some(chars_to_string(&value))
                },
            }
        },
    }
}

/// All category values of an item's content at or after `pos`, exact for
/// `spec_categories`.
fn categories_exec(c: &Vec<char>, pos: usize) -> (r: Vec<String>)
    requires
        pos <= c@.len(),
    ensures
        r@.map_values(|s: String| s@) == spec_categories(c@, pos as nat),
    decreases c@.len() - pos,
{
    let _n = c.len();
    assert(c@.len() <= usize::MAX);
    let copen = str_to_chars("<category>");
    let cclose = str_to_chars("</category>");
    match find_from(c, &copen, pos) {
        None => {
            let r: Vec<String> = Vec::new();
            proof {
                assert(r@.map_values(|s: String| s@) =~= spec_categories(c@, pos as nat));
            }
            r
        },
        Some(a) => {
            proof {
                lemma_find_characterizes(c@, "<category>"@, pos as nat);
            }
            match find_from(c, &cclose, a + copen.len()) {
                None => {
                    let r: Vec<String> = Vec::new();
                    proof {
                        assert(r@.map_values(|s: String| s@) =~= spec_categories(c@, pos as nat));
                    }
                    r
                },
                Some(b) => {
                    proof {
                        reveal_strlit("<category>");
                        reveal_strlit("</category>");
                        lemma_find_characterizes(c@, "</category>"@, (a + "<category>"@.len()) as nat);
                    }
                    let content = subvec(c, a + copen.len(), b);
                    let value = element_value_exec(&content);
                    let s = chars_to_string(&value);
                    let mut rest = categories_exec(c, b + cclose.len());
                    let ghost rest_view = rest@;
                    let mut out: Vec<String> = Vec::new();
                    out.push(s);
                    out.append(&mut rest);
                    proof {
                        assert(out@ =~= seq![s] + rest_view);
                        assert(out@.map_values(|x: String| x@) =~= seq![value@]
                            + rest_view.map_values(|x: String| x@));
                        assert(out@.map_values(|x: String| x@) =~= spec_categories(c@, pos as nat));
                    }
                    out
                },
            }
        },
    }
}

/// The raw item one block's content maps to, exact for `spec_raw_item`.
fn raw_item_exec(c: &Vec<char>) -> (r: RssItemRaw)
    ensures
        r@ == spec_raw_item(c@),
{
    let t_open = str_to_chars("<title>");
    let t_close = str_to_chars("</title>");
    let l_open = str_to_chars("<link>");
    let l_close = str_to_chars("</link>");
    let d_open = str_to_chars("<description>");
    let d_close = str_to_chars("</description>");
    let p_open = str_to_chars("<pubDate>");
    let p_close = str_to_chars("</pubDate>");
    let title = field_exec(c, &t_open, &t_close);
    let link = field_exec(c, &l_open, &l_close);
    let description = field_exec(c, &d_open, &d_close);
    let pub_date = field_exec(c, &p_open, &p_close);
    let categories = categories_exec(c, 0);
    let r = RssItemRaw { title, link, description, pub_date, categories };
    proof {
        assert(r@.categories == spec_raw_item(c@).categories);
    }
    r
}

/// The announcements of all item blocks at or after `pos`, exact for
/// `spec_items`.
fn items_exec(v: &Vec<char>, pos: usize) -> (r: Result<Vec<RssItem>, ParseError>)
    requires
        pos <= v@.len(),
    ensures
        (match r {
            Ok(items) => spec_items(v@, pos as nat) == Some(items@.map_values(|it: RssItem| it@)),
            Err(e) => spec_items(v@, pos as nat) is None && e == ParseError::UnclosedItem,
        }),
    decreases v@.len() - pos,
{
    let _n = v.len();
    assert(v@.len() <= usize::MAX);
    let iopen = str_to_chars("<item>");
    let iclose = str_to_chars("</item>");
    match find_from(v, &iopen, pos) {
        None => {
            let items: Vec<RssItem> = Vec::new();
            proof {
                assert(items@.map_values(|it: RssItem| it@) =~= Seq::<ItemView>::empty());
            }
            Ok(items)
        },
        Some(a) => {
            proof {
                lemma_find_characterizes(v@, "<item>"@, pos as nat);
            }
            match find_from(v, &iclose, a + iopen.len()) {
                None => Err(ParseError::UnclosedItem),
                Some(b) => {
                    proof {
                        reveal_strlit("<item>");
                        reveal_strlit("</item>");
                        lemma_find_characterizes(v@, "</item>"@, (a + "<item>"@.len()) as nat);
                    }
                    let content = subvec(v, a + iopen.len(), b);
                    let raw = raw_item_exec(&content);
                    let first = RssItem::from_raw(raw);
                    match items_exec(v, b + iclose.len()) {
                        Ok(mut rest) => {
                            let ghost rest_view = rest@;
                            let mut out: Vec<RssItem> = Vec::new();
                            out.push(first);
                            let ghost first_view = first@;
                            out.append(&mut rest);
                            proof {
                                assert(out@ =~= seq![first] + rest_view);
                                assert(out@.map_values(|it: RssItem| it@) =~= seq![first_view]
                                    + rest_view.map_values(|it: RssItem| it@));
                                assert(out@.map_values(|it: RssItem| it@) =~= spec_items(
                                    v@,
                                    pos as nat,
                                ).unwrap());
                            }
                            Ok(out)
                        },
                        Err(e) => Err(e),
                    }
                },
            }
        },
    }
}

/// Parse a feed document into its announcements, in feed order. A document
/// without a `<channel` container is rejected as `MissingChannel`; one
/// with an `<item>` never closed by `</item>` as `UnclosedItem`. On
/// success there is exactly one announcement per item element, each built
/// as `spec_raw_item` and `announce` describe: placeholders for a missing
/// title or link, absent description and date kept absent, categories in
/// document order (empty when there are none).
pub fn parse_rss_xml(xml_content: &str) -> (r: Result<Vec<RssItem>, ParseError>)
    ensures
        (match r {
            Ok(items) => spec_parse(xml_content@) == Ok::<Seq<ItemView>, ParseError>(
                items@.map_values(|it: RssItem| it@),
            ),
            Err(e) => spec_parse(xml_content@) == Err::<Seq<ItemView>, ParseError>(e),
        }),
{
    let v = str_to_chars(xml_content);
    let chan = str_to_chars("<channel");
    match find_from(&v, &chan, 0) {
        None => Err(ParseError::MissingChannel),
        Some(_) => items_exec(&v, 0),
    }
}

} // verus!
