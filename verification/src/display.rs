//! Rendering announcements to plain text lines. Each announcement renders
//! as a link line, a title line carrying its 1-based position and the
//! display total, a formatted publication line when a date is present, a
//! categories line when there are categories, and a description line when
//! descriptions are asked for and the normalized text is non-empty.
//! Consecutive announcement blocks are separated by exactly one empty
//! line, with none after the last; when filtered announcements remain
//! beyond the display limit a one-line summary follows. Terminal styling
//! is cosmetic and applied outside this crate; these lines are the
//! underlying textual content, which styling must not change.

use vstd::prelude::*;
use crate::chars::{chars_to_string, str_to_chars};
use crate::datefmt::spec_format_date;
use crate::datefmt::format_date;
use crate::item::{ItemView, RssItem};
use crate::num::{dec_str, usize_to_chars};
use crate::text::{format_description, spec_format_description, opt_view};
use crate::words::{join_sep, join_strings, push_all};

verus! {

/// The lines one announcement renders to, given its 1-based position and
/// the display total.
pub open spec fn spec_announcement_lines(
    it: ItemView,
    index: int,
    total: int,
    show_description: bool,
    full_description: bool,
) -> Seq<Seq<char>> {
    let link_line = "📢 ["@ + it.link + "]"@;
    let title_line = "   "@ + it.title + " ("@ + dec_str(index) + "/"@ + dec_str(total) + ")"@;
    let date_lines = match it.pub_date {
        Some(d) => seq!["  "@ + spec_format_date(d)],
        None => Seq::<Seq<char>>::empty(),
    };
    let cat_lines = if it.categories.len() > 0 {
        seq!["  🏷️ "@ + join_sep(it.categories, ", "@)]
    } else {
        Seq::<Seq<char>>::empty()
    };
    let desc = spec_format_description(it.description, full_description);
    let desc_lines = if show_description && desc.len() > 0 {
        seq!["  📄 "@ + desc]
    } else {
        Seq::<Seq<char>>::empty()
    };
    seq![link_line, title_line] + date_lines + cat_lines + desc_lines
}

/// Render one announcement, exact for `spec_announcement_lines`.
pub fn announcement_lines(
    it: &RssItem,
    index: usize,
    total: usize,
    show_description: bool,
    full_description: bool,
) -> (r: Vec<String>)
    ensures
        r@.map_values(|s: String| s@) == spec_announcement_lines(
            it@,
            index as int,
            total as int,
            show_description,
            full_description,
        ),
{
    let mut out: Vec<String> = Vec::new();

    let mut l1 = str_to_chars("📢 [");
    let linkc = str_to_chars(it.link.as_str());
    push_all(&mut l1, &linkc);
    let close = str_to_chars("]");
    push_all(&mut l1, &close);
    out.push(chars_to_string(&l1));

    let mut l2 = str_to_chars("   ");
    let titlec = str_to_chars(it.title.as_str());
    push_all(&mut l2, &titlec);
    let openp = str_to_chars(" (");
    push_all(&mut l2, &openp);
    let idxc = usize_to_chars(index);
    push_all(&mut l2, &idxc);
    let slash = str_to_chars("/");
    push_all(&mut l2, &slash);
    let totc = usize_to_chars(total);
    push_all(&mut l2, &totc);
    let closep = str_to_chars(")");
    push_all(&mut l2, &closep);
    out.push(chars_to_string(&l2));

    match &it.pub_date {
        Some(d) => {
            let mut l3 = str_to_chars("  ");
            let dc = str_to_chars(format_date(d.as_str()).as_str());
            push_all(&mut l3, &dc);
            out.push(chars_to_string(&l3));
        },
        None => {},
    }

    if it.categories.len() > 0 {
        let mut l4 = str_to_chars("  🏷️ ");
        let cats = join_strings(&it.categories, ", ");
        push_all(&mut l4, &cats);
        out.push(chars_to_string(&l4));
        proof {
            assert(it@.categories.len() > 0);
        }
    } else {
        proof {
            assert(it@.categories.len() == 0);
        }
    }

    if show_description {
        let desc = format_description(&it.description, full_description);
        let descc = str_to_chars(desc.as_str());
        if descc.len() > 0 {
            let mut l5 = str_to_chars("  📄 ");
            push_all(&mut l5, &descc);
            out.push(chars_to_string(&l5));
        }
    }
    proof {
        assert(opt_view(&it.description) == it@.description);
        assert(out@.map_values(|s: String| s@) =~= spec_announcement_lines(
            it@,
            index as int,
            total as int,
            show_description,
            full_description,
        ));
    }
    out
}

/// The lines of a run of announcement blocks, numbered from `index`, with
/// one empty line between consecutive blocks and none after the last.
pub open spec fn spec_blocks(
    sfx: Seq<ItemView>,
    index: int,
    total: int,
    show_description: bool,
    full_description: bool,
) -> Seq<Seq<char>>
    decreases sfx.len(),
{
    if sfx.len() == 0 {
        Seq::<Seq<char>>::empty()
    } else {
        let lines = spec_announcement_lines(sfx[0], index, total, show_description,
            full_description);
        if sfx.len() == 1 {
            lines
        } else {
            lines + seq![Seq::<char>::empty()] + spec_blocks(
                sfx.skip(1),
                index + 1,
                total,
                show_description,
                full_description,
            )
        }
    }
}

/// The one-line summary for announcements beyond the display limit.
pub open spec fn more_line(rem: int) -> Seq<char> {
    "...and "@ + dec_str(rem) + " more announcements"@
}

/// The complete rendering: the displayed blocks, then the summary line
/// exactly when filtered announcements remain beyond the limit.
pub open spec fn spec_feed_lines(
    shown: Seq<ItemView>,
    total_filtered: int,
    show_description: bool,
    full_description: bool,
) -> Seq<Seq<char>> {
    spec_blocks(shown, 1, shown.len() as int, show_description, full_description) + (
    if total_filtered > shown.len() {
        seq![more_line(total_filtered - shown.len())]
    } else {
        Seq::<Seq<char>>::empty()
    })
}

/// Render a run of blocks, exact for `spec_blocks`.
fn blocks_exec(
    items: Vec<RssItem>,
    index: usize,
    total: usize,
    show_description: bool,
    full_description: bool,
) -> (r: Vec<String>)
    requires
        index + items@.len() <= usize::MAX,
    ensures
        r@.map_values(|s: String| s@) == spec_blocks(
            items@.map_values(|it: RssItem| it@),
            index as int,
            total as int,
            show_description,
            full_description,
        ),
    decreases items@.len(),
{
    let mut items = items;
    if items.len() == 0 {
        let r: Vec<String> = Vec::new();
        proof {
            assert(r@.map_values(|s: String| s@) =~= spec_blocks(
                items@.map_values(|it: RssItem| it@),
                index as int,
                total as int,
                show_description,
                full_description,
            ));
        }
        return r;
    }
    let ghost pre = items@;
    let first = items.remove(0);
    let mut out = announcement_lines(&first, index, total, show_description, full_description);
    let ghost head_lines = out@.map_values(|s: String| s@);
    if items.len() > 0 {
        let sep = str_to_chars("");
        out.push(chars_to_string(&sep));
        let mut rest = blocks_exec(items, index + 1, total, show_description, full_description);
        let ghost rest_lines = rest@.map_values(|s: String| s@);
        out.append(&mut rest);
        proof {
            reveal_strlit("");
            assert(""@ =~= Seq::<char>::empty());
            assert(pre.skip(1).map_values(|it: RssItem| it@) =~= pre.map_values(
                |it: RssItem| it@,
            ).skip(1));
            assert(out@.map_values(|s: String| s@) =~= head_lines + seq![Seq::<char>::empty()]
                + rest_lines);
            assert(out@.map_values(|s: String| s@) =~= spec_blocks(
                pre.map_values(|it: RssItem| it@),
                index as int,
                total as int,
                show_description,
                full_description,
            ));
        }
    } else {
        proof {
            assert(pre.map_values(|it: RssItem| it@).len() == 1);
            assert(pre.map_values(|it: RssItem| it@)[0] == first@);
        }
    }
    out
}

/// Render the displayed announcements and, when more filtered
/// announcements exist than were displayed, the trailing summary line.
/// Exact for `spec_feed_lines`.
pub fn render_feed(
    items: Vec<RssItem>,
    total_filtered: usize,
    show_description: bool,
    full_description: bool,
) -> (r: Vec<String>)
    requires
        items@.len() <= total_filtered,
        items@.len() < usize::MAX,
    ensures
        r@.map_values(|s: String| s@) == spec_feed_lines(
            items@.map_values(|it: RssItem| it@),
            total_filtered as int,
            show_description,
            full_description,
        ),
{
    let n = items.len();
    let ghost shown = items@.map_values(|it: RssItem| it@);
    let mut out = blocks_exec(items, 1, n, show_description, full_description);
    if total_filtered > n {
        let rem = total_filtered - n;
        let mut line = str_to_chars("...and ");
        let d = usize_to_chars(rem);
        push_all(&mut line, &d);
        let tail = str_to_chars(" more announcements");
        push_all(&mut line, &tail);
        let ghost before = out@.map_values(|s: String| s@);
        out.push(chars_to_string(&line));
        proof {
            assert(out@.map_values(|s: String| s@) =~= before + seq![more_line(rem as int)]);
            assert(out@.map_values(|s: String| s@) =~= spec_feed_lines(
                shown,
                total_filtered as int,
                show_description,
                full_description,
            ));
        }
    } else {
        proof {
            assert(out@.map_values(|s: String| s@) + Seq::<Seq<char>>::empty() =~= out@.map_values(
                |s: String| s@,
            ));
        }
    }
    out
}

} // verus!
