//! Case-insensitive substring filtering of announcements, and pagination to
//! a display limit. Filtering only selects items, it never alters them.

use vstd::prelude::*;
use crate::chars::{contains_sub, spec_contains, str_to_chars};
use crate::item::{ItemView, RssItem};

verus! {

/// What `str::to_lowercase` returns: a function of the characters alone.
pub uninterp spec fn lower_of(s: Seq<char>) -> Seq<char>;

/// Relies on `str::to_lowercase`: the lowercased form depends on the
/// characters of the input alone.
#[verifier::external_body]
fn lower_chars(v: &Vec<char>) -> (r: Vec<char>)
    ensures
        r@ == lower_of(v@),
{
    let s: String = v.iter().collect();
    s.to_lowercase().chars().collect()
}

/// The filter `f` (already lowercased) matches the item: it occurs in the
/// lowercased title, in the lowercased description when one is present, or
/// in some lowercased category.
pub open spec fn item_matches(it: ItemView, f: Seq<char>) -> bool {
    ||| spec_contains(lower_of(it.title), f)
    ||| (it.description matches Some(d) && spec_contains(lower_of(d), f))
    ||| exists|k: int|
        0 <= k < it.categories.len() && spec_contains(lower_of(it.categories[k]), f)
}

/// Substring test against one announcement, exact with respect to
/// `item_matches`. The filter must already be lowercased.
pub fn announcement_matches(it: &RssItem, filter_lower: &Vec<char>) -> (b: bool)
    ensures
        b == item_matches(it@, filter_lower@),
{
    let t = str_to_chars(it.title.as_str());
    let lt = lower_chars(&t);
    if contains_sub(&lt, filter_lower) {
        return true;
    }
    match &it.description {
        Some(d) => {
            let dc = str_to_chars(d.as_str());
            let ld = lower_chars(&dc);
            if contains_sub(&ld, filter_lower) {
                return true;
            }
        },
        None => {},
    }
    let n = it.categories.len();
    let mut k: usize = 0;
    while k < n
        invariant
            k <= n,
            n == it@.categories.len(),
            it@.categories == it.categories@.map_values(|s: String| s@),
            forall|j: int|
                0 <= j < k ==> !spec_contains(lower_of(#[trigger] it@.categories[j]), filter_lower@),
        decreases n - k,
    {
        let c = str_to_chars(it.categories[k].as_str());
        let lc = lower_chars(&c);
        if contains_sub(&lc, filter_lower) {
            assert(spec_contains(lower_of(it@.categories[k as int]), filter_lower@));
            return true;
        }
        k += 1;
    }
    false
}

/// The subsequence of `items` that the (lowercased) filter matches, in
/// order.
pub open spec fn spec_filter(items: Seq<ItemView>, f: Seq<char>) -> Seq<ItemView> {
    items.filter(|it: ItemView| item_matches(it, f))
}

/// Keep only the announcements that the filter matches, case-insensitively,
/// preserving feed order. Items are selected, never changed.
pub fn filter_announcements(items: Vec<RssItem>, filter: &str) -> (r: Vec<RssItem>)
    ensures
        r@.map_values(|it: RssItem| it@) == spec_filter(
            items@.map_values(|it: RssItem| it@),
            lower_of(filter@),
        ),
{
    broadcast use vstd::seq_lib::group_seq_properties;

    let fc = str_to_chars(filter);
    let fl = lower_chars(&fc);
    let ghost orig = items@.map_values(|it: RssItem| it@);
    let ghost pred = |it: ItemView| item_matches(it, lower_of(filter@));
    let mut rest = items;
    let mut r: Vec<RssItem> = Vec::new();
    proof {
        assert(orig.take(0) =~= Seq::<ItemView>::empty());
        assert(rest@.map_values(|it: RssItem| it@) =~= orig.skip(0));
        reveal(Seq::filter);
    }
    let ghost total = orig.len();
    let ghost mut done: int = 0;
    while rest.len() > 0
        invariant
            fl@ == lower_of(filter@),
            0 <= done <= total,
            total == orig.len(),
            rest@.map_values(|it: RssItem| it@) == orig.skip(done),
            r@.map_values(|it: RssItem| it@) == orig.take(done).filter(pred),
            pred == (|it: ItemView| item_matches(it, lower_of(filter@))),
        decreases rest@.len(),
    {
        let ghost pre = rest@;
        let it = rest.remove(0);
        proof {
            reveal_with_fuel(Seq::filter, 2);
            assert(pre.map_values(|x: RssItem| x@) == orig.skip(done));
            assert(pre.map_values(|x: RssItem| x@).len() == pre.len());
            assert(orig.skip(done).len() == orig.len() - done);
            assert(done < orig.len());
            assert(pre.map_values(|x: RssItem| x@)[0] == it@);
            assert(orig.skip(done)[0] == orig[done]);
            assert(it@ == orig[done]);
            assert(rest@ =~= pre.skip(1));
            assert forall|j: int| 0 <= j < rest@.len() implies rest@.map_values(|x: RssItem| x@)[j]
                == #[trigger] orig.skip(done + 1)[j] by {
                assert(rest@.map_values(|x: RssItem| x@)[j] == rest@[j]@);
                assert(rest@[j] == pre[j + 1]);
                assert(pre.map_values(|x: RssItem| x@)[j + 1] == pre[j + 1]@);
                assert(pre.map_values(|x: RssItem| x@)[j + 1] == orig.skip(done)[j + 1]);
                assert(orig.skip(done)[j + 1] == orig[done + 1 + j]);
            };
            assert(rest@.map_values(|x: RssItem| x@) =~= orig.skip(done + 1));
            assert(orig.take(done + 1) =~= orig.take(done).push(orig[done]));
            Seq::filter_distributes_over_add(orig.take(done), seq![orig[done]], pred);
            assert(orig.take(done) + seq![orig[done]] =~= orig.take(done + 1));
            assert(seq![orig[done]].drop_last() =~= Seq::<ItemView>::empty());
            assert(seq![orig[done]].filter(pred) == if pred(orig[done]) {
                seq![orig[done]]
            } else {
                Seq::<ItemView>::empty()
            });
        }
        if announcement_matches(&it, &fl) {
            r.push(it);
            proof {
                assert(r@.map_values(|x: RssItem| x@) =~= orig.take(done).filter(pred) + seq![
                    orig[done],
                ]);
            }
        } else {
            proof {
                assert(orig.take(done).filter(pred) + Seq::<ItemView>::empty() =~= orig.take(
                    done,
                ).filter(pred));
            }
        }
        proof {
            done = done + 1;
        }
    }
    proof {
        assert(orig.take(total as int) =~= orig);
    }
    r
}

/// Filtering is idempotent: filtering an already-filtered sequence with the
/// same filter string yields the same sequence.
pub proof fn lemma_filter_idempotent(items: Seq<ItemView>, f: Seq<char>)
    ensures
        spec_filter(spec_filter(items, f), f) == spec_filter(items, f),
    decreases items.len(),
{
    reveal(Seq::filter);
    let pred = |it: ItemView| item_matches(it, f);
    if items.len() == 0 {
    } else {
        let d = items.drop_last();
        let l = items.last();
        lemma_filter_idempotent(d, f);
        if pred(l) {
            assert(items.filter(pred) == d.filter(pred).push(l));
            assert(d.filter(pred).push(l).drop_last() =~= d.filter(pred));
            assert(d.filter(pred).push(l).last() == l);
        } else {
            assert(items.filter(pred) == d.filter(pred));
        }
    }
}

/// The number of announcements actually rendered: the filtered count capped
/// by the display limit.
pub open spec fn spec_display_count(filtered: nat, limit: nat) -> nat {
    if filtered <= limit {
        filtered
    } else {
        limit
    }
}

/// Truncate the filtered announcements to the display limit: the first
/// `spec_display_count` items, in order, are kept.
pub fn take_limit(items: Vec<RssItem>, limit: usize) -> (r: Vec<RssItem>)
    ensures
        r@.len() == spec_display_count(items@.len(), limit as nat),
        r@ == items@.take(spec_display_count(items@.len(), limit as nat) as int),
{
    let mut items = items;
    let ghost orig = items@;
    items.truncate(limit);
    proof {
        if limit <= orig.len() {
            assert(items@ =~= orig.take(limit as int));
        } else {
            assert(items@ =~= orig.take(orig.len() as int));
        }
    }
    items
}

} // verus!
