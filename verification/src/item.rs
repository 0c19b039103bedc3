//! The announcement record: one parsed feed item, and the raw form it is
//! built from. A missing title or link is replaced by a documented
//! placeholder; a missing description or publication date stays absent.

use vstd::prelude::*;

verus! {

/// One feed item as it stands in the document: `title` and `link` may be
/// missing. Defaults are applied only when an `RssItem` is built.
#[derive(Debug, Clone)]
pub struct RssItemRaw {
    pub title: Option<String>,
    pub link: Option<String>,
    pub description: Option<String>,
    pub pub_date: Option<String>,
    pub categories: Vec<String>,
}

/// Mathematical image of a raw item.
pub struct RawItemView {
    pub title: Option<Seq<char>>,
    pub link: Option<Seq<char>>,
    pub description: Option<Seq<char>>,
    pub pub_date: Option<Seq<char>>,
    pub categories: Seq<Seq<char>>,
}

impl View for RssItemRaw {
    type V = RawItemView;

    open spec fn view(&self) -> RawItemView {
        RawItemView {
            title: match self.title {
                Some(t) => Some(t@),
                None => None,
            },
            link: match self.link {
                Some(l) => Some(l@),
                None => None,
            },
            description: match self.description {
                Some(d) => Some(d@),
                None => None,
            },
            pub_date: match self.pub_date {
                Some(p) => Some(p@),
                None => None,
            },
            categories: self.categories@.map_values(|s: String| s@),
        }
    }
}

/// One announcement: title and link are always present, the description and
/// publication date are optional, and the categories keep document order.
#[derive(Debug, Clone)]
pub struct RssItem {
    pub title: String,
    pub link: String,
    pub description: Option<String>,
    pub pub_date: Option<String>,
    pub categories: Vec<String>,
}

/// Mathematical image of an announcement.
pub struct ItemView {
    pub title: Seq<char>,
    pub link: Seq<char>,
    pub description: Option<Seq<char>>,
    pub pub_date: Option<Seq<char>>,
    pub categories: Seq<Seq<char>>,
}

impl View for RssItem {
    type V = ItemView;

    open spec fn view(&self) -> ItemView {
        ItemView {
            title: self.title@,
            link: self.link@,
            description: match self.description {
                Some(d) => Some(d@),
                None => None,
            },
            pub_date: match self.pub_date {
                Some(p) => Some(p@),
                None => None,
            },
            categories: self.categories@.map_values(|s: String| s@),
        }
    }
}

/// Placeholder substituted for a missing title.
pub open spec fn untitled() -> Seq<char> {
    "#Untitled"@
}

/// Placeholder substituted for a missing link.
pub open spec fn no_link() -> Seq<char> {
    "#NoLink"@
}

/// The announcement a raw item maps to: missing title and link get their
/// placeholders, the other fields carry over unchanged.
pub open spec fn announce(r: RawItemView) -> ItemView {
    ItemView {
        title: match r.title {
            Some(t) => t,
            None => untitled(),
        },
        link: match r.link {
            Some(l) => l,
            None => no_link(),
        },
        description: r.description,
        pub_date: r.pub_date,
        categories: r.categories,
    }
}

/// A raw item missing its title or link maps to an announcement carrying
/// the documented placeholder, never an empty or absent value.
pub proof fn lemma_missing_fields_get_placeholders(r: RawItemView)
    ensures
        r.title is None ==> announce(r).title == untitled(),
        r.link is None ==> announce(r).link == no_link(),
        announce(r).description == r.description,
        announce(r).pub_date == r.pub_date,
        announce(r).categories == r.categories,
{
}

impl RssItem {
    /// Build an announcement from a raw item, substituting the documented
    /// placeholders for a missing title or link. A raw item missing its
    /// title or link never yields an empty or absent field.
    pub fn from_raw(raw: RssItemRaw) -> (r: RssItem)
        ensures
            r@ == announce(raw@),
            raw@.title is None ==> r@.title == untitled(),
            raw@.link is None ==> r@.link == no_link(),
    {
        let title = match raw.title {
            Some(t) => t,
            None => String::from_str("#Untitled"),
        };
        let link = match raw.link {
            Some(l) => l,
            None => String::from_str("#NoLink"),
        };
        RssItem { title, link, description: raw.description, pub_date: raw.pub_date, categories: raw.categories }
    }
}

} // verus!
