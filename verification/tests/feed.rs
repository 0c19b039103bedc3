use naws::display::{announcement_lines, render_feed};
use naws::display_count;
use naws::filter::{filter_announcements, take_limit};
use naws::item::{RssItem, RssItemRaw};
use naws::json::items_to_json;
use naws::rss::{parse_rss_xml, ParseError};
use naws::text::format_description;
use naws::datefmt::format_date;

fn feed_of(items_xml: &str) -> String {
    format!("<rss><channel>{}</channel></rss>", items_xml)
}

fn simple_item(title: &str) -> String {
    format!("<item><title>{}</title><link>https://example.com/x</link></item>", title)
}

#[test]
fn parses_three_items_in_order() {
    let xml = feed_of(
        "<item><title>One</title></item><item><title>Two</title></item><item><title>Three</title></item>",
    );
    let items = parse_rss_xml(&xml).unwrap();
    assert_eq!(items.len(), 3);
    assert_eq!(items[0].title, "One");
    assert_eq!(items[1].title, "Two");
    assert_eq!(items[2].title, "Three");
}

#[test]
fn missing_title_and_link_get_placeholders() {
    let xml = feed_of("<item><description>something</description></item>");
    let items = parse_rss_xml(&xml).unwrap();
    assert_eq!(items.len(), 1);
    assert_eq!(items[0].title, "#Untitled");
    assert_eq!(items[0].link, "#NoLink");
    assert_eq!(items[0].description.as_deref(), Some("something"));
}

#[test]
fn missing_description_and_date_stay_absent() {
    let xml = feed_of("<item><title>T</title></item>");
    let items = parse_rss_xml(&xml).unwrap();
    assert!(items[0].description.is_none());
    assert!(items[0].pub_date.is_none());
}

#[test]
fn no_categories_is_empty_sequence() {
    let xml = feed_of("<item><title>T</title></item>");
    let items = parse_rss_xml(&xml).unwrap();
    assert!(items[0].categories.is_empty());
}

#[test]
fn categories_kept_in_document_order() {
    let xml = feed_of(
        "<item><title>T</title><category>serverless</category><category>compute</category></item>",
    );
    let items = parse_rss_xml(&xml).unwrap();
    assert_eq!(items[0].categories, vec!["serverless".to_string(), "compute".to_string()]);
}

#[test]
fn cdata_and_split_fragments_join_with_space() {
    let xml = feed_of("<item><title><![CDATA[Alpha]]> <![CDATA[Beta]]></title></item>");
    let items = parse_rss_xml(&xml).unwrap();
    assert_eq!(items[0].title, "Alpha Beta");
    let xml2 = feed_of("<item><title>A <b>x</b> B</title></item>");
    let items2 = parse_rss_xml(&xml2).unwrap();
    assert_eq!(items2[0].title, "A x B");
}

#[test]
fn missing_channel_is_rejected() {
    let r = parse_rss_xml("<rss><item><title>T</title></item></rss>");
    assert_eq!(r.unwrap_err(), ParseError::MissingChannel);
}

#[test]
fn unclosed_item_is_rejected() {
    let xml = "<rss><channel><item><title>T</title></channel></rss>";
    let e = parse_rss_xml(xml).unwrap_err();
    assert_eq!(e, ParseError::UnclosedItem);
    assert_eq!(e.message(), "unclosed item element");
}

#[test]
fn filter_is_case_insensitive_across_title() {
    let xml = feed_of(&format!("{}{}", simple_item("New Lambda feature"), simple_item("EC2 update")));
    let items = parse_rss_xml(&xml).unwrap();
    let kept = filter_announcements(items, "lambda");
    assert_eq!(kept.len(), 1);
    assert_eq!(kept[0].title, "New Lambda feature");
}

#[test]
fn filter_uppercase_query_matches_lowercase_text() {
    let xml = feed_of(&simple_item("new lambda feature"));
    let items = parse_rss_xml(&xml).unwrap();
    let kept = filter_announcements(items, "LAMBDA");
    assert_eq!(kept.len(), 1);
}

#[test]
fn filter_matches_description_and_categories() {
    let xml = feed_of(
        "<item><title>T1</title><description>big serverless news</description></item>\
         <item><title>T2</title><category>Compute</category></item>\
         <item><title>T3</title></item>",
    );
    let items = parse_rss_xml(&xml).unwrap();
    assert_eq!(filter_announcements(items.clone(), "serverless").len(), 1);
    assert_eq!(filter_announcements(items.clone(), "compute").len(), 1);
    assert_eq!(filter_announcements(items, "absent").len(), 0);
}

#[test]
fn filtering_twice_gives_same_result() {
    let xml = feed_of(&format!(
        "{}{}{}",
        simple_item("Lambda one"),
        simple_item("EC2 two"),
        simple_item("lambda three")
    ));
    let items = parse_rss_xml(&xml).unwrap();
    let once = filter_announcements(items, "lambda");
    let titles_once: Vec<String> = once.iter().map(|i| i.title.clone()).collect();
    let twice = filter_announcements(once, "lambda");
    let titles_twice: Vec<String> = twice.iter().map(|i| i.title.clone()).collect();
    assert_eq!(titles_once, titles_twice);
}

#[test]
fn display_count_is_min_of_len_and_limit() {
    assert_eq!(display_count(3, 10), 3);
    assert_eq!(display_count(15, 10), 10);
    assert_eq!(display_count(5, 0), 0);
    assert_eq!(display_count(0, 7), 0);
}

#[test]
fn take_limit_keeps_first_items() {
    let xml = feed_of(&format!("{}{}{}", simple_item("A"), simple_item("B"), simple_item("C")));
    let items = parse_rss_xml(&xml).unwrap();
    let taken = take_limit(items, 2);
    assert_eq!(taken.len(), 2);
    assert_eq!(taken[0].title, "A");
    assert_eq!(taken[1].title, "B");
}

#[test]
fn short_description_summary_equals_full() {
    let d = Some("<p>Hello <b>world</b></p>".to_string());
    let summary = format_description(&d, false);
    let full = format_description(&d, true);
    assert_eq!(summary, "Hello world");
    assert_eq!(summary, full);
}

#[test]
fn absent_description_renders_empty() {
    assert_eq!(format_description(&None, false), "");
    assert_eq!(format_description(&None, true), "");
}

#[test]
fn long_description_gets_ellipsis() {
    let mut words = Vec::new();
    for i in 0..60 {
        words.push(format!("w{}", i));
    }
    let d = Some(words.join(" "));
    let summary = format_description(&d, false);
    assert!(summary.ends_with("..."));
    let first_fifty = words[..50].join(" ");
    assert_eq!(summary, format!("{}...", first_fifty));
    let full = format_description(&d, true);
    assert_eq!(full, words.join(" "));
}

#[test]
fn long_description_cuts_at_last_period() {
    let mut words = Vec::new();
    for i in 0..60 {
        words.push(format!("w{}", i));
    }
    words[30] = "done.".to_string();
    let d = Some(words.join(" "));
    let summary = format_description(&d, false);
    // cut falls back to the last period inside the 50-word window
    let expected = format!("{}...", words[..31].join(" ").trim_end_matches('.'));
    assert_eq!(summary, expected);
}

#[test]
fn entities_are_decoded() {
    let d = Some("a &lt;tag&gt; &amp; &quot;q&quot; &#39;s&#39; b&nbsp;c".to_string());
    let t = format_description(&d, true);
    assert_eq!(t, "a <tag> & \"q\" 's' b c");
}

#[test]
fn block_tags_separate_and_inline_tags_vanish() {
    let d = Some("one<br/>two<div>three</div><em>four</em>five".to_string());
    let t = format_description(&d, true);
    assert_eq!(t, "one two three fourfive");
}

#[test]
fn whitespace_collapses_and_trims() {
    let d = Some("  a\t\tb\n\nc  ".to_string());
    let t = format_description(&d, true);
    assert_eq!(t, "a b c");
}

#[test]
fn rfc3339_date_formats_as_utc_minutes() {
    assert_eq!(format_date("2024-01-02T03:04:05+00:00"), "2024-01-02 03:04 UTC");
    assert_eq!(format_date("2024-01-02T03:04:05Z"), "2024-01-02 03:04 UTC");
}

#[test]
fn unparsed_long_date_is_cut_to_sixteen_chars() {
    assert_eq!(format_date("Mon, 02 Jan 2024 03:04:05 GMT"), "Mon, 02 Jan 2024");
}

#[test]
fn unparsed_short_date_passes_through() {
    assert_eq!(format_date("yesterday"), "yesterday");
}

#[test]
fn three_items_render_with_positions_and_no_more_line() {
    let xml = feed_of(&format!("{}{}{}", simple_item("A"), simple_item("B"), simple_item("C")));
    let items = parse_rss_xml(&xml).unwrap();
    let total = items.len();
    let shown = take_limit(items, 10);
    let lines = render_feed(shown, total, false, false);
    let text = lines.join("\n");
    assert!(text.contains("(1/3)"));
    assert!(text.contains("(2/3)"));
    assert!(text.contains("(3/3)"));
    assert!(!text.contains("more announcements"));
    // one blank line between blocks, none trailing
    assert_eq!(lines.iter().filter(|l| l.is_empty()).count(), 2);
    assert!(!lines.last().unwrap().is_empty());
}

#[test]
fn fifteen_items_render_ten_with_more_line() {
    let mut body = String::new();
    for i in 0..15 {
        body.push_str(&simple_item(&format!("Item{}", i)));
    }
    let xml = feed_of(&body);
    let items = parse_rss_xml(&xml).unwrap();
    let total = items.len();
    let shown = take_limit(items, 10);
    assert_eq!(shown.len(), 10);
    let lines = render_feed(shown, total, false, false);
    assert_eq!(lines.last().unwrap(), "...and 5 more announcements");
    let text = lines.join("\n");
    assert!(text.contains("(10/10)"));
    assert!(!text.contains("Item10"));
}

#[test]
fn zero_limit_renders_nothing_but_counts_all_as_more() {
    let xml = feed_of(&format!("{}{}", simple_item("A"), simple_item("B")));
    let items = parse_rss_xml(&xml).unwrap();
    let total = items.len();
    let shown = take_limit(items, 0);
    assert_eq!(shown.len(), 0);
    let lines = render_feed(shown, total, false, false);
    assert_eq!(lines, vec!["...and 2 more announcements".to_string()]);
}

#[test]
fn placeholder_item_renders_without_failure() {
    let xml = feed_of("<item><description>d</description></item>");
    let items = parse_rss_xml(&xml).unwrap();
    let lines = announcement_lines(&items[0], 1, 1, true, false);
    let text = lines.join("\n");
    assert!(text.contains("#Untitled"));
    assert!(text.contains("[#NoLink]"));
}

#[test]
fn date_and_category_lines_render() {
    let xml = feed_of(
        "<item><title>T</title><link>L</link><pubDate>2024-01-02T03:04:05Z</pubDate>\
         <category>one</category><category>two</category></item>",
    );
    let items = parse_rss_xml(&xml).unwrap();
    let lines = announcement_lines(&items[0], 1, 1, false, false);
    let text = lines.join("\n");
    assert!(text.contains("2024-01-02 03:04 UTC"));
    assert!(text.contains("one, two"));
}

#[test]
fn empty_description_line_is_suppressed() {
    let it = RssItem::from_raw(RssItemRaw {
        title: Some("T".to_string()),
        link: Some("L".to_string()),
        description: None,
        pub_date: None,
        categories: Vec::new(),
    });
    let with = announcement_lines(&it, 1, 1, true, false);
    let without = announcement_lines(&it, 1, 1, false, false);
    assert_eq!(with.len(), without.len());
}

#[test]
fn json_round_trips_through_serde() {
    let xml = feed_of(
        "<item><title>A \"quoted\" title</title><link>https://example.com/a</link>\
         <description>desc &amp; more</description><pubDate>2024-01-02T03:04:05Z</pubDate>\
         <category>c1</category><category>c2</category></item>\
         <item><description>only desc</description></item>",
    );
    let items = parse_rss_xml(&xml).unwrap();
    let doc = items_to_json(&items);
    let v: serde_json::Value = serde_json::from_str(&doc).unwrap();
    let arr = v.as_array().unwrap();
    assert_eq!(arr.len(), items.len());
    for (val, item) in arr.iter().zip(items.iter()) {
        assert_eq!(val["title"].as_str().unwrap(), item.title);
        assert_eq!(val["link"].as_str().unwrap(), item.link);
        match &item.description {
            Some(d) => assert_eq!(val["description"].as_str().unwrap(), d),
            None => assert!(val["description"].is_null()),
        }
        match &item.pub_date {
            Some(d) => assert_eq!(val["pub_date"].as_str().unwrap(), d),
            None => assert!(val["pub_date"].is_null()),
        }
        let cats: Vec<String> = val["categories"]
            .as_array()
            .unwrap()
            .iter()
            .map(|c| c.as_str().unwrap().to_string())
            .collect();
        assert_eq!(&cats, &item.categories);
    }
}

#[test]
fn json_escapes_control_characters() {
    let it = RssItem::from_raw(RssItemRaw {
        title: Some("a\u{1}b\nc".to_string()),
        link: None,
        description: None,
        pub_date: None,
        categories: Vec::new(),
    });
    let doc = items_to_json(&vec![it]);
    assert!(doc.contains("\\u0001"));
    assert!(doc.contains("\\n"));
    let v: serde_json::Value = serde_json::from_str(&doc).unwrap();
    assert_eq!(v[0]["title"].as_str().unwrap(), "a\u{1}b\nc");
}
