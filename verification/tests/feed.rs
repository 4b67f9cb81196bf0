use mdrss::{
    collect_markdown_files, generate_rss, is_markdown_file, process_markdown_file, render_feed,
    sort_newest_first, FrontMatter, Item, RssConf, RssItem, Timestamp,
};

fn document(title: &str, pub_date: &str) -> String {
    format!(
        "\n-rss-\ntitle: {:?}\npub_date: {:?}\nauthor: \"John Doe\"\nurl: \"http://example.com\"\ndescription: \"A test description.\"\n-rss-\n",
        title, pub_date
    )
}

fn conf() -> RssConf {
    RssConf {
        title: String::from("Custom RSS Title"),
        link: String::from("https://example.com"),
        description: String::from("A test description."),
        delimiter: String::from("-rss-"),
    }
}

fn entry(title: &str, secs: i64, nanos: u32) -> RssItem {
    RssItem {
        pub_date: Timestamp { secs, nanos },
        item: Item {
            title: String::from(title),
            link: String::from("l"),
            description: String::from("d"),
            author: String::from("a"),
            pub_date: String::from("p"),
        },
    }
}

fn titles(items: &Vec<RssItem>) -> Vec<&str> {
    items.iter().map(|entry| entry.item.title.as_str()).collect()
}

fn text(document: Vec<u8>) -> String {
    String::from_utf8(document).unwrap()
}

#[test]
fn test_collect_markdown_files() {
    let content = r#"
-rss-
title: Test Title
pub_date: 2023-09-14T12:34:56Z
author: John Doe
url: http://example.com
description: A test description.
-rss-
"#;
    let rss_items = collect_markdown_files(&vec![String::from(content)], "-rss-");
    assert_eq!(rss_items.len(), 1);
    assert_eq!(rss_items[0].item.title, "Test Title");
}

#[test]
fn test_generate_rss() {
    let content = r#"
-rss-
title: "Test Title"
pub_date: "2023-09-14T12:34:56Z"
author: "John Doe"
url: "http://example.com"
description: "A test description."
-rss-
"#;
    let rss_conf = RssConf {
        title: String::from("Custom RSS Title"),
        link: String::from("https://example.com"),
        description: String::from("A test description."),
        delimiter: String::from("-rss-"),
    };

    let document =
        generate_rss(&vec![String::from(content)], &rss_conf).expect("Failed to generate RSS feed");

    let rss_content = text(document);
    assert!(rss_content.contains("<title>Test Title</title>"));
    assert!(rss_content.contains("<link>http://example.com</link>"));
    assert!(rss_content.contains("<description><![CDATA[A test description.]]></description>"));
}

#[test]
fn generated_feed_is_the_whole_document() {
    let sources = vec![document("Test Title", "2023-09-14T12:34:56Z")];
    let rss_content = text(generate_rss(&sources, &conf()).unwrap());
    let expected = "<?xml version=\"1.0\" encoding=\"utf-8\"?>\n\
<rss version=\"2.0\">\n\
\x20 <channel>\n\
\x20   <title>Custom RSS Title</title>\n\
\x20   <link>https://example.com</link>\n\
\x20   <description>A test description.</description>\n\
\x20   <item>\n\
\x20     <title>Test Title</title>\n\
\x20     <link>http://example.com</link>\n\
\x20     <description><![CDATA[A test description.]]></description>\n\
\x20     <author>John Doe</author>\n\
\x20     <pubDate>2023-09-14T12:34:56Z</pubDate>\n\
\x20   </item>\n\
\x20 </channel>\n\
</rss>";
    assert_eq!(rss_content, expected);
}

#[test]
fn newer_item_stands_first_in_the_feed() {
    let sources = vec![
        document("Autumn Post", "2023-09-14T12:34:56Z"),
        document("New Year Post", "2024-01-01T00:00:00Z"),
    ];
    let rss_content = text(generate_rss(&sources, &conf()).unwrap());
    let newer = rss_content.find("<title>New Year Post</title>").unwrap();
    let older = rss_content.find("<title>Autumn Post</title>").unwrap();
    assert!(newer < older);

    let swapped = vec![sources[1].clone(), sources[0].clone()];
    assert_eq!(text(generate_rss(&swapped, &conf()).unwrap()), rss_content);
}

#[test]
fn feed_without_documents_has_no_items() {
    let rss_content = text(generate_rss(&Vec::new(), &conf()).unwrap());
    assert!(rss_content.contains("<title>Custom RSS Title</title>"));
    assert!(rss_content.contains("<link>https://example.com</link>"));
    assert!(rss_content.contains("<description>A test description.</description>"));
    assert!(!rss_content.contains("<item>"));
    assert!(rss_content.starts_with("<?xml version=\"1.0\" encoding=\"utf-8\"?>"));
    assert!(rss_content.ends_with("</rss>"));
}

#[test]
fn feed_counts_documents_that_pass_both_steps() {
    let sources = vec![
        document("one", "2023-01-01T00:00:00Z"),
        String::from("# only a body\n\nno marker here\n"),
        document("bad date", "14 September 2023"),
        String::from("-rss-\ntitle: t\n-rss-\n"),
        document("two", "2023-01-02T00:00:00Z"),
        String::from(""),
        String::from("-rss-\ntitle: half a block"),
    ];
    let rss_items = collect_markdown_files(&sources, "-rss-");
    assert_eq!(titles(&rss_items), vec!["one", "two"]);
    let rss_content = text(generate_rss(&sources, &conf()).unwrap());
    assert_eq!(rss_content.matches("<item>").count(), 2);
}

#[test]
fn feed_shows_the_date_as_written() {
    let sources = vec![document("t", "2023-09-14 14:34:56 +02:00")];
    let rss_content = text(generate_rss(&sources, &conf()).unwrap());
    assert!(rss_content.contains("<pubDate>2023-09-14 14:34:56 +02:00</pubDate>"));
}

#[test]
fn feed_escapes_text_and_wraps_description() {
    let sources = vec![String::from(
        "-rss-\ntitle: \"a < b & c\"\npub_date: \"2023-09-14T12:34:56Z\"\nauthor: \"x\"\nurl: \"http://e/?a=1&b=2\"\ndescription: \"<p>hi</p>\"\n-rss-\n",
    )];
    let rss_content = text(generate_rss(&sources, &conf()).unwrap());
    assert!(rss_content.contains("<title>a &lt; b &amp; c</title>"));
    assert!(rss_content.contains("<link>http://e/?a=1&amp;b=2</link>"));
    assert!(rss_content.contains("<description><![CDATA[<p>hi</p>]]></description>"));
}

#[test]
fn render_feed_keeps_the_given_order() {
    let items = vec![entry("first", 1, 0), entry("second", 2, 0)];
    let rss_content = text(render_feed(&items, &conf()).unwrap());
    let first = rss_content.find("<title>first</title>").unwrap();
    let second = rss_content.find("<title>second</title>").unwrap();
    assert!(first < second);
}

#[test]
fn process_markdown_file_builds_the_item() {
    let content = document("Test Title", "2023-09-14T12:34:56Z");
    let rss_item = process_markdown_file(&content, "-rss-").unwrap();
    assert_eq!(
        rss_item,
        RssItem {
            pub_date: Timestamp { secs: 1694694896, nanos: 0 },
            item: Item {
                title: String::from("Test Title"),
                link: String::from("http://example.com"),
                description: String::from("A test description."),
                author: String::from("John Doe"),
                pub_date: String::from("2023-09-14T12:34:56Z"),
            },
        }
    );
}

#[test]
fn process_markdown_file_with_invalid_date_is_none() {
    assert_eq!(process_markdown_file(&document("t", "not a date"), "-rss-"), None);
    assert_eq!(process_markdown_file(&document("t", "2023-09-14"), "-rss-"), None);
    assert_eq!(process_markdown_file(&document("t", "2023-09-14T12:34:56"), "-rss-"), None);
    assert_eq!(process_markdown_file(&document("t", ""), "-rss-"), None);
}

#[test]
fn process_markdown_file_with_fewer_than_two_delimiters_is_none() {
    let fields = "title: t\npub_date: 2023-09-14T12:34:56Z\nauthor: a\nurl: u\ndescription: d\n";
    assert_eq!(process_markdown_file(fields, "-rss-"), None);
    assert_eq!(process_markdown_file(&format!("-rss-\n{}", fields), "-rss-"), None);
    assert!(process_markdown_file(&format!("-rss-\n{}-rss-", fields), "-rss-").is_some());
}

#[test]
fn process_markdown_file_goes_by_the_given_delimiter() {
    let content = document("t", "2023-09-14T12:34:56Z");
    assert_eq!(process_markdown_file(&content, "---"), None);
    assert!(process_markdown_file(&content, "-rss-").is_some());
}

#[test]
fn rss_item_new_takes_link_from_url() {
    let front_matter = FrontMatter {
        title: String::from("t"),
        pub_date: String::from("p"),
        author: String::from("a"),
        url: String::from("u"),
        description: String::from("d"),
    };
    let rss_item = RssItem::new(front_matter, Timestamp { secs: 7, nanos: 9 });
    assert_eq!(
        rss_item,
        RssItem {
            pub_date: Timestamp { secs: 7, nanos: 9 },
            item: Item {
                title: String::from("t"),
                link: String::from("u"),
                description: String::from("d"),
                author: String::from("a"),
                pub_date: String::from("p"),
            },
        }
    );
}

#[test]
fn collect_keeps_the_documents_order() {
    let sources = vec![
        document("b", "2023-01-01T00:00:00Z"),
        document("c", "2025-01-01T00:00:00Z"),
        document("a", "2024-01-01T00:00:00Z"),
    ];
    assert_eq!(titles(&collect_markdown_files(&sources, "-rss-")), vec!["b", "c", "a"]);
    assert_eq!(collect_markdown_files(&Vec::new(), "-rss-"), Vec::new());
}

#[test]
fn sort_puts_newest_first() {
    let items = vec![
        entry("c", 30, 0),
        entry("a", 50, 0),
        entry("e", -10, 0),
        entry("b", 40, 1),
        entry("d", 40, 0),
    ];
    assert_eq!(titles(&sort_newest_first(items)), vec!["a", "b", "d", "c", "e"]);
}

#[test]
fn sort_with_distinct_dates_is_strictly_decreasing() {
    let items = vec![
        entry("1", 5, 0),
        entry("2", 9, 0),
        entry("3", 1, 7),
        entry("4", 1, 8),
        entry("5", 1_000_000, 0),
        entry("6", -4, 0),
    ];
    let sorted = sort_newest_first(items);
    assert_eq!(sorted.len(), 6);
    for pair in sorted.windows(2) {
        assert!(pair[1].pub_date.is_before(&pair[0].pub_date));
    }
}

#[test]
fn sort_keeps_items_of_one_instant_in_their_order() {
    let items = vec![
        entry("x1", 5, 0),
        entry("y1", 9, 0),
        entry("x2", 5, 0),
        entry("y2", 9, 0),
        entry("x3", 5, 0),
    ];
    assert_eq!(titles(&sort_newest_first(items)), vec!["y1", "y2", "x1", "x2", "x3"]);
}

#[test]
fn sort_keeps_every_item() {
    let items = vec![entry("a", 1, 0), entry("a", 1, 0), entry("b", 2, 0)];
    let sorted = sort_newest_first(items.clone());
    assert_eq!(sorted, vec![items[2].clone(), items[0].clone(), items[1].clone()]);
    assert_eq!(sort_newest_first(Vec::new()), Vec::new());
    assert_eq!(sort_newest_first(vec![entry("one", 0, 0)]), vec![entry("one", 0, 0)]);
}

#[test]
fn sort_leaves_sorted_items_alone() {
    let items = vec![entry("a", 3, 0), entry("b", 2, 0), entry("c", 2, 0), entry("d", 1, 0)];
    assert_eq!(sort_newest_first(items.clone()), items);
}

#[test]
fn markdown_file_is_a_regular_file_named_md() {
    assert!(is_markdown_file(true, Some("md")));
    assert!(!is_markdown_file(false, Some("md")));
    assert!(!is_markdown_file(true, Some("MD")));
    assert!(!is_markdown_file(true, Some("Md")));
    assert!(!is_markdown_file(true, Some("markdown")));
    assert!(!is_markdown_file(true, Some("m")));
    assert!(!is_markdown_file(true, Some("")));
    assert!(!is_markdown_file(true, Some("txt")));
    assert!(!is_markdown_file(true, None));
    assert!(!is_markdown_file(false, None));
}
