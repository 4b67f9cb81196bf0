use vstd::prelude::*;

use crate::date::{parse_pub_date, timestamp_of, Timestamp};
use crate::front_matter::{front_matter_of, parse_front_matter, FrontMatter, FrontMatterView};
use crate::text::{lemma_block_needs_two_delimiters, occurs_twice};

verus! {

/// What the feed shows of one document.
#[derive(Clone, Debug, PartialEq, Eq)]
pub struct Item {
    pub title: String,
    pub link: String,
    pub description: String,
    pub author: String,
    /// The publication date as the document's author wrote it.
    pub pub_date: String,
}

/// An `Item` as the texts that it holds.
pub struct ItemView {
    pub title: Seq<char>,
    pub link: Seq<char>,
    pub description: Seq<char>,
    pub author: Seq<char>,
    pub pub_date: Seq<char>,
}

impl View for Item {
    type V = ItemView;

    open spec fn view(&self) -> ItemView {
        ItemView {
            title: self.title@,
            link: self.link@,
            description: self.description@,
            author: self.author@,
            pub_date: self.pub_date@,
        }
    }
}

/// A feed item with the instant by which the feed is ordered.
#[derive(Clone, Debug, PartialEq, Eq)]
pub struct RssItem {
    pub pub_date: Timestamp,
    pub item: Item,
}

/// An `RssItem` as its instant and the texts that its item holds.
pub struct RssItemView {
    pub pub_date: Timestamp,
    pub item: ItemView,
}

impl View for RssItem {
    type V = RssItemView;

    open spec fn view(&self) -> RssItemView {
        RssItemView { pub_date: self.pub_date, item: self.item@ }
    }
}

impl RssItemView {
    /// The date that the item shows denotes the instant by which it is
    /// ordered.
    pub open spec fn is_dated(self) -> bool {
        timestamp_of(self.item.pub_date) == Some(self.pub_date)
    }
}

/// The views of a sequence of feed items.
pub open spec fn item_views(items: Seq<RssItem>) -> Seq<RssItemView> {
    items.map_values(|entry: RssItem| entry@)
}

/// The view of a feed item that may be absent.
pub open spec fn rss_item_view(entry: Option<RssItem>) -> Option<RssItemView> {
    match entry {
        Some(found) => Some(found@),
        None => None,
    }
}

/// The feed item that a front matter and the instant of its date make up:
/// the link is the front matter's `url`, and the date is shown as written.
pub open spec fn rss_item_of(front_matter: FrontMatterView, pub_date: Timestamp) -> RssItemView {
    RssItemView {
        pub_date,
        item: ItemView {
            title: front_matter.title,
            link: front_matter.url,
            description: front_matter.description,
            author: front_matter.author,
            pub_date: front_matter.pub_date,
        },
    }
}

/// The feed item of a document: there is one where the document has a front
/// matter whose `pub_date` denotes an instant.
pub open spec fn entry_of(content: Seq<char>, delimiter: Seq<char>) -> Option<RssItemView> {
    match front_matter_of(content, delimiter) {
        None => None,
        Some(front_matter) => match timestamp_of(front_matter.pub_date) {
            None => None,
            Some(pub_date) => Some(rss_item_of(front_matter, pub_date)),
        },
    }
}

/// The texts of a sequence of strings.
pub open spec fn texts_of(sources: Seq<String>) -> Seq<Seq<char>> {
    sources.map_values(|source: String| source@)
}

/// The feed items of the documents that have one, in the documents' order.
pub open spec fn entries_of(contents: Seq<Seq<char>>, delimiter: Seq<char>) -> Seq<RssItemView> {
    contents.filter_map(|content: Seq<char>| entry_of(content, delimiter))
}

/// A document in which the delimiter occurs fewer than two times has no feed
/// item.
pub proof fn lemma_entry_needs_two_delimiters(content: Seq<char>, delimiter: Seq<char>)
    requires
        !occurs_twice(content, delimiter),
    ensures
        entry_of(content, delimiter) is None,
{
    lemma_block_needs_two_delimiters(content, delimiter);
}

/// A document whose publication date denotes no instant has no feed item,
/// whatever its other fields hold; the item of a document that has one shows
/// the date that denotes the item's instant.
pub proof fn lemma_entry_needs_valid_date(content: Seq<char>, delimiter: Seq<char>)
    ensures
        front_matter_of(content, delimiter) matches Some(front_matter) && timestamp_of(
            front_matter.pub_date,
        ) is None ==> entry_of(content, delimiter) is None,
        entry_of(content, delimiter) matches Some(entry) ==> entry.is_dated(),
{
}

/// Every feed item that comes of a document shows the date that denotes its
/// instant.
pub proof fn lemma_entries_are_dated(contents: Seq<Seq<char>>, delimiter: Seq<char>)
    ensures
        forall|i: int|
            0 <= i < entries_of(contents, delimiter).len() ==> (#[trigger] entries_of(
                contents,
                delimiter,
            )[i]).is_dated(),
{
    let entry = |content: Seq<char>| entry_of(content, delimiter);
    let entries = contents.filter_map(entry);
    assert forall|i: int| 0 <= i < entries.len() implies (#[trigger] entries[i]).is_dated() by {
        assert(entries.contains(entries[i]));
        contents.lemma_filter_map_contains(entry, entries[i]);
        let content = choose|content: Seq<char>| #[trigger]
            contents.contains(content) && entry(content) == Some(entries[i]);
        lemma_entry_needs_valid_date(content, delimiter);
    }
}

/// There are as many feed items as there are documents that have one.
pub proof fn lemma_entries_count(contents: Seq<Seq<char>>, delimiter: Seq<char>)
    ensures
        entries_of(contents, delimiter).len() == contents.filter(
            |content: Seq<char>| entry_of(content, delimiter) is Some,
        ).len(),
    decreases contents.len(),
{
    reveal(Seq::filter);
    if contents.len() > 0 {
        lemma_entries_count(contents.drop_last(), delimiter);
    }
}

impl RssItem {
    /// Makes the feed item of a front matter whose date denotes `pub_date`.
    pub fn new(front_matter: FrontMatter, pub_date: Timestamp) -> (entry: RssItem)
        ensures
            entry@ == rss_item_of(front_matter@, pub_date),
    {
        RssItem {
            pub_date,
            item: Item {
                title: front_matter.title,
                link: front_matter.url,
                description: front_matter.description,
                author: front_matter.author,
                pub_date: front_matter.pub_date,
            },
        }
    }
}

/// Whether a directory entry is a markdown document: a regular file whose
/// name has the extension `md`, written in small letters.
pub fn is_markdown_file(is_file: bool, extension: Option<&str>) -> (selected: bool)
    ensures
        selected <==> is_file && extension is Some && extension->0@ == "md"@,
{
    match extension {
        Some(ext) => is_file && ext.to_owned() == "md".to_owned(),
        None => false,
    }
}

/// Makes the feed item of one document from its text. A document without a
/// front matter, or with a date that denotes no instant, has none.
pub fn process_markdown_file(content: &str, delimiter: &str) -> (entry: Option<RssItem>)
    ensures
        rss_item_view(entry) == entry_of(content@, delimiter@),
        entry matches Some(found) ==> found@.is_dated(),
{
    let front_matter = match parse_front_matter(content, delimiter) {
        Some(front_matter) => front_matter,
        None => {
            return None;
        },
    };
    match parse_pub_date(front_matter.pub_date.as_str()) {
        Ok(pub_date) => Some(RssItem::new(front_matter, pub_date)),
        Err(_) => None,
    }
}

/// Makes the feed items of the documents that have one, in the documents'
/// order.
pub fn collect_markdown_files(contents: &Vec<String>, delimiter: &str) -> (items: Vec<RssItem>)
    ensures
        item_views(items@) == entries_of(texts_of(contents@), delimiter@),
{
    let mut items: Vec<RssItem> = Vec::new();
    let ghost texts = texts_of(contents@);
    let ghost entry = |content: Seq<char>| entry_of(content, delimiter@);
    let mut i: usize = 0;
    while i < contents.len()
        invariant
            i <= contents.len(),
            texts == texts_of(contents@),
            entry == |content: Seq<char>| entry_of(content, delimiter@),
            item_views(items@) == texts.take(i as int).filter_map(entry),
        decreases contents.len() - i,
    {
        proof {
            texts.lemma_filter_map_take_succ(entry, i as int);
        }
        let ghost before = items@;
        match process_markdown_file(contents[i].as_str(), delimiter) {
            Some(found) => {
                items.push(found);
                assert(item_views(items@) == item_views(before) + seq![found@]);
            },
            None => {},
        }
        i += 1;
    }
    assert(texts.take(contents.len() as int) == texts);
    items
}

} // verus!
