use vstd::prelude::*;

use crate::error::RssError;
use crate::item::{
    collect_markdown_files, entries_of, entry_of, item_views, lemma_entries_are_dated,
    lemma_entries_count, texts_of, ItemView, RssItem, RssItemView,
};
use crate::order::{
    has_distinct_dates, is_newest_first, is_strictly_newest_first,
    lemma_distinct_dates_strictly_ordered, lemma_newest_first_is_ordered,
    lemma_newest_first_permutes, newest_first, sort_newest_first,
};

verus! {

/// The character that indents the feed document: a space.
pub const INDENT_CHAR: u8 = 0x20;

/// How many of them make one level.
pub const INDENT_SIZE: usize = 2;

/// The widest level that `write_channel` takes.
pub const MAX_INDENT_SIZE: usize = 64;

/// What a feed says of itself, and the marker that frames the metadata block
/// of each document.
#[derive(Clone, Debug, PartialEq, Eq)]
pub struct RssConf {
    pub title: String,
    pub link: String,
    pub description: String,
    pub delimiter: String,
}

/// The XML document that `rss` writes for a channel with the given title,
/// link and description and with one item for each entry of `items`, each
/// level indented by `indent_size` times `indent_char`; `None` where it
/// reports an error.
pub uninterp spec fn channel_xml(
    title: Seq<char>,
    link: Seq<char>,
    description: Seq<char>,
    items: Seq<ItemView>,
    indent_char: u8,
    indent_size: usize,
) -> Option<Seq<u8>>;

/// What the feed shows of each item.
pub open spec fn shown(items: Seq<RssItemView>) -> Seq<ItemView> {
    items.map_values(|entry: RssItemView| entry.item)
}

/// The feed document for the given items, in their order.
pub open spec fn feed_document(
    title: Seq<char>,
    link: Seq<char>,
    description: Seq<char>,
    items: Seq<RssItemView>,
) -> Option<Seq<u8>> {
    channel_xml(title, link, description, shown(items), INDENT_CHAR, INDENT_SIZE)
}

/// The items of the feed for the given documents: one for each document that
/// has one, from the newest to the oldest.
pub open spec fn feed_items(contents: Seq<Seq<char>>, delimiter: Seq<char>) -> Seq<RssItemView> {
    newest_first(entries_of(contents, delimiter))
}

/// The feed holds exactly the items of the documents that have one, each as
/// often as it came, and as many as there are such documents; no item stands
/// before a newer one.
pub proof fn lemma_feed_items(contents: Seq<Seq<char>>, delimiter: Seq<char>)
    ensures
        feed_items(contents, delimiter).to_multiset() == entries_of(
            contents,
            delimiter,
        ).to_multiset(),
        feed_items(contents, delimiter).len() == contents.filter(
            |content: Seq<char>| entry_of(content, delimiter) is Some,
        ).len(),
        is_newest_first(feed_items(contents, delimiter)),
{
    lemma_newest_first_permutes(entries_of(contents, delimiter));
    lemma_newest_first_is_ordered(entries_of(contents, delimiter));
    lemma_entries_count(contents, delimiter);
}

/// Every item of the feed shows the date that denotes the instant by which it
/// is ordered.
pub proof fn lemma_feed_items_are_dated(contents: Seq<Seq<char>>, delimiter: Seq<char>)
    ensures
        forall|i: int|
            0 <= i < feed_items(contents, delimiter).len() ==> (#[trigger] feed_items(
                contents,
                delimiter,
            )[i]).is_dated(),
{
    let entries = entries_of(contents, delimiter);
    let items = feed_items(contents, delimiter);
    lemma_entries_are_dated(contents, delimiter);
    lemma_newest_first_permutes(entries);
    assert forall|i: int| 0 <= i < items.len() implies (#[trigger] items[i]).is_dated() by {
        assert(items.contains(items[i]));
        vstd::seq_lib::to_multiset_contains(items, items[i]);
        vstd::seq_lib::to_multiset_contains(entries, items[i]);
        let k = choose|k: int| 0 <= k < entries.len() && entries[k] == items[i];
        assert(entries[k].is_dated());
    }
}

/// Where no two documents' items have the same instant, the feed's items
/// stand in strictly decreasing order of their instants.
pub proof fn lemma_feed_strictly_ordered(contents: Seq<Seq<char>>, delimiter: Seq<char>)
    requires
        has_distinct_dates(entries_of(contents, delimiter)),
    ensures
        is_strictly_newest_first(feed_items(contents, delimiter)),
{
    lemma_distinct_dates_strictly_ordered(entries_of(contents, delimiter));
}

/// The feed for no documents has no items: its document is the one of the
/// channel alone.
pub proof fn lemma_feed_of_nothing(
    title: Seq<char>,
    link: Seq<char>,
    description: Seq<char>,
    delimiter: Seq<char>,
)
    ensures
        feed_items(Seq::empty(), delimiter) == Seq::<RssItemView>::empty(),
        feed_document(title, link, description, feed_items(Seq::empty(), delimiter))
            == channel_xml(title, link, description, Seq::empty(), INDENT_CHAR, INDENT_SIZE),
{
    assert(shown(Seq::<RssItemView>::empty()) == Seq::<ItemView>::empty());
}

/// Builds a channel with `rss::ChannelBuilder`, each of its items with
/// `rss::ItemBuilder` (title, publication date, author, link, description),
/// and writes it into a byte vector with `rss::Channel::pretty_write_to`.
///
/// Trusted: the outcome depends on these values alone. `indent_size` is kept
/// small, since the writer holds the indentation of the deepest level in
/// memory.
#[verifier::external_body]
fn write_channel(
    title: &str,
    link: &str,
    description: &str,
    items: &Vec<RssItem>,
    indent_char: u8,
    indent_size: usize,
) -> (written: Result<Vec<u8>, rss::Error>)
    requires
        indent_size <= MAX_INDENT_SIZE,
    ensures
        written matches Ok(bytes) ==> channel_xml(
            title@,
            link@,
            description@,
            shown(item_views(items@)),
            indent_char,
            indent_size,
        ) == Some(bytes@),
        written is Err ==> channel_xml(
            title@,
            link@,
            description@,
            shown(item_views(items@)),
            indent_char,
            indent_size,
        ) is None,
{
    let items: Vec<rss::Item> = items.iter().map(|entry| {
        let item = entry.item.clone();
        rss::ItemBuilder::default().title(Some(item.title)).pub_date(Some(item.pub_date))
            .author(Some(item.author)).link(Some(item.link))
            .description(Some(item.description)).build()
    }).collect();
    rss::ChannelBuilder::default().title(title).link(link).description(description)
        .items(items).build().pretty_write_to(Vec::new(), indent_char, indent_size)
}

/// Renders a feed with the given items, in their order, as an XML document.
pub fn render_feed(items: &Vec<RssItem>, rss_conf: &RssConf) -> (document: Result<
    Vec<u8>,
    RssError,
>)
    ensures
        document matches Ok(bytes) ==> feed_document(
            rss_conf.title@,
            rss_conf.link@,
            rss_conf.description@,
            item_views(items@),
        ) == Some(bytes@),
        document matches Err(e) ==> e is Serialize && feed_document(
            rss_conf.title@,
            rss_conf.link@,
            rss_conf.description@,
            item_views(items@),
        ) is None,
{
    let written = write_channel(
        rss_conf.title.as_str(),
        rss_conf.link.as_str(),
        rss_conf.description.as_str(),
        items,
        INDENT_CHAR,
        INDENT_SIZE,
    );
    match written {
        Ok(bytes) => Ok(bytes),
        Err(e) => Err(RssError::Serialize(e)),
    }
}

/// Generates the feed document for the given markdown documents: one item for
/// each document whose front matter is complete and whose publication date
/// denotes an instant, from the newest to the oldest.
pub fn generate_rss(contents: &Vec<String>, rss_conf: &RssConf) -> (document: Result<
    Vec<u8>,
    RssError,
>)
    ensures
        document matches Ok(bytes) ==> feed_document(
            rss_conf.title@,
            rss_conf.link@,
            rss_conf.description@,
            feed_items(texts_of(contents@), rss_conf.delimiter@),
        ) == Some(bytes@),
        document matches Err(e) ==> e is Serialize && feed_document(
            rss_conf.title@,
            rss_conf.link@,
            rss_conf.description@,
            feed_items(texts_of(contents@), rss_conf.delimiter@),
        ) is None,
{
    let rss_items = collect_markdown_files(contents, rss_conf.delimiter.as_str());
    let rss_items = sort_newest_first(rss_items);
    render_feed(&rss_items, rss_conf)
}

} // verus!
