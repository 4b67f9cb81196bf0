//! Turns markdown documents that carry a delimited metadata block into the
//! items of an RSS feed, newest first, and renders the feed as XML.

pub mod date;
pub mod error;
pub mod feed;
pub mod front_matter;
pub mod item;
pub mod order;
pub mod text;

pub use date::{parse_pub_date, Timestamp};
pub use error::RssError;
pub use feed::{generate_rss, render_feed, RssConf};
pub use front_matter::{parse_front_matter, FrontMatter};
pub use item::{collect_markdown_files, is_markdown_file, process_markdown_file, Item, RssItem};
pub use order::sort_newest_first;
