use vstd::prelude::*;

use crate::text::{block_between, metadata_block};

verus! {

/// A decoded YAML document of `serde_yaml`.
#[verifier::external_type_specification]
#[verifier::external_body]
pub struct ExYamlValue(serde_yaml::Value);

/// The texts of a YAML value: where the value is a mapping, each entry whose
/// key is a string and whose value, its tag aside, is a string, the value's
/// text under the key's.
pub uninterp spec fn yaml_texts(value: serde_yaml::Value) -> Map<Seq<char>, Seq<char>>;

/// The texts of the YAML document that `serde_yaml` reads from a text; `None`
/// for a text that it rejects.
pub uninterp spec fn yaml_document(text: Seq<char>) -> Option<Map<Seq<char>, Seq<char>>>;

/// Calls `serde_yaml::from_str` for a `serde_yaml::Value`.
///
/// Trusted: whether the text is accepted, and which value comes out, depends
/// on the text alone.
#[verifier::external_body]
fn decode_yaml(text: &str) -> (decoded: Option<serde_yaml::Value>)
    ensures
        decoded matches Some(value) ==> yaml_document(text@) == Some(yaml_texts(value)),
        decoded is None ==> yaml_document(text@) is None,
{
    serde_yaml::from_str::<serde_yaml::Value>(text).ok()
}

/// Calls `serde_yaml::Value::get` with a string key, and `as_str` on what is
/// found.
///
/// Trusted: a text comes back exactly where the value is a mapping that holds
/// a string under that key, and it is that string.
#[verifier::external_body]
fn yaml_text(value: &serde_yaml::Value, key: &str) -> (text: Option<String>)
    ensures
        text matches Some(s) ==> yaml_texts(*value).contains_key(key@) && yaml_texts(*value)[key@]
            == s@,
        text is None ==> !yaml_texts(*value).contains_key(key@),
{
    value.get(key).and_then(|entry| entry.as_str()).map(|s| s.to_string())
}

/// The metadata that a document carries about itself.
#[derive(Clone, Debug, PartialEq, Eq)]
pub struct FrontMatter {
    pub title: String,
    pub pub_date: String,
    pub author: String,
    pub url: String,
    pub description: String,
}

/// A `FrontMatter` as the texts that it holds.
pub struct FrontMatterView {
    pub title: Seq<char>,
    pub pub_date: Seq<char>,
    pub author: Seq<char>,
    pub url: Seq<char>,
    pub description: Seq<char>,
}

impl View for FrontMatter {
    type V = FrontMatterView;

    open spec fn view(&self) -> FrontMatterView {
        FrontMatterView {
            title: self.title@,
            pub_date: self.pub_date@,
            author: self.author@,
            url: self.url@,
            description: self.description@,
        }
    }
}

/// The view of a front matter that may be absent.
pub open spec fn front_matter_view(front_matter: Option<FrontMatter>) -> Option<FrontMatterView> {
    match front_matter {
        Some(found) => Some(found@),
        None => None,
    }
}

/// The front matter that five texts make up: all of them are required.
pub open spec fn required_fields(
    title: Option<Seq<char>>,
    pub_date: Option<Seq<char>>,
    author: Option<Seq<char>>,
    url: Option<Seq<char>>,
    description: Option<Seq<char>>,
) -> Option<FrontMatterView> {
    if title is Some && pub_date is Some && author is Some && url is Some && description is Some {
        Some(
            FrontMatterView {
                title: title->0,
                pub_date: pub_date->0,
                author: author->0,
                url: url->0,
                description: description->0,
            },
        )
    } else {
        None
    }
}

/// The text that a mapping holds under a key.
pub open spec fn text_at(texts: Map<Seq<char>, Seq<char>>, key: Seq<char>) -> Option<Seq<char>> {
    if texts.contains_key(key) {
        Some(texts[key])
    } else {
        None
    }
}

/// The front matter that the texts of a YAML mapping make up.
pub open spec fn front_matter_in(texts: Map<Seq<char>, Seq<char>>) -> Option<FrontMatterView> {
    required_fields(
        text_at(texts, "title"@),
        text_at(texts, "pub_date"@),
        text_at(texts, "author"@),
        text_at(texts, "url"@),
        text_at(texts, "description"@),
    )
}

/// The front matter of a document: its metadata block, read as YAML, with all
/// five fields present as strings.
pub open spec fn front_matter_of(content: Seq<char>, delimiter: Seq<char>) -> Option<
    FrontMatterView,
> {
    match block_between(content, delimiter) {
        None => None,
        Some(block) => match yaml_document(block) {
            None => None,
            Some(texts) => front_matter_in(texts),
        },
    }
}

/// Decoding loses nothing: there is a front matter exactly where the mapping
/// holds a text under each of the five keys, and its fields are those texts.
pub proof fn lemma_front_matter_is_lossless(texts: Map<Seq<char>, Seq<char>>)
    ensures
        front_matter_in(texts) is Some <==> texts.contains_key("title"@) && texts.contains_key(
            "pub_date"@,
        ) && texts.contains_key("author"@) && texts.contains_key("url"@) && texts.contains_key(
            "description"@,
        ),
        front_matter_in(texts) matches Some(front_matter) ==> front_matter.title == texts["title"@]
            && front_matter.pub_date == texts["pub_date"@] && front_matter.author
            == texts["author"@] && front_matter.url == texts["url"@] && front_matter.description
            == texts["description"@],
{
}

/// The view of a text that may be absent.
pub open spec fn text_view(text: Option<String>) -> Option<Seq<char>> {
    match text {
        Some(s) => Some(s@),
        None => None,
    }
}

impl FrontMatter {
    /// Makes a front matter of the five fields, each as it was found; there is
    /// none where one of them is missing. The texts are kept as they are.
    pub fn from_fields(
        title: Option<String>,
        pub_date: Option<String>,
        author: Option<String>,
        url: Option<String>,
        description: Option<String>,
    ) -> (front_matter: Option<FrontMatter>)
        ensures
            front_matter_view(front_matter) == required_fields(
                text_view(title),
                text_view(pub_date),
                text_view(author),
                text_view(url),
                text_view(description),
            ),
    {
        match (title, pub_date, author, url, description) {
            (Some(title), Some(pub_date), Some(author), Some(url), Some(description)) => Some(
                FrontMatter { title, pub_date, author, url, description },
            ),
            _ => None,
        }
    }
}

/// Reads the front matter of a document.
pub fn parse_front_matter(content: &str, delimiter: &str) -> (front_matter: Option<FrontMatter>)
    ensures
        front_matter_view(front_matter) == front_matter_of(content@, delimiter@),
{
    let block = match metadata_block(content, delimiter) {
        Some(block) => block,
        None => {
            return None;
        },
    };
    let value = match decode_yaml(block) {
        Some(value) => value,
        None => {
            return None;
        },
    };
    FrontMatter::from_fields(
        yaml_text(&value, "title"),
        yaml_text(&value, "pub_date"),
        yaml_text(&value, "author"),
        yaml_text(&value, "url"),
        yaml_text(&value, "description"),
    )
}

} // verus!
