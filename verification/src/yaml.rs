//! YAML documents as plain values, and the front matter at the top of a
//! post.

use crate::error::BuildError;
use crate::text::occurs_at;
use vstd::prelude::*;

verus! {

/// A YAML node as a plain value: the variants of the parser's node, one for
/// one. A hash holds its entries in the order of the document.
#[derive(Debug)]
pub enum YamlValue {
    /// A floating-point number, kept as it was written.
    Real(String),
    /// An integer.
    Integer(i64),
    /// A text.
    Text(String),
    /// A truth value.
    Boolean(bool),
    /// A sequence of nodes.
    Array(Vec<YamlValue>),
    /// A mapping from node to node: keys with their values.
    Hash(Vec<(YamlValue, YamlValue)>),
    /// A reference to an anchor.
    Alias(usize),
    /// The null node.
    Null,
    /// What the parser puts where a node could not be made.
    BadValue,
}

/// `yaml_rust::Yaml`, a node as the YAML parser makes it. Nothing is known
/// of a value of it but what `yaml_tree` names.
#[verifier::external_type_specification]
#[verifier::external_body]
pub struct ExYaml(yaml_rust::Yaml);

/// `yaml_rust::ScanError`, the failure that the YAML parser reports. Nothing
/// is known of a value of it.
#[verifier::external_type_specification]
#[verifier::external_body]
pub struct ExScanError(yaml_rust::ScanError);

/// What a node of the YAML parser holds, as a plain value.
pub uninterp spec fn yaml_tree(node: yaml_rust::Yaml) -> YamlValue;

/// The documents that `yaml_rust::YamlLoader::load_from_str` reads from
/// `source`, in order, or `None` where it reports a scan error.
pub uninterp spec fn yaml_documents(source: Seq<char>) -> Option<Seq<YamlValue>>;

/// The first of the YAML documents of `source`, if it is YAML and holds one.
pub open spec fn first_document_of(source: Seq<char>) -> Option<YamlValue> {
    match yaml_documents(source) {
        Some(docs) => if docs.len() > 0 {
            Some(docs[0])
        } else {
            None
        },
        None => None,
    }
}

/// The line that opens and closes front matter: three hyphens and a line
/// feed.
pub open spec fn fence() -> Seq<char> {
    seq!['-', '-', '-', '\n']
}

/// Whether the first fence at or after index 4 of `text` stands at `at`.
pub open spec fn closes_front_matter(text: Seq<char>, at: int) -> bool {
    &&& 4 <= at
    &&& occurs_at(text, fence(), at)
    &&& forall|j: int| 4 <= j < at ==> !occurs_at(text, fence(), j)
}

/// Whether `text` opens with a fence and holds a second one after it.
pub open spec fn has_front_matter(text: Seq<char>) -> bool {
    occurs_at(text, fence(), 0) && exists|at: int| closes_front_matter(text, at)
}

/// Where the closing fence of the front matter of `text` begins.
pub open spec fn front_matter_end(text: Seq<char>) -> int {
    choose|at: int| closes_front_matter(text, at)
}

/// What stands between the two fences of `text`.
pub open spec fn front_matter_block(text: Seq<char>) -> Seq<char> {
    text.subrange(4, front_matter_end(text))
}

/// What is left of `text` without its front matter: all that follows the
/// closing fence, or the whole text where there is no front matter.
pub open spec fn body_of(text: Seq<char>) -> Seq<char> {
    if has_front_matter(text) {
        text.skip(front_matter_end(text) + 4)
    } else {
        text
    }
}

/// The front matter of `text` with the body that follows it: the last YAML
/// document between the fences, or no document where the block holds none or
/// the text has no front matter. `None` where the block is not YAML.
pub open spec fn front_matter_of(text: Seq<char>) -> Option<(Option<YamlValue>, Seq<char>)> {
    if !has_front_matter(text) {
        Some((None, text))
    } else {
        match yaml_documents(front_matter_block(text)) {
            None => None,
            Some(docs) => Some(
                (
                    if docs.len() > 0 {
                        Some(docs.last())
                    } else {
                        None
                    },
                    body_of(text),
                ),
            ),
        }
    }
}

/// The value under the first key of `entries` that is the text `key`.
pub open spec fn entry_under(entries: Seq<(YamlValue, YamlValue)>, key: Seq<char>) -> Option<
    YamlValue,
>
    decreases entries.len(),
{
    if entries.len() == 0 {
        None
    } else if entries[0].0 matches YamlValue::Text(name) && name@ == key {
        Some(entries[0].1)
    } else {
        entry_under(entries.skip(1), key)
    }
}

/// The value that the hash `doc` holds under the text `key`; `None` where
/// `doc` is no hash or has no such key.
pub open spec fn value_under(doc: YamlValue, key: Seq<char>) -> Option<YamlValue> {
    match doc {
        YamlValue::Hash(entries) => entry_under(entries@, key),
        _ => None,
    }
}

/// Calls `yaml_rust::YamlLoader::load_from_str`. The contract claims that
/// the call returns for every text, and that the documents or the failure
/// depend on the text alone.
#[verifier::external_body]
fn load_documents(source: &str) -> (loaded: Result<Vec<yaml_rust::Yaml>, yaml_rust::ScanError>)
    ensures
        match loaded {
            Ok(docs) => yaml_documents(source@) == Some(
                docs@.map_values(|node: yaml_rust::Yaml| yaml_tree(node)),
            ),
            Err(_) => yaml_documents(source@) is None,
        },
{
    yaml_rust::YamlLoader::load_from_str(source)
}

/// Calls `frontmatter::parse_and_find_content`. That function looks for a
/// fence at the start of the text and for the first fence after it, hands
/// what stands between the two to `YamlLoader::load_from_str`, and returns
/// the last document, if there is one, with the text after the second fence;
/// a scan error of the loader is its error; without two such fences it
/// returns no document and the whole text. `front_matter_of` says the same.
#[verifier::external_body]
fn find_front_matter(text: &str) -> (found: Result<
    (Option<yaml_rust::Yaml>, &str),
    yaml_rust::ScanError,
>)
    ensures
        match found {
            Ok((doc, body)) => front_matter_of(text@) == Some(
                (
                    match doc {
                        Some(node) => Some(yaml_tree(node)),
                        None => None,
                    },
                    body@,
                ),
            ),
            Err(_) => front_matter_of(text@) is None,
        },
{
    frontmatter::parse_and_find_content(text)
}

/// Copies a node of the YAML parser into a plain value, variant for variant,
/// the entries of a hash in the order in which the hash hands them out.
#[verifier::external_body]
fn plain_value(node: &yaml_rust::Yaml) -> (value: YamlValue)
    ensures
        value == yaml_tree(*node),
{
    match node {
        yaml_rust::Yaml::Real(s) => YamlValue::Real(s.clone()),
        yaml_rust::Yaml::Integer(i) => YamlValue::Integer(*i),
        yaml_rust::Yaml::String(s) => YamlValue::Text(s.clone()),
        yaml_rust::Yaml::Boolean(b) => YamlValue::Boolean(*b),
        yaml_rust::Yaml::Array(v) => YamlValue::Array(v.iter().map(plain_value).collect()),
        yaml_rust::Yaml::Hash(h) => YamlValue::Hash(
            h.iter().map(|(k, v)| (plain_value(k), plain_value(v))).collect(),
        ),
        yaml_rust::Yaml::Alias(n) => YamlValue::Alias(*n),
        yaml_rust::Yaml::Null => YamlValue::Null,
        yaml_rust::Yaml::BadValue => YamlValue::BadValue,
    }
}

/// The first YAML document of `source`; `None` exactly where `source` is not
/// YAML or holds no document.
pub fn first_document(source: &str) -> (first: Option<YamlValue>)
    ensures
        first == first_document_of(source@),
{
    match load_documents(source) {
        Ok(docs) => {
            if docs.len() > 0 {
                Some(plain_value(&docs[0]))
            } else {
                None
            }
        },
        Err(_) => None,
    }
}

/// Splits a post into its front matter and its body.
///
/// A text without front matter is all body and gives no document.
/// `Err(MalformedFrontMatter)` exactly where the block between the fences is
/// not YAML.
pub fn split_front_matter(text: &str) -> (split: Result<(Option<YamlValue>, &str), BuildError>)
    ensures
        match split {
            Ok((doc, body)) => front_matter_of(text@) == Some((doc, body@)),
            Err(e) => e == BuildError::MalformedFrontMatter && front_matter_of(text@) is None,
        },
{
    match find_front_matter(text) {
        Ok((doc, body)) => {
            let value = match doc {
                Some(node) => Some(plain_value(&node)),
                None => None,
            };
            Ok((value, body))
        },
        Err(_) => Err(BuildError::MalformedFrontMatter),
    }
}

impl YamlValue {
    /// The text of a text node.
    pub open spec fn text(self) -> Option<Seq<char>> {
        match self {
            YamlValue::Text(s) => Some(s@),
            _ => None,
        }
    }

    /// The text that this node holds, if it is a text node.
    pub fn as_text(&self) -> (text: Option<&String>)
        ensures
            match text {
                Some(s) => self.text() == Some(s@),
                None => self.text() is None,
            },
    {
        match self {
            YamlValue::Text(s) => Some(s),
            _ => None,
        }
    }

    /// The items of this node, if it is a sequence.
    pub fn as_items(&self) -> (items: Option<&Vec<YamlValue>>)
        ensures
            match items {
                Some(v) => *self == YamlValue::Array(*v),
                None => !(*self is Array),
            },
    {
        match self {
            YamlValue::Array(v) => Some(v),
            _ => None,
        }
    }

    /// The value that this hash holds under the text `key`.
    pub fn get(&self, key: &str) -> (value: Option<&YamlValue>)
        ensures
            match value {
                Some(v) => value_under(*self, key@) == Some(*v),
                None => value_under(*self, key@) is None,
            },
    {
        match self {
            YamlValue::Hash(entries) => {
                let wanted = key.to_owned();
                let mut i: usize = 0;
                assert(entries@.skip(0) =~= entries@);
                while i < entries.len()
                    invariant
                        i <= entries.len(),
                        wanted@ == key@,
                        *self == YamlValue::Hash(*entries),
                        entry_under(entries@, key@) == entry_under(entries@.skip(i as int), key@),
                    decreases entries.len() - i,
                {
                    let ghost rest = entries@.skip(i as int);
                    assert(rest[0] == entries@[i as int]);
                    assert(rest.skip(1) =~= entries@.skip(i + 1));
                    match &entries[i].0 {
                        YamlValue::Text(name) => {
                            if *name == wanted {
                                return Some(&entries[i].1);
                            }
                        },
                        _ => {},
                    }
                    i = i + 1;
                }
                None
            },
            _ => None,
        }
    }
}

} // verus!
