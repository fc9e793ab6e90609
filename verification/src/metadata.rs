//! What a post says of itself in its front matter.

use crate::date::{iso_pattern, parsed_date, Date, Ymd};
use crate::error::BuildError;
use crate::text::{clone_texts, texts};
use crate::yaml::{front_matter_of, has_front_matter, split_front_matter, value_under, YamlValue};
use vstd::prelude::*;

verus! {

/// The metadata of a post.
#[derive(Debug)]
pub struct MetaData {
    /// The title; empty where the post names none.
    pub title: String,
    /// The day of publication; the first of January 1970 where the post
    /// names none.
    pub date: Date,
    /// The names of the categories, in the order written. A name may occur
    /// more than once.
    pub categories: Vec<String>,
    /// A short description; may be empty.
    pub summary: String,
}

/// What a `MetaData` stands for.
pub struct MetaDataView {
    pub title: Seq<char>,
    pub date: Ymd,
    pub categories: Seq<Seq<char>>,
    pub summary: Seq<char>,
}

impl View for MetaData {
    type V = MetaDataView;

    open spec fn view(&self) -> MetaDataView {
        MetaDataView {
            title: self.title@,
            date: self.date@,
            categories: texts(self.categories@),
            summary: self.summary@,
        }
    }
}

/// The metadata of a post without front matter: no title, the first of
/// January 1970, no categories, no summary.
pub open spec fn default_metadata() -> MetaDataView {
    MetaDataView {
        title: Seq::empty(),
        date: Ymd { year: 1970, month: 1, day: 1 },
        categories: Seq::empty(),
        summary: Seq::empty(),
    }
}

/// The text that `doc` holds under `key`: `Ok(None)` where it has no such
/// key, an error where the value there is no text.
pub open spec fn text_field(doc: YamlValue, key: Seq<char>) -> Result<
    Option<Seq<char>>,
    BuildError,
> {
    match value_under(doc, key) {
        None => Ok(None),
        Some(value) => match value.text() {
            Some(t) => Ok(Some(t)),
            None => Err(BuildError::MalformedFrontMatter),
        },
    }
}

/// Whether each of `items` is a text.
pub open spec fn all_texts(items: Seq<YamlValue>) -> bool {
    forall|i: int| 0 <= i < items.len() ==> (#[trigger] items[i]).text() is Some
}

/// The texts of `items`, in order.
pub open spec fn texts_in(items: Seq<YamlValue>) -> Seq<Seq<char>> {
    Seq::new(items.len(), |i: int| items[i].text().unwrap())
}

/// The category names that `doc` lists: the items under `categories` where
/// that is a sequence, none where it is absent or something else; an error
/// where an item of the sequence is no text.
pub open spec fn category_field(doc: YamlValue) -> Result<Seq<Seq<char>>, BuildError> {
    match value_under(doc, "categories"@) {
        Some(YamlValue::Array(items)) => if all_texts(items@) {
            Ok(texts_in(items@))
        } else {
            Err(BuildError::MalformedFrontMatter)
        },
        _ => Ok(Seq::empty()),
    }
}

/// The date that `doc` names under `date`: the default where there is none,
/// an error where the value is no text or the text is no date.
pub open spec fn date_field(doc: YamlValue) -> Result<Ymd, BuildError> {
    match text_field(doc, "date"@) {
        Err(e) => Err(e),
        Ok(None) => Ok(default_metadata().date),
        Ok(Some(written)) => match parsed_date(written, iso_pattern()) {
            Some(date) => Ok(date),
            None => Err(BuildError::MalformedDate),
        },
    }
}

/// The metadata that the front matter document `doc` gives. The fields are
/// read in the order title, date, categories, summary, and the first that
/// fails decides the error. Keys other than these four are ignored, and a
/// document that is no hash has no keys.
pub open spec fn metadata_of(doc: YamlValue) -> Result<MetaDataView, BuildError> {
    match text_field(doc, "title"@) {
        Err(e) => Err(e),
        Ok(title) => match date_field(doc) {
            Err(e) => Err(e),
            Ok(date) => match category_field(doc) {
                Err(e) => Err(e),
                Ok(categories) => match text_field(doc, "summary"@) {
                    Err(e) => Err(e),
                    Ok(summary) => Ok(
                        MetaDataView {
                            title: match title {
                                Some(t) => t,
                                None => default_metadata().title,
                            },
                            date,
                            categories,
                            summary: match summary {
                                Some(t) => t,
                                None => default_metadata().summary,
                            },
                        },
                    ),
                },
            },
        },
    }
}

/// The metadata and the body of the post `text`.
pub open spec fn metadata_and_body(text: Seq<char>) -> Result<
    (MetaDataView, Seq<char>),
    BuildError,
> {
    match front_matter_of(text) {
        None => Err(BuildError::MalformedFrontMatter),
        Some((None, body)) => Ok((default_metadata(), body)),
        Some((Some(doc), body)) => match metadata_of(doc) {
            Ok(metadata) => Ok((metadata, body)),
            Err(e) => Err(e),
        },
    }
}

/// Metadata holds what front matter writes, and loses none of it: a
/// document with a text under `title`, a date under `date`, a list of texts
/// under `categories` and a text under `summary` gives that title, the day
/// that the date names, those categories in their order, however often a
/// name occurs, and that summary.
pub proof fn metadata_keeps_front_matter(
    doc: YamlValue,
    title: Seq<char>,
    date: Seq<char>,
    categories: Seq<YamlValue>,
    summary: Seq<char>,
)
    requires
        value_under(doc, "title"@) matches Some(value) && value.text() == Some(title),
        value_under(doc, "date"@) matches Some(value) && value.text() == Some(date),
        parsed_date(date, iso_pattern()) is Some,
        value_under(doc, "categories"@) matches Some(YamlValue::Array(items)) && items@
            == categories,
        all_texts(categories),
        value_under(doc, "summary"@) matches Some(value) && value.text() == Some(summary),
    ensures
        metadata_of(doc) matches Ok(metadata) && {
            &&& metadata.title == title
            &&& Some(metadata.date) == parsed_date(date, iso_pattern())
            &&& metadata.categories.len() == categories.len()
            &&& forall|i: int|
                0 <= i < categories.len() ==> Some(#[trigger] metadata.categories[i])
                    == categories[i].text()
            &&& metadata.summary == summary
        },
{
}

/// A post without front matter has the default metadata and is all body.
pub proof fn no_front_matter_gives_defaults(text: Seq<char>)
    requires
        !has_front_matter(text),
    ensures
        metadata_and_body(text) == Ok::<(MetaDataView, Seq<char>), BuildError>(
            (default_metadata(), text),
        ),
{
}

impl Default for MetaData {
    fn default() -> (metadata: MetaData)
        ensures
            metadata@ == default_metadata(),
    {
        let metadata = MetaData {
            title: String::new(),
            date: Date::epoch(),
            categories: Vec::new(),
            summary: String::new(),
        };
        assert(texts(metadata.categories@) =~= Seq::empty());
        metadata
    }
}

impl Clone for MetaData {
    fn clone(&self) -> (copy: MetaData)
        ensures
            copy@ == self@,
    {
        MetaData {
            title: self.title.clone(),
            date: self.date,
            categories: clone_texts(&self.categories),
            summary: self.summary.clone(),
        }
    }
}

/// Reads the text under `key` of `doc`, if there is one.
fn read_text_field(doc: &YamlValue, key: &str) -> (field: Result<Option<String>, BuildError>)
    ensures
        match field {
            Ok(Some(s)) => text_field(*doc, key@) == Ok::<Option<Seq<char>>, BuildError>(
                Some(s@),
            ),
            Ok(None) => text_field(*doc, key@) == Ok::<Option<Seq<char>>, BuildError>(None),
            Err(e) => text_field(*doc, key@) == Err::<Option<Seq<char>>, BuildError>(e),
        },
{
    match doc.get(key) {
        None => Ok(None),
        Some(value) => match value.as_text() {
            Some(s) => Ok(Some(s.clone())),
            None => Err(BuildError::MalformedFrontMatter),
        },
    }
}

/// Reads the category names of `doc`.
fn read_categories(doc: &YamlValue) -> (field: Result<Vec<String>, BuildError>)
    ensures
        match field {
            Ok(names) => category_field(*doc) == Ok::<Seq<Seq<char>>, BuildError>(texts(names@)),
            Err(e) => category_field(*doc) == Err::<Seq<Seq<char>>, BuildError>(e),
        },
{
    let mut names: Vec<String> = Vec::new();
    match doc.get("categories") {
        None => {
            assert(texts(names@) =~= Seq::empty());
            Ok(names)
        },
        Some(value) => match value.as_items() {
            None => {
                assert(texts(names@) =~= Seq::empty());
                Ok(names)
            },
            Some(items) => {
                let mut i: usize = 0;
                while i < items.len()
                    invariant
                        i <= items.len(),
                        names@.len() == i,
                        value_under(*doc, "categories"@) == Some(YamlValue::Array(*items)),
                        forall|j: int|
                            0 <= j < i ==> (#[trigger] items@[j]).text() == Some(names@[j]@),
                    decreases items.len() - i,
                {
                    match items[i].as_text() {
                        Some(s) => {
                            names.push(s.clone());
                        },
                        None => {
                            assert(items@[i as int].text() is None);
                            return Err(BuildError::MalformedFrontMatter);
                        },
                    }
                    i = i + 1;
                }
                assert(texts(names@) =~= texts_in(items@));
                Ok(names)
            },
        },
    }
}

/// Reads the metadata that a front matter document gives.
///
/// Fails with `MalformedFrontMatter` where `title`, `date`, `summary` or an
/// item of `categories` is present and no text, and with `MalformedDate`
/// where the text under `date` is no date; the first field in that order
/// that fails decides.
pub fn metadata_from(doc: &YamlValue) -> (read: Result<MetaData, BuildError>)
    ensures
        match read {
            Ok(metadata) => metadata_of(*doc) == Ok::<MetaDataView, BuildError>(metadata@),
            Err(e) => metadata_of(*doc) == Err::<MetaDataView, BuildError>(e),
        },
{
    let mut metadata = MetaData::default();
    match read_text_field(doc, "title") {
        Err(e) => {
            return Err(e);
        },
        Ok(Some(title)) => {
            metadata.title = title;
        },
        Ok(None) => {},
    }
    match read_text_field(doc, "date") {
        Err(e) => {
            return Err(e);
        },
        Ok(Some(written)) => match Date::parse(written.as_str()) {
            Some(date) => {
                metadata.date = date;
            },
            None => {
                return Err(BuildError::MalformedDate);
            },
        },
        Ok(None) => {},
    }
    match read_categories(doc) {
        Err(e) => {
            return Err(e);
        },
        Ok(names) => {
            metadata.categories = names;
        },
    }
    match read_text_field(doc, "summary") {
        Err(e) => {
            return Err(e);
        },
        Ok(Some(summary)) => {
            metadata.summary = summary;
        },
        Ok(None) => {},
    }
    Ok(metadata)
}

impl MetaData {
    /// Splits the text of a post into its metadata and its body.
    ///
    /// A post without front matter has the default metadata and is all body.
    /// Fails with `MalformedFrontMatter` where the block between the fences
    /// is not YAML, and as `metadata_from` does on the document in it.
    pub fn read_metadata_and_contents(file_contents: &str) -> (read: Result<
        (MetaData, &str),
        BuildError,
    >)
        ensures
            match read {
                Ok((metadata, body)) => metadata_and_body(file_contents@) == Ok::<
                    (MetaDataView, Seq<char>),
                    BuildError,
                >((metadata@, body@)),
                Err(e) => metadata_and_body(file_contents@) == Err::<
                    (MetaDataView, Seq<char>),
                    BuildError,
                >(e),
            },
            !has_front_matter(file_contents@) ==> (read matches Ok((metadata, body)) && metadata@
                == default_metadata() && body@ == file_contents@),
    {
        match split_front_matter(file_contents) {
            Err(e) => Err(e),
            Ok((doc, body)) => match doc {
                None => Ok((MetaData::default(), body)),
                Some(d) => match metadata_from(&d) {
                    Ok(metadata) => Ok((metadata, body)),
                    Err(e) => Err(e),
                },
            },
        }
    }
}

} // verus!
