//! The configuration of a site.

use crate::error::{BuildError, SiteFile};
use crate::sources::SiteInput;
use crate::yaml::{first_document, first_document_of, value_under, YamlValue};
use vstd::prelude::*;

verus! {

/// Title, address and description of a site.
#[derive(Debug)]
pub struct SiteConfig {
    /// The title of the site, shown in the head of its top-level pages.
    pub title: String,
    /// The address under which the site is published.
    pub url: String,
    /// A description of the site.
    pub description: String,
}

/// What a `SiteConfig` stands for.
pub struct SiteConfigView {
    pub title: Seq<char>,
    pub url: Seq<char>,
    pub description: Seq<char>,
}

impl View for SiteConfig {
    type V = SiteConfigView;

    open spec fn view(&self) -> SiteConfigView {
        SiteConfigView { title: self.title@, url: self.url@, description: self.description@ }
    }
}

/// The text that `doc` holds under `key`, if it holds a text there.
pub open spec fn required_text(doc: YamlValue, key: Seq<char>) -> Option<Seq<char>> {
    match value_under(doc, key) {
        Some(value) => value.text(),
        None => None,
    }
}

/// The configuration that the YAML document `doc` gives: the texts under
/// `title`, `url` and `description`, each of which must be there.
pub open spec fn config_of(doc: YamlValue) -> Option<SiteConfigView> {
    match (
        required_text(doc, "title"@),
        required_text(doc, "url"@),
        required_text(doc, "description"@),
    ) {
        (Some(title), Some(url), Some(description)) => Some(
            SiteConfigView { title, url, description },
        ),
        _ => None,
    }
}

/// The configuration that the text of `config.yaml` gives: that of its first
/// YAML document.
pub open spec fn site_config_of(source: Option<Seq<char>>) -> Result<SiteConfigView, BuildError> {
    match source {
        None => Err(BuildError::MissingFile(SiteFile::Config)),
        Some(text) => match first_document_of(text) {
            Some(doc) => match config_of(doc) {
                Some(config) => Ok(config),
                None => Err(BuildError::MalformedConfig),
            },
            None => Err(BuildError::MalformedConfig),
        },
    }
}

/// Reads the text that `doc` must hold under `key`.
fn read_required_text(doc: &YamlValue, key: &str) -> (text: Option<String>)
    ensures
        match text {
            Some(s) => required_text(*doc, key@) == Some(s@),
            None => required_text(*doc, key@) is None,
        },
{
    match doc.get(key) {
        Some(value) => match value.as_text() {
            Some(s) => Some(s.clone()),
            None => None,
        },
        None => None,
    }
}

impl SiteConfig {
    /// Reads the configuration of the site from its `config.yaml`.
    ///
    /// Fails with `MissingFile(Config)` where the file is not there, and with
    /// `MalformedConfig` where it is not YAML, holds no document, or its
    /// first document lacks a text under `title`, `url` or `description`.
    pub fn read_site_config(input: &SiteInput) -> (read: Result<SiteConfig, BuildError>)
        ensures
            match read {
                Ok(config) => site_config_of(input@.config) == Ok::<SiteConfigView, BuildError>(
                    config@,
                ),
                Err(e) => site_config_of(input@.config) == Err::<SiteConfigView, BuildError>(e),
            },
    {
        match &input.config {
            None => Err(BuildError::MissingFile(SiteFile::Config)),
            Some(source) => match first_document(source.as_str()) {
                None => Err(BuildError::MalformedConfig),
                Some(doc) => {
                    let title = read_required_text(&doc, "title");
                    let url = read_required_text(&doc, "url");
                    let description = read_required_text(&doc, "description");
                    match (title, url, description) {
                        (Some(title), Some(url), Some(description)) => Ok(
                            SiteConfig { title, url, description },
                        ),
                        _ => Err(BuildError::MalformedConfig),
                    }
                },
            },
        }
    }
}

} // verus!
