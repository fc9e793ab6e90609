//! The ways in which a build fails.

use vstd::prelude::*;
use vstd::string::StringExecFns;

verus! {

/// A file that every site must hold at its root.
#[derive(Clone, Copy, Debug, PartialEq, Eq, Structural)]
pub enum SiteFile {
    /// `config.yaml`: title, address and description of the site.
    Config,
    /// `header.md`: what stands at the top of every page.
    Header,
    /// `footer.md`: what stands at the bottom of every page.
    Footer,
    /// `index.html`: the body of the home page.
    Index,
}

/// Why a site could not be built. Every one of these ends the whole build.
#[derive(Clone, Copy, Debug, PartialEq, Eq, Structural)]
pub enum BuildError {
    /// A required file of the site could not be read.
    MissingFile(SiteFile),
    /// The site configuration is not YAML, holds no document, or lacks a
    /// text under `title`, `url` or `description`.
    MalformedConfig,
    /// The front matter of a post is not YAML, or one of its known fields
    /// holds something other than text.
    MalformedFrontMatter,
    /// The `date` of a post is not a calendar day written as
    /// year, month and day.
    MalformedDate,
    /// The path of a source file ends in no file name.
    UnnamedSource,
    /// A source file lies more folders below the site root than a page can
    /// be told to climb.
    NestedTooDeep,
}

impl SiteFile {
    /// The name of the file below the site root.
    pub fn file_name(&self) -> (name: &'static str)
        ensures
            name@ == match *self {
                SiteFile::Config => "config.yaml"@,
                SiteFile::Header => "header.md"@,
                SiteFile::Footer => "footer.md"@,
                SiteFile::Index => "index.html"@,
            },
    {
        match self {
            SiteFile::Config => "config.yaml",
            SiteFile::Header => "header.md",
            SiteFile::Footer => "footer.md",
            SiteFile::Index => "index.html",
        }
    }
}

/// What `error` says to the person who runs the build.
pub open spec fn message_of(error: BuildError) -> Seq<char> {
    match error {
        BuildError::MissingFile(file) => "missing required file "@ + match file {
            SiteFile::Config => "config.yaml"@,
            SiteFile::Header => "header.md"@,
            SiteFile::Footer => "footer.md"@,
            SiteFile::Index => "index.html"@,
        },
        BuildError::MalformedConfig => "config.yaml is not a valid site configuration"@,
        BuildError::MalformedFrontMatter => "the front matter of a post is malformed"@,
        BuildError::MalformedDate => "the date of a post is not written as YYYY-MM-DD"@,
        BuildError::UnnamedSource => "a source file has no file name"@,
        BuildError::NestedTooDeep => "a post lies too many folders below the site root"@,
    }
}

impl BuildError {
    /// A line that says what went wrong, and for a missing file which one.
    pub fn message(&self) -> (text: String)
        ensures
            text@ == message_of(*self),
    {
        match self {
            BuildError::MissingFile(file) => {
                let mut text = "missing required file ".to_owned();
                text.append(file.file_name());
                text
            },
            BuildError::MalformedConfig => "config.yaml is not a valid site configuration".to_owned(),
            BuildError::MalformedFrontMatter => "the front matter of a post is malformed".to_owned(),
            BuildError::MalformedDate => "the date of a post is not written as YYYY-MM-DD".to_owned(),
            BuildError::UnnamedSource => "a source file has no file name".to_owned(),
            BuildError::NestedTooDeep => "a post lies too many folders below the site root".to_owned(),
        }
    }
}

} // verus!
