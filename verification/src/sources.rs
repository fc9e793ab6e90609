//! A site as it is read and as it is written: texts, held in memory.

use vstd::prelude::*;

verus! {

/// A source file of a post.
#[derive(Debug)]
pub struct SourceFile {
    /// The folders that lead from the site root to the file, outermost
    /// first.
    pub folders: Vec<String>,
    /// The path or name of the file itself, below those folders.
    pub name: String,
    /// What the file holds.
    pub text: String,
}

/// What a `SourceFile` stands for.
pub struct SourceFileView {
    pub folders: Seq<Seq<char>>,
    pub name: Seq<char>,
    pub text: Seq<char>,
}

impl View for SourceFile {
    type V = SourceFileView;

    open spec fn view(&self) -> SourceFileView {
        SourceFileView {
            folders: self.folders@.map_values(|s: String| s@),
            name: self.name@,
            text: self.text@,
        }
    }
}

/// The sources of a site. A file of the site root that could not be read is
/// `None`.
#[derive(Debug)]
pub struct SiteInput {
    /// `config.yaml`.
    pub config: Option<String>,
    /// `header.md`.
    pub header: Option<String>,
    /// `footer.md`.
    pub footer: Option<String>,
    /// `index.html`.
    pub index: Option<String>,
    /// The files below `posts/`, in the order in which the folder lists
    /// them.
    pub posts: Vec<SourceFile>,
}

/// What an optional text holds.
pub open spec fn text_in(file: Option<String>) -> Option<Seq<char>> {
    match file {
        Some(text) => Some(text@),
        None => None,
    }
}

/// What each of `files` stands for, in order.
pub open spec fn source_views(files: Seq<SourceFile>) -> Seq<SourceFileView> {
    files.map_values(|f: SourceFile| f@)
}

/// What a `SiteInput` stands for.
pub struct SiteInputView {
    pub config: Option<Seq<char>>,
    pub header: Option<Seq<char>>,
    pub footer: Option<Seq<char>>,
    pub index: Option<Seq<char>>,
    pub posts: Seq<SourceFileView>,
}

impl View for SiteInput {
    type V = SiteInputView;

    open spec fn view(&self) -> SiteInputView {
        SiteInputView {
            config: text_in(self.config),
            header: text_in(self.header),
            footer: text_in(self.footer),
            index: text_in(self.index),
            posts: source_views(self.posts@),
        }
    }
}

/// A file of the generated site.
#[derive(Debug)]
pub struct OutputFile {
    /// The path below the output root, folders separated by `/`.
    pub path: String,
    /// What the file holds.
    pub contents: String,
}

/// What an `OutputFile` stands for.
pub struct OutputFileView {
    pub path: Seq<char>,
    pub contents: Seq<char>,
}

impl View for OutputFile {
    type V = OutputFileView;

    open spec fn view(&self) -> OutputFileView {
        OutputFileView { path: self.path@, contents: self.contents@ }
    }
}

/// What each of `files` stands for, in order.
pub open spec fn output_views(files: Seq<OutputFile>) -> Seq<OutputFileView> {
    files.map_values(|f: OutputFile| f@)
}

} // verus!
