//! What can go wrong while snippets are made.

use vstd::prelude::*;
use vstd::string::*;

verus! {

/// Why a snippet, or the list of files to make snippets of, could not be
/// produced.
#[derive(Debug, PartialEq, Eq)]
pub enum SnippetError {
    /// The search for a pattern could not be run or broke off.
    Search { pattern: String },
    /// A path found by a search does not lie under the directory searched.
    OutsideBase { path: String, base: String },
    /// No language is known for the file.
    UnknownLanguage { path: String },
    /// The file could not be read as text.
    Read { path: String },
    /// The file or directory could not be written.
    Write { path: String },
}

/// The mathematical content of a `SnippetError`.
pub enum SnippetErrorView {
    Search { pattern: Seq<char> },
    OutsideBase { path: Seq<char>, base: Seq<char> },
    UnknownLanguage { path: Seq<char> },
    Read { path: Seq<char> },
    Write { path: Seq<char> },
}

impl View for SnippetError {
    type V = SnippetErrorView;

    open spec fn view(&self) -> SnippetErrorView {
        match *self {
            SnippetError::Search { pattern } => SnippetErrorView::Search { pattern: pattern@ },
            SnippetError::OutsideBase { path, base } => SnippetErrorView::OutsideBase {
                path: path@,
                base: base@,
            },
            SnippetError::UnknownLanguage { path } => SnippetErrorView::UnknownLanguage {
                path: path@,
            },
            SnippetError::Read { path } => SnippetErrorView::Read { path: path@ },
            SnippetError::Write { path } => SnippetErrorView::Write { path: path@ },
        }
    }
}

impl Clone for SnippetError {
    fn clone(&self) -> (copy: SnippetError)
        ensures
            copy@ == self@,
    {
        match self {
            SnippetError::Search { pattern } => SnippetError::Search { pattern: pattern.clone() },
            SnippetError::OutsideBase { path, base } => SnippetError::OutsideBase {
                path: path.clone(),
                base: base.clone(),
            },
            SnippetError::UnknownLanguage { path } => SnippetError::UnknownLanguage {
                path: path.clone(),
            },
            SnippetError::Read { path } => SnippetError::Read { path: path.clone() },
            SnippetError::Write { path } => SnippetError::Write { path: path.clone() },
        }
    }
}

/// The one-line diagnostic for an error. It names the offending path.
pub open spec fn message_of(e: SnippetErrorView) -> Seq<char> {
    match e {
        SnippetErrorView::Search { pattern } => "unable to read directory: "@ + pattern,
        SnippetErrorView::OutsideBase { path, base } => path + " is not under "@ + base,
        SnippetErrorView::UnknownLanguage { path } => "language detection of \""@ + path
            + "\" failed"@,
        SnippetErrorView::Read { path } => "unable to read "@ + path,
        SnippetErrorView::Write { path } => "unable to write "@ + path,
    }
}

impl SnippetError {
    /// The one-line diagnostic for this error.
    pub fn message(&self) -> (text: String)
        ensures
            text@ == message_of(self@),
    {
        match self {
            SnippetError::Search { pattern } => {
                let mut text = "unable to read directory: ".to_owned();
                text.append(pattern.as_str());
                text
            },
            SnippetError::Read { path } => {
                let mut text = "unable to read ".to_owned();
                text.append(path.as_str());
                text
            },
            SnippetError::Write { path } => {
                let mut text = "unable to write ".to_owned();
                text.append(path.as_str());
                text
            },
            SnippetError::OutsideBase { path, base } => {
                let mut text = path.clone();
                text.append(" is not under ");
                text.append(base.as_str());
                text
            },
            SnippetError::UnknownLanguage { path } => {
                let mut text = "language detection of \"".to_owned();
                text.append(path.as_str());
                text.append("\" failed");
                text
            },
        }
    }
}

} // verus!
