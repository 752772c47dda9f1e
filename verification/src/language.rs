//! Language detection from a file's name.

use vstd::prelude::*;
use vstd::string::*;
use crate::error::{SnippetError, SnippetErrorView};
use crate::path::{extension, extension_of, file_name_of};
use crate::text::{
    last_index_of, lemma_last_index_of, lemma_last_index_of_append, lemma_last_index_of_unique,
    same_text,
};

verus! {

/// The identifier of the language that `detect_lang::from_path` finds for the
/// file name `name`, or `None` where it knows none.
pub uninterp spec fn language_of(name: Seq<char>) -> Option<Seq<char>>;

/// Whether `file` is a template: its extension is `example`.
pub open spec fn has_marker(file: Seq<char>) -> bool {
    extension_of(file) == Some("example"@)
}

/// The name that language detection works on: `file` without its final
/// `.example` where it is a template, `file` itself otherwise.
pub open spec fn detection_name_of(file: Seq<char>) -> Seq<char> {
    if has_marker(file) {
        file.subrange(0, file.len() - "example"@.len() - 1)
    } else {
        file
    }
}

/// Calls `detect_lang::from_path(name)` and hands back the identifier of the
/// language found.
///
/// Trusted: the outcome is a function of `name` alone, named `language_of`.
/// The outside function looks the extension of `name` up in a fixed table,
/// ignoring case, and reads no file.
#[verifier::external_body]
fn language_id(name: &str) -> (id: Option<String>)
    ensures
        match id {
            Some(l) => language_of(name@) == Some(l@),
            None => language_of(name@) is None,
        },
{
    match detect_lang::from_path(name) {
        Some(language) => Some(language.id().to_string()),
        None => None,
    }
}

/// A template's extension ends the path, so the path is that much longer than
/// the marker and the dot before it.
pub proof fn lemma_marker_is_suffix(file: Seq<char>)
    requires
        has_marker(file),
    ensures
        file.len() >= "example"@.len() + 2,
        file.subrange(file.len() - "example"@.len(), file.len() as int) == "example"@,
        file[file.len() - "example"@.len() - 1] == '.',
{
    let name = file_name_of(file);
    lemma_last_index_of(file, '/');
    lemma_last_index_of(name, '.');
    let slash = last_index_of(file, '/');
    let dot = last_index_of(name, '.');
    let ext = name.subrange(dot + 1, name.len() as int);
    assert(ext == "example"@);
    assert(ext.len() == name.len() - dot - 1);
    assert(file.subrange(file.len() - "example"@.len(), file.len() as int) =~= ext);
    assert(name[dot] == file[slash + 1 + dot]);
}

/// Detection never sees the marker of a template: for a path that has a
/// non-empty file name, the path with `.example` appended is detected under
/// the path itself.
pub proof fn lemma_marker_is_stripped(stem: Seq<char>)
    requires
        file_name_of(stem).len() > 0,
    ensures
        has_marker(stem + ".example"@),
        detection_name_of(stem + ".example"@) == stem,
{
    reveal_strlit(".example");
    reveal_strlit("example");
    let tail = ".example"@;
    let file = stem + tail;
    lemma_last_index_of_append(stem, tail, '/');
    lemma_last_index_of(stem, '/');
    let name = file_name_of(file);
    let stem_name = file_name_of(stem);
    assert(name =~= stem_name + tail);
    let dot = stem_name.len() as int;
    assert(name[dot] == '.');
    assert forall|j: int| dot < j < name.len() implies name[j] != '.' by {
        assert(name[j] == tail[j - dot]);
    }
    lemma_last_index_of_unique(name, '.', dot);
    assert(name.subrange(dot + 1, name.len() as int) =~= "example"@);
    assert(file.subrange(0, file.len() - "example"@.len() - 1) =~= stem);
}

/// The name that language detection works on for `file`.
pub fn language_detect_name(file: &str) -> (name: &str)
    ensures
        name@ == detection_name_of(file@),
{
    match extension(file) {
        Some(ext) => {
            if same_text(ext, "example") {
                proof {
                    lemma_marker_is_suffix(file@);
                    reveal_strlit("example");
                }
                let n = file.unicode_len();
                file.substring_char(0, n - 8)
            } else {
                file
            }
        },
        None => file,
    }
}

/// The language for `file`, given what detection found for its detection
/// name: the identifier found, or the error that names `file`.
pub fn language_or_error(file: &str, detected: Option<String>) -> (r: Result<String, SnippetError>)
    ensures
        match r {
            Ok(id) => detected == Some(id),
            Err(e) => detected is None && e@ == (SnippetErrorView::UnknownLanguage {
                path: file@,
            }),
        },
{
    match detected {
        Some(id) => Ok(id),
        None => Err(SnippetError::UnknownLanguage { path: file.to_owned() }),
    }
}

/// Detects the language of `file` from its name, a template's marker left
/// out. Where no language is known the error names `file`.
pub fn detect_language(file: &str) -> (r: Result<String, SnippetError>)
    ensures
        match r {
            Ok(id) => language_of(detection_name_of(file@)) == Some(id@),
            Err(e) => language_of(detection_name_of(file@)) is None && e@ == (
            SnippetErrorView::UnknownLanguage { path: file@ }),
        },
{
    let name = language_detect_name(file);
    let detected = language_id(name);
    language_or_error(file, detected)
}

} // verus!
