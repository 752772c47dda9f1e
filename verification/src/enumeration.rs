//! File enumeration: from the entries found under a package directory to the
//! files that snippets are made of.

use vstd::prelude::*;
use vstd::string::*;
use crate::error::{SnippetError, SnippetErrorView};
use crate::path::{
    file_name, file_name_of, join, join_of, lemma_relative_keeps_file_name, relative_to,
    strip_prefix,
};
use crate::text::same_text;

verus! {

/// One entry found under a package directory.
#[derive(Debug, PartialEq, Eq)]
pub struct Entry {
    /// Where the entry is, package directory included.
    pub path: String,
    /// Whether the entry is a directory.
    pub is_dir: bool,
}

/// The mathematical content of an `Entry`.
pub struct EntryView {
    pub path: Seq<char>,
    pub is_dir: bool,
}

impl View for Entry {
    type V = EntryView;

    open spec fn view(&self) -> EntryView {
        EntryView { path: self.path@, is_dir: self.is_dir }
    }
}

impl Clone for Entry {
    fn clone(&self) -> (copy: Entry)
        ensures
            copy@ == self@,
    {
        Entry { path: self.path.clone(), is_dir: self.is_dir }
    }
}

impl DeepView for Entry {
    type V = EntryView;

    open spec fn deep_view(&self) -> EntryView {
        self@
    }
}

/// Whether the file at `path` is never made into a snippet: its file name is
/// `.gitignore` or `.ignore`.
pub open spec fn is_ignored(path: Seq<char>) -> bool {
    file_name_of(path) == ".gitignore"@ || file_name_of(path) == ".ignore"@
}

/// Whether a snippet is made of `entry`: it is no directory and not ignored.
pub open spec fn is_eligible(entry: EntryView) -> bool {
    !entry.is_dir && !is_ignored(entry.path)
}

/// The path of `entry` relative to `package_dir`, where a snippet is made of
/// it and it lies under `package_dir`.
pub open spec fn kept_file(package_dir: Seq<char>, entry: EntryView) -> Option<Seq<char>> {
    if is_eligible(entry) {
        relative_to(entry.path, package_dir)
    } else {
        None
    }
}

/// The files of a package, relative to `package_dir`, in the order of
/// `entries`.
pub open spec fn files_of(package_dir: Seq<char>, entries: Seq<EntryView>) -> Seq<Seq<char>> {
    entries.filter_map(|entry: EntryView| kept_file(package_dir, entry))
}

/// Whether `entries[i]` is the first entry that a snippet is made of and that
/// does not lie under `package_dir`.
pub open spec fn is_first_stray(package_dir: Seq<char>, entries: Seq<EntryView>, i: int) -> bool {
    &&& 0 <= i < entries.len()
    &&& is_eligible(entries[i])
    &&& relative_to(entries[i].path, package_dir) is None
    &&& forall|j: int|
        0 <= j < i && is_eligible(#[trigger] entries[j]) ==> relative_to(
            entries[j].path,
            package_dir,
        ) is Some
}

/// A file with an ignored name is never among the files of a package, however
/// deep it lies.
pub proof fn lemma_ignored_never_listed(package_dir: Seq<char>, entries: Seq<EntryView>)
    ensures
        forall|k: int|
            0 <= k < files_of(package_dir, entries).len() ==> !is_ignored(
                #[trigger] files_of(package_dir, entries)[k],
            ),
    decreases entries.len(),
{
    if entries.len() > 0 {
        let rest = entries.drop_last();
        lemma_ignored_never_listed(package_dir, rest);
        let all = files_of(package_dir, entries);
        let before = files_of(package_dir, rest);
        assert forall|k: int| 0 <= k < all.len() implies !is_ignored(#[trigger] all[k]) by {
            if k < before.len() {
                assert(all[k] == before[k]);
            } else {
                let entry = entries.last();
                assert(kept_file(package_dir, entry) == Some(all[k]));
                lemma_relative_keeps_file_name(entry.path, package_dir);
                reveal_strlit(".gitignore");
                reveal_strlit(".ignore");
                if all[k].len() == 0 {
                    assert(file_name_of(all[k]).len() == 0);
                }
            }
        }
    }
}

/// The directory of `package` under `examples_dir`.
pub fn package_dir(examples_dir: &str, package: &str) -> (dir: String)
    ensures
        dir@ == join_of(examples_dir@, package@),
{
    join(examples_dir, package)
}

/// The pattern that finds every entry under `package_dir`, at any depth.
pub fn files_pattern(package_dir: &str) -> (pattern: String)
    ensures
        pattern@ == join_of(package_dir@, "**/*"@),
{
    join(package_dir, "**/*")
}

/// Whether the file at `path` is never made into a snippet.
pub fn ignored(path: &str) -> (r: bool)
    ensures
        r == is_ignored(path@),
{
    let name = file_name(path);
    same_text(name, ".gitignore") || same_text(name, ".ignore")
}

/// The files of the package at `package_dir`, given the entries found under
/// it.
///
/// Directories and files with an ignored name are dropped; every other entry
/// contributes its path relative to `package_dir`, in the order of `entries`.
/// The first such entry that does not lie under `package_dir` makes the whole
/// enumeration fail.
pub fn package_files(package_dir: &str, entries: &Vec<Entry>) -> (r: Result<
    Vec<String>,
    SnippetError,
>)
    ensures
        match r {
            Ok(files) => {
                &&& forall|i: int|
                    0 <= i < entries.len() && is_eligible(#[trigger] entries.deep_view()[i])
                        ==> relative_to(entries.deep_view()[i].path, package_dir@) is Some
                &&& files.deep_view() == files_of(package_dir@, entries.deep_view())
                &&& forall|k: int|
                    0 <= k < files.len() ==> !is_ignored(#[trigger] files.deep_view()[k])
            },
            Err(e) => exists|i: int|
                is_first_stray(package_dir@, entries.deep_view(), i) && e@ == (
                SnippetErrorView::OutsideBase {
                    path: entries.deep_view()[i].path,
                    base: package_dir@,
                }),
        },
{
    let ghost all = entries.deep_view();
    let mut files: Vec<String> = Vec::new();
    let mut i: usize = 0;
    while i < entries.len()
        invariant
            i <= entries.len(),
            all == entries.deep_view(),
            forall|j: int|
                0 <= j < i && is_eligible(#[trigger] all[j]) ==> relative_to(
                    all[j].path,
                    package_dir@,
                ) is Some,
            files.deep_view() == files_of(package_dir@, all.take(i as int)),
        decreases entries.len() - i,
    {
        let entry = &entries[i];
        assert(entry@ == all[i as int]);
        let ghost before = files.deep_view();
        if !entry.is_dir && !ignored(entry.path.as_str()) {
            match strip_prefix(entry.path.as_str(), package_dir) {
                None => {
                    assert(is_first_stray(package_dir@, all, i as int));
                    return Err(
                        SnippetError::OutsideBase {
                            path: entry.path.clone(),
                            base: package_dir.to_owned(),
                        },
                    );
                },
                Some(file) => {
                    files.push(file.to_owned());
                    assert(files.deep_view() =~= before.push(file@));
                },
            }
        }
        proof {
            all.lemma_filter_map_take_succ(
                |entry: EntryView| kept_file(package_dir@, entry),
                i as int,
            );
        }
        i = i + 1;
    }
    proof {
        assert(all.take(i as int) =~= all);
        lemma_ignored_never_listed(package_dir@, all);
    }
    Ok(files)
}

} // verus!
