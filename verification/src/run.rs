//! The decisions of a run that do not depend on a single package: what to do
//! about a missing examples directory, and where snippets are written.

use vstd::prelude::*;
use vstd::string::*;
use crate::path::{file_name_of, join, join_of};
use crate::slug::{is_slug, snippet_file_name_of};
use crate::text::{last_index_of, lemma_last_index_of_unique};

verus! {

/// What a run does when the examples directory does not exist.
#[derive(Debug, Clone, Copy, PartialEq, Eq, Structural)]
pub enum MissingRootPolicy {
    /// Say so and go on with discovery all the same.
    WarnAndContinue,
    /// Say so and stop.
    Halt,
}

impl Default for MissingRootPolicy {
    fn default() -> (policy: MissingRootPolicy)
        ensures
            policy == MissingRootPolicy::WarnAndContinue,
    {
        MissingRootPolicy::WarnAndContinue
    }
}

/// The outcome of looking at the examples directory before discovery.
#[derive(Debug, PartialEq, Eq)]
pub struct RootDecision {
    /// What to tell the user, if anything.
    pub diagnostic: Option<String>,
    /// Whether the run goes on to discovery.
    pub proceed: bool,
}

/// The diagnostic for a missing examples directory.
pub open spec fn missing_root_message(examples_dir: Seq<char>) -> Seq<char> {
    examples_dir + " does not exist"@
}

/// The directory that snippets are written to when none is given: the
/// directory `_snippets` beside the current one.
pub open spec fn default_snippets_dir_of(current_dir: Seq<char>) -> Seq<char> {
    join_of(join_of(current_dir, ".."@), "_snippets"@)
}

/// A snippet file lies directly in the snippets directory: the file name of
/// its path is the snippet file name, whatever the directory is.
pub proof fn lemma_snippet_lies_in_dir(snippets_dir: Seq<char>, slug: Seq<char>)
    requires
        is_slug(slug),
    ensures
        file_name_of(join_of(snippets_dir, snippet_file_name_of(slug))) == snippet_file_name_of(slug),
{
    reveal_strlit(".mdx");
    let name = snippet_file_name_of(slug);
    let path = join_of(snippets_dir, name);
    assert forall|j: int| 0 <= j < name.len() implies name[j] != '/' by {
        if j < slug.len() {
            assert(name[j] == slug[j]);
        }
    }
    let start = path.len() - name.len();
    assert forall|j: int| start <= j < path.len() implies path[j] != '/' by {
        assert(path[j] == name[j - start]);
    }
    lemma_last_index_of_unique(path, '/', start - 1);
    assert(path.subrange(start, path.len() as int) =~= name);
}

/// Decides what a run does about the examples directory: a missing one is
/// always reported, and stops the run only under the policy `Halt`.
pub fn root_decision(examples_dir: &str, is_there: bool, policy: MissingRootPolicy) -> (decision:
    RootDecision)
    ensures
        decision.proceed == (is_there || policy == MissingRootPolicy::WarnAndContinue),
        is_there ==> decision.diagnostic is None,
        !is_there ==> decision.diagnostic is Some && decision.diagnostic->0@ == missing_root_message(
            examples_dir@,
        ),
{
    if is_there {
        RootDecision { diagnostic: None, proceed: true }
    } else {
        let mut text = examples_dir.to_owned();
        text.append(" does not exist");
        let proceed = match policy {
            MissingRootPolicy::WarnAndContinue => true,
            MissingRootPolicy::Halt => false,
        };
        RootDecision { diagnostic: Some(text), proceed }
    }
}

/// The directory that snippets are written to when none is given.
pub fn default_snippets_dir(current_dir: &str) -> (dir: String)
    ensures
        dir@ == default_snippets_dir_of(current_dir@),
{
    let up = join(current_dir, "..");
    join(up.as_str(), "_snippets")
}

/// Where the snippet named `file_name` is written.
pub fn snippet_path(snippets_dir: &str, file_name: &str) -> (path: String)
    ensures
        path@ == join_of(snippets_dir@, file_name@),
{
    join(snippets_dir, file_name)
}

} // verus!
