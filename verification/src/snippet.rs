//! Snippet generation: the name, the language and the text of the snippet
//! made of one file of a package.

use vstd::prelude::*;
use vstd::string::*;
use crate::error::{SnippetError, SnippetErrorView};
use crate::language::{detect_language, detection_name_of, language_of};
use crate::path::{join, join_of, lemma_relative_then_rejoined, relative_to};
use crate::slug::{is_slug, slug_of, slugify_snippet_name, snippet_file_name_of};

verus! {

/// The relative identity of a file: its package and its path in the package,
/// with a `/` between them. It is what the slug is made of and what the
/// snippet shows as its label.
pub open spec fn identity_of(package: Seq<char>, file: Seq<char>) -> Seq<char> {
    package + "/"@ + file
}

/// Where the file is read from: the package directory under `examples_dir`,
/// a `/`, and the file's path in the package.
pub open spec fn source_path_of(examples_dir: Seq<char>, package: Seq<char>, file: Seq<char>) -> Seq<
    char,
> {
    join_of(examples_dir, package) + "/"@ + file
}

/// The opening fence line of a snippet, its line break included.
pub open spec fn opening_of(language: Seq<char>, label: Seq<char>) -> Seq<char> {
    "```"@ + language + " "@ + label + "\n"@
}

/// What follows the contents of a snippet: a line break and the closing
/// fence line.
pub open spec fn closing() -> Seq<char> {
    "\n```\n"@
}

/// The text of a snippet: the opening fence line, the contents as they are,
/// and the closing fence.
pub open spec fn rendered_of(language: Seq<char>, label: Seq<char>, contents: Seq<char>) -> Seq<
    char,
> {
    opening_of(language, label) + contents + closing()
}

/// What is settled about a snippet before its file is read.
#[derive(Debug, PartialEq, Eq)]
pub struct SnippetPlan {
    /// The name of the snippet file in the output directory.
    pub file_name: String,
    /// The language tag of the fence.
    pub language: String,
    /// The label shown beside the language tag.
    pub display_label: String,
    /// The file whose contents the snippet holds.
    pub source_path: String,
}

/// The mathematical content of a `SnippetPlan`.
pub struct SnippetPlanView {
    pub file_name: Seq<char>,
    pub language: Seq<char>,
    pub display_label: Seq<char>,
    pub source_path: Seq<char>,
}

impl View for SnippetPlan {
    type V = SnippetPlanView;

    open spec fn view(&self) -> SnippetPlanView {
        SnippetPlanView {
            file_name: self.file_name@,
            language: self.language@,
            display_label: self.display_label@,
            source_path: self.source_path@,
        }
    }
}

impl Clone for SnippetPlan {
    fn clone(&self) -> (copy: SnippetPlan)
        ensures
            copy@ == self@,
    {
        SnippetPlan {
            file_name: self.file_name.clone(),
            language: self.language.clone(),
            display_label: self.display_label.clone(),
            source_path: self.source_path.clone(),
        }
    }
}

/// The plan for `file` of `package`, given the snippet file name made of its
/// identity and the language found for it.
pub open spec fn assembled(
    examples_dir: Seq<char>,
    package: Seq<char>,
    file: Seq<char>,
    file_name: Seq<char>,
    language: Seq<char>,
) -> SnippetPlanView {
    SnippetPlanView {
        file_name,
        language,
        display_label: identity_of(package, file),
        source_path: source_path_of(examples_dir, package, file),
    }
}

/// The plan for `file` of `package`: the snippet is named by the slug of the
/// file's identity, and its language is detected from the file's name with a
/// template's marker left out. Where no language is known the error names
/// `file`.
pub open spec fn plan_of(examples_dir: Seq<char>, package: Seq<char>, file: Seq<char>) -> Result<
    SnippetPlanView,
    SnippetErrorView,
> {
    match language_of(detection_name_of(file)) {
        Some(language) => Ok(
            assembled(
                examples_dir,
                package,
                file,
                snippet_file_name_of(slug_of(identity_of(package, file))),
                language,
            ),
        ),
        None => Err(SnippetErrorView::UnknownLanguage { path: file }),
    }
}

/// The mathematical content of the outcome of planning.
pub open spec fn outcome_view(r: Result<SnippetPlan, SnippetError>) -> Result<
    SnippetPlanView,
    SnippetErrorView,
> {
    match r {
        Ok(plan) => Ok(plan@),
        Err(e) => Err(e@),
    }
}

/// What stands between the fences of `snippet`: the text after the opening
/// fence line and before the closing fence.
pub open spec fn body_of(snippet: Seq<char>, language: Seq<char>, label: Seq<char>) -> Seq<char> {
    snippet.subrange(
        opening_of(language, label).len() as int,
        snippet.len() - closing().len(),
    )
}

/// The contents of a file come out of its snippet as they went in: the
/// snippet is the opening fence line, the contents and the closing fence, and
/// what stands between the fences is the contents, character for character.
pub proof fn lemma_contents_round_trip(language: Seq<char>, label: Seq<char>, contents: Seq<char>)
    ensures
        rendered_of(language, label, contents).len() == opening_of(language, label).len()
            + contents.len() + closing().len(),
        opening_of(language, label).is_prefix_of(rendered_of(language, label, contents)),
        closing().is_suffix_of(rendered_of(language, label, contents)),
        body_of(rendered_of(language, label, contents), language, label) == contents,
{
    let open = opening_of(language, label);
    let all = rendered_of(language, label, contents);
    assert(all.subrange(0, open.len() as int) =~= open);
    assert(all.subrange(all.len() - closing().len(), all.len() as int) =~= closing());
    assert(body_of(all, language, label) =~= contents);
}

/// Snippets of one file, label and language differ exactly where the
/// contents differ.
pub proof fn lemma_rendering_is_injective(
    language: Seq<char>,
    label: Seq<char>,
    first: Seq<char>,
    second: Seq<char>,
)
    requires
        rendered_of(language, label, first) == rendered_of(language, label, second),
    ensures
        first == second,
{
    lemma_contents_round_trip(language, label, first);
    lemma_contents_round_trip(language, label, second);
}

/// A file is read where it was found: the source path of a file listed for
/// a package is the path of the entry it was listed for. This holds where the
/// package directory is not empty, does not end in `/` and is not the entry
/// itself.
pub proof fn lemma_source_is_the_entry(examples_dir: Seq<char>, package: Seq<char>, entry: Seq<char>)
    requires
        join_of(examples_dir, package).len() > 0,
        join_of(examples_dir, package).last() != '/',
        entry != join_of(examples_dir, package),
        relative_to(entry, join_of(examples_dir, package)) is Some,
    ensures
        source_path_of(
            examples_dir,
            package,
            relative_to(entry, join_of(examples_dir, package))->0,
        ) == entry,
{
    reveal_strlit("/");
    assert("/"@ =~= seq!['/']);
    lemma_relative_then_rejoined(entry, join_of(examples_dir, package));
}

/// Planning and rendering repeat themselves: two runs over the same
/// directory, package, file and contents end alike, and where they succeed
/// their snippets have the same file name and the same text.
pub proof fn lemma_rerun_is_identical(
    examples_dir: Seq<char>,
    package: Seq<char>,
    file: Seq<char>,
    contents: Seq<char>,
    first: Result<SnippetPlan, SnippetError>,
    second: Result<SnippetPlan, SnippetError>,
)
    requires
        outcome_view(first) == plan_of(examples_dir, package, file),
        outcome_view(second) == plan_of(examples_dir, package, file),
    ensures
        outcome_view(first) == outcome_view(second),
        first is Ok <==> second is Ok,
        first is Ok ==> first->Ok_0.file_name@ == second->Ok_0.file_name@ && rendered_of(
            first->Ok_0.language@,
            first->Ok_0.display_label@,
            contents,
        ) == rendered_of(second->Ok_0.language@, second->Ok_0.display_label@, contents),
{
}

/// The relative identity of `file` in `package`.
pub fn relative_identity(package: &str, file: &str) -> (identity: String)
    ensures
        identity@ == identity_of(package@, file@),
{
    let mut identity = package.to_owned();
    identity.append("/");
    identity.append(file);
    identity
}

/// Where `file` of `package` is read from.
pub fn source_path(examples_dir: &str, package: &str, file: &str) -> (path: String)
    ensures
        path@ == source_path_of(examples_dir@, package@, file@),
{
    let mut path = join(examples_dir, package);
    path.append("/");
    path.append(file);
    path
}

/// Wraps `contents` in a fenced code block tagged with `language` and
/// labelled `display_name`. The contents are not changed in any way.
pub fn generate_snippet(language: &str, display_name: &str, contents: &str) -> (snippet: String)
    ensures
        snippet@ == rendered_of(language@, display_name@, contents@),
{
    let mut snippet = "```".to_owned();
    snippet.append(language);
    snippet.append(" ");
    snippet.append(display_name);
    snippet.append("\n");
    snippet.append(contents);
    snippet.append("\n```\n");
    snippet
}

/// Puts a plan together from the snippet file name and the language that
/// were found for `file` of `package`.
pub fn assemble_plan(
    examples_dir: &str,
    package: &str,
    file: &str,
    file_name: String,
    language: String,
) -> (plan: SnippetPlan)
    ensures
        plan@ == assembled(examples_dir@, package@, file@, file_name@, language@),
{
    SnippetPlan {
        file_name,
        language,
        display_label: relative_identity(package, file),
        source_path: source_path(examples_dir, package, file),
    }
}

/// Plans the snippet of `file` in `package`: its file name, its language, its
/// label and where its contents are read from.
pub fn plan_snippet(examples_dir: &str, package: &str, file: &str) -> (r: Result<
    SnippetPlan,
    SnippetError,
>)
    ensures
        outcome_view(r) == plan_of(examples_dir@, package@, file@),
        is_slug(slug_of(identity_of(package@, file@))),
{
    let identity = relative_identity(package, file);
    let file_name = slugify_snippet_name(identity.as_str());
    match detect_language(file) {
        Ok(language) => Ok(assemble_plan(examples_dir, package, file, file_name, language)),
        Err(e) => Err(e),
    }
}

impl SnippetPlan {
    /// The text of the planned snippet, given the contents of its file.
    pub fn render(&self, contents: &str) -> (snippet: String)
        ensures
            snippet@ == rendered_of(self.language@, self.display_label@, contents@),
    {
        generate_snippet(self.language.as_str(), self.display_label.as_str(), contents)
    }
}

} // verus!
