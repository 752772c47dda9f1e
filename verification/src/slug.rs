//! Snippet file names: the slug of a relative path, with a fixed extension.

use vstd::prelude::*;
use vstd::string::*;

verus! {

/// Whether `c` can occur in a slug: a lower-case ASCII letter, an ASCII digit
/// or the separator `-`.
pub open spec fn is_slug_char(c: char) -> bool {
    ('a' <= c && c <= 'z') || ('0' <= c && c <= '9') || c == '-'
}

/// Whether every character of `s` can occur in a slug.
pub open spec fn is_slug(s: Seq<char>) -> bool {
    forall|i: int| 0 <= i < s.len() ==> is_slug_char(#[trigger] s[i])
}

/// The slug of `text`: what `slugify::slugify` makes of it with no stop words,
/// the separator `-` and no length limit.
pub uninterp spec fn slug_of(text: Seq<char>) -> Seq<char>;

/// The file name of the snippet whose slug is `slug`.
pub open spec fn snippet_file_name_of(slug: Seq<char>) -> Seq<char> {
    slug + ".mdx"@
}

/// Two snippets get the same file name exactly when their slugs are the
/// same: paths that differ but share a slug share the file, and the later
/// snippet replaces the earlier one.
pub proof fn lemma_same_file_name_iff_same_slug(first: Seq<char>, second: Seq<char>)
    ensures
        snippet_file_name_of(slug_of(first)) == snippet_file_name_of(slug_of(second)) <==> slug_of(
            first,
        ) == slug_of(second),
{
    let a = slug_of(first);
    let b = slug_of(second);
    if snippet_file_name_of(a) == snippet_file_name_of(b) {
        assert(snippet_file_name_of(a).subrange(0, a.len() as int) =~= a);
        assert(snippet_file_name_of(b).subrange(0, b.len() as int) =~= b);
        assert(a.len() == b.len());
    }
}

/// Calls `slugify::slugify(text, "", "-", None)`, which is what the crate's
/// macro `slugify!` does with one argument.
///
/// Trusted: the result is a function of `text` alone, named `slug_of`, and it
/// holds nothing but lower-case ASCII letters, ASCII digits and `-`. The
/// function transliterates `text` to ASCII, lower-cases it and copies letters
/// and digits; every run of other characters becomes one `-`, and none stands
/// first or last.
#[verifier::external_body]
fn slug_text(text: &str) -> (slug: String)
    ensures
        slug@ == slug_of(text@),
        is_slug(slug@),
{
    slugify::slugify(text, "", "-", None)
}

/// The file name of the snippet whose slug is `slug`: the slug followed by
/// `.mdx`.
pub fn snippet_file_name(slug: &str) -> (name: String)
    ensures
        name@ == snippet_file_name_of(slug@),
{
    let mut name = slug.to_owned();
    name.append(".mdx");
    name
}

/// The snippet file name for the relative path `relative_path`: its slug
/// followed by `.mdx`.
pub fn slugify_snippet_name(relative_path: &str) -> (name: String)
    ensures
        name@ == snippet_file_name_of(slug_of(relative_path@)),
        is_slug(slug_of(relative_path@)),
{
    let slug = slug_text(relative_path);
    snippet_file_name(slug.as_str())
}

} // verus!
