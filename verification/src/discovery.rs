//! Package discovery: from the manifest files found under the examples
//! directory to the packages that snippets are made of.

use vstd::prelude::*;
use vstd::string::*;
use crate::error::{SnippetError, SnippetErrorView};
use crate::path::{
    file_name_of, is_under, join, join_of, parent, parent_of, relative_to, starts_with,
    strip_prefix, trim_slashes,
};
use crate::text::{last_index_of, lemma_last_index_of};

verus! {

/// The package that the manifest at `manifest` belongs to: the directory that
/// holds the manifest, relative to `examples_dir`. `None` where that directory
/// does not lie under `examples_dir`.
pub open spec fn package_of(examples_dir: Seq<char>, manifest: Seq<char>) -> Option<Seq<char>> {
    relative_to(parent_of(manifest), examples_dir)
}

/// Whether `package` is left out: it is the subtree `fullstack-templates` or
/// lies under it.
pub open spec fn is_excluded(package: Seq<char>) -> bool {
    is_under(package, "fullstack-templates"@)
}

/// The package of `manifest`, unless it is left out.
pub open spec fn kept_package(examples_dir: Seq<char>, manifest: Seq<char>) -> Option<Seq<char>> {
    match package_of(examples_dir, manifest) {
        Some(package) => if is_excluded(package) {
            None
        } else {
            Some(package)
        },
        None => None,
    }
}

/// The packages of `manifests`, in their order, without those left out.
pub open spec fn packages_of(examples_dir: Seq<char>, manifests: Seq<Seq<char>>) -> Seq<Seq<char>> {
    manifests.filter_map(|manifest: Seq<char>| kept_package(examples_dir, manifest))
}

/// Whether `manifests[i]` is the first manifest whose directory does not lie
/// under `examples_dir`.
pub open spec fn is_first_outside(examples_dir: Seq<char>, manifests: Seq<Seq<char>>, i: int) -> bool {
    &&& 0 <= i < manifests.len()
    &&& package_of(examples_dir, manifests[i]) is None
    &&& forall|j: int| 0 <= j < i ==> package_of(examples_dir, #[trigger] manifests[j]) is Some
}

/// No package that is left out is ever among the discovered ones.
pub proof fn lemma_excluded_never_discovered(examples_dir: Seq<char>, manifests: Seq<Seq<char>>)
    ensures
        forall|k: int|
            0 <= k < packages_of(examples_dir, manifests).len() ==> !is_excluded(
                #[trigger] packages_of(examples_dir, manifests)[k],
            ),
    decreases manifests.len(),
{
    if manifests.len() > 0 {
        let rest = manifests.drop_last();
        lemma_excluded_never_discovered(examples_dir, rest);
        let all = packages_of(examples_dir, manifests);
        let before = packages_of(examples_dir, rest);
        assert forall|k: int| 0 <= k < all.len() implies !is_excluded(#[trigger] all[k]) by {
            if k < before.len() {
                assert(all[k] == before[k]);
            }
        }
    }
}

/// Every discovered package is the package of one of the manifests.
pub proof fn lemma_discovered_has_manifest(examples_dir: Seq<char>, manifests: Seq<Seq<char>>)
    ensures
        forall|k: int|
            0 <= k < packages_of(examples_dir, manifests).len() ==> exists|i: int|
                0 <= i < manifests.len() && package_of(examples_dir, manifests[i]) == Some(
                    #[trigger] packages_of(examples_dir, manifests)[k],
                ),
    decreases manifests.len(),
{
    if manifests.len() > 0 {
        let rest = manifests.drop_last();
        lemma_discovered_has_manifest(examples_dir, rest);
        let all = packages_of(examples_dir, manifests);
        let before = packages_of(examples_dir, rest);
        assert forall|k: int| 0 <= k < all.len() implies exists|i: int|
            0 <= i < manifests.len() && package_of(examples_dir, manifests[i]) == Some(
                #[trigger] all[k],
            ) by {
            if k < before.len() {
                assert(all[k] == before[k]);
                let i = choose|i: int|
                    0 <= i < rest.len() && package_of(examples_dir, rest[i]) == Some(before[k]);
                assert(rest[i] == manifests[i]);
            } else {
                let i = manifests.len() - 1;
                assert(package_of(examples_dir, manifests[i]) == Some(all[k]));
            }
        }
    }
}

/// Whether `path` holds two `/` in a row at index `i`.
pub open spec fn empty_component_at(path: Seq<char>, i: int) -> bool {
    0 <= i && i + 1 < path.len() && path[i] == '/' && path[i + 1] == '/'
}

/// Whether `manifest` is a manifest path as a search yields it: a file named
/// `Cargo.toml`, reached through no empty component.
pub open spec fn is_manifest_path(manifest: Seq<char>) -> bool {
    &&& file_name_of(manifest) == "Cargo.toml"@
    &&& forall|i: int| !empty_component_at(manifest, i)
}

/// Whether `dir` is written without a trailing `/`, the root `/` aside.
pub open spec fn is_plain_dir(dir: Seq<char>) -> bool {
    dir.len() > 1 ==> dir.last() != '/'
}

/// The directory of a manifest path is written without a trailing `/`.
pub proof fn lemma_manifest_dir_is_plain(manifest: Seq<char>)
    requires
        is_manifest_path(manifest),
    ensures
        is_plain_dir(parent_of(manifest)),
{
    let slash = last_index_of(manifest, '/');
    lemma_last_index_of(manifest, '/');
    if slash > 1 {
        assert(!empty_component_at(manifest, slash - 1));
    }
}

/// Two manifest paths in one directory are the same path.
pub proof fn lemma_one_manifest_per_dir(first: Seq<char>, second: Seq<char>)
    requires
        is_manifest_path(first),
        is_manifest_path(second),
        parent_of(first) == parent_of(second),
    ensures
        first == second,
{
    let s1 = last_index_of(first, '/');
    let s2 = last_index_of(second, '/');
    lemma_last_index_of(first, '/');
    lemma_last_index_of(second, '/');
    let name = "Cargo.toml"@;
    assert(first.len() == s1 + 1 + name.len());
    assert(second.len() == s2 + 1 + name.len());
    let d1 = parent_of(first);
    let d2 = parent_of(second);
    assert(d1.len() == if s1 < 0 { 0 } else if s1 == 0 { 1 } else { s1 });
    assert(d2.len() == if s2 < 0 { 0 } else if s2 == 0 { 1 } else { s2 });
    if s1 == 0 && s2 == 1 {
        // The directory `/` and a one-character directory: that character
        // is `/` too, and stands right before the separator.
        assert(d1[0] == first[0] && d2[0] == second[0]);
        assert(empty_component_at(second, 0));
    }
    if s1 == 1 && s2 == 0 {
        assert(d1[0] == first[0] && d2[0] == second[0]);
        assert(empty_component_at(first, 0));
    }
    assert(s1 == s2);
    assert forall|j: int| 0 <= j < first.len() implies first[j] == second[j] by {
        if j < s1 {
            assert(parent_of(first)[j] == first[j]);
            assert(parent_of(second)[j] == second[j]);
        } else if j > s1 {
            assert(file_name_of(first)[j - s1 - 1] == first[j]);
            assert(file_name_of(second)[j - s1 - 1] == second[j]);
        }
    }
    assert(first =~= second);
}

/// Two plain directories with the same path relative to a base are the same
/// directory.
pub proof fn lemma_one_dir_per_relative_path(first: Seq<char>, second: Seq<char>, base: Seq<char>)
    requires
        is_plain_dir(first),
        is_plain_dir(second),
        relative_to(first, base) is Some,
        relative_to(first, base) == relative_to(second, base),
    ensures
        first == second,
{
    let b = trim_slashes(base);
    let rel = relative_to(first, base)->0;
    if base.len() > 0 && first != second {
        // Neither is the base itself: the other would be the base with a
        // trailing `/`.
        if first == b {
            assert(rel.len() == 0);
            assert(second.len() == b.len() + 1 && second.last() == '/');
        }
        if second == b {
            assert(rel.len() == 0);
            assert(first.len() == b.len() + 1 && first.last() == '/');
        }
        let cut = b.len() as int + 1;
        assert(first.len() == cut + rel.len());
        assert(second.len() == cut + rel.len());
        assert forall|j: int| 0 <= j < first.len() implies first[j] == second[j] by {
            if j < b.len() {
                assert(first.subrange(0, b.len() as int)[j] == first[j]);
                assert(second.subrange(0, b.len() as int)[j] == second[j]);
            } else if j >= cut {
                assert(first.subrange(cut, first.len() as int)[j - cut] == first[j]);
                assert(second.subrange(cut, second.len() as int)[j - cut] == second[j]);
            }
        }
        assert(first =~= second);
    }
}

/// No package is discovered twice: manifest paths that differ from one
/// another give packages that differ from one another.
pub proof fn lemma_no_package_twice(examples_dir: Seq<char>, manifests: Seq<Seq<char>>)
    requires
        forall|i: int| 0 <= i < manifests.len() ==> is_manifest_path(#[trigger] manifests[i]),
        forall|i: int, j: int|
            0 <= i < j < manifests.len() ==> #[trigger] manifests[i] != #[trigger] manifests[j],
    ensures
        forall|k: int, l: int|
            0 <= k < l < packages_of(examples_dir, manifests).len() ==> #[trigger] packages_of(
                examples_dir,
                manifests,
            )[k] != #[trigger] packages_of(examples_dir, manifests)[l],
    decreases manifests.len(),
{
    if manifests.len() > 0 {
        let rest = manifests.drop_last();
        let last = manifests.last();
        assert forall|i: int| 0 <= i < rest.len() implies is_manifest_path(#[trigger] rest[i]) by {
            assert(rest[i] == manifests[i]);
        }
        assert forall|i: int, j: int| 0 <= i < j < rest.len() implies #[trigger] rest[i]
            != #[trigger] rest[j] by {
            assert(rest[i] == manifests[i] && rest[j] == manifests[j]);
        }
        lemma_no_package_twice(examples_dir, rest);
        lemma_discovered_has_manifest(examples_dir, rest);
        let all = packages_of(examples_dir, manifests);
        let before = packages_of(examples_dir, rest);
        assert forall|k: int, l: int| 0 <= k < l < all.len() implies #[trigger] all[k]
            != #[trigger] all[l] by {
            assert(all[k] == before[k]);
            if l < before.len() {
                assert(all[l] == before[l]);
            } else {
                assert(package_of(examples_dir, last) == Some(all[l]));
                let i = choose|i: int|
                    0 <= i < rest.len() && package_of(examples_dir, rest[i]) == Some(before[k]);
                assert(rest[i] == manifests[i]);
                if all[k] == all[l] {
                    lemma_manifest_dir_is_plain(rest[i]);
                    lemma_manifest_dir_is_plain(last);
                    lemma_one_dir_per_relative_path(
                        parent_of(rest[i]),
                        parent_of(last),
                        examples_dir,
                    );
                    lemma_one_manifest_per_dir(rest[i], last);
                    assert(manifests[i] != manifests[manifests.len() - 1]);
                }
            }
        }
    }
}

/// The pattern that finds every manifest under `examples_dir`, at any depth.
pub fn manifest_pattern(examples_dir: &str) -> (pattern: String)
    ensures
        pattern@ == join_of(examples_dir@, "**/Cargo.toml"@),
{
    join(examples_dir, "**/Cargo.toml")
}

/// Whether `package` is left out of the snippets.
pub fn excluded(package: &str) -> (r: bool)
    ensures
        r == is_excluded(package@),
{
    starts_with(package, "fullstack-templates")
}

/// The packages under `examples_dir`, given the manifest files found there.
///
/// Each manifest contributes the directory that holds it, relative to
/// `examples_dir`; packages in the excluded subtree are dropped and the order
/// of the manifests is kept. The first manifest whose directory does not lie
/// under `examples_dir` makes the whole discovery fail.
pub fn rust_packages(examples_dir: &str, manifests: &Vec<String>) -> (r: Result<
    Vec<String>,
    SnippetError,
>)
    ensures
        match r {
            Ok(packages) => {
                &&& forall|i: int|
                    0 <= i < manifests.len() ==> package_of(
                        examples_dir@,
                        #[trigger] manifests.deep_view()[i],
                    ) is Some
                &&& packages.deep_view() == packages_of(examples_dir@, manifests.deep_view())
                &&& forall|k: int|
                    0 <= k < packages.len() ==> !is_excluded(#[trigger] packages.deep_view()[k])
            },
            Err(e) => exists|i: int|
                is_first_outside(examples_dir@, manifests.deep_view(), i) && e@ == (
                SnippetErrorView::OutsideBase {
                    path: parent_of(manifests.deep_view()[i]),
                    base: examples_dir@,
                }),
        },
{
    let ghost all = manifests.deep_view();
    let mut packages: Vec<String> = Vec::new();
    let mut i: usize = 0;
    while i < manifests.len()
        invariant
            i <= manifests.len(),
            all == manifests.deep_view(),
            forall|j: int| 0 <= j < i ==> package_of(examples_dir@, #[trigger] all[j]) is Some,
            packages.deep_view() == packages_of(examples_dir@, all.take(i as int)),
        decreases manifests.len() - i,
    {
        let dir = parent(manifests[i].as_str());
        assert(dir@ == parent_of(all[i as int]));
        let ghost before = packages.deep_view();
        match strip_prefix(dir, examples_dir) {
            None => {
                assert(is_first_outside(examples_dir@, all, i as int));
                return Err(
                    SnippetError::OutsideBase {
                        path: dir.to_owned(),
                        base: examples_dir.to_owned(),
                    },
                );
            },
            Some(package) => {
                if !excluded(package) {
                    packages.push(package.to_owned());
                    assert(packages.deep_view() =~= before.push(package@));
                }
            },
        }
        proof {
            all.lemma_filter_map_take_succ(
                |manifest: Seq<char>| kept_package(examples_dir@, manifest),
                i as int,
            );
        }
        i = i + 1;
    }
    proof {
        assert(all.take(i as int) =~= all);
        lemma_excluded_never_discovered(examples_dir@, all);
    }
    Ok(packages)
}

} // verus!
