use import_examples::discovery::{excluded, manifest_pattern, rust_packages};
use import_examples::error::SnippetError;

fn strings(items: &[&str]) -> Vec<String> {
    items.iter().map(|s| s.to_string()).collect()
}

#[test]
fn manifest_pattern_searches_every_depth() {
    assert_eq!(manifest_pattern("examples"), "examples/**/Cargo.toml");
    assert_eq!(manifest_pattern("examples/"), "examples/**/Cargo.toml");
    assert_eq!(manifest_pattern(""), "**/Cargo.toml");
}

#[test]
fn packages_are_manifest_directories_relative_to_the_root() {
    let manifests = strings(&[
        "examples/pkgA/Cargo.toml",
        "examples/nested/pkgB/Cargo.toml",
        "examples/Cargo.toml",
    ]);
    assert_eq!(
        rust_packages("examples", &manifests),
        Ok(strings(&["pkgA", "nested/pkgB", ""]))
    );
    assert_eq!(
        rust_packages("examples/", &manifests),
        Ok(strings(&["pkgA", "nested/pkgB", ""]))
    );
}

#[test]
fn no_manifest_means_no_package() {
    assert_eq!(rust_packages("examples", &Vec::new()), Ok(Vec::new()));
}

#[test]
fn discovery_keeps_the_order_of_the_manifests() {
    let manifests = strings(&["r/z/Cargo.toml", "r/a/Cargo.toml", "r/m/Cargo.toml"]);
    assert_eq!(rust_packages("r", &manifests), Ok(strings(&["z", "a", "m"])));
}

#[test]
fn excluded_subtree_is_never_discovered() {
    let manifests = strings(&[
        "examples/fullstack-templates/Cargo.toml",
        "examples/pkgA/Cargo.toml",
        "examples/fullstack-templates/auth/Cargo.toml",
        "examples/fullstack-templates/auth/api/Cargo.toml",
    ]);
    assert_eq!(rust_packages("examples", &manifests), Ok(strings(&["pkgA"])));
}

#[test]
fn exclusion_goes_by_whole_components() {
    let manifests = strings(&[
        "examples/fullstack-templates-v2/Cargo.toml",
        "examples/pkg/fullstack-templates/Cargo.toml",
    ]);
    assert_eq!(
        rust_packages("examples", &manifests),
        Ok(strings(&["fullstack-templates-v2", "pkg/fullstack-templates"]))
    );
}

#[test]
fn excluded_tells_the_subtree_apart() {
    assert!(excluded("fullstack-templates"));
    assert!(excluded("fullstack-templates/auth"));
    assert!(!excluded("fullstack-templates-v2"));
    assert!(!excluded("pkgA"));
    assert!(!excluded(""));
}

#[test]
fn manifest_outside_the_root_fails_discovery() {
    let manifests = strings(&[
        "examples/pkgA/Cargo.toml",
        "elsewhere/pkgB/Cargo.toml",
        "other/pkgC/Cargo.toml",
    ]);
    assert_eq!(
        rust_packages("examples", &manifests),
        Err(SnippetError::OutsideBase {
            path: "elsewhere/pkgB".to_string(),
            base: "examples".to_string(),
        })
    );
}

#[test]
fn root_with_a_leading_dot_does_not_match_plain_results() {
    let manifests = strings(&["examples/pkgA/Cargo.toml"]);
    assert_eq!(
        rust_packages("./examples", &manifests),
        Err(SnippetError::OutsideBase {
            path: "examples/pkgA".to_string(),
            base: "./examples".to_string(),
        })
    );
}

#[test]
fn outside_base_message_names_both_paths() {
    let e = SnippetError::OutsideBase {
        path: "elsewhere/pkgB".to_string(),
        base: "examples".to_string(),
    };
    assert_eq!(e.message(), "elsewhere/pkgB is not under examples");
    assert_eq!(e.clone(), e);
}

#[test]
fn input_and_output_failures_name_what_failed() {
    let search = SnippetError::Search { pattern: "examples/**/Cargo.toml".to_string() };
    assert_eq!(search.message(), "unable to read directory: examples/**/Cargo.toml");
    let read = SnippetError::Read { path: "examples/pkgA/src/main.rs".to_string() };
    assert_eq!(read.message(), "unable to read examples/pkgA/src/main.rs");
    let write = SnippetError::Write { path: "../_snippets/pkga-src-main-rs.mdx".to_string() };
    assert_eq!(write.message(), "unable to write ../_snippets/pkga-src-main-rs.mdx");
    assert_eq!(search.clone(), search);
    assert_eq!(read.clone(), read);
    assert_eq!(write.clone(), write);
    assert_ne!(read, SnippetError::Write { path: "examples/pkgA/src/main.rs".to_string() });
}

#[test]
fn distinct_manifests_give_distinct_packages() {
    let manifests = strings(&[
        "examples/Cargo.toml",
        "examples/a/Cargo.toml",
        "examples/a/b/Cargo.toml",
        "examples/b/Cargo.toml",
        "examples/b/a/Cargo.toml",
    ]);
    let packages = rust_packages("examples", &manifests).unwrap();
    assert_eq!(packages, strings(&["", "a", "a/b", "b", "b/a"]));
    for k in 0..packages.len() {
        for l in (k + 1)..packages.len() {
            assert_ne!(packages[k], packages[l]);
        }
    }
}
