use import_examples::error::SnippetError;
use import_examples::language::{detect_language, language_detect_name, language_or_error};
use import_examples::slug::{slugify_snippet_name, snippet_file_name};
use import_examples::snippet::{
    assemble_plan, generate_snippet, plan_snippet, relative_identity, source_path, SnippetPlan,
};

#[test]
fn relative_identity_joins_package_and_file() {
    assert_eq!(relative_identity("pkgA", "src/main.rs"), "pkgA/src/main.rs");
    assert_eq!(relative_identity("", "Cargo.toml"), "/Cargo.toml");
    assert_eq!(relative_identity("a/b", ""), "a/b/");
}

#[test]
fn source_path_is_root_package_and_file() {
    assert_eq!(source_path("examples", "pkgA", "src/main.rs"), "examples/pkgA/src/main.rs");
    assert_eq!(source_path("examples/", "pkgA", "src/main.rs"), "examples/pkgA/src/main.rs");
    assert_eq!(source_path("", "pkgA", "Cargo.toml"), "pkgA/Cargo.toml");
}

#[test]
fn snippet_file_name_appends_the_extension() {
    assert_eq!(snippet_file_name("pkga-src-main-rs"), "pkga-src-main-rs.mdx");
    assert_eq!(snippet_file_name(""), ".mdx");
}

#[test]
fn snippet_name_is_the_slug_of_the_path() {
    assert_eq!(slugify_snippet_name("pkgA/src/main.rs"), "pkga-src-main-rs.mdx");
    assert_eq!(slugify_snippet_name("Hello World"), "hello-world.mdx");
    assert_eq!(slugify_snippet_name("/Cargo.toml"), "cargo-toml.mdx");
    assert_eq!(slugify_snippet_name("pkg/Æúű--cool?.rs"), "pkg-aeuu-cool-rs.mdx");
}

#[test]
fn snippet_name_holds_only_slug_characters() {
    let name = slugify_snippet_name("My Pkg/src/Über_Datei (1).RS");
    let slug = name.strip_suffix(".mdx").unwrap();
    assert!(!slug.is_empty());
    assert!(slug.chars().all(|c| c.is_ascii_lowercase() || c.is_ascii_digit() || c == '-'));
}

#[test]
fn same_path_gives_the_same_snippet_name() {
    assert_eq!(
        slugify_snippet_name("pkgA/src/main.rs"),
        slugify_snippet_name("pkgA/src/main.rs")
    );
}

#[test]
fn different_paths_with_one_slug_share_the_snippet_name() {
    let first = slugify_snippet_name("pkg/a_b.rs");
    let second = slugify_snippet_name("pkg/a-b.rs");
    let third = slugify_snippet_name("PKG/a b.rs");
    assert_eq!(first, "pkg-a-b-rs.mdx");
    assert_eq!(first, second);
    assert_eq!(first, third);
    assert_ne!(first, slugify_snippet_name("pkg/ab.rs"));
}

#[test]
fn detection_name_drops_the_marker() {
    assert_eq!(language_detect_name("config.yaml.example"), "config.yaml");
    assert_eq!(language_detect_name("deploy/config.yaml.example"), "deploy/config.yaml");
    assert_eq!(language_detect_name("a.example"), "a");
    assert_eq!(language_detect_name("x.example.example"), "x.example");
}

#[test]
fn detection_name_keeps_other_files() {
    assert_eq!(language_detect_name("src/main.rs"), "src/main.rs");
    assert_eq!(language_detect_name("Makefile"), "Makefile");
    assert_eq!(language_detect_name(".example"), ".example");
    assert_eq!(language_detect_name("dir/.example"), "dir/.example");
    assert_eq!(language_detect_name("example"), "example");
    assert_eq!(language_detect_name("config.examples"), "config.examples");
    assert_eq!(language_detect_name("config.example/file.rs"), "config.example/file.rs");
    assert_eq!(language_detect_name(""), "");
}

#[test]
fn language_comes_from_the_extension() {
    assert_eq!(detect_language("src/main.rs"), Ok("rust".to_string()));
    assert_eq!(detect_language("Cargo.toml"), Ok("toml".to_string()));
    assert_eq!(detect_language("README.md"), Ok("markdown".to_string()));
    assert_eq!(detect_language("include/lib.hpp"), Ok("cpp".to_string()));
    assert_eq!(detect_language("data.JSON"), Ok("json".to_string()));
}

#[test]
fn template_is_detected_by_its_underlying_extension() {
    assert_eq!(detect_language("config.yaml.example"), Ok("yaml".to_string()));
    assert_eq!(detect_language("deploy/Secrets.toml.example"), Ok("toml".to_string()));
}

#[test]
fn unknown_language_names_the_file() {
    assert_eq!(
        detect_language("notes.unknown"),
        Err(SnippetError::UnknownLanguage { path: "notes.unknown".to_string() })
    );
    assert_eq!(
        detect_language("Makefile"),
        Err(SnippetError::UnknownLanguage { path: "Makefile".to_string() })
    );
    assert_eq!(
        detect_language("config.example"),
        Err(SnippetError::UnknownLanguage { path: "config.example".to_string() })
    );
}

#[test]
fn unknown_language_message_names_the_file() {
    let e = SnippetError::UnknownLanguage { path: "notes.unknown".to_string() };
    assert_eq!(e.message(), "language detection of \"notes.unknown\" failed");
    assert_eq!(e.clone(), e);
}

#[test]
fn language_or_error_passes_the_language_on() {
    assert_eq!(language_or_error("a.rs", Some("rust".to_string())), Ok("rust".to_string()));
    assert_eq!(
        language_or_error("a.rs", None),
        Err(SnippetError::UnknownLanguage { path: "a.rs".to_string() })
    );
}

#[test]
fn snippet_is_a_fenced_block() {
    assert_eq!(
        generate_snippet("rust", "pkgA/src/main.rs", "fn main() {}"),
        "```rust pkgA/src/main.rs\nfn main() {}\n```\n"
    );
    assert_eq!(generate_snippet("toml", "p/Cargo.toml", ""), "```toml p/Cargo.toml\n\n```\n");
    assert_eq!(generate_snippet("", "", ""), "``` \n\n```\n");
}

#[test]
fn snippet_body_is_the_contents_unchanged() {
    let contents = "line one\r\n\ttabbed <b>&amp;</b> \\n \"quoted\"\n```\nfenced\n```\n\n";
    let language = "markdown";
    let label = "pkg/README.md";
    let snippet = generate_snippet(language, label, contents);
    let opening = format!("```{} {}\n", language, label);
    let closing = "\n```\n";
    assert!(snippet.starts_with(&opening));
    assert!(snippet.ends_with(closing));
    assert_eq!(&snippet[opening.len()..snippet.len() - closing.len()], contents);
}

#[test]
fn snippet_keeps_the_trailing_newline_of_the_contents() {
    assert_eq!(generate_snippet("rust", "p/a.rs", "fn a() {}\n"), "```rust p/a.rs\nfn a() {}\n\n```\n");
}

#[test]
fn plan_names_the_snippet_and_its_source() {
    assert_eq!(
        plan_snippet("examples", "pkgA", "src/main.rs"),
        Ok(SnippetPlan {
            file_name: "pkga-src-main-rs.mdx".to_string(),
            language: "rust".to_string(),
            display_label: "pkgA/src/main.rs".to_string(),
            source_path: "examples/pkgA/src/main.rs".to_string(),
        })
    );
}

#[test]
fn plan_of_a_template_keeps_the_marker_in_name_and_label() {
    assert_eq!(
        plan_snippet("examples/", "pkgA", "config.yaml.example"),
        Ok(SnippetPlan {
            file_name: "pkga-config-yaml-example.mdx".to_string(),
            language: "yaml".to_string(),
            display_label: "pkgA/config.yaml.example".to_string(),
            source_path: "examples/pkgA/config.yaml.example".to_string(),
        })
    );
}

#[test]
fn plan_fails_where_no_language_is_known() {
    assert_eq!(
        plan_snippet("examples", "pkgA", "LICENSE"),
        Err(SnippetError::UnknownLanguage { path: "LICENSE".to_string() })
    );
}

#[test]
fn planning_twice_gives_the_same_plan_and_text() {
    let first = plan_snippet("examples", "pkgA", "src/main.rs").unwrap();
    let second = plan_snippet("examples", "pkgA", "src/main.rs").unwrap();
    assert_eq!(first, second);
    assert_eq!(first.clone(), first);
    assert_eq!(first.render("fn main() {}"), second.render("fn main() {}"));
}

#[test]
fn assemble_plan_takes_name_and_language_as_given() {
    assert_eq!(
        assemble_plan("root", "pkg", "a.rs", "some-name.mdx".to_string(), "ruby".to_string()),
        SnippetPlan {
            file_name: "some-name.mdx".to_string(),
            language: "ruby".to_string(),
            display_label: "pkg/a.rs".to_string(),
            source_path: "root/pkg/a.rs".to_string(),
        }
    );
}

#[test]
fn render_uses_language_and_label_of_the_plan() {
    let plan = SnippetPlan {
        file_name: "x.mdx".to_string(),
        language: "toml".to_string(),
        display_label: "pkg/Cargo.toml".to_string(),
        source_path: "root/pkg/Cargo.toml".to_string(),
    };
    assert_eq!(plan.render("[package]\n"), "```toml pkg/Cargo.toml\n[package]\n\n```\n");
}
