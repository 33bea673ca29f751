//! Tests of the builder's planning pass and of the path helpers it
//! and the server lean on.

use mdserve::builder::{classify_entry, plan_action, Action, BuildStats, BuildStep};
use mdserve::paths::{extension_of, join_path, push_component, set_extension, strip_prefix};

#[test]
fn markdown_files_are_parsed_everything_else_copied() {
    assert!(matches!(classify_entry("docs/a.md"), Action::Parse(p) if p == "docs/a.md"));
    assert!(matches!(classify_entry("docs/a.css"), Action::Copy(p) if p == "docs/a.css"));
    assert!(matches!(classify_entry("README"), Action::Copy(_)));
}

#[test]
fn action_equality_compares_paths() {
    assert!(Action::Copy("a".to_owned()) == Action::Copy("a".to_owned()));
    assert!(Action::Copy("a".to_owned()) != Action::Copy("b".to_owned()));
    assert!(Action::Copy("a".to_owned()) != Action::Parse("a".to_owned()));
}

#[test]
fn build_stats_start_at_zero() {
    let s = BuildStats::new();
    assert_eq!(s.files_copied, 0);
    assert_eq!(s.files_parsed, 0);
}

#[test]
fn a_markdown_source_is_planned_as_an_html_page() {
    let action = Action::Parse("site/guide/intro.md".to_owned());
    let step = plan_action("site", "build", &action).unwrap();
    match step {
        BuildStep::RenderFile { src, dest } => {
            assert_eq!(src, "site/guide/intro.md");
            assert_eq!(dest, "build/guide/intro.html");
        },
        BuildStep::CopyFile { .. } => panic!("expected a render step"),
    }
}

#[test]
fn a_static_file_is_planned_as_a_copy() {
    let action = Action::Copy("site/a.css".to_owned());
    let step = plan_action("site", "build", &action).unwrap();
    match step {
        BuildStep::CopyFile { src, dest } => {
            assert_eq!(src, "site/a.css");
            assert_eq!(dest, "build/site/a.css");
        },
        BuildStep::RenderFile { .. } => panic!("expected a copy step"),
    }
}

#[test]
fn a_markdown_source_outside_the_root_cannot_be_planned() {
    let action = Action::Parse("elsewhere/x.md".to_owned());
    assert!(plan_action("site", "build", &action).is_none());
}

#[test]
fn extension_rules_follow_the_final_component() {
    assert_eq!(extension_of("a/b.md").unwrap(), "md");
    assert_eq!(extension_of("a.tar.gz").unwrap(), "gz");
    assert!(extension_of("a/b").is_none());
    assert!(extension_of(".gitignore").is_none());
    assert!(extension_of("dir.d/file").is_none());
    assert_eq!(extension_of("dir/.hidden.md").unwrap(), "md");
}

#[test]
fn set_extension_replaces_or_appends() {
    assert_eq!(set_extension("a/b.html", "md"), "a/b.md");
    assert_eq!(set_extension("a/b", "md"), "a/b.md");
}

#[test]
fn joining_paths_inserts_one_separator() {
    assert_eq!(join_path("root", "a/b.md"), "root/a/b.md");
    assert_eq!(join_path("root/", "a"), "root/a");
    assert_eq!(join_path("", "a"), "a");
    assert_eq!(join_path("root", "/abs"), "/abs");
    assert_eq!(push_component("a", "index.md"), "a/index.md");
    assert_eq!(push_component("", "index.md"), "index.md");
}

#[test]
fn strip_prefix_rules() {
    assert_eq!(strip_prefix("src/a.md", "src").unwrap(), "a.md");
    assert_eq!(strip_prefix("src/a.md", "src/").unwrap(), "a.md");
    assert_eq!(strip_prefix("src", "src").unwrap(), "");
    assert_eq!(strip_prefix("src/a.md", "").unwrap(), "src/a.md");
    assert!(strip_prefix("srcology/a.md", "src").is_none());
}
