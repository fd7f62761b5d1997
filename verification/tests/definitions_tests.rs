//! Tests for definition parsing, validation and assembly.

use news_tagger::definitions::{assemble_definitions, extract_title_from_markdown, is_valid_id,
    parse_frontmatter, parse_simple_yaml, DefinitionFile};
use news_tagger::ports::DefinitionsError;

fn file(path: &str, stem: &str, content: &str) -> DefinitionFile {
    DefinitionFile {
        path: path.to_string(),
        stem: stem.to_string(),
        content: content.to_string(),
    }
}

#[test]
fn test_load_simple_definition() {
    let files = vec![file("test_tag.md", "test_tag", "# Test Tag\n\nSome content here.")];
    let definitions = assemble_definitions(&files, "defs").unwrap();

    assert_eq!(definitions.len(), 1);
    assert_eq!(definitions[0].id, "test_tag");
    assert_eq!(definitions[0].title, "Test Tag");
}

#[test]
fn test_load_with_frontmatter() {
    let content = r#"---
id: custom_id
title: Custom Title
short: A short description
aliases: [alias1, alias2]
---
# Custom Title

Full content here.
"#;
    let files = vec![file("whatever.md", "whatever", content)];
    let definitions = assemble_definitions(&files, "defs").unwrap();

    assert_eq!(definitions.len(), 1);
    assert_eq!(definitions[0].id, "custom_id");
    assert_eq!(definitions[0].title, "Custom Title");
    assert_eq!(definitions[0].short.as_deref(), Some("A short description"));
    assert_eq!(definitions[0].aliases, vec!["alias1", "alias2"]);
}

#[test]
fn test_duplicate_id_error() {
    let files = vec![
        file("tag_a.md", "tag_a", "# Tag A"),
        file("tag_b.md", "tag_b", "---\nid: tag_a\n---\n# Tag B"),
    ];
    let result = assemble_definitions(&files, "defs");

    assert!(matches!(result, Err(DefinitionsError::DuplicateId { .. })));
}

#[test]
fn definitions_validate_fails_on_duplicate_ids() {
    let files = vec![
        file("defs/tag_a.md", "tag_a", "# Tag A"),
        file("defs/other.md", "other", "---\nid: tag_a\n---\n# Other"),
    ];
    match assemble_definitions(&files, "defs") {
        Err(DefinitionsError::DuplicateId { id, files }) => {
            assert_eq!(id, "tag_a");
            assert_eq!(files, vec!["defs/tag_a.md".to_string(), "defs/other.md".to_string()]);
        }
        _ => panic!("expected a duplicate-id error naming both files"),
    }
}

#[test]
fn test_invalid_id_error() {
    let files = vec![file("Invalid-Tag.md", "Invalid-Tag", "# Invalid")];
    let result = assemble_definitions(&files, "defs");

    assert!(matches!(result, Err(DefinitionsError::InvalidId { .. })));
}

#[test]
fn test_empty_directory_error() {
    let files: Vec<DefinitionFile> = vec![];
    let result = assemble_definitions(&files, "defs");

    assert!(matches!(result, Err(DefinitionsError::Empty(_))));
}

#[test]
fn assemble_sorts_definitions_by_id() {
    let files = vec![
        file("z.md", "zebra", "# Z"),
        file("a.md", "alpha", "# A"),
    ];
    let defs = assemble_definitions(&files, "defs").unwrap();
    assert_eq!(defs[0].id, "alpha");
    assert_eq!(defs[1].id, "zebra");
}

#[test]
fn title_falls_back_to_id_with_spaces() {
    let files = vec![file("t.md", "some_tag", "no heading at all")];
    let defs = assemble_definitions(&files, "defs").unwrap();
    assert_eq!(defs[0].title, "some tag");
}

#[test]
fn stored_content_keeps_the_frontmatter() {
    let content = "---\nid: tag_x\n---\nbody";
    let files = vec![file("x.md", "x", content)];
    let defs = assemble_definitions(&files, "defs").unwrap();
    assert_eq!(defs[0].content, content);
}

#[test]
fn yaml_parser_reads_quoted_values_and_comments() {
    let fm = parse_simple_yaml("# a comment\nid: \"quoted_id\"\nshort: 'single'\n\ntitle: T");
    assert_eq!(fm.id.as_deref(), Some("quoted_id"));
    assert_eq!(fm.short.as_deref(), Some("single"));
    assert_eq!(fm.title.as_deref(), Some("T"));
    assert!(fm.aliases.is_empty());
}

#[test]
fn yaml_parser_ignores_non_array_aliases() {
    let fm = parse_simple_yaml("aliases: not an array");
    assert!(fm.aliases.is_empty());
    let fm2 = parse_simple_yaml("aliases: [one, \"two\", , ]");
    assert_eq!(fm2.aliases, vec!["one", "two"]);
}

#[test]
fn frontmatter_without_closing_fence_is_body() {
    let (fm, body) = parse_frontmatter("---\nid: x\nno closing fence");
    assert!(fm.is_none());
    assert_eq!(body, "---\nid: x\nno closing fence");
}

#[test]
fn markdown_title_is_first_heading() {
    assert_eq!(
        extract_title_from_markdown("text\n#not a heading\n# The Title \nmore"),
        Some("The Title".to_string())
    );
    assert_eq!(extract_title_from_markdown("no heading"), None);
}

#[test]
fn id_validation_matches_the_documented_shape() {
    assert!(is_valid_id("abc_123"));
    assert!(!is_valid_id(""));
    assert!(!is_valid_id("Upper"));
    assert!(!is_valid_id("with-dash"));
    assert!(!is_valid_id("with space"));
}

#[test]
fn duplicate_id_message_names_both_files() {
    let files = vec![
        file("a.md", "tag_a", "# Tag A"),
        file("b.md", "tag_b", "---\nid: tag_a\n---\n# B"),
    ];
    match assemble_definitions(&files, "defs") {
        Err(err) => assert_eq!(
            err.message(),
            "Duplicate ID 'tag_a' in files: [\"a.md\", \"b.md\"]"
        ),
        Ok(_) => panic!("expected a duplicate-id error"),
    }
}
