//! Tests for taxonomy construction and hashing.

use news_tagger::model::{compute_taxonomy_hash, TagDefinition, Taxonomy};
use sha2::Digest;

fn def(id: &str, content: &str, path: &str) -> TagDefinition {
    TagDefinition {
        id: id.to_string(),
        title: id.to_string(),
        aliases: vec![],
        short: None,
        content: content.to_string(),
        file_path: path.to_string(),
    }
}

#[test]
fn taxonomy_sorts_definitions_by_id() {
    let t = Taxonomy::new(vec![def("zebra", "z", "z.md"), def("alpha", "a", "a.md")]);
    assert_eq!(t.definitions[0].id, "alpha");
    assert_eq!(t.definitions[1].id, "zebra");
}

#[test]
fn taxonomy_hash_is_permutation_invariant() {
    let d1 = vec![def("a", "ca", "a.md"), def("b", "cb", "b.md"), def("c", "cc", "c.md")];
    let d2 = vec![def("c", "cc", "c.md"), def("a", "ca", "a.md"), def("b", "cb", "b.md")];
    let t1 = Taxonomy::new(d1);
    let t2 = Taxonomy::new(d2);
    assert_eq!(t1.hash, t2.hash);
}

#[test]
fn taxonomy_hash_changes_with_content() {
    let d1 = vec![def("a", "original", "a.md"), def("b", "cb", "b.md")];
    let d2 = vec![def("a", "changed", "a.md"), def("b", "cb", "b.md")];
    let t1 = Taxonomy::new(d1);
    let t2 = Taxonomy::new(d2);
    assert_ne!(t1.hash, t2.hash);
}

#[test]
fn taxonomy_hash_matches_reference_digest() {
    let t = Taxonomy::new(vec![def("b", "cb", "b.md"), def("a", "ca", "a.md")]);
    // sorted order is a, b; the digest covers id, content and file path of
    // each definition, concatenated without separators
    let mut hasher = sha2::Sha256::new();
    hasher.update("a".as_bytes());
    hasher.update("ca".as_bytes());
    hasher.update("a.md".as_bytes());
    hasher.update("b".as_bytes());
    hasher.update("cb".as_bytes());
    hasher.update("b.md".as_bytes());
    let digest = hasher.finalize();
    let expected: String = digest.iter().map(|b| format!("{:02x}", b)).collect();
    assert_eq!(t.hash, expected);
    assert_eq!(t.hash.len(), 64);
}

#[test]
fn compute_taxonomy_hash_agrees_with_taxonomy() {
    let defs = vec![def("b", "cb", "b.md"), def("a", "ca", "a.md")];
    let h = compute_taxonomy_hash(&defs);
    let t = Taxonomy::new(defs);
    assert_eq!(h, t.hash);
}

#[test]
fn taxonomy_get_and_ids() {
    let t = Taxonomy::new(vec![def("b", "cb", "b.md"), def("a", "ca", "a.md")]);
    assert_eq!(t.ids(), vec!["a".to_string(), "b".to_string()]);
    assert!(t.get("a").is_some());
    assert_eq!(t.get("a").unwrap().content, "ca");
    assert!(t.get("missing").is_none());
}
