//! Tests for the stub classifier.

use news_tagger::model::{ClassifyInput, ClassifyOutput, SourcePost, TagDefinition, TagMatch};
use news_tagger::ports::{Classifier, ClassifyError};
use news_tagger::stub::StubClassifier;

fn sample_input() -> ClassifyInput {
    ClassifyInput {
        post: SourcePost {
            id: "123".to_string(),
            text: "This is about climate fear and economic concerns".to_string(),
            author: "testuser".to_string(),
            url: "https://x.com/testuser/status/123".to_string(),
            created_at: 0,
            is_repost: false,
            is_reply: false,
            reply_to_id: None,
        },
        definitions: vec![
            TagDefinition {
                id: "climate_fear".to_string(),
                title: "Climate Fear".to_string(),
                aliases: vec![],
                short: None,
                content: "Definition".to_string(),
                file_path: "climate_fear.md".to_string(),
            },
            TagDefinition {
                id: "unrelated_tag".to_string(),
                title: "Unrelated".to_string(),
                aliases: vec![],
                short: None,
                content: "Definition".to_string(),
                file_path: "unrelated.md".to_string(),
            },
        ],
        max_output_chars: None,
        policy_text: None,
    }
}

#[test]
fn test_empty_stub() {
    let classifier = StubClassifier::empty();
    let result = classifier.classify(sample_input()).unwrap();

    assert!(result.tags.is_empty());
}

#[test]
fn test_configured_response() {
    let expected = ClassifyOutput::new(
        "Custom summary".to_string(),
        vec![TagMatch {
            id: "custom".to_string(),
            confidence: 99,
            rationale: "Custom rationale".to_string(),
            evidence: vec!["evidence".to_string()],
        }],
    );

    let classifier = StubClassifier::with_response(expected.duplicate());
    let result = classifier.classify(sample_input()).unwrap();

    assert_eq!(result.summary, expected.summary);
    assert_eq!(result.tags.len(), 1);
    assert_eq!(result.tags[0].id, "custom");
}

#[test]
fn test_error_stub() {
    let classifier = StubClassifier::with_error(ClassifyError::Timeout);
    let result = classifier.classify(sample_input());

    assert!(matches!(result, Err(ClassifyError::Timeout)));
}

#[test]
fn test_echo_stub() {
    let classifier = StubClassifier::echo();
    let result = classifier.classify(sample_input()).unwrap();

    // Should detect "climate fear" in the post text
    assert_eq!(result.tags.len(), 1);
    assert_eq!(result.tags[0].id, "climate_fear");
}
