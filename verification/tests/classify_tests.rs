//! Tests for the classify use case and the relevance prefilter.

use news_tagger::classify::{compute_relevance_score, ClassifyConfig, ClassifyUseCase};
use news_tagger::model::{ClassifyInput, ClassifyOutput, SourcePost, TagDefinition, TagMatch};
use news_tagger::ports::{Classifier, ClassifyError};
use std::cell::RefCell;

struct FakeClassifier {
    response: ClassifyOutput,
    seen_definition_counts: RefCell<Vec<usize>>,
}

impl Classifier for FakeClassifier {
    fn classify(&self, input: ClassifyInput) -> Result<ClassifyOutput, ClassifyError> {
        self.seen_definition_counts
            .borrow_mut()
            .push(input.definitions.len());
        Ok(self.response.duplicate())
    }
}

fn sample_post() -> SourcePost {
    SourcePost {
        id: "123".to_string(),
        text: "Climate change is causing unprecedented disasters".to_string(),
        author: "testuser".to_string(),
        url: "https://x.com/testuser/status/123".to_string(),
        created_at: 0,
        is_repost: false,
        is_reply: false,
        reply_to_id: None,
    }
}

fn sample_definitions() -> Vec<TagDefinition> {
    vec![
        TagDefinition {
            id: "climate_fear".to_string(),
            title: "Climate Fear".to_string(),
            aliases: vec!["climate doom".to_string()],
            short: Some("Fear-based climate messaging".to_string()),
            content: "# Climate Fear\nDefinition content...".to_string(),
            file_path: "climate_fear.md".to_string(),
        },
        TagDefinition {
            id: "economic_control".to_string(),
            title: "Economic Control".to_string(),
            aliases: vec![],
            short: Some("Centralized economic policies".to_string()),
            content: "# Economic Control\nDefinition content...".to_string(),
            file_path: "economic_control.md".to_string(),
        },
    ]
}

#[test]
fn test_classify_returns_output() {
    let expected = ClassifyOutput::new(
        "Post discusses climate disasters".to_string(),
        vec![TagMatch {
            id: "climate_fear".to_string(),
            confidence: 85,
            rationale: "Uses fear-based framing".to_string(),
            evidence: vec!["unprecedented disasters".to_string()],
        }],
    );

    let classifier = FakeClassifier {
        response: expected,
        seen_definition_counts: RefCell::new(vec![]),
    };
    let usecase = ClassifyUseCase::new(&classifier, ClassifyConfig::default());

    let result = usecase
        .classify(&sample_post(), &sample_definitions())
        .unwrap();

    assert_eq!(result.tags.len(), 1);
    assert_eq!(result.tags[0].id, "climate_fear");
}

#[test]
fn test_prefilter_limits_definitions() {
    let expected = ClassifyOutput::new("Summary".to_string(), vec![]);

    let classifier = FakeClassifier {
        response: expected,
        seen_definition_counts: RefCell::new(vec![]),
    };
    let config = ClassifyConfig {
        prefilter_top_k: Some(1),
        ..Default::default()
    };
    let usecase = ClassifyUseCase::new(&classifier, config);

    let result = usecase.classify(&sample_post(), &sample_definitions());
    assert!(result.is_ok());
    assert_eq!(*classifier.seen_definition_counts.borrow(), vec![1]);
}

#[test]
fn test_prefilter_keeps_all_when_unbounded() {
    let classifier = FakeClassifier {
        response: ClassifyOutput::new("s".to_string(), vec![]),
        seen_definition_counts: RefCell::new(vec![]),
    };
    let config = ClassifyConfig {
        prefilter_top_k: None,
        ..Default::default()
    };
    let usecase = ClassifyUseCase::new(&classifier, config);
    let result = usecase.classify(&sample_post(), &sample_definitions());
    assert!(result.is_ok());
    assert_eq!(*classifier.seen_definition_counts.borrow(), vec![2]);
}

#[test]
fn test_prefilter_picks_the_best_scoring_definition() {
    let classifier = FakeClassifier {
        response: ClassifyOutput::new("s".to_string(), vec![]),
        seen_definition_counts: RefCell::new(vec![]),
    };
    let usecase = ClassifyUseCase::new(
        &classifier,
        ClassifyConfig {
            prefilter_top_k: Some(1),
            ..Default::default()
        },
    );
    let selected = usecase.select_definitions(&sample_post(), &sample_definitions());
    assert_eq!(selected.len(), 1);
    assert_eq!(selected[0].id, "climate_fear");
}

#[test]
fn test_relevance_score_exact_weights() {
    let post = sample_post();
    // title "Climate Fear" is not a substring of the post, but the alias
    // does not match either; short words longer than three characters:
    // "Fear-based", "climate" (matches), "messaging"; content words longer
    // than four characters: "Climate" (matches), "Definition",
    // "content..."
    let d = &sample_definitions()[0];
    let score = compute_relevance_score(&post, d);
    // climate (short word, lowercased) occurs: +10; climate (content word)
    // occurs: +3
    assert_eq!(score, 13);
}

#[test]
fn test_relevance_score_title_match_is_one_point() {
    let post = SourcePost {
        text: "all about climate fear here".to_string(),
        ..sample_post()
    };
    let d = &sample_definitions()[0];
    let score = compute_relevance_score(&post, d);
    // title match +100, alias "climate doom" absent, short word "climate"
    // +10, content words "climate" +3 and "fear" is only four characters
    // long so it does not count for content
    assert_eq!(score, 113);
}

#[test]
fn test_relevance_score_alias_match_is_half_a_point() {
    let post = SourcePost {
        text: "climate doom everywhere".to_string(),
        ..sample_post()
    };
    let d = &sample_definitions()[0];
    let score = compute_relevance_score(&post, d);
    // alias "climate doom" +50, short word "climate" +10, content word
    // "climate" +3
    assert_eq!(score, 63);
}
