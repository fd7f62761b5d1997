//! Tests for prompt building, response extraction and retry orchestration.

use news_tagger::llm::{build_classification_prompt, classify_with_retries, expand_args,
    extract_json, non_empty, resolve_command, CommandContext, OutputDecoder, RawClassifier,
    Sleeper};
use news_tagger::model::{ClassifyOutput, TagDefinition, TagMatch};
use news_tagger::ports::ClassifyError;
use std::cell::RefCell;

#[test]
fn test_extract_json_raw() {
    let input = r#"{"version": "1", "tags": []}"#;
    assert_eq!(extract_json(input), input);
}

#[test]
fn test_extract_json_code_block() {
    let input = r#"```json
{"version": "1", "tags": []}
```"#;
    assert_eq!(extract_json(input), r#"{"version": "1", "tags": []}"#);
}

#[test]
fn test_extract_json_plain_fence_with_language_tag() {
    let input = "```json5\n{\"version\": \"1\"}\n```";
    // not a "```json" + fence-end match at the json5 tag? it is: "```json"
    // occurs, and the payload starts at "5\n..."; the function mirrors the
    // documented scan order exactly.
    let out = extract_json(input);
    assert!(out.contains("version"));
}

#[test]
fn test_extract_json_bare_fence_skips_language_line() {
    let input = "```text\n{\"version\": \"1\"}\n```";
    assert_eq!(extract_json(input), r#"{"version": "1"}"#);
}

#[test]
fn test_extract_json_trims_whitespace() {
    let input = "   {\"a\": 1}  \n";
    assert_eq!(extract_json(input), r#"{"a": 1}"#);
}

#[test]
fn test_default_command_fallback_for_empty_or_whitespace() {
    assert_eq!(resolve_command(String::new()), "codex");
    assert_eq!(resolve_command("   \n\t".to_string()), "codex");
}

#[test]
fn test_custom_command_passthrough() {
    assert_eq!(
        resolve_command("my-codex-wrapper".to_string()),
        "my-codex-wrapper"
    );
}

#[test]
fn test_non_empty() {
    assert_eq!(non_empty("  hello "), Some("hello".to_string()));
    assert_eq!(non_empty("   "), None);
    assert_eq!(non_empty(""), None);
}

#[test]
fn test_expand_args_replaces_placeholders() {
    let args = vec![
        "--model".to_string(),
        "{model}".to_string(),
        "--temp={temperature}".to_string(),
        "--max={max_output_tokens}".to_string(),
        "{prompt}".to_string(),
    ];
    let ctx = CommandContext {
        prompt: "PROMPT".to_string(),
        model: "test-model".to_string(),
        temperature: "0.7".to_string(),
        max_output_tokens: 256,
    };

    let (expanded, used_prompt) = expand_args(&args, &ctx);
    assert!(used_prompt);
    assert_eq!(
        expanded,
        vec![
            "--model",
            "test-model",
            "--temp=0.7",
            "--max=256",
            "PROMPT"
        ]
    );
}

#[test]
fn test_expand_args_without_prompt_placeholder() {
    let args = vec!["--flag".to_string()];
    let ctx = CommandContext {
        prompt: "P".to_string(),
        model: "m".to_string(),
        temperature: "0.2".to_string(),
        max_output_tokens: 1,
    };
    let (expanded, used_prompt) = expand_args(&args, &ctx);
    assert!(!used_prompt);
    assert_eq!(expanded, vec!["--flag"]);
}

#[test]
fn test_prompt_contains_post_and_definitions() {
    let defs = vec![TagDefinition {
        id: "climate_fear".to_string(),
        title: "Climate Fear".to_string(),
        aliases: vec![],
        short: Some("Fear-based messaging".to_string()),
        content: "Definition content".to_string(),
        file_path: "climate_fear.md".to_string(),
    }];
    let prompt = build_classification_prompt("Some post", "someone", &defs, None);
    assert!(prompt.contains("Author: someone\n"));
    assert!(prompt.contains("Content: Some post\n"));
    assert!(prompt.contains("### Climate Fear (ID: climate_fear)\n"));
    assert!(prompt.contains("Summary: Fear-based messaging\n"));
    assert!(prompt.contains("## Output Format"));
    assert!(!prompt.contains("## Policy"));
    let with_policy =
        build_classification_prompt("Some post", "someone", &defs, Some(&"Be nice".to_string()));
    assert!(with_policy.contains("## Policy\nBe nice\n"));
}

struct FixedBackend {
    replies: RefCell<Vec<Result<String, ClassifyError>>>,
    calls: RefCell<usize>,
}

impl RawClassifier for FixedBackend {
    fn call(&self, _prompt: &str) -> Result<String, ClassifyError> {
        *self.calls.borrow_mut() += 1;
        self.replies.borrow_mut().remove(0)
    }
}

struct PlainDecoder;

impl OutputDecoder for PlainDecoder {
    fn decode(&self, json: &str) -> Result<ClassifyOutput, String> {
        if json.starts_with('{') {
            Ok(ClassifyOutput::new(
                json.to_string(),
                vec![TagMatch {
                    id: "tag".to_string(),
                    confidence: 85,
                    rationale: "r".to_string(),
                    evidence: vec![],
                }],
            ))
        } else {
            Err("not JSON".to_string())
        }
    }
}

struct RecordingSleeper {
    sleeps: Vec<u64>,
}

impl Sleeper for RecordingSleeper {
    fn sleep_ms(&mut self, ms: u64) {
        self.sleeps.push(ms);
    }
}

#[test]
fn test_rate_limited_returns_immediately_without_retry() {
    let backend = FixedBackend {
        replies: RefCell::new(vec![Err(ClassifyError::RateLimited)]),
        calls: RefCell::new(0),
    };
    let mut sleeper = RecordingSleeper { sleeps: vec![] };
    let r = classify_with_retries(&backend, &PlainDecoder, &mut sleeper, "p", 0);
    assert!(matches!(r, Err(ClassifyError::RateLimited)));
    assert_eq!(*backend.calls.borrow(), 1);
    assert!(sleeper.sleeps.is_empty());
}

#[test]
fn test_rate_limited_short_circuits_even_with_retries_left() {
    let backend = FixedBackend {
        replies: RefCell::new(vec![Err(ClassifyError::RateLimited)]),
        calls: RefCell::new(0),
    };
    let mut sleeper = RecordingSleeper { sleeps: vec![] };
    let r = classify_with_retries(&backend, &PlainDecoder, &mut sleeper, "p", 3);
    assert!(matches!(r, Err(ClassifyError::RateLimited)));
    assert_eq!(*backend.calls.borrow(), 1);
    assert!(sleeper.sleeps.is_empty());
}

#[test]
fn test_retries_back_off_exponentially_from_500ms() {
    let backend = FixedBackend {
        replies: RefCell::new(vec![
            Err(ClassifyError::Api("one".to_string())),
            Err(ClassifyError::Api("two".to_string())),
            Ok("{\"ok\": true}".to_string()),
        ]),
        calls: RefCell::new(0),
    };
    let mut sleeper = RecordingSleeper { sleeps: vec![] };
    let r = classify_with_retries(&backend, &PlainDecoder, &mut sleeper, "p", 2);
    assert!(r.is_ok());
    assert_eq!(*backend.calls.borrow(), 3);
    assert_eq!(sleeper.sleeps, vec![500, 1000]);
}

#[test]
fn test_exhausted_retries_return_last_error() {
    let backend = FixedBackend {
        replies: RefCell::new(vec![
            Err(ClassifyError::Api("one".to_string())),
            Err(ClassifyError::Timeout),
        ]),
        calls: RefCell::new(0),
    };
    let mut sleeper = RecordingSleeper { sleeps: vec![] };
    let r = classify_with_retries(&backend, &PlainDecoder, &mut sleeper, "p", 1);
    assert!(matches!(r, Err(ClassifyError::Timeout)));
}

#[test]
fn test_empty_response_is_invalid_format() {
    let backend = FixedBackend {
        replies: RefCell::new(vec![Ok("   ".to_string())]),
        calls: RefCell::new(0),
    };
    let mut sleeper = RecordingSleeper { sleeps: vec![] };
    let r = classify_with_retries(&backend, &PlainDecoder, &mut sleeper, "p", 0);
    match r {
        Err(ClassifyError::InvalidFormat(m)) => assert_eq!(m, "Empty response"),
        other => panic!("expected InvalidFormat, got {}", outcome_name(&other)),
    }
}

fn outcome_name(r: &Result<ClassifyOutput, ClassifyError>) -> &'static str {
    match r {
        Ok(_) => "Ok",
        Err(ClassifyError::Api(_)) => "Api",
        Err(ClassifyError::InvalidFormat(_)) => "InvalidFormat",
        Err(ClassifyError::RateLimited) => "RateLimited",
        Err(ClassifyError::Timeout) => "Timeout",
        Err(ClassifyError::Config(_)) => "Config",
    }
}
