//! Tests for the policy validator.

use news_tagger::model::{ClassifyOutput, TagMatch};
use news_tagger::policy::{PolicyConfig, PolicyValidator, PolicyViolation};

fn sample_output() -> ClassifyOutput {
    ClassifyOutput::new(
        "A post about climate policy".to_string(),
        vec![
            TagMatch {
                id: "climate_fear".to_string(),
                confidence: 90,
                rationale: "Uses fear-based language".to_string(),
                evidence: vec!["we're doomed".to_string()],
            },
            TagMatch {
                id: "low_confidence".to_string(),
                confidence: 30,
                rationale: "Weak match".to_string(),
                evidence: vec![],
            },
        ],
    )
}

#[test]
fn test_policy_filters_low_confidence() {
    let validator = PolicyValidator::new(PolicyConfig {
        min_confidence: Some(50),
        ..Default::default()
    });

    let result = validator.validate(&sample_output()).unwrap();
    assert_eq!(result.tags.len(), 1);
    assert_eq!(result.tags[0].id, "climate_fear");
}

#[test]
fn test_policy_limits_tags() {
    let validator = PolicyValidator::new(PolicyConfig {
        max_tags: Some(1),
        ..Default::default()
    });

    let result = validator.validate(&sample_output()).unwrap();
    assert_eq!(result.tags.len(), 1);
}

#[test]
fn test_policy_forbidden_patterns() {
    let validator = PolicyValidator::new(PolicyConfig {
        forbidden_patterns: vec!["climate".to_string()],
        ..Default::default()
    });

    let result = validator.validate(&sample_output());
    assert!(matches!(
        result,
        Err(PolicyViolation::ForbiddenPattern { .. })
    ));
}

#[test]
fn test_policy_truncates_rationale() {
    let mut output = sample_output();
    output.tags[0].rationale = "A".repeat(200);

    let validator = PolicyValidator::new(PolicyConfig {
        max_rationale_length: Some(50),
        ..Default::default()
    });

    let result = validator.validate(&output).unwrap();
    assert!(result.tags[0].rationale.len() <= 50);
    assert!(result.tags[0].rationale.ends_with("..."));
}

#[test]
fn forbidden_pattern_in_rationale_names_the_tag() {
    let validator = PolicyValidator::new(PolicyConfig {
        forbidden_patterns: vec!["FEAR".to_string()],
        ..Default::default()
    });
    match validator.validate(&sample_output()) {
        Err(PolicyViolation::ForbiddenPattern { pattern, context }) => {
            assert_eq!(pattern, "FEAR");
            assert_eq!(context, "tag climate_fear rationale");
        }
        _ => panic!("expected a violation in the first tag's rationale"),
    }
}

#[test]
fn policy_prompt_lists_the_configured_limits() {
    let validator = PolicyValidator::new(PolicyConfig {
        max_tags: Some(3),
        min_confidence: Some(50),
        ..Default::default()
    });
    let prompt = validator.generate_policy_prompt();
    assert!(prompt.starts_with("Output Policy:\n"));
    assert!(prompt.contains("- Maximum 3 tags per classification"));
    assert!(prompt.contains("- Only include tags with confidence >= 0.50"));
}
