//! Tests for the renderer.

use news_tagger::model::{ClassifyOutput, SourcePost, TagMatch, XPublishMode};
use news_tagger::render::{RenderConfig, Renderer};

fn sample_post() -> SourcePost {
    SourcePost {
        id: "123".to_string(),
        text: "Test post content".to_string(),
        author: "testuser".to_string(),
        url: "https://x.com/testuser/status/123".to_string(),
        created_at: 0,
        is_repost: false,
        is_reply: false,
        reply_to_id: None,
    }
}

fn sample_classification() -> ClassifyOutput {
    ClassifyOutput::new(
        "Summary of the post".to_string(),
        vec![
            TagMatch {
                id: "tag_one".to_string(),
                confidence: 85,
                rationale: "First rationale explaining the match".to_string(),
                evidence: vec!["evidence 1".to_string()],
            },
            TagMatch {
                id: "tag_two".to_string(),
                confidence: 62,
                rationale: "Second rationale".to_string(),
                evidence: vec!["evidence 2".to_string()],
            },
        ],
    )
}

#[test]
fn test_render_for_x_reply_mode() {
    let renderer = Renderer::new(RenderConfig {
        x_publish_mode: XPublishMode::Reply,
        ..Default::default()
    });

    let result = renderer.render_for_x(&sample_post(), &sample_classification());

    assert!(result.text.contains("Tags:"));
    assert!(result.text.contains("tag_one"));
    assert!(result.text.contains("0.85"));
    assert!(!result.text.contains("https://")); // Reply mode doesn't include URL
}

#[test]
fn test_render_for_x_new_post_mode() {
    let renderer = Renderer::new(RenderConfig {
        x_publish_mode: XPublishMode::NewPost,
        ..Default::default()
    });

    let result = renderer.render_for_x(&sample_post(), &sample_classification());

    assert!(result.text.contains("https://x.com/testuser/status/123"));
    assert!(result.text.ends_with("\nhttps://x.com/testuser/status/123"));
}

#[test]
fn test_render_respects_max_chars() {
    let renderer = Renderer::new(RenderConfig {
        x_max_chars: 280,
        ..Default::default()
    });

    let result = renderer.render_for_x(&sample_post(), &sample_classification());

    assert!(
        result.text.chars().count() <= 280,
        "Output too long: {}",
        result.text.len()
    );
}

#[test]
fn test_render_respects_max_chars_with_huge_rationale() {
    let huge = ClassifyOutput::new(
        "Summary".to_string(),
        vec![TagMatch {
            id: "a_very_long_tag_identifier_indeed".to_string(),
            confidence: 99,
            rationale: "word ".repeat(400),
            evidence: vec![],
        }],
    );
    for mode in [XPublishMode::Reply, XPublishMode::Quote, XPublishMode::NewPost] {
        let renderer = Renderer::new(RenderConfig {
            x_max_chars: 280,
            x_publish_mode: mode,
            ..Default::default()
        });
        let result = renderer.render_for_x(&sample_post(), &huge);
        assert!(result.text.chars().count() <= 280);
    }
}

#[test]
fn test_render_filters_low_confidence() {
    let low_confidence = ClassifyOutput::new(
        "Summary".to_string(),
        vec![TagMatch {
            id: "low_tag".to_string(),
            confidence: 30,
            rationale: "Low confidence match".to_string(),
            evidence: vec![],
        }],
    );

    let renderer = Renderer::new(RenderConfig {
        min_confidence: 50,
        ..Default::default()
    });

    let result = renderer.render_for_x(&sample_post(), &low_confidence);

    assert!(result.text.contains("(none detected)"));
}

#[test]
fn test_render_for_nostr() {
    let renderer = Renderer::new(RenderConfig::default());

    let result = renderer.render_for_nostr(&sample_post(), &sample_classification());

    assert!(result.text.contains("Narrative analysis"));
    assert!(result.text.contains("tag_one"));
    assert!(result.text.contains("Original:"));
    // The long-form text carries each qualifying rationale as a bullet.
    assert!(result.text.contains("\u{2022} tag_one: First rationale explaining the match"));
}

#[test]
fn test_reply_and_quote_never_carry_the_url() {
    let cls = sample_classification();
    for mode in [XPublishMode::Reply, XPublishMode::Quote] {
        let renderer = Renderer::new(RenderConfig {
            x_publish_mode: mode,
            ..Default::default()
        });
        let result = renderer.render_for_x(&sample_post(), &cls);
        assert!(!result.text.contains(&sample_post().url));
    }
}

#[test]
fn test_tags_line_format_is_exact() {
    let renderer = Renderer::new(RenderConfig::default());
    let line = renderer.format_tags_line(&sample_classification());
    assert_eq!(line, "Tags: tag_one (0.85), tag_two (0.62)");
    let full_conf = ClassifyOutput::new(
        "s".to_string(),
        vec![TagMatch {
            id: "t".to_string(),
            confidence: 100,
            rationale: "r".to_string(),
            evidence: vec![],
        }],
    );
    assert_eq!(renderer.format_tags_line(&full_conf), "Tags: t (1.00)");
}

#[test]
fn test_truncation_breaks_at_whitespace() {
    let text = format!("{} {}", "a".repeat(200), "b".repeat(200));
    let out = news_tagger::render::truncate_to_length(&text, 280);
    assert_eq!(out, format!("{}...", "a".repeat(200)));
    assert!(out.chars().count() <= 280);
}

#[test]
fn test_truncation_without_whitespace_cuts_hard() {
    let text = "x".repeat(300);
    let out = news_tagger::render::truncate_to_length(&text, 280);
    assert_eq!(out, format!("{}...", "x".repeat(277)));
    assert_eq!(out.chars().count(), 280);
}
