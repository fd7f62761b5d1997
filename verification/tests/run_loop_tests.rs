//! Tests for the run loop: filtering, dry runs and idempotency.

use news_tagger::classify::ClassifyConfig;
use news_tagger::model::{ClassifyInput, ClassifyOutput, ProcessResult, SourcePost, TagDefinition,
    TagMatch, Taxonomy};
use news_tagger::ports::{Classifier, ClassifyError, Clock, DefinitionsRepo, DefinitionsError,
    PostSource, PostSourceError, PublishError, PublishResult, Publisher};
use news_tagger::rate_limiter::RateLimiter;
use news_tagger::render::RenderConfig;
use news_tagger::run_loop::{Pacer, RunLoop, RunLoopConfig};
use news_tagger::state_memory::InMemoryStateStore;
use std::cell::RefCell;
use std::rc::Rc;

struct FakePostSource {
    posts: Vec<SourcePost>,
}

impl PostSource for FakePostSource {
    fn fetch_posts(
        &self,
        _account: &str,
        _since_id: Option<&String>,
    ) -> Result<Vec<SourcePost>, PostSourceError> {
        Ok(self.posts.iter().map(|p| p.duplicate()).collect())
    }
}

struct FakeDefinitionsRepo {
    definitions: Vec<TagDefinition>,
}

impl DefinitionsRepo for FakeDefinitionsRepo {
    fn load(&self) -> Result<Vec<TagDefinition>, DefinitionsError> {
        Ok(self.definitions.iter().map(|d| d.duplicate()).collect())
    }

    fn validate(&self) -> Result<(), DefinitionsError> {
        Ok(())
    }
}

struct FakeClassifier;

impl Classifier for FakeClassifier {
    fn classify(&self, _input: ClassifyInput) -> Result<ClassifyOutput, ClassifyError> {
        Ok(ClassifyOutput::new(
            "Test summary".to_string(),
            vec![TagMatch {
                id: "test_tag".to_string(),
                confidence: 90,
                rationale: "Test rationale".to_string(),
                evidence: vec!["evidence".to_string()],
            }],
        ))
    }
}

struct FakePublisher {
    enabled: bool,
}

impl Publisher for FakePublisher {
    fn publish(&self, _post: &news_tagger::model::RenderedPost) -> Result<PublishResult, PublishError> {
        Ok(PublishResult {
            id: "fake_id".to_string(),
            url: None,
        })
    }

    fn is_enabled(&self) -> bool {
        self.enabled
    }

    fn platform(&self) -> String {
        "fake".to_string()
    }
}

struct FakeClock {
    time: i64,
}

impl Clock for FakeClock {
    fn now(&self) -> i64 {
        self.time
    }
}

struct ImmediatePacer;

impl Pacer for ImmediatePacer {
    fn pace(&mut self, limiter: &mut RateLimiter) {
        let _ = limiter.try_acquire(0);
    }
}

fn post(id: &str, text: &str, is_reply: bool) -> SourcePost {
    SourcePost {
        id: id.to_string(),
        text: text.to_string(),
        author: "testuser".to_string(),
        url: format!("https://x.com/testuser/status/{}", id),
        created_at: 0,
        is_repost: false,
        is_reply,
        reply_to_id: if is_reply { Some("original".to_string()) } else { None },
    }
}

fn one_definition() -> Vec<TagDefinition> {
    vec![TagDefinition {
        id: "test_tag".to_string(),
        title: "Test Tag".to_string(),
        aliases: vec![],
        short: None,
        content: "Test definition".to_string(),
        file_path: "test_tag.md".to_string(),
    }]
}

fn build_loop(
    posts: Vec<SourcePost>,
    definitions: Vec<TagDefinition>,
    config: RunLoopConfig,
) -> RunLoop<
    FakePostSource,
    FakeDefinitionsRepo,
    FakeClassifier,
    FakePublisher,
    FakePublisher,
    InMemoryStateStore,
    FakeClock,
    ImmediatePacer,
> {
    RunLoop::new(
        FakePostSource { posts },
        FakeDefinitionsRepo { definitions },
        FakeClassifier,
        FakePublisher { enabled: false },
        FakePublisher { enabled: false },
        InMemoryStateStore::new(),
        FakeClock { time: 0 },
        ImmediatePacer,
        config,
        0,
    )
}

#[test]
fn test_poll_once_processes_posts() {
    let config = RunLoopConfig {
        accounts: vec!["testuser".to_string()],
        dry_run: true,
        ..Default::default()
    };
    let mut run_loop = build_loop(vec![post("post1", "Test post", false)], one_definition(), config);

    let results = run_loop.poll_once().unwrap();

    assert_eq!(results.len(), 1);
    assert!(matches!(results[0].1, ProcessResult::Published { .. }));
}

#[test]
fn test_poll_once_filters_replies() {
    let config = RunLoopConfig {
        accounts: vec!["testuser".to_string()],
        include_replies: false,
        dry_run: true,
        ..Default::default()
    };
    let mut run_loop =
        build_loop(vec![post("reply1", "This is a reply", true)], vec![], config);

    let results = run_loop.poll_once().unwrap();

    // Reply should be filtered out
    assert_eq!(results.len(), 0);
}

#[test]
fn replies_are_kept_when_configured_in() {
    let config = RunLoopConfig {
        accounts: vec!["testuser".to_string()],
        include_replies: true,
        dry_run: true,
        ..Default::default()
    };
    let mut run_loop =
        build_loop(vec![post("reply1", "This is a reply", true)], one_definition(), config);

    let results = run_loop.poll_once().unwrap();
    assert_eq!(results.len(), 1);
}

#[test]
fn test_poll_once_filters_ignore_patterns() {
    let config = RunLoopConfig {
        accounts: vec!["testuser".to_string()],
        ignore_patterns: vec!["^AD:".to_string()],
        dry_run: true,
        ..Default::default()
    };
    let mut run_loop = build_loop(vec![post("ad1", "AD: Buy now", false)], vec![], config);

    let results = run_loop.poll_once().unwrap();

    // Post should be filtered out by ignore pattern
    assert_eq!(results.len(), 0);
}

#[test]
fn ignore_patterns_filter_replies_and_reposts_alike() {
    let config = RunLoopConfig {
        accounts: vec!["testuser".to_string()],
        include_replies: true,
        ignore_patterns: vec!["^AD:".to_string()],
        dry_run: true,
        ..Default::default()
    };
    let mut run_loop =
        build_loop(vec![post("ad2", "AD: reply spam", true)], one_definition(), config);
    let results = run_loop.poll_once().unwrap();
    assert_eq!(results.len(), 0);
}

#[test]
fn invalid_ignore_patterns_are_skipped_not_fatal() {
    let config = RunLoopConfig {
        accounts: vec!["testuser".to_string()],
        ignore_patterns: vec!["[unclosed".to_string()],
        dry_run: true,
        ..Default::default()
    };
    let mut run_loop = build_loop(vec![post("p1", "anything", false)], one_definition(), config);
    let results = run_loop.poll_once().unwrap();
    assert_eq!(results.len(), 1);
}

struct CountingClassifier {
    calls: Rc<RefCell<Vec<usize>>>,
}

impl Classifier for CountingClassifier {
    fn classify(&self, input: ClassifyInput) -> Result<ClassifyOutput, ClassifyError> {
        self.calls.borrow_mut().push(input.definitions.len());
        Ok(ClassifyOutput::new("Summary".to_string(), vec![]))
    }
}

#[test]
fn dry_run_publishes_with_no_platform_ids() {
    let config = RunLoopConfig {
        accounts: vec!["testuser".to_string()],
        dry_run: true,
        classify_config: ClassifyConfig {
            prefilter_top_k: None,
            ..Default::default()
        },
        ..Default::default()
    };
    let calls = Rc::new(RefCell::new(Vec::new()));
    let mut run_loop = RunLoop::new(
        FakePostSource {
            posts: vec![post("post1", "Climate change is causing disasters", false)],
        },
        FakeDefinitionsRepo {
            definitions: vec![TagDefinition {
                id: "climate_fear".to_string(),
                title: "Climate Fear".to_string(),
                aliases: vec![],
                short: None,
                content: "Definition".to_string(),
                file_path: "climate_fear.md".to_string(),
            }],
        },
        CountingClassifier {
            calls: Rc::clone(&calls),
        },
        FakePublisher { enabled: false },
        FakePublisher { enabled: false },
        InMemoryStateStore::new(),
        FakeClock { time: 0 },
        ImmediatePacer,
        config,
        0,
    );

    let results = run_loop.poll_once().unwrap();
    assert_eq!(results.len(), 1);
    match &results[0].1 {
        ProcessResult::Published {
            x_post_id,
            nostr_event_id,
            ..
        } => {
            assert!(x_post_id.is_none());
            assert!(nostr_event_id.is_none());
        }
        _ => panic!("expected a published result"),
    }
    // the classifier was called exactly once, with all one definitions
    assert_eq!(*calls.borrow(), vec![1]);
}

#[test]
fn second_processing_of_the_same_pair_is_skipped() {
    let config = RunLoopConfig {
        accounts: vec!["testuser".to_string()],
        dry_run: false,
        ..Default::default()
    };
    let calls = Rc::new(RefCell::new(Vec::new()));
    let mut run_loop = RunLoop::new(
        FakePostSource { posts: vec![] },
        FakeDefinitionsRepo {
            definitions: one_definition(),
        },
        CountingClassifier {
            calls: Rc::clone(&calls),
        },
        FakePublisher { enabled: false },
        FakePublisher { enabled: false },
        InMemoryStateStore::new(),
        FakeClock { time: 0 },
        ImmediatePacer,
        config,
        0,
    );
    let taxonomy = Taxonomy::new(one_definition());
    let p = post("post1", "Test post", false);

    let first = run_loop.process_post(&p, &taxonomy);
    assert!(matches!(first, ProcessResult::Published { .. }));
    assert_eq!(calls.borrow().len(), 1);

    let second = run_loop.process_post(&p, &taxonomy);
    match second {
        ProcessResult::Skipped { reason } => {
            assert_eq!(reason, "Already processed with this taxonomy");
        }
        _ => panic!("expected the second run to be skipped"),
    }
    // the classifier was not consulted again
    assert_eq!(calls.borrow().len(), 1);
}

#[test]
fn changed_taxonomy_processes_the_post_again() {
    let config = RunLoopConfig {
        accounts: vec!["testuser".to_string()],
        dry_run: false,
        ..Default::default()
    };
    let mut run_loop = build_loop(vec![], one_definition(), config);
    let p = post("post1", "Test post", false);

    let t1 = Taxonomy::new(one_definition());
    let mut changed = one_definition();
    changed[0].content = "Different definition".to_string();
    let t2 = Taxonomy::new(changed);

    let first = run_loop.process_post(&p, &t1);
    assert!(matches!(first, ProcessResult::Published { .. }));
    let second = run_loop.process_post(&p, &t2);
    assert!(matches!(second, ProcessResult::Published { .. }));
}

#[test]
fn render_config_default_matches_documented_values() {
    let c = RenderConfig::default();
    assert_eq!(c.x_max_chars, 280);
    assert_eq!(c.min_confidence, 50);
    assert!(c.include_confidence);
    assert!(c.include_rationale);
}

struct FailingDefinitionsRepo;

impl DefinitionsRepo for FailingDefinitionsRepo {
    fn load(&self) -> Result<Vec<TagDefinition>, DefinitionsError> {
        Err(DefinitionsError::Empty("defs".to_string()))
    }

    fn validate(&self) -> Result<(), DefinitionsError> {
        Err(DefinitionsError::Empty("defs".to_string()))
    }
}

struct FailingPostSource;

impl PostSource for FailingPostSource {
    fn fetch_posts(
        &self,
        _account: &str,
        _since_id: Option<&String>,
    ) -> Result<Vec<SourcePost>, PostSourceError> {
        Err(PostSourceError::Network("connection refused".to_string()))
    }
}

#[test]
fn definitions_failure_aborts_the_cycle() {
    let config = RunLoopConfig {
        accounts: vec!["testuser".to_string()],
        ..Default::default()
    };
    let mut run_loop = RunLoop::new(
        FakePostSource { posts: vec![post("p", "text", false)] },
        FailingDefinitionsRepo,
        FakeClassifier,
        FakePublisher { enabled: false },
        FakePublisher { enabled: false },
        InMemoryStateStore::new(),
        FakeClock { time: 0 },
        ImmediatePacer,
        config,
        0,
    );
    match run_loop.poll_once() {
        Err(news_tagger::run_loop::RunLoopError::Definitions(m)) => {
            assert_eq!(m, "No definitions found in defs");
        }
        _ => panic!("expected a definitions error to abort the cycle"),
    }
}

#[test]
fn fetch_failure_on_one_account_does_not_abort_the_cycle() {
    let config = RunLoopConfig {
        accounts: vec!["a".to_string(), "b".to_string()],
        ..Default::default()
    };
    let mut run_loop = RunLoop::new(
        FailingPostSource,
        FakeDefinitionsRepo { definitions: one_definition() },
        FakeClassifier,
        FakePublisher { enabled: false },
        FakePublisher { enabled: false },
        InMemoryStateStore::new(),
        FakeClock { time: 0 },
        ImmediatePacer,
        config,
        0,
    );
    // every account fails to fetch; the cycle itself still succeeds
    let results = run_loop.poll_once().unwrap();
    assert_eq!(results.len(), 0);
}

struct RecordingStore {
    cursors: Rc<RefCell<Vec<(String, Option<String>)>>>,
}

impl news_tagger::ports::StateStore for RecordingStore {
    fn get_account_state(
        &self,
        _account: &str,
    ) -> Result<Option<news_tagger::model::AccountState>, news_tagger::ports::StateError> {
        Ok(None)
    }

    fn set_account_state(
        &mut self,
        state: &news_tagger::model::AccountState,
    ) -> Result<(), news_tagger::ports::StateError> {
        self.cursors
            .borrow_mut()
            .push((state.account.clone(), state.since_id.clone()));
        Ok(())
    }

    fn is_processed(
        &self,
        _source_post_id: &str,
        _taxonomy_hash: &str,
    ) -> Result<bool, news_tagger::ports::StateError> {
        Ok(false)
    }

    fn record_published(
        &mut self,
        _record: &news_tagger::model::PublishedRecord,
    ) -> Result<(), news_tagger::ports::StateError> {
        Ok(())
    }

    fn get_published(
        &self,
        _source_post_id: &str,
        _taxonomy_hash: &str,
    ) -> Result<Option<news_tagger::model::PublishedRecord>, news_tagger::ports::StateError> {
        Ok(None)
    }
}

#[test]
fn cursor_advances_to_the_last_post_handed_to_processing() {
    let cursors = Rc::new(RefCell::new(Vec::new()));
    let config = RunLoopConfig {
        accounts: vec!["testuser".to_string()],
        dry_run: true,
        ..Default::default()
    };
    let mut run_loop = RunLoop::new(
        FakePostSource {
            posts: vec![
                post("post1", "first", false),
                post("post2", "second", false),
            ],
        },
        FakeDefinitionsRepo {
            definitions: one_definition(),
        },
        FakeClassifier,
        FakePublisher { enabled: false },
        FakePublisher { enabled: false },
        RecordingStore {
            cursors: Rc::clone(&cursors),
        },
        FakeClock { time: 7 },
        ImmediatePacer,
        config,
        0,
    );
    let results = run_loop.poll_once().unwrap();
    assert_eq!(results.len(), 2);
    assert_eq!(
        *cursors.borrow(),
        vec![("testuser".to_string(), Some("post2".to_string()))]
    );
}

struct SetFailingStore {
    inner: InMemoryStateStore,
}

impl news_tagger::ports::StateStore for SetFailingStore {
    fn get_account_state(
        &self,
        account: &str,
    ) -> Result<Option<news_tagger::model::AccountState>, news_tagger::ports::StateError> {
        self.inner.get_account_state(account)
    }

    fn set_account_state(
        &mut self,
        _state: &news_tagger::model::AccountState,
    ) -> Result<(), news_tagger::ports::StateError> {
        Err(news_tagger::ports::StateError::Database("disk full".to_string()))
    }

    fn is_processed(
        &self,
        source_post_id: &str,
        taxonomy_hash: &str,
    ) -> Result<bool, news_tagger::ports::StateError> {
        self.inner.is_processed(source_post_id, taxonomy_hash)
    }

    fn record_published(
        &mut self,
        record: &news_tagger::model::PublishedRecord,
    ) -> Result<(), news_tagger::ports::StateError> {
        self.inner.record_published(record)
    }

    fn get_published(
        &self,
        source_post_id: &str,
        taxonomy_hash: &str,
    ) -> Result<Option<news_tagger::model::PublishedRecord>, news_tagger::ports::StateError> {
        self.inner.get_published(source_post_id, taxonomy_hash)
    }
}

#[test]
fn cursor_write_failure_keeps_the_computed_results() {
    let config = RunLoopConfig {
        accounts: vec!["testuser".to_string()],
        dry_run: true,
        ..Default::default()
    };
    let mut run_loop = RunLoop::new(
        FakePostSource {
            posts: vec![post("post1", "first", false)],
        },
        FakeDefinitionsRepo {
            definitions: one_definition(),
        },
        FakeClassifier,
        FakePublisher { enabled: false },
        FakePublisher { enabled: false },
        SetFailingStore {
            inner: InMemoryStateStore::new(),
        },
        FakeClock { time: 0 },
        ImmediatePacer,
        config,
        0,
    );
    // the cursor write fails, but the account's computed results stand
    let results = run_loop.poll_once().unwrap();
    assert_eq!(results.len(), 1);
    assert!(matches!(results[0].1, ProcessResult::Published { .. }));
}
