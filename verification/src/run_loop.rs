//! The run loop: load the taxonomy, then per account fetch, filter, process
//! each post under the limiter, and persist the cursor.
//!
//! Everything the loop decides — what is filtered, what is skipped, what is
//! recorded — is stated over the ports' abstract views; what a port actually
//! does at the edge of the system is its own business.

use vstd::prelude::*;

use crate::classify::{ClassifyConfig, ClassifyUseCase};
use crate::model::{AccountState, PostView, ProcessResult, PublishedRecord, SourcePost, Taxonomy};
use crate::ports::{Classifier, Clock, DefinitionsRepo, PostSource, Publisher, StateStore};
use crate::rate_limiter::RateLimiter;
use crate::render::{RenderConfig, Renderer};
use vstd::string::StringExecFns;

verus! {

/// Errors from the run loop.
#[derive(Debug)]
pub enum RunLoopError {
    /// The taxonomy could not be loaded; the whole cycle is aborted.
    Definitions(String),
    /// One account's posts could not be fetched.
    PostSource(String),
    /// The state store failed.
    State(String),
}

/// The message a run loop error carries.
pub open spec fn run_loop_error_message(e: RunLoopError) -> Seq<char> {
    match e {
        RunLoopError::Definitions(m) => "Definitions error: "@ + m@,
        RunLoopError::PostSource(m) => "Post source error: "@ + m@,
        RunLoopError::State(m) => "State error: "@ + m@,
    }
}

impl RunLoopError {
    /// Render the error as text.
    pub fn message(&self) -> (r: String)
        ensures
            r@ == run_loop_error_message(*self),
    {
        match self {
            RunLoopError::Definitions(m) => {
                let mut s = String::from_str("Definitions error: ");
                s.append(m.as_str());
                s
            },
            RunLoopError::PostSource(m) => {
                let mut s = String::from_str("Post source error: ");
                s.append(m.as_str());
                s
            },
            RunLoopError::State(m) => {
                let mut s = String::from_str("State error: ");
                s.append(m.as_str());
                s
            },
        }
    }
}

/// Configuration for the run loop.
pub struct RunLoopConfig {
    /// Accounts to watch.
    pub accounts: Vec<String>,
    /// Whether to include replies.
    pub include_replies: bool,
    /// Whether to include reposts.
    pub include_reposts: bool,
    /// Regex patterns for posts to ignore.
    pub ignore_patterns: Vec<String>,
    /// Dry-run mode: classify and render, but never publish.
    pub dry_run: bool,
    /// Maximum concurrent post-processing tasks a driver may run.
    pub max_concurrent: usize,
    /// Max posts processed per minute (unlimited when absent).
    pub rate_limit_per_minute: Option<u32>,
    /// Max posts processed per hour (unlimited when absent).
    pub rate_limit_per_hour: Option<u32>,
    /// Classification config.
    pub classify_config: ClassifyConfig,
    /// Render config.
    pub render_config: RenderConfig,
}

impl Default for RunLoopConfig {
    /// No accounts, replies and reposts excluded, no ignore patterns,
    /// dry-run on, four concurrent tasks, no rate limits.
    fn default() -> (r: RunLoopConfig)
        ensures
            r.accounts@.len() == 0,
            r.include_replies == false,
            r.include_reposts == false,
            r.ignore_patterns@.len() == 0,
            r.dry_run == true,
            r.max_concurrent == 4,
            r.rate_limit_per_minute is None,
            r.rate_limit_per_hour is None,
    {
        RunLoopConfig {
            accounts: Vec::new(),
            include_replies: false,
            include_reposts: false,
            ignore_patterns: Vec::new(),
            dry_run: true,
            max_concurrent: 4,
            rate_limit_per_minute: None,
            rate_limit_per_hour: None,
            classify_config: ClassifyConfig::default(),
            render_config: RenderConfig::default(),
        }
    }
}

#[verifier::external_type_specification]
#[verifier::external_body]
pub struct ExRegex(regex::Regex);

/// The pattern a compiled regex was built from, as `regex::Regex::as_str`
/// reports it.
pub uninterp spec fn regex_source(r: regex::Regex) -> Seq<char>;

/// Whether `regex::Regex::new` accepts a pattern: a function of the pattern
/// alone.
pub uninterp spec fn regex_compiles(pattern: Seq<char>) -> bool;

/// Whether a regex built from the pattern matches somewhere in the text: a
/// function of pattern and text alone.
pub uninterp spec fn regex_matches(pattern: Seq<char>, text: Seq<char>) -> bool;

/// Relies on regex::Regex::new: compiles exactly the valid patterns, and the
/// compiled regex keeps its source pattern.
#[verifier::external_body]
fn regex_new(pattern: &str) -> (r: Option<regex::Regex>)
    ensures
        r is Some <==> regex_compiles(pattern@),
        r matches Some(re) ==> regex_source(re) == pattern@,
{
    regex::Regex::new(pattern).ok()
}

/// Relies on regex::Regex::is_match: whether the regex matches anywhere in
/// the text, a function of its pattern and the text. This reading holds of
/// regexes built by `Regex::new` (the default configuration); a builder
/// with other flags could match differently under the same pattern, and
/// every regex in this crate comes from `regex_new`.
#[verifier::external_body]
fn regex_is_match(re: &regex::Regex, text: &str) -> (r: bool)
    ensures
        r == regex_matches(regex_source(*re), text@),
{
    re.is_match(text)
}

/// Relies on uuid::Uuid::new_v4, rendered in its hyphenated form: a fresh
/// random identifier of 36 characters. Nothing more is promised of a random
/// value; if the operating system's random source fails, the call aborts
/// the process, an environmental failure no precondition can exclude.
#[verifier::external_body]
fn new_record_id() -> (r: String)
    ensures
        r@.len() == 36,
{
    uuid::Uuid::new_v4().to_string()
}

/// The patterns that compile, in their original order.
pub open spec fn compiled_patterns(patterns: Seq<Seq<char>>) -> Seq<Seq<char>>
    decreases patterns.len(),
{
    if patterns.len() == 0 {
        Seq::empty()
    } else {
        let rest = compiled_patterns(patterns.drop_last());
        if regex_compiles(patterns.last()) {
            rest.push(patterns.last())
        } else {
            rest
        }
    }
}

/// Compile the ignore patterns, dropping the invalid ones.
fn compile_ignore_patterns(patterns: &Vec<String>) -> (r: Vec<regex::Regex>)
    ensures
        Seq::new(r@.len(), |i: int| regex_source(r@[i])) == compiled_patterns(
            patterns.deep_view(),
        ),
{
    let n = patterns.len();
    let ghost pv = patterns.deep_view();
    let mut out: Vec<regex::Regex> = Vec::new();
    let mut i: usize = 0;
    proof {
        assert(pv.subrange(0, 0) =~= Seq::<Seq<char>>::empty());
        assert(Seq::new(out@.len(), |k: int| regex_source(out@[k])) =~= compiled_patterns(
            pv.subrange(0, 0),
        ));
    }
    while i < n
        invariant
            n == patterns@.len(),
            pv == patterns.deep_view(),
            i <= n,
            Seq::new(out@.len(), |k: int| regex_source(out@[k])) == compiled_patterns(
                pv.subrange(0, i as int),
            ),
        decreases n - i,
    {
        proof {
            let cur = pv.subrange(0, i as int + 1);
            assert(cur.drop_last() =~= pv.subrange(0, i as int));
            assert(cur.last() == pv[i as int]);
            assert(pv[i as int] == patterns@[i as int]@);
        }
        let ghost prev = out@;
        match regex_new(patterns[i].as_str()) {
            Some(re) => {
                out.push(re);
                proof {
                    assert forall|k: int| 0 <= k < out@.len() implies regex_source(out@[k])
                        == compiled_patterns(pv.subrange(0, i as int + 1))[k] by {
                        if k < prev.len() {
                            assert(out@[k] == prev[k]);
                            assert(Seq::new(prev.len(), |m: int| regex_source(prev[m]))[k]
                                == regex_source(prev[k]));
                        } else {
                            assert(out@[k] == out@[prev.len() as int]);
                        }
                    }
                    assert(Seq::new(out@.len(), |k: int| regex_source(out@[k])) =~=
                    compiled_patterns(pv.subrange(0, i as int + 1)));
                }
            },
            None => {},
        }
        i = i + 1;
    }
    proof {
        assert(pv.subrange(0, n as int) =~= pv);
    }
    out
}

/// Whether a post passes the filter: replies and reposts only when
/// configured in, and no ignore pattern may match the text.
pub open spec fn post_kept(
    p: PostView,
    include_replies: bool,
    include_reposts: bool,
    pattern_sources: Seq<Seq<char>>,
) -> bool {
    &&& (p.is_reply ==> include_replies)
    &&& (p.is_repost ==> include_reposts)
    &&& (forall|i: int|
        0 <= i < pattern_sources.len() ==> !regex_matches(#[trigger] pattern_sources[i], p.text))
}

/// The posts that pass the filter, in their original order.
pub open spec fn filter_posts_spec(
    posts: Seq<PostView>,
    include_replies: bool,
    include_reposts: bool,
    pattern_sources: Seq<Seq<char>>,
) -> Seq<PostView>
    decreases posts.len(),
{
    if posts.len() == 0 {
        Seq::empty()
    } else {
        let rest = filter_posts_spec(
            posts.drop_last(),
            include_replies,
            include_reposts,
            pattern_sources,
        );
        if post_kept(posts.last(), include_replies, include_reposts, pattern_sources) {
            rest.push(posts.last())
        } else {
            rest
        }
    }
}

/// Port for pacing: the run loop hands it the limiter before each
/// post, and the pacer reads the limiter and waits out whatever the limiter asks
/// for.
pub trait Pacer {
    /// Block until the limiter admits the caller.
    fn pace(&mut self, limiter: &mut RateLimiter);
}

/// Run loop orchestrator.
pub struct RunLoop<S, D, C, X, N, St, Cl, P> {
    post_source: S,
    definitions_repo: D,
    classifier: C,
    x_publisher: X,
    nostr_publisher: N,
    state_store: St,
    clock: Cl,
    pacer: P,
    config: RunLoopConfig,
    ignore_patterns: Vec<regex::Regex>,
    rate_limiter: RateLimiter,
}

impl<
    S: PostSource,
    D: DefinitionsRepo,
    C: Classifier,
    X: Publisher,
    N: Publisher,
    St: StateStore,
    Cl: Clock,
    P: Pacer,
> RunLoop<S, D, C, X, N, St, Cl, P> {
    /// The sources of the compiled ignore patterns.
    pub closed spec fn pattern_sources(self) -> Seq<Seq<char>> {
        Seq::new(self.ignore_patterns@.len(), |i: int| regex_source(self.ignore_patterns@[i]))
    }

    /// The recorded (post id, taxonomy hash) pairs of the loop's store.
    pub closed spec fn processed_set(self) -> Set<(Seq<char>, Seq<char>)> {
        self.state_store.processed_set()
    }

    /// The account cursors of the loop's store.
    pub closed spec fn cursors(self) -> Map<Seq<char>, Option<Seq<char>>> {
        self.state_store.cursors()
    }

    /// Whether the loop's store answers every call.
    pub closed spec fn state_reliable(self) -> bool {
        self.state_store.reliable()
    }

    /// The loop's configuration.
    pub closed spec fn cfg(self) -> RunLoopConfig {
        self.config
    }

    /// Whether the loop is in dry-run mode.
    pub closed spec fn is_dry_run(self) -> bool {
        self.config.dry_run
    }

    /// The compiled patterns are exactly the valid configured ones.
    pub closed spec fn wf(self) -> bool {
        self.pattern_sources() == compiled_patterns(self.config.ignore_patterns.deep_view())
    }

    /// Build a run loop around its ports: compile the ignore patterns
    /// (invalid ones are dropped, never fatal) and start the limiter's
    /// windows at `now_ms`.
    pub fn new(
        post_source: S,
        definitions_repo: D,
        classifier: C,
        x_publisher: X,
        nostr_publisher: N,
        state_store: St,
        clock: Cl,
        pacer: P,
        config: RunLoopConfig,
        now_ms: u64,
    ) -> (r: RunLoop<S, D, C, X, N, St, Cl, P>)
        ensures
            r.wf(),
            r.is_dry_run() == config.dry_run,
    {
        let ignore_patterns = compile_ignore_patterns(&config.ignore_patterns);
        let rate_limiter = RateLimiter::new(
            config.rate_limit_per_minute,
            config.rate_limit_per_hour,
            now_ms,
        );
        RunLoop {
            post_source,
            definitions_repo,
            classifier,
            x_publisher,
            nostr_publisher,
            state_store,
            clock,
            pacer,
            config,
            ignore_patterns,
            rate_limiter,
        }
    }

    /// Run a single poll cycle over all accounts. A definitions failure
    /// aborts the cycle; a failure on one account skips that account and the
    /// others continue, so the only error this can return is a definitions
    /// error.
    pub fn poll_once(&mut self) -> (r: Result<Vec<(String, ProcessResult)>, RunLoopError>)
        requires
            old(self).wf(),
        ensures
            final(self).wf(),
            final(self).cfg() == old(self).cfg(),
            final(self).state_reliable() == old(self).state_reliable(),
            old(self).is_dry_run() ==> final(self).processed_set() == old(self).processed_set(),
            r matches Err(e) ==> e is Definitions,
    {
        let definitions = match self.definitions_repo.load() {
            Ok(defs) => defs,
            Err(e) => {
                return Err(RunLoopError::Definitions(e.message()));
            },
        };
        let taxonomy = Taxonomy::new(definitions);
        let mut results: Vec<(String, ProcessResult)> = Vec::new();
        let account_count = self.config.accounts.len();
        let mut a: usize = 0;
        let ghost cfg0 = self.cfg();
        let ghost rel0 = self.state_reliable();
        let ghost ps0 = self.processed_set();
        while a < account_count
            invariant
                self.wf(),
                self.cfg() == cfg0,
                self.state_reliable() == rel0,
                cfg0.dry_run ==> self.processed_set() == ps0,
                account_count == self.config.accounts@.len(),
                a <= account_count,
            decreases account_count - a,
        {
            let account = self.config.accounts[a].clone();
            match self.poll_account(account.as_str(), &taxonomy) {
                Ok(mut account_results) => {
                    let m = account_results.len();
                    let mut k: usize = 0;
                    while k < m
                        invariant
                            m == account_results@.len() + k,
                            k <= m,
                        decreases m - k,
                    {
                        results.push(account_results.remove(0));
                        k = k + 1;
                    }
                },
                Err(_) => {
                    // partial-failure isolation: other accounts continue
                },
            }
            a = a + 1;
        }
        Ok(results)
    }

    /// Poll a single account: read its cursor, fetch what is newer, filter,
    /// process each admitted post, and advance the cursor to the last post
    /// handed to processing — a cursor write failure is non-fatal, the
    /// computed results stand.
    pub fn poll_account(&mut self, account: &str, taxonomy: &Taxonomy) -> (r: Result<
        Vec<(String, ProcessResult)>,
        RunLoopError,
    >)
        requires
            old(self).wf(),
        ensures
            final(self).wf(),
            final(self).cfg() == old(self).cfg(),
            final(self).state_reliable() == old(self).state_reliable(),
            old(self).is_dry_run() ==> final(self).processed_set() == old(self).processed_set(),
            r matches Err(e) ==> e is State || e is PostSource,
            r matches Err(_) ==> final(self).cursors() == old(self).cursors(),
            (match r {
                Ok(results) => {
                    &&& (results@.len() == 0 ==> final(self).cursors() == old(self).cursors())
                    &&& (results@.len() > 0 ==> (final(self).cursors() == old(
                        self,
                    ).cursors().insert(account@, Some(results@.last().0@)) || final(self).cursors()
                        == old(self).cursors()))
                    &&& (old(self).state_reliable() && results@.len() > 0 ==> final(self).cursors()
                        == old(self).cursors().insert(account@, Some(results@.last().0@)))
                },
                Err(_) => true,
            }),
    {
        let account_state = match self.state_store.get_account_state(account) {
            Ok(st) => st,
            Err(e) => {
                return Err(RunLoopError::State(e.message()));
            },
        };
        let since_id: Option<String> = match account_state {
            Some(st) => st.since_id,
            None => None,
        };
        let posts = match self.post_source.fetch_posts(account, since_id.as_ref()) {
            Ok(posts) => posts,
            Err(e) => {
                return Err(RunLoopError::PostSource(e.message()));
            },
        };
        if posts.len() == 0 {
            return Ok(Vec::new());
        }
        let filtered_posts = self.filter_posts(posts);
        if filtered_posts.len() == 0 {
            return Ok(Vec::new());
        }
        let (results, last_id) = self.process_batch(filtered_posts, taxonomy);
        match last_id {
            Some(last) => {
                let ghost last_view = last@;
                let new_state = AccountState {
                    account: String::from_str(account),
                    since_id: Some(last),
                    updated_at: self.clock.now(),
                };
                proof {
                    assert(new_state.since_id.deep_view() == Some(last_view));
                    assert(results@.last().0@ == last_view);
                }
                match self.state_store.set_account_state(&new_state) {
                    Ok(_) => {},
                    Err(_) => {
                        // a cursor write failure is non-fatal: the computed
                        // results stand
                    },
                }
            },
            None => {},
        }
        Ok(results)
    }

    /// Process a batch of already-filtered posts in order: each post is
    /// admitted by the pacer and processed; the results carry one (post id,
    /// result) pair per post, in order, together with the id of the last
    /// post handed to processing.
    pub fn process_batch(&mut self, posts: Vec<SourcePost>, taxonomy: &Taxonomy) -> (r: (
        Vec<(String, ProcessResult)>,
        Option<String>,
    ))
        requires
            old(self).wf(),
        ensures
            final(self).wf(),
            final(self).cfg() == old(self).cfg(),
            final(self).cursors() == old(self).cursors(),
            final(self).state_reliable() == old(self).state_reliable(),
            old(self).is_dry_run() ==> final(self).processed_set() == old(self).processed_set(),
            r.0@.len() == posts@.len(),
            forall|i: int|
                0 <= i < r.0@.len() ==> (#[trigger] r.0@[i]).0@ == posts.deep_view()[i].id,
            posts@.len() == 0 ==> r.1 is None,
            (posts@.len() > 0 ==> (r.1 matches Some(l) && l@ == posts.deep_view()[posts@.len()
                - 1].id)),
    {
        let ghost input = posts.deep_view();
        let ghost cfg0 = self.cfg();
        let ghost cursors0 = self.cursors();
        let ghost rel0 = self.state_reliable();
        let ghost ps0 = self.processed_set();
        let mut rest = posts;
        let mut results: Vec<(String, ProcessResult)> = Vec::new();
        let mut last_id: Option<String> = None;
        let n = rest.len();
        let mut i: usize = 0;
        proof {
            assert(rest.deep_view() =~= input.skip(0));
        }
        while i < n
            invariant
                self.wf(),
                self.cfg() == cfg0,
                self.cursors() == cursors0,
                self.state_reliable() == rel0,
                cfg0.dry_run ==> self.processed_set() == ps0,
                n == input.len(),
                rest.deep_view() == input.skip(i as int),
                rest@.len() == n - i,
                i <= n,
                results@.len() == i,
                forall|k: int|
                    0 <= k < i ==> (#[trigger] results@[k]).0@ == input[k].id,
                i == 0 ==> last_id is None,
                i > 0 ==> (last_id matches Some(l) && l@ == input[i - 1].id),
            decreases n - i,
        {
            let ghost before = rest.deep_view();
            let ghost prev_rest = rest@;
            let post = rest.remove(0);
            proof {
                assert(before[0] == prev_rest[0]@);
                assert(post == prev_rest[0]);
                assert(before[0] == input.skip(i as int)[0]);
                assert(input.skip(i as int)[0] == input[i as int]);
                assert(post@ == input[i as int]);
                assert forall|k: int| 0 <= k < rest@.len() implies rest.deep_view()[k]
                    == input.skip(i as int + 1)[k] by {
                    assert(rest.deep_view()[k] == rest@[k]@);
                    assert(rest@[k] == prev_rest.remove(0)[k]);
                    assert(prev_rest.remove(0)[k] == prev_rest[k + 1]);
                    assert(before[k + 1] == prev_rest[k + 1]@);
                    assert(before[k + 1] == input.skip(i as int)[k + 1]);
                    assert(input.skip(i as int)[k + 1] == input[i + 1 + k]);
                    assert(input.skip(i as int + 1)[k] == input[i + 1 + k]);
                }
                assert(rest.deep_view() =~= input.skip(i as int + 1));
            }
            last_id = Some(post.id.clone());
            self.pacer.pace(&mut self.rate_limiter);
            let result = self.process_post(&post, taxonomy);
            results.push((post.id, result));
            i = i + 1;
        }
        (results, last_id)
    }

    /// Filter posts: drop replies and reposts unless configured in, and
    /// drop any post an ignore pattern matches.
    pub fn filter_posts(&self, posts: Vec<SourcePost>) -> (r: Vec<SourcePost>)
        ensures
            r.deep_view() == filter_posts_spec(
                posts.deep_view(),
                self.include_replies(),
                self.include_reposts(),
                self.pattern_sources(),
            ),
    {
        let ghost input = posts.deep_view();
        let ghost srcs = self.pattern_sources();
        let mut rest = posts;
        let mut out: Vec<SourcePost> = Vec::new();
        let n = rest.len();
        let mut i: usize = 0;
        proof {
            assert(input.subrange(0, 0) =~= Seq::<PostView>::empty());
            assert(rest.deep_view() =~= input.skip(0));
            assert(out.deep_view() =~= filter_posts_spec(
                input.subrange(0, 0),
                self.include_replies(),
                self.include_reposts(),
                srcs,
            ));
        }
        while i < n
            invariant
                n == input.len(),
                rest.deep_view() == input.skip(i as int),
                rest@.len() == n - i,
                i <= n,
                srcs == self.pattern_sources(),
                out.deep_view() == filter_posts_spec(
                    input.subrange(0, i as int),
                    self.include_replies(),
                    self.include_reposts(),
                    srcs,
                ),
            decreases n - i,
        {
            let ghost before = rest.deep_view();
            let ghost prev_rest = rest@;
            let post = rest.remove(0);
            proof {
                assert(before[0] == prev_rest[0]@);
                assert(post == prev_rest[0]);
                assert(before[0] == input.skip(i as int)[0]);
                assert(input.skip(i as int)[0] == input[i as int]);
                assert(post@ == input[i as int]);
                assert forall|k: int| 0 <= k < rest@.len() implies rest.deep_view()[k]
                    == input.skip(i as int + 1)[k] by {
                    assert(rest.deep_view()[k] == rest@[k]@);
                    assert(rest@[k] == prev_rest.remove(0)[k]);
                    assert(prev_rest.remove(0)[k] == prev_rest[k + 1]);
                    assert(before[k + 1] == prev_rest[k + 1]@);
                    assert(before[k + 1] == input.skip(i as int)[k + 1]);
                    assert(input.skip(i as int)[k + 1] == input[i + 1 + k]);
                    assert(input.skip(i as int + 1)[k] == input[i + 1 + k]);
                }
                assert(rest.deep_view() =~= input.skip(i as int + 1));
            }
            let keep = self.post_passes(&post);
            proof {
                let cur = input.subrange(0, i as int + 1);
                assert(cur.drop_last() =~= input.subrange(0, i as int));
                assert(cur.last() == input[i as int]);
            }
            if keep {
                let ghost prev = out@;
                let ghost prev_dv = out.deep_view();
                out.push(post);
                proof {
                    crate::strutil::lemma_deep_view_push(out, prev, out@[prev.len() as int]);
                    assert(Seq::new(prev.len(), |m: int| prev[m].deep_view()) =~= prev_dv);
                    assert(out.deep_view() =~= prev_dv.push(input[i as int]));
                }
            }
            i = i + 1;
        }
        proof {
            assert(input.subrange(0, n as int) =~= input);
        }
        out
    }

    /// Whether the loop's configuration includes replies.
    pub closed spec fn include_replies(self) -> bool {
        self.config.include_replies
    }

    /// Whether the loop's configuration includes reposts.
    pub closed spec fn include_reposts(self) -> bool {
        self.config.include_reposts
    }

    /// Whether one post passes the filter.
    fn post_passes(&self, post: &SourcePost) -> (r: bool)
        ensures
            r == post_kept(
                post@,
                self.include_replies(),
                self.include_reposts(),
                self.pattern_sources(),
            ),
    {
        if post.is_reply && !self.config.include_replies {
            return false;
        }
        if post.is_repost && !self.config.include_reposts {
            return false;
        }
        let n = self.ignore_patterns.len();
        let mut i: usize = 0;
        while i < n
            invariant
                n == self.ignore_patterns@.len(),
                i <= n,
                forall|k: int|
                    0 <= k < i ==> !regex_matches(
                        #[trigger] self.pattern_sources()[k],
                        post@.text,
                    ),
            decreases n - i,
        {
            proof {
                assert(self.pattern_sources()[i as int] == regex_source(
                    self.ignore_patterns@[i as int],
                ));
            }
            if regex_is_match(&self.ignore_patterns[i], post.text.as_str()) {
                return false;
            }
            i = i + 1;
        }
        true
    }

    /// Process a single post: skip it when the store already recorded this
    /// (post, taxonomy) pair — a store read error is fail-open and
    /// processing continues — then classify, and either report the dry run
    /// or publish best-effort to each enabled platform and record the
    /// result.
    pub fn process_post(&mut self, post: &SourcePost, taxonomy: &Taxonomy) -> (r: ProcessResult)
        requires
            old(self).wf(),
        ensures
            final(self).wf(),
            final(self).cfg() == old(self).cfg(),
            final(self).cursors() == old(self).cursors(),
            final(self).state_reliable() == old(self).state_reliable(),
            r is Skipped ==> old(self).processed_set().contains((post.id@, taxonomy.hash@)),
            !old(self).processed_set().contains((post.id@, taxonomy.hash@)) ==> !(r is Skipped),
            old(self).state_reliable() && old(self).processed_set().contains(
                (post.id@, taxonomy.hash@),
            ) ==> r is Skipped,
            r is Skipped ==> final(self).processed_set() == old(self).processed_set(),
            r is Failed ==> final(self).processed_set() == old(self).processed_set(),
            old(self).is_dry_run() ==> final(self).processed_set() == old(self).processed_set(),
            old(self).is_dry_run() ==> (r matches ProcessResult::Published {
                x_post_id,
                nostr_event_id,
                ..
            } ==> x_post_id is None && nostr_event_id is None),
            final(self).processed_set() == old(self).processed_set()
                || final(self).processed_set() == old(self).processed_set().insert(
                (post.id@, taxonomy.hash@),
            ),
            old(self).state_reliable() && !old(self).is_dry_run() && r is Published
                ==> final(self).processed_set() == old(self).processed_set().insert(
                (post.id@, taxonomy.hash@),
            ),
    {
        match self.state_store.is_processed(post.id.as_str(), taxonomy.hash.as_str()) {
            Ok(true) => {
                return ProcessResult::Skipped {
                    reason: String::from_str("Already processed with this taxonomy"),
                };
            },
            Err(_) => {
                // fail open: a transient store error must not drop the post
            },
            Ok(false) => {},
        }
        let classify_usecase = ClassifyUseCase::new(
            &self.classifier,
            self.config.classify_config.duplicate(),
        );
        let classification = match classify_usecase.classify(post, &taxonomy.definitions) {
            Ok(c) => c,
            Err(e) => {
                let mut error = String::from_str("Classification failed: ");
                error.append(e.message().as_str());
                return ProcessResult::Failed { error };
            },
        };
        if self.config.dry_run {
            let renderer = Renderer::new(self.config.render_config.duplicate());
            let _rendered = renderer.render_for_x(post, &classification);
            return ProcessResult::Published {
                classification,
                x_post_id: None,
                nostr_event_id: None,
            };
        }
        let renderer = Renderer::new(self.config.render_config.duplicate());
        let mut x_post_id: Option<String> = None;
        let mut nostr_event_id: Option<String> = None;
        if self.x_publisher.is_enabled() {
            let rendered = renderer.render_for_x(post, &classification);
            match self.x_publisher.publish(&rendered) {
                Ok(result) => {
                    x_post_id = Some(result.id);
                },
                Err(_) => {
                    // best effort: a publish failure does not fail the post
                },
            }
        }
        if self.nostr_publisher.is_enabled() {
            let rendered = renderer.render_for_nostr(post, &classification);
            match self.nostr_publisher.publish(&rendered) {
                Ok(result) => {
                    nostr_event_id = Some(result.id);
                },
                Err(_) => {
                    // best effort: a publish failure does not fail the post
                },
            }
        }
        let record = PublishedRecord {
            id: new_record_id(),
            source_post_id: post.id.clone(),
            taxonomy_hash: taxonomy.hash.clone(),
            x_post_id: crate::model::clone_opt_string(&x_post_id),
            nostr_event_id: crate::model::clone_opt_string(&nostr_event_id),
            published_at: self.clock.now(),
        };
        match self.state_store.record_published(&record) {
            Ok(_) => {},
            Err(_) => {
                // recording is logged-and-continue; the result stands
            },
        }
        ProcessResult::Published { classification, x_post_id, nostr_event_id }
    }
}

} // verus!
