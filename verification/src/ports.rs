//! Port definitions (traits) for external dependencies.
//!
//! These traits define the boundaries between the domain and external
//! systems. Adapters outside the library implement them to connect to real
//! infrastructure; nothing is promised of their outcomes, so everything the
//! run loop guarantees holds whatever an implementation returns.

use vstd::prelude::*;

use crate::model::{AccountState, ClassifyInput, ClassifyOutput, PublishedRecord, RenderedPost,
    SourcePost, TagDefinition};
use vstd::string::StringExecFns;

verus! {

/// Error type for post source operations.
#[derive(Debug)]
pub enum PostSourceError {
    /// The platform API reported an error.
    Api(String),
    /// The platform rate limited the caller; retry after this many
    /// milliseconds, if given.
    RateLimited(Option<u64>),
    /// Authentication failed.
    Auth(String),
    /// A network error occurred.
    Network(String),
}


/// The message a post source error carries.
pub open spec fn post_source_error_message(e: PostSourceError) -> Seq<char> {
    match e {
        PostSourceError::Api(m) => "API error: "@ + m@,
        PostSourceError::RateLimited(after) => "Rate limited, retry after: "@ + (match after {
            Some(ms) => "Some("@ + crate::strutil::dec_str(ms as int) + "ms)"@,
            None => "None"@,
        }),
        PostSourceError::Auth(m) => "Authentication failed: "@ + m@,
        PostSourceError::Network(m) => "Network error: "@ + m@,
    }
}

impl PostSourceError {
    /// Render the error as text.
    pub fn message(&self) -> (r: String)
        ensures
            r@ == post_source_error_message(*self),
    {
        match self {
            PostSourceError::Api(m) => {
                let mut s = String::from_str("API error: ");
                s.append(m.as_str());
                s
            },
            PostSourceError::RateLimited(after) => {
                let mut s = String::from_str("Rate limited, retry after: ");
                match after {
                    Some(ms) => {
                        s.append("Some(");
                        let n = crate::strutil::u64_dec(*ms);
                        s.append(n.as_str());
                        s.append("ms)");
                    },
                    None => {
                        s.append("None");
                    },
                }
                s
            },
            PostSourceError::Auth(m) => {
                let mut s = String::from_str("Authentication failed: ");
                s.append(m.as_str());
                s
            },
            PostSourceError::Network(m) => {
                let mut s = String::from_str("Network error: ");
                s.append(m.as_str());
                s
            },
        }
    }
}

/// Port for fetching posts from a source platform.
pub trait PostSource {
    /// Fetch posts for an account since the given ID, ordered ascending by
    /// recency within the batch.
    fn fetch_posts(&self, account: &str, since_id: Option<&String>) -> Result<
        Vec<SourcePost>,
        PostSourceError,
    >;
}

/// Error type for classifier operations.
#[derive(Debug)]
pub enum ClassifyError {
    /// The backend reported an error.
    Api(String),
    /// The response could not be parsed.
    InvalidFormat(String),
    /// The backend rate limited the caller.
    RateLimited,
    /// The call timed out.
    Timeout,
    /// The classifier is misconfigured.
    Config(String),
}

/// The message a classify error carries.
pub open spec fn classify_error_message(e: ClassifyError) -> Seq<char> {
    match e {
        ClassifyError::Api(m) => "LLM API error: "@ + m@,
        ClassifyError::InvalidFormat(m) => "Invalid response format: "@ + m@,
        ClassifyError::RateLimited => "Rate limited"@,
        ClassifyError::Timeout => "Timeout"@,
        ClassifyError::Config(m) => "Configuration error: "@ + m@,
    }
}

impl ClassifyError {
    /// Render the error as text.
    pub fn message(&self) -> (r: String)
        ensures
            r@ == classify_error_message(*self),
    {
        match self {
            ClassifyError::Api(m) => {
                let mut s = String::from_str("LLM API error: ");
                s.append(m.as_str());
                s
            },
            ClassifyError::InvalidFormat(m) => {
                let mut s = String::from_str("Invalid response format: ");
                s.append(m.as_str());
                s
            },
            ClassifyError::RateLimited => String::from_str("Rate limited"),
            ClassifyError::Timeout => String::from_str("Timeout"),
            ClassifyError::Config(m) => {
                let mut s = String::from_str("Configuration error: ");
                s.append(m.as_str());
                s
            },
        }
    }

    /// A copy of the error.
    pub fn duplicate(&self) -> (r: ClassifyError)
        ensures
            r == *self,
    {
        match self {
            ClassifyError::Api(m) => ClassifyError::Api(m.clone()),
            ClassifyError::InvalidFormat(m) => ClassifyError::InvalidFormat(m.clone()),
            ClassifyError::RateLimited => ClassifyError::RateLimited,
            ClassifyError::Timeout => ClassifyError::Timeout,
            ClassifyError::Config(m) => ClassifyError::Config(m.clone()),
        }
    }
}

/// Port for LLM-based classification.
pub trait Classifier {
    /// Classify a post against the provided definitions.
    fn classify(&self, input: ClassifyInput) -> Result<ClassifyOutput, ClassifyError>;
}


impl<'a, C: Classifier> Classifier for &'a C {
    /// A reference classifies as the classifier it borrows.
    fn classify(&self, input: ClassifyInput) -> Result<ClassifyOutput, ClassifyError> {
        (*self).classify(input)
    }
}

/// Error type for publisher operations.
#[derive(Debug)]
pub enum PublishError {
    /// The platform API reported an error.
    Api(String),
    /// The platform rate limited the caller.
    RateLimited,
    /// Authentication failed.
    Auth(String),
    /// The content exceeds the platform limit.
    ContentTooLong { len: usize, max: usize },
}

/// Result of a successful publish operation.
pub struct PublishResult {
    /// Platform-specific post/event ID.
    pub id: String,
    /// URL to the published content, if available.
    pub url: Option<String>,
}

/// Port for publishing classification results.
pub trait Publisher {
    /// Publish a rendered post; returns the published ID.
    fn publish(&self, post: &RenderedPost) -> Result<PublishResult, PublishError>;

    /// Whether this publisher is enabled.
    fn is_enabled(&self) -> bool;

    /// The platform name.
    fn platform(&self) -> String;
}

/// Error type for the definitions repository.
#[derive(Debug)]
pub enum DefinitionsError {
    /// An I/O error occurred while reading definitions.
    Io(String),
    /// A definition file could not be parsed.
    Parse { file: String, message: String },
    /// The definitions failed validation.
    Validation(String),
    /// No definitions were found at the given location.
    Empty(String),
    /// The same id was found in two files.
    DuplicateId { id: String, files: Vec<String> },
    /// An id does not match the required shape.
    InvalidId { id: String },
}


/// The quoted file list in a duplicate-id message.
pub open spec fn quoted_files(files: Seq<Seq<char>>) -> Seq<char>
    decreases files.len(),
{
    if files.len() == 0 {
        Seq::empty()
    } else if files.len() == 1 {
        "\""@ + files[0] + "\""@
    } else {
        quoted_files(files.drop_last()) + ", \""@ + files.last() + "\""@
    }
}

/// The message a definitions error carries.
pub open spec fn definitions_error_message(e: DefinitionsError) -> Seq<char> {
    match e {
        DefinitionsError::Io(m) => "IO error: "@ + m@,
        DefinitionsError::Parse { file, message } => "Parse error in "@ + file@ + ": "@ + message@,
        DefinitionsError::Validation(m) => "Validation error: "@ + m@,
        DefinitionsError::Empty(m) => "No definitions found in "@ + m@,
        DefinitionsError::DuplicateId { id, files } => "Duplicate ID '"@ + id@ + "' in files: ["@
            + quoted_files(files.deep_view()) + "]"@,
        DefinitionsError::InvalidId { id } => "Invalid ID '"@ + id@
            + "': must match [a-z0-9_]+"@,
    }
}

impl DefinitionsError {
    /// Render the error as text.
    pub fn message(&self) -> (r: String)
        ensures
            r@ == definitions_error_message(*self),
    {
        match self {
            DefinitionsError::Io(m) => {
                let mut s = String::from_str("IO error: ");
                s.append(m.as_str());
                s
            },
            DefinitionsError::Parse { file, message } => {
                let mut s = String::from_str("Parse error in ");
                s.append(file.as_str());
                s.append(": ");
                s.append(message.as_str());
                s
            },
            DefinitionsError::Validation(m) => {
                let mut s = String::from_str("Validation error: ");
                s.append(m.as_str());
                s
            },
            DefinitionsError::Empty(m) => {
                let mut s = String::from_str("No definitions found in ");
                s.append(m.as_str());
                s
            },
            DefinitionsError::DuplicateId { id, files } => {
                let mut s = String::from_str("Duplicate ID '");
                s.append(id.as_str());
                s.append("' in files: [");
                let n = files.len();
                let ghost fv = files.deep_view();
                let mut i: usize = 0;
                proof {
                    assert(fv.subrange(0, 0) =~= Seq::<Seq<char>>::empty());
                    assert(s@ =~= "Duplicate ID '"@ + id@ + "' in files: ["@ + quoted_files(
                        fv.subrange(0, 0),
                    ));
                }
                while i < n
                    invariant
                        n == files@.len(),
                        fv == files.deep_view(),
                        i <= n,
                        s@ == "Duplicate ID '"@ + id@ + "' in files: ["@ + quoted_files(
                            fv.subrange(0, i as int),
                        ),
                    decreases n - i,
                {
                    let ghost s_pre = s@;
                    if i > 0 {
                        s.append(", \"");
                    } else {
                        s.append("\"");
                    }
                    s.append(files[i].as_str());
                    s.append("\"");
                    proof {
                        let cur = fv.subrange(0, i as int + 1);
                        assert(cur.drop_last() =~= fv.subrange(0, i as int));
                        assert(cur.last() == fv[i as int]);
                        assert(fv[i as int] == files@[i as int]@);
                        if i == 0 {
                            assert(fv.subrange(0, 0) =~= Seq::<Seq<char>>::empty());
                            assert(quoted_files(fv.subrange(0, 0)) == Seq::<char>::empty());
                            assert(s_pre =~= "Duplicate ID '"@ + id@ + "' in files: ["@);
                            assert(quoted_files(cur) == "\""@ + cur[0] + "\""@);
                            assert(s@ =~= s_pre + quoted_files(cur));
                            assert(s@ == "Duplicate ID '"@ + id@ + "' in files: ["@
                                + quoted_files(cur));
                        } else {
                            assert(s@ =~= "Duplicate ID '"@ + id@ + "' in files: ["@
                                + quoted_files(cur));
                        }
                    }
                    i = i + 1;
                }
                proof {
                    assert(fv.subrange(0, n as int) =~= fv);
                }
                s.append("]");
                s
            },
            DefinitionsError::InvalidId { id } => {
                let mut s = String::from_str("Invalid ID '");
                s.append(id.as_str());
                s.append("': must match [a-z0-9_]+");
                s
            },
        }
    }
}

/// Port for loading tag definitions.
pub trait DefinitionsRepo {
    /// Load all definitions from the configured source.
    fn load(&self) -> Result<Vec<TagDefinition>, DefinitionsError>;

    /// Validate definitions without keeping them.
    fn validate(&self) -> Result<(), DefinitionsError>;
}

/// Error type for state store operations.
#[derive(Debug)]
pub enum StateError {
    /// The underlying database reported an error.
    Database(String),
    /// The requested row does not exist.
    NotFound(String),
    /// A value could not be serialized or deserialized.
    Serialization(String),
}

/// The message a state error carries.
pub open spec fn state_error_message(e: StateError) -> Seq<char> {
    match e {
        StateError::Database(m) => "Database error: "@ + m@,
        StateError::NotFound(m) => "Not found: "@ + m@,
        StateError::Serialization(m) => "Serialization error: "@ + m@,
    }
}

impl StateError {
    /// Render the error as text.
    pub fn message(&self) -> (r: String)
        ensures
            r@ == state_error_message(*self),
    {
        match self {
            StateError::Database(m) => {
                let mut s = String::from_str("Database error: ");
                s.append(m.as_str());
                s
            },
            StateError::NotFound(m) => {
                let mut s = String::from_str("Not found: ");
                s.append(m.as_str());
                s
            },
            StateError::Serialization(m) => {
                let mut s = String::from_str("Serialization error: ");
                s.append(m.as_str());
                s
            },
        }
    }
}

/// Port for persisting application state.
pub trait StateStore {
    /// The set of (source post id, taxonomy hash) pairs this store has
    /// recorded as published. Implementations inside this crate give it a
    /// real meaning; for one that does not, nothing is recorded.
    open spec fn processed_set(&self) -> Set<(Seq<char>, Seq<char>)> {
        Set::empty()
    }

    /// The since cursor each watched account carries, as this store would
    /// answer a read. Implementations inside this crate give it a real
    /// meaning; for one that does not, nothing is stored.
    open spec fn cursors(&self) -> Map<Seq<char>, Option<Seq<char>>> {
        Map::empty()
    }

    /// Whether this store answers every call. An implementation that cannot
    /// fail may say so and must then never return an error; by default
    /// nothing is promised.
    open spec fn reliable(&self) -> bool {
        false
    }

    /// Get account state (since cursor and friends). An answer reflects the
    /// stored cursor for that account.
    fn get_account_state(&self, account: &str) -> (r: Result<Option<AccountState>, StateError>)
        ensures
            self.reliable() ==> r is Ok,
            (r matches Ok(Some(st)) ==> self.cursors().contains_key(account@) && st.account@
                == account@ && st.since_id.deep_view() == self.cursors()[account@]),
            (r matches Ok(None) ==> !self.cursors().contains_key(account@));

    /// Update account state. On success the account's cursor is exactly the
    /// given one; on failure the cursors are unchanged. The recorded
    /// published pairs are never touched.
    fn set_account_state(&mut self, state: &AccountState) -> (r: Result<(), StateError>)
        ensures
            old(self).reliable() ==> r is Ok,
            final(self).reliable() == old(self).reliable(),
            final(self).processed_set() == old(self).processed_set(),
            (r matches Ok(_) ==> final(self).cursors() == old(self).cursors().insert(
                state.account@,
                state.since_id.deep_view(),
            )),
            (r matches Err(_) ==> final(self).cursors() == old(self).cursors());

    /// Whether a post has been processed under the given taxonomy. A store
    /// may fail, but an answer it does give is about its recorded set.
    fn is_processed(&self, source_post_id: &str, taxonomy_hash: &str) -> (r: Result<
        bool,
        StateError,
    >)
        ensures
            self.reliable() ==> r is Ok,
            r matches Ok(b) ==> b == self.processed_set().contains(
                (source_post_id@, taxonomy_hash@),
            );

    /// Record a published post. On success the pair is in the recorded set;
    /// on failure the set is unchanged. The cursors are never touched.
    fn record_published(&mut self, record: &PublishedRecord) -> (r: Result<(), StateError>)
        ensures
            old(self).reliable() ==> r is Ok,
            final(self).reliable() == old(self).reliable(),
            final(self).cursors() == old(self).cursors(),
            r matches Ok(_) ==> final(self).processed_set() == old(self).processed_set().insert(
                (record.source_post_id@, record.taxonomy_hash@),
            ),
            r matches Err(_) ==> final(self).processed_set() == old(self).processed_set();

    /// Get the published record for a source post, if any.
    fn get_published(&self, source_post_id: &str, taxonomy_hash: &str) -> (r: Result<
        Option<PublishedRecord>,
        StateError,
    >)
        ensures
            self.reliable() ==> r is Ok;
}

/// Port for time, so that tests can inject a deterministic clock.
pub trait Clock {
    /// The current time as Unix seconds.
    fn now(&self) -> i64;
}

/// Relies on time::OffsetDateTime::now_utc, rendered as Unix seconds by
/// unix_timestamp. The result depends on the wall clock, so nothing is
/// promised of it.
#[verifier::external_body]
fn system_now_s() -> i64 {
    time::OffsetDateTime::now_utc().unix_timestamp()
}

/// Real clock implementation.
#[derive(Clone, Copy)]
pub struct SystemClock;

impl SystemClock {
    /// Create a system clock.
    pub fn new() -> SystemClock {
        SystemClock
    }
}

impl Clock for SystemClock {
    fn now(&self) -> i64 {
        system_now_s()
    }
}

} // verus!
