//! Application configuration data: plain settings structures with their
//! documented defaults. Loading them from files or the environment is a
//! collaborator's job.

use vstd::prelude::*;

use vstd::string::StringExecFns;

verus! {

/// General application settings.
pub struct GeneralConfig {
    /// Where the definition files live.
    pub definitions_dir: String,
    /// Where the state database lives.
    pub state_db_path: String,
    /// Log level name.
    pub log_level: String,
    /// Whether to classify and render without publishing.
    pub dry_run: bool,
    /// Maximum concurrent post-processing tasks.
    pub max_concurrent: usize,
    /// Posts per minute; zero disables the limit.
    pub rate_limit_per_minute: u32,
    /// Posts per hour; zero disables the limit.
    pub rate_limit_per_hour: u32,
}

impl Default for GeneralConfig {
    /// Definitions beside the binary, a local state database, info logging,
    /// dry-run on, four tasks, no rate limits.
    fn default() -> (r: GeneralConfig)
        ensures
            r.definitions_dir@ == "./definitions"@,
            r.state_db_path@ == "./state.sqlite"@,
            r.log_level@ == "info"@,
            r.dry_run == true,
            r.max_concurrent == 4,
            r.rate_limit_per_minute == 0,
            r.rate_limit_per_hour == 0,
    {
        GeneralConfig {
            definitions_dir: String::from_str("./definitions"),
            state_db_path: String::from_str("./state.sqlite"),
            log_level: String::from_str("info"),
            dry_run: true,
            max_concurrent: 4,
            rate_limit_per_minute: 0,
            rate_limit_per_hour: 0,
        }
    }
}

/// Which accounts to watch and what to skip.
pub struct WatchConfig {
    /// Seconds between poll cycles.
    pub poll_interval_secs: u64,
    /// Accounts to watch.
    pub accounts: Vec<String>,
    /// Whether to include replies.
    pub include_replies: bool,
    /// Whether to include reposts.
    pub include_reposts: bool,
    /// Regex patterns for posts to ignore.
    pub ignore_patterns: Vec<String>,
}

impl Default for WatchConfig {
    /// One poll a minute, nothing watched, replies and reposts excluded.
    fn default() -> (r: WatchConfig)
        ensures
            r.poll_interval_secs == 60,
            r.accounts@.len() == 0,
            r.include_replies == false,
            r.include_reposts == false,
            r.ignore_patterns@.len() == 0,
    {
        WatchConfig {
            poll_interval_secs: 60,
            accounts: Vec::new(),
            include_replies: false,
            include_reposts: false,
            ignore_patterns: Vec::new(),
        }
    }
}

/// Settings for one hosted-API provider keyed by an environment variable.
pub struct OpenAiConfig {
    /// Environment variable holding the API key.
    pub api_key_env: String,
    /// Base URL of the API.
    pub base_url: String,
}

impl Default for OpenAiConfig {
    /// The provider's documented defaults.
    fn default() -> (r: OpenAiConfig)
        ensures
            r.api_key_env@ == "OPENAI_API_KEY"@,
            r.base_url@ == "https://api.openai.com/v1"@,
    {
        OpenAiConfig {
            api_key_env: String::from_str("OPENAI_API_KEY"),
            base_url: String::from_str("https://api.openai.com/v1"),
        }
    }
}

/// Settings for the Anthropic provider.
pub struct AnthropicConfig {
    /// Environment variable holding the API key.
    pub api_key_env: String,
}

impl Default for AnthropicConfig {
    /// The provider's documented default key variable.
    fn default() -> (r: AnthropicConfig)
        ensures
            r.api_key_env@ == "ANTHROPIC_API_KEY"@,
    {
        AnthropicConfig { api_key_env: String::from_str("ANTHROPIC_API_KEY") }
    }
}

/// Settings for the Gemini provider.
pub struct GeminiConfig {
    /// Environment variable holding the API key.
    pub api_key_env: String,
}

impl Default for GeminiConfig {
    /// The provider's documented default key variable.
    fn default() -> (r: GeminiConfig)
        ensures
            r.api_key_env@ == "GEMINI_API_KEY"@,
    {
        GeminiConfig { api_key_env: String::from_str("GEMINI_API_KEY") }
    }
}

/// Settings for a local model server.
pub struct OllamaConfig {
    /// Base URL of the server.
    pub base_url: String,
}

impl Default for OllamaConfig {
    /// The server's documented local address.
    fn default() -> (r: OllamaConfig)
        ensures
            r.base_url@ == "http://localhost:11434"@,
    {
        OllamaConfig { base_url: String::from_str("http://localhost:11434") }
    }
}

/// Settings for any OpenAI-compatible endpoint.
pub struct OpenAiCompatConfig {
    /// Environment variable holding the API key.
    pub api_key_env: String,
    /// Base URL of the API.
    pub base_url: String,
}

impl Default for OpenAiCompatConfig {
    /// Nothing is assumed of a compatible endpoint.
    fn default() -> (r: OpenAiCompatConfig)
        ensures
            r.api_key_env@.len() == 0,
            r.base_url@.len() == 0,
    {
        OpenAiCompatConfig { api_key_env: String::new(), base_url: String::new() }
    }
}

/// Settings for a session-based local server.
pub struct OpenCodeConfig {
    /// Base URL of the server.
    pub base_url: String,
    /// Provider id to request.
    pub provider_id: String,
    /// Model id to request.
    pub model_id: String,
    /// Per-call timeout override, in seconds.
    pub timeout_secs: Option<u64>,
}

impl Default for OpenCodeConfig {
    /// The server's documented local address and no overrides.
    fn default() -> (r: OpenCodeConfig)
        ensures
            r.base_url@ == "http://127.0.0.1:4096"@,
            r.provider_id@.len() == 0,
            r.model_id@.len() == 0,
            r.timeout_secs is None,
    {
        OpenCodeConfig {
            base_url: String::from_str("http://127.0.0.1:4096"),
            provider_id: String::new(),
            model_id: String::new(),
            timeout_secs: None,
        }
    }
}

/// Settings for another local CLI classifier.
pub struct CodexConfig {
    /// The command to run.
    pub command: String,
    /// Its argument template.
    pub args: Vec<String>,
    /// Per-call timeout override, in seconds.
    pub timeout_secs: Option<u64>,
}

impl Default for CodexConfig {
    /// The documented default command and no arguments.
    fn default() -> (r: CodexConfig)
        ensures
            r.command@ == "codex"@,
            r.args@.len() == 0,
            r.timeout_secs is None,
    {
        CodexConfig { command: String::from_str("codex"), args: Vec::new(), timeout_secs: None }
    }
}

/// Read settings for the length-constrained platform.
pub struct XReadConfig {
    /// Environment variable holding the bearer token.
    pub bearer_token_env: String,
}

impl Default for XReadConfig {
    /// The documented default token variable.
    fn default() -> (r: XReadConfig)
        ensures
            r.bearer_token_env@ == "X_BEARER_TOKEN"@,
    {
        XReadConfig { bearer_token_env: String::from_str("X_BEARER_TOKEN") }
    }
}

/// Write settings for the length-constrained platform.
pub struct XWriteConfig {
    /// Whether publishing is enabled.
    pub enabled: bool,
    /// Publishing mode name: reply, quote or new_post.
    pub mode: String,
    /// Environment variable holding the user token.
    pub oauth2_user_token_env: String,
    /// Character budget per post.
    pub max_chars: usize,
}

impl Default for XWriteConfig {
    /// Publishing off, reply mode, the documented token variable, 280
    /// characters.
    fn default() -> (r: XWriteConfig)
        ensures
            r.enabled == false,
            r.mode@ == "reply"@,
            r.oauth2_user_token_env@ == "X_USER_TOKEN"@,
            r.max_chars == 280,
    {
        XWriteConfig {
            enabled: false,
            mode: String::from_str("reply"),
            oauth2_user_token_env: String::from_str("X_USER_TOKEN"),
            max_chars: 280,
        }
    }
}

/// Read and write settings for the length-constrained platform.
pub struct XConfig {
    /// Read settings.
    pub read: XReadConfig,
    /// Write settings.
    pub write: XWriteConfig,
}

impl Default for XConfig {
    /// The defaults of both halves.
    fn default() -> (r: XConfig)
        ensures
            r.read.bearer_token_env@ == "X_BEARER_TOKEN"@,
            r.write.enabled == false,
            r.write.mode@ == "reply"@,
            r.write.max_chars == 280,
    {
        XConfig { read: XReadConfig::default(), write: XWriteConfig::default() }
    }
}

/// Settings for the long-form platform.
pub struct NostrConfig {
    /// Whether publishing is enabled.
    pub enabled: bool,
    /// Environment variable holding the secret key.
    pub secret_key_env: String,
    /// Relay addresses to publish to.
    pub relays: Vec<String>,
}

impl Default for NostrConfig {
    /// Publishing off, the documented key variable, no relays.
    fn default() -> (r: NostrConfig)
        ensures
            r.enabled == false,
            r.secret_key_env@ == "NOSTR_NSEC"@,
            r.relays@.len() == 0,
    {
        NostrConfig {
            enabled: false,
            secret_key_env: String::from_str("NOSTR_NSEC"),
            relays: Vec::new(),
        }
    }
}

/// A configured rate limit: zero means unlimited.
pub fn rate_limit_from_config(value: u32) -> (r: Option<u32>)
    ensures
        value == 0 ==> r is None,
        value != 0 ==> r == Some(value),
{
    if value == 0 {
        None
    } else {
        Some(value)
    }
}

} // verus!
