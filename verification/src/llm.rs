//! Provider-agnostic classification plumbing: the prompt, the response
//! extraction, and the retry orchestration that wraps any concrete backend.

use vstd::prelude::*;

use crate::model::{ClassifyOutput, DefView, TagDefinition};
use crate::ports::ClassifyError;
use crate::strutil::{find_char, find_char_spec, find_first, find_sub_spec, replace_spec,
    replace_str, trim_spec, trim_str};
use vstd::string::StringExecFns;

verus! {

/// The fixed opening of every classification prompt.
pub open spec fn prompt_intro() -> Seq<char> {
    "You are a narrative analysis system. Classify the following post against the provided tag definitions.\n\n"@
}

/// The fixed output-format rules of every classification prompt.
pub open spec fn prompt_rules() -> Seq<char> {
    "## Output Format\nRespond with ONLY a JSON object matching this exact schema:\n{\n  \"version\": \"1\",\n  \"summary\": \"1-2 sentence neutral summary of the post content\",\n  \"tags\": [\n    {\n      \"id\": \"tag_id\",\n      \"confidence\": 0.0 to 1.0,\n      \"rationale\": \"Why this tag applies\",\n      \"evidence\": [\"direct quote 1\", \"direct quote 2\"]\n    }\n  ]\n}\n\nRules:\n- Only include tags with confidence >= 0.5\n- Evidence must be direct quotes from the post\n- If no tags apply, return empty tags array\n- Be objective and neutral\n"@
}

/// One definition's block in the prompt.
pub open spec fn def_block(d: DefView) -> Seq<char> {
    "### "@ + d.title + " (ID: "@ + d.id + ")\n"@ + (match d.short {
        Some(s) => "Summary: "@ + s + "\n"@,
        None => Seq::<char>::empty(),
    }) + d.content + "\n\n"@
}

/// All definition blocks, in order.
pub open spec fn def_blocks(defs: Seq<DefView>) -> Seq<char>
    decreases defs.len(),
{
    if defs.len() == 0 {
        Seq::empty()
    } else {
        def_blocks(defs.drop_last()) + def_block(defs.last())
    }
}

/// The whole classification prompt for a post, the definitions to consider
/// and an optional policy block.
pub open spec fn prompt_spec(
    post_text: Seq<char>,
    author: Seq<char>,
    defs: Seq<DefView>,
    policy: Option<Seq<char>>,
) -> Seq<char> {
    prompt_intro() + "## Post to Analyze\n"@ + "Author: "@ + author + "\n"@ + "Content: "@
        + post_text + "\n\n"@ + "## Tag Definitions\n"@ + def_blocks(defs) + (match policy {
        Some(p) => "## Policy\n"@ + p + "\n\n"@,
        None => Seq::<char>::empty(),
    }) + prompt_rules()
}

/// Build the provider-agnostic classification prompt.
pub fn build_classification_prompt(
    post_text: &str,
    author: &str,
    definitions: &Vec<TagDefinition>,
    policy_text: Option<&String>,
) -> (r: String)
    ensures
        r@ == prompt_spec(post_text@, author@, definitions.deep_view(), (match policy_text {
            Some(p) => Some(p@),
            None => None,
        })),
{
    let mut prompt = String::from_str(
        "You are a narrative analysis system. Classify the following post against the provided tag definitions.\n\n",
    );
    prompt.append("## Post to Analyze\n");
    prompt.append("Author: ");
    prompt.append(author);
    prompt.append("\n");
    prompt.append("Content: ");
    prompt.append(post_text);
    prompt.append("\n\n");
    prompt.append("## Tag Definitions\n");
    let n = definitions.len();
    let ghost dv = definitions.deep_view();
    let ghost head = prompt@;
    let mut i: usize = 0;
    proof {
        assert(dv.subrange(0, 0) =~= Seq::<DefView>::empty());
        assert(prompt@ =~= head + def_blocks(dv.subrange(0, 0)));
    }
    while i < n
        invariant
            n == definitions@.len(),
            dv == definitions.deep_view(),
            i <= n,
            prompt@ == head + def_blocks(dv.subrange(0, i as int)),
        decreases n - i,
    {
        proof {
            assert(dv[i as int] == definitions@[i as int]@);
        }
        let d = &definitions[i];
        prompt.append("### ");
        prompt.append(d.title.as_str());
        prompt.append(" (ID: ");
        prompt.append(d.id.as_str());
        prompt.append(")\n");
        match &d.short {
            Some(short) => {
                prompt.append("Summary: ");
                prompt.append(short.as_str());
                prompt.append("\n");
            },
            None => {},
        }
        prompt.append(d.content.as_str());
        prompt.append("\n\n");
        proof {
            let cur = dv.subrange(0, i as int + 1);
            assert(cur.drop_last() =~= dv.subrange(0, i as int));
            assert(cur.last() == dv[i as int]);
            assert(prompt@ =~= head + def_blocks(cur));
        }
        i = i + 1;
    }
    proof {
        assert(dv.subrange(0, n as int) =~= dv);
    }
    match policy_text {
        Some(policy) => {
            prompt.append("## Policy\n");
            prompt.append(policy.as_str());
            prompt.append("\n\n");
        },
        None => {},
    }
    prompt.append(
        "## Output Format\nRespond with ONLY a JSON object matching this exact schema:\n{\n  \"version\": \"1\",\n  \"summary\": \"1-2 sentence neutral summary of the post content\",\n  \"tags\": [\n    {\n      \"id\": \"tag_id\",\n      \"confidence\": 0.0 to 1.0,\n      \"rationale\": \"Why this tag applies\",\n      \"evidence\": [\"direct quote 1\", \"direct quote 2\"]\n    }\n  ]\n}\n\nRules:\n- Only include tags with confidence >= 0.5\n- Evidence must be direct quotes from the post\n- If no tags apply, return empty tags array\n- Be objective and neutral\n",
    );
    prompt
}

/// The body of a fenced block with its language-tag line removed: when the
/// first line does not open a JSON object, everything up to and including
/// the first newline is dropped and the rest trimmed.
pub open spec fn strip_fence_tag(content: Seq<char>) -> Seq<char> {
    match find_char_spec(content, '\n') {
        Some(nl) => if !(nl >= 1 && content[0] == '{') {
            trim_spec(content.skip(nl + 1))
        } else {
            content
        },
        None => content,
    }
}

/// The trimmed response with a plain fenced block unwrapped, if one is
/// complete.
pub open spec fn extract_plain_fence(t: Seq<char>) -> Seq<char> {
    match find_sub_spec(t, "```"@) {
        Some(start) => match find_sub_spec(t.skip(start + 3), "```"@) {
            Some(end) => strip_fence_tag(trim_spec(t.skip(start + 3).take(end))),
            None => t,
        },
        None => t,
    }
}

/// What `extract_json` returns: the trimmed response, unwrapped from a
/// complete "```json" block if there is one, else from a complete plain
/// fenced block (dropping a leading language tag), else taken as raw JSON.
pub open spec fn extract_json_spec(response: Seq<char>) -> Seq<char> {
    let t = trim_spec(response);
    match find_sub_spec(t, "```json"@) {
        Some(start) => match find_sub_spec(t.skip(start + 7), "```"@) {
            Some(end) => trim_spec(t.skip(start + 7).take(end)),
            None => extract_plain_fence(t),
        },
        None => extract_plain_fence(t),
    }
}

/// Extract the JSON payload from a classifier response, tolerating fenced
/// code blocks around it.
pub fn extract_json(response: &str) -> (r: String)
    ensures
        r@ == extract_json_spec(response@),
{
    let t = trim_str(response);
    let tn = t.unicode_len();
    proof {
        reveal_strlit("```json");
        reveal_strlit("```");
    }
    match find_first(t, "```json") {
        Some(start) => {
            let rest = t.substring_char(start + 7, tn);
            match find_first(rest, "```") {
                Some(end) => {
                    let inner = rest.substring_char(0, end);
                    proof {
                        assert(rest@ =~= t@.skip(start + 7));
                        assert(inner@ =~= t@.skip(start + 7).take(end as int));
                    }
                    return String::from_str(trim_str(inner));
                },
                None => {
                    proof {
                        assert(rest@ =~= t@.skip(start + 7));
                    }
                },
            }
        },
        None => {},
    }
    extract_from_plain_fence(t)
}

/// Unwrap a plain fenced block, if the trimmed response holds a complete
/// one.
fn extract_from_plain_fence(t: &str) -> (r: String)
    ensures
        r@ == extract_plain_fence(t@),
{
    let tn = t.unicode_len();
    proof {
        reveal_strlit("```");
    }
    match find_first(t, "```") {
        Some(start) => {
            let rest = t.substring_char(start + 3, tn);
            match find_first(rest, "```") {
                Some(end) => {
                    let inner = rest.substring_char(0, end);
                    proof {
                        assert(rest@ =~= t@.skip(start + 3));
                        assert(inner@ =~= t@.skip(start + 3).take(end as int));
                    }
                    let content = trim_str(inner);
                    let cn = content.unicode_len();
                    match find_char(content, '\n') {
                        Some(nl) => {
                            let keep = if nl >= 1 {
                                content.get_char(0) == '{'
                            } else {
                                false
                            };
                            if keep {
                                String::from_str(content)
                            } else {
                                let tail = content.substring_char(nl + 1, cn);
                                proof {
                                    assert(tail@ =~= content@.skip(nl + 1));
                                }
                                String::from_str(trim_str(tail))
                            }
                        },
                        None => String::from_str(content),
                    }
                },
                None => {
                    proof {
                        assert(rest@ =~= t@.skip(start + 3));
                    }
                    String::from_str(t)
                },
            }
        },
        None => String::from_str(t),
    }
}

/// The command itself, or the default when it is blank.
pub open spec fn resolve_command_spec(command: Seq<char>, default: Seq<char>) -> Seq<char> {
    if trim_spec(command).len() == 0 {
        default
    } else {
        command
    }
}

/// Fall back to the default command name when the configured one is empty
/// or whitespace.
pub fn resolve_command(command: String) -> (r: String)
    ensures
        r@ == resolve_command_spec(command@, "codex"@),
{
    let t = trim_str(command.as_str());
    if t.unicode_len() == 0 {
        String::from_str("codex")
    } else {
        command
    }
}

/// The trimmed value, or nothing when it is blank.
pub fn non_empty(value: &str) -> (r: Option<String>)
    ensures
        match r {
            Some(s) => trim_spec(value@).len() > 0 && s@ == trim_spec(value@),
            None => trim_spec(value@).len() == 0,
        },
{
    let trimmed = trim_str(value);
    if trimmed.unicode_len() == 0 {
        None
    } else {
        Some(String::from_str(trimmed))
    }
}

/// The placeholder context a command template is expanded against. The
/// temperature is carried pre-rendered.
pub struct CommandContext {
    /// The classification prompt.
    pub prompt: String,
    /// Model name.
    pub model: String,
    /// Temperature, already rendered as text.
    pub temperature: String,
    /// Maximum output tokens.
    pub max_output_tokens: u32,
}

/// One argument with its placeholders expanded.
pub open spec fn expand_arg_spec(
    arg: Seq<char>,
    prompt: Seq<char>,
    model: Seq<char>,
    temperature: Seq<char>,
    max_tokens: Seq<char>,
) -> Seq<char> {
    let a1 = if crate::strutil::contains_seq(arg, "{prompt}"@) {
        replace_spec(arg, "{prompt}"@, prompt)
    } else {
        arg
    };
    let a2 = if crate::strutil::contains_seq(a1, "{model}"@) {
        replace_spec(a1, "{model}"@, model)
    } else {
        a1
    };
    let a3 = if crate::strutil::contains_seq(a2, "{temperature}"@) {
        replace_spec(a2, "{temperature}"@, temperature)
    } else {
        a2
    };
    if crate::strutil::contains_seq(a3, "{max_output_tokens}"@) {
        replace_spec(a3, "{max_output_tokens}"@, max_tokens)
    } else {
        a3
    }
}

/// Expand the placeholders in a command's argument template. Returns the
/// expanded arguments and whether any argument carried the prompt (in which
/// case nothing need be piped to the command's standard input).
pub fn expand_args(args: &Vec<String>, ctx: &CommandContext) -> (r: (Vec<String>, bool))
    ensures
        r.0@.len() == args@.len(),
        forall|i: int|
            0 <= i < args@.len() ==> #[trigger] r.0.deep_view()[i] == expand_arg_spec(
                args.deep_view()[i],
                ctx.prompt@,
                ctx.model@,
                ctx.temperature@,
                crate::strutil::dec_str(ctx.max_output_tokens as int),
            ),
        r.1 == exists|i: int|
            0 <= i < args@.len() && crate::strutil::contains_seq(
                #[trigger] args.deep_view()[i],
                "{prompt}"@,
            ),
{
    let max_tokens_str = crate::strutil::u64_dec(ctx.max_output_tokens as u64);
    let mut used_prompt_arg = false;
    let mut expanded: Vec<String> = Vec::new();
    let n = args.len();
    let mut i: usize = 0;
    let ghost av = args.deep_view();
    proof {
        reveal_strlit("{prompt}");
    }
    while i < n
        invariant
            n == args@.len(),
            av == args.deep_view(),
            i <= n,
            expanded@.len() == i,
            max_tokens_str@ == crate::strutil::dec_str(ctx.max_output_tokens as int),
            forall|k: int|
                0 <= k < i ==> #[trigger] expanded.deep_view()[k] == expand_arg_spec(
                    av[k],
                    ctx.prompt@,
                    ctx.model@,
                    ctx.temperature@,
                    crate::strutil::dec_str(ctx.max_output_tokens as int),
                ),
            used_prompt_arg == exists|k: int|
                0 <= k < i && crate::strutil::contains_seq(#[trigger] av[k], "{prompt}"@),
        decreases n - i,
    {
        proof {
            assert(av[i as int] == args@[i as int]@);
        }
        let arg = &args[i];
        let mut value = arg.clone();
        if crate::strutil::contains_str(value.as_str(), "{prompt}") {
            proof {
                reveal_strlit("{prompt}");
            }
            used_prompt_arg = true;
            value = replace_str(value.as_str(), "{prompt}", ctx.prompt.as_str());
        }
        if crate::strutil::contains_str(value.as_str(), "{model}") {
            proof {
                reveal_strlit("{model}");
            }
            value = replace_str(value.as_str(), "{model}", ctx.model.as_str());
        }
        if crate::strutil::contains_str(value.as_str(), "{temperature}") {
            proof {
                reveal_strlit("{temperature}");
            }
            value = replace_str(value.as_str(), "{temperature}", ctx.temperature.as_str());
        }
        if crate::strutil::contains_str(value.as_str(), "{max_output_tokens}") {
            proof {
                reveal_strlit("{max_output_tokens}");
            }
            value = replace_str(value.as_str(), "{max_output_tokens}", max_tokens_str.as_str());
        }
        let ghost prev = expanded@;
        let ghost prev_dv = expanded.deep_view();
        let ghost val_view = value@;
        expanded.push(value);
        proof {
            crate::strutil::lemma_deep_view_push(expanded, prev, expanded@[prev.len() as int]);
            assert(Seq::new(prev.len(), |k: int| prev[k].deep_view()) =~= prev_dv);
            assert(expanded.deep_view() =~= prev_dv.push(val_view));
        }
        i = i + 1;
    }
    (expanded, used_prompt_arg)
}

/// What one attempt of the classification call produced.
pub enum AttemptOutcome {
    /// The backend call itself failed.
    CallFailed(ClassifyError),
    /// The backend answered, but the answer did not parse.
    ParseFailed(String),
    /// A classification was parsed.
    Parsed(ClassifyOutput),
}

/// What the orchestration does next.
pub enum RetryDecision {
    /// Return this result to the caller.
    Done(Result<ClassifyOutput, ClassifyError>),
    /// Sleep this many milliseconds and try again.
    RetryAfterMs(u64),
}

/// The exponential backoff before retry number `attempt + 1`: 500ms doubled
/// per attempt already made.
pub open spec fn backoff_ms_spec(attempt: int) -> int {
    500 * (vstd::arithmetic::power2::pow2(attempt as nat) as int)
}

/// What the retry orchestration decides after one attempt: a parsed answer
/// is returned; a rate limit is returned immediately, never retried; any
/// other failure is retried with exponential backoff until the attempts are
/// exhausted, and then the failure itself is returned (a parse failure as an
/// invalid-format error).
pub fn retry_decision(attempt: u32, retries: u32, outcome: AttemptOutcome) -> (r: RetryDecision)
    requires
        attempt <= retries,
        retries <= 30,
    ensures
        match outcome {
            AttemptOutcome::Parsed(o) => r == RetryDecision::Done(
                Result::<ClassifyOutput, ClassifyError>::Ok(o),
            ),
            AttemptOutcome::CallFailed(e) => {
                if e is RateLimited {
                    r == RetryDecision::Done(
                        Result::<ClassifyOutput, ClassifyError>::Err(ClassifyError::RateLimited),
                    )
                } else if attempt < retries {
                    r == RetryDecision::RetryAfterMs(backoff_ms_spec(attempt as int) as u64)
                } else {
                    r == RetryDecision::Done(Result::<ClassifyOutput, ClassifyError>::Err(e))
                }
            },
            AttemptOutcome::ParseFailed(m) => {
                if attempt < retries {
                    r == RetryDecision::RetryAfterMs(backoff_ms_spec(attempt as int) as u64)
                } else {
                    r == RetryDecision::Done(
                        Result::<ClassifyOutput, ClassifyError>::Err(
                            ClassifyError::InvalidFormat(m),
                        ),
                    )
                }
            },
        },
{
    match outcome {
        AttemptOutcome::Parsed(o) => RetryDecision::Done(Ok(o)),
        AttemptOutcome::CallFailed(e) => {
            match e {
                ClassifyError::RateLimited => RetryDecision::Done(
                    Err(ClassifyError::RateLimited),
                ),
                other => {
                    if attempt < retries {
                        RetryDecision::RetryAfterMs(backoff_wait(attempt))
                    } else {
                        RetryDecision::Done(Err(other))
                    }
                },
            }
        },
        AttemptOutcome::ParseFailed(m) => {
            if attempt < retries {
                RetryDecision::RetryAfterMs(backoff_wait(attempt))
            } else {
                RetryDecision::Done(Err(ClassifyError::InvalidFormat(m)))
            }
        },
    }
}

/// 500ms doubled per attempt already made.
fn backoff_wait(attempt: u32) -> (r: u64)
    requires
        attempt <= 30,
    ensures
        r == backoff_ms_spec(attempt as int),
{
    proof {
        vstd::arithmetic::power2::lemma_pow2_pos(attempt as nat);
        vstd::arithmetic::power2::lemma2_to64();
        vstd::arithmetic::power2::lemma_pow2_strictly_increases(attempt as nat, 31);
        assert(vstd::arithmetic::power2::pow2(attempt as nat) < 0x80000000);
    }
    let p: u64 = pow2_exec(attempt);
    500 * p
}

/// Two to the given power.
fn pow2_exec(e: u32) -> (r: u64)
    requires
        e <= 30,
    ensures
        r == vstd::arithmetic::power2::pow2(e as nat),
    decreases e,
{
    proof {
        vstd::arithmetic::power2::lemma_pow2_pos(e as nat);
        vstd::arithmetic::power2::lemma2_to64();
        vstd::arithmetic::power2::lemma_pow2_strictly_increases(e as nat, 31);
    }
    if e == 0 {
        1
    } else {
        let half = pow2_exec(e - 1);
        proof {
            vstd::arithmetic::power2::lemma_pow2_unfold(e as nat);
        }
        2 * half
    }
}

/// Port for a raw classification backend: one call, one textual answer.
pub trait RawClassifier {
    /// Send the prompt and return the backend's raw text.
    fn call(&self, prompt: &str) -> Result<String, ClassifyError>;
}

/// Port for turning extracted JSON text into a classification.
pub trait OutputDecoder {
    /// Decode the JSON payload, or say why it does not parse.
    fn decode(&self, json: &str) -> Result<ClassifyOutput, String>;
}

/// Port for sleeping between retries.
pub trait Sleeper {
    /// Suspend the caller for this many milliseconds.
    fn sleep_ms(&mut self, ms: u64);
}

/// The outcome of one attempt, judged from the backend's raw answer: a
/// failed call is carried through as it came; an answered call has its JSON
/// payload extracted, an empty payload is a parse failure — never an empty
/// success — and anything else is the decoder's to accept or refuse.
pub fn attempt_outcome<D: OutputDecoder>(
    decoder: &D,
    call_result: Result<String, ClassifyError>,
) -> (r: AttemptOutcome)
    ensures
        (match call_result {
            Err(e) => r == AttemptOutcome::CallFailed(e),
            Ok(text) => !(r is CallFailed) && (extract_json_spec(text@).len() == 0 ==> (
            r matches AttemptOutcome::ParseFailed(m) && m@ == "Empty response"@)),
        }),
{
    match call_result {
        Ok(text) => {
            let payload = extract_json(text.as_str());
            if payload.unicode_len() == 0 {
                AttemptOutcome::ParseFailed(String::from_str("Empty response"))
            } else {
                match decoder.decode(payload.as_str()) {
                    Ok(output) => AttemptOutcome::Parsed(output),
                    Err(message) => AttemptOutcome::ParseFailed(message),
                }
            }
        },
        Err(e) => AttemptOutcome::CallFailed(e),
    }
}

/// Run the full retry orchestration around a backend: call, judge the
/// attempt with `attempt_outcome`, and follow `retry_decision` until it
/// returns.
pub fn classify_with_retries<B: RawClassifier, D: OutputDecoder, S: Sleeper>(
    backend: &B,
    decoder: &D,
    sleeper: &mut S,
    prompt: &str,
    retries: u32,
) -> (r: Result<ClassifyOutput, ClassifyError>)
    requires
        retries <= 30,
{
    let mut attempt: u32 = 0;
    loop
        invariant
            attempt <= retries <= 30,
        decreases retries - attempt,
    {
        let outcome = attempt_outcome(decoder, backend.call(prompt));
        match retry_decision(attempt, retries, outcome) {
            RetryDecision::Done(result) => {
                return result;
            },
            RetryDecision::RetryAfterMs(wait) => {
                sleeper.sleep_ms(wait);
            },
        }
        attempt = attempt + 1;
    }
}

} // verus!
