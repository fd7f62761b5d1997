//! Rendering: transforms classification output into platform-specific text.
//!
//! Rendering is pure and deterministic; every function's output is pinned by
//! a spec function over the views of its inputs.

use vstd::prelude::*;

use crate::model::{ClassifyOutput, OutputView, RenderedPost, SourcePost, TagMatch, TagMatchView,
    XPublishMode};
use crate::strutil::{dec_digit, dec_str, is_space, is_space_char, u64_dec};
use vstd::string::StringExecFns;

verus! {

/// Configuration for the renderer. Confidences are in hundredths.
pub struct RenderConfig {
    /// Character budget for posts on the length-constrained platform.
    pub x_max_chars: usize,
    /// Publishing mode on the length-constrained platform.
    pub x_publish_mode: XPublishMode,
    /// Whether to include confidence scores.
    pub include_confidence: bool,
    /// Whether to include a rationale line.
    pub include_rationale: bool,
    /// Minimum confidence (hundredths) for a tag to be rendered.
    pub min_confidence: u32,
}

impl RenderConfig {
    /// A copy of the configuration.
    pub fn duplicate(&self) -> (r: RenderConfig)
        ensures
            r == *self,
    {
        RenderConfig {
            x_max_chars: self.x_max_chars,
            x_publish_mode: self.x_publish_mode,
            include_confidence: self.include_confidence,
            include_rationale: self.include_rationale,
            min_confidence: self.min_confidence,
        }
    }
}

impl Default for RenderConfig {
    /// 280 characters, reply mode, confidences and rationale on, minimum
    /// confidence one half.
    fn default() -> (r: RenderConfig)
        ensures
            r.x_max_chars == 280,
            r.x_publish_mode == XPublishMode::Reply,
            r.include_confidence == true,
            r.include_rationale == true,
            r.min_confidence == 50,
    {
        RenderConfig {
            x_max_chars: 280,
            x_publish_mode: XPublishMode::Reply,
            include_confidence: true,
            include_rationale: true,
            min_confidence: 50,
        }
    }
}

/// The tags that clear the confidence threshold, in their original order.
pub open spec fn filtered_tags(tags: Seq<TagMatchView>, min: int) -> Seq<TagMatchView>
    decreases tags.len(),
{
    if tags.len() == 0 {
        Seq::empty()
    } else {
        let rest = filtered_tags(tags.drop_last(), min);
        if tags.last().confidence >= min {
            rest.push(tags.last())
        } else {
            rest
        }
    }
}

/// A confidence in hundredths rendered with two decimals: 85 is "0.85",
/// 100 is "1.00".
pub open spec fn conf_str(c: int) -> Seq<char> {
    dec_str(c / 100) + seq!['.', dec_digit((c / 10) % 10), dec_digit(c % 10)]
}

/// One tag as it appears in the tags line.
pub open spec fn tag_entry(t: TagMatchView, include_confidence: bool) -> Seq<char> {
    if include_confidence {
        t.id + " ("@ + conf_str(t.confidence) + ")"@
    } else {
        t.id
    }
}

/// Parts joined by a separator.
pub open spec fn join_with(parts: Seq<Seq<char>>, sep: Seq<char>) -> Seq<char>
    decreases parts.len(),
{
    if parts.len() == 0 {
        Seq::empty()
    } else if parts.len() == 1 {
        parts[0]
    } else {
        join_with(parts.drop_last(), sep) + sep + parts.last()
    }
}

/// The tags line: "Tags: " and the qualifying tags separated by commas, or
/// a fixed sentence when none qualifies.
pub open spec fn tags_line_spec(o: OutputView, min: int, include_confidence: bool) -> Seq<char> {
    let filtered = filtered_tags(o.tags, min);
    if filtered.len() == 0 {
        "Tags: (none detected)"@
    } else {
        "Tags: "@ + join_with(
            Seq::new(filtered.len(), |i: int| tag_entry(filtered[i], include_confidence)),
            ", "@,
        )
    }
}

/// The first tag that clears the threshold, scanning left to right.
pub open spec fn first_qualifying(tags: Seq<TagMatchView>, min: int) -> Option<TagMatchView>
    decreases tags.len(),
{
    if tags.len() == 0 {
        None
    } else if tags[0].confidence >= min {
        Some(tags[0])
    } else {
        first_qualifying(tags.drop_first(), min)
    }
}

/// The short rationale line: the first qualifying tag's rationale, cut hard
/// at 100 characters, or nothing.
pub open spec fn rationale_line_spec(o: OutputView, min: int, include_rationale: bool) -> Seq<
    char,
> {
    if !include_rationale {
        Seq::empty()
    } else {
        match first_qualifying(o.tags, min) {
            Some(t) => if t.rationale.len() > 100 {
                t.rationale.subrange(0, 97) + "..."@
            } else {
                t.rationale
            },
            None => Seq::empty(),
        }
    }
}

/// The index of the space nearest before `cut`, or -1 when no space
/// precedes it.
pub open spec fn last_space(s: Seq<char>, cut: int) -> int
    decreases cut,
{
    if cut <= 0 {
        -1
    } else if is_space(s[cut - 1]) {
        cut - 1
    } else {
        last_space(s, cut - 1)
    }
}

/// Where a truncation cut actually falls: at the space nearest before the
/// cut, or at the cut itself when no space precedes it.
pub open spec fn break_point(s: Seq<char>, cut: int) -> int {
    if last_space(s, cut) >= 0 {
        last_space(s, cut)
    } else {
        cut
    }
}

/// Truncation at a character budget: content that fits is unchanged;
/// otherwise the content is cut three characters short of the budget,
/// backed up to the nearest space so no word is broken, and "..." is
/// appended.
pub open spec fn truncate_spec(content: Seq<char>, max_len: int) -> Seq<char> {
    if content.len() <= max_len {
        content
    } else {
        let cut = if max_len >= 3 {
            max_len - 3
        } else {
            0
        };
        content.subrange(0, break_point(content, cut)) + "..."@
    }
}

/// The body rendered for the length-constrained platform, before any URL
/// handling: tags line, newline, rationale line.
pub open spec fn x_body_spec(o: OutputView, c: RenderConfig) -> Seq<char> {
    tags_line_spec(o, c.min_confidence as int, c.include_confidence) + "\n"@ + rationale_line_spec(
        o,
        c.min_confidence as int,
        c.include_rationale,
    )
}

/// The text rendered for the length-constrained platform. Reply and Quote
/// modes truncate the body to the whole budget and carry no URL; a new post
/// reserves room for a trailing URL line and appends it.
pub open spec fn x_text_spec(url: Seq<char>, o: OutputView, c: RenderConfig) -> Seq<char> {
    let body = x_body_spec(o, c);
    match c.x_publish_mode {
        XPublishMode::Reply => truncate_spec(body, c.x_max_chars as int),
        XPublishMode::Quote => truncate_spec(body, c.x_max_chars as int),
        XPublishMode::NewPost => {
            let reserved = url.len() + 1;
            let available = if c.x_max_chars >= reserved {
                c.x_max_chars - reserved
            } else {
                0
            };
            truncate_spec(body, available as int) + "\n"@ + url
        },
    }
}

/// One bullet of the full rationale list.
pub open spec fn bullet_entry(t: TagMatchView) -> Seq<char> {
    "\u{2022} "@ + t.id + ": "@ + t.rationale
}

/// The full rationale list for the unconstrained platform: one bullet per
/// qualifying tag, or a fixed sentence when none qualifies.
pub open spec fn full_rationale_spec(o: OutputView, min: int) -> Seq<char> {
    let filtered = filtered_tags(o.tags, min);
    if filtered.len() == 0 {
        "No significant narrative patterns detected."@
    } else {
        join_with(Seq::new(filtered.len(), |i: int| bullet_entry(filtered[i])), "\n"@)
    }
}

/// The text rendered for the unconstrained platform: header with the
/// author, tags line, full rationale, and the original URL. No length limit
/// applies.
pub open spec fn nostr_text_spec(author: Seq<char>, url: Seq<char>, o: OutputView, c: RenderConfig) -> Seq<char> {
    "Narrative analysis of "@ + author + "\n\n"@ + tags_line_spec(
        o,
        c.min_confidence as int,
        c.include_confidence,
    ) + "\n\n"@ + full_rationale_spec(o, c.min_confidence as int) + "\n\nOriginal: "@ + url
}

/// Renderer for transforming classification output.
pub struct Renderer {
    config: RenderConfig,
}

impl Renderer {
    /// The renderer's configuration.
    pub closed spec fn cfg(self) -> RenderConfig {
        self.config
    }

    /// Create a renderer with the given configuration.
    pub fn new(config: RenderConfig) -> (r: Renderer)
        ensures
            r.cfg() == config,
    {
        Renderer { config }
    }

    /// Render classification output for the length-constrained platform.
    pub fn render_for_x(&self, post: &SourcePost, classification: &ClassifyOutput) -> (r:
        RenderedPost)
        ensures
            r@.text == x_text_spec(post@.url, classification@, self.cfg()),
            r@.source_post_id == post@.id,
            r@.source_post_url == post@.url,
    {
        let tags_line = self.format_tags_line(classification);
        let rationale_line = self.format_rationale_line(classification);
        let mut body = tags_line;
        body.append("\n");
        body.append(rationale_line.as_str());
        let content = match self.config.x_publish_mode {
            XPublishMode::Reply => self.truncate_for_x(body.as_str()),
            XPublishMode::Quote => self.truncate_for_x(body.as_str()),
            XPublishMode::NewPost => {
                let url_len = post.url.unicode_len();
                let reserved = if url_len < usize::MAX {
                    url_len + 1
                } else {
                    usize::MAX
                };
                let available = if self.config.x_max_chars >= reserved {
                    self.config.x_max_chars - reserved
                } else {
                    0
                };
                let mut main_content = truncate_to_length(body.as_str(), available);
                main_content.append("\n");
                main_content.append(post.url.as_str());
                main_content
            },
        };
        RenderedPost {
            text: content,
            source_post_id: post.id.clone(),
            source_post_url: post.url.clone(),
        }
    }

    /// Render classification output for the unconstrained platform.
    pub fn render_for_nostr(&self, post: &SourcePost, classification: &ClassifyOutput) -> (r:
        RenderedPost)
        ensures
            r@.text == nostr_text_spec(post@.author, post@.url, classification@, self.cfg()),
            r@.source_post_id == post@.id,
            r@.source_post_url == post@.url,
    {
        let tags_line = self.format_tags_line(classification);
        let rationale = self.format_full_rationale(classification);
        let mut content = String::from_str("Narrative analysis of ");
        content.append(post.author.as_str());
        content.append("\n\n");
        content.append(tags_line.as_str());
        content.append("\n\n");
        content.append(rationale.as_str());
        content.append("\n\nOriginal: ");
        content.append(post.url.as_str());
        RenderedPost {
            text: content,
            source_post_id: post.id.clone(),
            source_post_url: post.url.clone(),
        }
    }

    /// Format the tags line.
    pub fn format_tags_line(&self, classification: &ClassifyOutput) -> (r: String)
        ensures
            r@ == tags_line_spec(
                classification@,
                self.cfg().min_confidence as int,
                self.cfg().include_confidence,
            ),
    {
        let tags = &classification.tags;
        let n = tags.len();
        let mut line = String::from_str("Tags: ");
        let mut count: usize = 0;
        let mut i: usize = 0;
        let ghost tv = classification.tags.deep_view();
        let ghost min = self.cfg().min_confidence as int;
        let ghost inc = self.cfg().include_confidence;
        while i < n
            invariant
                n == tags@.len(),
                tv == tags.deep_view(),
                min == self.cfg().min_confidence as int,
                inc == self.cfg().include_confidence,
                i <= n,
                count <= i,
                count == filtered_tags(tv.subrange(0, i as int), min).len(),
                count > 0 ==> line@ == "Tags: "@ + join_with(
                    Seq::new(
                        filtered_tags(tv.subrange(0, i as int), min).len(),
                        |k: int| tag_entry(filtered_tags(tv.subrange(0, i as int), min)[k], inc),
                    ),
                    ", "@,
                ),
                count == 0 ==> line@ == "Tags: "@ && filtered_tags(tv.subrange(0, i as int), min)
                    =~= Seq::<TagMatchView>::empty(),
            decreases n - i,
        {
            let ghost pre_f = filtered_tags(tv.subrange(0, i as int), min);
            proof {
                assert(tv.subrange(0, i as int + 1).drop_last() =~= tv.subrange(0, i as int));
                assert(tv.subrange(0, i as int + 1).last() == tv[i as int]);
                assert(tv[i as int] == tags@[i as int]@);
            }
            let t = &tags[i];
            if t.confidence >= self.config.min_confidence {
                if count > 0 {
                    line.append(", ");
                }
                let entry = format_tag_entry(t, self.config.include_confidence);
                line.append(entry.as_str());
                proof {
                    let cur_f = filtered_tags(tv.subrange(0, i as int + 1), min);
                    assert(cur_f == pre_f.push(t@));
                    let entries = Seq::new(cur_f.len(), |k: int| tag_entry(cur_f[k], inc));
                    assert(entries.drop_last() =~= Seq::new(
                        pre_f.len(),
                        |k: int| tag_entry(pre_f[k], inc),
                    ));
                    assert(entries.last() == tag_entry(t@, inc));
                    if count == 0 {
                        assert(entries.len() == 1);
                        assert(line@ =~= "Tags: "@ + join_with(entries, ", "@));
                    } else {
                        assert(line@ =~= "Tags: "@ + join_with(entries, ", "@));
                    }
                }
                count = count + 1;
            } else {
                proof {
                    assert(filtered_tags(tv.subrange(0, i as int + 1), min) == pre_f);
                }
            }
            i = i + 1;
        }
        proof {
            assert(tv.subrange(0, n as int) =~= tv);
        }
        if count == 0 {
            String::from_str("Tags: (none detected)")
        } else {
            line
        }
    }

    /// Format the short rationale line: the first qualifying tag's
    /// rationale, cut hard at 100 characters.
    pub fn format_rationale_line(&self, classification: &ClassifyOutput) -> (r: String)
        ensures
            r@ == rationale_line_spec(
                classification@,
                self.cfg().min_confidence as int,
                self.cfg().include_rationale,
            ),
    {
        if !self.config.include_rationale {
            return String::new();
        }
        let tags = &classification.tags;
        let n = tags.len();
        let ghost tv = classification.tags.deep_view();
        let ghost min = self.cfg().min_confidence as int;
        let mut i: usize = 0;
        proof {
            assert(tv.skip(0) =~= tv);
        }
        while i < n
            invariant
                n == tags@.len(),
                tv == tags.deep_view(),
                tv == classification.tags.deep_view(),
                min == self.cfg().min_confidence as int,
                self.cfg().include_rationale,
                i <= n,
                first_qualifying(tv, min) == first_qualifying(tv.skip(i as int), min),
            decreases n - i,
        {
            proof {
                assert(tv.skip(i as int)[0] == tv[i as int]);
                assert(tv[i as int] == tags@[i as int]@);
                assert(tv.skip(i as int).drop_first() =~= tv.skip(i as int + 1));
            }
            let t = &tags[i];
            if t.confidence >= self.config.min_confidence {
                proof {
                    assert(tv[i as int].confidence >= min);
                    assert(first_qualifying(tv.skip(i as int), min) == Some(tv[i as int]));
                    assert(first_qualifying(tv, min) == Some(tv[i as int]));
                    assert(tv[i as int].rationale == t.rationale@);
                }
                let len = t.rationale.unicode_len();
                if len > 100 {
                    let mut cutr = String::from_str(t.rationale.as_str().substring_char(0, 97));
                    cutr.append("...");
                    return cutr;
                } else {
                    return t.rationale.clone();
                }
            }
            i = i + 1;
        }
        proof {
            assert(tv.skip(n as int).len() == 0);
        }
        String::new()
    }

    /// Format the full rationale list for the unconstrained platform.
    pub fn format_full_rationale(&self, classification: &ClassifyOutput) -> (r: String)
        ensures
            r@ == full_rationale_spec(classification@, self.cfg().min_confidence as int),
    {
        let tags = &classification.tags;
        let n = tags.len();
        let mut out = String::new();
        let mut count: usize = 0;
        let mut i: usize = 0;
        let ghost tv = classification.tags.deep_view();
        let ghost min = self.cfg().min_confidence as int;
        while i < n
            invariant
                n == tags@.len(),
                tv == tags.deep_view(),
                min == self.cfg().min_confidence as int,
                i <= n,
                count <= i,
                count == filtered_tags(tv.subrange(0, i as int), min).len(),
                count > 0 ==> out@ == join_with(
                    Seq::new(
                        filtered_tags(tv.subrange(0, i as int), min).len(),
                        |k: int| bullet_entry(filtered_tags(tv.subrange(0, i as int), min)[k]),
                    ),
                    "\n"@,
                ),
                count == 0 ==> out@ == Seq::<char>::empty() && filtered_tags(
                    tv.subrange(0, i as int),
                    min,
                ) =~= Seq::<TagMatchView>::empty(),
            decreases n - i,
        {
            let ghost pre_f = filtered_tags(tv.subrange(0, i as int), min);
            proof {
                assert(tv.subrange(0, i as int + 1).drop_last() =~= tv.subrange(0, i as int));
                assert(tv.subrange(0, i as int + 1).last() == tv[i as int]);
                assert(tv[i as int] == tags@[i as int]@);
            }
            let t = &tags[i];
            if t.confidence >= self.config.min_confidence {
                if count > 0 {
                    out.append("\n");
                }
                out.append("\u{2022} ");
                out.append(t.id.as_str());
                out.append(": ");
                out.append(t.rationale.as_str());
                proof {
                    let cur_f = filtered_tags(tv.subrange(0, i as int + 1), min);
                    assert(cur_f == pre_f.push(t@));
                    let entries = Seq::new(cur_f.len(), |k: int| bullet_entry(cur_f[k]));
                    assert(entries.drop_last() =~= Seq::new(
                        pre_f.len(),
                        |k: int| bullet_entry(pre_f[k]),
                    ));
                    assert(entries.last() == bullet_entry(t@));
                    assert(out@ =~= join_with(entries, "\n"@));
                }
                count = count + 1;
            } else {
                proof {
                    assert(filtered_tags(tv.subrange(0, i as int + 1), min) == pre_f);
                }
            }
            i = i + 1;
        }
        proof {
            assert(tv.subrange(0, n as int) =~= tv);
        }
        if count == 0 {
            String::from_str("No significant narrative patterns detected.")
        } else {
            out
        }
    }

    /// Truncate content to the configured character budget.
    fn truncate_for_x(&self, content: &str) -> (r: String)
        ensures
            r@ == truncate_spec(content@, self.cfg().x_max_chars as int),
    {
        truncate_to_length(content, self.config.x_max_chars)
    }
}

/// One tag as it appears in the tags line.
fn format_tag_entry(t: &TagMatch, include_confidence: bool) -> (r: String)
    ensures
        r@ == tag_entry(t@, include_confidence),
{
    if include_confidence {
        let mut s = t.id.clone();
        s.append(" (");
        let whole = u64_dec((t.confidence / 100) as u64);
        s.append(whole.as_str());
        crate::strutil::push_char(&mut s, '.');
        crate::strutil::push_char(
            &mut s,
            crate::strutil::dec_digit_char(((t.confidence / 10) % 10) as u64),
        );
        crate::strutil::push_char(&mut s, crate::strutil::dec_digit_char((t.confidence % 10) as u64));
        s.append(")");
        proof {
            assert(s@ =~= tag_entry(t@, include_confidence));
        }
        s
    } else {
        t.id.clone()
    }
}

/// Truncate to a character budget, preserving word boundaries.
pub fn truncate_to_length(content: &str, max_len: usize) -> (r: String)
    ensures
        r@ == truncate_spec(content@, max_len as int),
{
    let n = content.unicode_len();
    if n <= max_len {
        return String::from_str(content);
    }
    let cut = if max_len >= 3 {
        max_len - 3
    } else {
        0
    };
    let mut j: usize = cut;
    let mut bp: usize = cut;
    let mut found = false;
    while j > 0 && !found
        invariant
            n == content@.len(),
            cut < n,
            j <= cut,
            !found ==> bp == cut && last_space(content@, cut as int) == last_space(
                content@,
                j as int,
            ),
            found ==> bp == break_point(content@, cut as int) && bp <= cut,
        decreases (if found { 0int } else { j as int + 1 }),
    {
        if is_space_char(content.get_char(j - 1)) {
            bp = j - 1;
            found = true;
            proof {
                assert(last_space(content@, j as int) == j - 1);
            }
        } else {
            proof {
                assert(last_space(content@, j as int) == last_space(content@, j as int - 1));
            }
            j = j - 1;
        }
    }
    proof {
        if !found {
            assert(last_space(content@, 0) == -1);
            assert(break_point(content@, cut as int) == cut);
        }
    }
    let mut out = String::from_str(content.substring_char(0, bp));
    out.append("...");
    out
}

/// A space found by `last_space` always lies before its cut.
pub proof fn lemma_last_space_bound(s: Seq<char>, cut: int)
    requires
        cut >= 0,
    ensures
        last_space(s, cut) < cut || cut == 0,
        last_space(s, cut) >= -1,
    decreases cut,
{
    if cut > 0 {
        lemma_last_space_bound(s, cut - 1);
    }
}

/// Truncation respects its budget: with a budget of at least three
/// characters, the truncated text is never longer than the budget.
pub proof fn lemma_truncate_length_bound(content: Seq<char>, max_len: int)
    requires
        max_len >= 3,
    ensures
        truncate_spec(content, max_len).len() <= max_len,
{
    reveal_strlit("...");
    if content.len() > max_len {
        lemma_last_space_bound(content, max_len - 3);
    }
}

/// The rendered output for a length-constrained platform never exceeds the
/// configured character budget, whatever the tags and rationales hold: in
/// Reply and Quote modes any budget of at least three characters is
/// respected, and in NewPost mode any budget that leaves at least three
/// characters beyond the URL line is.
pub proof fn lemma_render_length_bound(url: Seq<char>, o: OutputView, c: RenderConfig)
    requires
        c.x_publish_mode is Reply || c.x_publish_mode is Quote ==> c.x_max_chars >= 3,
        c.x_publish_mode is NewPost ==> c.x_max_chars >= url.len() + 4,
    ensures
        x_text_spec(url, o, c).len() <= c.x_max_chars,
{
    reveal_strlit("\n");
    let body = x_body_spec(o, c);
    match c.x_publish_mode {
        XPublishMode::Reply => lemma_truncate_length_bound(body, c.x_max_chars as int),
        XPublishMode::Quote => lemma_truncate_length_bound(body, c.x_max_chars as int),
        XPublishMode::NewPost => {
            let available = c.x_max_chars - url.len() - 1;
            lemma_truncate_length_bound(body, available as int);
        },
    }
}

/// Reply and Quote modes render nothing of the source URL: their output is
/// the same whatever the URL is.
pub proof fn lemma_reply_quote_ignore_url(
    url1: Seq<char>,
    url2: Seq<char>,
    o: OutputView,
    c: RenderConfig,
)
    requires
        c.x_publish_mode is Reply || c.x_publish_mode is Quote,
    ensures
        x_text_spec(url1, o, c) == x_text_spec(url2, o, c),
{
}

/// NewPost mode always carries the source URL: the output ends with a
/// newline and the URL.
pub proof fn lemma_new_post_carries_url(url: Seq<char>, o: OutputView, c: RenderConfig)
    requires
        c.x_publish_mode is NewPost,
    ensures
        ("\n"@ + url).is_suffix_of(x_text_spec(url, o, c)),
{
    let t = x_text_spec(url, o, c);
    let body = x_body_spec(o, c);
    let reserved = url.len() + 1;
    let available: int = if c.x_max_chars >= reserved {
        c.x_max_chars - reserved
    } else {
        0
    };
    let head = truncate_spec(body, available);
    assert(t == head + "\n"@ + url);
    assert(("\n"@ + url).is_suffix_of(t)) by {
        assert(t.subrange(head.len() as int, t.len() as int) =~= "\n"@ + url);
    }
}

} // verus!
