//! Policy and safety constraints on classification outputs.

use vstd::prelude::*;

use crate::model::{clone_strings, ClassifyOutput, OutputView, TagMatch, TagMatchView};
use crate::render::{conf_str, filtered_tags};
use crate::strutil::{contains_seq, contains_str, dec_str, lower_of, lowercase, u64_dec};
use vstd::string::StringExecFns;

verus! {

/// Policy configuration. Confidences are in hundredths.
pub struct PolicyConfig {
    /// Maximum tags to keep in an output.
    pub max_tags: Option<usize>,
    /// Minimum confidence threshold, in hundredths.
    pub min_confidence: Option<u32>,
    /// Maximum rationale length, in characters; at least three.
    pub max_rationale_length: Option<usize>,
    /// Forbidden words in output, matched case-insensitively.
    pub forbidden_patterns: Vec<String>,
}

impl Default for PolicyConfig {
    /// No limits and no forbidden patterns.
    fn default() -> (r: PolicyConfig)
        ensures
            r.max_tags is None,
            r.min_confidence is None,
            r.max_rationale_length is None,
            r.forbidden_patterns@.len() == 0,
    {
        PolicyConfig {
            max_tags: None,
            min_confidence: None,
            max_rationale_length: None,
            forbidden_patterns: Vec::new(),
        }
    }
}

/// Policy violation errors.
#[derive(Debug)]
pub enum PolicyViolation {
    /// A forbidden pattern was found in the given context.
    ForbiddenPattern { pattern: String, context: String },
}

/// The message a policy violation carries.
pub open spec fn policy_violation_message(v: PolicyViolation) -> Seq<char> {
    match v {
        PolicyViolation::ForbiddenPattern { pattern, context } => "Forbidden pattern '"@ + pattern@
            + "' found in "@ + context@,
    }
}

impl PolicyViolation {
    /// Render the violation as text.
    pub fn message(&self) -> (r: String)
        ensures
            r@ == policy_violation_message(*self),
    {
        match self {
            PolicyViolation::ForbiddenPattern { pattern, context } => {
                let mut s = String::from_str("Forbidden pattern '");
                s.append(pattern.as_str());
                s.append("' found in ");
                s.append(context.as_str());
                s
            },
        }
    }
}

/// Whether a pattern occurs, lowercased, in the summary.
pub open spec fn summary_violates(o: OutputView, p: Seq<char>) -> bool {
    contains_seq(lower_of(o.summary), lower_of(p))
}

/// The first tag whose rationale holds the lowercased pattern, scanning
/// left to right.
pub open spec fn first_violating_tag(tags: Seq<TagMatchView>, p: Seq<char>) -> Option<
    TagMatchView,
>
    decreases tags.len(),
{
    if tags.len() == 0 {
        None
    } else if contains_seq(lower_of(tags[0].rationale), lower_of(p)) {
        Some(tags[0])
    } else {
        first_violating_tag(tags.drop_first(), p)
    }
}

/// The context of a tag violation.
pub open spec fn tag_context(t: TagMatchView) -> Seq<char> {
    "tag "@ + t.id + " rationale"@
}

/// The first policy violation: patterns are checked in order, the summary
/// before the tag rationales.
pub open spec fn first_violation(o: OutputView, patterns: Seq<Seq<char>>) -> Option<
    (Seq<char>, Seq<char>),
>
    decreases patterns.len(),
{
    if patterns.len() == 0 {
        None
    } else if summary_violates(o, patterns[0]) {
        Some((patterns[0], "summary"@))
    } else {
        match first_violating_tag(o.tags, patterns[0]) {
            Some(t) => Some((patterns[0], tag_context(t))),
            None => first_violation(o, patterns.drop_first()),
        }
    }
}

/// A rationale truncated to the configured budget: a long one is cut three
/// short and given a trailing ellipsis.
pub open spec fn truncate_rationale(t: TagMatchView, max_len: Option<usize>) -> TagMatchView {
    match max_len {
        Some(m) => if t.rationale.len() > m {
            TagMatchView { rationale: t.rationale.subrange(0, m - 3) + "..."@, ..t }
        } else {
            t
        },
        None => t,
    }
}

/// The tags kept by the confidence threshold, if one is set.
pub open spec fn confidence_kept(tags: Seq<TagMatchView>, min: Option<u32>) -> Seq<TagMatchView> {
    match min {
        Some(m) => filtered_tags(tags, m as int),
        None => tags,
    }
}

/// The sanitized output: tags below the confidence threshold dropped, the
/// list cut to the maximum count, and rationales truncated.
pub open spec fn sanitized_spec(
    o: OutputView,
    min: Option<u32>,
    max_tags: Option<usize>,
    max_len: Option<usize>,
) -> OutputView {
    let kept = confidence_kept(o.tags, min);
    let cut = match max_tags {
        Some(m) => if kept.len() > m {
            kept.take(m as int)
        } else {
            kept
        },
        None => kept,
    };
    OutputView {
        tags: Seq::new(cut.len(), |i: int| truncate_rationale(cut[i], max_len)),
        ..o
    }
}

/// Policy validator for classification outputs.
pub struct PolicyValidator {
    config: PolicyConfig,
}

impl PolicyValidator {
    /// The validator's configuration.
    pub closed spec fn cfg(self) -> PolicyConfig {
        self.config
    }

    /// Create a validator with the given configuration.
    pub fn new(config: PolicyConfig) -> (r: PolicyValidator)
        ensures
            r.cfg() == config,
    {
        PolicyValidator { config }
    }

    /// Validate and sanitize a classification output: the first forbidden
    /// pattern found (case-insensitively, summary before rationales) is a
    /// violation; otherwise low-confidence tags are dropped, the tag list is
    /// capped, and rationales are truncated to the configured budget.
    pub fn validate(&self, output: &ClassifyOutput) -> (r: Result<ClassifyOutput, PolicyViolation>)
        requires
            self.cfg().max_rationale_length matches Some(m) ==> m >= 3,
        ensures
            match r {
                Ok(s) => first_violation(output@, self.cfg().forbidden_patterns.deep_view())
                    is None && s@ == sanitized_spec(
                    output@,
                    self.cfg().min_confidence,
                    self.cfg().max_tags,
                    self.cfg().max_rationale_length,
                ),
                Err(v) => match v {
                    PolicyViolation::ForbiddenPattern { pattern, context } => first_violation(
                        output@,
                        self.cfg().forbidden_patterns.deep_view(),
                    ) == Some((pattern@, context@)),
                },
            },
    {
        let patterns = &self.config.forbidden_patterns;
        let pn = patterns.len();
        let ghost pv = patterns.deep_view();
        let mut p: usize = 0;
        proof {
            assert(pv.skip(0) =~= pv);
        }
        while p < pn
            invariant
                pn == patterns@.len(),
                pv == patterns.deep_view(),
                pv == self.cfg().forbidden_patterns.deep_view(),
                p <= pn,
                first_violation(output@, pv) == first_violation(output@, pv.skip(p as int)),
            decreases pn - p,
        {
            proof {
                assert(pv.skip(p as int)[0] == pv[p as int]);
                assert(pv[p as int] == patterns@[p as int]@);
                assert(pv.skip(p as int).drop_first() =~= pv.skip(p as int + 1));
            }
            let pattern = &patterns[p];
            let pattern_lower = lowercase(pattern.as_str());
            let summary_lower = lowercase(output.summary.as_str());
            if contains_str(summary_lower.as_str(), pattern_lower.as_str()) {
                return Err(
                    PolicyViolation::ForbiddenPattern {
                        pattern: pattern.clone(),
                        context: String::from_str("summary"),
                    },
                );
            }
            let tags = &output.tags;
            let tn = tags.len();
            let ghost tv = output.tags.deep_view();
            let mut t: usize = 0;
            proof {
                assert(tv.skip(0) =~= tv);
            }
            while t < tn
                invariant
                    tn == tags@.len(),
                    tv == tags.deep_view(),
                    tv == output.tags.deep_view(),
                    t <= tn,
                    pn == patterns@.len(),
                    pv == patterns.deep_view(),
                    pv == self.cfg().forbidden_patterns.deep_view(),
                    p < pn,
                    pattern_lower@ == lower_of(pv[p as int]),
                    pattern@ == pv[p as int],
                    pattern@ == patterns@[p as int]@,
                    !summary_violates(output@, pv[p as int]),
                    first_violation(output@, pv) == first_violation(output@, pv.skip(p as int)),
                    first_violating_tag(tv, pv[p as int]) == first_violating_tag(
                        tv.skip(t as int),
                        pv[p as int],
                    ),
                decreases tn - t,
            {
                proof {
                    assert(tv.skip(t as int)[0] == tv[t as int]);
                    assert(tv[t as int] == tags@[t as int]@);
                    assert(tv.skip(t as int).drop_first() =~= tv.skip(t as int + 1));
                }
                let tag = &tags[t];
                let rationale_lower = lowercase(tag.rationale.as_str());
                if contains_str(rationale_lower.as_str(), pattern_lower.as_str()) {
                    let mut context = String::from_str("tag ");
                    context.append(tag.id.as_str());
                    context.append(" rationale");
                    proof {
                        assert(first_violating_tag(tv, pv[p as int]) == Some(tv[t as int]));
                        assert(context@ == tag_context(tv[t as int]));
                        assert(pv.skip(p as int)[0] == pv[p as int]);
                        assert(first_violation(output@, pv.skip(p as int)) == Some(
                            (pv[p as int], tag_context(tv[t as int])),
                        ));
                    }
                    return Err(
                        PolicyViolation::ForbiddenPattern { pattern: pattern.clone(), context },
                    );
                }
                t = t + 1;
            }
            proof {
                assert(tv.skip(tn as int).len() == 0);
                assert(first_violating_tag(tv, pv[p as int]) is None);
            }
            p = p + 1;
        }
        proof {
            assert(pv.skip(pn as int).len() == 0);
        }

        // filter by confidence
        let tags = &output.tags;
        let tn = tags.len();
        let ghost tv = output.tags.deep_view();
        let mut kept: Vec<TagMatch> = Vec::new();
        match self.config.min_confidence {
            Some(min_conf) => {
                let mut t: usize = 0;
                proof {
                    assert(tv.subrange(0, 0) =~= Seq::<TagMatchView>::empty());
                    assert(kept.deep_view() =~= filtered_tags(tv.subrange(0, 0), min_conf as int));
                }
                while t < tn
                    invariant
                        tn == tags@.len(),
                        tv == tags.deep_view(),
                        t <= tn,
                        kept.deep_view() == filtered_tags(tv.subrange(0, t as int), min_conf as int),
                    decreases tn - t,
                {
                    proof {
                        let cur = tv.subrange(0, t as int + 1);
                        assert(cur.drop_last() =~= tv.subrange(0, t as int));
                        assert(cur.last() == tv[t as int]);
                        assert(tv[t as int] == tags@[t as int]@);
                    }
                    if tags[t].confidence >= min_conf {
                        let ghost prev = kept@;
                        let ghost prev_dv = kept.deep_view();
                        kept.push(tags[t].duplicate());
                        proof {
                            crate::strutil::lemma_deep_view_push(
                                kept,
                                prev,
                                kept@[prev.len() as int],
                            );
                            assert(Seq::new(prev.len(), |m: int| prev[m].deep_view())
                                =~= prev_dv);
                            assert(kept.deep_view() =~= prev_dv.push(tv[t as int]));
                        }
                    }
                    t = t + 1;
                }
                proof {
                    assert(tv.subrange(0, tn as int) =~= tv);
                }
            },
            None => {
                kept = crate::model::clone_tags(&output.tags);
            },
        }

        // cap the number of tags
        let ghost kept_v = kept.deep_view();
        match self.config.max_tags {
            Some(m) => {
                if kept.len() > m {
                    kept.truncate(m);
                    proof {
                        assert forall|idx: int| 0 <= idx < kept@.len() implies kept.deep_view()[idx]
                            == kept_v.take(m as int)[idx] by {
                            assert(kept.deep_view()[idx] == kept@[idx]@);
                        }
                        assert(kept.deep_view() =~= kept_v.take(m as int));
                    }
                }
            },
            None => {},
        }

        // truncate rationales
        let ghost cut_v = kept.deep_view();
        let kn = kept.len();
        let mut out_tags: Vec<TagMatch> = Vec::new();
        match self.config.max_rationale_length {
            Some(max_len) => {
                let mut t: usize = 0;
                proof {
                    assert(out_tags.deep_view() =~= Seq::new(
                        0,
                        |i: int| truncate_rationale(cut_v[i], Some(max_len)),
                    ));
                }
                while t < kn
                    invariant
                        kn == kept@.len(),
                        cut_v == kept.deep_view(),
                        max_len >= 3,
                        t <= kn,
                        out_tags@.len() == t,
                        out_tags.deep_view() =~= Seq::new(
                            t as nat,
                            |i: int| truncate_rationale(cut_v[i], Some(max_len)),
                        ),
                    decreases kn - t,
                {
                    proof {
                        assert(cut_v[t as int] == kept@[t as int]@);
                    }
                    let tag = &kept[t];
                    let rn = tag.rationale.unicode_len();
                    let new_tag: TagMatch = if rn > max_len {
                        let mut cutr = String::from_str(
                            tag.rationale.as_str().substring_char(0, max_len - 3),
                        );
                        cutr.append("...");
                        TagMatch {
                            id: tag.id.clone(),
                            confidence: tag.confidence,
                            rationale: cutr,
                            evidence: clone_strings(&tag.evidence),
                        }
                    } else {
                        tag.duplicate()
                    };
                    proof {
                        assert(new_tag@.evidence =~= cut_v[t as int].evidence);
                        assert(new_tag@ == truncate_rationale(cut_v[t as int], Some(max_len)));
                    }
                    let ghost prev = out_tags@;
                    let ghost prev_dv = out_tags.deep_view();
                    out_tags.push(new_tag);
                    proof {
                        crate::strutil::lemma_deep_view_push(
                            out_tags,
                            prev,
                            out_tags@[prev.len() as int],
                        );
                        assert(Seq::new(prev.len(), |m: int| prev[m].deep_view()) =~= prev_dv);
                        assert(out_tags.deep_view() =~= Seq::new(
                            (t + 1) as nat,
                            |i: int| truncate_rationale(cut_v[i], Some(max_len)),
                        ));
                    }
                    t = t + 1;
                }
            },
            None => {
                out_tags = kept;
                proof {
                    assert(out_tags.deep_view() =~= Seq::new(
                        cut_v.len(),
                        |i: int| truncate_rationale(cut_v[i], None),
                    ));
                }
            },
        }

        let sanitized = ClassifyOutput {
            version: output.version.clone(),
            summary: output.summary.clone(),
            tags: out_tags,
        };
        proof {
            assert(sanitized@.tags =~= sanitized_spec(
                output@,
                self.cfg().min_confidence,
                self.cfg().max_tags,
                self.cfg().max_rationale_length,
            ).tags);
        }
        Ok(sanitized)
    }

    /// Generate the policy text for an LLM prompt.
    pub fn generate_policy_prompt(&self) -> (r: String)
        ensures
            r@ == policy_prompt_spec(self.cfg().max_tags, self.cfg().min_confidence),
    {
        let mut s = String::from_str(
            "Output Policy:\n- Be objective and neutral in rationales\n- Evidence must be direct quotes from the post\n- Do not make claims about intent or motivation",
        );
        match self.config.max_tags {
            Some(m) => {
                s.append("\n- Maximum ");
                let d = u64_dec(m as u64);
                s.append(d.as_str());
                s.append(" tags per classification");
            },
            None => {},
        }
        match self.config.min_confidence {
            Some(c) => {
                s.append("\n- Only include tags with confidence >= ");
                let whole = u64_dec((c / 100) as u64);
                s.append(whole.as_str());
                crate::strutil::push_char(&mut s, '.');
                crate::strutil::push_char(
                    &mut s,
                    crate::strutil::dec_digit_char(((c / 10) % 10) as u64),
                );
                crate::strutil::push_char(&mut s, crate::strutil::dec_digit_char((c % 10) as u64));
            },
            None => {},
        }
        proof {
            assert(s@ =~= policy_prompt_spec(self.cfg().max_tags, self.cfg().min_confidence));
        }
        s
    }
}

/// The policy prompt: the fixed rules, then the optional tag-count and
/// confidence lines.
pub open spec fn policy_prompt_spec(max_tags: Option<usize>, min_confidence: Option<u32>) -> Seq<
    char,
> {
    "Output Policy:\n- Be objective and neutral in rationales\n- Evidence must be direct quotes from the post\n- Do not make claims about intent or motivation"@
        + (match max_tags {
        Some(m) => "\n- Maximum "@ + dec_str(m as int) + " tags per classification"@,
        None => Seq::<char>::empty(),
    }) + (match min_confidence {
        Some(c) => "\n- Only include tags with confidence >= "@ + conf_str(c as int),
        None => Seq::<char>::empty(),
    })
}

} // verus!
