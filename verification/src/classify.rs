//! Classification use case: relevance prefiltering around a pluggable
//! classifier port.

use vstd::prelude::*;

use crate::model::{clone_opt_string, ClassifyInput, ClassifyOutput, DefView, SourcePost,
    TagDefinition};
use crate::ports::{Classifier, ClassifyError};
use crate::strutil::{contains_seq, contains_str, lower_of, lowercase, split_words, words_of};

verus! {

/// Configuration for the classify use case.
pub struct ClassifyConfig {
    /// Maximum definitions to send to the classifier (all when absent).
    pub prefilter_top_k: Option<usize>,
    /// Policy/guardrails text to include in the prompt.
    pub policy_text: Option<String>,
    /// Maximum output characters.
    pub max_output_chars: Option<usize>,
}

impl ClassifyConfig {
    /// A copy of the configuration.
    pub fn duplicate(&self) -> (r: ClassifyConfig)
        ensures
            r.prefilter_top_k == self.prefilter_top_k,
            r.policy_text.deep_view() == self.policy_text.deep_view(),
            r.max_output_chars == self.max_output_chars,
    {
        ClassifyConfig {
            prefilter_top_k: self.prefilter_top_k,
            policy_text: clone_opt_string(&self.policy_text),
            max_output_chars: self.max_output_chars,
        }
    }
}

impl Default for ClassifyConfig {
    /// Twelve definitions pass the prefilter; no policy text, no output
    /// bound.
    fn default() -> (r: ClassifyConfig)
        ensures
            r.prefilter_top_k == Some(12usize),
            r.policy_text is None,
            r.max_output_chars is None,
    {
        ClassifyConfig { prefilter_top_k: Some(12), policy_text: None, max_output_chars: None }
    }
}

/// How many aliases occur (lowercased) in the lowercased post.
pub open spec fn count_alias_matches(post_lower: Seq<char>, aliases: Seq<Seq<char>>) -> int
    decreases aliases.len(),
{
    if aliases.len() == 0 {
        0
    } else {
        count_alias_matches(post_lower, aliases.drop_last()) + if contains_seq(
            post_lower,
            lower_of(aliases.last()),
        ) {
            1int
        } else {
            0int
        }
    }
}

/// How many words longer than `min_len` occur (lowercased) in the
/// lowercased post.
pub open spec fn count_word_matches(post_lower: Seq<char>, words: Seq<Seq<char>>, min_len: int) -> int
    decreases words.len(),
{
    if words.len() == 0 {
        0
    } else {
        count_word_matches(post_lower, words.drop_last(), min_len) + if words.last().len()
            > min_len && contains_seq(post_lower, lower_of(words.last())) {
            1int
        } else {
            0int
        }
    }
}

/// The keyword-overlap relevance score of a definition against the
/// lowercased post text, in hundredths: a title match counts one whole
/// point, each alias match half a point, each short-description word longer
/// than three characters a tenth, and each content word longer than four
/// characters three hundredths.
pub open spec fn relevance_score_spec(post_lower: Seq<char>, d: DefView) -> int {
    (if contains_seq(post_lower, lower_of(d.title)) {
        100int
    } else {
        0int
    }) + 50 * count_alias_matches(post_lower, d.aliases) + 10 * (match d.short {
        Some(s) => count_word_matches(post_lower, words_of(s), 3),
        None => 0int,
    }) + 3 * count_word_matches(post_lower, words_of(d.content), 4)
}

/// Each definition paired with its score.
pub open spec fn scored_of(post_lower: Seq<char>, defs: Seq<DefView>) -> Seq<(DefView, int)> {
    Seq::new(defs.len(), |i: int| (defs[i], relevance_score_spec(post_lower, defs[i])))
}

/// The pair inserted after every pair with an equal or higher score: a
/// stable descending insertion.
pub open spec fn insert_by_score(x: (DefView, int), s: Seq<(DefView, int)>) -> Seq<(DefView, int)>
    decreases s.len(),
{
    if s.len() == 0 {
        seq![x]
    } else if s[0].1 >= x.1 {
        seq![s[0]] + insert_by_score(x, s.drop_first())
    } else {
        seq![x] + s
    }
}

/// Stable insertion sort by score, descending; ties keep their original
/// relative order.
pub open spec fn sort_by_score(s: Seq<(DefView, int)>) -> Seq<(DefView, int)>
    decreases s.len(),
{
    if s.len() == 0 {
        Seq::empty()
    } else {
        insert_by_score(s.last(), sort_by_score(s.drop_last()))
    }
}

/// What the prefilter selects: all definitions when no bound applies or the
/// bound is not below the definition count, else the `k` best-scoring
/// definitions, ties resolved by original order.
pub open spec fn select_spec(post_lower: Seq<char>, defs: Seq<DefView>, top_k: Option<usize>) -> Seq<
    DefView,
> {
    match top_k {
        Some(k) => if (k as int) < defs.len() {
            let sorted = sort_by_score(scored_of(post_lower, defs));
            Seq::new(k as nat, |i: int| sorted[i].0)
        } else {
            defs
        },
        None => defs,
    }
}

/// The view of one scored pair.
pub open spec fn pair_view(p: (TagDefinition, u128)) -> (DefView, int) {
    (p.0@, p.1 as int)
}

/// The views of a sequence of scored pairs.
pub open spec fn pairs_view(s: Seq<(TagDefinition, u128)>) -> Seq<(DefView, int)> {
    Seq::new(s.len(), |i: int| pair_view(s[i]))
}

/// Inserting at the first admissible position is what `insert_by_score`
/// means.
proof fn lemma_insert_by_score_at(x: (DefView, int), s: Seq<(DefView, int)>, k: int)
    requires
        0 <= k <= s.len(),
        forall|j: int| 0 <= j < k ==> (#[trigger] s[j]).1 >= x.1,
        k < s.len() ==> !(s[k as int].1 >= x.1),
    ensures
        insert_by_score(x, s) == s.insert(k, x),
    decreases s.len(),
{
    if s.len() == 0 {
        assert(insert_by_score(x, s) =~= s.insert(0, x));
    } else if k == 0 {
        assert(!(s[0].1 >= x.1));
        assert(insert_by_score(x, s) =~= s.insert(0, x));
    } else {
        assert(s[0].1 >= x.1);
        lemma_insert_by_score_at(x, s.drop_first(), k - 1);
        assert(insert_by_score(x, s) == seq![s[0]] + s.drop_first().insert(k - 1, x));
        assert(seq![s[0]] + s.drop_first().insert(k - 1, x) =~= s.insert(k, x));
    }
}

/// Insert a scored definition after every pair with an equal or higher
/// score.
fn insert_scored(out: &mut Vec<(TagDefinition, u128)>, d: TagDefinition, score: u128)
    ensures
        pairs_view(final(out)@) == insert_by_score((d@, score as int), pairs_view(old(out)@)),
        final(out)@.len() == old(out)@.len() + 1,
{
    let ghost s = pairs_view(out@);
    let mut k: usize = 0;
    while k < out.len() && out[k].1 >= score
        invariant
            pairs_view(out@) == s,
            out@.len() == s.len(),
            k <= s.len(),
            forall|j: int| 0 <= j < k ==> (#[trigger] s[j]).1 >= score as int,
        decreases s.len() - k,
    {
        proof {
            assert(s[k as int] == pair_view(out@[k as int]));
        }
        k = k + 1;
    }
    proof {
        if (k as int) < s.len() {
            assert(s[k as int] == pair_view(out@[k as int]));
        }
        lemma_insert_by_score_at((d@, score as int), s, k as int);
    }
    let ghost prev = out@;
    let ghost x = (d@, score as int);
    out.insert(k, (d, score));
    proof {
        assert forall|m: int| 0 <= m < out@.len() implies pairs_view(out@)[m] == s.insert(
            k as int,
            x,
        )[m] by {
            assert(pairs_view(out@)[m] == pair_view(out@[m]));
            if m < k {
                assert(out@[m] == prev[m]);
                assert(s[m] == pair_view(prev[m]));
            } else if m > k {
                assert(out@[m] == prev[m - 1]);
                assert(s[m - 1] == pair_view(prev[m - 1]));
            }
        }
        assert(pairs_view(out@) =~= s.insert(k as int, x));
    }
}

/// Use case for classifying posts.
pub struct ClassifyUseCase<C> {
    classifier: C,
    config: ClassifyConfig,
}

impl<C: Classifier> ClassifyUseCase<C> {
    /// The configured prefilter bound.
    pub closed spec fn top_k(self) -> Option<usize> {
        self.config.prefilter_top_k
    }

    /// Create the use case around a classifier port.
    pub fn new(classifier: C, config: ClassifyConfig) -> (r: ClassifyUseCase<C>)
        ensures
            r.top_k() == config.prefilter_top_k,
    {
        ClassifyUseCase { classifier, config }
    }

    /// Classify a post against the given definitions: prefilter them, build
    /// the input, and hand it to the classifier port, whose outcome is
    /// returned as it came.
    pub fn classify(&self, post: &SourcePost, definitions: &Vec<TagDefinition>) -> Result<
        ClassifyOutput,
        ClassifyError,
    > {
        let selected_definitions = self.select_definitions(post, definitions);
        let input = ClassifyInput {
            post: post.duplicate(),
            definitions: selected_definitions,
            max_output_chars: self.config.max_output_chars,
            policy_text: clone_opt_string(&self.config.policy_text),
        };
        self.classifier.classify(input)
    }

    /// Select the definitions to send: all of them when no bound applies,
    /// else the best-scoring `k` by the keyword-overlap heuristic.
    pub fn select_definitions(&self, post: &SourcePost, definitions: &Vec<TagDefinition>) -> (r:
        Vec<TagDefinition>)
        ensures
            r.deep_view() == select_spec(
                lower_of(post@.text),
                definitions.deep_view(),
                self.top_k(),
            ),
    {
        let ghost dv = definitions.deep_view();
        let ghost pl = lower_of(post@.text);
        let n = definitions.len();
        let use_prefilter = match self.config.prefilter_top_k {
            Some(k) => k < n,
            None => false,
        };
        if !use_prefilter {
            return crate::model::clone_defs(definitions);
        }
        let k = match self.config.prefilter_top_k {
            Some(k) => k,
            None => 0,
        };
        let mut sorted: Vec<(TagDefinition, u128)> = Vec::new();
        let mut i: usize = 0;
        proof {
            assert(pairs_view(sorted@) =~= Seq::<(DefView, int)>::empty());
            assert(scored_of(pl, dv.subrange(0, 0)) =~= Seq::<(DefView, int)>::empty());
        }
        while i < n
            invariant
                n == definitions@.len(),
                dv == definitions.deep_view(),
                pl == lower_of(post@.text),
                i <= n,
                sorted@.len() == i,
                pairs_view(sorted@) == sort_by_score(scored_of(pl, dv.subrange(0, i as int))),
            decreases n - i,
        {
            proof {
                assert(dv[i as int] == definitions@[i as int]@);
            }
            let d = definitions[i].duplicate();
            let score = compute_relevance_score(post, &d);
            proof {
                let pre = scored_of(pl, dv.subrange(0, i as int));
                let cur = scored_of(pl, dv.subrange(0, i as int + 1));
                assert(cur.drop_last() =~= pre);
                assert(cur.last() == (dv[i as int], relevance_score_spec(pl, dv[i as int])));
            }
            insert_scored(&mut sorted, d, score);
            i = i + 1;
        }
        proof {
            assert(dv.subrange(0, n as int) =~= dv);
        }
        let mut out: Vec<TagDefinition> = Vec::new();
        let mut j: usize = 0;
        let ghost sv = pairs_view(sorted@);
        while j < k
            invariant
                k <= n == sorted@.len(),
                sv == pairs_view(sorted@),
                j <= k,
                out@.len() == j,
                out.deep_view() =~= Seq::new(j as nat, |m: int| sv[m].0),
            decreases k - j,
        {
            let ghost prev = out@;
            let ghost prev_dv = out.deep_view();
            let d = sorted[j].0.duplicate();
            out.push(d);
            proof {
                crate::strutil::lemma_deep_view_push(out, prev, out@[prev.len() as int]);
                assert(Seq::new(prev.len(), |m: int| prev[m].deep_view()) =~= prev_dv);
                assert(sv[j as int] == pair_view(sorted@[j as int]));
                assert(out.deep_view() =~= Seq::new((j + 1) as nat, |m: int| sv[m].0));
            }
            j = j + 1;
        }
        proof {
            assert(out.deep_view() =~= select_spec(pl, dv, self.top_k()));
        }
        out
    }
}

/// Compute the keyword-overlap relevance score of one definition against a
/// post, in hundredths of a point.
pub fn compute_relevance_score(post: &SourcePost, definition: &TagDefinition) -> (r: u128)
    ensures
        r as int == relevance_score_spec(lower_of(post@.text), definition@),
{
    let post_lower = lowercase(post.text.as_str());
    let ghost pl = lower_of(post@.text);

    let title_lower = lowercase(definition.title.as_str());
    let title_points: u128 = if contains_str(post_lower.as_str(), title_lower.as_str()) {
        100
    } else {
        0
    };

    let ghost av = definition.aliases.deep_view();
    let an = definition.aliases.len();
    let mut alias_count: usize = 0;
    let mut i: usize = 0;
    proof {
        assert(av.subrange(0, 0) =~= Seq::<Seq<char>>::empty());
    }
    while i < an
        invariant
            an == definition.aliases@.len(),
            av == definition.aliases.deep_view(),
            pl == post_lower@,
            i <= an,
            alias_count <= i,
            alias_count as int == count_alias_matches(pl, av.subrange(0, i as int)),
        decreases an - i,
    {
        proof {
            let cur = av.subrange(0, i as int + 1);
            assert(cur.drop_last() =~= av.subrange(0, i as int));
            assert(cur.last() == av[i as int]);
            assert(av[i as int] == definition.aliases@[i as int]@);
        }
        let alias_lower = lowercase(definition.aliases[i].as_str());
        if contains_str(post_lower.as_str(), alias_lower.as_str()) {
            alias_count = alias_count + 1;
        }
        i = i + 1;
    }
    proof {
        assert(av.subrange(0, an as int) =~= av);
    }

    let short_count: usize = match &definition.short {
        Some(short) => count_long_word_matches(post_lower.as_str(), short.as_str(), 3),
        None => 0,
    };
    let content_count: usize = count_long_word_matches(
        post_lower.as_str(),
        definition.content.as_str(),
        4,
    );

    title_points + 50 * (alias_count as u128) + 10 * (short_count as u128) + 3 * (
    content_count as u128)
}

/// How many whitespace-separated words of `text`, longer than `min_len`
/// characters, occur lowercased in the lowercased post.
fn count_long_word_matches(post_lower: &str, text: &str, min_len: usize) -> (r: usize)
    ensures
        r as int == count_word_matches(post_lower@, words_of(text@), min_len as int),
{
    let words = split_words(text);
    let ghost wv = words.deep_view();
    let n = words.len();
    let mut count: usize = 0;
    let mut i: usize = 0;
    proof {
        assert(wv.subrange(0, 0) =~= Seq::<Seq<char>>::empty());
    }
    while i < n
        invariant
            n == words@.len(),
            wv == words.deep_view(),
            wv == words_of(text@),
            i <= n,
            count <= i,
            count as int == count_word_matches(post_lower@, wv.subrange(0, i as int), min_len as int),
        decreases n - i,
    {
        proof {
            let cur = wv.subrange(0, i as int + 1);
            assert(cur.drop_last() =~= wv.subrange(0, i as int));
            assert(cur.last() == wv[i as int]);
            assert(wv[i as int] == words@[i as int]@);
        }
        let w = &words[i];
        if w.unicode_len() > min_len {
            let w_lower = lowercase(w.as_str());
            if contains_str(post_lower, w_lower.as_str()) {
                count = count + 1;
            }
        }
        i = i + 1;
    }
    proof {
        assert(wv.subrange(0, n as int) =~= wv);
    }
    count
}

} // verus!
