//! Stub classifier for testing and offline runs.

use vstd::prelude::*;

use crate::model::{ClassifyInput, ClassifyOutput, TagMatch};
use crate::ports::{Classifier, ClassifyError};
use vstd::string::StringExecFns;

verus! {

/// Stub classifier that returns configurable responses.
pub struct StubClassifier {
    response: Option<ClassifyOutput>,
    error: Option<ClassifyError>,
}

impl StubClassifier {
    /// A stub that returns a successful empty classification.
    pub fn empty() -> StubClassifier {
        StubClassifier {
            response: Some(
                ClassifyOutput::new(
                    String::from_str("Stub classification - no tags detected"),
                    Vec::new(),
                ),
            ),
            error: None,
        }
    }

    /// A stub that returns a specific response.
    pub fn with_response(response: ClassifyOutput) -> StubClassifier {
        StubClassifier { response: Some(response), error: None }
    }

    /// A stub that always returns an error.
    pub fn with_error(error: ClassifyError) -> StubClassifier {
        StubClassifier { response: None, error: Some(error) }
    }

    /// A stub that echoes back detected keywords as tags.
    pub fn echo() -> StubClassifier {
        StubClassifier { response: None, error: None }
    }
}

impl Default for StubClassifier {
    /// The default stub returns a successful empty classification.
    fn default() -> StubClassifier {
        StubClassifier::empty()
    }
}

impl Classifier for StubClassifier {
    /// Return the configured error or response; in echo mode, tag the post
    /// with every definition whose id (underscores as spaces) or lowercased
    /// title occurs in the lowercased post text.
    fn classify(&self, input: ClassifyInput) -> Result<ClassifyOutput, ClassifyError> {
        match &self.error {
            Some(error) => {
                return Err(error.duplicate());
            },
            None => {},
        }
        match &self.response {
            Some(response) => {
                return Ok(response.duplicate());
            },
            None => {},
        }
        let post_lower = crate::strutil::lowercase(input.post.text.as_str());
        let mut tags: Vec<TagMatch> = Vec::new();
        let n = input.definitions.len();
        let mut i: usize = 0;
        while i < n
            invariant
                n == input.definitions@.len(),
            decreases n - i,
        {
            let def = &input.definitions[i];
            proof {
                reveal_strlit("_");
                reveal_strlit(" ");
            }
            let id_spaced = crate::strutil::replace_str(def.id.as_str(), "_", " ");
            let title_lower = crate::strutil::lowercase(def.title.as_str());
            let id_match = crate::strutil::contains_str(post_lower.as_str(), id_spaced.as_str());
            let title_match = crate::strutil::contains_str(
                post_lower.as_str(),
                title_lower.as_str(),
            );
            if id_match || title_match {
                let mut rationale = String::from_str("Stub: keyword '");
                rationale.append(def.id.as_str());
                rationale.append("' detected in post");
                let text_len = input.post.text.unicode_len();
                let cut = if text_len < 50 {
                    text_len
                } else {
                    50
                };
                let mut excerpt = String::from_str("...");
                excerpt.append(input.post.text.as_str().substring_char(0, cut));
                excerpt.append("...");
                let mut evidence: Vec<String> = Vec::new();
                evidence.push(excerpt);
                tags.push(
                    TagMatch { id: def.id.clone(), confidence: 75, rationale, evidence },
                );
            }
            i = i + 1;
        }
        let mut summary = String::from_str("Stub classification of post by ");
        summary.append(input.post.author.as_str());
        Ok(ClassifyOutput::new(summary, tags))
    }
}

} // verus!
