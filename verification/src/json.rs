//! JSON documents the library reads, decoded by `serde_json`: lists of
//! strings stored with profiles and lessons, and the lesson plan the model
//! writes.

use vstd::prelude::*;

verus! {

/// The list of strings that `serde_json` decodes from a JSON text, or
/// `None` where the text is not a JSON array of strings.
pub uninterp spec fn json_string_list(json: Seq<char>) -> Option<Seq<Seq<char>>>;

/// The plain values of a list of strings.
pub open spec fn string_views(v: Seq<String>) -> Seq<Seq<char>> {
    v.map_values(|s: String| s@)
}

/// `serde_json::from_str::<Vec<String>>`, with its error dropped.  The
/// result is named, not described: the JSON grammar is `serde_json`'s.
#[verifier::external_body]
pub(crate) fn parse_string_list(json: &str) -> (r: Option<Vec<String>>)
    ensures
        match r {
            Some(v) => json_string_list(json@) == Some(string_views(v@)),
            None => json_string_list(json@) is None,
        },
{
    serde_json::from_str::<Vec<String>>(json).ok()
}

/// A lesson as the model proposed it: each text field where the JSON object
/// had a string under its key, and the JSON text of each list field (`null`
/// where the key is missing).
pub struct ProposedLesson {
    pub cefr_level: Option<String>,
    pub topic: Option<String>,
    pub title: Option<String>,
    pub description: Option<String>,
    pub scenario: Option<String>,
    pub objectives: Option<String>,
    pub target_vocabulary: Option<String>,
    pub target_grammar: Option<String>,
}

/// The plain values of a proposed lesson.
pub struct ProposedLessonView {
    pub cefr_level: Option<Seq<char>>,
    pub topic: Option<Seq<char>>,
    pub title: Option<Seq<char>>,
    pub description: Option<Seq<char>>,
    pub scenario: Option<Seq<char>>,
    pub objectives: Option<Seq<char>>,
    pub target_vocabulary: Option<Seq<char>>,
    pub target_grammar: Option<Seq<char>>,
}

/// The plain value of an optional string.
pub open spec fn opt_view(o: Option<String>) -> Option<Seq<char>> {
    match o {
        Some(s) => Some(s@),
        None => None,
    }
}

impl View for ProposedLesson {
    type V = ProposedLessonView;

    open spec fn view(&self) -> ProposedLessonView {
        ProposedLessonView {
            cefr_level: opt_view(self.cefr_level),
            topic: opt_view(self.topic),
            title: opt_view(self.title),
            description: opt_view(self.description),
            scenario: opt_view(self.scenario),
            objectives: opt_view(self.objectives),
            target_vocabulary: opt_view(self.target_vocabulary),
            target_grammar: opt_view(self.target_grammar),
        }
    }
}

/// The plain values of a list of proposed lessons.
pub open spec fn proposal_views(v: Seq<ProposedLesson>) -> Seq<ProposedLessonView> {
    v.map_values(|p: ProposedLesson| p@)
}

/// The lessons that `serde_json` decodes from a JSON array of objects, or
/// `None` where the text is not a JSON array.
pub uninterp spec fn proposed_lessons(json: Seq<char>) -> Option<Seq<ProposedLessonView>>;

/// `serde_json::from_str::<Vec<serde_json::Value>>`, each element read by
/// key with `as_str` and `serde_json::to_string`.  The result is named, not
/// described; on failure the error is `serde_json`'s message, whose text is
/// not stated.
#[verifier::external_body]
pub(crate) fn parse_lesson_array(json: &str) -> (r: Result<Vec<ProposedLesson>, String>)
    ensures
        match r {
            Ok(v) => proposed_lessons(json@) == Some(proposal_views(v@)),
            Err(_) => proposed_lessons(json@) is None,
        },
{
    let values: Vec<serde_json::Value> = serde_json::from_str(json).map_err(|e| e.to_string())?;
    let text = |v: &serde_json::Value, k: &str| v[k].as_str().map(String::from);
    let list = |v: &serde_json::Value, k: &str| serde_json::to_string(&v[k]).ok();
    Ok(values.iter().map(|v| ProposedLesson {
        cefr_level: text(v, "cefr_level"),
        topic: text(v, "topic"),
        title: text(v, "title"),
        description: text(v, "description"),
        scenario: text(v, "scenario"),
        objectives: list(v, "objectives"),
        target_vocabulary: list(v, "target_vocabulary"),
        target_grammar: list(v, "target_grammar"),
    }).collect())
}

} // verus!
