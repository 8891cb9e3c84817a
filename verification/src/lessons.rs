//! The system prompts of the session modes built from stored profiles and
//! lessons, and the lesson plan read from the model's reply.

use vstd::prelude::*;
use vstd::string::{StrSliceExecFns, StringExecFns};
use crate::db::{NewLesson, NewLessonView, ProfileRow};
use crate::titles::{find_last, last_index_of, lemma_last_index_bounds};
use crate::json::{
    json_string_list, parse_lesson_array, parse_string_list, proposal_views, proposed_lessons,
    string_views, ProposedLesson, ProposedLessonView,
};
use crate::prompt::{
    build_system_prompt, system_prompt, views, ChatMessage, ChatRole, GrammarFocus, LessonContext,
    LessonView, VocabItem,
};
use crate::session::message_views;
use crate::text::{chars_of, owned, replace_all, replace_text};

verus! {

// ── Prompts of the session modes ─────────────────────────────────────────

/// The list a JSON text decodes to, or no items where it does not decode.
pub open spec fn list_or_empty(json: Seq<char>) -> Seq<Seq<char>> {
    match json_string_list(json) {
        Some(l) => l,
        None => Seq::empty(),
    }
}

/// The strings of a JSON list; empty where the text is not one.
pub fn string_list_or_empty(json: &str) -> (r: Vec<String>)
    ensures
        string_views(r@) == list_or_empty(json@),
{
    match parse_string_list(json) {
        Some(v) => v,
        None => {
            let v: Vec<String> = Vec::new();
            assert(string_views(v@) =~= Seq::<Seq<char>>::empty());
            v
        },
    }
}

/// Borrowed views of a list of strings.
fn str_refs(v: &Vec<String>) -> (r: Vec<&str>)
    ensures
        views(r@) == string_views(v@),
{
    let mut r: Vec<&str> = Vec::new();
    let mut i: usize = 0;
    while i < v.len()
        invariant
            i <= v@.len(),
            views(r@) == string_views(v@.take(i as int)),
        decreases v@.len() - i,
    {
        let ghost before = r@;
        r.push(v[i].as_str());
        assert(string_views(v@.take(i + 1)) =~= string_views(v@.take(i as int)).push(v@[i as int]@));
        assert(views(r@) =~= views(before).push(v@[i as int]@));
        i += 1;
    }
    assert(v@.take(v@.len() as int) == v@);
    r
}

/// The greeting that ends a free conversation prompt.
pub const FREE_GREETING: &'static str = "Start by greeting the student warmly and asking what they'd like to talk about.";

/// The instruction that replaces it when the tutor leads the lesson.
pub const TUTOR_LED_CLOSING: &'static str = "The student has just started a lesson. YOU choose the conversation topic — pick something interesting, practical, and relevant to their goals and level. Do NOT ask them what they want to talk about. Instead, greet them warmly, set the scene for a realistic conversation situation (e.g. ordering at a restaurant, asking for directions, meeting someone new), and begin the lesson immediately. Keep your opening to 2-3 sentences.";

/// The free conversation prompt for a profile.
pub open spec fn profile_prompt(
    target_language: Seq<char>,
    native_language: Seq<char>,
    level: Seq<char>,
    goals_json: Seq<char>,
    lesson: Option<LessonView>,
) -> Seq<char> {
    system_prompt(
        target_language,
        "Learner"@,
        native_language,
        level,
        list_or_empty(goals_json),
        lesson,
    )
}

/// The prompt of a tutor-led lesson: the free conversation prompt with its
/// greeting replaced by the instruction to choose a topic and lead.
pub open spec fn tutor_led_prompt(
    target_language: Seq<char>,
    native_language: Seq<char>,
    level: Seq<char>,
    goals_json: Seq<char>,
) -> Seq<char> {
    replace_all(
        profile_prompt(target_language, native_language, level, goals_json, None),
        FREE_GREETING@,
        TUTOR_LED_CLOSING@,
    )
}

/// System prompt for a tutor-led lesson with the stored profile.
pub fn tutor_led_system_prompt(profile: &ProfileRow) -> (r: String)
    ensures
        r@ == tutor_led_prompt(
            profile.target_language@,
            profile.native_language@,
            profile.cefr_level@,
            profile.goals_json@,
        ),
{
    let goals = string_list_or_empty(profile.goals_json.as_str());
    let goal_refs = str_refs(&goals);
    let prompt = build_system_prompt(
        profile.target_language.as_str(),
        "Learner",
        profile.native_language.as_str(),
        profile.cefr_level.as_str(),
        goal_refs.as_slice(),
        None,
    );
    replace_text(prompt.as_str(), FREE_GREETING, TUTOR_LED_CLOSING)
}

/// The lesson a stored lesson's fields describe: its title as topic, its
/// scenario (empty when none), and its objectives, vocabulary and grammar
/// decoded from JSON, with no translation or explanation given.
pub open spec fn stored_lesson_view(
    title: Seq<char>,
    scenario: Option<Seq<char>>,
    objectives_json: Seq<char>,
    vocabulary_json: Seq<char>,
    grammar_json: Seq<char>,
) -> LessonView {
    LessonView {
        topic: title,
        scenario: match scenario {
            Some(s) => s,
            None => Seq::empty(),
        },
        objectives: list_or_empty(objectives_json),
        vocabulary: list_or_empty(vocabulary_json).map_values(|t: Seq<char>| (t, Seq::<char>::empty())),
        grammar: list_or_empty(grammar_json).map_values(|t: Seq<char>| (t, Seq::<char>::empty())),
    }
}

fn vocab_items<'a>(v: &'a Vec<String>) -> (r: Vec<VocabItem<'a>>)
    ensures
        r@.len() == v@.len(),
        forall|i: int| 0 <= i < v@.len() ==> #[trigger] r@[i].target@ == v@[i]@ && r@[i].native@ == Seq::<char>::empty(),
{
    let mut r: Vec<VocabItem<'a>> = Vec::new();
    let mut i: usize = 0;
    while i < v.len()
        invariant
            i <= v@.len(),
            r@.len() == i,
            forall|k: int| 0 <= k < i ==> #[trigger] r@[k].target@ == v@[k]@ && r@[k].native@ == Seq::<char>::empty(),
        decreases v@.len() - i,
    {
        proof {
            reveal_strlit("");
        }
        r.push(VocabItem { target: v[i].as_str(), native: "" });
        i += 1;
    }
    r
}

fn grammar_items<'a>(v: &'a Vec<String>) -> (r: Vec<GrammarFocus<'a>>)
    ensures
        r@.len() == v@.len(),
        forall|i: int| 0 <= i < v@.len() ==> #[trigger] r@[i].title@ == v@[i]@ && r@[i].explanation@ == Seq::<char>::empty(),
{
    let mut r: Vec<GrammarFocus<'a>> = Vec::new();
    let mut i: usize = 0;
    while i < v.len()
        invariant
            i <= v@.len(),
            r@.len() == i,
            forall|k: int| 0 <= k < i ==> #[trigger] r@[k].title@ == v@[k]@ && r@[k].explanation@ == Seq::<char>::empty(),
        decreases v@.len() - i,
    {
        proof {
            reveal_strlit("");
        }
        r.push(GrammarFocus { title: v[i].as_str(), explanation: "" });
        i += 1;
    }
    r
}

/// System prompt for a stored lesson with the stored profile.
pub fn lesson_system_prompt(
    profile: &ProfileRow,
    title: &str,
    scenario: Option<&str>,
    objectives_json: &str,
    vocabulary_json: &str,
    grammar_json: &str,
) -> (r: String)
    ensures
        r@ == profile_prompt(
            profile.target_language@,
            profile.native_language@,
            profile.cefr_level@,
            profile.goals_json@,
            Some(
                stored_lesson_view(
                    title@,
                    match scenario {
                        Some(s) => Some(s@),
                        None => None,
                    },
                    objectives_json@,
                    vocabulary_json@,
                    grammar_json@,
                ),
            ),
        ),
{
    let goals = string_list_or_empty(profile.goals_json.as_str());
    let goal_refs = str_refs(&goals);
    let objectives = string_list_or_empty(objectives_json);
    let objective_refs = str_refs(&objectives);
    let vocabulary = string_list_or_empty(vocabulary_json);
    let vocab = vocab_items(&vocabulary);
    let grammar_slugs = string_list_or_empty(grammar_json);
    let grammar = grammar_items(&grammar_slugs);
    let scenario_text: &str = match scenario {
        Some(s) => s,
        None => "",
    };
    let ctx = LessonContext {
        topic: title,
        scenario: scenario_text,
        objectives: objective_refs.as_slice(),
        vocabulary: vocab.as_slice(),
        grammar: grammar.as_slice(),
    };
    let ghost want = stored_lesson_view(
        title@,
        match scenario {
            Some(s) => Some(s@),
            None => None,
        },
        objectives_json@,
        vocabulary_json@,
        grammar_json@,
    );
    proof {
        reveal_strlit("");
    }
    assert(ctx.view().topic == want.topic);
    assert(ctx.view().scenario == want.scenario);
    assert(ctx.view().objectives == want.objectives);
    assert(ctx.view().vocabulary =~= want.vocabulary);
    assert(ctx.view().grammar =~= want.grammar);
    assert(ctx.view() == want);
    build_system_prompt(
        profile.target_language.as_str(),
        "Learner",
        profile.native_language.as_str(),
        profile.cefr_level.as_str(),
        goal_refs.as_slice(),
        Some(&ctx),
    )
}

// ── The lesson plan the model writes ─────────────────────────────────────

/// Index of the first occurrence of `c` in `s` at or after `i`.
pub open spec fn first_index_from(s: Seq<char>, c: char, i: int) -> Option<int>
    decreases s.len() - i,
{
    if i < 0 || i >= s.len() {
        None
    } else if s[i] == c {
        Some(i)
    } else {
        first_index_from(s, c, i + 1)
    }
}

/// Where the JSON array of a reply lies: from its first `[` to its last
/// `]`, or the error when either is missing.
pub open spec fn plan_span(text: Seq<char>) -> Result<(int, int), Seq<char>> {
    match first_index_from(text, '[', 0) {
        None => Err("no JSON array in LLM response"@),
        Some(a) => match last_index_of(text, ']') {
            None => Err("no closing ] in LLM response"@),
            Some(b) => Ok((a, b + 1)),
        },
    }
}

/// The span can be cut out of the text: it does not end before it starts.
pub open spec fn plan_span_ordered(text: Seq<char>) -> bool {
    match plan_span(text) {
        Ok((a, b)) => a <= b,
        Err(_) => true,
    }
}

/// Text of an optional field, or the default.
pub open spec fn or_default(o: Option<Seq<char>>, d: Seq<char>) -> Seq<char> {
    match o {
        Some(s) => s,
        None => d,
    }
}

/// The lesson stored for the proposal at `index`: numbered from 1, with
/// the learner's level, "general", "Untitled Lesson", and empty texts where
/// the proposal has no string, and "[]" where a list could not be written.
pub open spec fn lesson_from_proposal(p: ProposedLessonView, index: int, level: Seq<char>) -> NewLessonView {
    NewLessonView {
        sequence_order: (index + 1) as i32,
        cefr_level: or_default(p.cefr_level, level),
        topic: or_default(p.topic, "general"@),
        title: or_default(p.title, "Untitled Lesson"@),
        description: or_default(p.description, Seq::empty()),
        scenario: or_default(p.scenario, Seq::empty()),
        objectives_json: or_default(p.objectives, "[]"@),
        target_vocabulary_json: or_default(p.target_vocabulary, "[]"@),
        target_grammar_json: or_default(p.target_grammar, "[]"@),
    }
}

fn text_or(o: Option<String>, d: &str) -> (r: String)
    ensures
        r@ == or_default(
            match o {
                Some(s) => Some(s@),
                None => None,
            },
            d@,
        ),
{
    match o {
        Some(s) => s,
        None => owned(d),
    }
}

/// The lessons to store for the proposals the model made, in order.
pub fn lessons_from_proposals(proposals: Vec<ProposedLesson>, level: &str) -> (r: Vec<NewLesson>)
    ensures
        r@.len() == proposals@.len(),
        forall|i: int|
            0 <= i < r@.len() ==> #[trigger] r@[i]@ == lesson_from_proposal(proposals@[i]@, i, level@),
{
    let mut out: Vec<NewLesson> = Vec::new();
    let mut rest = proposals;
    let ghost all = rest@;
    let n = rest.len();
    let mut i: usize = 0;
    while i < n
        invariant
            n == all.len(),
            i <= n,
            rest@ == all.skip(i as int),
            out@.len() == i,
            forall|k: int| 0 <= k < i ==> #[trigger] out@[k]@ == lesson_from_proposal(all[k]@, k, level@),
        decreases n - i,
    {
        let p = rest.remove(0);
        assert(p == all[i as int]);
        assert(rest@ =~= all.skip(i + 1));
        proof {
            reveal_strlit("");
        }
        let lesson = NewLesson {
            sequence_order: #[verifier::truncate] ((i + 1) as i32),
            cefr_level: text_or(p.cefr_level, level),
            topic: text_or(p.topic, "general"),
            title: text_or(p.title, "Untitled Lesson"),
            description: text_or(p.description, ""),
            scenario: text_or(p.scenario, ""),
            objectives_json: text_or(p.objectives, "[]"),
            target_vocabulary_json: text_or(p.target_vocabulary, "[]"),
            target_grammar_json: text_or(p.target_grammar, "[]"),
        };
        assert(lesson@.sequence_order == lesson_from_proposal(all[i as int]@, i as int, level@).sequence_order);
        assert(lesson@.cefr_level == lesson_from_proposal(all[i as int]@, i as int, level@).cefr_level);
        assert(lesson@.description == lesson_from_proposal(all[i as int]@, i as int, level@).description);
        assert(lesson@.topic == lesson_from_proposal(all[i as int]@, i as int, level@).topic);
        assert(lesson@.title == lesson_from_proposal(all[i as int]@, i as int, level@).title);
        assert(lesson@.scenario == lesson_from_proposal(all[i as int]@, i as int, level@).scenario);
        assert(lesson@.objectives_json == lesson_from_proposal(all[i as int]@, i as int, level@).objectives_json);
        assert(lesson@.target_vocabulary_json == lesson_from_proposal(all[i as int]@, i as int, level@).target_vocabulary_json);
        assert(lesson@.target_grammar_json == lesson_from_proposal(all[i as int]@, i as int, level@).target_grammar_json);
        assert(lesson@ == lesson_from_proposal(all[i as int]@, i as int, level@));
        out.push(lesson);
        i += 1;
    }
    out
}

/// The lessons stored for a lesson plan reply: `Err` when the reply has no
/// `[`, no `]`, or the text between them is not a JSON array.
pub open spec fn plan_lessons(
    text: Seq<char>,
    level: Seq<char>,
    lessons: Seq<NewLessonView>,
) -> bool {
    match plan_span(text) {
        Ok((a, b)) => match proposed_lessons(text.subrange(a, b)) {
            Some(ps) => lessons.len() == ps.len() && forall|i: int|
                0 <= i < ps.len() ==> #[trigger] lessons[i] == lesson_from_proposal(ps[i], i, level),
            None => false,
        },
        Err(_) => false,
    }
}

/// The views of a list of lessons.
pub open spec fn lesson_views(v: Seq<NewLesson>) -> Seq<NewLessonView> {
    v.map_values(|l: NewLesson| l@)
}

/// Read the lesson plan from the model's reply, which may have text around
/// the JSON array.
pub fn lessons_from_response(full_text: &str, level: &str) -> (r: Result<Vec<NewLesson>, String>)
    requires
        plan_span_ordered(full_text@),
    ensures
        match r {
            Ok(v) => plan_lessons(full_text@, level@, lesson_views(v@)),
            Err(e) => match plan_span(full_text@) {
                Err(msg) => e@ == msg,
                Ok((a, b)) => proposed_lessons(full_text@.subrange(a, b)) is None && exists|m: Seq<
                    char,
                >| e@ == "parse lessons JSON: "@ + m,
            },
        },
{
    let v = chars_of(full_text);
    let mut a: usize = 0;
    while a < v.len() && v[a] != '['
        invariant
            a <= v@.len(),
            v@ == full_text@,
            first_index_from(v@, '[', 0) == first_index_from(v@, '[', a as int),
        decreases v@.len() - a,
    {
        a += 1;
    }
    if a == v.len() {
        return Err(owned("no JSON array in LLM response"));
    }
    let b = match find_last(&v, v.len(), ']') {
        Some(b) => b,
        None => {
            assert(v@.take(v@.len() as int) == v@);
            return Err(owned("no closing ] in LLM response"));
        },
    };
    assert(v@.take(v@.len() as int) == v@);
    proof {
        lemma_last_index_bounds(v@, ']');
    }
    assert(first_index_from(v@, '[', a as int) == Some(a as int));
    let json = full_text.substring_char(a, b + 1);
    match parse_lesson_array(json) {
        Ok(proposals) => {
            let ghost ps = proposal_views(proposals@);
            let lessons = lessons_from_proposals(proposals, level);
            assert(lesson_views(lessons@).len() == ps.len());
            assert forall|i: int| 0 <= i < ps.len() implies #[trigger] lesson_views(lessons@)[i]
                == lesson_from_proposal(ps[i], i, level@) by {
                assert(lesson_views(lessons@)[i] == lessons@[i]@);
            }
            Ok(lessons)
        },
        Err(m) => {
            let mut e = owned("parse lessons JSON: ");
            e.append(m.as_str());
            Err(e)
        },
    }
}

// ── Asking for a lesson plan ─────────────────────────────────────────────

/// What the learner is asked to plan: ten lessons for a learner at `level`
/// of `target_language`, answered as a JSON array with the keys that
/// `lessons_from_response` reads.  The wording is this library's own.
pub open spec fn lesson_plan_request_text(target_language: Seq<char>, level: Seq<char>) -> Seq<
    char,
> {
    "Plan a learning path of 10 lessons for a "@ + level + " learner of "@ + target_language
        + ". Reply with a JSON array of objects with the keys title, topic, cefr_level, description, scenario, objectives, target_vocabulary and target_grammar."@
}

/// The messages that ask the model for a learning path: the learner's free
/// conversation prompt as the system message, then the request.
pub fn build_lesson_generation_prompt(
    target_language: &str,
    native_language: &str,
    level: &str,
    goals: &[&str],
) -> (r: Vec<ChatMessage>)
    ensures
        message_views(r@) == seq![
            (
                ChatRole::System,
                system_prompt(
                    target_language@,
                    "Learner"@,
                    native_language@,
                    level@,
                    views(goals@),
                    None,
                ),
            ),
            (ChatRole::User, lesson_plan_request_text(target_language@, level@)),
        ],
{
    let system = build_system_prompt(target_language, "Learner", native_language, level, goals, None);
    let mut request = String::new();
    request.append("Plan a learning path of 10 lessons for a ");
    request.append(level);
    request.append(" learner of ");
    request.append(target_language);
    request.append(". Reply with a JSON array of objects with the keys title, topic, cefr_level, description, scenario, objectives, target_vocabulary and target_grammar.");
    let mut r: Vec<ChatMessage> = Vec::new();
    r.push(ChatMessage::system(system));
    r.push(ChatMessage::user(request));
    assert(message_views(r@) =~= seq![
        (
            ChatRole::System,
            system_prompt(target_language@, "Learner"@, native_language@, level@, views(goals@), None),
        ),
        (ChatRole::User, lesson_plan_request_text(target_language@, level@)),
    ]);
    r
}

} // verus!
