//! Prompt assembly: the parameterized system prompt and the chat message
//! representation.  Chat-template formatting is left to the model server;
//! only role/content pairs are produced here.

use vstd::prelude::*;
use vstd::string::StringExecFns;

verus! {

/// Who said a message, as the OpenAI-style chat roles name them.
#[derive(Debug, Clone, Copy, PartialEq, Eq, Structural)]
pub enum ChatRole {
    System,
    User,
    Assistant,
}

/// One message of a chat.
#[derive(Debug, Clone)]
pub struct ChatMessage {
    pub role: ChatRole,
    pub content: String,
}

impl ChatMessage {
    /// A system message.
    pub fn system(content: String) -> (m: Self)
        ensures
            m.role == ChatRole::System,
            m.content@ == content@,
    {
        ChatMessage { role: ChatRole::System, content }
    }

    /// A message from the student.
    pub fn user(content: String) -> (m: Self)
        ensures
            m.role == ChatRole::User,
            m.content@ == content@,
    {
        ChatMessage { role: ChatRole::User, content }
    }

    /// A message from the tutor.
    pub fn assistant(content: String) -> (m: Self)
        ensures
            m.role == ChatRole::Assistant,
            m.content@ == content@,
    {
        ChatMessage { role: ChatRole::Assistant, content }
    }
}

/// The role name the chat API expects.
pub open spec fn role_name_spec(role: ChatRole) -> Seq<char> {
    match role {
        ChatRole::System => "system"@,
        ChatRole::User => "user"@,
        ChatRole::Assistant => "assistant"@,
    }
}

/// The role name the chat API expects.
pub fn role_name(role: ChatRole) -> (s: &'static str)
    ensures
        s@ == role_name_spec(role),
{
    match role {
        ChatRole::System => "system",
        ChatRole::User => "user",
        ChatRole::Assistant => "assistant",
    }
}

// ── System prompt builder ────────────────────────────────────────────────

/// A vocabulary item to introduce during the lesson.
pub struct VocabItem<'a> {
    pub target: &'a str,
    pub native: &'a str,
}

/// A grammar point to focus on during the lesson.
pub struct GrammarFocus<'a> {
    pub title: &'a str,
    pub explanation: &'a str,
}

/// Lesson-specific context.  Without one the tutor runs in free
/// conversation mode.
pub struct LessonContext<'a> {
    pub topic: &'a str,
    pub scenario: &'a str,
    pub objectives: &'a [&'a str],
    pub vocabulary: &'a [VocabItem<'a>],
    pub grammar: &'a [GrammarFocus<'a>],
}

/// The JSON response format specification shared by all prompt variants.
pub const RESPONSE_FORMAT: &'static str = r#"## Response Format

You MUST respond with a single JSON object and nothing else. No markdown fences, no prose before or after. Exactly this schema:

{
  "tutor_message": {
    "target_lang": "Text in the target language the tutor says (this is what gets spoken aloud)",
    "native_lang": "Translation in the student's native language"
  },
  "correction": null,
  "new_vocabulary": [],
  "grammar_note": null,
  "suggested_responses": [
    {"target_lang": "...", "native_lang": "..."},
    {"target_lang": "...", "native_lang": "..."}
  ],
  "internal_notes": {
    "estimated_comprehension": "high",
    "lesson_progress_pct": 10
  }
}

When the student makes a mistake, populate "correction":
{
  "original": "what the student said wrong",
  "corrected": "the correct form",
  "explanation": "brief 1-sentence explanation"
}

When introducing a new word or phrase, add an entry to "new_vocabulary":
{
  "target_text": "the word or phrase",
  "native_text": "translation",
  "pronunciation": "IPA pronunciation",
  "part_of_speech": "noun/verb/etc",
  "example_target": "Example sentence in target language.",
  "example_native": "Translation of example."
}

When teaching a grammar point, set "grammar_note":
{
  "title": "Grammar concept name",
  "explanation": "Brief explanation of the rule or pattern."
}

"estimated_comprehension" must be one of: "low", "medium", "high".
"lesson_progress_pct" is an integer 0-100 estimating how much of the lesson is complete.
"#;

/// Decimal digits of `n`.
pub open spec fn decimal(n: nat) -> Seq<char>
    decreases n,
{
    if n < 10 {
        seq![digit_char(n)]
    } else {
        decimal(n / 10) + seq![digit_char(n % 10)]
    }
}

/// The character of a decimal digit.
pub open spec fn digit_char(d: nat) -> char {
    if d == 0 {
        '0'
    } else if d == 1 {
        '1'
    } else if d == 2 {
        '2'
    } else if d == 3 {
        '3'
    } else if d == 4 {
        '4'
    } else if d == 5 {
        '5'
    } else if d == 6 {
        '6'
    } else if d == 7 {
        '7'
    } else if d == 8 {
        '8'
    } else {
        '9'
    }
}

fn exec_digit_char(d: u64) -> (c: char)
    requires
        d < 10,
    ensures
        c == digit_char(d as nat),
{
    if d == 0 {
        '0'
    } else if d == 1 {
        '1'
    } else if d == 2 {
        '2'
    } else if d == 3 {
        '3'
    } else if d == 4 {
        '4'
    } else if d == 5 {
        '5'
    } else if d == 6 {
        '6'
    } else if d == 7 {
        '7'
    } else if d == 8 {
        '8'
    } else {
        '9'
    }
}

/// Appends the decimal digits of `n` to `s`.
pub fn push_decimal(s: &mut String, n: u64)
    ensures
        final(s)@ == old(s)@ + decimal(n as nat),
    decreases n,
{
    if n >= 10 {
        push_decimal(s, n / 10);
    }
    let ghost before = s@;
    s.push(exec_digit_char(n % 10));
    proof {
        if n >= 10 {
            assert(old(s)@ + decimal(n as nat) == old(s)@ + decimal((n / 10) as nat) + seq![digit_char((n % 10) as nat)]);
        } else {
            assert(old(s)@ + decimal(n as nat) == old(s)@ + seq![digit_char(n as nat)]);
        }
    }
}

/// `items` joined with `sep` between consecutive items.
pub open spec fn join(items: Seq<Seq<char>>, sep: Seq<char>) -> Seq<char>
    decreases items.len(),
{
    if items.len() == 0 {
        Seq::empty()
    } else if items.len() == 1 {
        items[0]
    } else {
        join(items.drop_last(), sep) + sep + items.last()
    }
}

/// The views of a slice of string slices.
pub open spec fn views(items: Seq<&str>) -> Seq<Seq<char>> {
    items.map_values(|t: &str| t@)
}

/// `items` joined with `sep`, as `[&str]::join` does.
pub fn join_strs(items: &[&str], sep: &str) -> (s: String)
    ensures
        s@ == join(views(items@), sep@),
{
    let mut s = String::new();
    let mut i: usize = 0;
    while i < items.len()
        invariant
            i <= items@.len(),
            s@ == join(views(items@.take(i as int)), sep@),
        decreases items@.len() - i,
    {
        let ghost prev = views(items@.take(i as int));
        assert(views(items@.take(i + 1)).drop_last() == prev);
        assert(views(items@.take(i + 1)).last() == items@[i as int]@);
        if i > 0 {
            s.append(sep);
        } else {
            assert(prev.len() == 0);
        }
        s.append(items[i]);
        i += 1;
    }
    assert(items@.take(items@.len() as int) == items@);
    s
}

/// Opening: who the tutor is.
pub open spec fn identity_section(target_language: Seq<char>) -> Seq<char> {
    "You are a warm, patient, expert "@ + target_language
        + " tutor having a one-on-one conversation with your student. Your name is Duo.\n\n"@
}

/// The student's profile.
pub open spec fn student_section(
    student_name: Seq<char>,
    native_language: Seq<char>,
    level: Seq<char>,
    goals: Seq<Seq<char>>,
) -> Seq<char> {
    "## Your Student\n- Name: "@ + student_name + "\n- Native language: "@ + native_language
        + "\n- Current level: "@ + level + "\n- Goals: "@ + join(goals, ", "@) + "\n\n"@
}

/// What a lesson context says, as plain values: topic, scenario,
/// objectives, vocabulary as (target, native) pairs and grammar points as
/// (title, explanation) pairs.
pub struct LessonView {
    pub topic: Seq<char>,
    pub scenario: Seq<char>,
    pub objectives: Seq<Seq<char>>,
    pub vocabulary: Seq<(Seq<char>, Seq<char>)>,
    pub grammar: Seq<(Seq<char>, Seq<char>)>,
}

impl<'a> LessonContext<'a> {
    pub open spec fn view(&self) -> LessonView {
        LessonView {
            topic: self.topic@,
            scenario: self.scenario@,
            objectives: views(self.objectives@),
            vocabulary: vocab_pairs(self.vocabulary@),
            grammar: grammar_pairs(self.grammar@),
        }
    }
}

/// The (target, native) pairs of vocabulary items.
pub open spec fn vocab_pairs<'a>(items: Seq<VocabItem<'a>>) -> Seq<(Seq<char>, Seq<char>)> {
    items.map_values(|v: VocabItem<'a>| (v.target@, v.native@))
}

/// The (title, explanation) pairs of grammar points.
pub open spec fn grammar_pairs<'a>(items: Seq<GrammarFocus<'a>>) -> Seq<(Seq<char>, Seq<char>)> {
    items.map_values(|g: GrammarFocus<'a>| (g.title@, g.explanation@))
}

/// Numbered objective lines, starting at 1.
pub open spec fn objective_lines(objs: Seq<Seq<char>>) -> Seq<char>
    decreases objs.len(),
{
    if objs.len() == 0 {
        Seq::empty()
    } else {
        objective_lines(objs.drop_last()) + "  "@ + decimal(objs.len()) + ". "@ + objs.last()
            + "\n"@
    }
}

/// Vocabulary lines: "- target (native)".
pub open spec fn vocab_lines(items: Seq<(Seq<char>, Seq<char>)>) -> Seq<char>
    decreases items.len(),
{
    if items.len() == 0 {
        Seq::empty()
    } else {
        vocab_lines(items.drop_last()) + "- "@ + items.last().0 + " ("@ + items.last().1
            + ")\n"@
    }
}

/// Grammar lines: "- title: explanation".
pub open spec fn grammar_lines(items: Seq<(Seq<char>, Seq<char>)>) -> Seq<char>
    decreases items.len(),
{
    if items.len() == 0 {
        Seq::empty()
    } else {
        grammar_lines(items.drop_last()) + "- "@ + items.last().0 + ": "@ + items.last().1
            + "\n"@
    }
}

/// The lesson section: topic, scenario, objectives, and the vocabulary and
/// grammar sections when there is anything in them.
pub open spec fn lesson_section(lesson: LessonView) -> Seq<char> {
    "## This Lesson\n- Topic: "@ + lesson.topic + "\n- Scenario: "@ + lesson.scenario
        + "\n- Objectives:\n"@ + objective_lines(lesson.objectives) + "\n"@ + (if lesson.vocabulary.len()
        > 0 {
        VOCAB_HEADING@ + vocab_lines(lesson.vocabulary) + "\n"@
    } else {
        Seq::empty()
    }) + (if lesson.grammar.len() > 0 {
        "## Grammar Focus\n"@ + grammar_lines(lesson.grammar) + "\n"@
    } else {
        Seq::empty()
    })
}

/// Heading of the vocabulary section.
pub const VOCAB_HEADING: &'static str = "## Vocabulary to Introduce\nIntroduce these naturally during conversation (don't dump them all at once):\n";

/// The section that puts the tutor in free conversation mode.
pub const FREE_MODE_SECTION: &'static str = "## Mode: Free Conversation\nThis is an open-ended conversation. There is no specific lesson topic.\nFollow the student's lead — talk about whatever they want.\nStill teach naturally: introduce useful vocabulary, correct mistakes gently,\nand note grammar patterns as they come up.\n\n";

/// Percentages of target and native language for a level, by its first
/// character: A 70/30, B 85/15, C 95/5, anything else 70/30.
pub open spec fn language_mix(level: Seq<char>) -> (int, int) {
    if level.len() > 0 && level[0] == 'A' {
        (70, 30)
    } else if level.len() > 0 && level[0] == 'B' {
        (85, 15)
    } else if level.len() > 0 && level[0] == 'C' {
        (95, 5)
    } else {
        (70, 30)
    }
}

/// The conversation rules.
pub open spec fn rules_section(
    target_language: Seq<char>,
    native_language: Seq<char>,
    level: Seq<char>,
) -> Seq<char> {
    let (tp, np) = language_mix(level);
    "## Conversation Rules\n\n1. STAY IN CHARACTER while teaching. Don't break the scene to lecture.\n2. LANGUAGE MIX: Speak primarily in "@
        + target_language + ". Keep explanations of new concepts in "@ + native_language
        + ". Aim for ~"@ + decimal(tp as nat) + "% "@ + target_language + ", "@ + decimal(
        np as nat,
    ) + "% "@ + native_language + RULES_TAIL@
}

/// The rules after the language mix line.
pub const RULES_TAIL: &'static str = " at this level.\n3. INTRODUCE VOCABULARY NATURALLY by using the target words in context. When you use a new word for the first time, briefly gloss it.\n4. CORRECT GENTLY. When the student makes an error: acknowledge what they communicated, show the correct form, give a brief (1-sentence) explanation, and continue the conversation. Don't correct every small error.\n5. SCAFFOLD appropriately. If the student seems stuck, offer a suggestion.\n6. PACE YOURSELF. Introduce 2-3 new vocabulary items at a time, not all at once.\n7. Keep tutor_message.target_lang short — 1 to 3 sentences per turn — so the student can respond.\n\n";

/// Closing instruction of a lesson prompt.
pub const LESSON_CLOSING: &'static str = "\nStart by greeting the student warmly, set the scene briefly, and begin the lesson.";

/// Closing instruction of a free conversation prompt.
pub const FREE_CLOSING: &'static str = "\nStart by greeting the student warmly and asking what they'd like to talk about.";

/// The plain view of an optional lesson context.
pub open spec fn lesson_view<'a>(lesson: Option<&LessonContext<'a>>) -> Option<LessonView> {
    match lesson {
        Some(l) => Some(l.view()),
        None => None,
    }
}

/// The whole system prompt.
pub open spec fn system_prompt(
    target_language: Seq<char>,
    student_name: Seq<char>,
    native_language: Seq<char>,
    level: Seq<char>,
    goals: Seq<Seq<char>>,
    lesson: Option<LessonView>,
) -> Seq<char> {
    identity_section(target_language) + student_section(student_name, native_language, level, goals)
        + match lesson {
        Some(l) => lesson_section(l),
        None => FREE_MODE_SECTION@,
    } + rules_section(target_language, native_language, level) + RESPONSE_FORMAT@ + match lesson {
        Some(_) => LESSON_CLOSING@,
        None => FREE_CLOSING@,
    }
}

fn append_objective_lines(prompt: &mut String, objectives: &[&str])
    ensures
        final(prompt)@ == old(prompt)@ + objective_lines(views(objectives@)),
{
    let ghost p1 = prompt@;
    let mut i: usize = 0;
    while i < objectives.len()
        invariant
            i <= objectives@.len(),
            prompt@ == p1 + objective_lines(views(objectives@.take(i as int))),
        decreases objectives@.len() - i,
    {
        let ghost o = objectives@.take(i + 1);
        assert(views(o).drop_last() =~= views(objectives@.take(i as int)));
        prompt.append("  ");
        push_decimal(prompt, (i + 1) as u64);
        prompt.append(". ");
        prompt.append(objectives[i]);
        prompt.append("\n");
        i += 1;
    }
    assert(objectives@.take(objectives@.len() as int) == objectives@);
}

fn append_vocab_lines(prompt: &mut String, vocabulary: &[VocabItem<'_>])
    ensures
        final(prompt)@ == old(prompt)@ + vocab_lines(vocab_pairs(vocabulary@)),
{
    let ghost p3 = prompt@;
    let mut j: usize = 0;
    while j < vocabulary.len()
        invariant
            j <= vocabulary@.len(),
            prompt@ == p3 + vocab_lines(vocab_pairs(vocabulary@.take(j as int))),
        decreases vocabulary@.len() - j,
    {
        let ghost o = vocabulary@.take(j + 1);
        assert(vocab_pairs(o).drop_last() =~= vocab_pairs(vocabulary@.take(j as int)));
        let v = &vocabulary[j];
        prompt.append("- ");
        prompt.append(v.target);
        prompt.append(" (");
        prompt.append(v.native);
        prompt.append(")\n");
        j += 1;
    }
    assert(vocabulary@.take(vocabulary@.len() as int) == vocabulary@);
}

fn append_grammar_lines(prompt: &mut String, grammar: &[GrammarFocus<'_>])
    ensures
        final(prompt)@ == old(prompt)@ + grammar_lines(grammar_pairs(grammar@)),
{
    let ghost p5 = prompt@;
    let mut k: usize = 0;
    while k < grammar.len()
        invariant
            k <= grammar@.len(),
            prompt@ == p5 + grammar_lines(grammar_pairs(grammar@.take(k as int))),
        decreases grammar@.len() - k,
    {
        let ghost o = grammar@.take(k + 1);
        assert(grammar_pairs(o).drop_last() =~= grammar_pairs(grammar@.take(k as int)));
        let g = &grammar[k];
        prompt.append("- ");
        prompt.append(g.title);
        prompt.append(": ");
        prompt.append(g.explanation);
        prompt.append("\n");
        k += 1;
    }
    assert(grammar@.take(grammar@.len() as int) == grammar@);
}

fn append_lesson_section(prompt: &mut String, lesson: &LessonContext<'_>)
    ensures
        final(prompt)@ == old(prompt)@ + lesson_section(lesson.view()),
{
    prompt.append("## This Lesson\n- Topic: ");
    prompt.append(lesson.topic);
    prompt.append("\n- Scenario: ");
    prompt.append(lesson.scenario);
    prompt.append("\n- Objectives:\n");
    append_objective_lines(prompt, lesson.objectives);
    prompt.push('\n');
    assert(seq!['\n'] == "\n"@) by {
        reveal_strlit("\n");
    }
    if lesson.vocabulary.len() > 0 {
        prompt.append(VOCAB_HEADING);
        append_vocab_lines(prompt, lesson.vocabulary);
        prompt.push('\n');
    }
    if lesson.grammar.len() > 0 {
        prompt.append("## Grammar Focus\n");
        append_grammar_lines(prompt, lesson.grammar);
        prompt.push('\n');
    }
}

fn append_student_section(
    prompt: &mut String,
    student_name: &str,
    native_language: &str,
    level: &str,
    goals: &[&str],
)
    ensures
        final(prompt)@ == old(prompt)@ + student_section(
            student_name@,
            native_language@,
            level@,
            views(goals@),
        ),
{
    prompt.append("## Your Student\n- Name: ");
    prompt.append(student_name);
    prompt.append("\n- Native language: ");
    prompt.append(native_language);
    prompt.append("\n- Current level: ");
    prompt.append(level);
    prompt.append("\n- Goals: ");
    let joined = join_strs(goals, ", ");
    prompt.append(joined.as_str());
    prompt.append("\n\n");
}

fn append_rules_section(prompt: &mut String, target_language: &str, native_language: &str, level: &str)
    ensures
        final(prompt)@ == old(prompt)@ + rules_section(target_language@, native_language@, level@),
{
    let first = if level.unicode_len() > 0 { Some(level.get_char(0)) } else { None };
    let (target_pct, native_pct): (usize, usize) = match first {
        Some('A') => (70, 30),
        Some('B') => (85, 15),
        Some('C') => (95, 5),
        _ => (70, 30),
    };
    assert((target_pct as int, native_pct as int) == language_mix(level@));
    prompt.append("## Conversation Rules\n\n1. STAY IN CHARACTER while teaching. Don't break the scene to lecture.\n2. LANGUAGE MIX: Speak primarily in ");
    prompt.append(target_language);
    prompt.append(". Keep explanations of new concepts in ");
    prompt.append(native_language);
    prompt.append(". Aim for ~");
    push_decimal(prompt, target_pct as u64);
    prompt.append("% ");
    prompt.append(target_language);
    prompt.append(", ");
    push_decimal(prompt, native_pct as u64);
    prompt.append("% ");
    prompt.append(native_language);
    prompt.append(RULES_TAIL);
}

/// Build the system prompt from the learner's profile and optional lesson
/// context.  Without a lesson the tutor enters free conversation mode.
pub fn build_system_prompt(
    target_language: &str,
    student_name: &str,
    native_language: &str,
    level: &str,
    goals: &[&str],
    lesson: Option<&LessonContext<'_>>,
) -> (prompt: String)
    ensures
        prompt@ == system_prompt(
            target_language@,
            student_name@,
            native_language@,
            level@,
            views(goals@),
            lesson_view(lesson),
        ),
{
    let mut prompt = String::new();
    prompt.append("You are a warm, patient, expert ");
    prompt.append(target_language);
    prompt.append(" tutor having a one-on-one conversation with your student. Your name is Duo.\n\n");
    assert(prompt@ == identity_section(target_language@));
    append_student_section(&mut prompt, student_name, native_language, level, goals);
    match lesson {
        Some(l) => append_lesson_section(&mut prompt, l),
        None => prompt.append(FREE_MODE_SECTION),
    }
    append_rules_section(&mut prompt, target_language, native_language, level);
    prompt.append(RESPONSE_FORMAT);
    if lesson.is_some() {
        prompt.append(LESSON_CLOSING);
    } else {
        prompt.append(FREE_CLOSING);
    }
    prompt
}

} // verus!
