//! Static grammar concept seed data per language and CEFR level, inserted
//! into the store during onboarding.

use vstd::prelude::*;
use vstd::string::StrSliceExecFns;
use crate::db::NewGrammarConcept;
use crate::text::{is_ws, lowercase, owned, str_eq, to_lowercase, to_uppercase, uppercase};

verus! {

/// A seeded concept as text: slug, name, description, CEFR level.
pub type ConceptText = (Seq<char>, Seq<char>, Seq<char>, Seq<char>);

/// The texts of a list of concepts.
pub open spec fn concept_texts(v: Seq<NewGrammarConcept>) -> Seq<ConceptText> {
    v.map_values(|c: NewGrammarConcept| c.view_tuple())
}

/// A concept built from its four texts.
fn c(slug: &str, name: &str, desc: &str, level: &str) -> (r: NewGrammarConcept)
    ensures
        r.view_tuple() == (slug@, name@, desc@, level@),
{
    NewGrammarConcept {
        slug: owned(slug),
        name: owned(name),
        description: owned(desc),
        cefr_level: owned(level),
    }
}

/// The Spanish concepts taught at a CEFR level.
pub open spec fn spanish_seeds(level: Seq<char>) -> Seq<ConceptText> {
    if level == "A1"@ {
        seq![
            ("es_articles"@, "Articles (el/la/los/las)"@, "Definite and indefinite articles with gender and number"@, "A1"@),
            ("es_noun_gender"@, "Noun Gender"@, "Masculine and feminine nouns; -o/-a patterns and exceptions"@, "A1"@),
            ("es_ser_estar_present"@, "Ser vs Estar (present)"@, "Two 'to be' verbs: identity/traits vs state/location"@, "A1"@),
            ("es_present_regular"@, "Present Tense (regular)"@, "Regular -ar, -er, -ir verb conjugation"@, "A1"@),
            ("es_adjective_agreement"@, "Adjective Agreement"@, "Adjectives match noun in gender and number"@, "A1"@),
            ("es_basic_negation"@, "Basic Negation"@, "Using 'no' before the verb"@, "A1"@),
            ("es_questions"@, "Question Formation"@, "Interrogative words: qué, quién, dónde, cuándo, cómo"@, "A1"@),
            ("es_hay"@, "Hay (there is/are)"@, "Expressing existence with 'hay'"@, "A1"@),
            ("es_possessives"@, "Possessive Adjectives"@, "mi, tu, su, nuestro, vuestro, su"@, "A1"@),
            ("es_numbers_time"@, "Numbers and Telling Time"@, "Cardinal numbers, expressing time"@, "A1"@),
        ]
    } else if level == "A2"@ {
        seq![
            ("es_present_irregular"@, "Present Tense (irregular)"@, "Common stem-changers: e→ie, o→ue, e→i"@, "A2"@),
            ("es_preterite_regular"@, "Preterite (regular)"@, "Past actions: regular -ar, -er, -ir endings"@, "A2"@),
            ("es_preterite_irregular"@, "Preterite (irregular)"@, "Irregular preterites: ir/ser, hacer, tener, estar"@, "A2"@),
            ("es_reflexive_verbs"@, "Reflexive Verbs"@, "Me, te, se, nos + verb for daily routines"@, "A2"@),
            ("es_gustar"@, "Gustar Construction"@, "'A mí me gusta' — the reverse construction for likes"@, "A2"@),
            ("es_direct_object"@, "Direct Object Pronouns"@, "lo, la, los, las — replacing direct objects"@, "A2"@),
            ("es_ir_a_infinitive"@, "Ir a + infinitive"@, "Near future: 'Voy a comer'"@, "A2"@),
            ("es_comparatives"@, "Comparatives"@, "más/menos...que, tan...como, mejor/peor"@, "A2"@),
            ("es_demonstratives"@, "Demonstratives"@, "este/ese/aquel and their forms"@, "A2"@),
            ("es_prepositions"@, "Common Prepositions"@, "a, de, en, con, por, para basics"@, "A2"@),
        ]
    } else if level == "B1"@ {
        seq![
            ("es_imperfect"@, "Imperfect Tense"@, "Habitual past, descriptions, background actions"@, "B1"@),
            ("es_pret_vs_imp"@, "Preterite vs Imperfect"@, "Choosing between completed vs ongoing past"@, "B1"@),
            ("es_present_perfect"@, "Present Perfect"@, "He/has/ha + past participle for recent past"@, "B1"@),
            ("es_subjunctive_present"@, "Present Subjunctive"@, "Subjunctive after querer que, esperar que, es importante que"@, "B1"@),
            ("es_indirect_object"@, "Indirect Object Pronouns"@, "me, te, le, nos, les — and doubling with 'a'"@, "B1"@),
            ("es_por_para"@, "Por vs Para"@, "Distinguishing 'for' — reason/exchange vs purpose/destination"@, "B1"@),
            ("es_conditional"@, "Conditional Tense"@, "Would do: hablar → hablaría"@, "B1"@),
            ("es_relative_clauses"@, "Relative Clauses"@, "que, quien, donde, lo que in relative clauses"@, "B1"@),
            ("es_commands_informal"@, "Informal Commands (tú)"@, "Affirmative and negative tú imperatives"@, "B1"@),
            ("es_adverbs"@, "Adverbs (-mente)"@, "Forming adverbs from adjectives + irregular adverbs"@, "B1"@),
        ]
    } else if level == "B2"@ {
        seq![
            ("es_subjunctive_past"@, "Past Subjunctive"@, "Imperfect subjunctive: si yo fuera, quisiera que"@, "B2"@),
            ("es_conditional_si"@, "Si Clauses (conditionals)"@, "Real and unreal conditionals: si + present/past subjunctive"@, "B2"@),
            ("es_passive_voice"@, "Passive Voice"@, "Ser + participle and 'se' passive constructions"@, "B2"@),
            ("es_perfect_tenses"@, "Compound Perfect Tenses"@, "Pluperfect, future perfect, conditional perfect"@, "B2"@),
            ("es_subjunctive_triggers"@, "Subjunctive Triggers"@, "WEIRDO categories: wishes, emotion, impersonal, recommendations, doubt, ojalá"@, "B2"@),
            ("es_formal_commands"@, "Formal Commands (usted)"@, "Usted/ustedes imperatives"@, "B2"@),
            ("es_discourse_connectors"@, "Discourse Connectors"@, "sin embargo, por lo tanto, en cambio, a pesar de"@, "B2"@),
            ("es_nominalizations"@, "Nominalizations"@, "Using articles with adjectives/infinitives as nouns"@, "B2"@),
        ]
    } else {
        Seq::empty()
    }
}

/// The Spanish concepts taught at a CEFR level.
fn spanish(level: &str) -> (v: Vec<NewGrammarConcept>)
    ensures
        concept_texts(v@) == spanish_seeds(level@),
{
    if str_eq(level, "A1") {
        let v = vec![
            c("es_articles", "Articles (el/la/los/las)", "Definite and indefinite articles with gender and number", "A1"),
            c("es_noun_gender", "Noun Gender", "Masculine and feminine nouns; -o/-a patterns and exceptions", "A1"),
            c("es_ser_estar_present", "Ser vs Estar (present)", "Two 'to be' verbs: identity/traits vs state/location", "A1"),
            c("es_present_regular", "Present Tense (regular)", "Regular -ar, -er, -ir verb conjugation", "A1"),
            c("es_adjective_agreement", "Adjective Agreement", "Adjectives match noun in gender and number", "A1"),
            c("es_basic_negation", "Basic Negation", "Using 'no' before the verb", "A1"),
            c("es_questions", "Question Formation", "Interrogative words: qué, quién, dónde, cuándo, cómo", "A1"),
            c("es_hay", "Hay (there is/are)", "Expressing existence with 'hay'", "A1"),
            c("es_possessives", "Possessive Adjectives", "mi, tu, su, nuestro, vuestro, su", "A1"),
            c("es_numbers_time", "Numbers and Telling Time", "Cardinal numbers, expressing time", "A1"),
        ];
        assert(concept_texts(v@) == spanish_seeds(level@));
        v
    } else if str_eq(level, "A2") {
        let v = vec![
            c("es_present_irregular", "Present Tense (irregular)", "Common stem-changers: e→ie, o→ue, e→i", "A2"),
            c("es_preterite_regular", "Preterite (regular)", "Past actions: regular -ar, -er, -ir endings", "A2"),
            c("es_preterite_irregular", "Preterite (irregular)", "Irregular preterites: ir/ser, hacer, tener, estar", "A2"),
            c("es_reflexive_verbs", "Reflexive Verbs", "Me, te, se, nos + verb for daily routines", "A2"),
            c("es_gustar", "Gustar Construction", "'A mí me gusta' — the reverse construction for likes", "A2"),
            c("es_direct_object", "Direct Object Pronouns", "lo, la, los, las — replacing direct objects", "A2"),
            c("es_ir_a_infinitive", "Ir a + infinitive", "Near future: 'Voy a comer'", "A2"),
            c("es_comparatives", "Comparatives", "más/menos...que, tan...como, mejor/peor", "A2"),
            c("es_demonstratives", "Demonstratives", "este/ese/aquel and their forms", "A2"),
            c("es_prepositions", "Common Prepositions", "a, de, en, con, por, para basics", "A2"),
        ];
        assert(concept_texts(v@) == spanish_seeds(level@));
        v
    } else if str_eq(level, "B1") {
        let v = vec![
            c("es_imperfect", "Imperfect Tense", "Habitual past, descriptions, background actions", "B1"),
            c("es_pret_vs_imp", "Preterite vs Imperfect", "Choosing between completed vs ongoing past", "B1"),
            c("es_present_perfect", "Present Perfect", "He/has/ha + past participle for recent past", "B1"),
            c("es_subjunctive_present", "Present Subjunctive", "Subjunctive after querer que, esperar que, es importante que", "B1"),
            c("es_indirect_object", "Indirect Object Pronouns", "me, te, le, nos, les — and doubling with 'a'", "B1"),
            c("es_por_para", "Por vs Para", "Distinguishing 'for' — reason/exchange vs purpose/destination", "B1"),
            c("es_conditional", "Conditional Tense", "Would do: hablar → hablaría", "B1"),
            c("es_relative_clauses", "Relative Clauses", "que, quien, donde, lo que in relative clauses", "B1"),
            c("es_commands_informal", "Informal Commands (tú)", "Affirmative and negative tú imperatives", "B1"),
            c("es_adverbs", "Adverbs (-mente)", "Forming adverbs from adjectives + irregular adverbs", "B1"),
        ];
        assert(concept_texts(v@) == spanish_seeds(level@));
        v
    } else if str_eq(level, "B2") {
        let v = vec![
            c("es_subjunctive_past", "Past Subjunctive", "Imperfect subjunctive: si yo fuera, quisiera que", "B2"),
            c("es_conditional_si", "Si Clauses (conditionals)", "Real and unreal conditionals: si + present/past subjunctive", "B2"),
            c("es_passive_voice", "Passive Voice", "Ser + participle and 'se' passive constructions", "B2"),
            c("es_perfect_tenses", "Compound Perfect Tenses", "Pluperfect, future perfect, conditional perfect", "B2"),
            c("es_subjunctive_triggers", "Subjunctive Triggers", "WEIRDO categories: wishes, emotion, impersonal, recommendations, doubt, ojalá", "B2"),
            c("es_formal_commands", "Formal Commands (usted)", "Usted/ustedes imperatives", "B2"),
            c("es_discourse_connectors", "Discourse Connectors", "sin embargo, por lo tanto, en cambio, a pesar de", "B2"),
            c("es_nominalizations", "Nominalizations", "Using articles with adjectives/infinitives as nouns", "B2"),
        ];
        assert(concept_texts(v@) == spanish_seeds(level@));
        v
    } else {
        let v: Vec<NewGrammarConcept> = Vec::new();
        assert(concept_texts(v@) == Seq::<ConceptText>::empty());
        v
    }
}

/// The French concepts taught at a CEFR level.
pub open spec fn french_seeds(level: Seq<char>) -> Seq<ConceptText> {
    if level == "A1"@ {
        seq![
            ("fr_articles"@, "Articles (le/la/les/un/une)"@, "Definite and indefinite articles"@, "A1"@),
            ("fr_noun_gender"@, "Noun Gender"@, "Masculine and feminine nouns"@, "A1"@),
            ("fr_present_regular"@, "Present Tense (regular)"@, "-er, -ir, -re verb conjugation"@, "A1"@),
            ("fr_etre_avoir"@, "Être and Avoir"@, "Conjugation and usage of the two core verbs"@, "A1"@),
            ("fr_negation"@, "Negation (ne...pas)"@, "Basic sentence negation"@, "A1"@),
            ("fr_adjective_agreement"@, "Adjective Agreement"@, "Gender and number agreement, position rules"@, "A1"@),
            ("fr_questions"@, "Question Formation"@, "Est-ce que, inversion, intonation"@, "A1"@),
            ("fr_possessives"@, "Possessive Adjectives"@, "mon/ma/mes, ton/ta/tes, son/sa/ses"@, "A1"@),
            ("fr_il_y_a"@, "Il y a"@, "Expressing existence: there is/are"@, "A1"@),
        ]
    } else if level == "A2"@ {
        seq![
            ("fr_passe_compose"@, "Passé Composé"@, "Past tense with avoir/être + past participle"@, "A2"@),
            ("fr_imparfait"@, "Imparfait"@, "Ongoing/habitual past actions"@, "A2"@),
            ("fr_reflexive"@, "Reflexive Verbs"@, "se lever, se coucher — pronominal verbs"@, "A2"@),
            ("fr_pronouns_cod_coi"@, "Object Pronouns (COD/COI)"@, "le/la/les, lui/leur — direct and indirect"@, "A2"@),
            ("fr_futur_proche"@, "Futur Proche"@, "aller + infinitive for near future"@, "A2"@),
            ("fr_comparatives"@, "Comparatives & Superlatives"@, "plus/moins/aussi...que, le plus/le moins"@, "A2"@),
            ("fr_partitive"@, "Partitive Articles"@, "du, de la, des — some/any"@, "A2"@),
            ("fr_imperative"@, "Imperative"@, "Command forms for tu, nous, vous"@, "A2"@),
        ]
    } else if level == "B1"@ {
        seq![
            ("fr_pc_vs_imp"@, "Passé Composé vs Imparfait"@, "Choosing between completed vs background past"@, "B1"@),
            ("fr_subjonctif"@, "Present Subjunctive"@, "After il faut que, je veux que, emotion verbs"@, "B1"@),
            ("fr_conditionnel"@, "Conditional"@, "Would: je voudrais, j'aimerais"@, "B1"@),
            ("fr_si_clauses"@, "Si Clauses"@, "Conditional sentences: si + imparfait → conditionnel"@, "B1"@),
            ("fr_relative_pronouns"@, "Relative Pronouns"@, "qui, que, dont, où in relative clauses"@, "B1"@),
            ("fr_y_en"@, "Pronouns Y and En"@, "Replacing à + noun (y) and de + noun (en)"@, "B1"@),
            ("fr_plus_que_parfait"@, "Plus-que-parfait"@, "Pluperfect: had done"@, "B1"@),
        ]
    } else if level == "B2"@ {
        seq![
            ("fr_subjonctif_past"@, "Past Subjunctive"@, "que j'aie fait — subjunctive for past events"@, "B2"@),
            ("fr_passive"@, "Passive Voice"@, "être + past participle constructions"@, "B2"@),
            ("fr_futur_anterieur"@, "Futur Antérieur"@, "Future perfect: will have done"@, "B2"@),
            ("fr_ne_expletif"@, "Ne Explétif"@, "Non-negative ne after avant que, à moins que"@, "B2"@),
            ("fr_discourse_markers"@, "Discourse Markers"@, "cependant, néanmoins, en revanche, toutefois"@, "B2"@),
        ]
    } else {
        Seq::empty()
    }
}

/// The French concepts taught at a CEFR level.
fn french(level: &str) -> (v: Vec<NewGrammarConcept>)
    ensures
        concept_texts(v@) == french_seeds(level@),
{
    if str_eq(level, "A1") {
        let v = vec![
            c("fr_articles", "Articles (le/la/les/un/une)", "Definite and indefinite articles", "A1"),
            c("fr_noun_gender", "Noun Gender", "Masculine and feminine nouns", "A1"),
            c("fr_present_regular", "Present Tense (regular)", "-er, -ir, -re verb conjugation", "A1"),
            c("fr_etre_avoir", "Être and Avoir", "Conjugation and usage of the two core verbs", "A1"),
            c("fr_negation", "Negation (ne...pas)", "Basic sentence negation", "A1"),
            c("fr_adjective_agreement", "Adjective Agreement", "Gender and number agreement, position rules", "A1"),
            c("fr_questions", "Question Formation", "Est-ce que, inversion, intonation", "A1"),
            c("fr_possessives", "Possessive Adjectives", "mon/ma/mes, ton/ta/tes, son/sa/ses", "A1"),
            c("fr_il_y_a", "Il y a", "Expressing existence: there is/are", "A1"),
        ];
        assert(concept_texts(v@) == french_seeds(level@));
        v
    } else if str_eq(level, "A2") {
        let v = vec![
            c("fr_passe_compose", "Passé Composé", "Past tense with avoir/être + past participle", "A2"),
            c("fr_imparfait", "Imparfait", "Ongoing/habitual past actions", "A2"),
            c("fr_reflexive", "Reflexive Verbs", "se lever, se coucher — pronominal verbs", "A2"),
            c("fr_pronouns_cod_coi", "Object Pronouns (COD/COI)", "le/la/les, lui/leur — direct and indirect", "A2"),
            c("fr_futur_proche", "Futur Proche", "aller + infinitive for near future", "A2"),
            c("fr_comparatives", "Comparatives & Superlatives", "plus/moins/aussi...que, le plus/le moins", "A2"),
            c("fr_partitive", "Partitive Articles", "du, de la, des — some/any", "A2"),
            c("fr_imperative", "Imperative", "Command forms for tu, nous, vous", "A2"),
        ];
        assert(concept_texts(v@) == french_seeds(level@));
        v
    } else if str_eq(level, "B1") {
        let v = vec![
            c("fr_pc_vs_imp", "Passé Composé vs Imparfait", "Choosing between completed vs background past", "B1"),
            c("fr_subjonctif", "Present Subjunctive", "After il faut que, je veux que, emotion verbs", "B1"),
            c("fr_conditionnel", "Conditional", "Would: je voudrais, j'aimerais", "B1"),
            c("fr_si_clauses", "Si Clauses", "Conditional sentences: si + imparfait → conditionnel", "B1"),
            c("fr_relative_pronouns", "Relative Pronouns", "qui, que, dont, où in relative clauses", "B1"),
            c("fr_y_en", "Pronouns Y and En", "Replacing à + noun (y) and de + noun (en)", "B1"),
            c("fr_plus_que_parfait", "Plus-que-parfait", "Pluperfect: had done", "B1"),
        ];
        assert(concept_texts(v@) == french_seeds(level@));
        v
    } else if str_eq(level, "B2") {
        let v = vec![
            c("fr_subjonctif_past", "Past Subjunctive", "que j'aie fait — subjunctive for past events", "B2"),
            c("fr_passive", "Passive Voice", "être + past participle constructions", "B2"),
            c("fr_futur_anterieur", "Futur Antérieur", "Future perfect: will have done", "B2"),
            c("fr_ne_expletif", "Ne Explétif", "Non-negative ne after avant que, à moins que", "B2"),
            c("fr_discourse_markers", "Discourse Markers", "cependant, néanmoins, en revanche, toutefois", "B2"),
        ];
        assert(concept_texts(v@) == french_seeds(level@));
        v
    } else {
        let v: Vec<NewGrammarConcept> = Vec::new();
        assert(concept_texts(v@) == Seq::<ConceptText>::empty());
        v
    }
}

/// The German concepts taught at a CEFR level.
pub open spec fn german_seeds(level: Seq<char>) -> Seq<ConceptText> {
    if level == "A1"@ {
        seq![
            ("de_articles_cases"@, "Articles & Cases (Nom/Akk)"@, "der/die/das, ein/eine and nominative vs accusative"@, "A1"@),
            ("de_present_regular"@, "Present Tense"@, "Regular and common irregular verbs"@, "A1"@),
            ("de_word_order"@, "Word Order (V2)"@, "Verb-second rule in main clauses"@, "A1"@),
            ("de_negation"@, "Negation (nicht/kein)"@, "Sentence vs noun negation"@, "A1"@),
            ("de_modal_verbs"@, "Modal Verbs"@, "können, müssen, wollen, dürfen, sollen, mögen"@, "A1"@),
            ("de_possessives"@, "Possessive Pronouns"@, "mein, dein, sein, ihr, unser, euer"@, "A1"@),
            ("de_separable_verbs"@, "Separable Verbs"@, "anfangen, aufstehen — prefix goes to end"@, "A1"@),
            ("de_plural"@, "Noun Plurals"@, "Die five plural patterns: -e, -er, -n, -en, -s, umlaut"@, "A1"@),
        ]
    } else if level == "A2"@ {
        seq![
            ("de_dative"@, "Dative Case"@, "dem/der/den — indirect objects and dative prepositions"@, "A2"@),
            ("de_perfekt"@, "Perfekt (conversational past)"@, "haben/sein + past participle"@, "A2"@),
            ("de_prepositions"@, "Prepositions with Cases"@, "Two-way prepositions: in, an, auf, über, unter, etc."@, "A2"@),
            ("de_subordinate_clauses"@, "Subordinate Clauses"@, "Verb-final with weil, dass, wenn, ob"@, "A2"@),
            ("de_reflexive"@, "Reflexive Verbs"@, "sich waschen, sich freuen — reflexive pronouns"@, "A2"@),
            ("de_comparatives"@, "Comparatives & Superlatives"@, "größer als, am größten"@, "A2"@),
            ("de_imperative"@, "Imperative"@, "du/ihr/Sie command forms"@, "A2"@),
        ]
    } else if level == "B1"@ {
        seq![
            ("de_genitive"@, "Genitive Case"@, "des/der — possession and genitive prepositions"@, "B1"@),
            ("de_praeteritum"@, "Präteritum (written past)"@, "Simple past for narratives"@, "B1"@),
            ("de_konjunktiv_ii"@, "Konjunktiv II"@, "Subjunctive for wishes and conditionals: würde, wäre, hätte"@, "B1"@),
            ("de_passive"@, "Passive Voice"@, "werden + past participle"@, "B1"@),
            ("de_relative_clauses"@, "Relative Clauses"@, "der/die/das as relative pronouns"@, "B1"@),
            ("de_infinitive_zu"@, "Infinitive with zu"@, "um...zu, ohne...zu, anstatt...zu"@, "B1"@),
            ("de_adjective_endings"@, "Adjective Endings"@, "Strong, weak, and mixed declension"@, "B1"@),
        ]
    } else if level == "B2"@ {
        seq![
            ("de_konjunktiv_i"@, "Konjunktiv I"@, "Indirect speech: er sage, sie habe"@, "B2"@),
            ("de_plusquamperfekt"@, "Plusquamperfekt"@, "Past perfect: hatte gemacht, war gegangen"@, "B2"@),
            ("de_future_perfect"@, "Futur II"@, "Future perfect: wird gemacht haben"@, "B2"@),
            ("de_extended_attributes"@, "Extended Attributes"@, "Participial attributes before nouns"@, "B2"@),
            ("de_connectors"@, "Advanced Connectors"@, "dementsprechend, infolgedessen, nichtsdestotrotz"@, "B2"@),
        ]
    } else {
        Seq::empty()
    }
}

/// The German concepts taught at a CEFR level.
fn german(level: &str) -> (v: Vec<NewGrammarConcept>)
    ensures
        concept_texts(v@) == german_seeds(level@),
{
    if str_eq(level, "A1") {
        let v = vec![
            c("de_articles_cases", "Articles & Cases (Nom/Akk)", "der/die/das, ein/eine and nominative vs accusative", "A1"),
            c("de_present_regular", "Present Tense", "Regular and common irregular verbs", "A1"),
            c("de_word_order", "Word Order (V2)", "Verb-second rule in main clauses", "A1"),
            c("de_negation", "Negation (nicht/kein)", "Sentence vs noun negation", "A1"),
            c("de_modal_verbs", "Modal Verbs", "können, müssen, wollen, dürfen, sollen, mögen", "A1"),
            c("de_possessives", "Possessive Pronouns", "mein, dein, sein, ihr, unser, euer", "A1"),
            c("de_separable_verbs", "Separable Verbs", "anfangen, aufstehen — prefix goes to end", "A1"),
            c("de_plural", "Noun Plurals", "Die five plural patterns: -e, -er, -n, -en, -s, umlaut", "A1"),
        ];
        assert(concept_texts(v@) == german_seeds(level@));
        v
    } else if str_eq(level, "A2") {
        let v = vec![
            c("de_dative", "Dative Case", "dem/der/den — indirect objects and dative prepositions", "A2"),
            c("de_perfekt", "Perfekt (conversational past)", "haben/sein + past participle", "A2"),
            c("de_prepositions", "Prepositions with Cases", "Two-way prepositions: in, an, auf, über, unter, etc.", "A2"),
            c("de_subordinate_clauses", "Subordinate Clauses", "Verb-final with weil, dass, wenn, ob", "A2"),
            c("de_reflexive", "Reflexive Verbs", "sich waschen, sich freuen — reflexive pronouns", "A2"),
            c("de_comparatives", "Comparatives & Superlatives", "größer als, am größten", "A2"),
            c("de_imperative", "Imperative", "du/ihr/Sie command forms", "A2"),
        ];
        assert(concept_texts(v@) == german_seeds(level@));
        v
    } else if str_eq(level, "B1") {
        let v = vec![
            c("de_genitive", "Genitive Case", "des/der — possession and genitive prepositions", "B1"),
            c("de_praeteritum", "Präteritum (written past)", "Simple past for narratives", "B1"),
            c("de_konjunktiv_ii", "Konjunktiv II", "Subjunctive for wishes and conditionals: würde, wäre, hätte", "B1"),
            c("de_passive", "Passive Voice", "werden + past participle", "B1"),
            c("de_relative_clauses", "Relative Clauses", "der/die/das as relative pronouns", "B1"),
            c("de_infinitive_zu", "Infinitive with zu", "um...zu, ohne...zu, anstatt...zu", "B1"),
            c("de_adjective_endings", "Adjective Endings", "Strong, weak, and mixed declension", "B1"),
        ];
        assert(concept_texts(v@) == german_seeds(level@));
        v
    } else if str_eq(level, "B2") {
        let v = vec![
            c("de_konjunktiv_i", "Konjunktiv I", "Indirect speech: er sage, sie habe", "B2"),
            c("de_plusquamperfekt", "Plusquamperfekt", "Past perfect: hatte gemacht, war gegangen", "B2"),
            c("de_future_perfect", "Futur II", "Future perfect: wird gemacht haben", "B2"),
            c("de_extended_attributes", "Extended Attributes", "Participial attributes before nouns", "B2"),
            c("de_connectors", "Advanced Connectors", "dementsprechend, infolgedessen, nichtsdestotrotz", "B2"),
        ];
        assert(concept_texts(v@) == german_seeds(level@));
        v
    } else {
        let v: Vec<NewGrammarConcept> = Vec::new();
        assert(concept_texts(v@) == Seq::<ConceptText>::empty());
        v
    }
}

/// The Italian concepts taught at a CEFR level.
pub open spec fn italian_seeds(level: Seq<char>) -> Seq<ConceptText> {
    if level == "A1"@ {
        seq![
            ("it_articles"@, "Articles (il/lo/la/i/gli/le)"@, "Definite and indefinite articles"@, "A1"@),
            ("it_present_regular"@, "Present Tense (regular)"@, "-are, -ere, -ire verb conjugation"@, "A1"@),
            ("it_essere_avere"@, "Essere and Avere"@, "Core verbs: to be and to have"@, "A1"@),
            ("it_adjective_agreement"@, "Adjective Agreement"@, "Gender and number, position rules"@, "A1"@),
            ("it_negation"@, "Negation"@, "Non before the verb"@, "A1"@),
            ("it_questions"@, "Question Formation"@, "Che, chi, dove, quando, come, perché"@, "A1"@),
            ("it_possessives"@, "Possessive Adjectives"@, "il mio, la tua — with articles"@, "A1"@),
            ("it_ci_e"@, "C'è / Ci sono"@, "There is / there are"@, "A1"@),
        ]
    } else if level == "A2"@ {
        seq![
            ("it_passato_prossimo"@, "Passato Prossimo"@, "Past tense: avere/essere + past participle"@, "A2"@),
            ("it_imperfetto"@, "Imperfetto"@, "Habitual and descriptive past"@, "A2"@),
            ("it_reflexive"@, "Reflexive Verbs"@, "alzarsi, lavarsi — reflexive pronouns"@, "A2"@),
            ("it_object_pronouns"@, "Object Pronouns"@, "lo/la/li/le, mi/ti/ci/vi — direct and indirect"@, "A2"@),
            ("it_future"@, "Future Tense"@, "Regular and irregular future: andrò, farò"@, "A2"@),
            ("it_imperative"@, "Imperative"@, "tu/noi/voi command forms"@, "A2"@),
            ("it_prepositions"@, "Prepositions"@, "di, a, da, in, con, su + articulated forms"@, "A2"@),
        ]
    } else if level == "B1"@ {
        seq![
            ("it_pp_vs_imp"@, "Passato Prossimo vs Imperfetto"@, "Completed vs ongoing/habitual past"@, "B1"@),
            ("it_congiuntivo"@, "Congiuntivo Presente"@, "Subjunctive after pensare che, volere che"@, "B1"@),
            ("it_condizionale"@, "Condizionale"@, "Would: vorrei, potrei, dovrei"@, "B1"@),
            ("it_si_impersonale"@, "Si Impersonale/Passivante"@, "Impersonal and passive si constructions"@, "B1"@),
            ("it_relative_pronouns"@, "Relative Pronouns"@, "che, cui, il quale in relative clauses"@, "B1"@),
            ("it_ne_ci"@, "Ne and Ci"@, "Pronominal particles for partitive and locative"@, "B1"@),
        ]
    } else if level == "B2"@ {
        seq![
            ("it_congiuntivo_past"@, "Congiuntivo Imperfetto/Trapassato"@, "Past subjunctive forms"@, "B2"@),
            ("it_periodo_ipotetico"@, "Periodo Ipotetico"@, "If-clauses: real, possible, and impossible conditions"@, "B2"@),
            ("it_passivo"@, "Passive Voice"@, "essere/venire + past participle"@, "B2"@),
            ("it_gerundio"@, "Gerundio"@, "Progressive and adverbial uses of -ando/-endo"@, "B2"@),
            ("it_discourse_markers"@, "Discourse Markers"@, "tuttavia, pertanto, nonostante, anzi"@, "B2"@),
        ]
    } else {
        Seq::empty()
    }
}

/// The Italian concepts taught at a CEFR level.
fn italian(level: &str) -> (v: Vec<NewGrammarConcept>)
    ensures
        concept_texts(v@) == italian_seeds(level@),
{
    if str_eq(level, "A1") {
        let v = vec![
            c("it_articles", "Articles (il/lo/la/i/gli/le)", "Definite and indefinite articles", "A1"),
            c("it_present_regular", "Present Tense (regular)", "-are, -ere, -ire verb conjugation", "A1"),
            c("it_essere_avere", "Essere and Avere", "Core verbs: to be and to have", "A1"),
            c("it_adjective_agreement", "Adjective Agreement", "Gender and number, position rules", "A1"),
            c("it_negation", "Negation", "Non before the verb", "A1"),
            c("it_questions", "Question Formation", "Che, chi, dove, quando, come, perché", "A1"),
            c("it_possessives", "Possessive Adjectives", "il mio, la tua — with articles", "A1"),
            c("it_ci_e", "C'è / Ci sono", "There is / there are", "A1"),
        ];
        assert(concept_texts(v@) == italian_seeds(level@));
        v
    } else if str_eq(level, "A2") {
        let v = vec![
            c("it_passato_prossimo", "Passato Prossimo", "Past tense: avere/essere + past participle", "A2"),
            c("it_imperfetto", "Imperfetto", "Habitual and descriptive past", "A2"),
            c("it_reflexive", "Reflexive Verbs", "alzarsi, lavarsi — reflexive pronouns", "A2"),
            c("it_object_pronouns", "Object Pronouns", "lo/la/li/le, mi/ti/ci/vi — direct and indirect", "A2"),
            c("it_future", "Future Tense", "Regular and irregular future: andrò, farò", "A2"),
            c("it_imperative", "Imperative", "tu/noi/voi command forms", "A2"),
            c("it_prepositions", "Prepositions", "di, a, da, in, con, su + articulated forms", "A2"),
        ];
        assert(concept_texts(v@) == italian_seeds(level@));
        v
    } else if str_eq(level, "B1") {
        let v = vec![
            c("it_pp_vs_imp", "Passato Prossimo vs Imperfetto", "Completed vs ongoing/habitual past", "B1"),
            c("it_congiuntivo", "Congiuntivo Presente", "Subjunctive after pensare che, volere che", "B1"),
            c("it_condizionale", "Condizionale", "Would: vorrei, potrei, dovrei", "B1"),
            c("it_si_impersonale", "Si Impersonale/Passivante", "Impersonal and passive si constructions", "B1"),
            c("it_relative_pronouns", "Relative Pronouns", "che, cui, il quale in relative clauses", "B1"),
            c("it_ne_ci", "Ne and Ci", "Pronominal particles for partitive and locative", "B1"),
        ];
        assert(concept_texts(v@) == italian_seeds(level@));
        v
    } else if str_eq(level, "B2") {
        let v = vec![
            c("it_congiuntivo_past", "Congiuntivo Imperfetto/Trapassato", "Past subjunctive forms", "B2"),
            c("it_periodo_ipotetico", "Periodo Ipotetico", "If-clauses: real, possible, and impossible conditions", "B2"),
            c("it_passivo", "Passive Voice", "essere/venire + past participle", "B2"),
            c("it_gerundio", "Gerundio", "Progressive and adverbial uses of -ando/-endo", "B2"),
            c("it_discourse_markers", "Discourse Markers", "tuttavia, pertanto, nonostante, anzi", "B2"),
        ];
        assert(concept_texts(v@) == italian_seeds(level@));
        v
    } else {
        let v: Vec<NewGrammarConcept> = Vec::new();
        assert(concept_texts(v@) == Seq::<ConceptText>::empty());
        v
    }
}

/// The Portuguese concepts taught at a CEFR level.  The B2 list (future
/// and imperfect subjunctive, conditional clauses, compound perfect tenses,
/// discourse connectors) was written for this library so that B2 has
/// concepts of its own rather than a repeat of B1.
pub open spec fn portuguese_seeds(level: Seq<char>) -> Seq<ConceptText> {
    if level == "A1"@ {
        seq![
            ("pt_articles"@, "Articles (o/a/os/as)"@, "Definite and indefinite articles with contractions"@, "A1"@),
            ("pt_present_regular"@, "Present Tense (regular)"@, "-ar, -er, -ir verb conjugation"@, "A1"@),
            ("pt_ser_estar"@, "Ser vs Estar"@, "Permanent traits vs temporary states/location"@, "A1"@),
            ("pt_adjective_agreement"@, "Adjective Agreement"@, "Gender and number agreement"@, "A1"@),
            ("pt_negation"@, "Negation"@, "Não before the verb"@, "A1"@),
            ("pt_questions"@, "Question Formation"@, "O que, quem, onde, quando, como, por quê"@, "A1"@),
            ("pt_possessives"@, "Possessive Adjectives"@, "meu/minha, teu/tua, seu/sua"@, "A1"@),
            ("pt_ter_haver"@, "Ter and Haver"@, "Possession and existence: tem/há"@, "A1"@),
        ]
    } else if level == "A2"@ {
        seq![
            ("pt_preterite"@, "Pretérito Perfeito"@, "Completed past actions"@, "A2"@),
            ("pt_imperfect"@, "Pretérito Imperfeito"@, "Habitual/descriptive past"@, "A2"@),
            ("pt_reflexive"@, "Reflexive Verbs"@, "se + verb for daily routines"@, "A2"@),
            ("pt_object_pronouns"@, "Object Pronouns"@, "o/a/os/as, me/te/lhe — placement rules"@, "A2"@),
            ("pt_future_ir"@, "Ir + infinitive"@, "Near future construction"@, "A2"@),
            ("pt_comparatives"@, "Comparatives"@, "mais/menos...do que, tão...como"@, "A2"@),
            ("pt_imperative"@, "Imperative"@, "Command forms for tu and você"@, "A2"@),
        ]
    } else if level == "B1"@ {
        seq![
            ("pt_subjunctive"@, "Present Subjunctive"@, "After espero que, talvez, para que"@, "B1"@),
            ("pt_conditional"@, "Conditional"@, "Would: falaria, faria"@, "B1"@),
            ("pt_pluperfect"@, "Mais-que-perfeito"@, "Had done: compound and simple forms"@, "B1"@),
            ("pt_personal_infinitive"@, "Personal Infinitive"@, "Inflected infinitive unique to Portuguese"@, "B1"@),
            ("pt_passive"@, "Passive Voice"@, "ser + past participle"@, "B1"@),
        ]
    } else if level == "B2"@ {
        seq![
            ("pt_future_subjunctive"@, "Future Subjunctive"@, "Quando/se + future subjunctive: quando eu for, se você puder"@, "B2"@),
            ("pt_imperfect_subjunctive"@, "Imperfect Subjunctive"@, "Se eu tivesse, queria que fosse"@, "B2"@),
            ("pt_conditional_clauses"@, "Conditional Clauses"@, "Real and hypothetical se-clauses with the subjunctive"@, "B2"@),
            ("pt_compound_tenses"@, "Compound Perfect Tenses"@, "Ter + participle: tenho feito, terei feito, teria feito"@, "B2"@),
            ("pt_discourse_connectors"@, "Discourse Connectors"@, "no entanto, portanto, embora, apesar de"@, "B2"@),
        ]
    } else {
        Seq::empty()
    }
}

/// The Portuguese concepts taught at a CEFR level.
fn portuguese(level: &str) -> (v: Vec<NewGrammarConcept>)
    ensures
        concept_texts(v@) == portuguese_seeds(level@),
{
    if str_eq(level, "A1") {
        let v = vec![
            c("pt_articles", "Articles (o/a/os/as)", "Definite and indefinite articles with contractions", "A1"),
            c("pt_present_regular", "Present Tense (regular)", "-ar, -er, -ir verb conjugation", "A1"),
            c("pt_ser_estar", "Ser vs Estar", "Permanent traits vs temporary states/location", "A1"),
            c("pt_adjective_agreement", "Adjective Agreement", "Gender and number agreement", "A1"),
            c("pt_negation", "Negation", "Não before the verb", "A1"),
            c("pt_questions", "Question Formation", "O que, quem, onde, quando, como, por quê", "A1"),
            c("pt_possessives", "Possessive Adjectives", "meu/minha, teu/tua, seu/sua", "A1"),
            c("pt_ter_haver", "Ter and Haver", "Possession and existence: tem/há", "A1"),
        ];
        assert(concept_texts(v@) == portuguese_seeds(level@));
        v
    } else if str_eq(level, "A2") {
        let v = vec![
            c("pt_preterite", "Pretérito Perfeito", "Completed past actions", "A2"),
            c("pt_imperfect", "Pretérito Imperfeito", "Habitual/descriptive past", "A2"),
            c("pt_reflexive", "Reflexive Verbs", "se + verb for daily routines", "A2"),
            c("pt_object_pronouns", "Object Pronouns", "o/a/os/as, me/te/lhe — placement rules", "A2"),
            c("pt_future_ir", "Ir + infinitive", "Near future construction", "A2"),
            c("pt_comparatives", "Comparatives", "mais/menos...do que, tão...como", "A2"),
            c("pt_imperative", "Imperative", "Command forms for tu and você", "A2"),
        ];
        assert(concept_texts(v@) == portuguese_seeds(level@));
        v
    } else if str_eq(level, "B1") {
        let v = vec![
            c("pt_subjunctive", "Present Subjunctive", "After espero que, talvez, para que", "B1"),
            c("pt_conditional", "Conditional", "Would: falaria, faria", "B1"),
            c("pt_pluperfect", "Mais-que-perfeito", "Had done: compound and simple forms", "B1"),
            c("pt_personal_infinitive", "Personal Infinitive", "Inflected infinitive unique to Portuguese", "B1"),
            c("pt_passive", "Passive Voice", "ser + past participle", "B1"),
        ];
        assert(concept_texts(v@) == portuguese_seeds(level@));
        v
    } else if str_eq(level, "B2") {
        let v = vec![
            c("pt_future_subjunctive", "Future Subjunctive", "Quando/se + future subjunctive: quando eu for, se você puder", "B2"),
            c("pt_imperfect_subjunctive", "Imperfect Subjunctive", "Se eu tivesse, queria que fosse", "B2"),
            c("pt_conditional_clauses", "Conditional Clauses", "Real and hypothetical se-clauses with the subjunctive", "B2"),
            c("pt_compound_tenses", "Compound Perfect Tenses", "Ter + participle: tenho feito, terei feito, teria feito", "B2"),
            c("pt_discourse_connectors", "Discourse Connectors", "no entanto, portanto, embora, apesar de", "B2"),
        ];
        assert(concept_texts(v@) == portuguese_seeds(level@));
        v
    } else {
        let v: Vec<NewGrammarConcept> = Vec::new();
        assert(concept_texts(v@) == Seq::<ConceptText>::empty());
        v
    }
}

/// The Japanese concepts taught at a CEFR level.
pub open spec fn japanese_seeds(level: Seq<char>) -> Seq<ConceptText> {
    if level == "A1"@ {
        seq![
            ("ja_desu_masu"@, "Desu/Masu Form"@, "Polite sentence endings: です、ます"@, "A1"@),
            ("ja_particles_wa_ga"@, "Particles は and が"@, "Topic marker vs subject marker"@, "A1"@),
            ("ja_particles_wo_ni_de"@, "Particles を、に、で"@, "Object, location/time, and means particles"@, "A1"@),
            ("ja_adjectives"@, "Adjective Types"@, "い-adjectives vs な-adjectives and conjugation"@, "A1"@),
            ("ja_te_form"@, "て-Form"@, "Connecting verbs, making requests: 〜てください"@, "A1"@),
            ("ja_existence"@, "ある and いる"@, "Existence for inanimate vs animate"@, "A1"@),
            ("ja_counters"@, "Basic Counters"@, "つ、人、本、枚 — counting objects"@, "A1"@),
            ("ja_question_ka"@, "Question Formation"@, "か particle and question words"@, "A1"@),
        ]
    } else if level == "A2"@ {
        seq![
            ("ja_past_tense"@, "Past Tense"@, "ました、でした and plain past forms"@, "A2"@),
            ("ja_tai_form"@, "〜たい Form"@, "Expressing wants: 食べたい"@, "A2"@),
            ("ja_te_iru"@, "〜ている Form"@, "Ongoing actions and resultant states"@, "A2"@),
            ("ja_potential"@, "Potential Form"@, "Can do: 食べられる、読める"@, "A2"@),
            ("ja_giving_receiving"@, "Giving and Receiving"@, "あげる、もらう、くれる"@, "A2"@),
            ("ja_nai_form"@, "Negative Form"@, "ない conjugation and usage"@, "A2"@),
            ("ja_particles_advanced"@, "Particles も、と、や、から、まで"@, "Additional particles for listing, from/to"@, "A2"@),
        ]
    } else if level == "B1"@ {
        seq![
            ("ja_conditional"@, "Conditional Forms"@, "〜たら、〜ば、〜と、〜なら — four conditionals"@, "B1"@),
            ("ja_passive"@, "Passive Voice"@, "〜られる for passive and adversative passive"@, "B1"@),
            ("ja_causative"@, "Causative Form"@, "〜させる — making/letting someone do"@, "B1"@),
            ("ja_volitional"@, "Volitional Form"@, "〜よう — let's / intend to"@, "B1"@),
            ("ja_relative_clauses"@, "Relative Clauses"@, "Noun modification with plain form"@, "B1"@),
            ("ja_keigo_intro"@, "Keigo Introduction"@, "Honorific (尊敬語) and humble (謙譲語) basics"@, "B1"@),
        ]
    } else if level == "B2"@ {
        seq![
            ("ja_causative_passive"@, "Causative-Passive"@, "〜させられる — being made to do"@, "B2"@),
            ("ja_keigo_advanced"@, "Advanced Keigo"@, "Complex honorific and humble expressions"@, "B2"@),
            ("ja_grammar_patterns"@, "N2 Grammar Patterns"@, "〜に違いない、〜わけがない、〜ものだ"@, "B2"@),
            ("ja_formal_writing"@, "Formal Writing Style"@, "である体、literary forms"@, "B2"@),
        ]
    } else {
        Seq::empty()
    }
}

/// The Japanese concepts taught at a CEFR level.
fn japanese(level: &str) -> (v: Vec<NewGrammarConcept>)
    ensures
        concept_texts(v@) == japanese_seeds(level@),
{
    if str_eq(level, "A1") {
        let v = vec![
            c("ja_desu_masu", "Desu/Masu Form", "Polite sentence endings: です、ます", "A1"),
            c("ja_particles_wa_ga", "Particles は and が", "Topic marker vs subject marker", "A1"),
            c("ja_particles_wo_ni_de", "Particles を、に、で", "Object, location/time, and means particles", "A1"),
            c("ja_adjectives", "Adjective Types", "い-adjectives vs な-adjectives and conjugation", "A1"),
            c("ja_te_form", "て-Form", "Connecting verbs, making requests: 〜てください", "A1"),
            c("ja_existence", "ある and いる", "Existence for inanimate vs animate", "A1"),
            c("ja_counters", "Basic Counters", "つ、人、本、枚 — counting objects", "A1"),
            c("ja_question_ka", "Question Formation", "か particle and question words", "A1"),
        ];
        assert(concept_texts(v@) == japanese_seeds(level@));
        v
    } else if str_eq(level, "A2") {
        let v = vec![
            c("ja_past_tense", "Past Tense", "ました、でした and plain past forms", "A2"),
            c("ja_tai_form", "〜たい Form", "Expressing wants: 食べたい", "A2"),
            c("ja_te_iru", "〜ている Form", "Ongoing actions and resultant states", "A2"),
            c("ja_potential", "Potential Form", "Can do: 食べられる、読める", "A2"),
            c("ja_giving_receiving", "Giving and Receiving", "あげる、もらう、くれる", "A2"),
            c("ja_nai_form", "Negative Form", "ない conjugation and usage", "A2"),
            c("ja_particles_advanced", "Particles も、と、や、から、まで", "Additional particles for listing, from/to", "A2"),
        ];
        assert(concept_texts(v@) == japanese_seeds(level@));
        v
    } else if str_eq(level, "B1") {
        let v = vec![
            c("ja_conditional", "Conditional Forms", "〜たら、〜ば、〜と、〜なら — four conditionals", "B1"),
            c("ja_passive", "Passive Voice", "〜られる for passive and adversative passive", "B1"),
            c("ja_causative", "Causative Form", "〜させる — making/letting someone do", "B1"),
            c("ja_volitional", "Volitional Form", "〜よう — let's / intend to", "B1"),
            c("ja_relative_clauses", "Relative Clauses", "Noun modification with plain form", "B1"),
            c("ja_keigo_intro", "Keigo Introduction", "Honorific (尊敬語) and humble (謙譲語) basics", "B1"),
        ];
        assert(concept_texts(v@) == japanese_seeds(level@));
        v
    } else if str_eq(level, "B2") {
        let v = vec![
            c("ja_causative_passive", "Causative-Passive", "〜させられる — being made to do", "B2"),
            c("ja_keigo_advanced", "Advanced Keigo", "Complex honorific and humble expressions", "B2"),
            c("ja_grammar_patterns", "N2 Grammar Patterns", "〜に違いない、〜わけがない、〜ものだ", "B2"),
            c("ja_formal_writing", "Formal Writing Style", "である体、literary forms", "B2"),
        ];
        assert(concept_texts(v@) == japanese_seeds(level@));
        v
    } else {
        let v: Vec<NewGrammarConcept> = Vec::new();
        assert(concept_texts(v@) == Seq::<ConceptText>::empty());
        v
    }
}

/// The Korean concepts taught at a CEFR level.
pub open spec fn korean_seeds(level: Seq<char>) -> Seq<ConceptText> {
    if level == "A1"@ {
        seq![
            ("ko_particles_subject"@, "Subject Particles 이/가, 은/는"@, "Subject vs topic markers"@, "A1"@),
            ("ko_particles_object"@, "Object Particle 을/를"@, "Marking the direct object"@, "A1"@),
            ("ko_present_tense"@, "Present Tense -아/어요"@, "Polite present tense conjugation"@, "A1"@),
            ("ko_past_tense"@, "Past Tense -았/었어요"@, "Polite past tense"@, "A1"@),
            ("ko_negation"@, "Negation 안, -지 않다"@, "Two ways to negate"@, "A1"@),
            ("ko_location"@, "Location Particles 에, 에서"@, "Static location vs action location"@, "A1"@),
            ("ko_want"@, "고 싶다 (want to)"@, "Expressing desires"@, "A1"@),
            ("ko_numbers"@, "Native & Sino-Korean Numbers"@, "Two number systems and when to use each"@, "A1"@),
        ]
    } else if level == "A2"@ {
        seq![
            ("ko_connecting"@, "Connecting Sentences -고, -지만"@, "And, but conjunctions"@, "A2"@),
            ("ko_can"@, "ㄹ/을 수 있다 (can)"@, "Expressing ability"@, "A2"@),
            ("ko_honorifics_basic"@, "Basic Honorifics -(으)세요"@, "Polite requests and honorific speech"@, "A2"@),
            ("ko_because"@, "Because -아/어서, -(으)니까"@, "Two cause-reason connectors"@, "A2"@),
            ("ko_future"@, "Future Tense -(으)ㄹ 거예요"@, "Expressing future plans"@, "A2"@),
            ("ko_adjective_form"@, "Adjective Modifier -(으)ㄴ"@, "Modifying nouns with adjectives"@, "A2"@),
            ("ko_progressive"@, "Progressive -고 있다"@, "Ongoing actions"@, "A2"@),
        ]
    } else if level == "B1"@ {
        seq![
            ("ko_conditional"@, "Conditional -(으)면"@, "If-clauses"@, "B1"@),
            ("ko_passive"@, "Passive Voice 이/히/리/기"@, "Passive verb forms"@, "B1"@),
            ("ko_indirect_speech"@, "Indirect Speech -다고/라고"@, "Reporting what someone said"@, "B1"@),
            ("ko_relative_clause"@, "Relative Clauses -(으)ㄴ/는/ㄹ"@, "Noun modification with verbs"@, "B1"@),
            ("ko_honorifics_adv"@, "Advanced Honorifics"@, "드리다, 주시다, special honor vocabulary"@, "B1"@),
            ("ko_conjunctions"@, "Advanced Conjunctions"@, "-(으)면서, -자마자, -(으)ㄹ 때"@, "B1"@),
        ]
    } else if level == "B2"@ {
        seq![
            ("ko_causative"@, "Causative 이/히/리/기/우"@, "Making someone do something"@, "B2"@),
            ("ko_grammar_patterns"@, "Advanced Patterns"@, "-는 바람에, -는 셈이다, -(으)ㄹ 뿐만 아니라"@, "B2"@),
            ("ko_formal_register"@, "Formal Register -ㅂ/습니다"@, "Formal speech level"@, "B2"@),
            ("ko_written_style"@, "Written Style Endings"@, "-다, -(으)며, -(으)ㄴ 바"@, "B2"@),
        ]
    } else {
        Seq::empty()
    }
}

/// The Korean concepts taught at a CEFR level.
fn korean(level: &str) -> (v: Vec<NewGrammarConcept>)
    ensures
        concept_texts(v@) == korean_seeds(level@),
{
    if str_eq(level, "A1") {
        let v = vec![
            c("ko_particles_subject", "Subject Particles 이/가, 은/는", "Subject vs topic markers", "A1"),
            c("ko_particles_object", "Object Particle 을/를", "Marking the direct object", "A1"),
            c("ko_present_tense", "Present Tense -아/어요", "Polite present tense conjugation", "A1"),
            c("ko_past_tense", "Past Tense -았/었어요", "Polite past tense", "A1"),
            c("ko_negation", "Negation 안, -지 않다", "Two ways to negate", "A1"),
            c("ko_location", "Location Particles 에, 에서", "Static location vs action location", "A1"),
            c("ko_want", "고 싶다 (want to)", "Expressing desires", "A1"),
            c("ko_numbers", "Native & Sino-Korean Numbers", "Two number systems and when to use each", "A1"),
        ];
        assert(concept_texts(v@) == korean_seeds(level@));
        v
    } else if str_eq(level, "A2") {
        let v = vec![
            c("ko_connecting", "Connecting Sentences -고, -지만", "And, but conjunctions", "A2"),
            c("ko_can", "ㄹ/을 수 있다 (can)", "Expressing ability", "A2"),
            c("ko_honorifics_basic", "Basic Honorifics -(으)세요", "Polite requests and honorific speech", "A2"),
            c("ko_because", "Because -아/어서, -(으)니까", "Two cause-reason connectors", "A2"),
            c("ko_future", "Future Tense -(으)ㄹ 거예요", "Expressing future plans", "A2"),
            c("ko_adjective_form", "Adjective Modifier -(으)ㄴ", "Modifying nouns with adjectives", "A2"),
            c("ko_progressive", "Progressive -고 있다", "Ongoing actions", "A2"),
        ];
        assert(concept_texts(v@) == korean_seeds(level@));
        v
    } else if str_eq(level, "B1") {
        let v = vec![
            c("ko_conditional", "Conditional -(으)면", "If-clauses", "B1"),
            c("ko_passive", "Passive Voice 이/히/리/기", "Passive verb forms", "B1"),
            c("ko_indirect_speech", "Indirect Speech -다고/라고", "Reporting what someone said", "B1"),
            c("ko_relative_clause", "Relative Clauses -(으)ㄴ/는/ㄹ", "Noun modification with verbs", "B1"),
            c("ko_honorifics_adv", "Advanced Honorifics", "드리다, 주시다, special honor vocabulary", "B1"),
            c("ko_conjunctions", "Advanced Conjunctions", "-(으)면서, -자마자, -(으)ㄹ 때", "B1"),
        ];
        assert(concept_texts(v@) == korean_seeds(level@));
        v
    } else if str_eq(level, "B2") {
        let v = vec![
            c("ko_causative", "Causative 이/히/리/기/우", "Making someone do something", "B2"),
            c("ko_grammar_patterns", "Advanced Patterns", "-는 바람에, -는 셈이다, -(으)ㄹ 뿐만 아니라", "B2"),
            c("ko_formal_register", "Formal Register -ㅂ/습니다", "Formal speech level", "B2"),
            c("ko_written_style", "Written Style Endings", "-다, -(으)며, -(으)ㄴ 바", "B2"),
        ];
        assert(concept_texts(v@) == korean_seeds(level@));
        v
    } else {
        let v: Vec<NewGrammarConcept> = Vec::new();
        assert(concept_texts(v@) == Seq::<ConceptText>::empty());
        v
    }
}

/// The Chinese concepts taught at a CEFR level.
pub open spec fn chinese_seeds(level: Seq<char>) -> Seq<ConceptText> {
    if level == "A1"@ {
        seq![
            ("zh_word_order"@, "Basic Word Order (SVO)"@, "Subject-Verb-Object and time/place ordering"@, "A1"@),
            ("zh_shi"@, "是 (shì) Sentences"@, "Identifying and equating with 是"@, "A1"@),
            ("zh_negation"@, "Negation 不/没"@, "不 for present/future, 没 for past"@, "A1"@),
            ("zh_questions_ma"@, "Questions with 吗 and 呢"@, "Yes/no and follow-up questions"@, "A1"@),
            ("zh_measure_words"@, "Measure Words (个, 本, 杯)"@, "Classifiers between numbers and nouns"@, "A1"@),
            ("zh_le_completed"@, "了 for Completed Action"@, "Verb + 了 for completion"@, "A1"@),
            ("zh_adj_predicate"@, "Adjective Predicates with 很"@, "很好, 很大 — adjectives without 是"@, "A1"@),
            ("zh_de_possession"@, "的 for Possession"@, "我的, 他的 — possessive particle"@, "A1"@),
        ]
    } else if level == "A2"@ {
        seq![
            ("zh_guo_experience"@, "过 for Experience"@, "Verb + 过 for past experience"@, "A2"@),
            ("zh_zai_progressive"@, "在 for Progressive"@, "正在 + verb for ongoing actions"@, "A2"@),
            ("zh_complement_result"@, "Result Complements"@, "Verb + 到/完/好/见 for outcomes"@, "A2"@),
            ("zh_comparison"@, "Comparison with 比"@, "A 比 B + adjective pattern"@, "A2"@),
            ("zh_ba_construction"@, "把 Construction"@, "Disposal form: 把 + object + verb"@, "A2"@),
            ("zh_direction_complements"@, "Direction Complements"@, "来/去, 上/下, 进/出 after verbs"@, "A2"@),
            ("zh_duration"@, "Duration Expressions"@, "Verb + time duration pattern"@, "A2"@),
        ]
    } else if level == "B1"@ {
        seq![
            ("zh_bei_passive"@, "被 Passive Construction"@, "被 + agent + verb for passive"@, "B1"@),
            ("zh_complement_degree"@, "Degree Complements 得"@, "Verb 得 + description"@, "B1"@),
            ("zh_lian_dou"@, "连...都/也 (even)"@, "Emphasis pattern for 'even'"@, "B1"@),
            ("zh_shi_de"@, "是...的 Construction"@, "Emphasizing time, place, or manner of past actions"@, "B1"@),
            ("zh_complex_complements"@, "Complex Complements"@, "Potential complements: 得了/不了"@, "B1"@),
            ("zh_conjunctions"@, "Complex Conjunctions"@, "虽然...但是, 不但...而且, 因为...所以"@, "B1"@),
        ]
    } else if level == "B2"@ {
        seq![
            ("zh_written_style"@, "Written/Formal Style"@, "书面语 vs 口语 distinctions"@, "B2"@),
            ("zh_chengyu"@, "Chéngyǔ (Four-character Idioms)"@, "Common idiomatic expressions"@, "B2"@),
            ("zh_advanced_ba_bei"@, "Advanced 把/被 Patterns"@, "Complex disposal and passive constructions"@, "B2"@),
            ("zh_discourse"@, "Discourse Markers"@, "总之, 换句话说, 由此可见"@, "B2"@),
        ]
    } else {
        Seq::empty()
    }
}

/// The Chinese concepts taught at a CEFR level.
fn chinese(level: &str) -> (v: Vec<NewGrammarConcept>)
    ensures
        concept_texts(v@) == chinese_seeds(level@),
{
    if str_eq(level, "A1") {
        let v = vec![
            c("zh_word_order", "Basic Word Order (SVO)", "Subject-Verb-Object and time/place ordering", "A1"),
            c("zh_shi", "是 (shì) Sentences", "Identifying and equating with 是", "A1"),
            c("zh_negation", "Negation 不/没", "不 for present/future, 没 for past", "A1"),
            c("zh_questions_ma", "Questions with 吗 and 呢", "Yes/no and follow-up questions", "A1"),
            c("zh_measure_words", "Measure Words (个, 本, 杯)", "Classifiers between numbers and nouns", "A1"),
            c("zh_le_completed", "了 for Completed Action", "Verb + 了 for completion", "A1"),
            c("zh_adj_predicate", "Adjective Predicates with 很", "很好, 很大 — adjectives without 是", "A1"),
            c("zh_de_possession", "的 for Possession", "我的, 他的 — possessive particle", "A1"),
        ];
        assert(concept_texts(v@) == chinese_seeds(level@));
        v
    } else if str_eq(level, "A2") {
        let v = vec![
            c("zh_guo_experience", "过 for Experience", "Verb + 过 for past experience", "A2"),
            c("zh_zai_progressive", "在 for Progressive", "正在 + verb for ongoing actions", "A2"),
            c("zh_complement_result", "Result Complements", "Verb + 到/完/好/见 for outcomes", "A2"),
            c("zh_comparison", "Comparison with 比", "A 比 B + adjective pattern", "A2"),
            c("zh_ba_construction", "把 Construction", "Disposal form: 把 + object + verb", "A2"),
            c("zh_direction_complements", "Direction Complements", "来/去, 上/下, 进/出 after verbs", "A2"),
            c("zh_duration", "Duration Expressions", "Verb + time duration pattern", "A2"),
        ];
        assert(concept_texts(v@) == chinese_seeds(level@));
        v
    } else if str_eq(level, "B1") {
        let v = vec![
            c("zh_bei_passive", "被 Passive Construction", "被 + agent + verb for passive", "B1"),
            c("zh_complement_degree", "Degree Complements 得", "Verb 得 + description", "B1"),
            c("zh_lian_dou", "连...都/也 (even)", "Emphasis pattern for 'even'", "B1"),
            c("zh_shi_de", "是...的 Construction", "Emphasizing time, place, or manner of past actions", "B1"),
            c("zh_complex_complements", "Complex Complements", "Potential complements: 得了/不了", "B1"),
            c("zh_conjunctions", "Complex Conjunctions", "虽然...但是, 不但...而且, 因为...所以", "B1"),
        ];
        assert(concept_texts(v@) == chinese_seeds(level@));
        v
    } else if str_eq(level, "B2") {
        let v = vec![
            c("zh_written_style", "Written/Formal Style", "书面语 vs 口语 distinctions", "B2"),
            c("zh_chengyu", "Chéngyǔ (Four-character Idioms)", "Common idiomatic expressions", "B2"),
            c("zh_advanced_ba_bei", "Advanced 把/被 Patterns", "Complex disposal and passive constructions", "B2"),
            c("zh_discourse", "Discourse Markers", "总之, 换句话说, 由此可见", "B2"),
        ];
        assert(concept_texts(v@) == chinese_seeds(level@));
        v
    } else {
        let v: Vec<NewGrammarConcept> = Vec::new();
        assert(concept_texts(v@) == Seq::<ConceptText>::empty());
        v
    }
}

/// The Turkish concepts taught at a CEFR level.
pub open spec fn turkish_seeds(level: Seq<char>) -> Seq<ConceptText> {
    if level == "A1"@ {
        seq![
            ("tr_vowel_harmony"@, "Vowel Harmony"@, "Front/back and rounded/unrounded vowel rules"@, "A1"@),
            ("tr_present_tense"@, "Present Tense (-yor)"@, "Continuous present: yapıyorum"@, "A1"@),
            ("tr_to_be"@, "To Be (suffixes)"@, "-(y)ım/sın/dır for am/is/are"@, "A1"@),
            ("tr_negation"@, "Negation"@, "-me/-ma and değil"@, "A1"@),
            ("tr_cases_basic"@, "Basic Cases (nom/acc/dat/loc)"@, "Nominative, accusative -ı, dative -e, locative -de"@, "A1"@),
            ("tr_possessives"@, "Possessive Suffixes"@, "-(ı)m, -(ı)n, -(s)ı — my/your/his"@, "A1"@),
            ("tr_var_yok"@, "Var/Yok"@, "There is / there isn't"@, "A1"@),
            ("tr_questions"@, "Question Particle mı/mi"@, "Yes/no questions with mı/mi/mu/mü"@, "A1"@),
        ]
    } else if level == "A2"@ {
        seq![
            ("tr_past_di"@, "Past Tense (-dı)"@, "Witnessed/definite past: yaptım"@, "A2"@),
            ("tr_past_mis"@, "Past Tense (-mış)"@, "Reported/hearsay past: yapmış"@, "A2"@),
            ("tr_aorist"@, "Aorist Tense (-r)"@, "General/habitual present: yaparım"@, "A2"@),
            ("tr_future"@, "Future Tense (-ecek)"@, "yapacağım — will do"@, "A2"@),
            ("tr_ablative"@, "Ablative Case (-den)"@, "From: evden, okuldan"@, "A2"@),
            ("tr_postpositions"@, "Postpositions"@, "için, ile, gibi — equivalents of prepositions"@, "A2"@),
            ("tr_compound_nouns"@, "Compound Nouns"@, "Noun + noun with possessive suffix"@, "A2"@),
        ]
    } else if level == "B1"@ {
        seq![
            ("tr_relative_ki"@, "Relative Clauses with ki"@, "The connecting particle ki"@, "B1"@),
            ("tr_participles"@, "Participles (-en/-an, -dık)"@, "Verb forms used as adjectives/nouns"@, "B1"@),
            ("tr_conditional"@, "Conditional (-se/-sa)"@, "If-clauses: yaparsam, yapsam"@, "B1"@),
            ("tr_passive"@, "Passive Voice (-ıl/-ın)"@, "yapılmak — to be done"@, "B1"@),
            ("tr_causative"@, "Causative (-tır/-dır)"@, "yaptırmak — to have something done"@, "B1"@),
            ("tr_converbs"@, "Converbs (-arak, -ınca, -ken)"@, "Adverbial verb forms"@, "B1"@),
        ]
    } else if level == "B2"@ {
        seq![
            ("tr_reported_speech"@, "Reported Speech"@, "Indirect quotation patterns"@, "B2"@),
            ("tr_nominalizations"@, "Nominalizations (-me/-ma, -ış)"@, "Turning verbs into nouns"@, "B2"@),
            ("tr_reflexive_reciprocal"@, "Reflexive & Reciprocal"@, "-ın for self, -ış for each other"@, "B2"@),
            ("tr_formal_register"@, "Formal Register"@, "Literary and formal Turkish patterns"@, "B2"@),
        ]
    } else {
        Seq::empty()
    }
}

/// The Turkish concepts taught at a CEFR level.
fn turkish(level: &str) -> (v: Vec<NewGrammarConcept>)
    ensures
        concept_texts(v@) == turkish_seeds(level@),
{
    if str_eq(level, "A1") {
        let v = vec![
            c("tr_vowel_harmony", "Vowel Harmony", "Front/back and rounded/unrounded vowel rules", "A1"),
            c("tr_present_tense", "Present Tense (-yor)", "Continuous present: yapıyorum", "A1"),
            c("tr_to_be", "To Be (suffixes)", "-(y)ım/sın/dır for am/is/are", "A1"),
            c("tr_negation", "Negation", "-me/-ma and değil", "A1"),
            c("tr_cases_basic", "Basic Cases (nom/acc/dat/loc)", "Nominative, accusative -ı, dative -e, locative -de", "A1"),
            c("tr_possessives", "Possessive Suffixes", "-(ı)m, -(ı)n, -(s)ı — my/your/his", "A1"),
            c("tr_var_yok", "Var/Yok", "There is / there isn't", "A1"),
            c("tr_questions", "Question Particle mı/mi", "Yes/no questions with mı/mi/mu/mü", "A1"),
        ];
        assert(concept_texts(v@) == turkish_seeds(level@));
        v
    } else if str_eq(level, "A2") {
        let v = vec![
            c("tr_past_di", "Past Tense (-dı)", "Witnessed/definite past: yaptım", "A2"),
            c("tr_past_mis", "Past Tense (-mış)", "Reported/hearsay past: yapmış", "A2"),
            c("tr_aorist", "Aorist Tense (-r)", "General/habitual present: yaparım", "A2"),
            c("tr_future", "Future Tense (-ecek)", "yapacağım — will do", "A2"),
            c("tr_ablative", "Ablative Case (-den)", "From: evden, okuldan", "A2"),
            c("tr_postpositions", "Postpositions", "için, ile, gibi — equivalents of prepositions", "A2"),
            c("tr_compound_nouns", "Compound Nouns", "Noun + noun with possessive suffix", "A2"),
        ];
        assert(concept_texts(v@) == turkish_seeds(level@));
        v
    } else if str_eq(level, "B1") {
        let v = vec![
            c("tr_relative_ki", "Relative Clauses with ki", "The connecting particle ki", "B1"),
            c("tr_participles", "Participles (-en/-an, -dık)", "Verb forms used as adjectives/nouns", "B1"),
            c("tr_conditional", "Conditional (-se/-sa)", "If-clauses: yaparsam, yapsam", "B1"),
            c("tr_passive", "Passive Voice (-ıl/-ın)", "yapılmak — to be done", "B1"),
            c("tr_causative", "Causative (-tır/-dır)", "yaptırmak — to have something done", "B1"),
            c("tr_converbs", "Converbs (-arak, -ınca, -ken)", "Adverbial verb forms", "B1"),
        ];
        assert(concept_texts(v@) == turkish_seeds(level@));
        v
    } else if str_eq(level, "B2") {
        let v = vec![
            c("tr_reported_speech", "Reported Speech", "Indirect quotation patterns", "B2"),
            c("tr_nominalizations", "Nominalizations (-me/-ma, -ış)", "Turning verbs into nouns", "B2"),
            c("tr_reflexive_reciprocal", "Reflexive & Reciprocal", "-ın for self, -ış for each other", "B2"),
            c("tr_formal_register", "Formal Register", "Literary and formal Turkish patterns", "B2"),
        ];
        assert(concept_texts(v@) == turkish_seeds(level@));
        v
    } else {
        let v: Vec<NewGrammarConcept> = Vec::new();
        assert(concept_texts(v@) == Seq::<ConceptText>::empty());
        v
    }
}

// ── Language and level selection ─────────────────────────────────────────

/// The seed language for a lowercased language code or name; Spanish for
/// anything not recognised.
pub open spec fn seed_code(lower: Seq<char>) -> Seq<char> {
    if lower == "es"@ || lower == "spanish"@ {
        "es"@
    } else if lower == "fr"@ || lower == "french"@ {
        "fr"@
    } else if lower == "de"@ || lower == "german"@ {
        "de"@
    } else if lower == "it"@ || lower == "italian"@ {
        "it"@
    } else if lower == "pt"@ || lower == "portuguese"@ {
        "pt"@
    } else if lower == "ja"@ || lower == "japanese"@ {
        "ja"@
    } else if lower == "ko"@ || lower == "korean"@ {
        "ko"@
    } else if lower == "zh"@ || lower == "mandarin"@ || lower == "chinese"@ {
        "zh"@
    } else if lower == "tr"@ || lower == "turkish"@ {
        "tr"@
    } else {
        "es"@
    }
}

/// The seed language for a lowercased language code or name.
pub fn seed_language_code(lower: &str) -> (r: &'static str)
    ensures
        r@ == seed_code(lower@),
{
    if str_eq(lower, "es") || str_eq(lower, "spanish") {
        "es"
    } else if str_eq(lower, "fr") || str_eq(lower, "french") {
        "fr"
    } else if str_eq(lower, "de") || str_eq(lower, "german") {
        "de"
    } else if str_eq(lower, "it") || str_eq(lower, "italian") {
        "it"
    } else if str_eq(lower, "pt") || str_eq(lower, "portuguese") {
        "pt"
    } else if str_eq(lower, "ja") || str_eq(lower, "japanese") {
        "ja"
    } else if str_eq(lower, "ko") || str_eq(lower, "korean") {
        "ko"
    } else if str_eq(lower, "zh") || str_eq(lower, "mandarin") || str_eq(lower, "chinese") {
        "zh"
    } else if str_eq(lower, "tr") || str_eq(lower, "turkish") {
        "tr"
    } else {
        "es"
    }
}

/// Seed language for a language code or name, in any letter case.
pub fn normalize_language(lang: &str) -> (r: &'static str)
    ensures
        r@ == seed_code(lowercase(lang@)),
{
    let lower = to_lowercase(lang);
    seed_language_code(lower.as_str())
}

/// End of the run of non-White_Space characters starting at `i`.
pub open spec fn word_end(s: Seq<char>, i: int) -> int
    decreases s.len() - i,
{
    if 0 <= i < s.len() && !is_ws(s[i]) {
        word_end(s, i + 1)
    } else {
        i
    }
}

/// End of the run of White_Space characters starting at `i`.
pub open spec fn space_end(s: Seq<char>, i: int) -> int
    decreases s.len() - i,
{
    if 0 <= i < s.len() && is_ws(s[i]) {
        space_end(s, i + 1)
    } else {
        i
    }
}

/// `s.split_whitespace().next().unwrap_or(s)`: the first whitespace-separated
/// word, or the whole text when it holds none.
pub open spec fn first_word(s: Seq<char>) -> Seq<char> {
    let a = space_end(s, 0);
    if a >= s.len() {
        s
    } else {
        s.subrange(a, word_end(s, a))
    }
}

proof fn lemma_space_end(s: Seq<char>, i: int)
    requires
        0 <= i <= s.len(),
    ensures
        i <= space_end(s, i) <= s.len(),
        i <= word_end(s, i) <= s.len(),
    decreases s.len() - i,
{
    if i < s.len() {
        lemma_space_end(s, i + 1);
    }
}

/// The first whitespace-separated word of `s`, or `s` when it holds none.
pub fn first_word_of(s: &str) -> (r: &str)
    ensures
        r@ == first_word(s@),
{
    let n = s.unicode_len();
    let mut a: usize = 0;
    while a < n && crate::text::is_whitespace(s.get_char(a))
        invariant
            n == s@.len(),
            a <= n,
            space_end(s@, 0) == space_end(s@, a as int),
        decreases n - a,
    {
        a += 1;
    }
    if a >= n {
        return s;
    }
    let mut b = a;
    while b < n && !crate::text::is_whitespace(s.get_char(b))
        invariant
            n == s@.len(),
            a <= b <= n,
            word_end(s@, a as int) == word_end(s@, b as int),
        decreases n - b,
    {
        b += 1;
    }
    s.substring_char(a, b)
}

/// The CEFR levels in order.
pub open spec fn all_levels() -> Seq<Seq<char>> {
    seq!["A1"@, "A2"@, "B1"@, "B2"@]
}

/// How many levels, from A1 on, an uppercased level word covers: A1 one,
/// A2 two, B1 three, anything else all four.
pub open spec fn level_rank(upper: Seq<char>) -> int {
    if upper == "A1"@ {
        1
    } else if upper == "A2"@ {
        2
    } else if upper == "B1"@ {
        3
    } else {
        4
    }
}

/// The levels up to and including an uppercased level word.
pub fn levels_through(upper: &str) -> (r: Vec<&'static str>)
    ensures
        crate::prompt::views(r@) == all_levels().take(level_rank(upper@)),
{
    let all = ["A1", "A2", "B1", "B2"];
    let mut result: Vec<&'static str> = Vec::new();
    let mut i: usize = 0;
    while i < 4
        invariant
            i <= 4,
            all@ == seq!["A1", "A2", "B1", "B2"],
            crate::prompt::views(result@) == all_levels().take(i as int),
            i <= level_rank(upper@),
            forall|k: int| 0 <= k < i ==> upper@ != #[trigger] all_levels()[k],
        decreases 4 - i,
    {
        let l = all[i];
        let ghost before = result@;
        assert(l@ == all_levels()[i as int]) by {
            assert(l == seq!["A1", "A2", "B1", "B2"][i as int]);
        }
        result.push(l);
        assert(crate::prompt::views(result@) == crate::prompt::views(before).push(l@));
        assert(all_levels().take(i + 1) == all_levels().take(i as int).push(all_levels()[i as int]));
        if str_eq(l, upper) {
            return result;
        }
        i += 1;
    }
    result
}

/// All CEFR levels up to and including the target level (its first word,
/// in any letter case).
pub fn levels_up_to(level: &str) -> (r: Vec<&'static str>)
    ensures
        crate::prompt::views(r@) == all_levels().take(level_rank(uppercase(first_word(level@)))),
{
    let word = first_word_of(level);
    let upper = to_uppercase(word);
    levels_through(upper.as_str())
}

/// The concepts seeded for a language code at one level.
pub open spec fn seeds_for(code: Seq<char>, level: Seq<char>) -> Seq<ConceptText> {
    if code == "es"@ {
        spanish_seeds(level)
    } else if code == "fr"@ {
        french_seeds(level)
    } else if code == "de"@ {
        german_seeds(level)
    } else if code == "it"@ {
        italian_seeds(level)
    } else if code == "pt"@ {
        portuguese_seeds(level)
    } else if code == "ja"@ {
        japanese_seeds(level)
    } else if code == "ko"@ {
        korean_seeds(level)
    } else if code == "zh"@ {
        chinese_seeds(level)
    } else if code == "tr"@ {
        turkish_seeds(level)
    } else {
        spanish_seeds(level)
    }
}

fn seeds_at(code: &str, level: &str) -> (v: Vec<NewGrammarConcept>)
    ensures
        concept_texts(v@) == seeds_for(code@, level@),
{
    if str_eq(code, "es") {
        spanish(level)
    } else if str_eq(code, "fr") {
        french(level)
    } else if str_eq(code, "de") {
        german(level)
    } else if str_eq(code, "it") {
        italian(level)
    } else if str_eq(code, "pt") {
        portuguese(level)
    } else if str_eq(code, "ja") {
        japanese(level)
    } else if str_eq(code, "ko") {
        korean(level)
    } else if str_eq(code, "zh") {
        chinese(level)
    } else if str_eq(code, "tr") {
        turkish(level)
    } else {
        spanish(level)
    }
}

/// The concepts of several levels, in level order.
pub open spec fn seeds_through(code: Seq<char>, levels: Seq<Seq<char>>) -> Seq<ConceptText>
    decreases levels.len(),
{
    if levels.len() == 0 {
        Seq::empty()
    } else {
        seeds_through(code, levels.drop_last()) + seeds_for(code, levels.last())
    }
}

/// The concepts seeded for a language (code or name, any case) and a level:
/// those of the target level and of all lower levels, lowest first.
pub open spec fn grammar_seed_texts(language: Seq<char>, level: Seq<char>) -> Seq<ConceptText> {
    seeds_through(
        seed_code(lowercase(language)),
        all_levels().take(level_rank(uppercase(first_word(level)))),
    )
}

/// Return grammar concepts for a given language and CEFR level, including
/// the concepts of all lower levels.
pub fn grammar_concepts_for(language: &str, level: &str) -> (r: Vec<NewGrammarConcept>)
    ensures
        concept_texts(r@) == grammar_seed_texts(language@, level@),
{
    let lang = normalize_language(language);
    let levels = levels_up_to(level);
    let ghost lv = crate::prompt::views(levels@);
    let mut concepts: Vec<NewGrammarConcept> = Vec::new();
    let mut i: usize = 0;
    while i < levels.len()
        invariant
            i <= levels@.len(),
            lv == crate::prompt::views(levels@),
            lang@ == seed_code(lowercase(language@)),
            concept_texts(concepts@) == seeds_through(lang@, lv.take(i as int)),
        decreases levels@.len() - i,
    {
        let mut batch = seeds_at(lang, levels[i]);
        let ghost before = concepts@;
        let ghost b = batch@;
        concepts.append(&mut batch);
        assert(lv.take(i + 1).drop_last() == lv.take(i as int));
        assert(lv.take(i + 1).last() == levels@[i as int]@);
        assert(concept_texts(before + b) == concept_texts(before) + concept_texts(b));
        i += 1;
    }
    assert(lv.take(levels@.len() as int) == lv);
    concepts
}

proof fn lemma_seeds_through_prefix(code: Seq<char>, levels: Seq<Seq<char>>, i: int, j: int)
    requires
        0 <= i <= j <= levels.len(),
    ensures
        seeds_through(code, levels.take(i)).len() <= seeds_through(code, levels.take(j)).len(),
        seeds_through(code, levels.take(j)).take(seeds_through(code, levels.take(i)).len() as int)
            == seeds_through(code, levels.take(i)),
    decreases j - i,
{
    if i == j {
        let a = seeds_through(code, levels.take(i));
        assert(a.take(a.len() as int) == a);
    } else {
        lemma_seeds_through_prefix(code, levels, i, j - 1);
        assert(levels.take(j).drop_last() == levels.take(j - 1));
        let a = seeds_through(code, levels.take(i));
        let b = seeds_through(code, levels.take(j - 1));
        let c = seeds_for(code, levels.take(j).last());
        assert((b + c).take(a.len() as int) == b.take(a.len() as int));
    }
}

/// Law: a level's concepts begin with the concepts of every lower level, so
/// a learner seeded at a higher level has everything a lower level has.
pub proof fn lemma_lower_levels_included(language: Seq<char>, lower: Seq<char>, higher: Seq<char>)
    requires
        level_rank(uppercase(first_word(lower))) <= level_rank(uppercase(first_word(higher))),
    ensures
        grammar_seed_texts(language, lower).len() <= grammar_seed_texts(language, higher).len(),
        grammar_seed_texts(language, higher).take(grammar_seed_texts(language, lower).len() as int)
            == grammar_seed_texts(language, lower),
{
    let r1 = level_rank(uppercase(first_word(lower)));
    let r2 = level_rank(uppercase(first_word(higher)));
    lemma_seeds_through_prefix(seed_code(lowercase(language)), all_levels(), r1, r2);
}

// ── What each seeded concept carries ─────────────────────────────────────

/// A seeded concept carries the level it is seeded at, and its slug starts
/// with the two-letter language code and an underscore.
pub open spec fn concept_tagged(c: ConceptText, code: Seq<char>, level: Seq<char>) -> bool {
    &&& c.3 == level
    &&& code.len() == 2
    &&& c.0.len() > 2
    &&& c.0[0] == code[0]
    &&& c.0[1] == code[1]
    &&& c.0[2] == '_'
}


proof fn lemma_spanish_seeds_tagged(level: Seq<char>)
    ensures
        forall|k: int|
            0 <= k < spanish_seeds(level).len() ==> concept_tagged(
                #[trigger] spanish_seeds(level)[k],
                "es"@,
                level,
            ),
{
    reveal_strlit("es");
    if level == "A1"@ {
        let t = spanish_seeds(level);
        reveal_strlit("es_articles");
        reveal_strlit("es_noun_gender");
        reveal_strlit("es_ser_estar_present");
        reveal_strlit("es_present_regular");
        reveal_strlit("es_adjective_agreement");
        reveal_strlit("es_basic_negation");
        reveal_strlit("es_questions");
        reveal_strlit("es_hay");
        reveal_strlit("es_possessives");
        reveal_strlit("es_numbers_time");
        assert forall|k: int| 0 <= k < t.len() implies concept_tagged(#[trigger] t[k], "es"@, level) by {
            assert(k == 0 || k == 1 || k == 2 || k == 3 || k == 4 || k == 5 || k == 6 || k == 7 || k == 8 || k == 9);
        }
    } else if level == "A2"@ {
        let t = spanish_seeds(level);
        reveal_strlit("es_present_irregular");
        reveal_strlit("es_preterite_regular");
        reveal_strlit("es_preterite_irregular");
        reveal_strlit("es_reflexive_verbs");
        reveal_strlit("es_gustar");
        reveal_strlit("es_direct_object");
        reveal_strlit("es_ir_a_infinitive");
        reveal_strlit("es_comparatives");
        reveal_strlit("es_demonstratives");
        reveal_strlit("es_prepositions");
        assert forall|k: int| 0 <= k < t.len() implies concept_tagged(#[trigger] t[k], "es"@, level) by {
            assert(k == 0 || k == 1 || k == 2 || k == 3 || k == 4 || k == 5 || k == 6 || k == 7 || k == 8 || k == 9);
        }
    } else if level == "B1"@ {
        let t = spanish_seeds(level);
        reveal_strlit("es_imperfect");
        reveal_strlit("es_pret_vs_imp");
        reveal_strlit("es_present_perfect");
        reveal_strlit("es_subjunctive_present");
        reveal_strlit("es_indirect_object");
        reveal_strlit("es_por_para");
        reveal_strlit("es_conditional");
        reveal_strlit("es_relative_clauses");
        reveal_strlit("es_commands_informal");
        reveal_strlit("es_adverbs");
        assert forall|k: int| 0 <= k < t.len() implies concept_tagged(#[trigger] t[k], "es"@, level) by {
            assert(k == 0 || k == 1 || k == 2 || k == 3 || k == 4 || k == 5 || k == 6 || k == 7 || k == 8 || k == 9);
        }
    } else if level == "B2"@ {
        let t = spanish_seeds(level);
        reveal_strlit("es_subjunctive_past");
        reveal_strlit("es_conditional_si");
        reveal_strlit("es_passive_voice");
        reveal_strlit("es_perfect_tenses");
        reveal_strlit("es_subjunctive_triggers");
        reveal_strlit("es_formal_commands");
        reveal_strlit("es_discourse_connectors");
        reveal_strlit("es_nominalizations");
        assert forall|k: int| 0 <= k < t.len() implies concept_tagged(#[trigger] t[k], "es"@, level) by {
            assert(k == 0 || k == 1 || k == 2 || k == 3 || k == 4 || k == 5 || k == 6 || k == 7);
        }
    }
}

proof fn lemma_french_seeds_tagged(level: Seq<char>)
    ensures
        forall|k: int|
            0 <= k < french_seeds(level).len() ==> concept_tagged(
                #[trigger] french_seeds(level)[k],
                "fr"@,
                level,
            ),
{
    reveal_strlit("fr");
    if level == "A1"@ {
        let t = french_seeds(level);
        reveal_strlit("fr_articles");
        reveal_strlit("fr_noun_gender");
        reveal_strlit("fr_present_regular");
        reveal_strlit("fr_etre_avoir");
        reveal_strlit("fr_negation");
        reveal_strlit("fr_adjective_agreement");
        reveal_strlit("fr_questions");
        reveal_strlit("fr_possessives");
        reveal_strlit("fr_il_y_a");
        assert forall|k: int| 0 <= k < t.len() implies concept_tagged(#[trigger] t[k], "fr"@, level) by {
            assert(k == 0 || k == 1 || k == 2 || k == 3 || k == 4 || k == 5 || k == 6 || k == 7 || k == 8);
        }
    } else if level == "A2"@ {
        let t = french_seeds(level);
        reveal_strlit("fr_passe_compose");
        reveal_strlit("fr_imparfait");
        reveal_strlit("fr_reflexive");
        reveal_strlit("fr_pronouns_cod_coi");
        reveal_strlit("fr_futur_proche");
        reveal_strlit("fr_comparatives");
        reveal_strlit("fr_partitive");
        reveal_strlit("fr_imperative");
        assert forall|k: int| 0 <= k < t.len() implies concept_tagged(#[trigger] t[k], "fr"@, level) by {
            assert(k == 0 || k == 1 || k == 2 || k == 3 || k == 4 || k == 5 || k == 6 || k == 7);
        }
    } else if level == "B1"@ {
        let t = french_seeds(level);
        reveal_strlit("fr_pc_vs_imp");
        reveal_strlit("fr_subjonctif");
        reveal_strlit("fr_conditionnel");
        reveal_strlit("fr_si_clauses");
        reveal_strlit("fr_relative_pronouns");
        reveal_strlit("fr_y_en");
        reveal_strlit("fr_plus_que_parfait");
        assert forall|k: int| 0 <= k < t.len() implies concept_tagged(#[trigger] t[k], "fr"@, level) by {
            assert(k == 0 || k == 1 || k == 2 || k == 3 || k == 4 || k == 5 || k == 6);
        }
    } else if level == "B2"@ {
        let t = french_seeds(level);
        reveal_strlit("fr_subjonctif_past");
        reveal_strlit("fr_passive");
        reveal_strlit("fr_futur_anterieur");
        reveal_strlit("fr_ne_expletif");
        reveal_strlit("fr_discourse_markers");
        assert forall|k: int| 0 <= k < t.len() implies concept_tagged(#[trigger] t[k], "fr"@, level) by {
            assert(k == 0 || k == 1 || k == 2 || k == 3 || k == 4);
        }
    }
}

proof fn lemma_german_seeds_tagged(level: Seq<char>)
    ensures
        forall|k: int|
            0 <= k < german_seeds(level).len() ==> concept_tagged(
                #[trigger] german_seeds(level)[k],
                "de"@,
                level,
            ),
{
    reveal_strlit("de");
    if level == "A1"@ {
        let t = german_seeds(level);
        reveal_strlit("de_articles_cases");
        reveal_strlit("de_present_regular");
        reveal_strlit("de_word_order");
        reveal_strlit("de_negation");
        reveal_strlit("de_modal_verbs");
        reveal_strlit("de_possessives");
        reveal_strlit("de_separable_verbs");
        reveal_strlit("de_plural");
        assert forall|k: int| 0 <= k < t.len() implies concept_tagged(#[trigger] t[k], "de"@, level) by {
            assert(k == 0 || k == 1 || k == 2 || k == 3 || k == 4 || k == 5 || k == 6 || k == 7);
        }
    } else if level == "A2"@ {
        let t = german_seeds(level);
        reveal_strlit("de_dative");
        reveal_strlit("de_perfekt");
        reveal_strlit("de_prepositions");
        reveal_strlit("de_subordinate_clauses");
        reveal_strlit("de_reflexive");
        reveal_strlit("de_comparatives");
        reveal_strlit("de_imperative");
        assert forall|k: int| 0 <= k < t.len() implies concept_tagged(#[trigger] t[k], "de"@, level) by {
            assert(k == 0 || k == 1 || k == 2 || k == 3 || k == 4 || k == 5 || k == 6);
        }
    } else if level == "B1"@ {
        let t = german_seeds(level);
        reveal_strlit("de_genitive");
        reveal_strlit("de_praeteritum");
        reveal_strlit("de_konjunktiv_ii");
        reveal_strlit("de_passive");
        reveal_strlit("de_relative_clauses");
        reveal_strlit("de_infinitive_zu");
        reveal_strlit("de_adjective_endings");
        assert forall|k: int| 0 <= k < t.len() implies concept_tagged(#[trigger] t[k], "de"@, level) by {
            assert(k == 0 || k == 1 || k == 2 || k == 3 || k == 4 || k == 5 || k == 6);
        }
    } else if level == "B2"@ {
        let t = german_seeds(level);
        reveal_strlit("de_konjunktiv_i");
        reveal_strlit("de_plusquamperfekt");
        reveal_strlit("de_future_perfect");
        reveal_strlit("de_extended_attributes");
        reveal_strlit("de_connectors");
        assert forall|k: int| 0 <= k < t.len() implies concept_tagged(#[trigger] t[k], "de"@, level) by {
            assert(k == 0 || k == 1 || k == 2 || k == 3 || k == 4);
        }
    }
}

proof fn lemma_italian_seeds_tagged(level: Seq<char>)
    ensures
        forall|k: int|
            0 <= k < italian_seeds(level).len() ==> concept_tagged(
                #[trigger] italian_seeds(level)[k],
                "it"@,
                level,
            ),
{
    reveal_strlit("it");
    if level == "A1"@ {
        let t = italian_seeds(level);
        reveal_strlit("it_articles");
        reveal_strlit("it_present_regular");
        reveal_strlit("it_essere_avere");
        reveal_strlit("it_adjective_agreement");
        reveal_strlit("it_negation");
        reveal_strlit("it_questions");
        reveal_strlit("it_possessives");
        reveal_strlit("it_ci_e");
        assert forall|k: int| 0 <= k < t.len() implies concept_tagged(#[trigger] t[k], "it"@, level) by {
            assert(k == 0 || k == 1 || k == 2 || k == 3 || k == 4 || k == 5 || k == 6 || k == 7);
        }
    } else if level == "A2"@ {
        let t = italian_seeds(level);
        reveal_strlit("it_passato_prossimo");
        reveal_strlit("it_imperfetto");
        reveal_strlit("it_reflexive");
        reveal_strlit("it_object_pronouns");
        reveal_strlit("it_future");
        reveal_strlit("it_imperative");
        reveal_strlit("it_prepositions");
        assert forall|k: int| 0 <= k < t.len() implies concept_tagged(#[trigger] t[k], "it"@, level) by {
            assert(k == 0 || k == 1 || k == 2 || k == 3 || k == 4 || k == 5 || k == 6);
        }
    } else if level == "B1"@ {
        let t = italian_seeds(level);
        reveal_strlit("it_pp_vs_imp");
        reveal_strlit("it_congiuntivo");
        reveal_strlit("it_condizionale");
        reveal_strlit("it_si_impersonale");
        reveal_strlit("it_relative_pronouns");
        reveal_strlit("it_ne_ci");
        assert forall|k: int| 0 <= k < t.len() implies concept_tagged(#[trigger] t[k], "it"@, level) by {
            assert(k == 0 || k == 1 || k == 2 || k == 3 || k == 4 || k == 5);
        }
    } else if level == "B2"@ {
        let t = italian_seeds(level);
        reveal_strlit("it_congiuntivo_past");
        reveal_strlit("it_periodo_ipotetico");
        reveal_strlit("it_passivo");
        reveal_strlit("it_gerundio");
        reveal_strlit("it_discourse_markers");
        assert forall|k: int| 0 <= k < t.len() implies concept_tagged(#[trigger] t[k], "it"@, level) by {
            assert(k == 0 || k == 1 || k == 2 || k == 3 || k == 4);
        }
    }
}

proof fn lemma_portuguese_seeds_tagged(level: Seq<char>)
    ensures
        forall|k: int|
            0 <= k < portuguese_seeds(level).len() ==> concept_tagged(
                #[trigger] portuguese_seeds(level)[k],
                "pt"@,
                level,
            ),
{
    reveal_strlit("pt");
    if level == "A1"@ {
        let t = portuguese_seeds(level);
        reveal_strlit("pt_articles");
        reveal_strlit("pt_present_regular");
        reveal_strlit("pt_ser_estar");
        reveal_strlit("pt_adjective_agreement");
        reveal_strlit("pt_negation");
        reveal_strlit("pt_questions");
        reveal_strlit("pt_possessives");
        reveal_strlit("pt_ter_haver");
        assert forall|k: int| 0 <= k < t.len() implies concept_tagged(#[trigger] t[k], "pt"@, level) by {
            assert(k == 0 || k == 1 || k == 2 || k == 3 || k == 4 || k == 5 || k == 6 || k == 7);
        }
    } else if level == "A2"@ {
        let t = portuguese_seeds(level);
        reveal_strlit("pt_preterite");
        reveal_strlit("pt_imperfect");
        reveal_strlit("pt_reflexive");
        reveal_strlit("pt_object_pronouns");
        reveal_strlit("pt_future_ir");
        reveal_strlit("pt_comparatives");
        reveal_strlit("pt_imperative");
        assert forall|k: int| 0 <= k < t.len() implies concept_tagged(#[trigger] t[k], "pt"@, level) by {
            assert(k == 0 || k == 1 || k == 2 || k == 3 || k == 4 || k == 5 || k == 6);
        }
    } else if level == "B1"@ {
        let t = portuguese_seeds(level);
        reveal_strlit("pt_subjunctive");
        reveal_strlit("pt_conditional");
        reveal_strlit("pt_pluperfect");
        reveal_strlit("pt_personal_infinitive");
        reveal_strlit("pt_passive");
        assert forall|k: int| 0 <= k < t.len() implies concept_tagged(#[trigger] t[k], "pt"@, level) by {
            assert(k == 0 || k == 1 || k == 2 || k == 3 || k == 4);
        }
    } else if level == "B2"@ {
        let t = portuguese_seeds(level);
        reveal_strlit("pt_future_subjunctive");
        reveal_strlit("pt_imperfect_subjunctive");
        reveal_strlit("pt_conditional_clauses");
        reveal_strlit("pt_compound_tenses");
        reveal_strlit("pt_discourse_connectors");
        assert forall|k: int| 0 <= k < t.len() implies concept_tagged(#[trigger] t[k], "pt"@, level) by {
            assert(k == 0 || k == 1 || k == 2 || k == 3 || k == 4);
        }
    }
}

proof fn lemma_japanese_seeds_tagged(level: Seq<char>)
    ensures
        forall|k: int|
            0 <= k < japanese_seeds(level).len() ==> concept_tagged(
                #[trigger] japanese_seeds(level)[k],
                "ja"@,
                level,
            ),
{
    reveal_strlit("ja");
    if level == "A1"@ {
        let t = japanese_seeds(level);
        reveal_strlit("ja_desu_masu");
        reveal_strlit("ja_particles_wa_ga");
        reveal_strlit("ja_particles_wo_ni_de");
        reveal_strlit("ja_adjectives");
        reveal_strlit("ja_te_form");
        reveal_strlit("ja_existence");
        reveal_strlit("ja_counters");
        reveal_strlit("ja_question_ka");
        assert forall|k: int| 0 <= k < t.len() implies concept_tagged(#[trigger] t[k], "ja"@, level) by {
            assert(k == 0 || k == 1 || k == 2 || k == 3 || k == 4 || k == 5 || k == 6 || k == 7);
        }
    } else if level == "A2"@ {
        let t = japanese_seeds(level);
        reveal_strlit("ja_past_tense");
        reveal_strlit("ja_tai_form");
        reveal_strlit("ja_te_iru");
        reveal_strlit("ja_potential");
        reveal_strlit("ja_giving_receiving");
        reveal_strlit("ja_nai_form");
        reveal_strlit("ja_particles_advanced");
        assert forall|k: int| 0 <= k < t.len() implies concept_tagged(#[trigger] t[k], "ja"@, level) by {
            assert(k == 0 || k == 1 || k == 2 || k == 3 || k == 4 || k == 5 || k == 6);
        }
    } else if level == "B1"@ {
        let t = japanese_seeds(level);
        reveal_strlit("ja_conditional");
        reveal_strlit("ja_passive");
        reveal_strlit("ja_causative");
        reveal_strlit("ja_volitional");
        reveal_strlit("ja_relative_clauses");
        reveal_strlit("ja_keigo_intro");
        assert forall|k: int| 0 <= k < t.len() implies concept_tagged(#[trigger] t[k], "ja"@, level) by {
            assert(k == 0 || k == 1 || k == 2 || k == 3 || k == 4 || k == 5);
        }
    } else if level == "B2"@ {
        let t = japanese_seeds(level);
        reveal_strlit("ja_causative_passive");
        reveal_strlit("ja_keigo_advanced");
        reveal_strlit("ja_grammar_patterns");
        reveal_strlit("ja_formal_writing");
        assert forall|k: int| 0 <= k < t.len() implies concept_tagged(#[trigger] t[k], "ja"@, level) by {
            assert(k == 0 || k == 1 || k == 2 || k == 3);
        }
    }
}

proof fn lemma_korean_seeds_tagged(level: Seq<char>)
    ensures
        forall|k: int|
            0 <= k < korean_seeds(level).len() ==> concept_tagged(
                #[trigger] korean_seeds(level)[k],
                "ko"@,
                level,
            ),
{
    reveal_strlit("ko");
    if level == "A1"@ {
        let t = korean_seeds(level);
        reveal_strlit("ko_particles_subject");
        reveal_strlit("ko_particles_object");
        reveal_strlit("ko_present_tense");
        reveal_strlit("ko_past_tense");
        reveal_strlit("ko_negation");
        reveal_strlit("ko_location");
        reveal_strlit("ko_want");
        reveal_strlit("ko_numbers");
        assert forall|k: int| 0 <= k < t.len() implies concept_tagged(#[trigger] t[k], "ko"@, level) by {
            assert(k == 0 || k == 1 || k == 2 || k == 3 || k == 4 || k == 5 || k == 6 || k == 7);
        }
    } else if level == "A2"@ {
        let t = korean_seeds(level);
        reveal_strlit("ko_connecting");
        reveal_strlit("ko_can");
        reveal_strlit("ko_honorifics_basic");
        reveal_strlit("ko_because");
        reveal_strlit("ko_future");
        reveal_strlit("ko_adjective_form");
        reveal_strlit("ko_progressive");
        assert forall|k: int| 0 <= k < t.len() implies concept_tagged(#[trigger] t[k], "ko"@, level) by {
            assert(k == 0 || k == 1 || k == 2 || k == 3 || k == 4 || k == 5 || k == 6);
        }
    } else if level == "B1"@ {
        let t = korean_seeds(level);
        reveal_strlit("ko_conditional");
        reveal_strlit("ko_passive");
        reveal_strlit("ko_indirect_speech");
        reveal_strlit("ko_relative_clause");
        reveal_strlit("ko_honorifics_adv");
        reveal_strlit("ko_conjunctions");
        assert forall|k: int| 0 <= k < t.len() implies concept_tagged(#[trigger] t[k], "ko"@, level) by {
            assert(k == 0 || k == 1 || k == 2 || k == 3 || k == 4 || k == 5);
        }
    } else if level == "B2"@ {
        let t = korean_seeds(level);
        reveal_strlit("ko_causative");
        reveal_strlit("ko_grammar_patterns");
        reveal_strlit("ko_formal_register");
        reveal_strlit("ko_written_style");
        assert forall|k: int| 0 <= k < t.len() implies concept_tagged(#[trigger] t[k], "ko"@, level) by {
            assert(k == 0 || k == 1 || k == 2 || k == 3);
        }
    }
}

proof fn lemma_chinese_seeds_tagged(level: Seq<char>)
    ensures
        forall|k: int|
            0 <= k < chinese_seeds(level).len() ==> concept_tagged(
                #[trigger] chinese_seeds(level)[k],
                "zh"@,
                level,
            ),
{
    reveal_strlit("zh");
    if level == "A1"@ {
        let t = chinese_seeds(level);
        reveal_strlit("zh_word_order");
        reveal_strlit("zh_shi");
        reveal_strlit("zh_negation");
        reveal_strlit("zh_questions_ma");
        reveal_strlit("zh_measure_words");
        reveal_strlit("zh_le_completed");
        reveal_strlit("zh_adj_predicate");
        reveal_strlit("zh_de_possession");
        assert forall|k: int| 0 <= k < t.len() implies concept_tagged(#[trigger] t[k], "zh"@, level) by {
            assert(k == 0 || k == 1 || k == 2 || k == 3 || k == 4 || k == 5 || k == 6 || k == 7);
        }
    } else if level == "A2"@ {
        let t = chinese_seeds(level);
        reveal_strlit("zh_guo_experience");
        reveal_strlit("zh_zai_progressive");
        reveal_strlit("zh_complement_result");
        reveal_strlit("zh_comparison");
        reveal_strlit("zh_ba_construction");
        reveal_strlit("zh_direction_complements");
        reveal_strlit("zh_duration");
        assert forall|k: int| 0 <= k < t.len() implies concept_tagged(#[trigger] t[k], "zh"@, level) by {
            assert(k == 0 || k == 1 || k == 2 || k == 3 || k == 4 || k == 5 || k == 6);
        }
    } else if level == "B1"@ {
        let t = chinese_seeds(level);
        reveal_strlit("zh_bei_passive");
        reveal_strlit("zh_complement_degree");
        reveal_strlit("zh_lian_dou");
        reveal_strlit("zh_shi_de");
        reveal_strlit("zh_complex_complements");
        reveal_strlit("zh_conjunctions");
        assert forall|k: int| 0 <= k < t.len() implies concept_tagged(#[trigger] t[k], "zh"@, level) by {
            assert(k == 0 || k == 1 || k == 2 || k == 3 || k == 4 || k == 5);
        }
    } else if level == "B2"@ {
        let t = chinese_seeds(level);
        reveal_strlit("zh_written_style");
        reveal_strlit("zh_chengyu");
        reveal_strlit("zh_advanced_ba_bei");
        reveal_strlit("zh_discourse");
        assert forall|k: int| 0 <= k < t.len() implies concept_tagged(#[trigger] t[k], "zh"@, level) by {
            assert(k == 0 || k == 1 || k == 2 || k == 3);
        }
    }
}

proof fn lemma_turkish_seeds_tagged(level: Seq<char>)
    ensures
        forall|k: int|
            0 <= k < turkish_seeds(level).len() ==> concept_tagged(
                #[trigger] turkish_seeds(level)[k],
                "tr"@,
                level,
            ),
{
    reveal_strlit("tr");
    if level == "A1"@ {
        let t = turkish_seeds(level);
        reveal_strlit("tr_vowel_harmony");
        reveal_strlit("tr_present_tense");
        reveal_strlit("tr_to_be");
        reveal_strlit("tr_negation");
        reveal_strlit("tr_cases_basic");
        reveal_strlit("tr_possessives");
        reveal_strlit("tr_var_yok");
        reveal_strlit("tr_questions");
        assert forall|k: int| 0 <= k < t.len() implies concept_tagged(#[trigger] t[k], "tr"@, level) by {
            assert(k == 0 || k == 1 || k == 2 || k == 3 || k == 4 || k == 5 || k == 6 || k == 7);
        }
    } else if level == "A2"@ {
        let t = turkish_seeds(level);
        reveal_strlit("tr_past_di");
        reveal_strlit("tr_past_mis");
        reveal_strlit("tr_aorist");
        reveal_strlit("tr_future");
        reveal_strlit("tr_ablative");
        reveal_strlit("tr_postpositions");
        reveal_strlit("tr_compound_nouns");
        assert forall|k: int| 0 <= k < t.len() implies concept_tagged(#[trigger] t[k], "tr"@, level) by {
            assert(k == 0 || k == 1 || k == 2 || k == 3 || k == 4 || k == 5 || k == 6);
        }
    } else if level == "B1"@ {
        let t = turkish_seeds(level);
        reveal_strlit("tr_relative_ki");
        reveal_strlit("tr_participles");
        reveal_strlit("tr_conditional");
        reveal_strlit("tr_passive");
        reveal_strlit("tr_causative");
        reveal_strlit("tr_converbs");
        assert forall|k: int| 0 <= k < t.len() implies concept_tagged(#[trigger] t[k], "tr"@, level) by {
            assert(k == 0 || k == 1 || k == 2 || k == 3 || k == 4 || k == 5);
        }
    } else if level == "B2"@ {
        let t = turkish_seeds(level);
        reveal_strlit("tr_reported_speech");
        reveal_strlit("tr_nominalizations");
        reveal_strlit("tr_reflexive_reciprocal");
        reveal_strlit("tr_formal_register");
        assert forall|k: int| 0 <= k < t.len() implies concept_tagged(#[trigger] t[k], "tr"@, level) by {
            assert(k == 0 || k == 1 || k == 2 || k == 3);
        }
    }
}

/// The code whose table `seeds_for` reads: the code itself for the nine
/// languages, Spanish otherwise.
pub open spec fn table_code(code: Seq<char>) -> Seq<char> {
    if code == "fr"@ || code == "de"@ || code == "it"@ || code == "pt"@ || code == "ja"@
        || code == "ko"@ || code == "zh"@ || code == "tr"@ {
        code
    } else {
        "es"@
    }
}

proof fn lemma_seeds_for_tagged(code: Seq<char>, level: Seq<char>)
    ensures
        forall|k: int|
            0 <= k < seeds_for(code, level).len() ==> concept_tagged(
                #[trigger] seeds_for(code, level)[k],
                table_code(code),
                level,
            ),
{
    lemma_spanish_seeds_tagged(level);
    lemma_french_seeds_tagged(level);
    lemma_german_seeds_tagged(level);
    lemma_italian_seeds_tagged(level);
    lemma_portuguese_seeds_tagged(level);
    lemma_japanese_seeds_tagged(level);
    lemma_korean_seeds_tagged(level);
    lemma_chinese_seeds_tagged(level);
    lemma_turkish_seeds_tagged(level);
}

proof fn lemma_seeds_through_tagged(code: Seq<char>, levels: Seq<Seq<char>>)
    ensures
        forall|k: int|
            0 <= k < seeds_through(code, levels).len() ==> exists|j: int|
                0 <= j < levels.len() && concept_tagged(
                    #[trigger] seeds_through(code, levels)[k],
                    table_code(code),
                    levels[j],
                ),
    decreases levels.len(),
{
    if levels.len() > 0 {
        let prev = levels.drop_last();
        lemma_seeds_through_tagged(code, prev);
        lemma_seeds_for_tagged(code, levels.last());
        let a = seeds_through(code, prev);
        let b = seeds_for(code, levels.last());
        assert forall|k: int| 0 <= k < seeds_through(code, levels).len() implies exists|j: int|
            0 <= j < levels.len() && concept_tagged(
                #[trigger] seeds_through(code, levels)[k],
                table_code(code),
                levels[j],
            ) by {
            let x = seeds_through(code, levels)[k];
            if k < a.len() {
                assert(x == a[k]);
                let j = choose|j: int| 0 <= j < prev.len() && concept_tagged(a[k], table_code(code), prev[j]);
                assert(levels[j] == prev[j]);
            } else {
                assert(x == b[k - a.len()]);
                assert(concept_tagged(b[k - a.len()], table_code(code), levels[levels.len() - 1]));
            }
        }
    }
}

/// Law: every concept seeded for a language and level carries one of the
/// levels up to that level, and its slug starts with the language's code
/// and an underscore (Spanish for a language not recognised).
pub proof fn lemma_seed_concepts_tagged(language: Seq<char>, level: Seq<char>)
    ensures
        forall|k: int|
            0 <= k < grammar_seed_texts(language, level).len() ==> exists|j: int|
                0 <= j < level_rank(uppercase(first_word(level))) && concept_tagged(
                    #[trigger] grammar_seed_texts(language, level)[k],
                    seed_code(lowercase(language)),
                    all_levels()[j],
                ),
{
    let code = seed_code(lowercase(language));
    let levels = all_levels().take(level_rank(uppercase(first_word(level))));
    lemma_seeds_through_tagged(code, levels);
    assert(table_code(code) == code);
    assert forall|k: int| 0 <= k < grammar_seed_texts(language, level).len() implies exists|j: int|
        0 <= j < level_rank(uppercase(first_word(level))) && concept_tagged(
            #[trigger] grammar_seed_texts(language, level)[k],
            seed_code(lowercase(language)),
            all_levels()[j],
        ) by {
        let j = choose|j: int| 0 <= j < levels.len() && concept_tagged(
            grammar_seed_texts(language, level)[k],
            code,
            levels[j],
        );
        assert(levels[j] == all_levels()[j]);
    }
}

} // verus!
