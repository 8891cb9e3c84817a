use parla::grammar_seeds::{first_word_of, levels_up_to, normalize_language};
use parla::grammar_seeds::grammar_concepts_for;

#[test]
fn languages_normalize_to_seed_codes() {
    assert_eq!(normalize_language("Spanish"), "es");
    assert_eq!(normalize_language("FR"), "fr");
    assert_eq!(normalize_language("german"), "de");
    assert_eq!(normalize_language("Mandarin"), "zh");
    assert_eq!(normalize_language("Chinese"), "zh");
    assert_eq!(normalize_language("Turkish"), "tr");
    assert_eq!(normalize_language("Klingon"), "es");
}

#[test]
fn levels_up_to_include_lower_levels() {
    assert_eq!(levels_up_to("A1"), vec!["A1"]);
    assert_eq!(levels_up_to("b1 (Intermediate)"), vec!["A1", "A2", "B1"]);
    assert_eq!(levels_up_to("A2 (Elementary)"), vec!["A1", "A2"]);
    assert_eq!(levels_up_to("C1"), vec!["A1", "A2", "B1", "B2"]);
    assert_eq!(levels_up_to(""), vec!["A1", "A2", "B1", "B2"]);
}

#[test]
fn first_word_skips_leading_space() {
    assert_eq!(first_word_of("  B2 Upper"), "B2");
    assert_eq!(first_word_of("A1"), "A1");
    assert_eq!(first_word_of("   "), "   ");
}

#[test]
fn spanish_concepts_through_a2() {
    let c = grammar_concepts_for("Spanish", "A2 (Elementary)");
    assert_eq!(c.len(), 20);
    assert_eq!(c[0].slug, "es_articles");
    assert_eq!(c[0].name, "Articles (el/la/los/las)");
    assert_eq!(c[0].cefr_level, "A1");
    assert_eq!(c[10].slug, "es_present_irregular");
    assert_eq!(c[10].cefr_level, "A2");
    assert_eq!(c[19].slug, "es_prepositions");
}

#[test]
fn spanish_concepts_through_b2() {
    let c = grammar_concepts_for("es", "B2");
    assert_eq!(c.len(), 38);
    assert_eq!(c[37].slug, "es_nominalizations");
}

#[test]
fn portuguese_has_its_own_b2_batch() {
    let c = grammar_concepts_for("Portuguese", "B2");
    assert_eq!(c.len(), 8 + 7 + 5 + 5);
    assert_eq!(c[15].slug, "pt_subjunctive");
    assert_eq!(c[15].cefr_level, "B1");
    assert_eq!(c[20].slug, "pt_future_subjunctive");
    assert!(c[20..].iter().all(|x| x.cefr_level == "B2"));
    let mut slugs: Vec<&str> = c.iter().map(|x| x.slug.as_str()).collect();
    slugs.sort();
    slugs.dedup();
    assert_eq!(slugs.len(), c.len());
}

#[test]
fn unknown_language_falls_back_to_spanish() {
    let c = grammar_concepts_for("Klingon", "A1");
    assert_eq!(c.len(), 10);
    assert!(c.iter().all(|x| x.slug.starts_with("es_")));
}

#[test]
fn seeded_concepts_carry_their_language_and_level() {
    for (lang, code) in [("Spanish", "es"), ("fr", "fr"), ("German", "de"), ("Italian", "it"),
        ("Portuguese", "pt"), ("Japanese", "ja"), ("Korean", "ko"), ("Chinese", "zh"), ("Turkish", "tr")] {
        let c = grammar_concepts_for(lang, "B1");
        assert!(!c.is_empty());
        for x in &c {
            assert!(x.slug.starts_with(&format!("{code}_")));
            assert!(["A1", "A2", "B1"].contains(&x.cefr_level.as_str()));
        }
    }
}

#[test]
fn seeded_slugs_are_distinct_at_every_level() {
    for lang in ["es", "fr", "de", "it", "pt", "ja", "ko", "zh", "tr"] {
        for level in ["A1", "A2", "B1", "B2"] {
            let c = grammar_concepts_for(lang, level);
            let mut slugs: Vec<&str> = c.iter().map(|x| x.slug.as_str()).collect();
            let n = slugs.len();
            slugs.sort();
            slugs.dedup();
            assert_eq!(slugs.len(), n, "{lang} {level}");
            assert!(c.iter().any(|x| x.cefr_level == level));
        }
    }
}
