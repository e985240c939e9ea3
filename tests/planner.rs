use translator_mangler::{
    get_random_lang_path, is_plannable, plan_lang_path, IndexSource, LanguagePair, ScriptedPicks,
};

fn hops(path: &[LanguagePair]) -> Vec<(String, String)> {
    path.iter().map(|p| (p.from_lang.clone(), p.to_lang.clone())).collect()
}

fn assert_well_formed(path: &[LanguagePair], original: &str, bank: &[&str]) {
    assert_eq!(path[0].from_lang, original);
    assert_eq!(path[path.len() - 1].to_lang, original);
    for i in 0..path.len() - 1 {
        assert_eq!(path[i].to_lang, path[i + 1].from_lang);
        assert_ne!(path[i].to_lang, path[i].from_lang);
        assert!(bank.contains(&path[i].to_lang.as_str()));
    }
}

#[test]
fn scripted_path_is_exact() {
    let bank = ["en", "zh", "fr"];
    let mut picks = ScriptedPicks::new(vec![0, 1]);
    let path = plan_lang_path("en", &bank, 3, &mut picks);
    let expected = vec![
        ("en".to_string(), "zh".to_string()),
        ("zh".to_string(), "fr".to_string()),
        ("fr".to_string(), "en".to_string()),
    ];
    assert_eq!(hops(&path), expected);
}

#[test]
fn path_has_rounds_hops_and_is_chained() {
    let bank = ["en", "zh", "fr", "de"];
    for rounds in 2..12 {
        let mut picks = ScriptedPicks::new(vec![3, 0, 2, 1, 5]);
        let path = plan_lang_path("en", &bank, rounds, &mut picks);
        assert_eq!(path.len(), rounds);
        assert_well_formed(&path, "en", &bank);
    }
}

#[test]
fn random_path_keeps_invariants() {
    let bank = ["en", "zh", "fr"];
    for _ in 0..50 {
        let path = get_random_lang_path("en", &bank, 20);
        assert_eq!(path.len(), 20);
        assert_well_formed(&path, "en", &bank);
    }
}

#[test]
fn no_immediate_repeat_with_repeated_bank_entries() {
    // The bank repeats the current language; a draw never stays on it.
    let bank = ["en", "en", "en", "ja"];
    for seed in 0..8 {
        let mut picks = ScriptedPicks::new(vec![seed, seed + 1]);
        let path = plan_lang_path("en", &bank, 6, &mut picks);
        assert_eq!(path.len(), 6);
        assert_well_formed(&path, "en", &bank);
    }
}

#[test]
fn two_rounds_with_one_other_language() {
    let bank = ["ja"];
    let path = get_random_lang_path("en", &bank, 2);
    let expected = vec![
        ("en".to_string(), "ja".to_string()),
        ("ja".to_string(), "en".to_string()),
    ];
    assert_eq!(hops(&path), expected);
}

#[test]
fn single_round_is_identity_hop() {
    let bank = ["en", "zh", "fr"];
    let path = get_random_lang_path("fr", &bank, 1);
    assert_eq!(hops(&path), vec![("fr".to_string(), "fr".to_string())]);
}

#[test]
fn empty_bank_gives_one_degenerate_hop() {
    let bank: [&str; 0] = [];
    for rounds in [0usize, 1, 2, 7] {
        let path = get_random_lang_path("en", &bank, rounds);
        assert_eq!(hops(&path), vec![("en".to_string(), "en".to_string())]);
    }
}

#[test]
fn zero_rounds_gives_empty_path() {
    let bank = ["en", "zh"];
    let path = get_random_lang_path("en", &bank, 0);
    assert!(path.is_empty());
}

#[test]
fn empty_script_draws_first_candidate() {
    let bank = ["en", "zh", "fr"];
    let mut picks = ScriptedPicks::new(Vec::new());
    let path = plan_lang_path("en", &bank, 4, &mut picks);
    let expected = vec![
        ("en".to_string(), "zh".to_string()),
        ("zh".to_string(), "en".to_string()),
        ("en".to_string(), "zh".to_string()),
        ("zh".to_string(), "en".to_string()),
    ];
    assert_eq!(hops(&path), expected);
}

#[test]
fn scripted_picks_cycle_and_reduce() {
    let mut picks = ScriptedPicks::new(vec![5, 2]);
    assert_eq!(picks.pick(3), 2);
    assert_eq!(picks.pick(3), 2);
    assert_eq!(picks.pick(4), 1);
    assert_eq!(picks.pick(10), 2);
    let mut empty = ScriptedPicks::new(Vec::new());
    assert_eq!(empty.pick(7), 0);
}

#[test]
fn draws_index_the_other_codes() {
    // From "en" the other codes are [zh, fr, de]; draw 2 picks "de".
    // From "de" they are [en, zh, fr]; draw 1 picks "zh".
    let bank = ["en", "zh", "fr", "de"];
    let mut picks = ScriptedPicks::new(vec![2, 1]);
    let path = plan_lang_path("en", &bank, 3, &mut picks);
    let expected = vec![
        ("en".to_string(), "de".to_string()),
        ("de".to_string(), "zh".to_string()),
        ("zh".to_string(), "en".to_string()),
    ];
    assert_eq!(hops(&path), expected);
}

#[test]
fn plannable_banks() {
    assert!(is_plannable("en", &[], 9));
    assert!(is_plannable("en", &["en"], 1));
    assert!(is_plannable("en", &["ja"], 2));
    assert!(!is_plannable("en", &["en"], 2));
    assert!(!is_plannable("en", &["ja"], 3));
    assert!(!is_plannable("en", &["ja", "ja"], 3));
    assert!(is_plannable("en", &["ja", "en"], 3));
    assert!(is_plannable("en", &["ja", "zh"], 20));
}
