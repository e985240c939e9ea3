use std::cell::{Cell, RefCell};
use std::time::{Duration, Instant};

use translator_mangler::{
    mangle, LanguagePair, Pacer, Pacing, TranslationError, TranslationErrorKind, Translator,
};

const LANGS: [&str; 5] = ["en", "zh", "fr", "de", "ja"];

/// Appends `|<target>` per call and fails on the configured call number.
struct TaggingStub {
    calls: Cell<usize>,
    fail_on: Option<usize>,
    seen: RefCell<Vec<String>>,
}

impl TaggingStub {
    fn new(fail_on: Option<usize>) -> TaggingStub {
        TaggingStub { calls: Cell::new(0), fail_on, seen: RefCell::new(Vec::new()) }
    }
}

impl Translator for TaggingStub {
    fn translate(&self, text: &str, lang: &LanguagePair) -> Result<String, TranslationError> {
        if !self.is_single_lang_supported(&lang.from_lang)
            || !self.is_single_lang_supported(&lang.to_lang)
        {
            return Err(TranslationError::new(
                TranslationErrorKind::UnsupportedLanguage,
                "Unsupported language",
            ));
        }
        let n = self.calls.get() + 1;
        self.calls.set(n);
        self.seen.borrow_mut().push(text.to_string());
        if self.fail_on == Some(n) {
            return Err(TranslationError::new(TranslationErrorKind::BackendFailure, "stub failure"));
        }
        Ok(format!("{}|{}", text, lang.to_lang))
    }

    fn get_supported_langs(&self) -> &[&'static str] {
        &LANGS
    }

    fn is_single_lang_supported(&self, single_lang: &str) -> bool {
        LANGS.contains(&single_lang)
    }
}

struct CountingPacer {
    pauses: Cell<usize>,
}

impl Pacer for CountingPacer {
    fn pause(&self, _millis: u64) {
        self.pauses.set(self.pauses.get() + 1);
    }
}

struct SleepingPacer {
    pauses: Cell<usize>,
}

impl Pacer for SleepingPacer {
    fn pause(&self, millis: u64) {
        self.pauses.set(self.pauses.get() + 1);
        let start = Instant::now();
        while start.elapsed() < Duration::from_millis(millis) {
            std::hint::spin_loop();
        }
    }
}

fn path(hops: &[(&str, &str)]) -> Vec<LanguagePair> {
    hops.iter().map(|(f, t)| LanguagePair::new(f, t)).collect()
}

#[test]
fn tags_are_applied_left_to_right() {
    let stub = TaggingStub::new(None);
    let mut pacing = Pacing::new(CountingPacer { pauses: Cell::new(0) });
    let p = path(&[("en", "zh"), ("zh", "fr"), ("fr", "en")]);
    let r = mangle(&stub, "hello", &p, 0, &mut pacing);
    assert_eq!(r.unwrap(), "hello|zh|fr|en");
    assert_eq!(stub.calls.get(), 3);
    assert_eq!(pacing.pacer().pauses.get(), 2);
}

#[test]
fn failure_on_second_hop_short_circuits() {
    let stub = TaggingStub::new(Some(2));
    let mut pacing = Pacing::new(CountingPacer { pauses: Cell::new(0) });
    let p = path(&[("en", "zh"), ("zh", "fr"), ("fr", "de"), ("de", "en")]);
    let r = mangle(&stub, "hello", &p, 0, &mut pacing);
    let e = r.unwrap_err();
    assert_eq!(e.kind, TranslationErrorKind::BackendFailure);
    assert_eq!(e.message, "stub failure");
    assert_eq!(stub.calls.get(), 2);
    assert_eq!(pacing.pacer().pauses.get(), 1);
    assert_eq!(*stub.seen.borrow(), vec!["hello".to_string(), "hello|zh".to_string()]);
}

#[test]
fn empty_path_returns_text_without_calls() {
    let stub = TaggingStub::new(None);
    let mut pacing = Pacing::new(CountingPacer { pauses: Cell::new(0) });
    let r = mangle(&stub, "unchanged", &[], 1000, &mut pacing);
    assert_eq!(r.unwrap(), "unchanged");
    assert_eq!(stub.calls.get(), 0);
    assert_eq!(pacing.pacer().pauses.get(), 0);
}

#[test]
fn unsupported_first_hop_fails_before_any_call() {
    let stub = TaggingStub::new(None);
    let mut pacing = Pacing::new(CountingPacer { pauses: Cell::new(0) });
    let p = path(&[("en", "tlh"), ("tlh", "en")]);
    let e = mangle(&stub, "hello", &p, 0, &mut pacing).unwrap_err();
    assert_eq!(e.kind, TranslationErrorKind::UnsupportedLanguage);
    assert_eq!(stub.calls.get(), 0);
}

#[test]
fn zero_delay_runs_without_pacing() {
    let stub = TaggingStub::new(None);
    let mut pacing = Pacing::new(SleepingPacer { pauses: Cell::new(0) });
    let p = path(&[("en", "zh"), ("zh", "en")]);
    let start = Instant::now();
    let r = mangle(&stub, "hi", &p, 0, &mut pacing);
    assert_eq!(r.unwrap(), "hi|zh|en");
    assert!(start.elapsed() < Duration::from_millis(500));
}

#[test]
fn delay_is_spent_between_hops_only() {
    let stub = TaggingStub::new(None);
    let mut pacing = Pacing::new(SleepingPacer { pauses: Cell::new(0) });
    let p = path(&[("en", "zh"), ("zh", "fr"), ("fr", "en")]);
    let start = Instant::now();
    let r = mangle(&stub, "hi", &p, 40, &mut pacing);
    assert_eq!(r.unwrap(), "hi|zh|fr|en");
    assert!(start.elapsed() >= Duration::from_millis(80));
    assert_eq!(pacing.pacer().pauses.get(), 2);
}

#[test]
fn stub_support_matches_its_list() {
    let stub = TaggingStub::new(None);
    for code in stub.get_supported_langs() {
        assert!(stub.is_single_lang_supported(code));
    }
    assert!(!stub.is_single_lang_supported("tlh"));
}

#[test]
fn error_descriptions() {
    let e = TranslationError::new(TranslationErrorKind::BackendFailure, "boom");
    assert_eq!(e.describe(), "TranslationError: boom");
    let n = TranslationError::network("timed out");
    assert_eq!(n.kind, TranslationErrorKind::NetworkFailure);
    assert_eq!(n.message, "NETWORK ERR: timed out");
}
