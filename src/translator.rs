//! The capability surface that every translation backend offers, and the
//! error kinds that a translation may end in.

use vstd::prelude::*;

verus! {

/// What went wrong with a translation request.
#[derive(Clone, Copy, Debug, PartialEq, Eq, Structural)]
pub enum TranslationErrorKind {
    /// The source or the target language is not offered by the backend.
    /// Reported before any request leaves the process.
    UnsupportedLanguage,
    /// The request could not be completed (connection, timeout, transport).
    NetworkFailure,
    /// The backend answered, but with an error or without a translation.
    BackendFailure,
}

/// Errors that may occur when translating.
#[derive(Debug)]
pub struct TranslationError {
    /// Which kind of failure this is.
    pub kind: TranslationErrorKind,
    /// The message string describing the error.
    pub message: String,
}

/// The mathematical value of an error: its kind and its message.
pub type ErrorView = (TranslationErrorKind, Seq<char>);

/// The mathematical value of a language pair: source and target code.
pub type PairView = (Seq<char>, Seq<char>);

/// The mathematical value of a translation outcome.
pub type OutcomeView = Result<Seq<char>, ErrorView>;

impl View for TranslationError {
    type V = ErrorView;

    open spec fn view(&self) -> ErrorView {
        (self.kind, self.message@)
    }
}

impl TranslationError {
    /// An error of the given kind with the given message.
    pub fn new(kind: TranslationErrorKind, message: &str) -> (r: TranslationError)
        ensures
            r.kind == kind,
            r.message@ == message@,
    {
        TranslationError { kind, message: message.to_string() }
    }

    /// A network failure: `NETWORK ERR: <detail>`.
    pub fn network(detail: &str) -> (r: TranslationError)
        ensures
            r@ == (TranslationErrorKind::NetworkFailure, "NETWORK ERR: "@ + detail@),
    {
        let message = String::from_str("NETWORK ERR: ").concat(detail);
        TranslationError { kind: TranslationErrorKind::NetworkFailure, message }
    }

    /// The error as a line of text for the operator: `TranslationError: <message>`.
    pub fn describe(&self) -> (r: String)
        ensures
            r@ == "TranslationError: "@ + self.message@,
    {
        let prefix = String::from_str("TranslationError: ");
        prefix.concat(self.message.as_str())
    }
}

/// A pair of languages to translate between.
pub struct LanguagePair {
    pub from_lang: String,
    pub to_lang: String,
}

impl View for LanguagePair {
    type V = PairView;

    open spec fn view(&self) -> PairView {
        (self.from_lang@, self.to_lang@)
    }
}

impl LanguagePair {
    /// A pair that translates from `from_lang` to `to_lang`.
    pub fn new(from_lang: &str, to_lang: &str) -> (r: LanguagePair)
        ensures
            r@ == (from_lang@, to_lang@),
    {
        LanguagePair { from_lang: from_lang.to_string(), to_lang: to_lang.to_string() }
    }
}

/// The codes of a list of language names.
pub open spec fn codes_view(langs: Seq<&str>) -> Seq<Seq<char>> {
    langs.map_values(|s: &str| s@)
}

/// The hops of a language path, as pairs of codes.
pub open spec fn path_view(path: Seq<LanguagePair>) -> Seq<PairView> {
    path.map_values(|p: LanguagePair| p@)
}

/// The value of a translation outcome.
pub open spec fn outcome_view(r: Result<String, TranslationError>) -> OutcomeView {
    match r {
        Ok(s) => Ok(s@),
        Err(e) => Err(e@),
    }
}

/// Whether an outcome is the error raised for a language that is not offered.
pub open spec fn is_unsupported(r: OutcomeView) -> bool {
    r is Err && r->Err_0.0 == TranslationErrorKind::UnsupportedLanguage
}

/// A trait to support text translation.
pub trait Translator {
    /// The codes this translator accepts, in the backend's own order.
    /// A translator that does not say accepts none.
    open spec fn supported_codes(&self) -> Seq<Seq<char>> {
        Seq::empty()
    }

    /// The outcomes the backend may give when asked to translate `text`
    /// along `pair`. A deterministic backend admits one outcome per input;
    /// a translator that does not say admits any.
    open spec fn may_answer(&self, text: Seq<char>, pair: PairView, outcome: OutcomeView) -> bool {
        true
    }

    /// Translate `text` from one language to another by some means.
    ///
    /// A pair whose source or target is not supported ends in an
    /// `UnsupportedLanguage` error, and only such a pair does.
    fn translate(&self, text: &str, lang: &LanguagePair) -> (r: Result<String, TranslationError>)
        ensures
            self.may_answer(text@, lang@, outcome_view(r)),
            is_unsupported(outcome_view(r)) <==> !(self.supported_codes().contains(lang.from_lang@)
                && self.supported_codes().contains(lang.to_lang@)),
    ;

    /// Get a list of all supported languages.
    fn get_supported_langs(&self) -> (r: &[&'static str])
        ensures
            codes_view(r@) == self.supported_codes(),
    ;

    /// Check if a language is supported.
    fn is_single_lang_supported(&self, single_lang: &str) -> (r: bool)
        ensures
            r == self.supported_codes().contains(single_lang@),
    ;
}

/// Whatever translator is asked, a code is reported supported exactly when
/// it is among the languages the translator lists.
pub proof fn lemma_support_matches_list<T: Translator + ?Sized>(
    t: &T,
    listed: Seq<&str>,
    code: Seq<char>,
)
    requires
        codes_view(listed) == t.supported_codes(),
    ensures
        t.supported_codes().contains(code) <==> exists|i: int|
            0 <= i < listed.len() && #[trigger] listed[i]@ == code,
{
    if t.supported_codes().contains(code) {
        let i = choose|i: int| 0 <= i < t.supported_codes().len() && t.supported_codes()[i] == code;
        assert(listed[i]@ == code);
    }
    if exists|i: int| 0 <= i < listed.len() && #[trigger] listed[i]@ == code {
        let i = choose|i: int| 0 <= i < listed.len() && #[trigger] listed[i]@ == code;
        assert(codes_view(listed)[i] == code);
    }
}

} // verus!
