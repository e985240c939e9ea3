//! What the backends share: form requests, language checks and the reading
//! of replies that carry an error code and a list of translations.

use vstd::prelude::*;

use crate::translator::{
    codes_view, outcome_view, LanguagePair, OutcomeView, TranslationError, TranslationErrorKind,
};

verus! {

/// One `name=value` field of a form-encoded request body.
pub struct FormField {
    pub name: String,
    pub value: String,
}

impl View for FormField {
    type V = (Seq<char>, Seq<char>);

    open spec fn view(&self) -> (Seq<char>, Seq<char>) {
        (self.name@, self.value@)
    }
}

/// A form POST to a backend: where it goes and the fields it carries, in order.
pub struct FormRequest {
    pub url: String,
    pub fields: Vec<FormField>,
}

/// The fields of a request, as pairs of name and value.
pub open spec fn fields_view(fields: Seq<FormField>) -> Seq<(Seq<char>, Seq<char>)> {
    fields.map_values(|f: FormField| f@)
}

/// A field with the given name and value.
pub fn field(name: &str, value: &str) -> (r: FormField)
    ensures
        r@ == (name@, value@),
{
    FormField { name: name.to_string(), value: value.to_string() }
}

/// Whether `code` is one of `langs`.
pub fn list_contains(langs: &[&str], code: &str) -> (r: bool)
    ensures
        r == codes_view(langs@).contains(code@),
{
    let wanted = String::from_str(code);
    let mut j: usize = 0;
    while j < langs.len()
        invariant
            j <= langs@.len(),
            wanted@ == code@,
            forall|k: int| 0 <= k < j ==> langs@[k]@ != code@,
        decreases langs@.len() - j,
    {
        let candidate = String::from_str(langs[j]);
        if candidate == wanted {
            proof {
                assert(codes_view(langs@)[j as int] == code@);
            }
            return true;
        }
        j += 1;
    }
    proof {
        if codes_view(langs@).contains(code@) {
            let k = choose|k: int| 0 <= k < codes_view(langs@).len() && codes_view(langs@)[k] == code@;
            assert(langs@[k]@ == code@);
        }
    }
    false
}

/// The message of the error for a pair with a language that is not offered.
pub open spec fn unsupported_message() -> Seq<char> {
    "Unsupported language"@
}

/// Checks that both languages of `lang` are among `langs`; otherwise the
/// `UnsupportedLanguage` error.
pub fn check_pair(langs: &[&str], lang: &LanguagePair) -> (r: Result<(), TranslationError>)
    ensures
        r is Ok <==> codes_view(langs@).contains(lang.from_lang@) && codes_view(langs@).contains(
            lang.to_lang@,
        ),
        r is Err ==> r->Err_0@ == (TranslationErrorKind::UnsupportedLanguage, unsupported_message()),
{
    if list_contains(langs, lang.from_lang.as_str()) && list_contains(langs, lang.to_lang.as_str()) {
        Ok(())
    } else {
        Err(TranslationError::new(TranslationErrorKind::UnsupportedLanguage, "Unsupported language"))
    }
}

/// Whether `s` is an integer that reads as zero: an optional sign followed
/// by one or more `0` digits.
pub open spec fn reads_zero(s: Seq<char>) -> bool {
    let digits = unsigned_part(s);
    digits.len() > 0 && forall|i: int| 0 <= i < digits.len() ==> digits[i] == '0'
}

/// `s` without a leading `+` or `-`.
pub open spec fn unsigned_part(s: Seq<char>) -> Seq<char> {
    if s.len() > 0 && (s[0] == '+' || s[0] == '-') {
        s.drop_first()
    } else {
        s
    }
}

/// Whether an error code reports success: it is empty or reads as zero.
pub open spec fn code_is_success(code: Seq<char>) -> bool {
    code.len() == 0 || reads_zero(code)
}

/// Whether `code` reads as zero.
pub fn code_reads_zero(code: &str) -> (r: bool)
    ensures
        r == reads_zero(code@),
{
    let n = code.unicode_len();
    let mut start: usize = 0;
    if n > 0 {
        let c = code.get_char(0);
        if c == '+' || c == '-' {
            start = 1;
        }
    }
    let ghost digits = code@.subrange(start as int, n as int);
    proof {
        if n > 0 && (code@[0] == '+' || code@[0] == '-') {
            assert(digits =~= code@.drop_first());
        } else {
            assert(digits =~= code@);
        }
        assert(digits == unsigned_part(code@));
    }
    if start >= n {
        assert(digits.len() == 0);
        return false;
    }
    let mut i: usize = start;
    while i < n
        invariant
            start <= i <= n,
            n == code@.len(),
            digits == code@.subrange(start as int, n as int),
            digits == unsigned_part(code@),
            forall|k: int| start <= k < i ==> code@[k] == '0',
        decreases n - i,
    {
        if code.get_char(i) != '0' {
            proof {
                assert(digits[i - start] != '0');
            }
            return false;
        }
        i += 1;
    }
    proof {
        assert forall|k: int| 0 <= k < digits.len() implies digits[k] == '0' by {
            assert(digits[k] == code@[k + start]);
        }
    }
    true
}

/// The message of a backend failure: `API ERR: ` followed by `detail`.
pub open spec fn api_error_message(detail: Seq<char>) -> Seq<char> {
    "API ERR: "@ + detail
}

/// The detail of the failure for a reply that carries no translation.
pub open spec fn empty_result_detail() -> Seq<char> {
    "empty result"@
}

/// The texts of a list of strings.
pub open spec fn texts_view(texts: Seq<String>) -> Seq<Seq<char>> {
    texts.map_values(|t: String| t@)
}

/// The outcome a reply with an error code and a list of translations stands
/// for: a failure with `detail` when the code reports one, a failure when no
/// translation came back, else the first translation.
pub open spec fn coded_outcome(
    error_code: Seq<char>,
    detail: Seq<char>,
    translations: Seq<Seq<char>>,
) -> OutcomeView {
    if !code_is_success(error_code) {
        Err((TranslationErrorKind::BackendFailure, api_error_message(detail)))
    } else if translations.len() == 0 {
        Err((TranslationErrorKind::BackendFailure, api_error_message(empty_result_detail())))
    } else {
        Ok(translations[0])
    }
}

/// Reads a reply with an error code and a list of translations.
pub fn coded_reply(error_code: &str, detail: &str, translations: &[String]) -> (r: Result<
    String,
    TranslationError,
>)
    ensures
        outcome_view(r) == coded_outcome(error_code@, detail@, texts_view(translations@)),
{
    let success = error_code.unicode_len() == 0 || code_reads_zero(error_code);
    if !success {
        Err(api_error(detail))
    } else if translations.len() == 0 {
        Err(api_error("empty result"))
    } else {
        Ok(translations[0].clone())
    }
}

/// A backend failure with the message `API ERR: <detail>`.
pub fn api_error(detail: &str) -> (r: TranslationError)
    ensures
        r@ == (TranslationErrorKind::BackendFailure, api_error_message(detail@)),
{
    let message = String::from_str("API ERR: ").concat(detail);
    TranslationError { kind: TranslationErrorKind::BackendFailure, message }
}

} // verus!
