//! Google Cloud Translation (v2): requests authorised by an API key.

use vstd::prelude::*;

use crate::request::{
    check_pair, coded_outcome, coded_reply, field, fields_view, texts_view, unsupported_message,
    FormRequest,
};
use crate::translator::{
    codes_view, outcome_view, LanguagePair, OutcomeView, PairView, TranslationError,
    TranslationErrorKind,
};

verus! {

/// Where translation requests are sent.
pub const GOOGLE_ENDPOINT: &'static str = "https://translation.googleapis.com/language/translate/v2";

/// The language codes Google Cloud Translation accepts.
pub open spec fn google_codes() -> Seq<Seq<char>> {
    seq![
        "af"@, "sq"@, "am"@, "ar"@, "hy"@, "az"@, "eu"@, "be"@, "bn"@, "bs"@, "bg"@, "ca"@,
        "ceb"@, "zh-CN"@, "zh-TW"@, "co"@, "hr"@, "cs"@, "da"@, "nl"@, "en"@, "eo"@, "et"@,
        "fi"@, "fr"@, "fy"@, "gl"@, "ka"@, "de"@, "el"@, "gu"@, "ht"@, "ha"@, "haw"@, "he"@,
        "hi"@, "hmn"@, "hu"@, "is"@, "ig"@, "id"@, "ga"@, "it"@, "ja"@, "jv"@, "kn"@, "kk"@,
        "km"@, "rw"@, "ko"@, "ku"@, "ky"@, "lo"@, "lv"@, "lt"@, "lb"@, "mk"@, "mg"@, "ms"@,
        "ml"@, "mt"@, "mi"@, "mr"@, "mn"@, "my"@, "ne"@, "no"@, "ny"@, "or"@, "ps"@, "fa"@,
        "pl"@, "pt"@, "pa"@, "ro"@, "ru"@, "sm"@, "gd"@, "sr"@, "st"@, "sn"@, "sd"@, "si"@,
        "sk"@, "sl"@, "so"@, "es"@, "su"@, "sw"@, "sv"@, "tl"@, "tg"@, "ta"@, "tt"@, "te"@,
        "th"@, "tr"@, "tk"@, "uk"@, "ur"@, "ug"@, "uz"@, "vi"@, "cy"@, "xh"@, "yi"@, "yo"@,
        "zu"@,
    ]
}

/// The form fields of a request, in the order they are sent.
pub open spec fn google_fields(api_key: Seq<char>, text: Seq<char>, pair: PairView) -> Seq<
    (Seq<char>, Seq<char>),
> {
    seq![
        ("q"@, text),
        ("source"@, pair.0),
        ("target"@, pair.1),
        ("key"@, api_key),
        ("format"@, "text"@),
        ("model"@, "base"@),
    ]
}

/// Whether an HTTP status reports success (200 to 299).
pub open spec fn status_is_success(status: u16) -> bool {
    200 <= status <= 299
}

/// The outcome a reply stands for: a backend failure for a status that is
/// not a success (`REQUEST ERR: HTTP <status text>`, where the status text
/// is the code and its reason phrase, as in `404 Not Found`) or for a reply
/// without a translation, else the first translation.
pub open spec fn google_outcome(
    status: u16,
    status_text: Seq<char>,
    translations: Seq<Seq<char>>,
) -> OutcomeView {
    if !status_is_success(status) {
        Err((TranslationErrorKind::BackendFailure, "REQUEST ERR: HTTP "@ + status_text))
    } else {
        coded_outcome(Seq::empty(), Seq::empty(), translations)
    }
}

/// A translator using Google Cloud Translation as its backend.
pub struct TranslatorGoogleCloud {
    api_key: String,
    langs: Vec<&'static str>,
}

impl TranslatorGoogleCloud {
    /// The API key requests are made with.
    pub closed spec fn api_key_view(&self) -> Seq<char> {
        self.api_key@
    }

    /// The codes this translator accepts.
    pub closed spec fn supported_codes(&self) -> Seq<Seq<char>> {
        codes_view(self.langs@)
    }

    /// Create an instance of `TranslatorGoogleCloud` with the given API key.
    pub fn new(api_key: &str) -> (r: TranslatorGoogleCloud)
        ensures
            r.api_key_view() == api_key@,
            r.supported_codes() == google_codes(),
    {
        let langs: Vec<&'static str> = vec![
            "af", "sq", "am", "ar", "hy", "az", "eu", "be", "bn", "bs", "bg", "ca", "ceb", "zh-CN",
            "zh-TW", "co", "hr", "cs", "da", "nl", "en", "eo", "et", "fi", "fr", "fy", "gl", "ka",
            "de", "el", "gu", "ht", "ha", "haw", "he", "hi", "hmn", "hu", "is", "ig", "id", "ga",
            "it", "ja", "jv", "kn", "kk", "km", "rw", "ko", "ku", "ky", "lo", "lv", "lt", "lb", "mk",
            "mg", "ms", "ml", "mt", "mi", "mr", "mn", "my", "ne", "no", "ny", "or", "ps", "fa", "pl",
            "pt", "pa", "ro", "ru", "sm", "gd", "sr", "st", "sn", "sd", "si", "sk", "sl", "so", "es",
            "su", "sw", "sv", "tl", "tg", "ta", "tt", "te", "th", "tr", "tk", "uk", "ur", "ug", "uz",
            "vi", "cy", "xh", "yi", "yo", "zu",
        ];
        proof {
            assert(codes_view(langs@) =~= google_codes());
        }
        TranslatorGoogleCloud { api_key: api_key.to_string(), langs }
    }

    /// The API key requests are made with.
    pub fn api_key(&self) -> (r: &str)
        ensures
            r@ == self.api_key_view(),
    {
        self.api_key.as_str()
    }

    /// Get a list of all supported languages.
    pub fn get_supported_langs(&self) -> (r: &[&'static str])
        ensures
            codes_view(r@) == self.supported_codes(),
    {
        self.langs.as_slice()
    }

    /// Check if a language is supported.
    pub fn is_single_lang_supported(&self, single_lang: &str) -> (r: bool)
        ensures
            r == self.supported_codes().contains(single_lang@),
    {
        crate::request::list_contains(self.langs.as_slice(), single_lang)
    }

    /// The request that translates `text` along `lang`; the
    /// `UnsupportedLanguage` error when either language is not offered.
    pub fn prepare_request(&self, text: &str, lang: &LanguagePair) -> (r: Result<
        FormRequest,
        TranslationError,
    >)
        ensures
            r is Ok <==> self.supported_codes().contains(lang.from_lang@)
                && self.supported_codes().contains(lang.to_lang@),
            r is Err ==> r->Err_0@ == (TranslationErrorKind::UnsupportedLanguage, unsupported_message()),
            r is Ok ==> r->Ok_0.url@ == GOOGLE_ENDPOINT@ && fields_view(r->Ok_0.fields@)
                == google_fields(self.api_key_view(), text@, lang@),
    {
        match check_pair(self.langs.as_slice(), lang) {
            Err(e) => Err(e),
            Ok(()) => {
                let fields = vec![
                    field("q", text),
                    field("source", lang.from_lang.as_str()),
                    field("target", lang.to_lang.as_str()),
                    field("key", self.api_key.as_str()),
                    field("format", "text"),
                    field("model", "base"),
                ];
                proof {
                    assert(fields_view(fields@) =~= google_fields(self.api_key_view(), text@, lang@));
                }
                Ok(FormRequest { url: GOOGLE_ENDPOINT.to_string(), fields })
            },
        }
    }

    /// The translation a reply with HTTP `status` (shown as `status_text`)
    /// and the decoded `translations` stands for.
    pub fn interpret_reply(status: u16, status_text: &str, translations: &[String]) -> (r: Result<
        String,
        TranslationError,
    >)
        ensures
            outcome_view(r) == google_outcome(status, status_text@, texts_view(translations@)),
    {
        if status < 200 || status > 299 {
            let message = String::from_str("REQUEST ERR: HTTP ").concat(status_text);
            Err(TranslationError { kind: TranslationErrorKind::BackendFailure, message })
        } else {
            proof {
                reveal_strlit("");
            }
            coded_reply("", "", translations)
        }
    }
}

} // verus!
