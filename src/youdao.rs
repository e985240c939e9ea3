//! Youdao AI translation: requests signed (v3) with SHA-256 over the app key,
//! a shortened form of the text, a salt, the time and the app secret.

use vstd::prelude::*;
use vstd::utf8::encode_utf8;

use crate::request::{
    check_pair, coded_outcome, coded_reply, field, fields_view, texts_view, unsupported_message,
    FormRequest,
};
use crate::signing::{
    decimal, decimal_text, hex_text, random_salt, sha256_hex, sha256_of, SaltSource,
};
use crate::translator::{
    codes_view, outcome_view, LanguagePair, PairView, TranslationError, TranslationErrorKind,
};

verus! {

/// Where translation requests are sent.
pub const YOUDAO_ENDPOINT: &'static str = "https://openapi.youdao.com/api";

/// The language codes Youdao AI accepts.
pub open spec fn youdao_codes() -> Seq<Seq<char>> {
    seq![
        "zh-CHS"@, "zh-CHT"@, "vi"@, "en"@, "id"@, "it"@, "es"@, "ja"@, "pt"@, "ko"@, "fr"@,
        "ru"@, "de"@, "ar"@, "th"@,
    ]
}

/// The form of the text that is signed: a text of more than 20 characters
/// becomes its first 10 characters, its length and its last 10 characters.
pub open spec fn signed_input(text: Seq<char>) -> Seq<char> {
    if text.len() > 20 {
        text.subrange(0, 10) + decimal_text(text.len()) + text.subrange(text.len() - 10, text.len() as int)
    } else {
        text
    }
}

/// The signature of a request: hex SHA-256 of app key, shortened text,
/// salt, time and app secret.
pub open spec fn youdao_sign(
    app_key: Seq<char>,
    app_secret: Seq<char>,
    text: Seq<char>,
    salt: Seq<char>,
    curtime: u64,
) -> Seq<char> {
    hex_text(
        sha256_of(
            encode_utf8(app_key + signed_input(text) + salt + decimal_text(curtime as nat) + app_secret),
        ),
    )
}

/// The form fields of a request, in the order they are sent.
pub open spec fn youdao_fields(
    app_key: Seq<char>,
    app_secret: Seq<char>,
    text: Seq<char>,
    pair: PairView,
    salt: Seq<char>,
    curtime: u64,
) -> Seq<(Seq<char>, Seq<char>)> {
    seq![
        ("q"@, text),
        ("from"@, pair.0),
        ("to"@, pair.1),
        ("appKey"@, app_key),
        ("salt"@, salt),
        ("sign"@, youdao_sign(app_key, app_secret, text, salt, curtime)),
        ("signType"@, "v3"@),
        ("curtime"@, decimal_text(curtime as nat)),
    ]
}

/// The shortened form of `text` that goes into the signature.
pub fn signing_input(text: &str) -> (r: String)
    ensures
        r@ == signed_input(text@),
{
    let n = text.unicode_len();
    if n > 20 {
        let head = text.substring_char(0, 10);
        let tail = text.substring_char(n - 10, n);
        String::from_str(head).concat(decimal(n as u64).as_str()).concat(tail)
    } else {
        String::from_str(text)
    }
}

/// A translator using Youdao AI as its backend.
pub struct TranslatorYoudao {
    app_key: String,
    app_secret: String,
    langs: Vec<&'static str>,
}

impl TranslatorYoudao {
    /// The app key requests are made with.
    pub closed spec fn app_key_view(&self) -> Seq<char> {
        self.app_key@
    }

    /// The app secret requests are signed with.
    pub closed spec fn app_secret_view(&self) -> Seq<char> {
        self.app_secret@
    }

    /// The codes this translator accepts.
    pub closed spec fn supported_codes(&self) -> Seq<Seq<char>> {
        codes_view(self.langs@)
    }

    /// Create an instance of `TranslatorYoudao` with the given app key and app secret.
    pub fn new(app_key: &str, app_secret: &str) -> (r: TranslatorYoudao)
        ensures
            r.app_key_view() == app_key@,
            r.app_secret_view() == app_secret@,
            r.supported_codes() == youdao_codes(),
    {
        let langs: Vec<&'static str> = vec![
            "zh-CHS", "zh-CHT", "vi", "en", "id", "it", "es", "ja", "pt", "ko", "fr", "ru", "de",
            "ar", "th",
        ];
        proof {
            assert(codes_view(langs@) =~= youdao_codes());
        }
        TranslatorYoudao { app_key: app_key.to_string(), app_secret: app_secret.to_string(), langs }
    }

    /// The app key requests are made with.
    pub fn app_key(&self) -> (r: &str)
        ensures
            r@ == self.app_key_view(),
    {
        self.app_key.as_str()
    }

    /// The app secret requests are signed with.
    pub fn app_secret(&self) -> (r: &str)
        ensures
            r@ == self.app_secret_view(),
    {
        self.app_secret.as_str()
    }

    /// Get a list of all supported languages.
    pub fn get_supported_langs(&self) -> (r: &[&'static str])
        ensures
            codes_view(r@) == self.supported_codes(),
    {
        self.langs.as_slice()
    }

    /// Check if a language is supported.
    pub fn is_single_lang_supported(&self, single_lang: &str) -> (r: bool)
        ensures
            r == self.supported_codes().contains(single_lang@),
    {
        crate::request::list_contains(self.langs.as_slice(), single_lang)
    }

    /// The request that translates `text` along `lang`, signed with `salt`
    /// at `curtime` (seconds since the UNIX epoch); the
    /// `UnsupportedLanguage` error when either language is not offered.
    pub fn build_request(&self, text: &str, lang: &LanguagePair, salt: &str, curtime: u64) -> (r:
        Result<FormRequest, TranslationError>)
        ensures
            r is Ok <==> self.supported_codes().contains(lang.from_lang@)
                && self.supported_codes().contains(lang.to_lang@),
            r is Err ==> r->Err_0@ == (TranslationErrorKind::UnsupportedLanguage, unsupported_message()),
            r is Ok ==> r->Ok_0.url@ == YOUDAO_ENDPOINT@ && fields_view(r->Ok_0.fields@)
                == youdao_fields(
                self.app_key_view(),
                self.app_secret_view(),
                text@,
                lang@,
                salt@,
                curtime,
            ),
            r is Ok ==> r->Ok_0.fields@[5].value@.len() == 64,
    {
        match check_pair(self.langs.as_slice(), lang) {
            Err(e) => Err(e),
            Ok(()) => {
                let time = decimal(curtime);
                let input = signing_input(text);
                let signed = String::from_str(self.app_key.as_str()).concat(input.as_str()).concat(
                    salt,
                ).concat(time.as_str()).concat(self.app_secret.as_str());
                let sign = sha256_hex(signed.as_str());
                let fields = vec![
                    field("q", text),
                    field("from", lang.from_lang.as_str()),
                    field("to", lang.to_lang.as_str()),
                    field("appKey", self.app_key.as_str()),
                    field("salt", salt),
                    field("sign", sign.as_str()),
                    field("signType", "v3"),
                    field("curtime", time.as_str()),
                ];
                proof {
                    assert(fields_view(fields@) =~= youdao_fields(
                        self.app_key_view(),
                        self.app_secret_view(),
                        text@,
                        lang@,
                        salt@,
                        curtime,
                    ));
                }
                Ok(FormRequest { url: YOUDAO_ENDPOINT.to_string(), fields })
            },
        }
    }

    /// The request that translates `text` along `lang` at `curtime`, signed
    /// with a fresh salt of four random characters.
    pub fn prepare_request(&self, text: &str, lang: &LanguagePair, curtime: u64) -> (r: Result<
        FormRequest,
        TranslationError,
    >)
        ensures
            r is Ok <==> self.supported_codes().contains(lang.from_lang@)
                && self.supported_codes().contains(lang.to_lang@),
            r is Err ==> r->Err_0@ == (TranslationErrorKind::UnsupportedLanguage, unsupported_message()),
            r is Ok ==> r->Ok_0.fields@[5].value@.len() == 64,
            r is Ok ==> r->Ok_0.url@ == YOUDAO_ENDPOINT@ && exists|salt: Seq<char>|
                salt.len() == 4 && fields_view(r->Ok_0.fields@) == #[trigger] youdao_fields(
                    self.app_key_view(),
                    self.app_secret_view(),
                    text@,
                    lang@,
                    salt,
                    curtime,
                ),
    {
        let salt = random_salt(SaltSource::Thread);
        self.build_request(text, lang, salt.as_str(), curtime)
    }

    /// The translation a decoded reply stands for: a backend failure when it
    /// reports a non-zero error code (`API ERR: <code>`) or carries no
    /// translation, else the first translation.
    pub fn interpret_reply(error_code: &str, translations: &[String]) -> (r: Result<
        String,
        TranslationError,
    >)
        ensures
            outcome_view(r) == coded_outcome(error_code@, error_code@, texts_view(translations@)),
    {
        coded_reply(error_code, error_code, translations)
    }
}

} // verus!
