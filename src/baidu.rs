//! Baidu Translate: requests signed with MD5 over the App ID, the text, a
//! salt and the API key.

use vstd::prelude::*;
use vstd::utf8::encode_utf8;

use crate::request::{
    check_pair, coded_outcome, coded_reply, field, fields_view, texts_view, unsupported_message,
    FormRequest,
};
use crate::signing::{hex_text, md5_hex, md5_of, random_salt, SaltSource};
use crate::translator::{
    codes_view, outcome_view, LanguagePair, PairView, TranslationError, TranslationErrorKind,
};

verus! {

/// Where translation requests are sent.
pub const BAIDU_ENDPOINT: &'static str = "https://fanyi-api.baidu.com/api/trans/vip/translate";

/// The language codes Baidu Translate accepts.
pub open spec fn baidu_codes() -> Seq<Seq<char>> {
    seq![
        "zh"@, "en"@, "yue"@, "wyw"@, "jp"@, "kor"@, "fra"@, "spa"@, "th"@, "ara"@, "ru"@, "pt"@,
        "de"@, "it"@, "el"@, "nl"@, "pl"@, "bul"@, "est"@, "dan"@, "fin"@, "cs"@, "rom"@, "slo"@,
        "swe"@, "hu"@, "cht"@, "vie"@,
    ]
}

/// The signature of a request: hex MD5 of App ID, text, salt and API key.
pub open spec fn baidu_sign(
    app_id: Seq<char>,
    text: Seq<char>,
    salt: Seq<char>,
    api_key: Seq<char>,
) -> Seq<char> {
    hex_text(md5_of(encode_utf8(app_id + text + salt + api_key)))
}

/// The form fields of a request, in the order they are sent.
pub open spec fn baidu_fields(
    app_id: Seq<char>,
    api_key: Seq<char>,
    text: Seq<char>,
    pair: PairView,
    salt: Seq<char>,
) -> Seq<(Seq<char>, Seq<char>)> {
    seq![
        ("q"@, text),
        ("from"@, pair.0),
        ("to"@, pair.1),
        ("appid"@, app_id),
        ("salt"@, salt),
        ("sign"@, baidu_sign(app_id, text, salt, api_key)),
    ]
}

/// A translator using Baidu Translate as its backend.
pub struct TranslatorBaidu {
    app_id: String,
    api_key: String,
    langs: Vec<&'static str>,
}

impl TranslatorBaidu {
    /// The App ID requests are made with.
    pub closed spec fn app_id_view(&self) -> Seq<char> {
        self.app_id@
    }

    /// The API key requests are signed with.
    pub closed spec fn api_key_view(&self) -> Seq<char> {
        self.api_key@
    }

    /// The codes this translator accepts.
    pub closed spec fn supported_codes(&self) -> Seq<Seq<char>> {
        codes_view(self.langs@)
    }

    /// Create an instance of `TranslatorBaidu` with the given App ID and API key.
    pub fn new(app_id: &str, api_key: &str) -> (r: TranslatorBaidu)
        ensures
            r.app_id_view() == app_id@,
            r.api_key_view() == api_key@,
            r.supported_codes() == baidu_codes(),
    {
        let langs: Vec<&'static str> = vec![
            "zh", "en", "yue", "wyw", "jp", "kor", "fra", "spa", "th", "ara", "ru", "pt", "de",
            "it", "el", "nl", "pl", "bul", "est", "dan", "fin", "cs", "rom", "slo", "swe", "hu",
            "cht", "vie",
        ];
        proof {
            assert(codes_view(langs@) =~= baidu_codes());
        }
        TranslatorBaidu { app_id: app_id.to_string(), api_key: api_key.to_string(), langs }
    }

    /// The App ID requests are made with.
    pub fn app_id(&self) -> (r: &str)
        ensures
            r@ == self.app_id_view(),
    {
        self.app_id.as_str()
    }

    /// The API key requests are signed with.
    pub fn api_key(&self) -> (r: &str)
        ensures
            r@ == self.api_key_view(),
    {
        self.api_key.as_str()
    }

    /// Get a list of all supported languages.
    pub fn get_supported_langs(&self) -> (r: &[&'static str])
        ensures
            codes_view(r@) == self.supported_codes(),
    {
        self.langs.as_slice()
    }

    /// Check if a language is supported.
    pub fn is_single_lang_supported(&self, single_lang: &str) -> (r: bool)
        ensures
            r == self.supported_codes().contains(single_lang@),
    {
        crate::request::list_contains(self.langs.as_slice(), single_lang)
    }

    /// The request that translates `text` along `lang`, signed with `salt`;
    /// the `UnsupportedLanguage` error when either language is not offered.
    pub fn build_request(&self, text: &str, lang: &LanguagePair, salt: &str) -> (r: Result<
        FormRequest,
        TranslationError,
    >)
        ensures
            r is Ok <==> self.supported_codes().contains(lang.from_lang@)
                && self.supported_codes().contains(lang.to_lang@),
            r is Err ==> r->Err_0@ == (TranslationErrorKind::UnsupportedLanguage, unsupported_message()),
            r is Ok ==> r->Ok_0.url@ == BAIDU_ENDPOINT@ && fields_view(r->Ok_0.fields@)
                == baidu_fields(self.app_id_view(), self.api_key_view(), text@, lang@, salt@),
            r is Ok ==> r->Ok_0.fields@[5].value@.len() == 32,
    {
        match check_pair(self.langs.as_slice(), lang) {
            Err(e) => Err(e),
            Ok(()) => {
                let signed = String::from_str(self.app_id.as_str()).concat(text).concat(salt).concat(
                    self.api_key.as_str(),
                );
                let sign = md5_hex(signed.as_str());
                let fields = vec![
                    field("q", text),
                    field("from", lang.from_lang.as_str()),
                    field("to", lang.to_lang.as_str()),
                    field("appid", self.app_id.as_str()),
                    field("salt", salt),
                    field("sign", sign.as_str()),
                ];
                proof {
                    assert(fields_view(fields@) =~= baidu_fields(
                        self.app_id@,
                        self.api_key@,
                        text@,
                        lang@,
                        salt@,
                    ));
                }
                Ok(FormRequest { url: BAIDU_ENDPOINT.to_string(), fields })
            },
        }
    }

    /// The request that translates `text` along `lang`, signed with a fresh
    /// salt of four random characters.
    pub fn prepare_request(&self, text: &str, lang: &LanguagePair) -> (r: Result<
        FormRequest,
        TranslationError,
    >)
        ensures
            r is Ok <==> self.supported_codes().contains(lang.from_lang@)
                && self.supported_codes().contains(lang.to_lang@),
            r is Err ==> r->Err_0@ == (TranslationErrorKind::UnsupportedLanguage, unsupported_message()),
            r is Ok ==> r->Ok_0.fields@[5].value@.len() == 32,
            r is Ok ==> r->Ok_0.url@ == BAIDU_ENDPOINT@ && exists|salt: Seq<char>|
                salt.len() == 4 && fields_view(r->Ok_0.fields@) == #[trigger] baidu_fields(
                    self.app_id_view(),
                    self.api_key_view(),
                    text@,
                    lang@,
                    salt,
                ),
    {
        let salt = random_salt(SaltSource::Fast);
        self.build_request(text, lang, salt.as_str())
    }

    /// The translation a decoded reply stands for: a backend failure when it
    /// reports a non-zero error code (`API ERR: <code> <message>`) or carries
    /// no translation, else the first translation.
    pub fn interpret_reply(error_code: &str, error_msg: &str, translations: &[String]) -> (r: Result<
        String,
        TranslationError,
    >)
        ensures
            outcome_view(r) == coded_outcome(
                error_code@,
                error_code@ + " "@ + error_msg@,
                texts_view(translations@),
            ),
    {
        let detail = String::from_str(error_code).concat(" ").concat(error_msg);
        coded_reply(error_code, detail.as_str(), translations)
    }
}

} // verus!
