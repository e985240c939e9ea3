use translator_mangler::request::code_reads_zero;
use translator_mangler::signing::{md5_hex, random_salt, sha256_hex, SaltSource};
use translator_mangler::youdao::signing_input;
use translator_mangler::{
    FormRequest, LanguagePair, TranslationErrorKind, TranslatorBaidu, TranslatorGoogleCloud,
    TranslatorYoudao,
};

fn fields(req: &FormRequest) -> Vec<(String, String)> {
    req.fields.iter().map(|f| (f.name.clone(), f.value.clone())).collect()
}

fn value_of(req: &FormRequest, name: &str) -> String {
    req.fields.iter().find(|f| f.name == name).map(|f| f.value.clone()).unwrap()
}

fn owned(pairs: &[(&str, &str)]) -> Vec<(String, String)> {
    pairs.iter().map(|(a, b)| (a.to_string(), b.to_string())).collect()
}

#[test]
fn baidu_support_matches_list() {
    let t = TranslatorBaidu::new("id", "key");
    assert_eq!(t.get_supported_langs().len(), 28);
    for code in t.get_supported_langs() {
        assert!(t.is_single_lang_supported(code));
    }
    assert!(t.is_single_lang_supported("wyw"));
    assert!(!t.is_single_lang_supported("zh-CN"));
    assert!(!t.is_single_lang_supported(""));
}

#[test]
fn google_support_matches_list() {
    let t = TranslatorGoogleCloud::new("key");
    assert_eq!(t.get_supported_langs().len(), 108);
    for code in t.get_supported_langs() {
        assert!(t.is_single_lang_supported(code));
    }
    assert!(t.is_single_lang_supported("zh-TW"));
    assert!(!t.is_single_lang_supported("jp"));
}

#[test]
fn youdao_support_matches_list() {
    let t = TranslatorYoudao::new("key", "secret");
    assert_eq!(t.get_supported_langs().len(), 15);
    for code in t.get_supported_langs() {
        assert!(t.is_single_lang_supported(code));
    }
    assert!(t.is_single_lang_supported("zh-CHS"));
    assert!(!t.is_single_lang_supported("zh"));
}

#[test]
fn digests_as_hex() {
    assert_eq!(md5_hex(""), "d41d8cd98f00b204e9800998ecf8427e");
    assert_eq!(md5_hex("abc"), "900150983cd24fb0d6963f7d28e17f72");
    assert_eq!(md5_hex("a longer text to sign").len(), 32);
    assert_eq!(sha256_hex("a longer text to sign").len(), 64);
    assert_eq!(
        sha256_hex("abc"),
        "ba7816bf8f01cfea414140de5dae2223b00361a396177a9cb410ff61f20015ad"
    );
}

#[test]
fn baidu_request_is_signed() {
    let t = TranslatorBaidu::new("2015063000000001", "12345678");
    let lang = LanguagePair::new("en", "zh");
    let req = t.build_request("apple", &lang, "1435660288").unwrap();
    assert_eq!(req.url, "https://fanyi-api.baidu.com/api/trans/vip/translate");
    let expected = owned(&[
        ("q", "apple"),
        ("from", "en"),
        ("to", "zh"),
        ("appid", "2015063000000001"),
        ("salt", "1435660288"),
        ("sign", "f89f9594663708c1605f3d736d01d2d4"),
    ]);
    assert_eq!(fields(&req), expected);
}

#[test]
fn baidu_rejects_unsupported_pair() {
    let t = TranslatorBaidu::new("id", "key");
    let lang = LanguagePair::new("en", "zh-CN");
    let e = t.prepare_request("apple", &lang).err().unwrap();
    assert_eq!(e.kind, TranslationErrorKind::UnsupportedLanguage);
    assert_eq!(e.message, "Unsupported language");
}

#[test]
fn baidu_prepared_request_has_fresh_salt() {
    let t = TranslatorBaidu::new("id", "key");
    let lang = LanguagePair::new("en", "zh");
    let req = t.prepare_request("apple", &lang).unwrap();
    let salt = value_of(&req, "salt");
    assert_eq!(salt.chars().count(), 4);
    let again = t.build_request("apple", &lang, &salt).unwrap();
    assert_eq!(fields(&again), fields(&req));
}

#[test]
fn baidu_replies() {
    let ok = TranslatorBaidu::interpret_reply("", "", &["pomme".to_string()]);
    assert_eq!(ok.unwrap(), "pomme");
    let zero = TranslatorBaidu::interpret_reply("0", "", &["a".to_string(), "b".to_string()]);
    assert_eq!(zero.unwrap(), "a");
    let e = TranslatorBaidu::interpret_reply("52003", "UNAUTHORIZED USER", &[]).unwrap_err();
    assert_eq!(e.kind, TranslationErrorKind::BackendFailure);
    assert_eq!(e.message, "API ERR: 52003 UNAUTHORIZED USER");
    let empty = TranslatorBaidu::interpret_reply("", "", &[]).unwrap_err();
    assert_eq!(empty.kind, TranslationErrorKind::BackendFailure);
    assert_eq!(empty.message, "API ERR: empty result");
}

#[test]
fn google_request_fields() {
    let t = TranslatorGoogleCloud::new("KEY");
    let lang = LanguagePair::new("en", "zh-CN");
    let req = t.prepare_request("Hello, world!", &lang).unwrap();
    assert_eq!(req.url, "https://translation.googleapis.com/language/translate/v2");
    let expected = owned(&[
        ("q", "Hello, world!"),
        ("source", "en"),
        ("target", "zh-CN"),
        ("key", "KEY"),
        ("format", "text"),
        ("model", "base"),
    ]);
    assert_eq!(fields(&req), expected);
    let bad = t.prepare_request("x", &LanguagePair::new("kor", "en")).err().unwrap();
    assert_eq!(bad.kind, TranslationErrorKind::UnsupportedLanguage);
}

#[test]
fn google_replies() {
    let ok = TranslatorGoogleCloud::interpret_reply(200, "200 OK", &["你好".to_string()]);
    assert_eq!(ok.unwrap(), "你好");
    let e = TranslatorGoogleCloud::interpret_reply(403, "403 Forbidden", &["ignored".to_string()]).unwrap_err();
    assert_eq!(e.kind, TranslationErrorKind::BackendFailure);
    assert_eq!(e.message, "REQUEST ERR: HTTP 403 Forbidden");
    let empty = TranslatorGoogleCloud::interpret_reply(204, "204 No Content", &[]).unwrap_err();
    assert_eq!(empty.message, "API ERR: empty result");
}

#[test]
fn youdao_signing_input_shortens_long_text() {
    assert_eq!(signing_input("short text"), "short text");
    assert_eq!(signing_input("abcdefghijklmnopqrst"), "abcdefghijklmnopqrst");
    assert_eq!(signing_input("abcdefghijklmnopqrstuvwxyz"), "abcdefghij26qrstuvwxyz");
    assert_eq!(signing_input("一二三四五六七八九十甲乙丙丁戊己庚辛壬癸子"), "一二三四五六七八九十21乙丙丁戊己庚辛壬癸子");
}

#[test]
fn youdao_request_is_signed() {
    let t = TranslatorYoudao::new("app", "secret");
    let lang = LanguagePair::new("en", "zh-CHS");
    let req = t.build_request("hello", &lang, "salt", 1700000000).unwrap();
    assert_eq!(req.url, "https://openapi.youdao.com/api");
    let sign = sha256_hex("apphellosalt1700000000secret");
    let expected = owned(&[
        ("q", "hello"),
        ("from", "en"),
        ("to", "zh-CHS"),
        ("appKey", "app"),
        ("salt", "salt"),
        ("sign", &sign),
        ("signType", "v3"),
        ("curtime", "1700000000"),
    ]);
    assert_eq!(fields(&req), expected);
    assert_eq!(sign.len(), 64);
    let prepared = t.prepare_request("hello", &lang, 5).unwrap();
    assert_eq!(value_of(&prepared, "curtime"), "5");
    assert_eq!(value_of(&prepared, "salt").chars().count(), 4);
}

#[test]
fn youdao_replies() {
    let ok = TranslatorYoudao::interpret_reply("0", &["bonjour".to_string()]);
    assert_eq!(ok.unwrap(), "bonjour");
    let e = TranslatorYoudao::interpret_reply("108", &[]).unwrap_err();
    assert_eq!(e.kind, TranslationErrorKind::BackendFailure);
    assert_eq!(e.message, "API ERR: 108");
    let bad = TranslatorYoudao::new("a", "b").prepare_request("x", &LanguagePair::new("en", "xx"), 1);
    assert_eq!(bad.err().unwrap().kind, TranslationErrorKind::UnsupportedLanguage);
}

#[test]
fn error_codes_that_read_as_zero() {
    for code in ["0", "00", "+0", "-000"] {
        assert!(code_reads_zero(code), "{}", code);
    }
    for code in ["", "+", "-", "01", "10", "abc", " 0"] {
        assert!(!code_reads_zero(code), "{}", code);
    }
}

#[test]
fn salts_have_four_characters() {
    assert_eq!(random_salt(SaltSource::Fast).chars().count(), 4);
    assert_eq!(random_salt(SaltSource::Thread).chars().count(), 4);
}

#[test]
fn credentials_are_kept() {
    let b = TranslatorBaidu::new("2015063000000001", "12345678");
    assert_eq!(b.app_id(), "2015063000000001");
    assert_eq!(b.api_key(), "12345678");
    let g = TranslatorGoogleCloud::new("KEY");
    assert_eq!(g.api_key(), "KEY");
    let y = TranslatorYoudao::new("app", "secret");
    assert_eq!(y.app_key(), "app");
    assert_eq!(y.app_secret(), "secret");
}

#[test]
fn google_not_found_keeps_reason_phrase() {
    let e = TranslatorGoogleCloud::interpret_reply(404, "404 Not Found", &[]).unwrap_err();
    assert_eq!(e.message, "REQUEST ERR: HTTP 404 Not Found");
}
