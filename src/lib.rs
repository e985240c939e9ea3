//! Mangles text by machine-translating it along a random walk of languages
//! that starts and ends in the text's own language.

pub mod baidu;
pub mod google;
pub mod mangler;
pub mod request;
pub mod signing;
pub mod translator;
pub mod youdao;

pub use baidu::TranslatorBaidu;
pub use google::TranslatorGoogleCloud;
pub use mangler::{
    get_random_lang_path, is_plannable, mangle, plan_lang_path, IndexSource, Pacer, Pacing, ScriptedPicks,
    ThreadRandom,
};
pub use request::{FormField, FormRequest};
pub use translator::{LanguagePair, TranslationError, TranslationErrorKind, Translator};
pub use youdao::TranslatorYoudao;
