//! Translation gateway: the verified half of the remote translation API.
//!
//! The remote call itself is network I/O and lives outside this crate; it
//! hands back the raw translation list (or detection list) of the wire format,
//! and the functions here turn that into results — filling in the source
//! language, classifying the direction of the *translated* text, and treating
//! an empty list as an invalid response.  Confidence values are carried in
//! thousandths (1000 = certain), since the pipeline never computes with them.

use vstd::prelude::*;
use crate::direction::{
    detect_text_direction, is_rtl_language, direction_of_flag, spec_text_direction,
    spec_is_rtl_language, spec_direction_of,
};
use crate::model::clone_opt_string;

verus! {

/// Why a gateway invocation failed: the remote call did not go through or
/// timed out (`Network`), the service throttled us (`RateLimited`), the
/// response was malformed or empty (`InvalidResponse`), or the key was
/// rejected (`Unauthorized`).
#[derive(Clone, Copy, Debug, PartialEq, Eq, Structural)]
pub enum GatewayError {
    Network,
    RateLimited,
    InvalidResponse,
    Unauthorized,
}

/// One translation of the remote API's response, as parsed off the wire.
#[derive(Clone, Debug)]
pub struct RawTranslation {
    pub translated_text: String,
    pub detected_source_language: Option<String>,
}

/// One detection of the remote API's detect response.  `confidence` is in
/// thousandths.
#[derive(Clone, Debug)]
pub struct RawDetection {
    pub language: String,
    pub confidence: u32,
}

/// A finished translation: the translated text with its languages and the
/// direction of the translated text itself.
#[derive(Clone, Debug)]
pub struct TranslationResult {
    pub translated_text: String,
    pub source_language: String,
    pub target_language: String,
    pub text_direction: String,
    pub confidence: u32,
}

/// A finished language detection.
#[derive(Clone, Debug)]
pub struct LanguageDetectionResult {
    pub language: String,
    pub confidence: u32,
    pub is_rtl: bool,
    pub text_direction: String,
}

pub open spec fn opt_string_view(o: Option<String>) -> Option<Seq<char>> {
    match o {
        Some(s) => Some(s@),
        None => None,
    }
}

pub open spec fn opt_str_view(o: Option<&str>) -> Option<Seq<char>> {
    match o {
        Some(s) => Some(s@),
        None => None,
    }
}

/// The source language reported on a result: what the remote detected if
/// anything, else the caller's source language, else "unknown".
pub open spec fn spec_source_language(
    detected: Option<Seq<char>>,
    source: Option<Seq<char>>,
) -> Seq<char> {
    match detected {
        Some(d) => d,
        None => match source {
            Some(s) => s,
            None => "unknown"@,
        },
    }
}

/// How a finished result relates to the raw translation it was built from.
pub open spec fn translation_result_ok(
    r: TranslationResult,
    raw: RawTranslation,
    target: Seq<char>,
    source: Option<Seq<char>>,
) -> bool {
    &&& r.translated_text == raw.translated_text
    &&& r.source_language@ == spec_source_language(
        opt_string_view(raw.detected_source_language),
        source,
    )
    &&& r.target_language@ == target
    &&& r.text_direction@ == spec_text_direction(raw.translated_text@, target)
    &&& r.confidence == 1000
}

/// Builds one finished result from one raw translation.  The direction is
/// classified on the *translated* text and the *target* language, never copied
/// from the source: translating into a right-to-left language yields "rtl"
/// even when the translated text holds no right-to-left character.
pub fn build_translation_result(
    raw: RawTranslation,
    target_lang: &str,
    source_lang: Option<&str>,
) -> (r: TranslationResult)
    ensures
        translation_result_ok(r, raw, target_lang@, opt_str_view(source_lang)),
{
    let text_direction = detect_text_direction(raw.translated_text.as_str(), target_lang);
    let source_language: String = match raw.detected_source_language {
        Some(d) => d,
        None => match source_lang {
            Some(s) => s.to_owned(),
            None => "unknown".to_owned(),
        },
    };
    TranslationResult {
        translated_text: raw.translated_text,
        source_language,
        target_language: target_lang.to_owned(),
        text_direction,
        confidence: 1000,
    }
}

/// Finishes a single-text translation response: the first raw translation
/// becomes the result, and an empty list is an invalid response.
pub fn translation_from_response(
    translations: Vec<RawTranslation>,
    target_lang: &str,
    source_lang: Option<&str>,
) -> (r: Result<TranslationResult, GatewayError>)
    ensures
        translations@.len() == 0 ==> r == Result::<TranslationResult, GatewayError>::Err(
            GatewayError::InvalidResponse,
        ),
        translations@.len() > 0 ==> r is Ok && translation_result_ok(
            r->Ok_0,
            translations@[0],
            target_lang@,
            opt_str_view(source_lang),
        ),
{
    if translations.len() == 0 {
        return Err(GatewayError::InvalidResponse);
    }
    let raw = RawTranslation {
        translated_text: translations[0].translated_text.clone(),
        detected_source_language: clone_opt_string(&translations[0].detected_source_language),
    };
    Ok(build_translation_result(raw, target_lang, source_lang))
}

/// Finishes a batch translation response: one result per raw translation, in
/// the same order, one-to-one; an empty list is an invalid response.
pub fn translations_from_response(
    translations: Vec<RawTranslation>,
    target_lang: &str,
    source_lang: Option<&str>,
) -> (r: Result<Vec<TranslationResult>, GatewayError>)
    ensures
        translations@.len() == 0 ==> r == Result::<Vec<TranslationResult>, GatewayError>::Err(
            GatewayError::InvalidResponse,
        ),
        translations@.len() > 0 ==> r is Ok && r->Ok_0@.len() == translations@.len() && (forall|
            i: int,
        |
            0 <= i < translations@.len() ==> translation_result_ok(
                r->Ok_0@[i],
                translations@[i],
                target_lang@,
                opt_str_view(source_lang),
            )),
{
    if translations.len() == 0 {
        return Err(GatewayError::InvalidResponse);
    }
    let mut results: Vec<TranslationResult> = Vec::new();
    let mut i: usize = 0;
    while i < translations.len()
        invariant
            0 <= i <= translations@.len(),
            results@.len() == i,
            forall|j: int|
                0 <= j < i ==> translation_result_ok(
                    results@[j],
                    translations@[j],
                    target_lang@,
                    opt_str_view(source_lang),
                ),
        decreases translations@.len() - i,
    {
        let raw = RawTranslation {
            translated_text: translations[i].translated_text.clone(),
            detected_source_language: clone_opt_string(&translations[i].detected_source_language),
        };
        results.push(build_translation_result(raw, target_lang, source_lang));
        i = i + 1;
    }
    Ok(results)
}

/// How a finished detection relates to the raw detection it was built from.
pub open spec fn detection_result_ok(r: LanguageDetectionResult, raw: RawDetection) -> bool {
    &&& r.language == raw.language
    &&& r.confidence == raw.confidence
    &&& r.is_rtl == spec_is_rtl_language(raw.language@)
    &&& r.text_direction@ == spec_direction_of(r.is_rtl)
}

/// Finishes a language-detection response: the first detection of the first
/// group becomes the result, and an empty response is an invalid response.
pub fn detection_from_response(detections: Vec<Vec<RawDetection>>) -> (r: Result<
    LanguageDetectionResult,
    GatewayError,
>)
    ensures
        detections@.len() == 0 || (detections@.len() > 0 && detections@[0]@.len() == 0) ==> r
            == Result::<LanguageDetectionResult, GatewayError>::Err(GatewayError::InvalidResponse),
        detections@.len() > 0 && detections@[0]@.len() > 0 ==> r is Ok && detection_result_ok(
            r->Ok_0,
            detections@[0]@[0],
        ),
{
    if detections.len() == 0 {
        return Err(GatewayError::InvalidResponse);
    }
    let group: &Vec<RawDetection> = &detections[0];
    if group.len() == 0 {
        return Err(GatewayError::InvalidResponse);
    }
    let language: String = group[0].language.clone();
    let confidence: u32 = group[0].confidence;
    let is_rtl = is_rtl_language(language.as_str());
    let text_direction = direction_of_flag(is_rtl);
    Ok(LanguageDetectionResult { language, confidence, is_rtl, text_direction })
}

/// Maps the status of a failed remote call to the gateway's error taxonomy:
/// 401 and 403 are an authorization failure, 429 is throttling, and every
/// other non-success status — like a timeout or an unreachable host, which
/// have no status at all — counts as a network failure.
pub fn gateway_error_for_status(status: u16) -> (r: GatewayError)
    ensures
        (status == 401 || status == 403) ==> r == GatewayError::Unauthorized,
        status == 429 ==> r == GatewayError::RateLimited,
        !(status == 401 || status == 403 || status == 429) ==> r == GatewayError::Network,
{
    if status == 401 || status == 403 {
        GatewayError::Unauthorized
    } else if status == 429 {
        GatewayError::RateLimited
    } else {
        GatewayError::Network
    }
}

} // verus!
