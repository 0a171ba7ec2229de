use lancaster_backend::gateway::{
    build_translation_result, detection_from_response, gateway_error_for_status,
    translation_from_response, translations_from_response, GatewayError, RawDetection,
    RawTranslation,
};

fn raw(text: &str, detected: Option<&str>) -> RawTranslation {
    RawTranslation {
        translated_text: text.to_string(),
        detected_source_language: detected.map(|d| d.to_string()),
    }
}

#[test]
fn empty_translation_list_is_invalid_response() {
    let r = translation_from_response(Vec::new(), "es", Some("en"));
    assert_eq!(r.unwrap_err(), GatewayError::InvalidResponse);
    let r = translations_from_response(Vec::new(), "es", Some("en"));
    assert_eq!(r.unwrap_err(), GatewayError::InvalidResponse);
}

#[test]
fn translation_result_carries_text_and_classified_direction() {
    let r = translation_from_response(vec![raw("Hola", None)], "es", Some("en")).unwrap();
    assert_eq!(r.translated_text, "Hola");
    assert_eq!(r.source_language, "en");
    assert_eq!(r.target_language, "es");
    assert_eq!(r.text_direction, "ltr");
    assert_eq!(r.confidence, 1000);
}

#[test]
fn translating_into_rtl_language_yields_rtl_even_for_latin_text() {
    let r = build_translation_result(raw("latin letters", None), "ar", Some("en"));
    assert_eq!(r.text_direction, "rtl");
}

#[test]
fn source_language_prefers_detected_then_supplied_then_unknown() {
    let detected = build_translation_result(raw("x", Some("de")), "es", Some("en"));
    assert_eq!(detected.source_language, "de");
    let supplied = build_translation_result(raw("x", None), "es", Some("en"));
    assert_eq!(supplied.source_language, "en");
    let unknown = build_translation_result(raw("x", None), "es", None);
    assert_eq!(unknown.source_language, "unknown");
}

#[test]
fn batch_translation_preserves_order_one_to_one() {
    let rs = translations_from_response(
        vec![raw("uno", None), raw("dos", None), raw("tres", None)],
        "es",
        Some("en"),
    )
    .unwrap();
    let texts: Vec<&str> = rs.iter().map(|r| r.translated_text.as_str()).collect();
    assert_eq!(texts, vec!["uno", "dos", "tres"]);
    assert!(rs.iter().all(|r| r.target_language == "es"));
}

#[test]
fn detection_takes_first_of_first_group() {
    let r = detection_from_response(vec![vec![
        RawDetection { language: "he".to_string(), confidence: 920 },
        RawDetection { language: "en".to_string(), confidence: 80 },
    ]])
    .unwrap();
    assert_eq!(r.language, "he");
    assert_eq!(r.confidence, 920);
    assert!(r.is_rtl);
    assert_eq!(r.text_direction, "rtl");
}

#[test]
fn empty_detection_is_invalid_response() {
    assert_eq!(
        detection_from_response(Vec::new()).unwrap_err(),
        GatewayError::InvalidResponse
    );
    assert_eq!(
        detection_from_response(vec![Vec::new()]).unwrap_err(),
        GatewayError::InvalidResponse
    );
}

#[test]
fn status_codes_map_to_error_kinds() {
    assert_eq!(gateway_error_for_status(401), GatewayError::Unauthorized);
    assert_eq!(gateway_error_for_status(403), GatewayError::Unauthorized);
    assert_eq!(gateway_error_for_status(429), GatewayError::RateLimited);
    assert_eq!(gateway_error_for_status(500), GatewayError::Network);
    assert_eq!(gateway_error_for_status(404), GatewayError::Network);
}
