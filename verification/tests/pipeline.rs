use lancaster_backend::fanout::{fan_out_targets, fan_out_translations, LanguageOutcome};
use lancaster_backend::gateway::{GatewayError, TranslationResult};
use lancaster_backend::model::{ContentKind, CreatePostRequest, Language, TranslationRow};
use lancaster_backend::store::{ContentStore, StoreError};

fn language(code: &str, name: &str, rtl: bool, enabled: bool) -> Language {
    Language::new(code.to_string(), name.to_string(), name.to_string(), rtl, enabled)
}

fn store_with_languages() -> ContentStore {
    let mut store = ContentStore::new();
    store.add_language(language("en", "English", false, true)).unwrap();
    store.add_language(language("es", "Spanish", false, true)).unwrap();
    store.add_language(language("ar", "Arabic", true, true)).unwrap();
    store
}

fn post_request(title: &str, content: Option<&str>, lang: &str) -> CreatePostRequest {
    CreatePostRequest {
        author_name: "Ada".to_string(),
        author_email: None,
        title: title.to_string(),
        content: content.map(|c| c.to_string()),
        link_url: None,
        image_url: None,
        post_type: "text".to_string(),
        language: Some(lang.to_string()),
        text_direction: None,
    }
}

fn ok_result(text: &str, target: &str) -> TranslationResult {
    TranslationResult {
        translated_text: text.to_string(),
        source_language: "en".to_string(),
        target_language: target.to_string(),
        text_direction: "ltr".to_string(),
        confidence: 1000,
    }
}

fn ok_outcome(title: &str, body: Option<&str>, target: &str) -> LanguageOutcome {
    LanguageOutcome {
        title: Ok(ok_result(title, target)),
        body: body.map(|b| Ok(ok_result(b, target))),
    }
}

fn failed_outcome() -> LanguageOutcome {
    LanguageOutcome { title: Err(GatewayError::Network), body: None }
}

fn rows_for<'a>(store: &'a ContentStore, id: i32, code: &str) -> Vec<&'a TranslationRow> {
    store
        .post_translations
        .iter()
        .filter(|r| r.content_id == id && r.language_code == code)
        .collect()
}

#[test]
fn fan_out_targets_exclude_source_language() {
    let store = store_with_languages();
    let targets = fan_out_targets(&store.languages, "en");
    let codes: Vec<&str> = targets.iter().map(|l| l.code.as_str()).collect();
    assert_eq!(codes, vec!["es", "ar"]);
}

#[test]
fn fan_out_targets_skip_disabled_languages() {
    let mut store = store_with_languages();
    store.add_language(language("fr", "French", false, false)).unwrap();
    let targets = fan_out_targets(&store.languages, "ar");
    let codes: Vec<&str> = targets.iter().map(|l| l.code.as_str()).collect();
    assert_eq!(codes, vec!["en", "es"]);
}

#[test]
fn fan_out_creates_one_row_per_target_language() {
    let mut store = store_with_languages();
    let post = store.submit_post(post_request("Hello", Some("Body"), "en"), 100).unwrap();
    store.publish(ContentKind::Post, post.id, 101);
    let outcomes = vec![
        ok_outcome("Hola", Some("Cuerpo"), "es"),
        ok_outcome("مرحبا", Some("جسد"), "ar"),
    ];
    fan_out_translations(&mut store, ContentKind::Post, post.id, &outcomes, 102);

    assert_eq!(store.post_translations.len(), 2);
    let es = store.find_translation(ContentKind::Post, post.id, "es").unwrap();
    assert_eq!(es.title, "Hola");
    assert_eq!(es.body.as_deref(), Some("Cuerpo"));
    assert_eq!(es.text_direction, "ltr");
    assert_eq!(es.translated_at, 102);
    let ar = store.find_translation(ContentKind::Post, post.id, "ar").unwrap();
    assert_eq!(ar.title, "مرحبا");
    // the stored direction is the target language's configured direction
    assert_eq!(ar.text_direction, "rtl");
    // never a row for the source language
    assert!(store.find_translation(ContentKind::Post, post.id, "en").is_none());
}

#[test]
fn fan_out_twice_is_idempotent_and_keeps_second_timestamp() {
    let mut store = store_with_languages();
    let post = store.submit_post(post_request("Hello", None, "en"), 100).unwrap();
    store.publish(ContentKind::Post, post.id, 101);
    let first = vec![ok_outcome("Hola", None, "es"), ok_outcome("مرحبا", None, "ar")];
    fan_out_translations(&mut store, ContentKind::Post, post.id, &first, 200);
    let second = vec![ok_outcome("Hola dos", None, "es"), ok_outcome("مرحبا اثنان", None, "ar")];
    fan_out_translations(&mut store, ContentKind::Post, post.id, &second, 300);

    // exactly one row per (content id, language code), with the second run's data
    assert_eq!(rows_for(&store, post.id, "es").len(), 1);
    assert_eq!(rows_for(&store, post.id, "ar").len(), 1);
    let es = store.find_translation(ContentKind::Post, post.id, "es").unwrap();
    assert_eq!(es.title, "Hola dos");
    assert_eq!(es.translated_at, 300);
}

#[test]
fn one_failed_language_does_not_block_the_others() {
    let mut store = store_with_languages();
    let post = store.submit_post(post_request("Hello", None, "en"), 100).unwrap();
    store.publish(ContentKind::Post, post.id, 101);
    // the gateway fails for Arabic but succeeds for Spanish
    let outcomes = vec![ok_outcome("Hola", None, "es"), failed_outcome()];
    fan_out_translations(&mut store, ContentKind::Post, post.id, &outcomes, 200);

    assert!(store.find_translation(ContentKind::Post, post.id, "es").is_some());
    assert!(store.find_translation(ContentKind::Post, post.id, "ar").is_none());
}

#[test]
fn failed_body_translation_keeps_title_and_drops_body() {
    let mut store = store_with_languages();
    let post = store.submit_post(post_request("Hello", Some("Body"), "en"), 100).unwrap();
    store.publish(ContentKind::Post, post.id, 101);
    let outcomes = vec![
        LanguageOutcome {
            title: Ok(ok_result("Hola", "es")),
            body: Some(Err(GatewayError::RateLimited)),
        },
        failed_outcome(),
    ];
    fan_out_translations(&mut store, ContentKind::Post, post.id, &outcomes, 200);
    let es = store.find_translation(ContentKind::Post, post.id, "es").unwrap();
    assert_eq!(es.title, "Hola");
    assert_eq!(es.body, None);
}

#[test]
fn fan_out_on_missing_content_is_a_no_op() {
    let mut store = store_with_languages();
    fan_out_translations(&mut store, ContentKind::Post, 42, &Vec::new(), 200);
    assert!(store.post_translations.is_empty());
}

#[test]
fn fan_out_keeps_stale_row_for_failed_language() {
    let mut store = store_with_languages();
    let post = store.submit_post(post_request("Hello", None, "en"), 100).unwrap();
    store.publish(ContentKind::Post, post.id, 101);
    let first = vec![ok_outcome("Hola", None, "es"), ok_outcome("مرحبا", None, "ar")];
    fan_out_translations(&mut store, ContentKind::Post, post.id, &first, 200);
    let second = vec![ok_outcome("Hola dos", None, "es"), failed_outcome()];
    fan_out_translations(&mut store, ContentKind::Post, post.id, &second, 300);

    let ar = store.find_translation(ContentKind::Post, post.id, "ar").unwrap();
    assert_eq!(ar.title, "مرحبا");
    assert_eq!(ar.translated_at, 200);
    let es = store.find_translation(ContentKind::Post, post.id, "es").unwrap();
    assert_eq!(es.translated_at, 300);
}

#[test]
fn submission_in_unknown_language_is_rejected() {
    let mut store = store_with_languages();
    let err = store.submit_post(post_request("Hej", None, "sv"), 100).unwrap_err();
    assert_eq!(err, StoreError::UnknownLanguage);
    assert!(store.posts.is_empty());
}

#[test]
fn duplicate_language_code_is_rejected() {
    let mut store = store_with_languages();
    let err = store.add_language(language("en", "English again", false, true)).unwrap_err();
    assert_eq!(err, StoreError::DuplicateLanguage);
    assert_eq!(store.languages.len(), 3);
}

#[test]
fn publish_is_idempotent_and_ignores_missing_ids() {
    let mut store = store_with_languages();
    let post = store.submit_post(post_request("Hello", None, "en"), 100).unwrap();
    assert!(!store.posts[0].published);
    store.publish(ContentKind::Post, post.id, 101);
    assert!(store.posts[0].published);
    assert_eq!(store.posts[0].updated_at, 101);
    store.publish(ContentKind::Post, post.id, 102);
    assert!(store.posts[0].published);
    assert_eq!(store.posts[0].updated_at, 102);
    store.publish(ContentKind::Post, 999, 103);
    assert_eq!(store.posts.len(), 1);
}

#[test]
fn submitted_post_direction_defaults_from_title_and_language() {
    let mut store = store_with_languages();
    let latin = store.submit_post(post_request("Hello", None, "en"), 100).unwrap();
    assert_eq!(latin.text_direction, "ltr");
    let arabic = store.submit_post(post_request("Latin title", None, "ar"), 101).unwrap();
    assert_eq!(arabic.text_direction, "rtl");
    let hebrew_text = store.submit_post(post_request("שלום", None, "en"), 102).unwrap();
    assert_eq!(hebrew_text.text_direction, "rtl");
}

#[test]
fn supplied_direction_is_kept_verbatim() {
    let mut store = store_with_languages();
    let mut req = post_request("Hello", None, "en");
    req.text_direction = Some("rtl".to_string());
    let post = store.submit_post(req, 100).unwrap();
    assert_eq!(post.text_direction, "rtl");
}

#[test]
fn enabled_languages_keep_configuration_order() {
    let mut store = store_with_languages();
    store.add_language(language("fr", "French", false, false)).unwrap();
    let enabled = store.enabled_languages();
    let codes: Vec<&str> = enabled.iter().map(|l| l.code.as_str()).collect();
    assert_eq!(codes, vec!["en", "es", "ar"]);
}

#[test]
fn language_direction_derives_from_rtl_flag() {
    assert_eq!(language("ar", "Arabic", true, true).text_direction, "rtl");
    assert_eq!(language("en", "English", false, true).text_direction, "ltr");
}
