use lancaster_backend::dates::YearMonth;
use lancaster_backend::fanout::{fan_out_translations, LanguageOutcome};
use lancaster_backend::gateway::TranslationResult;
use lancaster_backend::model::{ContentKind, CreateEventRequest, CreatePostRequest, Language};
use lancaster_backend::projector::{list_published_events, list_published_posts, posts_query_params};
use lancaster_backend::model::GetPostsQuery;
use lancaster_backend::store::ContentStore;

fn language(code: &str, name: &str, rtl: bool, enabled: bool) -> Language {
    Language::new(code.to_string(), name.to_string(), name.to_string(), rtl, enabled)
}

fn store_with_languages() -> ContentStore {
    let mut store = ContentStore::new();
    store.add_language(language("en", "English", false, true)).unwrap();
    store.add_language(language("es", "Spanish", false, true)).unwrap();
    store.add_language(language("ar", "Arabic", true, true)).unwrap();
    store
}

fn post_request(title: &str, lang: &str) -> CreatePostRequest {
    CreatePostRequest {
        author_name: "Ada".to_string(),
        author_email: None,
        title: title.to_string(),
        content: Some(format!("{title} body")),
        link_url: None,
        image_url: None,
        post_type: "text".to_string(),
        language: Some(lang.to_string()),
        text_direction: None,
    }
}

fn event_request(title: &str, date: &str, time: Option<&str>, category: Option<&str>) -> CreateEventRequest {
    CreateEventRequest {
        organizer_name: "Grace".to_string(),
        organizer_email: None,
        title: title.to_string(),
        description: None,
        event_date: date.to_string(),
        event_time: time.map(|t| t.to_string()),
        location: None,
        category: category.map(|c| c.to_string()),
        is_free: true,
        ticket_url: None,
        language: Some("en".to_string()),
        text_direction: None,
    }
}

fn spanish_outcome(title: &str) -> Vec<LanguageOutcome> {
    vec![
        LanguageOutcome {
            title: Ok(TranslationResult {
                translated_text: title.to_string(),
                source_language: "en".to_string(),
                target_language: "es".to_string(),
                text_direction: "ltr".to_string(),
                confidence: 1000,
            }),
            body: None,
        },
        LanguageOutcome {
            title: Err(lancaster_backend::gateway::GatewayError::Network),
            body: None,
        },
    ]
}

#[test]
fn fallback_projection_shows_original_untranslated() {
    let mut store = store_with_languages();
    let post = store.submit_post(post_request("Hello", "en"), 100).unwrap();
    store.publish(ContentKind::Post, post.id, 101);

    let page = list_published_posts(&store, "es", 1, 20);
    assert_eq!(page.items.len(), 1);
    let item = &page.items[0];
    assert_eq!(item.title, "Hello");
    assert!(!item.is_translated);
    assert_eq!(item.text_direction, "ltr");
    assert_eq!(item.original_language, "en");
}

#[test]
fn translated_projection_shows_translation_and_configured_direction() {
    let mut store = store_with_languages();
    let post = store.submit_post(post_request("Hello", "en"), 100).unwrap();
    store.publish(ContentKind::Post, post.id, 101);
    fan_out_translations(&mut store, ContentKind::Post, post.id, &spanish_outcome("Hola"), 102);

    let page = list_published_posts(&store, "es", 1, 20);
    assert_eq!(page.items.len(), 1);
    let item = &page.items[0];
    assert_eq!(item.title, "Hola");
    assert!(item.is_translated);
    // the Spanish row stores Spanish's configured direction
    assert_eq!(item.text_direction, "ltr");
    assert_eq!(item.original_title, "Hello");
}

#[test]
fn requesting_original_language_never_reports_translated() {
    let mut store = store_with_languages();
    let post = store.submit_post(post_request("Hello", "en"), 100).unwrap();
    store.publish(ContentKind::Post, post.id, 101);
    fan_out_translations(&mut store, ContentKind::Post, post.id, &spanish_outcome("Hola"), 102);

    let page = list_published_posts(&store, "en", 1, 20);
    assert_eq!(page.items.len(), 1);
    assert!(!page.items[0].is_translated);
    assert_eq!(page.items[0].title, "Hello");
}

#[test]
fn unpublished_posts_are_not_listed() {
    let mut store = store_with_languages();
    store.submit_post(post_request("Draft", "en"), 100).unwrap();
    let page = list_published_posts(&store, "en", 1, 20);
    assert_eq!(page.items.len(), 0);
    assert_eq!(page.total, 0);
    assert_eq!(page.total_pages, 0);
}

#[test]
fn posts_list_newest_first() {
    let mut store = store_with_languages();
    for (i, title) in ["first", "second", "third"].iter().enumerate() {
        let post = store.submit_post(post_request(title, "en"), 100 + i as i64).unwrap();
        store.publish(ContentKind::Post, post.id, 200);
    }
    let page = list_published_posts(&store, "en", 1, 20);
    let titles: Vec<&str> = page.items.iter().map(|p| p.title.as_str()).collect();
    assert_eq!(titles, vec!["third", "second", "first"]);
}

#[test]
fn pagination_splits_forty_five_posts_into_three_pages() {
    let mut store = store_with_languages();
    for i in 0..45 {
        let post = store.submit_post(post_request(&format!("post {i}"), "en"), 100 + i).unwrap();
        store.publish(ContentKind::Post, post.id, 200);
    }
    let page1 = list_published_posts(&store, "en", 1, 20);
    let page2 = list_published_posts(&store, "en", 2, 20);
    let page3 = list_published_posts(&store, "en", 3, 20);
    let page4 = list_published_posts(&store, "en", 4, 20);
    assert_eq!(page1.items.len(), 20);
    assert_eq!(page2.items.len(), 20);
    assert_eq!(page3.items.len(), 5);
    assert_eq!(page4.items.len(), 0);
    assert_eq!(page1.total, 45);
    assert_eq!(page1.total_pages, 3);
    // pages tile the listing without overlap
    assert_eq!(page1.items[19].title, "post 25");
    assert_eq!(page2.items[0].title, "post 24");
}

#[test]
fn query_params_default_and_reject() {
    let q = GetPostsQuery { lang: None, page: None, limit: None };
    let (lang, page, limit) = posts_query_params(&q).unwrap();
    assert_eq!(lang, "en");
    assert_eq!(page, 1);
    assert_eq!(limit, 20);

    let q = GetPostsQuery { lang: Some("ar".to_string()), page: Some(3), limit: Some(7) };
    let (lang, page, limit) = posts_query_params(&q).unwrap();
    assert_eq!((lang.as_str(), page, limit), ("ar", 3, 7));

    let q = GetPostsQuery { lang: None, page: Some(0), limit: None };
    assert!(posts_query_params(&q).is_none());
    let q = GetPostsQuery { lang: None, page: None, limit: Some(-5) };
    assert!(posts_query_params(&q).is_none());
}

#[test]
fn events_list_in_calendar_order_with_untimed_last() {
    let mut store = store_with_languages();
    let late = store
        .submit_event(event_request("evening", "2024-06-10", Some("19:00:00"), None), 100)
        .unwrap();
    let untimed = store
        .submit_event(event_request("all day", "2024-06-10", None, None), 101)
        .unwrap();
    let early = store
        .submit_event(event_request("morning", "2024-06-10", Some("08:00:00"), None), 102)
        .unwrap();
    let previous = store
        .submit_event(event_request("earlier day", "2024-05-31", None, None), 103)
        .unwrap();
    for id in [late.id, untimed.id, early.id, previous.id] {
        store.publish(ContentKind::Event, id, 200);
    }
    let items = list_published_events(&store, "en", None, None);
    let titles: Vec<&str> = items.iter().map(|e| e.title.as_str()).collect();
    assert_eq!(titles, vec!["earlier day", "morning", "evening", "all day"]);
}

#[test]
fn events_filter_by_month_and_category() {
    let mut store = store_with_languages();
    let june_music = store
        .submit_event(event_request("june music", "2024-06-10", None, Some("music")), 100)
        .unwrap();
    let june_art = store
        .submit_event(event_request("june art", "2024-06-12", None, Some("art")), 101)
        .unwrap();
    let july_music = store
        .submit_event(event_request("july music", "2024-07-02", None, Some("music")), 102)
        .unwrap();
    for id in [june_music.id, june_art.id, july_music.id] {
        store.publish(ContentKind::Event, id, 200);
    }

    let june = list_published_events(&store, "en", Some(YearMonth { year: 2024, month: 6 }), None);
    let titles: Vec<&str> = june.iter().map(|e| e.title.as_str()).collect();
    assert_eq!(titles, vec!["june music", "june art"]);

    let music = String::from("music");
    let music_events = list_published_events(&store, "en", None, Some(&music));
    let titles: Vec<&str> = music_events.iter().map(|e| e.title.as_str()).collect();
    assert_eq!(titles, vec!["june music", "july music"]);

    let june_music_only = list_published_events(
        &store,
        "en",
        Some(YearMonth { year: 2024, month: 6 }),
        Some(&music),
    );
    assert_eq!(june_music_only.len(), 1);
    assert_eq!(june_music_only[0].title, "june music");
}

#[test]
fn event_with_malformed_time_keeps_date_and_drops_time() {
    let mut store = store_with_languages();
    let event = store
        .submit_event(event_request("odd time", "2024-06-10", Some("25:99:00"), None), 100)
        .unwrap();
    assert_eq!(event.event_time, None);
    assert_eq!(event.event_date.day, 10);
}

#[test]
fn event_with_invalid_date_is_rejected() {
    let mut store = store_with_languages();
    let err = store
        .submit_event(event_request("bad", "2023-02-29", None, None), 100)
        .unwrap_err();
    assert_eq!(err, lancaster_backend::store::StoreError::InvalidEventDate);
    assert!(store.events.is_empty());
}

#[test]
fn translated_event_projection() {
    let mut store = store_with_languages();
    let event = store
        .submit_event(event_request("Fair", "2024-06-10", None, None), 100)
        .unwrap();
    store.publish(ContentKind::Event, event.id, 101);
    fan_out_translations(&mut store, ContentKind::Event, event.id, &spanish_outcome("Feria"), 102);

    let items = list_published_events(&store, "es", None, None);
    assert_eq!(items.len(), 1);
    assert_eq!(items[0].title, "Feria");
    assert!(items[0].is_translated);
    assert_eq!(items[0].original_title, "Fair");

    let arabic = list_published_events(&store, "ar", None, None);
    assert_eq!(arabic[0].title, "Fair");
    assert!(!arabic[0].is_translated);
}
