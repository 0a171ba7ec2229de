//! Data model of the publishing pipeline.
//!
//! Content items come in two kinds — posts and events — each carrying an
//! original language and a text direction computed at creation.  Translations
//! are per-language rows keyed on (content id, language code); at most one row
//! may exist per key, which the store's upsert upholds.  Timestamps are unix
//! seconds; dates and times of day are the plain values of [`crate::dates`].

use vstd::prelude::*;
use crate::dates::{Date, Time, date_wf, time_wf};
use crate::direction::spec_direction_of;

verus! {

/// The two kinds of content item the pipeline translates.
#[derive(Clone, Copy, Debug, PartialEq, Eq, Structural)]
pub enum ContentKind {
    Post,
    Event,
}

/// A supported language, configured once at setup.  `enabled` gates whether
/// the fan-out targets it; `text_direction` is the canonical direction derived
/// from `is_rtl`.
#[derive(Clone, Debug)]
pub struct Language {
    pub code: String,
    pub name: String,
    pub native_name: String,
    pub is_rtl: bool,
    pub text_direction: String,
    pub enabled: bool,
}

/// The canonical direction string matches the right-to-left flag.
pub open spec fn language_wf(l: Language) -> bool {
    l.text_direction@ == spec_direction_of(l.is_rtl)
}

impl Language {
    /// Builds a language row, deriving the canonical text direction from the
    /// right-to-left flag.
    pub fn new(code: String, name: String, native_name: String, is_rtl: bool, enabled: bool) -> (l:
        Language)
        ensures
            l.code == code,
            l.name == name,
            l.native_name == native_name,
            l.is_rtl == is_rtl,
            l.enabled == enabled,
            language_wf(l),
    {
        let text_direction = crate::direction::direction_of_flag(is_rtl);
        Language { code, name, native_name, is_rtl, text_direction, enabled }
    }
}

/// A community post as stored.
#[derive(Clone, Debug)]
pub struct Post {
    pub id: i32,
    pub author_name: String,
    pub author_email: Option<String>,
    pub title: String,
    pub content: Option<String>,
    pub link_url: Option<String>,
    pub image_url: Option<String>,
    pub post_type: String,
    pub original_language: String,
    pub text_direction: String,
    pub published: bool,
    pub created_at: i64,
    pub updated_at: i64,
}

/// A community event as stored.
#[derive(Clone, Debug)]
pub struct Event {
    pub id: i32,
    pub organizer_name: String,
    pub organizer_email: Option<String>,
    pub title: String,
    pub description: Option<String>,
    pub event_date: Date,
    pub event_time: Option<Time>,
    pub location: Option<String>,
    pub category: Option<String>,
    pub is_free: bool,
    pub ticket_url: Option<String>,
    pub original_language: String,
    pub text_direction: String,
    pub published: bool,
    pub created_at: i64,
}

pub open spec fn event_wf(e: Event) -> bool {
    &&& date_wf(e.event_date)
    &&& match e.event_time {
        Some(t) => time_wf(t),
        None => true,
    }
}

/// One translation of one content item into one language.  The store keeps at
/// most one row per (content id, language code); `translated_at` is refreshed
/// whenever the fan-out overwrites the row.
#[derive(Clone, Debug)]
pub struct TranslationRow {
    pub content_id: i32,
    pub language_code: String,
    pub title: String,
    pub body: Option<String>,
    pub text_direction: String,
    pub translated_at: i64,
}

/// A post submission, as the public endpoint hands it in.
#[derive(Clone, Debug)]
pub struct CreatePostRequest {
    pub author_name: String,
    pub author_email: Option<String>,
    pub title: String,
    pub content: Option<String>,
    pub link_url: Option<String>,
    pub image_url: Option<String>,
    pub post_type: String,
    pub language: Option<String>,
    pub text_direction: Option<String>,
}

/// An event submission; the date and time arrive as text and are validated.
#[derive(Clone, Debug)]
pub struct CreateEventRequest {
    pub organizer_name: String,
    pub organizer_email: Option<String>,
    pub title: String,
    pub description: Option<String>,
    pub event_date: String,
    pub event_time: Option<String>,
    pub location: Option<String>,
    pub category: Option<String>,
    pub is_free: bool,
    pub ticket_url: Option<String>,
    pub language: Option<String>,
    pub text_direction: Option<String>,
}

/// Query parameters of the public post listing.
#[derive(Clone, Debug)]
pub struct GetPostsQuery {
    pub lang: Option<String>,
    pub page: Option<i64>,
    pub limit: Option<i64>,
}

/// Query parameters of the public event listing.
#[derive(Clone, Debug)]
pub struct GetEventsQuery {
    pub lang: Option<String>,
    pub month: Option<String>,
    pub category: Option<String>,
}

/// Credentials of the admin login endpoint.
#[derive(Clone, Debug)]
pub struct AdminLoginRequest {
    pub password: String,
}

/// The bearer token the admin login endpoint issues.
#[derive(Clone, Debug)]
pub struct AdminLoginResponse {
    pub token: String,
}

/// Clones an optional string, preserving the value exactly.
pub fn clone_opt_string(o: &Option<String>) -> (r: Option<String>)
    ensures
        r == *o,
{
    match o {
        Some(s) => Some(s.clone()),
        None => None,
    }
}

/// Copies a language row, preserving the value exactly.
pub fn copy_language(l: &Language) -> (r: Language)
    ensures
        r == *l,
{
    Language {
        code: l.code.clone(),
        name: l.name.clone(),
        native_name: l.native_name.clone(),
        is_rtl: l.is_rtl,
        text_direction: l.text_direction.clone(),
        enabled: l.enabled,
    }
}

/// Copies a post, preserving the value exactly.
pub fn copy_post(p: &Post) -> (r: Post)
    ensures
        r == *p,
{
    Post {
        id: p.id,
        author_name: p.author_name.clone(),
        author_email: clone_opt_string(&p.author_email),
        title: p.title.clone(),
        content: clone_opt_string(&p.content),
        link_url: clone_opt_string(&p.link_url),
        image_url: clone_opt_string(&p.image_url),
        post_type: p.post_type.clone(),
        original_language: p.original_language.clone(),
        text_direction: p.text_direction.clone(),
        published: p.published,
        created_at: p.created_at,
        updated_at: p.updated_at,
    }
}

/// Copies an event, preserving the value exactly.
pub fn copy_event(e: &Event) -> (r: Event)
    ensures
        r == *e,
{
    Event {
        id: e.id,
        organizer_name: e.organizer_name.clone(),
        organizer_email: clone_opt_string(&e.organizer_email),
        title: e.title.clone(),
        description: clone_opt_string(&e.description),
        event_date: e.event_date,
        event_time: e.event_time,
        location: clone_opt_string(&e.location),
        category: clone_opt_string(&e.category),
        is_free: e.is_free,
        ticket_url: clone_opt_string(&e.ticket_url),
        original_language: e.original_language.clone(),
        text_direction: e.text_direction.clone(),
        published: e.published,
        created_at: e.created_at,
    }
}

/// Copies a translation row, preserving the value exactly.
pub fn copy_row(t: &TranslationRow) -> (r: TranslationRow)
    ensures
        r == *t,
{
    TranslationRow {
        content_id: t.content_id,
        language_code: t.language_code.clone(),
        title: t.title.clone(),
        body: clone_opt_string(&t.body),
        text_direction: t.text_direction.clone(),
        translated_at: t.translated_at,
    }
}

} // verus!
