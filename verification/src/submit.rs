//! Building content items out of submissions.
//!
//! A submission may leave the language out — it defaults to English — and may
//! leave the text direction out, in which case the direction is classified
//! from the title and the language.  An event's date must be a valid
//! `YYYY-MM-DD` calendar date; a malformed time of day is dropped rather than
//! rejected, leaving the event without a time.

use vstd::prelude::*;
use crate::dates::{
    parse_date, parse_time, spec_is_date_str, spec_date_of, spec_is_time_str, spec_time_of,
    date_wf, time_wf,
};
use crate::direction::{detect_text_direction, spec_text_direction};
use crate::model::{Post, Event, CreatePostRequest, CreateEventRequest};
use crate::store::StoreError;

verus! {

/// The language a submission asks for: the one it names, or English.
pub open spec fn spec_req_language(lang: Option<String>) -> Seq<char> {
    match lang {
        Some(l) => l@,
        None => "en"@,
    }
}

/// Resolves a submission's language, defaulting to English.
pub fn request_language(lang: &Option<String>) -> (r: String)
    ensures
        r@ == spec_req_language(*lang),
{
    match lang {
        Some(l) => l.clone(),
        None => "en".to_owned(),
    }
}

/// The direction a submission's item gets: the one the submitter supplied
/// verbatim, or the classifier's verdict on the title in the submission's
/// language.
pub open spec fn spec_req_direction(
    direction: Option<String>,
    title: Seq<char>,
    lang: Option<String>,
) -> Seq<char> {
    match direction {
        Some(d) => d@,
        None => spec_text_direction(title, spec_req_language(lang)),
    }
}

/// Resolves a submission's text direction, classifying the title when the
/// submitter supplied none.
pub fn request_direction(direction: &Option<String>, title: &str, language: &str) -> (r: String)
    ensures
        r@ == match *direction {
            Some(d) => d@,
            None => spec_text_direction(title@, language@),
        },
{
    match direction {
        Some(d) => d.clone(),
        None => detect_text_direction(title, language),
    }
}

/// Builds the stored post for a submission: fields carried over, language and
/// direction resolved, unpublished, both timestamps at submission time.
pub fn build_post(req: CreatePostRequest, id: i32, now: i64) -> (p: Post)
    ensures
        p.id == id,
        p.author_name == req.author_name,
        p.author_email == req.author_email,
        p.title == req.title,
        p.content == req.content,
        p.link_url == req.link_url,
        p.image_url == req.image_url,
        p.post_type == req.post_type,
        p.original_language@ == spec_req_language(req.language),
        p.text_direction@ == spec_req_direction(req.text_direction, req.title@, req.language),
        p.published == false,
        p.created_at == now,
        p.updated_at == now,
{
    let original_language = request_language(&req.language);
    let text_direction = request_direction(
        &req.text_direction,
        req.title.as_str(),
        original_language.as_str(),
    );
    Post {
        id,
        author_name: req.author_name,
        author_email: req.author_email,
        title: req.title,
        content: req.content,
        link_url: req.link_url,
        image_url: req.image_url,
        post_type: req.post_type,
        original_language,
        text_direction,
        published: false,
        created_at: now,
        updated_at: now,
    }
}

/// The time an event submission ends up with: the one it spells when that is
/// a valid `HH:MM:SS`, and none otherwise — a malformed time is dropped, not
/// rejected.
pub open spec fn spec_req_time(time: Option<String>) -> Option<crate::dates::Time> {
    match time {
        Some(t) => if spec_is_time_str(t@) {
            Some(spec_time_of(t@))
        } else {
            None
        },
        None => None,
    }
}

/// Builds the stored event for a submission.  A date the calendar does not
/// admit rejects the submission; everything else is carried over with the
/// language and direction resolved as for posts.
pub fn build_event(req: CreateEventRequest, id: i32, now: i64) -> (r: Result<Event, StoreError>)
    ensures
        !spec_is_date_str(req.event_date@) ==> r == Err::<Event, StoreError>(
            StoreError::InvalidEventDate,
        ),
        spec_is_date_str(req.event_date@) ==> r is Ok && {
            let e = r->Ok_0;
            &&& e.id == id
            &&& e.organizer_name == req.organizer_name
            &&& e.organizer_email == req.organizer_email
            &&& e.title == req.title
            &&& e.description == req.description
            &&& e.event_date == spec_date_of(req.event_date@)
            &&& date_wf(e.event_date)
            &&& e.event_time == spec_req_time(req.event_time)
            &&& (e.event_time is Some ==> time_wf(e.event_time->Some_0))
            &&& e.location == req.location
            &&& e.category == req.category
            &&& e.is_free == req.is_free
            &&& e.ticket_url == req.ticket_url
            &&& e.original_language@ == spec_req_language(req.language)
            &&& e.text_direction@ == spec_req_direction(
                req.text_direction,
                req.title@,
                req.language,
            )
            &&& e.published == false
            &&& e.created_at == now
        },
{
    let event_date = match parse_date(req.event_date.as_str()) {
        Some(d) => d,
        None => {
            return Err(StoreError::InvalidEventDate);
        },
    };
    let event_time = match &req.event_time {
        Some(t) => parse_time(t.as_str()),
        None => None,
    };
    let original_language = request_language(&req.language);
    let text_direction = request_direction(
        &req.text_direction,
        req.title.as_str(),
        original_language.as_str(),
    );
    Ok(
        Event {
            id,
            organizer_name: req.organizer_name,
            organizer_email: req.organizer_email,
            title: req.title,
            description: req.description,
            event_date,
            event_time,
            location: req.location,
            category: req.category,
            is_free: req.is_free,
            ticket_url: req.ticket_url,
            original_language,
            text_direction,
            published: false,
            created_at: now,
        },
    )
}

} // verus!
