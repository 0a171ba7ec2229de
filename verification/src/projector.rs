//! The read-side projector.
//!
//! Listings join published content with the translation row for the
//! requested language.  An item is *translated* exactly when a row exists for
//! that language and the language differs from the item's original one:
//! requesting the original language never reports a translation, whatever
//! rows exist.  A translated item shows the row's title, the row's body where
//! the row has one (falling back to the original body), and the row's stored
//! direction; an untranslated one shows the original fields with
//! `is_translated` false — readers never see an error for a missing
//! translation.  Posts come newest-first with page/limit pagination; events
//! come in calendar order, filtered by month and category.

use vstd::prelude::*;
use crate::dates::{Date, Time, YearMonth, date_key, opt_time_key};
use crate::model::{Post, Event, TranslationRow, ContentKind, clone_opt_string, copy_post, copy_event};
use crate::store::{ContentStore, spec_find_row};
use crate::sort::{SortKey, spec_sort, sort_by_key, lemma_sort_props};
use crate::direction::str_eq;

verus! {

/// A post as a reader sees it, localized to the requested language.
pub struct PostWithTranslation {
    pub id: i32,
    pub author_name: String,
    pub title: String,
    pub content: Option<String>,
    pub original_title: String,
    pub original_content: Option<String>,
    pub link_url: Option<String>,
    pub image_url: Option<String>,
    pub post_type: String,
    pub original_language: String,
    pub original_text_direction: String,
    pub text_direction: String,
    pub is_translated: bool,
    pub created_at: i64,
}

/// An event as a reader sees it, localized to the requested language.
pub struct EventWithTranslation {
    pub id: i32,
    pub organizer_name: String,
    pub title: String,
    pub description: Option<String>,
    pub original_title: String,
    pub original_description: Option<String>,
    pub event_date: Date,
    pub event_time: Option<Time>,
    pub location: Option<String>,
    pub category: Option<String>,
    pub is_free: bool,
    pub ticket_url: Option<String>,
    pub original_language: String,
    pub original_text_direction: String,
    pub text_direction: String,
    pub is_translated: bool,
    pub created_at: i64,
}

/// One page of a listing, with the pagination totals the API reports.
pub struct Page<T> {
    pub items: Vec<T>,
    pub page: usize,
    pub limit: usize,
    pub total: usize,
    pub total_pages: usize,
}

/// An item counts as translated exactly when a row exists for the requested
/// language and that language differs from the item's original one.
pub open spec fn spec_translated(
    row: Option<TranslationRow>,
    original_language: Seq<char>,
    lang: Seq<char>,
) -> bool {
    row is Some && original_language != lang
}

/// The projection of one post: translated fields where the item counts as
/// translated — the row's missing body falls back to the original — and the
/// original fields otherwise, with the original always carried alongside.
pub open spec fn spec_project_post(
    p: Post,
    row: Option<TranslationRow>,
    lang: Seq<char>,
) -> PostWithTranslation {
    let translated = spec_translated(row, p.original_language@, lang);
    PostWithTranslation {
        id: p.id,
        author_name: p.author_name,
        title: if translated {
            row->Some_0.title
        } else {
            p.title
        },
        content: if translated {
            match row->Some_0.body {
                Some(b) => Some(b),
                None => p.content,
            }
        } else {
            p.content
        },
        original_title: p.title,
        original_content: p.content,
        link_url: p.link_url,
        image_url: p.image_url,
        post_type: p.post_type,
        original_language: p.original_language,
        original_text_direction: p.text_direction,
        text_direction: if translated {
            row->Some_0.text_direction
        } else {
            p.text_direction
        },
        is_translated: translated,
        created_at: p.created_at,
    }
}

/// Projects one post for the requested language, per [`spec_project_post`].
pub fn project_post(p: &Post, row: Option<&TranslationRow>, lang: &str) -> (r: PostWithTranslation)
    ensures
        r == spec_project_post(
            *p,
            match row {
                Some(t) => Some(*t),
                None => None,
            },
            lang@,
        ),
{
    let translated = match row {
        Some(_) => !str_eq(p.original_language.as_str(), lang),
        None => false,
    };
    let title = match row {
        Some(t) if translated => t.title.clone(),
        _ => p.title.clone(),
    };
    let content = match row {
        Some(t) if translated => match &t.body {
            Some(b) => Some(b.clone()),
            None => clone_opt_string(&p.content),
        },
        _ => clone_opt_string(&p.content),
    };
    let text_direction = match row {
        Some(t) if translated => t.text_direction.clone(),
        _ => p.text_direction.clone(),
    };
    PostWithTranslation {
        id: p.id,
        author_name: p.author_name.clone(),
        title,
        content,
        original_title: p.title.clone(),
        original_content: clone_opt_string(&p.content),
        link_url: clone_opt_string(&p.link_url),
        image_url: clone_opt_string(&p.image_url),
        post_type: p.post_type.clone(),
        original_language: p.original_language.clone(),
        original_text_direction: p.text_direction.clone(),
        text_direction,
        is_translated: translated,
        created_at: p.created_at,
    }
}

/// The projection of one event, as [`spec_project_post`] for posts.
pub open spec fn spec_project_event(
    e: Event,
    row: Option<TranslationRow>,
    lang: Seq<char>,
) -> EventWithTranslation {
    let translated = spec_translated(row, e.original_language@, lang);
    EventWithTranslation {
        id: e.id,
        organizer_name: e.organizer_name,
        title: if translated {
            row->Some_0.title
        } else {
            e.title
        },
        description: if translated {
            match row->Some_0.body {
                Some(b) => Some(b),
                None => e.description,
            }
        } else {
            e.description
        },
        original_title: e.title,
        original_description: e.description,
        event_date: e.event_date,
        event_time: e.event_time,
        location: e.location,
        category: e.category,
        is_free: e.is_free,
        ticket_url: e.ticket_url,
        original_language: e.original_language,
        original_text_direction: e.text_direction,
        text_direction: if translated {
            row->Some_0.text_direction
        } else {
            e.text_direction
        },
        is_translated: translated,
        created_at: e.created_at,
    }
}

/// Projects one event for the requested language, per [`spec_project_event`].
pub fn project_event(e: &Event, row: Option<&TranslationRow>, lang: &str) -> (r:
    EventWithTranslation)
    ensures
        r == spec_project_event(
            *e,
            match row {
                Some(t) => Some(*t),
                None => None,
            },
            lang@,
        ),
{
    let translated = match row {
        Some(_) => !str_eq(e.original_language.as_str(), lang),
        None => false,
    };
    let title = match row {
        Some(t) if translated => t.title.clone(),
        _ => e.title.clone(),
    };
    let description = match row {
        Some(t) if translated => match &t.body {
            Some(b) => Some(b.clone()),
            None => clone_opt_string(&e.description),
        },
        _ => clone_opt_string(&e.description),
    };
    let text_direction = match row {
        Some(t) if translated => t.text_direction.clone(),
        _ => e.text_direction.clone(),
    };
    EventWithTranslation {
        id: e.id,
        organizer_name: e.organizer_name.clone(),
        title,
        description,
        original_title: e.title.clone(),
        original_description: clone_opt_string(&e.description),
        event_date: e.event_date,
        event_time: e.event_time,
        location: clone_opt_string(&e.location),
        category: clone_opt_string(&e.category),
        is_free: e.is_free,
        ticket_url: clone_opt_string(&e.ticket_url),
        original_language: e.original_language.clone(),
        original_text_direction: e.text_direction.clone(),
        text_direction,
        is_translated: translated,
        created_at: e.created_at,
    }
}

impl SortKey for Post {
    /// Posts list newest first: the key inverts the creation time.
    open spec fn key(&self) -> int {
        -(self.created_at as int)
    }

    fn le(&self, other: &Post) -> (r: bool) {
        self.created_at >= other.created_at
    }
}

/// The single ordering key of an event: calendar date, then time of day,
/// events without a time after those with one.
pub open spec fn event_key(e: Event) -> int {
    date_key(e.event_date) * 100000 + opt_time_key(e.event_time)
}

/// Computes an event's ordering key; it fits a u64 for every field value.
pub fn event_sort_key(e: &Event) -> (k: u64)
    ensures
        k as int == event_key(*e),
{
    let d: u64 = (e.event_date.year as u64) * 10000 + (e.event_date.month as u64) * 100
        + (e.event_date.day as u64);
    let t: u64 = match e.event_time {
        Some(t) => (t.hour as u64) * 3600 + (t.minute as u64) * 60 + (t.second as u64),
        None => 86400,
    };
    d * 100000 + t
}

impl SortKey for Event {
    open spec fn key(&self) -> int {
        event_key(*self)
    }

    fn le(&self, other: &Event) -> (r: bool) {
        event_sort_key(self) <= event_sort_key(other)
    }
}

/// The published posts, in store order.
pub open spec fn spec_published_posts(posts: Seq<Post>) -> Seq<Post> {
    posts.filter(|p: Post| p.published)
}

/// The published posts, newest first.
pub open spec fn spec_post_order(posts: Seq<Post>) -> Seq<Post> {
    spec_sort(spec_published_posts(posts))
}

/// The full post listing for a language: every published post, newest first,
/// projected against its translation row for that language.
pub open spec fn spec_post_listing(store: ContentStore, lang: Seq<char>) -> Seq<
    PostWithTranslation,
> {
    spec_post_order(store.posts@).map_values(
        |p: Post|
            spec_project_post(p, spec_find_row(store.post_translations@, p.id as int, lang), lang),
    )
}

/// Pages are 1-indexed windows of `limit` items; `ceil(total/limit)` pages,
/// an empty listing making zero of them.
pub open spec fn spec_ceil_div(total: int, limit: int) -> int {
    if total == 0 {
        0
    } else {
        (total - 1) / limit + 1
    }
}

/// The first item index of a page, clamped to the listing's end.
pub open spec fn spec_page_start(total: int, page: int, limit: int) -> int {
    if (page - 1) * limit > total {
        total
    } else {
        (page - 1) * limit
    }
}

/// One past the last item index of a page.
pub open spec fn spec_page_end(total: int, page: int, limit: int) -> int {
    if spec_page_start(total, page, limit) + limit > total {
        total
    } else {
        spec_page_start(total, page, limit) + limit
    }
}

/// The requested page of the post listing.
pub open spec fn spec_post_page(
    store: ContentStore,
    lang: Seq<char>,
    page: int,
    limit: int,
) -> Seq<PostWithTranslation> {
    let listing = spec_post_listing(store, lang);
    listing.subrange(
        spec_page_start(listing.len() as int, page, limit),
        spec_page_end(listing.len() as int, page, limit),
    )
}

/// Lists published posts localized to the requested language, newest first,
/// with 1-indexed pagination: the page's items, the total count of published
/// posts, and the total number of pages.
pub fn list_published_posts(store: &ContentStore, lang: &str, page: usize, limit: usize) -> (r:
    Page<PostWithTranslation>)
    requires
        page >= 1,
        limit >= 1,
    ensures
        r.page == page,
        r.limit == limit,
        r.total == spec_published_posts(store.posts@).len(),
        r.total_pages == spec_ceil_div(r.total as int, limit as int),
        r.items@ == spec_post_page(*store, lang@, page as int, limit as int),
{
    // the published posts, in store order
    let mut filtered: Vec<Post> = Vec::new();
    let n: usize = store.posts.len();
    let mut i: usize = 0;
    proof {
        reveal(Seq::filter);
        assert(store.posts@.subrange(0, 0).len() == 0);
    }
    while i < n
        invariant
            n == store.posts@.len(),
            0 <= i <= n,
            filtered@ == spec_published_posts(store.posts@.subrange(0, i as int)),
        decreases n - i,
    {
        if store.posts[i].published {
            filtered.push(copy_post(&store.posts[i]));
        }
        proof {
            reveal(Seq::filter);
            let pre = store.posts@.subrange(0, i as int);
            let cur = store.posts@.subrange(0, i + 1);
            assert(cur.drop_last() =~= pre);
            assert(cur.last() == store.posts@[i as int]);
            assert(spec_published_posts(cur) == if store.posts@[i as int].published {
                spec_published_posts(pre).push(store.posts@[i as int])
            } else {
                spec_published_posts(pre)
            });
        }
        i = i + 1;
    }
    proof {
        assert(store.posts@.subrange(0, n as int) =~= store.posts@);
    }
    let total: usize = filtered.len();
    let sorted: Vec<Post> = sort_by_key(filtered);
    proof {
        lemma_sort_props(spec_published_posts(store.posts@));
    }

    let total_pages: usize = if total == 0 {
        0
    } else {
        (total - 1) / limit + 1
    };

    let start: usize = match (page - 1).checked_mul(limit) {
        Some(s) => if s > total {
            total
        } else {
            s
        },
        None => total,
    };
    let end: usize = if limit > total - start {
        total
    } else {
        start + limit
    };

    let ghost listing = spec_post_listing(*store, lang@);
    let mut items: Vec<PostWithTranslation> = Vec::new();
    let mut k: usize = start;
    proof {
        assert(listing.subrange(start as int, start as int).len() == 0);
    }
    while k < end
        invariant
            listing == spec_post_listing(*store, lang@),
            sorted@ == spec_post_order(store.posts@),
            listing.len() == sorted@.len(),
            start <= k <= end <= sorted@.len(),
            items@ == listing.subrange(start as int, k as int),
        decreases end - k,
    {
        let row = store.find_translation(ContentKind::Post, sorted[k].id, lang);
        let projected = project_post(&sorted[k], row, lang);
        proof {
            assert(listing[k as int] == spec_project_post(
                sorted@[k as int],
                spec_find_row(store.post_translations@, sorted@[k as int].id as int, lang@),
                lang@,
            ));
            assert(listing.subrange(start as int, k + 1) =~= listing.subrange(
                start as int,
                k as int,
            ).push(listing[k as int]));
        }
        items.push(projected);
        k = k + 1;
    }
    proof {
        assert(items@ == spec_post_page(*store, lang@, page as int, limit as int));
    }
    Page { items, page, limit, total, total_pages }
}

/// What the post listing's query asks for: the language defaulting to
/// English, the page defaulting to 1 and the limit to 20.  A page or limit
/// below 1, or one the machine's word cannot hold, is rejected.
pub fn posts_query_params(q: &crate::model::GetPostsQuery) -> (r: Option<(String, usize, usize)>)
    ensures
        ({
            let page0 = match q.page {
                Some(p) => p as int,
                None => 1,
            };
            let limit0 = match q.limit {
                Some(l) => l as int,
                None => 20,
            };
            if 1 <= page0 <= usize::MAX && 1 <= limit0 <= usize::MAX {
                r is Some && r->Some_0.0@ == crate::submit::spec_req_language(q.lang)
                    && r->Some_0.1 == page0 && r->Some_0.2 == limit0
            } else {
                r is None
            }
        }),
{
    let page0: i64 = match q.page {
        Some(p) => p,
        None => 1,
    };
    let limit0: i64 = match q.limit {
        Some(l) => l,
        None => 20,
    };
    if page0 < 1 || limit0 < 1 {
        return None;
    }
    if (page0 as u64) > (usize::MAX as u64) || (limit0 as u64) > (usize::MAX as u64) {
        return None;
    }
    let lang = crate::submit::request_language(&q.lang);
    Some((lang, page0 as usize, limit0 as usize))
}

/// The category filter's view: the requested category's characters, if any.
pub open spec fn opt_category_view(category: Option<&String>) -> Option<Seq<char>> {
    match category {
        Some(c) => Some(c@),
        None => None,
    }
}

/// The published events surviving the optional month and category filters, in
/// store order.
pub open spec fn spec_event_filter(
    events: Seq<Event>,
    month: Option<YearMonth>,
    category: Option<Seq<char>>,
) -> Seq<Event> {
    events.filter(
        |e: Event|
            e.published && (match month {
                Some(m) => e.event_date.year == m.year && e.event_date.month == m.month,
                None => true,
            }) && (match category {
                Some(c) => e.category is Some && e.category->Some_0@ == c,
                None => true,
            }),
    )
}

/// The full event listing: filtered, in calendar order, projected against the
/// requested language's translation rows.
pub open spec fn spec_event_listing(
    store: ContentStore,
    lang: Seq<char>,
    month: Option<YearMonth>,
    category: Option<Seq<char>>,
) -> Seq<EventWithTranslation> {
    spec_sort(spec_event_filter(store.events@, month, category)).map_values(
        |e: Event|
            spec_project_event(
                e,
                spec_find_row(store.event_translations@, e.id as int, lang),
                lang,
            ),
    )
}

/// Lists published events localized to the requested language, in calendar
/// order — date, then time of day, events without a time last — optionally
/// filtered to one month and one category.
pub fn list_published_events(
    store: &ContentStore,
    lang: &str,
    month: Option<YearMonth>,
    category: Option<&String>,
) -> (r: Vec<EventWithTranslation>)
    ensures
        r@ == spec_event_listing(*store, lang@, month, opt_category_view(category)),
{
    let ghost gmonth = month;
    let ghost gcat = opt_category_view(category);
    let mut filtered: Vec<Event> = Vec::new();
    let n: usize = store.events.len();
    let mut i: usize = 0;
    proof {
        reveal(Seq::filter);
        assert(store.events@.subrange(0, 0).len() == 0);
    }
    while i < n
        invariant
            n == store.events@.len(),
            0 <= i <= n,
            gmonth == month,
            gcat == opt_category_view(category),
            filtered@ == spec_event_filter(store.events@.subrange(0, i as int), gmonth, gcat),
        decreases n - i,
    {
        let e = &store.events[i];
        let month_ok = match month {
            Some(m) => e.event_date.year == m.year && e.event_date.month == m.month,
            None => true,
        };
        let category_ok = match category {
            Some(c) => match &e.category {
                Some(ec) => str_eq(ec.as_str(), c.as_str()),
                None => false,
            },
            None => true,
        };
        if e.published && month_ok && category_ok {
            filtered.push(copy_event(e));
        }
        proof {
            reveal(Seq::filter);
            let pre = store.events@.subrange(0, i as int);
            let cur = store.events@.subrange(0, i + 1);
            assert(cur.drop_last() =~= pre);
            assert(cur.last() == store.events@[i as int]);
            assert(spec_event_filter(cur, gmonth, gcat) == if store.events@[i as int].published
                && (match gmonth {
                Some(m) => store.events@[i as int].event_date.year == m.year
                    && store.events@[i as int].event_date.month == m.month,
                None => true,
            }) && (match gcat {
                Some(c) => store.events@[i as int].category is Some && store.events@[i
                    as int].category->Some_0@ == c,
                None => true,
            }) {
                spec_event_filter(pre, gmonth, gcat).push(store.events@[i as int])
            } else {
                spec_event_filter(pre, gmonth, gcat)
            });
        }
        i = i + 1;
    }
    proof {
        assert(store.events@.subrange(0, n as int) =~= store.events@);
    }
    let sorted: Vec<Event> = sort_by_key(filtered);
    proof {
        lemma_sort_props(spec_event_filter(store.events@, gmonth, gcat));
    }

    let ghost listing = spec_event_listing(*store, lang@, gmonth, gcat);
    let mut items: Vec<EventWithTranslation> = Vec::new();
    let m: usize = sorted.len();
    let mut k: usize = 0;
    proof {
        assert(listing.subrange(0, 0).len() == 0);
    }
    while k < m
        invariant
            listing == spec_event_listing(*store, lang@, gmonth, gcat),
            sorted@ == spec_sort(spec_event_filter(store.events@, gmonth, gcat)),
            listing.len() == sorted@.len(),
            m == sorted@.len(),
            0 <= k <= m,
            items@ == listing.subrange(0, k as int),
        decreases m - k,
    {
        let row = store.find_translation(ContentKind::Event, sorted[k].id, lang);
        let projected = project_event(&sorted[k], row, lang);
        proof {
            assert(listing[k as int] == spec_project_event(
                sorted@[k as int],
                spec_find_row(store.event_translations@, sorted@[k as int].id as int, lang@),
                lang@,
            ));
            assert(listing.subrange(0, k + 1) =~= listing.subrange(0, k as int).push(
                listing[k as int],
            ));
        }
        items.push(projected);
        k = k + 1;
    }
    proof {
        assert(items@ =~= listing);
    }
    items
}

} // verus!
