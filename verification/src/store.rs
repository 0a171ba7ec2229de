//! The content store: languages, posts, events and translation tables.
//!
//! This is the in-memory model of the relational store the pipeline runs
//! against.  Its central guarantee is the translation tables' uniqueness
//! invariant — at most one row per (content id, language code) — upheld by
//! [`upsert_row`]: an atomic insert-or-overwrite, never insert-then-fail.
//! Content items reference an existing supported language, ids are unique,
//! and publishing flips the `published` flag idempotently.

use vstd::prelude::*;
use vstd::pervasive::VecAdditionalExecFns;
use crate::model::{
    Language, Post, Event, TranslationRow, ContentKind, CreatePostRequest, CreateEventRequest,
    language_wf, event_wf, copy_post, copy_event, copy_language,
};
use crate::seqs::{
    first_index, lemma_first_index_props, lemma_first_index_at, lemma_first_index_push_other,
};
use crate::direction::str_eq;
use crate::submit::{
    build_post, build_event, request_language, spec_req_language, spec_req_direction,
    spec_req_time,
};
use crate::dates::{parse_date, spec_is_date_str, spec_date_of};

verus! {

/// What the store rejects: a submission in a language the store does not
/// support, a second language row under an existing code, or an event date
/// the calendar does not admit.
#[derive(Clone, Copy, Debug, PartialEq, Eq, Structural)]
pub enum StoreError {
    UnknownLanguage,
    DuplicateLanguage,
    InvalidEventDate,
}

/// The key a translation row is unique under.
pub open spec fn row_key(r: TranslationRow) -> (int, Seq<char>) {
    (r.content_id as int, r.language_code@)
}

pub open spec fn row_keys(rows: Seq<TranslationRow>) -> Seq<(int, Seq<char>)> {
    rows.map_values(|r: TranslationRow| row_key(r))
}

/// Index of the row for (content id, language code), or -1.
pub open spec fn spec_row_index(rows: Seq<TranslationRow>, content_id: int, code: Seq<char>) -> int {
    first_index(row_keys(rows), (content_id, code))
}

/// The row stored for (content id, language code), if any.
pub open spec fn spec_find_row(rows: Seq<TranslationRow>, content_id: int, code: Seq<char>) -> Option<
    TranslationRow,
> {
    let i = spec_row_index(rows, content_id, code);
    if i == -1 {
        None
    } else {
        Some(rows[i])
    }
}

/// At most one row per (content id, language code).
pub open spec fn rows_unique(rows: Seq<TranslationRow>) -> bool {
    forall|i: int, j: int|
        0 <= i < j < rows.len() ==> row_key(#[trigger] rows[i]) != row_key(#[trigger] rows[j])
}

/// What an upsert leaves in the table: the row appended when its key was
/// absent, the keyed row overwritten in place when it was present.
pub open spec fn spec_upsert(rows: Seq<TranslationRow>, row: TranslationRow) -> Seq<
    TranslationRow,
> {
    let i = spec_row_index(rows, row.content_id as int, row.language_code@);
    if i == -1 {
        rows.push(row)
    } else {
        rows.update(i, row)
    }
}

/// How many rows carry the key — the uniqueness invariant bounds it by one.
pub open spec fn count_key(rows: Seq<TranslationRow>, content_id: int, code: Seq<char>) -> nat
    decreases rows.len(),
{
    if rows.len() == 0 {
        0
    } else {
        (if row_key(rows[0]) == (content_id, code) {
            1nat
        } else {
            0nat
        }) + count_key(rows.drop_first(), content_id, code)
    }
}

/// In a table satisfying the uniqueness invariant, a key is held by exactly
/// one row when the lookup finds one, and by none otherwise.
pub proof fn lemma_unique_count(rows: Seq<TranslationRow>, content_id: int, code: Seq<char>)
    requires
        rows_unique(rows),
    ensures
        spec_find_row(rows, content_id, code) is Some ==> count_key(rows, content_id, code) == 1,
        spec_find_row(rows, content_id, code) is None ==> count_key(rows, content_id, code) == 0,
    decreases rows.len(),
{
    lemma_first_index_props(row_keys(rows), (content_id, code));
    if rows.len() > 0 {
        let rest = rows.drop_first();
        assert(rows_unique(rest)) by {
            assert forall|i: int, j: int| 0 <= i < j < rest.len() implies row_key(
                #[trigger] rest[i],
            ) != row_key(#[trigger] rest[j]) by {
                assert(rest[i] == rows[i + 1]);
                assert(rest[j] == rows[j + 1]);
            }
        }
        lemma_unique_count(rest, content_id, code);
        lemma_first_index_props(row_keys(rest), (content_id, code));
        if row_key(rows[0]) == (content_id, code) {
            // no later row may repeat the key of the first
            assert forall|j: int| 0 <= j < rest.len() implies row_key(#[trigger] rest[j]) != (
                content_id,
                code,
            ) by {
                assert(rest[j] == rows[j + 1]);
            }
            assert(spec_find_row(rest, content_id, code) is None) by {
                if spec_row_index(rest, content_id, code) >= 0 {
                    assert(row_keys(rest)[spec_row_index(rest, content_id, code)] == (
                        content_id,
                        code,
                    ));
                }
            }
        } else {
            assert(row_keys(rows)[0] != (content_id, code));
            assert(row_keys(rest) =~= row_keys(rows).drop_first());
            if spec_find_row(rest, content_id, code) is Some {
                assert(spec_find_row(rows, content_id, code) is Some);
            } else {
                assert forall|j: int| 0 <= j < row_keys(rows).len() implies row_keys(rows)[j] != (
                    content_id,
                    code,
                ) by {
                    if j > 0 {
                        assert(row_keys(rows)[j] == row_keys(rest)[j - 1]);
                        if row_keys(rest)[j - 1] == (content_id, code) {
                            assert(spec_find_row(rest, content_id, code) is Some);
                        }
                    }
                }
                lemma_first_index_props(row_keys(rows), (content_id, code));
                if spec_row_index(rows, content_id, code) >= 0 {
                    assert(row_keys(rows)[spec_row_index(rows, content_id, code)] == (
                        content_id,
                        code,
                    ));
                }
            }
        }
    }
}

/// What [`spec_upsert`] leaves behind: the uniqueness invariant holds, the
/// new row is the one lookup result for its key, every other key's lookup is
/// unchanged, and the table grows only when the key was absent.
pub proof fn lemma_spec_upsert(rows: Seq<TranslationRow>, row: TranslationRow)
    requires
        rows_unique(rows),
    ensures
        rows_unique(spec_upsert(rows, row)),
        spec_find_row(spec_upsert(rows, row), row.content_id as int, row.language_code@) == Some(
            row,
        ),
        forall|id2: int, code2: Seq<char>|
            !(id2 == row.content_id as int && code2 == row.language_code@) ==> spec_find_row(
                spec_upsert(rows, row),
                id2,
                code2,
            ) == spec_find_row(rows, id2, code2),
        spec_upsert(rows, row).len() == if spec_row_index(
            rows,
            row.content_id as int,
            row.language_code@,
        ) == -1 {
            rows.len() + 1
        } else {
            rows.len()
        },
{
    let key = (row.content_id as int, row.language_code@);
    let idx = first_index(row_keys(rows), key);
    lemma_first_index_props(row_keys(rows), key);
    let out = spec_upsert(rows, row);
    if idx == -1 {
        assert(out == rows.push(row));
        assert(row_keys(out) =~= row_keys(rows).push(key));
        assert forall|a: int, b: int| 0 <= a < b < out.len() implies row_key(#[trigger] out[a])
            != row_key(#[trigger] out[b]) by {
            assert(row_key(out[a]) == row_keys(out)[a]);
            assert(row_key(out[b]) == row_keys(out)[b]);
            if b < rows.len() {
                assert(row_key(rows[a]) == row_keys(rows)[a]);
                assert(row_key(rows[b]) == row_keys(rows)[b]);
            } else {
                assert(row_keys(out)[b] == key);
                assert(row_keys(out)[a] == row_keys(rows)[a]);
            }
        }
        assert(spec_find_row(out, row.content_id as int, row.language_code@) == Some(row)) by {
            lemma_first_index_at(row_keys(out), key, rows.len() as int);
        }
        assert forall|id2: int, code2: Seq<char>|
            !(id2 == row.content_id as int && code2 == row.language_code@) implies spec_find_row(
            out,
            id2,
            code2,
        ) == spec_find_row(rows, id2, code2) by {
            let k2 = (id2, code2);
            lemma_first_index_push_other(row_keys(rows), key, k2);
            lemma_first_index_props(row_keys(rows), k2);
            let r2 = first_index(row_keys(rows), k2);
            if r2 >= 0 {
                assert(out[r2] == rows[r2]);
            }
        }
    } else {
        assert(row_keys(rows)[idx] == key);
        assert(out == rows.update(idx, row));
        assert(row_keys(out) =~= row_keys(rows).update(idx, key));
        assert(row_keys(rows).update(idx, key) =~= row_keys(rows));
        assert forall|a: int, b: int| 0 <= a < b < out.len() implies row_key(#[trigger] out[a])
            != row_key(#[trigger] out[b]) by {
            assert(row_key(out[a]) == row_keys(rows)[a]);
            assert(row_key(out[b]) == row_keys(rows)[b]);
            assert(row_key(rows[a]) == row_keys(rows)[a]);
            assert(row_key(rows[b]) == row_keys(rows)[b]);
        }
        assert(spec_find_row(out, row.content_id as int, row.language_code@) == Some(row)) by {
            lemma_first_index_at(row_keys(out), key, idx);
        }
        assert forall|id2: int, code2: Seq<char>|
            !(id2 == row.content_id as int && code2 == row.language_code@) implies spec_find_row(
            out,
            id2,
            code2,
        ) == spec_find_row(rows, id2, code2) by {
            let k2 = (id2, code2);
            assert(first_index(row_keys(out), k2) == first_index(row_keys(rows), k2));
            lemma_first_index_props(row_keys(rows), k2);
            let r2 = first_index(row_keys(rows), k2);
            if r2 >= 0 {
                assert(row_keys(rows)[r2] == k2);
                assert(r2 != idx);
                assert(out[r2] == rows[r2]);
            }
        }
    }
}

/// Atomic insert-or-overwrite keyed on (content id, language code).  Keeps the
/// uniqueness invariant, leaves the new row as the one lookup result for its
/// key, and leaves every other key's lookup unchanged.
pub fn upsert_row(rows: &mut Vec<TranslationRow>, row: TranslationRow)
    requires
        rows_unique(old(rows)@),
    ensures
        final(rows)@ == spec_upsert(old(rows)@, row),
        rows_unique(final(rows)@),
        spec_find_row(final(rows)@, row.content_id as int, row.language_code@) == Some(row),
        forall|id2: int, code2: Seq<char>|
            !(id2 == row.content_id as int && code2 == row.language_code@) ==> spec_find_row(
                final(rows)@,
                id2,
                code2,
            ) == spec_find_row(old(rows)@, id2, code2),
{
    let ghost orig = rows@;
    let ghost key = (row.content_id as int, row.language_code@);
    let n: usize = rows.len();
    let mut i: usize = 0;
    while i < n
        invariant
            n == rows@.len(),
            rows@ == orig,
            orig == old(rows)@,
            rows_unique(orig),
            key == (row.content_id as int, row.language_code@),
            0 <= i <= n,
            forall|j: int| 0 <= j < i ==> row_keys(orig)[j] != key,
        decreases n - i,
    {
        if rows[i].content_id == row.content_id && rows[i].language_code == row.language_code {
            proof {
                assert(row_keys(orig)[i as int] == key);
                lemma_first_index_at(row_keys(orig), key, i as int);
            }
            let ghost idx = i as int;
            rows.set(i, row);
            proof {
                assert(rows@ == spec_upsert(orig, row));
                lemma_spec_upsert(orig, row);
            }
            return;
        }
        i = i + 1;
    }
    proof {
        lemma_first_index_props(row_keys(orig), key);
        if first_index(row_keys(orig), key) >= 0 {
            assert(row_keys(orig)[first_index(row_keys(orig), key)] == key);
        }
        assert(spec_row_index(orig, row.content_id as int, row.language_code@) == -1);
    }
    rows.push(row);
    proof {
        assert(rows@ == spec_upsert(orig, row));
        lemma_spec_upsert(orig, row);
    }
}

pub open spec fn language_codes(langs: Seq<Language>) -> Seq<Seq<char>> {
    langs.map_values(|l: Language| l.code@)
}

/// Some supported language carries this code.
pub open spec fn spec_language_exists(langs: Seq<Language>, code: Seq<char>) -> bool {
    exists|i: int| 0 <= i < langs.len() && (#[trigger] langs[i]).code@ == code
}

pub open spec fn post_ids(posts: Seq<Post>) -> Seq<int> {
    posts.map_values(|p: Post| p.id as int)
}

pub open spec fn spec_post_index(posts: Seq<Post>, id: int) -> int {
    first_index(post_ids(posts), id)
}

/// The post stored under this id, if any.
pub open spec fn spec_find_post(posts: Seq<Post>, id: int) -> Option<Post> {
    let i = spec_post_index(posts, id);
    if i == -1 {
        None
    } else {
        Some(posts[i])
    }
}

pub open spec fn event_ids(events: Seq<Event>) -> Seq<int> {
    events.map_values(|e: Event| e.id as int)
}

pub open spec fn spec_event_index(events: Seq<Event>, id: int) -> int {
    first_index(event_ids(events), id)
}

/// The event stored under this id, if any.
pub open spec fn spec_find_event(events: Seq<Event>, id: int) -> Option<Event> {
    let i = spec_event_index(events, id);
    if i == -1 {
        None
    } else {
        Some(events[i])
    }
}

/// The enabled languages, in configuration order.
pub open spec fn spec_enabled(langs: Seq<Language>) -> Seq<Language> {
    langs.filter(|l: Language| l.enabled)
}

/// Everything but the language table is the same in both stores.
pub open spec fn same_except_languages(pre: ContentStore, post: ContentStore) -> bool {
    &&& post.posts == pre.posts
    &&& post.events == pre.events
    &&& post.post_translations == pre.post_translations
    &&& post.event_translations == pre.event_translations
    &&& post.next_post_id == pre.next_post_id
    &&& post.next_event_id == pre.next_event_id
}

/// Everything but the translation tables is the same in both stores.
pub open spec fn same_except_translations(pre: ContentStore, post: ContentStore) -> bool {
    &&& post.languages == pre.languages
    &&& post.posts == pre.posts
    &&& post.events == pre.events
    &&& post.next_post_id == pre.next_post_id
    &&& post.next_event_id == pre.next_event_id
}

/// The relational store of the pipeline: supported languages, the two content
/// tables, and one translation table per content kind.
pub struct ContentStore {
    pub languages: Vec<Language>,
    pub posts: Vec<Post>,
    pub events: Vec<Event>,
    pub post_translations: Vec<TranslationRow>,
    pub event_translations: Vec<TranslationRow>,
    pub next_post_id: i32,
    pub next_event_id: i32,
}

impl ContentStore {
    /// The store's invariant: language codes unique and well-formed, content
    /// ids unique and below the id counters, every item's original language a
    /// supported one, event dates within the calendar, and at most one
    /// translation row per (content id, language code).
    pub open spec fn wf(&self) -> bool {
        &&& forall|i: int, j: int|
            0 <= i < j < self.languages@.len() ==> (#[trigger] self.languages@[i]).code@ != (
            #[trigger] self.languages@[j]).code@
        &&& forall|i: int|
            0 <= i < self.languages@.len() ==> language_wf(#[trigger] self.languages@[i])
        &&& forall|i: int, j: int|
            0 <= i < j < self.posts@.len() ==> (#[trigger] self.posts@[i]).id != (
            #[trigger] self.posts@[j]).id
        &&& forall|i: int|
            0 <= i < self.posts@.len() ==> (#[trigger] self.posts@[i]).id < self.next_post_id
        &&& forall|i: int|
            0 <= i < self.posts@.len() ==> spec_language_exists(
                self.languages@,
                (#[trigger] self.posts@[i]).original_language@,
            )
        &&& forall|i: int, j: int|
            0 <= i < j < self.events@.len() ==> (#[trigger] self.events@[i]).id != (
            #[trigger] self.events@[j]).id
        &&& forall|i: int|
            0 <= i < self.events@.len() ==> (#[trigger] self.events@[i]).id < self.next_event_id
        &&& forall|i: int|
            0 <= i < self.events@.len() ==> spec_language_exists(
                self.languages@,
                (#[trigger] self.events@[i]).original_language@,
            )
        &&& forall|i: int| 0 <= i < self.events@.len() ==> event_wf(#[trigger] self.events@[i])
        &&& rows_unique(self.post_translations@)
        &&& rows_unique(self.event_translations@)
        &&& self.next_post_id >= 1
        &&& self.next_event_id >= 1
    }

    /// The translation table of a content kind.
    pub open spec fn spec_table(&self, kind: ContentKind) -> Seq<TranslationRow> {
        match kind {
            ContentKind::Post => self.post_translations@,
            ContentKind::Event => self.event_translations@,
        }
    }

    /// An empty store.
    pub fn new() -> (s: ContentStore)
        ensures
            s.wf(),
            s.languages@.len() == 0,
            s.posts@.len() == 0,
            s.events@.len() == 0,
            s.post_translations@.len() == 0,
            s.event_translations@.len() == 0,
            s.next_post_id == 1,
            s.next_event_id == 1,
    {
        ContentStore {
            languages: Vec::new(),
            posts: Vec::new(),
            events: Vec::new(),
            post_translations: Vec::new(),
            event_translations: Vec::new(),
            next_post_id: 1,
            next_event_id: 1,
        }
    }

    /// Whether a language with this code is configured, enabled or not.
    pub fn language_exists(&self, code: &str) -> (r: bool)
        ensures
            r == spec_language_exists(self.languages@, code@),
    {
        let n: usize = self.languages.len();
        let mut i: usize = 0;
        while i < n
            invariant
                n == self.languages@.len(),
                0 <= i <= n,
                forall|j: int| 0 <= j < i ==> (#[trigger] self.languages@[j]).code@ != code@,
            decreases n - i,
        {
            if str_eq(self.languages[i].code.as_str(), code) {
                assert(self.languages@[i as int].code@ == code@);
                return true;
            }
            i = i + 1;
        }
        false
    }

    /// Adds a configured language; a code already present is rejected and
    /// leaves the store unchanged.
    pub fn add_language(&mut self, l: Language) -> (r: Result<(), StoreError>)
        requires
            old(self).wf(),
            language_wf(l),
        ensures
            final(self).wf(),
            spec_language_exists(old(self).languages@, l.code@) ==> r == Err::<(), StoreError>(
                StoreError::DuplicateLanguage,
            ) && *final(self) == *old(self),
            !spec_language_exists(old(self).languages@, l.code@) ==> r is Ok
                && final(self).languages@ == old(self).languages@.push(l)
                && same_except_languages(*old(self), *final(self)),
    {
        if self.language_exists(l.code.as_str()) {
            return Err(StoreError::DuplicateLanguage);
        }
        let ghost orig = self.languages@;
        self.languages.push(l);
        proof {
            assert forall|i: int, j: int| 0 <= i < j < self.languages@.len() implies (
            #[trigger] self.languages@[i]).code@ != (#[trigger] self.languages@[j]).code@ by {
                if j < orig.len() {
                    assert(self.languages@[i] == orig[i]);
                    assert(self.languages@[j] == orig[j]);
                } else {
                    assert(self.languages@[j] == l);
                    assert(self.languages@[i] == orig[i]);
                }
            }
            assert forall|i: int|
                0 <= i < self.posts@.len() implies spec_language_exists(
                self.languages@,
                (#[trigger] self.posts@[i]).original_language@,
            ) by {
                let code = self.posts@[i].original_language@;
                let w = choose|j: int|
                    0 <= j < orig.len() && (#[trigger] orig[j]).code@ == code;
                assert(self.languages@[w].code@ == code);
            }
            assert forall|i: int|
                0 <= i < self.events@.len() implies spec_language_exists(
                self.languages@,
                (#[trigger] self.events@[i]).original_language@,
            ) by {
                let code = self.events@[i].original_language@;
                let w = choose|j: int|
                    0 <= j < orig.len() && (#[trigger] orig[j]).code@ == code;
                assert(self.languages@[w].code@ == code);
            }
        }
        Ok(())
    }

    /// The enabled languages, in configuration order.
    pub fn enabled_languages(&self) -> (r: Vec<Language>)
        ensures
            r@ == spec_enabled(self.languages@),
    {
        let mut r: Vec<Language> = Vec::new();
        let n: usize = self.languages.len();
        let mut i: usize = 0;
        proof {
            reveal(Seq::filter);
            assert(self.languages@.subrange(0, 0).len() == 0);
        }
        while i < n
            invariant
                n == self.languages@.len(),
                0 <= i <= n,
                r@ == spec_enabled(self.languages@.subrange(0, i as int)),
            decreases n - i,
        {
            if self.languages[i].enabled {
                r.push(copy_language(&self.languages[i]));
            }
            proof {
                reveal(Seq::filter);
                let pre = self.languages@.subrange(0, i as int);
                let cur = self.languages@.subrange(0, i + 1);
                assert(cur.drop_last() =~= pre);
                assert(cur.last() == self.languages@[i as int]);
                assert(spec_enabled(cur) == if self.languages@[i as int].enabled {
                    spec_enabled(pre).push(self.languages@[i as int])
                } else {
                    spec_enabled(pre)
                });
            }
            i = i + 1;
        }
        proof {
            assert(self.languages@.subrange(0, n as int) =~= self.languages@);
        }
        r
    }

    /// The post stored under this id.
    pub fn get_post(&self, id: i32) -> (r: Option<&Post>)
        ensures
            match r {
                Some(p) => spec_find_post(self.posts@, id as int) == Some(*p),
                None => spec_find_post(self.posts@, id as int) is None,
            },
    {
        let n: usize = self.posts.len();
        let mut i: usize = 0;
        while i < n
            invariant
                n == self.posts@.len(),
                0 <= i <= n,
                forall|j: int| 0 <= j < i ==> post_ids(self.posts@)[j] != id as int,
            decreases n - i,
        {
            if self.posts[i].id == id {
                proof {
                    lemma_first_index_at(post_ids(self.posts@), id as int, i as int);
                }
                return Some(&self.posts[i]);
            }
            i = i + 1;
        }
        proof {
            lemma_first_index_props(post_ids(self.posts@), id as int);
            if first_index(post_ids(self.posts@), id as int) >= 0 {
                assert(post_ids(self.posts@)[first_index(post_ids(self.posts@), id as int)] == id
                    as int);
            }
        }
        None
    }

    /// The event stored under this id.
    pub fn get_event(&self, id: i32) -> (r: Option<&Event>)
        ensures
            match r {
                Some(e) => spec_find_event(self.events@, id as int) == Some(*e),
                None => spec_find_event(self.events@, id as int) is None,
            },
    {
        let n: usize = self.events.len();
        let mut i: usize = 0;
        while i < n
            invariant
                n == self.events@.len(),
                0 <= i <= n,
                forall|j: int| 0 <= j < i ==> event_ids(self.events@)[j] != id as int,
            decreases n - i,
        {
            if self.events[i].id == id {
                proof {
                    lemma_first_index_at(event_ids(self.events@), id as int, i as int);
                }
                return Some(&self.events[i]);
            }
            i = i + 1;
        }
        proof {
            lemma_first_index_props(event_ids(self.events@), id as int);
            if first_index(event_ids(self.events@), id as int) >= 0 {
                assert(event_ids(self.events@)[first_index(event_ids(self.events@), id as int)]
                    == id as int);
            }
        }
        None
    }

    /// The translation row of a content item for a language, if one exists.
    pub fn find_translation(&self, kind: ContentKind, content_id: i32, code: &str) -> (r: Option<
        &TranslationRow,
    >)
        ensures
            match r {
                Some(t) => spec_find_row(self.spec_table(kind), content_id as int, code@) == Some(
                    *t,
                ),
                None => spec_find_row(self.spec_table(kind), content_id as int, code@) is None,
            },
    {
        let table: &Vec<TranslationRow> = match kind {
            ContentKind::Post => &self.post_translations,
            ContentKind::Event => &self.event_translations,
        };
        let ghost key = (content_id as int, code@);
        let n: usize = table.len();
        let mut i: usize = 0;
        while i < n
            invariant
                n == table@.len(),
                table@ == self.spec_table(kind),
                key == (content_id as int, code@),
                0 <= i <= n,
                forall|j: int| 0 <= j < i ==> row_keys(table@)[j] != key,
            decreases n - i,
        {
            if table[i].content_id == content_id && str_eq(table[i].language_code.as_str(), code) {
                proof {
                    assert(row_keys(table@)[i as int] == key);
                    lemma_first_index_at(row_keys(table@), key, i as int);
                }
                return Some(&table[i]);
            }
            i = i + 1;
        }
        proof {
            lemma_first_index_props(row_keys(table@), key);
            if first_index(row_keys(table@), key) >= 0 {
                assert(row_keys(table@)[first_index(row_keys(table@), key)] == key);
            }
        }
        None
    }

    /// Upserts a translation row into the table of its content kind: the
    /// single atomic insert-or-overwrite of the fan-out, per [`upsert_row`].
    pub fn upsert_translation(&mut self, kind: ContentKind, row: TranslationRow)
        requires
            old(self).wf(),
        ensures
            final(self).wf(),
            same_except_translations(*old(self), *final(self)),
            final(self).spec_table(kind) == spec_upsert(old(self).spec_table(kind), row),
            spec_find_row(final(self).spec_table(kind), row.content_id as int, row.language_code@)
                == Some(row),
            forall|id2: int, code2: Seq<char>|
                !(id2 == row.content_id as int && code2 == row.language_code@) ==> spec_find_row(
                    final(self).spec_table(kind),
                    id2,
                    code2,
                ) == spec_find_row(old(self).spec_table(kind), id2, code2),
            kind == ContentKind::Post ==> final(self).event_translations == old(self).event_translations,
            kind == ContentKind::Event ==> final(self).post_translations == old(self).post_translations,
    {
        match kind {
            ContentKind::Post => upsert_row(&mut self.post_translations, row),
            ContentKind::Event => upsert_row(&mut self.event_translations, row),
        }
    }

    /// Accepts a post submission: the post is stored unpublished under a
    /// fresh id and returned; a submission in an unsupported language is
    /// rejected, upholding the invariant that every item's original language
    /// is configured.
    pub fn submit_post(&mut self, req: CreatePostRequest, now: i64) -> (r: Result<
        Post,
        StoreError,
    >)
        requires
            old(self).wf(),
            old(self).next_post_id < i32::MAX,
        ensures
            final(self).wf(),
            !spec_language_exists(old(self).languages@, spec_req_language(req.language)) ==> r
                == Err::<Post, StoreError>(StoreError::UnknownLanguage) && *final(self) == *old(self),
            spec_language_exists(old(self).languages@, spec_req_language(req.language)) ==> r is Ok
                && {
                let p = r->Ok_0;
                &&& final(self).posts@ == old(self).posts@.push(p)
                &&& final(self).next_post_id == old(self).next_post_id + 1
                &&& final(self).languages == old(self).languages
                &&& final(self).events == old(self).events
                &&& final(self).post_translations == old(self).post_translations
                &&& final(self).event_translations == old(self).event_translations
                &&& final(self).next_event_id == old(self).next_event_id
                &&& p.id == old(self).next_post_id
                &&& p.author_name == req.author_name
                &&& p.author_email == req.author_email
                &&& p.title == req.title
                &&& p.content == req.content
                &&& p.link_url == req.link_url
                &&& p.image_url == req.image_url
                &&& p.post_type == req.post_type
                &&& p.original_language@ == spec_req_language(req.language)
                &&& p.text_direction@ == spec_req_direction(
                    req.text_direction,
                    req.title@,
                    req.language,
                )
                &&& p.published == false
                &&& p.created_at == now
                &&& p.updated_at == now
            },
    {
        let lang = request_language(&req.language);
        if !self.language_exists(lang.as_str()) {
            return Err(StoreError::UnknownLanguage);
        }
        let p = build_post(req, self.next_post_id, now);
        let ret = copy_post(&p);
        let ghost orig = *self;
        self.posts.push(p);
        self.next_post_id = self.next_post_id + 1;
        proof {
            assert forall|a: int, b: int| 0 <= a < b < self.posts@.len() implies (
            #[trigger] self.posts@[a]).id != (#[trigger] self.posts@[b]).id by {
                if b < orig.posts@.len() {
                    assert(self.posts@[a] == orig.posts@[a]);
                    assert(self.posts@[b] == orig.posts@[b]);
                } else {
                    assert(self.posts@[a] == orig.posts@[a]);
                    assert(self.posts@[b].id == orig.next_post_id);
                }
            }
            assert forall|a: int| 0 <= a < self.posts@.len() implies (
            #[trigger] self.posts@[a]).id < self.next_post_id by {
                if a < orig.posts@.len() {
                    assert(self.posts@[a] == orig.posts@[a]);
                }
            }
            assert forall|a: int|
                0 <= a < self.posts@.len() implies spec_language_exists(
                self.languages@,
                (#[trigger] self.posts@[a]).original_language@,
            ) by {
                if a < orig.posts@.len() {
                    assert(self.posts@[a] == orig.posts@[a]);
                }
            }
        }
        Ok(ret)
    }

    /// Accepts an event submission: stored unpublished under a fresh id and
    /// returned.  A date outside the calendar or an unsupported language is
    /// rejected; a malformed time of day is dropped silently.
    pub fn submit_event(&mut self, req: CreateEventRequest, now: i64) -> (r: Result<
        Event,
        StoreError,
    >)
        requires
            old(self).wf(),
            old(self).next_event_id < i32::MAX,
        ensures
            final(self).wf(),
            !spec_is_date_str(req.event_date@) ==> r == Err::<Event, StoreError>(
                StoreError::InvalidEventDate,
            ) && *final(self) == *old(self),
            spec_is_date_str(req.event_date@) && !spec_language_exists(
                old(self).languages@,
                spec_req_language(req.language),
            ) ==> r == Err::<Event, StoreError>(StoreError::UnknownLanguage) && *final(self)
                == *old(self),
            spec_is_date_str(req.event_date@) && spec_language_exists(
                old(self).languages@,
                spec_req_language(req.language),
            ) ==> r is Ok && {
                let e = r->Ok_0;
                &&& final(self).events@ == old(self).events@.push(e)
                &&& final(self).next_event_id == old(self).next_event_id + 1
                &&& final(self).languages == old(self).languages
                &&& final(self).posts == old(self).posts
                &&& final(self).post_translations == old(self).post_translations
                &&& final(self).event_translations == old(self).event_translations
                &&& final(self).next_post_id == old(self).next_post_id
                &&& e.id == old(self).next_event_id
                &&& e.organizer_name == req.organizer_name
                &&& e.organizer_email == req.organizer_email
                &&& e.title == req.title
                &&& e.description == req.description
                &&& e.event_date == spec_date_of(req.event_date@)
                &&& e.event_time == spec_req_time(req.event_time)
                &&& e.location == req.location
                &&& e.category == req.category
                &&& e.is_free == req.is_free
                &&& e.ticket_url == req.ticket_url
                &&& e.original_language@ == spec_req_language(req.language)
                &&& e.text_direction@ == spec_req_direction(
                    req.text_direction,
                    req.title@,
                    req.language,
                )
                &&& e.published == false
                &&& e.created_at == now
            },
    {
        if parse_date(req.event_date.as_str()).is_none() {
            return Err(StoreError::InvalidEventDate);
        }
        let lang = request_language(&req.language);
        if !self.language_exists(lang.as_str()) {
            return Err(StoreError::UnknownLanguage);
        }
        let e = match build_event(req, self.next_event_id, now) {
            Ok(e) => e,
            Err(err) => {
                return Err(err);
            },
        };
        let ret = copy_event(&e);
        let ghost orig = *self;
        self.events.push(e);
        self.next_event_id = self.next_event_id + 1;
        proof {
            assert forall|a: int, b: int| 0 <= a < b < self.events@.len() implies (
            #[trigger] self.events@[a]).id != (#[trigger] self.events@[b]).id by {
                if b < orig.events@.len() {
                    assert(self.events@[a] == orig.events@[a]);
                    assert(self.events@[b] == orig.events@[b]);
                } else {
                    assert(self.events@[a] == orig.events@[a]);
                    assert(self.events@[b].id == orig.next_event_id);
                }
            }
            assert forall|a: int| 0 <= a < self.events@.len() implies (
            #[trigger] self.events@[a]).id < self.next_event_id by {
                if a < orig.events@.len() {
                    assert(self.events@[a] == orig.events@[a]);
                }
            }
            assert forall|a: int|
                0 <= a < self.events@.len() implies spec_language_exists(
                self.languages@,
                (#[trigger] self.events@[a]).original_language@,
            ) by {
                if a < orig.events@.len() {
                    assert(self.events@[a] == orig.events@[a]);
                }
            }
            assert forall|a: int| 0 <= a < self.events@.len() implies event_wf(
                #[trigger] self.events@[a],
            ) by {
                if a < orig.events@.len() {
                    assert(self.events@[a] == orig.events@[a]);
                }
            }
        }
        Ok(ret)
    }

    /// The publish trigger's state change: marks the item published,
    /// idempotently — publishing an already-published item rewrites the same
    /// flag — and touches nothing else.  An id the store does not hold is a
    /// no-op.  Scheduling the fan-out is the caller's side of the trigger.
    pub fn publish(&mut self, kind: ContentKind, id: i32, now: i64)
        requires
            old(self).wf(),
        ensures
            final(self).wf(),
            final(self).languages == old(self).languages,
            final(self).post_translations == old(self).post_translations,
            final(self).event_translations == old(self).event_translations,
            final(self).next_post_id == old(self).next_post_id,
            final(self).next_event_id == old(self).next_event_id,
            kind == ContentKind::Post ==> final(self).events == old(self).events && final(self).posts@.len() == old(self).posts@.len() && forall|i: int|
                0 <= i < old(self).posts@.len() ==> #[trigger] final(self).posts@[i] == (if old(self).posts@[i].id == id {
                    Post { published: true, updated_at: now, ..old(self).posts@[i] }
                } else {
                    old(self).posts@[i]
                }),
            kind == ContentKind::Event ==> final(self).posts == old(self).posts && final(self).events@.len() == old(self).events@.len() && forall|i: int|
                0 <= i < old(self).events@.len() ==> #[trigger] final(self).events@[i] == (if old(self).events@[i].id == id {
                    Event { published: true, ..old(self).events@[i] }
                } else {
                    old(self).events@[i]
                }),
    {
        let ghost orig = *self;
        match kind {
            ContentKind::Post => {
                let n: usize = self.posts.len();
                let mut i: usize = 0;
                while i < n
                    invariant
                        kind == ContentKind::Post,
                        *self == orig,
                        orig == *old(self),
                        orig.wf(),
                        n == self.posts@.len(),
                        0 <= i <= n,
                        forall|j: int| 0 <= j < i ==> (#[trigger] self.posts@[j]).id != id,
                    decreases n - i,
                {
                    if self.posts[i].id == id {
                        let p = Post { published: true, updated_at: now, ..copy_post(
                            &self.posts[i],
                        ) };
                        let ghost idx = i as int;
                        self.posts.set(i, p);
                        proof {
                            assert forall|a: int|
                                0 <= a < self.posts@.len() implies #[trigger] self.posts@[a] == (
                            if orig.posts@[a].id == id {
                                Post { published: true, updated_at: now, ..orig.posts@[a] }
                            } else {
                                orig.posts@[a]
                            }) by {
                                if a != idx {
                                    assert(self.posts@[a] == orig.posts@[a]);
                                    if a < idx {
                                        assert(orig.posts@[a].id != id);
                                    } else {
                                        assert(orig.posts@[idx].id != orig.posts@[a].id);
                                    }
                                }
                            }
                            assert(self.wf());
                        }
                        return;
                    }
                    i = i + 1;
                }
            },
            ContentKind::Event => {
                let n: usize = self.events.len();
                let mut i: usize = 0;
                while i < n
                    invariant
                        kind == ContentKind::Event,
                        *self == orig,
                        orig == *old(self),
                        orig.wf(),
                        n == self.events@.len(),
                        0 <= i <= n,
                        forall|j: int| 0 <= j < i ==> (#[trigger] self.events@[j]).id != id,
                    decreases n - i,
                {
                    if self.events[i].id == id {
                        let e = Event { published: true, ..copy_event(&self.events[i]) };
                        let ghost idx = i as int;
                        self.events.set(i, e);
                        proof {
                            assert forall|a: int|
                                0 <= a < self.events@.len() implies #[trigger] self.events@[a] == (
                            if orig.events@[a].id == id {
                                Event { published: true, ..orig.events@[a] }
                            } else {
                                orig.events@[a]
                            }) by {
                                if a != idx {
                                    assert(self.events@[a] == orig.events@[a]);
                                    if a < idx {
                                        assert(orig.events@[a].id != id);
                                    } else {
                                        assert(orig.events@[idx].id != orig.events@[a].id);
                                    }
                                }
                            }
                            assert(self.wf());
                        }
                        return;
                    }
                    i = i + 1;
                }
            },
        }
    }
}

} // verus!
