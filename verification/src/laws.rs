//! The pipeline's guarantees, stated as theorems.
//!
//! Each proof function here is a property of the fan-out or of the read-side
//! projection, stated over the specification functions that the executable
//! functions' contracts are written in: what holds of these spec functions
//! holds of every run of the code.

use vstd::prelude::*;
use vstd::arithmetic::div_mod::lemma_fundamental_div_mod;
use crate::model::{Post, Event, Language, TranslationRow};
use crate::store::{
    rows_unique, spec_find_row, count_key, lemma_unique_count, language_codes,
};
use crate::fanout::{
    LanguageOutcome, spec_targets, spec_planned_row, spec_apply_outcomes, lemma_apply_outcomes,
    lemma_targets_sound,
};
use crate::projector::{
    spec_project_post, spec_project_event, spec_translated, spec_ceil_div, spec_page_start,
    spec_page_end,
};

verus! {

/// Idempotent upsert: however often the fan-out runs for the same content
/// item and target languages, each target whose latest run translated the
/// title holds exactly one translation row, and that row carries the latest
/// run's timestamp.  Shown here for two consecutive runs.
pub proof fn lemma_fan_out_idempotent(
    rows: Seq<TranslationRow>,
    content_id: i32,
    targets: Seq<Language>,
    first: Seq<LanguageOutcome>,
    second: Seq<LanguageOutcome>,
    now1: i64,
    now2: i64,
)
    requires
        rows_unique(rows),
        first.len() == targets.len(),
        second.len() == targets.len(),
        forall|i: int, j: int|
            0 <= i < j < targets.len() ==> (#[trigger] targets[i]).code@ != (
            #[trigger] targets[j]).code@,
    ensures
        forall|j: int|
            0 <= j < targets.len() && (#[trigger] second[j]).title is Ok ==> {
                let after = spec_apply_outcomes(
                    spec_apply_outcomes(rows, content_id, targets, first, now1),
                    content_id,
                    targets,
                    second,
                    now2,
                );
                let row = spec_planned_row(content_id, targets[j], second[j], now2)->Some_0;
                &&& spec_find_row(after, content_id as int, targets[j].code@) == Some(row)
                &&& count_key(after, content_id as int, targets[j].code@) == 1
                &&& row.translated_at == now2
            },
{
    let mid = spec_apply_outcomes(rows, content_id, targets, first, now1);
    lemma_apply_outcomes(rows, content_id, targets, first, now1);
    lemma_apply_outcomes(mid, content_id, targets, second, now2);
    let after = spec_apply_outcomes(mid, content_id, targets, second, now2);
    assert forall|j: int| 0 <= j < targets.len() && (#[trigger] second[j]).title is Ok implies {
        let row = spec_planned_row(content_id, targets[j], second[j], now2)->Some_0;
        &&& spec_find_row(after, content_id as int, targets[j].code@) == Some(row)
        &&& count_key(after, content_id as int, targets[j].code@) == 1
        &&& row.translated_at == now2
    } by {
        lemma_unique_count(after, content_id as int, targets[j].code@);
    }
}

/// Exclusion of the source language: the targets never include the item's
/// original language, so a fan-out run leaves the original language's row
/// lookup — present or absent — exactly as it was.
pub proof fn lemma_fan_out_excludes_source(
    rows: Seq<TranslationRow>,
    content_id: i32,
    langs: Seq<Language>,
    original: Seq<char>,
    outcomes: Seq<LanguageOutcome>,
    now: i64,
)
    requires
        rows_unique(rows),
        forall|i: int, j: int|
            0 <= i < j < langs.len() ==> (#[trigger] langs[i]).code@ != (#[trigger] langs[j]).code@,
        outcomes.len() == spec_targets(langs, original).len(),
    ensures
        !language_codes(spec_targets(langs, original)).contains(original),
        spec_find_row(
            spec_apply_outcomes(
                rows,
                content_id,
                spec_targets(langs, original),
                outcomes,
                now,
            ),
            content_id as int,
            original,
        ) == spec_find_row(rows, content_id as int, original),
{
    lemma_targets_sound(langs, original);
    let targets = spec_targets(langs, original);
    assert(!language_codes(targets).contains(original)) by {
        if language_codes(targets).contains(original) {
            let m = choose|m: int|
                0 <= m < language_codes(targets).len() && language_codes(targets)[m] == original;
            assert(targets[m].code@ == original);
        }
    }
    lemma_apply_outcomes(rows, content_id, targets, outcomes, now);
}

/// Partial failure isolation: within one run, a target whose title failed
/// keeps whatever row it had — none, or a stale one — while any target whose
/// title translated holds exactly its planned row; no failure aborts the
/// rest.
pub proof fn lemma_partial_failure_isolated(
    rows: Seq<TranslationRow>,
    content_id: i32,
    targets: Seq<Language>,
    outcomes: Seq<LanguageOutcome>,
    now: i64,
    j_ok: int,
    j_err: int,
)
    requires
        rows_unique(rows),
        outcomes.len() == targets.len(),
        forall|i: int, j: int|
            0 <= i < j < targets.len() ==> (#[trigger] targets[i]).code@ != (
            #[trigger] targets[j]).code@,
        0 <= j_ok < targets.len(),
        outcomes[j_ok].title is Ok,
        0 <= j_err < targets.len(),
        outcomes[j_err].title is Err,
    ensures
        spec_find_row(
            spec_apply_outcomes(rows, content_id, targets, outcomes, now),
            content_id as int,
            targets[j_ok].code@,
        ) == Some(spec_planned_row(content_id, targets[j_ok], outcomes[j_ok], now)->Some_0),
        spec_find_row(
            spec_apply_outcomes(rows, content_id, targets, outcomes, now),
            content_id as int,
            targets[j_err].code@,
        ) == spec_find_row(rows, content_id as int, targets[j_err].code@),
{
    lemma_apply_outcomes(rows, content_id, targets, outcomes, now);
}

/// Requesting an item's original language never reports it translated,
/// whatever translation row may exist for that language.
pub proof fn lemma_original_language_not_translated(
    p: Post,
    e: Event,
    row: Option<TranslationRow>,
)
    ensures
        !spec_project_post(p, row, p.original_language@).is_translated,
        !spec_project_event(e, row, e.original_language@).is_translated,
        spec_project_post(p, row, p.original_language@).title == p.title,
        spec_project_event(e, row, e.original_language@).title == e.title,
{
}

/// Fallback projection: with no translation row for the requested language,
/// a reader sees the original title, body and direction, not translated.
pub proof fn lemma_fallback_projection(p: Post, lang: Seq<char>)
    ensures
        spec_project_post(p, None, lang).title == p.title,
        spec_project_post(p, None, lang).content == p.content,
        spec_project_post(p, None, lang).text_direction == p.text_direction,
        !spec_project_post(p, None, lang).is_translated,
{
}

/// Translated projection: with a row for a requested language that differs
/// from the original one, a reader sees the row's title and stored direction,
/// reported as translated, the original fields still carried alongside.
pub proof fn lemma_translated_projection(p: Post, row: TranslationRow, lang: Seq<char>)
    requires
        p.original_language@ != lang,
    ensures
        spec_project_post(p, Some(row), lang).title == row.title,
        spec_project_post(p, Some(row), lang).text_direction == row.text_direction,
        spec_project_post(p, Some(row), lang).is_translated,
        spec_project_post(p, Some(row), lang).original_title == p.title,
        spec_project_post(p, Some(row), lang).original_language == p.original_language,
{
}

/// Pagination math: a page holds `limit` items while the listing lasts and
/// the remainder on the final page; the page count covers the whole listing
/// with no empty trailing page.
pub proof fn lemma_pagination_math(total: int, page: int, limit: int)
    requires
        1 <= page,
        1 <= limit,
        0 <= total,
    ensures
        spec_page_end(total, page, limit) - spec_page_start(total, page, limit) == if (page - 1)
            * limit >= total {
            0
        } else if (page - 1) * limit + limit <= total {
            limit
        } else {
            total - (page - 1) * limit
        },
        spec_ceil_div(total, limit) * limit >= total,
        total > 0 ==> (spec_ceil_div(total, limit) - 1) * limit < total,
{
    if total > 0 {
        let q = (total - 1) / limit;
        let r = (total - 1) % limit;
        lemma_fundamental_div_mod(total - 1, limit);
        assert(total - 1 == limit * q + r);
        assert(spec_ceil_div(total, limit) == q + 1);
        assert((q + 1) * limit == limit * q + limit) by (nonlinear_arith);
        assert(q * limit == limit * q) by (nonlinear_arith);
    }
}

} // verus!
