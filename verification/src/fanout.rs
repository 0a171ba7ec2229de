//! The fan-out orchestrator.
//!
//! On publish, a content item is translated into every enabled language other
//! than its own.  The remote calls happen outside this crate; what they came
//! back with for one language — the title's translation or failure, and the
//! body's when the item has a body — is a [`LanguageOutcome`], and the
//! orchestrator folds the outcomes into the translation table: a failed title
//! skips the language and touches nothing, a translated title upserts the one
//! row for (content id, language code).  The stored direction is the target
//! language's configured direction — a deliberate policy, documented here
//! rather than classified from the translated text.
//!
//! No outcome aborts the run, and languages whose calls failed are simply
//! absent (or stale) in the table until a later run: at-least-once delivery is
//! not promised, at-most-one-row-per-language is.

use vstd::prelude::*;
use crate::gateway::{TranslationResult, GatewayError};
use crate::model::{Language, TranslationRow, ContentKind};
use crate::store::{
    ContentStore, spec_find_row, spec_upsert, rows_unique, lemma_spec_upsert, spec_find_post,
    spec_find_event, language_codes, same_except_translations,
};
use crate::direction::str_eq;

verus! {

/// What one target language's remote calls came back with: the title's
/// translation or failure, and the body's where the item has a body (`None`
/// when no body call was made).
pub struct LanguageOutcome {
    pub title: Result<TranslationResult, GatewayError>,
    pub body: Option<Result<TranslationResult, GatewayError>>,
}

/// The row the fan-out stores for one language, if any: none when the title's
/// translation failed; otherwise the translated title, the translated body
/// where that call was made and succeeded, the target language's configured
/// direction, and the run's timestamp.
pub open spec fn spec_planned_row(
    content_id: i32,
    lang: Language,
    outcome: LanguageOutcome,
    now: i64,
) -> Option<TranslationRow> {
    match outcome.title {
        Result::Err(_) => None,
        Result::Ok(tr) => Some(
            TranslationRow {
                content_id,
                language_code: lang.code,
                title: tr.translated_text,
                body: match outcome.body {
                    Some(Result::Ok(br)) => Some(br.translated_text),
                    _ => None,
                },
                text_direction: lang.text_direction,
                translated_at: now,
            },
        ),
    }
}

/// Decides what one language's outcome stores, per [`spec_planned_row`].
pub fn plan_language_upsert(
    content_id: i32,
    lang: &Language,
    outcome: &LanguageOutcome,
    now: i64,
) -> (r: Option<TranslationRow>)
    ensures
        r == spec_planned_row(content_id, *lang, *outcome, now),
{
    match &outcome.title {
        Err(_) => None,
        Ok(tr) => {
            let body: Option<String> = match &outcome.body {
                Some(Ok(br)) => Some(br.translated_text.clone()),
                _ => None,
            };
            Some(
                TranslationRow {
                    content_id,
                    language_code: lang.code.clone(),
                    title: tr.translated_text.clone(),
                    body,
                    text_direction: lang.text_direction.clone(),
                    translated_at: now,
                },
            )
        },
    }
}

/// The fan-out's target languages: the enabled ones whose code differs from
/// the item's original language, in configuration order.
pub open spec fn spec_targets(langs: Seq<Language>, original: Seq<char>) -> Seq<Language> {
    langs.filter(|l: Language| l.enabled && l.code@ != original)
}

/// Computes the target languages of a fan-out run.
pub fn fan_out_targets(languages: &Vec<Language>, original_language: &str) -> (r: Vec<Language>)
    ensures
        r@ == spec_targets(languages@, original_language@),
{
    let mut r: Vec<Language> = Vec::new();
    let n: usize = languages.len();
    let mut i: usize = 0;
    proof {
        reveal(Seq::filter);
        assert(languages@.subrange(0, 0).len() == 0);
    }
    while i < n
        invariant
            n == languages@.len(),
            0 <= i <= n,
            r@ == spec_targets(languages@.subrange(0, i as int), original_language@),
        decreases n - i,
    {
        if languages[i].enabled && !str_eq(languages[i].code.as_str(), original_language) {
            r.push(crate::model::copy_language(&languages[i]));
        }
        proof {
            reveal(Seq::filter);
            let pre = languages@.subrange(0, i as int);
            let cur = languages@.subrange(0, i + 1);
            assert(cur.drop_last() =~= pre);
            assert(cur.last() == languages@[i as int]);
            assert(spec_targets(cur, original_language@) == if languages@[i as int].enabled
                && languages@[i as int].code@ != original_language@ {
                spec_targets(pre, original_language@).push(languages@[i as int])
            } else {
                spec_targets(pre, original_language@)
            });
        }
        i = i + 1;
    }
    proof {
        assert(languages@.subrange(0, n as int) =~= languages@);
    }
    r
}

/// The targets never include the source language, their codes are unique
/// whenever the configured languages' codes are, and each target is one of
/// the configured languages.
pub proof fn lemma_targets_sound(langs: Seq<Language>, original: Seq<char>)
    requires
        forall|i: int, j: int|
            0 <= i < j < langs.len() ==> (#[trigger] langs[i]).code@ != (#[trigger] langs[j]).code@,
    ensures
        forall|k: int|
            0 <= k < spec_targets(langs, original).len() ==> (#[trigger] spec_targets(
                langs,
                original,
            )[k]).enabled && spec_targets(langs, original)[k].code@ != original,
        forall|i: int, j: int|
            0 <= i < j < spec_targets(langs, original).len() ==> (#[trigger] spec_targets(
                langs,
                original,
            )[i]).code@ != (#[trigger] spec_targets(langs, original)[j]).code@,
        forall|k: int|
            0 <= k < spec_targets(langs, original).len() ==> exists|m: int|
                0 <= m < langs.len() && langs[m] == #[trigger] spec_targets(langs, original)[k],
    decreases langs.len(),
{
    reveal(Seq::filter);
    let t = spec_targets(langs, original);
    if langs.len() > 0 {
        let pre = langs.drop_last();
        assert forall|i: int, j: int| 0 <= i < j < pre.len() implies (#[trigger] pre[i]).code@ != (
        #[trigger] pre[j]).code@ by {
            assert(pre[i] == langs[i]);
            assert(pre[j] == langs[j]);
        }
        lemma_targets_sound(pre, original);
        let tp = spec_targets(pre, original);
        let last = langs.last();
        assert(t == if last.enabled && last.code@ != original {
            tp.push(last)
        } else {
            tp
        });
        assert forall|k: int| 0 <= k < t.len() implies (#[trigger] t[k]).enabled && t[k].code@
            != original by {
            if k < tp.len() {
                assert(t[k] == tp[k]);
            } else {
                assert(t[k] == last);
            }
        }
        assert forall|k: int| 0 <= k < t.len() implies exists|m: int|
            0 <= m < langs.len() && langs[m] == #[trigger] t[k] by {
            if k < tp.len() {
                assert(t[k] == tp[k]);
                let m = choose|m: int| 0 <= m < pre.len() && pre[m] == tp[k];
                assert(langs[m] == t[k]);
            } else {
                assert(t[k] == last);
                assert(langs[langs.len() - 1] == t[k]);
            }
        }
        assert forall|i: int, j: int| 0 <= i < j < t.len() implies (#[trigger] t[i]).code@ != (
        #[trigger] t[j]).code@ by {
            if j < tp.len() {
                assert(t[i] == tp[i]);
                assert(t[j] == tp[j]);
            } else {
                assert(t[j] == last);
                assert(t[i] == tp[i]);
                let m = choose|m: int| 0 <= m < pre.len() && pre[m] == tp[i];
                assert(langs[m] == tp[i]);
                assert(langs[m].code@ != langs[langs.len() - 1].code@);
            }
        }
    }
}

/// The translation table after one fan-out run: each target language's
/// outcome applied in order, a planned row upserted, a failed title skipped.
pub open spec fn spec_apply_outcomes(
    rows: Seq<TranslationRow>,
    content_id: i32,
    targets: Seq<Language>,
    outcomes: Seq<LanguageOutcome>,
    now: i64,
) -> Seq<TranslationRow>
    decreases targets.len(),
{
    if targets.len() == 0 || outcomes.len() == 0 {
        rows
    } else {
        let rows1 = match spec_planned_row(content_id, targets[0], outcomes[0], now) {
            Some(row) => spec_upsert(rows, row),
            None => rows,
        };
        spec_apply_outcomes(rows1, content_id, targets.drop_first(), outcomes.drop_first(), now)
    }
}

/// What one fan-out run guarantees, language by language: the uniqueness
/// invariant survives; a target whose title translated has exactly the
/// planned row as its lookup result, one whose title failed keeps whatever
/// row it had; and every key outside the run — other content, other
/// languages, the source language among them — is untouched.
pub proof fn lemma_apply_outcomes(
    rows: Seq<TranslationRow>,
    content_id: i32,
    targets: Seq<Language>,
    outcomes: Seq<LanguageOutcome>,
    now: i64,
)
    requires
        rows_unique(rows),
        outcomes.len() == targets.len(),
        forall|i: int, j: int|
            0 <= i < j < targets.len() ==> (#[trigger] targets[i]).code@ != (
            #[trigger] targets[j]).code@,
    ensures
        rows_unique(spec_apply_outcomes(rows, content_id, targets, outcomes, now)),
        forall|j: int|
            0 <= j < targets.len() ==> spec_find_row(
                spec_apply_outcomes(rows, content_id, targets, outcomes, now),
                content_id as int,
                (#[trigger] targets[j]).code@,
            ) == match spec_planned_row(content_id, targets[j], outcomes[j], now) {
                Some(row) => Some(row),
                None => spec_find_row(rows, content_id as int, targets[j].code@),
            },
        forall|id2: int, code2: Seq<char>|
            (id2 != content_id as int || !language_codes(targets).contains(code2)) ==> spec_find_row(
                spec_apply_outcomes(rows, content_id, targets, outcomes, now),
                id2,
                code2,
            ) == spec_find_row(rows, id2, code2),
    decreases targets.len(),
{
    if targets.len() > 0 {
        let out = spec_apply_outcomes(rows, content_id, targets, outcomes, now);
        let planned0 = spec_planned_row(content_id, targets[0], outcomes[0], now);
        let rows1 = match planned0 {
            Some(row) => spec_upsert(rows, row),
            None => rows,
        };
        match planned0 {
            Some(row) => {
                lemma_spec_upsert(rows, row);
                assert(row.content_id == content_id);
                assert(row.language_code@ == targets[0].code@);
            },
            None => {},
        }
        let tr = targets.drop_first();
        let or = outcomes.drop_first();
        assert forall|i: int, j: int| 0 <= i < j < tr.len() implies (#[trigger] tr[i]).code@ != (
        #[trigger] tr[j]).code@ by {
            assert(tr[i] == targets[i + 1]);
            assert(tr[j] == targets[j + 1]);
        }
        lemma_apply_outcomes(rows1, content_id, tr, or, now);
        assert(out == spec_apply_outcomes(rows1, content_id, tr, or, now));
        // the first target's code is none of the later targets' codes
        assert forall|j: int| 0 <= j < targets.len() implies spec_find_row(
            out,
            content_id as int,
            (#[trigger] targets[j]).code@,
        ) == match spec_planned_row(content_id, targets[j], outcomes[j], now) {
            Some(row) => Some(row),
            None => spec_find_row(rows, content_id as int, targets[j].code@),
        } by {
            if j == 0 {
                // later steps never touch (content_id, targets[0].code@)
                assert(!language_codes(tr).contains(targets[0].code@)) by {
                    if language_codes(tr).contains(targets[0].code@) {
                        let m = choose|m: int|
                            0 <= m < language_codes(tr).len() && language_codes(tr)[m]
                                == targets[0].code@;
                        assert(tr[m] == targets[m + 1]);
                        assert(targets[m + 1].code@ == targets[0].code@);
                    }
                }
            } else {
                assert(tr[j - 1] == targets[j]);
                assert(or[j - 1] == outcomes[j]);
                // the first step leaves (content_id, targets[j].code@) alone
                assert(targets[0].code@ != targets[j].code@);
            }
        }
        assert forall|id2: int, code2: Seq<char>|
            (id2 != content_id as int || !language_codes(targets).contains(code2)) implies
            spec_find_row(out, id2, code2) == spec_find_row(rows, id2, code2) by {
            assert(!language_codes(tr).contains(code2) || id2 != content_id as int) by {
                if language_codes(tr).contains(code2) && id2 == content_id as int {
                    let m = choose|m: int|
                        0 <= m < language_codes(tr).len() && language_codes(tr)[m] == code2;
                    assert(tr[m] == targets[m + 1]);
                    assert(language_codes(targets)[m + 1] == code2);
                    assert(language_codes(targets).contains(code2));
                }
            }
            if id2 == content_id as int {
                assert(language_codes(targets)[0] == targets[0].code@);
                assert(code2 != targets[0].code@);
            }
        }
    }
}

/// The item's original language, when the store holds the item.
pub open spec fn spec_content_language(
    store: ContentStore,
    kind: ContentKind,
    id: int,
) -> Option<Seq<char>> {
    match kind {
        ContentKind::Post => match spec_find_post(store.posts@, id) {
            Some(p) => Some(p.original_language@),
            None => None,
        },
        ContentKind::Event => match spec_find_event(store.events@, id) {
            Some(e) => Some(e.original_language@),
            None => None,
        },
    }
}

/// One fan-out run over a content item: loads the item — an id the store no
/// longer holds is a silent no-op — computes the target languages, and folds
/// each language's outcome into the item's translation table.  One outcome is
/// consumed per target, in order; nothing else in the store changes, and no
/// outcome, however failed, aborts the run.
pub fn fan_out_translations(
    store: &mut ContentStore,
    kind: ContentKind,
    content_id: i32,
    outcomes: &Vec<LanguageOutcome>,
    now: i64,
)
    requires
        old(store).wf(),
        spec_content_language(*old(store), kind, content_id as int) is Some ==> outcomes@.len()
            == spec_targets(
            old(store).languages@,
            spec_content_language(*old(store), kind, content_id as int)->Some_0,
        ).len(),
    ensures
        final(store).wf(),
        same_except_translations(*old(store), *final(store)),
        spec_content_language(*old(store), kind, content_id as int) is None ==> *final(store)
            == *old(store),
        spec_content_language(*old(store), kind, content_id as int) is Some ==> {
            let original = spec_content_language(*old(store), kind, content_id as int)->Some_0;
            let targets = spec_targets(old(store).languages@, original);
            &&& final(store).spec_table(kind) == spec_apply_outcomes(
                old(store).spec_table(kind),
                content_id,
                targets,
                outcomes@,
                now,
            )
            &&& (kind == ContentKind::Post ==> final(store).event_translations == old(
                store,
            ).event_translations)
            &&& (kind == ContentKind::Event ==> final(store).post_translations == old(
                store,
            ).post_translations)
        },
{
    let original: String = match kind {
        ContentKind::Post => {
            match store.get_post(content_id) {
                Some(p) => p.original_language.clone(),
                None => {
                    return;
                },
            }
        },
        ContentKind::Event => {
            match store.get_event(content_id) {
                Some(e) => e.original_language.clone(),
                None => {
                    return;
                },
            }
        },
    };
    let targets = fan_out_targets(&store.languages, original.as_str());
    let ghost gtargets = targets@;
    let ghost table0 = store.spec_table(kind);
    let ghost orig_store = *store;
    let n: usize = targets.len();
    let mut i: usize = 0;
    proof {
        assert(gtargets.subrange(0, gtargets.len() as int) =~= gtargets);
        assert(outcomes@.subrange(0, outcomes@.len() as int) =~= outcomes@);
    }
    while i < n
        invariant
            store.wf(),
            orig_store == *old(store),
            orig_store.wf(),
            same_except_translations(orig_store, *store),
            kind == ContentKind::Post ==> store.event_translations
                == orig_store.event_translations,
            kind == ContentKind::Event ==> store.post_translations
                == orig_store.post_translations,
            table0 == orig_store.spec_table(kind),
            n == gtargets.len(),
            gtargets == targets@,
            outcomes@.len() == n,
            0 <= i <= n,
            spec_apply_outcomes(table0, content_id, gtargets, outcomes@, now)
                == spec_apply_outcomes(
                store.spec_table(kind),
                content_id,
                gtargets.skip(i as int),
                outcomes@.skip(i as int),
                now,
            ),
        decreases n - i,
    {
        let ghost table_pre = store.spec_table(kind);
        match plan_language_upsert(content_id, &targets[i], &outcomes[i], now) {
            Some(row) => {
                store.upsert_translation(kind, row);
            },
            None => {},
        }
        proof {
            let ts = gtargets.skip(i as int);
            let os = outcomes@.skip(i as int);
            assert(ts[0] == gtargets[i as int]);
            assert(os[0] == outcomes@[i as int]);
            assert(ts.drop_first() =~= gtargets.skip(i + 1));
            assert(os.drop_first() =~= outcomes@.skip(i + 1));
            assert(spec_apply_outcomes(table_pre, content_id, ts, os, now)
                == spec_apply_outcomes(
                store.spec_table(kind),
                content_id,
                gtargets.skip(i + 1),
                outcomes@.skip(i + 1),
                now,
            ));
        }
        i = i + 1;
    }
    proof {
        assert(gtargets.skip(n as int).len() == 0);
        assert(spec_apply_outcomes(
            store.spec_table(kind),
            content_id,
            gtargets.skip(n as int),
            outcomes@.skip(n as int),
            now,
        ) == store.spec_table(kind));
    }
}

} // verus!
