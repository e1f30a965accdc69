//! The effect interpreter: run one decided effect against the storage
//! handle and say what the process edge should report. The one effect it
//! cannot finish — invoking the external analysis capability — comes
//! back as a request; the caller performs the call and hands the result
//! to `RealAethelStorage::update_reflection_analysis`.

use vstd::prelude::*;

use crate::checklist::{
    checklist_doc, checklist_items_of, checklist_merged_doc, default_items_model, has_item,
    toggled_items, ChecklistData,
};
use crate::ids::DocId;
use crate::reducer::Effect;
use crate::session::{
    archived_doc, minutes_between, reflection_doc, session_doc, session_merged_doc, Session,
    SessionModel,
};
use crate::storage::RealAethelStorage;
use crate::store::{
    count_matching, doc_of, idx_of, scan_active, scan_checklist_id, session_pred, vault_contains,
};
use crate::text::{chars_vec, lower_of, lowercase, string_from_chars, u64_dec, u64_dec_vec};
use crate::StoreError;

verus! {

/// Spaces become dashes; everything else stays.
pub open spec fn dash_spaces(s: Seq<char>) -> Seq<char> {
    s.map_values(
        |c: char|
            if c == ' ' {
                '-'
            } else {
                c
            },
    )
}

/// Lowercase a goal and replace spaces with dashes, for use in a
/// filename.
pub fn sanitize_goal_for_filename(goal: &str) -> (r: String)
    ensures
        r@ == dash_spaces(lower_of(goal@)),
{
    let low = lowercase(goal);
    let n: usize = low.as_str().unicode_len();
    let mut out: Vec<char> = Vec::new();
    let mut i: usize = 0;
    while i < n
        invariant
            n == low@.len(),
            0 <= i <= n,
            low@ == lower_of(goal@),
            out@ == dash_spaces(low@.subrange(0, i as int)),
        decreases n - i,
    {
        let c = low.as_str().get_char(i);
        let mapped: char = if c == ' ' {
            '-'
        } else {
            c
        };
        out.push(mapped);
        proof {
            assert(dash_spaces(low@.subrange(0, i as int)).len() == i);
            assert(out@ =~= dash_spaces(low@.subrange(0, i + 1)));
        }
        i = i + 1;
    }
    proof {
        assert(low@.subrange(0, n as int) =~= low@);
    }
    string_from_chars(&out)
}

/// The body a reflection document starts with.
pub open spec fn reflection_body_model(s: SessionModel, now: u64) -> Seq<char> {
    "# Reflection\n\nGoal: "@ + s.goal + "\n\nTime expected (minutes): "@ + u64_dec(
        s.time_expected,
    ) + "\nTime taken (minutes): "@ + u64_dec(minutes_between(s.start_time, now))
        + "\n\n## Notes\n\n"@
}

/// Build a reflection body.
pub fn reflection_body(session: &Session, now: u64) -> (r: String)
    requires
        session.start_time <= now,
    ensures
        r@ == reflection_body_model(session.model(), now),
{
    let mut chars: Vec<char> = chars_vec("# Reflection\n\nGoal: ");
    let mut goal_chars = chars_vec(session.goal.as_str());
    let mut expect_label = chars_vec("\n\nTime expected (minutes): ");
    let mut expect_digits = u64_dec_vec(session.time_expected);
    let mut taken_label = chars_vec("\nTime taken (minutes): ");
    let taken: u64 = (now - session.start_time) / 60;
    let mut taken_digits = u64_dec_vec(taken);
    let mut trailer = chars_vec("\n\n## Notes\n\n");
    chars.append(&mut goal_chars);
    chars.append(&mut expect_label);
    chars.append(&mut expect_digits);
    chars.append(&mut taken_label);
    chars.append(&mut taken_digits);
    chars.append(&mut trailer);
    proof {
        assert(chars@ =~= reflection_body_model(session.model(), now));
    }
    string_from_chars(&chars)
}

/// What the process edge should report after one effect.
pub enum Outcome {
    /// The session document was written; `duplicates` warns that more
    /// than one non-archived session document now exists — a
    /// data-integrity anomaly to surface, not to resolve silently.
    SessionSaved { id: DocId, duplicates: bool },
    /// A reflection was written and the prior session document, if any,
    /// archived.
    ReflectionCreated { reflection: DocId, archived: Option<DocId> },
    /// The caller must run the external analysis capability on this
    /// reflection and merge the result back in.
    NeedsAnalysis { path: String },
    /// A reducer-level error to print; the state is untouched.
    ErrorMessage { message: String },
    /// The checklist snapshot; `not_found` reports a toggle that named
    /// an id no item carries, beside the unchanged snapshot.
    ChecklistReport { id: DocId, data: ChecklistData, not_found: Option<StoreError> },
}

/// How the storage handle a checklist resolve leaves things relates to
/// the one before it (the shape `get_or_create_checklist` promises).
pub open spec fn checklist_resolved(
    pre: RealAethelStorage,
    post: RealAethelStorage,
    id: DocId,
    items: Seq<(Seq<char>, Seq<char>, bool)>,
) -> bool {
    match scan_checklist_id(pre.vault.model()) {
        Some(existing) => id == existing && post.vault == pre.vault && checklist_items_of(
            doc_of(pre.vault.model(), existing).fm,
        ) == Some(items),
        None => !vault_contains(pre.vault.model(), id) && post.vault.model()
            == pre.vault.model().push(checklist_doc(id, default_items_model()))
            && post.vault.stamp == pre.vault.stamp + 1 && items == default_items_model(),
    }
}

/// The errors a checklist resolve can end in, and when.
pub open spec fn checklist_resolve_err(
    pre: RealAethelStorage,
    post: RealAethelStorage,
    e: StoreError,
) -> bool {
    match e {
        StoreError::MissingField { field } => field@ == "items"@ && post.vault == pre.vault
            && match scan_checklist_id(pre.vault.model()) {
            Some(existing) => checklist_items_of(
                doc_of(pre.vault.model(), existing).fm,
            ) is None,
            None => false,
        },
        StoreError::IdCollision => scan_checklist_id(pre.vault.model()) is None
            && pre.vault.model().len() > 0 && post.vault == pre.vault,
        _ => false,
    }
}

/// How many writes resolving the checklist performs: one when the
/// bootstrap creates it, none when it already exists.
pub open spec fn bootstrap_writes(pre: Seq<crate::doc::DocModel>) -> int {
    if scan_checklist_id(pre) is Some {
        0int
    } else {
        1int
    }
}

/// The vault a checklist resolve leaves, as a model.
pub open spec fn resolved_vault(pre: Seq<crate::doc::DocModel>, id: DocId) -> Seq<
    crate::doc::DocModel,
> {
    match scan_checklist_id(pre) {
        Some(_) => pre,
        None => pre.push(checklist_doc(id, default_items_model())),
    }
}

/// The full meaning of one `execute` call, effect by effect.
pub open spec fn execute_spec(
    pre: RealAethelStorage,
    effect: Effect,
    now: u64,
    post: RealAethelStorage,
    r: Result<Outcome, StoreError>,
) -> bool {
    match effect {
        Effect::CreateSession { session } => match r {
            Ok(o) => match o {
                Outcome::SessionSaved { id, duplicates } => {
                    &&& post.vault.stamp == pre.vault.stamp + 1
                    &&& match scan_active(pre.vault.model()) {
                        Some(active) => id == active && post.vault.model()
                            == pre.vault.model().update(
                            idx_of(pre.vault.model(), active),
                            session_merged_doc(
                                doc_of(pre.vault.model(), active),
                                session.model(),
                            ),
                        ),
                        None => !vault_contains(pre.vault.model(), id) && post.vault.model()
                            == pre.vault.model().push(session_doc(id, session.model())),
                    }
                    &&& duplicates == (count_matching(post.vault.model(), session_pred()) > 1)
                },
                _ => false,
            },
            Err(e) => e is IdCollision && scan_active(pre.vault.model()) is None
                && pre.vault.model().len() > 0 && post.vault == pre.vault,
        },
        Effect::CreateReflection { session } => match r {
            Ok(o) => match o {
                Outcome::ReflectionCreated { reflection, archived } => {
                    let v1 = pre.vault.model().push(
                        reflection_doc(
                            reflection,
                            session.model(),
                            now,
                            reflection_body_model(session.model(), now),
                        ),
                    );
                    &&& !vault_contains(pre.vault.model(), reflection)
                    &&& match scan_active(pre.vault.model()) {
                        Some(sid) => archived == Some(sid) && post.vault.model() == v1.update(
                            idx_of(v1, sid),
                            archived_doc(doc_of(v1, sid)),
                        ) && post.index is None,
                        None => archived is None && post.vault.model() == v1,
                    }
                },
                _ => false,
            },
            Err(e) => e is IdCollision && pre.vault.model().len() > 0 && post.vault == pre.vault,
        },
        Effect::AnalyzeReflection { path } => match r {
            Ok(o) => match o {
                Outcome::NeedsAnalysis { path: p } => p == path && post == pre,
                _ => false,
            },
            Err(_) => false,
        },
        Effect::PrintError { message } => match r {
            Ok(o) => match o {
                Outcome::ErrorMessage { message: m } => m == message && post == pre,
                _ => false,
            },
            Err(_) => false,
        },
        Effect::LoadAndPrintChecklist => match r {
            Ok(o) => match o {
                Outcome::ChecklistReport { id, data, not_found } => not_found is None
                    && checklist_resolved(pre, post, id, data.model()),
                _ => false,
            },
            Err(e) => checklist_resolve_err(pre, post, e),
        },
        Effect::ToggleChecklistItem { id } => match r {
            Ok(o) => match o {
                Outcome::ChecklistReport { id: cid, data, not_found } => {
                    let v1 = resolved_vault(pre.vault.model(), cid);
                    &&& match scan_checklist_id(pre.vault.model()) {
                        Some(existing) => cid == existing,
                        None => !vault_contains(pre.vault.model(), cid),
                    }
                    &&& checklist_items_of(doc_of(v1, cid).fm) is Some
                    &&& {
                        let items0 = checklist_items_of(doc_of(v1, cid).fm)->0;
                        match not_found {
                            Some(e) => {
                                &&& e matches StoreError::ChecklistItemNotFound {
                                    id: missing,
                                } && missing@ == id@
                                &&& !has_item(items0, id@)
                                &&& data.model() == items0
                                &&& post.vault.model() == v1
                                &&& post.vault.stamp as int == pre.vault.stamp as int
                                    + bootstrap_writes(pre.vault.model())
                            },
                            None => {
                                &&& has_item(items0, id@)
                                &&& data.model() == toggled_items(items0, id@)
                                &&& post.vault.model() == v1.update(
                                    idx_of(v1, cid),
                                    checklist_merged_doc(doc_of(v1, cid), data.model()),
                                )
                                &&& post.vault.stamp as int == pre.vault.stamp as int
                                    + bootstrap_writes(pre.vault.model()) + 1
                            },
                        }
                    }
                },
                _ => false,
            },
            Err(e) => checklist_resolve_err(pre, post, e),
        },
    }
}

/// Write the session for a `CreateSession` effect and report the
/// duplicate-session anomaly check.
fn run_create_session(storage: &mut RealAethelStorage, session: Session) -> (r: Result<
    Outcome,
    StoreError,
>)
    requires
        old(storage).wf(),
        old(storage).vault.stamp < u64::MAX,
    ensures
        final(storage).wf(),
        match r {
            Ok(o) => match o {
                Outcome::SessionSaved { id, duplicates } => {
                    &&& final(storage).vault.stamp == old(storage).vault.stamp + 1
                    &&& match scan_active(old(storage).vault.model()) {
                        Some(active) => id == active && final(storage).vault.model() == old(storage).vault.model().update(
                            idx_of(old(storage).vault.model(), active),
                            session_merged_doc(
                                doc_of(old(storage).vault.model(), active),
                                session.model(),
                            ),
                        ),
                        None => !vault_contains(old(storage).vault.model(), id) && final(storage).vault.model() == old(storage).vault.model().push(
                            session_doc(id, session.model()),
                        ),
                    }
                    &&& duplicates == (count_matching(final(storage).vault.model(), session_pred())
                        > 1)
                },
                _ => false,
            },
            Err(e) => e is IdCollision && scan_active(old(storage).vault.model()) is None && old(storage).vault.model().len() > 0 && final(storage).vault == old(storage).vault,
        },
{
    let res = storage.save_session(&session);
    match res {
        Ok(id) => {
            let count = storage.vault.count_active_sessions();
            Ok(Outcome::SessionSaved { id, duplicates: count > 1 })
        },
        Err(e) => Err(e),
    }
}

/// Write the reflection for a `CreateReflection` effect and archive the
/// prior session document, if one exists.
fn run_create_reflection(storage: &mut RealAethelStorage, session: Session, now: u64) -> (r:
    Result<Outcome, StoreError>)
    requires
        old(storage).wf(),
        old(storage).vault.stamp + 1 < u64::MAX,
        session.start_time <= now,
    ensures
        final(storage).wf(),
        match r {
            Ok(o) => match o {
                Outcome::ReflectionCreated { reflection, archived } => {
                    let v1 = old(storage).vault.model().push(
                        reflection_doc(
                            reflection,
                            session.model(),
                            now,
                            reflection_body_model(session.model(), now),
                        ),
                    );
                    &&& !vault_contains(old(storage).vault.model(), reflection)
                    &&& match scan_active(old(storage).vault.model()) {
                        Some(sid) => archived == Some(sid) && final(storage).vault.model()
                            == v1.update(idx_of(v1, sid), archived_doc(doc_of(v1, sid))) && final(storage).index is None,
                        None => archived is None && final(storage).vault.model() == v1,
                    }
                },
                _ => false,
            },
            Err(e) => e is IdCollision && old(storage).vault.model().len() > 0 && final(storage).vault == old(storage).vault,
        },
{
    let body = reflection_body(&session, now);
    let res = storage.create_reflection(&session, body, now);
    match res {
        Ok(reflection) => {
            let ghost v1 = storage.vault.model();
            proof {
                crate::session::lemma_reflection_doc_unindexed(
                    reflection,
                    session.model(),
                    now,
                    reflection_body_model(session.model(), now),
                );
                crate::store::lemma_scan_push_nonmatching(
                    old(storage).vault.model(),
                    session_pred(),
                    reflection_doc(
                        reflection,
                        session.model(),
                        now,
                        reflection_body_model(session.model(), now),
                    ),
                );
            }
            let prior = storage.find_active_session();
            match prior {
                Some(sid) => {
                    proof {
                        crate::store::lemma_scan_min_char(v1, session_pred());
                    }
                    match storage.delete_session(sid) {
                        Ok(_) => Ok(
                            Outcome::ReflectionCreated { reflection, archived: Some(sid) },
                        ),
                        Err(e) => {
                            proof {
                                assert(false);
                            }
                            Err(e)
                        },
                    }
                },
                None => Ok(Outcome::ReflectionCreated { reflection, archived: None }),
            }
        },
        Err(e) => Err(e),
    }
}

/// Resolve the checklist, toggle the named item, and persist the change
/// when the item exists; an unknown id is reported beside the unchanged
/// snapshot.
fn run_toggle(storage: &mut RealAethelStorage, id: String) -> (r: Result<Outcome, StoreError>)
    requires
        old(storage).wf(),
        old(storage).vault.stamp + 1 < u64::MAX,
    ensures
        final(storage).wf(),
        match r {
            Ok(o) => match o {
                Outcome::ChecklistReport { id: cid, data, not_found } => {
                    let v1 = resolved_vault(old(storage).vault.model(), cid);
                    &&& match scan_checklist_id(old(storage).vault.model()) {
                        Some(existing) => cid == existing,
                        None => !vault_contains(old(storage).vault.model(), cid),
                    }
                    &&& checklist_items_of(doc_of(v1, cid).fm) is Some
                    &&& {
                        let items0 = checklist_items_of(doc_of(v1, cid).fm)->0;
                        match not_found {
                            Some(e) => {
                                &&& e matches StoreError::ChecklistItemNotFound { id: missing }
                                    && missing@ == id@
                                &&& !has_item(items0, id@)
                                &&& data.model() == items0
                                &&& final(storage).vault.model() == v1
                                &&& final(storage).vault.stamp as int == old(
                                    storage,
                                ).vault.stamp as int + bootstrap_writes(
                                    old(storage).vault.model(),
                                )
                            },
                            None => {
                                &&& has_item(items0, id@)
                                &&& data.model() == toggled_items(items0, id@)
                                &&& final(storage).vault.model() == v1.update(
                                    idx_of(v1, cid),
                                    checklist_merged_doc(doc_of(v1, cid), data.model()),
                                )
                                &&& final(storage).vault.stamp as int == old(
                                    storage,
                                ).vault.stamp as int + bootstrap_writes(
                                    old(storage).vault.model(),
                                ) + 1
                            },
                        }
                    }
                },
                _ => false,
            },
            Err(e) => checklist_resolve_err(*old(storage), *final(storage), e),
        },
{
    let res = storage.get_or_create_checklist();
    match res {
        Ok((cid, mut data)) => {
            let ghost v1 = storage.vault.model();
            let ghost items0 = data.model();
            proof {
                match scan_checklist_id(old(storage).vault.model()) {
                    Some(existing) => {
                        crate::store::lemma_scan_min_char(
                            old(storage).vault.model(),
                            crate::store::checklist_pred(),
                        );
                    },
                    None => {
                        crate::store::lemma_idx_unique(v1, v1.len() - 1);
                    },
                }
                assert(checklist_items_of(doc_of(v1, cid).fm) == Some(items0));
                assert(v1 =~= resolved_vault(old(storage).vault.model(), cid));
            }
            let found = data.toggle_item(id.as_str());
            if found {
                match storage.update_checklist(cid, &data) {
                    Ok(_) => {
                        proof {
                            assert(storage.vault.model() =~= v1.update(
                                idx_of(v1, cid),
                                checklist_merged_doc(doc_of(v1, cid), data.model()),
                            ));
                        }
                        Ok(Outcome::ChecklistReport { id: cid, data, not_found: None })
                    },
                    Err(e) => {
                        proof {
                            assert(false);
                        }
                        Err(e)
                    },
                }
            } else {
                proof {
                    assert(storage.vault.model() =~= v1);
                    assert(data.model() =~= items0);
                }
                Ok(
                    Outcome::ChecklistReport {
                        id: cid,
                        data,
                        not_found: Some(StoreError::ChecklistItemNotFound { id }),
                    },
                )
            }
        },
        Err(e) => Err(e),
    }
}

/// Run one effect against the storage.
pub fn execute(storage: &mut RealAethelStorage, effect: Effect, now: u64) -> (r: Result<
    Outcome,
    StoreError,
>)
    requires
        old(storage).wf(),
        old(storage).vault.stamp + 1 < u64::MAX,
        match effect {
            Effect::CreateReflection { session } => session.start_time <= now,
            _ => true,
        },
    ensures
        final(storage).wf(),
        execute_spec(*old(storage), effect, now, *final(storage), r),
{
    match effect {
        Effect::CreateSession { session } => run_create_session(storage, session),
        Effect::CreateReflection { session } => run_create_reflection(storage, session, now),
        Effect::AnalyzeReflection { path } => Ok(Outcome::NeedsAnalysis { path }),
        Effect::PrintError { message } => Ok(Outcome::ErrorMessage { message }),
        Effect::LoadAndPrintChecklist => {
            let res = storage.get_or_create_checklist();
            match res {
                Ok((id, data)) => Ok(Outcome::ChecklistReport { id, data, not_found: None }),
                Err(e) => Err(e),
            }
        },
        Effect::ToggleChecklistItem { id } => run_toggle(storage, id),
    }
}

} // verus!
