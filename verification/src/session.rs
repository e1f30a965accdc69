//! Sessions: the domain projection of `momentum.session` documents, and
//! the storage operations that read and write them.

use vstd::prelude::*;

use crate::doc::{DocModel, Patch, PatchMode};
use crate::fm::{AnalysisData, Fm, FmVal, FmValue};
use crate::ids::DocId;
use crate::storage::{entries_match, LogicalKey, RealAethelStorage};
use crate::store::{
    archived_key, doc_of, fingerprint_of, idx_of, is_checklist_doc, is_session_doc,
    lemma_idx_unique, lemma_scan_min_char, lemma_scan_push_first_match,
    lemma_scan_push_nonmatching, lemma_scan_update_same, reflection_type, scan_active,
    scan_checklist_id,
    session_type, vault_contains,
};
use crate::text::string_from_chars;
use crate::timefmt::{utc_text, utc_text_of};
use crate::StoreError;

verus! {

/// A focus session in flight.
pub struct Session {
    pub goal: String,
    pub start_time: u64,
    pub time_expected: u64,
    pub reflection_file_path: Option<String>,
}

/// The mathematical form of a session.
pub struct SessionModel {
    pub goal: Seq<char>,
    pub start_time: u64,
    pub time_expected: u64,
    pub reflection: Option<Seq<char>>,
}

impl Session {
    /// The session as a mathematical value.
    pub open spec fn model(self) -> SessionModel {
        SessionModel {
            goal: self.goal@,
            start_time: self.start_time,
            time_expected: self.time_expected,
            reflection: match self.reflection_file_path {
                Some(p) => Some(p@),
                None => None,
            },
        }
    }

    /// A copy with the same model.
    pub fn dup(&self) -> (r: Session)
        ensures
            r.model() == self.model(),
    {
        Session {
            goal: self.goal.clone(),
            start_time: self.start_time,
            time_expected: self.time_expected,
            reflection_file_path: match &self.reflection_file_path {
                Some(p) => Some(p.clone()),
                None => None,
            },
        }
    }
}

/// The frontmatter a session is persisted as. Every field is written,
/// the absent reflection reference as an explicit null — so a save onto
/// an existing document overwrites each session key, and none of the
/// old values can survive.
pub open spec fn session_fm_model(s: SessionModel) -> Map<Seq<char>, FmVal> {
    Map::<Seq<char>, FmVal>::empty().insert("goal"@, FmVal::Text(s.goal)).insert(
        "start_time"@,
        FmVal::Num(s.start_time),
    ).insert("time_expected"@, FmVal::Num(s.time_expected)).insert(
        "reflection_uuid"@,
        match s.reflection {
            Some(p) => FmVal::Text(p),
            None => FmVal::Null,
        },
    )
}

/// The body a session document carries: a heading with the goal and the
/// start time rendered as UTC text.
pub open spec fn session_body_model(s: SessionModel) -> Seq<char> {
    "# Active Session: "@ + s.goal + "\n\nStarted at: "@ + utc_text_of(s.start_time)
}

/// Reading a session back out of a frontmatter mapping: `Err` names the
/// first required field that is absent or has the wrong shape. A
/// missing or non-text reflection reference reads as none.
pub open spec fn session_of_fm(m: Map<Seq<char>, FmVal>) -> Result<SessionModel, Seq<char>> {
    if !(m.contains_key("goal"@) && m["goal"@] is Text) {
        Err("goal"@)
    } else if !(m.contains_key("start_time"@) && m["start_time"@] is Num) {
        Err("start_time"@)
    } else if !(m.contains_key("time_expected"@) && m["time_expected"@] is Num) {
        Err("time_expected"@)
    } else {
        Ok(
            SessionModel {
                goal: m["goal"@]->Text_0,
                start_time: m["start_time"@]->Num_0,
                time_expected: m["time_expected"@]->Num_0,
                reflection: if m.contains_key("reflection_uuid"@) && m["reflection_uuid"@]
                    is Text {
                    Some(m["reflection_uuid"@]->Text_0)
                } else {
                    None
                },
            },
        )
    }
}

/// The session frontmatter never marks a document archived.
pub proof fn lemma_session_fm_not_archived(s: SessionModel)
    ensures
        !session_fm_model(s).contains_key(archived_key()),
{
    reveal_strlit("goal");
    reveal_strlit("start_time");
    reveal_strlit("time_expected");
    reveal_strlit("reflection_uuid");
    reveal_strlit("archived");
    assert("goal"@.len() == 4);
    assert("start_time"@.len() == 10);
    assert("time_expected"@.len() == 13);
    assert("reflection_uuid"@.len() == 15);
    assert("archived"@.len() == 8);
}

/// A session read from the frontmatter a session was written as gives
/// the session back.
pub proof fn lemma_session_fm_round_trip(s: SessionModel)
    ensures
        session_of_fm(session_fm_model(s)) == Ok::<SessionModel, Seq<char>>(s),
{
    reveal_strlit("goal");
    reveal_strlit("start_time");
    reveal_strlit("time_expected");
    reveal_strlit("reflection_uuid");
    assert("goal"@.len() == 4);
    assert("start_time"@.len() == 10);
    assert("time_expected"@.len() == 13);
    assert("reflection_uuid"@.len() == 15);
    match s.reflection {
        Some(p) => {
            assert(session_of_fm(session_fm_model(s)) == Ok::<SessionModel, Seq<char>>(s));
        },
        None => {
            assert(session_fm_model(s)["reflection_uuid"@] is Null);
            assert(session_of_fm(session_fm_model(s)) == Ok::<SessionModel, Seq<char>>(s));
        },
    }
}

/// Saving onto any existing frontmatter round-trips the whole session:
/// the overlay writes every session key, so whatever the document held
/// before — a stale reflection reference included — reading the merged
/// document gives back exactly the session that was saved.
pub proof fn lemma_session_merge_round_trip(base: Map<Seq<char>, FmVal>, s: SessionModel)
    ensures
        session_of_fm(base.union_prefer_right(session_fm_model(s))) == Ok::<
            SessionModel,
            Seq<char>,
        >(s),
{
    reveal_strlit("goal");
    reveal_strlit("start_time");
    reveal_strlit("time_expected");
    reveal_strlit("reflection_uuid");
    assert("goal"@.len() == 4);
    assert("start_time"@.len() == 10);
    assert("time_expected"@.len() == 13);
    assert("reflection_uuid"@.len() == 15);
    let m = base.union_prefer_right(session_fm_model(s));
    assert(m["goal"@] == session_fm_model(s)["goal"@]);
    assert(m["start_time"@] == session_fm_model(s)["start_time"@]);
    assert(m["time_expected"@] == session_fm_model(s)["time_expected"@]);
    assert(m["reflection_uuid"@] == session_fm_model(s)["reflection_uuid"@]);
    lemma_session_fm_round_trip(s);
}

/// Build the frontmatter a session is persisted as.
pub fn session_to_fm(s: &Session) -> (r: Fm)
    ensures
        r.wf(),
        r.model() == session_fm_model(s.model()),
{
    let mut f = Fm::new();
    f.set("goal".to_owned(), FmValue::Text(s.goal.clone()));
    f.set("start_time".to_owned(), FmValue::Num(s.start_time));
    f.set("time_expected".to_owned(), FmValue::Num(s.time_expected));
    match &s.reflection_file_path {
        Some(p) => {
            f.set("reflection_uuid".to_owned(), FmValue::Text(p.clone()));
        },
        None => {
            f.set("reflection_uuid".to_owned(), FmValue::Null);
        },
    }
    f
}

/// Build the body a session document carries.
pub fn session_body(s: &Session) -> (r: String)
    ensures
        r@ == session_body_model(s.model()),
{
    let mut chars: Vec<char> = crate::text::chars_vec("# Active Session: ");
    let mut goal_chars = crate::text::chars_vec(s.goal.as_str());
    let mut mid_chars = crate::text::chars_vec("\n\nStarted at: ");
    let when = utc_text(s.start_time);
    let mut when_chars = crate::text::chars_vec(when.as_str());
    chars.append(&mut goal_chars);
    chars.append(&mut mid_chars);
    chars.append(&mut when_chars);
    proof {
        assert(chars@ =~= session_body_model(s.model()));
    }
    string_from_chars(&chars)
}

/// Project a session out of a document; `MissingField` names the field.
pub fn session_from_doc(d: &crate::doc::Document) -> (r: Result<Session, StoreError>)
    requires
        d.wf(),
    ensures
        match r {
            Ok(s) => session_of_fm(d.model().fm) == Ok::<SessionModel, Seq<char>>(s.model()),
            Err(e) => match e {
                StoreError::MissingField { field } => session_of_fm(d.model().fm) == Err::<
                    SessionModel,
                    Seq<char>,
                >(field@),
                _ => false,
            },
        },
{
    let goal: String = match d.fm.get("goal") {
        Some(FmValue::Text(g)) => g.clone(),
        _ => {
            return Err(StoreError::MissingField { field: "goal".to_owned() });
        },
    };
    let start_time: u64 = match d.fm.get("start_time") {
        Some(FmValue::Num(n)) => *n,
        _ => {
            return Err(StoreError::MissingField { field: "start_time".to_owned() });
        },
    };
    let time_expected: u64 = match d.fm.get("time_expected") {
        Some(FmValue::Num(n)) => *n,
        _ => {
            return Err(StoreError::MissingField { field: "time_expected".to_owned() });
        },
    };
    let reflection_file_path: Option<String> = match d.fm.get("reflection_uuid") {
        Some(FmValue::Text(p)) => Some(p.clone()),
        _ => None,
    };
    Ok(Session { goal, start_time, time_expected, reflection_file_path })
}

/// The document model a fresh session write creates.
pub open spec fn session_doc(id: DocId, s: SessionModel) -> DocModel {
    DocModel {
        id,
        ty: session_type(),
        fm: session_fm_model(s),
        body: session_body_model(s),
    }
}

impl RealAethelStorage {
    /// The id of the active session document, if one exists: always the
    /// answer a full linear scan would give, served from the cache only
    /// when the cache provably agrees with it.
    pub fn find_active_session(&mut self) -> (r: Option<DocId>)
        requires
            old(self).wf(),
        ensures
            final(self).wf(),
            final(self).vault == old(self).vault,
            r == scan_active(old(self).vault.model()),
            match final (self).index {
                Some(idx) => idx.fp == fingerprint_of(final(self).vault) && entries_match(
                    idx,
                    final(self).vault,
                ),
                None => false,
            },
    {
        self.lookup(LogicalKey::ActiveSession)
    }

    /// Read the session behind a document id.
    pub fn read_session(&self, id: DocId) -> (r: Result<Session, StoreError>)
        requires
            self.wf(),
        ensures
            match r {
                Ok(s) => vault_contains(self.vault.model(), id) && session_of_fm(
                    doc_of(self.vault.model(), id).fm,
                ) == Ok::<SessionModel, Seq<char>>(s.model()),
                Err(e) => match e {
                    StoreError::NotFound => !vault_contains(self.vault.model(), id),
                    StoreError::MissingField { field } => vault_contains(self.vault.model(), id)
                        && session_of_fm(doc_of(self.vault.model(), id).fm) == Err::<
                        SessionModel,
                        Seq<char>,
                    >(field@),
                    _ => false,
                },
            },
    {
        match self.vault.read(id) {
            Ok(d) => session_from_doc(d),
            Err(_) => Err(StoreError::NotFound),
        }
    }
}


/// The merge a save performs on an existing active session document.
pub open spec fn session_merged_doc(d: DocModel, s: SessionModel) -> DocModel {
    DocModel {
        id: d.id,
        ty: d.ty,
        fm: d.fm.union_prefer_right(session_fm_model(s)),
        body: session_body_model(s),
    }
}

/// The frontmatter that archival merges onto a session document.
pub open spec fn archived_fm_model() -> Map<Seq<char>, FmVal> {
    Map::<Seq<char>, FmVal>::empty().insert(archived_key(), FmVal::Flag(true))
}

/// The document archival leaves behind: the same document with the
/// archival flag set, the body untouched.
pub open spec fn archived_doc(d: DocModel) -> DocModel {
    DocModel { id: d.id, ty: d.ty, fm: d.fm.union_prefer_right(archived_fm_model()), body: d.body }
}

/// Whole minutes between a session's start and a later clock reading;
/// fractional minutes truncate.
pub open spec fn minutes_between(start: u64, now: u64) -> u64
    recommends
        start <= now,
{
    (((now - start) as int) / 60) as u64
}

/// The frontmatter of a reflection document.
pub open spec fn reflection_fm_model(s: SessionModel, now: u64) -> Map<Seq<char>, FmVal> {
    Map::<Seq<char>, FmVal>::empty().insert("goal"@, FmVal::Text(s.goal)).insert(
        "start_time"@,
        FmVal::Num(s.start_time),
    ).insert("end_time"@, FmVal::Num(now)).insert(
        "time_expected"@,
        FmVal::Num(s.time_expected),
    ).insert("time_actual"@, FmVal::Num(minutes_between(s.start_time, now)))
}

/// The document a reflection write creates.
pub open spec fn reflection_doc(id: DocId, s: SessionModel, now: u64, body: Seq<char>) -> DocModel {
    DocModel { id, ty: reflection_type(), fm: reflection_fm_model(s, now), body }
}

/// The reflection frontmatter never marks a document archived, and a
/// reflection document matches neither logical key.
pub proof fn lemma_reflection_doc_unindexed(id: DocId, s: SessionModel, now: u64, body: Seq<char>)
    ensures
        !is_session_doc(reflection_doc(id, s, now, body)),
        !is_checklist_doc(reflection_doc(id, s, now, body)),
{
    crate::store::lemma_type_tags_distinct();
}

impl RealAethelStorage {
    /// Create or update the session document: merge onto the active
    /// session when one exists, else create a fresh one. Either way the
    /// cache is brought up to date, so the next lookup needs no rebuild.
    pub fn save_session(&mut self, session: &Session) -> (r: Result<DocId, StoreError>)
        requires
            old(self).wf(),
            old(self).vault.stamp < u64::MAX,
        ensures
            final(self).wf(),
            match r {
                Ok(id) => {
                    &&& final(self).vault.stamp == old(self).vault.stamp + 1
                    &&& match scan_active(old(self).vault.model()) {
                        Some(active) => id == active && final(self).vault.model() == old(self).vault.model().update(
                            idx_of(old(self).vault.model(), active),
                            session_merged_doc(
                                doc_of(old(self).vault.model(), active),
                                session.model(),
                            ),
                        ),
                        None => !vault_contains(old(self).vault.model(), id) && final(self).vault.model() == old(self).vault.model().push(
                            session_doc(id, session.model()),
                        ),
                    }
                },
                Err(e) => e is IdCollision && scan_active(old(self).vault.model()) is None
                    && old(self).vault.model().len() > 0 && final(self).vault == old(self).vault,
            },
    {
        let existing = self.find_active_session();
        let f = session_to_fm(session);
        let b = session_body(session);
        let ghost pre = self.vault.model();
        match existing {
            Some(active) => {
                let patch = Patch {
                    id: Some(active),
                    doc_type: None,
                    frontmatter: Some(f),
                    body: Some(b),
                    mode: PatchMode::MergeFrontmatter,
                };
                proof {
                    lemma_scan_min_char(pre, crate::store::session_pred());
                    let i = choose|i: int|
                        0 <= i < pre.len() && #[trigger] crate::store::session_pred()(pre[i])
                            && pre[i].id == active;
                    lemma_idx_unique(pre, i);
                }
                let res = self.vault.apply(patch);
                match res {
                    Ok(id) => {
                        proof {
                            let i = idx_of(pre, active);
                            let merged = session_merged_doc(doc_of(pre, active), session.model());
                            assert(self.vault.model() == pre.update(i, merged));
                            lemma_session_fm_not_archived(session.model());
                            crate::store::lemma_overlay_keeps_flag(
                                doc_of(pre, active).fm,
                                session_fm_model(session.model()),
                            );
                            assert(is_session_doc(merged) == is_session_doc(doc_of(pre, active)));
                            lemma_scan_update_same(pre, crate::store::session_pred(), i, merged);
                            lemma_scan_update_same(pre, crate::store::checklist_pred(), i, merged);
                            assert(scan_active(self.vault.model()) == scan_active(pre));
                            assert(scan_checklist_id(self.vault.model()) == scan_checklist_id(
                                pre,
                            ));
                        }
                        self.record(LogicalKey::ActiveSession, Some(id));
                        Ok(id)
                    },
                    Err(e) => {
                        proof {
                            assert(false);
                        }
                        Err(e)
                    },
                }
            },
            None => {
                let patch = Patch {
                    id: None,
                    doc_type: Some("momentum.session".to_owned()),
                    frontmatter: Some(f),
                    body: Some(b),
                    mode: PatchMode::Create,
                };
                let res = self.vault.apply(patch);
                match res {
                    Ok(id) => {
                        proof {
                            let created = session_doc(id, session.model());
                            assert(self.vault.model() == pre.push(created));
                            lemma_session_fm_not_archived(session.model());
                            crate::store::lemma_type_tags_distinct();
                            assert(is_session_doc(created));
                            lemma_scan_push_first_match(
                                pre,
                                crate::store::session_pred(),
                                created,
                            );
                            lemma_scan_push_nonmatching(
                                pre,
                                crate::store::checklist_pred(),
                                created,
                            );
                        }
                        self.record(LogicalKey::ActiveSession, Some(id));
                        Ok(id)
                    },
                    Err(e) => Err(e),
                }
            },
        }
    }

    /// Archive the session document behind an id — documents are never
    /// deleted — and invalidate the `active_session` key, so the next
    /// lookup rescans rather than serving a dangling id.
    pub fn delete_session(&mut self, id: DocId) -> (r: Result<(), StoreError>)
        requires
            old(self).wf(),
            old(self).vault.stamp < u64::MAX,
        ensures
            final(self).wf(),
            match r {
                Ok(_) => {
                    &&& vault_contains(old(self).vault.model(), id)
                    &&& final(self).vault.model() == old(self).vault.model().update(
                        idx_of(old(self).vault.model(), id),
                        archived_doc(doc_of(old(self).vault.model(), id)),
                    )
                    &&& final(self).vault.stamp == old(self).vault.stamp + 1
                    &&& final(self).index is None
                },
                Err(e) => e is NotFound && !vault_contains(old(self).vault.model(), id) && final(self).vault == old(self).vault && final(self).index == old(self).index,
            },
    {
        let mut f = Fm::new();
        f.set("archived".to_owned(), FmValue::Flag(true));
        proof {
            assert(f.model() =~= archived_fm_model());
        }
        let patch = Patch {
            id: Some(id),
            doc_type: None,
            frontmatter: Some(f),
            body: None,
            mode: PatchMode::MergeFrontmatter,
        };
        let ghost pre = self.vault.model();
        let res = self.vault.apply(patch);
        match res {
            Ok(_) => {
                self.invalidate(LogicalKey::ActiveSession);
                Ok(())
            },
            Err(e) => {
                proof {
                    assert(e is NotFound);
                }
                Err(e)
            },
        }
    }

    /// Write a new reflection document for a stopped session:
    /// `time_actual` is the whole minutes between start and `now`.
    /// The cache is left as it was; a reflection bears no logical key.
    pub fn create_reflection(&mut self, session: &Session, body: String, now: u64) -> (r: Result<
        DocId,
        StoreError,
    >)
        requires
            old(self).wf(),
            old(self).vault.stamp < u64::MAX,
            session.start_time <= now,
        ensures
            final(self).wf(),
            match r {
                Ok(id) => !vault_contains(old(self).vault.model(), id) && final(self).vault.model() == old(self).vault.model().push(
                    reflection_doc(id, session.model(), now, body@),
                ) && final(self).vault.stamp == old(self).vault.stamp + 1,
                Err(e) => e is IdCollision && old(self).vault.model().len() > 0 && final(self).vault == old(self).vault,
            },
    {
        let mut f = Fm::new();
        f.set("goal".to_owned(), FmValue::Text(session.goal.clone()));
        f.set("start_time".to_owned(), FmValue::Num(session.start_time));
        f.set("end_time".to_owned(), FmValue::Num(now));
        f.set("time_expected".to_owned(), FmValue::Num(session.time_expected));
        let time_actual: u64 = (now - session.start_time) / 60;
        f.set("time_actual".to_owned(), FmValue::Num(time_actual));
        proof {
            assert(f.model() =~= reflection_fm_model(session.model(), now));
        }
        let patch = Patch {
            id: None,
            doc_type: Some("momentum.reflection".to_owned()),
            frontmatter: Some(f),
            body: Some(body),
            mode: PatchMode::Create,
        };
        let ghost pre = *self;
        let res = self.vault.apply(patch);
        proof {
            match pre.index {
                Some(idx) => {
                    assert(idx.fp.stamp <= pre.vault.stamp);
                    if self.vault.stamp != pre.vault.stamp {
                        assert(idx.fp != fingerprint_of(self.vault));
                    }
                },
                None => {},
            }
        }
        res
    }

    /// Merge an analysis result into a reflection document's
    /// frontmatter under the `analysis` key.
    pub fn update_reflection_analysis(&mut self, id: DocId, analysis: AnalysisData) -> (r: Result<
        (),
        StoreError,
    >)
        requires
            old(self).wf(),
            old(self).vault.stamp < u64::MAX,
        ensures
            final(self).wf(),
            match r {
                Ok(_) => vault_contains(old(self).vault.model(), id) && final(self).vault.model()
                    == old(self).vault.model().update(
                    idx_of(old(self).vault.model(), id),
                    analysis_merged_doc(doc_of(old(self).vault.model(), id), analysis.model()),
                ) && final(self).vault.stamp == old(self).vault.stamp + 1,
                Err(e) => e is NotFound && !vault_contains(old(self).vault.model(), id) && final(self).vault == old(self).vault,
            },
    {
        let mut f = Fm::new();
        f.set("analysis".to_owned(), FmValue::Analysis(analysis));
        proof {
            assert(f.model() =~= analysis_fm_model(
                FmVal::Analysis(
                    f.model()["analysis"@]->Analysis_0,
                    f.model()["analysis"@]->Analysis_1,
                    f.model()["analysis"@]->Analysis_2,
                ),
            ));
        }
        let patch = Patch {
            id: Some(id),
            doc_type: None,
            frontmatter: Some(f),
            body: None,
            mode: PatchMode::MergeFrontmatter,
        };
        let ghost pre = *self;
        let res = self.vault.apply(patch);
        proof {
            match pre.index {
                Some(idx) => {
                    assert(idx.fp.stamp <= pre.vault.stamp);
                    if self.vault.stamp != pre.vault.stamp {
                        assert(idx.fp != fingerprint_of(self.vault));
                    }
                },
                None => {},
            }
        }
        match res {
            Ok(_) => Ok(()),
            Err(e) => {
                proof {
                    assert(e is NotFound);
                }
                Err(e)
            },
        }
    }
}

/// The frontmatter an analysis merge carries.
pub open spec fn analysis_fm_model(a: FmVal) -> Map<Seq<char>, FmVal> {
    Map::<Seq<char>, FmVal>::empty().insert("analysis"@, a)
}

/// The document an analysis merge leaves behind.
pub open spec fn analysis_merged_doc(
    d: DocModel,
    a: (Seq<char>, Seq<char>, Seq<char>),
) -> DocModel {
    DocModel {
        id: d.id,
        ty: d.ty,
        fm: d.fm.union_prefer_right(
            analysis_fm_model(FmVal::Analysis(a.0, a.1, a.2)),
        ),
        body: d.body,
    }
}

} // verus!
