use momentum::doc::{Patch, PatchMode};
use momentum::effects::{execute, sanitize_goal_for_filename, Outcome};
use momentum::fm::{AnalysisData, Fm, FmValue};
use momentum::reducer::{update, Action, Effect, State};
use momentum::session::Session;
use momentum::storage::RealAethelStorage;
use momentum::store::Vault;
use momentum::StoreError;

fn fresh_storage() -> RealAethelStorage {
    RealAethelStorage::new(Vault::new())
}

#[test]
fn start_from_idle_opens_session_with_one_effect() {
    let (state, effect) = update(
        State::Idle,
        Action::Start { goal: "G".to_string(), time: 30 },
        5000,
    );
    match state {
        State::SessionActive { session } => {
            assert_eq!(session.goal, "G");
            assert_eq!(session.time_expected, 30);
            assert_eq!(session.start_time, 5000);
            assert!(session.reflection_file_path.is_none());
        }
        State::Idle => panic!("start from idle must open a session"),
    }
    match effect {
        Some(Effect::CreateSession { session }) => {
            assert_eq!(session.goal, "G");
            assert_eq!(session.time_expected, 30);
            assert_eq!(session.start_time, 5000);
        }
        _ => panic!("exactly one CreateSession effect is owed"),
    }
}

#[test]
fn start_over_active_session_reports_error() {
    let active = State::SessionActive {
        session: Session {
            goal: "old".to_string(),
            start_time: 10,
            time_expected: 5,
            reflection_file_path: None,
        },
    };
    let (state, effect) = update(
        active,
        Action::Start { goal: "new".to_string(), time: 1 },
        99,
    );
    match state {
        State::SessionActive { session } => assert_eq!(session.goal, "old"),
        State::Idle => panic!("the active session must stay"),
    }
    match effect {
        Some(Effect::PrintError { message }) => assert_eq!(message, "session already active"),
        _ => panic!("the error must be reported"),
    }
}

#[test]
fn stop_when_idle_reports_error() {
    let (state, effect) = update(State::Idle, Action::Stop, 99);
    assert!(matches!(state, State::Idle));
    match effect {
        Some(Effect::PrintError { message }) => assert_eq!(message, "no active session"),
        _ => panic!("the error must be reported"),
    }
}

#[test]
fn stop_computes_minutes_and_archives() {
    let mut storage = fresh_storage();
    let start: u64 = 1000;
    let session = Session {
        goal: "G".to_string(),
        start_time: start,
        time_expected: 30,
        reflection_file_path: None,
    };
    let copy = Session {
        goal: session.goal.clone(),
        start_time: session.start_time,
        time_expected: session.time_expected,
        reflection_file_path: None,
    };
    let saved = execute(&mut storage, Effect::CreateSession { session: copy }, start)
        .expect("session saved");
    let session_id = match saved {
        Outcome::SessionSaved { id, duplicates } => {
            assert!(!duplicates);
            id
        }
        _ => panic!("expected SessionSaved"),
    };
    let done = execute(
        &mut storage,
        Effect::CreateReflection { session },
        start + 1800,
    )
    .expect("reflection created");
    let reflection_id = match done {
        Outcome::ReflectionCreated { reflection, archived } => {
            assert_eq!(archived, Some(session_id));
            reflection
        }
        _ => panic!("expected ReflectionCreated"),
    };
    let reflection = storage.vault.read(reflection_id).expect("reflection exists");
    match reflection.fm.get("time_actual") {
        Some(FmValue::Num(n)) => assert_eq!(*n, 30),
        _ => panic!("time_actual must be recorded"),
    }
    let prior = storage.vault.read(session_id).expect("session document stays");
    match prior.fm.get("archived") {
        Some(FmValue::Flag(b)) => assert!(*b),
        _ => panic!("the session must be archived, not deleted"),
    }
    assert_eq!(storage.find_active_session(), None);
}

#[test]
fn checklist_bootstrap_is_stable() {
    let mut storage = fresh_storage();
    let (id1, data1) = storage.get_or_create_checklist().expect("first resolve");
    let (id2, data2) = storage.get_or_create_checklist().expect("second resolve");
    assert_eq!(id1, id2);
    assert_eq!(data1.items.len(), data2.items.len());
    for (a, b) in data1.items.iter().zip(data2.items.iter()) {
        assert_eq!(a.id, b.id);
        assert_eq!(a.text, b.text);
        assert_eq!(a.on, b.on);
        assert!(!a.on);
    }
    assert!(data1.items.iter().any(|it| it.id == "water"));
}

#[test]
fn toggle_unknown_id_reports_and_keeps_state() {
    let mut storage = fresh_storage();
    // flip one item first, so "unchanged" is distinguishable from "defaulted"
    let flipped = execute(
        &mut storage,
        Effect::ToggleChecklistItem { id: "water".to_string() },
        0,
    )
    .expect("toggle known");
    match flipped {
        Outcome::ChecklistReport { data, not_found, .. } => {
            assert!(not_found.is_none());
            assert!(data.items.iter().any(|it| it.id == "water" && it.on));
        }
        _ => panic!("expected a checklist report"),
    }
    let report = execute(
        &mut storage,
        Effect::ToggleChecklistItem { id: "unknown".to_string() },
        0,
    )
    .expect("toggle unknown still reports a snapshot");
    match report {
        Outcome::ChecklistReport { data, not_found, .. } => {
            match not_found {
                Some(StoreError::ChecklistItemNotFound { id }) => assert_eq!(id, "unknown"),
                _ => panic!("ChecklistItemNotFound must be reported"),
            }
            // the snapshot is the current state, not the default
            assert!(data.items.iter().any(|it| it.id == "water" && it.on));
        }
        _ => panic!("expected a checklist report"),
    }
}

#[test]
fn analysis_request_and_merge() {
    let mut storage = fresh_storage();
    let session = Session {
        goal: "G".to_string(),
        start_time: 0,
        time_expected: 1,
        reflection_file_path: None,
    };
    let done = execute(&mut storage, Effect::CreateReflection { session }, 60).expect("reflect");
    let reflection_id = match done {
        Outcome::ReflectionCreated { reflection, archived } => {
            assert_eq!(archived, None);
            reflection
        }
        _ => panic!("expected ReflectionCreated"),
    };
    let ask = execute(
        &mut storage,
        Effect::AnalyzeReflection { path: "r.md".to_string() },
        60,
    )
    .expect("analysis request");
    assert!(matches!(ask, Outcome::NeedsAnalysis { path } if path == "r.md"));
    storage
        .update_reflection_analysis(
            reflection_id,
            AnalysisData {
                summary: "s".to_string(),
                suggestion: "g".to_string(),
                reasoning: "r".to_string(),
            },
        )
        .expect("merge analysis");
    let doc = storage.vault.read(reflection_id).expect("reflection");
    match doc.fm.get("analysis") {
        Some(FmValue::Analysis(a)) => {
            assert_eq!(a.summary, "s");
            assert_eq!(a.suggestion, "g");
            assert_eq!(a.reasoning, "r");
        }
        _ => panic!("analysis must be merged under the analysis key"),
    }
}

#[test]
fn duplicate_sessions_are_warned_about() {
    let mut storage = fresh_storage();
    let session = Session {
        goal: "one".to_string(),
        start_time: 0,
        time_expected: 1,
        reflection_file_path: None,
    };
    execute(&mut storage, Effect::CreateSession { session }, 0).expect("first save");
    // a second, conflicting session document appears out of band
    let mut fm = Fm::new();
    fm.set("goal".to_string(), FmValue::Text("two".to_string()));
    fm.set("start_time".to_string(), FmValue::Num(0));
    fm.set("time_expected".to_string(), FmValue::Num(1));
    let patch = Patch {
        id: None,
        doc_type: Some("momentum.session".to_string()),
        frontmatter: Some(fm),
        body: None,
        mode: PatchMode::Create,
    };
    storage.write_out_of_band(patch).expect("intruder");
    let again = Session {
        goal: "one".to_string(),
        start_time: 5,
        time_expected: 2,
        reflection_file_path: None,
    };
    let saved = execute(&mut storage, Effect::CreateSession { session: again }, 5).expect("save");
    match saved {
        Outcome::SessionSaved { duplicates, .. } => assert!(duplicates),
        _ => panic!("expected SessionSaved"),
    }
}

#[test]
fn load_state_round_trips_the_session() {
    let mut storage = fresh_storage();
    assert!(matches!(storage.load_state(), Ok(State::Idle)));
    let session = Session {
        goal: "G".to_string(),
        start_time: 7,
        time_expected: 30,
        reflection_file_path: None,
    };
    execute(&mut storage, Effect::CreateSession { session }, 7).expect("save");
    match storage.load_state() {
        Ok(State::SessionActive { session }) => {
            assert_eq!(session.goal, "G");
            assert_eq!(session.start_time, 7);
            assert_eq!(session.time_expected, 30);
        }
        _ => panic!("the saved session must load"),
    }
}

#[test]
fn missing_field_names_the_field() {
    let mut storage = fresh_storage();
    let patch = Patch {
        id: None,
        doc_type: Some("momentum.session".to_string()),
        frontmatter: Some(Fm::new()),
        body: None,
        mode: PatchMode::Create,
    };
    let id = storage.vault.apply(patch).expect("create");
    match storage.read_session(id) {
        Err(StoreError::MissingField { field }) => assert_eq!(field, "goal"),
        _ => panic!("a session without a goal must fail on that field"),
    }
    assert!(matches!(storage.read_session(id.wrapping_add(1)), Err(StoreError::NotFound)));
}

#[test]
fn sanitize_goal_lowercases_and_dashes() {
    assert_eq!(sanitize_goal_for_filename("Fix The Parser"), "fix-the-parser");
    assert_eq!(sanitize_goal_for_filename("already-clean"), "already-clean");
    assert_eq!(sanitize_goal_for_filename(""), "");
}

#[test]
fn save_overwrites_stale_reflection_reference() {
    let mut storage = fresh_storage();
    let with_path = Session {
        goal: "first".to_string(),
        start_time: 1,
        time_expected: 5,
        reflection_file_path: Some("old-reflection".to_string()),
    };
    let id = storage.save_session(&with_path).expect("first save");
    match storage.read_session(id) {
        Ok(s) => assert_eq!(s.reflection_file_path.as_deref(), Some("old-reflection")),
        Err(_) => panic!("saved session must read back"),
    }
    // a later save without a reflection path must clear the old value
    let without_path = Session {
        goal: "second".to_string(),
        start_time: 2,
        time_expected: 7,
        reflection_file_path: None,
    };
    let same = storage.save_session(&without_path).expect("second save");
    assert_eq!(same, id);
    match storage.read_session(id) {
        Ok(s) => {
            assert_eq!(s.goal, "second");
            assert_eq!(s.start_time, 2);
            assert_eq!(s.time_expected, 7);
            assert_eq!(s.reflection_file_path, None);
        }
        Err(_) => panic!("saved session must read back"),
    }
}

#[test]
fn describe_names_each_error() {
    assert_eq!(StoreError::NotFound.describe(), "not found");
    assert_eq!(StoreError::Corrupt.describe(), "corrupt document");
    assert_eq!(
        StoreError::MissingField { field: "goal".to_string() }.describe(),
        "missing field"
    );
    assert_eq!(StoreError::InvalidPatch.describe(), "invalid patch");
    assert_eq!(StoreError::AnalysisUnavailable.describe(), "analysis unavailable");
    assert_eq!(
        StoreError::ChecklistItemNotFound { id: "x".to_string() }.describe(),
        "checklist item not found"
    );
    assert_eq!(StoreError::IdCollision.describe(), "id collision");
}
