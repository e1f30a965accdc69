use momentum::doc::{Patch, PatchMode};
use momentum::fm::{Fm, FmValue};
use momentum::storage::{LogicalKey, RealAethelStorage};
use momentum::store::Vault;
use momentum::StoreError;

fn text_fm(pairs: &[(&str, &str)]) -> Fm {
    let mut f = Fm::new();
    for (k, v) in pairs {
        f.set((*k).to_string(), FmValue::Text((*v).to_string()));
    }
    f
}

fn create_doc(vault: &mut Vault, ty: &str, fm: Fm, body: &str) -> u128 {
    let patch = Patch {
        id: None,
        doc_type: Some(ty.to_string()),
        frontmatter: Some(fm),
        body: Some(body.to_string()),
        mode: PatchMode::Create,
    };
    vault.apply(patch).expect("create should succeed")
}

fn get_text(vault: &Vault, id: u128, key: &str) -> Option<String> {
    let doc = vault.read(id).expect("document should exist");
    match doc.fm.get(key) {
        Some(FmValue::Text(s)) => Some(s.clone()),
        _ => None,
    }
}

#[test]
fn merge_frontmatter_twice_equals_once() {
    let mut vault = Vault::new();
    let id = create_doc(
        &mut vault,
        "momentum.session",
        text_fm(&[("goal", "before"), ("note", "kept")]),
        "body text",
    );
    let merge = |target: u128| Patch {
        id: Some(target),
        doc_type: None,
        frontmatter: Some(text_fm(&[("goal", "after"), ("extra", "new")])),
        body: None,
        mode: PatchMode::MergeFrontmatter,
    };
    vault.apply(merge(id)).expect("first merge");
    let goal_once = get_text(&vault, id, "goal");
    let note_once = get_text(&vault, id, "note");
    let extra_once = get_text(&vault, id, "extra");
    let body_once = vault.read(id).unwrap().body.clone();
    vault.apply(merge(id)).expect("second merge");
    assert_eq!(get_text(&vault, id, "goal"), goal_once);
    assert_eq!(get_text(&vault, id, "note"), note_once);
    assert_eq!(get_text(&vault, id, "extra"), extra_once);
    assert_eq!(vault.read(id).unwrap().body, body_once);
    assert_eq!(goal_once.as_deref(), Some("after"));
    assert_eq!(note_once.as_deref(), Some("kept"));
    assert_eq!(extra_once.as_deref(), Some("new"));
    assert_eq!(body_once, "body text");
}

#[test]
fn lookup_after_migrate_equals_linear_scan() {
    let mut vault = Vault::new();
    create_doc(&mut vault, "dummy.document", Fm::new(), "noise");
    let mut archived_fm = text_fm(&[("goal", "done")]);
    archived_fm.set("archived".to_string(), FmValue::Flag(true));
    create_doc(&mut vault, "momentum.session", archived_fm, "");
    let live = create_doc(
        &mut vault,
        "momentum.session",
        text_fm(&[("goal", "live")]),
        "",
    );
    let scan = vault.scan_active_session();
    let mut storage = RealAethelStorage::new(vault);
    storage.migrate();
    let looked = storage.lookup(LogicalKey::ActiveSession);
    assert_eq!(looked, scan);
    // the archived session never resolves; only the live one does
    assert_eq!(looked, Some(live));
    assert_eq!(get_text(&storage.vault, live, "goal"), Some("live".to_string()));
}

#[test]
fn out_of_band_write_forces_rebuild() {
    let mut storage = RealAethelStorage::new(Vault::new());
    let id = create_doc(
        &mut storage.vault,
        "momentum.session",
        text_fm(&[("goal", "g")]),
        "",
    );
    assert_eq!(storage.lookup(LogicalKey::ActiveSession), Some(id));
    // another process archives the session behind the manager's back
    let patch = Patch {
        id: Some(id),
        doc_type: None,
        frontmatter: Some({
            let mut f = Fm::new();
            f.set("archived".to_string(), FmValue::Flag(true));
            f
        }),
        body: None,
        mode: PatchMode::MergeFrontmatter,
    };
    storage.write_out_of_band(patch).expect("merge");
    // the cached positive answer must not be served
    assert_eq!(storage.lookup(LogicalKey::ActiveSession), None);
}

#[test]
fn migration_scans_large_vault_once() {
    let mut vault = Vault::new();
    for i in 0..120 {
        create_doc(
            &mut vault,
            "dummy.document",
            text_fm(&[("title", &format!("Document {i}"))]),
            "# Document",
        );
    }
    let session = create_doc(&mut vault, "momentum.session", text_fm(&[("goal", "g")]), "");
    let checklist = create_doc(&mut vault, "momentum.checklist", Fm::new(), "");
    let mut storage = RealAethelStorage::new(vault);
    storage.migrate();
    assert_eq!(storage.lookup(LogicalKey::ActiveSession), Some(session));
    assert_eq!(storage.lookup(LogicalKey::Checklist), Some(checklist));
}

#[test]
fn invalid_patches_are_rejected() {
    let mut vault = Vault::new();
    let id = create_doc(&mut vault, "dummy.document", Fm::new(), "");
    // create must not carry an id
    let bad_create = Patch {
        id: Some(id),
        doc_type: Some("dummy.document".to_string()),
        frontmatter: None,
        body: None,
        mode: PatchMode::Create,
    };
    assert!(matches!(vault.apply(bad_create), Err(StoreError::InvalidPatch)));
    // create must carry a type
    let untyped = Patch {
        id: None,
        doc_type: None,
        frontmatter: None,
        body: None,
        mode: PatchMode::Create,
    };
    assert!(matches!(vault.apply(untyped), Err(StoreError::InvalidPatch)));
    // merge must carry an id
    let unaddressed = Patch {
        id: None,
        doc_type: None,
        frontmatter: Some(Fm::new()),
        body: None,
        mode: PatchMode::MergeFrontmatter,
    };
    assert!(matches!(vault.apply(unaddressed), Err(StoreError::InvalidPatch)));
    // merge onto an absent id
    let dangling = Patch {
        id: Some(id.wrapping_add(1)),
        doc_type: None,
        frontmatter: Some(Fm::new()),
        body: None,
        mode: PatchMode::MergeFrontmatter,
    };
    assert!(matches!(vault.apply(dangling), Err(StoreError::NotFound)));
}

#[test]
fn resume_with_future_stamp_is_dropped() {
    let mut vault = Vault::new();
    let session = create_doc(&mut vault, "momentum.session", text_fm(&[("goal", "g")]), "");
    let mut warm = RealAethelStorage::new(vault);
    warm.migrate();
    let idx = warm.index.expect("migrated");
    // adopting the index against the same vault keeps it honest
    let mut resumed = RealAethelStorage::resume(warm.vault, idx);
    assert_eq!(resumed.lookup(LogicalKey::ActiveSession), Some(session));
    // an index stamped later than the vault cannot be trusted
    let mut stale = RealAethelStorage::resume(Vault::new(), idx);
    assert!(stale.index.is_none());
    assert_eq!(stale.lookup(LogicalKey::ActiveSession), None);
}
