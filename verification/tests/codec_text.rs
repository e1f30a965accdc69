use momentum::codec::{parse_document, parse_index, render_document, render_index};
use momentum::storage::Index;
use momentum::store::Fingerprint;
use momentum::doc::Document;
use momentum::fm::{AnalysisData, ChecklistItem, Fm, FmValue};
use momentum::ids::{fresh_id, id_text, parse_id};
use momentum::timefmt::utc_text;
use momentum::StoreError;

fn full_doc() -> Document {
    let mut fm = Fm::new();
    fm.set("goal".to_string(), FmValue::Text("write the codec".to_string()));
    fm.set("start_time".to_string(), FmValue::Num(12345));
    fm.set("archived".to_string(), FmValue::Flag(false));
    fm.set("reflection_uuid".to_string(), FmValue::Null);
    fm.set(
        "items".to_string(),
        FmValue::Items(vec![
            ChecklistItem { id: "a".to_string(), text: "first".to_string(), on: true },
            ChecklistItem { id: "b".to_string(), text: "second".to_string(), on: false },
        ]),
    );
    fm.set(
        "analysis".to_string(),
        FmValue::Analysis(AnalysisData {
            summary: "sum".to_string(),
            suggestion: "sug".to_string(),
            reasoning: "rea".to_string(),
        }),
    );
    Document {
        id: fresh_id(),
        ty: "momentum.session".to_string(),
        fm,
        body: "# Heading\n\nbody with --- inside\nand more".to_string(),
    }
}

#[test]
fn render_then_parse_gives_the_document_back() {
    let doc = full_doc();
    let text = render_document(&doc);
    let parsed = parse_document(&text).expect("rendered text parses");
    assert_eq!(parsed.id, doc.id);
    assert_eq!(parsed.ty, doc.ty);
    assert_eq!(parsed.body, doc.body);
    match parsed.fm.get("goal") {
        Some(FmValue::Text(s)) => assert_eq!(s, "write the codec"),
        _ => panic!("goal lost"),
    }
    match parsed.fm.get("start_time") {
        Some(FmValue::Num(n)) => assert_eq!(*n, 12345),
        _ => panic!("start_time lost"),
    }
    match parsed.fm.get("archived") {
        Some(FmValue::Flag(b)) => assert!(!*b),
        _ => panic!("archived lost"),
    }
    assert!(matches!(parsed.fm.get("reflection_uuid"), Some(FmValue::Null)));
    match parsed.fm.get("items") {
        Some(FmValue::Items(items)) => {
            assert_eq!(items.len(), 2);
            assert_eq!(items[0].id, "a");
            assert_eq!(items[0].text, "first");
            assert!(items[0].on);
            assert_eq!(items[1].id, "b");
            assert!(!items[1].on);
        }
        _ => panic!("items lost"),
    }
    match parsed.fm.get("analysis") {
        Some(FmValue::Analysis(a)) => {
            assert_eq!(a.summary, "sum");
            assert_eq!(a.suggestion, "sug");
            assert_eq!(a.reasoning, "rea");
        }
        _ => panic!("analysis lost"),
    }
}

#[test]
fn parse_known_text() {
    let text = "---\nuuid: 00000000-0000-0000-0000-000000000005\ntype: momentum.checklist\ncount: num 42\n---\nhello";
    let doc = parse_document(text).expect("well-formed");
    assert_eq!(doc.id, 5);
    assert_eq!(doc.ty, "momentum.checklist");
    assert_eq!(doc.body, "hello");
    match doc.fm.get("count") {
        Some(FmValue::Num(n)) => assert_eq!(*n, 42),
        _ => panic!("count lost"),
    }
}

#[test]
fn corrupt_texts_are_refused() {
    let cases = [
        "no frontmatter at all",
        "---\nuuid: 00000000-0000-0000-0000-000000000005\ntype: t",
        "uuid first\n---\n---\n",
        "---\ntype: only.a.type\n---\nbody",
        "---\nuuid: 00000000-0000-0000-0000-000000000005\n---\nbody",
        "---\nuuid: not-a-uuid\ntype: t\n---\n",
        "---\nuuid: 00000000-0000-0000-0000-000000000005\ntype: t\nn: num 12x\n---\n",
        "---\nuuid: 00000000-0000-0000-0000-000000000005\ntype: t\nbad line without colon\n---\n",
        "---\nuuid: 00000000-0000-0000-0000-000000000005\ntype: t\nf: bool maybe\n---\n",
        "---\nuuid: 00000000-0000-0000-0000-000000000005\ntype: t\nf: null extra\n---\n",
    ];
    for text in cases {
        match parse_document(text) {
            Err(StoreError::Corrupt) => {}
            other => panic!("{text:?} must be corrupt, got {:?}", other.is_ok()),
        }
    }
}

#[test]
fn number_payloads_round_trip() {
    let mut fm = Fm::new();
    fm.set("n".to_string(), FmValue::Num(u64::MAX));
    let doc = Document { id: 7, ty: "t".to_string(), fm, body: String::new() };
    let text = render_document(&doc);
    assert!(text.contains("n: num 18446744073709551615"));
    let parsed = parse_document(&text).expect("parses");
    match parsed.fm.get("n") {
        Some(FmValue::Num(n)) => assert_eq!(*n, u64::MAX),
        _ => panic!("n lost"),
    }
    // one past the top of the range must be refused
    let over = "---\nuuid: 00000000-0000-0000-0000-000000000007\ntype: t\nn: num 18446744073709551616\n---\n";
    assert!(matches!(parse_document(over), Err(StoreError::Corrupt)));
}

#[test]
fn id_text_round_trips() {
    assert_eq!(id_text(5), "00000000-0000-0000-0000-000000000005");
    assert_eq!(parse_id("00000000-0000-0000-0000-000000000005"), Some(5));
    let id = fresh_id();
    assert_eq!(parse_id(&id_text(id)), Some(id));
    assert_eq!(parse_id("not a uuid"), None);
}

#[test]
fn utc_text_renders_epoch_seconds() {
    assert_eq!(utc_text(0), "1970-01-01 00:00:00 UTC");
    assert_eq!(utc_text(1800), "1970-01-01 00:30:00 UTC");
}

#[test]
fn empty_values_render_and_parse() {
    let mut fm = Fm::new();
    fm.set("note".to_string(), FmValue::Text(String::new()));
    fm.set("items".to_string(), FmValue::Items(Vec::new()));
    let doc = Document { id: 9, ty: "t".to_string(), fm, body: String::new() };
    let text = render_document(&doc);
    let parsed = parse_document(&text).expect("parses");
    match parsed.fm.get("note") {
        Some(FmValue::Text(s)) => assert_eq!(s, ""),
        _ => panic!("note lost"),
    }
    match parsed.fm.get("items") {
        Some(FmValue::Items(items)) => assert!(items.is_empty()),
        _ => panic!("items lost"),
    }
}

#[test]
fn index_text_round_trips() {
    let idx = Index {
        active_session: Some(7),
        checklist: None,
        fp: Fingerprint { count: 12, stamp: 99 },
    };
    let text = render_index(&idx);
    assert_eq!(
        text,
        "active_session: 00000000-0000-0000-0000-000000000007\nchecklist: -\ncount: 12\nstamp: 99"
    );
    let back = parse_index(&text).expect("parses");
    assert_eq!(back.active_session, Some(7));
    assert_eq!(back.checklist, None);
    assert_eq!(back.fp.count, 12);
    assert_eq!(back.fp.stamp, 99);
    assert!(parse_index("not an index").is_none());
    assert!(parse_index("active_session: -\nchecklist: -\ncount: x\nstamp: 0").is_none());
}
