use learnme::session::checksum::{compute_checksum, to_decimal, to_hex_lower};
use learnme::session::export::{assemble_export, finish_export, ExportCategory, ExportStudy};
use learnme::types::{Card, Category, ReviewLog, Study};
use learnme::session::import::{
    check_session_file, conflict_winner, first_step, next_step, resolve_conflict,
    validate_fk_integrity, validate_version, verify_checksum, ImportAction, ImportAnswer,
    ImportError, ImportStep, Winner, MAX_SUPPORTED_VERSION,
};
use learnme::session::types::{
    ImportMode, LearnmeCard, LearnmeCategory, LearnmeData, LearnmeFile, LearnmeReviewLog,
    LearnmeStudy,
};

const EMPTY_DATA_JSON: &str = r#"{"cards":[],"categories":[],"reviewLogs":[],"studies":[]}"#;
const EMPTY_DATA_CHECKSUM: &str =
    "8eeae9ce26c95626999858d26b1f4e6e7085bf76849e3574db8cfd348257d6ee";

fn minimal_data() -> LearnmeData {
    LearnmeData {
        categories: vec![],
        studies: vec![],
        cards: vec![],
        review_logs: vec![],
    }
}

fn empty_file() -> LearnmeFile {
    let export = assemble_export(&vec![], &vec![]);
    finish_export(export, EMPTY_DATA_JSON, "0.1.0").unwrap()
}

// ── checksum ────────────────────────────────────────────────────────────────

#[test]
fn phase7_unit_checksum_returns_64_char_hex() {
    let result = compute_checksum(EMPTY_DATA_JSON, "0.1.0", "2026-01-01T00:00:00Z", 1);
    assert!(result.is_ok());
    let hex = result.unwrap();
    assert_eq!(hex.len(), 64, "SHA-256 must be 64 hex chars");
    assert!(hex.chars().all(|c| c.is_ascii_hexdigit()), "must be hex");
}

#[test]
fn phase7_unit_checksum_determinism() {
    let a = compute_checksum(EMPTY_DATA_JSON, "0.1.0", "2026-01-01T00:00:00Z", 1).unwrap();
    let b = compute_checksum(EMPTY_DATA_JSON, "0.1.0", "2026-01-01T00:00:00Z", 1).unwrap();
    assert_eq!(a, b, "checksum must be deterministic");
}

#[test]
fn phase7_unit_checksum_canonical_key_order() {
    let data1 = r#"{"cards":[],"categories":[{"color":null,"id":"cat-1","name":"X"}],"reviewLogs":[],"studies":[]}"#;
    let data2 = data1.to_string();
    let h1 = compute_checksum(data1, "0.1.0", "2026-01-01T00:00:00Z", 1).unwrap();
    let h2 = compute_checksum(&data2, "0.1.0", "2026-01-01T00:00:00Z", 1).unwrap();
    assert_eq!(h1, h2);
}

#[test]
fn phase7_unit_checksum_sensitive_to_content() {
    let data_b = r#"{"cards":[],"categories":[{"color":null,"id":"cat-extra","name":"Extra"}],"reviewLogs":[],"studies":[]}"#;
    let ha = compute_checksum(EMPTY_DATA_JSON, "0.1.0", "2026-01-01T00:00:00Z", 1).unwrap();
    let hb = compute_checksum(data_b, "0.1.0", "2026-01-01T00:00:00Z", 1).unwrap();
    assert_ne!(ha, hb, "different data must produce different checksums");
}

#[test]
fn checksum_of_empty_data_is_the_sha256_of_the_canonical_text() {
    let h = compute_checksum(EMPTY_DATA_JSON, "0.1.0", "anything", 1).unwrap();
    assert_eq!(h, EMPTY_DATA_CHECKSUM);
    let h0 = compute_checksum(EMPTY_DATA_JSON, "0.1.0", "anything", 0).unwrap();
    assert_eq!(
        h0,
        "75fae3e57f4158b8713af38eabd189d6d975caeb97b12f9d10e15cd31820444e"
    );
}

#[test]
fn checksum_ignores_generation_time() {
    let a = compute_checksum(EMPTY_DATA_JSON, "0.1.0", "2026-01-01T00:00:00Z", 1).unwrap();
    let b = compute_checksum(EMPTY_DATA_JSON, "0.1.0", "2030-06-01T12:00:00Z", 1).unwrap();
    assert_eq!(a, b);
}

#[test]
fn hex_and_decimal_writers() {
    assert_eq!(to_hex_lower(&[0x00, 0x0f, 0xa5, 0xff]), "000fa5ff");
    assert_eq!(to_hex_lower(&[]), "");
    assert_eq!(to_decimal(0), "0");
    assert_eq!(to_decimal(7), "7");
    assert_eq!(to_decimal(4294967295), "4294967295");
}

// ── export ──────────────────────────────────────────────────────────────────

#[test]
fn phase7_unit_export_empty_db_valid_checksum() {
    let file = empty_file();
    assert_eq!(file.data.categories.len(), 0);
    assert_eq!(file.data.cards.len(), 0);
    let expected =
        compute_checksum(EMPTY_DATA_JSON, &file.app_version, &file.generated_at, file.version)
            .unwrap();
    assert_eq!(file.checksum, expected);
    assert_eq!(file.checksum, EMPTY_DATA_CHECKSUM);
    assert_eq!(file.version, 1);
    assert_eq!(file.app_version, "0.1.0");
    assert!(!file.generated_at.is_empty());
}

// ── verify_checksum ─────────────────────────────────────────────────────────

#[test]
fn phase7_unit_import_verify_checksum_valid() {
    let file = empty_file();
    let result = verify_checksum(&file, EMPTY_DATA_JSON);
    assert!(result.is_ok(), "self-consistent file must pass: {result:?}");
}

#[test]
fn phase7_unit_import_verify_checksum_tampered() {
    let mut file = empty_file();
    let last = file.checksum.pop().unwrap();
    file.checksum.push(if last == '0' { '1' } else { '0' });
    let result = verify_checksum(&file, EMPTY_DATA_JSON);
    assert!(
        matches!(result, Err(ImportError::ChecksumMismatch { .. })),
        "tampered checksum must fail: {result:?}"
    );
}

#[test]
fn phase7_unit_import_verify_checksum_empty_string() {
    let mut file = empty_file();
    file.checksum = "".into();
    let result = verify_checksum(&file, EMPTY_DATA_JSON);
    assert!(
        matches!(result, Err(ImportError::ChecksumMismatch { .. })),
        "empty checksum must fail: {result:?}"
    );
}

#[test]
fn checksum_mismatch_reports_both_values() {
    let mut file = empty_file();
    file.checksum = "abc".into();
    let result = verify_checksum(&file, EMPTY_DATA_JSON);
    assert_eq!(
        result,
        Err(ImportError::ChecksumMismatch {
            expected: EMPTY_DATA_CHECKSUM.to_string(),
            actual: "abc".to_string(),
        })
    );
}

// ── validate_version ────────────────────────────────────────────────────────

#[test]
fn phase7_unit_validate_version_one_ok() {
    assert!(validate_version(1).is_ok());
}

#[test]
fn phase7_unit_validate_version_zero_ok() {
    assert!(validate_version(0).is_ok(), "version 0 is backward-compat");
}

#[test]
fn phase7_unit_validate_version_two_err() {
    let result = validate_version(2);
    assert!(
        matches!(result, Err(ImportError::UnsupportedVersion { found: 2, .. })),
        "version 2 must error: {result:?}"
    );
}

#[test]
fn phase7_unit_validate_version_ninety_nine_err() {
    let result = validate_version(99);
    assert!(
        matches!(result, Err(ImportError::UnsupportedVersion { found: 99, .. })),
        "version 99 must error: {result:?}"
    );
}

#[test]
fn unsupported_version_names_the_maximum() {
    assert_eq!(MAX_SUPPORTED_VERSION, 1);
    let e = validate_version(2).unwrap_err();
    assert_eq!(e.message(), "unsupported version 2, max supported is 1");
}

// ── validate_fk_integrity ───────────────────────────────────────────────────

fn category(id: &str) -> LearnmeCategory {
    LearnmeCategory { id: id.into(), name: "Cat".into(), color: None }
}

fn study(id: &str, category_id: &str) -> LearnmeStudy {
    LearnmeStudy {
        id: id.into(),
        category_id: category_id.into(),
        name: "Deck".into(),
        method: "anki".into(),
    }
}

fn file_card(id: &str, study_id: &str) -> LearnmeCard {
    LearnmeCard {
        id: id.into(),
        study_id: study_id.into(),
        front: "f".into(),
        back: "b".into(),
        tags: vec![],
        state: "new".into(),
        stability_bits: 0.0f64.to_bits(),
        difficulty_bits: 0.0f64.to_bits(),
        elapsed_days: 0,
        scheduled_days: 0,
        reps: 0,
        lapses: 0,
        due: "2026-01-15T10:00:00Z".into(),
        last_reviewed: None,
    }
}

fn review_log(id: &str, card_id: &str) -> LearnmeReviewLog {
    LearnmeReviewLog {
        id: id.into(),
        card_id: card_id.into(),
        grade: 3,
        reviewed_at: "2026-01-15T09:00:00Z".into(),
        stability_bits: 5.0f64.to_bits(),
        difficulty_bits: 0.3f64.to_bits(),
        elapsed_days: 1,
        scheduled_days: 7,
        review_state: 1,
    }
}

#[test]
fn phase7_unit_fk_orphan_card() {
    let data = LearnmeData {
        categories: vec![category("cat-1")],
        studies: vec![study("study-1", "cat-1")],
        cards: vec![file_card("card-1", "nonexistent-study")],
        review_logs: vec![],
    };
    let result = validate_fk_integrity(&data);
    assert!(
        matches!(result, Err(ImportError::OrphanEntity { ref entity, .. }) if entity == "card"),
        "orphan card must error: {result:?}"
    );
}

#[test]
fn phase7_unit_fk_orphan_reviewlog() {
    let data = LearnmeData {
        categories: vec![category("cat-1")],
        studies: vec![study("study-1", "cat-1")],
        cards: vec![file_card("card-1", "study-1")],
        review_logs: vec![review_log("log-1", "nonexistent-card")],
    };
    let result = validate_fk_integrity(&data);
    assert!(
        matches!(result, Err(ImportError::OrphanEntity { ref entity, .. }) if entity == "reviewLog"),
        "orphan reviewLog must error: {result:?}"
    );
}

#[test]
fn phase7_unit_fk_orphan_study() {
    let data = LearnmeData {
        categories: vec![category("cat-1")],
        studies: vec![study("study-1", "nonexistent-category")],
        cards: vec![],
        review_logs: vec![],
    };
    let result = validate_fk_integrity(&data);
    assert!(
        matches!(result, Err(ImportError::OrphanEntity { ref entity, .. }) if entity == "study"),
        "orphan study must error: {result:?}"
    );
}

#[test]
fn phase7_unit_fk_valid_data_ok() {
    let data = LearnmeData {
        categories: vec![category("cat-1")],
        studies: vec![study("study-1", "cat-1")],
        cards: vec![file_card("card-1", "study-1")],
        review_logs: vec![],
    };
    assert!(validate_fk_integrity(&data).is_ok());
}

#[test]
fn fk_orphan_reports_the_first_study_before_cards() {
    let data = LearnmeData {
        categories: vec![],
        studies: vec![study("s-1", "c-9")],
        cards: vec![file_card("k-1", "s-404")],
        review_logs: vec![review_log("l-1", "k-404")],
    };
    assert_eq!(
        validate_fk_integrity(&data),
        Err(ImportError::OrphanEntity {
            entity: "study".into(),
            id: "s-1".into(),
            missing_ref: "c-9".into(),
        })
    );
}

// ── resolve_conflict ────────────────────────────────────────────────────────

fn make_card(id: &str, reps: i64, last_reviewed: Option<&str>, stability: f64) -> LearnmeCard {
    LearnmeCard {
        id: id.into(),
        study_id: "study-1".into(),
        front: "casa".into(),
        back: "house".into(),
        tags: vec![],
        state: "review".into(),
        stability_bits: stability.to_bits(),
        difficulty_bits: 0.3f64.to_bits(),
        elapsed_days: 5,
        scheduled_days: 10,
        reps,
        lapses: 0,
        due: "2026-01-20T10:00:00Z".into(),
        last_reviewed: last_reviewed.map(String::from),
    }
}

#[test]
fn phase7_unit_conflict_existing_wins() {
    let existing = make_card("existing", 5, Some("2026-01-10T00:00:00Z"), 15.0);
    let incoming = make_card("incoming", 3, Some("2026-01-08T00:00:00Z"), 5.0);
    let winner = resolve_conflict(&existing, &incoming);
    assert_eq!(winner.id, "existing", "higher reps must win");
    assert_eq!(f64::from_bits(winner.stability_bits), 15.0);
}

#[test]
fn phase7_unit_conflict_incoming_wins() {
    let existing = make_card("existing", 2, Some("2026-01-05T00:00:00Z"), 5.0);
    let incoming = make_card("incoming", 4, Some("2026-01-09T00:00:00Z"), 12.0);
    let winner = resolve_conflict(&existing, &incoming);
    assert_eq!(winner.id, "incoming", "higher reps must win");
    assert_eq!(f64::from_bits(winner.stability_bits), 12.0);
}

#[test]
fn phase7_unit_conflict_tiebreak_by_date() {
    let existing = make_card("existing", 3, None, 8.0);
    let incoming = make_card("incoming", 3, Some("2026-01-09T00:00:00Z"), 8.0);
    let winner = resolve_conflict(&existing, &incoming);
    assert_eq!(winner.id, "incoming", "tiebreak: date present beats null");
}

#[test]
fn conflict_ties_go_to_the_later_review_then_to_the_stored_card() {
    let a = make_card("a", 3, Some("2026-01-09T00:00:00Z"), 1.0);
    let b = make_card("b", 3, Some("2026-01-10T00:00:00Z"), 1.0);
    assert_eq!(conflict_winner(&a, &b), Winner::Incoming);
    assert_eq!(conflict_winner(&b, &a), Winner::Existing);
    let c = make_card("c", 3, None, 1.0);
    let d = make_card("d", 3, None, 1.0);
    assert_eq!(conflict_winner(&c, &d), Winner::Existing);
    assert_eq!(conflict_winner(&a, &c), Winner::Existing);
    assert_eq!(conflict_winner(&a, &a.clone()), Winner::Existing);
}

// ── the plan of an import ───────────────────────────────────────────────────

#[test]
fn replace_import_starts_with_a_wipe() {
    let data = minimal_data();
    assert_eq!(first_step(&data, ImportMode::Replace).step, ImportStep::WipeAll);
    assert_eq!(first_step(&data, ImportMode::Merge).step, ImportStep::Done);
    assert!(!first_step(&data, ImportMode::Merge).now.is_empty());
}

#[test]
fn merge_plan_walks_every_record_in_order() {
    let data = LearnmeData {
        categories: vec![category("c1"), category("c2")],
        studies: vec![study("s1", "c1")],
        cards: vec![file_card("k1", "s1")],
        review_logs: vec![review_log("l1", "k1")],
    };
    let start = first_step(&data, ImportMode::Merge);
    assert_eq!(start.step, ImportStep::CheckCategory(0));

    let (a, s) = next_step(&data, start.step, ImportAnswer::Exists(true));
    assert_eq!(a, ImportAction::Nothing);
    assert_eq!(s, ImportStep::CheckCategory(1));
    let (a, s) = next_step(&data, s, ImportAnswer::Exists(false));
    assert_eq!(a, ImportAction::InsertCategory(1));
    assert_eq!(s, ImportStep::CheckStudy(0));
    let (a, s) = next_step(&data, s, ImportAnswer::Exists(false));
    assert_eq!(a, ImportAction::InsertStudy(0));
    assert_eq!(s, ImportStep::FindCardById(0));
    let (a, s) = next_step(&data, s, ImportAnswer::Found(None));
    assert_eq!(a, ImportAction::Nothing);
    assert_eq!(s, ImportStep::FindCardByContent(0));
    let (a, s) = next_step(&data, s, ImportAnswer::Found(None));
    assert_eq!(a, ImportAction::InsertCard(0));
    assert_eq!(s, ImportStep::CheckReviewLog(0));
    let (a, s) = next_step(&data, s, ImportAnswer::Exists(false));
    assert_eq!(a, ImportAction::InsertReviewLog(0));
    assert_eq!(s, ImportStep::Done);
}

#[test]
fn wipe_then_categories() {
    let data = LearnmeData {
        categories: vec![category("c1")],
        studies: vec![],
        cards: vec![],
        review_logs: vec![],
    };
    let (a, s) = next_step(&data, ImportStep::WipeAll, ImportAnswer::Wiped);
    assert_eq!(a, ImportAction::Nothing);
    assert_eq!(s, ImportStep::CheckCategory(0));
}

#[test]
fn stored_card_with_more_reviews_is_kept() {
    let mut incoming = make_card("k1", 3, Some("2026-01-08T00:00:00Z"), 5.0);
    incoming.study_id = "s1".into();
    let data = LearnmeData {
        categories: vec![],
        studies: vec![],
        cards: vec![incoming],
        review_logs: vec![],
    };
    let stored = make_card("k1", 10, Some("2026-01-25T10:00:00Z"), 15.0);
    let (a, s) = next_step(&data, ImportStep::FindCardById(0), ImportAnswer::Found(Some(stored)));
    assert_eq!(a, ImportAction::Nothing);
    assert_eq!(s, ImportStep::Done);
}

#[test]
fn file_card_with_more_reviews_updates_the_stored_one() {
    let incoming = make_card("k1", 10, Some("2026-01-25T10:00:00Z"), 15.0);
    let data = LearnmeData {
        categories: vec![],
        studies: vec![],
        cards: vec![incoming],
        review_logs: vec![],
    };
    let stored = make_card("stored-id", 3, Some("2026-01-08T00:00:00Z"), 5.0);
    let (a, _) = next_step(&data, ImportStep::FindCardByContent(0), ImportAnswer::Found(Some(stored)));
    assert_eq!(
        a,
        ImportAction::UpdateCard { target_id: "stored-id".into(), source: 0 }
    );
}

// ── all checks together ─────────────────────────────────────────────────────

#[test]
fn session_checks_run_in_order() {
    let mut file = empty_file();
    assert_eq!(check_session_file(&file, EMPTY_DATA_JSON), Ok(()));
    file.version = 2;
    file.checksum = "bad".into();
    assert_eq!(
        check_session_file(&file, EMPTY_DATA_JSON),
        Err(ImportError::UnsupportedVersion { found: 2, max: 1 })
    );
    let mut file = empty_file();
    file.data.studies.push(study("s", "missing"));
    assert!(matches!(
        check_session_file(&file, EMPTY_DATA_JSON),
        Err(ImportError::OrphanEntity { .. })
    ));
}

#[test]
fn import_error_messages() {
    assert_eq!(
        ImportError::ChecksumMismatch { expected: "a".into(), actual: "b".into() }.message(),
        "checksum mismatch: expected a, got b"
    );
    assert_eq!(
        ImportError::OrphanEntity {
            entity: "card".into(),
            id: "k".into(),
            missing_ref: "s".into()
        }
        .message(),
        "orphan entity: card id=k references missing s"
    );
    assert_eq!(ImportError::Validation("x".into()).message(), "validation error: x");
    assert_eq!(ImportError::Db("x".into()).message(), "database: x");
    assert_eq!(ImportError::Serialization("x".into()).message(), "serialization: x");
    assert_eq!(ImportError::Io("x".into()).message(), "io: x");
}

// ── export, then import into an empty store ─────────────────────────────────

fn stored_tree() -> (Vec<ExportCategory>, Vec<ReviewLog>) {
    let category = Category {
        id: "cat-1".into(),
        name: "Idiomas".into(),
        color: None,
        created_at: "2026-01-01T00:00:00Z".into(),
        updated_at: "2026-01-01T00:00:00Z".into(),
    };
    let study = Study {
        id: "study-1".into(),
        category_id: "cat-1".into(),
        method: "anki".into(),
        name: "Deck".into(),
        payload: serde_json::Value::Null,
        created_at: "2026-01-01T00:00:00Z".into(),
        updated_at: "2026-01-01T00:00:00Z".into(),
    };
    let card = Card {
        id: "card-1".into(),
        deck_id: "study-1".into(),
        front: "correr".into(),
        back: "to run".into(),
        tags: vec!["verb".into()],
        stability_bits: 2.5f64.to_bits(),
        difficulty_bits: 5.0f64.to_bits(),
        due: "2026-01-20T10:00:00Z".into(),
        last_review: Some("2026-01-10T10:00:00Z".into()),
        state: "review".into(),
        reps: 3,
        lapses: 0,
    };
    let log = ReviewLog {
        id: "log-1".into(),
        card_id: "card-1".into(),
        grade: 3,
        reviewed_at: "2026-01-10T10:00:00Z".into(),
        prev_stability_bits: 1.0f64.to_bits(),
        prev_difficulty_bits: 5.0f64.to_bits(),
        prev_due: "2026-01-10T00:00:00Z".into(),
    };
    let tree = vec![ExportCategory {
        category,
        studies: vec![ExportStudy { study, cards: vec![card] }],
    }];
    (tree, vec![log])
}

#[test]
fn exported_session_passes_checks_and_imports_every_record() {
    let (tree, logs) = stored_tree();
    let export = assemble_export(&tree, &logs);
    assert_eq!(export.data.categories.len(), 1);
    assert_eq!(export.data.studies[0].category_id, "cat-1");
    let card = &export.data.cards[0];
    assert_eq!(card.study_id, "study-1");
    assert_eq!(card.scheduled_days, 10);
    assert_eq!(card.last_reviewed.as_deref(), Some("2026-01-10T10:00:00Z"));
    assert_eq!(export.data.review_logs[0].card_id, "card-1");
    assert_eq!(f64::from_bits(export.data.review_logs[0].stability_bits), 1.0);
    let data_json = r#"{"some":"text"}"#;
    let file = finish_export(export, data_json, "0.1.0").unwrap();
    assert_eq!(check_session_file(&file, data_json), Ok(()));

    let mut step = first_step(&file.data, ImportMode::Replace).step;
    let mut writes = Vec::new();
    while step != ImportStep::Done {
        let answer = match step {
            ImportStep::WipeAll => ImportAnswer::Wiped,
            ImportStep::FindCardById(_) | ImportStep::FindCardByContent(_) => ImportAnswer::Found(None),
            _ => ImportAnswer::Exists(false),
        };
        let (action, next) = next_step(&file.data, step, answer);
        if action != ImportAction::Nothing {
            writes.push(action);
        }
        step = next;
    }
    assert_eq!(
        writes,
        vec![
            ImportAction::InsertCategory(0),
            ImportAction::InsertStudy(0),
            ImportAction::InsertCard(0),
            ImportAction::InsertReviewLog(0),
        ]
    );
}

#[test]
fn reimported_card_is_left_alone() {
    let (tree, logs) = stored_tree();
    let data = assemble_export(&tree, &logs).data;
    let stored = data.cards[0].clone();
    let (action, _) = next_step(&data, ImportStep::FindCardById(0), ImportAnswer::Found(Some(stored)));
    assert_eq!(action, ImportAction::Nothing);
}

#[test]
fn repeated_merge_writes_nothing() {
    let (tree, logs) = stored_tree();
    let data = assemble_export(&tree, &logs).data;
    let mut step = first_step(&data, ImportMode::Merge).step;
    let mut writes = Vec::new();
    while step != ImportStep::Done {
        let answer = match step {
            ImportStep::FindCardById(i) | ImportStep::FindCardByContent(i) => {
                ImportAnswer::Found(Some(data.cards[i].clone()))
            }
            _ => ImportAnswer::Exists(true),
        };
        let (action, next) = next_step(&data, step, answer);
        if action != ImportAction::Nothing {
            writes.push(action);
        }
        step = next;
    }
    assert!(writes.is_empty());
}

#[test]
fn merge_again_after_a_content_match_rewrites_the_same_state() {
    let file_card = make_card("file-id", 5, Some("2026-01-20T10:00:00Z"), 9.0);
    let data = LearnmeData {
        categories: vec![],
        studies: vec![],
        cards: vec![file_card.clone()],
        review_logs: vec![],
    };
    // First merge: the card is not stored under its id; a stored card with the
    // same content and fewer reviews is updated from the file card.
    let stored = make_card("stored-id", 2, Some("2026-01-05T10:00:00Z"), 3.0);
    let (a, s) = next_step(&data, ImportStep::FindCardById(0), ImportAnswer::Found(None));
    assert_eq!(a, ImportAction::Nothing);
    let (a, _) = next_step(&data, s, ImportAnswer::Found(Some(stored.clone())));
    assert_eq!(a, ImportAction::UpdateCard { target_id: "stored-id".into(), source: 0 });
    let mut after = stored;
    after.stability_bits = file_card.stability_bits;
    after.difficulty_bits = file_card.difficulty_bits;
    after.due = file_card.due.clone();
    after.last_reviewed = file_card.last_reviewed.clone();
    after.state = file_card.state.clone();
    after.reps = file_card.reps;
    after.lapses = file_card.lapses;
    after.tags = file_card.tags.clone();
    // Second merge: the update it writes gives the card the state it holds.
    let (a, _) = next_step(&data, ImportStep::FindCardByContent(0), ImportAnswer::Found(Some(after.clone())));
    assert_eq!(a, ImportAction::UpdateCard { target_id: "stored-id".into(), source: 0 });
    assert_eq!(after.reps, file_card.reps);
    assert_eq!(after.stability_bits, file_card.stability_bits);
    // A stored card that won the first merge is left alone the second time.
    let winner = make_card("file-id", 8, Some("2026-01-25T10:00:00Z"), 20.0);
    let (a, _) = next_step(&data, ImportStep::FindCardById(0), ImportAnswer::Found(Some(winner)));
    assert_eq!(a, ImportAction::Nothing);
}

#[test]
fn two_exports_of_the_same_records_agree() {
    let (tree, logs) = stored_tree();
    let a = assemble_export(&tree, &logs).data;
    let b = assemble_export(&tree, &logs).data;
    assert_eq!(a.categories[0].id, b.categories[0].id);
    assert_eq!(a.studies[0].id, b.studies[0].id);
    assert_eq!(a.cards[0].elapsed_days, b.cards[0].elapsed_days);
    assert_eq!(a.cards[0].scheduled_days, b.cards[0].scheduled_days);
    assert_eq!(a.review_logs[0].id, b.review_logs[0].id);
}
