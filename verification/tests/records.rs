use learnme::commands::card::{to_create_cards, CardInput};
use learnme::commands::category::{to_create_category, CreateCategoryPayload};
use learnme::commands::study::{to_create_study, CreateStudyPayload};
use learnme::error::{require_affected, RepoError, ValidationError, SQLITE_CONSTRAINT_FOREIGNKEY};
use learnme::repo::card::{
    copy_tags, decode_tags, encode_tags, new_batch, new_card, new_full_batch, prepare_edit,
    CreateCard, CreateCardFull,
};
use learnme::repo::category::{self, CreateCategory, UpdateCategory};
use learnme::repo::review_log::{self, CreateReviewLog};
use learnme::repo::study::{self, CreateStudy, UpdateStudy};
use learnme::validate::{validate_card_text, validate_name, validate_setting_key};

fn card(front: &str, back: &str) -> CreateCard {
    CreateCard { front: front.into(), back: back.into(), tags: vec![] }
}

// ── validation ──────────────────────────────────────────────────────────────

#[test]
fn validate_name_trims_and_refuses_blank() {
    assert_eq!(validate_name("  Idiomas \t"), Ok("Idiomas".to_string()));
    assert_eq!(validate_name(""), Err(ValidationError::EmptyName));
    assert_eq!(validate_name("   "), Err(ValidationError::EmptyName));
    assert_eq!(validate_name("\u{3000}\u{a0}"), Err(ValidationError::EmptyName));
}

#[test]
fn validate_card_text_checks_front_first() {
    assert_eq!(
        validate_card_text(" casa ", " house "),
        Ok(("casa".to_string(), "house".to_string()))
    );
    assert_eq!(
        validate_card_text("  ", "  "),
        Err(RepoError::Validation(ValidationError::EmptyFront))
    );
    assert_eq!(
        validate_card_text("word", "   "),
        Err(RepoError::Validation(ValidationError::EmptyBack))
    );
}

#[test]
fn setting_key_must_not_be_blank() {
    assert_eq!(validate_setting_key("theme"), Ok(()));
    assert_eq!(
        validate_setting_key(""),
        Err(RepoError::Validation(ValidationError::EmptyName))
    );
    assert_eq!(
        validate_setting_key("  "),
        Err(RepoError::Validation(ValidationError::EmptyName))
    );
}

// ── errors ──────────────────────────────────────────────────────────────────

#[test]
fn foreign_key_failures_are_recognised() {
    assert_eq!(SQLITE_CONSTRAINT_FOREIGNKEY, 787);
    assert_eq!(
        RepoError::from_sqlite(Some(787), "FOREIGN KEY constraint failed".into()),
        RepoError::ForeignKeyViolation
    );
    assert_eq!(
        RepoError::from_sqlite(Some(2067), "UNIQUE constraint failed".into()),
        RepoError::Db("UNIQUE constraint failed".into())
    );
    assert_eq!(
        RepoError::from_sqlite(None, "disk I/O error".into()),
        RepoError::Db("disk I/O error".into())
    );
}

#[test]
fn no_row_changed_means_not_found() {
    assert_eq!(require_affected(0), Err(RepoError::NotFound));
    assert_eq!(require_affected(1), Ok(()));
    assert_eq!(require_affected(3), Ok(()));
}

#[test]
fn error_messages() {
    assert_eq!(ValidationError::EmptyName.message(), "name cannot be empty");
    assert_eq!(ValidationError::EmptyFront.message(), "front cannot be empty");
    assert_eq!(ValidationError::EmptyBack.message(), "back cannot be empty");
    assert_eq!(ValidationError::InvalidGrade.message(), "grade must be between 1 and 4");
    assert_eq!(RepoError::NotFound.message(), "record not found");
    assert_eq!(RepoError::ForeignKeyViolation.message(), "foreign key violation");
    assert_eq!(
        RepoError::Validation(ValidationError::EmptyBack).message(),
        "validation: back cannot be empty"
    );
    assert_eq!(RepoError::Migration("m".into()).message(), "migration: m");
    assert_eq!(RepoError::Db("d".into()).message(), "database: d");
}

// ── cards ───────────────────────────────────────────────────────────────────

#[test]
fn new_card_is_trimmed_and_unreviewed() {
    let input = CreateCard {
        front: "  casa ".into(),
        back: " house".into(),
        tags: vec!["noun".into()],
    };
    let row = new_card("deck-1", input).unwrap();
    assert_eq!(row.card.id.len(), 36);
    assert_eq!(row.card.deck_id, "deck-1");
    assert_eq!(row.card.front, "casa");
    assert_eq!(row.card.back, "house");
    assert_eq!(row.card.tags, vec!["noun".to_string()]);
    assert_eq!(row.tags_json, r#"["noun"]"#);
    assert_eq!(row.card.state, "new");
    assert_eq!(row.card.reps, 0);
    assert_eq!(row.card.lapses, 0);
    assert_eq!(row.card.stability_bits, 0);
    assert_eq!(row.card.difficulty_bits, 0);
    assert!(row.card.last_review.is_none());
    assert!(!row.card.due.is_empty());
}

#[test]
fn add_card_empty_front() {
    assert_eq!(
        new_card("d", card("", "house")).err(),
        Some(RepoError::Validation(ValidationError::EmptyFront))
    );
}

#[test]
fn add_card_empty_back() {
    assert_eq!(
        new_card("d", card("casa", "")).err(),
        Some(RepoError::Validation(ValidationError::EmptyBack))
    );
}

#[test]
fn add_card_whitespace_only_front() {
    assert_eq!(
        new_card("d", card("   ", "house")).err(),
        Some(RepoError::Validation(ValidationError::EmptyFront))
    );
}

#[test]
fn batch_of_100_cards_shares_one_time() {
    let cards: Vec<CreateCard> = (0..100)
        .map(|i| card(&format!("palabra_{i}"), &format!("word_{i}")))
        .collect();
    let rows = new_batch("deck", cards).unwrap();
    assert_eq!(rows.len(), 100);
    assert_eq!(rows[0].card.front, "palabra_0");
    assert_eq!(rows[99].card.back, "word_99");
    assert!(rows.iter().all(|r| r.card.due == rows[0].card.due));
    assert!(rows.iter().all(|r| r.card.state == "new"));
}

#[test]
fn empty_batch_gives_no_rows() {
    assert_eq!(new_batch("deck", vec![]).unwrap().len(), 0);
}

#[test]
fn batch_refused_whole_on_first_bad_card() {
    let cards = vec![card("ok", "fine"), card("word", "   "), card("", "x")];
    assert_eq!(
        new_batch("deck", cards).err(),
        Some(RepoError::Validation(ValidationError::EmptyBack))
    );
}

#[test]
fn full_batch_keeps_scheduling_state() {
    let c = CreateCardFull {
        front: " a ".into(),
        back: "b".into(),
        tags: vec!["x".into(), "y".into()],
        stability_bits: 3.5f64.to_bits(),
        difficulty_bits: 5.0f64.to_bits(),
        due: "2026-03-01T00:00:00Z".into(),
        last_review: Some("2026-02-20T00:00:00Z".into()),
        state: "review".into(),
        reps: 4,
        lapses: 1,
    };
    let rows = new_full_batch("deck", vec![c]).unwrap();
    let r = &rows[0];
    assert_eq!(r.card.front, "a");
    assert_eq!(f64::from_bits(r.card.stability_bits), 3.5);
    assert_eq!(r.card.due, "2026-03-01T00:00:00Z");
    assert_eq!(r.card.last_review.as_deref(), Some("2026-02-20T00:00:00Z"));
    assert_eq!(r.card.state, "review");
    assert_eq!(r.card.reps, 4);
    assert_eq!(r.card.lapses, 1);
    assert_eq!(r.tags_json, r#"["x","y"]"#);
}

#[test]
fn edit_refuses_blank_sides() {
    let tags = vec!["run".to_string(), "correr".to_string()];
    let edit = prepare_edit(" hogar ", " home ", &tags).unwrap();
    assert_eq!(edit.front, "hogar");
    assert_eq!(edit.back, "home");
    assert_eq!(edit.tags_json, r#"["run","correr"]"#);
    assert_eq!(
        prepare_edit("   ", "home", &tags).err(),
        Some(RepoError::Validation(ValidationError::EmptyFront))
    );
    assert_eq!(
        prepare_edit("casa", "   ", &tags).err(),
        Some(RepoError::Validation(ValidationError::EmptyBack))
    );
}

#[test]
fn tags_round_trip_through_json() {
    let tags = vec!["a \"quoted\"".to_string(), "ñ".to_string()];
    let text = encode_tags(&tags);
    assert_eq!(text, r#"["a \"quoted\"","ñ"]"#);
    assert_eq!(decode_tags(&text), tags);
    assert_eq!(encode_tags(&vec![]), "[]");
    assert_eq!(decode_tags("not json"), Vec::<String>::new());
    assert_eq!(copy_tags(&tags), tags);
}

// ── categories, studies, reviews ────────────────────────────────────────────

#[test]
fn category_create_happy_path() {
    let c = category::new_record(CreateCategory { name: " Idiomas ".into(), color: Some("#fff".into()) })
        .unwrap();
    assert_eq!(c.name, "Idiomas");
    assert_eq!(c.color.as_deref(), Some("#fff"));
    assert_eq!(c.id.len(), 36, "id must be set");
    assert_eq!(c.created_at, c.updated_at);
}

#[test]
fn category_create_empty_name_errors() {
    assert_eq!(
        category::new_record(CreateCategory { name: "".into(), color: None }).err(),
        Some(RepoError::Validation(ValidationError::EmptyName))
    );
}

#[test]
fn create_whitespace_name_errors() {
    assert_eq!(
        category::new_record(CreateCategory { name: "   ".into(), color: None }).err(),
        Some(RepoError::Validation(ValidationError::EmptyName))
    );
}

#[test]
fn update_empty_name_errors() {
    assert_eq!(
        category::prepare_update(UpdateCategory { name: "".into(), color: None }).err(),
        Some(RepoError::Validation(ValidationError::EmptyName))
    );
    let ch = category::prepare_update(UpdateCategory { name: " Languages ".into(), color: None })
        .unwrap();
    assert_eq!(ch.name, "Languages");
    assert!(!ch.updated_at.is_empty());
}

#[test]
fn study_create_happy_path() {
    let row = study::new_record(CreateStudy {
        category_id: "cat".into(),
        method: "anki".into(),
        name: " Spanish A2 ".into(),
        payload: serde_json::Value::Object(serde_json::Map::new()),
    })
    .unwrap();
    assert_eq!(row.study.name, "Spanish A2");
    assert_eq!(row.study.method, "anki");
    assert_eq!(row.study.category_id, "cat");
    assert_eq!(row.study.id.len(), 36);
    assert_eq!(row.payload_json, "{}");
}

#[test]
fn study_create_empty_name_errors() {
    assert_eq!(
        study::new_record(CreateStudy {
            category_id: "cat".into(),
            method: "anki".into(),
            name: "  ".into(),
            payload: serde_json::Value::Null,
        })
        .err()
        .map(|e| e.message()),
        Some("validation: name cannot be empty".to_string())
    );
    assert_eq!(
        study::prepare_update(UpdateStudy { name: "".into() }).err(),
        Some(RepoError::Validation(ValidationError::EmptyName))
    );
    assert_eq!(
        study::prepare_update(UpdateStudy { name: " Nombre Nuevo ".into() }).unwrap().name,
        "Nombre Nuevo"
    );
}

#[test]
fn review_record_keeps_its_fields() {
    let r = review_log::new_record(CreateReviewLog {
        card_id: "card".into(),
        grade: 3,
        reviewed_at: "2026-05-24T12:00:00Z".into(),
        prev_stability_bits: 1.5f64.to_bits(),
        prev_difficulty_bits: 2.5f64.to_bits(),
        prev_due: "2026-05-24T00:00:00Z".into(),
    });
    assert_eq!(r.id.len(), 36);
    assert_eq!(r.card_id, "card");
    assert_eq!(r.grade, 3);
    assert_eq!(r.reviewed_at, "2026-05-24T12:00:00Z");
    assert_eq!(f64::from_bits(r.prev_stability_bits), 1.5);
    assert_eq!(r.prev_due, "2026-05-24T00:00:00Z");
}

// ── command input ───────────────────────────────────────────────────────────

#[test]
fn command_inputs_become_records_as_sent() {
    let cards = to_create_cards(vec![
        CardInput { front: " f ".into(), back: "b".into(), tags: vec!["t".into()] },
        CardInput { front: "g".into(), back: "c".into(), tags: vec![] },
    ]);
    assert_eq!(cards.len(), 2);
    assert_eq!(cards[0].front, " f ");
    assert_eq!(cards[0].tags, vec!["t".to_string()]);
    assert_eq!(cards[1].back, "c");
    let c = to_create_category(CreateCategoryPayload { name: "Test".into(), color: Some("red".into()) });
    assert_eq!(c.name, "Test");
    assert_eq!(c.color.as_deref(), Some("red"));
    let s = to_create_study(CreateStudyPayload {
        category_id: "cat".into(),
        method: "anki".into(),
        name: "Deck".into(),
        payload: serde_json::Value::Bool(true),
    });
    assert_eq!(s.category_id, "cat");
    assert_eq!(s.method, "anki");
    assert_eq!(s.name, "Deck");
    assert_eq!(s.payload, serde_json::Value::Bool(true));
}

#[test]
fn control_characters_in_tags_are_escaped_as_serde_json_does() {
    let tags = vec!["a\u{1}\n\t\"\\/\u{7f}é".to_string()];
    let text = encode_tags(&tags);
    assert_eq!(text, serde_json::to_string(&tags).unwrap());
    assert_eq!(text, "[\"a\\u0001\\n\\t\\\"\\\\/\u{7f}é\"]");
    assert_eq!(decode_tags(&text), tags);
}
