use learnme::methods::anki::import::{
    compute_new_cards, is_known_card, plan_import, CardImportData, CardPayload,
};

fn make_cards(fronts_backs: &[(&str, &str)]) -> Vec<CardPayload> {
    fronts_backs
        .iter()
        .map(|(f, b)| CardPayload {
            front: f.to_string(),
            back: b.to_string(),
            tags: vec![],
        })
        .collect()
}

fn existing_set(fronts_backs: &[(&str, &str)]) -> Vec<(String, String)> {
    fronts_backs
        .iter()
        .map(|(f, b)| (f.to_string(), b.to_string()))
        .collect()
}

#[test]
fn compute_new_cards_no_existing() {
    let incoming = make_cards(&[("a", "1"), ("b", "2"), ("c", "3")]);
    let existing = existing_set(&[]);
    let (to_insert, skipped) = compute_new_cards(&existing, incoming);
    assert_eq!(to_insert.len(), 3);
    assert_eq!(skipped, 0);
}

#[test]
fn compute_new_cards_all_existing() {
    let pairs = [("a", "1"), ("b", "2"), ("c", "3")];
    let incoming = make_cards(&pairs);
    let existing = existing_set(&pairs);
    let (to_insert, skipped) = compute_new_cards(&existing, incoming);
    assert_eq!(to_insert.len(), 0);
    assert_eq!(skipped, 3);
}

#[test]
fn compute_new_cards_partial_overlap() {
    let existing = existing_set(&[("a", "1"), ("b", "2")]);
    let incoming = make_cards(&[("a", "1"), ("b", "2"), ("c", "3"), ("d", "4")]);
    let (to_insert, skipped) = compute_new_cards(&existing, incoming);
    assert_eq!(to_insert.len(), 2);
    assert_eq!(skipped, 2);
    let fronts: Vec<&str> = to_insert.iter().map(|c| c.front.as_str()).collect();
    assert!(fronts.contains(&"c"));
    assert!(fronts.contains(&"d"));
}

#[test]
fn compute_new_cards_empty_deck() {
    let (to_insert, skipped) = compute_new_cards(&existing_set(&[]), vec![]);
    assert_eq!(to_insert.len(), 0);
    assert_eq!(skipped, 0);
}

#[test]
fn compute_new_cards_keeps_incoming_order() {
    let existing = existing_set(&[("b", "2")]);
    let incoming = make_cards(&[("d", "4"), ("b", "2"), ("a", "1")]);
    let (to_insert, skipped) = compute_new_cards(&existing, incoming);
    let fronts: Vec<&str> = to_insert.iter().map(|c| c.front.as_str()).collect();
    assert_eq!(fronts, vec!["d", "a"]);
    assert_eq!(skipped, 1);
}

#[test]
fn known_card_matches_on_trimmed_sides() {
    let existing = existing_set(&[("casa", "house")]);
    assert!(is_known_card(&existing, "  casa ", "house\n"));
    assert!(!is_known_card(&existing, "casa", "home"));
    assert!(!is_known_card(&existing, "Casa", "house"));
}

fn deck_card(front: &str, back: &str) -> CardImportData {
    CardImportData {
        front: front.to_string(),
        back: back.to_string(),
        tags: vec!["t".to_string()],
        stability_bits: None,
        difficulty_bits: None,
        due: None,
        last_review: None,
        state: None,
        reps: None,
        lapses: None,
    }
}

#[test]
fn plan_import_fills_defaults_for_missing_state() {
    let existing = existing_set(&[("a", "1")]);
    let plan = plan_import(&existing, vec![deck_card("a", "1"), deck_card("b", "2")]);
    assert_eq!(plan.result.inserted, 1);
    assert_eq!(plan.result.skipped, 1);
    assert_eq!(plan.cards.len(), 1);
    let c = &plan.cards[0];
    assert_eq!(c.front, "b");
    assert_eq!(c.back, "2");
    assert_eq!(c.tags, vec!["t".to_string()]);
    assert_eq!(c.state, "new");
    assert_eq!(c.reps, 0);
    assert_eq!(c.lapses, 0);
    assert_eq!(c.stability_bits, 0);
    assert_eq!(c.difficulty_bits, 0);
    assert!(c.last_review.is_none());
    assert!(!c.due.is_empty());
}

#[test]
fn plan_import_keeps_carried_state() {
    let mut card = deck_card("x", "y");
    card.stability_bits = Some(4.5f64.to_bits());
    card.difficulty_bits = Some(6.25f64.to_bits());
    card.due = Some("2026-02-01T00:00:00Z".to_string());
    card.last_review = Some("2026-01-20T00:00:00Z".to_string());
    card.state = Some("review".to_string());
    card.reps = Some(7);
    card.lapses = Some(2);
    let plan = plan_import(&existing_set(&[]), vec![card]);
    assert_eq!(plan.result.inserted, 1);
    assert_eq!(plan.result.skipped, 0);
    let c = &plan.cards[0];
    assert_eq!(f64::from_bits(c.stability_bits), 4.5);
    assert_eq!(f64::from_bits(c.difficulty_bits), 6.25);
    assert_eq!(c.due, "2026-02-01T00:00:00Z");
    assert_eq!(c.last_review.as_deref(), Some("2026-01-20T00:00:00Z"));
    assert_eq!(c.state, "review");
    assert_eq!(c.reps, 7);
    assert_eq!(c.lapses, 2);
}

#[test]
fn reimport_same_deck_skips_every_card() {
    let cards = || vec![deck_card(" casa ", "house"), deck_card("perro", " dog")];
    let first = plan_import(&existing_set(&[]), cards());
    assert_eq!(first.result.inserted, 2);
    let stored: Vec<(String, String)> = first
        .cards
        .iter()
        .map(|c| (c.front.trim().to_string(), c.back.trim().to_string()))
        .collect();
    let second = plan_import(&stored, cards());
    assert_eq!(second.result.inserted, 0);
    assert_eq!(second.result.skipped, 2);
    assert!(second.cards.is_empty());
}
