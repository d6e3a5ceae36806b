use learnme::commands::deck::{forecast_window, next_card_after, next_card_start, DeckQuery, NextCard};
use learnme::error::{RepoError, ValidationError};
use learnme::methods::anki::fsrs::{grade_from, parse_state, review_inputs, state_name, CardState, Grade};
use learnme::session::export::{compute_elapsed_days, compute_scheduled_days};
use learnme::stats::{compute_by_state, compute_heatmap, StateCount, HEATMAP_DAYS};
use learnme::text::{is_blank_str, is_white_space, str_less, trim_str};
use learnme::types::Card;

const TODAY_2026_05_25: i32 = 739761;

fn card(state: &str, due: &str, last_review: Option<&str>) -> Card {
    Card {
        id: "c".into(),
        deck_id: "d".into(),
        front: "f".into(),
        back: "b".into(),
        tags: vec![],
        stability_bits: 0,
        difficulty_bits: 0,
        due: due.into(),
        last_review: last_review.map(String::from),
        state: state.into(),
        reps: 0,
        lapses: 0,
    }
}

// ── grades and states ───────────────────────────────────────────────────────

#[test]
fn grades_one_to_four_only() {
    assert_eq!(grade_from(1), Ok(Grade::Again));
    assert_eq!(grade_from(2), Ok(Grade::Hard));
    assert_eq!(grade_from(3), Ok(Grade::Good));
    assert_eq!(grade_from(4), Ok(Grade::Easy));
    assert_eq!(grade_from(0), Err(RepoError::Validation(ValidationError::InvalidGrade)));
    assert_eq!(grade_from(5), Err(RepoError::Validation(ValidationError::InvalidGrade)));
}

#[test]
fn state_names_round_trip() {
    for s in [CardState::New, CardState::Learning, CardState::Review, CardState::Relearning] {
        assert_eq!(parse_state(&state_name(s)), s);
    }
    assert_eq!(state_name(CardState::Relearning), "relearning");
    assert_eq!(parse_state("bogus"), CardState::New);
}

#[test]
fn review_of_a_new_card_has_no_interval() {
    let c = card("new", "2026-01-15T10:00:00Z", None);
    let now = (1768471200i64, 0u32);
    let r = review_inputs(&c, 3, now).unwrap();
    assert_eq!(r.rating, Grade::Good);
    assert_eq!(r.state, CardState::New);
    assert_eq!(r.due, now);
    assert_eq!(r.last_review, now);
    assert_eq!(r.scheduled_days, 0);
}

#[test]
fn review_of_a_review_card_counts_whole_days() {
    let c = card("review", "2026-01-15T10:00:00Z", Some("2026-01-10T10:00:00Z"));
    let r = review_inputs(&c, 1, (1800000000, 0)).unwrap();
    assert_eq!(r.rating, Grade::Again);
    assert_eq!(r.state, CardState::Review);
    assert_eq!(r.due, (1768471200, 0));
    assert_eq!(r.last_review, (1768039200, 0));
    assert_eq!(r.scheduled_days, 5);
}

#[test]
fn review_with_invalid_grade_is_refused() {
    let c = card("new", "2026-01-15T10:00:00Z", None);
    assert!(matches!(
        review_inputs(&c, 0, (0, 0)),
        Err(RepoError::Validation(ValidationError::InvalidGrade))
    ));
    assert!(matches!(
        review_inputs(&c, 5, (0, 0)),
        Err(RepoError::Validation(ValidationError::InvalidGrade))
    ));
}

// ── choosing the next card ──────────────────────────────────────────────────

fn run_choice(learning: Option<Card>, review: Option<Card>, first_new: Option<Card>, new_limit: u32) -> Option<Card> {
    let mut q = next_card_start();
    loop {
        let found = match q {
            DeckQuery::OverdueLearning => learning.clone(),
            DeckQuery::OverdueReview => review.clone(),
            DeckQuery::FirstNew => first_new.clone(),
        };
        match next_card_after(q, found, new_limit) {
            NextCard::Ask(next) => q = next,
            NextCard::Answer(a) => return a,
        }
    }
}

#[test]
fn next_card_priority_learning_before_review_before_new() {
    let mut l = card("learning", "2025-12-01T00:00:00Z", None);
    l.id = "c2_learning".into();
    let mut r = card("review", "2025-12-01T00:00:00Z", None);
    r.id = "c1_review".into();
    let mut n = card("new", "2025-12-01T00:00:00Z", None);
    n.id = "c3_new".into();
    assert_eq!(run_choice(Some(l), Some(r.clone()), Some(n.clone()), 10).unwrap().id, "c2_learning");
    assert_eq!(run_choice(None, Some(r), Some(n.clone()), 10).unwrap().id, "c1_review");
    assert_eq!(run_choice(None, None, Some(n), 10).unwrap().id, "c3_new");
    assert!(run_choice(None, None, None, 10).is_none());
}

#[test]
fn cmd_next_card_new_limit_zero_returns_none_when_only_new() {
    let n = card("new", "2025-12-01T00:00:00Z", None);
    assert!(run_choice(None, None, Some(n), 0).is_none());
}

#[test]
fn forecast_windows() {
    let w0 = forecast_window(0);
    assert_eq!(w0.from_day, None);
    assert_eq!(w0.until_day, 1);
    let w3 = forecast_window(3);
    assert_eq!(w3.from_day, Some(3));
    assert_eq!(w3.until_day, 4);
}

// ── statistics ──────────────────────────────────────────────────────────────

#[test]
fn phase6_stats_by_state_counts() {
    let rows = vec![
        ("new".to_string(), 1u32),
        ("learning".to_string(), 2),
        ("review".to_string(), 3),
        ("relearning".to_string(), 4),
        ("unknown".to_string(), 9),
    ];
    assert_eq!(
        compute_by_state(&rows),
        StateCount { new: 1, learning: 2, review: 3, relearning: 4 }
    );
    assert_eq!(
        compute_by_state(&vec![]),
        StateCount { new: 0, learning: 0, review: 0, relearning: 0 }
    );
}

#[test]
fn phase6_stats_heatmap_bucket_sum() {
    let rows = vec![("2026-05-15".to_string(), 5u32), ("2026-05-25".to_string(), 2)];
    let heat = compute_heatmap(&rows, TODAY_2026_05_25);
    assert_eq!(heat.len(), HEATMAP_DAYS);
    assert_eq!(heat[354], 5, "index 354 (today-10d = 2026-05-15) must have 5 reviews");
    assert_eq!(heat[364], 2);
    assert_eq!(heat.iter().sum::<u32>(), 7, "heatmap total must equal total review count");
}

#[test]
fn phase6_stats_heatmap_ignores_reviews_older_than_365_days() {
    let rows = vec![("2025-05-24".to_string(), 1u32), ("garbage".to_string(), 4)];
    let heat = compute_heatmap(&rows, TODAY_2026_05_25);
    assert_eq!(heat.iter().sum::<u32>(), 0, "review >365 days old must not appear in heatmap");
    let first = compute_heatmap(&vec![("2025-05-26".to_string(), 3u32)], TODAY_2026_05_25);
    assert_eq!(first[0], 3);
}

#[test]
fn phase6_stats_empty_deck() {
    let heat = compute_heatmap(&vec![], TODAY_2026_05_25);
    assert_eq!(heat.len(), 365, "heatmap must have 365 entries");
    assert!(heat.iter().all(|&c| c == 0), "no reviews → all heatmap buckets must be 0");
}

// ── day counts ──────────────────────────────────────────────────────────────

#[test]
fn elapsed_and_scheduled_days() {
    let lr = Some("2026-01-10T10:00:00Z".to_string());
    assert_eq!(compute_elapsed_days(&lr, "2026-01-15T09:59:59Z"), 4);
    assert_eq!(compute_elapsed_days(&lr, "2026-01-15T10:00:00Z"), 5);
    assert_eq!(compute_elapsed_days(&lr, "2026-01-01T00:00:00Z"), 0);
    assert_eq!(compute_elapsed_days(&None, "2026-01-15T10:00:00Z"), 0);
    assert_eq!(compute_elapsed_days(&Some("nonsense".into()), "2026-01-15T10:00:00Z"), 0);
    assert_eq!(compute_scheduled_days(&lr, "2026-01-20T10:00:00+02:00"), 9);
}

// ── text ────────────────────────────────────────────────────────────────────

#[test]
fn trimming_follows_unicode_white_space() {
    assert_eq!(trim_str("  a b \n"), "a b");
    assert_eq!(trim_str("\u{2003}x\u{85}"), "x");
    assert_eq!(trim_str(""), "");
    assert!(is_blank_str(" \t\r\n\u{a0}"));
    assert!(!is_blank_str(" x "));
    assert!(is_white_space('\u{3000}'));
    assert!(!is_white_space('\u{200b}'));
    for c in ['a', ' ', '\u{1680}', '\u{feff}', '\u{2028}'] {
        assert_eq!(is_white_space(c), c.is_whitespace());
    }
}

#[test]
fn string_order_is_rusts() {
    assert!(str_less("2026-01-09", "2026-01-10"));
    assert!(!str_less("b", "a"));
    assert!(!str_less("a", "a"));
    assert!(str_less("a", "ab"));
    assert!(str_less("Z", "a"));
    assert!(str_less("z", "é"));
}

#[test]
fn day_counts_agree_with_chrono() {
    let texts = [
        "2026-01-10T10:00:00Z",
        "2026-01-15T09:59:59.999999999Z",
        "2026-01-15T10:00:00+02:00",
        "2016-12-31T23:59:60.5Z",
        "2017-01-01T00:00:00Z",
        "2015-06-30T23:59:60Z",
        "1999-12-31T23:59:59-12:00",
        "2026-05-25T00:00:00+14:00",
    ];
    for later in texts {
        for earlier in texts {
            let l = chrono::DateTime::parse_from_rfc3339(later).unwrap();
            let e = chrono::DateTime::parse_from_rfc3339(earlier).unwrap();
            let expected = l.signed_duration_since(e).num_days().max(0) as u32;
            assert_eq!(compute_elapsed_days(&Some(earlier.to_string()), later), expected, "{later} - {earlier}");
        }
    }
}
