//! Cards: validation of new and edited cards, the rows they are stored as,
//! and the JSON text of their tags.
use vstd::prelude::*;
use crate::adapters::{json_string_array, json_parse_string_array, json_string_array_text,
    json_string_array_parse, new_uuid_v7, now_rfc3339};
use crate::error::RepoError;
use crate::text::trim;
use crate::types::Card;
use crate::validate::{card_text_error, validate_card_text};

verus! {

/// A card to add: its two sides and its tags.
pub struct CreateCard {
    pub front: String,
    pub back: String,
    pub tags: Vec<String>,
}

/// A card to add together with the scheduling state it arrives with.
pub struct CreateCardFull {
    pub front: String,
    pub back: String,
    pub tags: Vec<String>,
    /// Bit pattern of the stability.
    pub stability_bits: u64,
    /// Bit pattern of the difficulty.
    pub difficulty_bits: u64,
    pub due: String,
    pub last_review: Option<String>,
    pub state: String,
    pub reps: i64,
    pub lapses: i64,
}

/// A card as it is to be stored: the record and the JSON text of its tags.
pub struct NewCardRow {
    pub card: Card,
    pub tags_json: String,
}

/// The edited sides and tags of a card, as they are to be stored.
pub struct CardEdit {
    pub front: String,
    pub back: String,
    pub tags_json: String,
}

/// The stored text of a tag list: its JSON text.
pub open spec fn tags_json_text(tags: Seq<Seq<char>>) -> Seq<char> {
    json_string_array_text(tags)
}

/// The tags read back from their stored text; none where the text is unreadable.
pub open spec fn tags_from_json(text: Seq<char>) -> Seq<Seq<char>> {
    match json_string_array_parse(text) {
        Some(v) => v,
        None => Seq::empty(),
    }
}

/// Writes the JSON text of a tag list; reading that text back gives the
/// same list.
pub fn encode_tags(tags: &Vec<String>) -> (r: String)
    ensures
        r@ == tags_json_text(tags.deep_view()),
        tags_from_json(r@) == tags.deep_view(),
{
    match json_string_array(tags) {
        Some(t) => t,
        None => {
            proof {
                reveal_strlit("[]");
            }
            String::from_str("[]")
        },
    }
}

/// Reads a tag list back from its stored JSON text.
pub fn decode_tags(text: &str) -> (r: Vec<String>)
    ensures
        r.deep_view() == tags_from_json(text@),
{
    match json_parse_string_array(text) {
        Some(v) => v,
        None => {
            let v: Vec<String> = Vec::new();
            assert(v.deep_view() =~= Seq::<Seq<char>>::empty());
            v
        },
    }
}

/// Copies a tag list.
pub fn copy_tags(tags: &Vec<String>) -> (r: Vec<String>)
    ensures
        r@ == tags@,
{
    let mut r: Vec<String> = Vec::new();
    let mut i: usize = 0;
    while i < tags.len()
        invariant
            i <= tags.len(),
            r@ =~= tags@.take(i as int),
        decreases tags.len() - i,
    {
        let t = tags[i].clone();
        r.push(t);
        i = i + 1;
    }
    assert(tags@.take(tags.len() as int) =~= tags@);
    r
}

/// A freshly added card: trimmed sides, the given tags, no review yet, due
/// at the time of adding.
pub open spec fn is_new_card_row(
    row: NewCardRow,
    deck_id: Seq<char>,
    front: Seq<char>,
    back: Seq<char>,
    tags: Seq<String>,
    now: Seq<char>,
) -> bool {
    &&& row.card.id@.len() == 36
    &&& row.card.deck_id@ == deck_id
    &&& row.card.front@ == trim(front)
    &&& row.card.back@ == trim(back)
    &&& row.card.tags@ == tags
    &&& row.tags_json@ == tags_json_text(row.card.tags.deep_view())
    &&& row.card.stability_bits == 0
    &&& row.card.difficulty_bits == 0
    &&& row.card.due@ == now
    &&& row.card.last_review is None
    &&& row.card.state@ == "new"@
    &&& row.card.reps == 0
    &&& row.card.lapses == 0
}

/// A card added with the scheduling state it arrives with.
pub open spec fn is_full_card_row(row: NewCardRow, deck_id: Seq<char>, input: CreateCardFull) -> bool {
    &&& row.card.id@.len() == 36
    &&& row.card.deck_id@ == deck_id
    &&& row.card.front@ == trim(input.front@)
    &&& row.card.back@ == trim(input.back@)
    &&& row.card.tags@ == input.tags@
    &&& row.tags_json@ == tags_json_text(row.card.tags.deep_view())
    &&& row.card.stability_bits == input.stability_bits
    &&& row.card.difficulty_bits == input.difficulty_bits
    &&& row.card.due == input.due
    &&& row.card.last_review == input.last_review
    &&& row.card.state == input.state
    &&& row.card.reps == input.reps
    &&& row.card.lapses == input.lapses
}

fn fresh_row(deck_id: &str, front: String, back: String, tags: Vec<String>, now: String) -> (r:
    NewCardRow)
    ensures
        r.card.id@.len() == 36,
        r.card.deck_id@ == deck_id@,
        r.card.front == front,
        r.card.back == back,
        r.card.tags == tags,
        r.tags_json@ == tags_json_text(tags.deep_view()),
        r.card.stability_bits == 0,
        r.card.difficulty_bits == 0,
        r.card.due == now,
        r.card.last_review is None,
        r.card.state@ == "new"@,
        r.card.reps == 0,
        r.card.lapses == 0,
{
    let id = new_uuid_v7();
    let tags_json = encode_tags(&tags);
    proof {
        reveal_strlit("new");
    }
    NewCardRow {
        card: Card {
            id,
            deck_id: deck_id.to_owned(),
            front,
            back,
            tags,
            stability_bits: 0,
            difficulty_bits: 0,
            due: now,
            last_review: None,
            state: String::from_str("new"),
            reps: 0,
            lapses: 0,
        },
        tags_json,
    }
}

/// Prepares one new card: refuses a blank front, then a blank back; otherwise
/// gives the row of a card that has not been reviewed yet.
pub fn new_card(deck_id: &str, input: CreateCard) -> (r: Result<NewCardRow, RepoError>)
    ensures
        r is Err <==> card_text_error(input.front@, input.back@) is Some,
        r matches Err(e) ==> card_text_error(input.front@, input.back@) == Some(e),
        r matches Ok(row) ==> row.card.due@.len() > 0 && is_new_card_row(
            row,
            deck_id@,
            input.front@,
            input.back@,
            input.tags@,
            row.card.due@,
        ),
{
    let (front, back) = validate_card_text(input.front.as_str(), input.back.as_str())?;
    let now = now_rfc3339();
    let row = fresh_row(deck_id, front, back, input.tags, now);
    assert(is_new_card_row(row, deck_id@, input.front@, input.back@, input.tags@, row.card.due@));
    Ok(row)
}

/// The error a batch of cards is refused with: that of its first card with a
/// blank front or back.
pub open spec fn batch_error(cards: Seq<CreateCard>, i: int) -> Option<RepoError>
    decreases cards.len() - i,
{
    if i < 0 || i >= cards.len() {
        None
    } else {
        match card_text_error(cards[i].front@, cards[i].back@) {
            Some(e) => Some(e),
            None => batch_error(cards, i + 1),
        }
    }
}

/// The error a batch of full cards is refused with: that of its first card
/// with a blank front or back.
pub open spec fn full_batch_error(cards: Seq<CreateCardFull>, i: int) -> Option<RepoError>
    decreases cards.len() - i,
{
    if i < 0 || i >= cards.len() {
        None
    } else {
        match card_text_error(cards[i].front@, cards[i].back@) {
            Some(e) => Some(e),
            None => full_batch_error(cards, i + 1),
        }
    }
}

/// Prepares a batch of new cards. Every card is checked before any row is
/// made, so a batch is refused whole, with the error of its first bad card.
/// All the rows share one time of adding; an empty batch gives no rows.
pub fn new_batch(deck_id: &str, cards: Vec<CreateCard>) -> (r: Result<Vec<NewCardRow>, RepoError>)
    ensures
        r is Err <==> batch_error(cards@, 0) is Some,
        r matches Err(e) ==> batch_error(cards@, 0) == Some(e),
        r matches Ok(rows) ==> {
            &&& rows.len() == cards.len()
            &&& rows.len() > 0 ==> rows[0].card.due@.len() > 0
            &&& forall|i: int|
                0 <= i < rows.len() ==> #[trigger] is_new_card_row(
                    rows[i],
                    deck_id@,
                    cards[i].front@,
                    cards[i].back@,
                    cards[i].tags@,
                    rows[0].card.due@,
                )
        },
{
    let n = cards.len();
    let mut i: usize = 0;
    while i < n
        invariant
            n == cards.len(),
            i <= n,
            batch_error(cards@, 0) == batch_error(cards@, i as int),
        decreases n - i,
    {
        if let Err(e) = validate_card_text(cards[i].front.as_str(), cards[i].back.as_str()) {
            return Err(e);
        }
        i = i + 1;
    }
    let mut rows: Vec<NewCardRow> = Vec::new();
    if n == 0 {
        return Ok(rows);
    }
    let now = now_rfc3339();
    let mut j: usize = 0;
    while j < n
        invariant
            n == cards.len(),
            j <= n,
            rows.len() == j,
            batch_error(cards@, 0) is None,
            now@.len() > 0,
            forall|k: int|
                0 <= k < j ==> #[trigger] is_new_card_row(
                    rows[k],
                    deck_id@,
                    cards[k].front@,
                    cards[k].back@,
                    cards[k].tags@,
                    now@,
                ),
        decreases n - j,
    {
        proof {
            lemma_batch_error_at(cards@, 0, j as int);
        }
        let (front, back) = match validate_card_text(cards[j].front.as_str(), cards[j].back.as_str()) {
            Ok(p) => p,
            Err(e) => {
                return Err(e);
            },
        };
        let tags = copy_tags(&cards[j].tags);
        let row = fresh_row(deck_id, front, back, tags, now.clone());
        rows.push(row);
        j = j + 1;
    }
    assert(is_new_card_row(rows[0], deck_id@, cards[0].front@, cards[0].back@, cards[0].tags@, now@));
    Ok(rows)
}

proof fn lemma_batch_error_at(cards: Seq<CreateCard>, i: int, j: int)
    requires
        0 <= i <= j < cards.len(),
        batch_error(cards, i) is None,
    ensures
        card_text_error(cards[j].front@, cards[j].back@) is None,
    decreases j - i,
{
    if i < j {
        lemma_batch_error_at(cards, i + 1, j);
    }
}

proof fn lemma_full_batch_error_at(cards: Seq<CreateCardFull>, i: int, j: int)
    requires
        0 <= i <= j < cards.len(),
        full_batch_error(cards, i) is None,
    ensures
        card_text_error(cards[j].front@, cards[j].back@) is None,
    decreases j - i,
{
    if i < j {
        lemma_full_batch_error_at(cards, i + 1, j);
    }
}

/// Prepares a batch of cards that arrive with their scheduling state. Every
/// card is checked before any row is made, so a batch is refused whole, with
/// the error of its first bad card.
pub fn new_full_batch(deck_id: &str, cards: Vec<CreateCardFull>) -> (r: Result<
    Vec<NewCardRow>,
    RepoError,
>)
    ensures
        r is Err <==> full_batch_error(cards@, 0) is Some,
        r matches Err(e) ==> full_batch_error(cards@, 0) == Some(e),
        r matches Ok(rows) ==> rows.len() == cards.len() && forall|i: int|
            0 <= i < rows.len() ==> #[trigger] is_full_card_row(rows[i], deck_id@, cards[i]),
{
    let n = cards.len();
    let mut i: usize = 0;
    while i < n
        invariant
            n == cards.len(),
            i <= n,
            full_batch_error(cards@, 0) == full_batch_error(cards@, i as int),
        decreases n - i,
    {
        if let Err(e) = validate_card_text(cards[i].front.as_str(), cards[i].back.as_str()) {
            return Err(e);
        }
        i = i + 1;
    }
    let mut rows: Vec<NewCardRow> = Vec::new();
    let mut j: usize = 0;
    while j < n
        invariant
            n == cards.len(),
            j <= n,
            rows.len() == j,
            full_batch_error(cards@, 0) is None,
            forall|k: int| 0 <= k < j ==> #[trigger] is_full_card_row(rows[k], deck_id@, cards[k]),
        decreases n - j,
    {
        proof {
            lemma_full_batch_error_at(cards@, 0, j as int);
        }
        let (front, back) = match validate_card_text(cards[j].front.as_str(), cards[j].back.as_str()) {
            Ok(p) => p,
            Err(e) => {
                return Err(e);
            },
        };
        let c = &cards[j];
        let tags = copy_tags(&c.tags);
        let tags_json = encode_tags(&tags);
        let id = new_uuid_v7();
        let row = NewCardRow {
            card: Card {
                id,
                deck_id: deck_id.to_owned(),
                front,
                back,
                tags,
                stability_bits: c.stability_bits,
                difficulty_bits: c.difficulty_bits,
                due: c.due.clone(),
                last_review: clone_opt(&c.last_review),
                state: c.state.clone(),
                reps: c.reps,
                lapses: c.lapses,
            },
            tags_json,
        };
        rows.push(row);
        j = j + 1;
    }
    Ok(rows)
}

/// Copies an optional text.
pub fn clone_opt(s: &Option<String>) -> (r: Option<String>)
    ensures
        r == *s,
{
    match s {
        Some(t) => Some(t.clone()),
        None => None,
    }
}

/// Prepares the edit of a card: refuses a blank front, then a blank back;
/// otherwise gives the trimmed sides and the stored text of the new tags.
pub fn prepare_edit(front: &str, back: &str, tags: &Vec<String>) -> (r: Result<CardEdit, RepoError>)
    ensures
        r is Err <==> card_text_error(front@, back@) is Some,
        r matches Err(e) ==> card_text_error(front@, back@) == Some(e),
        r matches Ok(edit) ==> edit.front@ == trim(front@) && edit.back@ == trim(back@)
            && edit.tags_json@ == tags_json_text(tags.deep_view()),
{
    let (f, b) = validate_card_text(front, back)?;
    let tags_json = encode_tags(tags);
    Ok(CardEdit { front: f, back: b, tags_json })
}

} // verus!
