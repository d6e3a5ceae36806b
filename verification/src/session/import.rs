//! Importing a session file: the checks that come before any change (format
//! version, checksum, references between records), the rule that settles a
//! card present on both sides, and the plan that drives a merge one stored
//! record at a time.
use vstd::prelude::*;
use vstd::hash_set::StringHashSet;
use crate::adapters::now_rfc3339;
use crate::session::checksum::{checksum_of, compute_checksum};
use crate::session::types::{ImportMode, LearnmeCard, LearnmeCategory, LearnmeData, LearnmeFile,
    LearnmeStudy};
use crate::text::{lemma_bytes_lt_irreflexive, str_less, str_lt};

verus! {

/// The newest session format this library reads.
pub const MAX_SUPPORTED_VERSION: u32 = 1;

/// Why a session file was not imported.
#[derive(Debug, Clone, PartialEq, Eq)]
pub enum ImportError {
    ChecksumMismatch { expected: String, actual: String },
    UnsupportedVersion { found: u32, max: u32 },
    OrphanEntity { entity: String, id: String, missing_ref: String },
    Validation(String),
    /// A database failure, by the database's own description of it.
    Db(String),
    Serialization(String),
    /// A failure to read the file, by the system's description of it.
    Io(String),
}

pub open spec fn import_message(e: ImportError) -> Seq<char> {
    match e {
        ImportError::ChecksumMismatch { expected, actual } => "checksum mismatch: expected "@
            + expected@ + ", got "@ + actual@,
        ImportError::UnsupportedVersion { found, max } => "unsupported version "@ + crate::session::checksum::decimal(
            found as nat,
        ) + ", max supported is "@ + crate::session::checksum::decimal(max as nat),
        ImportError::OrphanEntity { entity, id, missing_ref } => "orphan entity: "@ + entity@
            + " id="@ + id@ + " references missing "@ + missing_ref@,
        ImportError::Validation(m) => "validation error: "@ + m@,
        ImportError::Db(m) => "database: "@ + m@,
        ImportError::Serialization(m) => "serialization: "@ + m@,
        ImportError::Io(m) => "io: "@ + m@,
    }
}

impl ImportError {
    /// The human-readable description of the error.
    pub fn message(&self) -> (r: String)
        ensures
            r@ == import_message(*self),
    {
        match self {
            ImportError::ChecksumMismatch { expected, actual } => {
                let mut s = String::from_str("checksum mismatch: expected ");
                s.append(expected.as_str());
                s.append(", got ");
                s.append(actual.as_str());
                s
            },
            ImportError::UnsupportedVersion { found, max } => {
                let mut s = String::from_str("unsupported version ");
                let f = crate::session::checksum::to_decimal(*found);
                s.append(f.as_str());
                s.append(", max supported is ");
                let m = crate::session::checksum::to_decimal(*max);
                s.append(m.as_str());
                s
            },
            ImportError::OrphanEntity { entity, id, missing_ref } => {
                let mut s = String::from_str("orphan entity: ");
                s.append(entity.as_str());
                s.append(" id=");
                s.append(id.as_str());
                s.append(" references missing ");
                s.append(missing_ref.as_str());
                s
            },
            ImportError::Validation(m) => String::from_str("validation error: ").concat(m.as_str()),
            ImportError::Db(m) => String::from_str("database: ").concat(m.as_str()),
            ImportError::Serialization(m) => String::from_str("serialization: ").concat(m.as_str()),
            ImportError::Io(m) => String::from_str("io: ").concat(m.as_str()),
        }
    }
}

/// Refuses a session file written in a format newer than this library reads.
pub fn validate_version(version: u32) -> (r: Result<(), ImportError>)
    ensures
        r is Ok <==> version <= MAX_SUPPORTED_VERSION,
        r is Err ==> r == Err::<(), ImportError>(
            ImportError::UnsupportedVersion { found: version, max: MAX_SUPPORTED_VERSION },
        ),
{
    if version > MAX_SUPPORTED_VERSION {
        return Err(ImportError::UnsupportedVersion { found: version, max: MAX_SUPPORTED_VERSION });
    }
    Ok(())
}

/// Checks a file's checksum against the one its content gives, `data_json`
/// being the JSON text of the file's data.
pub fn verify_checksum(file: &LearnmeFile, data_json: &str) -> (r: Result<(), ImportError>)
    ensures
        checksum_of(data_json@, file.app_version@, file.version as nat) == file.checksum@ ==> r is Ok,
        checksum_of(data_json@, file.app_version@, file.version as nat) != file.checksum@ ==> (r matches Err(
            ImportError::ChecksumMismatch { expected: e, actual: a },
        ) && e@ == checksum_of(data_json@, file.app_version@, file.version as nat) && a
            == file.checksum),
{
    let expected = match compute_checksum(
        data_json,
        file.app_version.as_str(),
        file.generated_at.as_str(),
        file.version,
    ) {
        Ok(h) => h,
        Err(m) => {
            return Err(ImportError::Serialization(m));
        },
    };
    if file.checksum != expected {
        return Err(ImportError::ChecksumMismatch { expected, actual: file.checksum.clone() });
    }
    Ok(())
}

// ---------------------------------------------------------------------------
// References between records

/// Some category of the data has this identifier.
pub open spec fn has_category(d: LearnmeData, id: Seq<char>) -> bool {
    exists|k: int| 0 <= k < d.categories.len() && (#[trigger] d.categories[k]).id@ == id
}

/// Some study of the data has this identifier.
pub open spec fn has_study(d: LearnmeData, id: Seq<char>) -> bool {
    exists|k: int| 0 <= k < d.studies.len() && (#[trigger] d.studies[k]).id@ == id
}

/// Some card of the data has this identifier.
pub open spec fn has_card(d: LearnmeData, id: Seq<char>) -> bool {
    exists|k: int| 0 <= k < d.cards.len() && (#[trigger] d.cards[k]).id@ == id
}

/// The first study, from `i` on, whose category is missing.
pub open spec fn orphan_study_from(d: LearnmeData, i: int) -> Option<int>
    decreases d.studies.len() - i,
{
    if i < 0 || i >= d.studies.len() {
        None
    } else if !has_category(d, d.studies[i].category_id@) {
        Some(i)
    } else {
        orphan_study_from(d, i + 1)
    }
}

/// The first card, from `i` on, whose study is missing.
pub open spec fn orphan_card_from(d: LearnmeData, i: int) -> Option<int>
    decreases d.cards.len() - i,
{
    if i < 0 || i >= d.cards.len() {
        None
    } else if !has_study(d, d.cards[i].study_id@) {
        Some(i)
    } else {
        orphan_card_from(d, i + 1)
    }
}

/// The first review, from `i` on, whose card is missing.
pub open spec fn orphan_log_from(d: LearnmeData, i: int) -> Option<int>
    decreases d.review_logs.len() - i,
{
    if i < 0 || i >= d.review_logs.len() {
        None
    } else if !has_card(d, d.review_logs[i].card_id@) {
        Some(i)
    } else {
        orphan_log_from(d, i + 1)
    }
}

/// The first dangling reference of the data, as (kind of record, its
/// identifier, the missing identifier): studies are looked at first, then
/// cards, then reviews, each in file order.
pub open spec fn first_orphan(d: LearnmeData) -> Option<(Seq<char>, Seq<char>, Seq<char>)> {
    match orphan_study_from(d, 0) {
        Some(i) => Some(("study"@, d.studies[i].id@, d.studies[i].category_id@)),
        None => match orphan_card_from(d, 0) {
            Some(i) => Some(("card"@, d.cards[i].id@, d.cards[i].study_id@)),
            None => match orphan_log_from(d, 0) {
                Some(i) => Some(("reviewLog"@, d.review_logs[i].id@, d.review_logs[i].card_id@)),
                None => None,
            },
        },
    }
}

/// A record of a session file, known by its identifier.
trait Identified {
    spec fn key(&self) -> Seq<char>;

    fn key_text(&self) -> (r: &String)
        ensures
            r@ == self.key(),
    ;
}

impl Identified for LearnmeCategory {
    spec fn key(&self) -> Seq<char> {
        self.id@
    }

    fn key_text(&self) -> (r: &String) {
        &self.id
    }
}

impl Identified for LearnmeStudy {
    spec fn key(&self) -> Seq<char> {
        self.id@
    }

    fn key_text(&self) -> (r: &String) {
        &self.id
    }
}

impl Identified for LearnmeCard {
    spec fn key(&self) -> Seq<char> {
        self.id@
    }

    fn key_text(&self) -> (r: &String) {
        &self.id
    }
}

/// The set of the identifiers of some records.
fn id_set<T: Identified>(items: &Vec<T>) -> (s: StringHashSet)
    ensures
        forall|x: Seq<char>|
            s@.contains(x) <==> exists|j: int| 0 <= j < items.len() && (#[trigger] items[j]).key() == x,
{
    let mut s = StringHashSet::new();
    let mut k: usize = 0;
    while k < items.len()
        invariant
            k <= items.len(),
            forall|x: Seq<char>|
                s@.contains(x) <==> exists|j: int| 0 <= j < k && (#[trigger] items[j]).key() == x,
        decreases items.len() - k,
    {
        s.insert(items[k].key_text().clone());
        proof {
            assert forall|x: Seq<char>| s@.contains(x) implies exists|j: int|
                0 <= j < k + 1 && (#[trigger] items[j]).key() == x by {
                if x != items[k as int].key() {
                    let j = choose|j: int| 0 <= j < k && (#[trigger] items[j]).key() == x;
                }
            }
            assert forall|x: Seq<char>| (exists|j: int|
                0 <= j < k + 1 && (#[trigger] items[j]).key() == x) implies s@.contains(x) by {
                let j = choose|j: int| 0 <= j < k + 1 && (#[trigger] items[j]).key() == x;
                if j < k {
                }
            }
        }
        k = k + 1;
    }
    s
}

/// Refuses data in which a study names a missing category, a card a missing
/// study, or a review a missing card; the error names the first such record,
/// looking at studies, then cards, then reviews.
pub fn validate_fk_integrity(data: &LearnmeData) -> (r: Result<(), ImportError>)
    ensures
        match first_orphan(*data) {
            None => r is Ok,
            Some((entity, id, missing)) => r matches Err(
                ImportError::OrphanEntity { entity: e, id: i, missing_ref: m },
            ) && e@ == entity && i@ == id && m@ == missing,
        },
{
    let cat_ids = id_set(&data.categories);
    let study_ids = id_set(&data.studies);
    let card_ids = id_set(&data.cards);
    proof {
        assert forall|x: Seq<char>| cat_ids@.contains(x) <==> has_category(*data, x) by {
            if cat_ids@.contains(x) {
                let j = choose|j: int| 0 <= j < data.categories.len() && (#[trigger] data.categories[j]).key() == x;
                assert(data.categories[j].id@ == x);
            }
            if has_category(*data, x) {
                let j = choose|j: int| 0 <= j < data.categories.len() && (#[trigger] data.categories[j]).id@ == x;
                assert(data.categories[j].key() == x);
            }
        }
        assert forall|x: Seq<char>| study_ids@.contains(x) <==> has_study(*data, x) by {
            if study_ids@.contains(x) {
                let j = choose|j: int| 0 <= j < data.studies.len() && (#[trigger] data.studies[j]).key() == x;
                assert(data.studies[j].id@ == x);
            }
            if has_study(*data, x) {
                let j = choose|j: int| 0 <= j < data.studies.len() && (#[trigger] data.studies[j]).id@ == x;
                assert(data.studies[j].key() == x);
            }
        }
        assert forall|x: Seq<char>| card_ids@.contains(x) <==> has_card(*data, x) by {
            if card_ids@.contains(x) {
                let j = choose|j: int| 0 <= j < data.cards.len() && (#[trigger] data.cards[j]).key() == x;
                assert(data.cards[j].id@ == x);
            }
            if has_card(*data, x) {
                let j = choose|j: int| 0 <= j < data.cards.len() && (#[trigger] data.cards[j]).id@ == x;
                assert(data.cards[j].key() == x);
            }
        }
        reveal_strlit("study");
        reveal_strlit("card");
        reveal_strlit("reviewLog");
    }
    let mut i: usize = 0;
    while i < data.studies.len()
        invariant
            i <= data.studies.len(),
            forall|x: Seq<char>| cat_ids@.contains(x) <==> has_category(*data, x),
            orphan_study_from(*data, 0) == orphan_study_from(*data, i as int),
        decreases data.studies.len() - i,
    {
        let s = &data.studies[i];
        if !cat_ids.contains(s.category_id.as_str()) {
            return Err(ImportError::OrphanEntity {
                entity: String::from_str("study"),
                id: s.id.clone(),
                missing_ref: s.category_id.clone(),
            });
        }
        i = i + 1;
    }
    let mut j: usize = 0;
    while j < data.cards.len()
        invariant
            j <= data.cards.len(),
            forall|x: Seq<char>| study_ids@.contains(x) <==> has_study(*data, x),
            orphan_study_from(*data, 0) is None,
            orphan_card_from(*data, 0) == orphan_card_from(*data, j as int),
        decreases data.cards.len() - j,
    {
        let c = &data.cards[j];
        if !study_ids.contains(c.study_id.as_str()) {
            return Err(ImportError::OrphanEntity {
                entity: String::from_str("card"),
                id: c.id.clone(),
                missing_ref: c.study_id.clone(),
            });
        }
        j = j + 1;
    }
    let mut k: usize = 0;
    while k < data.review_logs.len()
        invariant
            k <= data.review_logs.len(),
            forall|x: Seq<char>| card_ids@.contains(x) <==> has_card(*data, x),
            orphan_study_from(*data, 0) is None,
            orphan_card_from(*data, 0) is None,
            orphan_log_from(*data, 0) == orphan_log_from(*data, k as int),
        decreases data.review_logs.len() - k,
    {
        let l = &data.review_logs[k];
        if !card_ids.contains(l.card_id.as_str()) {
            return Err(ImportError::OrphanEntity {
                entity: String::from_str("reviewLog"),
                id: l.id.clone(),
                missing_ref: l.card_id.clone(),
            });
        }
        k = k + 1;
    }
    Ok(())
}

// ---------------------------------------------------------------------------
// Cards present on both sides

/// Which side of a conflict wins.
#[derive(Debug, Clone, Copy, PartialEq, Eq, Structural)]
pub enum Winner {
    Existing,
    Incoming,
}

/// The side that a conflict between a stored card and a card of the file
/// settles on: more reviews win; with as many reviews, a card reviewed at
/// some time beats one never reviewed, and of two reviewed ones the later
/// review (by the order of their texts) wins; otherwise the stored card stays.
pub open spec fn winner_of(existing: LearnmeCard, incoming: LearnmeCard) -> Winner {
    if incoming.reps > existing.reps {
        Winner::Incoming
    } else if existing.reps > incoming.reps {
        Winner::Existing
    } else {
        match (existing.last_reviewed, incoming.last_reviewed) {
            (None, Some(_)) => Winner::Incoming,
            (Some(_), None) => Winner::Existing,
            (Some(e), Some(i)) => if str_lt(e@, i@) {
                Winner::Incoming
            } else {
                Winner::Existing
            },
            (None, None) => Winner::Existing,
        }
    }
}

/// Settles a conflict between a stored card and a card of the file.
pub fn conflict_winner(existing: &LearnmeCard, incoming: &LearnmeCard) -> (w: Winner)
    ensures
        w == winner_of(*existing, *incoming),
{
    if incoming.reps > existing.reps {
        return Winner::Incoming;
    }
    if existing.reps > incoming.reps {
        return Winner::Existing;
    }
    match (&existing.last_reviewed, &incoming.last_reviewed) {
        (None, Some(_)) => Winner::Incoming,
        (Some(_), None) => Winner::Existing,
        (Some(e), Some(i)) => {
            if str_less(e.as_str(), i.as_str()) {
                Winner::Incoming
            } else {
                Winner::Existing
            }
        },
        (None, None) => Winner::Existing,
    }
}

/// The card that wins a conflict between a stored card and a card of the file.
pub fn resolve_conflict<'a>(existing: &'a LearnmeCard, incoming: &'a LearnmeCard) -> (r: &'a LearnmeCard)
    ensures
        winner_of(*existing, *incoming) == Winner::Existing ==> *r == *existing,
        winner_of(*existing, *incoming) == Winner::Incoming ==> *r == *incoming,
{
    match conflict_winner(existing, incoming) {
        Winner::Existing => existing,
        Winner::Incoming => incoming,
    }
}

/// The text of an optional string.
pub open spec fn opt_text(o: Option<String>) -> Option<Seq<char>> {
    match o {
        Some(s) => Some(s@),
        None => None,
    }
}

fn same_text(a: &Option<String>, b: &Option<String>) -> (r: bool)
    ensures
        r == (opt_text(*a) == opt_text(*b)),
{
    match (a, b) {
        (Some(x), Some(y)) => {
            *x == *y
        },
        (None, None) => true,
        _ => false,
    }
}

/// Whether a card of the file replaces the scheduling state of the stored card
/// with the same identifier: it does when it wins the conflict with more
/// reviews than the stored card, or with as many reviews as itself and its
/// own review time where the stored card's differs.
pub open spec fn updates_on_id_match(stored: LearnmeCard, file_card: LearnmeCard) -> bool {
    let w = if winner_of(stored, file_card) == Winner::Existing {
        stored
    } else {
        file_card
    };
    ||| (w.id@ == file_card.id@ && w.id@ != stored.id@)
    ||| w.reps > stored.reps
    ||| (w.reps == file_card.reps && opt_text(w.last_reviewed) == opt_text(file_card.last_reviewed)
        && opt_text(stored.last_reviewed) != opt_text(file_card.last_reviewed))
}

/// Whether a card of the file replaces the scheduling state of a stored card
/// with the same content in the same study: it does when it wins the
/// conflict, or when the winner has more reviews than the stored card, or as
/// many as the file's card and the same review time.
pub open spec fn updates_on_content_match(stored: LearnmeCard, file_card: LearnmeCard) -> bool {
    let w = if winner_of(stored, file_card) == Winner::Existing {
        stored
    } else {
        file_card
    };
    ||| winner_of(stored, file_card) == Winner::Incoming
    ||| w.reps > stored.reps
    ||| (w.reps == file_card.reps && opt_text(w.last_reviewed) == opt_text(file_card.last_reviewed))
}

fn decide_on_id_match(stored: &LearnmeCard, file_card: &LearnmeCard) -> (r: bool)
    ensures
        r == updates_on_id_match(*stored, *file_card),
{
    let w = resolve_conflict(stored, file_card);
    (w.id == file_card.id && w.id != stored.id) || w.reps > stored.reps || (w.reps
        == file_card.reps && same_text(&w.last_reviewed, &file_card.last_reviewed) && !same_text(
        &stored.last_reviewed,
        &file_card.last_reviewed,
    ))
}

fn decide_on_content_match(stored: &LearnmeCard, file_card: &LearnmeCard) -> (r: bool)
    ensures
        r == updates_on_content_match(*stored, *file_card),
{
    let side = conflict_winner(stored, file_card);
    let w = resolve_conflict(stored, file_card);
    side == Winner::Incoming || w.reps > stored.reps || (w.reps == file_card.reps && same_text(
        &w.last_reviewed,
        &file_card.last_reviewed,
    ))
}

// ---------------------------------------------------------------------------
// The plan of an import

/// What the import needs to know next about the stored records, or that it
/// is done. Indices are positions in the file's data.
#[derive(Debug, Clone, Copy, PartialEq, Eq, Structural)]
pub enum ImportStep {
    /// Remove every stored review, card, study and category.
    WipeAll,
    /// Is a category with the identifier of category `i` stored?
    CheckCategory(usize),
    /// Is a study with the identifier of study `i` stored?
    CheckStudy(usize),
    /// The stored card with the identifier of card `i`, if any.
    FindCardById(usize),
    /// A stored card of the same study whose trimmed sides equal those of card `i`, if any.
    FindCardByContent(usize),
    /// Is a review with the identifier of review `i` stored?
    CheckReviewLog(usize),
    Done,
}

/// The answer to a step.
pub enum ImportAnswer {
    /// The wipe was carried out.
    Wiped,
    Exists(bool),
    Found(Option<LearnmeCard>),
}

/// What to write after an answer. Indices are positions in the file's data.
#[derive(Debug, Clone, PartialEq, Eq)]
pub enum ImportAction {
    Nothing,
    InsertCategory(usize),
    InsertStudy(usize),
    InsertCard(usize),
    /// Give the stored card `target_id` the scheduling state and tags of card `source`.
    UpdateCard { target_id: String, source: usize },
    InsertReviewLog(usize),
}

/// The first step of the reviews.
pub open spec fn logs_from(d: LearnmeData, i: int) -> ImportStep {
    if 0 <= i < d.review_logs.len() {
        ImportStep::CheckReviewLog(i as usize)
    } else {
        ImportStep::Done
    }
}

/// The step for card `i` on, then the reviews.
pub open spec fn cards_from(d: LearnmeData, i: int) -> ImportStep {
    if 0 <= i < d.cards.len() {
        ImportStep::FindCardById(i as usize)
    } else {
        logs_from(d, 0)
    }
}

/// The step for study `i` on, then the cards.
pub open spec fn studies_from(d: LearnmeData, i: int) -> ImportStep {
    if 0 <= i < d.studies.len() {
        ImportStep::CheckStudy(i as usize)
    } else {
        cards_from(d, 0)
    }
}

/// The step for category `i` on, then the studies.
pub open spec fn categories_from(d: LearnmeData, i: int) -> ImportStep {
    if 0 <= i < d.categories.len() {
        ImportStep::CheckCategory(i as usize)
    } else {
        studies_from(d, 0)
    }
}

/// The first step of an import: a replacing import wipes the stored records
/// first; then categories, studies, cards and reviews follow, each in file
/// order.
pub open spec fn start_of(d: LearnmeData, mode: ImportMode) -> ImportStep {
    if mode == ImportMode::Replace {
        ImportStep::WipeAll
    } else {
        categories_from(d, 0)
    }
}

/// The answer that fits a step.
pub open spec fn answer_fits(step: ImportStep, answer: ImportAnswer) -> bool {
    match step {
        ImportStep::WipeAll => answer is Wiped,
        ImportStep::CheckCategory(_) => answer is Exists,
        ImportStep::CheckStudy(_) => answer is Exists,
        ImportStep::CheckReviewLog(_) => answer is Exists,
        ImportStep::FindCardById(_) => answer is Found,
        ImportStep::FindCardByContent(_) => answer is Found,
        ImportStep::Done => false,
    }
}

/// The step refers to a record of the data.
pub open spec fn step_in(d: LearnmeData, step: ImportStep) -> bool {
    match step {
        ImportStep::CheckCategory(i) => i < d.categories.len(),
        ImportStep::CheckStudy(i) => i < d.studies.len(),
        ImportStep::FindCardById(i) => i < d.cards.len(),
        ImportStep::FindCardByContent(i) => i < d.cards.len(),
        ImportStep::CheckReviewLog(i) => i < d.review_logs.len(),
        _ => true,
    }
}

/// How many steps are left at most, counting the wipe and the second look-up
/// a card may need.
pub open spec fn steps_left(d: LearnmeData, step: ImportStep) -> int {
    let nc = d.categories.len() as int;
    let ns = d.studies.len() as int;
    let nk = d.cards.len() as int;
    let nl = d.review_logs.len() as int;
    match step {
        ImportStep::WipeAll => 1 + nc + ns + 2 * nk + nl,
        ImportStep::CheckCategory(i) => (nc - i) + ns + 2 * nk + nl,
        ImportStep::CheckStudy(i) => (ns - i) + 2 * nk + nl,
        ImportStep::FindCardById(i) => 2 * (nk - i) + nl,
        ImportStep::FindCardByContent(i) => 2 * (nk - i) - 1 + nl,
        ImportStep::CheckReviewLog(i) => nl - i,
        ImportStep::Done => 0,
    }
}

/// How an import starts: its first step, and the time that the categories
/// and studies it inserts are stamped with.
pub struct ImportStart {
    pub step: ImportStep,
    pub now: String,
}

/// The first step of importing `data` in `mode`, and the time of the import.
pub fn first_step(data: &LearnmeData, mode: ImportMode) -> (s: ImportStart)
    ensures
        s.step == start_of(*data, mode),
        step_in(*data, s.step),
        s.now@.len() > 0,
{
    let step = if mode == ImportMode::Replace {
        ImportStep::WipeAll
    } else {
        categories_start(data)
    };
    ImportStart { step, now: now_rfc3339() }
}

fn logs_start(data: &LearnmeData) -> (s: ImportStep)
    ensures
        s == logs_from(*data, 0),
        step_in(*data, s),
{
    if data.review_logs.len() > 0 {
        ImportStep::CheckReviewLog(0)
    } else {
        ImportStep::Done
    }
}

fn cards_start(data: &LearnmeData) -> (s: ImportStep)
    ensures
        s == cards_from(*data, 0),
        step_in(*data, s),
{
    if data.cards.len() > 0 {
        ImportStep::FindCardById(0)
    } else {
        logs_start(data)
    }
}

fn studies_start(data: &LearnmeData) -> (s: ImportStep)
    ensures
        s == studies_from(*data, 0),
        step_in(*data, s),
{
    if data.studies.len() > 0 {
        ImportStep::CheckStudy(0)
    } else {
        cards_start(data)
    }
}

fn categories_start(data: &LearnmeData) -> (s: ImportStep)
    ensures
        s == categories_from(*data, 0),
        step_in(*data, s),
{
    if data.categories.len() > 0 {
        ImportStep::CheckCategory(0)
    } else {
        studies_start(data)
    }
}

/// What a step's answer leads to: the write to make and the next step.
pub open spec fn plan_next(d: LearnmeData, step: ImportStep, answer: ImportAnswer) -> (ImportAction, ImportStep) {
    match (step, answer) {
        (ImportStep::WipeAll, _) => (ImportAction::Nothing, categories_from(d, 0)),
        (ImportStep::CheckCategory(i), ImportAnswer::Exists(e)) => (
            if e {
                ImportAction::Nothing
            } else {
                ImportAction::InsertCategory(i)
            },
            categories_from(d, i + 1),
        ),
        (ImportStep::CheckStudy(i), ImportAnswer::Exists(e)) => (
            if e {
                ImportAction::Nothing
            } else {
                ImportAction::InsertStudy(i)
            },
            studies_from(d, i + 1),
        ),
        (ImportStep::CheckReviewLog(i), ImportAnswer::Exists(e)) => (
            if e {
                ImportAction::Nothing
            } else {
                ImportAction::InsertReviewLog(i)
            },
            logs_from(d, i + 1),
        ),
        (ImportStep::FindCardById(i), ImportAnswer::Found(None)) => (
            ImportAction::Nothing,
            ImportStep::FindCardByContent(i),
        ),
        (ImportStep::FindCardById(i), ImportAnswer::Found(Some(stored))) => (
            if updates_on_id_match(stored, d.cards[i as int]) {
                ImportAction::UpdateCard { target_id: stored.id, source: i }
            } else {
                ImportAction::Nothing
            },
            cards_from(d, i + 1),
        ),
        (ImportStep::FindCardByContent(i), ImportAnswer::Found(None)) => (
            ImportAction::InsertCard(i),
            cards_from(d, i + 1),
        ),
        (ImportStep::FindCardByContent(i), ImportAnswer::Found(Some(stored))) => (
            if updates_on_content_match(stored, d.cards[i as int]) {
                ImportAction::UpdateCard { target_id: stored.id, source: i }
            } else {
                ImportAction::Nothing
            },
            cards_from(d, i + 1),
        ),
        _ => (ImportAction::Nothing, ImportStep::Done),
    }
}

/// Takes the answer to a step and gives what to write and the next step.
/// A stored category, study or review is left as it is; a missing one is
/// inserted. A card of the file is looked up by identifier and, failing
/// that, by content; a stored match is updated as the conflict rule decides,
/// and a card with no match is inserted.
pub fn next_step(data: &LearnmeData, step: ImportStep, answer: ImportAnswer) -> (r: (
    ImportAction,
    ImportStep,
))
    requires
        answer_fits(step, answer),
        step_in(*data, step),
    ensures
        r == plan_next(*data, step, answer),
        step_in(*data, r.1),
        steps_left(*data, r.1) < steps_left(*data, step),
        steps_left(*data, r.1) >= 0,
{
    match step {
        ImportStep::WipeAll => (ImportAction::Nothing, categories_start(data)),
        ImportStep::CheckCategory(i) => {
            let exists = match answer {
                ImportAnswer::Exists(e) => e,
                _ => false,
            };
            let next = if i + 1 < data.categories.len() {
                ImportStep::CheckCategory(i + 1)
            } else {
                studies_start(data)
            };
            if exists {
                (ImportAction::Nothing, next)
            } else {
                (ImportAction::InsertCategory(i), next)
            }
        },
        ImportStep::CheckStudy(i) => {
            let exists = match answer {
                ImportAnswer::Exists(e) => e,
                _ => false,
            };
            let next = if i + 1 < data.studies.len() {
                ImportStep::CheckStudy(i + 1)
            } else {
                cards_start(data)
            };
            if exists {
                (ImportAction::Nothing, next)
            } else {
                (ImportAction::InsertStudy(i), next)
            }
        },
        ImportStep::CheckReviewLog(i) => {
            let exists = match answer {
                ImportAnswer::Exists(e) => e,
                _ => false,
            };
            let next = if i + 1 < data.review_logs.len() {
                ImportStep::CheckReviewLog(i + 1)
            } else {
                ImportStep::Done
            };
            if exists {
                (ImportAction::Nothing, next)
            } else {
                (ImportAction::InsertReviewLog(i), next)
            }
        },
        ImportStep::FindCardById(i) => {
            let next = if i + 1 < data.cards.len() {
                ImportStep::FindCardById(i + 1)
            } else {
                logs_start(data)
            };
            match answer {
                ImportAnswer::Found(Some(stored)) => {
                    if decide_on_id_match(&stored, &data.cards[i]) {
                        (ImportAction::UpdateCard { target_id: stored.id, source: i }, next)
                    } else {
                        (ImportAction::Nothing, next)
                    }
                },
                _ => (ImportAction::Nothing, ImportStep::FindCardByContent(i)),
            }
        },
        ImportStep::FindCardByContent(i) => {
            let next = if i + 1 < data.cards.len() {
                ImportStep::FindCardById(i + 1)
            } else {
                logs_start(data)
            };
            match answer {
                ImportAnswer::Found(Some(stored)) => {
                    if decide_on_content_match(&stored, &data.cards[i]) {
                        (ImportAction::UpdateCard { target_id: stored.id, source: i }, next)
                    } else {
                        (ImportAction::Nothing, next)
                    }
                },
                _ => (ImportAction::InsertCard(i), next),
            }
        },
        ImportStep::Done => (ImportAction::Nothing, ImportStep::Done),
    }
}

/// The checks an import runs before it changes anything, in order: the
/// format version, the checksum (`data_json` being the JSON text of the
/// file's data), then the references between records.
pub fn check_session_file(file: &LearnmeFile, data_json: &str) -> (r: Result<(), ImportError>)
    ensures
        file.version > MAX_SUPPORTED_VERSION ==> r == Err::<(), ImportError>(
            ImportError::UnsupportedVersion { found: file.version, max: MAX_SUPPORTED_VERSION },
        ),
        file.version <= MAX_SUPPORTED_VERSION ==> ({
            let expected = checksum_of(data_json@, file.app_version@, file.version as nat);
            if expected != file.checksum@ {
                r matches Err(ImportError::ChecksumMismatch { expected: e, actual: a }) && e@
                    == expected && a == file.checksum
            } else {
                match first_orphan(file.data) {
                    None => r is Ok,
                    Some((entity, id, missing)) => r matches Err(
                        ImportError::OrphanEntity { entity: e, id: i, missing_ref: m },
                    ) && e@ == entity && i@ == id && m@ == missing,
                }
            }
        }),
{
    validate_version(file.version)?;
    verify_checksum(file, data_json)?;
    validate_fk_integrity(&file.data)
}

// ---------------------------------------------------------------------------
// Laws of an import

/// The card with more reviews wins a conflict, whichever side it is on.
pub proof fn law_more_reviews_win(existing: LearnmeCard, incoming: LearnmeCard)
    ensures
        incoming.reps > existing.reps ==> winner_of(existing, incoming) == Winner::Incoming,
        existing.reps > incoming.reps ==> winner_of(existing, incoming) == Winner::Existing,
{
}

/// Of two cards with as many reviews, one reviewed at some time beats one
/// never reviewed, and a stored card stays when neither was reviewed.
pub proof fn law_reviewed_card_wins_tie(existing: LearnmeCard, incoming: LearnmeCard)
    requires
        existing.reps == incoming.reps,
    ensures
        existing.last_reviewed is None && incoming.last_reviewed is Some ==> winner_of(
            existing,
            incoming,
        ) == Winner::Incoming,
        existing.last_reviewed is Some && incoming.last_reviewed is None ==> winner_of(
            existing,
            incoming,
        ) == Winner::Existing,
        existing.last_reviewed is None && incoming.last_reviewed is None ==> winner_of(
            existing,
            incoming,
        ) == Winner::Existing,
{
}

/// A stored card with more reviews than the file's matching card keeps its
/// scheduling state, whether the match is by identifier or by content; a
/// file card with more reviews than the stored one replaces it.
pub proof fn law_more_reviewed_card_prevails(stored: LearnmeCard, file_card: LearnmeCard)
    ensures
        stored.reps > file_card.reps ==> !updates_on_id_match(stored, file_card)
            && !updates_on_content_match(stored, file_card),
        file_card.reps > stored.reps ==> updates_on_id_match(stored, file_card)
            && updates_on_content_match(stored, file_card),
{
}

/// Importing leaves a stored category, study or review as it is: finding one
/// with the same identifier writes nothing.
pub proof fn law_stored_records_kept(d: LearnmeData, step: ImportStep)
    requires
        step is CheckCategory || step is CheckStudy || step is CheckReviewLog,
    ensures
        plan_next(d, step, ImportAnswer::Exists(true)).0 == ImportAction::Nothing,
{
}

/// Importing a file again writes nothing for a card that is stored just as
/// the file has it.
pub proof fn law_reimported_card_unchanged(d: LearnmeData, i: usize)
    requires
        i < d.cards.len(),
    ensures
        plan_next(d, ImportStep::FindCardById(i), ImportAnswer::Found(Some(d.cards[i as int]))).0
            == ImportAction::Nothing,
{
    let c = d.cards[i as int];
    if let Some(t) = c.last_reviewed {
        lemma_bytes_lt_irreflexive(vstd::utf8::encode_utf8(t@));
    }
}

/// Only a replacing import wipes the stored records, and only at its start.
pub proof fn law_only_replace_wipes(d: LearnmeData, mode: ImportMode, step: ImportStep, answer: ImportAnswer)
    ensures
        (start_of(d, mode) == ImportStep::WipeAll) <==> mode == ImportMode::Replace,
        plan_next(d, step, answer).1 != ImportStep::WipeAll,
{
}

/// An import plan ends: every step brings the end nearer.
pub proof fn law_import_plan_ends(d: LearnmeData, step: ImportStep, answer: ImportAnswer)
    requires
        answer_fits(step, answer),
        step_in(d, step),
    ensures
        steps_left(d, plan_next(d, step, answer).1) < steps_left(d, step),
        0 <= steps_left(d, plan_next(d, step, answer).1),
{
}

/// The answer of a store that holds none of the file's records.
pub open spec fn absent_answer(step: ImportStep) -> ImportAnswer {
    match step {
        ImportStep::WipeAll => ImportAnswer::Wiped,
        ImportStep::FindCardById(_) => ImportAnswer::Found(None),
        ImportStep::FindCardByContent(_) => ImportAnswer::Found(None),
        _ => ImportAnswer::Exists(false),
    }
}

/// The writes an import makes from `step` on, against a store that holds
/// none of the file's records.
pub open spec fn writes_into_empty(d: LearnmeData, step: ImportStep) -> Seq<ImportAction>
    decreases steps_left(d, step),
{
    if step is Done || !step_in(d, step) {
        Seq::empty()
    } else {
        proof {
            law_import_plan_ends(d, step, absent_answer(step));
        }
        let (a, next) = plan_next(d, step, absent_answer(step));
        (if a is Nothing {
            Seq::empty()
        } else {
            seq![a]
        }) + writes_into_empty(d, next)
    }
}

/// Every record of the file inserted, in file order: the categories, the
/// studies, the cards, then the reviews.
pub open spec fn inserts_of(d: LearnmeData) -> Seq<ImportAction> {
    Seq::new(d.categories.len() as nat, |i: int| ImportAction::InsertCategory(i as usize))
        + Seq::new(d.studies.len() as nat, |i: int| ImportAction::InsertStudy(i as usize))
        + Seq::new(d.cards.len() as nat, |i: int| ImportAction::InsertCard(i as usize))
        + Seq::new(d.review_logs.len() as nat, |i: int| ImportAction::InsertReviewLog(i as usize))
}

proof fn lemma_logs_into_empty(d: LearnmeData, i: int)
    requires
        0 <= i <= d.review_logs.len(),
    ensures
        writes_into_empty(d, logs_from(d, i)) == Seq::new(
            (d.review_logs.len() - i) as nat,
            |j: int| ImportAction::InsertReviewLog((i + j) as usize),
        ),
    decreases d.review_logs.len() - i,
{
    if i < d.review_logs.len() {
        lemma_logs_into_empty(d, i + 1);
        let step = ImportStep::CheckReviewLog(i as usize);
        assert(writes_into_empty(d, step) == seq![ImportAction::InsertReviewLog(i as usize)]
            + writes_into_empty(d, logs_from(d, i + 1)));
        assert(writes_into_empty(d, logs_from(d, i)) =~= Seq::new(
            (d.review_logs.len() - i) as nat,
            |j: int| ImportAction::InsertReviewLog((i + j) as usize),
        ));
    } else {
        assert(writes_into_empty(d, logs_from(d, i)) =~= Seq::<ImportAction>::empty());
    }
}

proof fn lemma_cards_into_empty(d: LearnmeData, i: int)
    requires
        0 <= i <= d.cards.len(),
    ensures
        writes_into_empty(d, cards_from(d, i)) == Seq::new(
            (d.cards.len() - i) as nat,
            |j: int| ImportAction::InsertCard((i + j) as usize),
        ) + writes_into_empty(d, logs_from(d, 0)),
    decreases d.cards.len() - i,
{
    if i < d.cards.len() {
        lemma_cards_into_empty(d, i + 1);
        let by_id = ImportStep::FindCardById(i as usize);
        let by_content = ImportStep::FindCardByContent(i as usize);
        assert(writes_into_empty(d, by_content) == seq![ImportAction::InsertCard(i as usize)]
            + writes_into_empty(d, cards_from(d, i + 1)));
        assert(writes_into_empty(d, by_id) =~= Seq::<ImportAction>::empty() + writes_into_empty(
            d,
            by_content,
        ));
        assert(writes_into_empty(d, cards_from(d, i)) =~= Seq::new(
            (d.cards.len() - i) as nat,
            |j: int| ImportAction::InsertCard((i + j) as usize),
        ) + writes_into_empty(d, logs_from(d, 0)));
    } else {
        assert(Seq::new((d.cards.len() - i) as nat, |j: int| ImportAction::InsertCard((i + j) as usize))
            =~= Seq::<ImportAction>::empty());
        assert(writes_into_empty(d, cards_from(d, i)) =~= Seq::<ImportAction>::empty()
            + writes_into_empty(d, logs_from(d, 0)));
    }
}

proof fn lemma_studies_into_empty(d: LearnmeData, i: int)
    requires
        0 <= i <= d.studies.len(),
    ensures
        writes_into_empty(d, studies_from(d, i)) == Seq::new(
            (d.studies.len() - i) as nat,
            |j: int| ImportAction::InsertStudy((i + j) as usize),
        ) + writes_into_empty(d, cards_from(d, 0)),
    decreases d.studies.len() - i,
{
    if i < d.studies.len() {
        lemma_studies_into_empty(d, i + 1);
        let step = ImportStep::CheckStudy(i as usize);
        assert(writes_into_empty(d, step) == seq![ImportAction::InsertStudy(i as usize)]
            + writes_into_empty(d, studies_from(d, i + 1)));
        assert(writes_into_empty(d, studies_from(d, i)) =~= Seq::new(
            (d.studies.len() - i) as nat,
            |j: int| ImportAction::InsertStudy((i + j) as usize),
        ) + writes_into_empty(d, cards_from(d, 0)));
    } else {
        assert(Seq::new((d.studies.len() - i) as nat, |j: int| ImportAction::InsertStudy((i + j) as usize))
            =~= Seq::<ImportAction>::empty());
        assert(writes_into_empty(d, studies_from(d, i)) =~= Seq::<ImportAction>::empty()
            + writes_into_empty(d, cards_from(d, 0)));
    }
}

proof fn lemma_categories_into_empty(d: LearnmeData, i: int)
    requires
        0 <= i <= d.categories.len(),
    ensures
        writes_into_empty(d, categories_from(d, i)) == Seq::new(
            (d.categories.len() - i) as nat,
            |j: int| ImportAction::InsertCategory((i + j) as usize),
        ) + writes_into_empty(d, studies_from(d, 0)),
    decreases d.categories.len() - i,
{
    if i < d.categories.len() {
        lemma_categories_into_empty(d, i + 1);
        let step = ImportStep::CheckCategory(i as usize);
        assert(writes_into_empty(d, step) == seq![ImportAction::InsertCategory(i as usize)]
            + writes_into_empty(d, categories_from(d, i + 1)));
        assert(writes_into_empty(d, categories_from(d, i)) =~= Seq::new(
            (d.categories.len() - i) as nat,
            |j: int| ImportAction::InsertCategory((i + j) as usize),
        ) + writes_into_empty(d, studies_from(d, 0)));
    } else {
        assert(Seq::new(
            (d.categories.len() - i) as nat,
            |j: int| ImportAction::InsertCategory((i + j) as usize),
        ) =~= Seq::<ImportAction>::empty());
        assert(writes_into_empty(d, categories_from(d, i)) =~= Seq::<ImportAction>::empty()
            + writes_into_empty(d, studies_from(d, 0)));
    }
}

/// Importing a file into a store that holds none of its records, in either
/// mode, inserts every record of the file once, in file order: the
/// categories, the studies, the cards, then the reviews.
pub proof fn law_import_into_empty_store(d: LearnmeData, mode: ImportMode)
    ensures
        writes_into_empty(d, start_of(d, mode)) == inserts_of(d),
{
    lemma_logs_into_empty(d, 0);
    lemma_cards_into_empty(d, 0);
    lemma_studies_into_empty(d, 0);
    lemma_categories_into_empty(d, 0);
    let c = Seq::new(d.categories.len() as nat, |i: int| ImportAction::InsertCategory(i as usize));
    let s = Seq::new(d.studies.len() as nat, |i: int| ImportAction::InsertStudy(i as usize));
    let k = Seq::new(d.cards.len() as nat, |i: int| ImportAction::InsertCard(i as usize));
    let l = Seq::new(d.review_logs.len() as nat, |i: int| ImportAction::InsertReviewLog(i as usize));
    assert(Seq::new(d.categories.len() as nat, |j: int| ImportAction::InsertCategory((0 + j) as usize)) =~= c);
    assert(Seq::new(d.studies.len() as nat, |j: int| ImportAction::InsertStudy((0 + j) as usize)) =~= s);
    assert(Seq::new(d.cards.len() as nat, |j: int| ImportAction::InsertCard((0 + j) as usize)) =~= k);
    assert(Seq::new(d.review_logs.len() as nat, |j: int| ImportAction::InsertReviewLog((0 + j) as usize)) =~= l);
    assert(writes_into_empty(d, categories_from(d, 0)) =~= inserts_of(d));
    if mode == ImportMode::Replace {
        assert(writes_into_empty(d, ImportStep::WipeAll) =~= Seq::<ImportAction>::empty()
            + writes_into_empty(d, categories_from(d, 0)));
    }
}

/// The answer of a store that holds every record of the file as the file
/// has it (a card is found by its identifier).
pub open spec fn present_answer(d: LearnmeData, step: ImportStep) -> ImportAnswer {
    match step {
        ImportStep::WipeAll => ImportAnswer::Wiped,
        ImportStep::FindCardById(i) => ImportAnswer::Found(Some(d.cards[i as int])),
        ImportStep::FindCardByContent(i) => ImportAnswer::Found(Some(d.cards[i as int])),
        _ => ImportAnswer::Exists(true),
    }
}

/// The writes an import makes from `step` on, against a store that holds
/// every record of the file as the file has it.
pub open spec fn writes_into_full(d: LearnmeData, step: ImportStep) -> Seq<ImportAction>
    decreases steps_left(d, step),
{
    if step is Done || !step_in(d, step) {
        Seq::empty()
    } else {
        proof {
            law_import_plan_ends(d, step, present_answer(d, step));
        }
        let (a, next) = plan_next(d, step, present_answer(d, step));
        (if a is Nothing {
            Seq::empty()
        } else {
            seq![a]
        }) + writes_into_full(d, next)
    }
}

/// A stored card is kept as the file has it: same identifier, reviews and
/// review time.
pub open spec fn stored_as(stored: LearnmeCard, file_card: LearnmeCard) -> bool {
    &&& stored.id@ == file_card.id@
    &&& stored.reps == file_card.reps
    &&& opt_text(stored.last_reviewed) == opt_text(file_card.last_reviewed)
}

/// Finding by identifier a stored card that is kept as the file has it
/// writes nothing.
pub proof fn law_card_stored_as_in_file_kept(d: LearnmeData, i: usize, stored: LearnmeCard)
    requires
        i < d.cards.len(),
        stored_as(stored, d.cards[i as int]),
    ensures
        plan_next(d, ImportStep::FindCardById(i), ImportAnswer::Found(Some(stored))).0
            == ImportAction::Nothing,
{
    let c = d.cards[i as int];
    if let Some(t) = stored.last_reviewed {
        lemma_bytes_lt_irreflexive(vstd::utf8::encode_utf8(t@));
        if let Some(u) = c.last_reviewed {
            assert(t@ == u@);
        }
    }
}

proof fn lemma_full_store_writes_nothing(d: LearnmeData, step: ImportStep)
    requires
        step_in(d, step),
        !(step is FindCardByContent),
    ensures
        writes_into_full(d, step) == Seq::<ImportAction>::empty(),
    decreases steps_left(d, step),
{
    if !(step is Done) {
        law_import_plan_ends(d, step, present_answer(d, step));
        if let ImportStep::FindCardById(i) = step {
            law_reimported_card_unchanged(d, i);
        }
        let next = plan_next(d, step, present_answer(d, step)).1;
        lemma_full_store_writes_nothing(d, next);
        assert(writes_into_full(d, step) =~= Seq::<ImportAction>::empty());
    }
}

/// A merge import repeated on the same file writes nothing: against a store
/// that holds every record of the file as the file has it (as it does after
/// the file was imported), no record is inserted or updated.
pub proof fn law_repeated_merge_writes_nothing(d: LearnmeData)
    ensures
        writes_into_full(d, start_of(d, ImportMode::Merge)) == Seq::<ImportAction>::empty(),
{
    lemma_full_store_writes_nothing(d, start_of(d, ImportMode::Merge));
}

/// A stored card already holds the scheduling state and tags of file card
/// `f`: an update from `f`, which writes exactly these, leaves it as it is.
pub open spec fn holds_state_of(s: LearnmeCard, f: LearnmeCard) -> bool {
    &&& s.stability_bits == f.stability_bits
    &&& s.difficulty_bits == f.difficulty_bits
    &&& s.due@ == f.due@
    &&& opt_text(s.last_reviewed) == opt_text(f.last_reviewed)
    &&& s.state@ == f.state@
    &&& s.reps == f.reps
    &&& s.lapses == f.lapses
    &&& s.tags@ == f.tags@
}

/// A stored card found by identifier is settled against file card `f`: it
/// wins their conflict.
pub open spec fn settled_by_id(s: LearnmeCard, f: LearnmeCard) -> bool {
    winner_of(s, f) == Winner::Existing
}

/// A stored card found by content is settled against file card `f`: it wins
/// their conflict, and where it has as many reviews and the same review time
/// it already holds the state of `f`.
pub open spec fn settled_by_content(s: LearnmeCard, f: LearnmeCard) -> bool {
    &&& winner_of(s, f) == Winner::Existing
    &&& (s.reps == f.reps && opt_text(s.last_reviewed) == opt_text(f.last_reviewed)) ==> holds_state_of(s, f)
}

/// A card that holds the state of a file card (as one that the import
/// inserted or updated from it does) is settled against it, whether it is
/// found by identifier or by content.
pub proof fn law_card_with_file_state_settled(s: LearnmeCard, f: LearnmeCard)
    requires
        holds_state_of(s, f),
    ensures
        settled_by_id(s, f),
        settled_by_content(s, f),
{
    if let Some(t) = s.last_reviewed {
        lemma_bytes_lt_irreflexive(vstd::utf8::encode_utf8(t@));
    }
}

/// A merge settles every card of the file it matches: a stored card that it
/// does not update is settled against the file card (and one that it
/// updates then holds the file card's state; see
/// `law_card_with_file_state_settled`).
pub proof fn law_merge_settles_matched_card(s: LearnmeCard, f: LearnmeCard)
    ensures
        s.id@ == f.id@ && !updates_on_id_match(s, f) ==> settled_by_id(s, f),
        !updates_on_content_match(s, f) ==> settled_by_content(s, f),
{
    if let Some(t) = s.last_reviewed {
        lemma_bytes_lt_irreflexive(vstd::utf8::encode_utf8(t@));
    }
}

/// Merging a file again into a store where its cards are settled writes no
/// change to them: a card settled by identifier is not updated, and a card
/// settled by content is updated only where it already holds the file
/// card's state.
pub proof fn law_settled_card_not_changed(s: LearnmeCard, f: LearnmeCard)
    ensures
        settled_by_id(s, f) ==> !updates_on_id_match(s, f),
        settled_by_content(s, f) && updates_on_content_match(s, f) ==> holds_state_of(s, f),
{
}

/// The answer of a store that holds the file's categories, studies and
/// reviews, and that finds for card `i` the card `by_id(i)` by identifier
/// and the card `by_content(i)` by content.
pub open spec fn merged_answer(
    by_id: spec_fn(int) -> Option<LearnmeCard>,
    by_content: spec_fn(int) -> Option<LearnmeCard>,
    step: ImportStep,
) -> ImportAnswer {
    match step {
        ImportStep::WipeAll => ImportAnswer::Wiped,
        ImportStep::FindCardById(i) => ImportAnswer::Found(by_id(i as int)),
        ImportStep::FindCardByContent(i) => ImportAnswer::Found(by_content(i as int)),
        _ => ImportAnswer::Exists(true),
    }
}

/// The writes an import makes from `step` on against such a store.
pub open spec fn writes_into_merged(
    d: LearnmeData,
    by_id: spec_fn(int) -> Option<LearnmeCard>,
    by_content: spec_fn(int) -> Option<LearnmeCard>,
    step: ImportStep,
) -> Seq<ImportAction>
    decreases steps_left(d, step),
{
    if step is Done || !step_in(d, step) {
        Seq::empty()
    } else {
        proof {
            law_import_plan_ends(d, step, merged_answer(by_id, by_content, step));
        }
        let (a, next) = plan_next(d, step, merged_answer(by_id, by_content, step));
        (if a is Nothing {
            Seq::empty()
        } else {
            seq![a]
        }) + writes_into_merged(d, by_id, by_content, next)
    }
}

/// Every card of the file is settled in the store: the card found by its
/// identifier, or, where there is none, the card found by its content.
pub open spec fn store_settled(
    d: LearnmeData,
    by_id: spec_fn(int) -> Option<LearnmeCard>,
    by_content: spec_fn(int) -> Option<LearnmeCard>,
) -> bool {
    forall|i: int|
        0 <= i < d.cards.len() ==> match #[trigger] by_id(i) {
            Some(s) => settled_by_id(s, d.cards[i]),
            None => by_content(i) matches Some(s) && settled_by_content(s, d.cards[i]),
        }
}

/// A write that leaves the store as it is: an update of the card found by
/// content that already holds the state it is given.
pub open spec fn changes_nothing(
    d: LearnmeData,
    by_content: spec_fn(int) -> Option<LearnmeCard>,
    a: ImportAction,
) -> bool {
    match a {
        ImportAction::UpdateCard { target_id, source } => by_content(source as int) matches Some(s)
            && target_id == s.id && holds_state_of(s, d.cards[source as int]),
        _ => false,
    }
}

proof fn lemma_merged_store_unchanged(
    d: LearnmeData,
    by_id: spec_fn(int) -> Option<LearnmeCard>,
    by_content: spec_fn(int) -> Option<LearnmeCard>,
    step: ImportStep,
)
    requires
        store_settled(d, by_id, by_content),
        step_in(d, step),
        step matches ImportStep::FindCardByContent(i) ==> by_id(i as int) is None,
    ensures
        forall|k: int|
            0 <= k < writes_into_merged(d, by_id, by_content, step).len() ==> changes_nothing(
                d,
                by_content,
                #[trigger] writes_into_merged(d, by_id, by_content, step)[k],
            ),
    decreases steps_left(d, step),
{
    if !(step is Done) {
        let answer = merged_answer(by_id, by_content, step);
        law_import_plan_ends(d, step, answer);
        let (a, next) = plan_next(d, step, answer);
        match step {
            ImportStep::FindCardById(i) => {
                assert(by_id(i as int) is Some ==> settled_by_id(by_id(i as int)->0, d.cards[i as int]));
                if let Some(s) = by_id(i as int) {
                    law_settled_card_not_changed(s, d.cards[i as int]);
                }
            },
            ImportStep::FindCardByContent(i) => {
                assert(by_id(i as int) is None);
                let s = by_content(i as int)->0;
                assert(settled_by_content(s, d.cards[i as int]));
                law_settled_card_not_changed(s, d.cards[i as int]);
            },
            _ => {},
        }
        lemma_merged_store_unchanged(d, by_id, by_content, next);
        let rest = writes_into_merged(d, by_id, by_content, next);
        let head: Seq<ImportAction> = if a is Nothing {
            Seq::empty()
        } else {
            seq![a]
        };
        assert(writes_into_merged(d, by_id, by_content, step) == head + rest);
        assert forall|k: int|
            0 <= k < (head + rest).len() implies changes_nothing(d, by_content, #[trigger] (head
            + rest)[k]) by {
            if k >= head.len() {
                assert((head + rest)[k] == rest[k - head.len()]);
            }
        }
    }
}

/// A merge import repeated on the same file changes nothing: against a
/// store in which every card of the file is settled (as it is after the
/// file was merged once, by `law_merge_settles_matched_card` and
/// `law_card_with_file_state_settled`), and which holds the file's
/// categories, studies and reviews, the import inserts nothing, and each
/// update it makes gives a card the state that the card already holds.
pub proof fn law_repeated_merge_changes_nothing(
    d: LearnmeData,
    by_id: spec_fn(int) -> Option<LearnmeCard>,
    by_content: spec_fn(int) -> Option<LearnmeCard>,
)
    requires
        store_settled(d, by_id, by_content),
    ensures
        forall|k: int|
            0 <= k < writes_into_merged(d, by_id, by_content, start_of(d, ImportMode::Merge)).len()
                ==> changes_nothing(
                d,
                by_content,
                #[trigger] writes_into_merged(d, by_id, by_content, start_of(d, ImportMode::Merge))[k],
            ),
{
    lemma_merged_store_unchanged(d, by_id, by_content, start_of(d, ImportMode::Merge));
}

/// A file completed by the export passes the version check and the checksum
/// check on the same data: its format version is supported and its checksum
/// is the one its content gives.
pub proof fn law_exported_file_passes_checks(f: LearnmeFile, data_json: Seq<char>, app_version: Seq<char>)
    requires
        f.version == 1,
        f.app_version@ == app_version,
        checksum_of(data_json, app_version, 1) == f.checksum@,
    ensures
        f.version <= MAX_SUPPORTED_VERSION,
        checksum_of(data_json, f.app_version@, f.version as nat) == f.checksum@,
{
}

} // verus!
