//! Importing a deck of cards: the deck document is read and checked against
//! the deck schema; cards already in the deck (by their trimmed sides) are
//! skipped, the others are added with the scheduling state they arrive with
//! or that of a card never reviewed.
use vstd::prelude::*;
use vstd::string::StringSliceAdditionalSpecFns;
use crate::adapters::{check_against_schema, json_bytes_document, json_bytes_parse,
    json_document_from_bytes, json_member_text, json_str_member, now_rfc3339, schema_check};
use crate::error::{repo_message, RepoError};
use crate::repo::card::CreateCardFull;
use crate::text::{trim, trim_str};

verus! {

// ---------------------------------------------------------------------------
// Reading and checking a deck document

/// Why a deck could not be imported.
#[derive(Debug, Clone, PartialEq, Eq)]
pub enum ImportError {
    /// The deck file could not be read, by the system's description of it.
    Io(String),
    /// The deck file is not a JSON document, by the parser's description of it.
    Parse(String),
    /// The document breaks the deck schema at `pointer`.
    Schema { pointer: String, message: String },
    Repo(RepoError),
}

pub open spec fn import_message(e: ImportError) -> Seq<char> {
    match e {
        ImportError::Io(m) => "io error: "@ + m@,
        ImportError::Parse(m) => "parse error: "@ + m@,
        ImportError::Schema { pointer, message } => "schema error at "@ + pointer@ + ": "@
            + message@,
        ImportError::Repo(r) => "database error: "@ + repo_message(r),
    }
}

impl ImportError {
    /// The human-readable description of the error.
    pub fn message(&self) -> (r: String)
        ensures
            r@ == import_message(*self),
    {
        match self {
            ImportError::Io(m) => String::from_str("io error: ").concat(m.as_str()),
            ImportError::Parse(m) => String::from_str("parse error: ").concat(m.as_str()),
            ImportError::Schema { pointer, message } => {
                let mut s = String::from_str("schema error at ");
                s.append(pointer.as_str());
                s.append(": ");
                s.append(message.as_str());
                s
            },
            ImportError::Repo(r) => {
                let inner = r.message();
                String::from_str("database error: ").concat(inner.as_str())
            },
        }
    }
}

/// The structure a deck document must have: a schema version, a method and
/// a list of cards, each with a front and a back.
pub const DECK_SCHEMA: &'static str = r#"{
  "$schema": "http://json-schema.org/draft-07/schema#",
  "type": "object",
  "required": ["schemaVersion", "method", "cards"],
  "properties": {
    "schemaVersion": { "type": "string" },
    "method": { "type": "string" },
    "name": { "type": "string" },
    "tags": { "type": "array", "items": { "type": "string" } },
    "cards": {
      "type": "array",
      "items": {
        "type": "object",
        "required": ["front", "back"],
        "properties": {
          "front": { "type": "string" },
          "back": { "type": "string" },
          "tags": { "type": "array", "items": { "type": "string" } }
        }
      }
    }
  }
}"#;

/// Reads a deck document from the bytes of a deck file.
pub fn parse_deck_bytes(bytes: &[u8]) -> (r: Result<serde_json::Value, ImportError>)
    ensures
        r is Ok <==> json_bytes_parse(bytes@),
        r matches Ok(v) ==> v == json_bytes_document(bytes@),
        r is Err ==> r matches Err(ImportError::Parse(_)),
{
    match json_document_from_bytes(bytes) {
        Ok(v) => Ok(v),
        Err(m) => Err(ImportError::Parse(m)),
    }
}

/// The first way a document breaks a schema, as the schema checker reports it.
pub struct SchemaViolation {
    /// For a missing required property: its name, or `None` where the name
    /// is not a string. `None` for any other violation.
    pub missing_property: Option<Option<String>>,
    /// Where in the document the violation is, as a JSON pointer.
    pub instance_path: String,
    /// The checker's description of the violation.
    pub message: String,
}

/// Where a violation is reported: at the missing property for a missing
/// required one (`/?` where its name is not a string), else at the place in
/// the document where it occurred.
pub open spec fn pointer_of(v: SchemaViolation) -> Seq<char> {
    match v.missing_property {
        Some(Some(name)) => "/"@ + name@,
        Some(None) => "/?"@,
        None => v.instance_path@,
    }
}

/// The parts of a reported violation, by their text: for a missing
/// required property its name where that is a string, the instance path,
/// and the checker's description.
pub open spec fn violation_parts(found: Option<SchemaViolation>) -> Option<
    (Option<Option<Seq<char>>>, Seq<char>, Seq<char>),
> {
    match found {
        None => None,
        Some(v) => Some(
            (
                match v.missing_property {
                    Some(Some(name)) => Some(Some(name@)),
                    Some(None) => Some(None),
                    None => None,
                },
                v.instance_path@,
                v.message@,
            ),
        ),
    }
}

/// Where a violation with these parts is reported; see `pointer_of`.
pub open spec fn pointer_of_parts(missing: Option<Option<Seq<char>>>, path: Seq<char>) -> Seq<char> {
    match missing {
        Some(Some(name)) => "/"@ + name,
        Some(None) => "/?"@,
        None => path,
    }
}

/// The bytes of the deck schema's text.
pub open spec fn deck_schema_bytes() -> Seq<u8> {
    DECK_SCHEMA.spec_bytes()
}

/// What checking a document against the deck schema reports: `None` where
/// the deck schema cannot be read or compiled; otherwise the first
/// violation, if any, by its parts.
pub open spec fn deck_violation(doc: serde_json::Value) -> Option<
    Option<(Option<Option<Seq<char>>>, Seq<char>, Seq<char>)>,
> {
    if json_bytes_parse(deck_schema_bytes()) {
        schema_check(json_bytes_document(deck_schema_bytes()), doc)
    } else {
        None
    }
}

/// The place a schema violation is reported at.
pub fn extract_pointer(v: &SchemaViolation) -> (r: String)
    ensures
        r@ == pointer_of(*v),
{
    match &v.missing_property {
        Some(Some(name)) => String::from_str("/").concat(name.as_str()),
        Some(None) => String::from_str("/?"),
        None => v.instance_path.clone(),
    }
}

/// The error a schema violation is reported as.
pub fn schema_error(v: SchemaViolation) -> (e: ImportError)
    ensures
        e matches ImportError::Schema { pointer, message } && pointer@ == pointer_of(v)
            && message == v.message,
{
    let pointer = extract_pointer(&v);
    ImportError::Schema { pointer, message: v.message }
}

/// The outcome of a schema check from the first violation the checker
/// reports: none passes; a violation is the error.
pub fn schema_result(found: Option<SchemaViolation>) -> (r: Result<(), ImportError>)
    ensures
        found is None ==> r is Ok,
        found matches Some(v) ==> r matches Err(ImportError::Schema { pointer, message })
            && pointer@ == pointer_of(v) && message == v.message,
{
    match found {
        None => Ok(()),
        Some(v) => Err(schema_error(v)),
    }
}

/// Checks a deck document against the deck schema: a document the checker
/// finds no violation in passes; otherwise the first violation it reports
/// is the error. A deck schema that cannot be read or compiled (the deck
/// schema always can) is reported as a violation at the root.
pub fn validate_schema(value: &serde_json::Value) -> (r: Result<(), ImportError>)
    ensures
        match deck_violation(*value) {
            None => r matches Err(ImportError::Schema { pointer, .. }) && pointer@.len() == 0,
            Some(None) => r is Ok,
            Some(Some((missing, path, text))) => r matches Err(
                ImportError::Schema { pointer, message },
            ) && pointer@ == pointer_of_parts(missing, path) && message@ == text,
        },
{
    let schema_doc = match json_document_from_bytes(DECK_SCHEMA.as_bytes()) {
        Ok(d) => d,
        Err(m) => {
            return Err(ImportError::Schema { pointer: String::new(), message: m });
        },
    };
    match check_against_schema(&schema_doc, value) {
        Ok(found) => schema_result(found),
        Err(m) => Err(ImportError::Schema { pointer: String::new(), message: m }),
    }
}

/// The trimmed text of a string member of a deck document; empty where the
/// member is missing or not a string.
pub open spec fn member_or_empty(doc: serde_json::Value, key: Seq<char>) -> Seq<char> {
    match json_member_text(doc, key) {
        Some(t) => trim(t),
        None => Seq::empty(),
    }
}

/// The name and method a deck document gives its study, trimmed; each is
/// empty where the document does not give it as a string.
pub fn deck_name_and_method(value: &serde_json::Value) -> (r: (String, String))
    ensures
        r.0@ == member_or_empty(*value, "name"@),
        r.1@ == member_or_empty(*value, "method"@),
{
    let name = match json_str_member(value, "name") {
        Some(t) => trim_str(t.as_str()),
        None => String::new(),
    };
    let method = match json_str_member(value, "method") {
        Some(t) => trim_str(t.as_str()),
        None => String::new(),
    };
    (name, method)
}

// ---------------------------------------------------------------------------
// Planning the import of the cards

/// A card of a deck to import.
pub struct CardPayload {
    pub front: String,
    pub back: String,
    pub tags: Vec<String>,
}

/// A card of a deck file with the scheduling state it may carry.
pub struct CardImportData {
    pub front: String,
    pub back: String,
    pub tags: Vec<String>,
    /// Bit pattern of the stability, where given.
    pub stability_bits: Option<u64>,
    /// Bit pattern of the difficulty, where given.
    pub difficulty_bits: Option<u64>,
    pub due: Option<String>,
    pub last_review: Option<String>,
    pub state: Option<String>,
    pub reps: Option<i64>,
    pub lapses: Option<i64>,
}

/// How many cards an import added and how many it skipped.
#[derive(Debug, Clone, Copy, PartialEq, Eq, Structural)]
pub struct ImportResult {
    pub inserted: u32,
    pub skipped: u32,
}

/// The cards to add and the count of those skipped.
pub struct ImportPlan {
    pub cards: Vec<CreateCardFull>,
    pub result: ImportResult,
}

/// A card with these sides is already in the deck: some stored (front, back)
/// pair equals its trimmed sides.
pub open spec fn is_known(existing: Seq<(String, String)>, front: Seq<char>, back: Seq<char>) -> bool {
    exists|k: int|
        0 <= k < existing.len() && (#[trigger] existing[k]).0@ == trim(front) && existing[k].1@
            == trim(back)
}

/// Decides whether a card with these sides is already in the deck.
pub fn is_known_card(existing: &Vec<(String, String)>, front: &str, back: &str) -> (r: bool)
    ensures
        r == is_known(existing@, front@, back@),
{
    let f = trim_str(front);
    let b = trim_str(back);
    let mut k: usize = 0;
    while k < existing.len()
        invariant
            k <= existing.len(),
            f@ == trim(front@),
            b@ == trim(back@),
            forall|j: int|
                0 <= j < k ==> !((#[trigger] existing@[j]).0@ == trim(front@) && existing@[j].1@
                    == trim(back@)),
        decreases existing.len() - k,
    {
        if existing[k].0 == f && existing[k].1 == b {
            return true;
        }
        k = k + 1;
    }
    false
}

/// The cards of `incoming` that are not in the deck, in their order.
pub open spec fn new_cards(existing: Seq<(String, String)>, incoming: Seq<CardPayload>) -> Seq<CardPayload> {
    incoming.filter(|p: CardPayload| !is_known(existing, p.front@, p.back@))
}

/// Splits incoming cards into those to add, in their order, and the number
/// of those already in the deck.
pub fn compute_new_cards(existing: &Vec<(String, String)>, incoming: Vec<CardPayload>) -> (r: (
    Vec<CardPayload>,
    usize,
))
    ensures
        r.0@ == new_cards(existing@, incoming@),
        r.0.len() + r.1 == incoming.len(),
{
    let ghost inc = incoming@;
    let n = incoming.len();
    assert(inc.len() == n);
    let mut to_insert: Vec<CardPayload> = Vec::new();
    let mut skipped: usize = 0;
    for p in it: incoming.into_iter()
        invariant
            it.seq() == inc,
            inc.len() <= usize::MAX,
            to_insert@ == new_cards(existing@, inc.take(it.index() as int)),
            to_insert.len() + skipped == it.index(),
    {
        let known = is_known_card(existing, p.front.as_str(), p.back.as_str());
        proof {
            reveal_with_fuel(Seq::<_>::filter, 1);
            assert(inc.take(it.index() + 1).drop_last() =~= inc.take(it.index() as int));
        }
        if known {
            skipped = skipped + 1;
        } else {
            to_insert.push(p);
        }
    }
    proof {
        assert(inc.take(inc.len() as int) =~= inc);
    }
    (to_insert, skipped)
}

/// The card a deck card is added as: its own sides and tags, the scheduling
/// state it carries, and for what it leaves out the state of a card never
/// reviewed: zero stability and difficulty, state "new", no reviews or
/// lapses, due at the time of the import.
pub open spec fn is_imported_card(c: CreateCardFull, p: CardImportData) -> bool {
    &&& c.front == p.front
    &&& c.back == p.back
    &&& c.tags == p.tags
    &&& c.stability_bits == (match p.stability_bits {
        Some(b) => b,
        None => 0,
    })
    &&& c.difficulty_bits == (match p.difficulty_bits {
        Some(b) => b,
        None => 0,
    })
    &&& match p.due {
        Some(d) => c.due == d,
        None => c.due@.len() > 0,
    }
    &&& c.last_review == p.last_review
    &&& match p.state {
        Some(st) => c.state == st,
        None => c.state@ == "new"@,
    }
    &&& c.reps == (match p.reps {
        Some(n) => n,
        None => 0,
    })
    &&& c.lapses == (match p.lapses {
        Some(n) => n,
        None => 0,
    })
}

/// The deck cards that are not in the deck yet, in their order.
pub open spec fn new_imports(existing: Seq<(String, String)>, incoming: Seq<CardImportData>) -> Seq<CardImportData> {
    incoming.filter(|p: CardImportData| !is_known(existing, p.front@, p.back@))
}

fn imported_card(p: CardImportData) -> (c: CreateCardFull)
    ensures
        is_imported_card(c, p),
{
    let due = match p.due {
        Some(d) => d,
        None => now_rfc3339(),
    };
    let state = match p.state {
        Some(st) => st,
        None => {
            proof {
                reveal_strlit("new");
            }
            String::from_str("new")
        },
    };
    CreateCardFull {
        front: p.front,
        back: p.back,
        tags: p.tags,
        stability_bits: match p.stability_bits {
            Some(b) => b,
            None => 0,
        },
        difficulty_bits: match p.difficulty_bits {
            Some(b) => b,
            None => 0,
        },
        due,
        last_review: p.last_review,
        state,
        reps: match p.reps {
            Some(n) => n,
            None => 0,
        },
        lapses: match p.lapses {
            Some(n) => n,
            None => 0,
        },
    }
}

/// Plans the import of deck cards into a deck whose stored cards have the
/// given (front, back) pairs: the new ones, in their order, become cards to
/// add; the counts of added and skipped cards are kept to 32 bits.
pub fn plan_import(existing: &Vec<(String, String)>, incoming: Vec<CardImportData>) -> (r: ImportPlan)
    ensures
        r.cards.len() == new_imports(existing@, incoming@).len(),
        forall|i: int|
            0 <= i < r.cards.len() ==> #[trigger] is_imported_card(
                r.cards@[i],
                new_imports(existing@, incoming@)[i],
            ),
        r.result.inserted == r.cards.len() as u32,
        r.result.skipped == (incoming.len() - r.cards.len()) as u32,
{
    let ghost inc = incoming@;
    let n = incoming.len();
    let mut cards: Vec<CreateCardFull> = Vec::new();
    let mut skipped: usize = 0;
    for p in it: incoming.into_iter()
        invariant
            it.seq() == inc,
            inc.len() == n,
            cards.len() == new_imports(existing@, inc.take(it.index() as int)).len(),
            forall|i: int|
                0 <= i < cards.len() ==> #[trigger] is_imported_card(
                    cards@[i],
                    new_imports(existing@, inc.take(it.index() as int))[i],
                ),
            cards.len() + skipped == it.index(),
    {
        let known = is_known_card(existing, p.front.as_str(), p.back.as_str());
        proof {
            reveal_with_fuel(Seq::<_>::filter, 1);
            assert(inc.take(it.index() + 1).drop_last() =~= inc.take(it.index() as int));
        }
        if known {
            skipped = skipped + 1;
        } else {
            let c = imported_card(p);
            cards.push(c);
        }
    }
    proof {
        assert(inc.take(inc.len() as int) =~= inc);
    }
    let inserted = cards.len() as u32;
    ImportPlan { cards, result: ImportResult { inserted, skipped: skipped as u32 } }
}

/// Importing cards that are all in the deck already adds none of them.
pub proof fn law_known_cards_skipped(existing: Seq<(String, String)>, incoming: Seq<CardPayload>)
    requires
        forall|i: int| 0 <= i < incoming.len() ==> is_known(existing, #[trigger] incoming[i].front@, incoming[i].back@),
    ensures
        new_cards(existing, incoming).len() == 0,
    decreases incoming.len(),
{
    reveal_with_fuel(Seq::<_>::filter, 1);
    if incoming.len() > 0 {
        let rest = incoming.drop_last();
        assert forall|i: int| 0 <= i < rest.len() implies is_known(existing, #[trigger] rest[i].front@, rest[i].back@) by {
            assert(rest[i] == incoming[i]);
        }
        law_known_cards_skipped(existing, rest);
        assert(is_known(existing, incoming[incoming.len() - 1].front@, incoming[incoming.len() - 1].back@));
    }
}
/// Importing deck cards into a deck with no cards adds every one of them,
/// in their order, each with the scheduling state it carries (see
/// `plan_import`).
pub proof fn law_empty_deck_takes_every_card(incoming: Seq<CardImportData>)
    ensures
        new_imports(Seq::empty(), incoming) == incoming,
    decreases incoming.len(),
{
    reveal_with_fuel(Seq::<_>::filter, 1);
    if incoming.len() > 0 {
        law_empty_deck_takes_every_card(incoming.drop_last());
        let last = incoming.last();
        assert(!is_known(Seq::empty(), last.front@, last.back@));
        assert(incoming.drop_last().push(last) =~= incoming);
    } else {
        assert(new_imports(Seq::empty(), incoming) =~= incoming);
    }
}

/// Importing deck cards that are all in the deck already adds none of them:
/// `plan_import` then plans no card and counts every one as skipped. (After
/// an import the deck holds each added card's trimmed sides, so importing
/// the same deck again adds nothing and changes no card.)
pub proof fn law_known_deck_cards_skipped(existing: Seq<(String, String)>, incoming: Seq<CardImportData>)
    requires
        forall|i: int| 0 <= i < incoming.len() ==> is_known(existing, #[trigger] incoming[i].front@, incoming[i].back@),
    ensures
        new_imports(existing, incoming).len() == 0,
    decreases incoming.len(),
{
    reveal_with_fuel(Seq::<_>::filter, 1);
    if incoming.len() > 0 {
        let rest = incoming.drop_last();
        assert forall|i: int| 0 <= i < rest.len() implies is_known(existing, #[trigger] rest[i].front@, rest[i].back@) by {
            assert(rest[i] == incoming[i]);
        }
        law_known_deck_cards_skipped(existing, rest);
        assert(is_known(existing, incoming[incoming.len() - 1].front@, incoming[incoming.len() - 1].back@));
    }
}

/// After an import, a card with these sides is in the deck: one that was
/// there already, or one of the cards the import adds (which are stored with
/// their trimmed sides).
pub open spec fn known_after(
    existing: Seq<(String, String)>,
    added: Seq<CardImportData>,
    front: Seq<char>,
    back: Seq<char>,
) -> bool {
    ||| is_known(existing, front, back)
    ||| exists|k: int|
        0 <= k < added.len() && trim((#[trigger] added[k]).front@) == trim(front) && trim(added[k].back@)
            == trim(back)
}

/// An import leaves every card of the imported deck known to the deck, so
/// that importing the same deck again skips all of its cards (see
/// `law_known_deck_cards_skipped`).
pub proof fn law_import_leaves_every_card_known(existing: Seq<(String, String)>, incoming: Seq<CardImportData>)
    ensures
        forall|i: int|
            0 <= i < incoming.len() ==> known_after(
                existing,
                new_imports(existing, incoming),
                #[trigger] incoming[i].front@,
                incoming[i].back@,
            ),
{
    broadcast use vstd::seq_lib::group_filter_ensures;

    let added = new_imports(existing, incoming);
    assert forall|i: int| 0 <= i < incoming.len() implies known_after(
        existing,
        added,
        #[trigger] incoming[i].front@,
        incoming[i].back@,
    ) by {
        if !is_known(existing, incoming[i].front@, incoming[i].back@) {
            assert(added.contains(incoming[i]));
            let k = choose|k: int| 0 <= k < added.len() && added[k] == incoming[i];
            assert(trim(added[k].front@) == trim(incoming[i].front@));
        }
    }
}

} // verus!
