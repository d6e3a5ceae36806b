//! Building a session file from the stored records: the data in the order
//! categories, their studies, their cards; the whole days a card has been
//! resting and was scheduled for; and the file with its checksum.
use vstd::prelude::*;
use crate::adapters::{now_rfc3339, parse_rfc3339, rfc3339_instant};
use crate::error::RepoError;
use crate::repo::card::{clone_opt, copy_tags};
use crate::session::checksum::{checksum_of, compute_checksum};
use crate::session::import::{first_orphan, has_card, has_category, has_study, inserts_of,
    law_import_into_empty_store, opt_text, orphan_card_from, orphan_log_from, orphan_study_from,
    start_of, writes_into_empty, MAX_SUPPORTED_VERSION};
use crate::session::types::ImportMode;
use crate::session::types::{LearnmeCard, LearnmeCategory, LearnmeData, LearnmeFile, LearnmeReviewLog,
    LearnmeStudy};
use crate::types::{Card, Category, ReviewLog, Study};

verus! {

// ---------------------------------------------------------------------------
// Whole days between two instants

/// Division that rounds toward zero.
pub open spec fn trunc_div(x: int, d: int) -> int {
    if x >= 0 {
        x / d
    } else {
        -((-x) / d)
    }
}

/// The signed length, in nanoseconds, from instant `earlier` to instant
/// `later`, each given by its timestamp and the nanoseconds past it. A
/// nanosecond count of a second or more marks an instant inside a leap
/// second; such an instant counts its leap second only against an instant
/// later in the day.
pub open spec fn duration_nanos(later: (i64, u32), earlier: (i64, u32)) -> int {
    let sl = later.0 % 86400;
    let se = earlier.0 % 86400;
    let adj: int = if sl > se && earlier.1 >= 1_000_000_000 {
        1
    } else if sl < se && later.1 >= 1_000_000_000 {
        -1
    } else {
        0
    };
    (later.0 - earlier.0 + adj) * 1_000_000_000 + (later.1 - earlier.1)
}

/// The whole days from `earlier` to `later`, rounded toward zero.
pub open spec fn whole_days(later: (i64, u32), earlier: (i64, u32)) -> int {
    trunc_div(duration_nanos(later, earlier), 86_400_000_000_000)
}

/// The whole days from the date-time text `earlier` to `later`, none below
/// zero, kept to 32 bits; zero where either text is not an RFC 3339 date-time.
pub open spec fn days_between(later: Seq<char>, earlier: Seq<char>) -> u32 {
    match (rfc3339_instant(earlier), rfc3339_instant(later)) {
        (Some(e), Some(l)) => {
            let d = whole_days(l, e);
            (if d < 0 {
                0
            } else {
                d
            }) as u32
        },
        _ => 0,
    }
}

/// The whole days from a card's last review to `later`; zero for a card never reviewed.
pub open spec fn days_since_review(last_review: Option<Seq<char>>, later: Seq<char>) -> u32 {
    match last_review {
        Some(l) => days_between(later, l),
        None => 0,
    }
}

/// Whole days between any two instants stay far inside 64 bits.
pub proof fn lemma_whole_days_bounded(later: (i64, u32), earlier: (i64, u32))
    requires
        later.1 < 2_000_000_000,
        earlier.1 < 2_000_000_000,
    ensures
        -0x4000_0000_0000_0000 < whole_days(later, earlier) < 0x4000_0000_0000_0000,
{
    let x = duration_nanos(later, earlier);
    let bound: int = 0x2_0000_0000_0000_0000int * 1_000_000_000int;
    assert(-bound <= x <= bound) by (nonlinear_arith)
        requires
            x == (later.0 - earlier.0 + (if (later.0 % 86400) > (earlier.0 % 86400) && earlier.1 >= 1_000_000_000 {
                1int
            } else if (later.0 % 86400) < (earlier.0 % 86400) && later.1 >= 1_000_000_000 {
                -1int
            } else {
                0int
            })) * 1_000_000_000 + (later.1 - earlier.1),
            -0x8000_0000_0000_0000 <= later.0 < 0x8000_0000_0000_0000,
            -0x8000_0000_0000_0000 <= earlier.0 < 0x8000_0000_0000_0000,
            0 <= later.1 < 2_000_000_000,
            0 <= earlier.1 < 2_000_000_000,
            bound == 0x2_0000_0000_0000_0000 * 1_000_000_000,
    ;
    if x >= 0 {
        assert(x / 86_400_000_000_000 <= bound / 86_400_000_000_000) by (nonlinear_arith)
            requires
                0 <= x <= bound,
        ;
    } else {
        assert((-x) / 86_400_000_000_000 <= bound / 86_400_000_000_000) by (nonlinear_arith)
            requires
                0 <= -x <= bound,
        ;
    }
}

fn second_of_day(ts: i64) -> (r: i64)
    ensures
        r == ts % 86400,
        0 <= r < 86400,
{
    let shifted: u128 = ((ts as i128) + 9223372036854806400i128) as u128;
    proof {
        vstd::arithmetic::div_mod::lemma_mod_multiples_vanish(106751991167301, ts as int, 86400);
        assert(86400 * 106751991167301 + ts == shifted);
    }
    (shifted % 86400) as i64
}

pub(crate) fn whole_days_between(later: (i64, u32), earlier: (i64, u32)) -> (r: i128)
    requires
        later.1 < 2_000_000_000,
        earlier.1 < 2_000_000_000,
    ensures
        r == whole_days(later, earlier),
        -0x4000_0000_0000_0000 < r < 0x4000_0000_0000_0000,
{
    proof {
        lemma_whole_days_bounded(later, earlier);
    }
    let sl = second_of_day(later.0);
    let se = second_of_day(earlier.0);
    let adj: i128 = if sl > se && earlier.1 >= 1_000_000_000 {
        1
    } else if sl < se && later.1 >= 1_000_000_000 {
        -1
    } else {
        0
    };
    let total: i128 = ((later.0 as i128) - (earlier.0 as i128) + adj) * 1_000_000_000 + ((
    later.1 as i128) - (earlier.1 as i128));
    if total >= 0 {
        ((total as u128) / 86_400_000_000_000u128) as i128
    } else {
        let m: u128 = (-total) as u128;
        -((m / 86_400_000_000_000u128) as i128)
    }
}

fn days_between_texts(later: &str, earlier: &str) -> (r: u32)
    ensures
        r == days_between(later@, earlier@),
{
    let e = match parse_rfc3339(earlier) {
        Some(p) => p,
        None => {
            return 0;
        },
    };
    let l = match parse_rfc3339(later) {
        Some(p) => p,
        None => {
            return 0;
        },
    };
    let d = whole_days_between(l, e);
    let clamped: i128 = if d < 0 {
        0
    } else {
        d
    };
    clamped as u32
}

/// The whole days a card has rested from its last review to `now`.
pub fn compute_elapsed_days(last_review: &Option<String>, now: &str) -> (r: u32)
    ensures
        r == days_since_review(opt_text(*last_review), now@),
{
    match last_review {
        Some(lr) => days_between_texts(now, lr.as_str()),
        None => 0,
    }
}

/// The whole days from a card's last review to its due time.
pub fn compute_scheduled_days(last_review: &Option<String>, due: &str) -> (r: u32)
    ensures
        r == days_since_review(opt_text(*last_review), due@),
{
    match last_review {
        Some(lr) => days_between_texts(due, lr.as_str()),
        None => 0,
    }
}

// ---------------------------------------------------------------------------
// The data of a session file

/// A stored study with its cards, in stored order.
pub struct ExportStudy {
    pub study: Study,
    pub cards: Vec<Card>,
}

/// A stored category with its studies, in stored order.
pub struct ExportCategory {
    pub category: Category,
    pub studies: Vec<ExportStudy>,
}

/// The data of a session file and the time it was generated at.
pub struct ExportData {
    pub generated_at: String,
    pub data: LearnmeData,
}

pub open spec fn category_entry(c: Category) -> LearnmeCategory {
    LearnmeCategory { id: c.id, name: c.name, color: c.color }
}

pub open spec fn study_entry(s: Study) -> LearnmeStudy {
    LearnmeStudy { id: s.id, category_id: s.category_id, name: s.name, method: s.method }
}

/// A stored card as written to a session file generated at `generated_at`.
pub open spec fn card_entry(c: Card, study_id: String, generated_at: Seq<char>) -> LearnmeCard {
    LearnmeCard {
        id: c.id,
        study_id: study_id,
        front: c.front,
        back: c.back,
        tags: c.tags,
        state: c.state,
        stability_bits: c.stability_bits,
        difficulty_bits: c.difficulty_bits,
        elapsed_days: days_since_review(opt_text(c.last_review), generated_at),
        scheduled_days: days_since_review(opt_text(c.last_review), c.due@),
        reps: c.reps,
        lapses: c.lapses,
        due: c.due,
        last_reviewed: c.last_review,
    }
}

/// A stored review as written to a session file: its previous stability and
/// difficulty, and zero day counts and state.
pub open spec fn log_entry(l: ReviewLog) -> LearnmeReviewLog {
    LearnmeReviewLog {
        id: l.id,
        card_id: l.card_id,
        grade: l.grade,
        reviewed_at: l.reviewed_at,
        stability_bits: l.prev_stability_bits,
        difficulty_bits: l.prev_difficulty_bits,
        elapsed_days: 0,
        scheduled_days: 0,
        review_state: 0,
    }
}

pub open spec fn study_entries(ss: Seq<ExportStudy>) -> Seq<LearnmeStudy> {
    ss.map_values(|s: ExportStudy| study_entry(s.study))
}

pub open spec fn card_entries(s: ExportStudy, generated_at: Seq<char>) -> Seq<LearnmeCard> {
    s.cards@.map_values(|c: Card| card_entry(c, s.study.id, generated_at))
}

/// The cards of a list of studies, study by study.
pub open spec fn cards_of_studies(ss: Seq<ExportStudy>, generated_at: Seq<char>) -> Seq<LearnmeCard>
    decreases ss.len(),
{
    if ss.len() == 0 {
        Seq::empty()
    } else {
        cards_of_studies(ss.drop_last(), generated_at) + card_entries(ss.last(), generated_at)
    }
}

/// The studies of a list of categories, category by category.
pub open spec fn studies_of(tree: Seq<ExportCategory>) -> Seq<LearnmeStudy>
    decreases tree.len(),
{
    if tree.len() == 0 {
        Seq::empty()
    } else {
        studies_of(tree.drop_last()) + study_entries(tree.last().studies@)
    }
}

/// The cards of a list of categories, category by category.
pub open spec fn cards_of(tree: Seq<ExportCategory>, generated_at: Seq<char>) -> Seq<LearnmeCard>
    decreases tree.len(),
{
    if tree.len() == 0 {
        Seq::empty()
    } else {
        cards_of(tree.drop_last(), generated_at) + cards_of_studies(tree.last().studies@, generated_at)
    }
}

/// Two card entries agree in every field, the tags by their text.
pub open spec fn same_card(a: LearnmeCard, b: LearnmeCard) -> bool {
    &&& a.id == b.id
    &&& a.study_id == b.study_id
    &&& a.front == b.front
    &&& a.back == b.back
    &&& a.tags@ == b.tags@
    &&& a.state == b.state
    &&& a.stability_bits == b.stability_bits
    &&& a.difficulty_bits == b.difficulty_bits
    &&& a.elapsed_days == b.elapsed_days
    &&& a.scheduled_days == b.scheduled_days
    &&& a.reps == b.reps
    &&& a.lapses == b.lapses
    &&& a.due == b.due
    &&& a.last_reviewed == b.last_reviewed
}

/// Two lists of card entries agree entry by entry.
pub open spec fn same_cards(a: Seq<LearnmeCard>, b: Seq<LearnmeCard>) -> bool {
    a.len() == b.len() && forall|k: int| 0 <= k < a.len() ==> same_card(#[trigger] a[k], b[k])
}

fn card_to_entry(c: &Card, study_id: &String, generated_at: &str) -> (r: LearnmeCard)
    ensures
        same_card(r, card_entry(*c, *study_id, generated_at@)),
{
    LearnmeCard {
        id: c.id.clone(),
        study_id: study_id.clone(),
        front: c.front.clone(),
        back: c.back.clone(),
        tags: copy_tags(&c.tags),
        state: c.state.clone(),
        stability_bits: c.stability_bits,
        difficulty_bits: c.difficulty_bits,
        elapsed_days: compute_elapsed_days(&c.last_review, generated_at),
        scheduled_days: compute_scheduled_days(&c.last_review, c.due.as_str()),
        reps: c.reps,
        lapses: c.lapses,
        due: c.due.clone(),
        last_reviewed: clone_opt(&c.last_review),
    }
}

fn log_to_entry(l: &ReviewLog) -> (r: LearnmeReviewLog)
    ensures
        r == log_entry(*l),
{
    LearnmeReviewLog {
        id: l.id.clone(),
        card_id: l.card_id.clone(),
        grade: l.grade,
        reviewed_at: l.reviewed_at.clone(),
        stability_bits: l.prev_stability_bits,
        difficulty_bits: l.prev_difficulty_bits,
        elapsed_days: 0,
        scheduled_days: 0,
        review_state: 0,
    }
}

/// Assembles the data of a session file from the stored records, read in
/// this order: every category; for each, its studies; for each, its cards;
/// then every review. Studies and cards are listed category by category and
/// study by study; each card carries its study's identifier and its day
/// counts as of the time of generation, which is read from the clock.
pub fn assemble_export(tree: &Vec<ExportCategory>, logs: &Vec<ReviewLog>) -> (r: ExportData)
    ensures
        r.generated_at@.len() > 0,
        r.data.categories@ == tree@.map_values(|e: ExportCategory| category_entry(e.category)),
        r.data.studies@ == studies_of(tree@),
        same_cards(r.data.cards@, cards_of(tree@, r.generated_at@)),
        r.data.review_logs@ == logs@.map_values(|l: ReviewLog| log_entry(l)),
{
    let generated_at = now_rfc3339();
    let ghost gen = generated_at@;
    let mut categories: Vec<LearnmeCategory> = Vec::new();
    let mut studies: Vec<LearnmeStudy> = Vec::new();
    let mut cards: Vec<LearnmeCard> = Vec::new();
    let mut i: usize = 0;
    while i < tree.len()
        invariant
            i <= tree.len(),
            gen == generated_at@,
            categories@ == tree@.take(i as int).map_values(
                |e: ExportCategory| category_entry(e.category),
            ),
            studies@ == studies_of(tree@.take(i as int)),
            same_cards(cards@, cards_of(tree@.take(i as int), gen)),
        decreases tree.len() - i,
    {
        let entry = &tree[i];
        let c = &entry.category;
        categories.push(
            LearnmeCategory { id: c.id.clone(), name: c.name.clone(), color: clone_opt(&c.color) },
        );
        let ghost studies_before = studies@;
        let ghost cards_before = cards_of(tree@.take(i as int), gen);
        let mut j: usize = 0;
        while j < entry.studies.len()
            invariant
                i < tree.len(),
                entry == tree[i as int],
                j <= entry.studies.len(),
                gen == generated_at@,
                studies@ == studies_before + study_entries(entry.studies@.take(j as int)),
                same_cards(cards@, cards_before + cards_of_studies(entry.studies@.take(j as int), gen)),
            decreases entry.studies.len() - j,
        {
            let s = &entry.studies[j];
            let ghost cards_mid = cards_before + cards_of_studies(entry.studies@.take(j as int), gen);
            let mut k: usize = 0;
            while k < s.cards.len()
                invariant
                    j < entry.studies.len(),
                    s == entry.studies[j as int],
                    k <= s.cards.len(),
                    gen == generated_at@,
                    same_cards(cards@, cards_mid + s.cards@.take(k as int).map_values(
                        |c: Card| card_entry(c, s.study.id, gen),
                    )),
                decreases s.cards.len() - k,
            {
                let e = card_to_entry(&s.cards[k], &s.study.id, generated_at.as_str());
                let ghost before = cards@;
                cards.push(e);
                proof {
                    let prev = cards_mid + s.cards@.take(k as int).map_values(
                        |c: Card| card_entry(c, s.study.id, gen),
                    );
                    let next = cards_mid + s.cards@.take(k + 1).map_values(
                        |c: Card| card_entry(c, s.study.id, gen),
                    );
                    assert(next =~= prev.push(card_entry(s.cards@[k as int], s.study.id, gen)));
                    assert forall|q: int| 0 <= q < cards@.len() implies same_card(
                        #[trigger] cards@[q],
                        next[q],
                    ) by {
                        if q < before.len() {
                            assert(cards@[q] == before[q]);
                            assert(next[q] == prev[q]);
                        }
                    }
                }
                k = k + 1;
            }
            proof {
                assert(s.cards@.take(k as int) =~= s.cards@);
                assert(entry.studies@.take(j + 1).drop_last() =~= entry.studies@.take(j as int));
                assert(entry.studies@.take(j + 1).last() == s);
                assert(cards_before + cards_of_studies(entry.studies@.take(j + 1), gen) =~= cards_mid
                    + card_entries(*s, gen));
            }
            let st = &s.study;
            studies.push(
                LearnmeStudy {
                    id: st.id.clone(),
                    category_id: st.category_id.clone(),
                    name: st.name.clone(),
                    method: st.method.clone(),
                },
            );
            proof {
                assert(study_entries(entry.studies@.take(j + 1)) =~= study_entries(
                    entry.studies@.take(j as int),
                ).push(study_entry(s.study)));
            }
            j = j + 1;
        }
        proof {
            assert(entry.studies@.take(j as int) =~= entry.studies@);
            assert(tree@.take(i + 1).drop_last() =~= tree@.take(i as int));
            assert(cards_of(tree@.take(i + 1), gen) =~= cards_before + cards_of_studies(entry.studies@, gen));
            assert(tree@.take(i + 1).last() == entry);
            assert(tree@.take(i + 1).map_values(|e: ExportCategory| category_entry(e.category))
                =~= tree@.take(i as int).map_values(
                |e: ExportCategory| category_entry(e.category),
            ).push(category_entry(entry.category)));
        }
        i = i + 1;
    }
    proof {
        assert(tree@.take(i as int) =~= tree@);
    }
    let mut review_logs: Vec<LearnmeReviewLog> = Vec::new();
    let mut m: usize = 0;
    while m < logs.len()
        invariant
            m <= logs.len(),
            review_logs@ == logs@.take(m as int).map_values(|l: ReviewLog| log_entry(l)),
        decreases logs.len() - m,
    {
        review_logs.push(log_to_entry(&logs[m]));
        proof {
            assert(logs@.take(m + 1).map_values(|l: ReviewLog| log_entry(l)) =~= logs@.take(
                m as int,
            ).map_values(|l: ReviewLog| log_entry(l)).push(log_entry(logs@[m as int])));
        }
        m = m + 1;
    }
    proof {
        assert(logs@.take(m as int) =~= logs@);
    }
    ExportData {
        generated_at,
        data: LearnmeData { categories, studies, cards, review_logs },
    }
}

/// Completes a session file of format version 1 from its data, `data_json`
/// being the JSON text of that data: the checksum covers the data, the
/// application version and the format version. A checksum that cannot be
/// computed is reported as a migration error.
pub fn finish_export(export: ExportData, data_json: &str, app_version: &str) -> (r: Result<
    LearnmeFile,
    RepoError,
>)
    ensures
        r matches Ok(f) && f.version == 1 && f.generated_at == export.generated_at
            && f.app_version@ == app_version@ && f.checksum@ == checksum_of(data_json@, app_version@, 1)
            && f.data == export.data,
        r is Ok,
{
    let checksum = match compute_checksum(data_json, app_version, export.generated_at.as_str(), 1) {
        Ok(h) => h,
        Err(m) => {
            return Err(RepoError::Migration(m));
        },
    };
    Ok(LearnmeFile {
        version: 1,
        generated_at: export.generated_at,
        app_version: app_version.to_owned(),
        checksum,
        data: export.data,
    })
}

// ---------------------------------------------------------------------------
// References inside an exported file

/// Each study of the stored tree belongs to the category it is listed under.
pub open spec fn studies_under_their_categories(tree: Seq<ExportCategory>) -> bool {
    forall|c: int, s: int|
        0 <= c < tree.len() && 0 <= s < tree[c].studies.len() ==> (#[trigger] tree[c].studies@[s]).study.category_id
            == tree[c].category.id
}

/// Some category of the stored tree has this identifier.
pub open spec fn category_listed(tree: Seq<ExportCategory>, id: String) -> bool {
    exists|c: int| 0 <= c < tree.len() && (#[trigger] tree[c]).category.id == id
}

/// Some study of a list has this identifier.
pub open spec fn study_listed(studies: Seq<LearnmeStudy>, id: String) -> bool {
    exists|s: int| 0 <= s < studies.len() && (#[trigger] studies[s]).id == id
}

/// Some card of the stored tree has this identifier.
pub open spec fn card_in_tree(tree: Seq<ExportCategory>, id: String) -> bool {
    exists|c: int, s: int, k: int|
        0 <= c < tree.len() && 0 <= s < tree[c].studies.len() && 0 <= k
            < tree[c].studies@[s].cards.len() && (#[trigger] tree[c].studies@[s].cards@[k]).id == id
}

proof fn lemma_study_categories_listed(tree: Seq<ExportCategory>)
    requires
        studies_under_their_categories(tree),
    ensures
        forall|k: int|
            0 <= k < studies_of(tree).len() ==> category_listed(
                tree,
                #[trigger] studies_of(tree)[k].category_id,
            ),
    decreases tree.len(),
{
    if tree.len() > 0 {
        let pre = tree.drop_last();
        let last = tree.last();
        assert forall|c: int, s: int|
            0 <= c < pre.len() && 0 <= s < pre[c].studies.len() implies (#[trigger] pre[c].studies@[s]).study.category_id
            == pre[c].category.id by {
            assert(pre[c] == tree[c]);
        }
        lemma_study_categories_listed(pre);
        let n = studies_of(pre).len();
        assert forall|k: int| 0 <= k < studies_of(tree).len() implies category_listed(
            tree,
            #[trigger] studies_of(tree)[k].category_id,
        ) by {
            if k < n {
                assert(studies_of(tree)[k] == studies_of(pre)[k]);
                assert(category_listed(pre, studies_of(pre)[k].category_id));
                let c = choose|c: int|
                    0 <= c < pre.len() && (#[trigger] pre[c]).category.id == studies_of(pre)[k].category_id;
                assert(tree[c] == pre[c]);
            } else {
                let s = k - n;
                assert(studies_of(tree)[k] == study_entry(last.studies@[s].study));
                assert(tree[tree.len() - 1] == last);
                assert(tree[tree.len() - 1].studies@[s].study.category_id == tree[tree.len() - 1].category.id);
            }
        }
    }
}

proof fn lemma_no_orphan_study(d: LearnmeData, i: int)
    requires
        0 <= i,
        forall|k: int| i <= k < d.studies.len() ==> has_category(d, (#[trigger] d.studies[k]).category_id@),
    ensures
        orphan_study_from(d, i) is None,
    decreases d.studies.len() - i,
{
    if i < d.studies.len() {
        assert(has_category(d, d.studies[i].category_id@));
        lemma_no_orphan_study(d, i + 1);
    }
}

/// Some card of a list has this identifier.
pub open spec fn card_listed(cards: Seq<LearnmeCard>, id: String) -> bool {
    exists|q: int| 0 <= q < cards.len() && (#[trigger] cards[q]).id == id
}

proof fn lemma_card_studies_of_studies(ss: Seq<ExportStudy>, gen: Seq<char>)
    ensures
        forall|q: int|
            0 <= q < cards_of_studies(ss, gen).len() ==> study_listed(
                study_entries(ss),
                #[trigger] cards_of_studies(ss, gen)[q].study_id,
            ),
    decreases ss.len(),
{
    if ss.len() > 0 {
        let pre = ss.drop_last();
        let last = ss.last();
        lemma_card_studies_of_studies(pre, gen);
        let n = cards_of_studies(pre, gen).len();
        assert forall|q: int| 0 <= q < cards_of_studies(ss, gen).len() implies study_listed(
            study_entries(ss),
            #[trigger] cards_of_studies(ss, gen)[q].study_id,
        ) by {
            if q < n {
                assert(cards_of_studies(ss, gen)[q] == cards_of_studies(pre, gen)[q]);
                assert(study_listed(study_entries(pre), cards_of_studies(pre, gen)[q].study_id));
                let s = choose|s: int|
                    0 <= s < study_entries(pre).len() && (#[trigger] study_entries(pre)[s]).id
                        == cards_of_studies(pre, gen)[q].study_id;
                assert(pre[s] == ss[s]);
                assert(study_entries(ss)[s] == study_entries(pre)[s]);
            } else {
                assert(cards_of_studies(ss, gen)[q] == card_entries(last, gen)[q - n]);
                assert(study_entries(ss)[ss.len() - 1] == study_entry(last.study));
            }
        }
    }
}

proof fn lemma_card_studies_listed(tree: Seq<ExportCategory>, gen: Seq<char>)
    ensures
        forall|q: int|
            0 <= q < cards_of(tree, gen).len() ==> study_listed(
                studies_of(tree),
                #[trigger] cards_of(tree, gen)[q].study_id,
            ),
    decreases tree.len(),
{
    if tree.len() > 0 {
        let pre = tree.drop_last();
        let last = tree.last();
        lemma_card_studies_listed(pre, gen);
        lemma_card_studies_of_studies(last.studies@, gen);
        let n = cards_of(pre, gen).len();
        let m = studies_of(pre).len();
        assert forall|q: int| 0 <= q < cards_of(tree, gen).len() implies study_listed(
            studies_of(tree),
            #[trigger] cards_of(tree, gen)[q].study_id,
        ) by {
            if q < n {
                assert(cards_of(tree, gen)[q] == cards_of(pre, gen)[q]);
                assert(study_listed(studies_of(pre), cards_of(pre, gen)[q].study_id));
                let s = choose|s: int|
                    0 <= s < studies_of(pre).len() && (#[trigger] studies_of(pre)[s]).id == cards_of(
                        pre,
                        gen,
                    )[q].study_id;
                assert(studies_of(tree)[s] == studies_of(pre)[s]);
            } else {
                let card = cards_of_studies(last.studies@, gen)[q - n];
                assert(cards_of(tree, gen)[q] == card);
                assert(study_listed(study_entries(last.studies@), card.study_id));
                let s = choose|s: int|
                    0 <= s < study_entries(last.studies@).len() && (#[trigger] study_entries(
                        last.studies@,
                    )[s]).id == card.study_id;
                assert(studies_of(tree)[m + s] == study_entries(last.studies@)[s]);
            }
        }
    }
}

proof fn lemma_study_card_exported(ss: Seq<ExportStudy>, gen: Seq<char>, s: int, k: int)
    requires
        0 <= s < ss.len(),
        0 <= k < ss[s].cards.len(),
    ensures
        card_listed(cards_of_studies(ss, gen), ss[s].cards@[k].id),
    decreases ss.len(),
{
    let pre = ss.drop_last();
    let n = cards_of_studies(pre, gen).len();
    if s == ss.len() - 1 {
        assert(cards_of_studies(ss, gen)[n + k] == card_entries(ss[s], gen)[k]);
    } else {
        assert(pre[s] == ss[s]);
        lemma_study_card_exported(pre, gen, s, k);
        let q = choose|q: int|
            0 <= q < cards_of_studies(pre, gen).len() && (#[trigger] cards_of_studies(pre, gen)[q]).id
                == ss[s].cards@[k].id;
        assert(cards_of_studies(ss, gen)[q] == cards_of_studies(pre, gen)[q]);
    }
}

proof fn lemma_tree_card_exported(tree: Seq<ExportCategory>, gen: Seq<char>, c: int, s: int, k: int)
    requires
        0 <= c < tree.len(),
        0 <= s < tree[c].studies.len(),
        0 <= k < tree[c].studies@[s].cards.len(),
    ensures
        card_listed(cards_of(tree, gen), tree[c].studies@[s].cards@[k].id),
    decreases tree.len(),
{
    let pre = tree.drop_last();
    let n = cards_of(pre, gen).len();
    if c == tree.len() - 1 {
        lemma_study_card_exported(tree[c].studies@, gen, s, k);
        let q = choose|q: int|
            0 <= q < cards_of_studies(tree[c].studies@, gen).len() && (#[trigger] cards_of_studies(
                tree[c].studies@,
                gen,
            )[q]).id == tree[c].studies@[s].cards@[k].id;
        assert(cards_of(tree, gen)[n + q] == cards_of_studies(tree[c].studies@, gen)[q]);
    } else {
        assert(pre[c] == tree[c]);
        lemma_tree_card_exported(pre, gen, c, s, k);
        let q = choose|q: int|
            0 <= q < cards_of(pre, gen).len() && (#[trigger] cards_of(pre, gen)[q]).id
                == tree[c].studies@[s].cards@[k].id;
        assert(cards_of(tree, gen)[q] == cards_of(pre, gen)[q]);
    }
}

proof fn lemma_no_orphan_card(d: LearnmeData, i: int)
    requires
        0 <= i,
        forall|k: int| i <= k < d.cards.len() ==> has_study(d, (#[trigger] d.cards[k]).study_id@),
    ensures
        orphan_card_from(d, i) is None,
    decreases d.cards.len() - i,
{
    if i < d.cards.len() {
        assert(has_study(d, d.cards[i].study_id@));
        lemma_no_orphan_card(d, i + 1);
    }
}

proof fn lemma_no_orphan_log(d: LearnmeData, i: int)
    requires
        0 <= i,
        forall|k: int| i <= k < d.review_logs.len() ==> has_card(d, (#[trigger] d.review_logs[k]).card_id@),
    ensures
        orphan_log_from(d, i) is None,
    decreases d.review_logs.len() - i,
{
    if i < d.review_logs.len() {
        assert(has_card(d, d.review_logs[i].card_id@));
        lemma_no_orphan_log(d, i + 1);
    }
}

/// The data that the export assembles refers only within itself, so an
/// exported file passes the reference check of an import: where every
/// stored study belongs to the category it is listed under and every stored
/// review belongs to a stored card, each study's category, each card's study
/// and each review's card are in the data.
pub proof fn law_exported_data_refers_within(
    tree: Seq<ExportCategory>,
    logs: Seq<ReviewLog>,
    generated_at: Seq<char>,
    d: LearnmeData,
)
    requires
        studies_under_their_categories(tree),
        forall|m: int| 0 <= m < logs.len() ==> card_in_tree(tree, (#[trigger] logs[m]).card_id),
        d.categories@ == tree.map_values(|e: ExportCategory| category_entry(e.category)),
        d.studies@ == studies_of(tree),
        same_cards(d.cards@, cards_of(tree, generated_at)),
        d.review_logs@ == logs.map_values(|l: ReviewLog| log_entry(l)),
    ensures
        first_orphan(d) is None,
{
    lemma_study_categories_listed(tree);
    assert forall|k: int| 0 <= k < d.studies.len() implies has_category(
        d,
        (#[trigger] d.studies[k]).category_id@,
    ) by {
        let id = studies_of(tree)[k].category_id;
        assert(category_listed(tree, id));
        let c = choose|c: int| 0 <= c < tree.len() && (#[trigger] tree[c]).category.id == id;
        assert(d.categories[c] == category_entry(tree[c].category));
    }
    lemma_no_orphan_study(d, 0);
    lemma_card_studies_listed(tree, generated_at);
    assert forall|k: int| 0 <= k < d.cards.len() implies has_study(
        d,
        (#[trigger] d.cards[k]).study_id@,
    ) by {
        assert(same_card(d.cards@[k], cards_of(tree, generated_at)[k]));
        let id = cards_of(tree, generated_at)[k].study_id;
        assert(study_listed(studies_of(tree), id));
        let s = choose|s: int| 0 <= s < studies_of(tree).len() && (#[trigger] studies_of(tree)[s]).id == id;
        assert(d.studies[s] == studies_of(tree)[s]);
    }
    lemma_no_orphan_card(d, 0);
    assert forall|m: int| 0 <= m < d.review_logs.len() implies has_card(
        d,
        (#[trigger] d.review_logs[m]).card_id@,
    ) by {
        assert(d.review_logs[m] == log_entry(logs[m]));
        let id = logs[m].card_id;
        assert(card_in_tree(tree, id));
        let (c, s, k) = choose|c: int, s: int, k: int|
            0 <= c < tree.len() && 0 <= s < tree[c].studies.len() && 0 <= k
                < tree[c].studies@[s].cards.len() && (#[trigger] tree[c].studies@[s].cards@[k]).id == id;
        lemma_tree_card_exported(tree, generated_at, c, s, k);
        let q = choose|q: int|
            0 <= q < cards_of(tree, generated_at).len() && (#[trigger] cards_of(tree, generated_at)[q]).id
                == id;
        assert(same_card(d.cards@[q], cards_of(tree, generated_at)[q]));
    }
    lemma_no_orphan_log(d, 0);
}

/// The data the export assembles from the stored tree and reviews, as of
/// the time `generated_at`.
pub open spec fn assembled_from(
    d: LearnmeData,
    tree: Seq<ExportCategory>,
    logs: Seq<ReviewLog>,
    generated_at: Seq<char>,
) -> bool {
    &&& d.categories@ == tree.map_values(|e: ExportCategory| category_entry(e.category))
    &&& d.studies@ == studies_of(tree)
    &&& same_cards(d.cards@, cards_of(tree, generated_at))
    &&& d.review_logs@ == logs.map_values(|l: ReviewLog| log_entry(l))
}

/// An exported session, imported into an empty store in either mode, passes
/// every check of the import and has every record inserted once, in file
/// order: where every stored study belongs to the category it is listed
/// under and every stored review to a stored card, the file's format version
/// is supported, its checksum is the one its content gives, it refers only
/// within itself, and the import inserts all its categories, studies, cards
/// and reviews.
pub proof fn law_export_then_import(
    tree: Seq<ExportCategory>,
    logs: Seq<ReviewLog>,
    generated_at: Seq<char>,
    f: LearnmeFile,
    data_json: Seq<char>,
    mode: ImportMode,
)
    requires
        studies_under_their_categories(tree),
        forall|m: int| 0 <= m < logs.len() ==> card_in_tree(tree, (#[trigger] logs[m]).card_id),
        assembled_from(f.data, tree, logs, generated_at),
        f.version == 1,
        checksum_of(data_json, f.app_version@, 1) == f.checksum@,
    ensures
        f.version <= MAX_SUPPORTED_VERSION,
        checksum_of(data_json, f.app_version@, f.version as nat) == f.checksum@,
        first_orphan(f.data) is None,
        writes_into_empty(f.data, start_of(f.data, mode)) == inserts_of(f.data),
{
    law_exported_data_refers_within(tree, logs, generated_at, f.data);
    law_import_into_empty_store(f.data, mode);
}

/// Two times of generation give every stored card of the tree the same whole
/// days since its last review.
pub open spec fn same_day_counts(tree: Seq<ExportCategory>, g1: Seq<char>, g2: Seq<char>) -> bool {
    forall|c: int, s: int, k: int|
        0 <= c < tree.len() && 0 <= s < tree[c].studies.len() && 0 <= k < tree[c].studies@[s].cards.len()
            ==> days_since_review(opt_text((#[trigger] tree[c].studies@[s].cards@[k]).last_review), g1)
            == days_since_review(opt_text(tree[c].studies@[s].cards@[k].last_review), g2)
}

proof fn lemma_study_cards_same(ss: Seq<ExportStudy>, g1: Seq<char>, g2: Seq<char>)
    requires
        forall|s: int, k: int|
            0 <= s < ss.len() && 0 <= k < ss[s].cards.len() ==> days_since_review(
                opt_text((#[trigger] ss[s].cards@[k]).last_review),
                g1,
            ) == days_since_review(opt_text(ss[s].cards@[k].last_review), g2),
    ensures
        cards_of_studies(ss, g1) == cards_of_studies(ss, g2),
    decreases ss.len(),
{
    if ss.len() > 0 {
        let pre = ss.drop_last();
        let last = ss.last();
        assert forall|s: int, k: int| 0 <= s < pre.len() && 0 <= k < pre[s].cards.len() implies days_since_review(
            opt_text((#[trigger] pre[s].cards@[k]).last_review),
            g1,
        ) == days_since_review(opt_text(pre[s].cards@[k].last_review), g2) by {
            assert(pre[s] == ss[s]);
        }
        lemma_study_cards_same(pre, g1, g2);
        assert forall|k: int| 0 <= k < last.cards@.len() implies card_entries(last, g1)[k] == card_entries(
            last,
            g2,
        )[k] by {
            assert(ss[ss.len() - 1] == last);
            assert(days_since_review(opt_text(ss[ss.len() - 1].cards@[k].last_review), g1)
                == days_since_review(opt_text(ss[ss.len() - 1].cards@[k].last_review), g2));
        }
        assert(card_entries(last, g1) =~= card_entries(last, g2));
    }
}

proof fn lemma_tree_cards_same(tree: Seq<ExportCategory>, g1: Seq<char>, g2: Seq<char>)
    requires
        same_day_counts(tree, g1, g2),
    ensures
        cards_of(tree, g1) == cards_of(tree, g2),
    decreases tree.len(),
{
    if tree.len() > 0 {
        let pre = tree.drop_last();
        let last = tree.last();
        assert forall|c: int, s: int, k: int|
            0 <= c < pre.len() && 0 <= s < pre[c].studies.len() && 0 <= k < pre[c].studies@[s].cards.len()
                implies days_since_review(opt_text((#[trigger] pre[c].studies@[s].cards@[k]).last_review), g1)
            == days_since_review(opt_text(pre[c].studies@[s].cards@[k].last_review), g2) by {
            assert(pre[c] == tree[c]);
        }
        lemma_tree_cards_same(pre, g1, g2);
        assert forall|s: int, k: int|
            0 <= s < last.studies@.len() && 0 <= k < last.studies@[s].cards.len() implies days_since_review(
            opt_text((#[trigger] last.studies@[s].cards@[k]).last_review),
            g1,
        ) == days_since_review(opt_text(last.studies@[s].cards@[k].last_review), g2) by {
            assert(tree[tree.len() - 1] == last);
            assert(days_since_review(opt_text(tree[tree.len() - 1].studies@[s].cards@[k].last_review), g1)
                == days_since_review(opt_text(tree[tree.len() - 1].studies@[s].cards@[k].last_review), g2));
        }
        lemma_study_cards_same(last.studies@, g1, g2);
    }
}

/// The export is determined by the stored records and each card's whole days
/// since its last review: two exports of the same tree and reviews, generated
/// at times that give every card the same whole days since its last review
/// (the same time, or two times between which no card's count of whole days
/// turns over), hold the same categories, studies and reviews and cards that
/// agree in every field, so that the same data text gives the same checksum.
/// Where a card's count turns over between the two times, its day count,
/// and so the data and the checksum, differ.
pub proof fn law_export_determined_by_day_counts(
    tree: Seq<ExportCategory>,
    logs: Seq<ReviewLog>,
    g1: Seq<char>,
    g2: Seq<char>,
    d1: LearnmeData,
    d2: LearnmeData,
)
    requires
        same_day_counts(tree, g1, g2),
        assembled_from(d1, tree, logs, g1),
        assembled_from(d2, tree, logs, g2),
    ensures
        d1.categories@ == d2.categories@,
        d1.studies@ == d2.studies@,
        d1.review_logs@ == d2.review_logs@,
        same_cards(d1.cards@, d2.cards@),
{
    lemma_tree_cards_same(tree, g1, g2);
    let c = cards_of(tree, g1);
    assert forall|k: int| 0 <= k < d1.cards@.len() implies same_card(
        #[trigger] d1.cards@[k],
        d2.cards@[k],
    ) by {
        assert(same_card(d1.cards@[k], c[k]));
        assert(same_card(d2.cards@[k], c[k]));
    }
}

/// An exported card carries the day counts of its own dates.
spec fn counts_own_days(e: LearnmeCard, generated_at: Seq<char>) -> bool {
    &&& e.elapsed_days == (match e.last_reviewed {
        Some(t) => days_between(generated_at, t@),
        None => 0u32,
    })
    &&& e.scheduled_days == (match e.last_reviewed {
        Some(t) => days_between(e.due@, t@),
        None => 0u32,
    })
}

proof fn lemma_study_cards_count_days(ss: Seq<ExportStudy>, generated_at: Seq<char>)
    ensures
        forall|q: int|
            0 <= q < cards_of_studies(ss, generated_at).len() ==> counts_own_days(
                #[trigger] cards_of_studies(ss, generated_at)[q],
                generated_at,
            ),
    decreases ss.len(),
{
    if ss.len() > 0 {
        let pre = ss.drop_last();
        lemma_study_cards_count_days(pre, generated_at);
        let n = cards_of_studies(pre, generated_at).len();
        assert forall|q: int| 0 <= q < cards_of_studies(ss, generated_at).len() implies counts_own_days(
            #[trigger] cards_of_studies(ss, generated_at)[q],
            generated_at,
        ) by {
            if q < n {
                assert(cards_of_studies(ss, generated_at)[q] == cards_of_studies(pre, generated_at)[q]);
            } else {
                assert(cards_of_studies(ss, generated_at)[q] == card_entries(ss.last(), generated_at)[q - n]);
            }
        }
    }
}

proof fn lemma_tree_cards_count_days(tree: Seq<ExportCategory>, generated_at: Seq<char>)
    ensures
        forall|q: int|
            0 <= q < cards_of(tree, generated_at).len() ==> counts_own_days(
                #[trigger] cards_of(tree, generated_at)[q],
                generated_at,
            ),
    decreases tree.len(),
{
    if tree.len() > 0 {
        let pre = tree.drop_last();
        lemma_tree_cards_count_days(pre, generated_at);
        lemma_study_cards_count_days(tree.last().studies@, generated_at);
        let n = cards_of(pre, generated_at).len();
        assert forall|q: int| 0 <= q < cards_of(tree, generated_at).len() implies counts_own_days(
            #[trigger] cards_of(tree, generated_at)[q],
            generated_at,
        ) by {
            if q < n {
                assert(cards_of(tree, generated_at)[q] == cards_of(pre, generated_at)[q]);
            } else {
                assert(cards_of(tree, generated_at)[q] == cards_of_studies(tree.last().studies@, generated_at)[q
                    - n]);
            }
        }
    }
}

/// Each exported card carries, as its elapsed days, the whole days (none
/// below zero) from its last review to the time of the export, and as its
/// scheduled days those from its last review to its due time; a card never
/// reviewed carries zero for both.
pub proof fn law_exported_cards_count_days(
    tree: Seq<ExportCategory>,
    logs: Seq<ReviewLog>,
    generated_at: Seq<char>,
    d: LearnmeData,
)
    requires
        assembled_from(d, tree, logs, generated_at),
    ensures
        forall|k: int|
            0 <= k < d.cards.len() ==> (#[trigger] d.cards@[k]).elapsed_days == (match d.cards@[k].last_reviewed {
                Some(t) => days_between(generated_at, t@),
                None => 0u32,
            }) && d.cards@[k].scheduled_days == (match d.cards@[k].last_reviewed {
                Some(t) => days_between(d.cards@[k].due@, t@),
                None => 0u32,
            }),
{
    lemma_tree_cards_count_days(tree, generated_at);
    assert forall|k: int| 0 <= k < d.cards.len() implies counts_own_days(
        #[trigger] d.cards@[k],
        generated_at,
    ) by {
        assert(same_card(d.cards@[k], cards_of(tree, generated_at)[k]));
        assert(counts_own_days(cards_of(tree, generated_at)[k], generated_at));
    }
}

/// Each exported review is the stored review, in stored order, with the
/// stability and difficulty the card had before it: same identifier, card,
/// grade and time, the previous stability as its stability and the previous
/// difficulty as its difficulty.
pub proof fn law_exported_logs_keep_reviews(
    tree: Seq<ExportCategory>,
    logs: Seq<ReviewLog>,
    generated_at: Seq<char>,
    d: LearnmeData,
)
    requires
        assembled_from(d, tree, logs, generated_at),
    ensures
        d.review_logs.len() == logs.len(),
        forall|m: int|
            0 <= m < logs.len() ==> {
                &&& (#[trigger] d.review_logs@[m]).id == logs[m].id
                &&& d.review_logs@[m].card_id == logs[m].card_id
                &&& d.review_logs@[m].grade == logs[m].grade
                &&& d.review_logs@[m].reviewed_at == logs[m].reviewed_at
                &&& d.review_logs@[m].stability_bits == logs[m].prev_stability_bits
                &&& d.review_logs@[m].difficulty_bits == logs[m].prev_difficulty_bits
            },
{
}

/// An exported card is the stored card `c` of the study `study_id`: every
/// stored field kept as it is.
spec fn is_entry_of(e: LearnmeCard, c: Card, study_id: String) -> bool {
    &&& e.id == c.id
    &&& e.study_id == study_id
    &&& e.front == c.front
    &&& e.back == c.back
    &&& e.tags@ == c.tags@
    &&& e.state == c.state
    &&& e.stability_bits == c.stability_bits
    &&& e.difficulty_bits == c.difficulty_bits
    &&& e.reps == c.reps
    &&& e.lapses == c.lapses
    &&& e.due == c.due
    &&& e.last_reviewed == c.last_review
}

/// Some stored card of these studies is the exported card `e`.
spec fn entry_in_studies(ss: Seq<ExportStudy>, e: LearnmeCard) -> bool {
    exists|s: int, j: int|
        #![trigger ss[s].cards@[j]]
        0 <= s < ss.len() && 0 <= j < ss[s].cards.len() && is_entry_of(e, ss[s].cards@[j], ss[s].study.id)
}

/// Some stored card of the tree is the exported card `e`.
spec fn entry_in_tree(tree: Seq<ExportCategory>, e: LearnmeCard) -> bool {
    exists|c: int, s: int, j: int|
        #![trigger tree[c].studies@[s].cards@[j]]
        0 <= c < tree.len() && 0 <= s < tree[c].studies.len() && 0 <= j < tree[c].studies@[s].cards.len()
            && is_entry_of(e, tree[c].studies@[s].cards@[j], tree[c].studies@[s].study.id)
}

proof fn lemma_study_cards_are_entries(ss: Seq<ExportStudy>, generated_at: Seq<char>)
    ensures
        forall|q: int|
            0 <= q < cards_of_studies(ss, generated_at).len() ==> entry_in_studies(
                ss,
                #[trigger] cards_of_studies(ss, generated_at)[q],
            ),
    decreases ss.len(),
{
    if ss.len() > 0 {
        let pre = ss.drop_last();
        lemma_study_cards_are_entries(pre, generated_at);
        let n = cards_of_studies(pre, generated_at).len();
        assert forall|q: int| 0 <= q < cards_of_studies(ss, generated_at).len() implies entry_in_studies(
            ss,
            #[trigger] cards_of_studies(ss, generated_at)[q],
        ) by {
            let e = cards_of_studies(ss, generated_at)[q];
            if q < n {
                assert(e == cards_of_studies(pre, generated_at)[q]);
                assert(entry_in_studies(pre, e));
                let (s, j) = choose|s: int, j: int|
                    #![trigger pre[s].cards@[j]]
                    0 <= s < pre.len() && 0 <= j < pre[s].cards.len() && is_entry_of(
                        e,
                        pre[s].cards@[j],
                        pre[s].study.id,
                    );
                assert(pre[s] == ss[s]);
                assert(is_entry_of(e, ss[s].cards@[j], ss[s].study.id));
            } else {
                let s = ss.len() - 1;
                let j = q - n;
                assert(e == card_entries(ss.last(), generated_at)[j]);
                assert(ss[s] == ss.last());
                assert(is_entry_of(e, ss[s].cards@[j], ss[s].study.id));
            }
        }
    }
}

proof fn lemma_tree_cards_are_entries(tree: Seq<ExportCategory>, generated_at: Seq<char>)
    ensures
        forall|q: int|
            0 <= q < cards_of(tree, generated_at).len() ==> entry_in_tree(
                tree,
                #[trigger] cards_of(tree, generated_at)[q],
            ),
    decreases tree.len(),
{
    if tree.len() > 0 {
        let pre = tree.drop_last();
        let last = tree.last();
        lemma_tree_cards_are_entries(pre, generated_at);
        lemma_study_cards_are_entries(last.studies@, generated_at);
        let n = cards_of(pre, generated_at).len();
        assert forall|q: int| 0 <= q < cards_of(tree, generated_at).len() implies entry_in_tree(
            tree,
            #[trigger] cards_of(tree, generated_at)[q],
        ) by {
            let e = cards_of(tree, generated_at)[q];
            if q < n {
                assert(e == cards_of(pre, generated_at)[q]);
                assert(entry_in_tree(pre, e));
                let (c, s, j) = choose|c: int, s: int, j: int|
                    #![trigger pre[c].studies@[s].cards@[j]]
                    0 <= c < pre.len() && 0 <= s < pre[c].studies.len() && 0 <= j
                        < pre[c].studies@[s].cards.len() && is_entry_of(
                        e,
                        pre[c].studies@[s].cards@[j],
                        pre[c].studies@[s].study.id,
                    );
                assert(pre[c] == tree[c]);
                assert(is_entry_of(e, tree[c].studies@[s].cards@[j], tree[c].studies@[s].study.id));
            } else {
                assert(e == cards_of_studies(last.studies@, generated_at)[q - n]);
                assert(entry_in_studies(last.studies@, e));
                let (s, j) = choose|s: int, j: int|
                    #![trigger last.studies@[s].cards@[j]]
                    0 <= s < last.studies@.len() && 0 <= j < last.studies@[s].cards.len() && is_entry_of(
                        e,
                        last.studies@[s].cards@[j],
                        last.studies@[s].study.id,
                    );
                let c = tree.len() - 1;
                assert(tree[c] == last);
                assert(is_entry_of(e, tree[c].studies@[s].cards@[j], tree[c].studies@[s].study.id));
            }
        }
    }
}

/// Each exported card is a stored card of the tree, with every stored field
/// kept (identifier, sides, tags, state, stability, difficulty, reviews,
/// lapses, due time, last review) and the identifier of the study it is
/// listed under; the exported categories are the stored ones, in order.
pub proof fn law_exported_cards_are_stored_cards(
    tree: Seq<ExportCategory>,
    logs: Seq<ReviewLog>,
    generated_at: Seq<char>,
    d: LearnmeData,
)
    requires
        assembled_from(d, tree, logs, generated_at),
    ensures
        forall|k: int|
            #![trigger d.cards@[k]]
            0 <= k < d.cards.len() ==> exists|c: int, s: int, j: int|
                #![trigger tree[c].studies@[s].cards@[j]]
                0 <= c < tree.len() && 0 <= s < tree[c].studies.len() && 0 <= j
                    < tree[c].studies@[s].cards.len() && d.cards@[k].study_id == tree[c].studies@[s].study.id
                    && d.cards@[k].id == tree[c].studies@[s].cards@[j].id
                    && d.cards@[k].front == tree[c].studies@[s].cards@[j].front
                    && d.cards@[k].back == tree[c].studies@[s].cards@[j].back
                    && d.cards@[k].state == tree[c].studies@[s].cards@[j].state
                    && d.cards@[k].stability_bits == tree[c].studies@[s].cards@[j].stability_bits
                    && d.cards@[k].difficulty_bits == tree[c].studies@[s].cards@[j].difficulty_bits
                    && d.cards@[k].reps == tree[c].studies@[s].cards@[j].reps
                    && d.cards@[k].lapses == tree[c].studies@[s].cards@[j].lapses
                    && d.cards@[k].due == tree[c].studies@[s].cards@[j].due
                    && d.cards@[k].tags@ == tree[c].studies@[s].cards@[j].tags@
                    && d.cards@[k].last_reviewed == tree[c].studies@[s].cards@[j].last_review,
        d.categories.len() == tree.len(),
        forall|i: int|
            0 <= i < tree.len() ==> (#[trigger] d.categories@[i]).id == tree[i].category.id
                && d.categories@[i].name == tree[i].category.name && d.categories@[i].color
                == tree[i].category.color,
{
    lemma_tree_cards_are_entries(tree, generated_at);
    assert forall|k: int|
        #![trigger d.cards@[k]]
        0 <= k < d.cards.len() implies exists|c: int, s: int, j: int|
        #![trigger tree[c].studies@[s].cards@[j]]
        0 <= c < tree.len() && 0 <= s < tree[c].studies.len() && 0 <= j
            < tree[c].studies@[s].cards.len() && is_entry_of(
            d.cards@[k],
            tree[c].studies@[s].cards@[j],
            tree[c].studies@[s].study.id,
        ) by {
        let e = cards_of(tree, generated_at)[k];
        assert(same_card(d.cards@[k], e));
        assert(entry_in_tree(tree, e));
        let (c, s, j) = choose|c: int, s: int, j: int|
            #![trigger tree[c].studies@[s].cards@[j]]
            0 <= c < tree.len() && 0 <= s < tree[c].studies.len() && 0 <= j
                < tree[c].studies@[s].cards.len() && is_entry_of(
                e,
                tree[c].studies@[s].cards@[j],
                tree[c].studies@[s].study.id,
            );
        assert(is_entry_of(d.cards@[k], tree[c].studies@[s].cards@[j], tree[c].studies@[s].study.id));
    }
}

/// Some stored study of the tree is the exported study `e`, with every
/// field kept.
spec fn study_in_tree(tree: Seq<ExportCategory>, e: LearnmeStudy) -> bool {
    exists|c: int, s: int|
        #![trigger tree[c].studies@[s]]
        0 <= c < tree.len() && 0 <= s < tree[c].studies.len() && e.id == tree[c].studies@[s].study.id
            && e.category_id == tree[c].studies@[s].study.category_id && e.name
            == tree[c].studies@[s].study.name && e.method == tree[c].studies@[s].study.method
}

proof fn lemma_tree_studies_stored(tree: Seq<ExportCategory>)
    ensures
        forall|q: int| 0 <= q < studies_of(tree).len() ==> study_in_tree(tree, #[trigger] studies_of(tree)[q]),
    decreases tree.len(),
{
    if tree.len() > 0 {
        let pre = tree.drop_last();
        let last = tree.last();
        lemma_tree_studies_stored(pre);
        let n = studies_of(pre).len();
        assert forall|q: int| 0 <= q < studies_of(tree).len() implies study_in_tree(
            tree,
            #[trigger] studies_of(tree)[q],
        ) by {
            let e = studies_of(tree)[q];
            if q < n {
                assert(e == studies_of(pre)[q]);
                assert(study_in_tree(pre, e));
                let (c, s) = choose|c: int, s: int|
                    #![trigger pre[c].studies@[s]]
                    0 <= c < pre.len() && 0 <= s < pre[c].studies.len() && e.id == pre[c].studies@[s].study.id
                        && e.category_id == pre[c].studies@[s].study.category_id && e.name
                        == pre[c].studies@[s].study.name && e.method == pre[c].studies@[s].study.method;
                assert(pre[c] == tree[c]);
                assert(tree[c].studies@[s] == pre[c].studies@[s]);
            } else {
                let c = tree.len() - 1;
                let s = q - n;
                assert(e == study_entries(last.studies@)[s]);
                assert(tree[c] == last);
                assert(tree[c].studies@[s] == last.studies@[s]);
            }
        }
    }
}

/// Each exported study is a stored study of the tree with its identifier,
/// category, name and method kept.
pub proof fn law_exported_studies_are_stored_studies(
    tree: Seq<ExportCategory>,
    logs: Seq<ReviewLog>,
    generated_at: Seq<char>,
    d: LearnmeData,
)
    requires
        assembled_from(d, tree, logs, generated_at),
    ensures
        forall|k: int|
            #![trigger d.studies@[k]]
            0 <= k < d.studies.len() ==> exists|c: int, s: int|
                #![trigger tree[c].studies@[s]]
                0 <= c < tree.len() && 0 <= s < tree[c].studies.len() && d.studies@[k].id
                    == tree[c].studies@[s].study.id && d.studies@[k].category_id
                    == tree[c].studies@[s].study.category_id && d.studies@[k].name
                    == tree[c].studies@[s].study.name && d.studies@[k].method
                    == tree[c].studies@[s].study.method,
{
    lemma_tree_studies_stored(tree);
    assert forall|k: int|
        #![trigger d.studies@[k]]
        0 <= k < d.studies.len() implies study_in_tree(tree, d.studies@[k]) by {
        assert(d.studies@[k] == studies_of(tree)[k]);
    }
}

} // verus!
