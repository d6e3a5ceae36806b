//! Deck statistics computed from stored counts: cards per state and reviews
//! per day over the last year.
use vstd::prelude::*;
use crate::adapters::{naive_date_day_number, parse_naive_date};

verus! {

/// How many cards of a deck are in each state.
#[derive(Debug, Clone, Copy, PartialEq, Eq, Structural)]
pub struct StateCount {
    pub new: u32,
    pub learning: u32,
    pub review: u32,
    pub relearning: u32,
}

/// Days in the review heat map: the last 365 days, today included.
pub const HEATMAP_DAYS: usize = 365;

/// The count that (state, count) rows give a state name: that of the last
/// row with the name, or zero.
pub open spec fn count_for(rows: Seq<(String, u32)>, name: Seq<char>) -> u32
    decreases rows.len(),
{
    if rows.len() == 0 {
        0
    } else if rows.last().0@ == name {
        rows.last().1
    } else {
        count_for(rows.drop_last(), name)
    }
}

/// Gathers (state, count) rows into counts per state; rows for other state
/// names are ignored.
pub fn compute_by_state(rows: &Vec<(String, u32)>) -> (r: StateCount)
    ensures
        r.new == count_for(rows@, "new"@),
        r.learning == count_for(rows@, "learning"@),
        r.review == count_for(rows@, "review"@),
        r.relearning == count_for(rows@, "relearning"@),
{
    proof {
        reveal_strlit("new");
        reveal_strlit("learning");
        reveal_strlit("review");
        reveal_strlit("relearning");
    }
    let new_name = String::from_str("new");
    let learning_name = String::from_str("learning");
    let review_name = String::from_str("review");
    let relearning_name = String::from_str("relearning");
    let mut counts = StateCount { new: 0, learning: 0, review: 0, relearning: 0 };
    let mut i: usize = 0;
    while i < rows.len()
        invariant
            i <= rows.len(),
            new_name@ == "new"@,
            learning_name@ == "learning"@,
            review_name@ == "review"@,
            relearning_name@ == "relearning"@,
            counts.new == count_for(rows@.take(i as int), "new"@),
            counts.learning == count_for(rows@.take(i as int), "learning"@),
            counts.review == count_for(rows@.take(i as int), "review"@),
            counts.relearning == count_for(rows@.take(i as int), "relearning"@),
        decreases rows.len() - i,
    {
        let (state, count) = (&rows[i].0, rows[i].1);
        proof {
            reveal_strlit("new");
            reveal_strlit("learning");
            reveal_strlit("review");
            reveal_strlit("relearning");
            assert("new"@.len() == 3);
            assert("learning"@.len() == 8);
            assert("review"@.len() == 6);
            assert("relearning"@.len() == 10);
            assert("new"@ != "learning"@ && "new"@ != "review"@ && "new"@ != "relearning"@);
            assert("learning"@ != "review"@ && "learning"@ != "relearning"@);
            assert("review"@ != "relearning"@);
            assert(rows@.take(i + 1).drop_last() =~= rows@.take(i as int));
            assert(rows@.take(i + 1).last() == rows@[i as int]);
        }
        if *state == new_name {
            counts.new = count;
        } else if *state == learning_name {
            counts.learning = count;
        } else if *state == review_name {
            counts.review = count;
        } else if *state == relearning_name {
            counts.relearning = count;
        }
        i = i + 1;
    }
    proof {
        assert(rows@.take(rows.len() as int) =~= rows@);
    }
    counts
}

/// The heat-map slot of a (day, count) row, for the year that ends on day
/// number `today`: the day's offset from the first day of that year, where
/// the day text reads as a `%Y-%m-%d` date inside it.
pub open spec fn heat_slot(day: Seq<char>, today: i32) -> Option<int> {
    match naive_date_day_number(day, "%Y-%m-%d"@) {
        Some(d) => {
            let idx = d - (today - 364);
            if 0 <= idx < 365 {
                Some(idx)
            } else {
                None
            }
        },
        None => None,
    }
}

/// The count a heat-map slot holds: that of the last row that falls in it, or zero.
pub open spec fn heat_count(rows: Seq<(String, u32)>, today: i32, slot: int) -> u32
    decreases rows.len(),
{
    if rows.len() == 0 {
        0
    } else if heat_slot(rows.last().0@, today) == Some(slot) {
        rows.last().1
    } else {
        heat_count(rows.drop_last(), today, slot)
    }
}

/// Places (day, count) rows in the 365 daily slots of the year that ends on
/// day number `today` (counted from 0001-01-01 as day 1); rows outside that
/// year or with an unreadable day are ignored.
pub fn compute_heatmap(rows: &Vec<(String, u32)>, today: i32) -> (r: Vec<u32>)
    ensures
        r.len() == HEATMAP_DAYS,
        forall|j: int| 0 <= j < 365 ==> #[trigger] r@[j] == heat_count(rows@, today, j),
{
    proof {
        reveal_strlit("%Y-%m-%d");
    }
    let fmt = "%Y-%m-%d";
    let mut buckets: Vec<u32> = Vec::new();
    let mut k: usize = 0;
    while k < HEATMAP_DAYS
        invariant
            k <= HEATMAP_DAYS,
            buckets.len() == k,
            forall|j: int| 0 <= j < k ==> #[trigger] buckets@[j] == 0,
        decreases HEATMAP_DAYS - k,
    {
        buckets.push(0);
        k = k + 1;
    }
    let mut i: usize = 0;
    while i < rows.len()
        invariant
            i <= rows.len(),
            buckets.len() == HEATMAP_DAYS,
            fmt@ == "%Y-%m-%d"@,
            forall|j: int| 0 <= j < 365 ==> #[trigger] buckets@[j] == heat_count(
                rows@.take(i as int),
                today,
                j,
            ),
        decreases rows.len() - i,
    {
        proof {
            assert(rows@.take(i + 1).drop_last() =~= rows@.take(i as int));
            assert(rows@.take(i + 1).last() == rows@[i as int]);
        }
        match parse_naive_date(rows[i].0.as_str(), fmt) {
            Some(day) => {
                let idx: i64 = (day as i64) - ((today as i64) - 364);
                if 0 <= idx && idx < 365 {
                    buckets.set(idx as usize, rows[i].1);
                }
            },
            None => {},
        }
        i = i + 1;
    }
    proof {
        assert(rows@.take(rows.len() as int) =~= rows@);
    }
    buckets
}

/// The sum of the first `n` heat-map slots.
pub open spec fn heat_total(rows: Seq<(String, u32)>, today: i32, n: int) -> int
    decreases n,
{
    if n <= 0 {
        0
    } else {
        heat_total(rows, today, n - 1) + heat_count(rows, today, n - 1)
    }
}

/// The counts of the rows that fall in the year, summed.
pub open spec fn counted_in_year(rows: Seq<(String, u32)>, today: i32) -> int
    decreases rows.len(),
{
    if rows.len() == 0 {
        0
    } else {
        counted_in_year(rows.drop_last(), today) + (if heat_slot(rows.last().0@, today) is Some {
            rows.last().1 as int
        } else {
            0
        })
    }
}

/// No two rows fall in the same slot of the year (as rows of distinct days do).
pub open spec fn distinct_slots(rows: Seq<(String, u32)>, today: i32) -> bool {
    forall|a: int, b: int|
        0 <= a < b < rows.len() && (#[trigger] heat_slot(rows[a].0@, today)) is Some ==> heat_slot(
            rows[a].0@,
            today,
        ) != #[trigger] heat_slot(rows[b].0@, today)
}

proof fn lemma_empty_slot(rows: Seq<(String, u32)>, today: i32, k: int)
    requires
        forall|a: int| 0 <= a < rows.len() ==> #[trigger] heat_slot(rows[a].0@, today) != Some(k),
    ensures
        heat_count(rows, today, k) == 0,
    decreases rows.len(),
{
    if rows.len() > 0 {
        let rest = rows.drop_last();
        assert forall|a: int| 0 <= a < rest.len() implies #[trigger] heat_slot(rest[a].0@, today)
            != Some(k) by {
            assert(rest[a] == rows[a]);
        }
        assert(heat_slot(rows[rows.len() - 1].0@, today) != Some(k));
        lemma_empty_slot(rest, today, k);
    }
}

proof fn lemma_total_of_no_rows(rows: Seq<(String, u32)>, today: i32, n: int)
    requires
        rows.len() == 0,
    ensures
        heat_total(rows, today, n) == 0,
    decreases n,
{
    if n > 0 {
        lemma_total_of_no_rows(rows, today, n - 1);
    }
}

proof fn lemma_total_when_one_slot_grows(
    rows: Seq<(String, u32)>,
    rest: Seq<(String, u32)>,
    today: i32,
    k: int,
    extra: int,
    n: int,
)
    requires
        forall|j: int| j != k ==> #[trigger] heat_count(rows, today, j) == heat_count(rest, today, j),
        heat_count(rows, today, k) == heat_count(rest, today, k) + extra,
    ensures
        heat_total(rows, today, n) == heat_total(rest, today, n) + (if 0 <= k < n {
            extra
        } else {
            0
        }),
    decreases n,
{
    if n > 0 {
        lemma_total_when_one_slot_grows(rows, rest, today, k, extra, n - 1);
    }
}

/// The heat map counts every review of the year once: where no two rows fall
/// on the same day of the year, the slots sum to the counts of the rows that
/// fall in it.
pub proof fn law_heatmap_total(rows: Seq<(String, u32)>, today: i32)
    requires
        distinct_slots(rows, today),
    ensures
        heat_total(rows, today, 365) == counted_in_year(rows, today),
    decreases rows.len(),
{
    if rows.len() == 0 {
        lemma_total_of_no_rows(rows, today, 365);
    } else {
        let rest = rows.drop_last();
        let last = rows.last();
        assert forall|a: int, b: int|
            0 <= a < b < rest.len() && (#[trigger] heat_slot(rest[a].0@, today)) is Some implies heat_slot(
            rest[a].0@,
            today,
        ) != #[trigger] heat_slot(rest[b].0@, today) by {
            assert(rest[a] == rows[a] && rest[b] == rows[b]);
        }
        law_heatmap_total(rest, today);
        match heat_slot(last.0@, today) {
            Some(k) => {
                assert forall|a: int| 0 <= a < rest.len() implies #[trigger] heat_slot(
                    rest[a].0@,
                    today,
                ) != Some(k) by {
                    assert(rest[a] == rows[a]);
                    assert(heat_slot(rows[a].0@, today) is Some ==> heat_slot(rows[a].0@, today)
                        != heat_slot(rows[rows.len() - 1].0@, today));
                }
                lemma_empty_slot(rest, today, k);
                lemma_total_when_one_slot_grows(rows, rest, today, k, last.1 as int, 365);
            },
            None => {
                lemma_total_when_one_slot_grows(rows, rest, today, -1, 0, 365);
            },
        }
    }
}

} // verus!
