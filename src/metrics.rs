//! Aggregate counts and scores over a loaded dataset.
use vstd::prelude::*;
use crate::model::{TimelineData, TimelineRelease, TimelineShow, TimelineTask, MAX_RECORDS};
use crate::text::{text_eq, text_less, text_lt};

verus! {

/// The date against which deadlines count as overdue by default.
pub const REFERENCE_DATE: &'static str = "2024-01-15";

/// Descriptive statistics of a dataset.
///
/// Rates and scores are in hundredths of a percent point (0 to 10000),
/// rounded down; amounts are in whole currency units.
#[derive(Clone, Copy, Debug, PartialEq, Eq, Structural)]
pub struct TimelineMetrics {
    pub total_tasks: usize,
    pub completed_tasks: usize,
    pub completion_rate: u64,
    pub total_releases: usize,
    pub released_count: usize,
    pub overdue_tasks: usize,
    pub total_revenue_impact: i128,
    pub total_cost_impact: i128,
    pub net_impact: i128,
    pub efficiency_score: u64,
}

pub open spec fn is_completed(t: TimelineTask) -> bool {
    t.status@ == "completed"@
}

/// A task is overdue when it is not completed and its deadline sorts
/// before `today`.
pub open spec fn is_overdue_task(t: TimelineTask, today: Seq<char>) -> bool {
    text_lt(t.deadline@, today) && !is_completed(t)
}

/// Counts and sums over tasks: completed, overdue, revenue impact, cost impact.
pub open spec fn task_totals(tasks: Seq<TimelineTask>, today: Seq<char>) -> (int, int, int, int)
    decreases tasks.len(),
{
    if tasks.len() == 0 {
        (0, 0, 0, 0)
    } else {
        let (c, o, r, k) = task_totals(tasks.drop_last(), today);
        let t = tasks.last();
        (
            c + if is_completed(t) { 1int } else { 0int },
            o + if is_overdue_task(t, today) { 1int } else { 0int },
            r + t.revenue_impact,
            k + t.cost_impact,
        )
    }
}

/// Counts and sums over releases: released, projected revenue, budget plus
/// marketing spend.
pub open spec fn release_totals(releases: Seq<TimelineRelease>) -> (int, int, int)
    decreases releases.len(),
{
    if releases.len() == 0 {
        (0, 0, 0)
    } else {
        let (n, r, k) = release_totals(releases.drop_last());
        let x = releases.last();
        (
            n + if x.release_type@ == "released"@ { 1int } else { 0int },
            r + x.projected_revenue,
            k + x.budget + x.marketing_spend,
        )
    }
}

/// Sums over shows: revenue, expenses.
pub open spec fn show_totals(shows: Seq<TimelineShow>) -> (int, int)
    decreases shows.len(),
{
    if shows.len() == 0 {
        (0, 0)
    } else {
        let (r, k) = show_totals(shows.drop_last());
        (r + shows.last().revenue, k + shows.last().expenses)
    }
}

/// Whether `m` holds the statistics of `data`, with deadlines before
/// `today` counting as overdue.
pub open spec fn metrics_of(m: TimelineMetrics, data: TimelineData, today: Seq<char>) -> bool {
    let (c, o, tr, tc) = task_totals(data.tasks@, today);
    let (n, rr, rc) = release_totals(data.releases@);
    let (sr, sc) = show_totals(data.shows@);
    let t = data.tasks@.len() as int;
    &&& m.total_tasks == t
    &&& m.completed_tasks == c
    &&& m.overdue_tasks == o
    &&& m.total_releases == data.releases@.len()
    &&& m.released_count == n
    &&& m.total_revenue_impact == tr + rr + sr
    &&& m.total_cost_impact == tc + rc + sc
    &&& m.net_impact == (tr + rr + sr) - (tc + rc + sc)
    &&& m.completion_rate == if t > 0 { (10000 * c) / t } else { 0 }
    &&& m.efficiency_score == if t > 0 { (6000 * c + 4000 * (t - o)) / t } else { 0 }
}

/// Whether `deadline` sorts before `today`.
pub fn is_overdue(deadline: &str, today: &str) -> (r: bool)
    ensures
        r == text_lt(deadline@, today@),
{
    text_less(deadline, today)
}

/// On a dataset with no tasks, releases or shows every rate, score and
/// amount is zero.
pub proof fn lemma_empty_metrics(m: TimelineMetrics, data: TimelineData, today: Seq<char>)
    requires
        data.tasks@.len() == 0,
        data.releases@.len() == 0,
        data.shows@.len() == 0,
        metrics_of(m, data, today),
    ensures
        m.completion_rate == 0,
        m.efficiency_score == 0,
        m.net_impact == 0,
        m.total_revenue_impact == 0,
        m.total_cost_impact == 0,
{
}

proof fn lemma_ratio_bounded(a: int, t: int, scale: int)
    requires
        0 <= a <= t,
        0 < t,
        0 <= scale,
    ensures
        0 <= (scale * a) / t <= scale,
{
    assert(scale * a <= scale * t) by (nonlinear_arith)
        requires
            0 <= a <= t,
            0 <= scale,
    ;
    assert((scale * a) / t <= (scale * t) / t) by (nonlinear_arith)
        requires
            scale * a <= scale * t,
            0 < t,
    ;
    assert((scale * t) / t == scale) by (nonlinear_arith)
        requires
            0 < t,
    ;
    assert(0 <= (scale * a) / t) by (nonlinear_arith)
        requires
            0 <= scale * a,
            0 < t,
    ;
}

/// Statistics of `data`, with deadlines before `today` counting as overdue.
pub fn timeline_metrics(data: &TimelineData, today: &str) -> (m: TimelineMetrics)
    requires
        data.within_limits(),
    ensures
        metrics_of(m, *data, today@),
{
    let tasks = &data.tasks;
    let mut completed: usize = 0;
    let mut overdue: usize = 0;
    let mut t_rev: i128 = 0;
    let mut t_cost: i128 = 0;
    let mut i: usize = 0;
    while i < tasks.len()
        invariant
            i <= tasks@.len() <= MAX_RECORDS,
            completed <= i,
            overdue <= i,
            -(i * 0x8000_0000_0000_0000) <= t_rev <= i * 0x8000_0000_0000_0000,
            -(i * 0x8000_0000_0000_0000) <= t_cost <= i * 0x8000_0000_0000_0000,
            task_totals(tasks@.subrange(0, i as int), today@) == (
                completed as int,
                overdue as int,
                t_rev as int,
                t_cost as int,
            ),
        decreases tasks@.len() - i,
    {
        let t = &tasks[i];
        proof {
            assert(tasks@.subrange(0, i + 1).drop_last() =~= tasks@.subrange(0, i as int));
        }
        let done = text_eq(t.status.as_str(), "completed");
        if done {
            completed = completed + 1;
        } else if is_overdue(t.deadline.as_str(), today) {
            overdue = overdue + 1;
        }
        t_rev = t_rev + t.revenue_impact as i128;
        t_cost = t_cost + t.cost_impact as i128;
        i = i + 1;
    }
    proof {
        assert(tasks@.subrange(0, i as int) =~= tasks@);
    }
    let releases = &data.releases;
    let mut released: usize = 0;
    let mut r_rev: i128 = 0;
    let mut r_cost: i128 = 0;
    let mut j: usize = 0;
    while j < releases.len()
        invariant
            j <= releases@.len() <= MAX_RECORDS,
            released <= j,
            -(j * 0x8000_0000_0000_0000) <= r_rev <= j * 0x8000_0000_0000_0000,
            -(j * 0x1_0000_0000_0000_0000) <= r_cost <= j * 0x1_0000_0000_0000_0000,
            release_totals(releases@.subrange(0, j as int)) == (
                released as int,
                r_rev as int,
                r_cost as int,
            ),
        decreases releases@.len() - j,
    {
        let x = &releases[j];
        proof {
            assert(releases@.subrange(0, j + 1).drop_last() =~= releases@.subrange(0, j as int));
        }
        if text_eq(x.release_type.as_str(), "released") {
            released = released + 1;
        }
        r_rev = r_rev + x.projected_revenue as i128;
        r_cost = r_cost + x.budget as i128 + x.marketing_spend as i128;
        j = j + 1;
    }
    proof {
        assert(releases@.subrange(0, j as int) =~= releases@);
    }
    let shows = &data.shows;
    let mut s_rev: i128 = 0;
    let mut s_cost: i128 = 0;
    let mut k: usize = 0;
    while k < shows.len()
        invariant
            k <= shows@.len() <= MAX_RECORDS,
            -(k * 0x8000_0000_0000_0000) <= s_rev <= k * 0x8000_0000_0000_0000,
            -(k * 0x8000_0000_0000_0000) <= s_cost <= k * 0x8000_0000_0000_0000,
            show_totals(shows@.subrange(0, k as int)) == (s_rev as int, s_cost as int),
        decreases shows@.len() - k,
    {
        let x = &shows[k];
        proof {
            assert(shows@.subrange(0, k + 1).drop_last() =~= shows@.subrange(0, k as int));
        }
        s_rev = s_rev + x.revenue as i128;
        s_cost = s_cost + x.expenses as i128;
        k = k + 1;
    }
    proof {
        assert(shows@.subrange(0, k as int) =~= shows@);
    }
    let total = tasks.len();
    let revenue = t_rev + r_rev + s_rev;
    let cost = t_cost + r_cost + s_cost;
    let (completion_rate, efficiency_score) = if total > 0 {
        proof {
            lemma_ratio_bounded(completed as int, total as int, 10000);
            lemma_ratio_bounded(completed as int, total as int, 6000);
            lemma_ratio_bounded((total - overdue) as int, total as int, 4000);
        }
        let rate = (10000 * completed as u128) / (total as u128);
        let weighted = 6000 * completed as u128 + 4000 * (total - overdue) as u128;
        let score = weighted / (total as u128);
        (rate as u64, score as u64)
    } else {
        (0u64, 0u64)
    };
    TimelineMetrics {
        total_tasks: total,
        completed_tasks: completed,
        completion_rate,
        total_releases: releases.len(),
        released_count: released,
        overdue_tasks: overdue,
        total_revenue_impact: revenue,
        total_cost_impact: cost,
        net_impact: revenue - cost,
        efficiency_score,
    }
}

} // verus!
