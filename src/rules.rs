//! The simulation rules: financial impact, dependents, deadlines, risk,
//! critical path and cascade narration.
use vstd::prelude::*;
use crate::text::{decimal, decimal_text, lemma_text_lt_order, text_less, text_lt};
use crate::model::{
    first_release, first_show, first_task, find_release, find_show, find_task, lists, lists_id,
    texts, ChangeKind, EntityKind, SimError, TimelineChange, TimelineData, TimelineRelease,
    TimelineShow, TimelineTask,
};

verus! {

/// Impact of a change on a task, in hundredths of a currency unit.
pub open spec fn task_impact(c: ChangeKind, t: TimelineTask) -> int {
    match c {
        ChangeKind::Delay => -10 * t.revenue_impact,
        ChangeKind::Complete => 100 * t.revenue_impact,
        ChangeKind::Cancel => -100 * (t.revenue_impact + t.cost_impact),
        _ => 0,
    }
}

/// Impact of a change on a release, in hundredths of a currency unit.
pub open spec fn release_impact(c: ChangeKind, r: TimelineRelease) -> int {
    match c {
        ChangeKind::Delay => -20 * r.projected_revenue,
        ChangeKind::Complete => 100 * (r.projected_revenue - r.budget - r.marketing_spend),
        ChangeKind::Cancel => -100 * (r.budget + r.marketing_spend),
        _ => 0,
    }
}

/// Impact of a change on a show, in hundredths of a currency unit:
/// a cancelled show loses its revenue and recovers half of its expenses.
pub open spec fn show_impact(c: ChangeKind, s: TimelineShow) -> int {
    match c {
        ChangeKind::Delay => -15 * s.revenue,
        ChangeKind::Cancel => -100 * s.revenue + 50 * s.expenses,
        _ => 0,
    }
}

/// Impact of `change` on `data`, or `None` when its target is not found in
/// the collection of its kind.
pub open spec fn impact_of(change: TimelineChange, data: TimelineData) -> Option<int> {
    let id = change.entity_id@;
    match change.entity_type {
        EntityKind::Task => match first_task(data.tasks@, id) {
            Some(t) => Some(task_impact(change.change_type, t)),
            None => None,
        },
        EntityKind::Release => match first_release(data.releases@, id) {
            Some(r) => Some(release_impact(change.change_type, r)),
            None => None,
        },
        EntityKind::Show => match first_show(data.shows@, id) {
            Some(s) => Some(show_impact(change.change_type, s)),
            None => None,
        },
        EntityKind::Other => Some(0),
    }
}

/// The direct financial delta of `change`, in hundredths of a currency unit.
pub fn calculate_financial_impact(change: &TimelineChange, data: &TimelineData) -> (r: Result<
    i128,
    SimError,
>)
    ensures
        match impact_of(*change, *data) {
            Some(v) => r == Ok::<i128, SimError>(v as i128),
            None => r == Err::<i128, SimError>(SimError::EntityNotFound(change.entity_type)),
        },
{
    let c = change.change_type;
    match change.entity_type {
        EntityKind::Task => match find_task(&data.tasks, &change.entity_id) {
            Some(i) => {
                let t = &data.tasks[i];
                let rev = t.revenue_impact as i128;
                let cost = t.cost_impact as i128;
                assert(i64::MIN <= rev <= i64::MAX && i64::MIN <= cost <= i64::MAX);
                match c {
                    ChangeKind::Delay => Ok(-(rev * 10)),
                    ChangeKind::Complete => Ok(100 * rev),
                    ChangeKind::Cancel => Ok(-((rev + cost) * 100)),
                    _ => Ok(0),
                }
            },
            None => Err(SimError::EntityNotFound(EntityKind::Task)),
        },
        EntityKind::Release => match find_release(&data.releases, &change.entity_id) {
            Some(i) => {
                let r = &data.releases[i];
                let proj = r.projected_revenue as i128;
                let spent = r.budget as i128 + r.marketing_spend as i128;
                assert(i64::MIN <= proj <= i64::MAX && 2 * i64::MIN <= spent <= 2 * i64::MAX);
                match c {
                    ChangeKind::Delay => Ok(-(proj * 20)),
                    ChangeKind::Complete => Ok(100 * (proj - spent)),
                    ChangeKind::Cancel => Ok(-(spent * 100)),
                    _ => Ok(0),
                }
            },
            None => Err(SimError::EntityNotFound(EntityKind::Release)),
        },
        EntityKind::Show => match find_show(&data.shows, &change.entity_id) {
            Some(i) => {
                let s = &data.shows[i];
                let rev = s.revenue as i128;
                let exp = s.expenses as i128;
                assert(i64::MIN <= rev <= i64::MAX && i64::MIN <= exp <= i64::MAX);
                match c {
                    ChangeKind::Delay => Ok(-(rev * 15)),
                    ChangeKind::Cancel => Ok(exp * 50 - rev * 100),
                    _ => Ok(0),
                }
            },
            None => Err(SimError::EntityNotFound(EntityKind::Show)),
        },
        EntityKind::Other => Ok(0),
    }
}

/// The same change on the same dataset always has the same impact.
pub proof fn lemma_impact_deterministic(
    c1: TimelineChange,
    d1: TimelineData,
    c2: TimelineChange,
    d2: TimelineData,
)
    requires
        c1 == c2,
        d1 == d2,
    ensures
        impact_of(c1, d1) == impact_of(c2, d2),
{
}

/// Reference to a task, as in "task:T1".
pub open spec fn task_ref(id: Seq<char>) -> Seq<char> {
    "task:"@ + id
}

/// Reference to a release, as in "release:R1".
pub open spec fn release_ref(id: Seq<char>) -> Seq<char> {
    "release:"@ + id
}

/// References to the tasks that list `id` among their dependencies, in order.
pub open spec fn task_dependents(tasks: Seq<TimelineTask>, id: Seq<char>) -> Seq<Seq<char>>
    decreases tasks.len(),
{
    if tasks.len() == 0 {
        seq![]
    } else {
        let rest = task_dependents(tasks.drop_last(), id);
        if lists(tasks.last().dependencies@, id) {
            rest.push(task_ref(tasks.last().id@))
        } else {
            rest
        }
    }
}

/// References to the releases that list `id` among their dependencies, in order.
pub open spec fn release_dependents(releases: Seq<TimelineRelease>, id: Seq<char>) -> Seq<
    Seq<char>,
>
    decreases releases.len(),
{
    if releases.len() == 0 {
        seq![]
    } else {
        let rest = release_dependents(releases.drop_last(), id);
        if lists(releases.last().dependencies@, id) {
            rest.push(release_ref(releases.last().id@))
        } else {
            rest
        }
    }
}

/// Entities that depend directly on `id`: tasks first, then releases.
pub open spec fn affected(data: TimelineData, id: Seq<char>) -> Seq<Seq<char>> {
    task_dependents(data.tasks@, id) + release_dependents(data.releases@, id)
}

/// References to every task and release that lists the changed entity
/// among its dependencies.
pub fn find_affected_entities(change: &TimelineChange, data: &TimelineData) -> (r: Vec<String>)
    ensures
        texts(r@) == affected(*data, change.entity_id@),
{
    let id = &change.entity_id;
    let mut out: Vec<String> = Vec::new();
    let mut i: usize = 0;
    while i < data.tasks.len()
        invariant
            i <= data.tasks@.len(),
            texts(out@) == task_dependents(data.tasks@.subrange(0, i as int), id@),
        decreases data.tasks@.len() - i,
    {
        let t = &data.tasks[i];
        proof {
            assert(data.tasks@.subrange(0, i + 1).drop_last() =~= data.tasks@.subrange(
                0,
                i as int,
            ));
        }
        if lists_id(&t.dependencies, id) {
            let label = String::from_str("task:").concat(t.id.as_str());
            let ghost before = texts(out@);
            out.push(label);
            proof {
                assert(texts(out@) =~= before.push(label@));
            }
        }
        i = i + 1;
    }
    proof {
        assert(data.tasks@.subrange(0, data.tasks@.len() as int) =~= data.tasks@);
    }
    let mut j: usize = 0;
    while j < data.releases.len()
        invariant
            j <= data.releases@.len(),
            texts(out@) == task_dependents(data.tasks@, id@) + release_dependents(
                data.releases@.subrange(0, j as int),
                id@,
            ),
        decreases data.releases@.len() - j,
    {
        let rel = &data.releases[j];
        proof {
            assert(data.releases@.subrange(0, j + 1).drop_last() =~= data.releases@.subrange(
                0,
                j as int,
            ));
        }
        if lists_id(&rel.dependencies, id) {
            let label = String::from_str("release:").concat(rel.id.as_str());
            let ghost before = texts(out@);
            out.push(label);
            proof {
                assert(texts(out@) =~= before.push(label@));
            }
        }
        j = j + 1;
    }
    proof {
        assert(data.releases@.subrange(0, data.releases@.len() as int) =~= data.releases@);
    }
    out
}

/// Whether `r` refers to a task that lists `id` among its dependencies.
pub open spec fn is_task_dependent(tasks: Seq<TimelineTask>, id: Seq<char>, r: Seq<char>) -> bool {
    exists|i: int|
        0 <= i < tasks.len() && lists(tasks[i].dependencies@, id) && r == task_ref(tasks[i].id@)
}

/// Whether `r` refers to a release that lists `id` among its dependencies.
pub open spec fn is_release_dependent(
    releases: Seq<TimelineRelease>,
    id: Seq<char>,
    r: Seq<char>,
) -> bool {
    exists|i: int|
        0 <= i < releases.len() && lists(releases[i].dependencies@, id) && r == release_ref(
            releases[i].id@,
        )
}

/// Every reported entity depends directly on `id`, and every task or
/// release that lists `id` is reported; nothing further down the chain is.
pub proof fn lemma_affected_direct(data: TimelineData, id: Seq<char>)
    ensures
        forall|k: int|
            0 <= k < affected(data, id).len() ==> is_task_dependent(
                data.tasks@,
                id,
                #[trigger] affected(data, id)[k],
            ) || is_release_dependent(data.releases@, id, affected(data, id)[k]),
        forall|i: int|
            0 <= i < data.tasks@.len() && lists(#[trigger] data.tasks@[i].dependencies@, id)
                ==> affected(data, id).contains(task_ref(data.tasks@[i].id@)),
        forall|i: int|
            0 <= i < data.releases@.len() && lists(#[trigger] data.releases@[i].dependencies@, id)
                ==> affected(data, id).contains(release_ref(data.releases@[i].id@)),
{
    lemma_task_dependents(data.tasks@, id);
    lemma_release_dependents(data.releases@, id);
    let a = affected(data, id);
    let td = task_dependents(data.tasks@, id);
    let rd = release_dependents(data.releases@, id);
    assert forall|i: int|
        0 <= i < data.tasks@.len() && lists(#[trigger] data.tasks@[i].dependencies@, id) implies a.contains(
            task_ref(data.tasks@[i].id@),
        ) by {
        assert(td.contains(task_ref(data.tasks@[i].id@)));
        let k = choose|k: int| 0 <= k < td.len() && td[k] == task_ref(data.tasks@[i].id@);
        assert(a[k] == td[k]);
    }
    assert forall|i: int|
        0 <= i < data.releases@.len() && lists(#[trigger] data.releases@[i].dependencies@, id)
            implies a.contains(release_ref(data.releases@[i].id@)) by {
        assert(rd.contains(release_ref(data.releases@[i].id@)));
        let k = choose|k: int| 0 <= k < rd.len() && rd[k] == release_ref(data.releases@[i].id@);
        assert(a[td.len() + k] == rd[k]);
    }
    assert forall|k: int| 0 <= k < a.len() implies is_task_dependent(
        data.tasks@,
        id,
        #[trigger] a[k],
    ) || is_release_dependent(data.releases@, id, a[k]) by {
        if k < td.len() {
            assert(a[k] == td[k]);
        } else {
            assert(a[k] == rd[k - td.len()]);
        }
    }
}

proof fn lemma_task_dependents(tasks: Seq<TimelineTask>, id: Seq<char>)
    ensures
        forall|k: int|
            0 <= k < task_dependents(tasks, id).len() ==> is_task_dependent(
                tasks,
                id,
                #[trigger] task_dependents(tasks, id)[k],
            ),
        forall|i: int|
            0 <= i < tasks.len() && lists(#[trigger] tasks[i].dependencies@, id)
                ==> task_dependents(tasks, id).contains(task_ref(tasks[i].id@)),
    decreases tasks.len(),
{
    if tasks.len() > 0 {
        let init = tasks.drop_last();
        lemma_task_dependents(init, id);
        let rest = task_dependents(init, id);
        let all = task_dependents(tasks, id);
        let n = tasks.len() - 1;
        assert forall|k: int| 0 <= k < all.len() implies is_task_dependent(
            tasks,
            id,
            #[trigger] all[k],
        ) by {
            if k < rest.len() {
                assert(all[k] == rest[k]);
                assert(is_task_dependent(init, id, rest[k]));
                let i = choose|i: int|
                    0 <= i < init.len() && lists(init[i].dependencies@, id) && rest[k] == task_ref(
                        init[i].id@,
                    );
                assert(tasks[i] == init[i]);
            } else {
                assert(tasks[n] == tasks.last());
            }
        }
        assert forall|i: int|
            0 <= i < tasks.len() && lists(#[trigger] tasks[i].dependencies@, id) implies all.contains(
                task_ref(tasks[i].id@),
            ) by {
            if i < n {
                assert(tasks[i] == init[i]);
                assert(rest.contains(task_ref(init[i].id@)));
                let k = choose|k: int| 0 <= k < rest.len() && rest[k] == task_ref(init[i].id@);
                assert(all[k] == rest[k]);
            } else {
                assert(all[rest.len() as int] == task_ref(tasks[i].id@));
            }
        }
    }
}

proof fn lemma_release_dependents(releases: Seq<TimelineRelease>, id: Seq<char>)
    ensures
        forall|k: int|
            0 <= k < release_dependents(releases, id).len() ==> is_release_dependent(
                releases,
                id,
                #[trigger] release_dependents(releases, id)[k],
            ),
        forall|i: int|
            0 <= i < releases.len() && lists(#[trigger] releases[i].dependencies@, id)
                ==> release_dependents(releases, id).contains(release_ref(releases[i].id@)),
    decreases releases.len(),
{
    if releases.len() > 0 {
        let init = releases.drop_last();
        lemma_release_dependents(init, id);
        let rest = release_dependents(init, id);
        let all = release_dependents(releases, id);
        let n = releases.len() - 1;
        assert forall|k: int| 0 <= k < all.len() implies is_release_dependent(
            releases,
            id,
            #[trigger] all[k],
        ) by {
            if k < rest.len() {
                assert(all[k] == rest[k]);
                assert(is_release_dependent(init, id, rest[k]));
                let i = choose|i: int|
                    0 <= i < init.len() && lists(init[i].dependencies@, id) && rest[k]
                        == release_ref(init[i].id@);
                assert(releases[i] == init[i]);
            } else {
                assert(releases[n] == releases.last());
            }
        }
        assert forall|i: int|
            0 <= i < releases.len() && lists(#[trigger] releases[i].dependencies@, id)
                implies all.contains(release_ref(releases[i].id@)) by {
            if i < n {
                assert(releases[i] == init[i]);
                assert(rest.contains(release_ref(init[i].id@)));
                let k = choose|k: int| 0 <= k < rest.len() && rest[k] == release_ref(init[i].id@);
                assert(all[k] == rest[k]);
            } else {
                assert(all[rest.len() as int] == release_ref(releases[i].id@));
            }
        }
    }
}

/// Texts of (reference, date) pairs.
pub open spec fn pair_texts(v: Seq<(String, String)>) -> Seq<(Seq<char>, Seq<char>)> {
    v.map_values(|p: (String, String)| (p.0@, p.1@))
}

/// New deadlines: only a delay that carries a date moves its dependents,
/// each to that same date.
pub open spec fn deadlines(kind: ChangeKind, new_date: Option<String>, refs: Seq<Seq<char>>) -> Seq<
    (Seq<char>, Seq<char>),
> {
    match new_date {
        Some(d) => if kind == ChangeKind::Delay {
            refs.map_values(|r: Seq<char>| (r, d@))
        } else {
            seq![]
        },
        None => seq![],
    }
}

/// Assigns the requested date to each affected reference when the change
/// is a delay with a date.
pub fn calculate_new_deadlines(change: &TimelineChange, affected_refs: &Vec<String>) -> (r: Vec<
    (String, String),
>)
    ensures
        pair_texts(r@) == deadlines(change.change_type, change.new_date, texts(affected_refs@)),
{
    let mut out: Vec<(String, String)> = Vec::new();
    if change.change_type == ChangeKind::Delay {
        match &change.new_date {
            Some(d) => {
                let mut i: usize = 0;
                while i < affected_refs.len()
                    invariant
                        i <= affected_refs@.len(),
                        pair_texts(out@) =~= texts(affected_refs@).subrange(0, i as int).map_values(
                            |r: Seq<char>| (r, d@),
                        ),
                    decreases affected_refs@.len() - i,
                {
                    let ghost before = pair_texts(out@);
                    out.push((affected_refs[i].clone(), d.clone()));
                    proof {
                        assert(pair_texts(out@) =~= before.push((affected_refs@[i as int]@, d@)));
                    }
                    i = i + 1;
                }
                proof {
                    assert(texts(affected_refs@).subrange(0, i as int) =~= texts(affected_refs@));
                }
            },
            None => {},
        }
    }
    proof {
        assert(pair_texts(out@) =~= deadlines(
            change.change_type,
            change.new_date,
            texts(affected_refs@),
        ));
    }
    out
}

/// Base severity of a change kind.
pub open spec fn base_risk(kind: ChangeKind) -> int {
    match kind {
        ChangeKind::Delay => 40,
        ChangeKind::Cancel => 80,
        ChangeKind::Complete => 0,
        _ => 20,
    }
}

/// Base severity plus five points per affected entity, capped at 100.
pub open spec fn risk(kind: ChangeKind, affected_count: int) -> int {
    let total = base_risk(kind) + 5 * affected_count;
    if total > 100 {
        100
    } else {
        total
    }
}

/// Risk score of a change that affects `affected_count` entities.
pub fn calculate_risk_score(kind: ChangeKind, affected_count: usize) -> (r: u32)
    ensures
        r == risk(kind, affected_count as int),
{
    let base: u32 = match kind {
        ChangeKind::Delay => 40,
        ChangeKind::Cancel => 80,
        ChangeKind::Complete => 0,
        _ => 20,
    };
    if affected_count >= 20 {
        100
    } else {
        let total = base + 5 * (affected_count as u32);
        if total > 100 {
            100
        } else {
            total
        }
    }
}

/// For a fixed change kind the risk never falls as more entities are
/// affected, and it always lies in [0, 100].
pub proof fn lemma_risk_monotone_bounded(kind: ChangeKind, m: nat, n: nat)
    requires
        m <= n,
    ensures
        0 <= risk(kind, m as int) <= risk(kind, n as int) <= 100,
{
}

/// A task belongs on the critical path when its revenue impact exceeds
/// 1000 or it waits for anything.
pub open spec fn is_critical(t: TimelineTask) -> bool {
    t.revenue_impact > 1000 || t.dependencies@.len() > 0
}

/// Each text sorts strictly before every later one.
pub open spec fn strictly_sorted(s: Seq<Seq<char>>) -> bool {
    forall|i: int, j: int| 0 <= i < j < s.len() ==> text_lt(#[trigger] s[i], #[trigger] s[j])
}

/// Inserts `x` into the sorted `v` unless it is already there.
fn insert_sorted(v: &mut Vec<String>, x: String)
    requires
        strictly_sorted(texts(old(v)@)),
    ensures
        strictly_sorted(texts(final(v)@)),
        forall|y: Seq<char>|
            #[trigger] texts(final(v)@).contains(y) <==> (texts(old(v)@).contains(y) || y == x@),
{
    let ghost s0 = texts(v@);
    let mut p: usize = 0;
    let mut stop = false;
    while p < v.len() && !stop
        invariant
            p <= v@.len(),
            s0 == texts(v@),
            forall|k: int| 0 <= k < p ==> text_lt(#[trigger] s0[k], x@),
            stop ==> p < v@.len() && !text_lt(s0[p as int], x@),
        decreases v@.len() - p + (if stop { 0int } else { 1int }),
    {
        if text_less(v[p].as_str(), x.as_str()) {
            p = p + 1;
        } else {
            stop = true;
        }
    }
    if p < v.len() && v[p] == x {
        proof {
            assert(s0[p as int] == x@);
        }
        return;
    }
    proof {
        if p < s0.len() {
            lemma_text_lt_order(s0[p as int], x@, x@);
        }
    }
    let ghost xv = x@;
    v.insert(p, x);
    proof {
        let s1 = texts(v@);
        assert(s1 =~= s0.insert(p as int, xv));
        assert forall|i: int, j: int| 0 <= i < j < s1.len() implies text_lt(
            #[trigger] s1[i],
            #[trigger] s1[j],
        ) by {
            if j < p {
                assert(s1[i] == s0[i] && s1[j] == s0[j]);
            } else if j == p {
                assert(s1[i] == s0[i]);
            } else if i < p {
                assert(s1[i] == s0[i] && s1[j] == s0[j - 1]);
            } else if i == p {
                assert(s1[j] == s0[j - 1]);
                if j - 1 > p {
                    lemma_text_lt_order(xv, s0[p as int], s0[j - 1]);
                }
            } else {
                assert(s1[i] == s0[i - 1] && s1[j] == s0[j - 1]);
            }
        }
        assert forall|y: Seq<char>| #[trigger] s1.contains(y) <==> (s0.contains(y) || y == xv) by {
            if s1.contains(y) {
                let k = choose|k: int| 0 <= k < s1.len() && s1[k] == y;
                if k < p {
                    assert(s0[k] == y);
                } else if k > p {
                    assert(s0[k - 1] == y);
                }
            }
            if s0.contains(y) {
                let k = choose|k: int| 0 <= k < s0.len() && s0[k] == y;
                if k < p {
                    assert(s1[k] == y);
                } else {
                    assert(s1[k + 1] == y);
                }
            }
            if y == xv {
                assert(s1[p as int] == y);
            }
        }
    }
}

/// The identifiers of the critical tasks, sorted, each once.
pub fn find_critical_path(data: &TimelineData) -> (r: Vec<String>)
    ensures
        strictly_sorted(texts(r@)),
        forall|i: int, j: int| 0 <= i < j < r@.len() ==> r@[i]@ != r@[j]@,
        forall|y: Seq<char>|
            #[trigger] texts(r@).contains(y) <==> exists|i: int|
                0 <= i < data.tasks@.len() && is_critical(data.tasks@[i]) && data.tasks@[i].id@
                    == y,
{
    let mut out: Vec<String> = Vec::new();
    let mut i: usize = 0;
    proof {
        assert(texts(out@) =~= Seq::<Seq<char>>::empty());
    }
    while i < data.tasks.len()
        invariant
            i <= data.tasks@.len(),
            strictly_sorted(texts(out@)),
            forall|y: Seq<char>|
                #[trigger] texts(out@).contains(y) <==> exists|k: int|
                    0 <= k < i && is_critical(data.tasks@[k]) && data.tasks@[k].id@ == y,
        decreases data.tasks@.len() - i,
    {
        let t = &data.tasks[i];
        let ghost before = texts(out@);
        if t.revenue_impact > 1000 || t.dependencies.len() > 0 {
            insert_sorted(&mut out, t.id.clone());
        }
        proof {
            assert forall|y: Seq<char>| #[trigger] texts(out@).contains(y) <==> exists|k: int|
                0 <= k < i + 1 && is_critical(data.tasks@[k]) && data.tasks@[k].id@ == y by {
                if before.contains(y) {
                    let k = choose|k: int|
                        0 <= k < i && is_critical(data.tasks@[k]) && data.tasks@[k].id@ == y;
                }
                if exists|k: int|
                    0 <= k < i + 1 && is_critical(data.tasks@[k]) && data.tasks@[k].id@ == y {
                    let k = choose|k: int|
                        0 <= k < i + 1 && is_critical(data.tasks@[k]) && data.tasks@[k].id@ == y;
                    if k < i {
                        assert(before.contains(y));
                    }
                }
            }
        }
        i = i + 1;
    }
    proof {
        assert forall|a: int, b: int| 0 <= a < b < out@.len() implies out@[a]@ != out@[b]@ by {
            let s = texts(out@);
            assert(text_lt(s[a], s[b]));
            lemma_text_lt_order(s[a], s[b], s[b]);
        }
    }
    out
}

/// The sentences that describe the knock-on effects of a change.
pub open spec fn cascade(kind: ChangeKind, affected_count: nat) -> Seq<Seq<char>> {
    match kind {
        ChangeKind::Delay => if affected_count > 0 {
            seq![
                "Timeline compression for dependent items"@,
                decimal(affected_count) + " dependent items require rescheduling"@,
            ]
        } else {
            seq!["Timeline compression for dependent items"@]
        },
        ChangeKind::Cancel => seq![
            "Resource reallocation required"@,
            "Budget impact on dependent items"@,
        ],
        ChangeKind::Complete => seq!["Accelerated timeline for dependent items"@],
        _ => seq![],
    }
}

/// Describes the knock-on effects of a change of `kind` that affects
/// `affected_count` entities.
pub fn generate_cascade_effects(kind: ChangeKind, affected_count: usize) -> (r: Vec<String>)
    ensures
        texts(r@) == cascade(kind, affected_count as nat),
{
    let mut effects: Vec<String> = Vec::new();
    match kind {
        ChangeKind::Delay => {
            effects.push(String::from_str("Timeline compression for dependent items"));
            if affected_count > 0 {
                let line = decimal_text(affected_count).concat(
                    " dependent items require rescheduling",
                );
                effects.push(line);
            }
        },
        ChangeKind::Cancel => {
            effects.push(String::from_str("Resource reallocation required"));
            effects.push(String::from_str("Budget impact on dependent items"));
        },
        ChangeKind::Complete => {
            effects.push(String::from_str("Accelerated timeline for dependent items"));
        },
        _ => {},
    }
    proof {
        assert(texts(effects@) =~= cascade(kind, affected_count as nat));
    }
    effects
}

} // verus!
