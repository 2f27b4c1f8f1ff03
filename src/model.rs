//! The timeline dataset, change requests and simulation results.
use vstd::prelude::*;
use crate::text::text_eq;

verus! {

/// Largest number of records that one collection of a dataset may hold.
pub const MAX_RECORDS: usize = 4294967295;

/// A production task. Amounts are in whole currency units.
#[derive(Clone, Debug)]
pub struct TimelineTask {
    pub id: String,
    pub task_type: String,
    pub status: String,
    pub priority: String,
    /// Deadline as "YYYY-MM-DD".
    pub deadline: String,
    pub estimated_hours: u32,
    pub completion_percentage: u32,
    pub cost_impact: i64,
    pub revenue_impact: i64,
    /// Identifiers of the entities that must come first.
    pub dependencies: Vec<String>,
}

/// A content release. Amounts are in whole currency units.
#[derive(Clone, Debug)]
pub struct TimelineRelease {
    pub id: String,
    pub release_type: String,
    pub release_date: String,
    pub budget: i64,
    pub projected_revenue: i64,
    pub platforms: Vec<String>,
    pub marketing_spend: i64,
    /// Identifiers of the entities that must come first.
    pub dependencies: Vec<String>,
}

/// A live show. Amounts are in whole currency units.
#[derive(Clone, Debug)]
pub struct TimelineShow {
    pub id: String,
    pub date: String,
    pub revenue: i64,
    pub expenses: i64,
    pub status: String,
    pub venue_capacity: u32,
    pub expected_attendance: u32,
}

/// The three collections of a loaded dataset.
#[derive(Clone, Debug)]
pub struct TimelineData {
    pub tasks: Vec<TimelineTask>,
    pub releases: Vec<TimelineRelease>,
    pub shows: Vec<TimelineShow>,
}

impl TimelineData {
    /// Each collection holds at most `MAX_RECORDS` records, so that sums over
    /// the dataset fit in 128 bits.
    pub open spec fn within_limits(&self) -> bool {
        &&& self.tasks@.len() <= MAX_RECORDS
        &&& self.releases@.len() <= MAX_RECORDS
        &&& self.shows@.len() <= MAX_RECORDS
    }

    /// Identifiers are unique within each collection.
    pub open spec fn unique_ids(&self) -> bool {
        &&& distinct(self.tasks@.map_values(|t: TimelineTask| t.id@))
        &&& distinct(self.releases@.map_values(|r: TimelineRelease| r.id@))
        &&& distinct(self.shows@.map_values(|s: TimelineShow| s.id@))
    }

    /// What a loaded dataset satisfies.
    pub open spec fn well_formed(&self) -> bool {
        self.within_limits() && self.unique_ids()
    }

    /// Success when the dataset is well formed, else the first rule it breaks:
    /// its size, then unique task, release and show identifiers.
    pub open spec fn validation(&self) -> Result<(), SimError> {
        if !self.within_limits() {
            Err(SimError::TooLarge)
        } else if !distinct(self.tasks@.map_values(|t: TimelineTask| t.id@)) {
            Err(SimError::DuplicateId(EntityKind::Task))
        } else if !distinct(self.releases@.map_values(|x: TimelineRelease| x.id@)) {
            Err(SimError::DuplicateId(EntityKind::Release))
        } else if !distinct(self.shows@.map_values(|x: TimelineShow| x.id@)) {
            Err(SimError::DuplicateId(EntityKind::Show))
        } else {
            Ok(())
        }
    }

    /// Checks the invariant of the dataset.
    pub fn validate(&self) -> (r: Result<(), SimError>)
        ensures
            r == self.validation(),
            r is Ok <==> self.well_formed(),
    {
        if self.tasks.len() > MAX_RECORDS || self.releases.len() > MAX_RECORDS
            || self.shows.len() > MAX_RECORDS {
            return Err(SimError::TooLarge);
        }
        let mut ids: Vec<String> = Vec::new();
        let mut i: usize = 0;
        while i < self.tasks.len()
            invariant
                i <= self.tasks@.len(),
                texts(ids@) =~= self.tasks@.subrange(0, i as int).map_values(
                    |t: TimelineTask| t.id@,
                ),
            decreases self.tasks@.len() - i,
        {
            let ghost before = texts(ids@);
            ids.push(self.tasks[i].id.clone());
            proof {
                assert(texts(ids@) =~= before.push(self.tasks@[i as int].id@));
                assert(self.tasks@.subrange(0, i + 1).map_values(|t: TimelineTask| t.id@)
                    =~= self.tasks@.subrange(0, i as int).map_values(|t: TimelineTask| t.id@).push(
                    self.tasks@[i as int].id@,
                ));
            }
            i = i + 1;
        }
        proof {
            assert(self.tasks@.subrange(0, i as int) =~= self.tasks@);
        }
        if !all_distinct(&ids) {
            return Err(SimError::DuplicateId(EntityKind::Task));
        }
        let mut ids: Vec<String> = Vec::new();
        let mut i: usize = 0;
        while i < self.releases.len()
            invariant
                i <= self.releases@.len(),
                texts(ids@) =~= self.releases@.subrange(0, i as int).map_values(
                    |x: TimelineRelease| x.id@,
                ),
            decreases self.releases@.len() - i,
        {
            let ghost before = texts(ids@);
            ids.push(self.releases[i].id.clone());
            proof {
                assert(texts(ids@) =~= before.push(self.releases@[i as int].id@));
                assert(self.releases@.subrange(0, i + 1).map_values(|x: TimelineRelease| x.id@)
                    =~= self.releases@.subrange(0, i as int).map_values(|x: TimelineRelease| x.id@).push(
                    self.releases@[i as int].id@,
                ));
            }
            i = i + 1;
        }
        proof {
            assert(self.releases@.subrange(0, i as int) =~= self.releases@);
        }
        if !all_distinct(&ids) {
            return Err(SimError::DuplicateId(EntityKind::Release));
        }
        let mut ids: Vec<String> = Vec::new();
        let mut i: usize = 0;
        while i < self.shows.len()
            invariant
                i <= self.shows@.len(),
                texts(ids@) =~= self.shows@.subrange(0, i as int).map_values(
                    |x: TimelineShow| x.id@,
                ),
            decreases self.shows@.len() - i,
        {
            let ghost before = texts(ids@);
            ids.push(self.shows[i].id.clone());
            proof {
                assert(texts(ids@) =~= before.push(self.shows@[i as int].id@));
                assert(self.shows@.subrange(0, i + 1).map_values(|x: TimelineShow| x.id@)
                    =~= self.shows@.subrange(0, i as int).map_values(|x: TimelineShow| x.id@).push(
                    self.shows@[i as int].id@,
                ));
            }
            i = i + 1;
        }
        proof {
            assert(self.shows@.subrange(0, i as int) =~= self.shows@);
        }
        if !all_distinct(&ids) {
            return Err(SimError::DuplicateId(EntityKind::Show));
        }
        Ok(())
    }
}

/// No text occurs twice.
pub open spec fn distinct(s: Seq<Seq<char>>) -> bool {
    forall|i: int, j: int| 0 <= i < j < s.len() ==> #[trigger] s[i] != #[trigger] s[j]
}

/// Whether the strings of `v` are pairwise different.
pub fn all_distinct(v: &Vec<String>) -> (r: bool)
    ensures
        r == distinct(texts(v@)),
{
    let n = v.len();
    let mut i: usize = 0;
    while i < n
        invariant
            n == v@.len(),
            i <= n,
            forall|a: int, b: int| 0 <= a < b < i ==> #[trigger] v@[a]@ != #[trigger] v@[b]@,
        decreases n - i,
    {
        let mut j: usize = 0;
        while j < i
            invariant
                n == v@.len(),
                j <= i < n,
                forall|a: int| 0 <= a < j ==> #[trigger] v@[a]@ != v@[i as int]@,
            decreases i - j,
        {
            if v[j] == v[i] {
                proof {
                    let s = texts(v@);
                    assert(s[j as int] == s[i as int]);
                }
                return false;
            }
            j = j + 1;
        }
        i = i + 1;
    }
    proof {
        let s = texts(v@);
        assert forall|a: int, b: int| 0 <= a < b < s.len() implies #[trigger] s[a] != #[trigger] s[b] by {
            assert(s[a] == v@[a]@ && s[b] == v@[b]@);
        }
    }
    true
}

/// What a change request does to its target.
#[derive(Clone, Copy, Debug, PartialEq, Eq, Structural)]
pub enum ChangeKind {
    Delay,
    Complete,
    Reschedule,
    Cancel,
    /// Any name not recognised above.
    Other,
}

/// Which collection a change request targets.
#[derive(Clone, Copy, Debug, PartialEq, Eq, Structural)]
pub enum EntityKind {
    Task,
    Release,
    Show,
    /// Any name not recognised above.
    Other,
}

pub open spec fn change_kind_named(name: Seq<char>) -> ChangeKind {
    if name == "delay"@ {
        ChangeKind::Delay
    } else if name == "complete"@ {
        ChangeKind::Complete
    } else if name == "reschedule"@ {
        ChangeKind::Reschedule
    } else if name == "cancel"@ {
        ChangeKind::Cancel
    } else {
        ChangeKind::Other
    }
}

pub open spec fn entity_kind_named(name: Seq<char>) -> EntityKind {
    if name == "task"@ {
        EntityKind::Task
    } else if name == "release"@ {
        EntityKind::Release
    } else if name == "show"@ {
        EntityKind::Show
    } else {
        EntityKind::Other
    }
}

impl ChangeKind {
    /// The kind of change that `name` stands for; unknown names give `Other`.
    pub fn from_name(name: &str) -> (r: ChangeKind)
        ensures
            r == change_kind_named(name@),
    {
        if text_eq(name, "delay") {
            ChangeKind::Delay
        } else if text_eq(name, "complete") {
            ChangeKind::Complete
        } else if text_eq(name, "reschedule") {
            ChangeKind::Reschedule
        } else if text_eq(name, "cancel") {
            ChangeKind::Cancel
        } else {
            ChangeKind::Other
        }
    }
}

impl EntityKind {
    /// The kind of entity that `name` stands for; unknown names give `Other`.
    pub fn from_name(name: &str) -> (r: EntityKind)
        ensures
            r == entity_kind_named(name@),
    {
        if text_eq(name, "task") {
            EntityKind::Task
        } else if text_eq(name, "release") {
            EntityKind::Release
        } else if text_eq(name, "show") {
            EntityKind::Show
        } else {
            EntityKind::Other
        }
    }
}

/// A proposed change to one entity; it is simulated, never applied.
#[derive(Clone, Debug)]
pub struct TimelineChange {
    pub change_type: ChangeKind,
    pub entity_type: EntityKind,
    pub entity_id: String,
    pub new_date: Option<String>,
    pub new_status: Option<String>,
    pub new_completion: Option<u32>,
}

/// Why a call on the simulator failed.
#[derive(Clone, Copy, Debug, PartialEq, Eq, Structural)]
pub enum SimError {
    /// No dataset has been loaded yet.
    NotLoaded,
    /// The target identifier is absent from the collection of this kind.
    EntityNotFound(EntityKind),
    /// A collection of the dataset holds more than `MAX_RECORDS` records.
    TooLarge,
    /// Two records of the collection of this kind share an identifier.
    DuplicateId(EntityKind),
}

/// The outcome of simulating one change.
///
/// Money deltas are in hundredths of a currency unit, so that every
/// percentage of the impact table is exact.
#[derive(Clone, Debug)]
pub struct TimelineSimulationResult {
    pub financial_impact: i128,
    /// References such as "task:T2", tasks first, then releases.
    pub affected_entities: Vec<String>,
    pub cascade_effects: Vec<String>,
    /// Pairs of an affected reference and its new deadline.
    pub new_deadlines: Vec<(String, String)>,
    pub risk_score: u32,
    pub revenue_change: i128,
    pub expense_change: i128,
    pub critical_path: Vec<String>,
}

/// The characters of each string of `v`.
pub open spec fn texts(v: Seq<String>) -> Seq<Seq<char>> {
    v.map_values(|s: String| s@)
}

/// Whether `id` is one of `deps`.
pub open spec fn lists(deps: Seq<String>, id: Seq<char>) -> bool {
    exists|k: int| 0 <= k < deps.len() && deps[k]@ == id
}

/// Whether `deps` names `id`.
pub fn lists_id(deps: &Vec<String>, id: &String) -> (r: bool)
    ensures
        r == lists(deps@, id@),
{
    let mut k: usize = 0;
    while k < deps.len()
        invariant
            k <= deps@.len(),
            forall|j: int| 0 <= j < k ==> deps@[j]@ != id@,
        decreases deps@.len() - k,
    {
        if deps[k] == *id {
            return true;
        }
        k = k + 1;
    }
    false
}

/// The first task whose identifier is `id`.
pub open spec fn first_task(tasks: Seq<TimelineTask>, id: Seq<char>) -> Option<TimelineTask>
    decreases tasks.len(),
{
    if tasks.len() == 0 {
        None
    } else if tasks[0].id@ == id {
        Some(tasks[0])
    } else {
        first_task(tasks.drop_first(), id)
    }
}

/// The first release whose identifier is `id`.
pub open spec fn first_release(releases: Seq<TimelineRelease>, id: Seq<char>) -> Option<
    TimelineRelease,
>
    decreases releases.len(),
{
    if releases.len() == 0 {
        None
    } else if releases[0].id@ == id {
        Some(releases[0])
    } else {
        first_release(releases.drop_first(), id)
    }
}

/// The first show whose identifier is `id`.
pub open spec fn first_show(shows: Seq<TimelineShow>, id: Seq<char>) -> Option<TimelineShow>
    decreases shows.len(),
{
    if shows.len() == 0 {
        None
    } else if shows[0].id@ == id {
        Some(shows[0])
    } else {
        first_show(shows.drop_first(), id)
    }
}

/// Position of the first task whose identifier is `id`.
pub fn find_task(tasks: &Vec<TimelineTask>, id: &String) -> (r: Option<usize>)
    ensures
        match r {
            Some(i) => i < tasks@.len() && first_task(tasks@, id@) == Some(tasks@[i as int]),
            None => first_task(tasks@, id@) is None,
        },
{
    let n = tasks.len();
    let mut i: usize = 0;
    proof {
        assert(tasks@.subrange(0, n as int) =~= tasks@);
    }
    while i < n
        invariant
            n == tasks@.len(),
            i <= n,
            first_task(tasks@, id@) == first_task(tasks@.subrange(i as int, n as int), id@),
        decreases n - i,
    {
        if tasks[i].id == *id {
            return Some(i);
        }
        proof {
            assert(tasks@.subrange(i as int, n as int).drop_first() =~= tasks@.subrange(
                i + 1,
                n as int,
            ));
        }
        i = i + 1;
    }
    None
}

/// Position of the first release whose identifier is `id`.
pub fn find_release(releases: &Vec<TimelineRelease>, id: &String) -> (r: Option<usize>)
    ensures
        match r {
            Some(i) => i < releases@.len() && first_release(releases@, id@) == Some(
                releases@[i as int],
            ),
            None => first_release(releases@, id@) is None,
        },
{
    let n = releases.len();
    let mut i: usize = 0;
    proof {
        assert(releases@.subrange(0, n as int) =~= releases@);
    }
    while i < n
        invariant
            n == releases@.len(),
            i <= n,
            first_release(releases@, id@) == first_release(
                releases@.subrange(i as int, n as int),
                id@,
            ),
        decreases n - i,
    {
        if releases[i].id == *id {
            return Some(i);
        }
        proof {
            assert(releases@.subrange(i as int, n as int).drop_first() =~= releases@.subrange(
                i + 1,
                n as int,
            ));
        }
        i = i + 1;
    }
    None
}

/// Position of the first show whose identifier is `id`.
pub fn find_show(shows: &Vec<TimelineShow>, id: &String) -> (r: Option<usize>)
    ensures
        match r {
            Some(i) => i < shows@.len() && first_show(shows@, id@) == Some(shows@[i as int]),
            None => first_show(shows@, id@) is None,
        },
{
    let n = shows.len();
    let mut i: usize = 0;
    proof {
        assert(shows@.subrange(0, n as int) =~= shows@);
    }
    while i < n
        invariant
            n == shows@.len(),
            i <= n,
            first_show(shows@, id@) == first_show(shows@.subrange(i as int, n as int), id@),
        decreases n - i,
    {
        if shows[i].id == *id {
            return Some(i);
        }
        proof {
            assert(shows@.subrange(i as int, n as int).drop_first() =~= shows@.subrange(
                i + 1,
                n as int,
            ));
        }
        i = i + 1;
    }
    None
}

} // verus!
