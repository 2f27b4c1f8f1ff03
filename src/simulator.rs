//! The simulator: holds one dataset and answers change requests over it.
use vstd::prelude::*;
use crate::metrics::{metrics_of, timeline_metrics, TimelineMetrics, REFERENCE_DATE};
use crate::model::{
    texts, SimError, TimelineChange, TimelineData, TimelineSimulationResult,
};
use crate::rules::{
    affected, calculate_financial_impact, calculate_new_deadlines, calculate_risk_score, cascade,
    deadlines, find_affected_entities, find_critical_path, generate_cascade_effects, impact_of,
    is_critical, pair_texts, risk, strictly_sorted,
};

verus! {

/// Whether `res` is the outcome of `change` on `data`, given that its
/// financial impact is `impact`.
pub open spec fn is_simulation_of(
    res: TimelineSimulationResult,
    change: TimelineChange,
    data: TimelineData,
    impact: int,
) -> bool {
    let refs = affected(data, change.entity_id@);
    &&& res.financial_impact == impact
    &&& texts(res.affected_entities@) == refs
    &&& texts(res.cascade_effects@) == cascade(change.change_type, refs.len())
    &&& pair_texts(res.new_deadlines@) == deadlines(change.change_type, change.new_date, refs)
    &&& res.risk_score == risk(change.change_type, refs.len() as int)
    &&& res.revenue_change == if impact > 0 { impact } else { 0 }
    &&& res.expense_change == if impact < 0 { -impact } else { 0 }
    &&& strictly_sorted(texts(res.critical_path@))
    &&& forall|y: Seq<char>|
        #[trigger] texts(res.critical_path@).contains(y) <==> exists|i: int|
            0 <= i < data.tasks@.len() && is_critical(data.tasks@[i]) && data.tasks@[i].id@ == y
}

/// Holds at most one dataset; simulations read it and never change it.
pub struct TimelineSimulator {
    timeline_data: Option<TimelineData>,
}

impl TimelineSimulator {
    /// The dataset loaded last, if any.
    pub closed spec fn loaded(&self) -> Option<TimelineData> {
        self.timeline_data
    }

    /// A loaded dataset satisfies its invariant.
    pub open spec fn wf(&self) -> bool {
        match self.loaded() {
            Some(d) => d.well_formed(),
            None => true,
        }
    }

    /// A simulator with no dataset.
    pub fn new() -> (r: TimelineSimulator)
        ensures
            r.loaded() is None,
            r.wf(),
    {
        TimelineSimulator { timeline_data: None }
    }

    /// Replaces the dataset wholesale; a dataset that breaks its invariant
    /// is refused and the previous one kept.
    pub fn load_timeline_data(&mut self, data: TimelineData) -> (r: Result<(), SimError>)
        requires
            old(self).wf(),
        ensures
            final(self).wf(),
            r is Ok <==> data.well_formed(),
            r is Ok ==> final(self).loaded() == Some(data),
            r is Err ==> final(self).loaded() == old(self).loaded() && r == data.validation(),
    {
        match data.validate() {
            Ok(()) => {
                self.timeline_data = Some(data);
                Ok(())
            },
            Err(e) => Err(e),
        }
    }

    /// Simulates `change` against the loaded dataset.
    pub fn simulate_timeline_change(&self, change: &TimelineChange) -> (r: Result<
        TimelineSimulationResult,
        SimError,
    >)
        ensures
            self.loaded() is None ==> r == Err::<TimelineSimulationResult, SimError>(
                SimError::NotLoaded,
            ),
            self.loaded() is Some ==> match impact_of(*change, self.loaded()->Some_0) {
                None => r == Err::<TimelineSimulationResult, SimError>(
                    SimError::EntityNotFound(change.entity_type),
                ),
                Some(v) => r is Ok && is_simulation_of(r->Ok_0, *change, self.loaded()->Some_0, v),
            },
    {
        let data = match &self.timeline_data {
            Some(d) => d,
            None => {
                return Err(SimError::NotLoaded);
            },
        };
        let financial_impact = match calculate_financial_impact(change, data) {
            Ok(v) => v,
            Err(e) => {
                return Err(e);
            },
        };
        let affected_entities = find_affected_entities(change, data);
        let new_deadlines = calculate_new_deadlines(change, &affected_entities);
        let risk_score = calculate_risk_score(change.change_type, affected_entities.len());
        let critical_path = find_critical_path(data);
        let cascade_effects = generate_cascade_effects(
            change.change_type,
            affected_entities.len(),
        );
        let revenue_change = if financial_impact > 0 {
            financial_impact
        } else {
            0
        };
        let expense_change = if financial_impact < 0 {
            -financial_impact
        } else {
            0
        };
        Ok(
            TimelineSimulationResult {
                financial_impact,
                affected_entities,
                cascade_effects,
                new_deadlines,
                risk_score,
                revenue_change,
                expense_change,
                critical_path,
            },
        )
    }

    /// Statistics of the loaded dataset, against the default reference date.
    pub fn get_timeline_metrics(&self) -> (r: Result<TimelineMetrics, SimError>)
        requires
            self.wf(),
        ensures
            self.loaded() is None ==> r == Err::<TimelineMetrics, SimError>(SimError::NotLoaded),
            self.loaded() is Some ==> r is Ok && metrics_of(
                r->Ok_0,
                self.loaded()->Some_0,
                REFERENCE_DATE@,
            ),
    {
        self.get_timeline_metrics_at(REFERENCE_DATE)
    }

    /// Statistics of the loaded dataset, with deadlines before `today`
    /// counting as overdue.
    pub fn get_timeline_metrics_at(&self, today: &str) -> (r: Result<TimelineMetrics, SimError>)
        requires
            self.wf(),
        ensures
            self.loaded() is None ==> r == Err::<TimelineMetrics, SimError>(SimError::NotLoaded),
            self.loaded() is Some ==> r is Ok && metrics_of(r->Ok_0, self.loaded()->Some_0, today@),
    {
        match &self.timeline_data {
            Some(d) => Ok(timeline_metrics(d, today)),
            None => Err(SimError::NotLoaded),
        }
    }
}

} // verus!
