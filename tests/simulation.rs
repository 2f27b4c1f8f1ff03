use timeline_engine::metrics::{timeline_metrics, REFERENCE_DATE};
use timeline_engine::model::{
    ChangeKind, EntityKind, SimError, TimelineChange, TimelineData, TimelineRelease, TimelineShow,
    TimelineTask,
};
use timeline_engine::rules::{
    calculate_financial_impact, calculate_risk_score, find_critical_path,
    generate_cascade_effects,
};
use timeline_engine::simulator::TimelineSimulator;
use timeline_engine::text::{decimal_text, text_eq, text_less};

fn task(id: &str, revenue: i64, cost: i64, deps: &[&str]) -> TimelineTask {
    TimelineTask {
        id: id.to_string(),
        task_type: "production".to_string(),
        status: "pending".to_string(),
        priority: "high".to_string(),
        deadline: "2024-06-01".to_string(),
        estimated_hours: 10,
        completion_percentage: 0,
        cost_impact: cost,
        revenue_impact: revenue,
        dependencies: deps.iter().map(|d| d.to_string()).collect(),
    }
}

fn release(id: &str, projected: i64, budget: i64, marketing: i64, deps: &[&str]) -> TimelineRelease {
    TimelineRelease {
        id: id.to_string(),
        release_type: "single".to_string(),
        release_date: "2024-05-01".to_string(),
        budget,
        projected_revenue: projected,
        platforms: vec!["spotify".to_string()],
        marketing_spend: marketing,
        dependencies: deps.iter().map(|d| d.to_string()).collect(),
    }
}

fn show(id: &str, revenue: i64, expenses: i64) -> TimelineShow {
    TimelineShow {
        id: id.to_string(),
        date: "2024-07-01".to_string(),
        revenue,
        expenses,
        status: "booked".to_string(),
        venue_capacity: 500,
        expected_attendance: 400,
    }
}

fn change(kind: ChangeKind, entity: EntityKind, id: &str, date: Option<&str>) -> TimelineChange {
    TimelineChange {
        change_type: kind,
        entity_type: entity,
        entity_id: id.to_string(),
        new_date: date.map(|d| d.to_string()),
        new_status: None,
        new_completion: None,
    }
}

fn loaded(data: TimelineData) -> TimelineSimulator {
    let mut sim = TimelineSimulator::new();
    assert!(sim.load_timeline_data(data).is_ok());
    sim
}

fn data(tasks: Vec<TimelineTask>, releases: Vec<TimelineRelease>, shows: Vec<TimelineShow>) -> TimelineData {
    TimelineData { tasks, releases, shows }
}

#[test]
fn cancel_task_end_to_end() {
    let sim = loaded(data(
        vec![task("T1", 1000, 200, &[]), task("T2", 0, 0, &["T1"])],
        vec![],
        vec![],
    ));
    let r = sim
        .simulate_timeline_change(&change(ChangeKind::Cancel, EntityKind::Task, "T1", None))
        .unwrap();
    assert_eq!(r.financial_impact, -120000);
    assert_eq!(r.affected_entities, vec!["task:T2".to_string()]);
    assert_eq!(r.risk_score, 85);
    assert_eq!(r.revenue_change, 0);
    assert_eq!(r.expense_change, 120000);
    assert_eq!(
        r.cascade_effects,
        vec![
            "Resource reallocation required".to_string(),
            "Budget impact on dependent items".to_string()
        ]
    );
    assert!(r.new_deadlines.is_empty());
    assert_eq!(r.critical_path, vec!["T2".to_string()]);
}

#[test]
fn delay_release_without_dependents() {
    let sim = loaded(data(vec![], vec![release("R1", 5000, 1000, 500, &[])], vec![]));
    let r = sim
        .simulate_timeline_change(&change(
            ChangeKind::Delay,
            EntityKind::Release,
            "R1",
            Some("2024-03-01"),
        ))
        .unwrap();
    assert_eq!(r.financial_impact, -100000);
    assert!(r.new_deadlines.is_empty());
    assert!(r.affected_entities.is_empty());
    assert_eq!(r.risk_score, 40);
    assert_eq!(
        r.cascade_effects,
        vec!["Timeline compression for dependent items".to_string()]
    );
}

#[test]
fn simulate_before_load_is_not_loaded() {
    let sim = TimelineSimulator::new();
    for kind in [ChangeKind::Delay, ChangeKind::Cancel, ChangeKind::Complete, ChangeKind::Other] {
        let r = sim.simulate_timeline_change(&change(kind, EntityKind::Task, "missing", None));
        assert_eq!(r.err(), Some(SimError::NotLoaded));
    }
    assert_eq!(sim.get_timeline_metrics().err(), Some(SimError::NotLoaded));
}

#[test]
fn only_direct_dependents_are_affected() {
    let sim = loaded(data(
        vec![task("A", 0, 0, &[]), task("B", 0, 0, &["A"]), task("C", 0, 0, &["B"])],
        vec![],
        vec![],
    ));
    let r = sim
        .simulate_timeline_change(&change(ChangeKind::Delay, EntityKind::Task, "A", Some("2024-09-09")))
        .unwrap();
    assert_eq!(r.affected_entities, vec!["task:B".to_string()]);
    assert_eq!(r.new_deadlines, vec![("task:B".to_string(), "2024-09-09".to_string())]);
    assert_eq!(r.risk_score, 45);
    assert_eq!(
        r.cascade_effects,
        vec![
            "Timeline compression for dependent items".to_string(),
            "1 dependent items require rescheduling".to_string()
        ]
    );
}

#[test]
fn dependents_listed_tasks_then_releases() {
    let sim = loaded(data(
        vec![task("T9", 0, 0, &["X"]), task("T1", 0, 0, &["Y", "X"])],
        vec![release("R1", 0, 0, 0, &["X"]), release("R2", 0, 0, 0, &["Y"])],
        vec![show("X", 100, 10)],
    ));
    let r = sim
        .simulate_timeline_change(&change(ChangeKind::Delay, EntityKind::Show, "X", Some("2025-01-01")))
        .unwrap();
    assert_eq!(
        r.affected_entities,
        vec!["task:T9".to_string(), "task:T1".to_string(), "release:R1".to_string()]
    );
    assert_eq!(r.new_deadlines.len(), 3);
    assert_eq!(r.new_deadlines[2], ("release:R1".to_string(), "2025-01-01".to_string()));
    assert_eq!(r.financial_impact, -1500);
    assert_eq!(r.risk_score, 55);
}

#[test]
fn delay_without_date_assigns_no_deadlines() {
    let sim = loaded(data(vec![task("A", 0, 0, &[]), task("B", 0, 0, &["A"])], vec![], vec![]));
    let r = sim
        .simulate_timeline_change(&change(ChangeKind::Delay, EntityKind::Task, "A", None))
        .unwrap();
    assert!(r.new_deadlines.is_empty());
    let r = sim
        .simulate_timeline_change(&change(ChangeKind::Cancel, EntityKind::Task, "A", Some("2024-02-02")))
        .unwrap();
    assert!(r.new_deadlines.is_empty());
}

#[test]
fn impact_table_for_tasks() {
    let d = data(vec![task("T", 1000, 300, &[])], vec![], vec![]);
    let at = |k| calculate_financial_impact(&change(k, EntityKind::Task, "T", None), &d);
    assert_eq!(at(ChangeKind::Delay), Ok(-10000));
    assert_eq!(at(ChangeKind::Complete), Ok(100000));
    assert_eq!(at(ChangeKind::Cancel), Ok(-130000));
    assert_eq!(at(ChangeKind::Reschedule), Ok(0));
    assert_eq!(at(ChangeKind::Other), Ok(0));
}

#[test]
fn impact_table_for_releases() {
    let d = data(vec![], vec![release("R", 5000, 1000, 500, &[])], vec![]);
    let at = |k| calculate_financial_impact(&change(k, EntityKind::Release, "R", None), &d);
    assert_eq!(at(ChangeKind::Delay), Ok(-100000));
    assert_eq!(at(ChangeKind::Complete), Ok(350000));
    assert_eq!(at(ChangeKind::Cancel), Ok(-150000));
    assert_eq!(at(ChangeKind::Reschedule), Ok(0));
}

#[test]
fn impact_table_for_shows() {
    let d = data(vec![], vec![], vec![show("S", 1000, 400)]);
    let at = |k| calculate_financial_impact(&change(k, EntityKind::Show, "S", None), &d);
    assert_eq!(at(ChangeKind::Delay), Ok(-15000));
    assert_eq!(at(ChangeKind::Cancel), Ok(-80000));
    assert_eq!(at(ChangeKind::Complete), Ok(0));
    assert_eq!(at(ChangeKind::Reschedule), Ok(0));
}

#[test]
fn impact_of_unknown_entity_kind_is_zero() {
    let d = data(vec![], vec![], vec![]);
    let r = calculate_financial_impact(&change(ChangeKind::Cancel, EntityKind::Other, "Z", None), &d);
    assert_eq!(r, Ok(0));
}

#[test]
fn missing_target_is_entity_not_found() {
    let sim = loaded(data(
        vec![task("T1", 1, 1, &[])],
        vec![release("R1", 1, 1, 1, &[])],
        vec![show("S1", 1, 1)],
    ));
    let r = sim.simulate_timeline_change(&change(ChangeKind::Delay, EntityKind::Task, "R1", None));
    assert_eq!(r.err(), Some(SimError::EntityNotFound(EntityKind::Task)));
    let r = sim.simulate_timeline_change(&change(ChangeKind::Delay, EntityKind::Release, "T1", None));
    assert_eq!(r.err(), Some(SimError::EntityNotFound(EntityKind::Release)));
    let r = sim.simulate_timeline_change(&change(ChangeKind::Delay, EntityKind::Show, "nope", None));
    assert_eq!(r.err(), Some(SimError::EntityNotFound(EntityKind::Show)));
}

#[test]
fn impact_is_repeatable() {
    let sim = loaded(data(
        vec![task("T1", 777, 33, &[]), task("T2", 5, 5, &["T1"])],
        vec![],
        vec![],
    ));
    let c = change(ChangeKind::Delay, EntityKind::Task, "T1", Some("2024-04-04"));
    let a = sim.simulate_timeline_change(&c).unwrap();
    let b = sim.simulate_timeline_change(&c).unwrap();
    assert_eq!(a.financial_impact, b.financial_impact);
    assert_eq!(a.financial_impact, -7770);
    assert_eq!(a.affected_entities, b.affected_entities);
    assert_eq!(a.risk_score, b.risk_score);
}

#[test]
fn complete_gains_revenue() {
    let sim = loaded(data(vec![task("T1", 250, 10, &[])], vec![], vec![]));
    let r = sim
        .simulate_timeline_change(&change(ChangeKind::Complete, EntityKind::Task, "T1", None))
        .unwrap();
    assert_eq!(r.financial_impact, 25000);
    assert_eq!(r.revenue_change, 25000);
    assert_eq!(r.expense_change, 0);
    assert_eq!(r.risk_score, 0);
    assert_eq!(
        r.cascade_effects,
        vec!["Accelerated timeline for dependent items".to_string()]
    );
}

#[test]
fn risk_examples_and_clamp() {
    assert_eq!(calculate_risk_score(ChangeKind::Cancel, 0), 80);
    assert_eq!(calculate_risk_score(ChangeKind::Cancel, 5), 100);
    assert_eq!(calculate_risk_score(ChangeKind::Delay, 0), 40);
    assert_eq!(calculate_risk_score(ChangeKind::Delay, 12), 100);
    assert_eq!(calculate_risk_score(ChangeKind::Complete, 3), 15);
    assert_eq!(calculate_risk_score(ChangeKind::Reschedule, 1), 25);
    assert_eq!(calculate_risk_score(ChangeKind::Other, 0), 20);
    assert_eq!(calculate_risk_score(ChangeKind::Other, usize::MAX), 100);
}

#[test]
fn risk_never_falls_with_more_affected() {
    for kind in [
        ChangeKind::Delay,
        ChangeKind::Complete,
        ChangeKind::Reschedule,
        ChangeKind::Cancel,
        ChangeKind::Other,
    ] {
        let mut prev = calculate_risk_score(kind, 0);
        for n in 1..40usize {
            let r = calculate_risk_score(kind, n);
            assert!(r >= prev);
            assert!(r <= 100);
            prev = r;
        }
    }
}

#[test]
fn critical_path_selection() {
    let d = data(
        vec![
            task("low", 500, 0, &[]),
            task("blocked", 0, 0, &["x"]),
            task("big", 1001, 0, &[]),
            task("edge", 1000, 0, &[]),
            task("alpha", 5000, 0, &["y"]),
        ],
        vec![release("R", 9999, 0, 0, &["x"])],
        vec![],
    );
    let r = find_critical_path(&d);
    assert_eq!(
        r,
        vec!["alpha".to_string(), "big".to_string(), "blocked".to_string()]
    );
}

#[test]
fn critical_path_sorted_without_duplicates() {
    let d = data(
        vec![
            task("T3", 2000, 0, &[]),
            task("T1", 0, 0, &["T3"]),
            task("T10", 0, 0, &["T1"]),
            task("T2", 3000, 0, &[]),
        ],
        vec![],
        vec![],
    );
    let r = find_critical_path(&d);
    assert_eq!(
        r,
        vec!["T1".to_string(), "T10".to_string(), "T2".to_string(), "T3".to_string()]
    );
    for w in r.windows(2) {
        assert!(w[0] < w[1]);
    }
}

#[test]
fn cascade_sentences() {
    assert_eq!(
        generate_cascade_effects(ChangeKind::Delay, 12),
        vec![
            "Timeline compression for dependent items".to_string(),
            "12 dependent items require rescheduling".to_string()
        ]
    );
    assert!(generate_cascade_effects(ChangeKind::Reschedule, 4).is_empty());
    assert!(generate_cascade_effects(ChangeKind::Other, 0).is_empty());
}

#[test]
fn empty_dataset_metrics_are_zero() {
    let sim = loaded(data(vec![], vec![], vec![]));
    let m = sim.get_timeline_metrics().unwrap();
    assert_eq!(m.total_tasks, 0);
    assert_eq!(m.completion_rate, 0);
    assert_eq!(m.efficiency_score, 0);
    assert_eq!(m.net_impact, 0);
    assert_eq!(m.overdue_tasks, 0);
}

#[test]
fn metrics_counts_rates_and_sums() {
    let mut done = task("T1", 100, 10, &[]);
    done.status = "completed".to_string();
    done.deadline = "2023-01-01".to_string();
    let mut late = task("T2", 200, 20, &[]);
    late.deadline = "2023-12-31".to_string();
    let mut shipped = release("R1", 1000, 100, 50, &[]);
    shipped.release_type = "released".to_string();
    let d = data(
        vec![done, late, task("T3", 0, 0, &[]), task("T4", -50, 5, &[])],
        vec![shipped, release("R2", 10, 1, 1, &[])],
        vec![show("S1", 300, 120)],
    );
    let m = timeline_metrics(&d, REFERENCE_DATE);
    assert_eq!(m.total_tasks, 4);
    assert_eq!(m.completed_tasks, 1);
    assert_eq!(m.overdue_tasks, 1);
    assert_eq!(m.completion_rate, 2500);
    assert_eq!(m.efficiency_score, 4500);
    assert_eq!(m.total_releases, 2);
    assert_eq!(m.released_count, 1);
    assert_eq!(m.total_revenue_impact, 250 + 1010 + 300);
    assert_eq!(m.total_cost_impact, 35 + 152 + 120);
    assert_eq!(m.net_impact, 1560 - 307);
    let later = timeline_metrics(&d, "2030-01-01");
    assert_eq!(later.overdue_tasks, 3);
}

#[test]
fn reload_replaces_dataset() {
    let mut sim = loaded(data(vec![task("T1", 1, 1, &[])], vec![], vec![]));
    assert!(sim.load_timeline_data(data(vec![], vec![], vec![show("S1", 10, 0)])).is_ok());
    let r = sim.simulate_timeline_change(&change(ChangeKind::Delay, EntityKind::Task, "T1", None));
    assert_eq!(r.err(), Some(SimError::EntityNotFound(EntityKind::Task)));
    assert_eq!(sim.get_timeline_metrics().unwrap().total_revenue_impact, 10);
}

#[test]
fn kind_names() {
    assert_eq!(ChangeKind::from_name("delay"), ChangeKind::Delay);
    assert_eq!(ChangeKind::from_name("complete"), ChangeKind::Complete);
    assert_eq!(ChangeKind::from_name("reschedule"), ChangeKind::Reschedule);
    assert_eq!(ChangeKind::from_name("cancel"), ChangeKind::Cancel);
    assert_eq!(ChangeKind::from_name("Delay"), ChangeKind::Other);
    assert_eq!(EntityKind::from_name("task"), EntityKind::Task);
    assert_eq!(EntityKind::from_name("release"), EntityKind::Release);
    assert_eq!(EntityKind::from_name("show"), EntityKind::Show);
    assert_eq!(EntityKind::from_name(""), EntityKind::Other);
}

#[test]
fn text_order_and_numerals() {
    assert!(text_less("2023-12-31", "2024-01-15"));
    assert!(!text_less("2024-01-15", "2024-01-15"));
    assert!(text_less("a", "ab"));
    assert!(!text_less("b", "a"));
    assert!(text_eq("same", "same"));
    assert!(!text_eq("same", "sane"));
    assert_eq!(decimal_text(0), "0");
    assert_eq!(decimal_text(907), "907");
}

#[test]
fn duplicate_ids_are_refused_and_previous_data_kept() {
    let mut sim = loaded(data(vec![task("T1", 10, 0, &[])], vec![], vec![]));
    let r = sim.load_timeline_data(data(
        vec![task("A", 0, 0, &[]), task("A", 5, 0, &[])],
        vec![],
        vec![],
    ));
    assert_eq!(r, Err(SimError::DuplicateId(EntityKind::Task)));
    let r = sim.load_timeline_data(data(
        vec![],
        vec![release("R", 0, 0, 0, &[]), release("R", 0, 0, 0, &[])],
        vec![],
    ));
    assert_eq!(r, Err(SimError::DuplicateId(EntityKind::Release)));
    let r = sim.load_timeline_data(data(vec![], vec![], vec![show("S", 1, 1), show("S", 2, 2)]));
    assert_eq!(r, Err(SimError::DuplicateId(EntityKind::Show)));
    let m = sim.get_timeline_metrics().unwrap();
    assert_eq!(m.total_tasks, 1);
    assert_eq!(m.total_revenue_impact, 10);
}

#[test]
fn same_id_in_different_collections_is_accepted() {
    let d = data(
        vec![task("X", 0, 0, &[])],
        vec![release("X", 0, 0, 0, &[])],
        vec![show("X", 0, 0)],
    );
    assert_eq!(d.validate(), Ok(()));
    let mut sim = TimelineSimulator::new();
    assert_eq!(sim.load_timeline_data(d), Ok(()));
}
