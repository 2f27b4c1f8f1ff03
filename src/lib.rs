//! Timeline change simulation for live-event operations.
//!
//! A dataset of tasks, releases and shows is loaded into a
//! [`simulator::TimelineSimulator`]; a proposed change to one entity is then
//! simulated without touching the dataset: its financial impact, the
//! entities that depend on it directly, their new deadlines, a bounded risk
//! score, a heuristic critical path and a short narration. Aggregate
//! statistics of the dataset are available as well.
//!
//! Amounts are integers: dataset amounts in whole currency units, simulated
//! deltas in hundredths of a unit, so that every percentage is exact.
pub mod text;
pub mod model;
pub mod rules;
pub mod metrics;
pub mod simulator;
