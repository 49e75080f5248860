//! The metric table and reports.

use phux_server::clock::{exact_ms, saturated_ms};
use phux_server::perf::{mark_started, report, table, MetricKind, Unit, UptimeEpoch};

#[test]
fn table_names_are_unique_and_dotted() {
    let rows = table();
    let mut names: Vec<&str> = rows.iter().map(|m| m.name).collect();
    let n = names.len();
    names.sort_unstable();
    names.dedup();
    assert_eq!(names.len(), n, "duplicate metric name in TABLE");
    assert!(rows.iter().all(|m| m.name.contains('.')));
}

#[test]
fn report_carries_every_table_row_and_a_server_role() {
    let mut epoch = UptimeEpoch::new();
    mark_started(&mut epoch, 1_000);
    let readings: Vec<u64> = (0..table().len() as u64).collect();
    let r = report(&mut epoch, 1_250, readings, Some(4_096_u64));
    assert_eq!(r.role, "server");
    assert_eq!(r.metrics.len(), table().len());
    assert!(r.process.is_some());
    assert_eq!(r.process, Some(4_096));
    assert_eq!(r.uptime_ms, 250);
    assert_eq!(r.metrics[3].0.name, "pty.queue_wait");
    assert_eq!(r.metrics[3].0.unit, Unit::Micros);
    assert_eq!(r.metrics[3].0.kind, MetricKind::Histogram);
    assert_eq!(r.metrics[3].1, 3);
}

#[test]
fn the_first_start_stands() {
    let mut epoch = UptimeEpoch::new();
    mark_started(&mut epoch, 10);
    mark_started(&mut epoch, 20);
    assert_eq!(epoch.started_ms, Some(10));
    assert_eq!(epoch.started(30), 10);
}

#[test]
fn wall_clock_milliseconds_saturate_or_are_no_answer() {
    assert_eq!(saturated_ms(None), 0);
    assert_eq!(saturated_ms(Some(5)), 5);
    assert_eq!(saturated_ms(Some(u128::MAX)), u64::MAX);
    assert_eq!(exact_ms(None), None);
    assert_eq!(exact_ms(Some(5)), Some(5));
    assert_eq!(exact_ms(Some(u128::MAX)), None);
}
