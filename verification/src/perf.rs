//! The metrics that a server reports about its own performance.
//!
//! Names are dotted and grouped by stage, so that a report reads as a pipeline:
//! `pty.*` (child output arriving), `echo.*` (input to first output), `input.*`,
//! `tick.*` and `pump.*` (fan-out), `wire.*` (socket writes), `cmd.*` and
//! `attach.*` (control), `consumer.*` (backpressure), and process gauges. They
//! are diagnostic, and no contract of the protocol.

use vstd::prelude::*;

verus! {

/// Echo samples longer than this, in milliseconds, are a program that did not
/// echo, not a slow server.
pub const ECHO_SAMPLE_CEILING: u64 = 2_000;

/// The least time between two warnings of one kind, in milliseconds.
pub const WARN_INTERVAL: u64 = 10_000;

/// What a metric counts in.
#[derive(Debug, Clone, Copy, PartialEq, Eq, Structural)]
pub enum Unit {
    /// Bytes.
    ByteCount,
    /// Microseconds.
    Micros,
    /// A plain count.
    Count,
}

/// How a metric is kept.
#[derive(Debug, Clone, Copy, PartialEq, Eq, Structural)]
pub enum MetricKind {
    /// A distribution.
    Histogram,
    /// A total.
    Counter,
    /// A level, refreshed when a report is taken.
    Gauge,
}

/// One row of the table.
#[derive(Debug, Clone, Copy, PartialEq, Eq)]
pub struct Metric {
    /// The name.
    pub name: &'static str,
    /// What it counts in.
    pub unit: Unit,
    /// How it is kept.
    pub kind: MetricKind,
}

/// The metrics, in the order they are reported.
pub open spec fn metrics() -> Seq<Metric> {
    seq![
        Metric { name: "pty.read.size", unit: Unit::ByteCount, kind: MetricKind::Histogram },
        Metric { name: "pty.read.bytes", unit: Unit::ByteCount, kind: MetricKind::Counter },
        Metric { name: "pty.reader.blocked", unit: Unit::Count, kind: MetricKind::Counter },
        Metric { name: "pty.queue_wait", unit: Unit::Micros, kind: MetricKind::Histogram },
        Metric { name: "pty.burst.bytes", unit: Unit::ByteCount, kind: MetricKind::Histogram },
        Metric { name: "pty.burst.chunks", unit: Unit::Count, kind: MetricKind::Histogram },
        Metric { name: "pty.vt_apply", unit: Unit::Micros, kind: MetricKind::Histogram },
        Metric { name: "echo.server", unit: Unit::Micros, kind: MetricKind::Histogram },
        Metric { name: "input.events", unit: Unit::Count, kind: MetricKind::Counter },
        Metric { name: "input.pty_write", unit: Unit::Micros, kind: MetricKind::Histogram },
        Metric { name: "tick.emit", unit: Unit::Micros, kind: MetricKind::Histogram },
        Metric { name: "tick.synth", unit: Unit::Micros, kind: MetricKind::Histogram },
        Metric { name: "tick.out_bytes", unit: Unit::ByteCount, kind: MetricKind::Histogram },
        Metric { name: "consumer.mailbox_full", unit: Unit::Count, kind: MetricKind::Counter },
        Metric { name: "consumer.reaped", unit: Unit::Count, kind: MetricKind::Counter },
        Metric { name: "consumer.ack_rtt", unit: Unit::Micros, kind: MetricKind::Histogram },
        Metric { name: "pump.frames", unit: Unit::Count, kind: MetricKind::Counter },
        Metric { name: "pump.bytes", unit: Unit::ByteCount, kind: MetricKind::Counter },
        Metric { name: "pump.frame.bytes", unit: Unit::ByteCount, kind: MetricKind::Histogram },
        Metric { name: "pump.lagged", unit: Unit::Count, kind: MetricKind::Counter },
        Metric { name: "pump.gap_resync", unit: Unit::Count, kind: MetricKind::Counter },
        Metric { name: "wire.write", unit: Unit::Micros, kind: MetricKind::Histogram },
        Metric { name: "wire.write.bytes", unit: Unit::ByteCount, kind: MetricKind::Histogram },
        Metric { name: "wire.bytes_out", unit: Unit::ByteCount, kind: MetricKind::Counter },
        Metric { name: "cmd.handle", unit: Unit::Micros, kind: MetricKind::Histogram },
        Metric { name: "attach.handle", unit: Unit::Micros, kind: MetricKind::Histogram },
        Metric { name: "proc.clients", unit: Unit::Count, kind: MetricKind::Gauge },
        Metric { name: "proc.panes", unit: Unit::Count, kind: MetricKind::Gauge },
        Metric { name: "proc.sessions", unit: Unit::Count, kind: MetricKind::Gauge },
    ]
}

/// The metrics, in the order they are reported.
pub fn table() -> (rows: Vec<Metric>)
    ensures
        rows@ == metrics(),
{
    let mut rows: Vec<Metric> = Vec::new();
    rows.push(Metric { name: "pty.read.size", unit: Unit::ByteCount, kind: MetricKind::Histogram });
    rows.push(Metric { name: "pty.read.bytes", unit: Unit::ByteCount, kind: MetricKind::Counter });
    rows.push(Metric { name: "pty.reader.blocked", unit: Unit::Count, kind: MetricKind::Counter });
    rows.push(Metric { name: "pty.queue_wait", unit: Unit::Micros, kind: MetricKind::Histogram });
    rows.push(Metric { name: "pty.burst.bytes", unit: Unit::ByteCount, kind: MetricKind::Histogram });
    rows.push(Metric { name: "pty.burst.chunks", unit: Unit::Count, kind: MetricKind::Histogram });
    rows.push(Metric { name: "pty.vt_apply", unit: Unit::Micros, kind: MetricKind::Histogram });
    rows.push(Metric { name: "echo.server", unit: Unit::Micros, kind: MetricKind::Histogram });
    rows.push(Metric { name: "input.events", unit: Unit::Count, kind: MetricKind::Counter });
    rows.push(Metric { name: "input.pty_write", unit: Unit::Micros, kind: MetricKind::Histogram });
    rows.push(Metric { name: "tick.emit", unit: Unit::Micros, kind: MetricKind::Histogram });
    rows.push(Metric { name: "tick.synth", unit: Unit::Micros, kind: MetricKind::Histogram });
    rows.push(Metric { name: "tick.out_bytes", unit: Unit::ByteCount, kind: MetricKind::Histogram });
    rows.push(Metric { name: "consumer.mailbox_full", unit: Unit::Count, kind: MetricKind::Counter });
    rows.push(Metric { name: "consumer.reaped", unit: Unit::Count, kind: MetricKind::Counter });
    rows.push(Metric { name: "consumer.ack_rtt", unit: Unit::Micros, kind: MetricKind::Histogram });
    rows.push(Metric { name: "pump.frames", unit: Unit::Count, kind: MetricKind::Counter });
    rows.push(Metric { name: "pump.bytes", unit: Unit::ByteCount, kind: MetricKind::Counter });
    rows.push(Metric { name: "pump.frame.bytes", unit: Unit::ByteCount, kind: MetricKind::Histogram });
    rows.push(Metric { name: "pump.lagged", unit: Unit::Count, kind: MetricKind::Counter });
    rows.push(Metric { name: "pump.gap_resync", unit: Unit::Count, kind: MetricKind::Counter });
    rows.push(Metric { name: "wire.write", unit: Unit::Micros, kind: MetricKind::Histogram });
    rows.push(Metric { name: "wire.write.bytes", unit: Unit::ByteCount, kind: MetricKind::Histogram });
    rows.push(Metric { name: "wire.bytes_out", unit: Unit::ByteCount, kind: MetricKind::Counter });
    rows.push(Metric { name: "cmd.handle", unit: Unit::Micros, kind: MetricKind::Histogram });
    rows.push(Metric { name: "attach.handle", unit: Unit::Micros, kind: MetricKind::Histogram });
    rows.push(Metric { name: "proc.clients", unit: Unit::Count, kind: MetricKind::Gauge });
    rows.push(Metric { name: "proc.panes", unit: Unit::Count, kind: MetricKind::Gauge });
    rows.push(Metric { name: "proc.sessions", unit: Unit::Count, kind: MetricKind::Gauge });
    assert(rows@ =~= metrics());
    rows
}

/// When the server started, once that is pinned.
#[derive(Debug, Clone, Copy, PartialEq, Eq, Structural)]
pub struct UptimeEpoch {
    /// The start, in milliseconds of a clock that never steps back.
    pub started_ms: Option<u64>,
}

impl UptimeEpoch {
    /// Nothing is pinned yet.
    pub fn new() -> (epoch: Self)
        ensures
            epoch.started_ms is None,
    {
        UptimeEpoch { started_ms: None }
    }

    /// The start: the time of the first call.
    pub fn started(&mut self, now_ms: u64) -> (started_ms: u64)
        ensures
            started_ms == (match old(self).started_ms {
                Some(started_ms) => started_ms,
                None => now_ms,
            }),
            final(self).started_ms == Some(started_ms),
    {
        match self.started_ms {
            Some(started_ms) => started_ms,
            None => {
                self.started_ms = Some(now_ms);
                now_ms
            },
        }
    }
}

/// Pin the start. Later calls change nothing.
pub fn mark_started(epoch: &mut UptimeEpoch, now_ms: u64)
    ensures
        final(epoch).started_ms == (match old(epoch).started_ms {
            Some(started_ms) => Some(started_ms),
            None => Some(now_ms),
        }),
{
    let _ = epoch.started(now_ms);
}

/// A report: every row of the table with its reading, and what was read of the
/// process.
#[derive(Debug, PartialEq, Eq)]
pub struct PerfReport<R, P> {
    /// Who reports.
    pub role: &'static str,
    /// How long the server has been up, in milliseconds.
    pub uptime_ms: u64,
    /// The rows, in table order.
    pub metrics: Vec<(Metric, R)>,
    /// What was read of the process, where the platform tells.
    pub process: Option<P>,
}

/// Take a report. `readings` holds one reading for each row of the table, in
/// table order; `process` is what was read of the process.
pub fn report<R, P>(
    epoch: &mut UptimeEpoch,
    now_ms: u64,
    readings: Vec<R>,
    process: Option<P>,
) -> (report: PerfReport<R, P>)
    requires
        readings@.len() == metrics().len(),
    ensures
        report.role@ == "server"@,
        final(epoch).started_ms == (match old(epoch).started_ms {
            Some(started_ms) => Some(started_ms),
            None => Some(now_ms),
        }),
        report.uptime_ms == (if now_ms < final(epoch).started_ms->Some_0 {
            0
        } else {
            now_ms - final(epoch).started_ms->Some_0
        }),
        report.process == process,
        report.metrics@.len() == metrics().len(),
        forall|i: int|
            0 <= i < metrics().len() ==> #[trigger] report.metrics@[i] == (
                metrics()[i],
                readings@[i],
            ),
{
    let started_ms: u64 = epoch.started(now_ms);
    let uptime_ms: u64 = now_ms.saturating_sub(started_ms);
    let rows = table();
    let ghost all = readings@;
    let mut left = readings;
    let mut reported: Vec<(Metric, R)> = Vec::new();
    let mut i: usize = 0;
    while i < rows.len()
        invariant
            i <= rows@.len(),
            rows@ == metrics(),
            all.len() == metrics().len(),
            left@ == all.skip(i as int),
            reported@.len() == i,
            forall|j: int| 0 <= j < i ==> #[trigger] reported@[j] == (metrics()[j], all[j]),
        decreases rows@.len() - i,
    {
        assert(left@[0] == all[i as int]);
        let reading = left.remove(0);
        assert(left@ =~= all.skip(i + 1));
        reported.push((rows[i], reading));
        i += 1;
    }
    PerfReport { role: "server", uptime_ms, metrics: reported, process }
}

} // verus!
