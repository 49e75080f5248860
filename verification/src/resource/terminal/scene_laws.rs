//! What a terminal tells its subscribers and its sinks, and in which order.

use super::events::{
    all_marked, ask_finding, command_ends, finding, hook_state, lifecycle_after, marker_view,
    posix_signal, progress_after, reading_at, signal_action, AppliedChunk, DetectOutcome, DetectV,
    MarkerV, OscMark, SceneV, StateSinkV,
};
use crate::ids::ClientId;
use crate::payload::contents;
use crate::resource::base::fanned_out;
use crate::resource::event_laws::law_sinks_keep_events_in_order;
use crate::resource::event_sink::SinkV;
use crate::wire::{
    AgentEvent, ControlAction, ReportedAgentState, TerminalLifecycle, TerminalSignal,
};
use vstd::prelude::*;

verus! {

/// A sink that takes every event.
pub open spec fn takes_all(sink: SinkV, more: nat) -> bool {
    sink.open && sink.queue.len() + more <= sink.capacity
}

/// The scene's sink, with `said` behind what it held.
pub open spec fn said_behind(after: SceneV, before: SceneV, said: Seq<AgentEvent>) -> bool {
    &&& before.sink is Some
    &&& after.sink is Some
    &&& after.sink->Some_0.queue == before.sink->Some_0.queue + said
    &&& after.sink->Some_0.dropped == before.sink->Some_0.dropped
    &&& after.sink->Some_0.open == before.sink->Some_0.open
    &&& after.sink->Some_0.capacity == before.sink->Some_0.capacity
}

/// An event that is told goes to the sink and to the subscribers, and changes
/// nothing else.
pub proof fn law_told_events_reach_sink_and_subscribers(scene: SceneV, event: AgentEvent)
    requires
        scene.sink is Some,
        takes_all(scene.sink->Some_0, 1),
    ensures
        ({
            let after = scene.told(event);
            &&& said_behind(after, scene, seq![event])
            &&& after.boxes == fanned_out(
                scene.boxes,
                scene.core.event_subscribers@,
                scene.core.event_subscribers@.len(),
                scene.core.wire_id,
                event,
            )
            &&& after == (SceneV { sink: after.sink, boxes: after.boxes, ..scene })
            &&& scene.emitted(event).boxes == scene.boxes
            &&& scene.broadcast(event).sink == scene.sink
        }),
{
    law_sinks_keep_events_in_order(scene.sink->Some_0, event);
    let queue = scene.sink->Some_0.queue;
    assert(scene.told(event).sink->Some_0.queue == queue + seq![event]);
}

/// A command that starts is told as such; one that ends is told with its exit
/// code, and then, if the directory moved with it, the new directory. Progress
/// is told to nobody.
pub proof fn law_marks_are_told_in_order(scene: SceneV, mark: OscMark, reading: Option<String>)
    requires
        scene.sink is Some,
        takes_all(scene.sink->Some_0, 2),
    ensures
        ({
            let after = scene.marked(mark, reading);
            let moves = reading is Some && reading->Some_0@ != scene.last_known_cwd@;
            &&& mark is CommandStart ==> said_behind(
                after,
                scene,
                seq![AgentEvent::CommandStarted],
            ) && after.last_known_cwd == scene.last_known_cwd
            &&& mark matches OscMark::CommandEnd { exit_code } ==> (if moves {
                &&& said_behind(
                    after,
                    scene,
                    seq![
                        AgentEvent::CommandFinished { exit_code },
                        AgentEvent::CwdChanged { cwd: reading->Some_0 },
                    ],
                )
                &&& after.last_known_cwd == reading->Some_0
            } else {
                &&& said_behind(after, scene, seq![AgentEvent::CommandFinished { exit_code }])
                &&& after.last_known_cwd == scene.last_known_cwd
            })
            &&& mark is Progress ==> after == scene
        }),
{
    match mark {
        OscMark::CommandStart => {
            law_told_events_reach_sink_and_subscribers(scene, AgentEvent::CommandStarted);
        },
        OscMark::CommandEnd { exit_code } => {
            let ended = AgentEvent::CommandFinished { exit_code };
            law_told_events_reach_sink_and_subscribers(scene, ended);
            let mid = scene.told(ended);
            if reading is Some && reading->Some_0@ != scene.last_known_cwd@ {
                let moved = AgentEvent::CwdChanged { cwd: reading->Some_0 };
                let there = SceneV { last_known_cwd: reading->Some_0, ..mid };
                law_told_events_reach_sink_and_subscribers(there, moved);
                assert(scene.sink->Some_0.queue + seq![ended] + seq![moved]
                    == scene.sink->Some_0.queue + seq![ended, moved]);
            }
        },
        OscMark::Progress(_) => {},
    }
}

/// A directory is told once: the same reading again says nothing.
pub proof fn law_a_directory_is_told_once(scene: SceneV, cwd: String)
    ensures
        ({
            let after = scene.cwd_checked(Some(cwd));
            &&& after.last_known_cwd@ == cwd@
            &&& after.cwd_checked(Some(cwd)) == after
            &&& scene.cwd_checked(None) == scene
            &&& cwd@ == scene.last_known_cwd@ ==> after == scene
        }),
{
}

proof fn lemma_ends_append(marks: Seq<OscMark>, more: Seq<OscMark>, n: nat)
    requires
        n <= marks.len(),
    ensures
        command_ends(marks + more, n) == command_ends(marks, n),
    decreases n,
{
    if n > 0 {
        lemma_ends_append(marks, more, (n - 1) as nat);
        assert((marks + more)[n - 1] == marks[n - 1]);
    }
}

proof fn lemma_marked_append(
    scene: SceneV,
    marks: Seq<OscMark>,
    last: OscMark,
    n: nat,
    cwds: Seq<Option<String>>,
)
    requires
        n <= marks.len(),
    ensures
        all_marked(scene, marks.push(last), n, cwds) == all_marked(scene, marks, n, cwds),
    decreases n,
{
    if n > 0 {
        lemma_marked_append(scene, marks, last, (n - 1) as nat, cwds);
        assert(marks.push(last)[n - 1] == marks[n - 1]);
        assert(marks.push(last) == marks + seq![last]);
        lemma_ends_append(marks, seq![last], (n - 1) as nat);
    }
}

/// The marks of a chunk are told in the order in which they came: one more mark
/// is told after all that came before it, and each command that ends is given
/// the directory that was read for it.
pub proof fn law_marks_follow_each_other(
    scene: SceneV,
    marks: Seq<OscMark>,
    last: OscMark,
    cwds: Seq<Option<String>>,
    ends: nat,
)
    requires
        ends == command_ends(marks, marks.len()),
    ensures
        all_marked(scene, marks.push(last), marks.len() + 1, cwds) == all_marked(
            scene,
            marks,
            marks.len(),
            cwds,
        ).marked(
            last,
            (if ends < cwds.len() {
                cwds[ends as int]
            } else {
                None
            }),
        ),
        all_marked(scene, Seq::<OscMark>::empty(), 0, cwds) == scene,
        command_ends(marks.push(last), marks.len() + 1) == (if last is CommandEnd {
            ends + 1
        } else {
            ends
        }),
        command_ends(Seq::<OscMark>::empty(), 0) == 0,
{
    lemma_marked_append(scene, marks, last, marks.len(), cwds);
    assert(marks.push(last)[marks.len() as int] == last);
    assert(marks.push(last) == marks + seq![last]);
    lemma_ends_append(marks, seq![last], marks.len());
    assert(reading_at(marks.push(last), marks.len() as int, cwds) == (if ends < cwds.len() {
        cwds[ends as int]
    } else {
        None
    }));
}

proof fn lemma_progress(progress: String, marks: Seq<OscMark>, n: nat, i: int)
    requires
        n <= marks.len(),
    ensures
        0 <= i < n && marks[i] is Progress && (forall|j: int|
            i < j < n ==> !(#[trigger] marks[j] is Progress)) ==> progress_after(progress, marks, n)
            == marks[i]->Progress_0,
        (forall|j: int| 0 <= j < n ==> !(#[trigger] marks[j] is Progress)) ==> progress_after(
            progress,
            marks,
            n,
        ) == progress,
    decreases n,
{
    if n > 0 {
        lemma_progress(progress, marks, (n - 1) as nat, i);
    }
}

/// The newest progress report counts: that of the last mark that reports any, and
/// the one before where none does. So does the newest title.
pub proof fn law_the_newest_progress_and_title_count(
    scene: SceneV,
    chunk: Seq<u8>,
    title: String,
    marks: Seq<OscMark>,
    cwds: Seq<Option<String>>,
    ask: Option<MarkerV>,
    i: int,
)
    ensures
        ({
            let after = scene.chunk(chunk, title, marks, cwds, ask);
            &&& after.last_title@ == title@
            &&& 0 <= i < marks.len() && marks[i] is Progress && (forall|j: int|
                i < j < marks.len() ==> !(#[trigger] marks[j] is Progress))
                ==> after.last_progress == marks[i]->Progress_0
            &&& (forall|j: int| 0 <= j < marks.len() ==> !(#[trigger] marks[j] is Progress))
                ==> after.last_progress == scene.last_progress
        }),
{
    lemma_progress(scene.last_progress, marks, marks.len(), i);
    let seen = SceneV {
        last_title: if title@ != scene.last_title@ {
            title
        } else {
            scene.last_title
        },
        last_progress: progress_after(scene.last_progress, marks, marks.len()),
        output_since_idle_tick: true,
        ..scene
    };
    lemma_marks_keep(seen, marks, marks.len(), cwds);
    let marked = all_marked(seen, marks, marks.len(), cwds);
    lemma_sounded_keeps(marked, chunk, title@ != scene.last_title@, title, ask);
}

proof fn lemma_marks_keep(
    scene: SceneV,
    marks: Seq<OscMark>,
    n: nat,
    cwds: Seq<Option<String>>,
)
    ensures
        ({
            let after = all_marked(scene, marks, n, cwds);
            &&& after.last_title == scene.last_title
            &&& after.last_progress == scene.last_progress
            &&& after.in_output_burst == scene.in_output_burst
            &&& after.dirty_told == scene.dirty_told
            &&& after.output_since_idle_tick == scene.output_since_idle_tick
            &&& after.sink is Some <==> scene.sink is Some
            &&& after.state_sink == scene.state_sink
            &&& after.last_ask == scene.last_ask
            &&& after.ask_retry_owed == scene.ask_retry_owed
            &&& after.core == scene.core
            &&& after.lifecycle == scene.lifecycle
        }),
    decreases n,
{
    if 0 < n <= marks.len() {
        lemma_marks_keep(scene, marks, (n - 1) as nat, cwds);
    }
}

/// A chunk that someone follows starts a burst, or goes on with one, and keeps
/// the idle tick away.
pub proof fn law_output_starts_a_burst(
    scene: SceneV,
    chunk: Seq<u8>,
    title: String,
    marks: Seq<OscMark>,
    cwds: Seq<Option<String>>,
    ask: Option<MarkerV>,
)
    requires
        scene.sink is Some || scene.core.event_subscribers@.len() > 0,
    ensures
        ({
            let after = scene.chunk(chunk, title, marks, cwds, ask);
            &&& after.in_output_burst
            &&& after.output_since_idle_tick
            &&& after.core == scene.core
            &&& after.lifecycle == scene.lifecycle
            &&& !scene.in_output_burst ==> after.dirty_told
        }),
{
    let seen = SceneV {
        last_title: if title@ != scene.last_title@ {
            title
        } else {
            scene.last_title
        },
        last_progress: progress_after(scene.last_progress, marks, marks.len()),
        output_since_idle_tick: true,
        ..scene
    };
    lemma_marks_keep(seen, marks, marks.len(), cwds);
    let marked = all_marked(seen, marks, marks.len(), cwds);
    lemma_sounded_keeps(marked, chunk, title@ != scene.last_title@, title, ask);
}

proof fn lemma_sounded_keeps(
    scene: SceneV,
    chunk: Seq<u8>,
    title_changed: bool,
    title: String,
    ask: Option<MarkerV>,
)
    ensures
        ({
            let after = scene.sounded(chunk, title_changed, title, ask);
            &&& after.in_output_burst == scene.in_output_burst
            &&& after.dirty_told == scene.dirty_told
            &&& after.output_since_idle_tick == scene.output_since_idle_tick
            &&& after.core == scene.core
            &&& after.lifecycle == scene.lifecycle
            &&& after.last_title == scene.last_title
            &&& after.last_progress == scene.last_progress
        }),
{
}

/// A chunk without marks tells, in this order: a bell if it rang, the title if it
/// changed, and that the grid moved if a burst began.
pub proof fn law_a_plain_chunk_is_told_in_order(
    scene: SceneV,
    chunk: Seq<u8>,
    title: String,
    ask: Option<MarkerV>,
)
    requires
        scene.sink is Some,
        takes_all(scene.sink->Some_0, 3),
    ensures
        ({
            let after = scene.chunk(
                chunk,
                title,
                Seq::<OscMark>::empty(),
                Seq::<Option<String>>::empty(),
                ask,
            );
            let rang = if exists|i: int| 0 <= i < chunk.len() && chunk[i] == 7 {
                seq![AgentEvent::Bell]
            } else {
                Seq::<AgentEvent>::empty()
            };
            let titled = if title@ != scene.last_title@ {
                seq![AgentEvent::TitleChanged { title }]
            } else {
                Seq::<AgentEvent>::empty()
            };
            let began = if scene.in_output_burst {
                Seq::<AgentEvent>::empty()
            } else {
                seq![AgentEvent::Dirty]
            };
            said_behind(after, scene, rang + titled + began)
        }),
{
    let seen = SceneV {
        last_title: if title@ != scene.last_title@ {
            title
        } else {
            scene.last_title
        },
        last_progress: progress_after(
            scene.last_progress,
            Seq::<OscMark>::empty(),
            Seq::<OscMark>::empty().len(),
        ),
        output_since_idle_tick: true,
        ..scene
    };
    let queue = scene.sink->Some_0.queue;
    law_sinks_keep_events_in_order(scene.sink->Some_0, AgentEvent::Bell);
    let rung = if chunk.contains(7) {
        seen.emitted(AgentEvent::Bell)
    } else {
        seen
    };
    let rang = if exists|i: int| 0 <= i < chunk.len() && chunk[i] == 7 {
        seq![AgentEvent::Bell]
    } else {
        Seq::<AgentEvent>::empty()
    };
    assert(chunk.contains(7) == exists|i: int| 0 <= i < chunk.len() && chunk[i] == 7);
    assert(rung.sink->Some_0.queue == queue + rang);
    let event = AgentEvent::TitleChanged { title };
    law_sinks_keep_events_in_order(rung.sink->Some_0, event);
    let named = if title@ != scene.last_title@ {
        rung.emitted(event)
    } else {
        rung
    };
    let titled = if title@ != scene.last_title@ {
        seq![event]
    } else {
        Seq::<AgentEvent>::empty()
    };
    assert(named.sink->Some_0.queue == queue + (rang + titled));
    let asked = seen.sounded(chunk, title@ != scene.last_title@, title, ask);
    assert(asked.sink == named.sink);
    law_sinks_keep_events_in_order(asked.sink->Some_0, AgentEvent::Dirty);
    let began = if scene.in_output_burst {
        Seq::<AgentEvent>::empty()
    } else {
        seq![AgentEvent::Dirty]
    };
    let after = asked.burst_begun();
    assert(after.sink->Some_0.queue == queue + (rang + titled + began));
}

proof fn lemma_applied_append(
    scene: SceneV,
    chunks: Seq<AppliedChunk>,
    last: AppliedChunk,
    n: nat,
)
    requires
        n <= chunks.len(),
    ensures
        scene.all_applied(chunks.push(last), n) == scene.all_applied(chunks, n),
    decreases n,
{
    if n > 0 {
        lemma_applied_append(scene, chunks, last, (n - 1) as nat);
        assert(chunks.push(last)[n - 1] == chunks[n - 1]);
    }
}

/// Output that was held back is sourced chunk by chunk, in its order, and leaves
/// the screen to be looked at again; where none was held back nothing changes.
pub proof fn law_held_output_is_sourced_in_order(
    scene: SceneV,
    chunks: Seq<AppliedChunk>,
    last: AppliedChunk,
)
    ensures
        ({
            let after = scene.replayed(chunks.push(last));
            let mid = scene.all_applied(chunks, chunks.len());
            let one = mid.chunk(
                contents(last.bytes),
                last.title,
                last.marks@,
                last.cwds@,
                marker_view(last.ask),
            );
            &&& after == (SceneV { agent_dirty: true, terminal_dirty: true, ..one })
            &&& scene.all_applied(Seq::<AppliedChunk>::empty(), 0) == scene
            &&& scene.replayed(Seq::<AppliedChunk>::empty()) == scene
        }),
{
    lemma_applied_append(scene, chunks, last, chunks.len());
    assert(chunks.push(last)[chunks.len() as int] == last);
}

/// A burst that went quiet is told as idle, and the next output begins another:
/// a tick without output in between ends the burst, once.
pub proof fn law_quiet_bursts_are_told(scene: SceneV, reading: Option<String>)
    requires
        scene.sink is Some,
        takes_all(scene.sink->Some_0, 2),
    ensures
        ({
            let after = scene.ticked(reading);
            let moves = reading is Some && reading->Some_0@ != scene.last_known_cwd@;
            &&& !after.output_since_idle_tick
            &&& scene.in_output_burst && !scene.output_since_idle_tick ==> {
                &&& !after.in_output_burst
                &&& !after.dirty_told
                &&& said_behind(
                    after,
                    scene,
                    (if moves {
                        seq![AgentEvent::Idle, AgentEvent::CwdChanged { cwd: reading->Some_0 }]
                    } else {
                        seq![AgentEvent::Idle]
                    }),
                )
            }
            &&& !scene.in_output_burst || scene.output_since_idle_tick ==> after.sink == scene.sink
                && after.boxes == scene.boxes && after.in_output_burst == scene.in_output_burst
        }),
{
    if scene.in_output_burst && !scene.output_since_idle_tick {
        let quiet = SceneV {
            output_since_idle_tick: false,
            in_output_burst: false,
            dirty_told: false,
            ..scene
        };
        law_told_events_reach_sink_and_subscribers(quiet, AgentEvent::Idle);
        let mid = quiet.told(AgentEvent::Idle);
        if reading is Some && reading->Some_0@ != scene.last_known_cwd@ {
            let moved = AgentEvent::CwdChanged { cwd: reading->Some_0 };
            law_told_events_reach_sink_and_subscribers(
                SceneV { last_known_cwd: reading->Some_0, ..mid },
                moved,
            );
            assert(scene.sink->Some_0.queue + seq![AgentEvent::Idle] + seq![moved]
                == scene.sink->Some_0.queue + seq![AgentEvent::Idle, moved]);
        }
    }
}

/// What supervision did is told to the subscribers with what was done, by whom,
/// who holds the input now, and whether the terminal runs; the sink is not told.
pub proof fn law_supervision_is_told_as_it_happened(
    scene: SceneV,
    action: ControlAction,
    input_holder: Option<ClientId>,
    actor: Option<ClientId>,
    exit_status: Option<i32>,
    event: AgentEvent,
)
    requires
        event matches AgentEvent::TerminalControl {
            lifecycle,
            exit_status: status,
            input_holder: holder,
            action: done,
            actor: by,
        } && lifecycle == scene.lifecycle && status == exit_status && holder == input_holder && done
            == action && by == actor,
    ensures
        ({
            let after = scene.controlled(action, input_holder, actor, exit_status);
            &&& after.sink == scene.sink
            &&& after.boxes == fanned_out(
                scene.boxes,
                scene.core.event_subscribers@,
                scene.core.event_subscribers@.len(),
                scene.core.wire_id,
                event,
            )
            &&& after == (SceneV { boxes: after.boxes, ..scene })
        }),
{
}

/// Each request has its own signal and its own report: no two are mixed up, and
/// only the brake and its release change whether the terminal runs.
pub proof fn law_signals_are_told_apart(
    signal: TerminalSignal,
    other: TerminalSignal,
    before: TerminalLifecycle,
)
    ensures
        posix_signal(signal) == posix_signal(other) ==> signal == other,
        signal_action(signal) == signal_action(other) ==> signal == other,
        signal is Interrupt <==> posix_signal(signal) is Int,
        signal is Freeze <==> posix_signal(signal) is Stop,
        signal is Resume <==> posix_signal(signal) is Cont,
        signal is Terminate <==> posix_signal(signal) is Term,
        signal is Kill <==> posix_signal(signal) is Kill,
        signal is Interrupt <==> signal_action(signal) is Interrupted,
        signal is Freeze <==> signal_action(signal) is Frozen,
        signal is Resume <==> signal_action(signal) is Resumed,
        signal is Terminate <==> signal_action(signal) is Terminated,
        signal is Kill <==> signal_action(signal) is Killed,
        lifecycle_after(signal, before) != before ==> (signal is Freeze && before is Running) || (
        signal is Resume && before is Frozen),
        signal is Freeze ==> lifecycle_after(signal, before) is Frozen,
        signal is Resume ==> lifecycle_after(signal, before) is Running,
{
}

/// A hook's state and a detector's verdict come through as what they are.
pub proof fn law_states_and_verdicts_are_told_apart(
    state: ReportedAgentState,
    outcome: DetectOutcome,
)
    ensures
        state is Working <==> hook_state(state) is Working,
        state is Blocked <==> hook_state(state) is Blocked,
        state is Done <==> hook_state(state) is Done,
        finding(outcome) is None <==> outcome is Quiet,
        outcome is Retract <==> finding(outcome) == Some(DetectV::Retract),
        outcome matches DetectOutcome::Publish(report) ==> finding(outcome) == Some(
            DetectV::State(report@),
        ),
        outcome matches DetectOutcome::Reidentified { kind, name } ==> (
        finding(outcome) matches Some(DetectV::Reidentified { kind: a, name: b }) && a == kind@ && b
            == name@),
{
}

/// A finding is queued behind those that wait where there is room, and lost where
/// there is none; a scene without a sink loses nothing else by it.
pub proof fn law_findings_are_queued_in_order(scene: SceneV, event: DetectV, sink: StateSinkV)
    requires
        scene.state_sink == Some(sink),
    ensures
        ({
            let after = scene.found(event);
            let now = after.state_sink->Some_0;
            &&& after.state_sink is Some
            &&& sink.open && sink.queue.len() < sink.capacity ==> now.queue.len()
                == sink.queue.len() + 1 && sink.queue.is_prefix_of(now.queue) && now.queue.last()
                == event
            &&& !(sink.open && sink.queue.len() < sink.capacity) ==> now.queue == sink.queue
            &&& now.open == sink.open
            &&& now.capacity == sink.capacity
            &&& after == (SceneV { state_sink: after.state_sink, ..scene })
            &&& scene.takes_findings() <==> sink.open && sink.queue.len() < sink.capacity
        }),
{
}

/// A question that the title shows is reported as it stands, and that it is gone
/// is reported too.
pub proof fn law_questions_are_reported_as_they_stand(ask: Option<MarkerV>, other: Option<MarkerV>)
    ensures
        ask is None <==> ask_finding(ask) == DetectV::AskSentinel(None),
        ask matches Some(marker) ==> (ask_finding(ask) matches DetectV::AskSentinel(
            Some((said, elapsed)),
        ) && said == marker && elapsed is None),
        ask_finding(ask) == ask_finding(other) ==> ask == other,
{
}

/// The title is searched for a question when it changed, and again while an
/// earlier finding could not be delivered; otherwise nothing is found.
pub proof fn law_titles_are_searched_when_they_change(
    scene: SceneV,
    chunk: Seq<u8>,
    title_changed: bool,
    title: String,
    ask: Option<MarkerV>,
)
    ensures
        ({
            let after = scene.sounded(chunk, title_changed, title, ask);
            &&& !title_changed && !scene.ask_retry_owed ==> after.state_sink == scene.state_sink
                && after.last_ask == scene.last_ask && after.ask_retry_owed
                == scene.ask_retry_owed
            &&& (title_changed || scene.ask_retry_owed) && (scene.takes_findings()
                || scene.state_sink is None) ==> after.last_ask == ask && !after.ask_retry_owed
            &&& ask == scene.last_ask ==> after.state_sink == scene.state_sink
        }),
{
}

/// The start of a burst is told to the sink each time, and to the subscribers
/// once until the terminal went quiet.
pub proof fn law_bursts_are_told_to_subscribers_once(scene: SceneV)
    ensures
        scene.in_output_burst ==> scene.burst_begun() == scene,
        !scene.in_output_burst && scene.dirty_told ==> scene.burst_begun().boxes == scene.boxes,
        !scene.in_output_burst && !scene.dirty_told ==> scene.burst_begun().boxes == fanned_out(
            scene.boxes,
            scene.core.event_subscribers@,
            scene.core.event_subscribers@.len(),
            scene.core.wire_id,
            AgentEvent::Dirty,
        ) && scene.burst_begun().dirty_told,
        !scene.in_output_burst ==> scene.burst_begun().sink == scene.emitted(AgentEvent::Dirty).sink,
{
}

} // verus!
