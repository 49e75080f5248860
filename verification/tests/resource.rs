//! Resources: the shared core, event sinks, terminal events and process facts.

use bytes::Bytes;
use phux_server::ids::{ClientId, TerminalId};
use phux_server::mailbox::{Mailboxes, Outbound};
use phux_server::resource::base::{
    ControlReply, ControlRequest, ResourceCore, ResourceFacetHandle, ResourceHandle,
    SubscribeToEventsRequest, TerminalEventSubscriber, TerminalHandle,
    UnsubscribeFromEventsRequest, WrongResourceKind,
};
use phux_server::resource::event_sink::event_sink;
use phux_server::resource::terminal::events::{
    deliver_signal, AgentDetectEvent, AppliedChunk, AskMarker, AskedPayload, ControlStep, DetectOutcome,
    DetectedState, OccupantFate, OscMark, PosixSignal, SignalPlan, SignalRequest, StateSink,
    TerminalActor,
};
use phux_server::resource::terminal::process_facet::{
    ChildFacts, ChildProcess, ExitOutcome, ForegroundReading, ProcessExit, ProcessIdentity,
};
use phux_server::wire::{
    AgentEvent, ControlAction, FrameKind, ReportedAgentState, ResourceKind, TerminalEventType,
    TerminalLifecycle, TerminalSignal,
};

// ---- core -------------------------------------------------------------------

fn terminal_handle_stub() -> ResourceHandle {
    ResourceHandle {
        kind: ResourceKind::Terminal,
        parent: None,
        facet: ResourceFacetHandle::Terminal(TerminalHandle { cols: 80, rows: 24 }),
    }
}

#[test]
fn terminal_facet_resolves_for_a_terminal() {
    let handle = terminal_handle_stub();
    let facet = handle.terminal().expect("terminal facet");
    assert_eq!((facet.cols, facet.rows), (80, 24));
    assert_eq!(handle.facet.kind(), ResourceKind::Terminal);
}

#[test]
fn another_kinds_facet_is_refused() {
    assert_eq!(
        terminal_handle_stub().agent_session(),
        Err(WrongResourceKind {
            required: ResourceKind::AgentSession,
            actual: ResourceKind::Terminal,
        })
    );
}

#[test]
fn next_seq_is_checked() {
    let mut core = ResourceCore::new(ResourceKind::Terminal, None);
    assert_eq!(core.next_seq(), Some(1));
    assert_eq!(core.seq(), 1);
    core.seq = u64::MAX;
    assert_eq!(core.next_seq(), None, "an exhausted sequence never wraps");
    assert_eq!(core.seq(), u64::MAX);
}

#[test]
fn exit_notify_fires_once() {
    let mut core = ResourceCore::new(ResourceKind::Terminal, None);
    core.notify_exit(Some(3));
    core.notify_exit(Some(4));
    assert_eq!(core.exit_report, Some(Some(3)));
}

#[test]
fn event_fan_out_respects_type_filter_and_wire_id() {
    let mut core = ResourceCore::new(ResourceKind::Terminal, None);
    let mut mailboxes = Mailboxes::new();
    let all_tx = mailboxes.open(4);
    let cwd_tx = mailboxes.open(4);
    core.subscribe_events(SubscribeToEventsRequest {
        subscriber: TerminalEventSubscriber {
            outbound: all_tx,
            event_types: Vec::new(),
        },
        wire_terminal_id: 7,
    });
    core.subscribe_events(SubscribeToEventsRequest {
        subscriber: TerminalEventSubscriber {
            outbound: cwd_tx,
            event_types: vec![TerminalEventType::CwdChanged],
        },
        wire_terminal_id: 7,
    });

    core.fan_out_event(&AgentEvent::Dirty, &mut mailboxes);
    core.fan_out_event(
        &AgentEvent::CwdChanged {
            cwd: "/tmp".to_owned(),
        },
        &mut mailboxes,
    );

    let mut all = Vec::new();
    while let Some(out) = mailboxes.try_recv(all_tx) {
        all.push(out);
    }
    assert_eq!(all.len(), 2, "unfiltered subscriber sees both");
    match &all[0] {
        Outbound::Frame(FrameKind::Event { terminal, .. }) => {
            assert_eq!(*terminal, Some(TerminalId::local(7)));
        }
        other => panic!("expected an Event frame, got {other:?}"),
    }
    let mut cwd_only = Vec::new();
    while let Some(out) = mailboxes.try_recv(cwd_tx) {
        cwd_only.push(out);
    }
    assert_eq!(
        cwd_only.len(),
        1,
        "filtered subscriber sees only CwdChanged"
    );

    core.unsubscribe_events(&UnsubscribeFromEventsRequest {
        outbound_addr: core.event_subscribers[1].outbound.0,
    });
    assert_eq!(core.event_subscribers.len(), 1);
}

#[test]
fn control_events_reach_a_filtered_subscriber_and_bells_reach_nobody() {
    let mut core = ResourceCore::new(ResourceKind::Terminal, None);
    let mut mailboxes = Mailboxes::new();
    let tx = mailboxes.open(4);
    core.subscribe_events(SubscribeToEventsRequest {
        subscriber: TerminalEventSubscriber {
            outbound: tx,
            event_types: vec![TerminalEventType::CwdChanged],
        },
        wire_terminal_id: 0,
    });
    assert!(!core.has_no_event_subscribers());
    core.fan_out_event(&AgentEvent::Bell, &mut mailboxes);
    assert_eq!(mailboxes.try_recv(tx), None);
    let event = AgentEvent::TerminalControl {
        lifecycle: TerminalLifecycle::Running,
        exit_status: None,
        input_holder: None,
        action: ControlAction::Acquired,
        actor: Some(ClientId(2)),
    };
    core.fan_out_event(&event, &mut mailboxes);
    assert_eq!(
        mailboxes.try_recv(tx),
        Some(Outbound::Frame(FrameKind::Event {
            terminal: None,
            event
        }))
    );
}

// ---- event sinks ------------------------------------------------------------

#[test]
fn a_full_sink_counts_every_drop_once() {
    let mut sink = event_sink(1);
    sink.emit(AgentEvent::Bell);
    sink.emit(AgentEvent::Dirty);
    sink.emit(AgentEvent::Idle);
    assert_eq!(sink.take_dropped(), 2);
    assert_eq!(sink.take_dropped(), 0, "reading resets the count");
    assert!(matches!(sink.try_recv(), Some(AgentEvent::Bell)));
}

#[test]
fn a_closed_sink_is_not_a_loss() {
    let mut sink = event_sink(1);
    sink.close();
    sink.emit(AgentEvent::Bell);
    assert_eq!(sink.dropped, 0);
}

// ---- terminal events --------------------------------------------------------

fn drained(actor: &mut TerminalActor) -> Vec<AgentEvent> {
    let sink = actor.event_sink.as_mut().expect("wired");
    let mut events = Vec::new();
    while let Some(event) = sink.try_recv() {
        events.push(event);
    }
    events
}

fn watched() -> TerminalActor {
    let mut actor = TerminalActor::new(None);
    actor.set_event_sink(event_sink(16));
    actor.set_agent_state_sink(StateSink::new(1));
    actor
}

#[test]
fn a_chunk_sources_its_events_in_order() {
    let mut actor = watched();
    let mut mailboxes = Mailboxes::new();
    actor.source_events_from_chunk(
        b"ls\x07",
        &"shell".to_owned(),
        &vec![
            OscMark::CommandStart,
            OscMark::CommandEnd { exit_code: Some(1) },
            OscMark::Progress("50".to_owned()),
        ],
        &vec![Some("/tmp".to_owned())],
        None,
        &mut mailboxes,
    );
    assert_eq!(
        drained(&mut actor),
        vec![
            AgentEvent::CommandStarted,
            AgentEvent::CommandFinished { exit_code: Some(1) },
            AgentEvent::CwdChanged {
                cwd: "/tmp".to_owned()
            },
            AgentEvent::Bell,
            AgentEvent::TitleChanged {
                title: "shell".to_owned()
            },
            AgentEvent::Dirty,
        ]
    );
    assert_eq!(actor.last_progress, "50");
    actor.source_events_from_chunk(
        b"more",
        &"shell".to_owned(),
        &Vec::new(),
        &Vec::new(),
        None,
        &mut mailboxes,
    );
    assert_eq!(drained(&mut actor), vec![], "one burst, one announcement");
}

#[test]
fn a_burst_settles_on_the_first_quiet_tick() {
    let mut actor = watched();
    let mut mailboxes = Mailboxes::new();
    actor.source_events_from_chunk(
        b"x",
        &String::new(),
        &Vec::new(),
        &Vec::new(),
        None,
        &mut mailboxes,
    );
    actor.maybe_emit_idle(&None, &mut mailboxes);
    assert_eq!(drained(&mut actor), vec![AgentEvent::Dirty]);
    actor.maybe_emit_idle(&Some("/a".to_owned()), &mut mailboxes);
    assert_eq!(
        drained(&mut actor),
        vec![
            AgentEvent::Idle,
            AgentEvent::CwdChanged {
                cwd: "/a".to_owned()
            }
        ]
    );
    actor.maybe_emit_idle(&Some("/b".to_owned()), &mut mailboxes);
    assert_eq!(drained(&mut actor), vec![]);
}

#[test]
fn an_unheard_pane_keeps_its_title() {
    let mut actor = TerminalActor::new(None);
    let mut mailboxes = Mailboxes::new();
    actor.source_events_from_chunk(
        b"\x07",
        &"agent".to_owned(),
        &vec![OscMark::Progress("7".to_owned())],
        &Vec::new(),
        None,
        &mut mailboxes,
    );
    assert_eq!(actor.last_title, "agent");
    assert_eq!(actor.last_progress, "7");
    assert!(!actor.in_output_burst);
}

#[test]
fn replayed_output_sources_its_events_like_live_output() {
    let mut actor = watched();
    let mut mailboxes = Mailboxes::new();
    actor.apply_native_replay(Vec::new(), &mut mailboxes);
    assert!(!actor.terminal_dirty_since_tick);
    assert!(!actor.agent_dirty_since_detect);
    assert_eq!(drained(&mut actor), vec![]);

    actor.apply_native_replay(
        vec![
            AppliedChunk {
                bytes: Bytes::from_static(b"ls\x07"),
                title: String::new(),
                marks: Vec::new(),
                cwds: Vec::new(),
                ask: None,
            },
            AppliedChunk {
                bytes: Bytes::from_static(b"done"),
                title: "shell".to_owned(),
                marks: vec![OscMark::CommandEnd { exit_code: Some(0) }],
                cwds: vec![Some("/tmp".to_owned())],
                ask: None,
            },
        ],
        &mut mailboxes,
    );
    assert_eq!(
        drained(&mut actor),
        vec![
            AgentEvent::Bell,
            AgentEvent::Dirty,
            AgentEvent::CommandFinished { exit_code: Some(0) },
            AgentEvent::CwdChanged {
                cwd: "/tmp".to_owned()
            },
            AgentEvent::TitleChanged {
                title: "shell".to_owned()
            },
        ]
    );
    assert!(actor.terminal_dirty_since_tick);
    assert!(actor.agent_dirty_since_detect);
}

fn marker(question: &str) -> AskMarker {
    AskMarker {
        id: "q".to_owned(),
        question: question.to_owned(),
        suggestions: vec!["yes".to_owned()],
    }
}

#[test]
fn a_question_that_was_refused_is_retried() {
    let mut actor = watched();
    actor.source_ask_marker(Some(marker("one?")));
    assert_eq!(actor.last_ask, Some(marker("one?")));
    actor.source_ask_marker(Some(marker("two?")));
    assert!(actor.ask_retry_owed, "the sink holds one finding");
    assert_eq!(actor.last_ask, Some(marker("one?")));
    let sink = actor.agent_state_sink.as_mut().expect("wired");
    assert_eq!(
        sink.try_recv(),
        Some(AgentDetectEvent::AskSentinel(Some(AskedPayload {
            id: "q".to_owned(),
            question: "one?".to_owned(),
            suggestions: vec!["yes".to_owned()],
            elapsed_seconds: None,
        })))
    );
    actor.source_ask_marker(Some(marker("two?")));
    assert!(!actor.ask_retry_owed);
    assert_eq!(actor.last_ask, Some(marker("two?")));
    actor.source_ask_marker(Some(marker("two?")));
    assert!(!actor.ask_retry_owed, "nothing is owed for the same question");
}

#[test]
fn a_full_state_sink_makes_the_occupant_wait() {
    let mut actor = watched();
    assert_eq!(
        actor.detect_tick(
            Some("codex".to_owned()),
            DetectOutcome::Publish("working".to_owned())
        ),
        OccupantFate::Sent
    );
    assert_eq!(
        actor.detect_tick(Some("codex".to_owned()), DetectOutcome::Quiet),
        OccupantFate::Retry
    );
    assert_eq!(
        actor.detect_tick(None, DetectOutcome::Retract),
        OccupantFate::Nothing
    );
    let sink = actor.agent_state_sink.as_mut().expect("wired");
    assert_eq!(
        sink.try_recv(),
        Some(AgentDetectEvent::Occupant("codex".to_owned()))
    );
    assert_eq!(sink.try_recv(), None);
}

#[test]
fn only_a_scan_that_happened_consumes_the_evidence() {
    let mut actor = watched();
    actor.hook_reported(None);
    assert!(actor.agent_dirty_since_detect);
    actor.screen_scanned(false);
    assert!(actor.agent_dirty_since_detect);
    actor.screen_scanned(true);
    assert!(!actor.agent_dirty_since_detect);
}

#[test]
fn signals_go_to_the_childs_group() {
    for (signal, posix) in [
        (TerminalSignal::Interrupt, PosixSignal::Int),
        (TerminalSignal::Freeze, PosixSignal::Stop),
        (TerminalSignal::Resume, PosixSignal::Cont),
        (TerminalSignal::Terminate, PosixSignal::Term),
        (TerminalSignal::Kill, PosixSignal::Kill),
    ] {
        assert_eq!(
            deliver_signal(Some(7), signal),
            Ok(SignalPlan {
                pgid: 7,
                signal: posix
            })
        );
    }
    assert_eq!(
        deliver_signal(None, TerminalSignal::Kill),
        Err("no PTY child to signal".to_owned())
    );
    assert_eq!(
        deliver_signal(Some(u32::MAX), TerminalSignal::Kill),
        Err("no PTY child to signal".to_owned())
    );
}

#[test]
fn a_freeze_is_broadcast_and_undone_by_a_resume() {
    let mut actor = watched();
    let mut mailboxes = Mailboxes::new();
    let tx = mailboxes.open(4);
    actor.core.subscribe_events(SubscribeToEventsRequest {
        subscriber: TerminalEventSubscriber {
            outbound: tx,
            event_types: Vec::new(),
        },
        wire_terminal_id: 3,
    });
    let step = actor.handle_control_request(
        ControlRequest::Signal {
            signal: TerminalSignal::Freeze,
            input_holder: None,
            by_client: ClientId(2),
            reply: ControlReply(1),
        },
        Some(9),
        &mut mailboxes,
    );
    let request = SignalRequest {
        signal: TerminalSignal::Freeze,
        input_holder: None,
        by_client: ClientId(2),
        reply: ControlReply(1),
    };
    assert_eq!(
        step,
        ControlStep::Deliver {
            plan: SignalPlan {
                pgid: 9,
                signal: PosixSignal::Stop
            },
            request,
        }
    );
    assert_eq!(
        actor.signal_delivered(request, Some("ESRCH".to_owned()), &mut mailboxes),
        Err("killpg failed: ESRCH".to_owned())
    );
    assert_eq!(actor.lifecycle, TerminalLifecycle::Running);
    assert_eq!(mailboxes.try_recv(tx), None);
    assert_eq!(actor.signal_delivered(request, None, &mut mailboxes), Ok(()));
    assert_eq!(actor.lifecycle, TerminalLifecycle::Frozen);
    assert_eq!(
        mailboxes.try_recv(tx),
        Some(Outbound::Frame(FrameKind::Event {
            terminal: Some(TerminalId::local(3)),
            event: AgentEvent::TerminalControl {
                lifecycle: TerminalLifecycle::Frozen,
                exit_status: None,
                input_holder: None,
                action: ControlAction::Frozen,
                actor: Some(ClientId(2)),
            }
        }))
    );
    let resume = SignalRequest {
        signal: TerminalSignal::Resume,
        ..request
    };
    assert_eq!(actor.signal_delivered(resume, None, &mut mailboxes), Ok(()));
    assert_eq!(actor.lifecycle, TerminalLifecycle::Running);
}

#[test]
fn a_hook_needs_a_detector() {
    let mut actor = watched();
    let mut mailboxes = Mailboxes::new();
    let report = |reply| ControlRequest::ReportAgentState {
        state: ReportedAgentState::Blocked,
        reply: ControlReply(reply),
    };
    assert_eq!(
        actor.handle_control_request(report(1), None, &mut mailboxes),
        ControlStep::Answer {
            reply: ControlReply(1),
            result: Err("agent detection is unavailable for this pane".to_owned()),
        }
    );
    assert_eq!(
        actor.handle_control_request(
            ControlRequest::AgentRecordInvalidated,
            None,
            &mut mailboxes
        ),
        ControlStep::Done
    );
    actor.detecting = true;
    assert_eq!(
        actor.handle_control_request(report(2), None, &mut mailboxes),
        ControlStep::ReportHook {
            state: DetectedState::Blocked,
            reply: ControlReply(2),
        }
    );
    assert_eq!(
        actor.handle_control_request(
            ControlRequest::AgentRecordInvalidated,
            None,
            &mut mailboxes
        ),
        ControlStep::InvalidateDetector
    );
}

// ---- process facts ----------------------------------------------------------

fn reading(pgid: i32, again: i32) -> ForegroundReading {
    ForegroundReading {
        pgid: Some(pgid),
        argv: Some(vec!["/usr/bin/vim".to_owned(), "secret".to_owned()]),
        leader_start_ms: Some(77),
        pgid_again: Some(again),
    }
}

#[test]
fn a_foreground_group_that_changed_hands_is_no_answer() {
    let child = ChildProcess {
        pid: Some(5),
        start_ms: Some(50),
        exit: None,
    };
    assert_eq!(child.foreground_process(&reading(9, 8)), None);
    let group = child.foreground_process(&reading(9, 9)).expect("stable");
    assert_eq!((group.pgid, group.start_ms), (9, Some(77)));
    assert_eq!(group.name, Some("vim".to_owned()));
    let own = child.foreground_process(&reading(5, 5)).expect("stable");
    assert_eq!(own.start_ms, Some(50), "the captured start time stands");
}

#[test]
fn a_foreground_group_needs_no_known_child() {
    let child = ChildProcess {
        pid: None,
        start_ms: None,
        exit: None,
    };
    let state = child.process_facet(&reading(9, 9), Some("/w".to_owned()), 1u8);
    assert_eq!(state.child, None);
    assert_eq!(state.cwd, None, "there is no child to ask about");
    let group = state.foreground.expect("the tty names its group");
    assert_eq!((group.pgid, group.start_ms), (9, Some(77)));
}

#[test]
fn an_exited_child_is_still_named() {
    let mut child = ChildProcess {
        pid: Some(5),
        start_ms: Some(50),
        exit: None,
    };
    let live = child.process_facet(&reading(9, 9), Some("/w".to_owned()), 1u8);
    assert_eq!(live.cwd, Some("/w".to_owned()));
    assert!(live.foreground.is_some());
    assert_eq!(live.prompt, 1);
    child.record_exit_at(ExitOutcome::Code(3), Some(9));
    let state = child.process_facet(&reading(9, 9), Some("/w".to_owned()), 1u8);
    assert_eq!(
        state.child,
        Some(ProcessIdentity {
            pid: 5,
            start_ms: Some(50)
        })
    );
    assert_eq!(state.foreground, None);
    assert_eq!(state.cwd, None);
    assert_eq!(
        state.exit,
        Some(ProcessExit {
            outcome: ExitOutcome::Code(3),
            observed_ms: Some(9)
        })
    );
}

#[test]
fn an_exit_is_stamped_with_the_wall_clock() {
    let mut child = ChildProcess {
        pid: None,
        start_ms: None,
        exit: None,
    };
    child.record_exit(ExitOutcome::Unknown);
    let exit = child.exit.expect("recorded");
    assert!(exit.observed_ms.is_some_and(|ms| ms > 1_577_836_800_000));
    assert_eq!(child.child_identity(), None);
}

#[test]
fn facts_need_a_child() {
    let none = ChildFacts::capture(None, Some(1), Some("/w".to_owned()));
    assert_eq!((none.start_ms, none.cwd.as_str()), (None, ""));
    let some = ChildFacts::capture(Some(4), Some(1), Some("/w".to_owned()));
    assert_eq!((some.start_ms, some.cwd.as_str()), (Some(1), "/w"));
    let huge = ChildFacts::capture(Some(u32::MAX), Some(1), None);
    assert_eq!((huge.start_ms, huge.cwd.as_str()), (None, ""));
}
