//! The outbound leg: which satellite a command belongs to, and the command as
//! that satellite must see it.

use crate::ids::{SatelliteHost, TerminalId};
use crate::wire::{Command, TerminalEventType};
use vstd::prelude::*;

verus! {

/// The one terminal that a routable command is about.
///
/// A batch kill names many owners, an exactly-once input batch stays with the
/// server that deduplicates it, and the server-wide commands name none.
pub open spec fn routable_target(command: Command) -> Option<TerminalId> {
    match command {
        Command::AttachTerminal { terminal_id } => Some(terminal_id),
        Command::DetachTerminal { terminal_id } => Some(terminal_id),
        Command::KillTerminal { terminal_id, .. } => Some(terminal_id),
        Command::GetScreen { terminal_id, .. } => Some(terminal_id),
        Command::RouteInput { terminal_id, .. } => Some(terminal_id),
        Command::GetTerminalState { terminal_id, .. } => Some(terminal_id),
        Command::SubscribeTerminalEvents { terminal_id, .. } => Some(terminal_id),
        Command::AcquireInput { terminal_id, .. } => Some(terminal_id),
        Command::ReleaseInput { terminal_id } => Some(terminal_id),
        Command::SignalTerminal { terminal_id, .. } => Some(terminal_id),
        Command::PutFile { terminal_id, .. } => Some(terminal_id),
        Command::ReportAsked { terminal_id, .. } => Some(terminal_id),
        Command::ReportAgentState { terminal_id, .. } => Some(terminal_id),
        Command::ApplyInput { .. } => None,
        Command::KillTerminals { .. } => None,
        Command::GetState { .. } => None,
        Command::Upgrade => None,
    }
}

/// `sent` is `command` with its target replaced by local terminal `id` and
/// every other field as it was.
pub open spec fn readdressed(command: Command, sent: Command, id: u32) -> bool {
    routable_target(sent) == Some(TerminalId::Local { id }) && match (command, sent) {
        (Command::AttachTerminal { .. }, Command::AttachTerminal { .. }) => true,
        (Command::DetachTerminal { .. }, Command::DetachTerminal { .. }) => true,
        (
            Command::KillTerminal { operation_id: a, .. },
            Command::KillTerminal { operation_id: b, .. },
        ) => a == b,
        (
            Command::GetScreen { request_scrollback: a, cells: c, .. },
            Command::GetScreen { request_scrollback: b, cells: d, .. },
        ) => a == b && c == d,
        (Command::RouteInput { event: a, .. }, Command::RouteInput { event: b, .. }) => a == b,
        (
            Command::GetTerminalState { include_scrollback: a, max_scrollback_lines: c, .. },
            Command::GetTerminalState { include_scrollback: b, max_scrollback_lines: d, .. },
        ) => a == b && c == d,
        (
            Command::SubscribeTerminalEvents { event_types: a, .. },
            Command::SubscribeTerminalEvents { event_types: b, .. },
        ) => a@ == b@,
        (
            Command::AcquireInput { mode: a, ttl_ms: c, .. },
            Command::AcquireInput { mode: b, ttl_ms: d, .. },
        ) => a == b && c == d,
        (Command::ReleaseInput { .. }, Command::ReleaseInput { .. }) => true,
        (
            Command::SignalTerminal { signal: a, operation_id: c, .. },
            Command::SignalTerminal { signal: b, operation_id: d, .. },
        ) => a == b && c == d,
        (
            Command::PutFile {
                upload_id: upload_a,
                extension: extension_a,
                offset: offset_a,
                data: data_a,
                final_chunk: last_a,
                sha256: sha_a,
                ..
            },
            Command::PutFile {
                upload_id: upload_b,
                extension: extension_b,
                offset: offset_b,
                data: data_b,
                final_chunk: last_b,
                sha256: sha_b,
                ..
            },
        ) => upload_a == upload_b && extension_a@ == extension_b@ && offset_a == offset_b && data_a
            == data_b && last_a == last_b && sha_a == sha_b,
        (
            Command::ReportAsked {
                id: id_a,
                question: question_a,
                suggestions: suggestions_a,
                elapsed_seconds: elapsed_a,
                ..
            },
            Command::ReportAsked {
                id: id_b,
                question: question_b,
                suggestions: suggestions_b,
                elapsed_seconds: elapsed_b,
                ..
            },
        ) => id_a@ == id_b@ && question_a@ == question_b@ && suggestions_a@ == suggestions_b@
            && elapsed_a == elapsed_b,
        (
            Command::ReportAgentState { state: a, .. },
            Command::ReportAgentState { state: b, .. },
        ) => a == b,
        _ => false,
    }
}

/// A command that was readdressed to a satellite's own space stays there: no
/// satellite routes it onward.
pub proof fn law_readdressed_commands_never_chain(command: Command, sent: Command, id: u32)
    requires
        readdressed(command, sent, id),
    ensures
        !(routable_target(sent) matches Some(TerminalId::Satellite { .. })),
{
}

/// Readdressing a second time changes nothing but the target: every field that
/// the first rewrite kept, the second keeps too.
pub proof fn law_readdressing_composes(
    command: Command,
    once: Command,
    twice: Command,
    first: u32,
    second: u32,
)
    requires
        readdressed(command, once, first),
        readdressed(once, twice, second),
    ensures
        readdressed(command, twice, second),
{
}

fn copy_texts(texts: &Vec<String>) -> (copy: Vec<String>)
    ensures
        copy@ == texts@,
{
    let copy = texts.clone();
    assert(copy@ =~= texts@);
    copy
}

fn copy_event_types(types: &Vec<TerminalEventType>) -> (copy: Vec<TerminalEventType>)
    ensures
        copy@ == types@,
{
    let copy = types.clone();
    assert(copy@ =~= types@);
    copy
}

/// Split a satellite's wire id into its host and the number that the
/// satellite itself uses.
pub fn satellite_route(terminal_id: &TerminalId) -> (route: Option<(SatelliteHost, u32)>)
    ensures
        route == (match *terminal_id {
            TerminalId::Satellite { host, id } => Some((host, id)),
            TerminalId::Local { .. } => None,
        }),
{
    match terminal_id {
        TerminalId::Satellite { host, id } => Some((host.clone(), *id)),
        TerminalId::Local { .. } => None,
    }
}

/// If `command` targets one terminal of a satellite, the satellite and the
/// command in the satellite's own terminal space.
///
/// `None` for local targets, for commands that name no single terminal, and
/// for exactly-once input batches, which never leave this server.
pub fn route_to_satellite(command: &Command) -> (routed: Option<(SatelliteHost, Command)>)
    ensures
        match routed {
            Some((to, sent)) => match routable_target(*command) {
                Some(TerminalId::Satellite { host, id }) => to == host && readdressed(
                    *command,
                    sent,
                    id,
                ),
                _ => false,
            },
            None => !(routable_target(*command) matches Some(TerminalId::Satellite { .. })),
        },
{
    match command {
        Command::AttachTerminal { terminal_id } => {
            let (host, id) = satellite_route(terminal_id)?;
            Some((host, Command::AttachTerminal { terminal_id: TerminalId::local(id) }))
        },
        Command::DetachTerminal { terminal_id } => {
            let (host, id) = satellite_route(terminal_id)?;
            Some((host, Command::DetachTerminal { terminal_id: TerminalId::local(id) }))
        },
        Command::KillTerminal { terminal_id, operation_id } => {
            let (host, id) = satellite_route(terminal_id)?;
            Some(
                (
                    host,
                    Command::KillTerminal {
                        terminal_id: TerminalId::local(id),
                        operation_id: *operation_id,
                    },
                ),
            )
        },
        Command::GetScreen { terminal_id, request_scrollback, cells } => {
            let (host, id) = satellite_route(terminal_id)?;
            Some(
                (
                    host,
                    Command::GetScreen {
                        terminal_id: TerminalId::local(id),
                        request_scrollback: *request_scrollback,
                        cells: *cells,
                    },
                ),
            )
        },
        Command::RouteInput { terminal_id, event } => {
            let (host, id) = satellite_route(terminal_id)?;
            Some(
                (
                    host,
                    Command::RouteInput {
                        terminal_id: TerminalId::local(id),
                        event: event.clone(),
                    },
                ),
            )
        },
        Command::GetTerminalState { terminal_id, include_scrollback, max_scrollback_lines } => {
            let (host, id) = satellite_route(terminal_id)?;
            Some(
                (
                    host,
                    Command::GetTerminalState {
                        terminal_id: TerminalId::local(id),
                        include_scrollback: *include_scrollback,
                        max_scrollback_lines: *max_scrollback_lines,
                    },
                ),
            )
        },
        Command::SubscribeTerminalEvents { terminal_id, event_types } => {
            let (host, id) = satellite_route(terminal_id)?;
            Some(
                (
                    host,
                    Command::SubscribeTerminalEvents {
                        terminal_id: TerminalId::local(id),
                        event_types: copy_event_types(event_types),
                    },
                ),
            )
        },
        Command::AcquireInput { terminal_id, mode, ttl_ms } => {
            let (host, id) = satellite_route(terminal_id)?;
            Some(
                (
                    host,
                    Command::AcquireInput {
                        terminal_id: TerminalId::local(id),
                        mode: *mode,
                        ttl_ms: *ttl_ms,
                    },
                ),
            )
        },
        Command::ReleaseInput { terminal_id } => {
            let (host, id) = satellite_route(terminal_id)?;
            Some((host, Command::ReleaseInput { terminal_id: TerminalId::local(id) }))
        },
        Command::SignalTerminal { terminal_id, signal, operation_id } => {
            let (host, id) = satellite_route(terminal_id)?;
            Some(
                (
                    host,
                    Command::SignalTerminal {
                        terminal_id: TerminalId::local(id),
                        signal: *signal,
                        operation_id: *operation_id,
                    },
                ),
            )
        },
        Command::PutFile {
            upload_id,
            terminal_id,
            extension,
            offset,
            data,
            final_chunk,
            sha256,
        } => {
            let (host, id) = satellite_route(terminal_id)?;
            Some(
                (
                    host,
                    Command::PutFile {
                        upload_id: *upload_id,
                        terminal_id: TerminalId::local(id),
                        extension: extension.clone(),
                        offset: *offset,
                        data: data.clone(),
                        final_chunk: *final_chunk,
                        sha256: *sha256,
                    },
                ),
            )
        },
        Command::ReportAsked { terminal_id, id: asked_id, question, suggestions, elapsed_seconds } => {
            let (host, id) = satellite_route(terminal_id)?;
            Some(
                (
                    host,
                    Command::ReportAsked {
                        terminal_id: TerminalId::local(id),
                        id: asked_id.clone(),
                        question: question.clone(),
                        suggestions: copy_texts(suggestions),
                        elapsed_seconds: *elapsed_seconds,
                    },
                ),
            )
        },
        Command::ReportAgentState { terminal_id, state } => {
            let (host, id) = satellite_route(terminal_id)?;
            Some(
                (
                    host,
                    Command::ReportAgentState {
                        terminal_id: TerminalId::local(id),
                        state: *state,
                    },
                ),
            )
        },
        Command::ApplyInput { .. } => None,
        Command::KillTerminals { .. } => None,
        Command::GetState { .. } => None,
        Command::Upgrade => None,
    }
}

} // verus!
