//! What the guard finds when it looks a request's subject up.

use super::request::{ApprovalId, AttachTarget};
use super::topology::{
    approval_from, attached_from, called_from, named_from, resource_from, session_from,
    session_named_from, slots_of, window_from, AttachRow, LocatedV, PendingApproval, ResourceRow,
    SessionRow, Topology, WindowRow,
};
use crate::ids::{ClientId, TerminalId};
use vstd::prelude::*;

verus! {

/// No two resources, windows or sessions share an identity.
pub open spec fn identities_are_unique(s: Topology) -> bool {
    &&& forall|i: int, j: int|
        0 <= i < j < s.resources@.len() ==> (#[trigger] s.resources@[i]).core != (
        #[trigger] s.resources@[j]).core
    &&& forall|i: int, j: int|
        0 <= i < j < s.resources@.len() ==> (#[trigger] s.resources@[i]).wire is None || (
        #[trigger] s.resources@[j]).wire != s.resources@[i].wire
    &&& forall|i: int, j: int|
        0 <= i < j < s.windows@.len() ==> (#[trigger] s.windows@[i]).window != (
        #[trigger] s.windows@[j]).window
    &&& forall|i: int, j: int|
        0 <= i < j < s.sessions@.len() ==> (#[trigger] s.sessions@[i]).session != (
        #[trigger] s.sessions@[j]).session
}

proof fn lemma_resource(rows: Seq<ResourceRow>, core: u64, from: int)
    requires
        0 <= from <= rows.len(),
    ensures
        match resource_from(rows, core, from) {
            Some(row) => exists|i: int|
                from <= i < rows.len() && #[trigger] rows[i] == row && row.core == core && forall|
                    j: int,
                |
                    from <= j < i ==> (#[trigger] rows[j]).core != core,
            None => forall|i: int| from <= i < rows.len() ==> (#[trigger] rows[i]).core != core,
        },
    decreases rows.len() - from,
{
    if from < rows.len() {
        if rows[from].core != core {
            lemma_resource(rows, core, from + 1);
        } else {
            assert(rows[from] == resource_from(rows, core, from)->Some_0);
        }
    }
}

proof fn lemma_named(rows: Seq<ResourceRow>, id: u32, from: int)
    requires
        0 <= from <= rows.len(),
    ensures
        match named_from(rows, id, from) {
            Some(row) => exists|i: int|
                from <= i < rows.len() && #[trigger] rows[i] == row && row.wire == Some(id)
                    && forall|j: int| from <= j < i ==> (#[trigger] rows[j]).wire != Some(id),
            None => forall|i: int|
                from <= i < rows.len() ==> (#[trigger] rows[i]).wire != Some(id),
        },
    decreases rows.len() - from,
{
    if from < rows.len() {
        if rows[from].wire != Some(id) {
            lemma_named(rows, id, from + 1);
        } else {
            assert(rows[from] == named_from(rows, id, from)->Some_0);
        }
    }
}

proof fn lemma_window(rows: Seq<WindowRow>, window: u64, from: int)
    requires
        0 <= from <= rows.len(),
    ensures
        match window_from(rows, window, from) {
            Some(row) => exists|i: int|
                from <= i < rows.len() && #[trigger] rows[i] == row && row.window == window
                    && forall|j: int| from <= j < i ==> (#[trigger] rows[j]).window != window,
            None => forall|i: int|
                from <= i < rows.len() ==> (#[trigger] rows[i]).window != window,
        },
    decreases rows.len() - from,
{
    if from < rows.len() {
        if rows[from].window != window {
            lemma_window(rows, window, from + 1);
        } else {
            assert(rows[from] == window_from(rows, window, from)->Some_0);
        }
    }
}

proof fn lemma_session(rows: Seq<SessionRow>, session: u64, from: int)
    requires
        0 <= from <= rows.len(),
    ensures
        match session_from(rows, session, from) {
            Some(row) => exists|i: int|
                from <= i < rows.len() && #[trigger] rows[i] == row && row.session == session
                    && forall|j: int| from <= j < i ==> (#[trigger] rows[j]).session != session,
            None => forall|i: int|
                from <= i < rows.len() ==> (#[trigger] rows[i]).session != session,
        },
    decreases rows.len() - from,
{
    if from < rows.len() {
        if rows[from].session != session {
            lemma_session(rows, session, from + 1);
        } else {
            assert(rows[from] == session_from(rows, session, from)->Some_0);
        }
    }
}

/// A terminal of this server stands where its row says: under its own id, in the
/// group of the session whose window holds it.
pub proof fn law_terminals_stand_in_their_group(
    s: Topology,
    id: u32,
    i: int,
    j: int,
    k: int,
)
    requires
        identities_are_unique(s),
        0 <= i < s.resources@.len(),
        s.resources@[i].wire == Some(id),
        0 <= j < s.windows@.len(),
        s.resources@[i].window == Some(s.windows@[j].window),
        0 <= k < s.sessions@.len(),
        s.windows@[j].session == s.sessions@[k].session,
    ensures
        ({
            let at = s.terminal_at(TerminalId::Local { id });
            &&& at.pane.at == LocatedV::Local(id)
            &&& at.pane.group == s.sessions@[k].wire
            &&& s.core_of(TerminalId::Local { id }) == Some(s.resources@[i].core)
            &&& s.local_pane(s.resources@[i].core).at == LocatedV::Local(id)
            &&& s.local_pane(s.resources@[i].core).group == s.sessions@[k].wire
            &&& at.parent is Some <==> s.resources@[i].parent is Some
        }),
{
    lemma_named(s.resources@, id, 0);
    lemma_resource(s.resources@, s.resources@[i].core, 0);
    lemma_window(s.windows@, s.windows@[j].window, 0);
    lemma_session(s.sessions@, s.sessions@[k].session, 0);
}

/// A child stands under the pane that its row names as its parent.
pub proof fn law_children_stand_under_their_parent(
    s: Topology,
    id: u32,
    parent: u32,
    i: int,
    j: int,
)
    requires
        identities_are_unique(s),
        0 <= i < s.resources@.len(),
        s.resources@[i].wire == Some(id),
        0 <= j < s.resources@.len(),
        s.resources@[i].parent == Some(s.resources@[j].core),
        s.resources@[j].wire == Some(parent),
    ensures
        s.terminal_at(TerminalId::Local { id }).parent matches Some(pane) && pane.at
            == LocatedV::Local(parent) && pane.group == s.terminal_at(
            TerminalId::Local { id: parent },
        ).pane.group,
{
    lemma_named(s.resources@, id, 0);
    lemma_named(s.resources@, parent, 0);
    lemma_resource(s.resources@, s.resources@[i].core, 0);
    lemma_resource(s.resources@, s.resources@[j].core, 0);
}

/// A terminal in no window, or in a window that is not there, is in no group;
/// one that nobody knows has neither group nor parent; one of a satellite has
/// neither either, and stands on that satellite.
pub proof fn law_strays_have_no_group(s: Topology, wire: TerminalId)
    ensures
        wire matches TerminalId::Satellite { host, id } ==> {
            let at = s.terminal_at(wire);
            at.pane.at == LocatedV::Satellite(host.name@, id) && at.pane.group is None
                && at.parent is None
        },
        wire matches TerminalId::Local { id } ==> s.terminal_at(wire).pane.at == LocatedV::Local(
            id,
        ),
        (wire matches TerminalId::Local { id } && forall|i: int|
            0 <= i < s.resources@.len() ==> (#[trigger] s.resources@[i]).wire != Some(id))
            ==> s.terminal_at(wire).pane.group is None && s.terminal_at(wire).parent is None
            && s.core_of(wire) is None,
        wire is Satellite ==> s.core_of(wire) is None,
{
    if wire is Local {
        lemma_named(s.resources@, wire->Local_id, 0);
    }
}

/// A terminal outside every window has no group.
pub proof fn law_windowless_terminals_have_no_group(s: Topology, core: u64, i: int)
    requires
        identities_are_unique(s),
        0 <= i < s.resources@.len(),
        s.resources@[i].core == core,
        s.resources@[i].window is None,
    ensures
        s.group_of(core) is None,
{
    lemma_resource(s.resources@, core, 0);
}

/// Sessions are found by their id on the wire and by their name: the first row
/// that matches, and none where none does.
pub proof fn law_sessions_are_found_by_id_and_name(
    rows: Seq<SessionRow>,
    id: u32,
    name: Seq<char>,
    from: int,
)
    requires
        0 <= from <= rows.len(),
    ensures
        match session_named_from(rows, id, from) {
            Some(session) => exists|i: int|
                from <= i < rows.len() && (#[trigger] rows[i]).session == session && rows[i].wire
                    == Some(id) && forall|j: int|
                    from <= j < i ==> (#[trigger] rows[j]).wire != Some(id),
            None => forall|i: int|
                from <= i < rows.len() ==> (#[trigger] rows[i]).wire != Some(id),
        },
        match called_from(rows, name, from) {
            Some(session) => exists|i: int|
                from <= i < rows.len() && (#[trigger] rows[i]).session == session && rows[i].name@
                    == name && forall|j: int|
                    from <= j < i ==> (#[trigger] rows[j]).name@ != name,
            None => forall|i: int|
                from <= i < rows.len() ==> (#[trigger] rows[i]).name@ != name,
        },
    decreases rows.len() - from,
{
    if from < rows.len() {
        law_sessions_are_found_by_id_and_name(rows, id, name, from + 1);
        assert(rows[from].session == rows[from].session);
    }
}

/// A client is attached to the session of its own row, and an approval is found
/// by its id.
pub proof fn law_clients_and_approvals_are_found(
    rows: Seq<AttachRow>,
    client: ClientId,
    approvals: Seq<PendingApproval>,
    id: ApprovalId,
    from: int,
)
    requires
        0 <= from,
    ensures
        from <= rows.len() ==> match attached_from(rows, client, from) {
            Some(session) => exists|i: int|
                from <= i < rows.len() && (#[trigger] rows[i]).client == client && rows[i].session
                    == session,
            None => forall|i: int|
                from <= i < rows.len() ==> (#[trigger] rows[i]).client != client,
        },
        from <= approvals.len() ==> match approval_from(approvals, id, from) {
            Some(found) => found.id == id && exists|i: int|
                from <= i < approvals.len() && #[trigger] approvals[i] == found,
            None => forall|i: int|
                from <= i < approvals.len() ==> (#[trigger] approvals[i]).id != id,
        },
    decreases rows.len() + approvals.len() - from,
{
    if from < rows.len() || from < approvals.len() {
        law_clients_and_approvals_are_found(rows, client, approvals, id, from + 1);
        if from < rows.len() {
            assert(rows[from].client == rows[from].client);
        }
        if from < approvals.len() {
            assert(approvals[from] == approvals[from]);
        }
    }
}

/// An attach target resolves to what it names: the session of an id, the session
/// of a name, or the session that was touched last. Before anything was touched
/// that is the session that the server was started with, and never once
/// something was.
pub proof fn law_attach_targets_resolve_to_what_they_name(
    s: Topology,
    target: AttachTarget,
    touched: u64,
)
    ensures
        target matches AttachTarget::ById(wire) ==> s.attach_session(target) == session_named_from(
            s.sessions@,
            wire.0,
            0,
        ),
        target matches AttachTarget::ByName(name) ==> s.attach_session(target) == called_from(
            s.sessions@,
            name@,
            0,
        ),
        target matches AttachTarget::CreateIfMissing { name } ==> s.attach_session(target)
            == called_from(s.sessions@, name@, 0),
        target is Unrecognized ==> s.attach_session(target) is None,
        target is Last && s.last_touched == Some(touched) ==> s.attach_session(target) == Some(
            touched,
        ),
        target is Last && s.last_touched is None && s.touch_history ==> s.attach_session(target)
            is None,
        target is Last && s.last_touched is None && !s.touch_history ==> s.attach_session(target)
            == (match s.pre_seeded {
            Some(name) => called_from(s.sessions@, name@, 0),
            None => None,
        }),
{
}

proof fn lemma_slots(rows: Seq<WindowRow>, windows: Seq<u64>, n: nat, core: u64)
    requires
        n <= windows.len(),
    ensures
        slots_of(rows, windows, n).contains(core) <==> exists|k: int|
            0 <= k < n && (window_from(rows, #[trigger] windows[k], 0) matches Some(row)
                && row.slots@.contains(core)),
    decreases n,
{
    if n > 0 {
        let before = slots_of(rows, windows, (n - 1) as nat);
        let now = slots_of(rows, windows, n);
        lemma_slots(rows, windows, (n - 1) as nat, core);
        match window_from(rows, windows[n - 1], 0) {
            Some(row) => {
                if before.contains(core) {
                    let a = choose|a: int| 0 <= a < before.len() && before[a] == core;
                    assert(now[a] == core);
                }
                if row.slots@.contains(core) {
                    let a = choose|a: int| 0 <= a < row.slots@.len() && row.slots@[a] == core;
                    assert(now[before.len() + a] == core);
                    assert(window_from(rows, windows[n - 1], 0) == Some(row));
                }
                if now.contains(core) {
                    let a = choose|a: int| 0 <= a < now.len() && now[a] == core;
                    if a < before.len() {
                        assert(before[a] == core);
                    } else {
                        assert(row.slots@[a - before.len()] == core);
                    }
                }
            },
            None => {},
        }
    }
}

/// A client is attached to exactly what the windows of its session hold.
pub proof fn law_clients_are_attached_to_their_windows(
    s: Topology,
    client: ClientId,
    k: int,
    core: u64,
)
    requires
        identities_are_unique(s),
        0 <= k < s.sessions@.len(),
        attached_from(s.attached@, client, 0) == Some(s.sessions@[k].session),
    ensures
        s.attached_cores(client).contains(core) <==> exists|a: int, j: int|
            {
                &&& 0 <= a < s.sessions@[k].windows@.len()
                &&& 0 <= j < s.windows@.len()
                &&& #[trigger] s.sessions@[k].windows@[a] == (#[trigger] s.windows@[j]).window
                &&& s.windows@[j].slots@.contains(core)
            },
{
    let windows = s.sessions@[k].windows@;
    lemma_session(s.sessions@, s.sessions@[k].session, 0);
    lemma_slots(s.windows@, windows, windows.len(), core);
    if s.attached_cores(client).contains(core) {
        let a = choose|a: int|
            0 <= a < windows.len() && (window_from(s.windows@, #[trigger] windows[a], 0) matches Some(
                row,
            ) && row.slots@.contains(core));
        lemma_window(s.windows@, windows[a], 0);
        let row = window_from(s.windows@, windows[a], 0)->Some_0;
        let j = choose|j: int| 0 <= j < s.windows@.len() && #[trigger] s.windows@[j] == row;
        assert(windows[a] == s.windows@[j].window);
    }
    if exists|a: int, j: int|
        {
            &&& 0 <= a < windows.len()
            &&& 0 <= j < s.windows@.len()
            &&& #[trigger] windows[a] == (#[trigger] s.windows@[j]).window
            &&& s.windows@[j].slots@.contains(core)
        } {
        let (a, j) = choose|a: int, j: int|
            {
                &&& 0 <= a < windows.len()
                &&& 0 <= j < s.windows@.len()
                &&& #[trigger] windows[a] == (#[trigger] s.windows@[j]).window
                &&& s.windows@[j].slots@.contains(core)
            };
        lemma_window(s.windows@, windows[a], 0);
        assert(window_from(s.windows@, windows[a], 0) == Some(s.windows@[j]));
    }
}

/// A client watches and is subscribed to exactly what its own rows say.
pub proof fn law_clients_watch_what_their_rows_say(
    s: Topology,
    client: ClientId,
    terminal: TerminalId,
    core: u64,
)
    ensures
        s.watches(client, terminal) ==> exists|i: int|
            0 <= i < s.viewers@.len() && (#[trigger] s.viewers@[i]).client == client
                && s.viewers@[i].terminal@ == terminal@,
        forall|i: int|
            0 <= i < s.viewers@.len() ==> s.watches(
                (#[trigger] s.viewers@[i]).client,
                s.viewers@[i].terminal,
            ),
        forall|i: int|
            0 <= i < s.subscriptions@.len() ==> s.subscribed(
                (#[trigger] s.subscriptions@[i]).client,
                s.subscriptions@[i].core,
            ),
        s.subscribed(client, core) ==> exists|i: int|
            0 <= i < s.subscriptions@.len() && (#[trigger] s.subscriptions@[i]).client == client
                && s.subscriptions@[i].core == core,
{
}

} // verus!
