//! What the guard reads of the server: which terminals there are, where they
//! are, and who is attached to what.

use super::request::{ApprovalId, AttachTarget, ClientCommand};
use crate::ids::{ClientId, SatelliteHost, SessionId, TerminalId};
use vstd::prelude::*;

verus! {

/// A terminal or a child of one, in the registry.
#[derive(Debug, Clone, Copy, PartialEq, Eq, Structural)]
pub struct ResourceRow {
    /// Its key in the registry.
    pub core: u64,
    /// The local id that names it on the wire, if one does yet.
    pub wire: Option<u32>,
    /// The window that holds it.
    pub window: Option<u64>,
    /// The terminal whose child it is.
    pub parent: Option<u64>,
}

/// A window in the registry.
#[derive(Debug, PartialEq, Eq)]
pub struct WindowRow {
    /// Its key in the registry.
    pub window: u64,
    /// The session that holds it.
    pub session: u64,
    /// The terminals it holds.
    pub slots: Vec<u64>,
}

/// A session in the registry.
#[derive(Debug, PartialEq, Eq)]
pub struct SessionRow {
    /// Its key in the registry.
    pub session: u64,
    /// Its name.
    pub name: String,
    /// The id that names it on the wire, if one does yet.
    pub wire: Option<u32>,
    /// The windows it holds.
    pub windows: Vec<u64>,
}

/// A connection and the session it is attached to.
#[derive(Debug, Clone, Copy, PartialEq, Eq, Structural)]
pub struct AttachRow {
    /// The connection.
    pub client: ClientId,
    /// The session.
    pub session: u64,
}

/// A connection and a terminal it is subscribed to.
#[derive(Debug, Clone, Copy, PartialEq, Eq, Structural)]
pub struct SubscriptionRow {
    /// The connection.
    pub client: ClientId,
    /// The terminal's key in the registry.
    pub core: u64,
}

/// A connection and a terminal that it only watches.
#[derive(Debug, PartialEq, Eq)]
pub struct ViewerRow {
    /// The connection.
    pub client: ClientId,
    /// The terminal.
    pub terminal: TerminalId,
}

/// A held command that waits for a decision.
#[derive(Debug, PartialEq, Eq)]
pub struct PendingApproval {
    /// Which approval.
    pub id: ApprovalId,
    /// The connection that asked.
    pub requester: ClientId,
    /// What it asked for.
    pub command: ClientCommand,
    /// The row of the command.
    pub row: super::request::Classification,
}

/// The server as the guard sees it.
#[derive(Debug)]
pub struct Topology {
    /// The resources.
    pub resources: Vec<ResourceRow>,
    /// The windows.
    pub windows: Vec<WindowRow>,
    /// The sessions.
    pub sessions: Vec<SessionRow>,
    /// Who is attached to which session.
    pub attached: Vec<AttachRow>,
    /// Who is subscribed to which terminal.
    pub subscriptions: Vec<SubscriptionRow>,
    /// Who only watches which terminal.
    pub viewers: Vec<ViewerRow>,
    /// The held commands.
    pub approvals: Vec<PendingApproval>,
    /// The session that was used last.
    pub last_touched: Option<u64>,
    /// Whether any session was ever used.
    pub touch_history: bool,
    /// The session that the server was started with.
    pub pre_seeded: Option<String>,
}

/// The first of `rows` from `i` on that is resource `core`.
pub open spec fn resource_from(rows: Seq<ResourceRow>, core: u64, i: int) -> Option<ResourceRow>
    decreases rows.len() - i,
{
    if i < 0 || i >= rows.len() {
        None
    } else if rows[i].core == core {
        Some(rows[i])
    } else {
        resource_from(rows, core, i + 1)
    }
}

/// The first of `rows` from `i` on that local id `id` names.
pub open spec fn named_from(rows: Seq<ResourceRow>, id: u32, i: int) -> Option<ResourceRow>
    decreases rows.len() - i,
{
    if i < 0 || i >= rows.len() {
        None
    } else if rows[i].wire == Some(id) {
        Some(rows[i])
    } else {
        named_from(rows, id, i + 1)
    }
}

/// The first of `rows` from `i` on that is window `window`.
pub open spec fn window_from(rows: Seq<WindowRow>, window: u64, i: int) -> Option<WindowRow>
    decreases rows.len() - i,
{
    if i < 0 || i >= rows.len() {
        None
    } else if rows[i].window == window {
        Some(rows[i])
    } else {
        window_from(rows, window, i + 1)
    }
}

/// The first of `rows` from `i` on that is session `session`.
pub open spec fn session_from(rows: Seq<SessionRow>, session: u64, i: int) -> Option<SessionRow>
    decreases rows.len() - i,
{
    if i < 0 || i >= rows.len() {
        None
    } else if rows[i].session == session {
        Some(rows[i])
    } else {
        session_from(rows, session, i + 1)
    }
}

/// The first of `rows` from `i` on that is called `name`.
pub open spec fn called_from(rows: Seq<SessionRow>, name: Seq<char>, i: int) -> Option<u64>
    decreases rows.len() - i,
{
    if i < 0 || i >= rows.len() {
        None
    } else if rows[i].name@ == name {
        Some(rows[i].session)
    } else {
        called_from(rows, name, i + 1)
    }
}

/// The first of `rows` from `i` on that has wire id `id`.
pub open spec fn session_named_from(rows: Seq<SessionRow>, id: u32, i: int) -> Option<u64>
    decreases rows.len() - i,
{
    if i < 0 || i >= rows.len() {
        None
    } else if rows[i].wire == Some(id) {
        Some(rows[i].session)
    } else {
        session_named_from(rows, id, i + 1)
    }
}

/// The session that `client` is attached to, by the first of `rows` from `i` on.
pub open spec fn attached_from(rows: Seq<AttachRow>, client: ClientId, i: int) -> Option<u64>
    decreases rows.len() - i,
{
    if i < 0 || i >= rows.len() {
        None
    } else if rows[i].client == client {
        Some(rows[i].session)
    } else {
        attached_from(rows, client, i + 1)
    }
}

/// The first of `rows` from `i` on that is approval `id`.
pub open spec fn approval_from(rows: Seq<PendingApproval>, id: ApprovalId, i: int) -> Option<
    PendingApproval,
>
    decreases rows.len() - i,
{
    if i < 0 || i >= rows.len() {
        None
    } else if rows[i].id == id {
        Some(rows[i])
    } else {
        approval_from(rows, id, i + 1)
    }
}

/// The terminals of the first `n` of `windows` that exist, in order.
pub open spec fn slots_of(rows: Seq<WindowRow>, windows: Seq<u64>, n: nat) -> Seq<u64>
    decreases n,
{
    if n == 0 || n > windows.len() {
        Seq::empty()
    } else {
        let before = slots_of(rows, windows, (n - 1) as nat);
        match window_from(rows, windows[n - 1], 0) {
            Some(row) => before + row.slots@,
            None => before,
        }
    }
}

/// Where a terminal is.
#[derive(Debug, PartialEq, Eq)]
pub enum Located {
    /// On this server, under a wire id.
    Local(u32),
    /// On this server, with no wire id yet: no client can have addressed it.
    Unnamed,
    /// On a satellite.
    Satellite(SatelliteHost, u32),
}

/// A [`Located`] as contracts speak of it.
#[verifier::ext_equal]
pub enum LocatedV {
    /// On this server, under a wire id.
    Local(u32),
    /// On this server, with no wire id yet.
    Unnamed,
    /// On a satellite.
    Satellite(Seq<char>, u32),
}

impl View for Located {
    type V = LocatedV;

    open spec fn view(&self) -> LocatedV {
        match *self {
            Located::Local(id) => LocatedV::Local(id),
            Located::Unnamed => LocatedV::Unnamed,
            Located::Satellite(host, id) => LocatedV::Satellite(host.name@, id),
        }
    }
}

/// A terminal as a selector matches it.
#[derive(Debug, PartialEq, Eq)]
pub struct Pane {
    /// Where it is.
    pub at: Located,
    /// The group of this server that holds it.
    pub group: Option<u32>,
}

/// A [`Pane`] as contracts speak of it.
#[verifier::ext_equal]
pub struct PaneV {
    /// Where it is.
    pub at: LocatedV,
    /// The group of this server that holds it.
    pub group: Option<u32>,
}

impl View for Pane {
    type V = PaneV;

    open spec fn view(&self) -> PaneV {
        PaneV { at: self.at@, group: self.group }
    }
}

/// A terminal, and the parent through which it may be reached as well.
#[derive(Debug, PartialEq, Eq)]
pub struct TerminalPoint {
    /// The terminal.
    pub pane: Pane,
    /// Its parent.
    pub parent: Option<Pane>,
}

/// A [`TerminalPoint`] as contracts speak of it.
#[verifier::ext_equal]
pub struct TerminalPointV {
    /// The terminal.
    pub pane: PaneV,
    /// Its parent.
    pub parent: Option<PaneV>,
}

impl View for TerminalPoint {
    type V = TerminalPointV;

    open spec fn view(&self) -> TerminalPointV {
        TerminalPointV {
            pane: self.pane@,
            parent: match self.parent {
                Some(parent) => Some(parent@),
                None => None,
            },
        }
    }
}

impl Topology {
    /// The resource behind a wire id.
    pub open spec fn core_of(&self, wire: TerminalId) -> Option<u64> {
        match wire {
            TerminalId::Local { id } => match named_from(self.resources@, id, 0) {
                Some(row) => Some(row.core),
                None => None,
            },
            TerminalId::Satellite { .. } => None,
        }
    }

    /// The parent of a resource.
    pub open spec fn parent_of(&self, core: u64) -> Option<u64> {
        match resource_from(self.resources@, core, 0) {
            Some(row) => row.parent,
            None => None,
        }
    }

    /// The wire id of a session.
    pub open spec fn session_wire(&self, session: u64) -> Option<u32> {
        match session_from(self.sessions@, session, 0) {
            Some(row) => row.wire,
            None => None,
        }
    }

    /// The wire id of the session whose window holds a resource.
    pub open spec fn group_of(&self, core: u64) -> Option<u32> {
        match resource_from(self.resources@, core, 0) {
            Some(row) => match row.window {
                Some(window) => match window_from(self.windows@, window, 0) {
                    Some(window) => self.session_wire(window.session),
                    None => None,
                },
                None => None,
            },
            None => None,
        }
    }

    /// A resource of this server, as itself.
    pub open spec fn local_pane(&self, core: u64) -> PaneV {
        PaneV {
            at: match resource_from(self.resources@, core, 0) {
                Some(row) => match row.wire {
                    Some(id) => LocatedV::Local(id),
                    None => LocatedV::Unnamed,
                },
                None => LocatedV::Unnamed,
            },
            group: self.group_of(core),
        }
    }

    /// The terminal that local id `id` names, with its parent.
    pub open spec fn local_terminal_at(&self, id: u32, core: Option<u64>) -> TerminalPointV {
        TerminalPointV {
            pane: PaneV {
                at: LocatedV::Local(id),
                group: match core {
                    Some(core) => self.group_of(core),
                    None => None,
                },
            },
            parent: match core {
                Some(core) => match self.parent_of(core) {
                    Some(parent) => Some(self.local_pane(parent)),
                    None => None,
                },
                None => None,
            },
        }
    }

    /// The terminal that `wire` names. An id that names nothing is a terminal
    /// of its own, in no group.
    pub open spec fn terminal_at(&self, wire: TerminalId) -> TerminalPointV {
        match wire {
            TerminalId::Local { id } => self.local_terminal_at(id, self.core_of(wire)),
            TerminalId::Satellite { host, id } => TerminalPointV {
                pane: PaneV { at: LocatedV::Satellite(host.name@, id), group: None },
                parent: None,
            },
        }
    }

    /// The session that was used last, or else the one that the server was
    /// started with, as long as none was used.
    pub open spec fn last(&self) -> Option<u64> {
        if self.last_touched is Some {
            self.last_touched
        } else if self.touch_history {
            None
        } else {
            match self.pre_seeded {
                Some(name) => called_from(self.sessions@, name@, 0),
                None => None,
            }
        }
    }

    /// The session that an attach to `target` joins, if there is one yet.
    pub open spec fn attach_session(&self, target: AttachTarget) -> Option<u64> {
        match target {
            AttachTarget::Last => self.last(),
            AttachTarget::ById(wire) => session_named_from(self.sessions@, wire.0, 0),
            AttachTarget::ByName(name) => called_from(self.sessions@, name@, 0),
            AttachTarget::CreateIfMissing { name } => called_from(self.sessions@, name@, 0),
            AttachTarget::Unrecognized => None,
        }
    }

    /// Every terminal of the session that `client` is attached to.
    pub open spec fn attached_cores(&self, client: ClientId) -> Seq<u64> {
        match attached_from(self.attached@, client, 0) {
            Some(session) => match session_from(self.sessions@, session, 0) {
                Some(row) => slots_of(self.windows@, row.windows@, row.windows@.len()),
                None => Seq::empty(),
            },
            None => Seq::empty(),
        }
    }

    /// Whether `client` is subscribed to resource `core`.
    pub open spec fn subscribed(&self, client: ClientId, core: u64) -> bool {
        exists|i: int|
            0 <= i < self.subscriptions@.len() && #[trigger] self.subscriptions@[i]
                == (SubscriptionRow { client, core })
    }

    /// Whether `client` only watches `terminal`.
    pub open spec fn watches(&self, client: ClientId, terminal: TerminalId) -> bool {
        exists|i: int|
            0 <= i < self.viewers@.len() && (#[trigger] self.viewers@[i]).client == client
                && self.viewers@[i].terminal@ == terminal@
    }

    fn resource(&self, core: u64) -> (found: Option<ResourceRow>)
        ensures
            found == resource_from(self.resources@, core, 0),
    {
        let mut i: usize = 0;
        while i < self.resources.len()
            invariant
                i <= self.resources@.len(),
                resource_from(self.resources@, core, 0) == resource_from(
                    self.resources@,
                    core,
                    i as int,
                ),
            decreases self.resources@.len() - i,
        {
            if self.resources[i].core == core {
                return Some(self.resources[i]);
            }
            i += 1;
        }
        None
    }

    fn window(&self, window: u64) -> (found: Option<&WindowRow>)
        ensures
            match found {
                Some(row) => window_from(self.windows@, window, 0) == Some(*row),
                None => window_from(self.windows@, window, 0) is None,
            },
    {
        let mut i: usize = 0;
        while i < self.windows.len()
            invariant
                i <= self.windows@.len(),
                window_from(self.windows@, window, 0) == window_from(
                    self.windows@,
                    window,
                    i as int,
                ),
            decreases self.windows@.len() - i,
        {
            if self.windows[i].window == window {
                return Some(&self.windows[i]);
            }
            i += 1;
        }
        None
    }

    fn session(&self, session: u64) -> (found: Option<&SessionRow>)
        ensures
            match found {
                Some(row) => session_from(self.sessions@, session, 0) == Some(*row),
                None => session_from(self.sessions@, session, 0) is None,
            },
    {
        let mut i: usize = 0;
        while i < self.sessions.len()
            invariant
                i <= self.sessions@.len(),
                session_from(self.sessions@, session, 0) == session_from(
                    self.sessions@,
                    session,
                    i as int,
                ),
            decreases self.sessions@.len() - i,
        {
            if self.sessions[i].session == session {
                return Some(&self.sessions[i]);
            }
            i += 1;
        }
        None
    }

    /// The session called `name`.
    pub fn find_session_by_name(&self, name: &str) -> (found: Option<u64>)
        ensures
            found == called_from(self.sessions@, name@, 0),
    {
        let wanted = name.to_owned();
        let mut i: usize = 0;
        while i < self.sessions.len()
            invariant
                wanted@ == name@,
                i <= self.sessions@.len(),
                called_from(self.sessions@, name@, 0) == called_from(
                    self.sessions@,
                    name@,
                    i as int,
                ),
            decreases self.sessions@.len() - i,
        {
            if self.sessions[i].name == wanted {
                return Some(self.sessions[i].session);
            }
            i += 1;
        }
        None
    }

    fn resolve_session(&self, wire: SessionId) -> (found: Option<u64>)
        ensures
            found == session_named_from(self.sessions@, wire.0, 0),
    {
        let mut i: usize = 0;
        while i < self.sessions.len()
            invariant
                i <= self.sessions@.len(),
                session_named_from(self.sessions@, wire.0, 0) == session_named_from(
                    self.sessions@,
                    wire.0,
                    i as int,
                ),
            decreases self.sessions@.len() - i,
        {
            match self.sessions[i].wire {
                Some(id) => {
                    if id == wire.0 {
                        return Some(self.sessions[i].session);
                    }
                },
                None => {},
            }
            i += 1;
        }
        None
    }

    /// The resource behind a wire id.
    pub fn terminal_from_wire(&self, wire: &TerminalId) -> (found: Option<u64>)
        ensures
            found == self.core_of(*wire),
    {
        match wire {
            TerminalId::Local { id } => {
                let mut i: usize = 0;
                while i < self.resources.len()
                    invariant
                        *wire == (TerminalId::Local { id: *id }),
                        i <= self.resources@.len(),
                        named_from(self.resources@, *id, 0) == named_from(
                            self.resources@,
                            *id,
                            i as int,
                        ),
                    decreases self.resources@.len() - i,
                {
                    match self.resources[i].wire {
                        Some(at) => {
                            if at == *id {
                                return Some(self.resources[i].core);
                            }
                        },
                        None => {},
                    }
                    i += 1;
                }
                None
            },
            TerminalId::Satellite { .. } => None,
        }
    }

    /// The parent of a resource.
    pub fn resource_parent(&self, core: u64) -> (parent: Option<u64>)
        ensures
            parent == self.parent_of(core),
    {
        match self.resource(core) {
            Some(row) => row.parent,
            None => None,
        }
    }

    /// The wire id of a session.
    pub fn wire_of_session(&self, session: u64) -> (wire: Option<u32>)
        ensures
            wire == self.session_wire(session),
    {
        match self.session(session) {
            Some(row) => row.wire,
            None => None,
        }
    }

    /// The wire id of the session whose window holds a resource.
    pub fn group(&self, core: u64) -> (group: Option<u32>)
        ensures
            group == self.group_of(core),
    {
        match self.resource(core) {
            Some(row) => match row.window {
                Some(window) => match self.window(window) {
                    Some(window) => self.wire_of_session(window.session),
                    None => None,
                },
                None => None,
            },
            None => None,
        }
    }

    /// A resource of this server, as itself. One without a wire id is unnamed,
    /// never skipped.
    pub fn local_point(&self, core: u64) -> (pane: Pane)
        ensures
            pane@ == self.local_pane(core),
    {
        let at = match self.resource(core) {
            Some(row) => match row.wire {
                Some(id) => Located::Local(id),
                None => Located::Unnamed,
            },
            None => Located::Unnamed,
        };
        Pane { at, group: self.group(core) }
    }

    /// The terminal that local id `id` names, with its parent.
    pub fn local_terminal(&self, id: u32, core: Option<u64>) -> (point: TerminalPoint)
        ensures
            point@ == self.local_terminal_at(id, core),
    {
        let group = match core {
            Some(core) => self.group(core),
            None => None,
        };
        let parent = match core {
            Some(core) => match self.resource_parent(core) {
                Some(parent) => Some(self.local_point(parent)),
                None => None,
            },
            None => None,
        };
        TerminalPoint { pane: Pane { at: Located::Local(id), group }, parent }
    }

    /// The terminal that `wire` names.
    pub fn terminal_point(&self, wire: &TerminalId) -> (point: TerminalPoint)
        ensures
            point@ == self.terminal_at(*wire),
    {
        match wire {
            TerminalId::Local { id } => {
                let core = self.terminal_from_wire(wire);
                self.local_terminal(*id, core)
            },
            TerminalId::Satellite { host, id } => TerminalPoint {
                pane: Pane { at: Located::Satellite(host.clone(), *id), group: None },
                parent: None,
            },
        }
    }

    fn last_session(&self) -> (session: Option<u64>)
        ensures
            session == self.last(),
    {
        match self.last_touched {
            Some(session) => {
                return Some(session);
            },
            None => {},
        }
        if self.touch_history {
            return None;
        }
        match &self.pre_seeded {
            Some(name) => self.find_session_by_name(name.as_str()),
            None => None,
        }
    }

    /// The session that an attach to `target` joins.
    pub fn find_attach_session(&self, target: &AttachTarget) -> (session: Option<u64>)
        ensures
            session == self.attach_session(*target),
    {
        match target {
            AttachTarget::Last => self.last_session(),
            AttachTarget::ById(wire) => self.resolve_session(*wire),
            AttachTarget::ByName(name) => self.find_session_by_name(name.as_str()),
            AttachTarget::CreateIfMissing { name } => self.find_session_by_name(name.as_str()),
            AttachTarget::Unrecognized => None,
        }
    }

    fn attached_session(&self, client: ClientId) -> (session: Option<u64>)
        ensures
            session == attached_from(self.attached@, client, 0),
    {
        let mut i: usize = 0;
        while i < self.attached.len()
            invariant
                i <= self.attached@.len(),
                attached_from(self.attached@, client, 0) == attached_from(
                    self.attached@,
                    client,
                    i as int,
                ),
            decreases self.attached@.len() - i,
        {
            if self.attached[i].client.0 == client.0 {
                return Some(self.attached[i].session);
            }
            i += 1;
        }
        None
    }

    /// Every terminal of the session that `client` is attached to.
    pub fn attached_resources(&self, client: ClientId) -> (cores: Vec<u64>)
        ensures
            cores@ == self.attached_cores(client),
    {
        let mut cores: Vec<u64> = Vec::new();
        let session = match self.attached_session(client) {
            Some(session) => session,
            None => {
                return cores;
            },
        };
        let row = match self.session(session) {
            Some(row) => row,
            None => {
                return cores;
            },
        };
        let mut i: usize = 0;
        while i < row.windows.len()
            invariant
                i <= row.windows@.len(),
                cores@ == slots_of(self.windows@, row.windows@, i as nat),
            decreases row.windows@.len() - i,
        {
            match self.window(row.windows[i]) {
                Some(window) => {
                    let ghost before = cores@;
                    let mut j: usize = 0;
                    while j < window.slots.len()
                        invariant
                            j <= window.slots@.len(),
                            cores@ == before + window.slots@.take(j as int),
                        decreases window.slots@.len() - j,
                    {
                        cores.push(window.slots[j]);
                        j += 1;
                        assert(cores@ =~= before + window.slots@.take(j as int));
                    }
                    assert(window.slots@.take(j as int) =~= window.slots@);
                },
                None => {},
            }
            i += 1;
        }
        cores
    }

    /// Whether `client` is subscribed to resource `core`.
    pub fn is_subscribed(&self, client: ClientId, core: u64) -> (subscribed: bool)
        ensures
            subscribed == self.subscribed(client, core),
    {
        let mut i: usize = 0;
        while i < self.subscriptions.len()
            invariant
                i <= self.subscriptions@.len(),
                forall|j: int|
                    0 <= j < i ==> #[trigger] self.subscriptions@[j] != (SubscriptionRow {
                        client,
                        core,
                    }),
            decreases self.subscriptions@.len() - i,
        {
            if self.subscriptions[i].client.0 == client.0 && self.subscriptions[i].core == core {
                return true;
            }
            i += 1;
        }
        false
    }

    /// Whether `client` only watches `terminal`.
    pub fn is_viewer(&self, client: ClientId, terminal: &TerminalId) -> (viewer: bool)
        ensures
            viewer == self.watches(client, *terminal),
    {
        let mut i: usize = 0;
        while i < self.viewers.len()
            invariant
                i <= self.viewers@.len(),
                forall|j: int|
                    0 <= j < i ==> !((#[trigger] self.viewers@[j]).client == client
                        && self.viewers@[j].terminal@ == terminal@),
            decreases self.viewers@.len() - i,
        {
            if self.viewers[i].client.0 == client.0 && self.viewers[i].terminal.same(terminal) {
                return true;
            }
            i += 1;
        }
        false
    }

    /// A held command.
    pub fn pending_approval(&self, id: ApprovalId) -> (found: Option<&PendingApproval>)
        ensures
            match found {
                Some(pending) => approval_from(self.approvals@, id, 0) == Some(*pending),
                None => approval_from(self.approvals@, id, 0) is None,
            },
    {
        let mut i: usize = 0;
        while i < self.approvals.len()
            invariant
                i <= self.approvals@.len(),
                approval_from(self.approvals@, id, 0) == approval_from(
                    self.approvals@,
                    id,
                    i as int,
                ),
            decreases self.approvals@.len() - i,
        {
            if self.approvals[i].id.0 == id.0 {
                return Some(&self.approvals[i]);
            }
            i += 1;
        }
        None
    }
}

} // verus!
