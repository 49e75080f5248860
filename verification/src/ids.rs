//! Identifiers that cross the wire or name a party inside the server.

use vstd::prelude::*;

verus! {

/// The name under which a hub knows one satellite server.
#[derive(Debug, PartialEq, Eq)]
pub struct SatelliteHost {
    /// The configured host name.
    pub name: String,
}

impl SatelliteHost {
    /// A host by name.
    pub fn new(name: &str) -> (host: Self)
        ensures
            host.name@ == name@,
    {
        SatelliteHost { name: name.to_owned() }
    }

    /// Whether two hosts carry the same name.
    pub fn same(&self, other: &Self) -> (same: bool)
        ensures
            same == (self.name@ == other.name@),
    {
        self.name == other.name
    }
}

impl Clone for SatelliteHost {
    fn clone(&self) -> (copy: Self)
        ensures
            copy == *self,
    {
        SatelliteHost { name: self.name.clone() }
    }
}

/// A terminal as the wire addresses it: one of this server's own, or one that
/// a satellite owns.
#[derive(Debug, PartialEq, Eq)]
pub enum TerminalId {
    /// A terminal of the server that reads the id.
    Local {
        /// Number in that server's terminal space.
        id: u32,
    },
    /// A terminal of a satellite, addressed through its hub.
    Satellite {
        /// The satellite that owns the terminal.
        host: SatelliteHost,
        /// Number in the satellite's own terminal space.
        id: u32,
    },
}

impl TerminalId {
    /// A local terminal.
    pub fn local(id: u32) -> (terminal: Self)
        ensures
            terminal == (TerminalId::Local { id }),
    {
        TerminalId::Local { id }
    }

    /// A terminal of satellite `host`.
    pub fn satellite(host: SatelliteHost, id: u32) -> (terminal: Self)
        ensures
            terminal == (TerminalId::Satellite { host, id }),
    {
        TerminalId::Satellite { host, id }
    }

    /// Whether the id names a terminal of the server that reads it.
    pub fn is_local(&self) -> (local: bool)
        ensures
            local == (*self is Local),
    {
        match self {
            TerminalId::Local { .. } => true,
            TerminalId::Satellite { .. } => false,
        }
    }

    /// The number of a local id.
    pub fn local_id(&self) -> (id: Option<u32>)
        ensures
            id == (match *self {
                TerminalId::Local { id } => Some(id),
                TerminalId::Satellite { .. } => None,
            }),
    {
        match self {
            TerminalId::Local { id } => Some(*id),
            TerminalId::Satellite { .. } => None,
        }
    }
}

/// A terminal id as contracts speak of it.
#[verifier::ext_equal]
pub enum TerminalV {
    /// A terminal of the server that reads the id.
    Local(u32),
    /// A terminal of the named satellite.
    Satellite(Seq<char>, u32),
}

impl View for TerminalId {
    type V = TerminalV;

    open spec fn view(&self) -> TerminalV {
        match *self {
            TerminalId::Local { id } => TerminalV::Local(id),
            TerminalId::Satellite { host, id } => TerminalV::Satellite(host.name@, id),
        }
    }
}

impl TerminalId {
    /// Whether two ids name the same terminal.
    pub fn same(&self, other: &Self) -> (same: bool)
        ensures
            same == (self@ == other@),
    {
        match (self, other) {
            (TerminalId::Local { id: a }, TerminalId::Local { id: b }) => *a == *b,
            (
                TerminalId::Satellite { host: at, id: a },
                TerminalId::Satellite { host: bt, id: b },
            ) => at.same(bt) && *a == *b,
            _ => false,
        }
    }
}

impl Clone for TerminalId {
    fn clone(&self) -> (copy: Self)
        ensures
            copy == *self,
    {
        match self {
            TerminalId::Local { id } => TerminalId::Local { id: *id },
            TerminalId::Satellite { host, id } => TerminalId::Satellite {
                host: host.clone(),
                id: *id,
            },
        }
    }
}

/// One connected consumer.
#[derive(Debug, Clone, Copy, PartialEq, Eq, Structural)]
pub struct ClientId(pub u64);

/// A logical terminal stream; never zero.
#[derive(Debug, Clone, Copy, PartialEq, Eq, Structural)]
pub struct StreamId {
    /// The number on the wire.
    pub raw: u64,
}

impl StreamId {
    /// The stream numbered `raw`; zero names none.
    pub fn new(raw: u64) -> (id: Option<Self>)
        ensures
            id == (if raw == 0 {
                None
            } else {
                Some(StreamId { raw })
            }),
    {
        if raw == 0 {
            None
        } else {
            Some(StreamId { raw })
        }
    }

    /// The number on the wire.
    pub fn get(&self) -> (raw: u64)
        ensures
            raw == self.raw,
    {
        self.raw
    }
}

/// One bootstrap generation of a stream; never zero.
#[derive(Debug, Clone, Copy, PartialEq, Eq, Structural)]
pub struct BootstrapId {
    /// The number on the wire.
    pub raw: u64,
}

impl BootstrapId {
    /// The generation numbered `raw`; zero names none.
    pub fn new(raw: u64) -> (id: Option<Self>)
        ensures
            id == (if raw == 0 {
                None
            } else {
                Some(BootstrapId { raw })
            }),
    {
        if raw == 0 {
            None
        } else {
            Some(BootstrapId { raw })
        }
    }

    /// The number on the wire.
    pub fn get(&self) -> (raw: u64)
        ensures
            raw == self.raw,
    {
        self.raw
    }
}

/// A session as the wire names it.
#[derive(Debug, Clone, Copy, PartialEq, Eq, Structural)]
pub struct SessionId(pub u32);

/// A window as the wire names it.
#[derive(Debug, Clone, Copy, PartialEq, Eq, Structural)]
pub struct WindowId(pub u32);

/// A group of terminals, the unit that scoped grants and spawns name.
#[derive(Debug, Clone, Copy, PartialEq, Eq, Structural)]
pub struct GroupId(pub u32);

} // verus!
