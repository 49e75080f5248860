//! Mirroring over a link: asking a satellite for a terminal's records, and
//! taking over what it reports of them.

use crate::hub::fault::RelayFault;
use crate::hub::metadata_mirror::{
    apply_mirrored, mirrored, RESOURCE_AGENT_KEY, RESOURCE_ASKED_KEY,
};
use crate::hub::relay::RelaySession;
use crate::hub::requests::PendingRead;
use crate::hub::session::SessionV;
use crate::ids::{ClientId, TerminalId, TerminalV};
use crate::metadata::{MetadataStore, RecordKey, Scope, ScopeV};
use vstd::prelude::*;
use vstd::std_specs::hash::*;

verus! {

broadcast use vstd::std_specs::hash::group_hash_axioms;

/// A frame about records.
#[derive(Debug, PartialEq, Eq)]
pub enum RecordFrame {
    /// Ask to hear about changes of a record.
    SubscribeMetadata {
        /// What the record is attached to.
        scope: Scope,
        /// Its key.
        key: String,
    },
    /// Ask for a record.
    GetMetadata {
        /// Correlates the reply.
        request_id: u32,
        /// What the record is attached to.
        scope: Scope,
        /// Its key.
        key: String,
    },
    /// A record changed.
    MetadataChanged {
        /// What the record is attached to.
        scope: Scope,
        /// Its key.
        key: String,
        /// Its value, unless it was removed.
        value: Option<Vec<u8>>,
        /// Who changed it.
        actor: Option<ClientId>,
    },
    /// The answer to a request for a record.
    MetadataValue {
        /// The request.
        request_id: u32,
        /// The record's value, if there is such a record.
        value: Option<Vec<u8>>,
    },
}

/// A frame about records, as contracts speak of it.
#[verifier::ext_equal]
pub enum RecordFrameV {
    /// Ask to hear about changes of a record.
    Subscribe(ScopeV, Seq<char>),
    /// Ask for a record.
    Get(u32, ScopeV, Seq<char>),
    /// A record changed, and who changed it.
    Changed(ScopeV, Seq<char>, Option<Seq<u8>>, Option<ClientId>),
    /// The answer to a request for a record.
    Value(u32, Option<Seq<u8>>),
}

/// A value as contracts speak of it.
pub open spec fn value_view(value: Option<Vec<u8>>) -> Option<Seq<u8>> {
    match value {
        Some(value) => Some(value@),
        None => None,
    }
}

impl View for RecordFrame {
    type V = RecordFrameV;

    open spec fn view(&self) -> RecordFrameV {
        match *self {
            RecordFrame::SubscribeMetadata { scope, key } => RecordFrameV::Subscribe(scope@, key@),
            RecordFrame::GetMetadata { request_id, scope, key } => RecordFrameV::Get(
                request_id,
                scope@,
                key@,
            ),
            RecordFrame::MetadataChanged { scope, key, value, actor } => RecordFrameV::Changed(
                scope@,
                key@,
                value_view(value),
                actor,
            ),
            RecordFrame::MetadataValue { request_id, value } => RecordFrameV::Value(
                request_id,
                value_view(value),
            ),
        }
    }
}

/// Frames as contracts speak of them.
pub open spec fn record_frames(frames: Seq<RecordFrame>) -> Seq<RecordFrameV> {
    frames.map_values(|frame: RecordFrame| frame@)
}

/// The key of the record that a read asks for.
pub open spec fn read_key(asked: bool) -> Seq<char> {
    if asked {
        RESOURCE_ASKED_KEY@
    } else {
        RESOURCE_AGENT_KEY@
    }
}

fn key_of_read(asked: bool) -> (key: &'static str)
    ensures
        key@ == read_key(asked),
{
    if asked {
        RESOURCE_ASKED_KEY
    } else {
        RESOURCE_AGENT_KEY
    }
}

impl SessionV {
    /// The session once one of `terminal`'s records is asked for.
    pub open spec fn reading(self, terminal: u32, asked: bool) -> Self {
        SessionV { requests: self.requests.with_read(PendingRead { terminal, asked }), ..self }
    }

    /// What asks for one of `terminal`'s records: to hear about it, then for
    /// it as it is.
    pub open spec fn read_frames(self, terminal: u32, asked: bool) -> Seq<RecordFrameV> {
        let scope = ScopeV::Resource(TerminalV::Local(terminal));
        seq![
            RecordFrameV::Subscribe(scope, read_key(asked)),
            RecordFrameV::Get(self.requests.fresh(), scope, read_key(asked)),
        ]
    }

    /// The session once `terminal`'s records are mirrored.
    pub open spec fn mirroring(self, terminal: u32) -> Self {
        if self.mirrored.contains(terminal) {
            self
        } else {
            SessionV {
                mirrored: self.mirrored.insert(terminal),
                ..self.reading(terminal, false).reading(terminal, true)
            }
        }
    }

    /// What has to go out for `terminal`'s records to be mirrored.
    pub open spec fn mirror_frames(self, terminal: u32) -> Seq<RecordFrameV> {
        if self.mirrored.contains(terminal) {
            Seq::empty()
        } else {
            self.read_frames(terminal, false) + self.reading(terminal, false).read_frames(
                terminal,
                true,
            )
        }
    }

    /// The session and the records after the satellite sent `frame`, unless
    /// satellites do not send such frames.
    pub open spec fn reported(self, frame: RecordFrameV, records: Map<RecordKey, Seq<u8>>) -> Result<
        (Self, Map<RecordKey, Seq<u8>>),
        RelayFault,
    > {
        match frame {
            RecordFrameV::Changed(scope, key, value, _) => Ok(
                (self, mirrored(records, self.link.host.name@, scope, key, value)),
            ),
            RecordFrameV::Value(id, value) => if self.requests.reads.contains_key(id) {
                let read = self.requests.reads[id];
                Ok(
                    (
                        self.read(id),
                        mirrored(
                            records,
                            self.link.host.name@,
                            ScopeV::Resource(TerminalV::Local(read.terminal)),
                            read_key(read.asked),
                            value,
                        ),
                    ),
                )
            } else {
                Ok((self, records))
            },
            _ => Err(RelayFault::DirectionInvalid),
        }
    }
}

impl RelaySession {
    fn ask_for_record(&mut self, terminal: u32, asked: bool, frames: &mut Vec<RecordFrame>)
        requires
            old(self).wf(),
            old(self).requests.has_room(),
        ensures
            final(self).wf(),
            final(self).requests.in_flight() == old(self).requests.in_flight() + 1,
            final(self)@ == old(self)@.reading(terminal, asked),
            record_frames(final(frames)@) == record_frames(old(frames)@) + old(self)@.read_frames(
                terminal,
                asked,
            ),
    {
        let ghost before = frames@;
        let request_id = self.requests.allocate_request_id();
        self.requests.pending_reads.insert(request_id, PendingRead { terminal, asked });
        frames.push(
            RecordFrame::SubscribeMetadata {
                scope: Scope::Resource(TerminalId::local(terminal)),
                key: key_of_read(asked).to_owned(),
            },
        );
        frames.push(
            RecordFrame::GetMetadata {
                request_id,
                scope: Scope::Resource(TerminalId::local(terminal)),
                key: key_of_read(asked).to_owned(),
            },
        );
        assert(self@ =~= old(self)@.reading(terminal, asked));
        assert(record_frames(frames@) =~= record_frames(before) + old(self)@.read_frames(
            terminal,
            asked,
        ));
    }

    /// Mirror `terminal`'s records from now on. A terminal that is mirrored
    /// already needs nothing more.
    pub fn mirror_terminal(&mut self, terminal: u32) -> (frames: Vec<RecordFrame>)
        requires
            old(self).wf(),
            old(self).requests.in_flight() + 1 < u32::MAX,
        ensures
            final(self).wf(),
            final(self)@ == old(self)@.mirroring(terminal),
            record_frames(frames@) == old(self)@.mirror_frames(terminal),
    {
        let mut frames: Vec<RecordFrame> = Vec::new();
        assert(record_frames(frames@) =~= Seq::<RecordFrameV>::empty());
        if self.mirrored.contains(&terminal) {
            return frames;
        }
        self.ask_for_record(terminal, false, &mut frames);
        self.ask_for_record(terminal, true, &mut frames);
        self.mirrored.insert(terminal);
        assert(self@ =~= old(self)@.mirroring(terminal));
        assert(record_frames(frames@) =~= old(self)@.mirror_frames(terminal));
        frames
    }

    /// Take a frame about records from the satellite. What it reports of its
    /// own terminals' agent records and asked flags is kept; everything else is
    /// ignored.
    pub fn handle_record_frame(&mut self, frame: RecordFrame, store: &mut MetadataStore) -> (outcome:
        Result<(), RelayFault>)
        requires
            old(self).wf(),
            old(store).wf(),
        ensures
            final(self).wf(),
            final(store).wf(),
            final(store).subscriptions == old(store).subscriptions,
            match old(self)@.reported(frame@, old(store)@) {
                Ok((session, records)) => outcome is Ok && final(self)@ == session && final(store)@
                    == records,
                Err(fault) => outcome == Err::<(), RelayFault>(fault) && final(self)@ == old(self)@
                    && final(store)@ == old(store)@,
            },
    {
        match frame {
            RecordFrame::MetadataChanged { scope, key, value, .. } => {
                apply_mirrored(store, &self.link.host, &scope, key.as_str(), value);
                Ok(())
            },
            RecordFrame::MetadataValue { request_id, value } => {
                match self.requests.pending_reads.remove(request_id) {
                    Some(read) => {
                        assert(self@ =~= old(self)@.read(request_id));
                        let scope = Scope::Resource(TerminalId::local(read.terminal));
                        apply_mirrored(
                            store,
                            &self.link.host,
                            &scope,
                            key_of_read(read.asked),
                            value,
                        );
                    },
                    None => {
                        assert(self@ =~= old(self)@);
                    },
                }
                Ok(())
            },
            _ => Err(RelayFault::DirectionInvalid),
        }
    }
}

/// A terminal's records are asked for once per connection.
pub proof fn law_mirrors_are_asked_for_once(session: SessionV, terminal: u32)
    ensures
        session.mirroring(terminal).mirror_frames(terminal).len() == 0,
        session.mirroring(terminal).mirroring(terminal) == session.mirroring(terminal),
{
}

/// What a satellite answers to a read is what the hub keeps of that record of
/// that terminal, under the satellite's address; and the read is off the books.
pub proof fn law_read_answers_are_mirrored(
    session: SessionV,
    id: u32,
    value: Seq<u8>,
    records: Map<RecordKey, Seq<u8>>,
)
    requires
        session.requests.reads.contains_key(id),
    ensures
        ({
            let read = session.requests.reads[id];
            let kept = (
                ScopeV::Resource(TerminalV::Satellite(session.link.host.name@, read.terminal)),
                read_key(read.asked),
            );
            session.reported(RecordFrameV::Value(id, Some(value)), records) matches Ok(
                (after, now),
            ) && now.contains_key(kept) && now[kept] == value
                && !after.requests.reads.contains_key(id)
        }),
{
}

/// An answer that nobody asked for changes nothing.
pub proof fn law_unasked_answers_are_ignored(
    session: SessionV,
    id: u32,
    value: Option<Seq<u8>>,
    records: Map<RecordKey, Seq<u8>>,
)
    requires
        !session.requests.reads.contains_key(id),
    ensures
        session.reported(RecordFrameV::Value(id, value), records) == Ok::<_, RelayFault>(
            (session, records),
        ),
{
}

} // verus!
