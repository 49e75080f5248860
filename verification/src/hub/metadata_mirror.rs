//! A read-only copy of two records of every satellite terminal.
//!
//! Records stay with the server that owns their subject. The exception is a
//! satellite terminal's agent record and its asked flag: a hub copies both, and
//! nothing else, under the terminal's satellite address. What a satellite says
//! about a terminal of yet another server is ignored.

use crate::ids::{SatelliteHost, TerminalId, TerminalV};
use crate::metadata::{MetadataStore, RecordKey, Scope, ScopeV};
use vstd::prelude::*;

verus! {

/// Key of the agent record.
pub const RESOURCE_AGENT_KEY: &'static str = "phux.agent/v1";

/// Key of the asked flag.
pub const RESOURCE_ASKED_KEY: &'static str = "phux.agent.asked/v1";

/// The value of the asked flag while a question is pending.
pub const ASKED_PRESENT: u8 = 49;

/// Whether records under `key` are mirrored.
pub open spec fn mirrors(key: Seq<char>) -> bool {
    key == RESOURCE_AGENT_KEY@ || key == RESOURCE_ASKED_KEY@
}

/// Whether records under `key` are mirrored.
pub fn is_mirrored_key(key: &str) -> (mirrored: bool)
    ensures
        mirrored == mirrors(key@),
{
    let key = key.to_owned();
    key == RESOURCE_AGENT_KEY.to_owned() || key == RESOURCE_ASKED_KEY.to_owned()
}

/// Write or remove the asked flag of a terminal that this server owns.
pub fn publish_asked_flag(store: &mut MetadataStore, wire: &TerminalId, asked: bool)
    requires
        old(store).wf(),
    ensures
        final(store).wf(),
        final(store).subscriptions == old(store).subscriptions,
        final(store)@ == (if asked {
            old(store)@.insert(
                (ScopeV::Resource(wire@), RESOURCE_ASKED_KEY@),
                seq![ASKED_PRESENT],
            )
        } else {
            old(store)@.remove((ScopeV::Resource(wire@), RESOURCE_ASKED_KEY@))
        }),
{
    let scope = Scope::Resource(wire.clone());
    if asked {
        let mut value: Vec<u8> = Vec::new();
        value.push(ASKED_PRESENT);
        assert(value@ =~= seq![ASKED_PRESENT]);
        store.metadata_set(&scope, RESOURCE_ASKED_KEY, value);
    } else {
        store.metadata_delete(&scope, RESOURCE_ASKED_KEY);
    }
}

/// The scope under which a hub keeps a satellite's record.
pub open spec fn mirror_scope(host: Seq<char>, scope: ScopeV) -> Option<ScopeV> {
    match scope {
        ScopeV::Resource(TerminalV::Local(id)) => Some(
            ScopeV::Resource(TerminalV::Satellite(host, id)),
        ),
        _ => None,
    }
}

fn retag_local_scope(host: &SatelliteHost, scope: &Scope) -> (retagged: Option<Scope>)
    ensures
        match retagged {
            Some(retagged) => mirror_scope(host.name@, scope@) == Some(retagged@),
            None => mirror_scope(host.name@, scope@) is None,
        },
{
    match scope {
        Scope::Resource(terminal) => match terminal {
            TerminalId::Local { id } => Some(
                Scope::Resource(TerminalId::satellite(host.clone(), *id)),
            ),
            TerminalId::Satellite { .. } => None,
        },
        _ => None,
    }
}

/// The records after a satellite reported one of its own.
pub open spec fn mirrored(
    records: Map<RecordKey, Seq<u8>>,
    host: Seq<char>,
    scope: ScopeV,
    key: Seq<char>,
    value: Option<Seq<u8>>,
) -> Map<RecordKey, Seq<u8>> {
    match mirror_scope(host, scope) {
        Some(kept) if mirrors(key) => match value {
            Some(value) => records.insert((kept, key), value),
            None => records.remove((kept, key)),
        },
        _ => records,
    }
}

/// Take over what a satellite reports of one of its own terminals; whether it
/// was taken over.
pub fn apply_mirrored(
    store: &mut MetadataStore,
    host: &SatelliteHost,
    scope: &Scope,
    key: &str,
    value: Option<Vec<u8>>,
) -> (applied: bool)
    requires
        old(store).wf(),
    ensures
        final(store).wf(),
        final(store).subscriptions == old(store).subscriptions,
        applied == (mirrors(key@) && mirror_scope(host.name@, scope@) is Some),
        final(store)@ == mirrored(
            old(store)@,
            host.name@,
            scope@,
            key@,
            (match value {
                Some(value) => Some(value@),
                None => None,
            }),
        ),
{
    if !is_mirrored_key(key) {
        return false;
    }
    let retagged = match retag_local_scope(host, scope) {
        Some(retagged) => retagged,
        None => {
            return false;
        },
    };
    match value {
        Some(bytes) => {
            store.metadata_set(&retagged, key, bytes);
        },
        None => {
            store.metadata_delete(&retagged, key);
        },
    }
    true
}

/// A satellite terminal is gone: remove both records and its subscriptions.
pub fn forget_mirrored_terminal(store: &mut MetadataStore, host: &SatelliteHost, id: u32)
    requires
        old(store).wf(),
    ensures
        final(store).wf(),
        ({
            let scope = ScopeV::Resource(TerminalV::Satellite(host.name@, id));
            final(store)@ == old(store)@.remove((scope, RESOURCE_AGENT_KEY@)).remove(
                (scope, RESOURCE_ASKED_KEY@),
            )
        }),
        final(store).subscriptions@ == crate::metadata::not_about(
            old(store).subscriptions@,
            old(store).subscriptions@.len(),
            TerminalV::Satellite(host.name@, id),
        ),
{
    let wire = TerminalId::satellite(host.clone(), id);
    let scope = Scope::Resource(wire.clone());
    store.metadata_delete(&scope, RESOURCE_AGENT_KEY);
    store.metadata_delete(&scope, RESOURCE_ASKED_KEY);
    store.drop_terminal_metadata(&wire);
}

/// Whatever a satellite reports, no record of this server's own subjects
/// changes: mirroring writes under satellite addresses of that satellite only.
pub proof fn law_mirroring_spares_local_records(
    records: Map<RecordKey, Seq<u8>>,
    host: Seq<char>,
    scope: ScopeV,
    key: Seq<char>,
    value: Option<Seq<u8>>,
    other: RecordKey,
)
    requires
        !(other.0 matches ScopeV::Resource(TerminalV::Satellite(at, _)) && at == host),
    ensures
        mirrored(records, host, scope, key, value).contains_key(other) == records.contains_key(
            other,
        ),
        records.contains_key(other) ==> mirrored(records, host, scope, key, value)[other]
            == records[other],
{
}

/// What a hub reads back is what the satellite reported last, and nothing once
/// the satellite removed it.
pub proof fn law_mirror_reads_back_the_report(
    records: Map<RecordKey, Seq<u8>>,
    host: Seq<char>,
    id: u32,
    key: Seq<char>,
    value: Seq<u8>,
)
    requires
        mirrors(key),
    ensures
        ({
            let scope = ScopeV::Resource(TerminalV::Local(id));
            let kept = (ScopeV::Resource(TerminalV::Satellite(host, id)), key);
            let written = mirrored(records, host, scope, key, Some(value));
            &&& written.contains_key(kept) && written[kept] == value
            &&& !mirrored(written, host, scope, key, None).contains_key(kept)
        }),
{
}

/// Satellites do not chain: a record about another server's terminal is
/// ignored.
pub proof fn law_chained_records_are_ignored(
    records: Map<RecordKey, Seq<u8>>,
    host: Seq<char>,
    at: Seq<char>,
    id: u32,
    key: Seq<char>,
    value: Option<Seq<u8>>,
)
    ensures
        mirrored(records, host, ScopeV::Resource(TerminalV::Satellite(at, id)), key, value)
            == records,
{
}

} // verus!
