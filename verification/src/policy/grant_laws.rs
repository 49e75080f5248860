//! What a connection's grant is worth, from the handshake on.

use super::engine::{
    decision, entitlement, expiry_of, record_from, AuthenticatedCredential, PeerIdentity,
    PolicyError, ScopedPolicy, WorkloadRecord, WorkloadSnapshot,
};
use super::grant::{ConnectionGrant, DENIAL_ERROR_INTERVAL_NANOS};
use super::posture::{local_posture, PolicyPosture, PostureError};
use crate::clock::{exact, saturated, Timestamp, FIRST_SECOND, LAST_SECOND};
use vstd::prelude::*;

verus! {

/// The owner's own user over the owner's socket gets the owner's grant, whatever
/// credential it shows: everything, without end, not revoked.
pub proof fn law_the_owner_is_let_in(
    policy: ScopedPolicy,
    uid: u32,
    peer: PeerIdentity,
    credential: Option<AuthenticatedCredential>,
    outcome: Result<ConnectionGrant, PolicyError>,
)
    requires
        decision(policy, uid, peer, credential, outcome),
        peer.transport is UnixSocket,
        peer.uid == uid,
    ensures
        outcome matches Ok(grant) && grant.authority is Owner && grant.expires_at is None
            && grant.revoked is None && grant.credential_id is None && grant.last_denial_error
            is None,
{
}

proof fn lemma_record(records: Seq<WorkloadRecord>, id: Seq<char>, from: int)
    requires
        0 <= from <= records.len(),
    ensures
        match record_from(records, id, from) {
            Some(record) => record.id@ == id && exists|i: int|
                from <= i < records.len() && #[trigger] records[i] == record && forall|j: int|
                    from <= j < i ==> (#[trigger] records[j]).id@ != id,
            None => forall|i: int| from <= i < records.len() ==> (#[trigger] records[i]).id@ != id,
        },
    decreases records.len() - from,
{
    if from < records.len() {
        if records[from].id@ != id {
            lemma_record(records, id, from + 1);
        } else {
            assert(records[from] == record_from(records, id, from)->Some_0);
        }
    }
}

/// A credential entitles to the record of its own id, where the id has its
/// canonical form and the record has a ceiling that can be encoded; to nothing
/// otherwise.
pub proof fn law_credentials_entitle_to_their_own_record(
    snapshot: WorkloadSnapshot,
    credential: AuthenticatedCredential,
)
    ensures
        entitlement(snapshot, credential) matches Some(record) ==> {
            &&& record.id@ == credential.id@
            &&& snapshot.records@.contains(record)
            &&& credential.canonical
            &&& record.ceiling is Some
            &&& record.encoded is Ok
        },
        !credential.canonical ==> entitlement(snapshot, credential) is None,
        (forall|i: int|
            0 <= i < snapshot.records@.len() ==> (#[trigger] snapshot.records@[i]).id@
                != credential.id@) ==> entitlement(snapshot, credential) is None,
        credential.canonical && (exists|i: int|
            0 <= i < snapshot.records@.len() && (#[trigger] snapshot.records@[i]).id@
                == credential.id@) && (forall|i: int|
            0 <= i < snapshot.records@.len() ==> (#[trigger] snapshot.records@[i]).ceiling is Some
                && snapshot.records@[i].encoded is Ok) ==> entitlement(snapshot, credential)
            is Some,
{
    lemma_record(snapshot.records@, credential.id@, 0);
}

/// A workload that is entitled gets a scoped grant that names its credential, the
/// registry and its generation, and ends when its record ends: at that very
/// second, or never where the record names no second that a clock can hold.
pub proof fn law_workloads_get_what_their_record_says(
    policy: ScopedPolicy,
    uid: u32,
    peer: PeerIdentity,
    credential: AuthenticatedCredential,
    outcome: Result<ConnectionGrant, PolicyError>,
    record: WorkloadRecord,
)
    requires
        decision(policy, uid, peer, Some(credential), outcome),
        !(peer.transport is UnixSocket && peer.uid == uid),
        policy.registry matches Some(registry) && entitlement(registry.current, credential)
            == Some(record),
    ensures
        outcome matches Ok(grant) && grant.authority is Scoped && (
        grant.credential_id matches Some(id) && id@ == credential.id@) && grant.revoked is None
            && grant.registry_generation == policy.registry->Some_0.current.generation && (
        record.expires_at matches Some(seconds) ==> FIRST_SECOND <= seconds <= LAST_SECOND ==> (
        grant.expires_at matches Some(at) && at.seconds == seconds && at.nanos == 0)) && (
        record.expires_at is None ==> grant.expires_at is None),
{
    let registry = policy.registry->Some_0;
    law_credentials_entitle_to_their_own_record(registry.current, credential);
    assert(expiry_of(record) is Some ==> record.expires_at is Some);
}

/// A grant is good before its end and not from its end on; without an end it is
/// good for ever.
pub proof fn law_grants_end_at_their_time(grant: ConnectionGrant, now: Timestamp, end: Timestamp)
    ensures
        grant.expires_at is None ==> !grant.expired(now),
        grant.expires_at == Some(end) ==> (grant.expired(now) <==> end.seconds < now.seconds || (
        end.seconds == now.seconds && end.nanos <= now.nanos)),
        grant.expires_at == Some(now) ==> grant.expired(now),
{
}

/// Time is a total order.
pub proof fn law_time_is_ordered(a: Timestamp, b: Timestamp, c: Timestamp)
    ensures
        a.not_later(b) || b.not_later(a),
        a.not_later(b) && b.not_later(a) ==> a == b,
        a.not_later(b) && b.not_later(c) ==> a.not_later(c),
        a.seconds < b.seconds ==> a.not_later(b) && !b.not_later(a),
{
}

/// A wall clock before the epoch reads zero or nothing; one too far ahead reads
/// the largest number or nothing; any other reads what it shows.
pub proof fn law_clocks_read_what_they_show(millis: u128)
    ensures
        saturated(None) == 0,
        exact(None) is None,
        millis <= u64::MAX ==> saturated(Some(millis)) == millis && exact(Some(millis)) == Some(
            millis as u64,
        ),
        millis > u64::MAX ==> saturated(Some(millis)) == u64::MAX && exact(Some(millis)) is None,
{
}

/// A connection is told of a denial at first, and then again once the interval
/// has passed; nothing but the time of the last one decides.
pub proof fn law_denials_are_told_after_the_interval(
    grant: ConnectionGrant,
    last: u64,
    now: u64,
)
    ensures
        grant.last_denial_error is None ==> grant.may_send_denial(now),
        grant.last_denial_error == Some(last) ==> (grant.may_send_denial(now) <==> last
            + DENIAL_ERROR_INTERVAL_NANOS <= now),
        DENIAL_ERROR_INTERVAL_NANOS == 1_000_000_000,
{
}

/// The local mode lets nobody in from afar: it stands only without workload
/// certificates and without a remote listener, and says which of the two is in
/// the way.
pub proof fn law_the_local_mode_stays_local(workload_mtls_env: bool, remote_listener: bool)
    ensures
        local_posture(workload_mtls_env, remote_listener) is Ok <==> !workload_mtls_env
            && !remote_listener,
        local_posture(workload_mtls_env, remote_listener) matches Ok(posture) ==> posture
            == PolicyPosture::Local,
        workload_mtls_env ==> local_posture(workload_mtls_env, remote_listener) == Err::<
            PolicyPosture,
            PostureError,
        >(PostureError::LocalWithWorkloadMtls),
        !workload_mtls_env && remote_listener ==> local_posture(workload_mtls_env, remote_listener)
            == Err::<PolicyPosture, PostureError>(PostureError::LocalWithRemoteListener),
{
}

} // verus!
