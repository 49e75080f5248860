//! The handshake: which grant a connection gets.

use super::grant::{Authority, ConnectionGrant, ScopeError};
use super::scope::{clause_of, ScopeGrant, TerminalScopeSet};
use crate::clock::{timestamp_at, Timestamp, FIRST_SECOND, LAST_SECOND};
use vstd::prelude::*;
use vstd::string::*;

verus! {

/// How a peer reached the server.
#[derive(Debug, Clone, Copy, PartialEq, Eq, Structural)]
pub enum TransportType {
    /// The server's Unix socket.
    UnixSocket,
    /// QUIC.
    Quic,
    /// A web socket.
    WebSocket,
    /// Web transport.
    WebTransport,
    /// A tunnel over SSH.
    SshTunnel,
    /// A loopback connection.
    Localhost,
}

/// Who a peer is, as its transport authenticated it.
#[derive(Debug, Clone, Copy, PartialEq, Eq, Structural)]
pub struct PeerIdentity {
    /// The user it runs as.
    pub uid: u32,
    /// How it reached the server.
    pub transport: TransportType,
}

/// A credential that a transport verified.
#[derive(Debug, PartialEq, Eq)]
pub struct AuthenticatedCredential {
    /// Its id.
    pub id: String,
    /// Whether the id has the canonical form of a workload credential.
    pub canonical: bool,
}

/// An active credential of the workload registry.
#[derive(Debug, PartialEq, Eq)]
pub struct WorkloadRecord {
    /// The credential's id.
    pub id: String,
    /// What the credential allows, if the record says it legibly.
    pub ceiling: Option<TerminalScopeSet>,
    /// Whether the ceiling's clauses encode within what the protocol allows.
    pub encoded: Result<(), ScopeError>,
    /// When the credential expires, in seconds since the Unix epoch.
    pub expires_at: Option<i64>,
}

/// The workload registry at one moment.
#[derive(Debug, PartialEq, Eq)]
pub struct WorkloadSnapshot {
    /// The registry file instance.
    pub instance_id: Option<String>,
    /// The registry generation.
    pub generation: u64,
    /// The active credentials.
    pub records: Vec<WorkloadRecord>,
}

/// The live workload registry: what it held when it was last read.
#[derive(Debug, PartialEq, Eq)]
pub struct WorkloadRegistry {
    /// What it held.
    pub current: WorkloadSnapshot,
}

/// Errors of the handshake. Each refuses the connection.
#[derive(Debug, PartialEq, Eq)]
pub enum PolicyError {
    /// The peer may not connect.
    Unauthorized(String),
    /// The decision itself failed.
    Internal(String),
}

impl PolicyError {
    /// The one refusal that every failed check gives: it does not say which
    /// check failed.
    pub open spec fn is_refusal(&self) -> bool {
        *self matches PolicyError::Unauthorized(text) && text@ == "not authorized"@
    }

    fn refused() -> (error: Self)
        ensures
            error.is_refusal(),
    {
        PolicyError::Unauthorized("not authorized".to_owned())
    }

    /// The error in words.
    pub fn message(&self) -> (text: String)
        ensures
            text@ == (match *self {
                PolicyError::Unauthorized(why) => "unauthorized: "@ + why@,
                PolicyError::Internal(why) => "internal: "@ + why@,
            }),
    {
        match self {
            PolicyError::Unauthorized(why) => "unauthorized: ".to_owned().concat(why.as_str()),
            PolicyError::Internal(why) => "internal: ".to_owned().concat(why.as_str()),
        }
    }
}

/// The engine without a configured mode: every connection holds the owner's
/// grant.
#[derive(Debug, Clone, Copy, PartialEq, Eq, Structural)]
pub struct PermissivePolicy;

impl PermissivePolicy {
    /// The grant of any connection.
    pub fn authorize_hello(
        &self,
        _peer: &PeerIdentity,
        _credential: Option<&AuthenticatedCredential>,
    ) -> (grant: Result<ConnectionGrant, PolicyError>)
        ensures
            grant == Ok::<ConnectionGrant, PolicyError>(ConnectionGrant::of_the_owner()),
    {
        Ok(ConnectionGrant::owner())
    }
}

/// The engine of the two closed modes. Both give the owner's socket the
/// owner's grant. The local mode refuses everything else; the paired mode lets
/// a connection in with a credential that the registry holds as active.
#[derive(Debug, PartialEq, Eq)]
pub struct ScopedPolicy {
    /// The registry of the paired mode.
    pub registry: Option<WorkloadRegistry>,
}

/// The first of `records` from `i` on with id `id`.
pub open spec fn record_from(records: Seq<WorkloadRecord>, id: Seq<char>, i: int) -> Option<
    WorkloadRecord,
>
    decreases records.len() - i,
{
    if i < 0 || i >= records.len() {
        None
    } else if records[i].id@ == id {
        Some(records[i])
    } else {
        record_from(records, id, i + 1)
    }
}

/// The record that entitles `credential` to a grant: active, legible and not
/// too large.
pub open spec fn entitlement(
    snapshot: WorkloadSnapshot,
    credential: AuthenticatedCredential,
) -> Option<WorkloadRecord> {
    if !credential.canonical {
        None
    } else {
        match record_from(snapshot.records@, credential.id@, 0) {
            Some(record) if record.ceiling is Some && record.encoded is Ok => Some(record),
            _ => None,
        }
    }
}

/// When a record's credential expires.
pub open spec fn expiry_of(record: WorkloadRecord) -> Option<Timestamp> {
    match record.expires_at {
        Some(seconds) if FIRST_SECOND <= seconds <= LAST_SECOND => Some(
            Timestamp { seconds, nanos: 0 },
        ),
        _ => None,
    }
}

/// Whether two optional texts are the same.
pub open spec fn same_text(a: Option<String>, b: Option<String>) -> bool {
    match (a, b) {
        (Some(a), Some(b)) => a@ == b@,
        (None, None) => true,
        _ => false,
    }
}

/// Whether `grant` is what `record` of `snapshot` mints.
pub open spec fn minted_from(
    grant: ConnectionGrant,
    snapshot: WorkloadSnapshot,
    record: WorkloadRecord,
) -> bool {
    &&& grant.authority matches Authority::Scoped { granted, effective }
    &&& record.ceiling matches Some(ceiling)
    &&& granted.grants@ == ceiling.grants@
    &&& effective.clauses@ == ceiling.grants@.map_values(|grant: ScopeGrant| clause_of(grant))
    &&& grant.credential_id matches Some(id)
    &&& id@ == record.id@
    &&& same_text(grant.registry_instance, snapshot.instance_id)
    &&& grant.registry_generation == snapshot.generation
    &&& grant.expires_at == expiry_of(record)
    &&& grant.last_denial_error is None
    &&& grant.revoked is None
}

/// Whether `outcome` is what the policy owes the peer, on a server that runs as
/// `uid`.
pub open spec fn decision(
    policy: ScopedPolicy,
    uid: u32,
    peer: PeerIdentity,
    credential: Option<AuthenticatedCredential>,
    outcome: Result<ConnectionGrant, PolicyError>,
) -> bool {
    if peer.transport is UnixSocket && peer.uid == uid {
        outcome == Ok::<ConnectionGrant, PolicyError>(ConnectionGrant::of_the_owner())
    } else {
        match (policy.registry, credential) {
            (Some(registry), Some(credential)) => match entitlement(registry.current, credential) {
                Some(record) => outcome matches Ok(grant) && minted_from(
                    grant,
                    registry.current,
                    record,
                ),
                None => outcome matches Err(error) && error.is_refusal(),
            },
            _ => outcome matches Err(error) && error.is_refusal(),
        }
    }
}

/// The credential behind an optional reference.
pub open spec fn presented(credential: Option<&AuthenticatedCredential>) -> Option<
    AuthenticatedCredential,
> {
    match credential {
        Some(credential) => Some(*credential),
        None => None,
    }
}

/// `nix::unistd::geteuid`: the user that this process runs as. Nothing is
/// stated of it.
#[verifier::external_body]
fn effective_uid() -> (uid: u32) {
    nix::unistd::geteuid().as_raw()
}

fn is_owner_socket(peer: &PeerIdentity, uid: u32) -> (owner: bool)
    ensures
        owner == (peer.transport is UnixSocket && peer.uid == uid),
{
    match peer.transport {
        TransportType::UnixSocket => peer.uid == uid,
        _ => false,
    }
}

fn copy_text(text: &Option<String>) -> (copy: Option<String>)
    ensures
        same_text(copy, *text),
{
    match text {
        Some(text) => Some(text.clone()),
        None => None,
    }
}

impl WorkloadSnapshot {
    fn lookup(&self, id: &String) -> (found: Option<&WorkloadRecord>)
        ensures
            match found {
                Some(record) => record_from(self.records@, id@, 0) == Some(*record),
                None => record_from(self.records@, id@, 0) is None,
            },
    {
        let mut i: usize = 0;
        while i < self.records.len()
            invariant
                i <= self.records@.len(),
                record_from(self.records@, id@, 0) == record_from(self.records@, id@, i as int),
            decreases self.records@.len() - i,
        {
            if self.records[i].id == *id {
                return Some(&self.records[i]);
            }
            i += 1;
        }
        None
    }
}

impl WorkloadRegistry {
    /// The registry as it was just read.
    pub fn reload(&mut self, snapshot: WorkloadSnapshot)
        ensures
            final(self).current == snapshot,
    {
        self.current = snapshot;
    }
}

/// Mint a scoped grant from the registry as it is now. The ceiling comes from
/// the registry's record, never from the credential, so a record that was
/// revoked since the credential was checked mints nothing.
fn scoped_grant(snapshot: &WorkloadSnapshot, credential: &AuthenticatedCredential) -> (outcome:
    Result<ConnectionGrant, PolicyError>)
    ensures
        match entitlement(*snapshot, *credential) {
            Some(record) => outcome matches Ok(grant) && minted_from(grant, *snapshot, record),
            None => outcome matches Err(error) && error.is_refusal(),
        },
{
    if !credential.canonical {
        return Err(PolicyError::refused());
    }
    let record = match snapshot.lookup(&credential.id) {
        Some(record) => record,
        None => {
            return Err(PolicyError::refused());
        },
    };
    let ceiling = match &record.ceiling {
        Some(ceiling) => TerminalScopeSet { grants: ceiling.grants() },
        None => {
            return Err(PolicyError::refused());
        },
    };
    let mut grant = match ConnectionGrant::scoped(
        ceiling,
        record.encoded,
        Some(record.id.clone()),
    ) {
        Ok(grant) => grant,
        Err(_) => {
            return Err(PolicyError::refused());
        },
    };
    grant.registry_instance = copy_text(&snapshot.instance_id);
    grant.registry_generation = snapshot.generation;
    grant.expires_at = match record.expires_at {
        Some(seconds) => timestamp_at(seconds),
        None => None,
    };
    Ok(grant)
}

impl ScopedPolicy {
    /// The local mode: the owner's socket only.
    pub fn local() -> (policy: Self)
        ensures
            policy.registry is None,
    {
        ScopedPolicy { registry: None }
    }

    /// The paired mode, which mints scoped grants from `registry`.
    pub fn paired(registry: WorkloadRegistry) -> (policy: Self)
        ensures
            policy.registry == Some(registry),
    {
        ScopedPolicy { registry: Some(registry) }
    }

    /// The grant of a peer, on a server that runs as `uid`.
    pub fn decide_as(
        &self,
        uid: u32,
        peer: &PeerIdentity,
        credential: Option<&AuthenticatedCredential>,
    ) -> (outcome: Result<ConnectionGrant, PolicyError>)
        ensures
            decision(*self, uid, *peer, presented(credential), outcome),
    {
        if is_owner_socket(peer, uid) {
            return Ok(ConnectionGrant::owner());
        }
        let registry = match &self.registry {
            Some(registry) => registry,
            None => {
                return Err(PolicyError::refused());
            },
        };
        let credential = match credential {
            Some(credential) => credential,
            None => {
                return Err(PolicyError::refused());
            },
        };
        scoped_grant(&registry.current, credential)
    }

    /// The grant of a peer, on this server.
    pub fn decide(
        &self,
        peer: &PeerIdentity,
        credential: Option<&AuthenticatedCredential>,
    ) -> (outcome: Result<ConnectionGrant, PolicyError>)
        ensures
            exists|uid: u32| #[trigger]
                decision(*self, uid, *peer, presented(credential), outcome),
    {
        let uid: u32 = effective_uid();
        let outcome = self.decide_as(uid, peer, credential);
        assert(decision(*self, uid, *peer, presented(credential), outcome));
        outcome
    }
}

/// The owner's grant is for the owner's socket alone: nobody else gets it from
/// a closed mode.
pub proof fn law_only_the_owner_socket_owns(
    policy: ScopedPolicy,
    uid: u32,
    peer: PeerIdentity,
    credential: Option<AuthenticatedCredential>,
    outcome: Result<ConnectionGrant, PolicyError>,
)
    requires
        decision(policy, uid, peer, credential, outcome),
        outcome matches Ok(grant) && grant.authority is Owner,
    ensures
        peer.transport is UnixSocket,
        peer.uid == uid,
{
}

/// Without a registry, and without a credential, nobody but the owner's socket
/// is let in.
pub proof fn law_strangers_are_refused(
    policy: ScopedPolicy,
    uid: u32,
    peer: PeerIdentity,
    credential: Option<AuthenticatedCredential>,
    outcome: Result<ConnectionGrant, PolicyError>,
)
    requires
        decision(policy, uid, peer, credential, outcome),
        policy.registry is None || credential is None,
        !(peer.transport is UnixSocket && peer.uid == uid),
    ensures
        outcome matches Err(error) && error.is_refusal(),
{
}

/// A credential that the registry does not hold as active mints nothing, so a
/// record that is gone refuses the next handshake.
pub proof fn law_revoked_records_mint_nothing(
    policy: ScopedPolicy,
    uid: u32,
    peer: PeerIdentity,
    credential: AuthenticatedCredential,
    outcome: Result<ConnectionGrant, PolicyError>,
)
    requires
        decision(policy, uid, peer, Some(credential), outcome),
        policy.registry matches Some(registry) && record_from(
            registry.current.records@,
            credential.id@,
            0,
        ) is None,
        !(peer.transport is UnixSocket && peer.uid == uid),
    ensures
        outcome matches Err(error) && error.is_refusal(),
{
}

/// A minted grant's authority is the record's ceiling, one clause for each of
/// its grants, whatever the credential says beyond its id.
pub proof fn law_the_ceiling_is_the_authority(
    policy: ScopedPolicy,
    uid: u32,
    peer: PeerIdentity,
    credential: AuthenticatedCredential,
    grant: ConnectionGrant,
)
    requires
        decision(policy, uid, peer, Some(credential), Ok(grant)),
        grant.authority is Scoped,
    ensures
        policy.registry matches Some(registry) && (record_from(
            registry.current.records@,
            credential.id@,
            0,
        ) matches Some(record) && (record.ceiling matches Some(ceiling) && (
        grant.authority matches Authority::Scoped { granted, effective } && granted.grants@
            == ceiling.grants@ && effective.clauses@ == ceiling.grants@.map_values(
            |grant: ScopeGrant| clause_of(grant),
        )))),
{
}

} // verus!
