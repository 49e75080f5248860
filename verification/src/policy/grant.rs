//! The authority of one connection.

use super::scope::{clause_of, EffectiveScopeSet, ScopeGrant, Selector, TerminalScopeSet, Verbs};
use crate::clock::Timestamp;
use vstd::prelude::*;

verus! {

/// At most one uncorrelated denial is sent per this interval and connection,
/// in nanoseconds. Denied frames past the limit are still dropped; only the
/// error is left out.
pub const DENIAL_ERROR_INTERVAL_NANOS: u64 = 1_000_000_000;

/// Why a live connection's authority was withdrawn.
#[derive(Debug, Clone, Copy, PartialEq, Eq, Structural)]
pub enum Revocation {
    /// The credential was removed or revoked, its store stopped loading, or
    /// the ceiling no longer contains the minted grant.
    Revoked,
    /// The credential reached its expiry.
    Expired,
}

/// Why a connection is detached.
#[derive(Debug, Clone, Copy, PartialEq, Eq, Structural)]
pub enum DetachReason {
    /// Its authority was withdrawn.
    AuthorizationRevoked,
    /// Its credential expired.
    AuthorizationExpired,
}

impl Revocation {
    /// The reason that ends the connection.
    pub fn detach_reason(self) -> (reason: DetachReason)
        ensures
            reason == (match self {
                Revocation::Revoked => DetachReason::AuthorizationRevoked,
                Revocation::Expired => DetachReason::AuthorizationExpired,
            }),
    {
        match self {
            Revocation::Revoked => DetachReason::AuthorizationRevoked,
            Revocation::Expired => DetachReason::AuthorizationExpired,
        }
    }

    /// The text on the goodbye frames. It names no credential and no rule.
    pub fn message(self) -> (text: &'static str)
        ensures
            text@ == (match self {
                Revocation::Revoked => "authorization revoked"@,
                Revocation::Expired => "authorization expired"@,
            }),
    {
        match self {
            Revocation::Revoked => "authorization revoked",
            Revocation::Expired => "authorization expired",
        }
    }
}

/// What a connection's writer owes the peer once its authority is gone.
#[derive(Debug, Clone, Copy, PartialEq, Eq, Structural)]
pub enum Goodbye {
    /// An error, then a detach with the revocation's reason, then close.
    Announce(Revocation),
    /// Close with no frame: the connection never completed its handshake.
    Silent,
}

/// The registry state that a live scoped grant was last confirmed against.
#[derive(Debug, PartialEq, Eq)]
pub struct RegistryStamp {
    /// The registry file instance.
    pub instance: Option<String>,
    /// The registry generation.
    pub generation: u64,
    /// The credential's expiry in that state.
    pub expires_at: Option<Timestamp>,
}

/// What a connection may do.
#[derive(Debug, PartialEq, Eq)]
pub enum Authority {
    /// All six verbs on everything.
    Owner,
    /// What a workload's credential allows.
    Scoped {
        /// The grants that the connection holds.
        granted: TerminalScopeSet,
        /// The clauses that are enforced.
        effective: EffectiveScopeSet,
    },
}

impl Authority {
    /// The grants to report for this authority.
    pub fn reported_grants(&self) -> (grants: Vec<ScopeGrant>)
        ensures
            grants@ == (match *self {
                Authority::Owner => seq![
                    ScopeGrant {
                        verbs: Verbs::all(),
                        held: Verbs::none(),
                        selector: Selector::Global,
                    },
                ],
                Authority::Scoped { granted, .. } => granted.grants@,
            }),
    {
        match self {
            Authority::Owner => TerminalScopeSet::all_global().grants(),
            Authority::Scoped { granted, .. } => granted.grants(),
        }
    }
}

/// The clauses of a grant are more than a connection may hold.
#[derive(Debug, Clone, Copy, PartialEq, Eq, Structural)]
pub enum ScopeError {
    /// The set encodes larger than the protocol allows.
    TooLarge,
}

/// The authority minted for one connection at its handshake, kept for the
/// connection's lifetime.
#[derive(Debug, PartialEq, Eq)]
pub struct ConnectionGrant {
    /// What the connection may do.
    pub authority: Authority,
    /// The workload credential, for a scoped grant.
    pub credential_id: Option<String>,
    /// The registry file instance that minted a scoped grant.
    pub registry_instance: Option<String>,
    /// The registry generation that minted a scoped grant.
    pub registry_generation: u64,
    /// When a scoped grant's credential expires, if it does.
    pub expires_at: Option<Timestamp>,
    /// When this connection was last sent an uncorrelated denial.
    pub last_denial_error: Option<u64>,
    /// Why the connection's authority was withdrawn, once it was.
    pub revoked: Option<Revocation>,
}

impl ConnectionGrant {
    /// The owner's grant.
    pub open spec fn of_the_owner() -> Self {
        ConnectionGrant {
            authority: Authority::Owner,
            credential_id: None,
            registry_instance: None,
            registry_generation: 0,
            expires_at: None,
            last_denial_error: None,
            revoked: None,
        }
    }

    /// Whether the credential behind this grant has expired at `now`.
    pub open spec fn expired(&self, now: Timestamp) -> bool {
        self.expires_at matches Some(expiry) && expiry.not_later(now)
    }

    /// The owner's grant.
    pub fn owner() -> (grant: Self)
        ensures
            grant == ConnectionGrant::of_the_owner(),
    {
        ConnectionGrant {
            authority: Authority::Owner,
            credential_id: None,
            registry_instance: None,
            registry_generation: 0,
            expires_at: None,
            last_denial_error: None,
            revoked: None,
        }
    }

    /// A scoped grant of `granted` as it is, one clause for each grant, bound
    /// to `credential_id`. `encoded` says whether the clauses encode within
    /// what the protocol allows.
    pub fn scoped(
        granted: TerminalScopeSet,
        encoded: Result<(), ScopeError>,
        credential_id: Option<String>,
    ) -> (grant: Result<Self, ScopeError>)
        ensures
            match (encoded, grant) {
                (Ok(_), Ok(grant)) => {
                    &&& grant.authority matches Authority::Scoped { granted: held, effective }
                    &&& held == granted
                    &&& effective.clauses@ == granted.grants@.map_values(
                        |grant: ScopeGrant| clause_of(grant),
                    )
                    &&& grant == (ConnectionGrant {
                        authority: grant.authority,
                        credential_id,
                        ..ConnectionGrant::of_the_owner()
                    })
                },
                (Err(error), Err(refused)) => error == refused,
                _ => false,
            },
    {
        match encoded {
            Ok(_) => {
                let effective = EffectiveScopeSet::unattenuated(&granted);
                Ok(
                    ConnectionGrant {
                        authority: Authority::Scoped { granted, effective },
                        credential_id,
                        registry_instance: None,
                        registry_generation: 0,
                        expires_at: None,
                        last_denial_error: None,
                        revoked: None,
                    },
                )
            },
            Err(error) => Err(error),
        }
    }

    /// Whether this is the owner's grant.
    pub fn is_owner(&self) -> (owner: bool)
        ensures
            owner == (self.authority is Owner),
    {
        match self.authority {
            Authority::Owner => true,
            Authority::Scoped { .. } => false,
        }
    }

    /// Whether the credential behind this grant has expired at `now`.
    pub fn is_expired_at(&self, now: Timestamp) -> (expired: bool)
        ensures
            expired == self.expired(now),
    {
        match self.expires_at {
            Some(expiry) => expiry.not_after(now),
            None => false,
        }
    }

    /// Whether an uncorrelated denial may be sent at `now`, in nanoseconds of a
    /// monotonic clock.
    pub open spec fn may_send_denial(&self, now: u64) -> bool {
        self.last_denial_error matches Some(last) ==> now - last >= DENIAL_ERROR_INTERVAL_NANOS
    }

    /// Whether an uncorrelated denial may be sent now; the send is recorded
    /// when it may.
    pub fn admit_denial_error(&mut self, now: u64) -> (send: bool)
        ensures
            send == old(self).may_send_denial(now),
            *final(self) == (if send {
                ConnectionGrant { last_denial_error: Some(now), ..*old(self) }
            } else {
                *old(self)
            }),
    {
        let recent = match self.last_denial_error {
            Some(last) => now < last || now - last < DENIAL_ERROR_INTERVAL_NANOS,
            None => false,
        };
        if recent {
            return false;
        }
        self.last_denial_error = Some(now);
        true
    }

    /// The placeholder for a connection that was revoked before its handshake
    /// minted anything: it lets nothing through, and a grant minted later never
    /// replaces it.
    pub fn revoked_placeholder(revocation: Revocation) -> (grant: Self)
        ensures
            grant == (ConnectionGrant {
                revoked: Some(revocation),
                ..ConnectionGrant::of_the_owner()
            }),
    {
        let mut grant = ConnectionGrant::owner();
        grant.revoked = Some(revocation);
        grant
    }

    /// Why the connection's authority was withdrawn, once it was.
    pub fn revocation(&self) -> (revoked: Option<Revocation>)
        ensures
            revoked == self.revoked,
    {
        self.revoked
    }

    /// The grant after it was withdrawn: the first cause sticks.
    pub open spec fn withdrawn(self, revocation: Revocation) -> Self {
        if self.revoked is None {
            ConnectionGrant { revoked: Some(revocation), ..self }
        } else {
            self
        }
    }

    /// Withdraw the grant. The first cause sticks.
    pub fn revoke(&mut self, revocation: Revocation)
        ensures
            *final(self) == old(self).withdrawn(revocation),
    {
        if self.revoked.is_none() {
            self.revoked = Some(revocation);
        }
    }

    /// Adopt a newer registry state that still contains every minted clause:
    /// the clauses stay, the stamp and the expiry follow the registry.
    pub fn refresh(&mut self, stamp: RegistryStamp)
        ensures
            *final(self) == (ConnectionGrant {
                registry_instance: stamp.instance,
                registry_generation: stamp.generation,
                expires_at: stamp.expires_at,
                ..*old(self)
            }),
    {
        self.registry_instance = stamp.instance;
        self.registry_generation = stamp.generation;
        self.expires_at = stamp.expires_at;
    }
}

/// The first cause of a revocation sticks, whatever is withdrawn later.
pub proof fn law_the_first_revocation_sticks(
    grant: ConnectionGrant,
    first: Revocation,
    later: Revocation,
)
    requires
        grant.revoked is None,
    ensures
        grant.withdrawn(first).revoked == Some(first),
        grant.withdrawn(first).withdrawn(later) == grant.withdrawn(first),
{
}

/// Two denials that are both sent lie at least the interval apart.
pub proof fn law_denials_are_spaced_out(grant: ConnectionGrant, first: u64, second: u64)
    requires
        grant.may_send_denial(first),
        (ConnectionGrant { last_denial_error: Some(first), ..grant }).may_send_denial(second),
    ensures
        second >= first + DENIAL_ERROR_INTERVAL_NANOS,
{
}

/// An expired grant stays expired.
pub proof fn law_expiry_is_final(grant: ConnectionGrant, now: Timestamp, later: Timestamp)
    requires
        grant.expired(now),
        now.not_later(later),
    ensures
        grant.expired(later),
{
}

} // verus!
