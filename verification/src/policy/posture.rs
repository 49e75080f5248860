//! Which engine a server runs, decided when it starts.

use vstd::prelude::*;

verus! {

/// The configured mode.
#[derive(Debug, Clone, Copy, PartialEq, Eq, Structural)]
pub enum PolicyMode {
    /// The owner's socket only.
    Local,
    /// Workload credentials on every remote transport.
    Paired,
}

/// The authorization posture a server starts in.
#[derive(Debug, Clone, Copy, PartialEq, Eq, Structural)]
pub enum PolicyPosture {
    /// No mode: every connection holds the owner's grant.
    Transitional {
        /// Whether a remote listener or connector is configured, so that the
        /// server warns once when it starts.
        remote_listener: bool,
    },
    /// The owner's socket only.
    Local,
    /// Workload credentials on every remote transport, scoped grants at
    /// dispatch.
    Paired,
}

/// A setting that the server refuses to start with.
#[derive(Debug, Clone, Copy, PartialEq, Eq, Structural)]
pub enum PostureError {
    /// The local mode beside workload credentials.
    LocalWithWorkloadMtls,
    /// The local mode beside a configured remote listener or connector.
    LocalWithRemoteListener,
}

impl PostureError {
    /// The error in words.
    pub fn message(self) -> (text: &'static str)
        ensures
            text@ == (match self {
                PostureError::LocalWithWorkloadMtls =>
                    "[policy] mode = \"local\" conflicts with PHUX_WORKLOAD_MTLS: set mode = \"paired\" or unset PHUX_WORKLOAD_MTLS"@,
                PostureError::LocalWithRemoteListener =>
                    "[policy] mode = \"local\" admits the owner socket only, but a remote listener or relay connector is configured: remove it (--listen, --quic, --webtransport, PHUX_WS_ADDR, PHUX_QUIC_ADDR, PHUX_WT_ADDR, [[connector]]) or set mode = \"paired\""@,
            }),
    {
        match self {
            PostureError::LocalWithWorkloadMtls =>
                "[policy] mode = \"local\" conflicts with PHUX_WORKLOAD_MTLS: set mode = \"paired\" or unset PHUX_WORKLOAD_MTLS",
            PostureError::LocalWithRemoteListener =>
                "[policy] mode = \"local\" admits the owner socket only, but a remote listener or relay connector is configured: remove it (--listen, --quic, --webtransport, PHUX_WS_ADDR, PHUX_QUIC_ADDR, PHUX_WT_ADDR, [[connector]]) or set mode = \"paired\"",
        }
    }
}

/// The posture of the local mode.
pub open spec fn local_posture(workload_mtls_env: bool, remote_listener: bool) -> Result<
    PolicyPosture,
    PostureError,
> {
    if workload_mtls_env {
        Err(PostureError::LocalWithWorkloadMtls)
    } else if remote_listener {
        Err(PostureError::LocalWithRemoteListener)
    } else {
        Ok(PolicyPosture::Local)
    }
}

impl PolicyPosture {
    /// Decide the posture from the configured mode, whether workload
    /// credentials are switched on by the environment, and whether a remote
    /// listener or connector is configured.
    pub fn resolve(
        mode: Option<PolicyMode>,
        workload_mtls_env: bool,
        remote_listener: bool,
    ) -> (posture: Result<Self, PostureError>)
        ensures
            posture == (match mode {
                Some(PolicyMode::Paired) => Ok(PolicyPosture::Paired),
                Some(PolicyMode::Local) => local_posture(workload_mtls_env, remote_listener),
                None => if workload_mtls_env {
                    Ok(PolicyPosture::Paired)
                } else {
                    Ok(PolicyPosture::Transitional { remote_listener })
                },
            }),
    {
        match mode {
            Some(PolicyMode::Paired) => Ok(PolicyPosture::Paired),
            Some(PolicyMode::Local) => Self::local(workload_mtls_env, remote_listener),
            None => if workload_mtls_env {
                Ok(PolicyPosture::Paired)
            } else {
                Ok(PolicyPosture::Transitional { remote_listener })
            },
        }
    }

    fn local(workload_mtls_env: bool, remote_listener: bool) -> (posture: Result<
        Self,
        PostureError,
    >)
        ensures
            posture == local_posture(workload_mtls_env, remote_listener),
    {
        if workload_mtls_env {
            return Err(PostureError::LocalWithWorkloadMtls);
        }
        if remote_listener {
            return Err(PostureError::LocalWithRemoteListener);
        }
        Ok(PolicyPosture::Local)
    }

    /// Whether listeners must require a workload client certificate.
    pub fn requires_workload_mtls(self) -> (requires_it: bool)
        ensures
            requires_it == (self is Paired),
    {
        match self {
            PolicyPosture::Paired => true,
            _ => false,
        }
    }

    /// Whether the server lets the owner's socket in and nothing else.
    pub fn is_local(self) -> (local: bool)
        ensures
            local == (self is Local),
    {
        match self {
            PolicyPosture::Local => true,
            _ => false,
        }
    }

    /// Whether every connection holds the owner's grant.
    pub fn is_transitional(self) -> (transitional: bool)
        ensures
            transitional == (self is Transitional),
    {
        match self {
            PolicyPosture::Transitional { .. } => true,
            _ => false,
        }
    }

    /// Whether the server should warn at its start that remote consumers keep
    /// the owner's grant.
    pub fn warns_remote_owner_grant(self) -> (warns: bool)
        ensures
            warns == (self == PolicyPosture::Transitional { remote_listener: true }),
    {
        match self {
            PolicyPosture::Transitional { remote_listener } => remote_listener,
            _ => false,
        }
    }
}

} // verus!
