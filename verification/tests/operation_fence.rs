//! The incarnation fence.

use phux_server::hub::operation_fence::{
    fenced_key, FenceStore, FenceVerdict, Incarnation, OperationDomain, OperationFence,
    OperationKey, DEDUPE_MAX_ENTRIES, DEDUPE_RETENTION_MS,
};
use phux_server::ids::{ClientId, TerminalId};
use phux_server::wire::{Command, IdempotencyKey};

fn key(value: u64) -> OperationKey {
    OperationKey::new(OperationDomain::Signal, u128::from(value))
}

const A: Incarnation = Some(u128::from_be_bytes([1; 16]));
const B: Incarnation = Some(u128::from_be_bytes([2; 16]));

#[test]
fn a_retry_within_one_incarnation_forwards_and_across_a_restart_does_not() {
    let mut fence = OperationFence::new();
    let now: u64 = 5_000;
    assert_eq!(
        fence.admit_operation(key(1), A, ClientId(7), now),
        FenceVerdict::Forward
    );
    assert_eq!(
        fence.admit_operation(key(1), A, ClientId(8), now),
        FenceVerdict::Forward,
        "a retry to the same satellite process is the satellite's to dedupe"
    );
    assert_eq!(
        fence.admit_operation(key(1), B, ClientId(8), now),
        FenceVerdict::IncarnationChanged
    );
    assert_eq!(
        fence.admit_operation(key(2), B, ClientId(8), now),
        FenceVerdict::Forward,
        "a new id is new to the new incarnation too"
    );
}

#[test]
fn the_newest_sender_owns_the_events_still_to_come() {
    let mut fence = OperationFence::new();
    let now: u64 = 5_000;
    let id = IdempotencyKey::new(u128::from_be_bytes([9; 16])).expect("non-zero");
    let key = OperationKey::new(OperationDomain::Signal, u128::from_be_bytes([9; 16]));
    assert_eq!(fence.actor_for_event(id), None);
    fence.admit_operation(key, A, ClientId(3), now);
    assert_eq!(fence.actor_for_event(id), Some(ClientId(3)));
    fence.admit_operation(key, A, ClientId(4), now);
    assert_eq!(fence.actor_for_event(id), Some(ClientId(4)));
}

#[test]
fn the_fence_is_bounded_and_shares_the_dedupe_horizon() {
    let mut store = FenceStore::new();
    let start: u64 = 5_000;
    for value in 0..u64::try_from(DEDUPE_MAX_ENTRIES).expect("fits") {
        assert_eq!(
            store.admit_operation(key(value), A, ClientId(1), start),
            FenceVerdict::Forward
        );
    }
    let extra = u64::try_from(DEDUPE_MAX_ENTRIES).expect("fits");
    assert_eq!(
        store.admit_operation(key(extra), A, ClientId(1), start),
        FenceVerdict::Full,
        "a full fence refuses a new id instead of evicting a live one"
    );
    let inside = start
        + DEDUPE_RETENTION_MS
            .checked_sub(1_000)
            .expect("retention exceeds one second");
    assert_eq!(
        store.admit_operation(key(0), B, ClientId(1), inside),
        FenceVerdict::IncarnationChanged,
        "inside the horizon the old incarnation still fences"
    );
    let past = start + DEDUPE_RETENTION_MS;
    assert_eq!(
        store.admit_operation(key(0), B, ClientId(1), past),
        FenceVerdict::Forward,
        "past the horizon the id is unknown, as it is to the dedupe record"
    );
    assert_eq!(store.entries.len(), 1);
}

#[test]
fn apply_input_and_supervisory_keys_are_fenced_in_their_own_domains() {
    let op = IdempotencyKey::new(u128::from_be_bytes([5; 16])).expect("non-zero");
    let apply = Command::ApplyInput {
        operation_id: op,
        terminal_id: TerminalId::local(1),
        events: Vec::new(),
    };
    let kill = Command::KillTerminal {
        terminal_id: TerminalId::local(1),
        operation_id: IdempotencyKey::new(u128::from_be_bytes([5; 16])),
    };
    let unkeyed = Command::KillTerminal {
        terminal_id: TerminalId::local(1),
        operation_id: None,
    };
    assert_ne!(fenced_key(&apply), fenced_key(&kill));
    assert!(fenced_key(&apply).is_some() && fenced_key(&kill).is_some());
    assert_eq!(fenced_key(&unkeyed), None);
}
