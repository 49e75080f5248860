//! The bridge between core keys and wire ids.

use phux_server::id_bridge::{CoreSessionId, CoreTerminalId, CoreWindowId, IdBridge};
use phux_server::ids::{SatelliteHost, SessionId, TerminalId, WindowId};

type SessionBridge = IdBridge<CoreSessionId, SessionId>;

fn fresh_core_ids(n: u64) -> Vec<CoreSessionId> {
    (0..n).map(|i| CoreSessionId(100 + i)).collect()
}

#[test]
fn intern_is_idempotent() {
    let ids = fresh_core_ids(1);
    let mut bridge = SessionBridge::new();
    let first = bridge.intern(ids[0]);
    let again = bridge.intern(ids[0]);
    assert_eq!(first, again);
    assert_eq!(bridge.len(), 1);
}

#[test]
fn intern_allocates_monotonically_from_one() {
    let ids = fresh_core_ids(3);
    let mut bridge = SessionBridge::new();
    let a = bridge.intern(ids[0]);
    let b = bridge.intern(ids[1]);
    let c = bridge.intern(ids[2]);
    assert_eq!(a, SessionId(1));
    assert_eq!(b, SessionId(2));
    assert_eq!(c, SessionId(3));
}

#[test]
fn default_starts_at_one_like_new() {
    let bridge = SessionBridge::default();
    assert_eq!(bridge.next_wire(), SessionBridge::new().next_wire());
    assert_eq!(bridge.next_wire(), 1);
}

#[test]
fn forward_map_is_deterministic() {
    let ids = fresh_core_ids(4);

    let mut a = SessionBridge::new();
    let a_ws: Vec<_> = ids.iter().map(|c| a.intern(*c)).collect();

    let mut b = SessionBridge::new();
    let b_ws: Vec<_> = ids.iter().map(|c| b.intern(*c)).collect();

    assert_eq!(a_ws, b_ws);
}

#[test]
fn resolve_returns_none_for_unknown_wire_id() {
    let bridge = SessionBridge::new();
    assert!(bridge.resolve(&SessionId(1)).is_none());
    assert!(bridge.resolve(&SessionId(42)).is_none());
    assert!(bridge.resolve(&SessionId(0)).is_none());
}

#[test]
fn resolve_returns_none_after_forget() {
    let ids = fresh_core_ids(2);
    let mut bridge = SessionBridge::new();
    let w0 = bridge.intern(ids[0]);
    let w1 = bridge.intern(ids[1]);

    assert_eq!(bridge.forget(ids[0]), Some(w0));

    assert!(bridge.resolve(&w0).is_none());
    assert!(bridge.wire(ids[0]).is_none());
    assert_eq!(bridge.resolve(&w1), Some(ids[1]));
}

#[test]
fn forget_does_not_recycle_wire_ids() {
    let ids = fresh_core_ids(2);
    let mut bridge = SessionBridge::new();
    let w0 = bridge.intern(ids[0]);
    let _ = bridge.forget(ids[0]);
    let w1 = bridge.intern(ids[1]);
    assert_ne!(w0, w1, "freed wire ids must not be reused");
    assert_eq!(w1, SessionId(2));
}

#[test]
fn round_trip_is_stable() {
    let ids = fresh_core_ids(5);
    let mut bridge = SessionBridge::new();
    let wires: Vec<_> = ids.iter().map(|c| bridge.intern(*c)).collect();
    for (core, wire) in ids.iter().zip(wires.iter()) {
        assert_eq!(bridge.wire(*core), Some(wire));
        assert_eq!(bridge.resolve(wire), Some(*core));
    }
}

#[test]
fn forget_is_idempotent() {
    let ids = fresh_core_ids(1);
    let mut bridge = SessionBridge::new();
    assert_eq!(bridge.forget(ids[0]), None);
    let _ = bridge.intern(ids[0]);
    let _ = bridge.forget(ids[0]);
    assert_eq!(bridge.forget(ids[0]), None);
    assert!(bridge.is_empty());
}

#[test]
fn terminal_bridge_mints_only_local_ids() {
    let terminal = CoreTerminalId(5);
    let mut bridge: IdBridge<CoreTerminalId, TerminalId> = IdBridge::new();
    let wire = bridge.intern(terminal);
    assert_eq!(wire, TerminalId::local(1));
    assert!(wire.is_local(), "a bridge must never mint a Satellite id");
}

#[test]
fn resolve_is_none_for_a_satellite_id() {
    let terminal = CoreTerminalId(5);
    let mut bridge: IdBridge<CoreTerminalId, TerminalId> = IdBridge::new();
    let wire = bridge.intern(terminal);
    let raw = wire.local_id().expect("minted id is Local");
    let satellite = TerminalId::satellite(SatelliteHost::new("peer"), raw);
    assert!(bridge.resolve(&satellite).is_none());
    assert_eq!(bridge.resolve(&wire), Some(terminal));
}

#[test]
fn last_mintable_wire_id_is_u32_max_minus_one() {
    let ids = fresh_core_ids(1);
    let mut bridge = SessionBridge::new();
    bridge.set_next(u32::MAX - 1);
    assert_eq!(bridge.intern(ids[0]), SessionId(u32::MAX - 1));
}

#[test]
fn binding_replaces_both_directions() {
    let mut bridge: IdBridge<CoreWindowId, WindowId> = IdBridge::new();
    bridge.bind(CoreWindowId(1), WindowId(9));
    assert_eq!(bridge.wire(CoreWindowId(1)), Some(&WindowId(9)));
    assert_eq!(bridge.resolve(&WindowId(9)), Some(CoreWindowId(1)));
    assert_eq!(bridge.len(), 1);
    bridge.set_next(10);
    assert_eq!(bridge.intern(CoreWindowId(2)), WindowId(10));
    assert_eq!(bridge.next_wire(), 11);
}

#[test]
fn an_id_names_one_key_and_a_key_has_one_id() {
    let mut bridge: IdBridge<CoreSessionId, SessionId> = IdBridge::new();
    bridge.bind(CoreSessionId(1), SessionId(5));
    bridge.bind(CoreSessionId(2), SessionId(5));
    assert_eq!(bridge.wire(CoreSessionId(2)), Some(&SessionId(5)));
    assert_eq!(bridge.resolve(&SessionId(5)), Some(CoreSessionId(2)));
    assert_eq!(bridge.wire(CoreSessionId(1)), None);
    assert_eq!(bridge.next_wire(), 1);
    bridge.bind(CoreSessionId(2), SessionId(7));
    assert_eq!(bridge.resolve(&SessionId(5)), None);
    assert_eq!(bridge.resolve(&SessionId(7)), Some(CoreSessionId(2)));
    bridge.bind(CoreSessionId(2), SessionId(7));
    assert_eq!(bridge.wire(CoreSessionId(2)), Some(&SessionId(7)));
    assert_eq!(bridge.len(), 1);
    bridge.bind(CoreSessionId(3), SessionId(1));
    assert_eq!(bridge.intern(CoreSessionId(4)), SessionId(1));
    assert_eq!(bridge.resolve(&SessionId(1)), Some(CoreSessionId(4)));
    assert_eq!(bridge.wire(CoreSessionId(3)), None);
}
