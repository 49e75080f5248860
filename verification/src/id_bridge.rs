//! The bridge between the server's own keys and the identifiers that go on the
//! wire.
//!
//! Wire ids start at 1 and grow; 0 is never handed out. An id is not used
//! twice in a server's lifetime: once its subject is gone, the id is retired.
//! [`IdBridge::intern`] is idempotent, so callers use it as "get or allocate".
//! The session, window and terminal spaces are one type at three
//! instantiations; what a raw number becomes on the wire is the [`WireId`]'s
//! business alone.

use crate::assoc::{Assoc, Keyed};
use crate::ids::{SessionId, TerminalId, TerminalV, WindowId};
use vstd::prelude::*;

verus! {

/// A key of the server's own: opaque to the wire.
pub trait CoreKey: Copy + Keyed {

}

/// A wire identifier that a bridge can mint from a raw number.
pub trait WireId: Keyed {
    /// The name of this id space.
    fn space() -> (name: &'static str)
        ensures
            name@.len() > 0,
    ;

    /// The identifier for `raw`.
    spec fn minted(raw: u32) -> Self;

    /// Mint the identifier for `raw`.
    fn from_raw(raw: u32) -> (wire: Self)
        ensures
            wire == Self::minted(raw),
    ;

    /// A copy.
    fn copied(&self) -> (copy: Self)
        ensures
            copy == *self,
    ;

    /// Different numbers become different identifiers.
    proof fn minting_is_injective(a: u32, b: u32)
        ensures
            Self::minted(a)@ == Self::minted(b)@ ==> a == b,
    ;
}

/// A session in the server's registry.
#[derive(Debug, Clone, Copy, PartialEq, Eq, Structural)]
pub struct CoreSessionId(pub u64);

/// A window in the server's registry.
#[derive(Debug, Clone, Copy, PartialEq, Eq, Structural)]
pub struct CoreWindowId(pub u64);

/// A terminal in the server's registry.
#[derive(Debug, Clone, Copy, PartialEq, Eq, Structural)]
pub struct CoreTerminalId(pub u64);

impl View for CoreSessionId {
    type V = u64;

    open spec fn view(&self) -> u64 {
        self.0
    }
}

impl Keyed for CoreSessionId {
    fn same_key(&self, other: &Self) -> (same: bool) {
        self.0 == other.0
    }
}

impl CoreKey for CoreSessionId {

}

impl View for CoreWindowId {
    type V = u64;

    open spec fn view(&self) -> u64 {
        self.0
    }
}

impl Keyed for CoreWindowId {
    fn same_key(&self, other: &Self) -> (same: bool) {
        self.0 == other.0
    }
}

impl CoreKey for CoreWindowId {

}

impl View for CoreTerminalId {
    type V = u64;

    open spec fn view(&self) -> u64 {
        self.0
    }
}

impl Keyed for CoreTerminalId {
    fn same_key(&self, other: &Self) -> (same: bool) {
        self.0 == other.0
    }
}

impl CoreKey for CoreTerminalId {

}

impl View for SessionId {
    type V = u32;

    open spec fn view(&self) -> u32 {
        self.0
    }
}

impl Keyed for SessionId {
    fn same_key(&self, other: &Self) -> (same: bool) {
        self.0 == other.0
    }
}

impl WireId for SessionId {
    fn space() -> (name: &'static str)
        ensures
            name@ == "session"@,
    {
        proof {
            reveal_strlit("session");
        }
        "session"
    }

    open spec fn minted(raw: u32) -> Self {
        SessionId(raw)
    }

    fn from_raw(raw: u32) -> (wire: Self) {
        SessionId(raw)
    }

    fn copied(&self) -> (copy: Self) {
        *self
    }

    proof fn minting_is_injective(a: u32, b: u32) {
    }
}

impl View for WindowId {
    type V = u32;

    open spec fn view(&self) -> u32 {
        self.0
    }
}

impl Keyed for WindowId {
    fn same_key(&self, other: &Self) -> (same: bool) {
        self.0 == other.0
    }
}

impl WireId for WindowId {
    fn space() -> (name: &'static str)
        ensures
            name@ == "window"@,
    {
        proof {
            reveal_strlit("window");
        }
        "window"
    }

    open spec fn minted(raw: u32) -> Self {
        WindowId(raw)
    }

    fn from_raw(raw: u32) -> (wire: Self) {
        WindowId(raw)
    }

    fn copied(&self) -> (copy: Self) {
        *self
    }

    proof fn minting_is_injective(a: u32, b: u32) {
    }
}

impl Keyed for TerminalId {
    fn same_key(&self, other: &Self) -> (same: bool) {
        self.same(other)
    }
}

/// A bridge mints local terminals only. A satellite terminal belongs to its
/// satellite and is addressed straight off its wire id.
impl WireId for TerminalId {
    fn space() -> (name: &'static str)
        ensures
            name@ == "terminal"@,
    {
        proof {
            reveal_strlit("terminal");
        }
        "terminal"
    }

    open spec fn minted(raw: u32) -> Self {
        TerminalId::Local { id: raw }
    }

    fn from_raw(raw: u32) -> (wire: Self) {
        TerminalId::local(raw)
    }

    fn copied(&self) -> (copy: Self) {
        self.clone()
    }

    proof fn minting_is_injective(a: u32, b: u32) {
    }
}

/// Both directions of the mapping, and the allocator.
#[derive(Debug)]
pub struct IdBridge<C, W> {
    /// From the server's key to the wire id.
    forward: Assoc<C, W>,
    /// From the wire id to the server's key.
    reverse: Assoc<W, C>,
    /// The next number to hand out.
    next: u32,
}

/// A bridge as contracts speak of it.
#[verifier::ext_equal]
#[verifier::reject_recursive_types(C)]
#[verifier::reject_recursive_types(W)]
pub struct BridgeV<C: CoreKey, W: WireId> {
    /// From the server's key to the wire id.
    pub forward: Map<C::V, W>,
    /// From the wire id to the server's key.
    pub reverse: Map<W::V, C>,
    /// The next number to hand out.
    pub next: u32,
}

impl<C: CoreKey, W: WireId> BridgeV<C, W> {
    /// A bridge at its start.
    pub open spec fn fresh() -> Self {
        BridgeV { forward: Map::empty(), reverse: Map::empty(), next: 1 }
    }

    /// Whether `core` has a wire id, or one can still be minted for it.
    pub open spec fn can_intern(self, core: C) -> bool {
        self.forward.contains_key(core@) || self.next < u32::MAX
    }

    /// The wire id of `core`: its own, or the one to be minted.
    pub open spec fn wire_of(self, core: C) -> W {
        if self.forward.contains_key(core@) {
            self.forward[core@]
        } else {
            W::minted(self.next)
        }
    }

    /// The bridge after `core` was bound to `wire`. Whoever held `wire` before
    /// has no wire id any more, and what `core` held before names nothing.
    pub open spec fn bound(self, core: C, wire: W) -> Self {
        BridgeV {
            forward: (if self.reverse.contains_key(wire@) {
                self.forward.remove(self.reverse[wire@]@)
            } else {
                self.forward
            }).insert(core@, wire),
            reverse: (if self.forward.contains_key(core@) {
                self.reverse.remove(self.forward[core@]@)
            } else {
                self.reverse
            }).insert(wire@, core),
            ..self
        }
    }

    /// The bridge after `core` was interned.
    pub open spec fn interned(self, core: C) -> Self {
        if self.forward.contains_key(core@) {
            self
        } else {
            BridgeV { next: (self.next + 1) as u32, ..self.bound(core, W::minted(self.next)) }
        }
    }

    /// The bridge after `core` was forgotten.
    pub open spec fn forgotten(self, core: C) -> Self {
        if self.forward.contains_key(core@) {
            BridgeV {
                forward: self.forward.remove(core@),
                reverse: self.reverse.remove(self.forward[core@]@),
                ..self
            }
        } else {
            self
        }
    }

    /// Both directions say the same.
    pub open spec fn consistent(self) -> bool {
        &&& forall|core: C|
            #![trigger self.forward.contains_key(core@)]
            self.forward.contains_key(core@) ==> {
                let wire = self.forward[core@]@;
                self.reverse.contains_key(wire) && self.reverse[wire]@ == core@
            }
        &&& forall|wire: W::V| #[trigger]
            self.reverse.contains_key(wire) ==> {
                let core = self.reverse[wire];
                self.forward.contains_key(core@) && self.forward[core@]@ == wire
            }
    }

    /// No id that is still to be minted is in use.
    pub open spec fn unminted_is_unused(self) -> bool {
        forall|raw: u32|
            raw >= self.next ==> !self.reverse.contains_key((#[trigger] W::minted(raw))@)
    }
}

impl<C: CoreKey, W: WireId> View for IdBridge<C, W> {
    type V = BridgeV<C, W>;

    closed spec fn view(&self) -> BridgeV<C, W> {
        BridgeV { forward: self.forward@, reverse: self.reverse@, next: self.next }
    }
}

impl<C: CoreKey, W: WireId> Default for IdBridge<C, W> {
    /// The same as [`IdBridge::new`].
    fn default() -> (bridge: Self)
        ensures
            bridge.wf(),
            bridge@ == BridgeV::<C, W>::fresh(),
    {
        Self::new()
    }
}

impl<C: CoreKey, W: WireId> IdBridge<C, W> {
    /// Each map is well formed.
    pub closed spec fn maps_wf(&self) -> bool {
        self.forward.wf() && self.reverse.wf()
    }

    /// Each map is well formed, and both say the same.
    pub open spec fn wf(&self) -> bool {
        self.maps_wf() && self@.consistent()
    }

    /// An empty bridge whose allocator stands at 1.
    pub fn new() -> (bridge: Self)
        ensures
            bridge.wf(),
            bridge@ == BridgeV::<C, W>::fresh(),
    {
        IdBridge { forward: Assoc::new(), reverse: Assoc::new(), next: 1 }
    }

    /// The wire id of `core`, minted on the first call.
    ///
    /// The last number that is minted is `u32::MAX - 1`.
    pub fn intern(&mut self, core: C) -> (wire: W)
        requires
            old(self).wf(),
            old(self)@.can_intern(core),
        ensures
            final(self).wf(),
            wire == old(self)@.wire_of(core),
            final(self)@ == old(self)@.interned(core),
    {
        match self.forward.get(&core) {
            Some(wire) => {
                return wire.copied();
            },
            None => {},
        }
        let raw: u32 = self.next;
        let wire = W::from_raw(raw);
        self.bind(core, wire.copied());
        self.next = raw + 1;
        assert(self@ =~= old(self)@.interned(core));
        wire
    }

    /// The wire id of `core`, if it has one.
    pub fn wire(&self, core: C) -> (wire: Option<&W>)
        requires
            self.wf(),
        ensures
            match wire {
                Some(wire) => self@.forward.contains_key(core@) && *wire == self@.forward[core@],
                None => !self@.forward.contains_key(core@),
            },
    {
        self.forward.get(&core)
    }

    /// Bind `core` to a wire id that an earlier server process minted. Goes
    /// with [`Self::set_next`]. Both directions stay inverse to each other: a
    /// wire id names one key, and a key has one wire id.
    pub fn bind(&mut self, core: C, wire: W)
        requires
            old(self).wf(),
        ensures
            final(self).wf(),
            final(self)@ == old(self)@.bound(core, wire),
    {
        proof {
            law_binding_keeps_both_directions(self@, core, wire);
        }
        let holder = match self.reverse.get(&wire) {
            Some(holder) => Some(*holder),
            None => None,
        };
        let earlier = match self.forward.get(&core) {
            Some(earlier) => Some(earlier.copied()),
            None => None,
        };
        if let Some(holder) = holder {
            self.forward.remove(&holder);
        }
        if let Some(earlier) = earlier {
            self.reverse.remove(&earlier);
        }
        self.forward.insert(core, wire.copied());
        self.reverse.insert(wire, core);
        assert(self@ =~= old(self)@.bound(core, wire));
    }

    /// Put the allocator where an earlier server process left it.
    pub fn set_next(&mut self, next: u32)
        requires
            old(self).wf(),
        ensures
            final(self).wf(),
            final(self)@ == (BridgeV { next, ..old(self)@ }),
    {
        self.next = next;
    }

    /// The key that `wire` names, unless the server never minted it or its
    /// subject is gone.
    pub fn resolve(&self, wire: &W) -> (core: Option<C>)
        requires
            self.wf(),
        ensures
            core == (if self@.reverse.contains_key(wire@) {
                Some(self@.reverse[wire@])
            } else {
                None
            }),
    {
        match self.reverse.get(wire) {
            Some(core) => Some(*core),
            None => None,
        }
    }

    /// Drop both directions of the mapping and hand the retired id back.
    pub fn forget(&mut self, core: C) -> (retired: Option<W>)
        requires
            old(self).wf(),
        ensures
            final(self).wf(),
            final(self)@ == old(self)@.forgotten(core),
            retired == (if old(self)@.forward.contains_key(core@) {
                Some(old(self)@.forward[core@])
            } else {
                None
            }),
    {
        proof {
            law_forgetting_keeps_both_directions(self@, core);
        }
        match self.forward.remove(&core) {
            Some(wire) => {
                self.reverse.remove(&wire);
                assert(self@ =~= old(self)@.forgotten(core));
                Some(wire)
            },
            None => {
                assert(self@.forward =~= old(self)@.forward);
                None
            },
        }
    }

    /// The number of mappings.
    pub fn len(&self) -> (len: usize)
        requires
            self.wf(),
        ensures
            self@.forward.dom().finite(),
            len == self@.forward.len(),
    {
        self.forward.len()
    }

    /// Whether there are no mappings.
    pub fn is_empty(&self) -> (empty: bool)
        requires
            self.wf(),
        ensures
            empty == (self@.forward == Map::<C::V, W>::empty()),
    {
        let empty = self.forward.len() == 0;
        proof {
            if empty {
                assert(self@.forward.dom() =~= Set::<C::V>::empty());
                assert(self@.forward =~= Map::<C::V, W>::empty());
            }
        }
        empty
    }

    /// The number that is minted next.
    pub fn next_wire(&self) -> (next: u32)
        ensures
            next == self@.next,
    {
        self.next
    }
}

/// Interning is idempotent: a second call gives the same id and changes
/// nothing.
pub proof fn law_interning_is_idempotent<C: CoreKey, W: WireId>(bridge: BridgeV<C, W>, core: C)
    requires
        bridge.can_intern(core),
    ensures
        bridge.interned(core).wire_of(core) == bridge.wire_of(core),
        bridge.interned(core).interned(core) == bridge.interned(core),
{
}

/// Binding keeps the two directions inverse to each other, whatever the key and
/// the id were bound to before.
pub proof fn law_binding_keeps_both_directions<C: CoreKey, W: WireId>(
    bridge: BridgeV<C, W>,
    core: C,
    wire: W,
)
    requires
        bridge.consistent(),
    ensures
        bridge.bound(core, wire).consistent(),
        bridge.bound(core, wire).forward[core@] == wire,
        bridge.bound(core, wire).reverse[wire@] == core,
{
    let after = bridge.bound(core, wire);
    assert forall|other: C| #![trigger after.forward.contains_key(other@)]
        after.forward.contains_key(other@) implies ({
        let held = after.forward[other@]@;
        after.reverse.contains_key(held) && after.reverse[held]@ == other@
    }) by {
        if other@ != core@ {
            assert(bridge.forward.contains_key(other@));
            if bridge.forward.contains_key(core@) {
                assert(bridge.reverse.contains_key(bridge.forward[core@]@));
            }
        }
    }
    assert forall|held: W::V| #[trigger] after.reverse.contains_key(held) implies ({
        let other = after.reverse[held];
        after.forward.contains_key(other@) && after.forward[other@]@ == held
    }) by {
        if held != wire@ {
            assert(bridge.reverse.contains_key(held));
            if bridge.reverse.contains_key(wire@) {
                assert(bridge.forward.contains_key(bridge.reverse[wire@]@));
            }
        }
    }
}

/// Forgetting keeps the two directions inverse to each other.
pub proof fn law_forgetting_keeps_both_directions<C: CoreKey, W: WireId>(
    bridge: BridgeV<C, W>,
    core: C,
)
    requires
        bridge.consistent(),
    ensures
        bridge.forgotten(core).consistent(),
{
    let gone = bridge.forgotten(core);
    if bridge.forward.contains_key(core@) {
        assert forall|other: C| #![trigger gone.forward.contains_key(other@)]
            gone.forward.contains_key(other@) implies ({
            let wire = gone.forward[other@]@;
            gone.reverse.contains_key(wire) && gone.reverse[wire]@ == other@
        }) by {
            assert(bridge.forward.contains_key(other@));
        }
        assert forall|wire: W::V| #[trigger] gone.reverse.contains_key(wire) implies ({
            let other = gone.reverse[wire];
            gone.forward.contains_key(other@) && gone.forward[other@]@ == wire
        }) by {
            assert(bridge.reverse.contains_key(wire));
        }
    }
}

/// The two directions stay inverse to each other whatever is interned and
/// forgotten, an interned key is found by its id, and no id that is still to be
/// minted comes into use.
pub proof fn law_round_trips_are_stable<C: CoreKey, W: WireId>(bridge: BridgeV<C, W>, core: C)
    requires
        bridge.consistent(),
        bridge.can_intern(core),
    ensures
        bridge.interned(core).consistent(),
        bridge.forgotten(core).consistent(),
        bridge.unminted_is_unused() ==> bridge.interned(core).unminted_is_unused(),
        bridge.unminted_is_unused() ==> bridge.forgotten(core).unminted_is_unused(),
        ({
            let after = bridge.interned(core);
            let wire = bridge.wire_of(core)@;
            after.reverse.contains_key(wire) && after.reverse[wire]@ == core@
        }),
{
    let after = bridge.interned(core);
    law_forgetting_keeps_both_directions(bridge, core);
    if !bridge.forward.contains_key(core@) {
        let minted = W::minted(bridge.next);
        law_binding_keeps_both_directions(bridge, core, minted);
        let bound = bridge.bound(core, minted);
        assert(after.forward == bound.forward && after.reverse == bound.reverse);
        assert forall|other: C| #![trigger after.forward.contains_key(other@)]
            after.forward.contains_key(other@) implies ({
            let wire = after.forward[other@]@;
            after.reverse.contains_key(wire) && after.reverse[wire]@ == other@
        }) by {
            assert(bound.forward.contains_key(other@));
        }
        if bridge.unminted_is_unused() {
            assert forall|raw: u32| raw >= after.next implies !after.reverse.contains_key(
                (#[trigger] W::minted(raw))@,
            ) by {
                W::minting_is_injective(raw, bridge.next);
            }
        }
    }
}

/// A fresh bridge is consistent, uses nothing and starts at 1.
pub proof fn law_fresh_bridges_are_consistent<C: CoreKey, W: WireId>()
    ensures
        BridgeV::<C, W>::fresh().consistent(),
        BridgeV::<C, W>::fresh().unminted_is_unused(),
        BridgeV::<C, W>::fresh().next == 1,
{
}

/// A retired id is not handed out again: after `core` is forgotten, the next
/// key that is interned anew gets another id, and the retired one resolves to
/// nothing.
pub proof fn law_retired_ids_are_not_recycled<C: CoreKey, W: WireId>(
    bridge: BridgeV<C, W>,
    core: C,
    other: C,
)
    requires
        bridge.consistent(),
        bridge.unminted_is_unused(),
        bridge.forward.contains_key(core@),
        bridge.next < u32::MAX,
        !bridge.forgotten(core).forward.contains_key(other@),
    ensures
        ({
            let retired = bridge.forward[core@];
            let gone = bridge.forgotten(core);
            &&& !gone.reverse.contains_key(retired@)
            &&& gone.next == bridge.next
            &&& gone.wire_of(other)@ != retired@
            &&& !gone.interned(other).reverse.contains_key(retired@)
        }),
{
    assert(bridge.reverse.contains_key(bridge.forward[core@]@));
}

/// A restored bridge keeps its promises: binding any key to an id below the
/// allocator leaves what is still to be minted unused.
pub proof fn law_restored_bridges_are_consistent<C: CoreKey, W: WireId>(
    bridge: BridgeV<C, W>,
    core: C,
    raw: u32,
)
    requires
        bridge.consistent(),
        bridge.unminted_is_unused(),
        raw < bridge.next,
    ensures
        bridge.bound(core, W::minted(raw)).consistent(),
        bridge.bound(core, W::minted(raw)).unminted_is_unused(),
{
    let after = bridge.bound(core, W::minted(raw));
    law_binding_keeps_both_directions(bridge, core, W::minted(raw));
    assert forall|other: u32| other >= after.next implies !after.reverse.contains_key(
        (#[trigger] W::minted(other))@,
    ) by {
        W::minting_is_injective(other, raw);
    }
}

/// Every terminal id that a bridge mints is local, and a satellite's terminal
/// never enters the tables: it resolves to nothing.
pub proof fn law_bridges_never_hold_satellite_terminals<C: CoreKey>(
    bridge: BridgeV<C, TerminalId>,
    core: C,
    host: Seq<char>,
    id: u32,
)
    requires
        bridge.can_intern(core),
        !bridge.reverse.contains_key(TerminalV::Satellite(host, id)),
    ensures
        !bridge.forward.contains_key(core@) ==> bridge.wire_of(core) is Local,
        !bridge.interned(core).reverse.contains_key(TerminalV::Satellite(host, id)),
{
}

} // verus!
