//! Verbs, selectors and the clauses a scoped grant is made of.

use crate::ids::SatelliteHost;
use vstd::prelude::*;

verus! {

/// One of the six things a grant can allow.
#[derive(Debug, Clone, Copy, PartialEq, Eq, Structural)]
pub enum Verb {
    /// List what there is.
    Inventory,
    /// Read what a subject shows.
    Observe,
    /// Make a new subject.
    Create,
    /// Attach to, move or annotate a subject.
    Bind,
    /// Type into a subject.
    Input,
    /// Signal or end a subject.
    Signal,
}

/// A set of verbs.
#[derive(Debug, Clone, Copy, PartialEq, Eq, Structural)]
pub struct Verbs {
    /// Holds [`Verb::Inventory`].
    pub inventory: bool,
    /// Holds [`Verb::Observe`].
    pub observe: bool,
    /// Holds [`Verb::Create`].
    pub create: bool,
    /// Holds [`Verb::Bind`].
    pub bind: bool,
    /// Holds [`Verb::Input`].
    pub input: bool,
    /// Holds [`Verb::Signal`].
    pub signal: bool,
}

impl Verbs {
    /// No verb.
    pub open spec fn none() -> Self {
        Verbs {
            inventory: false,
            observe: false,
            create: false,
            bind: false,
            input: false,
            signal: false,
        }
    }

    /// Every verb.
    pub open spec fn all() -> Self {
        Verbs {
            inventory: true,
            observe: true,
            create: true,
            bind: true,
            input: true,
            signal: true,
        }
    }

    /// Whether `verb` is in the set.
    pub open spec fn has(self, verb: Verb) -> bool {
        match verb {
            Verb::Inventory => self.inventory,
            Verb::Observe => self.observe,
            Verb::Create => self.create,
            Verb::Bind => self.bind,
            Verb::Input => self.input,
            Verb::Signal => self.signal,
        }
    }

    /// The set with `verb` and nothing else.
    pub open spec fn only(verb: Verb) -> Self {
        Verbs {
            inventory: verb is Inventory,
            observe: verb is Observe,
            create: verb is Create,
            bind: verb is Bind,
            input: verb is Input,
            signal: verb is Signal,
        }
    }

    /// The verbs of this set that are not in `other`.
    pub open spec fn minus(self, other: Verbs) -> Self {
        Verbs {
            inventory: self.inventory && !other.inventory,
            observe: self.observe && !other.observe,
            create: self.create && !other.create,
            bind: self.bind && !other.bind,
            input: self.input && !other.input,
            signal: self.signal && !other.signal,
        }
    }

    /// No verb.
    pub fn empty() -> (verbs: Self)
        ensures
            verbs == Verbs::none(),
    {
        Verbs {
            inventory: false,
            observe: false,
            create: false,
            bind: false,
            input: false,
            signal: false,
        }
    }

    /// Every verb.
    pub fn every() -> (verbs: Self)
        ensures
            verbs == Verbs::all(),
    {
        Verbs {
            inventory: true,
            observe: true,
            create: true,
            bind: true,
            input: true,
            signal: true,
        }
    }

    /// The set with `verb` and nothing else.
    pub fn of(verb: Verb) -> (verbs: Self)
        ensures
            verbs == Verbs::only(verb),
    {
        Verbs::empty().and(verb)
    }

    /// This set with `verb` as well.
    pub fn and(self, verb: Verb) -> (verbs: Self)
        ensures
            forall|other: Verb| #[trigger] verbs.has(other) == (self.has(other) || other == verb),
            self == Verbs::none() ==> verbs == Verbs::only(verb),
    {
        let mut verbs = self;
        match verb {
            Verb::Inventory => {
                verbs.inventory = true;
            },
            Verb::Observe => {
                verbs.observe = true;
            },
            Verb::Create => {
                verbs.create = true;
            },
            Verb::Bind => {
                verbs.bind = true;
            },
            Verb::Input => {
                verbs.input = true;
            },
            Verb::Signal => {
                verbs.signal = true;
            },
        }
        verbs
    }

    /// Whether `verb` is in the set.
    pub fn contains(self, verb: Verb) -> (has: bool)
        ensures
            has == self.has(verb),
    {
        match verb {
            Verb::Inventory => self.inventory,
            Verb::Observe => self.observe,
            Verb::Create => self.create,
            Verb::Bind => self.bind,
            Verb::Input => self.input,
            Verb::Signal => self.signal,
        }
    }

    /// The verbs of this set that are not in `other`.
    pub fn without(self, other: Verbs) -> (verbs: Self)
        ensures
            verbs == self.minus(other),
    {
        Verbs {
            inventory: self.inventory && !other.inventory,
            observe: self.observe && !other.observe,
            create: self.create && !other.create,
            bind: self.bind && !other.bind,
            input: self.input && !other.input,
            signal: self.signal && !other.signal,
        }
    }

    /// Whether the set is empty.
    pub fn is_empty(self) -> (empty: bool)
        ensures
            empty == (self == Verbs::none()),
    {
        !(self.inventory || self.observe || self.create || self.bind || self.input || self.signal)
    }
}

/// What a clause reaches.
#[derive(Debug, PartialEq, Eq)]
pub enum Selector {
    /// Everything.
    Global,
    /// Everything on this server.
    HostLocal,
    /// Everything on a satellite.
    HostSatellite(SatelliteHost),
    /// A group of this server.
    Group(u32),
    /// A terminal of this server.
    TerminalLocal(u32),
    /// A terminal of a satellite.
    TerminalSatellite(SatelliteHost, u32),
}

impl Clone for Selector {
    fn clone(&self) -> (copy: Self)
        ensures
            copy == *self,
    {
        match self {
            Selector::Global => Selector::Global,
            Selector::HostLocal => Selector::HostLocal,
            Selector::HostSatellite(host) => Selector::HostSatellite(host.clone()),
            Selector::Group(id) => Selector::Group(*id),
            Selector::TerminalLocal(id) => Selector::TerminalLocal(*id),
            Selector::TerminalSatellite(host, id) => Selector::TerminalSatellite(
                host.clone(),
                *id,
            ),
        }
    }
}

/// Verbs on what one selector reaches.
#[derive(Debug, PartialEq, Eq)]
pub struct ScopeGrant {
    /// The verbs.
    pub verbs: Verbs,
    /// Those of the verbs that wait for a decision before they run.
    pub held: Verbs,
    /// What they reach.
    pub selector: Selector,
}

impl Clone for ScopeGrant {
    fn clone(&self) -> (copy: Self)
        ensures
            copy == *self,
    {
        ScopeGrant { verbs: self.verbs, held: self.held, selector: self.selector.clone() }
    }
}

/// The grants a connection holds.
#[derive(Debug, PartialEq, Eq)]
pub struct TerminalScopeSet {
    /// The grants.
    pub grants: Vec<ScopeGrant>,
}

impl TerminalScopeSet {
    /// All six verbs on everything.
    pub fn all_global() -> (set: Self)
        ensures
            set.grants@ == seq![
                ScopeGrant {
                    verbs: Verbs::all(),
                    held: Verbs::none(),
                    selector: Selector::Global,
                },
            ],
    {
        let mut grants: Vec<ScopeGrant> = Vec::new();
        grants.push(
            ScopeGrant {
                verbs: Verbs::every(),
                held: Verbs::empty(),
                selector: Selector::Global,
            },
        );
        TerminalScopeSet { grants }
    }

    /// A copy of the grants.
    pub fn grants(&self) -> (grants: Vec<ScopeGrant>)
        ensures
            grants@ == self.grants@,
    {
        let mut grants: Vec<ScopeGrant> = Vec::new();
        let mut i: usize = 0;
        while i < self.grants.len()
            invariant
                i <= self.grants@.len(),
                grants@ == self.grants@.take(i as int),
            decreases self.grants@.len() - i,
        {
            grants.push(self.grants[i].clone());
            i += 1;
            assert(grants@ =~= self.grants@.take(i as int));
        }
        assert(grants@ =~= self.grants@);
        grants
    }
}

/// Verbs on what two selectors reach together.
#[derive(Debug, PartialEq, Eq)]
pub struct Clause {
    /// The verbs.
    pub verbs: Verbs,
    /// Those of the verbs that wait for a decision before they run.
    pub held: Verbs,
    /// What the connection asked for.
    pub requested: Selector,
    /// What its credential allows.
    pub ceiling: Selector,
}

impl Clone for Clause {
    fn clone(&self) -> (copy: Self)
        ensures
            copy == *self,
    {
        Clause {
            verbs: self.verbs,
            held: self.held,
            requested: self.requested.clone(),
            ceiling: self.ceiling.clone(),
        }
    }
}

/// The clauses that are enforced for a connection.
#[derive(Debug, PartialEq, Eq)]
pub struct EffectiveScopeSet {
    /// The clauses.
    pub clauses: Vec<Clause>,
}

/// A clause without the verbs that it holds.
pub open spec fn unheld(clause: Clause) -> Clause {
    Clause { verbs: clause.verbs.minus(clause.held), held: Verbs::none(), ..clause }
}

/// The clause of a grant that is asked for as it is: what was asked for is what
/// is allowed.
pub open spec fn clause_of(grant: ScopeGrant) -> Clause {
    Clause {
        verbs: grant.verbs,
        held: grant.held,
        requested: grant.selector,
        ceiling: grant.selector,
    }
}

impl EffectiveScopeSet {
    /// The clauses of `granted`, asked for as it is: one for each grant.
    pub fn unattenuated(granted: &TerminalScopeSet) -> (set: Self)
        ensures
            set.clauses@ == granted.grants@.map_values(|grant: ScopeGrant| clause_of(grant)),
    {
        let mut clauses: Vec<Clause> = Vec::new();
        let mut i: usize = 0;
        while i < granted.grants.len()
            invariant
                i <= granted.grants@.len(),
                clauses@ == granted.grants@.take(i as int).map_values(
                    |grant: ScopeGrant| clause_of(grant),
                ),
            decreases granted.grants@.len() - i,
        {
            let grant = &granted.grants[i];
            clauses.push(
                Clause {
                    verbs: grant.verbs,
                    held: grant.held,
                    requested: grant.selector.clone(),
                    ceiling: grant.selector.clone(),
                },
            );
            i += 1;
            assert(clauses@ =~= granted.grants@.take(i as int).map_values(
                |grant: ScopeGrant| clause_of(grant),
            ));
        }
        assert(granted.grants@.take(i as int) =~= granted.grants@);
        EffectiveScopeSet { clauses }
    }

    /// Whether some clause holds a verb.
    pub open spec fn holds(&self) -> bool {
        exists|i: int|
            0 <= i < self.clauses@.len() && (#[trigger] self.clauses@[i]).held != Verbs::none()
    }

    /// Whether some clause holds a verb.
    pub fn holds_any(&self) -> (holds: bool)
        ensures
            holds == self.holds(),
    {
        let mut i: usize = 0;
        while i < self.clauses.len()
            invariant
                i <= self.clauses@.len(),
                forall|j: int| 0 <= j < i ==> (#[trigger] self.clauses@[j]).held == Verbs::none(),
            decreases self.clauses@.len() - i,
        {
            if !self.clauses[i].held.is_empty() {
                return true;
            }
            i += 1;
        }
        false
    }

    /// The clauses with what they hold taken out.
    pub fn without_holds(&self) -> (set: Self)
        ensures
            set.clauses@ == self.clauses@.map_values(|clause: Clause| unheld(clause)),
    {
        let mut clauses: Vec<Clause> = Vec::new();
        let mut i: usize = 0;
        while i < self.clauses.len()
            invariant
                i <= self.clauses@.len(),
                clauses@ == self.clauses@.take(i as int).map_values(
                    |clause: Clause| unheld(clause),
                ),
            decreases self.clauses@.len() - i,
        {
            let clause = &self.clauses[i];
            clauses.push(
                Clause {
                    verbs: clause.verbs.without(clause.held),
                    held: Verbs::empty(),
                    requested: clause.requested.clone(),
                    ceiling: clause.ceiling.clone(),
                },
            );
            i += 1;
            assert(clauses@ =~= self.clauses@.take(i as int).map_values(
                |clause: Clause| unheld(clause),
            ));
        }
        assert(self.clauses@.take(i as int) =~= self.clauses@);
        EffectiveScopeSet { clauses }
    }
}

} // verus!
