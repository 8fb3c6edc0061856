//! The cross-boundary ownership protocol for a loaded solution module.
//!
//! A loadable module allocates its solver registry with its own allocator
//! and hands the host an opaque pointer. The host must call the module's
//! destruction entry point on that pointer exactly once, after every borrow
//! of a solver has ended, and never access the registry afterwards. The
//! surrounding program performs the actual foreign calls; this module
//! decides, and proves, when each call is allowed.

use vstd::prelude::*;

use crate::error::{AocError, LoadingError};
use crate::registry::SolverRegistry;

verus! {

/// Where a loaded module stands in its life.
#[derive(Debug, PartialEq, Eq, Structural, Clone, Copy)]
pub enum ModulePhase {
    /// The registry was constructed and may be read.
    Live,
    /// The registry was handed back for destruction; no access is allowed.
    Released,
}

/// What teardown must do.
#[derive(Debug, PartialEq, Eq, Structural, Clone, Copy)]
pub enum TeardownAction {
    /// The destruction entry point exists: call it with the registry.
    CallDestroy,
    /// The destruction entry point is absent: the module leaks its registry,
    /// which is logged as a known defect and nothing more.
    LeakAndLog,
}

/// Judges the construction entry point's return: a null registry pointer is
/// a construction failure, anything else makes the module live.
pub fn construction_outcome(returned_null: bool, year: i32) -> (r: Result<ModulePhase, AocError>)
    ensures
        match r {
            Ok(phase) => !returned_null && phase == ModulePhase::Live,
            Err(e) => returned_null && e == AocError::Loading(LoadingError::NoSolutions { year }),
        },
{
    if returned_null {
        Err(AocError::Loading(LoadingError::NoSolutions { year }))
    } else {
        Ok(ModulePhase::Live)
    }
}

/// A loaded module: the solver registry taken across the boundary, and the
/// phase that gates every access to it.
pub struct LoadedModule<S> {
    registry: SolverRegistry<S>,
    phase: ModulePhase,
}

impl<S> LoadedModule<S> {
    /// The phase the module is in.
    pub closed spec fn spec_phase(self) -> ModulePhase {
        self.phase
    }

    /// The registry contents, as a map from day to solver.
    pub closed spec fn spec_registry(self) -> Map<u8, S> {
        self.registry@
    }

    /// The module holds a well-formed registry.
    pub closed spec fn wf(self) -> bool {
        self.registry.wf()
    }

    /// Whether the module may still be read.
    pub fn is_live(&self) -> (r: bool)
        ensures
            r == (self.spec_phase() == ModulePhase::Live),
    {
        match self.phase {
            ModulePhase::Live => true,
            ModulePhase::Released => false,
        }
    }

    /// Takes ownership of a constructed registry; the module starts live.
    pub fn new(registry: SolverRegistry<S>) -> (r: LoadedModule<S>)
        requires
            registry.wf(),
        ensures
            r.wf(),
            r.spec_phase() == ModulePhase::Live,
            r.spec_registry() == registry@,
    {
        LoadedModule { registry, phase: ModulePhase::Live }
    }

    /// Borrows the solver for a day. Only a live module may be read:
    /// construction happens before every `get`, and release after.
    pub fn get(&self, day: u8) -> (r: Option<&S>)
        requires
            self.wf(),
            self.spec_phase() == ModulePhase::Live,
        ensures
            match r {
                Some(s) => self.spec_registry().dom().contains(day) && *s
                    == self.spec_registry().index(day),
                None => !self.spec_registry().dom().contains(day),
            },
    {
        self.registry.get(day)
    }

    /// The registered days, in the registry's insertion order.
    pub closed spec fn spec_days(self) -> Seq<u8> {
        self.registry.spec_days()
    }

    /// The days with registered solvers. Restartable and finite: together
    /// with `get` it walks the registry as it stood at load time.
    pub fn days(&self) -> (r: Vec<u8>)
        requires
            self.wf(),
            self.spec_phase() == ModulePhase::Live,
        ensures
            r@ == self.spec_days(),
            r@.no_duplicates(),
            forall|i: int|
                0 <= i < r@.len() ==> self.spec_registry().dom().contains(#[trigger] r@[i]),
            forall|d: u8| self.spec_registry().dom().contains(d) ==> r@.contains(d),
            forall|i: int| 0 <= i < r@.len() ==> 1 <= #[trigger] r@[i] <= 25,
    {
        self.registry.days()
    }

    /// Releases the module: decides the teardown call and moves the module
    /// out of the live phase, so no later access can be proved legal. The
    /// obligation to free transfers back to the module's own allocator
    /// exactly when the destruction symbol exists.
    pub fn release(&mut self, destroy_symbol_present: bool) -> (r: TeardownAction)
        requires
            old(self).spec_phase() == ModulePhase::Live,
        ensures
            final(self).spec_phase() == ModulePhase::Released,
            r == (if destroy_symbol_present {
                TeardownAction::CallDestroy
            } else {
                TeardownAction::LeakAndLog
            }),
    {
        self.phase = ModulePhase::Released;
        if destroy_symbol_present {
            TeardownAction::CallDestroy
        } else {
            TeardownAction::LeakAndLog
        }
    }
}

/// The events the host may aim at a loaded module.
pub enum ModuleEvent {
    /// Read a solver or walk the registry.
    Access,
    /// Release the module; the payload tells whether the destruction symbol
    /// exists.
    Release(bool),
}

/// The phase after one event, or nothing when the event is illegal: a
/// released module accepts no event at all.
pub open spec fn phase_step(phase: ModulePhase, event: ModuleEvent) -> Option<ModulePhase> {
    match (phase, event) {
        (ModulePhase::Live, ModuleEvent::Access) => Some(ModulePhase::Live),
        (ModulePhase::Live, ModuleEvent::Release(_)) => Some(ModulePhase::Released),
        (ModulePhase::Released, _) => Option::None,
    }
}

/// The phase after a sequence of events, or nothing when any is illegal.
pub open spec fn run_phases(phase: ModulePhase, events: Seq<ModuleEvent>) -> Option<ModulePhase>
    decreases events.len(),
{
    if events.len() == 0 {
        Some(phase)
    } else {
        match phase_step(phase, events[0]) {
            Some(next) => run_phases(next, events.skip(1)),
            Option::None => Option::None,
        }
    }
}

/// How many destruction calls a sequence of events performs.
pub open spec fn destroy_calls(events: Seq<ModuleEvent>) -> nat
    decreases events.len(),
{
    if events.len() == 0 {
        0
    } else {
        (match events[0] {
            ModuleEvent::Release(true) => 1nat,
            _ => 0nat,
        }) + destroy_calls(events.skip(1))
    }
}

/// Whether a sequence of events releases the module at all.
pub open spec fn release_count(events: Seq<ModuleEvent>) -> nat
    decreases events.len(),
{
    if events.len() == 0 {
        0
    } else {
        (match events[0] {
            ModuleEvent::Release(_) => 1nat,
            _ => 0nat,
        }) + release_count(events.skip(1))
    }
}

/// Law: under the lifecycle protocol, a module is released at most once, so
/// the destruction entry point runs at most once; it runs exactly once when
/// the module ends released with the destruction symbol present, and leaving
/// a module unreleased performs no destruction call at all.
pub proof fn lemma_destroy_exactly_once(events: Seq<ModuleEvent>)
    requires
        run_phases(ModulePhase::Live, events) is Some,
    ensures
        release_count(events) <= 1,
        destroy_calls(events) <= release_count(events),
        run_phases(ModulePhase::Live, events) == Some(ModulePhase::Released) <==> release_count(
            events,
        ) == 1,
    decreases events.len(),
{
    if events.len() > 0 {
        match events[0] {
            ModuleEvent::Access => {
                lemma_destroy_exactly_once(events.skip(1));
            },
            ModuleEvent::Release(_) => {
                lemma_released_accepts_nothing(ModulePhase::Released, events.skip(1));
            },
        }
    }
}

/// A released module accepts no further event, so a legal run from the
/// released phase is empty.
proof fn lemma_released_accepts_nothing(phase: ModulePhase, events: Seq<ModuleEvent>)
    requires
        phase == ModulePhase::Released,
        run_phases(phase, events) is Some,
    ensures
        events.len() == 0,
        release_count(events) == 0,
        destroy_calls(events) == 0,
        run_phases(phase, events) == Some(ModulePhase::Released),
{
}

} // verus!
