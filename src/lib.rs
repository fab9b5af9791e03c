//! Selection and sequencing core of a control-loop simulator.
//!
//! The numeric simulation (signal values, plant recurrences, PID arithmetic)
//! works on floating-point samples and lives with the embedding application.
//! This library holds what decides *which* variant is used and *in what
//! order* samples flow: the closed sets of signal and element variants and
//! their stable identifiers, the append-only registries that enumerate and
//! instantiate them, named list entries, and the open- and closed-loop
//! drivers that thread element and controller state through a run.

pub mod named;
pub mod plant;
pub mod registry;
pub mod simulation;
pub mod time_signal;

use vstd::prelude::*;
use crate::plant::{register_build_in_elements, ElementKind, ElementRegistry};
use crate::registry::after_register;
use crate::time_signal::{register_build_in_time_signals, SignalKind, TimeSignalRegistry};

verus! {

/// Registers every built-in variant: the elements PT0, PT1 and PT2 into
/// `elements`, and the signals step and impulse into `signals`.
pub fn register_build_in(elements: &mut ElementRegistry, signals: &mut TimeSignalRegistry)
    requires
        old(elements).wf(),
        old(signals).wf(),
    ensures
        final(elements).wf(),
        final(signals).wf(),
        final(elements)@ == after_register(
            after_register(after_register(old(elements)@, ElementKind::PT0), ElementKind::PT1),
            ElementKind::PT2,
        ),
        final(signals)@ == after_register(
            after_register(old(signals)@, SignalKind::Step),
            SignalKind::Impulse,
        ),
        old(elements)@.len() == 0 ==> final(elements)@ == seq![
            ElementKind::PT0,
            ElementKind::PT1,
            ElementKind::PT2,
        ],
        old(signals)@.len() == 0 ==> final(signals)@ == seq![SignalKind::Step, SignalKind::Impulse],
{
    register_build_in_elements(elements);
    register_build_in_time_signals(signals);
}

} // verus!
