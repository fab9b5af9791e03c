//! Time-signal variants, their identifiers and their registry.

use vstd::prelude::*;
use crate::registry::{after_register, lemma_register_two_in_order, Registry, TypeIdentifier};

verus! {

/// The closed set of time-signal variants.
#[derive(Clone, Copy, Debug, PartialEq, Eq, Structural)]
pub enum SignalKind {
    /// A step from a pre-value to a post-value at a given time.
    Step,
    /// A rectangular pulse on top of a baseline.
    Impulse,
}

/// The stable short identifier of a signal variant.
pub open spec fn signal_ident(kind: SignalKind) -> Seq<char> {
    match kind {
        SignalKind::Step => seq!['S', 't', 'e', 'p'],
        SignalKind::Impulse => seq!['I', 'm', 'p', 'u', 'l', 's', 'e'],
    }
}

impl TypeIdentifier for SignalKind {
    open spec fn ident(&self) -> Seq<char> {
        signal_ident(*self)
    }

    fn short_type_name(&self) -> (r: &'static str) {
        match self {
            SignalKind::Step => {
                proof { reveal_strlit("Step"); }
                "Step"
            },
            SignalKind::Impulse => {
                proof { reveal_strlit("Impulse"); }
                "Impulse"
            },
        }
    }
}

impl SignalKind {
    /// The variant whose identifier is `name`, if any.
    pub fn from_type_name(name: &str) -> (r: Option<SignalKind>)
        ensures
            r matches Some(k) ==> signal_ident(k) == name@,
            r is None ==> forall|k: SignalKind| signal_ident(k) != name@,
    {
        let step = SignalKind::Step;
        let impulse = SignalKind::Impulse;
        if step.short_type_name().to_owned() == name.to_owned() {
            Some(step)
        } else if impulse.short_type_name().to_owned() == name.to_owned() {
            Some(impulse)
        } else {
            proof {
                assert forall|k: SignalKind| signal_ident(k) != name@ by {
                    match k {
                        SignalKind::Step => {},
                        SignalKind::Impulse => {},
                    }
                }
            }
            None
        }
    }
}

/// The registry of time-signal variants.
pub type TimeSignalRegistry = Registry<SignalKind>;

/// Registers a time-signal variant; an identifier already present is refused.
/// Returns whether the variant was added.
pub fn register_time_signal(registry: &mut TimeSignalRegistry, factory: SignalKind) -> (added: bool)
    requires
        old(registry).wf(),
    ensures
        final(registry).wf(),
        added == (final(registry)@ != old(registry)@),
        final(registry)@ == after_register(old(registry)@, factory),
{
    registry.register(factory)
}

/// The registered time-signal variants, in registration order.
pub fn list_factories(registry: &TimeSignalRegistry) -> (r: Vec<SignalKind>)
    ensures
        r@ == registry@,
{
    registry.list_factories()
}

/// Registers the built-in time-signal variants: step, then impulse.
pub fn register_build_in_time_signals(registry: &mut TimeSignalRegistry)
    requires
        old(registry).wf(),
    ensures
        final(registry).wf(),
        final(registry)@ == after_register(
            after_register(old(registry)@, SignalKind::Step),
            SignalKind::Impulse,
        ),
        old(registry)@.len() == 0 ==> final(registry)@ == seq![SignalKind::Step, SignalKind::Impulse],
{
    proof {
        if old(registry)@.len() == 0 {
            lemma_register_two_in_order(old(registry)@, SignalKind::Step, SignalKind::Impulse);
            assert(old(registry)@.push(SignalKind::Step).push(SignalKind::Impulse) =~= seq![
                SignalKind::Step,
                SignalKind::Impulse,
            ]);
        }
    }
    register_time_signal(registry, SignalKind::Step);
    register_time_signal(registry, SignalKind::Impulse);
}

} // verus!
