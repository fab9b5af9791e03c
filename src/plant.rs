//! Transfer-element variants, their identifiers and their registry.

use vstd::prelude::*;
use crate::registry::{after_register, lemma_register_two_in_order, Registry, TypeIdentifier};

verus! {

/// The closed set of discrete transfer-element variants.
#[derive(Clone, Copy, Debug, PartialEq, Eq, Structural)]
pub enum ElementKind {
    /// Gain with an optional pure delay.
    PT0,
    /// First-order lag.
    PT1,
    /// Second-order lag with damping.
    PT2,
}

/// The stable short identifier of an element variant.
pub open spec fn element_ident(kind: ElementKind) -> Seq<char> {
    match kind {
        ElementKind::PT0 => seq!['P', 'T', '0'],
        ElementKind::PT1 => seq!['P', 'T', '1'],
        ElementKind::PT2 => seq!['P', 'T', '2'],
    }
}

impl TypeIdentifier for ElementKind {
    open spec fn ident(&self) -> Seq<char> {
        element_ident(*self)
    }

    fn short_type_name(&self) -> (r: &'static str) {
        match self {
            ElementKind::PT0 => {
                proof { reveal_strlit("PT0"); }
                "PT0"
            },
            ElementKind::PT1 => {
                proof { reveal_strlit("PT1"); }
                "PT1"
            },
            ElementKind::PT2 => {
                proof { reveal_strlit("PT2"); }
                "PT2"
            },
        }
    }
}

impl ElementKind {
    /// The variant whose identifier is `name`, if any.
    pub fn from_type_name(name: &str) -> (r: Option<ElementKind>)
        ensures
            r matches Some(k) ==> element_ident(k) == name@,
            r is None ==> forall|k: ElementKind| element_ident(k) != name@,
    {
        let pt0 = ElementKind::PT0;
        let pt1 = ElementKind::PT1;
        let pt2 = ElementKind::PT2;
        if pt0.short_type_name().to_owned() == name.to_owned() {
            Some(pt0)
        } else if pt1.short_type_name().to_owned() == name.to_owned() {
            Some(pt1)
        } else if pt2.short_type_name().to_owned() == name.to_owned() {
            Some(pt2)
        } else {
            proof {
                assert forall|k: ElementKind| element_ident(k) != name@ by {
                    match k {
                        ElementKind::PT0 => {},
                        ElementKind::PT1 => {},
                        ElementKind::PT2 => {},
                    }
                }
            }
            None
        }
    }
}

/// The registry of transfer-element variants.
pub type ElementRegistry = Registry<ElementKind>;

/// Registers an element variant; an identifier already present is refused.
/// Returns whether the variant was added.
pub fn register_element(registry: &mut ElementRegistry, factory: ElementKind) -> (added: bool)
    requires
        old(registry).wf(),
    ensures
        final(registry).wf(),
        added == (final(registry)@ != old(registry)@),
        final(registry)@ == after_register(old(registry)@, factory),
{
    registry.register(factory)
}

/// The registered element variants, in registration order.
pub fn list_factories(registry: &ElementRegistry) -> (r: Vec<ElementKind>)
    ensures
        r@ == registry@,
{
    registry.list_factories()
}

/// Registers the built-in element variants: PT0, then PT1, then PT2.
pub fn register_build_in_elements(registry: &mut ElementRegistry)
    requires
        old(registry).wf(),
    ensures
        final(registry).wf(),
        final(registry)@ == after_register(
            after_register(after_register(old(registry)@, ElementKind::PT0), ElementKind::PT1),
            ElementKind::PT2,
        ),
        old(registry)@.len() == 0 ==> final(registry)@ == seq![
            ElementKind::PT0,
            ElementKind::PT1,
            ElementKind::PT2,
        ],
{
    proof {
        if old(registry)@.len() == 0 {
            assert(after_register(old(registry)@, ElementKind::PT0) =~= seq![ElementKind::PT0]);
            lemma_register_two_in_order(seq![ElementKind::PT0], ElementKind::PT1, ElementKind::PT2);
        }
    }
    register_element(registry, ElementKind::PT0);
    register_element(registry, ElementKind::PT1);
    register_element(registry, ElementKind::PT2);
}

} // verus!
