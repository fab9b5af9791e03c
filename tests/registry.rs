use cb_simulator_yew::plant::{self, ElementKind, ElementRegistry};
use cb_simulator_yew::register_build_in;
use cb_simulator_yew::registry::{Registry, TypeIdentifier};
use cb_simulator_yew::time_signal::{self, SignalKind, TimeSignalRegistry};

#[test]
fn build_in_elements_are_listed_in_registration_order() {
    let mut registry = ElementRegistry::new();
    plant::register_build_in_elements(&mut registry);
    assert_eq!(
        plant::list_factories(&registry),
        vec![ElementKind::PT0, ElementKind::PT1, ElementKind::PT2]
    );
}

#[test]
fn build_in_time_signals_are_listed_in_registration_order() {
    let mut registry = TimeSignalRegistry::new();
    time_signal::register_build_in_time_signals(&mut registry);
    assert_eq!(
        time_signal::list_factories(&registry),
        vec![SignalKind::Step, SignalKind::Impulse]
    );
}

#[test]
fn register_build_in_fills_both_registries() {
    let mut elements = ElementRegistry::new();
    let mut signals = TimeSignalRegistry::new();
    register_build_in(&mut elements, &mut signals);
    assert_eq!(elements.len(), 3);
    assert_eq!(signals.len(), 2);
    assert_eq!(elements.factory_at(0), Some(ElementKind::PT0));
    assert_eq!(signals.factory_at(0), Some(SignalKind::Step));
}

#[test]
fn two_registered_variants_come_back_in_registration_order() {
    let mut registry = TimeSignalRegistry::new();
    assert!(time_signal::register_time_signal(&mut registry, SignalKind::Impulse));
    assert!(time_signal::register_time_signal(&mut registry, SignalKind::Step));
    assert_eq!(
        time_signal::list_factories(&registry),
        vec![SignalKind::Impulse, SignalKind::Step]
    );
}

#[test]
fn instantiate_unregistered_identifier_yields_none() {
    let mut registry = ElementRegistry::new();
    plant::register_element(&mut registry, ElementKind::PT1);
    assert_eq!(registry.instantiate("PT2"), None);
    assert_eq!(registry.instantiate("unknown"), None);
    assert_eq!(registry.instantiate(""), None);
    assert_eq!(ElementRegistry::new().instantiate("PT1"), None);
}

#[test]
fn instantiate_registered_identifier_yields_its_variant() {
    let mut elements = ElementRegistry::new();
    let mut signals = TimeSignalRegistry::new();
    register_build_in(&mut elements, &mut signals);
    assert_eq!(elements.instantiate("PT0"), Some(ElementKind::PT0));
    assert_eq!(elements.instantiate("PT1"), Some(ElementKind::PT1));
    assert_eq!(elements.instantiate("PT2"), Some(ElementKind::PT2));
    assert_eq!(signals.instantiate("Step"), Some(SignalKind::Step));
    assert_eq!(signals.instantiate("Impulse"), Some(SignalKind::Impulse));
    assert_eq!(signals.instantiate("step"), None);
}

#[test]
fn duplicate_registration_is_refused_and_first_wins() {
    let mut registry = ElementRegistry::new();
    assert!(plant::register_element(&mut registry, ElementKind::PT2));
    assert!(plant::register_element(&mut registry, ElementKind::PT0));
    assert!(!plant::register_element(&mut registry, ElementKind::PT2));
    assert_eq!(
        plant::list_factories(&registry),
        vec![ElementKind::PT2, ElementKind::PT0]
    );
}

#[test]
fn registering_build_ins_twice_changes_nothing() {
    let mut registry = ElementRegistry::new();
    plant::register_build_in_elements(&mut registry);
    plant::register_build_in_elements(&mut registry);
    assert_eq!(registry.len(), 3);
}

#[test]
fn build_ins_after_a_custom_order_keep_the_earlier_entries_first() {
    let mut registry = ElementRegistry::new();
    plant::register_element(&mut registry, ElementKind::PT1);
    plant::register_build_in_elements(&mut registry);
    assert_eq!(
        registry.list_factories(),
        vec![ElementKind::PT1, ElementKind::PT0, ElementKind::PT2]
    );
}

#[test]
fn factory_at_resolves_a_selected_index() {
    let mut registry = TimeSignalRegistry::new();
    time_signal::register_build_in_time_signals(&mut registry);
    assert_eq!(registry.factory_at(1), Some(SignalKind::Impulse));
    assert_eq!(registry.factory_at(2), None);
    assert_eq!(Registry::<ElementKind>::new().factory_at(0), None);
}

#[test]
fn short_type_names_are_stable() {
    assert_eq!(ElementKind::PT0.short_type_name(), "PT0");
    assert_eq!(ElementKind::PT1.short_type_name(), "PT1");
    assert_eq!(ElementKind::PT2.short_type_name(), "PT2");
    assert_eq!(SignalKind::Step.short_type_name(), "Step");
    assert_eq!(SignalKind::Impulse.short_type_name(), "Impulse");
}

#[test]
fn from_type_name_dispatches_on_the_identifier() {
    assert_eq!(SignalKind::from_type_name("Step"), Some(SignalKind::Step));
    assert_eq!(SignalKind::from_type_name("Impulse"), Some(SignalKind::Impulse));
    assert_eq!(SignalKind::from_type_name("SuperPosition"), None);
    assert_eq!(ElementKind::from_type_name("PT0"), Some(ElementKind::PT0));
    assert_eq!(ElementKind::from_type_name("PT1"), Some(ElementKind::PT1));
    assert_eq!(ElementKind::from_type_name("PT2"), Some(ElementKind::PT2));
    assert_eq!(ElementKind::from_type_name("PT3"), None);
}
