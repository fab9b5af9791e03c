use cb_simulator_yew::named::{next_entry_name, NamedElement, NamedTimeSignal};
use cb_simulator_yew::plant::ElementKind;

#[test]
fn next_entry_name_appends_the_one_based_position() {
    assert_eq!(next_entry_name("PT1", 0), "PT1-1");
    assert_eq!(next_entry_name("PT1", 2), "PT1-3");
    assert_eq!(next_entry_name("Step", 9), "Step-10");
    assert_eq!(next_entry_name("PT2", 1233), "PT2-1234");
    assert_eq!(next_entry_name("", 99), "-100");
}

#[test]
fn next_entry_name_handles_the_largest_count() {
    let name = next_entry_name("PT0", usize::MAX - 1);
    assert_eq!(name, format!("PT0-{}", usize::MAX));
}

#[test]
fn named_element_setters_replace_one_field() {
    let entry = NamedElement { name: "PT1-1".to_string(), element: ElementKind::PT1 };
    let renamed = entry.set_name("plant".to_string());
    assert_eq!(renamed.name, "plant");
    assert_eq!(renamed.element, ElementKind::PT1);
    let swapped = renamed.set_element(ElementKind::PT2);
    assert_eq!(swapped.name, "plant");
    assert_eq!(swapped.element, ElementKind::PT2);
}

#[test]
fn named_time_signal_setters_replace_one_field() {
    let entry = NamedTimeSignal { name: "Signal".to_string(), signal: (0.0f64, 1.0f64, 1.0f64) };
    let renamed = entry.set_name("reference".to_string());
    assert_eq!(renamed.name, "reference");
    assert_eq!(renamed.signal, (0.0, 1.0, 1.0));
    let swapped = renamed.set_signal((1.0, 0.0, 2.0));
    assert_eq!(swapped.name, "reference");
    assert_eq!(swapped.signal, (1.0, 0.0, 2.0));
}
