use mieza::components::{
    all_component_types, get_component_list, get_component_pins, get_component_template, get_component_templates,
    kind_for_key, template_by_key, template_of,
};
use mieza::parser::ComponentType;

#[test]
fn test_get_component_template() {
    let template = get_component_template("resistor");
    assert!(template.is_some());
    assert_eq!(template.unwrap().name, "resistor");
}

#[test]
fn test_get_component_pins() {
    let pins = get_component_pins("resistor");
    assert!(pins.is_some());
    assert_eq!(pins.as_ref().unwrap().len(), 2);
    assert_eq!(pins.as_ref().unwrap()[0].name, "1");
    assert_eq!(pins.as_ref().unwrap()[1].name, "2");
}

#[test]
fn test_get_component_list() {
    let components = get_component_list();
    assert!(components.contains(&"resistor".to_string()));
    assert!(components.contains(&"capacitor".to_string()));
    assert!(components.contains(&"diode".to_string()));
}

#[test]
fn template_lookup_ignores_case() {
    let t = get_component_template("DC_Voltage").unwrap();
    assert_eq!(t.component_type, ComponentType::DcVoltage);
    assert_eq!(t.name, "dc_voltage");
    assert!(get_component_template("flux_capacitor").is_none());
    assert!(template_by_key("Resistor").is_none());
    assert_eq!(template_by_key("timer_555").unwrap().pins.len(), 8);
}

#[test]
fn every_kind_has_a_template_in_the_registry() {
    let reg = get_component_templates();
    let kinds = all_component_types();
    assert_eq!(kinds.len(), 52);
    assert_eq!(get_component_list().len(), 52);
    for t in kinds {
        let tp = reg.template_for(t).unwrap();
        assert_eq!(tp.component_type, t);
        assert_eq!(kind_for_key(t.name()), Some(t));
    }
    assert_eq!(kind_for_key("nope"), None);
}

#[test]
fn template_data_matches_the_catalogue() {
    let t = template_of(ComponentType::NpnTransistor);
    assert_eq!(t.symbol, "transistor");
    assert_eq!((t.width, t.height), (40, 30));
    assert_eq!(t.pins[1].name, "C");
    assert_eq!(t.pins[1].position, (20, -10));
    let g = template_of(ComponentType::SignalGround);
    assert_eq!(g.pins.len(), 1);
    assert_eq!(g.pins[0].name, "GND");
    assert_eq!(g.pins[0].position, (0, -15));
}

#[test]
fn templates_carry_style_variants() {
    let t = template_of(ComponentType::Resistor);
    let keys: Vec<&str> = t.style_variants.iter().map(|(k, _)| k.as_str()).collect();
    assert_eq!(keys, vec!["ieee", "iec", "din"]);
    assert_eq!(t.style_variants[0].1, "M -20 0 L -15 -5 L -5 -5 L 5 5 L 15 5 L 20 0");
}

#[test]
fn builtin_registry_has_one_template_per_kind() {
    let reg = get_component_templates();
    assert_eq!(reg.templates.len(), 52);
    let nand = reg.template_for(ComponentType::NandGate).unwrap();
    assert_eq!((nand.width, nand.height), (45, 30));
    assert_eq!(nand.name, "nand_gate");
}
