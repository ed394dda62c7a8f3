use mieza::netlist::{
    component_to_spice, create_net_mapping, drop_unit, get_component_pins_for_spice, normalize_current_value,
    normalize_voltage_value, export_spice, spice_raw_value,
};
use mieza::parser::{Circuit, Component, ComponentType, Connection, ConnectionPoint, Rotation};

fn part(id: &str, t: ComponentType, value: Option<&str>, position: (i32, i32), label: &str) -> Component {
    Component {
        id: id.to_string(),
        component_type: t,
        value: value.map(|v| v.to_string()),
        properties: Vec::new(),
        position: Some(position),
        rotation: Rotation::Deg0,
        label: Some(label.to_string()),
    }
}

fn wire(a: &str, ap: &str, b: &str, bp: &str) -> Connection {
    Connection {
        from: ConnectionPoint { component_id: a.to_string(), pin: ap.to_string() },
        to: ConnectionPoint { component_id: b.to_string(), pin: bp.to_string() },
        properties: Vec::new(),
    }
}

fn sample() -> Circuit {
    Circuit {
        components: vec![
            part("R1", ComponentType::Resistor, Some("1k"), (0, 0), "R1"),
            part("R2", ComponentType::Resistor, Some("2k"), (100, 0), "R2"),
            part("V1", ComponentType::DcVoltage, Some("5V"), (0, 50), "V1"),
            part("GND1", ComponentType::SignalGround, None, (0, 100), "GND"),
        ],
        connections: vec![
            wire("V1", "+", "R1", "1"),
            wire("R1", "2", "R2", "1"),
            wire("R2", "2", "GND1", "GND"),
            wire("V1", "-", "GND1", "GND"),
        ],
        nets: vec![],
    }
}

#[test]
fn test_export_spice_simple() {
    let circuit = sample();
    let values = vec!["1k".to_string(), "2k".to_string(), normalize_voltage_value("5V"), String::new()];
    let spice_content = export_spice(&circuit, &values);
    assert!(spice_content.contains("R1"));
    assert!(spice_content.contains("R2"));
    assert!(spice_content.contains("V1"));
    assert!(spice_content.contains(".end"));
    assert_eq!(
        spice_content,
        "* Mieza SPICE Netlist\n* Generated from CDL\n\nRR1 N1 N2 1k\nRR2 N2 0 2k\nVV1 N1 0 DC 5\n\n* Connections:\n* V1:+ -> R1:1\n* R1:2 -> R2:1\n* R2:2 -> GND1:GND\n* V1:- -> GND1:GND\n\n.end\n"
    );
}

#[test]
fn spice_lines_by_kind() {
    let circuit = Circuit {
        components: vec![
            part("Q1", ComponentType::NpnTransistor, None, (0, 0), "Q1"),
            part("M1", ComponentType::PmosTransistor, None, (0, 0), "M1"),
            part("D1", ComponentType::Diode, None, (0, 0), "D1"),
            part("K1", ComponentType::Relay, None, (0, 0), "K1"),
        ],
        connections: vec![wire("Q1", "C", "M1", "D")],
        nets: vec![],
    };
    let m = create_net_mapping(&circuit);
    assert_eq!(component_to_spice(&circuit.components[0], &m, ""), "QQ1 N1 0 0 QNPN");
    assert_eq!(component_to_spice(&circuit.components[1], &m, ""), "MM1 N1 0 0 0 PMOS");
    assert_eq!(component_to_spice(&circuit.components[2], &m, ""), "DD1 0 0 DDDIODE");
    assert_eq!(component_to_spice(&circuit.components[3], &m, ""), "* Component K1 of type Relay not supported in SPICE export");
    assert_eq!(get_component_pins_for_spice(&ComponentType::OpAmp), vec!["-", "+", "OUT"]);
}

#[test]
fn spice_values() {
    assert_eq!(spice_raw_value(&part("C1", ComponentType::Capacitor, None, (0, 0), "C1")), "1pF");
    assert_eq!(spice_raw_value(&part("C2", ComponentType::Capacitor, Some("10n"), (0, 0), "C2")), "10n");
    assert_eq!(normalize_voltage_value("  12v "), "12");
    assert_eq!(normalize_current_value("3A"), "3");
    assert_eq!(normalize_current_value("3"), "3");
    assert_eq!(drop_unit("5V", 'V', 'v'), "5");
    assert_eq!(drop_unit("", 'V', 'v'), "");
}

#[test]
fn unit_stripping_trims_unicode_white_space() {
    assert_eq!(normalize_voltage_value("\u{a0}12V\t"), "12");
    assert_eq!(normalize_current_value("\u{3000}7a "), "7");
}

#[test]
fn ac_sources_use_their_registry_pins() {
    let circuit = Circuit {
        components: vec![part("VA", ComponentType::AcVoltage, Some("3V"), (0, 0), "VA"), part("R1", ComponentType::Resistor, Some("1k"), (0, 0), "R1")],
        connections: vec![wire("VA", "1", "R1", "1")],
        nets: vec![],
    };
    let m = create_net_mapping(&circuit);
    assert_eq!(component_to_spice(&circuit.components[0], &m, "3"), "VVA N1 0 AC 3");
}
