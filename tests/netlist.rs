use mieza::netlist::{create_net_mapping, NetMap};
use mieza::parser::{Circuit, Component, ComponentType, Connection, ConnectionPoint, Net, Rotation};

fn part(id: &str, t: ComponentType) -> Component {
    Component {
        id: id.to_string(),
        component_type: t,
        value: None,
        properties: Vec::new(),
        position: None,
        rotation: Rotation::Deg0,
        label: None,
    }
}

fn point(id: &str, pin: &str) -> ConnectionPoint {
    ConnectionPoint { component_id: id.to_string(), pin: pin.to_string() }
}

fn wire(a: &str, ap: &str, b: &str, bp: &str) -> Connection {
    Connection { from: point(a, ap), to: point(b, bp), properties: Vec::new() }
}

fn net(m: &NetMap, id: &str, pin: &str) -> String {
    m.net_of(id, pin).unwrap()
}

#[test]
fn ground_wire_puts_both_pins_on_net_zero() {
    let circuit = Circuit {
        components: vec![
            part("GND1", ComponentType::SignalGround),
            part("R2", ComponentType::Resistor),
            part("V1", ComponentType::DcVoltage),
        ],
        connections: vec![wire("GND1", "GND", "R2", "2"), wire("R2", "1", "V1", "+")],
        nets: vec![],
    };
    let m = create_net_mapping(&circuit);
    assert_eq!(net(&m, "R2", "2"), "0");
    assert_eq!(net(&m, "GND1", "GND"), "0");
    assert_eq!(net(&m, "R2", "1"), "N2");
    assert_eq!(net(&m, "V1", "+"), "N2");
}

#[test]
fn ground_joined_late_still_grounds_the_whole_class() {
    let circuit = Circuit {
        components: vec![
            part("R1", ComponentType::Resistor),
            part("R2", ComponentType::Resistor),
            part("G", ComponentType::EarthGround),
        ],
        connections: vec![wire("R1", "1", "R2", "1"), wire("R2", "1", "G", "GND")],
        nets: vec![],
    };
    let m = create_net_mapping(&circuit);
    assert_eq!(net(&m, "R1", "1"), "0");
    assert_eq!(net(&m, "R2", "1"), "0");
    assert_eq!(net(&m, "G", "GND"), "0");
}

#[test]
fn chain_of_wires_shares_one_net() {
    let circuit = Circuit {
        components: vec![part("A", ComponentType::Resistor), part("B", ComponentType::Resistor), part("C", ComponentType::Resistor), part("D", ComponentType::Resistor)],
        connections: vec![wire("A", "1", "B", "1"), wire("B", "1", "C", "1"), wire("C", "1", "D", "1")],
        nets: vec![],
    };
    let m = create_net_mapping(&circuit);
    for id in ["A", "B", "C", "D"] {
        assert_eq!(net(&m, id, "1"), "N1");
    }
}

#[test]
fn wire_between_two_classes_merges_them() {
    let circuit = Circuit {
        components: vec![part("X", ComponentType::Resistor), part("Y", ComponentType::Resistor), part("Z", ComponentType::Resistor), part("W", ComponentType::Resistor)],
        connections: vec![wire("X", "1", "Y", "1"), wire("Z", "1", "W", "1"), wire("Y", "1", "Z", "1"), wire("X", "2", "W", "2")],
        nets: vec![],
    };
    let m = create_net_mapping(&circuit);
    for id in ["X", "Y", "Z", "W"] {
        assert_eq!(net(&m, id, "1"), "N1");
    }
    assert_eq!(net(&m, "X", "2"), "N3");
    assert_eq!(net(&m, "W", "2"), "N3");
}

#[test]
fn declarations_name_their_class_and_merge_on_shared_pins() {
    let circuit = Circuit {
        components: vec![part("R1", ComponentType::Resistor), part("R2", ComponentType::Resistor), part("R3", ComponentType::Resistor), part("R4", ComponentType::Resistor)],
        connections: vec![wire("R3", "2", "R4", "1"), wire("R4", "2", "R1", "1")],
        nets: vec![
            Net { name: "VCC".to_string(), nodes: vec![point("R1", "1"), point("R2", "1")] },
            Net { name: "VDD".to_string(), nodes: vec![point("R2", "1"), point("R3", "1")] },
        ],
    };
    let m = create_net_mapping(&circuit);
    assert_eq!(net(&m, "R1", "1"), "VCC");
    assert_eq!(net(&m, "R2", "1"), "VCC");
    assert_eq!(net(&m, "R3", "1"), "VCC");
    assert_eq!(net(&m, "R4", "2"), "VCC");
    assert_eq!(net(&m, "R3", "2"), "N1");
    assert_eq!(net(&m, "R4", "1"), "N1");
}

#[test]
fn unconnected_ground_component_is_listed_on_net_zero() {
    let circuit = Circuit {
        components: vec![part("GND2", ComponentType::ChassisGround), part("R1", ComponentType::Resistor)],
        connections: vec![],
        nets: vec![],
    };
    let m = create_net_mapping(&circuit);
    assert_eq!(net(&m, "GND2", "GND"), "0");
    assert!(m.net_of("R1", "1").is_none());
    assert_eq!(m.pins.len(), m.nets.len());
}

#[test]
fn declared_ground_member_grounds_the_declaration() {
    let circuit = Circuit {
        components: vec![part("G", ComponentType::SignalGround), part("R1", ComponentType::Resistor)],
        connections: vec![],
        nets: vec![Net { name: "RET".to_string(), nodes: vec![point("R1", "2"), point("G", "GND")] }],
    };
    let m = create_net_mapping(&circuit);
    assert_eq!(net(&m, "R1", "2"), "0");
}

#[test]
fn declared_name_survives_wire_merges_and_auto_nets_count_in_wire_order() {
    let circuit = Circuit {
        components: vec![part("A", ComponentType::Resistor), part("B", ComponentType::Resistor), part("C", ComponentType::Resistor), part("D", ComponentType::Resistor), part("E", ComponentType::Resistor)],
        connections: vec![wire("C", "1", "D", "1"), wire("C", "2", "A", "1"), wire("E", "1", "E", "2"), wire("D", "2", "B", "2")],
        nets: vec![Net { name: "SIG".to_string(), nodes: vec![point("A", "1"), point("B", "1")] }],
    };
    let m = create_net_mapping(&circuit);
    assert_eq!(net(&m, "C", "1"), "N1");
    assert_eq!(net(&m, "D", "1"), "N1");
    assert_eq!(net(&m, "C", "2"), "SIG");
    assert_eq!(net(&m, "B", "1"), "SIG");
    assert_eq!(net(&m, "E", "1"), "N2");
    assert_eq!(net(&m, "E", "2"), "N2");
    assert_eq!(net(&m, "D", "2"), "N3");
    assert_eq!(net(&m, "B", "2"), "N3");
}

#[test]
fn first_declaration_names_merged_declarations() {
    let circuit = Circuit {
        components: vec![part("A", ComponentType::Resistor), part("B", ComponentType::Resistor)],
        connections: vec![],
        nets: vec![
            Net { name: "FIRST".to_string(), nodes: vec![point("A", "1")] },
            Net { name: "SECOND".to_string(), nodes: vec![point("B", "1")] },
            Net { name: "THIRD".to_string(), nodes: vec![point("A", "1"), point("B", "1")] },
        ],
    };
    let m = create_net_mapping(&circuit);
    assert_eq!(net(&m, "A", "1"), "FIRST");
    assert_eq!(net(&m, "B", "1"), "FIRST");
}
