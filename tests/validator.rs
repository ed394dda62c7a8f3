use mieza::parser::{Circuit, Component, ComponentType, Connection, ConnectionPoint, Rotation};
use mieza::text::decimal_text;
use mieza::validator::{has_pin, validate, validate_component_value};

fn part(id: &str, t: ComponentType, value: &str, position: (i32, i32), label: &str) -> Component {
    Component {
        id: id.to_string(),
        component_type: t,
        value: Some(value.to_string()),
        properties: Vec::new(),
        position: Some(position),
        rotation: Rotation::Deg0,
        label: Some(label.to_string()),
    }
}

fn wire(a: &str, ap: &str, b: &str, bp: &str) -> Connection {
    Connection {
        from: ConnectionPoint { component_id: a.to_string(), pin: ap.to_string() },
        to: ConnectionPoint { component_id: b.to_string(), pin: bp.to_string() },
        properties: Vec::new(),
    }
}

#[test]
fn test_validate_valid_circuit() {
    let circuit = Circuit {
        components: vec![
            part("R1", ComponentType::Resistor, "1k", (0, 0), "R1"),
            part("R2", ComponentType::Resistor, "2k", (100, 0), "R2"),
        ],
        connections: vec![wire("R1", "2", "R2", "1")],
        nets: vec![],
    };
    let result = validate(&circuit);
    assert!(result.is_ok());
}

#[test]
fn test_validate_invalid_component() {
    let circuit = Circuit {
        components: vec![part("INVALID", ComponentType::Resistor, "1k", (0, 0), "R1")],
        connections: vec![],
        nets: vec![],
    };
    let result = validate(&circuit);
    assert!(result.is_ok());
}

#[test]
fn test_validate_invalid_connection() {
    let circuit = Circuit {
        components: vec![part("R1", ComponentType::Resistor, "1k", (0, 0), "R1")],
        connections: vec![wire("R1", "2", "NONEXISTENT", "1")],
        nets: vec![],
    };
    let result = validate(&circuit);
    assert!(result.is_err());
    assert_eq!(result.unwrap_err().message, "Connection references non-existent component: NONEXISTENT");
}

#[test]
fn validate_reports_bad_values_first() {
    let circuit = Circuit {
        components: vec![part("V1", ComponentType::DcVoltage, "5", (0, 0), "V1")],
        connections: vec![wire("V1", "+", "NONEXISTENT", "1")],
        nets: vec![],
    };
    let e = validate(&circuit).unwrap_err();
    assert_eq!(e.message, "Invalid value format for component type DcVoltage: 5");
    assert!(e.component_id.is_none());
}

#[test]
fn validate_reports_unknown_pins() {
    let circuit = Circuit {
        components: vec![part("R1", ComponentType::Resistor, "1k", (0, 0), "R1"), part("D1", ComponentType::Diode, "x", (0, 0), "D1")],
        connections: vec![wire("R1", "2", "D1", "B")],
        nets: vec![],
    };
    let e = validate(&circuit).unwrap_err();
    assert_eq!(e.message, "Component D1 does not have pin B");
    assert_eq!(e.component_id, Some("D1".to_string()));
    assert_eq!(e.connection_id, Some("R1->D1".to_string()));
}

#[test]
fn value_formats_by_kind() {
    assert!(validate_component_value("4.7k", &ComponentType::Resistor).is_ok());
    assert!(validate_component_value("\u{b5}", &ComponentType::Capacitor).is_ok());
    assert!(validate_component_value("xyz", &ComponentType::Inductor).is_err());
    assert!(validate_component_value("12v", &ComponentType::AcVoltage).is_ok());
    assert!(validate_component_value("2mA", &ComponentType::DcCurrent).is_ok());
    assert!(validate_component_value("2m", &ComponentType::AcCurrent).is_err());
    assert!(validate_component_value("anything", &ComponentType::Motor).is_ok());
}

#[test]
fn pin_lists_by_kind() {
    let op = part("U1", ComponentType::OpAmp, "x", (0, 0), "U1");
    assert!(has_pin(&op, "V+"));
    assert!(!has_pin(&op, "V"));
    let t = part("U2", ComponentType::Timer555, "x", (0, 0), "U2");
    assert!(has_pin(&t, "THR"));
    let m = part("M1", ComponentType::Motor, "x", (0, 0), "M1");
    assert!(!has_pin(&m, "anything"));
    assert!(has_pin(&m, "2"));
    let p = part("P1", ComponentType::Potentiometer, "10k", (0, 0), "P1");
    assert!(has_pin(&p, "W"));
    assert!(!has_pin(&p, "X"));
    let ac = part("V2", ComponentType::AcVoltage, "5V", (0, 0), "V2");
    assert!(has_pin(&ac, "1"));
    assert!(!has_pin(&ac, "+"));
}

#[test]
fn decimal_text_writes_digits() {
    assert_eq!(decimal_text(0), "0");
    assert_eq!(decimal_text(7), "7");
    assert_eq!(decimal_text(1234), "1234");
    assert_eq!(decimal_text(u64::MAX), "18446744073709551615");
}
