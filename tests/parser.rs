use mieza::parser::{
    chars_of, line_spans, parse_cdl, parse_component_type, parse_connection_point, parse_property, parse_rotation,
    token_spans, ComponentType, Rotation,
};
use mieza::words::kind_of_word;

#[test]
fn test_parse_simple_resistor() {
    let input = "R1 resistor 1k (0, 0)";
    let result = parse_cdl(input);
    assert!(result.is_ok());
    let circuit = result.unwrap();
    assert_eq!(circuit.components.len(), 1);
    assert_eq!(circuit.components[0].id, "R1");
    assert!(matches!(circuit.components[0].component_type, ComponentType::Resistor));
    assert_eq!(circuit.components[0].value.as_ref().unwrap(), "1k");
}

#[test]
fn test_parse_component_with_rotation() {
    let input = "R1 resistor 10k (10, 20) rotation=90deg";
    let result = parse_cdl(input);
    assert!(result.is_ok());
    let circuit = result.unwrap();
    assert_eq!(circuit.components.len(), 1);
    assert!(matches!(circuit.components[0].rotation, Rotation::Deg90));
    assert_eq!(circuit.components[0].position, Some((10, 20)));
}

#[test]
fn parse_whole_description() {
    let input = "\n  R1 RESISTOR 1k (-5, 7) label=Load tol=5%\n\tU1 555\nR1.2 -> U1.GND color=red\n\nnet VCC R1.1 U1.VCC\n";
    let c = parse_cdl(input).unwrap();
    assert_eq!(c.components.len(), 2);
    assert_eq!(c.components[0].position, Some((-5, 7)));
    assert_eq!(c.components[0].label.as_deref(), Some("Load"));
    assert_eq!(c.components[0].properties, vec![("tol".to_string(), "5%".to_string())]);
    assert_eq!(c.components[1].component_type, ComponentType::Timer555);
    assert_eq!(c.components[1].value, None);
    assert_eq!(c.connections.len(), 1);
    assert_eq!(c.connections[0].from.component_id, "R1");
    assert_eq!(c.connections[0].to.pin, "GND");
    assert_eq!(c.connections[0].properties, vec![("color".to_string(), "red".to_string())]);
    assert_eq!(c.nets.len(), 1);
    assert_eq!(c.nets[0].name, "VCC");
    assert_eq!(c.nets[0].nodes[1].component_id, "U1");
    assert_eq!(c.nets[0].nodes[1].pin, "VCC");
}

#[test]
fn parse_errors_name_the_problem() {
    assert_eq!(parse_cdl("R1 flux 1k").unwrap_err().message, "Unknown component type: flux");
    assert_eq!(parse_cdl("R1.2.3 -> R2.1").unwrap_err().message, "Invalid connection point format: R1.2.3");
    assert_eq!(parse_cdl("R1 resistor 1k (a, 0)").unwrap_err().message, "Invalid X coordinate");
    assert_eq!(parse_cdl("R1 resistor 1k (0, 3000000000)").unwrap_err().message, "Invalid Y coordinate");
    assert_eq!(parse_cdl("R1 resistor 1k (0 0)").unwrap_err().message, "Invalid position: (0 0)");
    assert_eq!(parse_cdl("R1 resistor 1k rotation=45").unwrap_err().message, "Invalid rotation value: 45");
    assert_eq!(parse_cdl("R1 resistor 1k 2k").unwrap_err().message, "Unexpected token: 2k");
    assert_eq!(parse_cdl("R1").unwrap_err().message, "Incomplete statement: R1");
    assert_eq!(parse_cdl("A.1 -> B.2 loose").unwrap_err().message, "Invalid connection property: loose");
}

#[test]
fn parse_pieces() {
    let p = parse_connection_point("Q1.B").unwrap();
    assert_eq!((p.component_id.as_str(), p.pin.as_str()), ("Q1", "B"));
    assert!(parse_connection_point("Q1B").is_err());
    assert_eq!(parse_rotation("180").unwrap(), Rotation::Deg180);
    assert_eq!(parse_rotation("270deg").unwrap(), Rotation::Deg270);
    assert_eq!(parse_component_type("GND").unwrap(), ComponentType::SignalGround);
    assert_eq!(parse_component_type("Inverter").unwrap(), ComponentType::NotGate);
    assert_eq!(kind_of_word("mux"), Some(ComponentType::Multiplexer));
    assert_eq!(kind_of_word("MUX"), None);
    assert_eq!(parse_property("a=b=c"), Some(("a".to_string(), "b=c".to_string())));
    assert_eq!(parse_property("abc"), None);
}

#[test]
fn scanners_split_lines_and_tokens() {
    let cs = chars_of("ab\n\ncd (1, 2) e");
    assert_eq!(line_spans(&cs), vec![(0, 2), (3, 3), (4, 15)]);
    assert_eq!(token_spans(&cs, 4, 15), vec![(4, 6), (7, 13), (14, 15)]);
    assert_eq!(token_spans(&cs, 3, 3), vec![]);
}

#[test]
fn later_fields_replace_earlier_ones() {
    let c = parse_cdl("D1 led (1, 1) rotation=90 (2, 3) label=a label=b rotation=180deg").unwrap();
    let d = &c.components[0];
    assert_eq!(d.position, Some((2, 3)));
    assert_eq!(d.rotation, Rotation::Deg180);
    assert_eq!(d.label.as_deref(), Some("b"));
    assert_eq!(d.value, None);
}

#[test]
fn repeated_property_keeps_the_last_value() {
    let c = parse_cdl("R1 resistor 1k tol=5% tol=1% power=1W\nR1.1 -> R1.2 a=x a=y").unwrap();
    assert_eq!(c.components[0].properties, vec![("tol".to_string(), "1%".to_string()), ("power".to_string(), "1W".to_string())]);
    assert_eq!(c.connections[0].properties, vec![("a".to_string(), "y".to_string())]);
}
