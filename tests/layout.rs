use mieza::components::{ComponentRegistry, ComponentTemplate, PinDefinition, PinDirection, PinType};
use mieza::layout::{
    calculate_layout, calculate_layout_with, convert_rotation, floor_div, get_component_size, place_components,
    resolve_pin, rotate_point, route_connection, LayoutError, Point, Rotation,
};
use mieza::components::get_component_templates;
use mieza::parser::{Circuit, Component, ComponentType, Connection, ConnectionPoint, Rotation as ParserRotation};

fn part(id: &str, t: ComponentType, position: Option<(i32, i32)>) -> Component {
    Component {
        id: id.to_string(),
        component_type: t,
        value: None,
        properties: Vec::new(),
        position,
        rotation: ParserRotation::Deg0,
        label: Some(id.to_string()),
    }
}

fn wire(a: &str, ap: &str, b: &str, bp: &str) -> Connection {
    Connection {
        from: ConnectionPoint { component_id: a.to_string(), pin: ap.to_string() },
        to: ConnectionPoint { component_id: b.to_string(), pin: bp.to_string() },
        properties: Vec::new(),
    }
}

fn p(x: i64, y: i64) -> Point {
    Point { x, y }
}

#[test]
fn test_calculate_layout() {
    let mut r1 = part("R1", ComponentType::Resistor, Some((0, 0)));
    r1.value = Some("1k".to_string());
    let mut r2 = part("R2", ComponentType::Resistor, Some((100, 0)));
    r2.value = Some("2k".to_string());
    let circuit = Circuit { components: vec![r1, r2], connections: vec![wire("R1", "2", "R2", "1")], nets: vec![] };
    let layout = calculate_layout(&circuit);
    assert!(layout.is_ok());
    let layout = layout.unwrap();
    assert_eq!(layout.components.len(), 2);
    assert_eq!(layout.connections.len(), 1);
    assert_eq!(layout.connections[0].path, vec![p(20, 0), p(50, 0), p(80, 0)]);
}

#[test]
fn unplaced_component_goes_near_its_placed_neighbour() {
    let circuit = Circuit {
        components: vec![part("R1", ComponentType::Resistor, None), part("R2", ComponentType::Resistor, Some((100, 0)))],
        connections: vec![wire("R1", "2", "R2", "1")],
        nets: vec![],
    };
    let layout = calculate_layout(&circuit).unwrap();
    assert_eq!(layout.components[0].component.id, "R1");
    assert_eq!(layout.components[0].position, p(150, 50));
    assert_eq!(layout.components[1].position, p(100, 0));
    let c = &layout.connections[0];
    assert_eq!(c.from, p(170, 50));
    assert_eq!(c.to, p(80, 0));
    assert_eq!(c.path, vec![p(170, 50), p(125, 50), p(125, 0), p(80, 0)]);
    assert_eq!(c.path[0], c.from);
    assert_eq!(*c.path.last().unwrap(), c.to);
}

#[test]
fn unconnected_components_fill_the_grid() {
    let mut parts = vec![part("X", ComponentType::Resistor, Some((5, 5)))];
    for k in 0..11 {
        parts.push(part(&format!("U{}", k), ComponentType::Capacitor, None));
    }
    let positions = place_components(&parts, &Vec::new());
    assert_eq!(positions.len(), 12);
    assert_eq!(positions[0], p(5, 5));
    assert_eq!(positions[1], p(100, 0));
    assert_eq!(positions[2], p(200, 0));
    assert_eq!(positions[9], p(900, 0));
    assert_eq!(positions[10], p(0, 100));
    assert_eq!(positions[11], p(100, 100));
}

#[test]
fn neighbour_mean_rounds_down() {
    let parts = vec![
        part("A", ComponentType::Resistor, Some((-3, 0))),
        part("B", ComponentType::Resistor, Some((0, -1))),
        part("C", ComponentType::Resistor, None),
    ];
    let wires = vec![wire("C", "1", "A", "2"), wire("B", "2", "C", "2")];
    let positions = place_components(&parts, &wires);
    assert_eq!(positions[2], p(48, 49));
}

#[test]
fn later_neighbours_do_not_move_earlier_components() {
    let parts = vec![
        part("A", ComponentType::Resistor, None),
        part("B", ComponentType::Resistor, None),
        part("C", ComponentType::Resistor, Some((1000, 1000))),
    ];
    let wires = vec![wire("A", "1", "B", "1"), wire("B", "2", "C", "1")];
    let positions = place_components(&parts, &wires);
    // A has no placed neighbour when its turn comes: grid cell 1 (C is already counted).
    assert_eq!(positions[0], p(100, 0));
    // B averages A and C.
    assert_eq!(positions[1], p(600, 550));
    assert_eq!(positions[2], p(1000, 1000));
}

#[test]
fn placement_is_deterministic_and_total() {
    let parts = vec![
        part("A", ComponentType::Resistor, None),
        part("B", ComponentType::Diode, Some((7, 9))),
        part("C", ComponentType::Led, None),
    ];
    let wires = vec![wire("A", "1", "B", "A"), wire("C", "A", "A", "2")];
    let first = place_components(&parts, &wires);
    let second = place_components(&parts, &wires);
    assert_eq!(first, second);
    assert_eq!(first.len(), parts.len());
    assert_eq!(first[1], p(7, 9));
}

#[test]
fn rotation_turns_offsets_by_quarter_turns() {
    assert_eq!(rotate_point(10, 0, Rotation::Deg0), (10, 0));
    assert_eq!(rotate_point(10, 0, Rotation::Deg90), (0, 10));
    assert_eq!(rotate_point(10, 0, Rotation::Deg180), (-10, 0));
    assert_eq!(rotate_point(10, 0, Rotation::Deg270), (0, -10));
    assert_eq!(rotate_point(3, 4, Rotation::Deg90), (-4, 3));
}

fn one_pin_registry() -> ComponentRegistry {
    ComponentRegistry {
        templates: vec![ComponentTemplate {
            component_type: ComponentType::TestPoint,
            name: "probe".to_string(),
            symbol: "probe".to_string(),
            pins: vec![PinDefinition {
                name: "P".to_string(),
                position: (10, 0),
                direction: PinDirection::Passive,
                pin_type: PinType::Analog,
            }],
            width: 10,
            height: 10,
            style_variants: Vec::new(),
        }],
    }
}

#[test]
fn resolve_pin_applies_rotation_to_the_offset() {
    let reg = one_pin_registry();
    let base = p(100, 200);
    assert_eq!(resolve_pin(&reg, ComponentType::TestPoint, "P", base, Rotation::Deg0).unwrap(), p(110, 200));
    assert_eq!(resolve_pin(&reg, ComponentType::TestPoint, "P", base, Rotation::Deg90).unwrap(), p(100, 210));
    assert_eq!(resolve_pin(&reg, ComponentType::TestPoint, "P", base, Rotation::Deg180).unwrap(), p(90, 200));
    assert_eq!(resolve_pin(&reg, ComponentType::TestPoint, "P", base, Rotation::Deg270).unwrap(), p(100, 190));
}

#[test]
fn resolve_pin_reports_missing_pins_and_kinds() {
    let reg = one_pin_registry();
    match resolve_pin(&reg, ComponentType::TestPoint, "Q", p(0, 0), Rotation::Deg0) {
        Err(LayoutError::PinNotFound { component_type, pin }) => {
            assert_eq!(component_type, ComponentType::TestPoint);
            assert_eq!(pin, "Q");
        }
        other => panic!("unexpected {:?}", other),
    }
    assert!(matches!(
        resolve_pin(&reg, ComponentType::Resistor, "1", p(0, 0), Rotation::Deg0),
        Err(LayoutError::UnknownComponentType(ComponentType::Resistor))
    ));
}

#[test]
fn multi_word_kinds_resolve_their_pins() {
    let reg = get_component_templates();
    assert_eq!(resolve_pin(&reg, ComponentType::DcVoltage, "+", p(0, 50), Rotation::Deg0).unwrap(), p(0, 30));
    assert_eq!(resolve_pin(&reg, ComponentType::OpAmp, "OUT", p(0, 0), Rotation::Deg90).unwrap(), p(0, 25));
}

#[test]
fn layout_fails_on_dangling_connection() {
    let circuit = Circuit {
        components: vec![part("R1", ComponentType::Resistor, Some((0, 0)))],
        connections: vec![wire("R1", "2", "NOPE", "1")],
        nets: vec![],
    };
    match calculate_layout(&circuit) {
        Err(LayoutError::DanglingConnection(id)) => assert_eq!(id, "NOPE"),
        other => panic!("unexpected {:?}", other),
    }
}

#[test]
fn layout_fails_on_unknown_pin() {
    let circuit = Circuit {
        components: vec![part("R1", ComponentType::Resistor, Some((0, 0))), part("R2", ComponentType::Resistor, None)],
        connections: vec![wire("R1", "2", "R2", "7")],
        nets: vec![],
    };
    match calculate_layout(&circuit) {
        Err(LayoutError::PinNotFound { component_type, pin }) => {
            assert_eq!(component_type, ComponentType::Resistor);
            assert_eq!(pin, "7");
        }
        other => panic!("unexpected {:?}", other),
    }
}

#[test]
fn layout_with_fabricated_registry() {
    let circuit = Circuit {
        components: vec![part("T1", ComponentType::TestPoint, Some((0, 0))), part("T2", ComponentType::TestPoint, Some((0, 100)))],
        connections: vec![wire("T1", "P", "T2", "P")],
        nets: vec![],
    };
    let layout = calculate_layout_with(&circuit, &one_pin_registry()).unwrap();
    assert_eq!(layout.connections[0].path, vec![p(10, 0), p(10, 100)]);
    assert_eq!(layout.components[1].size, (10, 10));
    assert!(calculate_layout_with(&circuit, &ComponentRegistry { templates: vec![] }).is_err());
}

#[test]
fn routes_start_and_end_at_their_points() {
    assert_eq!(route_connection(p(0, 0), p(10, 10)), vec![p(0, 0), p(5, 0), p(5, 10), p(10, 10)]);
    assert_eq!(route_connection(p(0, 0), p(0, 10)), vec![p(0, 0), p(0, 10)]);
    assert_eq!(route_connection(p(0, 0), p(1, 0)), vec![p(0, 0), p(1, 0)]);
    assert_eq!(route_connection(p(0, 0), p(0, 1)), vec![p(0, 0), p(0, 1)]);
    assert_eq!(route_connection(p(3, 3), p(3, 3)), vec![p(3, 3)]);
    assert_eq!(route_connection(p(10, 0), p(-5, 4)), vec![p(10, 0), p(2, 0), p(2, 4), p(-5, 4)]);
}

#[test]
fn rotations_and_sizes() {
    assert_eq!(Rotation::from_degrees(270).unwrap(), Rotation::Deg270);
    assert!(matches!(Rotation::from_degrees(45), Err(LayoutError::InvalidRotation(45))));
    assert_eq!(Rotation::Deg180.degrees(), 180);
    assert_eq!(convert_rotation(&ParserRotation::Deg90), Rotation::Deg90);
    let reg = get_component_templates();
    assert_eq!(get_component_size(&reg, &ComponentType::Resistor), Some((40, 10)));
    assert_eq!(get_component_size(&reg, &ComponentType::Microcontroller), Some((80, 80)));
    assert_eq!(get_component_size(&reg, &ComponentType::EarthGround), Some((20, 15)));
    assert_eq!(get_component_size(&reg, &ComponentType::NandGate), Some((45, 30)));
    assert_eq!(get_component_size(&ComponentRegistry { templates: vec![] }, &ComponentType::Resistor), None);
}

#[test]
fn floor_division_rounds_toward_negative_infinity() {
    assert_eq!(floor_div(7, 2), 3);
    assert_eq!(floor_div(-7, 2), -4);
    assert_eq!(floor_div(-6, 3), -2);
    assert_eq!(floor_div(0, 5), 0);
}

#[test]
fn sizes_come_from_the_registry_and_fields_are_kept() {
    let mut g = part("U1", ComponentType::NandGate, Some((0, 0)));
    g.value = Some("74HC00".to_string());
    g.rotation = ParserRotation::Deg270;
    g.properties = vec![("family".to_string(), "hc".to_string())];
    let circuit = Circuit { components: vec![g], connections: vec![], nets: vec![] };
    let layout = calculate_layout(&circuit).unwrap();
    let pc = &layout.components[0];
    assert_eq!(pc.size, (45, 30));
    assert_eq!(pc.rotation, Rotation::Deg270);
    assert_eq!(pc.component.value.as_deref(), Some("74HC00"));
    assert_eq!(pc.component.label.as_deref(), Some("U1"));
    assert_eq!(pc.component.rotation, ParserRotation::Deg270);
    assert_eq!(pc.component.properties, vec![("family".to_string(), "hc".to_string())]);
}

#[test]
fn unknown_kind_fails_before_wires() {
    let circuit = Circuit {
        components: vec![part("T1", ComponentType::TestPoint, Some((0, 0))), part("R1", ComponentType::Resistor, Some((9, 9)))],
        connections: vec![wire("T1", "P", "NOPE", "1")],
        nets: vec![],
    };
    assert!(matches!(
        calculate_layout_with(&circuit, &one_pin_registry()),
        Err(LayoutError::UnknownComponentType(ComponentType::Resistor))
    ));
}
