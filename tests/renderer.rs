use mieza::layout::calculate_layout;
use mieza::parser::{Circuit, Component, ComponentType, Connection, ConnectionPoint, Rotation as ParserRotation};
use mieza::renderer::{get_component_symbol, render_to_svg, signed_text, SvgStyle, SvgTheme};

fn resistor(id: &str, value: &str, x: i32) -> Component {
    Component {
        id: id.to_string(),
        component_type: ComponentType::Resistor,
        value: Some(value.to_string()),
        properties: Vec::new(),
        position: Some((x, 0)),
        rotation: ParserRotation::Deg0,
        label: Some(id.to_string()),
    }
}

#[test]
fn test_render_to_svg() {
    let circuit = Circuit { components: vec![resistor("R1", "1k", 0), resistor("R2", "2k", 100)], connections: vec![], nets: vec![] };
    let layout = calculate_layout(&circuit).expect("Failed to calculate layout");
    let svg = render_to_svg(&layout, SvgTheme::Light, SvgStyle::Ieee);
    assert!(svg.is_ok());
    let svg_content = svg.unwrap();
    assert!(svg_content.contains("svg"));
    assert!(svg_content.contains("path"));
    assert!(svg_content.contains("R1"));
    assert!(svg_content.contains("R2"));
}

#[test]
fn rendered_text_is_exact() {
    let mut r2 = resistor("R2", "2k", 100);
    r2.rotation = ParserRotation::Deg90;
    r2.label = None;
    let circuit = Circuit {
        components: vec![resistor("R1", "1k", -40), r2],
        connections: vec![Connection {
            from: ConnectionPoint { component_id: "R1".to_string(), pin: "2".to_string() },
            to: ConnectionPoint { component_id: "R2".to_string(), pin: "1".to_string() },
            properties: Vec::new(),
        }],
        nets: vec![],
    };
    let layout = calculate_layout(&circuit).unwrap();
    let svg = render_to_svg(&layout, SvgTheme::Dark, SvgStyle::Iec).unwrap();
    assert!(svg.starts_with("<svg xmlns=\"http://www.w3.org/2000/svg\" class=\"iec\" style=\"background-color: #1e1e1e; color: #ffffff;\">\n<style>\n"));
    assert!(svg.contains(".wire { stroke: #cccccc; stroke-width: 2; fill: none; }\n"));
    assert!(svg.contains("<g transform=\"translate(-40 0) rotate(0 0 0)\">\n<path d=\"M -20 0 H 20 V 5 H -20 V -5 H 20\" class=\"component\" />\n<text x=\"0\" y=\"-20\" class=\"text\" text-anchor=\"middle\">R1</text>\n<text x=\"0\" y=\"20\" class=\"text\" text-anchor=\"middle\">1k</text>\n</g>\n"));
    assert!(svg.contains("<g transform=\"translate(100 0) rotate(90 0 0)\">\n<path d=\"M -20 0 H 20 V 5 H -20 V -5 H 20\" class=\"component\" />\n<text x=\"0\" y=\"20\" class=\"text\" text-anchor=\"middle\">2k</text>\n</g>\n"));
    // R1 pin 2 is at (-20, 0); R2 pin 1 at (100, -20) after the quarter turn.
    assert!(svg.contains("<path d=\"M -20 0 L 40 0 L 40 -20 L 100 -20\" class=\"wire\" />\n"));
    assert!(svg.ends_with("</svg>"));
}

#[test]
fn numbers_and_symbols() {
    assert_eq!(signed_text(-42), "-42");
    assert_eq!(signed_text(0), "0");
    assert_eq!(signed_text(i64::MIN), "-9223372036854775808");
    assert_eq!(get_component_symbol(&ComponentType::Capacitor, &SvgStyle::Iec), "M -5 -20 V 20 M 5 -20 V 20");
    assert_eq!(SvgTheme::from_name("dark"), SvgTheme::Dark);
    assert_eq!(SvgTheme::from_name("blue"), SvgTheme::Light);
    assert_eq!(SvgStyle::from_name("din"), SvgStyle::Din);
    assert_eq!(SvgStyle::from_name("ansi"), SvgStyle::Ieee);
}
