use mieza::renderer::{SvgStyle, SvgTheme};
use mieza::{list_components, parse_and_render, validate_circuit, CdlError};

#[test]
fn description_to_drawing() {
    let svg = parse_and_render("R1 resistor 1k (0, 0)\nR2 resistor 2k (100, 0)\nR1.2 -> R2.1", SvgTheme::Light, SvgStyle::Ieee).unwrap();
    assert!(svg.starts_with("<svg"));
    assert!(svg.contains("<path d=\"M 20 0 L 50 0 L 80 0\" class=\"wire\" />"));
}

#[test]
fn pipeline_reports_failures() {
    assert!(matches!(parse_and_render("R1 resistor\nR1 capacitor", SvgTheme::Light, SvgStyle::Ieee), Err(CdlError::DuplicateComponent(id)) if id == "R1"));
    assert!(matches!(parse_and_render("R1 resistor\nR1.9 -> R1.1", SvgTheme::Light, SvgStyle::Ieee), Err(CdlError::Layout(_))));
    assert!(matches!(parse_and_render("R1 nothing", SvgTheme::Light, SvgStyle::Ieee), Err(CdlError::Parse(_))));
    assert!(validate_circuit("R1 resistor 1k\nR2 resistor 2k\nR1.2 -> R2.1").is_ok());
    assert!(matches!(validate_circuit("R1 resistor 1k\nR1.9 -> R1.1"), Err(CdlError::Validation(_))));
    assert_eq!(list_components().len(), 52);
}
