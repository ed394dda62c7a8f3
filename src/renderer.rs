use vstd::prelude::*;
use crate::layout::{Layout, PositionedComponent, PositionedConnection, Point, Rotation};
use crate::parser::ComponentType;
use crate::text::{decimal, decimal_text, same_text};

verus! {

/// Colour scheme of the drawing.
#[derive(Clone, Copy, Debug, PartialEq, Eq, Structural)]
pub enum SvgTheme {
    Light,
    Dark,
}

/// Symbol convention of the drawing.
#[derive(Clone, Copy, Debug, PartialEq, Eq, Structural)]
pub enum SvgStyle {
    Ieee,
    Iec,
    Din,
}

/// Why a drawing could not be produced.
#[derive(Debug)]
pub struct RenderError {
    pub message: String,
}

/// The symbol's outline for a kind in a style, as SVG path data.
pub open spec fn symbol_path(t: ComponentType, style: SvgStyle) -> Seq<char> {
    match t {
        ComponentType::Resistor => match style {
            SvgStyle::Ieee => "M -20 0 L -15 -5 L -5 -5 L 5 5 L 15 5 L 20 0"@,
            SvgStyle::Iec => "M -20 0 H 20 V 5 H -20 V -5 H 20"@,
            SvgStyle::Din => "M -20 0 L -15 -5 L -5 -5 L 5 5 L 15 5 L 20 0"@,
        },
        ComponentType::Capacitor => match style {
            SvgStyle::Ieee => "M 0 -20 L 0 -10 M -5 -10 L 10 -10 M -5 10 L 10 10 M 0 10 L 0 20"@,
            SvgStyle::Iec => "M -5 -20 V 20 M 5 -20 V 20"@,
            SvgStyle::Din => "M 0 -20 L 0 -10 M -5 -10 L 10 -10 M -5 10 L 10 10 M 0 10 L 0 20"@,
        },
        ComponentType::Inductor => "M -20 0 Q -15 -10 -5 -10 Q 5 -10 15 -10 Q 20 0"@,
        ComponentType::Potentiometer => "M -20 -10 H 20 M -20 10 H 20 M 0 10 L 0 -10 M 5 -10 L -5 10"@,
        ComponentType::Transformer => "M -30 -10 Q -25 -15 -20 -10 Q -15 -5 -10 -10 Q -5 -15 0 -10 Q 5 -5 10 -10 Q 15 -15 20 -10 Q 25 -5 30 -10 M -30 10 Q -25 5 -20 10 Q -15 15 -10 10 Q -5 5 0 10 Q 5 15 10 10 Q 15 5 20 10 Q 25 15 30 10"@,
        ComponentType::DcVoltage => "M 0 -20 L 0 20 M -10 -5 H 10 M -10 5 H 10"@,
        ComponentType::DcCurrent => "M 0 -20 A 10 10 0 0 1 0 20 A 10 10 0 0 1 0 -20 Z M 15 0 L 10 -5 M 15 0 L 10 5"@,
        ComponentType::AcVoltage => "M 0 -20 A 10 10 0 0 1 0 20 A 10 10 0 0 1 0 -20 Z M -5 0 Q 0 -5 5 0 Q 0 5 -5 0"@,
        ComponentType::AcCurrent => "M 0 -20 A 10 10 0 0 1 0 20 A 10 10 0 0 1 0 -20 Z M 15 0 L 10 -5 M 15 0 L 10 5 M -5 0 Q 0 -5 5 0 Q 0 5 -5 0"@,
        ComponentType::SignalGenerator => "M -20 -10 H 20 V 20 H -20 Z M -10 0 Q -5 -5 0 0 Q -5 5 -10 0"@,
        ComponentType::Diode => match style {
            SvgStyle::Ieee => "M 0 -20 L 0 0 L -10 0 L 0 20 M 10 -20 L 0 0"@,
            SvgStyle::Iec => "M 0 -20 L -10 0 L 0 20 L 10 0 Z M 10 -20 L 0 0"@,
            SvgStyle::Din => "M 0 -20 L 0 0 L -10 0 L 0 20 M 10 -20 L 0 0"@,
        },
        ComponentType::ZenerDiode => match style {
            SvgStyle::Ieee => "M 0 -20 L 0 0 L -10 0 L 0 20 M 10 -20 L 0 0 M -2 -10 L -6 -6 M 6 6 L 2 2"@,
            SvgStyle::Iec => "M 0 -20 L -10 0 L 0 20 L 10 0 Z M 10 -20 L 0 0"@,
            SvgStyle::Din => "M 0 -20 L 0 0 L -10 0 L 0 20 M 10 -20 L 0 0 M -2 -10 L -6 -6 M 6 6 L 2 2"@,
        },
        ComponentType::SchottkyDiode => match style {
            SvgStyle::Ieee => "M 0 -20 L 0 0 L -10 0 L 0 20 M 10 -20 L 0 0 M -8 0 L -10 0 L -10 2 M 10 -2 L 10 0 L 8 0"@,
            SvgStyle::Iec => "M 0 -20 L -10 0 L 0 20 L 10 0 Z M 10 -20 L 0 0"@,
            SvgStyle::Din => "M 0 -20 L 0 0 L -10 0 L 0 20 M 10 -20 L 0 0 M -8 0 L -10 0 L -10 2 M 10 -2 L 10 0 L 8 0"@,
        },
        ComponentType::Led => match style {
            SvgStyle::Ieee => "M 0 -20 L 0 0 L -10 0 L 0 20 M 10 -20 L 0 0 M 5 -25 L 0 -30 M 2 -27 L 0 -30 L 3 -32"@,
            SvgStyle::Iec => "M 0 -20 L -10 0 L 0 20 L 10 0 Z M 10 -20 L 0 0 M 5 -25 L 0 -30 M 2 -27 L 0 -30 L 3 -32"@,
            SvgStyle::Din => "M 0 -20 L 0 0 L -10 0 L 0 20 M 10 -20 L 0 0 M 5 -25 L 0 -30 M 2 -27 L 0 -30 L 3 -32"@,
        },
        ComponentType::NpnTransistor => "M -20 0 L 0 0 M 0 -10 L 0 10 M 0 0 L 15 0 M 15 -5 L 10 0 L 15 5 M 5 5 L 10 0"@,
        ComponentType::PnpTransistor => "M -20 0 L 0 0 M 0 -10 L 0 10 M 0 0 L 15 0 M 10 -5 L 15 0 L 10 5 M 5 -5 L 10 0"@,
        ComponentType::NmosTransistor => "M -20 0 L -5 0 M -5 -10 L -5 10 M 0 5 L 15 5 M 10 0 L 10 10 M 15 0 L 15 10 M 12 7 L 15 10 L 18 13"@,
        ComponentType::PmosTransistor => "M -20 0 L -5 0 M -5 -10 L -5 10 M 0 -5 L 15 -5 M 10 -10 L 10 0 M 15 -10 L 15 0 M 12 -13 L 15 -10 L 18 -7"@,
        ComponentType::Jfet => "M -20 0 L -5 0 M -5 -10 L -5 10 M 0 0 L 15 0 M 10 -5 L 10 5"@,
        ComponentType::OpAmp => "M -25 -15 L 25 0 L -25 15 Z M -25 -10 L -15 -10 M -25 10 L -15 10 M 25 0 L 30 0"@,
        ComponentType::Comparator => "M -25 -15 L 25 0 L -25 15 Z M -25 -10 L -15 -10 M -25 10 L -15 10 M 25 0 L 30 0"@,
        ComponentType::Timer555 => "M -30 -25 H 30 V 50 H -30 Z"@,
        ComponentType::AndGate => match style {
            SvgStyle::Ieee => "M -10 -15 A 15 15 0 0 1 0 -15 A 15 15 0 0 1 10 -15 V 15 A 15 15 0 0 1 0 15 A 15 15 0 0 1 -10 15 Z M -20 -10 L -10 -10 M -20 10 L -10 10 M 20 0 L 25 0"@,
            SvgStyle::Iec => "M -20 -15 V 30 H 20 Q 20 0 20 -15 Z M -20 -10 L -10 -10 M -20 10 L -10 10 M 20 0 L 25 0"@,
            SvgStyle::Din => "M -20 -15 V 30 H 20 Q 20 0 20 -15 Z M -20 -10 L -10 -10 M -20 10 L -10 10 M 20 0 L 25 0"@,
        },
        ComponentType::OrGate => match style {
            SvgStyle::Ieee => "M -10 -15 C 10 -15 20 0 10 15 C -10 15 -10 -15 -10 -15 Z M -20 -10 L -10 -10 M -20 10 L -10 10 M 20 0 L 25 0"@,
            SvgStyle::Iec => "M -20 -15 C 10 -15 20 0 10 15 C -10 15 -10 -15 -10 -15 Z M -20 -10 L -10 -10 M -20 10 L -10 10 M 20 0 L 25 0"@,
            SvgStyle::Din => "M -20 -15 C 10 -15 20 0 10 15 C -10 15 -10 -15 -10 -15 Z M -20 -10 L -10 -10 M -20 10 L -10 10 M 20 0 L 25 0"@,
        },
        ComponentType::NotGate => "M -10 -10 L 10 0 L -10 10 Z M 10 0 L 15 0"@,
        ComponentType::NandGate => match style {
            SvgStyle::Ieee => "M -10 -15 A 15 15 0 0 1 0 -15 A 15 15 0 0 1 10 -15 V 15 A 15 15 0 0 1 0 15 A 15 15 0 0 1 -10 15 Z M -20 -10 L -10 -10 M -20 10 L -10 10 M 15 0 L 25 0 M 20 -2 L 25 0 L 20 2"@,
            SvgStyle::Iec => "M -20 -15 V 30 H 20 Q 20 0 20 -15 Z M -20 -10 L -10 -10 M -20 10 L -10 10 M 15 0 L 25 0 M 20 -2 L 25 0 L 20 2"@,
            SvgStyle::Din => "M -20 -15 V 30 H 20 Q 20 0 20 -15 Z M -20 -10 L -10 -10 M -20 10 L -10 10 M 15 0 L 25 0 M 20 -2 L 25 0 L 20 2"@,
        },
        ComponentType::NorGate => match style {
            SvgStyle::Ieee => "M -10 -15 C 10 -15 20 0 10 15 C -10 15 -10 -15 -10 -15 Z M -20 -10 L -10 -10 M -20 10 L -10 10 M 15 0 L 25 0 M 20 -2 L 25 0 L 20 2"@,
            SvgStyle::Iec => "M -20 -15 C 10 -15 20 0 10 15 C -10 15 -10 -15 -10 -15 Z M -20 -10 L -10 -10 M -20 10 L -10 10 M 15 0 L 25 0 M 20 -2 L 25 0 L 20 2"@,
            SvgStyle::Din => "M -20 -15 C 10 -15 20 0 10 15 C -10 15 -10 -15 -10 -15 Z M -20 -10 L -10 -10 M -20 10 L -10 10 M 15 0 L 25 0 M 20 -2 L 25 0 L 20 2"@,
        },
        ComponentType::XorGate => "M -20 -15 C 0 -15 10 0 0 15 C -20 15 -20 -15 -20 -15 Z M -25 -10 L -15 -10 M -25 10 L -15 10 M 20 0 L 25 0 M -10 -15 C 10 -15 20 0 10 15 C -10 15 -10 -15 -10 -15 Z"@,
        ComponentType::FlipFlop => "M -25 -20 H 25 V 40 H -25 Z"@,
        ComponentType::Counter => "M -30 -25 H 30 V 50 H -30 Z"@,
        ComponentType::Multiplexer => "M -30 -25 H 30 V 50 H -30 Z"@,
        ComponentType::VoltageRegulator => "M -20 -10 H 20 V 20 H -20 Z"@,
        ComponentType::Crystal => "M 0 -20 V 20 M -7 -15 H 7 M -7 15 H 7 M -7 -15 V 15 M 7 -15 V 15"@,
        ComponentType::Relay => "M -25 -15 H 25 V 30 H -25 Z M 15 -5 L 25 -15 M 15 -5 L 25 5 M 15 -5 L 15 5"@,
        ComponentType::SpstSwitch => "M -15 0 L -5 0 M 5 0 L 15 0 M -5 -5 L 5 5"@,
        ComponentType::SpdtSwitch => "M -15 0 L -5 0 M 5 -10 L 15 -10 M 5 10 L 15 10 M -5 -5 L 5 0"@,
        ComponentType::DpdtSwitch => "M -20 -5 L -10 -5 M 10 -15 L 20 -15 M 10 5 L 20 5 M -10 -5 L 10 0 M -20 5 L -10 5 M 10 -5 L 20 -5 M 10 15 L 20 15"@,
        ComponentType::Fuse => "M -15 0 H 15 M -10 -5 V 10 H 10 V -10 H -10 V 10"@,
        ComponentType::Battery => "M -15 0 L -10 -10 M -10 -5 L -10 5 M 10 -10 L 10 10 M 10 5 L 15 0"@,
        ComponentType::Microcontroller => "M -40 -40 H 40 V 80 H -40 Z"@,
        ComponentType::Connector => "M 0 -20 L 15 -20 L 15 20 L 0 20"@,
        ComponentType::TestPoint => "M 0 -10 L 0 0 C 0 5 5 5 5 0 C 5 -5 0 -5 0 -10 Z"@,
        ComponentType::Ammeter => "M -20 0 A 10 10 0 1 1 -20 0.1 M -20 -5 H 20 M -20 5 H 20 M 0 0 L 5 5"@,
        ComponentType::Voltmeter => "M 0 -20 A 10 10 0 1 1 0 -19.9 M 0 -5 H 0 5 M -10 0 H 10 M 0 0 L 5 5"@,
        ComponentType::OscilloscopeProbe => "M 0 -20 L 0 20 M -10 -10 H 10 V 20 H -10 Z"@,
        ComponentType::Antenna => "M 0 -20 L 0 0 L -10 15 M 0 0 L 10 15"@,
        ComponentType::Speaker => "M -15 0 L -10 -10 V 20 L -15 0 M -10 -10 H 15 V 20 H -10"@,
        ComponentType::Microphone => "M -20 0 A 10 10 0 1 1 -20 0.1 M 10 -10 V 20"@,
        ComponentType::Motor => "M -15 0 A 15 15 0 1 1 30 0 A 15 15 0 1 1 -30 0"@,
        ComponentType::SignalGround => "M 0 -15 L 0 0 M -10 0 L 10 0 M -6 5 L 6 5 M -2 10 L 2 10"@,
        ComponentType::ChassisGround => "M 0 -15 L 0 0 M -10 0 L 10 0 M -6 5 L 6 5 M -2 10 L 2 10 M 0 0 L 0 5"@,
        ComponentType::EarthGround => "M 0 -15 L 0 0 M -10 0 L 10 0 M -8 5 L 8 5 M -6 10 L 6 10 M -4 15 L 4 15"@,
    }
}

/// The symbol's outline for a kind in a style, as SVG path data.
pub fn get_component_symbol(component_type: &ComponentType, style: &SvgStyle) -> (r: &'static str)
    ensures
        r@ == symbol_path(*component_type, *style),
{
    let style = *style;
    match component_type {
            ComponentType::Resistor => match style {
                SvgStyle::Ieee => "M -20 0 L -15 -5 L -5 -5 L 5 5 L 15 5 L 20 0",
                SvgStyle::Iec => "M -20 0 H 20 V 5 H -20 V -5 H 20",
                SvgStyle::Din => "M -20 0 L -15 -5 L -5 -5 L 5 5 L 15 5 L 20 0",
            },
            ComponentType::Capacitor => match style {
                SvgStyle::Ieee => "M 0 -20 L 0 -10 M -5 -10 L 10 -10 M -5 10 L 10 10 M 0 10 L 0 20",
                SvgStyle::Iec => "M -5 -20 V 20 M 5 -20 V 20",
                SvgStyle::Din => "M 0 -20 L 0 -10 M -5 -10 L 10 -10 M -5 10 L 10 10 M 0 10 L 0 20",
            },
            ComponentType::Inductor => "M -20 0 Q -15 -10 -5 -10 Q 5 -10 15 -10 Q 20 0",
            ComponentType::Potentiometer => "M -20 -10 H 20 M -20 10 H 20 M 0 10 L 0 -10 M 5 -10 L -5 10",
            ComponentType::Transformer => "M -30 -10 Q -25 -15 -20 -10 Q -15 -5 -10 -10 Q -5 -15 0 -10 Q 5 -5 10 -10 Q 15 -15 20 -10 Q 25 -5 30 -10 M -30 10 Q -25 5 -20 10 Q -15 15 -10 10 Q -5 5 0 10 Q 5 15 10 10 Q 15 5 20 10 Q 25 15 30 10",
            ComponentType::DcVoltage => "M 0 -20 L 0 20 M -10 -5 H 10 M -10 5 H 10",
            ComponentType::DcCurrent => "M 0 -20 A 10 10 0 0 1 0 20 A 10 10 0 0 1 0 -20 Z M 15 0 L 10 -5 M 15 0 L 10 5",
            ComponentType::AcVoltage => "M 0 -20 A 10 10 0 0 1 0 20 A 10 10 0 0 1 0 -20 Z M -5 0 Q 0 -5 5 0 Q 0 5 -5 0",
            ComponentType::AcCurrent => "M 0 -20 A 10 10 0 0 1 0 20 A 10 10 0 0 1 0 -20 Z M 15 0 L 10 -5 M 15 0 L 10 5 M -5 0 Q 0 -5 5 0 Q 0 5 -5 0",
            ComponentType::SignalGenerator => "M -20 -10 H 20 V 20 H -20 Z M -10 0 Q -5 -5 0 0 Q -5 5 -10 0",
            ComponentType::Diode => match style {
                SvgStyle::Ieee => "M 0 -20 L 0 0 L -10 0 L 0 20 M 10 -20 L 0 0",
                SvgStyle::Iec => "M 0 -20 L -10 0 L 0 20 L 10 0 Z M 10 -20 L 0 0",
                SvgStyle::Din => "M 0 -20 L 0 0 L -10 0 L 0 20 M 10 -20 L 0 0",
            },
            ComponentType::ZenerDiode => match style {
                SvgStyle::Ieee => "M 0 -20 L 0 0 L -10 0 L 0 20 M 10 -20 L 0 0 M -2 -10 L -6 -6 M 6 6 L 2 2",
                SvgStyle::Iec => "M 0 -20 L -10 0 L 0 20 L 10 0 Z M 10 -20 L 0 0",
                SvgStyle::Din => "M 0 -20 L 0 0 L -10 0 L 0 20 M 10 -20 L 0 0 M -2 -10 L -6 -6 M 6 6 L 2 2",
            },
            ComponentType::SchottkyDiode => match style {
                SvgStyle::Ieee => "M 0 -20 L 0 0 L -10 0 L 0 20 M 10 -20 L 0 0 M -8 0 L -10 0 L -10 2 M 10 -2 L 10 0 L 8 0",
                SvgStyle::Iec => "M 0 -20 L -10 0 L 0 20 L 10 0 Z M 10 -20 L 0 0",
                SvgStyle::Din => "M 0 -20 L 0 0 L -10 0 L 0 20 M 10 -20 L 0 0 M -8 0 L -10 0 L -10 2 M 10 -2 L 10 0 L 8 0",
            },
            ComponentType::Led => match style {
                SvgStyle::Ieee => "M 0 -20 L 0 0 L -10 0 L 0 20 M 10 -20 L 0 0 M 5 -25 L 0 -30 M 2 -27 L 0 -30 L 3 -32",
                SvgStyle::Iec => "M 0 -20 L -10 0 L 0 20 L 10 0 Z M 10 -20 L 0 0 M 5 -25 L 0 -30 M 2 -27 L 0 -30 L 3 -32",
                SvgStyle::Din => "M 0 -20 L 0 0 L -10 0 L 0 20 M 10 -20 L 0 0 M 5 -25 L 0 -30 M 2 -27 L 0 -30 L 3 -32",
            },
            ComponentType::NpnTransistor => "M -20 0 L 0 0 M 0 -10 L 0 10 M 0 0 L 15 0 M 15 -5 L 10 0 L 15 5 M 5 5 L 10 0",
            ComponentType::PnpTransistor => "M -20 0 L 0 0 M 0 -10 L 0 10 M 0 0 L 15 0 M 10 -5 L 15 0 L 10 5 M 5 -5 L 10 0",
            ComponentType::NmosTransistor => "M -20 0 L -5 0 M -5 -10 L -5 10 M 0 5 L 15 5 M 10 0 L 10 10 M 15 0 L 15 10 M 12 7 L 15 10 L 18 13",
            ComponentType::PmosTransistor => "M -20 0 L -5 0 M -5 -10 L -5 10 M 0 -5 L 15 -5 M 10 -10 L 10 0 M 15 -10 L 15 0 M 12 -13 L 15 -10 L 18 -7",
            ComponentType::Jfet => "M -20 0 L -5 0 M -5 -10 L -5 10 M 0 0 L 15 0 M 10 -5 L 10 5",
            ComponentType::OpAmp => "M -25 -15 L 25 0 L -25 15 Z M -25 -10 L -15 -10 M -25 10 L -15 10 M 25 0 L 30 0",
            ComponentType::Comparator => "M -25 -15 L 25 0 L -25 15 Z M -25 -10 L -15 -10 M -25 10 L -15 10 M 25 0 L 30 0",
            ComponentType::Timer555 => "M -30 -25 H 30 V 50 H -30 Z",
            ComponentType::AndGate => match style {
                SvgStyle::Ieee => "M -10 -15 A 15 15 0 0 1 0 -15 A 15 15 0 0 1 10 -15 V 15 A 15 15 0 0 1 0 15 A 15 15 0 0 1 -10 15 Z M -20 -10 L -10 -10 M -20 10 L -10 10 M 20 0 L 25 0",
                SvgStyle::Iec => "M -20 -15 V 30 H 20 Q 20 0 20 -15 Z M -20 -10 L -10 -10 M -20 10 L -10 10 M 20 0 L 25 0",
                SvgStyle::Din => "M -20 -15 V 30 H 20 Q 20 0 20 -15 Z M -20 -10 L -10 -10 M -20 10 L -10 10 M 20 0 L 25 0",
            },
            ComponentType::OrGate => match style {
                SvgStyle::Ieee => "M -10 -15 C 10 -15 20 0 10 15 C -10 15 -10 -15 -10 -15 Z M -20 -10 L -10 -10 M -20 10 L -10 10 M 20 0 L 25 0",
                SvgStyle::Iec => "M -20 -15 C 10 -15 20 0 10 15 C -10 15 -10 -15 -10 -15 Z M -20 -10 L -10 -10 M -20 10 L -10 10 M 20 0 L 25 0",
                SvgStyle::Din => "M -20 -15 C 10 -15 20 0 10 15 C -10 15 -10 -15 -10 -15 Z M -20 -10 L -10 -10 M -20 10 L -10 10 M 20 0 L 25 0",
            },
            ComponentType::NotGate => "M -10 -10 L 10 0 L -10 10 Z M 10 0 L 15 0",
            ComponentType::NandGate => match style {
                SvgStyle::Ieee => "M -10 -15 A 15 15 0 0 1 0 -15 A 15 15 0 0 1 10 -15 V 15 A 15 15 0 0 1 0 15 A 15 15 0 0 1 -10 15 Z M -20 -10 L -10 -10 M -20 10 L -10 10 M 15 0 L 25 0 M 20 -2 L 25 0 L 20 2",
                SvgStyle::Iec => "M -20 -15 V 30 H 20 Q 20 0 20 -15 Z M -20 -10 L -10 -10 M -20 10 L -10 10 M 15 0 L 25 0 M 20 -2 L 25 0 L 20 2",
                SvgStyle::Din => "M -20 -15 V 30 H 20 Q 20 0 20 -15 Z M -20 -10 L -10 -10 M -20 10 L -10 10 M 15 0 L 25 0 M 20 -2 L 25 0 L 20 2",
            },
            ComponentType::NorGate => match style {
                SvgStyle::Ieee => "M -10 -15 C 10 -15 20 0 10 15 C -10 15 -10 -15 -10 -15 Z M -20 -10 L -10 -10 M -20 10 L -10 10 M 15 0 L 25 0 M 20 -2 L 25 0 L 20 2",
                SvgStyle::Iec => "M -20 -15 C 10 -15 20 0 10 15 C -10 15 -10 -15 -10 -15 Z M -20 -10 L -10 -10 M -20 10 L -10 10 M 15 0 L 25 0 M 20 -2 L 25 0 L 20 2",
                SvgStyle::Din => "M -20 -15 C 10 -15 20 0 10 15 C -10 15 -10 -15 -10 -15 Z M -20 -10 L -10 -10 M -20 10 L -10 10 M 15 0 L 25 0 M 20 -2 L 25 0 L 20 2",
            },
            ComponentType::XorGate => "M -20 -15 C 0 -15 10 0 0 15 C -20 15 -20 -15 -20 -15 Z M -25 -10 L -15 -10 M -25 10 L -15 10 M 20 0 L 25 0 M -10 -15 C 10 -15 20 0 10 15 C -10 15 -10 -15 -10 -15 Z",
            ComponentType::FlipFlop => "M -25 -20 H 25 V 40 H -25 Z",
            ComponentType::Counter => "M -30 -25 H 30 V 50 H -30 Z",
            ComponentType::Multiplexer => "M -30 -25 H 30 V 50 H -30 Z",
            ComponentType::VoltageRegulator => "M -20 -10 H 20 V 20 H -20 Z",
            ComponentType::Crystal => "M 0 -20 V 20 M -7 -15 H 7 M -7 15 H 7 M -7 -15 V 15 M 7 -15 V 15",
            ComponentType::Relay => "M -25 -15 H 25 V 30 H -25 Z M 15 -5 L 25 -15 M 15 -5 L 25 5 M 15 -5 L 15 5",
            ComponentType::SpstSwitch => "M -15 0 L -5 0 M 5 0 L 15 0 M -5 -5 L 5 5",
            ComponentType::SpdtSwitch => "M -15 0 L -5 0 M 5 -10 L 15 -10 M 5 10 L 15 10 M -5 -5 L 5 0",
            ComponentType::DpdtSwitch => "M -20 -5 L -10 -5 M 10 -15 L 20 -15 M 10 5 L 20 5 M -10 -5 L 10 0 M -20 5 L -10 5 M 10 -5 L 20 -5 M 10 15 L 20 15",
            ComponentType::Fuse => "M -15 0 H 15 M -10 -5 V 10 H 10 V -10 H -10 V 10",
            ComponentType::Battery => "M -15 0 L -10 -10 M -10 -5 L -10 5 M 10 -10 L 10 10 M 10 5 L 15 0",
            ComponentType::Microcontroller => "M -40 -40 H 40 V 80 H -40 Z",
            ComponentType::Connector => "M 0 -20 L 15 -20 L 15 20 L 0 20",
            ComponentType::TestPoint => "M 0 -10 L 0 0 C 0 5 5 5 5 0 C 5 -5 0 -5 0 -10 Z",
            ComponentType::Ammeter => "M -20 0 A 10 10 0 1 1 -20 0.1 M -20 -5 H 20 M -20 5 H 20 M 0 0 L 5 5",
            ComponentType::Voltmeter => "M 0 -20 A 10 10 0 1 1 0 -19.9 M 0 -5 H 0 5 M -10 0 H 10 M 0 0 L 5 5",
            ComponentType::OscilloscopeProbe => "M 0 -20 L 0 20 M -10 -10 H 10 V 20 H -10 Z",
            ComponentType::Antenna => "M 0 -20 L 0 0 L -10 15 M 0 0 L 10 15",
            ComponentType::Speaker => "M -15 0 L -10 -10 V 20 L -15 0 M -10 -10 H 15 V 20 H -10",
            ComponentType::Microphone => "M -20 0 A 10 10 0 1 1 -20 0.1 M 10 -10 V 20",
            ComponentType::Motor => "M -15 0 A 15 15 0 1 1 30 0 A 15 15 0 1 1 -30 0",
            ComponentType::SignalGround => "M 0 -15 L 0 0 M -10 0 L 10 0 M -6 5 L 6 5 M -2 10 L 2 10",
            ComponentType::ChassisGround => "M 0 -15 L 0 0 M -10 0 L 10 0 M -6 5 L 6 5 M -2 10 L 2 10 M 0 0 L 0 5",
            ComponentType::EarthGround => "M 0 -15 L 0 0 M -10 0 L 10 0 M -8 5 L 8 5 M -6 10 L 6 10 M -4 15 L 4 15",
    }
}

/// The colours a theme uses.
pub struct ThemeColors {
    pub background: &'static str,
    pub text: &'static str,
    pub wire: &'static str,
    pub component_stroke: &'static str,
    pub component_fill: &'static str,
}

/// The colours of a theme: background, text, wire, stroke and fill.
pub open spec fn theme_colors(theme: SvgTheme) -> (Seq<char>, Seq<char>, Seq<char>, Seq<char>, Seq<char>) {
    match theme {
        SvgTheme::Light => ("#ffffff"@, "#000000"@, "#000000"@, "#000000"@, "#ffffff"@),
        SvgTheme::Dark => ("#1e1e1e"@, "#ffffff"@, "#cccccc"@, "#cccccc"@, "#1e1e1e"@),
    }
}

pub open spec fn colors_view(c: ThemeColors) -> (Seq<char>, Seq<char>, Seq<char>, Seq<char>, Seq<char>) {
    (c.background@, c.text@, c.wire@, c.component_stroke@, c.component_fill@)
}

/// The colours of a theme.
pub fn get_theme_colors(theme: &SvgTheme) -> (r: ThemeColors)
    ensures
        colors_view(r) == theme_colors(*theme),
{
    match theme {
        SvgTheme::Light => ThemeColors {
            background: "#ffffff",
            text: "#000000",
            wire: "#000000",
            component_stroke: "#000000",
            component_fill: "#ffffff",
        },
        SvgTheme::Dark => ThemeColors {
            background: "#1e1e1e",
            text: "#ffffff",
            wire: "#cccccc",
            component_stroke: "#cccccc",
            component_fill: "#1e1e1e",
        },
    }
}

/// The class name a style gives the drawing.
pub open spec fn style_class(style: SvgStyle) -> Seq<char> {
    match style {
        SvgStyle::Ieee => "ieee"@,
        SvgStyle::Iec => "iec"@,
        SvgStyle::Din => "din"@,
    }
}

fn style_name(style: &SvgStyle) -> (r: &'static str)
    ensures
        r@ == style_class(*style),
{
    match style {
        SvgStyle::Ieee => "ieee",
        SvgStyle::Iec => "iec",
        SvgStyle::Din => "din",
    }
}

/// A signed integer in decimal.
pub open spec fn signed(v: int) -> Seq<char> {
    if v < 0 { "-"@ + decimal((-v) as nat) } else { decimal(v as nat) }
}

/// Writes a signed integer in decimal.
pub fn signed_text(v: i64) -> (r: String)
    ensures
        r@ == signed(v as int),
{
    if v < 0 {
        let magnitude: u64 = ((-(v + 1)) as u64) + 1;
        let mut s = String::from_str("-");
        s.append(decimal_text(magnitude).as_str());
        s
    } else {
        decimal_text(v as u64)
    }
}

/// The angle a rotation turns a symbol by, in degrees.
pub fn rotation_to_degrees(rotation: &Rotation) -> (r: i64)
    ensures
        r == rotation.spec_degrees(),
{
    rotation.degrees()
}

pub open spec fn text_line(y: Seq<char>, body: Seq<char>) -> Seq<char> {
    "<text x=\"0\" y=\""@ + y + "\" class=\"text\" text-anchor=\"middle\">"@ + body + "</text>\n"@
}

/// The SVG group of one placed component: its symbol moved and turned into
/// place, with its label above and its value below.
pub open spec fn component_svg(c: PositionedComponent, style: SvgStyle) -> Seq<char> {
    "<g transform=\"translate("@ + signed(c.position.x as int) + " "@ + signed(c.position.y as int) + ") rotate("@
        + signed(c.rotation.spec_degrees()) + " 0 0)\">\n"@
        + "<path d=\""@ + symbol_path(c.component.component_type, style) + "\" class=\"component\" />\n"@
        + label_svg(c) + value_svg(c) + "</g>\n"@
}

pub open spec fn label_svg(c: PositionedComponent) -> Seq<char> {
    match c.component.label {
        Some(l) => text_line("-20"@, l@),
        None => Seq::empty(),
    }
}

pub open spec fn value_svg(c: PositionedComponent) -> Seq<char> {
    match c.component.value {
        Some(v) => text_line("20"@, v@),
        None => Seq::empty(),
    }
}

fn push_text_line(svg: &mut String, y: &str, body: &str)
    ensures
        final(svg)@ == old(svg)@ + text_line(y@, body@),
{
    svg.append("<text x=\"0\" y=\"");
    svg.append(y);
    svg.append("\" class=\"text\" text-anchor=\"middle\">");
    svg.append(body);
    svg.append("</text>\n");
    proof {
        assert(final(svg)@ =~= old(svg)@ + text_line(y@, body@));
    }
}

/// The SVG group of one placed component.
pub fn render_component(component: &PositionedComponent, style: &SvgStyle) -> (r: String)
    ensures
        r@ == component_svg(*component, *style),
{
    let mut svg = String::from_str("<g transform=\"translate(");
    svg.append(signed_text(component.position.x).as_str());
    svg.append(" ");
    svg.append(signed_text(component.position.y).as_str());
    svg.append(") rotate(");
    svg.append(signed_text(rotation_to_degrees(&component.rotation)).as_str());
    svg.append(" 0 0)\">\n");
    svg.append("<path d=\"");
    svg.append(get_component_symbol(&component.component.component_type, style));
    svg.append("\" class=\"component\" />\n");
    let ghost head = svg@;
    if let Some(label) = &component.component.label {
        push_text_line(&mut svg, "-20", label.as_str());
    }
    let ghost mid = svg@;
    if let Some(value) = &component.component.value {
        push_text_line(&mut svg, "20", value.as_str());
    }
    let ghost tail = svg@;
    svg.append("</g>\n");
    proof {
        let lab = label_svg(*component);
        let val = value_svg(*component);
        assert(mid =~= head + lab);
        assert(tail =~= head + lab + val);
        assert(svg@ =~= component_svg(*component, *style));
    }
    svg
}

pub open spec fn point_pair(p: Point) -> Seq<char> {
    signed(p.x as int) + " "@ + signed(p.y as int)
}

/// Path data through the first `k` waypoints: a move to the first, then a line to each next one.
pub open spec fn path_data(path: Seq<Point>, k: int) -> Seq<char>
    decreases k,
{
    if k <= 0 || k > path.len() {
        Seq::empty()
    } else if k == 1 {
        "M "@ + point_pair(path[0])
    } else {
        path_data(path, k - 1) + " L "@ + point_pair(path[k - 1])
    }
}

/// The SVG of one wire: a path through its waypoints, or a straight line
/// between its ends when it has at most one waypoint.
pub open spec fn connection_svg(c: PositionedConnection) -> Seq<char> {
    if c.path@.len() > 1 {
        "<path d=\""@ + path_data(c.path@, c.path@.len() as int) + "\" class=\"wire\" />\n"@
    } else {
        "<line x1=\""@ + signed(c.from.x as int) + "\" y1=\""@ + signed(c.from.y as int) + "\" x2=\""@
            + signed(c.to.x as int) + "\" y2=\""@ + signed(c.to.y as int) + "\" class=\"wire\" />\n"@
    }
}

/// The SVG of one wire.
pub fn render_connection(connection: &PositionedConnection) -> (r: String)
    ensures
        r@ == connection_svg(*connection),
{
    let path = &connection.path;
    if path.len() > 1 {
        let mut data = String::from_str("M ");
        data.append(signed_text(path[0].x).as_str());
        data.append(" ");
        data.append(signed_text(path[0].y).as_str());
        proof {
            assert(data@ =~= path_data(path@, 1));
        }
        let mut i: usize = 1;
        while i < path.len()
            invariant
                1 <= i <= path@.len(),
                data@ == path_data(path@, i as int),
            decreases path.len() - i,
        {
            data.append(" L ");
            data.append(signed_text(path[i].x).as_str());
            data.append(" ");
            data.append(signed_text(path[i].y).as_str());
            proof {
                assert(data@ =~= path_data(path@, i + 1));
            }
            i = i + 1;
        }
        let mut svg = String::from_str("<path d=\"");
        svg.append(data.as_str());
        svg.append("\" class=\"wire\" />\n");
        proof {
            assert(svg@ =~= connection_svg(*connection));
        }
        svg
    } else {
        let mut svg = String::from_str("<line x1=\"");
        svg.append(signed_text(connection.from.x).as_str());
        svg.append("\" y1=\"");
        svg.append(signed_text(connection.from.y).as_str());
        svg.append("\" x2=\"");
        svg.append(signed_text(connection.to.x).as_str());
        svg.append("\" y2=\"");
        svg.append(signed_text(connection.to.y).as_str());
        svg.append("\" class=\"wire\" />\n");
        proof {
            assert(svg@ =~= connection_svg(*connection));
        }
        svg
    }
}

/// The opening of a drawing: the root element and the style sheet.
pub open spec fn svg_head(theme: SvgTheme, style: SvgStyle) -> Seq<char> {
    let c = theme_colors(theme);
    "<svg xmlns=\"http://www.w3.org/2000/svg\" class=\""@ + style_class(style) + "\" style=\"background-color: "@ + c.0
        + "; color: "@ + c.1 + ";\">\n"@ + "<style>\n"@
        + ".wire { stroke: "@ + c.2 + "; stroke-width: 2; fill: none; }\n"@
        + ".component { stroke: "@ + c.3 + "; stroke-width: 2; fill: "@ + c.4 + "; }\n"@
        + ".text { fill: "@ + c.1 + "; font-family: Arial, sans-serif; font-size: 12px; }\n"@
        + "</style>\n"@
}

pub open spec fn components_svg(cs: Seq<PositionedComponent>, style: SvgStyle, k: int) -> Seq<char>
    decreases k,
{
    if k <= 0 || k > cs.len() { Seq::empty() } else { components_svg(cs, style, k - 1) + component_svg(cs[k - 1], style) }
}

pub open spec fn connections_svg(cs: Seq<PositionedConnection>, k: int) -> Seq<char>
    decreases k,
{
    if k <= 0 || k > cs.len() { Seq::empty() } else { connections_svg(cs, k - 1) + connection_svg(cs[k - 1]) }
}

/// The whole drawing of a layout.
pub open spec fn svg_text(layout: Layout, theme: SvgTheme, style: SvgStyle) -> Seq<char> {
    svg_head(theme, style) + components_svg(layout.components@, style, layout.components@.len() as int)
        + connections_svg(layout.connections@, layout.connections@.len() as int) + "</svg>"@
}

/// Draws a layout as SVG: every component, then every wire.
pub fn render_to_svg(layout: &Layout, theme: SvgTheme, style: SvgStyle) -> (r: Result<String, RenderError>)
    ensures
        r matches Ok(s) && s@ == svg_text(*layout, theme, style),
{
    let colors = get_theme_colors(&theme);
    let mut svg = String::from_str("<svg xmlns=\"http://www.w3.org/2000/svg\" class=\"");
    svg.append(style_name(&style));
    svg.append("\" style=\"background-color: ");
    svg.append(colors.background);
    svg.append("; color: ");
    svg.append(colors.text);
    svg.append(";\">\n");
    svg.append("<style>\n");
    svg.append(".wire { stroke: ");
    svg.append(colors.wire);
    svg.append("; stroke-width: 2; fill: none; }\n");
    svg.append(".component { stroke: ");
    svg.append(colors.component_stroke);
    svg.append("; stroke-width: 2; fill: ");
    svg.append(colors.component_fill);
    svg.append("; }\n");
    svg.append(".text { fill: ");
    svg.append(colors.text);
    svg.append("; font-family: Arial, sans-serif; font-size: 12px; }\n");
    svg.append("</style>\n");
    proof {
        assert(svg@ =~= svg_head(theme, style));
    }
    let ghost head = svg@;
    let mut k: usize = 0;
    while k < layout.components.len()
        invariant
            k <= layout.components@.len(),
            svg@ == head + components_svg(layout.components@, style, k as int),
        decreases layout.components.len() - k,
    {
        svg.append(render_component(&layout.components[k], &style).as_str());
        proof {
            assert(svg@ =~= head + components_svg(layout.components@, style, k + 1));
        }
        k = k + 1;
    }
    let ghost mid = svg@;
    let mut j: usize = 0;
    while j < layout.connections.len()
        invariant
            j <= layout.connections@.len(),
            svg@ == mid + connections_svg(layout.connections@, j as int),
        decreases layout.connections.len() - j,
    {
        svg.append(render_connection(&layout.connections[j]).as_str());
        proof {
            assert(svg@ =~= mid + connections_svg(layout.connections@, j + 1));
        }
        j = j + 1;
    }
    svg.append("</svg>");
    proof {
        assert(svg@ =~= svg_text(*layout, theme, style));
    }
    Ok(svg)
}

impl SvgTheme {
    /// `dark` selects the dark theme; any other name the light one.
    pub fn from_name(name: &str) -> (r: SvgTheme)
        ensures
            r == if name@ == "dark"@ { SvgTheme::Dark } else { SvgTheme::Light },
    {
        if same_text(name, "dark") { SvgTheme::Dark } else { SvgTheme::Light }
    }
}

impl SvgStyle {
    /// `iec` and `din` select those conventions; any other name IEEE.
    pub fn from_name(name: &str) -> (r: SvgStyle)
        ensures
            r == if name@ == "iec"@ { SvgStyle::Iec } else if name@ == "din"@ { SvgStyle::Din } else { SvgStyle::Ieee },
    {
        if same_text(name, "iec") {
            SvgStyle::Iec
        } else if same_text(name, "din") {
            SvgStyle::Din
        } else {
            SvgStyle::Ieee
        }
    }
}

} // verus!
