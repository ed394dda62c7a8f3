use vstd::prelude::*;
use crate::parser::ComponentType;
use crate::text::same_text;

verus! {

/// Which way signals flow through a pin.
#[derive(Clone, Copy, Debug, PartialEq, Eq, Structural)]
pub enum PinDirection {
    Input,
    Output,
    Bidirectional,
    Passive,
    Power,
}

/// The electrical class of a pin.
#[derive(Clone, Copy, Debug, PartialEq, Eq, Structural)]
pub enum PinType {
    Digital,
    Analog,
    Power,
    Ground,
}

/// A named pin and its offset from the component's origin.
#[derive(Debug)]
pub struct PinDefinition {
    pub name: String,
    pub position: (i32, i32),
    pub direction: PinDirection,
    pub pin_type: PinType,
}

/// The geometry of one component kind: its pins in order and its footprint.
#[derive(Debug)]
pub struct ComponentTemplate {
    pub component_type: ComponentType,
    pub name: String,
    pub symbol: String,
    pub pins: Vec<PinDefinition>,
    pub width: i32,
    pub height: i32,
    pub style_variants: Vec<(String, String)>,
}

/// The first template of the given kind.
pub open spec fn find_template(s: Seq<ComponentTemplate>, t: ComponentType) -> Option<ComponentTemplate>
    decreases s.len(),
{
    if s.len() == 0 {
        None
    } else if s[0].component_type == t {
        Some(s[0])
    } else {
        find_template(s.drop_first(), t)
    }
}

/// The first pin with the given name.
pub open spec fn find_pin(s: Seq<PinDefinition>, name: Seq<char>) -> Option<PinDefinition>
    decreases s.len(),
{
    if s.len() == 0 {
        None
    } else if s[0].name@ == name {
        Some(s[0])
    } else {
        find_pin(s.drop_first(), name)
    }
}

proof fn lemma_find_template_found(s: Seq<ComponentTemplate>, t: ComponentType)
    ensures
        (exists|k: int| 0 <= k < s.len() && s[k].component_type == t) ==> find_template(s, t).is_some(),
        find_template(s, t) matches Some(x) ==> x.component_type == t && exists|k: int|
            0 <= k < s.len() && s[k] == x,
    decreases s.len(),
{
    if s.len() > 0 {
        lemma_find_template_found(s.drop_first(), t);
        if s[0].component_type != t {
            if exists|k: int| 0 <= k < s.len() && s[k].component_type == t {
                let k = choose|k: int| 0 <= k < s.len() && s[k].component_type == t;
                assert(s.drop_first()[k - 1] == s[k]);
            }
            if find_template(s, t).is_some() {
                let x = find_template(s, t).unwrap();
                let k = choose|k: int| 0 <= k < s.len() - 1 && s.drop_first()[k] == x;
                assert(s[k + 1] == x);
            }
        }
    }
}

/// `x` is the built-in template of kind `t`: its key, pins, symbol, size and style variants.
pub open spec fn template_matches(x: ComponentTemplate, t: ComponentType) -> bool {
    &&& x.component_type == t
    &&& x.name@ == kind_key(t)
    &&& pins_view(x.pins@) == kind_pins(t)
    &&& (x.symbol@, x.width, x.height) == kind_shape(t)
    &&& style_keys(x.style_variants@)
}

/// The registry holds one template per kind, and each kind finds its built-in template.
pub open spec fn builtin_registry(r: ComponentRegistry) -> bool {
    &&& r.templates@.len() == all_types().len()
    &&& forall|t: ComponentType| #[trigger] r.lookup(t) matches Some(x) && template_matches(x, t)
}

/// An injected, read-only lookup table from component kind to geometry.
pub struct ComponentRegistry {
    pub templates: Vec<ComponentTemplate>,
}

impl ComponentRegistry {
    /// The geometry this registry gives for a kind.
    pub open spec fn lookup(&self, t: ComponentType) -> Option<ComponentTemplate> {
        find_template(self.templates@, t)
    }

    /// The registry holding the built-in geometry of every kind.
    pub fn standard() -> (r: Self)
        ensures
            builtin_registry(r),
    {
        let kinds = all_component_types();
        let mut templates: Vec<ComponentTemplate> = Vec::new();
        let mut i: usize = 0;
        while i < kinds.len()
            invariant
                i <= kinds@.len(),
                kinds@ == all_types(),
                templates@.len() == i,
                forall|k: int| 0 <= k < i ==> (#[trigger] templates@[k]).component_type == kinds@[k],
                forall|k: int| 0 <= k < i ==> template_matches(#[trigger] templates@[k], kinds@[k]),
            decreases kinds.len() - i,
        {
            templates.push(template_of(kinds[i]));
            i = i + 1;
        }
        let r = ComponentRegistry { templates };
        assert forall|t: ComponentType| #[trigger] r.lookup(t) matches Some(x) && template_matches(x, t) by {
            lemma_all_types_complete(t);
            let k = choose|k: int| 0 <= k < all_types().len() && all_types()[k] == t;
            assert(r.templates@[k].component_type == t);
            lemma_find_template_found(r.templates@, t);
            let x = r.lookup(t).unwrap();
            let k2 = choose|k2: int| 0 <= k2 < r.templates@.len() && r.templates@[k2] == x;
            assert(template_matches(r.templates@[k2], kinds@[k2]));
        }
        r
    }

    /// The geometry for a kind, if the registry has it.
    pub fn template_for(&self, t: ComponentType) -> (r: Option<&ComponentTemplate>)
        ensures
            match r {
                Some(x) => self.lookup(t) == Some(*x),
                None => self.lookup(t).is_none(),
            },
    {
        let mut i: usize = 0;
        assert(self.templates@.subrange(0, self.templates@.len() as int) =~= self.templates@);
        while i < self.templates.len()
            invariant
                i <= self.templates@.len(),
                find_template(self.templates@, t) == find_template(self.templates@.subrange(i as int, self.templates@.len() as int), t),
            decreases self.templates.len() - i,
        {
            let ghost rest = self.templates@.subrange(i as int, self.templates@.len() as int);
            assert(rest.drop_first() =~= self.templates@.subrange(i + 1, self.templates@.len() as int));
            if self.templates[i].component_type == t {
                return Some(&self.templates[i]);
            }
            i = i + 1;
        }
        None
    }
}

/// The pin with the given name in a template, if there is one.
pub fn pin_named<'a>(pins: &'a Vec<PinDefinition>, name: &str) -> (r: Option<&'a PinDefinition>)
    ensures
        match r {
            Some(p) => find_pin(pins@, name@) == Some(*p),
            None => find_pin(pins@, name@).is_none(),
        },
{
    let mut i: usize = 0;
    assert(pins@.subrange(0, pins@.len() as int) =~= pins@);
    while i < pins.len()
        invariant
            i <= pins@.len(),
            find_pin(pins@, name@) == find_pin(pins@.subrange(i as int, pins@.len() as int), name@),
        decreases pins.len() - i,
    {
        let ghost rest = pins@.subrange(i as int, pins@.len() as int);
        assert(rest.drop_first() =~= pins@.subrange(i + 1, pins@.len() as int));
        if same_text(pins[i].name.as_str(), name) {
            return Some(&pins[i]);
        }
        i = i + 1;
    }
    None
}

fn pin(name: &str, x: i32, y: i32, direction: PinDirection, pin_type: PinType) -> (r: PinDefinition)
    ensures
        r.name@ == name@,
        r.position == (x, y),
        r.direction == direction,
        r.pin_type == pin_type,
{
    PinDefinition { name: String::from_str(name), position: (x, y), direction, pin_type }
}

/// Every component kind, in the order the registry lists them.
pub open spec fn all_types() -> Seq<ComponentType> {
    seq![ComponentType::Resistor, ComponentType::Capacitor, ComponentType::Inductor, ComponentType::Potentiometer, ComponentType::Transformer, ComponentType::DcVoltage, ComponentType::DcCurrent, ComponentType::AcVoltage, ComponentType::AcCurrent, ComponentType::SignalGenerator, ComponentType::Diode, ComponentType::ZenerDiode, ComponentType::SchottkyDiode, ComponentType::Led, ComponentType::NpnTransistor, ComponentType::PnpTransistor, ComponentType::NmosTransistor, ComponentType::PmosTransistor, ComponentType::Jfet, ComponentType::OpAmp, ComponentType::Comparator, ComponentType::Timer555, ComponentType::AndGate, ComponentType::OrGate, ComponentType::NotGate, ComponentType::NandGate, ComponentType::NorGate, ComponentType::XorGate, ComponentType::FlipFlop, ComponentType::Counter, ComponentType::Multiplexer, ComponentType::VoltageRegulator, ComponentType::Crystal, ComponentType::Relay, ComponentType::SpstSwitch, ComponentType::SpdtSwitch, ComponentType::DpdtSwitch, ComponentType::Fuse, ComponentType::Battery, ComponentType::Microcontroller, ComponentType::Connector, ComponentType::TestPoint, ComponentType::Ammeter, ComponentType::Voltmeter, ComponentType::OscilloscopeProbe, ComponentType::Antenna, ComponentType::Speaker, ComponentType::Microphone, ComponentType::Motor, ComponentType::SignalGround, ComponentType::ChassisGround, ComponentType::EarthGround]
}

proof fn lemma_all_types_complete(t: ComponentType)
    ensures
        exists|k: int| 0 <= k < all_types().len() && all_types()[k] == t,
{
    match t {
        ComponentType::Resistor => assert(all_types()[0] == t),
        ComponentType::Capacitor => assert(all_types()[1] == t),
        ComponentType::Inductor => assert(all_types()[2] == t),
        ComponentType::Potentiometer => assert(all_types()[3] == t),
        ComponentType::Transformer => assert(all_types()[4] == t),
        ComponentType::DcVoltage => assert(all_types()[5] == t),
        ComponentType::DcCurrent => assert(all_types()[6] == t),
        ComponentType::AcVoltage => assert(all_types()[7] == t),
        ComponentType::AcCurrent => assert(all_types()[8] == t),
        ComponentType::SignalGenerator => assert(all_types()[9] == t),
        ComponentType::Diode => assert(all_types()[10] == t),
        ComponentType::ZenerDiode => assert(all_types()[11] == t),
        ComponentType::SchottkyDiode => assert(all_types()[12] == t),
        ComponentType::Led => assert(all_types()[13] == t),
        ComponentType::NpnTransistor => assert(all_types()[14] == t),
        ComponentType::PnpTransistor => assert(all_types()[15] == t),
        ComponentType::NmosTransistor => assert(all_types()[16] == t),
        ComponentType::PmosTransistor => assert(all_types()[17] == t),
        ComponentType::Jfet => assert(all_types()[18] == t),
        ComponentType::OpAmp => assert(all_types()[19] == t),
        ComponentType::Comparator => assert(all_types()[20] == t),
        ComponentType::Timer555 => assert(all_types()[21] == t),
        ComponentType::AndGate => assert(all_types()[22] == t),
        ComponentType::OrGate => assert(all_types()[23] == t),
        ComponentType::NotGate => assert(all_types()[24] == t),
        ComponentType::NandGate => assert(all_types()[25] == t),
        ComponentType::NorGate => assert(all_types()[26] == t),
        ComponentType::XorGate => assert(all_types()[27] == t),
        ComponentType::FlipFlop => assert(all_types()[28] == t),
        ComponentType::Counter => assert(all_types()[29] == t),
        ComponentType::Multiplexer => assert(all_types()[30] == t),
        ComponentType::VoltageRegulator => assert(all_types()[31] == t),
        ComponentType::Crystal => assert(all_types()[32] == t),
        ComponentType::Relay => assert(all_types()[33] == t),
        ComponentType::SpstSwitch => assert(all_types()[34] == t),
        ComponentType::SpdtSwitch => assert(all_types()[35] == t),
        ComponentType::DpdtSwitch => assert(all_types()[36] == t),
        ComponentType::Fuse => assert(all_types()[37] == t),
        ComponentType::Battery => assert(all_types()[38] == t),
        ComponentType::Microcontroller => assert(all_types()[39] == t),
        ComponentType::Connector => assert(all_types()[40] == t),
        ComponentType::TestPoint => assert(all_types()[41] == t),
        ComponentType::Ammeter => assert(all_types()[42] == t),
        ComponentType::Voltmeter => assert(all_types()[43] == t),
        ComponentType::OscilloscopeProbe => assert(all_types()[44] == t),
        ComponentType::Antenna => assert(all_types()[45] == t),
        ComponentType::Speaker => assert(all_types()[46] == t),
        ComponentType::Microphone => assert(all_types()[47] == t),
        ComponentType::Motor => assert(all_types()[48] == t),
        ComponentType::SignalGround => assert(all_types()[49] == t),
        ComponentType::ChassisGround => assert(all_types()[50] == t),
        ComponentType::EarthGround => assert(all_types()[51] == t),
    }
}

/// Every component kind as a vector.
pub fn all_component_types() -> (r: Vec<ComponentType>)
    ensures
        r@ == all_types(),
{
    let r = vec![ComponentType::Resistor, ComponentType::Capacitor, ComponentType::Inductor, ComponentType::Potentiometer, ComponentType::Transformer, ComponentType::DcVoltage, ComponentType::DcCurrent, ComponentType::AcVoltage, ComponentType::AcCurrent, ComponentType::SignalGenerator, ComponentType::Diode, ComponentType::ZenerDiode, ComponentType::SchottkyDiode, ComponentType::Led, ComponentType::NpnTransistor, ComponentType::PnpTransistor, ComponentType::NmosTransistor, ComponentType::PmosTransistor, ComponentType::Jfet, ComponentType::OpAmp, ComponentType::Comparator, ComponentType::Timer555, ComponentType::AndGate, ComponentType::OrGate, ComponentType::NotGate, ComponentType::NandGate, ComponentType::NorGate, ComponentType::XorGate, ComponentType::FlipFlop, ComponentType::Counter, ComponentType::Multiplexer, ComponentType::VoltageRegulator, ComponentType::Crystal, ComponentType::Relay, ComponentType::SpstSwitch, ComponentType::SpdtSwitch, ComponentType::DpdtSwitch, ComponentType::Fuse, ComponentType::Battery, ComponentType::Microcontroller, ComponentType::Connector, ComponentType::TestPoint, ComponentType::Ammeter, ComponentType::Voltmeter, ComponentType::OscilloscopeProbe, ComponentType::Antenna, ComponentType::Speaker, ComponentType::Microphone, ComponentType::Motor, ComponentType::SignalGround, ComponentType::ChassisGround, ComponentType::EarthGround];
    assert(r@ =~= all_types());
    r
}

/// The registry key of a kind.
pub open spec fn kind_key(t: ComponentType) -> Seq<char> {
    match t {
        ComponentType::Resistor => "resistor"@,
        ComponentType::Capacitor => "capacitor"@,
        ComponentType::Inductor => "inductor"@,
        ComponentType::Potentiometer => "potentiometer"@,
        ComponentType::Transformer => "transformer"@,
        ComponentType::DcVoltage => "dc_voltage"@,
        ComponentType::DcCurrent => "dc_current"@,
        ComponentType::AcVoltage => "ac_voltage"@,
        ComponentType::AcCurrent => "ac_current"@,
        ComponentType::SignalGenerator => "signal_generator"@,
        ComponentType::Diode => "diode"@,
        ComponentType::ZenerDiode => "zener_diode"@,
        ComponentType::SchottkyDiode => "schottky_diode"@,
        ComponentType::Led => "led"@,
        ComponentType::NpnTransistor => "npn_transistor"@,
        ComponentType::PnpTransistor => "pnp_transistor"@,
        ComponentType::NmosTransistor => "nmos_transistor"@,
        ComponentType::PmosTransistor => "pmos_transistor"@,
        ComponentType::Jfet => "jfet"@,
        ComponentType::OpAmp => "op_amp"@,
        ComponentType::Comparator => "comparator"@,
        ComponentType::Timer555 => "timer_555"@,
        ComponentType::AndGate => "and_gate"@,
        ComponentType::OrGate => "or_gate"@,
        ComponentType::NotGate => "not_gate"@,
        ComponentType::NandGate => "nand_gate"@,
        ComponentType::NorGate => "nor_gate"@,
        ComponentType::XorGate => "xor_gate"@,
        ComponentType::FlipFlop => "flip_flop"@,
        ComponentType::Counter => "counter"@,
        ComponentType::Multiplexer => "multiplexer"@,
        ComponentType::VoltageRegulator => "voltage_regulator"@,
        ComponentType::Crystal => "crystal"@,
        ComponentType::Relay => "relay"@,
        ComponentType::SpstSwitch => "spst_switch"@,
        ComponentType::SpdtSwitch => "spdt_switch"@,
        ComponentType::DpdtSwitch => "dpdt_switch"@,
        ComponentType::Fuse => "fuse"@,
        ComponentType::Battery => "battery"@,
        ComponentType::Microcontroller => "microcontroller"@,
        ComponentType::Connector => "connector"@,
        ComponentType::TestPoint => "test_point"@,
        ComponentType::Ammeter => "ammeter"@,
        ComponentType::Voltmeter => "voltmeter"@,
        ComponentType::OscilloscopeProbe => "oscilloscope_probe"@,
        ComponentType::Antenna => "antenna"@,
        ComponentType::Speaker => "speaker"@,
        ComponentType::Microphone => "microphone"@,
        ComponentType::Motor => "motor"@,
        ComponentType::SignalGround => "signal_ground"@,
        ComponentType::ChassisGround => "chassis_ground"@,
        ComponentType::EarthGround => "earth_ground"@,
    }
}

impl ComponentType {
    /// The registry key of this kind.
    pub fn name(&self) -> (r: &'static str)
        ensures
            r@ == kind_key(*self),
    {
        match self {
            ComponentType::Resistor => "resistor",
            ComponentType::Capacitor => "capacitor",
            ComponentType::Inductor => "inductor",
            ComponentType::Potentiometer => "potentiometer",
            ComponentType::Transformer => "transformer",
            ComponentType::DcVoltage => "dc_voltage",
            ComponentType::DcCurrent => "dc_current",
            ComponentType::AcVoltage => "ac_voltage",
            ComponentType::AcCurrent => "ac_current",
            ComponentType::SignalGenerator => "signal_generator",
            ComponentType::Diode => "diode",
            ComponentType::ZenerDiode => "zener_diode",
            ComponentType::SchottkyDiode => "schottky_diode",
            ComponentType::Led => "led",
            ComponentType::NpnTransistor => "npn_transistor",
            ComponentType::PnpTransistor => "pnp_transistor",
            ComponentType::NmosTransistor => "nmos_transistor",
            ComponentType::PmosTransistor => "pmos_transistor",
            ComponentType::Jfet => "jfet",
            ComponentType::OpAmp => "op_amp",
            ComponentType::Comparator => "comparator",
            ComponentType::Timer555 => "timer_555",
            ComponentType::AndGate => "and_gate",
            ComponentType::OrGate => "or_gate",
            ComponentType::NotGate => "not_gate",
            ComponentType::NandGate => "nand_gate",
            ComponentType::NorGate => "nor_gate",
            ComponentType::XorGate => "xor_gate",
            ComponentType::FlipFlop => "flip_flop",
            ComponentType::Counter => "counter",
            ComponentType::Multiplexer => "multiplexer",
            ComponentType::VoltageRegulator => "voltage_regulator",
            ComponentType::Crystal => "crystal",
            ComponentType::Relay => "relay",
            ComponentType::SpstSwitch => "spst_switch",
            ComponentType::SpdtSwitch => "spdt_switch",
            ComponentType::DpdtSwitch => "dpdt_switch",
            ComponentType::Fuse => "fuse",
            ComponentType::Battery => "battery",
            ComponentType::Microcontroller => "microcontroller",
            ComponentType::Connector => "connector",
            ComponentType::TestPoint => "test_point",
            ComponentType::Ammeter => "ammeter",
            ComponentType::Voltmeter => "voltmeter",
            ComponentType::OscilloscopeProbe => "oscilloscope_probe",
            ComponentType::Antenna => "antenna",
            ComponentType::Speaker => "speaker",
            ComponentType::Microphone => "microphone",
            ComponentType::Motor => "motor",
            ComponentType::SignalGround => "signal_ground",
            ComponentType::ChassisGround => "chassis_ground",
            ComponentType::EarthGround => "earth_ground",
        }
    }
}

/// A pin as plain values: name, offset, direction and class.
pub open spec fn pin_view(p: PinDefinition) -> (Seq<char>, int, int, PinDirection, PinType) {
    (p.name@, p.position.0 as int, p.position.1 as int, p.direction, p.pin_type)
}

pub open spec fn pins_view(v: Seq<PinDefinition>) -> Seq<(Seq<char>, int, int, PinDirection, PinType)> {
    v.map_values(|p: PinDefinition| pin_view(p))
}

/// The built-in pins of a kind, in order.
pub open spec fn kind_pins(t: ComponentType) -> Seq<(Seq<char>, int, int, PinDirection, PinType)> {
    match t {
        ComponentType::Resistor => seq![("1"@, -20, 0, PinDirection::Passive, PinType::Analog), ("2"@, 20, 0, PinDirection::Passive, PinType::Analog)],
        ComponentType::Capacitor => seq![("1"@, 0, -20, PinDirection::Passive, PinType::Analog), ("2"@, 0, 20, PinDirection::Passive, PinType::Analog)],
        ComponentType::Inductor => seq![("1"@, -20, 0, PinDirection::Passive, PinType::Analog), ("2"@, 20, 0, PinDirection::Passive, PinType::Analog)],
        ComponentType::Potentiometer => seq![("1"@, -20, -10, PinDirection::Passive, PinType::Analog), ("2"@, -20, 10, PinDirection::Passive, PinType::Analog), ("W"@, 20, 0, PinDirection::Passive, PinType::Analog)],
        ComponentType::Transformer => seq![("P1"@, -30, -10, PinDirection::Passive, PinType::Analog), ("P2"@, -30, 10, PinDirection::Passive, PinType::Analog), ("S1"@, 30, -10, PinDirection::Passive, PinType::Analog), ("S2"@, 30, 10, PinDirection::Passive, PinType::Analog)],
        ComponentType::DcVoltage => seq![("+"@, 0, -20, PinDirection::Power, PinType::Power), ("-"@, 0, 20, PinDirection::Power, PinType::Ground)],
        ComponentType::DcCurrent => seq![("+"@, 0, -20, PinDirection::Power, PinType::Power), ("-"@, 0, 20, PinDirection::Power, PinType::Ground)],
        ComponentType::AcVoltage => seq![("1"@, 0, -20, PinDirection::Passive, PinType::Analog), ("2"@, 0, 20, PinDirection::Passive, PinType::Analog)],
        ComponentType::AcCurrent => seq![("1"@, 0, -20, PinDirection::Passive, PinType::Analog), ("2"@, 0, 20, PinDirection::Passive, PinType::Analog)],
        ComponentType::SignalGenerator => seq![("OUT"@, 20, 0, PinDirection::Output, PinType::Analog), ("GND"@, -20, 0, PinDirection::Power, PinType::Ground)],
        ComponentType::Diode => seq![("A"@, 0, -20, PinDirection::Input, PinType::Analog), ("K"@, 0, 20, PinDirection::Output, PinType::Analog)],
        ComponentType::ZenerDiode => seq![("A"@, 0, -20, PinDirection::Input, PinType::Analog), ("K"@, 0, 20, PinDirection::Output, PinType::Analog)],
        ComponentType::SchottkyDiode => seq![("A"@, 0, -20, PinDirection::Input, PinType::Analog), ("K"@, 0, 20, PinDirection::Output, PinType::Analog)],
        ComponentType::Led => seq![("A"@, 0, -20, PinDirection::Input, PinType::Analog), ("K"@, 0, 20, PinDirection::Output, PinType::Analog)],
        ComponentType::NpnTransistor => seq![("B"@, -20, 0, PinDirection::Input, PinType::Analog), ("C"@, 20, -10, PinDirection::Output, PinType::Analog), ("E"@, 20, 10, PinDirection::Output, PinType::Analog)],
        ComponentType::PnpTransistor => seq![("B"@, -20, 0, PinDirection::Input, PinType::Analog), ("C"@, 20, 10, PinDirection::Output, PinType::Analog), ("E"@, 20, -10, PinDirection::Output, PinType::Analog)],
        ComponentType::NmosTransistor => seq![("G"@, -20, 0, PinDirection::Input, PinType::Analog), ("D"@, 20, -10, PinDirection::Output, PinType::Analog), ("S"@, 20, 10, PinDirection::Output, PinType::Analog)],
        ComponentType::PmosTransistor => seq![("G"@, -20, 0, PinDirection::Input, PinType::Analog), ("D"@, 20, 10, PinDirection::Output, PinType::Analog), ("S"@, 20, -10, PinDirection::Output, PinType::Analog)],
        ComponentType::Jfet => seq![("G"@, -20, 0, PinDirection::Input, PinType::Analog), ("D"@, 20, -10, PinDirection::Output, PinType::Analog), ("S"@, 20, 10, PinDirection::Output, PinType::Analog)],
        ComponentType::OpAmp => seq![("+"@, -25, -10, PinDirection::Input, PinType::Analog), ("-"@, -25, 10, PinDirection::Input, PinType::Analog), ("OUT"@, 25, 0, PinDirection::Output, PinType::Analog), ("V+"@, 0, -25, PinDirection::Power, PinType::Power), ("V-"@, 0, 25, PinDirection::Power, PinType::Ground)],
        ComponentType::Comparator => seq![("+"@, -25, -10, PinDirection::Input, PinType::Analog), ("-"@, -25, 10, PinDirection::Input, PinType::Analog), ("OUT"@, 25, 0, PinDirection::Output, PinType::Digital)],
        ComponentType::Timer555 => seq![("GND"@, 0, 25, PinDirection::Power, PinType::Ground), ("TRIG"@, -30, -20, PinDirection::Input, PinType::Analog), ("OUT"@, 30, -20, PinDirection::Output, PinType::Digital), ("RESET"@, 30, -10, PinDirection::Input, PinType::Digital), ("CTRL"@, 30, 0, PinDirection::Input, PinType::Analog), ("THR"@, -30, 0, PinDirection::Input, PinType::Analog), ("DIS"@, -30, 10, PinDirection::Input, PinType::Digital), ("VCC"@, 0, -25, PinDirection::Power, PinType::Power)],
        ComponentType::AndGate => seq![("A"@, -20, -10, PinDirection::Input, PinType::Digital), ("B"@, -20, 10, PinDirection::Input, PinType::Digital), ("Y"@, 20, 0, PinDirection::Output, PinType::Digital)],
        ComponentType::OrGate => seq![("A"@, -20, -10, PinDirection::Input, PinType::Digital), ("B"@, -20, 10, PinDirection::Input, PinType::Digital), ("Y"@, 20, 0, PinDirection::Output, PinType::Digital)],
        ComponentType::NotGate => seq![("A"@, -20, 0, PinDirection::Input, PinType::Digital), ("Y"@, 20, 0, PinDirection::Output, PinType::Digital)],
        ComponentType::NandGate => seq![("A"@, -20, -10, PinDirection::Input, PinType::Digital), ("B"@, -20, 10, PinDirection::Input, PinType::Digital), ("Y"@, 25, 0, PinDirection::Output, PinType::Digital)],
        ComponentType::NorGate => seq![("A"@, -20, -10, PinDirection::Input, PinType::Digital), ("B"@, -20, 10, PinDirection::Input, PinType::Digital), ("Y"@, 25, 0, PinDirection::Output, PinType::Digital)],
        ComponentType::XorGate => seq![("A"@, -25, -10, PinDirection::Input, PinType::Digital), ("B"@, -25, 10, PinDirection::Input, PinType::Digital), ("Y"@, 20, 0, PinDirection::Output, PinType::Digital)],
        ComponentType::FlipFlop => seq![("D"@, -25, -15, PinDirection::Input, PinType::Digital), ("CLK"@, -25, -5, PinDirection::Input, PinType::Digital), ("CLR"@, -25, 5, PinDirection::Input, PinType::Digital), ("Q"@, 25, -5, PinDirection::Output, PinType::Digital), ("QÌ„"@, 25, 5, PinDirection::Output, PinType::Digital)],
        ComponentType::Counter => seq![("CLK"@, -30, -20, PinDirection::Input, PinType::Digital), ("RST"@, -30, -10, PinDirection::Input, PinType::Digital), ("Q0"@, 30, -15, PinDirection::Output, PinType::Digital), ("Q1"@, 30, -5, PinDirection::Output, PinType::Digital), ("Q2"@, 30, 5, PinDirection::Output, PinType::Digital), ("Q3"@, 30, 15, PinDirection::Output, PinType::Digital)],
        ComponentType::Multiplexer => seq![("I0"@, -30, -20, PinDirection::Input, PinType::Digital), ("I1"@, -30, -10, PinDirection::Input, PinType::Digital), ("I2"@, -30, 0, PinDirection::Input, PinType::Digital), ("I3"@, -30, 10, PinDirection::Input, PinType::Digital), ("SEL0"@, -30, 20, PinDirection::Input, PinType::Digital), ("SEL1"@, -20, 20, PinDirection::Input, PinType::Digital), ("OUT"@, 30, 0, PinDirection::Output, PinType::Digital)],
        ComponentType::VoltageRegulator => seq![("IN"@, -20, 0, PinDirection::Input, PinType::Analog), ("OUT"@, 20, 0, PinDirection::Output, PinType::Analog), ("GND"@, 0, 20, PinDirection::Power, PinType::Ground)],
        ComponentType::Crystal => seq![("1"@, 0, -20, PinDirection::Passive, PinType::Analog), ("2"@, 0, 20, PinDirection::Passive, PinType::Analog)],
        ComponentType::Relay => seq![("COIL1"@, -25, -15, PinDirection::Input, PinType::Analog), ("COIL2"@, -25, 15, PinDirection::Input, PinType::Analog), ("COM"@, 25, -5, PinDirection::Passive, PinType::Analog), ("NO"@, 25, -15, PinDirection::Passive, PinType::Analog), ("NC"@, 25, 5, PinDirection::Passive, PinType::Analog)],
        ComponentType::SpstSwitch => seq![("1"@, -15, 0, PinDirection::Passive, PinType::Analog), ("2"@, 15, 0, PinDirection::Passive, PinType::Analog)],
        ComponentType::SpdtSwitch => seq![("COM"@, -15, 0, PinDirection::Passive, PinType::Analog), ("NO"@, 15, -10, PinDirection::Passive, PinType::Analog), ("NC"@, 15, 10, PinDirection::Passive, PinType::Analog)],
        ComponentType::DpdtSwitch => seq![("COM1"@, -20, -5, PinDirection::Passive, PinType::Analog), ("NO1"@, 20, -15, PinDirection::Passive, PinType::Analog), ("NC1"@, 20, 5, PinDirection::Passive, PinType::Analog), ("COM2"@, -20, 5, PinDirection::Passive, PinType::Analog), ("NO2"@, 20, -5, PinDirection::Passive, PinType::Analog), ("NC2"@, 20, 15, PinDirection::Passive, PinType::Analog)],
        ComponentType::Fuse => seq![("1"@, -15, 0, PinDirection::Passive, PinType::Analog), ("2"@, 15, 0, PinDirection::Passive, PinType::Analog)],
        ComponentType::Battery => seq![("+"@, -15, 0, PinDirection::Power, PinType::Power), ("-"@, 15, 0, PinDirection::Power, PinType::Power)],
        ComponentType::Microcontroller => seq![("VCC"@, 0, -40, PinDirection::Power, PinType::Power), ("GND"@, 0, 40, PinDirection::Power, PinType::Ground), ("PA0"@, -40, -30, PinDirection::Bidirectional, PinType::Digital), ("PA1"@, -40, -20, PinDirection::Bidirectional, PinType::Digital), ("PB0"@, -40, 20, PinDirection::Bidirectional, PinType::Digital), ("PB1"@, -40, 30, PinDirection::Bidirectional, PinType::Digital), ("XTAL1"@, 40, -30, PinDirection::Input, PinType::Analog), ("XTAL2"@, 40, -20, PinDirection::Output, PinType::Analog)],
        ComponentType::Connector => seq![("1"@, 0, -20, PinDirection::Passive, PinType::Analog), ("2"@, 0, -10, PinDirection::Passive, PinType::Analog), ("3"@, 0, 0, PinDirection::Passive, PinType::Analog), ("4"@, 0, 10, PinDirection::Passive, PinType::Analog), ("5"@, 0, 20, PinDirection::Passive, PinType::Analog)],
        ComponentType::TestPoint => seq![("TP"@, 0, -10, PinDirection::Passive, PinType::Analog)],
        ComponentType::Ammeter => seq![("1"@, -20, 0, PinDirection::Input, PinType::Analog), ("2"@, 20, 0, PinDirection::Output, PinType::Analog)],
        ComponentType::Voltmeter => seq![("POS"@, 0, -20, PinDirection::Input, PinType::Analog), ("NEG"@, 0, 20, PinDirection::Input, PinType::Analog)],
        ComponentType::OscilloscopeProbe => seq![("SIG"@, 0, -20, PinDirection::Input, PinType::Analog), ("GND"@, 0, 20, PinDirection::Power, PinType::Ground)],
        ComponentType::Antenna => seq![("ANT"@, 0, -20, PinDirection::Bidirectional, PinType::Analog)],
        ComponentType::Speaker => seq![("1"@, -15, 0, PinDirection::Output, PinType::Analog), ("2"@, 15, 0, PinDirection::Output, PinType::Analog)],
        ComponentType::Microphone => seq![("OUT"@, 20, 0, PinDirection::Output, PinType::Analog), ("GND"@, -20, 0, PinDirection::Power, PinType::Ground)],
        ComponentType::Motor => seq![("1"@, -15, 0, PinDirection::Output, PinType::Analog), ("2"@, 15, 0, PinDirection::Output, PinType::Analog)],
        ComponentType::SignalGround => seq![("GND"@, 0, -15, PinDirection::Power, PinType::Ground)],
        ComponentType::ChassisGround => seq![("GND"@, 0, -15, PinDirection::Power, PinType::Ground)],
        ComponentType::EarthGround => seq![("GND"@, 0, -15, PinDirection::Power, PinType::Ground)],
    }
}

/// The built-in pins of a kind.
#[verifier::spinoff_prover]
#[verifier::rlimit(100)]
pub fn pins_of(t: ComponentType) -> (r: Vec<PinDefinition>)
    ensures
        pins_view(r@) == kind_pins(t),
{
    let r = match t {
        ComponentType::Resistor => vec![pin("1", -20, 0, PinDirection::Passive, PinType::Analog), pin("2", 20, 0, PinDirection::Passive, PinType::Analog)],
        ComponentType::Capacitor => vec![pin("1", 0, -20, PinDirection::Passive, PinType::Analog), pin("2", 0, 20, PinDirection::Passive, PinType::Analog)],
        ComponentType::Inductor => vec![pin("1", -20, 0, PinDirection::Passive, PinType::Analog), pin("2", 20, 0, PinDirection::Passive, PinType::Analog)],
        ComponentType::Potentiometer => vec![pin("1", -20, -10, PinDirection::Passive, PinType::Analog), pin("2", -20, 10, PinDirection::Passive, PinType::Analog), pin("W", 20, 0, PinDirection::Passive, PinType::Analog)],
        ComponentType::Transformer => vec![pin("P1", -30, -10, PinDirection::Passive, PinType::Analog), pin("P2", -30, 10, PinDirection::Passive, PinType::Analog), pin("S1", 30, -10, PinDirection::Passive, PinType::Analog), pin("S2", 30, 10, PinDirection::Passive, PinType::Analog)],
        ComponentType::DcVoltage => vec![pin("+", 0, -20, PinDirection::Power, PinType::Power), pin("-", 0, 20, PinDirection::Power, PinType::Ground)],
        ComponentType::DcCurrent => vec![pin("+", 0, -20, PinDirection::Power, PinType::Power), pin("-", 0, 20, PinDirection::Power, PinType::Ground)],
        ComponentType::AcVoltage => vec![pin("1", 0, -20, PinDirection::Passive, PinType::Analog), pin("2", 0, 20, PinDirection::Passive, PinType::Analog)],
        ComponentType::AcCurrent => vec![pin("1", 0, -20, PinDirection::Passive, PinType::Analog), pin("2", 0, 20, PinDirection::Passive, PinType::Analog)],
        ComponentType::SignalGenerator => vec![pin("OUT", 20, 0, PinDirection::Output, PinType::Analog), pin("GND", -20, 0, PinDirection::Power, PinType::Ground)],
        ComponentType::Diode => vec![pin("A", 0, -20, PinDirection::Input, PinType::Analog), pin("K", 0, 20, PinDirection::Output, PinType::Analog)],
        ComponentType::ZenerDiode => vec![pin("A", 0, -20, PinDirection::Input, PinType::Analog), pin("K", 0, 20, PinDirection::Output, PinType::Analog)],
        ComponentType::SchottkyDiode => vec![pin("A", 0, -20, PinDirection::Input, PinType::Analog), pin("K", 0, 20, PinDirection::Output, PinType::Analog)],
        ComponentType::Led => vec![pin("A", 0, -20, PinDirection::Input, PinType::Analog), pin("K", 0, 20, PinDirection::Output, PinType::Analog)],
        ComponentType::NpnTransistor => vec![pin("B", -20, 0, PinDirection::Input, PinType::Analog), pin("C", 20, -10, PinDirection::Output, PinType::Analog), pin("E", 20, 10, PinDirection::Output, PinType::Analog)],
        ComponentType::PnpTransistor => vec![pin("B", -20, 0, PinDirection::Input, PinType::Analog), pin("C", 20, 10, PinDirection::Output, PinType::Analog), pin("E", 20, -10, PinDirection::Output, PinType::Analog)],
        ComponentType::NmosTransistor => vec![pin("G", -20, 0, PinDirection::Input, PinType::Analog), pin("D", 20, -10, PinDirection::Output, PinType::Analog), pin("S", 20, 10, PinDirection::Output, PinType::Analog)],
        ComponentType::PmosTransistor => vec![pin("G", -20, 0, PinDirection::Input, PinType::Analog), pin("D", 20, 10, PinDirection::Output, PinType::Analog), pin("S", 20, -10, PinDirection::Output, PinType::Analog)],
        ComponentType::Jfet => vec![pin("G", -20, 0, PinDirection::Input, PinType::Analog), pin("D", 20, -10, PinDirection::Output, PinType::Analog), pin("S", 20, 10, PinDirection::Output, PinType::Analog)],
        ComponentType::OpAmp => vec![pin("+", -25, -10, PinDirection::Input, PinType::Analog), pin("-", -25, 10, PinDirection::Input, PinType::Analog), pin("OUT", 25, 0, PinDirection::Output, PinType::Analog), pin("V+", 0, -25, PinDirection::Power, PinType::Power), pin("V-", 0, 25, PinDirection::Power, PinType::Ground)],
        ComponentType::Comparator => vec![pin("+", -25, -10, PinDirection::Input, PinType::Analog), pin("-", -25, 10, PinDirection::Input, PinType::Analog), pin("OUT", 25, 0, PinDirection::Output, PinType::Digital)],
        ComponentType::Timer555 => vec![pin("GND", 0, 25, PinDirection::Power, PinType::Ground), pin("TRIG", -30, -20, PinDirection::Input, PinType::Analog), pin("OUT", 30, -20, PinDirection::Output, PinType::Digital), pin("RESET", 30, -10, PinDirection::Input, PinType::Digital), pin("CTRL", 30, 0, PinDirection::Input, PinType::Analog), pin("THR", -30, 0, PinDirection::Input, PinType::Analog), pin("DIS", -30, 10, PinDirection::Input, PinType::Digital), pin("VCC", 0, -25, PinDirection::Power, PinType::Power)],
        ComponentType::AndGate => vec![pin("A", -20, -10, PinDirection::Input, PinType::Digital), pin("B", -20, 10, PinDirection::Input, PinType::Digital), pin("Y", 20, 0, PinDirection::Output, PinType::Digital)],
        ComponentType::OrGate => vec![pin("A", -20, -10, PinDirection::Input, PinType::Digital), pin("B", -20, 10, PinDirection::Input, PinType::Digital), pin("Y", 20, 0, PinDirection::Output, PinType::Digital)],
        ComponentType::NotGate => vec![pin("A", -20, 0, PinDirection::Input, PinType::Digital), pin("Y", 20, 0, PinDirection::Output, PinType::Digital)],
        ComponentType::NandGate => vec![pin("A", -20, -10, PinDirection::Input, PinType::Digital), pin("B", -20, 10, PinDirection::Input, PinType::Digital), pin("Y", 25, 0, PinDirection::Output, PinType::Digital)],
        ComponentType::NorGate => vec![pin("A", -20, -10, PinDirection::Input, PinType::Digital), pin("B", -20, 10, PinDirection::Input, PinType::Digital), pin("Y", 25, 0, PinDirection::Output, PinType::Digital)],
        ComponentType::XorGate => vec![pin("A", -25, -10, PinDirection::Input, PinType::Digital), pin("B", -25, 10, PinDirection::Input, PinType::Digital), pin("Y", 20, 0, PinDirection::Output, PinType::Digital)],
        ComponentType::FlipFlop => vec![pin("D", -25, -15, PinDirection::Input, PinType::Digital), pin("CLK", -25, -5, PinDirection::Input, PinType::Digital), pin("CLR", -25, 5, PinDirection::Input, PinType::Digital), pin("Q", 25, -5, PinDirection::Output, PinType::Digital), pin("QÌ„", 25, 5, PinDirection::Output, PinType::Digital)],
        ComponentType::Counter => vec![pin("CLK", -30, -20, PinDirection::Input, PinType::Digital), pin("RST", -30, -10, PinDirection::Input, PinType::Digital), pin("Q0", 30, -15, PinDirection::Output, PinType::Digital), pin("Q1", 30, -5, PinDirection::Output, PinType::Digital), pin("Q2", 30, 5, PinDirection::Output, PinType::Digital), pin("Q3", 30, 15, PinDirection::Output, PinType::Digital)],
        ComponentType::Multiplexer => vec![pin("I0", -30, -20, PinDirection::Input, PinType::Digital), pin("I1", -30, -10, PinDirection::Input, PinType::Digital), pin("I2", -30, 0, PinDirection::Input, PinType::Digital), pin("I3", -30, 10, PinDirection::Input, PinType::Digital), pin("SEL0", -30, 20, PinDirection::Input, PinType::Digital), pin("SEL1", -20, 20, PinDirection::Input, PinType::Digital), pin("OUT", 30, 0, PinDirection::Output, PinType::Digital)],
        ComponentType::VoltageRegulator => vec![pin("IN", -20, 0, PinDirection::Input, PinType::Analog), pin("OUT", 20, 0, PinDirection::Output, PinType::Analog), pin("GND", 0, 20, PinDirection::Power, PinType::Ground)],
        ComponentType::Crystal => vec![pin("1", 0, -20, PinDirection::Passive, PinType::Analog), pin("2", 0, 20, PinDirection::Passive, PinType::Analog)],
        ComponentType::Relay => vec![pin("COIL1", -25, -15, PinDirection::Input, PinType::Analog), pin("COIL2", -25, 15, PinDirection::Input, PinType::Analog), pin("COM", 25, -5, PinDirection::Passive, PinType::Analog), pin("NO", 25, -15, PinDirection::Passive, PinType::Analog), pin("NC", 25, 5, PinDirection::Passive, PinType::Analog)],
        ComponentType::SpstSwitch => vec![pin("1", -15, 0, PinDirection::Passive, PinType::Analog), pin("2", 15, 0, PinDirection::Passive, PinType::Analog)],
        ComponentType::SpdtSwitch => vec![pin("COM", -15, 0, PinDirection::Passive, PinType::Analog), pin("NO", 15, -10, PinDirection::Passive, PinType::Analog), pin("NC", 15, 10, PinDirection::Passive, PinType::Analog)],
        ComponentType::DpdtSwitch => vec![pin("COM1", -20, -5, PinDirection::Passive, PinType::Analog), pin("NO1", 20, -15, PinDirection::Passive, PinType::Analog), pin("NC1", 20, 5, PinDirection::Passive, PinType::Analog), pin("COM2", -20, 5, PinDirection::Passive, PinType::Analog), pin("NO2", 20, -5, PinDirection::Passive, PinType::Analog), pin("NC2", 20, 15, PinDirection::Passive, PinType::Analog)],
        ComponentType::Fuse => vec![pin("1", -15, 0, PinDirection::Passive, PinType::Analog), pin("2", 15, 0, PinDirection::Passive, PinType::Analog)],
        ComponentType::Battery => vec![pin("+", -15, 0, PinDirection::Power, PinType::Power), pin("-", 15, 0, PinDirection::Power, PinType::Power)],
        ComponentType::Microcontroller => vec![pin("VCC", 0, -40, PinDirection::Power, PinType::Power), pin("GND", 0, 40, PinDirection::Power, PinType::Ground), pin("PA0", -40, -30, PinDirection::Bidirectional, PinType::Digital), pin("PA1", -40, -20, PinDirection::Bidirectional, PinType::Digital), pin("PB0", -40, 20, PinDirection::Bidirectional, PinType::Digital), pin("PB1", -40, 30, PinDirection::Bidirectional, PinType::Digital), pin("XTAL1", 40, -30, PinDirection::Input, PinType::Analog), pin("XTAL2", 40, -20, PinDirection::Output, PinType::Analog)],
        ComponentType::Connector => vec![pin("1", 0, -20, PinDirection::Passive, PinType::Analog), pin("2", 0, -10, PinDirection::Passive, PinType::Analog), pin("3", 0, 0, PinDirection::Passive, PinType::Analog), pin("4", 0, 10, PinDirection::Passive, PinType::Analog), pin("5", 0, 20, PinDirection::Passive, PinType::Analog)],
        ComponentType::TestPoint => vec![pin("TP", 0, -10, PinDirection::Passive, PinType::Analog)],
        ComponentType::Ammeter => vec![pin("1", -20, 0, PinDirection::Input, PinType::Analog), pin("2", 20, 0, PinDirection::Output, PinType::Analog)],
        ComponentType::Voltmeter => vec![pin("POS", 0, -20, PinDirection::Input, PinType::Analog), pin("NEG", 0, 20, PinDirection::Input, PinType::Analog)],
        ComponentType::OscilloscopeProbe => vec![pin("SIG", 0, -20, PinDirection::Input, PinType::Analog), pin("GND", 0, 20, PinDirection::Power, PinType::Ground)],
        ComponentType::Antenna => vec![pin("ANT", 0, -20, PinDirection::Bidirectional, PinType::Analog)],
        ComponentType::Speaker => vec![pin("1", -15, 0, PinDirection::Output, PinType::Analog), pin("2", 15, 0, PinDirection::Output, PinType::Analog)],
        ComponentType::Microphone => vec![pin("OUT", 20, 0, PinDirection::Output, PinType::Analog), pin("GND", -20, 0, PinDirection::Power, PinType::Ground)],
        ComponentType::Motor => vec![pin("1", -15, 0, PinDirection::Output, PinType::Analog), pin("2", 15, 0, PinDirection::Output, PinType::Analog)],
        ComponentType::SignalGround => vec![pin("GND", 0, -15, PinDirection::Power, PinType::Ground)],
        ComponentType::ChassisGround => vec![pin("GND", 0, -15, PinDirection::Power, PinType::Ground)],
        ComponentType::EarthGround => vec![pin("GND", 0, -15, PinDirection::Power, PinType::Ground)],
    };
    assert(pins_view(r@) =~= kind_pins(t));
    r
}

/// The symbol name and drawn size (width, height) of a kind's built-in template.
pub open spec fn kind_shape(t: ComponentType) -> (Seq<char>, i32, i32) {
    match t {
        ComponentType::Resistor => ("resistor"@, 40, 10),
        ComponentType::Capacitor => ("capacitor"@, 10, 40),
        ComponentType::Inductor => ("inductor"@, 40, 15),
        ComponentType::Potentiometer => ("potentiometer"@, 40, 25),
        ComponentType::Transformer => ("transformer"@, 60, 30),
        ComponentType::DcVoltage => ("voltage_source"@, 20, 40),
        ComponentType::DcCurrent => ("current_source"@, 20, 40),
        ComponentType::AcVoltage => ("ac_voltage"@, 20, 40),
        ComponentType::AcCurrent => ("ac_current"@, 20, 40),
        ComponentType::SignalGenerator => ("signal_generator"@, 40, 20),
        ComponentType::Diode => ("diode"@, 20, 40),
        ComponentType::ZenerDiode => ("zener_diode"@, 20, 40),
        ComponentType::SchottkyDiode => ("schottky_diode"@, 20, 40),
        ComponentType::Led => ("led"@, 20, 40),
        ComponentType::NpnTransistor => ("transistor"@, 40, 30),
        ComponentType::PnpTransistor => ("transistor"@, 40, 30),
        ComponentType::NmosTransistor => ("mosfet"@, 40, 30),
        ComponentType::PmosTransistor => ("mosfet"@, 40, 30),
        ComponentType::Jfet => ("jfet"@, 40, 30),
        ComponentType::OpAmp => ("op_amp"@, 50, 50),
        ComponentType::Comparator => ("comparator"@, 50, 30),
        ComponentType::Timer555 => ("timer_555"@, 60, 50),
        ComponentType::AndGate => ("logic_gate"@, 40, 30),
        ComponentType::OrGate => ("logic_gate"@, 40, 30),
        ComponentType::NotGate => ("logic_gate"@, 40, 20),
        ComponentType::NandGate => ("logic_gate"@, 45, 30),
        ComponentType::NorGate => ("logic_gate"@, 45, 30),
        ComponentType::XorGate => ("logic_gate"@, 45, 30),
        ComponentType::FlipFlop => ("flip_flop"@, 50, 40),
        ComponentType::Counter => ("counter"@, 60, 50),
        ComponentType::Multiplexer => ("multiplexer"@, 60, 50),
        ComponentType::VoltageRegulator => ("voltage_regulator"@, 40, 30),
        ComponentType::Crystal => ("crystal"@, 15, 40),
        ComponentType::Relay => ("relay"@, 50, 40),
        ComponentType::SpstSwitch => ("switch"@, 30, 20),
        ComponentType::SpdtSwitch => ("switch"@, 30, 30),
        ComponentType::DpdtSwitch => ("switch"@, 40, 40),
        ComponentType::Fuse => ("fuse"@, 30, 10),
        ComponentType::Battery => ("battery"@, 30, 20),
        ComponentType::Microcontroller => ("microcontroller"@, 80, 80),
        ComponentType::Connector => ("connector"@, 15, 50),
        ComponentType::TestPoint => ("test_point"@, 10, 10),
        ComponentType::Ammeter => ("ammeter"@, 40, 20),
        ComponentType::Voltmeter => ("voltmeter"@, 20, 40),
        ComponentType::OscilloscopeProbe => ("oscilloscope_probe"@, 20, 40),
        ComponentType::Antenna => ("antenna"@, 20, 20),
        ComponentType::Speaker => ("speaker"@, 30, 30),
        ComponentType::Microphone => ("microphone"@, 40, 20),
        ComponentType::Motor => ("motor"@, 30, 30),
        ComponentType::SignalGround => ("ground"@, 20, 15),
        ComponentType::ChassisGround => ("ground"@, 20, 15),
        ComponentType::EarthGround => ("ground"@, 20, 15),
    }
}

/// The built-in geometry of a kind.
pub fn template_of(t: ComponentType) -> (r: ComponentTemplate)
    ensures
        r.component_type == t,
        r.name@ == kind_key(t),
        pins_view(r.pins@) == kind_pins(t),
        (r.symbol@, r.width, r.height) == kind_shape(t),
        style_keys(r.style_variants@),
{
    let pins = pins_of(t);
    let (symbol, width, height): (&str, i32, i32) = match t {
        ComponentType::Resistor => ("resistor", 40, 10),
        ComponentType::Capacitor => ("capacitor", 10, 40),
        ComponentType::Inductor => ("inductor", 40, 15),
        ComponentType::Potentiometer => ("potentiometer", 40, 25),
        ComponentType::Transformer => ("transformer", 60, 30),
        ComponentType::DcVoltage => ("voltage_source", 20, 40),
        ComponentType::DcCurrent => ("current_source", 20, 40),
        ComponentType::AcVoltage => ("ac_voltage", 20, 40),
        ComponentType::AcCurrent => ("ac_current", 20, 40),
        ComponentType::SignalGenerator => ("signal_generator", 40, 20),
        ComponentType::Diode => ("diode", 20, 40),
        ComponentType::ZenerDiode => ("zener_diode", 20, 40),
        ComponentType::SchottkyDiode => ("schottky_diode", 20, 40),
        ComponentType::Led => ("led", 20, 40),
        ComponentType::NpnTransistor => ("transistor", 40, 30),
        ComponentType::PnpTransistor => ("transistor", 40, 30),
        ComponentType::NmosTransistor => ("mosfet", 40, 30),
        ComponentType::PmosTransistor => ("mosfet", 40, 30),
        ComponentType::Jfet => ("jfet", 40, 30),
        ComponentType::OpAmp => ("op_amp", 50, 50),
        ComponentType::Comparator => ("comparator", 50, 30),
        ComponentType::Timer555 => ("timer_555", 60, 50),
        ComponentType::AndGate => ("logic_gate", 40, 30),
        ComponentType::OrGate => ("logic_gate", 40, 30),
        ComponentType::NotGate => ("logic_gate", 40, 20),
        ComponentType::NandGate => ("logic_gate", 45, 30),
        ComponentType::NorGate => ("logic_gate", 45, 30),
        ComponentType::XorGate => ("logic_gate", 45, 30),
        ComponentType::FlipFlop => ("flip_flop", 50, 40),
        ComponentType::Counter => ("counter", 60, 50),
        ComponentType::Multiplexer => ("multiplexer", 60, 50),
        ComponentType::VoltageRegulator => ("voltage_regulator", 40, 30),
        ComponentType::Crystal => ("crystal", 15, 40),
        ComponentType::Relay => ("relay", 50, 40),
        ComponentType::SpstSwitch => ("switch", 30, 20),
        ComponentType::SpdtSwitch => ("switch", 30, 30),
        ComponentType::DpdtSwitch => ("switch", 40, 40),
        ComponentType::Fuse => ("fuse", 30, 10),
        ComponentType::Battery => ("battery", 30, 20),
        ComponentType::Microcontroller => ("microcontroller", 80, 80),
        ComponentType::Connector => ("connector", 15, 50),
        ComponentType::TestPoint => ("test_point", 10, 10),
        ComponentType::Ammeter => ("ammeter", 40, 20),
        ComponentType::Voltmeter => ("voltmeter", 20, 40),
        ComponentType::OscilloscopeProbe => ("oscilloscope_probe", 20, 40),
        ComponentType::Antenna => ("antenna", 20, 20),
        ComponentType::Speaker => ("speaker", 30, 30),
        ComponentType::Microphone => ("microphone", 40, 20),
        ComponentType::Motor => ("motor", 30, 30),
        ComponentType::SignalGround => ("ground", 20, 15),
        ComponentType::ChassisGround => ("ground", 20, 15),
        ComponentType::EarthGround => ("ground", 20, 15),
    };
    ComponentTemplate {
        component_type: t,
        name: String::from_str(t.name()),
        symbol: String::from_str(symbol),
        pins,
        width,
        height,
        style_variants: variants_of(t),
    }
}


/// The built-in registry.
pub fn get_component_templates() -> (r: ComponentRegistry)
    ensures
        builtin_registry(r),
{
    ComponentRegistry::standard()
}

/// The registry key of every kind, in registry order.
pub fn get_component_list() -> (r: Vec<String>)
    ensures
        r@.len() == all_types().len(),
        forall|k: int| 0 <= k < r@.len() ==> (#[trigger] r@[k])@ == kind_key(all_types()[k]),
{
    let kinds = all_component_types();
    let mut names: Vec<String> = Vec::new();
    let mut i: usize = 0;
    while i < kinds.len()
        invariant
            kinds@ == all_types(),
            i <= kinds@.len(),
            names@.len() == i,
            forall|k: int| 0 <= k < i ==> (#[trigger] names@[k])@ == kind_key(all_types()[k]),
        decreases kinds.len() - i,
    {
        names.push(String::from_str(kinds[i].name()));
        i = i + 1;
    }
    names
}

/// The kind whose registry key is exactly `key`.
pub fn kind_for_key(key: &str) -> (r: Option<ComponentType>)
    ensures
        match r {
            Some(t) => kind_key(t) == key@,
            None => forall|t: ComponentType| kind_key(t) != key@,
        },
{
    let kinds = all_component_types();
    let mut i: usize = 0;
    while i < kinds.len()
        invariant
            kinds@ == all_types(),
            i <= kinds@.len(),
            forall|k: int| 0 <= k < i ==> kind_key(#[trigger] all_types()[k]) != key@,
        decreases kinds.len() - i,
    {
        if same_text(kinds[i].name(), key) {
            return Some(kinds[i]);
        }
        i = i + 1;
    }
    proof {
        assert forall|t: ComponentType| kind_key(t) != key@ by {
            lemma_all_types_complete(t);
            let k = choose|k: int| 0 <= k < all_types().len() && all_types()[k] == t;
            assert(kind_key(all_types()[k]) != key@);
        }
    }
    None
}

/// The built-in template whose key is exactly `key`.
pub fn template_by_key(key: &str) -> (r: Option<ComponentTemplate>)
    ensures
        r.is_some() <==> exists|t: ComponentType| kind_key(t) == key@,
        r matches Some(x) ==> kind_key(x.component_type) == key@ && template_matches(x, x.component_type),
{
    match kind_for_key(key) {
        Some(t) => Some(template_of(t)),
        None => None,
    }
}

/// What `str::to_lowercase` makes of a string.
pub uninterp spec fn lower_of(s: Seq<char>) -> Seq<char>;

/// Relies on `str::to_lowercase`: the result depends on the characters alone.
#[verifier::external_body]
pub(crate) fn lowercase(s: &str) -> (r: String)
    ensures
        r@ == lower_of(s@),
{
    s.to_lowercase()
}

/// The built-in template for a kind name, matched without regard to case.
pub fn get_component_template(component_type: &str) -> (r: Option<ComponentTemplate>)
    ensures
        r.is_some() <==> exists|t: ComponentType| kind_key(t) == lower_of(component_type@),
        r matches Some(x) ==> kind_key(x.component_type) == lower_of(component_type@) && template_matches(x, x.component_type),
{
    let key = lowercase(component_type);
    template_by_key(key.as_str())
}

/// The pins of the built-in template for a kind name, matched without regard to case.
pub fn get_component_pins(component_type: &str) -> (r: Option<Vec<PinDefinition>>)
    ensures
        r.is_some() <==> exists|t: ComponentType| kind_key(t) == lower_of(component_type@),
        r matches Some(p) ==> exists|t: ComponentType| kind_key(t) == lower_of(component_type@) && pins_view(p@) == kind_pins(t),
{
    match get_component_template(component_type) {
        Some(t) => Some(t.pins),
        None => None,
    }
}


/// The three drawing styles, in order: IEEE, IEC and DIN.
pub open spec fn style_keys(v: Seq<(String, String)>) -> bool {
    v.len() == 3 && v[0].0@ == "ieee"@ && v[1].0@ == "iec"@ && v[2].0@ == "din"@
}

fn variants(ieee: &str, iec: &str, din: &str) -> (r: Vec<(String, String)>)
    ensures
        style_keys(r@),
        r@[0].1@ == ieee@,
        r@[1].1@ == iec@,
        r@[2].1@ == din@,
{
    vec![
        (String::from_str("ieee"), String::from_str(ieee)),
        (String::from_str("iec"), String::from_str(iec)),
        (String::from_str("din"), String::from_str(din)),
    ]
}

/// The symbol outline of a kind in each drawing style.
fn variants_of(t: ComponentType) -> (r: Vec<(String, String)>)
    ensures
        style_keys(r@),
{
    match t {
        ComponentType::Resistor => create_resistor_variants(),
        ComponentType::Capacitor => create_capacitor_variants(),
        ComponentType::Inductor => create_inductor_variants(),
        ComponentType::Potentiometer => create_potentiometer_variants(),
        ComponentType::Transformer => create_transformer_variants(),
        ComponentType::DcVoltage => create_dc_voltage_variants(),
        ComponentType::DcCurrent => create_current_source_variants(),
        ComponentType::AcVoltage => create_ac_voltage_variants(),
        ComponentType::AcCurrent => create_ac_current_variants(),
        ComponentType::SignalGenerator => create_signal_generator_variants(),
        ComponentType::Diode => create_diode_variants(),
        ComponentType::ZenerDiode => create_zener_diode_variants(),
        ComponentType::SchottkyDiode => create_schottky_diode_variants(),
        ComponentType::Led => create_led_variants(),
        ComponentType::NpnTransistor => create_npn_transistor_variants(),
        ComponentType::PnpTransistor => create_pnp_transistor_variants(),
        ComponentType::NmosTransistor => create_nmos_variants(),
        ComponentType::PmosTransistor => create_pmos_variants(),
        ComponentType::Jfet => create_jfet_variants(),
        ComponentType::OpAmp => create_op_amp_variants(),
        ComponentType::Comparator => create_comparator_variants(),
        ComponentType::Timer555 => create_timer_555_variants(),
        ComponentType::AndGate => create_and_gate_variants(),
        ComponentType::OrGate => create_or_gate_variants(),
        ComponentType::NotGate => create_not_gate_variants(),
        ComponentType::NandGate => create_nand_gate_variants(),
        ComponentType::NorGate => create_nor_gate_variants(),
        ComponentType::XorGate => create_xor_gate_variants(),
        ComponentType::FlipFlop => create_flip_flop_variants(),
        ComponentType::Counter => create_counter_variants(),
        ComponentType::Multiplexer => create_multiplexer_variants(),
        ComponentType::VoltageRegulator => create_voltage_regulator_variants(),
        ComponentType::Crystal => create_crystal_variants(),
        ComponentType::Relay => create_relay_variants(),
        ComponentType::SpstSwitch => create_spst_switch_variants(),
        ComponentType::SpdtSwitch => create_spdt_switch_variants(),
        ComponentType::DpdtSwitch => create_dpdt_switch_variants(),
        ComponentType::Fuse => create_fuse_variants(),
        ComponentType::Battery => create_battery_variants(),
        ComponentType::Microcontroller => create_microcontroller_variants(),
        ComponentType::Connector => create_connector_variants(),
        ComponentType::TestPoint => create_test_point_variants(),
        ComponentType::Ammeter => create_ammeter_variants(),
        ComponentType::Voltmeter => create_voltmeter_variants(),
        ComponentType::OscilloscopeProbe => create_oscilloscope_probe_variants(),
        ComponentType::Antenna => create_antenna_variants(),
        ComponentType::Speaker => create_speaker_variants(),
        ComponentType::Microphone => create_microphone_variants(),
        ComponentType::Motor => create_motor_variants(),
        ComponentType::SignalGround => create_ground_variants(),
        ComponentType::ChassisGround => create_chassis_ground_variants(),
        ComponentType::EarthGround => create_earth_ground_variants(),
    }
}

fn create_resistor_variants() -> (r: Vec<(String, String)>)
    ensures
        style_keys(r@),
{
    variants("M -20 0 L -15 -5 L -5 -5 L 5 5 L 15 5 L 20 0", "M -20 0 H 20 V 5 H -20 V -5 H 20", "M -20 0 L -15 -5 L -5 -5 L 5 5 L 15 5 L 20 0")
}

fn create_capacitor_variants() -> (r: Vec<(String, String)>)
    ensures
        style_keys(r@),
{
    variants("M 0 -20 L 0 -10 M -5 -10 L 10 -10 M -5 10 L 10 10 M 0 10 L 0 20", "M -5 -20 V 20 M 5 -20 V 20", "M 0 -20 L 0 -10 M -5 -10 L 10 -10 M -5 10 L 10 10 M 0 10 L 0 20")
}

fn create_diode_variants() -> (r: Vec<(String, String)>)
    ensures
        style_keys(r@),
{
    variants("M 0 -20 L 0 0 L -10 0 L 0 20 M 10 -20 L 0 0", "M 0 -20 L -10 0 L 0 20 L 10 0 Z M 10 -20 L 0 0", "M 0 -20 L 0 0 L -10 0 L 0 20 M 10 -20 L 0 0")
}

fn create_ground_variants() -> (r: Vec<(String, String)>)
    ensures
        style_keys(r@),
{
    variants("M 0 -15 L 0 0 M -10 0 L 10 0 M -6 5 L 6 5 M -2 10 L 2 10", "M 0 -15 L 0 0 M -10 0 L 10 0 M -6 5 L 6 5 M -2 10 L 2 10", "M 0 -15 L 0 0 M -10 0 L 10 0 M -6 5 L 6 5 M -2 10 L 2 10")
}

fn create_battery_variants() -> (r: Vec<(String, String)>)
    ensures
        style_keys(r@),
{
    variants("M -15 0 L -10 -10 M -10 -5 L -10 5 M 10 -10 L 10 10 M 10 5 L 15 0", "M -15 0 L -10 -10 M -10 -5 L -10 5 M 10 -10 L 10 10 M 10 5 L 15 0", "M -15 0 L -10 -10 M -10 -5 L -10 5 M 10 -10 L 10 10 M 10 5 L 15 0")
}

fn create_inductor_variants() -> (r: Vec<(String, String)>)
    ensures
        style_keys(r@),
{
    variants("M -20 0 Q -15 -10 -5 -10 Q 5 -10 15 -10 Q 20 0", "M -20 0 Q -15 -10 -5 -10 Q 5 -10 15 -10 Q 20 0", "M -20 0 Q -15 -10 -5 -10 Q 5 -10 15 -10 Q 20 0")
}

fn create_potentiometer_variants() -> (r: Vec<(String, String)>)
    ensures
        style_keys(r@),
{
    variants("M -20 -10 H 20 M -20 10 H 20 M 0 10 L 0 -10 M 5 -10 L -5 10", "M -20 -10 H 20 M -20 10 H 20 M 0 10 L 0 -10 M 5 -10 L -5 10", "M -20 -10 H 20 M -20 10 H 20 M 0 10 L 0 -10 M 5 -10 L -5 10")
}

fn create_transformer_variants() -> (r: Vec<(String, String)>)
    ensures
        style_keys(r@),
{
    variants("M -30 -10 Q -25 -15 -20 -10 Q -15 -5 -10 -10 Q -5 -15 0 -10 Q 5 -5 10 -10 Q 15 -15 20 -10 Q 25 -5 30 -10 M -30 10 Q -25 5 -20 10 Q -15 15 -10 10 Q -5 5 0 10 Q 5 15 10 10 Q 15 5 20 10 Q 25 15 30 10", "M -30 -10 Q -25 -15 -20 -10 Q -15 -5 -10 -10 Q -5 -15 0 -10 Q 5 -5 10 -10 Q 15 -15 20 -10 Q 25 -5 30 -10 M -30 10 Q -25 5 -20 10 Q -15 15 -10 10 Q -5 5 0 10 Q 5 15 10 10 Q 15 5 20 10 Q 25 15 30 10", "M -30 -10 Q -25 -15 -20 -10 Q -15 -5 -10 -10 Q -5 -15 0 -10 Q 5 -5 10 -10 Q 15 -15 20 -10 Q 25 -5 30 -10 M -30 10 Q -25 5 -20 10 Q -15 15 -10 10 Q -5 5 0 10 Q 5 15 10 10 Q 15 5 20 10 Q 25 15 30 10")
}

fn create_dc_voltage_variants() -> (r: Vec<(String, String)>)
    ensures
        style_keys(r@),
{
    variants("M 0 -20 L 0 20 M -10 -5 H 10 M -10 5 H 10", "M 0 -20 L 0 20 M -10 -5 H 10 M -10 5 H 10", "M 0 -20 L 0 20 M -10 -5 H 10 M -10 5 H 10")
}

fn create_current_source_variants() -> (r: Vec<(String, String)>)
    ensures
        style_keys(r@),
{
    variants("M 0 -20 A 10 10 0 0 1 0 20 A 10 10 0 0 1 0 -20 Z M 15 0 L 10 -5 M 15 0 L 10 5", "M 0 -20 A 10 10 0 0 1 0 20 A 10 10 0 0 1 0 -20 Z M 15 0 L 10 -5 M 15 0 L 10 5", "M 0 -20 A 10 10 0 0 1 0 20 A 10 10 0 0 1 0 -20 Z M 15 0 L 10 -5 M 15 0 L 10 5")
}

fn create_ac_voltage_variants() -> (r: Vec<(String, String)>)
    ensures
        style_keys(r@),
{
    variants("M 0 -20 A 10 10 0 0 1 0 20 A 10 10 0 0 1 0 -20 Z M -5 0 Q 0 -5 5 0 Q 0 5 -5 0", "M 0 -20 A 10 10 0 0 1 0 20 A 10 10 0 0 1 0 -20 Z M -5 0 Q 0 -5 5 0 Q 0 5 -5 0", "M 0 -20 A 10 10 0 0 1 0 20 A 10 10 0 0 1 0 -20 Z M -5 0 Q 0 -5 5 0 Q 0 5 -5 0")
}

fn create_ac_current_variants() -> (r: Vec<(String, String)>)
    ensures
        style_keys(r@),
{
    variants("M 0 -20 A 10 10 0 0 1 0 20 A 10 10 0 0 1 0 -20 Z M 15 0 L 10 -5 M 15 0 L 10 5 M -5 0 Q 0 -5 5 0 Q 0 5 -5 0", "M 0 -20 A 10 10 0 0 1 0 20 A 10 10 0 0 1 0 -20 Z M 15 0 L 10 -5 M 15 0 L 10 5 M -5 0 Q 0 -5 5 0 Q 0 5 -5 0", "M 0 -20 A 10 10 0 0 1 0 20 A 10 10 0 0 1 0 -20 Z M 15 0 L 10 -5 M 15 0 L 10 5 M -5 0 Q 0 -5 5 0 Q 0 5 -5 0")
}

fn create_signal_generator_variants() -> (r: Vec<(String, String)>)
    ensures
        style_keys(r@),
{
    variants("M -20 -10 H 20 V 20 H -20 Z M -10 0 Q -5 -5 0 0 Q -5 5 -10 0", "M -20 -10 H 20 V 20 H -20 Z M -10 0 Q -5 -5 0 0 Q -5 5 -10 0", "M -20 -10 H 20 V 20 H -20 Z M -10 0 Q -5 -5 0 0 Q -5 5 -10 0")
}

fn create_zener_diode_variants() -> (r: Vec<(String, String)>)
    ensures
        style_keys(r@),
{
    variants("M 0 -20 L 0 0 L -10 0 L 0 20 M 10 -20 L 0 0 M -2 -10 L -6 -6 M 6 6 L 2 2", "M 0 -20 L -10 0 L 0 20 L 10 0 Z M 10 -20 L 0 0", "M 0 -20 L 0 0 L -10 0 L 0 20 M 10 -20 L 0 0 M -2 -10 L -6 -6 M 6 6 L 2 2")
}

fn create_schottky_diode_variants() -> (r: Vec<(String, String)>)
    ensures
        style_keys(r@),
{
    variants("M 0 -20 L 0 0 L -10 0 L 0 20 M 10 -20 L 0 0 M -8 0 L -10 0 L -10 2 M 10 -2 L 10 0 L 8 0", "M 0 -20 L -10 0 L 0 20 L 10 0 Z M 10 -20 L 0 0", "M 0 -20 L 0 0 L -10 0 L 0 20 M 10 -20 L 0 0 M -8 0 L -10 0 L -10 2 M 10 -2 L 10 0 L 8 0")
}

fn create_led_variants() -> (r: Vec<(String, String)>)
    ensures
        style_keys(r@),
{
    variants("M 0 -20 L 0 0 L -10 0 L 0 20 M 10 -20 L 0 0 M 5 -25 L 0 -30 M 2 -27 L 0 -30 L 3 -32", "M 0 -20 L -10 0 L 0 20 L 10 0 Z M 10 -20 L 0 0 M 5 -25 L 0 -30 M 2 -27 L 0 -30 L 3 -32", "M 0 -20 L 0 0 L -10 0 L 0 20 M 10 -20 L 0 0 M 5 -25 L 0 -30 M 2 -27 L 0 -30 L 3 -32")
}

fn create_npn_transistor_variants() -> (r: Vec<(String, String)>)
    ensures
        style_keys(r@),
{
    variants("M -20 0 L 0 0 M 0 -10 L 0 10 M 0 0 L 15 0 M 15 -5 L 10 0 L 15 5 M 5 5 L 10 0", "M -20 0 L 0 0 M 0 -10 L 0 10 M 0 0 L 15 0 M 15 -5 L 10 0 L 15 5 M 5 5 L 10 0", "M -20 0 L 0 0 M 0 -10 L 0 10 M 0 0 L 15 0 M 15 -5 L 10 0 L 15 5 M 5 5 L 10 0")
}

fn create_pnp_transistor_variants() -> (r: Vec<(String, String)>)
    ensures
        style_keys(r@),
{
    variants("M -20 0 L 0 0 M 0 -10 L 0 10 M 0 0 L 15 0 M 10 -5 L 15 0 L 10 5 M 5 -5 L 10 0", "M -20 0 L 0 0 M 0 -10 L 0 10 M 0 0 L 15 0 M 10 -5 L 15 0 L 10 5 M 5 -5 L 10 0", "M -20 0 L 0 0 M 0 -10 L 0 10 M 0 0 L 15 0 M 10 -5 L 15 0 L 10 5 M 5 -5 L 10 0")
}

fn create_nmos_variants() -> (r: Vec<(String, String)>)
    ensures
        style_keys(r@),
{
    variants("M -20 0 L -5 0 M -5 -10 L -5 10 M 0 5 L 15 5 M 10 0 L 10 10 M 15 0 L 15 10 M 12 7 L 15 10 L 18 13", "M -20 0 L -5 0 M -5 -10 L -5 10 M 0 5 L 15 5 M 10 0 L 10 10 M 15 0 L 15 10 M 12 7 L 15 10 L 18 13", "M -20 0 L -5 0 M -5 -10 L -5 10 M 0 5 L 15 5 M 10 0 L 10 10 M 15 0 L 15 10 M 12 7 L 15 10 L 18 13")
}

fn create_pmos_variants() -> (r: Vec<(String, String)>)
    ensures
        style_keys(r@),
{
    variants("M -20 0 L -5 0 M -5 -10 L -5 10 M 0 -5 L 15 -5 M 10 -10 L 10 0 M 15 -10 L 15 0 M 12 -13 L 15 -10 L 18 -7", "M -20 0 L -5 0 M -5 -10 L -5 10 M 0 -5 L 15 -5 M 10 -10 L 10 0 M 15 -10 L 15 0 M 12 -13 L 15 -10 L 18 -7", "M -20 0 L -5 0 M -5 -10 L -5 10 M 0 -5 L 15 -5 M 10 -10 L 10 0 M 15 -10 L 15 0 M 12 -13 L 15 -10 L 18 -7")
}

fn create_jfet_variants() -> (r: Vec<(String, String)>)
    ensures
        style_keys(r@),
{
    variants("M -20 0 L -5 0 M -5 -10 L -5 10 M 0 0 L 15 0 M 10 -5 L 10 5", "M -20 0 L -5 0 M -5 -10 L -5 10 M 0 0 L 15 0 M 10 -5 L 10 5", "M -20 0 L -5 0 M -5 -10 L -5 10 M 0 0 L 15 0 M 10 -5 L 10 5")
}

fn create_op_amp_variants() -> (r: Vec<(String, String)>)
    ensures
        style_keys(r@),
{
    variants("M -25 -15 L 25 0 L -25 15 Z M -25 -10 L -15 -10 M -25 10 L -15 10 M 25 0 L 30 0", "M -25 -15 L 25 0 L -25 15 Z M -25 -10 L -15 -10 M -25 10 L -15 10 M 25 0 L 30 0", "M -25 -15 L 25 0 L -25 15 Z M -25 -10 L -15 -10 M -25 10 L -15 10 M 25 0 L 30 0")
}

fn create_comparator_variants() -> (r: Vec<(String, String)>)
    ensures
        style_keys(r@),
{
    variants("M -25 -15 L 25 0 L -25 15 Z M -25 -10 L -15 -10 M -25 10 L -15 10 M 25 0 L 30 0", "M -25 -15 L 25 0 L -25 15 Z M -25 -10 L -15 -10 M -25 10 L -15 10 M 25 0 L 30 0", "M -25 -15 L 25 0 L -25 15 Z M -25 -10 L -15 -10 M -25 10 L -15 10 M 25 0 L 30 0")
}

fn create_timer_555_variants() -> (r: Vec<(String, String)>)
    ensures
        style_keys(r@),
{
    variants("M -30 -25 H 30 V 50 H -30 Z", "M -30 -25 H 30 V 50 H -30 Z", "M -30 -25 H 30 V 50 H -30 Z")
}

fn create_and_gate_variants() -> (r: Vec<(String, String)>)
    ensures
        style_keys(r@),
{
    variants("M -10 -15 A 15 15 0 0 1 0 -15 A 15 15 0 0 1 10 -15 V 15 A 15 15 0 0 1 0 15 A 15 15 0 0 1 -10 15 Z M -20 -10 L -10 -10 M -20 10 L -10 10 M 20 0 L 25 0", "M -20 -15 V 30 H 20 Q 20 0 20 -15 Z M -20 -10 L -10 -10 M -20 10 L -10 10 M 20 0 L 25 0", "M -20 -15 V 30 H 20 Q 20 0 20 -15 Z M -20 -10 L -10 -10 M -20 10 L -10 10 M 20 0 L 25 0")
}

fn create_or_gate_variants() -> (r: Vec<(String, String)>)
    ensures
        style_keys(r@),
{
    variants("M -10 -15 C 10 -15 20 0 10 15 C -10 15 -10 -15 -10 -15 Z M -20 -10 L -10 -10 M -20 10 L -10 10 M 20 0 L 25 0", "M -20 -15 C 10 -15 20 0 10 15 C -10 15 -10 -15 -10 -15 Z M -20 -10 L -10 -10 M -20 10 L -10 10 M 20 0 L 25 0", "M -20 -15 C 10 -15 20 0 10 15 C -10 15 -10 -15 -10 -15 Z M -20 -10 L -10 -10 M -20 10 L -10 10 M 20 0 L 25 0")
}

fn create_not_gate_variants() -> (r: Vec<(String, String)>)
    ensures
        style_keys(r@),
{
    variants("M -10 -10 L 10 0 L -10 10 Z M 10 0 L 15 0", "M -10 -10 L 10 0 L -10 10 Z M 10 0 L 15 0", "M -10 -10 L 10 0 L -10 10 Z M 10 0 L 15 0")
}

fn create_nand_gate_variants() -> (r: Vec<(String, String)>)
    ensures
        style_keys(r@),
{
    variants("M -10 -15 A 15 15 0 0 1 0 -15 A 15 15 0 0 1 10 -15 V 15 A 15 15 0 0 1 0 15 A 15 15 0 0 1 -10 15 Z M -20 -10 L -10 -10 M -20 10 L -10 10 M 15 0 L 25 0 M 20 -2 L 25 0 L 20 2", "M -20 -15 V 30 H 20 Q 20 0 20 -15 Z M -20 -10 L -10 -10 M -20 10 L -10 10 M 15 0 L 25 0 M 20 -2 L 25 0 L 20 2", "M -20 -15 V 30 H 20 Q 20 0 20 -15 Z M -20 -10 L -10 -10 M -20 10 L -10 10 M 15 0 L 25 0 M 20 -2 L 25 0 L 20 2")
}

fn create_nor_gate_variants() -> (r: Vec<(String, String)>)
    ensures
        style_keys(r@),
{
    variants("M -10 -15 C 10 -15 20 0 10 15 C -10 15 -10 -15 -10 -15 Z M -20 -10 L -10 -10 M -20 10 L -10 10 M 15 0 L 25 0 M 20 -2 L 25 0 L 20 2", "M -20 -15 C 10 -15 20 0 10 15 C -10 15 -10 -15 -10 -15 Z M -20 -10 L -10 -10 M -20 10 L -10 10 M 15 0 L 25 0 M 20 -2 L 25 0 L 20 2", "M -20 -15 C 10 -15 20 0 10 15 C -10 15 -10 -15 -10 -15 Z M -20 -10 L -10 -10 M -20 10 L -10 10 M 15 0 L 25 0 M 20 -2 L 25 0 L 20 2")
}

fn create_xor_gate_variants() -> (r: Vec<(String, String)>)
    ensures
        style_keys(r@),
{
    variants("M -20 -15 C 0 -15 10 0 0 15 C -20 15 -20 -15 -20 -15 Z M -25 -10 L -15 -10 M -25 10 L -15 10 M 20 0 L 25 0 M -10 -15 C 10 -15 20 0 10 15 C -10 15 -10 -15 -10 -15 Z", "M -20 -15 C 0 -15 10 0 0 15 C -20 15 -20 -15 -20 -15 Z M -25 -10 L -15 -10 M -25 10 L -15 10 M 20 0 L 25 0 M -10 -15 C 10 -15 20 0 10 15 C -10 15 -10 -15 -10 -15 Z", "M -20 -15 C 0 -15 10 0 0 15 C -20 15 -20 -15 -20 -15 Z M -25 -10 L -15 -10 M -25 10 L -15 10 M 20 0 L 25 0 M -10 -15 C 10 -15 20 0 10 15 C -10 15 -10 -15 -10 -15 Z")
}

fn create_flip_flop_variants() -> (r: Vec<(String, String)>)
    ensures
        style_keys(r@),
{
    variants("M -25 -20 H 25 V 40 H -25 Z", "M -25 -20 H 25 V 40 H -25 Z", "M -25 -20 H 25 V 40 H -25 Z")
}

fn create_counter_variants() -> (r: Vec<(String, String)>)
    ensures
        style_keys(r@),
{
    variants("M -30 -25 H 30 V 50 H -30 Z", "M -30 -25 H 30 V 50 H -30 Z", "M -30 -25 H 30 V 50 H -30 Z")
}

fn create_multiplexer_variants() -> (r: Vec<(String, String)>)
    ensures
        style_keys(r@),
{
    variants("M -30 -25 H 30 V 50 H -30 Z", "M -30 -25 H 30 V 50 H -30 Z", "M -30 -25 H 30 V 50 H -30 Z")
}

fn create_voltage_regulator_variants() -> (r: Vec<(String, String)>)
    ensures
        style_keys(r@),
{
    variants("M -20 -10 H 20 V 20 H -20 Z", "M -20 -10 H 20 V 20 H -20 Z", "M -20 -10 H 20 V 20 H -20 Z")
}

fn create_crystal_variants() -> (r: Vec<(String, String)>)
    ensures
        style_keys(r@),
{
    variants("M 0 -20 V 20 M -7 -15 H 7 M -7 15 H 7 M -7 -15 V 15 M 7 -15 V 15", "M 0 -20 V 20 M -7 -15 H 7 M -7 15 H 7 M -7 -15 V 15 M 7 -15 V 15", "M 0 -20 V 20 M -7 -15 H 7 M -7 15 H 7 M -7 -15 V 15 M 7 -15 V 15")
}

fn create_relay_variants() -> (r: Vec<(String, String)>)
    ensures
        style_keys(r@),
{
    variants("M -25 -15 H 25 V 30 H -25 Z M 15 -5 L 25 -15 M 15 -5 L 25 5 M 15 -5 L 15 5", "M -25 -15 H 25 V 30 H -25 Z M 15 -5 L 25 -15 M 15 -5 L 25 5 M 15 -5 L 15 5", "M -25 -15 H 25 V 30 H -25 Z M 15 -5 L 25 -15 M 15 -5 L 25 5 M 15 -5 L 15 5")
}

fn create_spst_switch_variants() -> (r: Vec<(String, String)>)
    ensures
        style_keys(r@),
{
    variants("M -15 0 L -5 0 M 5 0 L 15 0 M -5 -5 L 5 5", "M -15 0 L -5 0 M 5 0 L 15 0 M -5 -5 L 5 5", "M -15 0 L -5 0 M 5 0 L 15 0 M -5 -5 L 5 5")
}

fn create_spdt_switch_variants() -> (r: Vec<(String, String)>)
    ensures
        style_keys(r@),
{
    variants("M -15 0 L -5 0 M 5 -10 L 15 -10 M 5 10 L 15 10 M -5 -5 L 5 0", "M -15 0 L -5 0 M 5 -10 L 15 -10 M 5 10 L 15 10 M -5 -5 L 5 0", "M -15 0 L -5 0 M 5 -10 L 15 -10 M 5 10 L 15 10 M -5 -5 L 5 0")
}

fn create_dpdt_switch_variants() -> (r: Vec<(String, String)>)
    ensures
        style_keys(r@),
{
    variants("M -20 -5 L -10 -5 M 10 -15 L 20 -15 M 10 5 L 20 5 M -10 -5 L 10 0 M -20 5 L -10 5 M 10 -5 L 20 -5 M 10 15 L 20 15", "M -20 -5 L -10 -5 M 10 -15 L 20 -15 M 10 5 L 20 5 M -10 -5 L 10 0 M -20 5 L -10 5 M 10 -5 L 20 -5 M 10 15 L 20 15", "M -20 -5 L -10 -5 M 10 -15 L 20 -15 M 10 5 L 20 5 M -10 -5 L 10 0 M -20 5 L -10 5 M 10 -5 L 20 -5 M 10 15 L 20 15")
}

fn create_fuse_variants() -> (r: Vec<(String, String)>)
    ensures
        style_keys(r@),
{
    variants("M -15 0 H 15 M -10 -5 V 10 H 10 V -10 H -10 V 10", "M -15 0 H 15 M -10 -5 V 10 H 10 V -10 H -10 V 10", "M -15 0 H 15 M -10 -5 V 10 H 10 V -10 H -10 V 10")
}

fn create_microcontroller_variants() -> (r: Vec<(String, String)>)
    ensures
        style_keys(r@),
{
    variants("M -40 -40 H 40 V 80 H -40 Z", "M -40 -40 H 40 V 80 H -40 Z", "M -40 -40 H 40 V 80 H -40 Z")
}

fn create_connector_variants() -> (r: Vec<(String, String)>)
    ensures
        style_keys(r@),
{
    variants("M 0 -20 L 15 -20 L 15 20 L 0 20", "M 0 -20 L 15 -20 L 15 20 L 0 20", "M 0 -20 L 15 -20 L 15 20 L 0 20")
}

fn create_test_point_variants() -> (r: Vec<(String, String)>)
    ensures
        style_keys(r@),
{
    variants("M 0 -10 L 0 0 C 0 5 5 5 5 0 C 5 -5 0 -5 0 -10 Z", "M 0 -10 L 0 0 C 0 5 5 5 5 0 C 5 -5 0 -5 0 -10 Z", "M 0 -10 L 0 0 C 0 5 5 5 5 0 C 5 -5 0 -5 0 -10 Z")
}

fn create_ammeter_variants() -> (r: Vec<(String, String)>)
    ensures
        style_keys(r@),
{
    variants("M -20 0 A 10 10 0 1 1 -20 0.1 M -20 -5 H 20 M -20 5 H 20 M 0 0 L 5 5", "M -20 0 A 10 10 0 1 1 -20 0.1 M -20 -5 H 20 M -20 5 H 20 M 0 0 L 5 5", "M -20 0 A 10 10 0 1 1 -20 0.1 M -20 -5 H 20 M -20 5 H 20 M 0 0 L 5 5")
}

fn create_voltmeter_variants() -> (r: Vec<(String, String)>)
    ensures
        style_keys(r@),
{
    variants("M 0 -20 A 10 10 0 1 1 0 -19.9 M 0 -5 H 0 5 M -10 0 H 10 M 0 0 L 5 5", "M 0 -20 A 10 10 0 1 1 0 -19.9 M 0 -5 H 0 5 M -10 0 H 10 M 0 0 L 5 5", "M 0 -20 A 10 10 0 1 1 0 -19.9 M 0 -5 H 0 5 M -10 0 H 10 M 0 0 L 5 5")
}

fn create_oscilloscope_probe_variants() -> (r: Vec<(String, String)>)
    ensures
        style_keys(r@),
{
    variants("M 0 -20 L 0 20 M -10 -10 H 10 V 20 H -10 Z", "M 0 -20 L 0 20 M -10 -10 H 10 V 20 H -10 Z", "M 0 -20 L 0 20 M -10 -10 H 10 V 20 H -10 Z")
}

fn create_antenna_variants() -> (r: Vec<(String, String)>)
    ensures
        style_keys(r@),
{
    variants("M 0 -20 L 0 0 L -10 15 M 0 0 L 10 15", "M 0 -20 L 0 0 L -10 15 M 0 0 L 10 15", "M 0 -20 L 0 0 L -10 15 M 0 0 L 10 15")
}

fn create_speaker_variants() -> (r: Vec<(String, String)>)
    ensures
        style_keys(r@),
{
    variants("M -15 0 L -10 -10 V 20 L -15 0 M -10 -10 H 15 V 20 H -10", "M -15 0 L -10 -10 V 20 L -15 0 M -10 -10 H 15 V 20 H -10", "M -15 0 L -10 -10 V 20 L -15 0 M -10 -10 H 15 V 20 H -10")
}

fn create_microphone_variants() -> (r: Vec<(String, String)>)
    ensures
        style_keys(r@),
{
    variants("M -20 0 A 10 10 0 1 1 -20 0.1 M 10 -10 V 20", "M -20 0 A 10 10 0 1 1 -20 0.1 M 10 -10 V 20", "M -20 0 A 10 10 0 1 1 -20 0.1 M 10 -10 V 20")
}

fn create_motor_variants() -> (r: Vec<(String, String)>)
    ensures
        style_keys(r@),
{
    variants("M -15 0 A 15 15 0 1 1 30 0 A 15 15 0 1 1 -30 0", "M -15 0 A 15 15 0 1 1 30 0 A 15 15 0 1 1 -30 0", "M -15 0 A 15 15 0 1 1 30 0 A 15 15 0 1 1 -30 0")
}

fn create_chassis_ground_variants() -> (r: Vec<(String, String)>)
    ensures
        style_keys(r@),
{
    variants("M 0 -15 L 0 0 M -10 0 L 10 0 M -6 5 L 6 5 M -2 10 L 2 10 M 0 0 L 0 5", "M 0 -15 L 0 0 M -10 0 L 10 0 M -6 5 L 6 5 M -2 10 L 2 10 M 0 0 L 0 5", "M 0 -15 L 0 0 M -10 0 L 10 0 M -6 5 L 6 5 M -2 10 L 2 10 M 0 0 L 0 5")
}

fn create_earth_ground_variants() -> (r: Vec<(String, String)>)
    ensures
        style_keys(r@),
{
    variants("M 0 -15 L 0 0 M -10 0 L 10 0 M -8 5 L 8 5 M -6 10 L 6 10 M -4 15 L 4 15", "M 0 -15 L 0 0 M -10 0 L 10 0 M -8 5 L 8 5 M -6 10 L 6 10 M -4 15 L 4 15", "M 0 -15 L 0 0 M -10 0 L 10 0 M -8 5 L 8 5 M -6 10 L 6 10 M -4 15 L 4 15")
}

} // verus!
