use vstd::prelude::*;
use crate::components::{lower_of, lowercase};
use crate::words::{kind_for_word, kind_of_word};
use crate::text::same_text;

verus! {

/// The closed set of component kinds a circuit description may name.
#[derive(Clone, Copy, Debug, PartialEq, Eq, Structural)]
pub enum ComponentType {
    Resistor,
    Capacitor,
    Inductor,
    Potentiometer,
    Transformer,
    DcVoltage,
    DcCurrent,
    AcVoltage,
    AcCurrent,
    SignalGenerator,
    Diode,
    ZenerDiode,
    SchottkyDiode,
    Led,
    NpnTransistor,
    PnpTransistor,
    NmosTransistor,
    PmosTransistor,
    Jfet,
    OpAmp,
    Comparator,
    Timer555,
    AndGate,
    OrGate,
    NotGate,
    NandGate,
    NorGate,
    XorGate,
    FlipFlop,
    Counter,
    Multiplexer,
    VoltageRegulator,
    Crystal,
    Relay,
    SpstSwitch,
    SpdtSwitch,
    DpdtSwitch,
    Fuse,
    Battery,
    Microcontroller,
    Connector,
    TestPoint,
    Ammeter,
    Voltmeter,
    OscilloscopeProbe,
    Antenna,
    Speaker,
    Microphone,
    Motor,
    SignalGround,
    ChassisGround,
    EarthGround,
}

/// A component's orientation; only quarter turns exist.
#[derive(Clone, Copy, Debug, PartialEq, Eq, Structural)]
pub enum Rotation {
    Deg0,
    Deg90,
    Deg180,
    Deg270,
}

/// One endpoint of a wire: a component identifier and one of its pin names.
#[derive(Clone, Debug)]
pub struct ConnectionPoint {
    pub component_id: String,
    pub pin: String,
}

/// A wire between two pins, with free-form key/value properties.
#[derive(Clone, Debug)]
pub struct Connection {
    pub from: ConnectionPoint,
    pub to: ConnectionPoint,
    pub properties: Vec<(String, String)>,
}

/// An explicitly declared net: a name and the pins it joins.
#[derive(Clone, Debug)]
pub struct Net {
    pub name: String,
    pub nodes: Vec<ConnectionPoint>,
}

/// One component instance. Coordinates are whole drawing units.
#[derive(Clone, Debug)]
pub struct Component {
    pub id: String,
    pub component_type: ComponentType,
    pub value: Option<String>,
    pub properties: Vec<(String, String)>,
    pub position: Option<(i32, i32)>,
    pub rotation: Rotation,
    pub label: Option<String>,
}

/// The circuit graph: components in declaration order, wires and declared nets.
#[derive(Clone, Debug)]
pub struct Circuit {
    pub components: Vec<Component>,
    pub connections: Vec<Connection>,
    pub nets: Vec<Net>,
}

/// One top-level statement of a circuit description.
#[derive(Debug)]
pub enum AstNode {
    Component(Component),
    Connection(Connection),
    Net(Net),
}

/// True when a component of this kind is a ground reference.
pub open spec fn is_ground_type(t: ComponentType) -> bool {
    t == ComponentType::SignalGround || t == ComponentType::ChassisGround || t
        == ComponentType::EarthGround
}

impl ComponentType {
    /// Whether this kind is one of the three ground symbols.
    pub fn is_ground(&self) -> (r: bool)
        ensures
            r == is_ground_type(*self),
    {
        match self {
            ComponentType::SignalGround | ComponentType::ChassisGround
            | ComponentType::EarthGround => true,
            _ => false,
        }
    }
}

/// The variant's name as written in the source, e.g. `DcVoltage`.
pub open spec fn variant_name(t: ComponentType) -> Seq<char> {
    match t {
        ComponentType::Resistor => "Resistor"@,
        ComponentType::Capacitor => "Capacitor"@,
        ComponentType::Inductor => "Inductor"@,
        ComponentType::Potentiometer => "Potentiometer"@,
        ComponentType::Transformer => "Transformer"@,
        ComponentType::DcVoltage => "DcVoltage"@,
        ComponentType::DcCurrent => "DcCurrent"@,
        ComponentType::AcVoltage => "AcVoltage"@,
        ComponentType::AcCurrent => "AcCurrent"@,
        ComponentType::SignalGenerator => "SignalGenerator"@,
        ComponentType::Diode => "Diode"@,
        ComponentType::ZenerDiode => "ZenerDiode"@,
        ComponentType::SchottkyDiode => "SchottkyDiode"@,
        ComponentType::Led => "Led"@,
        ComponentType::NpnTransistor => "NpnTransistor"@,
        ComponentType::PnpTransistor => "PnpTransistor"@,
        ComponentType::NmosTransistor => "NmosTransistor"@,
        ComponentType::PmosTransistor => "PmosTransistor"@,
        ComponentType::Jfet => "Jfet"@,
        ComponentType::OpAmp => "OpAmp"@,
        ComponentType::Comparator => "Comparator"@,
        ComponentType::Timer555 => "Timer555"@,
        ComponentType::AndGate => "AndGate"@,
        ComponentType::OrGate => "OrGate"@,
        ComponentType::NotGate => "NotGate"@,
        ComponentType::NandGate => "NandGate"@,
        ComponentType::NorGate => "NorGate"@,
        ComponentType::XorGate => "XorGate"@,
        ComponentType::FlipFlop => "FlipFlop"@,
        ComponentType::Counter => "Counter"@,
        ComponentType::Multiplexer => "Multiplexer"@,
        ComponentType::VoltageRegulator => "VoltageRegulator"@,
        ComponentType::Crystal => "Crystal"@,
        ComponentType::Relay => "Relay"@,
        ComponentType::SpstSwitch => "SpstSwitch"@,
        ComponentType::SpdtSwitch => "SpdtSwitch"@,
        ComponentType::DpdtSwitch => "DpdtSwitch"@,
        ComponentType::Fuse => "Fuse"@,
        ComponentType::Battery => "Battery"@,
        ComponentType::Microcontroller => "Microcontroller"@,
        ComponentType::Connector => "Connector"@,
        ComponentType::TestPoint => "TestPoint"@,
        ComponentType::Ammeter => "Ammeter"@,
        ComponentType::Voltmeter => "Voltmeter"@,
        ComponentType::OscilloscopeProbe => "OscilloscopeProbe"@,
        ComponentType::Antenna => "Antenna"@,
        ComponentType::Speaker => "Speaker"@,
        ComponentType::Microphone => "Microphone"@,
        ComponentType::Motor => "Motor"@,
        ComponentType::SignalGround => "SignalGround"@,
        ComponentType::ChassisGround => "ChassisGround"@,
        ComponentType::EarthGround => "EarthGround"@,
    }
}

impl ComponentType {
    /// The variant's name, as used in messages.
    pub fn variant(&self) -> (r: &'static str)
        ensures
            r@ == variant_name(*self),
    {
        match self {
            ComponentType::Resistor => "Resistor",
            ComponentType::Capacitor => "Capacitor",
            ComponentType::Inductor => "Inductor",
            ComponentType::Potentiometer => "Potentiometer",
            ComponentType::Transformer => "Transformer",
            ComponentType::DcVoltage => "DcVoltage",
            ComponentType::DcCurrent => "DcCurrent",
            ComponentType::AcVoltage => "AcVoltage",
            ComponentType::AcCurrent => "AcCurrent",
            ComponentType::SignalGenerator => "SignalGenerator",
            ComponentType::Diode => "Diode",
            ComponentType::ZenerDiode => "ZenerDiode",
            ComponentType::SchottkyDiode => "SchottkyDiode",
            ComponentType::Led => "Led",
            ComponentType::NpnTransistor => "NpnTransistor",
            ComponentType::PnpTransistor => "PnpTransistor",
            ComponentType::NmosTransistor => "NmosTransistor",
            ComponentType::PmosTransistor => "PmosTransistor",
            ComponentType::Jfet => "Jfet",
            ComponentType::OpAmp => "OpAmp",
            ComponentType::Comparator => "Comparator",
            ComponentType::Timer555 => "Timer555",
            ComponentType::AndGate => "AndGate",
            ComponentType::OrGate => "OrGate",
            ComponentType::NotGate => "NotGate",
            ComponentType::NandGate => "NandGate",
            ComponentType::NorGate => "NorGate",
            ComponentType::XorGate => "XorGate",
            ComponentType::FlipFlop => "FlipFlop",
            ComponentType::Counter => "Counter",
            ComponentType::Multiplexer => "Multiplexer",
            ComponentType::VoltageRegulator => "VoltageRegulator",
            ComponentType::Crystal => "Crystal",
            ComponentType::Relay => "Relay",
            ComponentType::SpstSwitch => "SpstSwitch",
            ComponentType::SpdtSwitch => "SpdtSwitch",
            ComponentType::DpdtSwitch => "DpdtSwitch",
            ComponentType::Fuse => "Fuse",
            ComponentType::Battery => "Battery",
            ComponentType::Microcontroller => "Microcontroller",
            ComponentType::Connector => "Connector",
            ComponentType::TestPoint => "TestPoint",
            ComponentType::Ammeter => "Ammeter",
            ComponentType::Voltmeter => "Voltmeter",
            ComponentType::OscilloscopeProbe => "OscilloscopeProbe",
            ComponentType::Antenna => "Antenna",
            ComponentType::Speaker => "Speaker",
            ComponentType::Microphone => "Microphone",
            ComponentType::Motor => "Motor",
            ComponentType::SignalGround => "SignalGround",
            ComponentType::ChassisGround => "ChassisGround",
            ComponentType::EarthGround => "EarthGround",
        }
    }
}

/// Why a circuit description could not be read.
#[derive(Debug)]
pub struct ParseError {
    pub message: String,
}

fn parse_error(what: &str, text: &str) -> (r: ParseError)
    ensures
        r.message@ == what@ + text@,
{
    let mut message = String::from_str(what);
    message.append(text);
    ParseError { message }
}

/// The characters of a string, one per element.
pub fn chars_of(s: &str) -> (r: Vec<char>)
    ensures
        r@ == s@,
{
    let n = s.unicode_len();
    let mut v: Vec<char> = Vec::new();
    let mut i: usize = 0;
    while i < n
        invariant
            n == s@.len(),
            i <= n,
            v@ == s@.take(i as int),
        decreases n - i,
    {
        v.push(s.get_char(i));
        i = i + 1;
        proof {
            assert(v@ =~= s@.take(i as int));
        }
    }
    proof {
        assert(v@ =~= s@);
    }
    v
}

pub open spec fn is_blank(c: char) -> bool {
    c == ' ' || c == '\t' || c == '\r'
}

pub open spec fn spans(v: Seq<(usize, usize)>) -> Seq<(int, int)> {
    v.map_values(|p: (usize, usize)| (p.0 as int, p.1 as int))
}

/// Line boundaries found in the first `i` characters: the finished lines and
/// where the current one starts.
pub open spec fn line_scan(s: Seq<char>, i: int) -> (Seq<(int, int)>, int)
    decreases i,
{
    if i <= 0 || i > s.len() {
        (Seq::empty(), 0)
    } else {
        let prev = line_scan(s, i - 1);
        if s[i - 1] == '\n' {
            (prev.0.push((prev.1, i - 1)), i)
        } else {
            prev
        }
    }
}

/// The text's lines as character ranges, split at each newline.
pub open spec fn lines_of(s: Seq<char>) -> Seq<(int, int)> {
    let st = line_scan(s, s.len() as int);
    st.0.push((st.1, s.len() as int))
}

/// The ranges of the lines of `cs`.
pub fn line_spans(cs: &Vec<char>) -> (r: Vec<(usize, usize)>)
    ensures
        spans(r@) == lines_of(cs@),
        forall|k: int| 0 <= k < r@.len() ==> (#[trigger] r@[k]).0 <= r@[k].1 <= cs@.len(),
{
    let mut out: Vec<(usize, usize)> = Vec::new();
    let mut start: usize = 0;
    let mut i: usize = 0;
    while i < cs.len()
        invariant
            i <= cs@.len(),
            (spans(out@), start as int) == line_scan(cs@, i as int),
            start <= i,
            forall|k: int| 0 <= k < out@.len() ==> (#[trigger] out@[k]).0 <= out@[k].1 <= i,
        decreases cs.len() - i,
    {
        if cs[i] == '\n' {
            out.push((start, i));
            proof {
                assert(spans(out@) =~= line_scan(cs@, i as int).0.push((start as int, i as int)));
            }
            start = i + 1;
        }
        i = i + 1;
    }
    out.push((start, cs.len()));
    proof {
        assert(spans(out@) =~= lines_of(cs@));
    }
    out
}

/// Token scanning state after the characters `s[a..i]`: finished tokens, the
/// start of the current token (or -1), and whether a parenthesised group is open.
pub open spec fn token_scan(s: Seq<char>, a: int, i: int) -> (Seq<(int, int)>, int, bool)
    decreases i - a,
{
    if i <= a {
        (Seq::empty(), -1, false)
    } else {
        let st = token_scan(s, a, i - 1);
        let c = s[i - 1];
        if st.1 < 0 {
            if is_blank(c) { st } else { (st.0, i - 1, c == '(') }
        } else if st.2 {
            (st.0, st.1, c != ')')
        } else if is_blank(c) {
            (st.0.push((st.1, i - 1)), -1, false)
        } else {
            (st.0, st.1, c == '(')
        }
    }
}

/// The blank-separated tokens of `s[a..b]`; a parenthesised group, blanks and
/// all, stays inside one token.
pub open spec fn tokens_of(s: Seq<char>, a: int, b: int) -> Seq<(int, int)> {
    let st = token_scan(s, a, b);
    if st.1 >= 0 { st.0.push((st.1, b)) } else { st.0 }
}

/// The ranges of the tokens of the line `cs[a..b]`.
pub fn token_spans(cs: &Vec<char>, a: usize, b: usize) -> (r: Vec<(usize, usize)>)
    requires
        a <= b <= cs@.len(),
    ensures
        spans(r@) == tokens_of(cs@, a as int, b as int),
        forall|k: int| 0 <= k < r@.len() ==> a <= (#[trigger] r@[k]).0 < r@[k].1 <= b,
{
    let mut out: Vec<(usize, usize)> = Vec::new();
    let mut start: usize = 0;
    let mut open: bool = false;
    let mut in_token: bool = false;
    let mut i: usize = a;
    while i < b
        invariant
            a <= i <= b <= cs@.len(),
            spans(out@) == token_scan(cs@, a as int, i as int).0,
            token_scan(cs@, a as int, i as int).1 == if in_token { start as int } else { -1 },
            token_scan(cs@, a as int, i as int).2 == open,
            in_token ==> a <= start < i,
            forall|k: int| 0 <= k < out@.len() ==> a <= (#[trigger] out@[k]).0 < out@[k].1 <= i,
        decreases b - i,
    {
        let c = cs[i];
        let blank = c == ' ' || c == '\t' || c == '\r';
        if !in_token {
            if !blank {
                in_token = true;
                start = i;
                open = c == '(';
            }
        } else if open {
            open = c != ')';
        } else if blank {
            out.push((start, i));
            proof {
                assert(spans(out@) =~= token_scan(cs@, a as int, i as int).0.push((start as int, i as int)));
            }
            in_token = false;
            open = false;
        } else {
            open = c == '(';
        }
        i = i + 1;
    }
    if in_token {
        out.push((start, b));
        proof {
            assert(spans(out@) =~= tokens_of(cs@, a as int, b as int));
        }
    }
    out
}

/// `s` has exactly one dot, at index `k`.
pub open spec fn sole_dot(s: Seq<char>, k: int) -> bool {
    0 <= k < s.len() && s[k] == '.' && forall|j: int| 0 <= j < s.len() && j != k ==> s[j] != '.'
}

/// `p` is what the text `component.pin`, with exactly one dot, names.
pub open spec fn point_of(text: Seq<char>, p: ConnectionPoint) -> bool {
    exists|k: int| #[trigger] sole_dot(text, k) && p.component_id@ == text.take(k) && p.pin@ == text.skip(k + 1)
}

/// Reads `component.pin`; the text must hold exactly one dot.
pub fn parse_connection_point(point_str: &str) -> (r: Result<ConnectionPoint, ParseError>)
    ensures
        match r {
            Ok(p) => point_of(point_str@, p),
            Err(e) => (forall|k: int| !sole_dot(point_str@, k)) && e.message@ == "Invalid connection point format: "@ + point_str@,
        },
{
    let cs = chars_of(point_str);
    let mut dots: usize = 0;
    let mut at: usize = 0;
    let mut i: usize = 0;
    while i < cs.len()
        invariant
            cs@ == point_str@,
            i <= cs@.len(),
            dots <= i,
            dots == 0 ==> forall|j: int| 0 <= j < i ==> cs@[j] != '.',
            dots >= 1 ==> at < i && cs@[at as int] == '.' && forall|j: int| 0 <= j < at ==> cs@[j] != '.',
            dots == 1 ==> forall|j: int| 0 <= j < i && j != at ==> cs@[j] != '.',
            dots >= 2 ==> exists|j: int| 0 <= j < i && j != at && cs@[j] == '.',
        decreases cs.len() - i,
    {
        if cs[i] == '.' {
            if dots == 0 {
                at = i;
            }
            dots = dots + 1;
        }
        i = i + 1;
    }
    if dots != 1 {
        return Err(parse_error("Invalid connection point format: ", point_str));
    }
    let id = point_str.substring_char(0, at);
    let pin = point_str.substring_char(at + 1, cs.len());
    proof {
        assert(sole_dot(point_str@, at as int));
        assert(id@ =~= point_str@.take(at as int));
        assert(pin@ =~= point_str@.skip(at + 1));
    }
    Ok(ConnectionPoint { component_id: String::from_str(id), pin: String::from_str(pin) })
}

/// The rotation a `rotation=` value names: 0, 90, 180 or 270, optionally followed by `deg`.
pub open spec fn rotation_for(s: Seq<char>) -> Option<Rotation> {
    if s == "0"@ || s == "0deg"@ {
        Some(Rotation::Deg0)
    } else if s == "90"@ || s == "90deg"@ {
        Some(Rotation::Deg90)
    } else if s == "180"@ || s == "180deg"@ {
        Some(Rotation::Deg180)
    } else if s == "270"@ || s == "270deg"@ {
        Some(Rotation::Deg270)
    } else {
        None
    }
}

/// Reads a rotation value.
pub fn parse_rotation(rotation_str: &str) -> (r: Result<Rotation, ParseError>)
    ensures
        match r {
            Ok(x) => rotation_for(rotation_str@) == Some(x),
            Err(e) => rotation_for(rotation_str@).is_none() && e.message@ == "Invalid rotation value: "@ + rotation_str@,
        },
{
    if same_text(rotation_str, "0") || same_text(rotation_str, "0deg") {
        Ok(Rotation::Deg0)
    } else if same_text(rotation_str, "90") || same_text(rotation_str, "90deg") {
        Ok(Rotation::Deg90)
    } else if same_text(rotation_str, "180") || same_text(rotation_str, "180deg") {
        Ok(Rotation::Deg180)
    } else if same_text(rotation_str, "270") || same_text(rotation_str, "270deg") {
        Ok(Rotation::Deg270)
    } else {
        Err(parse_error("Invalid rotation value: ", rotation_str))
    }
}

/// Reads a type word, ignoring case.
pub fn parse_component_type(word: &str) -> (r: Result<ComponentType, ParseError>)
    ensures
        match r {
            Ok(t) => kind_for_word(lower_of(word@)) == Some(t),
            Err(e) => kind_for_word(lower_of(word@)).is_none() && e.message@ == "Unknown component type: "@ + lower_of(word@),
        },
{
    let lower = lowercase(word);
    match kind_of_word(lower.as_str()) {
        Some(t) => Ok(t),
        None => Err(parse_error("Unknown component type: ", lower.as_str())),
    }
}

pub open spec fn is_digit(c: char) -> bool {
    '0' <= c && c <= '9'
}

pub open spec fn digit_value(c: char) -> int {
    c as int - '0' as int
}

/// The value of a string of decimal digits.
pub open spec fn digits_value(s: Seq<char>) -> int
    decreases s.len(),
{
    if s.len() == 0 {
        0
    } else {
        digits_value(s.drop_last()) * 10 + digit_value(s.last())
    }
}

pub open spec fn all_digits(s: Seq<char>) -> bool {
    forall|i: int| 0 <= i < s.len() ==> is_digit(#[trigger] s[i])
}

/// The integer an optional minus sign and at least one digit spell.
pub open spec fn int_text(s: Seq<char>) -> Option<int> {
    if s.len() > 0 && s[0] == '-' {
        if s.len() > 1 && all_digits(s.skip(1)) { Some(-digits_value(s.skip(1))) } else { None }
    } else if s.len() > 0 && all_digits(s) {
        Some(digits_value(s))
    } else {
        None
    }
}

proof fn lemma_digits_nonneg(t: Seq<char>)
    requires
        all_digits(t),
    ensures
        digits_value(t) >= 0,
    decreases t.len(),
{
    if t.len() > 0 {
        lemma_digits_nonneg(t.drop_last());
    }
}

proof fn lemma_digits_grow(t: Seq<char>, i: int, j: int)
    requires
        all_digits(t),
        0 <= i <= j <= t.len(),
    ensures
        0 <= digits_value(t.take(i)) <= digits_value(t.take(j)),
    decreases j - i,
{
    lemma_digits_nonneg(t.take(i));
    if j > i {
        lemma_digits_grow(t, i, j - 1);
        assert(t.take(j).drop_last() =~= t.take(j - 1));
    }
}

/// Reads the integer spelled by `cs[a..b]`, if it fits in an `i32`.
fn int_in(cs: &Vec<char>, a: usize, b: usize) -> (r: Option<i32>)
    requires
        a <= b <= cs@.len(),
    ensures
        r == match int_text(cs@.subrange(a as int, b as int)) {
            Some(v) => if i32::MIN <= v <= i32::MAX { Some(v as i32) } else { None },
            None => None,
        },
{
    let ghost s = cs@.subrange(a as int, b as int);
    let negative = a < b && cs[a] == '-';
    let lo = if negative { a + 1 } else { a };
    if lo >= b {
        return None;
    }
    let ghost t = cs@.subrange(lo as int, b as int);
    proof {
        if negative {
            assert(t =~= s.skip(1));
        } else {
            assert(t =~= s);
        }
    }
    let mut k: usize = lo;
    while k < b
        invariant
            lo <= k <= b <= cs@.len(),
            t == cs@.subrange(lo as int, b as int),
            s == cs@.subrange(a as int, b as int),
            negative == (a < b && cs@[a as int] == '-'),
            lo == if negative { a + 1 } else { a as int },
            negative ==> t == s.skip(1),
            !negative ==> t == s,
            lo < b,
            forall|q: int| 0 <= q < k - lo ==> is_digit(#[trigger] t[q]),
        decreases b - k,
    {
        let d = cs[k];
        if !('0' <= d && d <= '9') {
            proof {
                assert(t[k - lo] == d);
                assert(!is_digit(t[k - lo]));
                assert(!all_digits(t));
                if negative {
                    assert(s[0] == '-');
                } else {
                    assert(s.len() == 0 || s[0] != '-');
                }
            }
            return None;
        }
        k = k + 1;
    }
    let mut acc: i64 = 0;
    let mut i: usize = lo;
    while i < b
        invariant
            lo <= i <= b <= cs@.len(),
            t == cs@.subrange(lo as int, b as int),
            s == cs@.subrange(a as int, b as int),
            negative == (a < b && cs@[a as int] == '-'),
            lo == if negative { a + 1 } else { a as int },
            negative ==> t == s.skip(1),
            !negative ==> t == s,
            lo < b,
            all_digits(t),
            acc as int == digits_value(t.take(i - lo)),
            0 <= acc <= 0x8000_0000,
        decreases b - i,
    {
        let c = cs[i];
        proof {
            assert(t.take(i - lo + 1).drop_last() =~= t.take(i - lo));
            assert(t.take(i - lo + 1).last() == c);
            assert(t[i - lo] == c);
        }
        acc = acc * 10 + (c as u32 - '0' as u32) as i64;
        i = i + 1;
        proof {
            assert(acc as int == digits_value(t.take(i - lo)));
        }
        if acc > 0x8000_0000 {
            proof {
                if negative {
                    assert(s[0] == '-');
                } else {
                    assert(s.len() == 0 || s[0] != '-');
                }
                lemma_digits_grow(t, (i - lo) as int, t.len() as int);
                assert(t.take(t.len() as int) =~= t);
            }
            return None;
        }
    }
    proof {
        assert(t.take(i - lo) =~= t);
    }
    if negative {
        Some((-acc) as i32)
    } else if acc <= 0x7fff_ffff {
        Some(acc as i32)
    } else {
        None
    }
}

/// Index of the first character of `s[a..b]` that is not blank, or `b`.
pub open spec fn trim_start(s: Seq<char>, a: int, b: int) -> int
    decreases b - a,
{
    if a < b && is_blank(s[a]) { trim_start(s, a + 1, b) } else { a }
}

/// One past the last character of `s[a..b]` that is not blank, or `a`.
pub open spec fn trim_end(s: Seq<char>, a: int, b: int) -> int
    decreases b - a,
{
    if a < b && is_blank(s[b - 1]) { trim_end(s, a, b - 1) } else { b }
}

/// The `i32` that `s[a..b]`, blanks around it aside, spells.
pub open spec fn coordinate(s: Seq<char>, a: int, b: int) -> Option<i32> {
    let lo = trim_start(s, a, b);
    match int_text(s.subrange(lo, trim_end(s, lo, b))) {
        Some(v) => if i32::MIN <= v <= i32::MAX { Some(v as i32) } else { None },
        None => None,
    }
}

fn trimmed(cs: &Vec<char>, a: usize, b: usize) -> (r: (usize, usize))
    requires
        a <= b <= cs@.len(),
    ensures
        r.0 == trim_start(cs@, a as int, b as int),
        r.1 == trim_end(cs@, r.0 as int, b as int),
        a <= r.0 <= r.1 <= b,
{
    let mut lo = a;
    while lo < b && (cs[lo] == ' ' || cs[lo] == '\t' || cs[lo] == '\r')
        invariant
            a <= lo <= b <= cs@.len(),
            trim_start(cs@, a as int, b as int) == trim_start(cs@, lo as int, b as int),
        decreases b - lo,
    {
        lo = lo + 1;
    }
    let mut hi = b;
    while hi > lo && (cs[hi - 1] == ' ' || cs[hi - 1] == '\t' || cs[hi - 1] == '\r')
        invariant
            lo <= hi <= b <= cs@.len(),
            trim_end(cs@, lo as int, b as int) == trim_end(cs@, lo as int, hi as int),
        decreases hi - lo,
    {
        hi = hi - 1;
    }
    (lo, hi)
}

fn coordinate_in(cs: &Vec<char>, a: usize, b: usize) -> (r: Option<i32>)
    requires
        a <= b <= cs@.len(),
    ensures
        r == coordinate(cs@, a as int, b as int),
{
    let (lo, hi) = trimmed(cs, a, b);
    int_in(cs, lo, hi)
}

/// `k` is the first comma of `s[a..b]`.
pub open spec fn first_comma(s: Seq<char>, a: int, b: int, k: int) -> bool {
    a <= k < b && s[k] == ',' && forall|j: int| a <= j < k ==> s[j] != ','
}

/// `s[a..b]` is a parenthesised pair with a comma inside.
pub open spec fn position_shape(s: Seq<char>, a: int, b: int) -> bool {
    b - a >= 2 && s[a] == '(' && s[b - 1] == ')' && exists|k: int| #[trigger] first_comma(s, a + 1, b - 1, k)
}

/// `s[a..b]` is a parenthesised pair of `i32` coordinates split at its first comma.
pub open spec fn position_ok(s: Seq<char>, a: int, b: int) -> bool {
    position_shape(s, a, b) && forall|k: int| #[trigger] first_comma(s, a + 1, b - 1, k) ==> coordinate(s, a + 1, k).is_some()
        && coordinate(s, k + 1, b - 1).is_some()
}

/// The coordinates a well-formed position token spells.
pub open spec fn position_value(s: Seq<char>, a: int, b: int) -> (i32, i32) {
    let k = choose|k: int| #[trigger] first_comma(s, a + 1, b - 1, k);
    (coordinate(s, a + 1, k).unwrap(), coordinate(s, k + 1, b - 1).unwrap())
}

/// Reads `(x, y)` from `cs[a..b]`; `text` is the same characters, for messages.
fn parse_position(cs: &Vec<char>, a: usize, b: usize, text: &str) -> (r: Result<(i32, i32), ParseError>)
    requires
        a <= b <= cs@.len(),
    ensures
        match r {
            Ok(p) => exists|k: int| position_shape(cs@, a as int, b as int) && #[trigger] first_comma(cs@, a + 1, b - 1, k)
                && coordinate(cs@, a + 1, k) == Some(p.0) && coordinate(cs@, k + 1, b - 1) == Some(p.1),
            Err(e) => !position_shape(cs@, a as int, b as int) ==> e.message@ == "Invalid position: "@ + text@,
        },
        r.is_ok() <==> position_ok(cs@, a as int, b as int),
        r matches Ok(p) ==> p == position_value(cs@, a as int, b as int),
{
    if b - a < 2 || cs[a] != '(' || cs[b - 1] != ')' {
        return Err(parse_error("Invalid position: ", text));
    }
    let mut k: usize = a + 1;
    while k < b - 1 && cs[k] != ','
        invariant
            a + 1 <= k <= b - 1,
            b <= cs@.len(),
            forall|j: int| a + 1 <= j < k ==> cs@[j] != ',',
        decreases b - 1 - k,
    {
        k = k + 1;
    }
    if k == b - 1 {
        return Err(parse_error("Invalid position: ", text));
    }
    proof {
        assert(first_comma(cs@, a + 1, b - 1, k as int));
        assert forall|k2: int| #[trigger] first_comma(cs@, a + 1, b - 1, k2) implies k2 == k by {
            if k2 < k {
                assert(cs@[k2] != ',');
            } else if k2 > k {
                assert(cs@[k as int] != ',');
            }
        }
    }
    let x = match coordinate_in(cs, a + 1, k) {
        Some(v) => v,
        None => {
            return Err(ParseError { message: String::from_str("Invalid X coordinate") });
        },
    };
    let y = match coordinate_in(cs, k + 1, b - 1) {
        Some(v) => v,
        None => {
            return Err(ParseError { message: String::from_str("Invalid Y coordinate") });
        },
    };
    Ok((x, y))
}

/// `k` is the first `=` of `s`.
pub open spec fn first_equals(s: Seq<char>, k: int) -> bool {
    0 <= k < s.len() && s[k] == '=' && forall|j: int| 0 <= j < k ==> s[j] != '='
}

/// Splits `key=value` at the first `=`.
pub fn parse_property(text: &str) -> (r: Option<(String, String)>)
    ensures
        match r {
            Some(kv) => exists|k: int| first_equals(text@, k) && kv.0@ == text@.take(k) && kv.1@ == text@.skip(k + 1),
            None => forall|k: int| 0 <= k < text@.len() ==> text@[k] != '=',
        },
{
    let cs = chars_of(text);
    let mut k: usize = 0;
    while k < cs.len() && cs[k] != '='
        invariant
            cs@ == text@,
            k <= cs@.len(),
            forall|j: int| 0 <= j < k ==> cs@[j] != '=',
        decreases cs.len() - k,
    {
        k = k + 1;
    }
    if k == cs.len() {
        return None;
    }
    let key = text.substring_char(0, k);
    let value = text.substring_char(k + 1, cs.len());
    proof {
        assert(first_equals(text@, k as int));
        assert(key@ =~= text@.take(k as int));
        assert(value@ =~= text@.skip(k + 1));
    }
    Some((String::from_str(key), String::from_str(value)))
}

/// The characters of token `t` of the text `s`.
pub open spec fn token_text(s: Seq<char>, t: (int, int)) -> Seq<char> {
    s.subrange(t.0, t.1)
}

fn token_str<'a>(input: &'a str, cs: &Vec<char>, t: (usize, usize)) -> (r: &'a str)
    requires
        cs@ == input@,
        t.0 <= t.1 <= cs@.len(),
    ensures
        r@ == token_text(cs@, (t.0 as int, t.1 as int)),
{
    input.substring_char(t.0, t.1)
}

/// The key of a `key=value` token: what precedes its first `=`.
pub open spec fn prop_key(x: Seq<char>) -> Seq<char> {
    x.take(choose|k: int| first_equals(x, k))
}

/// The value of a `key=value` token: what follows its first `=`.
pub open spec fn prop_value(x: Seq<char>) -> Seq<char> {
    x.skip((choose|k: int| first_equals(x, k)) + 1)
}

pub open spec fn opt_text(o: Option<String>) -> Option<Seq<char>> {
    match o {
        Some(v) => Some(v@),
        None => None,
    }
}

/// The value, position, rotation and label that tokens `i..` of a component
/// line give, starting from `f`: a later position, rotation, label or value
/// replaces an earlier one.
pub open spec fn component_fields(s: Seq<char>, t: Seq<(int, int)>, i: int, f: (Option<Seq<char>>, Option<(i32, i32)>, Rotation, Option<Seq<char>>)) -> (Option<Seq<char>>, Option<(i32, i32)>, Rotation, Option<Seq<char>>)
    decreases t.len() - i,
{
    if i < 0 || i >= t.len() {
        f
    } else {
        let x = token_text(s, t[i]);
        if s[t[i].0] == '(' {
            component_fields(s, t, i + 1, (f.0, Some(position_value(s, t[i].0, t[i].1)), f.2, f.3))
        } else if has_equals(x) {
            if prop_key(x) == "rotation"@ {
                component_fields(s, t, i + 1, (f.0, f.1, rotation_for(prop_value(x)).unwrap(), f.3))
            } else if prop_key(x) == "label"@ {
                component_fields(s, t, i + 1, (f.0, f.1, f.2, Some(prop_value(x))))
            } else {
                component_fields(s, t, i + 1, f)
            }
        } else {
            component_fields(s, t, i + 1, (Some(x), f.1, f.2, f.3))
        }
    }
}

/// Tokens `i..` of a component line are acceptable: positions are well formed,
/// a `rotation=` names a quarter turn, and at most one bare value appears
/// (`seen` says whether one came earlier).
pub open spec fn component_rest_ok(s: Seq<char>, t: Seq<(int, int)>, i: int, seen: bool) -> bool
    decreases t.len() - i,
{
    if i < 0 || i >= t.len() {
        true
    } else {
        let x = token_text(s, t[i]);
        if s[t[i].0] == '(' {
            position_ok(s, t[i].0, t[i].1) && component_rest_ok(s, t, i + 1, seen)
        } else if has_equals(x) {
            (prop_key(x) == "rotation"@ ==> rotation_for(prop_value(x)).is_some()) && component_rest_ok(s, t, i + 1, seen)
        } else {
            !seen && component_rest_ok(s, t, i + 1, true)
        }
    }
}

/// No two properties share a key.
pub open spec fn keys_unique(v: Seq<(String, String)>) -> bool {
    forall|i: int, j: int| 0 <= i < v.len() && 0 <= j < v.len() && i != j ==> v[i].0@ != v[j].0@
}

/// Sets a property: a key already present takes the new value in its place,
/// and a new key is added at the end.
pub fn set_property(props: &mut Vec<(String, String)>, key: String, value: String)
    requires
        keys_unique(old(props)@),
    ensures
        keys_unique(final(props)@),
        (exists|i: int| 0 <= i < old(props)@.len() && old(props)@[i].0@ == key@) ==> exists|i: int| 0 <= i < old(props)@.len()
            && old(props)@[i].0@ == key@ && final(props)@ == old(props)@.update(i, (key, value)),
        (forall|j: int| 0 <= j < old(props)@.len() ==> old(props)@[j].0@ != key@) ==> final(props)@ == old(props)@.push((key, value)),
{
    let mut i: usize = 0;
    while i < props.len()
        invariant
            props@ == old(props)@,
            keys_unique(old(props)@),
            i <= props@.len(),
            forall|j: int| 0 <= j < i ==> props@[j].0@ != key@,
        decreases props.len() - i,
    {
        if props[i].0 == key {
            let ghost before = props@;
            props.set(i, (key, value));
            proof {
                assert(props@ == before.update(i as int, (key, value)));
                assert forall|p: int, q: int| 0 <= p < props@.len() && 0 <= q < props@.len() && p != q implies props@[p].0@ != props@[q].0@ by {
                    assert(before[p].0@ != before[q].0@);
                }
            }
            return;
        }
        i = i + 1;
    }
    props.push((key, value));
}

/// Reads a component line: identifier, type word, then any of a value, a
/// position, `rotation=`, `label=` and other `key=value` properties.
fn parse_component(input: &str, cs: &Vec<char>, toks: &Vec<(usize, usize)>) -> (r: Result<Component, ParseError>)
    requires
        cs@ == input@,
        toks@.len() >= 2,
        forall|k: int| 0 <= k < toks@.len() ==> (#[trigger] toks@[k]).0 < toks@[k].1 <= cs@.len(),
    ensures
        r matches Ok(c) ==> c.id@ == token_text(cs@, spans(toks@)[0]) && kind_for_word(lower_of(token_text(cs@, spans(toks@)[1]))) == Some(c.component_type),
        r matches Ok(c) ==> (c.position matches Some(p) ==> exists|i: int, k: int| 2 <= i < toks@.len() && #[trigger] first_comma(cs@, toks@[i].0 + 1, toks@[i].1 - 1, k) && coordinate(cs@, toks@[i].0 + 1, k) == Some(p.0) && coordinate(cs@, k + 1, toks@[i].1 - 1) == Some(p.1)),
        r matches Ok(c) ==> ((forall|i: int| 2 <= i < toks@.len() ==> cs@[toks@[i].0 as int] != '(') ==> c.position.is_none()),
        r.is_ok() <==> kind_for_word(lower_of(token_text(cs@, spans(toks@)[1]))).is_some() && component_rest_ok(cs@, spans(toks@), 2, false),
        r matches Ok(c) ==> (opt_text(c.value), c.position, c.rotation, opt_text(c.label)) == component_fields(cs@, spans(toks@), 2, (None, None, Rotation::Deg0, None)),
        r matches Ok(c) ==> keys_unique(c.properties@),
{
    let id = token_str(input, cs, toks[0]);
    proof {
        assert(spans(toks@)[0] == (toks@[0].0 as int, toks@[0].1 as int));
        assert(spans(toks@)[1] == (toks@[1].0 as int, toks@[1].1 as int));
    }
    let component_type = parse_component_type(token_str(input, cs, toks[1]))?;
    let mut value: Option<String> = None;
    let mut position: Option<(i32, i32)> = None;
    let mut rotation = Rotation::Deg0;
    let mut label: Option<String> = None;
    let mut properties: Vec<(String, String)> = Vec::new();
    let mut i: usize = 2;
    while i < toks.len()
        invariant
            cs@ == input@,
            2 <= i <= toks@.len(),
            forall|k: int| 0 <= k < toks@.len() ==> (#[trigger] toks@[k]).0 < toks@[k].1 <= cs@.len(),
            position matches Some(p) ==> exists|q: int, k: int| 2 <= q < i && #[trigger] first_comma(cs@, toks@[q].0 + 1, toks@[q].1 - 1, k) && coordinate(cs@, toks@[q].0 + 1, k) == Some(p.0) && coordinate(cs@, k + 1, toks@[q].1 - 1) == Some(p.1),
            (forall|q: int| 2 <= q < i ==> cs@[toks@[q].0 as int] != '(') ==> position.is_none(),
            component_rest_ok(cs@, spans(toks@), 2, false) == component_rest_ok(cs@, spans(toks@), i as int, value.is_some()),
            component_fields(cs@, spans(toks@), 2, (None, None, Rotation::Deg0, None)) == component_fields(cs@, spans(toks@), i as int, (opt_text(value), position, rotation, opt_text(label))),
            keys_unique(properties@),
        decreases toks.len() - i,
    {
        let (a, b) = toks[i];
        let text = token_str(input, cs, toks[i]);
        proof {
            assert(spans(toks@)[i as int] == (a as int, b as int));
        }
        if cs[a] == '(' {
            let p = parse_position(cs, a, b, text)?;
            position = Some(p);
        } else {
            match parse_property(text) {
                Some((key, val)) => {
                    proof {
                        let k = choose|k: int| first_equals(text@, k) && key@ == text@.take(k) && val@ == text@.skip(k + 1);
                        assert(text@[k] == '=');
                        let k2 = choose|k: int| first_equals(text@, k);
                        assert(first_equals(text@, k2));
                        if k2 < k {
                            assert(text@[k2] != '=');
                        } else if k2 > k {
                            assert(text@[k] != '=');
                        }
                        assert(key@ == prop_key(text@) && val@ == prop_value(text@));
                    }
                    if same_text(key.as_str(), "rotation") {
                        rotation = parse_rotation(val.as_str())?;
                    } else if same_text(key.as_str(), "label") {
                        label = Some(val);
                    } else {
                        set_property(&mut properties, key, val);
                    }
                },
                None => {
                    proof {
                        assert(!has_equals(text@));
                    }
                    if value.is_none() {
                        value = Some(String::from_str(text));
                    } else {
                        proof {
                            assert(value.is_some());
                        }
                        return Err(parse_error("Unexpected token: ", text));
                    }
                },
            }
        }
        i = i + 1;
    }
    Ok(Component { id: String::from_str(id), component_type, value, properties, position, rotation, label })
}

/// The text names a pin: it holds exactly one dot.
pub open spec fn has_point(text: Seq<char>) -> bool {
    exists|k: int| #[trigger] sole_dot(text, k)
}

/// The text holds an `=`.
pub open spec fn has_equals(text: Seq<char>) -> bool {
    exists|k: int| 0 <= k < text.len() && #[trigger] text[k] == '='
}

/// Reads a wire line: `component.pin -> component.pin`, then `key=value` properties.
fn parse_connection(input: &str, cs: &Vec<char>, toks: &Vec<(usize, usize)>) -> (r: Result<Connection, ParseError>)
    requires
        cs@ == input@,
        toks@.len() >= 3,
        forall|k: int| 0 <= k < toks@.len() ==> (#[trigger] toks@[k]).0 < toks@[k].1 <= cs@.len(),
    ensures
        r matches Ok(c) ==> point_of(token_text(cs@, spans(toks@)[0]), c.from) && point_of(token_text(cs@, spans(toks@)[2]), c.to),
        r matches Ok(c) ==> keys_unique(c.properties@),
        r.is_ok() <==> has_point(token_text(cs@, spans(toks@)[0])) && has_point(token_text(cs@, spans(toks@)[2]))
            && forall|i: int| 3 <= i < toks@.len() ==> has_equals(token_text(cs@, #[trigger] spans(toks@)[i])),
{
    proof {
        assert(spans(toks@)[0] == (toks@[0].0 as int, toks@[0].1 as int));
        assert(spans(toks@)[2] == (toks@[2].0 as int, toks@[2].1 as int));
    }
    let from = parse_connection_point(token_str(input, cs, toks[0]))?;
    let to = parse_connection_point(token_str(input, cs, toks[2]))?;
    let mut properties: Vec<(String, String)> = Vec::new();
    let mut i: usize = 3;
    while i < toks.len()
        invariant
            cs@ == input@,
            3 <= i <= toks@.len(),
            forall|k: int| 0 <= k < toks@.len() ==> (#[trigger] toks@[k]).0 < toks@[k].1 <= cs@.len(),
            forall|q: int| 3 <= q < i ==> has_equals(token_text(cs@, #[trigger] spans(toks@)[q])),
            keys_unique(properties@),
        decreases toks.len() - i,
    {
        let text = token_str(input, cs, toks[i]);
        proof {
            assert(spans(toks@)[i as int] == (toks@[i as int].0 as int, toks@[i as int].1 as int));
        }
        match parse_property(text) {
            Some(kv) => {
                proof {
                    let k = choose|k: int| first_equals(text@, k) && kv.0@ == text@.take(k) && kv.1@ == text@.skip(k + 1);
                    assert(text@[k] == '=');
                }
                set_property(&mut properties, kv.0, kv.1);
            },
            None => {
                return Err(parse_error("Invalid connection property: ", text));
            },
        }
        i = i + 1;
    }
    Ok(Connection { from, to, properties })
}

/// Reads a net line: `net NAME component.pin ...`.
fn parse_net(input: &str, cs: &Vec<char>, toks: &Vec<(usize, usize)>) -> (r: Result<Net, ParseError>)
    requires
        cs@ == input@,
        toks@.len() >= 2,
        forall|k: int| 0 <= k < toks@.len() ==> (#[trigger] toks@[k]).0 < toks@[k].1 <= cs@.len(),
    ensures
        r matches Ok(n) ==> n.name@ == token_text(cs@, spans(toks@)[1]) && n.nodes@.len() == toks@.len() - 2
            && forall|q: int| 0 <= q < n.nodes@.len() ==> point_of(token_text(cs@, spans(toks@)[q + 2]), #[trigger] n.nodes@[q]),
        r.is_ok() <==> forall|i: int| 2 <= i < toks@.len() ==> has_point(token_text(cs@, #[trigger] spans(toks@)[i])),
{
    proof {
        assert(spans(toks@)[1] == (toks@[1].0 as int, toks@[1].1 as int));
    }
    let name = String::from_str(token_str(input, cs, toks[1]));
    let mut nodes: Vec<ConnectionPoint> = Vec::new();
    let mut i: usize = 2;
    while i < toks.len()
        invariant
            cs@ == input@,
            2 <= i <= toks@.len(),
            forall|k: int| 0 <= k < toks@.len() ==> (#[trigger] toks@[k]).0 < toks@[k].1 <= cs@.len(),
            nodes@.len() == i - 2,
            forall|q: int| 0 <= q < nodes@.len() ==> point_of(token_text(cs@, spans(toks@)[q + 2]), #[trigger] nodes@[q]),
            forall|q: int| 2 <= q < i ==> has_point(token_text(cs@, #[trigger] spans(toks@)[q])),
        decreases toks.len() - i,
    {
        proof {
            assert(spans(toks@)[i as int] == (toks@[i as int].0 as int, toks@[i as int].1 as int));
        }
        let node = parse_connection_point(token_str(input, cs, toks[i]))?;
        proof {
            assert(spans(toks@)[i as int + 2 - 2] == spans(toks@)[i as int]);
        }
        nodes.push(node);
        i = i + 1;
    }
    Ok(Net { name, nodes })
}

/// Line `l` of the text is a component line that gives `c` its identifier and kind.
pub open spec fn component_line(s: Seq<char>, l: int, c: Component) -> bool {
    let line = lines_of(s)[l];
    let t = tokens_of(s, line.0, line.1);
    &&& 0 <= l < lines_of(s).len()
    &&& t.len() >= 2
    &&& c.id@ == token_text(s, t[0])
    &&& kind_for_word(lower_of(token_text(s, t[1]))) == Some(c.component_type)
    &&& (opt_text(c.value), c.position, c.rotation, opt_text(c.label)) == component_fields(s, t, 2, (None, None, Rotation::Deg0, None))
    &&& keys_unique(c.properties@)
}

/// Line `l` of the text is the wire line `from -> to` that gives `c` its endpoints.
pub open spec fn connection_line(s: Seq<char>, l: int, c: Connection) -> bool {
    let line = lines_of(s)[l];
    let t = tokens_of(s, line.0, line.1);
    &&& 0 <= l < lines_of(s).len()
    &&& t.len() >= 3
    &&& token_text(s, t[1]) == "->"@
    &&& point_of(token_text(s, t[0]), c.from)
    &&& point_of(token_text(s, t[2]), c.to)
    &&& keys_unique(c.properties@)
}

/// Line `l` of the text is a `net` line that declares `n`.
pub open spec fn net_line(s: Seq<char>, l: int, n: Net) -> bool {
    let line = lines_of(s)[l];
    let t = tokens_of(s, line.0, line.1);
    &&& 0 <= l < lines_of(s).len()
    &&& t.len() >= 2
    &&& token_text(s, t[0]) == "net"@
    &&& n.name@ == token_text(s, t[1])
    &&& n.nodes@.len() == t.len() - 2
}

/// What statement line `l` holds: 0 blank, 1 a net, 2 a wire, 3 a component, 4 an incomplete one.
pub open spec fn line_kind(s: Seq<char>, l: int) -> int {
    let line = lines_of(s)[l];
    let t = tokens_of(s, line.0, line.1);
    if t.len() == 0 {
        0
    } else if t.len() >= 2 && token_text(s, t[0]) == "net"@ {
        1
    } else if t.len() >= 3 && token_text(s, t[1]) == "->"@ {
        2
    } else if t.len() >= 2 {
        3
    } else {
        4
    }
}

/// The lines among the first `n` that hold statements of kind `kind`, in order.
pub open spec fn lines_with(s: Seq<char>, kind: int, n: int) -> Seq<int>
    decreases n,
{
    if n <= 0 {
        Seq::empty()
    } else {
        let p = lines_with(s, kind, n - 1);
        if line_kind(s, n - 1) == kind { p.push(n - 1) } else { p }
    }
}

/// `c` is what the text describes: its k-th component, wire and net come from
/// the k-th component, wire and net line, and there are no others.
pub open spec fn parsed_from(s: Seq<char>, c: Circuit) -> bool {
    let n = lines_of(s).len() as int;
    &&& c.components@.len() == lines_with(s, 3, n).len()
    &&& c.connections@.len() == lines_with(s, 2, n).len()
    &&& c.nets@.len() == lines_with(s, 1, n).len()
    &&& forall|k: int| 0 <= k < c.components@.len() ==> component_line(s, lines_with(s, 3, n)[k], #[trigger] c.components@[k])
    &&& forall|k: int| 0 <= k < c.connections@.len() ==> connection_line(s, lines_with(s, 2, n)[k], #[trigger] c.connections@[k])
    &&& forall|k: int| 0 <= k < c.nets@.len() ==> net_line(s, lines_with(s, 1, n)[k], #[trigger] c.nets@[k])
}

/// Line `l` of the text is blank or a well-formed net, wire or component statement.
pub open spec fn line_ok(s: Seq<char>, l: int) -> bool {
    let line = lines_of(s)[l];
    let t = tokens_of(s, line.0, line.1);
    if t.len() == 0 {
        true
    } else if t.len() >= 2 && token_text(s, t[0]) == "net"@ {
        forall|i: int| 2 <= i < t.len() ==> has_point(token_text(s, #[trigger] t[i]))
    } else if t.len() >= 3 && token_text(s, t[1]) == "->"@ {
        has_point(token_text(s, t[0])) && has_point(token_text(s, t[2]))
            && forall|i: int| 3 <= i < t.len() ==> has_equals(token_text(s, #[trigger] t[i]))
    } else if t.len() >= 2 {
        kind_for_word(lower_of(token_text(s, t[1]))).is_some() && component_rest_ok(s, t, 2, false)
    } else {
        false
    }
}

/// Reads a circuit description, one statement per line; blank lines are skipped.
pub fn parse_cdl(input: &str) -> (r: Result<Circuit, ParseError>)
    ensures
        r matches Ok(c) ==> parsed_from(input@, c),
        r.is_ok() <==> forall|l: int| 0 <= l < lines_of(input@).len() ==> #[trigger] line_ok(input@, l),
{
    let cs = chars_of(input);
    let lines = line_spans(&cs);
    let mut components: Vec<Component> = Vec::new();
    let mut connections: Vec<Connection> = Vec::new();
    let mut nets: Vec<Net> = Vec::new();
    let mut l: usize = 0;
    while l < lines.len()
        invariant
            cs@ == input@,
            spans(lines@) == lines_of(cs@),
            forall|k: int| 0 <= k < lines@.len() ==> (#[trigger] lines@[k]).0 <= lines@[k].1 <= cs@.len(),
            l <= lines@.len(),
            components@.len() == lines_with(input@, 3, l as int).len(),
            connections@.len() == lines_with(input@, 2, l as int).len(),
            nets@.len() == lines_with(input@, 1, l as int).len(),
            forall|k: int| 0 <= k < components@.len() ==> component_line(input@, lines_with(input@, 3, l as int)[k], #[trigger] components@[k]),
            forall|k: int| 0 <= k < connections@.len() ==> connection_line(input@, lines_with(input@, 2, l as int)[k], #[trigger] connections@[k]),
            forall|k: int| 0 <= k < nets@.len() ==> net_line(input@, lines_with(input@, 1, l as int)[k], #[trigger] nets@[k]),
            forall|q: int| 0 <= q < l ==> #[trigger] line_ok(input@, q),
        decreases lines.len() - l,
    {
        let (a, b) = lines[l];
        let toks = token_spans(&cs, a, b);
        proof {
            assert(lines_of(cs@)[l as int] == (a as int, b as int));
        }
        if toks.len() == 0 {
        } else if toks.len() >= 2 && same_text(token_str(input, &cs, toks[0]), "net") {
            let n = match parse_net(input, &cs, &toks) {
                Ok(n) => n,
                Err(e) => {
                    proof {
                        assert(spans(toks@)[0] == (toks@[0].0 as int, toks@[0].1 as int));
                        assert(!line_ok(input@, l as int));
                    }
                    return Err(e);
                },
            };
            proof {
                assert(spans(toks@)[0] == (toks@[0].0 as int, toks@[0].1 as int));
                assert(net_line(input@, l as int, n));
            }
            nets.push(n);
        } else if toks.len() >= 3 && same_text(token_str(input, &cs, toks[1]), "->") {
            let c = match parse_connection(input, &cs, &toks) {
                Ok(c) => c,
                Err(e) => {
                    proof {
                        assert(spans(toks@)[0] == (toks@[0].0 as int, toks@[0].1 as int));
                        assert(spans(toks@)[1] == (toks@[1].0 as int, toks@[1].1 as int));
                        assert(!line_ok(input@, l as int));
                    }
                    return Err(e);
                },
            };
            proof {
                assert(spans(toks@)[1] == (toks@[1].0 as int, toks@[1].1 as int));
                assert(connection_line(input@, l as int, c));
            }
            connections.push(c);
        } else if toks.len() >= 2 {
            let c = match parse_component(input, &cs, &toks) {
                Ok(c) => c,
                Err(e) => {
                    proof {
                        assert(spans(toks@)[0] == (toks@[0].0 as int, toks@[0].1 as int));
                        assert(spans(toks@)[1] == (toks@[1].0 as int, toks@[1].1 as int));
                        assert(!line_ok(input@, l as int));
                    }
                    return Err(e);
                },
            };
            proof {
                assert(component_line(input@, l as int, c));
            }
            components.push(c);
        } else {
            proof {
                assert(!line_ok(input@, l as int));
            }
            return Err(parse_error("Incomplete statement: ", token_str(input, &cs, toks[0])));
        }
        proof {
            assert(line_ok(input@, l as int));
        }
        l = l + 1;
    }
    let c = Circuit { components, connections, nets };
    Ok(c)
}

} // verus!
