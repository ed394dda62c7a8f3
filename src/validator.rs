use vstd::prelude::*;
use crate::layout::{has_id, index_of_id};
use crate::parser::{variant_name, Circuit, Component, ComponentType, Connection};
use crate::text::same_text;
use crate::components::{kind_pins, pin_view, pins_of, pins_view};

verus! {

/// Why a circuit was rejected.
#[derive(Debug)]
pub struct ValidationError {
    pub message: String,
    pub component_id: Option<String>,
    pub connection_id: Option<String>,
}

/// A character that may appear in a passive component's value.
pub open spec fn value_char(c: char) -> bool {
    ('0' <= c && c <= '9') || c == '.' || c == 'k' || c == 'M' || c == 'm' || c == 'u' || c == '\u{b5}'
        || c == 'p' || c == 'n'
}

pub open spec fn has_char(s: Seq<char>, c: char) -> bool {
    exists|i: int| 0 <= i < s.len() && s[i] == c
}

/// Whether a value is acceptable for a kind: a passive value holds a digit,
/// point or unit letter; a voltage source names volts; a current source amperes.
pub open spec fn value_ok(t: ComponentType, v: Seq<char>) -> bool {
    match t {
        ComponentType::Resistor | ComponentType::Capacitor | ComponentType::Inductor
        | ComponentType::Potentiometer => exists|i: int| 0 <= i < v.len() && value_char(#[trigger] v[i]),
        ComponentType::DcVoltage | ComponentType::AcVoltage => has_char(v, 'V') || has_char(v, 'v'),
        ComponentType::DcCurrent | ComponentType::AcCurrent => has_char(v, 'A') || has_char(v, 'a'),
        _ => true,
    }
}

/// The kind's built-in template has a pin of this name.
pub open spec fn pin_listed(t: ComponentType, p: Seq<char>) -> bool {
    exists|q: int| 0 <= q < kind_pins(t).len() && (#[trigger] kind_pins(t)[q]).0 == p
}

/// Whether the component's kind has a pin of this name in the built-in registry.
pub fn has_pin(component: &Component, pin_name: &str) -> (r: bool)
    ensures
        r == pin_listed(component.component_type, pin_name@),
{
    let pins = pins_of(component.component_type);
    let mut i: usize = 0;
    while i < pins.len()
        invariant
            pins_view(pins@) == kind_pins(component.component_type),
            i <= pins@.len(),
            forall|q: int| 0 <= q < i ==> (#[trigger] kind_pins(component.component_type)[q]).0 != pin_name@,
        decreases pins.len() - i,
    {
        proof {
            assert(pins_view(pins@)[i as int] == pin_view(pins@[i as int]));
        }
        if same_text(pins[i].name.as_str(), pin_name) {
            return true;
        }
        i = i + 1;
    }
    false
}

fn contains_char(s: &str, c: char) -> (r: bool)
    ensures
        r == has_char(s@, c),
{
    let n = s.unicode_len();
    let mut i: usize = 0;
    while i < n
        invariant
            n == s@.len(),
            i <= n,
            forall|q: int| 0 <= q < i ==> s@[q] != c,
        decreases n - i,
    {
        if s.get_char(i) == c {
            return true;
        }
        i = i + 1;
    }
    false
}

fn any_value_char(s: &str) -> (r: bool)
    ensures
        r == exists|i: int| 0 <= i < s@.len() && value_char(#[trigger] s@[i]),
{
    let n = s.unicode_len();
    let mut i: usize = 0;
    while i < n
        invariant
            n == s@.len(),
            i <= n,
            forall|q: int| 0 <= q < i ==> !value_char(#[trigger] s@[q]),
        decreases n - i,
    {
        let c = s.get_char(i);
        if ('0' <= c && c <= '9') || c == '.' || c == 'k' || c == 'M' || c == 'm' || c == 'u' || c == '\u{b5}' || c == 'p' || c == 'n' {
            return true;
        }
        i = i + 1;
    }
    false
}

/// The message for a value that does not suit its kind.
pub open spec fn value_message(t: ComponentType, v: Seq<char>) -> Seq<char> {
    "Invalid value format for component type "@ + variant_name(t) + ": "@ + v
}

/// Checks a value's format against its kind.
pub fn validate_component_value(value: &str, component_type: &ComponentType) -> (r: Result<(), ValidationError>)
    ensures
        match r {
            Ok(()) => value_ok(*component_type, value@),
            Err(e) => !value_ok(*component_type, value@) && e.message@ == value_message(*component_type, value@)
                && e.component_id.is_none() && e.connection_id.is_none(),
        },
{
    let valid = match component_type {
        ComponentType::Resistor | ComponentType::Capacitor | ComponentType::Inductor
        | ComponentType::Potentiometer => any_value_char(value),
        ComponentType::DcVoltage | ComponentType::AcVoltage => contains_char(value, 'V') || contains_char(value, 'v'),
        ComponentType::DcCurrent | ComponentType::AcCurrent => contains_char(value, 'A') || contains_char(value, 'a'),
        _ => true,
    };
    if !valid {
        let mut message = String::from_str("Invalid value format for component type ");
        message.append(component_type.variant());
        message.append(": ");
        message.append(value);
        return Err(ValidationError { message, component_id: None, connection_id: None });
    }
    Ok(())
}

pub open spec fn component_ok(c: Component) -> bool {
    c.value matches Some(v) ==> value_ok(c.component_type, v@)
}

/// Checks one component: every kind is known, and a value, if given, must suit the kind.
pub fn validate_component(component: &Component) -> (r: Result<(), ValidationError>)
    ensures
        match r {
            Ok(()) => component_ok(*component),
            Err(e) => !component_ok(*component) && e.message@ == value_message(component.component_type, component.value.unwrap()@),
        },
{
    match &component.value {
        Some(v) => validate_component_value(v.as_str(), &component.component_type),
        None => Ok(()),
    }
}

/// The index of the first component with this identifier.
pub open spec fn first_index(comps: Seq<Component>, id: Seq<char>) -> int {
    choose|k: int| 0 <= k < comps.len() && comps[k].id@ == id && forall|j: int| 0 <= j < k ==> comps[j].id@ != id
}

/// Both components exist, and the first component of each identifier has the pin.
#[verifier::opaque]
pub open spec fn connection_valid(comps: Seq<Component>, c: Connection) -> bool {
    &&& has_id(comps, c.from.component_id@)
    &&& has_id(comps, c.to.component_id@)
    &&& pin_listed(comps[first_index(comps, c.from.component_id@)].component_type, c.from.pin@)
    &&& pin_listed(comps[first_index(comps, c.to.component_id@)].component_type, c.to.pin@)
}

/// The message for a connection that is not valid.
#[verifier::opaque]
pub open spec fn connection_message(comps: Seq<Component>, c: Connection) -> Seq<char> {
    if !has_id(comps, c.from.component_id@) {
        "Connection references non-existent component: "@ + c.from.component_id@
    } else if !has_id(comps, c.to.component_id@) {
        "Connection references non-existent component: "@ + c.to.component_id@
    } else if !pin_listed(comps[first_index(comps, c.from.component_id@)].component_type, c.from.pin@) {
        "Component "@ + c.from.component_id@ + " does not have pin "@ + c.from.pin@
    } else {
        "Component "@ + c.to.component_id@ + " does not have pin "@ + c.to.pin@
    }
}

fn connection_label(connection: &Connection) -> (r: String)
    ensures
        r@ == connection.from.component_id@ + "->"@ + connection.to.component_id@,
{
    let mut s = connection.from.component_id.clone();
    s.append("->");
    s.append(connection.to.component_id.as_str());
    s
}

/// Checks that a connection's components exist and have the named pins.
pub fn validate_connection(connection: &Connection, circuit: &Circuit) -> (r: Result<(), ValidationError>)
    ensures
        match r {
            Ok(()) => connection_valid(circuit.components@, *connection),
            Err(e) => !connection_valid(circuit.components@, *connection) && e.message@ == connection_message(circuit.components@, *connection),
        },
{
    proof {
        reveal(connection_valid);
        reveal(connection_message);
    }
    let comps = &circuit.components;
    let from = match index_of_id(comps, connection.from.component_id.as_str()) {
        Some(k) => k,
        None => {
            let mut message = String::from_str("Connection references non-existent component: ");
            message.append(connection.from.component_id.as_str());
            return Err(ValidationError {
                message,
                component_id: Some(connection.from.component_id.clone()),
                connection_id: Some(connection_label(connection)),
            });
        },
    };
    let to = match index_of_id(comps, connection.to.component_id.as_str()) {
        Some(k) => k,
        None => {
            let mut message = String::from_str("Connection references non-existent component: ");
            message.append(connection.to.component_id.as_str());
            return Err(ValidationError {
                message,
                component_id: Some(connection.to.component_id.clone()),
                connection_id: Some(connection_label(connection)),
            });
        },
    };
    proof {
        let kf = first_index(comps@, connection.from.component_id@);
        let kt = first_index(comps@, connection.to.component_id@);
        assert(0 <= from < comps@.len() && comps@[from as int].id@ == connection.from.component_id@ && forall|j: int| 0 <= j < from ==> comps@[j].id@ != connection.from.component_id@);
        assert(kf == from);
        assert(0 <= to < comps@.len() && comps@[to as int].id@ == connection.to.component_id@ && forall|j: int| 0 <= j < to ==> comps@[j].id@ != connection.to.component_id@);
        assert(kt == to);
    }
    if !has_pin(&comps[from], connection.from.pin.as_str()) {
        let mut message = String::from_str("Component ");
        message.append(comps[from].id.as_str());
        message.append(" does not have pin ");
        message.append(connection.from.pin.as_str());
        return Err(ValidationError {
            message,
            component_id: Some(comps[from].id.clone()),
            connection_id: Some(connection_label(connection)),
        });
    }
    if !has_pin(&comps[to], connection.to.pin.as_str()) {
        let mut message = String::from_str("Component ");
        message.append(comps[to].id.as_str());
        message.append(" does not have pin ");
        message.append(connection.to.pin.as_str());
        return Err(ValidationError {
            message,
            component_id: Some(comps[to].id.clone()),
            connection_id: Some(connection_label(connection)),
        });
    }
    Ok(())
}

/// Every component's value suits its kind and every connection is valid.
pub open spec fn circuit_valid(circuit: Circuit) -> bool {
    &&& forall|k: int| 0 <= k < circuit.components@.len() ==> component_ok(#[trigger] circuit.components@[k])
    &&& forall|j: int| 0 <= j < circuit.connections@.len() ==> connection_valid(circuit.components@, #[trigger] circuit.connections@[j])
}

/// Checks every component, then every connection, and reports the first problem.
pub fn validate(circuit: &Circuit) -> (r: Result<(), ValidationError>)
    ensures
        r.is_ok() <==> circuit_valid(*circuit),
        r matches Err(e) ==> (exists|k: int| 0 <= k < circuit.components@.len() && !component_ok(#[trigger] circuit.components@[k])
            && (forall|q: int| 0 <= q < k ==> component_ok(#[trigger] circuit.components@[q]))
            && e.message@ == value_message(circuit.components@[k].component_type, circuit.components@[k].value.unwrap()@))
            || ((forall|q: int| 0 <= q < circuit.components@.len() ==> component_ok(#[trigger] circuit.components@[q]))
            && exists|j: int| 0 <= j < circuit.connections@.len() && !connection_valid(circuit.components@, #[trigger] circuit.connections@[j])
            && (forall|q: int| 0 <= q < j ==> connection_valid(circuit.components@, #[trigger] circuit.connections@[q]))
            && e.message@ == connection_message(circuit.components@, circuit.connections@[j])),
{
    let mut k: usize = 0;
    while k < circuit.components.len()
        invariant
            k <= circuit.components@.len(),
            forall|q: int| 0 <= q < k ==> component_ok(#[trigger] circuit.components@[q]),
        decreases circuit.components.len() - k,
    {
        match validate_component(&circuit.components[k]) {
            Ok(()) => {},
            Err(e) => {
                assert(!component_ok(circuit.components@[k as int]));
                return Err(e);
            },
        }
        k = k + 1;
    }
    let mut j: usize = 0;
    while j < circuit.connections.len()
        invariant
            j <= circuit.connections@.len(),
            forall|q: int| 0 <= q < circuit.components@.len() ==> component_ok(#[trigger] circuit.components@[q]),
            forall|q: int| 0 <= q < j ==> connection_valid(circuit.components@, #[trigger] circuit.connections@[q]),
        decreases circuit.connections.len() - j,
    {
        match validate_connection(&circuit.connections[j], circuit) {
            Ok(()) => {},
            Err(e) => {
                assert(!connection_valid(circuit.components@, circuit.connections@[j as int]));
                return Err(e);
            },
        }
        j = j + 1;
    }
    Ok(())
}

} // verus!
