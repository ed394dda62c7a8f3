pub mod components;
pub mod layout;
pub mod netlist;
pub mod parser;
pub mod renderer;
pub mod text;
pub mod validator;
pub mod words;

use vstd::prelude::*;
use crate::components::{all_types, builtin_registry, get_component_list, kind_key, ComponentRegistry};
use crate::layout::{calculate_layout, duplicate_id, ids_unique, layout_result, Layout, LayoutError, MAX_ITEMS};
use crate::parser::{line_ok, lines_of, parse_cdl, parsed_from, Circuit, ParseError};
use crate::renderer::{render_to_svg, svg_text, RenderError, SvgStyle, SvgTheme};
use crate::validator::{circuit_valid, validate, ValidationError};

verus! {

/// Why a description could not be turned into a drawing or checked.
#[derive(Debug)]
pub enum CdlError {
    Parse(ParseError),
    Layout(LayoutError),
    Render(RenderError),
    Validation(ValidationError),
    /// Two components share this identifier.
    DuplicateComponent(String),
    /// More components or connections than the layout accepts.
    TooLarge,
}

/// A circuit the layout engine accepts: distinct identifiers and sizes within bounds.
pub open spec fn layout_input_ok(c: Circuit) -> bool {
    ids_unique(c.components@) && c.components@.len() <= MAX_ITEMS && c.connections@.len() <= MAX_ITEMS
}

/// Checks that a parsed circuit can go to the layout engine.
pub fn check_layout_input(circuit: &Circuit) -> (r: Result<(), CdlError>)
    ensures
        r.is_ok() <==> layout_input_ok(*circuit),
        r matches Err(e) ==> (e matches CdlError::DuplicateComponent(_) || e matches CdlError::TooLarge),
{
    if circuit.components.len() > MAX_ITEMS || circuit.connections.len() > MAX_ITEMS {
        return Err(CdlError::TooLarge);
    }
    match duplicate_id(&circuit.components) {
        Some(id) => Err(CdlError::DuplicateComponent(id)),
        None => Ok(()),
    }
}

/// Reads a description, lays it out and draws it as SVG.
pub fn parse_and_render(cdl_text: &str, theme: SvgTheme, style: SvgStyle) -> (r: Result<String, CdlError>)
    ensures
        r matches Ok(s) ==> exists|c: Circuit, registry: ComponentRegistry, l: Layout| parsed_from(cdl_text@, c) && layout_input_ok(c)
            && builtin_registry(registry) && layout_result(c, registry, Ok(l)) && s@ == svg_text(l, theme, style),
        (r matches Err(CdlError::Parse(_))) <==> !forall|l: int| 0 <= l < lines_of(cdl_text@).len() ==> #[trigger] line_ok(cdl_text@, l),
        (r matches Err(CdlError::DuplicateComponent(_)) || r matches Err(CdlError::TooLarge)) ==> exists|c: Circuit| parsed_from(cdl_text@, c) && !layout_input_ok(c),
        r matches Err(CdlError::Layout(e)) ==> exists|c: Circuit, registry: ComponentRegistry| parsed_from(cdl_text@, c) && layout_input_ok(c)
            && builtin_registry(registry) && layout_result(c, registry, Err(e)),
        !(r matches Err(CdlError::Render(_))),
        !(r matches Err(CdlError::Validation(_))),
{
    let circuit = match parse_cdl(cdl_text) {
        Ok(c) => c,
        Err(e) => {
            return Err(CdlError::Parse(e));
        },
    };
    match check_layout_input(&circuit) {
        Ok(()) => {},
        Err(e) => {
            assert(parsed_from(cdl_text@, circuit) && !layout_input_ok(circuit));
            return Err(e);
        },
    }
    let laid = calculate_layout(&circuit);
    let ghost registry = choose|registry: ComponentRegistry| builtin_registry(registry) && layout_result(circuit, registry, laid);
    let layout = match laid {
        Ok(l) => l,
        Err(e) => {
            assert(parsed_from(cdl_text@, circuit) && layout_input_ok(circuit) && builtin_registry(registry) && layout_result(circuit, registry, Err(e)));
            return Err(CdlError::Layout(e));
        },
    };
    match render_to_svg(&layout, theme, style) {
        Ok(s) => {
            proof {
                assert(parsed_from(cdl_text@, circuit) && layout_input_ok(circuit) && builtin_registry(registry) && layout_result(circuit, registry, Ok(layout)) && s@ == svg_text(layout, theme, style));
            }
            Ok(s)
        },
        Err(e) => Err(CdlError::Render(e)),
    }
}

/// Reads a description and checks its values and connections.
pub fn validate_circuit(cdl_text: &str) -> (r: Result<(), CdlError>)
    ensures
        r matches Err(CdlError::Validation(_)) || r matches Err(CdlError::Parse(_)) || r.is_ok(),
        (r matches Err(CdlError::Parse(_))) <==> !forall|l: int| 0 <= l < lines_of(cdl_text@).len() ==> #[trigger] line_ok(cdl_text@, l),
        r.is_ok() ==> exists|c: Circuit| circuit_valid(c) && parsed_from(cdl_text@, c),
        r matches Err(CdlError::Validation(_)) ==> exists|c: Circuit| !circuit_valid(c) && parsed_from(cdl_text@, c),
{
    let circuit = match parse_cdl(cdl_text) {
        Ok(c) => c,
        Err(e) => {
            return Err(CdlError::Parse(e));
        },
    };
    match validate(&circuit) {
        Ok(()) => Ok(()),
        Err(e) => Err(CdlError::Validation(e)),
    }
}

/// The registry key of every component kind.
pub fn list_components() -> (r: Vec<String>)
    ensures
        r@.len() == all_types().len(),
        forall|k: int| 0 <= k < r@.len() ==> (#[trigger] r@[k])@ == kind_key(all_types()[k]),
{
    get_component_list()
}

} // verus!
