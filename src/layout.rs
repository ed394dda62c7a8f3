use vstd::prelude::*;
use vstd::arithmetic::div_mod::{lemma_div_is_ordered, lemma_div_multiples_vanish, lemma_div_multiples_vanish_fancy, lemma_fundamental_div_mod};
use crate::components::{builtin_registry, find_pin, get_component_templates, pin_named, ComponentRegistry};
use crate::parser::{Circuit, Component, ComponentType, Connection};
use crate::text::same_text;

verus! {

/// A point in drawing units.
#[derive(Clone, Copy, Debug, PartialEq, Eq, Structural)]
pub struct Point {
    pub x: i64,
    pub y: i64,
}

/// A quarter-turn orientation as used by the layout.
#[derive(Clone, Copy, Debug, PartialEq, Eq, Structural)]
pub enum Rotation {
    Deg0,
    Deg90,
    Deg180,
    Deg270,
}

/// Why a layout could not be produced.
#[derive(Debug)]
pub enum LayoutError {
    /// The registry holds no geometry for this kind.
    UnknownComponentType(ComponentType),
    /// The kind is known but has no pin of this name.
    PinNotFound { component_type: ComponentType, pin: String },
    /// A connection names a component that is not in the circuit.
    DanglingConnection(String),
    /// An angle other than 0, 90, 180 or 270 degrees.
    InvalidRotation(i64),
}

/// Largest magnitude of a component position on either axis.
pub const POSITION_LIMIT: i64 = 0x1000_0000_0000_0000;

/// Largest magnitude of a pin or waypoint coordinate on either axis.
pub const PIN_LIMIT: i64 = 0x2000_0000_0000_0000;

pub open spec fn within(p: Point, limit: i64) -> bool {
    -limit <= p.x <= limit && -limit <= p.y <= limit
}

impl Rotation {
    pub open spec fn spec_degrees(self) -> int {
        match self {
            Rotation::Deg0 => 0,
            Rotation::Deg90 => 90,
            Rotation::Deg180 => 180,
            Rotation::Deg270 => 270,
        }
    }

    /// The angle in degrees.
    pub fn degrees(&self) -> (r: i64)
        ensures
            r == self.spec_degrees(),
    {
        match self {
            Rotation::Deg0 => 0,
            Rotation::Deg90 => 90,
            Rotation::Deg180 => 180,
            Rotation::Deg270 => 270,
        }
    }

    /// The rotation of the given angle; any angle but the four quarter turns is refused.
    pub fn from_degrees(d: i64) -> (r: Result<Rotation, LayoutError>)
        ensures
            match r {
                Ok(x) => x.spec_degrees() == d,
                Err(e) => e == LayoutError::InvalidRotation(d) && d != 0 && d != 90 && d != 180
                    && d != 270,
            },
    {
        if d == 0 {
            Ok(Rotation::Deg0)
        } else if d == 90 {
            Ok(Rotation::Deg90)
        } else if d == 180 {
            Ok(Rotation::Deg180)
        } else if d == 270 {
            Ok(Rotation::Deg270)
        } else {
            Err(LayoutError::InvalidRotation(d))
        }
    }
}

pub open spec fn rotation_of(r: crate::parser::Rotation) -> Rotation {
    match r {
        crate::parser::Rotation::Deg0 => Rotation::Deg0,
        crate::parser::Rotation::Deg90 => Rotation::Deg90,
        crate::parser::Rotation::Deg180 => Rotation::Deg180,
        crate::parser::Rotation::Deg270 => Rotation::Deg270,
    }
}

/// The layout's rotation for a parsed rotation.
pub fn convert_rotation(rotation: &crate::parser::Rotation) -> (r: Rotation)
    ensures
        r == rotation_of(*rotation),
{
    match rotation {
        crate::parser::Rotation::Deg0 => Rotation::Deg0,
        crate::parser::Rotation::Deg90 => Rotation::Deg90,
        crate::parser::Rotation::Deg180 => Rotation::Deg180,
        crate::parser::Rotation::Deg270 => Rotation::Deg270,
    }
}

/// An offset turned counter-clockwise by the rotation, in screen terms.
pub open spec fn rotated(x: int, y: int, r: Rotation) -> (int, int) {
    match r {
        Rotation::Deg0 => (x, y),
        Rotation::Deg90 => (-y, x),
        Rotation::Deg180 => (-x, -y),
        Rotation::Deg270 => (y, -x),
    }
}

/// Applies the quarter-turn transform to an offset.
pub fn rotate_point(x: i32, y: i32, rotation: Rotation) -> (r: (i64, i64))
    ensures
        (r.0 as int, r.1 as int) == rotated(x as int, y as int, rotation),
{
    let x = x as i64;
    let y = y as i64;
    match rotation {
        Rotation::Deg0 => (x, y),
        Rotation::Deg90 => (-y, x),
        Rotation::Deg180 => (-x, -y),
        Rotation::Deg270 => (y, -x),
    }
}

/// The offset of a named pin of a kind, as the registry gives it.
pub open spec fn pin_offset(registry: ComponentRegistry, t: ComponentType, pin: Seq<char>) -> Option<(i32, i32)> {
    match registry.lookup(t) {
        Some(tp) => match find_pin(tp.pins@, pin) {
            Some(p) => Some(p.position),
            None => None,
        },
        None => None,
    }
}

/// Where a pin lands: the base position plus the rotated offset.
pub open spec fn pin_at(base: (int, int), offset: (i32, i32), r: Rotation) -> (int, int) {
    let d = rotated(offset.0 as int, offset.1 as int, r);
    (base.0 + d.0, base.1 + d.1)
}

/// The error a pin lookup reports when the registry cannot place the pin.
pub open spec fn pin_error(registry: ComponentRegistry, t: ComponentType, pin: Seq<char>, e: LayoutError) -> bool {
    if registry.lookup(t).is_none() {
        e == LayoutError::UnknownComponentType(t)
    } else {
        e matches LayoutError::PinNotFound { component_type, pin: p } && component_type == t && p@ == pin
    }
}

/// The absolute position of a pin of a component of kind `t` placed at `base`.
pub fn resolve_pin(registry: &ComponentRegistry, t: ComponentType, pin: &str, base: Point, rotation: Rotation) -> (r: Result<Point, LayoutError>)
    requires
        within(base, POSITION_LIMIT),
    ensures
        match pin_offset(*registry, t, pin@) {
            Some(off) => r matches Ok(p) && (p.x as int, p.y as int) == pin_at((base.x as int, base.y as int), off, rotation) && within(p, PIN_LIMIT),
            None => r matches Err(e) && pin_error(*registry, t, pin@, e),
        },
{
    match registry.template_for(t) {
        None => Err(LayoutError::UnknownComponentType(t)),
        Some(tp) => match pin_named(&tp.pins, pin) {
            None => Err(LayoutError::PinNotFound { component_type: t, pin: String::from_str(pin) }),
            Some(p) => {
                let (dx, dy) = rotate_point(p.position.0, p.position.1, rotation);
                Ok(Point { x: base.x + dx, y: base.y + dy })
            },
        },
    }
}

/// Floor of `a / b` for a positive divisor.
pub fn floor_div(a: i64, b: i64) -> (r: i64)
    requires
        b > 0,
    ensures
        r as int == a as int / b as int,
{
    if a >= 0 {
        ((a as u64) / (b as u64)) as i64
    } else {
        let m: u64 = (-(a + 1)) as u64;
        let q: u64 = m / (b as u64);
        let rem: u64 = m % (b as u64);
        proof {
            lemma_fundamental_div_mod(m as int, b as int);
            assert(a as int == b as int * (-(q as int) - 1) + (b - rem - 1)) by (nonlinear_arith)
                requires
                    m as int == b as int * (q as int) + rem as int,
                    a as int == -(m as int) - 1,
            ;
            lemma_div_multiples_vanish_fancy(-(q as int) - 1, b - rem - 1, b as int);
        }
        -(q as i64) - 1
    }
}

pub open spec fn abs(v: int) -> int {
    if v < 0 { -v } else { v }
}

/// The orthogonal route between two points: half the horizontal gap, then the
/// vertical gap, then the rest; gaps of one unit or less are not walked.
pub open spec fn route(from: Point, to: Point) -> Seq<(int, int)> {
    let mid = from.x + (to.x - from.x) / 2;
    let cx = if abs(to.x - from.x) > 1 { mid } else { from.x as int };
    let first = seq![(from.x as int, from.y as int)];
    let horizontal = if abs(to.x - from.x) > 1 { first.push((mid, from.y as int)) } else { first };
    let vertical = if abs(to.y - from.y) > 1 { horizontal.push((cx, to.y as int)) } else { horizontal };
    let last = (to.x as int, to.y as int);
    if abs(to.x - cx) > 1 || vertical.last() != last { vertical.push(last) } else { vertical }
}

pub open spec fn points(path: Seq<Point>) -> Seq<(int, int)> {
    path.map_values(|p: Point| (p.x as int, p.y as int))
}

/// Routes a wire from one pin to another.
pub fn route_connection(from: Point, to: Point) -> (path: Vec<Point>)
    requires
        within(from, PIN_LIMIT),
        within(to, PIN_LIMIT),
    ensures
        points(path@) == route(from, to),
        path@.len() >= 2 || from == to,
        path@.len() >= 1,
        path@[0] == from,
        path@.last() == to,
{
    let mut path: Vec<Point> = Vec::new();
    path.push(from);
    let mut current = from;
    let dx = to.x - current.x;
    if dx > 1 || dx < -1 {
        let mid = current.x + floor_div(dx, 2);
        path.push(Point { x: mid, y: current.y });
        current.x = mid;
    }
    let dy = to.y - current.y;
    if dy > 1 || dy < -1 {
        path.push(Point { x: current.x, y: to.y });
        current.y = to.y;
    }
    let rest = to.x - current.x;
    let last = path[path.len() - 1];
    if rest > 1 || rest < -1 || last.x != to.x || last.y != to.y {
        path.push(to);
    }
    proof {
        assert(points(path@) =~= route(from, to));
    }
    path
}

/// The footprint (width, height) the registry gives a kind.
pub open spec fn footprint(registry: ComponentRegistry, t: ComponentType) -> Option<(i32, i32)> {
    match registry.lookup(t) {
        Some(x) => Some((x.width, x.height)),
        None => None,
    }
}

/// The footprint (width, height) the registry gives a kind, if it knows the kind.
pub fn get_component_size(registry: &ComponentRegistry, t: &ComponentType) -> (r: Option<(i32, i32)>)
    ensures
        r == footprint(*registry, *t),
{
    match registry.template_for(*t) {
        Some(tp) => Some((tp.width, tp.height)),
        None => None,
    }
}

/// Most components and most connections a circuit may hold. The bound keeps
/// the neighbour sums of placement, and the positions it computes, within `i64`.
pub const MAX_ITEMS: usize = 1_000_000;

/// No two components share an identifier.
pub open spec fn ids_unique(comps: Seq<Component>) -> bool {
    forall|i: int, j: int| 0 <= i < comps.len() && 0 <= j < comps.len() && i != j ==> comps[i].id@ != comps[j].id@
}

pub open spec fn has_id(comps: Seq<Component>, id: Seq<char>) -> bool {
    exists|k: int| 0 <= k < comps.len() && comps[k].id@ == id
}

/// The index of the component with this identifier.
pub open spec fn id_index(comps: Seq<Component>, id: Seq<char>) -> int {
    choose|k: int| 0 <= k < comps.len() && comps[k].id@ == id
}

/// The position already given to the component with this identifier, if any.
pub open spec fn resolved(comps: Seq<Component>, st: Seq<Option<(int, int)>>, id: Seq<char>) -> Option<(int, int)> {
    if has_id(comps, id) { st[id_index(comps, id)] } else { None }
}

pub open spec fn contribution(comps: Seq<Component>, st: Seq<Option<(int, int)>>, linked: bool, other: Seq<char>) -> (int, int, int) {
    if linked {
        match resolved(comps, st, other) {
            Some(p) => (p.0, p.1, 1),
            None => (0, 0, 0),
        }
    } else {
        (0, 0, 0)
    }
}

/// Sum of x, sum of y and number of the already-placed neighbours of `id`
/// over the first `j` connections; a neighbour counts once per wire.
pub open spec fn neighbor_total(comps: Seq<Component>, st: Seq<Option<(int, int)>>, conns: Seq<Connection>, id: Seq<char>, j: int) -> (int, int, int)
    decreases j,
{
    if j <= 0 || j > conns.len() {
        (0, 0, 0)
    } else {
        let prev = neighbor_total(comps, st, conns, id, j - 1);
        let c = conns[j - 1];
        let a = contribution(comps, st, c.from.component_id@ == id, c.to.component_id@);
        let b = contribution(comps, st, c.to.component_id@ == id, c.from.component_id@);
        (prev.0 + a.0 + b.0, prev.1 + a.1 + b.1, prev.2 + a.2 + b.2)
    }
}

/// How many of the first `i` components have an explicit position.
pub open spec fn explicit_count(comps: Seq<Component>, i: int) -> int
    decreases i,
{
    if i <= 0 || i > comps.len() {
        0
    } else {
        explicit_count(comps, i - 1) + if comps[i - 1].position.is_some() { 1int } else { 0int }
    }
}

/// The grid cell for the `c`-th placed component: ten columns of 100 units.
pub open spec fn grid_cell(c: int) -> (int, int) {
    ((c % 10) * 100, (c / 10) * 100)
}

/// Where component `i` goes when its turn comes: the mean of its placed
/// neighbours (rounded down) plus 50 on both axes, or else the next grid cell.
pub open spec fn place_step(comps: Seq<Component>, conns: Seq<Connection>, st: Seq<Option<(int, int)>>, i: int) -> (int, int) {
    let t = neighbor_total(comps, st, conns, comps[i].id@, conns.len() as int);
    if t.2 > 0 {
        (t.0 / t.2 + 50, t.1 / t.2 + 50)
    } else {
        grid_cell(explicit_count(comps, comps.len() as int) + (i - explicit_count(comps, i)))
    }
}

/// Explicit positions, before any other component is placed.
pub open spec fn initial_positions(comps: Seq<Component>) -> Seq<Option<(int, int)>> {
    Seq::new(comps.len(), |k: int| match comps[k].position {
        Some(p) => Some((p.0 as int, p.1 as int)),
        None => None,
    })
}

/// Positions after the first `i` components, in declaration order, have had their turn.
pub open spec fn placement_upto(comps: Seq<Component>, conns: Seq<Connection>, i: int) -> Seq<Option<(int, int)>>
    decreases i,
{
    if i <= 0 || i > comps.len() {
        initial_positions(comps)
    } else {
        let st = placement_upto(comps, conns, i - 1);
        if comps[i - 1].position.is_some() {
            st
        } else {
            st.update(i - 1, Some(place_step(comps, conns, st, i - 1)))
        }
    }
}

/// The position of every component, by declaration index.
pub open spec fn placement(comps: Seq<Component>, conns: Seq<Connection>) -> Seq<(int, int)> {
    placement_upto(comps, conns, comps.len() as int).map_values(|o: Option<(int, int)>| o.unwrap())
}

pub open spec fn low_bound() -> int {
    -0x8000_0000
}

pub open spec fn high_bound(n: int, i: int) -> int {
    0x8000_0000 + 50 * i + 100 * n
}

pub open spec fn bounded(st: Seq<Option<(int, int)>>, lo: int, hi: int) -> bool {
    forall|k: int| 0 <= k < st.len() ==> (#[trigger] st[k] matches Some(p) ==> lo <= p.0 <= hi && lo <= p.1 <= hi)
}

proof fn lemma_resolved_bounded(comps: Seq<Component>, st: Seq<Option<(int, int)>>, id: Seq<char>, lo: int, hi: int)
    requires
        bounded(st, lo, hi),
        st.len() == comps.len(),
    ensures
        resolved(comps, st, id) matches Some(p) ==> lo <= p.0 <= hi && lo <= p.1 <= hi,
{
    if has_id(comps, id) {
        let k = id_index(comps, id);
        assert(st[k] == resolved(comps, st, id));
    }
}

proof fn lemma_neighbor_total_bounds(comps: Seq<Component>, st: Seq<Option<(int, int)>>, conns: Seq<Connection>, id: Seq<char>, j: int, lo: int, hi: int)
    requires
        bounded(st, lo, hi),
        st.len() == comps.len(),
        lo <= 0 <= hi,
        0 <= j <= conns.len(),
    ensures
        0 <= neighbor_total(comps, st, conns, id, j).2 <= 2 * j,
        neighbor_total(comps, st, conns, id, j).2 * lo <= neighbor_total(comps, st, conns, id, j).0 <= neighbor_total(comps, st, conns, id, j).2 * hi,
        neighbor_total(comps, st, conns, id, j).2 * lo <= neighbor_total(comps, st, conns, id, j).1 <= neighbor_total(comps, st, conns, id, j).2 * hi,
    decreases j,
{
    if j > 0 {
        lemma_neighbor_total_bounds(comps, st, conns, id, j - 1, lo, hi);
        let c = conns[j - 1];
        lemma_resolved_bounded(comps, st, c.to.component_id@, lo, hi);
        lemma_resolved_bounded(comps, st, c.from.component_id@, lo, hi);
        let prev = neighbor_total(comps, st, conns, id, j - 1);
        let a = contribution(comps, st, c.from.component_id@ == id, c.to.component_id@);
        let b = contribution(comps, st, c.to.component_id@ == id, c.from.component_id@);
        assert(a.2 == 0 || a.2 == 1);
        assert(b.2 == 0 || b.2 == 1);
        assert(a.2 * lo <= a.0 <= a.2 * hi && a.2 * lo <= a.1 <= a.2 * hi);
        assert(b.2 * lo <= b.0 <= b.2 * hi && b.2 * lo <= b.1 <= b.2 * hi);
        assert((prev.2 + a.2 + b.2) * lo == prev.2 * lo + a.2 * lo + b.2 * lo) by (nonlinear_arith);
        assert((prev.2 + a.2 + b.2) * hi == prev.2 * hi + a.2 * hi + b.2 * hi) by (nonlinear_arith);
    }
}

proof fn lemma_mean_bounds(s: int, n: int, lo: int, hi: int)
    requires
        n > 0,
        n * lo <= s <= n * hi,
    ensures
        lo <= s / n <= hi,
{
    lemma_div_is_ordered(n * lo, s, n);
    lemma_div_is_ordered(s, n * hi, n);
    assert(n * lo == lo * n) by (nonlinear_arith);
    assert(n * hi == hi * n) by (nonlinear_arith);
    lemma_div_multiples_vanish(lo, n);
    lemma_div_multiples_vanish(hi, n);
}

proof fn lemma_explicit_count_le(comps: Seq<Component>, i: int)
    requires
        0 <= i <= comps.len(),
    ensures
        0 <= explicit_count(comps, i) <= i,
    decreases i,
{
    if i > 0 {
        lemma_explicit_count_le(comps, i - 1);
    }
}

proof fn lemma_step_bounds(comps: Seq<Component>, conns: Seq<Connection>, st: Seq<Option<(int, int)>>, i: int)
    requires
        0 <= i < comps.len(),
        st.len() == comps.len(),
        bounded(st, low_bound(), high_bound(comps.len() as int, i)),
    ensures
        low_bound() <= place_step(comps, conns, st, i).0 <= high_bound(comps.len() as int, i + 1),
        low_bound() <= place_step(comps, conns, st, i).1 <= high_bound(comps.len() as int, i + 1),
{
    let n = comps.len() as int;
    let hi = high_bound(n, i);
    let t = neighbor_total(comps, st, conns, comps[i].id@, conns.len() as int);
    lemma_neighbor_total_bounds(comps, st, conns, comps[i].id@, conns.len() as int, low_bound(), hi);
    if t.2 > 0 {
        lemma_mean_bounds(t.0, t.2, low_bound(), hi);
        lemma_mean_bounds(t.1, t.2, low_bound(), hi);
    } else {
        lemma_explicit_count_le(comps, n);
        lemma_explicit_count_le(comps, i);
        let c = explicit_count(comps, n) + (i - explicit_count(comps, i));
        assert(0 <= c <= 2 * n);
        assert(0 <= (c % 10) * 100 <= 900) by (nonlinear_arith)
            requires
                0 <= c,
        ;
        assert(0 <= (c / 10) * 100 <= 10 * c) by (nonlinear_arith)
            requires
                0 <= c,
        ;
    }
}

proof fn lemma_placement_facts(comps: Seq<Component>, conns: Seq<Connection>, i: int)
    requires
        0 <= i <= comps.len(),
    ensures
        placement_upto(comps, conns, i).len() == comps.len(),
        bounded(placement_upto(comps, conns, i), low_bound(), high_bound(comps.len() as int, i)),
        forall|k: int| 0 <= k < comps.len() && (k < i || comps[k].position.is_some()) ==> (#[trigger] placement_upto(comps, conns, i)[k]).is_some(),
        forall|k: int| 0 <= k < comps.len() && comps[k].position.is_some() ==> #[trigger] placement_upto(comps, conns, i)[k] == initial_positions(comps)[k],
    decreases i,
{
    let n = comps.len() as int;
    if i > 0 {
        lemma_placement_facts(comps, conns, i - 1);
        let st = placement_upto(comps, conns, i - 1);
        assert(bounded(st, low_bound(), high_bound(n, i)));
        if comps[i - 1].position.is_none() {
            lemma_step_bounds(comps, conns, st, i - 1);
        }
    } else {
        assert(bounded(initial_positions(comps), low_bound(), high_bound(n, 0)));
    }
}

/// The index of the first component with this identifier.
pub fn index_of_id(comps: &Vec<Component>, id: &str) -> (r: Option<usize>)
    ensures
        match r {
            Some(k) => k < comps@.len() && comps@[k as int].id@ == id@ && forall|j: int| 0 <= j < k ==> comps@[j].id@ != id@,
            None => !has_id(comps@, id@),
        },
{
    let mut i: usize = 0;
    while i < comps.len()
        invariant
            i <= comps@.len(),
            forall|j: int| 0 <= j < i ==> comps@[j].id@ != id@,
        decreases comps.len() - i,
    {
        if same_text(comps[i].id.as_str(), id) {
            return Some(i);
        }
        i = i + 1;
    }
    None
}

pub open spec fn opt_view(o: Option<Point>) -> Option<(int, int)> {
    match o {
        Some(p) => Some((p.x as int, p.y as int)),
        None => None,
    }
}

fn neighbor_sum(comps: &Vec<Component>, conns: &Vec<Connection>, placed: &Vec<Option<Point>>, id: &str, Ghost(st): Ghost<Seq<Option<(int, int)>>>, Ghost(hi): Ghost<int>) -> (r: (i64, i64, i64))
    requires
        ids_unique(comps@),
        placed@.len() == comps@.len(),
        st.len() == comps@.len(),
        forall|k: int| 0 <= k < st.len() ==> opt_view(#[trigger] placed@[k]) == st[k],
        bounded(st, low_bound(), hi),
        0 <= hi <= 0x1_0000_0000,
        conns@.len() <= MAX_ITEMS,
    ensures
        (r.0 as int, r.1 as int, r.2 as int) == neighbor_total(comps@, st, conns@, id@, conns@.len() as int),
{
    let mut sx: i64 = 0;
    let mut sy: i64 = 0;
    let mut n: i64 = 0;
    let mut j: usize = 0;
    while j < conns.len()
        invariant
            j <= conns@.len(),
            ids_unique(comps@),
            placed@.len() == comps@.len(),
            st.len() == comps@.len(),
            forall|k: int| 0 <= k < st.len() ==> opt_view(#[trigger] placed@[k]) == st[k],
            bounded(st, low_bound(), hi),
            0 <= hi <= 0x1_0000_0000,
            conns@.len() <= MAX_ITEMS,
            (sx as int, sy as int, n as int) == neighbor_total(comps@, st, conns@, id@, j as int),
        decreases conns.len() - j,
    {
        proof {
            lemma_neighbor_total_bounds(comps@, st, conns@, id@, j as int, low_bound(), hi);
            let t = neighbor_total(comps@, st, conns@, id@, j as int);
            assert(t.2 * hi <= 2 * MAX_ITEMS * 0x1_0000_0000) by (nonlinear_arith)
                requires
                    0 <= t.2 <= 2 * j,
                    j <= MAX_ITEMS,
                    0 <= hi <= 0x1_0000_0000,
            ;
            assert(t.2 * low_bound() >= -2 * MAX_ITEMS * 0x1_0000_0000) by (nonlinear_arith)
                requires
                    0 <= t.2 <= 2 * j,
                    j <= MAX_ITEMS,
            ;
        }
        let c = &conns[j];
        proof {
            lemma_resolved_bounded(comps@, st, c.to.component_id@, low_bound(), hi);
            lemma_resolved_bounded(comps@, st, c.from.component_id@, low_bound(), hi);
        }
        if same_text(c.from.component_id.as_str(), id) {
            match index_of_id(comps, c.to.component_id.as_str()) {
                Some(k) => {
                    proof {
                        assert(id_index(comps@, c.to.component_id@) == k);
                    }
                    if let Some(p) = placed[k] {
                        sx = sx + p.x;
                        sy = sy + p.y;
                        n = n + 1;
                    }
                },
                None => {},
            }
        }
        if same_text(c.to.component_id.as_str(), id) {
            match index_of_id(comps, c.from.component_id.as_str()) {
                Some(k) => {
                    proof {
                        assert(id_index(comps@, c.from.component_id@) == k);
                    }
                    if let Some(p) = placed[k] {
                        sx = sx + p.x;
                        sy = sy + p.y;
                        n = n + 1;
                    }
                },
                None => {},
            }
        }
        j = j + 1;
    }
    (sx, sy, n)
}

/// Gives every component one position: explicit positions are kept, and the
/// others, in declaration order, go near their already-placed neighbours or
/// else to the next grid cell.
pub fn place_components(comps: &Vec<Component>, conns: &Vec<Connection>) -> (r: Vec<Point>)
    requires
        ids_unique(comps@),
        comps@.len() <= MAX_ITEMS,
        conns@.len() <= MAX_ITEMS,
    ensures
        r@.len() == comps@.len(),
        forall|k: int| 0 <= k < r@.len() ==> (#[trigger] r@[k].x as int, r@[k].y as int) == placement(comps@, conns@)[k],
        forall|k: int| 0 <= k < r@.len() ==> within(#[trigger] r@[k], POSITION_LIMIT),
{
    let n = comps.len();
    let mut placed: Vec<Option<Point>> = Vec::new();
    let mut explicit: usize = 0;
    let mut i: usize = 0;
    while i < n
        invariant
            n == comps@.len(),
            i <= n,
            placed@.len() == i,
            explicit <= i,
            explicit as int == explicit_count(comps@, i as int),
            forall|k: int| 0 <= k < i ==> opt_view(#[trigger] placed@[k]) == initial_positions(comps@)[k],
        decreases n - i,
    {
        match comps[i].position {
            Some(p) => {
                placed.push(Some(Point { x: p.0 as i64, y: p.1 as i64 }));
                explicit = explicit + 1;
            },
            None => {
                placed.push(None);
            },
        }
        i = i + 1;
    }
    proof {
        lemma_explicit_count_le(comps@, n as int);
    }
    let mut count: usize = explicit;
    let mut before: usize = 0;
    i = 0;
    while i < n
        invariant
            n == comps@.len(),
            n <= MAX_ITEMS,
            conns@.len() <= MAX_ITEMS,
            ids_unique(comps@),
            i <= n,
            placed@.len() == n,
            explicit as int == explicit_count(comps@, n as int),
            before as int == explicit_count(comps@, i as int),
            count as int == explicit + (i - before),
            forall|k: int| 0 <= k < n ==> opt_view(#[trigger] placed@[k]) == placement_upto(comps@, conns@, i as int)[k],
        decreases n - i,
    {
        proof {
            lemma_placement_facts(comps@, conns@, i as int);
            lemma_explicit_count_le(comps@, i as int);
            lemma_explicit_count_le(comps@, n as int);
        }
        let ghost st = placement_upto(comps@, conns@, i as int);
        if comps[i].position.is_none() {
            let (sx, sy, m) = neighbor_sum(comps, conns, &placed, comps[i].id.as_str(), Ghost(st), Ghost(high_bound(n as int, i as int)));
            proof {
                lemma_step_bounds(comps@, conns@, st, i as int);
            }
            let p = if m > 0 {
                Point { x: floor_div(sx, m) + 50, y: floor_div(sy, m) + 50 }
            } else {
                Point { x: ((count % 10) * 100) as i64, y: ((count / 10) * 100) as i64 }
            };
            placed.set(i, Some(p));
            proof {
                assert(placement_upto(comps@, conns@, i + 1) == st.update(i as int, Some(place_step(comps@, conns@, st, i as int))));
            }
            count = count + 1;
        } else {
            before = before + 1;
        }
        i = i + 1;
    }
    proof {
        lemma_placement_facts(comps@, conns@, n as int);
    }
    let mut out: Vec<Point> = Vec::new();
    i = 0;
    while i < n
        invariant
            n == comps@.len(),
            n <= MAX_ITEMS,
            i <= n,
            placed@.len() == n,
            out@.len() == i,
            placement_upto(comps@, conns@, n as int).len() == n,
            bounded(placement_upto(comps@, conns@, n as int), low_bound(), high_bound(n as int, n as int)),
            forall|k: int| 0 <= k < n ==> (#[trigger] placement_upto(comps@, conns@, n as int)[k]).is_some(),
            forall|k: int| 0 <= k < n ==> opt_view(#[trigger] placed@[k]) == placement_upto(comps@, conns@, n as int)[k],
            forall|k: int| 0 <= k < i ==> (#[trigger] out@[k].x as int, out@[k].y as int) == placement(comps@, conns@)[k],
            forall|k: int| 0 <= k < i ==> within(#[trigger] out@[k], POSITION_LIMIT),
        decreases n - i,
    {
        match placed[i] {
            Some(p) => out.push(p),
            None => out.push(Point { x: 0, y: 0 }),
        }
        proof {
            assert(placement_upto(comps@, conns@, n as int)[i as int].is_some());
        }
        i = i + 1;
    }
    out
}

/// A component with its resolved position, footprint and rotation.
#[derive(Debug)]
pub struct PositionedComponent {
    pub component: Component,
    pub position: Point,
    pub size: (i32, i32),
    pub rotation: Rotation,
}

/// A routed wire: its two pin positions and the waypoints between them.
#[derive(Debug)]
pub struct PositionedConnection {
    pub from: Point,
    pub to: Point,
    pub path: Vec<Point>,
}

/// Everything a renderer needs: placed components and routed wires.
#[derive(Debug)]
pub struct Layout {
    pub components: Vec<PositionedComponent>,
    pub connections: Vec<PositionedConnection>,
    pub nets: Vec<Vec<Point>>,
}

fn copy_text(s: &Option<String>) -> (r: Option<String>)
    ensures
        r == *s,
{
    match s {
        Some(v) => Some(v.clone()),
        None => None,
    }
}

fn copy_properties(p: &Vec<(String, String)>) -> (r: Vec<(String, String)>)
    ensures
        r@ == p@,
{
    let mut out: Vec<(String, String)> = Vec::new();
    let mut i: usize = 0;
    while i < p.len()
        invariant
            i <= p@.len(),
            out@ == p@.take(i as int),
        decreases p.len() - i,
    {
        let kv = &p[i];
        out.push((kv.0.clone(), kv.1.clone()));
        i = i + 1;
        proof {
            assert(out@ =~= p@.take(i as int));
        }
    }
    proof {
        assert(p@.take(p@.len() as int) =~= p@);
    }
    out
}

/// A copy of a component with the same identifier, kind, value, label,
/// properties, position and rotation.
pub fn copy_component(c: &Component) -> (r: Component)
    ensures
        r.id == c.id,
        r.component_type == c.component_type,
        r.value == c.value,
        r.label == c.label,
        r.properties@ == c.properties@,
        r.position == c.position,
        r.rotation == c.rotation,
{
    Component {
        id: c.id.clone(),
        component_type: c.component_type,
        value: copy_text(&c.value),
        properties: copy_properties(&c.properties),
        position: c.position,
        rotation: c.rotation,
        label: copy_text(&c.label),
    }
}

/// Where an endpoint's pin lands once every component is placed.
pub open spec fn endpoint_at(registry: ComponentRegistry, comps: Seq<Component>, conns: Seq<Connection>, id: Seq<char>, pin: Seq<char>) -> (int, int) {
    let k = id_index(comps, id);
    pin_at(placement(comps, conns)[k], pin_offset(registry, comps[k].component_type, pin).unwrap(), rotation_of(comps[k].rotation))
}

/// The endpoint names an existing component that has the named pin.
pub open spec fn endpoint_ok(registry: ComponentRegistry, comps: Seq<Component>, id: Seq<char>, pin: Seq<char>) -> bool {
    has_id(comps, id) && pin_offset(registry, comps[id_index(comps, id)].component_type, pin).is_some()
}

pub open spec fn connection_ok(registry: ComponentRegistry, comps: Seq<Component>, c: Connection) -> bool {
    endpoint_ok(registry, comps, c.from.component_id@, c.from.pin@) && endpoint_ok(registry, comps, c.to.component_id@, c.to.pin@)
}

/// The error reported for a connection that cannot be laid out: a missing
/// source component, then a missing destination component, then the
/// source pin, then the destination pin.
pub open spec fn connection_error(registry: ComponentRegistry, comps: Seq<Component>, c: Connection, e: LayoutError) -> bool {
    if !has_id(comps, c.from.component_id@) {
        e == LayoutError::DanglingConnection(c.from.component_id)
    } else if !has_id(comps, c.to.component_id@) {
        e == LayoutError::DanglingConnection(c.to.component_id)
    } else if !endpoint_ok(registry, comps, c.from.component_id@, c.from.pin@) {
        pin_error(registry, comps[id_index(comps, c.from.component_id@)].component_type, c.from.pin@, e)
    } else {
        pin_error(registry, comps[id_index(comps, c.to.component_id@)].component_type, c.to.pin@, e)
    }
}

/// The registry knows the kind of every component.
pub open spec fn kinds_known(registry: ComponentRegistry, comps: Seq<Component>) -> bool {
    forall|k: int| 0 <= k < comps.len() ==> registry.lookup((#[trigger] comps[k]).component_type).is_some()
}

/// What laying out `circuit` against `registry` yields: success exactly when
/// every connection names existing components and pins the registry knows,
/// the first failing connection's error otherwise, and on success every
/// component at its placement and every wire routed between its pins.
pub open spec fn layout_result(circuit: Circuit, registry: ComponentRegistry, r: Result<Layout, LayoutError>) -> bool {
    &&& (r.is_ok() <==> kinds_known(registry, circuit.components@) && forall|j: int| 0 <= j < circuit.connections@.len() ==> connection_ok(registry, circuit.components@, #[trigger] circuit.connections@[j]))
    &&& (r matches Err(e) ==> !kinds_known(registry, circuit.components@) ==> exists|k: int| 0 <= k < circuit.components@.len() && registry.lookup((#[trigger] circuit.components@[k]).component_type).is_none()
            && (forall|q: int| 0 <= q < k ==> registry.lookup((#[trigger] circuit.components@[q]).component_type).is_some())
            && e == LayoutError::UnknownComponentType(circuit.components@[k].component_type))
    &&& (r matches Err(e) ==> kinds_known(registry, circuit.components@) ==> exists|j: int| 0 <= j < circuit.connections@.len() && !connection_ok(registry, circuit.components@, #[trigger] circuit.connections@[j]) && (forall|i: int| 0 <= i < j ==> connection_ok(registry, circuit.components@, #[trigger] circuit.connections@[i])) && connection_error(registry, circuit.components@, circuit.connections@[j], e))
    &&& (r matches Ok(l) ==> {
            let comps = circuit.components@;
            let conns = circuit.connections@;
            &&& l.components@.len() == comps.len()
            &&& forall|k: int| 0 <= k < comps.len() ==> {
                let pc = #[trigger] l.components@[k];
                &&& pc.component.id == comps[k].id
                &&& pc.component.component_type == comps[k].component_type
                &&& pc.component.value == comps[k].value
                &&& pc.component.label == comps[k].label
                &&& pc.component.properties@ == comps[k].properties@
                &&& pc.component.rotation == comps[k].rotation
                &&& pc.component.position == comps[k].position
                &&& (pc.position.x as int, pc.position.y as int) == placement(comps, conns)[k]
                &&& Some(pc.size) == footprint(registry, comps[k].component_type)
                &&& pc.rotation == rotation_of(comps[k].rotation)
            }
            &&& l.connections@.len() == conns.len()
            &&& forall|j: int| 0 <= j < conns.len() ==> {
                let pc = #[trigger] l.connections@[j];
                let c = conns[j];
                &&& (pc.from.x as int, pc.from.y as int) == endpoint_at(registry, comps, conns, c.from.component_id@, c.from.pin@)
                &&& (pc.to.x as int, pc.to.y as int) == endpoint_at(registry, comps, conns, c.to.component_id@, c.to.pin@)
                &&& points(pc.path@) == route(pc.from, pc.to)
            }
            &&& l.nets@.len() == 0
        })
}

/// Places every component, resolves both pins of every connection against the
/// given registry, and routes each connection.
pub fn calculate_layout_with(circuit: &Circuit, registry: &ComponentRegistry) -> (r: Result<Layout, LayoutError>)
    requires
        ids_unique(circuit.components@),
        circuit.components@.len() <= MAX_ITEMS,
        circuit.connections@.len() <= MAX_ITEMS,
    ensures
        layout_result(*circuit, *registry, r),
{
    let comps = &circuit.components;
    let conns = &circuit.connections;
    let positions = place_components(comps, conns);
    let mut placed: Vec<PositionedComponent> = Vec::new();
    let mut k: usize = 0;
    while k < comps.len()
        invariant
            k <= comps@.len(),
            comps@ == circuit.components@,
            positions@.len() == comps@.len(),
            placed@.len() == k,
            forall|q: int| 0 <= q < k ==> registry.lookup((#[trigger] comps@[q]).component_type).is_some(),
            forall|q: int| 0 <= q < k ==> {
                let pc = #[trigger] placed@[q];
                &&& pc.component.id == comps@[q].id
                &&& pc.component.component_type == comps@[q].component_type
                &&& pc.component.value == comps@[q].value
                &&& pc.component.label == comps@[q].label
                &&& pc.component.properties@ == comps@[q].properties@
                &&& pc.component.rotation == comps@[q].rotation
                &&& pc.component.position == comps@[q].position
                &&& pc.position == positions@[q]
                &&& Some(pc.size) == footprint(*registry, comps@[q].component_type)
                &&& pc.rotation == rotation_of(comps@[q].rotation)
            },
        decreases comps.len() - k,
    {
        let c = &comps[k];
        let size = match get_component_size(registry, &c.component_type) {
            Some(sz) => sz,
            None => {
                assert(!kinds_known(*registry, circuit.components@));
                return Err(LayoutError::UnknownComponentType(c.component_type));
            },
        };
        placed.push(PositionedComponent {
            component: copy_component(c),
            position: positions[k],
            size,
            rotation: convert_rotation(&c.rotation),
        });
        k = k + 1;
    }
    let mut routed: Vec<PositionedConnection> = Vec::new();
    let mut j: usize = 0;
    while j < conns.len()
        invariant
            j <= conns@.len(),
            conns@ == circuit.connections@,
            comps@ == circuit.components@,
            ids_unique(comps@),
            positions@.len() == comps@.len(),
            forall|q: int| 0 <= q < positions@.len() ==> (#[trigger] positions@[q].x as int, positions@[q].y as int) == placement(comps@, conns@)[q],
            forall|q: int| 0 <= q < positions@.len() ==> within(#[trigger] positions@[q], POSITION_LIMIT),
            routed@.len() == j,
            kinds_known(*registry, circuit.components@),
            forall|i: int| 0 <= i < j ==> connection_ok(*registry, comps@, #[trigger] conns@[i]),
            forall|i: int| 0 <= i < j ==> {
                let pc = #[trigger] routed@[i];
                let c = conns@[i];
                &&& (pc.from.x as int, pc.from.y as int) == endpoint_at(*registry, comps@, conns@, c.from.component_id@, c.from.pin@)
                &&& (pc.to.x as int, pc.to.y as int) == endpoint_at(*registry, comps@, conns@, c.to.component_id@, c.to.pin@)
                &&& points(pc.path@) == route(pc.from, pc.to)
            },
        decreases conns.len() - j,
    {
        let c = &conns[j];
        let kf = match index_of_id(comps, c.from.component_id.as_str()) {
            Some(x) => x,
            None => {
                assert(!connection_ok(*registry, circuit.components@, circuit.connections@[j as int]));
                return Err(LayoutError::DanglingConnection(c.from.component_id.clone()));
            },
        };
        let kt = match index_of_id(comps, c.to.component_id.as_str()) {
            Some(x) => x,
            None => {
                assert(!connection_ok(*registry, circuit.components@, circuit.connections@[j as int]));
                return Err(LayoutError::DanglingConnection(c.to.component_id.clone()));
            },
        };
        proof {
            assert(id_index(comps@, c.from.component_id@) == kf);
            assert(id_index(comps@, c.to.component_id@) == kt);
        }
        let from_comp = &comps[kf];
        let to_comp = &comps[kt];
        let from = match resolve_pin(registry, from_comp.component_type, c.from.pin.as_str(), positions[kf], convert_rotation(&from_comp.rotation)) {
            Ok(p) => p,
            Err(e) => {
                return Err(e);
            },
        };
        let to = match resolve_pin(registry, to_comp.component_type, c.to.pin.as_str(), positions[kt], convert_rotation(&to_comp.rotation)) {
            Ok(p) => p,
            Err(e) => {
                return Err(e);
            },
        };
        let path = route_connection(from, to);
        routed.push(PositionedConnection { from, to, path });
        j = j + 1;
    }
    Ok(Layout { components: placed, connections: routed, nets: Vec::new() })
}

/// Placement is total: every component, by declaration index, gets exactly one
/// position, and a component with an explicit position keeps it verbatim.
pub proof fn lemma_placement_total(comps: Seq<Component>, conns: Seq<Connection>)
    ensures
        placement(comps, conns).len() == comps.len(),
        forall|k: int| 0 <= k < comps.len() ==> (#[trigger] placement_upto(comps, conns, comps.len() as int)[k]).is_some(),
        forall|k: int| 0 <= k < comps.len() && comps[k].position.is_some() ==> #[trigger] placement(comps, conns)[k] == (comps[k].position.unwrap().0 as int, comps[k].position.unwrap().1 as int),
{
    lemma_placement_facts(comps, conns, comps.len() as int);
    assert forall|k: int| 0 <= k < comps.len() && comps[k].position.is_some() implies #[trigger] placement(comps, conns)[k] == (comps[k].position.unwrap().0 as int, comps[k].position.unwrap().1 as int) by {
        assert(placement_upto(comps, conns, comps.len() as int)[k] == initial_positions(comps)[k]);
    }
}

/// Placement depends on nothing but the components in declaration order and
/// the connections: the same input always gives the same coordinates.
pub proof fn lemma_placement_deterministic(a: Seq<Component>, b: Seq<Component>, conns_a: Seq<Connection>, conns_b: Seq<Connection>)
    requires
        a == b,
        conns_a == conns_b,
    ensures
        placement(a, conns_a) == placement(b, conns_b),
{
}

/// Every route starts exactly at its source point and ends exactly at its destination.
pub proof fn lemma_route_endpoints(from: Point, to: Point)
    ensures
        route(from, to).len() >= 2 || from == to,
        route(from, to)[0] == (from.x as int, from.y as int),
        route(from, to).last() == (to.x as int, to.y as int),
{
}

/// Lays out a circuit against the built-in registry, which knows every kind
/// with the pins `kind_pins` lists.
pub fn calculate_layout(circuit: &Circuit) -> (r: Result<Layout, LayoutError>)
    requires
        ids_unique(circuit.components@),
        circuit.components@.len() <= MAX_ITEMS,
        circuit.connections@.len() <= MAX_ITEMS,
    ensures
        exists|registry: ComponentRegistry| builtin_registry(registry) && layout_result(*circuit, registry, r),
{
    let registry = get_component_templates();
    calculate_layout_with(circuit, &registry)
}

/// The identifier that two components share, if any.
pub fn duplicate_id(comps: &Vec<Component>) -> (r: Option<String>)
    ensures
        r.is_none() <==> ids_unique(comps@),
        r matches Some(id) ==> exists|i: int, j: int| 0 <= i < j < comps@.len() && comps@[i].id@ == id@ && comps@[j].id@ == id@,
{
    let mut j: usize = 0;
    while j < comps.len()
        invariant
            j <= comps@.len(),
            forall|p: int, q: int| 0 <= p < q < j ==> comps@[p].id@ != comps@[q].id@,
        decreases comps.len() - j,
    {
        let mut i: usize = 0;
        while i < j
            invariant
                i <= j < comps@.len(),
                forall|p: int, q: int| 0 <= p < q < j ==> comps@[p].id@ != comps@[q].id@,
                forall|p: int| 0 <= p < i ==> comps@[p].id@ != comps@[j as int].id@,
            decreases j - i,
        {
            if same_text(comps[i].id.as_str(), comps[j].id.as_str()) {
                return Some(comps[j].id.clone());
            }
            i = i + 1;
        }
        j = j + 1;
    }
    proof {
        assert forall|p: int, q: int| 0 <= p < comps@.len() && 0 <= q < comps@.len() && p != q implies comps@[p].id@ != comps@[q].id@ by {
            if p > q {
                assert(comps@[q].id@ != comps@[p].id@);
            }
        }
    }
    None
}

/// With unique identifiers, a placed list that keeps the components in
/// declaration order holds every component's identifier exactly once.
pub proof fn lemma_each_id_placed_once(comps: Seq<Component>, placed: Seq<PositionedComponent>)
    requires
        ids_unique(comps),
        placed.len() == comps.len(),
        forall|k: int| 0 <= k < comps.len() ==> (#[trigger] placed[k]).component.id == comps[k].id,
    ensures
        forall|k: int| 0 <= k < comps.len() ==> {
            &&& placed[k].component.id@ == (#[trigger] comps[k]).id@
            &&& forall|j: int| 0 <= j < placed.len() && placed[j].component.id@ == comps[k].id@ ==> j == k
        },
{
    assert forall|k: int| 0 <= k < comps.len() implies {
        &&& placed[k].component.id@ == (#[trigger] comps[k]).id@
        &&& forall|j: int| 0 <= j < placed.len() && placed[j].component.id@ == comps[k].id@ ==> j == k
    } by {
        assert(placed[k].component.id == comps[k].id);
        assert forall|j: int| 0 <= j < placed.len() && placed[j].component.id@ == comps[k].id@ implies j == k by {
            assert(placed[j].component.id == comps[j].id);
        }
    }
}

/// Every segment of a route runs horizontally or vertically, up to the
/// one-unit tolerance below which gaps are not walked.
pub proof fn lemma_route_orthogonal(from: Point, to: Point)
    ensures
        forall|k: int| 0 <= k < route(from, to).len() - 1 ==> abs(#[trigger] route(from, to)[k].0 - route(from, to)[k + 1].0) <= 1
            || abs(route(from, to)[k].1 - route(from, to)[k + 1].1) <= 1,
{
}

} // verus!
