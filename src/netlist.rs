use vstd::prelude::*;
use crate::layout::{has_id, id_index, ids_unique, index_of_id, MAX_ITEMS};
use crate::parser::{is_ground_type, variant_name, Circuit, Component, ComponentType, ConnectionPoint};
use crate::text::{decimal, decimal_text, digit_char, same_text, trim_of, trimmed_text};
use crate::parser::chars_of;

verus! {

/// The pin a connection point names, as (component identifier, pin name).
pub open spec fn key_of(cp: ConnectionPoint) -> (Seq<char>, Seq<char>) {
    (cp.component_id@, cp.pin@)
}

/// The pin belongs to a ground component of the circuit.
pub open spec fn is_ground_pin(circuit: Circuit, k: (Seq<char>, Seq<char>)) -> bool {
    has_id(circuit.components@, k.0) && is_ground_type(circuit.components@[id_index(circuit.components@, k.0)].component_type)
}

/// The canonical net of every pin: `pins[i]` belongs to net `nets[i]`.
pub struct NetMap {
    pub pins: Vec<ConnectionPoint>,
    pub nets: Vec<String>,
    /// The equivalence class of each pin; pins of one class share a net.
    pub classes: Vec<usize>,
}

pub open spec fn keys_distinct(pins: Seq<ConnectionPoint>) -> bool {
    forall|i: int, j: int| 0 <= i < pins.len() && 0 <= j < pins.len() && i != j ==> key_of(pins[i]) != key_of(pins[j])
}

impl NetMap {
    /// One entry per pin, each pin listed once.
    pub open spec fn wf(&self) -> bool {
        &&& self.pins@.len() == self.nets@.len()
        &&& self.pins@.len() == self.classes@.len()
        &&& keys_distinct(self.pins@)
        &&& forall|a: int, b: int| 0 <= a < self.pins@.len() && 0 <= b < self.pins@.len() && #[trigger] self.classes@[a] == #[trigger] self.classes@[b] ==> self.nets@[a]@ == self.nets@[b]@
    }

    pub open spec fn has(&self, k: (Seq<char>, Seq<char>)) -> bool {
        exists|i: int| 0 <= i < self.pins@.len() && key_of(self.pins@[i]) == k
    }

    /// The net of a listed pin.
    pub open spec fn net(&self, k: (Seq<char>, Seq<char>)) -> Seq<char> {
        self.nets@[choose|i: int| 0 <= i < self.pins@.len() && key_of(self.pins@[i]) == k]@
    }

    /// The net id of a pin, if the map lists it.
    pub fn net_of(&self, component_id: &str, pin: &str) -> (r: Option<String>)
        requires
            self.wf(),
        ensures
            match r {
                Some(s) => self.has((component_id@, pin@)) && s@ == self.net((component_id@, pin@)),
                None => !self.has((component_id@, pin@)),
            },
    {
        let mut i: usize = 0;
        while i < self.pins.len()
            invariant
                self.wf(),
                i <= self.pins@.len(),
                forall|q: int| 0 <= q < i ==> key_of(#[trigger] self.pins@[q]) != (component_id@, pin@),
            decreases self.pins.len() - i,
        {
            if same_text(self.pins[i].component_id.as_str(), component_id) && same_text(self.pins[i].pin.as_str(), pin) {
                proof {
                    lemma_net_at(*self, i as int);
                }
                return Some(self.nets[i].clone());
            }
            i = i + 1;
        }
        None
    }
}

/// In a well-formed map the net of the pin at index `i` is `nets[i]`.
pub proof fn lemma_net_at(m: NetMap, i: int)
    requires
        m.wf(),
        0 <= i < m.pins@.len(),
    ensures
        m.has(key_of(m.pins@[i])),
        m.net(key_of(m.pins@[i])) == m.nets@[i]@,
{
    let k = key_of(m.pins@[i]);
    assert(0 <= i < m.pins@.len() && key_of(m.pins@[i]) == k);
    let c = choose|q: int| 0 <= q < m.pins@.len() && key_of(m.pins@[q]) == k;
    assert(c == i);
}

/// What the resolver guarantees of its result for a circuit: every wire's
/// endpoints share a net, every declared net's members share a net, every pin
/// of a ground component is on net "0", pins share a class only when a walk of
/// wires and declarations joins them, and every net id is as
/// `named_as_specified` says.
#[verifier::opaque]
pub open spec fn nets_resolved(circuit: Circuit, m: NetMap) -> bool {
    &&& m.wf()
    &&& forall|j: int| 0 <= j < circuit.connections@.len() ==> {
        let c = #[trigger] circuit.connections@[j];
        &&& m.has(key_of(c.from))
        &&& m.has(key_of(c.to))
        &&& m.net(key_of(c.from)) == m.net(key_of(c.to))
    }
    &&& forall|d: int, q: int| 0 <= d < circuit.nets@.len() && 0 <= q < circuit.nets@[d].nodes@.len() ==> {
        &&& m.has(key_of(#[trigger] circuit.nets@[d].nodes@[q]))
        &&& m.net(key_of(circuit.nets@[d].nodes@[q])) == m.net(key_of(circuit.nets@[d].nodes@[0]))
    }
    &&& forall|i: int| 0 <= i < m.pins@.len() && is_ground_pin(circuit, key_of(#[trigger] m.pins@[i])) ==> m.nets@[i]@ == "0"@
    &&& forall|a: int, b: int| 0 <= a < m.pins@.len() && 0 <= b < m.pins@.len() && #[trigger] m.classes@[a] == #[trigger] m.classes@[b] ==> exists|w: Seq<PinKey>| walk(circuit, w, key_of(m.pins@[a]), key_of(m.pins@[b]))
    &&& forall|a: int| 0 <= a < m.pins@.len() ==> named_as_specified(circuit, m.pins@, m.classes@, a, (#[trigger] m.nets@[a])@)
    &&& forall|g: int| 0 <= g < circuit.components@.len() && is_ground_type(#[trigger] circuit.components@[g].component_type) ==> m.has((circuit.components@[g].id@, "GND"@))
    &&& forall|j: int| 0 <= j < circuit.connections@.len() ==> class_of(m.pins@, m.classes@, key_of((#[trigger] circuit.connections@[j]).from))
        == class_of(m.pins@, m.classes@, key_of(circuit.connections@[j].to))
    &&& forall|d: int, q: int| 0 <= d < circuit.nets@.len() && 0 <= q < circuit.nets@[d].nodes@.len() ==> class_of(m.pins@, m.classes@, key_of(#[trigger] circuit.nets@[d].nodes@[q]))
        == class_of(m.pins@, m.classes@, key_of(circuit.nets@[d].nodes@[0]))
    &&& forall|a: int| 0 <= a < m.pins@.len() && !class_grounded(circuit, m.pins@, m.classes@, a) && first_decl(circuit, m.pins@, m.classes@, (#[trigger] m.classes@[a]) as int, 0).is_none()
        ==> exists|j: int| 0 <= j < circuit.connections@.len() && wire_class(circuit, m.pins@, m.classes@, j) == m.classes@[a] as int
}

fn find_node(nodes: &Vec<ConnectionPoint>, id: &str, pin: &str) -> (r: Option<usize>)
    ensures
        match r {
            Some(i) => i < nodes@.len() && key_of(nodes@[i as int]) == (id@, pin@),
            None => forall|q: int| 0 <= q < nodes@.len() ==> key_of(#[trigger] nodes@[q]) != (id@, pin@),
        },
{
    let mut i: usize = 0;
    while i < nodes.len()
        invariant
            i <= nodes@.len(),
            forall|q: int| 0 <= q < i ==> key_of(#[trigger] nodes@[q]) != (id@, pin@),
        decreases nodes.len() - i,
    {
        if same_text(nodes[i].component_id.as_str(), id) && same_text(nodes[i].pin.as_str(), pin) {
            return Some(i);
        }
        i = i + 1;
    }
    None
}

fn copy_point(cp: &ConnectionPoint) -> (r: ConnectionPoint)
    ensures
        key_of(r) == key_of(*cp),
{
    ConnectionPoint { component_id: cp.component_id.clone(), pin: cp.pin.clone() }
}

/// Moves every node of class `from` into class `to`.
fn relabel(class: &mut Vec<usize>, from: usize, to: usize)
    ensures
        final(class)@.len() == old(class)@.len(),
        forall|i: int| 0 <= i < old(class)@.len() ==> #[trigger] final(class)@[i] == if old(class)@[i] == from { to } else { old(class)@[i] },
{
    let mut i: usize = 0;
    while i < class.len()
        invariant
            class@.len() == old(class)@.len(),
            i <= class@.len(),
            forall|q: int| 0 <= q < i ==> #[trigger] class@[q] == if old(class)@[q] == from { to } else { old(class)@[q] },
            forall|q: int| i <= q < class@.len() ==> #[trigger] class@[q] == old(class)@[q],
        decreases class.len() - i,
    {
        if class[i] == from {
            class.set(i, to);
        }
        i = i + 1;
    }
}

/// Whether a pin belongs to a ground component of the circuit.
fn ground_pin(circuit: &Circuit, cp: &ConnectionPoint) -> (r: bool)
    requires
        ids_unique(circuit.components@),
    ensures
        r == is_ground_pin(*circuit, key_of(*cp)),
{
    match index_of_id(&circuit.components, cp.component_id.as_str()) {
        Some(k) => {
            proof {
                assert(id_index(circuit.components@, cp.component_id@) == k);
            }
            circuit.components[k].component_type.is_ground()
        },
        None => false,
    }
}

/// Wire `p` has its endpoints at nodes `from_idx[p]` and `to_idx[p]`, which share a class.
spec fn wire_joined(nodes: Seq<ConnectionPoint>, class: Seq<usize>, from_idx: Seq<int>, to_idx: Seq<int>, conns: Seq<crate::parser::Connection>, p: int) -> bool {
    let a = from_idx[p];
    let b = to_idx[p];
    &&& 0 <= a < nodes.len()
    &&& 0 <= b < nodes.len()
    &&& key_of(nodes[a]) == key_of(conns[p].from)
    &&& key_of(nodes[b]) == key_of(conns[p].to)
    &&& class[a] == class[b]
}

/// Invariant of the disjoint-set state: every node has a class with a name.
spec fn state_ok(nodes: Seq<ConnectionPoint>, class: Seq<usize>, nclass: int) -> bool {
    &&& nodes.len() == class.len()
    &&& keys_distinct(nodes)
    &&& forall|i: int| 0 <= i < class.len() ==> #[trigger] class[i] < nclass
}

/// Node `i` has a class with a founder node of the same class, and a walk to that founder.
spec fn node_ok(circuit: Circuit, nodes: Seq<ConnectionPoint>, class: Seq<usize>, founder: Seq<usize>, walks: Seq<Seq<PinKey>>, i: int) -> bool {
    let c = class[i] as int;
    let f = founder[c] as int;
    &&& 0 <= c < founder.len()
    &&& f < nodes.len()
    &&& class[f] == c
    &&& walk(circuit, walks[i], key_of(nodes[i]), key_of(nodes[f]))
}

/// The disjoint-set state is sound: every node has a class, the class has a
/// founder node of its own, and the node has a walk to that founder.
spec fn uf_ok(circuit: Circuit, nodes: Seq<ConnectionPoint>, class: Seq<usize>, founder: Seq<usize>, walks: Seq<Seq<PinKey>>) -> bool {
    &&& state_ok(nodes, class, founder.len() as int)
    &&& walks.len() == nodes.len()
    &&& forall|i: int| 0 <= i < nodes.len() ==> #[trigger] node_ok(circuit, nodes, class, founder, walks, i)
}

proof fn lemma_uf_new_class(circuit: Circuit, nodes: Seq<ConnectionPoint>, class: Seq<usize>, founder: Seq<usize>, walks: Seq<Seq<PinKey>>, f: usize)
    requires
        uf_ok(circuit, nodes, class, founder, walks),
    ensures
        uf_ok(circuit, nodes, class, founder.push(f), walks),
{
    assert forall|i: int| 0 <= i < nodes.len() implies #[trigger] node_ok(circuit, nodes, class, founder.push(f), walks, i) by {
        assert(node_ok(circuit, nodes, class, founder, walks, i));
    }
}

proof fn lemma_uf_set_founder(circuit: Circuit, nodes: Seq<ConnectionPoint>, class: Seq<usize>, founder: Seq<usize>, walks: Seq<Seq<PinKey>>, c: int, f: usize)
    requires
        uf_ok(circuit, nodes, class, founder, walks),
        0 <= c < founder.len(),
        forall|i: int| 0 <= i < nodes.len() ==> class[i] != c,
    ensures
        uf_ok(circuit, nodes, class, founder.update(c, f), walks),
{
    assert forall|i: int| 0 <= i < nodes.len() implies #[trigger] node_ok(circuit, nodes, class, founder.update(c, f), walks, i) by {
        assert(node_ok(circuit, nodes, class, founder, walks, i));
    }
}

/// Adds node `p` to class `c`: either `c` already has its founder among the
/// nodes and `w` walks there, or `c` has no node yet and `p` is its founder.
proof fn lemma_uf_add_node(circuit: Circuit, nodes: Seq<ConnectionPoint>, class: Seq<usize>, founder: Seq<usize>, walks: Seq<Seq<PinKey>>, p: ConnectionPoint, c: usize, w: Seq<PinKey>)
    requires
        uf_ok(circuit, nodes, class, founder, walks),
        c < founder.len(),
        forall|i: int| 0 <= i < nodes.len() ==> key_of(#[trigger] nodes[i]) != key_of(p),
        (founder[c as int] < nodes.len() && class[founder[c as int] as int] == c && walk(circuit, w, key_of(p), key_of(nodes[founder[c as int] as int])))
            || (founder[c as int] == nodes.len() && w == seq![key_of(p)] && forall|i: int| 0 <= i < nodes.len() ==> class[i] != c),
    ensures
        uf_ok(circuit, nodes.push(p), class.push(c), founder, walks.push(w)),
{
    let n2 = nodes.push(p);
    let c2 = class.push(c);
    let w2 = walks.push(w);
    assert forall|i: int| 0 <= i < n2.len() implies #[trigger] node_ok(circuit, n2, c2, founder, w2, i) by {
        if i < nodes.len() {
            assert(node_ok(circuit, nodes, class, founder, walks, i));
            assert(n2[i] == nodes[i] && c2[i] == class[i] && w2[i] == walks[i]);
            let f = founder[class[i] as int] as int;
            assert(n2[f] == nodes[f] && c2[f] == class[f]);
        } else {
            let f = founder[c as int] as int;
            if f < nodes.len() {
                assert(n2[f] == nodes[f] && c2[f] == class[f]);
            } else {
                assert(walk(circuit, w, key_of(p), key_of(p)));
            }
        }
    }
    assert(state_ok(n2, c2, founder.len() as int)) by {
        assert forall|i: int, j: int| 0 <= i < n2.len() && 0 <= j < n2.len() && i != j implies key_of(n2[i]) != key_of(n2[j]) by {
            if i < nodes.len() && j < nodes.len() {
            } else if i < nodes.len() {
                assert(key_of(nodes[i]) != key_of(p));
            } else {
                assert(key_of(nodes[j]) != key_of(p));
            }
        }
        assert forall|i: int| 0 <= i < c2.len() implies #[trigger] c2[i] < founder.len() by {
            if i < class.len() {
                assert(c2[i] == class[i]);
            }
        }
    }
}

/// Moves class `gone` into class `keep`, where node `u` of `gone` is joined directly to node `v` of `keep`.
fn merge_classes(class: &mut Vec<usize>, gone: usize, keep: usize, u: usize, v: usize, Ghost(circuit): Ghost<Circuit>, Ghost(nodes): Ghost<Seq<ConnectionPoint>>, Ghost(founder): Ghost<Seq<usize>>, Ghost(walks): Ghost<Seq<Seq<PinKey>>>) -> (r: Ghost<Seq<Seq<PinKey>>>)
    requires
        uf_ok(circuit, nodes, old(class)@, founder, walks),
        u < nodes.len(),
        v < nodes.len(),
        old(class)@[u as int] == gone,
        old(class)@[v as int] == keep,
        gone != keep,
        joined(circuit, key_of(nodes[u as int]), key_of(nodes[v as int])),
    ensures
        uf_ok(circuit, nodes, final(class)@, founder, r@),
        final(class)@.len() == old(class)@.len(),
        forall|i: int| 0 <= i < old(class)@.len() ==> #[trigger] final(class)@[i] == if old(class)@[i] == gone { keep } else { old(class)@[i] },
{
    let ghost oc = class@;
    let ghost wu = walks[u as int];
    let ghost wv = walks[v as int];
    let ghost nw = Seq::new(walks.len(), |i: int| if oc[i] == gone { walks[i] + wu.reverse().drop_first() + wv } else { walks[i] });
    relabel(class, gone, keep);
    proof {
        let fg = founder[gone as int] as int;
        let fk = founder[keep as int] as int;
        assert(node_ok(circuit, nodes, oc, founder, walks, u as int));
        assert(node_ok(circuit, nodes, oc, founder, walks, v as int));
        assert forall|i: int| 0 <= i < nodes.len() implies #[trigger] node_ok(circuit, nodes, class@, founder, nw, i) by {
            assert(node_ok(circuit, nodes, oc, founder, walks, i));
            let f = founder[oc[i] as int] as int;
            assert(class@[f] == if oc[f] == gone { keep } else { oc[f] });
            if oc[i] == gone {
                assert(class@[fk] == keep);
                lemma_walk_merge(circuit, walks[i], wu, wv, key_of(nodes[i]), key_of(nodes[u as int]), key_of(nodes[v as int]), key_of(nodes[fg]), key_of(nodes[fk]));
            }
        }
        assert forall|i: int| 0 <= i < class@.len() implies #[trigger] class@[i] < founder.len() by {
            assert(oc[i] < founder.len());
        }
    }
    Ghost(nw)
}

/// Merges declared nets and wires into classes of electrically equal pins and
/// names each class: a class holding a ground pin is "0"; otherwise the name
/// of the first declaration with a member in it; otherwise `N<k>`, counting
/// the fresh classes wires open from 1 in wire order. A declaration named "0"
/// or `N<k>` therefore shares its id with the ground net or an automatic one.
pub fn create_net_mapping(circuit: &Circuit) -> (r: NetMap)
    requires
        ids_unique(circuit.components@),
        circuit.connections@.len() <= MAX_ITEMS,
    ensures
        nets_resolved(*circuit, r),
{
    let mut nodes: Vec<ConnectionPoint> = Vec::new();
    let mut class: Vec<usize> = Vec::new();
    let mut founders: Vec<usize> = Vec::new();
    let ghost mut walks: Seq<Seq<PinKey>> = Seq::empty();
    let ghost cir = *circuit;
    // Declared nets.
    let ghost mut decl_idx: Seq<Seq<int>> = Seq::empty();
    let mut d: usize = 0;
    while d < circuit.nets.len()
        invariant
            cir == *circuit,
            d <= circuit.nets@.len(),
            uf_ok(cir, nodes@, class@, founders@, walks),
            forall|x: int| 0 <= x < nodes@.len() ==> #[trigger] appears_before(cir, key_of(nodes@[x]), 0),
            decl_idx.len() == d,
            forall|e: int, q: int| 0 <= e < d && 0 <= q < circuit.nets@[e].nodes@.len() ==> {
                let i = #[trigger] decl_idx[e][q];
                &&& 0 <= i < nodes@.len()
                &&& key_of(nodes@[i]) == key_of(circuit.nets@[e].nodes@[q])
                &&& class@[i] == class@[decl_idx[e][0]]
            },
            forall|e: int| 0 <= e < d ==> (#[trigger] decl_idx[e]).len() == circuit.nets@[e].nodes@.len(),
        decreases circuit.nets.len() - d,
    {
        let decl = &circuit.nets[d];
        let mut cur: usize = founders.len();
        proof {
            lemma_uf_new_class(cir, nodes@, class@, founders@, walks, 0);
        }
        founders.push(0);
        let ghost mut members: Seq<int> = Seq::empty();
        let mut first: usize = 0;
        let mut q: usize = 0;
        while q < decl.nodes.len()
            invariant
                cir == *circuit,
                q > 0 ==> first as int == members[0],
                d < circuit.nets@.len(),
                decl == circuit.nets@[d as int],
                q <= decl.nodes@.len(),
                uf_ok(cir, nodes@, class@, founders@, walks),
                    forall|x: int| 0 <= x < nodes@.len() ==> #[trigger] appears_before(cir, key_of(nodes@[x]), 0),
                cur < founders@.len(),
                members.len() == q,
                forall|p: int| 0 <= p < q ==> {
                    let i = #[trigger] members[p];
                    &&& 0 <= i < nodes@.len()
                    &&& key_of(nodes@[i]) == key_of(decl.nodes@[p])
                    &&& class@[i] == cur
                },
                q == 0 ==> forall|i: int| 0 <= i < nodes@.len() ==> class@[i] != cur,
                decl_idx.len() == d,
                forall|e: int, p: int| 0 <= e < d && 0 <= p < circuit.nets@[e].nodes@.len() ==> {
                    let i = #[trigger] decl_idx[e][p];
                    &&& 0 <= i < nodes@.len()
                    &&& key_of(nodes@[i]) == key_of(circuit.nets@[e].nodes@[p])
                    &&& class@[i] == class@[decl_idx[e][0]]
                },
                forall|e: int| 0 <= e < d ==> (#[trigger] decl_idx[e]).len() == circuit.nets@[e].nodes@.len(),
            decreases decl.nodes.len() - q,
        {
            let m = &decl.nodes[q];
            let ghost old_nodes = nodes@;
            let ghost old_class = class@;
            let ghost old_walks = walks;
            match find_node(&nodes, m.component_id.as_str(), m.pin.as_str()) {
                None => {
                    let ghost x = nodes@.len() as int;
                    let ghost old_founders = founders@;
                    if q == 0 {
                        first = nodes.len();
                        founders.set(cur, nodes.len());
                    }
                    let ghost w: Seq<PinKey> = if q == 0 { seq![key_of(*m)] } else { seq![key_of(*m)] + walks[members[0]] };
                    proof {
                        if q == 0 {
                            lemma_uf_set_founder(cir, nodes@, class@, old_founders, walks, cur as int, x as usize);
                        } else {
                            let m0 = members[0];
                            assert(node_ok(cir, nodes@, class@, founders@, walks, m0));
                            assert(joined(cir, key_of(decl.nodes@[q as int]), key_of(decl.nodes@[0])));
                            lemma_walk_step(cir, key_of(*m), walks[m0], key_of(nodes@[m0]), key_of(nodes@[founders@[cur as int] as int]));
                        }
                        members = members.push(x);
                    }
                    let p = copy_point(m);
                    nodes.push(p);
                    class.push(cur);
                    proof {
                        lemma_uf_add_node(cir, old_nodes, old_class, founders@, walks, nodes@[x], cur, w);
                        walks = walks.push(w);
                        assert(key_of(circuit.nets@[d as int].nodes@[q as int]) == key_of(nodes@[x]));
                        assert forall|y: int| 0 <= y < nodes@.len() implies #[trigger] appears_before(cir, key_of(nodes@[y]), 0) by {
                            if y < x {
                                assert(appears_before(cir, key_of(old_nodes[y]), 0));
                            }
                        }
                    }
                },
                Some(i) => {
                    proof {
                        members = members.push(i as int);
                    }
                    if q == 0 {
                        first = i;
                    }
                    if class[i] != cur {
                        let target = class[i];
                        if q > 0 {
                            proof {
                                assert(joined(cir, key_of(decl.nodes@[0]), key_of(decl.nodes@[q as int])));
                            }
                            let Ghost(nw) = merge_classes(&mut class, cur, target, first, i, Ghost(cir), Ghost(nodes@), Ghost(founders@), Ghost(walks));
                            proof {
                                walks = nw;
                            }
                        }
                        cur = target;
                    }
                },
            }
            q = q + 1;
        }
        proof {
            decl_idx = decl_idx.push(members);
            assert forall|e: int, p: int| 0 <= e < d + 1 && 0 <= p < circuit.nets@[e].nodes@.len() implies {
                let i = #[trigger] decl_idx[e][p];
                &&& 0 <= i < nodes@.len()
                &&& key_of(nodes@[i]) == key_of(circuit.nets@[e].nodes@[p])
                &&& class@[i] == class@[decl_idx[e][0]]
            } by {
                if e == d {
                    assert(decl_idx[e] == members);
                }
            }
        }
        d = d + 1;
    }
    // Wires.
    let ghost mut from_idx: Seq<int> = Seq::empty();
    let ghost mut to_idx: Seq<int> = Seq::empty();
    let mut fresh: Vec<bool> = Vec::new();
    let mut j: usize = 0;
    while j < circuit.connections.len()
        invariant
            cir == *circuit,
            j <= circuit.connections@.len(),
            fresh@.len() == j,
            forall|p: int| 0 <= p < j ==> #[trigger] fresh@[p] == opens_net(cir, p),
            forall|x: int| 0 <= x < nodes@.len() ==> #[trigger] appears_before(cir, key_of(nodes@[x]), j as int),
            circuit.connections@.len() <= MAX_ITEMS,
            uf_ok(cir, nodes@, class@, founders@, walks),
            decl_idx.len() == circuit.nets@.len(),
            forall|e: int, p: int| 0 <= e < circuit.nets@.len() && 0 <= p < circuit.nets@[e].nodes@.len() ==> {
                let i = #[trigger] decl_idx[e][p];
                &&& 0 <= i < nodes@.len()
                &&& key_of(nodes@[i]) == key_of(circuit.nets@[e].nodes@[p])
                &&& class@[i] == class@[decl_idx[e][0]]
            },
            forall|e: int| 0 <= e < circuit.nets@.len() ==> (#[trigger] decl_idx[e]).len() == circuit.nets@[e].nodes@.len(),
            from_idx.len() == j,
            to_idx.len() == j,
            forall|p: int| 0 <= p < j ==> #[trigger] wire_joined(nodes@, class@, from_idx, to_idx, circuit.connections@, p),
        decreases circuit.connections.len() - j,
    {
        let c = &circuit.connections[j];
        let ghost old_from = from_idx;
        let ghost old_to = to_idx;
        let ghost old_class = class@;
        let ghost old_nodes = nodes@;
        let ghost old_walks = walks;
        proof {
            assert(joined(cir, key_of(c.from), key_of(c.to)));
            assert(joined(cir, key_of(c.to), key_of(c.from)));
        }
        let fi = find_node(&nodes, c.from.component_id.as_str(), c.from.pin.as_str());
        let ti = find_node(&nodes, c.to.component_id.as_str(), c.to.pin.as_str());
        let opened = fi.is_none() && ti.is_none();
        proof {
            if let Some(a) = fi {
                assert(appears_before(cir, key_of(nodes@[a as int]), j as int));
            } else if let Some(b) = ti {
                assert(appears_before(cir, key_of(nodes@[b as int]), j as int));
            } else {
                assert(!appears_before(cir, key_of(c.from), j as int)) by {
                    lemma_seen_is_node(cir, nodes@, class@, decl_idx, from_idx, to_idx, key_of(c.from), j as int);
                }
                assert(!appears_before(cir, key_of(c.to), j as int)) by {
                    lemma_seen_is_node(cir, nodes@, class@, decl_idx, from_idx, to_idx, key_of(c.to), j as int);
                }
            }
            assert(opened == opens_net(cir, j as int));
        }
        fresh.push(opened);
        match fi {
            Some(a) => {
                match ti {
                    Some(b) => {
                        if class[a] != class[b] {
                            let keep = class[a];
                            let gone = class[b];
                            let Ghost(nw) = merge_classes(&mut class, gone, keep, b, a, Ghost(cir), Ghost(nodes@), Ghost(founders@), Ghost(walks));
                            proof {
                                walks = nw;
                            }
                        }
                        proof {
                            from_idx = from_idx.push(a as int);
                            to_idx = to_idx.push(b as int);
                        }
                    },
                    None => {
                        let ca = class[a];
                        let ghost x = nodes@.len() as int;
                        let ghost w = seq![key_of(c.to)] + walks[a as int];
                        proof {
                            from_idx = from_idx.push(a as int);
                            to_idx = to_idx.push(x);
                            let fa = founders@[ca as int] as int;
                            assert(node_ok(cir, nodes@, class@, founders@, walks, a as int));
                            lemma_walk_step(cir, key_of(c.to), walks[a as int], key_of(nodes@[a as int]), key_of(nodes@[fa]));
                        }
                        nodes.push(copy_point(&c.to));
                        class.push(ca);
                        proof {
                            lemma_uf_add_node(cir, old_nodes, old_class, founders@, old_walks, nodes@[x], ca, w);
                            walks = walks.push(w);
                        }
                    },
                }
            },
            None => {
                match ti {
                    Some(b) => {
                        let cb = class[b];
                        let ghost x = nodes@.len() as int;
                        let ghost w = seq![key_of(c.from)] + walks[b as int];
                        proof {
                            from_idx = from_idx.push(x);
                            to_idx = to_idx.push(b as int);
                            let fb = founders@[cb as int] as int;
                            assert(node_ok(cir, nodes@, class@, founders@, walks, b as int));
                            lemma_walk_step(cir, key_of(c.from), walks[b as int], key_of(nodes@[b as int]), key_of(nodes@[fb]));
                        }
                        nodes.push(copy_point(&c.from));
                        class.push(cb);
                        proof {
                            lemma_uf_add_node(cir, old_nodes, old_class, founders@, old_walks, nodes@[x], cb, w);
                            walks = walks.push(w);
                        }
                    },
                    None => {
                        let fresh = founders.len();
                        let ghost x = nodes@.len() as int;
                        proof {
                            lemma_uf_new_class(cir, nodes@, class@, founders@, walks, x as usize);
                            from_idx = from_idx.push(x);
                        }
                        founders.push(nodes.len());
                        nodes.push(copy_point(&c.from));
                        class.push(fresh);
                        proof {
                            lemma_uf_add_node(cir, old_nodes, old_class, founders@, walks, nodes@[x], fresh, seq![key_of(c.from)]);
                            walks = walks.push(seq![key_of(c.from)]);
                        }
                        let same = same_text(c.from.component_id.as_str(), c.to.component_id.as_str()) && same_text(c.from.pin.as_str(), c.to.pin.as_str());
                        if same {
                            proof {
                                to_idx = to_idx.push(x);
                            }
                        } else {
                            let ghost mid_nodes = nodes@;
                            let ghost mid_class = class@;
                            let ghost w = seq![key_of(c.to)] + seq![key_of(c.from)];
                            proof {
                                to_idx = to_idx.push(x + 1);
                                assert(walk(cir, seq![key_of(c.from)], key_of(c.from), key_of(c.from)));
                                lemma_walk_step(cir, key_of(c.to), seq![key_of(c.from)], key_of(c.from), key_of(c.from));
                            }
                            nodes.push(copy_point(&c.to));
                            class.push(fresh);
                            proof {
                                lemma_uf_add_node(cir, mid_nodes, mid_class, founders@, walks, nodes@[x + 1], fresh, w);
                                walks = walks.push(w);
                            }
                        }
                    },
                }
            },
        }
        proof {
            assert(key_of(c.from) == key_of(circuit.connections@[j as int].from));
            assert forall|y: int| 0 <= y < nodes@.len() implies #[trigger] appears_before(cir, key_of(nodes@[y]), j + 1) by {
                if y < old_nodes.len() {
                    assert(appears_before(cir, key_of(old_nodes[y]), j as int));
                    assert(nodes@[y] == old_nodes[y]);
                } else {
                    assert(key_of(nodes@[y]) == key_of(circuit.connections@[j as int].from) || key_of(nodes@[y]) == key_of(circuit.connections@[j as int].to));
                }
            }
            assert forall|p: int| 0 <= p < j + 1 implies #[trigger] wire_joined(nodes@, class@, from_idx, to_idx, circuit.connections@, p) by {
                if p < j {
                    assert(wire_joined(old_nodes, old_class, old_from, old_to, circuit.connections@, p));
                    assert(from_idx[p] == old_from[p]);
                    assert(to_idx[p] == old_to[p]);
                }
            }
        }
        j = j + 1;
    }
    // Ground components' reference pins.
    let ghost mut gnd_idx: Seq<int> = Seq::empty();
    let mut g: usize = 0;
    while g < circuit.components.len()
        invariant
            cir == *circuit,
            ids_unique(circuit.components@),
            g <= circuit.components@.len(),
            uf_ok(cir, nodes@, class@, founders@, walks),
            decl_idx.len() == circuit.nets@.len(),
            forall|e: int, p: int| 0 <= e < circuit.nets@.len() && 0 <= p < circuit.nets@[e].nodes@.len() ==> {
                let i = #[trigger] decl_idx[e][p];
                &&& 0 <= i < nodes@.len()
                &&& key_of(nodes@[i]) == key_of(circuit.nets@[e].nodes@[p])
                &&& class@[i] == class@[decl_idx[e][0]]
            },
            forall|e: int| 0 <= e < circuit.nets@.len() ==> (#[trigger] decl_idx[e]).len() == circuit.nets@[e].nodes@.len(),
            from_idx.len() == circuit.connections@.len(),
            to_idx.len() == circuit.connections@.len(),
            forall|p: int| 0 <= p < circuit.connections@.len() ==> #[trigger] wire_joined(nodes@, class@, from_idx, to_idx, circuit.connections@, p),
            gnd_idx.len() == g,
            forall|x: int| 0 <= x < nodes@.len() ==> #[trigger] appears_before(cir, key_of(nodes@[x]), circuit.connections@.len() as int) || is_ground_pin(cir, key_of(nodes@[x])),
            forall|h: int| 0 <= h < g && is_ground_type(circuit.components@[h].component_type) ==> {
                let i = #[trigger] gnd_idx[h];
                0 <= i < nodes@.len() && key_of(nodes@[i]) == (circuit.components@[h].id@, "GND"@)
            },
        decreases circuit.components.len() - g,
    {
        let comp = &circuit.components[g];
        let ghost old_nodes = nodes@;
        let ghost old_class = class@;
        let ghost old_walks = walks;
        if comp.component_type.is_ground() {
            let gnd = "GND";
            match find_node(&nodes, comp.id.as_str(), gnd) {
                Some(i) => {
                    proof {
                        gnd_idx = gnd_idx.push(i as int);
                    }
                },
                None => {
                    let fresh = founders.len();
                    let ghost x = nodes@.len() as int;
                    proof {
                        lemma_uf_new_class(cir, nodes@, class@, founders@, walks, x as usize);
                    }
                    founders.push(nodes.len());
                    let p = ConnectionPoint { component_id: comp.id.clone(), pin: String::from_str(gnd) };
                    nodes.push(p);
                    class.push(fresh);
                    proof {
                        lemma_uf_add_node(cir, old_nodes, old_class, founders@, walks, nodes@[x], fresh, seq![key_of(nodes@[x])]);
                        walks = walks.push(seq![key_of(nodes@[x])]);
                        gnd_idx = gnd_idx.push(x);
                        assert(id_index(circuit.components@, comp.id@) == g);
                        assert(is_ground_pin(cir, key_of(nodes@[x])));
                    }
                },
            }
        } else {
            proof {
                gnd_idx = gnd_idx.push(0);
            }
        }
        proof {
            assert forall|p: int| 0 <= p < circuit.connections@.len() implies #[trigger] wire_joined(nodes@, class@, from_idx, to_idx, circuit.connections@, p) by {
                assert(wire_joined(old_nodes, old_class, from_idx, to_idx, circuit.connections@, p));
            }
            assert forall|x: int| 0 <= x < nodes@.len() implies #[trigger] appears_before(cir, key_of(nodes@[x]), circuit.connections@.len() as int) || is_ground_pin(cir, key_of(nodes@[x])) by {
                if x < old_nodes.len() {
                    assert(appears_before(cir, key_of(old_nodes[x]), circuit.connections@.len() as int) || is_ground_pin(cir, key_of(old_nodes[x])));
                    assert(nodes@[x] == old_nodes[x]);
                }
            }
        }
        g = g + 1;
    }
    // Classes that hold a ground pin.
    let mut grounded: Vec<bool> = Vec::new();
    let mut c: usize = 0;
    while c < founders.len()
        invariant
            c <= founders@.len(),
            grounded@.len() == c,
            forall|q: int| 0 <= q < c ==> !(#[trigger] grounded@[q]),
        decreases founders.len() - c,
    {
        grounded.push(false);
        c = c + 1;
    }
    let ghost mut witness: Seq<int> = Seq::new(founders@.len(), |q: int| 0int);
    let mut i: usize = 0;
    while i < nodes.len()
        invariant
            ids_unique(circuit.components@),
            state_ok(nodes@, class@, founders@.len() as int),
            grounded@.len() == founders@.len(),
            witness.len() == founders@.len(),
            i <= nodes@.len(),
            forall|q: int| 0 <= q < i && is_ground_pin(*circuit, key_of(#[trigger] nodes@[q])) ==> grounded@[class@[q] as int],
            forall|k: int| 0 <= k < founders@.len() && #[trigger] grounded@[k] ==> 0 <= witness[k] < nodes@.len() && class@[witness[k]] == k && is_ground_pin(*circuit, key_of(nodes@[witness[k]])),
        decreases nodes.len() - i,
    {
        if ground_pin(circuit, &nodes[i]) {
            grounded.set(class[i], true);
            proof {
                witness = witness.update(class@[i as int] as int, i as int);
            }
        }
        i = i + 1;
    }
    // Each class's first declaration.
    let ghost pins_g = nodes@;
    let ghost cls_g = class@;
    let mut owner: Vec<Option<usize>> = Vec::new();
    c = 0;
    while c < founders.len()
        invariant
            c <= founders@.len(),
            owner@.len() == c,
            forall|q: int| 0 <= q < c ==> (#[trigger] owner@[q]).is_none(),
        decreases founders.len() - c,
    {
        owner.push(None);
        c = c + 1;
    }
    let mut d: usize = 0;
    while d < circuit.nets.len()
        invariant
            cir == *circuit,
            nodes@ == pins_g,
            class@ == cls_g,
            state_ok(nodes@, class@, founders@.len() as int),
            owner@.len() == founders@.len(),
            d <= circuit.nets@.len(),
            decl_idx.len() == circuit.nets@.len(),
            forall|e: int, p: int| 0 <= e < circuit.nets@.len() && 0 <= p < circuit.nets@[e].nodes@.len() ==> {
                let i = #[trigger] decl_idx[e][p];
                &&& 0 <= i < nodes@.len()
                &&& key_of(nodes@[i]) == key_of(circuit.nets@[e].nodes@[p])
                &&& class@[i] == class@[decl_idx[e][0]]
            },
            forall|e: int| 0 <= e < circuit.nets@.len() ==> (#[trigger] decl_idx[e]).len() == circuit.nets@[e].nodes@.len(),
            forall|k: int| 0 <= k < owner@.len() ==> #[trigger] owner_ok(cir, pins_g, cls_g, owner@[k], k, d as int),
        decreases circuit.nets.len() - d,
    {
        let decl = &circuit.nets[d];
        let mut q: usize = 0;
        proof {
            assert forall|k: int| 0 <= k < owner@.len() implies #[trigger] owner_mid(cir, pins_g, cls_g, owner@[k], k, d as int, 0) by {
                assert(owner_ok(cir, pins_g, cls_g, owner@[k], k, d as int));
            }
        }
        while q < decl.nodes.len()
            invariant
                cir == *circuit,
                d < circuit.nets@.len(),
                decl == circuit.nets@[d as int],
                nodes@ == pins_g,
                class@ == cls_g,
                state_ok(nodes@, class@, founders@.len() as int),
                owner@.len() == founders@.len(),
                q <= decl.nodes@.len(),
                decl_idx.len() == circuit.nets@.len(),
                forall|e: int, p: int| 0 <= e < circuit.nets@.len() && 0 <= p < circuit.nets@[e].nodes@.len() ==> {
                    let i = #[trigger] decl_idx[e][p];
                    &&& 0 <= i < nodes@.len()
                    &&& key_of(nodes@[i]) == key_of(circuit.nets@[e].nodes@[p])
                    &&& class@[i] == class@[decl_idx[e][0]]
                },
                forall|e: int| 0 <= e < circuit.nets@.len() ==> (#[trigger] decl_idx[e]).len() == circuit.nets@[e].nodes@.len(),
                forall|k: int| 0 <= k < owner@.len() ==> #[trigger] owner_mid(cir, pins_g, cls_g, owner@[k], k, d as int, q as int),
            decreases decl.nodes.len() - q,
        {
            let m = &decl.nodes[q];
            let ghost old_owner = owner@;
            match find_node(&nodes, m.component_id.as_str(), m.pin.as_str()) {
                Some(i) => {
                    let k = class[i];
                    proof {
                        lemma_class_of_at(pins_g, cls_g, i as int);
                    }
                    if owner[k].is_none() {
                        owner.set(k, Some(d));
                    }
                    proof {
                        assert forall|k2: int| 0 <= k2 < owner@.len() implies #[trigger] owner_mid(cir, pins_g, cls_g, owner@[k2], k2, d as int, q + 1) by {
                            assert(owner_mid(cir, pins_g, cls_g, old_owner[k2], k2, d as int, q as int));
                            assert(class_of(pins_g, cls_g, key_of(circuit.nets@[d as int].nodes@[q as int])) == k);
                        }
                    }
                },
                None => {
                    proof {
                        let i = decl_idx[d as int][q as int];
                        assert(key_of(nodes@[i]) == key_of(circuit.nets@[d as int].nodes@[q as int]));
                    }
                },
            }
            q = q + 1;
        }
        proof {
            assert forall|k: int| 0 <= k < owner@.len() implies #[trigger] owner_ok(cir, pins_g, cls_g, owner@[k], k, d + 1) by {
                assert(owner_mid(cir, pins_g, cls_g, owner@[k], k, d as int, decl.nodes@.len() as int));
            }
        }
        d = d + 1;
    }
    // Number the classes no declaration names, in the order wires first reach them.
    let mut auto: Vec<u64> = Vec::new();
    c = 0;
    while c < founders.len()
        invariant
            c <= founders@.len(),
            auto@.len() == c,
            forall|q: int| 0 <= q < c ==> auto@[q] == 0,
        decreases founders.len() - c,
    {
        auto.push(0);
        c = c + 1;
    }
    let mut counter: u64 = 1;
    j = 0;
    while j < circuit.connections.len()
        invariant
            cir == *circuit,
            nodes@ == pins_g,
            class@ == cls_g,
            state_ok(nodes@, class@, founders@.len() as int),
            owner@.len() == founders@.len(),
            auto@.len() == founders@.len(),
            j <= circuit.connections@.len(),
            circuit.connections@.len() <= MAX_ITEMS,
            counter as int == opened_before(cir, j as int) + 1,
            counter <= j + 1,
            fresh@.len() == circuit.connections@.len(),
            forall|p: int| 0 <= p < circuit.connections@.len() ==> #[trigger] fresh@[p] == opens_net(cir, p),
            from_idx.len() == circuit.connections@.len(),
            to_idx.len() == circuit.connections@.len(),
            forall|p: int| 0 <= p < circuit.connections@.len() ==> #[trigger] wire_joined(nodes@, class@, from_idx, to_idx, circuit.connections@, p),
            forall|k: int| 0 <= k < owner@.len() ==> #[trigger] owner_ok(cir, pins_g, cls_g, owner@[k], k, circuit.nets@.len() as int),
            forall|k: int| 0 <= k < auto@.len() ==> #[trigger] auto_ok(cir, pins_g, cls_g, owner@[k], auto@[k], k, j as int),
        decreases circuit.connections.len() - j,
    {
        let c0 = &circuit.connections[j];
        let ghost old_auto = auto@;
        proof {
            assert(wire_joined(nodes@, class@, from_idx, to_idx, circuit.connections@, j as int));
        }
        match find_node(&nodes, c0.from.component_id.as_str(), c0.from.pin.as_str()) {
            Some(i) => {
                let k = class[i];
                proof {
                    lemma_class_of_at(pins_g, cls_g, i as int);
                    assert(wire_class(cir, pins_g, cls_g, j as int) == k);
                    assert(owner_ok(cir, pins_g, cls_g, owner@[k as int], k as int, circuit.nets@.len() as int));
                    assert(auto_ok(cir, pins_g, cls_g, owner@[k as int], auto@[k as int], k as int, j as int));
                    lemma_first_decl(cir, pins_g, cls_g, k as int, 0);
                }
                if owner[k].is_none() && auto[k] == 0 {
                    proof {
                        assert(first_wire(cir, pins_g, cls_g, j as int));
                    }
                    auto.set(k, counter);
                }
                if fresh[j] {
                    counter = counter + 1;
                }
                proof {
                    assert forall|k2: int| 0 <= k2 < auto@.len() implies #[trigger] auto_ok(cir, pins_g, cls_g, owner@[k2], auto@[k2], k2, j + 1) by {
                        assert(auto_ok(cir, pins_g, cls_g, owner@[k2], old_auto[k2], k2, j as int));
                        if k2 == k && old_auto[k2] == 0 && owner@[k2].is_none() {
                            assert(wire_class(cir, pins_g, cls_g, j as int) == k2);
                        }
                    }
                }
            },
            None => {
                proof {
                    assert(key_of(nodes@[from_idx[j as int]]) == key_of(c0.from));
                }
            },
        }
        j = j + 1;
    }
    // One net id per pin.
    let mut nets: Vec<String> = Vec::new();
    i = 0;
    while i < nodes.len()
        invariant
            cir == *circuit,
            nodes@ == pins_g,
            class@ == cls_g,
            state_ok(nodes@, class@, founders@.len() as int),
            grounded@.len() == founders@.len(),
            owner@.len() == founders@.len(),
            auto@.len() == founders@.len(),
            witness.len() == founders@.len(),
            i <= nodes@.len(),
            nets@.len() == i,
            forall|q: int| 0 <= q < nodes@.len() && is_ground_pin(*circuit, key_of(#[trigger] nodes@[q])) ==> grounded@[class@[q] as int],
            forall|k: int| 0 <= k < founders@.len() && #[trigger] grounded@[k] ==> 0 <= witness[k] < nodes@.len() && class@[witness[k]] == k && is_ground_pin(*circuit, key_of(nodes@[witness[k]])),
            forall|k: int| 0 <= k < owner@.len() ==> #[trigger] owner_ok(cir, pins_g, cls_g, owner@[k], k, circuit.nets@.len() as int),
            forall|k: int| 0 <= k < auto@.len() ==> #[trigger] auto_ok(cir, pins_g, cls_g, owner@[k], auto@[k], k, circuit.connections@.len() as int),
            forall|q: int| 0 <= q < i ==> named_as_specified(cir, pins_g, cls_g, q, (#[trigger] nets@[q])@),
            forall|q: int| 0 <= q < i ==> (#[trigger] nets@[q])@ == class_net(cir, grounded@[class@[q] as int], owner@[class@[q] as int], auto@[class@[q] as int]),
        decreases nodes.len() - i,
    {
        let k = class[i];
        let ghost kk = k as int;
        proof {
            reveal_strlit("0");
            assert(owner_ok(cir, pins_g, cls_g, owner@[kk], kk, circuit.nets@.len() as int));
            assert(auto_ok(cir, pins_g, cls_g, owner@[kk], auto@[kk], kk, circuit.connections@.len() as int));
            lemma_first_decl(cir, pins_g, cls_g, kk, 0);
            if grounded@[kk] {
                assert(is_ground_pin(cir, key_of(pins_g[witness[kk]])));
                assert(class_grounded(cir, pins_g, cls_g, i as int));
            } else {
                assert(!class_grounded(cir, pins_g, cls_g, i as int));
            }
        }
        let name = if grounded[k] {
            String::from_str("0")
        } else {
            match owner[k] {
                Some(e) => circuit.nets[e].name.clone(),
                None => {
                    let mut n = String::from_str("N");
                    n.append(decimal_text(auto[k]).as_str());
                    proof {
                        assert forall|j2: int| 0 <= j2 < circuit.connections@.len() && #[trigger] wire_class(cir, pins_g, cls_g, j2) == kk
                            && first_wire(cir, pins_g, cls_g, j2) implies n@ == "N"@ + decimal((opened_before(cir, j2) + 1) as nat) by {
                            let i2 = choose|i2: int| 0 <= i2 < circuit.connections@.len() && wire_class(cir, pins_g, cls_g, i2) == kk
                                && first_wire(cir, pins_g, cls_g, i2) && auto@[kk] == opened_before(cir, i2) + 1;
                            if i2 < j2 {
                                assert(wire_class(cir, pins_g, cls_g, i2) != wire_class(cir, pins_g, cls_g, j2));
                            } else if j2 < i2 {
                                assert(wire_class(cir, pins_g, cls_g, j2) != wire_class(cir, pins_g, cls_g, i2));
                            }
                        }
                    }
                    n
                },
            }
        };
        nets.push(name);
        i = i + 1;
    }
    let r = NetMap { pins: nodes, nets, classes: class };
    proof {
        reveal(nets_resolved);
        reveal_strlit("0");
        assert forall|a: int, b: int| 0 <= a < r.pins@.len() && 0 <= b < r.pins@.len() && #[trigger] r.classes@[a] == #[trigger] r.classes@[b] implies r.nets@[a]@ == r.nets@[b]@ by {
            assert(r.nets@[a]@ == class_net(cir, grounded@[r.classes@[a] as int], owner@[r.classes@[a] as int], auto@[r.classes@[a] as int]));
            assert(r.nets@[b]@ == class_net(cir, grounded@[r.classes@[b] as int], owner@[r.classes@[b] as int], auto@[r.classes@[b] as int]));
        }
        assert(r.wf());
        assert forall|p: int| 0 <= p < circuit.connections@.len() implies {
            let cc = #[trigger] circuit.connections@[p];
            &&& r.has(key_of(cc.from))
            &&& r.has(key_of(cc.to))
            &&& r.net(key_of(cc.from)) == r.net(key_of(cc.to))
        } by {
            assert(wire_joined(r.pins@, r.classes@, from_idx, to_idx, circuit.connections@, p));
            lemma_net_at(r, from_idx[p]);
            lemma_net_at(r, to_idx[p]);
        }
        assert forall|e: int, p: int| 0 <= e < circuit.nets@.len() && 0 <= p < circuit.nets@[e].nodes@.len() implies {
            &&& r.has(key_of(#[trigger] circuit.nets@[e].nodes@[p]))
            &&& r.net(key_of(circuit.nets@[e].nodes@[p])) == r.net(key_of(circuit.nets@[e].nodes@[0]))
        } by {
            lemma_net_at(r, decl_idx[e][p]);
            lemma_net_at(r, decl_idx[e][0]);
        }
        assert forall|h: int| 0 <= h < circuit.components@.len() && is_ground_type(#[trigger] circuit.components@[h].component_type) implies r.has((circuit.components@[h].id@, "GND"@)) by {
            let x = gnd_idx[h];
            assert(key_of(r.pins@[x]) == (circuit.components@[h].id@, "GND"@));
        }
        assert forall|a: int, b: int| 0 <= a < r.pins@.len() && 0 <= b < r.pins@.len() && #[trigger] r.classes@[a] == #[trigger] r.classes@[b] implies exists|w: Seq<PinKey>| walk(cir, w, key_of(r.pins@[a]), key_of(r.pins@[b])) by {
            let f = founders@[r.classes@[a] as int] as int;
            assert(node_ok(cir, r.pins@, r.classes@, founders@, walks, a));
            assert(node_ok(cir, r.pins@, r.classes@, founders@, walks, b));
            lemma_walk_reverse(cir, walks[b], key_of(r.pins@[b]), key_of(r.pins@[f]));
            lemma_walk_glue(cir, walks[a], walks[b].reverse(), key_of(r.pins@[a]), key_of(r.pins@[f]), key_of(r.pins@[b]));
        }
        assert forall|j2: int| 0 <= j2 < circuit.connections@.len() implies class_of(r.pins@, r.classes@, key_of((#[trigger] circuit.connections@[j2]).from))
            == class_of(r.pins@, r.classes@, key_of(circuit.connections@[j2].to)) by {
            assert(wire_joined(r.pins@, r.classes@, from_idx, to_idx, circuit.connections@, j2));
            lemma_class_of_at(r.pins@, r.classes@, from_idx[j2]);
            lemma_class_of_at(r.pins@, r.classes@, to_idx[j2]);
        }
        assert forall|e: int, p: int| 0 <= e < circuit.nets@.len() && 0 <= p < circuit.nets@[e].nodes@.len() implies class_of(r.pins@, r.classes@, key_of(#[trigger] circuit.nets@[e].nodes@[p]))
            == class_of(r.pins@, r.classes@, key_of(circuit.nets@[e].nodes@[0])) by {
            lemma_class_of_at(r.pins@, r.classes@, decl_idx[e][p]);
            lemma_class_of_at(r.pins@, r.classes@, decl_idx[e][0]);
        }
        assert forall|a: int| 0 <= a < r.pins@.len() && !class_grounded(cir, r.pins@, r.classes@, a) && first_decl(cir, r.pins@, r.classes@, (#[trigger] r.classes@[a]) as int, 0).is_none()
            implies exists|j2: int| 0 <= j2 < circuit.connections@.len() && wire_class(cir, r.pins@, r.classes@, j2) == r.classes@[a] as int by {
            let k = key_of(r.pins@[a]);
            let c = r.classes@[a] as int;
            lemma_class_of_at(r.pins@, r.classes@, a);
            assert(!is_ground_pin(cir, k));
            assert(appears_before(cir, k, circuit.connections@.len() as int));
            lemma_first_decl(cir, r.pins@, r.classes@, c, 0);
            if exists|d: int, q: int| 0 <= d < circuit.nets@.len() && 0 <= q < circuit.nets@[d].nodes@.len() && key_of(#[trigger] circuit.nets@[d].nodes@[q]) == k {
                let (d, q) = choose|d: int, q: int| 0 <= d < circuit.nets@.len() && 0 <= q < circuit.nets@[d].nodes@.len() && key_of(#[trigger] circuit.nets@[d].nodes@[q]) == k;
                let x = decl_idx[d][q];
                assert(key_of(r.pins@[x]) == k);
                assert(x == a);
                assert(decl_hits(cir, r.pins@, r.classes@, c, d));
            } else {
                let i2 = choose|i2: int| 0 <= i2 < circuit.connections@.len() && (key_of((#[trigger] circuit.connections@[i2]).from) == k || key_of(circuit.connections@[i2].to) == k);
                assert(wire_joined(r.pins@, r.classes@, from_idx, to_idx, circuit.connections@, i2));
                lemma_class_of_at(r.pins@, r.classes@, from_idx[i2]);
                if key_of(circuit.connections@[i2].from) == k {
                    assert(from_idx[i2] == a);
                } else {
                    assert(to_idx[i2] == a);
                }
                assert(wire_class(cir, r.pins@, r.classes@, i2) == c);
            }
        }
        assert forall|a: int| 0 <= a < r.pins@.len() implies named_as_specified(cir, r.pins@, r.classes@, a, (#[trigger] r.nets@[a])@) by {
            assert(named_as_specified(cir, pins_g, cls_g, a, r.nets@[a]@));
        }
    }
    r
}

/// Two pins are joined directly: a wire runs between them, or one declared net lists both.
pub open spec fn joined(circuit: Circuit, a: (Seq<char>, Seq<char>), b: (Seq<char>, Seq<char>)) -> bool {
    (exists|j: int| 0 <= j < circuit.connections@.len() && {
        let c = #[trigger] circuit.connections@[j];
        (key_of(c.from) == a && key_of(c.to) == b) || (key_of(c.from) == b && key_of(c.to) == a)
    }) || (exists|d: int, p: int, q: int| 0 <= d < circuit.nets@.len() && 0 <= p < circuit.nets@[d].nodes@.len() && 0 <= q < circuit.nets@[d].nodes@.len() && key_of(#[trigger] circuit.nets@[d].nodes@[p]) == a && key_of(#[trigger] circuit.nets@[d].nodes@[q]) == b)
}

/// A sequence of at least two pins, each joined directly to the next.
pub open spec fn is_chain(circuit: Circuit, s: Seq<(Seq<char>, Seq<char>)>) -> bool {
    s.len() >= 2 && forall|i: int| 0 <= i < s.len() - 1 ==> joined(circuit, #[trigger] s[i], s[i + 1])
}

proof fn lemma_joined_same_net(circuit: Circuit, m: NetMap, a: (Seq<char>, Seq<char>), b: (Seq<char>, Seq<char>))
    requires
        nets_resolved(circuit, m),
        joined(circuit, a, b),
    ensures
        m.has(a),
        m.has(b),
        m.net(a) == m.net(b),
{
    reveal(nets_resolved);
    if exists|j: int| 0 <= j < circuit.connections@.len() && {
        let c = #[trigger] circuit.connections@[j];
        (key_of(c.from) == a && key_of(c.to) == b) || (key_of(c.from) == b && key_of(c.to) == a)
    } {
        let j = choose|j: int| 0 <= j < circuit.connections@.len() && {
            let c = #[trigger] circuit.connections@[j];
            (key_of(c.from) == a && key_of(c.to) == b) || (key_of(c.from) == b && key_of(c.to) == a)
        };
        let c = circuit.connections@[j];
    } else {
        let (d, p, q) = choose|d: int, p: int, q: int| 0 <= d < circuit.nets@.len() && 0 <= p < circuit.nets@[d].nodes@.len() && 0 <= q < circuit.nets@[d].nodes@.len() && key_of(#[trigger] circuit.nets@[d].nodes@[p]) == a && key_of(#[trigger] circuit.nets@[d].nodes@[q]) == b;
        assert(m.has(key_of(circuit.nets@[d].nodes@[p])));
        assert(m.has(key_of(circuit.nets@[d].nodes@[q])));
    }
}

/// Every pin along a chain of wires and declared nets resolves to the same net
/// (so a chain A-B, B-C, C-D puts all four pins on one net).
pub proof fn lemma_chain_same_net(circuit: Circuit, m: NetMap, s: Seq<(Seq<char>, Seq<char>)>)
    requires
        nets_resolved(circuit, m),
        is_chain(circuit, s),
    ensures
        forall|i: int| 0 <= i < s.len() ==> m.has(#[trigger] s[i]) && m.net(s[i]) == m.net(s[0]),
    decreases s.len(),
{
    if s.len() == 2 {
        assert(joined(circuit, s[0], s[1]));
        lemma_joined_same_net(circuit, m, s[0], s[1]);
    } else {
        let t = s.drop_last();
        assert forall|i: int| 0 <= i < t.len() - 1 implies joined(circuit, #[trigger] t[i], t[i + 1]) by {
            assert(joined(circuit, s[i], s[i + 1]));
        }
        lemma_chain_same_net(circuit, m, t);
        let n = s.len() - 1;
        assert(joined(circuit, s[n - 1], s[n]));
        lemma_joined_same_net(circuit, m, s[n - 1], s[n]);
        assert forall|i: int| 0 <= i < s.len() implies m.has(#[trigger] s[i]) && m.net(s[i]) == m.net(s[0]) by {
            if i < n {
                assert(t[i] == s[i]);
            } else {
                assert(t[n - 1] == s[n - 1]);
            }
        }
    }
}

/// If a pin of a ground component lies anywhere on a chain of wires and
/// declared nets, every pin of the chain resolves to net "0", whatever the
/// order in which the wires were given.
pub proof fn lemma_ground_class(circuit: Circuit, m: NetMap, s: Seq<(Seq<char>, Seq<char>)>, g: int)
    requires
        nets_resolved(circuit, m),
        is_chain(circuit, s),
        0 <= g < s.len(),
        is_ground_pin(circuit, s[g]),
    ensures
        forall|i: int| 0 <= i < s.len() ==> m.net(#[trigger] s[i]) == "0"@,
{
    reveal(nets_resolved);
    lemma_chain_same_net(circuit, m, s);
    assert(m.has(s[g]));
    let i = choose|i: int| 0 <= i < m.pins@.len() && key_of(m.pins@[i]) == s[g];
    lemma_net_at(m, i);
    assert(m.net(s[g]) == m.nets@[i]@);
    assert forall|q: int| 0 <= q < s.len() implies m.net(#[trigger] s[q]) == "0"@ by {
        assert(m.net(s[q]) == m.net(s[0]));
    }
}

/// The pins whose nets a SPICE line lists, in the order the line uses them.
pub open spec fn spice_pins(t: ComponentType) -> Seq<Seq<char>> {
    match t {
        ComponentType::Resistor | ComponentType::Capacitor | ComponentType::Inductor => seq!["1"@, "2"@],
        ComponentType::DcVoltage | ComponentType::DcCurrent => seq!["+"@, "-"@],
        ComponentType::AcVoltage | ComponentType::AcCurrent => seq!["1"@, "2"@],
        ComponentType::Diode => seq!["A"@, "K"@],
        ComponentType::NpnTransistor | ComponentType::PnpTransistor => seq!["B"@, "C"@, "E"@],
        ComponentType::NmosTransistor | ComponentType::PmosTransistor => seq!["G"@, "D"@, "S"@],
        ComponentType::OpAmp => seq!["-"@, "+"@, "OUT"@],
        ComponentType::SignalGround | ComponentType::ChassisGround | ComponentType::EarthGround => seq!["GND"@],
        _ => Seq::empty(),
    }
}

fn texts(items: &[&str]) -> (r: Vec<String>)
    ensures
        r@.len() == items@.len(),
        forall|i: int| 0 <= i < r@.len() ==> (#[trigger] r@[i])@ == items@[i]@,
{
    let mut out: Vec<String> = Vec::new();
    let mut i: usize = 0;
    while i < items.len()
        invariant
            i <= items@.len(),
            out@.len() == i,
            forall|q: int| 0 <= q < i ==> (#[trigger] out@[q])@ == items@[q]@,
        decreases items.len() - i,
    {
        out.push(String::from_str(items[i]));
        i = i + 1;
    }
    out
}

/// The pins whose nets a SPICE line lists for a kind.
pub fn get_component_pins_for_spice(component_type: &ComponentType) -> (r: Vec<String>)
    ensures
        r@.len() == spice_pins(*component_type).len(),
        forall|i: int| 0 <= i < r@.len() ==> (#[trigger] r@[i])@ == spice_pins(*component_type)[i],
{
    let r = match component_type {
        ComponentType::Resistor | ComponentType::Capacitor | ComponentType::Inductor => texts(&["1", "2"]),
        ComponentType::DcVoltage | ComponentType::DcCurrent => texts(&["+", "-"]),
        ComponentType::AcVoltage | ComponentType::AcCurrent => texts(&["1", "2"]),
        ComponentType::Diode => texts(&["A", "K"]),
        ComponentType::NpnTransistor | ComponentType::PnpTransistor => texts(&["B", "C", "E"]),
        ComponentType::NmosTransistor | ComponentType::PmosTransistor => texts(&["G", "D", "S"]),
        ComponentType::OpAmp => texts(&["-", "+", "OUT"]),
        ComponentType::SignalGround | ComponentType::ChassisGround | ComponentType::EarthGround => texts(&["GND"]),
        _ => Vec::new(),
    };
    proof {
        assert(r@.len() == spice_pins(*component_type).len());
    }
    r
}

/// The SPICE node of a pin: its net, or ground when no wire or declaration names it.
pub open spec fn node_name(m: NetMap, id: Seq<char>, pin: Seq<char>) -> Seq<char> {
    if m.has((id, pin)) { m.net((id, pin)) } else { "0"@ }
}

pub open spec fn node_at(m: NetMap, c: Component, i: int) -> Seq<char> {
    node_name(m, c.id@, spice_pins(c.component_type)[i])
}

/// The model a diode line names.
pub open spec fn diode_model(t: ComponentType) -> Seq<char> {
    match t {
        ComponentType::ZenerDiode => "DZENER"@,
        ComponentType::SchottkyDiode => "DSCHOTTKY"@,
        ComponentType::Led => "DLED"@,
        _ => "DDIODE"@,
    }
}

/// The diode model for a component's kind.
pub fn get_diode_model(component: &Component) -> (r: &'static str)
    ensures
        r@ == diode_model(component.component_type),
{
    match component.component_type {
        ComponentType::ZenerDiode => "DZENER",
        ComponentType::SchottkyDiode => "DSCHOTTKY",
        ComponentType::Led => "DLED",
        _ => "DDIODE",
    }
}

pub open spec fn two_nodes(prefix: Seq<char>, m: NetMap, c: Component) -> Seq<char> {
    prefix + c.id@ + " "@ + node_at(m, c, 0) + " "@ + node_at(m, c, 1)
}

/// The SPICE line of a component, given its value already in SPICE notation;
/// ground symbols give no line.
pub open spec fn spice_line(c: Component, m: NetMap, value: Seq<char>) -> Seq<char> {
    match c.component_type {
        ComponentType::Resistor => two_nodes("R"@, m, c) + " "@ + value,
        ComponentType::Capacitor => two_nodes("C"@, m, c) + " "@ + value,
        ComponentType::Inductor => two_nodes("L"@, m, c) + " "@ + value,
        ComponentType::DcVoltage => two_nodes("V"@, m, c) + " DC "@ + value,
        ComponentType::DcCurrent => two_nodes("I"@, m, c) + " DC "@ + value,
        ComponentType::AcVoltage => two_nodes("V"@, m, c) + " AC "@ + value,
        ComponentType::Diode => two_nodes("D"@, m, c) + " D"@ + diode_model(c.component_type),
        ComponentType::NpnTransistor => "Q"@ + c.id@ + " "@ + node_at(m, c, 1) + " "@ + node_at(m, c, 0) + " "@ + node_at(m, c, 2) + " QNPN"@,
        ComponentType::PnpTransistor => "Q"@ + c.id@ + " "@ + node_at(m, c, 2) + " "@ + node_at(m, c, 0) + " "@ + node_at(m, c, 1) + " QPNP"@,
        ComponentType::NmosTransistor => "M"@ + c.id@ + " "@ + node_at(m, c, 1) + " "@ + node_at(m, c, 0) + " "@ + node_at(m, c, 2) + " "@ + node_at(m, c, 2) + " NMOS"@,
        ComponentType::PmosTransistor => "M"@ + c.id@ + " "@ + node_at(m, c, 1) + " "@ + node_at(m, c, 0) + " "@ + node_at(m, c, 2) + " "@ + node_at(m, c, 2) + " PMOS"@,
        ComponentType::OpAmp => "X"@ + c.id@ + " "@ + node_at(m, c, 0) + " "@ + node_at(m, c, 1) + " "@ + node_at(m, c, 2) + " OPAMP"@,
        ComponentType::SignalGround | ComponentType::ChassisGround | ComponentType::EarthGround => Seq::empty(),
        _ => "* Component "@ + c.id@ + " of type "@ + variant_name(c.component_type) + " not supported in SPICE export"@,
    }
}

fn node_names(m: &NetMap, c: &Component) -> (r: Vec<String>)
    requires
        m.wf(),
    ensures
        r@.len() == spice_pins(c.component_type).len(),
        forall|i: int| 0 <= i < r@.len() ==> (#[trigger] r@[i])@ == node_at(*m, *c, i),
{
    let pins = get_component_pins_for_spice(&c.component_type);
    let mut out: Vec<String> = Vec::new();
    let mut i: usize = 0;
    while i < pins.len()
        invariant
            m.wf(),
            pins@.len() == spice_pins(c.component_type).len(),
            forall|q: int| 0 <= q < pins@.len() ==> (#[trigger] pins@[q])@ == spice_pins(c.component_type)[q],
            i <= pins@.len(),
            out@.len() == i,
            forall|q: int| 0 <= q < i ==> (#[trigger] out@[q])@ == node_at(*m, *c, q),
        decreases pins.len() - i,
    {
        let name = match m.net_of(c.id.as_str(), pins[i].as_str()) {
            Some(n) => n,
            None => String::from_str("0"),
        };
        proof {
            assert(pins@[i as int]@ == spice_pins(c.component_type)[i as int]);
        }
        out.push(name);
        i = i + 1;
    }
    out
}

fn two_node_text(prefix: &str, c: &Component, n: &Vec<String>, Ghost(m): Ghost<NetMap>) -> (r: String)
    requires
        n@.len() >= 2,
        n@[0]@ == node_at(m, *c, 0),
        n@[1]@ == node_at(m, *c, 1),
    ensures
        r@ == two_nodes(prefix@, m, *c),
{
    let mut line = String::from_str(prefix);
    line.append(c.id.as_str());
    line.append(" ");
    line.append(n[0].as_str());
    line.append(" ");
    line.append(n[1].as_str());
    proof {
        assert(line@ =~= two_nodes(prefix@, m, *c));
    }
    line
}

/// The SPICE line of a component, given its value already in SPICE notation.
pub fn component_to_spice(component: &Component, m: &NetMap, value: &str) -> (r: String)
    requires
        m.wf(),
    ensures
        r@ == spice_line(*component, *m, value@),
{
    let n = node_names(m, component);
    let ghost g = *m;
    let c = component;
    match component.component_type {
        ComponentType::Resistor | ComponentType::Capacitor | ComponentType::Inductor
        | ComponentType::DcVoltage | ComponentType::DcCurrent | ComponentType::AcVoltage => {
            let (prefix, sep) = match component.component_type {
                ComponentType::Resistor => ("R", " "),
                ComponentType::Capacitor => ("C", " "),
                ComponentType::Inductor => ("L", " "),
                ComponentType::DcVoltage => ("V", " DC "),
                ComponentType::DcCurrent => ("I", " DC "),
                _ => ("V", " AC "),
            };
            let mut line = two_node_text(prefix, c, &n, Ghost(g));
            line.append(sep);
            line.append(value);
            proof {
                assert(line@ =~= spice_line(*component, *m, value@));
            }
            line
        },
        ComponentType::Diode => {
            let mut line = two_node_text("D", c, &n, Ghost(g));
            line.append(" D");
            line.append(get_diode_model(component));
            proof {
                assert(line@ =~= spice_line(*component, *m, value@));
            }
            line
        },
        ComponentType::NpnTransistor | ComponentType::PnpTransistor | ComponentType::OpAmp => {
            let (prefix, a, b, d, model) = match component.component_type {
                ComponentType::NpnTransistor => ("Q", 1usize, 0usize, 2usize, " QNPN"),
                ComponentType::PnpTransistor => ("Q", 2usize, 0usize, 1usize, " QPNP"),
                _ => ("X", 0usize, 1usize, 2usize, " OPAMP"),
            };
            let mut line = String::from_str(prefix);
            line.append(c.id.as_str());
            line.append(" ");
            line.append(n[a].as_str());
            line.append(" ");
            line.append(n[b].as_str());
            line.append(" ");
            line.append(n[d].as_str());
            line.append(model);
            proof {
                assert(line@ =~= spice_line(*component, *m, value@));
            }
            line
        },
        ComponentType::NmosTransistor | ComponentType::PmosTransistor => {
            let model = if component.component_type == ComponentType::NmosTransistor { " NMOS" } else { " PMOS" };
            let mut line = String::from_str("M");
            line.append(c.id.as_str());
            line.append(" ");
            line.append(n[1].as_str());
            line.append(" ");
            line.append(n[0].as_str());
            line.append(" ");
            line.append(n[2].as_str());
            line.append(" ");
            line.append(n[2].as_str());
            line.append(model);
            proof {
                assert(line@ =~= spice_line(*component, *m, value@));
            }
            line
        },
        ComponentType::SignalGround | ComponentType::ChassisGround | ComponentType::EarthGround => {
            String::new()
        },
        _ => {
            let mut line = String::from_str("* Component ");
            line.append(c.id.as_str());
            line.append(" of type ");
            line.append(component.component_type.variant());
            line.append(" not supported in SPICE export");
            proof {
                assert(line@ =~= spice_line(*component, *m, value@));
            }
            line
        },
    }
}

/// The value a component's SPICE line starts from: its own, or the kind's default.
pub open spec fn raw_value(c: Component) -> Seq<char> {
    match c.value {
        Some(v) => v@,
        None => match c.component_type {
            ComponentType::Resistor => "1"@,
            ComponentType::Capacitor => "1pF"@,
            ComponentType::Inductor => "1\u{b5}H"@,
            ComponentType::DcVoltage | ComponentType::AcVoltage => "0V"@,
            ComponentType::DcCurrent => "0A"@,
            _ => Seq::empty(),
        },
    }
}

/// The value a component's SPICE line starts from: its own, or the kind's default.
pub fn spice_raw_value(c: &Component) -> (r: String)
    ensures
        r@ == raw_value(*c),
{
    match &c.value {
        Some(v) => v.clone(),
        None => match c.component_type {
            ComponentType::Resistor => String::from_str("1"),
            ComponentType::Capacitor => String::from_str("1pF"),
            ComponentType::Inductor => String::from_str("1\u{b5}H"),
            ComponentType::DcVoltage | ComponentType::AcVoltage => String::from_str("0V"),
            ComponentType::DcCurrent => String::from_str("0A"),
            _ => String::new(),
        },
    }
}

/// The component lines of a netlist: each non-empty line followed by a newline.
pub open spec fn spice_lines(comps: Seq<Component>, m: NetMap, values: Seq<String>, k: int) -> Seq<char>
    decreases k,
{
    if k <= 0 || k > comps.len() {
        Seq::empty()
    } else {
        let line = spice_line(comps[k - 1], m, values[k - 1]@);
        spice_lines(comps, m, values, k - 1) + if line.len() == 0 { Seq::empty() } else { line.push('\n') }
    }
}

pub open spec fn point_text(p: ConnectionPoint) -> Seq<char> {
    p.component_id@ + ":"@ + p.pin@
}

/// One comment line per wire.
pub open spec fn wire_comments(conns: Seq<crate::parser::Connection>, k: int) -> Seq<char>
    decreases k,
{
    if k <= 0 || k > conns.len() {
        Seq::empty()
    } else {
        wire_comments(conns, k - 1) + "* "@ + point_text(conns[k - 1].from) + " -> "@ + point_text(conns[k - 1].to) + "\n"@
    }
}

/// The whole netlist text for a net map and the components' values in SPICE notation.
pub open spec fn spice_text(circuit: Circuit, m: NetMap, values: Seq<String>) -> Seq<char> {
    "* Mieza SPICE Netlist\n* Generated from CDL\n\n"@ + spice_lines(circuit.components@, m, values, circuit.components@.len() as int)
        + "\n* Connections:\n"@ + wire_comments(circuit.connections@, circuit.connections@.len() as int) + "\n.end\n"@
}

/// Writes the SPICE netlist of a circuit; `values[k]` is the value of
/// component `k` already in SPICE notation.
pub fn export_spice(circuit: &Circuit, values: &Vec<String>) -> (r: String)
    requires
        ids_unique(circuit.components@),
        circuit.connections@.len() <= MAX_ITEMS,
        values@.len() == circuit.components@.len(),
    ensures
        exists|m: NetMap| nets_resolved(*circuit, m) && r@ == spice_text(*circuit, m, values@),
{
    let m = create_net_mapping(circuit);
    proof {
        reveal(nets_resolved);
    }
    let mut out = String::from_str("* Mieza SPICE Netlist\n* Generated from CDL\n\n");
    let ghost head = out@;
    let mut k: usize = 0;
    while k < circuit.components.len()
        invariant
            m.wf(),
            values@.len() == circuit.components@.len(),
            k <= circuit.components@.len(),
            out@ == head + spice_lines(circuit.components@, m, values@, k as int),
        decreases circuit.components.len() - k,
    {
        let line = component_to_spice(&circuit.components[k], &m, values[k].as_str());
        if !line.as_str().is_empty() {
            out.append(line.as_str());
            out.append("\n");
        }
        proof {
            reveal_strlit("\n");
            let l = spice_line(circuit.components@[k as int], m, values@[k as int]@);
            assert(line@ == l);
            if l.len() == 0 {
                assert(out@ =~= head + spice_lines(circuit.components@, m, values@, k + 1));
            } else {
                assert(out@ =~= head + spice_lines(circuit.components@, m, values@, k + 1));
            }
        }
        k = k + 1;
    }
    out.append("\n* Connections:\n");
    let ghost mid = out@;
    let mut j: usize = 0;
    while j < circuit.connections.len()
        invariant
            j <= circuit.connections@.len(),
            out@ == mid + wire_comments(circuit.connections@, j as int),
        decreases circuit.connections.len() - j,
    {
        let c = &circuit.connections[j];
        out.append("* ");
        out.append(c.from.component_id.as_str());
        out.append(":");
        out.append(c.from.pin.as_str());
        out.append(" -> ");
        out.append(c.to.component_id.as_str());
        out.append(":");
        out.append(c.to.pin.as_str());
        out.append("\n");
        proof {
            assert(out@ =~= mid + wire_comments(circuit.connections@, j + 1));
        }
        j = j + 1;
    }
    out.append("\n.end\n");
    proof {
        assert(out@ =~= spice_text(*circuit, m, values@));
    }
    out
}

/// `s` without one trailing `upper` or `lower` unit letter.
pub open spec fn strip_unit(s: Seq<char>, upper: char, lower: char) -> Seq<char> {
    if s.len() > 0 && (s.last() == upper || s.last() == lower) { s.drop_last() } else { s }
}

/// `t` without one trailing `upper` or `lower` unit letter.
pub fn drop_unit(t: &str, upper: char, lower: char) -> (r: String)
    ensures
        r@ == strip_unit(t@, upper, lower),
{
    let cs = chars_of(t);
    let n = cs.len();
    if n > 0 && (cs[n - 1] == upper || cs[n - 1] == lower) {
        let body = t.substring_char(0, n - 1);
        proof {
            assert(body@ =~= t@.drop_last());
        }
        String::from_str(body)
    } else {
        String::from_str(t)
    }
}

fn without_unit(value: &str, upper: char, lower: char) -> (r: String)
    ensures
        r@ == strip_unit(trim_of(value@), upper, lower),
{
    let t = trimmed_text(value);
    drop_unit(t.as_str(), upper, lower)
}

/// A voltage in SPICE notation: trimmed, without a trailing `V` or `v`.
pub fn normalize_voltage_value(value: &str) -> (r: String)
    ensures
        r@ == strip_unit(trim_of(value@), 'V', 'v'),
{
    without_unit(value, 'V', 'v')
}

/// A current in SPICE notation: trimmed, without a trailing `A` or `a`.
pub fn normalize_current_value(value: &str) -> (r: String)
    ensures
        r@ == strip_unit(trim_of(value@), 'A', 'a'),
{
    without_unit(value, 'A', 'a')
}

pub type PinKey = (Seq<char>, Seq<char>);

/// `w` walks from pin `x` to pin `y`, each step joining two pins directly.
pub open spec fn walk(circuit: Circuit, w: Seq<PinKey>, x: PinKey, y: PinKey) -> bool {
    &&& w.len() >= 1
    &&& w[0] == x
    &&& w.last() == y
    &&& forall|k: int| 0 <= k < w.len() - 1 ==> joined(circuit, #[trigger] w[k], w[k + 1])
}

proof fn lemma_joined_symmetric(circuit: Circuit, a: PinKey, b: PinKey)
    requires
        joined(circuit, a, b),
    ensures
        joined(circuit, b, a),
{
    if exists|j: int| 0 <= j < circuit.connections@.len() && {
        let c = #[trigger] circuit.connections@[j];
        (key_of(c.from) == a && key_of(c.to) == b) || (key_of(c.from) == b && key_of(c.to) == a)
    } {
        let j = choose|j: int| 0 <= j < circuit.connections@.len() && {
            let c = #[trigger] circuit.connections@[j];
            (key_of(c.from) == a && key_of(c.to) == b) || (key_of(c.from) == b && key_of(c.to) == a)
        };
        let c = circuit.connections@[j];
    } else {
        let (d, p, q) = choose|d: int, p: int, q: int| 0 <= d < circuit.nets@.len() && 0 <= p < circuit.nets@[d].nodes@.len() && 0 <= q < circuit.nets@[d].nodes@.len() && key_of(#[trigger] circuit.nets@[d].nodes@[p]) == a && key_of(#[trigger] circuit.nets@[d].nodes@[q]) == b;
        assert(key_of(circuit.nets@[d].nodes@[q]) == b && key_of(circuit.nets@[d].nodes@[p]) == a);
    }
}

proof fn lemma_walk_reverse(circuit: Circuit, w: Seq<PinKey>, x: PinKey, y: PinKey)
    requires
        walk(circuit, w, x, y),
    ensures
        walk(circuit, w.reverse(), y, x),
{
    let r = w.reverse();
    let n = w.len();
    assert(r.len() == n);
    assert(r[0] == w[n - 1]);
    assert(r[n - 1] == w[0]);
    assert forall|k: int| 0 <= k < n - 1 implies joined(circuit, #[trigger] r[k], r[k + 1]) by {
        assert(r[k] == w[n - 1 - k]);
        assert(r[k + 1] == w[n - 2 - k]);
        assert(joined(circuit, w[n - 2 - k], w[n - 2 - k + 1]));
        lemma_joined_symmetric(circuit, w[n - 2 - k], w[n - 1 - k]);
    }
}

proof fn lemma_walk_glue(circuit: Circuit, w1: Seq<PinKey>, w2: Seq<PinKey>, x: PinKey, y: PinKey, z: PinKey)
    requires
        walk(circuit, w1, x, y),
        walk(circuit, w2, y, z),
    ensures
        walk(circuit, w1 + w2.drop_first(), x, z),
{
    let r = w1 + w2.drop_first();
    let n1 = w1.len();
    assert forall|k: int| 0 <= k < r.len() - 1 implies joined(circuit, #[trigger] r[k], r[k + 1]) by {
        if k < n1 - 1 {
            assert(r[k] == w1[k] && r[k + 1] == w1[k + 1]);
        } else if k == n1 - 1 {
            assert(r[k] == w2[0] && r[k + 1] == w2[1]);
        } else {
            assert(r[k] == w2[k - n1 + 1] && r[k + 1] == w2[k - n1 + 2]);
        }
    }
    if w2.len() == 1 {
        assert(r =~= w1);
    } else {
        assert(r.last() == w2.last());
    }
}

proof fn lemma_walk_step(circuit: Circuit, a: PinKey, w: Seq<PinKey>, v: PinKey, z: PinKey)
    requires
        joined(circuit, a, v),
        walk(circuit, w, v, z),
    ensures
        walk(circuit, seq![a] + w, a, z),
{
    let r = seq![a] + w;
    assert forall|k: int| 0 <= k < r.len() - 1 implies joined(circuit, #[trigger] r[k], r[k + 1]) by {
        if k == 0 {
            assert(r[0] == a && r[1] == w[0]);
        } else {
            assert(r[k] == w[k - 1] && r[k + 1] == w[k]);
        }
    }
}

/// A node of class `gone`, reached through `u`, now reaches the founder of
/// `keep` through the direct join `u`-`v`.
proof fn lemma_walk_merge(circuit: Circuit, wx: Seq<PinKey>, wu: Seq<PinKey>, wv: Seq<PinKey>, x: PinKey, u: PinKey, v: PinKey, fg: PinKey, fk: PinKey)
    requires
        walk(circuit, wx, x, fg),
        walk(circuit, wu, u, fg),
        walk(circuit, wv, v, fk),
        joined(circuit, u, v),
    ensures
        walk(circuit, wx + wu.reverse().drop_first() + wv, x, fk),
{
    lemma_walk_reverse(circuit, wu, u, fg);
    lemma_walk_glue(circuit, wx, wu.reverse(), x, fg, u);
    let w1 = wx + wu.reverse().drop_first();
    lemma_walk_step(circuit, u, wv, v, fk);
    lemma_walk_glue(circuit, w1, seq![u] + wv, x, u, fk);
    assert((seq![u] + wv).drop_first() =~= wv);
    assert(w1 + wv =~= wx + wu.reverse().drop_first() + wv);
}

/// The class of the pin `k` among `pins`, whose classes are `classes`.
pub open spec fn class_of(pins: Seq<ConnectionPoint>, classes: Seq<usize>, k: PinKey) -> int {
    classes[choose|i: int| 0 <= i < pins.len() && key_of(pins[i]) == k] as int
}

/// Declaration `d` has a member in class `c`.
pub open spec fn decl_hits(circuit: Circuit, pins: Seq<ConnectionPoint>, classes: Seq<usize>, c: int, d: int) -> bool {
    exists|q: int| 0 <= q < circuit.nets@[d].nodes@.len() && class_of(pins, classes, key_of(#[trigger] circuit.nets@[d].nodes@[q])) == c
}

/// The first declaration, from `d` on, with a member in class `c`.
pub open spec fn first_decl(circuit: Circuit, pins: Seq<ConnectionPoint>, classes: Seq<usize>, c: int, d: int) -> Option<int>
    decreases circuit.nets@.len() - d,
{
    if d < 0 || d >= circuit.nets@.len() {
        None
    } else if decl_hits(circuit, pins, classes, c, d) {
        Some(d)
    } else {
        first_decl(circuit, pins, classes, c, d + 1)
    }
}

/// The class of wire `j`'s source pin.
pub open spec fn wire_class(circuit: Circuit, pins: Seq<ConnectionPoint>, classes: Seq<usize>, j: int) -> int {
    class_of(pins, classes, key_of(circuit.connections@[j].from))
}

/// Wire `j` is the first to reach its class.
pub open spec fn first_wire(circuit: Circuit, pins: Seq<ConnectionPoint>, classes: Seq<usize>, j: int) -> bool {
    forall|i: int| 0 <= i < j ==> wire_class(circuit, pins, classes, i) != wire_class(circuit, pins, classes, j)
}

/// Pin `k` is named by a declaration or by one of the first `j` wires.
pub open spec fn appears_before(circuit: Circuit, k: PinKey, j: int) -> bool {
    (exists|d: int, q: int| 0 <= d < circuit.nets@.len() && 0 <= q < circuit.nets@[d].nodes@.len() && key_of(#[trigger] circuit.nets@[d].nodes@[q]) == k)
        || (exists|i: int| 0 <= i < j && (key_of((#[trigger] circuit.connections@[i]).from) == k || key_of(circuit.connections@[i].to) == k))
}

/// Wire `j` opens a fresh, automatically named class: neither of its pins
/// belongs to a class yet when it is processed.
pub open spec fn opens_net(circuit: Circuit, j: int) -> bool {
    !appears_before(circuit, key_of(circuit.connections@[j].from), j) && !appears_before(circuit, key_of(circuit.connections@[j].to), j)
}

/// How many of the first `j` wires open a fresh class.
pub open spec fn opened_before(circuit: Circuit, j: int) -> nat
    decreases j,
{
    if j <= 0 {
        0
    } else {
        opened_before(circuit, j - 1) + if opens_net(circuit, j - 1) { 1nat } else { 0nat }
    }
}

/// The class of pin `a` holds a pin of a ground component.
pub open spec fn class_grounded(circuit: Circuit, pins: Seq<ConnectionPoint>, classes: Seq<usize>, a: int) -> bool {
    exists|b: int| 0 <= b < pins.len() && classes[b] == classes[a] && is_ground_pin(circuit, key_of(#[trigger] pins[b]))
}

/// `name` is the net id of pin `a`: "0" when its class holds a ground pin;
/// otherwise the name of the first declaration with a member in its class;
/// otherwise `N<k>`, where `k` counts the fresh classes wires opened up to
/// and including the first wire that reaches the class.
pub open spec fn named_as_specified(circuit: Circuit, pins: Seq<ConnectionPoint>, classes: Seq<usize>, a: int, name: Seq<char>) -> bool {
    let c = classes[a] as int;
    if class_grounded(circuit, pins, classes, a) {
        name == "0"@
    } else {
        match first_decl(circuit, pins, classes, c, 0) {
            Some(d) => name == circuit.nets@[d].name@,
            None => forall|j: int| 0 <= j < circuit.connections@.len() && #[trigger] wire_class(circuit, pins, classes, j) == c
                && first_wire(circuit, pins, classes, j) ==> name == "N"@ + decimal((opened_before(circuit, j) + 1) as nat),
        }
    }
}

/// The id a class gets from whether it is grounded, its owning declaration and its number.
spec fn class_net(circuit: Circuit, grounded: bool, o: Option<usize>, n: u64) -> Seq<char> {
    if grounded {
        "0"@
    } else {
        match o {
            Some(e) => circuit.nets@[e as int].name@,
            None => "N"@ + decimal(n as nat),
        }
    }
}

/// Class `k`'s first declaration among the first `d`, if any, is `o`.
spec fn owner_ok(circuit: Circuit, pins: Seq<ConnectionPoint>, classes: Seq<usize>, o: Option<usize>, k: int, d: int) -> bool {
    match o {
        Some(e) => e < d && decl_hits(circuit, pins, classes, k, e as int) && forall|f: int| 0 <= f < e ==> !decl_hits(circuit, pins, classes, k, f),
        None => forall|f: int| 0 <= f < d ==> !decl_hits(circuit, pins, classes, k, f),
    }
}

/// While declaration `d` is scanned up to member `q`: class `k`'s owner so far is `o`.
spec fn owner_mid(circuit: Circuit, pins: Seq<ConnectionPoint>, classes: Seq<usize>, o: Option<usize>, k: int, d: int, q: int) -> bool {
    match o {
        Some(e) => (e < d && decl_hits(circuit, pins, classes, k, e as int) && forall|f: int| 0 <= f < e ==> !decl_hits(circuit, pins, classes, k, f))
            || (e == d && (forall|f: int| 0 <= f < d ==> !decl_hits(circuit, pins, classes, k, f))
                && exists|p: int| 0 <= p < q && class_of(pins, classes, key_of(#[trigger] circuit.nets@[d].nodes@[p])) == k),
        None => (forall|f: int| 0 <= f < d ==> !decl_hits(circuit, pins, classes, k, f))
            && forall|p: int| 0 <= p < q ==> class_of(pins, classes, key_of(#[trigger] circuit.nets@[d].nodes@[p])) != k,
    }
}

/// After the first `j` wires: an unowned class has a number exactly when a wire reached it,
/// and that number counts the nets opened up to its first wire.
spec fn auto_ok(circuit: Circuit, pins: Seq<ConnectionPoint>, classes: Seq<usize>, o: Option<usize>, n: u64, k: int, j: int) -> bool {
    &&& (o.is_none() ==> (n == 0 <==> forall|i: int| 0 <= i < j ==> wire_class(circuit, pins, classes, i) != k))
    &&& (n != 0 ==> o.is_none() && exists|i: int| 0 <= i < j && wire_class(circuit, pins, classes, i) == k
        && first_wire(circuit, pins, classes, i) && n == opened_before(circuit, i) + 1)
}

/// A pin named by a declaration or an earlier wire is already a node.
proof fn lemma_seen_is_node(circuit: Circuit, nodes: Seq<ConnectionPoint>, class: Seq<usize>, decl_idx: Seq<Seq<int>>, from_idx: Seq<int>, to_idx: Seq<int>, k: PinKey, j: int)
    requires
        decl_idx.len() == circuit.nets@.len(),
        forall|e: int, p: int| 0 <= e < circuit.nets@.len() && 0 <= p < circuit.nets@[e].nodes@.len() ==> {
            let i = #[trigger] decl_idx[e][p];
            &&& 0 <= i < nodes.len()
            &&& key_of(nodes[i]) == key_of(circuit.nets@[e].nodes@[p])
            &&& class[i] == class[decl_idx[e][0]]
        },
        0 <= j <= from_idx.len(),
        forall|p: int| 0 <= p < j ==> #[trigger] wire_joined(nodes, class, from_idx, to_idx, circuit.connections@, p),
        forall|x: int| 0 <= x < nodes.len() ==> key_of(#[trigger] nodes[x]) != k,
    ensures
        !appears_before(circuit, k, j),
{
    if appears_before(circuit, k, j) {
        if exists|d: int, q: int| 0 <= d < circuit.nets@.len() && 0 <= q < circuit.nets@[d].nodes@.len() && key_of(#[trigger] circuit.nets@[d].nodes@[q]) == k {
            let (d, q) = choose|d: int, q: int| 0 <= d < circuit.nets@.len() && 0 <= q < circuit.nets@[d].nodes@.len() && key_of(#[trigger] circuit.nets@[d].nodes@[q]) == k;
            let x = decl_idx[d][q];
            assert(key_of(nodes[x]) == k);
        } else {
            let i = choose|i: int| 0 <= i < j && (key_of((#[trigger] circuit.connections@[i]).from) == k || key_of(circuit.connections@[i].to) == k);
            assert(wire_joined(nodes, class, from_idx, to_idx, circuit.connections@, i));
            assert(key_of(nodes[from_idx[i]]) != k);
            assert(key_of(nodes[to_idx[i]]) != k);
        }
    }
}

proof fn lemma_class_of_at(pins: Seq<ConnectionPoint>, classes: Seq<usize>, i: int)
    requires
        keys_distinct(pins),
        0 <= i < pins.len(),
    ensures
        class_of(pins, classes, key_of(pins[i])) == classes[i] as int,
{
    let k = key_of(pins[i]);
    assert(0 <= i < pins.len() && key_of(pins[i]) == k);
    let c = choose|q: int| 0 <= q < pins.len() && key_of(pins[q]) == k;
    assert(c == i);
}

/// `first_decl` from `d` finds the least declaration at or after `d` with a member in `c`.
proof fn lemma_first_decl(circuit: Circuit, pins: Seq<ConnectionPoint>, classes: Seq<usize>, c: int, d: int)
    requires
        0 <= d <= circuit.nets@.len(),
    ensures
        (forall|e: int| d <= e < circuit.nets@.len() ==> !decl_hits(circuit, pins, classes, c, e)) <==> first_decl(circuit, pins, classes, c, d).is_none(),
        forall|e: int| d <= e < circuit.nets@.len() && decl_hits(circuit, pins, classes, c, e)
            && (forall|f: int| d <= f < e ==> !decl_hits(circuit, pins, classes, c, f)) ==> first_decl(circuit, pins, classes, c, d) == Some(e),
        first_decl(circuit, pins, classes, c, d) matches Some(e) ==> d <= e < circuit.nets@.len() && decl_hits(circuit, pins, classes, c, e),
    decreases circuit.nets@.len() - d,
{
    if d < circuit.nets@.len() {
        lemma_first_decl(circuit, pins, classes, c, d + 1);
    }
}

proof fn lemma_decimal_injective(a: nat, b: nat)
    requires
        decimal(a) == decimal(b),
    ensures
        a == b,
    decreases a,
{
    if a < 10 && b < 10 {
        assert(decimal(a) == seq![digit_char(a)]);
        assert(decimal(b) == seq![digit_char(b)]);
        assert(decimal(a)[0] == digit_char(a));
        assert(decimal(b)[0] == digit_char(b));
        lemma_digit_char_injective(a, b);
    } else if a < 10 {
        lemma_decimal_nonempty(b / 10);
        assert(decimal(b).len() >= 2);
    } else if b < 10 {
        lemma_decimal_nonempty(a / 10);
        assert(decimal(a).len() >= 2);
    } else {
        assert(decimal(a) == decimal(a / 10).push(digit_char(a % 10)));
        assert(decimal(b) == decimal(b / 10).push(digit_char(b % 10)));
        assert(decimal(a).last() == digit_char(a % 10));
        assert(decimal(b).last() == digit_char(b % 10));
        assert(decimal(a).drop_last() =~= decimal(a / 10));
        assert(decimal(b).drop_last() =~= decimal(b / 10));
        lemma_decimal_injective(a / 10, b / 10);
        lemma_digit_char_injective(a % 10, b % 10);
        assert(a == 10 * (a / 10) + a % 10);
        assert(b == 10 * (b / 10) + b % 10);
    }
}

proof fn lemma_digit_char_injective(x: nat, y: nat)
    requires
        x < 10,
        y < 10,
        digit_char(x) == digit_char(y),
    ensures
        x == y,
{
}

proof fn lemma_decimal_nonempty(n: nat)
    ensures
        decimal(n).len() >= 1,
    decreases n,
{
    if n >= 10 {
        lemma_decimal_nonempty(n / 10);
    }
}

proof fn lemma_opened_grows(circuit: Circuit, i: int, j: int)
    requires
        0 <= i <= j,
    ensures
        opened_before(circuit, i) <= opened_before(circuit, j),
    decreases j - i,
{
    if i < j {
        lemma_opened_grows(circuit, i, j - 1);
    }
}

proof fn lemma_least_wire(circuit: Circuit, pins: Seq<ConnectionPoint>, classes: Seq<usize>, c: int, j: int)
    requires
        0 <= j < circuit.connections@.len(),
        wire_class(circuit, pins, classes, j) == c,
    ensures
        exists|j0: int| 0 <= j0 <= j && wire_class(circuit, pins, classes, j0) == c && first_wire(circuit, pins, classes, j0),
    decreases j,
{
    if !first_wire(circuit, pins, classes, j) {
        let i = choose|i: int| 0 <= i < j && wire_class(circuit, pins, classes, i) == wire_class(circuit, pins, classes, j);
        lemma_least_wire(circuit, pins, classes, c, i);
    }
}

proof fn lemma_first_wire_opens(circuit: Circuit, m: NetMap, j: int)
    requires
        nets_resolved(circuit, m),
        0 <= j < circuit.connections@.len(),
        first_wire(circuit, m.pins@, m.classes@, j),
        first_decl(circuit, m.pins@, m.classes@, wire_class(circuit, m.pins@, m.classes@, j), 0).is_none(),
    ensures
        opens_net(circuit, j),
{
    reveal(nets_resolved);
    let p = m.pins@;
    let cl = m.classes@;
    let c = wire_class(circuit, p, cl, j);
    let cj = circuit.connections@[j];
    assert(class_of(p, cl, key_of(cj.to)) == c);
    lemma_first_decl(circuit, p, cl, c, 0);
    assert forall|k: PinKey| class_of(p, cl, k) == c implies !appears_before(circuit, k, j) by {
        if exists|d: int, q: int| 0 <= d < circuit.nets@.len() && 0 <= q < circuit.nets@[d].nodes@.len() && key_of(#[trigger] circuit.nets@[d].nodes@[q]) == k {
            let (d, q) = choose|d: int, q: int| 0 <= d < circuit.nets@.len() && 0 <= q < circuit.nets@[d].nodes@.len() && key_of(#[trigger] circuit.nets@[d].nodes@[q]) == k;
            assert(decl_hits(circuit, p, cl, c, d));
        }
        if exists|i: int| 0 <= i < j && (key_of((#[trigger] circuit.connections@[i]).from) == k || key_of(circuit.connections@[i].to) == k) {
            let i = choose|i: int| 0 <= i < j && (key_of((#[trigger] circuit.connections@[i]).from) == k || key_of(circuit.connections@[i].to) == k);
            assert(class_of(p, cl, key_of(circuit.connections@[i].from)) == class_of(p, cl, key_of(circuit.connections@[i].to)));
            assert(wire_class(circuit, p, cl, i) == c);
        }
    }
}

/// The id of a pin whose class has no ground pin and no declaration is `N`
/// and the number of the class's first wire.
proof fn lemma_auto_name(circuit: Circuit, m: NetMap, a: int) -> (j0: int)
    requires
        nets_resolved(circuit, m),
        0 <= a < m.pins@.len(),
        !class_grounded(circuit, m.pins@, m.classes@, a),
        first_decl(circuit, m.pins@, m.classes@, m.classes@[a] as int, 0).is_none(),
    ensures
        0 <= j0 < circuit.connections@.len(),
        wire_class(circuit, m.pins@, m.classes@, j0) == m.classes@[a] as int,
        first_wire(circuit, m.pins@, m.classes@, j0),
        m.nets@[a]@ == "N"@ + decimal((opened_before(circuit, j0) + 1) as nat),
{
    reveal(nets_resolved);
    let p = m.pins@;
    let cl = m.classes@;
    let ca = cl[a] as int;
    assert(named_as_specified(circuit, p, cl, a, m.nets@[a]@));
    let j = choose|j: int| 0 <= j < circuit.connections@.len() && wire_class(circuit, p, cl, j) == ca;
    lemma_least_wire(circuit, p, cl, ca, j);
    let j0 = choose|j0: int| 0 <= j0 <= j && wire_class(circuit, p, cl, j0) == ca && first_wire(circuit, p, cl, j0);
    j0
}

proof fn lemma_ids_grounded(circuit: Circuit, m: NetMap, a: int, b: int)
    requires
        nets_resolved(circuit, m),
        0 <= a < m.pins@.len(),
        0 <= b < m.pins@.len(),
        m.classes@[a] != m.classes@[b],
        forall|d1: int, d2: int| 0 <= d1 < circuit.nets@.len() && 0 <= d2 < circuit.nets@.len() && d1 != d2 ==> (#[trigger] circuit.nets@[d1]).name@ != (#[trigger] circuit.nets@[d2]).name@,
        forall|d: int| 0 <= d < circuit.nets@.len() ==> (#[trigger] circuit.nets@[d]).name@ != "0"@,
        forall|d: int, k: nat| 0 <= d < circuit.nets@.len() ==> #[trigger] circuit.nets@[d].name@ != #[trigger] ("N"@ + decimal(k)),
        class_grounded(circuit, m.pins@, m.classes@, a),
        !class_grounded(circuit, m.pins@, m.classes@, b),
    ensures
        m.nets@[a]@ != m.nets@[b]@,
{
    reveal(nets_resolved);
    reveal_strlit("0");
    reveal_strlit("N");
    let p = m.pins@;
    let cl = m.classes@;
    let cb = cl[b] as int;
    assert(named_as_specified(circuit, p, cl, a, m.nets@[a]@));
    assert(named_as_specified(circuit, p, cl, b, m.nets@[b]@));
    lemma_first_decl(circuit, p, cl, cb, 0);
    if first_decl(circuit, p, cl, cb, 0).is_none() {
        lemma_auto_name(circuit, m, b);
        assert(m.nets@[b]@[0] == 'N');
    }
}

proof fn lemma_ids_declared(circuit: Circuit, m: NetMap, a: int, b: int)
    requires
        nets_resolved(circuit, m),
        0 <= a < m.pins@.len(),
        0 <= b < m.pins@.len(),
        m.classes@[a] != m.classes@[b],
        forall|d1: int, d2: int| 0 <= d1 < circuit.nets@.len() && 0 <= d2 < circuit.nets@.len() && d1 != d2 ==> (#[trigger] circuit.nets@[d1]).name@ != (#[trigger] circuit.nets@[d2]).name@,
        forall|d: int| 0 <= d < circuit.nets@.len() ==> (#[trigger] circuit.nets@[d]).name@ != "0"@,
        forall|d: int, k: nat| 0 <= d < circuit.nets@.len() ==> #[trigger] circuit.nets@[d].name@ != #[trigger] ("N"@ + decimal(k)),
        !class_grounded(circuit, m.pins@, m.classes@, a),
        !class_grounded(circuit, m.pins@, m.classes@, b),
        first_decl(circuit, m.pins@, m.classes@, m.classes@[a] as int, 0).is_some(),
    ensures
        m.nets@[a]@ != m.nets@[b]@,
{
    reveal(nets_resolved);
    reveal_strlit("N");
    let p = m.pins@;
    let cl = m.classes@;
    let ca = cl[a] as int;
    let cb = cl[b] as int;
    assert(named_as_specified(circuit, p, cl, a, m.nets@[a]@));
    assert(named_as_specified(circuit, p, cl, b, m.nets@[b]@));
    lemma_first_decl(circuit, p, cl, ca, 0);
    lemma_first_decl(circuit, p, cl, cb, 0);
    let d1 = first_decl(circuit, p, cl, ca, 0).unwrap();
    if first_decl(circuit, p, cl, cb, 0).is_some() {
        let d2 = first_decl(circuit, p, cl, cb, 0).unwrap();
        if d1 == d2 {
            let q1 = choose|q: int| 0 <= q < circuit.nets@[d1].nodes@.len() && class_of(p, cl, key_of(#[trigger] circuit.nets@[d1].nodes@[q])) == ca;
            let q2 = choose|q: int| 0 <= q < circuit.nets@[d1].nodes@.len() && class_of(p, cl, key_of(#[trigger] circuit.nets@[d1].nodes@[q])) == cb;
            assert(class_of(p, cl, key_of(circuit.nets@[d1].nodes@[q1])) == class_of(p, cl, key_of(circuit.nets@[d1].nodes@[0])));
            assert(class_of(p, cl, key_of(circuit.nets@[d1].nodes@[q2])) == class_of(p, cl, key_of(circuit.nets@[d1].nodes@[0])));
        }
    } else {
        lemma_auto_name(circuit, m, b);
        assert(m.nets@[b]@[0] == 'N');
    }
}

#[verifier::rlimit(100)]
#[verifier::spinoff_prover]
proof fn lemma_ids_automatic(circuit: Circuit, m: NetMap, a: int, b: int)
    requires
        nets_resolved(circuit, m),
        0 <= a < m.pins@.len(),
        0 <= b < m.pins@.len(),
        m.classes@[a] != m.classes@[b],
        forall|d1: int, d2: int| 0 <= d1 < circuit.nets@.len() && 0 <= d2 < circuit.nets@.len() && d1 != d2 ==> (#[trigger] circuit.nets@[d1]).name@ != (#[trigger] circuit.nets@[d2]).name@,
        forall|d: int| 0 <= d < circuit.nets@.len() ==> (#[trigger] circuit.nets@[d]).name@ != "0"@,
        forall|d: int, k: nat| 0 <= d < circuit.nets@.len() ==> #[trigger] circuit.nets@[d].name@ != #[trigger] ("N"@ + decimal(k)),
        !class_grounded(circuit, m.pins@, m.classes@, a),
        !class_grounded(circuit, m.pins@, m.classes@, b),
        first_decl(circuit, m.pins@, m.classes@, m.classes@[a] as int, 0).is_none(),
        first_decl(circuit, m.pins@, m.classes@, m.classes@[b] as int, 0).is_none(),
    ensures
        m.nets@[a]@ != m.nets@[b]@,
{
    let ja = lemma_auto_name(circuit, m, a);
    let jb = lemma_auto_name(circuit, m, b);
    let na = (opened_before(circuit, ja) + 1) as nat;
    let nb = (opened_before(circuit, jb) + 1) as nat;
    if ja < jb {
        lemma_first_wire_opens(circuit, m, ja);
        lemma_opened_grows(circuit, ja + 1, jb);
    } else {
        lemma_first_wire_opens(circuit, m, jb);
        lemma_opened_grows(circuit, jb + 1, ja);
    }
    assert(na != nb);
    lemma_automatic_names_differ(na, nb);
}

proof fn lemma_automatic_names_differ(na: nat, nb: nat)
    requires
        na != nb,
    ensures
        "N"@ + decimal(na) != "N"@ + decimal(nb),
{
    reveal_strlit("N");
    if "N"@ + decimal(na) == "N"@ + decimal(nb) {
        assert(decimal(na) =~= ("N"@ + decimal(na)).skip(1));
        assert(decimal(nb) =~= ("N"@ + decimal(nb)).skip(1));
        lemma_decimal_injective(na, nb);
    }
}

/// When no two declared nets share a name and no declared name is "0" or
/// `N` followed by a number, two pins get the same net id only if they are in the
/// same class or both their classes are grounded.
pub proof fn lemma_net_ids_distinct(circuit: Circuit, m: NetMap, a: int, b: int)
    requires
        nets_resolved(circuit, m),
        0 <= a < m.pins@.len(),
        0 <= b < m.pins@.len(),
        m.classes@[a] != m.classes@[b],
        forall|d1: int, d2: int| 0 <= d1 < circuit.nets@.len() && 0 <= d2 < circuit.nets@.len() && d1 != d2 ==> (#[trigger] circuit.nets@[d1]).name@ != (#[trigger] circuit.nets@[d2]).name@,
        forall|d: int| 0 <= d < circuit.nets@.len() ==> (#[trigger] circuit.nets@[d]).name@ != "0"@,
        forall|d: int, k: nat| 0 <= d < circuit.nets@.len() ==> #[trigger] circuit.nets@[d].name@ != #[trigger] ("N"@ + decimal(k)),
        !(class_grounded(circuit, m.pins@, m.classes@, a) && class_grounded(circuit, m.pins@, m.classes@, b)),
    ensures
        m.nets@[a]@ != m.nets@[b]@,
{
    let p = m.pins@;
    let cl = m.classes@;
    if class_grounded(circuit, p, cl, a) {
        lemma_ids_grounded(circuit, m, a, b);
    } else if class_grounded(circuit, p, cl, b) {
        lemma_ids_grounded(circuit, m, b, a);
    } else if first_decl(circuit, p, cl, cl[a] as int, 0).is_some() {
        lemma_ids_declared(circuit, m, a, b);
    } else if first_decl(circuit, p, cl, cl[b] as int, 0).is_some() {
        lemma_ids_declared(circuit, m, b, a);
    } else {
        lemma_ids_automatic(circuit, m, a, b);
    }
}
proof fn lemma_joined_class(circuit: Circuit, m: NetMap, x: PinKey, y: PinKey)
    requires
        nets_resolved(circuit, m),
        joined(circuit, x, y),
    ensures
        m.has(x),
        m.has(y),
        class_of(m.pins@, m.classes@, x) == class_of(m.pins@, m.classes@, y),
{
    reveal(nets_resolved);
    if exists|j: int| 0 <= j < circuit.connections@.len() && {
        let c = #[trigger] circuit.connections@[j];
        (key_of(c.from) == x && key_of(c.to) == y) || (key_of(c.from) == y && key_of(c.to) == x)
    } {
        let j = choose|j: int| 0 <= j < circuit.connections@.len() && {
            let c = #[trigger] circuit.connections@[j];
            (key_of(c.from) == x && key_of(c.to) == y) || (key_of(c.from) == y && key_of(c.to) == x)
        };
        let c = circuit.connections@[j];
    } else {
        let (d, p, q) = choose|d: int, p: int, q: int| 0 <= d < circuit.nets@.len() && 0 <= p < circuit.nets@[d].nodes@.len() && 0 <= q < circuit.nets@[d].nodes@.len() && key_of(#[trigger] circuit.nets@[d].nodes@[p]) == x && key_of(#[trigger] circuit.nets@[d].nodes@[q]) == y;
        assert(m.has(key_of(circuit.nets@[d].nodes@[p])));
        assert(m.has(key_of(circuit.nets@[d].nodes@[q])));
    }
}

proof fn lemma_walk_same_class(circuit: Circuit, m: NetMap, w: Seq<PinKey>, x: PinKey, y: PinKey)
    requires
        nets_resolved(circuit, m),
        walk(circuit, w, x, y),
        m.has(x),
    ensures
        m.has(y),
        class_of(m.pins@, m.classes@, x) == class_of(m.pins@, m.classes@, y),
    decreases w.len(),
{
    if w.len() > 1 {
        let v = w.drop_last();
        let z = v.last();
        assert forall|k: int| 0 <= k < v.len() - 1 implies joined(circuit, #[trigger] v[k], v[k + 1]) by {
            assert(joined(circuit, w[k], w[k + 1]));
        }
        lemma_walk_same_class(circuit, m, v, x, z);
        assert(joined(circuit, w[w.len() - 2], w[w.len() - 1]));
        lemma_joined_class(circuit, m, z, y);
    }
}

/// Whether a pin is on net "0" does not depend on the order of the wires:
/// when no declared net is named "0", a pin is on net "0" exactly when a walk
/// of wires and declared nets joins it to a pin of a ground component.
pub proof fn lemma_zero_iff_walk_to_ground(circuit: Circuit, m: NetMap, a: int)
    requires
        nets_resolved(circuit, m),
        0 <= a < m.pins@.len(),
        forall|d: int| 0 <= d < circuit.nets@.len() ==> (#[trigger] circuit.nets@[d]).name@ != "0"@,
    ensures
        m.nets@[a]@ == "0"@ <==> exists|b: int, w: Seq<PinKey>| 0 <= b < m.pins@.len() && is_ground_pin(circuit, key_of(m.pins@[b]))
            && #[trigger] walk(circuit, w, key_of(m.pins@[a]), key_of(m.pins@[b])),
{
    reveal(nets_resolved);
    reveal_strlit("0");
    reveal_strlit("N");
    let p = m.pins@;
    let cl = m.classes@;
    assert(named_as_specified(circuit, p, cl, a, m.nets@[a]@));
    lemma_first_decl(circuit, p, cl, cl[a] as int, 0);
    if m.nets@[a]@ == "0"@ {
        if class_grounded(circuit, p, cl, a) {
            let b = choose|b: int| 0 <= b < p.len() && cl[b] == cl[a] && is_ground_pin(circuit, key_of(#[trigger] p[b]));
            let w = choose|w: Seq<PinKey>| walk(circuit, w, key_of(p[a]), key_of(p[b]));
        } else if first_decl(circuit, p, cl, cl[a] as int, 0).is_none() {
            lemma_auto_name(circuit, m, a);
            assert(m.nets@[a]@[0] == 'N');
        }
    }
    if exists|b: int, w: Seq<PinKey>| 0 <= b < m.pins@.len() && is_ground_pin(circuit, key_of(m.pins@[b]))
        && #[trigger] walk(circuit, w, key_of(m.pins@[a]), key_of(m.pins@[b])) {
        let (b, w) = choose|b: int, w: Seq<PinKey>| 0 <= b < m.pins@.len() && is_ground_pin(circuit, key_of(m.pins@[b]))
            && #[trigger] walk(circuit, w, key_of(m.pins@[a]), key_of(m.pins@[b]));
        lemma_net_at(m, a);
        lemma_walk_same_class(circuit, m, w, key_of(p[a]), key_of(p[b]));
        lemma_class_of_at(p, cl, a);
        lemma_class_of_at(p, cl, b);
        assert(class_grounded(circuit, p, cl, a));
    }
}

} // verus!
