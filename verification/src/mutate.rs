//! Mutation operators that explore circuit topologies.

use vstd::prelude::*;
use crate::circuit::{
    ascii_upper, is_two_terminal, letter_type, required_pins, insert_node, insert_nodes, Circuit, CircuitView, Component, ComponentType, ComponentView,
    NODE_GND, NODE_IN, NODE_OUT, NODE_VCC, NODE_VEE,
};
use crate::validate::vec_contains;
use crate::text::{contains_text, fold, fold_char, str_contains};
use crate::rng::{lemma_rolls_band, random_below, rolls_where, PERCENT_ROLLS};
use crate::rng::{random_bool, random_index};

verus! {

/// E24 standard resistor values from 10 Ohm to 1 MOhm.
pub const E24_VALUES: [&'static str; 121] = [
    "10", "11", "12", "13", "15", "16", "18", "20", "22", "24", "27", "30", "33", "36", "39",
    "43", "47", "51", "56", "62", "68", "75", "82", "91", "100", "110", "120", "130", "150",
    "160", "180", "200", "220", "240", "270", "300", "330", "360", "390", "430", "470", "510",
    "560", "620", "680", "750", "820", "910", "1k", "1.1k", "1.2k", "1.3k", "1.5k", "1.6k",
    "1.8k", "2k", "2.2k", "2.4k", "2.7k", "3k", "3.3k", "3.6k", "3.9k", "4.3k", "4.7k", "5.1k",
    "5.6k", "6.2k", "6.8k", "7.5k", "8.2k", "9.1k", "10k", "11k", "12k", "13k", "15k", "16k",
    "18k", "20k", "22k", "24k", "27k", "30k", "33k", "36k", "39k", "43k", "47k", "51k", "56k",
    "62k", "68k", "75k", "82k", "91k", "100k", "110k", "120k", "130k", "150k", "160k", "180k",
    "200k", "220k", "240k", "270k", "300k", "330k", "360k", "390k", "430k", "470k", "510k",
    "560k", "620k", "680k", "750k", "820k", "910k", "1Meg",
];

/// E12 standard capacitor values from 10 pF to 10 uF.
pub const E12_VALUES: [&'static str; 64] = [
    "10pF", "12pF", "15pF", "18pF", "22pF", "27pF", "33pF", "39pF", "47pF", "56pF", "68pF",
    "82pF", "100pF", "120pF", "150pF", "180pF", "220pF", "270pF", "330pF", "390pF", "470pF",
    "560pF", "680pF", "820pF", "1nF", "1.2nF", "1.5nF", "1.8nF", "2.2nF", "2.7nF", "3.3nF",
    "3.9nF", "4.7nF", "5.6nF", "6.8nF", "8.2nF", "10nF", "12nF", "15nF", "18nF", "22nF", "27nF",
    "33nF", "39nF", "47nF", "56nF", "68nF", "82nF", "100nF", "120nF", "150nF", "180nF", "220nF",
    "270nF", "330nF", "390nF", "470nF", "560nF", "680nF", "820nF", "1uF", "2.2uF", "4.7uF",
    "10uF",
];

/// Two value strings that are equal once lower-cased (the table entries are ASCII).
pub open spec fn same_value_text(a: Seq<char>, b: Seq<char>) -> bool {
    a.len() == b.len() && forall|i: int| 0 <= i < a.len() ==> fold_char(#[trigger] a[i]) == fold_char(b[i])
}

/// `p` is the first table position whose entry matches `s`.
pub open spec fn is_first_match(s: Seq<char>, table: Seq<&'static str>, p: int) -> bool {
    &&& 0 <= p < table.len()
    &&& same_value_text(s, table[p]@)
    &&& forall|q: int| 0 <= q < p ==> !same_value_text(s, #[trigger] table[q]@)
}

/// Some table entry matches `s`.
pub open spec fn has_match(s: Seq<char>, table: Seq<&'static str>) -> bool {
    exists|p: int| 0 <= p < table.len() && same_value_text(s, #[trigger] table[p]@)
}

/// A possible result of stepping value `s` one position up or down `table`
/// (staying put at either end); an unknown value yields any entry.
pub open spec fn step_outcome(s: Seq<char>, table: Seq<&'static str>, r: Seq<char>) -> bool {
    if has_match(s, table) {
        exists|p: int|
            is_first_match(s, table, p) && (r == table[if p + 1 < table.len() {
                p + 1
            } else {
                p
            }]@ || r == table[if p > 0 {
                p - 1
            } else {
                p
            }]@)
    } else {
        exists|i: int| 0 <= i < table.len() && r == #[trigger] table[i]@
    }
}

/// Case-insensitive equality of a value string with a table entry.
pub fn value_text_matches(a: &str, b: &str) -> (r: bool)
    ensures
        r == same_value_text(a@, b@),
{
    let la = a.unicode_len();
    let lb = b.unicode_len();
    if la != lb {
        return false;
    }
    let mut i: usize = 0;
    while i < la
        invariant
            la == a@.len(),
            lb == b@.len(),
            la == lb,
            0 <= i <= la,
            forall|j: int| 0 <= j < i ==> fold_char(#[trigger] a@[j]) == fold_char(b@[j]),
        decreases la - i,
    {
        if fold(a.get_char(i)) != fold(b.get_char(i)) {
            return false;
        }
        i = i + 1;
    }
    true
}

/// First position of `s` in `table`, comparing case-insensitively.
fn find_position<const N: usize>(table: &[&'static str; N], s: &str) -> (r: Option<usize>)
    ensures
        match r {
            Some(p) => is_first_match(s@, table@, p as int),
            None => !has_match(s@, table@),
        },
{
    let mut p: usize = 0;
    while p < N
        invariant
            0 <= p <= N,
            table@.len() == N,
            forall|q: int| 0 <= q < p ==> !same_value_text(s@, #[trigger] table@[q]@),
        decreases N - p,
    {
        if value_text_matches(s, table[p]) {
            return Some(p);
        }
        p = p + 1;
    }
    None
}

/// Two first matches are the same position.
proof fn lemma_first_match_unique(s: Seq<char>, table: Seq<&'static str>, p: int, q: int)
    requires
        is_first_match(s, table, p),
        is_first_match(s, table, q),
    ensures
        p == q,
{
    if p < q {
        assert(!same_value_text(s, table[p]@));
    } else if q < p {
        assert(!same_value_text(s, table[q]@));
    }
}

/// The position of the first table entry matching `s` (meaningful when one
/// matches).
pub open spec fn first_match(s: Seq<char>, table: Seq<&'static str>) -> int {
    choose|p: int| is_first_match(s, table, p)
}

/// The value stepping gives for the coin `up` and, for a value not in the
/// table, the drawn entry `fallback`: from the value's first match in the
/// table, one position up (when `up`) or down, staying put at either end.
pub open spec fn stepped_value(s: Seq<char>, table: Seq<&'static str>, up: bool, fallback: int) -> Seq<char> {
    if has_match(s, table) {
        let p = first_match(s, table);
        if up {
            table[if p + 1 < table.len() {
                p + 1
            } else {
                p
            }]@
        } else {
            table[if p > 0 {
                p - 1
            } else {
                p
            }]@
        }
    } else {
        table[fallback]@
    }
}

/// Stepping for given draws (see `stepped_value`).
fn step_in_table_with<const N: usize>(table: &[&'static str; N], current: &str, up: bool, fallback: usize) -> (r:
    &'static str)
    requires
        fallback < N,
    ensures
        r@ == stepped_value(current@, table@, up, fallback as int),
        step_outcome(current@, table@, r@),
{
    match find_position(table, current) {
        Some(pos) => {
            proof {
                let p = first_match(current@, table@);
                assert(is_first_match(current@, table@, pos as int));
                lemma_first_match_unique(current@, table@, p, pos as int);
            }
            if up {
                if pos + 1 < N {
                    table[pos + 1]
                } else {
                    table[pos]
                }
            } else {
                if pos > 0 {
                    table[pos - 1]
                } else {
                    table[pos]
                }
            }
        },
        None => table[fallback],
    }
}

/// Steps a value one position up or down `table` at random, or picks a random
/// entry when the value is not in the table.
fn step_in_table<const N: usize>(table: &[&'static str; N], current: &str) -> (r: &'static str)
    requires
        N > 0,
    ensures
        step_outcome(current@, table@, r@),
        exists|up: bool, fallback: int| 0 <= fallback < N && r@ == #[trigger] stepped_value(current@, table@, up, fallback),
{
    let (up, fallback) = match find_position(table, current) {
        Some(_) => (random_bool(), 0),
        None => (false, random_index(N)),
    };
    let r = step_in_table_with(table, current, up, fallback);
    assert(r@ == stepped_value(current@, table@, up, fallback as int));
    r
}

/// Steps a resistor value up or down by one position in the E24 table.
pub fn step_e24(current: &str) -> (r: &'static str)
    ensures
        step_outcome(current@, E24_VALUES@, r@),
        exists|up: bool, fallback: int| 0 <= fallback < 121 && r@ == #[trigger] stepped_value(current@, E24_VALUES@, up, fallback),
{
    step_in_table(&E24_VALUES, current)
}

/// Steps a capacitor value up or down by one position in the E12 table.
pub fn step_e12(current: &str) -> (r: &'static str)
    ensures
        step_outcome(current@, E12_VALUES@, r@),
        exists|up: bool, fallback: int| 0 <= fallback < 64 && r@ == #[trigger] stepped_value(current@, E12_VALUES@, up, fallback),
{
    step_in_table(&E12_VALUES, current)
}

/// E24 stepping for the drawn coin `up` and, for a value not in the table,
/// the drawn entry `fallback` (see `stepped_value`).
pub fn step_e24_with(current: &str, up: bool, fallback: usize) -> (r: &'static str)
    requires
        fallback < 121,
    ensures
        r@ == stepped_value(current@, E24_VALUES@, up, fallback as int),
        step_outcome(current@, E24_VALUES@, r@),
{
    step_in_table_with(&E24_VALUES, current, up, fallback)
}

/// E12 stepping for the drawn coin `up` and, for a value not in the table,
/// the drawn entry `fallback` (see `stepped_value`).
pub fn step_e12_with(current: &str, up: bool, fallback: usize) -> (r: &'static str)
    requires
        fallback < 64,
    ensures
        r@ == stepped_value(current@, E12_VALUES@, up, fallback as int),
        step_outcome(current@, E12_VALUES@, r@),
{
    step_in_table_with(&E12_VALUES, current, up, fallback)
}

/// Largest id among the components of type `t` (0 when there is none).
pub open spec fn max_id_of(cs: Seq<ComponentView>, t: ComponentType) -> nat
    decreases cs.len(),
{
    if cs.len() == 0 {
        0
    } else {
        let m = max_id_of(cs.drop_last(), t);
        if cs.last().comp_type == t && cs.last().id > m {
            cs.last().id as nat
        } else {
            m
        }
    }
}

/// The id a new component of type `t` receives: one past the largest in use.
pub open spec fn next_id_for(c: CircuitView, t: ComponentType) -> nat {
    max_id_of(c.components, t) + 1
}

/// Every id in use by a part of type `t` is below the next id for `t`, so a
/// new part never repeats an id of its type.
pub proof fn lemma_next_id_is_fresh(c: CircuitView, t: ComponentType, i: int)
    requires
        0 <= i < c.components.len(),
        c.components[i].comp_type == t,
    ensures
        c.components[i].id < next_id_for(c, t),
{
    lemma_max_id_above(c.components, t, i);
}

proof fn lemma_max_id_above(cs: Seq<ComponentView>, t: ComponentType, i: int)
    requires
        0 <= i < cs.len(),
        cs[i].comp_type == t,
    ensures
        cs[i].id <= max_id_of(cs, t),
    decreases cs.len(),
{
    if i < cs.len() - 1 {
        lemma_max_id_above(cs.drop_last(), t, i);
        assert(cs.drop_last()[i] == cs[i]);
    }
}

/// Stepping a value always lands on an entry of the table.
pub proof fn lemma_step_stays_in_table(s: Seq<char>, table: Seq<&'static str>, r: Seq<char>)
    requires
        step_outcome(s, table, r),
    ensures
        in_table(table, r),
{
    if has_match(s, table) {
        let p = choose|p: int|
            is_first_match(s, table, p) && (r == table[if p + 1 < table.len() {
                p + 1
            } else {
                p
            }]@ || r == table[if p > 0 {
                p - 1
            } else {
                p
            }]@);
        if r == table[if p + 1 < table.len() { p + 1 } else { p }]@ {
            assert(r == table[if p + 1 < table.len() { p + 1 } else { p }]@);
        } else {
            assert(r == table[if p > 0 { p - 1 } else { p }]@);
        }
    }
}

/// Largest registered node number (0 for an empty registry).
pub open spec fn max_node_of(ns: Seq<usize>) -> nat
    decreases ns.len(),
{
    if ns.len() == 0 {
        0
    } else {
        let m = max_node_of(ns.drop_last());
        if ns.last() > m {
            ns.last() as nat
        } else {
            m
        }
    }
}

/// A node number above every registered node and above 20.
pub open spec fn fresh_node(c: CircuitView) -> nat {
    (if max_node_of(c.nodes) > 20 {
        max_node_of(c.nodes)
    } else {
        20
    }) + 1
}

/// Every component id and every registered node lies below `b`.
pub open spec fn ids_below(c: CircuitView, b: int) -> bool {
    &&& forall|i: int| 0 <= i < c.components.len() ==> (#[trigger] c.components[i]).id < b
    &&& forall|j: int| 0 <= j < c.nodes.len() ==> #[trigger] c.nodes[j] < b
}

/// Room left for the ids and node numbers one mutation hands out: every
/// component id and registered node lies below `usize::MAX - 16`.
pub open spec fn within_id_limits(c: CircuitView) -> bool {
    ids_below(c, usize::MAX - 16)
}

/// `c` with `comp` appended and its pins registered (`Circuit::add_component`).
pub open spec fn with_component(c: CircuitView, comp: ComponentView) -> CircuitView {
    CircuitView {
        nodes: insert_nodes(c.nodes, comp.nodes),
        components: c.components.push(comp),
        vcc_centivolts: c.vcc_centivolts,
        vee_centivolts: c.vee_centivolts,
    }
}

/// The pair is not a direct VCC-VEE connection.
pub open spec fn not_rail_to_rail(u: usize, v: usize) -> bool {
    !((u == NODE_VCC && v == NODE_VEE) || (u == NODE_VEE && v == NODE_VCC))
}

proof fn lemma_max_id_bound(cs: Seq<ComponentView>, t: ComponentType, b: nat)
    requires
        forall|i: int| 0 <= i < cs.len() ==> (#[trigger] cs[i]).id < b,
    ensures
        max_id_of(cs, t) < b || (cs.len() == 0 && b == 0),
    decreases cs.len(),
{
    if cs.len() > 0 {
        assert forall|i: int| 0 <= i < cs.drop_last().len() implies (#[trigger] cs.drop_last()[i]).id < b by {
            assert(cs.drop_last()[i] == cs[i]);
        }
        lemma_max_id_bound(cs.drop_last(), t, b);
        assert(cs.last() == cs[cs.len() - 1]);
    }
}

proof fn lemma_max_node_bound(ns: Seq<usize>, b: nat)
    requires
        forall|j: int| 0 <= j < ns.len() ==> #[trigger] ns[j] < b,
    ensures
        max_node_of(ns) < b || (ns.len() == 0 && b == 0),
    decreases ns.len(),
{
    if ns.len() > 0 {
        assert forall|j: int| 0 <= j < ns.drop_last().len() implies #[trigger] ns.drop_last()[j] < b by {
            assert(ns.drop_last()[j] == ns[j]);
        }
        lemma_max_node_bound(ns.drop_last(), b);
    }
}

/// Every registered node lies at or below the maximum.
pub proof fn lemma_max_node_above(ns: Seq<usize>, j: int)
    requires
        0 <= j < ns.len(),
    ensures
        ns[j] <= max_node_of(ns),
    decreases ns.len(),
{
    if j < ns.len() - 1 {
        lemma_max_node_above(ns.drop_last(), j);
        assert(ns.drop_last()[j] == ns[j]);
    }
}

/// A fresh node is not registered yet.
pub proof fn lemma_fresh_node_unregistered(c: CircuitView)
    ensures
        !c.nodes.contains(fresh_node(c) as usize) || fresh_node(c) > usize::MAX,
        fresh_node(c) > 20,
{
    if fresh_node(c) <= usize::MAX && c.nodes.contains(fresh_node(c) as usize) {
        let j = choose|j: int| 0 <= j < c.nodes.len() && c.nodes[j] == fresh_node(c) as usize;
        lemma_max_node_above(c.nodes, j);
    }
}

/// One past the largest id among components of type `comp_type`.
fn next_id(circuit: &Circuit, comp_type: ComponentType) -> (r: usize)
    requires
        forall|i: int|
            0 <= i < circuit@.components.len() ==> (#[trigger] circuit@.components[i]).id
                < usize::MAX,
    ensures
        r == next_id_for(circuit@, comp_type),
        forall|b: int| #[trigger] ids_below(circuit@, b) && b >= 1 ==> r <= b,
{
    let ghost cs = circuit@.components;
    let mut m: usize = 0;
    let mut i: usize = 0;
    while i < circuit.components.len()
        invariant
            cs == circuit@.components,
            forall|j: int| 0 <= j < cs.len() ==> (#[trigger] cs[j]).id < usize::MAX,
            0 <= i <= cs.len(),
            m == max_id_of(cs.take(i as int), comp_type),
            forall|j: int| 0 <= j < i ==> (#[trigger] cs[j]).id <= m || cs[j].comp_type != comp_type,
            m == 0 || exists|j: int| 0 <= j < i && (#[trigger] cs[j]).id == m,
        decreases circuit.components.len() - i,
    {
        let c = &circuit.components[i];
        proof {
            assert(cs.take(i + 1).drop_last() =~= cs.take(i as int));
            assert(cs.take(i + 1).last() == cs[i as int]);
            assert(cs[i as int].id < usize::MAX);
        }
        if c.comp_type == comp_type && c.id > m {
            m = c.id;
        }
        i = i + 1;
    }
    assert(cs.take(cs.len() as int) =~= cs);
    proof {
        assert forall|b: int| #[trigger] ids_below(circuit@, b) && b >= 1 implies m + 1 <= b by {
            if m > 0 {
                let j = choose|j: int| 0 <= j < cs.len() && (#[trigger] cs[j]).id == m;
                assert(cs[j].id < b);
            }
        }
    }
    m + 1
}

/// A new node number that does not clash with any registered node.
fn next_node_id(circuit: &Circuit) -> (r: usize)
    requires
        ids_below(circuit@, usize::MAX as int),
    ensures
        r == fresh_node(circuit@),
        20 < r,
        !circuit@.nodes.contains(r),
        forall|b: int| #[trigger] ids_below(circuit@, b) && b > 20 ==> r <= b,
{
    let ghost ns = circuit@.nodes;
    let mut m: usize = 0;
    let mut i: usize = 0;
    while i < circuit.nodes.len()
        invariant
            ns == circuit@.nodes,
            ids_below(circuit@, usize::MAX as int),
            0 <= i <= ns.len(),
            m == max_node_of(ns.take(i as int)),
            m == 0 || exists|j: int| 0 <= j < i && #[trigger] ns[j] == m,
        decreases circuit.nodes.len() - i,
    {
        let n = circuit.nodes[i];
        proof {
            assert(ns.take(i + 1).drop_last() =~= ns.take(i as int));
        }
        if n > m {
            m = n;
        }
        i = i + 1;
    }
    assert(ns.take(ns.len() as int) =~= ns);
    proof {
        lemma_fresh_node_unregistered(circuit@);
        assert forall|b: int| #[trigger] ids_below(circuit@, b) && b > 20 implies fresh_node(circuit@) <= b by {
            if m > 0 {
                let j = choose|j: int| 0 <= j < ns.len() && #[trigger] ns[j] == m;
                assert(ns[j] < b);
            }
        }
    }
    if m > 20 {
        m + 1
    } else {
        21
    }
}

/// Copy of the node registry (every node, rails and ground included).
fn get_available_nodes(circuit: &Circuit) -> (v: Vec<usize>)
    ensures
        v@ == circuit@.nodes,
{
    copy_nodes(&circuit.nodes)
}

/// Element-wise copy of a node list.
pub fn copy_nodes(src: &Vec<usize>) -> (v: Vec<usize>)
    ensures
        v@ == src@,
{
    let mut v: Vec<usize> = Vec::new();
    let mut i: usize = 0;
    while i < src.len()
        invariant
            0 <= i <= src.len(),
            v@ == src@.take(i as int),
        decreases src.len() - i,
    {
        v.push(src[i]);
        i = i + 1;
        assert(v@ =~= src@.take(i as int));
    }
    assert(src@.take(src.len() as int) =~= src@);
    v
}

impl Component {
    /// A copy with the same type, id, pins and value.
    pub fn deep_copy(&self) -> (r: Self)
        ensures
            r@ == self@,
    {
        Component {
            comp_type: self.comp_type,
            id: self.id,
            nodes: copy_nodes(&self.nodes),
            value: self.value.clone(),
        }
    }
}

impl Circuit {
    /// A copy with the same registry, components and rails.
    pub fn deep_copy(&self) -> (r: Self)
        ensures
            r@ == self@,
    {
        let mut comps: Vec<Component> = Vec::new();
        let mut i: usize = 0;
        while i < self.components.len()
            invariant
                0 <= i <= self.components.len(),
                comps@.len() == i,
                comps@.map_values(|c: Component| c@) == self@.components.take(i as int),
            decreases self.components.len() - i,
        {
            let ghost prev = comps@;
            let cc = self.components[i].deep_copy();
            comps.push(cc);
            proof {
                assert forall|k: int| 0 <= k < comps@.len() implies (#[trigger] comps@[k])@ == self@.components[k] by {
                    if k < prev.len() {
                        assert(comps@[k] == prev[k]);
                        assert(prev.map_values(|c: Component| c@)[k] == self@.components.take(i as int)[k]);
                    } else {
                        assert(comps@[k] == cc);
                        assert(self@.components[i as int] == self.components@[i as int]@);
                    }
                }
            }
            i = i + 1;
            assert(comps@.map_values(|c: Component| c@) =~= self@.components.take(i as int));
        }
        assert(self@.components.take(self.components.len() as int) =~= self@.components);
        let r = Circuit {
            nodes: copy_nodes(&self.nodes),
            components: comps,
            vcc_centivolts: self.vcc_centivolts,
            vee_centivolts: self.vee_centivolts,
        };
        assert(r@.components =~= self@.components);
        r
    }
}

/// Picks two distinct nodes for a two-pin component, avoiding a direct
/// VCC-VEE short (up to 25 random draws).
fn pick_two_nodes(nodes: &Vec<usize>) -> (r: Option<(usize, usize)>)
    ensures
        nodes@.len() < 2 ==> r is None,
        r matches Some((u, v)) ==> nodes@.contains(u) && nodes@.contains(v) && u != v
            && not_rail_to_rail(u, v),
{
    if nodes.len() < 2 {
        return None;
    }
    let mut attempt: usize = 0;
    while attempt < 25
        invariant
            nodes.len() >= 2,
            attempt <= 25,
        decreases 25 - attempt,
    {
        let u = nodes[random_index(nodes.len())];
        let v = nodes[random_index(nodes.len())];
        if u != v && !((u == NODE_VCC && v == NODE_VEE) || (u == NODE_VEE && v == NODE_VCC)) {
            return Some((u, v));
        }
        attempt = attempt + 1;
    }
    None
}

/// Resistors, capacitors, diodes and transistors may be removed.
pub open spec fn is_removable(t: ComponentType) -> bool {
    t == ComponentType::R || t == ComponentType::C || t == ComponentType::D || t == ComponentType::Q
}

/// Removing component `idx`.
pub open spec fn removed_outcome(c: CircuitView, c2: CircuitView) -> bool {
    exists|idx: int|
        0 <= idx < c.components.len() && is_removable((#[trigger] c.components[idx]).comp_type)
            && c2 == (CircuitView { components: c.components.remove(idx), ..c })
}

/// Operator 3 for the drawn component `idx`: removes it (the registry is
/// kept).
pub fn remove_component_at(circuit: &mut Circuit, idx: usize)
    requires
        idx < old(circuit)@.components.len(),
    ensures
        final(circuit)@ == (CircuitView { components: old(circuit)@.components.remove(idx as int), ..old(circuit)@ }),
{
    let ghost cs = circuit@.components;
    circuit.components.remove(idx);
    proof {
        assert(circuit@.components =~= cs.remove(idx as int));
    }
}

/// Operator 3: removes a random resistor, capacitor, diode or transistor, but
/// only from a circuit with at least three components.
pub fn mutate_remove_component(circuit: &mut Circuit) -> (r: bool)
    ensures
        r <==> old(circuit)@.components.len() > 2 && exists|i: int|
            0 <= i < old(circuit)@.components.len() && is_removable(
                (#[trigger] old(circuit)@.components[i]).comp_type,
            ),
        r ==> removed_outcome(old(circuit)@, final(circuit)@),
        !r ==> final(circuit)@ == old(circuit)@,
{
    if circuit.components.len() <= 2 {
        return false;
    }
    let ghost cs = circuit@.components;
    let mut candidates: Vec<usize> = Vec::new();
    let mut i: usize = 0;
    while i < circuit.components.len()
        invariant
            cs == circuit@.components,
            circuit@ == old(circuit)@,
            0 <= i <= cs.len(),
            forall|k: int| 0 <= k < candidates@.len() ==> 0 <= #[trigger] candidates@[k] < i
                && is_removable(cs[candidates@[k] as int].comp_type),
            forall|j: int| 0 <= j < i && is_removable((#[trigger] cs[j]).comp_type)
                ==> candidates@.contains(j as usize),
        decreases cs.len() - i,
    {
        let t = circuit.components[i].comp_type;
        if t == ComponentType::R || t == ComponentType::C || t == ComponentType::D || t
            == ComponentType::Q {
            let ghost prev = candidates@;
            candidates.push(i);
            assert(candidates@[candidates@.len() - 1] == i);
            assert forall|x: usize| prev.contains(x) implies candidates@.contains(x) by {
                let k = choose|k: int| 0 <= k < prev.len() && prev[k] == x;
                assert(candidates@[k] == x);
            }
        }
        i = i + 1;
    }
    if candidates.len() == 0 {
        proof {
            assert forall|j: int| 0 <= j < cs.len() implies !is_removable(
                (#[trigger] cs[j]).comp_type,
            ) by {
                if is_removable(cs[j].comp_type) {
                    assert(candidates@.contains(j as usize));
                }
            }
        }
        return false;
    }
    let idx = candidates[random_index(candidates.len())];
    assert(is_removable(cs[idx as int].comp_type));
    remove_component_at(circuit, idx);
    true
}


/// `v` is one of the entries of `table`.
pub open spec fn in_table(table: Seq<&'static str>, v: Seq<char>) -> bool {
    exists|i: int| 0 <= i < table.len() && v == #[trigger] table[i]@
}

/// The other terminal of a two-pin resistor with one terminal on `base`.
pub open spec fn bias_end(c: ComponentView, base: usize) -> Option<usize> {
    if c.comp_type == ComponentType::R && c.nodes.len() == 2 && (c.nodes[0] == base || c.nodes[1]
        == base) {
        Some(
            if c.nodes[0] == base {
                c.nodes[1]
            } else {
                c.nodes[0]
            },
        )
    } else {
        None
    }
}

/// A resistor other than `skip` from `base` to VCC (`to_vcc`) or to VEE/GND.
pub open spec fn is_bias_resistor(cs: Seq<ComponentView>, j: int, skip: int, base: usize, to_vcc: bool) -> bool {
    j != skip && match bias_end(cs[j], base) {
        Some(o) => if to_vcc {
            o == NODE_VCC
        } else {
            o != NODE_VCC && (o == NODE_VEE || o == NODE_GND)
        },
        None => false,
    }
}

/// The last bias resistor among the first `n` components.
pub open spec fn last_bias_resistor(cs: Seq<ComponentView>, n: int, skip: int, base: usize, to_vcc: bool) -> Option<int>
    decreases n,
{
    if n <= 0 {
        None
    } else if is_bias_resistor(cs, n - 1, skip, base, to_vcc) {
        Some(n - 1)
    } else {
        last_bias_resistor(cs, n - 1, skip, base, to_vcc)
    }
}

/// The transistor model after an NPN/PNP toggle.
pub open spec fn toggled_model(v: Seq<char>) -> Seq<char> {
    if contains_text(v, "3904"@) {
        "2N3906"@
    } else {
        "2N3904"@
    }
}

/// Collector and emitter exchanged.
pub open spec fn swap_collector_emitter(ns: Seq<usize>) -> Seq<usize> {
    ns.update(0, ns[2]).update(2, ns[0])
}

/// Toggling transistor `idx` between NPN and PNP: the model flips, collector
/// and emitter trade places, and the values of the last base pull-up (to VCC)
/// and the last base pull-down (to VEE or GND) are exchanged when both exist.
pub open spec fn toggled_transistor(c: CircuitView, c2: CircuitView, idx: int) -> bool {
    let cs = c.components;
    let q = cs[idx];
    if q.nodes.len() >= 3 {
        let q2 = ComponentView {
            value: toggled_model(q.value),
            nodes: swap_collector_emitter(q.nodes),
            ..q
        };
        let base = q.nodes[1];
        match (
            last_bias_resistor(cs, cs.len() as int, idx, base, true),
            last_bias_resistor(cs, cs.len() as int, idx, base, false),
        ) {
            (Some(a), Some(b)) => c2.components == cs.update(idx, q2).update(
                a,
                ComponentView { value: cs[b].value, ..cs[a] },
            ).update(b, ComponentView { value: cs[a].value, ..cs[b] }),
            _ => c2.components == cs.update(idx, q2),
        }
    } else {
        c2.components == cs.update(idx, ComponentView { value: toggled_model(q.value), ..q })
    }
}

/// Component `idx` changed by operator 1: a resistor either turned into a
/// capacitor with an E12 value or stepped along E24; a capacitor either turned
/// into a resistor with an E24 value or stepped along E12; a transistor toggled.
pub open spec fn changed_value_at(c: CircuitView, c2: CircuitView, idx: int) -> bool {
    let cs = c.components;
    let old_c = cs[idx];
    &&& 0 <= idx < cs.len()
    &&& c2.nodes == c.nodes
    &&& c2.vcc_centivolts == c.vcc_centivolts
    &&& c2.vee_centivolts == c.vee_centivolts
    &&& match old_c.comp_type {
        ComponentType::R => {
            let n = c2.components[idx];
            &&& c2.components == cs.update(idx, n)
            &&& n.id == old_c.id
            &&& n.nodes == old_c.nodes
            &&& {
                ||| n.comp_type == ComponentType::C && in_table(E12_VALUES@, n.value)
                ||| n.comp_type == ComponentType::R && step_outcome(old_c.value, E24_VALUES@, n.value)
            }
        },
        ComponentType::C => {
            let n = c2.components[idx];
            &&& c2.components == cs.update(idx, n)
            &&& n.id == old_c.id
            &&& n.nodes == old_c.nodes
            &&& {
                ||| n.comp_type == ComponentType::R && in_table(E24_VALUES@, n.value)
                ||| n.comp_type == ComponentType::C && step_outcome(old_c.value, E12_VALUES@, n.value)
            }
        },
        ComponentType::Q => toggled_transistor(c, c2, idx),
        _ => false,
    }
}

/// Operator 1's outcome.
pub open spec fn changed_value_outcome(c: CircuitView, c2: CircuitView) -> bool {
    exists|idx: int| changed_value_at(c, c2, idx)
}

/// Replaces the value (and possibly the type) of component `idx`.
fn set_component_value(circuit: &mut Circuit, idx: usize, t: ComponentType, v: &str)
    requires
        idx < old(circuit).components.len(),
    ensures
        final(circuit).components.len() == old(circuit).components.len(),
        final(circuit)@ == (CircuitView {
            components: old(circuit)@.components.update(
                idx as int,
                ComponentView { comp_type: t, value: v@, ..old(circuit)@.components[idx as int] },
            ),
            ..old(circuit)@
        }),
{
    let mut comp = circuit.components[idx].deep_copy();
    comp.comp_type = t;
    comp.value = v.to_owned();
    circuit.components.set(idx, comp);
    assert(circuit@.components =~= old(circuit)@.components.update(
        idx as int,
        ComponentView { comp_type: t, value: v@, ..old(circuit)@.components[idx as int] },
    ));
}

/// The last bias resistor of transistor `skip` with base `base`.
fn find_bias_resistor(comps: &Vec<Component>, skip: usize, base: usize, to_vcc: bool) -> (r: Option<usize>)
    ensures
        r == (match last_bias_resistor(comps@.map_values(|c: Component| c@), comps.len() as int, skip as int, base, to_vcc) {
            Some(j) => Some(j as usize),
            None => None::<usize>,
        }),
        r matches Some(j) ==> j < comps.len(),
{
    let ghost cs = comps@.map_values(|c: Component| c@);
    let mut found: Option<usize> = None;
    let mut j: usize = 0;
    while j < comps.len()
        invariant
            cs == comps@.map_values(|c: Component| c@),
            0 <= j <= comps.len(),
            found == (match last_bias_resistor(cs, j as int, skip as int, base, to_vcc) {
                Some(k) => Some(k as usize),
                None => None::<usize>,
            }),
            found matches Some(k) ==> k < j,
        decreases comps.len() - j,
    {
        let c = &comps[j];
        if j != skip && c.comp_type == ComponentType::R && c.nodes.len() == 2 && (c.nodes[0]
            == base || c.nodes[1] == base) {
            let other = if c.nodes[0] == base {
                c.nodes[1]
            } else {
                c.nodes[0]
            };
            if to_vcc {
                if other == NODE_VCC {
                    found = Some(j);
                }
            } else if other != NODE_VCC && (other == NODE_VEE || other == NODE_GND) {
                found = Some(j);
            }
        }
        j = j + 1;
    }
    found
}

/// How many of the hundred percentage rolls turn a resistor into a capacitor
/// or a capacitor into a resistor.
pub const CONVERSION_ROLLS: u8 = 15;

/// Whether a percentage roll turns a resistor into a capacitor (or back):
/// the rolls below `CONVERSION_ROLLS`.
pub fn converts_kind(roll: u8) -> (r: bool)
    ensures
        r == (roll < CONVERSION_ROLLS),
{
    roll < CONVERSION_ROLLS
}

/// Operator 1 changes a part's kind on 15 of the 100 percentage rolls.
pub proof fn lemma_conversion_share()
    ensures
        PERCENT_ROLLS == 100,
        rolls_where(PERCENT_ROLLS as int, |r: int| r < CONVERSION_ROLLS) == 15,
{
    lemma_rolls_band(|r: int| r < CONVERSION_ROLLS, 0, 15, PERCENT_ROLLS as int);
}

/// `c` with component `idx` given type `t` and value `v`.
pub open spec fn with_value(c: CircuitView, idx: int, t: ComponentType, v: Seq<char>) -> CircuitView {
    CircuitView {
        components: c.components.update(idx, ComponentView { comp_type: t, value: v, ..c.components[idx] }),
        ..c
    }
}

/// What operator 1 makes of component `idx` for the drawn conversion roll,
/// stepping coin `up` and table entries `e24`/`e12`: a resistor becomes an
/// E12 capacitor on a roll below `CONVERSION_ROLLS`, else steps along E24; a
/// capacitor becomes an E24 resistor likewise, else steps along E12; a
/// transistor toggles (see `toggled_transistor`).
pub open spec fn value_changed_for(
    c: CircuitView,
    c2: CircuitView,
    idx: int,
    roll: u8,
    up: bool,
    e24: int,
    e12: int,
) -> bool {
    let comp = c.components[idx];
    match comp.comp_type {
        ComponentType::R => c2 == if roll < CONVERSION_ROLLS {
            with_value(c, idx, ComponentType::C, E12_VALUES@[e12]@)
        } else {
            with_value(c, idx, ComponentType::R, stepped_value(comp.value, E24_VALUES@, up, e24))
        },
        ComponentType::C => c2 == if roll < CONVERSION_ROLLS {
            with_value(c, idx, ComponentType::R, E24_VALUES@[e24]@)
        } else {
            with_value(c, idx, ComponentType::C, stepped_value(comp.value, E12_VALUES@, up, e12))
        },
        _ => toggled_transistor(c, c2, idx) && c2.nodes == c.nodes && c2.vcc_centivolts == c.vcc_centivolts
            && c2.vee_centivolts == c.vee_centivolts,
    }
}

/// The draws of one stepping: the coin when the value is in the table, else
/// an entry of the table.
fn step_draws<const N: usize>(table: &[&'static str; N], current: &str) -> (d: (bool, usize))
    requires
        N > 0,
    ensures
        d.1 < N,
{
    match find_position(table, current) {
        Some(_) => (random_bool(), 0),
        None => (false, random_index(N)),
    }
}

/// Operator 1 for the drawn component `idx`, conversion roll, stepping coin
/// and table entries (see `value_changed_for`).
pub fn change_value_at(circuit: &mut Circuit, idx: usize, roll: u8, up: bool, e24: usize, e12: usize)
    requires
        idx < old(circuit)@.components.len(),
        old(circuit)@.components[idx as int].comp_type == ComponentType::R || old(circuit)@.components[idx as int].comp_type
            == ComponentType::C || old(circuit)@.components[idx as int].comp_type == ComponentType::Q,
        e24 < 121,
        e12 < 64,
    ensures
        value_changed_for(old(circuit)@, final(circuit)@, idx as int, roll, up, e24 as int, e12 as int),
        changed_value_at(old(circuit)@, final(circuit)@, idx as int),
{
    let ghost c0 = circuit@;
    let ghost cs = circuit@.components;
    let t = circuit.components[idx].comp_type;
    if t == ComponentType::R {
        if converts_kind(roll) {
            let v = E12_VALUES[e12];
            set_component_value(circuit, idx, ComponentType::C, v);
            assert(in_table(E12_VALUES@, v@));
            assert(circuit@.components == cs.update(
                idx as int,
                ComponentView { comp_type: ComponentType::C, value: v@, ..cs[idx as int] },
            ) && in_table(E12_VALUES@, v@));
        } else {
            let v = step_e24_with(circuit.components[idx].value.as_str(), up, e24);
            set_component_value(circuit, idx, ComponentType::R, v);
            assert(circuit@.components == cs.update(
                idx as int,
                ComponentView { value: v@, ..cs[idx as int] },
            ) && step_outcome(cs[idx as int].value, E24_VALUES@, v@));
        }
        assert(changed_value_at(c0, circuit@, idx as int));
    } else if t == ComponentType::C {
        if converts_kind(roll) {
            let v = E24_VALUES[e24];
            set_component_value(circuit, idx, ComponentType::R, v);
            assert(in_table(E24_VALUES@, v@));
            assert(circuit@.components == cs.update(
                idx as int,
                ComponentView { comp_type: ComponentType::R, value: v@, ..cs[idx as int] },
            ) && in_table(E24_VALUES@, v@));
        } else {
            let v = step_e12_with(circuit.components[idx].value.as_str(), up, e12);
            set_component_value(circuit, idx, ComponentType::C, v);
            assert(circuit@.components == cs.update(
                idx as int,
                ComponentView { value: v@, ..cs[idx as int] },
            ) && step_outcome(cs[idx as int].value, E12_VALUES@, v@));
        }
        assert(changed_value_at(c0, circuit@, idx as int));
    } else {
        toggle_transistor(circuit, idx);
        assert(changed_value_at(c0, circuit@, idx as int));
    }
}

/// Operator 1: changes the value of a random resistor, capacitor or
/// transistor. A resistor becomes a capacitor (E12 value) with probability
/// 15/100, else steps along E24; a capacitor becomes a resistor likewise; a
/// transistor toggles between 2N3904 and 2N3906 (see `toggled_transistor`).
/// Returns `false`, changing nothing, when there is no such component.
pub fn mutate_change_value(circuit: &mut Circuit) -> (r: bool)
    ensures
        r <==> exists|i: int|
            0 <= i < old(circuit)@.components.len() && {
                let t = (#[trigger] old(circuit)@.components[i]).comp_type;
                t == ComponentType::R || t == ComponentType::C || t == ComponentType::Q
            },
        r ==> changed_value_outcome(old(circuit)@, final(circuit)@),
        r ==> exists|idx: int, roll: u8, up: bool, e24: int, e12: int|
            0 <= e24 < 121 && 0 <= e12 < 64 && #[trigger] value_changed_for(
                old(circuit)@,
                final(circuit)@,
                idx,
                roll,
                up,
                e24,
                e12,
            ),
        !r ==> final(circuit)@ == old(circuit)@,
{
    let ghost c0 = circuit@;
    let ghost cs = circuit@.components;
    let mut indices: Vec<usize> = Vec::new();
    let mut i: usize = 0;
    while i < circuit.components.len()
        invariant
            cs == circuit@.components,
            circuit@ == c0,
            0 <= i <= cs.len(),
            forall|k: int| 0 <= k < indices@.len() ==> 0 <= #[trigger] indices@[k] < i && {
                let t = cs[indices@[k] as int].comp_type;
                t == ComponentType::R || t == ComponentType::C || t == ComponentType::Q
            },
            forall|j: int| 0 <= j < i && ({
                let t = (#[trigger] cs[j]).comp_type;
                t == ComponentType::R || t == ComponentType::C || t == ComponentType::Q
            }) ==> indices@.contains(j as usize),
        decreases cs.len() - i,
    {
        let t = circuit.components[i].comp_type;
        if t == ComponentType::R || t == ComponentType::C || t == ComponentType::Q {
            let ghost prev = indices@;
            indices.push(i);
            assert(indices@[indices@.len() - 1] == i);
            assert forall|x: usize| prev.contains(x) implies indices@.contains(x) by {
                let k = choose|k: int| 0 <= k < prev.len() && prev[k] == x;
                assert(indices@[k] == x);
            }
        }
        i = i + 1;
    }
    if indices.len() == 0 {
        proof {
            assert forall|j: int| 0 <= j < cs.len() implies !({
                let t = (#[trigger] cs[j]).comp_type;
                t == ComponentType::R || t == ComponentType::C || t == ComponentType::Q
            }) by {
                let t = cs[j].comp_type;
                if t == ComponentType::R || t == ComponentType::C || t == ComponentType::Q {
                    assert(indices@.contains(j as usize));
                }
            }
        }
        return false;
    }
    let idx = indices[random_index(indices.len())];
    let t = circuit.components[idx].comp_type;
    let mut roll: u8 = 0;
    let mut up = false;
    let mut e24: usize = 0;
    let mut e12: usize = 0;
    if t == ComponentType::R {
        roll = random_below(PERCENT_ROLLS);
        if converts_kind(roll) {
            e12 = random_index(64);
        } else {
            let (u, f) = step_draws(&E24_VALUES, circuit.components[idx].value.as_str());
            up = u;
            e24 = f;
        }
    } else if t == ComponentType::C {
        roll = random_below(PERCENT_ROLLS);
        if converts_kind(roll) {
            e24 = random_index(121);
        } else {
            let (u, f) = step_draws(&E12_VALUES, circuit.components[idx].value.as_str());
            up = u;
            e12 = f;
        }
    }
    change_value_at(circuit, idx, roll, up, e24, e12);
    assert(value_changed_for(c0, circuit@, idx as int, roll, up, e24 as int, e12 as int));
    true
}

/// NPN/PNP toggle of transistor `idx` (see `toggled_transistor`).
fn toggle_transistor(circuit: &mut Circuit, idx: usize)
    requires
        idx < old(circuit).components.len(),
        old(circuit)@.components[idx as int].comp_type == ComponentType::Q,
    ensures
        toggled_transistor(old(circuit)@, final(circuit)@, idx as int),
        final(circuit)@.nodes == old(circuit)@.nodes,
        final(circuit)@.vcc_centivolts == old(circuit)@.vcc_centivolts,
        final(circuit)@.vee_centivolts == old(circuit)@.vee_centivolts,
{
    let ghost c0 = circuit@;
    let ghost cs = circuit@.components;
    let mut q = circuit.components[idx].deep_copy();
    let is_npn = str_contains(q.value.as_str(), "3904");
    q.value = if is_npn {
        "2N3906".to_owned()
    } else {
        "2N3904".to_owned()
    };
    if q.nodes.len() >= 3 {
        let collector = q.nodes[0];
        let emitter = q.nodes[2];
        q.nodes.set(0, emitter);
        q.nodes.set(2, collector);
        let base = q.nodes[1];
        assert(q@.nodes =~= swap_collector_emitter(cs[idx as int].nodes));
        circuit.components.set(idx, q);
        let ghost cs1 = circuit@.components;
        assert(cs1 =~= cs.update(idx as int, q@));
        let r_vcc = find_bias_resistor(&circuit.components, idx, base, true);
        let r_vee = find_bias_resistor(&circuit.components, idx, base, false);
        proof {
            lemma_last_bias_ignores_skip(cs, cs1, cs.len() as int, idx as int, base, true);
            lemma_last_bias_ignores_skip(cs, cs1, cs.len() as int, idx as int, base, false);
        }
        match (r_vcc, r_vee) {
            (Some(a), Some(b)) => {
                let va = circuit.components[a].value.clone();
                let vb = circuit.components[b].value.clone();
                let ta = circuit.components[a].comp_type;
                let tb = circuit.components[b].comp_type;
                set_component_value(circuit, a, ta, vb.as_str());
                set_component_value(circuit, b, tb, va.as_str());
                proof {
                    assert(cs1[a as int] == cs[a as int]);
                    assert(cs1[b as int] == cs[b as int]);
                    assert(circuit@.components =~= cs.update(idx as int, q@).update(
                        a as int,
                        ComponentView { value: cs[b as int].value, ..cs[a as int] },
                    ).update(b as int, ComponentView { value: cs[a as int].value, ..cs[b as int] }));
                }
            },
            _ => {},
        }
    } else {
        circuit.components.set(idx, q);
        assert(circuit@.components =~= cs.update(
            idx as int,
            ComponentView { value: toggled_model(cs[idx as int].value), ..cs[idx as int] },
        ));
    }
}

/// Replacing the skipped component does not change the bias search.
proof fn lemma_last_bias_ignores_skip(
    cs: Seq<ComponentView>,
    cs1: Seq<ComponentView>,
    n: int,
    skip: int,
    base: usize,
    to_vcc: bool,
)
    requires
        cs1.len() == cs.len(),
        0 <= n <= cs.len(),
        forall|j: int| 0 <= j < cs.len() && j != skip ==> cs1[j] == cs[j],
    ensures
        last_bias_resistor(cs1, n, skip, base, to_vcc) == last_bias_resistor(cs, n, skip, base, to_vcc),
        last_bias_resistor(cs, n, skip, base, to_vcc) matches Some(j) ==> 0 <= j < n && j != skip,
    decreases n,
{
    if n > 0 {
        lemma_last_bias_ignores_skip(cs, cs1, n - 1, skip, base, to_vcc);
    }
}


/// Number of components of type `t`.
pub open spec fn count_type(cs: Seq<ComponentView>, t: ComponentType) -> nat
    decreases cs.len(),
{
    if cs.len() == 0 {
        0
    } else {
        count_type(cs.drop_last(), t) + if cs.last().comp_type == t {
            1nat
        } else {
            0nat
        }
    }
}

/// Number of components of type `t`.
fn count_of_type(comps: &Vec<Component>, t: ComponentType) -> (n: usize)
    ensures
        n == count_type(comps@.map_values(|c: Component| c@), t),
{
    let ghost cs = comps@.map_values(|c: Component| c@);
    let mut n: usize = 0;
    let mut i: usize = 0;
    while i < comps.len()
        invariant
            cs == comps@.map_values(|c: Component| c@),
            0 <= i <= comps.len(),
            n == count_type(cs.take(i as int), t),
            n <= i,
        decreases comps.len() - i,
    {
        assert(cs.take(i + 1).drop_last() =~= cs.take(i as int));
        if comps[i].comp_type == t {
            n = n + 1;
        }
        i = i + 1;
    }
    assert(cs.take(comps.len() as int) =~= cs);
    n
}

/// The component `p` is a new part of type `t` with the next free id of `c`.
pub open spec fn is_new_part(c: CircuitView, p: ComponentView, t: ComponentType) -> bool {
    p.comp_type == t && p.id == next_id_for(c, t)
}

/// A two-pin part between two distinct registered nodes that do not join VCC to VEE.
pub open spec fn registered_two_pin(c: CircuitView, p: ComponentView) -> bool {
    &&& p.nodes.len() == 2
    &&& c.nodes.contains(p.nodes[0])
    &&& c.nodes.contains(p.nodes[1])
    &&& p.nodes[0] != p.nodes[1]
    &&& not_rail_to_rail(p.nodes[0], p.nodes[1])
}

/// `c2` is `c` plus one new two-pin part of type `t` whose value satisfies `value_ok`.
pub open spec fn added_two_pin(c: CircuitView, c2: CircuitView, t: ComponentType, value_ok: spec_fn(Seq<char>) -> bool) -> bool {
    let p = c2.components.last();
    &&& c2.components.len() == c.components.len() + 1
    &&& is_new_part(c, p, t)
    &&& registered_two_pin(c, p)
    &&& value_ok(p.value)
    &&& c2 == with_component(c, p)
}

/// A new transistor (2N3904 from a collector at VCC or a registered node to an
/// emitter at OUT, VEE or a fresh node; 2N3906 mirrored between VEE and VCC),
/// followed by an emitter resistor of 4.7k or 10k to the opposite rail unless
/// the emitter sits on that rail. Only in circuits without op-amps and with
/// fewer than four transistors.
pub open spec fn added_transistor(c: CircuitView, c2: CircuitView) -> bool {
    let q = c2.components[c.components.len() as int];
    let npn = q.value == "2N3904"@;
    let rail = if npn {
        NODE_VEE
    } else {
        NODE_VCC
    };
    let col = q.nodes[0];
    let base = q.nodes[1];
    let e = q.nodes[2];
    let c1 = with_component(c, q);
    &&& count_type(c.components, ComponentType::X) == 0
    &&& count_type(c.components, ComponentType::Q) < 4
    &&& c2.components.len() > c.components.len()
    &&& is_new_part(c, q, ComponentType::Q)
    &&& (q.value == "2N3904"@ || q.value == "2N3906"@)
    &&& q.nodes.len() == 3
    &&& col != base && base != e && col != e
    &&& c.nodes.contains(base)
    &&& (col == (if npn {
        NODE_VCC
    } else {
        NODE_VEE
    }) || c.nodes.contains(col))
    &&& (e == NODE_OUT || e == (if npn {
        NODE_VEE
    } else {
        NODE_VCC
    }) || e == fresh_node(c))
    &&& if e != rail {
        let rr = c2.components.last();
        &&& c2.components.len() == c.components.len() + 2
        &&& is_new_part(c1, rr, ComponentType::R)
        &&& rr.nodes == seq![e, rail]
        &&& (rr.value == "4.7k"@ || rr.value == "10k"@)
        &&& c2 == with_component(c1, rr)
    } else {
        c2 == c1
    }
}

/// A second TL072 whose inverting input and output share a fresh node, its
/// non-inverting input on a registered node, followed by a 10k resistor from
/// that output to OUT or to a registered node. Only when exactly one op-amp
/// exists already (the 10k feedback resistor the operator also tries is
/// shorted and never added).
pub open spec fn added_opamp(c: CircuitView, c2: CircuitView) -> bool {
    let x = c2.components[c.components.len() as int];
    let n = fresh_node(c) as usize;
    let c1 = with_component(c, x);
    let rr = c2.components.last();
    &&& count_type(c.components, ComponentType::X) == 1
    &&& c2.components.len() == c.components.len() + 2
    &&& is_new_part(c, x, ComponentType::X)
    &&& x.value == "TL072"@
    &&& x.nodes.len() == 5
    &&& c.nodes.contains(x.nodes[0])
    &&& x.nodes[1] == n && x.nodes[2] == NODE_VCC && x.nodes[3] == NODE_VEE && x.nodes[4] == n
    &&& is_new_part(c1, rr, ComponentType::R)
    &&& rr.value == "10k"@
    &&& rr.nodes.len() == 2 && rr.nodes[0] == n
    &&& (rr.nodes[1] == NODE_OUT || c.nodes.contains(rr.nodes[1]))
    &&& c2 == with_component(c1, rr)
}

/// Operator 2's outcome.
pub open spec fn added_component_outcome(c: CircuitView, c2: CircuitView) -> bool {
    ||| added_two_pin(c, c2, ComponentType::R, |v: Seq<char>| in_table(E24_VALUES@, v))
    ||| added_two_pin(c, c2, ComponentType::C, |v: Seq<char>| in_table(E12_VALUES@, v))
    ||| added_two_pin(c, c2, ComponentType::D, |v: Seq<char>| v == "1N4148"@)
    ||| added_transistor(c, c2)
    ||| added_opamp(c, c2)
}

/// Builds a component whose arguments are known to be accepted.
pub(crate) fn build_part(letter: char, t: ComponentType, id: usize, nodes: Vec<usize>, value: &str) -> (p: Component)
    requires
        letter_type(ascii_upper(letter)) == Some(t),
        nodes@.len() >= required_pins(t),
        is_two_terminal(t) ==> nodes@[0] != nodes@[1],
        t == ComponentType::Q ==> !(nodes@[0] == nodes@[1] && nodes@[1] == nodes@[2]),
    ensures
        p@ == (ComponentView { comp_type: t, id, nodes: nodes@, value: value@ }),
{
    let ghost ns = nodes@;
    match Component::new(letter, id, nodes, value) {
        Ok(p) => p,
        Err(_) => {
            assert(false);
            Component { comp_type: t, id, nodes: Vec::new(), value: String::new() }
        },
    }
}


/// The registry after inserting pins holds exactly the old nodes and the pins.
pub proof fn lemma_insert_nodes_contains(ns: Seq<usize>, pins: Seq<usize>, x: usize)
    ensures
        insert_nodes(ns, pins).contains(x) <==> ns.contains(x) || pins.contains(x),
    decreases pins.len(),
{
    if pins.len() > 0 {
        lemma_insert_nodes_contains(ns, pins.drop_last(), x);
        let m = insert_nodes(ns, pins.drop_last());
        if m.contains(pins.last()) {
        } else {
            assert(m.push(pins.last()).contains(x) <==> m.contains(x) || x == pins.last()) by {
                if m.push(pins.last()).contains(x) && x != pins.last() {
                    let k = choose|k: int| 0 <= k < m.len() + 1 && m.push(pins.last())[k] == x;
                    assert(m[k] == x);
                }
                if m.contains(x) {
                    let k = choose|k: int| 0 <= k < m.len() && m[k] == x;
                    assert(m.push(pins.last())[k] == x);
                }
                if x == pins.last() {
                    assert(m.push(pins.last())[m.len() as int] == x);
                }
            }
        }
        assert(pins.contains(x) <==> pins.drop_last().contains(x) || x == pins.last()) by {
            if pins.contains(x) && x != pins.last() {
                let k = choose|k: int| 0 <= k < pins.len() && pins[k] == x;
                assert(pins.drop_last()[k] == x);
            }
            if pins.drop_last().contains(x) {
                let k = choose|k: int| 0 <= k < pins.len() - 1 && pins.drop_last()[k] == x;
                assert(pins[k] == x);
            }
            if x == pins.last() {
                assert(pins[pins.len() - 1] == x);
            }
        }
    }
}

/// Adding a part whose id and pins lie below `b` keeps everything below `b`.
pub proof fn lemma_with_component_below(c: CircuitView, p: ComponentView, b: int)
    requires
        ids_below(c, b),
        p.id < b,
        forall|k: int| 0 <= k < p.nodes.len() ==> #[trigger] p.nodes[k] < b,
    ensures
        ids_below(with_component(c, p), b),
{
    let c2 = with_component(c, p);
    assert forall|j: int| 0 <= j < c2.nodes.len() implies #[trigger] c2.nodes[j] < b by {
        let x = c2.nodes[j];
        lemma_insert_nodes_contains(c.nodes, p.nodes, x);
        if c.nodes.contains(x) {
            let k = choose|k: int| 0 <= k < c.nodes.len() && c.nodes[k] == x;
        } else {
            let k = choose|k: int| 0 <= k < p.nodes.len() && p.nodes[k] == x;
        }
    }
    assert forall|i: int| 0 <= i < c2.components.len() implies (#[trigger] c2.components[i]).id < b by {
        if i < c.components.len() {
            assert(c2.components[i] == c.components[i]);
        }
    }
}

/// A looser bound follows from a tighter one.
pub proof fn lemma_ids_below_weaken(c: CircuitView, b: int, b2: int)
    requires
        ids_below(c, b),
        b <= b2,
    ensures
        ids_below(c, b2),
{
}

/// The kind of part operator 2 adds on a percentage roll: a resistor below
/// 35, a capacitor below 65, a diode below 75, and above that a transistor
/// in a circuit without op-amps, else an op-amp.
pub open spec fn part_kind_for_roll(roll: int, has_opamp: bool) -> ComponentType {
    if roll < 35 {
        ComponentType::R
    } else if roll < 65 {
        ComponentType::C
    } else if roll < 75 {
        ComponentType::D
    } else if !has_opamp {
        ComponentType::Q
    } else {
        ComponentType::X
    }
}

/// The kind of part a percentage roll selects (see `part_kind_for_roll`).
pub fn part_for_roll(roll: u8, has_opamp: bool) -> (t: ComponentType)
    ensures
        t == part_kind_for_roll(roll as int, has_opamp),
{
    if roll < 35 {
        ComponentType::R
    } else if roll < 65 {
        ComponentType::C
    } else if roll < 75 {
        ComponentType::D
    } else if !has_opamp {
        ComponentType::Q
    } else {
        ComponentType::X
    }
}

/// Operator 2's mix over the hundred percentage rolls: resistors 35,
/// capacitors 30, diodes 10, and transistors (without op-amps) or op-amps
/// (with them) 25.
pub proof fn lemma_part_shares(has_opamp: bool)
    ensures
        PERCENT_ROLLS == 100,
        rolls_where(PERCENT_ROLLS as int, |r: int| part_kind_for_roll(r, has_opamp) == ComponentType::R)
            == 35,
        rolls_where(PERCENT_ROLLS as int, |r: int| part_kind_for_roll(r, has_opamp) == ComponentType::C)
            == 30,
        rolls_where(PERCENT_ROLLS as int, |r: int| part_kind_for_roll(r, has_opamp) == ComponentType::D)
            == 10,
        !has_opamp ==> rolls_where(
            PERCENT_ROLLS as int,
            |r: int| part_kind_for_roll(r, has_opamp) == ComponentType::Q,
        ) == 25,
        has_opamp ==> rolls_where(
            PERCENT_ROLLS as int,
            |r: int| part_kind_for_roll(r, has_opamp) == ComponentType::X,
        ) == 25,
{
    let k = PERCENT_ROLLS as int;
    lemma_rolls_band(|r: int| part_kind_for_roll(r, has_opamp) == ComponentType::R, 0, 35, k);
    lemma_rolls_band(|r: int| part_kind_for_roll(r, has_opamp) == ComponentType::C, 35, 65, k);
    lemma_rolls_band(|r: int| part_kind_for_roll(r, has_opamp) == ComponentType::D, 65, 75, k);
    if has_opamp {
        lemma_rolls_band(|r: int| part_kind_for_roll(r, has_opamp) == ComponentType::X, 75, 100, k);
    } else {
        lemma_rolls_band(|r: int| part_kind_for_roll(r, has_opamp) == ComponentType::Q, 75, 100, k);
    }
}

/// The random values operator 2 draws; fields that the drawn part does not
/// use are ignored.
#[derive(Debug, Clone, Copy, PartialEq, Eq)]
pub struct AddDraws {
    /// Percentage roll choosing the kind of part (see `part_kind_for_roll`).
    pub roll: u8,
    /// The node pair of a resistor, capacitor or diode, when one was found.
    pub pair: Option<(usize, usize)>,
    /// Index of a resistor value in `E24_VALUES`.
    pub e24_index: usize,
    /// Index of a capacitor value in `E12_VALUES`.
    pub e12_index: usize,
    /// Whether a diode may be added in a circuit with an op-amp.
    pub diode_coin: bool,
    /// An NPN (`true`) or a PNP transistor.
    pub npn: bool,
    /// Registry index of the transistor's base.
    pub base: usize,
    /// Roll (`0..10`): below 6 the collector sits on its rail.
    pub collector_roll: u8,
    /// Registry index of the collector when it is not on its rail.
    pub collector: usize,
    /// Roll (`0..10`): below 5 the emitter sits on OUT.
    pub emitter_roll: u8,
    /// Otherwise the emitter sits on the opposite rail (`true`) or a fresh node.
    pub emitter_coin: bool,
    /// An emitter resistor of 4.7k (`true`) or 10k.
    pub resistor_coin: bool,
    /// Percentage roll: below 5 a second op-amp is added.
    pub opamp_roll: u8,
    /// Registry index of the new op-amp's non-inverting input.
    pub non_inv: usize,
    /// The load resistor goes to OUT (`true`) or to a registered node.
    pub target_coin: bool,
    /// Registry index of the load resistor's far end.
    pub target: usize,
}

/// `c` plus a new two-pin part of type `t` on the drawn pair, or nothing
/// when no pair was found.
pub open spec fn two_pin_added(
    c: CircuitView,
    t: ComponentType,
    pair: Option<(usize, usize)>,
    value: Seq<char>,
) -> Option<CircuitView> {
    match pair {
        Some((u, v)) => Some(
            with_component(
                c,
                ComponentView { comp_type: t, id: next_id_for(c, t) as usize, nodes: seq![u, v], value },
            ),
        ),
        None => None,
    }
}

/// The transistor operator 2 adds for draws `d`, with its emitter resistor to
/// the opposite rail unless the emitter sits on it; nothing when the circuit
/// already has four transistors or two of the drawn pins coincide.
pub open spec fn transistor_added(c: CircuitView, d: AddDraws) -> Option<CircuitView> {
    let ns = c.nodes;
    let base = ns[d.base as int];
    let col = if d.collector_roll < 6 {
        if d.npn {
            NODE_VCC
        } else {
            NODE_VEE
        }
    } else {
        ns[d.collector as int]
    };
    let rail = if d.npn {
        NODE_VEE
    } else {
        NODE_VCC
    };
    let e = if d.emitter_roll < 5 {
        NODE_OUT
    } else if d.emitter_coin {
        rail
    } else {
        fresh_node(c) as usize
    };
    let q = ComponentView {
        comp_type: ComponentType::Q,
        id: next_id_for(c, ComponentType::Q) as usize,
        nodes: seq![col, base, e],
        value: if d.npn {
            "2N3904"@
        } else {
            "2N3906"@
        },
    };
    let c1 = with_component(c, q);
    if count_type(c.components, ComponentType::Q) >= 4 || col == base || base == e || col == e {
        None
    } else if e == rail {
        Some(c1)
    } else {
        Some(
            with_component(
                c1,
                ComponentView {
                    comp_type: ComponentType::R,
                    id: next_id_for(c1, ComponentType::R) as usize,
                    nodes: seq![e, rail],
                    value: if d.resistor_coin {
                        "4.7k"@
                    } else {
                        "10k"@
                    },
                },
            ),
        )
    }
}

/// The op-amp operator 2 adds for draws `d` (only a second one, and then on
/// a roll below 5): a TL072 from a registered node to a fresh node that is
/// both its inverting input and its output, with a 10k load from that node to
/// OUT or to a registered node.
pub open spec fn opamp_added(c: CircuitView, d: AddDraws) -> Option<CircuitView> {
    let k = count_type(c.components, ComponentType::X);
    let n = fresh_node(c) as usize;
    let x = ComponentView {
        comp_type: ComponentType::X,
        id: next_id_for(c, ComponentType::X) as usize,
        nodes: seq![c.nodes[d.non_inv as int], n, NODE_VCC, NODE_VEE, n],
        value: "TL072"@,
    };
    let c1 = with_component(c, x);
    let target = if d.target_coin {
        NODE_OUT
    } else {
        c.nodes[d.target as int]
    };
    if k < 1 || (k < 2 && d.opamp_roll < 5) {
        Some(
            with_component(
                c1,
                ComponentView {
                    comp_type: ComponentType::R,
                    id: next_id_for(c1, ComponentType::R) as usize,
                    nodes: seq![n, target],
                    value: "10k"@,
                },
            ),
        )
    } else {
        None
    }
}

/// What operator 2 makes of `c` for draws `d`: the new circuit, or nothing
/// added. The roll picks the kind of part (see `part_kind_for_roll`); a diode
/// next to an op-amp also needs its coin.
pub open spec fn add_outcome(c: CircuitView, d: AddDraws) -> Option<CircuitView> {
    let has_opamp = count_type(c.components, ComponentType::X) > 0;
    if c.nodes.len() < 2 {
        None
    } else {
        match part_kind_for_roll(d.roll as int, has_opamp) {
            ComponentType::R => two_pin_added(c, ComponentType::R, d.pair, E24_VALUES@[d.e24_index as int]@),
            ComponentType::C => two_pin_added(c, ComponentType::C, d.pair, E12_VALUES@[d.e12_index as int]@),
            ComponentType::D => if !has_opamp || d.diode_coin {
                two_pin_added(c, ComponentType::D, d.pair, "1N4148"@)
            } else {
                None
            },
            ComponentType::Q => transistor_added(c, d),
            _ => opamp_added(c, d),
        }
    }
}

/// Operator 2 for given draws (see `add_outcome`). The drawn pair must be two
/// distinct registered nodes that do not join VCC to VEE, and the drawn
/// indices must lie in the registry and the value tables.
pub fn add_component_with(circuit: &mut Circuit, d: AddDraws) -> (r: bool)
    requires
        within_id_limits(old(circuit)@),
        d.e24_index < 121,
        d.e12_index < 64,
        old(circuit)@.nodes.len() >= 2 ==> d.base < old(circuit)@.nodes.len() && d.collector
            < old(circuit)@.nodes.len() && d.non_inv < old(circuit)@.nodes.len() && d.target
            < old(circuit)@.nodes.len(),
        d.pair matches Some((u, v)) ==> old(circuit)@.nodes.contains(u) && old(circuit)@.nodes.contains(
            v,
        ) && u != v && not_rail_to_rail(u, v),
    ensures
        r == add_outcome(old(circuit)@, d) is Some,
        add_outcome(old(circuit)@, d) matches Some(c2) ==> final(circuit)@ == c2,
        !r ==> final(circuit)@ == old(circuit)@,
        r ==> added_component_outcome(old(circuit)@, final(circuit)@),
{
    let ghost c0 = circuit@;
    let nodes = get_available_nodes(circuit);
    if nodes.len() < 2 {
        return false;
    }
    proof {
        lemma_ids_below_weaken(c0, usize::MAX - 16, usize::MAX as int);
    }
    let has_opamp = count_of_type(&circuit.components, ComponentType::X) > 0;
    let kind = part_for_roll(d.roll, has_opamp);
    if kind == ComponentType::R {
        if let Some((u, v)) = d.pair {
            let id = next_id(circuit, ComponentType::R);
            let val = E24_VALUES[d.e24_index];
            let comp = build_part('R', ComponentType::R, id, vec![u, v], val);
            let ghost p = comp@;
            circuit.add_component(comp);
            proof {
                assert(in_table(E24_VALUES@, p.value));
                assert(circuit@ == with_component(c0, p));
                assert(added_two_pin(c0, circuit@, ComponentType::R, |v: Seq<char>| in_table(E24_VALUES@, v)));
            }
            return true;
        }
    } else if kind == ComponentType::C {
        if let Some((u, v)) = d.pair {
            let id = next_id(circuit, ComponentType::C);
            let val = E12_VALUES[d.e12_index];
            let comp = build_part('C', ComponentType::C, id, vec![u, v], val);
            let ghost p = comp@;
            circuit.add_component(comp);
            proof {
                assert(in_table(E12_VALUES@, p.value));
                assert(circuit@ == with_component(c0, p));
                assert(added_two_pin(c0, circuit@, ComponentType::C, |v: Seq<char>| in_table(E12_VALUES@, v)));
            }
            return true;
        }
    } else if kind == ComponentType::D {
        if !has_opamp || d.diode_coin {
            if let Some((u, v)) = d.pair {
                let id = next_id(circuit, ComponentType::D);
                let comp = build_part('D', ComponentType::D, id, vec![u, v], "1N4148");
                let ghost p = comp@;
                circuit.add_component(comp);
                proof {
                    assert(circuit@ == with_component(c0, p));
                    assert(added_two_pin(c0, circuit@, ComponentType::D, |v: Seq<char>| v == "1N4148"@));
                }
                return true;
            }
        }
    } else if kind == ComponentType::Q {
        let bjt_count = count_of_type(&circuit.components, ComponentType::Q);
        if bjt_count < 4 {
            let is_npn = d.npn;
            let model = if is_npn {
                "2N3904"
            } else {
                "2N3906"
            };
            let id = next_id(circuit, ComponentType::Q);
            let base = nodes[d.base];
            let col = if is_npn {
                if d.collector_roll < 6 {
                    NODE_VCC
                } else {
                    nodes[d.collector]
                }
            } else {
                if d.collector_roll < 6 {
                    NODE_VEE
                } else {
                    nodes[d.collector]
                }
            };
            let fresh = next_node_id(circuit);
            let e = if is_npn {
                if d.emitter_roll < 5 {
                    NODE_OUT
                } else if d.emitter_coin {
                    NODE_VEE
                } else {
                    fresh
                }
            } else {
                if d.emitter_roll < 5 {
                    NODE_OUT
                } else if d.emitter_coin {
                    NODE_VCC
                } else {
                    fresh
                }
            };
            if col != base && base != e && col != e {
                proof {
                    reveal_strlit("2N3904");
                    reveal_strlit("2N3906");
                    assert("2N3904"@[5] != "2N3906"@[5]);
                    assert(model@ == "2N3904"@ <==> is_npn);
                }
                let q = build_part('Q', ComponentType::Q, id, vec![col, base, e], model);
                let ghost qv = q@;
                circuit.add_component(q);
                let ghost c1 = circuit@;
                proof {
                    assert(c1 == with_component(c0, qv));
                    lemma_ids_below_weaken(c0, usize::MAX - 16, usize::MAX - 15);
                    assert forall|k: int| 0 <= k < qv.nodes.len() implies #[trigger] qv.nodes[k] < usize::MAX - 15 by {
                        assert(qv.nodes =~= seq![col, base, e]);
                    }
                    lemma_with_component_below(c0, qv, usize::MAX - 15);
                    lemma_ids_below_weaken(c1, usize::MAX - 15, usize::MAX as int);
                    assert(c1.components[c0.components.len() as int] == qv);
                }
                let r_e_id = next_id(circuit, ComponentType::R);
                let target_rail = if is_npn {
                    NODE_VEE
                } else {
                    NODE_VCC
                };
                let r_val = if d.resistor_coin {
                    "4.7k"
                } else {
                    "10k"
                };
                if e != target_rail {
                    let rr = build_part('R', ComponentType::R, r_e_id, vec![e, target_rail], r_val);
                    let ghost rv = rr@;
                    circuit.add_component(rr);
                    proof {
                        assert(circuit@ == with_component(c1, rv));
                        assert(circuit@.components[c0.components.len() as int] == qv);
                        assert(rv.nodes =~= seq![e, target_rail]);
                        assert(qv.nodes =~= seq![col, base, e]);
                        assert(count_type(c0.components, ComponentType::X) == 0);
                        assert(count_type(c0.components, ComponentType::Q) < 4);
                        assert(is_new_part(c0, qv, ComponentType::Q));
                        assert(added_transistor(c0, circuit@));
                    }
                } else {
                    proof {
                        assert(qv.nodes =~= seq![col, base, e]);
                        assert(added_transistor(c0, circuit@));
                    }
                }
                return true;
            }
        }
    } else {
        let opamp_count = count_of_type(&circuit.components, ComponentType::X);
        if opamp_count < 1 || (opamp_count < 2 && d.opamp_roll < 5) {
            let non_inv = nodes[d.non_inv];
            let out_node = next_node_id(circuit);
            let inv_node = next_node_id(circuit);
            let id = next_id(circuit, ComponentType::X);
            let x = build_part(
                'X',
                ComponentType::X,
                id,
                vec![non_inv, inv_node, NODE_VCC, NODE_VEE, out_node],
                "TL072",
            );
            let ghost xv = x@;
            circuit.add_component(x);
            let ghost c1 = circuit@;
            proof {
                lemma_ids_below_weaken(c0, usize::MAX - 16, usize::MAX - 15);
                assert forall|k: int| 0 <= k < xv.nodes.len() implies #[trigger] xv.nodes[k] < usize::MAX - 15 by {
                    assert(xv.nodes =~= seq![non_inv, inv_node, NODE_VCC, NODE_VEE, out_node]);
                }
                lemma_with_component_below(c0, xv, usize::MAX - 15);
                lemma_ids_below_weaken(c1, usize::MAX - 15, usize::MAX as int);
                assert(c1.components[c0.components.len() as int] == xv);
            }
            // The feedback resistor would join the output to itself (inverting
            // input and output share one fresh node), so `Component::new`
            // rejects it and nothing is added.
            let r_fb_id = next_id(circuit, ComponentType::R);
            match Component::new('R', r_fb_id, vec![out_node, inv_node], "10k") {
                Ok(r_fb) => {
                    assert(false);
                    circuit.add_component(r_fb);
                },
                Err(_) => {},
            }
            let target_node = if d.target_coin {
                NODE_OUT
            } else {
                nodes[d.target]
            };
            let r_load_id = next_id(circuit, ComponentType::R);
            proof {
                lemma_fresh_node_unregistered(c0);
                if target_node != NODE_OUT {
                    assert(c0.nodes.contains(target_node));
                }
            }
            let rl = build_part('R', ComponentType::R, r_load_id, vec![out_node, target_node], "10k");
            let ghost rlv = rl@;
            circuit.add_component(rl);
            proof {
                assert(circuit@ == with_component(c1, rlv));
                assert(circuit@.components[c0.components.len() as int] == xv);
                assert(xv.nodes =~= seq![non_inv, inv_node, NODE_VCC, NODE_VEE, out_node]);
                assert(added_opamp(c0, circuit@));
            }
            return true;
        }
    }
    false
}

/// Operator 2: adds a random part. With probability 35/100 a resistor (E24)
/// and 30/100 a capacitor (E12) between two registered nodes; 10/100 a 1N4148
/// diode (only half the time when an op-amp exists); otherwise a transistor
/// with its emitter resistor in a circuit without op-amps, or else possibly a
/// second op-amp with its load resistor (see `added_component_outcome`). The
/// draws are made here and handed to `add_component_with`, which says what
/// each of them yields. Nothing is added to a circuit with fewer than two
/// registered nodes.
pub fn mutate_add_component(circuit: &mut Circuit) -> (r: bool)
    requires
        within_id_limits(old(circuit)@),
    ensures
        r ==> added_component_outcome(old(circuit)@, final(circuit)@),
        !r ==> final(circuit)@ == old(circuit)@,
        old(circuit)@.nodes.len() < 2 ==> !r,
        exists|d: AddDraws| #[trigger] add_outcome(old(circuit)@, d) == (if r {
            Some(final(circuit)@)
        } else {
            None::<CircuitView>
        }),
{
    let ghost c0 = circuit@;
    let nodes = get_available_nodes(circuit);
    if nodes.len() < 2 {
        assert(add_outcome(c0, AddDraws {
            roll: 0,
            pair: None,
            e24_index: 0,
            e12_index: 0,
            diode_coin: false,
            npn: false,
            base: 0,
            collector_roll: 0,
            collector: 0,
            emitter_roll: 0,
            emitter_coin: false,
            resistor_coin: false,
            opamp_roll: 0,
            non_inv: 0,
            target_coin: false,
            target: 0,
        }) is None);
        return false;
    }
    let has_opamp = count_of_type(&circuit.components, ComponentType::X) > 0;
    let roll = random_below(PERCENT_ROLLS);
    let kind = part_for_roll(roll, has_opamp);
    let mut d = AddDraws {
        roll,
        pair: None,
        e24_index: 0,
        e12_index: 0,
        diode_coin: false,
        npn: false,
        base: 0,
        collector_roll: 0,
        collector: 0,
        emitter_roll: 0,
        emitter_coin: false,
        resistor_coin: false,
        opamp_roll: 0,
        non_inv: 0,
        target_coin: false,
        target: 0,
    };
    if kind == ComponentType::R {
        d.pair = pick_two_nodes(&nodes);
        if d.pair.is_some() {
            d.e24_index = random_index(121);
        }
    } else if kind == ComponentType::C {
        d.pair = pick_two_nodes(&nodes);
        if d.pair.is_some() {
            d.e12_index = random_index(64);
        }
    } else if kind == ComponentType::D {
        d.diode_coin = has_opamp && random_bool();
        if !has_opamp || d.diode_coin {
            d.pair = pick_two_nodes(&nodes);
        }
    } else if kind == ComponentType::Q {
        d.npn = random_bool();
        d.base = random_index(nodes.len());
        d.collector_roll = random_below(10);
        if d.collector_roll >= 6 {
            d.collector = random_index(nodes.len());
        }
        d.emitter_roll = random_below(10);
        if d.emitter_roll >= 5 {
            d.emitter_coin = random_bool();
        }
        d.resistor_coin = random_bool();
    } else {
        let opamp_count = count_of_type(&circuit.components, ComponentType::X);
        if opamp_count == 1 {
            d.opamp_roll = random_below(PERCENT_ROLLS);
        }
        if opamp_count < 1 || (opamp_count < 2 && d.opamp_roll < 5) {
            d.non_inv = random_index(nodes.len());
            d.target_coin = random_bool();
            if !d.target_coin {
                d.target = random_index(nodes.len());
            }
        }
    }
    let r = add_component_with(circuit, d);
    assert(add_outcome(c0, d) == (if r {
        Some(circuit@)
    } else {
        None::<CircuitView>
    }));
    r
}


/// Types whose terminals operator 4 may move.
pub open spec fn is_movable(c: ComponentView) -> bool {
    let t = c.comp_type;
    (t == ComponentType::R || t == ComponentType::C || t == ComponentType::D || t
        == ComponentType::Q || t == ComponentType::X) && (c.nodes.len() == 2 || c.nodes.len() == 3
        || c.nodes.len() == 5)
}

/// Pin `pin` of component `idx` moved to a new node `nn`, which is registered.
pub open spec fn moved_at(c: CircuitView, c2: CircuitView, idx: int, pin: int) -> bool {
    let comp = c.components[idx];
    let nn = c2.components[idx].nodes[pin];
    &&& 0 <= idx < c.components.len()
    &&& 0 <= pin < comp.nodes.len()
    &&& is_movable(comp)
    &&& c2.components == c.components.update(
        idx,
        ComponentView { nodes: comp.nodes.update(pin, nn), ..comp },
    )
    &&& c2.nodes == insert_node(c.nodes, nn)
    &&& c2.vcc_centivolts == c.vcc_centivolts
    &&& c2.vee_centivolts == c.vee_centivolts
    &&& {
        ||| comp.nodes.len() == 2 && c.nodes.contains(nn) && nn != comp.nodes[1 - pin]
            && not_rail_to_rail(nn, comp.nodes[1 - pin])
        ||| comp.nodes.len() == 3 && comp.comp_type == ComponentType::Q && c.nodes.contains(nn)
            && nn != comp.nodes[(pin + 1) % 3] && nn != comp.nodes[(pin + 2) % 3]
        ||| comp.nodes.len() == 5 && comp.comp_type == ComponentType::X && (pin == 0 || pin == 1
            || pin == 4) && (c.nodes.contains(nn) || nn == fresh_node(c)) && nn != comp.nodes[pin]
            && nn != NODE_VCC && nn != NODE_VEE
    }
}

/// Some component of `c` has terminals operator 4 may move.
pub open spec fn has_movable(c: CircuitView) -> bool {
    exists|k: int| 0 <= k < c.components.len() && #[trigger] is_movable(c.components[k])
}

/// Operator 4's outcome.
pub open spec fn moved_terminal_outcome(c: CircuitView, c2: CircuitView) -> bool {
    exists|idx: int, pin: int| #[trigger] moved_at(c, c2, idx, pin)
}

/// Moves pin `pin` of component `idx` to `nn` and registers `nn`.
fn move_pin(circuit: &mut Circuit, idx: usize, pin: usize, nn: usize)
    requires
        idx < old(circuit).components.len(),
        pin < old(circuit).components@[idx as int].nodes.len(),
    ensures
        final(circuit)@ == (CircuitView {
            components: old(circuit)@.components.update(
                idx as int,
                ComponentView {
                    nodes: old(circuit)@.components[idx as int].nodes.update(pin as int, nn),
                    ..old(circuit)@.components[idx as int]
                },
            ),
            nodes: insert_node(old(circuit)@.nodes, nn),
            ..old(circuit)@
        }),
{
    let mut comp = circuit.components[idx].deep_copy();
    comp.nodes.set(pin, nn);
    circuit.components.set(idx, comp);
    assert(circuit@.components =~= old(circuit)@.components.update(
        idx as int,
        ComponentView {
            nodes: old(circuit)@.components[idx as int].nodes.update(pin as int, nn),
            ..old(circuit)@.components[idx as int]
        },
    ));
    circuit.register_node(nn);
}

/// What moving pin `pin` of component `idx` to node `nn` makes of `c`:
/// the circuit with the pin moved and `nn` registered, or nothing when the
/// move is refused. A two-pin part refuses its other pin's node and a
/// VCC-VEE join; a transistor refuses the nodes of its other two pins; an
/// op-amp refuses the pin's own node and the rails; any other part refuses.
pub open spec fn move_outcome(c: CircuitView, idx: int, pin: int, nn: usize) -> Option<CircuitView> {
    let comp = c.components[idx];
    let ns = comp.nodes;
    let ok = if !(0 <= idx < c.components.len()) || !(0 <= pin < ns.len()) {
        false
    } else if ns.len() == 2 {
        nn != ns[1 - pin] && not_rail_to_rail(nn, ns[1 - pin])
    } else if ns.len() == 3 && comp.comp_type == ComponentType::Q {
        nn != ns[(pin + 1) % 3] && nn != ns[(pin + 2) % 3]
    } else if ns.len() == 5 && comp.comp_type == ComponentType::X {
        nn != ns[pin] && nn != NODE_VCC && nn != NODE_VEE
    } else {
        false
    };
    if ok {
        Some(
            CircuitView {
                components: c.components.update(idx, ComponentView { nodes: ns.update(pin, nn), ..comp }),
                nodes: insert_node(c.nodes, nn),
                ..c
            },
        )
    } else {
        None
    }
}

/// Operator 4 for a drawn component `idx`, pin `pin` and node `nn` (see
/// `move_outcome`). The component must be movable; the node must be
/// registered, or, for an op-amp, may be the fresh node; an op-amp's pin must
/// be an input or its output.
pub fn move_terminal_with(circuit: &mut Circuit, idx: usize, pin: usize, nn: usize) -> (r: bool)
    requires
        idx < old(circuit)@.components.len(),
        is_movable(old(circuit)@.components[idx as int]),
        pin < old(circuit)@.components[idx as int].nodes.len(),
        old(circuit)@.nodes.contains(nn) || (old(circuit)@.components[idx as int].comp_type
            == ComponentType::X && old(circuit)@.components[idx as int].nodes.len() == 5 && nn
            == fresh_node(old(circuit)@)),
        old(circuit)@.components[idx as int].comp_type == ComponentType::X && old(circuit)@.components[idx as int].nodes.len()
            == 5 ==> pin == 0 || pin == 1 || pin == 4,
    ensures
        r == move_outcome(old(circuit)@, idx as int, pin as int, nn) is Some,
        move_outcome(old(circuit)@, idx as int, pin as int, nn) matches Some(c2) ==> final(circuit)@ == c2,
        !r ==> final(circuit)@ == old(circuit)@,
        r ==> moved_terminal_outcome(old(circuit)@, final(circuit)@),
{
    let ghost c0 = circuit@;
    let n = circuit.components[idx].nodes.len();
    let t = circuit.components[idx].comp_type;
    assert(circuit.components@[idx as int]@ == c0.components[idx as int]);
    let ok = if n == 2 {
        let other = circuit.components[idx].nodes[1 - pin];
        !(nn == other || (nn == NODE_VCC && other == NODE_VEE) || (nn == NODE_VEE && other == NODE_VCC))
    } else if n == 3 && t == ComponentType::Q {
        nn != circuit.components[idx].nodes[(pin + 1) % 3] && nn != circuit.components[idx].nodes[(pin
            + 2) % 3]
    } else if n == 5 && t == ComponentType::X {
        nn != circuit.components[idx].nodes[pin] && nn != NODE_VCC && nn != NODE_VEE
    } else {
        false
    };
    if !ok {
        return false;
    }
    move_pin(circuit, idx, pin, nn);
    proof {
        assert(circuit@.components[idx as int].nodes[pin as int] == nn);
        assert(moved_at(c0, circuit@, idx as int, pin as int));
    }
    true
}

/// Operator 4: moves one terminal of a random two-pin part, transistor or
/// op-amp to another node (see `moved_at`); up to 15 redraws are made when the
/// drawn node is unusable.
pub fn mutate_move_terminal(circuit: &mut Circuit) -> (r: bool)
    requires
        within_id_limits(old(circuit)@),
    ensures
        r ==> moved_terminal_outcome(old(circuit)@, final(circuit)@),
        !r ==> final(circuit)@ == old(circuit)@,
        !has_movable(old(circuit)@) || old(circuit)@.nodes.len() < 2 ==> !r,
        !r && has_movable(old(circuit)@) && old(circuit)@.nodes.len() >= 2 ==> exists|idx: int, pin: int, nn: usize|
            0 <= idx < old(circuit)@.components.len() && is_movable(old(circuit)@.components[idx])
                && #[trigger] move_outcome(old(circuit)@, idx, pin, nn) is None,
        exists|idx: int, pin: int, nn: usize| #[trigger] move_outcome(old(circuit)@, idx, pin, nn) == (if r {
            Some(final(circuit)@)
        } else {
            None::<CircuitView>
        }),
{
    let ghost c0 = circuit@;
    let ghost cs = circuit@.components;
    let mut candidates: Vec<usize> = Vec::new();
    let mut i: usize = 0;
    while i < circuit.components.len()
        invariant
            cs == circuit@.components,
            circuit@ == c0,
            0 <= i <= cs.len(),
            forall|k: int| 0 <= k < candidates@.len() ==> 0 <= #[trigger] candidates@[k] < i
                && is_movable(cs[candidates@[k] as int]),
            candidates@.len() == 0 ==> forall|j: int| 0 <= j < i ==> !(#[trigger] is_movable(cs[j])),
        decreases cs.len() - i,
    {
        let c = &circuit.components[i];
        let t = c.comp_type;
        let n = c.nodes.len();
        assert(cs[i as int] == circuit.components@[i as int]@);
        if (t == ComponentType::R || t == ComponentType::C || t == ComponentType::D || t
            == ComponentType::Q || t == ComponentType::X) && (n == 2 || n == 3 || n == 5) {
            candidates.push(i);
            assert(candidates@[candidates@.len() - 1] == i);
        }
        i = i + 1;
    }
    if candidates.len() == 0 {
        assert(move_outcome(c0, -1, 0, 0) is None);
        return false;
    }
    assert(has_movable(c0)) by {
        let k = candidates@[0] as int;
        assert(is_movable(cs[k]));
    }
    let nodes = get_available_nodes(circuit);
    if nodes.len() < 2 {
        assert(move_outcome(c0, -1, 0, 0) is None);
        return false;
    }
    let comp_idx = candidates[random_index(candidates.len())];
    let n = circuit.components[comp_idx].nodes.len();
    let t = circuit.components[comp_idx].comp_type;
    let pin: usize;
    let new_node: usize;
    if n == 2 {
        pin = if random_bool() {
            0
        } else {
            1
        };
        let other = circuit.components[comp_idx].nodes[1 - pin];
        let mut cand = nodes[random_index(nodes.len())];
        let mut attempts: usize = 0;
        while (cand == other || (cand == NODE_VCC && other == NODE_VEE) || (cand == NODE_VEE
            && other == NODE_VCC)) && attempts < 15
            invariant
                nodes@ == c0.nodes,
                nodes.len() >= 2,
                c0.nodes.contains(cand),
                attempts <= 15,
            decreases 15 - attempts,
        {
            cand = nodes[random_index(nodes.len())];
            attempts = attempts + 1;
        }
        new_node = cand;
    } else if n == 3 && t == ComponentType::Q {
        pin = random_index(3);
        let other_a = circuit.components[comp_idx].nodes[(pin + 1) % 3];
        let other_b = circuit.components[comp_idx].nodes[(pin + 2) % 3];
        let mut cand = nodes[random_index(nodes.len())];
        let mut attempts: usize = 0;
        while (cand == other_a || cand == other_b) && attempts < 15
            invariant
                nodes@ == c0.nodes,
                nodes.len() >= 2,
                c0.nodes.contains(cand),
                attempts <= 15,
            decreases 15 - attempts,
        {
            cand = nodes[random_index(nodes.len())];
            attempts = attempts + 1;
        }
        new_node = cand;
    } else if n == 5 && t == ComponentType::X {
        pin = match random_below(3) {
            0 => 0,
            1 => 1,
            _ => 4,
        };
        proof {
            lemma_ids_below_weaken(c0, usize::MAX - 16, usize::MAX as int);
        }
        new_node = if random_below(10) < 3 {
            next_node_id(circuit)
        } else {
            let mut cand = nodes[random_index(nodes.len())];
            let mut attempts: usize = 0;
            while (cand == NODE_VCC || cand == NODE_VEE) && attempts < 10
                invariant
                    nodes@ == c0.nodes,
                    nodes.len() >= 2,
                    c0.nodes.contains(cand),
                    attempts <= 10,
                decreases 10 - attempts,
            {
                cand = nodes[random_index(nodes.len())];
                attempts = attempts + 1;
            }
            cand
        };
    } else {
        assert(move_outcome(c0, comp_idx as int, 0, 0) is None);
        assert(is_movable(c0.components[comp_idx as int]));
        return false;
    }
    let r = move_terminal_with(circuit, comp_idx, pin, new_node);
    assert(is_movable(c0.components[comp_idx as int]));
    assert(move_outcome(c0, comp_idx as int, pin as int, new_node) == (if r {
        Some(circuit@)
    } else {
        None::<CircuitView>
    }));
    r
}


/// An op-amp (five pins) at index `k`.
pub open spec fn is_opamp_at(c: CircuitView, k: int) -> bool {
    0 <= k < c.components.len() && c.components[k].comp_type == ComponentType::X
        && c.components[k].nodes.len() == 5
}

/// A transistor (three pins) at index `k`.
pub open spec fn is_bjt_at(c: CircuitView, k: int) -> bool {
    0 <= k < c.components.len() && c.components[k].comp_type == ComponentType::Q
        && c.components[k].nodes.len() == 3
}

/// A new E24 resistor of `c`.
pub open spec fn is_new_e24_resistor(c: CircuitView, p: ComponentView) -> bool {
    is_new_part(c, p, ComponentType::R) && in_table(E24_VALUES@, p.value)
}

/// A new E12 capacitor of `c`.
pub open spec fn is_new_e12_capacitor(c: CircuitView, p: ComponentView) -> bool {
    is_new_part(c, p, ComponentType::C) && in_table(E12_VALUES@, p.value)
}

/// Feedback part `p` around op-amp `k`: an E24 resistor or E12 capacitor from
/// its output to its inverting input, or, when those are one node, an E12
/// capacitor from the output to a registered node other than the output and
/// the rails.
pub open spec fn opamp_feedback(c: CircuitView, p: ComponentView, k: int) -> bool {
    let out = c.components[k].nodes[4];
    let inv = c.components[k].nodes[1];
    &&& is_opamp_at(c, k)
    &&& {
        ||| inv != out && p.nodes == seq![out, inv] && (is_new_e24_resistor(c, p)
            || is_new_e12_capacitor(c, p))
        ||| inv == out && is_new_e12_capacitor(c, p) && p.nodes.len() == 2 && p.nodes[0] == out
            && c.nodes.contains(p.nodes[1]) && p.nodes[1] != out && p.nodes[1] != NODE_VCC
            && p.nodes[1] != NODE_VEE && p.nodes[1] != NODE_GND
    }
}

/// Biasing resistor `p` across transistor `k`: collector-base, base-GND or emitter-GND.
pub open spec fn bjt_feedback(c: CircuitView, p: ComponentView, k: int) -> bool {
    let ns = c.components[k].nodes;
    &&& is_bjt_at(c, k)
    &&& is_new_e24_resistor(c, p)
    &&& (p.nodes == seq![ns[0], ns[1]] || p.nodes == seq![ns[1], NODE_GND] || p.nodes == seq![
        ns[2],
        NODE_GND,
    ])
    &&& p.nodes[0] != p.nodes[1]
}

/// Operator 5's own outcome: one feedback or biasing part added.
pub open spec fn added_feedback_part(c: CircuitView, c2: CircuitView) -> bool {
    let p = c2.components.last();
    &&& c2.components.len() == c.components.len() + 1
    &&& c2 == with_component(c, p)
    &&& ((exists|k: int| #[trigger] opamp_feedback(c, p, k)) || (exists|k: int|
        #[trigger] bjt_feedback(c, p, k)))
}

/// Operator 5's outcome, including its fallback to operator 2.
pub open spec fn feedback_outcome(c: CircuitView, c2: CircuitView) -> bool {
    added_feedback_part(c, c2) || added_component_outcome(c, c2)
}

/// `n` can take the far end of an output capacitor on an op-amp whose output
/// is `out`: it is neither that output nor a rail nor ground.
pub open spec fn is_tie_point(n: usize, out: usize) -> bool {
    n != out && n != NODE_VCC && n != NODE_VEE && n != NODE_GND
}

/// Op-amp `k` takes feedback whatever is drawn: its inverting input is not
/// its output, or a registered tie point exists for its output capacitor.
pub open spec fn opamp_takes_feedback(c: CircuitView, k: int) -> bool {
    let out = c.components[k].nodes[4];
    c.components[k].nodes[1] != out || exists|n: usize| #[trigger] c.nodes.contains(n) && is_tie_point(n, out)
}

/// Transistor `k` takes a biasing resistor whatever is drawn: its collector
/// is not its base, and neither its base nor its emitter is ground.
pub open spec fn bjt_takes_bias(c: CircuitView, k: int) -> bool {
    let ns = c.components[k].nodes;
    ns[0] != ns[1] && ns[1] != NODE_GND && ns[2] != NODE_GND
}

/// Every op-amp of `c` takes feedback, and there is at least one.
pub open spec fn opamp_feedback_sure(c: CircuitView) -> bool {
    &&& exists|k: int| #[trigger] is_opamp_at(c, k)
    &&& forall|k: int| #[trigger] is_opamp_at(c, k) ==> opamp_takes_feedback(c, k)
}

/// Every transistor of `c` takes a biasing resistor, and there is at least one.
pub open spec fn bjt_bias_sure(c: CircuitView) -> bool {
    &&& has_bjt(c)
    &&& forall|k: int| #[trigger] is_bjt_at(c, k) ==> bjt_takes_bias(c, k)
}

/// Operator 5 is sure to add its own part, whichever op-amp or transistor it
/// draws.
pub open spec fn feedback_sure(c: CircuitView) -> bool {
    opamp_feedback_sure(c) || bjt_bias_sure(c)
}

/// Indices of components satisfying op-amp (`want_opamp`) or transistor shape.
fn shaped_indices(comps: &Vec<Component>, want_opamp: bool) -> (v: Vec<usize>)
    ensures
        forall|k: int| 0 <= k < v@.len() ==> {
            let j = #[trigger] v@[k] as int;
            0 <= j < comps.len() && if want_opamp {
                comps@[j]@.comp_type == ComponentType::X && comps@[j]@.nodes.len() == 5
            } else {
                comps@[j]@.comp_type == ComponentType::Q && comps@[j]@.nodes.len() == 3
            }
        },
        v@.no_duplicates(),
        forall|j: int| 0 <= j < comps.len() && (if want_opamp {
            comps@[j]@.comp_type == ComponentType::X && comps@[j]@.nodes.len() == 5
        } else {
            comps@[j]@.comp_type == ComponentType::Q && comps@[j]@.nodes.len() == 3
        }) ==> #[trigger] v@.contains(j as usize),
{
    let mut v: Vec<usize> = Vec::new();
    let mut i: usize = 0;
    while i < comps.len()
        invariant
            0 <= i <= comps.len(),
            forall|k: int| 0 <= k < v@.len() ==> {
                let j = #[trigger] v@[k] as int;
                0 <= j < i && if want_opamp {
                    comps@[j]@.comp_type == ComponentType::X && comps@[j]@.nodes.len() == 5
                } else {
                    comps@[j]@.comp_type == ComponentType::Q && comps@[j]@.nodes.len() == 3
                }
            },
            v@.no_duplicates(),
            forall|j: int| 0 <= j < i && (if want_opamp {
                comps@[j]@.comp_type == ComponentType::X && comps@[j]@.nodes.len() == 5
            } else {
                comps@[j]@.comp_type == ComponentType::Q && comps@[j]@.nodes.len() == 3
            }) ==> #[trigger] v@.contains(j as usize),
        decreases comps.len() - i,
    {
        let c = &comps[i];
        let hit = if want_opamp {
            c.comp_type == ComponentType::X && c.nodes.len() == 5
        } else {
            c.comp_type == ComponentType::Q && c.nodes.len() == 3
        };
        if hit {
            let ghost prev = v@;
            v.push(i);
            assert(v@[v@.len() - 1] == i);
            assert forall|x: usize| prev.contains(x) implies v@.contains(x) by {
                let k = choose|k: int| 0 <= k < prev.len() && prev[k] == x;
                assert(v@[k] == x);
            }
            assert forall|a: int, b: int| 0 <= a < b < v@.len() implies v@[a] != v@[b] by {
                if b == v@.len() - 1 {
                    assert(v@[a] < i);
                }
            }
            assert(v@.contains(i));
            assert forall|j: int| 0 <= j < i + 1 && (if want_opamp {
                comps@[j]@.comp_type == ComponentType::X && comps@[j]@.nodes.len() == 5
            } else {
                comps@[j]@.comp_type == ComponentType::Q && comps@[j]@.nodes.len() == 3
            }) implies #[trigger] v@.contains(j as usize) by {
                if j < i {
                    assert(prev.contains(j as usize));
                }
            }
        }
        i = i + 1;
    }
    v
}

/// The random values operator 5 draws; fields that are not reached are
/// ignored.
#[derive(Debug, Clone, Copy, PartialEq, Eq)]
pub struct FeedbackDraws {
    /// The drawn op-amp (a component index), when the circuit has one.
    pub opamp: Option<usize>,
    /// A resistor (`true`) or a capacitor from the output to the inverting input.
    pub resistor_coin: bool,
    /// Index of a resistor value in `E24_VALUES`.
    pub e24: usize,
    /// Index of a capacitor value in `E12_VALUES`.
    pub e12: usize,
    /// The drawn tie point for an output capacitor (a node).
    pub tie: usize,
    /// The drawn transistor (a component index), when one is reached.
    pub bjt: Option<usize>,
    /// Which biasing resistor: collector-base (0), base-GND (1), else emitter-GND.
    pub bias: u8,
}

/// A new part of type `t` from `u` to `v` with value `value`.
pub open spec fn new_two_pin(c: CircuitView, t: ComponentType, u: usize, v: usize, value: Seq<char>) -> ComponentView {
    ComponentView { comp_type: t, id: next_id_for(c, t) as usize, nodes: seq![u, v], value }
}

/// The feedback part on op-amp `k` for draws `d`: from its output to its
/// inverting input an E24 resistor (coin) or an E12 capacitor; when those
/// are one node, an E12 capacitor from the output to the drawn tie point, if
/// the circuit has a tie point at all.
pub open spec fn opamp_feedback_for(c: CircuitView, k: int, d: FeedbackDraws) -> Option<CircuitView> {
    let out = c.components[k].nodes[4];
    let inv = c.components[k].nodes[1];
    if inv != out {
        Some(
            with_component(
                c,
                if d.resistor_coin {
                    new_two_pin(c, ComponentType::R, out, inv, E24_VALUES@[d.e24 as int]@)
                } else {
                    new_two_pin(c, ComponentType::C, out, inv, E12_VALUES@[d.e12 as int]@)
                },
            ),
        )
    } else if exists|n: usize| #[trigger] c.nodes.contains(n) && is_tie_point(n, out) {
        Some(with_component(c, new_two_pin(c, ComponentType::C, out, d.tie, E12_VALUES@[d.e12 as int]@)))
    } else {
        None
    }
}

/// The biasing resistor on transistor `k` for the drawn choice `bias` and
/// value `E24_VALUES[e24]`, unless its two ends coincide.
pub open spec fn bias_for(c: CircuitView, k: int, bias: u8, e24: int) -> Option<CircuitView> {
    let ns = c.components[k].nodes;
    let u = if bias == 0 {
        ns[0]
    } else if bias == 1 {
        ns[1]
    } else {
        ns[2]
    };
    let v = if bias == 0 {
        ns[1]
    } else {
        NODE_GND
    };
    if u != v {
        Some(with_component(c, new_two_pin(c, ComponentType::R, u, v, E24_VALUES@[e24]@)))
    } else {
        None
    }
}

/// Operator 5's own part for draws `d`: feedback on the drawn op-amp, else a
/// biasing resistor on the drawn transistor, else nothing.
pub open spec fn feedback_part_for(c: CircuitView, d: FeedbackDraws) -> Option<CircuitView> {
    let from_opamp = match d.opamp {
        Some(k) => opamp_feedback_for(c, k as int, d),
        None => None,
    };
    if from_opamp is Some {
        from_opamp
    } else {
        match d.bjt {
            Some(k) => bias_for(c, k as int, d.bias, d.e24 as int),
            None => None,
        }
    }
}

/// The tie points for an output capacitor on output `out`, in registry order.
fn tie_points(circuit: &Circuit, out: usize) -> (v: Vec<usize>)
    ensures
        forall|k: int| 0 <= k < v@.len() ==> circuit@.nodes.contains(#[trigger] v@[k]) && is_tie_point(v@[k], out),
        (exists|n: usize| #[trigger] circuit@.nodes.contains(n) && is_tie_point(n, out)) ==> v@.len() > 0,
{
    let ghost c0 = circuit@;
    let mut internal: Vec<usize> = Vec::new();
    let mut j: usize = 0;
    while j < circuit.nodes.len()
        invariant
            circuit@ == c0,
            0 <= j <= circuit.nodes.len(),
            forall|k: int| 0 <= k < internal@.len() ==> c0.nodes.contains(#[trigger] internal@[k]) && is_tie_point(internal@[k], out),
            forall|jj: int|
                0 <= jj < j && is_tie_point(#[trigger] c0.nodes[jj], out) ==> internal@.contains(c0.nodes[jj]),
        decreases circuit.nodes.len() - j,
    {
        let n = circuit.nodes[j];
        assert(c0.nodes[j as int] == n);
        if n != out && n != NODE_VCC && n != NODE_VEE && n != NODE_GND {
            let ghost prev = internal@;
            internal.push(n);
            assert(internal@[internal@.len() - 1] == n);
            assert forall|jj: int|
                0 <= jj < j + 1 && is_tie_point(#[trigger] c0.nodes[jj], out) implies internal@.contains(c0.nodes[jj]) by {
                if jj < j {
                    let k = choose|k: int| 0 <= k < prev.len() && prev[k] == c0.nodes[jj];
                    assert(internal@[k] == c0.nodes[jj]);
                } else {
                    assert(internal@[internal@.len() - 1] == c0.nodes[jj]);
                }
            }
        }
        j = j + 1;
    }
    proof {
        if exists|n: usize| #[trigger] c0.nodes.contains(n) && is_tie_point(n, out) {
            let n = choose|n: usize| #[trigger] c0.nodes.contains(n) && is_tie_point(n, out);
            let jj = choose|jj: int| 0 <= jj < c0.nodes.len() && c0.nodes[jj] == n;
            assert(is_tie_point(c0.nodes[jj], out));
            assert(internal@.contains(n));
        }
    }
    internal
}

/// Operator 5's own part for the drawn values (see `feedback_part_for`).
pub fn feedback_part_at(circuit: &mut Circuit, d: FeedbackDraws) -> (r: bool)
    requires
        within_id_limits(old(circuit)@),
        d.e24 < 121,
        d.e12 < 64,
        d.opamp matches Some(k) ==> is_opamp_at(old(circuit)@, k as int),
        d.bjt matches Some(k) ==> is_bjt_at(old(circuit)@, k as int),
        d.opamp matches Some(k) ==> {
            let out = old(circuit)@.components[k as int].nodes[4];
            old(circuit)@.components[k as int].nodes[1] == out && (exists|n: usize|
                #[trigger] old(circuit)@.nodes.contains(n) && is_tie_point(n, out))
                ==> old(circuit)@.nodes.contains(d.tie) && is_tie_point(d.tie, out)
        },
    ensures
        r == feedback_part_for(old(circuit)@, d) is Some,
        feedback_part_for(old(circuit)@, d) matches Some(c2) ==> final(circuit)@ == c2,
        !r ==> final(circuit)@ == old(circuit)@,
        r ==> added_feedback_part(old(circuit)@, final(circuit)@),
{
    let ghost c0 = circuit@;
    proof {
        lemma_ids_below_weaken(c0, usize::MAX - 16, usize::MAX as int);
    }
    if let Some(op_idx) = d.opamp {
        assert(circuit.components@[op_idx as int]@ == c0.components[op_idx as int]);
        let out_node = circuit.components[op_idx].nodes[4];
        let inv_node = circuit.components[op_idx].nodes[1];
        if inv_node != out_node {
            let p = if d.resistor_coin {
                let id = next_id(circuit, ComponentType::R);
                build_part('R', ComponentType::R, id, vec![out_node, inv_node], E24_VALUES[d.e24])
            } else {
                let id = next_id(circuit, ComponentType::C);
                build_part('C', ComponentType::C, id, vec![out_node, inv_node], E12_VALUES[d.e12])
            };
            let ghost pv = p@;
            circuit.add_component(p);
            proof {
                assert(pv.nodes =~= seq![out_node, inv_node]);
                assert(opamp_feedback(c0, pv, op_idx as int));
                assert(circuit@.components.last() == pv);
            }
            return true;
        }
        let ties = tie_points(circuit, out_node);
        if ties.len() > 0 {
            assert(c0.nodes.contains(ties@[0]) && is_tie_point(ties@[0], out_node));
            assert(c0.nodes.contains(d.tie) && is_tie_point(d.tie, out_node));
            let id = next_id(circuit, ComponentType::C);
            let p = build_part('C', ComponentType::C, id, vec![out_node, d.tie], E12_VALUES[d.e12]);
            let ghost pv = p@;
            circuit.add_component(p);
            proof {
                assert(pv.nodes =~= seq![out_node, d.tie]);
                assert(opamp_feedback(c0, pv, op_idx as int));
                assert(circuit@.components.last() == pv);
            }
            return true;
        }
    }
    if let Some(bjt_idx) = d.bjt {
        assert(circuit.components@[bjt_idx as int]@ == c0.components[bjt_idx as int]);
        let c_node = circuit.components[bjt_idx].nodes[0];
        let b_node = circuit.components[bjt_idx].nodes[1];
        let e_node = circuit.components[bjt_idx].nodes[2];
        let (u, v) = if d.bias == 0 {
            (c_node, b_node)
        } else if d.bias == 1 {
            (b_node, NODE_GND)
        } else {
            (e_node, NODE_GND)
        };
        if u != v {
            let id = next_id(circuit, ComponentType::R);
            let p = build_part('R', ComponentType::R, id, vec![u, v], E24_VALUES[d.e24]);
            let ghost pv = p@;
            circuit.add_component(p);
            proof {
                assert(pv.nodes =~= seq![u, v]);
                assert(bjt_feedback(c0, pv, bjt_idx as int));
                assert(circuit@.components.last() == pv);
            }
            return true;
        }
    }
    false
}

/// Operator 5: adds negative feedback around a random op-amp (resistor or
/// capacitor from output to inverting input, or a capacitor from the output to
/// a tie point), else a biasing resistor on a random transistor, else falls
/// back to operator 2 (see `feedback_outcome`). The draws are made here and
/// handed to `feedback_part_at`.
pub fn mutate_add_feedback(circuit: &mut Circuit) -> (r: bool)
    requires
        within_id_limits(old(circuit)@),
    ensures
        r ==> feedback_outcome(old(circuit)@, final(circuit)@),
        !r ==> final(circuit)@ == old(circuit)@,
        feedback_sure(old(circuit)@) ==> r && added_feedback_part(old(circuit)@, final(circuit)@),
        r ==> (exists|d: FeedbackDraws| #[trigger] feedback_part_for(old(circuit)@, d) == Some(final(circuit)@))
            || added_component_outcome(old(circuit)@, final(circuit)@),
{
    let ghost c0 = circuit@;
    let mut d = FeedbackDraws { opamp: None, resistor_coin: false, e24: 0, e12: 0, tie: 0, bjt: None, bias: 0 };
    let mut done = false;
    let opamps = shaped_indices(&circuit.components, true);
    if opamps.len() == 0 {
        proof {
            if opamp_feedback_sure(c0) {
                let k = choose|k: int| #[trigger] is_opamp_at(c0, k);
                assert(circuit.components@[k]@ == c0.components[k]);
                assert(opamps@.contains(k as usize));
            }
        }
    } else {
        let k = opamps[random_index(opamps.len())];
        assert(is_opamp_at(c0, k as int));
        d.opamp = Some(k);
        let out_node = circuit.components[k].nodes[4];
        let inv_node = circuit.components[k].nodes[1];
        if inv_node != out_node {
            d.resistor_coin = random_bool();
            if d.resistor_coin {
                d.e24 = random_index(121);
            } else {
                d.e12 = random_index(64);
            }
            done = true;
        } else {
            let internal = tie_points(circuit, out_node);
            if internal.len() > 0 {
                d.tie = internal[random_index(internal.len())];
                d.e12 = random_index(64);
                done = true;
            }
        }
    }
    if !done {
        let bjts = shaped_indices(&circuit.components, false);
        if bjts.len() == 0 {
            proof {
                if bjt_bias_sure(c0) {
                    let k = choose|k: int| #[trigger] is_bjt_at(c0, k);
                    assert(circuit.components@[k]@ == c0.components[k]);
                    assert(bjts@.contains(k as usize));
                }
            }
        } else {
            let k = bjts[random_index(bjts.len())];
            assert(is_bjt_at(c0, k as int));
            d.bjt = Some(k);
            d.bias = random_below(3);
            let ns0 = circuit.components[k].nodes[0];
            let ns1 = circuit.components[k].nodes[1];
            let ns2 = circuit.components[k].nodes[2];
            let differ = if d.bias == 0 {
                ns0 != ns1
            } else if d.bias == 1 {
                ns1 != NODE_GND
            } else {
                ns2 != NODE_GND
            };
            if differ {
                d.e24 = random_index(121);
            }
        }
    }
    let r = feedback_part_at(circuit, d);
    if r {
        assert(feedback_part_for(c0, d) == Some(circuit@));
        return true;
    }
    proof {
        assert(!feedback_sure(c0));
    }
    mutate_add_component(circuit)
}

/// A new E24 resistor from the output of op-amp `a` to an input of op-amp `b`.
pub open spec fn cross_coupled_at(c: CircuitView, c2: CircuitView, a: int, b: int) -> bool {
    let p = c2.components.last();
    let out_a = c.components[a].nodes[4];
    let nb = c.components[b].nodes;
    &&& is_opamp_at(c, a)
    &&& is_opamp_at(c, b)
    &&& a != b
    &&& c2.components.len() == c.components.len() + 1
    &&& c2 == with_component(c, p)
    &&& is_new_e24_resistor(c, p)
    &&& p.nodes.len() == 2
    &&& p.nodes[0] == out_a
    &&& (p.nodes[1] == nb[0] || p.nodes[1] == nb[1])
    &&& p.nodes[1] != out_a
}

/// Operator 6's outcome, including its fallback to operator 5.
pub open spec fn cross_coupling_outcome(c: CircuitView, c2: CircuitView) -> bool {
    (exists|a: int, b: int| #[trigger] cross_coupled_at(c, c2, a, b)) || feedback_outcome(c, c2)
}

/// `c` has two distinct op-amps.
pub open spec fn two_opamps(c: CircuitView) -> bool {
    exists|a: int, b: int| a != b && #[trigger] is_opamp_at(c, a) && #[trigger] is_opamp_at(c, b)
}

/// The output of op-amp `a` can be coupled into op-amp `b`: one of `b`'s
/// inputs is not `a`'s output.
pub open spec fn couplable(c: CircuitView, a: int, b: int) -> bool {
    let out_a = c.components[a].nodes[4];
    c.components[b].nodes[0] != out_a || c.components[b].nodes[1] != out_a
}

/// Operator 6 is sure to succeed: with two or more op-amps, every ordered pair
/// of distinct op-amps can be coupled; with fewer, operator 5 is sure to.
pub open spec fn cross_coupling_sure(c: CircuitView) -> bool {
    if two_opamps(c) {
        forall|a: int, b: int|
            #![trigger couplable(c, a, b)]
            a != b && is_opamp_at(c, a) && is_opamp_at(c, b) ==> couplable(c, a, b)
    } else {
        feedback_sure(c)
    }
}

/// The inputs of op-amp `b` that the output of op-amp `a` may drive: its
/// non-inverting then its inverting input, each unless it is `a`'s output.
pub open spec fn coupling_inputs(c: CircuitView, a: int, b: int) -> Seq<usize> {
    let out_a = c.components[a].nodes[4];
    let nb = c.components[b].nodes;
    (if nb[0] != out_a {
        seq![nb[0]]
    } else {
        Seq::empty()
    }) + (if nb[1] != out_a {
        seq![nb[1]]
    } else {
        Seq::empty()
    })
}

/// What operator 6 makes of `c` for the drawn op-amps `a` and `b`, input
/// `choice` (see `coupling_inputs`) and resistor value `E24_VALUES[e24]`: a
/// new resistor from `a`'s output to that input, or nothing when `b` has no
/// such input.
pub open spec fn coupled_for(c: CircuitView, a: int, b: int, choice: int, e24: int) -> Option<CircuitView> {
    let ins = coupling_inputs(c, a, b);
    if ins.len() == 0 {
        None
    } else {
        Some(
            with_component(
                c,
                ComponentView {
                    comp_type: ComponentType::R,
                    id: next_id_for(c, ComponentType::R) as usize,
                    nodes: seq![c.components[a].nodes[4], ins[choice]],
                    value: E24_VALUES@[e24]@,
                },
            ),
        )
    }
}

/// The inputs of op-amp `b` that `a`'s output may drive, in order.
fn coupling_input_list(circuit: &Circuit, a: usize, b: usize) -> (v: Vec<usize>)
    requires
        is_opamp_at(circuit@, a as int),
        is_opamp_at(circuit@, b as int),
    ensures
        v@ == coupling_inputs(circuit@, a as int, b as int),
{
    assert(circuit.components@[a as int]@ == circuit@.components[a as int]);
    assert(circuit.components@[b as int]@ == circuit@.components[b as int]);
    let out_a = circuit.components[a].nodes[4];
    let b0 = circuit.components[b].nodes[0];
    let b1 = circuit.components[b].nodes[1];
    let mut v: Vec<usize> = Vec::new();
    if b0 != out_a {
        v.push(b0);
    }
    if b1 != out_a {
        v.push(b1);
    }
    assert(v@ =~= coupling_inputs(circuit@, a as int, b as int));
    v
}

/// How many inputs of op-amp `b` that `a`'s output may drive.
fn coupling_input_count(circuit: &Circuit, a: usize, b: usize) -> (n: usize)
    requires
        is_opamp_at(circuit@, a as int),
        is_opamp_at(circuit@, b as int),
    ensures
        n == coupling_inputs(circuit@, a as int, b as int).len(),
{
    coupling_input_list(circuit, a, b).len()
}

/// Operator 6 for the drawn op-amps `a` and `b`, input `choice` and value
/// index `e24` (see `coupled_for`).
pub fn cross_couple_at(circuit: &mut Circuit, a: usize, b: usize, choice: usize, e24: usize) -> (r: bool)
    requires
        within_id_limits(old(circuit)@),
        is_opamp_at(old(circuit)@, a as int),
        is_opamp_at(old(circuit)@, b as int),
        a != b,
        e24 < 121,
        coupling_inputs(old(circuit)@, a as int, b as int).len() > 0 ==> choice < coupling_inputs(
            old(circuit)@,
            a as int,
            b as int,
        ).len(),
    ensures
        r == coupled_for(old(circuit)@, a as int, b as int, choice as int, e24 as int) is Some,
        coupled_for(old(circuit)@, a as int, b as int, choice as int, e24 as int) matches Some(c2)
            ==> final(circuit)@ == c2,
        !r ==> final(circuit)@ == old(circuit)@,
        r ==> cross_coupled_at(old(circuit)@, final(circuit)@, a as int, b as int),
{
    let ghost c0 = circuit@;
    proof {
        lemma_ids_below_weaken(c0, usize::MAX - 16, usize::MAX as int);
    }
    let ins = coupling_input_list(circuit, a, b);
    if ins.len() == 0 {
        return false;
    }
    assert(circuit.components@[a as int]@ == c0.components[a as int]);
    let out_a = circuit.components[a].nodes[4];
    let in_b = ins[choice];
    let id = next_id(circuit, ComponentType::R);
    let val = E24_VALUES[e24];
    let p = build_part('R', ComponentType::R, id, vec![out_a, in_b], val);
    let ghost pv = p@;
    circuit.add_component(p);
    proof {
        assert(pv.nodes =~= seq![out_a, in_b]);
        assert(circuit@.components.last() == pv);
        assert(cross_coupled_at(c0, circuit@, a as int, b as int));
    }
    true
}

/// Operator 6: couples the output of one op-amp into an input of another
/// through an E24 resistor; with fewer than two op-amps it falls back to
/// operator 5. The second op-amp is drawn uniformly among the others.
pub fn mutate_cross_coupling(circuit: &mut Circuit) -> (r: bool)
    requires
        within_id_limits(old(circuit)@),
    ensures
        r ==> cross_coupling_outcome(old(circuit)@, final(circuit)@),
        !r ==> final(circuit)@ == old(circuit)@,
        cross_coupling_sure(old(circuit)@) ==> r,
        two_opamps(old(circuit)@) && r ==> exists|a: int, b: int|
            #[trigger] cross_coupled_at(old(circuit)@, final(circuit)@, a, b),
        two_opamps(old(circuit)@) && r ==> exists|a: int, b: int, choice: int, e24: int|
            0 <= e24 < 121 && #[trigger] coupled_for(old(circuit)@, a, b, choice, e24) == Some(final(circuit)@),
        !two_opamps(old(circuit)@) && feedback_sure(old(circuit)@) ==> added_feedback_part(
            old(circuit)@,
            final(circuit)@,
        ),
{
    let ghost c0 = circuit@;
    proof {
        lemma_ids_below_weaken(c0, usize::MAX - 16, usize::MAX as int);
    }
    let opamps = shaped_indices(&circuit.components, true);
    if opamps.len() < 2 {
        proof {
            if two_opamps(c0) {
                let (a, b) = choose|a: int, b: int|
                    a != b && #[trigger] is_opamp_at(c0, a) && #[trigger] is_opamp_at(c0, b);
                assert(circuit.components@[a]@ == c0.components[a]);
                assert(circuit.components@[b]@ == c0.components[b]);
                assert(opamps@.contains(a as usize));
                assert(opamps@.contains(b as usize));
                let ia = choose|i: int| 0 <= i < opamps@.len() && opamps@[i] == a as usize;
                let ib = choose|i: int| 0 <= i < opamps@.len() && opamps@[i] == b as usize;
                assert(ia != ib);
            }
        }
        return mutate_add_feedback(circuit);
    }
    let ka = random_index(opamps.len());
    let kb0 = random_index(opamps.len() - 1);
    let kb = if kb0 < ka {
        kb0
    } else {
        kb0 + 1
    };
    let op_a = opamps[ka];
    let op_b = opamps[kb];
    assert(op_a != op_b);
    let n_in = coupling_input_count(circuit, op_a, op_b);
    if n_in == 0 {
        proof {
            assert(is_opamp_at(c0, op_a as int) && is_opamp_at(c0, op_b as int));
            assert(two_opamps(c0));
            assert(!couplable(c0, op_a as int, op_b as int));
        }
        return false;
    }
    let choice = random_index(n_in);
    let e24 = random_index(121);
    let r = cross_couple_at(circuit, op_a, op_b, choice, e24);
    proof {
        assert(is_opamp_at(c0, op_a as int) && is_opamp_at(c0, op_b as int));
        assert(two_opamps(c0));
        if r {
            assert(coupled_for(c0, op_a as int, op_b as int, choice as int, e24 as int) == Some(circuit@));
        }
    }
    r
}


/// `c` with the pins of component `idx` replaced by `ns`.
pub open spec fn with_pins(c: CircuitView, idx: int, ns: Seq<usize>) -> CircuitView {
    CircuitView {
        components: c.components.update(idx, ComponentView { nodes: ns, ..c.components[idx] }),
        ..c
    }
}

/// `c` plus a new two-pin part of type `t` from `a` to `b`, unless `a == b`
/// (such a part is shorted and never built).
pub open spec fn add_unless_shorted(
    c: CircuitView,
    t: ComponentType,
    a: usize,
    b: usize,
    value: Seq<char>,
) -> CircuitView {
    if a != b {
        with_component(
            c,
            ComponentView { comp_type: t, id: next_id_for(c, t) as usize, nodes: seq![a, b], value },
        )
    } else {
        c
    }
}

/// A two-pin resistor at index `k`.
pub open spec fn is_resistor_at(c: CircuitView, k: int) -> bool {
    0 <= k < c.components.len() && c.components[k].comp_type == ComponentType::R
        && c.components[k].nodes.len() == 2
}

/// Some component of `c` is a two-pin resistor.
pub open spec fn has_resistor(c: CircuitView) -> bool {
    exists|k: int| #[trigger] is_resistor_at(c, k)
}

/// Resistor `idx` (from `u` to `v`) cut at a fresh node `mid`: it now runs
/// from `u` to `mid`, and a new resistor of the same value runs from `mid` to `v`.
pub open spec fn split_at(c: CircuitView, c2: CircuitView, idx: int) -> bool {
    let r = c.components[idx];
    let mid = fresh_node(c) as usize;
    let c1 = with_pins(c, idx, seq![r.nodes[0], mid]);
    &&& is_resistor_at(c, idx)
    &&& mid != r.nodes[1]
    &&& c2 == add_unless_shorted(c1, ComponentType::R, mid, r.nodes[1], r.value)
}

/// The split of resistor `idx` stopped half way: its far end `v` is the fresh
/// node itself (an unregistered pin), so the resistor was rewired to `u`-`mid`
/// and the second half, which would be shorted, was not added.
pub open spec fn split_blocked_at(c: CircuitView, c2: CircuitView, idx: int) -> bool {
    let r = c.components[idx];
    let mid = fresh_node(c) as usize;
    &&& is_resistor_at(c, idx)
    &&& mid == r.nodes[1]
    &&& c2 == with_pins(c, idx, seq![r.nodes[0], mid])
}

/// Operator 7 is sure to split: the circuit has a two-pin resistor and no
/// resistor's second pin is the fresh node, so whichever resistor is drawn
/// can be cut.
pub open spec fn split_sure(c: CircuitView) -> bool {
    &&& has_resistor(c)
    &&& forall|k: int| #[trigger] is_resistor_at(c, k) ==> c.components[k].nodes[1] != fresh_node(c)
}

/// Indices of the two-pin resistors, only those with a pin on `node` when it is given.
fn resistor_indices(comps: &Vec<Component>, node: Option<usize>) -> (v: Vec<usize>)
    ensures
        forall|k: int| 0 <= k < v@.len() ==> {
            let j = #[trigger] v@[k] as int;
            &&& 0 <= j < comps.len()
            &&& comps@[j]@.comp_type == ComponentType::R
            &&& comps@[j]@.nodes.len() == 2
            &&& (node matches Some(n) ==> comps@[j]@.nodes[0] == n || comps@[j]@.nodes[1] == n)
        },
        forall|j: int|
            0 <= j < comps.len() && comps@[j]@.comp_type == ComponentType::R && comps@[j]@.nodes.len()
                == 2 && (node matches Some(n) ==> comps@[j]@.nodes[0] == n || comps@[j]@.nodes[1]
                == n) ==> #[trigger] v@.contains(j as usize),
{
    let mut v: Vec<usize> = Vec::new();
    let mut i: usize = 0;
    while i < comps.len()
        invariant
            0 <= i <= comps.len(),
            forall|k: int| 0 <= k < v@.len() ==> {
                let j = #[trigger] v@[k] as int;
                &&& 0 <= j < i
                &&& comps@[j]@.comp_type == ComponentType::R
                &&& comps@[j]@.nodes.len() == 2
                &&& (node matches Some(n) ==> comps@[j]@.nodes[0] == n || comps@[j]@.nodes[1]
                    == n)
            },
            forall|j: int|
                0 <= j < i && comps@[j]@.comp_type == ComponentType::R && comps@[j]@.nodes.len()
                    == 2 && (node matches Some(n) ==> comps@[j]@.nodes[0] == n
                    || comps@[j]@.nodes[1] == n) ==> #[trigger] v@.contains(j as usize),
        decreases comps.len() - i,
    {
        let c = &comps[i];
        let hit = c.comp_type == ComponentType::R && c.nodes.len() == 2 && match node {
            Some(n) => c.nodes[0] == n || c.nodes[1] == n,
            None => true,
        };
        if hit {
            let ghost prev = v@;
            v.push(i);
            assert(v@[v@.len() - 1] == i);
            assert(v@.contains(i));
            assert forall|j: int|
                0 <= j < i + 1 && comps@[j]@.comp_type == ComponentType::R
                    && comps@[j]@.nodes.len() == 2 && (node matches Some(n) ==> comps@[j]@.nodes[0]
                    == n || comps@[j]@.nodes[1] == n) implies #[trigger] v@.contains(
                j as usize,
            ) by {
                if j < i {
                    assert(prev.contains(j as usize));
                    let k = choose|k: int| 0 <= k < prev.len() && prev[k] == j as usize;
                    assert(v@[k] == j as usize);
                }
            }
        }
        i = i + 1;
    }
    v
}

/// Replaces the pins of component `idx`.
fn set_pins(circuit: &mut Circuit, idx: usize, ns: Vec<usize>)
    requires
        idx < old(circuit).components.len(),
    ensures
        final(circuit)@ == with_pins(old(circuit)@, idx as int, ns@),
{
    let mut comp = circuit.components[idx].deep_copy();
    comp.nodes = ns;
    circuit.components.set(idx, comp);
    assert(circuit@.components =~= with_pins(old(circuit)@, idx as int, ns@).components);
}

/// Rewiring pins keeps every id and registered node where it was.
proof fn lemma_with_pins_below(c: CircuitView, idx: int, ns: Seq<usize>, b: int)
    requires
        ids_below(c, b),
        0 <= idx < c.components.len(),
    ensures
        ids_below(with_pins(c, idx, ns), b),
        next_id_for(with_pins(c, idx, ns), ComponentType::R) == next_id_for(c, ComponentType::R),
        next_id_for(with_pins(c, idx, ns), ComponentType::C) == next_id_for(c, ComponentType::C),
{
    let c1 = with_pins(c, idx, ns);
    assert forall|i: int| 0 <= i < c1.components.len() implies (#[trigger] c1.components[i]).id < b by {
        assert(c1.components[i].id == c.components[i].id);
    }
    lemma_max_id_same_ids(c.components, c1.components, ComponentType::R);
    lemma_max_id_same_ids(c.components, c1.components, ComponentType::C);
}

/// Two component lists with the same types and ids have the same largest id.
proof fn lemma_max_id_same_ids(a: Seq<ComponentView>, b: Seq<ComponentView>, t: ComponentType)
    requires
        a.len() == b.len(),
        forall|i: int| 0 <= i < a.len() ==> (#[trigger] a[i]).id == b[i].id && a[i].comp_type
            == b[i].comp_type,
    ensures
        max_id_of(a, t) == max_id_of(b, t),
    decreases a.len(),
{
    if a.len() > 0 {
        assert forall|i: int| 0 <= i < a.drop_last().len() implies (#[trigger] a.drop_last()[i]).id
            == b.drop_last()[i].id && a.drop_last()[i].comp_type == b.drop_last()[i].comp_type by {
            assert(a.drop_last()[i] == a[i]);
            assert(b.drop_last()[i] == b[i]);
        }
        lemma_max_id_same_ids(a.drop_last(), b.drop_last(), t);
        assert(a.last() == a[a.len() - 1]);
    }
}

/// A pin of a part just added is registered, so registering it again changes nothing.
proof fn lemma_pin_registered(c: CircuitView, p: ComponentView, k: int)
    requires
        0 <= k < p.nodes.len(),
    ensures
        insert_node(with_component(c, p).nodes, p.nodes[k]) == with_component(c, p).nodes,
{
    lemma_insert_nodes_contains(c.nodes, p.nodes, p.nodes[k]);
    assert(p.nodes.contains(p.nodes[k]));
}

/// Operator 7 for the drawn resistor `idx`: cut at the fresh node (see
/// `split_at`), or, when its second pin is the fresh node itself, rewired and
/// left at that (see `split_blocked_at`).
pub fn split_resistor_at(circuit: &mut Circuit, idx: usize) -> (r: bool)
    requires
        within_id_limits(old(circuit)@),
        is_resistor_at(old(circuit)@, idx as int),
    ensures
        r == (old(circuit)@.components[idx as int].nodes[1] != fresh_node(old(circuit)@)),
        r ==> split_at(old(circuit)@, final(circuit)@, idx as int),
        !r ==> split_blocked_at(old(circuit)@, final(circuit)@, idx as int),
{
    let ghost c0 = circuit@;
    proof {
        lemma_ids_below_weaken(c0, usize::MAX - 16, usize::MAX as int);
    }
    let u = circuit.components[idx].nodes[0];
    let v = circuit.components[idx].nodes[1];
    let orig_val = circuit.components[idx].value.clone();
    let mid = next_node_id(circuit);
    set_pins(circuit, idx, vec![u, mid]);
    let ghost c1 = circuit@;
    proof {
        assert(seq![u, mid] =~= c1.components[idx as int].nodes);
        lemma_with_pins_below(c0, idx as int, seq![u, mid], usize::MAX as int);
    }
    let id2 = next_id(circuit, ComponentType::R);
    if mid == v {
        assert(split_blocked_at(c0, circuit@, idx as int));
        return false;
    }
    let p = build_part('R', ComponentType::R, id2, vec![mid, v], orig_val.as_str());
    let ghost pv = p@;
    circuit.add_component(p);
    proof {
        assert(pv.nodes =~= seq![mid, v]);
        assert(circuit@ == with_component(c1, pv));
        lemma_pin_registered(c1, pv, 0);
    }
    circuit.register_node(mid);
    proof {
        assert(circuit@ == with_component(c1, pv));
        assert(split_at(c0, circuit@, idx as int));
    }
    true
}

/// Operator 7: cuts a random two-pin resistor in two at a fresh node (see
/// `split_at`); false, with the circuit unchanged, when there is no resistor.
pub fn mutate_split_resistor(circuit: &mut Circuit) -> (r: bool)
    requires
        within_id_limits(old(circuit)@),
    ensures
        r <==> exists|idx: int| #[trigger] split_at(old(circuit)@, final(circuit)@, idx),
        !r ==> final(circuit)@ == old(circuit)@ || exists|idx: int|
            #[trigger] split_blocked_at(old(circuit)@, final(circuit)@, idx),
        !has_resistor(old(circuit)@) ==> !r && final(circuit)@ == old(circuit)@,
        split_sure(old(circuit)@) ==> r,
{
    let ghost c0 = circuit@;
    proof {
        lemma_ids_below_weaken(c0, usize::MAX - 16, usize::MAX as int);
    }
    let rs = resistor_indices(&circuit.components, None);
    if rs.len() == 0 {
        proof {
            if has_resistor(c0) {
                let k = choose|k: int| #[trigger] is_resistor_at(c0, k);
                assert(rs@.contains(k as usize));
            }
        }
        return false;
    }
    let idx = rs[random_index(rs.len())];
    assert(is_resistor_at(c0, idx as int));
    let r = split_resistor_at(circuit, idx);
    proof {
        if !r {
            if exists|j: int| #[trigger] split_at(c0, circuit@, j) {
                let j = choose|j: int| #[trigger] split_at(c0, circuit@, j);
                assert(circuit@.components[idx as int].nodes[1] == fresh_node(c0));
                assert(c0.components[j].nodes[1] != fresh_node(c0));
                if j != idx {
                    assert(circuit@.components.len() == c0.components.len());
                }
                assert(false);
            }
        }
    }
    r
}

/// Resistor `ri` is a two-pin resistor with a pin on the base of transistor `qi`.
pub open spec fn is_base_resistor(c: CircuitView, qi: int, ri: int) -> bool {
    let base = c.components[qi].nodes[1];
    &&& is_bjt_at(c, qi)
    &&& is_resistor_at(c, ri)
    &&& (c.components[ri].nodes[0] == base || c.components[ri].nodes[1] == base)
}

/// The bootstrap bridge built on transistor `qi` through its base resistor
/// `ri`: the resistor's far end `other` is kept and its base end moves to a
/// fresh node `boot`; an isolation resistor `iso` joins `boot` to the base, a
/// capacitor `cap` joins the emitter to `boot`, and `boot` is registered.
pub open spec fn bootstrap_result(
    c: CircuitView,
    qi: int,
    ri: int,
    iso: Seq<char>,
    cap: Seq<char>,
) -> CircuitView {
    let base = c.components[qi].nodes[1];
    let emitter = c.components[qi].nodes[2];
    let rn = c.components[ri].nodes;
    let other = if rn[0] == base {
        rn[1]
    } else {
        rn[0]
    };
    let boot = fresh_node(c) as usize;
    let c1 = with_pins(c, ri, seq![other, boot]);
    let c2 = add_unless_shorted(c1, ComponentType::R, boot, base, iso);
    let c3 = add_unless_shorted(c2, ComponentType::C, emitter, boot, cap);
    CircuitView { nodes: insert_node(c3.nodes, boot), ..c3 }
}

/// Some component of `c` is a three-pin transistor.
pub open spec fn has_bjt(c: CircuitView) -> bool {
    exists|k: int| #[trigger] is_bjt_at(c, k)
}

/// Operator 8's outcome: a bootstrap bridge with an E24 isolation resistor and
/// a 10uF or 1uF capacitor, or, in a circuit without transistors, operator 2's.
pub open spec fn bootstrap_outcome(c: CircuitView, c2: CircuitView) -> bool {
    ||| !has_bjt(c) && added_component_outcome(c, c2)
    ||| exists|qi: int, ri: int, iso: Seq<char>, cap: Seq<char>|
        is_base_resistor(c, qi, ri) && in_table(E24_VALUES@, iso) && (cap == "10uF"@ || cap
            == "1uF"@) && c2 == #[trigger] bootstrap_result(c, qi, ri, iso, cap)
}

/// Operator 8 is sure to bootstrap: the circuit has a three-pin transistor,
/// and every such transistor has a resistor on its base.
pub open spec fn bootstrap_sure(c: CircuitView) -> bool {
    &&& has_bjt(c)
    &&& forall|qi: int| #[trigger] is_bjt_at(c, qi) ==> exists|ri: int| #[trigger] is_base_resistor(c, qi, ri)
}

/// Adds the two-pin part `t` from `a` to `b` with the next free id, unless `a == b`.
fn add_two_pin_unless_shorted(
    circuit: &mut Circuit,
    letter: char,
    t: ComponentType,
    a: usize,
    b: usize,
    value: &str,
    Ghost(bound): Ghost<int>,
)
    requires
        1 <= bound < usize::MAX,
        forall|i: int|
            0 <= i < old(circuit)@.components.len() ==> (#[trigger] old(circuit)@.components[i]).id
                < bound,
        letter_type(ascii_upper(letter)) == Some(t),
        is_two_terminal(t),
    ensures
        final(circuit)@ == add_unless_shorted(old(circuit)@, t, a, b, value@),
        forall|i: int|
            0 <= i < final(circuit)@.components.len() ==> (#[trigger] final(circuit)@.components[i]).id
                < bound + 1,
{
    let ghost c0 = circuit@;
    proof {
        lemma_max_id_bound(c0.components, t, bound as nat);
    }
    let id = next_id(circuit, t);
    if a != b {
        let p = build_part(letter, t, id, vec![a, b], value);
        let ghost pv = p@;
        circuit.add_component(p);
        assert(pv.nodes =~= seq![a, b]);
        assert forall|i: int| 0 <= i < circuit@.components.len() implies (#[trigger] circuit@.components[i]).id < bound + 1 by {
            if i < c0.components.len() {
                assert(circuit@.components[i] == c0.components[i]);
            } else {
                assert(circuit@.components[i] == pv);
            }
        }
    }
}

/// Operator 8 for the drawn transistor `qi`, base resistor `ri`, isolation
/// value `E24_VALUES[iso_index]` and capacitor coin (10uF when `big_cap`, else
/// 1uF); see `bootstrap_result`.
pub fn bootstrap_at(circuit: &mut Circuit, qi: usize, ri: usize, iso_index: usize, big_cap: bool)
    requires
        within_id_limits(old(circuit)@),
        is_base_resistor(old(circuit)@, qi as int, ri as int),
        iso_index < 121,
    ensures
        final(circuit)@ == bootstrap_result(
            old(circuit)@,
            qi as int,
            ri as int,
            E24_VALUES@[iso_index as int]@,
            if big_cap {
                "10uF"@
            } else {
                "1uF"@
            },
        ),
{
    let ghost c0 = circuit@;
    proof {
        lemma_ids_below_weaken(c0, usize::MAX - 16, usize::MAX as int);
    }
    let base = circuit.components[qi].nodes[1];
    let emitter = circuit.components[qi].nodes[2];
    let other = if circuit.components[ri].nodes[0] == base {
        circuit.components[ri].nodes[1]
    } else {
        circuit.components[ri].nodes[0]
    };
    let boot = next_node_id(circuit);
    set_pins(circuit, ri, vec![other, boot]);
    let ghost c1 = circuit@;
    proof {
        lemma_with_pins_below(c0, ri as int, seq![other, boot], usize::MAX - 16);
        lemma_ids_below_weaken(c1, usize::MAX - 16, usize::MAX as int);
    }
    let iso = E24_VALUES[iso_index];
    add_two_pin_unless_shorted(circuit, 'R', ComponentType::R, boot, base, iso, Ghost(usize::MAX - 16));
    let cap = if big_cap {
        "10uF"
    } else {
        "1uF"
    };
    add_two_pin_unless_shorted(circuit, 'C', ComponentType::C, emitter, boot, cap, Ghost(usize::MAX - 15));
    circuit.register_node(boot);
    proof {
        assert(circuit@ == bootstrap_result(c0, qi as int, ri as int, iso@, cap@));
    }
}

/// Operator 8: bootstraps the base bias of a random transistor (see
/// `bootstrap_result`); false, with the circuit unchanged, when the chosen
/// transistor has no base resistor. Without transistors it falls back to
/// operator 2.
pub fn mutate_add_bootstrap(circuit: &mut Circuit) -> (r: bool)
    requires
        within_id_limits(old(circuit)@),
    ensures
        r ==> bootstrap_outcome(old(circuit)@, final(circuit)@),
        !r ==> final(circuit)@ == old(circuit)@,
        bootstrap_sure(old(circuit)@) ==> r,
{
    let ghost c0 = circuit@;
    proof {
        lemma_ids_below_weaken(c0, usize::MAX - 16, usize::MAX as int);
    }
    let bjts = shaped_indices(&circuit.components, false);
    if bjts.len() == 0 {
        proof {
            if has_bjt(c0) {
                let k = choose|k: int| #[trigger] is_bjt_at(c0, k);
                assert(bjts@.contains(k as usize));
            }
        }
        return mutate_add_component(circuit);
    }
    let qi = bjts[random_index(bjts.len())];
    assert(is_bjt_at(c0, qi as int));
    let base = circuit.components[qi].nodes[1];
    let emitter = circuit.components[qi].nodes[2];
    let biased = resistor_indices(&circuit.components, Some(base));
    if biased.len() == 0 {
        proof {
            if bootstrap_sure(c0) {
                let ri = choose|ri: int| #[trigger] is_base_resistor(c0, qi as int, ri);
                assert(circuit.components@[ri]@ == c0.components[ri]);
                assert(biased@.contains(ri as usize));
            }
        }
        return false;
    }
    let ri = biased[random_index(biased.len())];
    assert(is_base_resistor(c0, qi as int, ri as int));
    let iso_index = random_index(121);
    let big_cap = random_bool();
    bootstrap_at(circuit, qi, ri, iso_index, big_cap);
    true
}

} // verus!
