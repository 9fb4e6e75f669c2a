//! Topological validation of a circuit: shorted parts, essential pins,
//! floating nodes and conductive paths to the grounded anchors.

use vstd::prelude::*;
use crate::circuit::{
    component_label, component_label_string, is_shorted_two_pin, Circuit, CircuitError, Component, ComponentView, NODE_GND,
    NODE_IN, NODE_OUT, NODE_VCC, NODE_VEE,
};

verus! {

/// `n` is attached to at least one pin of some component.
pub open spec fn is_pin(cs: Seq<ComponentView>, n: usize) -> bool {
    exists|i: int| 0 <= i < cs.len() && #[trigger] cs[i].nodes.contains(n)
}

/// Number of occurrences of `n` in `s`.
pub open spec fn count_in(s: Seq<usize>, n: usize) -> nat
    decreases s.len(),
{
    if s.len() == 0 {
        0
    } else {
        count_in(s.drop_last(), n) + if s.last() == n {
            1nat
        } else {
            0nat
        }
    }
}

/// Number of component pins attached to `n`.
pub open spec fn pin_count(cs: Seq<ComponentView>, n: usize) -> nat
    decreases cs.len(),
{
    if cs.len() == 0 {
        0
    } else {
        pin_count(cs.drop_last(), n) + count_in(cs.last().nodes, n)
    }
}

/// Every pin of every component, component by component.
pub open spec fn all_pins(cs: Seq<ComponentView>) -> Seq<usize>
    decreases cs.len(),
{
    if cs.len() == 0 {
        Seq::empty()
    } else {
        all_pins(cs.drop_last()) + cs.last().nodes
    }
}

/// GND, IN, OUT, VCC and VEE: nodes wired to the outside world.
pub open spec fn is_fixed_node(n: usize) -> bool {
    n == NODE_GND || n == NODE_IN || n == NODE_OUT || n == NODE_VCC || n == NODE_VEE
}

/// Nodes driven by a source referenced to ground in every netlist (GND, IN, VCC, VEE).
pub open spec fn is_anchor_node(n: usize) -> bool {
    n == NODE_GND || n == NODE_IN || n == NODE_VCC || n == NODE_VEE
}

/// An internal node attached to fewer than two pins.
pub open spec fn is_floating(cs: Seq<ComponentView>, n: usize) -> bool {
    is_pin(cs, n) && !is_fixed_node(n) && pin_count(cs, n) < 2
}

/// Some component has pins on both `u` and `v`.
pub open spec fn adjacent(cs: Seq<ComponentView>, u: usize, v: usize) -> bool {
    exists|i: int| 0 <= i < cs.len() && #[trigger] cs[i].nodes.contains(u) && cs[i].nodes.contains(v)
}

/// A walk through components that starts at an anchor attached to some pin.
pub open spec fn is_ground_path(cs: Seq<ComponentView>, p: Seq<usize>) -> bool {
    &&& p.len() > 0
    &&& is_anchor_node(p[0])
    &&& is_pin(cs, p[0])
    &&& forall|j: int| 0 <= j < p.len() - 1 ==> #[trigger] adjacent(cs, p[j], p[j + 1])
}

/// `n` has a conductive path back to an anchor.
pub open spec fn grounded(cs: Seq<ComponentView>, n: usize) -> bool {
    exists|p: Seq<usize>| #[trigger] is_ground_path(cs, p) && p.last() == n
}

/// `i` is the first shorted two-pin component.
pub open spec fn first_shorted(cs: Seq<ComponentView>, i: int) -> bool {
    &&& 0 <= i < cs.len()
    &&& is_shorted_two_pin(cs[i])
    &&& forall|j: int| 0 <= j < i ==> !is_shorted_two_pin(#[trigger] cs[j])
}

/// The topology rules: non-empty, no shorted two-pin part, IN and OUT wired,
/// no floating internal node, and every pin node grounded.
pub open spec fn is_valid_topology(cs: Seq<ComponentView>) -> bool {
    &&& cs.len() > 0
    &&& forall|i: int| 0 <= i < cs.len() ==> !is_shorted_two_pin(#[trigger] cs[i])
    &&& is_pin(cs, NODE_IN)
    &&& is_pin(cs, NODE_OUT)
    &&& forall|n: usize| !is_floating(cs, n)
    &&& forall|n: usize| is_pin(cs, n) ==> grounded(cs, n)
}

/// The result `Circuit::validate` gives for components `cs`: the checks run in
/// order and the first one that fails names the error. Which floating or
/// ungrounded node is reported, when there are several, is not fixed.
pub open spec fn validation_outcome(cs: Seq<ComponentView>, r: Result<(), CircuitError>) -> bool {
    if cs.len() == 0 {
        r == Err::<(), CircuitError>(CircuitError::EmptyCircuit)
    } else if exists|i: int| 0 <= i < cs.len() && is_shorted_two_pin(#[trigger] cs[i]) {
        exists|i: int|
            first_shorted(cs, i) && (r matches Err(CircuitError::ShortedComponent { comp, node })
                && comp@ == component_label(cs[i].comp_type, cs[i].id) && node == cs[i].nodes[0])
    } else if !is_pin(cs, NODE_IN) {
        r matches Err(CircuitError::DisconnectedEssentialNode(s)) && s@ == "IN (node 1)"@
    } else if !is_pin(cs, NODE_OUT) {
        r matches Err(CircuitError::DisconnectedEssentialNode(s)) && s@ == "OUT (node 2)"@
    } else if exists|n: usize| is_floating(cs, n) {
        r matches Err(CircuitError::FloatingNode(n)) && is_floating(cs, n)
    } else if exists|n: usize| is_pin(cs, n) && !grounded(cs, n) {
        r matches Err(CircuitError::NoPathToGround(n)) && is_pin(cs, n) && !grounded(cs, n)
    } else {
        r is Ok
    }
}

proof fn lemma_count_in_take(s: Seq<usize>, n: usize, k: int)
    requires
        0 <= k < s.len(),
    ensures
        count_in(s.take(k + 1), n) == count_in(s.take(k), n) + if s[k] == n {
            1nat
        } else {
            0nat
        },
{
    assert(s.take(k + 1).drop_last() =~= s.take(k));
}

proof fn lemma_pin_count_take(cs: Seq<ComponentView>, n: usize, i: int)
    requires
        0 <= i < cs.len(),
    ensures
        pin_count(cs.take(i + 1), n) == pin_count(cs.take(i), n) + count_in(cs[i].nodes, n),
{
    assert(cs.take(i + 1).drop_last() =~= cs.take(i));
}

proof fn lemma_all_pins_contains(cs: Seq<ComponentView>, i: int, n: usize)
    requires
        0 <= i < cs.len(),
        cs[i].nodes.contains(n),
    ensures
        all_pins(cs).contains(n),
    decreases cs.len(),
{
    if i == cs.len() - 1 {
        let k = choose|k: int| 0 <= k < cs[i].nodes.len() && cs[i].nodes[k] == n;
        let a = all_pins(cs.drop_last());
        assert((a + cs.last().nodes)[a.len() + k] == n);
    } else {
        lemma_all_pins_contains(cs.drop_last(), i, n);
        let a = all_pins(cs.drop_last());
        let k = choose|k: int| 0 <= k < a.len() && a[k] == n;
        assert((a + cs.last().nodes)[k] == n);
    }
}

/// A duplicate-free list of pins is no longer than the list of all pins.
proof fn lemma_distinct_pins_bounded(cs: Seq<ComponentView>, q: Seq<usize>)
    requires
        q.no_duplicates(),
        forall|j: int| 0 <= j < q.len() ==> is_pin(cs, #[trigger] q[j]),
    ensures
        q.len() <= all_pins(cs).len(),
{
    let a = all_pins(cs);
    assert forall|x: usize| q.to_set().contains(x) implies a.to_set().contains(x) by {
        let j = choose|j: int| 0 <= j < q.len() && q[j] == x;
        assert(is_pin(cs, q[j]));
        let i = choose|i: int| 0 <= i < cs.len() && #[trigger] cs[i].nodes.contains(x);
        lemma_all_pins_contains(cs, i, x);
    }
    q.unique_seq_to_set();
    a.lemma_cardinality_of_set();
    vstd::seq_lib::seq_to_set_is_finite(a);
    vstd::set_lib::lemma_len_subset(q.to_set(), a.to_set());
}

/// Every node on a ground path lies in a set that holds the pinned anchors and
/// is closed under adjacency.
proof fn lemma_path_stays_in_closed_set(cs: Seq<ComponentView>, q: Seq<usize>, p: Seq<usize>, j: int)
    requires
        is_ground_path(cs, p),
        0 <= j < p.len(),
        forall|n: usize| is_anchor_node(n) && is_pin(cs, n) ==> q.contains(n),
        forall|x: usize, i: int, m: usize|
            q.contains(x) && 0 <= i < cs.len() && #[trigger] cs[i].nodes.contains(x)
                && #[trigger] cs[i].nodes.contains(m) ==> q.contains(m),
    ensures
        q.contains(p[j]),
    decreases j,
{
    if j > 0 {
        lemma_path_stays_in_closed_set(cs, q, p, j - 1);
        let k = j - 1;
        assert(adjacent(cs, p[k], p[k + 1]));
        let i = choose|i: int|
            0 <= i < cs.len() && #[trigger] cs[i].nodes.contains(p[j - 1]) && cs[i].nodes.contains(
                p[j],
            );
    }
}

/// Extending a ground path by an adjacent node.
proof fn lemma_extend_path(cs: Seq<ComponentView>, u: usize, v: usize, i: int)
    requires
        grounded(cs, u),
        0 <= i < cs.len(),
        cs[i].nodes.contains(u),
        cs[i].nodes.contains(v),
    ensures
        grounded(cs, v),
{
    let p = choose|p: Seq<usize>| #[trigger] is_ground_path(cs, p) && p.last() == u;
    let p2 = p.push(v);
    assert(adjacent(cs, u, v));
    assert forall|j: int| 0 <= j < p2.len() - 1 implies #[trigger] adjacent(cs, p2[j], p2[j + 1]) by {
        if j < p.len() - 1 {
            assert(p2[j] == p[j] && p2[j + 1] == p[j + 1]);
        } else {
            assert(p2[j] == u && p2[j + 1] == v);
        }
    }
    assert(is_ground_path(cs, p2));
}

/// An anchor attached to a pin is grounded by the one-node path.
proof fn lemma_anchor_grounded(cs: Seq<ComponentView>, n: usize)
    requires
        is_anchor_node(n),
        is_pin(cs, n),
    ensures
        grounded(cs, n),
{
    let p = seq![n];
    assert(is_ground_path(cs, p));
}

/// Does any component have a pin on `n`?
fn any_pin_on(comps: &Vec<Component>, n: usize) -> (b: bool)
    ensures
        b == is_pin(comps@.map_values(|c: Component| c@), n),
{
    let ghost cs = comps@.map_values(|c: Component| c@);
    let mut i: usize = 0;
    while i < comps.len()
        invariant
            cs == comps@.map_values(|c: Component| c@),
            0 <= i <= comps.len(),
            forall|j: int| 0 <= j < i ==> !(#[trigger] cs[j]).nodes.contains(n),
        decreases comps.len() - i,
    {
        if vec_contains(&comps[i].nodes, n) {
            assert(cs[i as int].nodes.contains(n));
            return true;
        }
        i = i + 1;
    }
    false
}

/// Membership in a vector of node ids.
pub fn vec_contains(v: &Vec<usize>, x: usize) -> (b: bool)
    ensures
        b == v@.contains(x),
{
    let mut i: usize = 0;
    while i < v.len()
        invariant
            0 <= i <= v.len(),
            forall|j: int| 0 <= j < i ==> v@[j] != x,
        decreases v.len() - i,
    {
        if v[i] == x {
            return true;
        }
        i = i + 1;
    }
    false
}

/// Is `n` attached to at least two pins?
fn at_least_two_pins(comps: &Vec<Component>, n: usize) -> (b: bool)
    ensures
        b == (pin_count(comps@.map_values(|c: Component| c@), n) >= 2),
{
    let ghost cs = comps@.map_values(|c: Component| c@);
    let mut cnt: usize = 0;
    let mut i: usize = 0;
    while i < comps.len()
        invariant
            cs == comps@.map_values(|c: Component| c@),
            0 <= i <= comps.len(),
            cnt < 2,
            cnt == pin_count(cs.take(i as int), n),
        decreases comps.len() - i,
    {
        let nodes = &comps[i].nodes;
        let mut k: usize = 0;
        let ghost base = cnt as nat;
        while k < nodes.len()
            invariant
                cs == comps@.map_values(|c: Component| c@),
                0 <= i < comps.len(),
                nodes@ == cs[i as int].nodes,
                0 <= k <= nodes.len(),
                cnt < 2,
                base == pin_count(cs.take(i as int), n),
                cnt == base + count_in(nodes@.take(k as int), n),
            decreases nodes.len() - k,
        {
            proof {
                lemma_count_in_take(nodes@, n, k as int);
            }
            if nodes[k] == n {
                if cnt == 1 {
                    proof {
                        lemma_pin_count_take(cs, n, i as int);
                        assert(count_in(nodes@, n) >= count_in(nodes@.take(k + 1), n)) by {
                            lemma_count_in_prefix_le(nodes@, n, k + 1);
                        }
                        lemma_pin_count_prefix_le(cs, n, i + 1);
                    }
                    return true;
                }
                cnt = cnt + 1;
            }
            k = k + 1;
        }
        proof {
            assert(nodes@.take(nodes@.len() as int) =~= nodes@);
            lemma_pin_count_take(cs, n, i as int);
        }
        i = i + 1;
    }
    assert(cs.take(comps.len() as int) =~= cs);
    false
}

proof fn lemma_count_in_prefix_le(s: Seq<usize>, n: usize, k: int)
    requires
        0 <= k <= s.len(),
    ensures
        count_in(s.take(k), n) <= count_in(s, n),
    decreases s.len() - k,
{
    if k < s.len() {
        lemma_count_in_take(s, n, k);
        lemma_count_in_prefix_le(s, n, k + 1);
    } else {
        assert(s.take(k) =~= s);
    }
}

proof fn lemma_pin_count_prefix_le(cs: Seq<ComponentView>, n: usize, i: int)
    requires
        0 <= i <= cs.len(),
    ensures
        pin_count(cs.take(i), n) <= pin_count(cs, n),
    decreases cs.len() - i,
{
    if i < cs.len() {
        lemma_pin_count_take(cs, n, i);
        lemma_pin_count_prefix_le(cs, n, i + 1);
    } else {
        assert(cs.take(i) =~= cs);
    }
}


/// Nodes reachable from the pinned anchors (GND, IN, VCC, VEE), by breadth-first
/// search over components: the result holds exactly the grounded nodes, each once.
fn grounded_nodes(comps: &Vec<Component>) -> (q: Vec<usize>)
    ensures
        forall|n: usize|
            q@.contains(n) <==> grounded(comps@.map_values(|c: Component| c@), n),
{
    let ghost cs = comps@.map_values(|c: Component| c@);
    let mut queue: Vec<usize> = Vec::new();
    let anchors: [usize; 4] = [NODE_GND, NODE_IN, NODE_VCC, NODE_VEE];
    let mut a: usize = 0;
    while a < 4
        invariant
            cs == comps@.map_values(|c: Component| c@),
            0 <= a <= 4,
            anchors@ == seq![NODE_GND, NODE_IN, NODE_VCC, NODE_VEE],
            queue@.no_duplicates(),
            forall|j: int| 0 <= j < queue@.len() ==> is_pin(cs, #[trigger] queue@[j]),
            forall|j: int| 0 <= j < queue@.len() ==> grounded(cs, #[trigger] queue@[j]),
            forall|j: int| 0 <= j < queue@.len() ==> #[trigger] anchors@.take(a as int).contains(queue@[j]),
            forall|j: int| 0 <= j < a ==> is_pin(cs, #[trigger] anchors@[j]) ==> queue@.contains(anchors@[j]),
        decreases 4 - a,
    {
        let n = anchors[a];
        if any_pin_on(comps, n) {
            proof {
                lemma_anchor_grounded(cs, n);
                assert(!queue@.contains(n)) by {
                    if queue@.contains(n) {
                        let j = choose|j: int| 0 <= j < queue@.len() && queue@[j] == n;
                        assert(anchors@.take(a as int).contains(queue@[j]));
                    }
                }
            }
            let ghost old_q = queue@;
            queue.push(n);
            proof {
                assert forall|x: usize| old_q.contains(x) implies queue@.contains(x) by {
                    let t = choose|t: int| 0 <= t < old_q.len() && old_q[t] == x;
                    assert(queue@[t] == x);
                }
                assert forall|j: int| 0 <= j < queue@.len() implies #[trigger] anchors@.take(a + 1).contains(queue@[j]) by {
                    if j < queue@.len() - 1 {
                        assert(anchors@.take(a as int).contains(queue@[j]));
                        let t = choose|t: int| 0 <= t < a && anchors@.take(a as int)[t] == queue@[j];
                        assert(anchors@.take(a + 1)[t] == queue@[j]);
                    } else {
                        assert(anchors@.take(a + 1)[a as int] == n);
                    }
                }
                assert forall|j: int| 0 <= j < a + 1 && is_pin(cs, #[trigger] anchors@[j]) implies queue@.contains(anchors@[j]) by {
                    if j < a && is_pin(cs, anchors@[j]) {
                        assert(old_q.contains(anchors@[j]));
                    } else if j == a {
                        assert(queue@[queue@.len() - 1] == n);
                    }
                }
            }
        } else {
            proof {
                assert forall|j: int| 0 <= j < queue@.len() implies #[trigger] anchors@.take(a + 1).contains(queue@[j]) by {
                    assert(anchors@.take(a as int).contains(queue@[j]));
                    let t = choose|t: int| 0 <= t < a && anchors@.take(a as int)[t] == queue@[j];
                    assert(anchors@.take(a + 1)[t] == queue@[j]);
                }
            }
        }
        a = a + 1;
    }
    proof {
        assert forall|n: usize| is_anchor_node(n) && is_pin(cs, n) implies queue@.contains(n) by {
            if n == NODE_GND { assert(anchors@[0] == n); }
            else if n == NODE_IN { assert(anchors@[1] == n); }
            else if n == NODE_VCC { assert(anchors@[2] == n); }
            else { assert(anchors@[3] == n); }
        }
        lemma_distinct_pins_bounded(cs, queue@);
    }
    let mut head: usize = 0;
    while head < queue.len()
        invariant
            cs == comps@.map_values(|c: Component| c@),
            0 <= head <= queue@.len() <= all_pins(cs).len(),
            queue@.no_duplicates(),
            forall|j: int| 0 <= j < queue@.len() ==> is_pin(cs, #[trigger] queue@[j]),
            forall|j: int| 0 <= j < queue@.len() ==> grounded(cs, #[trigger] queue@[j]),
            forall|n: usize| is_anchor_node(n) && is_pin(cs, n) ==> queue@.contains(n),
            forall|j: int, i: int, m: usize|
                0 <= j < head && 0 <= i < cs.len() && #[trigger] cs[i].nodes.contains(queue@[j])
                    && #[trigger] cs[i].nodes.contains(m) ==> queue@.contains(m),
        decreases all_pins(cs).len() - head,
    {
        let curr = queue[head];
        let mut i: usize = 0;
        while i < comps.len()
            invariant
                cs == comps@.map_values(|c: Component| c@),
                0 <= head < queue@.len() <= all_pins(cs).len(),
                curr == queue@[head as int],
                0 <= i <= comps.len(),
                queue@.no_duplicates(),
                forall|j: int| 0 <= j < queue@.len() ==> is_pin(cs, #[trigger] queue@[j]),
                forall|j: int| 0 <= j < queue@.len() ==> grounded(cs, #[trigger] queue@[j]),
                forall|n: usize| is_anchor_node(n) && is_pin(cs, n) ==> queue@.contains(n),
                forall|j: int, i2: int, m: usize|
                    0 <= j < head && 0 <= i2 < cs.len() && #[trigger] cs[i2].nodes.contains(queue@[j])
                        && #[trigger] cs[i2].nodes.contains(m) ==> queue@.contains(m),
                forall|i2: int, m: usize|
                    0 <= i2 < i && #[trigger] cs[i2].nodes.contains(curr)
                        && #[trigger] cs[i2].nodes.contains(m) ==> queue@.contains(m),
            decreases comps.len() - i,
        {
            let nodes = &comps[i].nodes;
            if vec_contains(nodes, curr) {
                let mut k: usize = 0;
                while k < nodes.len()
                    invariant
                        cs == comps@.map_values(|c: Component| c@),
                        0 <= head < queue@.len() <= all_pins(cs).len(),
                        curr == queue@[head as int],
                        0 <= i < comps.len(),
                        nodes@ == cs[i as int].nodes,
                        nodes@.contains(curr),
                        0 <= k <= nodes.len(),
                        queue@.no_duplicates(),
                        forall|j: int| 0 <= j < queue@.len() ==> is_pin(cs, #[trigger] queue@[j]),
                        forall|j: int| 0 <= j < queue@.len() ==> grounded(cs, #[trigger] queue@[j]),
                        forall|n: usize| is_anchor_node(n) && is_pin(cs, n) ==> queue@.contains(n),
                        forall|j: int, i2: int, m: usize|
                            0 <= j < head && 0 <= i2 < cs.len() && #[trigger] cs[i2].nodes.contains(queue@[j])
                                && #[trigger] cs[i2].nodes.contains(m) ==> queue@.contains(m),
                        forall|i2: int, m: usize|
                            0 <= i2 < i && #[trigger] cs[i2].nodes.contains(curr)
                                && #[trigger] cs[i2].nodes.contains(m) ==> queue@.contains(m),
                        forall|t: int| 0 <= t < k ==> queue@.contains(#[trigger] nodes@[t]),
                    decreases nodes.len() - k,
                {
                    let v = nodes[k];
                    if !vec_contains(&queue, v) {
                        let ghost old_q = queue@;
                        proof {
                            assert(nodes@.contains(v));
                            assert(grounded(cs, queue@[head as int]));
                            lemma_extend_path(cs, curr, v, i as int);
                            assert(is_pin(cs, v)) by {
                                assert(cs[i as int].nodes.contains(v));
                            }
                        }
                        queue.push(v);
                        proof {
                            assert forall|j: int| 0 <= j < queue@.len() implies is_pin(cs, #[trigger] queue@[j]) by {
                                if j < old_q.len() { assert(queue@[j] == old_q[j]); }
                            }
                            assert forall|j: int| 0 <= j < queue@.len() implies grounded(cs, #[trigger] queue@[j]) by {
                                if j < old_q.len() { assert(queue@[j] == old_q[j]); }
                            }
                            assert forall|x: usize| old_q.contains(x) implies queue@.contains(x) by {
                                let t = choose|t: int| 0 <= t < old_q.len() && old_q[t] == x;
                                assert(queue@[t] == x);
                            }
                            assert(queue@[old_q.len() as int] == v);
                            lemma_distinct_pins_bounded(cs, queue@);
                        }
                    }
                    k = k + 1;
                }
                proof {
                    assert forall|m: usize| #[trigger] cs[i as int].nodes.contains(m) implies queue@.contains(m) by {
                        let t = choose|t: int| 0 <= t < nodes@.len() && nodes@[t] == m;
                        assert(queue@.contains(nodes@[t]));
                    }
                }
            }
            i = i + 1;
        }
        head = head + 1;
    }
    proof {
        assert forall|x: usize, i: int, m: usize|
            queue@.contains(x) && 0 <= i < cs.len() && #[trigger] cs[i].nodes.contains(x)
                && #[trigger] cs[i].nodes.contains(m) implies queue@.contains(m) by {
            let j = choose|j: int| 0 <= j < queue@.len() && queue@[j] == x;
            assert(cs[i].nodes.contains(queue@[j]));
        }
        assert forall|n: usize| queue@.contains(n) <==> grounded(cs, n) by {
            if queue@.contains(n) {
                let j = choose|j: int| 0 <= j < queue@.len() && queue@[j] == n;
                assert(grounded(cs, queue@[j]));
            }
            if grounded(cs, n) {
                let p = choose|p: Seq<usize>| #[trigger] is_ground_path(cs, p) && p.last() == n;
                lemma_path_stays_in_closed_set(cs, queue@, p, p.len() - 1);
            }
        }
    }
    queue
}


/// The outcome of validation is `Ok` exactly on valid topologies.
pub proof fn lemma_validation_ok_iff_valid(cs: Seq<ComponentView>, r: Result<(), CircuitError>)
    requires
        validation_outcome(cs, r),
    ensures
        r is Ok <==> is_valid_topology(cs),
{
}

impl Circuit {
    /// Validates the circuit topology, in this order: the circuit has a
    /// component; no two-pin component has both terminals on one node; IN and
    /// OUT are wired; every internal node (not GND, IN, OUT, VCC, VEE) has at
    /// least two pins; every pin node has a conductive path to GND, IN, VCC or
    /// VEE (nodes that the netlists drive from ground-referenced sources).
    pub fn validate(&self) -> (r: Result<(), CircuitError>)
        ensures
            validation_outcome(self@.components, r),
            r is Ok <==> is_valid_topology(self@.components),
    {
        let ghost cs = self@.components;
        let n = self.components.len();
        if n == 0 {
            return Err(CircuitError::EmptyCircuit);
        }
        let mut i: usize = 0;
        while i < n
            invariant
                cs == self@.components,
                n == self.components.len(),
                0 <= i <= n,
                forall|j: int| 0 <= j < i ==> !is_shorted_two_pin(#[trigger] cs[j]),
            decreases n - i,
        {
            let c = &self.components[i];
            if c.nodes.len() == 2 && c.nodes[0] == c.nodes[1] {
                proof {
                    assert(first_shorted(cs, i as int));
                }
                let comp = component_label_string(c.comp_type, c.id);
                return Err(CircuitError::ShortedComponent { comp, node: c.nodes[0] });
            }
            i = i + 1;
        }
        if !any_pin_on(&self.components, NODE_IN) {
            return Err(CircuitError::DisconnectedEssentialNode("IN (node 1)".to_owned()));
        }
        if !any_pin_on(&self.components, NODE_OUT) {
            return Err(CircuitError::DisconnectedEssentialNode("OUT (node 2)".to_owned()));
        }
        let mut i: usize = 0;
        while i < n
            invariant
                cs == self@.components,
                n == self.components.len(),
                n > 0,
                forall|j: int| 0 <= j < n ==> !is_shorted_two_pin(#[trigger] cs[j]),
                is_pin(cs, NODE_IN),
                is_pin(cs, NODE_OUT),
                0 <= i <= n,
                forall|j: int, m: usize|
                    0 <= j < i && #[trigger] cs[j].nodes.contains(m) ==> !is_floating(cs, m),
            decreases n - i,
        {
            let nodes = &self.components[i].nodes;
            let mut k: usize = 0;
            while k < nodes.len()
                invariant
                    cs == self@.components,
                    n == self.components.len(),
                    n > 0,
                    forall|j: int| 0 <= j < n ==> !is_shorted_two_pin(#[trigger] cs[j]),
                    is_pin(cs, NODE_IN),
                    is_pin(cs, NODE_OUT),
                    0 <= i < n,
                    nodes@ == cs[i as int].nodes,
                    0 <= k <= nodes.len(),
                    forall|j: int, m: usize|
                        0 <= j < i && #[trigger] cs[j].nodes.contains(m) ==> !is_floating(cs, m),
                    forall|t: int| 0 <= t < k ==> !is_floating(cs, #[trigger] nodes@[t]),
                decreases nodes.len() - k,
            {
                let node = nodes[k];
                if node != NODE_GND && node != NODE_IN && node != NODE_OUT && node != NODE_VCC
                    && node != NODE_VEE && !at_least_two_pins(&self.components, node) {
                    proof {
                        assert(cs[i as int].nodes.contains(node));
                        assert(is_floating(cs, node));
                    }
                    return Err(CircuitError::FloatingNode(node));
                }
                k = k + 1;
            }
            proof {
                assert forall|m: usize| #[trigger] cs[i as int].nodes.contains(m) implies !is_floating(cs, m) by {
                    let t = choose|t: int| 0 <= t < nodes@.len() && nodes@[t] == m;
                    assert(!is_floating(cs, nodes@[t]));
                }
            }
            i = i + 1;
        }
        proof {
            assert forall|m: usize| !is_floating(cs, m) by {
                if is_pin(cs, m) {
                    let j = choose|j: int| 0 <= j < cs.len() && #[trigger] cs[j].nodes.contains(m);
                }
            }
        }
        let q = grounded_nodes(&self.components);
        let mut i: usize = 0;
        while i < n
            invariant
                cs == self@.components,
                n == self.components.len(),
                n > 0,
                forall|j: int| 0 <= j < n ==> !is_shorted_two_pin(#[trigger] cs[j]),
                is_pin(cs, NODE_IN),
                is_pin(cs, NODE_OUT),
                0 <= i <= n,
                forall|m: usize| q@.contains(m) <==> grounded(cs, m),
                forall|m: usize| !is_floating(cs, m),
                forall|j: int, m: usize|
                    0 <= j < i && #[trigger] cs[j].nodes.contains(m) ==> grounded(cs, m),
            decreases n - i,
        {
            let nodes = &self.components[i].nodes;
            let mut k: usize = 0;
            while k < nodes.len()
                invariant
                    cs == self@.components,
                    n == self.components.len(),
                    n > 0,
                    forall|j: int| 0 <= j < n ==> !is_shorted_two_pin(#[trigger] cs[j]),
                    is_pin(cs, NODE_IN),
                    is_pin(cs, NODE_OUT),
                    0 <= i < n,
                    nodes@ == cs[i as int].nodes,
                    0 <= k <= nodes.len(),
                    forall|m: usize| q@.contains(m) <==> grounded(cs, m),
                    forall|m: usize| !is_floating(cs, m),
                    forall|j: int, m: usize|
                        0 <= j < i && #[trigger] cs[j].nodes.contains(m) ==> grounded(cs, m),
                    forall|t: int| 0 <= t < k ==> grounded(cs, #[trigger] nodes@[t]),
                decreases nodes.len() - k,
            {
                let node = nodes[k];
                if !vec_contains(&q, node) {
                    proof {
                        assert(cs[i as int].nodes.contains(node));
                        assert(is_pin(cs, node));
                    }
                    return Err(CircuitError::NoPathToGround(node));
                }
                k = k + 1;
            }
            proof {
                assert forall|m: usize| #[trigger] cs[i as int].nodes.contains(m) implies grounded(cs, m) by {
                    let t = choose|t: int| 0 <= t < nodes@.len() && nodes@[t] == m;
                    assert(grounded(cs, nodes@[t]));
                }
            }
            i = i + 1;
        }
        proof {
            assert forall|m: usize| is_pin(cs, m) implies grounded(cs, m) by {
                let j = choose|j: int| 0 <= j < cs.len() && #[trigger] cs[j].nodes.contains(m);
            }
        }
        Ok(())
    }
}

} // verus!
