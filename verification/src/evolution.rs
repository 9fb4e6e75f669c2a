//! The mutation engine: operator selection with bloat control, telemetry of
//! operator use, and the discrete seed population.

use vstd::prelude::*;
use crate::circuit::{
    fixed_nodes, Circuit, CircuitView, ComponentType, ComponentView, NODE_IN, NODE_OUT, NODE_VCC,
    NODE_VEE,
};
use crate::mutate::{
    added_component_outcome, bootstrap_outcome, build_part, changed_value_outcome,
    cross_coupling_outcome, feedback_outcome, ids_below, lemma_ids_below_weaken,
    lemma_with_component_below, moved_terminal_outcome, mutate_add_bootstrap,
    mutate_add_component, mutate_add_feedback, mutate_change_value, mutate_cross_coupling,
    mutate_move_terminal, mutate_remove_component, mutate_split_resistor, removed_outcome,
    split_at, with_component, within_id_limits, bootstrap_sure, cross_coupling_sure, feedback_sure,
    is_removable, split_blocked_at, split_sure, add_outcome, AddDraws, move_outcome, is_movable,
    has_movable,
};
use crate::rng::{lemma_rolls_band, random_below, rolls_where, PERCENT_ROLLS, TENTH_ROLLS};
use crate::validate::is_valid_topology;

verus! {

/// Counts of mutation calls and of each operator's attempts and successes.
/// Operators are numbered 0 (change value), 1 (add component), 2 (remove
/// component), 3 (move terminal), 4 (add feedback), 5 (cross coupling),
/// 6 (split resistor) and 7 (add bootstrap).
#[derive(Debug, Clone, PartialEq)]
pub struct MutationStats {
    pub total_calls: usize,
    pub successful_mutations: usize,
    pub fallbacks: usize,
    pub op_attempts: [usize; 8],
    pub op_successes: [usize; 8],
}

impl MutationStats {
    /// All counters at zero.
    pub fn new() -> (s: Self)
        ensures
            stats_balanced(s),
            s.total_calls == 0,
            s.successful_mutations == 0,
            s.fallbacks == 0,
            forall|k: int| 0 <= k < 8 ==> s.op_attempts[k] == 0 && s.op_successes[k] == 0,
    {
        MutationStats {
            total_calls: 0,
            successful_mutations: 0,
            fallbacks: 0,
            op_attempts: [0, 0, 0, 0, 0, 0, 0, 0],
            op_successes: [0, 0, 0, 0, 0, 0, 0, 0],
        }
    }
}

impl Default for MutationStats {
    fn default() -> (s: Self)
        ensures
            s.total_calls == 0,
            s.successful_mutations == 0,
            s.fallbacks == 0,
            forall|k: int| 0 <= k < 8 ==> s.op_attempts[k] == 0 && s.op_successes[k] == 0,
    {
        MutationStats::new()
    }
}

/// Sum of the eight per-operator counters.
pub open spec fn total8(a: [usize; 8]) -> int {
    a[0] + a[1] + a[2] + a[3] + a[4] + a[5] + a[6] + a[7]
}

/// Every counter can take the increments of one `mutate_with_stats` call.
pub open spec fn counters_have_room(s: MutationStats) -> bool {
    &&& s.total_calls < usize::MAX
    &&& s.successful_mutations < usize::MAX
    &&& s.fallbacks < usize::MAX
    &&& forall|k: int| 0 <= k < 8 ==> s.op_attempts[k] <= usize::MAX - 10
    &&& forall|k: int| 0 <= k < 8 ==> s.op_successes[k] <= usize::MAX - 10
}

/// The operator a roll selects for a circuit of `n` components. At 16 or more
/// components: remove 50%, change value 40%, move terminal 10%. At 13 to 15:
/// remove 50%, change value 30%, move terminal 10%, add 10%. At 4 or fewer:
/// change value 25%, add 25%, split resistor 20%, move terminal 15%, feedback
/// 10%, bootstrap 5%. Otherwise: change value 26%, add 20%, remove 15%, move
/// terminal 10%, feedback 10%, split resistor 12%, bootstrap 5%, cross coupling 2%.
pub open spec fn operator_for(n: int, roll: u8) -> u8 {
    if n >= 16 {
        if roll <= 4 {
            2
        } else if roll <= 8 {
            0
        } else {
            3
        }
    } else if n >= 13 {
        if roll <= 4 {
            2
        } else if roll <= 7 {
            0
        } else if roll == 8 {
            3
        } else {
            1
        }
    } else if n <= 4 {
        if roll <= 24 {
            0
        } else if roll <= 49 {
            1
        } else if roll <= 69 {
            6
        } else if roll <= 84 {
            3
        } else if roll <= 94 {
            4
        } else {
            7
        }
    } else {
        if roll <= 25 {
            0
        } else if roll <= 45 {
            1
        } else if roll <= 60 {
            2
        } else if roll <= 70 {
            3
        } else if roll <= 80 {
            4
        } else if roll <= 92 {
            6
        } else if roll <= 97 {
            7
        } else {
            5
        }
    }
}

/// The operators that can be chosen for a circuit of `n` components.
pub open spec fn op_in_use(n: int, op: int) -> bool {
    if n >= 16 {
        op == 0 || op == 2 || op == 3
    } else if n >= 13 {
        0 <= op <= 3
    } else if n <= 4 {
        op == 0 || op == 1 || op == 3 || op == 4 || op == 6 || op == 7
    } else {
        0 <= op < 8
    }
}

/// The number of outcomes of the operator roll: ten for circuits of 13
/// components or more, a hundred otherwise.
pub open spec fn roll_range(n: int) -> int {
    if n >= 13 {
        TENTH_ROLLS as int
    } else {
        PERCENT_ROLLS as int
    }
}

/// The number of outcomes of the operator roll for a circuit of `comp_count`
/// components (see `roll_range`).
pub fn operator_roll_range(comp_count: usize) -> (r: u8)
    ensures
        r == roll_range(comp_count as int),
        r > 0,
{
    if comp_count >= 13 {
        TENTH_ROLLS
    } else {
        PERCENT_ROLLS
    }
}

/// How many of the operator rolls for a circuit of `n` components select
/// operator `op`.
pub open spec fn operator_share(n: int, op: u8) -> nat {
    rolls_where(roll_range(n), |r: int| operator_for(n, r as u8) == op)
}

/// The operator mix: at 16 or more components, remove 5 in 10, change value
/// 4 in 10, move terminal 1 in 10; at 13 to 15, remove 5, change value 3,
/// move terminal 1, add 1 in 10; at 4 or fewer, change value 25, add 25,
/// split 20, move terminal 15, feedback 10, bootstrap 5 in 100; otherwise
/// change value 26, add 20, remove 15, move terminal 10, feedback 10, split
/// 12, bootstrap 5, cross coupling 2 in 100.
pub proof fn lemma_operator_shares(n: int)
    ensures
        n >= 16 ==> operator_share(n, 2) == 5 && operator_share(n, 0) == 4 && operator_share(n, 3)
            == 1,
        13 <= n < 16 ==> operator_share(n, 2) == 5 && operator_share(n, 0) == 3 && operator_share(
            n,
            3,
        ) == 1 && operator_share(n, 1) == 1,
        n <= 4 ==> operator_share(n, 0) == 25 && operator_share(n, 1) == 25 && operator_share(n, 6)
            == 20 && operator_share(n, 3) == 15 && operator_share(n, 4) == 10 && operator_share(
            n,
            7,
        ) == 5,
        4 < n < 13 ==> operator_share(n, 0) == 26 && operator_share(n, 1) == 20 && operator_share(
            n,
            2,
        ) == 15 && operator_share(n, 3) == 10 && operator_share(n, 4) == 10 && operator_share(n, 6)
            == 12 && operator_share(n, 7) == 5 && operator_share(n, 5) == 2,
{
    let k = roll_range(n);
    if n >= 16 {
        lemma_rolls_band(|r: int| operator_for(n, r as u8) == 2u8, 0, 5, k);
        lemma_rolls_band(|r: int| operator_for(n, r as u8) == 0u8, 5, 9, k);
        lemma_rolls_band(|r: int| operator_for(n, r as u8) == 3u8, 9, 10, k);
    } else if n >= 13 {
        lemma_rolls_band(|r: int| operator_for(n, r as u8) == 2u8, 0, 5, k);
        lemma_rolls_band(|r: int| operator_for(n, r as u8) == 0u8, 5, 8, k);
        lemma_rolls_band(|r: int| operator_for(n, r as u8) == 3u8, 8, 9, k);
        lemma_rolls_band(|r: int| operator_for(n, r as u8) == 1u8, 9, 10, k);
    } else if n <= 4 {
        lemma_rolls_band(|r: int| operator_for(n, r as u8) == 0u8, 0, 25, k);
        lemma_rolls_band(|r: int| operator_for(n, r as u8) == 1u8, 25, 50, k);
        lemma_rolls_band(|r: int| operator_for(n, r as u8) == 6u8, 50, 70, k);
        lemma_rolls_band(|r: int| operator_for(n, r as u8) == 3u8, 70, 85, k);
        lemma_rolls_band(|r: int| operator_for(n, r as u8) == 4u8, 85, 95, k);
        lemma_rolls_band(|r: int| operator_for(n, r as u8) == 7u8, 95, 100, k);
    } else {
        lemma_rolls_band(|r: int| operator_for(n, r as u8) == 0u8, 0, 26, k);
        lemma_rolls_band(|r: int| operator_for(n, r as u8) == 1u8, 26, 46, k);
        lemma_rolls_band(|r: int| operator_for(n, r as u8) == 2u8, 46, 61, k);
        lemma_rolls_band(|r: int| operator_for(n, r as u8) == 3u8, 61, 71, k);
        lemma_rolls_band(|r: int| operator_for(n, r as u8) == 4u8, 71, 81, k);
        lemma_rolls_band(|r: int| operator_for(n, r as u8) == 6u8, 81, 93, k);
        lemma_rolls_band(|r: int| operator_for(n, r as u8) == 7u8, 93, 98, k);
        lemma_rolls_band(|r: int| operator_for(n, r as u8) == 5u8, 98, 100, k);
    }
}

/// Every roll selects an operator in use for the circuit's size: circuits of
/// 16 or more components are never grown, and circuits of 4 or fewer never
/// shrunk.
pub proof fn lemma_operator_in_use(n: int, roll: u8)
    ensures
        op_in_use(n, operator_for(n, roll) as int),
{
}

/// Maps a roll to an operator (see `operator_for`).
pub fn pick_operator(comp_count: usize, roll: u8) -> (op: u8)
    ensures
        op == operator_for(comp_count as int, roll),
{
    if comp_count >= 16 {
        if roll <= 4 {
            2
        } else if roll <= 8 {
            0
        } else {
            3
        }
    } else if comp_count >= 13 {
        if roll <= 4 {
            2
        } else if roll <= 7 {
            0
        } else if roll == 8 {
            3
        } else {
            1
        }
    } else if comp_count <= 4 {
        if roll <= 24 {
            0
        } else if roll <= 49 {
            1
        } else if roll <= 69 {
            6
        } else if roll <= 84 {
            3
        } else if roll <= 94 {
            4
        } else {
            7
        }
    } else {
        if roll <= 25 {
            0
        } else if roll <= 45 {
            1
        } else if roll <= 60 {
            2
        } else if roll <= 70 {
            3
        } else if roll <= 80 {
            4
        } else if roll <= 92 {
            6
        } else if roll <= 97 {
            7
        } else {
            5
        }
    }
}

/// What operator `op` may have made of `c` when it reported success.
#[verifier::opaque]
pub open spec fn operator_outcome(op: int, c: CircuitView, c2: CircuitView) -> bool {
    if op == 0 {
        changed_value_outcome(c, c2)
    } else if op == 1 {
        added_component_outcome(c, c2)
    } else if op == 2 {
        removed_outcome(c, c2)
    } else if op == 3 {
        moved_terminal_outcome(c, c2)
    } else if op == 4 {
        feedback_outcome(c, c2)
    } else if op == 5 {
        cross_coupling_outcome(c, c2)
    } else if op == 6 {
        exists|idx: int| #[trigger] split_at(c, c2, idx)
    } else {
        bootstrap_outcome(c, c2)
    }
}

/// `c2` is one successful application to `c` of an operator in use for its size.
pub open spec fn mutated_once(c: CircuitView, c2: CircuitView) -> bool {
    exists|op: int| op_in_use(c.components.len() as int, op) && #[trigger] operator_outcome(op, c, c2)
}

/// Operator `op` can report failure on `c`, for some of its draws: changing
/// a value needs a resistor, capacitor or transistor; adding a part can miss
/// (no two registered nodes, or draws that build nothing); removing needs more
/// than two components and a removable one; moving a terminal needs a movable
/// component and two registered nodes and can miss for some draws; feedback,
/// cross-coupling, splitting and bootstrapping can fail only where they are
/// not sure to succeed.
pub open spec fn op_may_fail(op: int, c: CircuitView) -> bool {
    if op == 0 {
        !(exists|i: int|
            0 <= i < c.components.len() && {
                let t = (#[trigger] c.components[i]).comp_type;
                t == ComponentType::R || t == ComponentType::C || t == ComponentType::Q
            })
    } else if op == 1 {
        c.nodes.len() < 2 || exists|d: AddDraws| #[trigger] add_outcome(c, d) is None
    } else if op == 2 {
        !(c.components.len() > 2 && exists|i: int|
            0 <= i < c.components.len() && is_removable((#[trigger] c.components[i]).comp_type))
    } else if op == 3 {
        !has_movable(c) || c.nodes.len() < 2 || exists|idx: int, pin: int, nn: usize|
            0 <= idx < c.components.len() && is_movable(c.components[idx]) && #[trigger] move_outcome(
                c,
                idx,
                pin,
                nn,
            ) is None
    } else if op == 4 {
        !feedback_sure(c)
    } else if op == 5 {
        !cross_coupling_sure(c)
    } else if op == 6 {
        !split_sure(c)
    } else {
        !bootstrap_sure(c)
    }
}

/// One attempt with operator `op` can end without a valid mutant of `c`: the
/// operator can report failure, or one of its outcomes fails validation.
pub open spec fn attempt_may_miss(op: int, c: CircuitView) -> bool {
    op_may_fail(op, c) || exists|c2: CircuitView| #[trigger] operator_outcome(op, c, c2) && !is_valid_topology(
        c2.components,
    )
}

/// An attempt to mutate `c` can miss: some operator in use for its size can
/// end without a valid mutant.
pub open spec fn fallback_possible(c: CircuitView) -> bool {
    exists|op: int| op_in_use(c.components.len() as int, op) && #[trigger] attempt_may_miss(op, c)
}

/// Operator 2 adds one or two components.
proof fn lemma_added_component_size(c: CircuitView, c2: CircuitView)
    requires
        added_component_outcome(c, c2),
    ensures
        c.components.len() + 1 <= c2.components.len() <= c.components.len() + 2,
{
}

/// Operator 5 adds one or two components (two only through its fallback).
proof fn lemma_feedback_size(c: CircuitView, c2: CircuitView)
    requires
        feedback_outcome(c, c2),
    ensures
        c.components.len() + 1 <= c2.components.len() <= c.components.len() + 2,
{
    if !crate::mutate::added_feedback_part(c, c2) {
        lemma_added_component_size(c, c2);
    }
}

/// How many components a successful operator adds or removes: operators 0
/// and 3 keep the count, operator 2 removes one, and every other adds at most two.
pub proof fn lemma_operator_size(op: int, c: CircuitView, c2: CircuitView)
    requires
        operator_outcome(op, c, c2),
    ensures
        (op == 0 || op == 3) ==> c2.components.len() == c.components.len(),
        op == 2 ==> c2.components.len() + 1 == c.components.len(),
        op != 2 ==> c.components.len() <= c2.components.len() <= c.components.len() + 2,
{
    reveal(operator_outcome);
    if op == 0 {
        let idx = choose|idx: int| crate::mutate::changed_value_at(c, c2, idx);
        assert(crate::mutate::changed_value_at(c, c2, idx));
        let cs = c.components;
        if cs[idx].comp_type == ComponentType::Q && cs[idx].nodes.len() >= 3 {
            let base = cs[idx].nodes[1];
            lemma_last_bias_in_range(cs, cs.len() as int, idx, base, true);
            lemma_last_bias_in_range(cs, cs.len() as int, idx, base, false);
        }
    } else if op == 1 {
        lemma_added_component_size(c, c2);
    } else if op == 2 {
        let idx = choose|idx: int|
            0 <= idx < c.components.len() && crate::mutate::is_removable(
                (#[trigger] c.components[idx]).comp_type,
            ) && c2 == (CircuitView { components: c.components.remove(idx), ..c });
    } else if op == 3 {
        let t = choose|idx: int, pin: int| #[trigger] crate::mutate::moved_at(c, c2, idx, pin);
        assert(crate::mutate::moved_at(c, c2, t.0, t.1));
    } else if op == 4 {
        lemma_feedback_size(c, c2);
    } else if op == 5 {
        if !feedback_outcome(c, c2) {
            let t = choose|a: int, b: int| #[trigger] crate::mutate::cross_coupled_at(c, c2, a, b);
            assert(crate::mutate::cross_coupled_at(c, c2, t.0, t.1));
        } else {
            lemma_feedback_size(c, c2);
        }
    } else if op == 6 {
        let idx = choose|idx: int| #[trigger] split_at(c, c2, idx);
        assert(split_at(c, c2, idx));
    } else {
        if !crate::mutate::has_bjt(c) && added_component_outcome(c, c2) {
            lemma_added_component_size(c, c2);
        } else {
            let t = choose|qi: int, ri: int, iso: Seq<char>, cap: Seq<char>|
                crate::mutate::is_base_resistor(c, qi, ri) && crate::mutate::in_table(
                    crate::mutate::E24_VALUES@,
                    iso,
                ) && (cap == "10uF"@ || cap == "1uF"@) && c2
                    == #[trigger] crate::mutate::bootstrap_result(c, qi, ri, iso, cap);
            assert(c2 == crate::mutate::bootstrap_result(c, t.0, t.1, t.2, t.3));
        }
    }
}

/// The last bias resistor found lies among the components searched.
proof fn lemma_last_bias_in_range(
    cs: Seq<ComponentView>,
    n: int,
    skip: int,
    base: usize,
    to_vcc: bool,
)
    ensures
        crate::mutate::last_bias_resistor(cs, n, skip, base, to_vcc) matches Some(j) ==> 0 <= j < n,
    decreases n,
{
    if n > 0 {
        lemma_last_bias_in_range(cs, n - 1, skip, base, to_vcc);
    }
}

/// Bloat control: a circuit of 16 or more components never grows, one of
/// fewer never grows past 17, and one of 4 or fewer never shrinks (one of more
/// shrinks by at most one component).
pub open spec fn within_bloat_limits(n: int, n2: int) -> bool {
    &&& (n >= 16 ==> n2 <= n)
    &&& (n < 16 ==> n2 <= 17)
    &&& (n <= 4 ==> n2 >= n)
    &&& n2 >= n - 1
}

/// One successful mutation stays within the bloat limits.
pub proof fn lemma_mutation_within_bloat_limits(c: CircuitView, c2: CircuitView)
    requires
        mutated_once(c, c2),
    ensures
        within_bloat_limits(c.components.len() as int, c2.components.len() as int),
{
    let op = choose|op: int| op_in_use(c.components.len() as int, op) && #[trigger] operator_outcome(op, c, c2);
    lemma_operator_size(op, c, c2);
}

/// No component of `c` is an op-amp.
pub open spec fn is_discrete(c: CircuitView) -> bool {
    forall|i: int| 0 <= i < c.components.len() ==> (#[trigger] c.components[i]).comp_type != ComponentType::X
}

/// A list without op-amps counts none.
proof fn lemma_discrete_count(cs: Seq<ComponentView>)
    requires
        forall|i: int| 0 <= i < cs.len() ==> (#[trigger] cs[i]).comp_type != ComponentType::X,
    ensures
        crate::mutate::count_type(cs, ComponentType::X) == 0,
    decreases cs.len(),
{
    if cs.len() > 0 {
        assert forall|i: int| 0 <= i < cs.drop_last().len() implies (#[trigger] cs.drop_last()[i]).comp_type
            != ComponentType::X by {
            assert(cs.drop_last()[i] == cs[i]);
        }
        lemma_discrete_count(cs.drop_last());
        assert(cs.last() == cs[cs.len() - 1]);
    }
}

/// Adding a part that is not an op-amp keeps a circuit discrete.
proof fn lemma_discrete_with(c: CircuitView, p: ComponentView)
    requires
        is_discrete(c),
        p.comp_type != ComponentType::X,
    ensures
        is_discrete(with_component(c, p)),
{
    let c2 = with_component(c, p);
    assert forall|i: int| 0 <= i < c2.components.len() implies (#[trigger] c2.components[i]).comp_type
        != ComponentType::X by {
        if i < c.components.len() {
            assert(c2.components[i] == c.components[i]);
        }
    }
}

/// Operator 2 adds no op-amp to a discrete circuit.
proof fn lemma_discrete_added_component(c: CircuitView, c2: CircuitView)
    requires
        is_discrete(c),
        added_component_outcome(c, c2),
    ensures
        is_discrete(c2),
{
    lemma_discrete_count(c.components);
    let p = c2.components.last();
    if crate::mutate::added_transistor(c, c2) {
        let q = c2.components[c.components.len() as int];
        lemma_discrete_with(c, q);
        let npn = q.value == "2N3904"@;
        let rail = if npn {
            NODE_VEE
        } else {
            crate::circuit::NODE_VCC
        };
        if q.nodes[2] != rail {
            lemma_discrete_with(with_component(c, q), p);
        }
    } else {
        lemma_discrete_with(c, p);
    }
}

/// Operator 5 adds no op-amp to a discrete circuit.
proof fn lemma_discrete_feedback(c: CircuitView, c2: CircuitView)
    requires
        is_discrete(c),
        feedback_outcome(c, c2),
    ensures
        is_discrete(c2),
{
    if crate::mutate::added_feedback_part(c, c2) {
        let p = c2.components.last();
        if exists|k: int| #[trigger] crate::mutate::opamp_feedback(c, p, k) {
            let k = choose|k: int| #[trigger] crate::mutate::opamp_feedback(c, p, k);
            assert(c.components[k].comp_type == ComponentType::X);
        }
        lemma_discrete_with(c, p);
    } else {
        lemma_discrete_added_component(c, c2);
    }
}

/// No operator puts an op-amp into a circuit that has none: a discrete
/// circuit stays discrete under every successful mutation.
pub proof fn lemma_mutation_keeps_discrete(c: CircuitView, c2: CircuitView)
    requires
        is_discrete(c),
        mutated_once(c, c2),
    ensures
        is_discrete(c2),
{
    let op = choose|op: int| op_in_use(c.components.len() as int, op) && #[trigger] operator_outcome(op, c, c2);
    reveal(operator_outcome);
    let cs = c.components;
    if op == 0 {
        let idx = choose|idx: int| crate::mutate::changed_value_at(c, c2, idx);
        assert(crate::mutate::changed_value_at(c, c2, idx));
        if cs[idx].comp_type == ComponentType::Q && cs[idx].nodes.len() >= 3 {
            let base = cs[idx].nodes[1];
            lemma_last_bias_in_range(cs, cs.len() as int, idx, base, true);
            lemma_last_bias_in_range(cs, cs.len() as int, idx, base, false);
        }
        assert forall|i: int| 0 <= i < c2.components.len() implies (#[trigger] c2.components[i]).comp_type
            != ComponentType::X by {
            assert(cs[i].comp_type != ComponentType::X);
        }
    } else if op == 1 {
        lemma_discrete_added_component(c, c2);
    } else if op == 2 {
        let idx = choose|idx: int|
            0 <= idx < c.components.len() && crate::mutate::is_removable(
                (#[trigger] c.components[idx]).comp_type,
            ) && c2 == (CircuitView { components: c.components.remove(idx), ..c });
        assert forall|i: int| 0 <= i < c2.components.len() implies (#[trigger] c2.components[i]).comp_type
            != ComponentType::X by {
            if i < idx {
                assert(c2.components[i] == cs[i]);
            } else {
                assert(c2.components[i] == cs[i + 1]);
            }
        }
    } else if op == 3 {
        let t = choose|idx: int, pin: int| #[trigger] crate::mutate::moved_at(c, c2, idx, pin);
        assert(crate::mutate::moved_at(c, c2, t.0, t.1));
        assert forall|i: int| 0 <= i < c2.components.len() implies (#[trigger] c2.components[i]).comp_type
            != ComponentType::X by {
            assert(cs[i].comp_type != ComponentType::X);
        }
    } else if op == 4 {
        lemma_discrete_feedback(c, c2);
    } else if op == 5 {
        if feedback_outcome(c, c2) {
            lemma_discrete_feedback(c, c2);
        } else {
            let t = choose|a: int, b: int| #[trigger] crate::mutate::cross_coupled_at(c, c2, a, b);
            assert(crate::mutate::cross_coupled_at(c, c2, t.0, t.1));
            assert(cs[t.0].comp_type == ComponentType::X);
        }
    } else if op == 6 {
        let idx = choose|idx: int| #[trigger] split_at(c, c2, idx);
        assert(split_at(c, c2, idx));
        let mid = crate::mutate::fresh_node(c) as usize;
        let c1 = crate::mutate::with_pins(c, idx, seq![cs[idx].nodes[0], mid]);
        assert forall|i: int| 0 <= i < c1.components.len() implies (#[trigger] c1.components[i]).comp_type
            != ComponentType::X by {
            assert(cs[i].comp_type != ComponentType::X);
        }
        lemma_discrete_with(c1, c2.components.last());
    } else {
        if !crate::mutate::has_bjt(c) && added_component_outcome(c, c2) {
            lemma_discrete_added_component(c, c2);
        } else {
            let t = choose|qi: int, ri: int, iso: Seq<char>, cap: Seq<char>|
                crate::mutate::is_base_resistor(c, qi, ri) && crate::mutate::in_table(
                    crate::mutate::E24_VALUES@,
                    iso,
                ) && (cap == "10uF"@ || cap == "1uF"@) && c2
                    == #[trigger] crate::mutate::bootstrap_result(c, qi, ri, iso, cap);
            assert(c2 == crate::mutate::bootstrap_result(c, t.0, t.1, t.2, t.3));
            let base = cs[t.0].nodes[1];
            let emitter = cs[t.0].nodes[2];
            let rn = cs[t.1].nodes;
            let other = if rn[0] == base {
                rn[1]
            } else {
                rn[0]
            };
            let boot = crate::mutate::fresh_node(c) as usize;
            let c1 = crate::mutate::with_pins(c, t.1, seq![other, boot]);
            assert forall|i: int| 0 <= i < c1.components.len() implies (#[trigger] c1.components[i]).comp_type
                != ComponentType::X by {
                assert(cs[i].comp_type != ComponentType::X);
            }
            let ca = crate::mutate::add_unless_shorted(c1, ComponentType::R, boot, base, t.2);
            if boot != base {
                lemma_discrete_with(c1, ca.components.last());
            }
            let cb = crate::mutate::add_unless_shorted(ca, ComponentType::C, emitter, boot, t.3);
            if emitter != boot {
                lemma_discrete_with(ca, cb.components.last());
            }
            assert(c2.components == cb.components);
        }
    }
}

/// Applies operator `op` (0 to 7, see `MutationStats`) to `circuit`.
fn apply_operator(circuit: &mut Circuit, op: u8) -> (r: bool)
    requires
        within_id_limits(old(circuit)@),
    ensures
        r ==> operator_outcome(op as int, old(circuit)@, final(circuit)@),
        op == 0 ==> (r <==> exists|i: int|
            0 <= i < old(circuit)@.components.len() && {
                let t = (#[trigger] old(circuit)@.components[i]).comp_type;
                t == ComponentType::R || t == ComponentType::C || t == ComponentType::Q
            }),
        op == 2 ==> (r <==> old(circuit)@.components.len() > 2 && exists|i: int|
            0 <= i < old(circuit)@.components.len() && is_removable(
                (#[trigger] old(circuit)@.components[i]).comp_type,
            )),
        op == 1 && old(circuit)@.nodes.len() < 2 ==> !r,
        op == 4 && feedback_sure(old(circuit)@) ==> r,
        op == 5 && cross_coupling_sure(old(circuit)@) ==> r,
        op == 6 ==> (r <==> exists|idx: int| #[trigger] split_at(old(circuit)@, final(circuit)@, idx)),
        op == 6 && split_sure(old(circuit)@) ==> r,
        op >= 7 && bootstrap_sure(old(circuit)@) ==> r,
        !r ==> final(circuit)@ == old(circuit)@ || (op == 6 && exists|idx: int|
            #[trigger] split_blocked_at(old(circuit)@, final(circuit)@, idx)),
        !r ==> op_may_fail(op as int, old(circuit)@),
{
    reveal(operator_outcome);
    if op == 0 {
        mutate_change_value(circuit)
    } else if op == 1 {
        mutate_add_component(circuit)
    } else if op == 2 {
        mutate_remove_component(circuit)
    } else if op == 3 {
        mutate_move_terminal(circuit)
    } else if op == 4 {
        mutate_add_feedback(circuit)
    } else if op == 5 {
        mutate_cross_coupling(circuit)
    } else if op == 6 {
        mutate_split_resistor(circuit)
    } else {
        mutate_add_bootstrap(circuit)
    }
}

/// Counts one attempt of operator `op`.
fn count_attempt(stats: &mut MutationStats, op: u8)
    requires
        op < 8,
        old(stats).op_attempts[op as int] < usize::MAX,
    ensures
        final(stats).op_attempts@ == old(stats).op_attempts@.update(
            op as int,
            (old(stats).op_attempts[op as int] + 1) as usize,
        ),
        final(stats).op_successes == old(stats).op_successes,
        final(stats).total_calls == old(stats).total_calls,
        final(stats).successful_mutations == old(stats).successful_mutations,
        final(stats).fallbacks == old(stats).fallbacks,
{
    stats.op_attempts[op as usize] = stats.op_attempts[op as usize] + 1;
}

/// Counts one success of operator `op`.
fn count_success(stats: &mut MutationStats, op: u8)
    requires
        op < 8,
        old(stats).op_successes[op as int] < usize::MAX,
    ensures
        final(stats).op_successes@ == old(stats).op_successes@.update(
            op as int,
            (old(stats).op_successes[op as int] + 1) as usize,
        ),
        final(stats).op_attempts == old(stats).op_attempts,
        final(stats).total_calls == old(stats).total_calls,
        final(stats).successful_mutations == old(stats).successful_mutations,
        final(stats).fallbacks == old(stats).fallbacks,
{
    stats.op_successes[op as usize] = stats.op_successes[op as usize] + 1;
}

/// The counters of one round of `mutate_with_stats`: an attempt of operator
/// `op`; a success of `op` when it `mutated` the circuit; and a successful
/// mutation when the result also `passed` validation.
pub fn record_round(stats: &mut MutationStats, op: u8, mutated: bool, passed: bool)
    requires
        op < 8,
        old(stats).op_attempts[op as int] < usize::MAX,
        old(stats).op_successes[op as int] < usize::MAX,
        passed ==> mutated,
        passed ==> old(stats).successful_mutations < usize::MAX,
    ensures
        final(stats).op_attempts@ == old(stats).op_attempts@.update(
            op as int,
            (old(stats).op_attempts[op as int] + 1) as usize,
        ),
        mutated ==> final(stats).op_successes@ == old(stats).op_successes@.update(
            op as int,
            (old(stats).op_successes[op as int] + 1) as usize,
        ),
        !mutated ==> final(stats).op_successes == old(stats).op_successes,
        final(stats).successful_mutations == old(stats).successful_mutations + if passed {
            1int
        } else {
            0
        },
        final(stats).total_calls == old(stats).total_calls,
        final(stats).fallbacks == old(stats).fallbacks,
{
    count_attempt(stats, op);
    if mutated {
        count_success(stats, op);
        if passed {
            stats.successful_mutations = stats.successful_mutations + 1;
        }
    }
}

/// What one `mutate_with_stats` call records for a circuit of `n` components
/// that ran `tries` attempts: each attempt is counted against the operator it
/// drew (always one in use for `n`), each operator success against the same
/// operator, and no counter goes down.
pub open spec fn attempts_recorded(s0: MutationStats, s1: MutationStats, n: int, tries: int) -> bool {
    counts_recorded(s0.op_attempts, s0.op_successes, s1.op_attempts, s1.op_successes, n, tries)
}

/// `attempts_recorded` over the two pairs of counter arrays.
#[verifier::opaque]
pub open spec fn counts_recorded(
    att0: [usize; 8],
    suc0: [usize; 8],
    att1: [usize; 8],
    suc1: [usize; 8],
    n: int,
    tries: int,
) -> bool {
    &&& forall|k: int|
        0 <= k < 8 ==> att0[k] <= #[trigger] att1[k] && suc0[k] <= suc1[k] && suc1[k] - suc0[k]
            <= att1[k] - att0[k] && att1[k] <= att0[k] + tries && suc1[k] <= suc0[k] + tries
    &&& forall|k: int| 0 <= k < 8 && !op_in_use(n, k) ==> #[trigger] att1[k] == att0[k]
    &&& total8(att1) - total8(att0) == tries
}

/// Whether the circuit passes `Circuit::validate`.
fn passes_validation(c: &Circuit) -> (b: bool)
    ensures
        b == is_valid_topology(c@.components),
{
    c.validate().is_ok()
}

/// After fewer than ten rounds, the counters of the operator drawn next can
/// still be incremented.
proof fn lemma_room_for_round(s0: MutationStats, s1: MutationStats, n: int, tries: int, op: int)
    requires
        counters_have_room(s0),
        attempts_recorded(s0, s1, n, tries),
        0 <= tries < 10,
        0 <= op < 8,
    ensures
        s1.op_attempts[op] < usize::MAX,
        s1.op_successes[op] < usize::MAX,
{
    reveal(counts_recorded);
    assert(s1.op_attempts[op] <= s0.op_attempts[op] + tries);
}

/// One more round: the attempt of `op` is counted, and its success when `won`.
proof fn lemma_round_recorded(
    s0: MutationStats,
    s1: MutationStats,
    s2: MutationStats,
    n: int,
    tries: int,
    op: int,
    won: bool,
)
    requires
        attempts_recorded(s0, s1, n, tries),
        0 <= tries < 10,
        0 <= op < 8,
        op_in_use(n, op),
        s1.op_attempts[op] < usize::MAX,
        s1.op_successes[op] < usize::MAX,
        s2.op_attempts@ == s1.op_attempts@.update(op, (s1.op_attempts[op] + 1) as usize),
        won ==> s2.op_successes@ == s1.op_successes@.update(op, (s1.op_successes[op] + 1) as usize),
        !won ==> s2.op_successes == s1.op_successes,
    ensures
        attempts_recorded(s0, s2, n, tries + 1),
{
    reveal(counts_recorded);
    assert forall|k: int| 0 <= k < 8 implies s2.op_attempts[k] == s1.op_attempts[k] + (if k == op {
        1int
    } else {
        0
    }) && s2.op_successes[k] == s1.op_successes[k] + (if k == op && won {
        1int
    } else {
        0
    }) by {
        assert(s2.op_attempts[k] == s2.op_attempts@[k]);
        assert(s1.op_attempts[k] == s1.op_attempts@[k]);
        assert(s2.op_successes[k] == s2.op_successes@[k]);
        assert(s1.op_successes[k] == s1.op_successes@[k]);
    }
    assert(total8(s2.op_attempts) == total8(s1.op_attempts) + 1) by {
        assert(s2.op_attempts[0] == s1.op_attempts[0] + (if 0 == op { 1int } else { 0 }));
        assert(s2.op_attempts[1] == s1.op_attempts[1] + (if 1 == op { 1int } else { 0 }));
        assert(s2.op_attempts[2] == s1.op_attempts[2] + (if 2 == op { 1int } else { 0 }));
        assert(s2.op_attempts[3] == s1.op_attempts[3] + (if 3 == op { 1int } else { 0 }));
        assert(s2.op_attempts[4] == s1.op_attempts[4] + (if 4 == op { 1int } else { 0 }));
        assert(s2.op_attempts[5] == s1.op_attempts[5] + (if 5 == op { 1int } else { 0 }));
        assert(s2.op_attempts[6] == s1.op_attempts[6] + (if 6 == op { 1int } else { 0 }));
        assert(s2.op_attempts[7] == s1.op_attempts[7] + (if 7 == op { 1int } else { 0 }));
    }
}

/// Nothing is recorded before the first round.
proof fn lemma_nothing_recorded(s0: MutationStats, s1: MutationStats, n: int)
    requires
        s1.op_attempts == s0.op_attempts,
        s1.op_successes == s0.op_successes,
    ensures
        attempts_recorded(s0, s1, n, 0),
{
    reveal(counts_recorded);
}

/// The mutation counters balance: every call counted ended in a success or
/// a fallback.
pub open spec fn stats_balanced(s: MutationStats) -> bool {
    s.total_calls == s.successful_mutations + s.fallbacks
}

/// One call of `mutate_with_stats` as its counters record it: one more call,
/// ending either in one more success or in one more fallback.
pub open spec fn call_counted(s: MutationStats, s2: MutationStats) -> bool {
    &&& s2.total_calls == s.total_calls + 1
    &&& {
        ||| s2.fallbacks == s.fallbacks + 1 && s2.successful_mutations == s.successful_mutations
        ||| s2.fallbacks == s.fallbacks && s2.successful_mutations == s.successful_mutations + 1
    }
}

/// Every call ends in exactly one success or one fallback: starting from
/// zero, the call count always equals successes plus fallbacks.
pub proof fn lemma_mutation_stats_balance(s: MutationStats, s2: MutationStats)
    requires
        s.total_calls == s.successful_mutations + s.fallbacks,
        call_counted(s, s2),
    ensures
        s2.total_calls == s2.successful_mutations + s2.fallbacks,
{
}

/// Mutates a copy of `circuit`: up to ten times an operator is drawn by the
/// circuit's size (see `operator_for`) and applied to a fresh copy; the first
/// success that passes validation is returned. When all ten attempts fail the
/// copy is returned unchanged and a fallback is counted. Every call is counted
/// in `stats` (see `attempts_recorded`).
pub fn mutate_with_stats(circuit: &Circuit, stats: &mut MutationStats) -> (r: Circuit)
    requires
        within_id_limits(circuit@),
        counters_have_room(*old(stats)),
    ensures
        call_counted(*old(stats), *final(stats)),
        stats_balanced(*old(stats)) ==> stats_balanced(*final(stats)),
        final(stats).total_calls == old(stats).total_calls + 1,
        ({
            ||| final(stats).fallbacks == old(stats).fallbacks + 1
                && final(stats).successful_mutations == old(stats).successful_mutations
                && r@ == circuit@ && fallback_possible(circuit@) && attempts_recorded(
                *old(stats),
                *final(stats),
                circuit@.components.len() as int,
                10,
            )
            ||| final(stats).fallbacks == old(stats).fallbacks
                && final(stats).successful_mutations == old(stats).successful_mutations + 1
                && is_valid_topology(r@.components) && mutated_once(circuit@, r@)
                && exists|tries: int|
                1 <= tries <= 10 && #[trigger] attempts_recorded(
                    *old(stats),
                    *final(stats),
                    circuit@.components.len() as int,
                    tries,
                )
        }),
        within_bloat_limits(circuit@.components.len() as int, r@.components.len() as int),
        is_valid_topology(circuit@.components) ==> is_valid_topology(r@.components),
{
    let ghost c0 = circuit@;
    let ghost s0 = *stats;
    stats.total_calls = stats.total_calls + 1;
    let comp_count = circuit.components.len();
    let mut attempt: usize = 0;
    let mut found: Option<Circuit> = None;
    proof {
        lemma_nothing_recorded(s0, *stats, comp_count as int);
    }
    while attempt < 10 && found.is_none()
        invariant
            c0 == circuit@,
            within_id_limits(c0),
            comp_count == c0.components.len(),
            0 <= attempt <= 10,
            stats.total_calls == s0.total_calls + 1,
            stats.fallbacks == s0.fallbacks,
            counters_have_room(s0),
            attempts_recorded(s0, *stats, comp_count as int, attempt as int),
            found is None ==> stats.successful_mutations == s0.successful_mutations,
            found is None && attempt > 0 ==> fallback_possible(c0),
            found matches Some(m) ==> {
                &&& stats.successful_mutations == s0.successful_mutations + 1
                &&& is_valid_topology(m@.components)
                &&& mutated_once(c0, m@)
                &&& 1 <= attempt
            },
        decreases 10 - attempt,
    {
        let ghost s1 = *stats;
        let mut candidate = circuit.deep_copy();
        let roll = random_below(operator_roll_range(comp_count));
        let op = pick_operator(comp_count, roll);
        proof {
            lemma_operator_in_use(comp_count as int, roll);
            lemma_room_for_round(s0, s1, comp_count as int, attempt as int, op as int);
        }
        let mutated = apply_operator(&mut candidate, op);
        let passed = mutated && passes_validation(&candidate);
        record_round(stats, op, mutated, passed);
        proof {
            lemma_round_recorded(s0, s1, *stats, comp_count as int, attempt as int, op as int, mutated);
        }
        if passed {
            proof {
                assert(mutated_once(c0, candidate@));
            }
            found = Some(candidate);
        } else {
            proof {
                assert(op_in_use(comp_count as int, op as int));
                if mutated {
                    assert(operator_outcome(op as int, c0, candidate@) && !is_valid_topology(candidate@.components));
                }
                assert(attempt_may_miss(op as int, c0));
            }
        }
        attempt = attempt + 1;
    }
    match found {
        Some(m) => {
            proof {
                lemma_mutation_within_bloat_limits(c0, m@);
            }
            m
        },
        None => {
            stats.fallbacks = stats.fallbacks + 1;
            circuit.deep_copy()
        },
    }
}

/// Mutates a copy of `circuit` as `mutate_with_stats` does, without telemetry.
pub fn mutate(circuit: &Circuit) -> (r: Circuit)
    requires
        within_id_limits(circuit@),
    ensures
        (r@ == circuit@ && fallback_possible(circuit@)) || (is_valid_topology(r@.components) && mutated_once(
            circuit@,
            r@,
        )),
        within_bloat_limits(circuit@.components.len() as int, r@.components.len() as int),
        is_valid_topology(circuit@.components) ==> is_valid_topology(r@.components),
{
    let mut stats = MutationStats::new();
    mutate_with_stats(circuit, &mut stats)
}

/// A part with the given type, id, pins and value.
pub open spec fn part(t: ComponentType, id: usize, nodes: Seq<usize>, value: Seq<char>) -> ComponentView {
    ComponentView { comp_type: t, id, nodes, value }
}

/// The view of `Circuit::new()`.
pub open spec fn empty_circuit() -> CircuitView {
    CircuitView {
        nodes: fixed_nodes(),
        components: Seq::empty(),
        vcc_centivolts: 900i64,
        vee_centivolts: -900i64,
    }
}

/// Template 1, a biased NPN emitter follower: Q1 2N3904 (VCC, 10, OUT), R1
/// 100k VCC-10, R2 100k 10-VEE, R3 4.7k OUT-VEE, C1 1uF IN-10.
pub open spec fn npn_follower_seed() -> CircuitView {
    let c = with_component(empty_circuit(), part(ComponentType::Q, 1, seq![NODE_VCC, 10, NODE_OUT], "2N3904"@));
    let c = with_component(c, part(ComponentType::R, 1, seq![NODE_VCC, 10], "100k"@));
    let c = with_component(c, part(ComponentType::R, 2, seq![10, NODE_VEE], "100k"@));
    let c = with_component(c, part(ComponentType::R, 3, seq![NODE_OUT, NODE_VEE], "4.7k"@));
    with_component(c, part(ComponentType::C, 1, seq![NODE_IN, 10], "1uF"@))
}

/// Template 2, a bootstrapped NPN follower: Q1 2N3904 (VCC, 10, OUT), R1 100k
/// VCC-11, R2 100k 11-VEE, R3 47k 11-10, R4 4.7k OUT-VEE, C1 1uF IN-10, C2
/// 10uF OUT-11.
pub open spec fn bootstrapped_follower_seed() -> CircuitView {
    let c = with_component(empty_circuit(), part(ComponentType::Q, 1, seq![NODE_VCC, 10, NODE_OUT], "2N3904"@));
    let c = with_component(c, part(ComponentType::R, 1, seq![NODE_VCC, 11], "100k"@));
    let c = with_component(c, part(ComponentType::R, 2, seq![11, NODE_VEE], "100k"@));
    let c = with_component(c, part(ComponentType::R, 3, seq![11, 10], "47k"@));
    let c = with_component(c, part(ComponentType::R, 4, seq![NODE_OUT, NODE_VEE], "4.7k"@));
    let c = with_component(c, part(ComponentType::C, 1, seq![NODE_IN, 10], "1uF"@));
    with_component(c, part(ComponentType::C, 2, seq![NODE_OUT, 11], "10uF"@))
}

/// Template 3, a PNP emitter follower: Q1 2N3906 (VEE, 10, OUT), R1 100k
/// VCC-10, R2 100k 10-VEE, R3 4.7k VCC-OUT, C1 1uF IN-10.
pub open spec fn pnp_follower_seed() -> CircuitView {
    let c = with_component(empty_circuit(), part(ComponentType::Q, 1, seq![NODE_VEE, 10, NODE_OUT], "2N3906"@));
    let c = with_component(c, part(ComponentType::R, 1, seq![NODE_VCC, 10], "100k"@));
    let c = with_component(c, part(ComponentType::R, 2, seq![10, NODE_VEE], "100k"@));
    let c = with_component(c, part(ComponentType::R, 3, seq![NODE_VCC, NODE_OUT], "4.7k"@));
    with_component(c, part(ComponentType::C, 1, seq![NODE_IN, 10], "1uF"@))
}

/// The seed template used at position `i` of the population (cycling through
/// the three templates).
pub open spec fn seed_template(i: int) -> CircuitView {
    if i % 3 == 0 {
        npn_follower_seed()
    } else if i % 3 == 1 {
        bootstrapped_follower_seed()
    } else {
        pnp_follower_seed()
    }
}

/// The transistors of the discrete seed templates are emitter followers: every
/// transistor has its base on node 10, its emitter on OUT and its collector on
/// its own supply rail, VCC for the NPN 2N3904 and VEE for the PNP 2N3906. Each
/// template's first part is its transistor.
pub proof fn lemma_seed_templates_are_followers(i: int)
    ensures
        seed_template(i).components.len() > 0,
        seed_template(i).components[0].comp_type == ComponentType::Q,
        forall|k: int|
            0 <= k < seed_template(i).components.len() && (#[trigger] seed_template(i).components[k]).comp_type
                == ComponentType::Q ==> {
                let q = seed_template(i).components[k];
                &&& q.nodes.len() == 3
                &&& q.nodes[1] == 10
                &&& q.nodes[2] == NODE_OUT
                &&& ((q.value == "2N3904"@ && q.nodes[0] == NODE_VCC) || (q.value == "2N3906"@ && q.nodes[0]
                    == NODE_VEE))
            },
{
    let e = empty_circuit();
    assert(e.components =~= Seq::<ComponentView>::empty());
    assert(npn_follower_seed().components =~= seq![
        part(ComponentType::Q, 1, seq![NODE_VCC, 10, NODE_OUT], "2N3904"@),
        part(ComponentType::R, 1, seq![NODE_VCC, 10], "100k"@),
        part(ComponentType::R, 2, seq![10, NODE_VEE], "100k"@),
        part(ComponentType::R, 3, seq![NODE_OUT, NODE_VEE], "4.7k"@),
        part(ComponentType::C, 1, seq![NODE_IN, 10], "1uF"@),
    ]);
    assert(bootstrapped_follower_seed().components =~= seq![
        part(ComponentType::Q, 1, seq![NODE_VCC, 10, NODE_OUT], "2N3904"@),
        part(ComponentType::R, 1, seq![NODE_VCC, 11], "100k"@),
        part(ComponentType::R, 2, seq![11, NODE_VEE], "100k"@),
        part(ComponentType::R, 3, seq![11, 10], "47k"@),
        part(ComponentType::R, 4, seq![NODE_OUT, NODE_VEE], "4.7k"@),
        part(ComponentType::C, 1, seq![NODE_IN, 10], "1uF"@),
        part(ComponentType::C, 2, seq![NODE_OUT, 11], "10uF"@),
    ]);
    assert(pnp_follower_seed().components =~= seq![
        part(ComponentType::Q, 1, seq![NODE_VEE, 10, NODE_OUT], "2N3906"@),
        part(ComponentType::R, 1, seq![NODE_VCC, 10], "100k"@),
        part(ComponentType::R, 2, seq![10, NODE_VEE], "100k"@),
        part(ComponentType::R, 3, seq![NODE_VCC, NODE_OUT], "4.7k"@),
        part(ComponentType::C, 1, seq![NODE_IN, 10], "1uF"@),
    ]);
}

/// Adding a part with small id and pins keeps a circuit's ids and nodes small.
proof fn lemma_small_part(c: CircuitView, p: ComponentView)
    requires
        ids_below(c, 12),
        p.id < 12,
        forall|k: int| 0 <= k < p.nodes.len() ==> #[trigger] p.nodes[k] < 12,
    ensures
        ids_below(with_component(c, p), 12),
{
    lemma_with_component_below(c, p, 12);
}

fn npn_follower() -> (c: Circuit)
    ensures
        c@ == npn_follower_seed(),
        ids_below(c@, 12),
{
    let mut c = Circuit::new();
    assert(c@.components =~= Seq::<ComponentView>::empty());
    assert(c@ == empty_circuit());
    c.add_component(build_part('Q', ComponentType::Q, 1, vec![NODE_VCC, 10, NODE_OUT], "2N3904"));
    c.add_component(build_part('R', ComponentType::R, 1, vec![NODE_VCC, 10], "100k"));
    c.add_component(build_part('R', ComponentType::R, 2, vec![10, NODE_VEE], "100k"));
    c.add_component(build_part('R', ComponentType::R, 3, vec![NODE_OUT, NODE_VEE], "4.7k"));
    c.add_component(build_part('C', ComponentType::C, 1, vec![NODE_IN, 10], "1uF"));
    proof {
        let c0 = empty_circuit();
        let p0 = part(ComponentType::Q, 1, seq![NODE_VCC, 10, NODE_OUT], "2N3904"@);
        let p1 = part(ComponentType::R, 1, seq![NODE_VCC, 10], "100k"@);
        let p2 = part(ComponentType::R, 2, seq![10, NODE_VEE], "100k"@);
        let p3 = part(ComponentType::R, 3, seq![NODE_OUT, NODE_VEE], "4.7k"@);
        let p4 = part(ComponentType::C, 1, seq![NODE_IN, 10], "1uF"@);
        let c1 = with_component(c0, p0);
        let c2 = with_component(c1, p1);
        let c3 = with_component(c2, p2);
        let c4 = with_component(c3, p3);
        lemma_small_part(c0, p0);
        lemma_small_part(c1, p1);
        lemma_small_part(c2, p2);
        lemma_small_part(c3, p3);
        lemma_small_part(c4, p4);
    }
    c
}

fn bootstrapped_follower() -> (c: Circuit)
    ensures
        c@ == bootstrapped_follower_seed(),
        ids_below(c@, 12),
{
    let mut c = Circuit::new();
    assert(c@.components =~= Seq::<ComponentView>::empty());
    assert(c@ == empty_circuit());
    c.add_component(build_part('Q', ComponentType::Q, 1, vec![NODE_VCC, 10, NODE_OUT], "2N3904"));
    c.add_component(build_part('R', ComponentType::R, 1, vec![NODE_VCC, 11], "100k"));
    c.add_component(build_part('R', ComponentType::R, 2, vec![11, NODE_VEE], "100k"));
    c.add_component(build_part('R', ComponentType::R, 3, vec![11, 10], "47k"));
    c.add_component(build_part('R', ComponentType::R, 4, vec![NODE_OUT, NODE_VEE], "4.7k"));
    c.add_component(build_part('C', ComponentType::C, 1, vec![NODE_IN, 10], "1uF"));
    c.add_component(build_part('C', ComponentType::C, 2, vec![NODE_OUT, 11], "10uF"));
    proof {
        let c0 = empty_circuit();
        let p0 = part(ComponentType::Q, 1, seq![NODE_VCC, 10, NODE_OUT], "2N3904"@);
        let p1 = part(ComponentType::R, 1, seq![NODE_VCC, 11], "100k"@);
        let p2 = part(ComponentType::R, 2, seq![11, NODE_VEE], "100k"@);
        let p3 = part(ComponentType::R, 3, seq![11, 10], "47k"@);
        let p4 = part(ComponentType::R, 4, seq![NODE_OUT, NODE_VEE], "4.7k"@);
        let p5 = part(ComponentType::C, 1, seq![NODE_IN, 10], "1uF"@);
        let p6 = part(ComponentType::C, 2, seq![NODE_OUT, 11], "10uF"@);
        let c1 = with_component(c0, p0);
        let c2 = with_component(c1, p1);
        let c3 = with_component(c2, p2);
        let c4 = with_component(c3, p3);
        let c5 = with_component(c4, p4);
        let c6 = with_component(c5, p5);
        lemma_small_part(c0, p0);
        lemma_small_part(c1, p1);
        lemma_small_part(c2, p2);
        lemma_small_part(c3, p3);
        lemma_small_part(c4, p4);
        lemma_small_part(c5, p5);
        lemma_small_part(c6, p6);
    }
    c
}

fn pnp_follower() -> (c: Circuit)
    ensures
        c@ == pnp_follower_seed(),
        ids_below(c@, 12),
{
    let mut c = Circuit::new();
    assert(c@.components =~= Seq::<ComponentView>::empty());
    assert(c@ == empty_circuit());
    c.add_component(build_part('Q', ComponentType::Q, 1, vec![NODE_VEE, 10, NODE_OUT], "2N3906"));
    c.add_component(build_part('R', ComponentType::R, 1, vec![NODE_VCC, 10], "100k"));
    c.add_component(build_part('R', ComponentType::R, 2, vec![10, NODE_VEE], "100k"));
    c.add_component(build_part('R', ComponentType::R, 3, vec![NODE_VCC, NODE_OUT], "4.7k"));
    c.add_component(build_part('C', ComponentType::C, 1, vec![NODE_IN, 10], "1uF"));
    proof {
        let c0 = empty_circuit();
        let p0 = part(ComponentType::Q, 1, seq![NODE_VEE, 10, NODE_OUT], "2N3906"@);
        let p1 = part(ComponentType::R, 1, seq![NODE_VCC, 10], "100k"@);
        let p2 = part(ComponentType::R, 2, seq![10, NODE_VEE], "100k"@);
        let p3 = part(ComponentType::R, 3, seq![NODE_VCC, NODE_OUT], "4.7k"@);
        let p4 = part(ComponentType::C, 1, seq![NODE_IN, 10], "1uF"@);
        let c1 = with_component(c0, p0);
        let c2 = with_component(c1, p1);
        let c3 = with_component(c2, p2);
        let c4 = with_component(c3, p3);
        lemma_small_part(c0, p0);
        lemma_small_part(c1, p1);
        lemma_small_part(c2, p2);
        lemma_small_part(c3, p3);
        lemma_small_part(c4, p4);
    }
    c
}

/// `pop` is a discrete seed population of `size` (see `seed_discrete_population`).
pub open spec fn is_discrete_population(pop: Seq<Circuit>, size: int) -> bool {
    &&& pop.len() == if size > 3 {
        size
    } else {
        3
    }
    &&& forall|i: int| 0 <= i < 3 ==> (#[trigger] pop[i])@ == seed_template(i)
    &&& forall|i: int|
        3 <= i < pop.len() ==> ((#[trigger] pop[i])@ == seed_template(i) && fallback_possible(seed_template(i))) || (is_valid_topology(
            pop[i]@.components,
        ) && mutated_once(seed_template(i), pop[i]@))
    &&& forall|i: int| 0 <= i < pop.len() ==> is_discrete(#[trigger] pop[i]@)
}

/// A population of at least three discrete circuits (transistors, resistors
/// and capacitors; no op-amps): the three templates first, then, cycling
/// through the templates, each template mutated once (or left as it is when
/// no mutation took).
pub fn seed_discrete_population(size: usize) -> (pop: Vec<Circuit>)
    ensures
        is_discrete_population(pop@, size as int),
{
    let npn = npn_follower();
    let boot = bootstrapped_follower();
    let pnp = pnp_follower();
    proof {
        lemma_ids_below_weaken(npn@, 12, usize::MAX - 16);
        lemma_ids_below_weaken(boot@, 12, usize::MAX - 16);
        lemma_ids_below_weaken(pnp@, 12, usize::MAX - 16);
    }
    assert(is_discrete(npn@));
    assert(is_discrete(boot@));
    assert(is_discrete(pnp@));
    let mut pop: Vec<Circuit> = Vec::new();
    pop.push(npn.deep_copy());
    pop.push(boot.deep_copy());
    pop.push(pnp.deep_copy());
    while pop.len() < size
        invariant
            npn@ == seed_template(0),
            boot@ == seed_template(1),
            pnp@ == seed_template(2),
            within_id_limits(npn@),
            within_id_limits(boot@),
            within_id_limits(pnp@),
            3 <= pop.len(),
            pop.len() <= if size > 3 {
                size
            } else {
                3
            },
            forall|i: int| 0 <= i < 3 ==> (#[trigger] pop@[i])@ == seed_template(i),
            forall|i: int|
                3 <= i < pop.len() ==> ((#[trigger] pop@[i])@ == seed_template(i) && fallback_possible(seed_template(i))) || (
                is_valid_topology(pop@[i]@.components) && mutated_once(seed_template(i), pop@[i]@)),
            is_discrete(npn@),
            is_discrete(boot@),
            is_discrete(pnp@),
            forall|i: int| 0 <= i < pop.len() ==> is_discrete(#[trigger] pop@[i]@),
        decreases size - pop.len(),
    {
        let k = pop.len() % 3;
        let base = if k == 0 {
            &npn
        } else if k == 1 {
            &boot
        } else {
            &pnp
        };
        assert(base@ == seed_template(pop.len() as int));
        let m = mutate(base);
        proof {
            if m@ != base@ {
                lemma_mutation_keeps_discrete(base@, m@);
            }
        }
        pop.push(m);
    }
    pop
}

/// Op-amp template 1, a voltage follower: X1 (IN, OUT, VCC, VEE, OUT).
pub open spec fn opamp_follower_seed(model: Seq<char>) -> CircuitView {
    with_component(
        empty_circuit(),
        part(ComponentType::X, 1, seq![NODE_IN, NODE_OUT, NODE_VCC, NODE_VEE, NODE_OUT], model),
    )
}

/// Op-amp template 2, a follower behind an input resistor: R1 10k IN-10,
/// X1 (10, OUT, VCC, VEE, OUT).
pub open spec fn opamp_resistor_follower_seed(model: Seq<char>) -> CircuitView {
    let c = with_component(empty_circuit(), part(ComponentType::R, 1, seq![NODE_IN, 10], "10k"@));
    with_component(c, part(ComponentType::X, 1, seq![10, NODE_OUT, NODE_VCC, NODE_VEE, NODE_OUT], model))
}

/// Op-amp template 3, a follower behind a two-resistor ladder: R1 10k IN-10,
/// R2 10k 10-20, X1 (20, OUT, VCC, VEE, OUT).
pub open spec fn opamp_ladder_follower_seed(model: Seq<char>) -> CircuitView {
    let c = with_component(empty_circuit(), part(ComponentType::R, 1, seq![NODE_IN, 10], "10k"@));
    let c = with_component(c, part(ComponentType::R, 2, seq![10, 20], "10k"@));
    with_component(c, part(ComponentType::X, 1, seq![20, NODE_OUT, NODE_VCC, NODE_VEE, NODE_OUT], model))
}

/// The op-amp template used at position `i` of an op-amp population.
pub open spec fn opamp_template(model: Seq<char>, i: int) -> CircuitView {
    if i % 3 == 0 {
        opamp_follower_seed(model)
    } else if i % 3 == 1 {
        opamp_resistor_follower_seed(model)
    } else {
        opamp_ladder_follower_seed(model)
    }
}

/// Novelty template 1, a 1 kHz Sallen-Key low-pass: R1 10k IN-10, R2 10k
/// 10-20, C1 15.9nF 10-OUT, C2 15.9nF 20-GND, X1 TL072 (20, OUT, VCC, VEE, OUT).
pub open spec fn sallen_key_seed() -> CircuitView {
    let c = with_component(empty_circuit(), part(ComponentType::R, 1, seq![NODE_IN, 10], "10k"@));
    let c = with_component(c, part(ComponentType::R, 2, seq![10, 20], "10k"@));
    let c = with_component(c, part(ComponentType::C, 1, seq![10, NODE_OUT], "15.9nF"@));
    let c = with_component(c, part(ComponentType::C, 2, seq![20, crate::circuit::NODE_GND], "15.9nF"@));
    with_component(c, part(ComponentType::X, 1, seq![20, NODE_OUT, NODE_VCC, NODE_VEE, NODE_OUT], "TL072"@))
}

/// Novelty template 2, a diode clipper: R1 1k IN-10, D1 1N4148 10-GND,
/// X1 TL072 (10, OUT, VCC, VEE, OUT).
pub open spec fn diode_clipper_seed() -> CircuitView {
    let c = with_component(empty_circuit(), part(ComponentType::R, 1, seq![NODE_IN, 10], "1k"@));
    let c = with_component(c, part(ComponentType::D, 1, seq![10, crate::circuit::NODE_GND], "1N4148"@));
    with_component(c, part(ComponentType::X, 1, seq![10, NODE_OUT, NODE_VCC, NODE_VEE, NODE_OUT], "TL072"@))
}

/// A fresh circuit, as `Circuit::new` builds it.
fn empty_seed() -> (c: Circuit)
    ensures
        c@ == empty_circuit(),
        ids_below(c@, 21),
{
    let c = Circuit::new();
    assert(c@.components =~= Seq::<ComponentView>::empty());
    c
}

/// Adds a part whose id and pins are below 21.
fn add_small_part(c: &mut Circuit, letter: char, t: ComponentType, id: usize, nodes: Vec<usize>, value: &str)
    requires
        ids_below(old(c)@, 21),
        id < 21,
        forall|k: int| 0 <= k < nodes@.len() ==> #[trigger] nodes@[k] < 21,
        crate::circuit::letter_type(crate::circuit::ascii_upper(letter)) == Some(t),
        nodes@.len() >= crate::circuit::required_pins(t),
        crate::circuit::is_two_terminal(t) ==> nodes@[0] != nodes@[1],
        t == ComponentType::Q ==> !(nodes@[0] == nodes@[1] && nodes@[1] == nodes@[2]),
    ensures
        final(c)@ == with_component(old(c)@, part(t, id, nodes@, value@)),
        ids_below(final(c)@, 21),
{
    let ghost ns = nodes@;
    let p = build_part(letter, t, id, nodes, value);
    c.add_component(p);
    proof {
        lemma_with_component_below(old(c)@, part(t, id, ns, value@), 21);
    }
}

fn opamp_follower(model: &str) -> (c: Circuit)
    ensures
        c@ == opamp_follower_seed(model@),
        ids_below(c@, 21),
{
    let mut c = empty_seed();
    add_small_part(&mut c, 'X', ComponentType::X, 1, vec![NODE_IN, NODE_OUT, NODE_VCC, NODE_VEE, NODE_OUT], model);
    c
}

fn opamp_resistor_follower(model: &str) -> (c: Circuit)
    ensures
        c@ == opamp_resistor_follower_seed(model@),
        ids_below(c@, 21),
{
    let mut c = empty_seed();
    add_small_part(&mut c, 'R', ComponentType::R, 1, vec![NODE_IN, 10], "10k");
    add_small_part(&mut c, 'X', ComponentType::X, 1, vec![10, NODE_OUT, NODE_VCC, NODE_VEE, NODE_OUT], model);
    c
}

fn opamp_ladder_follower(model: &str) -> (c: Circuit)
    ensures
        c@ == opamp_ladder_follower_seed(model@),
        ids_below(c@, 21),
{
    let mut c = empty_seed();
    add_small_part(&mut c, 'R', ComponentType::R, 1, vec![NODE_IN, 10], "10k");
    add_small_part(&mut c, 'R', ComponentType::R, 2, vec![10, 20], "10k");
    add_small_part(&mut c, 'X', ComponentType::X, 1, vec![20, NODE_OUT, NODE_VCC, NODE_VEE, NODE_OUT], model);
    c
}

fn sallen_key() -> (c: Circuit)
    ensures
        c@ == sallen_key_seed(),
        ids_below(c@, 21),
{
    let mut c = empty_seed();
    add_small_part(&mut c, 'R', ComponentType::R, 1, vec![NODE_IN, 10], "10k");
    add_small_part(&mut c, 'R', ComponentType::R, 2, vec![10, 20], "10k");
    add_small_part(&mut c, 'C', ComponentType::C, 1, vec![10, NODE_OUT], "15.9nF");
    add_small_part(&mut c, 'C', ComponentType::C, 2, vec![20, crate::circuit::NODE_GND], "15.9nF");
    add_small_part(&mut c, 'X', ComponentType::X, 1, vec![20, NODE_OUT, NODE_VCC, NODE_VEE, NODE_OUT], "TL072");
    c
}

fn diode_clipper() -> (c: Circuit)
    ensures
        c@ == diode_clipper_seed(),
        ids_below(c@, 21),
{
    let mut c = empty_seed();
    add_small_part(&mut c, 'R', ComponentType::R, 1, vec![NODE_IN, 10], "1k");
    add_small_part(&mut c, 'D', ComponentType::D, 1, vec![10, crate::circuit::NODE_GND], "1N4148");
    add_small_part(&mut c, 'X', ComponentType::X, 1, vec![10, NODE_OUT, NODE_VCC, NODE_VEE, NODE_OUT], "TL072");
    c
}

/// `pop` is an op-amp seed population of `size` for `model` (see `seed_opamp_population`).
pub open spec fn is_opamp_population(pop: Seq<Circuit>, model: Seq<char>, size: int) -> bool {
    &&& pop.len() == if size > 3 {
        size
    } else {
        3
    }
    &&& forall|i: int| 0 <= i < 3 ==> (#[trigger] pop[i])@ == opamp_template(model, i)
    &&& forall|i: int|
        3 <= i < pop.len() ==> ((#[trigger] pop[i])@ == opamp_template(model, i) && fallback_possible(opamp_template(model, i))) || (is_valid_topology(
            pop[i]@.components,
        ) && mutated_once(opamp_template(model, i), pop[i]@))
}

/// A population for an op-amp mission using `model`: the three op-amp
/// templates first, then, cycling through them, each template mutated once
/// (or left as it is when no mutation took).
pub fn seed_opamp_population(model: &str, size: usize) -> (pop: Vec<Circuit>)
    ensures
        is_opamp_population(pop@, model@, size as int),
{
    let t0 = opamp_follower(model);
    let t1 = opamp_resistor_follower(model);
    let t2 = opamp_ladder_follower(model);
    proof {
        lemma_ids_below_weaken(t0@, 21, usize::MAX - 16);
        lemma_ids_below_weaken(t1@, 21, usize::MAX - 16);
        lemma_ids_below_weaken(t2@, 21, usize::MAX - 16);
    }
    let mut pop: Vec<Circuit> = Vec::new();
    pop.push(t0.deep_copy());
    pop.push(t1.deep_copy());
    pop.push(t2.deep_copy());
    while pop.len() < size
        invariant
            t0@ == opamp_template(model@, 0),
            t1@ == opamp_template(model@, 1),
            t2@ == opamp_template(model@, 2),
            within_id_limits(t0@),
            within_id_limits(t1@),
            within_id_limits(t2@),
            3 <= pop.len(),
            pop.len() <= if size > 3 {
                size
            } else {
                3
            },
            forall|i: int| 0 <= i < 3 ==> (#[trigger] pop@[i])@ == opamp_template(model@, i),
            forall|i: int|
                3 <= i < pop.len() ==> ((#[trigger] pop@[i])@ == opamp_template(model@, i) && fallback_possible(opamp_template(model@, i))) || (
                is_valid_topology(pop@[i]@.components) && mutated_once(opamp_template(model@, i), pop@[i]@)),
        decreases size - pop.len(),
    {
        let k = pop.len() % 3;
        let base = if k == 0 {
            &t0
        } else if k == 1 {
            &t1
        } else {
            &t2
        };
        assert(base@ == opamp_template(model@, pop.len() as int));
        let m = mutate(base);
        pop.push(m);
    }
    pop
}

/// The novelty template used at position `i`: the Sallen-Key low-pass at even
/// positions, the diode clipper at odd ones.
pub open spec fn novelty_template(i: int) -> CircuitView {
    if i % 2 == 0 {
        sallen_key_seed()
    } else {
        diode_clipper_seed()
    }
}

/// `pop` is a novelty seed population of `size` (see `seed_novelty_population`).
pub open spec fn is_novelty_population(pop: Seq<Circuit>, size: int) -> bool {
    &&& pop.len() == size
    &&& forall|i: int|
        0 <= i < pop.len() ==> ((#[trigger] pop[i])@ == novelty_template(i) && fallback_possible(novelty_template(i))) || (is_valid_topology(
            pop[i]@.components,
        ) && mutated_once(novelty_template(i), pop[i]@))
}

/// A population for novelty search: `size` circuits, each the Sallen-Key
/// low-pass (even positions) or the diode clipper (odd positions) mutated once
/// (or left as it is when no mutation took).
pub fn seed_novelty_population(size: usize) -> (pop: Vec<Circuit>)
    ensures
        is_novelty_population(pop@, size as int),
{
    let sk = sallen_key();
    let dc = diode_clipper();
    proof {
        lemma_ids_below_weaken(sk@, 21, usize::MAX - 16);
        lemma_ids_below_weaken(dc@, 21, usize::MAX - 16);
    }
    let mut pop: Vec<Circuit> = Vec::new();
    while pop.len() < size
        invariant
            sk@ == novelty_template(0),
            dc@ == novelty_template(1),
            within_id_limits(sk@),
            within_id_limits(dc@),
            pop.len() <= size,
            forall|i: int|
                0 <= i < pop.len() ==> ((#[trigger] pop@[i])@ == novelty_template(i) && fallback_possible(novelty_template(i))) || (
                is_valid_topology(pop@[i]@.components) && mutated_once(novelty_template(i), pop@[i]@)),
        decreases size - pop.len(),
    {
        let base = if pop.len() % 2 == 0 {
            &sk
        } else {
            &dc
        };
        assert(base@ == novelty_template(pop.len() as int));
        let m = mutate(base);
        pop.push(m);
    }
    pop
}

/// The starting population of an evolution run of `size` circuits. Without a
/// preset (`policy` is `None`) it is the novelty population; with a preset
/// that forbids op-amps (`Some((false, _))`) the discrete population; with one
/// that allows them (`Some((true, model))`) the op-amp population for the
/// preset's op-amp model.
pub fn seed_standard_population(policy: Option<(bool, &str)>, size: usize) -> (pop: Vec<Circuit>)
    ensures
        match policy {
            None => is_novelty_population(pop@, size as int),
            Some((allow_opamps, model)) => if allow_opamps {
                is_opamp_population(pop@, model@, size as int)
            } else {
                is_discrete_population(pop@, size as int)
            },
        },
{
    match policy {
        None => seed_novelty_population(size),
        Some((allow_opamps, model)) => if allow_opamps {
            seed_opamp_population(model, size)
        } else {
            seed_discrete_population(size)
        },
    }
}

} // verus!
