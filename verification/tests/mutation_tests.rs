use imbik::circuit::{Circuit, Component, ComponentType, NODE_GND, NODE_IN, NODE_OUT, NODE_VCC, NODE_VEE};
use imbik::evolution::{
    mutate, mutate_with_stats, operator_roll_range, pick_operator, record_round, seed_discrete_population, seed_novelty_population,
    seed_opamp_population, seed_standard_population, MutationStats,
};
use imbik::mutate::{
    add_component_with, move_terminal_with, AddDraws,
    mutate_add_bootstrap, mutate_add_component, mutate_add_feedback, mutate_change_value,
    mutate_cross_coupling, mutate_move_terminal, mutate_remove_component, mutate_split_resistor,
    converts_kind, part_for_roll, step_e12, step_e24, E12_VALUES, E24_VALUES,
};

fn make_seed_circuit() -> Circuit {
    let mut c = Circuit::new();
    c.add_component(Component::new('R', 1, vec![NODE_IN, 10], "10k").unwrap());
    c.add_component(Component::new('R', 2, vec![10, 20], "10k").unwrap());
    c.add_component(Component::new('C', 1, vec![10, NODE_OUT], "15.9nF").unwrap());
    c.add_component(Component::new('C', 2, vec![20, NODE_GND], "15.9nF").unwrap());
    c.add_component(
        Component::new('X', 1, vec![20, NODE_OUT, NODE_VCC, NODE_VEE, NODE_OUT], "TL072").unwrap(),
    );
    c.validate().unwrap();
    c
}

#[test]
fn test_1000_mutations_validity() {
    let mut current = make_seed_circuit();
    let mut stats = MutationStats::new();
    let forbidden = ['E', 'e', 'F', 'f', 'G', 'g', 'H', 'h', 'B', 'b', 'A', 'a'];
    for iter in 0..1000 {
        current = mutate_with_stats(&current, &mut stats);
        let val_res = current.validate();
        assert!(val_res.is_ok(), "Mutation #{} produced invalid circuit: {:?}", iter, val_res.err());
        for comp in &current.components {
            let letter = comp.comp_type.to_char();
            assert!(!forbidden.contains(&letter), "Forbidden letter '{}' found in mutation #{}", letter, iter);
        }
    }
    println!(
        "Telemetry: calls {} successes {} fallbacks {} attempts {:?} op successes {:?}",
        stats.total_calls, stats.successful_mutations, stats.fallbacks, stats.op_attempts, stats.op_successes
    );
    let fallback_rate = (stats.fallbacks as f64 / stats.total_calls as f64) * 100.0;
    assert!(fallback_rate < 5.0, "Fallback rate ({:.1}%) is too high! Operators are failing.", fallback_rate);
}

#[test]
fn test_random_walk_diversity() {
    let seed = make_seed_circuit();
    let mut current = seed.clone();
    let mut min_comps = current.components.len();
    let mut max_comps = current.components.len();
    for _ in 0..200 {
        current = mutate(&current);
        let len = current.components.len();
        min_comps = min_comps.min(len);
        max_comps = max_comps.max(len);
    }
    assert!(max_comps <= 18, "Circuit bloated beyond soft limit: max = {}", max_comps);
    assert!(min_comps >= 3, "Circuit eroded below viable minimum: min = {}", min_comps);
    assert_ne!(current.components.len(), 0, "Circuit components should not be empty");
}

#[test]
fn test_e24_e12_stepping() {
    let next_r = step_e24("10k");
    assert!(next_r == "9.1k" || next_r == "11k");
    let next_c = step_e12("10nF");
    assert!(next_c == "8.2nF" || next_c == "12nF");
}

#[test]
fn stepping_stays_in_table_at_both_ends_and_ignores_case() {
    for _ in 0..50 {
        let top = step_e24("1meg");
        assert!(top == "1Meg" || top == "910k");
        let bottom = step_e12("10PF");
        assert!(bottom == "10pF" || bottom == "12pF");
        let unknown = step_e24("banana");
        assert!(E24_VALUES.contains(&unknown));
        let unknown_c = step_e12("");
        assert!(E12_VALUES.contains(&unknown_c));
    }
}

#[test]
fn test_feedback_operator() {
    let mut c = make_seed_circuit();
    let initial_comp_count = c.components.len();
    let success = mutate_add_feedback(&mut c);
    assert!(success);
    assert_eq!(c.components.len(), initial_comp_count + 1);
    assert!(c.validate().is_ok());
}

#[test]
fn test_bootstrap_operator_creates_valid_topology() {
    let seeds = seed_discrete_population(1);
    let mut bjt_circuit = seeds[0].clone();
    let initial_count = bjt_circuit.components.len();
    let success = mutate_add_bootstrap(&mut bjt_circuit);
    assert!(success, "mutate_add_bootstrap must succeed on standard discrete follower");
    assert_eq!(
        bjt_circuit.components.len(),
        initial_count + 2,
        "Bootstrap adds 1 isolation resistor and 1 bootstrap cap"
    );
    assert!(bjt_circuit.validate().is_ok(), "Bootstrapped circuit must pass topological validation");
}

#[test]
fn test_q_toggle_preserves_active_bias() {
    let seeds = seed_discrete_population(1);
    let mut circuit = seeds[0].clone();
    let q_idx = circuit.components.iter().position(|c| c.comp_type == ComponentType::Q).unwrap();
    assert!(circuit.components[q_idx].value.contains("3904"));
    let orig_c = circuit.components[q_idx].nodes[0];
    let orig_e = circuit.components[q_idx].nodes[2];
    let base_node = circuit.components[q_idx].nodes[1];
    let mut initial_r_vcc = String::new();
    let mut initial_r_vee = String::new();
    for c in &circuit.components {
        if c.comp_type == ComponentType::R && (c.nodes[0] == base_node || c.nodes[1] == base_node) {
            let other = if c.nodes[0] == base_node { c.nodes[1] } else { c.nodes[0] };
            if other == NODE_VCC {
                initial_r_vcc = c.value.clone();
            } else if other == NODE_VEE || other == NODE_GND {
                initial_r_vee = c.value.clone();
            }
        }
    }
    let mut toggled = false;
    for _ in 0..100 {
        let mut trial = circuit.clone();
        if mutate_change_value(&mut trial) && trial.components[q_idx].value.contains("3906") {
            circuit = trial;
            toggled = true;
            break;
        }
    }
    assert!(toggled, "mutate_change_value must eventually toggle Q");
    assert!(circuit.components[q_idx].value.contains("3906"));
    assert_eq!(circuit.components[q_idx].nodes[0], orig_e);
    assert_eq!(circuit.components[q_idx].nodes[2], orig_c);
    for c in &circuit.components {
        if c.comp_type == ComponentType::R && (c.nodes[0] == base_node || c.nodes[1] == base_node) {
            let other = if c.nodes[0] == base_node { c.nodes[1] } else { c.nodes[0] };
            if other == NODE_VCC {
                assert_eq!(c.value, initial_r_vee);
            } else if other == NODE_VEE || other == NODE_GND {
                assert_eq!(c.value, initial_r_vcc);
            }
        }
    }
    assert!(circuit.validate().is_ok());
}

#[test]
fn remove_needs_three_components_and_a_removable_part() {
    let mut two = Circuit::new();
    two.add_component(Component::new('R', 1, vec![NODE_IN, NODE_OUT], "1k").unwrap());
    two.add_component(Component::new('R', 2, vec![NODE_OUT, NODE_GND], "1k").unwrap());
    let before = two.clone();
    assert!(!mutate_remove_component(&mut two));
    assert_eq!(two, before);

    let mut c = make_seed_circuit();
    assert!(mutate_remove_component(&mut c));
    assert_eq!(c.components.len(), 4);
    assert!(c.components.iter().any(|p| p.comp_type == ComponentType::X));
}

#[test]
fn change_value_without_values_to_change_leaves_circuit() {
    let mut c = Circuit::new();
    c.add_component(Component::new('D', 1, vec![NODE_IN, NODE_OUT], "1N4148").unwrap());
    let before = c.clone();
    assert!(!mutate_change_value(&mut c));
    assert_eq!(c, before);
}

#[test]
fn split_resistor_inserts_series_half() {
    let mut c = Circuit::new();
    c.add_component(Component::new('R', 1, vec![NODE_IN, NODE_OUT], "4.7k").unwrap());
    assert!(mutate_split_resistor(&mut c));
    assert_eq!(c.components.len(), 2);
    assert_eq!(c.components[0].nodes, vec![NODE_IN, 21]);
    assert_eq!(c.components[1].comp_type, ComponentType::R);
    assert_eq!(c.components[1].id, 2);
    assert_eq!(c.components[1].nodes, vec![21, NODE_OUT]);
    assert_eq!(c.components[1].value, "4.7k");
    assert!(c.nodes.contains(&21));

    let mut no_r = Circuit::new();
    no_r.add_component(Component::new('C', 1, vec![NODE_IN, NODE_OUT], "1uF").unwrap());
    let before = no_r.clone();
    assert!(!mutate_split_resistor(&mut no_r));
    assert_eq!(no_r, before);
}

#[test]
fn bootstrap_without_base_resistor_changes_nothing() {
    let mut c = Circuit::new();
    c.add_component(Component::new('Q', 1, vec![NODE_VCC, NODE_IN, NODE_OUT], "2N3904").unwrap());
    c.add_component(Component::new('R', 1, vec![NODE_OUT, NODE_VEE], "4.7k").unwrap());
    let before = c.clone();
    assert!(!mutate_add_bootstrap(&mut c));
    assert_eq!(c, before);
}

#[test]
fn operators_keep_ids_fresh() {
    for _ in 0..50 {
        let mut c = make_seed_circuit();
        if mutate_add_component(&mut c) {
            let added = &c.components[5];
            let same_type_ids: Vec<usize> = c.components[..5]
                .iter()
                .filter(|p| p.comp_type == added.comp_type)
                .map(|p| p.id)
                .collect();
            assert!(!same_type_ids.contains(&added.id));
        }
        let mut m = make_seed_circuit();
        let before = m.clone();
        if !mutate_move_terminal(&mut m) {
            assert_eq!(m, before);
        }
        let mut x = make_seed_circuit();
        if mutate_cross_coupling(&mut x) {
            assert!(x.components.len() >= 6);
        }
    }
}

#[test]
fn operator_choice_follows_circuit_size() {
    for roll in 0..10u8 {
        let big = pick_operator(16, roll);
        assert!(big == 0 || big == 2 || big == 3);
        assert!(pick_operator(13, roll) <= 3);
    }
    for roll in 0..100u8 {
        let small = pick_operator(4, roll);
        assert!(small != 2 && small != 5);
    }
    assert_eq!(pick_operator(16, 4), 2);
    assert_eq!(pick_operator(16, 8), 0);
    assert_eq!(pick_operator(16, 9), 3);
    assert_eq!(pick_operator(14, 9), 1);
    assert_eq!(pick_operator(3, 50), 6);
    assert_eq!(pick_operator(3, 99), 7);
    assert_eq!(pick_operator(8, 98), 5);
    assert_eq!(pick_operator(8, 25), 0);
    assert_eq!(pick_operator(8, 26), 1);
}

#[test]
fn stats_count_every_call() {
    let mut stats = MutationStats::new();
    let seed = make_seed_circuit();
    for _ in 0..20 {
        let _ = mutate_with_stats(&seed, &mut stats);
    }
    assert_eq!(stats.total_calls, 20);
    assert_eq!(stats.successful_mutations + stats.fallbacks, 20);
    let attempts: usize = stats.op_attempts.iter().sum();
    assert!(attempts >= 20 && attempts <= 200);
    for k in 0..8 {
        assert!(stats.op_successes[k] <= stats.op_attempts[k]);
    }
}

#[test]
fn large_circuits_never_grow() {
    let mut c = Circuit::new();
    let mut prev = NODE_IN;
    for k in 0..16usize {
        let next = if k == 15 { NODE_OUT } else { 30 + k };
        c.add_component(Component::new('R', k + 1, vec![prev, next], "1k").unwrap());
        prev = next;
    }
    c.add_component(Component::new('R', 17, vec![NODE_OUT, NODE_GND], "1k").unwrap());
    assert!(c.validate().is_ok());
    for _ in 0..100 {
        let m = mutate(&c);
        assert!(m.components.len() <= c.components.len());
        assert!(m.validate().is_ok());
    }
}

#[test]
fn discrete_population_has_no_opamps() {
    let pop = seed_discrete_population(12);
    assert_eq!(pop.len(), 12);
    assert_eq!(pop[0].components.len(), 5);
    assert_eq!(pop[1].components.len(), 7);
    assert_eq!(pop[2].components[0].value, "2N3906");
    for c in &pop {
        assert!(c.components.iter().all(|p| p.comp_type != ComponentType::X));
    }
    assert_eq!(seed_discrete_population(0).len(), 3);
}

#[test]
fn opamp_and_novelty_populations() {
    let pop = seed_opamp_population("OPA2134", 5);
    assert_eq!(pop.len(), 5);
    assert_eq!(pop[0].components.len(), 1);
    assert_eq!(pop[0].components[0].value, "OPA2134");
    assert_eq!(pop[0].components[0].nodes, vec![NODE_IN, NODE_OUT, NODE_VCC, NODE_VEE, NODE_OUT]);
    assert_eq!(pop[2].components.len(), 3);
    let novelty = seed_novelty_population(4);
    assert_eq!(novelty.len(), 4);
    for c in &novelty {
        assert!(c.validate().is_ok());
    }
    assert_eq!(seed_standard_population(None, 0).len(), 0);
    assert_eq!(seed_standard_population(Some((true, "TL072")), 2).len(), 3);
    let discrete = seed_standard_population(Some((false, "TL072")), 4);
    assert_eq!(discrete[0].components[0].value, "2N3904");
}

#[test]
fn operators_succeed_whatever_is_drawn_when_every_choice_works() {
    for _ in 0..50 {
        // Every op-amp has its inverting input apart from its output.
        let mut fb = make_seed_circuit();
        let n = fb.components.len();
        assert!(mutate_add_feedback(&mut fb));
        assert_eq!(fb.components.len(), n + 1);

        // Two op-amps that can be coupled either way round.
        let mut two = Circuit::new();
        two.add_component(
            Component::new('X', 1, vec![NODE_IN, 10, NODE_VCC, NODE_VEE, 20], "TL072").unwrap(),
        );
        two.add_component(
            Component::new('X', 2, vec![20, 30, NODE_VCC, NODE_VEE, NODE_OUT], "TL072").unwrap(),
        );
        assert!(mutate_cross_coupling(&mut two));
        assert_eq!(two.components.len(), 3);

        // A transistor with a resistor on its base.
        let mut boot = Circuit::new();
        boot.add_component(Component::new('Q', 1, vec![NODE_VCC, 10, NODE_OUT], "2N3904").unwrap());
        boot.add_component(Component::new('R', 1, vec![NODE_IN, 10], "10k").unwrap());
        assert!(mutate_add_bootstrap(&mut boot));

        // Resistors whose ends are registered nodes can always be split.
        let mut split = make_seed_circuit();
        assert!(mutate_split_resistor(&mut split));
    }
}

#[test]
fn roll_ranges_and_roll_decisions() {
    assert_eq!(operator_roll_range(3), 100);
    assert_eq!(operator_roll_range(12), 100);
    assert_eq!(operator_roll_range(13), 10);
    assert_eq!(operator_roll_range(40), 10);
    let conversions = (0..100u8).filter(|r| converts_kind(*r)).count();
    assert_eq!(conversions, 15);
    let count = |t: ComponentType, has_opamp: bool| {
        (0..100u8).filter(|r| part_for_roll(*r, has_opamp) == t).count()
    };
    assert_eq!(count(ComponentType::R, false), 35);
    assert_eq!(count(ComponentType::C, true), 30);
    assert_eq!(count(ComponentType::D, false), 10);
    assert_eq!(count(ComponentType::Q, false), 25);
    assert_eq!(count(ComponentType::X, true), 25);
    assert_eq!(count(ComponentType::Q, true), 0);
}

#[test]
fn one_round_of_bookkeeping() {
    let mut stats = MutationStats::new();
    record_round(&mut stats, 3, false, false);
    record_round(&mut stats, 3, true, false);
    record_round(&mut stats, 6, true, true);
    assert_eq!(stats.op_attempts, [0, 0, 0, 2, 0, 0, 1, 0]);
    assert_eq!(stats.op_successes, [0, 0, 0, 1, 0, 0, 1, 0]);
    assert_eq!(stats.successful_mutations, 1);
    assert_eq!(stats.total_calls, 0);
    assert_eq!(stats.fallbacks, 0);
}

fn no_draws() -> AddDraws {
    AddDraws {
        roll: 0,
        pair: None,
        e24_index: 0,
        e12_index: 0,
        diode_coin: false,
        npn: false,
        base: 0,
        collector_roll: 0,
        collector: 0,
        emitter_roll: 0,
        emitter_coin: false,
        resistor_coin: false,
        opamp_roll: 0,
        non_inv: 0,
        target_coin: false,
        target: 0,
    }
}

#[test]
fn operator_two_for_given_draws() {
    // A resistor on the drawn pair with the drawn E24 value.
    let mut c = make_seed_circuit();
    let d = AddDraws { roll: 10, pair: Some((NODE_IN, 20)), e24_index: 48, ..no_draws() };
    assert!(add_component_with(&mut c, d));
    let r = c.components.last().unwrap();
    assert_eq!((r.comp_type, r.id, r.nodes.clone(), r.value.as_str()), (ComponentType::R, 3, vec![NODE_IN, 20], "1k"));

    // No pair found: nothing added.
    let mut c = make_seed_circuit();
    let before = c.clone();
    assert!(!add_component_with(&mut c, AddDraws { roll: 40, ..no_draws() }));
    assert_eq!(c, before);

    // A diode next to an op-amp needs its coin.
    let mut c = make_seed_circuit();
    assert!(!add_component_with(&mut c, AddDraws { roll: 70, pair: Some((10, 20)), ..no_draws() }));
    assert!(add_component_with(
        &mut c,
        AddDraws { roll: 70, pair: Some((10, 20)), diode_coin: true, ..no_draws() }
    ));
    assert_eq!(c.components.last().unwrap().value, "1N4148");

    // An NPN transistor from VCC, base on IN, emitter on OUT, with its 10k
    // emitter resistor to VEE, in a circuit without op-amps.
    let mut c = Circuit::new();
    c.add_component(Component::new('R', 1, vec![NODE_IN, NODE_OUT], "10k").unwrap());
    let base = c.nodes.iter().position(|n| *n == NODE_IN).unwrap();
    let d = AddDraws { roll: 90, npn: true, base, collector_roll: 0, emitter_roll: 0, ..no_draws() };
    assert!(add_component_with(&mut c, d));
    assert_eq!(c.components.len(), 3);
    assert_eq!(c.components[1].nodes, vec![NODE_VCC, NODE_IN, NODE_OUT]);
    assert_eq!(c.components[1].value, "2N3904");
    assert_eq!(c.components[2].nodes, vec![NODE_OUT, NODE_VEE]);
    assert_eq!(c.components[2].value, "10k");

    // A second op-amp only on a roll below 5.
    let mut c = make_seed_circuit();
    assert!(!add_component_with(&mut c, AddDraws { roll: 90, opamp_roll: 50, ..no_draws() }));
    assert!(add_component_with(&mut c, AddDraws { roll: 90, opamp_roll: 3, target_coin: true, ..no_draws() }));
    assert_eq!(c.components.len(), 7);
    assert_eq!(c.components[5].value, "TL072");
    assert_eq!(c.components[6].nodes[1], NODE_OUT);
}

#[test]
fn operator_four_for_given_draws() {
    let mut c = make_seed_circuit();
    // R1 (IN-10): moving its first pin to 10 would short it.
    let before = c.clone();
    assert!(!move_terminal_with(&mut c, 0, 0, 10));
    assert_eq!(c, before);
    assert!(move_terminal_with(&mut c, 0, 0, 20));
    assert_eq!(c.components[0].nodes, vec![20, 10]);
    // The op-amp's output may not go to a rail.
    assert!(!move_terminal_with(&mut c, 4, 4, NODE_VCC));
    assert!(move_terminal_with(&mut c, 4, 4, 10));
    assert_eq!(c.components[4].nodes[4], 10);
}
