use imbik::circuit::{Circuit, Component, ComponentType, NODE_GND, NODE_IN, NODE_OUT, NODE_VCC, NODE_VEE};
use imbik::mutate::{
    bootstrap_at, change_value_at, cross_couple_at, feedback_part_at, remove_component_at, split_resistor_at,
    step_e12_with, step_e24_with, FeedbackDraws, E12_VALUES, E24_VALUES,
};

fn seed() -> Circuit {
    let mut c = Circuit::new();
    c.add_component(Component::new('R', 1, vec![NODE_IN, 10], "10k").unwrap());
    c.add_component(Component::new('R', 2, vec![10, 20], "10k").unwrap());
    c.add_component(Component::new('C', 1, vec![10, NODE_OUT], "15.9nF").unwrap());
    c.add_component(Component::new('C', 2, vec![20, NODE_GND], "15.9nF").unwrap());
    c.add_component(
        Component::new('X', 1, vec![20, NODE_OUT, NODE_VCC, NODE_VEE, NODE_OUT], "TL072").unwrap(),
    );
    c
}

fn draws() -> FeedbackDraws {
    FeedbackDraws { opamp: None, resistor_coin: false, e24: 0, e12: 0, tie: 0, bjt: None, bias: 0 }
}

#[test]
fn stepping_for_given_coin_and_fallback() {
    assert_eq!(step_e24_with("10k", true, 0), "11k");
    assert_eq!(step_e24_with("10k", false, 0), "9.1k");
    assert_eq!(step_e24_with("10K", true, 0), "11k");
    assert_eq!(step_e24_with("10", false, 5), "10");
    assert_eq!(step_e24_with("1Meg", true, 5), "1Meg");
    assert_eq!(step_e24_with("4.75k", true, 7), E24_VALUES[7]);
    assert_eq!(step_e12_with("1nF", true, 0), "1.2nF");
    assert_eq!(step_e12_with("1nF", false, 0), "820pF");
    assert_eq!(step_e12_with("10uF", true, 0), "10uF");
    assert_eq!(step_e12_with("15.9nF", false, 3), "18pF");
}

#[test]
fn change_value_converts_on_low_rolls_and_steps_otherwise() {
    let mut c = seed();
    change_value_at(&mut c, 0, 0, true, 5, 10);
    assert_eq!(c.components[0].comp_type, ComponentType::C);
    assert_eq!(c.components[0].value, "68pF");
    assert_eq!(c.components[0].id, 1);
    assert_eq!(c.components[0].nodes, vec![NODE_IN, 10]);

    let mut c = seed();
    change_value_at(&mut c, 0, 14, true, 5, 10);
    assert_eq!(c.components[0].comp_type, ComponentType::C);

    let mut c = seed();
    change_value_at(&mut c, 0, 15, true, 5, 10);
    assert_eq!(c.components[0].comp_type, ComponentType::R);
    assert_eq!(c.components[0].value, "11k");

    let mut c = seed();
    change_value_at(&mut c, 0, 99, false, 5, 10);
    assert_eq!(c.components[0].value, "9.1k");

    // A capacitor value outside E12 takes the drawn entry.
    let mut c = seed();
    change_value_at(&mut c, 2, 50, true, 5, 36);
    assert_eq!(c.components[2].comp_type, ComponentType::C);
    assert_eq!(c.components[2].value, "10nF");

    let mut c = seed();
    change_value_at(&mut c, 2, 3, true, 48, 36);
    assert_eq!(c.components[2].comp_type, ComponentType::R);
    assert_eq!(c.components[2].value, "1k");
    let before = seed();
    assert_eq!(c.components.len(), before.components.len());
    assert_eq!(c.nodes, before.nodes);
}

#[test]
fn remove_takes_out_the_drawn_component() {
    let mut c = seed();
    let before = c.clone();
    remove_component_at(&mut c, 1);
    assert_eq!(c.components.len(), 4);
    assert_eq!(c.components[0], before.components[0]);
    assert_eq!(c.components[1], before.components[2]);
    assert_eq!(c.nodes, before.nodes);
}

#[test]
fn split_cuts_the_drawn_resistor_at_a_fresh_node() {
    let mut c = seed();
    assert!(split_resistor_at(&mut c, 1));
    assert_eq!(c.components.len(), 6);
    assert_eq!(c.components[1].nodes, vec![10, 21]);
    assert_eq!(c.components[5].comp_type, ComponentType::R);
    assert_eq!(c.components[5].id, 3);
    assert_eq!(c.components[5].nodes, vec![21, 20]);
    assert_eq!(c.components[5].value, "10k");
    assert!(c.nodes.contains(&21));
}

fn bjt_stage() -> Circuit {
    let mut c = Circuit::new();
    c.add_component(Component::new('Q', 1, vec![NODE_VCC, 10, NODE_OUT], "2N3904").unwrap());
    c.add_component(Component::new('R', 1, vec![NODE_IN, 10], "47k").unwrap());
    c
}

#[test]
fn bootstrap_for_given_draws() {
    let mut c = bjt_stage();
    bootstrap_at(&mut c, 0, 1, 48, true);
    assert_eq!(c.components.len(), 4);
    assert_eq!(c.components[1].nodes, vec![NODE_IN, 21]);
    assert_eq!(c.components[2].comp_type, ComponentType::R);
    assert_eq!(c.components[2].id, 2);
    assert_eq!(c.components[2].nodes, vec![21, 10]);
    assert_eq!(c.components[2].value, "1k");
    assert_eq!(c.components[3].comp_type, ComponentType::C);
    assert_eq!(c.components[3].id, 1);
    assert_eq!(c.components[3].nodes, vec![NODE_OUT, 21]);
    assert_eq!(c.components[3].value, "10uF");
    assert!(c.nodes.contains(&21));

    let mut c = bjt_stage();
    bootstrap_at(&mut c, 0, 1, 0, false);
    assert_eq!(c.components[2].value, "10");
    assert_eq!(c.components[3].value, "1uF");
}

fn two_opamps() -> Circuit {
    let mut c = Circuit::new();
    c.add_component(
        Component::new('X', 1, vec![20, NODE_OUT, NODE_VCC, NODE_VEE, NODE_OUT], "TL072").unwrap(),
    );
    c.add_component(Component::new('X', 2, vec![10, 30, NODE_VCC, NODE_VEE, 30], "TL072").unwrap());
    c
}

#[test]
fn cross_coupling_for_given_draws() {
    let mut c = two_opamps();
    assert!(cross_couple_at(&mut c, 0, 1, 1, 72));
    assert_eq!(c.components.len(), 3);
    assert_eq!(c.components[2].comp_type, ComponentType::R);
    assert_eq!(c.components[2].id, 1);
    assert_eq!(c.components[2].nodes, vec![NODE_OUT, 30]);
    assert_eq!(c.components[2].value, "10k");

    let mut c = two_opamps();
    assert!(cross_couple_at(&mut c, 1, 0, 0, 0));
    assert_eq!(c.components[2].nodes, vec![30, 20]);
    assert_eq!(c.components[2].value, "10");

    // Op-amp 1's inputs are both op-amp 0's output: nothing to couple.
    let mut c = Circuit::new();
    c.add_component(
        Component::new('X', 1, vec![20, NODE_OUT, NODE_VCC, NODE_VEE, NODE_OUT], "TL072").unwrap(),
    );
    c.add_component(
        Component::new('X', 2, vec![NODE_OUT, NODE_OUT, NODE_VCC, NODE_VEE, 30], "TL072").unwrap(),
    );
    let before = c.clone();
    assert!(!cross_couple_at(&mut c, 0, 1, 0, 0));
    assert_eq!(c, before);
}

#[test]
fn feedback_for_given_draws() {
    // Follower: output and inverting input coincide, so a capacitor goes to the tie point.
    let mut c = seed();
    let d = FeedbackDraws { opamp: Some(4), tie: 10, e12: 36, ..draws() };
    assert!(feedback_part_at(&mut c, d));
    assert_eq!(c.components.len(), 6);
    assert_eq!(c.components[5].comp_type, ComponentType::C);
    assert_eq!(c.components[5].id, 3);
    assert_eq!(c.components[5].nodes, vec![NODE_OUT, 10]);
    assert_eq!(c.components[5].value, "10nF");

    let mut c = Circuit::new();
    c.add_component(Component::new('X', 1, vec![20, 10, NODE_VCC, NODE_VEE, NODE_OUT], "TL072").unwrap());
    let d = FeedbackDraws { opamp: Some(0), resistor_coin: true, e24: 72, ..draws() };
    assert!(feedback_part_at(&mut c, d));
    assert_eq!(c.components[1].comp_type, ComponentType::R);
    assert_eq!(c.components[1].nodes, vec![NODE_OUT, 10]);
    assert_eq!(c.components[1].value, "10k");

    let mut c = Circuit::new();
    c.add_component(Component::new('X', 1, vec![20, 10, NODE_VCC, NODE_VEE, NODE_OUT], "TL072").unwrap());
    let d = FeedbackDraws { opamp: Some(0), resistor_coin: false, e12: 60, ..draws() };
    assert!(feedback_part_at(&mut c, d));
    assert_eq!(c.components[1].comp_type, ComponentType::C);
    assert_eq!(c.components[1].value, E12_VALUES[60]);
}

#[test]
fn biasing_resistor_for_given_draws() {
    let mut c = bjt_stage();
    let d = FeedbackDraws { bjt: Some(0), bias: 0, e24: 72, ..draws() };
    assert!(feedback_part_at(&mut c, d));
    assert_eq!(c.components[2].comp_type, ComponentType::R);
    assert_eq!(c.components[2].id, 2);
    assert_eq!(c.components[2].nodes, vec![NODE_VCC, 10]);
    assert_eq!(c.components[2].value, "10k");

    let mut c = bjt_stage();
    let d = FeedbackDraws { bjt: Some(0), bias: 1, e24: 0, ..draws() };
    assert!(feedback_part_at(&mut c, d));
    assert_eq!(c.components[2].nodes, vec![10, NODE_GND]);

    let mut c = bjt_stage();
    let d = FeedbackDraws { bjt: Some(0), bias: 2, e24: 0, ..draws() };
    assert!(feedback_part_at(&mut c, d));
    assert_eq!(c.components[2].nodes, vec![NODE_OUT, NODE_GND]);

    // A grounded base takes no base-GND resistor.
    let mut c = Circuit::new();
    c.add_component(Component::new('Q', 1, vec![NODE_VCC, NODE_GND, NODE_OUT], "2N3904").unwrap());
    let before = c.clone();
    let d = FeedbackDraws { bjt: Some(0), bias: 1, ..draws() };
    assert!(!feedback_part_at(&mut c, d));
    assert_eq!(c, before);
}
