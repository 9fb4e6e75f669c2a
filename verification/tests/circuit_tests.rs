use imbik::circuit::{
    standard_spice_headers, Circuit, CircuitError, Component, ComponentType, NODE_GND, NODE_IN,
    NODE_OUT, NODE_VCC, NODE_VEE,
};
use imbik::netlist::{to_characterization_netlist, to_op_netlist};

fn follower() -> Circuit {
    let mut c = Circuit::new();
    c.add_component(Component::new('Q', 1, vec![NODE_VCC, 10, NODE_OUT], "2N3904").unwrap());
    c.add_component(Component::new('R', 1, vec![NODE_VCC, 10], "100k").unwrap());
    c.add_component(Component::new('R', 2, vec![10, NODE_VEE], "110k").unwrap());
    c.add_component(Component::new('R', 3, vec![NODE_OUT, NODE_VEE], "4.7k").unwrap());
    c.add_component(Component::new('C', 1, vec![NODE_IN, 10], "1uF").unwrap());
    c
}

#[test]
fn every_netlist_generator_declares_every_device_model() {
    let c = follower();
    c.validate().unwrap();
    let generated = [
        ("to_netlist", c.to_netlist("t")),
        ("to_characterization_netlist", to_characterization_netlist(&c, "t", Some("22.00pF"))),
        ("to_op_netlist", to_op_netlist(&c)),
    ];
    for (name, netlist) in &generated {
        for required in [".model 2N3904", ".model 2N3906", ".model 1N4148", "tl072.sub"] {
            assert!(
                netlist.contains(required),
                "netlist generator `{}` does not declare `{}`",
                name,
                required
            );
        }
    }
}

#[test]
fn test_whitelist_enforcement() {
    let forbidden = ['E', 'e', 'F', 'f', 'G', 'g', 'H', 'h', 'B', 'b', 'A', 'a'];
    for &letter in &forbidden {
        let res = Component::new(letter, 1, vec![1, 2], "1.0");
        assert!(
            matches!(res, Err(CircuitError::ForbiddenComponentType(_))),
            "Letter '{}' should be strictly forbidden",
            letter
        );
    }
    assert!(Component::new('R', 1, vec![1, 2], "1k").is_ok());
    assert!(Component::new('C', 1, vec![1, 2], "100n").is_ok());
    assert!(Component::new('D', 1, vec![1, 2], "1N4148").is_ok());
    assert!(Component::new('X', 1, vec![20, 2, 3, 4, 2], "TL072").is_ok());
    assert!(Component::new('V', 1, vec![1, 0], "5").is_ok());
    assert!(Component::new('I', 1, vec![1, 0], "1m").is_ok());
}

#[test]
fn test_validation_rules() {
    let shorted_res = Component::new('R', 1, vec![5, 5], "1k");
    assert!(matches!(shorted_res, Err(CircuitError::ShortedComponent { .. })));

    let mut c_float = Circuit::new();
    c_float.add_component(Component::new('R', 1, vec![NODE_IN, 10], "1k").unwrap());
    c_float.add_component(Component::new('R', 2, vec![NODE_OUT, NODE_GND], "1k").unwrap());
    let float_val = c_float.validate();
    assert!(matches!(float_val, Err(CircuitError::FloatingNode(10))));

    let mut c_island = Circuit::new();
    c_island.add_component(Component::new('R', 1, vec![NODE_IN, NODE_OUT], "1k").unwrap());
    c_island.add_component(Component::new('R', 2, vec![NODE_OUT, NODE_GND], "1k").unwrap());
    c_island.add_component(Component::new('R', 3, vec![50, 60], "1k").unwrap());
    c_island.add_component(Component::new('R', 4, vec![60, 50], "2k").unwrap());
    let island_val = c_island.validate();
    assert!(matches!(island_val, Err(CircuitError::NoPathToGround(50 | 60))));
}

#[test]
fn component_type_letters_round_trip() {
    let all = [
        ComponentType::R,
        ComponentType::C,
        ComponentType::D,
        ComponentType::Q,
        ComponentType::X,
        ComponentType::V,
        ComponentType::I,
    ];
    for t in all {
        assert_eq!(ComponentType::from_char(t.to_char()), Ok(t));
        assert_eq!(ComponentType::from_char(t.to_char().to_ascii_lowercase()), Ok(t));
    }
    assert_eq!(ComponentType::from_char('z'), Err(CircuitError::InvalidComponentType('Z')));
    assert_eq!(ComponentType::from_char('b'), Err(CircuitError::ForbiddenComponentType('b')));
}

#[test]
fn component_new_reports_missing_pins_and_shorted_transistor() {
    let pins = Component::new('Q', 7, vec![1, 2], "2N3904");
    assert_eq!(
        pins,
        Err(CircuitError::InsufficientPins { comp: "Q7".to_string(), got: 2, expected: 3 })
    );
    let q = Component::new('q', 3, vec![4, 4, 4], "2N3904");
    assert_eq!(q, Err(CircuitError::ShortedComponent { comp: "Q3".to_string(), node: 4 }));
    let ok = Component::new('q', 3, vec![4, 4, 5], "2N3904").unwrap();
    assert_eq!(ok.comp_type, ComponentType::Q);
    assert_eq!(ok.value, "2N3904");
}

#[test]
fn circuit_error_messages() {
    assert_eq!(CircuitError::InvalidComponentType('Z').message(), "Invalid component type: 'Z'");
    assert_eq!(
        CircuitError::ForbiddenComponentType('e').message(),
        "Component type 'e' is strictly forbidden (E, F, G, H, B, A are not allowed)"
    );
    assert_eq!(
        CircuitError::InsufficientPins { comp: "Q7".to_string(), got: 2, expected: 3 }.message(),
        "Component Q7 has 2 pins, expected at least 3"
    );
    assert_eq!(
        CircuitError::ShortedComponent { comp: "R1".to_string(), node: 5 }.message(),
        "Component R1 has shorted terminals on node 5"
    );
    assert_eq!(CircuitError::EmptyCircuit.message(), "Circuit has no components");
    assert_eq!(
        CircuitError::FloatingNode(10).message(),
        "Node 10 is floating (less than 2 connections)"
    );
    assert_eq!(
        CircuitError::DisconnectedEssentialNode("IN (node 1)".to_string()).message(),
        "Essential node IN (node 1) is not connected"
    );
    assert_eq!(
        CircuitError::NoPathToGround(50).message(),
        "Node 50 has no conductive path to ground"
    );
}

#[test]
fn validation_reports_each_rule_in_order() {
    assert_eq!(Circuit::new().validate(), Err(CircuitError::EmptyCircuit));

    let mut shorted = Circuit::new();
    shorted.components.push(Component {
        comp_type: ComponentType::R,
        id: 4,
        nodes: vec![7, 7],
        value: "1k".to_string(),
    });
    assert_eq!(
        shorted.validate(),
        Err(CircuitError::ShortedComponent { comp: "R4".to_string(), node: 7 })
    );

    let mut no_in = Circuit::new();
    no_in.add_component(Component::new('R', 1, vec![NODE_OUT, NODE_GND], "1k").unwrap());
    assert_eq!(
        no_in.validate(),
        Err(CircuitError::DisconnectedEssentialNode("IN (node 1)".to_string()))
    );

    let mut no_out = Circuit::new();
    no_out.add_component(Component::new('R', 1, vec![NODE_IN, NODE_GND], "1k").unwrap());
    assert_eq!(
        no_out.validate(),
        Err(CircuitError::DisconnectedEssentialNode("OUT (node 2)".to_string()))
    );

    assert_eq!(follower().validate(), Ok(()));
}

#[test]
fn new_circuit_registers_fixed_nodes_and_rails() {
    let c = Circuit::new();
    assert_eq!(c.nodes, vec![NODE_GND, NODE_IN, NODE_OUT, NODE_VCC, NODE_VEE]);
    assert!(c.components.is_empty());
    assert_eq!(c.vcc_centivolts, 900);
    assert_eq!(c.vee_centivolts, -900);
    let mut d = Circuit::default();
    d.add_component(Component::new('R', 1, vec![NODE_IN, 33, 33], "1k").unwrap());
    assert_eq!(d.nodes, vec![NODE_GND, NODE_IN, NODE_OUT, NODE_VCC, NODE_VEE, 33]);
}

#[test]
fn netlist_text_is_exact() {
    let mut c = Circuit::new();
    c.add_component(Component::new('R', 1, vec![NODE_IN, NODE_OUT], "10k").unwrap());
    c.add_component(Component::new('C', 12, vec![NODE_OUT, NODE_GND], "15.9nF").unwrap());
    c.vcc_centivolts = 1205;
    c.vee_centivolts = -5;
    let expected = format!(
        "* Demo\n{}V_in 1 0 dc 0 ac 1\nV_cc 3 0 dc 12.05\nV_ee 4 0 dc -0.05\nR1    1 2 10k\nC12   2 0 15.9nF\n.control\nop\nprint allv\nac dec 100 10 100k\nwrdata ac_out.txt v(2)\nquit\n.endc\n.end\n",
        standard_spice_headers()
    );
    assert_eq!(c.to_netlist("Demo"), expected);
    let op = format!(
        "* Feasibility OP Netlist\n{}V_in 1 0 dc 0\nV_cc 3 0 dc 12.05\nV_ee 4 0 dc -0.05\nR1    1 2 10k\nC12   2 0 15.9nF\n.control\nop\nprint allv\nquit\n.endc\n.end\n",
        standard_spice_headers()
    );
    assert_eq!(to_op_netlist(&c), op);
}

#[test]
fn characterization_netlist_places_stray_caps_on_signal_nodes() {
    let c = follower();
    let with_caps = to_characterization_netlist(&c, "t", Some("22.00pF"));
    assert!(with_caps.starts_with("* Characterization Netlist: t\n"));
    assert!(with_caps.contains("C_stray_8000 1 0 22.00pF\n"));
    assert!(with_caps.contains("C_stray_8001 2 0 22.00pF\n"));
    assert!(with_caps.contains("C_stray_8002 10 0 22.00pF\n"));
    assert!(!with_caps.contains("C_stray_8003"));
    assert!(with_caps.ends_with("wrdata tran_zero.txt v(2)\nquit\n.endc\n.end\n"));
    let without = to_characterization_netlist(&c, "t", None);
    assert!(!without.contains("C_stray_"));
}
