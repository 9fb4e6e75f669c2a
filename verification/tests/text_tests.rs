use imbik::cli::{find_default_checkpoint, parse_circuit_id, parse_seed_str, CircuitChoice};
use imbik::constraints::{FilterStats, RejectCategory};
use imbik::loot::{node_connection_map, summarize_components, Rarity};
use imbik::numbers::IntParseError;
use imbik::parts::{template_toml, InputStage, PartKind, BJT_PART_TEMPLATE, DIODE_PART_TEMPLATE, OPAMP_PART_TEMPLATE};
use imbik::circuit::{Circuit, Component, NODE_GND, NODE_IN, NODE_OUT, NODE_VCC, NODE_VEE};
use imbik::text::trim;

#[test]
fn test_filter_stats_telemetry() {
    let mut stats = FilterStats::new();
    stats.record(&Ok(()));
    stats.record(&Err(RejectCategory::DeadSignal));
    stats.record(&Err(RejectCategory::RailSaturation));
    assert_eq!(stats.total_evaluated, 3);
    assert_eq!(stats.passed, 1);
    assert_eq!(stats.dead_signal, 1);
    assert_eq!(stats.rail_saturation, 1);
}

#[test]
fn filter_stats_count_every_outcome_once() {
    let mut stats = FilterStats::default();
    for r in [
        Err(RejectCategory::DcOffsetTooHigh),
        Err(RejectCategory::PhaseInstability),
        Err(RejectCategory::MissingSimulationData),
        Ok(()),
    ] {
        stats.record(&r);
    }
    assert_eq!(stats.total_evaluated, 4);
    assert_eq!(
        stats.passed + stats.dead_signal + stats.rail_saturation + stats.dc_offset
            + stats.phase_instability + stats.missing_data,
        4
    );
    assert_eq!(stats.dc_offset, 1);
    assert_eq!(stats.phase_instability, 1);
    assert_eq!(stats.missing_data, 1);
}

#[test]
fn rarity_labels() {
    assert_eq!(Rarity::Common.label(), "COMMON");
    assert_eq!(Rarity::Rare.label(), "RARE");
    assert_eq!(Rarity::Epic.label(), "EPIC");
    assert_eq!(Rarity::Legendary.label(), "LEGENDARY");
    assert_eq!(Rarity::Common.colored_label(), "\x1b[90m[COMMON]\x1b[0m");
    assert_eq!(Rarity::Rare.colored_label(), "\x1b[1;36m[RARE]\x1b[0m");
    assert_eq!(Rarity::Epic.colored_label(), "\x1b[1;35m[EPIC]\x1b[0m");
    assert_eq!(Rarity::Legendary.colored_label(), "\x1b[1;33m[LEGENDARY]\x1b[0m");
}

#[test]
fn component_summary_counts_each_kind() {
    let mut c = Circuit::new();
    c.add_component(Component::new('R', 1, vec![NODE_IN, 10], "10k").unwrap());
    c.add_component(Component::new('R', 2, vec![10, 20], "10k").unwrap());
    c.add_component(Component::new('C', 1, vec![10, NODE_OUT], "15.9nF").unwrap());
    c.add_component(Component::new('C', 2, vec![20, NODE_GND], "15.9nF").unwrap());
    c.add_component(Component::new('X', 1, vec![20, NODE_OUT, NODE_VCC, NODE_VEE, NODE_OUT], "TL072").unwrap());
    assert_eq!(summarize_components(&c), "2R 2C 1X (5)");
    for k in 0..10usize {
        c.add_component(Component::new('D', k + 2, vec![20, NODE_GND], "1N4148").unwrap());
    }
    c.add_component(Component::new('V', 1, vec![20, NODE_GND], "5").unwrap());
    assert_eq!(summarize_components(&c), "2R 2C 10D 1X (16)");
    assert_eq!(summarize_components(&Circuit::new()), "(0)");
}

#[test]
fn component_summary_documented_example() {
    let mut c = Circuit::new();
    c.add_component(Component::new('R', 1, vec![NODE_IN, 10], "10k").unwrap());
    c.add_component(Component::new('R', 2, vec![10, 20], "10k").unwrap());
    c.add_component(Component::new('R', 3, vec![20, 30], "10k").unwrap());
    c.add_component(Component::new('R', 4, vec![30, NODE_GND], "10k").unwrap());
    c.add_component(Component::new('C', 1, vec![10, NODE_OUT], "1nF").unwrap());
    c.add_component(Component::new('C', 2, vec![20, NODE_GND], "1nF").unwrap());
    c.add_component(Component::new('D', 1, vec![30, NODE_GND], "1N4148").unwrap());
    c.add_component(Component::new('X', 1, vec![30, NODE_OUT, NODE_VCC, NODE_VEE, NODE_OUT], "TL072").unwrap());
    assert_eq!(summarize_components(&c), "4R 2C 1D 1X (8)");
}

#[test]
fn part_kind_and_stage_names() {
    assert_eq!(PartKind::OpAmp.as_str(), "Op-Amp");
    assert_eq!(PartKind::BjtNpn.as_str(), "NPN BJT");
    assert_eq!(PartKind::BjtPnp.as_str(), "PNP BJT");
    assert_eq!(PartKind::Diode.as_str(), "Diode");
    assert_eq!(PartKind::JfetN.as_str(), "N-JFET");
    assert_eq!(PartKind::MosfetN.as_str(), "N-MOSFET");
    assert_eq!(InputStage::Jfet.as_str(), "JFET (Ultra High-Z)");
    assert_eq!(InputStage::Bjt.as_str(), "Bipolar (Low Noise)");
    assert_eq!(InputStage::Cmos.as_str(), "CMOS (Rail-to-Rail)");
}

#[test]
fn part_templates_by_kind() {
    assert_eq!(template_toml("BJT"), BJT_PART_TEMPLATE);
    assert_eq!(template_toml("Transistor"), BJT_PART_TEMPLATE);
    assert_eq!(template_toml("npn"), BJT_PART_TEMPLATE);
    assert_eq!(template_toml("PnP"), BJT_PART_TEMPLATE);
    assert_eq!(template_toml("DIODE"), DIODE_PART_TEMPLATE);
    assert_eq!(template_toml("opamp"), OPAMP_PART_TEMPLATE);
    assert_eq!(template_toml(""), OPAMP_PART_TEMPLATE);
    assert!(BJT_PART_TEMPLATE.contains("name = \"BC547B\"\n"));
    assert!(DIODE_PART_TEMPLATE.ends_with("v_supply_max = 100.0           # Reverse breakdown voltage BV in Volts\n"));
    assert!(OPAMP_PART_TEMPLATE.starts_with("# ====="));
    assert!(OPAMP_PART_TEMPLATE.contains("İmbik will automatically synthesize a precision Boyle macromodel!\n"));
}

#[test]
fn seeds_parse_in_decimal_and_hex() {
    assert_eq!(parse_seed_str("42"), Ok(42));
    assert_eq!(parse_seed_str("  +7\t"), Ok(7));
    assert_eq!(parse_seed_str("0xff"), Ok(255));
    assert_eq!(parse_seed_str("0XDEADbeef"), Ok(0xDEADBEEF));
    assert_eq!(parse_seed_str("18446744073709551615"), Ok(u64::MAX));
    assert_eq!(parse_seed_str("\u{3000}12\u{2028}"), Ok(12));
    assert_eq!(
        parse_seed_str(" 12a "),
        Err("Invalid u64 seed '12a': invalid digit found in string".to_string())
    );
    assert_eq!(
        parse_seed_str(""),
        Err("Invalid u64 seed '': cannot parse integer from empty string".to_string())
    );
    assert_eq!(
        parse_seed_str("0x"),
        Err("Invalid hex seed '0x': cannot parse integer from empty string".to_string())
    );
    assert_eq!(
        parse_seed_str("18446744073709551616"),
        Err("Invalid u64 seed '18446744073709551616': number too large to fit in target type".to_string())
    );
    assert_eq!(
        parse_seed_str("-1"),
        Err("Invalid u64 seed '-1': invalid digit found in string".to_string())
    );
    assert_eq!(
        parse_seed_str("+"),
        Err("Invalid u64 seed '+': invalid digit found in string".to_string())
    );
    assert_eq!(
        parse_seed_str("0x1g"),
        Err("Invalid hex seed '0x1g': invalid digit found in string".to_string())
    );
    for s in ["1", "00017", "0x0", "  99999 ", "0x10000000000000000", "x12", "1_000"] {
        let ours = parse_seed_str(s).ok();
        let t = s.trim();
        let std_value = if t.starts_with("0x") || t.starts_with("0X") {
            u64::from_str_radix(&t[2..], 16).ok()
        } else {
            t.parse::<u64>().ok()
        };
        assert_eq!(ours, std_value, "seed {:?}", s);
    }
}

#[test]
fn circuit_ids_are_best_or_numbers() {
    assert_eq!(parse_circuit_id("best"), Ok(CircuitChoice::Best));
    assert_eq!(parse_circuit_id("latest"), Ok(CircuitChoice::Best));
    assert_eq!(parse_circuit_id("17"), Ok(CircuitChoice::Id(17)));
    assert_eq!(
        parse_circuit_id(" 17"),
        Err("Invalid circuit ID: ' 17'. Expected integer or 'best'".to_string())
    );
    assert_eq!(
        parse_circuit_id("Best"),
        Err("Invalid circuit ID: 'Best'. Expected integer or 'best'".to_string())
    );
}

#[test]
fn default_checkpoint_prefers_earlier_candidates() {
    assert_eq!(find_default_checkpoint(&vec![false, false, false, false]), "checkpoints/checkpoint_final.json");
    assert_eq!(
        find_default_checkpoint(&vec![false, true, true, false]),
        "target/test_checkpoints/checkpoint_final.json"
    );
    assert_eq!(find_default_checkpoint(&vec![false, false, true, true]), "checkpoints/checkpoint_gen_50.json");
    assert_eq!(
        find_default_checkpoint(&vec![false, false, false, true]),
        "target/test_checkpoints/checkpoint_gen_50.json"
    );
}

#[test]
fn trimming_matches_std() {
    for s in ["", "   ", " a b ", "\u{85}x\u{a0}", "\u{200b}y", "\t\n z\r\n", "\u{2029}\u{202f}w\u{205f}"] {
        assert_eq!(trim(s), s.trim(), "trim {:?}", s);
    }
}

#[test]
fn int_error_messages_match_std() {
    assert_eq!(IntParseError::Empty.message(), "".parse::<u64>().unwrap_err().to_string());
    assert_eq!(IntParseError::InvalidDigit.message(), "x".parse::<u64>().unwrap_err().to_string());
    assert_eq!(
        IntParseError::PosOverflow.message(),
        "99999999999999999999".parse::<u64>().unwrap_err().to_string()
    );
}

#[test]
fn breadboard_node_map() {
    let mut c = Circuit::new();
    c.add_component(Component::new('R', 1, vec![NODE_IN, 10], "10k").unwrap());
    c.add_component(Component::new('D', 2, vec![10, NODE_GND], "1N4148").unwrap());
    c.add_component(Component::new('X', 1, vec![10, NODE_OUT, NODE_VCC, NODE_VEE, NODE_OUT], "TL072").unwrap());
    let m = node_connection_map(&c);
    let nodes: Vec<usize> = m.iter().map(|e| e.0).collect();
    assert_eq!(nodes, vec![NODE_GND, NODE_IN, NODE_OUT, NODE_VCC, NODE_VEE, 10]);
    assert_eq!(m[0].1, vec!["D2[Cathode | Ring]"]);
    assert_eq!(m[1].1, vec!["R1[1] (10k)"]);
    assert_eq!(m[2].1, vec!["X1[IN-]", "X1[OUT Pin 1]"]);
    assert_eq!(m[5].1, vec!["R1[2] (10k)", "D2[Anode]", "X1[IN+]"]);
    assert!(node_connection_map(&Circuit::new()).is_empty());
}
