use imbik::preset::{
    checked_roles, report_is_valid,
    blank_name_issue, missing_probes_issue, model_fit_issues, opamp_policy_issue,
    is_log_graded, reads_ac_sweep, ProbeKind, ProbeType,
    default_diode, default_npn, default_opamp, default_pnp, diagnostic_header, diagnostic_issues,
    error_count, resolve_models, warning_count, ModelAliases, PresetModels, ValidationIssue,
    ValidationSeverity,
};
use imbik::spice::{
    configured_command, extract_error_summary, finished_run_outcome, is_simulation_failed,
    spice_process_limit, SpiceError,
};
use imbik::vendor::{scan_vendor_lines, UpperLine, parse_vendor_models, part_kind_from_name, strip_toml_banner, VendorPart};
use imbik::parts::{model_preamble, push_model_text, PartKind};

fn no_aliases() -> ModelAliases {
    ModelAliases { op_amp: None, opamp: None, bjt_npn: None, npn: None, bjt_pnp: None, pnp: None, diode: None }
}

fn text(v: &toml::Value, key: &str) -> Option<String> {
    v.get(key).and_then(|x| x.as_str()).map(|s| s.to_string())
}

fn aliases_of(v: &toml::Value) -> ModelAliases {
    ModelAliases {
        op_amp: text(v, "op_amp"),
        opamp: text(v, "opamp"),
        bjt_npn: text(v, "bjt_npn"),
        npn: text(v, "npn"),
        bjt_pnp: text(v, "bjt_pnp"),
        pnp: text(v, "pnp"),
        diode: text(v, "diode"),
    }
}

fn models_of(toml_str: &str) -> (String, PresetModels) {
    let v: toml::Value = toml::from_str(toml_str).expect("preset text must be TOML");
    let table = v.get("models").map(aliases_of);
    (text(&v, "name").unwrap(), resolve_models(&table, &aliases_of(&v)))
}

#[test]
fn test_preset_toml_deserialization_with_flat_models() {
    let toml_str = r#"
name = "test_flat_models"
description = "Testing flat model definitions"
feasibility_max_dc = 1.0
feasibility_rail_margin = 0.5
allow_opamps = true
op_amp = "MCP6002"
bjt_npn = "BC547B"
bjt_pnp = "BC557B"
diode = "BAT54"

[[probes]]
name = "Gain"
probe_type = "Gain"
kind = "Greater"
want = 1.0
soft = 0.1
weight = 1.0
is_required = true
[probes.condition]
freq = 1000.0
vin = 0.1
r_load = 10000.0
r_source = 600.0
"#;
    let (name, models) = models_of(toml_str);
    assert_eq!(name, "test_flat_models");
    assert_eq!(models.opamp, "MCP6002");
    assert_eq!(models.bjt_npn, "BC547B");
    assert_eq!(models.bjt_pnp, "BC557B");
    assert_eq!(models.diode, "BAT54");
    assert!(models.has_explicit_opamp);
}

#[test]
fn test_preset_toml_deserialization_with_table_models() {
    let toml_str = r#"
name = "test_table_models"
description = "Testing table model definitions"
feasibility_max_dc = 1.0
feasibility_rail_margin = 0.5
allow_opamps = true

[models]
opamp = "OPA2134"
npn = "2N3904"
pnp = "2N3906"
diode = "1N4148"

[[probes]]
name = "Gain"
probe_type = "Gain"
kind = "Greater"
want = 1.0
soft = 0.1
weight = 1.0
is_required = true
[probes.condition]
freq = 1000.0
vin = 0.1
r_load = 10000.0
r_source = 600.0
"#;
    let (name, models) = models_of(toml_str);
    assert_eq!(name, "test_table_models");
    assert_eq!(models.opamp, "OPA2134");
    assert_eq!(models.bjt_npn, "2N3904");
    assert_eq!(models.bjt_pnp, "2N3906");
    assert_eq!(models.diode, "1N4148");
    assert!(models.has_explicit_opamp);
}

#[test]
fn model_resolution_precedence_and_defaults() {
    let none = resolve_models(&None, &no_aliases());
    assert_eq!(none, PresetModels::default());
    assert_eq!(none.opamp, default_opamp());
    assert_eq!(none.bjt_npn, default_npn());
    assert_eq!(none.bjt_pnp, default_pnp());
    assert_eq!(none.diode, default_diode());
    assert!(!none.has_explicit_opamp);

    let mut top = no_aliases();
    top.op_amp = Some("A".to_string());
    top.opamp = Some("B".to_string());
    top.bjt_pnp = Some("P".to_string());
    let mut table = no_aliases();
    table.op_amp = Some("C".to_string());
    table.npn = Some("N".to_string());
    let m = resolve_models(&Some(table), &top);
    assert_eq!(m.opamp, "C");
    assert_eq!(m.bjt_npn, "N");
    assert_eq!(m.bjt_pnp, "P");
    assert_eq!(m.diode, "1N4148");
    assert!(m.has_explicit_opamp);
    let m2 = resolve_models(&Some(no_aliases()), &top);
    assert_eq!(m2.opamp, "B");
}

#[test]
fn preset_findings() {
    assert!(blank_name_issue("buffer").is_none());
    let blank = blank_name_issue("  \t").unwrap();
    assert_eq!(blank.severity, ValidationSeverity::Error);
    assert_eq!(blank.component, "Preset Metadata");
    assert_eq!(blank.message, "Preset name cannot be empty.");
    assert_eq!(
        blank.suggestion.as_deref(),
        Some("Provide a unique identifier name for the preset.")
    );

    assert!(missing_probes_issue(2).is_none());
    let none = missing_probes_issue(0).unwrap();
    assert_eq!(none.component, "probes");
    assert_eq!(none.message, "Preset must define at least one fitness probe target.");

    let mut models = PresetModels::default();
    assert!(opamp_policy_issue(false, &models).is_none());
    models.opamp = "NE5532".to_string();
    models.has_explicit_opamp = true;
    assert!(opamp_policy_issue(true, &models).is_none());
    let policy = opamp_policy_issue(false, &models).unwrap();
    assert_eq!(policy.severity, ValidationSeverity::Warning);
    assert_eq!(policy.component, "Op-Amp Policy Conflict");
    assert_eq!(
        policy.message,
        "Preset has 'allow_opamps = false', but custom op-amp model 'NE5532' is configured."
    );

    assert!(model_fit_issues("Diode", "1N4148", PartKind::Diode, 2, PartKind::Diode, 2).is_empty());
    let both = model_fit_issues("NPN BJT", "TL072", PartKind::BjtNpn, 3, PartKind::OpAmp, 5);
    assert_eq!(both.len(), 2);
    assert_eq!(both[0].component, "NPN BJT (TL072)");
    assert_eq!(both[0].message, "Component 'TL072' is classified as Op-Amp, expected NPN BJT.");
    assert_eq!(both[0].suggestion.as_deref(), Some("Specify a valid NPN BJT model in the preset."));
    assert_eq!(both[1].message, "Component 'TL072' has 5 pin mapping entries, expected 3.");
    assert_eq!(
        both[1].suggestion.as_deref(),
        Some("Correct the pin_order in the component definition.")
    );
    let diode_as_opamp = model_fit_issues("Op-Amp", "1N4148", PartKind::OpAmp, 5, PartKind::Diode, 2);
    assert_eq!(error_count(&diode_as_opamp), 2);
    assert!(diode_as_opamp[0].message.contains("expected Op-Amp"));
    let pins = model_fit_issues("Diode", "BAT54", PartKind::Diode, 2, PartKind::Diode, 3);
    assert_eq!(pins.len(), 1);
    assert_eq!(pins[0].message, "Component 'BAT54' has 3 pin mapping entries, expected 2.");
}

#[test]
fn validation_roles_and_verdict() {
    let models = PresetModels::default();
    let with = checked_roles(true, &models);
    let names: Vec<(&str, &str, usize)> =
        with.iter().map(|r| (r.role.as_str(), r.model.as_str(), r.pins)).collect();
    assert_eq!(
        names,
        vec![("Op-Amp", "TL072", 5), ("NPN BJT", "2N3904", 3), ("PNP BJT", "2N3906", 3), ("Diode", "1N4148", 2)]
    );
    assert_eq!(with[0].kind, PartKind::OpAmp);
    let without = checked_roles(false, &models);
    assert_eq!(without.len(), 3);
    assert_eq!(without[0].role, "NPN BJT");

    let warn = opamp_policy_issue(false, &PresetModels { has_explicit_opamp: true, ..PresetModels::default() });
    assert!(report_is_valid(&warn.clone().into_iter().collect()));
    let errors = model_fit_issues("Diode", "X", PartKind::Diode, 2, PartKind::OpAmp, 5);
    assert!(!report_is_valid(&errors));
    assert!(report_is_valid(&Vec::new()));
}

#[test]
fn probe_grading_scales() {
    let all = [
        ProbeType::Gain,
        ProbeType::Zin,
        ProbeType::Zout,
        ProbeType::DcOffset,
        ProbeType::Bom,
        ProbeType::Noise,
        ProbeType::NoiseFig,
        ProbeType::NoiseTotal,
    ];
    for t in all {
        assert!(!is_log_graded(ProbeKind::Closeness, t));
    }
    let greater: Vec<bool> = all.iter().map(|t| is_log_graded(ProbeKind::Greater, *t)).collect();
    assert_eq!(greater, vec![true, true, true, false, false, false, false, false]);
    let lesser: Vec<bool> = all.iter().map(|t| is_log_graded(ProbeKind::Lesser, *t)).collect();
    assert_eq!(lesser, vec![false, true, true, false, false, true, false, true]);
    let ac: Vec<bool> = all.iter().map(|t| reads_ac_sweep(*t)).collect();
    assert_eq!(ac, vec![true, true, true, false, false, false, false, false]);
}

#[test]
fn validation_report_sections() {
    let issues = vec![
        ValidationIssue {
            severity: ValidationSeverity::Error,
            component: "opamp".to_string(),
            message: "Model 'X' not found".to_string(),
            suggestion: Some("Add it".to_string()),
        },
        ValidationIssue {
            severity: ValidationSeverity::Warning,
            component: "policy".to_string(),
            message: "Op-Amp Policy Conflict".to_string(),
            suggestion: None,
        },
        ValidationIssue {
            severity: ValidationSeverity::Info,
            component: "npn".to_string(),
            message: "ok".to_string(),
            suggestion: None,
        },
    ];
    assert_eq!(error_count(&issues), 1);
    assert_eq!(warning_count(&issues), 1);
    let rule = "=".repeat(81);
    assert_eq!(
        diagnostic_header("demo", false, &issues),
        format!("\n{}\n  🔬 PRESET & MODEL VALIDATION REPORT: demo\n{}\n  Status:  FAILED VALIDATION (1 Errors, 1 Warnings) - NOT READY\n\n", rule, rule)
    );
    assert!(diagnostic_header("demo", true, &vec![]).ends_with("  Status:  READY FOR SIMULATION (0 Errors, 0 Warnings)\n\n"));
    assert_eq!(
        diagnostic_issues(&issues),
        format!("  [ERROR] opamp: Model 'X' not found\n         ↳ Suggestion: Add it\n  [WARN]  policy: Op-Amp Policy Conflict\n  [INFO]  npn: ok\n{}\n", rule)
    );
}

#[test]
fn simulation_failure_detection() {
    assert!(is_simulation_failed(false, ""));
    assert!(!is_simulation_failed(true, "Circuit: ok\nDone\n"));
    assert!(is_simulation_failed(true, "warning\nERROR: unknown subckt\n"));
    assert!(is_simulation_failed(true, "Timestep Too Small at t=1e-9"));
    assert!(is_simulation_failed(true, "doAnalyses: TRAN:  Timestep too small"));
    assert!(is_simulation_failed(true, "MATRIX IS SINGULAR"));
    assert!(!is_simulation_failed(true, "errors: none"));
}

#[test]
fn error_summary_prefers_error_lines() {
    let log = "Circuit: x\n  Error: unknown model DX  \nnote\nwarning: singular matrix here\r\nend";
    assert_eq!(
        extract_error_summary(log),
        "Error: unknown model DX; warning: singular matrix here"
    );
    let quiet = "l1\nl2\r\nl3\nl4\nl5\nl6\nl7\n";
    assert_eq!(extract_error_summary(quiet), "l3\nl4\nl5\nl6\nl7");
    assert_eq!(extract_error_summary("only"), "only");
    assert_eq!(extract_error_summary(""), "");
    match finished_run_outcome(true, "  Error: boom\n") {
        Err(SpiceError::SubprocessFailed(m)) => assert_eq!(m, "Error: boom"),
        other => panic!("unexpected outcome {:?}", other),
    }
    assert!(finished_run_outcome(true, "fine").is_ok());
    assert!(matches!(finished_run_outcome(false, "fine"), Err(SpiceError::SubprocessFailed(_))));
}

#[test]
fn tool_commands_and_process_limit() {
    assert_eq!(configured_command(Some("  /opt/ngspice "), Some("x"), "ngspice"), "/opt/ngspice");
    assert_eq!(configured_command(Some("   "), Some(" y "), "ngspice"), "y");
    assert_eq!(configured_command(None, Some("\t"), "uv"), "uv");
    assert_eq!(configured_command(None, None, "uv"), "uv");
    assert_eq!(spice_process_limit(Some("3"), Some(16)), 3);
    assert_eq!(spice_process_limit(Some(" 3"), Some(16)), 8);
    assert_eq!(spice_process_limit(None, Some(6)), 6);
    assert_eq!(spice_process_limit(Some("many"), None), 4);
}

fn names(parts: &[VendorPart]) -> Vec<String> {
    parts.iter().map(|p| p.name.clone()).collect()
}

#[test]
fn vendor_subcircuits_and_models_are_read() {
    let lib = "* Texas Instruments Custom Precision Op-Amp OPA999\n\
.SUBCKT OPA999 INP INN VCC VEE OUT\n  C1 11 12 1.0e-12\n  .model DX D(IS=800.0E-18)\n.ENDS\n\
.model q2n2222 npn(Is=1e-14)\n.subckt clip a b\nD1 a b DX\n.ends clip\n.MODEL bad\n";
    let parts = parse_vendor_models(lib, "opa999", "\"OPA999.LIB\"");
    assert_eq!(names(&parts), vec!["OPA999", "Q2N2222", "CLIP"]);
    assert_eq!(parts[0].kind, PartKind::OpAmp);
    assert_eq!(parts[0].pin_order, vec![1, 2, 3, 4, 5]);
    assert_eq!(
        parts[0].spice_text,
        ".SUBCKT OPA999 INP INN VCC VEE OUT\nC1 11 12 1.0e-12\n.model DX D(IS=800.0E-18)\n.ENDS\n"
    );
    assert_eq!(parts[0].description, "Vendor Imported Subcircuit from \"OPA999.LIB\"");
    assert_eq!(parts[1].kind, PartKind::BjtNpn);
    assert_eq!(parts[1].pin_order, vec![0, 1, 2]);
    assert_eq!(parts[1].spice_text, ".model q2n2222 npn(Is=1e-14)\n");
    assert_eq!(parts[1].description, "Vendor Imported Model from \"OPA999.LIB\"");
    assert_eq!(parts[2].kind, PartKind::Diode);
    assert_eq!(parts[2].pin_order, vec![0, 1]);

    let raw = parse_vendor_models("R1 1 2 1k\n", "mystery", "\"m.cir\"");
    assert_eq!(names(&raw), vec!["MYSTERY"]);
    assert_eq!(raw[0].spice_text, "R1 1 2 1k\n");
    assert_eq!(raw[0].description, "Vendor Imported Macromodel from \"m.cir\"");
    assert!(parse_vendor_models("  \n\t", "blank", "\"b\"").is_empty());
}

fn scanned(text: &str, upper: &str, name: &str, model_type: &str) -> UpperLine {
    UpperLine {
        text: text.to_string(),
        upper: upper.to_string(),
        name_upper: name.to_string(),
        type_upper: model_type.to_string(),
    }
}

#[test]
fn scanner_reads_given_upper_cased_lines() {
    let lines = vec![
        scanned(".subckt amp a b c d e", ".SUBCKT AMP A B C D E", "AMP", "A"),
        scanned("R1 a b 1k", "R1 A B 1K", "A", "B"),
        scanned(".ends", ".ENDS", "", ""),
        scanned(".model q1 pnp(Is=1f)", ".MODEL Q1 PNP(IS=1F)", "Q1", "PNP(IS=1F)"),
        scanned(".model short", ".MODEL SHORT", "SHORT", ""),
    ];
    let parts = scan_vendor_lines(&lines, "\"x.lib\"");
    assert_eq!(names(&parts), vec!["AMP", "Q1"]);
    assert_eq!(parts[0].kind, PartKind::OpAmp);
    assert_eq!(parts[0].spice_text, ".subckt amp a b c d e\nR1 a b 1k\n.ends\n");
    assert_eq!(parts[1].kind, PartKind::BjtPnp);
    assert_eq!(parts[1].spice_text, ".model q1 pnp(Is=1f)\n");
    assert!(scan_vendor_lines(&Vec::new(), "\"x\"").is_empty());
}

#[test]
fn part_definition_helpers() {
    assert_eq!(part_kind_from_name("OpAmp"), PartKind::OpAmp);
    assert_eq!(part_kind_from_name("NPN"), PartKind::BjtNpn);
    assert_eq!(part_kind_from_name("bjtPnp"), PartKind::BjtPnp);
    assert_eq!(part_kind_from_name("Diode"), PartKind::Diode);
    assert_eq!(part_kind_from_name("JFET"), PartKind::JfetN);
    assert_eq!(part_kind_from_name("mosfetn"), PartKind::MosfetN);
    assert_eq!(part_kind_from_name("triode"), PartKind::OpAmp);
    assert_eq!(
        strip_toml_banner("=== Banner ===\nİmbik export\n  Autonomous\nname = \"X\"\n=== not banner\n"),
        "name = \"X\"\n=== not banner"
    );
    assert_eq!(strip_toml_banner("a\r\nb"), "a\nb");
}

#[test]
fn model_preambles_end_every_model_with_a_newline() {
    let mut out = String::from("x\n");
    push_model_text(&mut out, ".model D1 D");
    push_model_text(&mut out, ".model D2 D\n");
    push_model_text(&mut out, "");
    assert_eq!(out, "x\n.model D1 D\n.model D2 D\n\n");
    let texts = vec![".subckt A 1 2\n.ends".to_string(), ".model B NPN\n".to_string()];
    assert_eq!(
        model_preamble(&texts),
        "* === Dynamic Component Catalog Preamble ===\n.subckt A 1 2\n.ends\n.model B NPN\n"
    );
    assert_eq!(model_preamble(&Vec::new()), "* === Dynamic Component Catalog Preamble ===\n");
}
