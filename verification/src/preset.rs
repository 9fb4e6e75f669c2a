//! Component models chosen by a mission preset, and the diagnostics reported
//! when a preset is validated.

use vstd::prelude::*;
use crate::parts::{part_kind_name, PartKind};
use crate::text::{decimal, push_decimal, push_str, str_chars, trim_bounds, trimmed};

verus! {

/// The component models a preset selects.
#[derive(Debug, Clone, PartialEq)]
pub struct PresetModels {
    pub opamp: String,
    pub bjt_npn: String,
    pub bjt_pnp: String,
    pub diode: String,
    /// Whether the preset named its op-amp model itself.
    pub has_explicit_opamp: bool,
}

/// The default op-amp model, `TL072`.
pub fn default_opamp() -> (s: String)
    ensures
        s@ == "TL072"@,
{
    let mut s = String::new();
    push_str(&mut s, "TL072");
    assert(s@ =~= "TL072"@);
    s
}

/// The default NPN transistor model, `2N3904`.
pub fn default_npn() -> (s: String)
    ensures
        s@ == "2N3904"@,
{
    let mut s = String::new();
    push_str(&mut s, "2N3904");
    assert(s@ =~= "2N3904"@);
    s
}

/// The default PNP transistor model, `2N3906`.
pub fn default_pnp() -> (s: String)
    ensures
        s@ == "2N3906"@,
{
    let mut s = String::new();
    push_str(&mut s, "2N3906");
    assert(s@ =~= "2N3906"@);
    s
}

/// The default diode model, `1N4148`.
pub fn default_diode() -> (s: String)
    ensures
        s@ == "1N4148"@,
{
    let mut s = String::new();
    push_str(&mut s, "1N4148");
    assert(s@ =~= "1N4148"@);
    s
}

impl Default for PresetModels {
    fn default() -> (m: Self)
        ensures
            m.opamp@ == "TL072"@,
            m.bjt_npn@ == "2N3904"@,
            m.bjt_pnp@ == "2N3906"@,
            m.diode@ == "1N4148"@,
            !m.has_explicit_opamp,
    {
        PresetModels {
            opamp: default_opamp(),
            bjt_npn: default_npn(),
            bjt_pnp: default_pnp(),
            diode: default_diode(),
            has_explicit_opamp: false,
        }
    }
}

/// Model names as a preset file may give them, each under either of its two
/// accepted keys (`opamp`/`op_amp`, `npn`/`bjt_npn`, `pnp`/`bjt_pnp`, `diode`).
#[derive(Debug, Clone, PartialEq)]
pub struct ModelAliases {
    pub op_amp: Option<String>,
    pub opamp: Option<String>,
    pub bjt_npn: Option<String>,
    pub npn: Option<String>,
    pub bjt_pnp: Option<String>,
    pub pnp: Option<String>,
    pub diode: Option<String>,
}

/// The view of an optional string.
pub open spec fn opt_view(o: Option<String>) -> Option<Seq<char>> {
    match o {
        Some(s) => Some(s@),
        None => None,
    }
}

/// `a` when it is given, else `b`.
pub open spec fn first_given(a: Option<Seq<char>>, b: Option<Seq<char>>) -> Option<Seq<char>> {
    if a is Some {
        a
    } else {
        b
    }
}

/// The model a preset names for one role: the `[models]` table decides first
/// (`preferred` key, then `alternate`), then the top-level keys in the same
/// order.
pub open spec fn explicit_model(
    table: Option<(Option<Seq<char>>, Option<Seq<char>>)>,
    preferred: Option<Seq<char>>,
    alternate: Option<Seq<char>>,
) -> Option<Seq<char>> {
    let from_table = match table {
        Some((p, a)) => first_given(p, a),
        None => None,
    };
    first_given(from_table, first_given(preferred, alternate))
}

/// The models a preset selects, given its `[models]` table (if any) and its
/// top-level keys: each role takes the explicitly named model, else the default.
pub open spec fn resolved_models(table: Option<ModelAliases>, top: ModelAliases, m: PresetModels) -> bool {
    let op = explicit_model(
        match table {
            Some(t) => Some((opt_view(t.opamp), opt_view(t.op_amp))),
            None => None,
        },
        opt_view(top.opamp),
        opt_view(top.op_amp),
    );
    let npn = explicit_model(
        match table {
            Some(t) => Some((opt_view(t.npn), opt_view(t.bjt_npn))),
            None => None,
        },
        opt_view(top.npn),
        opt_view(top.bjt_npn),
    );
    let pnp = explicit_model(
        match table {
            Some(t) => Some((opt_view(t.pnp), opt_view(t.bjt_pnp))),
            None => None,
        },
        opt_view(top.pnp),
        opt_view(top.bjt_pnp),
    );
    let diode = explicit_model(
        match table {
            Some(t) => Some((opt_view(t.diode), None)),
            None => None,
        },
        opt_view(top.diode),
        None,
    );
    &&& m.opamp@ == (if op is Some { op->0 } else { "TL072"@ })
    &&& m.bjt_npn@ == (if npn is Some { npn->0 } else { "2N3904"@ })
    &&& m.bjt_pnp@ == (if pnp is Some { pnp->0 } else { "2N3906"@ })
    &&& m.diode@ == (if diode is Some { diode->0 } else { "1N4148"@ })
    &&& m.has_explicit_opamp == op is Some
}

/// The name a table or a top-level pair gives for one role: the preferred
/// key when present, else the alternate.
pub open spec fn named_by(preferred: Option<String>, alternate: Option<String>) -> Option<Seq<char>> {
    match preferred {
        Some(s) => Some(s@),
        None => match alternate {
            Some(s) => Some(s@),
            None => None,
        },
    }
}

/// Every role takes the `[models]` table's model first: when the table names
/// a model for a role (`opamp` before `op_amp`, `npn` before `bjt_npn`, `pnp`
/// before `bjt_pnp`, `diode`), that model is resolved, whatever the top-level
/// keys say. Only a role the table leaves open goes to the top-level keys, in
/// the same order, and only a role named nowhere gets its default (TL072,
/// 2N3904, 2N3906, 1N4148). The op-amp counts as explicit exactly when it is
/// named somewhere.
pub proof fn lemma_models_table_first(table: Option<ModelAliases>, top: ModelAliases, m: PresetModels)
    requires
        resolved_models(table, top, m),
    ensures
        ({
            let (op_t, npn_t, pnp_t, diode_t) = match table {
                Some(t) => (
                    named_by(t.opamp, t.op_amp),
                    named_by(t.npn, t.bjt_npn),
                    named_by(t.pnp, t.bjt_pnp),
                    named_by(t.diode, None),
                ),
                None => (None, None, None, None),
            };
            let op_top = named_by(top.opamp, top.op_amp);
            let npn_top = named_by(top.npn, top.bjt_npn);
            let pnp_top = named_by(top.pnp, top.bjt_pnp);
            let diode_top = named_by(top.diode, None);
            &&& op_t matches Some(s) ==> m.opamp@ == s
            &&& npn_t matches Some(s) ==> m.bjt_npn@ == s
            &&& pnp_t matches Some(s) ==> m.bjt_pnp@ == s
            &&& diode_t matches Some(s) ==> m.diode@ == s
            &&& op_t is None ==> (op_top matches Some(s) ==> m.opamp@ == s)
            &&& npn_t is None ==> (npn_top matches Some(s) ==> m.bjt_npn@ == s)
            &&& pnp_t is None ==> (pnp_top matches Some(s) ==> m.bjt_pnp@ == s)
            &&& diode_t is None ==> (diode_top matches Some(s) ==> m.diode@ == s)
            &&& op_t is None && op_top is None ==> m.opamp@ == "TL072"@
            &&& npn_t is None && npn_top is None ==> m.bjt_npn@ == "2N3904"@
            &&& pnp_t is None && pnp_top is None ==> m.bjt_pnp@ == "2N3906"@
            &&& diode_t is None && diode_top is None ==> m.diode@ == "1N4148"@
            &&& m.has_explicit_opamp == (op_t is Some || op_top is Some)
        }),
{
}

/// Copy of an optional string.
fn copy_opt(o: &Option<String>) -> (r: Option<String>)
    ensures
        opt_view(r) == opt_view(*o),
{
    match o {
        Some(s) => Some(s.clone()),
        None => None,
    }
}

/// `a` when it is given, else `b`.
fn either(a: Option<String>, b: Option<String>) -> (r: Option<String>)
    ensures
        opt_view(r) == first_given(opt_view(a), opt_view(b)),
{
    match a {
        Some(s) => Some(s),
        None => b,
    }
}

/// The model for one role (see `explicit_model`), or `fallback`.
fn pick_model(
    table: Option<(&Option<String>, &Option<String>)>,
    preferred: &Option<String>,
    alternate: &Option<String>,
    fallback: String,
) -> (r: (String, bool))
    ensures
        ({
            let e = explicit_model(
                match table {
                    Some((p, a)) => Some((opt_view(*p), opt_view(*a))),
                    None => None,
                },
                opt_view(*preferred),
                opt_view(*alternate),
            );
            &&& r.0@ == (if e is Some { e->0 } else { fallback@ })
            &&& r.1 == e is Some
        }),
{
    let from_table = match table {
        Some((p, a)) => either(copy_opt(p), copy_opt(a)),
        None => None,
    };
    let chosen = either(from_table, either(copy_opt(preferred), copy_opt(alternate)));
    match chosen {
        Some(s) => (s, true),
        None => (fallback, false),
    }
}

/// Resolves the component models of a preset from its `[models]` table (if
/// any) and its top-level keys (see `resolved_models`).
pub fn resolve_models(table: &Option<ModelAliases>, top: &ModelAliases) -> (m: PresetModels)
    ensures
        resolved_models(*table, *top, m),
{
    let none: Option<String> = None;
    let (opamp, has_op) = match table {
        Some(t) => pick_model(Some((&t.opamp, &t.op_amp)), &top.opamp, &top.op_amp, default_opamp()),
        None => pick_model(None, &top.opamp, &top.op_amp, default_opamp()),
    };
    let (npn, _) = match table {
        Some(t) => pick_model(Some((&t.npn, &t.bjt_npn)), &top.npn, &top.bjt_npn, default_npn()),
        None => pick_model(None, &top.npn, &top.bjt_npn, default_npn()),
    };
    let (pnp, _) = match table {
        Some(t) => pick_model(Some((&t.pnp, &t.bjt_pnp)), &top.pnp, &top.bjt_pnp, default_pnp()),
        None => pick_model(None, &top.pnp, &top.bjt_pnp, default_pnp()),
    };
    let (diode, _) = match table {
        Some(t) => pick_model(Some((&t.diode, &none)), &top.diode, &none, default_diode()),
        None => pick_model(None, &top.diode, &none, default_diode()),
    };
    PresetModels { opamp, bjt_npn: npn, bjt_pnp: pnp, diode, has_explicit_opamp: has_op }
}

/// Severity of a validation finding.
/// How a probe grades a measured value against its target.
#[derive(Debug, Clone, Copy, PartialEq, Eq, Structural)]
pub enum ProbeKind {
    /// The value should be close to the wanted one.
    Closeness,
    /// The value should be at least the wanted one.
    Greater,
    /// The value should be at most the wanted one.
    Lesser,
}

/// What a probe measures.
#[derive(Debug, Clone, Copy, PartialEq, Eq, Structural)]
pub enum ProbeType {
    Gain,
    Zin,
    Zout,
    DcOffset,
    Bom,
    /// Input-referred noise density at the probe's frequency.
    Noise,
    /// Noise figure.
    NoiseFig,
    /// Integrated input noise over the audio band.
    NoiseTotal,
}

/// Whether a probe grades on a logarithmic scale (when both of its bounds are
/// positive): gain and impedances when more is wanted; impedances, noise densities and
/// noise totals when less is wanted; never when closeness is wanted.
pub open spec fn log_graded(kind: ProbeKind, t: ProbeType) -> bool {
    match kind {
        ProbeKind::Closeness => false,
        ProbeKind::Greater => t == ProbeType::Gain || t == ProbeType::Zin || t == ProbeType::Zout,
        ProbeKind::Lesser => t == ProbeType::Zin || t == ProbeType::Zout || t == ProbeType::Noise
            || t == ProbeType::NoiseTotal,
    }
}

/// Whether a probe of kind `kind` measuring `t` grades on a logarithmic scale
/// (see `log_graded`).
pub fn is_log_graded(kind: ProbeKind, t: ProbeType) -> (r: bool)
    ensures
        r == log_graded(kind, t),
{
    match kind {
        ProbeKind::Closeness => false,
        ProbeKind::Greater => match t {
            ProbeType::Gain | ProbeType::Zin | ProbeType::Zout => true,
            _ => false,
        },
        ProbeKind::Lesser => match t {
            ProbeType::Zin | ProbeType::Zout | ProbeType::Noise | ProbeType::NoiseTotal => true,
            _ => false,
        },
    }
}

/// Whether a probe is read from the AC probe sweep: gain and the two
/// impedances are; offsets, part counts and noise figures are not.
pub open spec fn from_ac_sweep(t: ProbeType) -> bool {
    t == ProbeType::Gain || t == ProbeType::Zin || t == ProbeType::Zout
}

/// Whether a probe measuring `t` is read from the AC probe sweep (see
/// `from_ac_sweep`).
pub fn reads_ac_sweep(t: ProbeType) -> (r: bool)
    ensures
        r == from_ac_sweep(t),
{
    match t {
        ProbeType::Gain | ProbeType::Zin | ProbeType::Zout => true,
        _ => false,
    }
}

#[derive(Debug, Clone, Copy, PartialEq, Eq, Structural)]
pub enum ValidationSeverity {
    Info,
    Warning,
    Error,
}

/// One finding of preset validation.
#[derive(Debug, Clone, PartialEq)]
pub struct ValidationIssue {
    pub severity: ValidationSeverity,
    pub component: String,
    pub message: String,
    pub suggestion: Option<String>,
}

/// Number of findings of severity `sev`.
pub open spec fn severity_count(issues: Seq<ValidationIssue>, sev: ValidationSeverity) -> nat
    decreases issues.len(),
{
    if issues.len() == 0 {
        0
    } else {
        severity_count(issues.drop_last(), sev) + if issues.last().severity == sev {
            1nat
        } else {
            0nat
        }
    }
}

proof fn lemma_severity_count_le(issues: Seq<ValidationIssue>, sev: ValidationSeverity)
    ensures
        severity_count(issues, sev) <= issues.len(),
    decreases issues.len(),
{
    if issues.len() > 0 {
        lemma_severity_count_le(issues.drop_last(), sev);
    }
}

/// Counts the findings of severity `sev`.
pub fn count_severity(issues: &Vec<ValidationIssue>, sev: ValidationSeverity) -> (n: usize)
    ensures
        n == severity_count(issues@, sev),
{
    let mut n: usize = 0;
    let mut i: usize = 0;
    while i < issues.len()
        invariant
            0 <= i <= issues.len(),
            n == severity_count(issues@.take(i as int), sev),
        decreases issues.len() - i,
    {
        proof {
            assert(issues@.take(i + 1).drop_last() =~= issues@.take(i as int));
            lemma_severity_count_le(issues@.take(i as int), sev);
        }
        if issues[i].severity == sev {
            n = n + 1;
        }
        i = i + 1;
    }
    assert(issues@.take(issues.len() as int) =~= issues@);
    n
}

/// Number of error findings.
pub fn error_count(issues: &Vec<ValidationIssue>) -> (n: usize)
    ensures
        n == severity_count(issues@, ValidationSeverity::Error),
{
    count_severity(issues, ValidationSeverity::Error)
}

/// Number of warning findings.
pub fn warning_count(issues: &Vec<ValidationIssue>) -> (n: usize)
    ensures
        n == severity_count(issues@, ValidationSeverity::Warning),
{
    count_severity(issues, ValidationSeverity::Warning)
}

/// `i` is the finding with severity `sev`, the given component and message,
/// and the given suggestion or none.
pub open spec fn is_finding(
    i: ValidationIssue,
    sev: ValidationSeverity,
    component: Seq<char>,
    message: Seq<char>,
    suggestion: Option<Seq<char>>,
) -> bool {
    &&& i.severity == sev
    &&& i.component@ == component
    &&& i.message@ == message
    &&& opt_view(i.suggestion) == suggestion
}

/// A finding from its parts.
fn finding(sev: ValidationSeverity, component: String, message: String, suggestion: Option<String>) -> (i:
    ValidationIssue)
    ensures
        i.severity == sev,
        i.component == component,
        i.message == message,
        i.suggestion == suggestion,
{
    ValidationIssue { severity: sev, component, message, suggestion }
}

/// A string holding the given text.
fn text(s: &str) -> (r: String)
    ensures
        r@ == s@,
{
    let mut r = String::new();
    push_str(&mut r, s);
    r
}

/// The finding for a preset whose name is blank (empty once white space is
/// trimmed): an error on the preset's metadata. `None` for any other name.
pub fn blank_name_issue(name: &str) -> (r: Option<ValidationIssue>)
    ensures
        r is Some <==> trimmed(name@).len() == 0,
        r matches Some(i) ==> is_finding(
            i,
            ValidationSeverity::Error,
            "Preset Metadata"@,
            "Preset name cannot be empty."@,
            Some("Provide a unique identifier name for the preset."@),
        ),
{
    let v = str_chars(name);
    let (a, b) = trim_bounds(&v);
    if a < b {
        None
    } else {
        Some(
            finding(
                ValidationSeverity::Error,
                text("Preset Metadata"),
                text("Preset name cannot be empty."),
                Some(text("Provide a unique identifier name for the preset.")),
            ),
        )
    }
}

/// The finding for a preset without probe targets: an error on `probes`.
/// `None` when there is at least one probe.
pub fn missing_probes_issue(probe_count: usize) -> (r: Option<ValidationIssue>)
    ensures
        r is Some <==> probe_count == 0,
        r matches Some(i) ==> is_finding(
            i,
            ValidationSeverity::Error,
            "probes"@,
            "Preset must define at least one fitness probe target."@,
            Some("Add [[probes]] entries to define objectives (Gain, Zin, Noise, etc.)."@),
        ),
{
    if probe_count > 0 {
        None
    } else {
        Some(
            finding(
                ValidationSeverity::Error,
                text("probes"),
                text("Preset must define at least one fitness probe target."),
                Some(text("Add [[probes]] entries to define objectives (Gain, Zin, Noise, etc.).")),
            ),
        )
    }
}

/// The warning for a preset that forbids op-amps yet names an op-amp model
/// of its own. `None` when op-amps are allowed or the op-amp model is the
/// default one.
pub fn opamp_policy_issue(allow_opamps: bool, models: &PresetModels) -> (r: Option<ValidationIssue>)
    ensures
        r is Some <==> !allow_opamps && models.has_explicit_opamp,
        r matches Some(i) ==> is_finding(
            i,
            ValidationSeverity::Warning,
            "Op-Amp Policy Conflict"@,
            "Preset has 'allow_opamps = false', but custom op-amp model '"@ + models.opamp@
                + "' is configured."@,
            Some(
                "Set 'allow_opamps = true' in the preset if you want evolutionary search to explore op-amp topologies with this component."@,
            ),
        ),
{
    if allow_opamps || !models.has_explicit_opamp {
        return None;
    }
    let mut m = String::new();
    push_str(&mut m, "Preset has 'allow_opamps = false', but custom op-amp model '");
    push_str(&mut m, models.opamp.as_str());
    push_str(&mut m, "' is configured.");
    Some(
        finding(
            ValidationSeverity::Warning,
            text("Op-Amp Policy Conflict"),
            m,
            Some(
                text(
                    "Set 'allow_opamps = true' in the preset if you want evolutionary search to explore op-amp topologies with this component.",
                ),
            ),
        ),
    )
}

/// What `str::to_lowercase` makes of a text (full Unicode case mapping, one
/// character may become several).
pub uninterp spec fn lowercase(s: Seq<char>) -> Seq<char>;

/// Lower-cases a string with `str::to_lowercase`. The contract only names
/// the result: it depends on the text alone, and its case mapping is std's.
#[verifier::external_body]
fn to_lower(s: &str) -> (r: String)
    ensures
        r@ == lowercase(s@),
{
    s.to_lowercase()
}

/// What `{:?}` prints for a list of strings: bracketed, each quoted with
/// std's escapes, separated by `, `.
pub uninterp spec fn debug_names(names: Seq<Seq<char>>) -> Seq<char>;

/// Formats a list of strings with `{:?}` (std's `Debug` for `Vec<String>`).
/// The contract only names the result, a function of the strings alone.
#[verifier::external_body]
fn debug_list(names: &Vec<String>) -> (r: String)
    ensures
        r@ == debug_names(names.deep_view()),
{
    format!("{:?}", names)
}

/// The finding for a preset model in `role` that the part catalog does not
/// hold: an error on `role (model)`, suggesting the part file of that name
/// (lower-cased) and listing the catalog's models of the expected kind.
pub fn model_not_found_issue(role: &str, model: &str, available: &Vec<String>) -> (i: ValidationIssue)
    ensures
        is_finding(
            i,
            ValidationSeverity::Error,
            model_label(role@, model@),
            "Component model '"@ + model@ + "' not found in PartCatalog."@,
            Some(
                "Check 'parts/"@ + lowercase(model@) + ".toml' or run 'imbik part add <file>'. Available "@
                    + role@ + " models: "@ + debug_names(available.deep_view()),
            ),
        ),
{
    let mut c = String::new();
    push_str(&mut c, role);
    push_str(&mut c, " (");
    push_str(&mut c, model);
    push_str(&mut c, ")");
    let mut m = String::new();
    push_str(&mut m, "Component model '");
    push_str(&mut m, model);
    push_str(&mut m, "' not found in PartCatalog.");
    let lower = to_lower(model);
    let listed = debug_list(available);
    let mut s = String::new();
    push_str(&mut s, "Check 'parts/");
    push_str(&mut s, lower.as_str());
    push_str(&mut s, ".toml' or run 'imbik part add <file>'. Available ");
    push_str(&mut s, role);
    push_str(&mut s, " models: ");
    push_str(&mut s, listed.as_str());
    let i = finding(ValidationSeverity::Error, c, m, Some(s));
    proof {
        assert(i.component@ =~= model_label(role@, model@));
        assert(i.message@ =~= "Component model '"@ + model@ + "' not found in PartCatalog."@);
        assert(s@ =~= "Check 'parts/"@ + lowercase(model@) + ".toml' or run 'imbik part add <file>'. Available "@
            + role@ + " models: "@ + debug_names(available.deep_view()));
    }
    i
}

/// How a model of a preset's `role` is named in its findings:
/// `role (model)`.
pub open spec fn model_label(role: Seq<char>, model: Seq<char>) -> Seq<char> {
    role + " ("@ + model + ")"@
}

/// The findings for a catalog part that a preset uses in `role`: an error
/// when its kind is not the expected one, then an error when its pin mapping
/// does not have the expected number of entries.
pub open spec fn model_fit_findings(
    issues: Seq<ValidationIssue>,
    role: Seq<char>,
    model: Seq<char>,
    expected_kind: PartKind,
    expected_pins: nat,
    kind: PartKind,
    pins: nat,
) -> bool {
    let kind_bad = kind != expected_kind;
    let pins_bad = pins != expected_pins;
    &&& issues.len() == (if kind_bad { 1int } else { 0 }) + (if pins_bad { 1int } else { 0 })
    &&& kind_bad ==> is_finding(
        issues[0],
        ValidationSeverity::Error,
        model_label(role, model),
        "Component '"@ + model + "' is classified as "@ + part_kind_name(kind) + ", expected "@
            + part_kind_name(expected_kind) + "."@,
        Some("Specify a valid "@ + part_kind_name(expected_kind) + " model in the preset."@),
    )
    &&& pins_bad ==> is_finding(
        issues[issues.len() - 1],
        ValidationSeverity::Error,
        model_label(role, model),
        "Component '"@ + model + "' has "@ + decimal(pins) + " pin mapping entries, expected "@
            + decimal(expected_pins) + "."@,
        Some("Correct the pin_order in the component definition."@),
    )
}

/// The role label of a model (see `model_label`).
fn model_label_text(role: &str, model: &str) -> (r: String)
    ensures
        r@ == model_label(role@, model@),
{
    let mut r = String::new();
    push_str(&mut r, role);
    push_str(&mut r, " (");
    push_str(&mut r, model);
    push_str(&mut r, ")");
    r
}

/// Checks a catalog part of kind `kind` with `pins` pin-mapping entries that
/// a preset uses as its `role` model (see `model_fit_findings`).
pub fn model_fit_issues(
    role: &str,
    model: &str,
    expected_kind: PartKind,
    expected_pins: usize,
    kind: PartKind,
    pins: usize,
) -> (issues: Vec<ValidationIssue>)
    ensures
        model_fit_findings(
            issues@,
            role@,
            model@,
            expected_kind,
            expected_pins as nat,
            kind,
            pins as nat,
        ),
{
    let mut issues: Vec<ValidationIssue> = Vec::new();
    if kind != expected_kind {
        let mut m = String::new();
        push_str(&mut m, "Component '");
        push_str(&mut m, model);
        push_str(&mut m, "' is classified as ");
        push_str(&mut m, kind.as_str());
        push_str(&mut m, ", expected ");
        push_str(&mut m, expected_kind.as_str());
        push_str(&mut m, ".");
        let mut sg = String::new();
        push_str(&mut sg, "Specify a valid ");
        push_str(&mut sg, expected_kind.as_str());
        push_str(&mut sg, " model in the preset.");
        issues.push(finding(ValidationSeverity::Error, model_label_text(role, model), m, Some(sg)));
    }
    if pins != expected_pins {
        let mut m = String::new();
        push_str(&mut m, "Component '");
        push_str(&mut m, model);
        push_str(&mut m, "' has ");
        push_decimal(&mut m, pins);
        push_str(&mut m, " pin mapping entries, expected ");
        push_decimal(&mut m, expected_pins);
        push_str(&mut m, ".");
        issues.push(
            finding(
                ValidationSeverity::Error,
                model_label_text(role, model),
                m,
                Some(text("Correct the pin_order in the component definition.")),
            ),
        );
    }
    issues
}

/// A report is valid exactly when no finding is an error.
pub fn report_is_valid(issues: &Vec<ValidationIssue>) -> (v: bool)
    ensures
        v == (severity_count(issues@, ValidationSeverity::Error) == 0),
{
    error_count(issues) == 0
}

/// One model a preset's validation looks up in the part catalog: its role,
/// the model's name, and the kind and pin count the role expects.
#[derive(Debug, Clone, PartialEq)]
pub struct ModelRole {
    pub role: String,
    pub model: String,
    pub kind: PartKind,
    pub pins: usize,
}

/// `r` is the role named `role` for `model`, expecting `kind` and `pins`.
pub open spec fn is_role(r: ModelRole, role: Seq<char>, model: Seq<char>, kind: PartKind, pins: nat) -> bool {
    r.role@ == role && r.model@ == model && r.kind == kind && r.pins == pins
}

/// The models a preset's validation checks, in order: the op-amp (five pins)
/// only when op-amps are allowed, then the NPN and PNP transistors (three
/// pins) and the diode (two pins).
pub open spec fn checked_role_list(roles: Seq<ModelRole>, allow_opamps: bool, m: PresetModels) -> bool {
    let k: int = if allow_opamps {
        1
    } else {
        0
    };
    &&& roles.len() == 3 + k
    &&& allow_opamps ==> is_role(roles[0], "Op-Amp"@, m.opamp@, PartKind::OpAmp, 5)
    &&& is_role(roles[k], "NPN BJT"@, m.bjt_npn@, PartKind::BjtNpn, 3)
    &&& is_role(roles[k + 1], "PNP BJT"@, m.bjt_pnp@, PartKind::BjtPnp, 3)
    &&& is_role(roles[k + 2], "Diode"@, m.diode@, PartKind::Diode, 2)
}

/// The model roles a preset's validation checks (see `checked_role_list`).
pub fn checked_roles(allow_opamps: bool, models: &PresetModels) -> (roles: Vec<ModelRole>)
    ensures
        checked_role_list(roles@, allow_opamps, *models),
{
    let mut roles: Vec<ModelRole> = Vec::new();
    if allow_opamps {
        roles.push(
            ModelRole { role: text("Op-Amp"), model: models.opamp.clone(), kind: PartKind::OpAmp, pins: 5 },
        );
    }
    roles.push(
        ModelRole { role: text("NPN BJT"), model: models.bjt_npn.clone(), kind: PartKind::BjtNpn, pins: 3 },
    );
    roles.push(
        ModelRole { role: text("PNP BJT"), model: models.bjt_pnp.clone(), kind: PartKind::BjtPnp, pins: 3 },
    );
    roles.push(ModelRole { role: text("Diode"), model: models.diode.clone(), kind: PartKind::Diode, pins: 2 });
    roles
}

/// The rule of `=` that frames a validation report.
pub open spec fn report_rule() -> Seq<char> {
    "=================================================================================\n"@
}

/// The report header: a framed title with the preset's name, then the status
/// line with the error and warning counts.
pub open spec fn diagnostic_header_text(name: Seq<char>, is_valid: bool, errors: nat, warnings: nat) -> Seq<char> {
    "\n"@ + report_rule() + "  \u{1F52C} PRESET & MODEL VALIDATION REPORT: "@ + name + "\n"@ + report_rule()
        + (if is_valid {
        "  Status:  READY FOR SIMULATION ("@
    } else {
        "  Status:  FAILED VALIDATION ("@
    }) + decimal(errors) + " Errors, "@ + decimal(warnings) + (if is_valid {
        " Warnings)\n\n"@
    } else {
        " Warnings) - NOT READY\n\n"@
    })
}

/// The tag that opens the report line of a finding.
pub open spec fn severity_tag(sev: ValidationSeverity) -> Seq<char> {
    match sev {
        ValidationSeverity::Error => "[ERROR]"@,
        ValidationSeverity::Warning => "[WARN] "@,
        ValidationSeverity::Info => "[INFO] "@,
    }
}

/// The report lines of one finding: tag, component and message, then the
/// suggestion when there is one.
pub open spec fn issue_text(i: ValidationIssue) -> Seq<char> {
    "  "@ + severity_tag(i.severity) + " "@ + i.component@ + ": "@ + i.message@ + "\n"@ + match i.suggestion {
        Some(s) => "         \u{21B3} Suggestion: "@ + s@ + "\n"@,
        None => Seq::empty(),
    }
}

/// The report lines of all findings, in order.
pub open spec fn issues_text(issues: Seq<ValidationIssue>) -> Seq<char>
    decreases issues.len(),
{
    if issues.len() == 0 {
        Seq::empty()
    } else {
        issues_text(issues.drop_last()) + issue_text(issues.last())
    }
}

/// The header of a validation report (see `diagnostic_header_text`).
pub fn diagnostic_header(preset_name: &str, is_valid: bool, issues: &Vec<ValidationIssue>) -> (s: String)
    ensures
        s@ == diagnostic_header_text(
            preset_name@,
            is_valid,
            severity_count(issues@, ValidationSeverity::Error),
            severity_count(issues@, ValidationSeverity::Warning),
        ),
{
    let errors = error_count(issues);
    let warnings = warning_count(issues);
    let mut s = String::new();
    push_str(&mut s, "\n");
    push_str(&mut s, "=================================================================================\n");
    push_str(&mut s, "  \u{1F52C} PRESET & MODEL VALIDATION REPORT: ");
    push_str(&mut s, preset_name);
    push_str(&mut s, "\n");
    push_str(&mut s, "=================================================================================\n");
    if is_valid {
        push_str(&mut s, "  Status:  READY FOR SIMULATION (");
    } else {
        push_str(&mut s, "  Status:  FAILED VALIDATION (");
    }
    push_decimal(&mut s, errors);
    push_str(&mut s, " Errors, ");
    push_decimal(&mut s, warnings);
    if is_valid {
        push_str(&mut s, " Warnings)\n\n");
    } else {
        push_str(&mut s, " Warnings) - NOT READY\n\n");
    }
    assert(s@ =~= diagnostic_header_text(
        preset_name@,
        is_valid,
        severity_count(issues@, ValidationSeverity::Error),
        severity_count(issues@, ValidationSeverity::Warning),
    ));
    s
}

/// The findings section of a validation report followed by the closing rule.
pub fn diagnostic_issues(issues: &Vec<ValidationIssue>) -> (s: String)
    ensures
        s@ == issues_text(issues@) + report_rule(),
{
    let mut s = String::new();
    let mut i: usize = 0;
    while i < issues.len()
        invariant
            0 <= i <= issues.len(),
            s@ == issues_text(issues@.take(i as int)),
        decreases issues.len() - i,
    {
        let issue = &issues[i];
        let ghost before = s@;
        push_str(&mut s, "  ");
        match issue.severity {
            ValidationSeverity::Error => push_str(&mut s, "[ERROR]"),
            ValidationSeverity::Warning => push_str(&mut s, "[WARN] "),
            ValidationSeverity::Info => push_str(&mut s, "[INFO] "),
        }
        push_str(&mut s, " ");
        push_str(&mut s, issue.component.as_str());
        push_str(&mut s, ": ");
        push_str(&mut s, issue.message.as_str());
        push_str(&mut s, "\n");
        match &issue.suggestion {
            Some(sug) => {
                push_str(&mut s, "         \u{21B3} Suggestion: ");
                push_str(&mut s, sug.as_str());
                push_str(&mut s, "\n");
            },
            None => {},
        }
        proof {
            assert(issues@.take(i + 1).drop_last() =~= issues@.take(i as int));
            assert(issues@.take(i + 1).last() == *issue);
            assert(s@ =~= before + issue_text(*issue));
        }
        i = i + 1;
    }
    assert(issues@.take(issues.len() as int) =~= issues@);
    push_str(&mut s, "=================================================================================\n");
    s
}

/// The documented template for defining a mission preset and its probes.
pub const PRESET_TEMPLATE: &'static str = "# ==============================================================================\n\
#   İmbik Mission Preset & Fitness Probe Definition Template\n\
#   Save this file as 'presets/<mission_name>.toml'\n\
#   Run with: imbik evolve --preset presets/<mission_name>.toml\n\
# ==============================================================================\n\n\
name = \"custom_audio_preamp\"\n\
description = \"Ultra Low-Noise Discrete Microphone Preamplifier (Gain >= 20, Noise < 2.5 nV/√Hz)\"\n\n\
# ------------------------------------------------------------------------------\n\
# Feasibility Gate Constraints:\n\
# Any candidate circuit violating these basic operating rules is rejected\n\
# before wasting time on full AC/Noise frequency sweeps.\n\
# ------------------------------------------------------------------------------\n\
feasibility_max_dc = 2.0        # Max allowable DC offset at output (V)\n\
feasibility_rail_margin = 0.5   # Headroom from power rails (V). Rejects railed/saturated nodes.\n\
allow_opamps = false            # Allow Op-Amps? (false = purely discrete BJT/diodes/passives)\n\n\
# ------------------------------------------------------------------------------\n\
# Component Models (Optional):\n\
# Specify custom imported or specific models to use in this mission.\n\
# If omitted, defaults to built-in models: TL072, 2N3904, 2N3906, 1N4148.\n\
# Can be specified as flat keys or under a [models] table.\n\
# ------------------------------------------------------------------------------\n\
# op_amp = \"MCP6002\"            # Active Op-Amp (e.g. MCP6002, TL072, NE5532, OPA2134)\n\
# bjt_npn = \"BC547B\"            # Active NPN BJT (e.g. BC547B, 2N3904)\n\
# bjt_pnp = \"BC557B\"            # Active PNP BJT (e.g. BC557B, 2N3906)\n\
# diode = \"BAT54\"               # Active Diode (e.g. BAT54, 1N4148, 1N5819)\n\
#\n\
# Or using table syntax:\n\
# [models]\n\
# opamp = \"OPA2134\"\n\
# bjt_npn = \"2N3904\"\n\
# bjt_pnp = \"2N3906\"\n\
# diode = \"1N4148\"\n\n\
# ------------------------------------------------------------------------------\n\
# Target Fitness Probes (Multi-Objective Optimization Vector):\n\
# Each probe measures a physical property under specific test conditions.\n\
#\n\
# Available probe_type:\n\
#   - \"Gain\"       : AC voltage gain magnitude (|Vout / Vin|)\n\
#   - \"Noise\"      : Input-referred noise density in nV/√Hz at target frequency\n\
#   - \"NoiseFig\"   : Noise figure in dB (referenced to r_source Johnson noise)\n\
#   - \"NoiseTotal\" : Integrated audio-band (20Hz - 20kHz) total noise in µV RMS\n\
#   - \"Zin\"        : Input impedance in Ohms (Ω)\n\
#   - \"Zout\"       : Output impedance in Ohms (Ω)\n\
#   - \"DcOffset\"   : Output DC offset voltage (|Vout_dc|) in Volts\n\
#   - \"Bom\"        : Total component count (penalizes excessive parts)\n\
#\n\
# Available kind (Scoring Functions):\n\
#   - \"Closeness\"  : Score = 1.0 when value == 'want'. Linearly drops to 0.0 at 'soft'.\n\
#   - \"Greater\"    : Score = 1.0 when value >= 'want'. Drops (logarithmic for Zin/gain) to 0.0 at 'soft'.\n\
#   - \"Lesser\"     : Score = 1.0 when value <= 'want'. Drops (logarithmic for noise) to 0.0 at 'soft'.\n\
#\n\
# Attributes:\n\
#   - want        : Ideal target value\n\
#   - soft        : Unacceptable / dropoff threshold value\n\
#   - weight      : Relative importance in multi-objective fitness (e.g. 1.0 - 5.0)\n\
#   - is_required : (alias: require) If true, candidate fails immediately (fitness = 0) if score <= 0.0\n\
# ------------------------------------------------------------------------------\n\n\
# Probe 1: Target AC Voltage Gain of 20x (+26 dB) at 1 kHz\n\
[[probes]]\n\
name = \"Gain@1kHz\"\n\
probe_type = \"Gain\"\n\
kind = \"Greater\"\n\
want = 20.0                     # Ideal gain: 20x\n\
soft = 1.0                      # Below 1x gain scores 0.0\n\
weight = 4.0                    # High priority\n\
is_required = true              # Hard requirement: must amplify!\n\
[probes.condition]\n\
freq = 1000.0                   # Test frequency: 1 kHz\n\
vin = 0.005                     # Input signal: 5 mV AC\n\
r_load = 10000.0                # Load resistance: 10 kΩ\n\
r_source = 200.0                # Source impedance: 200 Ω\n\n\
# Probe 2: Input-Referred Spot Noise Voltage at 1 kHz\n\
[[probes]]\n\
name = \"Noise@1kHz\"\n\
probe_type = \"Noise\"\n\
kind = \"Lesser\"\n\
want = 2.0                      # Ideal target: 2.0 nV/√Hz\n\
soft = 25.0                     # Above 25 nV/√Hz scores 0.0\n\
weight = 5.0                    # Highest optimization priority\n\
is_required = false\n\
[probes.condition]\n\
freq = 1000.0\n\
vin = 0.0                       # 0V input for pure noise spectrum measurement\n\
r_load = 10000.0\n\
r_source = 200.0\n\n\
# Probe 3: Input Impedance at 1 kHz\n\
[[probes]]\n\
name = \"Zin@1kHz\"\n\
probe_type = \"Zin\"\n\
kind = \"Greater\"\n\
want = 50000.0                  # Want Zin >= 50 kΩ (bridging impedance for 200Ω mic)\n\
soft = 2000.0                   # Below 2 kΩ severely loads source\n\
weight = 2.0\n\
is_required = false\n\
[probes.condition]\n\
freq = 1000.0\n\
vin = 0.005\n\
r_load = 10000.0\n\
r_source = 200.0\n\n\
# Probe 4: DC Output Offset (Zero-drop DC centering)\n\
[[probes]]\n\
name = \"DcOffset\"\n\
probe_type = \"DcOffset\"\n\
kind = \"Lesser\"\n\
want = 0.05                     # Centered within 50 mV\n\
soft = 1.50                     # Above 1.5V offset is unacceptable\n\
weight = 1.5\n\
is_required = true\n\
[probes.condition]\n\
freq = 1000.0\n\
vin = 0.0\n\
r_load = 10000.0\n\
r_source = 200.0\n\n\
# Probe 5: Parsimony / Bill of Materials (BOM) Count\n\
[[probes]]\n\
name = \"BOM_Count\"\n\
probe_type = \"Bom\"\n\
kind = \"Lesser\"\n\
want = 4.0                      # Reward elegant 4-component circuits\n\
soft = 10.0                     # Penalize bloated 10+ component circuits\n\
weight = 1.0\n\
is_required = false\n\
[probes.condition]\n\
freq = 1000.0\n\
vin = 0.0\n\
r_load = 10000.0\n\
r_source = 200.0\n";

/// The documented template for defining a mission preset and its probes.
pub fn template_toml() -> (t: &'static str)
    ensures
        t@ == PRESET_TEMPLATE@,
{
    PRESET_TEMPLATE
}

} // verus!
