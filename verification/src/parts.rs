//! The kinds of analog parts and the documented templates for defining new ones.

use vstd::prelude::*;
use crate::spice::string_views;
use crate::text::{fold, fold_char, push_char, push_str, str_chars};

verus! {

/// Broad classification of analog components.
#[derive(Debug, Clone, Copy, PartialEq, Eq, Hash, Structural)]
pub enum PartKind {
    OpAmp,
    BjtNpn,
    BjtPnp,
    Diode,
    JfetN,
    MosfetN,
}

/// The display name of a part kind.
pub open spec fn part_kind_name(k: PartKind) -> Seq<char> {
    match k {
        PartKind::OpAmp => "Op-Amp"@,
        PartKind::BjtNpn => "NPN BJT"@,
        PartKind::BjtPnp => "PNP BJT"@,
        PartKind::Diode => "Diode"@,
        PartKind::JfetN => "N-JFET"@,
        PartKind::MosfetN => "N-MOSFET"@,
    }
}

impl PartKind {
    /// The display name of the kind.
    pub fn as_str(&self) -> (s: &'static str)
        ensures
            s@ == part_kind_name(*self),
    {
        match self {
            PartKind::OpAmp => "Op-Amp",
            PartKind::BjtNpn => "NPN BJT",
            PartKind::BjtPnp => "PNP BJT",
            PartKind::Diode => "Diode",
            PartKind::JfetN => "N-JFET",
            PartKind::MosfetN => "N-MOSFET",
        }
    }
}

/// Semiconductor technology of an op-amp's input stage.
#[derive(Debug, Clone, Copy, PartialEq, Eq, Structural)]
pub enum InputStage {
    Jfet,
    Bjt,
    Cmos,
}

/// The display name of an input stage.
pub open spec fn input_stage_name(s: InputStage) -> Seq<char> {
    match s {
        InputStage::Jfet => "JFET (Ultra High-Z)"@,
        InputStage::Bjt => "Bipolar (Low Noise)"@,
        InputStage::Cmos => "CMOS (Rail-to-Rail)"@,
    }
}

impl InputStage {
    /// The display name of the input stage.
    pub fn as_str(&self) -> (s: &'static str)
        ensures
            s@ == input_stage_name(*self),
    {
        match self {
            InputStage::Jfet => "JFET (Ultra High-Z)",
            InputStage::Bjt => "Bipolar (Low Noise)",
            InputStage::Cmos => "CMOS (Rail-to-Rail)",
        }
    }
}

/// The part definition template for transistors.
pub const BJT_PART_TEMPLATE: &'static str = "# ==============================================================================\n\
#   İmbik Component Definition Template - BJT (Bipolar Junction Transistor)\n\
#   Save this file as 'parts/<name>.toml' and run: imbik part add parts/<name>.toml\n\
# ==============================================================================\n\n\
name = \"BC547B\"\n\
kind = \"BjtNpn\"                # Options: \"BjtNpn\", \"BjtPnp\"\n\
description = \"General Purpose NPN Audio Low-Noise Transistor (45V, 100mA, hFE=290)\"\n\n\
# ------------------------------------------------------------------------------\n\
# OPTION A: Direct SPICE .model text (if available from datasheet/manufacturer)\n\
# ------------------------------------------------------------------------------\n\
# spice_text = \".model BC547B NPN(Is=7.05f Bf=290 Vaf=100 Cjc=3.5p Cje=9p Rb=20 Kf=1e-16)\"\n\n\
# ------------------------------------------------------------------------------\n\
# OPTION B: Parametric datasheet synthesis (İmbik generates Gummel-Poon model)\n\
# ------------------------------------------------------------------------------\n\
[specs]\n\
input_stage = \"Bjt\"\n\
gbw_mhz = 300.0                # Transition frequency fT in MHz (sets junction capacitances)\n\
noise_spot_1k = 2.8            # Voltage noise density in nV/√Hz (sets base spreading resistance Rb)\n\
noise_corner_freq = 100.0      # Flicker noise corner frequency in Hz\n\
v_supply_max = 45.0            # Vceo collector-emitter breakdown voltage in Volts\n\
rail_margin_v = 0.2            # Vce(sat) saturation voltage in Volts (typically 0.1V - 0.3V)\n";

/// The part definition template for diodes.
pub const DIODE_PART_TEMPLATE: &'static str = "# ==============================================================================\n\
#   İmbik Component Definition Template - Diode\n\
#   Save this file as 'parts/<name>.toml' and run: imbik part add parts/<name>.toml\n\
# ==============================================================================\n\n\
name = \"1N4148\"\n\
kind = \"Diode\"\n\
description = \"High-speed silicon switching diode (100V, 200mA, trr=4ns)\"\n\n\
# ------------------------------------------------------------------------------\n\
# OPTION A: Direct SPICE .model text\n\
# ------------------------------------------------------------------------------\n\
# spice_text = \".model 1N4148 D(Is=2.52n Rs=0.568 N=1.752 Cjo=4p M=0.4 tt=5.76n)\"\n\n\
# ------------------------------------------------------------------------------\n\
# OPTION B: Parametric datasheet synthesis\n\
# ------------------------------------------------------------------------------\n\
[specs]\n\
rail_margin_v = 0.65           # Forward voltage drop Vf in Volts (e.g. 0.65V for Silicon, 0.35V for Schottky)\n\
v_supply_max = 100.0           # Reverse breakdown voltage BV in Volts\n";

/// The part definition template for op-amps (the default).
pub const OPAMP_PART_TEMPLATE: &'static str = "# ==============================================================================\n\
#   İmbik Component Definition Template - Op-Amp (Operational Amplifier)\n\
#   Save this file as 'parts/<name>.toml' and run: imbik part add parts/<name>.toml\n\
# ==============================================================================\n\n\
name = \"MCP6002\"\n\
kind = \"OpAmp\"                  # Options: \"OpAmp\", \"BjtNpn\", \"BjtPnp\", \"Diode\"\n\
description = \"Microchip 1MHz Low-Power Rail-to-Rail Dual CMOS Op-Amp\"\n\n\
# ------------------------------------------------------------------------------\n\
# OPTION A: If you have a vendor SPICE subcircuit or file, define either:\n\
# ------------------------------------------------------------------------------\n\
# spice_file = \"vendor/MCP6002.LIB\"\n\
# or\n\
# spice_text = \"\"\"\n\
# .subckt MCP6002 1 2 3 4 5\n\
# ...\n\
# .ends\n\
# \"\"\"\n\
# pin_order = [1, 2, 3, 4, 5]   # [IN+, IN-, VCC, VEE, OUT]\n\n\
# ------------------------------------------------------------------------------\n\
# OPTION B: If you do NOT have a SPICE model, fill datasheet specs below.\n\
# İmbik will automatically synthesize a precision Boyle macromodel!\n\
# ------------------------------------------------------------------------------\n\
[specs]\n\
# Semiconductor input stage technology:\n\
# \"Cmos\" -> Ultra High-Z (Zin > 1 TΩ), low bias current\n\
# \"Jfet\" -> High-Z (Zin > 100 GΩ), audio low noise\n\
# \"Bjt\"  -> Bipolar (Zin ~ 300 kΩ), ultra low voltage noise\n\
input_stage = \"Cmos\"\n\n\
# AC & Dynamic performance:\n\
gbw_mhz = 1.0                  # Gain-Bandwidth Product in MHz (e.g. 1.0 for LM358, 3.0 for TL072, 10.0 for NE5532)\n\
slew_rate_v_us = 0.6           # Slew Rate in V/µs (optional)\n\n\
# Noise performance:\n\
noise_spot_1k = 28.0           # Input voltage noise density at 1kHz in nV/√Hz (e.g. 5.0 for NE5532, 18.0 for TL072)\n\
noise_corner_freq = 150.0      # 1/f flicker noise corner frequency in Hz (optional, default: 100.0)\n\n\
# Rail headroom & saturation behavior:\n\
is_rrio = true                 # Rail-to-Rail Output: true (swings within 50mV) / false (1.5V drop)\n\
rail_margin_v = 0.05           # Output saturation margin from rails in Volts (e.g. 0.05 for RRIO, 1.5 for standard)\n\n\
# Supply voltage ratings:\n\
v_supply_min = 1.8             # Recommended minimum total supply in Volts (e.g. 1.8V for single supply, 6.0V for dual ±3V)\n\
v_supply_max = 6.0             # Absolute maximum supply rating in Volts (e.g. 6.0V, 36.0V for ±18V)\n";

/// `s` equals the ASCII word `w` once case-folded.
pub open spec fn folds_to(s: Seq<char>, w: Seq<char>) -> bool {
    s.len() == w.len() && forall|i: int| 0 <= i < s.len() ==> fold_char(#[trigger] s[i]) == w[i]
}

/// Which template a kind name asks for: 0 for transistors (`bjt`,
/// `transistor`, `npn`, `pnp`), 1 for diodes (`diode`), 2 for anything else;
/// case does not matter.
pub open spec fn template_choice(kind: Seq<char>) -> int {
    if folds_to(kind, "bjt"@) || folds_to(kind, "transistor"@) || folds_to(kind, "npn"@) || folds_to(
        kind,
        "pnp"@,
    ) {
        0
    } else if folds_to(kind, "diode"@) {
        1
    } else {
        2
    }
}

/// Does `s` fold to the word `w`?
fn chars_fold_to(s: &Vec<char>, w: &str) -> (r: bool)
    ensures
        r == folds_to(s@, w@),
{
    let wv = str_chars(w);
    if s.len() != wv.len() {
        return false;
    }
    let mut i: usize = 0;
    while i < s.len()
        invariant
            s.len() == wv.len(),
            wv@ == w@,
            0 <= i <= s.len(),
            forall|j: int| 0 <= j < i ==> fold_char(#[trigger] s@[j]) == wv@[j],
        decreases s.len() - i,
    {
        if fold(s[i]) != wv[i] {
            return false;
        }
        i = i + 1;
    }
    true
}

/// The documented TOML template for defining a custom part of the given kind
/// (see `template_choice`).
pub fn template_toml(kind: &str) -> (t: &'static str)
    ensures
        template_choice(kind@) == 0 ==> t@ == BJT_PART_TEMPLATE@,
        template_choice(kind@) == 1 ==> t@ == DIODE_PART_TEMPLATE@,
        template_choice(kind@) == 2 ==> t@ == OPAMP_PART_TEMPLATE@,
{
    let k = str_chars(kind);
    if chars_fold_to(&k, "bjt") || chars_fold_to(&k, "transistor") || chars_fold_to(&k, "npn")
        || chars_fold_to(&k, "pnp") {
        BJT_PART_TEMPLATE
    } else if chars_fold_to(&k, "diode") {
        DIODE_PART_TEMPLATE
    } else {
        OPAMP_PART_TEMPLATE
    }
}

/// `t` ending in a newline: unchanged when it already does, else with one
/// appended.
pub open spec fn newline_terminated(t: Seq<char>) -> Seq<char> {
    if t.len() > 0 && t.last() == '\n' {
        t
    } else {
        t.push('\n')
    }
}

/// Appends the SPICE text of a part model, ending it with a newline when it
/// has none.
pub fn push_model_text(out: &mut String, text: &str)
    ensures
        final(out)@ == old(out)@ + newline_terminated(text@),
{
    let n = text.unicode_len();
    push_str(out, text);
    if n == 0 || text.get_char(n - 1) != '\n' {
        push_char(out, '\n');
    }
}

/// The first line of a model preamble.
pub open spec fn preamble_title() -> Seq<char> {
    "* === Dynamic Component Catalog Preamble ===\n"@
}

/// The model texts one after the other, each ending in a newline.
pub open spec fn model_texts(ts: Seq<Seq<char>>) -> Seq<char>
    decreases ts.len(),
{
    if ts.len() == 0 {
        Seq::empty()
    } else {
        model_texts(ts.drop_last()) + newline_terminated(ts.last())
    }
}

/// A SPICE preamble declaring the given part models, in the given order:
/// the preamble's title line, then each model text ending in a newline.
pub fn model_preamble(texts: &Vec<String>) -> (s: String)
    ensures
        s@ == preamble_title() + model_texts(string_views(texts@)),
{
    let mut s = String::new();
    push_str(&mut s, "* === Dynamic Component Catalog Preamble ===\n");
    let mut i: usize = 0;
    while i < texts.len()
        invariant
            0 <= i <= texts.len(),
            s@ == preamble_title() + model_texts(string_views(texts@.take(i as int))),
        decreases texts.len() - i,
    {
        proof {
            assert(string_views(texts@.take(i + 1)).drop_last() =~= string_views(texts@.take(i as int)));
        }
        push_model_text(&mut s, texts[i].as_str());
        i = i + 1;
    }
    assert(texts@.take(texts.len() as int) =~= texts@);
    s
}

/// How the bytes of a part file are decoded, by their byte-order mark.
#[derive(Debug, Clone, Copy, PartialEq, Eq)]
pub enum TextEncoding {
    /// `FF FE`: UTF-16, little-endian, after the mark.
    Utf16Le,
    /// `EF BB BF`: UTF-8 after the mark.
    Utf8Bom,
    /// No mark: UTF-8 throughout.
    Utf8,
}

/// The encoding that the leading bytes of `b` announce.
pub open spec fn encoding_of(b: Seq<u8>) -> TextEncoding {
    if b.len() >= 2 && b[0] == 0xFF && b[1] == 0xFE {
        TextEncoding::Utf16Le
    } else if b.len() >= 3 && b[0] == 0xEF && b[1] == 0xBB && b[2] == 0xBF {
        TextEncoding::Utf8Bom
    } else {
        TextEncoding::Utf8
    }
}

/// Reads the byte-order mark of a part file's bytes.
pub fn detect_encoding(bytes: &[u8]) -> (e: TextEncoding)
    ensures
        e == encoding_of(bytes@),
{
    if bytes.len() >= 2 && bytes[0] == 0xFF && bytes[1] == 0xFE {
        TextEncoding::Utf16Le
    } else if bytes.len() >= 3 && bytes[0] == 0xEF && bytes[1] == 0xBB && bytes[2] == 0xBF {
        TextEncoding::Utf8Bom
    } else {
        TextEncoding::Utf8
    }
}

/// The little-endian 16-bit units of `b`, two bytes each; an odd last byte
/// is dropped.
pub open spec fn le_units(b: Seq<u8>) -> Seq<u16> {
    Seq::new(b.len() / 2, |i: int| (b[2 * i] + 256 * b[2 * i + 1]) as u16)
}

/// Pairs bytes into little-endian UTF-16 units (see `le_units`).
pub fn utf16_le_units(bytes: &[u8]) -> (v: Vec<u16>)
    ensures
        v@ == le_units(bytes@),
{
    let n = bytes.len() / 2;
    let mut v: Vec<u16> = Vec::new();
    let mut i: usize = 0;
    while i < n
        invariant
            n == bytes@.len() / 2,
            bytes@.len() == bytes.len(),
            0 <= i <= n,
            v@ == le_units(bytes@).take(i as int),
        decreases n - i,
    {
        assert(2 * i + 1 < bytes@.len() <= usize::MAX);
        let j: usize = 2 * i;
        let lo = bytes[j] as u16;
        let hi = bytes[j + 1] as u16;
        assert(lo < 256 && hi < 256);
        let u: u16 = lo + 256 * hi;
        v.push(u);
        i = i + 1;
        assert(v@ =~= le_units(bytes@).take(i as int));
    }
    assert(v@ =~= le_units(bytes@));
    v
}

} // verus!
