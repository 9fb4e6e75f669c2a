//! Reading part models out of vendor SPICE libraries (`.lib`, `.sub`, `.mod`,
//! `.cir`) and out of part definition files.

use vstd::prelude::*;
use crate::parts::{folds_to, PartKind};
use crate::spice::{join, join_strings, lines_of, split_lines, string_views};
use crate::text::{
    chars_start_with, chars_to_string, fold, fold_char, is_white_space, push_str, starts_with,
    str_chars, trim_bounds, trimmed, white_space,
};

verus! {

/// What `str::to_uppercase` returns for `s` (full Unicode upper-casing).
pub uninterp spec fn uppercase(s: Seq<char>) -> Seq<char>;

/// `str::to_uppercase`: the Unicode upper case of `s`. The contract only
/// names the result; which characters map to what is left to the standard
/// library's Unicode tables.
#[verifier::external_body]
fn to_upper(s: &str) -> (r: String)
    ensures
        r@ == uppercase(s@),
{
    s.to_uppercase()
}

/// The words of `s` after the partial word `cur`: maximal runs of
/// characters that are not white space.
pub open spec fn words_from(s: Seq<char>, cur: Seq<char>) -> Seq<Seq<char>>
    decreases s.len(),
{
    if s.len() == 0 {
        if cur.len() > 0 {
            seq![cur]
        } else {
            Seq::empty()
        }
    } else if is_white_space(s[0]) {
        (if cur.len() > 0 {
            seq![cur]
        } else {
            Seq::empty()
        }) + words_from(s.drop_first(), Seq::empty())
    } else {
        words_from(s.drop_first(), cur.push(s[0]))
    }
}

/// The words of `s`, as `str::split_whitespace` yields them.
pub open spec fn words(s: Seq<char>) -> Seq<Seq<char>> {
    words_from(s, Seq::empty())
}

/// Splits `v` into words (see `words`).
fn split_words(v: &Vec<char>) -> (ws: Vec<String>)
    ensures
        string_views(ws@) == words(v@),
{
    let mut ws: Vec<String> = Vec::new();
    let mut cur: Vec<char> = Vec::new();
    let mut i: usize = 0;
    assert(v@.skip(0) =~= v@);
    while i < v.len()
        invariant
            0 <= i <= v.len(),
            words(v@) == string_views(ws@) + words_from(v@.skip(i as int), cur@),
        decreases v.len() - i,
    {
        let ghost rest = v@.skip(i as int);
        assert(rest[0] == v@[i as int]);
        assert(rest.drop_first() =~= v@.skip(i + 1));
        let c = v[i];
        if white_space(c) {
            if cur.len() > 0 {
                let w = chars_to_string(&cur, 0, cur.len());
                assert(w@ =~= cur@);
                let ghost before = ws@;
                ws.push(w);
                assert(string_views(ws@) =~= string_views(before).push(w@));
                assert(string_views(before) + (seq![cur@] + words_from(v@.skip(i + 1), Seq::empty()))
                    =~= string_views(ws@) + words_from(v@.skip(i + 1), Seq::empty()));
                cur = Vec::new();
                assert(cur@ =~= Seq::<char>::empty());
            } else {
                assert(Seq::<Seq<char>>::empty() + words_from(v@.skip(i + 1), Seq::empty())
                    =~= words_from(v@.skip(i + 1), Seq::empty()));
                assert(cur@ =~= Seq::<char>::empty());
            }
        } else {
            cur.push(c);
        }
        i = i + 1;
    }
    assert(v@.skip(i as int) =~= Seq::<char>::empty());
    if cur.len() > 0 {
        let w = chars_to_string(&cur, 0, cur.len());
        assert(w@ =~= cur@);
        let ghost before = ws@;
        ws.push(w);
        assert(string_views(ws@) =~= string_views(before) + seq![w@]);
    } else {
        assert(string_views(ws@) =~= string_views(ws@) + Seq::<Seq<char>>::empty());
    }
    ws
}

/// A part model read from a vendor file.
#[derive(Debug, Clone, PartialEq)]
pub struct VendorPart {
    pub name: String,
    pub kind: PartKind,
    pub pin_order: Vec<usize>,
    pub spice_text: String,
    pub description: String,
}

/// Mathematical model of a vendor part.
pub struct VendorPartView {
    pub name: Seq<char>,
    pub kind: PartKind,
    pub pin_order: Seq<usize>,
    pub spice_text: Seq<char>,
    pub description: Seq<char>,
}

impl View for VendorPart {
    type V = VendorPartView;

    open spec fn view(&self) -> VendorPartView {
        VendorPartView {
            name: self.name@,
            kind: self.kind,
            pin_order: self.pin_order@,
            spice_text: self.spice_text@,
            description: self.description@,
        }
    }
}

/// The views of a list of parts.
pub open spec fn part_views(v: Seq<VendorPart>) -> Seq<VendorPartView> {
    v.map_values(|p: VendorPart| p@)
}

/// The pin order used for a part of `kind` when none is given: op-amps
/// `[1, 2, 3, 4, 5]`, diodes `[0, 1]`, everything else `[0, 1, 2]`.
pub open spec fn default_pin_order(kind: PartKind) -> Seq<usize> {
    match kind {
        PartKind::OpAmp => seq![1, 2, 3, 4, 5],
        PartKind::Diode => seq![0, 1],
        _ => seq![0, 1, 2],
    }
}

/// The default pin order of a part kind (see `default_pin_order`).
pub fn pin_order_for(kind: PartKind) -> (v: Vec<usize>)
    ensures
        v@ == default_pin_order(kind),
{
    let v = match kind {
        PartKind::OpAmp => vec![1, 2, 3, 4, 5],
        PartKind::Diode => vec![0, 1],
        _ => vec![0, 1, 2],
    };
    assert(v@ =~= default_pin_order(kind));
    v
}

/// The part a closed `.SUBCKT` block defines: its kind follows from the
/// number of pins (five or more: op-amp; three: NPN transistor; otherwise a
/// diode).
pub open spec fn subckt_part(name: Seq<char>, pins: nat, body: Seq<char>, source: Seq<char>) -> VendorPartView {
    let kind = if pins >= 5 {
        PartKind::OpAmp
    } else if pins == 3 {
        PartKind::BjtNpn
    } else {
        PartKind::Diode
    };
    VendorPartView {
        name,
        kind,
        pin_order: default_pin_order(kind),
        spice_text: body,
        description: "Vendor Imported Subcircuit from "@ + source,
    }
}

/// A closed `.SUBCKT` block is classified by its pin count alone: three pins
/// make an NPN transistor with pins in order (0, 1, 2), five or more an
/// op-amp with pins (1, 2, 3, 4, 5), and any other count (fewer than three, or
/// four) a diode with pins (0, 1). The part keeps the block's name and text.
pub proof fn lemma_subckt_kind_by_pin_count(name: Seq<char>, pins: nat, body: Seq<char>, source: Seq<char>)
    ensures
        subckt_part(name, pins, body, source).name == name,
        subckt_part(name, pins, body, source).spice_text == body,
        pins == 3 ==> subckt_part(name, pins, body, source).kind == PartKind::BjtNpn && subckt_part(
            name,
            pins,
            body,
            source,
        ).pin_order == seq![0usize, 1, 2],
        pins >= 5 ==> subckt_part(name, pins, body, source).kind == PartKind::OpAmp && subckt_part(
            name,
            pins,
            body,
            source,
        ).pin_order == seq![1usize, 2, 3, 4, 5],
        pins < 3 || pins == 4 ==> subckt_part(name, pins, body, source).kind == PartKind::Diode
            && subckt_part(name, pins, body, source).pin_order == seq![0usize, 1],
{
}

/// The part a `.MODEL` line defines: NPN or PNP transistors by the model
/// type's prefix, a diode otherwise.
pub open spec fn model_part(name: Seq<char>, model_type: Seq<char>, line: Seq<char>, source: Seq<char>) -> VendorPartView {
    let kind = if starts_with(model_type, "NPN"@) {
        PartKind::BjtNpn
    } else if starts_with(model_type, "PNP"@) {
        PartKind::BjtPnp
    } else {
        PartKind::Diode
    };
    VendorPartView {
        name,
        kind,
        pin_order: default_pin_order(kind),
        spice_text: line + "\n"@,
        description: "Vendor Imported Model from "@ + source,
    }
}

/// One line of a vendor file as the scanner reads it: the trimmed text, its
/// upper case, and the upper case of its second and third words (empty when
/// the line has fewer words).
pub struct UpperLine {
    pub text: String,
    pub upper: String,
    pub name_upper: String,
    pub type_upper: String,
}

/// Mathematical model of an `UpperLine`.
pub struct UpperLineView {
    pub text: Seq<char>,
    pub upper: Seq<char>,
    pub name_upper: Seq<char>,
    pub type_upper: Seq<char>,
}

impl View for UpperLine {
    type V = UpperLineView;

    open spec fn view(&self) -> UpperLineView {
        UpperLineView {
            text: self.text@,
            upper: self.upper@,
            name_upper: self.name_upper@,
            type_upper: self.type_upper@,
        }
    }
}

/// The views of a list of scanned lines.
pub open spec fn upper_line_views(v: Seq<UpperLine>) -> Seq<UpperLineView> {
    v.map_values(|l: UpperLine| l@)
}

/// How the scanner reads raw line `l`: trimmed, with `str::to_uppercase` of
/// the text and of its second and third words.
pub open spec fn upper_line_of(l: Seq<char>) -> UpperLineView {
    let t = trimmed(l);
    let ws = words(t);
    UpperLineView {
        text: t,
        upper: uppercase(t),
        name_upper: if ws.len() >= 2 {
            uppercase(ws[1])
        } else {
            Seq::empty()
        },
        type_upper: if ws.len() >= 3 {
            uppercase(ws[2])
        } else {
            Seq::empty()
        },
    }
}

/// The parts defined by the scanned `lines`, given the `.SUBCKT` block open
/// before them (its upper-cased name, its pin count and its text so far).
/// `.SUBCKT`, `.ENDS` and `.MODEL` are recognized on the upper-cased text; a
/// `.SUBCKT` line opens a block named by its upper-cased second word
/// (dropping an unfinished one), lines of an open block are collected up to
/// its `.ENDS`, and a `.MODEL` line outside a block defines a model named and
/// typed by its upper-cased second and third words.
pub open spec fn scan_lines(
    lines: Seq<UpperLineView>,
    open: Option<(Seq<char>, nat, Seq<char>)>,
    source: Seq<char>,
) -> Seq<VendorPartView>
    decreases lines.len(),
{
    if lines.len() == 0 {
        Seq::empty()
    } else {
        let l = lines[0];
        let t = l.text;
        let up = l.upper;
        let rest = lines.drop_first();
        if starts_with(up, ".SUBCKT"@) {
            let ws = words(t);
            if ws.len() >= 2 {
                scan_lines(rest, Some((l.name_upper, (ws.len() - 2) as nat, t + "\n"@)), source)
            } else {
                scan_lines(rest, open, source)
            }
        } else if open is Some {
            let (name, pins, body) = open->0;
            let body2 = body + t + "\n"@;
            if starts_with(up, ".ENDS"@) {
                seq![subckt_part(name, pins, body2, source)] + scan_lines(rest, None, source)
            } else {
                scan_lines(rest, Some((name, pins, body2)), source)
            }
        } else if starts_with(up, ".MODEL"@) {
            let ws = words(t);
            if ws.len() >= 3 {
                seq![model_part(l.name_upper, l.type_upper, t, source)] + scan_lines(
                    rest,
                    None,
                    source,
                )
            } else {
                scan_lines(rest, None, source)
            }
        } else {
            scan_lines(rest, None, source)
        }
    }
}

/// The parts defined by the raw `lines` of a vendor file (see `scan_lines`),
/// each line read as `upper_line_of` reads it.
pub open spec fn scan_models(
    lines: Seq<Seq<char>>,
    open: Option<(Seq<char>, nat, Seq<char>)>,
    source: Seq<char>,
) -> Seq<VendorPartView> {
    scan_lines(lines.map_values(|l: Seq<char>| upper_line_of(l)), open, source)
}

/// The parts a vendor file defines: those found by `scan_models`, or, when
/// there are none and the file is not blank, the whole file as one op-amp
/// macromodel named after the upper-cased file stem.
pub open spec fn vendor_parts(content: Seq<char>, stem: Seq<char>, source: Seq<char>) -> Seq<VendorPartView> {
    let found = scan_models(lines_of(content), None, source);
    if found.len() == 0 && trimmed(content).len() > 0 {
        seq![
            VendorPartView {
                name: uppercase(stem),
                kind: PartKind::OpAmp,
                pin_order: default_pin_order(PartKind::OpAmp),
                spice_text: content,
                description: "Vendor Imported Macromodel from "@ + source,
            },
        ]
    } else {
        found
    }
}

/// `prefix` followed by `tail`.
fn concat2(prefix: &str, tail: &str) -> (s: String)
    ensures
        s@ == prefix@ + tail@,
{
    let mut s = String::new();
    push_str(&mut s, prefix);
    push_str(&mut s, tail);
    s
}

/// The part of a closed `.SUBCKT` block (see `subckt_part`).
fn build_subckt_part(name: &String, pins: usize, body: &String, source: &str) -> (p: VendorPart)
    ensures
        p@ == subckt_part(name@, pins as nat, body@, source@),
{
    let kind = if pins >= 5 {
        PartKind::OpAmp
    } else if pins == 3 {
        PartKind::BjtNpn
    } else {
        PartKind::Diode
    };
    VendorPart {
        name: name.clone(),
        kind,
        pin_order: pin_order_for(kind),
        spice_text: body.clone(),
        description: concat2("Vendor Imported Subcircuit from ", source),
    }
}

/// The part of a `.MODEL` line (see `model_part`).
fn build_model_part(name: String, model_type: &String, line: &String, source: &str) -> (p: VendorPart)
    ensures
        p@ == model_part(name@, model_type@, line@, source@),
{
    let tv = str_chars(model_type.as_str());
    let kind = if chars_start_with(&tv, "NPN") {
        PartKind::BjtNpn
    } else if chars_start_with(&tv, "PNP") {
        PartKind::BjtPnp
    } else {
        PartKind::Diode
    };
    VendorPart {
        name,
        kind,
        pin_order: pin_order_for(kind),
        spice_text: concat2(line.as_str(), "\n"),
        description: concat2("Vendor Imported Model from ", source),
    }
}

/// The parts defined by the scanned lines of a vendor file (see
/// `scan_lines`); `source` is how the file is named in the parts'
/// descriptions.
pub fn scan_vendor_lines(lines: &Vec<UpperLine>, source: &str) -> (parts: Vec<VendorPart>)
    ensures
        part_views(parts@) == scan_lines(upper_line_views(lines@), None, source@),
{
    let ghost rv = upper_line_views(lines@);
    let mut parts: Vec<VendorPart> = Vec::new();
    let mut open = false;
    let mut name = String::new();
    let mut pins: usize = 0;
    let mut body = String::new();
    let mut i: usize = 0;
    assert(rv.skip(0) =~= rv);
    while i < lines.len()
        invariant
            rv == upper_line_views(lines@),
            0 <= i <= lines.len(),
            scan_lines(rv, None, source@) == part_views(parts@) + scan_lines(
                rv.skip(i as int),
                if open {
                    Some((name@, pins as nat, body@))
                } else {
                    None
                },
                source@,
            ),
        decreases lines.len() - i,
    {
        let ghost rest = rv.skip(i as int);
        let ghost state = if open {
            Some((name@, pins as nat, body@))
        } else {
            None::<(Seq<char>, nat, Seq<char>)>
        };
        proof {
            assert(rest[0] == lines@[i as int]@);
            assert(rest.drop_first() =~= rv.skip(i + 1));
        }
        let t = &lines[i].text;
        let tv = str_chars(t.as_str());
        let upv = str_chars(lines[i].upper.as_str());
        let ghost before = parts@;
        if chars_start_with(&upv, ".SUBCKT") {
            let ws = split_words(&tv);
            if ws.len() >= 2 {
                name = lines[i].name_upper.clone();
                pins = ws.len() - 2;
                body = concat2(t.as_str(), "\n");
                open = true;
            }
        } else if open {
            let mut next_body = String::new();
            push_str(&mut next_body, body.as_str());
            push_str(&mut next_body, t.as_str());
            push_str(&mut next_body, "\n");
            body = next_body;
            if chars_start_with(&upv, ".ENDS") {
                let p = build_subckt_part(&name, pins, &body, source);
                parts.push(p);
                proof {
                    assert(part_views(parts@) =~= part_views(before).push(p@));
                    assert(part_views(before) + (seq![p@] + scan_lines(rv.skip(i + 1), None, source@))
                        =~= part_views(parts@) + scan_lines(rv.skip(i + 1), None, source@));
                }
                open = false;
            }
        } else if chars_start_with(&upv, ".MODEL") {
            let ws = split_words(&tv);
            if ws.len() >= 3 {
                let model_name = lines[i].name_upper.clone();
                let model_type = lines[i].type_upper.clone();
                let p = build_model_part(model_name, &model_type, t, source);
                parts.push(p);
                proof {
                    assert(part_views(parts@) =~= part_views(before).push(p@));
                    assert(part_views(before) + (seq![p@] + scan_lines(rv.skip(i + 1), None, source@))
                        =~= part_views(parts@) + scan_lines(rv.skip(i + 1), None, source@));
                }
            }
        }
        i = i + 1;
    }
    assert(rv.skip(i as int) =~= Seq::<UpperLineView>::empty());
    assert(part_views(parts@) =~= part_views(parts@) + Seq::<VendorPartView>::empty());
    parts
}

/// How the scanner reads one raw line (see `upper_line_of`).
fn read_upper_line(line: &str) -> (l: UpperLine)
    ensures
        l@ == upper_line_of(line@),
{
    let raw = str_chars(line);
    let (a, b) = trim_bounds(&raw);
    let t = chars_to_string(&raw, a, b);
    let tv = str_chars(t.as_str());
    let ws = split_words(&tv);
    let upper = to_upper(t.as_str());
    let name_upper = if ws.len() >= 2 {
        to_upper(ws[1].as_str())
    } else {
        String::new()
    };
    let type_upper = if ws.len() >= 3 {
        to_upper(ws[2].as_str())
    } else {
        String::new()
    };
    UpperLine { text: t, upper, name_upper, type_upper }
}

/// Reads the parts defined in the text of a vendor SPICE file (see
/// `vendor_parts`). `stem` is the file's stem, `source` how the file is named
/// in the parts' descriptions.
pub fn parse_vendor_models(content: &str, stem: &str, source: &str) -> (parts: Vec<VendorPart>)
    ensures
        part_views(parts@) == vendor_parts(content@, stem@, source@),
{
    let chars = str_chars(content);
    let raw_lines = split_lines(&chars);
    let ghost lv = string_views(raw_lines@);
    let mut lines: Vec<UpperLine> = Vec::new();
    let mut i: usize = 0;
    while i < raw_lines.len()
        invariant
            lv == string_views(raw_lines@),
            0 <= i <= raw_lines.len(),
            upper_line_views(lines@) == lv.take(i as int).map_values(|l: Seq<char>| upper_line_of(l)),
        decreases raw_lines.len() - i,
    {
        let l = read_upper_line(raw_lines[i].as_str());
        let ghost prev = upper_line_views(lines@);
        let ghost lw = l@;
        proof {
            assert(lv[i as int] == raw_lines@[i as int]@);
        }
        lines.push(l);
        proof {
            assert(upper_line_views(lines@) =~= prev.push(lw));
            assert(lv.take(i + 1) =~= lv.take(i as int).push(lv[i as int]));
            assert(lv.take(i + 1).map_values(|l: Seq<char>| upper_line_of(l)) =~= lv.take(
                i as int,
            ).map_values(|l: Seq<char>| upper_line_of(l)).push(upper_line_of(lv[i as int])));
        }
        i = i + 1;
    }
    assert(lv.take(i as int) =~= lv);
    let mut parts = scan_vendor_lines(&lines, source);
    if parts.len() == 0 {
        let cv = str_chars(content);
        let (a, b) = trim_bounds(&cv);
        if a < b {
            let mut text = String::new();
            push_str(&mut text, content);
            let p = VendorPart {
                name: to_upper(stem),
                kind: PartKind::OpAmp,
                pin_order: pin_order_for(PartKind::OpAmp),
                spice_text: text,
                description: concat2("Vendor Imported Macromodel from ", source),
            };
            parts.push(p);
            assert(part_views(parts@) =~= seq![p@]);
        }
    }
    parts
}

/// The part kind a definition file names: `opamp`, `bjtnpn`/`npn`,
/// `bjtpnp`/`pnp`, `diode`, `jfetn`/`jfet`, `mosfetn`/`mosfet` in any case;
/// anything else is taken for an op-amp.
pub open spec fn kind_named(k: Seq<char>) -> PartKind {
    if folds_to(k, "opamp"@) {
        PartKind::OpAmp
    } else if folds_to(k, "bjtnpn"@) || folds_to(k, "npn"@) {
        PartKind::BjtNpn
    } else if folds_to(k, "bjtpnp"@) || folds_to(k, "pnp"@) {
        PartKind::BjtPnp
    } else if folds_to(k, "diode"@) {
        PartKind::Diode
    } else if folds_to(k, "jfetn"@) || folds_to(k, "jfet"@) {
        PartKind::JfetN
    } else if folds_to(k, "mosfetn"@) || folds_to(k, "mosfet"@) {
        PartKind::MosfetN
    } else {
        PartKind::OpAmp
    }
}

/// Does `s` fold to the word `w`?
fn fold_equals(s: &Vec<char>, w: &str) -> (r: bool)
    ensures
        r == folds_to(s@, w@),
{
    let wv = str_chars(w);
    if s.len() != wv.len() {
        return false;
    }
    let mut i: usize = 0;
    while i < s.len()
        invariant
            s.len() == wv.len(),
            wv@ == w@,
            0 <= i <= s.len(),
            forall|j: int| 0 <= j < i ==> fold_char(#[trigger] s@[j]) == wv@[j],
        decreases s.len() - i,
    {
        if fold(s[i]) != wv[i] {
            return false;
        }
        i = i + 1;
    }
    true
}

/// The part kind named in a definition file (see `kind_named`).
pub fn part_kind_from_name(kind: &str) -> (k: PartKind)
    ensures
        k == kind_named(kind@),
{
    let v = str_chars(kind);
    if fold_equals(&v, "opamp") {
        PartKind::OpAmp
    } else if fold_equals(&v, "bjtnpn") || fold_equals(&v, "npn") {
        PartKind::BjtNpn
    } else if fold_equals(&v, "bjtpnp") || fold_equals(&v, "pnp") {
        PartKind::BjtPnp
    } else if fold_equals(&v, "diode") {
        PartKind::Diode
    } else if fold_equals(&v, "jfetn") || fold_equals(&v, "jfet") {
        PartKind::JfetN
    } else if fold_equals(&v, "mosfetn") || fold_equals(&v, "mosfet") {
        PartKind::MosfetN
    } else {
        PartKind::OpAmp
    }
}

/// A banner line that may open a part definition file: once trimmed it
/// starts with `===`, `İmbik` or `Autonomous`.
pub open spec fn is_banner_line(l: Seq<char>) -> bool {
    let t = trimmed(l);
    starts_with(t, "==="@) || starts_with(t, "\u{130}mbik"@) || starts_with(t, "Autonomous"@)
}

/// `ls` without its leading banner lines.
pub open spec fn skip_banner(ls: Seq<Seq<char>>) -> Seq<Seq<char>>
    decreases ls.len(),
{
    if ls.len() > 0 && is_banner_line(ls[0]) {
        skip_banner(ls.drop_first())
    } else {
        ls
    }
}

/// Is line `i` a banner line?
fn banner_at(lines: &Vec<String>, i: usize) -> (r: bool)
    requires
        i < lines.len(),
    ensures
        r == is_banner_line(lines@[i as int]@),
{
    let raw = str_chars(lines[i].as_str());
    let (a, b) = trim_bounds(&raw);
    let t = chars_to_string(&raw, a, b);
    let tv = str_chars(t.as_str());
    chars_start_with(&tv, "===") || chars_start_with(&tv, "\u{130}mbik") || chars_start_with(
        &tv,
        "Autonomous",
    )
}

/// Removes the banner lines at the top of a part definition file and joins
/// the remaining lines with newlines.
pub fn strip_toml_banner(content: &str) -> (r: String)
    ensures
        r@ == join(skip_banner(lines_of(content@)), "\n"@),
{
    let chars = str_chars(content);
    let lines = split_lines(&chars);
    let ghost lv = string_views(lines@);
    let mut i: usize = 0;
    assert(lv.skip(0) =~= lv);
    while i < lines.len() && banner_at(&lines, i)
        invariant
            lv == string_views(lines@),
            0 <= i <= lines.len(),
            skip_banner(lv) == skip_banner(lv.skip(i as int)),
        decreases lines.len() - i,
    {
        proof {
            assert(lv.skip(i as int)[0] == lines@[i as int]@);
            assert(lv.skip(i as int).drop_first() =~= lv.skip(i + 1));
        }
        i = i + 1;
    }
    if i == lines.len() {
        assert(lv.skip(i as int) =~= Seq::<Seq<char>>::empty());
    } else {
        assert(lv.skip(i as int)[0] == lines@[i as int]@);
    }
    join_strings(&lines, i, "\n")
}

} // verus!
