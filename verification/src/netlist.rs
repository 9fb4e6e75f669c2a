//! SPICE netlist text produced from the circuit model.

use vstd::prelude::*;
use crate::circuit::{
    type_letter, Circuit, CircuitView, Component, ComponentView, NODE_GND, NODE_VCC, NODE_VEE,
    SPICE_HEADERS,
};
use crate::text::{
    contains_text, occurs_at, decimal, digit_char, pad_right, push_char, push_decimal, push_decimal_padded_right,
    push_decimal_u64, push_str,
};

verus! {

/// Node numbers in decimal, separated by single spaces.
pub open spec fn join_decimal(ns: Seq<usize>) -> Seq<char>
    decreases ns.len(),
{
    if ns.len() == 0 {
        Seq::empty()
    } else if ns.len() == 1 {
        decimal(ns[0] as nat)
    } else {
        join_decimal(ns.drop_last()) + seq![' '] + decimal(ns.last() as nat)
    }
}

/// One element line: letter, id left-aligned in four columns, pins, value.
pub open spec fn component_line(c: ComponentView) -> Seq<char> {
    seq![type_letter(c.comp_type)] + pad_right(decimal(c.id as nat), 4) + seq![' '] + join_decimal(
        c.nodes,
    ) + seq![' '] + c.value + seq!['\n']
}

/// Element lines of all components, in order.
pub open spec fn component_block(cs: Seq<ComponentView>) -> Seq<char>
    decreases cs.len(),
{
    if cs.len() == 0 {
        Seq::empty()
    } else {
        component_block(cs.drop_last()) + component_line(cs.last())
    }
}

/// A rail voltage given in hundredths of a volt, written with two decimals
/// (`900` is `9.00`, `-905` is `-9.05`).
pub open spec fn centivolts_text(cv: int) -> Seq<char> {
    let m = if cv < 0 {
        -cv
    } else {
        cv
    };
    let sign = if cv < 0 {
        seq!['-']
    } else {
        Seq::<char>::empty()
    };
    sign + decimal((m / 100) as nat) + seq!['.', digit_char(((m % 100) / 10) as nat), digit_char(
        (m % 10) as nat,
    )]
}

/// The two supply source lines.
pub open spec fn supply_lines(c: CircuitView) -> Seq<char> {
    "V_cc 3 0 dc "@ + centivolts_text(c.vcc_centivolts as int) + "\n"@ + "V_ee 4 0 dc "@
        + centivolts_text(c.vee_centivolts as int) + "\n"@
}

/// Nodes that receive a stray capacitor: every node but GND, VCC and VEE.
pub open spec fn gets_stray_cap(n: usize) -> bool {
    n != NODE_GND && n != NODE_VCC && n != NODE_VEE
}

/// Stray capacitor lines for `ns`, numbered from `id`, each of value `cap`.
pub open spec fn stray_cap_lines(ns: Seq<usize>, id: nat, cap: Seq<char>) -> Seq<char>
    decreases ns.len(),
{
    if ns.len() == 0 {
        Seq::empty()
    } else if gets_stray_cap(ns[0]) {
        "C_stray_"@ + decimal(id) + seq![' '] + decimal(ns[0] as nat) + " 0 "@ + cap + "\n"@
            + stray_cap_lines(ns.drop_first(), id + 1, cap)
    } else {
        stray_cap_lines(ns.drop_first(), id, cap)
    }
}

/// The full AC/OP netlist of `Circuit::to_netlist`.
pub open spec fn netlist_text(c: CircuitView, title: Seq<char>) -> Seq<char> {
    "* "@ + title + "\n"@ + SPICE_HEADERS@ + "V_in 1 0 dc 0 ac 1\n"@ + supply_lines(c)
        + component_block(c.components) + ".control\nop\nprint allv\nac dec 100 10 100k\nwrdata ac_out.txt v(2)\nquit\n.endc\n.end\n"@
}

/// The operating-point-only netlist of `to_op_netlist`.
pub open spec fn op_netlist_text(c: CircuitView) -> Seq<char> {
    "* Feasibility OP Netlist\n"@ + SPICE_HEADERS@ + "V_in 1 0 dc 0\n"@ + supply_lines(c)
        + component_block(c.components) + ".control\nop\nprint allv\nquit\n.endc\n.end\n"@
}

/// The characterization netlist: sources with a 100 mV 1 kHz sine input,
/// elements, stray capacitors of value `cap` when given, and one control block
/// running the operating point, an AC sweep and three transient runs (small
/// sine, large sine, and a pulse kick for self-oscillation).
pub open spec fn characterization_text(c: CircuitView, title: Seq<char>, cap: Option<Seq<char>>) -> Seq<char> {
    "* Characterization Netlist: "@ + title + "\n"@ + SPICE_HEADERS@
        + "V_in 1 0 dc 0 ac 1 sin(0 0.1 1k)\n"@ + supply_lines(c) + component_block(c.components)
        + (match cap {
        Some(v) => stray_cap_lines(c.nodes, 8000, v),
        None => Seq::empty(),
    }) + CHARACTERIZATION_CONTROL@
}

/// The control block of the characterization netlist.
pub const CHARACTERIZATION_CONTROL: &'static str = ".control\nop\nprint allv\nac dec 50 10 100k\nwrdata ac_out.txt v(2)\ntran 1us 5ms 0 1us\nwrdata tran_small.txt v(2) v(1)\nalter @v_in[sin] = [ 0 2.0 1k ]\ntran 1us 5ms 0 1us\nwrdata tran_large.txt v(2) v(1)\nalter @v_in[pulse] = [ 0.2 0 0 100ns 100ns 10us 1 ]\ntran 10us 10ms 0 10us\nwrdata tran_zero.txt v(2)\nquit\n.endc\n.end\n";

/// Appends a rail voltage given in hundredths of a volt with two decimals.
pub fn push_centivolts(out: &mut String, cv: i64)
    ensures
        final(out)@ == old(out)@ + centivolts_text(cv as int),
{
    let m: u64 = if cv < 0 {
        push_char(out, '-');
        ((0i64 - (cv + 1)) as u64) + 1
    } else {
        cv as u64
    };
    let ghost after_sign = out@;
    push_decimal_u64(out, m / 100);
    push_char(out, '.');
    let tens: u8 = ((m % 100) / 10) as u8;
    let ones: u8 = (m % 10) as u8;
    push_char(out, (tens + 48u8) as char);
    push_char(out, (ones + 48u8) as char);
    assert(final(out)@ =~= old(out)@ + centivolts_text(cv as int));
}

/// Appends the element line of one component.
pub fn push_component_line(out: &mut String, c: &Component)
    ensures
        final(out)@ == old(out)@ + component_line(c@),
{
    push_char(out, c.comp_type.to_char());
    push_decimal_padded_right(out, c.id, 4);
    push_char(out, ' ');
    let ghost before_nodes = out@;
    let mut k: usize = 0;
    while k < c.nodes.len()
        invariant
            0 <= k <= c.nodes.len(),
            out@ == before_nodes + join_decimal(c.nodes@.take(k as int)),
        decreases c.nodes.len() - k,
    {
        let ghost prev = out@;
        if k > 0 {
            push_char(out, ' ');
        }
        push_decimal(out, c.nodes[k]);
        proof {
            let t = c.nodes@.take(k + 1);
            assert(t.drop_last() =~= c.nodes@.take(k as int));
            if k == 0 {
                assert(out@ =~= before_nodes + join_decimal(t));
            } else {
                assert(out@ =~= before_nodes + join_decimal(t));
            }
        }
        k = k + 1;
    }
    assert(c.nodes@.take(c.nodes.len() as int) =~= c.nodes@);
    push_char(out, ' ');
    push_str(out, c.value.as_str());
    push_char(out, '\n');
    assert(final(out)@ =~= old(out)@ + component_line(c@));
}

impl Circuit {
    /// Appends the element lines of all components.
    pub fn push_component_block(&self, out: &mut String)
        ensures
            final(out)@ == old(out)@ + component_block(self@.components),
    {
        let ghost cs = self@.components;
        let mut i: usize = 0;
        while i < self.components.len()
            invariant
                cs == self@.components,
                0 <= i <= self.components.len(),
                out@ == old(out)@ + component_block(cs.take(i as int)),
            decreases self.components.len() - i,
        {
            push_component_line(out, &self.components[i]);
            proof {
                assert(cs.take(i + 1).drop_last() =~= cs.take(i as int));
                assert(out@ =~= old(out)@ + component_block(cs.take(i + 1)));
            }
            i = i + 1;
        }
        assert(cs.take(self.components.len() as int) =~= cs);
    }

    /// Appends the VCC and VEE source lines.
    pub fn push_supply_lines(&self, out: &mut String)
        ensures
            final(out)@ == old(out)@ + supply_lines(self@),
    {
        push_str(out, "V_cc 3 0 dc ");
        push_centivolts(out, self.vcc_centivolts);
        push_str(out, "\n");
        push_str(out, "V_ee 4 0 dc ");
        push_centivolts(out, self.vee_centivolts);
        push_str(out, "\n");
        assert(final(out)@ =~= old(out)@ + supply_lines(self@));
    }

    /// Appends a stray capacitor of value `cap` from every registered node
    /// except GND, VCC and VEE to ground, numbered from `C_stray_8000`.
    pub fn push_stray_capacitors(&self, out: &mut String, cap: &str)
        requires
            self.nodes.len() <= usize::MAX - 8000,
        ensures
            final(out)@ == old(out)@ + stray_cap_lines(self@.nodes, 8000, cap@),
    {
        let ghost ns = self@.nodes;
        let mut id: usize = 8000;
        let mut i: usize = 0;
        assert(ns.skip(0) =~= ns);
        while i < self.nodes.len()
            invariant
                ns == self@.nodes,
                self.nodes.len() <= usize::MAX - 8000,
                0 <= i <= self.nodes.len(),
                8000 <= id <= 8000 + i,
                old(out)@ + stray_cap_lines(ns, 8000, cap@) == out@ + stray_cap_lines(
                    ns.skip(i as int),
                    id as nat,
                    cap@,
                ),
            decreases self.nodes.len() - i,
        {
            let node = self.nodes[i];
            proof {
                assert(ns.skip(i as int).drop_first() =~= ns.skip(i + 1));
                assert(ns.skip(i as int)[0] == node);
            }
            if node != NODE_GND && node != NODE_VCC && node != NODE_VEE {
                let ghost prev = out@;
                push_str(out, "C_stray_");
                push_decimal(out, id);
                push_char(out, ' ');
                push_decimal(out, node);
                push_str(out, " 0 ");
                push_str(out, cap);
                push_str(out, "\n");
                proof {
                    let line = "C_stray_"@ + decimal(id as nat) + seq![' '] + decimal(node as nat)
                        + " 0 "@ + cap@ + "\n"@;
                    assert(out@ =~= prev + line);
                    assert(stray_cap_lines(ns.skip(i as int), id as nat, cap@) == line
                        + stray_cap_lines(ns.skip(i + 1), (id + 1) as nat, cap@));
                    assert(prev + (line + stray_cap_lines(ns.skip(i + 1), (id + 1) as nat, cap@))
                        =~= out@ + stray_cap_lines(ns.skip(i + 1), (id + 1) as nat, cap@));
                }
                id = id + 1;
            }
            i = i + 1;
        }
        assert(ns.skip(self.nodes.len() as int) =~= Seq::<usize>::empty());
        assert(out@ =~= old(out)@ + stray_cap_lines(ns, 8000, cap@));
    }

    /// Generates the standard SPICE netlist: header, sources, elements and an
    /// AC sweep from 10 Hz to 100 kHz writing `v(2)` to `ac_out.txt`.
    pub fn to_netlist(&self, title: &str) -> (r: String)
        ensures
            r@ == netlist_text(self@, title@),
    {
        let mut out = String::new();
        push_str(&mut out, "* ");
        push_str(&mut out, title);
        push_str(&mut out, "\n");
        push_str(&mut out, SPICE_HEADERS);
        push_str(&mut out, "V_in 1 0 dc 0 ac 1\n");
        self.push_supply_lines(&mut out);
        self.push_component_block(&mut out);
        push_str(
            &mut out,
            ".control\nop\nprint allv\nac dec 100 10 100k\nwrdata ac_out.txt v(2)\nquit\n.endc\n.end\n",
        );
        assert(out@ =~= netlist_text(self@, title@));
        out
    }
}

/// Generates the operating-point feasibility netlist: header, sources with
/// the input at 0 V DC, elements, and an `op` analysis printing all voltages.
pub fn to_op_netlist(circuit: &Circuit) -> (r: String)
    ensures
        r@ == op_netlist_text(circuit@),
{
    let mut out = String::new();
    push_str(&mut out, "* Feasibility OP Netlist\n");
    push_str(&mut out, SPICE_HEADERS);
    push_str(&mut out, "V_in 1 0 dc 0\n");
    circuit.push_supply_lines(&mut out);
    circuit.push_component_block(&mut out);
    push_str(&mut out, ".control\nop\nprint allv\nquit\n.endc\n.end\n");
    assert(out@ =~= op_netlist_text(circuit@));
    out
}

/// Generates the characterization netlist (see `characterization_text`);
/// `stray_cap` is the stray capacitance text (such as `2.00pF`) put on every
/// node but GND, VCC and VEE, or `None` for no stray capacitors.
pub fn to_characterization_netlist(circuit: &Circuit, title: &str, stray_cap: Option<&str>) -> (r: String)
    requires
        stray_cap is Some ==> circuit.nodes.len() <= usize::MAX - 8000,
    ensures
        r@ == characterization_text(
            circuit@,
            title@,
            match stray_cap {
                Some(v) => Some(v@),
                None => None,
            },
        ),
{
    let mut out = String::new();
    push_str(&mut out, "* Characterization Netlist: ");
    push_str(&mut out, title);
    push_str(&mut out, "\n");
    push_str(&mut out, SPICE_HEADERS);
    push_str(&mut out, "V_in 1 0 dc 0 ac 1 sin(0 0.1 1k)\n");
    circuit.push_supply_lines(&mut out);
    circuit.push_component_block(&mut out);
    let ghost before_caps = out@;
    match stray_cap {
        Some(cap) => circuit.push_stray_capacitors(&mut out, cap),
        None => {},
    }
    push_str(&mut out, CHARACTERIZATION_CONTROL);
    assert(out@ =~= characterization_text(
        circuit@,
        title@,
        match stray_cap {
            Some(v) => Some(v@),
            None => None,
        },
    ));
    out
}

/// `h` occurs in `a + h + b`.
proof fn lemma_contains_middle(a: Seq<char>, h: Seq<char>, b: Seq<char>)
    ensures
        contains_text(a + h + b, h),
{
    assert((a + h + b).subrange(a.len() as int, (a.len() + h.len()) as int) =~= h);
    assert(occurs_at(a + h + b, h, a.len() as int));
}

/// Every netlist generator declares the standard device models: the standard
/// header text occurs in the AC, operating-point and characterization netlists.
pub proof fn lemma_netlists_declare_models(c: CircuitView, title: Seq<char>, cap: Option<Seq<char>>)
    ensures
        contains_text(netlist_text(c, title), SPICE_HEADERS@),
        contains_text(op_netlist_text(c), SPICE_HEADERS@),
        contains_text(characterization_text(c, title, cap), SPICE_HEADERS@),
{
    let h = SPICE_HEADERS@;
    let a1 = "* "@ + title + "\n"@;
    let b1 = "V_in 1 0 dc 0 ac 1\n"@ + supply_lines(c) + component_block(c.components)
        + ".control\nop\nprint allv\nac dec 100 10 100k\nwrdata ac_out.txt v(2)\nquit\n.endc\n.end\n"@;
    assert(netlist_text(c, title) =~= a1 + h + b1);
    lemma_contains_middle(a1, h, b1);
    let a2 = "* Feasibility OP Netlist\n"@;
    let b2 = "V_in 1 0 dc 0\n"@ + supply_lines(c) + component_block(c.components)
        + ".control\nop\nprint allv\nquit\n.endc\n.end\n"@;
    assert(op_netlist_text(c) =~= a2 + h + b2);
    lemma_contains_middle(a2, h, b2);
    let a3 = "* Characterization Netlist: "@ + title + "\n"@;
    let b3 = "V_in 1 0 dc 0 ac 1 sin(0 0.1 1k)\n"@ + supply_lines(c) + component_block(c.components)
        + (match cap {
        Some(v) => stray_cap_lines(c.nodes, 8000, v),
        None => Seq::empty(),
    }) + CHARACTERIZATION_CONTROL@;
    assert(characterization_text(c, title, cap) =~= a3 + h + b3);
    lemma_contains_middle(a3, h, b3);
}

/// Both netlists that run an AC sweep give the input node a 1 V AC source:
/// the line `V_in 1 0 dc 0 ac 1` occurs in the AC netlist and in the
/// characterization netlist, for every circuit, title and stray capacitance.
pub proof fn lemma_ac_sweeps_have_a_stimulus(c: CircuitView, title: Seq<char>, cap: Option<Seq<char>>)
    ensures
        contains_text(netlist_text(c, title), "V_in 1 0 dc 0 ac 1"@),
        contains_text(characterization_text(c, title, cap), "V_in 1 0 dc 0 ac 1"@),
{
    reveal_strlit("V_in 1 0 dc 0 ac 1");
    reveal_strlit("V_in 1 0 dc 0 ac 1\n");
    reveal_strlit("\n");
    reveal_strlit("V_in 1 0 dc 0 ac 1 sin(0 0.1 1k)\n");
    reveal_strlit(" sin(0 0.1 1k)\n");
    let v = "V_in 1 0 dc 0 ac 1"@;
    let a1 = "* "@ + title + "\n"@ + SPICE_HEADERS@;
    let b1 = "\n"@ + supply_lines(c) + component_block(c.components)
        + ".control\nop\nprint allv\nac dec 100 10 100k\nwrdata ac_out.txt v(2)\nquit\n.endc\n.end\n"@;
    assert("V_in 1 0 dc 0 ac 1\n"@ =~= v + "\n"@);
    assert(netlist_text(c, title) =~= a1 + v + b1);
    lemma_contains_middle(a1, v, b1);
    let a3 = "* Characterization Netlist: "@ + title + "\n"@ + SPICE_HEADERS@;
    let b3 = " sin(0 0.1 1k)\n"@ + supply_lines(c) + component_block(c.components)
        + (match cap {
        Some(x) => stray_cap_lines(c.nodes, 8000, x),
        None => Seq::empty(),
    }) + CHARACTERIZATION_CONTROL@;
    assert("V_in 1 0 dc 0 ac 1 sin(0 0.1 1k)\n"@ =~= v + " sin(0 0.1 1k)\n"@);
    assert(characterization_text(c, title, cap) =~= a3 + v + b3);
    lemma_contains_middle(a3, v, b3);
}

} // verus!
