//! Circuit intermediate representation: component whitelist, topology
//! validation and SPICE netlist generation.

use vstd::prelude::*;
use crate::text::{push_char, push_decimal, push_str, decimal, pad_right};

verus! {

pub const NODE_GND: usize = 0;
pub const NODE_IN: usize = 1;
pub const NODE_OUT: usize = 2;
pub const NODE_VCC: usize = 3;
pub const NODE_VEE: usize = 4;

/// The single canonical SPICE model/include preamble shared by every netlist
/// generator: the op-amp subcircuit include plus the diode and both BJT models.
pub const SPICE_HEADERS: &'static str = ".include \"tl072.sub\"\n.model 1N4148 D(is=2.52n rs=0.568 n=1.752 cjo=4p m=0.4 tt=20n)\n.model 2N3904 NPN(Is=6.734f Xti=3 Eg=1.11 Vaf=74.03 Bf=416.4 Ne=1.259 Ise=6.734f Ikf=66.78m Xtb=1.5 Br=.7371 Nc=2 Isc=0 Ikr=0 Rc=1 Cjc=3.638p Mjc=.3085 Vjc=.75 Fc=.5 Cje=4.493p Mje=.2593 Vje=.75 Tr=239.5n Tf=301.2p Itf=.4 Vtf=4 Xtf=2 Rb=10 Kf=1.2e-16 Af=1.1)\n.model 2N3906 PNP(Is=1.41f Xti=3 Eg=1.11 Vaf=18.7 Bf=180.7 Ne=1.5 Ise=0 Ikf=80m Xtb=1.5 Br=4.977 Nc=2 Isc=0 Ikr=0 Rc=2 Cjc=4.5p Mjc=.3 Vjc=.75 Fc=.5 Cje=5p Mje=.3 Vje=.75 Tr=50n Tf=300p Itf=.4 Vtf=4 Xtf=2 Rb=10 Kf=1.5e-16 Af=1.1)\n";

/// Returns the canonical SPICE preamble; every generator calls this instead of
/// inlining model lines.
pub fn standard_spice_headers() -> (r: &'static str)
    ensures
        r@ == SPICE_HEADERS@,
{
    SPICE_HEADERS
}

/// Permitted component types, strictly white-listed.
/// Letters E, F, G, H, B, A are explicitly forbidden.
#[derive(Debug, Clone, Copy, PartialEq, Eq, Hash, Structural)]
pub enum ComponentType {
    /// Resistor
    R,
    /// Capacitor
    C,
    /// Diode
    D,
    /// BJT transistor, pins `[collector, base, emitter]`
    Q,
    /// Subcircuit (op-amp), pins `[non-inv, inv, vcc, vee, out]`
    X,
    /// Independent voltage source
    V,
    /// Independent current source
    I,
}

/// Errors raised while building or validating a circuit.
#[derive(Debug, PartialEq)]
pub enum CircuitError {
    InvalidComponentType(char),
    ForbiddenComponentType(char),
    InsufficientPins { comp: String, got: usize, expected: usize },
    ShortedComponent { comp: String, node: usize },
    EmptyCircuit,
    FloatingNode(usize),
    DisconnectedEssentialNode(String),
    NoPathToGround(usize),
}

/// ASCII upper-casing of one character (non-ASCII characters are unchanged).
pub open spec fn ascii_upper(c: char) -> char {
    if 'a' <= c && c <= 'z' {
        ((c as int) - 32) as char
    } else {
        c
    }
}

/// The letter that names a component type.
pub open spec fn type_letter(t: ComponentType) -> char {
    match t {
        ComponentType::R => 'R',
        ComponentType::C => 'C',
        ComponentType::D => 'D',
        ComponentType::Q => 'Q',
        ComponentType::X => 'X',
        ComponentType::V => 'V',
        ComponentType::I => 'I',
    }
}

/// The component type a (case-insensitive) letter names, if it names one.
pub open spec fn letter_type(u: char) -> Option<ComponentType> {
    if u == 'R' {
        Some(ComponentType::R)
    } else if u == 'C' {
        Some(ComponentType::C)
    } else if u == 'D' {
        Some(ComponentType::D)
    } else if u == 'Q' {
        Some(ComponentType::Q)
    } else if u == 'X' {
        Some(ComponentType::X)
    } else if u == 'V' {
        Some(ComponentType::V)
    } else if u == 'I' {
        Some(ComponentType::I)
    } else {
        None
    }
}

/// Letters that denote controlled sources and behavioural elements.
pub open spec fn is_forbidden_letter(u: char) -> bool {
    u == 'E' || u == 'F' || u == 'G' || u == 'H' || u == 'B' || u == 'A'
}

/// Two-terminal devices (R, C, D, V, I).
pub open spec fn is_two_terminal(t: ComponentType) -> bool {
    t == ComponentType::R || t == ComponentType::C || t == ComponentType::D
        || t == ComponentType::V || t == ComponentType::I
}

/// Minimum number of pins a component of each type must have.
pub open spec fn required_pins(t: ComponentType) -> nat {
    if t == ComponentType::Q {
        3
    } else if t == ComponentType::X {
        5
    } else {
        2
    }
}

impl ComponentType {
    /// Parses a component letter (case-insensitive).
    pub fn from_char(c: char) -> (r: Result<Self, CircuitError>)
        ensures
            match letter_type(ascii_upper(c)) {
                Some(t) => r == Ok::<ComponentType, CircuitError>(t),
                None => if is_forbidden_letter(ascii_upper(c)) {
                    r == Err::<ComponentType, CircuitError>(CircuitError::ForbiddenComponentType(c))
                } else {
                    r == Err::<ComponentType, CircuitError>(
                        CircuitError::InvalidComponentType(ascii_upper(c)),
                    )
                },
            },
    {
        let u = to_ascii_upper(c);
        match u {
            'R' => Ok(ComponentType::R),
            'C' => Ok(ComponentType::C),
            'D' => Ok(ComponentType::D),
            'Q' => Ok(ComponentType::Q),
            'X' => Ok(ComponentType::X),
            'V' => Ok(ComponentType::V),
            'I' => Ok(ComponentType::I),
            'E' | 'F' | 'G' | 'H' | 'B' | 'A' => Err(CircuitError::ForbiddenComponentType(c)),
            other => Err(CircuitError::InvalidComponentType(other)),
        }
    }

    /// The letter that names this type.
    pub fn to_char(self) -> (r: char)
        ensures
            r == type_letter(self),
    {
        match self {
            ComponentType::R => 'R',
            ComponentType::C => 'C',
            ComponentType::D => 'D',
            ComponentType::Q => 'Q',
            ComponentType::X => 'X',
            ComponentType::V => 'V',
            ComponentType::I => 'I',
        }
    }
}

/// Every component type's letter reads back as that type, in either case.
pub proof fn lemma_letter_round_trip(t: ComponentType)
    ensures
        letter_type(ascii_upper(type_letter(t))) == Some(t),
        letter_type(ascii_upper(((type_letter(t) as int) + 32) as char)) == Some(t),
{
}

/// No permitted type is named by a forbidden letter.
pub proof fn lemma_forbidden_letters_name_no_type(c: char)
    requires
        is_forbidden_letter(ascii_upper(c)),
    ensures
        letter_type(ascii_upper(c)) is None,
{
}

/// ASCII upper-casing of one character.
pub fn to_ascii_upper(c: char) -> (r: char)
    ensures
        r == ascii_upper(c),
{
    if 'a' <= c && c <= 'z' {
        let b: u32 = c as u32;
        let up: u8 = (b - 32) as u8;
        up as char
    } else {
        c
    }
}


/// A circuit element: type letter, numeric id, ordered pins and SPICE value.
#[derive(Debug, Clone, PartialEq)]
pub struct Component {
    pub comp_type: ComponentType,
    pub id: usize,
    pub nodes: Vec<usize>,
    pub value: String,
}

/// Mathematical model of a component.
pub struct ComponentView {
    pub comp_type: ComponentType,
    pub id: usize,
    pub nodes: Seq<usize>,
    pub value: Seq<char>,
}

impl View for Component {
    type V = ComponentView;

    open spec fn view(&self) -> ComponentView {
        ComponentView {
            comp_type: self.comp_type,
            id: self.id,
            nodes: self.nodes@,
            value: self.value@,
        }
    }
}

/// Reference designator used in messages, e.g. `R12`.
pub open spec fn component_label(t: ComponentType, id: usize) -> Seq<char> {
    seq![type_letter(t)] + decimal(id as nat)
}

/// Two-pin component whose terminals land on the same node.
pub open spec fn is_shorted_two_pin(c: ComponentView) -> bool {
    c.nodes.len() == 2 && c.nodes[0] == c.nodes[1]
}

/// What `Component::new` produces for the given arguments.
pub open spec fn component_new_outcome(
    ch: char,
    id: usize,
    nodes: Seq<usize>,
    value: Seq<char>,
    r: Result<Component, CircuitError>,
) -> bool {
    let u = ascii_upper(ch);
    match letter_type(u) {
        None => if is_forbidden_letter(u) {
            r == Err::<Component, CircuitError>(CircuitError::ForbiddenComponentType(ch))
        } else {
            r == Err::<Component, CircuitError>(CircuitError::InvalidComponentType(u))
        },
        Some(t) => if nodes.len() < required_pins(t) {
            r matches Err(CircuitError::InsufficientPins { comp, got, expected }) && comp@
                == component_label(t, id) && got == nodes.len() && expected == required_pins(t)
        } else if (is_two_terminal(t) && nodes[0] == nodes[1]) || (t == ComponentType::Q
            && nodes[0] == nodes[1] && nodes[1] == nodes[2]) {
            r matches Err(CircuitError::ShortedComponent { comp, node }) && comp@
                == component_label(t, id) && node == nodes[0]
        } else {
            r matches Ok(c) && c@ == (ComponentView { comp_type: t, id, nodes, value })
        },
    }
}

/// Builds the reference designator string of a component.
pub fn component_label_string(t: ComponentType, id: usize) -> (s: String)
    ensures
        s@ == component_label(t, id),
{
    let mut s = String::new();
    push_char(&mut s, t.to_char());
    push_decimal(&mut s, id);
    assert(s@ =~= component_label(t, id));
    s
}

impl Component {
    /// Creates a component. Rejects invalid/forbidden types, insufficient pins,
    /// and shorted terminal connections.
    pub fn new(comp_type_char: char, id: usize, nodes: Vec<usize>, value: &str) -> (r: Result<
        Self,
        CircuitError,
    >)
        ensures
            component_new_outcome(comp_type_char, id, nodes@, value@, r),
    {
        let comp_type = match ComponentType::from_char(comp_type_char) {
            Ok(t) => t,
            Err(e) => return Err(e),
        };
        let required: usize = match comp_type {
            ComponentType::Q => 3,
            ComponentType::X => 5,
            _ => 2,
        };
        if nodes.len() < required {
            return Err(
                CircuitError::InsufficientPins {
                    comp: component_label_string(comp_type, id),
                    got: nodes.len(),
                    expected: required,
                },
            );
        }
        let two_terminal = match comp_type {
            ComponentType::Q | ComponentType::X => false,
            _ => true,
        };
        if two_terminal && nodes[0] == nodes[1] {
            return Err(
                CircuitError::ShortedComponent {
                    comp: component_label_string(comp_type, id),
                    node: nodes[0],
                },
            );
        }
        let is_bjt = match comp_type {
            ComponentType::Q => true,
            _ => false,
        };
        if is_bjt && nodes[0] == nodes[1] && nodes[1] == nodes[2] {
            return Err(
                CircuitError::ShortedComponent {
                    comp: component_label_string(comp_type, id),
                    node: nodes[0],
                },
            );
        }
        Ok(Component { comp_type, id, nodes, value: value.to_owned() })
    }
}


/// A circuit under construction or evolution: its node registry, its components
/// and its supply rails (in hundredths of a volt).
#[derive(Debug, Clone, PartialEq)]
pub struct Circuit {
    /// The registered nodes, each once, in the order they were registered; the
    /// mutation operators draw a node by its index in this order.
    pub nodes: Vec<usize>,
    pub components: Vec<Component>,
    pub vcc_centivolts: i64,
    pub vee_centivolts: i64,
}

/// Mathematical model of a circuit.
pub struct CircuitView {
    pub nodes: Seq<usize>,
    pub components: Seq<ComponentView>,
    pub vcc_centivolts: i64,
    pub vee_centivolts: i64,
}

impl View for Circuit {
    type V = CircuitView;

    open spec fn view(&self) -> CircuitView {
        CircuitView {
            nodes: self.nodes@,
            components: self.components@.map_values(|c: Component| c@),
            vcc_centivolts: self.vcc_centivolts,
            vee_centivolts: self.vee_centivolts,
        }
    }
}

/// Registers `n` in a node list that is used as a set (no effect if present).
pub open spec fn insert_node(ns: Seq<usize>, n: usize) -> Seq<usize> {
    if ns.contains(n) {
        ns
    } else {
        ns.push(n)
    }
}

/// Registers every pin of `pins`, in order.
pub open spec fn insert_nodes(ns: Seq<usize>, pins: Seq<usize>) -> Seq<usize>
    decreases pins.len(),
{
    if pins.len() == 0 {
        ns
    } else {
        insert_node(insert_nodes(ns, pins.drop_last()), pins.last())
    }
}

/// Registering a node never repeats one: a registry without repeats stays so.
pub proof fn lemma_insert_node_distinct(ns: Seq<usize>, n: usize)
    requires
        ns.no_duplicates(),
    ensures
        insert_node(ns, n).no_duplicates(),
{
    if !ns.contains(n) {
        let t = ns.push(n);
        assert forall|i: int, j: int| 0 <= i < t.len() && 0 <= j < t.len() && i != j implies t[i] != t[j] by {
            if j == ns.len() {
                assert(ns[i] == t[i]);
            } else if i == ns.len() {
                assert(ns[j] == t[j]);
            }
        }
    }
}

/// Registering the pins of a part never repeats a node.
pub proof fn lemma_insert_nodes_distinct(ns: Seq<usize>, pins: Seq<usize>)
    requires
        ns.no_duplicates(),
    ensures
        insert_nodes(ns, pins).no_duplicates(),
    decreases pins.len(),
{
    if pins.len() > 0 {
        lemma_insert_nodes_distinct(ns, pins.drop_last());
        lemma_insert_node_distinct(insert_nodes(ns, pins.drop_last()), pins.last());
    }
}

/// The registry of a fresh circuit: GND, IN, OUT, VCC, VEE.
pub open spec fn fixed_nodes() -> Seq<usize> {
    seq![NODE_GND, NODE_IN, NODE_OUT, NODE_VCC, NODE_VEE]
}

impl Circuit {
    /// An empty circuit with the five fixed nodes and +/-9.00 V rails.
    pub fn new() -> (c: Self)
        ensures
            c@.nodes == fixed_nodes(),
            c@.nodes.no_duplicates(),
            c@.components.len() == 0,
            c@.vcc_centivolts == 900,
            c@.vee_centivolts == -900,
    {
        let mut nodes: Vec<usize> = Vec::new();
        nodes.push(NODE_GND);
        nodes.push(NODE_IN);
        nodes.push(NODE_OUT);
        nodes.push(NODE_VCC);
        nodes.push(NODE_VEE);
        let c = Circuit { nodes, components: Vec::new(), vcc_centivolts: 900, vee_centivolts: -900 };
        assert(c@.nodes =~= fixed_nodes());
        assert(c@.components =~= Seq::<ComponentView>::empty());
        c
    }

    /// Registers a node (no effect if it is already registered).
    pub fn register_node(&mut self, n: usize)
        ensures
            final(self)@ == (CircuitView { nodes: insert_node(old(self)@.nodes, n), ..old(self)@ }),
            old(self)@.nodes.no_duplicates() ==> final(self)@.nodes.no_duplicates(),
    {
        proof {
            if old(self)@.nodes.no_duplicates() {
                lemma_insert_node_distinct(old(self)@.nodes, n);
            }
        }
        let mut i: usize = 0;
        let len = self.nodes.len();
        while i < len
            invariant
                len == self.nodes.len(),
                self@ == old(self)@,
                0 <= i <= len,
                forall|j: int| 0 <= j < i ==> self.nodes@[j] != n,
            decreases len - i,
        {
            if self.nodes[i] == n {
                return;
            }
            i = i + 1;
        }
        self.nodes.push(n);
        assert(self@.components =~= old(self)@.components);
    }

    /// Adds a component to the circuit and registers all its pins as nodes.
    pub fn add_component(&mut self, comp: Component)
        ensures
            final(self)@.components == old(self)@.components.push(comp@),
            final(self)@.nodes == insert_nodes(old(self)@.nodes, comp@.nodes),
            final(self)@.vcc_centivolts == old(self)@.vcc_centivolts,
            final(self)@.vee_centivolts == old(self)@.vee_centivolts,
            old(self)@.nodes.no_duplicates() ==> final(self)@.nodes.no_duplicates(),
    {
        proof {
            if old(self)@.nodes.no_duplicates() {
                lemma_insert_nodes_distinct(old(self)@.nodes, comp@.nodes);
            }
        }
        let mut k: usize = 0;
        let n = comp.nodes.len();
        while k < n
            invariant
                n == comp.nodes.len(),
                0 <= k <= n,
                self@.components == old(self)@.components,
                self@.nodes == insert_nodes(old(self)@.nodes, comp@.nodes.take(k as int)),
                self@.vcc_centivolts == old(self)@.vcc_centivolts,
                self@.vee_centivolts == old(self)@.vee_centivolts,
            decreases n - k,
        {
            self.register_node(comp.nodes[k]);
            assert(comp@.nodes.take(k + 1).drop_last() =~= comp@.nodes.take(k as int));
            k = k + 1;
        }
        assert(comp@.nodes.take(n as int) =~= comp@.nodes);
        self.components.push(comp);
        assert(self@.components =~= old(self)@.components.push(comp@));
    }
}

impl Default for Circuit {
    fn default() -> (c: Self)
        ensures
            c@.nodes == fixed_nodes(),
            c@.nodes.no_duplicates(),
            c@.components.len() == 0,
            c@.vcc_centivolts == 900,
            c@.vee_centivolts == -900,
    {
        Circuit::new()
    }
}

/// The human-readable text of a circuit error.
pub open spec fn error_message(e: CircuitError) -> Seq<char> {
    match e {
        CircuitError::InvalidComponentType(c) => "Invalid component type: '"@ + seq![c] + "'"@,
        CircuitError::ForbiddenComponentType(c) => "Component type '"@ + seq![c]
            + "' is strictly forbidden (E, F, G, H, B, A are not allowed)"@,
        CircuitError::InsufficientPins { comp, got, expected } => "Component "@ + comp@ + " has "@
            + decimal(got as nat) + " pins, expected at least "@ + decimal(expected as nat),
        CircuitError::ShortedComponent { comp, node } => "Component "@ + comp@
            + " has shorted terminals on node "@ + decimal(node as nat),
        CircuitError::EmptyCircuit => "Circuit has no components"@,
        CircuitError::FloatingNode(n) => "Node "@ + decimal(n as nat)
            + " is floating (less than 2 connections)"@,
        CircuitError::DisconnectedEssentialNode(name) => "Essential node "@ + name@
            + " is not connected"@,
        CircuitError::NoPathToGround(n) => "Node "@ + decimal(n as nat)
            + " has no conductive path to ground"@,
    }
}

impl CircuitError {
    /// The error's message, as the error is displayed to users.
    pub fn message(&self) -> (s: String)
        ensures
            s@ == error_message(*self),
    {
        let mut s = String::new();
        match self {
            CircuitError::InvalidComponentType(c) => {
                push_str(&mut s, "Invalid component type: '");
                push_char(&mut s, *c);
                push_str(&mut s, "'");
            },
            CircuitError::ForbiddenComponentType(c) => {
                push_str(&mut s, "Component type '");
                push_char(&mut s, *c);
                push_str(&mut s, "' is strictly forbidden (E, F, G, H, B, A are not allowed)");
            },
            CircuitError::InsufficientPins { comp, got, expected } => {
                push_str(&mut s, "Component ");
                push_str(&mut s, comp.as_str());
                push_str(&mut s, " has ");
                push_decimal(&mut s, *got);
                push_str(&mut s, " pins, expected at least ");
                push_decimal(&mut s, *expected);
            },
            CircuitError::ShortedComponent { comp, node } => {
                push_str(&mut s, "Component ");
                push_str(&mut s, comp.as_str());
                push_str(&mut s, " has shorted terminals on node ");
                push_decimal(&mut s, *node);
            },
            CircuitError::EmptyCircuit => {
                push_str(&mut s, "Circuit has no components");
            },
            CircuitError::FloatingNode(n) => {
                push_str(&mut s, "Node ");
                push_decimal(&mut s, *n);
                push_str(&mut s, " is floating (less than 2 connections)");
            },
            CircuitError::DisconnectedEssentialNode(name) => {
                push_str(&mut s, "Essential node ");
                push_str(&mut s, name.as_str());
                push_str(&mut s, " is not connected");
            },
            CircuitError::NoPathToGround(n) => {
                push_str(&mut s, "Node ");
                push_decimal(&mut s, *n);
                push_str(&mut s, " has no conductive path to ground");
            },
        }
        assert(s@ =~= error_message(*self));
        s
    }
}

} // verus!
