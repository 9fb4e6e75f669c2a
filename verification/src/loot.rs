//! Rarity tiers and short textual summaries of archived circuits.

use vstd::prelude::*;
use crate::circuit::{component_label, component_label_string, Circuit, Component, ComponentType, ComponentView};
use crate::mutate::count_type;
use crate::text::{decimal, push_decimal, push_str};

verus! {

/// Rarity tiers of discovered circuits, from the most to the least common.
#[derive(Debug, Clone, Copy, PartialEq, Eq, Structural)]
pub enum Rarity {
    Common,
    Rare,
    Epic,
    Legendary,
}

/// The upper-case name of a tier.
pub open spec fn rarity_label(r: Rarity) -> Seq<char> {
    match r {
        Rarity::Common => "COMMON"@,
        Rarity::Rare => "RARE"@,
        Rarity::Epic => "EPIC"@,
        Rarity::Legendary => "LEGENDARY"@,
    }
}

/// The ANSI colour escape that opens a tier's tag.
pub open spec fn rarity_color(r: Rarity) -> Seq<char> {
    match r {
        Rarity::Common => "\x1b[90m"@,
        Rarity::Rare => "\x1b[1;36m"@,
        Rarity::Epic => "\x1b[1;35m"@,
        Rarity::Legendary => "\x1b[1;33m"@,
    }
}

impl Rarity {
    /// The tier's name in upper case.
    pub fn label(&self) -> (s: &'static str)
        ensures
            s@ == rarity_label(*self),
    {
        match self {
            Rarity::Common => "COMMON",
            Rarity::Rare => "RARE",
            Rarity::Epic => "EPIC",
            Rarity::Legendary => "LEGENDARY",
        }
    }

    /// The tier's name in brackets between the tier's ANSI colour and a reset.
    pub fn colored_label(&self) -> (s: String)
        ensures
            s@ == rarity_color(*self) + "["@ + rarity_label(*self) + "]\x1b[0m"@,
    {
        let mut s = String::new();
        match self {
            Rarity::Common => push_str(&mut s, "\x1b[90m"),
            Rarity::Rare => push_str(&mut s, "\x1b[1;36m"),
            Rarity::Epic => push_str(&mut s, "\x1b[1;35m"),
            Rarity::Legendary => push_str(&mut s, "\x1b[1;33m"),
        }
        push_str(&mut s, "[");
        push_str(&mut s, self.label());
        push_str(&mut s, "]\x1b[0m");
        assert(s@ =~= rarity_color(*self) + "["@ + rarity_label(*self) + "]\x1b[0m"@);
        s
    }
}

/// One entry of the component summary: `n` followed by the type's letter
/// and a space, or nothing when there are no parts of that type.
pub open spec fn kind_count_text(n: nat, letter: Seq<char>) -> Seq<char> {
    if n > 0 {
        decimal(n) + letter + " "@
    } else {
        Seq::empty()
    }
}

/// The component summary line, e.g. `4R 2C 1D 1X (8)`: the counts of
/// resistors, capacitors, diodes, transistors and op-amps, each type that
/// occurs with its letter, then the number of components in brackets.
pub open spec fn component_summary(cs: Seq<crate::circuit::ComponentView>) -> Seq<char> {
    kind_count_text(count_type(cs, ComponentType::R), "R"@) + kind_count_text(
        count_type(cs, ComponentType::C),
        "C"@,
    ) + kind_count_text(count_type(cs, ComponentType::D), "D"@) + kind_count_text(
        count_type(cs, ComponentType::Q),
        "Q"@,
    ) + kind_count_text(count_type(cs, ComponentType::X), "X"@) + "("@ + decimal(cs.len()) + ")"@
}

/// Appends one summary entry (see `kind_count_text`).
fn push_kind_count(s: &mut String, n: usize, letter: &str)
    ensures
        final(s)@ == old(s)@ + kind_count_text(n as nat, letter@),
{
    if n > 0 {
        push_decimal(s, n);
        push_str(s, letter);
        push_str(s, " ");
    } else {
        assert(old(s)@ + kind_count_text(n as nat, letter@) =~= old(s)@);
    }
}

proof fn lemma_count_type_le(cs: Seq<crate::circuit::ComponentView>, t: ComponentType)
    ensures
        count_type(cs, t) <= cs.len(),
    decreases cs.len(),
{
    if cs.len() > 0 {
        lemma_count_type_le(cs.drop_last(), t);
    }
}

/// Summarizes the components of a circuit (see `component_summary`).
pub fn summarize_components(c: &Circuit) -> (s: String)
    ensures
        s@ == component_summary(c@.components),
{
    let ghost cs = c@.components;
    let mut r: usize = 0;
    let mut cap: usize = 0;
    let mut d: usize = 0;
    let mut q: usize = 0;
    let mut x: usize = 0;
    let mut i: usize = 0;
    while i < c.components.len()
        invariant
            cs == c@.components,
            0 <= i <= cs.len(),
            r == count_type(cs.take(i as int), ComponentType::R),
            cap == count_type(cs.take(i as int), ComponentType::C),
            d == count_type(cs.take(i as int), ComponentType::D),
            q == count_type(cs.take(i as int), ComponentType::Q),
            x == count_type(cs.take(i as int), ComponentType::X),
        decreases cs.len() - i,
    {
        proof {
            assert(cs.take(i + 1).drop_last() =~= cs.take(i as int));
            lemma_count_type_le(cs.take(i as int), ComponentType::R);
            lemma_count_type_le(cs.take(i as int), ComponentType::C);
            lemma_count_type_le(cs.take(i as int), ComponentType::D);
            lemma_count_type_le(cs.take(i as int), ComponentType::Q);
            lemma_count_type_le(cs.take(i as int), ComponentType::X);
        }
        match c.components[i].comp_type {
            ComponentType::R => r = r + 1,
            ComponentType::C => cap = cap + 1,
            ComponentType::D => d = d + 1,
            ComponentType::Q => q = q + 1,
            ComponentType::X => x = x + 1,
            _ => {},
        }
        i = i + 1;
    }
    assert(cs.take(cs.len() as int) =~= cs);
    let mut s = String::new();
    push_kind_count(&mut s, r, "R");
    push_kind_count(&mut s, cap, "C");
    push_kind_count(&mut s, d, "D");
    push_kind_count(&mut s, q, "Q");
    push_kind_count(&mut s, x, "X");
    push_str(&mut s, "(");
    push_decimal(&mut s, c.components.len());
    push_str(&mut s, ")");
    assert(cs.len() == c.components.len());
    assert(s@ =~= component_summary(cs));
    s
}

/// The breadboard labels of a component's pins, each with its node:
/// resistors and capacitors `R1[1] (10k)`/`R1[2] (10k)`; diodes
/// `D1[Anode]`/`D1[Cathode | Ring]`; transistors `Q1[Collector] (2N3904)`,
/// `[Base]`, `[Emitter]`; op-amps `X1[IN+]`, `[IN-]`, `[VCC Pin 8]`,
/// `[VEE Pin 4]`, `[OUT Pin 1]`. Parts with too few pins, and sources, have none.
pub open spec fn pin_labels(c: ComponentView) -> Seq<(usize, Seq<char>)> {
    let l = component_label(c.comp_type, c.id);
    let v = " ("@ + c.value + ")"@;
    let ns = c.nodes;
    match c.comp_type {
        ComponentType::R | ComponentType::C => if ns.len() >= 2 {
            seq![(ns[0], l + "[1]"@ + v), (ns[1], l + "[2]"@ + v)]
        } else {
            Seq::empty()
        },
        ComponentType::D => if ns.len() >= 2 {
            seq![(ns[0], l + "[Anode]"@), (ns[1], l + "[Cathode | Ring]"@)]
        } else {
            Seq::empty()
        },
        ComponentType::Q => if ns.len() >= 3 {
            seq![(ns[0], l + "[Collector]"@ + v), (ns[1], l + "[Base]"@ + v), (ns[2], l + "[Emitter]"@ + v)]
        } else {
            Seq::empty()
        },
        ComponentType::X => if ns.len() >= 5 {
            seq![
                (ns[0], l + "[IN+]"@),
                (ns[1], l + "[IN-]"@),
                (ns[2], l + "[VCC Pin 8]"@),
                (ns[3], l + "[VEE Pin 4]"@),
                (ns[4], l + "[OUT Pin 1]"@),
            ]
        } else {
            Seq::empty()
        },
        _ => Seq::empty(),
    }
}

/// The pin labels of all components, in component order.
pub open spec fn all_pin_labels(cs: Seq<ComponentView>) -> Seq<(usize, Seq<char>)>
    decreases cs.len(),
{
    if cs.len() == 0 {
        Seq::empty()
    } else {
        all_pin_labels(cs.drop_last()) + pin_labels(cs.last())
    }
}

/// The labels of `ps` on node `n`, in order.
pub open spec fn labels_at(ps: Seq<(usize, Seq<char>)>, n: usize) -> Seq<Seq<char>>
    decreases ps.len(),
{
    if ps.len() == 0 {
        Seq::empty()
    } else {
        labels_at(ps.drop_last(), n) + if ps.last().0 == n {
            seq![ps.last().1]
        } else {
            Seq::empty()
        }
    }
}

/// The views of a node map.
pub open spec fn node_map_views(m: Seq<(usize, Vec<String>)>) -> Seq<(usize, Seq<Seq<char>>)> {
    m.map_values(|e: (usize, Vec<String>)| (e.0, e.1@.map_values(|s: String| s@)))
}

/// The nodes of a node map, in order.
pub open spec fn map_nodes(m: Seq<(usize, Seq<Seq<char>>)>) -> Seq<usize> {
    m.map_values(|e: (usize, Seq<Seq<char>>)| e.0)
}

/// `m` is the breadboard node map of the labels `ps`: every labelled node
/// once, in ascending order, each with its labels in order.
pub open spec fn is_node_map(m: Seq<(usize, Seq<Seq<char>>)>, ps: Seq<(usize, Seq<char>)>) -> bool {
    &&& forall|i: int, j: int| 0 <= i < j < m.len() ==> (#[trigger] m[i]).0 < (#[trigger] m[j]).0
    &&& forall|k: int| 0 <= k < ps.len() ==> map_nodes(m).contains(#[trigger] ps[k].0)
    &&& forall|i: int| 0 <= i < m.len() ==> (#[trigger] m[i]).1 == labels_at(ps, m[i].0) && m[i].1.len() > 0
}

/// `prefix` + `mid` + `tail`.
fn label_text(prefix: &String, mid: &str, tail: &str) -> (s: String)
    ensures
        s@ == prefix@ + mid@ + tail@,
{
    let mut s = String::new();
    push_str(&mut s, prefix.as_str());
    push_str(&mut s, mid);
    push_str(&mut s, tail);
    s
}

/// `prefix` + `tail`.
fn suffixed(prefix: &String, tail: &str) -> (s: String)
    ensures
        s@ == prefix@ + tail@,
{
    let mut s = String::new();
    push_str(&mut s, prefix.as_str());
    push_str(&mut s, tail);
    s
}

/// Appends the pin labels of one component (see `pin_labels`).
fn push_pin_labels(out: &mut Vec<(usize, String)>, c: &Component)
    ensures
        label_views(final(out)@) == label_views(old(out)@) + pin_labels(c@),
{
    let ghost before = label_views(out@);
    let l = component_label_string(c.comp_type, c.id);
    let v = label_text(&text_of(" ("), c.value.as_str(), ")");
    let n = c.nodes.len();
    let ghost cv = c@;
    assert(cv.nodes == c.nodes@ && cv.comp_type == c.comp_type && cv.id == c.id && cv.value == c.value@);
    assert(l@ + "[1]"@ + v@ == component_label(cv.comp_type, cv.id) + "[1]"@ + (" ("@ + cv.value + ")"@));
    match c.comp_type {
        ComponentType::R | ComponentType::C => {
            if n >= 2 {
                out.push((c.nodes[0], label_text(&l, "[1]", v.as_str())));
                out.push((c.nodes[1], label_text(&l, "[2]", v.as_str())));
            }
        },
        ComponentType::D => {
            if n >= 2 {
                out.push((c.nodes[0], suffixed(&l, "[Anode]")));
                out.push((c.nodes[1], suffixed(&l, "[Cathode | Ring]")));
            }
        },
        ComponentType::Q => {
            if n >= 3 {
                out.push((c.nodes[0], label_text(&l, "[Collector]", v.as_str())));
                out.push((c.nodes[1], label_text(&l, "[Base]", v.as_str())));
                out.push((c.nodes[2], label_text(&l, "[Emitter]", v.as_str())));
            }
        },
        ComponentType::X => {
            if n >= 5 {
                out.push((c.nodes[0], suffixed(&l, "[IN+]")));
                out.push((c.nodes[1], suffixed(&l, "[IN-]")));
                out.push((c.nodes[2], suffixed(&l, "[VCC Pin 8]")));
                out.push((c.nodes[3], suffixed(&l, "[VEE Pin 4]")));
                out.push((c.nodes[4], suffixed(&l, "[OUT Pin 1]")));
            }
        },
        _ => {},
    }
    assert(label_views(out@) =~= before + pin_labels(c@));
}

/// A string holding `s`.
fn text_of(s: &str) -> (r: String)
    ensures
        r@ == s@,
{
    let mut r = String::new();
    push_str(&mut r, s);
    r
}

/// The views of a list of node labels.
pub open spec fn label_views(v: Seq<(usize, String)>) -> Seq<(usize, Seq<char>)> {
    v.map_values(|p: (usize, String)| (p.0, p.1@))
}

/// A node labelled somewhere in `ps` has at least one label.
proof fn lemma_labels_at_nonempty(ps: Seq<(usize, Seq<char>)>, n: usize, j: int)
    requires
        0 <= j < ps.len(),
        ps[j].0 == n,
    ensures
        labels_at(ps, n).len() > 0,
    decreases ps.len(),
{
    if j < ps.len() - 1 {
        lemma_labels_at_nonempty(ps.drop_last(), n, j);
    }
}

/// The breadboard node map of a circuit: each node that carries a pin, in
/// ascending order, with the labels of the pins on it in component order
/// (see `pin_labels` and `is_node_map`).
pub fn node_connection_map(c: &Circuit) -> (m: Vec<(usize, Vec<String>)>)
    ensures
        is_node_map(node_map_views(m@), all_pin_labels(c@.components)),
{
    let ghost cs = c@.components;
    let mut pairs: Vec<(usize, String)> = Vec::new();
    let mut i: usize = 0;
    while i < c.components.len()
        invariant
            cs == c@.components,
            0 <= i <= cs.len(),
            label_views(pairs@) == all_pin_labels(cs.take(i as int)),
        decreases cs.len() - i,
    {
        push_pin_labels(&mut pairs, &c.components[i]);
        proof {
            assert(cs.take(i + 1).drop_last() =~= cs.take(i as int));
            assert(cs[i as int] == c.components@[i as int]@);
        }
        i = i + 1;
    }
    assert(cs.take(cs.len() as int) =~= cs);
    let ghost ps = label_views(pairs@);
    let mut keys: Vec<usize> = Vec::new();
    let ghost mut wit: Seq<int> = Seq::empty();
    let mut k: usize = 0;
    while k < pairs.len()
        invariant
            ps == label_views(pairs@),
            0 <= k <= pairs.len(),
            forall|a: int, b: int| 0 <= a < b < keys@.len() ==> keys@[a] < keys@[b],
            forall|j: int| 0 <= j < k ==> keys@.contains(#[trigger] ps[j].0),
            wit.len() == keys@.len(),
            forall|t: int| 0 <= t < keys@.len() ==> 0 <= #[trigger] wit[t] < k && ps[wit[t]].0 == keys@[t],
        decreases pairs.len() - k,
    {
        let node = pairs[k].0;
        assert(ps[k as int].0 == node);
        let mut pos: usize = 0;
        while pos < keys.len() && keys[pos] < node
            invariant
                0 <= pos <= keys.len(),
                forall|t: int| 0 <= t < pos ==> keys@[t] < node,
            decreases keys.len() - pos,
        {
            pos = pos + 1;
        }
        if pos < keys.len() && keys[pos] == node {
            assert(keys@[pos as int] == node);
        } else {
            let ghost old_keys = keys@;
            keys.insert(pos, node);
            proof {
                assert(keys@ == old_keys.insert(pos as int, node));
                assert forall|a: int, b: int| 0 <= a < b < keys@.len() implies keys@[a] < keys@[b] by {
                    if b < pos {
                    } else if b == pos {
                        assert(keys@[a] == old_keys[a]);
                    } else if a < pos {
                        assert(keys@[b] == old_keys[b - 1]);
                        if pos < old_keys.len() {
                            assert(old_keys[pos as int] > node);
                            assert(old_keys[pos as int] <= old_keys[b - 1] || pos as int == b - 1);
                        }
                    } else if a == pos {
                        assert(keys@[b] == old_keys[b - 1]);
                        assert(old_keys[pos as int] > node);
                        assert(old_keys[pos as int] <= old_keys[b - 1] || pos as int == b - 1);
                    } else {
                        assert(keys@[a] == old_keys[a - 1]);
                        assert(keys@[b] == old_keys[b - 1]);
                    }
                }
                assert forall|j: int| 0 <= j < k + 1 implies keys@.contains(#[trigger] ps[j].0) by {
                    if j < k {
                        let t = choose|t: int| 0 <= t < old_keys.len() && old_keys[t] == ps[j].0;
                        if t < pos {
                            assert(keys@[t] == old_keys[t]);
                        } else {
                            assert(keys@[t + 1] == old_keys[t]);
                        }
                    } else {
                        assert(keys@[pos as int] == node);
                    }
                }
                let old_wit = wit;
                wit = wit.insert(pos as int, k as int);
                assert forall|t: int| 0 <= t < keys@.len() implies 0 <= #[trigger] wit[t] < k + 1 && ps[wit[t]].0
                    == keys@[t] by {
                    if t < pos {
                        assert(keys@[t] == old_keys[t] && wit[t] == old_wit[t]);
                    } else if t == pos {
                        assert(ps[k as int].0 == keys@[t]);
                    } else {
                        assert(keys@[t] == old_keys[t - 1] && wit[t] == old_wit[t - 1]);
                    }
                }
            }
        }
        k = k + 1;
    }
    assert(ps.len() == pairs@.len());
    let mut m: Vec<(usize, Vec<String>)> = Vec::new();
    let mut t: usize = 0;
    while t < keys.len()
        invariant
            ps == label_views(pairs@),
            0 <= t <= keys.len(),
            m@.len() == t,
            forall|a: int, b: int| 0 <= a < b < keys@.len() ==> keys@[a] < keys@[b],
            forall|j: int| 0 <= j < pairs@.len() ==> keys@.contains(#[trigger] ps[j].0),
            wit.len() == keys@.len(),
            forall|u: int| 0 <= u < keys@.len() ==> 0 <= #[trigger] wit[u] < pairs@.len() && ps[wit[u]].0 == keys@[u],
            forall|u: int| 0 <= u < t ==> (#[trigger] node_map_views(m@)[u]) == (keys@[u], labels_at(ps, keys@[u])),
        decreases keys.len() - t,
    {
        let key = keys[t];
        let mut labels: Vec<String> = Vec::new();
        let mut j: usize = 0;
        while j < pairs.len()
            invariant
                ps == label_views(pairs@),
                0 <= j <= pairs.len(),
                labels@.map_values(|s: String| s@) == labels_at(ps.take(j as int), key),
            decreases pairs.len() - j,
        {
            proof {
                assert(ps.take(j + 1).drop_last() =~= ps.take(j as int));
                assert(ps[j as int] == (pairs@[j as int].0, pairs@[j as int].1@));
            }
            if pairs[j].0 == key {
                let lab = pairs[j].1.clone();
                labels.push(lab);
            }
            j = j + 1;
            assert(labels@.map_values(|s: String| s@) =~= labels_at(ps.take(j as int), key));
        }
        assert(ps.take(pairs.len() as int) =~= ps);
        let ghost prev = node_map_views(m@);
        m.push((key, labels));
        proof {
            assert(node_map_views(m@) =~= prev.push((key, labels_at(ps, key))));
        }
        t = t + 1;
    }
    proof {
        let mv = node_map_views(m@);
        assert forall|u: int| 0 <= u < mv.len() implies (#[trigger] mv[u]).1 == labels_at(ps, mv[u].0) && mv[u].1.len() > 0 by {
            assert(mv[u] == (keys@[u], labels_at(ps, keys@[u])));
            assert(0 <= wit[u] < pairs@.len());
            lemma_labels_at_nonempty(ps, keys@[u], wit[u]);
        }
        assert forall|a: int, b: int| 0 <= a < b < mv.len() implies (#[trigger] mv[a]).0 < (#[trigger] mv[b]).0 by {
            assert(mv[a] == (keys@[a], labels_at(ps, keys@[a])));
            assert(mv[b] == (keys@[b], labels_at(ps, keys@[b])));
        }
        assert forall|u: int| 0 <= u < keys@.len() implies #[trigger] map_nodes(mv)[u] == keys@[u] by {
            assert(mv[u] == (keys@[u], labels_at(ps, keys@[u])));
        }
        assert(map_nodes(mv) =~= keys@);
        assert(ps == all_pin_labels(c@.components));
    }
    m
}

} // verus!
