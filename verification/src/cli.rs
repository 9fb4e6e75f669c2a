//! Decisions behind the command line: seeds, circuit ids and the default
//! checkpoint file.

use vstd::prelude::*;
use crate::numbers::{int_error_message, parse_unsigned, parse_unsigned_chars, IntParseError};
use crate::text::{chars_to_string, push_str, str_chars, trim_bounds, trimmed};

verus! {

/// `s` begins with `0x` or `0X`.
pub open spec fn has_hex_prefix(s: Seq<char>) -> bool {
    s.len() >= 2 && s[0] == '0' && (s[1] == 'x' || s[1] == 'X')
}

/// What `parse_seed_str` gives for `s`: the trimmed text read as hexadecimal
/// after a `0x`/`0X` prefix, else as decimal, as a `u64`; on failure a message
/// quoting the trimmed text and Rust's reason.
pub open spec fn seed_result(s: Seq<char>) -> Result<u64, Seq<char>> {
    let t = trimmed(s);
    if has_hex_prefix(t) {
        match parse_unsigned(t.skip(2), 16, u64::MAX as nat) {
            Ok(v) => Ok(v as u64),
            Err(e) => Err("Invalid hex seed '"@ + t + "': "@ + int_error_message(e)),
        }
    } else {
        match parse_unsigned(t, 10, u64::MAX as nat) {
            Ok(v) => Ok(v as u64),
            Err(e) => Err("Invalid u64 seed '"@ + t + "': "@ + int_error_message(e)),
        }
    }
}

/// Parses a random seed given in decimal or, with a `0x` prefix, in
/// hexadecimal; surrounding white space is ignored.
pub fn parse_seed_str(s: &str) -> (r: Result<u64, String>)
    ensures
        match seed_result(s@) {
            Ok(v) => r == Ok::<u64, String>(v),
            Err(m) => r matches Err(e) && e@ == m,
        },
{
    let all = str_chars(s);
    let (a, b) = trim_bounds(&all);
    let t = chars_to_string(&all, a, b);
    let v = str_chars(t.as_str());
    let hex = v.len() >= 2 && v[0] == '0' && (v[1] == 'x' || v[1] == 'X');
    let parsed = if hex {
        parse_unsigned_chars(&v, 2, 16, u64::MAX)
    } else {
        assert(v@.skip(0) =~= v@);
        parse_unsigned_chars(&v, 0, 10, u64::MAX)
    };
    match parsed {
        Ok(n) => Ok(n),
        Err(e) => {
            let mut m = String::new();
            if hex {
                push_str(&mut m, "Invalid hex seed '");
            } else {
                push_str(&mut m, "Invalid u64 seed '");
            }
            push_str(&mut m, t.as_str());
            push_str(&mut m, "': ");
            let reason = e.message();
            push_str(&mut m, reason.as_str());
            proof {
                if hex {
                    assert(m@ =~= "Invalid hex seed '"@ + trimmed(s@) + "': "@ + int_error_message(e));
                } else {
                    assert(m@ =~= "Invalid u64 seed '"@ + trimmed(s@) + "': "@ + int_error_message(e));
                }
            }
            Err(m)
        },
    }
}

/// Which archived circuit a command refers to.
#[derive(Debug, Clone, Copy, PartialEq, Eq, Structural)]
pub enum CircuitChoice {
    /// The fittest archived circuit (`best` or `latest`).
    Best,
    /// The circuit with this id.
    Id(usize),
}

/// What `parse_circuit_id` gives for `s`.
pub open spec fn circuit_choice_result(s: Seq<char>) -> Result<CircuitChoice, Seq<char>> {
    if s == "best"@ || s == "latest"@ {
        Ok(CircuitChoice::Best)
    } else {
        match parse_unsigned(s, 10, usize::MAX as nat) {
            Ok(v) => Ok(CircuitChoice::Id(v as usize)),
            Err(_) => Err("Invalid circuit ID: '"@ + s + "'. Expected integer or 'best'"@),
        }
    }
}

/// Are the two character sequences equal?
fn chars_equal(a: &Vec<char>, b: &Vec<char>) -> (r: bool)
    ensures
        r == (a@ == b@),
{
    if a.len() != b.len() {
        return false;
    }
    let mut i: usize = 0;
    while i < a.len()
        invariant
            a.len() == b.len(),
            0 <= i <= a.len(),
            forall|k: int| 0 <= k < i ==> a@[k] == b@[k],
        decreases a.len() - i,
    {
        if a[i] != b[i] {
            return false;
        }
        i = i + 1;
    }
    assert(a@ =~= b@);
    true
}

/// Reads a circuit id argument: `best` or `latest` choose the fittest archived
/// circuit, anything else must be a decimal id (no white space allowed).
pub fn parse_circuit_id(id_str: &str) -> (r: Result<CircuitChoice, String>)
    ensures
        match circuit_choice_result(id_str@) {
            Ok(c) => r == Ok::<CircuitChoice, String>(c),
            Err(m) => r matches Err(e) && e@ == m,
        },
{
    let v = str_chars(id_str);
    let best = str_chars("best");
    let latest = str_chars("latest");
    if chars_equal(&v, &best) || chars_equal(&v, &latest) {
        return Ok(CircuitChoice::Best);
    }
    assert(v@.skip(0) =~= v@);
    match parse_unsigned_chars(&v, 0, 10, usize::MAX as u64) {
        Ok(n) => Ok(CircuitChoice::Id(n as usize)),
        Err(_) => {
            let mut m = String::new();
            push_str(&mut m, "Invalid circuit ID: '");
            push_str(&mut m, id_str);
            push_str(&mut m, "'. Expected integer or 'best'");
            assert(m@ =~= "Invalid circuit ID: '"@ + id_str@ + "'. Expected integer or 'best'"@);
            Err(m)
        },
    }
}

/// The checkpoint files looked for, in order of preference.
pub open spec fn checkpoint_candidates() -> Seq<Seq<char>> {
    seq![
        "checkpoints/checkpoint_final.json"@,
        "target/test_checkpoints/checkpoint_final.json"@,
        "checkpoints/checkpoint_gen_50.json"@,
        "target/test_checkpoints/checkpoint_gen_50.json"@,
    ]
}

/// The path `find_default_checkpoint` returns, given which candidates exist.
pub open spec fn default_checkpoint(exists: Seq<bool>) -> Seq<char> {
    if exists[0] {
        checkpoint_candidates()[0]
    } else if exists[1] {
        checkpoint_candidates()[1]
    } else if exists[2] {
        checkpoint_candidates()[2]
    } else if exists[3] {
        checkpoint_candidates()[3]
    } else {
        checkpoint_candidates()[0]
    }
}

/// The first checkpoint candidate that exists (`exists[i]` tells whether the
/// `i`-th of `checkpoint_candidates` exists), else the final checkpoint path.
pub fn find_default_checkpoint(exists: &Vec<bool>) -> (p: &'static str)
    requires
        exists.len() == 4,
    ensures
        p@ == default_checkpoint(exists@),
{
    if exists[0] {
        "checkpoints/checkpoint_final.json"
    } else if exists[1] {
        "target/test_checkpoints/checkpoint_final.json"
    } else if exists[2] {
        "checkpoints/checkpoint_gen_50.json"
    } else if exists[3] {
        "target/test_checkpoints/checkpoint_gen_50.json"
    } else {
        "checkpoints/checkpoint_final.json"
    }
}

/// The candidate path at position `i` (0 to 3) of `checkpoint_candidates`.
pub fn checkpoint_candidate(i: usize) -> (p: &'static str)
    requires
        i < 4,
    ensures
        p@ == checkpoint_candidates()[i as int],
{
    if i == 0 {
        "checkpoints/checkpoint_final.json"
    } else if i == 1 {
        "target/test_checkpoints/checkpoint_final.json"
    } else if i == 2 {
        "checkpoints/checkpoint_gen_50.json"
    } else {
        "target/test_checkpoints/checkpoint_gen_50.json"
    }
}

} // verus!
