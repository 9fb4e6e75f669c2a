//! Parsing of unsigned integers from text, with the error kinds and messages
//! of Rust's integer parsing (`u64::from_str_radix`, `str::parse`).

use vstd::prelude::*;
use crate::text::push_str;

verus! {

/// Why a text is not an unsigned integer.
#[derive(Debug, Clone, Copy, PartialEq, Eq, Structural)]
pub enum IntParseError {
    /// The text is empty.
    Empty,
    /// A character is not a digit of the radix (a lone `+` or any `-` too).
    InvalidDigit,
    /// The value does not fit the target type.
    PosOverflow,
}

/// The message Rust gives for each kind of integer parse error.
pub open spec fn int_error_message(e: IntParseError) -> Seq<char> {
    match e {
        IntParseError::Empty => "cannot parse integer from empty string"@,
        IntParseError::InvalidDigit => "invalid digit found in string"@,
        IntParseError::PosOverflow => "number too large to fit in target type"@,
    }
}

/// The value of `c` as a digit of `radix` (`char::to_digit`), if it is one.
pub open spec fn digit_value(c: char, radix: nat) -> Option<nat> {
    let v: int = if '0' <= c <= '9' {
        c as int - 48
    } else if 'a' <= c <= 'z' {
        c as int - 87
    } else if 'A' <= c <= 'Z' {
        c as int - 55
    } else {
        -1
    };
    if 0 <= v < radix {
        Some(v as nat)
    } else {
        None
    }
}

/// Reads the digits `ds` after the value `acc` read so far, failing at the
/// first character that is not a digit or the first step past `max`.
pub open spec fn scan_digits(ds: Seq<char>, acc: nat, radix: nat, max: nat) -> Result<nat, IntParseError>
    decreases ds.len(),
{
    if ds.len() == 0 {
        Ok(acc)
    } else {
        match digit_value(ds[0], radix) {
            None => Err(IntParseError::InvalidDigit),
            Some(d) => if acc * radix + d > max {
                Err(IntParseError::PosOverflow)
            } else {
                scan_digits(ds.drop_first(), acc * radix + d, radix, max)
            },
        }
    }
}

/// An unsigned integer of at most `max` in `radix`, with an optional leading `+`.
pub open spec fn parse_unsigned(s: Seq<char>, radix: nat, max: nat) -> Result<nat, IntParseError> {
    if s.len() == 0 {
        Err(IntParseError::Empty)
    } else if s[0] == '+' {
        if s.len() == 1 {
            Err(IntParseError::InvalidDigit)
        } else {
            scan_digits(s.drop_first(), 0, radix, max)
        }
    } else {
        scan_digits(s, 0, radix, max)
    }
}

/// A value that is read never exceeds the bound.
pub proof fn lemma_parse_within_max(s: Seq<char>, radix: nat, max: nat)
    ensures
        parse_unsigned(s, radix, max) matches Ok(v) ==> v <= max,
{
    if s.len() > 0 {
        if s[0] == '+' {
            lemma_scan_within_max(s.drop_first(), 0, radix, max);
        } else {
            lemma_scan_within_max(s, 0, radix, max);
        }
    }
}

proof fn lemma_scan_within_max(ds: Seq<char>, acc: nat, radix: nat, max: nat)
    ensures
        scan_digits(ds, acc, radix, max) matches Ok(v) ==> v <= max || (v == acc && ds.len() == 0),
    decreases ds.len(),
{
    if ds.len() > 0 {
        if let Some(d) = digit_value(ds[0], radix) {
            if acc * radix + d <= max {
                lemma_scan_within_max(ds.drop_first(), acc * radix + d, radix, max);
            }
        }
    }
}

proof fn lemma_div_bound(acc: int, radix: int, max: int)
    by (nonlinear_arith)
    requires
        radix > 0,
        acc >= 0,
        max >= 0,
    ensures
        acc > max / radix <==> acc * radix > max,
{
}

/// The value of `c` as a digit of `radix`.
pub fn digit_of(c: char, radix: u64) -> (r: Option<u64>)
    requires
        2 <= radix <= 36,
    ensures
        r matches Some(d) ==> digit_value(c, radix as nat) == Some(d as nat),
        r is None ==> digit_value(c, radix as nat) is None,
{
    let v: u64 = if '0' <= c && c <= '9' {
        (c as u32 - 48) as u64
    } else if 'a' <= c && c <= 'z' {
        (c as u32 - 87) as u64
    } else if 'A' <= c && c <= 'Z' {
        (c as u32 - 55) as u64
    } else {
        return None;
    };
    if v < radix {
        Some(v)
    } else {
        None
    }
}

/// Parses `s[from..]` as an unsigned integer of at most `max` in `radix`.
pub fn parse_unsigned_chars(s: &Vec<char>, from: usize, radix: u64, max: u64) -> (r: Result<u64, IntParseError>)
    requires
        from <= s.len(),
        2 <= radix <= 36,
    ensures
        match parse_unsigned(s@.skip(from as int), radix as nat, max as nat) {
            Ok(v) => r == Ok::<u64, IntParseError>(v as u64) && v <= max,
            Err(e) => r == Err::<u64, IntParseError>(e),
        },
{
    proof {
        lemma_parse_within_max(s@.skip(from as int), radix as nat, max as nat);
    }
    let ghost t = s@.skip(from as int);
    if from == s.len() {
        return Err(IntParseError::Empty);
    }
    let mut i: usize = from;
    if s[from] == '+' {
        if from + 1 == s.len() {
            return Err(IntParseError::InvalidDigit);
        }
        i = from + 1;
        assert(t.drop_first() =~= s@.skip(i as int));
    } else {
        assert(t =~= s@.skip(i as int));
    }
    let ghost goal = parse_unsigned(t, radix as nat, max as nat);
    let mut acc: u64 = 0;
    while i < s.len()
        invariant
            from <= i <= s.len(),
            2 <= radix <= 36,
            acc <= max,
            goal == parse_unsigned(s@.skip(from as int), radix as nat, max as nat),
            goal == scan_digits(s@.skip(i as int), acc as nat, radix as nat, max as nat),
        decreases s.len() - i,
    {
        let ghost rest = s@.skip(i as int);
        assert(rest[0] == s@[i as int]);
        assert(rest.drop_first() =~= s@.skip(i + 1));
        match digit_of(s[i], radix) {
            None => {
                return Err(IntParseError::InvalidDigit);
            },
            Some(d) => {
                proof {
                    lemma_div_bound(acc as int, radix as int, max as int);
                }
                if acc > max / radix {
                    proof {
                        assert(acc * radix + d > max) by (nonlinear_arith)
                            requires
                                acc * radix > max,
                                d >= 0,
                        ;
                    }
                    return Err(IntParseError::PosOverflow);
                }
                assert(acc * radix <= max);
                let m: u64 = acc * radix;
                if d > max - m {
                    return Err(IntParseError::PosOverflow);
                }
                acc = m + d;
            },
        }
        i = i + 1;
    }
    assert(s@.skip(i as int) =~= Seq::<char>::empty());
    Ok(acc)
}

impl IntParseError {
    /// The error's message, as Rust's `ParseIntError` displays it.
    pub fn message(&self) -> (s: String)
        ensures
            s@ == int_error_message(*self),
    {
        let mut s = String::new();
        match self {
            IntParseError::Empty => push_str(&mut s, "cannot parse integer from empty string"),
            IntParseError::InvalidDigit => push_str(&mut s, "invalid digit found in string"),
            IntParseError::PosOverflow => push_str(&mut s, "number too large to fit in target type"),
        }
        assert(s@ =~= int_error_message(*self));
        s
    }
}

} // verus!
