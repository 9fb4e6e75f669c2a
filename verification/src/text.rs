//! Small text primitives shared by the netlist and report generators.

use vstd::prelude::*;

verus! {

/// Appends one character to a string (`String::push`).
#[verifier::external_body]
pub(crate) fn push_char(s: &mut String, c: char)
    ensures
        final(s)@ == old(s)@.push(c),
{
    s.push(c);
}

/// The ASCII digit character for a value below ten.
pub open spec fn digit_char(d: nat) -> char {
    (d + 48) as char
}

/// Decimal rendering of a natural number, without sign or leading zeros.
pub open spec fn decimal(n: nat) -> Seq<char>
    decreases n,
{
    if n < 10 {
        seq![digit_char(n)]
    } else {
        decimal(n / 10).push(digit_char(n % 10))
    }
}

/// `s` followed by spaces up to `width` characters (left-aligned field).
pub open spec fn pad_right(s: Seq<char>, width: nat) -> Seq<char> {
    if s.len() >= width {
        s
    } else {
        s + Seq::new((width - s.len()) as nat, |i: int| ' ')
    }
}

/// `s` preceded by spaces up to `width` characters (right-aligned field).
pub open spec fn pad_left(s: Seq<char>, width: nat) -> Seq<char> {
    if s.len() >= width {
        s
    } else {
        Seq::new((width - s.len()) as nat, |i: int| ' ') + s
    }
}

/// Appends the decimal rendering of `n`.
pub fn push_decimal(out: &mut String, n: usize)
    ensures
        final(out)@ == old(out)@ + decimal(n as nat),
    decreases n,
{
    if n >= 10 {
        push_decimal(out, n / 10);
    }
    let d: u8 = (n % 10) as u8;
    push_char(out, (d + 48u8) as char);
    proof {
        if n >= 10 {
            assert(old(out)@ + decimal(n as nat) =~= (old(out)@ + decimal((n / 10) as nat)).push(
                digit_char((n % 10) as nat),
            ));
        }
    }
}


/// Appends the decimal rendering of a 64-bit value.
pub fn push_decimal_u64(out: &mut String, n: u64)
    ensures
        final(out)@ == old(out)@ + decimal(n as nat),
    decreases n,
{
    if n >= 10 {
        push_decimal_u64(out, n / 10);
    }
    let d: u8 = (n % 10) as u8;
    push_char(out, (d + 48u8) as char);
    proof {
        if n >= 10 {
            assert(old(out)@ + decimal(n as nat) =~= (old(out)@ + decimal((n / 10) as nat)).push(
                digit_char((n % 10) as nat),
            ));
        }
    }
}

/// Appends a string slice.
pub fn push_str(out: &mut String, s: &str)
    ensures
        final(out)@ == old(out)@ + s@,
{
    out.append(s);
}

/// Appends `count` spaces.
pub fn push_spaces(out: &mut String, count: usize)
    ensures
        final(out)@ == old(out)@ + Seq::new(count as nat, |i: int| ' '),
{
    let mut k: usize = 0;
    while k < count
        invariant
            0 <= k <= count,
            out@ == old(out)@ + Seq::new(k as nat, |i: int| ' '),
        decreases count - k,
    {
        push_char(out, ' ');
        k = k + 1;
        assert(out@ =~= old(out)@ + Seq::new(k as nat, |i: int| ' '));
    }
}

proof fn lemma_decimal_len_pos(n: nat)
    ensures
        decimal(n).len() >= 1,
    decreases n,
{
    if n >= 10 {
        lemma_decimal_len_pos(n / 10);
    }
}

/// Number of decimal digits of `n`.
pub fn decimal_len(n: usize) -> (l: usize)
    ensures
        l == decimal(n as nat).len(),
        1 <= l <= 20,
    decreases n,
{
    proof {
        lemma_decimal_len_pos(n as nat);
    }
    if n < 10 {
        1
    } else {
        let l = decimal_len(n / 10);
        if l >= 20 {
            proof {
                lemma_decimal_len_bound(n as nat);
            }
        }
        l + 1
    }
}

proof fn lemma_decimal_len_bound(n: nat)
    requires
        n <= 0xffff_ffff_ffff_ffff,
    ensures
        decimal(n).len() <= 20,
{
    assert(pow10(20) == 100_000_000_000_000_000_000nat) by {
        reveal_with_fuel(pow10, 21);
    }
    lemma_decimal_len_pow(n, 20);
}

proof fn lemma_decimal_len_pow(n: nat, k: nat)
    requires
        k >= 1,
        n < pow10(k),
    ensures
        decimal(n).len() <= k,
    decreases k,
{
    if n >= 10 {
        assert(n / 10 < pow10((k - 1) as nat)) by {
            assert(pow10(k) == 10 * pow10((k - 1) as nat));
        }
        if k >= 2 {
            lemma_decimal_len_pow(n / 10, (k - 1) as nat);
        } else {
            assert(pow10(1) == 10) by {
                assert(pow10(0) == 1);
            }
        }
    }
}

/// Ten to the power `k`.
pub open spec fn pow10(k: nat) -> nat
    decreases k,
{
    if k == 0 {
        1
    } else {
        10 * pow10((k - 1) as nat)
    }
}

/// Appends the decimal rendering of `n`, left-aligned in a field of `width`.
pub fn push_decimal_padded_right(out: &mut String, n: usize, width: usize)
    ensures
        final(out)@ == old(out)@ + pad_right(decimal(n as nat), width as nat),
{
    push_decimal(out, n);
    let l = decimal_len(n);
    if l < width {
        push_spaces(out, width - l);
    }
    assert(final(out)@ =~= old(out)@ + pad_right(decimal(n as nat), width as nat)) by {
        if l < width {
            assert(old(out)@ + decimal(n as nat) + Seq::new((width - l) as nat, |i: int| ' ')
                =~= old(out)@ + (decimal(n as nat) + Seq::new((width - l) as nat, |i: int| ' ')));
        }
    }
}

/// Appends the decimal rendering of `n`, right-aligned in a field of `width`.
pub fn push_decimal_padded_left(out: &mut String, n: usize, width: usize)
    ensures
        final(out)@ == old(out)@ + pad_left(decimal(n as nat), width as nat),
{
    let l = decimal_len(n);
    if l < width {
        push_spaces(out, width - l);
    }
    push_decimal(out, n);
    assert(final(out)@ =~= old(out)@ + pad_left(decimal(n as nat), width as nat));
}


/// The characters of a string slice (`str::chars` collected). This is a
/// single pass over the text; whole vendor files and simulator logs go
/// through it, which a loop of `get_char` calls would make quadratic.
#[verifier::external_body]
pub(crate) fn str_chars(s: &str) -> (v: Vec<char>)
    ensures
        v@ == s@,
{
    s.chars().collect()
}

/// `pat` occurs in `s` starting at position `k`.
pub open spec fn occurs_at(s: Seq<char>, pat: Seq<char>, k: int) -> bool {
    0 <= k && k + pat.len() <= s.len() && s.subrange(k, k + pat.len()) == pat
}

/// `pat` occurs somewhere in `s`.
pub open spec fn contains_text(s: Seq<char>, pat: Seq<char>) -> bool {
    exists|k: int| occurs_at(s, pat, k)
}

/// Does `pat` occur in `s` at position `k`?
pub fn chars_occur_at(s: &Vec<char>, pat: &Vec<char>, k: usize) -> (r: bool)
    ensures
        r == occurs_at(s@, pat@, k as int),
{
    if k > s.len() || pat.len() > s.len() - k {
        return false;
    }
    let mut j: usize = 0;
    while j < pat.len()
        invariant
            k + pat.len() <= s.len(),
            0 <= j <= pat.len(),
            forall|t: int| 0 <= t < j ==> s@[k + t] == pat@[t],
        decreases pat.len() - j,
    {
        if s[k + j] != pat[j] {
            assert(s@.subrange(k as int, k + pat.len())[j as int] != pat@[j as int]);
            return false;
        }
        j = j + 1;
    }
    assert(s@.subrange(k as int, k + pat.len()) =~= pat@);
    true
}

/// Does `pat` occur anywhere in `s`?
pub fn chars_contain(s: &Vec<char>, pat: &Vec<char>) -> (r: bool)
    ensures
        r == contains_text(s@, pat@),
{
    if pat.len() > s.len() {
        return false;
    }
    if pat.len() == 0 {
        assert(s@.subrange(0, 0) =~= pat@);
        assert(occurs_at(s@, pat@, 0));
        return true;
    }
    let last = s.len() - pat.len();
    let mut k: usize = 0;
    while k <= last
        invariant
            last == s.len() - pat.len(),
            last < usize::MAX,
            0 <= k <= last + 1,
            forall|t: int| 0 <= t < k ==> !occurs_at(s@, pat@, t),
        decreases last + 1 - k,
    {
        if chars_occur_at(s, pat, k) {
            return true;
        }
        k = k + 1;
    }
    false
}

/// Does `pat` occur anywhere in `s`?
pub fn str_contains(s: &str, pat: &str) -> (r: bool)
    ensures
        r == contains_text(s@, pat@),
{
    let sv = str_chars(s);
    let pv = str_chars(pat);
    chars_contain(&sv, &pv)
}

/// Unicode `White_Space` characters, which `str::trim` removes: TAB, LF, VT,
/// FF, CR, SPACE, NEL, NBSP, OGHAM SPACE MARK, U+2000 to U+200A, LINE and
/// PARAGRAPH SEPARATOR, NARROW NBSP, MEDIUM MATHEMATICAL SPACE and IDEOGRAPHIC SPACE.
pub open spec fn is_white_space(c: char) -> bool {
    ||| '\u{9}' <= c <= '\u{d}'
    ||| c == ' '
    ||| c == '\u{85}'
    ||| c == '\u{a0}'
    ||| c == '\u{1680}'
    ||| '\u{2000}' <= c <= '\u{200a}'
    ||| c == '\u{2028}'
    ||| c == '\u{2029}'
    ||| c == '\u{202f}'
    ||| c == '\u{205f}'
    ||| c == '\u{3000}'
}

/// Is `c` a Unicode `White_Space` character?
pub fn white_space(c: char) -> (r: bool)
    ensures
        r == is_white_space(c),
{
    ('\u{9}' <= c && c <= '\u{d}') || c == ' ' || c == '\u{85}' || c == '\u{a0}' || c == '\u{1680}'
        || ('\u{2000}' <= c && c <= '\u{200a}') || c == '\u{2028}' || c == '\u{2029}' || c
        == '\u{202f}' || c == '\u{205f}' || c == '\u{3000}'
}

/// Number of white-space characters at the start of `s`.
pub open spec fn leading_ws(s: Seq<char>) -> nat
    decreases s.len(),
{
    if s.len() > 0 && is_white_space(s[0]) {
        1 + leading_ws(s.drop_first())
    } else {
        0
    }
}

/// Number of white-space characters at the end of `s`.
pub open spec fn trailing_ws(s: Seq<char>) -> nat
    decreases s.len(),
{
    if s.len() > 0 && is_white_space(s.last()) {
        1 + trailing_ws(s.drop_last())
    } else {
        0
    }
}

/// `s` without leading and trailing white space (`str::trim`).
pub open spec fn trimmed(s: Seq<char>) -> Seq<char> {
    let t = s.skip(leading_ws(s) as int);
    t.take(t.len() - trailing_ws(t))
}

proof fn lemma_leading_ws(s: Seq<char>, a: int)
    requires
        0 <= a <= s.len(),
        forall|k: int| 0 <= k < a ==> is_white_space(#[trigger] s[k]),
        a == s.len() || !is_white_space(s[a]),
    ensures
        leading_ws(s) == a,
    decreases a,
{
    if a > 0 {
        assert forall|k: int| 0 <= k < a - 1 implies is_white_space(#[trigger] s.drop_first()[k]) by {
            assert(s.drop_first()[k] == s[k + 1]);
        }
        if a - 1 < s.drop_first().len() {
            assert(s.drop_first()[a - 1] == s[a]);
        }
        lemma_leading_ws(s.drop_first(), a - 1);
    }
}

proof fn lemma_trailing_ws(s: Seq<char>, b: int)
    requires
        0 <= b <= s.len(),
        forall|k: int| b <= k < s.len() ==> is_white_space(#[trigger] s[k]),
        b == 0 || !is_white_space(s[b - 1]),
    ensures
        trailing_ws(s) == s.len() - b,
    decreases s.len() - b,
{
    if b < s.len() {
        assert forall|k: int| b <= k < s.drop_last().len() implies is_white_space(#[trigger] s.drop_last()[k]) by {
            assert(s.drop_last()[k] == s[k]);
        }
        if b > 0 {
            assert(s.drop_last()[b - 1] == s[b - 1]);
        }
        lemma_trailing_ws(s.drop_last(), b);
    }
}

/// The characters `v[from..to]` as a string.
pub fn chars_to_string(v: &Vec<char>, from: usize, to: usize) -> (r: String)
    requires
        from <= to <= v.len(),
    ensures
        r@ == v@.subrange(from as int, to as int),
{
    let mut r = String::new();
    let mut k: usize = from;
    while k < to
        invariant
            from <= k <= to <= v.len(),
            r@ == v@.subrange(from as int, k as int),
        decreases to - k,
    {
        push_char(&mut r, v[k]);
        k = k + 1;
        assert(r@ =~= v@.subrange(from as int, k as int));
    }
    r
}

/// Bounds `(a, b)` of the trimmed part of `v`: `v[a..b]` is `trimmed(v)`.
pub fn trim_bounds(v: &Vec<char>) -> (r: (usize, usize))
    ensures
        r.0 <= r.1 <= v.len(),
        v@.subrange(r.0 as int, r.1 as int) == trimmed(v@),
{
    let mut a: usize = 0;
    while a < v.len() && white_space(v[a])
        invariant
            0 <= a <= v.len(),
            forall|k: int| 0 <= k < a ==> is_white_space(#[trigger] v@[k]),
        decreases v.len() - a,
    {
        a = a + 1;
    }
    proof {
        lemma_leading_ws(v@, a as int);
    }
    let mut b: usize = v.len();
    while b > a && white_space(v[b - 1])
        invariant
            a <= b <= v.len(),
            forall|k: int| b <= k < v.len() ==> is_white_space(#[trigger] v@[k]),
        decreases b,
    {
        b = b - 1;
    }
    proof {
        let t = v@.skip(a as int);
        assert forall|k: int| b - a <= k < t.len() implies is_white_space(#[trigger] t[k]) by {
            assert(t[k] == v@[k + a]);
        }
        if b > a {
            assert(t[b - a - 1] == v@[b - 1]);
        }
        lemma_trailing_ws(t, b - a);
        assert(t.take(t.len() - trailing_ws(t)) =~= v@.subrange(a as int, b as int));
    }
    (a, b)
}

/// `s` without leading and trailing white space, as `str::trim` gives it.
pub fn trim(s: &str) -> (r: String)
    ensures
        r@ == trimmed(s@),
{
    let v = str_chars(s);
    let (a, b) = trim_bounds(&v);
    chars_to_string(&v, a, b)
}

/// Case folding for comparisons with ASCII text: ASCII letters fold to lower
/// case, and the Kelvin sign (U+212A), the one non-ASCII character whose
/// lower case is a single ASCII letter, folds to `k`.
pub open spec fn fold_char(c: char) -> char {
    if 'A' <= c && c <= 'Z' {
        ((c as int) + 32) as char
    } else if c == '\u{212A}' {
        'k'
    } else {
        c
    }
}

/// Lower-case folding of one character, as `fold_char`.
pub fn fold(c: char) -> (r: char)
    ensures
        r == fold_char(c),
{
    if 'A' <= c && c <= 'Z' {
        let b: u32 = c as u32;
        ((b + 32) as u8) as char
    } else if c == '\u{212A}' {
        'k'
    } else {
        c
    }
}

/// `p` is a prefix of `s`.
pub open spec fn starts_with(s: Seq<char>, p: Seq<char>) -> bool {
    p.len() <= s.len() && s.take(p.len() as int) == p
}

/// Does `v` begin with `p`?
pub fn chars_start_with(v: &Vec<char>, p: &str) -> (r: bool)
    ensures
        r == starts_with(v@, p@),
{
    let pv = str_chars(p);
    if pv.len() > v.len() {
        return false;
    }
    let mut k: usize = 0;
    while k < pv.len()
        invariant
            pv@ == p@,
            pv.len() <= v.len(),
            0 <= k <= pv.len(),
            forall|j: int| 0 <= j < k ==> v@[j] == pv@[j],
        decreases pv.len() - k,
    {
        if v[k] != pv[k] {
            assert(v@.take(pv.len() as int)[k as int] != pv@[k as int]);
            return false;
        }
        k = k + 1;
    }
    assert(v@.take(pv.len() as int) =~= pv@);
    true
}

} // verus!
