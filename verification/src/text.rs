//! Character-level helpers on strings.

use vstd::prelude::*;

verus! {

/// Appends one character to a string (std `String::push`).
///
/// Trusted: the documentation of `String::push` says that it appends the
/// given `char` to the end of the string; this is what the contract claims.
#[verifier::external_body]
pub(crate) fn push_char(s: &mut String, c: char)
    ensures
        final(s)@ == old(s)@.push(c),
{
    s.push(c);
}

/// The characters of a string slice, in order.
pub fn chars_of(s: &str) -> (v: Vec<char>)
    ensures
        v@ == s@,
{
    let mut v: Vec<char> = Vec::new();
    for c in it: s.chars()
        invariant
            v@ == it.seq().take(it.index() as int),
    {
        v.push(c);
    }
    v
}

/// A string made of the characters of `cs`, in order.
pub fn string_of(cs: &[char]) -> (s: String)
    ensures
        s@ == cs@,
{
    let mut s = String::new();
    let n = cs.len();
    for i in 0..n
        invariant
            n == cs@.len(),
            s@ == cs@.take(i as int),
    {
        push_char(&mut s, cs[i]);
        assert(cs@.take(i as int).push(cs@[i as int]) == cs@.take(i + 1));
    }
    assert(cs@.take(n as int) == cs@);
    s
}

/// Whether `p` is a prefix of `cs`.
pub fn has_prefix(cs: &[char], p: &str) -> (b: bool)
    ensures
        b == p@.is_prefix_of(cs@),
{
    let m = p.unicode_len();
    if m > cs.len() {
        return false;
    }
    let mut k: usize = 0;
    while k < m
        invariant
            m == p@.len(),
            m <= cs@.len(),
            k <= m,
            forall|j: int| 0 <= j < k ==> cs@[j] == p@[j],
        decreases m - k,
    {
        if cs[k] != p.get_char(k) {
            assert(cs@.subrange(0, m as int)[k as int] != p@[k as int]);
            return false;
        }
        k = k + 1;
    }
    assert(p@ =~= cs@.subrange(0, m as int));
    true
}

/// Whether `cs` are exactly the characters of `p`.
pub fn equals_text(cs: &[char], p: &str) -> (b: bool)
    ensures
        b == (cs@ == p@),
{
    let m = p.unicode_len();
    if m != cs.len() {
        return false;
    }
    let b = has_prefix(cs, p);
    assert(b ==> cs@.subrange(0, m as int) =~= cs@);
    b
}

/// The characters of an optional string.
pub open spec fn opt_chars(o: Option<String>) -> Option<Seq<char>> {
    match o {
        Some(s) => Some(s@),
        None => None,
    }
}

/// The decimal digit character for `d` (below ten).
pub open spec fn digit_char(d: nat) -> char {
    "0123456789"@[d as int]
}

/// The shortest decimal notation of `n`, most significant digit first.
pub open spec fn decimal(n: nat) -> Seq<char>
    decreases n,
{
    if n < 10 {
        seq![digit_char(n)]
    } else {
        decimal(n / 10).push(digit_char(n % 10))
    }
}

/// Writes `n` in decimal, as `format!("{}", n)` does.
pub fn decimal_string(n: usize) -> (s: String)
    ensures
        s@ == decimal(n as nat),
    decreases n,
{
    let digits = "0123456789";
    proof {
        reveal_strlit("0123456789");
    }
    if n < 10 {
        let mut s = String::new();
        push_char(&mut s, digits.get_char(n));
        s
    } else {
        let mut s = decimal_string(n / 10);
        push_char(&mut s, digits.get_char(n % 10));
        s
    }
}

/// Decimal notation: a number below ten is its one digit (`0` is code point
/// 48), and appending a digit multiplies by ten and adds it.
pub proof fn lemma_decimal_digits(n: nat, d: nat)
    requires
        d < 10,
    ensures
        decimal(d) == seq![(48 + d) as char],
        n > 0 ==> decimal(n * 10 + d) == decimal(n).push((48 + d) as char),
{
    lemma_digit_char(d);
    if n > 0 {
        assert((n * 10 + d) / 10 == n && (n * 10 + d) % 10 == d) by (nonlinear_arith)
            requires
                d < 10,
        ;
    }
}

proof fn lemma_digit_char(d: nat)
    requires
        d < 10,
    ensures
        digit_char(d) == (48 + d) as char,
{
    reveal_strlit("0123456789");
    assert(d == 0 || d == 1 || d == 2 || d == 3 || d == 4 || d == 5 || d == 6 || d == 7 || d == 8
        || d == 9);
}

} // verus!
