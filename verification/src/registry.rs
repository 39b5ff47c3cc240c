//! The registry of decrypted results, looked up by the random id that each
//! result is shown under. An id is 32 lower-case hex digits (16 random
//! bytes); the registry keys its map by the 128-bit number they spell.

use vstd::prelude::*;
use std::collections::HashMap;
use rand::RngCore;
use crate::error::AppError;
use crate::text::chars_of;

verus! {

broadcast use vstd::std_specs::hash::group_hash_axioms;

/// The value of a lower-case hex digit, or -1 for any other character.
pub open spec fn id_digit_value(c: char) -> int {
    if '0' <= c && c <= '9' {
        c as int - '0' as int
    } else if 'a' <= c && c <= 'f' {
        c as int - 'a' as int + 10
    } else {
        -1
    }
}

/// Whether `s` is an id: exactly 32 lower-case hex digits.
pub open spec fn is_id_text(s: Seq<char>) -> bool {
    s.len() == 32 && forall|i: int| 0 <= i < s.len() ==> id_digit_value(#[trigger] s[i]) >= 0
}

/// The number that the hex digits of `s` spell, most significant first.
pub open spec fn id_number(s: Seq<char>) -> nat
    decreases s.len(),
{
    if s.len() == 0 {
        0
    } else {
        id_number(s.drop_last()) * 16 + id_digit_value(s.last()) as nat
    }
}

pub open spec fn pow16(n: nat) -> nat
    decreases n,
{
    if n == 0 {
        1
    } else {
        16 * pow16((n - 1) as nat)
    }
}

/// The value registered under `id`, if any.
pub open spec fn registered<V>(m: Map<Seq<char>, V>, id: Seq<char>) -> Option<V> {
    if m.contains_key(id) {
        Some(m[id])
    } else {
        None
    }
}

/// Results by id. Registering under an id that is already present replaces
/// its value.
pub struct ResultRegistry<V> {
    map: HashMap<u128, V>,
}

impl<V> View for ResultRegistry<V> {
    type V = Map<Seq<char>, V>;

    closed spec fn view(&self) -> Map<Seq<char>, V> {
        Map::new(
            |s: Seq<char>| is_id_text(s) && self.map@.contains_key(id_number(s) as u128),
            |s: Seq<char>| self.map@[id_number(s) as u128],
        )
    }
}

proof fn lemma_id_number_prefix(s: Seq<char>, i: int)
    requires
        0 <= i < s.len(),
        id_digit_value(s[i]) >= 0,
    ensures
        id_number(s.take(i + 1)) == id_number(s.take(i)) * 16 + id_digit_value(s[i]),
{
    assert(s.take(i + 1).drop_last() =~= s.take(i));
}

proof fn lemma_id_number_bound(s: Seq<char>)
    requires
        forall|j: int| 0 <= j < s.len() ==> id_digit_value(#[trigger] s[j]) >= 0,
    ensures
        id_number(s) < pow16(s.len()),
    decreases s.len(),
{
    if s.len() > 0 {
        let t = s.drop_last();
        assert forall|j: int| 0 <= j < t.len() implies id_digit_value(#[trigger] t[j]) >= 0 by {
            assert(t[j] == s[j]);
        }
        lemma_id_number_bound(t);
        assert(id_digit_value(s.last()) < 16);
    }
}

proof fn lemma_pow16_32()
    ensures
        pow16(32) == 0x1_0000_0000_0000_0000_0000_0000_0000_0000,
{
    reveal_with_fuel(pow16, 33);
}

/// Two ids that spell the same number are the same id.
proof fn lemma_id_number_injective(s: Seq<char>, t: Seq<char>)
    requires
        s.len() == t.len(),
        forall|j: int| 0 <= j < s.len() ==> id_digit_value(#[trigger] s[j]) >= 0,
        forall|j: int| 0 <= j < t.len() ==> id_digit_value(#[trigger] t[j]) >= 0,
        id_number(s) == id_number(t),
    ensures
        s == t,
    decreases s.len(),
{
    if s.len() > 0 {
        let (s1, t1) = (s.drop_last(), t.drop_last());
        assert forall|j: int| 0 <= j < s1.len() implies id_digit_value(#[trigger] s1[j]) >= 0 by {
            assert(s1[j] == s[j]);
        }
        assert forall|j: int| 0 <= j < t1.len() implies id_digit_value(#[trigger] t1[j]) >= 0 by {
            assert(t1[j] == t[j]);
        }
        let (a, d, b, e) = (
            id_number(s1) as int,
            id_digit_value(s.last()),
            id_number(t1) as int,
            id_digit_value(t.last()),
        );
        assert(a * 16 + d == b * 16 + e);
        assert(0 <= d < 16 && 0 <= e < 16);
        assert(a == b && d == e);
        lemma_id_number_injective(s1, t1);
        assert(s.last() == t.last());
        assert(s =~= s1.push(s.last()));
        assert(t =~= t1.push(t.last()));
    }
}

/// The number an id spells, or none if the text is no id.
fn parse_id(id: &String) -> (res: Option<u128>)
    ensures
        match res {
            Some(k) => is_id_text(id@) && k == id_number(id@),
            None => !is_id_text(id@),
        },
{
    let cs = chars_of(id.as_str());
    if cs.len() != 32 {
        return None;
    }
    let mut v: u128 = 0;
    let mut i: usize = 0;
    while i < 32
        invariant
            cs@ == id@,
            cs@.len() == 32,
            i <= 32,
            forall|j: int| 0 <= j < i ==> id_digit_value(#[trigger] cs@[j]) >= 0,
            v == id_number(cs@.take(i as int)),
        decreases 32 - i,
    {
        let c = cs[i];
        let d: u128 = if '0' <= c && c <= '9' {
            (c as u32 - '0' as u32) as u128
        } else if 'a' <= c && c <= 'f' {
            (c as u32 - 'a' as u32 + 10) as u128
        } else {
            return None;
        };
        proof {
            lemma_id_number_prefix(cs@, i as int);
            let t = cs@.take(i + 1);
            assert forall|j: int| 0 <= j < t.len() implies id_digit_value(#[trigger] t[j]) >= 0 by {
                assert(t[j] == cs@[j]);
            }
            lemma_id_number_bound(t);
            lemma_pow16_mono((i + 1) as nat, 32);
            lemma_pow16_32();
            assert(v * 16 + d == id_number(t));
        }
        v = v * 16 + d;
        i = i + 1;
    }
    assert(cs@.take(32) =~= cs@);
    Some(v)
}

proof fn lemma_pow16_mono(a: nat, b: nat)
    requires
        a <= b,
    ensures
        pow16(a) <= pow16(b),
    decreases b,
{
    if a < b {
        lemma_pow16_mono(a, (b - 1) as nat);
    }
}

impl<V> ResultRegistry<V> {
    /// An empty registry.
    pub fn new() -> (r: Self)
        ensures
            r@ == Map::<Seq<char>, V>::empty(),
    {
        let r = ResultRegistry { map: HashMap::new() };
        assert(r@ =~= Map::<Seq<char>, V>::empty());
        r
    }

    /// Registers `value` under the id `id` (replacing what was registered
    /// there).
    pub fn insert(&mut self, id: &String, value: V)
        requires
            is_id_text(id@),
        ensures
            final(self)@ == old(self)@.insert(id@, value),
    {
        let key = match parse_id(id) {
            Some(k) => k,
            None => {
                return ;
            },
        };
        let ghost old_map = self.map@;
        self.map.insert(key, value);
        proof {
            assert forall|s: Seq<char>| is_id_text(s) && id_number(s) as u128 == key implies s
                == id@ by {
                lemma_id_number_bound(s);
                lemma_id_number_bound(id@);
                lemma_pow16_32();
                lemma_id_number_injective(s, id@);
            }
            assert(self@ =~= old(self)@.insert(id@, value));
        }
    }

    /// The value registered under `id`, or the error that there is none
    /// (it was never registered, or the registry was cleared since).
    pub fn lookup(&self, id: &String) -> (res: Result<&V, AppError>)
        ensures
            match res {
                Ok(v) => registered(self@, id@) == Some(*v),
                Err(e) => registered(self@, id@) is None && e == AppError::ResultMissing,
            },
    {
        let key = match parse_id(id) {
            Some(k) => k,
            None => return Err(AppError::ResultMissing),
        };
        proof {
            lemma_id_number_bound(id@);
            lemma_pow16_32();
        }
        match self.map.get(&key) {
            Some(v) => Ok(v),
            None => Err(AppError::ResultMissing),
        }
    }

    /// Registers `value` under a fresh random id, which it returns; where
    /// the random source fails, registers nothing and returns none.
    pub fn register(&mut self, value: V) -> (res: Option<String>)
        ensures
            match res {
                Some(id) => {
                    &&& final(self)@ == old(self)@.insert(id@, value)
                    &&& id@.len() == 32
                    &&& exists|b: Seq<u8>| b.len() == 16 && id@ == lower_hex(b)
                },
                None => final(self)@ == old(self)@,
            },
    {
        let id = match random_id() {
            Some(id) => id,
            None => return None,
        };
        proof {
            let b = choose|b: Seq<u8>| b.len() == 16 && id@ == lower_hex(b);
            lemma_lower_hex_is_id_text(b);
        }
        self.insert(&id, value);
        Some(id)
    }

    /// Removes every registered result.
    pub fn clear(&mut self)
        ensures
            final(self)@ == Map::<Seq<char>, V>::empty(),
    {
        self.map.clear();
        assert(self@ =~= Map::<Seq<char>, V>::empty());
    }
}

/// A lookup right after registering a value under an id finds that value.
pub proof fn lemma_lookup_after_insert<V>(m: Map<Seq<char>, V>, id: Seq<char>, value: V)
    ensures
        registered(m.insert(id, value), id) == Some(value),
{
}

/// Registering under one id leaves what any other id finds unchanged.
pub proof fn lemma_insert_keeps_others<V>(
    m: Map<Seq<char>, V>,
    id: Seq<char>,
    value: V,
    other: Seq<char>,
)
    requires
        other != id,
    ensures
        registered(m.insert(id, value), other) == registered(m, other),
{
}

/// After the registry is cleared, no id finds anything.
pub proof fn lemma_cleared_finds_nothing<V>(id: Seq<char>)
    ensures
        registered(Map::<Seq<char>, V>::empty(), id) is None,
{
}

/// The hexadecimal digit character (lower case) for `n` (below 16).
pub open spec fn hex_char(n: nat) -> char {
    "0123456789abcdef"@[n as int]
}

/// Lower-case hexadecimal text of the bytes, two digits per byte, high
/// nibble first.
pub open spec fn lower_hex(b: Seq<u8>) -> Seq<char>
    decreases b.len(),
{
    if b.len() == 0 {
        Seq::empty()
    } else {
        lower_hex(b.drop_last()) + seq![
            hex_char((b.last() / 16) as nat),
            hex_char((b.last() % 16) as nat),
        ]
    }
}

/// The hex text of 16 bytes is an id.
proof fn lemma_lower_hex_is_id_text(b: Seq<u8>)
    requires
        b.len() == 16,
    ensures
        is_id_text(lower_hex(b)),
{
    lemma_lower_hex_len(b);
    lemma_lower_hex_digits(b);
}

proof fn lemma_hex_char_digit(n: nat)
    requires
        n < 16,
    ensures
        id_digit_value(hex_char(n)) == n,
{
    reveal_strlit("0123456789abcdef");
    assert(n == 0 || n == 1 || n == 2 || n == 3 || n == 4 || n == 5 || n == 6 || n == 7 || n == 8
        || n == 9 || n == 10 || n == 11 || n == 12 || n == 13 || n == 14 || n == 15);
}

proof fn lemma_lower_hex_digits(b: Seq<u8>)
    ensures
        forall|i: int|
            0 <= i < lower_hex(b).len() ==> id_digit_value(#[trigger] lower_hex(b)[i]) >= 0,
    decreases b.len(),
{
    if b.len() > 0 {
        let t = b.drop_last();
        lemma_lower_hex_digits(t);
        lemma_lower_hex_len(t);
        lemma_hex_char_digit((b.last() / 16) as nat);
        lemma_hex_char_digit((b.last() % 16) as nat);
        let x = lower_hex(b);
        assert forall|i: int| 0 <= i < x.len() implies id_digit_value(#[trigger] x[i]) >= 0 by {
            if i < lower_hex(t).len() {
                assert(x[i] == lower_hex(t)[i]);
            }
        }
    }
}

proof fn lemma_lower_hex_len(b: Seq<u8>)
    ensures
        lower_hex(b).len() == 2 * b.len(),
    decreases b.len(),
{
    if b.len() > 0 {
        lemma_lower_hex_len(b.drop_last());
    }
}

/// Sixteen bytes from the operating system's random source
/// (`OsRng::try_fill_bytes`), or none where the source reports an error.
///
/// Trusted: nothing is claimed of the bytes, which come from chance; the
/// call reports a failure of the source as an error and does not panic.
#[verifier::external_body]
fn random_bytes() -> (bytes: Option<[u8; 16]>) {
    let mut bytes = [0u8; 16];
    match rand::rngs::OsRng.try_fill_bytes(&mut bytes) {
        Ok(()) => Some(bytes),
        Err(_) => None,
    }
}

/// Lower-case hexadecimal text of the bytes (`hex::encode`).
///
/// Trusted: `hex::encode` writes each byte as two lower-case hex digits,
/// high nibble first, as its documentation and source show.
#[verifier::external_body]
fn hex_encode(data: &[u8]) -> (s: String)
    ensures
        s@ == lower_hex(data@),
{
    hex::encode(data)
}

/// A fresh random id: 16 random bytes in lower-case hexadecimal; none
/// where the random source fails.
pub fn random_id() -> (res: Option<String>)
    ensures
        res matches Some(id) ==> id@.len() == 32 && exists|b: Seq<u8>| b.len() == 16 && id@
            == lower_hex(b),
{
    let bytes = random_bytes()?;
    let id = hex_encode(bytes.as_slice());
    proof {
        lemma_lower_hex_len(bytes@);
    }
    Some(id)
}

} // verus!
