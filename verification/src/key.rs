//! Turning the key text typed by the user into a 32-byte AES key.

use vstd::prelude::*;
use base64::Engine;
use crate::error::AppError;

verus! {

/// `char::is_whitespace`: the Unicode `White_Space` property.
pub open spec fn is_white_space(c: char) -> bool {
    let u = c as u32;
    ||| 0x09 <= u <= 0x0d
    ||| u == 0x20
    ||| u == 0x85
    ||| u == 0xa0
    ||| u == 0x1680
    ||| 0x2000 <= u <= 0x200a
    ||| u == 0x2028
    ||| u == 0x2029
    ||| u == 0x202f
    ||| u == 0x205f
    ||| u == 0x3000
}

/// The text without its leading white space.
pub open spec fn trim_start(s: Seq<char>) -> Seq<char>
    decreases s.len(),
{
    if s.len() > 0 && is_white_space(s[0]) {
        trim_start(s.drop_first())
    } else {
        s
    }
}

/// The text without its trailing white space.
pub open spec fn trim_end(s: Seq<char>) -> Seq<char>
    decreases s.len(),
{
    if s.len() > 0 && is_white_space(s.last()) {
        trim_end(s.drop_last())
    } else {
        s
    }
}

/// `str::trim`: the text without white space at either end.
pub open spec fn trim(s: Seq<char>) -> Seq<char> {
    trim_end(trim_start(s))
}

/// `str::strip_prefix(p).unwrap_or(s)`.
pub open spec fn strip_prefix(s: Seq<char>, p: Seq<char>) -> Seq<char> {
    if p.is_prefix_of(s) {
        s.skip(p.len() as int)
    } else {
        s
    }
}

/// The characters that the key text may be broken by: newline, carriage
/// return, space and tab.
pub open spec fn is_blank(c: char) -> bool {
    c == '\n' || c == '\r' || c == ' ' || c == '\t'
}

/// The text with every blank character removed.
pub open spec fn strip_blanks(s: Seq<char>) -> Seq<char>
    decreases s.len(),
{
    if s.len() == 0 {
        s
    } else if is_blank(s.last()) {
        strip_blanks(s.drop_last())
    } else {
        strip_blanks(s.drop_last()).push(s.last())
    }
}

pub open spec fn base64_tag() -> Seq<char> {
    seq!['b', 'a', 's', 'e', '6', '4', ':']
}

pub open spec fn hex_tag() -> Seq<char> {
    seq!['h', 'e', 'x', ':']
}

/// The key text as it is handed to the decoders: trimmed, without a
/// `base64:` tag and then without a `hex:` tag, and without blanks.
pub open spec fn cleaned_key_text(input: Seq<char>) -> Seq<char> {
    strip_blanks(strip_prefix(strip_prefix(trim(input), base64_tag()), hex_tag()))
}

/// Whether `c` is white space (`char::is_whitespace`).
pub fn is_white_space_char(c: char) -> (b: bool)
    ensures
        b == is_white_space(c),
{
    let u = c as u32;
    (0x09 <= u && u <= 0x0d) || u == 0x20 || u == 0x85 || u == 0xa0 || u == 0x1680 || (0x2000
        <= u && u <= 0x200a) || u == 0x2028 || u == 0x2029 || u == 0x202f || u == 0x205f || u
        == 0x3000
}

proof fn lemma_trim_start_skip(s: Seq<char>, i: int)
    requires
        0 <= i < s.len(),
        is_white_space(s[i]),
    ensures
        trim_start(s.skip(i)) == trim_start(s.skip(i + 1)),
{
    assert(s.skip(i).drop_first() =~= s.skip(i + 1));
}

proof fn lemma_trim_end_take(s: Seq<char>, i: int, j: int)
    requires
        0 <= i < j <= s.len(),
        is_white_space(s[j - 1]),
    ensures
        trim_end(s.subrange(i, j)) == trim_end(s.subrange(i, j - 1)),
{
    assert(s.subrange(i, j).drop_last() =~= s.subrange(i, j - 1));
}

/// Whether `p` is a prefix of `cs[i..j]`.
fn has_prefix_at(cs: &Vec<char>, i: usize, j: usize, p: &Vec<char>) -> (b: bool)
    requires
        i <= j <= cs@.len(),
    ensures
        b == p@.is_prefix_of(cs@.subrange(i as int, j as int)),
{
    if j - i < p.len() {
        return false;
    }
    let mut k: usize = 0;
    while k < p.len()
        invariant
            i <= j <= cs@.len(),
            p@.len() <= j - i,
            k <= p@.len(),
            forall|m: int| 0 <= m < k ==> cs@[i + m] == p@[m],
        decreases p@.len() - k,
    {
        if cs[i + k] != p[k] {
            assert(cs@.subrange(i as int, j as int)[k as int] == cs@[i + k]);
            return false;
        }
        k = k + 1;
    }
    assert(p@ =~= cs@.subrange(i as int, j as int).subrange(0, p@.len() as int));
    true
}

/// The key text after trimming, removing the `base64:` and `hex:` tags and
/// removing blanks: what the decoders are given.
pub fn clean_key_text(input: &str) -> (s: String)
    ensures
        s@ == cleaned_key_text(input@),
{
    let cs = crate::text::chars_of(input);
    let n = cs.len();
    // leading white space
    let mut i: usize = 0;
    assert(cs@.skip(0) =~= cs@);
    while i < n && is_white_space_char(cs[i])
        invariant
            n == cs@.len(),
            i <= n,
            trim_start(cs@) == trim_start(cs@.skip(i as int)),
        decreases n - i,
    {
        proof {
            lemma_trim_start_skip(cs@, i as int);
        }
        i = i + 1;
    }
    proof {
        assert(cs@.skip(0) =~= cs@);
        if i == n {
            assert(cs@.skip(i as int) =~= Seq::<char>::empty());
        }
        assert(trim_start(cs@) == cs@.subrange(i as int, n as int));
    }
    // trailing white space
    let mut j: usize = n;
    while j > i && is_white_space_char(cs[j - 1])
        invariant
            n == cs@.len(),
            i <= j <= n,
            trim_end(cs@.subrange(i as int, n as int)) == trim_end(cs@.subrange(i as int, j as int)),
        decreases j - i,
    {
        proof {
            lemma_trim_end_take(cs@, i as int, j as int);
        }
        j = j - 1;
    }
    assert(trim(input@) == cs@.subrange(i as int, j as int));
    // tags
    let b64 = vec!['b', 'a', 's', 'e', '6', '4', ':'];
    assert(b64@ == base64_tag());
    if has_prefix_at(&cs, i, j, &b64) {
        assert(cs@.subrange(i as int, j as int).skip(7) =~= cs@.subrange(i + 7, j as int));
        i = i + 7;
    }
    assert(strip_prefix(trim(input@), base64_tag()) == cs@.subrange(i as int, j as int));
    let hex = vec!['h', 'e', 'x', ':'];
    assert(hex@ == hex_tag());
    if has_prefix_at(&cs, i, j, &hex) {
        assert(cs@.subrange(i as int, j as int).skip(4) =~= cs@.subrange(i + 4, j as int));
        i = i + 4;
    }
    let ghost stripped = cs@.subrange(i as int, j as int);
    assert(strip_prefix(strip_prefix(trim(input@), base64_tag()), hex_tag()) == stripped);
    // blanks
    let mut out = String::new();
    let mut k: usize = i;
    while k < j
        invariant
            n == cs@.len(),
            i <= k <= j <= n,
            stripped == cs@.subrange(i as int, j as int),
            out@ == strip_blanks(cs@.subrange(i as int, k as int)),
        decreases j - k,
    {
        let c = cs[k];
        assert(cs@.subrange(i as int, k + 1).drop_last() =~= cs@.subrange(i as int, k as int));
        if !(c == '\n' || c == '\r' || c == ' ' || c == '\t') {
            crate::text::push_char(&mut out, c);
        }
        k = k + 1;
    }
    out
}

/// The four general-purpose base64 engines that the key text is tried with.
#[derive(Clone, Copy, Debug, PartialEq, Eq, Structural)]
pub enum Base64Flavor {
    /// Standard alphabet, canonical padding required.
    Standard,
    /// Standard alphabet, no padding allowed.
    StandardNoPad,
    /// URL-safe alphabet, canonical padding required.
    UrlSafe,
    /// URL-safe alphabet, no padding allowed.
    UrlSafeNoPad,
}

/// What base64's general-purpose engine of the given flavor decodes `input`
/// to, or `None` where it reports an error.
pub uninterp spec fn base64_decoding(flavor: Base64Flavor, input: Seq<u8>) -> Option<Seq<u8>>;

/// The bytes of an optional byte vector.
pub open spec fn opt_bytes(o: Option<Vec<u8>>) -> Option<Seq<u8>> {
    match o {
        Some(v) => Some(v@),
        None => None,
    }
}

/// Decodes `input` with one of base64's general-purpose engines
/// (`Engine::decode` on `STANDARD`, `STANDARD_NO_PAD`, `URL_SAFE` or
/// `URL_SAFE_NO_PAD`).
///
/// Trusted: the result, `None` for a `DecodeError`, is claimed to be the
/// named function `base64_decoding` of the flavor and the input bytes;
/// nothing more is claimed of it.
#[verifier::external_body]
fn base64_decode(flavor: Base64Flavor, input: &[u8]) -> (res: Option<Vec<u8>>)
    ensures
        opt_bytes(res) == base64_decoding(flavor, input@),
{
    let engine = match flavor {
        Base64Flavor::Standard => &base64::engine::general_purpose::STANDARD,
        Base64Flavor::StandardNoPad => &base64::engine::general_purpose::STANDARD_NO_PAD,
        Base64Flavor::UrlSafe => &base64::engine::general_purpose::URL_SAFE,
        Base64Flavor::UrlSafeNoPad => &base64::engine::general_purpose::URL_SAFE_NO_PAD,
    };
    engine.decode(input).ok()
}

/// The value of one hex digit, upper or lower case.
pub open spec fn hex_digit_value(b: u8) -> Option<u8> {
    if 0x30 <= b <= 0x39 {
        Some((b - 0x30) as u8)
    } else if 0x41 <= b <= 0x46 {
        Some((b - 0x41 + 10) as u8)
    } else if 0x61 <= b <= 0x66 {
        Some((b - 0x61 + 10) as u8)
    } else {
        None
    }
}

/// Hex decoding: an even number of hex digits, two per byte, high nibble
/// first; `None` for an odd length or any other character.
pub open spec fn hex_decoding(s: Seq<u8>) -> Option<Seq<u8>>
    decreases s.len(),
{
    if s.len() % 2 != 0 {
        None
    } else if s.len() == 0 {
        Some(Seq::empty())
    } else {
        match (hex_digit_value(s[0]), hex_digit_value(s[1]), hex_decoding(s.skip(2))) {
            (Some(h), Some(l), Some(rest)) => Some(seq![(h * 16 + l) as u8] + rest),
            _ => None,
        }
    }
}

/// Decodes hex text (`hex::decode`).
///
/// Trusted: `hex::decode` fails on an odd length (`OddLength`) and on any
/// byte outside `0-9a-fA-F` (`InvalidHexCharacter`), and otherwise maps each
/// pair of digits to one byte, high nibble first; the contract states this.
#[verifier::external_body]
fn hex_decode(input: &[u8]) -> (res: Option<Vec<u8>>)
    ensures
        opt_bytes(res) == hex_decoding(input@),
{
    hex::decode(input).ok()
}

/// The first candidate that decoded to exactly 32 bytes.
pub open spec fn first_key(cands: Seq<Option<Seq<u8>>>) -> Option<Seq<u8>>
    decreases cands.len(),
{
    if cands.len() == 0 {
        None
    } else if cands[0] is Some && cands[0]->0.len() == 32 {
        cands[0]
    } else {
        first_key(cands.drop_first())
    }
}

/// The key chosen from the decoded candidates, in order, and failing them
/// the raw bytes of the text if there are exactly 32 of them.
pub open spec fn chosen_key(cands: Seq<Option<Seq<u8>>>, raw: Seq<u8>) -> Option<Seq<u8>> {
    match first_key(cands) {
        Some(k) => Some(k),
        None => if raw.len() == 32 {
            Some(raw)
        } else {
            None
        },
    }
}

/// The candidates that the cleaned key text is decoded to: the four base64
/// engines, then hex.
pub open spec fn key_candidates(input: Seq<char>) -> Seq<Option<Seq<u8>>> {
    let bytes = vstd::utf8::encode_utf8(cleaned_key_text(input));
    seq![
        base64_decoding(Base64Flavor::Standard, bytes),
        base64_decoding(Base64Flavor::StandardNoPad, bytes),
        base64_decoding(Base64Flavor::UrlSafe, bytes),
        base64_decoding(Base64Flavor::UrlSafeNoPad, bytes),
        hex_decoding(bytes),
    ]
}

/// The key that a key text denotes, if any.
pub open spec fn key_outcome(input: Seq<char>) -> Option<Seq<u8>> {
    chosen_key(key_candidates(input), vstd::utf8::encode_utf8(input))
}

/// Picks the key: the first candidate of exactly 32 bytes, else `raw` if it
/// has exactly 32 bytes, else the error that the key text is unusable.
pub fn select_key(candidates: &Vec<Option<Vec<u8>>>, raw: &[u8]) -> (res: Result<Vec<u8>, AppError>)
    ensures
        match res {
            Ok(k) => chosen_key(candidates@.map_values(|o: Option<Vec<u8>>| opt_bytes(o)), raw@)
                == Some(k@),
            Err(e) => chosen_key(candidates@.map_values(|o: Option<Vec<u8>>| opt_bytes(o)), raw@)
                is None && e == AppError::InvalidKeyText,
        },
{
    let ghost cands = candidates@.map_values(|o: Option<Vec<u8>>| opt_bytes(o));
    let n = candidates.len();
    let mut i: usize = 0;
    assert(cands.skip(0) =~= cands);
    while i < n
        invariant
            n == candidates@.len(),
            cands == candidates@.map_values(|o: Option<Vec<u8>>| opt_bytes(o)),
            i <= n,
            first_key(cands) == first_key(cands.skip(i as int)),
        decreases n - i,
    {
        assert(cands.skip(i as int).drop_first() =~= cands.skip(i + 1));
        match &candidates[i] {
            Some(k) => {
                if k.len() == 32 {
                    return Ok(k.clone());
                }
            },
            None => {},
        }
        i = i + 1;
    }
    assert(cands.skip(n as int) =~= Seq::<Option<Seq<u8>>>::empty());
    if raw.len() == 32 {
        Ok(vstd::slice::slice_to_vec(raw))
    } else {
        Err(AppError::InvalidKeyText)
    }
}

/// Parses the key text: trimmed and cleaned, it is tried as base64 with each
/// of the four engines and then as hex; the first decoding of exactly 32
/// bytes is the key. Failing that, the raw text is the key if it has exactly
/// 32 bytes.
pub fn parse_key(input: &str) -> (res: Result<Vec<u8>, AppError>)
    ensures
        match res {
            Ok(k) => key_outcome(input@) == Some(k@) && k@.len() == 32,
            Err(e) => key_outcome(input@) is None && e == AppError::InvalidKeyText,
        },
{
    let cleaned = clean_key_text(input);
    let bytes = cleaned.as_str().as_bytes();
    let mut cands: Vec<Option<Vec<u8>>> = Vec::new();
    cands.push(base64_decode(Base64Flavor::Standard, bytes));
    cands.push(base64_decode(Base64Flavor::StandardNoPad, bytes));
    cands.push(base64_decode(Base64Flavor::UrlSafe, bytes));
    cands.push(base64_decode(Base64Flavor::UrlSafeNoPad, bytes));
    cands.push(hex_decode(bytes));
    assert(cands@.map_values(|o: Option<Vec<u8>>| opt_bytes(o)) =~= key_candidates(input@));
    let res = select_key(&cands, input.as_bytes());
    proof {
        lemma_chosen_key_len(key_candidates(input@), vstd::utf8::encode_utf8(input@));
    }
    res
}

/// A chosen key always has 32 bytes.
pub proof fn lemma_chosen_key_len(cands: Seq<Option<Seq<u8>>>, raw: Seq<u8>)
    ensures
        chosen_key(cands, raw) matches Some(k) ==> k.len() == 32,
    decreases cands.len(),
{
    if cands.len() > 0 {
        lemma_chosen_key_len(cands.drop_first(), raw);
    }
}

/// Whether a decoding is a usable key: it succeeded with exactly 32 bytes.
pub open spec fn usable_key(o: Option<Seq<u8>>) -> bool {
    o matches Some(k) && k.len() == 32
}

/// The order in which the key text is tried: base64 with the standard
/// engine, then standard without padding, then URL-safe, then URL-safe
/// without padding, then hex (all on the UTF-8 bytes of the cleaned text),
/// and last the raw UTF-8 bytes of the text itself. The first decoding that
/// gives exactly 32 bytes is the key; if none does, there is no key.
pub proof fn lemma_key_decoding_order(input: Seq<char>)
    ensures
        ({
            let bytes = vstd::utf8::encode_utf8(cleaned_key_text(input));
            let standard = base64_decoding(Base64Flavor::Standard, bytes);
            let standard_no_pad = base64_decoding(Base64Flavor::StandardNoPad, bytes);
            let url_safe = base64_decoding(Base64Flavor::UrlSafe, bytes);
            let url_safe_no_pad = base64_decoding(Base64Flavor::UrlSafeNoPad, bytes);
            let hex = hex_decoding(bytes);
            let raw = vstd::utf8::encode_utf8(input);
            &&& usable_key(standard) ==> key_outcome(input) == standard
            &&& !usable_key(standard) && usable_key(standard_no_pad) ==> key_outcome(input)
                == standard_no_pad
            &&& !usable_key(standard) && !usable_key(standard_no_pad) && usable_key(url_safe)
                ==> key_outcome(input) == url_safe
            &&& !usable_key(standard) && !usable_key(standard_no_pad) && !usable_key(url_safe)
                && usable_key(url_safe_no_pad) ==> key_outcome(input) == url_safe_no_pad
            &&& !usable_key(standard) && !usable_key(standard_no_pad) && !usable_key(url_safe)
                && !usable_key(url_safe_no_pad) && usable_key(hex) ==> key_outcome(input) == hex
            &&& !usable_key(standard) && !usable_key(standard_no_pad) && !usable_key(url_safe)
                && !usable_key(url_safe_no_pad) && !usable_key(hex) ==> key_outcome(input) == (
            if raw.len() == 32 {
                Some(raw)
            } else {
                None
            })
        }),
{
    let c = key_candidates(input);
    reveal_with_fuel(first_key, 6);
    assert(c.drop_first()[0] == c[1]);
    assert(c.drop_first().drop_first()[0] == c[2]);
    assert(c.drop_first().drop_first().drop_first()[0] == c[3]);
    assert(c.drop_first().drop_first().drop_first().drop_first()[0] == c[4]);
    assert(c.drop_first().drop_first().drop_first().drop_first().drop_first().len() == 0);
}

/// Text with no white space and no blank characters, which does not start
/// with `base64:` or `hex:`, is decoded as it is; so is such text behind a
/// `base64:` or a `hex:` tag.
pub proof fn lemma_clean_key_text_plain(t: Seq<char>)
    requires
        forall|i: int|
            0 <= i < t.len() ==> !is_white_space(#[trigger] t[i]) && t[i] != '\n' && t[i] != '\r'
                && t[i] != ' ' && t[i] != '\t',
        !seq!['b', 'a', 's', 'e', '6', '4', ':'].is_prefix_of(t),
        !seq!['h', 'e', 'x', ':'].is_prefix_of(t),
    ensures
        cleaned_key_text(t) == t,
        cleaned_key_text(seq!['b', 'a', 's', 'e', '6', '4', ':'] + t) == t,
        cleaned_key_text(seq!['h', 'e', 'x', ':'] + t) == t,
{
    lemma_no_blanks_kept(t);
    let b = seq!['b', 'a', 's', 'e', '6', '4', ':'];
    let h = seq!['h', 'e', 'x', ':'];
    // no white space at either end
    assert(trim(t) == t) by {
        if t.len() > 0 {
            assert(!is_white_space(t[0]));
            assert(!is_white_space(t.last()));
        }
    }
    assert(strip_prefix(t, base64_tag()) == t);
    assert(strip_prefix(t, hex_tag()) == t);
    let bt = b + t;
    assert(trim(bt) == bt) by {
        assert(bt[0] == 'b');
        assert(!is_white_space(bt.last())) by {
            if t.len() > 0 {
                assert(bt.last() == t.last());
            } else {
                assert(bt.last() == ':');
            }
        }
    }
    assert(b.is_prefix_of(bt)) by {
        assert(bt.subrange(0, 7) =~= b);
    }
    assert(bt.skip(7) =~= t);
    let ht = h + t;
    assert(trim(ht) == ht) by {
        assert(ht[0] == 'h');
        assert(!is_white_space(ht.last())) by {
            if t.len() > 0 {
                assert(ht.last() == t.last());
            } else {
                assert(ht.last() == ':');
            }
        }
    }
    assert(!base64_tag().is_prefix_of(ht)) by {
        assert(ht[0] != base64_tag()[0]);
    }
    assert(h.is_prefix_of(ht)) by {
        assert(ht.subrange(0, 4) =~= h);
    }
    assert(ht.skip(4) =~= t);
}

/// Removing blanks from text without blanks changes nothing.
proof fn lemma_no_blanks_kept(t: Seq<char>)
    requires
        forall|i: int|
            0 <= i < t.len() ==> (#[trigger] t[i]) != '\n' && t[i] != '\r' && t[i] != ' ' && t[i]
                != '\t',
    ensures
        strip_blanks(t) == t,
    decreases t.len(),
{
    if t.len() > 0 {
        let u = t.drop_last();
        assert forall|i: int| 0 <= i < u.len() implies (#[trigger] u[i]) != '\n' && u[i] != '\r'
            && u[i] != ' ' && u[i] != '\t' by {
            assert(u[i] == t[i]);
        }
        lemma_no_blanks_kept(u);
        assert(u.push(t.last()) =~= t);
    }
}

} // verus!
