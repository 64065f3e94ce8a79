//! Decoding of one program token: a hexadecimal byte literal, optionally
//! preceded by `0x`.
use vstd::prelude::*;

verus! {

/// The value of an ASCII hexadecimal digit, either case.
pub open spec fn hex_digit(b: u8) -> Option<nat> {
    if 0x30 <= b <= 0x39 {
        Some((b - 0x30) as nat)
    } else if 0x61 <= b <= 0x66 {
        Some((b - 0x61 + 10) as nat)
    } else if 0x41 <= b <= 0x46 {
        Some((b - 0x41 + 10) as nat)
    } else {
        None
    }
}

/// Every byte of `s` is a hexadecimal digit.
pub open spec fn all_hex(s: Seq<u8>) -> bool {
    forall|i: int| 0 <= i < s.len() ==> (#[trigger] hex_digit(s[i])) is Some
}

/// The number that the hexadecimal digits `s` spell, most significant first.
pub open spec fn digits_value(s: Seq<u8>) -> nat
    decreases s.len(),
{
    if s.len() == 0 {
        0
    } else {
        digits_value(s.drop_last()) * 16 + hex_digit(s.last()).unwrap_or(0)
    }
}

/// `s` with every leading `0x` removed.
pub open spec fn strip_prefixes(s: Seq<u8>) -> Seq<u8>
    decreases s.len(),
{
    if s.len() >= 2 && s[0] == 0x30 && s[1] == 0x78 {
        strip_prefixes(s.subrange(2, s.len() as int))
    } else {
        s
    }
}

/// The digits of a token: what follows its `0x` prefixes and an optional `+`.
pub open spec fn token_digits(s: Seq<u8>) -> Seq<u8> {
    let t = strip_prefixes(s);
    if t.len() > 0 && t[0] == 0x2b {
        t.subrange(1, t.len() as int)
    } else {
        t
    }
}

/// The byte a token denotes: `None` unless its digits are non-empty, all
/// hexadecimal, and spell a value below 256.
pub open spec fn token_value(s: Seq<u8>) -> Option<u8> {
    let d = token_digits(s);
    if d.len() > 0 && all_hex(d) && digits_value(d) <= 255 {
        Some(digits_value(d) as u8)
    } else {
        None
    }
}

proof fn lemma_digits_prefix_grows(s: Seq<u8>, j: int)
    requires
        0 <= j <= s.len(),
        all_hex(s),
    ensures
        digits_value(s.subrange(0, j)) <= digits_value(s),
    decreases s.len() - j,
{
    if j < s.len() {
        let p = s.subrange(0, j + 1);
        assert(p.drop_last() =~= s.subrange(0, j));
        assert(hex_digit(s[j]) is Some);
        lemma_digits_prefix_grows(s, j + 1);
    } else {
        assert(s.subrange(0, j) =~= s);
    }
}

/// Decodes one token of a program listing into a byte.
pub fn parse_hex_byte(token: &[u8]) -> (r: Option<u8>)
    ensures
        r == token_value(token@),
{
    let len = token.len();
    let mut start: usize = 0;
    assert(token@.subrange(0, len as int) =~= token@);
    while len - start >= 2 && token[start] == 0x30 && token[start + 1] == 0x78
        invariant
            len == token@.len(),
            start <= len,
            strip_prefixes(token@) == strip_prefixes(token@.subrange(start as int, len as int)),
        decreases len - start,
    {
        let ghost rest = token@.subrange(start as int, len as int);
        assert(rest.subrange(2, rest.len() as int) =~= token@.subrange(start + 2, len as int));
        start = start + 2;
    }
    let ghost stripped = token@.subrange(start as int, len as int);
    assert(strip_prefixes(stripped) == stripped);
    if start < len && token[start] == 0x2b {
        start = start + 1;
    }
    let ghost digits = token@.subrange(start as int, len as int);
    assert(token_digits(token@) =~= digits);
    if start == len {
        return None;
    }
    let mut value: u32 = 0;
    let mut i: usize = start;
    while i < len
        invariant
            len == token@.len(),
            start <= i <= len,
            digits == token@.subrange(start as int, len as int),
            token_digits(token@) == digits,
            start < len,
            all_hex(token@.subrange(start as int, i as int)),
            value == digits_value(token@.subrange(start as int, i as int)),
            value <= 255,
        decreases len - i,
    {
        let b = token[i];
        let d: u32 = if 0x30 <= b && b <= 0x39 {
            (b - 0x30) as u32
        } else if 0x61 <= b && b <= 0x66 {
            (b - 0x61 + 10) as u32
        } else if 0x41 <= b && b <= 0x46 {
            (b - 0x41 + 10) as u32
        } else {
            assert(digits[i - start] == b);
            assert(hex_digit(digits[i - start]) is None);
            assert(!all_hex(digits));
            return None;
        };
        let ghost before = token@.subrange(start as int, i as int);
        let ghost after = token@.subrange(start as int, i + 1);
        assert(after.drop_last() =~= before);
        assert(after.last() == b);
        assert(hex_digit(b) == Some(d as nat));
        value = value * 16 + d;
        i = i + 1;
        assert(value == digits_value(after));
        assert(all_hex(after)) by {
            assert forall|k: int| 0 <= k < after.len() implies (#[trigger] hex_digit(after[k])) is Some by {
                if k < before.len() {
                    assert(after[k] == before[k]);
                }
            }
        }
        if value > 255 {
            proof {
                assert(after =~= digits.subrange(0, i - start));
                if all_hex(digits) {
                    lemma_digits_prefix_grows(digits, i - start);
                }
            }
            return None;
        }
    }
    assert(token@.subrange(start as int, i as int) =~= digits);
    Some(value as u8)
}

} // verus!
