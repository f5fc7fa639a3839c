use vstd::prelude::*;

use sha2::Digest;

verus! {

/// The SHA-256 digest of a byte sequence. The digest depends on the bytes
/// alone; its value is not stated here.
pub uninterp spec fn sha256_of(bytes: Seq<u8>) -> Seq<u8>;

/// Relies on sha2's `Sha256` through `Digest::digest`: the digest is a pure
/// function of the input bytes, and is always 32 bytes long.
#[verifier::external_body]
pub fn sha256(bytes: &[u8]) -> (r: Vec<u8>)
    ensures
        r@ == sha256_of(bytes@),
        r@.len() == 32,
{
    sha2::Sha256::digest(bytes).to_vec()
}

/// The character for one hexadecimal digit, lowercase.
pub open spec fn hex_digit(d: nat) -> char {
    if d == 0 {
        '0'
    } else if d == 1 {
        '1'
    } else if d == 2 {
        '2'
    } else if d == 3 {
        '3'
    } else if d == 4 {
        '4'
    } else if d == 5 {
        '5'
    } else if d == 6 {
        '6'
    } else if d == 7 {
        '7'
    } else if d == 8 {
        '8'
    } else if d == 9 {
        '9'
    } else if d == 10 {
        'a'
    } else if d == 11 {
        'b'
    } else if d == 12 {
        'c'
    } else if d == 13 {
        'd'
    } else if d == 14 {
        'e'
    } else {
        'f'
    }
}

/// The lowercase hexadecimal rendering of a byte sequence: two digits per
/// byte, high nibble first.
pub open spec fn hex_of(s: Seq<u8>) -> Seq<char>
    decreases s.len(),
{
    if s.len() == 0 {
        Seq::empty()
    } else {
        hex_of(s.drop_last()) + seq![
            hex_digit((s.last() / 16) as nat),
            hex_digit((s.last() % 16) as nat),
        ]
    }
}

/// Relies on hex::encode: lowercase hexadecimal, exactly two digits per
/// input byte, high nibble first.
#[verifier::external_body]
pub fn hex_lower(bytes: &[u8]) -> (r: String)
    ensures
        r@ == hex_of(bytes@),
{
    hex::encode(bytes)
}

/// The value of one hexadecimal digit character, either case, if it is
/// one.
pub open spec fn hex_char_val(c: char) -> Option<u8> {
    if c == '0' {
        Some(0u8)
    } else if c == '1' {
        Some(1u8)
    } else if c == '2' {
        Some(2u8)
    } else if c == '3' {
        Some(3u8)
    } else if c == '4' {
        Some(4u8)
    } else if c == '5' {
        Some(5u8)
    } else if c == '6' {
        Some(6u8)
    } else if c == '7' {
        Some(7u8)
    } else if c == '8' {
        Some(8u8)
    } else if c == '9' {
        Some(9u8)
    } else if c == 'a' || c == 'A' {
        Some(10u8)
    } else if c == 'b' || c == 'B' {
        Some(11u8)
    } else if c == 'c' || c == 'C' {
        Some(12u8)
    } else if c == 'd' || c == 'D' {
        Some(13u8)
    } else if c == 'e' || c == 'E' {
        Some(14u8)
    } else if c == 'f' || c == 'F' {
        Some(15u8)
    } else {
        None
    }
}

/// `s` with one leading `0x`, if any, removed.
pub open spec fn strip_hex_prefix(s: Seq<char>) -> Seq<char> {
    if s.len() >= 2 && s[0] == '0' && s[1] == 'x' {
        s.skip(2)
    } else {
        s
    }
}

/// Whether every character of `s` is a hexadecimal digit.
pub open spec fn all_hex_digits(s: Seq<char>) -> bool {
    forall|i: int| 0 <= i < s.len() ==> (#[trigger] hex_char_val(s[i])) is Some
}

/// The bytes a run of hexadecimal digit pairs denotes.
pub open spec fn hex_parsed(s: Seq<char>) -> Seq<u8> {
    Seq::new(
        s.len() / 2,
        |i: int| (hex_char_val(s[2 * i]).unwrap() * 16 + hex_char_val(s[2 * i + 1]).unwrap()) as u8,
    )
}

/// Parsing undoes rendering: the digits of a byte sequence parse back to
/// the same bytes.
pub proof fn lemma_hex_round_trip(b: Seq<u8>)
    ensures
        hex_of(b).len() == 2 * b.len(),
        all_hex_digits(hex_of(b)),
        hex_parsed(hex_of(b)) =~= b,
    decreases b.len(),
{
    if b.len() > 0 {
        lemma_hex_round_trip(b.drop_last());
        let h = hex_of(b);
        let ht = hex_of(b.drop_last());
        assert forall|i: int| 0 <= i < h.len() implies (#[trigger] hex_char_val(h[i])) is Some by {
            if i < ht.len() {
                assert(h[i] == ht[i]);
            }
        }
        assert forall|i: int| 0 <= i < b.len() implies hex_parsed(h)[i] == b[i] by {
            if i < b.len() - 1 {
                assert(h[2 * i] == ht[2 * i]);
                assert(h[2 * i + 1] == ht[2 * i + 1]);
                assert(hex_parsed(ht)[i] == b.drop_last()[i]);
            } else {
                assert(h[2 * i] == hex_digit((b.last() / 16) as nat));
                assert(h[2 * i + 1] == hex_digit((b.last() % 16) as nat));
            }
        }
    }
}

impl crate::types::Address {
    /// The address as `0x` followed by forty lowercase hexadecimal
    /// digits.
    pub fn to_hex(&self) -> (r: String)
        ensures
            r@ == seq!['0', 'x'] + hex_of(self.0@),
    {
        proof {
            reveal_strlit("0x");
        }
        let mut s = String::from_str("0x");
        let digits = hex_lower(vstd::array::array_as_slice(&self.0));
        s.append(digits.as_str());
        proof {
            assert(s@ =~= seq!['0', 'x'] + hex_of(self.0@));
        }
        s
    }

    /// Parses an address from forty hexadecimal digits, with one optional
    /// `0x` prefix; either digit case is accepted. Anything else is
    /// refused.
    pub fn from_hex(s: &str) -> (r: Option<crate::types::Address>)
        ensures
            ({
                let t = strip_hex_prefix(s@);
                match r {
                    Some(a) => t.len() == 40 && all_hex_digits(t) && a.0@ =~= hex_parsed(t),
                    None => !(t.len() == 40 && all_hex_digits(t)),
                }
            }),
    {
        let n = s.unicode_len();
        let has_prefix = n >= 2 && s.get_char(0) == '0' && s.get_char(1) == 'x';
        let start: usize = if has_prefix {
            2
        } else {
            0
        };
        proof {
            if has_prefix {
                assert(strip_hex_prefix(s@) =~= s@.skip(2));
            } else {
                assert(strip_hex_prefix(s@) =~= s@);
            }
        }
        if n - start != 40 {
            return None;
        }
        let mut bytes = [0u8; 20];
        let mut i: usize = 0;
        while i < 20
            invariant
                0 <= i <= 20,
                n == s@.len(),
                start == 0 || start == 2,
                n - start == 40,
                start == 2 ==> strip_hex_prefix(s@) =~= s@.skip(2),
                start == 0 ==> strip_hex_prefix(s@) =~= s@,
                forall|j: int|
                    0 <= j < 2 * i ==> (#[trigger] hex_char_val(strip_hex_prefix(s@)[j])) is Some,
                forall|j: int|
                    0 <= j < i ==> bytes@[j] == (hex_char_val(strip_hex_prefix(s@)[2 * j]).unwrap()
                        * 16 + hex_char_val(strip_hex_prefix(s@)[2 * j + 1]).unwrap()) as u8,
            decreases 20 - i,
        {
            let hi = parse_hex_char(s.get_char(start + 2 * i));
            let lo = parse_hex_char(s.get_char(start + 2 * i + 1));
            match (hi, lo) {
                (Some(h), Some(l)) => {
                    bytes.set(i, h * 16 + l);
                },
                _ => {
                    proof {
                        let t = strip_hex_prefix(s@);
                        assert(t[2 * i as int] == s@[start + 2 * i]);
                        assert(t[2 * i as int + 1] == s@[start + 2 * i + 1]);
                        if all_hex_digits(t) {
                            assert(hex_char_val(t[2 * i as int]) is Some);
                            assert(hex_char_val(t[2 * i as int + 1]) is Some);
                        }
                    }
                    return None;
                },
            }
            i = i + 1;
        }
        let a = crate::types::Address(bytes);
        proof {
            assert(a.0@ =~= hex_parsed(strip_hex_prefix(s@)));
        }
        Some(a)
    }
}

/// Parses one hexadecimal digit character, either case.
pub fn parse_hex_char(c: char) -> (r: Option<u8>)
    ensures
        r == hex_char_val(c),
{
    match c {
        '0' => Some(0),
        '1' => Some(1),
        '2' => Some(2),
        '3' => Some(3),
        '4' => Some(4),
        '5' => Some(5),
        '6' => Some(6),
        '7' => Some(7),
        '8' => Some(8),
        '9' => Some(9),
        'a' | 'A' => Some(10),
        'b' | 'B' => Some(11),
        'c' | 'C' => Some(12),
        'd' | 'D' => Some(13),
        'e' | 'E' => Some(14),
        'f' | 'F' => Some(15),
        _ => None,
    }
}

} // verus!
