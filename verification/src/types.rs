use vstd::prelude::*;

verus! {

// ---------------------------------------------------------------------------
// Decimal rendering
// ---------------------------------------------------------------------------

/// The character for one decimal digit.
pub open spec fn dec_digit(d: nat) -> char {
    if d == 0 {
        '0'
    } else if d == 1 {
        '1'
    } else if d == 2 {
        '2'
    } else if d == 3 {
        '3'
    } else if d == 4 {
        '4'
    } else if d == 5 {
        '5'
    } else if d == 6 {
        '6'
    } else if d == 7 {
        '7'
    } else if d == 8 {
        '8'
    } else {
        '9'
    }
}

/// The decimal rendering of a natural number, most significant digit first.
pub open spec fn dec_str(n: nat) -> Seq<char>
    decreases n,
{
    if n < 10 {
        seq![dec_digit(n)]
    } else {
        dec_str(n / 10).push(dec_digit(n % 10))
    }
}

/// A single-digit string slice for `d`, used to build decimal strings.
fn digit_str(d: u64) -> (r: &'static str)
    requires
        d < 10,
    ensures
        r@ =~= seq![dec_digit(d as nat)],
{
    proof {
        reveal_strlit("0");
        reveal_strlit("1");
        reveal_strlit("2");
        reveal_strlit("3");
        reveal_strlit("4");
        reveal_strlit("5");
        reveal_strlit("6");
        reveal_strlit("7");
        reveal_strlit("8");
        reveal_strlit("9");
    }
    if d == 0 {
        "0"
    } else if d == 1 {
        "1"
    } else if d == 2 {
        "2"
    } else if d == 3 {
        "3"
    } else if d == 4 {
        "4"
    } else if d == 5 {
        "5"
    } else if d == 6 {
        "6"
    } else if d == 7 {
        "7"
    } else if d == 8 {
        "8"
    } else {
        "9"
    }
}

/// Renders `n` in decimal.
pub fn dec_u64(n: u64) -> (s: String)
    ensures
        s@ == dec_str(n as nat),
    decreases n,
{
    let d = n % 10;
    let ds = digit_str(d);
    if n < 10 {
        String::from_str(ds)
    } else {
        let mut s = dec_u64(n / 10);
        s.append(ds);
        assert(s@ =~= dec_str((n / 10) as nat).push(dec_digit((n % 10) as nat)));
        s
    }
}

// ---------------------------------------------------------------------------
// 256-bit amounts
// ---------------------------------------------------------------------------

/// The value of the low (least significant) eight bytes of a 32-byte
/// big-endian word.
pub open spec fn low64_of(s: Seq<u8>) -> nat
    recommends
        s.len() == 32,
{
    (s[24] as nat) * 0x100000000000000 + (s[25] as nat) * 0x1000000000000 + (s[26] as nat)
        * 0x10000000000 + (s[27] as nat) * 0x100000000 + (s[28] as nat) * 0x1000000 + (s[29] as nat)
        * 0x10000 + (s[30] as nat) * 0x100 + (s[31] as nat)
}

/// Byte `k` (big-endian position, 0 through 7) of a 64-bit value.
pub open spec fn u64_byte(v: u64, k: int) -> u8 {
    if k == 0 {
        (v >> 56) as u8
    } else if k == 1 {
        (v >> 48) as u8
    } else if k == 2 {
        (v >> 40) as u8
    } else if k == 3 {
        (v >> 32) as u8
    } else if k == 4 {
        (v >> 24) as u8
    } else if k == 5 {
        (v >> 16) as u8
    } else if k == 6 {
        (v >> 8) as u8
    } else {
        v as u8
    }
}

/// The eight big-endian bytes of a 64-bit value.
pub open spec fn u64_be8(v: u64) -> Seq<u8> {
    Seq::new(8, |i: int| u64_byte(v, i))
}

/// A 64-bit value widened to 32 big-endian bytes.
pub open spec fn u64_be_bytes(v: u64) -> Seq<u8> {
    Seq::new(
        32,
        |i: int|
            if i < 24 {
                0u8
            } else {
                u64_byte(v, i - 24)
            },
    )
}

/// The low limb of a widened 64-bit value is the value itself.
pub proof fn lemma_low64_be_bytes(v: u64)
    ensures
        low64_of(u64_be_bytes(v)) == v,
{
    assert(((v >> 56) as u8) as nat * 0x100000000000000 + ((v >> 48) as u8) as nat
        * 0x1000000000000 + ((v >> 40) as u8) as nat * 0x10000000000 + ((v >> 32) as u8) as nat
        * 0x100000000 + ((v >> 24) as u8) as nat * 0x1000000 + ((v >> 16) as u8) as nat * 0x10000
        + ((v >> 8) as u8) as nat * 0x100 + (v as u8) as nat == v) by (bit_vector);
}

/// The upper 24 bytes of a 32-byte big-endian word are all zero.
pub open spec fn high_zero(s: Seq<u8>) -> bool
    recommends
        s.len() == 32,
{
    forall|i: int| 0 <= i < 24 ==> s[i] == 0
}

/// A 256-bit unsigned amount, stored as 32 big-endian bytes.
///
/// The settlement engine's value-transfer model performs its arithmetic on
/// the low 64-bit limb; the contracts below state that limb semantics
/// exactly over `low64_of`.
#[derive(Debug, Clone, Copy, Hash)]
pub struct U256(pub [u8; 32]);

impl PartialEq for U256 {
    fn eq(&self, other: &U256) -> (r: bool) {
        let mut i: usize = 0;
        while i < 32
            invariant
                0 <= i <= 32,
                forall|j: int| 0 <= j < i ==> self.0@[j] == other.0@[j],
            decreases 32 - i,
        {
            if self.0[i] != other.0[i] {
                assert(!(self.0@ =~= other.0@));
                return false;
            }
            i = i + 1;
        }
        assert(self.0@ =~= other.0@);
        true
    }
}

impl Eq for U256 {

}

impl vstd::std_specs::cmp::PartialEqSpecImpl for U256 {
    open spec fn obeys_eq_spec() -> bool {
        true
    }

    open spec fn eq_spec(&self, other: &U256) -> bool {
        self.0@ =~= other.0@
    }
}

impl U256 {
    /// The zero amount.
    pub fn zero() -> (r: U256)
        ensures
            r.0@.len() == 32,
            low64_of(r.0@) == 0,
            high_zero(r.0@),
            forall|i: int| 0 <= i < 32 ==> r.0@[i] == 0,
    {
        U256([0u8; 32])
    }

    /// The amount one.
    pub fn one() -> (r: U256)
        ensures
            r.0@.len() == 32,
            low64_of(r.0@) == 1,
            high_zero(r.0@),
    {
        U256::from(1)
    }

    /// Builds an amount from a 64-bit value, placed in the low limb.
    pub fn from(value: u64) -> (r: U256)
        ensures
            r.0@.len() == 32,
            r.0@ == u64_be_bytes(value),
            low64_of(r.0@) == value,
            high_zero(r.0@),
    {
        let b24: u8 = (value >> 56) as u8;
        let b25: u8 = (value >> 48) as u8;
        let b26: u8 = (value >> 40) as u8;
        let b27: u8 = (value >> 32) as u8;
        let b28: u8 = (value >> 24) as u8;
        let b29: u8 = (value >> 16) as u8;
        let b30: u8 = (value >> 8) as u8;
        let b31: u8 = value as u8;
        let r = U256(
            [
                0u8, 0u8, 0u8, 0u8, 0u8, 0u8, 0u8, 0u8, 0u8, 0u8, 0u8, 0u8, 0u8, 0u8, 0u8, 0u8,
                0u8, 0u8, 0u8, 0u8, 0u8, 0u8, 0u8, 0u8, b24, b25, b26, b27, b28, b29, b30, b31,
            ],
        );
        proof {
            assert(((value >> 56) as u8) as nat * 0x100000000000000 + ((value >> 48) as u8) as nat
                * 0x1000000000000 + ((value >> 40) as u8) as nat * 0x10000000000 + ((value
                >> 32) as u8) as nat * 0x100000000 + ((value >> 24) as u8) as nat * 0x1000000 + ((
            value >> 16) as u8) as nat * 0x10000 + ((value >> 8) as u8) as nat * 0x100 + (
            value as u8) as nat == value) by (bit_vector);
            assert(r.0@ =~= u64_be_bytes(value));
        }
        r
    }

    /// The low limb of the amount, truncating any higher bytes.
    pub fn to_u64(&self) -> (r: u64)
        requires
            self.0@.len() == 32,
        ensures
            r as nat == low64_of(self.0@),
    {
        let b24: u8 = self.0[24];
        let b25: u8 = self.0[25];
        let b26: u8 = self.0[26];
        let b27: u8 = self.0[27];
        let b28: u8 = self.0[28];
        let b29: u8 = self.0[29];
        let b30: u8 = self.0[30];
        let b31: u8 = self.0[31];
        let r: u64 = ((b24 as u64) << 56) | ((b25 as u64) << 48) | ((b26 as u64) << 40) | ((
        b27 as u64) << 32) | ((b28 as u64) << 24) | ((b29 as u64) << 16) | ((b30 as u64) << 8) | (
        b31 as u64);
        proof {
            assert((((b24 as u64) << 56) | ((b25 as u64) << 48) | ((b26 as u64) << 40) | ((
            b27 as u64) << 32) | ((b28 as u64) << 24) | ((b29 as u64) << 16) | ((b30 as u64) << 8)
                | (b31 as u64)) as nat == (b24 as nat) * 0x100000000000000 + (b25 as nat)
                * 0x1000000000000 + (b26 as nat) * 0x10000000000 + (b27 as nat) * 0x100000000 + (
            b28 as nat) * 0x1000000 + (b29 as nat) * 0x10000 + (b30 as nat) * 0x100 + (
            b31 as nat)) by (bit_vector);
        }
        r
    }

    /// Whether the amount is zero in all 32 bytes.
    pub fn is_zero(&self) -> (r: bool)
        ensures
            r == (forall|i: int| 0 <= i < 32 ==> self.0@[i] == 0),
    {
        let mut i: usize = 0;
        while i < 32
            invariant
                0 <= i <= 32,
                forall|j: int| 0 <= j < i ==> self.0@[j] == 0,
            decreases 32 - i,
        {
            if self.0[i] != 0 {
                return false;
            }
            i = i + 1;
        }
        true
    }
}

/// Saturating addition of two low limbs.
pub open spec fn sat_add_nat(a: nat, b: nat) -> nat {
    if a + b <= u64::MAX {
        a + b
    } else {
        u64::MAX as nat
    }
}

/// Saturating subtraction of two low limbs.
pub open spec fn sat_sub_nat(a: nat, b: nat) -> nat {
    if a >= b {
        (a - b) as nat
    } else {
        0
    }
}

/// Saturating multiplication of two low limbs.
pub open spec fn sat_mul_nat(a: nat, b: nat) -> nat {
    if a * b <= u64::MAX {
        a * b
    } else {
        u64::MAX as nat
    }
}

impl U256 {
    /// Saturating addition on the low limb.
    pub fn saturating_add(&self, other: &U256) -> (r: U256)
        ensures
            r.0@.len() == 32,
            high_zero(r.0@),
            low64_of(r.0@) == sat_add_nat(low64_of(self.0@), low64_of(other.0@)),
    {
        let a = self.to_u64();
        let b = other.to_u64();
        if a <= u64::MAX - b {
            U256::from(a + b)
        } else {
            U256::from(u64::MAX)
        }
    }

    /// Saturating subtraction on the low limb.
    pub fn saturating_sub(&self, other: &U256) -> (r: U256)
        ensures
            r.0@.len() == 32,
            high_zero(r.0@),
            low64_of(r.0@) == sat_sub_nat(low64_of(self.0@), low64_of(other.0@)),
    {
        let a = self.to_u64();
        let b = other.to_u64();
        if a >= b {
            U256::from(a - b)
        } else {
            U256::from(0)
        }
    }

    /// Saturating multiplication on the low limb.
    pub fn saturating_mul(&self, other: &U256) -> (r: U256)
        ensures
            r.0@.len() == 32,
            high_zero(r.0@),
            low64_of(r.0@) == sat_mul_nat(low64_of(self.0@), low64_of(other.0@)),
    {
        let a = self.to_u64();
        let b = other.to_u64();
        if b == 0 {
            U256::from(0)
        } else if a <= u64::MAX / b {
            proof {
                assert(a * b <= (u64::MAX as nat / b as nat) * b <= u64::MAX) by (nonlinear_arith)
                    requires
                        b > 0,
                        a <= u64::MAX / b,
                ;
            }
            U256::from(a * b)
        } else {
            proof {
                assert(a * b > u64::MAX) by (nonlinear_arith)
                    requires
                        b > 0,
                        a > u64::MAX / b,
                ;
            }
            U256::from(u64::MAX)
        }
    }

    /// Division on the low limb; a zero divisor yields zero.
    pub fn div_or_zero(&self, other: &U256) -> (r: U256)
        ensures
            r.0@.len() == 32,
            high_zero(r.0@),
            low64_of(r.0@) == if low64_of(other.0@) == 0 {
                0
            } else {
                low64_of(self.0@) / low64_of(other.0@)
            },
    {
        let a = self.to_u64();
        let b = other.to_u64();
        if b == 0 {
            U256::from(0)
        } else {
            U256::from(a / b)
        }
    }

    /// Remainder on the low limb; a zero divisor yields zero.
    pub fn rem_or_zero(&self, other: &U256) -> (r: U256)
        ensures
            r.0@.len() == 32,
            high_zero(r.0@),
            low64_of(r.0@) == if low64_of(other.0@) == 0 {
                0
            } else {
                low64_of(self.0@) % low64_of(other.0@)
            },
    {
        let a = self.to_u64();
        let b = other.to_u64();
        if b == 0 {
            U256::from(0)
        } else {
            U256::from(a % b)
        }
    }

    /// Strict order on the low limb.
    pub fn lt(&self, other: &U256) -> (r: bool)
        ensures
            r == (low64_of(self.0@) < low64_of(other.0@)),
    {
        self.to_u64() < other.to_u64()
    }

    /// Non-strict order on the low limb.
    pub fn le(&self, other: &U256) -> (r: bool)
        ensures
            r == (low64_of(self.0@) <= low64_of(other.0@)),
    {
        self.to_u64() <= other.to_u64()
    }

    /// Exponentiation for small operands: when the exponent is non-zero, the
    /// low limbs satisfy `base <= 1000` and `exponent <= 20`, the result is
    /// `base` to that power; otherwise the amount is returned unchanged. A
    /// zero exponent yields one.
    pub fn pow(&self, exp: U256) -> (r: U256)
        requires
            !(forall|i: int| 0 <= i < 32 ==> exp.0@[i] == 0) && low64_of(exp.0@) <= 20 && low64_of(
                self.0@,
            ) <= 1000 ==> vstd::arithmetic::power::pow(
                low64_of(self.0@) as int,
                low64_of(exp.0@),
            ) <= u64::MAX,
        ensures
            r.0@.len() == 32,
            (forall|i: int| 0 <= i < 32 ==> exp.0@[i] == 0) ==> low64_of(r.0@) == 1 && high_zero(
                r.0@,
            ),
            !(forall|i: int| 0 <= i < 32 ==> exp.0@[i] == 0) && low64_of(exp.0@) <= 20 && low64_of(
                self.0@,
            ) <= 1000 ==> low64_of(r.0@) == vstd::arithmetic::power::pow(
                low64_of(self.0@) as int,
                low64_of(exp.0@),
            ) && high_zero(r.0@),
            !(forall|i: int| 0 <= i < 32 ==> exp.0@[i] == 0) && !(low64_of(exp.0@) <= 20
                && low64_of(self.0@) <= 1000) ==> r.0@ =~= self.0@,
    {
        if exp.is_zero() {
            proof {
                vstd::arithmetic::power::lemma_pow0(low64_of(self.0@) as int);
            }
            return U256::one();
        }
        let e = exp.to_u64();
        let b = self.to_u64();
        if e <= 20 && b <= 1000 {
            if b == 0 {
                if e == 0 {
                    proof {
                        vstd::arithmetic::power::lemma_pow0(b as int);
                    }
                    return U256::from(1);
                }
                proof {
                    vstd::arithmetic::power::lemma0_pow(e as nat);
                }
                return U256::from(0);
            }
            let mut acc: u64 = 1;
            let mut i: u64 = 0;
            proof {
                vstd::arithmetic::power::lemma_pow0(b as int);
            }
            while i < e
                invariant
                    0 <= i <= e,
                    e <= 20,
                    0 < b <= 1000,
                    vstd::arithmetic::power::pow(b as int, e as nat) <= u64::MAX,
                    acc as int == vstd::arithmetic::power::pow(b as int, i as nat),
                decreases e - i,
            {
                proof {
                    vstd::arithmetic::power::lemma_pow_adds(b as int, i as nat, 1);
                    vstd::arithmetic::power::lemma_pow1(b as int);
                    vstd::arithmetic::power::lemma_pow_increases(
                        b as nat,
                        (i + 1) as nat,
                        e as nat,
                    );
                    assert(acc as int * b as int == vstd::arithmetic::power::pow(
                        b as int,
                        (i + 1) as nat,
                    ));
                }
                acc = acc * b;
                i = i + 1;
            }
            U256::from(acc)
        } else {
            *self
        }
    }
}

// ---------------------------------------------------------------------------
// Tokens and amounts
// ---------------------------------------------------------------------------

/// The four token kinds of the token economy.
#[derive(Debug, Clone, Copy, PartialEq, Eq, Hash, Structural)]
pub enum TokenType {
    /// Gas and transaction fees.
    Gcc,
    /// Governance and voting.
    Spirit,
    /// Utility and rewards.
    Mana,
    /// Brand and collectibles.
    GhostToken,
}

/// The number of decimal places a token kind carries.
pub open spec fn token_decimals(t: TokenType) -> nat {
    match t {
        TokenType::Gcc => 18,
        TokenType::Spirit => 18,
        TokenType::Mana => 18,
        TokenType::GhostToken => 0,
    }
}

/// Ten to the power `e`.
pub open spec fn pow10(e: nat) -> int {
    vstd::arithmetic::power::pow(10, e)
}

/// `s` left-padded with zeros up to `width` characters.
pub open spec fn zero_pad(width: nat, s: Seq<char>) -> Seq<char> {
    if s.len() >= width {
        s
    } else {
        Seq::new((width - s.len()) as nat, |i: int| '0') + s
    }
}

/// The human-readable decimal rendering of `amount` smallest units with
/// `decimals` fractional places: the whole part, and, when the fractional
/// part is non-zero, a dot and the zero-padded fraction.
pub open spec fn human_amount(amount: nat, decimals: nat) -> Seq<char> {
    if decimals == 0 {
        dec_str(amount)
    } else {
        let div = pow10(decimals);
        let whole = (amount as int / div) as nat;
        let rem = (amount as int % div) as nat;
        if rem == 0 {
            dec_str(whole)
        } else {
            dec_str(whole) + seq!['.'] + zero_pad(decimals, dec_str(rem))
        }
    }
}

/// Ten to the power `e` as a machine word.
pub fn pow10_u64(e: u64) -> (r: u64)
    requires
        e <= 19,
    ensures
        r as int == pow10(e as nat),
        r >= 1,
{
    proof {
        assert(vstd::arithmetic::power::pow(10, 19) == 10000000000000000000) by {
            reveal_with_fuel(vstd::arithmetic::power::pow, 20);
        };
        vstd::arithmetic::power::lemma_pow0(10);
    }
    let mut acc: u64 = 1;
    let mut i: u64 = 0;
    while i < e
        invariant
            0 <= i <= e,
            e <= 19,
            vstd::arithmetic::power::pow(10, 19) == 10000000000000000000,
            acc as int == vstd::arithmetic::power::pow(10, i as nat),
        decreases e - i,
    {
        proof {
            vstd::arithmetic::power::lemma_pow_adds(10, i as nat, 1);
            vstd::arithmetic::power::lemma_pow1(10);
            vstd::arithmetic::power::lemma_pow_increases(10, (i + 1) as nat, 19);
            assert(acc as int * 10 == vstd::arithmetic::power::pow(10, (i + 1) as nat));
        }
        acc = acc * 10;
        i = i + 1;
    }
    proof {
        vstd::arithmetic::power::lemma_pow_positive(10, e as nat);
    }
    acc
}

/// An amount of one token kind, in the token's smallest unit.
#[derive(Debug, Clone, PartialEq, Eq)]
pub struct TokenAmount {
    /// Which token the amount is denominated in.
    pub token_type: TokenType,
    /// The amount in smallest units.
    pub amount: U256,
    /// Decimal places between the smallest unit and the whole token.
    pub decimals: u8,
}

impl TokenAmount {
    /// Builds an amount, filling in the token's decimal places.
    pub fn new(token_type: TokenType, amount: U256) -> (r: TokenAmount)
        ensures
            r.token_type == token_type,
            r.amount == amount,
            r.decimals as nat == token_decimals(token_type),
    {
        let decimals: u8 = match token_type {
            TokenType::Gcc => 18,
            TokenType::Spirit => 18,
            TokenType::Mana => 18,
            TokenType::GhostToken => 0,
        };
        TokenAmount { token_type, amount, decimals }
    }

    /// Renders the low limb of the amount with the token's decimal point.
    pub fn to_human_readable(&self) -> (s: String)
        requires
            self.decimals <= 19,
        ensures
            s@ == human_amount(low64_of(self.amount.0@), self.decimals as nat),
    {
        let a = self.amount.to_u64();
        if self.decimals == 0 {
            dec_u64(a)
        } else {
            let div = pow10_u64(self.decimals as u64);
            let whole = a / div;
            let rem = a % div;
            if rem == 0 {
                dec_u64(whole)
            } else {
                proof {
                    reveal_strlit(".");
                }
                let mut s = dec_u64(whole);
                s.append(".");
                assert(s@ =~= dec_str(whole as nat) + seq!['.']);
                let rems = dec_u64(rem);
                let rlen = rems.as_str().unicode_len();
                let width = self.decimals as usize;
                if rlen < width {
                    let pad = width - rlen;
                    let mut k: usize = 0;
                    assert(s@ =~= dec_str(whole as nat) + seq!['.'] + Seq::new(0nat, |i: int| '0'));
                    while k < pad
                        invariant
                            0 <= k <= pad,
                            s@ == dec_str(whole as nat) + seq!['.'] + Seq::new(
                                k as nat,
                                |i: int| '0',
                            ),
                        decreases pad - k,
                    {
                        proof {
                            reveal_strlit("0");
                        }
                        s.append("0");
                        assert(s@ =~= dec_str(whole as nat) + seq!['.'] + Seq::new(
                            (k + 1) as nat,
                            |i: int| '0',
                        ));
                        k = k + 1;
                    }
                }
                s.append(rems.as_str());
                assert(s@ =~= human_amount(low64_of(self.amount.0@), self.decimals as nat));
                s
            }
        }
    }
}

/// A fee split across the four token kinds.
#[derive(Debug, Clone, PartialEq, Eq)]
pub struct MultiTokenFee {
    /// Base transaction fee.
    pub gcc_fee: TokenAmount,
    /// Governance participation fee.
    pub spirit_fee: TokenAmount,
    /// Smart-contract execution fee.
    pub mana_fee: TokenAmount,
    /// Identity operation fee.
    pub ghost_fee: TokenAmount,
}

impl MultiTokenFee {
    /// The sum of the four fee amounts, saturating on the low limb.
    pub fn total_value(&self) -> (r: U256)
        ensures
            r.0@.len() == 32,
            high_zero(r.0@),
            low64_of(r.0@) == sat_add_nat(
                sat_add_nat(
                    sat_add_nat(low64_of(self.gcc_fee.amount.0@), low64_of(self.spirit_fee.amount.0@)),
                    low64_of(self.mana_fee.amount.0@),
                ),
                low64_of(self.ghost_fee.amount.0@),
            ),
    {
        self.gcc_fee.amount.saturating_add(&self.spirit_fee.amount).saturating_add(
            &self.mana_fee.amount,
        ).saturating_add(&self.ghost_fee.amount)
    }
}

// ---------------------------------------------------------------------------
// Chains, addresses, transactions
// ---------------------------------------------------------------------------

/// A numeric chain identifier.
#[derive(Debug, Clone, Copy, PartialEq, Eq, Hash, Structural)]
pub struct ChainId(pub u64);

impl ChainId {
    /// The Ethereum mainnet identifier.
    pub fn ethereum() -> (r: ChainId)
        ensures
            r.0 == 1,
    {
        ChainId(1)
    }

    /// The GhostChain mainnet identifier.
    pub fn ghostchain() -> (r: ChainId)
        ensures
            r.0 == 9999,
    {
        ChainId(9999)
    }

    /// The GhostPlane rollup identifier.
    pub fn ghostplane() -> (r: ChainId)
        ensures
            r.0 == 10000,
    {
        ChainId(10000)
    }

    /// The identifier rendered in decimal.
    pub fn display_string(&self) -> (s: String)
        ensures
            s@ == dec_str(self.0 as nat),
    {
        dec_u64(self.0)
    }
}

/// Bitcoin network flavours.
#[derive(Debug, Clone, Copy, PartialEq, Eq, Hash, Structural)]
pub enum BitcoinNetwork {
    /// The main network.
    Mainnet,
    /// The public test network.
    Testnet,
    /// The signet test network.
    Signet,
    /// A local regression-test network.
    Regtest,
}

/// A blockchain network a transaction can originate from or settle to.
#[derive(Debug, Clone, PartialEq, Eq, Hash)]
pub enum Network {
    /// Ethereum mainnet or a testnet.
    Ethereum { chain_id: ChainId },
    /// Bitcoin, in one of its flavours.
    Bitcoin { network: BitcoinNetwork },
    /// The GhostChain base chain.
    GhostChain { chain_id: ChainId },
    /// The GhostPlane rollup.
    GhostPlane { chain_id: ChainId },
    /// A Polygon network.
    Polygon { chain_id: ChainId },
    /// An Arbitrum network.
    Arbitrum { chain_id: ChainId },
    /// A custom EVM-compatible network.
    Custom { chain_id: ChainId, name: String, rpc_url: String },
}

/// A 20-byte account address.
#[derive(Debug, Clone, Copy, Hash)]
pub struct Address(pub [u8; 20]);

impl PartialEq for Address {
    fn eq(&self, other: &Address) -> (r: bool) {
        let mut i: usize = 0;
        while i < 20
            invariant
                0 <= i <= 20,
                forall|j: int| 0 <= j < i ==> self.0@[j] == other.0@[j],
            decreases 20 - i,
        {
            if self.0[i] != other.0[i] {
                assert(!(self.0@ =~= other.0@));
                return false;
            }
            i = i + 1;
        }
        assert(self.0@ =~= other.0@);
        true
    }
}

impl Eq for Address {

}

impl vstd::std_specs::cmp::PartialEqSpecImpl for Address {
    open spec fn obeys_eq_spec() -> bool {
        true
    }

    open spec fn eq_spec(&self, other: &Address) -> bool {
        self.0@ =~= other.0@
    }
}

/// A 32-byte transaction digest.
#[derive(Debug, Clone, Copy, Hash)]
pub struct TransactionHash(pub [u8; 32]);

impl PartialEq for TransactionHash {
    fn eq(&self, other: &TransactionHash) -> (r: bool) {
        let mut i: usize = 0;
        while i < 32
            invariant
                0 <= i <= 32,
                forall|j: int| 0 <= j < i ==> self.0@[j] == other.0@[j],
            decreases 32 - i,
        {
            if self.0[i] != other.0[i] {
                assert(!(self.0@ =~= other.0@));
                return false;
            }
            i = i + 1;
        }
        assert(self.0@ =~= other.0@);
        true
    }
}

impl Eq for TransactionHash {

}

impl vstd::std_specs::cmp::PartialEqSpecImpl for TransactionHash {
    open spec fn obeys_eq_spec() -> bool {
        true
    }

    open spec fn eq_spec(&self, other: &TransactionHash) -> bool {
        self.0@ =~= other.0@
    }
}

/// A secp256k1-style signature.
#[derive(Debug, Clone, PartialEq, Eq)]
pub struct Signature {
    /// The r component.
    pub r: U256,
    /// The s component.
    pub s: U256,
    /// The recovery id.
    pub v: u8,
}

/// One transfer admitted into the settlement pipeline. Immutable once
/// admitted.
#[derive(Debug, Clone)]
pub struct Transaction {
    /// Opaque identifier assigned at admission.
    pub id: u64,
    /// The sending account.
    pub from_address: Address,
    /// The receiving account.
    pub to_address: Address,
    /// The transferred amount and its token kind.
    pub amount: TokenAmount,
    /// The chain the transfer settles on.
    pub chain_id: u64,
    /// The sender's transaction ordinal; must be the tracked nonce plus one.
    pub nonce: u64,
    /// The gas the sender allows the transfer to consume.
    pub gas_limit: u64,
    /// The price offered per unit of gas.
    pub gas_price: U256,
    /// Opaque payload bytes.
    pub data: Vec<u8>,
    /// The sender's signature, if present.
    pub signature: Option<Signature>,
}

/// The status of a bridge operation.
#[derive(Debug, Clone, PartialEq, Eq)]
pub enum BridgeStatus {
    /// Accepted, nothing confirmed yet.
    Pending,
    /// Confirmed on the base chain.
    L1Confirmed,
    /// Submitted to the rollup.
    L2Submitted,
    /// Confirmed on the rollup.
    L2Confirmed,
    /// Fully settled.
    Settled,
    /// Failed, with the reason.
    Failed { reason: String },
}

/// An event log entry attached to a receipt.
#[derive(Debug, Clone)]
pub struct LogEntry {
    /// The emitting address.
    pub address: Address,
    /// Indexed topics.
    pub topics: Vec<[u8; 32]>,
    /// Unindexed payload.
    pub data: Vec<u8>,
}

/// The receipt of an executed transaction.
#[derive(Debug, Clone)]
pub struct TransactionReceipt {
    /// The transaction's digest.
    pub transaction_hash: TransactionHash,
    /// The block it was included in.
    pub block_number: u64,
    /// That block's hash.
    pub block_hash: [u8; 32],
    /// Position within the block.
    pub transaction_index: u32,
    /// Gas consumed.
    pub gas_used: u64,
    /// Whether execution succeeded.
    pub success: bool,
    /// Emitted event logs.
    pub logs: Vec<LogEntry>,
}

/// A zero-knowledge proof blob with its verification key.
#[derive(Debug, Clone)]
pub struct ZkProof {
    /// The serialized proof.
    pub proof_data: Vec<u8>,
    /// The serialized verification key.
    pub verification_key: Vec<u8>,
    /// Digest of the public inputs.
    pub public_inputs_hash: [u8; 32],
}

/// Static information about a supported network.
#[derive(Debug, Clone)]
pub struct NetworkInfo {
    /// The network described.
    pub network: Network,
    /// Its display name.
    pub name: String,
    /// Its RPC endpoint.
    pub rpc_url: String,
    /// Expected block interval in milliseconds.
    pub block_time_ms: u64,
    /// Blocks to wait before treating a transaction as confirmed.
    pub confirmation_blocks: u32,
    /// Whether the network supports priority-fee transactions.
    pub supports_eip1559: bool,
}

/// Static information about a bridgeable asset.
#[derive(Debug, Clone)]
pub struct AssetInfo {
    /// Ticker symbol.
    pub symbol: String,
    /// Display name.
    pub name: String,
    /// Decimal places.
    pub decimals: u8,
    /// Contract address, where the asset is a contract token.
    pub contract_address: Option<Address>,
    /// Networks the asset can move across.
    pub supported_networks: Vec<Network>,
}

} // verus!
