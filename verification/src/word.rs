use vstd::prelude::*;
use vstd::arithmetic::div_mod::{lemma_fundamental_div_mod, lemma_mod_multiples_vanish, lemma_small_mod, lemma_div_multiples_vanish_fancy, lemma_div_denominator, lemma_multiply_divide_lt, lemma_div_pos_is_pos};

verus! {

/// A 256-bit EVM word, held as four 64-bit limbs, least significant first.
/// The canonical on-wire form is 32 bytes big-endian; `word_be_bytes` gives it.
#[derive(Clone, Copy, PartialEq, Eq, Structural, Debug)]
pub struct Word {
    pub l0: u64,
    pub l1: u64,
    pub l2: u64,
    pub l3: u64,
}

pub open spec fn pow64() -> nat {
    0x1_0000_0000_0000_0000nat
}

pub open spec fn pow128() -> nat {
    0x1_0000_0000_0000_0000_0000_0000_0000_0000nat
}

pub open spec fn pow192() -> nat {
    0x1_0000_0000_0000_0000_0000_0000_0000_0000_0000_0000_0000_0000nat
}

pub open spec fn pow255() -> nat {
    0x8000_0000_0000_0000_0000_0000_0000_0000_0000_0000_0000_0000_0000_0000_0000_0000nat
}

pub open spec fn pow256() -> nat {
    0x1_0000_0000_0000_0000_0000_0000_0000_0000_0000_0000_0000_0000_0000_0000_0000_0000nat
}

/// The unsigned value of a word.
pub open spec fn word_val(w: Word) -> nat {
    (w.l0 + w.l1 * pow64() + w.l2 * pow128() + w.l3 * pow192()) as nat
}

pub proof fn lemma_word_val_bound(w: Word)
    ensures
        word_val(w) < pow256(),
{
}

pub open spec fn word_zero() -> Word {
    Word { l0: 0, l1: 0, l2: 0, l3: 0 }
}

pub fn zero() -> (r: Word)
    ensures
        r == word_zero(),
        word_val(r) == 0,
{
    Word { l0: 0, l1: 0, l2: 0, l3: 0 }
}

pub fn one() -> (r: Word)
    ensures
        word_val(r) == 1,
{
    Word { l0: 1, l1: 0, l2: 0, l3: 0 }
}

pub fn from_u64(x: u64) -> (r: Word)
    ensures
        word_val(r) == x,
{
    Word { l0: x, l1: 0, l2: 0, l3: 0 }
}

/// All 256 bits set: the largest word, and the two's-complement -1.
pub fn max_word() -> (r: Word)
    ensures
        word_val(r) == pow256() - 1,
{
    Word { l0: u64::MAX, l1: u64::MAX, l2: u64::MAX, l3: u64::MAX }
}

/// Addition with a carry-out flag: the exact sum is `word_val(r) + carry * 2^256`.
pub fn word_add_carry(a: Word, b: Word) -> (res: (Word, bool))
    ensures
        word_val(res.0) + (if res.1 { pow256() } else { 0 }) == word_val(a) + word_val(b),
{
    let s0: u128 = a.l0 as u128 + b.l0 as u128;
    let r0: u64 = (s0 % 0x1_0000_0000_0000_0000u128) as u64;
    let c0: u128 = s0 / 0x1_0000_0000_0000_0000u128;
    let s1: u128 = a.l1 as u128 + b.l1 as u128 + c0;
    let r1: u64 = (s1 % 0x1_0000_0000_0000_0000u128) as u64;
    let c1: u128 = s1 / 0x1_0000_0000_0000_0000u128;
    let s2: u128 = a.l2 as u128 + b.l2 as u128 + c1;
    let r2: u64 = (s2 % 0x1_0000_0000_0000_0000u128) as u64;
    let c2: u128 = s2 / 0x1_0000_0000_0000_0000u128;
    let s3: u128 = a.l3 as u128 + b.l3 as u128 + c2;
    let r3: u64 = (s3 % 0x1_0000_0000_0000_0000u128) as u64;
    let c3: u128 = s3 / 0x1_0000_0000_0000_0000u128;
    proof {
        lemma_fundamental_div_mod(s0 as int, pow64() as int);
        lemma_fundamental_div_mod(s1 as int, pow64() as int);
        lemma_fundamental_div_mod(s2 as int, pow64() as int);
        lemma_fundamental_div_mod(s3 as int, pow64() as int);
    }
    (Word { l0: r0, l1: r1, l2: r2, l3: r3 }, c3 == 1)
}

/// Wrapping addition modulo 2^256.
pub fn word_add(a: Word, b: Word) -> (r: Word)
    ensures
        word_val(r) == (word_val(a) + word_val(b)) % pow256(),
{
    let (r, carry) = word_add_carry(a, b);
    proof {
        lemma_word_val_bound(r);
        if carry {
            lemma_mod_multiples_vanish(1, word_val(r) as int, pow256() as int);
        }
        lemma_small_mod(word_val(r), pow256());
    }
    r
}

/// Bitwise complement; its value is the distance to the all-ones word.
pub fn word_not(a: Word) -> (r: Word)
    ensures
        r.l0 == !a.l0 && r.l1 == !a.l1 && r.l2 == !a.l2 && r.l3 == !a.l3,
        word_val(r) == pow256() - 1 - word_val(a),
{
    proof {
        assert forall|x: u64| #[trigger] (!x) == 0xffff_ffff_ffff_ffffu64 - x by {
            assert(!x == 0xffff_ffff_ffff_ffffu64 - x) by (bit_vector);
        }
    }
    Word { l0: !a.l0, l1: !a.l1, l2: !a.l2, l3: !a.l3 }
}

/// Wrapping two's-complement negation: zero stays zero, anything else maps to 2^256 - value.
pub fn word_neg(a: Word) -> (r: Word)
    ensures
        word_val(r) == (0 - word_val(a) as int) % (pow256() as int),
        word_val(a) == 0 ==> word_val(r) == 0,
        word_val(a) != 0 ==> word_val(r) == pow256() - word_val(a),
{
    let n = word_not(a);
    let r = word_add(n, one());
    proof {
        let m = pow256() as int;
        let va = word_val(a) as int;
        assert(word_val(r) == (m - va) % m);
        lemma_mod_multiples_vanish(1, -va, m);
        if va == 0 {
            lemma_small_mod(0, pow256());
        } else {
            lemma_small_mod((pow256() - word_val(a)) as nat, pow256());
        }
    }
    r
}

/// Wrapping subtraction modulo 2^256.
pub fn word_sub(a: Word, b: Word) -> (r: Word)
    ensures
        word_val(r) == (word_val(a) as int - word_val(b) as int) % (pow256() as int),
{
    let nb = word_neg(b);
    let r = word_add(a, nb);
    proof {
        let m = pow256() as int;
        let va = word_val(a) as int;
        let vb = word_val(b) as int;
        if vb == 0 {
            lemma_small_mod(word_val(a), pow256());
        } else {
            lemma_mod_multiples_vanish(1, va - vb, m);
        }
    }
    r
}

/// Limb equality coincides with value equality.
pub proof fn lemma_word_val_injective(a: Word, b: Word)
    ensures
        (word_val(a) == word_val(b)) <==> (a == b),
{
    if word_val(a) == word_val(b) {
        lemma_limbs_from_val(a);
        lemma_limbs_from_val(b);
    }
}

/// Each limb is a digit of the value in base 2^64.
proof fn lemma_limbs_from_val(a: Word)
    ensures
        a.l0 == word_val(a) % pow64(),
        a.l1 == (word_val(a) / pow64()) % pow64(),
        a.l2 == (word_val(a) / pow128()) % pow64(),
        a.l3 == word_val(a) / pow192(),
{
    let v = word_val(a) as int;
    let p = pow64() as int;
    assert(v == (a.l0 + p * (a.l1 + a.l2 * pow64() + a.l3 * pow128())));
    lemma_mod_multiples_vanish((a.l1 + a.l2 * pow64() + a.l3 * pow128()) as int, a.l0 as int, p);
    lemma_small_mod(a.l0 as nat, pow64());
    lemma_div_multiples_vanish_fancy((a.l1 + a.l2 * pow64() + a.l3 * pow128()) as int, a.l0 as int, p);
    assert(v / p == a.l1 + a.l2 * pow64() + a.l3 * pow128());
    lemma_mod_multiples_vanish((a.l2 + a.l3 * pow64()) as int, a.l1 as int, p);
    lemma_small_mod(a.l1 as nat, pow64());
    lemma_div_denominator(v, p, p);
    lemma_div_multiples_vanish_fancy((a.l2 + a.l3 * pow64()) as int, a.l1 as int, p);
    assert(v / pow128() as int == a.l2 + a.l3 * pow64());
    lemma_mod_multiples_vanish(a.l3 as int, a.l2 as int, p);
    lemma_small_mod(a.l2 as nat, pow64());
    lemma_div_denominator(v, pow128() as int, p);
    lemma_div_multiples_vanish_fancy(a.l3 as int, a.l2 as int, p);
}

/// Equality test; 1/0 results for the EQ opcode are built on this.
pub fn word_eq(a: &Word, b: &Word) -> (r: bool)
    ensures
        r == (word_val(*a) == word_val(*b)),
{
    proof {
        lemma_word_val_injective(*a, *b);
    }
    a.l0 == b.l0 && a.l1 == b.l1 && a.l2 == b.l2 && a.l3 == b.l3
}

/// Unsigned comparison, most significant limb first.
pub fn word_lt(a: &Word, b: &Word) -> (r: bool)
    ensures
        r == (word_val(*a) < word_val(*b)),
{
    if a.l3 != b.l3 {
        a.l3 < b.l3
    } else if a.l2 != b.l2 {
        a.l2 < b.l2
    } else if a.l1 != b.l1 {
        a.l1 < b.l1
    } else {
        a.l0 < b.l0
    }
}

pub fn word_is_zero(a: &Word) -> (r: bool)
    ensures
        r == (word_val(*a) == 0),
{
    a.l0 == 0 && a.l1 == 0 && a.l2 == 0 && a.l3 == 0
}

/// The sign bit of the two's-complement reading: set iff the value is at least 2^255.
pub fn word_is_neg(a: &Word) -> (r: bool)
    ensures
        r == (word_val(*a) >= pow255()),
{
    a.l3 >= 0x8000_0000_0000_0000u64
}

pub open spec fn word_and_spec(a: Word, b: Word) -> Word {
    Word { l0: a.l0 & b.l0, l1: a.l1 & b.l1, l2: a.l2 & b.l2, l3: a.l3 & b.l3 }
}

pub open spec fn word_or_spec(a: Word, b: Word) -> Word {
    Word { l0: a.l0 | b.l0, l1: a.l1 | b.l1, l2: a.l2 | b.l2, l3: a.l3 | b.l3 }
}

pub open spec fn word_xor_spec(a: Word, b: Word) -> Word {
    Word { l0: a.l0 ^ b.l0, l1: a.l1 ^ b.l1, l2: a.l2 ^ b.l2, l3: a.l3 ^ b.l3 }
}

pub fn word_and(a: &Word, b: &Word) -> (r: Word)
    ensures
        r == word_and_spec(*a, *b),
{
    Word { l0: a.l0 & b.l0, l1: a.l1 & b.l1, l2: a.l2 & b.l2, l3: a.l3 & b.l3 }
}

pub fn word_or(a: &Word, b: &Word) -> (r: Word)
    ensures
        r == word_or_spec(*a, *b),
{
    Word { l0: a.l0 | b.l0, l1: a.l1 | b.l1, l2: a.l2 | b.l2, l3: a.l3 | b.l3 }
}

pub fn word_xor(a: &Word, b: &Word) -> (r: Word)
    ensures
        r == word_xor_spec(*a, *b),
{
    Word { l0: a.l0 ^ b.l0, l1: a.l1 ^ b.l1, l2: a.l2 ^ b.l2, l3: a.l3 ^ b.l3 }
}

pub open spec fn byte_factor(k: int) -> nat {
    if k == 0 {
        1nat
    } else if k == 1 {
        0x100nat
    } else if k == 2 {
        0x1_0000nat
    } else if k == 3 {
        0x100_0000nat
    } else if k == 4 {
        0x1_0000_0000nat
    } else if k == 5 {
        0x100_0000_0000nat
    } else if k == 6 {
        0x1_0000_0000_0000nat
    } else {
        0x100_0000_0000_0000nat
    }
}

pub open spec fn word_limb(w: Word, j: int) -> u64 {
    if j == 0 {
        w.l0
    } else if j == 1 {
        w.l1
    } else if j == 2 {
        w.l2
    } else {
        w.l3
    }
}

/// Byte `j` of the word counted from the least significant end (j in 0..32).
pub open spec fn word_byte(w: Word, j: int) -> u8 {
    (((word_limb(w, j / 8) as nat) / byte_factor(j % 8)) % 0x100) as u8
}

/// The canonical 32-byte big-endian form: index 0 is the most significant byte.
pub open spec fn word_be_bytes(w: Word) -> Seq<u8> {
    Seq::new(32, |i: int| word_byte(w, 31 - i))
}

pub fn byte_factor_exec(k: usize) -> (r: u64)
    requires
        k < 8,
    ensures
        r == byte_factor(k as int),
{
    if k == 0 {
        1
    } else if k == 1 {
        0x100
    } else if k == 2 {
        0x1_0000
    } else if k == 3 {
        0x100_0000
    } else if k == 4 {
        0x1_0000_0000
    } else if k == 5 {
        0x100_0000_0000
    } else if k == 6 {
        0x1_0000_0000_0000
    } else {
        0x100_0000_0000_0000
    }
}

/// Reads byte `j` of the word, least significant end first.
pub fn word_get_byte(w: &Word, j: usize) -> (r: u8)
    requires
        j < 32,
    ensures
        r == word_byte(*w, j as int),
{
    let limb: u64 = if j < 8 {
        w.l0
    } else if j < 16 {
        w.l1
    } else if j < 24 {
        w.l2
    } else {
        w.l3
    };
    let f = byte_factor_exec(j % 8);
    ((limb / f) % 0x100) as u8
}

/// The word as 32 big-endian bytes.
pub fn word_to_be_bytes(w: &Word) -> (r: Vec<u8>)
    ensures
        r@ == word_be_bytes(*w),
{
    let mut out: Vec<u8> = Vec::new();
    for i in 0..32usize
        invariant
            out@.len() == i,
            forall|k: int| 0 <= k < i ==> out@[k] == word_byte(*w, 31 - k),
        decreases 32 - i,
    {
        out.push(word_get_byte(w, 31 - i));
    }
    proof {
        assert(out@ =~= word_be_bytes(*w));
    }
    out
}

/// Byte `i` (big-endian position, 0 is most significant) of a big-endian byte
/// string of up to 32 bytes, read as if left-padded with zeros to 32 bytes.
pub open spec fn be_byte_at(s: Seq<u8>, i: int) -> u8 {
    if i < 32 - s.len() {
        0u8
    } else {
        s[i - (32 - s.len())]
    }
}

pub open spec fn limb_of_be(s: Seq<u8>, j: int) -> u64 {
    (be_byte_at(s, 31 - 8 * j) + (be_byte_at(s, 30 - 8 * j) as nat) * 0x100 + (be_byte_at(
        s,
        29 - 8 * j,
    ) as nat) * 0x1_0000 + (be_byte_at(s, 28 - 8 * j) as nat) * 0x100_0000 + (be_byte_at(
        s,
        27 - 8 * j,
    ) as nat) * 0x1_0000_0000 + (be_byte_at(s, 26 - 8 * j) as nat) * 0x100_0000_0000 + (be_byte_at(
        s,
        25 - 8 * j,
    ) as nat) * 0x1_0000_0000_0000 + (be_byte_at(s, 24 - 8 * j) as nat)
        * 0x100_0000_0000_0000) as u64
}

/// The word denoted by a big-endian byte string of up to 32 bytes,
/// shorter strings reading as left-zero-padded.
pub open spec fn word_of_be(s: Seq<u8>) -> Word {
    Word { l0: limb_of_be(s, 0), l1: limb_of_be(s, 1), l2: limb_of_be(s, 2), l3: limb_of_be(s, 3) }
}

fn limb_from_padded(p: &Vec<u8>, j: usize) -> (r: u64)
    requires
        p@.len() == 32,
        j < 4,
    ensures
        forall|s: Seq<u8>|
            (s.len() <= 32 && (forall|i: int| 0 <= i < 32 ==> p@[i] == be_byte_at(s, i))) ==> r
                == limb_of_be(s, j as int),
{
    let base = 31 - 8 * j;
    p[base] as u64 + (p[base - 1] as u64) * 0x100 + (p[base - 2] as u64) * 0x1_0000 + (p[base
        - 3] as u64) * 0x100_0000 + (p[base - 4] as u64) * 0x1_0000_0000 + (p[base - 5] as u64)
        * 0x100_0000_0000 + (p[base - 6] as u64) * 0x1_0000_0000_0000 + (p[base - 7] as u64)
        * 0x100_0000_0000_0000
}

/// Builds the word a big-endian byte string denotes, left-padding with zeros.
pub fn word_from_be_bytes(bytes: &Vec<u8>) -> (r: Word)
    requires
        bytes@.len() <= 32,
    ensures
        r == word_of_be(bytes@),
{
    let mut p: Vec<u8> = Vec::new();
    let pad = 32 - bytes.len();
    for i in 0..pad
        invariant
            pad == 32 - bytes@.len(),
            p@.len() == i,
            forall|k: int| 0 <= k < i ==> p@[k] == 0u8,
        decreases pad - i,
    {
        p.push(0u8);
    }
    for i in 0..bytes.len()
        invariant
            pad == 32 - bytes@.len(),
            i <= bytes@.len(),
            p@.len() == pad + i,
            forall|k: int| 0 <= k < pad ==> p@[k] == 0u8,
            forall|k: int| 0 <= k < i ==> p@[pad + k] == bytes@[k],
        decreases bytes@.len() - i,
    {
        p.push(bytes[i]);
    }
    proof {
        assert(forall|i: int| 0 <= i < 32 ==> p@[i] == be_byte_at(bytes@, i));
    }
    Word {
        l0: limb_from_padded(&p, 0),
        l1: limb_from_padded(&p, 1),
        l2: limb_from_padded(&p, 2),
        l3: limb_from_padded(&p, 3),
    }
}

/// A 64-bit limb is the weighted sum of its eight bytes.
proof fn lemma_limb_byte_sum(x: u64)
    ensures
        x == (x as nat / byte_factor(0)) % 0x100 + ((x as nat / byte_factor(1)) % 0x100) * 0x100 + (
        (x as nat / byte_factor(2)) % 0x100) * 0x1_0000 + ((x as nat / byte_factor(3)) % 0x100)
            * 0x100_0000 + ((x as nat / byte_factor(4)) % 0x100) * 0x1_0000_0000 + ((x as nat
            / byte_factor(5)) % 0x100) * 0x100_0000_0000 + ((x as nat / byte_factor(6)) % 0x100)
            * 0x1_0000_0000_0000 + ((x as nat / byte_factor(7)) % 0x100) * 0x100_0000_0000_0000,
{
    let v = x as int;
    lemma_div_denominator(v, 0x100, 0x100);
    lemma_div_denominator(v, 0x1_0000, 0x100);
    lemma_div_denominator(v, 0x100_0000, 0x100);
    lemma_div_denominator(v, 0x1_0000_0000, 0x100);
    lemma_div_denominator(v, 0x100_0000_0000, 0x100);
    lemma_div_denominator(v, 0x1_0000_0000_0000, 0x100);
    lemma_fundamental_div_mod(v, 0x100);
    lemma_fundamental_div_mod(v / 0x100, 0x100);
    lemma_fundamental_div_mod(v / 0x1_0000, 0x100);
    lemma_fundamental_div_mod(v / 0x100_0000, 0x100);
    lemma_fundamental_div_mod(v / 0x1_0000_0000, 0x100);
    lemma_fundamental_div_mod(v / 0x100_0000_0000, 0x100);
    lemma_fundamental_div_mod(v / 0x1_0000_0000_0000, 0x100);
    assert(v / 0x100_0000_0000_0000 < 0x100) by {
        lemma_multiply_divide_lt(v, 0x100_0000_0000_0000, 0x100);
    }
    assert(v / 0x100_0000_0000_0000 >= 0) by {
        lemma_div_pos_is_pos(v, 0x100_0000_0000_0000);
    }
    lemma_small_mod((v / 0x100_0000_0000_0000) as nat, 0x100);
}

/// Writing a word as 32 big-endian bytes and reading them back yields the word.
/// Together with the contracts of `Memory::save_word` and `Memory::get_word`
/// this gives the MSTORE/MLOAD round trip.
#[verifier::rlimit(50)]
pub proof fn lemma_word_bytes_roundtrip(w: Word)
    ensures
        word_of_be(word_be_bytes(w)) == w,
{
    let s = word_be_bytes(w);
    assert(s.len() == 32);
    assert forall|j: int| 0 <= j < 4 implies limb_of_be(s, j) == word_limb(w, j) by {
        lemma_limb_byte_sum(word_limb(w, j));
        assert(be_byte_at(s, 31 - 8 * j) == word_byte(w, 8 * j));
        assert(be_byte_at(s, 30 - 8 * j) == word_byte(w, 8 * j + 1));
        assert(be_byte_at(s, 29 - 8 * j) == word_byte(w, 8 * j + 2));
        assert(be_byte_at(s, 28 - 8 * j) == word_byte(w, 8 * j + 3));
        assert(be_byte_at(s, 27 - 8 * j) == word_byte(w, 8 * j + 4));
        assert(be_byte_at(s, 26 - 8 * j) == word_byte(w, 8 * j + 5));
        assert(be_byte_at(s, 25 - 8 * j) == word_byte(w, 8 * j + 6));
        assert(be_byte_at(s, 24 - 8 * j) == word_byte(w, 8 * j + 7));
    }
    assert(word_of_be(s) == w);
}

/// Relies on primitive_types::U256::overflowing_mul: multiplication wrapping
/// modulo 2^256. The limbs of `Word` and `U256` coincide (both little-endian u64).
#[verifier::external_body]
pub(crate) fn word_mul(a: &Word, b: &Word) -> (r: Word)
    ensures
        word_val(r) == (word_val(*a) * word_val(*b)) % pow256(),
{
    let x = primitive_types::U256([a.l0, a.l1, a.l2, a.l3]);
    let y = primitive_types::U256([b.l0, b.l1, b.l2, b.l3]);
    let z = x.overflowing_mul(y).0;
    Word { l0: z.0[0], l1: z.0[1], l2: z.0[2], l3: z.0[3] }
}

/// Relies on primitive_types::U256::checked_div: `None` exactly on a zero
/// divisor, otherwise the Euclidean quotient.
#[verifier::external_body]
pub(crate) fn word_div_checked(a: &Word, b: &Word) -> (r: Option<Word>)
    ensures
        match r {
            Some(v) => word_val(*b) != 0 && word_val(v) == word_val(*a) / word_val(*b),
            None => word_val(*b) == 0,
        },
{
    let x = primitive_types::U256([a.l0, a.l1, a.l2, a.l3]);
    let y = primitive_types::U256([b.l0, b.l1, b.l2, b.l3]);
    match x.checked_div(y) {
        Some(z) => Some(Word { l0: z.0[0], l1: z.0[1], l2: z.0[2], l3: z.0[3] }),
        None => None,
    }
}

/// Relies on primitive_types::U256::checked_rem: `None` exactly on a zero
/// divisor, otherwise the Euclidean remainder.
#[verifier::external_body]
pub(crate) fn word_rem_checked(a: &Word, b: &Word) -> (r: Option<Word>)
    ensures
        match r {
            Some(v) => word_val(*b) != 0 && word_val(v) == word_val(*a) % word_val(*b),
            None => word_val(*b) == 0,
        },
{
    let x = primitive_types::U256([a.l0, a.l1, a.l2, a.l3]);
    let y = primitive_types::U256([b.l0, b.l1, b.l2, b.l3]);
    match x.checked_rem(y) {
        Some(z) => Some(Word { l0: z.0[0], l1: z.0[1], l2: z.0[2], l3: z.0[3] }),
        None => None,
    }
}

/// Relies on primitive_types::U256::overflowing_pow: exponentiation by
/// squaring with every multiplication wrapping modulo 2^256.
#[verifier::external_body]
pub(crate) fn word_pow(a: &Word, e: &Word) -> (r: Word)
    ensures
        word_val(r) == vstd::arithmetic::power::pow(word_val(*a) as int, word_val(*e)) % (
        pow256() as int),
{
    let x = primitive_types::U256([a.l0, a.l1, a.l2, a.l3]);
    let y = primitive_types::U256([e.l0, e.l1, e.l2, e.l3]);
    let z = x.overflowing_pow(y).0;
    Word { l0: z.0[0], l1: z.0[1], l2: z.0[2], l3: z.0[3] }
}

/// Relies on primitive_types::U256::full_mul: the exact 512-bit product,
/// returned here as a (high, low) pair of words.
#[verifier::external_body]
pub(crate) fn word_full_mul(a: &Word, b: &Word) -> (r: (Word, Word))
    ensures
        word_val(r.0) * pow256() + word_val(r.1) == word_val(*a) * word_val(*b),
{
    let x = primitive_types::U256([a.l0, a.l1, a.l2, a.l3]);
    let y = primitive_types::U256([b.l0, b.l1, b.l2, b.l3]);
    let z = x.full_mul(y);
    (
        Word { l0: z.0[4], l1: z.0[5], l2: z.0[6], l3: z.0[7] },
        Word { l0: z.0[0], l1: z.0[1], l2: z.0[2], l3: z.0[3] },
    )
}

/// Relies on primitive_types::U512::checked_rem: `None` exactly on a zero
/// divisor, otherwise the remainder of the 512-bit value `hi * 2^256 + lo`,
/// which is below the 256-bit divisor and so fits a word.
#[verifier::external_body]
pub(crate) fn word_wide_rem(hi: &Word, lo: &Word, n: &Word) -> (r: Option<Word>)
    ensures
        match r {
            Some(v) => word_val(*n) != 0 && word_val(v) == (word_val(*hi) * pow256() + word_val(
                *lo,
            )) % word_val(*n),
            None => word_val(*n) == 0,
        },
{
    let x = primitive_types::U512(
        [lo.l0, lo.l1, lo.l2, lo.l3, hi.l0, hi.l1, hi.l2, hi.l3],
    );
    let m = primitive_types::U512([n.l0, n.l1, n.l2, n.l3, 0, 0, 0, 0]);
    match x.checked_rem(m) {
        Some(z) => Some(Word { l0: z.0[0], l1: z.0[1], l2: z.0[2], l3: z.0[3] }),
        None => None,
    }
}

/// Relies on the `Shl` impl of primitive_types::U256: a left shift by fewer
/// than 256 bits multiplies by 2^shift, dropping bits above the 256th.
#[verifier::external_body]
pub(crate) fn word_shl_small(a: &Word, shift: u64) -> (r: Word)
    requires
        shift < 256,
    ensures
        word_val(r) == (word_val(*a) * vstd::arithmetic::power2::pow2(shift as nat)) % pow256(),
{
    let x = primitive_types::U256([a.l0, a.l1, a.l2, a.l3]);
    let z = x << shift;
    Word { l0: z.0[0], l1: z.0[1], l2: z.0[2], l3: z.0[3] }
}

/// Relies on the `Shr` impl of primitive_types::U256: a logical right shift
/// by fewer than 256 bits divides by 2^shift.
#[verifier::external_body]
pub(crate) fn word_shr_small(a: &Word, shift: u64) -> (r: Word)
    requires
        shift < 256,
    ensures
        word_val(r) == word_val(*a) / vstd::arithmetic::power2::pow2(shift as nat),
{
    let x = primitive_types::U256([a.l0, a.l1, a.l2, a.l3]);
    let z = x >> shift;
    Word { l0: z.0[0], l1: z.0[1], l2: z.0[2], l3: z.0[3] }
}

/// The value as a usize where it fits, None where it does not.
pub fn word_to_usize(w: &Word) -> (r: Option<usize>)
    ensures
        match r {
            Some(u) => word_val(*w) == u,
            None => word_val(*w) > usize::MAX,
        },
{
    if w.l1 == 0 && w.l2 == 0 && w.l3 == 0 && w.l0 <= usize::MAX as u64 {
        Some(w.l0 as usize)
    } else {
        None
    }
}

} // verus!
