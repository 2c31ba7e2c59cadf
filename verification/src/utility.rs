use vstd::prelude::*;
use vstd::arithmetic::power::pow;
use vstd::arithmetic::power2::pow2;
use crate::errors::ExecutionError;
use crate::word::{
    Word, word_val, word_zero, pow255, pow256, word_add, word_sub, word_not, word_neg, word_mul,
    word_div_checked, word_rem_checked, word_pow, word_full_mul, word_wide_rem, word_shl_small,
    word_shr_small, word_and, word_or, word_xor, word_and_spec, word_or_spec, word_xor_spec,
    word_eq, word_lt, word_is_zero, word_is_neg, word_byte, word_of_be, word_get_byte,
    word_to_be_bytes, word_from_be_bytes, word_to_usize, zero, one, max_word, from_u64,
};

verus! {

/// The stack element `k` places below the top.
pub open spec fn peek(s: Seq<Word>, k: int) -> Word {
    s[s.len() - 1 - k]
}

/// Pushes a word; fails with StackOverflow when the stack is at `limit`.
pub fn push(stack: &mut Vec<Word>, item: Word, limit: usize) -> (r: Result<(), ExecutionError>)
    ensures
        match r {
            Ok(()) => old(stack)@.len() < limit && final(stack)@ == old(stack)@.push(item),
            Err(e) => e == ExecutionError::StackOverflow && old(stack)@.len() >= limit && final(stack)@ == old(stack)@,
        },
{
    if stack.len() >= limit {
        Err(ExecutionError::StackOverflow)
    } else {
        stack.push(item);
        Ok(())
    }
}

/// Pops the top word; fails with StackUnderflow on an empty stack.
pub fn pop(stack: &mut Vec<Word>) -> (r: Result<Word, ExecutionError>)
    ensures
        match r {
            Ok(v) => old(stack)@.len() > 0 && v == peek(old(stack)@, 0) && final(stack)@ == old(stack)@.drop_last(),
            Err(e) => e == ExecutionError::StackUnderflow && old(stack)@.len() == 0 && final(stack)@ == old(stack)@,
        },
{
    match stack.pop() {
        Option::Some(item) => Ok(item),
        Option::None => Err(ExecutionError::StackUnderflow),
    }
}

/// ADD: pops a then b, pushes `(a + b) mod 2^256`.
pub fn add(stack: &mut Vec<Word>, limit: usize) -> (r: Result<Word, ExecutionError>)
    requires
        old(stack)@.len() <= limit,
    ensures
        match r {
            Ok(v) => old(stack)@.len() >= 2 && word_val(v) == (word_val(peek(old(stack)@, 0))
                + word_val(peek(old(stack)@, 1))) % pow256() && final(stack)@ == old(stack)@.drop_last().drop_last().push(v),
            Err(e) => e == ExecutionError::StackUnderflow && old(stack)@.len() < 2 && final(stack)@.len() == 0,
        },
{
    let a = pop(stack)?;
    let b = pop(stack)?;
    let sum = word_add(a, b);
    push(stack, sum, limit)?;
    Ok(sum)
}

/// MUL: pops a then b, pushes `(a * b) mod 2^256`.
pub fn mul(stack: &mut Vec<Word>, limit: usize) -> (r: Result<Word, ExecutionError>)
    requires
        old(stack)@.len() <= limit,
    ensures
        match r {
            Ok(v) => old(stack)@.len() >= 2 && word_val(v) == (word_val(peek(old(stack)@, 0))
                * word_val(peek(old(stack)@, 1))) % pow256() && final(stack)@ == old(stack)@.drop_last().drop_last().push(v),
            Err(e) => e == ExecutionError::StackUnderflow && old(stack)@.len() < 2 && final(stack)@.len() == 0,
        },
{
    let a = pop(stack)?;
    let b = pop(stack)?;
    let product = word_mul(&a, &b);
    push(stack, product, limit)?;
    Ok(product)
}

/// SUB: pops a then b, pushes `(a - b) mod 2^256`.
pub fn sub(stack: &mut Vec<Word>, limit: usize) -> (r: Result<Word, ExecutionError>)
    requires
        old(stack)@.len() <= limit,
    ensures
        match r {
            Ok(v) => old(stack)@.len() >= 2 && word_val(v) == (word_val(
                peek(old(stack)@, 0),
            ) as int - word_val(peek(old(stack)@, 1)) as int) % (pow256() as int) && final(stack)@ == old(stack)@.drop_last().drop_last().push(v),
            Err(e) => e == ExecutionError::StackUnderflow && old(stack)@.len() < 2 && final(stack)@.len() == 0,
        },
{
    let a = pop(stack)?;
    let b = pop(stack)?;
    let difference = word_sub(a, b);
    push(stack, difference, limit)?;
    Ok(difference)
}

/// DIV: pops a then b, pushes `a / b`, and zero when b is zero.
pub fn div(stack: &mut Vec<Word>, limit: usize) -> (r: Result<Word, ExecutionError>)
    requires
        old(stack)@.len() <= limit,
    ensures
        match r {
            Ok(v) => old(stack)@.len() >= 2 && word_val(v) == (if word_val(peek(old(stack)@, 1))
                == 0 {
                0nat
            } else {
                word_val(peek(old(stack)@, 0)) / word_val(peek(old(stack)@, 1))
            }) && final(stack)@ == old(stack)@.drop_last().drop_last().push(v),
            Err(e) => e == ExecutionError::StackUnderflow && old(stack)@.len() < 2 && final(stack)@.len() == 0,
        },
{
    let a = pop(stack)?;
    let b = pop(stack)?;
    let quotient = match word_div_checked(&a, &b) {
        Option::Some(q) => q,
        Option::None => zero(),
    };
    push(stack, quotient, limit)?;
    Ok(quotient)
}

/// MOD: pops a then b, pushes `a % b`, and zero when b is zero.
pub fn mod_fn(stack: &mut Vec<Word>, limit: usize) -> (r: Result<Word, ExecutionError>)
    requires
        old(stack)@.len() <= limit,
    ensures
        match r {
            Ok(v) => old(stack)@.len() >= 2 && word_val(v) == (if word_val(peek(old(stack)@, 1))
                == 0 {
                0nat
            } else {
                word_val(peek(old(stack)@, 0)) % word_val(peek(old(stack)@, 1))
            }) && final(stack)@ == old(stack)@.drop_last().drop_last().push(v),
            Err(e) => e == ExecutionError::StackUnderflow && old(stack)@.len() < 2 && final(stack)@.len() == 0,
        },
{
    let a = pop(stack)?;
    let b = pop(stack)?;
    let remainder = match word_rem_checked(&a, &b) {
        Option::Some(q) => q,
        Option::None => zero(),
    };
    push(stack, remainder, limit)?;
    Ok(remainder)
}

/// ADDMOD: pops a, b, n and pushes `(a + b) mod n` with the full-width sum,
/// and zero when n is zero.
pub fn addmod(stack: &mut Vec<Word>, limit: usize) -> (r: Result<Word, ExecutionError>)
    requires
        old(stack)@.len() <= limit,
    ensures
        match r {
            Ok(v) => old(stack)@.len() >= 3 && word_val(v) == (if word_val(peek(old(stack)@, 2))
                == 0 {
                0nat
            } else {
                (word_val(peek(old(stack)@, 0)) + word_val(peek(old(stack)@, 1))) % word_val(
                    peek(old(stack)@, 2),
                )
            }) && final(stack)@ == old(stack)@.drop_last().drop_last().drop_last().push(v),
            Err(e) => e == ExecutionError::StackUnderflow && old(stack)@.len() < 3 && final(stack)@.len() == 0,
        },
{
    let a = pop(stack)?;
    let b = pop(stack)?;
    let n = pop(stack)?;
    let (sum, carry) = crate::word::word_add_carry(a, b);
    let hi = if carry {
        one()
    } else {
        zero()
    };
    let result = match word_wide_rem(&hi, &sum, &n) {
        Option::Some(q) => q,
        Option::None => zero(),
    };
    push(stack, result, limit)?;
    Ok(result)
}

/// MULMOD: pops a, b, n and pushes `(a * b) mod n` with the full 512-bit
/// product, and zero when n is zero.
pub fn mulmod(stack: &mut Vec<Word>, limit: usize) -> (r: Result<Word, ExecutionError>)
    requires
        old(stack)@.len() <= limit,
    ensures
        match r {
            Ok(v) => old(stack)@.len() >= 3 && word_val(v) == (if word_val(peek(old(stack)@, 2))
                == 0 {
                0nat
            } else {
                (word_val(peek(old(stack)@, 0)) * word_val(peek(old(stack)@, 1))) % word_val(
                    peek(old(stack)@, 2),
                )
            }) && final(stack)@ == old(stack)@.drop_last().drop_last().drop_last().push(v),
            Err(e) => e == ExecutionError::StackUnderflow && old(stack)@.len() < 3 && final(stack)@.len() == 0,
        },
{
    let a = pop(stack)?;
    let b = pop(stack)?;
    let n = pop(stack)?;
    let (hi, lo) = word_full_mul(&a, &b);
    let result = match word_wide_rem(&hi, &lo, &n) {
        Option::Some(q) => q,
        Option::None => zero(),
    };
    push(stack, result, limit)?;
    Ok(result)
}

/// EXP: pops a then e, pushes `a^e mod 2^256`.
pub fn exp(stack: &mut Vec<Word>, limit: usize) -> (r: Result<Word, ExecutionError>)
    requires
        old(stack)@.len() <= limit,
    ensures
        match r {
            Ok(v) => old(stack)@.len() >= 2 && word_val(v) == pow(
                word_val(peek(old(stack)@, 0)) as int,
                word_val(peek(old(stack)@, 1)),
            ) % (pow256() as int) && final(stack)@ == old(stack)@.drop_last().drop_last().push(
                v,
            ),
            Err(e) => e == ExecutionError::StackUnderflow && old(stack)@.len() < 2 && final(stack)@.len() == 0,
        },
{
    let a = pop(stack)?;
    let exponent = pop(stack)?;
    let result = word_pow(&a, &exponent);
    push(stack, result, limit)?;
    Ok(result)
}

/// True iff the two's-complement reading of the value is negative.
pub open spec fn is_neg_val(v: nat) -> bool {
    v >= pow255()
}

/// The magnitude of the two's-complement reading.
pub open spec fn s_mag(v: nat) -> nat {
    if is_neg_val(v) {
        (pow256() - v) as nat
    } else {
        v
    }
}

/// Two's-complement negation at the value level (for v < 2^256).
pub open spec fn s_neg_val(v: nat) -> nat {
    if v == 0 {
        0
    } else {
        (pow256() - v) as nat
    }
}

/// The SDIV result: quotient of the magnitudes, negated iff the operand
/// signs differ; zero on a zero divisor.
pub open spec fn sdiv_spec(va: nat, vb: nat) -> nat {
    let q = if s_mag(vb) == 0 {
        0nat
    } else {
        s_mag(va) / s_mag(vb)
    };
    if is_neg_val(va) != is_neg_val(vb) {
        s_neg_val(q)
    } else {
        q
    }
}

/// The SMOD result: remainder of the magnitudes, negated iff the dividend
/// is negative; zero on a zero divisor.
pub open spec fn smod_spec(va: nat, vb: nat) -> nat {
    let m = if s_mag(vb) == 0 {
        0nat
    } else {
        s_mag(va) % s_mag(vb)
    };
    if is_neg_val(va) {
        s_neg_val(m)
    } else {
        m
    }
}

/// SDIV: pops a then b, pushes the signed quotient; zero on b = 0.
pub fn sdiv(stack: &mut Vec<Word>, limit: usize) -> (r: Result<Word, ExecutionError>)
    requires
        old(stack)@.len() <= limit,
    ensures
        match r {
            Ok(v) => old(stack)@.len() >= 2 && word_val(v) == sdiv_spec(
                word_val(peek(old(stack)@, 0)),
                word_val(peek(old(stack)@, 1)),
            ) && (word_val(peek(old(stack)@, 1)) == 0 ==> word_val(v) == 0) && final(stack)@
                == old(stack)@.drop_last().drop_last().push(v),
            Err(e) => e == ExecutionError::StackUnderflow && old(stack)@.len() < 2 && final(stack)@.len() == 0,
        },
{
    let a = pop(stack)?;
    let b = pop(stack)?;
    let is_a_negative = word_is_neg(&a);
    let is_b_negative = word_is_neg(&b);
    let abs_a = if is_a_negative {
        word_neg(a)
    } else {
        a
    };
    let abs_b = if is_b_negative {
        word_neg(b)
    } else {
        b
    };
    let q = match word_div_checked(&abs_a, &abs_b) {
        Option::Some(q) => q,
        Option::None => zero(),
    };
    let result = if is_a_negative != is_b_negative {
        word_neg(q)
    } else {
        q
    };
    proof {
        crate::word::lemma_word_val_bound(q);
    }
    push(stack, result, limit)?;
    Ok(result)
}

/// SMOD: pops a then b, pushes the signed remainder; zero on b = 0.
pub fn smod(stack: &mut Vec<Word>, limit: usize) -> (r: Result<Word, ExecutionError>)
    requires
        old(stack)@.len() <= limit,
    ensures
        match r {
            Ok(v) => old(stack)@.len() >= 2 && word_val(v) == smod_spec(
                word_val(peek(old(stack)@, 0)),
                word_val(peek(old(stack)@, 1)),
            ) && (word_val(peek(old(stack)@, 1)) == 0 ==> word_val(v) == 0) && final(stack)@
                == old(stack)@.drop_last().drop_last().push(v),
            Err(e) => e == ExecutionError::StackUnderflow && old(stack)@.len() < 2 && final(stack)@.len() == 0,
        },
{
    let a = pop(stack)?;
    let b = pop(stack)?;
    let is_a_negative = word_is_neg(&a);
    let is_b_negative = word_is_neg(&b);
    let abs_a = if is_a_negative {
        word_neg(a)
    } else {
        a
    };
    let abs_b = if is_b_negative {
        word_neg(b)
    } else {
        b
    };
    let m = match word_rem_checked(&abs_a, &abs_b) {
        Option::Some(q) => q,
        Option::None => zero(),
    };
    let result = if is_a_negative {
        word_neg(m)
    } else {
        m
    };
    proof {
        crate::word::lemma_word_val_bound(m);
    }
    push(stack, result, limit)?;
    Ok(result)
}

/// The word standing for a boolean: one for true, zero for false.
pub open spec fn bool_word(b: bool) -> Word {
    if b {
        Word { l0: 1, l1: 0, l2: 0, l3: 0 }
    } else {
        word_zero()
    }
}

fn bool_to_word(b: bool) -> (r: Word)
    ensures
        r == bool_word(b),
{
    if b {
        one()
    } else {
        zero()
    }
}

/// LT: pops a then b, pushes 1 iff `a < b` as unsigned values.
pub fn lt(stack: &mut Vec<Word>, limit: usize) -> (r: Result<Word, ExecutionError>)
    requires
        old(stack)@.len() <= limit,
    ensures
        match r {
            Ok(v) => old(stack)@.len() >= 2 && v == bool_word(
                word_val(peek(old(stack)@, 0)) < word_val(peek(old(stack)@, 1)),
            ) && final(stack)@ == old(stack)@.drop_last().drop_last().push(v),
            Err(e) => e == ExecutionError::StackUnderflow && old(stack)@.len() < 2 && final(stack)@.len() == 0,
        },
{
    let a = pop(stack)?;
    let b = pop(stack)?;
    let result = bool_to_word(word_lt(&a, &b));
    push(stack, result, limit)?;
    Ok(result)
}

/// GT: pops a then b, pushes 1 iff `a > b` as unsigned values.
pub fn gt(stack: &mut Vec<Word>, limit: usize) -> (r: Result<Word, ExecutionError>)
    requires
        old(stack)@.len() <= limit,
    ensures
        match r {
            Ok(v) => old(stack)@.len() >= 2 && v == bool_word(
                word_val(peek(old(stack)@, 0)) > word_val(peek(old(stack)@, 1)),
            ) && final(stack)@ == old(stack)@.drop_last().drop_last().push(v),
            Err(e) => e == ExecutionError::StackUnderflow && old(stack)@.len() < 2 && final(stack)@.len() == 0,
        },
{
    let a = pop(stack)?;
    let b = pop(stack)?;
    let result = bool_to_word(word_lt(&b, &a));
    push(stack, result, limit)?;
    Ok(result)
}

/// The signed less-than relation on value readings.
pub open spec fn slt_val(va: nat, vb: nat) -> bool {
    if is_neg_val(va) != is_neg_val(vb) {
        is_neg_val(va)
    } else {
        va < vb
    }
}

/// SLT: pops a then b, pushes 1 iff `a < b` as signed values.
pub fn slt(stack: &mut Vec<Word>, limit: usize) -> (r: Result<Word, ExecutionError>)
    requires
        old(stack)@.len() <= limit,
    ensures
        match r {
            Ok(v) => old(stack)@.len() >= 2 && v == bool_word(
                slt_val(word_val(peek(old(stack)@, 0)), word_val(peek(old(stack)@, 1))),
            ) && final(stack)@ == old(stack)@.drop_last().drop_last().push(v),
            Err(e) => e == ExecutionError::StackUnderflow && old(stack)@.len() < 2 && final(stack)@.len() == 0,
        },
{
    let a = pop(stack)?;
    let b = pop(stack)?;
    let is_a_negative = word_is_neg(&a);
    let is_b_negative = word_is_neg(&b);
    let result = if is_a_negative != is_b_negative {
        bool_to_word(is_a_negative)
    } else {
        bool_to_word(word_lt(&a, &b))
    };
    push(stack, result, limit)?;
    Ok(result)
}

/// SGT: pops a then b, pushes 1 iff `a > b` as signed values.
pub fn sgt(stack: &mut Vec<Word>, limit: usize) -> (r: Result<Word, ExecutionError>)
    requires
        old(stack)@.len() <= limit,
    ensures
        match r {
            Ok(v) => old(stack)@.len() >= 2 && v == bool_word(
                slt_val(word_val(peek(old(stack)@, 1)), word_val(peek(old(stack)@, 0))),
            ) && final(stack)@ == old(stack)@.drop_last().drop_last().push(v),
            Err(e) => e == ExecutionError::StackUnderflow && old(stack)@.len() < 2 && final(stack)@.len() == 0,
        },
{
    let a = pop(stack)?;
    let b = pop(stack)?;
    let is_a_negative = word_is_neg(&a);
    let is_b_negative = word_is_neg(&b);
    let result = if is_a_negative != is_b_negative {
        bool_to_word(is_b_negative)
    } else {
        bool_to_word(word_lt(&b, &a))
    };
    push(stack, result, limit)?;
    Ok(result)
}

/// EQ: pops a then b, pushes 1 iff the values are equal.
pub fn eq(stack: &mut Vec<Word>, limit: usize) -> (r: Result<Word, ExecutionError>)
    requires
        old(stack)@.len() <= limit,
    ensures
        match r {
            Ok(v) => old(stack)@.len() >= 2 && v == bool_word(
                word_val(peek(old(stack)@, 0)) == word_val(peek(old(stack)@, 1)),
            ) && final(stack)@ == old(stack)@.drop_last().drop_last().push(v),
            Err(e) => e == ExecutionError::StackUnderflow && old(stack)@.len() < 2 && final(stack)@.len() == 0,
        },
{
    let a = pop(stack)?;
    let b = pop(stack)?;
    let result = bool_to_word(word_eq(&a, &b));
    push(stack, result, limit)?;
    Ok(result)
}

/// ISZERO: pops a, pushes 1 iff it is zero.
pub fn iszero(stack: &mut Vec<Word>, limit: usize) -> (r: Result<Word, ExecutionError>)
    requires
        old(stack)@.len() <= limit,
    ensures
        match r {
            Ok(v) => old(stack)@.len() >= 1 && v == bool_word(word_val(peek(old(stack)@, 0)) == 0)
                && final(stack)@ == old(stack)@.drop_last().push(v),
            Err(e) => e == ExecutionError::StackUnderflow && old(stack)@.len() == 0 && final(stack)@.len() == 0,
        },
{
    let a = pop(stack)?;
    let result = bool_to_word(word_is_zero(&a));
    push(stack, result, limit)?;
    Ok(result)
}

/// NOT: pops a, pushes its bitwise complement.
pub fn not(stack: &mut Vec<Word>, limit: usize) -> (r: Result<Word, ExecutionError>)
    requires
        old(stack)@.len() <= limit,
    ensures
        match r {
            Ok(v) => old(stack)@.len() >= 1 && word_val(v) == pow256() - 1 - word_val(
                peek(old(stack)@, 0),
            ) && final(stack)@ == old(stack)@.drop_last().push(v),
            Err(e) => e == ExecutionError::StackUnderflow && old(stack)@.len() == 0 && final(stack)@.len() == 0,
        },
{
    let a = pop(stack)?;
    let a_negated = word_not(a);
    push(stack, a_negated, limit)?;
    Ok(a_negated)
}

/// AND: pops a then b, pushes the limb-wise conjunction.
pub fn and(stack: &mut Vec<Word>, limit: usize) -> (r: Result<Word, ExecutionError>)
    requires
        old(stack)@.len() <= limit,
    ensures
        match r {
            Ok(v) => old(stack)@.len() >= 2 && v == word_and_spec(
                peek(old(stack)@, 0),
                peek(old(stack)@, 1),
            ) && final(stack)@ == old(stack)@.drop_last().drop_last().push(v),
            Err(e) => e == ExecutionError::StackUnderflow && old(stack)@.len() < 2 && final(stack)@.len() == 0,
        },
{
    let a = pop(stack)?;
    let b = pop(stack)?;
    let result = word_and(&a, &b);
    push(stack, result, limit)?;
    Ok(result)
}

/// OR: pops a then b, pushes the limb-wise disjunction.
pub fn or(stack: &mut Vec<Word>, limit: usize) -> (r: Result<Word, ExecutionError>)
    requires
        old(stack)@.len() <= limit,
    ensures
        match r {
            Ok(v) => old(stack)@.len() >= 2 && v == word_or_spec(
                peek(old(stack)@, 0),
                peek(old(stack)@, 1),
            ) && final(stack)@ == old(stack)@.drop_last().drop_last().push(v),
            Err(e) => e == ExecutionError::StackUnderflow && old(stack)@.len() < 2 && final(stack)@.len() == 0,
        },
{
    let a = pop(stack)?;
    let b = pop(stack)?;
    let result = word_or(&a, &b);
    push(stack, result, limit)?;
    Ok(result)
}

/// XOR: pops a then b, pushes the limb-wise exclusive disjunction.
pub fn xor(stack: &mut Vec<Word>, limit: usize) -> (r: Result<Word, ExecutionError>)
    requires
        old(stack)@.len() <= limit,
    ensures
        match r {
            Ok(v) => old(stack)@.len() >= 2 && v == word_xor_spec(
                peek(old(stack)@, 0),
                peek(old(stack)@, 1),
            ) && final(stack)@ == old(stack)@.drop_last().drop_last().push(v),
            Err(e) => e == ExecutionError::StackUnderflow && old(stack)@.len() < 2 && final(stack)@.len() == 0,
        },
{
    let a = pop(stack)?;
    let b = pop(stack)?;
    let result = word_xor(&a, &b);
    push(stack, result, limit)?;
    Ok(result)
}

/// SHL: pops shift then value, pushes `value * 2^shift mod 2^256`, and zero
/// once the shift reaches 256.
pub fn shl(stack: &mut Vec<Word>, limit: usize) -> (r: Result<Word, ExecutionError>)
    requires
        old(stack)@.len() <= limit,
    ensures
        match r {
            Ok(v) => old(stack)@.len() >= 2 && word_val(v) == (if word_val(peek(old(stack)@, 0))
                >= 256 {
                0nat
            } else {
                (word_val(peek(old(stack)@, 1)) * pow2(word_val(peek(old(stack)@, 0))))
                    % pow256()
            }) && final(stack)@ == old(stack)@.drop_last().drop_last().push(v),
            Err(e) => e == ExecutionError::StackUnderflow && old(stack)@.len() < 2 && final(stack)@.len() == 0,
        },
{
    let shift = pop(stack)?;
    let value = pop(stack)?;
    let result = if shift.l1 != 0 || shift.l2 != 0 || shift.l3 != 0 || shift.l0 >= 256 {
        zero()
    } else {
        word_shl_small(&value, shift.l0)
    };
    push(stack, result, limit)?;
    Ok(result)
}

/// SHR: pops shift then value, pushes `value / 2^shift`, and zero once the
/// shift reaches 256.
pub fn shr(stack: &mut Vec<Word>, limit: usize) -> (r: Result<Word, ExecutionError>)
    requires
        old(stack)@.len() <= limit,
    ensures
        match r {
            Ok(v) => old(stack)@.len() >= 2 && word_val(v) == (if word_val(peek(old(stack)@, 0))
                >= 256 {
                0nat
            } else {
                word_val(peek(old(stack)@, 1)) / pow2(word_val(peek(old(stack)@, 0)))
            }) && final(stack)@ == old(stack)@.drop_last().drop_last().push(v),
            Err(e) => e == ExecutionError::StackUnderflow && old(stack)@.len() < 2 && final(stack)@.len() == 0,
        },
{
    let shift = pop(stack)?;
    let value = pop(stack)?;
    let result = if shift.l1 != 0 || shift.l2 != 0 || shift.l3 != 0 || shift.l0 >= 256 {
        zero()
    } else {
        word_shr_small(&value, shift.l0)
    };
    push(stack, result, limit)?;
    Ok(result)
}

/// The SAR result: an arithmetic right shift through the magnitude, with
/// all-ones whenever a negative value shifts to nothing.
pub open spec fn sar_spec(vs: nat, vv: nat) -> nat {
    let shifted_mag = if vs >= 256 {
        0nat
    } else {
        s_mag(vv) / pow2(vs)
    };
    if is_neg_val(vv) {
        if shifted_mag == 0 {
            (pow256() - 1) as nat
        } else {
            (pow256() - shifted_mag) as nat
        }
    } else {
        shifted_mag
    }
}

/// SAR: pops shift then value, pushes the arithmetic right shift; a negative
/// value shifted past its width yields all ones.
pub fn sar(stack: &mut Vec<Word>, limit: usize) -> (r: Result<Word, ExecutionError>)
    requires
        old(stack)@.len() <= limit,
    ensures
        match r {
            Ok(v) => old(stack)@.len() >= 2 && word_val(v) == sar_spec(
                word_val(peek(old(stack)@, 0)),
                word_val(peek(old(stack)@, 1)),
            ) && (word_val(peek(old(stack)@, 0)) >= 256 && is_neg_val(
                word_val(peek(old(stack)@, 1)),
            ) ==> word_val(v) == pow256() - 1) && final(stack)@ == old(stack)@.drop_last().drop_last().push(v),
            Err(e) => e == ExecutionError::StackUnderflow && old(stack)@.len() < 2 && final(stack)@.len() == 0,
        },
{
    let shift = pop(stack)?;
    let value = pop(stack)?;
    let shift_big = shift.l1 != 0 || shift.l2 != 0 || shift.l3 != 0 || shift.l0 >= 256;
    let is_value_negative = word_is_neg(&value);
    let result: Word;
    if is_value_negative {
        let value_negated = word_neg(value);
        let shifted = if shift_big {
            zero()
        } else {
            word_shr_small(&value_negated, shift.l0)
        };
        if word_is_zero(&shifted) {
            result = max_word();
        } else {
            proof {
                crate::word::lemma_word_val_bound(shifted);
            }
            result = word_neg(shifted);
        }
    } else {
        result = if shift_big {
            zero()
        } else {
            word_shr_small(&value, shift.l0)
        };
    }
    push(stack, result, limit)?;
    Ok(result)
}

/// BYTE: pops i then x, pushes byte i of x counted from the most significant
/// end; zero once i reaches 32.
pub fn byte(stack: &mut Vec<Word>, limit: usize) -> (r: Result<Word, ExecutionError>)
    requires
        old(stack)@.len() <= limit,
    ensures
        match r {
            Ok(v) => old(stack)@.len() >= 2 && word_val(v) == (if word_val(peek(old(stack)@, 0))
                >= 32 {
                0nat
            } else {
                word_byte(
                    peek(old(stack)@, 1),
                    31 - word_val(peek(old(stack)@, 0)),
                ) as nat
            }) && final(stack)@ == old(stack)@.drop_last().drop_last().push(v),
            Err(e) => e == ExecutionError::StackUnderflow && old(stack)@.len() < 2 && final(stack)@.len() == 0,
        },
{
    let i = pop(stack)?;
    let x = pop(stack)?;
    if i.l1 != 0 || i.l2 != 0 || i.l3 != 0 || i.l0 > 31 {
        let result = zero();
        push(stack, result, limit)?;
        return Ok(result);
    }
    let x_byte = word_get_byte(&x, 31 - (i.l0 as usize));
    let result = from_u64(x_byte as u64);
    push(stack, result, limit)?;
    Ok(result)
}

/// The SIGNEXTEND result: `x` read as a `b+1`-byte signed integer and
/// sign-extended to the full word; `x` unchanged once b reaches 31.
pub open spec fn sign_extend_spec(vb: nat, x: Word) -> Word {
    if vb >= 31 {
        x
    } else {
        word_of_be(
            Seq::new(
                32,
                |i: int|
                    if 31 - i > vb {
                        if word_byte(x, vb as int) > 0x7f {
                            0xffu8
                        } else {
                            0x00u8
                        }
                    } else {
                        word_byte(x, 31 - i)
                    },
            ),
        )
    }
}

fn sign_extend_bytes(bv: u64, x: &Word) -> (out: Vec<u8>)
    requires
        bv < 31,
    ensures
        out@ == Seq::new(
            32,
            |i: int|
                if 31 - i > bv {
                    if word_byte(*x, bv as int) > 0x7f {
                        0xffu8
                    } else {
                        0x00u8
                    }
                } else {
                    word_byte(*x, 31 - i)
                },
        ),
{
    let sign_byte = word_get_byte(x, bv as usize);
    let fill: u8 = if sign_byte > 0x7f {
        0xff
    } else {
        0x00
    };
    let mut out: Vec<u8> = Vec::new();
    for i in 0..32usize
        invariant
            bv < 31,
            fill == (if word_byte(*x, bv as int) > 0x7f {
                0xffu8
            } else {
                0x00u8
            }),
            out@.len() == i,
            forall|k: int|
                0 <= k < i ==> out@[k] == (if 31 - k > bv {
                    fill
                } else {
                    word_byte(*x, 31 - k)
                }),
        decreases 32 - i,
    {
        if 31 - i > bv as usize {
            out.push(fill);
        } else {
            out.push(word_get_byte(x, 31 - i));
        }
    }
    proof {
        assert(out@ =~= Seq::new(
            32,
            |i: int|
                if 31 - i > bv {
                    if word_byte(*x, bv as int) > 0x7f {
                        0xffu8
                    } else {
                        0x00u8
                    }
                } else {
                    word_byte(*x, 31 - i)
                },
        ));
    }
    out
}

/// SIGNEXTEND: pops b then x, pushes x sign-extended from byte b.
pub fn sign_extend(stack: &mut Vec<Word>, limit: usize) -> (r: Result<Word, ExecutionError>)
    requires
        old(stack)@.len() <= limit,
    ensures
        match r {
            Ok(v) => old(stack)@.len() >= 2 && v == sign_extend_spec(
                word_val(peek(old(stack)@, 0)),
                peek(old(stack)@, 1),
            ) && (word_val(peek(old(stack)@, 0)) >= 31 ==> v == peek(old(stack)@, 1)) && final(stack)@ == old(stack)@.drop_last().drop_last().push(v),
            Err(e) => e == ExecutionError::StackUnderflow && old(stack)@.len() < 2 && final(stack)@.len() == 0,
        },
{
    let b = pop(stack)?;
    let x = pop(stack)?;
    if b.l1 != 0 || b.l2 != 0 || b.l3 != 0 || b.l0 >= 31 {
        push(stack, x, limit)?;
        return Ok(x);
    }
    let out = sign_extend_bytes(b.l0, &x);
    let result = word_from_be_bytes(&out);
    push(stack, result, limit)?;
    Ok(result)
}

/// DUPN: copies the element at depth `index - 1` onto the top.
pub fn duplicate_data(duplicated_data_index: usize, stack: &mut Vec<Word>, limit: usize) -> (r:
    Result<Word, ExecutionError>)
    requires
        old(stack)@.len() <= limit,
        duplicated_data_index >= 1,
    ensures
        match r {
            Ok(v) => old(stack)@.len() >= duplicated_data_index && old(stack)@.len() < limit && v
                == peek(old(stack)@, duplicated_data_index - 1) && final(stack)@ == old(stack)@.push(v),
            Err(e) => {
                ||| (e == ExecutionError::StackUnderflow && old(stack)@.len()
                    < duplicated_data_index && final(stack)@.len() == 0)
                ||| (e == ExecutionError::StackOverflow && old(stack)@.len()
                    >= duplicated_data_index && old(stack)@.len() >= limit && final(stack)@
                    == old(stack)@)
            },
        },
{
    if stack.len() < duplicated_data_index {
        stack.clear();
        return Err(ExecutionError::StackUnderflow);
    }
    if stack.len() >= limit {
        return Err(ExecutionError::StackOverflow);
    }
    let duplicated_data = stack[stack.len() - duplicated_data_index];
    stack.push(duplicated_data);
    Ok(duplicated_data)
}

/// SWAPN: exchanges the top with the element at depth `index`.
pub fn swap_data(swap_data_index: usize, stack: &mut Vec<Word>, limit: usize) -> (r: Result<
    Word,
    ExecutionError,
>)
    requires
        old(stack)@.len() <= limit,
        swap_data_index >= 1,
        swap_data_index + 1 <= usize::MAX,
    ensures
        match r {
            Ok(v) => old(stack)@.len() >= swap_data_index + 1 && v == peek(
                old(stack)@,
                swap_data_index as int,
            ) && final(stack)@ == old(stack)@.update(
                old(stack)@.len() - 1,
                peek(old(stack)@, swap_data_index as int),
            ).update(old(stack)@.len() - 1 - swap_data_index, peek(old(stack)@, 0)),
            Err(e) => e == ExecutionError::StackUnderflow && old(stack)@.len() < swap_data_index
                + 1 && final(stack)@.len() == 0,
        },
{
    if stack.len() < swap_data_index + 1 {
        stack.clear();
        return Err(ExecutionError::StackUnderflow);
    }
    let top_index = stack.len() - 1;
    let deep_index = stack.len() - 1 - swap_data_index;
    let first_item = stack[top_index];
    let swap_item = stack[deep_index];
    stack[top_index] = swap_item;
    stack[deep_index] = first_item;
    Ok(swap_item)
}

/// JUMP: validates the target and moves the program counter onto it. A taken
/// jump always lands on a JUMPDEST byte outside any push immediate.
pub fn jump(counter: Word, code: &Vec<u8>, pc: &mut usize) -> (r: Result<Word, ExecutionError>)
    requires
        code@.len() + 33 <= usize::MAX,
    ensures
        match r {
            Ok(v) => v == counter && word_val(counter) < code@.len() && crate::opcode::decode(
                code@[word_val(counter) as int],
            ) == Some(crate::opcode::OpCode::Jumpdest) && (crate::jumpdest::code_bitmap_spec(
                code@,
            ) matches Some(bits) && bits[word_val(counter) as int]) && *final(pc) == word_val(
                counter,
            ),
            Err(e) => *final(pc) == *old(pc) && {
                ||| (e == ExecutionError::NotValidJumpDestination && (word_val(counter)
                    >= code@.len() || (crate::jumpdest::decode_at(code@, word_val(counter)) is Some
                    && crate::jumpdest::decode_at(code@, word_val(counter)) != Some(
                    crate::opcode::OpCode::Jumpdest,
                )) || (crate::jumpdest::code_bitmap_spec(code@) matches Some(bits) && word_val(
                    counter,
                ) < code@.len() && !bits[word_val(counter) as int])))
                ||| (e == ExecutionError::InvalidOpcode && word_val(counter) < code@.len() && (
                crate::jumpdest::decode_at(code@, word_val(counter)) is None
                    || crate::jumpdest::code_bitmap_spec(code@) is None))
            },
        },
{
    let is_valid = crate::jumpdest::valid_jumpdest(&counter, code)?;
    if is_valid {
        proof {
            crate::word::lemma_word_val_bound(counter);
        }
        let target = crate::word::word_to_usize(&counter);
        match target {
            Option::Some(t) => {
                *pc = t;
                Ok(counter)
            },
            Option::None => Err(ExecutionError::NotValidJumpDestination),
        }
    } else {
        Err(ExecutionError::NotValidJumpDestination)
    }
}

/// MSTORE: pops offset then value and writes the value's 32 big-endian bytes.
pub fn mstore(stack: &mut Vec<Word>, memory: &mut crate::memory::Memory) -> (r: Result<
    Word,
    ExecutionError,
>)
    requires
        old(memory).wf(),
    ensures
        final(memory).wf(),
        match r {
            Ok(v) => {
                &&& old(stack)@.len() >= 2
                &&& word_val(peek(old(stack)@, 0)) + 63 <= usize::MAX
                &&& v == peek(old(stack)@, 1)
                &&& final(stack)@ == old(stack)@.drop_last().drop_last()
                &&& final(memory)@.len() == crate::memory::grown_len(
                    old(memory)@.len(),
                    word_val(peek(old(stack)@, 0)),
                    32,
                )
                &&& final(memory)@.subrange(
                    word_val(peek(old(stack)@, 0)) as int,
                    word_val(peek(old(stack)@, 0)) as int + 32,
                ) == crate::word::word_be_bytes(v)
                &&& forall|i: int|
                    0 <= i < final(memory)@.len() && !(word_val(peek(old(stack)@, 0)) <= i
                        < word_val(peek(old(stack)@, 0)) + 32) ==> final(memory)@[i] == (if i
                        < old(memory)@.len() {
                        old(memory)@[i]
                    } else {
                        0u8
                    })
            },
            Err(e) => final(memory)@ == old(memory)@ && {
                ||| (e == ExecutionError::StackUnderflow && old(stack)@.len() < 2 && final(stack)@.len() == 0)
                ||| (e == ExecutionError::IntegerOverflow && old(stack)@.len() >= 2 && word_val(
                    peek(old(stack)@, 0),
                ) + 63 > usize::MAX && final(stack)@ == old(stack)@.drop_last().drop_last())
            },
        },
{
    let offset = pop(stack)?;
    let value = pop(stack)?;
    let off = match word_to_usize(&offset) {
        Option::Some(o) => o,
        Option::None => {
            return Err(ExecutionError::IntegerOverflow);
        },
    };
    if off > usize::MAX - 63 {
        return Err(ExecutionError::IntegerOverflow);
    }
    memory.save_word(off, value)
}

/// MLOAD: pops an offset and pushes the 32-byte big-endian word there.
pub fn mload(stack: &mut Vec<Word>, memory: &mut crate::memory::Memory, limit: usize) -> (r:
    Result<Word, ExecutionError>)
    requires
        old(memory).wf(),
        old(stack)@.len() <= limit,
    ensures
        final(memory).wf(),
        match r {
            Ok(v) => {
                &&& old(stack)@.len() >= 1
                &&& word_val(peek(old(stack)@, 0)) + 63 <= usize::MAX
                &&& final(memory)@.len() == crate::memory::grown_len(
                    old(memory)@.len(),
                    word_val(peek(old(stack)@, 0)),
                    32,
                )
                &&& forall|i: int|
                    0 <= i < final(memory)@.len() ==> final(memory)@[i] == (if i < old(memory)@.len() {
                        old(memory)@[i]
                    } else {
                        0u8
                    })
                &&& v == word_of_be(
                    final(memory)@.subrange(
                        word_val(peek(old(stack)@, 0)) as int,
                        word_val(peek(old(stack)@, 0)) as int + 32,
                    ),
                )
                &&& final(stack)@ == old(stack)@.drop_last().push(v)
            },
            Err(e) => final(memory)@ == old(memory)@ && {
                ||| (e == ExecutionError::StackUnderflow && old(stack)@.len() == 0 && final(stack)@.len() == 0)
                ||| (e == ExecutionError::IntegerOverflow && old(stack)@.len() >= 1 && word_val(
                    peek(old(stack)@, 0),
                ) + 63 > usize::MAX && final(stack)@ == old(stack)@.drop_last())
            },
        },
{
    let offset = pop(stack)?;
    let off = match word_to_usize(&offset) {
        Option::Some(o) => o,
        Option::None => {
            return Err(ExecutionError::IntegerOverflow);
        },
    };
    if off > usize::MAX - 63 {
        return Err(ExecutionError::IntegerOverflow);
    }
    let value = memory.get_word(off)?;
    push(stack, value, limit)?;
    Ok(value)
}

/// MSTORE8: pops offset then value and writes the value's low byte.
pub fn mstore8(stack: &mut Vec<Word>, memory: &mut crate::memory::Memory) -> (r: Result<
    Word,
    ExecutionError,
>)
    requires
        old(memory).wf(),
    ensures
        final(memory).wf(),
        match r {
            Ok(v) => {
                &&& old(stack)@.len() >= 2
                &&& word_val(peek(old(stack)@, 0)) + 32 <= usize::MAX
                &&& v == peek(old(stack)@, 1)
                &&& final(stack)@ == old(stack)@.drop_last().drop_last()
                &&& final(memory)@.len() == crate::memory::grown_len(
                    old(memory)@.len(),
                    word_val(peek(old(stack)@, 0)),
                    1,
                )
                &&& final(memory)@[word_val(peek(old(stack)@, 0)) as int] == word_byte(v, 0)
                &&& forall|i: int|
                    0 <= i < final(memory)@.len() && i != word_val(peek(old(stack)@, 0))
                        ==> final(memory)@[i] == (if i < old(memory)@.len() {
                        old(memory)@[i]
                    } else {
                        0u8
                    })
            },
            Err(e) => final(memory)@ == old(memory)@ && {
                ||| (e == ExecutionError::StackUnderflow && old(stack)@.len() < 2 && final(stack)@.len() == 0)
                ||| (e == ExecutionError::IntegerOverflow && old(stack)@.len() >= 2 && word_val(
                    peek(old(stack)@, 0),
                ) + 32 > usize::MAX && final(stack)@ == old(stack)@.drop_last().drop_last())
            },
        },
{
    let offset = pop(stack)?;
    let value = pop(stack)?;
    let off = match word_to_usize(&offset) {
        Option::Some(o) => o,
        Option::None => {
            return Err(ExecutionError::IntegerOverflow);
        },
    };
    if off > usize::MAX - 32 {
        return Err(ExecutionError::IntegerOverflow);
    }
    let low = word_get_byte(&value, 0);
    let _ = memory.save_byte(off, low)?;
    Ok(value)
}

/// MSIZE: pushes the materialised memory length.
pub fn msize(stack: &mut Vec<Word>, memory: &mut crate::memory::Memory, limit: usize) -> (r:
    Result<Word, ExecutionError>)
    ensures
        final(memory)@ == old(memory)@,
        match r {
            Ok(v) => old(stack)@.len() < limit && word_val(v) == old(memory)@.len() && final(stack)@ == old(stack)@.push(v),
            Err(e) => e == ExecutionError::StackOverflow && old(stack)@.len() >= limit && final(stack)@ == old(stack)@,
        },
{
    let size = from_u64(memory.store.len() as u64);
    push(stack, size, limit)?;
    Ok(size)
}

/// SHA3: pops offset then size, reads that memory range (growing it) and
/// pushes the big-endian word of its Keccak-256 digest.
pub fn sha_3(stack: &mut Vec<Word>, memory: &mut crate::memory::Memory, limit: usize) -> (r:
    Result<Word, ExecutionError>)
    requires
        old(memory).wf(),
        old(stack)@.len() <= limit,
    ensures
        final(memory).wf(),
        match r {
            Ok(v) => {
                &&& old(stack)@.len() >= 2
                &&& word_val(peek(old(stack)@, 0)) + word_val(peek(old(stack)@, 1)) + 31
                    <= usize::MAX
                &&& (word_val(peek(old(stack)@, 1)) == 0 ==> final(memory)@ == old(memory)@)
                &&& (word_val(peek(old(stack)@, 1)) > 0 ==> final(memory)@.len()
                    == crate::memory::grown_len(
                    old(memory)@.len(),
                    word_val(peek(old(stack)@, 0)),
                    word_val(peek(old(stack)@, 1)),
                ))
                &&& forall|i: int|
                    0 <= i < final(memory)@.len() ==> final(memory)@[i] == (if i < old(memory)@.len() {
                        old(memory)@[i]
                    } else {
                        0u8
                    })
                &&& v == word_of_be(
                    crate::keccak::keccak_of(
                        if word_val(peek(old(stack)@, 1)) == 0 {
                            Seq::<u8>::empty()
                        } else {
                            final(memory)@.subrange(
                                word_val(peek(old(stack)@, 0)) as int,
                                (word_val(peek(old(stack)@, 0)) + word_val(
                                    peek(old(stack)@, 1),
                                )) as int,
                            )
                        },
                    ),
                )
                &&& final(stack)@ == old(stack)@.drop_last().drop_last().push(v)
            },
            Err(e) => final(memory)@ == old(memory)@ && {
                ||| (e == ExecutionError::StackUnderflow && old(stack)@.len() < 2 && final(stack)@.len() == 0)
                ||| (e == ExecutionError::IntegerOverflow && old(stack)@.len() >= 2 && word_val(
                    peek(old(stack)@, 0),
                ) + word_val(peek(old(stack)@, 1)) + 31 > usize::MAX && final(stack)@ == old(stack)@.drop_last().drop_last())
            },
        },
{
    let offset = pop(stack)?;
    let size = pop(stack)?;
    let off = match word_to_usize(&offset) {
        Option::Some(o) => o,
        Option::None => {
            return Err(ExecutionError::IntegerOverflow);
        },
    };
    let sz = match word_to_usize(&size) {
        Option::Some(s) => s,
        Option::None => {
            return Err(ExecutionError::IntegerOverflow);
        },
    };
    if sz > usize::MAX - 31 || off > usize::MAX - 31 - sz {
        return Err(ExecutionError::IntegerOverflow);
    }
    let value = memory.get_bytes(off, sz)?;
    let digest = crate::keccak::keccak256(&value);
    let result = word_from_be_bytes(&digest);
    push(stack, result, limit)?;
    Ok(result)
}

/// The Keccak-256 digest as bytes; every input hashes, the empty one too.
pub fn sha3_hash(data: &Vec<u8>) -> (r: Vec<u8>)
    ensures
        r@ == crate::keccak::keccak_of(data@),
        r@.len() == 32,
{
    crate::keccak::keccak256(data)
}

/// Reads a push immediate of `push_data_size` bytes at `start`.
pub fn push_data(push_data_size: usize, code: &Vec<u8>, start: usize) -> (r: Result<
    Word,
    ExecutionError,
>)
    requires
        start <= code@.len(),
        push_data_size <= 32,
    ensures
        match r {
            Ok(v) => code@.len() - start >= push_data_size && v == word_of_be(
                code@.subrange(start as int, start + push_data_size),
            ),
            Err(e) => e == ExecutionError::InsufficientCodeItems && code@.len() - start
                < push_data_size,
        },
{
    if code.len() - start < push_data_size {
        Err(ExecutionError::InsufficientCodeItems)
    } else {
        let mut data: Vec<u8> = Vec::new();
        for k in 0..push_data_size
            invariant
                start + push_data_size <= code@.len(),
                code@.len() <= usize::MAX,
                push_data_size <= 32,
                data@.len() == k,
                forall|j: int| 0 <= j < k ==> data@[j] == code@[start + j],
            decreases push_data_size - k,
        {
            data.push(code[start + k]);
        }
        proof {
            assert(data@ =~= code@.subrange(start as int, start + push_data_size));
        }
        Ok(word_from_be_bytes(&data))
    }
}

/// Pushes the big-endian word a byte string of at most 32 bytes denotes.
pub fn push_from_big_endian(stack: &mut Vec<Word>, slice: &Vec<u8>, limit: usize) -> (r: Result<
    Word,
    ExecutionError,
>)
    requires
        slice@.len() <= 32,
    ensures
        match r {
            Ok(v) => old(stack)@.len() < limit && v == word_of_be(slice@) && final(stack)@ == old(stack)@.push(v),
            Err(e) => e == ExecutionError::StackOverflow && old(stack)@.len() >= limit && final(stack)@ == old(stack)@,
        },
{
    let value = word_from_be_bytes(slice);
    push(stack, value, limit)?;
    Ok(value)
}

/// BALANCE: pops an address and pushes its balance.
pub fn balance(stack: &mut Vec<Word>, state: &crate::state_data::State, limit: usize) -> (r:
    Result<Word, ExecutionError>)
    requires
        old(stack)@.len() <= limit,
    ensures
        match r {
            Ok(v) => old(stack)@.len() >= 1 && v == crate::state_data::state_balance(
                state@,
                peek(old(stack)@, 0),
            ) && final(stack)@ == old(stack)@.drop_last().push(v),
            Err(e) => e == ExecutionError::StackUnderflow && old(stack)@.len() == 0 && final(stack)@.len() == 0,
        },
{
    let address = pop(stack)?;
    let account_balance = state.get_balance(address);
    push(stack, account_balance, limit)?;
    Ok(account_balance)
}

/// The 32-byte big-endian word found at `index` in a byte string, reading
/// zeros beyond its end.
pub open spec fn data_word_at(data: Seq<u8>, index: nat) -> Word {
    word_of_be(
        Seq::new(
            32,
            |k: int|
                if index + k < data.len() {
                    data[index + k]
                } else {
                    0u8
                },
        ),
    )
}

/// CALLDATALOAD: pops an offset and pushes 32 calldata bytes from there,
/// zero-padded past the end.
pub fn calldataload(stack: &mut Vec<Word>, data: &Vec<u8>, limit: usize) -> (r: Result<
    Word,
    ExecutionError,
>)
    requires
        old(stack)@.len() <= limit,
    ensures
        match r {
            Ok(v) => old(stack)@.len() >= 1 && v == data_word_at(
                data@,
                word_val(peek(old(stack)@, 0)),
            ) && final(stack)@ == old(stack)@.drop_last().push(v),
            Err(e) => e == ExecutionError::StackUnderflow && old(stack)@.len() == 0 && final(stack)@.len() == 0,
        },
{
    let index_word = pop(stack)?;
    let mut copied: Vec<u8> = Vec::new();
    let index = word_to_usize(&index_word);
    let data_len = data.len();
    for k in 0..32usize
        invariant
            copied@.len() == k,
            match index {
                Option::Some(u) => word_val(index_word) == u,
                Option::None => word_val(index_word) > usize::MAX,
            },
            data_len == data@.len(),
            forall|j: int|
                0 <= j < k ==> copied@[j] == (if word_val(index_word) + j < data@.len() {
                    data@[word_val(index_word) + j]
                } else {
                    0u8
                }),
        decreases 32 - k,
    {
        match index {
            Option::Some(u) => {
                if u < data_len && k < data_len - u {
                    copied.push(data[u + k]);
                } else {
                    copied.push(0u8);
                }
            },
            Option::None => {
                copied.push(0u8);
            },
        }
    }
    let value = word_from_be_bytes(&copied);
    proof {
        assert(copied@ =~= Seq::new(
            32,
            |k: int|
                if word_val(index_word) + k < data@.len() {
                    data@[word_val(index_word) + k]
                } else {
                    0u8
                },
        ));
    }
    push(stack, value, limit)?;
    Ok(value)
}

/// `size` bytes of a byte string from `offset`, reading zeros past its end.
pub open spec fn data_slice(data: Seq<u8>, offset: nat, size: nat) -> Seq<u8> {
    Seq::new(
        size,
        |k: int|
            if offset + k < data.len() {
                data[offset + k]
            } else {
                0u8
            },
    )
}

/// Data-copy template: pops destination, source offset and size, and writes
/// `size` source bytes into memory, zero-padded past the source's end.
pub fn copy_data_to_memory(
    stack: &mut Vec<Word>,
    memory: &mut crate::memory::Memory,
    data: &Vec<u8>,
) -> (r: Result<(), ExecutionError>)
    requires
        old(memory).wf(),
    ensures
        final(memory).wf(),
        match r {
            Ok(()) => {
                &&& old(stack)@.len() >= 3
                &&& word_val(peek(old(stack)@, 0)) + word_val(peek(old(stack)@, 2)) + 31
                    <= usize::MAX
                &&& final(stack)@ == old(stack)@.drop_last().drop_last().drop_last()
                &&& (word_val(peek(old(stack)@, 2)) == 0 ==> final(memory)@ == old(memory)@)
                &&& (word_val(peek(old(stack)@, 2)) > 0 ==> {
                    &&& final(memory)@.len() == crate::memory::grown_len(
                        old(memory)@.len(),
                        word_val(peek(old(stack)@, 0)),
                        word_val(peek(old(stack)@, 2)),
                    )
                    &&& final(memory)@.subrange(
                        word_val(peek(old(stack)@, 0)) as int,
                        (word_val(peek(old(stack)@, 0)) + word_val(
                            peek(old(stack)@, 2),
                        )) as int,
                    ) == data_slice(
                        data@,
                        word_val(peek(old(stack)@, 1)),
                        word_val(peek(old(stack)@, 2)),
                    )
                    &&& forall|i: int|
                        0 <= i < final(memory)@.len() && !(word_val(peek(old(stack)@, 0)) <= i
                            < word_val(peek(old(stack)@, 0)) + word_val(peek(old(stack)@, 2)))
                            ==> final(memory)@[i] == (if i < old(memory)@.len() {
                            old(memory)@[i]
                        } else {
                            0u8
                        })
                })
            },
            Err(e) => final(memory)@ == old(memory)@ && {
                ||| (e == ExecutionError::StackUnderflow && old(stack)@.len() < 3 && final(stack)@.len() == 0)
                ||| (e == ExecutionError::IntegerOverflow && old(stack)@.len() >= 3 && word_val(
                    peek(old(stack)@, 0),
                ) + word_val(peek(old(stack)@, 2)) + 31 > usize::MAX && final(stack)@ == old(stack)@.drop_last().drop_last().drop_last())
            },
        },
{
    let dest_word = pop(stack)?;
    let offset_word = pop(stack)?;
    let size_word = pop(stack)?;
    let dest = match word_to_usize(&dest_word) {
        Option::Some(o) => o,
        Option::None => {
            return Err(ExecutionError::IntegerOverflow);
        },
    };
    let sz = match word_to_usize(&size_word) {
        Option::Some(s) => s,
        Option::None => {
            return Err(ExecutionError::IntegerOverflow);
        },
    };
    if sz > usize::MAX - 31 || dest > usize::MAX - 31 - sz {
        return Err(ExecutionError::IntegerOverflow);
    }
    let offset = word_to_usize(&offset_word);
    let data_len = data.len();
    let mut copied: Vec<u8> = Vec::new();
    for k in 0..sz
        invariant
            copied@.len() == k,
            match offset {
                Option::Some(u) => word_val(offset_word) == u,
                Option::None => word_val(offset_word) > usize::MAX,
            },
            data_len == data@.len(),
            forall|j: int|
                0 <= j < k ==> copied@[j] == (if word_val(offset_word) + j < data@.len() {
                    data@[word_val(offset_word) + j]
                } else {
                    0u8
                }),
        decreases sz - k,
    {
        match offset {
            Option::Some(u) => {
                if u < data_len && k < data_len - u {
                    copied.push(data[u + k]);
                } else {
                    copied.push(0u8);
                }
            },
            Option::None => {
                copied.push(0u8);
            },
        }
    }
    proof {
        assert(copied@ =~= data_slice(
            data@,
            word_val(offset_word),
            word_val(size_word),
        ));
    }
    memory.save_bytes(dest, &copied)?;
    Ok(())
}

/// Size template: pushes the length of a byte string.
pub fn push_data_size(stack: &mut Vec<Word>, data: &Vec<u8>, limit: usize) -> (r: Result<
    Word,
    ExecutionError,
>)
    ensures
        match r {
            Ok(v) => old(stack)@.len() < limit && word_val(v) == data@.len() && final(stack)@
                == old(stack)@.push(v),
            Err(e) => e == ExecutionError::StackOverflow && old(stack)@.len() >= limit && final(stack)@ == old(stack)@,
        },
{
    let size = from_u64(data.len() as u64);
    push(stack, size, limit)?;
    Ok(size)
}

/// EXTCODESIZE: pops an address and pushes the length of its code.
pub fn extcodesize(stack: &mut Vec<Word>, state: &crate::state_data::State, limit: usize) -> (r:
    Result<Word, ExecutionError>)
    requires
        old(stack)@.len() <= limit,
    ensures
        match r {
            Ok(v) => old(stack)@.len() >= 1 && word_val(v) == crate::state_data::state_code(
                state@,
                peek(old(stack)@, 0),
            ).len() && final(stack)@ == old(stack)@.drop_last().push(v),
            Err(e) => e == ExecutionError::StackUnderflow && old(stack)@.len() == 0 && final(stack)@.len() == 0,
        },
{
    let address = pop(stack)?;
    let code = state.get_code(address);
    let size = from_u64(code.len() as u64);
    push(stack, size, limit)?;
    Ok(size)
}

/// EXTCODECOPY: pops an address and copies its code into memory.
pub fn extcodecopy(
    stack: &mut Vec<Word>,
    state: &crate::state_data::State,
    memory: &mut crate::memory::Memory,
) -> (r: Result<(), ExecutionError>)
    requires
        old(memory).wf(),
    ensures
        final(memory).wf(),
        match r {
            Ok(()) => {
                &&& old(stack)@.len() >= 4
                &&& word_val(peek(old(stack)@, 1)) + word_val(peek(old(stack)@, 3)) + 31
                    <= usize::MAX
                &&& final(stack)@ == old(stack)@.drop_last().drop_last().drop_last().drop_last()
                &&& (word_val(peek(old(stack)@, 3)) == 0 ==> final(memory)@ == old(memory)@)
                &&& (word_val(peek(old(stack)@, 3)) > 0 ==> final(memory)@.subrange(
                    word_val(peek(old(stack)@, 1)) as int,
                    (word_val(peek(old(stack)@, 1)) + word_val(
                        peek(old(stack)@, 3),
                    )) as int,
                ) == data_slice(
                    crate::state_data::state_code(state@, peek(old(stack)@, 0)),
                    word_val(peek(old(stack)@, 2)),
                    word_val(peek(old(stack)@, 3)),
                ))
            },
            Err(e) => final(memory)@ == old(memory)@ && {
                ||| (e == ExecutionError::StackUnderflow && old(stack)@.len() < 4 && final(stack)@.len() == 0)
                ||| (e == ExecutionError::IntegerOverflow && old(stack)@.len() >= 4 && word_val(
                    peek(old(stack)@, 1),
                ) + word_val(peek(old(stack)@, 3)) + 31 > usize::MAX && final(stack)@ == old(stack)@.drop_last().drop_last().drop_last().drop_last())
            },
        },
{
    let address = pop(stack)?;
    let code = state.get_code(address);
    copy_data_to_memory(stack, memory, &code)
}

/// EXTCODEHASH: pops an address and pushes the Keccak-256 digest of its
/// code; absent accounts hash their empty code.
pub fn extcodehash(stack: &mut Vec<Word>, state: &crate::state_data::State, limit: usize) -> (r:
    Result<Word, ExecutionError>)
    requires
        old(stack)@.len() <= limit,
    ensures
        match r {
            Ok(v) => old(stack)@.len() >= 1 && v == word_of_be(
                crate::keccak::keccak_of(
                    crate::state_data::state_code(state@, peek(old(stack)@, 0)),
                ),
            ) && final(stack)@ == old(stack)@.drop_last().push(v),
            Err(e) => e == ExecutionError::StackUnderflow && old(stack)@.len() == 0 && final(stack)@.len() == 0,
        },
{
    let address = pop(stack)?;
    let code = state.get_code(address);
    let digest = sha3_hash(&code);
    let result = word_from_be_bytes(&digest);
    push(stack, result, limit)?;
    Ok(result)
}

/// SELFBALANCE: pushes the executing account's balance.
pub fn selfbalance(
    stack: &mut Vec<Word>,
    state: &crate::state_data::State,
    address: &Vec<u8>,
    limit: usize,
) -> (r: Result<Word, ExecutionError>)
    requires
        address@.len() <= 32,
    ensures
        match r {
            Ok(v) => old(stack)@.len() < limit && v == crate::state_data::state_balance(
                state@,
                word_of_be(address@),
            ) && final(stack)@ == old(stack)@.push(v),
            Err(e) => e == ExecutionError::StackOverflow && old(stack)@.len() >= limit && final(stack)@ == old(stack)@,
        },
{
    let account_balance = state.get_balance(word_from_be_bytes(address));
    push(stack, account_balance, limit)?;
    Ok(account_balance)
}

/// SSTORE: pops key then value and writes the executing account's slot;
/// fails in a read-only frame.
pub fn sstore(
    stack: &mut Vec<Word>,
    storage: &mut crate::storage::Storage,
    address: &Vec<u8>,
    read_only: bool,
) -> (r: Result<Word, ExecutionError>)
    requires
        address@.len() <= 32,
    ensures
        match r {
            Ok(v) => {
                &&& !read_only
                &&& old(stack)@.len() >= 2
                &&& v == peek(old(stack)@, 1)
                &&& final(stack)@ == old(stack)@.drop_last().drop_last()
                &&& forall|a: Word, k: Word|
                    crate::storage::storage_lookup(final(storage)@, a, k) == if a == word_of_be(
                        address@,
                    ) && k == peek(old(stack)@, 0) {
                        peek(old(stack)@, 1)
                    } else {
                        crate::storage::storage_lookup(old(storage)@, a, k)
                    }
            },
            Err(e) => final(storage)@ == old(storage)@ && {
                ||| (e == ExecutionError::ReadOnly && read_only && final(stack)@ == old(stack)@)
                ||| (e == ExecutionError::StackUnderflow && !read_only && old(stack)@.len() < 2
                    && final(stack)@.len() == 0)
            },
        },
{
    if read_only {
        return Err(ExecutionError::ReadOnly);
    }
    let key = pop(stack)?;
    let value = pop(stack)?;
    storage.set_word(word_from_be_bytes(address), key, value);
    Ok(value)
}

/// SLOAD: pops a key and pushes the executing account's slot value.
pub fn sload(
    stack: &mut Vec<Word>,
    storage: &crate::storage::Storage,
    address: &Vec<u8>,
    limit: usize,
) -> (r: Result<Word, ExecutionError>)
    requires
        address@.len() <= 32,
        old(stack)@.len() <= limit,
    ensures
        match r {
            Ok(v) => old(stack)@.len() >= 1 && v == crate::storage::storage_lookup(
                storage@,
                word_of_be(address@),
                peek(old(stack)@, 0),
            ) && final(stack)@ == old(stack)@.drop_last().push(v),
            Err(e) => e == ExecutionError::StackUnderflow && old(stack)@.len() == 0 && final(stack)@.len() == 0,
        },
{
    let key = pop(stack)?;
    let value = storage.load_word(word_from_be_bytes(address), key);
    push(stack, value, limit)?;
    Ok(value)
}

/// Appends one record to the log buffer.
pub fn add_log(log: crate::logs::Log, logs: &mut Vec<crate::logs::Log>) -> (r: Result<
    (),
    ExecutionError,
>)
    ensures
        r is Ok,
        crate::logs::logs_view(final(logs)@) == crate::logs::logs_view(old(logs)@).push(log@),
{
    let ghost prev = crate::logs::logs_view(logs@);
    let ghost entry = log@;
    logs.push(log);
    proof {
        assert(crate::logs::logs_view(final(logs)@) =~= prev.push(entry));
    }
    Ok(())
}

/// LOGN: pops offset, size and `x` topics and appends one log record with
/// that memory range as data; fails in a read-only frame.
pub fn logx(
    x: usize,
    stack: &mut Vec<Word>,
    memory: &mut crate::memory::Memory,
    address: &Vec<u8>,
    logs: &mut Vec<crate::logs::Log>,
    read_only: bool,
) -> (r: Result<(), ExecutionError>)
    requires
        old(memory).wf(),
        address@.len() <= 32,
        x <= 4,
    ensures
        final(memory).wf(),
        match r {
            Ok(()) => {
                &&& !read_only
                &&& old(stack)@.len() >= 2 + x
                &&& word_val(peek(old(stack)@, 0)) + word_val(peek(old(stack)@, 1)) + 31
                    <= usize::MAX
                &&& final(stack)@.len() == old(stack)@.len() - 2 - x
                &&& final(stack)@ == old(stack)@.take(old(stack)@.len() - 2 - x)
                &&& (word_val(peek(old(stack)@, 1)) == 0 ==> final(memory)@ == old(memory)@)
                &&& (word_val(peek(old(stack)@, 1)) > 0 ==> final(memory)@.len()
                    == crate::memory::grown_len(
                    old(memory)@.len(),
                    word_val(peek(old(stack)@, 0)),
                    word_val(peek(old(stack)@, 1)),
                ))
                &&& forall|i: int|
                    0 <= i < final(memory)@.len() ==> final(memory)@[i] == (if i < old(memory)@.len() {
                        old(memory)@[i]
                    } else {
                        0u8
                    })
                &&& crate::logs::logs_view(final(logs)@) == crate::logs::logs_view(
                    old(logs)@,
                ).push(
                    crate::logs::LogView {
                        address: word_of_be(address@),
                        data: if word_val(peek(old(stack)@, 1)) == 0 {
                            Seq::<u8>::empty()
                        } else {
                            final(memory)@.subrange(
                                word_val(peek(old(stack)@, 0)) as int,
                                (word_val(peek(old(stack)@, 0)) + word_val(
                                    peek(old(stack)@, 1),
                                )) as int,
                            )
                        },
                        topics: Seq::new(x as nat, |t: int| peek(old(stack)@, 2 + t)),
                    },
                )
            },
            Err(e) => final(memory)@ == old(memory)@ && final(logs)@ == old(logs)@ && {
                ||| (e == ExecutionError::ReadOnly && read_only && final(stack)@ == old(stack)@)
                ||| (e == ExecutionError::StackUnderflow && !read_only && old(stack)@.len() < 2
                    + x && final(stack)@.len() == 0)
                ||| (e == ExecutionError::IntegerOverflow && !read_only && old(stack)@.len() >= 2
                    + x && word_val(peek(old(stack)@, 0)) + word_val(peek(old(stack)@, 1)) + 31
                    > usize::MAX && final(stack)@ == old(stack)@.take(
                    old(stack)@.len() - 2 - x,
                ))
            },
        },
{
    if read_only {
        return Err(ExecutionError::ReadOnly);
    }
    let offset = pop(stack)?;
    let size = pop(stack)?;
    let mut topics: Vec<Word> = Vec::new();
    proof {
        assert(stack@ =~= old(stack)@.take(old(stack)@.len() - 2));
    }
    for t in 0..x
        invariant
            x <= 4,
            t <= x,
            !read_only,
            old(stack)@.len() >= 2 + t,
            topics@.len() == t,
            stack@ == old(stack)@.take(old(stack)@.len() - 2 - t),
            forall|j: int| 0 <= j < t ==> topics@[j] == peek(old(stack)@, 2 + j),
            memory@ == old(memory)@,
            old(memory).wf(),
            logs@ == old(logs)@,
        decreases x - t,
    {
        proof {
            if stack@.len() > 0 {
                assert(stack@.last() == old(stack)@[old(stack)@.len() - 3 - t]);
                assert(stack@.drop_last() =~= old(stack)@.take(old(stack)@.len() - 2 - (t + 1)));
            }
        }
        let topic = pop(stack)?;
        topics.push(topic);
    }
    let off = match word_to_usize(&offset) {
        Option::Some(o) => o,
        Option::None => {
            return Err(ExecutionError::IntegerOverflow);
        },
    };
    let sz = match word_to_usize(&size) {
        Option::Some(s) => s,
        Option::None => {
            return Err(ExecutionError::IntegerOverflow);
        },
    };
    if sz > usize::MAX - 31 || off > usize::MAX - 31 - sz {
        return Err(ExecutionError::IntegerOverflow);
    }
    let data = memory.get_bytes(off, sz)?;
    let log = crate::logs::Log::new(word_from_be_bytes(address), data, topics);
    proof {
        assert(log@.topics =~= Seq::new(x as nat, |t: int| peek(old(stack)@, 2 + t)));
    }
    add_log(log, logs)?;
    Ok(())
}

/// RETURN: pops offset then size and records that memory range as the
/// frame's return blob.
pub fn return_func(
    stack: &mut Vec<Word>,
    memory: &mut crate::memory::Memory,
    return_data: &mut Vec<u8>,
) -> (r: Result<(), ExecutionError>)
    requires
        old(memory).wf(),
    ensures
        final(memory).wf(),
        match r {
            Ok(()) => {
                &&& old(stack)@.len() >= 2
                &&& word_val(peek(old(stack)@, 0)) + word_val(peek(old(stack)@, 1)) + 31
                    <= usize::MAX
                &&& final(stack)@ == old(stack)@.drop_last().drop_last()
                &&& (word_val(peek(old(stack)@, 1)) == 0 ==> final(memory)@ == old(memory)@)
                &&& (word_val(peek(old(stack)@, 1)) > 0 ==> final(memory)@.len()
                    == crate::memory::grown_len(
                    old(memory)@.len(),
                    word_val(peek(old(stack)@, 0)),
                    word_val(peek(old(stack)@, 1)),
                ))
                &&& forall|i: int|
                    0 <= i < final(memory)@.len() ==> final(memory)@[i] == (if i < old(memory)@.len() {
                        old(memory)@[i]
                    } else {
                        0u8
                    })
                &&& final(return_data)@ == (if word_val(peek(old(stack)@, 1)) == 0 {
                    Seq::<u8>::empty()
                } else {
                    final(memory)@.subrange(
                        word_val(peek(old(stack)@, 0)) as int,
                        (word_val(peek(old(stack)@, 0)) + word_val(peek(old(stack)@, 1))) as int,
                    )
                })
            },
            Err(e) => final(memory)@ == old(memory)@ && final(return_data)@ == old(return_data)@ && {
                ||| (e == ExecutionError::StackUnderflow && old(stack)@.len() < 2 && final(stack)@.len() == 0)
                ||| (e == ExecutionError::IntegerOverflow && old(stack)@.len() >= 2 && word_val(
                    peek(old(stack)@, 0),
                ) + word_val(peek(old(stack)@, 1)) + 31 > usize::MAX && final(stack)@ == old(stack)@.drop_last().drop_last())
            },
        },
{
    let offset = pop(stack)?;
    let size = pop(stack)?;
    let off = match word_to_usize(&offset) {
        Option::Some(o) => o,
        Option::None => {
            return Err(ExecutionError::IntegerOverflow);
        },
    };
    let sz = match word_to_usize(&size) {
        Option::Some(s) => s,
        Option::None => {
            return Err(ExecutionError::IntegerOverflow);
        },
    };
    if sz > usize::MAX - 31 || off > usize::MAX - 31 - sz {
        return Err(ExecutionError::IntegerOverflow);
    }
    let data = memory.get_bytes(off, sz)?;
    *return_data = data;
    Ok(())
}

/// REVERT: records the return blob like RETURN and clears the stack.
pub fn revert(
    stack: &mut Vec<Word>,
    memory: &mut crate::memory::Memory,
    return_data: &mut Vec<u8>,
) -> (r: Result<(), ExecutionError>)
    requires
        old(memory).wf(),
    ensures
        final(memory).wf(),
        match r {
            Ok(()) => {
                &&& old(stack)@.len() >= 2
                &&& word_val(peek(old(stack)@, 0)) + word_val(peek(old(stack)@, 1)) + 31
                    <= usize::MAX
                &&& final(stack)@.len() == 0
                &&& (word_val(peek(old(stack)@, 1)) == 0 ==> final(memory)@ == old(memory)@)
                &&& (word_val(peek(old(stack)@, 1)) > 0 ==> final(memory)@.len()
                    == crate::memory::grown_len(
                    old(memory)@.len(),
                    word_val(peek(old(stack)@, 0)),
                    word_val(peek(old(stack)@, 1)),
                ))
                &&& forall|i: int|
                    0 <= i < final(memory)@.len() ==> final(memory)@[i] == (if i < old(
                        memory,
                    )@.len() {
                        old(memory)@[i]
                    } else {
                        0u8
                    })
                &&& final(return_data)@ == (if word_val(peek(old(stack)@, 1)) == 0 {
                    Seq::<u8>::empty()
                } else {
                    final(memory)@.subrange(
                        word_val(peek(old(stack)@, 0)) as int,
                        (word_val(peek(old(stack)@, 0)) + word_val(peek(old(stack)@, 1))) as int,
                    )
                })
            },
            Err(e) => final(memory)@ == old(memory)@ && final(return_data)@ == old(return_data)@ && {
                ||| (e == ExecutionError::StackUnderflow && old(stack)@.len() < 2 && final(stack)@.len() == 0)
                ||| (e == ExecutionError::IntegerOverflow && old(stack)@.len() >= 2 && word_val(
                    peek(old(stack)@, 0),
                ) + word_val(peek(old(stack)@, 1)) + 31 > usize::MAX && final(stack)@ == old(stack)@.drop_last().drop_last())
            },
        },
{
    return_func(stack, memory, return_data)?;
    stack.clear();
    Ok(())
}

/// The address CREATE derives: the 20-byte tail of the Keccak-256 digest of
/// the sender bytes followed by the big-endian nonce.
pub open spec fn derived_address(sender: Seq<u8>, nonce: u64) -> Word {
    word_of_be(
        crate::keccak::keccak_of(sender + crate::bytes::u64_be_bytes(nonce)).subrange(12, 32),
    )
}

/// Derives a contract address from the creator's address bytes and nonce.
pub fn calculate_address(sender_address: &Vec<u8>, nonce: u64) -> (r: Word)
    ensures
        r == derived_address(sender_address@, nonce),
{
    let mut buf = crate::bytes::clone_bytes(sender_address);
    let mut nonce_bytes = crate::bytes::u64_to_be_bytes(nonce);
    buf.append(&mut nonce_bytes);
    proof {
        assert(buf@ =~= sender_address@ + crate::bytes::u64_be_bytes(nonce));
    }
    let digest = crate::keccak::keccak256(&buf);
    let mut tail: Vec<u8> = Vec::new();
    for i in 0..20usize
        invariant
            digest@.len() == 32,
            tail@.len() == i,
            forall|k: int| 0 <= k < i ==> tail@[k] == digest@[12 + k],
        decreases 20 - i,
    {
        tail.push(digest[12 + i]);
    }
    proof {
        assert(tail@ =~= digest@.subrange(12, 32));
    }
    word_from_be_bytes(&tail)
}

/// SELFDESTRUCT: pops a destination, moves the executing account's whole
/// balance there and deletes the account; fails in a read-only frame.
pub fn selfdestruct(
    stack: &mut Vec<Word>,
    state: &mut crate::state_data::State,
    tx_to: &Vec<u8>,
    read_only: bool,
) -> (r: Result<(), ExecutionError>)
    requires
        tx_to@.len() <= 32,
    ensures
        match r {
            Ok(()) => {
                &&& !read_only
                &&& old(stack)@.len() >= 1
                &&& final(stack)@ == old(stack)@.drop_last()
                &&& forall|a2: Word|
                    word_val(
                        #[trigger] crate::state_data::state_balance(final(state)@, a2),
                    ) == (if a2 == word_of_be(tx_to@) {
                        0nat
                    } else if a2 == peek(old(stack)@, 0) {
                        (word_val(
                            crate::state_data::state_balance(old(state)@, peek(old(stack)@, 0)),
                        ) + word_val(
                            crate::state_data::state_balance(old(state)@, word_of_be(tx_to@)),
                        )) % pow256()
                    } else {
                        word_val(crate::state_data::state_balance(old(state)@, a2))
                    })
                &&& forall|a2: Word| #[trigger]
                    crate::state_data::state_code(final(state)@, a2) == (if a2 == word_of_be(
                        tx_to@,
                    ) {
                        Seq::<u8>::empty()
                    } else {
                        crate::state_data::state_code(old(state)@, a2)
                    })
                &&& forall|a2: Word| #[trigger]
                    crate::state_data::state_nonce(final(state)@, a2) == (if a2 == word_of_be(
                        tx_to@,
                    ) {
                        0u64
                    } else {
                        crate::state_data::state_nonce(old(state)@, a2)
                    })
                &&& forall|a2: Word| #[trigger]
                    crate::state_data::state_contains(final(state)@, a2) == (if a2 == word_of_be(
                        tx_to@,
                    ) {
                        false
                    } else {
                        crate::state_data::state_contains(old(state)@, a2) || a2 == peek(
                            old(stack)@,
                            0,
                        )
                    })
            },
            Err(e) => final(state)@ == old(state)@ && {
                ||| (e == ExecutionError::ReadOnly && read_only && final(stack)@ == old(stack)@)
                ||| (e == ExecutionError::StackUnderflow && !read_only && old(stack)@.len() == 0
                    && final(stack)@.len() == 0)
            },
        },
{
    if read_only {
        return Err(ExecutionError::ReadOnly);
    }
    let dest_address = pop(stack)?;
    let src_address = word_from_be_bytes(tx_to);
    let account_balance = state.get_balance(src_address);
    state.transfer_balance(account_balance, dest_address);
    let ghost mid = state@;
    state.delete_account(src_address);
    proof {
        assert forall|a2: Word|
            word_val(#[trigger] crate::state_data::state_balance(final(state)@, a2)) == (if a2
                == word_of_be(tx_to@) {
                0nat
            } else if a2 == peek(old(stack)@, 0) {
                (word_val(crate::state_data::state_balance(old(state)@, peek(old(stack)@, 0)))
                    + word_val(
                    crate::state_data::state_balance(old(state)@, word_of_be(tx_to@)),
                )) % pow256()
            } else {
                word_val(crate::state_data::state_balance(old(state)@, a2))
            }) by {
            crate::state_data::lemma_remove_lookup(mid, src_address, a2);
            if a2 != word_of_be(tx_to@) && a2 != peek(old(stack)@, 0) {
                crate::word::lemma_word_val_bound(
                    crate::state_data::state_balance(old(state)@, a2),
                );
            }
        }
        assert forall|a2: Word| #[trigger]
            crate::state_data::state_code(final(state)@, a2) == (if a2 == word_of_be(tx_to@) {
                Seq::<u8>::empty()
            } else {
                crate::state_data::state_code(old(state)@, a2)
            }) by {
            crate::state_data::lemma_remove_lookup(mid, src_address, a2);
        }
        assert forall|a2: Word| #[trigger]
            crate::state_data::state_nonce(final(state)@, a2) == (if a2 == word_of_be(tx_to@) {
                0u64
            } else {
                crate::state_data::state_nonce(old(state)@, a2)
            }) by {
            crate::state_data::lemma_remove_lookup(mid, src_address, a2);
        }
        assert forall|a2: Word| #[trigger]
            crate::state_data::state_contains(final(state)@, a2) == (if a2 == word_of_be(
                tx_to@,
            ) {
                false
            } else {
                crate::state_data::state_contains(old(state)@, a2) || a2 == peek(old(stack)@, 0)
            }) by {
            crate::state_data::lemma_remove_lookup(mid, src_address, a2);
        }
    }
    Ok(())
}

/// The binary opcodes whose mathematics commute do commute: with operands
/// popped as (a, b), ADD, MUL, AND, OR, XOR and EQ push the same word for
/// (b, a), by the very formulas their handlers' contracts state.
pub proof fn lemma_binary_ops_commute(a: Word, b: Word)
    ensures
        (word_val(a) + word_val(b)) % pow256() == (word_val(b) + word_val(a)) % pow256(),
        (word_val(a) * word_val(b)) % pow256() == (word_val(b) * word_val(a)) % pow256(),
        word_and_spec(a, b) == word_and_spec(b, a),
        word_or_spec(a, b) == word_or_spec(b, a),
        word_xor_spec(a, b) == word_xor_spec(b, a),
        bool_word(word_val(a) == word_val(b)) == bool_word(word_val(b) == word_val(a)),
{
    assert forall|x: u64, y: u64| #[trigger] (x & y) == (y & x) by {
        assert(x & y == y & x) by (bit_vector);
    }
    assert forall|x: u64, y: u64| #[trigger] (x | y) == (y | x) by {
        assert(x | y == y | x) by (bit_vector);
    }
    assert forall|x: u64, y: u64| #[trigger] (x ^ y) == (y ^ x) by {
        assert(x ^ y == y ^ x) by (bit_vector);
    }
}

/// Pushing a word and popping it returns the stack to its pre-push state:
/// with the contracts of `push` and `pop` (and of `push_data` for the PUSH32
/// immediate) this is the PUSH32-then-POP round trip.
pub proof fn lemma_push_pop_roundtrip(s: Seq<Word>, w: Word)
    ensures
        s.push(w).drop_last() == s,
{
    assert(s.push(w).drop_last() =~= s);
}

/// Appends copies of `src`'s records to `dst` in order: how a committed
/// child frame's logs join the parent's.
pub fn append_logs(dst: &mut Vec<crate::logs::Log>, src: &Vec<crate::logs::Log>)
    ensures
        crate::logs::logs_view(final(dst)@) == crate::logs::logs_view(old(dst)@)
            + crate::logs::logs_view(src@),
{
    let n = src.len();
    for i in 0..n
        invariant
            n == src@.len(),
            dst@.len() == old(dst)@.len() + i,
            forall|k: int|
                0 <= k < old(dst)@.len() ==> (#[trigger] dst@[k])@ == old(dst)@[k]@,
            forall|k: int|
                0 <= k < i ==> (#[trigger] dst@[old(dst)@.len() + k])@ == src@[k]@,
        decreases n - i,
    {
        dst.push(src[i].duplicate());
    }
    proof {
        let lhs = crate::logs::logs_view(dst@);
        let rhs = crate::logs::logs_view(old(dst)@) + crate::logs::logs_view(src@);
        assert(lhs.len() == rhs.len());
        assert forall|k: int| 0 <= k < lhs.len() implies lhs[k] == rhs[k] by {
            assert(lhs[k] == dst@[k]@);
            if k < old(dst)@.len() {
                assert(rhs[k] == old(dst)@[k]@);
                assert(dst@[k]@ == old(dst)@[k]@);
            } else {
                let j = k - old(dst)@.len();
                assert(rhs[k] == src@[j]@);
                assert(dst@[old(dst)@.len() + j]@ == src@[j]@);
            }
        }
        assert(lhs =~= rhs);
    }
}

/// The child run behind a successful CALL: a frame over the target's code
/// and snapshots of the parent's world whose outcome decides the pushed word,
/// the recorded return data and whether the parent commits.
pub open spec fn call_child_semantics(
    pre_mem: Seq<u8>,
    pre_state: Seq<crate::state_data::AccountView>,
    post_state: Seq<crate::state_data::AccountView>,
    pre_store: Seq<crate::storage::StorageEntry>,
    post_store: Seq<crate::storage::StorageEntry>,
    post_lastret: Seq<u8>,
    pre_logs: Seq<crate::logs::LogView>,
    post_logs: Seq<crate::logs::LogView>,
    child_to: Seq<u8>,
    child_from: Seq<u8>,
    child_origin: Seq<u8>,
    child_value: Seq<u8>,
    args_offset: nat,
    args_size: nat,
    child_code: Seq<u8>,
    child_read_only: bool,
    limit: nat,
    depth: nat,
    v: Word,
) -> bool {
    exists|child_pre: crate::evm::Evm, child_post: crate::evm::Evm, res: crate::evm::ExecutionResult|
        {
            &&& crate::evm::subcall_frame(child_pre, child_code, pre_state, pre_store, limit)
            &&& child_pre.tx_data.to@ == child_to
            &&& child_pre.tx_data.from@ == child_from
            &&& child_pre.tx_data.origin@ == child_origin
            &&& child_pre.tx_data.value@ == child_value
            &&& child_pre.tx_data.data@ == data_slice(pre_mem, args_offset, args_size)
            &&& child_pre.read_only == child_read_only
            &&& #[trigger] crate::evm::execute_post(
                child_pre,
                child_post,
                res,
                (depth - 1) as nat,
            )
            &&& (word_val(v) == 1 <==> res != crate::evm::ExecutionResult::Revert)
            &&& post_lastret == child_post.return_data@
            &&& (res != crate::evm::ExecutionResult::Revert ==> post_state == child_post.state@
                && post_store == child_post.storage@ && post_logs == pre_logs
                + crate::logs::logs_view(child_post.logs@))
        }
}

/// The child run behind a successful CREATE: the init code from memory runs
/// over snapshots; its outcome decides whether 0 or the derived address is
/// pushed, and what the derived account holds.
pub open spec fn create_child_semantics(
    pre_stack: Seq<Word>,
    pre_mem: Seq<u8>,
    pre_state: Seq<crate::state_data::AccountView>,
    post_state: Seq<crate::state_data::AccountView>,
    pre_store: Seq<crate::storage::StorageEntry>,
    post_store: Seq<crate::storage::StorageEntry>,
    pre_lastret: Seq<u8>,
    post_lastret: Seq<u8>,
    pre_logs: Seq<crate::logs::LogView>,
    post_logs: Seq<crate::logs::LogView>,
    tx_to: Seq<u8>,
    tx_origin: Seq<u8>,
    limit: nat,
    depth: nat,
    v: Word,
) -> bool {
    exists|child_pre: crate::evm::Evm, child_post: crate::evm::Evm, res: crate::evm::ExecutionResult|
        {
            &&& crate::evm::subcall_frame(
                child_pre,
                data_slice(
                    pre_mem,
                    word_val(peek(pre_stack, 1)),
                    word_val(peek(pre_stack, 2)),
                ),
                pre_state,
                pre_store,
                limit,
            )
            &&& child_pre.tx_data.to@ == crate::word::word_be_bytes(
                derived_address(
                    tx_to,
                    crate::state_data::state_nonce(pre_state, word_of_be(tx_to)),
                ),
            )
            &&& child_pre.tx_data.from@ == tx_to
            &&& child_pre.tx_data.origin@ == tx_origin
            &&& child_pre.tx_data.value@ == crate::word::word_be_bytes(peek(pre_stack, 0))
            &&& child_pre.tx_data.data@ == Seq::<u8>::empty()
            &&& child_pre.read_only == false
            &&& #[trigger] crate::evm::execute_post(
                child_pre,
                child_post,
                res,
                (depth - 1) as nat,
            )
            &&& (res == crate::evm::ExecutionResult::Revert ==> v == word_zero() && post_state
                == pre_state && post_store == pre_store && post_lastret == pre_lastret
                && post_logs == pre_logs)
            &&& (res != crate::evm::ExecutionResult::Revert ==> {
                &&& v == derived_address(
                    tx_to,
                    crate::state_data::state_nonce(pre_state, word_of_be(tx_to)),
                )
                &&& post_lastret == child_post.return_data@
                &&& crate::state_data::state_contains(post_state, v)
                &&& crate::state_data::state_code(post_state, v) == child_post.return_data@
                &&& crate::state_data::state_balance(post_state, v) == peek(pre_stack, 0)
                &&& post_logs == pre_logs + crate::logs::logs_view(child_post.logs@)
            })
        }
}

/// CALL: pops gas, target, value and the argument and return ranges, runs
/// the target's code in a child frame over snapshots of state and storage,
/// writes the child's return blob to memory and records it, commits the
/// snapshots and pushes 1 on success, or keeps the parent's state and
/// storage untouched and pushes 0 on revert. A child frame carries an empty
/// block context, so block opcodes inside a sub-call read zero.
pub fn call(
    stack: &mut Vec<Word>,
    memory: &mut crate::memory::Memory,
    state: &mut crate::state_data::State,
    storage: &mut crate::storage::Storage,
    tx_to: &Vec<u8>,
    tx_origin: &Vec<u8>,
    last_ret_data: &mut Vec<u8>,
    logs: &mut Vec<crate::logs::Log>,
    limit: usize,
    read_only: bool,
    depth: u64,
) -> (r: Result<Word, ExecutionError>)
    requires
        old(stack)@.len() <= limit,
        limit <= 1024,
        old(memory).wf(),
        tx_to@.len() <= 32,
        tx_origin@.len() <= 32,
    ensures
        final(memory).wf(),
        crate::evm::call_effect(
            old(stack)@,
            final(stack)@,
            old(memory)@,
            final(memory)@,
            old(state)@,
            final(state)@,
            old(storage)@,
            final(storage)@,
            old(last_ret_data)@,
            final(last_ret_data)@,
            crate::logs::logs_view(old(logs)@),
            crate::logs::logs_view(final(logs)@),
            tx_to@,
            tx_origin@,
            limit as nat,
            read_only,
            depth as nat,
            r,
        ),
        r matches Ok(v) ==> depth > 0 ==> call_child_semantics(
            old(memory)@,
            old(state)@,
            final(state)@,
            old(storage)@,
            final(storage)@,
            final(last_ret_data)@,
            crate::logs::logs_view(old(logs)@),
            crate::logs::logs_view(final(logs)@),
            crate::word::word_be_bytes(peek(old(stack)@, 1)),
            tx_to@,
            tx_origin@,
            crate::word::word_be_bytes(peek(old(stack)@, 2)),
            word_val(peek(old(stack)@, 3)),
            word_val(peek(old(stack)@, 4)),
            crate::state_data::state_code(old(state)@, peek(old(stack)@, 1)),
            read_only,
            limit as nat,
            depth as nat,
            v,
        ),
        read_only ==> final(state)@ == old(state)@ && final(storage)@ == old(storage)@,
    decreases depth, 0int,
{
    proof {
        reveal(crate::evm::call_effect);
    }
    let _gas = pop(stack)?;
    let address = pop(stack)?;
    let value = pop(stack)?;
    proof {
        assert(stack@ =~= old(stack)@.take(old(stack)@.len() - 3));
    }
    if read_only && !word_is_zero(&value) {
        return Err(ExecutionError::ReadOnly);
    }
    let args_offset_w = pop(stack)?;
    let args_size_w = pop(stack)?;
    let ret_offset_w = pop(stack)?;
    let _ret_size_w = pop(stack)?;
    proof {
        assert(stack@ =~= old(stack)@.take(old(stack)@.len() - 7));
    }
    let args_offset = match word_to_usize(&args_offset_w) {
        Option::Some(o) => o,
        Option::None => {
            return Err(ExecutionError::IntegerOverflow);
        },
    };
    let args_size = match word_to_usize(&args_size_w) {
        Option::Some(s) => s,
        Option::None => {
            return Err(ExecutionError::IntegerOverflow);
        },
    };
    if args_size > usize::MAX - 31 || args_offset > usize::MAX - 31 - args_size {
        return Err(ExecutionError::IntegerOverflow);
    }
    let ret_offset = match word_to_usize(&ret_offset_w) {
        Option::Some(o) => o,
        Option::None => {
            return Err(ExecutionError::IntegerOverflow);
        },
    };
    let code = state.get_code(address);
    if code.len() > usize::MAX - 33 {
        return Err(ExecutionError::IntegerOverflow);
    }
    let calldata = memory.get_bytes(args_offset, args_size)?;
    proof {
        assert(calldata@ =~= data_slice(
            old(memory)@,
            word_val(peek(old(stack)@, 3)),
            word_val(peek(old(stack)@, 4)),
        ));
    }
    if depth == 0 {
        last_ret_data.clear();
        let failed = zero();
        push(stack, failed, limit)?;
        proof {
        assert(crate::logs::logs_view(logs@).take(old(logs)@.len() as int)
            =~= crate::logs::logs_view(old(logs)@));
        }
        return Ok(failed);
    }
    let to_bytes = word_to_be_bytes(&address);
    let value_bytes = word_to_be_bytes(&value);
    let mut fields: Vec<Vec<u8>> = Vec::new();
    fields.push(to_bytes);
    fields.push(crate::bytes::clone_bytes(tx_to));
    fields.push(crate::bytes::clone_bytes(tx_origin));
    fields.push(Vec::new());
    fields.push(value_bytes);
    fields.push(calldata);
    let tx_data = crate::tx_data::TxData::new(fields);
    let block_data = crate::block_data::BlockData::new(Vec::new());
    let mut new_evm = crate::evm::Evm::new(
        code,
        tx_data,
        block_data,
        state.duplicate(),
        storage.duplicate(),
        Vec::new(),
        Vec::new(),
        Vec::new(),
        Vec::new(),
        crate::memory::Memory::new(),
        limit,
        read_only,
    );
    let ghost child_pre_snap = new_evm;
    let result = new_evm.execute(depth - 1);
    let ghost child_post_snap = new_evm;
    let ghost child_res = result;
    let ret = new_evm.return_data();
    if ret.len() > usize::MAX - 31 || ret_offset > usize::MAX - 31 - ret.len() {
        return Err(ExecutionError::IntegerOverflow);
    }
    memory.save_bytes(ret_offset, &ret)?;
    *last_ret_data = ret;
    let res = match result {
        crate::evm::ExecutionResult::Success | crate::evm::ExecutionResult::Halt => {
            *state = new_evm.state();
            *storage = new_evm.storage();
            append_logs(logs, &new_evm.logs);
            one()
        },
        crate::evm::ExecutionResult::Revert => zero(),
    };
    push(stack, res, limit)?;
    proof {
        assert(crate::logs::logs_view(logs@).take(old(logs)@.len() as int)
            =~= crate::logs::logs_view(old(logs)@));
        assert(child_pre_snap.stack@ =~= Seq::<Word>::empty());
        assert(child_pre_snap.memory@ =~= Seq::<u8>::empty());
        assert(child_pre_snap.logs@.len() == 0);
        assert(child_pre_snap.return_data@ =~= Seq::<u8>::empty());
        assert(child_pre_snap.last_return_data@ =~= Seq::<u8>::empty());
        assert(crate::evm::subcall_frame(
            child_pre_snap,
            crate::state_data::state_code(old(state)@, peek(old(stack)@, 1)),
            old(state)@,
            old(storage)@,
            limit as nat,
        ));
        assert(crate::evm::execute_post(
            child_pre_snap,
            child_post_snap,
            child_res,
            (depth - 1) as nat,
        ));
    }
    Ok(res)
}

/// DELEGATECALL: like CALL, but the child runs the target's code under the
/// parent's own address, caller and value. A child frame carries an empty
/// block context, so block opcodes inside a sub-call read zero.
pub fn delegatecall(
    stack: &mut Vec<Word>,
    memory: &mut crate::memory::Memory,
    state: &mut crate::state_data::State,
    storage: &mut crate::storage::Storage,
    tx_to: &Vec<u8>,
    tx_from: &Vec<u8>,
    tx_origin: &Vec<u8>,
    value: &Vec<u8>,
    last_ret_data: &mut Vec<u8>,
    logs: &mut Vec<crate::logs::Log>,
    limit: usize,
    read_only: bool,
    depth: u64,
) -> (r: Result<Word, ExecutionError>)
    requires
        old(stack)@.len() <= limit,
        limit <= 1024,
        old(memory).wf(),
        tx_to@.len() <= 32,
        tx_from@.len() <= 32,
        tx_origin@.len() <= 32,
        value@.len() <= 32,
    ensures
        final(memory).wf(),
        crate::evm::delegatecall_effect(
            old(stack)@,
            final(stack)@,
            old(memory)@,
            final(memory)@,
            old(state)@,
            final(state)@,
            old(storage)@,
            final(storage)@,
            old(last_ret_data)@,
            final(last_ret_data)@,
            crate::logs::logs_view(old(logs)@),
            crate::logs::logs_view(final(logs)@),
            tx_to@,
            tx_from@,
            tx_origin@,
            value@,
            limit as nat,
            read_only,
            depth as nat,
            r,
        ),
        r matches Ok(v) ==> depth > 0 ==> call_child_semantics(
            old(memory)@,
            old(state)@,
            final(state)@,
            old(storage)@,
            final(storage)@,
            final(last_ret_data)@,
            crate::logs::logs_view(old(logs)@),
            crate::logs::logs_view(final(logs)@),
            tx_to@,
            tx_from@,
            tx_origin@,
            value@,
            word_val(peek(old(stack)@, 2)),
            word_val(peek(old(stack)@, 3)),
            crate::state_data::state_code(old(state)@, peek(old(stack)@, 1)),
            read_only,
            limit as nat,
            depth as nat,
            v,
        ),
        read_only ==> final(state)@ == old(state)@ && final(storage)@ == old(storage)@,
    decreases depth, 0int,
{
    proof {
        reveal(crate::evm::delegatecall_effect);
    }
    let _gas = pop(stack)?;
    let address = pop(stack)?;
    let args_offset_w = pop(stack)?;
    let args_size_w = pop(stack)?;
    let ret_offset_w = pop(stack)?;
    let _ret_size_w = pop(stack)?;
    proof {
        assert(stack@ =~= old(stack)@.take(old(stack)@.len() - 6));
    }
    let args_offset = match word_to_usize(&args_offset_w) {
        Option::Some(o) => o,
        Option::None => {
            return Err(ExecutionError::IntegerOverflow);
        },
    };
    let args_size = match word_to_usize(&args_size_w) {
        Option::Some(s) => s,
        Option::None => {
            return Err(ExecutionError::IntegerOverflow);
        },
    };
    if args_size > usize::MAX - 31 || args_offset > usize::MAX - 31 - args_size {
        return Err(ExecutionError::IntegerOverflow);
    }
    let ret_offset = match word_to_usize(&ret_offset_w) {
        Option::Some(o) => o,
        Option::None => {
            return Err(ExecutionError::IntegerOverflow);
        },
    };
    let code = state.get_code(address);
    if code.len() > usize::MAX - 33 {
        return Err(ExecutionError::IntegerOverflow);
    }
    let calldata = memory.get_bytes(args_offset, args_size)?;
    proof {
        assert(calldata@ =~= data_slice(
            old(memory)@,
            word_val(peek(old(stack)@, 2)),
            word_val(peek(old(stack)@, 3)),
        ));
    }
    if depth == 0 {
        last_ret_data.clear();
        let failed = zero();
        push(stack, failed, limit)?;
        proof {
        assert(crate::logs::logs_view(logs@).take(old(logs)@.len() as int)
            =~= crate::logs::logs_view(old(logs)@));
        }
        return Ok(failed);
    }
    let mut fields: Vec<Vec<u8>> = Vec::new();
    fields.push(crate::bytes::clone_bytes(tx_to));
    fields.push(crate::bytes::clone_bytes(tx_from));
    fields.push(crate::bytes::clone_bytes(tx_origin));
    fields.push(Vec::new());
    fields.push(crate::bytes::clone_bytes(value));
    fields.push(calldata);
    let tx_data = crate::tx_data::TxData::new(fields);
    let block_data = crate::block_data::BlockData::new(Vec::new());
    let mut new_evm = crate::evm::Evm::new(
        code,
        tx_data,
        block_data,
        state.duplicate(),
        storage.duplicate(),
        Vec::new(),
        Vec::new(),
        Vec::new(),
        Vec::new(),
        crate::memory::Memory::new(),
        limit,
        read_only,
    );
    let ghost child_pre_snap = new_evm;
    let result = new_evm.execute(depth - 1);
    let ghost child_post_snap = new_evm;
    let ghost child_res = result;
    let ret = new_evm.return_data();
    if ret.len() > usize::MAX - 31 || ret_offset > usize::MAX - 31 - ret.len() {
        return Err(ExecutionError::IntegerOverflow);
    }
    memory.save_bytes(ret_offset, &ret)?;
    *last_ret_data = ret;
    let res = match result {
        crate::evm::ExecutionResult::Success | crate::evm::ExecutionResult::Halt => {
            *state = new_evm.state();
            *storage = new_evm.storage();
            append_logs(logs, &new_evm.logs);
            one()
        },
        crate::evm::ExecutionResult::Revert => zero(),
    };
    push(stack, res, limit)?;
    proof {
        assert(crate::logs::logs_view(logs@).take(old(logs)@.len() as int)
            =~= crate::logs::logs_view(old(logs)@));
        assert(child_pre_snap.stack@ =~= Seq::<Word>::empty());
        assert(child_pre_snap.memory@ =~= Seq::<u8>::empty());
        assert(child_pre_snap.logs@.len() == 0);
        assert(child_pre_snap.return_data@ =~= Seq::<u8>::empty());
        assert(child_pre_snap.last_return_data@ =~= Seq::<u8>::empty());
        assert(crate::evm::subcall_frame(
            child_pre_snap,
            crate::state_data::state_code(old(state)@, peek(old(stack)@, 1)),
            old(state)@,
            old(storage)@,
            limit as nat,
        ));
        assert(crate::evm::execute_post(
            child_pre_snap,
            child_post_snap,
            child_res,
            (depth - 1) as nat,
        ));
    }
    Ok(res)
}
/// STATICCALL: like CALL without a value transfer; the child frame is
/// read-only throughout, so the parent's state and storage are never
/// changed, even on success. A child frame carries an empty block context,
/// so block opcodes inside a sub-call read zero.
pub fn staticcall(
    stack: &mut Vec<Word>,
    memory: &mut crate::memory::Memory,
    state: &mut crate::state_data::State,
    storage: &mut crate::storage::Storage,
    tx_to: &Vec<u8>,
    tx_origin: &Vec<u8>,
    tx_value: &Vec<u8>,
    last_ret_data: &mut Vec<u8>,
    logs: &mut Vec<crate::logs::Log>,
    limit: usize,
    depth: u64,
) -> (r: Result<Word, ExecutionError>)
    requires
        old(stack)@.len() <= limit,
        limit <= 1024,
        old(memory).wf(),
        tx_to@.len() <= 32,
        tx_origin@.len() <= 32,
        tx_value@.len() <= 32,
    ensures
        final(memory).wf(),
        crate::evm::staticcall_effect(
            old(stack)@,
            final(stack)@,
            old(memory)@,
            final(memory)@,
            old(state)@,
            final(state)@,
            old(storage)@,
            final(storage)@,
            old(last_ret_data)@,
            final(last_ret_data)@,
            crate::logs::logs_view(old(logs)@),
            crate::logs::logs_view(final(logs)@),
            tx_to@,
            tx_origin@,
            tx_value@,
            limit as nat,
            depth as nat,
            r,
        ),
        r matches Ok(v) ==> depth > 0 ==> call_child_semantics(
            old(memory)@,
            old(state)@,
            final(state)@,
            old(storage)@,
            final(storage)@,
            final(last_ret_data)@,
            crate::logs::logs_view(old(logs)@),
            crate::logs::logs_view(final(logs)@),
            crate::word::word_be_bytes(peek(old(stack)@, 1)),
            tx_to@,
            tx_origin@,
            tx_value@,
            word_val(peek(old(stack)@, 2)),
            word_val(peek(old(stack)@, 3)),
            crate::state_data::state_code(old(state)@, peek(old(stack)@, 1)),
            true,
            limit as nat,
            depth as nat,
            v,
        ),
        final(state)@ == old(state)@ && final(storage)@ == old(storage)@,
    decreases depth, 0int,
{
    proof {
        reveal(crate::evm::staticcall_effect);
    }
    let _gas = pop(stack)?;
    let address = pop(stack)?;
    let args_offset_w = pop(stack)?;
    let args_size_w = pop(stack)?;
    let ret_offset_w = pop(stack)?;
    let _ret_size_w = pop(stack)?;
    proof {
        assert(stack@ =~= old(stack)@.take(old(stack)@.len() - 6));
    }
    let args_offset = match word_to_usize(&args_offset_w) {
        Option::Some(o) => o,
        Option::None => {
            return Err(ExecutionError::IntegerOverflow);
        },
    };
    let args_size = match word_to_usize(&args_size_w) {
        Option::Some(s) => s,
        Option::None => {
            return Err(ExecutionError::IntegerOverflow);
        },
    };
    if args_size > usize::MAX - 31 || args_offset > usize::MAX - 31 - args_size {
        return Err(ExecutionError::IntegerOverflow);
    }
    let ret_offset = match word_to_usize(&ret_offset_w) {
        Option::Some(o) => o,
        Option::None => {
            return Err(ExecutionError::IntegerOverflow);
        },
    };
    let code = state.get_code(address);
    if code.len() > usize::MAX - 33 {
        return Err(ExecutionError::IntegerOverflow);
    }
    let calldata = memory.get_bytes(args_offset, args_size)?;
    proof {
        assert(calldata@ =~= data_slice(
            old(memory)@,
            word_val(peek(old(stack)@, 2)),
            word_val(peek(old(stack)@, 3)),
        ));
    }
    if depth == 0 {
        last_ret_data.clear();
        let failed = zero();
        push(stack, failed, limit)?;
        proof {
        assert(crate::logs::logs_view(logs@).take(old(logs)@.len() as int)
            =~= crate::logs::logs_view(old(logs)@));
        }
        return Ok(failed);
    }
    let to_bytes = word_to_be_bytes(&address);
    let mut fields: Vec<Vec<u8>> = Vec::new();
    fields.push(to_bytes);
    fields.push(crate::bytes::clone_bytes(tx_to));
    fields.push(crate::bytes::clone_bytes(tx_origin));
    fields.push(Vec::new());
    fields.push(crate::bytes::clone_bytes(tx_value));
    fields.push(calldata);
    let tx_data = crate::tx_data::TxData::new(fields);
    let block_data = crate::block_data::BlockData::new(Vec::new());
    let mut new_evm = crate::evm::Evm::new(
        code,
        tx_data,
        block_data,
        state.duplicate(),
        storage.duplicate(),
        Vec::new(),
        Vec::new(),
        Vec::new(),
        Vec::new(),
        crate::memory::Memory::new(),
        limit,
        true,
    );
    let ghost child_pre_snap = new_evm;
    let result = new_evm.execute(depth - 1);
    let ghost child_post_snap = new_evm;
    let ghost child_res = result;
    let ret = new_evm.return_data();
    if ret.len() > usize::MAX - 31 || ret_offset > usize::MAX - 31 - ret.len() {
        return Err(ExecutionError::IntegerOverflow);
    }
    memory.save_bytes(ret_offset, &ret)?;
    *last_ret_data = ret;
    let res = match result {
        crate::evm::ExecutionResult::Success | crate::evm::ExecutionResult::Halt => {
            *state = new_evm.state();
            *storage = new_evm.storage();
            append_logs(logs, &new_evm.logs);
            one()
        },
        crate::evm::ExecutionResult::Revert => zero(),
    };
    push(stack, res, limit)?;
    proof {
        assert(crate::logs::logs_view(logs@).take(old(logs)@.len() as int)
            =~= crate::logs::logs_view(old(logs)@));
        assert(child_pre_snap.stack@ =~= Seq::<Word>::empty());
        assert(child_pre_snap.memory@ =~= Seq::<u8>::empty());
        assert(child_pre_snap.logs@.len() == 0);
        assert(child_pre_snap.return_data@ =~= Seq::<u8>::empty());
        assert(child_pre_snap.last_return_data@ =~= Seq::<u8>::empty());
        assert(crate::evm::subcall_frame(
            child_pre_snap,
            crate::state_data::state_code(old(state)@, peek(old(stack)@, 1)),
            old(state)@,
            old(storage)@,
            limit as nat,
        ));
        assert(crate::evm::execute_post(
            child_pre_snap,
            child_post_snap,
            child_res,
            (depth - 1) as nat,
        ));
    }
    Ok(res)
}
/// CREATE: pops value and an init-code range, runs the init code in a child
/// frame, and on success stores the child's return blob as the code of the
/// derived address and pushes that address; pushes 0 on revert. A child
/// frame carries an empty block context, so block opcodes inside a
/// sub-call read zero.
pub fn create(
    stack: &mut Vec<Word>,
    memory: &mut crate::memory::Memory,
    state: &mut crate::state_data::State,
    storage: &mut crate::storage::Storage,
    tx_to: &Vec<u8>,
    tx_origin: &Vec<u8>,
    last_ret_data: &mut Vec<u8>,
    logs: &mut Vec<crate::logs::Log>,
    limit: usize,
    read_only: bool,
    depth: u64,
) -> (r: Result<Word, ExecutionError>)
    requires
        old(stack)@.len() <= limit,
        limit <= 1024,
        old(memory).wf(),
        tx_to@.len() <= 32,
        tx_origin@.len() <= 32,
    ensures
        final(memory).wf(),
        crate::evm::create_effect(
            old(stack)@,
            final(stack)@,
            old(memory)@,
            old(state)@,
            final(state)@,
            old(storage)@,
            final(storage)@,
            old(last_ret_data)@,
            final(last_ret_data)@,
            crate::logs::logs_view(old(logs)@),
            crate::logs::logs_view(final(logs)@),
            tx_to@,
            tx_origin@,
            limit as nat,
            read_only,
            depth as nat,
            r,
        ),
        r matches Ok(v) ==> depth > 0 ==> create_child_semantics(
            old(stack)@,
            old(memory)@,
            old(state)@,
            final(state)@,
            old(storage)@,
            final(storage)@,
            old(last_ret_data)@,
            final(last_ret_data)@,
            crate::logs::logs_view(old(logs)@),
            crate::logs::logs_view(final(logs)@),
            tx_to@,
            tx_origin@,
            limit as nat,
            depth as nat,
            v,
        ),
    decreases depth, 0int,
{
    proof {
        reveal(crate::evm::create_effect);
    }
    if read_only {
        return Err(ExecutionError::ReadOnly);
    }
    let value = pop(stack)?;
    let offset_w = pop(stack)?;
    let size_w = pop(stack)?;
    proof {
        assert(stack@ =~= old(stack)@.take(old(stack)@.len() - 3));
    }
    let offset = match word_to_usize(&offset_w) {
        Option::Some(o) => o,
        Option::None => {
            return Err(ExecutionError::IntegerOverflow);
        },
    };
    let size = match word_to_usize(&size_w) {
        Option::Some(s) => s,
        Option::None => {
            return Err(ExecutionError::IntegerOverflow);
        },
    };
    if size > usize::MAX - 33 || offset > usize::MAX - 33 - size {
        return Err(ExecutionError::IntegerOverflow);
    }
    let code = memory.get_bytes(offset, size)?;
    proof {
        assert(code@ =~= data_slice(
            old(memory)@,
            word_val(peek(old(stack)@, 1)),
            word_val(peek(old(stack)@, 2)),
        ));
    }
    let creator = word_from_be_bytes(tx_to);
    let nonce = state.get_nonce(creator);
    let contract_address = calculate_address(tx_to, nonce);
    let addr_bytes = word_to_be_bytes(&contract_address);
    let value_bytes = word_to_be_bytes(&value);
    if depth == 0 {
        let failed = zero();
        push(stack, failed, limit)?;
        return Ok(failed);
    }
    let mut fields: Vec<Vec<u8>> = Vec::new();
    fields.push(addr_bytes);
    fields.push(crate::bytes::clone_bytes(tx_to));
    fields.push(crate::bytes::clone_bytes(tx_origin));
    fields.push(Vec::new());
    fields.push(value_bytes);
    fields.push(Vec::new());
    let tx_data = crate::tx_data::TxData::new(fields);
    let block_data = crate::block_data::BlockData::new(Vec::new());
    let mut new_evm = crate::evm::Evm::new(
        code,
        tx_data,
        block_data,
        state.duplicate(),
        storage.duplicate(),
        Vec::new(),
        Vec::new(),
        Vec::new(),
        Vec::new(),
        crate::memory::Memory::new(),
        limit,
        false,
    );
    let ghost child_pre_snap = new_evm;
    let result = new_evm.execute(depth - 1);
    let ghost child_post_snap = new_evm;
    let ghost child_res = result;
    proof {
        assert(crate::logs::logs_view(logs@).take(old(logs)@.len() as int)
            =~= crate::logs::logs_view(old(logs)@));
        assert(child_pre_snap.stack@ =~= Seq::<Word>::empty());
        assert(child_pre_snap.memory@ =~= Seq::<u8>::empty());
        assert(child_pre_snap.logs@.len() == 0);
        assert(child_pre_snap.return_data@ =~= Seq::<u8>::empty());
        assert(child_pre_snap.last_return_data@ =~= Seq::<u8>::empty());
        assert(child_pre_snap.tx_data.data@ =~= Seq::<u8>::empty());
        assert(crate::evm::subcall_frame(
            child_pre_snap,
            data_slice(
                old(memory)@,
                word_val(peek(old(stack)@, 1)),
                word_val(peek(old(stack)@, 2)),
            ),
            old(state)@,
            old(storage)@,
            limit as nat,
        ));
        assert(crate::evm::execute_post(
            child_pre_snap,
            child_post_snap,
            child_res,
            (depth - 1) as nat,
        ));
    }
    match result {
        crate::evm::ExecutionResult::Success | crate::evm::ExecutionResult::Halt => {
            *state = new_evm.state();
            *storage = new_evm.storage();
            let ret = new_evm.return_data();
            let stored = crate::bytes::clone_bytes(&ret);
            let ghost committed = state@;
            let ghost retv = ret@;
            state.save_code(contract_address, stored, value)?;
            append_logs(logs, &new_evm.logs);
            proof {
                assert(crate::logs::logs_view(logs@).take(old(logs)@.len() as int)
                    =~= crate::logs::logs_view(old(logs)@));
            }
            *last_ret_data = ret;
            proof {
                crate::state_data::lemma_not_contains_no_match(committed, contract_address);
                crate::state_data::lemma_state_push(
                    committed,
                    crate::state_data::AccountView {
                        address: contract_address,
                        nonce: 0u64,
                        balance: value,
                        code: retv,
                    },
                    contract_address,
                );
            }
            push(stack, contract_address, limit)?;
            Ok(contract_address)
        },
        crate::evm::ExecutionResult::Revert => {
            let failed = zero();
            push(stack, failed, limit)?;
            Ok(failed)
        },
    }
}

} // verus!
