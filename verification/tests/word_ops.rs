use evm::errors::ExecutionError;
use evm::utility;
use evm::word::Word;

fn w(x: u64) -> Word {
    Word { l0: x, l1: 0, l2: 0, l3: 0 }
}

fn max() -> Word {
    Word { l0: u64::MAX, l1: u64::MAX, l2: u64::MAX, l3: u64::MAX }
}

/// Builds a stack whose pops yield the given operands in order.
fn stack_of(operands: Vec<Word>) -> Vec<Word> {
    let mut stack: Vec<Word> = Vec::new();
    for item in operands.into_iter().rev() {
        stack.push(item);
    }
    stack
}

#[test]
fn div_by_zero_is_zero() {
    let mut stack = stack_of(vec![w(77), w(0)]);
    assert_eq!(utility::div(&mut stack, 1024).unwrap(), w(0));
}

#[test]
fn mod_by_zero_is_zero() {
    let mut stack = stack_of(vec![w(77), w(0)]);
    assert_eq!(utility::mod_fn(&mut stack, 1024).unwrap(), w(0));
}

#[test]
fn sdiv_by_zero_is_zero() {
    let mut stack = stack_of(vec![max(), w(0)]);
    assert_eq!(utility::sdiv(&mut stack, 1024).unwrap(), w(0));
}

#[test]
fn smod_by_zero_is_zero() {
    let mut stack = stack_of(vec![max(), w(0)]);
    assert_eq!(utility::smod(&mut stack, 1024).unwrap(), w(0));
}

#[test]
fn addmod_max_does_not_wrap() {
    // (MAX + MAX) mod 7 is 2; a 256-bit wrap would give 0.
    let mut stack = stack_of(vec![max(), max(), w(7)]);
    assert_eq!(utility::addmod(&mut stack, 1024).unwrap(), w(2));
}

#[test]
fn mulmod_max_does_not_wrap() {
    // (MAX * MAX) mod 12 is 9; a 256-bit wrap would give 1.
    let mut stack = stack_of(vec![max(), max(), w(12)]);
    assert_eq!(utility::mulmod(&mut stack, 1024).unwrap(), w(9));
}

#[test]
fn addmod_by_zero_is_zero() {
    let mut stack = stack_of(vec![max(), max(), w(0)]);
    assert_eq!(utility::addmod(&mut stack, 1024).unwrap(), w(0));
}

#[test]
fn mulmod_by_zero_is_zero() {
    let mut stack = stack_of(vec![max(), max(), w(0)]);
    assert_eq!(utility::mulmod(&mut stack, 1024).unwrap(), w(0));
}

#[test]
fn sign_extend_31_is_identity() {
    let x = Word { l0: 5, l1: 6, l2: 7, l3: 8 };
    let mut stack = stack_of(vec![w(31), x]);
    assert_eq!(utility::sign_extend(&mut stack, 1024).unwrap(), x);
}

#[test]
fn sign_extend_0_of_ff_is_all_ones() {
    let mut stack = stack_of(vec![w(0), w(0xFF)]);
    assert_eq!(utility::sign_extend(&mut stack, 1024).unwrap(), max());
}

#[test]
fn byte_32_is_zero() {
    let mut stack = stack_of(vec![w(32), max()]);
    assert_eq!(utility::byte(&mut stack, 1024).unwrap(), w(0));
}

#[test]
fn byte_31_is_low_byte() {
    let mut stack = stack_of(vec![w(31), w(0xAB)]);
    assert_eq!(utility::byte(&mut stack, 1024).unwrap(), w(0xAB));
}

#[test]
fn sar_large_shift_of_negative_is_all_ones() {
    let negative = Word { l0: 2, l1: 0, l2: 0, l3: 0x8000_0000_0000_0000 };
    let mut stack = stack_of(vec![w(256), negative]);
    assert_eq!(utility::sar(&mut stack, 1024).unwrap(), max());
}

#[test]
fn sar_small_shift_of_positive() {
    let mut stack = stack_of(vec![w(4), w(0x100)]);
    assert_eq!(utility::sar(&mut stack, 1024).unwrap(), w(0x10));
}

#[test]
fn shl_shifts_left() {
    let mut stack = stack_of(vec![w(4), w(1)]);
    assert_eq!(utility::shl(&mut stack, 1024).unwrap(), w(16));
}

#[test]
fn shl_256_is_zero() {
    let mut stack = stack_of(vec![w(256), max()]);
    assert_eq!(utility::shl(&mut stack, 1024).unwrap(), w(0));
}

#[test]
fn shr_shifts_right() {
    let mut stack = stack_of(vec![w(4), w(16)]);
    assert_eq!(utility::shr(&mut stack, 1024).unwrap(), w(1));
}

#[test]
fn shr_256_is_zero() {
    let mut stack = stack_of(vec![w(256), max()]);
    assert_eq!(utility::shr(&mut stack, 1024).unwrap(), w(0));
}

#[test]
fn mul_multiplies() {
    let mut stack = stack_of(vec![w(3), w(5)]);
    assert_eq!(utility::mul(&mut stack, 1024).unwrap(), w(15));
}

#[test]
fn mul_wraps() {
    // 2^255 * 2 wraps to 0.
    let high = Word { l0: 0, l1: 0, l2: 0, l3: 0x8000_0000_0000_0000 };
    let mut stack = stack_of(vec![high, w(2)]);
    assert_eq!(utility::mul(&mut stack, 1024).unwrap(), w(0));
}

#[test]
fn div_divides() {
    let mut stack = stack_of(vec![w(10), w(2)]);
    assert_eq!(utility::div(&mut stack, 1024).unwrap(), w(5));
}

#[test]
fn mod_remainders() {
    let mut stack = stack_of(vec![w(10), w(3)]);
    assert_eq!(utility::mod_fn(&mut stack, 1024).unwrap(), w(1));
}

#[test]
fn exp_powers() {
    let mut stack = stack_of(vec![w(2), w(10)]);
    assert_eq!(utility::exp(&mut stack, 1024).unwrap(), w(1024));
}

#[test]
fn sdiv_negates_on_sign_mismatch() {
    // (-4) / 2 == -2 in two's complement.
    let minus_four = {
        let mut stack = stack_of(vec![w(0), w(4)]);
        utility::sub(&mut stack, 1024).unwrap()
    };
    let minus_two = {
        let mut stack = stack_of(vec![w(0), w(2)]);
        utility::sub(&mut stack, 1024).unwrap()
    };
    let mut stack = stack_of(vec![minus_four, w(2)]);
    assert_eq!(utility::sdiv(&mut stack, 1024).unwrap(), minus_two);
}

#[test]
fn smod_follows_dividend_sign() {
    // (-10) mod 3 == -1 in two's complement.
    let minus_ten = {
        let mut stack = stack_of(vec![w(0), w(10)]);
        utility::sub(&mut stack, 1024).unwrap()
    };
    let mut stack = stack_of(vec![minus_ten, w(3)]);
    assert_eq!(utility::smod(&mut stack, 1024).unwrap(), max());
}

#[test]
fn slt_on_signs() {
    // -1 < 1 signed, though its unsigned value is the largest.
    let mut stack = stack_of(vec![max(), w(1)]);
    assert_eq!(utility::slt(&mut stack, 1024).unwrap(), w(1));
    let mut stack2 = stack_of(vec![w(1), max()]);
    assert_eq!(utility::sgt(&mut stack2, 1024).unwrap(), w(1));
}

#[test]
fn commutative_ops_agree_both_ways() {
    let a = Word { l0: 0x1234, l1: 9, l2: 0, l3: 0xF000_0000_0000_0000 };
    let b = Word { l0: 0xFFFF_FFFF_0000_0001, l1: 0, l2: 7, l3: 1 };
    let ops: Vec<fn(&mut Vec<Word>, usize) -> Result<Word, ExecutionError>> = vec![
        utility::add,
        utility::mul,
        utility::and,
        utility::or,
        utility::xor,
        utility::eq,
    ];
    for op in ops {
        let mut left = stack_of(vec![a, b]);
        let mut right = stack_of(vec![b, a]);
        assert_eq!(op(&mut left, 1024).unwrap(), op(&mut right, 1024).unwrap());
    }
}

#[test]
fn push_overflow_reported() {
    let mut stack: Vec<Word> = Vec::new();
    for _ in 0..1024 {
        stack.push(w(0));
    }
    assert_eq!(
        utility::push(&mut stack, w(1), 1024),
        Err(ExecutionError::StackOverflow)
    );
}

#[test]
fn pop_underflow_reported() {
    let mut stack: Vec<Word> = Vec::new();
    assert_eq!(utility::pop(&mut stack), Err(ExecutionError::StackUnderflow));
}

#[test]
fn not_complements() {
    let mut stack = stack_of(vec![w(0)]);
    assert_eq!(utility::not(&mut stack, 1024).unwrap(), max());
}

#[test]
fn sub_wraps_below_zero() {
    let mut stack = stack_of(vec![w(0), w(1)]);
    assert_eq!(utility::sub(&mut stack, 1024).unwrap(), max());
}
