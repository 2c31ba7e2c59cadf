use vstd::prelude::*;
use crate::errors::ExecutionError;
use crate::opcode::{OpCode, decode, spec_is_push, spec_push_data_size};
use crate::word::{Word, word_val};

verus! {

#[verifier::external_type_specification]
#[verifier::external_body]
#[verifier::reject_recursive_types(B)]
pub struct ExBitVec<B>(bit_vec::BitVec<B>);

/// The bits a bit_vec::BitVec holds, in index order.
pub uninterp spec fn bit_vec_bits(bv: bit_vec::BitVec<u32>) -> Seq<bool>;

/// Relies on bit_vec::BitVec::from_elem: a vector of `nbits` copies of `bit`.
#[verifier::external_body]
fn bitvec_from_elem(nbits: usize, bit: bool) -> (r: bit_vec::BitVec<u32>)
    ensures
        bit_vec_bits(r) == Seq::new(nbits as nat, |i: int| bit),
{
    bit_vec::BitVec::from_elem(nbits, bit)
}

/// Relies on bit_vec::BitVec::set: writes the bit at `i`; panics outside the
/// length, which the precondition rules out.
#[verifier::external_body]
fn bitvec_set(bv: &mut bit_vec::BitVec<u32>, i: usize, x: bool)
    requires
        i < bit_vec_bits(*old(bv)).len(),
    ensures
        bit_vec_bits(*final(bv)) == bit_vec_bits(*old(bv)).update(i as int, x),
{
    bv.set(i, x)
}

/// Relies on bit_vec::BitVec::get: the bit at `i`, or None past the length.
#[verifier::external_body]
fn bitvec_get(bv: &bit_vec::BitVec<u32>, i: usize) -> (r: Option<bool>)
    ensures
        r == if i < bit_vec_bits(*bv).len() {
            Some(bit_vec_bits(*bv)[i as int])
        } else {
            None::<bool>
        },
{
    bv.get(i)
}

/// The opcode the byte at `position` denotes, for an in-range position.
pub open spec fn decode_at(code: Seq<u8>, position: nat) -> Option<OpCode> {
    decode(code[position as int])
}

/// `bits` with positions `lo..=hi` cleared.
pub open spec fn clear_range(bits: Seq<bool>, lo: int, hi: int) -> Seq<bool> {
    Seq::new(bits.len(), |i: int| if lo <= i <= hi { false } else { bits[i] })
}

/// How many positions a scan at `pc` still has before it.
pub open spec fn scan_measure(code_len: nat, pc: nat) -> nat {
    if pc <= code_len {
        (code_len - pc) as nat
    } else {
        0
    }
}

/// The left-to-right scan of the code from position `pc`: push immediates
/// (and the push byte itself) are cleared from `bits`; an unknown opcode
/// fails the analysis.
pub open spec fn bitmap_scan(code: Seq<u8>, pc: nat, bits: Seq<bool>) -> Option<Seq<bool>>
    decreases scan_measure(code.len(), pc),
{
    if pc >= code.len() {
        Some(bits)
    } else {
        match decode(code[pc as int]) {
            Option::None => None,
            Option::Some(op) => {
                if spec_is_push(op) {
                    let k = spec_push_data_size(op);
                    bitmap_scan(code, pc + k + 1, clear_range(bits, pc as int, (pc + k) as int))
                } else {
                    bitmap_scan(code, pc + 1, bits)
                }
            },
        }
    }
}

/// The instruction/data bitmap of a code blob: 32 spare trailing bits absorb
/// a push immediate that overruns the end; `None` on an unknown opcode.
pub open spec fn code_bitmap_spec(code: Seq<u8>) -> Option<Seq<bool>> {
    bitmap_scan(code, 0, Seq::new(code.len() + 32, |i: int| true))
}

/// A successful scan keeps the bitmap length.
pub proof fn lemma_bitmap_scan_len(code: Seq<u8>, pc: nat, bits: Seq<bool>)
    ensures
        bitmap_scan(code, pc, bits) matches Some(b2) ==> b2.len() == bits.len(),
    decreases scan_measure(code.len(), pc),
{
    if pc >= code.len() {
    } else {
        match decode(code[pc as int]) {
            Option::None => {},
            Option::Some(op) => {
                if spec_is_push(op) {
                    let k = spec_push_data_size(op);
                    lemma_bitmap_scan_len(code, pc + k + 1, clear_range(bits, pc as int, (pc + k) as int));
                } else {
                    lemma_bitmap_scan_len(code, pc + 1, bits);
                }
            },
        }
    }
}

/// Scans the code once and classifies every byte as instruction (true) or
/// push data (false).
pub fn code_bitmap(code: &Vec<u8>) -> (r: Result<bit_vec::BitVec<u32>, ExecutionError>)
    requires
        code@.len() + 33 <= usize::MAX,
    ensures
        match r {
            Ok(bv) => code_bitmap_spec(code@) == Some(bit_vec_bits(bv)),
            Err(e) => e == ExecutionError::InvalidOpcode && code_bitmap_spec(code@) is None,
        },
{
    let mut bitvec = bitvec_from_elem(code.len() + 32, true);
    let mut pc: usize = 0;
    while pc < code.len()
        invariant
            code@.len() + 33 <= usize::MAX,
            pc <= code@.len() + 33,
            bit_vec_bits(bitvec).len() == code@.len() + 32,
            bitmap_scan(code@, pc as nat, bit_vec_bits(bitvec)) == code_bitmap_spec(code@),
        decreases code@.len() + 33 - pc,
    {
        match OpCode::new(code[pc]) {
            Option::Some(opcode) => {
                if opcode.is_push() {
                    let push_data_size = opcode.push_data_size();
                    proof {
                        assert(spec_push_data_size(decode(code@[pc as int])->Some_0) <= 32);
                    }
                    let ghost bits_before = bit_vec_bits(bitvec);
                    let mut i: usize = pc;
                    while i <= pc + push_data_size
                        invariant
                            pc < code@.len(),
                            code@.len() + 33 <= usize::MAX,
                            push_data_size <= 32,
                            pc <= i <= pc + push_data_size + 1,
                            pc + push_data_size < bit_vec_bits(bitvec).len(),
                            bit_vec_bits(bitvec).len() == bits_before.len(),
                            bit_vec_bits(bitvec) == Seq::new(
                                bits_before.len(),
                                |j: int|
                                    if pc <= j < i {
                                        false
                                    } else {
                                        bits_before[j]
                                    },
                            ),
                        decreases pc + push_data_size + 1 - i,
                    {
                        bitvec_set(&mut bitvec, i, false);
                        proof {
                            assert(bit_vec_bits(bitvec) =~= Seq::new(
                                bits_before.len(),
                                |j: int|
                                    if pc <= j < i + 1 {
                                        false
                                    } else {
                                        bits_before[j]
                                    },
                            ));
                        }
                        i = i + 1;
                    }
                    proof {
                        assert(bit_vec_bits(bitvec) =~= clear_range(
                            bits_before,
                            pc as int,
                            pc + push_data_size,
                        ));
                    }
                    pc = pc + push_data_size + 1;
                } else {
                    pc = pc + 1;
                }
            },
            Option::None => {
                return Err(ExecutionError::InvalidOpcode);
            },
        }
    }
    Ok(bitvec)
}

/// True iff the byte at `position` is an instruction byte: reachable code,
/// not the interior of a push immediate.
pub fn is_code(position: usize, code: &Vec<u8>) -> (r: Result<bool, ExecutionError>)
    requires
        code@.len() + 33 <= usize::MAX,
    ensures
        match r {
            Ok(b) => code_bitmap_spec(code@) matches Some(bits) && position < bits.len() && b
                == bits[position as int],
            Err(e) => (e == ExecutionError::InvalidOpcode && code_bitmap_spec(code@) is None) || (
            e == ExecutionError::NotValidJumpDestination && (code_bitmap_spec(
                code@,
            ) matches Some(bits) && position >= bits.len())),
        },
{
    let analysis = code_bitmap(code)?;
    match bitvec_get(&analysis, position) {
        Option::Some(value) => Ok(value),
        Option::None => Err(ExecutionError::NotValidJumpDestination),
    }
}

/// Validates a jump target: within the code, a JUMPDEST byte, and outside
/// any push immediate.
pub fn valid_jumpdest(position: &Word, code: &Vec<u8>) -> (r: Result<bool, ExecutionError>)
    requires
        code@.len() + 33 <= usize::MAX,
    ensures
        match r {
            Ok(b) => word_val(*position) < code@.len() && decode(
                code@[word_val(*position) as int],
            ) == Some(OpCode::Jumpdest) && (code_bitmap_spec(code@) matches Some(bits) && b
                == bits[word_val(*position) as int]),
            Err(e) => {
                ||| (e == ExecutionError::NotValidJumpDestination && (word_val(*position)
                    >= code@.len() || (decode(code@[word_val(*position) as int]) is Some
                    && decode(code@[word_val(*position) as int]) != Some(OpCode::Jumpdest))))
                ||| (e == ExecutionError::InvalidOpcode && word_val(*position) < code@.len()
                    && (decode(code@[word_val(*position) as int]) is None || code_bitmap_spec(
                    code@,
                ) is None))
            },
        },
{
    let pos = match crate::word::word_to_usize(position) {
        Option::Some(p) => p,
        Option::None => {
            return Err(ExecutionError::NotValidJumpDestination);
        },
    };
    if pos >= code.len() {
        return Err(ExecutionError::NotValidJumpDestination);
    }
    if let Option::Some(opcode) = OpCode::new(code[pos]) {
        if !matches!(opcode, OpCode::Jumpdest) {
            return Err(ExecutionError::NotValidJumpDestination);
        }
        proof {
            lemma_bitmap_scan_len(
                code@,
                0,
                Seq::new(code@.len() + 32, |i: int| true),
            );
        }
        let is_valid = is_code(pos, code)?;
        Ok(is_valid)
    } else {
        Err(ExecutionError::InvalidOpcode)
    }
}

} // verus!
