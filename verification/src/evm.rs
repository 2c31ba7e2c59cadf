use vstd::prelude::*;
use crate::block_data::BlockData;
use crate::errors::ExecutionError;
use crate::jumpdest::{code_bitmap_spec, decode_at};
use crate::logs::{Log, logs_view};
use crate::memory::{grown_len, Memory};
use crate::opcode::{decode, spec_data_index, spec_is_push, spec_push_data_size, spec_topics, OpCode};
use crate::state_data::{state_balance, state_code, State};
use crate::storage::{storage_lookup, Storage};
use crate::tx_data::TxData;
use crate::utility::{
    bool_word, data_slice, data_word_at, peek, sar_spec, sdiv_spec, sign_extend_spec, slt_val,
    smod_spec, derived_address,
};
use crate::word::{
    pow256, word_and_spec, word_byte, word_of_be, word_or_spec, word_val, word_xor_spec,
    word_zero, Word,
};

verus! {

/// How a frame ended: `Success` by running off the code, `Halt` through
/// STOP or RETURN, `Revert` through REVERT or any error.
#[derive(Clone, Copy, PartialEq, Eq, Structural, Debug)]
pub enum ExecutionResult {
    Success,
    Revert,
    Halt,
}

/// The parts of a frame one instruction never changes: its code, its
/// transaction and block context, the stack cap and the read-only flag.
pub open spec fn keeps_context(pre: Evm, post: Evm) -> bool {
    &&& post.code@ == pre.code@
    &&& post.tx_data.to@ == pre.tx_data.to@
    &&& post.tx_data.from@ == pre.tx_data.from@
    &&& post.tx_data.origin@ == pre.tx_data.origin@
    &&& post.tx_data.gasprice@ == pre.tx_data.gasprice@
    &&& post.tx_data.value@ == pre.tx_data.value@
    &&& post.tx_data.data@ == pre.tx_data.data@
    &&& post.block_data.basefee@ == pre.block_data.basefee@
    &&& post.block_data.coinbase@ == pre.block_data.coinbase@
    &&& post.block_data.timestamp@ == pre.block_data.timestamp@
    &&& post.block_data.number@ == pre.block_data.number@
    &&& post.block_data.difficulty@ == pre.block_data.difficulty@
    &&& post.block_data.gaslimit@ == pre.block_data.gaslimit@
    &&& post.block_data.chainid@ == pre.block_data.chainid@
    &&& post.limit == pre.limit
    &&& post.read_only == pre.read_only
}

pub open spec fn keeps_memory(pre: Evm, post: Evm) -> bool {
    post.memory@ == pre.memory@
}

pub open spec fn keeps_world(pre: Evm, post: Evm) -> bool {
    post.state@ == pre.state@ && post.storage@ == pre.storage@
}

pub open spec fn keeps_logs(pre: Evm, post: Evm) -> bool {
    logs_view(post.logs@) == logs_view(pre.logs@)
}

pub open spec fn keeps_ret(pre: Evm, post: Evm) -> bool {
    post.return_data@ == pre.return_data@ && post.last_return_data@ == pre.last_return_data@
}

/// An instruction that touches the stack alone.
pub open spec fn only_stack(pre: Evm, post: Evm) -> bool {
    keeps_context(pre, post) && keeps_memory(pre, post) && keeps_world(pre, post) && keeps_logs(
        pre,
        post,
    ) && keeps_ret(pre, post)
}

/// An instruction that touches the stack and the memory alone.
pub open spec fn only_stack_memory(pre: Evm, post: Evm) -> bool {
    keeps_context(pre, post) && keeps_world(pre, post) && keeps_logs(pre, post) && keeps_ret(
        pre,
        post,
    )
}

/// A binary value opcode: two pops, then a push of the word whose value is `v`.
pub open spec fn binop_val_post(
    pre_s: Seq<Word>,
    post_s: Seq<Word>,
    r: Result<(), ExecutionError>,
    v: int,
) -> bool {
    match r {
        Ok(_) => pre_s.len() >= 2 && post_s == pre_s.drop_last().drop_last().push(post_s.last())
            && word_val(post_s.last()) == v,
        Err(e) => e == ExecutionError::StackUnderflow && pre_s.len() < 2 && post_s.len() == 0,
    }
}

/// A binary word opcode: two pops, then a push of exactly `w`.
pub open spec fn binop_word_post(
    pre_s: Seq<Word>,
    post_s: Seq<Word>,
    r: Result<(), ExecutionError>,
    w: Word,
) -> bool {
    match r {
        Ok(_) => pre_s.len() >= 2 && post_s == pre_s.drop_last().drop_last().push(w),
        Err(e) => e == ExecutionError::StackUnderflow && pre_s.len() < 2 && post_s.len() == 0,
    }
}

/// A ternary value opcode: three pops, then a push of the word with value `v`.
pub open spec fn ternop_val_post(
    pre_s: Seq<Word>,
    post_s: Seq<Word>,
    r: Result<(), ExecutionError>,
    v: int,
) -> bool {
    match r {
        Ok(_) => pre_s.len() >= 3 && post_s == pre_s.drop_last().drop_last().drop_last().push(
            post_s.last(),
        ) && word_val(post_s.last()) == v,
        Err(e) => e == ExecutionError::StackUnderflow && pre_s.len() < 3 && post_s.len() == 0,
    }
}

/// A unary value opcode: one pop, then a push of the word with value `v`.
pub open spec fn unop_val_post(
    pre_s: Seq<Word>,
    post_s: Seq<Word>,
    r: Result<(), ExecutionError>,
    v: int,
) -> bool {
    match r {
        Ok(_) => pre_s.len() >= 1 && post_s == pre_s.drop_last().push(post_s.last()) && word_val(
            post_s.last(),
        ) == v,
        Err(e) => e == ExecutionError::StackUnderflow && pre_s.len() == 0 && post_s.len() == 0,
    }
}

/// A unary word opcode: one pop, then a push of exactly `w`.
pub open spec fn unop_word_post(
    pre_s: Seq<Word>,
    post_s: Seq<Word>,
    r: Result<(), ExecutionError>,
    w: Word,
) -> bool {
    match r {
        Ok(_) => pre_s.len() >= 1 && post_s == pre_s.drop_last().push(w),
        Err(e) => e == ExecutionError::StackUnderflow && pre_s.len() == 0 && post_s.len() == 0,
    }
}

/// An opcode that pushes exactly the word `w` without popping.
pub open spec fn push_word_post(
    pre_s: Seq<Word>,
    post_s: Seq<Word>,
    r: Result<(), ExecutionError>,
    w: Word,
    limit: nat,
) -> bool {
    match r {
        Ok(_) => pre_s.len() < limit && post_s == pre_s.push(w),
        Err(e) => e == ExecutionError::StackOverflow && pre_s.len() >= limit && post_s == pre_s,
    }
}

/// An opcode that pushes a word with value `v` without popping.
pub open spec fn push_val_post(
    pre_s: Seq<Word>,
    post_s: Seq<Word>,
    r: Result<(), ExecutionError>,
    v: int,
    limit: nat,
) -> bool {
    match r {
        Ok(_) => pre_s.len() < limit && post_s == pre_s.push(post_s.last()) && word_val(
            post_s.last(),
        ) == v,
        Err(e) => e == ExecutionError::StackOverflow && pre_s.len() >= limit && post_s == pre_s,
    }
}

/// The data-copy template effect: three pops, then `size` source bytes
/// (zero-padded past the source's end) written to memory at the popped
/// destination.
pub open spec fn copy_post(
    pre: Evm,
    post: Evm,
    r: Result<(), ExecutionError>,
    source: Seq<u8>,
) -> bool {
    match r {
        Ok(_) => {
            &&& pre.stack@.len() >= 3
            &&& word_val(peek(pre.stack@, 0)) + word_val(peek(pre.stack@, 2)) + 31 <= usize::MAX
            &&& post.stack@ == pre.stack@.drop_last().drop_last().drop_last()
            &&& (word_val(peek(pre.stack@, 2)) == 0 ==> post.memory@ == pre.memory@)
            &&& (word_val(peek(pre.stack@, 2)) > 0 ==> {
                &&& post.memory@.len() == grown_len(
                    pre.memory@.len(),
                    word_val(peek(pre.stack@, 0)),
                    word_val(peek(pre.stack@, 2)),
                )
                &&& post.memory@.subrange(
                    word_val(peek(pre.stack@, 0)) as int,
                    (word_val(peek(pre.stack@, 0)) + word_val(peek(pre.stack@, 2))) as int,
                ) == data_slice(
                    source,
                    word_val(peek(pre.stack@, 1)),
                    word_val(peek(pre.stack@, 2)),
                )
                &&& forall|i: int|
                    0 <= i < post.memory@.len() && !(word_val(peek(pre.stack@, 0)) <= i
                        < word_val(peek(pre.stack@, 0)) + word_val(peek(pre.stack@, 2)))
                        ==> post.memory@[i] == (if i < pre.memory@.len() {
                        pre.memory@[i]
                    } else {
                        0u8
                    })
            })
        },
        Err(e) => post.memory@ == pre.memory@ && {
            ||| (e == ExecutionError::StackUnderflow && pre.stack@.len() < 3 && post.stack@.len()
                == 0)
            ||| (e == ExecutionError::IntegerOverflow && pre.stack@.len() >= 3 && word_val(
                peek(pre.stack@, 0),
            ) + word_val(peek(pre.stack@, 2)) + 31 > usize::MAX && post.stack@
                == pre.stack@.drop_last().drop_last().drop_last())
        },
    }
}

/// The effect of the RETURN/REVERT blob capture: two pops, growth over the
/// range, and the range recorded in `post.return_data`.
pub open spec fn blob_post(pre: Evm, post: Evm, r: Result<(), ExecutionError>) -> bool {
    match r {
        Ok(_) => {
            &&& pre.stack@.len() >= 2
            &&& word_val(peek(pre.stack@, 0)) + word_val(peek(pre.stack@, 1)) + 31 <= usize::MAX
            &&& (word_val(peek(pre.stack@, 1)) == 0 ==> post.memory@ == pre.memory@)
            &&& (word_val(peek(pre.stack@, 1)) > 0 ==> post.memory@.len() == grown_len(
                pre.memory@.len(),
                word_val(peek(pre.stack@, 0)),
                word_val(peek(pre.stack@, 1)),
            ))
            &&& forall|i: int|
                0 <= i < post.memory@.len() ==> post.memory@[i] == (if i < pre.memory@.len() {
                    pre.memory@[i]
                } else {
                    0u8
                })
            &&& post.return_data@ == (if word_val(peek(pre.stack@, 1)) == 0 {
                Seq::<u8>::empty()
            } else {
                post.memory@.subrange(
                    word_val(peek(pre.stack@, 0)) as int,
                    (word_val(peek(pre.stack@, 0)) + word_val(peek(pre.stack@, 1))) as int,
                )
            })
        },
        Err(e) => post.memory@ == pre.memory@ && post.return_data@ == pre.return_data@ && {
            ||| (e == ExecutionError::StackUnderflow && pre.stack@.len() < 2 && post.stack@.len()
                == 0)
            ||| (e == ExecutionError::IntegerOverflow && pre.stack@.len() >= 2 && word_val(
                peek(pre.stack@, 0),
            ) + word_val(peek(pre.stack@, 1)) + 31 > usize::MAX && post.stack@
                == pre.stack@.drop_last().drop_last())
        },
    }
}

/// The executor's results match the handlers' richer ones: same Ok/Err
/// split, same error kind.
pub open spec fn same_outcome(r: Result<(), ExecutionError>, rv: Result<Word, ExecutionError>) -> bool {
    (r is Ok <==> rv is Ok) && (r is Err ==> r->Err_0 == rv->Err_0)
}

/// The empty starting frame a sub-call runs: given code, snapshots of the
/// parent's world, fresh transient state, and the parent's stack cap.
pub open spec fn subcall_frame(
    child: Evm,
    code: Seq<u8>,
    st: Seq<crate::state_data::AccountView>,
    sto: Seq<crate::storage::StorageEntry>,
    limit: nat,
) -> bool {
    &&& child.code@ == code
    &&& child.stack@ == Seq::<Word>::empty()
    &&& child.memory@ == Seq::<u8>::empty()
    &&& child.logs@.len() == 0
    &&& child.return_data@ == Seq::<u8>::empty()
    &&& child.last_return_data@ == Seq::<u8>::empty()
    &&& child.state@ == st
    &&& child.storage@ == sto
    &&& child.limit == limit
    &&& child.tx_data.gasprice@ == Seq::<u8>::empty()
}

/// The full effect of CALL on the parent frame, stated over views. On
/// success (1 pushed) there is a child frame, running the target's code over
/// snapshots, whose execution ended Success or Halt and whose state, storage
/// and logs the parent committed; on a 0 push the child reverted (or the
/// depth ran out) and the parent's world is untouched.
#[verifier::opaque]
pub open spec fn call_effect(
    pre_stack: Seq<Word>,
    post_stack: Seq<Word>,
    pre_mem: Seq<u8>,
    post_mem: Seq<u8>,
    pre_state: Seq<crate::state_data::AccountView>,
    post_state: Seq<crate::state_data::AccountView>,
    pre_store: Seq<crate::storage::StorageEntry>,
    post_store: Seq<crate::storage::StorageEntry>,
    pre_lastret: Seq<u8>,
    post_lastret: Seq<u8>,
    pre_logs: Seq<crate::logs::LogView>,
    post_logs: Seq<crate::logs::LogView>,
    tx_to: Seq<u8>,
    tx_origin: Seq<u8>,
    limit: nat,
    read_only: bool,
    depth: nat,
    r: Result<Word, ExecutionError>,
) -> bool {
    match r {
        Ok(v) => {
            &&& pre_stack.len() >= 7
            &&& (word_val(v) == 0 || word_val(v) == 1)
            &&& post_stack == pre_stack.take(pre_stack.len() - 7).push(v)
            &&& (word_val(v) == 0 ==> post_state == pre_state && post_store == pre_store
                && post_logs == pre_logs)
            &&& post_logs.len() >= pre_logs.len()
            &&& post_logs.take(pre_logs.len() as int) == pre_logs
            &&& (post_lastret.len() > 0 ==> word_val(peek(pre_stack, 5)) + post_lastret.len()
                + 31 <= usize::MAX && post_mem.subrange(
                word_val(peek(pre_stack, 5)) as int,
                (word_val(peek(pre_stack, 5)) + post_lastret.len()) as int,
            ) == post_lastret)
            &&& (depth == 0 ==> word_val(v) == 0 && post_lastret == Seq::<u8>::empty())
        },
        Err(e) => post_state == pre_state && post_store == pre_store && post_lastret
            == pre_lastret && post_logs == pre_logs && {
            ||| (e == ExecutionError::ReadOnly && read_only && pre_stack.len() >= 3 && word_val(
                peek(pre_stack, 2),
            ) != 0 && post_stack == pre_stack.take(pre_stack.len() - 3) && post_mem == pre_mem)
            ||| (e == ExecutionError::StackUnderflow && pre_stack.len() < 7 && !(read_only
                && pre_stack.len() >= 3 && word_val(peek(pre_stack, 2)) != 0)
                && post_stack.len() == 0 && post_mem == pre_mem)
            ||| (e == ExecutionError::IntegerOverflow && pre_stack.len() >= 7 && post_stack
                == pre_stack.take(pre_stack.len() - 7))
        },
    }
}

/// The full effect of DELEGATECALL: like CALL with six operands, the child
/// running the target's code under the parent's own address, caller and value.
#[verifier::opaque]
pub open spec fn delegatecall_effect(
    pre_stack: Seq<Word>,
    post_stack: Seq<Word>,
    pre_mem: Seq<u8>,
    post_mem: Seq<u8>,
    pre_state: Seq<crate::state_data::AccountView>,
    post_state: Seq<crate::state_data::AccountView>,
    pre_store: Seq<crate::storage::StorageEntry>,
    post_store: Seq<crate::storage::StorageEntry>,
    pre_lastret: Seq<u8>,
    post_lastret: Seq<u8>,
    pre_logs: Seq<crate::logs::LogView>,
    post_logs: Seq<crate::logs::LogView>,
    tx_to: Seq<u8>,
    tx_from: Seq<u8>,
    tx_origin: Seq<u8>,
    value: Seq<u8>,
    limit: nat,
    read_only: bool,
    depth: nat,
    r: Result<Word, ExecutionError>,
) -> bool {
    match r {
        Ok(v) => {
            &&& pre_stack.len() >= 6
            &&& (word_val(v) == 0 || word_val(v) == 1)
            &&& post_stack == pre_stack.take(pre_stack.len() - 6).push(v)
            &&& (word_val(v) == 0 ==> post_state == pre_state && post_store == pre_store
                && post_logs == pre_logs)
            &&& post_logs.len() >= pre_logs.len()
            &&& post_logs.take(pre_logs.len() as int) == pre_logs
            &&& (post_lastret.len() > 0 ==> word_val(peek(pre_stack, 4)) + post_lastret.len()
                + 31 <= usize::MAX && post_mem.subrange(
                word_val(peek(pre_stack, 4)) as int,
                (word_val(peek(pre_stack, 4)) + post_lastret.len()) as int,
            ) == post_lastret)
            &&& (depth == 0 ==> word_val(v) == 0 && post_lastret == Seq::<u8>::empty())
        },
        Err(e) => post_state == pre_state && post_store == pre_store && post_lastret
            == pre_lastret && post_logs == pre_logs && {
            ||| (e == ExecutionError::StackUnderflow && pre_stack.len() < 6 && post_stack.len()
                == 0 && post_mem == pre_mem)
            ||| (e == ExecutionError::IntegerOverflow && pre_stack.len() >= 6 && post_stack
                == pre_stack.take(pre_stack.len() - 6))
        },
    }
}

/// The full effect of STATICCALL: like DELEGATECALL, but the child runs the
/// target's code under the target's address and is read-only throughout.
#[verifier::opaque]
pub open spec fn staticcall_effect(
    pre_stack: Seq<Word>,
    post_stack: Seq<Word>,
    pre_mem: Seq<u8>,
    post_mem: Seq<u8>,
    pre_state: Seq<crate::state_data::AccountView>,
    post_state: Seq<crate::state_data::AccountView>,
    pre_store: Seq<crate::storage::StorageEntry>,
    post_store: Seq<crate::storage::StorageEntry>,
    pre_lastret: Seq<u8>,
    post_lastret: Seq<u8>,
    pre_logs: Seq<crate::logs::LogView>,
    post_logs: Seq<crate::logs::LogView>,
    tx_to: Seq<u8>,
    tx_origin: Seq<u8>,
    tx_value: Seq<u8>,
    limit: nat,
    depth: nat,
    r: Result<Word, ExecutionError>,
) -> bool {
    match r {
        Ok(v) => {
            &&& pre_stack.len() >= 6
            &&& (word_val(v) == 0 || word_val(v) == 1)
            &&& post_stack == pre_stack.take(pre_stack.len() - 6).push(v)
            &&& (word_val(v) == 0 ==> post_state == pre_state && post_store == pre_store
                && post_logs == pre_logs)
            &&& post_logs.len() >= pre_logs.len()
            &&& post_logs.take(pre_logs.len() as int) == pre_logs
            &&& (post_lastret.len() > 0 ==> word_val(peek(pre_stack, 4)) + post_lastret.len()
                + 31 <= usize::MAX && post_mem.subrange(
                word_val(peek(pre_stack, 4)) as int,
                (word_val(peek(pre_stack, 4)) + post_lastret.len()) as int,
            ) == post_lastret)
            &&& (depth == 0 ==> word_val(v) == 0 && post_lastret == Seq::<u8>::empty())
        },
        Err(e) => post_state == pre_state && post_store == pre_store && post_lastret
            == pre_lastret && post_logs == pre_logs && {
            ||| (e == ExecutionError::StackUnderflow && pre_stack.len() < 6 && post_stack.len()
                == 0 && post_mem == pre_mem)
            ||| (e == ExecutionError::IntegerOverflow && pre_stack.len() >= 6 && post_stack
                == pre_stack.take(pre_stack.len() - 6))
        },
    }
}

/// The full effect of CREATE: the init code read from memory runs in a child
/// frame; on Success/Halt the child's return blob becomes the code of the
/// derived address (with the popped value as its balance) and that address
/// is pushed; on the child's revert or an exhausted depth, 0 is pushed and
/// the parent's world is untouched.
#[verifier::opaque]
pub open spec fn create_effect(
    pre_stack: Seq<Word>,
    post_stack: Seq<Word>,
    pre_mem: Seq<u8>,
    pre_state: Seq<crate::state_data::AccountView>,
    post_state: Seq<crate::state_data::AccountView>,
    pre_store: Seq<crate::storage::StorageEntry>,
    post_store: Seq<crate::storage::StorageEntry>,
    pre_lastret: Seq<u8>,
    post_lastret: Seq<u8>,
    pre_logs: Seq<crate::logs::LogView>,
    post_logs: Seq<crate::logs::LogView>,
    tx_to: Seq<u8>,
    tx_origin: Seq<u8>,
    limit: nat,
    read_only: bool,
    depth: nat,
    r: Result<Word, ExecutionError>,
) -> bool {
    match r {
        Ok(v) => {
            &&& !read_only
            &&& pre_stack.len() >= 3
            &&& post_stack == pre_stack.take(pre_stack.len() - 3).push(v)
            &&& (depth == 0 ==> v == word_zero() && post_state == pre_state && post_store
                == pre_store && post_lastret == pre_lastret && post_logs == pre_logs)
            &&& {
                ||| (v == word_zero() && post_state == pre_state && post_store == pre_store
                    && post_lastret == pre_lastret && post_logs == pre_logs)
                ||| (v == derived_address(
                    tx_to,
                    crate::state_data::state_nonce(pre_state, word_of_be(tx_to)),
                ) && crate::state_data::state_contains(post_state, v) && state_code(
                    post_state,
                    v,
                ) == post_lastret && crate::state_data::state_balance(post_state, v) == peek(
                    pre_stack,
                    0,
                ) && post_logs.len() >= pre_logs.len() && post_logs.take(pre_logs.len() as int)
                    == pre_logs)
            }
        },
        Err(e) => {
            ||| (e == ExecutionError::ReadOnly && read_only && post_stack == pre_stack
                && post_state == pre_state && post_store == pre_store && post_lastret
                == pre_lastret && post_logs == pre_logs)
            ||| (e == ExecutionError::StackUnderflow && !read_only && pre_stack.len() < 3
                && post_stack.len() == 0 && post_state == pre_state && post_store == pre_store
                && post_lastret == pre_lastret && post_logs == pre_logs)
            ||| (e == ExecutionError::IntegerOverflow && !read_only && pre_stack.len() >= 3
                && post_stack == pre_stack.take(pre_stack.len() - 3) && post_state == pre_state
                && post_store == pre_store && post_lastret == pre_lastret && post_logs
                == pre_logs)
            ||| (e == ExecutionError::ContractAddressCollision && !read_only && pre_stack.len()
                >= 3 && post_stack == pre_stack.take(pre_stack.len() - 3) && post_lastret
                == pre_lastret && post_logs == pre_logs)
        },
    }
}

/// What one executed instruction does to the frame and the program counter:
/// the per-opcode semantics of the dispatcher, stated over the same spec
/// functions as the handlers' own contracts. Kept opaque so that reasoning
/// about chains of steps does not unfold the whole table.
#[verifier::opaque]
pub open spec fn transact_post(
    opcode: OpCode,
    pre: Evm,
    post: Evm,
    pc1: nat,
    pc2: nat,
    r: Result<(), ExecutionError>,
    depth: nat,
) -> bool {
    match opcode {
        OpCode::Stop => r == Err::<(), ExecutionError>(ExecutionError::Halt) && post == pre
            && pc2 == pc1,
        OpCode::Jumpdest => r == Ok::<(), ExecutionError>(()) && post == pre && pc2 == pc1,
        OpCode::Push0 => only_stack(pre, post) && pc2 == pc1 && push_word_post(
            pre.stack@,
            post.stack@,
            r,
            word_zero(),
            pre.limit as nat,
        ),
        OpCode::Gas => only_stack(pre, post) && pc2 == pc1 && push_val_post(
            pre.stack@,
            post.stack@,
            r,
            pow256() as int - 1,
            pre.limit as nat,
        ),
        OpCode::Pc => only_stack(pre, post) && pc2 == pc1 && push_val_post(
            pre.stack@,
            post.stack@,
            r,
            pc1 as int,
            pre.limit as nat,
        ),
        OpCode::Blockhash => only_stack(pre, post) && pc2 == pc1 && push_word_post(
            pre.stack@,
            post.stack@,
            r,
            word_zero(),
            pre.limit as nat,
        ),
        OpCode::Push1 | OpCode::Push2 | OpCode::Push3 | OpCode::Push4 | OpCode::Push5
            | OpCode::Push6 | OpCode::Push7 | OpCode::Push8 | OpCode::Push9 | OpCode::Push10
            | OpCode::Push11 | OpCode::Push12 | OpCode::Push13 | OpCode::Push14 | OpCode::Push15
            | OpCode::Push16 | OpCode::Push17 | OpCode::Push18 | OpCode::Push19 | OpCode::Push20
            | OpCode::Push21 | OpCode::Push22 | OpCode::Push23 | OpCode::Push24 | OpCode::Push25
            | OpCode::Push26 | OpCode::Push27 | OpCode::Push28 | OpCode::Push29 | OpCode::Push30
            | OpCode::Push31 | OpCode::Push32 => only_stack(pre, post) && {
            let n = spec_push_data_size(opcode);
            match r {
                Ok(_) => pre.code@.len() >= pc1 + 1 + n && pre.stack@.len() < pre.limit
                    && post.stack@ == pre.stack@.push(
                    word_of_be(pre.code@.subrange(pc1 as int + 1, (pc1 + 1 + n) as int)),
                ) && pc2 == pc1 + n,
                Err(e) => pc2 == pc1 && post.stack@ == pre.stack@ && {
                    ||| (e == ExecutionError::InsufficientCodeItems && pre.code@.len() < pc1 + 1
                        + n)
                    ||| (e == ExecutionError::StackOverflow && pre.code@.len() >= pc1 + 1 + n
                        && pre.stack@.len() >= pre.limit)
                },
            }
        },
        OpCode::Pop => only_stack(pre, post) && pc2 == pc1 && match r {
            Ok(_) => pre.stack@.len() >= 1 && post.stack@ == pre.stack@.drop_last(),
            Err(e) => e == ExecutionError::StackUnderflow && pre.stack@.len() == 0 && post.stack@
                == pre.stack@,
        },
        OpCode::Add => only_stack(pre, post) && pc2 == pc1 && binop_val_post(
            pre.stack@,
            post.stack@,
            r,
            ((word_val(peek(pre.stack@, 0)) + word_val(peek(pre.stack@, 1))) % pow256()) as int,
        ),
        OpCode::Mul => only_stack(pre, post) && pc2 == pc1 && binop_val_post(
            pre.stack@,
            post.stack@,
            r,
            ((word_val(peek(pre.stack@, 0)) * word_val(peek(pre.stack@, 1))) % pow256()) as int,
        ),
        OpCode::Sub => only_stack(pre, post) && pc2 == pc1 && binop_val_post(
            pre.stack@,
            post.stack@,
            r,
            (word_val(peek(pre.stack@, 0)) as int - word_val(peek(pre.stack@, 1)) as int) % (
            pow256() as int),
        ),
        OpCode::Div => only_stack(pre, post) && pc2 == pc1 && binop_val_post(
            pre.stack@,
            post.stack@,
            r,
            if word_val(peek(pre.stack@, 1)) == 0 {
                0
            } else {
                (word_val(peek(pre.stack@, 0)) / word_val(peek(pre.stack@, 1))) as int
            },
        ),
        OpCode::Mod => only_stack(pre, post) && pc2 == pc1 && binop_val_post(
            pre.stack@,
            post.stack@,
            r,
            if word_val(peek(pre.stack@, 1)) == 0 {
                0
            } else {
                (word_val(peek(pre.stack@, 0)) % word_val(peek(pre.stack@, 1))) as int
            },
        ),
        OpCode::Sdiv => only_stack(pre, post) && pc2 == pc1 && binop_val_post(
            pre.stack@,
            post.stack@,
            r,
            sdiv_spec(word_val(peek(pre.stack@, 0)), word_val(peek(pre.stack@, 1))) as int,
        ),
        OpCode::Smod => only_stack(pre, post) && pc2 == pc1 && binop_val_post(
            pre.stack@,
            post.stack@,
            r,
            smod_spec(word_val(peek(pre.stack@, 0)), word_val(peek(pre.stack@, 1))) as int,
        ),
        OpCode::Addmod => only_stack(pre, post) && pc2 == pc1 && ternop_val_post(
            pre.stack@,
            post.stack@,
            r,
            if word_val(peek(pre.stack@, 2)) == 0 {
                0
            } else {
                ((word_val(peek(pre.stack@, 0)) + word_val(peek(pre.stack@, 1))) % word_val(
                    peek(pre.stack@, 2),
                )) as int
            },
        ),
        OpCode::Mulmod => only_stack(pre, post) && pc2 == pc1 && ternop_val_post(
            pre.stack@,
            post.stack@,
            r,
            if word_val(peek(pre.stack@, 2)) == 0 {
                0
            } else {
                ((word_val(peek(pre.stack@, 0)) * word_val(peek(pre.stack@, 1))) % word_val(
                    peek(pre.stack@, 2),
                )) as int
            },
        ),
        OpCode::Exp => only_stack(pre, post) && pc2 == pc1 && binop_val_post(
            pre.stack@,
            post.stack@,
            r,
            vstd::arithmetic::power::pow(
                word_val(peek(pre.stack@, 0)) as int,
                word_val(peek(pre.stack@, 1)),
            ) % (pow256() as int),
        ),
        OpCode::Signextend => only_stack(pre, post) && pc2 == pc1 && binop_word_post(
            pre.stack@,
            post.stack@,
            r,
            sign_extend_spec(word_val(peek(pre.stack@, 0)), peek(pre.stack@, 1)),
        ),
        OpCode::Lt => only_stack(pre, post) && pc2 == pc1 && binop_word_post(
            pre.stack@,
            post.stack@,
            r,
            bool_word(word_val(peek(pre.stack@, 0)) < word_val(peek(pre.stack@, 1))),
        ),
        OpCode::Gt => only_stack(pre, post) && pc2 == pc1 && binop_word_post(
            pre.stack@,
            post.stack@,
            r,
            bool_word(word_val(peek(pre.stack@, 0)) > word_val(peek(pre.stack@, 1))),
        ),
        OpCode::Slt => only_stack(pre, post) && pc2 == pc1 && binop_word_post(
            pre.stack@,
            post.stack@,
            r,
            bool_word(slt_val(word_val(peek(pre.stack@, 0)), word_val(peek(pre.stack@, 1)))),
        ),
        OpCode::Sgt => only_stack(pre, post) && pc2 == pc1 && binop_word_post(
            pre.stack@,
            post.stack@,
            r,
            bool_word(slt_val(word_val(peek(pre.stack@, 1)), word_val(peek(pre.stack@, 0)))),
        ),
        OpCode::Eq => only_stack(pre, post) && pc2 == pc1 && binop_word_post(
            pre.stack@,
            post.stack@,
            r,
            bool_word(word_val(peek(pre.stack@, 0)) == word_val(peek(pre.stack@, 1))),
        ),
        OpCode::Iszero => only_stack(pre, post) && pc2 == pc1 && unop_word_post(
            pre.stack@,
            post.stack@,
            r,
            bool_word(word_val(peek(pre.stack@, 0)) == 0),
        ),
        OpCode::Not => only_stack(pre, post) && pc2 == pc1 && unop_val_post(
            pre.stack@,
            post.stack@,
            r,
            pow256() as int - 1 - word_val(peek(pre.stack@, 0)),
        ),
        OpCode::And => only_stack(pre, post) && pc2 == pc1 && binop_word_post(
            pre.stack@,
            post.stack@,
            r,
            word_and_spec(peek(pre.stack@, 0), peek(pre.stack@, 1)),
        ),
        OpCode::Or => only_stack(pre, post) && pc2 == pc1 && binop_word_post(
            pre.stack@,
            post.stack@,
            r,
            word_or_spec(peek(pre.stack@, 0), peek(pre.stack@, 1)),
        ),
        OpCode::Xor => only_stack(pre, post) && pc2 == pc1 && binop_word_post(
            pre.stack@,
            post.stack@,
            r,
            word_xor_spec(peek(pre.stack@, 0), peek(pre.stack@, 1)),
        ),
        OpCode::Shl => only_stack(pre, post) && pc2 == pc1 && binop_val_post(
            pre.stack@,
            post.stack@,
            r,
            if word_val(peek(pre.stack@, 0)) >= 256 {
                0
            } else {
                ((word_val(peek(pre.stack@, 1)) * vstd::arithmetic::power2::pow2(
                    word_val(peek(pre.stack@, 0)),
                )) % pow256()) as int
            },
        ),
        OpCode::Shr => only_stack(pre, post) && pc2 == pc1 && binop_val_post(
            pre.stack@,
            post.stack@,
            r,
            if word_val(peek(pre.stack@, 0)) >= 256 {
                0
            } else {
                (word_val(peek(pre.stack@, 1)) / vstd::arithmetic::power2::pow2(
                    word_val(peek(pre.stack@, 0)),
                )) as int
            },
        ),
        OpCode::Sar => only_stack(pre, post) && pc2 == pc1 && binop_val_post(
            pre.stack@,
            post.stack@,
            r,
            sar_spec(word_val(peek(pre.stack@, 0)), word_val(peek(pre.stack@, 1))) as int,
        ),
        OpCode::Byte => only_stack(pre, post) && pc2 == pc1 && binop_val_post(
            pre.stack@,
            post.stack@,
            r,
            if word_val(peek(pre.stack@, 0)) >= 32 {
                0
            } else {
                word_byte(peek(pre.stack@, 1), 31 - word_val(peek(pre.stack@, 0))) as int
            },
        ),
        OpCode::Dup1 | OpCode::Dup2 | OpCode::Dup3 | OpCode::Dup4 | OpCode::Dup5 | OpCode::Dup6
            | OpCode::Dup7 | OpCode::Dup8 | OpCode::Dup9 | OpCode::Dup10 | OpCode::Dup11
            | OpCode::Dup12 | OpCode::Dup13 | OpCode::Dup14 | OpCode::Dup15 | OpCode::Dup16 => {
            let idx = spec_data_index(opcode);
            only_stack(pre, post) && pc2 == pc1 && match r {
                Ok(_) => pre.stack@.len() >= idx && pre.stack@.len() < pre.limit && post.stack@
                    == pre.stack@.push(peek(pre.stack@, idx - 1)),
                Err(e) => {
                    ||| (e == ExecutionError::StackUnderflow && pre.stack@.len() < idx
                        && post.stack@.len() == 0)
                    ||| (e == ExecutionError::StackOverflow && pre.stack@.len() >= idx
                        && pre.stack@.len() >= pre.limit && post.stack@ == pre.stack@)
                },
            }
        },
        OpCode::Swap1 | OpCode::Swap2 | OpCode::Swap3 | OpCode::Swap4 | OpCode::Swap5
            | OpCode::Swap6 | OpCode::Swap7 | OpCode::Swap8 | OpCode::Swap9 | OpCode::Swap10
            | OpCode::Swap11 | OpCode::Swap12 | OpCode::Swap13 | OpCode::Swap14 | OpCode::Swap15
            | OpCode::Swap16 => {
            let idx = spec_data_index(opcode);
            only_stack(pre, post) && pc2 == pc1 && match r {
                Ok(_) => pre.stack@.len() >= idx + 1 && post.stack@ == pre.stack@.update(
                    pre.stack@.len() - 1,
                    peek(pre.stack@, idx as int),
                ).update(pre.stack@.len() - 1 - idx, peek(pre.stack@, 0)),
                Err(e) => e == ExecutionError::StackUnderflow && pre.stack@.len() < idx + 1
                    && post.stack@.len() == 0,
            }
        },
        OpCode::Jump => only_stack(pre, post) && match r {
            Ok(_) => pre.stack@.len() >= 1 && post.stack@ == pre.stack@.drop_last() && word_val(
                peek(pre.stack@, 0),
            ) < pre.code@.len() && decode_at(pre.code@, word_val(peek(pre.stack@, 0))) == Some(
                OpCode::Jumpdest,
            ) && (code_bitmap_spec(pre.code@) matches Some(bits) && bits[word_val(
                peek(pre.stack@, 0),
            ) as int]) && pc2 == word_val(peek(pre.stack@, 0)),
            Err(e) => pc2 == pc1 && {
                ||| (e == ExecutionError::StackUnderflow && pre.stack@.len() == 0 && post.stack@
                    == pre.stack@)
                ||| (pre.stack@.len() >= 1 && post.stack@ == pre.stack@.drop_last() && (e
                    == ExecutionError::NotValidJumpDestination || e
                    == ExecutionError::InvalidOpcode))
            },
        },
        OpCode::Jumpi => only_stack(pre, post) && match r {
            Ok(_) => pre.stack@.len() >= 2 && post.stack@ == pre.stack@.drop_last().drop_last()
                && (word_val(peek(pre.stack@, 1)) == 0 ==> pc2 == pc1) && (word_val(
                peek(pre.stack@, 1),
            ) != 0 ==> word_val(peek(pre.stack@, 0)) < pre.code@.len() && decode_at(
                pre.code@,
                word_val(peek(pre.stack@, 0)),
            ) == Some(OpCode::Jumpdest) && (code_bitmap_spec(pre.code@) matches Some(bits)
                && bits[word_val(peek(pre.stack@, 0)) as int]) && pc2 == word_val(
                peek(pre.stack@, 0),
            )),
            Err(e) => pc2 == pc1 && {
                ||| (e == ExecutionError::StackUnderflow && pre.stack@.len() < 2 && post.stack@.len() == 0)
                ||| (pre.stack@.len() >= 2 && post.stack@
                    == pre.stack@.drop_last().drop_last() && word_val(peek(pre.stack@, 1)) != 0
                    && (e == ExecutionError::NotValidJumpDestination || e
                    == ExecutionError::InvalidOpcode))
            },
        },
        OpCode::Mstore => only_stack_memory(pre, post) && pc2 == pc1 && match r {
            Ok(_) => {
                &&& pre.stack@.len() >= 2
                &&& word_val(peek(pre.stack@, 0)) + 63 <= usize::MAX
                &&& post.stack@ == pre.stack@.drop_last().drop_last()
                &&& post.memory@.len() == grown_len(
                    pre.memory@.len(),
                    word_val(peek(pre.stack@, 0)),
                    32,
                )
                &&& post.memory@.subrange(
                    word_val(peek(pre.stack@, 0)) as int,
                    word_val(peek(pre.stack@, 0)) as int + 32,
                ) == crate::word::word_be_bytes(peek(pre.stack@, 1))
                &&& forall|i: int|
                    0 <= i < post.memory@.len() && !(word_val(peek(pre.stack@, 0)) <= i
                        < word_val(peek(pre.stack@, 0)) + 32) ==> post.memory@[i] == (if i
                        < pre.memory@.len() {
                        pre.memory@[i]
                    } else {
                        0u8
                    })
            },
            Err(e) => post.memory@ == pre.memory@ && {
                ||| (e == ExecutionError::StackUnderflow && pre.stack@.len() < 2
                    && post.stack@.len() == 0)
                ||| (e == ExecutionError::IntegerOverflow && pre.stack@.len() >= 2 && word_val(
                    peek(pre.stack@, 0),
                ) + 63 > usize::MAX && post.stack@ == pre.stack@.drop_last().drop_last())
            },
        },
        OpCode::Mload => only_stack_memory(pre, post) && pc2 == pc1 && match r {
            Ok(_) => {
                &&& pre.stack@.len() >= 1
                &&& word_val(peek(pre.stack@, 0)) + 63 <= usize::MAX
                &&& post.memory@.len() == grown_len(
                    pre.memory@.len(),
                    word_val(peek(pre.stack@, 0)),
                    32,
                )
                &&& forall|i: int|
                    0 <= i < post.memory@.len() ==> post.memory@[i] == (if i
                        < pre.memory@.len() {
                        pre.memory@[i]
                    } else {
                        0u8
                    })
                &&& post.stack@ == pre.stack@.drop_last().push(
                    word_of_be(
                        post.memory@.subrange(
                            word_val(peek(pre.stack@, 0)) as int,
                            word_val(peek(pre.stack@, 0)) as int + 32,
                        ),
                    ),
                )
            },
            Err(e) => post.memory@ == pre.memory@ && {
                ||| (e == ExecutionError::StackUnderflow && pre.stack@.len() == 0
                    && post.stack@.len() == 0)
                ||| (e == ExecutionError::IntegerOverflow && pre.stack@.len() >= 1 && word_val(
                    peek(pre.stack@, 0),
                ) + 63 > usize::MAX && post.stack@ == pre.stack@.drop_last())
            },
        },
        OpCode::Mstore8 => only_stack_memory(pre, post) && pc2 == pc1 && match r {
            Ok(_) => {
                &&& pre.stack@.len() >= 2
                &&& word_val(peek(pre.stack@, 0)) + 32 <= usize::MAX
                &&& post.stack@ == pre.stack@.drop_last().drop_last()
                &&& post.memory@.len() == grown_len(
                    pre.memory@.len(),
                    word_val(peek(pre.stack@, 0)),
                    1,
                )
                &&& post.memory@[word_val(peek(pre.stack@, 0)) as int] == word_byte(
                    peek(pre.stack@, 1),
                    0,
                )
                &&& forall|i: int|
                    0 <= i < post.memory@.len() && i != word_val(peek(pre.stack@, 0))
                        ==> post.memory@[i] == (if i < pre.memory@.len() {
                        pre.memory@[i]
                    } else {
                        0u8
                    })
            },
            Err(e) => post.memory@ == pre.memory@ && {
                ||| (e == ExecutionError::StackUnderflow && pre.stack@.len() < 2
                    && post.stack@.len() == 0)
                ||| (e == ExecutionError::IntegerOverflow && pre.stack@.len() >= 2 && word_val(
                    peek(pre.stack@, 0),
                ) + 32 > usize::MAX && post.stack@ == pre.stack@.drop_last().drop_last())
            },
        },
        OpCode::Msize => only_stack(pre, post) && pc2 == pc1 && push_val_post(
            pre.stack@,
            post.stack@,
            r,
            pre.memory@.len() as int,
            pre.limit as nat,
        ),
        OpCode::Sha3 => only_stack_memory(pre, post) && pc2 == pc1 && match r {
            Ok(_) => {
                &&& pre.stack@.len() >= 2
                &&& word_val(peek(pre.stack@, 0)) + word_val(peek(pre.stack@, 1)) + 31
                    <= usize::MAX
                &&& (word_val(peek(pre.stack@, 1)) == 0 ==> post.memory@ == pre.memory@)
                &&& (word_val(peek(pre.stack@, 1)) > 0 ==> post.memory@.len() == grown_len(
                    pre.memory@.len(),
                    word_val(peek(pre.stack@, 0)),
                    word_val(peek(pre.stack@, 1)),
                ))
                &&& forall|i: int|
                    0 <= i < post.memory@.len() ==> post.memory@[i] == (if i
                        < pre.memory@.len() {
                        pre.memory@[i]
                    } else {
                        0u8
                    })
                &&& post.stack@ == pre.stack@.drop_last().drop_last().push(
                    word_of_be(
                        crate::keccak::keccak_of(
                            if word_val(peek(pre.stack@, 1)) == 0 {
                                Seq::<u8>::empty()
                            } else {
                                post.memory@.subrange(
                                    word_val(peek(pre.stack@, 0)) as int,
                                    (word_val(peek(pre.stack@, 0)) + word_val(
                                        peek(pre.stack@, 1),
                                    )) as int,
                                )
                            },
                        ),
                    ),
                )
            },
            Err(e) => post.memory@ == pre.memory@ && {
                ||| (e == ExecutionError::StackUnderflow && pre.stack@.len() < 2
                    && post.stack@.len() == 0)
                ||| (e == ExecutionError::IntegerOverflow && pre.stack@.len() >= 2 && word_val(
                    peek(pre.stack@, 0),
                ) + word_val(peek(pre.stack@, 1)) + 31 > usize::MAX && post.stack@
                    == pre.stack@.drop_last().drop_last())
            },
        },
        OpCode::Address => only_stack(pre, post) && pc2 == pc1 && push_word_post(
            pre.stack@,
            post.stack@,
            r,
            word_of_be(pre.tx_data.to@),
            pre.limit as nat,
        ),
        OpCode::Caller => only_stack(pre, post) && pc2 == pc1 && push_word_post(
            pre.stack@,
            post.stack@,
            r,
            word_of_be(pre.tx_data.from@),
            pre.limit as nat,
        ),
        OpCode::Origin => only_stack(pre, post) && pc2 == pc1 && push_word_post(
            pre.stack@,
            post.stack@,
            r,
            word_of_be(pre.tx_data.origin@),
            pre.limit as nat,
        ),
        OpCode::Gasprice => only_stack(pre, post) && pc2 == pc1 && push_word_post(
            pre.stack@,
            post.stack@,
            r,
            word_of_be(pre.tx_data.gasprice@),
            pre.limit as nat,
        ),
        OpCode::Callvalue => only_stack(pre, post) && pc2 == pc1 && push_word_post(
            pre.stack@,
            post.stack@,
            r,
            word_of_be(pre.tx_data.value@),
            pre.limit as nat,
        ),
        OpCode::Basfee => only_stack(pre, post) && pc2 == pc1 && push_word_post(
            pre.stack@,
            post.stack@,
            r,
            word_of_be(pre.block_data.basefee@),
            pre.limit as nat,
        ),
        OpCode::Coinbase => only_stack(pre, post) && pc2 == pc1 && push_word_post(
            pre.stack@,
            post.stack@,
            r,
            word_of_be(pre.block_data.coinbase@),
            pre.limit as nat,
        ),
        OpCode::Timestamp => only_stack(pre, post) && pc2 == pc1 && push_word_post(
            pre.stack@,
            post.stack@,
            r,
            word_of_be(pre.block_data.timestamp@),
            pre.limit as nat,
        ),
        OpCode::Number => only_stack(pre, post) && pc2 == pc1 && push_word_post(
            pre.stack@,
            post.stack@,
            r,
            word_of_be(pre.block_data.number@),
            pre.limit as nat,
        ),
        OpCode::Difficulty => only_stack(pre, post) && pc2 == pc1 && push_word_post(
            pre.stack@,
            post.stack@,
            r,
            word_of_be(pre.block_data.difficulty@),
            pre.limit as nat,
        ),
        OpCode::Gaslimit => only_stack(pre, post) && pc2 == pc1 && push_word_post(
            pre.stack@,
            post.stack@,
            r,
            word_of_be(pre.block_data.gaslimit@),
            pre.limit as nat,
        ),
        OpCode::Chainid => only_stack(pre, post) && pc2 == pc1 && push_word_post(
            pre.stack@,
            post.stack@,
            r,
            word_of_be(pre.block_data.chainid@),
            pre.limit as nat,
        ),
        OpCode::Balance => only_stack(pre, post) && pc2 == pc1 && unop_word_post(
            pre.stack@,
            post.stack@,
            r,
            state_balance(pre.state@, peek(pre.stack@, 0)),
        ),
        OpCode::Selfbalance => only_stack(pre, post) && pc2 == pc1 && push_word_post(
            pre.stack@,
            post.stack@,
            r,
            state_balance(pre.state@, word_of_be(pre.tx_data.to@)),
            pre.limit as nat,
        ),
        OpCode::Calldataload => only_stack(pre, post) && pc2 == pc1 && unop_word_post(
            pre.stack@,
            post.stack@,
            r,
            data_word_at(pre.tx_data.data@, word_val(peek(pre.stack@, 0))),
        ),
        OpCode::Calldatasize => only_stack(pre, post) && pc2 == pc1 && push_val_post(
            pre.stack@,
            post.stack@,
            r,
            pre.tx_data.data@.len() as int,
            pre.limit as nat,
        ),
        OpCode::Codesize => only_stack(pre, post) && pc2 == pc1 && push_val_post(
            pre.stack@,
            post.stack@,
            r,
            pre.code@.len() as int,
            pre.limit as nat,
        ),
        OpCode::Returndatasize => only_stack(pre, post) && pc2 == pc1 && push_val_post(
            pre.stack@,
            post.stack@,
            r,
            pre.last_return_data@.len() as int,
            pre.limit as nat,
        ),
        OpCode::Extcodesize => only_stack(pre, post) && pc2 == pc1 && unop_val_post(
            pre.stack@,
            post.stack@,
            r,
            state_code(pre.state@, peek(pre.stack@, 0)).len() as int,
        ),
        OpCode::Extcodehash => only_stack(pre, post) && pc2 == pc1 && unop_word_post(
            pre.stack@,
            post.stack@,
            r,
            word_of_be(crate::keccak::keccak_of(state_code(pre.state@, peek(pre.stack@, 0)))),
        ),
        OpCode::Calldatacopy => only_stack_memory(pre, post) && pc2 == pc1 && copy_post(
            pre,
            post,
            r,
            pre.tx_data.data@,
        ),
        OpCode::Codecopy => only_stack_memory(pre, post) && pc2 == pc1 && copy_post(
            pre,
            post,
            r,
            pre.code@,
        ),
        OpCode::Returndatacopy => only_stack_memory(pre, post) && pc2 == pc1 && copy_post(
            pre,
            post,
            r,
            pre.last_return_data@,
        ),
        OpCode::Extcodecopy => only_stack_memory(pre, post) && pc2 == pc1 && match r {
            Ok(_) => {
                &&& pre.stack@.len() >= 4
                &&& word_val(peek(pre.stack@, 1)) + word_val(peek(pre.stack@, 3)) + 31
                    <= usize::MAX
                &&& post.stack@ == pre.stack@.drop_last().drop_last().drop_last().drop_last()
                &&& (word_val(peek(pre.stack@, 3)) == 0 ==> post.memory@ == pre.memory@)
                &&& (word_val(peek(pre.stack@, 3)) > 0 ==> post.memory@.subrange(
                    word_val(peek(pre.stack@, 1)) as int,
                    (word_val(peek(pre.stack@, 1)) + word_val(peek(pre.stack@, 3))) as int,
                ) == data_slice(
                    state_code(pre.state@, peek(pre.stack@, 0)),
                    word_val(peek(pre.stack@, 2)),
                    word_val(peek(pre.stack@, 3)),
                ))
            },
            Err(e) => post.memory@ == pre.memory@ && {
                ||| (e == ExecutionError::StackUnderflow && pre.stack@.len() < 4
                    && post.stack@.len() == 0)
                ||| (e == ExecutionError::IntegerOverflow && pre.stack@.len() >= 4 && word_val(
                    peek(pre.stack@, 1),
                ) + word_val(peek(pre.stack@, 3)) + 31 > usize::MAX && post.stack@
                    == pre.stack@.drop_last().drop_last().drop_last().drop_last())
            },
        },
        OpCode::Sstore => keeps_context(pre, post) && keeps_memory(pre, post) && post.state@
            == pre.state@ && keeps_logs(pre, post) && keeps_ret(pre, post) && pc2 == pc1
            && match r {
            Ok(_) => {
                &&& !pre.read_only
                &&& pre.stack@.len() >= 2
                &&& post.stack@ == pre.stack@.drop_last().drop_last()
                &&& forall|a: Word, k: Word|
                    storage_lookup(post.storage@, a, k) == if a == word_of_be(pre.tx_data.to@)
                        && k == peek(pre.stack@, 0) {
                        peek(pre.stack@, 1)
                    } else {
                        storage_lookup(pre.storage@, a, k)
                    }
            },
            Err(e) => post.storage@ == pre.storage@ && {
                ||| (e == ExecutionError::ReadOnly && pre.read_only && post.stack@ == pre.stack@)
                ||| (e == ExecutionError::StackUnderflow && !pre.read_only && pre.stack@.len()
                    < 2 && post.stack@.len() == 0)
            },
        },
        OpCode::Sload => only_stack(pre, post) && pc2 == pc1 && unop_word_post(
            pre.stack@,
            post.stack@,
            r,
            storage_lookup(pre.storage@, word_of_be(pre.tx_data.to@), peek(pre.stack@, 0)),
        ),
        OpCode::Log0 | OpCode::Log1 | OpCode::Log2 | OpCode::Log3 | OpCode::Log4 => {
            let x = spec_topics(opcode);
            keeps_context(pre, post) && keeps_world(pre, post) && keeps_ret(pre, post) && pc2
                == pc1 && match r {
                Ok(_) => {
                    &&& !pre.read_only
                    &&& pre.stack@.len() >= 2 + x
                    &&& word_val(peek(pre.stack@, 0)) + word_val(peek(pre.stack@, 1)) + 31
                        <= usize::MAX
                    &&& post.stack@ == pre.stack@.take(pre.stack@.len() - 2 - x)
                    &&& (word_val(peek(pre.stack@, 1)) == 0 ==> post.memory@ == pre.memory@)
                    &&& (word_val(peek(pre.stack@, 1)) > 0 ==> post.memory@.len() == grown_len(
                        pre.memory@.len(),
                        word_val(peek(pre.stack@, 0)),
                        word_val(peek(pre.stack@, 1)),
                    ))
                    &&& forall|i: int|
                        0 <= i < post.memory@.len() ==> post.memory@[i] == (if i
                            < pre.memory@.len() {
                            pre.memory@[i]
                        } else {
                            0u8
                        })
                    &&& logs_view(post.logs@) == logs_view(pre.logs@).push(
                        crate::logs::LogView {
                            address: word_of_be(pre.tx_data.to@),
                            data: if word_val(peek(pre.stack@, 1)) == 0 {
                                Seq::<u8>::empty()
                            } else {
                                post.memory@.subrange(
                                    word_val(peek(pre.stack@, 0)) as int,
                                    (word_val(peek(pre.stack@, 0)) + word_val(
                                        peek(pre.stack@, 1),
                                    )) as int,
                                )
                            },
                            topics: Seq::new(x, |t: int| peek(pre.stack@, 2 + t)),
                        },
                    )
                },
                Err(e) => post.memory@ == pre.memory@ && logs_view(post.logs@) == logs_view(
                    pre.logs@,
                ) && {
                    ||| (e == ExecutionError::ReadOnly && pre.read_only && post.stack@
                        == pre.stack@)
                    ||| (e == ExecutionError::StackUnderflow && !pre.read_only
                        && pre.stack@.len() < 2 + x && post.stack@.len() == 0)
                    ||| (e == ExecutionError::IntegerOverflow && !pre.read_only
                        && pre.stack@.len() >= 2 + x && word_val(peek(pre.stack@, 0)) + word_val(
                        peek(pre.stack@, 1),
                    ) + 31 > usize::MAX && post.stack@ == pre.stack@.take(
                        pre.stack@.len() - 2 - x,
                    ))
                },
            }
        },
        OpCode::Return => keeps_context(pre, post) && keeps_world(pre, post) && keeps_logs(
            pre,
            post,
        ) && post.last_return_data@ == pre.last_return_data@ && pc2 == pc1 && match r {
            Ok(_) => false,
            Err(e) => if e == ExecutionError::Halt {
                pre.stack@.len() >= 2 && post.stack@ == pre.stack@.drop_last().drop_last()
                    && blob_post(pre, post, Ok(()))
            } else {
                blob_post(pre, post, Err(e))
            },
        },
        OpCode::Revert => keeps_context(pre, post) && keeps_world(pre, post) && keeps_logs(
            pre,
            post,
        ) && post.last_return_data@ == pre.last_return_data@ && pc2 == pc1 && match r {
            Ok(_) => false,
            Err(e) => if e == ExecutionError::Revert {
                post.stack@.len() == 0 && blob_post(pre, post, Ok(()))
            } else {
                e != ExecutionError::Halt && blob_post(pre, post, Err(e))
            },
        },
        OpCode::Call => keeps_context(pre, post) && post.return_data@ == pre.return_data@
            && pc2 == pc1 && exists|rv: Result<Word, ExecutionError>|
            #[trigger] same_outcome(r, rv) && call_effect(
                pre.stack@,
                post.stack@,
                pre.memory@,
                post.memory@,
                pre.state@,
                post.state@,
                pre.storage@,
                post.storage@,
                pre.last_return_data@,
                post.last_return_data@,
                logs_view(pre.logs@),
                logs_view(post.logs@),
                pre.tx_data.to@,
                pre.tx_data.origin@,
                pre.limit as nat,
                pre.read_only,
                depth,
                rv,
            ),
        OpCode::Delegatecall => keeps_context(pre, post) && post.return_data@
            == pre.return_data@ && pc2 == pc1 && exists|rv: Result<Word, ExecutionError>|
            #[trigger] same_outcome(r, rv) && delegatecall_effect(
                pre.stack@,
                post.stack@,
                pre.memory@,
                post.memory@,
                pre.state@,
                post.state@,
                pre.storage@,
                post.storage@,
                pre.last_return_data@,
                post.last_return_data@,
                logs_view(pre.logs@),
                logs_view(post.logs@),
                pre.tx_data.to@,
                pre.tx_data.from@,
                pre.tx_data.origin@,
                pre.tx_data.value@,
                pre.limit as nat,
                pre.read_only,
                depth,
                rv,
            ),
        OpCode::Staticcall => keeps_context(pre, post) && post.return_data@
            == pre.return_data@ && pc2 == pc1 && exists|rv: Result<Word, ExecutionError>|
            #[trigger] same_outcome(r, rv) && staticcall_effect(
                pre.stack@,
                post.stack@,
                pre.memory@,
                post.memory@,
                pre.state@,
                post.state@,
                pre.storage@,
                post.storage@,
                pre.last_return_data@,
                post.last_return_data@,
                logs_view(pre.logs@),
                logs_view(post.logs@),
                pre.tx_data.to@,
                pre.tx_data.origin@,
                pre.tx_data.value@,
                pre.limit as nat,
                depth,
                rv,
            ),
        OpCode::Create => keeps_context(pre, post) && post.return_data@ == pre.return_data@
            && pc2 == pc1 && exists|rv: Result<Word, ExecutionError>|
            #[trigger] same_outcome(r, rv) && create_effect(
                pre.stack@,
                post.stack@,
                pre.memory@,
                pre.state@,
                post.state@,
                pre.storage@,
                post.storage@,
                pre.last_return_data@,
                post.last_return_data@,
                logs_view(pre.logs@),
                logs_view(post.logs@),
                pre.tx_data.to@,
                pre.tx_data.origin@,
                pre.limit as nat,
                pre.read_only,
                depth,
                rv,
            ),
        OpCode::Selfdestruct => keeps_context(pre, post) && keeps_memory(pre, post)
            && post.storage@ == pre.storage@ && keeps_logs(pre, post) && keeps_ret(pre, post)
            && pc2 == pc1 && match r {
            Ok(_) => {
                &&& !pre.read_only
                &&& pre.stack@.len() >= 1
                &&& post.stack@ == pre.stack@.drop_last()
                &&& forall|a2: Word|
                    word_val(#[trigger] state_balance(post.state@, a2)) == (if a2 == word_of_be(
                        pre.tx_data.to@,
                    ) {
                        0nat
                    } else if a2 == peek(pre.stack@, 0) {
                        (word_val(state_balance(pre.state@, peek(pre.stack@, 0))) + word_val(
                            state_balance(pre.state@, word_of_be(pre.tx_data.to@)),
                        )) % pow256()
                    } else {
                        word_val(state_balance(pre.state@, a2))
                    })
                &&& forall|a2: Word| #[trigger]
                    state_code(post.state@, a2) == (if a2 == word_of_be(pre.tx_data.to@) {
                        Seq::<u8>::empty()
                    } else {
                        state_code(pre.state@, a2)
                    })
                &&& forall|a2: Word| #[trigger]
                    crate::state_data::state_nonce(post.state@, a2) == (if a2 == word_of_be(
                        pre.tx_data.to@,
                    ) {
                        0u64
                    } else {
                        crate::state_data::state_nonce(pre.state@, a2)
                    })
            },
            Err(e) => post.state@ == pre.state@ && {
                ||| (e == ExecutionError::ReadOnly && pre.read_only && post.stack@ == pre.stack@)
                ||| (e == ExecutionError::StackUnderflow && !pre.read_only && pre.stack@.len()
                    == 0 && post.stack@.len() == 0)
            },
        },
    }
}

/// One successful instruction step from `(pre, pc1)` to `(post, pc2)`,
/// including the loop's post-increment of the program counter.
pub open spec fn step_ok(pre: Evm, pc1: nat, post: Evm, pc2: nat, depth: nat) -> bool {
    &&& pc1 < pre.code@.len()
    &&& decode(pre.code@[pc1 as int]) is Some
    &&& exists|pcr: nat, rr: Result<(), ExecutionError>|
        #[trigger] transact_post(
            decode(pre.code@[pc1 as int])->Some_0,
            pre,
            post,
            pc1,
            pcr,
            rr,
            depth,
        ) && rr is Ok && pc2 == pcr + 1
}

/// A trace is a run of frames in which consecutive entries are joined by
/// successful instruction steps.
pub open spec fn trace_ok(t: Seq<(Evm, nat)>, depth: nat) -> bool {
    forall|i: int|
        0 <= i && i + 1 < t.len() ==> #[trigger] step_ok(
            t[i].0,
            t[i].1,
            t[i + 1].0,
            t[i + 1].1,
            depth,
        )
}

/// `(post, pc2)` is reached from `(pre, pc1)` by exactly `n` successful steps.
pub open spec fn reach(pre: Evm, pc1: nat, post: Evm, pc2: nat, n: nat, depth: nat) -> bool {
    exists|t: Seq<(Evm, nat)>|
        #[trigger] trace_ok(t, depth) && t.len() == n + 1 && t[0] == (pre, pc1) && t[n as int]
            == (post, pc2)
}

/// The empty chain: every frame reaches itself in no steps.
pub proof fn lemma_reach_base(pre: Evm, pc1: nat, depth: nat)
    ensures
        reach(pre, pc1, pre, pc1, 0, depth),
{
    let t: Seq<(Evm, nat)> = seq![(pre, pc1)];
    assert(trace_ok(t, depth));
    assert(t[0] == (pre, pc1));
}

/// What each outcome of the dispatch loop means: Success is reaching the end
/// of the code by successful steps; Halt is a step failing with the Halt
/// sentinel (STOP or RETURN); Revert is an unknown byte under the program
/// counter, a step failing with any other error, or the loop's practical
/// step budget of 2^64 steps running out with code still ahead.
pub open spec fn execute_post(pre: Evm, post: Evm, r: ExecutionResult, depth: nat) -> bool {
    match r {
        ExecutionResult::Success => exists|n: nat|
            #[trigger] reach(pre, 0, post, pre.code@.len(), n, depth),
        ExecutionResult::Halt => exists|mid: Evm, pc: nat, pc2: nat, n: nat|
            #[trigger] reach(pre, 0, mid, pc, n, depth) && pc < pre.code@.len() && decode(
                pre.code@[pc as int],
            ) is Some && #[trigger] transact_post(
                decode(pre.code@[pc as int])->Some_0,
                mid,
                post,
                pc,
                pc2,
                Err(ExecutionError::Halt),
                depth,
            ),
        ExecutionResult::Revert => {
            ||| exists|pc: nat, n: nat|
                #[trigger] reach(pre, 0, post, pc, n, depth) && pc < pre.code@.len() && decode(
                    pre.code@[pc as int],
                ) is None
            ||| exists|mid: Evm, pc: nat, pc2: nat, e: ExecutionError, n: nat|
                #[trigger] reach(pre, 0, mid, pc, n, depth) && pc < pre.code@.len() && decode(
                    pre.code@[pc as int],
                ) is Some && e != ExecutionError::Halt && #[trigger] transact_post(
                    decode(pre.code@[pc as int])->Some_0,
                    mid,
                    post,
                    pc,
                    pc2,
                    Err(e),
                    depth,
                )
            ||| exists|pc: nat|
                #[trigger] reach(pre, 0, post, pc, u64::MAX as nat, depth) && pc
                    < pre.code@.len()
        },
    }
}

/// A chain of steps grows by one successful step.
pub proof fn lemma_reach_step(
    pre: Evm,
    mid: Evm,
    post: Evm,
    pcs: nat,
    pcr: nat,
    n: nat,
    depth: nat,
    opcode: OpCode,
    rr: Result<(), ExecutionError>,
)
    requires
        reach(pre, 0, mid, pcs, n, depth),
        pcs < pre.code@.len(),
        decode(pre.code@[pcs as int]) == Some(opcode),
        transact_post(opcode, mid, post, pcs, pcr, rr, depth),
        rr is Ok,
        mid.code@ == pre.code@,
    ensures
        reach(pre, 0, post, (pcr + 1) as nat, (n + 1) as nat, depth),
{
    assert(step_ok(mid, pcs, post, (pcr + 1) as nat, depth)) by {
        assert(decode(mid.code@[pcs as int]) == Some(opcode));
        assert(transact_post(
            decode(mid.code@[pcs as int])->Some_0,
            mid,
            post,
            pcs,
            pcr,
            rr,
            depth,
        ));
    }
    let t: Seq<(Evm, nat)> = choose|t: Seq<(Evm, nat)>|
        #[trigger] trace_ok(t, depth) && t.len() == n + 1 && t[0] == (pre, 0nat) && t[n as int]
            == (mid, pcs);
    let t2 = t.push((post, (pcr + 1) as nat));
    assert(trace_ok(t2, depth)) by {
        assert(forall|i: int|
            0 <= i && i + 1 < t.len() ==> #[trigger] step_ok(
                t[i].0,
                t[i].1,
                t[i + 1].0,
                t[i + 1].1,
                depth,
            ));
        assert forall|i: int|
            0 <= i && i + 1 < t2.len() implies #[trigger] step_ok(
            t2[i].0,
            t2[i].1,
            t2[i + 1].0,
            t2[i + 1].1,
            depth,
        ) by {
            if i + 1 < t.len() {
                assert(t2[i] == t[i] && t2[i + 1] == t[i + 1]);
            } else {
                assert(t2[i] == (mid, pcs) && t2[i + 1] == (post, (pcr + 1) as nat));
            }
        }
    }
    assert(t2.len() == (n + 1) + 1);
    assert(t2[0] == (pre, 0nat));
    assert(t2[(n + 1) as int] == (post, (pcr + 1) as nat));
}

/// A step that fails with the Halt sentinel ends the frame as Halt.
pub proof fn lemma_execute_halts(
    pre: Evm,
    mid: Evm,
    post: Evm,
    pcs: nat,
    pc2: nat,
    n: nat,
    depth: nat,
    opcode: OpCode,
)
    requires
        reach(pre, 0, mid, pcs, n, depth),
        pcs < pre.code@.len(),
        decode(pre.code@[pcs as int]) == Some(opcode),
        transact_post(opcode, mid, post, pcs, pc2, Err(ExecutionError::Halt), depth),
    ensures
        execute_post(pre, post, ExecutionResult::Halt, depth),
{
    assert(execute_post(pre, post, ExecutionResult::Halt, depth)) by {
        assert(transact_post(
            decode(pre.code@[pcs as int])->Some_0,
            mid,
            post,
            pcs,
            pc2,
            Err(ExecutionError::Halt),
            depth,
        ));
    }
}

/// A step that fails with any other error reverts the frame.
pub proof fn lemma_execute_reverts(
    pre: Evm,
    mid: Evm,
    post: Evm,
    pcs: nat,
    pc2: nat,
    n: nat,
    depth: nat,
    opcode: OpCode,
    e: ExecutionError,
)
    requires
        reach(pre, 0, mid, pcs, n, depth),
        pcs < pre.code@.len(),
        decode(pre.code@[pcs as int]) == Some(opcode),
        transact_post(opcode, mid, post, pcs, pc2, Err(e), depth),
        e != ExecutionError::Halt,
    ensures
        execute_post(pre, post, ExecutionResult::Revert, depth),
{
    assert(execute_post(pre, post, ExecutionResult::Revert, depth)) by {
        assert(transact_post(
            decode(pre.code@[pcs as int])->Some_0,
            mid,
            post,
            pcs,
            pc2,
            Err(e),
            depth,
        ));
    }
}

/// An unknown byte under the program counter reverts the frame.
pub proof fn lemma_execute_unknown(pre: Evm, post: Evm, pcs: nat, n: nat, depth: nat)
    requires
        reach(pre, 0, post, pcs, n, depth),
        pcs < pre.code@.len(),
        decode(pre.code@[pcs as int]) is None,
    ensures
        execute_post(pre, post, ExecutionResult::Revert, depth),
{
    assert(execute_post(pre, post, ExecutionResult::Revert, depth));
}

/// Reaching the end of the code ends the frame as Success.
pub proof fn lemma_execute_succeeds(pre: Evm, post: Evm, n: nat, depth: nat)
    requires
        reach(pre, 0, post, pre.code@.len(), n, depth),
    ensures
        execute_post(pre, post, ExecutionResult::Success, depth),
{
    assert(exists|m: nat| #[trigger] reach(pre, 0, post, pre.code@.len(), m, depth));
    assert(execute_post(pre, post, ExecutionResult::Success, depth));
}

/// An exhausted step budget with code still ahead reverts the frame.
pub proof fn lemma_execute_exhausted(pre: Evm, post: Evm, pcs: nat, depth: nat)
    requires
        reach(pre, 0, post, pcs, u64::MAX as nat, depth),
        pcs < pre.code@.len(),
    ensures
        execute_post(pre, post, ExecutionResult::Revert, depth),
{
    assert(execute_post(pre, post, ExecutionResult::Revert, depth));
}

/// A handler's CALL effect, with its word-carrying result matched to the
/// dispatcher's unit-carrying one.
pub proof fn lemma_lift_call(
    pre: Evm,
    post: Evm,
    depth: nat,
    r: Result<(), ExecutionError>,
    rv: Result<Word, ExecutionError>,
)
    requires
        call_effect(
            pre.stack@,
            post.stack@,
            pre.memory@,
            post.memory@,
            pre.state@,
            post.state@,
            pre.storage@,
            post.storage@,
            pre.last_return_data@,
            post.last_return_data@,
            logs_view(pre.logs@),
            logs_view(post.logs@),
            pre.tx_data.to@,
            pre.tx_data.origin@,
            pre.limit as nat,
            pre.read_only,
            depth,
            rv,
        ),
        r is Ok <==> rv is Ok,
        r is Err ==> r->Err_0 == rv->Err_0,
    ensures
        exists|rv2: Result<Word, ExecutionError>|
            #[trigger] same_outcome(r, rv2) && call_effect(
                pre.stack@,
                post.stack@,
                pre.memory@,
                post.memory@,
                pre.state@,
                post.state@,
                pre.storage@,
                post.storage@,
                pre.last_return_data@,
                post.last_return_data@,
                logs_view(pre.logs@),
                logs_view(post.logs@),
                pre.tx_data.to@,
                pre.tx_data.origin@,
                pre.limit as nat,
                pre.read_only,
                depth,
                rv2,
            ),
{
    assert(same_outcome(r, rv));
}

/// As `lemma_lift_call`, for DELEGATECALL.
pub proof fn lemma_lift_delegatecall(
    pre: Evm,
    post: Evm,
    depth: nat,
    r: Result<(), ExecutionError>,
    rv: Result<Word, ExecutionError>,
)
    requires
        delegatecall_effect(
            pre.stack@,
            post.stack@,
            pre.memory@,
            post.memory@,
            pre.state@,
            post.state@,
            pre.storage@,
            post.storage@,
            pre.last_return_data@,
            post.last_return_data@,
            logs_view(pre.logs@),
            logs_view(post.logs@),
            pre.tx_data.to@,
            pre.tx_data.from@,
            pre.tx_data.origin@,
            pre.tx_data.value@,
            pre.limit as nat,
            pre.read_only,
            depth,
            rv,
        ),
        r is Ok <==> rv is Ok,
        r is Err ==> r->Err_0 == rv->Err_0,
    ensures
        exists|rv2: Result<Word, ExecutionError>|
            #[trigger] same_outcome(r, rv2) && delegatecall_effect(
                pre.stack@,
                post.stack@,
                pre.memory@,
                post.memory@,
                pre.state@,
                post.state@,
                pre.storage@,
                post.storage@,
                pre.last_return_data@,
                post.last_return_data@,
                logs_view(pre.logs@),
                logs_view(post.logs@),
                pre.tx_data.to@,
                pre.tx_data.from@,
                pre.tx_data.origin@,
                pre.tx_data.value@,
                pre.limit as nat,
                pre.read_only,
                depth,
                rv2,
            ),
{
    assert(same_outcome(r, rv));
}

/// As `lemma_lift_call`, for STATICCALL.
pub proof fn lemma_lift_staticcall(
    pre: Evm,
    post: Evm,
    depth: nat,
    r: Result<(), ExecutionError>,
    rv: Result<Word, ExecutionError>,
)
    requires
        staticcall_effect(
            pre.stack@,
            post.stack@,
            pre.memory@,
            post.memory@,
            pre.state@,
            post.state@,
            pre.storage@,
            post.storage@,
            pre.last_return_data@,
            post.last_return_data@,
            logs_view(pre.logs@),
            logs_view(post.logs@),
            pre.tx_data.to@,
            pre.tx_data.origin@,
            pre.tx_data.value@,
            pre.limit as nat,
            depth,
            rv,
        ),
        r is Ok <==> rv is Ok,
        r is Err ==> r->Err_0 == rv->Err_0,
    ensures
        exists|rv2: Result<Word, ExecutionError>|
            #[trigger] same_outcome(r, rv2) && staticcall_effect(
                pre.stack@,
                post.stack@,
                pre.memory@,
                post.memory@,
                pre.state@,
                post.state@,
                pre.storage@,
                post.storage@,
                pre.last_return_data@,
                post.last_return_data@,
                logs_view(pre.logs@),
                logs_view(post.logs@),
                pre.tx_data.to@,
                pre.tx_data.origin@,
                pre.tx_data.value@,
                pre.limit as nat,
                depth,
                rv2,
            ),
{
    assert(same_outcome(r, rv));
}

/// As `lemma_lift_call`, for CREATE.
pub proof fn lemma_lift_create(
    pre: Evm,
    post: Evm,
    depth: nat,
    r: Result<(), ExecutionError>,
    rv: Result<Word, ExecutionError>,
)
    requires
        create_effect(
            pre.stack@,
            post.stack@,
            pre.memory@,
            pre.state@,
            post.state@,
            pre.storage@,
            post.storage@,
            pre.last_return_data@,
            post.last_return_data@,
            logs_view(pre.logs@),
            logs_view(post.logs@),
            pre.tx_data.to@,
            pre.tx_data.origin@,
            pre.limit as nat,
            pre.read_only,
            depth,
            rv,
        ),
        r is Ok <==> rv is Ok,
        r is Err ==> r->Err_0 == rv->Err_0,
    ensures
        exists|rv2: Result<Word, ExecutionError>|
            #[trigger] same_outcome(r, rv2) && create_effect(
                pre.stack@,
                post.stack@,
                pre.memory@,
                pre.state@,
                post.state@,
                pre.storage@,
                post.storage@,
                pre.last_return_data@,
                post.last_return_data@,
                logs_view(pre.logs@),
                logs_view(post.logs@),
                pre.tx_data.to@,
                pre.tx_data.origin@,
                pre.limit as nat,
                pre.read_only,
                depth,
                rv2,
            ),
{
    assert(same_outcome(r, rv));
}

/// One frame of execution: the code under the program counter together with
/// its stack, memory, logs, return buffers, working state and storage, and
/// the immutable transaction and block context.
pub struct Evm {
    pub code: Vec<u8>,
    pub tx_data: TxData,
    pub block_data: BlockData,
    pub state: State,
    pub storage: Storage,
    pub stack: Vec<Word>,
    pub logs: Vec<Log>,
    pub return_data: Vec<u8>,
    pub last_return_data: Vec<u8>,
    pub memory: Memory,
    pub limit: usize,
    pub read_only: bool,
}

/// The opcodes the `step_control` helper executes.
pub open spec fn is_control_op(opcode: OpCode) -> bool {
    match opcode {
        OpCode::Stop | OpCode::Jumpdest | OpCode::Push0 | OpCode::Push1 | OpCode::Push2 | OpCode::Push3 | OpCode::Push4 | OpCode::Push5 | OpCode::Push6 | OpCode::Push7 | OpCode::Push8 | OpCode::Push9 | OpCode::Push10 | OpCode::Push11 | OpCode::Push12 | OpCode::Push13 | OpCode::Push14 | OpCode::Push15 | OpCode::Push16 | OpCode::Push17 | OpCode::Push18 | OpCode::Push19 | OpCode::Push20 | OpCode::Push21 | OpCode::Push22 | OpCode::Push23 | OpCode::Push24 | OpCode::Push25 | OpCode::Push26 | OpCode::Push27 | OpCode::Push28 | OpCode::Push29 | OpCode::Push30 | OpCode::Push31 | OpCode::Push32 | OpCode::Pop | OpCode::Dup1 | OpCode::Dup2 | OpCode::Dup3 | OpCode::Dup4 | OpCode::Dup5 | OpCode::Dup6 | OpCode::Dup7 | OpCode::Dup8 | OpCode::Dup9 | OpCode::Dup10 | OpCode::Dup11 | OpCode::Dup12 | OpCode::Dup13 | OpCode::Dup14 | OpCode::Dup15 | OpCode::Dup16 | OpCode::Swap1 | OpCode::Swap2 | OpCode::Swap3 | OpCode::Swap4 | OpCode::Swap5 | OpCode::Swap6 | OpCode::Swap7 | OpCode::Swap8 | OpCode::Swap9 | OpCode::Swap10 | OpCode::Swap11 | OpCode::Swap12 | OpCode::Swap13 | OpCode::Swap14 | OpCode::Swap15 | OpCode::Swap16 | OpCode::Pc | OpCode::Gas | OpCode::Jump | OpCode::Jumpi => true,
        _ => false,
    }
}

/// The opcodes the `step_arithmetic` helper executes.
pub open spec fn is_arithmetic_op(opcode: OpCode) -> bool {
    match opcode {
        OpCode::Add | OpCode::Mul | OpCode::Sub | OpCode::Div | OpCode::Mod | OpCode::Addmod | OpCode::Mulmod | OpCode::Exp | OpCode::Signextend | OpCode::Sdiv | OpCode::Smod | OpCode::Lt | OpCode::Gt | OpCode::Slt | OpCode::Sgt | OpCode::Eq | OpCode::Iszero | OpCode::Not | OpCode::And | OpCode::Or | OpCode::Xor | OpCode::Shl | OpCode::Shr | OpCode::Sar | OpCode::Byte => true,
        _ => false,
    }
}

/// The opcodes the `step_data` helper executes.
pub open spec fn is_data_op(opcode: OpCode) -> bool {
    match opcode {
        OpCode::Mstore | OpCode::Mload | OpCode::Mstore8 | OpCode::Msize | OpCode::Sha3 | OpCode::Address | OpCode::Caller | OpCode::Origin | OpCode::Gasprice | OpCode::Basfee | OpCode::Coinbase | OpCode::Timestamp | OpCode::Number | OpCode::Difficulty | OpCode::Gaslimit | OpCode::Chainid | OpCode::Blockhash | OpCode::Balance | OpCode::Callvalue | OpCode::Calldataload | OpCode::Calldatasize | OpCode::Calldatacopy | OpCode::Codesize | OpCode::Codecopy | OpCode::Extcodesize | OpCode::Extcodecopy | OpCode::Extcodehash | OpCode::Selfbalance | OpCode::Returndatasize | OpCode::Returndatacopy => true,
        _ => false,
    }
}

/// The opcodes the `step_system` helper executes.
pub open spec fn is_system_op(opcode: OpCode) -> bool {
    match opcode {
        OpCode::Sstore | OpCode::Sload | OpCode::Log0 | OpCode::Log1 | OpCode::Log2 | OpCode::Log3 | OpCode::Log4 | OpCode::Return | OpCode::Revert | OpCode::Call | OpCode::Delegatecall | OpCode::Staticcall | OpCode::Create | OpCode::Selfdestruct => true,
        _ => false,
    }
}

impl Evm {
    /// Frame sanity: the stack within its cap of at most 1024, the memory
    /// 32-byte aligned, word-sized context fields within 32 bytes, and the
    /// code short enough for the jump analysis bitmap.
    pub open spec fn wf(&self) -> bool {
        &&& self.stack@.len() <= self.limit
        &&& self.limit <= 1024
        &&& self.memory.wf()
        &&& self.tx_data.wf()
        &&& self.block_data.wf()
        &&& self.code@.len() + 33 <= usize::MAX
    }

    pub fn new(
        code: Vec<u8>,
        tx_data: TxData,
        block_data: BlockData,
        state: State,
        storage: Storage,
        stack: Vec<Word>,
        logs: Vec<Log>,
        return_data: Vec<u8>,
        last_return_data: Vec<u8>,
        memory: Memory,
        limit: usize,
        read_only: bool,
    ) -> (r: Evm)
        ensures
            r.code == code,
            r.tx_data == tx_data,
            r.block_data == block_data,
            r.state == state,
            r.storage == storage,
            r.stack == stack,
            r.logs == logs,
            r.return_data == return_data,
            r.last_return_data == last_return_data,
            r.memory == memory,
            r.limit == limit,
            r.read_only == read_only,
    {
        Evm {
            code,
            tx_data,
            block_data,
            state,
            storage,
            stack,
            logs,
            return_data,
            last_return_data,
            memory,
            limit,
            read_only,
        }
    }

    /// The dispatch loop: decodes the byte under the program counter,
    /// executes it and advances until the code ends (Success), STOP or
    /// RETURN halts the frame (Halt), or any error reverts it (Revert).
    /// `depth` bounds the remaining sub-call nesting. The frame stays
    /// well-formed: in particular the stack never exceeds 1024 entries and
    /// the memory length stays a multiple of 32.
    #[verifier::rlimit(100)]
    #[verifier::spinoff_prover]
    pub fn execute(&mut self, depth: u64) -> (r: ExecutionResult)
        requires
            old(self).wf(),
        ensures
            final(self).wf(),
            final(self).stack@.len() <= 1024,
            final(self).memory@.len() % 32 == 0,
            final(self).code@ == old(self).code@,
            final(self).limit == old(self).limit,
            final(self).read_only == old(self).read_only,
            old(self).code@.len() == 0 ==> r == ExecutionResult::Success && *final(self)
                == *old(self),
            old(self).read_only ==> final(self).state@ == old(self).state@ && final(self).storage@ == old(self).storage@,
            execute_post(*old(self), *final(self), r, depth as nat),
        decreases depth, 3int,
    {
        let mut pc: usize = 0;
        let mut steps: u64 = u64::MAX;
        proof {
            lemma_reach_base(*old(self), 0, depth as nat);
        }
        while pc < self.code.len() && steps > 0
            invariant
                self.wf(),
                self.code@ == old(self).code@,
                self.limit == old(self).limit,
                self.read_only == old(self).read_only,
                old(self).code@.len() == 0 ==> *self == *old(self),
                old(self).read_only ==> self.state@ == old(self).state@ && self.storage@
                    == old(self).storage@,
                pc <= self.code@.len(),
                reach(
                    *old(self),
                    0,
                    *self,
                    pc as nat,
                    (u64::MAX - steps) as nat,
                    depth as nat,
                ),
            decreases steps,
        {
            let ghost mid = *self;
            let ghost pcs = pc as nat;
            let ghost n = (u64::MAX - steps) as nat;
            steps = steps - 1;
            match OpCode::new(self.code[pc]) {
                Option::Some(opcode) => {
                    let tr_result = self.transact(&mut pc, opcode, depth);
                    proof {
                        assert(decode(old(self).code@[pcs as int]) == Some(opcode));
                        assert(transact_post(
                            opcode,
                            mid,
                            *self,
                            pcs,
                            pc as nat,
                            tr_result,
                            depth as nat,
                        ));
                        if tr_result is Ok {
                            lemma_reach_step(
                                *old(self),
                                mid,
                                *self,
                                pcs,
                                pc as nat,
                                n,
                                depth as nat,
                                opcode,
                                tr_result,
                            );
                        } else {
                            let e = tr_result->Err_0;
                            assert(tr_result == Err::<(), ExecutionError>(e));
                            if e == ExecutionError::Halt {
                                lemma_execute_halts(
                                    *old(self),
                                    mid,
                                    *self,
                                    pcs,
                                    pc as nat,
                                    n,
                                    depth as nat,
                                    opcode,
                                );
                            } else {
                                lemma_execute_reverts(
                                    *old(self),
                                    mid,
                                    *self,
                                    pcs,
                                    pc as nat,
                                    n,
                                    depth as nat,
                                    opcode,
                                    e,
                                );
                            }
                        }
                    }
                    match tr_result {
                        Ok(()) => {
                            pc = pc + 1;
                        },
                        Err(e) => {
                            if matches!(e, ExecutionError::Halt) {
                                return ExecutionResult::Halt;
                            }
                            return ExecutionResult::Revert;
                        },
                    }
                },
                Option::None => {
                    proof {
                        lemma_execute_unknown(
                            *old(self),
                            *self,
                            pc as nat,
                            n,
                            depth as nat,
                        );
                    }
                    return ExecutionResult::Revert;
                },
            }
        }
        if pc >= self.code.len() {
            proof {
                lemma_execute_succeeds(
                    *old(self),
                    *self,
                    (u64::MAX - steps) as nat,
                    depth as nat,
                );
            }
            ExecutionResult::Success
        } else {
            proof {
                assert(steps == 0);
                lemma_execute_exhausted(*old(self), *self, pc as nat, depth as nat);
            }
            ExecutionResult::Revert
        }
    }

    /// Executes one decoded instruction against the frame. On success the
    /// program counter (after the loop's post-increment) stays within the
    /// code; the Halt error marks STOP and RETURN, every other error makes
    /// the caller revert the frame.
    #[verifier::rlimit(100)]
    pub fn transact(&mut self, pc: &mut usize, opcode: OpCode, depth: u64) -> (r: Result<
        (),
        ExecutionError,
    >)
        requires
            old(self).wf(),
            *old(pc) < old(self).code@.len(),
        ensures
            final(self).wf(),
            final(self).code@ == old(self).code@,
            final(self).limit == old(self).limit,
            final(self).read_only == old(self).read_only,
            r is Ok ==> *final(pc) + 1 <= old(self).code@.len(),
            r is Err ==> *final(pc) == *old(pc),
            !crate::opcode::spec_is_push(opcode) && opcode != OpCode::Jump && opcode
                != OpCode::Jumpi ==> *final(pc) == *old(pc),
            r == Err::<(), ExecutionError>(ExecutionError::Halt) ==> opcode == OpCode::Stop
                || opcode == OpCode::Return,
            r == Err::<(), ExecutionError>(ExecutionError::Revert) ==> opcode == OpCode::Revert,
            opcode == OpCode::Stop ==> r == Err::<(), ExecutionError>(ExecutionError::Halt)
                && *final(self) == *old(self),
            opcode == OpCode::Jumpdest ==> r == Ok::<(), ExecutionError>(()) && *final(self)
                == *old(self),
            old(self).read_only ==> final(self).state@ == old(self).state@ && final(self).storage@ == old(self).storage@,
            transact_post(opcode, *old(self), *final(self), *old(pc) as nat, *final(pc) as nat, r, depth as nat),
        decreases depth, 2int,
    {
        match opcode {
            OpCode::Stop
                | OpCode::Jumpdest
                | OpCode::Push0
                | OpCode::Push1
                | OpCode::Push2
                | OpCode::Push3
                | OpCode::Push4
                | OpCode::Push5
                | OpCode::Push6
                | OpCode::Push7
                | OpCode::Push8
                | OpCode::Push9
                | OpCode::Push10
                | OpCode::Push11
                | OpCode::Push12
                | OpCode::Push13
                | OpCode::Push14
                | OpCode::Push15
                | OpCode::Push16
                | OpCode::Push17
                | OpCode::Push18
                | OpCode::Push19
                | OpCode::Push20
                | OpCode::Push21
                | OpCode::Push22
                | OpCode::Push23
                | OpCode::Push24
                | OpCode::Push25
                | OpCode::Push26
                | OpCode::Push27
                | OpCode::Push28
                | OpCode::Push29
                | OpCode::Push30
                | OpCode::Push31
                | OpCode::Push32
                | OpCode::Pop
                | OpCode::Dup1
                | OpCode::Dup2
                | OpCode::Dup3
                | OpCode::Dup4
                | OpCode::Dup5
                | OpCode::Dup6
                | OpCode::Dup7
                | OpCode::Dup8
                | OpCode::Dup9
                | OpCode::Dup10
                | OpCode::Dup11
                | OpCode::Dup12
                | OpCode::Dup13
                | OpCode::Dup14
                | OpCode::Dup15
                | OpCode::Dup16
                | OpCode::Swap1
                | OpCode::Swap2
                | OpCode::Swap3
                | OpCode::Swap4
                | OpCode::Swap5
                | OpCode::Swap6
                | OpCode::Swap7
                | OpCode::Swap8
                | OpCode::Swap9
                | OpCode::Swap10
                | OpCode::Swap11
                | OpCode::Swap12
                | OpCode::Swap13
                | OpCode::Swap14
                | OpCode::Swap15
                | OpCode::Swap16
                | OpCode::Pc
                | OpCode::Gas
                | OpCode::Jump
                | OpCode::Jumpi => self.step_control(pc, opcode, depth),
            OpCode::Add
                | OpCode::Mul
                | OpCode::Sub
                | OpCode::Div
                | OpCode::Mod
                | OpCode::Addmod
                | OpCode::Mulmod
                | OpCode::Exp
                | OpCode::Signextend
                | OpCode::Sdiv
                | OpCode::Smod
                | OpCode::Lt
                | OpCode::Gt
                | OpCode::Slt
                | OpCode::Sgt
                | OpCode::Eq
                | OpCode::Iszero
                | OpCode::Not
                | OpCode::And
                | OpCode::Or
                | OpCode::Xor
                | OpCode::Shl
                | OpCode::Shr
                | OpCode::Sar
                | OpCode::Byte => self.step_arithmetic(pc, opcode, depth),
            OpCode::Mstore
                | OpCode::Mload
                | OpCode::Mstore8
                | OpCode::Msize
                | OpCode::Sha3
                | OpCode::Address
                | OpCode::Caller
                | OpCode::Origin
                | OpCode::Gasprice
                | OpCode::Basfee
                | OpCode::Coinbase
                | OpCode::Timestamp
                | OpCode::Number
                | OpCode::Difficulty
                | OpCode::Gaslimit
                | OpCode::Chainid
                | OpCode::Blockhash
                | OpCode::Balance
                | OpCode::Callvalue
                | OpCode::Calldataload
                | OpCode::Calldatasize
                | OpCode::Calldatacopy
                | OpCode::Codesize
                | OpCode::Codecopy
                | OpCode::Extcodesize
                | OpCode::Extcodecopy
                | OpCode::Extcodehash
                | OpCode::Selfbalance
                | OpCode::Returndatasize
                | OpCode::Returndatacopy => self.step_data(pc, opcode, depth),
            OpCode::Sstore
                | OpCode::Sload
                | OpCode::Log0
                | OpCode::Log1
                | OpCode::Log2
                | OpCode::Log3
                | OpCode::Log4
                | OpCode::Return
                | OpCode::Revert
                | OpCode::Call
                | OpCode::Delegatecall
                | OpCode::Staticcall
                | OpCode::Create
                | OpCode::Selfdestruct => self.step_system(pc, opcode, depth),
        }
    }
    /// One group of `transact`'s dispatch, split out to keep each proof small.
    #[verifier::rlimit(100)]
    fn step_control(&mut self, pc: &mut usize, opcode: OpCode, depth: u64) -> (r: Result<
        (),
        ExecutionError,
    >)
        requires
            old(self).wf(),
            *old(pc) < old(self).code@.len(),
            is_control_op(opcode),
        ensures
            final(self).wf(),
            final(self).code@ == old(self).code@,
            final(self).limit == old(self).limit,
            final(self).read_only == old(self).read_only,
            r is Ok ==> *final(pc) + 1 <= old(self).code@.len(),
            r is Err ==> *final(pc) == *old(pc),
            !crate::opcode::spec_is_push(opcode) && opcode != OpCode::Jump && opcode
                != OpCode::Jumpi ==> *final(pc) == *old(pc),
            r == Err::<(), ExecutionError>(ExecutionError::Halt) ==> opcode == OpCode::Stop
                || opcode == OpCode::Return,
            r == Err::<(), ExecutionError>(ExecutionError::Revert) ==> opcode == OpCode::Revert,
            opcode == OpCode::Stop ==> r == Err::<(), ExecutionError>(ExecutionError::Halt)
                && *final(self) == *old(self),
            opcode == OpCode::Jumpdest ==> r == Ok::<(), ExecutionError>(()) && *final(self)
                == *old(self),
            old(self).read_only ==> final(self).state@ == old(self).state@ && final(self).storage@ == old(self).storage@,
            transact_post(opcode, *old(self), *final(self), *old(pc) as nat, *final(pc) as nat, r, depth as nat),
        decreases depth, 1int,
    {
        proof {
            reveal(transact_post);
        }
        match opcode {
            OpCode::Stop => Err(ExecutionError::Halt),
            OpCode::Push0 => {
                crate::utility::push(&mut self.stack, crate::word::zero(), self.limit)?;
                Ok(())
            },
            OpCode::Push1 | OpCode::Push2 | OpCode::Push3 | OpCode::Push4 | OpCode::Push5
                | OpCode::Push6 | OpCode::Push7 | OpCode::Push8 | OpCode::Push9 | OpCode::Push10
                | OpCode::Push11 | OpCode::Push12 | OpCode::Push13 | OpCode::Push14
                | OpCode::Push15 | OpCode::Push16 | OpCode::Push17 | OpCode::Push18
                | OpCode::Push19 | OpCode::Push20 | OpCode::Push21 | OpCode::Push22
                | OpCode::Push23 | OpCode::Push24 | OpCode::Push25 | OpCode::Push26
                | OpCode::Push27 | OpCode::Push28 | OpCode::Push29 | OpCode::Push30
                | OpCode::Push31 | OpCode::Push32 => {
                let start = *pc + 1;
                let push_data_size = opcode.push_data_size();
                let push_data = crate::utility::push_data(push_data_size, &self.code, start)?;
                crate::utility::push(&mut self.stack, push_data, self.limit)?;
                *pc = *pc + push_data_size;
                Ok(())
            },
            OpCode::Pop => {
                crate::utility::pop(&mut self.stack)?;
                Ok(())
            },
            OpCode::Dup1 | OpCode::Dup2 | OpCode::Dup3 | OpCode::Dup4 | OpCode::Dup5
                | OpCode::Dup6 | OpCode::Dup7 | OpCode::Dup8 | OpCode::Dup9 | OpCode::Dup10
                | OpCode::Dup11 | OpCode::Dup12 | OpCode::Dup13 | OpCode::Dup14 | OpCode::Dup15
                | OpCode::Dup16 => {
                let duplicated_data_index = opcode.data_index();
                crate::utility::duplicate_data(
                    duplicated_data_index,
                    &mut self.stack,
                    self.limit,
                )?;
                Ok(())
            },
            OpCode::Swap1 | OpCode::Swap2 | OpCode::Swap3 | OpCode::Swap4 | OpCode::Swap5
                | OpCode::Swap6 | OpCode::Swap7 | OpCode::Swap8 | OpCode::Swap9 | OpCode::Swap10
                | OpCode::Swap11 | OpCode::Swap12 | OpCode::Swap13 | OpCode::Swap14
                | OpCode::Swap15 | OpCode::Swap16 => {
                let swap_data_index = opcode.data_index();
                crate::utility::swap_data(swap_data_index, &mut self.stack, self.limit)?;
                Ok(())
            },
            OpCode::Pc => {
                crate::utility::push(
                    &mut self.stack,
                    crate::word::from_u64(*pc as u64),
                    self.limit,
                )?;
                Ok(())
            },
            OpCode::Gas => {
                crate::utility::push(&mut self.stack, crate::word::max_word(), self.limit)?;
                Ok(())
            },
            OpCode::Jump => {
                let counter = crate::utility::pop(&mut self.stack)?;
                crate::utility::jump(counter, &self.code, pc)?;
                Ok(())
            },
            OpCode::Jumpi => {
                let counter = crate::utility::pop(&mut self.stack)?;
                let b = crate::utility::pop(&mut self.stack)?;
                if !crate::word::word_is_zero(&b) {
                    crate::utility::jump(counter, &self.code, pc)?;
                    Ok(())
                } else {
                    Ok(())
                }
            },
            OpCode::Jumpdest => Ok(()),
            _ => Err(ExecutionError::InvalidOpcode),
        }
    }

    /// One group of `transact`'s dispatch, split out to keep each proof small.
    #[verifier::rlimit(100)]
    fn step_arithmetic(&mut self, pc: &mut usize, opcode: OpCode, depth: u64) -> (r: Result<
        (),
        ExecutionError,
    >)
        requires
            old(self).wf(),
            *old(pc) < old(self).code@.len(),
            is_arithmetic_op(opcode),
        ensures
            final(self).wf(),
            final(self).code@ == old(self).code@,
            final(self).limit == old(self).limit,
            final(self).read_only == old(self).read_only,
            r is Ok ==> *final(pc) + 1 <= old(self).code@.len(),
            r is Err ==> *final(pc) == *old(pc),
            !crate::opcode::spec_is_push(opcode) && opcode != OpCode::Jump && opcode
                != OpCode::Jumpi ==> *final(pc) == *old(pc),
            r == Err::<(), ExecutionError>(ExecutionError::Halt) ==> opcode == OpCode::Stop
                || opcode == OpCode::Return,
            r == Err::<(), ExecutionError>(ExecutionError::Revert) ==> opcode == OpCode::Revert,
            opcode == OpCode::Stop ==> r == Err::<(), ExecutionError>(ExecutionError::Halt)
                && *final(self) == *old(self),
            opcode == OpCode::Jumpdest ==> r == Ok::<(), ExecutionError>(()) && *final(self)
                == *old(self),
            old(self).read_only ==> final(self).state@ == old(self).state@ && final(self).storage@ == old(self).storage@,
            transact_post(opcode, *old(self), *final(self), *old(pc) as nat, *final(pc) as nat, r, depth as nat),
        decreases depth, 1int,
    {
        proof {
            reveal(transact_post);
        }
        match opcode {
            OpCode::Add => {
                crate::utility::add(&mut self.stack, self.limit)?;
                Ok(())
            },
            OpCode::Mul => {
                crate::utility::mul(&mut self.stack, self.limit)?;
                Ok(())
            },
            OpCode::Sub => {
                crate::utility::sub(&mut self.stack, self.limit)?;
                Ok(())
            },
            OpCode::Div => {
                crate::utility::div(&mut self.stack, self.limit)?;
                Ok(())
            },
            OpCode::Mod => {
                crate::utility::mod_fn(&mut self.stack, self.limit)?;
                Ok(())
            },
            OpCode::Addmod => {
                crate::utility::addmod(&mut self.stack, self.limit)?;
                Ok(())
            },
            OpCode::Mulmod => {
                crate::utility::mulmod(&mut self.stack, self.limit)?;
                Ok(())
            },
            OpCode::Exp => {
                crate::utility::exp(&mut self.stack, self.limit)?;
                Ok(())
            },
            OpCode::Signextend => {
                crate::utility::sign_extend(&mut self.stack, self.limit)?;
                Ok(())
            },
            OpCode::Sdiv => {
                crate::utility::sdiv(&mut self.stack, self.limit)?;
                Ok(())
            },
            OpCode::Smod => {
                crate::utility::smod(&mut self.stack, self.limit)?;
                Ok(())
            },
            OpCode::Lt => {
                crate::utility::lt(&mut self.stack, self.limit)?;
                Ok(())
            },
            OpCode::Gt => {
                crate::utility::gt(&mut self.stack, self.limit)?;
                Ok(())
            },
            OpCode::Slt => {
                crate::utility::slt(&mut self.stack, self.limit)?;
                Ok(())
            },
            OpCode::Sgt => {
                crate::utility::sgt(&mut self.stack, self.limit)?;
                Ok(())
            },
            OpCode::Eq => {
                crate::utility::eq(&mut self.stack, self.limit)?;
                Ok(())
            },
            OpCode::Iszero => {
                crate::utility::iszero(&mut self.stack, self.limit)?;
                Ok(())
            },
            OpCode::Not => {
                crate::utility::not(&mut self.stack, self.limit)?;
                Ok(())
            },
            OpCode::And => {
                crate::utility::and(&mut self.stack, self.limit)?;
                Ok(())
            },
            OpCode::Or => {
                crate::utility::or(&mut self.stack, self.limit)?;
                Ok(())
            },
            OpCode::Xor => {
                crate::utility::xor(&mut self.stack, self.limit)?;
                Ok(())
            },
            OpCode::Shl => {
                crate::utility::shl(&mut self.stack, self.limit)?;
                Ok(())
            },
            OpCode::Shr => {
                crate::utility::shr(&mut self.stack, self.limit)?;
                Ok(())
            },
            OpCode::Sar => {
                crate::utility::sar(&mut self.stack, self.limit)?;
                Ok(())
            },
            OpCode::Byte => {
                crate::utility::byte(&mut self.stack, self.limit)?;
                Ok(())
            },
            _ => Err(ExecutionError::InvalidOpcode),
        }
    }

    /// One group of `transact`'s dispatch, split out to keep each proof small.
    #[verifier::rlimit(100)]
    fn step_data(&mut self, pc: &mut usize, opcode: OpCode, depth: u64) -> (r: Result<
        (),
        ExecutionError,
    >)
        requires
            old(self).wf(),
            *old(pc) < old(self).code@.len(),
            is_data_op(opcode),
        ensures
            final(self).wf(),
            final(self).code@ == old(self).code@,
            final(self).limit == old(self).limit,
            final(self).read_only == old(self).read_only,
            r is Ok ==> *final(pc) + 1 <= old(self).code@.len(),
            r is Err ==> *final(pc) == *old(pc),
            !crate::opcode::spec_is_push(opcode) && opcode != OpCode::Jump && opcode
                != OpCode::Jumpi ==> *final(pc) == *old(pc),
            r == Err::<(), ExecutionError>(ExecutionError::Halt) ==> opcode == OpCode::Stop
                || opcode == OpCode::Return,
            r == Err::<(), ExecutionError>(ExecutionError::Revert) ==> opcode == OpCode::Revert,
            opcode == OpCode::Stop ==> r == Err::<(), ExecutionError>(ExecutionError::Halt)
                && *final(self) == *old(self),
            opcode == OpCode::Jumpdest ==> r == Ok::<(), ExecutionError>(()) && *final(self)
                == *old(self),
            old(self).read_only ==> final(self).state@ == old(self).state@ && final(self).storage@ == old(self).storage@,
            transact_post(opcode, *old(self), *final(self), *old(pc) as nat, *final(pc) as nat, r, depth as nat),
        decreases depth, 1int,
    {
        proof {
            reveal(transact_post);
        }
        match opcode {
            OpCode::Mstore => {
                crate::utility::mstore(&mut self.stack, &mut self.memory)?;
                Ok(())
            },
            OpCode::Mload => {
                crate::utility::mload(&mut self.stack, &mut self.memory, self.limit)?;
                Ok(())
            },
            OpCode::Mstore8 => {
                crate::utility::mstore8(&mut self.stack, &mut self.memory)?;
                Ok(())
            },
            OpCode::Msize => {
                crate::utility::msize(&mut self.stack, &mut self.memory, self.limit)?;
                Ok(())
            },
            OpCode::Sha3 => {
                crate::utility::sha_3(&mut self.stack, &mut self.memory, self.limit)?;
                Ok(())
            },
            OpCode::Address => {
                crate::utility::push_from_big_endian(
                    &mut self.stack,
                    &self.tx_data.to,
                    self.limit,
                )?;
                Ok(())
            },
            OpCode::Caller => {
                crate::utility::push_from_big_endian(
                    &mut self.stack,
                    &self.tx_data.from,
                    self.limit,
                )?;
                Ok(())
            },
            OpCode::Origin => {
                crate::utility::push_from_big_endian(
                    &mut self.stack,
                    &self.tx_data.origin,
                    self.limit,
                )?;
                Ok(())
            },
            OpCode::Gasprice => {
                crate::utility::push_from_big_endian(
                    &mut self.stack,
                    &self.tx_data.gasprice,
                    self.limit,
                )?;
                Ok(())
            },
            OpCode::Basfee => {
                crate::utility::push_from_big_endian(
                    &mut self.stack,
                    &self.block_data.basefee,
                    self.limit,
                )?;
                Ok(())
            },
            OpCode::Coinbase => {
                crate::utility::push_from_big_endian(
                    &mut self.stack,
                    &self.block_data.coinbase,
                    self.limit,
                )?;
                Ok(())
            },
            OpCode::Timestamp => {
                crate::utility::push_from_big_endian(
                    &mut self.stack,
                    &self.block_data.timestamp,
                    self.limit,
                )?;
                Ok(())
            },
            OpCode::Number => {
                crate::utility::push_from_big_endian(
                    &mut self.stack,
                    &self.block_data.number,
                    self.limit,
                )?;
                Ok(())
            },
            OpCode::Difficulty => {
                crate::utility::push_from_big_endian(
                    &mut self.stack,
                    &self.block_data.difficulty,
                    self.limit,
                )?;
                Ok(())
            },
            OpCode::Gaslimit => {
                crate::utility::push_from_big_endian(
                    &mut self.stack,
                    &self.block_data.gaslimit,
                    self.limit,
                )?;
                Ok(())
            },
            OpCode::Chainid => {
                crate::utility::push_from_big_endian(
                    &mut self.stack,
                    &self.block_data.chainid,
                    self.limit,
                )?;
                Ok(())
            },
            OpCode::Blockhash => {
                crate::utility::push(&mut self.stack, crate::word::zero(), self.limit)?;
                Ok(())
            },
            OpCode::Balance => {
                crate::utility::balance(&mut self.stack, &self.state, self.limit)?;
                Ok(())
            },
            OpCode::Callvalue => {
                crate::utility::push_from_big_endian(
                    &mut self.stack,
                    &self.tx_data.value,
                    self.limit,
                )?;
                Ok(())
            },
            OpCode::Calldataload => {
                crate::utility::calldataload(&mut self.stack, &self.tx_data.data, self.limit)?;
                Ok(())
            },
            OpCode::Calldatasize => {
                crate::utility::push_data_size(&mut self.stack, &self.tx_data.data, self.limit)?;
                Ok(())
            },
            OpCode::Calldatacopy => {
                crate::utility::copy_data_to_memory(
                    &mut self.stack,
                    &mut self.memory,
                    &self.tx_data.data,
                )?;
                Ok(())
            },
            OpCode::Codesize => {
                crate::utility::push_data_size(&mut self.stack, &self.code, self.limit)?;
                Ok(())
            },
            OpCode::Codecopy => {
                crate::utility::copy_data_to_memory(
                    &mut self.stack,
                    &mut self.memory,
                    &self.code,
                )?;
                Ok(())
            },
            OpCode::Extcodesize => {
                crate::utility::extcodesize(&mut self.stack, &self.state, self.limit)?;
                Ok(())
            },
            OpCode::Extcodecopy => {
                crate::utility::extcodecopy(&mut self.stack, &self.state, &mut self.memory)?;
                Ok(())
            },
            OpCode::Extcodehash => {
                crate::utility::extcodehash(&mut self.stack, &self.state, self.limit)?;
                Ok(())
            },
            OpCode::Selfbalance => {
                crate::utility::selfbalance(
                    &mut self.stack,
                    &self.state,
                    &self.tx_data.to,
                    self.limit,
                )?;
                Ok(())
            },
            OpCode::Returndatasize => {
                crate::utility::push_data_size(
                    &mut self.stack,
                    &self.last_return_data,
                    self.limit,
                )?;
                Ok(())
            },
            OpCode::Returndatacopy => {
                crate::utility::copy_data_to_memory(
                    &mut self.stack,
                    &mut self.memory,
                    &self.last_return_data,
                )?;
                Ok(())
            },
            _ => Err(ExecutionError::InvalidOpcode),
        }
    }

    /// One group of `transact`'s dispatch, split out to keep each proof small.
    #[verifier::rlimit(100)]
    #[verifier::spinoff_prover]
    fn step_system(&mut self, pc: &mut usize, opcode: OpCode, depth: u64) -> (r: Result<
        (),
        ExecutionError,
    >)
        requires
            old(self).wf(),
            *old(pc) < old(self).code@.len(),
            is_system_op(opcode),
        ensures
            final(self).wf(),
            final(self).code@ == old(self).code@,
            final(self).limit == old(self).limit,
            final(self).read_only == old(self).read_only,
            r is Ok ==> *final(pc) + 1 <= old(self).code@.len(),
            r is Err ==> *final(pc) == *old(pc),
            !crate::opcode::spec_is_push(opcode) && opcode != OpCode::Jump && opcode
                != OpCode::Jumpi ==> *final(pc) == *old(pc),
            r == Err::<(), ExecutionError>(ExecutionError::Halt) ==> opcode == OpCode::Stop
                || opcode == OpCode::Return,
            r == Err::<(), ExecutionError>(ExecutionError::Revert) ==> opcode == OpCode::Revert,
            opcode == OpCode::Stop ==> r == Err::<(), ExecutionError>(ExecutionError::Halt)
                && *final(self) == *old(self),
            opcode == OpCode::Jumpdest ==> r == Ok::<(), ExecutionError>(()) && *final(self)
                == *old(self),
            old(self).read_only ==> final(self).state@ == old(self).state@ && final(self).storage@ == old(self).storage@,
            transact_post(opcode, *old(self), *final(self), *old(pc) as nat, *final(pc) as nat, r, depth as nat),
        decreases depth, 1int,
    {
        proof {
            reveal(transact_post);
            reveal(call_effect);
            reveal(delegatecall_effect);
            reveal(staticcall_effect);
            reveal(create_effect);
        }
        match opcode {
            OpCode::Sstore => {
                crate::utility::sstore(
                    &mut self.stack,
                    &mut self.storage,
                    &self.tx_data.to,
                    self.read_only,
                )?;
                Ok(())
            },
            OpCode::Sload => {
                crate::utility::sload(
                    &mut self.stack,
                    &self.storage,
                    &self.tx_data.to,
                    self.limit,
                )?;
                Ok(())
            },
            OpCode::Log0 | OpCode::Log1 | OpCode::Log2 | OpCode::Log3 | OpCode::Log4 => {
                let x = opcode.topics();
                crate::utility::logx(
                    x,
                    &mut self.stack,
                    &mut self.memory,
                    &self.tx_data.to,
                    &mut self.logs,
                    self.read_only,
                )?;
                Ok(())
            },
            OpCode::Return => {
                crate::utility::return_func(
                    &mut self.stack,
                    &mut self.memory,
                    &mut self.return_data,
                )?;
                Err(ExecutionError::Halt)
            },
            OpCode::Revert => {
                crate::utility::revert(
                    &mut self.stack,
                    &mut self.memory,
                    &mut self.return_data,
                )?;
                Err(ExecutionError::Revert)
            },
            OpCode::Call => {
                let res = crate::utility::call(
                    &mut self.stack,
                    &mut self.memory,
                    &mut self.state,
                    &mut self.storage,
                    &self.tx_data.to,
                    &self.tx_data.origin,
                    &mut self.last_return_data,
                    &mut self.logs,
                    self.limit,
                    self.read_only,
                    depth,
                );
                let r_out: Result<(), ExecutionError> = match res {
                    Ok(_) => Ok(()),
                    Err(e) => Err(e),
                };
                proof {
                    assert(same_outcome(r_out, res));
                    lemma_lift_call(*old(self), *self, depth as nat, r_out, res);
                }
                r_out
            },
            OpCode::Delegatecall => {
                let res = crate::utility::delegatecall(
                    &mut self.stack,
                    &mut self.memory,
                    &mut self.state,
                    &mut self.storage,
                    &self.tx_data.to,
                    &self.tx_data.from,
                    &self.tx_data.origin,
                    &self.tx_data.value,
                    &mut self.last_return_data,
                    &mut self.logs,
                    self.limit,
                    self.read_only,
                    depth,
                );
                let r_out: Result<(), ExecutionError> = match res {
                    Ok(_) => Ok(()),
                    Err(e) => Err(e),
                };
                proof {
                    assert(same_outcome(r_out, res));
                    lemma_lift_delegatecall(*old(self), *self, depth as nat, r_out, res);
                }
                r_out
            },
            OpCode::Staticcall => {
                let res = crate::utility::staticcall(
                    &mut self.stack,
                    &mut self.memory,
                    &mut self.state,
                    &mut self.storage,
                    &self.tx_data.to,
                    &self.tx_data.origin,
                    &self.tx_data.value,
                    &mut self.last_return_data,
                    &mut self.logs,
                    self.limit,
                    depth,
                );
                let r_out: Result<(), ExecutionError> = match res {
                    Ok(_) => Ok(()),
                    Err(e) => Err(e),
                };
                proof {
                    assert(same_outcome(r_out, res));
                    lemma_lift_staticcall(*old(self), *self, depth as nat, r_out, res);
                }
                r_out
            },
            OpCode::Create => {
                let res = crate::utility::create(
                    &mut self.stack,
                    &mut self.memory,
                    &mut self.state,
                    &mut self.storage,
                    &self.tx_data.to,
                    &self.tx_data.origin,
                    &mut self.last_return_data,
                    &mut self.logs,
                    self.limit,
                    self.read_only,
                    depth,
                );
                let r_out: Result<(), ExecutionError> = match res {
                    Ok(_) => Ok(()),
                    Err(e) => Err(e),
                };
                proof {
                    assert(same_outcome(r_out, res));
                    lemma_lift_create(*old(self), *self, depth as nat, r_out, res);
                }
                r_out
            },
            OpCode::Selfdestruct => {
                crate::utility::selfdestruct(
                    &mut self.stack,
                    &mut self.state,
                    &self.tx_data.to,
                    self.read_only,
                )?;
                Ok(())
            },
            _ => Err(ExecutionError::InvalidOpcode),
        }
    }

    /// The stack at the end of execution, top first.
    pub fn stack(&self) -> (r: Vec<Word>)
        ensures
            r@.len() == self.stack@.len(),
            forall|i: int|
                0 <= i < r@.len() ==> r@[i] == self.stack@[self.stack@.len() - 1 - i],
    {
        let n = self.stack.len();
        let mut out: Vec<Word> = Vec::new();
        for i in 0..n
            invariant
                n == self.stack@.len(),
                out@.len() == i,
                forall|k: int| 0 <= k < i ==> out@[k] == self.stack@[n - 1 - k],
            decreases n - i,
        {
            out.push(self.stack[n - 1 - i]);
        }
        out
    }

    /// The logs at the end of execution, most recent first.
    pub fn logs(&self) -> (r: Vec<Log>)
        ensures
            r@.len() == self.logs@.len(),
            forall|i: int|
                0 <= i < r@.len() ==> (#[trigger] r@[i])@ == self.logs@[self.logs@.len() - 1
                    - i]@,
    {
        let n = self.logs.len();
        let mut out: Vec<Log> = Vec::new();
        for i in 0..n
            invariant
                n == self.logs@.len(),
                out@.len() == i,
                forall|k: int| 0 <= k < i ==> (#[trigger] out@[k])@ == self.logs@[n - 1 - k]@,
            decreases n - i,
        {
            let entry = &self.logs[n - 1 - i];
            let mut topics: Vec<Word> = Vec::new();
            for t in 0..entry.topics.len()
                invariant
                    topics@.len() == t,
                    forall|k: int| 0 <= k < t ==> topics@[k] == entry.topics@[k],
                decreases entry.topics@.len() - t,
            {
                topics.push(entry.topics[t]);
            }
            proof {
                assert(topics@ =~= entry.topics@);
            }
            out.push(
                Log::new(entry.address, crate::bytes::clone_bytes(&entry.data), topics),
            );
        }
        out
    }

    /// The frame's return blob.
    pub fn return_data(&self) -> (r: Vec<u8>)
        ensures
            r@ == self.return_data@,
    {
        crate::bytes::clone_bytes(&self.return_data)
    }

    /// The frame's working world state.
    pub fn state(&self) -> (r: State)
        ensures
            r@ == self.state@,
    {
        self.state.duplicate()
    }

    /// The frame's working storage.
    pub fn storage(&self) -> (r: Storage)
        ensures
            r@ == self.storage@,
    {
        self.storage.duplicate()
    }
}

} // verus!
