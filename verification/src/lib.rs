use vstd::prelude::*;

pub mod block_data;
pub mod bytes;
pub mod errors;
pub mod evm;
pub mod jumpdest;
pub mod keccak;
pub mod logs;
pub mod memory;
pub mod opcode;
pub mod state_data;
pub mod storage;
pub mod tx_data;
pub mod utility;
pub mod word;

pub use logs::Log;

use crate::block_data::BlockData;
use crate::evm::{execute_post, Evm, ExecutionResult};
use crate::memory::Memory;
use crate::state_data::State;
use crate::storage::{Storage, StorageEntry};
use crate::tx_data::TxData;
use crate::word::{word_of_be, Word};

verus! {

/// What a top-level invocation hands back: the final stack top-first, the
/// emitted logs, whether the frame ended in Success or Halt rather than
/// Revert, and the frame's return blob.
pub struct EvmResult {
    pub stack: Vec<Word>,
    pub logs: Vec<Log>,
    pub success: bool,
    pub ret: Vec<u8>,
}

/// Runs `code` as the top-level frame against the given transaction context,
/// block context and initial world state, with an empty storage and the
/// 1024-entry stack cap. The returned stack is top-first and never holds
/// more than 1024 words.
pub fn evm(
    code: Vec<u8>,
    tx_data: Vec<Vec<u8>>,
    block_data: Vec<Vec<u8>>,
    state_data: Vec<(Vec<u8>, (u64, Vec<u8>, Vec<u8>))>,
) -> (r: EvmResult)
    requires
        code@.len() + 33 <= usize::MAX,
        tx_data@.len() == 0 || (tx_data@.len() >= 6 && forall|i: int|
            0 <= i < 5 ==> #[trigger] tx_data@[i]@.len() <= 32),
        block_data@.len() == 0 || (block_data@.len() >= 7 && forall|i: int|
            0 <= i < 7 ==> #[trigger] block_data@[i]@.len() <= 32),
        forall|i: int|
            0 <= i < state_data@.len() ==> (#[trigger] state_data@[i]).0@.len() <= 32
                && state_data@[i].1.1@.len() <= 32,
    ensures
        r.stack@.len() <= 1024,
        exists|pre: Evm, post: Evm, res: ExecutionResult|
            {
                &&& #[trigger] execute_post(pre, post, res, 1024)
                &&& pre.code@ == code@
                &&& pre.stack@ == Seq::<Word>::empty()
                &&& pre.memory@ == Seq::<u8>::empty()
                &&& pre.logs@.len() == 0
                &&& pre.return_data@ == Seq::<u8>::empty()
                &&& pre.last_return_data@ == Seq::<u8>::empty()
                &&& pre.storage@ == Seq::<StorageEntry>::empty()
                &&& pre.limit == 1024
                &&& pre.read_only == false
                &&& (tx_data@.len() == 0 ==> pre.tx_data.to@ == Seq::<u8>::empty()
                    && pre.tx_data.from@ == Seq::<u8>::empty() && pre.tx_data.origin@
                    == Seq::<u8>::empty() && pre.tx_data.gasprice@ == Seq::<u8>::empty()
                    && pre.tx_data.value@ == Seq::<u8>::empty() && pre.tx_data.data@
                    == Seq::<u8>::empty())
                &&& (tx_data@.len() != 0 ==> pre.tx_data.to@ == tx_data@[0]@
                    && pre.tx_data.from@ == tx_data@[1]@ && pre.tx_data.origin@ == tx_data@[2]@
                    && pre.tx_data.gasprice@ == tx_data@[3]@ && pre.tx_data.value@
                    == tx_data@[4]@ && pre.tx_data.data@ == tx_data@[5]@)
                &&& (block_data@.len() == 0 ==> pre.block_data.basefee@ == Seq::<u8>::empty()
                    && pre.block_data.coinbase@ == Seq::<u8>::empty()
                    && pre.block_data.timestamp@ == Seq::<u8>::empty() && pre.block_data.number@
                    == Seq::<u8>::empty() && pre.block_data.difficulty@ == Seq::<u8>::empty()
                    && pre.block_data.gaslimit@ == Seq::<u8>::empty() && pre.block_data.chainid@
                    == Seq::<u8>::empty())
                &&& (block_data@.len() != 0 ==> pre.block_data.basefee@ == block_data@[0]@
                    && pre.block_data.coinbase@ == block_data@[1]@ && pre.block_data.timestamp@
                    == block_data@[2]@ && pre.block_data.number@ == block_data@[3]@
                    && pre.block_data.difficulty@ == block_data@[4]@
                    && pre.block_data.gaslimit@ == block_data@[5]@ && pre.block_data.chainid@
                    == block_data@[6]@)
                &&& pre.state@.len() == state_data@.len()
                &&& (forall|i: int|
                    0 <= i < state_data@.len() ==> (#[trigger] pre.state@[i]).address
                        == word_of_be(state_data@[i].0@) && pre.state@[i].nonce
                        == state_data@[i].1.0 && pre.state@[i].balance == word_of_be(
                        state_data@[i].1.1@,
                    ) && pre.state@[i].code == state_data@[i].1.2@)
                &&& r.success == (res != ExecutionResult::Revert)
                &&& r.ret@ == post.return_data@
                &&& r.stack@.len() == post.stack@.len()
                &&& (forall|i: int|
                    0 <= i < r.stack@.len() ==> r.stack@[i] == post.stack@[post.stack@.len() - 1
                        - i])
                &&& r.logs@.len() == post.logs@.len()
                &&& (forall|i: int|
                    0 <= i < r.logs@.len() ==> (#[trigger] r.logs@[i])@
                        == post.logs@[post.logs@.len() - 1 - i]@)
            },
{
    let limit: usize = 1024;
    let ghost code_view = code@;
    let tx = TxData::new(tx_data);
    let block = BlockData::new(block_data);
    let state = State::new(state_data);
    let storage = Storage::new_empty();

    let mut machine = Evm::new(
        code,
        tx,
        block,
        state,
        storage,
        Vec::new(),
        Vec::new(),
        Vec::new(),
        Vec::new(),
        Memory::new(),
        limit,
        false,
    );
    let ghost pre_snap = machine;

    let result = machine.execute(1024);
    let ghost post_snap = machine;

    let success = !matches!(result, ExecutionResult::Revert);
    let out = EvmResult {
        stack: machine.stack(),
        logs: machine.logs(),
        success,
        ret: machine.return_data(),
    };
    proof {
        assert(pre_snap.code@ == code_view);
        assert(pre_snap.stack@ =~= Seq::<Word>::empty());
        assert(pre_snap.memory@ =~= Seq::<u8>::empty());
        assert(pre_snap.return_data@ =~= Seq::<u8>::empty());
        assert(pre_snap.last_return_data@ =~= Seq::<u8>::empty());
        assert(pre_snap.storage@ =~= Seq::<StorageEntry>::empty());
        assert(execute_post(pre_snap, post_snap, result, 1024));
    }
    out
}

} // verus!
