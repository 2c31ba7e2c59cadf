use vstd::prelude::*;
use crate::bytes::clone_bytes;

verus! {

/// The immutable block context of a top-level invocation; each field is a
/// big-endian quantity of at most 32 bytes.
pub struct BlockData {
    pub basefee: Vec<u8>,
    pub coinbase: Vec<u8>,
    pub timestamp: Vec<u8>,
    pub number: Vec<u8>,
    pub difficulty: Vec<u8>,
    pub gaslimit: Vec<u8>,
    pub chainid: Vec<u8>,
}

impl BlockData {
    pub open spec fn wf(&self) -> bool {
        self.basefee@.len() <= 32 && self.coinbase@.len() <= 32 && self.timestamp@.len() <= 32
            && self.number@.len() <= 32 && self.difficulty@.len() <= 32 && self.gaslimit@.len()
            <= 32 && self.chainid@.len() <= 32
    }

    /// Builds the context from the raw field list `[basefee, coinbase,
    /// timestamp, number, difficulty, gaslimit, chainid]`; an empty list
    /// gives an all-empty context.
    pub fn new(block_data: Vec<Vec<u8>>) -> (r: BlockData)
        requires
            block_data@.len() == 0 || (block_data@.len() >= 7 && forall|i: int|
                0 <= i < 7 ==> #[trigger] block_data@[i]@.len() <= 32),
        ensures
            r.wf(),
            block_data@.len() == 0 ==> r.basefee@ == Seq::<u8>::empty() && r.coinbase@
                == Seq::<u8>::empty() && r.timestamp@ == Seq::<u8>::empty() && r.number@
                == Seq::<u8>::empty() && r.difficulty@ == Seq::<u8>::empty() && r.gaslimit@
                == Seq::<u8>::empty() && r.chainid@ == Seq::<u8>::empty(),
            block_data@.len() != 0 ==> r.basefee@ == block_data@[0]@ && r.coinbase@
                == block_data@[1]@ && r.timestamp@ == block_data@[2]@ && r.number@
                == block_data@[3]@ && r.difficulty@ == block_data@[4]@ && r.gaslimit@
                == block_data@[5]@ && r.chainid@ == block_data@[6]@,
    {
        if block_data.len() != 0 {
            BlockData {
                basefee: clone_bytes(&block_data[0]),
                coinbase: clone_bytes(&block_data[1]),
                timestamp: clone_bytes(&block_data[2]),
                number: clone_bytes(&block_data[3]),
                difficulty: clone_bytes(&block_data[4]),
                gaslimit: clone_bytes(&block_data[5]),
                chainid: clone_bytes(&block_data[6]),
            }
        } else {
            BlockData {
                basefee: Vec::new(),
                coinbase: Vec::new(),
                timestamp: Vec::new(),
                number: Vec::new(),
                difficulty: Vec::new(),
                gaslimit: Vec::new(),
                chainid: Vec::new(),
            }
        }
    }
}

} // verus!
