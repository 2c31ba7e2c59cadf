use vstd::prelude::*;
use crate::bytes::clone_bytes;

verus! {

/// The immutable transaction context of a frame. Every field but `data` is a
/// big-endian quantity of at most 32 bytes; `data` is the calldata.
pub struct TxData {
    pub to: Vec<u8>,
    pub from: Vec<u8>,
    pub origin: Vec<u8>,
    pub gasprice: Vec<u8>,
    pub value: Vec<u8>,
    pub data: Vec<u8>,
}

impl TxData {
    /// Word-sized fields stay within 32 bytes, so they can be read as words.
    pub open spec fn wf(&self) -> bool {
        self.to@.len() <= 32 && self.from@.len() <= 32 && self.origin@.len() <= 32
            && self.gasprice@.len() <= 32 && self.value@.len() <= 32
    }

    /// Builds the context from the raw field list
    /// `[to, from, origin, gasprice, value, data]`; an empty list gives an
    /// all-empty context.
    pub fn new(tx_data: Vec<Vec<u8>>) -> (r: TxData)
        requires
            tx_data@.len() == 0 || (tx_data@.len() >= 6 && forall|i: int|
                0 <= i < 5 ==> #[trigger] tx_data@[i]@.len() <= 32),
        ensures
            r.wf(),
            tx_data@.len() == 0 ==> r.to@ == Seq::<u8>::empty() && r.from@ == Seq::<u8>::empty()
                && r.origin@ == Seq::<u8>::empty() && r.gasprice@ == Seq::<u8>::empty()
                && r.value@ == Seq::<u8>::empty() && r.data@ == Seq::<u8>::empty(),
            tx_data@.len() != 0 ==> r.to@ == tx_data@[0]@ && r.from@ == tx_data@[1]@ && r.origin@
                == tx_data@[2]@ && r.gasprice@ == tx_data@[3]@ && r.value@ == tx_data@[4]@
                && r.data@ == tx_data@[5]@,
    {
        if tx_data.len() != 0 {
            TxData {
                to: clone_bytes(&tx_data[0]),
                from: clone_bytes(&tx_data[1]),
                origin: clone_bytes(&tx_data[2]),
                gasprice: clone_bytes(&tx_data[3]),
                value: clone_bytes(&tx_data[4]),
                data: clone_bytes(&tx_data[5]),
            }
        } else {
            TxData {
                to: Vec::new(),
                from: Vec::new(),
                origin: Vec::new(),
                gasprice: Vec::new(),
                value: Vec::new(),
                data: Vec::new(),
            }
        }
    }
}

} // verus!
