use vstd::prelude::*;
use crate::word::Word;


verus! {

/// The mathematical content of one log record.
pub struct LogView {
    pub address: Word,
    pub data: Seq<u8>,
    pub topics: Seq<Word>,
}

/// One emitted log record: the emitting address, its data bytes and up to
/// four topic words, in the order they were popped.
#[derive(Debug)]
pub struct Log {
    pub address: Word,
    pub data: Vec<u8>,
    pub topics: Vec<Word>,
}

/// The contents of a log list.
pub open spec fn logs_view(s: Seq<Log>) -> Seq<LogView> {
    Seq::new(s.len(), |i: int| s[i]@)
}

impl Log {
    pub open spec fn view(&self) -> LogView {
        LogView { address: self.address, data: self.data@, topics: self.topics@ }
    }

    /// An element-for-element copy of one record.
    pub fn duplicate(&self) -> (r: Log)
        ensures
            r@ == self@,
    {
        let mut topics: Vec<Word> = Vec::new();
        for t in 0..self.topics.len()
            invariant
                topics@.len() == t,
                forall|k: int| 0 <= k < t ==> topics@[k] == self.topics@[k],
            decreases self.topics@.len() - t,
        {
            topics.push(self.topics[t]);
        }
        proof {
            assert(topics@ =~= self.topics@);
        }
        Log { address: self.address, data: crate::bytes::clone_bytes(&self.data), topics }
    }

    pub fn new(address: Word, data: Vec<u8>, topics: Vec<Word>) -> (r: Log)
        ensures
            r.address == address,
            r.data == data,
            r.topics == topics,
    {
        Log { address, data, topics }
    }
}

} // verus!
