use vstd::prelude::*;

verus! {

/// An element-for-element copy of a byte vector.
pub fn clone_bytes(v: &Vec<u8>) -> (r: Vec<u8>)
    ensures
        r@ == v@,
{
    let mut out: Vec<u8> = Vec::new();
    for i in 0..v.len()
        invariant
            out@.len() == i,
            forall|k: int| 0 <= k < i ==> out@[k] == v@[k],
        decreases v@.len() - i,
    {
        out.push(v[i]);
    }
    proof {
        assert(out@ =~= v@);
    }
    out
}

/// The big-endian bytes of a 64-bit integer, most significant first.
pub open spec fn u64_be_bytes(x: u64) -> Seq<u8> {
    Seq::new(8, |i: int| (((x as nat) / crate::word::byte_factor(7 - i)) % 0x100) as u8)
}

/// Writes a 64-bit integer as 8 big-endian bytes.
pub fn u64_to_be_bytes(x: u64) -> (r: Vec<u8>)
    ensures
        r@ == u64_be_bytes(x),
{
    let mut out: Vec<u8> = Vec::new();
    for i in 0..8usize
        invariant
            out@.len() == i,
            forall|k: int| 0 <= k < i ==> out@[k] == u64_be_bytes(x)[k],
        decreases 8 - i,
    {
        let f = crate::word::byte_factor_exec(7 - i);
        out.push(((x / f) % 0x100) as u8);
    }
    proof {
        assert(out@ =~= u64_be_bytes(x));
    }
    out
}

} // verus!
