use vstd::prelude::*;
use crate::state::UuidError;

verus! {

/// The node id of an interface: every byte of its hardware-address text,
/// separators and newline included, folded into 64 bits as
/// `acc = (acc << 8) + byte`. Only the last eight bytes remain.
pub open spec fn folded_address(text: Seq<u8>) -> u64
    decreases text.len(),
{
    if text.len() == 0 {
        0
    } else {
        ((folded_address(text.drop_last()) << 8u64) + text.last() as u64) as u64
    }
}

/// Folds the raw text of a hardware-address file into a node id.
pub fn node_id_from_address(text: &[u8]) -> (r: u64)
    ensures
        r == folded_address(text@),
{
    let mut acc: u64 = 0;
    let mut i: usize = 0;
    while i < text.len()
        invariant
            i <= text@.len(),
            acc == folded_address(text@.subrange(0, i as int)),
        decreases text@.len() - i,
    {
        assert(text@.subrange(0, i + 1).drop_last() == text@.subrange(0, i as int));
        let shifted: u64 = acc << 8u64;
        assert(shifted <= 0xFFFF_FFFF_FFFF_FF00) by (bit_vector)
            requires
                shifted == acc << 8u64,
        ;
        acc = shifted + text[i] as u64;
        i = i + 1;
    }
    assert(text@.subrange(0, i as int) == text@);
    acc
}

/// Which entry of the host's interface listing the node id is taken from:
/// the second, the first being taken for the loopback interface.
pub fn interface_position(entries: usize) -> (r: Result<usize, UuidError>)
    ensures
        entries >= 2 ==> r == Ok::<usize, UuidError>(1),
        entries < 2 ==> r == Err::<usize, UuidError>(UuidError::NoNetworkInterface),
{
    if entries >= 2 {
        Ok(1)
    } else {
        Err(UuidError::NoNetworkInterface)
    }
}

} // verus!
