//! Structures of variable size.
use vstd::prelude::*;

verus! {

/// How far behind a journal entry the next one starts, in bytes: behind its header of eight bytes,
/// and its data of `u64s` 64 bit words.
pub fn vstruct_next_entry(u64s: u16) -> (r: usize)
    ensures
        r == 8 + u64s * 8,
{
    8 + u64s as usize * 8
}

} // verus!
