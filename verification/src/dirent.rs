//! Names of directory entries.
use vstd::prelude::*;

verus! {

/// A name, with its length and its hash.
#[allow(non_camel_case_types)]
#[derive(Clone, Copy, Debug)]
pub struct qstr<'a> {
    pub hash: u32,
    pub len: u32,
    pub name: &'a [u8],
}

/// A name whose hash was not computed. Its length is given in 32 bits.
pub fn qstr(name: &[u8]) -> (r: qstr<'_>)
    ensures
        r.hash == 0,
        r.len == name@.len() % 0x1_0000_0000,
        r.name@ == name@,
{
    let len: u64 = name.len() as u64 % 0x1_0000_0000;
    qstr { hash: 0, len: len as u32, name }
}

} // verus!
