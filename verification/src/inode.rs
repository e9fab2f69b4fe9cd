//! Inodes, as far as they are looked at here.
use crate::btree::bkey;
use crate::btree::bkey::{bkey_i, bpos};
use crate::btree::iter::{BtreeIterFlags, CommitOpts};
use crate::errcode;
use crate::errcode::{ret_to_result_void, BchError};
use vstd::prelude::*;

verus! {

/// Whether `c` is the key under which the inode with the key `k` is written to the key cache: its
/// own, in the last snapshot.
pub open spec fn is_cached_key(k: bkey_i, c: bkey_i) -> bool {
    &&& c.v@ == k.v@
    &&& c.k == bkey::bkey { p: bpos { snapshot: u32::MAX, ..k.k.p }, ..k.k }
}

/// Writes an inode, packed as the key `k`, to the key cache. `insert` inserts a key in the btree of
/// inodes; it is given the key, the options of the commit, of which none is set, and the flag
/// `cached`.
pub fn write_cached<I: FnOnce(bkey_i, u32, u32) -> i32>(
    k: bkey_i,
    cached: BtreeIterFlags,
    insert: I,
) -> (r: Result<(), BchError>)
    requires
        forall|c: bkey_i, o: u32, f: u32| call_requires(insert, (c, o, f)),
    ensures
        exists|c: bkey_i, ret: i32| #[trigger]
            call_ensures(insert, (c, 0u32, cached.0), ret) && is_cached_key(k, c) && match r {
                Ok(_) => !errcode::is_error(ret as int),
                Err(e) => errcode::is_error(ret as int) && e.code() == -ret,
            },
{
    let mut key = k;
    key.k.set_snapshot(u32::MAX);
    let ghost c = key;
    assert(is_cached_key(k, c));
    let opts = CommitOpts::new();
    let ret: i32 = insert(key, opts.bits(), cached.bits());
    assert(call_ensures(insert, (c, 0u32, cached.0), ret));
    ret_to_result_void(ret)
}

/// The key of an inode in the key cache is its own, value and all, but for the snapshot, which is the
/// last.
pub proof fn law_cached_keys_differ_in_the_snapshot(k: bkey_i, c: bkey_i)
    requires
        is_cached_key(k, c),
    ensures
        c.v@ == k.v@,
        c.k.p.snapshot == 0xffff_ffff,
        c.k.p.inode == k.k.p.inode,
        c.k.p.offset == k.k.p.offset,
        c.k.u64s == k.k.u64s && c.k.type_ == k.k.type_ && c.k.size == k.k.size && c.k.bversion
            == k.k.bversion,
{
}

} // verus!
