//! Transactions, and iteration over btrees.
//!
//! The functions here are given the btree operations that they call, and say what each is given and
//! what its return value comes to. A loop over keys is a [`Walker`]: it is told what each operation
//! has returned, and says which operation comes next.
use crate::btree::bkey;
use crate::btree::bkey::{bkey_i, bkey_le, bpos, bpos_successor, BkeyInit, BkeySC};
use crate::btree::types::btree_id;
use crate::buckets;
use crate::buckets::{disk_reservation, DiskReservation};
use crate::errcode;
use crate::errcode::{
    bch_err_throw, bch_errcode, errptr_to_result, errptr_to_result_c, ret_to_result_void, BchError,
};
use vstd::prelude::*;
use vstd::slice::{slice_subrange, slice_to_vec};

verus! {

/// Why an attempt at a transaction did not succeed.
#[derive(Clone, Copy, PartialEq, Eq, Structural, Debug)]
pub enum TransError {
    /// The transaction has to be restarted.
    Restart(BchError),
    /// The transaction has failed.
    Error(BchError),
}

impl TransError {
    /// The error.
    pub open spec fn error(self) -> BchError {
        match self {
            TransError::Restart(e) => e,
            TransError::Error(e) => e,
        }
    }

    /// Tells a restart from a failure. `is_restart` says whether an error is in the class of
    /// restarts.
    pub fn from_error<F: Fn(BchError) -> bool>(error: BchError, is_restart: F) -> (r: TransError)
        requires
            call_requires(is_restart, (error,)),
        ensures
            r.error() == error,
            call_ensures(is_restart, (error,), r is Restart),
    {
        if is_restart(error) {
            TransError::Restart(error)
        } else {
            TransError::Error(error)
        }
    }
}

/// What the result of an attempt comes to: a value, another attempt, or an error.
pub fn retry_restart<T>(result: Result<T, TransError>) -> (r: Result<Option<T>, BchError>)
    ensures
        r == (match result {
            Ok(v) => Ok(Some(v)),
            Err(TransError::Restart(_)) => Ok(None),
            Err(TransError::Error(e)) => Err(e),
        }),
{
    match result {
        Ok(v) => Ok(Some(v)),
        Err(TransError::Restart(_)) => Ok(None),
        Err(TransError::Error(e)) => Err(e),
    }
}

/// What a loop that retries an attempt does once an attempt was made.
pub enum Retry<T> {
    /// Begin the transaction again.
    Again,
    /// Check that the transaction was not restarted behind the attempt, and return the value.
    Done(T),
    /// Return the error.
    Failed(BchError),
}

/// What a loop that retries an attempt does once the attempt has come to `attempt`.
pub open spec fn turn<T>(attempt: Result<T, TransError>) -> Retry<T> {
    match attempt {
        Ok(v) => Retry::Done(v),
        Err(TransError::Restart(_)) => Retry::Again,
        Err(TransError::Error(e)) => Retry::Failed(e),
    }
}

/// One turn of a loop that runs an attempt until it is not restarted.
pub fn lockrestart_do<T>(attempt: Result<T, TransError>) -> (r: Retry<T>)
    ensures
        r == turn(attempt),
{
    match retry_restart(attempt) {
        Ok(Some(v)) => Retry::Done(v),
        Ok(None) => Retry::Again,
        Err(e) => Retry::Failed(e),
    }
}

/// One turn of a loop that runs an attempt and commits it, until neither is restarted. The attempt
/// is committed only where it has succeeded; [`TransAttempt::commit`] says what `commit` is given
/// and returns.
pub fn commit_do<
    C: FnOnce(Option<disk_reservation>, u32, bool) -> (i32, Option<disk_reservation>),
    F: Fn(BchError) -> bool,
>(
    attempt: Result<TransAttempt, TransError>,
    disk_res: Option<&mut DiskReservation>,
    flags: CommitOpts,
    commit: C,
    is_restart: F,
) -> (r: Retry<TransAttempt>)
    requires
        forall|d: Option<disk_reservation>, o: u32, lazy: bool|
            call_requires(commit, (d, o, lazy)),
        forall|e: BchError| call_requires(is_restart, (e,)),
    ensures
        match attempt {
            Err(_) => r == turn(attempt) && match disk_res {
                Some(d) => final(d).reserved() == d.reserved(),
                None => true,
            },
            Ok(t) => exists|
                o: (i32, Option<disk_reservation>),
                c: Result<TransAttempt, TransError>,
            | #[trigger]
                call_ensures(commit, (buckets::reserved_in(disk_res), flags.word(), false), o)
                    && t.goes_on(o.0, is_restart, c) && r == #[trigger] turn(c) && match disk_res {
                    Some(d) => Some(final(d).reserved()) == buckets::spent(
                        Some(d.reserved()),
                        o.1,
                    ),
                    None => true,
                },
        },
{
    match attempt {
        Err(e) => lockrestart_do(Err(e)),
        Ok(t) => {
            let c = t.commit(disk_res, flags, commit, is_restart);
            lockrestart_do(c)
        },
    }
}

/// An attempt at a transaction. The count of restarts tells whether it is still the latest. An
/// operation that can fail uses the attempt up, and gives it back where the attempt goes on.
#[derive(PartialEq, Eq, Structural, Debug)]
pub struct TransAttempt {
    restart_count: u32,
}

/// A key in memory that belongs to a transaction.
pub struct TransBkey {
    /// Where the memory is.
    pub addr: usize,
    /// Its size, in 64 bit words.
    pub buf_u64s: u32,
    /// The key that it holds.
    pub key: bkey_i,
}

/// Whether `t` is the memory at `p`, of `u64s` words.
pub open spec fn is_memory(t: TransBkey, p: usize, u64s: int) -> bool {
    !errcode::is_error_address(p) && t.addr == p && t.buf_u64s == u64s
}

/// Whether `p` is the error `e` in place of an address.
pub open spec fn is_no_memory(e: BchError, p: usize) -> bool {
    errcode::is_error_address(p) && e.code() == usize::MAX + 1 - p
}

impl TransBkey {
    /// Where the memory is.
    pub fn as_ptr(&self) -> (r: usize)
        ensures
            r == self.addr,
    {
        self.addr
    }

    /// The key without its value.
    pub fn k(&self) -> (r: &bkey::bkey)
        ensures
            *r == self.key.k,
    {
        &self.key.k
    }

    /// The key without its value, to be changed in place.
    pub fn k_mut(&mut self) -> (r: &mut bkey::bkey)
        ensures
            *r == old(self).key.k,
            *final(self) == (TransBkey {
                key: bkey_i { k: *final(r), v: old(self).key.v },
                ..*old(self)
            }),
    {
        &mut self.key.k
    }

    /// The inline key.
    pub fn k_i(&self) -> (r: &bkey_i)
        ensures
            *r == self.key,
    {
        &self.key
    }

    /// The inline key, to be changed in place.
    pub fn k_i_mut(&mut self) -> (r: &mut bkey_i)
        ensures
            *r == old(self).key,
            *final(self) == (TransBkey { key: *final(r), ..*old(self) }),
    {
        &mut self.key
    }
}

/// A node of a btree that is held by a transaction.
pub struct BtreeNodeRef {
    /// Where the node is.
    pub addr: usize,
    /// Its level.
    pub level: u8,
    /// Its key.
    pub key: bkey_i,
}

impl BtreeNodeRef {
    /// The level of the node.
    pub fn level(&self) -> (r: u32)
        ensures
            r == self.level,
    {
        self.level as u32
    }

    /// The key of the node.
    pub fn key(&self) -> (r: &bkey_i)
        ensures
            *r == self.key,
    {
        &self.key
    }

    /// The key of the node, and its value.
    pub fn key_sc(&self) -> (r: BkeySC<'_>)
        ensures
            *r.k == self.key.k,
            r.v@ == self.key.v@,
    {
        BkeySC::of(&self.key)
    }
}

impl TransAttempt {
    /// The count of restarts when the attempt began.
    pub closed spec fn began_at(self) -> u32 {
        self.restart_count
    }

    /// The attempt that begins at the given count of restarts.
    pub fn begin(restart_count: u32) -> (r: Self)
        ensures
            r.began_at() == restart_count,
    {
        TransAttempt { restart_count }
    }

    /// Whether the transaction was not restarted since the attempt began.
    pub fn verify_not_restarted(&self, restart_count: u32) -> (r: bool)
        ensures
            r == (self.began_at() == restart_count),
    {
        self.restart_count == restart_count
    }

    /// Whether `r` is what the return value of an operation comes to: the attempt goes on, or has to
    /// be given up.
    pub open spec fn goes_on<F: Fn(BchError) -> bool>(
        self,
        ret: i32,
        is_restart: F,
        r: Result<Self, TransError>,
    ) -> bool {
        match r {
            Ok(t) => !errcode::is_error(ret as int) && t == self,
            Err(e) => errcode::is_error(ret as int) && e.error().code() == -ret && call_ensures(
                is_restart,
                (e.error(),),
                e is Restart,
            ),
        }
    }

    /// What the return value of an operation comes to: the attempt goes on, or has to be given up.
    pub fn result<F: Fn(BchError) -> bool>(self, ret: i32, is_restart: F) -> (r: Result<
        Self,
        TransError,
    >)
        requires
            forall|e: BchError| call_requires(is_restart, (e,)),
        ensures
            self.goes_on(ret, is_restart, r),
    {
        match ret_to_result_void(ret) {
            Ok(_) => Ok(self),
            Err(e) => Err(TransError::from_error(e, is_restart)),
        }
    }

    /// Gives the attempt up, to be restarted.
    pub fn restart(self, error: bch_errcode) -> (r: TransError)
        ensures
            r is Restart,
            r.error().code() == error.0 as i32,
    {
        TransError::Restart(bch_err_throw(error))
    }

    /// The attempt, with a value.
    pub fn done<T>(self, value: T) -> (r: Result<(Self, T), TransError>)
        ensures
            r == Ok::<(Self, T), TransError>((self, value)),
    {
        Ok((self, value))
    }

    /// The attempt, with the value of a result.
    pub fn result_value<T, F: Fn(BchError) -> bool>(
        self,
        result: Result<T, BchError>,
        is_restart: F,
    ) -> (r: Result<(Self, T), TransError>)
        requires
            forall|e: BchError| call_requires(is_restart, (e,)),
        ensures
            match (result, r) {
                (Ok(v), Ok(p)) => p == (self, v),
                (Err(e), Err(t)) => t.error() == e && call_ensures(
                    is_restart,
                    (e,),
                    t is Restart,
                ),
                _ => false,
            },
    {
        match result {
            Ok(v) => self.done(v),
            Err(e) => Err(TransError::from_error(e, is_restart)),
        }
    }

    /// Runs an operation within the attempt.
    pub fn try_do<O: FnOnce() -> Result<(), BchError>, F: Fn(BchError) -> bool>(
        self,
        operation: O,
        is_restart: F,
    ) -> (r: Result<Self, TransError>)
        requires
            call_requires(operation, ()),
            forall|e: BchError| call_requires(is_restart, (e,)),
        ensures
            exists|o: Result<(), BchError>| #[trigger]
                call_ensures(operation, (), o) && match (o, r) {
                    (Ok(_), Ok(t)) => t == self,
                    (Err(e), Err(t)) => t.error() == e && call_ensures(
                        is_restart,
                        (e,),
                        t is Restart,
                    ),
                    _ => false,
                },
    {
        let o = operation();
        match o {
            Ok(_) => Ok(self),
            Err(e) => Err(TransError::from_error(e, is_restart)),
        }
    }

    /// Allocates memory for a key of `u64s` words. `kmalloc` takes a size in bytes, and returns an
    /// address or an error, and the key that the memory holds as it comes.
    pub fn bkey_alloc<F: FnOnce(usize) -> (usize, bkey_i)>(
        &self,
        u64s: u32,
        kmalloc: F,
    ) -> (r: Result<TransBkey, BchError>)
        requires
            u64s * 8 <= usize::MAX,
            forall|n: usize| call_requires(kmalloc, (n,)),
            forall|n: usize, m: (usize, bkey_i)| call_ensures(kmalloc, (n,), m) ==> m.0 != 0,
        ensures
            exists|m: (usize, bkey_i)| #[trigger]
                call_ensures(kmalloc, ((u64s * 8) as usize,), m) && match r {
                    Ok(t) => is_memory(t, m.0, u64s as int) && t.key == m.1,
                    Err(e) => is_no_memory(e, m.0),
                },
    {
        let n: usize = u64s as usize * 8;
        let (p, key) = kmalloc(n);
        match errptr_to_result(p) {
            Ok(addr) => Ok(TransBkey { addr, buf_u64s: u64s, key }),
            Err(e) => Err(e),
        }
    }

    /// Allocates memory for a key of the type `K`, which takes up `size` bytes, and begins a new key
    /// there.
    pub fn bkey_alloc_typed<K: BkeyInit, F: FnOnce(usize) -> (usize, bkey_i)>(
        &self,
        size: usize,
        kmalloc: F,
    ) -> (r: Result<TransBkey, BchError>)
        requires
            size % 8 == 0,
            size / 8 <= u32::MAX,
            forall|n: usize| call_requires(kmalloc, (n,)),
            forall|n: usize, m: (usize, bkey_i)| call_ensures(kmalloc, (n,), m) ==> m.0 != 0,
        ensures
            exists|m: (usize, bkey_i)| #[trigger]
                call_ensures(kmalloc, (size,), m) && match r {
                    Ok(t) => is_memory(t, m.0, size as int / 8) && exists|k: K| #[trigger]
                        k.initialized() && t.key.k == k.key().k && t.key.v@ == k.key().v@,
                    Err(e) => is_no_memory(e, m.0),
                },
    {
        let u64s: u32 = (size / 8) as u32;
        assert((u64s * 8) as usize == size);
        match self.bkey_alloc(u64s, kmalloc) {
            Ok(mut t) => {
                let new = K::init();
                let k = new.k_i();
                let v = slice_to_vec(k.v.as_slice());
                assert(new.initialized() && k.k == new.key().k && v@ == new.key().v@);
                t.key = bkey_i { k: k.k, v };
                Ok(t)
            },
            Err(e) => Err(e),
        }
    }

    /// Copies a key to memory of the transaction, to be changed there. `make` is given the key, and
    /// returns an address or an error, and the key that the memory holds.
    pub fn bkey_make_mut_noupdate<'k, M: FnOnce(BkeySC<'k>) -> (usize, bkey_i)>(
        &self,
        k: BkeySC<'k>,
        make: M,
    ) -> (r: Result<TransBkey, BchError>)
        requires
            call_requires(make, (k,)),
            forall|m: (usize, bkey_i)| call_ensures(make, (k,), m) ==> m.0 != 0,
        ensures
            exists|m: (usize, bkey_i)| #[trigger]
                call_ensures(make, (k,), m) && match r {
                    Ok(t) => is_memory(t, m.0, m.1.k.u64s as int) && t.key == m.1,
                    Err(e) => is_no_memory(e, m.0),
                },
    {
        let (p, key) = make(k);
        match errptr_to_result(p) {
            Ok(addr) => Ok(TransBkey { addr, buf_u64s: key.k.u64s as u32, key }),
            Err(e) => Err(e),
        }
    }

    /// Allocates memory for a copy of a key: of as many words as the key says that it has.
    pub fn bkey_copy<F: FnOnce(usize) -> (usize, bkey_i)>(
        &self,
        k: &bkey_i,
        kmalloc: F,
    ) -> (r: Result<TransBkey, BchError>)
        requires
            bkey::BKEY_U64S <= k.k.u64s,
            k.k.u64s - bkey::BKEY_U64S <= k.v@.len(),
            forall|n: usize| call_requires(kmalloc, (n,)),
            forall|n: usize, m: (usize, bkey_i)| call_ensures(kmalloc, (n,), m) ==> m.0 != 0,
        ensures
            exists|m: (usize, bkey_i)| #[trigger]
                call_ensures(kmalloc, ((k.k.u64s * 8) as usize,), m) && match r {
                    Ok(t) => is_memory(t, m.0, k.k.u64s as int) && t.key.k == k.k && t.key.v@
                        == k.v@.take(k.k.u64s - bkey::BKEY_U64S),
                    Err(e) => is_no_memory(e, m.0),
                },
    {
        self.bkey_reassemble(BkeySC::of(k), kmalloc)
    }

    /// Allocates memory for a key that is put together from a key and a value.
    pub fn bkey_reassemble<F: FnOnce(usize) -> (usize, bkey_i)>(
        &self,
        k: BkeySC<'_>,
        kmalloc: F,
    ) -> (r: Result<TransBkey, BchError>)
        requires
            bkey::BKEY_U64S <= k.k.u64s,
            k.k.u64s - bkey::BKEY_U64S <= k.v@.len(),
            forall|n: usize| call_requires(kmalloc, (n,)),
            forall|n: usize, m: (usize, bkey_i)| call_ensures(kmalloc, (n,), m) ==> m.0 != 0,
        ensures
            exists|m: (usize, bkey_i)| #[trigger]
                call_ensures(kmalloc, ((k.k.u64s * 8) as usize,), m) && match r {
                    Ok(t) => is_memory(t, m.0, k.k.u64s as int) && t.key.k == *k.k && t.key.v@
                        == k.v@.take(k.k.u64s - bkey::BKEY_U64S),
                    Err(e) => is_no_memory(e, m.0),
                },
    {
        match self.bkey_alloc(k.k.u64s as u32, kmalloc) {
            Ok(mut t) => {
                let n: usize = (k.k.u64s - bkey::BKEY_U64S) as usize;
                let v = slice_to_vec(slice_subrange(k.v, 0, n));
                assert(k.v@.subrange(0, n as int) == k.v@.take(n as int));
                t.key = bkey_i { k: *k.k, v };
                Ok(t)
            },
            Err(e) => Err(e),
        }
    }

    /// Commits the attempt. `commit` is given the reservation to take space from, the options, and
    /// whether the commit may be put off, which it may not. It returns what it has left of the
    /// reservation.
    pub fn commit<
        C: FnOnce(Option<disk_reservation>, u32, bool) -> (i32, Option<disk_reservation>),
        F: Fn(BchError) -> bool,
    >(
        self,
        disk_res: Option<&mut DiskReservation>,
        flags: CommitOpts,
        commit: C,
        is_restart: F,
    ) -> (r: Result<Self, TransError>)
        requires
            forall|d: Option<disk_reservation>, o: u32, lazy: bool|
                call_requires(commit, (d, o, lazy)),
            forall|e: BchError| call_requires(is_restart, (e,)),
        ensures
            exists|o: (i32, Option<disk_reservation>)| #[trigger]
                call_ensures(commit, (buckets::reserved_in(disk_res), flags.word(), false), o)
                    && self.goes_on(o.0, is_restart, r) && match disk_res {
                    Some(d) => Some(final(d).reserved()) == buckets::spent(
                        Some(d.reserved()),
                        o.1,
                    ),
                    None => true,
                },
    {
        let lent: Option<disk_reservation> = match &disk_res {
            Some(d) => Some(*d.as_ptr()),
            None => None,
        };
        let (ret, left) = commit(lent, flags.bits(), false);
        if let Some(d) = disk_res {
            d.give_back(left);
        }
        self.result(ret, is_restart)
    }

    /// Updates the key at an iterator. `update` is given where the key is, the key, how much memory
    /// it has there, and the flags.
    pub fn update<U: FnOnce(usize, bkey_i, u32, u32) -> i32, F: Fn(BchError) -> bool>(
        self,
        key: TransBkey,
        flags: UpdateTriggerFlags,
        update: U,
        is_restart: F,
    ) -> (r: Result<Self, TransError>)
        requires
            forall|a: usize, k: bkey_i, n: u32, f: u32| call_requires(update, (a, k, n, f)),
            forall|e: BchError| call_requires(is_restart, (e,)),
        ensures
            exists|ret: i32| #[trigger]
                call_ensures(update, (key.addr, key.key, key.buf_u64s, flags.0), ret)
                    && self.goes_on(ret, is_restart, r),
    {
        let ret: i32 = update(key.addr, key.key, key.buf_u64s, flags.bits());
        self.result(ret, is_restart)
    }

    /// Inserts a key in a known btree. `insert` is given the btree, where the key is, the key, and
    /// the flags.
    pub fn insert<I: FnOnce(btree_id, usize, bkey_i, u32) -> i32, F: Fn(BchError) -> bool>(
        self,
        known: &[String],
        id: u32,
        key: TransBkey,
        flags: UpdateTriggerFlags,
        insert: I,
        is_restart: F,
    ) -> (r: Result<Self, TransError>)
        requires
            id < known@.len(),
            forall|b: btree_id, a: usize, k: bkey_i, f: u32| call_requires(insert, (b, a, k, f)),
            forall|e: BchError| call_requires(is_restart, (e,)),
        ensures
            exists|ret: i32| #[trigger]
                call_ensures(insert, (btree_id(id), key.addr, key.key, flags.0), ret)
                    && self.goes_on(ret, is_restart, r),
    {
        let ret: i32 = insert(btree_id(id), key.addr, key.key, flags.bits());
        self.result(ret, is_restart)
    }

    /// Inserts a key that is no extent in a known btree. `insert` is given the btree, where the key
    /// is, the key, its size, and the flags.
    pub fn insert_nonextent<
        I: FnOnce(btree_id, usize, bkey_i, u32, u32) -> i32,
        F: Fn(BchError) -> bool,
    >(
        self,
        known: &[String],
        id: u32,
        key: TransBkey,
        flags: UpdateTriggerFlags,
        insert: I,
        is_restart: F,
    ) -> (r: Result<Self, TransError>)
        requires
            id < known@.len(),
            forall|b: btree_id, a: usize, k: bkey_i, n: u32, f: u32|
                call_requires(insert, (b, a, k, n, f)),
            forall|e: BchError| call_requires(is_restart, (e,)),
        ensures
            exists|ret: i32| #[trigger]
                call_ensures(
                    insert,
                    (btree_id(id), key.addr, key.key, key.key.k.u64s as u32, flags.0),
                    ret,
                ) && self.goes_on(ret, is_restart, r),
    {
        let u64s: u32 = key.key.k.u64s as u32;
        let ret: i32 = insert(btree_id(id), key.addr, key.key, u64s, flags.bits());
        self.result(ret, is_restart)
    }

    /// Changes the key of a node of a btree. `update` is given the node, where the key is, the key,
    /// the options of the commit, and whether the node was looked for with the iterator.
    pub fn btree_node_update_key<
        U: FnOnce(usize, usize, bkey_i, u32, bool) -> i32,
        F: Fn(BchError) -> bool,
    >(
        self,
        node: BtreeNodeRef,
        key: TransBkey,
        flags: CommitOpts,
        iter_searched: bool,
        update: U,
        is_restart: F,
    ) -> (r: Result<Self, TransError>)
        requires
            forall|b: usize, a: usize, k: bkey_i, o: u32, s: bool|
                call_requires(update, (b, a, k, o, s)),
            forall|e: BchError| call_requires(is_restart, (e,)),
        ensures
            exists|ret: i32| #[trigger]
                call_ensures(
                    update,
                    (node.addr, key.addr, key.key, flags.word(), iter_searched),
                    ret,
                ) && self.goes_on(ret, is_restart, r),
    {
        let ret: i32 = update(node.addr, key.addr, key.key, flags.bits(), iter_searched);
        self.result(ret, is_restart)
    }

    /// Deletes the key at a position of a known btree.
    pub fn delete<D: FnOnce(btree_id, bpos, u32) -> i32, F: Fn(BchError) -> bool>(
        self,
        known: &[String],
        id: u32,
        pos: bpos,
        flags: UpdateTriggerFlags,
        delete: D,
        is_restart: F,
    ) -> (r: Result<Self, TransError>)
        requires
            id < known@.len(),
            forall|b: btree_id, p: bpos, f: u32| call_requires(delete, (b, p, f)),
            forall|e: BchError| call_requires(is_restart, (e,)),
        ensures
            exists|ret: i32| #[trigger]
                call_ensures(delete, (btree_id(id), pos, flags.0), ret) && self.goes_on(
                    ret,
                    is_restart,
                    r,
                ),
    {
        let ret: i32 = delete(btree_id(id), pos, flags.bits());
        self.result(ret, is_restart)
    }

    /// Deletes the key at an iterator.
    pub fn delete_at<D: FnOnce(u32) -> i32, F: Fn(BchError) -> bool>(
        self,
        flags: UpdateTriggerFlags,
        delete: D,
        is_restart: F,
    ) -> (r: Result<Self, TransError>)
        requires
            forall|f: u32| call_requires(delete, (f,)),
            forall|e: BchError| call_requires(is_restart, (e,)),
        ensures
            exists|ret: i32| #[trigger]
                call_ensures(delete, (flags.0,), ret) && self.goes_on(ret, is_restart, r),
    {
        let ret: i32 = delete(flags.bits());
        self.result(ret, is_restart)
    }

    /// Creates snapshot nodes below `parent`. Where there are as many subvolumes as nodes to create,
    /// `create` is called with the parent, the numbers of the nodes as they are so far, the
    /// subvolumes, and how many there are. It returns the numbers of the nodes as it has left them.
    pub fn snapshot_node_create<
        C: FnOnce(u32, &[u32], &[u32], u32) -> (i32, Vec<u32>),
        F: Fn(BchError) -> bool,
    >(
        self,
        parent: u32,
        new_snapids: &mut Vec<u32>,
        snapshot_subvols: &[u32],
        create: C,
        invalid_snapshot_node: bch_errcode,
        is_restart: F,
    ) -> (r: Result<Self, TransError>)
        requires
            old(new_snapids)@.len() <= u32::MAX,
            forall|p: u32, ids: &[u32], subvols: &[u32], n: u32|
                call_requires(create, (p, ids, subvols, n)),
            forall|e: BchError| call_requires(is_restart, (e,)),
        ensures
            old(new_snapids)@.len() != snapshot_subvols@.len() ==> {
                &&& final(new_snapids)@ == old(new_snapids)@
                &&& r matches Err(e) && e.error().code() == invalid_snapshot_node.0 as i32
                    && call_ensures(is_restart, (e.error(),), e is Restart)
            },
            old(new_snapids)@.len() == snapshot_subvols@.len() ==> exists|
                ids: &[u32],
                o: (i32, Vec<u32>),
            | #[trigger]
                call_ensures(create, (parent, ids, snapshot_subvols, ids@.len() as u32), o) && ids@
                    == old(new_snapids)@ && *final(new_snapids) == o.1 && self.goes_on(
                    o.0,
                    is_restart,
                    r,
                ),
    {
        if new_snapids.len() != snapshot_subvols.len() {
            return Err(TransError::from_error(bch_err_throw(invalid_snapshot_node), is_restart));
        }
        let ids = new_snapids.as_slice();
        let n: u32 = ids.len() as u32;
        let (ret, left) = create(parent, ids, snapshot_subvols, n);
        *new_snapids = left;
        self.result(ret, is_restart)
    }
}

/// What an operation that looks for a key returns: an error, no key, or the address of one.
pub fn bkey_s_c_to_result(k: usize) -> (r: Result<Option<usize>, BchError>)
    ensures
        match r {
            Ok(Some(a)) => !errcode::is_error_address(k) && k != 0 && a == k,
            Ok(None) => k == 0,
            Err(e) => errcode::is_error_address(k) && e.code() == usize::MAX + 1 - k,
        },
{
    match errptr_to_result_c(k) {
        Ok(a) => if a != 0 {
            Ok(Some(a))
        } else {
            Ok(None)
        },
        Err(e) => Err(e),
    }
}

/// Flags of an iterator.
#[derive(Clone, Copy, PartialEq, Eq, Structural, Debug)]
pub struct BtreeIterFlags(pub u32);

impl BtreeIterFlags {
    /// The word of flags.
    pub fn bits(&self) -> (r: u32)
        ensures
            r == self.0,
    {
        self.0
    }

    /// Whether all of the flags `other` are set.
    pub fn contains(&self, other: BtreeIterFlags) -> (r: bool)
        ensures
            r == (self.0 & other.0 == other.0),
    {
        self.0 & other.0 == other.0
    }
}

/// Flags of an update, and of the triggers that it runs.
#[derive(Clone, Copy, PartialEq, Eq, Structural, Debug)]
pub struct UpdateTriggerFlags(pub u32);

impl UpdateTriggerFlags {
    /// The word of flags.
    pub fn bits(&self) -> (r: u32)
        ensures
            r == self.0,
    {
        self.0
    }
}

/// Flags of a commit. They lie above the bits of the watermark.
#[derive(Clone, Copy, PartialEq, Eq, Structural, Debug)]
pub struct CommitFlags(pub u32);

impl CommitFlags {
    /// The word of flags.
    pub fn bits(&self) -> (r: u32)
        ensures
            r == self.0,
    {
        self.0
    }
}

/// How deep into the reserves an allocation may dip.
#[derive(Clone, Copy, PartialEq, Eq, Structural, Debug)]
pub enum Watermark {
    Stripe,
    Normal,
    Copygc,
    Btree,
    BtreeCopygc,
    Reclaim,
    InteriorUpdates,
}

impl Watermark {
    /// The number of the watermark.
    pub open spec fn number(self) -> u32 {
        match self {
            Watermark::Stripe => 0,
            Watermark::Normal => 1,
            Watermark::Copygc => 2,
            Watermark::Btree => 3,
            Watermark::BtreeCopygc => 4,
            Watermark::Reclaim => 5,
            Watermark::InteriorUpdates => 6,
        }
    }

    /// The number of the watermark.
    pub fn to_raw(self) -> (r: u32)
        ensures
            r == self.number(),
    {
        match self {
            Watermark::Stripe => 0,
            Watermark::Normal => 1,
            Watermark::Copygc => 2,
            Watermark::Btree => 3,
            Watermark::BtreeCopygc => 4,
            Watermark::Reclaim => 5,
            Watermark::InteriorUpdates => 6,
        }
    }
}

/// The options of a commit: a watermark, and flags above it.
#[derive(Clone, Copy, PartialEq, Eq, Structural, Debug)]
pub struct CommitOpts(u32);

/// The options `opts` with the flags `flags` set.
pub open spec fn with_flags(opts: u32, flags: u32) -> u32 {
    opts | flags
}

/// The options `opts` with the watermark `w` in the bits below the flag `lowest`.
pub open spec fn with_watermark(opts: u32, w: u32, lowest: u32) -> u32 {
    (opts & !((lowest - 1) as u32)) | (w & ((lowest - 1) as u32))
}

impl CommitOpts {
    /// The word of options.
    pub closed spec fn word(self) -> u32 {
        self.0
    }

    /// No options.
    pub fn new() -> (r: Self)
        ensures
            r.word() == 0,
    {
        CommitOpts(0)
    }

    /// The options with the given flags set.
    pub fn flags(self, flags: CommitFlags) -> (r: Self)
        ensures
            r.word() == with_flags(self.word(), flags.0),
    {
        CommitOpts(self.0 | flags.bits())
    }

    /// The options with the given watermark. It takes up the bits below `lowest`, the lowest of the
    /// flags.
    pub fn watermark(self, w: Watermark, lowest: CommitFlags) -> (r: Self)
        requires
            lowest.0 > 0,
        ensures
            r.word() == with_watermark(self.word(), w.number(), lowest.0),
    {
        let mask: u32 = lowest.0 - 1;
        CommitOpts((self.0 & !mask) | (w.to_raw() & mask))
    }

    /// The word of options.
    pub fn bits(self) -> (r: u32)
        ensures
            r == self.word(),
    {
        self.0
    }
}

impl Default for CommitOpts {
    fn default() -> (r: Self)
        ensures
            r.word() == 0,
    {
        CommitOpts::new()
    }
}

/// Setting flags and setting the watermark do not disturb each other: the flags are kept when the
/// watermark is set, the watermark when flags are, and the order does not matter.
pub proof fn law_watermark_and_flags_are_independent(opts: u32, flags: u32, w: u32, k: u32)
    requires
        k < 32,
        flags & (((1u32 << k) - 1) as u32) == 0,
    ensures
        ({
            let lowest = 1u32 << k;
            let mask = ((1u32 << k) - 1) as u32;
            &&& with_watermark(opts, w, lowest) & mask == w & mask
            &&& with_watermark(opts, w, lowest) & !mask == opts & !mask
            &&& with_flags(opts, flags) & mask == opts & mask
            &&& with_flags(opts, flags) & flags == flags
            &&& with_watermark(with_flags(opts, flags), w, lowest) == with_flags(
                with_watermark(opts, w, lowest),
                flags,
            )
        }),
{
    let lowest = 1u32 << k;
    assert(1u32 << k >= 1) by (bit_vector)
        requires
            k < 32,
    ;
    let mask = (lowest - 1) as u32;
    assert(((opts & !mask) | (w & mask)) & mask == w & mask) by (bit_vector);
    assert(((opts & !mask) | (w & mask)) & !mask == opts & !mask) by (bit_vector);
    assert((opts | flags) & mask == opts & mask) by (bit_vector)
        requires
            flags & mask == 0,
    ;
    assert((opts | flags) & flags == flags) by (bit_vector);
    assert((((opts | flags) & !mask) | (w & mask)) == (((opts & !mask) | (w & mask)) | flags))
        by (bit_vector)
        requires
            flags & mask == 0,
    ;
}

/// Setting a watermark that fits is read back, and setting it again changes it alone.
pub proof fn law_watermark_is_read_back(opts: u32, w: Watermark, v: Watermark, k: u32)
    requires
        3 <= k < 32,
    ensures
        ({
            let lowest = 1u32 << k;
            let mask = ((1u32 << k) - 1) as u32;
            &&& with_watermark(opts, w.number(), lowest) & mask == w.number()
            &&& with_watermark(with_watermark(opts, v.number(), lowest), w.number(), lowest)
                == with_watermark(opts, w.number(), lowest)
        }),
{
    let lowest = 1u32 << k;
    assert(1u32 << k >= 8) by (bit_vector)
        requires
            3 <= k < 32,
    ;
    let mask = (lowest - 1) as u32;
    let n = w.number();
    let m = v.number();
    assert(mask & 7 == 7) by (bit_vector)
        requires
            mask == sub_one(1u32 << k),
            3 <= k < 32,
    ;
    assert(((opts & !mask) | (n & mask)) & mask == n) by (bit_vector)
        requires
            n < 7,
            mask & 7 == 7,
    ;
    assert((((opts & !mask) | (m & mask)) & !mask) == opts & !mask) by (bit_vector);
}

spec fn sub_one(x: u32) -> u32 {
    (x - 1) as u32
}

/// Whether a loop goes on.
#[derive(Clone, Copy, PartialEq, Eq, Structural, Debug)]
pub enum Flow {
    Continue,
    Break,
}

/// A loop over the keys of a btree.
#[derive(Clone, Copy, PartialEq, Eq, Structural, Debug)]
pub enum WalkKind {
    /// Forwards up to `end`; where `slots` is set, over every slot, holes too.
    Max { slots: bool, end: bpos },
    /// Forwards, with a commit after each key.
    Commit { opts: CommitOpts },
    /// Forwards up to `end`, with a commit after each key.
    MaxCommit { end: bpos, flags: BtreeIterFlags, opts: CommitOpts },
    /// Backwards down to `min`.
    Reverse { min: bpos },
    /// Backwards.
    ReverseFlags { flags: BtreeIterFlags },
}

/// The operation that looks for the next key.
#[derive(Clone, Copy, PartialEq, Eq, Structural, Debug)]
pub enum PeekCall {
    /// There is no key to look for.
    Nothing,
    /// The slot at the position of the iterator.
    Slot,
    /// The next key.
    Next,
    /// The next key up to a position.
    Max(bpos),
    /// The next key up to a position, in the way the flags say.
    MaxType(bpos, BtreeIterFlags),
    /// The previous key down to a position.
    PrevMin(bpos),
    /// The previous key, in the way the flags say.
    PrevType(BtreeIterFlags),
}

/// Which key a slots iterator at `pos` looks for, when it goes up to `end`.
pub open spec fn slot_or_max(slots: bool, pos: bpos, end: bpos) -> PeekCall {
    if slots {
        if bkey::key_lt(pos, end) || bkey::key_eq(pos, end) {
            PeekCall::Slot
        } else {
            PeekCall::Nothing
        }
    } else {
        PeekCall::Max(end)
    }
}

fn peek_slot_or_max(slots: bool, pos: bpos, end: bpos) -> (r: PeekCall)
    ensures
        r == slot_or_max(slots, pos, end),
{
    if slots {
        if bkey_le(pos, end) {
            PeekCall::Slot
        } else {
            PeekCall::Nothing
        }
    } else {
        PeekCall::Max(end)
    }
}

impl WalkKind {
    /// The operation that looks for the next key, with the iterator at `pos`.
    pub open spec fn spec_peek(self, pos: bpos) -> PeekCall {
        match self {
            WalkKind::Max { slots, end } => slot_or_max(slots, pos, end),
            WalkKind::Commit { .. } => PeekCall::Next,
            WalkKind::MaxCommit { end, flags, .. } => PeekCall::MaxType(end, flags),
            WalkKind::Reverse { min } => PeekCall::PrevMin(min),
            WalkKind::ReverseFlags { flags } => PeekCall::PrevType(flags),
        }
    }

    /// The options of the commit that follows each key, where there is one.
    pub open spec fn spec_commit_opts(self) -> Option<CommitOpts> {
        match self {
            WalkKind::Commit { opts } => Some(opts),
            WalkKind::MaxCommit { opts, .. } => Some(opts),
            _ => None,
        }
    }

    /// Whether each key is followed by a commit.
    pub open spec fn spec_commits(self) -> bool {
        self.spec_commit_opts() is Some
    }

    /// Whether the loop goes backwards.
    pub open spec fn spec_backwards(self) -> bool {
        self is Reverse || self is ReverseFlags
    }

    /// The operation that looks for the next key, with the iterator at `pos`.
    pub fn peek(&self, pos: bpos) -> (r: PeekCall)
        ensures
            r == self.spec_peek(pos),
            match *self {
                WalkKind::Max { slots, end } => if !slots {
                    r == PeekCall::Max(end)
                } else if bkey::key_lt(end, pos) {
                    r == PeekCall::Nothing
                } else {
                    r == PeekCall::Slot
                },
                _ => true,
            },
    {
        match *self {
            WalkKind::Max { slots, end } => peek_slot_or_max(slots, pos, end),
            WalkKind::Commit { .. } => PeekCall::Next,
            WalkKind::MaxCommit { end, flags, .. } => PeekCall::MaxType(end, flags),
            WalkKind::Reverse { min } => PeekCall::PrevMin(min),
            WalkKind::ReverseFlags { flags } => PeekCall::PrevType(flags),
        }
    }

    fn commit_opts(&self) -> (r: Option<CommitOpts>)
        ensures
            r == self.spec_commit_opts(),
    {
        match *self {
            WalkKind::Commit { opts } => Some(opts),
            WalkKind::MaxCommit { opts, .. } => Some(opts),
            _ => None,
        }
    }

    fn commits(&self) -> (r: bool)
        ensures
            r == self.spec_commits(),
    {
        self.commit_opts().is_some()
    }

    fn backwards(&self) -> (r: bool)
        ensures
            r == self.spec_backwards(),
    {
        match *self {
            WalkKind::Reverse { .. } => true,
            WalkKind::ReverseFlags { .. } => true,
            _ => false,
        }
    }
}

/// What a loop over keys does next.
#[derive(Clone, Copy, PartialEq, Eq, Debug)]
pub enum Action {
    /// Begin a transaction, and look for the next key.
    Peek,
    /// Check that the transaction was not restarted since it began.
    Verify,
    /// Call the body of the loop with the key that was found.
    Visit,
    /// Commit the transaction, with the reservation to take space from, and the options.
    Commit(Option<disk_reservation>, CommitOpts),
    /// Move the iterator behind the key.
    Advance,
    /// Move the iterator before the key.
    Rewind,
    /// Return.
    Finish(Result<(), BchError>),
}

/// What an operation has returned to a loop over keys.
#[derive(Clone, Copy, PartialEq, Eq, Debug)]
pub enum Event {
    /// Whether a key was found.
    Peeked(Result<bool, TransError>),
    /// The check was made.
    Verified,
    /// What the body of the loop has returned.
    Visited(Result<Flow, TransError>),
    /// Whether the commit has succeeded, and what it has left of the reservation.
    Committed(Result<(), TransError>, Option<disk_reservation>),
    /// The iterator was moved; `false` where it could not be.
    Moved(bool),
}

/// A loop over the keys of a btree.
#[derive(Clone, Copy, PartialEq, Eq, Debug)]
pub struct Walker {
    /// Which loop it is.
    pub kind: WalkKind,
    /// What it does next.
    pub action: Action,
    /// What the body of the loop has said of the latest key.
    pub flow: Flow,
    /// What is reserved for the commits to take space from.
    pub disk_res: Option<disk_reservation>,
}

/// What the loop does when an operation has failed: it begins again where the transaction was
/// restarted, and else returns the error.
pub open spec fn on_error(e: TransError) -> Action {
    match e {
        TransError::Restart(_) => Action::Peek,
        TransError::Error(error) => Action::Finish(Err(error)),
    }
}

/// What the loop does once it is done with a key.
pub open spec fn on_done(kind: WalkKind, flow: Flow) -> Action {
    match flow {
        Flow::Break => Action::Finish(Ok(())),
        Flow::Continue => if kind.spec_backwards() {
            Action::Rewind
        } else {
            Action::Advance
        },
    }
}

/// Whether the event `e` is what the action `a` leads to.
pub open spec fn answers(e: Event, a: Action) -> bool {
    match a {
        Action::Peek => e is Peeked,
        Action::Verify => e is Verified,
        Action::Visit => e is Visited,
        Action::Commit(..) => e is Committed,
        Action::Advance => e == Event::Moved(true),
        Action::Rewind => e is Moved,
        Action::Finish(_) => false,
    }
}

/// The loop after the event `e`.
pub open spec fn walked(w: Walker, e: Event) -> Walker {
    match e {
        Event::Peeked(Err(t)) => Walker { action: on_error(t), ..w },
        Event::Peeked(Ok(found)) => Walker {
            action: if !found {
                Action::Finish(Ok(()))
            } else if w.kind.spec_commits() {
                Action::Visit
            } else {
                Action::Verify
            },
            ..w
        },
        Event::Verified => Walker {
            action: if w.kind.spec_commits() {
                on_done(w.kind, w.flow)
            } else {
                Action::Visit
            },
            ..w
        },
        Event::Visited(Err(t)) => Walker { action: on_error(t), ..w },
        Event::Visited(Ok(flow)) => Walker {
            action: match w.kind.spec_commit_opts() {
                Some(opts) => Action::Commit(w.disk_res, opts),
                None => on_done(w.kind, flow),
            },
            flow,
            ..w
        },
        Event::Committed(r, left) => Walker {
            action: match r {
                Err(t) => on_error(t),
                Ok(_) => Action::Verify,
            },
            disk_res: buckets::spent(w.disk_res, left),
            ..w
        },
        Event::Moved(moved) => Walker {
            action: if moved {
                Action::Peek
            } else {
                Action::Finish(Ok(()))
            },
            ..w
        },
    }
}

fn after_error(e: TransError) -> (r: Action)
    ensures
        r == on_error(e),
{
    match e {
        TransError::Restart(_) => Action::Peek,
        TransError::Error(error) => Action::Finish(Err(error)),
    }
}

/// A loop of the given kind, at its start, with what is reserved for its commits.
pub open spec fn walk_start(kind: WalkKind, disk_res: Option<disk_reservation>) -> Walker {
    Walker { kind, action: Action::Peek, flow: Flow::Continue, disk_res }
}

impl Walker {
    /// A loop of the given kind, at its start, with what is reserved for its commits.
    pub fn new(kind: WalkKind, disk_res: Option<disk_reservation>) -> (r: Self)
        ensures
            r == walk_start(kind, disk_res),
    {
        Walker { kind, action: Action::Peek, flow: Flow::Continue, disk_res }
    }

    /// Tells the loop what its latest action has led to, and asks what comes next.
    pub fn step(&mut self, e: Event) -> (r: Action)
        requires
            answers(e, old(self).action),
        ensures
            *final(self) == walked(*old(self), e),
            r == final(self).action,
    {
        let action = match e {
            Event::Peeked(Err(t)) => after_error(t),
            Event::Peeked(Ok(found)) => if !found {
                Action::Finish(Ok(()))
            } else if self.kind.commits() {
                Action::Visit
            } else {
                Action::Verify
            },
            Event::Verified => if self.kind.commits() {
                self.after_key()
            } else {
                Action::Visit
            },
            Event::Visited(Err(t)) => after_error(t),
            Event::Visited(Ok(flow)) => {
                self.flow = flow;
                match self.kind.commit_opts() {
                    Some(opts) => Action::Commit(self.disk_res, opts),
                    None => self.after_key(),
                }
            },
            Event::Committed(r, left) => {
                if self.disk_res.is_some() && left.is_some() {
                    self.disk_res = left;
                }
                match r {
                    Err(t) => after_error(t),
                    Ok(_) => Action::Verify,
                }
            },
            Event::Moved(moved) => if moved {
                Action::Peek
            } else {
                Action::Finish(Ok(()))
            },
        };
        self.action = action;
        action
    }

    fn after_key(&self) -> (r: Action)
        ensures
            r == on_done(self.kind, self.flow),
    {
        match self.flow {
            Flow::Break => Action::Finish(Ok(())),
            Flow::Continue => if self.kind.backwards() {
                Action::Rewind
            } else {
                Action::Advance
            },
        }
    }
}

/// What is reserved, where there is a reservation.
pub open spec fn held_in(d: Option<&DiskReservation>) -> Option<disk_reservation> {
    match d {
        Some(d) => Some(d.reserved()),
        None => None,
    }
}

fn held(d: Option<&DiskReservation>) -> (r: Option<disk_reservation>)
    ensures
        r == held_in(d),
{
    match d {
        Some(d) => Some(*d.as_ptr()),
        None => None,
    }
}

/// An iterator over the keys of a btree, as far as it is looked at here.
#[derive(Clone, Copy, PartialEq, Eq, Structural, Debug)]
pub struct BtreeIter {
    pub pos: bpos,
    pub flags: BtreeIterFlags,
}

impl BtreeIter {
    /// The position.
    pub fn pos(&self) -> (r: bpos)
        ensures
            r == self.pos,
    {
        self.pos
    }

    /// The node at the position and the level of the iterator, given what its path holds there: where
    /// the node is, if there is one, its level, and its key.
    pub fn node_at_iter_level(node: usize, level: u8, key: bkey_i) -> (r: Option<BtreeNodeRef>)
        ensures
            r == (if node == 0 {
                None
            } else {
                Some(BtreeNodeRef { addr: node, level, key })
            }),
    {
        if node == 0 {
            None
        } else {
            Some(BtreeNodeRef { addr: node, level, key })
        }
    }

    /// Which key to look for: the next one up to `end`.
    pub fn peek_max(&self, end: bpos) -> (r: PeekCall)
        ensures
            r == PeekCall::Max(end),
    {
        PeekCall::Max(end)
    }

    /// Which key to look for: the next one up to `end`, in the way the flags say.
    pub fn peek_max_type(&self, end: bpos, flags: BtreeIterFlags) -> (r: PeekCall)
        ensures
            r == PeekCall::MaxType(end, flags),
    {
        PeekCall::MaxType(end, flags)
    }

    /// Which key to look for: the previous one down to `min`.
    pub fn peek_prev_min(&self, min: bpos) -> (r: PeekCall)
        ensures
            r == PeekCall::PrevMin(min),
    {
        PeekCall::PrevMin(min)
    }

    /// Which key to look for: the previous one, in the way the flags say.
    pub fn peek_prev_type(&self, flags: BtreeIterFlags) -> (r: PeekCall)
        ensures
            r == PeekCall::PrevType(flags),
    {
        PeekCall::PrevType(flags)
    }

    /// Which key to look for: the next one.
    pub fn peek(&self) -> (r: PeekCall)
        ensures
            r == PeekCall::Max(bkey::SPOS_MAX()),
    {
        self.peek_max(bkey::SPOS_MAX())
    }

    /// Which key to look for: the previous one.
    pub fn peek_prev(&self) -> (r: PeekCall)
        ensures
            r == PeekCall::PrevMin(bkey::POS_MIN()),
    {
        self.peek_prev_min(bkey::POS_MIN())
    }

    /// Which key to look for, up to `end`: where the flags hold `slots`, the slot at the position,
    /// unless that lies behind `end`.
    pub fn peek_max_flags(&self, end: bpos, flags: BtreeIterFlags, slots: BtreeIterFlags) -> (r:
        PeekCall)
        ensures
            r == slot_or_max(flags.0 & slots.0 == slots.0, self.pos, end),
            flags.0 & slots.0 == slots.0 ==> r == (if bkey::key_lt(end, self.pos) {
                PeekCall::Nothing
            } else {
                PeekCall::Slot
            }),
            flags.0 & slots.0 != slots.0 ==> r == PeekCall::Max(end),
    {
        peek_slot_or_max(flags.contains(slots), self.pos, end)
    }

    /// A loop over the keys up to `end`. An iterator with the flag `slots` visits every slot,
    /// holes too, and does not skip to the next key.
    pub fn for_each_max(&self, slots: BtreeIterFlags, end: bpos) -> (r: Walker)
        ensures
            r == walk_start(WalkKind::Max { slots: self.flags.0 & slots.0 != 0, end }, None),
    {
        Walker::new(WalkKind::Max { slots: self.flags.0 & slots.0 != 0, end }, None)
    }

    /// A loop over all keys.
    pub fn for_each(&self, slots: BtreeIterFlags) -> (r: Walker)
        ensures
            r == walk_start(
                WalkKind::Max { slots: self.flags.0 & slots.0 != 0, end: bkey::SPOS_MAX() },
                None,
            ),
    {
        self.for_each_max(slots, bkey::SPOS_MAX())
    }

    /// A loop over all keys, with a commit after each. The commits take space from the reservation;
    /// what they leave of it is kept by the loop.
    pub fn for_each_commit(&self, disk_res: Option<&DiskReservation>, flags: CommitOpts) -> (r:
        Walker)
        ensures
            r == walk_start(WalkKind::Commit { opts: flags }, held_in(disk_res)),
    {
        Walker::new(WalkKind::Commit { opts: flags }, held(disk_res))
    }

    /// A loop over the keys up to `end`, with a commit after each. The commits take space from the
    /// reservation; what they leave of it is kept by the loop.
    pub fn for_each_max_commit(
        &self,
        end: bpos,
        iter_flags: BtreeIterFlags,
        disk_res: Option<&DiskReservation>,
        flags: CommitOpts,
    ) -> (r: Walker)
        ensures
            r == walk_start(
                WalkKind::MaxCommit { end, flags: iter_flags, opts: flags },
                held_in(disk_res),
            ),
    {
        Walker::new(
            WalkKind::MaxCommit { end, flags: iter_flags, opts: flags },
            held(disk_res),
        )
    }

    /// A loop over the keys backwards, down to `min`.
    pub fn for_each_reverse(&self, min: bpos) -> (r: Walker)
        ensures
            r == walk_start(WalkKind::Reverse { min }, None),
    {
        Walker::new(WalkKind::Reverse { min }, None)
    }

    /// A loop over all keys backwards.
    pub fn for_each_reverse_flags(&self, flags: BtreeIterFlags) -> (r: Walker)
        ensures
            r == walk_start(WalkKind::ReverseFlags { flags }, None),
    {
        Walker::new(WalkKind::ReverseFlags { flags }, None)
    }
}

/// A loop over the keys up to a position looks for the same keys as a single look with the flags of
/// the iterator, whatever single flag says that slots are wanted.
pub proof fn law_loop_and_single_look_agree(flags: u32, k: u32, pos: bpos, end: bpos)
    requires
        k < 32,
    ensures
        (WalkKind::Max { slots: flags & (1u32 << k) != 0, end }).spec_peek(pos) == slot_or_max(
            flags & (1u32 << k) == (1u32 << k),
            pos,
            end,
        ),
{
    assert((flags & (1u32 << k) != 0) == (flags & (1u32 << k) == (1u32 << k))) by (bit_vector)
        requires
            k < 32,
    ;
}

/// Whether the event is a commit that has succeeded.
pub open spec fn is_committed(e: Event) -> bool {
    e matches Event::Committed(Ok(_), _)
}

/// Whether the event is a commit that has failed with the given error.
pub open spec fn is_failed_commit(e: Event, error: TransError) -> bool {
    e matches Event::Committed(Err(t), _) && t == error
}

/// The loop after the events `es`, where each answers the action before it.
pub open spec fn walk_after(
    kind: WalkKind,
    res: Option<disk_reservation>,
    es: Seq<Event>,
) -> Option<Walker>
    decreases es.len(),
{
    if es.len() == 0 {
        Some(walk_start(kind, res))
    } else {
        match walk_after(kind, res, es.drop_last()) {
            Some(w) => if answers(es.last(), w.action) {
                Some(walked(w, es.last()))
            } else {
                None
            },
            None => None,
        }
    }
}

/// A restart is retried: wherever an operation says that the transaction has to be restarted, the
/// loop begins a new one and looks for the key again, with the iterator where it was.
pub proof fn law_restart_is_retried(
    kind: WalkKind,
    res: Option<disk_reservation>,
    es: Seq<Event>,
    error: BchError,
)
    requires
        walk_after(kind, res, es) is Some,
        es.len() > 0,
        es.last() == Event::Peeked(Err(TransError::Restart(error))) || es.last() == Event::Visited(
            Err(TransError::Restart(error)),
        ) || is_failed_commit(es.last(), TransError::Restart(error)),
    ensures
        (walk_after(kind, res, es)->0).action == Action::Peek,
{
}

/// The loop returns an error if and only if an operation has failed with it, and not been
/// restarted.
pub proof fn law_error_ends_the_loop(
    kind: WalkKind,
    res: Option<disk_reservation>,
    es: Seq<Event>,
    error: BchError,
)
    requires
        walk_after(kind, res, es) is Some,
    ensures
        (walk_after(kind, res, es)->0).action == Action::Finish(Err(error)) <==> es.len() > 0 && (
        es.last() == Event::Peeked(Err(TransError::Error(error))) || es.last() == Event::Visited(
            Err(TransError::Error(error)),
        ) || is_failed_commit(es.last(), TransError::Error(error))),
{
}

spec fn walk_inv(w: Walker) -> bool {
    &&& w.action is Commit ==> w.kind.spec_commits()
    &&& (w.action is Advance || w.action is Rewind) ==> w.flow is Continue
    &&& w.action is Advance ==> !w.kind.spec_backwards()
    &&& w.action is Rewind ==> w.kind.spec_backwards()
}

proof fn lemma_walk_inv(kind: WalkKind, res: Option<disk_reservation>, es: Seq<Event>)
    requires
        walk_after(kind, res, es) is Some,
    ensures
        walk_inv(walk_after(kind, res, es)->0),
        (walk_after(kind, res, es)->0).kind == kind,
    decreases es.len(),
{
    if es.len() > 0 {
        lemma_walk_inv(kind, res, es.drop_last());
    }
}

/// The loop returns without an error if and only if there was no key, the body has broken off, or
/// the iterator could not be moved.
pub proof fn law_loop_ends_for_a_reason(
    kind: WalkKind,
    res: Option<disk_reservation>,
    es: Seq<Event>,
)
    requires
        walk_after(kind, res, es) is Some,
    ensures
        (walk_after(kind, res, es)->0).action == Action::Finish(Ok(())) <==> es.len() > 0 && (
        es.last() == Event::Peeked(Ok(false)) || es.last() == Event::Moved(false) || (
        !kind.spec_commits() && es.last() == Event::Visited(Ok(Flow::Break))) || (kind.spec_commits() && es.last()
            is Verified && (walk_after(kind, res, es)->0).flow is Break)),
{
    lemma_walk_inv(kind, res, es);
    if es.len() > 0 {
        lemma_walk_inv(kind, res, es.drop_last());
    }
}

/// A loop that commits is done with a key, and moves on or breaks off, only once the changes for the
/// key are committed and the transaction was found not to be restarted; a loop that does not commit
/// never does, and makes that check before its body is called.
pub proof fn law_commit_precedes_move(kind: WalkKind, res: Option<disk_reservation>, es: Seq<Event>)
    requires
        walk_after(kind, res, es) is Some,
        es.len() > 0,
    ensures
        kind.spec_commits() && (walk_after(kind, res, es)->0).action is Advance ==> es.len() > 1
            && es.last() is Verified && is_committed(es[es.len() - 2]),
        kind.spec_commits() && es.last() is Verified ==> es.len() > 1 && is_committed(
            es[es.len() - 2],
        ),
        kind.spec_commits() && es.last() is Visited ==> !((walk_after(kind, res, es)->0).action
            is Advance) && (walk_after(kind, res, es)->0).action != Action::Finish(Ok(())),
        !kind.spec_commits() ==> !((walk_after(kind, res, es)->0).action is Commit),
        !kind.spec_commits() && (walk_after(kind, res, es)->0).action is Visit ==> es.last()
            is Verified,
{
    lemma_walk_inv(kind, res, es);
    lemma_walk_inv(kind, res, es.drop_last());
    let before = es.drop_last();
    if before.len() > 0 {
        lemma_walk_inv(kind, res, before.drop_last());
        assert(before.last() == es[es.len() - 2]);
    }
}

/// How often the iterator was moved.
pub open spec fn moves(es: Seq<Event>) -> nat
    decreases es.len(),
{
    if es.len() == 0 {
        0
    } else {
        moves(es.drop_last()) + if es.last() == Event::Moved(true) {
            1nat
        } else {
            0nat
        }
    }
}

/// How often the loop was done with a key and went on.
pub open spec fn keys_done(kind: WalkKind, res: Option<disk_reservation>, es: Seq<Event>) -> nat
    decreases es.len(),
{
    if es.len() == 0 {
        0
    } else {
        let action = (walk_after(kind, res, es)->0).action;
        keys_done(kind, res, es.drop_last()) + if action is Advance || action is Rewind {
            1nat
        } else {
            0nat
        }
    }
}

/// No key is skipped, and none that is done with is looked for again: when the loop looks for a
/// key, the iterator was moved once for each key that it was done with.
pub proof fn law_one_move_per_key(kind: WalkKind, res: Option<disk_reservation>, es: Seq<Event>)
    requires
        walk_after(kind, res, es) is Some,
    ensures
        keys_done(kind, res, es) == moves(es) + if (walk_after(kind, res, es)->0).action is Advance
            || (walk_after(kind, res, es)->0).action is Rewind || (es.len() > 0 && es.last()
            == Event::Moved(false)) {
            1nat
        } else {
            0nat
        },
    decreases es.len(),
{
    if es.len() > 0 {
        law_one_move_per_key(kind, res, es.drop_last());
        lemma_walk_inv(kind, res, es);
        lemma_walk_inv(kind, res, es.drop_last());
        if es.drop_last().len() > 0 && es.drop_last().last() == Event::Moved(false) {
            assert(!answers(es.last(), (walk_after(kind, res, es.drop_last())->0).action));
        }
    }
}

/// What is reserved after the events `es`, of `res` at the start.
pub open spec fn reserved_after(res: Option<disk_reservation>, es: Seq<Event>) -> Option<
    disk_reservation,
>
    decreases es.len(),
{
    if es.len() == 0 {
        res
    } else {
        let before = reserved_after(res, es.drop_last());
        match es.last() {
            Event::Committed(_, left) => buckets::spent(before, left),
            _ => before,
        }
    }
}

/// Each commit is given the options of the loop, and of the reservation what the commits before
/// have left, those that were restarted too.
pub proof fn law_commits_share_the_reservation(
    kind: WalkKind,
    res: Option<disk_reservation>,
    es: Seq<Event>,
)
    requires
        walk_after(kind, res, es) is Some,
    ensures
        (walk_after(kind, res, es)->0).disk_res == reserved_after(res, es),
        (walk_after(kind, res, es)->0).action matches Action::Commit(d, o) ==> d == reserved_after(
            res,
            es,
        ) && kind.spec_commit_opts() == Some(o),
    decreases es.len(),
{
    if es.len() > 0 {
        law_commits_share_the_reservation(kind, res, es.drop_last());
        lemma_walk_inv(kind, res, es.drop_last());
    }
}

/// What a loop over the nodes of a btree does next.
#[derive(Clone, Copy, PartialEq, Eq, Debug)]
pub enum NodeAction {
    /// Begin a transaction, and look for the node at the position of the iterator.
    Peek,
    /// Check that the transaction was not restarted since it began; the node that was found ends
    /// at the given position.
    Verify(bpos),
    /// Call the body of the loop with that node.
    Visit(bpos),
    /// Set the position of the iterator.
    SetPos(bpos),
    /// Return.
    Finish(Result<(), BchError>),
}

/// What the loop over nodes does once its body was called with a node that ends at `end`.
pub open spec fn after_node(end: bpos, flow: Flow) -> NodeAction {
    if flow is Break || end == bkey::SPOS_MAX() {
        NodeAction::Finish(Ok(()))
    } else {
        NodeAction::SetPos(bkey::successor(end))
    }
}

/// An iterator over the nodes of a btree. A loop over nodes, [`BtreeNodeIter::for_each`], begins
/// with [`NodeAction::Peek`], and goes on with it once a position was set.
pub struct BtreeNodeIter;

impl BtreeNodeIter {
    /// A loop over nodes, at its start.
    pub fn for_each() -> (r: NodeAction)
        ensures
            r == NodeAction::Peek,
    {
        NodeAction::Peek
    }

    /// What the loop over nodes does once it has looked for a node. A node is known by its last
    /// position; `None` is no node.
    pub fn peeked(found: Result<Option<bpos>, TransError>) -> (r: NodeAction)
        ensures
            r == (match found {
                Err(TransError::Restart(_)) => NodeAction::Peek,
                Err(TransError::Error(e)) => NodeAction::Finish(Err(e)),
                Ok(None) => NodeAction::Finish(Ok(())),
                Ok(Some(end)) => NodeAction::Verify(end),
            }),
    {
        match found {
            Err(TransError::Restart(_)) => NodeAction::Peek,
            Err(TransError::Error(e)) => NodeAction::Finish(Err(e)),
            Ok(None) => NodeAction::Finish(Ok(())),
            Ok(Some(end)) => NodeAction::Verify(end),
        }
    }

    /// What the loop over nodes does once the check was made: it calls its body.
    pub fn verified(end: bpos) -> (r: NodeAction)
        ensures
            r == NodeAction::Visit(end),
    {
        NodeAction::Visit(end)
    }

    /// What the loop over nodes does once its body was called with a node that ends at `end`: it goes
    /// on right behind the node, so that a node is found there whatever has happened to its neighbours
    /// meanwhile.
    pub fn visited(end: bpos, flow: Flow) -> (r: NodeAction)
        ensures
            r == after_node(end, flow),
    {
        match flow {
            Flow::Break => NodeAction::Finish(Ok(())),
            Flow::Continue => if end == bkey::SPOS_MAX() {
                NodeAction::Finish(Ok(()))
            } else {
                NodeAction::SetPos(bpos_successor(end))
            },
        }
    }
}

/// The loop over nodes goes forwards and leaves nothing out: the position it goes on at is the
/// first behind the node.
pub proof fn law_node_loop_goes_on_behind_the_node(end: bpos, q: bpos)
    requires
        end != bkey::SPOS_MAX(),
        bkey::pos_lt(end, q),
    ensures
        after_node(end, Flow::Continue) matches NodeAction::SetPos(p) && bkey::pos_lt(end, p) && (p
            == q || bkey::pos_lt(p, q)),
{
    bkey::law_successor_is_next(end, q);
}

/// What a node of a btree holds, as far as it is looked at here.
#[allow(non_camel_case_types)]
#[derive(Clone, Copy, PartialEq, Eq, Structural, Debug)]
pub struct btree {
    pub flags: u64,
}

/// What a loop over the keys in a node does next.
#[derive(Clone, Copy, PartialEq, Eq, Structural, Debug)]
pub enum KeyAction {
    /// Call the body of the loop with the key.
    Visit,
    /// Go to the next key.
    Advance,
    /// Return.
    Finish(Flow),
}

impl btree {
    /// Whether the node is only a placeholder. `fake_bit` is the number of the flag that says so.
    pub fn is_fake(&self, fake_bit: u32) -> (r: bool)
        requires
            fake_bit < 64,
        ensures
            r == ((self.flags >> fake_bit) & 1 != 0),
    {
        (self.flags >> fake_bit) & 1 != 0
    }

    /// What a loop over the keys in a node does once it has looked for a key.
    pub fn key_peeked(found: bool) -> (r: KeyAction)
        ensures
            r == (if found {
                KeyAction::Visit
            } else {
                KeyAction::Finish(Flow::Continue)
            }),
    {
        if found {
            KeyAction::Visit
        } else {
            KeyAction::Finish(Flow::Continue)
        }
    }

    /// What a loop over the keys in a node does once its body was called.
    pub fn key_visited(flow: Flow) -> (r: KeyAction)
        ensures
            r == (match flow {
                Flow::Break => KeyAction::Finish(Flow::Break),
                Flow::Continue => KeyAction::Advance,
            }),
    {
        match flow {
            Flow::Break => KeyAction::Finish(Flow::Break),
            Flow::Continue => KeyAction::Advance,
        }
    }

    /// Walks the keys of a node in order: given what the body says of each, how many keys it is
    /// called with, and whether it has broken off.
    pub fn for_each_key(flows: &[Flow]) -> (r: (usize, Flow))
        ensures
            r.0 <= flows@.len(),
            forall|i: int| 0 <= i < r.0 - 1 ==> #[trigger] flows@[i] is Continue,
            match r.1 {
                Flow::Break => r.0 > 0 && flows@[r.0 - 1] is Break,
                Flow::Continue => r.0 == flows@.len() && forall|i: int|
                    0 <= i < r.0 ==> #[trigger] flows@[i] is Continue,
            },
    {
        let mut i: usize = 0;
        loop
            invariant
                i <= flows.len(),
                forall|j: int| 0 <= j < i ==> #[trigger] flows@[j] is Continue,
            decreases flows.len() - i,
        {
            if let KeyAction::Finish(flow) = btree::key_peeked(i < flows.len()) {
                return (i, flow);
            }
            if let KeyAction::Finish(flow) = btree::key_visited(flows[i]) {
                return (i + 1, flow);
            }
            i = i + 1;
        }
    }
}

/// A position as one number, the inode above the offset. Snapshots do not count.
pub open spec fn place(p: bpos) -> int {
    p.inode * 0x1_0000_0000_0000_0000 + p.offset
}

/// A loop over slots looks at the slot of its position as long as that is not behind the end, in the
/// order of inodes and then of offsets, and at nothing once it is; without slots it looks for the
/// next key up to the end. A single look does the same.
pub proof fn law_slots_are_looked_at_up_to_the_end(pos: bpos, end: bpos)
    ensures
        (WalkKind::Max { slots: true, end }).spec_peek(pos) == (if place(pos) <= place(end) {
            PeekCall::Slot
        } else {
            PeekCall::Nothing
        }),
        slot_or_max(true, pos, end) == (if place(pos) <= place(end) {
            PeekCall::Slot
        } else {
            PeekCall::Nothing
        }),
        (WalkKind::Max { slots: false, end }).spec_peek(pos) == PeekCall::Max(end),
        slot_or_max(false, pos, end) == PeekCall::Max(end),
{
}

/// A slot that is looked at on the way to one end is looked at on the way to any end behind that; the
/// slot of the end is the last.
pub proof fn law_slots_are_looked_at_in_order(pos: bpos, end: bpos, farther: bpos)
    requires
        !bkey::key_lt(farther, end),
    ensures
        slot_or_max(true, pos, end) is Slot ==> slot_or_max(true, pos, farther) is Slot,
        slot_or_max(true, end, end) is Slot,
        bkey::key_lt(pos, end) ==> slot_or_max(true, pos, end) is Slot && slot_or_max(
            true,
            end,
            pos,
        ) is Nothing,
{
}

/// Which key each loop looks for, whatever the position: only a loop over slots depends on it.
pub proof fn law_each_loop_looks_its_way(
    pos: bpos,
    end: bpos,
    flags: BtreeIterFlags,
    opts: CommitOpts,
)
    ensures
        (WalkKind::Commit { opts }).spec_peek(pos) == PeekCall::Next,
        (WalkKind::MaxCommit { end, flags, opts }).spec_peek(pos) == PeekCall::MaxType(end, flags),
        (WalkKind::Reverse { min: end }).spec_peek(pos) == PeekCall::PrevMin(end),
        (WalkKind::ReverseFlags { flags }).spec_peek(pos) == PeekCall::PrevType(flags),
        (WalkKind::Commit { opts }).spec_commit_opts() == Some(opts),
        (WalkKind::MaxCommit { end, flags, opts }).spec_commit_opts() == Some(opts),
        (WalkKind::Reverse { min: end }).spec_commit_opts() is None,
        (WalkKind::ReverseFlags { flags }).spec_commit_opts() is None,
        forall|slots: bool|
            (#[trigger] (WalkKind::Max { slots, end }).spec_commit_opts()) is None,
{
}

/// What the body of the loop has said last, `Continue` where it was not called.
pub open spec fn last_flow(es: Seq<Event>) -> Flow
    decreases es.len(),
{
    if es.len() == 0 {
        Flow::Continue
    } else {
        match es.last() {
            Event::Visited(Ok(flow)) => flow,
            _ => last_flow(es.drop_last()),
        }
    }
}

/// What a loop does behind each event. A restart, from wherever it comes, leads to a new look for the
/// key; a failure ends the loop. A key that was found is visited: at once in a loop that commits,
/// which then commits, checks for a restart, and moves on; after that check in one that does not. The
/// loop moves on forwards or backwards as its kind says, unless the body has broken off.
pub proof fn law_actions_follow_events(
    kind: WalkKind,
    res: Option<disk_reservation>,
    es: Seq<Event>,
)
    requires
        walk_after(kind, res, es) is Some,
        es.len() > 0,
    ensures
        ({
            let w = walk_after(kind, res, es)->0;
            let commits = kind is Commit || kind is MaxCommit;
            let on = if kind is Reverse || kind is ReverseFlags {
                Action::Rewind
            } else {
                Action::Advance
            };
            let moving = if last_flow(es) is Break {
                Action::Finish(Ok(()))
            } else {
                on
            };
            &&& w.flow == last_flow(es)
            &&& w.kind == kind
            &&& w.action == (match es.last() {
                Event::Peeked(Err(TransError::Restart(_))) => Action::Peek,
                Event::Visited(Err(TransError::Restart(_))) => Action::Peek,
                Event::Committed(Err(TransError::Restart(_)), _) => Action::Peek,
                Event::Peeked(Err(TransError::Error(e))) => Action::Finish(Err(e)),
                Event::Visited(Err(TransError::Error(e))) => Action::Finish(Err(e)),
                Event::Committed(Err(TransError::Error(e)), _) => Action::Finish(Err(e)),
                Event::Peeked(Ok(found)) => if !found {
                    Action::Finish(Ok(()))
                } else if commits {
                    Action::Visit
                } else {
                    Action::Verify
                },
                Event::Verified => if commits {
                    moving
                } else {
                    Action::Visit
                },
                Event::Visited(Ok(_)) => match kind {
                    WalkKind::Commit { opts } => Action::Commit(w.disk_res, opts),
                    WalkKind::MaxCommit { opts, .. } => Action::Commit(w.disk_res, opts),
                    _ => moving,
                },
                Event::Committed(Ok(_), _) => Action::Verify,
                Event::Moved(true) => Action::Peek,
                Event::Moved(false) => Action::Finish(Ok(())),
            })
        }),
    decreases es.len(),
{
    lemma_walk_inv(kind, res, es);
    lemma_walk_inv(kind, res, es.drop_last());
    if es.drop_last().len() > 0 {
        law_actions_follow_events(kind, res, es.drop_last());
    }
}

/// A loop begins by looking for a key, with what is reserved for its commits; each action is answered
/// by what it leads to, and nothing follows the end.
pub proof fn law_events_answer_actions(
    kind: WalkKind,
    res: Option<disk_reservation>,
    e: Event,
    opts: CommitOpts,
    result: Result<(), BchError>,
)
    ensures
        walk_after(kind, res, Seq::empty()) == Some(
            Walker { kind, action: Action::Peek, flow: Flow::Continue, disk_res: res },
        ),
        answers(e, Action::Peek) == (e is Peeked),
        answers(e, Action::Verify) == (e is Verified),
        answers(e, Action::Visit) == (e is Visited),
        answers(e, Action::Commit(res, opts)) == (e is Committed),
        answers(e, Action::Advance) == (e == Event::Moved(true)),
        answers(e, Action::Rewind) == (e is Moved),
        !answers(e, Action::Finish(result)),
{
}

/// Setting flags sets those bits and no others; setting a watermark changes the bits below the lowest
/// flag and no others.
pub proof fn law_options_change_their_bits_alone(opts: u32, flags: u32, w: u32, lowest: u32)
    requires
        lowest > 0,
    ensures
        ({
            let mask = (lowest - 1) as u32;
            &&& with_flags(opts, flags) & flags == flags
            &&& with_flags(opts, flags) & !flags == opts & !flags
            &&& with_watermark(opts, w, lowest) & mask == w & mask
            &&& with_watermark(opts, w, lowest) & !mask == opts & !mask
        }),
{
    let mask = (lowest - 1) as u32;
    assert((opts | flags) & flags == flags) by (bit_vector);
    assert((opts | flags) & !flags == opts & !flags) by (bit_vector);
    assert(((opts & !mask) | (w & mask)) & mask == w & mask) by (bit_vector);
    assert(((opts & !mask) | (w & mask)) & !mask == opts & !mask) by (bit_vector);
}

/// The watermarks are numbered in the order in which they dip deeper into the reserves.
pub proof fn law_watermarks_are_numbered(w: Watermark)
    ensures
        w.number() == (match w {
            Watermark::Stripe => 0u32,
            Watermark::Normal => 1,
            Watermark::Copygc => 2,
            Watermark::Btree => 3,
            Watermark::BtreeCopygc => 4,
            Watermark::Reclaim => 5,
            Watermark::InteriorUpdates => 6,
        }),
{
}

/// An attempt that has to be restarted is made again, one that has failed fails the loop, and the value
/// of one that has succeeded is returned.
pub proof fn law_attempts_are_made_until_they_succeed<T>(v: T, e: BchError)
    ensures
        turn(Ok::<T, TransError>(v)) == Retry::Done(v),
        turn(Err::<T, TransError>(TransError::Restart(e))) == Retry::<T>::Again,
        turn(Err::<T, TransError>(TransError::Error(e))) == Retry::<T>::Failed(e),
{
}

/// A loop over nodes ends at the last position or where the body breaks off, and else goes on at the
/// first position behind the node.
pub proof fn law_node_loop_ends_at_the_last_position(end: bpos)
    ensures
        after_node(end, Flow::Break) == NodeAction::Finish(Ok(())),
        after_node(
            bpos { inode: u64::MAX, offset: u64::MAX, snapshot: u32::MAX },
            Flow::Continue,
        ) == NodeAction::Finish(Ok(())),
        end != (bpos { inode: u64::MAX, offset: u64::MAX, snapshot: u32::MAX }) ==> (after_node(
            end,
            Flow::Continue,
        ) matches NodeAction::SetPos(p) && place(p) * 0x1_0000_0000 + p.snapshot == place(end)
            * 0x1_0000_0000 + end.snapshot + 1),
{
}

/// An attempt goes on, as it is, if and only if the return value is no error; else the error is the
/// negated return value, and whoever knows the classes of errors says whether it is a restart.
pub proof fn law_attempts_go_on_without_an_error<F: Fn(BchError) -> bool>(
    t: TransAttempt,
    u: TransAttempt,
    e: TransError,
    ret: i32,
    is_restart: F,
)
    ensures
        t.goes_on(ret, is_restart, Ok(u)) == (!(-4095 <= ret <= -1) && u == t),
        t.goes_on(ret, is_restart, Err(e)) == (-4095 <= ret <= -1 && e.error().code() == 0 - ret
            && call_ensures(is_restart, (e.error(),), e is Restart)),
        e matches TransError::Restart(b) ==> e.error() == b,
        e matches TransError::Error(b) ==> e.error() == b,
{
}

/// Memory for a key is at the address that was returned, and as large as was asked for, unless the
/// address is one of the last 4095: then it is the error with the code that lies as far from the end.
pub proof fn law_memory_is_where_the_address_says(t: TransBkey, e: BchError, p: usize, u64s: int)
    ensures
        is_memory(t, p, u64s) == (usize::MAX + 1 - p > 4095 && t.addr == p && t.buf_u64s == u64s),
        is_no_memory(e, p) == (usize::MAX + 1 - p <= 4095 && e.code() == usize::MAX + 1 - p),
{
}

/// What is reserved for a loop is what the reservation holds at its start.
pub proof fn law_loops_begin_with_the_reservation(d: &DiskReservation)
    ensures
        held_in(Some(d)) == Some(d.reserved()),
        held_in(None::<&DiskReservation>) is None,
{
}

} // verus!
