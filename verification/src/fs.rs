//! A filesystem, as far as it is looked at here: what the logic reads of it, as plain values.
use crate::btree::bkey::{bkey_i, bpos, AsBkeyI};
use crate::btree::iter::{btree, BtreeIterFlags, CommitOpts, Flow};
use crate::btree::types::btree_id;
use crate::buckets;
use crate::buckets::{disk_reservation, DiskReservation};
use crate::errcode;
use crate::errcode::{bch_err_throw, bch_errcode, ret_to_result_void, BchError};
use crate::sb::io::{bch_sb, bch_sb_handle};
use vstd::prelude::*;

verus! {

/// What is known of a member device while the filesystem runs.
#[allow(non_camel_case_types)]
#[derive(Clone, Copy, PartialEq, Eq, Structural, Debug)]
pub struct bch_member_cpu {
    /// The size of a bucket, in sectors.
    pub bucket_size: u32,
}

/// A device.
#[allow(non_camel_case_types)]
#[derive(Clone, Copy, PartialEq, Eq, Structural, Debug)]
pub struct bch_dev {
    pub dev_idx: u32,
    pub mi: bch_member_cpu,
}

/// A filesystem.
pub struct Fs {
    /// The superblock.
    pub disk_sb: bch_sb_handle,
    /// Whether the superblock is locked.
    pub sb_locked: bool,
    /// The number of devices that the superblock lists.
    pub nr_devices: u8,
    /// The devices by number. One that is not there is `None`.
    pub devs: Vec<Option<bch_dev>>,
    /// The roots of the known btrees, by number.
    pub roots_known: Vec<Option<btree>>,
    /// The roots of further btrees, whose numbers follow.
    pub roots_extra: Vec<Option<btree>>,
    pub loglevel: u32,
}

/// A device that is held.
pub struct DevRef<'a>(pub &'a mut bch_dev);

impl<'a> DevRef<'a> {
    /// Holds a device.
    pub fn new(dev: &'a mut bch_dev) -> (r: Self)
        ensures
            *r.0 == *old(dev),
            *final(dev) == *final(r.0),
    {
        DevRef(dev)
    }

    /// The device, to be changed in place.
    pub fn as_mut_ptr(&mut self) -> (r: &mut bch_dev)
        ensures
            *r == *old(self).0,
            *final(self).0 == *final(r),
            *final(final(self).0) == *final(old(self).0),
    {
        self.0
    }
}

/// The superblock of a filesystem, locked.
pub struct SbLockGuard<'a> {
    pub fs: &'a mut Fs,
}

impl<'a> SbLockGuard<'a> {
    /// Unlocks the superblock.
    pub fn unlock(self)
        ensures
            *final(self.fs) == (Fs { sb_locked: false, ..*old(self.fs) }),
    {
        let fs = self.fs;
        fs.sb_locked = false;
    }
}

/// A filesystem that is lent out.
#[derive(Clone, Copy)]
pub struct BorrowedFs<'a>(&'a Fs);

impl<'a> BorrowedFs<'a> {
    /// The filesystem.
    pub closed spec fn lent(self) -> Fs {
        *self.0
    }

    /// Lends a filesystem out.
    pub fn new(fs: &'a Fs) -> (r: Self)
        ensures
            r.lent() == *fs,
    {
        BorrowedFs(fs)
    }

    /// The filesystem.
    pub fn get(&self) -> (r: &'a Fs)
        ensures
            *r == self.lent(),
    {
        self.0
    }
}

/// What a loop over the devices that are online does next.
#[derive(Clone, Copy, PartialEq, Eq, Structural, Debug)]
pub enum DevAction {
    /// Let go of the device that is held, if any, and get hold of the next one.
    Next,
    /// Call the body of the loop with the device.
    Visit,
    /// Let go of the device, and return.
    PutAndFinish,
    /// Return.
    Finish,
}

/// What the loop over devices does once it has asked for the next device.
pub open spec fn on_device(found: bool) -> DevAction {
    if found {
        DevAction::Visit
    } else {
        DevAction::Finish
    }
}

/// What the loop over devices does once its body was called.
pub open spec fn on_visited(flow: Flow) -> DevAction {
    match flow {
        Flow::Break => DevAction::PutAndFinish,
        Flow::Continue => DevAction::Next,
    }
}

/// What has happened to a loop over devices.
pub enum DevEvent {
    /// Whether there was a next device.
    Found(bool),
    /// What the body of the loop has returned.
    Visited(Flow),
    /// The device was let go of.
    Put,
}

/// A loop over devices: what it does next, and how many devices it holds.
pub struct DevWalk {
    pub action: DevAction,
    pub held: nat,
}

/// A loop over devices after the events `es`, where each answers the action before it. Asking for
/// the next device lets go of the one that was held.
pub open spec fn dev_walk_after(es: Seq<DevEvent>) -> Option<DevWalk>
    decreases es.len(),
{
    if es.len() == 0 {
        Some(DevWalk { action: DevAction::Next, held: 0 })
    } else {
        match dev_walk_after(es.drop_last()) {
            None => None,
            Some(w) => match (w.action, es.last()) {
                (DevAction::Next, DevEvent::Found(found)) => Some(
                    DevWalk {
                        action: on_device(found),
                        held: if found {
                            1
                        } else {
                            0
                        },
                    },
                ),
                (DevAction::Visit, DevEvent::Visited(flow)) => Some(
                    DevWalk { action: on_visited(flow), ..w },
                ),
                (DevAction::PutAndFinish, DevEvent::Put) => Some(
                    DevWalk { action: DevAction::Finish, held: (w.held - 1) as nat },
                ),
                _ => None,
            },
        }
    }
}

/// The loop holds the device that it visits, and it alone; and it holds none once it has returned,
/// whether it came to its end or was broken off.
pub proof fn law_no_device_is_kept(es: Seq<DevEvent>)
    requires
        dev_walk_after(es) is Some,
    ensures
        (dev_walk_after(es)->0).action is Visit || (dev_walk_after(es)->0).action is PutAndFinish
            ==> (dev_walk_after(es)->0).held == 1,
        (dev_walk_after(es)->0).action is Finish ==> (dev_walk_after(es)->0).held == 0,
    decreases es.len(),
{
    if es.len() > 0 {
        law_no_device_is_kept(es.drop_last());
    }
}

/// The root of the btree number `id`.
pub open spec fn root_of(fs: Fs, id: u32) -> Option<btree> {
    let known = fs.roots_known@.len();
    if id < known {
        fs.roots_known@[id as int]
    } else if id - known < fs.roots_extra@.len() {
        fs.roots_extra@[id - known]
    } else {
        None
    }
}

impl Fs {
    /// The superblock with what is needed to write it.
    pub fn sb_handle(&self) -> (r: &bch_sb_handle)
        ensures
            *r == self.disk_sb,
    {
        &self.disk_sb
    }

    /// The superblock.
    pub fn sb(&self) -> (r: &bch_sb)
        ensures
            *r == self.disk_sb.sb,
    {
        self.sb_handle().sb()
    }

    /// Locks the superblock.
    pub fn sb_lock(&mut self) -> (r: SbLockGuard<'_>)
        requires
            !old(self).sb_locked,
        ensures
            *r.fs == (Fs { sb_locked: true, ..*old(self) }),
            *final(self) == *final(r.fs),
    {
        self.sb_locked = true;
        SbLockGuard { fs: self }
    }

    /// Fails.
    pub fn throw<T>(&self, error: bch_errcode) -> (r: Result<T, BchError>)
        ensures
            r matches Err(e) && e.code() == error.0 as i32,
    {
        Err(bch_err_throw(error))
    }

    /// The value, or else the error.
    pub fn require<T>(&self, value: Option<T>, error: bch_errcode) -> (r: Result<T, BchError>)
        ensures
            match (value, r) {
                (Some(v), Ok(w)) => v == w,
                (None, Err(e)) => e.code() == error.0 as i32,
                _ => false,
            },
    {
        match value {
            Some(v) => Ok(v),
            None => self.throw(error),
        }
    }

    /// Success if the condition holds, or else the error.
    pub fn ensure(&self, condition: bool, error: bch_errcode) -> (r: Result<(), BchError>)
        ensures
            match r {
                Ok(_) => condition,
                Err(e) => !condition && e.code() == error.0 as i32,
            },
    {
        if condition {
            Ok(())
        } else {
            self.throw(error)
        }
    }

    /// What a loop over the devices that are online does first.
    pub fn for_each_online_member(&self) -> (r: DevAction)
        ensures
            r == DevAction::Next,
    {
        DevAction::Next
    }

    /// What the loop does once it has asked for the next device.
    pub fn online_member_found(found: bool) -> (r: DevAction)
        ensures
            r == on_device(found),
    {
        if found {
            DevAction::Visit
        } else {
            DevAction::Finish
        }
    }

    /// What the loop does once its body was called.
    pub fn online_member_visited(flow: Flow) -> (r: DevAction)
        ensures
            r == on_visited(flow),
    {
        match flow {
            Flow::Break => DevAction::PutAndFinish,
            Flow::Continue => DevAction::Next,
        }
    }

    /// The root of the btree number `id`, where it has one.
    pub fn btree_id_root(&self, id: u32) -> (r: Option<&btree>)
        ensures
            match r {
                Some(b) => root_of(*self, id) == Some(*b),
                None => root_of(*self, id) is None,
            },
    {
        let nr_known: u64 = self.roots_known.len() as u64;
        let root: &Option<btree> = if (id as u64) < nr_known {
            &self.roots_known[id as usize]
        } else {
            let idx: u64 = id as u64 - nr_known;
            if idx >= self.roots_extra.len() as u64 {
                return None;
            }
            &self.roots_extra[idx as usize]
        };
        match root {
            Some(b) => Some(b),
            None => None,
        }
    }

    /// How many numbers of btrees there are, known ones and others.
    pub fn btree_id_nr_alive(&self) -> (r: u32)
        requires
            self.roots_known@.len() + self.roots_extra@.len() <= u32::MAX,
        ensures
            r == self.roots_known@.len() + self.roots_extra@.len(),
    {
        self.roots_known.len() as u32 + self.roots_extra.len() as u32
    }

    /// How many devices the superblock lists.
    pub fn nr_devices(&self) -> (r: u32)
        ensures
            r == self.nr_devices,
    {
        self.nr_devices as u32
    }

    /// Whether the device number `dev` is there.
    pub fn dev_exists(&self, dev: u32) -> (r: bool)
        requires
            self.nr_devices <= self.devs@.len(),
        ensures
            r == (dev < self.nr_devices && self.devs@[dev as int] is Some),
    {
        dev < self.nr_devices as u32 && self.devs[dev as usize].is_some()
    }

    /// The device number `dev`, where it is there.
    pub fn dev_raw(&self, dev: u32) -> (r: Option<bch_dev>)
        requires
            dev < self.devs@.len(),
        ensures
            r == self.devs@[dev as int],
    {
        self.devs[dev as usize]
    }

    /// The superblock with what is needed to write it, to be changed in place.
    pub fn disk_sb_mut(&mut self) -> (r: &mut bch_sb_handle)
        ensures
            *r == old(self).disk_sb,
            *final(self) == (Fs { disk_sb: *final(r), ..*old(self) }),
    {
        &mut self.disk_sb
    }

    /// Inserts a key. `insert` is given the btree, the key, the reservation to take space from, the
    /// options of the commit, and the flags of the iterator. It returns the key as it has left it,
    /// and what it has left of the reservation.
    pub fn btree_insert<
        K: AsBkeyI,
        I: FnOnce(btree_id, &bkey_i, Option<disk_reservation>, u32, u32) -> (
            i32,
            bkey_i,
            Option<disk_reservation>,
        ),
    >(
        &self,
        id: btree_id,
        key: &mut K,
        disk_res: Option<&mut DiskReservation>,
        commit_flags: CommitOpts,
        iter_flags: BtreeIterFlags,
        insert: I,
    ) -> (r: Result<(), BchError>)
        requires
            forall|b: btree_id, k: &bkey_i, d: Option<disk_reservation>, o: u32, f: u32|
                call_requires(insert, (b, k, d, o, f)),
        ensures
            exists|o: (i32, bkey_i, Option<disk_reservation>)| #[trigger]
                call_ensures(
                    insert,
                    (
                        id,
                        &old(key).inline_key(),
                        buckets::reserved_in(disk_res),
                        commit_flags.word(),
                        iter_flags.0,
                    ),
                    o,
                ) && final(key).inline_key() == o.1 && match disk_res {
                    Some(d) => Some(final(d).reserved()) == buckets::spent(
                        Some(d.reserved()),
                        o.2,
                    ),
                    None => true,
                } && match r {
                    Ok(_) => !errcode::is_error(o.0 as int),
                    Err(e) => errcode::is_error(o.0 as int) && e.code() == -o.0,
                },
    {
        let lent: Option<disk_reservation> = match &disk_res {
            Some(d) => Some(*d.as_ptr()),
            None => None,
        };
        let (ret, k, left) = insert(
            id,
            key.as_bkey_i(),
            lent,
            commit_flags.bits(),
            iter_flags.bits(),
        );
        *key.as_bkey_i_mut() = k;
        if let Some(d) = disk_res {
            d.give_back(left);
        }
        ret_to_result_void(ret)
    }

    /// Deletes the keys of a btree from `start` to `end`. `delete` is given the range and the flags.
    pub fn btree_delete_range<D: FnOnce(btree_id, bpos, bpos, u32) -> i32>(
        &self,
        id: btree_id,
        start: bpos,
        end: bpos,
        flags: BtreeIterFlags,
        delete: D,
    ) -> (r: Result<(), BchError>)
        requires
            forall|b: btree_id, s: bpos, e: bpos, f: u32| call_requires(delete, (b, s, e, f)),
        ensures
            exists|ret: i32| #[trigger]
                call_ensures(delete, (id, start, end, flags.0), ret) && match r {
                    Ok(_) => !errcode::is_error(ret as int),
                    Err(e) => errcode::is_error(ret as int) && e.code() == -ret,
                },
    {
        let ret: i32 = delete(id, start, end, flags.bits());
        ret_to_result_void(ret)
    }

    /// Sets how much is logged.
    pub fn set_loglevel(&mut self, level: u32)
        ensures
            *final(self) == (Fs { loglevel: level, ..*old(self) }),
    {
        self.loglevel = level;
    }
}

/// The btrees that have a root are numbered below the count of numbers.
pub proof fn law_roots_are_numbered(fs: Fs, id: u32)
    requires
        root_of(fs, id) is Some,
    ensures
        id < fs.roots_known@.len() + fs.roots_extra@.len(),
{
}

/// The sector where bucket `b` of a device starts.
pub fn bucket_to_sector(ca: &bch_dev, b: u64) -> (r: u64)
    requires
        b * ca.mi.bucket_size <= u64::MAX,
    ensures
        r == b * ca.mi.bucket_size,
{
    b * ca.mi.bucket_size as u64
}

/// The size of a bucket, in bytes.
pub fn bucket_bytes(ca: &bch_dev) -> (r: u64)
    ensures
        r == ca.mi.bucket_size * 512,
{
    ca.mi.bucket_size as u64 * 512
}

/// Buckets follow each other without gaps: each starts where the one before it ends.
pub proof fn law_buckets_are_adjacent(ca: bch_dev, b: u64)
    ensures
        (b + 1) * ca.mi.bucket_size == b * ca.mi.bucket_size + ca.mi.bucket_size,
{
    assert((b + 1) * ca.mi.bucket_size == b * ca.mi.bucket_size + ca.mi.bucket_size)
        by (nonlinear_arith);
}

/// Where writes of one kind are gathered.
#[allow(non_camel_case_types)]
#[derive(Clone, Copy, PartialEq, Eq, Structural, Debug)]
pub struct write_point_specifier {
    pub v: usize,
}

/// A write point that is found by hash: its lowest bit says so.
pub fn writepoint_hashed(v: usize) -> (r: write_point_specifier)
    ensures
        r.v == v | 1,
        r.v % 2 == 1,
        r.v / 2 == v / 2,
{
    assert((v | 1) % 2 == 1 && (v | 1) / 2 == v / 2) by (bit_vector);
    write_point_specifier { v: v | 1 }
}

/// The target that is the device number `dev`: targets of devices start at one, and are numbered in
/// 16 bits.
pub fn dev_to_target(dev: u32) -> (r: u16)
    requires
        dev % 0x1_0000 < 0xffff,
    ensures
        r == 1 + dev % 0x1_0000,
{
    1 + (dev % 0x1_0000) as u16
}

/// A loop over devices visits a device where there is one and ends where there is none; behind the body
/// it goes on to the next device, or lets go of this one and ends where the body has broken off.
pub proof fn law_devices_are_visited_in_turn(es: Seq<DevEvent>)
    requires
        dev_walk_after(es) is Some,
    ensures
        es.len() == 0 ==> (dev_walk_after(es)->0).action is Next,
        es.len() > 0 ==> (dev_walk_after(es)->0).action == (match es.last() {
            DevEvent::Found(true) => DevAction::Visit,
            DevEvent::Found(false) => DevAction::Finish,
            DevEvent::Visited(Flow::Continue) => DevAction::Next,
            DevEvent::Visited(Flow::Break) => DevAction::PutAndFinish,
            DevEvent::Put => DevAction::Finish,
        }),
{
}

/// The roots of the known btrees come first, and behind them those of the others, in order; a number
/// behind all of them has no root.
pub proof fn law_roots_of_other_btrees_follow(fs: Fs, i: u32)
    ensures
        i < fs.roots_known@.len() ==> root_of(fs, i) == fs.roots_known@[i as int],
        i >= fs.roots_known@.len() && i < fs.roots_known@.len() + fs.roots_extra@.len() ==> root_of(
            fs,
            i,
        ) == fs.roots_extra@[i - fs.roots_known@.len()],
        i >= fs.roots_known@.len() + fs.roots_extra@.len() ==> root_of(fs, i) is None,
{
}

} // verus!
