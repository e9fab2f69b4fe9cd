//! Keys and positions in a btree.
use crate::errcode::{BchError, Errcodes};
use crate::text;
use crate::text::{find_char, same_chars, to_chars};
use crate::util::decimal;
use crate::util::decimal::parse_decimal;
use core::cmp::Ordering;
use vstd::prelude::*;
use vstd::slice::slice_subrange;

verus! {

/// A position in a btree. Positions are ordered by inode, then by offset, then by snapshot.
#[allow(non_camel_case_types)]
#[derive(Clone, Copy, PartialEq, Eq, Ord, Structural, Debug)]
pub struct bpos {
    pub inode: u64,
    pub offset: u64,
    pub snapshot: u32,
}

/// Whether the position `l` precedes the position `r`.
pub open spec fn pos_lt(l: bpos, r: bpos) -> bool {
    ||| l.inode < r.inode
    ||| l.inode == r.inode && l.offset < r.offset
    ||| l.inode == r.inode && l.offset == r.offset && l.snapshot < r.snapshot
}

/// Whether the position `l` precedes the position `r`, snapshots aside.
pub open spec fn key_lt(l: bpos, r: bpos) -> bool {
    ||| l.inode < r.inode
    ||| l.inode == r.inode && l.offset < r.offset
}

/// Whether two positions are equal, snapshots aside.
pub open spec fn key_eq(l: bpos, r: bpos) -> bool {
    l.inode == r.inode && l.offset == r.offset
}

impl PartialOrd for bpos {
    fn partial_cmp(&self, other: &Self) -> (r: Option<Ordering>) {
        if bpos_lt(*self, *other) {
            Some(Ordering::Less)
        } else if bpos_lt(*other, *self) {
            Some(Ordering::Greater)
        } else {
            Some(Ordering::Equal)
        }
    }
}

impl vstd::std_specs::cmp::PartialOrdSpecImpl for bpos {
    open spec fn obeys_partial_cmp_spec() -> bool {
        true
    }

    open spec fn partial_cmp_spec(&self, other: &Self) -> Option<Ordering> {
        if pos_lt(*self, *other) {
            Some(Ordering::Less)
        } else if pos_lt(*other, *self) {
            Some(Ordering::Greater)
        } else {
            Some(Ordering::Equal)
        }
    }
}

/// A position with a snapshot.
pub fn spos(inode: u64, offset: u64, snapshot: u32) -> (r: bpos)
    ensures
        r == (bpos { inode, offset, snapshot }),
{
    bpos { inode, offset, snapshot }
}

/// A position without a snapshot.
pub fn pos(inode: u64, offset: u64) -> (r: bpos)
    ensures
        r == (bpos { inode, offset, snapshot: 0 }),
{
    spos(inode, offset, 0)
}

/// The first position.
#[allow(non_snake_case)]
#[verifier::allow_in_spec]
pub fn POS_MIN() -> bpos
    returns
        (bpos { inode: 0, offset: 0, snapshot: 0 }),
{
    bpos { inode: 0, offset: 0, snapshot: 0 }
}

/// The last position, snapshots aside.
#[allow(non_snake_case)]
#[verifier::allow_in_spec]
pub fn POS_MAX() -> bpos
    returns
        (bpos { inode: u64::MAX, offset: u64::MAX, snapshot: 0 }),
{
    bpos { inode: u64::MAX, offset: u64::MAX, snapshot: 0 }
}

/// The last position.
#[allow(non_snake_case)]
#[verifier::allow_in_spec]
pub fn SPOS_MAX() -> bpos
    returns
        (bpos { inode: u64::MAX, offset: u64::MAX, snapshot: u32::MAX }),
{
    bpos { inode: u64::MAX, offset: u64::MAX, snapshot: u32::MAX }
}

/// `l < r`.
pub fn bpos_lt(l: bpos, r: bpos) -> (b: bool)
    ensures
        b == pos_lt(l, r),
{
    if l.inode != r.inode {
        l.inode < r.inode
    } else if l.offset != r.offset {
        l.offset < r.offset
    } else {
        l.snapshot < r.snapshot
    }
}

/// `l <= r`.
pub fn bpos_le(l: bpos, r: bpos) -> (b: bool)
    ensures
        b == (pos_lt(l, r) || l == r),
{
    if l.inode != r.inode {
        l.inode < r.inode
    } else if l.offset != r.offset {
        l.offset < r.offset
    } else {
        l.snapshot <= r.snapshot
    }
}

/// `l > r`.
pub fn bpos_gt(l: bpos, r: bpos) -> (b: bool)
    ensures
        b == pos_lt(r, l),
{
    bpos_lt(r, l)
}

/// `l >= r`.
pub fn bpos_ge(l: bpos, r: bpos) -> (b: bool)
    ensures
        b == (pos_lt(r, l) || l == r),
{
    bpos_le(r, l)
}

/// `-1`, `0` or `1` as `l` precedes, equals or follows `r`.
pub fn bpos_cmp(l: bpos, r: bpos) -> (c: i32)
    ensures
        c == (if pos_lt(l, r) {
            -1int
        } else if pos_lt(r, l) {
            1int
        } else {
            0int
        }),
{
    if l.inode != r.inode {
        if l.inode < r.inode {
            -1
        } else {
            1
        }
    } else if l.offset != r.offset {
        if l.offset < r.offset {
            -1
        } else {
            1
        }
    } else if l.snapshot != r.snapshot {
        if l.snapshot < r.snapshot {
            -1
        } else {
            1
        }
    } else {
        0
    }
}

/// The earlier of two positions.
pub fn bpos_min(l: bpos, r: bpos) -> (m: bpos)
    ensures
        m == (if pos_lt(l, r) {
            l
        } else {
            r
        }),
{
    if bpos_lt(l, r) {
        l
    } else {
        r
    }
}

/// The later of two positions.
pub fn bpos_max(l: bpos, r: bpos) -> (m: bpos)
    ensures
        m == (if pos_lt(r, l) {
            l
        } else {
            r
        }),
{
    if bpos_gt(l, r) {
        l
    } else {
        r
    }
}

/// `l == r`, snapshots aside.
pub fn bkey_eq(l: bpos, r: bpos) -> (b: bool)
    ensures
        b == key_eq(l, r),
{
    l.inode == r.inode && l.offset == r.offset
}

/// `l < r`, snapshots aside.
pub fn bkey_lt(l: bpos, r: bpos) -> (b: bool)
    ensures
        b == key_lt(l, r),
{
    if l.inode != r.inode {
        l.inode < r.inode
    } else {
        l.offset < r.offset
    }
}

/// `l <= r`, snapshots aside.
pub fn bkey_le(l: bpos, r: bpos) -> (b: bool)
    ensures
        b == (key_lt(l, r) || key_eq(l, r)),
{
    if l.inode != r.inode {
        l.inode < r.inode
    } else {
        l.offset <= r.offset
    }
}

/// `l > r`, snapshots aside.
pub fn bkey_gt(l: bpos, r: bpos) -> (b: bool)
    ensures
        b == key_lt(r, l),
{
    bkey_lt(r, l)
}

/// `l >= r`, snapshots aside.
pub fn bkey_ge(l: bpos, r: bpos) -> (b: bool)
    ensures
        b == (key_lt(r, l) || key_eq(l, r)),
{
    bkey_le(r, l)
}

/// `-1`, `0` or `1` as `l` precedes, equals or follows `r`, snapshots aside.
pub fn bkey_cmp(l: bpos, r: bpos) -> (c: i32)
    ensures
        c == (if key_lt(l, r) {
            -1int
        } else if key_lt(r, l) {
            1int
        } else {
            0int
        }),
{
    if l.inode != r.inode {
        if l.inode < r.inode {
            -1
        } else {
            1
        }
    } else if l.offset != r.offset {
        if l.offset < r.offset {
            -1
        } else {
            1
        }
    } else {
        0
    }
}

/// Positions are totally ordered: of two, exactly one precedes the other or they are equal; and
/// the order is transitive.
pub proof fn law_positions_are_totally_ordered(a: bpos, b: bpos, c: bpos)
    ensures
        pos_lt(a, b) || a == b || pos_lt(b, a),
        !(pos_lt(a, b) && pos_lt(b, a)),
        !pos_lt(a, a),
        pos_lt(a, b) && pos_lt(b, c) ==> pos_lt(a, c),
{
}

/// Every position lies between the first and the last.
pub proof fn law_positions_are_bounded(p: bpos)
    ensures
        p == POS_MIN() || pos_lt(POS_MIN(), p),
        p == SPOS_MAX() || pos_lt(p, SPOS_MAX()),
        key_eq(p, POS_MAX()) || key_lt(p, POS_MAX()),
{
}

/// The order that sets snapshots aside is the order of positions with their snapshots made equal,
/// and positions that differ there are ordered alike by both.
pub proof fn law_key_order_ignores_snapshots(a: bpos, b: bpos, s: u32)
    ensures
        key_lt(a, b) == pos_lt(
            bpos { snapshot: s, inode: a.inode, offset: a.offset },
            bpos { snapshot: s, inode: b.inode, offset: b.offset },
        ),
        key_lt(a, b) ==> pos_lt(a, b),
        pos_lt(a, b) ==> key_lt(a, b) || key_eq(a, b),
        key_lt(a, b) || key_eq(a, b) || key_lt(b, a),
{
}

/// The position that follows `p`.
pub open spec fn successor(p: bpos) -> bpos {
    if p.snapshot < u32::MAX {
        bpos { inode: p.inode, offset: p.offset, snapshot: (p.snapshot + 1) as u32 }
    } else if p.offset < u64::MAX {
        bpos { inode: p.inode, offset: (p.offset + 1) as u64, snapshot: 0 }
    } else {
        bpos { inode: (p.inode + 1) as u64, offset: 0, snapshot: 0 }
    }
}

/// The position that follows `p`.
pub fn bpos_successor(p: bpos) -> (r: bpos)
    requires
        p != SPOS_MAX(),
    ensures
        r == successor(p),
{
    if p.snapshot < u32::MAX {
        spos(p.inode, p.offset, p.snapshot + 1)
    } else if p.offset < u64::MAX {
        pos(p.inode, p.offset + 1)
    } else {
        pos(p.inode + 1, 0)
    }
}

/// Nothing lies between a position and its successor.
pub proof fn law_successor_is_next(p: bpos, q: bpos)
    requires
        p != SPOS_MAX(),
    ensures
        pos_lt(p, successor(p)),
        pos_lt(p, q) ==> q == successor(p) || pos_lt(successor(p), q),
{
}

/// A version of a key.
#[allow(non_camel_case_types)]
#[derive(Clone, Copy, PartialEq, Eq, Structural, Debug)]
pub struct bversion {
    pub hi: u32,
    pub lo: u64,
}

/// The type of a key.
#[allow(non_camel_case_types)]
#[derive(Clone, Copy, PartialEq, Eq, Structural, Debug)]
pub struct bch_bkey_type(pub u32);

/// The type of a deleted key.
pub const KEY_TYPE_DELETED: u32 = 0;

/// The type of a pointer to a btree node, in its first version.
pub const KEY_TYPE_BTREE_PTR: u32 = 5;

/// The type of a pointer to a btree node.
pub const KEY_TYPE_BTREE_PTR_V2: u32 = 18;

/// The size of a key without its value, in 64 bit words.
pub const BKEY_U64S: u8 = 5;

/// A key without its value. The position of an extent is its end.
#[allow(non_camel_case_types)]
#[derive(Clone, Copy, PartialEq, Eq, Structural, Debug)]
pub struct bkey {
    /// The size of the key with its value, in 64 bit words.
    pub u64s: u8,
    /// The type of the value.
    pub type_: u8,
    pub bversion: bversion,
    /// The size of an extent, in sectors.
    pub size: u32,
    pub p: bpos,
}

impl bkey {
    /// Where the key starts: an extent covers the `size` offsets before its position. Offsets wrap
    /// around.
    pub open spec fn start(self) -> u64 {
        ((self.p.offset - self.size) % 0x1_0000_0000_0000_0000) as u64
    }

    /// The position.
    pub fn pos(&self) -> (r: bpos)
        ensures
            r == self.p,
    {
        self.p
    }

    /// Sets the position.
    pub fn set_pos(&mut self, pos: bpos)
        ensures
            *final(self) == (bkey { p: pos, ..*old(self) }),
    {
        self.p = pos;
    }

    /// Sets the snapshot of the position.
    pub fn set_snapshot(&mut self, snapshot: u32)
        ensures
            *final(self) == (bkey { p: bpos { snapshot, ..old(self).p }, ..*old(self) }),
    {
        self.p.snapshot = snapshot;
    }

    /// The size, in sectors.
    pub fn size(&self) -> (r: u32)
        ensures
            r == self.size,
    {
        self.size
    }

    /// Sets the size, in sectors.
    pub fn set_size(&mut self, size: u32)
        ensures
            *final(self) == (bkey { size, ..*old(self) }),
    {
        self.size = size;
    }

    /// Makes the key cover the offsets from `start` to `end`. The size is the low 32 bits of their
    /// distance.
    pub fn set_range(&mut self, inode: u64, start: u64, end: u64, snapshot: u32)
        requires
            start <= end,
        ensures
            *final(self) == (bkey {
                p: bpos { inode, offset: end, snapshot },
                size: ((end - start) % 0x1_0000_0000) as u32,
                ..*old(self)
            }),
    {
        self.p = spos(inode, end, snapshot);
        let size: u64 = end - start;
        self.size = (size % 0x1_0000_0000) as u32;
    }

    /// The type of the value.
    pub fn key_type(&self) -> (r: bch_bkey_type)
        ensures
            r == bch_bkey_type(self.type_ as u32),
    {
        bch_bkey_type(self.type_ as u32)
    }

    /// Sets the low half of the version.
    pub fn set_version_lo(&mut self, version: u64)
        ensures
            *final(self) == (bkey {
                bversion: bversion { lo: version, ..old(self).bversion },
                ..*old(self)
            }),
    {
        self.bversion.lo = version;
    }

    /// The position where the key starts.
    pub fn start_pos(&self) -> (r: bpos)
        ensures
            r == (bpos { offset: self.start(), ..self.p }),
    {
        bkey_start_pos(self)
    }

    /// The offset where the key starts.
    pub fn start_offset(&self) -> (r: u64)
        ensures
            r == self.start(),
    {
        bkey_start_offset(self)
    }

    /// Whether the key is deleted.
    pub fn is_deleted(&self) -> (r: bool)
        ensures
            r == (self.type_ == KEY_TYPE_DELETED),
    {
        bkey_deleted(self)
    }

    /// Whether the key is a pointer to a btree node.
    pub fn is_btree_ptr(&self) -> (r: bool)
        ensures
            r == (self.type_ == KEY_TYPE_BTREE_PTR || self.type_ == KEY_TYPE_BTREE_PTR_V2),
    {
        bkey_is_btree_ptr(self)
    }
}

/// The position where a key starts.
pub fn bkey_start_pos(k: &bkey) -> (r: bpos)
    ensures
        r == (bpos { offset: k.start(), ..k.p }),
{
    bpos { inode: k.p.inode, offset: bkey_start_offset(k), snapshot: k.p.snapshot }
}

/// The offset where a key starts.
pub fn bkey_start_offset(k: &bkey) -> (r: u64)
    ensures
        r == k.start(),
{
    k.p.offset.wrapping_sub(k.size as u64)
}

/// Whether a key is deleted.
pub fn bkey_deleted(k: &bkey) -> (r: bool)
    ensures
        r == (k.type_ == KEY_TYPE_DELETED),
{
    k.type_ as u32 == KEY_TYPE_DELETED
}

/// Whether a key is a pointer to a btree node.
pub fn bkey_is_btree_ptr(k: &bkey) -> (r: bool)
    ensures
        r == (k.type_ == KEY_TYPE_BTREE_PTR || k.type_ == KEY_TYPE_BTREE_PTR_V2),
{
    k.type_ as u32 == KEY_TYPE_BTREE_PTR || k.type_ as u32 == KEY_TYPE_BTREE_PTR_V2
}

/// The key with its range set.
pub open spec fn with_range(k: bkey, inode: u64, start: u64, end: u64, snapshot: u32) -> bkey {
    bkey {
        p: bpos { inode, offset: end, snapshot },
        size: ((end - start) % 0x1_0000_0000) as u32,
        ..k
    }
}

/// A key that was made to cover a range starts at its start, where the distance fits in the size.
pub proof fn law_range_starts_at_start(
    k: bkey,
    inode: u64,
    start: u64,
    end: u64,
    snapshot: u32,
)
    requires
        start <= end,
        end - start <= u32::MAX,
    ensures
        with_range(k, inode, start, end, snapshot).start() == start,
        with_range(k, inode, start, end, snapshot).size == end - start,
{
}

/// A key that does not reach below offset zero starts `size` offsets before its position.
pub proof fn law_start_and_size_reach_the_position(k: bkey)
    requires
        k.size <= k.p.offset,
    ensures
        k.start() + k.size == k.p.offset,
{
}

/// A key with its value, as 64 bit words.
#[allow(non_camel_case_types)]
pub struct bkey_i {
    pub k: bkey,
    pub v: Vec<u64>,
}

/// A reference to a key and to its value.
pub struct BkeySC<'a> {
    pub k: &'a bkey,
    pub v: &'a [u64],
}

impl<'a> BkeySC<'a> {
    /// The key and the value of an inline key.
    pub fn of(k: &'a bkey_i) -> (r: BkeySC<'a>)
        ensures
            *r.k == k.k,
            r.v@ == k.v@,
    {
        BkeySC { k: &k.k, v: k.v.as_slice() }
    }

    /// The position.
    pub fn pos(&self) -> (r: bpos)
        ensures
            r == self.k.p,
    {
        self.k.p
    }

    /// The size, in sectors.
    pub fn size(&self) -> (r: u32)
        ensures
            r == self.k.size,
    {
        self.k.size
    }

    /// The type of the value.
    pub fn key_type(&self) -> (r: bch_bkey_type)
        ensures
            r == bch_bkey_type(self.k.type_ as u32),
    {
        self.k.key_type()
    }

    /// Whether the key is deleted.
    pub fn is_deleted(&self) -> (r: bool)
        ensures
            r == (self.k.type_ == KEY_TYPE_DELETED),
    {
        bkey_deleted(self.k)
    }

    /// Whether the key is a pointer to a btree node.
    pub fn is_btree_ptr(&self) -> (r: bool)
        ensures
            r == (self.k.type_ == KEY_TYPE_BTREE_PTR || self.k.type_ == KEY_TYPE_BTREE_PTR_V2),
    {
        bkey_is_btree_ptr(self.k)
    }

    /// The position where the key starts.
    pub fn start_pos(&self) -> (r: bpos)
        ensures
            r == (bpos { offset: self.k.start(), ..self.k.p }),
    {
        bkey_start_pos(self.k)
    }

    /// The offset where the key starts.
    pub fn start_offset(&self) -> (r: u64)
        ensures
            r == self.k.start(),
    {
        bkey_start_offset(self.k)
    }
}

/// What can be used as an inline key.
pub trait AsBkeyI {
    /// The inline key.
    spec fn inline_key(&self) -> bkey_i;

    /// The inline key.
    fn as_bkey_i(&self) -> (r: &bkey_i)
        ensures
            *r == self.inline_key(),
    ;

    /// The inline key, to be changed in place.
    fn as_bkey_i_mut(&mut self) -> (r: &mut bkey_i)
        ensures
            *r == old(self).inline_key(),
            final(self).inline_key() == *final(r),
    ;

    /// The key without its value.
    fn as_bkey(&self) -> (r: &bkey)
        ensures
            *r == self.inline_key().k,
    {
        &self.as_bkey_i().k
    }

    /// The key without its value, to be changed in place.
    fn as_bkey_mut(&mut self) -> (r: &mut bkey)
        ensures
            *r == old(self).inline_key().k,
            final(self).inline_key() == (bkey_i { k: *final(r), v: old(self).inline_key().v }),
    {
        &mut self.as_bkey_i_mut().k
    }
}

impl AsBkeyI for bkey_i {
    open spec fn inline_key(&self) -> bkey_i {
        *self
    }

    fn as_bkey_i(&self) -> (r: &bkey_i) {
        self
    }

    fn as_bkey_i_mut(&mut self) -> (r: &mut bkey_i) {
        self
    }
}

/// A type of keys that can be made from nothing.
pub trait BkeyInit: Sized {
    /// What holds of a new key.
    spec fn initialized(&self) -> bool;

    /// The inline key.
    spec fn key(&self) -> bkey_i;

    /// A new key.
    fn init() -> (r: Self)
        ensures
            r.initialized(),
    ;

    /// The inline key.
    fn k_i(&self) -> (r: &bkey_i)
        ensures
            *r == self.key(),
    ;

    /// The inline key, to be changed in place.
    fn k_i_mut(&mut self) -> (r: &mut bkey_i)
        ensures
            *r == old(self).key(),
            final(self).key() == *final(r),
    ;
}

impl BkeyInit for bkey_i {
    open spec fn initialized(&self) -> bool {
        &&& self.v@.len() == 0
        &&& self.k == bkey {
            u64s: BKEY_U64S,
            type_: KEY_TYPE_DELETED as u8,
            bversion: bversion { hi: 0, lo: 0 },
            size: 0,
            p: POS_MIN(),
        }
    }

    open spec fn key(&self) -> bkey_i {
        *self
    }

    fn init() -> (r: Self) {
        bkey_i {
            k: bkey {
                u64s: BKEY_U64S,
                type_: 0,
                bversion: bversion { hi: 0, lo: 0 },
                size: 0,
                p: POS_MIN(),
            },
            v: Vec::new(),
        }
    }

    fn k_i(&self) -> (r: &bkey_i) {
        self
    }

    fn k_i_mut(&mut self) -> (r: &mut bkey_i) {
        self
    }
}

/// An owned key of the type `K`.
pub struct Bkey<K: BkeyInit> {
    raw: K,
}

impl<K: BkeyInit> Bkey<K> {
    /// The key of the type `K`.
    pub closed spec fn inner(self) -> K {
        self.raw
    }

    /// A new key.
    pub fn new() -> (r: Self)
        ensures
            r.inner().initialized(),
    {
        Bkey { raw: K::init() }
    }

    /// The key of the type `K`.
    pub fn raw(&self) -> (r: &K)
        ensures
            *r == self.inner(),
    {
        &self.raw
    }

    /// The key of the type `K`, to be changed in place.
    pub fn raw_mut(&mut self) -> (r: &mut K)
        ensures
            *r == old(self).inner(),
            final(self).inner() == *final(r),
    {
        &mut self.raw
    }

    /// The key without its value.
    pub fn k(&self) -> (r: &bkey)
        ensures
            *r == self.inner().key().k,
    {
        &self.raw.k_i().k
    }

    /// The key without its value, to be changed in place.
    pub fn k_mut(&mut self) -> (r: &mut bkey)
        ensures
            *r == old(self).inner().key().k,
            final(self).inner().key() == (bkey_i { k: *final(r), v: old(self).inner().key().v }),
    {
        &mut self.raw.k_i_mut().k
    }

    /// The inline key.
    pub fn k_i(&self) -> (r: &bkey_i)
        ensures
            *r == self.inner().key(),
    {
        self.raw.k_i()
    }

    /// The inline key, to be changed in place.
    pub fn k_i_mut(&mut self) -> (r: &mut bkey_i)
        ensures
            *r == old(self).inner().key(),
            final(self).inner().key() == *final(r),
    {
        self.raw.k_i_mut()
    }
}

impl<K: BkeyInit> Default for Bkey<K> {
    fn default() -> (r: Self)
        ensures
            r.inner().initialized(),
    {
        Bkey::new()
    }
}

impl<K: BkeyInit> AsBkeyI for Bkey<K> {
    open spec fn inline_key(&self) -> bkey_i {
        self.inner().key()
    }

    fn as_bkey_i(&self) -> (r: &bkey_i) {
        self.k_i()
    }

    fn as_bkey_i_mut(&mut self) -> (r: &mut bkey_i) {
        self.k_i_mut()
    }
}

/// The number that an inode or an offset in a position stands for.
pub open spec fn u64_field(s: Seq<char>) -> Option<nat> {
    if s == "U64_MAX"@ {
        Some(u64::MAX as nat)
    } else if s == "U32_MAX"@ {
        Some(u32::MAX as nat)
    } else {
        decimal::decimal_value(s, u64::MAX as nat)
    }
}

/// The number that a snapshot in a position stands for.
pub open spec fn u32_field(s: Seq<char>) -> Option<nat> {
    if s == "U32_MAX"@ {
        Some(u32::MAX as nat)
    } else {
        decimal::decimal_value(s, u32::MAX as nat)
    }
}

/// The position that the fields `fs` stand for: an inode, an offset, and perhaps a snapshot. What
/// follows is ignored.
pub open spec fn fields_pos(fs: Seq<Seq<char>>) -> Option<bpos> {
    if fs.len() < 2 {
        None
    } else {
        let snapshot = if fs.len() > 2 {
            u32_field(fs[2])
        } else {
            Some(0)
        };
        match (u64_field(fs[0]), u64_field(fs[1]), snapshot) {
            (Some(i), Some(o), Some(s)) => Some(
                bpos { inode: i as u64, offset: o as u64, snapshot: s as u32 },
            ),
            _ => None,
        }
    }
}

/// The position that the text `s` stands for: the name of a constant, or fields that are separated
/// by colons.
pub open spec fn text_pos(s: Seq<char>) -> Option<bpos> {
    if s == "POS_MIN"@ {
        Some(POS_MIN())
    } else if s == "POS_MAX"@ {
        Some(POS_MAX())
    } else if s == "SPOS_MAX"@ {
        Some(SPOS_MAX())
    } else {
        fields_pos(text::pieces(s, ':'))
    }
}

fn is_text(cs: &[char], literal: &str) -> (r: bool)
    ensures
        r == (cs@ == literal@),
{
    let l = to_chars(literal);
    same_chars(cs, l.as_slice())
}

fn read_u64_field(cs: &[char]) -> (r: Option<u64>)
    ensures
        match r {
            Some(v) => u64_field(cs@) == Some(v as nat),
            None => u64_field(cs@) is None,
        },
{
    if is_text(cs, "U64_MAX") {
        Some(u64::MAX)
    } else if is_text(cs, "U32_MAX") {
        Some(u32::MAX as u64)
    } else {
        parse_decimal(cs, u64::MAX)
    }
}

fn read_u32_field(cs: &[char]) -> (r: Option<u32>)
    ensures
        match r {
            Some(v) => u32_field(cs@) == Some(v as nat),
            None => u32_field(cs@) is None,
        },
{
    if is_text(cs, "U32_MAX") {
        Some(u32::MAX)
    } else {
        match parse_decimal(cs, u32::MAX as u64) {
            Some(v) => Some(v as u32),
            None => None,
        }
    }
}

/// Parses an inode or an offset. The tokens `U64_MAX` and `U32_MAX` stand for the largest values,
/// as positions are printed.
pub fn parse_bpos_u64(s: &str, codes: &Errcodes) -> (r: Result<u64, BchError>)
    ensures
        match r {
            Ok(v) => u64_field(s@) == Some(v as nat),
            Err(e) => u64_field(s@) is None && e.code() == codes.einval_parse_bpos.0 as i32,
        },
{
    let cs = to_chars(s);
    match read_u64_field(cs.as_slice()) {
        Some(v) => Ok(v),
        None => Err(BchError::from_errcode(codes.einval_parse_bpos)),
    }
}

/// Parses a snapshot.
pub fn parse_bpos_u32(s: &str, codes: &Errcodes) -> (r: Result<u32, BchError>)
    ensures
        match r {
            Ok(v) => u32_field(s@) == Some(v as nat),
            Err(e) => u32_field(s@) is None && e.code() == codes.einval_parse_bpos.0 as i32,
        },
{
    let cs = to_chars(s);
    match read_u32_field(cs.as_slice()) {
        Some(v) => Ok(v),
        None => Err(BchError::from_errcode(codes.einval_parse_bpos)),
    }
}

fn read_pos(cs: &[char]) -> (r: Option<bpos>)
    ensures
        r == text_pos(cs@),
{
    if is_text(cs, "POS_MIN") {
        return Some(POS_MIN());
    }
    if is_text(cs, "POS_MAX") {
        return Some(POS_MAX());
    }
    if is_text(cs, "SPOS_MAX") {
        return Some(SPOS_MAX());
    }
    let ghost fs = text::pieces(cs@, ':');
    assert(cs@.skip(0) == cs@);
    let a: usize = find_char(cs, 0, ':');
    if a == cs.len() {
        assert(fs == seq![cs@]);
        return None;
    }
    let ghost rest = cs@.skip(a + 1);
    let b: usize = find_char(cs, a + 1, ':');
    let ino = slice_subrange(cs, 0, a);
    let off = slice_subrange(cs, a + 1, b);
    proof {
        assert(ino@ == cs@.take(a as int));
        assert(fs == seq![ino@] + text::pieces(rest, ':'));
        assert(off@ == rest.take(b - (a + 1)));
        if b == cs.len() {
            assert(rest.take(b - (a + 1)) == rest);
            assert(text::pieces(rest, ':') == seq![off@]);
        } else {
            assert(rest.skip(b - (a + 1) + 1) == cs@.skip(b + 1));
            assert(text::pieces(rest, ':') == seq![off@] + text::pieces(cs@.skip(b + 1), ':'));
        }
        assert(fs[0] == ino@ && fs[1] == off@);
    }
    let inode = read_u64_field(ino);
    let offset = read_u64_field(off);
    let snapshot: Option<u32> = if b == cs.len() {
        assert(fs.len() == 2);
        Some(0)
    } else {
        let c: usize = find_char(cs, b + 1, ':');
        let snp = slice_subrange(cs, b + 1, c);
        proof {
            let tail = cs@.skip(b + 1);
            assert(snp@ == tail.take(c - (b + 1)));
            assert(text::pieces(tail, ':')[0] == snp@) by {
                if c == cs.len() {
                    assert(tail.take(c - (b + 1)) == tail);
                }
            }
            assert(text::pieces(tail, ':').len() > 0);
            assert(fs[2] == snp@);
        }
        read_u32_field(snp)
    };
    match (inode, offset, snapshot) {
        (Some(i), Some(o), Some(s)) => Some(spos(i, o, s)),
        _ => None,
    }
}

impl bpos {
    /// Parses a position.
    pub fn from_str(s: &str, codes: &Errcodes) -> (r: Result<bpos, BchError>)
        ensures
            match r {
                Ok(p) => text_pos(s@) == Some(p),
                Err(e) => text_pos(s@) is None && e.code() == codes.einval_parse_bpos.0 as i32,
            },
    {
        let cs = to_chars(s);
        match read_pos(cs.as_slice()) {
            Some(p) => Ok(p),
            None => Err(BchError::from_errcode(codes.einval_parse_bpos)),
        }
    }
}

/// A position as text.
pub open spec fn pos_text(p: bpos) -> Seq<char> {
    decimal::digits_of(p.inode as nat) + seq![':'] + decimal::digits_of(p.offset as nat) + seq![
        ':',
    ] + decimal::digits_of(p.snapshot as nat)
}

proof fn lemma_first_piece(a: Seq<char>, rest: Seq<char>)
    requires
        decimal::all_digits(a),
    ensures
        text::pieces(a + seq![':'] + rest, ':') == seq![a] + text::pieces(rest, ':'),
        text::pieces(a, ':') == seq![a],
{
    let s = a + seq![':'] + rest;
    let n = a.len() as int;
    assert(s[n] == ':');
    assert forall|j: int| 0 <= j < n implies s[j] != ':' by {
        assert(s[j] == a[j]);
        assert(decimal::is_digit(a[j]));
    }
    text::lemma_char_at_unique(s, ':', n);
    assert(s.take(n) == a);
    assert(s.skip(n + 1) == rest);
    assert forall|j: int| 0 <= j < n implies a[j] != ':' by {
        assert(decimal::is_digit(a[j]));
    }
    text::lemma_char_at_unique(a, ':', n);
}

proof fn lemma_digits_are_no_token(d: Seq<char>)
    requires
        d.len() > 0,
        decimal::is_digit(d[0]),
    ensures
        d != "U64_MAX"@,
        d != "U32_MAX"@,
        d != "POS_MIN"@,
        d != "POS_MAX"@,
        d != "SPOS_MAX"@,
{
    reveal_strlit("U64_MAX");
    reveal_strlit("U32_MAX");
    reveal_strlit("POS_MIN");
    reveal_strlit("POS_MAX");
    reveal_strlit("SPOS_MAX");
}

/// A position that is written with its three numbers is read back.
pub proof fn law_position_text_round_trip(p: bpos)
    ensures
        text_pos(pos_text(p)) == Some(p),
{
    let i = decimal::digits_of(p.inode as nat);
    let o = decimal::digits_of(p.offset as nat);
    let s = decimal::digits_of(p.snapshot as nat);
    decimal::law_decimal_round_trip(p.inode as nat, u64::MAX as nat);
    decimal::law_decimal_round_trip(p.offset as nat, u64::MAX as nat);
    decimal::law_decimal_round_trip(p.snapshot as nat, u32::MAX as nat);
    lemma_digits_are_no_token(i);
    lemma_digits_are_no_token(o);
    lemma_digits_are_no_token(s);
    let rest = o + seq![':'] + s;
    let t = pos_text(p);
    assert(t == i + seq![':'] + rest);
    lemma_first_piece(i, rest);
    lemma_first_piece(o, s);
    lemma_first_piece(s, Seq::empty());
    assert(t[0] == i[0]);
    lemma_digits_are_no_token(t);
    let fs = text::pieces(t, ':');
    assert(fs == seq![i, o, s]);
}

/// A position as one number: the inode above the offset, and the offset above the snapshot.
pub open spec fn pos_number(p: bpos) -> int {
    (p.inode * 0x1_0000_0000_0000_0000 + p.offset) * 0x1_0000_0000 + p.snapshot
}

/// A position as one number, snapshots aside.
pub open spec fn key_number(p: bpos) -> int {
    p.inode * 0x1_0000_0000_0000_0000 + p.offset
}

/// Positions are ordered by inode first, then by offset, then by snapshot; keys alike, without the
/// snapshot.
pub proof fn law_positions_order_as_numbers(a: bpos, b: bpos)
    ensures
        pos_lt(a, b) == (pos_number(a) < pos_number(b)),
        key_lt(a, b) == (key_number(a) < key_number(b)),
        key_eq(a, b) == (key_number(a) == key_number(b)),
        (a == b) == (pos_number(a) == pos_number(b)),
{
}

/// The successor of a position is the next number.
pub proof fn law_successor_adds_one(p: bpos)
    requires
        p != SPOS_MAX(),
    ensures
        pos_number(successor(p)) == pos_number(p) + 1,
{
}

/// The first position is all zeros; the last ones have every bit set, but for the snapshot of the one
/// that leaves it aside.
pub proof fn law_end_positions()
    ensures
        pos_number(POS_MIN()) == 0,
        key_number(POS_MAX()) == key_number(SPOS_MAX()),
        POS_MAX().snapshot == 0,
        forall|p: bpos| #[trigger] pos_number(p) <= pos_number(SPOS_MAX()),
        SPOS_MAX() == (bpos { inode: u64::MAX, offset: u64::MAX, snapshot: u32::MAX }),
{
}

/// A key that is given a range ends at the end of the range, and is as long as the range; nothing else
/// of it changes.
pub proof fn law_range_sets_position_and_size(
    k: bkey,
    inode: u64,
    start: u64,
    end: u64,
    snapshot: u32,
)
    requires
        start <= end,
    ensures
        ({
            let r = with_range(k, inode, start, end, snapshot);
            &&& r.p.inode == inode && r.p.offset == end && r.p.snapshot == snapshot
            &&& r.size == (end - start) % 0x1_0000_0000
            &&& r.u64s == k.u64s && r.type_ == k.type_ && r.bversion == k.bversion
        }),
{
}

/// The start of a key lies its size before its position, and wraps around below zero.
pub proof fn law_start_lies_before_the_position(k: bkey)
    ensures
        k.size <= k.p.offset ==> k.start() == k.p.offset - k.size,
        k.size > k.p.offset ==> k.start() == k.p.offset - k.size + 0x1_0000_0000_0000_0000,
{
}

/// Whether `f` can stand between the colons of a position.
pub open spec fn is_field(f: Seq<char>) -> bool {
    forall|i: int| 0 <= i < f.len() ==> #[trigger] f[i] != ':'
}

/// The fields of a position are numbers, or the names of the largest ones; a snapshot has no name for
/// the largest number of 64 bits.
pub proof fn law_fields_are_numbers_or_names(f: Seq<char>)
    ensures
        u64_field("U64_MAX"@) == Some(0xffff_ffff_ffff_ffffnat),
        u64_field("U32_MAX"@) == Some(0xffff_ffffnat),
        u32_field("U32_MAX"@) == Some(0xffff_ffffnat),
        f != "U64_MAX"@ && f != "U32_MAX"@ ==> u64_field(f) == decimal::decimal_value(
            f,
            0xffff_ffff_ffff_ffff,
        ),
        f != "U32_MAX"@ ==> u32_field(f) == decimal::decimal_value(f, 0xffff_ffff),
{
    reveal_strlit("U64_MAX");
    reveal_strlit("U32_MAX");
    assert("U64_MAX"@[1] != "U32_MAX"@[1]);
}

/// A position is read from an inode, an offset, and a snapshot if there is one, with colons between
/// them; each has to be a number. What follows a third colon does not count.
pub proof fn law_positions_are_read_by_fields(
    i: Seq<char>,
    o: Seq<char>,
    s: Seq<char>,
    more: Seq<char>,
)
    requires
        is_field(i),
        is_field(o),
        is_field(s),
    ensures
        text_pos(i + seq![':'] + o) == (match (u64_field(i), u64_field(o)) {
            (Some(a), Some(b)) => Some(bpos { inode: a as u64, offset: b as u64, snapshot: 0 }),
            _ => None,
        }),
        text_pos(i + seq![':'] + (o + seq![':'] + s)) == (match (
            u64_field(i),
            u64_field(o),
            u32_field(s),
        ) {
            (Some(a), Some(b), Some(c)) => Some(
                bpos { inode: a as u64, offset: b as u64, snapshot: c as u32 },
            ),
            _ => None,
        }),
        text_pos(i + seq![':'] + (o + seq![':'] + (s + seq![':'] + more))) == text_pos(
            i + seq![':'] + (o + seq![':'] + s),
        ),
{
    let e = Seq::<char>::empty();
    let a = i + seq![':'] + o;
    let b = i + seq![':'] + (o + seq![':'] + s);
    let c = i + seq![':'] + (o + seq![':'] + (s + seq![':'] + more));
    lemma_colon_is_no_token(a, i.len() as int);
    lemma_colon_is_no_token(b, i.len() as int);
    lemma_colon_is_no_token(c, i.len() as int);
    lemma_piece_before(i, o);
    lemma_piece_before(i, o + seq![':'] + s);
    lemma_piece_before(i, o + seq![':'] + (s + seq![':'] + more));
    lemma_piece_before(o, s);
    lemma_piece_before(o, s + seq![':'] + more);
    lemma_piece_before(s, more);
    lemma_piece_alone(o);
    lemma_piece_alone(s);
    assert(text::pieces(a, ':') == seq![i] + seq![o]);
    assert(text::pieces(b, ':') == seq![i] + (seq![o] + seq![s]));
    assert(text::pieces(c, ':') == seq![i] + (seq![o] + (seq![s] + text::pieces(more, ':'))));
    let fs = text::pieces(c, ':');
    assert(fs.len() > 2 && fs[0] == i && fs[1] == o && fs[2] == s);
}

proof fn lemma_colon_is_no_token(s: Seq<char>, k: int)
    requires
        0 <= k < s.len(),
        s[k] == ':',
    ensures
        s != "POS_MIN"@,
        s != "POS_MAX"@,
        s != "SPOS_MAX"@,
{
    reveal_strlit("POS_MIN");
    reveal_strlit("POS_MAX");
    reveal_strlit("SPOS_MAX");
}

proof fn lemma_piece_before(a: Seq<char>, rest: Seq<char>)
    requires
        is_field(a),
    ensures
        text::pieces(a + seq![':'] + rest, ':') == seq![a] + text::pieces(rest, ':'),
{
    let s = a + seq![':'] + rest;
    let n = a.len() as int;
    assert forall|j: int| 0 <= j < n implies s[j] != ':' by {
        assert(s[j] == a[j]);
    }
    text::lemma_char_at_unique(s, ':', n);
    assert(s.take(n) == a);
    assert(s.skip(n + 1) == rest);
}

proof fn lemma_piece_alone(a: Seq<char>)
    requires
        is_field(a),
    ensures
        text::pieces(a, ':') == seq![a],
{
    text::lemma_char_at_unique(a, ':', a.len() as int);
}

/// A text without a colon is a position only where it is the name of one.
pub proof fn law_named_positions(s: Seq<char>)
    requires
        is_field(s),
    ensures
        text_pos("POS_MIN"@) == Some(bpos { inode: 0, offset: 0, snapshot: 0 }),
        text_pos("POS_MAX"@) == Some(bpos { inode: u64::MAX, offset: u64::MAX, snapshot: 0 }),
        text_pos("SPOS_MAX"@) == Some(
            bpos { inode: u64::MAX, offset: u64::MAX, snapshot: u32::MAX },
        ),
        s != "POS_MIN"@ && s != "POS_MAX"@ && s != "SPOS_MAX"@ ==> text_pos(s) is None,
{
    reveal_strlit("POS_MIN");
    reveal_strlit("POS_MAX");
    reveal_strlit("SPOS_MAX");
    assert("POS_MIN"@[5] != "POS_MAX"@[5]);
    assert("SPOS_MAX"@.len() != "POS_MIN"@.len());
    lemma_piece_alone(s);
}

/// A new key is deleted, has no value, and lies at the first position; its size in words is that of the
/// key without a value.
pub proof fn law_new_keys_are_empty(k: bkey_i)
    requires
        BkeyInit::initialized(&k),
    ensures
        k.v@.len() == 0,
        k.k.u64s == 5,
        k.k.type_ == 0,
        k.k.size == 0,
        k.k.bversion.hi == 0 && k.k.bversion.lo == 0,
        pos_number(k.k.p) == 0,
        BkeyInit::key(&k) == k,
        k.inline_key() == k,
{
}

/// The types of keys that are looked at by number.
pub proof fn law_key_types_are_numbered()
    ensures
        KEY_TYPE_DELETED == 0,
        KEY_TYPE_BTREE_PTR == 5,
        KEY_TYPE_BTREE_PTR_V2 == 18,
        BKEY_U64S == 5,
{
}

/// Comparing positions says how their numbers compare.
pub proof fn law_comparing_positions_compares_numbers(a: bpos, b: bpos)
    ensures
        vstd::std_specs::cmp::PartialOrdSpec::partial_cmp_spec(&a, &b) == (if pos_number(a)
            < pos_number(b) {
            Some(Ordering::Less)
        } else if pos_number(a) > pos_number(b) {
            Some(Ordering::Greater)
        } else {
            Some(Ordering::Equal)
        }),
{
}

} // verus!
