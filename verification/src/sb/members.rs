//! The member devices of a filesystem, as its superblock lists them.
//!
//! An entry may be shorter than a member is in memory, for it may have been written by an older
//! version. What it lacks is read as zeros.
use crate::sb::io::{
    bch_sb, bch_sb_field_members_v1, bch_sb_field_members_v2, bch_sb_handle, sb_field_get,
    sb_field_get_mut,
};
use crate::util::bitmask;
use crate::util::bitmask::{le64_bitmask_get, le64_bitmask_set, Bitmask};
use crate::util::bytes;
use crate::util::bytes::{from_bytes, to_bytes};
use vstd::prelude::*;

verus! {

/// The size of an entry in the first version of the list.
pub const BCH_MEMBER_V1_BYTES: usize = 56;

/// Where the word of flags lies in a member.
pub const MEMBER_FLAGS_AT: usize = 40;

/// The name of a state of a member, from the list of names that the C headers give.
pub fn member_state_str<'a>(names: &'a [String], state: u8) -> (r: &'a str)
    ensures
        r@ == (if state < names@.len() {
            names@[state as int]@
        } else {
            "unknown"@
        }),
{
    if (state as usize) < names.len() {
        names[state as usize].as_str()
    } else {
        "unknown"
    }
}

/// Entry number `idx` of a list of entries of `size` bytes.
pub open spec fn slot(members: Seq<u8>, size: int, idx: int) -> Seq<u8> {
    members.subrange(idx * size, idx * size + size)
}

/// Whether a list holds `nr` entries of `size` bytes.
pub open spec fn holds(members: Seq<u8>, size: int, nr: int) -> bool {
    nr * size <= members.len()
}

/// A member in memory, `size` bytes long, that was read from the entry `e`: its first bytes, and
/// zeros behind them.
pub open spec fn read_entry(e: Seq<u8>, size: nat) -> Seq<u8> {
    Seq::new(
        size,
        |i: int|
            if i < e.len() {
                e[i]
            } else {
                0
            },
    )
}

/// Entry number `idx` of the member list.
pub open spec fn entry(f: bch_sb_field_members_v2, idx: int) -> Seq<u8> {
    slot(f.members@, f.member_bytes as int, idx)
}

/// Whether the member list holds `nr` entries.
pub open spec fn has_room(f: bch_sb_field_members_v2, nr: nat) -> bool {
    holds(f.members@, f.member_bytes as int, nr as int)
}

/// Whether `new_f` is the member list `old_f` with `e` in place of entry number `idx`.
pub open spec fn entry_changed(
    old_f: bch_sb_field_members_v2,
    new_f: bch_sb_field_members_v2,
    idx: int,
    e: Seq<u8>,
) -> bool {
    let size = old_f.member_bytes as int;
    &&& new_f.u64s == old_f.u64s
    &&& new_f.member_bytes == old_f.member_bytes
    &&& new_f.members@ == old_f.members@.take(idx * size) + e + old_f.members@.skip(
        idx * size + size,
    )
}

/// A member device in memory.
#[allow(non_camel_case_types)]
pub struct bch_member {
    pub bytes: Vec<u8>,
}

proof fn lemma_slot_in(size: int, idx: int, nr: int, len: int)
    requires
        0 <= size,
        0 <= idx < nr,
        nr * size <= len,
    ensures
        0 <= idx * size,
        idx * size + size <= len,
{
    assert(idx * size + size <= nr * size) by (nonlinear_arith)
        requires
            0 <= size,
            0 <= idx < nr,
    ;
    assert(0 <= idx * size) by (nonlinear_arith)
        requires
            0 <= size,
            0 <= idx,
    ;
}

/// A list that holds some entries holds fewer.
pub proof fn lemma_room_for_fewer(f: bch_sb_field_members_v2, nr: nat, fewer: nat)
    requires
        has_room(f, nr),
        fewer <= nr,
    ensures
        has_room(f, fewer),
{
    let size = f.member_bytes as int;
    assert(fewer * size <= nr * size) by (nonlinear_arith)
        requires
            fewer <= nr,
            0 <= size,
    ;
}

fn slot_start(size: usize, idx: u32, len: usize, Ghost(nr): Ghost<int>) -> (r: usize)
    requires
        idx < nr,
        nr * size <= len,
    ensures
        r == idx * size,
        r + size <= len,
{
    proof {
        lemma_slot_in(size as int, idx as int, nr, len as int);
    }
    idx as usize * size
}

fn read_slot(members: &Vec<u8>, size: usize, idx: u32, nr: u32, member_size: usize) -> (r: bch_member)
    requires
        idx < nr,
        holds(members@, size as int, nr as int),
    ensures
        r.bytes@ == read_entry(slot(members@, size as int, idx as int), member_size as nat),
{
    let len: usize = members.len();
    let start: usize = slot_start(size, idx, len, Ghost(nr as int));
    let ghost e = slot(members@, size as int, idx as int);
    let mut bytes: Vec<u8> = Vec::new();
    let mut i: usize = 0;
    while i < member_size
        invariant
            i <= member_size,
            start == idx * size,
            start + size <= len,
            len == members@.len(),
            e == members@.subrange(start as int, start + size),
            bytes@ == read_entry(e, i as nat),
        decreases member_size - i,
    {
        if i < size {
            bytes.push(members[start + i]);
        } else {
            bytes.push(0);
        }
        i = i + 1;
        assert(bytes@ == read_entry(e, i as nat));
    }
    bch_member { bytes }
}

/// Entry number `idx` of the member list, to be changed in place.
pub fn entry_mut(f: &mut bch_sb_field_members_v2, idx: u32) -> (r: &mut [u8])
    requires
        has_room(*old(f), (idx + 1) as nat),
    ensures
        r@ == entry(*old(f), idx as int),
        final(r)@.len() == r@.len() ==> entry_changed(*old(f), *final(f), idx as int, final(r)@),
        final(f).member_bytes == old(f).member_bytes,
{
    let size: usize = f.member_bytes as usize;
    let len: usize = f.members.len();
    let start: usize = slot_start(size, idx, len, Ghost(idx + 1));
    let ghost before = f.members@;
    let all: &mut [u8] = f.members.as_mut_slice();
    let (head, rest) = all.split_at_mut(start);
    let (e, tail) = rest.split_at_mut(size);
    proof {
        assert(e@ == before.subrange(start as int, start + size));
        assert(tail@ == before.skip(start + size));
        assert(head@ == before.take(start as int));
        let new = final(e)@;
        assert(head@ + (new + tail@) == head@ + new + tail@);
    }
    e
}

/// The member devices, in entries whose size is given.
pub struct MembersV2<'a> {
    pub field: &'a bch_sb_field_members_v2,
    pub member_bytes: usize,
    pub nr_devices: u32,
}

/// The members number `from` on, of `nr`, as they are read from a list of entries.
pub open spec fn read_all(members: Seq<u8>, size: int, nr: int, member_size: nat) -> Seq<Seq<u8>> {
    Seq::new(nr as nat, |i: int| read_entry(slot(members, size, i), member_size))
}

/// The bytes of each of the members.
pub open spec fn bytes_of(ms: Seq<bch_member>) -> Seq<Seq<u8>> {
    ms.map_values(|m: bch_member| m.bytes@)
}

fn read_members(members: &Vec<u8>, size: usize, nr: u32, member_size: usize) -> (r: Vec<bch_member>)
    requires
        holds(members@, size as int, nr as int),
    ensures
        bytes_of(r@) == read_all(members@, size as int, nr as int, member_size as nat),
{
    let mut r: Vec<bch_member> = Vec::new();
    let mut i: u32 = 0;
    while i < nr
        invariant
            i <= nr,
            holds(members@, size as int, nr as int),
            bytes_of(r@) == read_all(members@, size as int, i as int, member_size as nat),
        decreases nr - i,
    {
        let m = read_slot(members, size, i, nr, member_size);
        let ghost before = r@;
        r.push(m);
        assert(bytes_of(r@) == bytes_of(before).push(m.bytes@));
        i = i + 1;
        assert(bytes_of(r@) == read_all(members@, size as int, i as int, member_size as nat));
    }
    r
}

impl<'a> MembersV2<'a> {
    /// Whether the list holds an entry for each device.
    pub open spec fn valid(self) -> bool {
        holds(self.field.members@, self.member_bytes as int, self.nr_devices as int)
    }

    /// A copy of the member number `idx`, `member_size` bytes long.
    pub fn get(&self, idx: u32, member_size: usize) -> (r: Option<bch_member>)
        requires
            self.valid(),
        ensures
            match r {
                Some(m) => idx < self.nr_devices && m.bytes@ == read_entry(
                    slot(self.field.members@, self.member_bytes as int, idx as int),
                    member_size as nat,
                ),
                None => idx >= self.nr_devices,
            },
    {
        if idx >= self.nr_devices {
            return None;
        }
        Some(
            read_slot(&self.field.members, self.member_bytes, idx, self.nr_devices, member_size),
        )
    }

    /// The size of an entry.
    pub fn member_bytes(&self) -> (r: usize)
        ensures
            r == self.member_bytes,
    {
        self.member_bytes
    }

    /// The number of devices.
    pub fn nr_devices(&self) -> (r: u32)
        ensures
            r == self.nr_devices,
    {
        self.nr_devices
    }

    /// All the members, in order.
    pub fn iter(&self, member_size: usize) -> (r: Vec<bch_member>)
        requires
            self.valid(),
        ensures
            bytes_of(r@) == read_all(
                self.field.members@,
                self.member_bytes as int,
                self.nr_devices as int,
                member_size as nat,
            ),
    {
        read_members(&self.field.members, self.member_bytes, self.nr_devices, member_size)
    }
}

/// The member devices, in entries whose size is given, to be changed in place.
pub struct MembersV2Mut<'a> {
    pub field: &'a mut bch_sb_field_members_v2,
    pub member_bytes: usize,
    pub nr_devices: u32,
}

impl<'a> MembersV2Mut<'a> {
    /// The bytes of the list.
    pub open spec fn list(self) -> Seq<u8> {
        self.field.members@
    }

    /// Whether the list holds an entry for each device.
    pub open spec fn valid(self) -> bool {
        &&& holds(self.list(), self.member_bytes as int, self.nr_devices as int)
        &&& self.member_bytes == self.field.member_bytes
    }

    /// A copy of the member number `idx`, `member_size` bytes long.
    pub fn get(&self, idx: u32, member_size: usize) -> (r: Option<bch_member>)
        requires
            self.valid(),
        ensures
            match r {
                Some(m) => idx < self.nr_devices && m.bytes@ == read_entry(
                    slot(self.list(), self.member_bytes as int, idx as int),
                    member_size as nat,
                ),
                None => idx >= self.nr_devices,
            },
    {
        if idx >= self.nr_devices {
            return None;
        }
        Some(
            read_slot(&self.field.members, self.member_bytes, idx, self.nr_devices, member_size),
        )
    }

    /// The entry number `idx`, to be changed in place.
    pub fn get_mut(&mut self, idx: u32) -> (r: Option<MemberMut<'_>>)
        requires
            old(self).valid(),
        ensures
            match r {
                Some(e) => {
                    &&& idx < old(self).nr_devices
                    &&& e.bytes@ == entry(*old(self).field, idx as int)
                    &&& final(e.bytes)@.len() == e.bytes@.len() ==> entry_changed(
                        *old(self).field,
                        *final(self).field,
                        idx as int,
                        final(e.bytes)@,
                    )
                },
                None => idx >= old(self).nr_devices && *final(self).field == *old(self).field,
            },
            final(self).member_bytes == old(self).member_bytes,
            final(self).nr_devices == old(self).nr_devices,
            *final(final(self).field) == *final(old(self).field),
    {
        if idx >= self.nr_devices {
            return None;
        }
        proof {
            lemma_room_for_fewer(*self.field, self.nr_devices as nat, (idx + 1) as nat);
        }
        Some(MemberMut { bytes: entry_mut(self.field, idx) })
    }

    /// The size of an entry.
    pub fn member_bytes(&self) -> (r: usize)
        ensures
            r == self.member_bytes,
    {
        self.member_bytes
    }

    /// The number of devices.
    pub fn nr_devices(&self) -> (r: u32)
        ensures
            r == self.nr_devices,
    {
        self.nr_devices
    }

    /// All the members, in order.
    pub fn iter(&self, member_size: usize) -> (r: Vec<bch_member>)
        requires
            self.valid(),
        ensures
            bytes_of(r@) == read_all(
                self.list(),
                self.member_bytes as int,
                self.nr_devices as int,
                member_size as nat,
            ),
    {
        read_members(&self.field.members, self.member_bytes, self.nr_devices, member_size)
    }
}

/// The member devices, in entries of a fixed size.
pub struct MembersV1<'a> {
    pub field: &'a bch_sb_field_members_v1,
    pub nr_devices: u32,
}

impl<'a> MembersV1<'a> {
    /// Whether the list holds an entry for each device.
    pub open spec fn valid(self) -> bool {
        holds(self.field.members@, BCH_MEMBER_V1_BYTES as int, self.nr_devices as int)
    }

    /// A copy of the member number `idx`, `member_size` bytes long.
    pub fn get(&self, idx: u32, member_size: usize) -> (r: Option<bch_member>)
        requires
            self.valid(),
        ensures
            match r {
                Some(m) => idx < self.nr_devices && m.bytes@ == read_entry(
                    slot(self.field.members@, BCH_MEMBER_V1_BYTES as int, idx as int),
                    member_size as nat,
                ),
                None => idx >= self.nr_devices,
            },
    {
        if idx >= self.nr_devices {
            return None;
        }
        Some(
            read_slot(
                &self.field.members,
                BCH_MEMBER_V1_BYTES,
                idx,
                self.nr_devices,
                member_size,
            ),
        )
    }

    /// The number of devices.
    pub fn nr_devices(&self) -> (r: u32)
        ensures
            r == self.nr_devices,
    {
        self.nr_devices
    }

    /// All the members, in order.
    pub fn iter(&self, member_size: usize) -> (r: Vec<bch_member>)
        requires
            self.valid(),
        ensures
            bytes_of(r@) == read_all(
                self.field.members@,
                BCH_MEMBER_V1_BYTES as int,
                self.nr_devices as int,
                member_size as nat,
            ),
    {
        read_members(&self.field.members, BCH_MEMBER_V1_BYTES, self.nr_devices, member_size)
    }
}

/// The member devices of a superblock, in entries whose size is given.
pub fn members_v2(sb: &bch_sb) -> (r: Option<MembersV2<'_>>)
    ensures
        match r {
            Some(m) => sb.members_v2 == Some(*m.field) && m.member_bytes == m.field.member_bytes
                && m.nr_devices == sb.nr_devices,
            None => sb.members_v2 is None,
        },
{
    match sb_field_get::<bch_sb_field_members_v2>(sb) {
        Some(field) => Some(
            MembersV2 {
                field,
                member_bytes: field.member_bytes as usize,
                nr_devices: sb.nr_devices as u32,
            },
        ),
        None => None,
    }
}

/// The member devices of a superblock, to be changed in place.
pub fn members_v2_mut(disk_sb: &mut bch_sb_handle) -> (r: Option<MembersV2Mut<'_>>)
    ensures
        match r {
            Some(m) => {
                &&& old(disk_sb).sb.members_v2 == Some(*m.field)
                &&& m.member_bytes == m.field.member_bytes
                &&& m.nr_devices == old(disk_sb).sb.nr_devices
                &&& final(disk_sb).sb == bch_sb {
                    members_v2: Some(*final(m.field)),
                    ..old(disk_sb).sb
                }
            },
            None => old(disk_sb).sb.members_v2 is None && *final(disk_sb) == *old(disk_sb),
        },
{
    let nr_devices: u32 = disk_sb.sb.nr_devices as u32;
    match sb_field_get_mut::<bch_sb_field_members_v2>(disk_sb) {
        Some(field) => {
            let member_bytes: usize = field.member_bytes as usize;
            Some(MembersV2Mut { field, member_bytes, nr_devices })
        },
        None => None,
    }
}

/// The member devices of a superblock, in entries of a fixed size.
pub fn members_v1(sb: &bch_sb) -> (r: Option<MembersV1<'_>>)
    ensures
        match r {
            Some(m) => sb.members_v1 == Some(*m.field) && m.nr_devices == sb.nr_devices,
            None => sb.members_v1 is None,
        },
{
    match sb_field_get::<bch_sb_field_members_v1>(sb) {
        Some(field) => Some(MembersV1 { field, nr_devices: sb.nr_devices as u32 }),
        None => None,
    }
}

/// An entry is read back as it was written, and writing one leaves the others alone.
pub proof fn law_member_is_read_back(
    old_f: bch_sb_field_members_v2,
    new_f: bch_sb_field_members_v2,
    nr: nat,
    idx: int,
    e: Seq<u8>,
    other: int,
)
    requires
        has_room(old_f, nr),
        0 <= idx < nr,
        0 <= other < nr,
        e.len() == old_f.member_bytes,
        entry_changed(old_f, new_f, idx, e),
    ensures
        has_room(new_f, nr),
        entry(new_f, idx) == e,
        other != idx ==> entry(new_f, other) == entry(old_f, other),
{
    let size = old_f.member_bytes as int;
    let len = old_f.members@.len() as int;
    lemma_slot_in(size, idx, nr as int, len);
    lemma_slot_in(size, other, nr as int, len);
    assert(new_f.members@.len() == len);
    assert(entry(new_f, idx) == e);
    if other < idx {
        assert(other * size + size <= idx * size) by (nonlinear_arith)
            requires
                other < idx,
                0 <= size,
        ;
        assert(entry(new_f, other) == entry(old_f, other));
    }
    if idx < other {
        assert(idx * size + size <= other * size) by (nonlinear_arith)
            requires
                idx < other,
                0 <= size,
        ;
        assert(entry(new_f, other) == entry(old_f, other));
    }
}

/// A member that is read from a shorter entry is that entry with zeros behind it; one that is read
/// from a longer entry is its start.
pub proof fn law_short_entries_are_extended_with_zeros(e: Seq<u8>, size: nat)
    ensures
        read_entry(e, size).len() == size,
        e.len() <= size ==> read_entry(e, size) == e + Seq::new((size - e.len()) as nat, |i: int| 0u8),
        e.len() >= size ==> read_entry(e, size) == e.take(size as int),
{
}

/// Where the bit fields of a member's flags lie.
#[derive(Clone, Copy, PartialEq, Eq, Structural, Debug)]
pub struct MemberFlags {
    pub state: Bitmask,
    pub group: Bitmask,
    pub data_allowed: Bitmask,
    pub resize_on_mount: Bitmask,
    pub rotational_set: Bitmask,
    pub freespace_initialized: Bitmask,
}

/// The word of flags of a member.
pub open spec fn member_flags(bytes: Seq<u8>) -> u64 {
    bytes::le_value(bytes.subrange(MEMBER_FLAGS_AT as int, MEMBER_FLAGS_AT + 8)) as u64
}

/// The bytes of a member with the word of flags set.
pub open spec fn with_member_flags(bytes: Seq<u8>, flags: u64) -> Seq<u8> {
    bytes.take(MEMBER_FLAGS_AT as int) + bytes::le_bytes(flags as nat, 8) + bytes.skip(
        MEMBER_FLAGS_AT + 8,
    )
}

/// The bytes of a member with the bit field `at` of its flags set to `v`.
pub open spec fn with_member_flag(bytes: Seq<u8>, at: Bitmask, v: u64) -> Seq<u8> {
    with_member_flags(bytes, bitmask::field_set(member_flags(bytes), at.offset, at.bits, v))
}

/// The bit field `at` of the flags of a member.
pub open spec fn member_flag(bytes: Seq<u8>, at: Bitmask) -> u64 {
    bitmask::field_of(member_flags(bytes), at.offset, at.bits)
}

fn read_flag(bytes: &[u8], at: Bitmask) -> (r: u64)
    requires
        bytes@.len() >= MEMBER_FLAGS_AT + 8,
        at.valid(),
    ensures
        r == member_flag(bytes@, at),
{
    le64_bitmask_get(from_bytes(bytes, 40, 48), at.offset, at.bits)
}

fn write_flag(bytes: &mut [u8], at: Bitmask, v: u64)
    requires
        old(bytes)@.len() >= MEMBER_FLAGS_AT + 8,
        at.valid(),
    ensures
        final(bytes)@ == with_member_flag(old(bytes)@, at, v),
{
    let mut word: u64 = from_bytes(bytes, 40, 48);
    le64_bitmask_set(&mut word, at.offset, at.bits, v);
    let new = to_bytes(word, 8);
    let ghost before = bytes@;
    let mut i: usize = 0;
    while i < 8
        invariant
            i <= 8,
            new@ == bytes::le_bytes(word as nat, 8),
            new@.len() == 8,
            before.len() >= 48,
            bytes@.len() == before.len(),
            forall|j: int|
                0 <= j < before.len() ==> #[trigger] bytes@[j] == (if 40 <= j < 40 + i {
                    new@[j - 40]
                } else {
                    before[j]
                }),
        decreases 8 - i,
    {
        bytes[40 + i] = new[i];
        i = i + 1;
    }
    assert(bytes@ == with_member_flags(before, word));
}

/// An entry of the member list, to be changed in place.
pub struct MemberMut<'a> {
    pub bytes: &'a mut [u8],
}

impl bch_member {
    /// Whether the member is long enough to hold its flags.
    pub open spec fn has_flags(self) -> bool {
        self.bytes@.len() >= MEMBER_FLAGS_AT + 8
    }

    /// Reads the state.
    pub fn member_state(&self, at: &MemberFlags) -> (r: u64)
        requires
            self.has_flags(),
            at.state.valid(),
        ensures
            r == member_flag(self.bytes@, at.state),
    {
        read_flag(self.bytes.as_slice(), at.state)
    }

    /// Sets the state.
    pub fn set_member_state(&mut self, at: &MemberFlags, v: u64)
        requires
            old(self).has_flags(),
            at.state.valid(),
        ensures
            final(self).bytes@ == with_member_flag(old(self).bytes@, at.state, v),
    {
        write_flag(self.bytes.as_mut_slice(), at.state, v);
    }

    /// Reads the group.
    pub fn member_group(&self, at: &MemberFlags) -> (r: u64)
        requires
            self.has_flags(),
            at.group.valid(),
        ensures
            r == member_flag(self.bytes@, at.group),
    {
        read_flag(self.bytes.as_slice(), at.group)
    }

    /// Sets the group.
    pub fn set_member_group(&mut self, at: &MemberFlags, v: u64)
        requires
            old(self).has_flags(),
            at.group.valid(),
        ensures
            final(self).bytes@ == with_member_flag(old(self).bytes@, at.group, v),
    {
        write_flag(self.bytes.as_mut_slice(), at.group, v);
    }

    /// Reads the types of data that are allowed.
    pub fn member_data_allowed(&self, at: &MemberFlags) -> (r: u64)
        requires
            self.has_flags(),
            at.data_allowed.valid(),
        ensures
            r == member_flag(self.bytes@, at.data_allowed),
    {
        read_flag(self.bytes.as_slice(), at.data_allowed)
    }

    /// Sets the types of data that are allowed.
    pub fn set_member_data_allowed(&mut self, at: &MemberFlags, v: u64)
        requires
            old(self).has_flags(),
            at.data_allowed.valid(),
        ensures
            final(self).bytes@ == with_member_flag(old(self).bytes@, at.data_allowed, v),
    {
        write_flag(self.bytes.as_mut_slice(), at.data_allowed, v);
    }

    /// Reads whether the device is resized when it is mounted.
    pub fn member_resize_on_mount(&self, at: &MemberFlags) -> (r: u64)
        requires
            self.has_flags(),
            at.resize_on_mount.valid(),
        ensures
            r == member_flag(self.bytes@, at.resize_on_mount),
    {
        read_flag(self.bytes.as_slice(), at.resize_on_mount)
    }

    /// Sets whether the device is resized when it is mounted.
    pub fn set_member_resize_on_mount(&mut self, at: &MemberFlags, v: u64)
        requires
            old(self).has_flags(),
            at.resize_on_mount.valid(),
        ensures
            final(self).bytes@ == with_member_flag(old(self).bytes@, at.resize_on_mount, v),
    {
        write_flag(self.bytes.as_mut_slice(), at.resize_on_mount, v);
    }

    /// Reads whether it is known if the device rotates.
    pub fn member_rotational_set(&self, at: &MemberFlags) -> (r: u64)
        requires
            self.has_flags(),
            at.rotational_set.valid(),
        ensures
            r == member_flag(self.bytes@, at.rotational_set),
    {
        read_flag(self.bytes.as_slice(), at.rotational_set)
    }

    /// Sets whether it is known if the device rotates.
    pub fn set_member_rotational_set(&mut self, at: &MemberFlags, v: u64)
        requires
            old(self).has_flags(),
            at.rotational_set.valid(),
        ensures
            final(self).bytes@ == with_member_flag(old(self).bytes@, at.rotational_set, v),
    {
        write_flag(self.bytes.as_mut_slice(), at.rotational_set, v);
    }

    /// Reads whether the free space was initialized.
    pub fn member_freespace_initialized(&self, at: &MemberFlags) -> (r: u64)
        requires
            self.has_flags(),
            at.freespace_initialized.valid(),
        ensures
            r == member_flag(self.bytes@, at.freespace_initialized),
    {
        read_flag(self.bytes.as_slice(), at.freespace_initialized)
    }

    /// Sets whether the free space was initialized.
    pub fn set_member_freespace_initialized(&mut self, at: &MemberFlags, v: u64)
        requires
            old(self).has_flags(),
            at.freespace_initialized.valid(),
        ensures
            final(self).bytes@ == with_member_flag(old(self).bytes@, at.freespace_initialized, v),
    {
        write_flag(self.bytes.as_mut_slice(), at.freespace_initialized, v);
    }
}

impl<'a> MemberMut<'a> {
    /// The bytes of the entry.
    pub open spec fn entry(self) -> Seq<u8> {
        self.bytes@
    }

    /// Whether the entry is long enough to hold its flags.
    pub open spec fn has_flags(self) -> bool {
        self.entry().len() >= MEMBER_FLAGS_AT + 8
    }

    /// Reads the state.
    pub fn member_state(&self, at: &MemberFlags) -> (r: u64)
        requires
            self.has_flags(),
            at.state.valid(),
        ensures
            r == member_flag(self.entry(), at.state),
    {
        read_flag(self.bytes, at.state)
    }

    /// Sets the state.
    pub fn set_member_state(&mut self, at: &MemberFlags, v: u64)
        requires
            old(self).has_flags(),
            at.state.valid(),
        ensures
            final(self).entry() == with_member_flag(old(self).entry(), at.state, v),
            final(final(self).bytes)@ == final(old(self).bytes)@,
    {
        write_flag(self.bytes, at.state, v);
    }

    /// Reads the group.
    pub fn member_group(&self, at: &MemberFlags) -> (r: u64)
        requires
            self.has_flags(),
            at.group.valid(),
        ensures
            r == member_flag(self.entry(), at.group),
    {
        read_flag(self.bytes, at.group)
    }

    /// Sets the group.
    pub fn set_member_group(&mut self, at: &MemberFlags, v: u64)
        requires
            old(self).has_flags(),
            at.group.valid(),
        ensures
            final(self).entry() == with_member_flag(old(self).entry(), at.group, v),
            final(final(self).bytes)@ == final(old(self).bytes)@,
    {
        write_flag(self.bytes, at.group, v);
    }

    /// Reads the types of data that are allowed.
    pub fn member_data_allowed(&self, at: &MemberFlags) -> (r: u64)
        requires
            self.has_flags(),
            at.data_allowed.valid(),
        ensures
            r == member_flag(self.entry(), at.data_allowed),
    {
        read_flag(self.bytes, at.data_allowed)
    }

    /// Sets the types of data that are allowed.
    pub fn set_member_data_allowed(&mut self, at: &MemberFlags, v: u64)
        requires
            old(self).has_flags(),
            at.data_allowed.valid(),
        ensures
            final(self).entry() == with_member_flag(old(self).entry(), at.data_allowed, v),
            final(final(self).bytes)@ == final(old(self).bytes)@,
    {
        write_flag(self.bytes, at.data_allowed, v);
    }

    /// Reads whether the device is resized when it is mounted.
    pub fn member_resize_on_mount(&self, at: &MemberFlags) -> (r: u64)
        requires
            self.has_flags(),
            at.resize_on_mount.valid(),
        ensures
            r == member_flag(self.entry(), at.resize_on_mount),
    {
        read_flag(self.bytes, at.resize_on_mount)
    }

    /// Sets whether the device is resized when it is mounted.
    pub fn set_member_resize_on_mount(&mut self, at: &MemberFlags, v: u64)
        requires
            old(self).has_flags(),
            at.resize_on_mount.valid(),
        ensures
            final(self).entry() == with_member_flag(old(self).entry(), at.resize_on_mount, v),
            final(final(self).bytes)@ == final(old(self).bytes)@,
    {
        write_flag(self.bytes, at.resize_on_mount, v);
    }

    /// Reads whether it is known if the device rotates.
    pub fn member_rotational_set(&self, at: &MemberFlags) -> (r: u64)
        requires
            self.has_flags(),
            at.rotational_set.valid(),
        ensures
            r == member_flag(self.entry(), at.rotational_set),
    {
        read_flag(self.bytes, at.rotational_set)
    }

    /// Sets whether it is known if the device rotates.
    pub fn set_member_rotational_set(&mut self, at: &MemberFlags, v: u64)
        requires
            old(self).has_flags(),
            at.rotational_set.valid(),
        ensures
            final(self).entry() == with_member_flag(old(self).entry(), at.rotational_set, v),
            final(final(self).bytes)@ == final(old(self).bytes)@,
    {
        write_flag(self.bytes, at.rotational_set, v);
    }

    /// Reads whether the free space was initialized.
    pub fn member_freespace_initialized(&self, at: &MemberFlags) -> (r: u64)
        requires
            self.has_flags(),
            at.freespace_initialized.valid(),
        ensures
            r == member_flag(self.entry(), at.freespace_initialized),
    {
        read_flag(self.bytes, at.freespace_initialized)
    }

    /// Sets whether the free space was initialized.
    pub fn set_member_freespace_initialized(&mut self, at: &MemberFlags, v: u64)
        requires
            old(self).has_flags(),
            at.freespace_initialized.valid(),
        ensures
            final(self).entry() == with_member_flag(old(self).entry(), at.freespace_initialized, v),
            final(final(self).bytes)@ == final(old(self).bytes)@,
    {
        write_flag(self.bytes, at.freespace_initialized, v);
    }
}

/// The flags of a member that are set are read back, and nothing else of it has changed.
pub proof fn law_member_flags_are_read_back(b: Seq<u8>, flags: u64, i: int)
    requires
        b.len() >= MEMBER_FLAGS_AT + 8,
        0 <= i < b.len(),
    ensures
        with_member_flags(b, flags).len() == b.len(),
        member_flags(with_member_flags(b, flags)) == flags,
        !(MEMBER_FLAGS_AT <= i < MEMBER_FLAGS_AT + 8) ==> with_member_flags(b, flags)[i] == b[i],
{
    bytes::lemma_byte_ranges();
    bytes::law_value_of_bytes(flags as nat, 8);
    assert(with_member_flags(b, flags).subrange(40, 48) == bytes::le_bytes(flags as nat, 8));
}

/// Entries follow each other without a gap: the byte number `j` of an entry lies that far behind the
/// bytes of all the entries before it.
pub proof fn law_entries_follow_each_other(members: Seq<u8>, size: int, nr: int, idx: int, j: int)
    requires
        holds(members, size, nr),
        0 <= idx < nr,
        0 <= j < size,
    ensures
        slot(members, size, idx).len() == size,
        slot(members, size, idx)[j] == members[idx * size + j],
        holds(members, size, nr) == (nr * size <= members.len()),
{
    lemma_slot_in(size, idx, nr, members.len() as int);
}

/// A member is read byte by byte, as far as its entry goes, and with zeros behind that; all the members
/// are read in order.
pub proof fn law_members_are_read_byte_by_byte(
    members: Seq<u8>,
    size: int,
    nr: int,
    member_size: nat,
    idx: int,
    j: int,
)
    requires
        holds(members, size, nr),
        0 <= size,
        0 <= idx < nr,
        0 <= j < member_size,
    ensures
        read_all(members, size, nr, member_size).len() == nr,
        read_all(members, size, nr, member_size)[idx].len() == member_size,
        read_all(members, size, nr, member_size)[idx][j] == (if j < size {
            members[idx * size + j]
        } else {
            0
        }),
{
    lemma_slot_in(size, idx, nr, members.len() as int);
}

/// The list of member devices of the first version holds entries of 56 bytes.
pub proof fn law_entries_of_the_first_version_are_fixed()
    ensures
        BCH_MEMBER_V1_BYTES == 56,
{
}

/// The flags of a member are the eight bytes from the fortieth on, the lowest first.
pub proof fn law_member_flags_lie_at_the_fortieth_byte(b: Seq<u8>)
    requires
        b.len() >= 48,
    ensures
        member_flags(b) == b[40] + 0x100 * b[41] + 0x1_0000 * b[42] + 0x100_0000 * b[43]
            + 0x1_0000_0000 * b[44] + 0x100_0000_0000 * b[45] + 0x1_0000_0000_0000 * b[46]
            + 0x100_0000_0000_0000 * b[47],
{
    let s = b.subrange(40, 48);
    bytes::lemma_values_of_few_bytes(s);
    assert(s[0] == b[40] && s[1] == b[41] && s[2] == b[42] && s[3] == b[43] && s[4] == b[44] && s[5]
        == b[45] && s[6] == b[46] && s[7] == b[47]);
}

/// A flag that is set is read back, as far as it fits; one that shares no bit with it is kept, and so
/// are the bytes that are no flags.
pub proof fn law_member_flag_is_set_alone(
    b: Seq<u8>,
    at: Bitmask,
    v: u64,
    other: Bitmask,
    i: int,
)
    requires
        b.len() >= 48,
        0 <= i < b.len(),
        at.valid(),
        at.offset + at.bits <= 64,
        other.valid(),
        at.offset + at.bits <= other.offset || other.offset + other.bits <= at.offset,
    ensures
        with_member_flag(b, at, v).len() == b.len(),
        member_flag(with_member_flag(b, at, v), at) == v & bitmask::low_bits(at.bits),
        member_flag(with_member_flag(b, at, v), other) == member_flag(b, other),
        i < 40 || i >= 48 ==> with_member_flag(b, at, v)[i] == b[i],
{
    let flags = member_flags(b);
    let new = bitmask::field_set(flags, at.offset, at.bits, v);
    law_member_flags_are_read_back(b, new, i);
    bitmask::law_get_after_set(flags, at.offset, at.bits, v);
    bitmask::law_set_keeps_other_fields(
        flags,
        at.offset,
        at.bits,
        v,
        other.offset,
        other.bits,
    );
}

/// A changed entry takes up the place of the old one, and nothing else of the list changes.
pub proof fn law_entries_are_changed_in_place(
    old_f: bch_sb_field_members_v2,
    new_f: bch_sb_field_members_v2,
    nr: nat,
    idx: int,
    e: Seq<u8>,
    i: int,
)
    requires
        has_room(old_f, nr),
        0 <= idx < nr,
        e.len() == old_f.member_bytes,
        entry_changed(old_f, new_f, idx, e),
        0 <= i < old_f.members@.len(),
    ensures
        new_f.member_bytes == old_f.member_bytes,
        new_f.u64s == old_f.u64s,
        new_f.members@.len() == old_f.members@.len(),
        new_f.members@[i] == (if idx * old_f.member_bytes <= i < idx * old_f.member_bytes
            + old_f.member_bytes {
            e[i - idx * old_f.member_bytes]
        } else {
            old_f.members@[i]
        }),
{
    lemma_slot_in(old_f.member_bytes as int, idx, nr as int, old_f.members@.len() as int);
}

} // verus!
