//! Superblocks and their fields.
use crate::sb::members;
use crate::sb::members::{MemberMut, MembersV1, MembersV2, MembersV2Mut};
use crate::util::bitmask;
use crate::util::bitmask::{le64_bitmask_get, le64_bitmask_set, Bitmask};
use crate::util::bytes;
use crate::util::bytes::from_bytes;
use vstd::prelude::*;

verus! {

/// How many words of flags a superblock has.
pub const NR_FLAG_WORDS: usize = 7;

/// The encryption keys of a filesystem.
#[allow(non_camel_case_types)]
#[derive(Clone, Copy, PartialEq, Eq, Structural, Debug)]
pub struct bch_sb_field_crypt {
    /// The size of the field in the superblock, in 64 bit words.
    pub u64s: u32,
    pub flags: u64,
    pub kdf_flags: u64,
}

/// The member devices, in entries of a fixed size.
#[allow(non_camel_case_types)]
pub struct bch_sb_field_members_v1 {
    /// The size of the field in the superblock, in 64 bit words.
    pub u64s: u32,
    pub members: Vec<u8>,
}

/// The member devices, in entries whose size is given.
#[allow(non_camel_case_types)]
pub struct bch_sb_field_members_v2 {
    /// The size of the field in the superblock, in 64 bit words.
    pub u64s: u32,
    /// The size of an entry.
    pub member_bytes: u16,
    pub members: Vec<u8>,
}

/// A superblock. Numbers are in the order of bytes of the machine.
#[allow(non_camel_case_types)]
pub struct bch_sb {
    pub magic: [u8; 16],
    /// The UUID that the filesystem knows itself by.
    pub uuid: [u8; 16],
    /// The UUID that users see.
    pub user_uuid: [u8; 16],
    pub version: u16,
    pub block_size: u16,
    pub seq: u64,
    pub nr_devices: u8,
    pub flags: [u64; 7],
    pub crypt: Option<bch_sb_field_crypt>,
    pub members_v1: Option<bch_sb_field_members_v1>,
    pub members_v2: Option<bch_sb_field_members_v2>,
}

/// A superblock with what is needed to write it.
#[allow(non_camel_case_types)]
pub struct bch_sb_handle {
    pub sb: bch_sb,
}

/// A key of a stream cipher, as four 32 bit words.
#[allow(non_camel_case_types)]
#[derive(Clone, Copy, PartialEq, Eq, Debug)]
pub struct nonce {
    pub d: [u32; 4],
}

/// Where the bit fields of a superblock's flags lie, each within the word that holds it.
#[derive(Clone, Copy, PartialEq, Eq, Structural, Debug)]
pub struct SbFlags {
    pub initialized: Bitmask,
    pub clean: Bitmask,
    pub csum_type: Bitmask,
    pub btree_node_size: Bitmask,
    pub encryption_type: Bitmask,
    pub meta_replicas_req: Bitmask,
    pub data_replicas_req: Bitmask,
    pub promote_target: Bitmask,
    pub foreground_target: Bitmask,
    pub background_target: Bitmask,
    pub metadata_target: Bitmask,
    pub multi_device: Bitmask,
    pub version_incompat_allowed: Bitmask,
    pub extent_bp_shift: Bitmask,
}

/// `a == b`, byte by byte.
fn same_bytes(a: &[u8; 16], b: &[u8; 16]) -> (r: bool)
    ensures
        r == (a@ == b@),
{
    let mut i: usize = 0;
    while i < 16
        invariant
            i <= 16,
            forall|j: int| 0 <= j < i ==> a@[j] == b@[j],
        decreases 16 - i,
    {
        if a[i] != b[i] {
            return false;
        }
        i = i + 1;
    }
    assert(a@ == b@);
    true
}

impl PartialEq for bch_sb {
    fn eq(&self, other: &Self) -> (r: bool) {
        same_bytes(&self.magic, &other.magic) && same_bytes(&self.user_uuid, &other.user_uuid)
            && self.block_size == other.block_size && self.version == other.version && same_bytes(
            &self.uuid,
            &other.uuid,
        ) && self.seq == other.seq
    }
}

impl vstd::std_specs::cmp::PartialEqSpecImpl for bch_sb {
    open spec fn obeys_eq_spec() -> bool {
        true
    }

    open spec fn eq_spec(&self, other: &Self) -> bool {
        &&& self.magic@ == other.magic@
        &&& self.user_uuid@ == other.user_uuid@
        &&& self.block_size == other.block_size
        &&& self.version == other.version
        &&& self.uuid@ == other.uuid@
        &&& self.seq == other.seq
    }
}

/// A type of superblock fields.
pub trait SbField: Sized {
    /// The size of the field in a superblock, in 64 bit words.
    spec fn size(self) -> u32;

    /// The field of this type in a superblock.
    spec fn field_in(sb: bch_sb) -> Option<Self>;

    /// The superblock with a field of this type in place of what it had.
    spec fn put_in(sb: bch_sb, field: Option<Self>) -> bch_sb;

    /// What is put in a superblock is found there, and putting back what is there changes nothing.
    proof fn lemma_put(sb: bch_sb, field: Option<Self>)
        ensures
            Self::field_in(Self::put_in(sb, field)) == field,
            Self::put_in(sb, Self::field_in(sb)) == sb,
    ;

    /// The field of this type in a superblock.
    fn get(sb: &bch_sb) -> (r: Option<&Self>)
        ensures
            match r {
                Some(f) => Self::field_in(*sb) == Some(*f),
                None => Self::field_in(*sb) is None,
            },
    ;

    /// The field of this type in a superblock, to be changed in place.
    fn get_mut(sb: &mut bch_sb) -> (r: Option<&mut Self>)
        ensures
            match r {
                Some(f) => Self::field_in(*old(sb)) == Some(*f) && *final(sb) == Self::put_in(
                    *old(sb),
                    Some(*final(f)),
                ),
                None => Self::field_in(*old(sb)) is None && *final(sb) == *old(sb),
            },
    ;

    /// Puts a field of this type in a superblock, or removes the one that is there.
    fn put(sb: &mut bch_sb, field: Option<Self>)
        ensures
            *final(sb) == Self::put_in(*old(sb), field),
    ;
}

impl SbField for bch_sb_field_crypt {
    open spec fn size(self) -> u32 {
        self.u64s
    }

    open spec fn field_in(sb: bch_sb) -> Option<Self> {
        sb.crypt
    }

    open spec fn put_in(sb: bch_sb, field: Option<Self>) -> bch_sb {
        bch_sb { crypt: field, ..sb }
    }

    proof fn lemma_put(sb: bch_sb, field: Option<Self>) {
    }

    fn get(sb: &bch_sb) -> (r: Option<&Self>) {
        match &sb.crypt {
            Some(f) => Some(f),
            None => None,
        }
    }

    fn get_mut(sb: &mut bch_sb) -> (r: Option<&mut Self>) {
        match &mut sb.crypt {
            Some(f) => Some(f),
            None => None,
        }
    }

    fn put(sb: &mut bch_sb, field: Option<Self>) {
        sb.crypt = field;
    }
}

impl SbField for bch_sb_field_members_v1 {
    open spec fn size(self) -> u32 {
        self.u64s
    }

    open spec fn field_in(sb: bch_sb) -> Option<Self> {
        sb.members_v1
    }

    open spec fn put_in(sb: bch_sb, field: Option<Self>) -> bch_sb {
        bch_sb { members_v1: field, ..sb }
    }

    proof fn lemma_put(sb: bch_sb, field: Option<Self>) {
    }

    fn get(sb: &bch_sb) -> (r: Option<&Self>) {
        match &sb.members_v1 {
            Some(f) => Some(f),
            None => None,
        }
    }

    fn get_mut(sb: &mut bch_sb) -> (r: Option<&mut Self>) {
        match &mut sb.members_v1 {
            Some(f) => Some(f),
            None => None,
        }
    }

    fn put(sb: &mut bch_sb, field: Option<Self>) {
        sb.members_v1 = field;
    }
}

impl SbField for bch_sb_field_members_v2 {
    open spec fn size(self) -> u32 {
        self.u64s
    }

    open spec fn field_in(sb: bch_sb) -> Option<Self> {
        sb.members_v2
    }

    open spec fn put_in(sb: bch_sb, field: Option<Self>) -> bch_sb {
        bch_sb { members_v2: field, ..sb }
    }

    proof fn lemma_put(sb: bch_sb, field: Option<Self>) {
    }

    fn get(sb: &bch_sb) -> (r: Option<&Self>) {
        match &sb.members_v2 {
            Some(f) => Some(f),
            None => None,
        }
    }

    fn get_mut(sb: &mut bch_sb) -> (r: Option<&mut Self>) {
        match &mut sb.members_v2 {
            Some(f) => Some(f),
            None => None,
        }
    }

    fn put(sb: &mut bch_sb, field: Option<Self>) {
        sb.members_v2 = field;
    }
}

/// A field of a superblock, where it has one of this type.
pub fn sb_field_get<F: SbField>(sb: &bch_sb) -> (r: Option<&F>)
    ensures
        match r {
            Some(f) => F::field_in(*sb) == Some(*f),
            None => F::field_in(*sb) is None,
        },
{
    F::get(sb)
}

/// A field of a superblock, to be changed in place.
pub fn sb_field_get_mut<F: SbField>(disk_sb: &mut bch_sb_handle) -> (r: Option<&mut F>)
    ensures
        match r {
            Some(f) => F::field_in(old(disk_sb).sb) == Some(*f) && final(disk_sb).sb == F::put_in(
                old(disk_sb).sb,
                Some(*final(f)),
            ),
            None => F::field_in(old(disk_sb).sb) is None && *final(disk_sb) == *old(disk_sb),
        },
{
    F::get_mut(&mut disk_sb.sb)
}

/// Whether what changing the size of a field has come to keeps what such an operation promises:
/// where it has returned the field, the superblock holds it, in at least the size `u64s`, and in
/// exactly that size where `exact` is set.
pub open spec fn makes_room<F: SbField>(o: (Option<F>, bool), u64s: u32, exact: bool) -> bool {
    o.1 ==> (o.0 matches Some(n) && n.size() >= u64s && (exact ==> n.size() == u64s))
}

fn put_field<F: SbField>(disk_sb: &mut bch_sb_handle, field: Option<F>, room: bool) -> (r: Option<
    &mut F,
>)
    requires
        room ==> field is Some,
    ensures
        match r {
            Some(f) => room && field == Some(*f) && final(disk_sb).sb == F::put_in(
                F::put_in(old(disk_sb).sb, field),
                Some(*final(f)),
            ),
            None => !room && final(disk_sb).sb == F::put_in(old(disk_sb).sb, field),
        },
{
    let ghost before = disk_sb.sb;
    let ghost put = field;
    F::put(&mut disk_sb.sb, field);
    proof {
        F::lemma_put(before, put);
    }
    if room {
        F::get_mut(&mut disk_sb.sb)
    } else {
        None
    }
}

/// Resizes a field of a superblock to `u64s` 64 bit words. `resize` is given the superblock and the
/// size; it returns the field that the superblock then holds, and whether there was room for the
/// size.
pub fn sb_field_resize<F: SbField, R: FnOnce(&bch_sb_handle, u32) -> (Option<F>, bool)>(
    disk_sb: &mut bch_sb_handle,
    u64s: u32,
    resize: R,
) -> (r: Option<&mut F>)
    requires
        call_requires(resize, (&*old(disk_sb), u64s)),
        forall|o: (Option<F>, bool)|
            call_ensures(resize, (&*old(disk_sb), u64s), o) ==> makes_room(o, u64s, true),
    ensures
        exists|o: (Option<F>, bool)| #[trigger]
            call_ensures(resize, (&*old(disk_sb), u64s), o) && match r {
                Some(f) => o.1 && o.0 == Some(*f) && f.size() == u64s && final(disk_sb).sb
                    == F::put_in(F::put_in(old(disk_sb).sb, o.0), Some(*final(f))),
                None => !o.1 && final(disk_sb).sb == F::put_in(old(disk_sb).sb, o.0),
            },
{
    let o = resize(disk_sb, u64s);
    assert(makes_room(o, u64s, true));
    put_field(disk_sb, o.0, o.1)
}

/// A field of a superblock of at least `min_u64s` 64 bit words, which is created or grown where need
/// be. `make` is given the superblock and the size; it returns the field that the superblock then
/// holds, and whether there was room for the size.
pub fn sb_field_get_minsize<F: SbField, M: FnOnce(&bch_sb_handle, u32) -> (Option<F>, bool)>(
    disk_sb: &mut bch_sb_handle,
    min_u64s: u32,
    make: M,
) -> (r: Option<&mut F>)
    requires
        call_requires(make, (&*old(disk_sb), min_u64s)),
        forall|o: (Option<F>, bool)|
            call_ensures(make, (&*old(disk_sb), min_u64s), o) ==> makes_room(o, min_u64s, false),
    ensures
        exists|o: (Option<F>, bool)| #[trigger]
            call_ensures(make, (&*old(disk_sb), min_u64s), o) && match r {
                Some(f) => o.1 && o.0 == Some(*f) && f.size() >= min_u64s && final(disk_sb).sb
                    == F::put_in(F::put_in(old(disk_sb).sb, o.0), Some(*final(f))),
                None => !o.1 && final(disk_sb).sb == F::put_in(old(disk_sb).sb, o.0),
            },
{
    let o = make(disk_sb, min_u64s);
    assert(makes_room(o, min_u64s, false));
    put_field(disk_sb, o.0, o.1)
}

/// `uuid::Uuid`: a UUID.
#[verifier::external_type_specification]
#[verifier::external_body]
pub struct ExUuid(uuid::Uuid);

/// The sixteen bytes that a UUID holds.
pub uninterp spec fn uuid_bytes(u: uuid::Uuid) -> Seq<u8>;

/// `uuid::Uuid::from_bytes`: the UUID that holds the given bytes as they are.
#[verifier::external_body]
fn uuid_from_bytes(b: [u8; 16]) -> (r: uuid::Uuid)
    ensures
        uuid_bytes(r) == b@,
{
    uuid::Uuid::from_bytes(b)
}

impl bch_sb {
    /// A field of the superblock, where it has one of this type.
    pub fn field<F: SbField>(&self) -> (r: Option<&F>)
        ensures
            match r {
                Some(f) => F::field_in(*self) == Some(*f),
                None => F::field_in(*self) is None,
            },
    {
        sb_field_get(self)
    }

    /// The encryption keys, where there are any.
    pub fn crypt(&self) -> (r: Option<&bch_sb_field_crypt>)
        ensures
            match r {
                Some(f) => self.crypt == Some(*f),
                None => self.crypt is None,
            },
    {
        self.field::<bch_sb_field_crypt>()
    }

    /// The UUID that users see.
    pub fn uuid(&self) -> (r: uuid::Uuid)
        ensures
            uuid_bytes(r) == self.user_uuid@,
    {
        uuid_from_bytes(self.user_uuid)
    }

    /// The nonce that the superblock is encrypted with: the first eight bytes of its UUID, as two
    /// words, behind two words of zero.
    pub fn nonce(&self) -> (r: nonce)
        ensures
            r.d@ == seq![
                0u32,
                0u32,
                bytes::le_value(self.uuid@.subrange(0, 4)) as u32,
                bytes::le_value(self.uuid@.subrange(4, 8)) as u32,
            ],
    {
        let b: &[u8] = &self.uuid;
        let a: u32 = le32_at(b, 0);
        let c: u32 = le32_at(b, 4);
        let d: [u32; 4] = [0, 0, a, c];
        assert(d@ == seq![0u32, 0u32, a, c]);
        nonce { d }
    }

    /// Reads whether the filesystem was initialized.
    pub fn sb_initialized(&self, at: &SbFlags) -> (r: u64)
        requires
            at.initialized.valid(),
        ensures
            r == bitmask::field_of(self.flags@[0], at.initialized.offset, at.initialized.bits),
    {
        le64_bitmask_get(self.flags[0], at.initialized.offset, at.initialized.bits)
    }

    /// Sets whether the filesystem was initialized.
    pub fn set_sb_initialized(&mut self, at: &SbFlags, v: u64)
        requires
            at.initialized.valid(),
        ensures
            flags_changed(*old(self), *final(self), 0, at.initialized, v),
    {
        let mut word: u64 = self.flags[0];
        le64_bitmask_set(&mut word, at.initialized.offset, at.initialized.bits, v);
        self.flags[0] = word;
    }

    /// Reads whether the filesystem was shut down cleanly.
    pub fn sb_clean(&self, at: &SbFlags) -> (r: u64)
        requires
            at.clean.valid(),
        ensures
            r == bitmask::field_of(self.flags@[0], at.clean.offset, at.clean.bits),
    {
        le64_bitmask_get(self.flags[0], at.clean.offset, at.clean.bits)
    }

    /// Sets whether the filesystem was shut down cleanly.
    pub fn set_sb_clean(&mut self, at: &SbFlags, v: u64)
        requires
            at.clean.valid(),
        ensures
            flags_changed(*old(self), *final(self), 0, at.clean, v),
    {
        let mut word: u64 = self.flags[0];
        le64_bitmask_set(&mut word, at.clean.offset, at.clean.bits, v);
        self.flags[0] = word;
    }

    /// Reads the type of checksums.
    pub fn sb_csum_type(&self, at: &SbFlags) -> (r: u64)
        requires
            at.csum_type.valid(),
        ensures
            r == bitmask::field_of(self.flags@[0], at.csum_type.offset, at.csum_type.bits),
    {
        le64_bitmask_get(self.flags[0], at.csum_type.offset, at.csum_type.bits)
    }

    /// Sets the type of checksums.
    pub fn set_sb_csum_type(&mut self, at: &SbFlags, v: u64)
        requires
            at.csum_type.valid(),
        ensures
            flags_changed(*old(self), *final(self), 0, at.csum_type, v),
    {
        let mut word: u64 = self.flags[0];
        le64_bitmask_set(&mut word, at.csum_type.offset, at.csum_type.bits, v);
        self.flags[0] = word;
    }

    /// Reads the size of btree nodes.
    pub fn sb_btree_node_size(&self, at: &SbFlags) -> (r: u64)
        requires
            at.btree_node_size.valid(),
        ensures
            r == bitmask::field_of(
                self.flags@[0],
                at.btree_node_size.offset,
                at.btree_node_size.bits,
            ),
    {
        le64_bitmask_get(self.flags[0], at.btree_node_size.offset, at.btree_node_size.bits)
    }

    /// Sets the size of btree nodes.
    pub fn set_sb_btree_node_size(&mut self, at: &SbFlags, v: u64)
        requires
            at.btree_node_size.valid(),
        ensures
            flags_changed(*old(self), *final(self), 0, at.btree_node_size, v),
    {
        let mut word: u64 = self.flags[0];
        le64_bitmask_set(&mut word, at.btree_node_size.offset, at.btree_node_size.bits, v);
        self.flags[0] = word;
    }

    /// Reads the type of encryption.
    pub fn sb_encryption_type(&self, at: &SbFlags) -> (r: u64)
        requires
            at.encryption_type.valid(),
        ensures
            r == bitmask::field_of(
                self.flags@[1],
                at.encryption_type.offset,
                at.encryption_type.bits,
            ),
    {
        le64_bitmask_get(self.flags[1], at.encryption_type.offset, at.encryption_type.bits)
    }

    /// Sets the type of encryption.
    pub fn set_sb_encryption_type(&mut self, at: &SbFlags, v: u64)
        requires
            at.encryption_type.valid(),
        ensures
            flags_changed(*old(self), *final(self), 1, at.encryption_type, v),
    {
        let mut word: u64 = self.flags[1];
        le64_bitmask_set(&mut word, at.encryption_type.offset, at.encryption_type.bits, v);
        self.flags[1] = word;
    }

    /// Reads the replicas that metadata needs.
    pub fn sb_meta_replicas_req(&self, at: &SbFlags) -> (r: u64)
        requires
            at.meta_replicas_req.valid(),
        ensures
            r == bitmask::field_of(
                self.flags@[1],
                at.meta_replicas_req.offset,
                at.meta_replicas_req.bits,
            ),
    {
        le64_bitmask_get(self.flags[1], at.meta_replicas_req.offset, at.meta_replicas_req.bits)
    }

    /// Sets the replicas that metadata needs.
    pub fn set_sb_meta_replicas_req(&mut self, at: &SbFlags, v: u64)
        requires
            at.meta_replicas_req.valid(),
        ensures
            flags_changed(*old(self), *final(self), 1, at.meta_replicas_req, v),
    {
        let mut word: u64 = self.flags[1];
        le64_bitmask_set(&mut word, at.meta_replicas_req.offset, at.meta_replicas_req.bits, v);
        self.flags[1] = word;
    }

    /// Reads the replicas that data needs.
    pub fn sb_data_replicas_req(&self, at: &SbFlags) -> (r: u64)
        requires
            at.data_replicas_req.valid(),
        ensures
            r == bitmask::field_of(
                self.flags@[1],
                at.data_replicas_req.offset,
                at.data_replicas_req.bits,
            ),
    {
        le64_bitmask_get(self.flags[1], at.data_replicas_req.offset, at.data_replicas_req.bits)
    }

    /// Sets the replicas that data needs.
    pub fn set_sb_data_replicas_req(&mut self, at: &SbFlags, v: u64)
        requires
            at.data_replicas_req.valid(),
        ensures
            flags_changed(*old(self), *final(self), 1, at.data_replicas_req, v),
    {
        let mut word: u64 = self.flags[1];
        le64_bitmask_set(&mut word, at.data_replicas_req.offset, at.data_replicas_req.bits, v);
        self.flags[1] = word;
    }

    /// Reads where data is promoted to.
    pub fn sb_promote_target(&self, at: &SbFlags) -> (r: u64)
        requires
            at.promote_target.valid(),
        ensures
            r == bitmask::field_of(
                self.flags@[1],
                at.promote_target.offset,
                at.promote_target.bits,
            ),
    {
        le64_bitmask_get(self.flags[1], at.promote_target.offset, at.promote_target.bits)
    }

    /// Sets where data is promoted to.
    pub fn set_sb_promote_target(&mut self, at: &SbFlags, v: u64)
        requires
            at.promote_target.valid(),
        ensures
            flags_changed(*old(self), *final(self), 1, at.promote_target, v),
    {
        let mut word: u64 = self.flags[1];
        le64_bitmask_set(&mut word, at.promote_target.offset, at.promote_target.bits, v);
        self.flags[1] = word;
    }

    /// Reads where data is written first.
    pub fn sb_foreground_target(&self, at: &SbFlags) -> (r: u64)
        requires
            at.foreground_target.valid(),
        ensures
            r == bitmask::field_of(
                self.flags@[1],
                at.foreground_target.offset,
                at.foreground_target.bits,
            ),
    {
        le64_bitmask_get(self.flags[1], at.foreground_target.offset, at.foreground_target.bits)
    }

    /// Sets where data is written first.
    pub fn set_sb_foreground_target(&mut self, at: &SbFlags, v: u64)
        requires
            at.foreground_target.valid(),
        ensures
            flags_changed(*old(self), *final(self), 1, at.foreground_target, v),
    {
        let mut word: u64 = self.flags[1];
        le64_bitmask_set(&mut word, at.foreground_target.offset, at.foreground_target.bits, v);
        self.flags[1] = word;
    }

    /// Reads where data is moved later.
    pub fn sb_background_target(&self, at: &SbFlags) -> (r: u64)
        requires
            at.background_target.valid(),
        ensures
            r == bitmask::field_of(
                self.flags@[1],
                at.background_target.offset,
                at.background_target.bits,
            ),
    {
        le64_bitmask_get(self.flags[1], at.background_target.offset, at.background_target.bits)
    }

    /// Sets where data is moved later.
    pub fn set_sb_background_target(&mut self, at: &SbFlags, v: u64)
        requires
            at.background_target.valid(),
        ensures
            flags_changed(*old(self), *final(self), 1, at.background_target, v),
    {
        let mut word: u64 = self.flags[1];
        le64_bitmask_set(&mut word, at.background_target.offset, at.background_target.bits, v);
        self.flags[1] = word;
    }

    /// Reads where metadata is written.
    pub fn sb_metadata_target(&self, at: &SbFlags) -> (r: u64)
        requires
            at.metadata_target.valid(),
        ensures
            r == bitmask::field_of(
                self.flags@[3],
                at.metadata_target.offset,
                at.metadata_target.bits,
            ),
    {
        le64_bitmask_get(self.flags[3], at.metadata_target.offset, at.metadata_target.bits)
    }

    /// Sets where metadata is written.
    pub fn set_sb_metadata_target(&mut self, at: &SbFlags, v: u64)
        requires
            at.metadata_target.valid(),
        ensures
            flags_changed(*old(self), *final(self), 3, at.metadata_target, v),
    {
        let mut word: u64 = self.flags[3];
        le64_bitmask_set(&mut word, at.metadata_target.offset, at.metadata_target.bits, v);
        self.flags[3] = word;
    }

    /// Reads whether there may be more than one device.
    pub fn sb_multi_device(&self, at: &SbFlags) -> (r: u64)
        requires
            at.multi_device.valid(),
        ensures
            r == bitmask::field_of(self.flags@[3], at.multi_device.offset, at.multi_device.bits),
    {
        le64_bitmask_get(self.flags[3], at.multi_device.offset, at.multi_device.bits)
    }

    /// Sets whether there may be more than one device.
    pub fn set_sb_multi_device(&mut self, at: &SbFlags, v: u64)
        requires
            at.multi_device.valid(),
        ensures
            flags_changed(*old(self), *final(self), 3, at.multi_device, v),
    {
        let mut word: u64 = self.flags[3];
        le64_bitmask_set(&mut word, at.multi_device.offset, at.multi_device.bits, v);
        self.flags[3] = word;
    }

    /// Reads the newest incompatible version that is allowed.
    pub fn sb_version_incompat_allowed(&self, at: &SbFlags) -> (r: u64)
        requires
            at.version_incompat_allowed.valid(),
        ensures
            r == bitmask::field_of(
                self.flags@[5],
                at.version_incompat_allowed.offset,
                at.version_incompat_allowed.bits,
            ),
    {
        le64_bitmask_get(
            self.flags[5],
            at.version_incompat_allowed.offset,
            at.version_incompat_allowed.bits,
        )
    }

    /// Sets the newest incompatible version that is allowed.
    pub fn set_sb_version_incompat_allowed(&mut self, at: &SbFlags, v: u64)
        requires
            at.version_incompat_allowed.valid(),
        ensures
            flags_changed(*old(self), *final(self), 5, at.version_incompat_allowed, v),
    {
        let mut word: u64 = self.flags[5];
        le64_bitmask_set(
            &mut word,
            at.version_incompat_allowed.offset,
            at.version_incompat_allowed.bits,
            v,
        );
        self.flags[5] = word;
    }

    /// Reads the shift of extents in backpointers.
    pub fn sb_extent_bp_shift(&self, at: &SbFlags) -> (r: u64)
        requires
            at.extent_bp_shift.valid(),
        ensures
            r == bitmask::field_of(
                self.flags@[6],
                at.extent_bp_shift.offset,
                at.extent_bp_shift.bits,
            ),
    {
        le64_bitmask_get(self.flags[6], at.extent_bp_shift.offset, at.extent_bp_shift.bits)
    }

    /// Sets the shift of extents in backpointers.
    pub fn set_sb_extent_bp_shift(&mut self, at: &SbFlags, v: u64)
        requires
            at.extent_bp_shift.valid(),
        ensures
            flags_changed(*old(self), *final(self), 6, at.extent_bp_shift, v),
    {
        let mut word: u64 = self.flags[6];
        le64_bitmask_set(&mut word, at.extent_bp_shift.offset, at.extent_bp_shift.bits, v);
        self.flags[6] = word;
    }
}

/// Whether `new` is `old` with the value `v` in a bit field of the flag word number `word`.
pub open spec fn flags_changed(
    old_sb: bch_sb,
    new_sb: bch_sb,
    word: int,
    at: Bitmask,
    v: u64,
) -> bool {
    &&& new_sb.flags@ == old_sb.flags@.update(
        word,
        bitmask::field_set(old_sb.flags@[word], at.offset, at.bits, v),
    )
    &&& new_sb == bch_sb { flags: new_sb.flags, ..old_sb }
}

fn le32_at(b: &[u8], at: usize) -> (r: u32)
    requires
        at + 4 <= b@.len(),
    ensures
        r == bytes::le_value(b@.subrange(at as int, at + 4)),
{
    let len: usize = b.len();
    assert(at + 4 <= len);
    proof {
        bytes::law_bytes_of_value(b@.subrange(at as int, at + 4));
        bytes::lemma_byte_ranges();
    }
    from_bytes(b, at, at + 4) as u32
}

impl bch_sb_handle {
    /// The superblock.
    pub fn sb(&self) -> (r: &bch_sb)
        ensures
            *r == self.sb,
    {
        &self.sb
    }

    /// The superblock, to be changed in place.
    pub fn sb_mut(&mut self) -> (r: &mut bch_sb)
        ensures
            *r == old(self).sb,
            final(self).sb == *final(r),
    {
        &mut self.sb
    }

    /// A field of the superblock, where it has one of this type.
    pub fn field<F: SbField>(&self) -> (r: Option<&F>)
        ensures
            match r {
                Some(f) => F::field_in(self.sb) == Some(*f),
                None => F::field_in(self.sb) is None,
            },
    {
        sb_field_get(self.sb())
    }

    /// A field of the superblock, to be changed in place.
    pub fn field_mut<F: SbField>(&mut self) -> (r: Option<&mut F>)
        ensures
            match r {
                Some(f) => F::field_in(old(self).sb) == Some(*f) && final(self).sb == F::put_in(
                    old(self).sb,
                    Some(*final(f)),
                ),
                None => F::field_in(old(self).sb) is None && *final(self) == *old(self),
            },
    {
        sb_field_get_mut(self)
    }

    /// Resizes a field of the superblock to `u64s` 64 bit words: see [`sb_field_resize`].
    pub fn field_resize<F: SbField, R: FnOnce(&bch_sb_handle, u32) -> (Option<F>, bool)>(
        &mut self,
        u64s: u32,
        resize: R,
    ) -> (r: Option<&mut F>)
        requires
            call_requires(resize, (&*old(self), u64s)),
            forall|o: (Option<F>, bool)|
                call_ensures(resize, (&*old(self), u64s), o) ==> makes_room(o, u64s, true),
        ensures
            exists|o: (Option<F>, bool)| #[trigger]
                call_ensures(resize, (&*old(self), u64s), o) && match r {
                    Some(f) => o.1 && o.0 == Some(*f) && f.size() == u64s && final(self).sb
                        == F::put_in(F::put_in(old(self).sb, o.0), Some(*final(f))),
                    None => !o.1 && final(self).sb == F::put_in(old(self).sb, o.0),
                },
    {
        sb_field_resize(self, u64s, resize)
    }

    /// A field of the superblock of at least `min_u64s` 64 bit words, which is created or grown where
    /// need be: see [`sb_field_get_minsize`].
    pub fn field_get_minsize<F: SbField, M: FnOnce(&bch_sb_handle, u32) -> (Option<F>, bool)>(
        &mut self,
        min_u64s: u32,
        make: M,
    ) -> (r: Option<&mut F>)
        requires
            call_requires(make, (&*old(self), min_u64s)),
            forall|o: (Option<F>, bool)|
                call_ensures(make, (&*old(self), min_u64s), o) ==> makes_room(o, min_u64s, false),
        ensures
            exists|o: (Option<F>, bool)| #[trigger]
                call_ensures(make, (&*old(self), min_u64s), o) && match r {
                    Some(f) => o.1 && o.0 == Some(*f) && f.size() >= min_u64s && final(self).sb
                        == F::put_in(F::put_in(old(self).sb, o.0), Some(*final(f))),
                    None => !o.1 && final(self).sb == F::put_in(old(self).sb, o.0),
                },
    {
        sb_field_get_minsize(self, min_u64s, make)
    }

    /// The entry of a member device, to be changed in place.
    pub fn member_mut(&mut self, idx: u32) -> (r: Option<MemberMut<'_>>)
        requires
            idx < old(self).sb.nr_devices ==> (old(self).sb.members_v2 matches Some(f)
                && members::has_room(f, old(self).sb.nr_devices as nat)),
        ensures
            match r {
                None => idx >= old(self).sb.nr_devices && *final(self) == *old(self),
                Some(m) => {
                    &&& idx < old(self).sb.nr_devices
                    &&& m.bytes@ == members::entry(old(self).sb.members_v2->0, idx as int)
                    &&& final(m.bytes)@.len() == m.bytes@.len()
                        ==> final(self).sb.members_v2 is Some
                    &&& final(m.bytes)@.len() == m.bytes@.len() ==> members::entry_changed(
                        old(self).sb.members_v2->0,
                        final(self).sb.members_v2->0,
                        idx as int,
                        final(m.bytes)@,
                    )
                    &&& final(self).sb == bch_sb {
                        members_v2: final(self).sb.members_v2,
                        ..old(self).sb
                    }
                },
            },
    {
        if idx >= self.sb.nr_devices as u32 {
            return None;
        }
        proof {
            members::lemma_room_for_fewer(
                self.sb.members_v2->0,
                self.sb.nr_devices as nat,
                (idx + 1) as nat,
            );
        }
        match &mut self.sb.members_v2 {
            Some(f) => Some(MemberMut { bytes: members::entry_mut(f, idx) }),
            None => None,
        }
    }

    /// The member devices, in entries whose size is given.
    pub fn members_v2(&self) -> (r: Option<MembersV2<'_>>)
        ensures
            match r {
                Some(m) => self.sb.members_v2 == Some(*m.field) && m.member_bytes
                    == m.field.member_bytes && m.nr_devices == self.sb.nr_devices,
                None => self.sb.members_v2 is None,
            },
    {
        members::members_v2(self.sb())
    }

    /// The member devices, in entries whose size is given, to be changed in place.
    pub fn members_v2_mut(&mut self) -> (r: Option<MembersV2Mut<'_>>)
        ensures
            match r {
                Some(m) => {
                    &&& old(self).sb.members_v2 == Some(*m.field)
                    &&& m.member_bytes == m.field.member_bytes
                    &&& m.nr_devices == old(self).sb.nr_devices
                    &&& final(self).sb == bch_sb {
                        members_v2: Some(*final(m.field)),
                        ..old(self).sb
                    }
                },
                None => old(self).sb.members_v2 is None && *final(self) == *old(self),
            },
    {
        members::members_v2_mut(self)
    }

    /// The member devices, in entries of a fixed size.
    pub fn members_v1(&self) -> (r: Option<MembersV1<'_>>)
        ensures
            match r {
                Some(m) => self.sb.members_v1 == Some(*m.field) && m.nr_devices
                    == self.sb.nr_devices,
                None => self.sb.members_v1 is None,
            },
    {
        members::members_v1(self.sb())
    }
}

/// Superblocks are told apart by six of their members alone, and the comparison is an equivalence.
pub proof fn law_superblock_equality(a: bch_sb, b: bch_sb, c: bch_sb)
    ensures
        vstd::std_specs::cmp::PartialEqSpec::eq_spec(&a, &a),
        vstd::std_specs::cmp::PartialEqSpec::eq_spec(&a, &b)
            == vstd::std_specs::cmp::PartialEqSpec::eq_spec(&b, &a),
        vstd::std_specs::cmp::PartialEqSpec::eq_spec(&a, &b)
            && vstd::std_specs::cmp::PartialEqSpec::eq_spec(&b, &c)
            ==> vstd::std_specs::cmp::PartialEqSpec::eq_spec(&a, &c),
{
}

/// A flag of the superblock that is set is read back, and one that shares no bit with it, or lies
/// in another word, is not disturbed.
pub proof fn law_flag_is_read_back(
    old_sb: bch_sb,
    new_sb: bch_sb,
    word: int,
    at: Bitmask,
    v: u64,
    other_word: int,
    other: Bitmask,
)
    requires
        0 <= word < NR_FLAG_WORDS,
        0 <= other_word < NR_FLAG_WORDS,
        at.valid(),
        at.offset + at.bits <= 64,
        other.valid(),
        flags_changed(old_sb, new_sb, word, at, v),
        word != other_word || at.offset + at.bits <= other.offset || other.offset + other.bits
            <= at.offset,
    ensures
        bitmask::field_of(
            new_sb.flags@[word],
            at.offset,
            at.bits) == v & bitmask::low_bits(at.bits,
        ),
        bitmask::field_of(new_sb.flags@[other_word], other.offset, other.bits) == bitmask::field_of(
            old_sb.flags@[other_word],
            other.offset,
            other.bits,
        ),
{
    bitmask::law_get_after_set(old_sb.flags@[word], at.offset, at.bits, v);
    if word == other_word {
        bitmask::law_set_keeps_other_fields(
            old_sb.flags@[word],
            at.offset,
            at.bits,
            v,
            other.offset,
            other.bits,
        );
    }
}

/// A field that was resized is the one that is found, and no other field has changed.
pub proof fn law_resized_field_is_found<F: SbField>(sb: bch_sb, n: F)
    ensures
        F::field_in(F::put_in(sb, Some(n))) == Some(n),
        F::put_in(sb, F::field_in(sb)) == sb,
{
    F::lemma_put(sb, Some(n));
}

/// Two superblocks are taken for the same if and only if they agree in the magic number, both UUIDs, the
/// size of blocks, the version and the sequence number, whatever else they hold.
pub proof fn law_superblocks_agree_in_six_members(a: bch_sb, b: bch_sb)
    ensures
        vstd::std_specs::cmp::PartialEqSpec::eq_spec(&a, &b) == (a.magic@ == b.magic@ && a.uuid@
            == b.uuid@ && a.user_uuid@ == b.user_uuid@ && a.block_size == b.block_size && a.version
            == b.version && a.seq == b.seq),
{
}

/// Setting a flag changes its word alone, and of that its bits alone; everything else of the superblock
/// stays.
pub proof fn law_flags_are_set_in_their_word(
    old_sb: bch_sb,
    new_sb: bch_sb,
    word: int,
    at: Bitmask,
    v: u64,
    w: int,
    i: u32,
)
    requires
        0 <= word < NR_FLAG_WORDS,
        0 <= w < NR_FLAG_WORDS,
        i < 64,
        at.valid(),
        flags_changed(old_sb, new_sb, word, at, v),
    ensures
        w != word ==> new_sb.flags@[w] == old_sb.flags@[w],
        bitmask::bit(new_sb.flags@[word], i) == (if at.offset <= i < at.offset + at.bits {
            bitmask::bit(v, (i - at.offset) as u32)
        } else {
            bitmask::bit(old_sb.flags@[word], i)
        }),
        new_sb.magic == old_sb.magic && new_sb.uuid == old_sb.uuid && new_sb.user_uuid
            == old_sb.user_uuid && new_sb.version == old_sb.version && new_sb.block_size
            == old_sb.block_size && new_sb.seq == old_sb.seq && new_sb.nr_devices
            == old_sb.nr_devices && new_sb.crypt == old_sb.crypt && new_sb.members_v1
            == old_sb.members_v1 && new_sb.members_v2 == old_sb.members_v2,
{
    bitmask::law_set_changes_the_field_alone(old_sb.flags@[word], at.offset, at.bits, v, i);
}

/// Each type of field has its own place in a superblock, and putting one there leaves the others alone.
pub proof fn law_fields_have_their_own_places(
    sb: bch_sb,
    c: Option<bch_sb_field_crypt>,
    v1: Option<bch_sb_field_members_v1>,
    v2: Option<bch_sb_field_members_v2>,
)
    ensures
        bch_sb_field_crypt::field_in(sb) == sb.crypt,
        bch_sb_field_members_v1::field_in(sb) == sb.members_v1,
        bch_sb_field_members_v2::field_in(sb) == sb.members_v2,
        bch_sb_field_crypt::put_in(sb, c) == (bch_sb { crypt: c, ..sb }),
        bch_sb_field_members_v1::put_in(sb, v1) == (bch_sb { members_v1: v1, ..sb }),
        bch_sb_field_members_v2::put_in(sb, v2) == (bch_sb { members_v2: v2, ..sb }),
        c matches Some(f) ==> f.size() == f.u64s,
        v1 matches Some(f) ==> f.size() == f.u64s,
        v2 matches Some(f) ==> f.size() == f.u64s,
{
}

/// An operation that makes room keeps its promise if and only if a field that it says it has made is
/// there, and is as large as was asked for: exactly so, or at least.
pub proof fn law_room_is_as_large_as_asked_for<F: SbField>(f: F, u64s: u32)
    ensures
        makes_room((None::<F>, false), u64s, true) && makes_room((None::<F>, false), u64s, false),
        makes_room((Some(f), false), u64s, true) && makes_room((Some(f), false), u64s, false),
        !makes_room((None::<F>, true), u64s, true) && !makes_room((None::<F>, true), u64s, false),
        makes_room((Some(f), true), u64s, true) == (f.size() == u64s),
        makes_room((Some(f), true), u64s, false) == (f.size() >= u64s),
{
}

} // verus!
