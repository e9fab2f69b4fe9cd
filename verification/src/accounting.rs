//! Disk accounting keys: counters, found by what they count.
use crate::btree::bkey;
use crate::btree::bkey::bpos;
use crate::util::bytes;
use crate::util::bytes::{from_bytes, to_bytes};
use vstd::prelude::*;

verus! {

/// A type of data on disk.
#[allow(non_camel_case_types)]
#[derive(Clone, Copy, PartialEq, Eq, Structural, Debug)]
pub struct bch_data_type(pub u32);

/// A type of compression.
#[allow(non_camel_case_types)]
#[derive(Clone, Copy, PartialEq, Eq, Structural, Debug)]
pub struct bch_compression_type(pub u32);

/// A kind of work that is left to be done on data.
#[allow(non_camel_case_types)]
#[derive(Clone, Copy, PartialEq, Eq, Structural, Debug)]
pub struct bch_reconcile_accounting_type(pub u32);

/// A type of accounting keys.
#[allow(non_camel_case_types)]
#[derive(Clone, Copy, PartialEq, Eq, Structural, Debug)]
pub struct disk_accounting_type(pub u32);

/// Another name of [`bch_data_type`].
#[allow(non_camel_case_types)]
pub type data_type = bch_data_type;

/// Another name of [`bch_compression_type`].
#[allow(non_camel_case_types)]
pub type compression_type = bch_compression_type;

/// Another name of [`bch_reconcile_accounting_type`].
#[allow(non_camel_case_types)]
pub type reconcile_accounting_type = bch_reconcile_accounting_type;

/// The number of inodes.
pub const ACCOUNTING_NR_INODES: u8 = 0;

/// Space reserved in advance, by number of replicas.
pub const ACCOUNTING_PERSISTENT_RESERVED: u8 = 1;

/// Replicated data, by the devices that hold it.
pub const ACCOUNTING_REPLICAS: u8 = 2;

/// Data on a device, by type.
pub const ACCOUNTING_DEV_DATA_TYPE: u8 = 3;

/// Compressed data, by type of compression.
pub const ACCOUNTING_COMPRESSION: u8 = 4;

/// Data in a snapshot.
pub const ACCOUNTING_SNAPSHOT: u8 = 5;

/// Data of a btree.
pub const ACCOUNTING_BTREE: u8 = 6;

/// Data to be rebalanced.
pub const ACCOUNTING_REBALANCE_WORK: u8 = 7;

/// Data of an inode.
pub const ACCOUNTING_INUM: u8 = 8;

/// Data that work is left on.
pub const ACCOUNTING_RECONCILE_WORK: u8 = 9;

/// Data on a device that is leaving.
pub const ACCOUNTING_DEV_LEAVING: u8 = 10;

/// The number of types of accounting keys.
pub const ACCOUNTING_TYPE_NR: u8 = 11;

/// Free space.
pub const DATA_FREE: u32 = 0;

/// Superblocks.
pub const DATA_SB: u32 = 1;

/// Journal entries.
pub const DATA_JOURNAL: u32 = 2;

/// Free space whose generation numbers have to be updated first.
pub const DATA_NEED_GC_GENS: u32 = 8;

/// Free space that has to be discarded first.
pub const DATA_NEED_DISCARD: u32 = 9;

/// The size of a position in bytes, and so the largest size of an accounting key.
pub const BPOS_SIZE: usize = 20;

/// How many devices fit in an accounting key.
pub const MAX_REPLICAS: u8 = 16;

/// The data type with the given number.
pub fn data_type_from_u8(v: u8) -> (r: bch_data_type)
    ensures
        r == bch_data_type(v as u32),
{
    bch_data_type(v as u32)
}

/// The compression type with the given number.
pub fn compression_type_from_u8(v: u8) -> (r: bch_compression_type)
    ensures
        r == bch_compression_type(v as u32),
{
    bch_compression_type(v as u32)
}

/// The kind of work with the given number.
pub fn reconcile_type_from_u8(v: u8) -> (r: bch_reconcile_accounting_type)
    ensures
        r == bch_reconcile_accounting_type(v as u32),
{
    bch_reconcile_accounting_type(v as u32)
}

/// Whether data of this type is none: it does not count as used space.
pub fn data_type_is_empty(t: bch_data_type) -> (r: bool)
    ensures
        r == (t.0 == DATA_FREE || t.0 == DATA_NEED_GC_GENS || t.0 == DATA_NEED_DISCARD),
{
    t.0 == DATA_FREE || t.0 == DATA_NEED_GC_GENS || t.0 == DATA_NEED_DISCARD
}

/// Whether data of this type is internal, and hidden from users.
pub fn data_type_is_hidden(t: bch_data_type) -> (r: bool)
    ensures
        r == (t.0 == DATA_SB || t.0 == DATA_JOURNAL),
{
    t.0 == DATA_SB || t.0 == DATA_JOURNAL
}

/// The bytes of an accounting key: those of a position in the memory of a little-endian machine,
/// the last one first.
pub open spec fn key_bytes(p: bpos) -> Seq<u8> {
    (bytes::le_bytes(p.snapshot as nat, 4) + bytes::le_bytes(p.offset as nat, 8) + bytes::le_bytes(
        p.inode as nat,
        8,
    )).reverse()
}

/// The position whose accounting key has the bytes `raw`.
pub open spec fn key_pos(raw: Seq<u8>) -> bpos {
    let m = raw.reverse();
    bpos {
        snapshot: bytes::le_value(m.subrange(0, 4)) as u32,
        offset: bytes::le_value(m.subrange(4, 12)) as u64,
        inode: bytes::le_value(m.subrange(12, 20)) as u64,
    }
}

/// Every twenty bytes are those of one position, and a position is that of its bytes.
pub proof fn law_key_bytes_and_positions_agree(raw: Seq<u8>, p: bpos)
    requires
        raw.len() == BPOS_SIZE,
    ensures
        key_bytes(key_pos(raw)) == raw,
        key_pos(key_bytes(p)) == p,
        key_bytes(p).len() == BPOS_SIZE,
{
    bytes::lemma_byte_ranges();
    let m = raw.reverse();
    bytes::law_bytes_of_value(m.subrange(0, 4));
    bytes::law_bytes_of_value(m.subrange(4, 12));
    bytes::law_bytes_of_value(m.subrange(12, 20));
    assert(m.subrange(0, 4) + m.subrange(4, 12) + m.subrange(12, 20) == m);
    assert(m.reverse() == raw);

    let a = bytes::le_bytes(p.snapshot as nat, 4);
    let b = bytes::le_bytes(p.offset as nat, 8);
    let c = bytes::le_bytes(p.inode as nat, 8);
    bytes::law_value_of_bytes(p.snapshot as nat, 4);
    bytes::law_value_of_bytes(p.offset as nat, 8);
    bytes::law_value_of_bytes(p.inode as nat, 8);
    let n = (a + b + c).reverse().reverse();
    assert(n == a + b + c);
    assert(n.subrange(0, 4) == a);
    assert(n.subrange(4, 12) == b);
    assert(n.subrange(12, 20) == c);
}

/// A decoded accounting key: what is counted.
#[allow(inconsistent_fields)]
#[derive(Clone, Copy, Debug)]
pub enum DiskAccountingKind {
    /// The number of inodes.
    NrInodes,
    /// Space reserved in advance.
    PersistentReserved { nr_replicas: u8 },
    /// Replicated data. Only the first `nr_devs` of `devs` count, and at most sixteen.
    Replicas { data_type: bch_data_type, nr_devs: u8, nr_required: u8, devs: [u8; 20] },
    /// Data on a device.
    DevDataType { dev: u8, data_type: bch_data_type },
    /// Compressed data.
    Compression { compression_type: bch_compression_type },
    /// Data in a snapshot.
    Snapshot { id: u32 },
    /// Data of a btree.
    Btree { id: u32 },
    /// Data to be rebalanced.
    RebalanceWork,
    /// Data of an inode.
    Inum { inum: u64 },
    /// Data that work is left on.
    ReconcileWork { work_type: bch_reconcile_accounting_type },
    /// Data on a device that is leaving.
    DevLeaving { dev: u32 },
    /// Something that this version does not know.
    Unknown(u8),
}

/// How many devices a key with `nr_devs` of them holds.
pub open spec fn devs_held(nr_devs: u8) -> nat {
    if nr_devs <= MAX_REPLICAS {
        nr_devs as nat
    } else {
        MAX_REPLICAS as nat
    }
}

/// The bytes of a kind: its type, and what belongs to it.
pub open spec fn kind_bytes(k: DiskAccountingKind) -> Seq<u8> {
    match k {
        DiskAccountingKind::NrInodes => seq![ACCOUNTING_NR_INODES],
        DiskAccountingKind::PersistentReserved { nr_replicas } => seq![
            ACCOUNTING_PERSISTENT_RESERVED,
            nr_replicas,
        ],
        DiskAccountingKind::Replicas { data_type, nr_devs, nr_required, devs } => seq![
            ACCOUNTING_REPLICAS,
            (data_type.0 % 256) as u8,
            nr_devs,
            nr_required,
        ] + devs@.take(devs_held(nr_devs) as int),
        DiskAccountingKind::DevDataType { dev, data_type } => seq![
            ACCOUNTING_DEV_DATA_TYPE,
            dev,
            (data_type.0 % 256) as u8,
        ],
        DiskAccountingKind::Compression { compression_type } => seq![
            ACCOUNTING_COMPRESSION,
            (compression_type.0 % 256) as u8,
        ],
        DiskAccountingKind::Snapshot { id } => seq![ACCOUNTING_SNAPSHOT] + bytes::le_bytes(
            id as nat,
            4,
        ),
        DiskAccountingKind::Btree { id } => seq![ACCOUNTING_BTREE] + bytes::le_bytes(id as nat, 4),
        DiskAccountingKind::RebalanceWork => seq![ACCOUNTING_REBALANCE_WORK],
        DiskAccountingKind::Inum { inum } => seq![ACCOUNTING_INUM] + bytes::le_bytes(
            inum as nat,
            8,
        ),
        DiskAccountingKind::ReconcileWork { work_type } => seq![
            ACCOUNTING_RECONCILE_WORK,
            (work_type.0 % 256) as u8,
        ],
        DiskAccountingKind::DevLeaving { dev } => seq![ACCOUNTING_DEV_LEAVING] + bytes::le_bytes(
            dev as nat,
            4,
        ),
        DiskAccountingKind::Unknown(t) => seq![t],
    }
}

/// `s` with zeros after it, to the size of an accounting key.
pub open spec fn padded(s: Seq<u8>) -> Seq<u8> {
    s + Seq::new((BPOS_SIZE - s.len()) as nat, |i: int| 0u8)
}

/// Whether `k` is what the bytes `raw` of an accounting key decode to. What stands in `raw` behind
/// the bytes that belong to the kind is ignored.
pub open spec fn decodes_to(raw: Seq<u8>, k: DiskAccountingKind) -> bool {
    let t = raw[0];
    match k {
        DiskAccountingKind::NrInodes => t == ACCOUNTING_NR_INODES,
        DiskAccountingKind::PersistentReserved { nr_replicas } => t
            == ACCOUNTING_PERSISTENT_RESERVED && nr_replicas == raw[1],
        DiskAccountingKind::Replicas { data_type, nr_devs, nr_required, devs } => {
            &&& t == ACCOUNTING_REPLICAS
            &&& data_type.0 == raw[1]
            &&& nr_devs == raw[2]
            &&& nr_required == raw[3]
            &&& forall|i: int|
                0 <= i < 20 ==> #[trigger] devs@[i] == (if i < devs_held(nr_devs) {
                    raw[4 + i]
                } else {
                    0
                })
        },
        DiskAccountingKind::DevDataType { dev, data_type } => t == ACCOUNTING_DEV_DATA_TYPE && dev
            == raw[1] && data_type.0 == raw[2],
        DiskAccountingKind::Compression { compression_type } => t == ACCOUNTING_COMPRESSION
            && compression_type.0 == raw[1],
        DiskAccountingKind::Snapshot { id } => t == ACCOUNTING_SNAPSHOT && id == bytes::le_value(
            raw.subrange(1, 5),
        ),
        DiskAccountingKind::Btree { id } => t == ACCOUNTING_BTREE && id == bytes::le_value(
            raw.subrange(1, 5),
        ),
        DiskAccountingKind::RebalanceWork => t == ACCOUNTING_REBALANCE_WORK,
        DiskAccountingKind::Inum { inum } => t == ACCOUNTING_INUM && inum == bytes::le_value(
            raw.subrange(1, 9),
        ),
        DiskAccountingKind::ReconcileWork { work_type } => t == ACCOUNTING_RECONCILE_WORK
            && work_type.0 == raw[1],
        DiskAccountingKind::DevLeaving { dev } => t == ACCOUNTING_DEV_LEAVING && dev
            == bytes::le_value(raw.subrange(1, 5)),
        DiskAccountingKind::Unknown(u) => t >= ACCOUNTING_TYPE_NR && u == t,
    }
}

/// A position that encodes an accounting key. Its order is that of the position.
#[derive(Clone, Copy, PartialEq, Eq, PartialOrd, Ord, Structural, Debug)]
pub struct DiskAccountingPos(pub bpos);

/// The type byte of an accounting key: the highest byte of the inode.
pub open spec fn type_of(p: bpos) -> u8 {
    (p.inode / 0x100_0000_0000_0000) as u8
}

impl DiskAccountingPos {
    /// The accounting key at a position.
    pub fn from_bpos(p: bpos) -> (r: Self)
        ensures
            r.0 == p,
    {
        DiskAccountingPos(p)
    }

    /// The position.
    pub fn as_bpos(&self) -> (r: bpos)
        ensures
            r == self.0,
    {
        self.0
    }

    /// Decodes the accounting key.
    pub fn decode(&self) -> (r: DiskAccountingKind)
        ensures
            decodes_to(key_bytes(self.0), r),
    {
        bpos_to_accounting_kind(&self.0)
    }

    fn type_byte(&self) -> (r: u8)
        ensures
            r == type_of(self.0),
    {
        (self.0.inode / 0x100_0000_0000_0000) as u8
    }

    /// The type of the accounting key, where it is known, without decoding the rest.
    pub fn accounting_type(&self) -> (r: Option<disk_accounting_type>)
        ensures
            r == (if type_of(self.0) < ACCOUNTING_TYPE_NR {
                Some(disk_accounting_type(type_of(self.0) as u32))
            } else {
                None
            }),
    {
        let t: u8 = self.type_byte();
        if t < ACCOUNTING_TYPE_NR {
            Some(disk_accounting_type(t as u32))
        } else {
            None
        }
    }
}

fn reversed(v: &Vec<u8>) -> (r: Vec<u8>)
    ensures
        r@ == v@.reverse(),
{
    let mut r: Vec<u8> = Vec::new();
    let mut i: usize = v.len();
    while i > 0
        invariant
            i <= v.len(),
            r@ == v@.reverse().take(v.len() - i),
        decreases i,
    {
        i = i - 1;
        r.push(v[i]);
        assert(v@.reverse().take(v.len() - i) == v@.reverse().take(v.len() - i - 1).push(
            v@[i as int],
        ));
    }
    assert(r@ == v@.reverse());
    r
}

fn append_bytes(v: &mut Vec<u8>, s: &Vec<u8>)
    ensures
        final(v)@ == old(v)@ + s@,
{
    v.extend_from_slice(s.as_slice());
}

fn raw_bytes(p: &bpos) -> (r: Vec<u8>)
    ensures
        r@ == key_bytes(*p),
        r@.len() == BPOS_SIZE,
{
    let mut m = to_bytes(p.snapshot as u64, 4);
    let offset = to_bytes(p.offset, 8);
    let inode = to_bytes(p.inode, 8);
    append_bytes(&mut m, &offset);
    append_bytes(&mut m, &inode);
    reversed(&m)
}

/// Decodes the accounting key at the position `p`.
pub fn bpos_to_accounting_kind(p: &bpos) -> (r: DiskAccountingKind)
    ensures
        decodes_to(key_bytes(*p), r),
{
    let raw = raw_bytes(p);
    let t: u8 = raw[0];
    if t == ACCOUNTING_NR_INODES {
        DiskAccountingKind::NrInodes
    } else if t == ACCOUNTING_PERSISTENT_RESERVED {
        DiskAccountingKind::PersistentReserved { nr_replicas: raw[1] }
    } else if t == ACCOUNTING_REPLICAS {
        let nr_devs: u8 = raw[2];
        let n: usize = if nr_devs <= MAX_REPLICAS {
            nr_devs as usize
        } else {
            MAX_REPLICAS as usize
        };
        let mut devs: [u8; 20] = [0u8;20];
        let mut i: usize = 0;
        while i < n
            invariant
                i <= n <= 16,
                raw@.len() == 20,
                forall|j: int|
                    0 <= j < 20 ==> #[trigger] devs@[j] == (if j < i {
                        raw@[4 + j]
                    } else {
                        0
                    }),
            decreases n - i,
        {
            devs[i] = raw[4 + i];
            i = i + 1;
        }
        DiskAccountingKind::Replicas {
            data_type: data_type_from_u8(raw[1]),
            nr_devs,
            nr_required: raw[3],
            devs,
        }
    } else if t == ACCOUNTING_DEV_DATA_TYPE {
        DiskAccountingKind::DevDataType { dev: raw[1], data_type: data_type_from_u8(raw[2]) }
    } else if t == ACCOUNTING_COMPRESSION {
        DiskAccountingKind::Compression { compression_type: compression_type_from_u8(raw[1]) }
    } else if t == ACCOUNTING_SNAPSHOT {
        DiskAccountingKind::Snapshot { id: read_u32(&raw) }
    } else if t == ACCOUNTING_BTREE {
        DiskAccountingKind::Btree { id: read_u32(&raw) }
    } else if t == ACCOUNTING_REBALANCE_WORK {
        DiskAccountingKind::RebalanceWork
    } else if t == ACCOUNTING_INUM {
        DiskAccountingKind::Inum { inum: from_bytes(raw.as_slice(), 1, 9) }
    } else if t == ACCOUNTING_RECONCILE_WORK {
        DiskAccountingKind::ReconcileWork { work_type: reconcile_type_from_u8(raw[1]) }
    } else if t == ACCOUNTING_DEV_LEAVING {
        DiskAccountingKind::DevLeaving { dev: read_u32(&raw) }
    } else {
        DiskAccountingKind::Unknown(t)
    }
}

fn read_u32(raw: &Vec<u8>) -> (r: u32)
    requires
        raw@.len() == BPOS_SIZE,
    ensures
        r == bytes::le_value(raw@.subrange(1, 5)),
{
    proof {
        bytes::law_bytes_of_value(raw@.subrange(1, 5));
        bytes::lemma_byte_ranges();
    }
    from_bytes(raw.as_slice(), 1, 5) as u32
}

impl DiskAccountingKind {
    /// The bytes that belong to the kind.
    fn own_bytes(&self) -> (r: Vec<u8>)
        ensures
            r@ == kind_bytes(*self),
            r@.len() <= BPOS_SIZE,
    {
        let mut raw: Vec<u8> = Vec::new();
        match *self {
            DiskAccountingKind::NrInodes => {
                raw.push(ACCOUNTING_NR_INODES);
            },
            DiskAccountingKind::PersistentReserved { nr_replicas } => {
                raw.push(ACCOUNTING_PERSISTENT_RESERVED);
                raw.push(nr_replicas);
            },
            DiskAccountingKind::Replicas { data_type, nr_devs, nr_required, devs } => {
                raw.push(ACCOUNTING_REPLICAS);
                raw.push((data_type.0 % 256) as u8);
                raw.push(nr_devs);
                raw.push(nr_required);
                let n: usize = if nr_devs <= MAX_REPLICAS {
                    nr_devs as usize
                } else {
                    MAX_REPLICAS as usize
                };
                let ghost head = raw@;
                let mut i: usize = 0;
                assert(devs@.take(0) == Seq::<u8>::empty());
                while i < n
                    invariant
                        i <= n <= 16,
                        raw@ == head + devs@.take(i as int),
                    decreases n - i,
                {
                    raw.push(devs[i]);
                    assert(devs@.take(i + 1) == devs@.take(i as int).push(devs@[i as int]));
                    i = i + 1;
                }
            },
            DiskAccountingKind::DevDataType { dev, data_type } => {
                raw.push(ACCOUNTING_DEV_DATA_TYPE);
                raw.push(dev);
                raw.push((data_type.0 % 256) as u8);
            },
            DiskAccountingKind::Compression { compression_type } => {
                raw.push(ACCOUNTING_COMPRESSION);
                raw.push((compression_type.0 % 256) as u8);
            },
            DiskAccountingKind::Snapshot { id } => {
                raw.push(ACCOUNTING_SNAPSHOT);
                let b = to_bytes(id as u64, 4);
                append_bytes(&mut raw, &b);
            },
            DiskAccountingKind::Btree { id } => {
                raw.push(ACCOUNTING_BTREE);
                let b = to_bytes(id as u64, 4);
                append_bytes(&mut raw, &b);
            },
            DiskAccountingKind::RebalanceWork => {
                raw.push(ACCOUNTING_REBALANCE_WORK);
            },
            DiskAccountingKind::Inum { inum } => {
                raw.push(ACCOUNTING_INUM);
                let b = to_bytes(inum, 8);
                append_bytes(&mut raw, &b);
            },
            DiskAccountingKind::ReconcileWork { work_type } => {
                raw.push(ACCOUNTING_RECONCILE_WORK);
                raw.push((work_type.0 % 256) as u8);
            },
            DiskAccountingKind::DevLeaving { dev } => {
                raw.push(ACCOUNTING_DEV_LEAVING);
                let b = to_bytes(dev as u64, 4);
                append_bytes(&mut raw, &b);
            },
            DiskAccountingKind::Unknown(t) => {
                raw.push(t);
            },
        }
        assert(raw@ == kind_bytes(*self));
        raw
    }

    /// Encodes the kind in a position.
    pub fn encode(&self) -> (r: DiskAccountingPos)
        ensures
            r.0 == key_pos(padded(kind_bytes(*self))),
            key_bytes(r.0) == padded(kind_bytes(*self)),
    {
        let mut raw = self.own_bytes();
        let ghost own = raw@;
        while raw.len() < 20
            invariant
                own.len() <= raw@.len() <= 20,
                raw@ == own + Seq::new((raw@.len() - own.len()) as nat, |i: int| 0u8),
            decreases 20 - raw.len(),
        {
            raw.push(0);
            assert(raw@ == own + Seq::new((raw@.len() - own.len()) as nat, |i: int| 0u8));
        }
        assert(raw@ == padded(own));
        let m = reversed(&raw);
        proof {
            bytes::lemma_byte_ranges();
            bytes::law_bytes_of_value(m@.subrange(0, 4));
            law_key_bytes_and_positions_agree(raw@, bkey::POS_MIN());
        }
        let snapshot: u32 = from_bytes(m.as_slice(), 0, 4) as u32;
        let offset: u64 = from_bytes(m.as_slice(), 4, 12);
        let inode: u64 = from_bytes(m.as_slice(), 12, 20);
        DiskAccountingPos(bpos { inode, offset, snapshot })
    }
}

/// Whether nothing of the kind is lost when it is encoded: numbers of types fit in a byte, devices
/// that do not count are zero, and what is unknown is not known.
pub open spec fn encodable(k: DiskAccountingKind) -> bool {
    match k {
        DiskAccountingKind::Replicas { data_type, nr_devs, nr_required, devs } => {
            &&& data_type.0 < 256
            &&& forall|i: int| devs_held(nr_devs) <= i < 20 ==> #[trigger] devs@[i] == 0
        },
        DiskAccountingKind::DevDataType { dev, data_type } => data_type.0 < 256,
        DiskAccountingKind::Compression { compression_type } => compression_type.0 < 256,
        DiskAccountingKind::ReconcileWork { work_type } => work_type.0 < 256,
        DiskAccountingKind::Unknown(t) => t >= ACCOUNTING_TYPE_NR,
        _ => true,
    }
}

/// Decoding gives back what was encoded.
pub proof fn law_decode_inverts_encode(k: DiskAccountingKind, r: DiskAccountingKind)
    requires
        encodable(k),
        decodes_to(key_bytes(key_pos(padded(kind_bytes(k)))), r),
    ensures
        r == k,
{
    let own = kind_bytes(k);
    let raw = padded(own);
    lemma_kind_bytes_len(k);
    law_key_bytes_and_positions_agree(raw, bkey::POS_MIN());
    bytes::lemma_byte_ranges();
    assert(raw[0] == own[0]);
    match k {
        DiskAccountingKind::Replicas { data_type, nr_devs, nr_required, devs } => {
            match r {
                DiskAccountingKind::Replicas { data_type: d2, nr_devs: n2, nr_required: q2, devs: v2 } => {
                    assert forall|i: int| 0 <= i < 20 implies devs@[i] == v2@[i] by {
                        if i < devs_held(nr_devs) {
                            assert(raw[4 + i] == own[4 + i]);
                            assert(own[4 + i] == devs@.take(devs_held(nr_devs) as int)[i]);
                        }
                    }
                    assert(devs@ =~= v2@);
                    assert(devs =~= v2);
                },
                _ => {},
            }
        },
        DiskAccountingKind::Snapshot { id } => {
            bytes::law_value_of_bytes(id as nat, 4);
            assert(raw.subrange(1, 5) == bytes::le_bytes(id as nat, 4));
        },
        DiskAccountingKind::Btree { id } => {
            bytes::law_value_of_bytes(id as nat, 4);
            assert(raw.subrange(1, 5) == bytes::le_bytes(id as nat, 4));
        },
        DiskAccountingKind::DevLeaving { dev } => {
            bytes::law_value_of_bytes(dev as nat, 4);
            assert(raw.subrange(1, 5) == bytes::le_bytes(dev as nat, 4));
        },
        DiskAccountingKind::Inum { inum } => {
            bytes::law_value_of_bytes(inum as nat, 8);
            assert(raw.subrange(1, 9) == bytes::le_bytes(inum as nat, 8));
        },
        _ => {},
    }
}

proof fn lemma_kind_bytes_len(k: DiskAccountingKind)
    ensures
        1 <= kind_bytes(k).len() <= BPOS_SIZE,
        padded(kind_bytes(k)).len() == BPOS_SIZE,
{
    match k {
        DiskAccountingKind::Snapshot { id } => bytes::lemma_le_bytes_len(id as nat, 4),
        DiskAccountingKind::Btree { id } => bytes::lemma_le_bytes_len(id as nat, 4),
        DiskAccountingKind::DevLeaving { dev } => bytes::lemma_le_bytes_len(dev as nat, 4),
        DiskAccountingKind::Inum { inum } => bytes::lemma_le_bytes_len(inum as nat, 8),
        _ => {},
    }
}

/// What is decoded can be encoded without loss, and encoding it gives the position back where the
/// bytes that do not belong to the kind are zero.
pub proof fn law_encode_inverts_decode(p: bpos, k: DiskAccountingKind)
    requires
        decodes_to(key_bytes(p), k),
    ensures
        encodable(k),
        kind_bytes(k) == key_bytes(p).take(kind_bytes(k).len() as int),
        (forall|i: int| kind_bytes(k).len() <= i < BPOS_SIZE ==> #[trigger] key_bytes(p)[i] == 0)
            ==> key_pos(padded(kind_bytes(k))) == p,
{
    let raw = key_bytes(p);
    let own = kind_bytes(k);
    lemma_kind_bytes_len(k);
    law_key_bytes_and_positions_agree(padded(own), p);
    match k {
        DiskAccountingKind::Snapshot { id } => {
            bytes::law_bytes_of_value(raw.subrange(1, 5));
            assert(own == seq![raw[0]] + raw.subrange(1, 5));
        },
        DiskAccountingKind::Btree { id } => {
            bytes::law_bytes_of_value(raw.subrange(1, 5));
            assert(own == seq![raw[0]] + raw.subrange(1, 5));
        },
        DiskAccountingKind::DevLeaving { dev } => {
            bytes::law_bytes_of_value(raw.subrange(1, 5));
            assert(own == seq![raw[0]] + raw.subrange(1, 5));
        },
        DiskAccountingKind::Inum { inum } => {
            bytes::law_bytes_of_value(raw.subrange(1, 9));
            assert(own == seq![raw[0]] + raw.subrange(1, 9));
        },
        DiskAccountingKind::Replicas { data_type, nr_devs, nr_required, devs } => {
            let n = devs_held(nr_devs) as int;
            assert forall|i: int| 0 <= i < n implies devs@.take(n)[i] == raw[4 + i] by {
                assert(devs@[i] == raw[4 + i]);
            }
        },
        _ => {},
    }
    assert(own =~= raw.take(own.len() as int));
    if forall|i: int| own.len() <= i < BPOS_SIZE ==> #[trigger] raw[i] == 0 {
        assert forall|i: int| 0 <= i < BPOS_SIZE implies padded(own)[i] == raw[i] by {
            if i < own.len() {
                assert(own[i] == raw.take(own.len() as int)[i]);
            }
        }
        assert(padded(own) =~= raw);
    }
}

proof fn lemma_type_byte(p: bpos)
    ensures
        key_bytes(p)[0] == type_of(p),
{
    let a = bytes::le_bytes(p.snapshot as nat, 4);
    let b = bytes::le_bytes(p.offset as nat, 8);
    let x = p.inode as nat;
    let c = bytes::le_bytes(x, 8);
    bytes::lemma_le_bytes_len(p.snapshot as nat, 4);
    bytes::lemma_le_bytes_len(p.offset as nat, 8);
    bytes::lemma_le_bytes_len(x, 8);
    let m = a + b + c;
    assert(m.reverse()[0] == m[19]);
    assert(m[19] == c[7]);
    reveal_with_fuel(bytes::le_bytes, 9);
    assert(c[7] == ((x / 256 / 256 / 256 / 256 / 256 / 256 / 256) % 256) as u8);
    assert(x / 256 / 256 / 256 / 256 / 256 / 256 / 256 == x / 0x100_0000_0000_0000);
}

/// The type that is read without decoding is the type of what is decoded.
pub proof fn law_type_agrees_with_kind(p: bpos, k: DiskAccountingKind)
    requires
        decodes_to(key_bytes(p), k),
    ensures
        kind_bytes(k)[0] == type_of(p),
        (type_of(p) >= ACCOUNTING_TYPE_NR) == (k is Unknown),
{
    lemma_type_byte(p);
}

/// Accounting keys are sorted by type first.
pub proof fn law_keys_sort_by_type(p: bpos, q: bpos)
    requires
        type_of(p) < type_of(q),
    ensures
        bkey::pos_lt(p, q),
{
    assert(p.inode / 0x100_0000_0000_0000 < q.inode / 0x100_0000_0000_0000);
}

/// The position of the counter of inodes.
pub fn nr_inodes_pos() -> (r: DiskAccountingPos)
    ensures
        decodes_to(key_bytes(r.0), DiskAccountingKind::NrInodes),
        r.0 == bkey::POS_MIN(),
{
    let kind = DiskAccountingKind::NrInodes;
    let r = kind.encode();
    proof {
        let raw = padded(kind_bytes(kind));
        assert(raw == Seq::new(20, |i: int| 0u8));
        let m = raw.reverse();
        lemma_zero_value(m.subrange(0, 4));
        lemma_zero_value(m.subrange(4, 12));
        lemma_zero_value(m.subrange(12, 20));
    }
    r
}

proof fn lemma_zero_value(s: Seq<u8>)
    requires
        forall|i: int| 0 <= i < s.len() ==> #[trigger] s[i] == 0,
    ensures
        bytes::le_value(s) == 0,
    decreases s.len(),
{
    if s.len() > 0 {
        lemma_zero_value(s.skip(1));
    }
}

/// Reads the number of inodes. `mem_read` reads the counter of an accounting key.
pub fn nr_inodes<F: Fn(DiskAccountingPos) -> u64>(mem_read: F) -> (r: u64)
    requires
        forall|p: DiskAccountingPos| call_requires(mem_read, (p,)),
    ensures
        call_ensures(mem_read, (DiskAccountingPos(bkey::POS_MIN()),), r),
{
    let p = nr_inodes_pos();
    mem_read(p)
}

/// An accounting key and its counters.
pub struct AccountingEntry {
    pub pos: DiskAccountingPos,
    pub counters: Vec<u64>,
}

impl AccountingEntry {
    /// The counter number `i`. One that is not there is zero.
    pub fn counter(&self, i: usize) -> (r: u64)
        ensures
            r == (if i < self.counters@.len() {
                self.counters@[i as int]
            } else {
                0
            }),
    {
        if i < self.counters.len() {
            self.counters[i]
        } else {
            0
        }
    }
}

/// The bytes of an accounting key are those of the inode, then of the offset, then of the snapshot,
/// the highest of each first.
pub proof fn law_key_bytes_are_highest_first(p: bpos)
    ensures
        key_bytes(p).len() == 20,
        key_bytes(p)[0] == p.inode / 0x100_0000_0000_0000 % 256,
        key_bytes(p)[1] == p.inode / 0x1_0000_0000_0000 % 256,
        key_bytes(p)[2] == p.inode / 0x100_0000_0000 % 256,
        key_bytes(p)[3] == p.inode / 0x1_0000_0000 % 256,
        key_bytes(p)[4] == p.inode / 0x100_0000 % 256,
        key_bytes(p)[5] == p.inode / 0x1_0000 % 256,
        key_bytes(p)[6] == p.inode / 0x100 % 256,
        key_bytes(p)[7] == p.inode % 256,
        key_bytes(p)[8] == p.offset / 0x100_0000_0000_0000 % 256,
        key_bytes(p)[9] == p.offset / 0x1_0000_0000_0000 % 256,
        key_bytes(p)[10] == p.offset / 0x100_0000_0000 % 256,
        key_bytes(p)[11] == p.offset / 0x1_0000_0000 % 256,
        key_bytes(p)[12] == p.offset / 0x100_0000 % 256,
        key_bytes(p)[13] == p.offset / 0x1_0000 % 256,
        key_bytes(p)[14] == p.offset / 0x100 % 256,
        key_bytes(p)[15] == p.offset % 256,
        key_bytes(p)[16] == p.snapshot / 0x100_0000 % 256,
        key_bytes(p)[17] == p.snapshot / 0x1_0000 % 256,
        key_bytes(p)[18] == p.snapshot / 0x100 % 256,
        key_bytes(p)[19] == p.snapshot % 256,
{
    let a = bytes::le_bytes(p.snapshot as nat, 4);
    let b = bytes::le_bytes(p.offset as nat, 8);
    let c = bytes::le_bytes(p.inode as nat, 8);
    bytes::lemma_few_bytes_of_value(p.snapshot as nat);
    bytes::lemma_few_bytes_of_value(p.offset as nat);
    bytes::lemma_few_bytes_of_value(p.inode as nat);
    let m = a + b + c;
    let r = m.reverse();
    assert(r.len() == 20);
    assert forall|i: int| 0 <= i < 8 implies #[trigger] r[i] == c[7 - i] by {
        assert(r[i] == m[19 - i]);
    }
    assert forall|i: int| 8 <= i < 16 implies #[trigger] r[i] == b[15 - i] by {
        assert(r[i] == m[19 - i]);
    }
    assert forall|i: int| 16 <= i < 20 implies #[trigger] r[i] == a[19 - i] by {
        assert(r[i] == m[19 - i]);
    }
}

proof fn lemma_position_of_bytes(raw: Seq<u8>)
    requires
        raw.len() == 20,
    ensures
        key_pos(raw).inode == raw[7] + 0x100 * raw[6] + 0x1_0000 * raw[5] + 0x100_0000 * raw[4]
            + 0x1_0000_0000 * raw[3] + 0x100_0000_0000 * raw[2] + 0x1_0000_0000_0000 * raw[1]
            + 0x100_0000_0000_0000 * raw[0],
        key_pos(raw).offset == raw[15] + 0x100 * raw[14] + 0x1_0000 * raw[13] + 0x100_0000 * raw[12]
            + 0x1_0000_0000 * raw[11] + 0x100_0000_0000 * raw[10] + 0x1_0000_0000_0000 * raw[9]
            + 0x100_0000_0000_0000 * raw[8],
        key_pos(raw).snapshot == raw[19] + 0x100 * raw[18] + 0x1_0000 * raw[17] + 0x100_0000
            * raw[16],
{
    let m = raw.reverse();
    let a = m.subrange(0, 4);
    let b = m.subrange(4, 12);
    let c = m.subrange(12, 20);
    bytes::lemma_values_of_few_bytes(a);
    bytes::lemma_values_of_few_bytes(b);
    bytes::lemma_values_of_few_bytes(c);
    assert forall|i: int| 0 <= i < 4 implies #[trigger] a[i] == raw[19 - i] by {
        assert(a[i] == m[i]);
    }
    assert forall|i: int| 0 <= i < 8 implies #[trigger] b[i] == raw[15 - i] by {
        assert(b[i] == m[4 + i]);
    }
    assert forall|i: int| 0 <= i < 8 implies #[trigger] c[i] == raw[7 - i] by {
        assert(c[i] == m[12 + i]);
    }
}

/// The position that a kind is encoded in.
pub open spec fn encoded(k: DiskAccountingKind) -> bpos {
    key_pos(padded(kind_bytes(k)))
}

/// A number of four bytes behind the type, the lowest byte first: what it adds to the inode.
pub open spec fn word_behind_type(id: u32) -> int {
    (id % 256) * 0x1_0000_0000_0000 + (id / 256 % 256) * 0x100_0000_0000 + (id / 65536 % 256)
        * 0x1_0000_0000 + (id / 16777216) * 0x100_0000
}

/// Where each kind is encoded: the type is the highest byte of the inode, and what belongs to the
/// kind follows, byte by byte, down from there.
pub proof fn law_kinds_are_laid_out_in_positions(k: DiskAccountingKind)
    ensures
        match k {
            DiskAccountingKind::NrInodes => encoded(k) == (bpos {
                inode: 0,
                offset: 0,
                snapshot: 0,
            }),
            DiskAccountingKind::PersistentReserved { nr_replicas } => encoded(k).inode == 1
                * 0x100_0000_0000_0000 + nr_replicas * 0x1_0000_0000_0000 && encoded(k).offset == 0
                && encoded(k).snapshot == 0,
            DiskAccountingKind::Replicas { data_type, nr_devs, nr_required, devs } => {
                let b = |i: int|
                    if i < nr_devs && i < 16 {
                        devs@[i] as int
                    } else {
                        0
                    };
                &&& encoded(k).inode == 2 * 0x100_0000_0000_0000 + (data_type.0 % 256)
                    * 0x1_0000_0000_0000 + nr_devs * 0x100_0000_0000 + nr_required * 0x1_0000_0000
                    + b(0) * 0x100_0000 + b(1) * 0x1_0000 + b(2) * 0x100 + b(3)
                &&& encoded(k).offset == b(4) * 0x100_0000_0000_0000 + b(5) * 0x1_0000_0000_0000
                    + b(6) * 0x100_0000_0000 + b(7) * 0x1_0000_0000 + b(8) * 0x100_0000 + b(9)
                    * 0x1_0000 + b(10) * 0x100 + b(11)
                &&& encoded(k).snapshot == b(12) * 0x100_0000 + b(13) * 0x1_0000 + b(14) * 0x100
                    + b(15)
            },
            DiskAccountingKind::DevDataType { dev, data_type } => encoded(k).inode == 3
                * 0x100_0000_0000_0000 + dev * 0x1_0000_0000_0000 + (data_type.0 % 256)
                * 0x100_0000_0000 && encoded(k).offset == 0 && encoded(k).snapshot == 0,
            DiskAccountingKind::Compression { compression_type } => encoded(k).inode == 4
                * 0x100_0000_0000_0000 + (compression_type.0 % 256) * 0x1_0000_0000_0000 && encoded(
                k,
            ).offset == 0 && encoded(k).snapshot == 0,
            DiskAccountingKind::Snapshot { id } => encoded(k).inode == 5 * 0x100_0000_0000_0000
                + word_behind_type(id) && encoded(k).offset == 0 && encoded(k).snapshot == 0,
            DiskAccountingKind::Btree { id } => encoded(k).inode == 6 * 0x100_0000_0000_0000
                + word_behind_type(id) && encoded(k).offset == 0 && encoded(k).snapshot == 0,
            DiskAccountingKind::RebalanceWork => encoded(k) == (bpos {
                inode: 0x700_0000_0000_0000,
                offset: 0,
                snapshot: 0,
            }),
            DiskAccountingKind::Inum { inum } => encoded(k).inode == 8 * 0x100_0000_0000_0000 + (inum
                % 256) * 0x1_0000_0000_0000 + (inum / 0x100 % 256) * 0x100_0000_0000 + (inum
                / 0x1_0000 % 256) * 0x1_0000_0000 + (inum / 0x100_0000 % 256) * 0x100_0000 + (inum
                / 0x1_0000_0000 % 256) * 0x1_0000 + (inum / 0x100_0000_0000 % 256) * 0x100 + (inum
                / 0x1_0000_0000_0000 % 256) && encoded(k).offset == (inum / 0x100_0000_0000_0000)
                * 0x100_0000_0000_0000 && encoded(k).snapshot == 0,
            DiskAccountingKind::ReconcileWork { work_type } => encoded(k).inode == 9
                * 0x100_0000_0000_0000 + (work_type.0 % 256) * 0x1_0000_0000_0000 && encoded(
                k,
            ).offset == 0 && encoded(k).snapshot == 0,
            DiskAccountingKind::DevLeaving { dev } => encoded(k).inode == 10 * 0x100_0000_0000_0000
                + word_behind_type(dev) && encoded(k).offset == 0 && encoded(k).snapshot == 0,
            DiskAccountingKind::Unknown(t) => encoded(k).inode == t * 0x100_0000_0000_0000
                && encoded(k).offset == 0 && encoded(k).snapshot == 0,
        },
{
    let own = kind_bytes(k);
    let raw = padded(own);
    lemma_kind_bytes_len(k);
    lemma_position_of_bytes(raw);
    match k {
        DiskAccountingKind::Snapshot { id } => bytes::lemma_few_bytes_of_value(id as nat),
        DiskAccountingKind::Btree { id } => bytes::lemma_few_bytes_of_value(id as nat),
        DiskAccountingKind::DevLeaving { dev } => bytes::lemma_few_bytes_of_value(dev as nat),
        DiskAccountingKind::Inum { inum } => bytes::lemma_few_bytes_of_value(inum as nat),
        DiskAccountingKind::Replicas { data_type, nr_devs, nr_required, devs } => {
            let n = devs_held(nr_devs) as int;
            assert forall|j: int| 4 <= j < 20 implies #[trigger] raw[j] == (if j - 4 < nr_devs && j
                - 4 < 16 {
                devs@[j - 4]
            } else {
                0
            }) by {
                if j - 4 < n {
                    assert(raw[j] == own[j]);
                    assert(own[j] == devs@.take(n)[j - 4]);
                }
            }
        },
        _ => {},
    }
}

/// The byte of a number that `unit` is the value of.
pub open spec fn byte_at(x: u64, unit: int) -> int {
    x as int / unit % 256
}

/// A number of four bytes behind the type, the lowest first, as it is read from the inode.
pub open spec fn word_read(inode: u64) -> int {
    byte_at(inode, 0x1_0000_0000_0000) + byte_at(inode, 0x100_0000_0000) * 0x100 + byte_at(
        inode,
        0x1_0000_0000,
    ) * 0x1_0000 + byte_at(inode, 0x100_0000) * 0x100_0000
}

/// What a position decodes to: the highest byte of the inode tells the kind, and what belongs to the
/// kind follows, byte by byte, down from there. Whatever else the position holds does not count.
pub proof fn law_positions_decode_by_their_bytes(p: bpos, k: DiskAccountingKind)
    requires
        decodes_to(key_bytes(p), k),
    ensures
        ({
            let t = p.inode as int / 0x100_0000_0000_0000;
            let second = byte_at(p.inode, 0x1_0000_0000_0000);
            let third = byte_at(p.inode, 0x100_0000_0000);
            &&& t == 0 ==> k is NrInodes
            &&& t == 1 ==> k == DiskAccountingKind::PersistentReserved { nr_replicas: second as u8 }
            &&& t == 2 ==> (k matches DiskAccountingKind::Replicas {
                data_type,
                nr_devs,
                nr_required,
                devs,
            } && data_type.0 == second && nr_devs == third && nr_required == byte_at(
                p.inode,
                0x1_0000_0000,
            ) && forall|i: int|
                0 <= i < 20 ==> #[trigger] devs@[i] == (if i < nr_devs && i < 16 {
                    key_bytes(p)[4 + i]
                } else {
                    0
                }))
            &&& t == 3 ==> k == DiskAccountingKind::DevDataType {
                dev: second as u8,
                data_type: bch_data_type(third as u32),
            }
            &&& t == 4 ==> k == DiskAccountingKind::Compression {
                compression_type: bch_compression_type(second as u32),
            }
            &&& t == 5 ==> k == DiskAccountingKind::Snapshot { id: word_read(p.inode) as u32 }
            &&& t == 6 ==> k == DiskAccountingKind::Btree { id: word_read(p.inode) as u32 }
            &&& t == 7 ==> k is RebalanceWork
            &&& t == 8 ==> (k matches DiskAccountingKind::Inum { inum } && inum == word_read(p.inode)
                + byte_at(p.inode, 0x1_0000) * 0x1_0000_0000 + byte_at(p.inode, 0x100)
                * 0x100_0000_0000 + byte_at(p.inode, 1) * 0x1_0000_0000_0000 + byte_at(
                p.offset,
                0x100_0000_0000_0000,
            ) * 0x100_0000_0000_0000)
            &&& t == 9 ==> k == DiskAccountingKind::ReconcileWork {
                work_type: bch_reconcile_accounting_type(second as u32),
            }
            &&& t == 10 ==> k == DiskAccountingKind::DevLeaving { dev: word_read(p.inode) as u32 }
            &&& t > 10 ==> k == DiskAccountingKind::Unknown(t as u8)
            &&& word_read(p.inode) <= u32::MAX
        }),
{
    let raw = key_bytes(p);
    law_key_bytes_are_highest_first(p);
    let w = raw.subrange(1, 5);
    let v = raw.subrange(1, 9);
    bytes::lemma_values_of_few_bytes(w);
    bytes::lemma_values_of_few_bytes(v);
    assert(w[0] == raw[1] && w[1] == raw[2] && w[2] == raw[3] && w[3] == raw[4]);
    assert(v[0] == raw[1] && v[1] == raw[2] && v[2] == raw[3] && v[3] == raw[4] && v[4] == raw[5]
        && v[5] == raw[6] && v[6] == raw[7] && v[7] == raw[8]);
}

/// The type of an accounting key is the highest byte of the inode.
pub proof fn law_type_is_the_highest_byte(p: bpos)
    ensures
        type_of(p) == p.inode / 0x100_0000_0000_0000,
        key_bytes(p)[0] == type_of(p),
{
    lemma_type_byte(p);
}

} // verus!
