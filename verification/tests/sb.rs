use bcachefs::sb::io::{
    bch_sb, bch_sb_field_crypt, bch_sb_field_members_v1, bch_sb_field_members_v2, bch_sb_handle, SbFlags,
};
use bcachefs::sb::members::{bch_member, member_state_str, MemberFlags};
use bcachefs::util::bitmask::{le64_bitmask_get, le64_bitmask_set, Bitmask};

fn sb() -> bch_sb {
    let mut uuid = [0u8; 16];
    let mut user_uuid = [0u8; 16];
    for i in 0..16 {
        uuid[i] = i as u8 + 1;
        user_uuid[i] = 0x10 + i as u8;
    }
    bch_sb {
        magic: [7; 16],
        uuid,
        user_uuid,
        version: 1,
        block_size: 8,
        seq: 5,
        nr_devices: 2,
        flags: [0; 7],
        crypt: None,
        members_v1: Some(bch_sb_field_members_v1 { u64s: 15, members: (0..112).collect() }),
        members_v2: Some(bch_sb_field_members_v2 { u64s: 4, member_bytes: 4, members: vec![1, 2, 3, 4, 5, 6, 7, 8, 9] }),
    }
}

fn mask(offset: u32, bits: u32) -> Bitmask {
    Bitmask { offset, bits }
}

fn flags() -> SbFlags {
    SbFlags {
        initialized: mask(0, 1),
        clean: mask(1, 1),
        csum_type: mask(2, 6),
        btree_node_size: mask(12, 16),
        encryption_type: mask(10, 4),
        meta_replicas_req: mask(20, 4),
        data_replicas_req: mask(24, 4),
        promote_target: mask(28, 12),
        foreground_target: mask(40, 12),
        background_target: mask(52, 12),
        metadata_target: mask(16, 12),
        multi_device: mask(34, 1),
        version_incompat_allowed: mask(16, 16),
        extent_bp_shift: mask(0, 16),
    }
}

#[test]
fn bit_fields() {
    assert_eq!(le64_bitmask_get(0xabcd, 4, 8), 0xbc);
    assert_eq!(le64_bitmask_get(0xabcd, 4, 0), 0);
    assert_eq!(le64_bitmask_get(u64::MAX, 60, 12), 0xf);
    let mut w = 0xffff;
    le64_bitmask_set(&mut w, 4, 8, 0x112);
    assert_eq!(w, 0xf12f);
    assert_eq!(le64_bitmask_get(w, 4, 8), 0x12);
    assert_eq!((le64_bitmask_get(w, 0, 4), le64_bitmask_get(w, 12, 4)), (0xf, 0xf));
}

#[test]
fn superblocks_are_compared_by_six_members() {
    let a = sb();
    let mut b = sb();
    b.nr_devices = 9;
    b.flags[0] = 1;
    b.members_v2 = None;
    assert!(a == b);
    b.seq = 6;
    assert!(a != b);
    let mut b = sb();
    b.uuid[15] = 0;
    assert!(a != b);
    let mut b = sb();
    b.user_uuid[0] = 0;
    assert!(a != b);
    let mut b = sb();
    b.magic[3] = 0;
    assert!(a != b);
    let mut b = sb();
    b.version = 2;
    assert!(a != b);
    let mut b = sb();
    b.block_size = 1;
    assert!(a != b);
}

#[test]
fn uuid_and_nonce() {
    assert_eq!(sb().nonce().d, [0, 0, 0x0403_0201, 0x0807_0605]);
    let u = sb().uuid();
    assert_eq!(u.as_bytes(), &sb().user_uuid);
    assert_eq!(u.to_string(), "10111213-1415-1617-1819-1a1b1c1d1e1f");
}

#[test]
fn superblock_flags() {
    let at = flags();
    let mut s = sb();
    s.set_sb_initialized(&at, 1);
    s.set_sb_clean(&at, 1);
    s.set_sb_csum_type(&at, 5);
    s.set_sb_btree_node_size(&at, 512);
    assert_eq!(s.flags[0], 0b11 | 5 << 2 | 512 << 12);
    assert_eq!((s.sb_initialized(&at), s.sb_clean(&at), s.sb_csum_type(&at), s.sb_btree_node_size(&at)), (1, 1, 5, 512));
    s.set_sb_encryption_type(&at, 3);
    s.set_sb_meta_replicas_req(&at, 1);
    s.set_sb_data_replicas_req(&at, 2);
    s.set_sb_promote_target(&at, 4);
    s.set_sb_foreground_target(&at, 5);
    s.set_sb_background_target(&at, 0x1fff);
    assert_eq!(s.flags[1], 3 << 10 | 1 << 20 | 2 << 24 | 4 << 28 | 5 << 40 | 0xfff << 52);
    assert_eq!((s.sb_encryption_type(&at), s.sb_meta_replicas_req(&at), s.sb_data_replicas_req(&at)), (3, 1, 2));
    assert_eq!((s.sb_promote_target(&at), s.sb_foreground_target(&at), s.sb_background_target(&at)), (4, 5, 0xfff));
    s.set_sb_metadata_target(&at, 6);
    s.set_sb_multi_device(&at, 1);
    assert_eq!((s.flags[3], s.sb_metadata_target(&at), s.sb_multi_device(&at)), (6 << 16 | 1 << 34, 6, 1));
    s.set_sb_version_incompat_allowed(&at, 7);
    assert_eq!((s.flags[5], s.sb_version_incompat_allowed(&at)), (7 << 16, 7));
    s.set_sb_extent_bp_shift(&at, 8);
    assert_eq!((s.flags[6], s.sb_extent_bp_shift(&at)), (8, 8));
    assert_eq!((s.flags[2], s.flags[4]), (0, 0));
}

#[test]
fn fields_of_a_superblock() {
    let mut h = bch_sb_handle { sb: sb() };
    assert!(h.sb().crypt().is_none());
    assert!(h.field::<bch_sb_field_crypt>().is_none());
    assert!(h.field_mut::<bch_sb_field_crypt>().is_none());
    assert!(h.field_resize(7, |_, _| (None::<bch_sb_field_crypt>, false)).is_none());
    assert!(h.sb().crypt().is_none());
    let make = |u64s| bch_sb_field_crypt { u64s, flags: 1, kdf_flags: 2 };
    h.field_resize(7, |h, n| (if h.sb.seq == 5 { Some(make(n)) } else { None }, true)).unwrap().flags = 3;
    assert_eq!(h.sb().crypt().unwrap().u64s, 7);
    assert_eq!(h.sb().crypt().unwrap().flags, 3);
    h.field_mut::<bch_sb_field_crypt>().unwrap().kdf_flags = 4;
    assert_eq!(h.sb.field::<bch_sb_field_crypt>(), Some(&bch_sb_field_crypt { u64s: 7, flags: 3, kdf_flags: 4 }));

    // A field that is large enough stays, and one that is not grows.
    let grow = |h: &bch_sb_handle, n| match h.sb.crypt {
        Some(c) if c.u64s >= n => (Some(c), true),
        _ => (Some(make(n)), true),
    };
    assert_eq!(h.field_get_minsize(5, grow).map(|f: &mut bch_sb_field_crypt| (f.u64s, f.flags)), Some((7, 3)));
    assert_eq!(h.field_get_minsize(9, grow).map(|f: &mut bch_sb_field_crypt| (f.u64s, f.flags)), Some((9, 1)));
    assert_eq!(h.field::<bch_sb_field_crypt>().unwrap().u64s, 9);
    // Where there is no room, the field stays as it was.
    let kept = h.sb.crypt;
    assert!(h.field_get_minsize(1000, |h: &bch_sb_handle, _| (h.sb.crypt, false)).is_none());
    assert_eq!(h.sb.crypt, kept);
    assert!(h.field_resize(0, |_, _| (None::<bch_sb_field_crypt>, false)).is_none());
    assert!(h.sb.crypt.is_none());
    assert!(h.members_v2().is_some());
    h.sb_mut().seq = 1;
    assert_eq!(h.sb.seq, 1);
}

#[test]
fn members_are_read() {
    let mut h = bch_sb_handle { sb: sb() };
    let m = h.members_v2().unwrap();
    assert_eq!((m.member_bytes(), m.nr_devices()), (4, 2));
    assert_eq!(m.get(1, 6).unwrap().bytes, [5, 6, 7, 8, 0, 0]);
    assert_eq!(m.get(0, 2).unwrap().bytes, [1, 2]);
    assert!(m.get(2, 6).is_none());
    let all: Vec<Vec<u8>> = m.iter(3).into_iter().map(|m| m.bytes).collect();
    assert_eq!(all, [[1, 2, 3], [5, 6, 7]]);
    let v1 = h.members_v1().unwrap();
    assert_eq!(v1.nr_devices(), 2);
    assert_eq!(v1.get(1, 57).unwrap().bytes, (56u8..112).chain([0]).collect::<Vec<u8>>());
    assert!(v1.get(2, 8).is_none());
    assert_eq!(v1.iter(1).len(), 2);
    h.sb.members_v1 = None;
    assert!(h.members_v1().is_none());
}

#[test]
fn members_are_written() {
    let mut h = bch_sb_handle { sb: sb() };
    {
        let mut m = h.members_v2_mut().unwrap();
        assert_eq!((m.member_bytes(), m.nr_devices()), (4, 2));
        assert!(m.get_mut(2).is_none());
        let e = m.get_mut(1).unwrap();
        assert_eq!(e.bytes, [5, 6, 7, 8]);
        e.bytes[0] = 50;
        assert_eq!(m.get(1, 4).unwrap().bytes, [50, 6, 7, 8]);
        assert!(m.get(2, 4).is_none());
        assert_eq!(m.iter(1).len(), 2);
    }
    h.member_mut(0).unwrap().bytes[3] = 40;
    assert!(h.member_mut(2).is_none());
    assert_eq!(h.sb.members_v2.as_ref().unwrap().members, [1, 2, 3, 40, 50, 6, 7, 8, 9]);
    h.sb.members_v2 = None;
    assert!(h.members_v2().is_none() && h.members_v2_mut().is_none());
}

#[test]
fn member_flags() {
    let at = MemberFlags {
        state: mask(0, 4),
        group: mask(20, 8),
        data_allowed: mask(15, 5),
        resize_on_mount: mask(34, 1),
        rotational_set: mask(33, 1),
        freespace_initialized: mask(30, 1),
    };
    let mut m = bch_member { bytes: (0..60).collect() };
    let before = m.bytes.clone();
    m.bytes[40..48].fill(0);
    m.set_member_state(&at, 2);
    m.set_member_group(&at, 0x1ff);
    m.set_member_data_allowed(&at, 31);
    m.set_member_resize_on_mount(&at, 1);
    m.set_member_rotational_set(&at, 1);
    m.set_member_freespace_initialized(&at, 1);
    assert_eq!((m.member_state(&at), m.member_group(&at), m.member_data_allowed(&at)), (2, 0xff, 31));
    assert_eq!(
        (m.member_resize_on_mount(&at), m.member_rotational_set(&at), m.member_freespace_initialized(&at)),
        (1, 1, 1)
    );
    let word: u64 = 2 | 31 << 15 | 0xff << 20 | 1 << 30 | 1 << 33 | 1 << 34;
    assert_eq!(m.bytes[40..48], word.to_le_bytes());
    assert_eq!((&m.bytes[..40], &m.bytes[48..]), (&before[..40], &before[48..]));
}

#[test]
fn member_flags_are_set_in_place() {
    let at = MemberFlags {
        state: mask(0, 4),
        group: mask(20, 8),
        data_allowed: mask(15, 5),
        resize_on_mount: mask(34, 1),
        rotational_set: mask(33, 1),
        freespace_initialized: mask(30, 1),
    };
    let mut s = sb();
    let before: Vec<u8> = (0..100).map(|i| if (90..98).contains(&i) { 0 } else { i }).collect();
    s.members_v2 = Some(bch_sb_field_members_v2 { u64s: 15, member_bytes: 50, members: before.clone() });
    let mut h = bch_sb_handle { sb: s };
    let mut m = h.member_mut(1).unwrap();
    m.set_member_state(&at, 2);
    m.set_member_group(&at, 0x1ff);
    m.set_member_data_allowed(&at, 31);
    assert_eq!((m.member_state(&at), m.member_group(&at), m.member_data_allowed(&at)), (2, 0xff, 31));
    let mut list = h.members_v2_mut().unwrap();
    let mut m = list.get_mut(1).unwrap();
    m.set_member_resize_on_mount(&at, 1);
    m.set_member_rotational_set(&at, 1);
    m.set_member_freespace_initialized(&at, 3);
    assert_eq!(
        (m.member_resize_on_mount(&at), m.member_rotational_set(&at), m.member_freespace_initialized(&at)),
        (1, 1, 1)
    );
    let word: u64 = 2 | 31 << 15 | 0xff << 20 | 1 << 30 | 1 << 33 | 1 << 34;
    let members = &h.sb.members_v2.as_ref().unwrap().members;
    assert_eq!(members[90..98], word.to_le_bytes());
    assert_eq!((&members[..90], &members[98..]), (&before[..90], &before[98..]));
    assert_eq!(h.members_v2().unwrap().get(1, 60).unwrap().member_group(&at), 0xff);
}

#[test]
fn member_states() {
    let names: Vec<String> = ["rw", "ro", "evacuating", "spare"].iter().map(|s| s.to_string()).collect();
    assert_eq!(member_state_str(&names, 1), "ro");
    assert_eq!(member_state_str(&names, 4), "unknown");
}
