use bcachefs::accounting::{
    bch_compression_type, bch_data_type, bch_reconcile_accounting_type, compression_type_from_u8,
    data_type_from_u8, data_type_is_empty, data_type_is_hidden, disk_accounting_type, nr_inodes,
    reconcile_type_from_u8, AccountingEntry, DiskAccountingKind, DiskAccountingPos,
};
use bcachefs::btree::bkey::{bkey, bkey_i, bversion, pos, spos, POS_MIN};
use bcachefs::btree::iter::{btree, BtreeIterFlags, CommitFlags, CommitOpts, Flow};
use bcachefs::btree::types::btree_id;
use bcachefs::buckets::{disk_reservation, DiskReservation};
use bcachefs::dirent::qstr;
use bcachefs::errcode::{
    bch_err_throw, bch_errcode, errptr_to_result, errptr_to_result_c, filled_in, ret_to_result,
    ret_to_result_void, BchError,
};
use bcachefs::fs::{
    bch_dev, bch_member_cpu, bucket_bytes, bucket_to_sector, dev_to_target, writepoint_hashed, BorrowedFs,
    DevAction, DevRef, Fs,
};
use bcachefs::inode::write_cached;
use bcachefs::sb::io::{bch_sb, bch_sb_handle};

#[test]
fn return_values() {
    assert_eq!(ret_to_result(3), Ok(3));
    assert_eq!(ret_to_result(0), Ok(0));
    assert_eq!(ret_to_result(-1).unwrap_err().raw(), 1);
    assert_eq!(ret_to_result(-4095).unwrap_err().raw(), 4095);
    assert_eq!(ret_to_result(-4096), Ok(-4096));
    assert_eq!(ret_to_result(i32::MIN), Ok(i32::MIN));
    assert_eq!(ret_to_result_void(-2), Err(BchError::from_raw(2)));
    assert_eq!(ret_to_result_void(2), Ok(()));
    assert_eq!(filled_in(0, 'x'), Ok('x'));
    assert_eq!(filled_in(-2, 'x'), Err(BchError::from_raw(2)));
}

#[test]
fn addresses() {
    assert_eq!(errptr_to_result(0), Ok(0));
    assert_eq!(errptr_to_result(usize::MAX - 4095), Ok(usize::MAX - 4095));
    assert_eq!(errptr_to_result(usize::MAX - 4094), Err(BchError::from_raw(4095)));
    assert_eq!(errptr_to_result_c(usize::MAX), Err(BchError::from_raw(1)));
}

#[test]
fn error_classes() {
    let e = bch_err_throw(bch_errcode(2105));
    assert_eq!(e.raw(), 2105);
    assert!(e.matches(bch_errcode(2100), |err, class| err == 2105 && class == 2100));
    assert!(!e.matches(bch_errcode(2100), |_, _| false));
    assert!(!BchError::from_raw(0).matches(bch_errcode(2100), |_, _| true));
    assert!(e.matches_errno(4, |err, class| err == 2105 && class == 4));
    assert_eq!(e.errno(|err| if err == -2105 { -4 } else { 0 }), 4);
    assert_eq!(BchError::from_raw(0).errno(|_| -4), 0);
}

fn round_trip(k: DiskAccountingKind) -> String {
    format!("{:?}", k.encode().decode())
}

#[test]
fn accounting_keys_are_encoded() {
    let k = DiskAccountingKind::DevDataType { dev: 3, data_type: bch_data_type(4) };
    assert_eq!(k.encode().as_bpos(), pos(0x0303_0400_0000_0000, 0));
    let k = DiskAccountingKind::Snapshot { id: 0x0102_0304 };
    assert_eq!(k.encode().as_bpos(), pos(0x0504_0302_0100_0000, 0));
    let k = DiskAccountingKind::Inum { inum: 0x0807_0605_0403_0201 };
    assert_eq!(k.encode().as_bpos(), pos(0x0801_0203_0405_0607, 0x0800_0000_0000_0000));
    assert_eq!(DiskAccountingKind::NrInodes.encode().as_bpos(), POS_MIN());
    let mut devs = [0u8; 20];
    for i in 0..16 {
        devs[i] = i as u8 + 1;
    }
    let k = DiskAccountingKind::Replicas { data_type: bch_data_type(4), nr_devs: 16, nr_required: 1, devs };
    assert_eq!(k.encode().as_bpos(), spos(0x0204_1001_0102_0304, 0x0506_0708_090a_0b0c, 0x0d0e_0f10));
}

#[test]
fn accounting_keys_are_decoded_to_what_was_encoded() {
    let mut devs = [0u8; 20];
    devs[0] = 7;
    devs[1] = 9;
    for k in [
        DiskAccountingKind::NrInodes,
        DiskAccountingKind::PersistentReserved { nr_replicas: 2 },
        DiskAccountingKind::Replicas { data_type: bch_data_type(4), nr_devs: 2, nr_required: 1, devs },
        DiskAccountingKind::DevDataType { dev: 3, data_type: bch_data_type(4) },
        DiskAccountingKind::Compression { compression_type: bch_compression_type(3) },
        DiskAccountingKind::Snapshot { id: u32::MAX - 1 },
        DiskAccountingKind::Btree { id: 11 },
        DiskAccountingKind::RebalanceWork,
        DiskAccountingKind::Inum { inum: u64::MAX - 5 },
        DiskAccountingKind::ReconcileWork { work_type: bch_reconcile_accounting_type(1) },
        DiskAccountingKind::DevLeaving { dev: 70000 },
        DiskAccountingKind::Unknown(11),
        DiskAccountingKind::Unknown(255),
    ] {
        assert_eq!(round_trip(k), format!("{:?}", k));
    }
    // What does not fit is lost.
    assert_eq!(round_trip(DiskAccountingKind::Unknown(0)), "NrInodes");
    let k = DiskAccountingKind::Compression { compression_type: bch_compression_type(256 + 3) };
    assert_eq!(round_trip(k), format!("{:?}", DiskAccountingKind::Compression { compression_type: bch_compression_type(3) }));
}

#[test]
fn accounting_types() {
    let p = DiskAccountingKind::Btree { id: 1 }.encode();
    assert_eq!(p.accounting_type(), Some(disk_accounting_type(6)));
    assert_eq!(DiskAccountingKind::Unknown(11).encode().accounting_type(), None);
    assert!(DiskAccountingKind::Snapshot { id: u32::MAX }.encode() < p);
    assert_eq!(DiskAccountingPos::from_bpos(pos(1, 2)).as_bpos(), pos(1, 2));
    assert_eq!(data_type_from_u8(4), bch_data_type(4));
    assert_eq!(compression_type_from_u8(2), bch_compression_type(2));
    assert_eq!(reconcile_type_from_u8(1), bch_reconcile_accounting_type(1));
    let empty: Vec<u32> = (0..11).filter(|t| data_type_is_empty(bch_data_type(*t))).collect();
    assert_eq!(empty, [0, 8, 9]);
    let hidden: Vec<u32> = (0..11).filter(|t| data_type_is_hidden(bch_data_type(*t))).collect();
    assert_eq!(hidden, [1, 2]);
}

#[test]
fn accounting_counters() {
    let e = AccountingEntry { pos: DiskAccountingPos(POS_MIN()), counters: vec![5, 6] };
    assert_eq!((e.counter(0), e.counter(1), e.counter(2)), (5, 6, 0));
    assert_eq!(nr_inodes(|p| if p.as_bpos() == POS_MIN() { 42 } else { 0 }), 42);
}

#[test]
fn reservations() {
    let r = DiskReservation::new();
    assert_eq!(r.sectors(), 0);
    let raw = disk_reservation { sectors: 8, generation: 1, nr_replicas: 2 };
    let none = disk_reservation { sectors: 0, generation: 0, nr_replicas: 0 };
    let mut r = DiskReservation::get(8, 2, 1, |res, sectors, nr, flags| {
        assert_eq!((res, sectors, nr, flags), (none, 8, 2, 1));
        (0, raw)
    }).unwrap();
    assert_eq!(r.sectors(), 8);
    r.as_mut_ptr().sectors = 4;
    assert_eq!(r.as_ptr().sectors, 4);
    assert_eq!(r.add(9, 1, |res, _, _| (-28, res)), Err(BchError::from_raw(28)));
    assert_eq!(r.sectors(), 4);
    let grow = |res: disk_reservation, n, flags| (if flags == 1 { 0 } else { -1 }, disk_reservation { sectors: res.sectors + n, ..res });
    assert_eq!(r.add(12, 1, grow), Ok(()));
    assert_eq!(r.sectors(), 16);
    assert_eq!(DiskReservation::get(8, 2, 1, |res, _, _, _| (-28, res)), Err(BchError::from_raw(28)));
    assert_eq!(DiskReservation::init(2, |nr_replicas| disk_reservation { nr_replicas, ..raw }).as_ptr().nr_replicas, 2);
}

#[test]
fn names_and_inode_keys() {
    let q = qstr(b"file");
    assert_eq!((q.hash, q.len, q.name), (0, 4, &b"file"[..]));
    let k = bkey_i {
        k: bkey { u64s: 6, type_: 1, bversion: bversion { hi: 0, lo: 0 }, size: 0, p: pos(0, 4096) },
        v: vec![1],
    };
    let r = write_cached(k, BtreeIterFlags(32), |c, opts, flags| {
        assert_eq!((c.k.p, c.v), (spos(0, 4096, u32::MAX), vec![1]));
        assert_eq!((opts, flags), (0, 32));
        -5
    });
    assert_eq!(r, Err(BchError::from_raw(5)));
}

#[test]
fn keys_of_a_filesystem() {
    let f = fs();
    let raw = disk_reservation { sectors: 8, generation: 1, nr_replicas: 2 };
    let mut res = DiskReservation::init(2, |_| raw);
    let used = disk_reservation { sectors: 6, ..raw };
    let mut key = bkey_i {
        k: bkey { u64s: 6, type_: 1, bversion: bversion { hi: 0, lo: 0 }, size: 0, p: pos(3, 4) },
        v: vec![1],
    };
    let opts = CommitOpts::new().flags(CommitFlags(16));
    let r = f.btree_insert(btree_id(1), &mut key, Some(&mut res), opts, BtreeIterFlags(4), |id, k: &bkey_i, res, opts, flags| {
        assert_eq!((id, res, opts, flags), (btree_id(1), Some(raw), 16, 4));
        assert_eq!((k.k.p, &k.v[..]), (pos(3, 4), &[1][..]));
        (0, bkey_i { k: k.k, v: vec![2] }, Some(used))
    });
    assert_eq!(r, Ok(()));
    assert_eq!((res.sectors(), &key.v[..]), (6, &[2][..]));
    let r = f.btree_insert(btree_id(1), &mut key, None, opts, BtreeIterFlags(4), |_, k: &bkey_i, res, _, _| {
        (if res.is_none() { -28 } else { 0 }, bkey_i { k: k.k, v: k.v.clone() }, None)
    });
    assert_eq!(r, Err(BchError::from_raw(28)));
    let r = f.btree_delete_range(btree_id(2), pos(1, 2), pos(3, 4), BtreeIterFlags(8), |id, start, end, flags| {
        assert_eq!((id, start, end, flags), (btree_id(2), pos(1, 2), pos(3, 4), 8));
        -1
    });
    assert_eq!(r, Err(BchError::from_raw(1)));
}

fn dev(n: u32) -> bch_dev {
    bch_dev { dev_idx: n, mi: bch_member_cpu { bucket_size: 512 } }
}

fn fs() -> Fs {
    Fs {
        disk_sb: bch_sb_handle {
            sb: bch_sb {
                magic: [0; 16],
                uuid: [0; 16],
                user_uuid: [0; 16],
                version: 1,
                block_size: 8,
                seq: 9,
                nr_devices: 2,
                flags: [0; 7],
                crypt: None,
                members_v1: None,
                members_v2: None,
            },
        },
        sb_locked: false,
        nr_devices: 2,
        devs: vec![Some(dev(0)), None, Some(dev(2))],
        roots_known: vec![Some(btree { flags: 1 }), None],
        roots_extra: vec![None, Some(btree { flags: 2 })],
        loglevel: 0,
    }
}

#[test]
fn filesystem() {
    let mut f = fs();
    assert_eq!(f.sb().seq, 9);
    assert_eq!(f.throw::<u8>(bch_errcode(2105)), Err(BchError::from_raw(2105)));
    assert_eq!(f.require(Some(1), bch_errcode(2105)), Ok(1));
    assert_eq!(f.require::<u8>(None, bch_errcode(2105)), Err(BchError::from_raw(2105)));
    assert_eq!(f.ensure(true, bch_errcode(2105)), Ok(()));
    assert_eq!(f.ensure(false, bch_errcode(2105)), Err(BchError::from_raw(2105)));
    assert_eq!(f.btree_id_root(0), Some(&btree { flags: 1 }));
    assert_eq!(f.btree_id_root(1), None);
    assert_eq!(f.btree_id_root(2), None);
    assert_eq!(f.btree_id_root(3), Some(&btree { flags: 2 }));
    assert_eq!(f.btree_id_root(4), None);
    assert_eq!(f.btree_id_nr_alive(), 4);
    assert_eq!(f.nr_devices(), 2);
    assert!(f.dev_exists(0) && !f.dev_exists(1) && !f.dev_exists(2) && !f.dev_exists(3));
    assert_eq!(f.dev_raw(2), Some(dev(2)));
    f.set_loglevel(3);
    f.disk_sb_mut().sb.seq = 10;
    assert_eq!((f.loglevel, f.sb_handle().sb.seq), (3, 10));
    let b = BorrowedFs::new(&f);
    assert_eq!(b.get().loglevel, 3);
    let guard = f.sb_lock();
    assert!(guard.fs.sb_locked);
    guard.unlock();
    assert!(!f.sb_locked);
    let mut d = dev(1);
    DevRef::new(&mut d).as_mut_ptr().mi.bucket_size = 1024;
    assert_eq!(d.mi.bucket_size, 1024);
}

#[test]
fn loop_over_devices() {
    assert_eq!(fs().for_each_online_member(), DevAction::Next);
    assert_eq!(Fs::online_member_found(true), DevAction::Visit);
    assert_eq!(Fs::online_member_found(false), DevAction::Finish);
    assert_eq!(Fs::online_member_visited(Flow::Continue), DevAction::Next);
    assert_eq!(Fs::online_member_visited(Flow::Break), DevAction::PutAndFinish);
}

#[test]
fn arithmetic_of_devices() {
    assert_eq!(bucket_to_sector(&dev(0), 3), 1536);
    assert_eq!(bucket_to_sector(&dev(0), 4) - bucket_to_sector(&dev(0), 3), 512);
    assert_eq!(bucket_bytes(&dev(0)), 262144);
    assert_eq!(writepoint_hashed(6).v, 7);
    assert_eq!(writepoint_hashed(7).v, 7);
    assert_eq!(dev_to_target(0), 1);
    assert_eq!(dev_to_target(0x1_0005), 6);
}
