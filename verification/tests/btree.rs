use bcachefs::btree::bbpos::{bbpos, bbpos_range_parse, BbposRange};
use bcachefs::btree::bkey::{
    bch_bkey_type, bkey, bkey_cmp, bkey_eq, bkey_ge, bkey_gt, bkey_i, bkey_le, bkey_lt, bpos, bpos_cmp,
    bpos_ge, bpos_gt, bpos_le, bpos_lt, bpos_max, bpos_min, bpos_successor, bversion, parse_bpos_u32,
    parse_bpos_u64, pos, spos, AsBkeyI, Bkey, BkeySC, POS_MAX, POS_MIN, SPOS_MAX,
};
use bcachefs::btree::types::{btree_id, btree_id_is_alloc, btree_id_str};
use bcachefs::errcode::{bch_errcode, Errcodes};

fn codes() -> Errcodes {
    Errcodes {
        einval_parse_bpos: bch_errcode(2101),
        einval_parse_bbpos: bch_errcode(2102),
        einval_parse_btree_id: bch_errcode(2103),
        einval_parse_bkey_type: bch_errcode(2104),
        transaction_restart: bch_errcode(2105),
        invalid_snapshot_node: bch_errcode(2106),
    }
}

fn names(v: &[&str]) -> Vec<String> {
    v.iter().map(|s| s.to_string()).collect()
}

fn key() -> bkey {
    bkey { u64s: 5, type_: 0, bversion: bversion { hi: 1, lo: 2 }, size: 8, p: spos(1, 20, 3) }
}

#[test]
fn positions_are_ordered() {
    let a = spos(1, 2, 3);
    assert!(bpos_lt(a, spos(1, 2, 4)) && bpos_lt(a, spos(1, 3, 0)) && bpos_lt(a, pos(2, 0)));
    assert!(!bpos_lt(a, a) && bpos_le(a, a) && bpos_ge(a, a) && !bpos_gt(a, a));
    assert_eq!(bpos_cmp(a, spos(1, 2, 4)), -1);
    assert_eq!(bpos_cmp(pos(2, 0), a), 1);
    assert_eq!(bpos_cmp(a, a), 0);
    assert_eq!(bpos_min(a, POS_MIN()), POS_MIN());
    assert_eq!(bpos_max(a, POS_MAX()), POS_MAX());
    assert!(a < SPOS_MAX() && POS_MAX() < SPOS_MAX() && POS_MIN() < a);
    assert_eq!(a.cmp(&spos(1, 2, 4)), std::cmp::Ordering::Less);
    assert_eq!(a.partial_cmp(&a), Some(std::cmp::Ordering::Equal));
}

#[test]
fn key_order_sets_snapshots_aside() {
    let a = spos(1, 2, 3);
    let b = spos(1, 2, 9);
    assert!(bkey_eq(a, b) && bkey_le(a, b) && bkey_ge(a, b) && !bkey_lt(a, b) && !bkey_gt(b, a));
    assert_eq!(bkey_cmp(a, b), 0);
    assert_eq!(bkey_cmp(a, pos(1, 3)), -1);
    assert_eq!(bkey_cmp(pos(2, 0), a), 1);
    assert!(bkey_lt(a, pos(1, 3)) && bkey_gt(pos(2, 0), a));
}

#[test]
fn successors() {
    assert_eq!(bpos_successor(spos(1, 2, 3)), spos(1, 2, 4));
    assert_eq!(bpos_successor(spos(1, 2, u32::MAX)), pos(1, 3));
    assert_eq!(bpos_successor(spos(1, u64::MAX, u32::MAX)), pos(2, 0));
}

#[test]
fn key_members() {
    let mut k = key();
    assert_eq!(k.pos(), spos(1, 20, 3));
    assert_eq!(k.start_offset(), 12);
    assert_eq!(k.start_pos(), spos(1, 12, 3));
    assert!(k.is_deleted() && !k.is_btree_ptr());
    k.type_ = 5;
    assert!(!k.is_deleted() && k.is_btree_ptr());
    k.type_ = 18;
    assert!(k.is_btree_ptr());
    assert_eq!(k.key_type(), bch_bkey_type(18));
    k.set_snapshot(7);
    k.set_version_lo(9);
    k.set_size(3);
    assert_eq!((k.p.snapshot, k.bversion.lo, k.bversion.hi, k.size()), (7, 9, 1, 3));
    k.set_pos(pos(0, 2));
    assert_eq!(k.start_offset(), u64::MAX);
    k.set_range(4, 100, 228, 5);
    assert_eq!((k.p, k.size), (spos(4, 228, 5), 128));
    assert_eq!(k.start_offset(), 100);
    k.set_range(4, 0, 0x1_0000_0007, 5);
    assert_eq!(k.size, 7);
}

#[test]
fn key_references_and_owned_keys() {
    let k = bkey_i { k: key(), v: vec![1, 2] };
    let r = BkeySC::of(&k);
    assert_eq!((r.pos(), r.size(), r.start_offset()), (spos(1, 20, 3), 8, 12));
    assert_eq!(r.start_pos(), spos(1, 12, 3));
    assert!(r.is_deleted() && !r.is_btree_ptr() && r.key_type() == bch_bkey_type(0));
    assert_eq!(r.v, [1, 2]);

    let d: Bkey<bkey_i> = Bkey::default();
    assert_eq!(d.k().u64s, 5);
    let mut b: Bkey<bkey_i> = Bkey::new();
    assert_eq!((b.k().u64s, b.k().p), (5, POS_MIN()));
    b.k_mut().set_pos(pos(3, 4));
    b.raw_mut().v.push(6);
    assert_eq!(b.raw().k.p, pos(3, 4));
    assert_eq!(b.k_i().v, [6]);
    b.k_i_mut().k.size = 1;
    assert_eq!(b.as_bkey().size, 1);
    b.as_bkey_mut().size = 2;
    assert_eq!(b.as_bkey_i().k.size, 2);
    b.as_bkey_i_mut().v.clear();
    assert!(b.k_i().v.is_empty());
}

#[test]
fn numbers_in_positions() {
    let c = codes();
    assert_eq!(parse_bpos_u64("0", &c), Ok(0));
    assert_eq!(parse_bpos_u64("+18446744073709551615", &c), Ok(u64::MAX));
    assert_eq!(parse_bpos_u64("U64_MAX", &c), Ok(u64::MAX));
    assert_eq!(parse_bpos_u64("U32_MAX", &c), Ok(u32::MAX as u64));
    for bad in ["", "+", "-1", " 1", "1 ", "18446744073709551616", "0x1", "1_0", "++1"] {
        assert_eq!(parse_bpos_u64(bad, &c).unwrap_err().raw(), 2101);
    }
    assert_eq!(parse_bpos_u32("U32_MAX", &c), Ok(u32::MAX));
    assert_eq!(parse_bpos_u32("0004294967295", &c), Ok(u32::MAX));
    assert_eq!(parse_bpos_u32("4294967296", &c).unwrap_err().raw(), 2101);
    assert_eq!(parse_bpos_u32("U64_MAX", &c).unwrap_err().raw(), 2101);
}

#[test]
fn positions_are_parsed() {
    let c = codes();
    assert_eq!(bpos::from_str("POS_MIN", &c), Ok(POS_MIN()));
    assert_eq!(bpos::from_str("POS_MAX", &c), Ok(POS_MAX()));
    assert_eq!(bpos::from_str("SPOS_MAX", &c), Ok(SPOS_MAX()));
    assert_eq!(bpos::from_str("4096:8", &c), Ok(pos(4096, 8)));
    assert_eq!(bpos::from_str("1:2:3", &c), Ok(spos(1, 2, 3)));
    assert_eq!(bpos::from_str("1:2:3:x", &c), Ok(spos(1, 2, 3)));
    assert_eq!(bpos::from_str("U64_MAX:1:U32_MAX", &c), Ok(spos(u64::MAX, 1, u32::MAX)));
    for bad in ["", "1", "1:", ":1", "1:2:", "1:2:U64_MAX", "a:1", "1;2"] {
        assert_eq!(bpos::from_str(bad, &c).unwrap_err().raw(), 2101);
    }
}

#[test]
fn btrees_by_number_and_name() {
    let known = names(&["extents", "inodes", "alloc", "lru"]);
    assert_eq!(btree_id::from_raw(&known, 1), Some(btree_id(1)));
    assert_eq!(btree_id::from_raw(&known, 4), None);
    assert_eq!(btree_id::iter_known(&known), [btree_id(0), btree_id(1), btree_id(2), btree_id(3)]);
    assert_eq!(btree_id_str(&known, 0), "extents");
    assert_eq!(btree_id_str(&known, 42), "(unknown btree 42)");
    assert_eq!(btree_id_str(&known, u32::MAX), "(unknown btree 4294967295)");
    let c = codes();
    assert_eq!(btree_id::from_str(&known, "lru", &c), Ok(btree_id(3)));
    assert_eq!(u32::from(btree_id(3)), 3);
    for bad in ["", "LRU", "lru\0", "lruu"] {
        assert_eq!(btree_id::from_str(&known, bad, &c).unwrap_err().raw(), 2103);
    }
    assert!(btree_id_is_alloc(&known, 2) && btree_id_is_alloc(&known, 3));
    assert!(!btree_id_is_alloc(&known, 0) && !btree_id_is_alloc(&known, 4));
    let types = names(&["deleted", "whiteout"]);
    assert_eq!(bch_bkey_type::from_str(&types, "whiteout", &c), Ok(bch_bkey_type(1)));
    assert_eq!(bch_bkey_type::from_str(&types, "x", &c).unwrap_err().raw(), 2104);
}

#[test]
fn btree_positions_are_parsed_and_ordered() {
    let known = names(&["extents", "inodes"]);
    let c = codes();
    let p = bbpos { btree: btree_id(1), pos: spos(1, 2, 3) };
    assert_eq!(bbpos::from_str(&known, "inodes:1:2:3", &c), Ok(p));
    for bad in ["inodes", "nodes:1:2", "inodes:1", ":1:2"] {
        assert_eq!(bbpos::from_str(&known, bad, &c).unwrap_err().raw(), 2102);
    }
    let q = bbpos { btree: btree_id(0), pos: SPOS_MAX() };
    assert!(q < p);
    assert_eq!(q.partial_cmp(&p), Some(std::cmp::Ordering::Less));
    assert_eq!(bbpos_range_parse(&known, "inodes:1:2:3", &c), Ok(BbposRange { start: p, end: p }));
    assert_eq!(
        bbpos_range_parse(&known, "extents:SPOS_MAX-inodes:1:2:3", &c),
        Ok(BbposRange { start: q, end: p })
    );
    for bad in ["", "inodes:1:2-", "-inodes:1:2", "inodes:1:2-inodes:3:4-x"] {
        assert_eq!(bbpos_range_parse(&known, bad, &c).unwrap_err().raw(), 2102);
    }
}

#[test]
fn position_texts_are_read_back() {
    let known = names(&["extents", "inodes"]);
    for p in [POS_MIN(), SPOS_MAX(), spos(1, 20, 300)] {
        let text = format!("{}:{}:{}", p.inode, p.offset, p.snapshot);
        assert_eq!(bpos::from_str(&text, &codes()), Ok(p));
        let bb = bbpos { btree: btree_id(1), pos: p };
        assert_eq!(bbpos::from_str(&known, &format!("{}:{text}", btree_id_str(&known, 1)), &codes()), Ok(bb));
    }
}
