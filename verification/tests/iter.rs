use bcachefs::btree::bkey::{bkey, bkey_i, bversion, pos, spos, BkeySC, POS_MIN, SPOS_MAX};
use bcachefs::btree::iter::{
    bkey_s_c_to_result, btree, commit_do, lockrestart_do, retry_restart, Action, BtreeIter, BtreeIterFlags,
    BtreeNodeIter, CommitFlags, CommitOpts, Event, Flow, NodeAction, PeekCall, Retry, TransAttempt,
    TransError, UpdateTriggerFlags, WalkKind, Walker, Watermark,
};
use bcachefs::btree::types::btree_id;
use bcachefs::buckets::{disk_reservation, DiskReservation};
use bcachefs::errcode::{bch_errcode, BchError};

fn err(n: i32) -> BchError {
    BchError::from_raw(n)
}

fn is_restart(e: BchError) -> bool {
    e.raw() >= 3000
}

fn iter() -> BtreeIter {
    BtreeIter { pos: pos(5, 5), flags: BtreeIterFlags(0b101) }
}

#[test]
fn restarts_are_told_from_failures() {
    assert_eq!(TransError::from_error(err(3001), is_restart), TransError::Restart(err(3001)));
    assert_eq!(TransError::from_error(err(5), is_restart), TransError::Error(err(5)));
    assert_eq!(retry_restart(Ok(1)), Ok(Some(1)));
    assert_eq!(retry_restart::<i32>(Err(TransError::Restart(err(3001)))), Ok(None));
    assert_eq!(retry_restart::<i32>(Err(TransError::Error(err(5)))), Err(err(5)));
}

#[test]
fn attempts_are_retried() {
    assert!(matches!(lockrestart_do(Ok(3)), Retry::Done(3)));
    assert!(matches!(lockrestart_do::<u8>(Err(TransError::Restart(err(3001)))), Retry::Again));
    assert!(matches!(lockrestart_do::<u8>(Err(TransError::Error(err(5)))), Retry::Failed(e) if e == err(5)));
}

#[test]
fn attempts_are_committed() {
    let opts = CommitOpts::new().flags(CommitFlags(16));
    let begun = || Ok(TransAttempt::begin(4));
    let full = disk_reservation { sectors: 8, generation: 1, nr_replicas: 2 };
    let used = disk_reservation { sectors: 3, ..full };
    let mut res = DiskReservation::init(2, |_| full);
    let r = commit_do(begun(), Some(&mut res), opts, |d, o, lazy| if (d, o, lazy) == (Some(full), 16, false) { (-3001, Some(used)) } else { (-1, d) }, is_restart);
    assert!(matches!(r, Retry::Again));
    // The next turn goes on with what the first has left.
    let r = commit_do(begun(), Some(&mut res), opts, |d, _, _| if d == Some(used) { (0, None) } else { (-1, d) }, is_restart);
    assert!(matches!(r, Retry::Done(t) if t == TransAttempt::begin(4)));
    assert_eq!(res.sectors(), 3);
    let r = commit_do(begun(), None, opts, |d, _, _| (-28, d), is_restart);
    assert!(matches!(r, Retry::Failed(e) if e == err(28)));
    let r = commit_do(Err(TransError::Restart(err(3001))), Some(&mut res), opts, |_, _, _| panic!("no commit"), is_restart);
    assert!(matches!(r, Retry::Again));
    let r = commit_do(Err(TransError::Error(err(2))), Some(&mut res), opts, |_, _, _| panic!("no commit"), is_restart);
    assert!(matches!(r, Retry::Failed(e) if e == err(2)));
    assert_eq!(res.sectors(), 3);
}

fn attempt() -> TransAttempt {
    TransAttempt::begin(7)
}

#[test]
fn attempts() {
    let t = attempt();
    assert!(t.verify_not_restarted(7) && !t.verify_not_restarted(8));
    assert_eq!(attempt().result(0, is_restart), Ok(attempt()));
    assert_eq!(attempt().result(-5, is_restart), Err(TransError::Error(err(5))));
    assert_eq!(attempt().result(-3001, is_restart), Err(TransError::Restart(err(3001))));
    assert_eq!(attempt().result(-5000, is_restart), Ok(attempt()));
    assert_eq!(attempt().restart(bch_errcode(2105)), TransError::Restart(err(2105)));
    assert_eq!(attempt().done(4), Ok((attempt(), 4)));
    assert_eq!(attempt().result_value(Ok(4), is_restart), Ok((attempt(), 4)));
    assert_eq!(attempt().result_value::<u8, _>(Err(err(5)), is_restart), Err(TransError::Error(err(5))));
    assert_eq!(attempt().try_do(|| Ok(()), is_restart), Ok(attempt()));
    assert_eq!(attempt().try_do(|| Err(err(3002)), is_restart), Err(TransError::Restart(err(3002))));
}

#[test]
fn snapshot_nodes_need_as_many_subvolumes() {
    let code = bch_errcode(2106);
    let mut ids = vec![0, 0];
    assert_eq!(
        attempt().snapshot_node_create(9, &mut ids, &[5], |_, _, _, _| panic!("not called"), code, is_restart),
        Err(TransError::Error(err(2106)))
    );
    assert_eq!(ids, [0, 0]);
    let create = |parent, ids: &[u32], subvols: &[u32], n| {
        if (parent, ids, subvols, n) == (9, &[0, 0][..], &[5, 6][..], 2) {
            (0, vec![70, 71])
        } else {
            (-1, Vec::new())
        }
    };
    assert_eq!(attempt().snapshot_node_create(9, &mut ids, &[5, 6], create, code, is_restart), Ok(attempt()));
    assert_eq!(ids, [70, 71]);
    assert_eq!(
        attempt().snapshot_node_create(9, &mut ids, &[5, 6], |_, ids, _, _| (-12, ids.to_vec()), code, is_restart),
        Err(TransError::Error(err(12)))
    );
    assert_eq!(ids, [70, 71]);
}

fn some_key() -> bkey_i {
    bkey_i {
        k: bkey { u64s: 7, type_: 1, bversion: bversion { hi: 0, lo: 0 }, size: 0, p: spos(1, 2, 3) },
        v: vec![11, 12],
    }
}

fn memory(addr: usize) -> (usize, bkey_i) {
    let mut k = some_key();
    k.k.p = pos(77, 77);
    k.v = vec![1, 1, 1, 1];
    (addr, k)
}

#[test]
fn keys_are_allocated() {
    let t = attempt();
    let k = t.bkey_alloc(6, |bytes| memory(if bytes == 48 { 0x1000 } else { 0x2000 })).ok().unwrap();
    assert_eq!((k.as_ptr(), k.buf_u64s, k.k().p), (0x1000, 6, pos(77, 77)));
    assert_eq!(t.bkey_alloc(6, |_| memory(usize::MAX - 11)).err(), Some(err(12)));

    let mut k = t.bkey_copy(&some_key(), memory).ok().unwrap();
    assert_eq!((k.addr, k.buf_u64s, k.k().p), (56, 7, spos(1, 2, 3)));
    assert_eq!(k.k_i().v, [11, 12]);
    k.k_mut().set_pos(pos(9, 9));
    k.k_i_mut().v.push(13);
    assert_eq!((k.key.k.p, k.key.v.len()), (pos(9, 9), 3));
    assert_eq!(t.bkey_copy(&some_key(), |_| memory(usize::MAX)).err(), Some(err(1)));

    // A key is copied as far as it says that it goes.
    let mut long = some_key();
    long.v.push(13);
    let k = t.bkey_copy(&long, memory).ok().unwrap();
    assert_eq!((k.buf_u64s, k.key.v), (7, vec![11, 12]));
    let k = t.bkey_reassemble(BkeySC::of(&long), memory).ok().unwrap();
    assert_eq!((k.addr, k.key.v.clone(), k.key.k), (56, vec![11, 12], long.k));
    assert_eq!(t.bkey_reassemble(BkeySC::of(&long), |_| memory(usize::MAX)).err(), Some(err(1)));

    let k = t.bkey_alloc_typed::<bkey_i, _>(40, memory).ok().unwrap();
    assert_eq!((k.addr, k.buf_u64s, k.key.k.u64s, k.key.v.len()), (40, 5, 5, 0));

    let key = some_key();
    let k = t.bkey_make_mut_noupdate(BkeySC::of(&key), |k| (0x3000, bkey_i { k: *k.k, v: k.v.to_vec() })).ok().unwrap();
    assert_eq!((k.addr, k.buf_u64s, k.key.v), (0x3000, 7, vec![11, 12]));
    assert_eq!(t.bkey_make_mut_noupdate(BkeySC::of(&key), |_| memory(usize::MAX - 4)).err(), Some(err(5)));
}

#[test]
fn reservations_are_shared_by_commits() {
    let full = disk_reservation { sectors: 8, generation: 1, nr_replicas: 2 };
    let used = disk_reservation { sectors: 5, ..full };
    let mut res = DiskReservation::init(2, |_| full);
    let opts = CommitOpts::new().flags(CommitFlags(16));
    let first = |d, o, lazy| if (d, o, lazy) == (Some(full), 16, false) { (0, Some(used)) } else { (-1, d) };
    assert_eq!(attempt().commit(Some(&mut res), opts, first, is_restart), Ok(attempt()));
    assert_eq!(res.sectors(), 5);
    let second = |d, _, _| if d == Some(used) { (-3005, d) } else { (0, None) };
    assert_eq!(attempt().commit(Some(&mut res), opts, second, is_restart), Err(TransError::Restart(err(3005))));
    assert_eq!(*res.as_ptr(), used);
    let none = |d: Option<disk_reservation>, _, _| (if d.is_none() { -3005 } else { 0 }, Some(full));
    assert_eq!(attempt().commit(None, opts, none, is_restart), Err(TransError::Restart(err(3005))));
}

#[test]
fn operations_of_an_attempt() {
    let known = vec!["extents".to_string(), "inodes".to_string()];
    let key = || {
        let mut k = attempt().bkey_copy(&some_key(), |_| memory(0x100)).ok().unwrap();
        k.k_mut().set_pos(pos(8, 8));
        k
    };
    let stored = |k: &bkey_i| k.k.p == pos(8, 8) && k.v == [11, 12];
    let f = UpdateTriggerFlags(9);
    let update = |a, k: bkey_i, n, f| if (a, n, f) == (0x100, 7, 9) && stored(&k) { 0 } else { -1 };
    assert_eq!(attempt().update(key(), f, update, is_restart), Ok(attempt()));
    let insert = |b, a, k: bkey_i, f| if (b, a, f) == (btree_id(1), 0x100, 9) && stored(&k) { 0 } else { -1 };
    assert_eq!(attempt().insert(&known, 1, key(), f, insert, is_restart), Ok(attempt()));
    let insert = |b, a, k: bkey_i, n, f| if (b, a, n, f) == (btree_id(0), 0x100, 7, 9) && stored(&k) { 0 } else { -1 };
    assert_eq!(attempt().insert_nonextent(&known, 0, key(), f, insert, is_restart), Ok(attempt()));
    let node = BtreeIter::node_at_iter_level(0x400, 2, some_key()).unwrap();
    assert_eq!((node.level(), node.key().k.p, node.key_sc().v), (2, spos(1, 2, 3), &[11, 12][..]));
    let opts = CommitOpts::new().flags(CommitFlags(32));
    let change = |b, a, k: bkey_i, o, s| if (b, a, o, s) == (0x400, 0x100, 32, true) && stored(&k) { 0 } else { -1 };
    assert_eq!(attempt().btree_node_update_key(node, key(), opts, true, change, is_restart), Ok(attempt()));
    assert!(BtreeIter::node_at_iter_level(0, 2, some_key()).is_none());
    let delete = |b, p, f| if (b, p, f) == (btree_id(1), pos(4, 5), 9) { -2 } else { 0 };
    assert_eq!(attempt().delete(&known, 1, pos(4, 5), f, delete, is_restart), Err(TransError::Error(err(2))));
    assert_eq!(attempt().delete_at(f, |f| if f == 9 { 0 } else { -1 }, is_restart), Ok(attempt()));
}

#[test]
fn keys_are_told_from_errors() {
    assert_eq!(bkey_s_c_to_result(0), Ok(None));
    assert_eq!(bkey_s_c_to_result(0x1000), Ok(Some(0x1000)));
    assert_eq!(bkey_s_c_to_result(usize::MAX - 4094), Err(err(4095)));
    assert_eq!(bkey_s_c_to_result(usize::MAX - 4095), Ok(Some(usize::MAX - 4095)));
}

#[test]
fn flags_and_watermarks() {
    let lowest = CommitFlags(16);
    let o = CommitOpts::new();
    assert_eq!(o.bits(), 0);
    assert_eq!(CommitOpts::default(), o);
    let o = o.flags(CommitFlags(16)).watermark(Watermark::Reclaim, lowest).flags(CommitFlags(64));
    assert_eq!(o.bits(), 16 | 64 | 5);
    assert_eq!(o.watermark(Watermark::Stripe, lowest).bits(), 16 | 64);
    assert_eq!(o.watermark(Watermark::InteriorUpdates, lowest).bits(), 16 | 64 | 6);
    assert_eq!(
        CommitOpts::new().watermark(Watermark::Copygc, lowest).flags(CommitFlags(32)),
        CommitOpts::new().flags(CommitFlags(32)).watermark(Watermark::Copygc, lowest)
    );
    assert_eq!([Watermark::Normal.to_raw(), Watermark::Btree.to_raw(), Watermark::BtreeCopygc.to_raw()], [1, 3, 4]);
    assert!(BtreeIterFlags(6).contains(BtreeIterFlags(2)) && !BtreeIterFlags(6).contains(BtreeIterFlags(3)));
    assert_eq!((BtreeIterFlags(6).bits(), UpdateTriggerFlags(8).bits(), CommitFlags(3).bits()), (6, 8, 3));
}

#[test]
fn which_key_is_looked_for() {
    let i = iter();
    let slots = BtreeIterFlags(1);
    assert_eq!(i.pos(), pos(5, 5));
    assert_eq!(i.peek_max(pos(7, 7)), PeekCall::Max(pos(7, 7)));
    assert_eq!(i.peek_max_type(pos(7, 7), slots), PeekCall::MaxType(pos(7, 7), slots));
    assert_eq!(i.peek_prev_min(pos(7, 7)), PeekCall::PrevMin(pos(7, 7)));
    assert_eq!(i.peek_prev_type(slots), PeekCall::PrevType(slots));
    assert_eq!(i.peek(), PeekCall::Max(SPOS_MAX()));
    assert_eq!(i.peek_prev(), PeekCall::PrevMin(POS_MIN()));
    assert_eq!(i.peek_max_flags(pos(5, 5), BtreeIterFlags(1), slots), PeekCall::Slot);
    assert_eq!(i.peek_max_flags(pos(5, 4), BtreeIterFlags(1), slots), PeekCall::Nothing);
    assert_eq!(i.peek_max_flags(pos(5, 4), BtreeIterFlags(2), slots), PeekCall::Max(pos(5, 4)));
    let w = i.for_each_max(slots, pos(5, 9));
    assert_eq!(w.kind, WalkKind::Max { slots: true, end: pos(5, 9) });
    assert_eq!(w.kind.peek(pos(5, 9)), PeekCall::Slot);
    assert_eq!(w.kind.peek(pos(6, 0)), PeekCall::Nothing);
    let w = i.for_each_max(BtreeIterFlags(2), pos(5, 9));
    assert_eq!(w.kind.peek(pos(6, 0)), PeekCall::Max(pos(5, 9)));
    assert_eq!(i.for_each(BtreeIterFlags(2)).kind.peek(pos(6, 0)), PeekCall::Max(SPOS_MAX()));
    let opts = CommitOpts::new();
    assert_eq!(i.for_each_commit(None, opts).kind.peek(pos(0, 0)), PeekCall::Next);
    let f = BtreeIterFlags(9);
    assert_eq!(i.for_each_max_commit(pos(1, 1), f, None, opts).kind.peek(pos(0, 0)), PeekCall::MaxType(pos(1, 1), f));
    assert_eq!(i.for_each_reverse(pos(1, 1)).kind.peek(pos(0, 0)), PeekCall::PrevMin(pos(1, 1)));
    assert_eq!(i.for_each_reverse_flags(f).kind.peek(pos(0, 0)), PeekCall::PrevType(f));
}

fn run(mut w: Walker, events: &[Event]) -> Vec<Action> {
    let mut actions = vec![w.action];
    for e in events {
        actions.push(w.step(*e));
    }
    actions
}

#[test]
fn loop_forwards() {
    let w = iter().for_each(BtreeIterFlags(2));
    assert_eq!(
        run(w, &[
            Event::Peeked(Ok(true)),
            Event::Verified,
            Event::Visited(Ok(Flow::Continue)),
            Event::Moved(true),
            Event::Peeked(Err(TransError::Restart(err(3001)))),
            Event::Peeked(Ok(true)),
            Event::Verified,
            Event::Visited(Ok(Flow::Continue)),
            Event::Moved(true),
            Event::Peeked(Ok(false)),
        ]),
        [
            Action::Peek,
            Action::Verify,
            Action::Visit,
            Action::Advance,
            Action::Peek,
            Action::Peek,
            Action::Verify,
            Action::Visit,
            Action::Advance,
            Action::Peek,
            Action::Finish(Ok(())),
        ]
    );
    assert_eq!(
        run(w, &[Event::Peeked(Ok(true)), Event::Verified, Event::Visited(Ok(Flow::Break))]),
        [Action::Peek, Action::Verify, Action::Visit, Action::Finish(Ok(()))]
    );
    assert_eq!(
        run(w, &[Event::Peeked(Err(TransError::Error(err(5))))]),
        [Action::Peek, Action::Finish(Err(err(5)))]
    );
}

#[test]
fn loop_with_commits() {
    let full = disk_reservation { sectors: 8, generation: 1, nr_replicas: 2 };
    let used = disk_reservation { sectors: 5, ..full };
    let res = DiskReservation::init(2, |_| full);
    let opts = CommitOpts::new().flags(CommitFlags(16));
    let loops = [
        iter().for_each_commit(Some(&res), opts),
        iter().for_each_max_commit(pos(9, 9), BtreeIterFlags(0), Some(&res), opts),
    ];
    for w in loops {
        assert_eq!(
            run(w, &[
                Event::Peeked(Ok(true)),
                Event::Visited(Err(TransError::Restart(err(3001)))),
                Event::Peeked(Ok(true)),
                Event::Visited(Ok(Flow::Continue)),
                Event::Committed(Err(TransError::Restart(err(3001))), Some(used)),
                Event::Peeked(Ok(true)),
                Event::Visited(Ok(Flow::Continue)),
                Event::Committed(Ok(()), None),
                Event::Verified,
                Event::Moved(true),
                Event::Peeked(Ok(true)),
                Event::Visited(Ok(Flow::Break)),
                Event::Committed(Ok(()), None),
                Event::Verified,
            ]),
            [
                Action::Peek,
                Action::Visit,
                Action::Peek,
                Action::Visit,
                Action::Commit(Some(full), opts),
                Action::Peek,
                Action::Visit,
                Action::Commit(Some(used), opts),
                Action::Verify,
                Action::Advance,
                Action::Peek,
                Action::Visit,
                Action::Commit(Some(used), opts),
                Action::Verify,
                Action::Finish(Ok(())),
            ]
        );
        assert_eq!(
            run(w, &[
                Event::Peeked(Ok(true)),
                Event::Visited(Ok(Flow::Continue)),
                Event::Committed(Err(TransError::Error(err(28))), None),
            ])[3],
            Action::Finish(Err(err(28)))
        );
    }
}

#[test]
fn loop_backwards() {
    for w in [iter().for_each_reverse(pos(0, 0)), iter().for_each_reverse_flags(BtreeIterFlags(0))] {
        assert_eq!(
            run(w, &[
                Event::Peeked(Ok(true)),
                Event::Verified,
                Event::Visited(Ok(Flow::Continue)),
                Event::Moved(true),
                Event::Peeked(Ok(true)),
                Event::Verified,
                Event::Visited(Ok(Flow::Continue)),
                Event::Moved(false),
            ]),
            [
                Action::Peek,
                Action::Verify,
                Action::Visit,
                Action::Rewind,
                Action::Peek,
                Action::Verify,
                Action::Visit,
                Action::Rewind,
                Action::Finish(Ok(())),
            ]
        );
    }
}

#[test]
fn loop_over_nodes() {
    assert_eq!(BtreeNodeIter::for_each(), NodeAction::Peek);
    assert_eq!(BtreeNodeIter::peeked(Ok(None)), NodeAction::Finish(Ok(())));
    assert_eq!(BtreeNodeIter::peeked(Ok(Some(pos(1, 2)))), NodeAction::Verify(pos(1, 2)));
    assert_eq!(BtreeNodeIter::verified(pos(1, 2)), NodeAction::Visit(pos(1, 2)));
    assert_eq!(BtreeNodeIter::peeked(Err(TransError::Restart(err(3001)))), NodeAction::Peek);
    assert_eq!(BtreeNodeIter::peeked(Err(TransError::Error(err(5)))), NodeAction::Finish(Err(err(5))));
    assert_eq!(
        BtreeNodeIter::visited(spos(1, 2, u32::MAX), Flow::Continue),
        NodeAction::SetPos(pos(1, 3))
    );
    assert_eq!(BtreeNodeIter::visited(SPOS_MAX(), Flow::Continue), NodeAction::Finish(Ok(())));
    assert_eq!(BtreeNodeIter::visited(pos(1, 2), Flow::Break), NodeAction::Finish(Ok(())));
}

#[test]
fn loop_over_keys_of_a_node() {
    assert_eq!(btree::for_each_key(&[]), (0, Flow::Continue));
    assert_eq!(btree::for_each_key(&[Flow::Continue, Flow::Continue]), (2, Flow::Continue));
    assert_eq!(btree::for_each_key(&[Flow::Continue, Flow::Break, Flow::Continue]), (2, Flow::Break));
    assert!(btree { flags: 0b100 }.is_fake(2) && !btree { flags: 0b100 }.is_fake(1));
}
