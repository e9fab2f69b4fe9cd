use bcachefs::util::async_exec::{block_on, BlockOn, Drive, Parker, Readiness, WaitGroup, WakerSlot};
use bcachefs::util::darray::{darray, DarrayVec};
use bcachefs::util::decimal::{parse_decimal, to_decimal};
use bcachefs::util::printbuf::{printbuf, PrintOp, Printbuf};
use bcachefs::util::vstructs::vstruct_next_entry;

#[test]
fn decimal_numbers() {
    for n in [0, 7, 10, 1234567890, u64::MAX] {
        assert_eq!(to_decimal(n), n.to_string());
        let cs: Vec<char> = to_decimal(n).chars().collect();
        assert_eq!(parse_decimal(&cs, u64::MAX), Some(n));
    }
    assert_eq!(parse_decimal(&['9'], 8), None);
}

#[test]
fn waker_slot() {
    let mut s = WakerSlot::new();
    assert_eq!(s.take(), None);
    s.register(1);
    s.register(2);
    assert_eq!(s.take(), Some(2));
    assert_eq!(s.take(), None);
}

#[test]
fn the_last_task_wakes_the_waiter() {
    let mut g = WaitGroup::new(2).unwrap();
    assert_eq!(g.wait().poll('w'), Readiness::Pending);
    assert_eq!(g.done(), None);
    assert!(!g.is_done());
    assert_eq!(g.done(), Some('w'));
    assert!(g.is_done());
    assert_eq!(g.wait().poll('w'), Readiness::Ready);
    let mut none: WaitGroup<char> = WaitGroup::new(0).unwrap();
    assert_eq!(none.wait().poll('w'), Readiness::Ready);
    assert_eq!(none.done(), None);
    assert!(!none.is_done());
}

#[test]
fn a_task_between_register_and_look_is_not_missed() {
    let mut g = WaitGroup::new(1).unwrap();
    g.register('w');
    assert!(g.count_down());
    assert_eq!(g.take_waker(), Some('w'));
    assert!(g.is_done());
}

#[test]
fn a_thread_is_parked_until_it_is_woken() {
    let mut p = Parker::new();
    assert!(!p.try_unpark());
    p.wake();
    p.wake();
    assert!(p.try_unpark());
    assert!(!p.try_unpark());
}

#[test]
fn futures_are_driven() {
    let mut d = BlockOn::Polling;
    assert!(matches!(d.polled::<u8>(None), Drive::Park));
    assert!(matches!(d.unparked::<u8>(), Drive::Poll));
    assert!(matches!(d.polled(Some(3)), Drive::Return(3)));
    assert_eq!(block_on(vec![None, None, Some("4".to_string()), Some("5".to_string())]), Some("4".to_string()));
    assert_eq!(block_on::<u8>(vec![None]), None);
}

#[test]
fn vectors_as_arrays() {
    let mut v: DarrayVec<darray<u32>, u32> = DarrayVec::from_vec(vec![1, 2, 3]);
    assert_eq!((v.as_mut().nr, v.as_mut().data.len()), (3, 3));
    v.as_mut().data[0] = 3;
    v.as_mut().nr = 1;
    assert_eq!(v.into_vec(), [3]);
    let v: DarrayVec<darray<u32>, u32> = DarrayVec::from_vec(vec![1, 2, 3]);
    assert_eq!(v.into_vec(), [1, 2, 3]);
}

fn shown(p: &Printbuf) -> Vec<String> {
    p.ops()
        .iter()
        .map(|printed| match &printed.op {
            PrintOp::TabstopsReset => "reset".to_string(),
            PrintOp::TabstopPush(n) => format!("stop {n}"),
            PrintOp::IndentAdd(n) => format!("indent {n}"),
            PrintOp::IndentSub(n) => format!("dedent {n}"),
            PrintOp::Tab => "tab".to_string(),
            PrintOp::TabRjust => "rjust".to_string(),
            PrintOp::Newline => "newline".to_string(),
            PrintOp::UnitsU64(n) if printed.human_readable_units => format!("with units {n}"),
            PrintOp::UnitsU64(n) => format!("units {n}"),
            PrintOp::HumanReadableU64(n) => format!("human {n}"),
            PrintOp::Version(n) => format!("version {n}"),
            PrintOp::Text(s) => format!("text {s}"),
            PrintOp::TabstopAlign => "align".to_string(),
            PrintOp::SectionBegin => "begin".to_string(),
            PrintOp::SectionEnd => "end".to_string(),
        })
        .collect()
}

#[test]
fn text_buffers() {
    assert!(Printbuf::default().ops().is_empty());
    let mut p = Printbuf::new();
    assert!(!p.is_human_readable());
    p.tabstops(&[8, 16]);
    p.tab();
    p.tab_rjust();
    p.newline();
    p.units_sectors(2);
    p.units_sectors(1 << 55);
    p.human_readable_u64(3);
    p.version(4);
    assert_eq!(
        shown(&p),
        ["reset", "stop 8", "stop 16", "tab", "rjust", "newline", "units 1024", "units 0", "human 3", "version 4"]
    );
    p.as_raw().human_readable_units = true;
    assert!(p.is_human_readable());
    assert_eq!(printbuf::new(), printbuf { heap_allocated: true, human_readable_units: false });
}

#[test]
fn indentation_is_taken_back() {
    let mut p = Printbuf::new();
    let guard = p.indent(2);
    guard.buf.write_str("x".to_string());
    guard.end();
    assert_eq!(shown(&p), ["indent 2", "text x", "dedent 2"]);
}

#[test]
fn aligned_sections() {
    let mut p = Printbuf::new();
    p.set_human_readable(true);
    p.newline();
    p.aligned(|mut sub| {
        sub.write_str(format!("{}", sub.is_human_readable()));
        sub
    });
    assert!(p.is_human_readable());
    assert_eq!(shown(&p), ["newline", "begin", "text true", "align", "end"]);
}

#[test]
fn numbers_keep_the_setting_of_their_time() {
    let mut p = Printbuf::new();
    p.units_u64(1);
    p.set_human_readable(true);
    p.units_u64(4096);
    p.aligned(|mut sub| {
        sub.units_u64(2);
        sub.set_human_readable(false);
        sub.units_sectors(1);
        sub
    });
    p.units_u64(3);
    p.as_raw().human_readable_units = false;
    p.units_u64(4096);
    assert!(!p.is_human_readable());
    assert_eq!(
        shown(&p),
        [
            "units 1", "with units 4096", "begin", "with units 2", "units 512", "align", "end", "with units 3",
            "units 4096",
        ]
    );
    p.tabstops(&[4]);
    assert_eq!(p.ops().iter().filter(|printed| printed.human_readable_units).count(), 5);
}

#[test]
fn next_journal_entry() {
    assert_eq!(vstruct_next_entry(0), 8);
    assert_eq!(vstruct_next_entry(u16::MAX), 8 + 65535 * 8);
}
