use kfs::array_vec::ArrayVec;
use kfs::once_cell::OnceCell;
use kfs::process::{Process, Processes, ReceivedSignal, Signal, Signals};

#[test]
fn array_vec_push_pop() {
    let mut v: ArrayVec<u8, 3> = ArrayVec::new();
    assert!(v.is_empty());
    assert_eq!(v.capacity(), 3);
    v.push(1);
    assert_eq!(v.try_push(2), Ok(()));
    assert_eq!(v.try_push(3), Ok(()));
    assert!(v.is_full());
    assert_eq!(v.try_push(4), Err(4));
    assert_eq!(v.len(), 3);
    assert_eq!(v.pop(), Some(3));
    assert_eq!(v.as_slice(), &[1, 2]);
    v.clear();
    assert!(v.is_empty());
    assert_eq!(v.pop(), None);
}

#[test]
fn array_vec_insert_and_remove_range() {
    let mut v: ArrayVec<u8, 8> = ArrayVec::new();
    v.extend_from_slice(&[1, 2, 3, 4, 5]);
    assert_eq!(v.try_insert(0, 9), Ok(()));
    assert_eq!(v.try_insert(6, 8), Ok(()));
    assert_eq!(v.as_slice(), &[9, 1, 2, 3, 4, 5, 8]);
    v.remove_range(1, 4);
    assert_eq!(v.as_slice(), &[9, 4, 5, 8]);
    v.remove_range(2, 2);
    assert_eq!(v.as_slice(), &[9, 4, 5, 8]);
    v.remove_range(0, 4);
    assert!(v.is_empty());
    let mut full: ArrayVec<u8, 1> = ArrayVec::new();
    full.push(1);
    assert_eq!(full.try_insert(0, 2), Err(2));
}

#[test]
fn once_cell_is_written_once() {
    let mut c: OnceCell<u32> = OnceCell::new();
    assert!(!c.is_initialized());
    assert_eq!(c.get(), None);
    assert_eq!(c.get_or_try_init(|| Err::<u32, &str>("nope")), Err("nope"));
    assert!(!c.is_initialized());
    assert_eq!(c.get_or_try_init(|| Ok::<u32, &str>(5)), Ok(&5));
    assert_eq!(c.get_or_init(|| 7), &5);
    assert_eq!(c.set(9), Err(9));
    assert_eq!(c.get(), Some(&5));
    let mut d: OnceCell<u32> = OnceCell::new();
    assert_eq!(d.get_or_init(|| 7), &7);
    assert_eq!(d.set(1), Err(1));
    let mut e: OnceCell<u32> = OnceCell::new();
    assert_eq!(e.set(3), Ok(()));
    assert!(e.is_initialized());
}

#[test]
fn signals_are_scheduled_once() {
    let mut s = Signals::new();
    assert!(s.schedule(Signal::Int, ReceivedSignal { sent_by: Some(3) }));
    assert!(!s.schedule(Signal::Int, ReceivedSignal { sent_by: None }));
    let mut p = Process::new(0, 1000);
    assert_eq!(p.parent, 0);
    assert_eq!(p.owner, 1000);
    assert!(p.signals.schedule(Signal::Int, ReceivedSignal { sent_by: None }));
    assert_eq!(Signal::Int.index(), 0);
    assert_eq!(Signal::COUNT, 1);
}

#[test]
fn process_table_starts_with_init() {
    let table = Processes::new(Process::new(0, 0));
    assert_eq!(table.current(), 0);
}
