use dockeye::worker::stats::{disk_io_totals, net_io_totals, try_disk_io_totals, try_net_io_totals};
use dockeye::worker::task::{TaskAction, TaskBuffer, TaskEvent};

fn item(i: u8) -> TaskEvent<u8> {
    TaskEvent::Item { item: i, outcome: None }
}

#[test]
fn following_a_stream_keeps_items_until_polled() {
    let mut b: TaskBuffer<u8> = TaskBuffer::new();
    assert!(matches!(b.follow_step(item(1)), TaskAction::Continue));
    assert!(matches!(b.follow_step(TaskEvent::Failed), TaskAction::Continue));
    assert!(matches!(b.follow_step(item(2)), TaskAction::Continue));
    assert!(matches!(b.follow_step(TaskEvent::Ended), TaskAction::Idle));
    assert!(matches!(b.follow_step(TaskEvent::Closed), TaskAction::Continue));
    match b.follow_step(TaskEvent::Poll) {
        TaskAction::Deliver(v) => assert_eq!(v, vec![1, 2]),
        other => panic!("unexpected {:?}", other),
    }
    match b.follow_step(TaskEvent::Poll) {
        TaskAction::Deliver(v) => assert!(v.is_empty()),
        other => panic!("unexpected {:?}", other),
    }
    assert!(matches!(b.follow_step(item(3)), TaskAction::Continue));
    assert!(matches!(b.follow_step(TaskEvent::Gone), TaskAction::Stop));
    assert!(b.done);
    assert!(matches!(b.follow_step(TaskEvent::Poll), TaskAction::Stop));
    assert_eq!(b.items, vec![3]);
}

#[test]
fn a_job_finishes_once() {
    let mut b: TaskBuffer<u8> = TaskBuffer::new();
    assert!(matches!(b.job_step(item(1), "alpine"), TaskAction::Continue));
    let decisive = TaskEvent::Item { item: 2, outcome: Some(Ok("sha256:abc".to_string())) };
    match b.job_step(decisive, "alpine") {
        TaskAction::Finish { result, items } => {
            assert_eq!(result, Ok("sha256:abc".to_string()));
            assert_eq!(items, Some(vec![1, 2]));
        }
        other => panic!("unexpected {:?}", other),
    }
    assert!(matches!(b.job_step(TaskEvent::Ended, "alpine"), TaskAction::Stop));
    let another = TaskEvent::Item { item: 3, outcome: Some(Err("error".to_string())) };
    assert!(matches!(b.job_step(another, "alpine"), TaskAction::Stop));
    assert!(b.items.is_empty());
}

#[test]
fn the_end_of_a_job_stream_gives_its_name() {
    let mut b: TaskBuffer<u8> = TaskBuffer::new();
    assert!(matches!(b.job_step(item(1), "image.tar"), TaskAction::Continue));
    match b.job_step(TaskEvent::Ended, "image.tar") {
        TaskAction::Finish { result, items } => {
            assert_eq!(result, Ok("image.tar".to_string()));
            assert_eq!(items, None);
        }
        other => panic!("unexpected {:?}", other),
    }
    assert_eq!(b.take(), vec![1]);
}

#[test]
fn a_killed_job_gives_no_result() {
    let mut b: TaskBuffer<u8> = TaskBuffer::new();
    assert!(matches!(b.job_step(item(4), "x"), TaskAction::Continue));
    match b.job_step(TaskEvent::Poll, "x") {
        TaskAction::Deliver(v) => assert_eq!(v, vec![4]),
        other => panic!("unexpected {:?}", other),
    }
    assert!(matches!(b.job_step(TaskEvent::Kill, "x"), TaskAction::Stop));
    assert!(matches!(b.job_step(TaskEvent::Ended, "x"), TaskAction::Stop));
}

#[test]
fn io_totals() {
    assert_eq!(net_io_totals(&vec![(10, 1), (5, 2)]), (15, 3));
    assert_eq!(net_io_totals(&vec![]), (0, 0));
    let disk = vec![
        ("Read".to_string(), 100),
        ("write".to_string(), 7),
        ("Sync".to_string(), 1000),
        ("read".to_string(), 1),
        ("".to_string(), 3),
        ("Write".to_string(), 2),
    ];
    assert_eq!(disk_io_totals(&disk), (101, 9));
    assert_eq!(try_disk_io_totals(&disk), Some((101, 9)));
    assert_eq!(try_net_io_totals(&vec![(u64::MAX, 0), (1, 0)]), None);
    assert_eq!(try_net_io_totals(&vec![(u64::MAX, 1)]), Some((u64::MAX, 1)));
    let big = vec![("w".to_string(), u64::MAX), ("W".to_string(), 1)];
    assert_eq!(try_disk_io_totals(&big), None);
    let other = vec![("s".to_string(), u64::MAX), ("t".to_string(), 1)];
    assert_eq!(try_disk_io_totals(&other), Some((0, 0)));
}
