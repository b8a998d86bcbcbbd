use ipmpsc::bitmask::BitMask;
use ipmpsc::child::{child_report, child_result, ChildEnd};
use ipmpsc::deadline::{Deadline, Patience};
use ipmpsc::posix::{nonzero, timeout_ok, wake_time};
use ipmpsc::receiver::Verdict;
use ipmpsc::text::failure;
use ipmpsc::windows::{expect, get_last_error, Buffer, Lock, Slot, View};
use ipmpsc::{Error, Receiver, SharedRingBuffer};

fn ones(mask: BitMask) -> Vec<u8> {
    let mut iterator = mask.ones();
    let mut numbers = Vec::new();
    while let Some(number) = iterator.next() {
        numbers.push(number);
    }
    assert_eq!(None, iterator.next());
    numbers
}

fn zeros(mask: BitMask) -> Vec<u8> {
    let mut iterator = mask.zeros();
    let mut numbers = Vec::new();
    while let Some(number) = iterator.next() {
        numbers.push(number);
    }
    assert_eq!(None, iterator.next());
    numbers
}

fn text(error: Error) -> String {
    match error {
        Error::Runtime(text) => text,
        other => panic!("{:?}", other),
    }
}

#[test]
fn bit_mask_is_a_set() {
    assert_eq!(128, BitMask::capacity());
    let empty = BitMask::default();
    assert!(ones(empty).is_empty());
    assert_eq!((0..128).collect::<Vec<u8>>(), zeros(empty));

    let mask = empty.set(0).set(64).set(127).set(64).set(3);
    assert_eq!(vec![0, 3, 64, 127], ones(mask));
    assert_eq!(124, zeros(mask).len());
    assert!(mask.get(127) && mask.get(0) && !mask.get(1) && !mask.get(126));

    let mask = mask.clear(64).clear(5);
    assert_eq!(vec![0, 3, 127], ones(mask));
    assert!(!mask.get(64));
    assert!(ones(mask.clear(0).clear(3).clear(127)).is_empty());
}

#[test]
fn views_take_the_smallest_free_number() {
    let mut threads = BitMask::default();
    let mut views = Vec::new();
    for expected in 0..128 {
        let view = View::try_new(&mut threads).unwrap();
        assert_eq!(expected, view.index);
        views.push(view);
    }
    assert!(matches!(
        View::try_new(&mut threads),
        Err(Error::TooManySenders)
    ));
    assert_eq!(128, ones(threads).len());

    views[77].release(&mut threads);
    views[5].release(&mut threads);
    assert_eq!(vec![5, 77], zeros(threads));
    assert_eq!(5, View::try_new(&mut threads).unwrap().index);
    assert_eq!(77, View::try_new(&mut threads).unwrap().index);
    assert!(View::try_new(&mut threads).is_err());
}

#[test]
fn windows_wait_goes_through_its_stages() {
    assert!(Lock::try_new(128).is_none());
    let mut lock = Lock::try_new(0).unwrap();
    assert!(lock.locked);

    let view = View { index: 9 };
    let mut waiters = BitMask::default().set(2);
    lock.begin_wait(&view, &mut waiters);
    assert_eq!(vec![2, 9], ones(waiters));

    assert!(!lock.mutex_released(false));
    assert!(lock.locked);
    assert!(lock.mutex_released(true));
    assert!(!lock.locked);

    assert!(lock.semaphore_awaited(0));
    assert!(lock.semaphore_awaited(258));
    assert!(!lock.semaphore_awaited(128));
    assert!(!lock.semaphore_awaited(0xFFFF_FFFF));

    assert!(!lock.mutex_awaited(258));
    assert!(!lock.locked);
    assert!(lock.mutex_awaited(0));
    assert!(lock.locked);

    lock.end_wait(&view, &mut waiters);
    assert_eq!(vec![2], ones(waiters));
}

#[test]
fn windows_times() {
    assert_eq!(0xFFFF_FFFF, Lock::milliseconds(None).unwrap());
    assert_eq!(0, Lock::milliseconds(Some(999_999)).unwrap());
    assert_eq!(1_500, Lock::milliseconds(Some(1_500_999_999)).unwrap());
    assert_eq!(
        0xFFFF_FFFF,
        Lock::milliseconds(Some(0xFFFF_FFFF * 1_000_000)).unwrap()
    );
    assert_eq!(
        "unable to represent timeout in milliseconds as ULONG",
        text(Lock::milliseconds(Some(0x1_0000_0000 * 1_000_000)).unwrap_err())
    );
    assert_eq!(7, Lock::semaphore_wait(7));
    assert_eq!(10_000, Lock::semaphore_wait(10_001));
    assert_eq!(10_000, Lock::semaphore_wait(0xFFFF_FFFF));
}

#[test]
fn kernel_objects_are_named_after_the_path() {
    let buffer = Buffer::try_new("C:\\dir\\r\u{e9}seau_1.tmp\0");
    assert_eq!("C--dir-r\u{e9}seau-1-tmp-", buffer.path);
    assert_eq!(
        "C--dir-r\u{e9}seau-1-tmp--mutex",
        buffer.mutex_name()
    );
    let buffer = Buffer::try_new("ring");
    assert_eq!("ring-semaphore-0", buffer.semaphore_name(0));
    assert_eq!("ring-semaphore-127", buffer.semaphore_name(127));
    assert_eq!(
        "CreateMutex for ring-mutex failed: no",
        text(buffer.mutex_failure("no"))
    );
    assert_eq!(
        "CreateSemaphore for ring-semaphore-30 failed: no",
        text(buffer.semaphore_failure(30, "no"))
    );
    assert_eq!("", Buffer::try_new("").path);
}

#[test]
fn last_error_is_the_message_or_unknown() {
    assert_eq!("unknown error", get_last_error(0, None));
    assert_eq!("unknown error", get_last_error(0, Some(b"Denied.\0")));
    assert_eq!("unknown error", get_last_error(5, None));
    assert_eq!("Denied.", get_last_error(5, Some(b" Denied.\r\n")));
    assert_eq!("Denied.", get_last_error(5, Some(b"Denied.X")));
    assert_eq!("Den", get_last_error(5, Some(b"Den\0ied.X")));
    assert_eq!("unknown error", get_last_error(5, Some(b"\xff\xfe\r\n")));
    assert_eq!("", get_last_error(5, Some(b"X")));
    assert_eq!(
        "r\u{e9}fus\u{e9}",
        get_last_error(5, Some("r\u{e9}fus\u{e9}\r\n".as_bytes()))
    );
}

#[test]
fn failed_calls_are_worded() {
    assert!(expect("ReleaseMutex()", true, "no").is_ok());
    assert_eq!(
        "ReleaseMutex() failed: no",
        text(expect("ReleaseMutex()", false, "no").unwrap_err())
    );
    assert!(nonzero("libc::pthread_mutex_lock(m)", 0).is_ok());
    assert_eq!(
        "libc::pthread_mutex_lock(m) failed: 22",
        text(nonzero("libc::pthread_mutex_lock(m)", 22).unwrap_err())
    );
    assert_eq!("f failed: -1", text(nonzero("f", -1).unwrap_err()));
    assert_eq!(
        "f failed: -2147483648",
        text(nonzero("f", i32::MIN).unwrap_err())
    );
    assert_eq!("a failed: b", text(failure("a", "b")));
}

#[test]
fn posix_times() {
    assert_eq!(0, timeout_ok(110, 110));
    assert_eq!(22, timeout_ok(22, 110));
    assert_eq!(0, timeout_ok(0, 110));

    let moment = wake_time(1_999_999_999, 1);
    assert_eq!((2, 0), (moment.secs, moment.nanos));
    let moment = wake_time(5_000_000_007, 1_250_000_000);
    assert_eq!((6, 250_000_007), (moment.secs, moment.nanos));
}

#[test]
fn deadline_counts_from_the_first_wait() {
    let mut deadline = Deadline::new(Some(100));
    assert_eq!(Patience::Wait(None), deadline.patience(7));
    deadline.arm(10);
    assert_eq!(Patience::Wait(Some(100)), deadline.patience(10));
    deadline.arm(60);
    assert_eq!(Patience::Wait(Some(50)), deadline.patience(60));
    assert_eq!(Patience::Wait(Some(1)), deadline.patience(109));
    assert_eq!(Patience::Expired, deadline.patience(110));
    assert_eq!(Patience::Expired, deadline.patience(500));

    let mut endless = Deadline::new(None);
    endless.arm(10);
    assert_eq!(Patience::Wait(None), endless.patience(u128::MAX));

    let mut none = Deadline::new(Some(0));
    none.arm(10);
    assert_eq!(Patience::Expired, none.patience(10));
}

#[test]
fn receiver_gives_up_in_time() {
    let (buffer, _, _) = SharedRingBuffer::create(104, 1);
    let rx = Receiver::new(buffer);
    let mut receiving = rx.recv_timeout(100);
    receiving.found_nothing(10);
    assert_eq!(Verdict::Wait(Some(100)), receiving.next(104, 104, 10));
    assert_eq!(Verdict::Retry, receiving.next(104, 110, 400));
    receiving.found_nothing(50);
    assert_eq!(Verdict::Wait(Some(60)), receiving.next(104, 104, 50));
    assert_eq!(Verdict::GiveUp, receiving.next(104, 104, 110));

    let mut receiving = rx.recv();
    assert_eq!(buffer, receiving.receiver.buffer);
    receiving.found_nothing(10);
    assert_eq!(Verdict::Wait(None), receiving.next(104, 104, u128::MAX));
    assert_eq!(Verdict::Retry, receiving.next(110, 104, u128::MAX));
}

#[test]
fn child_processes_are_reported() {
    assert!(child_result(ChildEnd::Exited(0), "").is_ok());
    assert!(child_result(ChildEnd::Exited(0), "noise").is_ok());
    assert_eq!(
        "child exited (exit status 1); stderr:\nboom",
        child_result(ChildEnd::Exited(1), "boom").unwrap_err()
    );
    assert_eq!(
        "child exited (killed by signal 9)",
        child_result(ChildEnd::Killed(9), "").unwrap_err()
    );
    assert_eq!(
        "child exited",
        child_result(ChildEnd::Other, "").unwrap_err()
    );
}

#[test]
fn child_output_is_decoded() {
    assert!(child_report(ChildEnd::Exited(0), b"noise").is_ok());
    assert_eq!(
        "child exited (exit status 1)",
        child_report(ChildEnd::Exited(1), b"").unwrap_err()
    );
    assert_eq!(
        "child exited (killed by signal 9); stderr:\nna\u{ef}ve",
        child_report(ChildEnd::Killed(9), "na\u{ef}ve".as_bytes()).unwrap_err()
    );
    assert_eq!(
        "child exited; stderr:\na\u{fffd}b",
        child_report(ChildEnd::Other, &[b'a', 0xff, b'b']).unwrap_err()
    );
}

#[test]
fn semaphores_are_created_once() {
    let buffer = Buffer::try_new("ring");
    let mut slots = vec![0_usize; 128];
    assert_eq!(Slot::Create, buffer.semaphore(&slots, 127));

    match buffer.semaphore_created(&mut slots, 127, 0, "no memory") {
        Err(Error::Runtime(text)) => assert_eq!(
            "CreateSemaphore for ring-semaphore-127 failed: no memory",
            text
        ),
        other => panic!("{:?}", other),
    }
    assert_eq!(vec![0_usize; 128], slots);
    assert_eq!(Slot::Create, buffer.semaphore(&slots, 127));

    assert_eq!(
        7,
        buffer.semaphore_created(&mut slots, 127, 7, "").unwrap()
    );
    assert_eq!(Slot::Ready(7), buffer.semaphore(&slots, 127));
    assert_eq!(vec![0_usize; 127][..], slots[..127]);
}

#[test]
fn every_waiter_is_notified() {
    let lock = Lock::try_new(0).unwrap();
    let mut waiters = BitMask::default();
    assert!(lock.begin_notify(&waiters).is_empty());

    waiters = waiters.set(127).set(0).set(64);
    assert_eq!(vec![0, 64, 127], lock.begin_notify(&waiters));
    assert_eq!(vec![0, 64, 127], ones(waiters));

    lock.end_notify(&mut waiters);
    assert!(lock.begin_notify(&waiters).is_empty());
    assert!(ones(waiters).is_empty());
}
