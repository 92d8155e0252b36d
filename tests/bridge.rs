use kernel::keyboard::{NextScancode, PushOutcome, ScancodeStream, QUEUE_CAPACITY};
use kernel::task::TaskId;

#[test]
fn bytes_come_out_in_push_order() {
    let mut stream = ScancodeStream::new();
    let bytes: Vec<u8> = (0..QUEUE_CAPACITY as u32).map(|i| (i * 7 % 256) as u8).collect();
    for &b in &bytes {
        assert_eq!(stream.add_scancode(b), PushOutcome::Queued(None));
    }
    let mut seen = Vec::new();
    loop {
        match stream.poll_next(TaskId(0)) {
            NextScancode::Ready(b) => seen.push(b),
            NextScancode::Pending => break,
        }
    }
    assert_eq!(seen, bytes);
}

#[test]
fn interleaved_pushes_and_polls_keep_order() {
    let mut stream = ScancodeStream::new();
    stream.add_scancode(1);
    stream.add_scancode(2);
    assert_eq!(stream.poll_next(TaskId(3)), NextScancode::Ready(1));
    stream.add_scancode(3);
    assert_eq!(stream.poll_next(TaskId(3)), NextScancode::Ready(2));
    assert_eq!(stream.poll_next(TaskId(3)), NextScancode::Ready(3));
    assert_eq!(stream.poll_next(TaskId(3)), NextScancode::Pending);
}

#[test]
fn overflow_drops_the_newest_byte() {
    let mut stream = ScancodeStream::new();
    for i in 0..QUEUE_CAPACITY {
        assert_eq!(stream.add_scancode(i as u8), PushOutcome::Queued(None));
    }
    let outcome = stream.add_scancode(0xAA);
    assert_eq!(outcome, PushOutcome::Dropped);
    assert_eq!(
        outcome.diagnostic(),
        Some("WARNING: scancode queue full; dropping keyboard input")
    );
    assert_eq!(stream.add_scancode(0xBB), PushOutcome::Dropped);
    for i in 0..QUEUE_CAPACITY {
        assert_eq!(stream.poll_next(TaskId(1)), NextScancode::Ready(i as u8));
    }
    assert_eq!(stream.poll_next(TaskId(1)), NextScancode::Pending);
}

#[test]
fn queued_push_has_no_diagnostic() {
    let mut stream = ScancodeStream::new();
    assert_eq!(stream.add_scancode(5).diagnostic(), None);
}

#[test]
fn empty_poll_registers_the_consumer_for_one_wake() {
    let mut stream = ScancodeStream::new();
    assert_eq!(stream.poll_next(TaskId(9)), NextScancode::Pending);
    assert_eq!(stream.add_scancode(0x1E), PushOutcome::Queued(Some(TaskId(9))));
    assert_eq!(stream.add_scancode(0x1F), PushOutcome::Queued(None));
    assert_eq!(stream.poll_next(TaskId(9)), NextScancode::Ready(0x1E));
    assert_eq!(stream.poll_next(TaskId(9)), NextScancode::Ready(0x1F));
}

#[test]
fn a_later_registration_replaces_the_earlier_one() {
    let mut stream = ScancodeStream::new();
    assert_eq!(stream.poll_next(TaskId(1)), NextScancode::Pending);
    assert_eq!(stream.poll_next(TaskId(2)), NextScancode::Pending);
    assert_eq!(stream.add_scancode(7), PushOutcome::Queued(Some(TaskId(2))));
}

#[test]
fn wake_slot_is_idempotent() {
    let mut slot = kernel::keyboard::WakeSlot::new();
    assert_eq!(slot.wake(), None);
    slot.register(TaskId(4));
    slot.register(TaskId(5));
    assert_eq!(slot.wake(), Some(TaskId(5)));
    assert_eq!(slot.wake(), None);
}
