use std::cell::RefCell;

use ergot::logging::defmt_v1::{DefmtSink, MAX_FRAME_SIZE};

#[test]
fn a_frame_is_sent_on_release() {
    let sent: RefCell<Vec<Vec<u8>>> = RefCell::new(Vec::new());
    let mut sink = DefmtSink::new();
    sink.init_with_sender(|frame: &[u8]| sent.borrow_mut().push(frame.to_vec()));

    sink.acquire();
    assert!(sink.is_acquired());
    sink.write(&[1, 2]);
    sink.flush();
    sink.write(&[3]);
    assert!(sent.borrow().is_empty());
    sink.release();
    assert!(!sink.is_acquired());
    assert_eq!(*sent.borrow(), vec![vec![1, 2, 3]]);

    // The next frame starts empty
    sink.acquire();
    sink.release();
    assert_eq!(sent.borrow().len(), 2);
    assert!(sent.borrow()[1].is_empty());
}

#[test]
fn the_first_sender_wins() {
    let sent: RefCell<Vec<u8>> = RefCell::new(Vec::new());
    let sent = &sent;
    let sender = |tag: u8| move |_: &[u8]| sent.borrow_mut().push(tag);
    let mut sink = DefmtSink::new();
    sink.init_with_sender(sender(1));
    sink.init_with_sender(sender(2));
    sink.acquire();
    sink.release();
    assert_eq!(*sent.borrow(), vec![1]);
}

#[test]
fn long_frames_are_cut_off() {
    let sent: RefCell<Vec<Vec<u8>>> = RefCell::new(Vec::new());
    let mut sink = DefmtSink::new();
    sink.init_with_sender(|frame: &[u8]| sent.borrow_mut().push(frame.to_vec()));
    sink.acquire();
    sink.write(&[1; 500]);
    sink.write(&[2; 500]);
    sink.write(&[3; 500]);
    sink.release();
    let frame = &sent.borrow()[0];
    assert_eq!(frame.len(), MAX_FRAME_SIZE);
    assert_eq!(frame[499], 1);
    assert_eq!(frame[500], 2);
    assert_eq!(frame[511], 2);
}

#[test]
fn without_the_logger_nothing_is_written() {
    let sent: RefCell<Vec<Vec<u8>>> = RefCell::new(Vec::new());
    let mut sink = DefmtSink::new();
    sink.write(&[1]);
    sink.init_with_sender(|frame: &[u8]| sent.borrow_mut().push(frame.to_vec()));
    sink.release();
    assert_eq!(*sent.borrow(), vec![Vec::<u8>::new()]);
}

#[test]
fn internal_logging_is_disabled_for_good() {
    let mut sink: DefmtSink<fn(&[u8])> = DefmtSink::new();
    assert!(sink.is_enabled());
    sink.disable_internal_atomic();
    assert!(!sink.is_enabled());
    sink.disable_internal_atomic();
    assert!(!sink.is_enabled());
}
