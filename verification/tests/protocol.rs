use fingerprint_driver::capture::{CaptureBuffer, CaptureSession, ReadOutcome, CAPTURE_LEN};
use fingerprint_driver::config::{ConfigAction, ConfigState, ConfigStep, Configurator};
use fingerprint_driver::signals::{signal_frame, SIGNAL_COUNT, SIGNAL_LEN, SIGNAL_OUTPUT_ADDRESS};
use fingerprint_driver::Endpoint;

fn endpoint() -> Endpoint {
    Endpoint { config: 1, iface: 0, setting: 2, address: 0x83 }
}

#[test]
fn catalogue_has_23_signals_of_7_bytes() {
    assert_eq!(SIGNAL_COUNT, 23);
    assert_eq!(SIGNAL_LEN, 7);
    assert_eq!(SIGNAL_OUTPUT_ADDRESS, 0x04);
    for i in 0..SIGNAL_COUNT {
        let frame = signal_frame(i);
        assert_eq!(frame.len(), 7);
        assert_eq!(&frame[..4], &[0x45, 0x47, 0x49, 0x53]);
    }
}

#[test]
fn whole_catalogue_is_exact() {
    let expected: [[u8; 7]; 23] = [
        [0x45, 0x47, 0x49, 0x53, 0x01, 0x20, 0x3f],
        [0x45, 0x47, 0x49, 0x53, 0x01, 0x58, 0x3f],
        [0x45, 0x47, 0x49, 0x53, 0x01, 0x21, 0x09],
        [0x45, 0x47, 0x49, 0x53, 0x01, 0x57, 0x09],
        [0x45, 0x47, 0x49, 0x53, 0x01, 0x22, 0x03],
        [0x45, 0x47, 0x49, 0x53, 0x01, 0x56, 0x03],
        [0x45, 0x47, 0x49, 0x53, 0x01, 0x23, 0x01],
        [0x45, 0x47, 0x49, 0x53, 0x01, 0x55, 0x01],
        [0x45, 0x47, 0x49, 0x53, 0x01, 0x24, 0x01],
        [0x45, 0x47, 0x49, 0x53, 0x01, 0x54, 0x01],
        [0x45, 0x47, 0x49, 0x53, 0x01, 0x16, 0x3e],
        [0x45, 0x47, 0x49, 0x53, 0x01, 0x09, 0x0b],
        [0x45, 0x47, 0x49, 0x53, 0x01, 0x14, 0x03],
        [0x45, 0x47, 0x49, 0x53, 0x01, 0x15, 0x00],
        [0x45, 0x47, 0x49, 0x53, 0x01, 0x02, 0x0f],
        [0x45, 0x47, 0x49, 0x53, 0x01, 0x10, 0x00],
        [0x45, 0x47, 0x49, 0x53, 0x01, 0x11, 0x38],
        [0x45, 0x47, 0x49, 0x53, 0x01, 0x12, 0x00],
        [0x45, 0x47, 0x49, 0x53, 0x01, 0x13, 0x71],
        [0x45, 0x47, 0x49, 0x53, 0x01, 0x03, 0x80],
        [0x45, 0x47, 0x49, 0x53, 0x00, 0x02, 0x80],
        [0x45, 0x47, 0x49, 0x53, 0x01, 0x02, 0x2f],
        [0x45, 0x47, 0x49, 0x53, 0x06, 0x00, 0xfe],
    ];
    for (i, row) in expected.iter().enumerate() {
        assert_eq!(signal_frame(i), row.to_vec());
    }
}

#[test]
fn first_and_last_signals_are_exact() {
    assert_eq!(signal_frame(0), vec![0x45, 0x47, 0x49, 0x53, 0x01, 0x20, 0x3f]);
    assert_eq!(signal_frame(11), vec![0x45, 0x47, 0x49, 0x53, 0x01, 0x09, 0x0b]);
    assert_eq!(signal_frame(22), vec![0x45, 0x47, 0x49, 0x53, 0x06, 0x00, 0xfe]);
}

#[test]
fn configurator_issues_the_three_steps_in_order() {
    let mut c = Configurator::new(endpoint());
    assert_eq!(c.current_action(), Some(ConfigAction::SetConfiguration(1)));
    c.record_result(true);
    assert_eq!(c.current_action(), Some(ConfigAction::ClaimInterface(0)));
    c.record_result(true);
    assert_eq!(c.current_action(), Some(ConfigAction::SetAlternateSetting(0, 2)));
    c.record_result(true);
    assert_eq!(c.current_action(), None);
    assert!(c.is_configured());
    assert_eq!(c.failed_step(), None);
}

#[test]
fn configurator_halts_at_failed_claim_without_retry() {
    let mut c = Configurator::new(endpoint());
    // The set-configuration step has already been issued and succeeded...
    assert_eq!(c.current_action(), Some(ConfigAction::SetConfiguration(1)));
    c.record_result(true);
    // ...when the claim fails: the run halts at the claim immediately.
    assert_eq!(c.current_action(), Some(ConfigAction::ClaimInterface(0)));
    c.record_result(false);
    assert_eq!(c.current_action(), None);
    assert!(!c.is_configured());
    assert_eq!(c.failed_step(), Some(ConfigStep::ClaimInterface));
    assert_eq!(c.state, ConfigState::Failed(ConfigStep::ClaimInterface));
}

#[test]
fn configurator_fails_at_first_step() {
    let mut c = Configurator::new(endpoint());
    c.record_result(false);
    assert_eq!(c.failed_step(), Some(ConfigStep::SetConfiguration));
    assert_eq!(c.current_action(), None);
}

#[test]
fn configurator_fails_at_alternate_setting() {
    let mut c = Configurator::new(endpoint());
    c.record_result(true);
    c.record_result(true);
    c.record_result(false);
    assert_eq!(c.failed_step(), Some(ConfigStep::SetAlternateSetting));
    assert!(!c.is_configured());
}

#[test]
fn session_runs_all_23_pairs_despite_failures() {
    let mut s = CaptureSession::new();
    let mut pairs: usize = 0;
    while !s.is_done() {
        let frame = s.next_signal();
        assert_eq!(frame.len(), 7);
        // Every second transfer fails; the sequence continues regardless.
        if pairs % 2 == 0 {
            s.record_read(ReadOutcome::Failed);
        } else {
            s.record_read(ReadOutcome::Data(vec![0x11; 64]));
        }
        pairs += 1;
    }
    assert_eq!(pairs, 23);
    let buffer = s.finish();
    assert_eq!(buffer.data.len(), CAPTURE_LEN);
    assert_eq!(buffer.data.len(), 32512);
}

#[test]
fn all_reads_failed_leaves_zero_filled_buffer() {
    let mut s = CaptureSession::new();
    while !s.is_done() {
        let _ = s.next_signal();
        s.record_read(ReadOutcome::Failed);
    }
    let buffer = s.finish();
    assert!(buffer.data.iter().all(|&b| b == 0));
}

#[test]
fn partial_read_leaves_stale_tail() {
    let mut b = CaptureBuffer::new();
    b.apply_read(&vec![42u8; CAPTURE_LEN]);
    // A later, shorter read overwrites only the front; the tail keeps the
    // stale bytes of the earlier read.
    b.apply_read(&vec![7u8; 100]);
    assert!(b.data[..100].iter().all(|&x| x == 7));
    assert!(b.data[100..].iter().all(|&x| x == 42));
    assert_eq!(b.data.len(), CAPTURE_LEN);
}

#[test]
fn last_full_read_wins() {
    let mut s = CaptureSession::new();
    let mut i = 0u8;
    while !s.is_done() {
        let _ = s.next_signal();
        s.record_read(ReadOutcome::Data(vec![i; CAPTURE_LEN]));
        i += 1;
    }
    let buffer = s.finish();
    // Only the 23rd read (value 22) survives.
    assert!(buffer.data.iter().all(|&x| x == 22));
}
