use fingerprint_driver::capture::{CaptureBuffer, CAPTURE_LEN};
use fingerprint_driver::image::{
    render_pgm, render_pgm_body, render_pgm_header, HEIGHT_DIVISOR, IMAGE_ROWS, IMAGE_WIDTH,
    ROW_SAMPLES,
};
use fingerprint_driver::persist::{SaveAction, SavePhase, SavePlan};

fn buffer_of(value: u8) -> CaptureBuffer {
    let mut b = CaptureBuffer::new();
    b.apply_read(&vec![value; CAPTURE_LEN]);
    b
}

#[test]
fn header_is_exact() {
    assert_eq!(render_pgm_header(), b"P5\n115 56\n255\n".to_vec());
    assert_eq!(IMAGE_WIDTH, 115);
    assert_eq!(IMAGE_ROWS / HEIGHT_DIVISOR, 56);
}

#[test]
fn uniform_buffer_renders_header_then_rows_of_that_value() {
    // A capture buffer of all 0x2A yields the exact header, then 284 rows of
    // 114 bytes of 0x2A, each row closed by a line feed.
    let image = render_pgm(&buffer_of(0x2a));
    assert_eq!(&image[..14], b"P5\n115 56\n255\n");
    let body = &image[14..];
    assert_eq!(body.len(), IMAGE_ROWS * (ROW_SAMPLES + 1));
    for row in body.chunks(ROW_SAMPLES + 1) {
        assert!(row[..ROW_SAMPLES].iter().all(|&b| b == 0x2a));
        assert_eq!(row[ROW_SAMPLES], 0x0a);
    }
}

#[test]
fn body_has_284_rows_and_line_feeds() {
    let body = render_pgm_body(&buffer_of(9));
    assert_eq!(body.len(), 284 * 115);
    assert_eq!(body.iter().filter(|&&b| b == 0x0a).count(), 284);
}

#[test]
fn pixel_walk_starts_at_index_one() {
    // The running buffer index starts at 1, so byte 0 of the capture buffer
    // never appears in the image: row 0 holds bytes 1..=114.
    let mut b = CaptureBuffer::new();
    let mut chunk = vec![0u8; CAPTURE_LEN];
    for (i, slot) in chunk.iter_mut().enumerate() {
        *slot = (i % 251) as u8;
    }
    b.apply_read(&chunk);
    let body = render_pgm_body(&b);
    for y in 0..ROW_SAMPLES {
        assert_eq!(body[y], chunk[y + 1]);
    }
    // Row 1 continues the same running index: bytes 115..=228.
    for y in 0..ROW_SAMPLES {
        assert_eq!(body[(ROW_SAMPLES + 1) + y], chunk[ROW_SAMPLES + 1 + y]);
    }
}

#[test]
fn full_image_is_header_plus_body() {
    let b = buffer_of(3);
    let mut expected = render_pgm_header();
    expected.extend(render_pgm_body(&b));
    assert_eq!(render_pgm(&b), expected);
}

fn drive(plan: &mut SavePlan, results: &[bool]) -> Vec<SaveAction> {
    let mut issued = Vec::new();
    for &ok in results {
        match plan.next_action() {
            Some(a) => {
                issued.push(a);
                plan.record_result(ok);
            }
            None => break,
        }
    }
    assert_eq!(plan.next_action(), None);
    issued
}

#[test]
fn pre_existing_target_is_deleted_before_any_write() {
    let mut plan = SavePlan::new();
    let issued = drive(&mut plan, &[true, true, true, true, true]);
    assert_eq!(
        issued,
        vec![
            SaveAction::QueryExists,
            SaveAction::DeleteTarget,
            SaveAction::CreateTarget,
            SaveAction::WriteHeader,
            SaveAction::WriteBody,
        ]
    );
    assert_eq!(plan.phase, SavePhase::Done);
}

#[test]
fn fresh_target_is_not_deleted() {
    let mut plan = SavePlan::new();
    let issued = drive(&mut plan, &[false, true, true, true]);
    assert_eq!(
        issued,
        vec![
            SaveAction::QueryExists,
            SaveAction::CreateTarget,
            SaveAction::WriteHeader,
            SaveAction::WriteBody,
        ]
    );
    assert_eq!(plan.phase, SavePhase::Done);
}

#[test]
fn failed_body_write_deletes_partial_file() {
    let mut plan = SavePlan::new();
    let issued = drive(&mut plan, &[false, true, true, false, true]);
    assert_eq!(issued.last(), Some(&SaveAction::DeleteTarget));
    assert_eq!(plan.phase, SavePhase::AbortedAtBody);
}

#[test]
fn failed_header_write_aborts_without_delete() {
    let mut plan = SavePlan::new();
    let issued = drive(&mut plan, &[false, true, false]);
    assert_eq!(
        issued,
        vec![SaveAction::QueryExists, SaveAction::CreateTarget, SaveAction::WriteHeader]
    );
    assert_eq!(plan.phase, SavePhase::AbortedAtHeader);
}

#[test]
fn failed_create_ends_abnormally() {
    let mut plan = SavePlan::new();
    drive(&mut plan, &[false, false]);
    assert_eq!(plan.phase, SavePhase::Crashed);
}

#[test]
fn tolerated_delete_failure_still_proceeds_to_create() {
    let mut plan = SavePlan::new();
    // The target exists, deleting it fails: creation still follows, since
    // creating the file truncates it anyway.
    let issued = drive(&mut plan, &[true, false, true, true, true]);
    assert_eq!(issued[1], SaveAction::DeleteTarget);
    assert_eq!(issued[2], SaveAction::CreateTarget);
    assert_eq!(plan.phase, SavePhase::Done);
}
