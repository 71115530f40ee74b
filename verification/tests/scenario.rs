use fingerprint_driver::capture::{CaptureSession, ReadOutcome, CAPTURE_LEN};
use fingerprint_driver::config::Configurator;
use fingerprint_driver::endpoint::{
    find_readable_endpoint, AltSettingDesc, ConfigDesc, DeviceTree, EndpointDesc,
    EndpointDirection, InterfaceDesc, TransferKind,
};
use fingerprint_driver::image::render_pgm;
use fingerprint_driver::persist::{SaveAction, SavePhase, SavePlan};
use fingerprint_driver::session::{classify_run, device_matches, KernelGuard, RunReport};

fn scanner_tree() -> DeviceTree {
    DeviceTree {
        configs: vec![Some(ConfigDesc {
            number: 1,
            interfaces: vec![InterfaceDesc {
                alt_settings: vec![AltSettingDesc {
                    interface_number: 0,
                    setting_number: 0,
                    endpoints: vec![
                        EndpointDesc {
                            address: 0x04,
                            direction: EndpointDirection::Out,
                            transfer_kind: TransferKind::Bulk,
                        },
                        EndpointDesc {
                            address: 0x83,
                            direction: EndpointDirection::In,
                            transfer_kind: TransferKind::Bulk,
                        },
                    ],
                }],
            }],
        })],
    }
}

#[test]
fn device_identifiers_must_both_match() {
    assert!(device_matches(0x1c7a, 0x0570, 0x1c7a, 0x0570));
    assert!(!device_matches(0x1c7a, 0x0571, 0x1c7a, 0x0570));
    assert!(!device_matches(0x1c7b, 0x0570, 0x1c7a, 0x0570));
}

#[test]
fn reattach_happens_iff_detach_was_performed() {
    // An active kernel driver is detached on entry and reattached on exit,
    // on every exit path alike.
    let guard = KernelGuard::acquire(true);
    assert!(guard.must_reattach());
    // No driver was active: nothing to reattach, ever.
    let guard = KernelGuard::acquire(false);
    assert!(!guard.must_reattach());
}

#[test]
fn full_capture_produces_the_complete_image() {
    // Device present, endpoint found, every transfer succeeds.
    let endpoint = find_readable_endpoint(&scanner_tree(), TransferKind::Bulk).unwrap();
    assert_eq!(endpoint.address, 0x83);

    let guard = KernelGuard::acquire(true);

    let mut configurator = Configurator::new(endpoint);
    while let Some(_action) = configurator.current_action() {
        configurator.record_result(true);
    }
    assert!(configurator.is_configured());

    let mut session = CaptureSession::new();
    while !session.is_done() {
        let frame = session.next_signal();
        assert_eq!(frame.len(), 7);
        session.record_read(ReadOutcome::Data(vec![0x2a; CAPTURE_LEN]));
    }
    let buffer = session.finish();

    let image = render_pgm(&buffer);
    assert_eq!(&image[..14], b"P5\n115 56\n255\n");
    assert_eq!(image.len(), 14 + 284 * 114 + 284);
    let body = &image[14..];
    for row in body.chunks(115) {
        assert!(row[..114].iter().all(|&b| b == 0x2a));
        assert_eq!(row[114], 0x0a);
    }

    let mut plan = SavePlan::new();
    let mut writes: usize = 0;
    while let Some(action) = plan.next_action() {
        if action == SaveAction::WriteHeader || action == SaveAction::WriteBody {
            writes += 1;
        }
        // Fresh target: the existence query reports "does not exist".
        let ok = action != SaveAction::QueryExists;
        plan.record_result(ok);
    }
    assert_eq!(plan.phase, SavePhase::Done);
    assert_eq!(writes, 2);

    assert!(guard.must_reattach());
    assert_eq!(classify_run(true, true, true), RunReport::Saved);
}

#[test]
fn no_inbound_bulk_endpoint_ends_normally_with_diagnostic() {
    // Device present, but its only endpoints are outbound or non-bulk: no
    // file operation is started and the run reports the missing endpoint.
    let tree = DeviceTree {
        configs: vec![Some(ConfigDesc {
            number: 1,
            interfaces: vec![InterfaceDesc {
                alt_settings: vec![AltSettingDesc {
                    interface_number: 0,
                    setting_number: 0,
                    endpoints: vec![
                        EndpointDesc {
                            address: 0x04,
                            direction: EndpointDirection::Out,
                            transfer_kind: TransferKind::Bulk,
                        },
                        EndpointDesc {
                            address: 0x81,
                            direction: EndpointDirection::In,
                            transfer_kind: TransferKind::Interrupt,
                        },
                    ],
                }],
            }],
        })],
    };
    let endpoint = find_readable_endpoint(&tree, TransferKind::Bulk);
    assert!(endpoint.is_none());
    assert_eq!(classify_run(true, false, false), RunReport::NoReadableEndpoint);
}

#[test]
fn configuration_failure_reports_capture_failed() {
    assert_eq!(classify_run(true, true, false), RunReport::CaptureFailed);
}

#[test]
fn missing_device_reports_device_not_found() {
    assert_eq!(classify_run(false, false, false), RunReport::DeviceNotFound);
}
