use balance_board::hid::{
    calibration_block, choose_candidate, read_register_report, set_reporting_mode_report,
    write_register_report, HidCandidate, RegisterError, CAL_BLOCK_ADDR, CAL_BLOCK_LEN,
};
use balance_board::read_transaction::ReadError;
use balance_board::stream::{
    read_wait_ms, register_read_step, sensor_report_from_read, SensorWait, WaitStep,
};
use balance_board::ReadTransaction;

fn frame(addr_low: u16, payload: &[u8]) -> Vec<u8> {
    assert!(!payload.is_empty() && payload.len() <= 16);
    let mut f = vec![0u8; 22];
    f[0] = 0x21;
    f[3] = ((payload.len() - 1) & 0x0F) as u8;
    f[4..6].copy_from_slice(&addr_low.to_be_bytes());
    f[6..6 + payload.len()].copy_from_slice(payload);
    f
}

#[test]
fn assembles_two_frames_in_order() {
    let mut tx = ReadTransaction::new(0x00A4_0024, 24);
    tx.consume(&frame(0x0024, &[0x01; 16])).unwrap();
    assert!(!tx.is_complete());
    tx.consume(&frame(0x0034, &[0x02; 8])).unwrap();
    assert!(tx.is_complete());

    let bytes = tx.into_bytes();
    assert_eq!(bytes.len(), 24);
    assert_eq!(&bytes[..16], &[0x01; 16]);
    assert_eq!(&bytes[16..], &[0x02; 8]);
}

#[test]
fn assembles_two_frames_out_of_order() {
    let mut tx = ReadTransaction::new(0x00A4_0024, 24);
    tx.consume(&frame(0x0034, &[0x02; 8])).unwrap();
    tx.consume(&frame(0x0024, &[0x01; 16])).unwrap();
    assert!(tx.is_complete());
    let bytes = tx.into_bytes();
    assert_eq!(&bytes[..16], &[0x01; 16]);
    assert_eq!(&bytes[16..], &[0x02; 8]);
}

#[test]
fn rejects_non_read_response() {
    let mut tx = ReadTransaction::new(0, 8);
    let mut bad = vec![0u8; 22];
    bad[0] = 0x32;
    assert!(tx.consume(&bad).is_err());
}

#[test]
fn rejects_short_frame() {
    let mut tx = ReadTransaction::new(0, 8);
    let short = vec![0x21u8; 10];
    assert!(tx.consume(&short).is_err());
}

#[test]
fn surfaces_wiimote_error_code() {
    let mut tx = ReadTransaction::new(0, 8);
    let mut bad = vec![0u8; 22];
    bad[0] = 0x21;
    bad[3] = 0x70; // err=7, size=1
    let err = tx.consume(&bad).unwrap_err();
    assert!(err.message().contains("0x7"));
}

#[test]
fn rejects_overflow() {
    let mut tx = ReadTransaction::new(0x00A4_0024, 8);
    assert!(tx.consume(&frame(0x0024, &[0xAB; 16])).is_err());
}

#[test]
fn refused_frames_change_nothing() {
    let mut tx = ReadTransaction::new(0x00A4_0024, 8);
    tx.consume(&frame(0x0024, &[0x11; 4])).unwrap();
    assert_eq!(tx.consume(&frame(0x0026, &[0xEE; 8])), Err(ReadError::ExceedsRequest));
    let mut bad = frame(0x0028, &[0x22; 4]);
    bad[3] |= 0x30;
    assert_eq!(tx.consume(&bad), Err(ReadError::DeviceError(3)));
    assert!(!tx.is_complete());
    assert_eq!(tx.into_bytes(), vec![0x11, 0x11, 0x11, 0x11, 0, 0, 0, 0]);
}

#[test]
fn frame_below_base_address_wraps_and_is_refused() {
    let mut tx = ReadTransaction::new(0x00A4_0024, 24);
    assert_eq!(tx.consume(&frame(0x0023, &[1])), Err(ReadError::ExceedsRequest));
}

#[test]
fn read_error_messages() {
    assert_eq!(ReadError::NotReadResponse.message(), "not a 0x21 register-read response frame");
    assert_eq!(ReadError::DeviceError(0xa).message(), "Wiimote register-read error code 0xa");
    assert_eq!(
        ReadError::ExceedsRequest.message(),
        "register-read response exceeds requested length"
    );
}

#[test]
fn skips_status_and_malformed_frames_in_the_sensor_stream() {
    let mut buf = [0u8; 32];
    buf[..3].copy_from_slice(&[0x20, 0, 0]);
    assert!(sensor_report_from_read(&buf, 3).is_none());
    buf[..1].copy_from_slice(&[0x32]);
    assert!(sensor_report_from_read(&buf, 1).is_none());
    assert!(sensor_report_from_read(&buf, 0).is_none());
    buf[..11].copy_from_slice(&[0x32, 0, 0, 0, 1, 0, 2, 0, 3, 0, 4]);
    let report = sensor_report_from_read(&buf, 11).unwrap();
    assert_eq!(report.sensors.top_right, 1);
    assert_eq!(report.sensors.bottom_left, 4);
}

#[test]
fn read_waits_are_between_one_and_250_ms() {
    assert_eq!(read_wait_ms(0), 1);
    assert_eq!(read_wait_ms(7), 7);
    assert_eq!(read_wait_ms(250), 250);
    assert_eq!(read_wait_ms(3000), 250);
}

#[test]
fn register_read_step_ignores_sensor_reports() {
    let mut tx = ReadTransaction::new(0x00A4_0024, 24);
    let sensor = [0x32u8, 0, 0, 0, 1, 0, 2, 0, 3, 0, 4];
    register_read_step(&mut tx, &sensor, sensor.len()).unwrap();
    register_read_step(&mut tx, &sensor, 0).unwrap();
    let f1 = frame(0x0024, &[0x05; 16]);
    let f2 = frame(0x0034, &[0x06; 8]);
    register_read_step(&mut tx, &f1, f1.len()).unwrap();
    assert!(!tx.is_complete());
    register_read_step(&mut tx, &f2, f2.len()).unwrap();
    assert!(tx.is_complete());
    let block = calibration_block(&tx.into_bytes()).unwrap();
    assert_eq!(&block[..16], &[0x05; 16]);
    assert_eq!(&block[16..], &[0x06; 8]);
}

#[test]
fn calibration_block_needs_exactly_24_bytes() {
    assert_eq!(calibration_block(&[0u8; 23]), Err(23));
    assert_eq!(calibration_block(&[7u8; 24]), Ok([7u8; 24]));
    assert_eq!(CAL_BLOCK_ADDR, 0x00A4_0024);
    assert_eq!(CAL_BLOCK_LEN, 24);
}

#[test]
fn output_reports_have_the_wiimote_layout() {
    assert_eq!(set_reporting_mode_report(0x32), [0x12, 0x04, 0x32]);
    assert_eq!(
        read_register_report(0x00A4_0024, 24),
        [0x17, 0x04, 0xA4, 0x00, 0x24, 0x00, 0x18]
    );
    let w = write_register_report(0x00A4_00F0, &[0x55]).unwrap();
    assert_eq!(&w[..7], &[0x16, 0x04, 0xA4, 0x00, 0xF0, 0x01, 0x55]);
    assert!(w[7..].iter().all(|b| *b == 0));
    assert_eq!(write_register_report(0x00A4_00F0, &[]), Err(RegisterError::PayloadLength));
    assert_eq!(write_register_report(0, &[0; 17]), Err(RegisterError::PayloadLength));
    assert!(write_register_report(0, &[9; 16]).is_ok());
}

fn cand(vendor_id: u16, product_id: u16, name: Option<&str>) -> HidCandidate {
    HidCandidate { vendor_id, product_id, product_string: name.map(str::to_owned) }
}

#[test]
fn discovery_prefers_named_board_then_first_candidate() {
    let devices = [
        cand(0x1234, 0x0306, Some("Nintendo RVL-WBC-01")),
        cand(0x057E, 0x0306, Some("Nintendo RVL-CNT-01")),
        cand(0x057E, 0x0306, None),
        cand(0x057E, 0x0306, Some("Nintendo RVL-WBC-01")),
    ];
    assert_eq!(choose_candidate(&devices), (Some(3), 3));
    assert_eq!(choose_candidate(&devices[..3]), (Some(1), 2));
    assert_eq!(choose_candidate(&devices[..1]), (None, 0));
    assert_eq!(choose_candidate(&[]), (None, 0));
}

#[test]
fn sensor_wait_deadline_is_fixed_at_the_start() {
    let ms = 1_000_000u64;
    let wait = SensorWait::new(5_000 * ms, 10 * ms);
    assert_eq!(wait.next(5_000 * ms), WaitStep::Read { wait_ms: 10 });
    // unrelated frames arrive; each read leaves the deadline where it was
    assert_eq!(wait.next(5_009 * ms + 500_000), WaitStep::Read { wait_ms: 1 });
    assert_eq!(wait.next(5_010 * ms), WaitStep::TimedOut);
    assert_eq!(wait.next(6_000 * ms), WaitStep::TimedOut);
    let long = SensorWait::new(0, 3_000 * ms);
    assert_eq!(long.next(0), WaitStep::Read { wait_ms: 250 });
    assert_eq!(SensorWait::new(u64::MAX - 1, 10).deadline_ns, u64::MAX);
}

#[test]
fn three_frames_assemble_the_same_block_in_any_order() {
    let frames = [frame(0x0024, &[0xA1; 10]), frame(0x002E, &[0xB2; 9]), frame(0x0037, &[0xC3; 5])];
    let orders = [[0, 1, 2], [2, 1, 0], [1, 2, 0], [2, 0, 1]];
    let mut blocks = Vec::new();
    for order in orders {
        let mut tx = ReadTransaction::new(0x00A4_0024, 24);
        for (n, i) in order.iter().enumerate() {
            assert!(!tx.is_complete());
            tx.consume(&frames[*i]).unwrap();
            assert_eq!(tx.is_complete(), n == 2);
        }
        blocks.push(tx.into_bytes());
    }
    let mut expected = vec![0xA1; 10];
    expected.extend_from_slice(&[0xB2; 9]);
    expected.extend_from_slice(&[0xC3; 5]);
    for block in blocks {
        assert_eq!(block, expected);
    }
}

#[test]
fn repeated_chunk_does_not_complete_the_read() {
    let mut tx = ReadTransaction::new(0x00A4_0024, 24);
    tx.consume(&frame(0x0024, &[0x01; 16])).unwrap();
    tx.consume(&frame(0x0024, &[0x01; 16])).unwrap();
    assert!(!tx.is_complete());
    tx.consume(&frame(0x0034, &[0x02; 8])).unwrap();
    assert!(tx.is_complete());
}

#[test]
fn overlapping_chunks_complete_once_every_byte_arrived() {
    let mut tx = ReadTransaction::new(0x00A4_0024, 8);
    tx.consume(&frame(0x0024, &[0x01; 6])).unwrap();
    tx.consume(&frame(0x0026, &[0x02; 4])).unwrap();
    assert!(!tx.is_complete());
    tx.consume(&frame(0x002A, &[0x03; 2])).unwrap();
    assert!(tx.is_complete());
    assert_eq!(tx.into_bytes(), vec![1, 1, 2, 2, 2, 2, 3, 3]);
}

#[test]
fn empty_read_is_complete_at_once() {
    let tx = ReadTransaction::new(0x00A4_0024, 0);
    assert!(tx.is_complete());
    assert!(tx.into_bytes().is_empty());
}

/// Waits for a sensor report the way the transport does, on a clock that
/// advances by `step_ns` with each read.
fn read_sensor_report(
    mut read: impl FnMut(&mut [u8], i32) -> std::io::Result<usize>,
    timeout_ns: u64,
    step_ns: u64,
) -> std::io::Result<balance_board::BoardReport> {
    let mut now: u64 = 1_000;
    let wait = SensorWait::new(now, timeout_ns);
    let mut buf = [0u8; 32];
    loop {
        match wait.next(now) {
            WaitStep::TimedOut => {
                return Err(std::io::Error::new(std::io::ErrorKind::TimedOut, "no sensor report"));
            }
            WaitStep::Read { wait_ms } => {
                assert!((1..=250).contains(&wait_ms));
                let n = read(&mut buf, wait_ms)?.min(buf.len());
                now += step_ns;
                if let Some(report) = sensor_report_from_read(&buf, n) {
                    return Ok(report);
                }
            }
        }
    }
}

#[test]
fn skips_status_and_malformed_reports_before_sensor_data() {
    let mut frames = vec![vec![0x20, 0, 0], vec![0x32], vec![0x32, 0, 0, 0, 1, 0, 2, 0, 3, 0, 4]].into_iter();
    let report = read_sensor_report(
        |buf, _| {
            let frame = frames.next().expect("should stop at the sensor report");
            buf[..frame.len()].copy_from_slice(&frame);
            Ok(frame.len())
        },
        1_000_000_000,
        1_000_000,
    )
    .unwrap();
    assert_eq!(report.sensors.top_right, 1);
    assert_eq!(report.sensors.bottom_left, 4);
}

#[test]
fn unrelated_reports_do_not_extend_deadline() {
    let error = read_sensor_report(
        |buf, _| {
            buf[0] = 0x20;
            Ok(1)
        },
        10_000_000,
        1_000_000,
    )
    .unwrap_err();
    assert_eq!(error.kind(), std::io::ErrorKind::TimedOut);
}

#[test]
fn empty_reads_time_out() {
    let error = read_sensor_report(|_, _| Ok(0), 10_000_000, 1_000_000).unwrap_err();
    assert_eq!(error.kind(), std::io::ErrorKind::TimedOut);
}

#[test]
fn transport_failure_is_preserved() {
    let error = read_sensor_report(|_, _| Err(std::io::ErrorKind::BrokenPipe.into()), 1_000_000_000, 1_000_000)
        .unwrap_err();
    assert_eq!(error.kind(), std::io::ErrorKind::BrokenPipe);
}
