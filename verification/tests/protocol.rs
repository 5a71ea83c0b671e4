use inzone_buds::battery::{BatteryCell, BatteryReading, BatteryState};
use inzone_buds::clock::Duration;
use inzone_buds::error::{io_error, Error, IoError, IoErrorKind};
use inzone_buds::protocol::{
    battery_request, looks_like_matching_battery_event, parse_battery_response, REPORT_ID,
};

const CAPTURED_RESPONSE: [u8; 64] = [
    0x02, 0x12, 0x04, 0xff, 0x0f, 0x00, 0x96, 0xc3, 0x14, 0x04, 0x10, 0x01, 0x00, 0x00, 0x36, 0x00,
    0x38, 0xff, 0x5a, 0x49, 0x00, 0x00, 0x00, 0x00, 0x00, 0x00, 0x00, 0x00, 0x00, 0x00, 0x00, 0x00,
    0x00, 0x00, 0x00, 0x00, 0x00, 0x00, 0x00, 0x00, 0x00, 0x00, 0x00, 0x00, 0x00, 0x00, 0x00, 0x00,
    0x00, 0x00, 0x00, 0x00, 0x00, 0x00, 0x00, 0x00, 0x00, 0x00, 0x00, 0x00, 0x00, 0x00, 0x00, 0x00,
];

fn fix_checksum(response: &mut [u8; 64]) {
    response[19] = response[5..19]
        .iter()
        .fold(0_u8, |sum, byte| sum.wrapping_add(*byte));
}

fn response_for(transaction: u16) -> [u8; 64] {
    let mut response = CAPTURED_RESPONSE;
    response[11..13].copy_from_slice(&transaction.to_le_bytes());
    fix_checksum(&mut response);
    response
}

#[test]
fn creates_known_battery_request() {
    let request = battery_request(1);
    assert_eq!(
        &request[..14],
        &[
            0x02, 0x0c, 0x01, 0x00, 0xfc, 0x08, 0x96, 0xc3, 0x41, 0x04, 0x01, 0x01, 0x00, 0xa0
        ]
    );
    assert!(request[14..].iter().all(|byte| *byte == 0));
}

#[test]
fn parses_captured_battery_response() {
    let reading = parse_battery_response(&CAPTURED_RESPONSE, 1).unwrap();
    assert_eq!(reading.left.percent, Some(54));
    assert_eq!(reading.left.state, BatteryState::Discharging);
    assert_eq!(reading.right.percent, Some(56));
    assert_eq!(reading.right.state, BatteryState::Discharging);
    assert_eq!(reading.case.percent, Some(90));
    assert_eq!(reading.case.state, BatteryState::Unavailable);
    assert_eq!(reading.case.to_string(), "90%");
}

#[test]
fn rejects_bad_checksum() {
    let mut response = CAPTURED_RESPONSE;
    response[19] ^= 1;
    let error = parse_battery_response(&response, 1).unwrap_err();
    assert!(error.to_string().contains("checksum"));
}

#[test]
fn rejects_wrong_transaction() {
    let error = parse_battery_response(&CAPTURED_RESPONSE, 2).unwrap_err();
    assert!(error.to_string().contains("transaction"));
}

#[test]
fn rejects_undocumented_frame_shapes() {
    let mut response = CAPTURED_RESPONSE;
    response[1] = 19;
    let error = parse_battery_response(&response, 1).unwrap_err();
    assert!(error.to_string().contains("frame length"));

    let mut response = CAPTURED_RESPONSE;
    response[4] = 14;
    let error = parse_battery_response(&response, 1).unwrap_err();
    assert!(error.to_string().contains("event header"));
}

#[test]
fn parses_every_rejected_response_header() {
    let cases: Vec<Vec<u8>> = vec![
        vec![],
        vec![REPORT_ID],
        {
            let mut value = CAPTURED_RESPONSE;
            value[0] = 9;
            value.to_vec()
        },
        {
            let mut value = CAPTURED_RESPONSE;
            value[1] = 17;
            value.to_vec()
        },
        CAPTURED_RESPONSE[..19].to_vec(),
    ];
    for case in cases {
        assert!(parse_battery_response(&case, 1).is_err());
    }

    for (offset, value) in [(2, 3), (3, 0), (4, 14), (5, 1)] {
        let mut response = CAPTURED_RESPONSE;
        response[offset] = value;
        fix_checksum(&mut response);
        assert!(parse_battery_response(&response, 1)
            .unwrap_err()
            .to_string()
            .contains("event header"));
    }
    for (offset, value) in [(6, 0), (7, 0)] {
        let mut response = CAPTURED_RESPONSE;
        response[offset] = value;
        fix_checksum(&mut response);
        assert!(parse_battery_response(&response, 1)
            .unwrap_err()
            .to_string()
            .contains("Sony key"));
    }
    for (offset, value) in [(8, 0), (9, 0), (10, 0)] {
        let mut response = CAPTURED_RESPONSE;
        response[offset] = value;
        fix_checksum(&mut response);
        assert!(parse_battery_response(&response, 1)
            .unwrap_err()
            .to_string()
            .contains("battery return event"));
    }
}

#[test]
fn recognizes_only_the_matching_battery_event_shape() {
    assert!(looks_like_matching_battery_event(&CAPTURED_RESPONSE, 1));
    assert!(!looks_like_matching_battery_event(
        &CAPTURED_RESPONSE[..12],
        1
    ));
    for (offset, value) in [
        (0, 0),
        (2, 0),
        (3, 0),
        (6, 0),
        (7, 0),
        (8, 0),
        (9, 0),
        (10, 0),
        (11, 2),
    ] {
        let mut response = CAPTURED_RESPONSE;
        response[offset] = value;
        assert!(!looks_like_matching_battery_event(&response, 1));
    }
}

#[test]
fn formats_all_public_states_and_errors() {
    let states = [
        (0, BatteryState::Discharging, "discharging"),
        (1, BatteryState::Charging, "charging"),
        (2, BatteryState::Error, "error"),
        (0xff, BatteryState::Unavailable, "unavailable"),
    ];
    for (raw, state, text) in states {
        assert_eq!(BatteryState::from_byte(raw), state);
        assert_eq!(state.as_str(), text);
        assert_eq!(state.to_string(), text);
    }
    let unknown = BatteryState::from_byte(7);
    assert_eq!(unknown, BatteryState::Unknown(7));
    assert_eq!(unknown.as_str(), "unknown");
    assert_eq!(unknown.to_string(), "unknown (0x07)");

    assert_eq!(BatteryCell::from_bytes(1, 42).to_string(), "42% (charging)");
    assert_eq!(
        BatteryCell::from_bytes(2, 101).to_string(),
        "unknown (error)"
    );

    let paths = vec![b"/dev/hidraw2".to_vec(), b"/dev/hidraw3".to_vec()];
    let errors = [
        Error::DeviceNotFound.to_string(),
        Error::AmbiguousDevices(paths).to_string(),
        Error::DeviceMismatch(b"/tmp/nope".to_vec()).to_string(),
        Error::Timeout(Duration::from_secs(2)).to_string(),
        Error::InvalidResponse("bad".into()).to_string(),
    ];
    assert!(errors[0].contains("054c:0ec2"));
    assert!(errors[1].contains("hidraw2, /dev/hidraw3"));
    assert!(errors[2].contains("/tmp/nope"));
    assert!(errors[3].contains("2 seconds"));
    assert!(errors[4].contains("bad"));

    let source = IoError::new(IoErrorKind::PermissionDenied, "denied");
    let error = io_error("open", source);
    assert_eq!(error.to_string(), "open: denied");
    assert_eq!(error.source().unwrap().to_string(), "denied");
    assert!(Error::DeviceNotFound.source().is_none());
}

#[test]
fn error_messages_are_exact() {
    assert_eq!(
        Error::DeviceNotFound.to_string(),
        "Sony INZONE Buds receiver 054c:0ec2 was not found"
    );
    assert_eq!(
        Error::AmbiguousDevices(vec![]).to_string(),
        "multiple matching INZONE battery interfaces found: "
    );
    assert_eq!(
        Error::AmbiguousDevices(vec![b"/a".to_vec(), b"/b".to_vec(), b"/c".to_vec()]).to_string(),
        "multiple matching INZONE battery interfaces found: /a, /b, /c"
    );
    assert_eq!(
        Error::DeviceMismatch(b"/tmp/nope".to_vec()).to_string(),
        "refusing to send a Sony HID request to unverified device /tmp/nope"
    );
    assert_eq!(
        Error::Timeout(Duration::from_millis(2999)).to_string(),
        "no battery response within 2 seconds"
    );
    assert_eq!(
        Error::InvalidResponse("bad".into()).to_string(),
        "invalid battery response: bad"
    );
}

#[test]
fn paths_that_are_no_text_are_shown_with_replacement_characters() {
    assert_eq!(
        Error::DeviceMismatch(vec![b'/', 0xff, b'x']).to_string(),
        "refusing to send a Sony HID request to unverified device /\u{fffd}x"
    );
    assert_eq!(
        Error::DeviceMismatch("/é".as_bytes().to_vec()).to_string(),
        "refusing to send a Sony HID request to unverified device /é"
    );
}

#[test]
fn rejections_are_told_in_the_order_of_the_report() {
    let message = |report: &[u8]| parse_battery_response(report, 1).unwrap_err().to_string();
    assert_eq!(
        message(&[2]),
        "invalid battery response: report is shorter than its header"
    );
    assert_eq!(
        message(&[9, 0]),
        "invalid battery response: unexpected report ID 0x09"
    );
    assert_eq!(
        message(&CAPTURED_RESPONSE[..19]),
        "invalid battery response: invalid frame length 18"
    );
    assert_eq!(
        message(&[2, 200]),
        "invalid battery response: invalid frame length 200"
    );
    let mut response = CAPTURED_RESPONSE;
    response[12] = 1;
    response[19] = 0;
    assert_eq!(
        message(&response),
        "invalid battery response: transaction 257 does not match 1"
    );
    response[12] = 0;
    assert_eq!(
        message(&response),
        "invalid battery response: checksum 0x00 does not match calculated 0x49"
    );
}

#[test]
fn twenty_bytes_are_enough_for_a_response() {
    let whole = parse_battery_response(&CAPTURED_RESPONSE, 1).unwrap();
    let meaningful = parse_battery_response(&CAPTURED_RESPONSE[..20], 1).unwrap();
    assert_eq!(whole, meaningful);
    let mut padded = CAPTURED_RESPONSE;
    padded[20] = 0xee;
    padded[63] = 0xee;
    assert_eq!(parse_battery_response(&padded, 1).unwrap(), whole);
}

#[test]
fn every_transaction_gets_its_own_request_and_response() {
    for transaction in [0, 1, 0x00ff, 0x0100, 0xabcd, 0xffff] {
        let request = battery_request(transaction);
        assert_eq!(u16::from_le_bytes([request[11], request[12]]), transaction);
        let sum = request[6..13]
            .iter()
            .fold(0_u8, |sum, byte| sum.wrapping_add(*byte));
        assert_eq!(request[13], sum);

        let response = response_for(transaction);
        assert!(parse_battery_response(&response, transaction).is_ok());
        assert!(looks_like_matching_battery_event(&response, transaction));
        let other = transaction.wrapping_add(1);
        assert!(parse_battery_response(&response, other).is_err());
        assert!(!looks_like_matching_battery_event(&response, other));
        assert!(parse_battery_response(&request, transaction).is_err());
    }
}

#[test]
fn one_changed_byte_of_the_payload_is_noticed() {
    for offset in 13..20 {
        let mut response = CAPTURED_RESPONSE;
        response[offset] ^= 0x20;
        assert!(parse_battery_response(&response, 1).is_err());
        assert!(looks_like_matching_battery_event(&response, 1));
    }
}

#[test]
fn payload_bytes_become_cells() {
    let mut response = CAPTURED_RESPONSE;
    response[13..19].copy_from_slice(&[1, 100, 2, 101, 7, 0]);
    fix_checksum(&mut response);
    let reading = parse_battery_response(&response, 1).unwrap();
    assert_eq!(
        reading,
        BatteryReading {
            left: BatteryCell {
                percent: Some(100),
                state: BatteryState::Charging
            },
            right: BatteryCell {
                percent: None,
                state: BatteryState::Error
            },
            case: BatteryCell {
                percent: Some(0),
                state: BatteryState::Unknown(7)
            },
        }
    );
    assert_eq!(reading.left.to_string(), "100% (charging)");
    assert_eq!(reading.right.to_string(), "unknown (error)");
    assert_eq!(reading.case.to_string(), "0% (unknown (0x07))");
}

#[test]
fn every_state_byte_keeps_its_meaning() {
    let mut seen: Vec<BatteryState> = vec![];
    for byte in 0..=255_u8 {
        let state = BatteryState::from_byte(byte);
        assert!(!seen.contains(&state));
        seen.push(state);
        let cell = BatteryCell::from_bytes(0, byte);
        assert_eq!(cell.percent, if byte <= 100 { Some(byte) } else { None });
    }
    assert_eq!(
        BatteryState::from_byte(0xfe).to_string(),
        "unknown (0xfe)"
    );
}
