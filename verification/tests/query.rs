use std::collections::VecDeque;

use inzone_buds::clock::Duration;
use inzone_buds::device::{DeviceMetadata, InterfaceFiles, EXPECTED_REPORT_COLLECTION};
use inzone_buds::error::{Error, IoError, IoErrorKind};
use inzone_buds::protocol::battery_request;
use inzone_buds::query::{
    default_timeout, ensure_before_deadline, pause_until_retry, query_battery, query_battery_with,
    query_battery_with_transaction, read_response, write_request, Event, Phase, Query,
    QueryResult, ReadStep, Transactions, WriteStep,
};

const CAPTURED_RESPONSE: [u8; 64] = [
    0x02, 0x12, 0x04, 0xff, 0x0f, 0x00, 0x96, 0xc3, 0x14, 0x04, 0x10, 0x01, 0x00, 0x00, 0x36, 0x00,
    0x38, 0xff, 0x5a, 0x49, 0x00, 0x00, 0x00, 0x00, 0x00, 0x00, 0x00, 0x00, 0x00, 0x00, 0x00, 0x00,
    0x00, 0x00, 0x00, 0x00, 0x00, 0x00, 0x00, 0x00, 0x00, 0x00, 0x00, 0x00, 0x00, 0x00, 0x00, 0x00,
    0x00, 0x00, 0x00, 0x00, 0x00, 0x00, 0x00, 0x00, 0x00, 0x00, 0x00, 0x00, 0x00, 0x00, 0x00, 0x00,
];

fn response_for(transaction: u16) -> [u8; 64] {
    let mut response = CAPTURED_RESPONSE;
    response[11..13].copy_from_slice(&transaction.to_le_bytes());
    response[19] = response[5..19]
        .iter()
        .fold(0_u8, |sum, byte| sum.wrapping_add(*byte));
    response
}

fn io(kind: IoErrorKind) -> IoError {
    IoError::new(kind, "scripted")
}

fn receiver_files() -> InterfaceFiles {
    InterfaceFiles {
        uevent: Some("HID_ID=0003:0000054C:00000EC2\n".to_string()),
        interface_number: Some("05\n".to_string()),
        report_descriptor: Some(EXPECTED_REPORT_COLLECTION.to_vec()),
    }
}

enum IoAction {
    Data(Vec<u8>),
    Length(usize),
    Error(IoErrorKind),
    DelayedError(Duration, IoErrorKind),
}

/// A device that follows a script, with a clock that moves only with the script.
struct ScriptedDevice {
    opened: Result<(), IoError>,
    metadata: Result<DeviceMetadata, IoError>,
    files: InterfaceFiles,
    reads: VecDeque<IoAction>,
    writes: VecDeque<IoAction>,
    written: Vec<u8>,
    clock: u128,
    asked: Vec<Vec<u8>>,
}

impl ScriptedDevice {
    fn new(reads: Vec<IoAction>, writes: Vec<IoAction>) -> Self {
        ScriptedDevice {
            opened: Ok(()),
            metadata: Ok(DeviceMetadata {
                is_char_device: true,
                device_number: 0xf303,
            }),
            files: receiver_files(),
            reads: reads.into(),
            writes: writes.into(),
            written: Vec::new(),
            clock: 0,
            asked: Vec::new(),
        }
    }

    fn elapsed(&self) -> Duration {
        Duration { nanos: self.clock }
    }

    fn write(&mut self, buffer: &[u8]) -> Result<usize, IoError> {
        match self
            .writes
            .pop_front()
            .unwrap_or(IoAction::Length(buffer.len()))
        {
            IoAction::Length(length) => {
                self.written
                    .extend_from_slice(&buffer[..length.min(buffer.len())]);
                Ok(length)
            }
            IoAction::Error(kind) => Err(io(kind)),
            IoAction::DelayedError(delay, kind) => {
                self.clock += delay.nanos;
                Err(io(kind))
            }
            IoAction::Data(data) => {
                let length = data.len().min(buffer.len());
                self.written.extend_from_slice(&buffer[..length]);
                Ok(length)
            }
        }
    }

    fn read(&mut self) -> Result<Vec<u8>, IoError> {
        match self.reads.pop_front().unwrap_or(IoAction::Length(0)) {
            IoAction::Data(data) => Ok(data),
            IoAction::Length(length) => Ok(vec![0; length]),
            IoAction::Error(kind) => Err(io(kind)),
            IoAction::DelayedError(delay, kind) => {
                self.clock += delay.nanos;
                Err(io(kind))
            }
        }
    }

    fn answer(&mut self, query: &Query) -> Event {
        match query.phase() {
            Phase::Open => Event::Opened(self.opened.clone()),
            Phase::Inspect => Event::Inspected(self.metadata.clone()),
            Phase::Identify(node) => {
                self.asked.push(node.clone());
                Event::Identified(InterfaceFiles {
                    uevent: self.files.uevent.clone(),
                    interface_number: self.files.interface_number.clone(),
                    report_descriptor: self.files.report_descriptor.clone(),
                })
            }
            Phase::Start => Event::Clock(self.elapsed()),
            Phase::Write => {
                let outcome = self.write(&query.request());
                Event::Written(outcome, self.elapsed())
            }
            Phase::Read => {
                let outcome = self.read();
                Event::ReadBack(outcome, self.elapsed())
            }
            Phase::PauseBeforeWrite(pause) | Phase::PauseBeforeRead(pause) => {
                self.clock += pause.nanos;
                Event::Clock(self.elapsed())
            }
            Phase::Done(_) => unreachable!(),
        }
    }

    fn run(&mut self, mut query: Query) -> Result<QueryResult, Error> {
        loop {
            query = match query.finish() {
                Ok(outcome) => return outcome,
                Err(query) => {
                    let event = self.answer(&query);
                    query.advance(event)
                }
            };
        }
    }

    fn query(&mut self, timeout: Duration, transaction: u16) -> Result<QueryResult, Error> {
        let query = query_battery_with_transaction(
            b"/dev/hidraw3",
            timeout,
            transaction,
            b"/dev",
            b"/sys/dev/char",
        );
        self.run(query)
    }
}

#[test]
fn queries_through_a_scripted_transport() {
    let response = response_for(77);
    let mut device = ScriptedDevice::new(vec![IoAction::Data(response.to_vec())], vec![]);
    let result = device.query(Duration::from_secs(1), 77).unwrap();
    assert_eq!(result.reading.left.percent, Some(54));
    assert_eq!(result.raw_response, response[..20]);
    assert_eq!(device.written, battery_request(77));
    assert_eq!(device.asked, vec![b"/sys/dev/char/243:3".to_vec()]);

    let write_error =
        ScriptedDevice::new(vec![], vec![IoAction::Error(IoErrorKind::BrokenPipe)])
            .query(Duration::from_secs(1), 77)
            .unwrap_err();
    assert!(matches!(
        write_error,
        Error::Io {
            operation: "send battery GET report",
            ..
        }
    ));

    let read_error = ScriptedDevice::new(vec![IoAction::Error(IoErrorKind::BrokenPipe)], vec![])
        .query(Duration::from_secs(1), 77)
        .unwrap_err();
    assert!(matches!(
        read_error,
        Error::Io {
            operation: "read battery response",
            ..
        }
    ));

    let mut transactions = Transactions::new();
    let query = query_battery(b"/tmp/hidraw3", Duration::from_secs(0), &mut transactions);
    assert!(ScriptedDevice::new(vec![], vec![]).run(query).is_err());
}

#[test]
fn handles_every_write_outcome() {
    let request = battery_request(1);
    let second = Duration::from_secs(1);
    let milli = Duration::from_millis(1);
    let send = |device: &mut ScriptedDevice, timeout: Duration| {
        device.reads.push_back(IoAction::Data(response_for(1).to_vec()));
        device.query(timeout, 1)
    };

    let mut interrupted = ScriptedDevice::new(
        vec![],
        vec![
            IoAction::Error(IoErrorKind::Interrupted),
            IoAction::Length(64),
        ],
    );
    send(&mut interrupted, second).unwrap();
    assert_eq!(interrupted.written, request);

    let mut data_action = ScriptedDevice::new(vec![], vec![IoAction::Data(vec![0; 64])]);
    send(&mut data_action, second).unwrap();

    let mut short = ScriptedDevice::new(vec![], vec![IoAction::Length(3)]);
    assert_eq!(
        send(&mut short, second).unwrap_err().to_string(),
        "send complete battery GET report: wrote 3 of 64 bytes"
    );

    let mut failed = ScriptedDevice::new(vec![], vec![IoAction::Error(IoErrorKind::BrokenPipe)]);
    assert!(send(&mut failed, second).is_err());

    let mut blocked = ScriptedDevice::new(vec![], vec![IoAction::Error(IoErrorKind::WouldBlock)]);
    assert!(send(&mut blocked, milli).is_err());
    assert!(blocked.written.is_empty());

    let mut expired_during_write = ScriptedDevice::new(
        vec![],
        vec![IoAction::DelayedError(
            Duration::from_millis(2),
            IoErrorKind::WouldBlock,
        )],
    );
    let error = send(&mut expired_during_write, milli);
    assert!(matches!(
        error,
        Err(Error::Timeout(duration)) if duration == Duration::from_millis(1)
    ));

    let mut unused = ScriptedDevice::new(vec![], vec![]);
    assert!(send(&mut unused, Duration::from_secs(0)).is_err());
    assert!(unused.written.is_empty());
}

#[test]
fn handles_every_read_outcome() {
    let valid = response_for(9);
    let unrelated = vec![0; 64];
    let mut device = ScriptedDevice::new(
        vec![
            IoAction::Error(IoErrorKind::Interrupted),
            IoAction::Data(unrelated),
            IoAction::Data(valid.to_vec()),
        ],
        vec![],
    );
    let result = device.query(Duration::from_secs(1), 9).unwrap();
    assert_eq!(result.reading.right.percent, Some(56));
    assert_eq!(result.raw_response.len(), 20);

    let mut malformed = valid;
    malformed[19] ^= 1;
    let mut device = ScriptedDevice::new(vec![IoAction::Data(malformed.to_vec())], vec![]);
    assert!(matches!(
        device.query(Duration::from_secs(1), 9),
        Err(Error::InvalidResponse(_))
    ));

    for action in [
        IoAction::Length(0),
        IoAction::Error(IoErrorKind::BrokenPipe),
        IoAction::Error(IoErrorKind::WouldBlock),
    ] {
        let timeout = if matches!(action, IoAction::Error(IoErrorKind::WouldBlock)) {
            Duration::from_millis(1)
        } else {
            Duration::from_secs(1)
        };
        let mut device = ScriptedDevice::new(vec![action], vec![]);
        assert!(device.query(timeout, 9).is_err());
    }
    let mut expired_during_read = ScriptedDevice::new(
        vec![IoAction::DelayedError(
            Duration::from_millis(2),
            IoErrorKind::WouldBlock,
        )],
        vec![],
    );
    let error = expired_during_read.query(Duration::from_millis(1), 9);
    assert!(matches!(
        error,
        Err(Error::Timeout(duration)) if duration == Duration::from_millis(1)
    ));
    let mut device = ScriptedDevice::new(vec![], vec![]);
    assert!(device.query(Duration::from_secs(0), 9).is_err());
}

#[test]
fn deadline_helpers_cover_wait_and_expiry() {
    let started = Duration::from_millis(0);
    let pause = pause_until_retry(started, Duration::from_millis(20)).unwrap();
    assert_eq!(pause, Duration::from_millis(10));
    let waited = pause;
    assert!(ensure_before_deadline(waited, Duration::from_secs(1)).is_ok());
    assert!(pause_until_retry(waited, Duration::from_secs(0)).is_err());
    assert!(ensure_before_deadline(waited, Duration::from_secs(0)).is_err());
}

#[test]
fn pauses_end_at_the_deadline() {
    let timeout = Duration::from_millis(20);
    assert_eq!(
        pause_until_retry(Duration::from_millis(13), timeout).unwrap(),
        Duration::from_millis(7)
    );
    assert_eq!(
        pause_until_retry(timeout, timeout).unwrap(),
        Duration::from_millis(0)
    );
    assert!(matches!(
        pause_until_retry(Duration::from_millis(21), timeout),
        Err(Error::Timeout(told)) if told == timeout
    ));
    assert!(ensure_before_deadline(Duration::from_millis(19), timeout).is_ok());
    assert!(ensure_before_deadline(timeout, timeout).is_err());
}

#[test]
fn blocked_device_is_tried_again_every_ten_milliseconds() {
    let mut device = ScriptedDevice::new(
        vec![
            IoAction::Error(IoErrorKind::WouldBlock),
            IoAction::Error(IoErrorKind::WouldBlock),
            IoAction::Data(response_for(5).to_vec()),
        ],
        vec![IoAction::Error(IoErrorKind::WouldBlock)],
    );
    device.query(Duration::from_secs(1), 5).unwrap();
    assert_eq!(device.elapsed(), Duration::from_millis(30));
}

#[test]
fn silent_device_times_out_at_the_deadline() {
    let silent = (0..1000)
        .map(|_| IoAction::Error(IoErrorKind::WouldBlock))
        .collect();
    let mut device = ScriptedDevice::new(silent, vec![]);
    let error = device.query(default_timeout(), 5).unwrap_err();
    assert_eq!(error.to_string(), "no battery response within 3 seconds");
    assert_eq!(device.elapsed(), Duration::from_secs(3));
}

#[test]
fn unverified_devices_are_sent_nothing() {
    let mut denied = ScriptedDevice::new(vec![], vec![]);
    denied.opened = Err(io(IoErrorKind::PermissionDenied));
    let error = denied.query(Duration::from_secs(1), 1).unwrap_err();
    assert_eq!(
        error.to_string(),
        "open HID device for reading and battery queries: scripted"
    );

    let mut regular = ScriptedDevice::new(vec![], vec![]);
    regular.metadata = Ok(DeviceMetadata {
        is_char_device: false,
        device_number: 0,
    });
    assert!(matches!(
        regular.query(Duration::from_secs(1), 1),
        Err(Error::DeviceMismatch(_))
    ));

    let mut unknown = ScriptedDevice::new(vec![], vec![]);
    unknown.metadata = Err(io(IoErrorKind::Other));
    assert!(matches!(
        unknown.query(Duration::from_secs(1), 1),
        Err(Error::Io {
            operation: "inspect opened HID device",
            ..
        })
    ));

    let mut other = ScriptedDevice::new(vec![], vec![]);
    other.files.interface_number = Some("04".to_string());
    assert!(matches!(
        other.query(Duration::from_secs(1), 1),
        Err(Error::DeviceMismatch(_))
    ));

    for device in [denied, regular, unknown, other] {
        assert!(device.written.is_empty());
    }
}

#[test]
fn wrong_paths_are_not_even_opened() {
    for path in ["/tmp/hidraw3", "/dev/null", "/dev/hidraw3/../hidraw4", ""] {
        let query = query_battery_with_transaction(
            path.as_bytes(),
            Duration::from_secs(1),
            1,
            b"/dev",
            b"/sys/dev/char",
        );
        match query.finish() {
            Ok(Err(Error::DeviceMismatch(told))) => assert_eq!(told, path.as_bytes()),
            _ => panic!("not refused"),
        }
    }
}

#[test]
fn production_adapters_fail_safely_without_opening_a_device() {
    let mut transactions = Transactions::new();
    let query = query_battery(
        b"/tmp/inzone-buds-coverage-no-device",
        default_timeout(),
        &mut transactions,
    );
    assert!(matches!(query.finish(), Ok(Err(_))));
}

#[test]
fn transactions_count_up_and_wrap_around() {
    let mut transactions = Transactions::new();
    let first = query_battery(b"/dev/hidraw3", default_timeout(), &mut transactions);
    assert_eq!(first.request(), battery_request(1));
    assert_eq!(first.path(), b"/dev/hidraw3");
    let second = query_battery_with(
        b"/dev/hidraw3",
        default_timeout(),
        &mut transactions,
        b"/dev",
        b"/sys/dev/char",
    );
    assert_eq!(second.request(), battery_request(2));
    for expected in 3..=u16::MAX {
        assert_eq!(transactions.take(), expected);
    }
    assert_eq!(transactions.take(), 0);
    assert_eq!(transactions.take(), 1);
}

#[test]
fn stray_events_change_nothing() {
    let start = || {
        query_battery_with_transaction(
            b"/dev/hidraw3",
            Duration::from_secs(1),
            1,
            b"/dev",
            b"/sys/dev/char",
        )
    };
    let query = start().advance(Event::Written(Ok(64), Duration::from_secs(0)));
    assert!(matches!(query.phase(), Phase::Open));
    let query = query.advance(Event::Identified(receiver_files()));
    assert!(matches!(query.phase(), Phase::Open));
    let query = query.advance(Event::Opened(Ok(())));
    assert!(matches!(query.phase(), Phase::Inspect));
    let failed = start().advance(Event::Opened(Err(io(IoErrorKind::NotFound))));
    let failed = failed.advance(Event::Opened(Ok(())));
    assert!(matches!(failed.phase(), Phase::Done(Err(_))));
}

#[test]
fn single_steps_decide_by_outcome_and_time() {
    let early = Duration::from_millis(1);
    let timeout = Duration::from_millis(20);
    assert!(matches!(write_request(Ok(64), early, timeout), WriteStep::Sent));
    assert!(matches!(
        write_request(Ok(65), early, timeout),
        WriteStep::Failed(Error::Io {
            operation: "send complete battery GET report",
            source: IoError {
                kind: IoErrorKind::WriteZero,
                ..
            }
        })
    ));
    assert!(matches!(
        write_request(Err(io(IoErrorKind::WouldBlock)), early, timeout),
        WriteStep::Pause(pause) if pause == Duration::from_millis(10)
    ));
    assert!(matches!(
        write_request(Err(io(IoErrorKind::Interrupted)), early, timeout),
        WriteStep::Retry
    ));
    assert!(matches!(
        read_response(Ok(vec![]), 1, early, timeout),
        ReadStep::Failed(Error::Io {
            operation: "read battery response",
            source: IoError {
                kind: IoErrorKind::UnexpectedEof,
                ..
            }
        })
    ));
    assert!(matches!(
        read_response(Ok(vec![0]), 1, early, timeout),
        ReadStep::Retry
    ));
    assert!(matches!(
        read_response(Ok(response_for(1)[..20].to_vec()), 1, early, timeout),
        ReadStep::Received(_)
    ));
    assert!(matches!(
        read_response(Ok(response_for(1).to_vec()), 2, early, timeout),
        ReadStep::Retry
    ));
}
