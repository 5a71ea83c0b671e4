//! One battery query, from the device path to the reading.
//!
//! A [`Query`] decides what is to be done next; its driver does it and reports the
//! outcome with [`Query::advance`], until the query is done.

use vstd::prelude::*;
use vstd::slice::{slice_subrange, slice_to_vec};

use crate::battery::BatteryReading;
use crate::clock::{Duration, NANOS_PER_SECOND};
use crate::device::{
    confirm_interface, device_sysfs_node, inspect_opened_device, is_hidraw_path,
    validate_device_path_in, DeviceMetadata, InterfaceFiles, InterfaceFilesView, DEVICE_ROOT,
    SYS_CHAR_ROOT,
};
use crate::error::{io_error, Error, ErrorView, IoError, IoErrorKind, IoErrorView};
use crate::protocol::{
    battery_request, is_matching_event, is_response, looks_like_matching_battery_event,
    parse_battery_response, payload_of, reading_of, rejection, request, MEANINGFUL_LENGTH,
    REPORT_SIZE,
};
use crate::text::{decimal, push_decimal};

verus! {

/// The longest pause before another attempt, in nanoseconds.
pub const RETRY_INTERVAL: u128 = 10_000_000;

/// How long a query may take unless told otherwise, in nanoseconds.
pub const DEFAULT_TIMEOUT: u128 = 3_000_000_000;

/// How long a query may take unless told otherwise.
pub fn default_timeout() -> (timeout: Duration)
    ensures
        timeout.nanos == 3 * NANOS_PER_SECOND,
{
    Duration { nanos: DEFAULT_TIMEOUT }
}

/// What a query gives: the reading, and the meaningful bytes of the response.
#[derive(Debug)]
pub struct QueryResult {
    pub reading: BatteryReading,
    pub raw_response: Vec<u8>,
}

/// The contents of a [`QueryResult`].
pub struct QueryResultView {
    pub reading: BatteryReading,
    pub raw_response: Seq<u8>,
}

impl View for QueryResult {
    type V = QueryResultView;

    open spec fn view(&self) -> QueryResultView {
        QueryResultView { reading: self.reading, raw_response: self.raw_response@ }
    }
}

/// The contents of an outcome.
pub open spec fn outcome_view<T>(outcome: Result<T, IoError>) -> Result<T, IoErrorView> {
    match outcome {
        Ok(value) => Ok(value),
        Err(error) => Err(error@),
    }
}

/// The contents of the outcome of a read.
pub open spec fn bytes_outcome_view(outcome: Result<Vec<u8>, IoError>) -> Result<
    Seq<u8>,
    IoErrorView,
> {
    match outcome {
        Ok(bytes) => Ok(bytes@),
        Err(error) => Err(error@),
    }
}

/// Allows another attempt as long as the time is not up.
pub fn ensure_before_deadline(elapsed: Duration, timeout: Duration) -> (result: Result<(), Error>)
    ensures
        match result {
            Ok(_) => elapsed.nanos < timeout.nanos,
            Err(error) => elapsed.nanos >= timeout.nanos && error@ == ErrorView::Timeout(timeout),
        },
{
    if elapsed.nanos >= timeout.nanos {
        Err(Error::Timeout(timeout))
    } else {
        Ok(())
    }
}

/// How long to pause before another attempt: the retry interval, or what is left of
/// the time where that is less.
pub open spec fn retry_pause(elapsed: Duration, timeout: Duration) -> Duration {
    let left = (timeout.nanos - elapsed.nanos) as u128;
    Duration {
        nanos: if left < RETRY_INTERVAL {
            left
        } else {
            RETRY_INTERVAL
        },
    }
}

/// How long to pause before another attempt, unless the time has run out.
pub fn pause_until_retry(elapsed: Duration, timeout: Duration) -> (result: Result<Duration, Error>)
    ensures
        match result {
            Ok(pause) => elapsed.nanos <= timeout.nanos && pause == retry_pause(elapsed, timeout),
            Err(error) => elapsed.nanos > timeout.nanos && error@ == ErrorView::Timeout(timeout),
        },
{
    match timeout.checked_sub(elapsed) {
        Some(left) => Ok(
            Duration {
                nanos: if left.nanos < RETRY_INTERVAL {
                    left.nanos
                } else {
                    RETRY_INTERVAL
                },
            },
        ),
        None => Err(Error::Timeout(timeout)),
    }
}

/// What follows from the outcome of a write.
#[derive(Debug)]
pub enum WriteStep {
    Sent,
    Retry,
    Pause(Duration),
    Failed(Error),
}

/// The contents of a [`WriteStep`].
pub enum WriteStepView {
    Sent,
    Retry,
    Pause(Duration),
    Failed(ErrorView),
}

impl View for WriteStep {
    type V = WriteStepView;

    open spec fn view(&self) -> WriteStepView {
        match self {
            WriteStep::Sent => WriteStepView::Sent,
            WriteStep::Retry => WriteStepView::Retry,
            WriteStep::Pause(pause) => WriteStepView::Pause(*pause),
            WriteStep::Failed(error) => WriteStepView::Failed(error@),
        }
    }
}

/// What follows from the outcome of a write: a report is sent whole or not at all,
/// an interrupted write is repeated, and one that would block is repeated after a pause.
pub open spec fn after_write(
    outcome: Result<usize, IoErrorView>,
    elapsed: Duration,
    timeout: Duration,
) -> WriteStepView {
    match outcome {
        Ok(length) => if length == REPORT_SIZE {
            WriteStepView::Sent
        } else {
            WriteStepView::Failed(
                ErrorView::Io {
                    operation: "send complete battery GET report"@,
                    source: IoErrorView {
                        kind: IoErrorKind::WriteZero,
                        message: "wrote "@ + decimal(length as nat) + " of "@ + decimal(
                            REPORT_SIZE as nat,
                        ) + " bytes"@,
                    },
                },
            )
        },
        Err(source) => match source.kind {
            IoErrorKind::Interrupted => WriteStepView::Retry,
            IoErrorKind::WouldBlock => if elapsed.nanos > timeout.nanos {
                WriteStepView::Failed(ErrorView::Timeout(timeout))
            } else {
                WriteStepView::Pause(retry_pause(elapsed, timeout))
            },
            _ => WriteStepView::Failed(
                ErrorView::Io { operation: "send battery GET report"@, source },
            ),
        },
    }
}

/// Decides what follows from the outcome of writing the request.
pub fn write_request(
    outcome: Result<usize, IoError>,
    elapsed: Duration,
    timeout: Duration,
) -> (step: WriteStep)
    ensures
        step@ == after_write(outcome_view(outcome), elapsed, timeout),
{
    match outcome {
        Ok(length) => {
            if length == REPORT_SIZE {
                WriteStep::Sent
            } else {
                let mut message = "wrote ".to_owned();
                push_decimal(&mut message, length as u128);
                message.append(" of ");
                push_decimal(&mut message, REPORT_SIZE as u128);
                message.append(" bytes");
                WriteStep::Failed(
                    io_error(
                        "send complete battery GET report",
                        IoError { kind: IoErrorKind::WriteZero, message },
                    ),
                )
            }
        },
        Err(source) => match source.kind {
            IoErrorKind::Interrupted => WriteStep::Retry,
            IoErrorKind::WouldBlock => match pause_until_retry(elapsed, timeout) {
                Ok(pause) => WriteStep::Pause(pause),
                Err(error) => WriteStep::Failed(error),
            },
            _ => WriteStep::Failed(io_error("send battery GET report", source)),
        },
    }
}

/// What follows from the outcome of a read.
#[derive(Debug)]
pub enum ReadStep {
    Received(QueryResult),
    Retry,
    Pause(Duration),
    Failed(Error),
}

/// The contents of a [`ReadStep`].
pub enum ReadStepView {
    Received(QueryResultView),
    Retry,
    Pause(Duration),
    Failed(ErrorView),
}

impl View for ReadStep {
    type V = ReadStepView;

    open spec fn view(&self) -> ReadStepView {
        match self {
            ReadStep::Received(result) => ReadStepView::Received(result@),
            ReadStep::Retry => ReadStepView::Retry,
            ReadStep::Pause(pause) => ReadStepView::Pause(*pause),
            ReadStep::Failed(error) => ReadStepView::Failed(error@),
        }
    }
}

/// What follows from the outcome of a read: a response is decoded, a malformed battery
/// event of this transaction is an error, and any other report is passed over. An
/// interrupted read is repeated, and one that would block is repeated after a pause.
pub open spec fn after_read(
    outcome: Result<Seq<u8>, IoErrorView>,
    transaction: u16,
    elapsed: Duration,
    timeout: Duration,
) -> ReadStepView {
    match outcome {
        Ok(report) => if report.len() == 0 {
            ReadStepView::Failed(
                ErrorView::Io {
                    operation: "read battery response"@,
                    source: IoErrorView {
                        kind: IoErrorKind::UnexpectedEof,
                        message: "HID device returned no data"@,
                    },
                },
            )
        } else if is_response(report, transaction) {
            ReadStepView::Received(
                QueryResultView {
                    reading: reading_of(payload_of(report)),
                    raw_response: report.take(MEANINGFUL_LENGTH as int),
                },
            )
        } else if is_matching_event(report, transaction) {
            ReadStepView::Failed(ErrorView::InvalidResponse(rejection(report, transaction)))
        } else {
            ReadStepView::Retry
        },
        Err(source) => match source.kind {
            IoErrorKind::Interrupted => ReadStepView::Retry,
            IoErrorKind::WouldBlock => if elapsed.nanos > timeout.nanos {
                ReadStepView::Failed(ErrorView::Timeout(timeout))
            } else {
                ReadStepView::Pause(retry_pause(elapsed, timeout))
            },
            _ => ReadStepView::Failed(
                ErrorView::Io { operation: "read battery response"@, source },
            ),
        },
    }
}

/// Decides what follows from the outcome of reading one report.
pub fn read_response(
    outcome: Result<Vec<u8>, IoError>,
    transaction: u16,
    elapsed: Duration,
    timeout: Duration,
) -> (step: ReadStep)
    ensures
        step@ == after_read(bytes_outcome_view(outcome), transaction, elapsed, timeout),
{
    match outcome {
        Ok(response) => {
            if response.len() == 0 {
                return ReadStep::Failed(
                    io_error(
                        "read battery response",
                        IoError::new(IoErrorKind::UnexpectedEof, "HID device returned no data"),
                    ),
                );
            }
            match parse_battery_response(response.as_slice(), transaction) {
                Ok(reading) => {
                    proof {
                        assert(response@.take(20)[1] == response@[1]);
                        assert(response@[1] == 18);
                    }
                    let meaningful_length: usize = 2 + response[1] as usize;
                    let raw_response = slice_to_vec(
                        slice_subrange(response.as_slice(), 0, meaningful_length),
                    );
                    assert(raw_response@ =~= response@.take(MEANINGFUL_LENGTH as int));
                    ReadStep::Received(QueryResult { reading, raw_response })
                },
                Err(error) => {
                    if looks_like_matching_battery_event(response.as_slice(), transaction) {
                        ReadStep::Failed(error)
                    } else {
                        ReadStep::Retry
                    }
                },
            }
        },
        Err(source) => match source.kind {
            IoErrorKind::Interrupted => ReadStep::Retry,
            IoErrorKind::WouldBlock => match pause_until_retry(elapsed, timeout) {
                Ok(pause) => ReadStep::Pause(pause),
                Err(error) => ReadStep::Failed(error),
            },
            _ => ReadStep::Failed(io_error("read battery response", source)),
        },
    }
}

/// The transaction IDs of successive queries, the next of them first.
#[derive(Debug)]
pub struct Transactions {
    next: u16,
}

impl View for Transactions {
    type V = u16;

    closed spec fn view(&self) -> u16 {
        self.next
    }
}

/// The transaction ID after another: zero follows the greatest.
pub open spec fn following(transaction: u16) -> u16 {
    ((transaction + 1) % 0x1_0000) as u16
}

/// The transaction ID that stands `steps` after another.
pub open spec fn following_by(transaction: u16, steps: nat) -> u16
    decreases steps,
{
    if steps == 0 {
        transaction
    } else {
        following(following_by(transaction, (steps - 1) as nat))
    }
}

impl Transactions {
    /// The IDs from one on.
    pub fn new() -> (transactions: Self)
        ensures
            transactions@ == 1,
    {
        Transactions { next: 1 }
    }

    /// Takes the next ID.
    pub fn take(&mut self) -> (transaction: u16)
        ensures
            transaction == old(self)@,
            final(self)@ == following(old(self)@),
    {
        let transaction: u16 = self.next;
        self.next = if transaction == 0xffff {
            0
        } else {
            transaction + 1
        };
        transaction
    }
}

proof fn lemma_following_by(transaction: u16, steps: nat)
    ensures
        following_by(transaction, steps) == (transaction + steps) % 0x1_0000,
    decreases steps,
{
    if steps > 0 {
        lemma_following_by(transaction, (steps - 1) as nat);
    }
}

/// No two of any 65536 successive queries have the same transaction ID.
pub proof fn law_transactions_do_not_repeat_soon(transaction: u16, earlier: nat, later: nat)
    requires
        earlier < later < earlier + 0x1_0000,
    ensures
        following_by(transaction, earlier) != following_by(transaction, later),
{
    lemma_following_by(transaction, earlier);
    lemma_following_by(transaction, later);
}

/// What a query waits for. The driver does what the phase says and reports the event
/// that answers it.
#[derive(Debug)]
pub enum Phase {
    /// Open the device path for reading and writing, without following a symbolic link.
    Open,
    /// Ask what kind of file the opened device is.
    Inspect,
    /// Read what the kernel tells of the opened device under a path.
    Identify(Vec<u8>),
    /// Start the clock.
    Start,
    /// Write the request to the opened device.
    Write,
    /// Pause, and then look at the clock.
    PauseBeforeWrite(Duration),
    /// Read one report from the opened device.
    Read,
    /// Pause, and then look at the clock.
    PauseBeforeRead(Duration),
    /// Nothing: the query has ended.
    Done(Result<QueryResult, Error>),
}

/// The contents of a [`Phase`].
pub enum PhaseView {
    Open,
    Inspect,
    Identify(Seq<u8>),
    Start,
    Write,
    PauseBeforeWrite(Duration),
    Read,
    PauseBeforeRead(Duration),
    Done(Result<QueryResultView, ErrorView>),
}

impl View for Phase {
    type V = PhaseView;

    open spec fn view(&self) -> PhaseView {
        match self {
            Phase::Open => PhaseView::Open,
            Phase::Inspect => PhaseView::Inspect,
            Phase::Identify(node) => PhaseView::Identify(node@),
            Phase::Start => PhaseView::Start,
            Phase::Write => PhaseView::Write,
            Phase::PauseBeforeWrite(pause) => PhaseView::PauseBeforeWrite(*pause),
            Phase::Read => PhaseView::Read,
            Phase::PauseBeforeRead(pause) => PhaseView::PauseBeforeRead(*pause),
            Phase::Done(Ok(result)) => PhaseView::Done(Ok(result@)),
            Phase::Done(Err(error)) => PhaseView::Done(Err(error@)),
        }
    }
}

/// The outcome of what a phase asked for. Where it took part in the exchange, the time
/// since the clock was started goes with it.
#[derive(Debug)]
pub enum Event {
    Opened(Result<(), IoError>),
    Inspected(Result<DeviceMetadata, IoError>),
    Identified(InterfaceFiles),
    Clock(Duration),
    Written(Result<usize, IoError>, Duration),
    ReadBack(Result<Vec<u8>, IoError>, Duration),
}

/// The contents of an [`Event`].
pub enum EventView {
    Opened(Result<(), IoErrorView>),
    Inspected(Result<DeviceMetadata, IoErrorView>),
    Identified(InterfaceFilesView),
    Clock(Duration),
    Written(Result<usize, IoErrorView>, Duration),
    ReadBack(Result<Seq<u8>, IoErrorView>, Duration),
}

impl View for Event {
    type V = EventView;

    open spec fn view(&self) -> EventView {
        match self {
            Event::Opened(outcome) => EventView::Opened(outcome_view(*outcome)),
            Event::Inspected(outcome) => EventView::Inspected(outcome_view(*outcome)),
            Event::Identified(files) => EventView::Identified(files@),
            Event::Clock(elapsed) => EventView::Clock(*elapsed),
            Event::Written(outcome, elapsed) => EventView::Written(
                outcome_view(*outcome),
                *elapsed,
            ),
            Event::ReadBack(outcome, elapsed) => EventView::ReadBack(
                bytes_outcome_view(*outcome),
                *elapsed,
            ),
        }
    }
}

impl EventView {
    /// The time at which the event came, where it is known.
    pub open spec fn elapsed(self) -> Option<Duration> {
        match self {
            EventView::Clock(elapsed) => Some(elapsed),
            EventView::Written(_, elapsed) => Some(elapsed),
            EventView::ReadBack(_, elapsed) => Some(elapsed),
            _ => None,
        }
    }
}

/// The contents of a [`Query`].
pub struct QueryView {
    pub path: Seq<u8>,
    pub sys_char_root: Seq<u8>,
    pub timeout: Duration,
    pub transaction: u16,
    pub phase: PhaseView,
}

impl QueryView {
    /// A query at its start. A path that is not that of a HID device node directly in
    /// `device_root` ends it before anything is done.
    pub open spec fn start(
        path: Seq<u8>,
        timeout: Duration,
        transaction: u16,
        device_root: Seq<u8>,
        sys_char_root: Seq<u8>,
    ) -> Self {
        QueryView {
            path,
            sys_char_root,
            timeout,
            transaction,
            phase: if is_hidraw_path(path, device_root) {
                PhaseView::Open
            } else {
                PhaseView::Done(Err(ErrorView::DeviceMismatch(path)))
            },
        }
    }

    /// The same query in another phase.
    pub open spec fn with_phase(self, phase: PhaseView) -> Self {
        QueryView { phase, ..self }
    }

    /// The same query, ended by an error.
    pub open spec fn failed(self, error: ErrorView) -> Self {
        self.with_phase(PhaseView::Done(Err(error)))
    }

    /// The query in a phase that may begin before the deadline only.
    pub open spec fn before_deadline(self, elapsed: Duration, phase: PhaseView) -> Self {
        if elapsed.nanos < self.timeout.nanos {
            self.with_phase(phase)
        } else {
            self.failed(ErrorView::Timeout(self.timeout))
        }
    }

    /// Whether an event is of the kind that the phase waits for.
    pub open spec fn is_answered_by(self, event: EventView) -> bool {
        match self.phase {
            PhaseView::Open => event is Opened,
            PhaseView::Inspect => event is Inspected,
            PhaseView::Identify(_) => event is Identified,
            PhaseView::Start => event is Clock,
            PhaseView::Write => event is Written,
            PhaseView::PauseBeforeWrite(_) => event is Clock,
            PhaseView::Read => event is ReadBack,
            PhaseView::PauseBeforeRead(_) => event is Clock,
            PhaseView::Done(_) => false,
        }
    }

    /// The query after an event. An event that the phase does not wait for changes nothing.
    pub open spec fn step(self, event: EventView) -> Self {
        match (self.phase, event) {
            (PhaseView::Open, EventView::Opened(outcome)) => match outcome {
                Ok(_) => self.with_phase(PhaseView::Inspect),
                Err(source) => self.failed(
                    ErrorView::Io {
                        operation: "open HID device for reading and battery queries"@,
                        source,
                    },
                ),
            },
            (PhaseView::Inspect, EventView::Inspected(outcome)) => match outcome {
                Ok(metadata) => if metadata.is_char_device {
                    self.with_phase(
                        PhaseView::Identify(
                            device_sysfs_node(metadata.device_number, self.sys_char_root),
                        ),
                    )
                } else {
                    self.failed(ErrorView::DeviceMismatch(self.path))
                },
                Err(source) => self.failed(
                    ErrorView::Io { operation: "inspect opened HID device"@, source },
                ),
            },
            (PhaseView::Identify(_), EventView::Identified(files)) => if files.is_expected() {
                self.with_phase(PhaseView::Start)
            } else {
                self.failed(ErrorView::DeviceMismatch(self.path))
            },
            (PhaseView::Start, EventView::Clock(elapsed)) => self.before_deadline(
                elapsed,
                PhaseView::Write,
            ),
            (PhaseView::PauseBeforeWrite(_), EventView::Clock(elapsed)) => self.before_deadline(
                elapsed,
                PhaseView::Write,
            ),
            (PhaseView::Write, EventView::Written(outcome, elapsed)) => match after_write(
                outcome,
                elapsed,
                self.timeout,
            ) {
                WriteStepView::Sent => self.before_deadline(elapsed, PhaseView::Read),
                WriteStepView::Retry => self.before_deadline(elapsed, PhaseView::Write),
                WriteStepView::Pause(pause) => self.with_phase(PhaseView::PauseBeforeWrite(pause)),
                WriteStepView::Failed(error) => self.failed(error),
            },
            (PhaseView::PauseBeforeRead(_), EventView::Clock(elapsed)) => self.before_deadline(
                elapsed,
                PhaseView::Read,
            ),
            (PhaseView::Read, EventView::ReadBack(outcome, elapsed)) => match after_read(
                outcome,
                self.transaction,
                elapsed,
                self.timeout,
            ) {
                ReadStepView::Received(result) => self.with_phase(PhaseView::Done(Ok(result))),
                ReadStepView::Retry => self.before_deadline(elapsed, PhaseView::Read),
                ReadStepView::Pause(pause) => self.with_phase(PhaseView::PauseBeforeRead(pause)),
                ReadStepView::Failed(error) => self.failed(error),
            },
            _ => self,
        }
    }

    /// The query after a series of events.
    pub open spec fn run(self, events: Seq<EventView>) -> Self
        decreases events.len(),
    {
        if events.len() == 0 {
            self
        } else {
            self.run(events.drop_last()).step(events.last())
        }
    }
}

/// A battery query under way.
#[derive(Debug)]
pub struct Query {
    path: Vec<u8>,
    sys_char_root: Vec<u8>,
    timeout: Duration,
    transaction: u16,
    phase: Phase,
}

impl View for Query {
    type V = QueryView;

    closed spec fn view(&self) -> QueryView {
        QueryView {
            path: self.path@,
            sys_char_root: self.sys_char_root@,
            timeout: self.timeout,
            transaction: self.transaction,
            phase: self.phase@,
        }
    }
}

impl Query {
    /// What the query waits for.
    pub fn phase(&self) -> (phase: &Phase)
        ensures
            phase@ == self@.phase,
    {
        &self.phase
    }

    /// The path of the device that is asked.
    pub fn path(&self) -> (path: &[u8])
        ensures
            path@ == self@.path,
    {
        self.path.as_slice()
    }

    /// The one report that the query ever sends.
    pub fn request(&self) -> (report: [u8; REPORT_SIZE])
        ensures
            report@ == request(self@.transaction),
    {
        battery_request(self.transaction)
    }

    /// The outcome of the query, or the query itself where it has not ended.
    pub fn finish(self) -> (outcome: Result<Result<QueryResult, Error>, Query>)
        ensures
            match outcome {
                Ok(Ok(result)) => self@.phase == PhaseView::Done(Ok(result@)),
                Ok(Err(error)) => self@.phase == PhaseView::Done(Err(error@)),
                Err(query) => !(self@.phase is Done) && query == self,
            },
    {
        match self.phase {
            Phase::Done(outcome) => Ok(outcome),
            phase => Err(
                Query {
                    path: self.path,
                    sys_char_root: self.sys_char_root,
                    timeout: self.timeout,
                    transaction: self.transaction,
                    phase,
                },
            ),
        }
    }

    /// The phase that begins before the deadline only.
    fn before_deadline(elapsed: Duration, timeout: Duration, phase: Phase) -> (next: Phase)
        ensures
            next@ == (if elapsed.nanos < timeout.nanos {
                phase@
            } else {
                PhaseView::Done(Err(ErrorView::Timeout(timeout)))
            }),
    {
        match ensure_before_deadline(elapsed, timeout) {
            Ok(_) => phase,
            Err(error) => Phase::Done(Err(error)),
        }
    }

    /// Takes the outcome of what the phase asked for.
    pub fn advance(self, event: Event) -> (next: Query)
        ensures
            next@ == self@.step(event@),
    {
        let Query { path, sys_char_root, timeout, transaction, phase } = self;
        let phase = match (phase, event) {
            (Phase::Open, Event::Opened(outcome)) => match outcome {
                Ok(_) => Phase::Inspect,
                Err(source) => Phase::Done(
                    Err(io_error("open HID device for reading and battery queries", source)),
                ),
            },
            (Phase::Inspect, Event::Inspected(outcome)) => match inspect_opened_device(
                path.as_slice(),
                sys_char_root.as_slice(),
                outcome,
            ) {
                Ok(node) => Phase::Identify(node),
                Err(error) => Phase::Done(Err(error)),
            },
            (Phase::Identify(_), Event::Identified(files)) => match confirm_interface(
                path.as_slice(),
                &files,
            ) {
                Ok(_) => Phase::Start,
                Err(error) => Phase::Done(Err(error)),
            },
            (Phase::Start, Event::Clock(elapsed)) => Query::before_deadline(
                elapsed,
                timeout,
                Phase::Write,
            ),
            (Phase::PauseBeforeWrite(_), Event::Clock(elapsed)) => Query::before_deadline(
                elapsed,
                timeout,
                Phase::Write,
            ),
            (Phase::Write, Event::Written(outcome, elapsed)) => match write_request(
                outcome,
                elapsed,
                timeout,
            ) {
                WriteStep::Sent => Query::before_deadline(elapsed, timeout, Phase::Read),
                WriteStep::Retry => Query::before_deadline(elapsed, timeout, Phase::Write),
                WriteStep::Pause(pause) => Phase::PauseBeforeWrite(pause),
                WriteStep::Failed(error) => Phase::Done(Err(error)),
            },
            (Phase::PauseBeforeRead(_), Event::Clock(elapsed)) => Query::before_deadline(
                elapsed,
                timeout,
                Phase::Read,
            ),
            (Phase::Read, Event::ReadBack(outcome, elapsed)) => match read_response(
                outcome,
                transaction,
                elapsed,
                timeout,
            ) {
                ReadStep::Received(result) => Phase::Done(Ok(result)),
                ReadStep::Retry => Query::before_deadline(elapsed, timeout, Phase::Read),
                ReadStep::Pause(pause) => Phase::PauseBeforeRead(pause),
                ReadStep::Failed(error) => Phase::Done(Err(error)),
            },
            (phase, _) => phase,
        };
        Query { path, sys_char_root, timeout, transaction, phase }
    }
}

/// Starts the query of a transaction at a device directly in `device_root`, of which
/// the kernel tells under `sys_char_root`.
pub fn query_battery_with_transaction(
    path: &[u8],
    timeout: Duration,
    transaction: u16,
    device_root: &[u8],
    sys_char_root: &[u8],
) -> (query: Query)
    ensures
        query@ == QueryView::start(path@, timeout, transaction, device_root@, sys_char_root@),
{
    let phase = match validate_device_path_in(path, device_root) {
        Ok(name) => {
            assert(is_hidraw_path(path@, device_root@));
            Phase::Open
        },
        Err(error) => Phase::Done(Err(error)),
    };
    Query {
        path: slice_to_vec(path),
        sys_char_root: slice_to_vec(sys_char_root),
        timeout,
        transaction,
        phase,
    }
}

/// Starts the next query at a device directly in `device_root`, of which the kernel
/// tells under `sys_char_root`.
pub fn query_battery_with(
    path: &[u8],
    timeout: Duration,
    transactions: &mut Transactions,
    device_root: &[u8],
    sys_char_root: &[u8],
) -> (query: Query)
    ensures
        query@ == QueryView::start(
            path@,
            timeout,
            old(transactions)@,
            device_root@,
            sys_char_root@,
        ),
        final(transactions)@ == following(old(transactions)@),
{
    let transaction: u16 = transactions.take();
    query_battery_with_transaction(path, timeout, transaction, device_root, sys_char_root)
}

/// Starts the next query at a device under `/dev`.
pub fn query_battery(path: &[u8], timeout: Duration, transactions: &mut Transactions) -> (query:
    Query)
    ensures
        query@ == QueryView::start(
            path@,
            timeout,
            old(transactions)@,
            DEVICE_ROOT@,
            SYS_CHAR_ROOT@,
        ),
        final(transactions)@ == following(old(transactions)@),
{
    query_battery_with(
        path,
        timeout,
        transactions,
        DEVICE_ROOT.as_slice(),
        SYS_CHAR_ROOT.as_slice(),
    )
}

} // verus!
