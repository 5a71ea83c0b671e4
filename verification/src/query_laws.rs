//! What holds of every query, whatever its device does.

use vstd::prelude::*;

use crate::battery::BatteryState;
use crate::clock::Duration;
use crate::device::{
    device_sysfs_node, is_hidraw_path, DeviceMetadata, InterfaceFiles, InterfaceFilesView,
};
use crate::error::{Error, ErrorView, IoError, IoErrorKind, IoErrorView};
use crate::protocol::{
    is_matching_event, is_response, payload_of, reading_of, rejection, response,
    MEANINGFUL_LENGTH, REPORT_SIZE,
};
use crate::query::{
    after_read, following, Event, EventView, Phase, PhaseView, QueryResult, QueryResultView,
    QueryView, ReadStep, ReadStepView, WriteStep, WriteStepView, RETRY_INTERVAL,
};
use crate::text::decimal;

verus! {

/// A query keeps its path, its deadline and its transaction, so it sends one and the
/// same report however often it writes.
pub proof fn law_query_keeps_its_terms(query: QueryView, events: Seq<EventView>)
    ensures
        query.run(events).path == query.path,
        query.run(events).sys_char_root == query.sys_char_root,
        query.run(events).timeout == query.timeout,
        query.run(events).transaction == query.transaction,
    decreases events.len(),
{
    if events.len() > 0 {
        law_query_keeps_its_terms(query, events.drop_last());
    }
}

/// A query that has ended stays as it ended.
pub proof fn law_ended_query_stays_ended(query: QueryView, events: Seq<EventView>)
    requires
        query.phase is Done,
    ensures
        query.run(events) == query,
    decreases events.len(),
{
    if events.len() > 0 {
        law_ended_query_stays_ended(query, events.drop_last());
    }
}

/// An event that the query does not wait for changes nothing.
pub proof fn law_stray_events_change_nothing(query: QueryView, event: EventView)
    requires
        !query.is_answered_by(event),
    ensures
        query.step(event) == query,
{
}

/// Whether an event tells that the device was opened.
pub open spec fn is_opened(event: EventView) -> bool {
    event matches EventView::Opened(outcome) && outcome is Ok
}

/// Whether the events show that the device was opened at `i`, found to be a character
/// device at `j`, and found at `k`, where the kernel tells of that very device, to be
/// the battery interface of the receiver.
pub open spec fn shows_receiver(
    query: QueryView,
    events: Seq<EventView>,
    i: int,
    j: int,
    k: int,
) -> bool {
    &&& 0 <= i < j < k < events.len()
    &&& is_opened(events[i])
    &&& events[j] matches EventView::Inspected(Ok(metadata)) && metadata.is_char_device
        && query.run(events.take(k)).phase == PhaseView::Identify(
        device_sysfs_node(metadata.device_number, query.sys_char_root),
    )
    &&& events[k] matches EventView::Identified(files) && files.is_expected()
}

/// Whether the events show that the device was opened at `i` and found to be a
/// character device at `j`.
spec fn shows_char_device(
    query: QueryView,
    events: Seq<EventView>,
    i: int,
    j: int,
    node: Seq<u8>,
) -> bool {
    &&& 0 <= i < j < events.len()
    &&& is_opened(events[i])
    &&& events[j] matches EventView::Inspected(Ok(metadata)) && metadata.is_char_device && node
        == device_sysfs_node(metadata.device_number, query.sys_char_root)
}

/// Whether a query is past the verification of its device.
pub open spec fn is_past_verification(phase: PhaseView) -> bool {
    match phase {
        PhaseView::Open => false,
        PhaseView::Inspect => false,
        PhaseView::Identify(_) => false,
        PhaseView::Done(outcome) => outcome is Ok,
        _ => true,
    }
}

/// Each phase of the verification is entered from the one before it, by the event that
/// shows what that phase was there to show.
proof fn lemma_verification_step(query: QueryView, event: EventView)
    ensures
        query.step(event).phase is Open ==> query.phase is Open,
        query.step(event).phase is Inspect ==> query.phase is Inspect || (query.phase is Open
            && is_opened(event)),
        query.step(event).phase matches PhaseView::Identify(node) ==> {
            ||| query.phase == PhaseView::Identify(node)
            ||| query.phase is Inspect && (event matches EventView::Inspected(Ok(metadata))
                && metadata.is_char_device && node == device_sysfs_node(
                metadata.device_number,
                query.sys_char_root,
            ))
        },
        is_past_verification(query.step(event).phase) ==> {
            ||| is_past_verification(query.phase)
            ||| query.phase is Identify && (event matches EventView::Identified(files)
                && files.is_expected())
        },
{
}

/// One more event: what was shown before is still shown.
proof fn lemma_still_shown(query: QueryView, events: Seq<EventView>)
    requires
        events.len() > 0,
    ensures
        forall|i: int|
            0 <= i < events.len() - 1 ==> events.drop_last()[i] == #[trigger] events[i],
        forall|i: int, j: int, node: Seq<u8>|
            shows_char_device(query, events.drop_last(), i, j, node) ==> #[trigger]
            shows_char_device(query, events, i, j, node),
        forall|i: int, j: int, k: int|
            shows_receiver(query, events.drop_last(), i, j, k) ==> #[trigger] shows_receiver(
                query,
                events,
                i,
                j,
                k,
            ),
{
    let before = events.drop_last();
    assert forall|i: int, j: int, k: int| shows_receiver(query, before, i, j, k) implies #[trigger]
    shows_receiver(query, events, i, j, k) by {
        assert(before.take(k) =~= events.take(k));
    }
}

proof fn lemma_opened(query: QueryView, events: Seq<EventView>)
    requires
        query.phase is Open || query.phase is Done,
    ensures
        query.run(events).phase is Inspect ==> exists|i: int|
            0 <= i < events.len() && is_opened(#[trigger] events[i]),
    decreases events.len(),
{
    if events.len() > 0 {
        let before = events.drop_last();
        let last = events.len() - 1;
        lemma_opened(query, before);
        lemma_verification_step(query.run(before), events.last());
        if query.run(events).phase is Inspect {
            if query.run(before).phase is Inspect {
                let i = choose|i: int| 0 <= i < before.len() && is_opened(#[trigger] before[i]);
                assert(is_opened(events[i]));
            } else {
                assert(is_opened(events[last]));
            }
        }
    }
}

proof fn lemma_inspected(query: QueryView, events: Seq<EventView>, node: Seq<u8>)
    requires
        query.phase is Open || query.phase is Done,
        query.run(events).phase == PhaseView::Identify(node),
    ensures
        exists|i: int, j: int| shows_char_device(query, events, i, j, node),
    decreases events.len(),
{
    if events.len() > 0 {
        let before = events.drop_last();
        let last = events.len() - 1;
        lemma_still_shown(query, events);
        lemma_verification_step(query.run(before), events.last());
        law_query_keeps_its_terms(query, before);
        if query.run(before).phase == PhaseView::Identify(node) {
            lemma_inspected(query, before, node);
            let (i, j) = choose|i: int, j: int| shows_char_device(query, before, i, j, node);
            assert(shows_char_device(query, events, i, j, node));
        } else {
            lemma_opened(query, before);
            let i = choose|i: int| 0 <= i < before.len() && is_opened(#[trigger] before[i]);
            assert(is_opened(events[i]));
            assert(shows_char_device(query, events, i, last, node));
        }
    }
}

proof fn lemma_verified(query: QueryView, events: Seq<EventView>)
    requires
        query.phase is Open || query.phase is Done,
        query.phase matches PhaseView::Done(outcome) ==> outcome is Err,
        is_past_verification(query.run(events).phase),
    ensures
        exists|i: int, j: int, k: int| shows_receiver(query, events, i, j, k),
    decreases events.len(),
{
    if events.len() > 0 {
        let before = events.drop_last();
        let last = events.len() - 1;
        lemma_still_shown(query, events);
        lemma_verification_step(query.run(before), events.last());
        law_query_keeps_its_terms(query, before);
        if is_past_verification(query.run(before).phase) {
            lemma_verified(query, before);
            let (i, j, k) = choose|i: int, j: int, k: int| shows_receiver(query, before, i, j, k);
            assert(shows_receiver(query, events, i, j, k));
        } else {
            assert(query.run(before).phase is Identify);
            let node = query.run(before).phase->Identify_0;
            lemma_inspected(query, before, node);
            let (i, j) = choose|i: int, j: int| shows_char_device(query, before, i, j, node);
            assert(shows_char_device(query, events, i, j, node));
            assert(events.take(last) =~= before);
            assert(shows_receiver(query, events, i, j, last));
        }
    }
}

/// No report is written, awaited or believed before the path was found to be that of a
/// device node, the device was opened, found to be a character device, and found to be
/// the battery interface of the receiver.
pub proof fn law_nothing_is_sent_to_an_unverified_device(
    path: Seq<u8>,
    timeout: Duration,
    transaction: u16,
    device_root: Seq<u8>,
    sys_char_root: Seq<u8>,
    events: Seq<EventView>,
)
    requires
        is_past_verification(
            QueryView::start(path, timeout, transaction, device_root, sys_char_root).run(
                events,
            ).phase,
        ),
    ensures
        is_hidraw_path(path, device_root),
        exists|i: int, j: int, k: int|
            shows_receiver(
                QueryView::start(path, timeout, transaction, device_root, sys_char_root),
                events,
                i,
                j,
                k,
            ),
{
    let query = QueryView::start(path, timeout, transaction, device_root, sys_char_root);
    if query.phase is Done {
        law_ended_query_stays_ended(query, events);
    }
    lemma_verified(query, events);
}

/// Whether the events show that the whole request was sent at `i` and that the report
/// read at `j` is the response from which a result was taken.
pub open spec fn shows_exchange(
    query: QueryView,
    events: Seq<EventView>,
    result: QueryResultView,
    i: int,
    j: int,
) -> bool {
    &&& 0 <= i < j < events.len()
    &&& events[i] matches EventView::Written(Ok(length), _) && length == REPORT_SIZE
    &&& events[j] matches EventView::ReadBack(Ok(report), _) && is_response(
        report,
        query.transaction,
    ) && result.reading == reading_of(payload_of(report)) && result.raw_response == report.take(
        MEANINGFUL_LENGTH as int,
    )
}

proof fn lemma_exchange(query: QueryView, events: Seq<EventView>)
    requires
        query.phase is Open || query.phase is Done,
        query.phase matches PhaseView::Done(outcome) ==> outcome is Err,
    ensures
        (query.run(events).phase is Read || query.run(events).phase is PauseBeforeRead) ==> exists|
            i: int,
        |
            0 <= i < events.len() && (#[trigger] events[i] matches EventView::Written(
                Ok(length),
                _,
            ) && length == REPORT_SIZE),
        query.run(events).phase matches PhaseView::Done(Ok(result)) ==> exists|i: int, j: int|
            shows_exchange(query, events, result, i, j),
    decreases events.len(),
{
    if events.len() > 0 {
        let before = events.drop_last();
        let last = events.len() - 1;
        lemma_exchange(query, before);
        law_query_keeps_its_terms(query, before);
        assert(forall|n: int| 0 <= n < before.len() ==> #[trigger] before[n] == events[n]);
        match query.run(before).phase {
            PhaseView::Write => {
                if query.run(events).phase is Read {
                    assert(events[last] matches EventView::Written(Ok(length), _) && length
                        == REPORT_SIZE);
                }
            },
            PhaseView::Read => {
                let i = choose|i: int|
                    0 <= i < before.len() && (#[trigger] before[i] matches EventView::Written(
                        Ok(length),
                        _,
                    ) && length == REPORT_SIZE);
                assert(before[i] == events[i]);
                if let PhaseView::Done(Ok(result)) = query.run(events).phase {
                    assert(shows_exchange(query, events, result, i, last));
                }
            },
            PhaseView::PauseBeforeRead(_) => {
                let i = choose|i: int|
                    0 <= i < before.len() && (#[trigger] before[i] matches EventView::Written(
                        Ok(length),
                        _,
                    ) && length == REPORT_SIZE);
                assert(before[i] == events[i]);
            },
            PhaseView::Done(Ok(result)) => {
                let (i, j) = choose|i: int, j: int| shows_exchange(query, before, result, i, j);
                assert(before[i] == events[i] && before[j] == events[j]);
                assert(shows_exchange(query, events, result, i, j));
            },
            _ => {},
        }
    }
}

/// A reading is always the content of a response to the query's own transaction, read
/// after the whole request was sent, and comes with the meaningful bytes of that
/// response, which are themselves a response with the same content.
pub proof fn law_readings_come_from_responses(
    path: Seq<u8>,
    timeout: Duration,
    transaction: u16,
    device_root: Seq<u8>,
    sys_char_root: Seq<u8>,
    events: Seq<EventView>,
    result: QueryResultView,
)
    requires
        QueryView::start(path, timeout, transaction, device_root, sys_char_root).run(events).phase
            == PhaseView::Done(Ok(result)),
    ensures
        exists|i: int, j: int|
            shows_exchange(
                QueryView::start(path, timeout, transaction, device_root, sys_char_root),
                events,
                result,
                i,
                j,
            ),
        is_response(result.raw_response, transaction),
        result.raw_response.len() == MEANINGFUL_LENGTH,
        result.reading == reading_of(payload_of(result.raw_response)),
{
    let query = QueryView::start(path, timeout, transaction, device_root, sys_char_root);
    lemma_exchange(query, events);
    let (i, j) = choose|i: int, j: int| shows_exchange(query, events, result, i, j);
    if let EventView::ReadBack(Ok(report), _) = events[j] {
        crate::protocol::law_only_meaningful_bytes_count(report, transaction);
    }
}

/// Writing and reading begin before the deadline only, and a pause neither exceeds the
/// retry interval nor outlasts the deadline.
pub proof fn law_deadline_is_kept(query: QueryView, event: EventView)
    requires
        query.is_answered_by(event),
    ensures
        query.step(event).phase is Write || query.step(event).phase is Read ==> (event.elapsed()
            matches Some(elapsed) && elapsed.nanos < query.timeout.nanos),
        query.step(event).phase matches PhaseView::PauseBeforeWrite(pause) ==> (event.elapsed()
            matches Some(elapsed) && pause.nanos <= RETRY_INTERVAL && elapsed.nanos + pause.nanos
            <= query.timeout.nanos),
        query.step(event).phase matches PhaseView::PauseBeforeRead(pause) ==> (event.elapsed()
            matches Some(elapsed) && pause.nanos <= RETRY_INTERVAL && elapsed.nanos + pause.nanos
            <= query.timeout.nanos),
{
}

/// A query ends for want of time only when the time is up, and says how long it had.
pub proof fn law_timeouts_are_true(query: QueryView, event: EventView, timeout: Duration)
    requires
        !(query.phase is Done),
        query.step(event).phase == PhaseView::Done(Err(ErrorView::Timeout(timeout))),
    ensures
        timeout == query.timeout,
        event.elapsed() matches Some(elapsed) && elapsed.nanos >= query.timeout.nanos,
{
}

/// A query that has no time at all never comes to write.
pub proof fn law_no_time_no_report(query: QueryView, events: Seq<EventView>)
    requires
        query.timeout.nanos == 0,
        query.phase is Open || query.phase is Done,
        query.phase matches PhaseView::Done(outcome) ==> outcome is Err,
    ensures
        !(query.run(events).phase is Write),
        !(query.run(events).phase is Read),
        !(query.run(events).phase is PauseBeforeWrite),
        !(query.run(events).phase is PauseBeforeRead),
        query.run(events).phase matches PhaseView::Done(outcome) ==> outcome is Err,
    decreases events.len(),
{
    if events.len() > 0 {
        law_no_time_no_report(query, events.drop_last());
        law_query_keeps_its_terms(query, events.drop_last());
    }
}

/// A report that is not the battery event of the transaction is passed over: the query
/// reads on as long as there is time.
pub proof fn law_unrelated_reports_are_passed_over(
    query: QueryView,
    report: Seq<u8>,
    elapsed: Duration,
)
    requires
        query.phase is Read,
        report.len() > 0,
        !is_matching_event(report, query.transaction),
        elapsed.nanos < query.timeout.nanos,
    ensures
        query.step(EventView::ReadBack(Ok(report), elapsed)) == query,
{
    if is_response(report, query.transaction) {
        crate::protocol::law_response_is_matching_event(report, query.transaction);
    }
}

/// An attempt that was interrupted is made again as long as there is time.
pub proof fn law_interrupted_attempts_are_repeated(
    query: QueryView,
    source: IoErrorView,
    elapsed: Duration,
)
    requires
        source.kind == IoErrorKind::Interrupted,
        elapsed.nanos < query.timeout.nanos,
    ensures
        query.phase is Write ==> query.step(EventView::Written(Err(source), elapsed)) == query,
        query.phase is Read ==> query.step(EventView::ReadBack(Err(source), elapsed)) == query,
{
}

/// An attempt for which the device was not ready is made again after a pause as long as
/// there is time.
pub proof fn law_blocked_attempts_are_repeated(
    query: QueryView,
    source: IoErrorView,
    elapsed: Duration,
    later: Duration,
)
    requires
        source.kind == IoErrorKind::WouldBlock,
        elapsed.nanos <= query.timeout.nanos,
        later.nanos < query.timeout.nanos,
    ensures
        query.phase is Write ==> query.step(EventView::Written(Err(source), elapsed)).step(
            EventView::Clock(later),
        ) == query,
        query.phase is Read ==> query.step(EventView::ReadBack(Err(source), elapsed)).step(
            EventView::Clock(later),
        ) == query,
{
}

/// A query goes through one series of events and then another as through both in one.
proof fn lemma_run_on(query: QueryView, first: Seq<EventView>, second: Seq<EventView>)
    ensures
        query.run(first + second) == query.run(first).run(second),
    decreases second.len(),
{
    if second.len() == 0 {
        assert(first + second =~= first);
    } else {
        assert((first + second).drop_last() =~= first + second.drop_last());
        lemma_run_on(query, first, second.drop_last());
    }
}

/// The events by which a device is opened, found to be the receiver and sent the request.
pub open spec fn opening(
    metadata: DeviceMetadata,
    files: InterfaceFilesView,
    begun: Duration,
    sent: Duration,
) -> Seq<EventView> {
    seq![
        EventView::Opened(Ok(())),
        EventView::Inspected(Ok(metadata)),
        EventView::Identified(files),
        EventView::Clock(begun),
        EventView::Written(Ok(REPORT_SIZE), sent),
    ]
}

/// The receiver is asked: once its device was opened and verified and has taken the whole
/// request in time, the query reads.
pub proof fn law_receiver_is_asked(
    query: QueryView,
    metadata: DeviceMetadata,
    files: InterfaceFilesView,
    begun: Duration,
    sent: Duration,
)
    requires
        query.phase is Open,
        metadata.is_char_device,
        files.is_expected(),
        begun.nanos < query.timeout.nanos,
        sent.nanos < query.timeout.nanos,
    ensures
        query.run(opening(metadata, files, begun, sent)) == query.with_phase(PhaseView::Read),
{
    let events = opening(metadata, files, begun, sent);
    let opened = query.with_phase(PhaseView::Inspect);
    assert(query.run(events.take(0)) == query);
    assert(events.take(1).drop_last() =~= events.take(0));
    assert(query.run(events.take(1)) == opened);
    assert(events.take(2).drop_last() =~= events.take(1));
    assert(query.run(events.take(2)) == opened.step(EventView::Inspected(Ok(metadata))));
    assert(events.take(3).drop_last() =~= events.take(2));
    assert(query.run(events.take(3)) == query.with_phase(PhaseView::Start));
    assert(events.take(4).drop_last() =~= events.take(3));
    assert(query.run(events.take(4)) == query.with_phase(PhaseView::Write));
    assert(events.drop_last() =~= events.take(4));
}

/// A response that comes while the query reads ends it with the reading that the response
/// carries.
pub proof fn law_awaited_response_is_read(
    query: QueryView,
    payload: Seq<u8>,
    rest: Seq<u8>,
    received: Duration,
)
    requires
        query.phase is Read,
        payload.len() == 6,
    ensures
        query.step(
            EventView::ReadBack(Ok(response(query.transaction, payload) + rest), received),
        ).phase == PhaseView::Done(
            Ok(
                QueryResultView {
                    reading: reading_of(payload),
                    raw_response: response(query.transaction, payload),
                },
            ),
        ),
{
    let answer = response(query.transaction, payload);
    let report = answer + rest;
    crate::protocol::law_response_is_read_back(query.transaction, payload, rest);
    assert(answer.len() == MEANINGFUL_LENGTH);
    assert(report.take(MEANINGFUL_LENGTH as int) =~= answer);
    let result = QueryResultView { reading: reading_of(payload), raw_response: answer };
    assert(after_read(Ok(report), query.transaction, received, query.timeout)
        == ReadStepView::Received(result));
}

/// A query of the receiver succeeds: where the path is that of a device node, the device
/// is the receiver and takes the request in time, and the response comes while the query
/// still reads, whatever came before it, the query gives the reading that the response
/// carries.
pub proof fn law_answered_query_succeeds(
    path: Seq<u8>,
    timeout: Duration,
    transaction: u16,
    device_root: Seq<u8>,
    sys_char_root: Seq<u8>,
    metadata: DeviceMetadata,
    files: InterfaceFilesView,
    begun: Duration,
    sent: Duration,
    waiting: Seq<EventView>,
    payload: Seq<u8>,
    rest: Seq<u8>,
    received: Duration,
)
    requires
        is_hidraw_path(path, device_root),
        metadata.is_char_device,
        files.is_expected(),
        begun.nanos < timeout.nanos,
        sent.nanos < timeout.nanos,
        QueryView::start(path, timeout, transaction, device_root, sys_char_root).with_phase(
            PhaseView::Read,
        ).run(waiting).phase is Read,
        payload.len() == 6,
    ensures
        QueryView::start(path, timeout, transaction, device_root, sys_char_root).run(
            (opening(metadata, files, begun, sent) + waiting).push(
                EventView::ReadBack(Ok(response(transaction, payload) + rest), received),
            ),
        ).phase == PhaseView::Done(
            Ok(
                QueryResultView {
                    reading: reading_of(payload),
                    raw_response: response(transaction, payload),
                },
            ),
        ),
{
    let query = QueryView::start(path, timeout, transaction, device_root, sys_char_root);
    let events = opening(metadata, files, begun, sent) + waiting;
    let last = EventView::ReadBack(Ok(response(transaction, payload) + rest), received);
    law_receiver_is_asked(query, metadata, files, begun, sent);
    lemma_run_on(query, opening(metadata, files, begun, sent), waiting);
    law_query_keeps_its_terms(query, events);
    law_awaited_response_is_read(query.run(events), payload, rest, received);
    assert(events.push(last).drop_last() =~= events);
}

/// A path that is not that of a device node ends a query at once, with the path told, and
/// one that is leads to opening it.
pub proof fn law_paths_decide_the_start(
    path: Seq<u8>,
    timeout: Duration,
    transaction: u16,
    device_root: Seq<u8>,
    sys_char_root: Seq<u8>,
)
    ensures
        ({
            let query = QueryView::start(path, timeout, transaction, device_root, sys_char_root);
            &&& query.path == path
            &&& query.timeout == timeout
            &&& query.transaction == transaction
            &&& query.sys_char_root == sys_char_root
            &&& is_hidraw_path(path, device_root) ==> query.phase == PhaseView::Open
            &&& !is_hidraw_path(path, device_root) ==> query.phase == PhaseView::Done(
                Err(ErrorView::DeviceMismatch(path)),
            )
        }),
{
}

/// A device that cannot be opened or looked at ends the query with what the system said,
/// and one that is not the receiver with the path that was given.
pub proof fn law_refused_devices_are_told(
    query: QueryView,
    source: IoErrorView,
    metadata: DeviceMetadata,
    files: InterfaceFilesView,
)
    ensures
        query.phase is Open ==> query.step(EventView::Opened(Err(source))).phase
            == PhaseView::Done(
            Err(
                ErrorView::Io {
                    operation: "open HID device for reading and battery queries"@,
                    source,
                },
            ),
        ),
        query.phase is Inspect ==> query.step(EventView::Inspected(Err(source))).phase
            == PhaseView::Done(
            Err(ErrorView::Io { operation: "inspect opened HID device"@, source }),
        ),
        query.phase is Inspect && !metadata.is_char_device ==> query.step(
            EventView::Inspected(Ok(metadata)),
        ).phase == PhaseView::Done(Err(ErrorView::DeviceMismatch(query.path))),
        query.phase is Identify && !files.is_expected() ==> query.step(
            EventView::Identified(files),
        ).phase == PhaseView::Done(Err(ErrorView::DeviceMismatch(query.path))),
{
}

/// A character device is looked up by its number, and goes on to be asked where its files
/// are those of the receiver.
pub proof fn law_accepted_devices_go_on(
    query: QueryView,
    metadata: DeviceMetadata,
    files: InterfaceFilesView,
)
    ensures
        query.phase is Inspect && metadata.is_char_device ==> query.step(
            EventView::Inspected(Ok(metadata)),
        ).phase == PhaseView::Identify(
            device_sysfs_node(metadata.device_number, query.sys_char_root),
        ),
        query.phase is Identify && files.is_expected() ==> query.step(
            EventView::Identified(files),
        ).phase == PhaseView::Start,
{
}

/// A request that was not taken whole ends the query, and so does a failure to write that
/// is neither an interruption nor for want of readiness, with what the system said.
pub proof fn law_failed_writes_are_told(
    query: QueryView,
    length: usize,
    source: IoErrorView,
    elapsed: Duration,
)
    requires
        query.phase is Write,
    ensures
        length != 64 ==> query.step(EventView::Written(Ok(length), elapsed)).phase
            == PhaseView::Done(
            Err(
                ErrorView::Io {
                    operation: "send complete battery GET report"@,
                    source: IoErrorView {
                        kind: IoErrorKind::WriteZero,
                        message: "wrote "@ + decimal(length as nat) + " of "@ + decimal(64)
                            + " bytes"@,
                    },
                },
            ),
        ),
        source.kind != IoErrorKind::Interrupted && source.kind != IoErrorKind::WouldBlock
            ==> query.step(EventView::Written(Err(source), elapsed)).phase == PhaseView::Done(
            Err(ErrorView::Io { operation: "send battery GET report"@, source }),
        ),
{
}

/// A device that gives no data ends the query, and so does a failure to read that is
/// neither an interruption nor for want of readiness, with what the system said. A battery
/// event of the transaction that is no response ends it with what is wrong with it.
pub proof fn law_failed_reads_are_told(
    query: QueryView,
    report: Seq<u8>,
    source: IoErrorView,
    elapsed: Duration,
)
    requires
        query.phase is Read,
    ensures
        report.len() == 0 ==> query.step(EventView::ReadBack(Ok(report), elapsed)).phase
            == PhaseView::Done(
            Err(
                ErrorView::Io {
                    operation: "read battery response"@,
                    source: IoErrorView {
                        kind: IoErrorKind::UnexpectedEof,
                        message: "HID device returned no data"@,
                    },
                },
            ),
        ),
        source.kind != IoErrorKind::Interrupted && source.kind != IoErrorKind::WouldBlock
            ==> query.step(EventView::ReadBack(Err(source), elapsed)).phase == PhaseView::Done(
            Err(ErrorView::Io { operation: "read battery response"@, source }),
        ),
        is_matching_event(report, query.transaction) && !is_response(report, query.transaction)
            ==> query.step(EventView::ReadBack(Ok(report), elapsed)).phase == PhaseView::Done(
            Err(ErrorView::InvalidResponse(rejection(report, query.transaction))),
        ),
{
}

/// Once the time is up a query does not begin to write or to read again: it ends, and
/// tells how long it had. A response that was read is not thrown away for that.
pub proof fn law_time_runs_out(
    query: QueryView,
    source: IoErrorView,
    report: Seq<u8>,
    elapsed: Duration,
)
    requires
        elapsed.nanos >= query.timeout.nanos,
    ensures
        ({
            let timed_out = PhaseView::Done(Err(ErrorView::Timeout(query.timeout)));
            let interrupted = source.kind == IoErrorKind::Interrupted;
            let late = source.kind == IoErrorKind::WouldBlock && elapsed.nanos
                > query.timeout.nanos;
            &&& query.phase is Start || query.phase is PauseBeforeWrite || query.phase
                is PauseBeforeRead ==> query.step(EventView::Clock(elapsed)).phase == timed_out
            &&& query.phase is Write ==> query.step(EventView::Written(Ok(64), elapsed)).phase
                == timed_out
            &&& query.phase is Write && (interrupted || late) ==> query.step(
                EventView::Written(Err(source), elapsed),
            ).phase == timed_out
            &&& query.phase is Read && (interrupted || late) ==> query.step(
                EventView::ReadBack(Err(source), elapsed),
            ).phase == timed_out
            &&& query.phase is Read && report.len() > 0 && !is_matching_event(
                report,
                query.transaction,
            ) ==> query.step(EventView::ReadBack(Ok(report), elapsed)).phase == timed_out
        }),
{
    if is_response(report, query.transaction) {
        crate::protocol::law_response_is_matching_event(report, query.transaction);
    }
}

/// As long as there is time a query goes on: it writes once the clock runs and after each
/// pause before writing, and reads once the request was sent and after each pause before
/// reading.
pub proof fn law_time_is_used(query: QueryView, elapsed: Duration)
    requires
        elapsed.nanos < query.timeout.nanos,
    ensures
        query.phase is Start || query.phase is PauseBeforeWrite ==> query.step(
            EventView::Clock(elapsed),
        ) == query.with_phase(PhaseView::Write),
        query.phase is PauseBeforeRead ==> query.step(EventView::Clock(elapsed))
            == query.with_phase(PhaseView::Read),
        query.phase is Write ==> query.step(EventView::Written(Ok(64), elapsed))
            == query.with_phase(PhaseView::Read),
{
}

/// A device that is not ready is left alone for ten milliseconds, or up to the deadline
/// where that comes first, and for no longer and no shorter.
pub proof fn law_pauses_are_exact(query: QueryView, source: IoErrorView, elapsed: Duration)
    requires
        source.kind == IoErrorKind::WouldBlock,
        elapsed.nanos <= query.timeout.nanos,
    ensures
        query.phase is Write ==> (query.step(EventView::Written(Err(source), elapsed)).phase
            matches PhaseView::PauseBeforeWrite(pause) && if elapsed.nanos + 10_000_000
            <= query.timeout.nanos {
            pause.nanos == 10_000_000
        } else {
            elapsed.nanos + pause.nanos == query.timeout.nanos
        }),
        query.phase is Read ==> (query.step(EventView::ReadBack(Err(source), elapsed)).phase
            matches PhaseView::PauseBeforeRead(pause) && if elapsed.nanos + 10_000_000
            <= query.timeout.nanos {
            pause.nanos == 10_000_000
        } else {
            elapsed.nanos + pause.nanos == query.timeout.nanos
        }),
{
}

/// A response to the transaction ends a query that reads, at whatever time, with the cells
/// that its own bytes tell and with its first twenty bytes.
pub proof fn law_response_bytes_are_the_reading(
    query: QueryView,
    report: Seq<u8>,
    elapsed: Duration,
)
    requires
        query.phase is Read,
        is_response(report, query.transaction),
    ensures
        query.step(EventView::ReadBack(Ok(report), elapsed)).phase matches PhaseView::Done(
            Ok(result),
        ) && {
            &&& result.raw_response == report.take(20)
            &&& result.reading.left.percent == (if report[14] <= 100 {
                Some(report[14])
            } else {
                None
            })
            &&& result.reading.right.percent == (if report[16] <= 100 {
                Some(report[16])
            } else {
                None
            })
            &&& result.reading.case.percent == (if report[18] <= 100 {
                Some(report[18])
            } else {
                None
            })
            &&& result.reading.left.state == BatteryState::of_byte(report[13])
            &&& result.reading.right.state == BatteryState::of_byte(report[15])
            &&& result.reading.case.state == BatteryState::of_byte(report[17])
        },
{
    crate::protocol_laws::law_each_cell_has_its_own_bytes(report);
}

/// Transaction IDs count up by one and begin again at zero after the greatest.
pub proof fn law_transactions_count_up(transaction: u16)
    ensures
        transaction < 0xffff ==> following(transaction) == transaction + 1,
        transaction == 0xffff ==> following(transaction) == 0,
{
}

/// Events are seen as they are.
pub proof fn law_events_are_seen_as_they_are(
    metadata: DeviceMetadata,
    files: InterfaceFiles,
    length: usize,
    report: Vec<u8>,
    source: IoError,
    elapsed: Duration,
)
    ensures
        is_opened(Event::Opened(Ok(()))@),
        Event::Opened(Err(source))@ == EventView::Opened(Err(source@)),
        Event::Inspected(Ok(metadata))@ == EventView::Inspected(Ok(metadata)),
        Event::Inspected(Err(source))@ == EventView::Inspected(Err(source@)),
        Event::Identified(files)@ == EventView::Identified(files@),
        Event::Clock(elapsed)@ == EventView::Clock(elapsed),
        Event::Written(Ok(length), elapsed)@ == EventView::Written(Ok(length), elapsed),
        Event::Written(Err(source), elapsed)@ == EventView::Written(Err(source@), elapsed),
        Event::ReadBack(Ok(report), elapsed)@ == EventView::ReadBack(Ok(report@), elapsed),
        Event::ReadBack(Err(source), elapsed)@ == EventView::ReadBack(Err(source@), elapsed),
        source@.kind == source.kind,
        source@.message == source.message@,
{
}

/// Results and phases are seen as they are.
pub proof fn law_results_are_seen_as_they_are(result: QueryResult, error: Error, pause: Duration)
    ensures
        result@.reading == result.reading,
        result@.raw_response == result.raw_response@,
        Phase::Done(Ok(result))@ == PhaseView::Done(Ok(result@)),
        Phase::Done(Err(error))@ == PhaseView::Done(Err(error@)),
        Phase::Write@ == PhaseView::Write,
        Phase::Read@ == PhaseView::Read,
        Phase::PauseBeforeWrite(pause)@ == PhaseView::PauseBeforeWrite(pause),
        Phase::PauseBeforeRead(pause)@ == PhaseView::PauseBeforeRead(pause),
{
}

/// What follows from a write or a read is seen as it is.
pub proof fn law_steps_are_seen_as_they_are(result: QueryResult, error: Error, pause: Duration)
    ensures
        WriteStep::Sent@ == WriteStepView::Sent,
        WriteStep::Retry@ == WriteStepView::Retry,
        WriteStep::Pause(pause)@ == WriteStepView::Pause(pause),
        WriteStep::Failed(error)@ == WriteStepView::Failed(error@),
        ReadStep::Received(result)@ == ReadStepView::Received(result@),
        ReadStep::Retry@ == ReadStepView::Retry,
        ReadStep::Pause(pause)@ == ReadStepView::Pause(pause),
        ReadStep::Failed(error)@ == ReadStepView::Failed(error@),
{
}

} // verus!
