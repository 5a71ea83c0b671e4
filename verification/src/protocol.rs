//! The battery request and the battery response, as reports of the receiver's
//! vendor HID interface.

use vstd::prelude::*;
use vstd::slice::slice_subrange;

use crate::battery::{BatteryCell, BatteryReading};
use crate::error::{Error, ErrorView};
use crate::text::{decimal, hex, push_decimal, push_hex};

verus! {

pub const REPORT_ID: u8 = 0x02;

pub const REPORT_SIZE: usize = 64;

pub const SONY_KEY_LOW: u8 = 0x96;

pub const SONY_KEY_HIGH: u8 = 0xc3;

pub const BATTERY_EVENT_ID: u8 = 0x04;

pub const EVENT_TYPE_GET: u8 = 0x01;

pub const EVENT_TYPE_RETURN: u8 = 0x10;

pub const COMMAND_PACKET_TYPE: u8 = 0x01;

pub const EVENT_PACKET_TYPE: u8 = 0x04;

pub const EVENT_CODE: u8 = 0xff;

pub const PC_TO_RECEIVER: u8 = 0x41;

pub const RECEIVER_TO_PC: u8 = 0x14;

pub const EXPECTED_FRAME_LENGTH: usize = 18;

pub const EXPECTED_EVENT_PARAMETER_LENGTH: u8 = 0x0f;

/// The bytes of a response that carry meaning: the two of the report header and the frame.
pub const MEANINGFUL_LENGTH: usize = 20;

/// The sum of the bytes.
pub open spec fn byte_sum(bytes: Seq<u8>) -> nat
    decreases bytes.len(),
{
    if bytes.len() == 0 {
        0
    } else {
        byte_sum(bytes.drop_last()) + bytes.last() as nat
    }
}

/// The sum of the bytes, wrapped to one byte.
pub open spec fn wrapping_sum(bytes: Seq<u8>) -> u8 {
    (byte_sum(bytes) % 256) as u8
}

/// The low byte of a transaction ID.
pub open spec fn low_byte(transaction: u16) -> u8 {
    (transaction % 256) as u8
}

/// The high byte of a transaction ID.
pub open spec fn high_byte(transaction: u16) -> u8 {
    (transaction / 256) as u8
}

/// Everything in a request before its checksum.
pub open spec fn request_body(transaction: u16) -> Seq<u8> {
    seq![
        REPORT_ID,
        0x0c,
        COMMAND_PACKET_TYPE,
        0x00,
        0xfc,
        0x08,
        SONY_KEY_LOW,
        SONY_KEY_HIGH,
        PC_TO_RECEIVER,
        BATTERY_EVENT_ID,
        EVENT_TYPE_GET,
        low_byte(transaction),
        high_byte(transaction),
    ]
}

/// The battery request: the body, the wrapping sum of the body from the Sony key on,
/// and zeros up to the size of a report.
pub open spec fn request(transaction: u16) -> Seq<u8> {
    request_body(transaction).push(wrapping_sum(request_body(transaction).skip(6))) + Seq::new(
        50,
        |i: int| 0u8,
    )
}

/// Everything in a response before its payload.
pub open spec fn response_header(transaction: u16) -> Seq<u8> {
    seq![
        REPORT_ID,
        EXPECTED_FRAME_LENGTH as u8,
        EVENT_PACKET_TYPE,
        EVENT_CODE,
        EXPECTED_EVENT_PARAMETER_LENGTH,
        0x00,
        SONY_KEY_LOW,
        SONY_KEY_HIGH,
        RECEIVER_TO_PC,
        BATTERY_EVENT_ID,
        EVENT_TYPE_RETURN,
        low_byte(transaction),
        high_byte(transaction),
    ]
}

/// The meaningful bytes of the response that carries a payload: header, payload,
/// and the wrapping sum of everything from the fourth byte of the frame on.
pub open spec fn response(transaction: u16, payload: Seq<u8>) -> Seq<u8> {
    let body = response_header(transaction) + payload;
    body.push(wrapping_sum(body.skip(5)))
}

/// The six bytes of a response that hold the three cells.
pub open spec fn payload_of(report: Seq<u8>) -> Seq<u8> {
    report.subrange(13, 19)
}

/// Whether a report is a battery response to a transaction: it begins with the
/// response that its own payload has.
pub open spec fn is_response(report: Seq<u8>, transaction: u16) -> bool {
    &&& report.len() >= MEANINGFUL_LENGTH
    &&& report.take(MEANINGFUL_LENGTH as int) == response(transaction, payload_of(report))
}

/// The reading that a payload stands for: state and percentage of the left earbud,
/// of the right one and of the case.
pub open spec fn reading_of(payload: Seq<u8>) -> BatteryReading {
    BatteryReading {
        left: BatteryCell::of_bytes(payload[0], payload[1]),
        right: BatteryCell::of_bytes(payload[2], payload[3]),
        case: BatteryCell::of_bytes(payload[4], payload[5]),
    }
}

/// The transaction ID that a report carries.
pub open spec fn transaction_of(report: Seq<u8>) -> nat {
    report[11] as nat + 256 * report[12] as nat
}

/// Why a report is not a battery response to a transaction: what the first of the
/// checks that fails has to say.
pub open spec fn rejection(report: Seq<u8>, transaction: u16) -> Seq<char> {
    if report.len() < 2 {
        "report is shorter than its header"@
    } else if report[0] != REPORT_ID {
        "unexpected report ID 0x"@ + hex(report[0] as nat, 2)
    } else if report[1] != EXPECTED_FRAME_LENGTH || report.len() < MEANINGFUL_LENGTH {
        "invalid frame length "@ + decimal(report[1] as nat)
    } else if report.subrange(2, 6) != response_header(transaction).subrange(2, 6) {
        "unexpected Sony HCI event header"@
    } else if report.subrange(6, 8) != response_header(transaction).subrange(6, 8) {
        "Sony key does not match"@
    } else if report.subrange(8, 11) != response_header(transaction).subrange(8, 11) {
        "packet is not a battery return event"@
    } else if transaction_of(report) != transaction {
        "transaction "@ + decimal(transaction_of(report)) + " does not match "@ + decimal(
            transaction as nat,
        )
    } else {
        "checksum 0x"@ + hex(report[19] as nat, 2) + " does not match calculated 0x"@ + hex(
            wrapping_sum(report.subrange(5, 19)) as nat,
            2,
        )
    }
}

/// Whether a report has the marks of the battery event of a transaction. It may
/// still be malformed in its lengths, its payload or its checksum.
pub open spec fn is_matching_event(report: Seq<u8>, transaction: u16) -> bool {
    &&& report.len() >= 13
    &&& report[0] == REPORT_ID
    &&& report.subrange(2, 4) == response_header(transaction).subrange(2, 4)
    &&& report.subrange(6, 13) == response_header(transaction).subrange(6, 13)
}

/// The wrapping sum of the bytes.
fn checksum(bytes: &[u8]) -> (sum: u8)
    ensures
        sum == wrapping_sum(bytes@),
{
    let mut sum: u8 = 0;
    for i in 0..bytes.len()
        invariant
            sum == wrapping_sum(bytes@.take(i as int)),
    {
        proof {
            assert(bytes@.take(i + 1).drop_last() =~= bytes@.take(i as int));
        }
        sum = sum.wrapping_add(bytes[i]);
    }
    assert(bytes@.take(bytes@.len() as int) =~= bytes@);
    sum
}

/// The report that asks for the battery status.
pub fn battery_request(transaction_id: u16) -> (report: [u8; REPORT_SIZE])
    ensures
        report@ == request(transaction_id),
{
    let mut report = [0u8; REPORT_SIZE];
    report[0] = REPORT_ID;
    report[1] = 0x0c;
    report[2] = COMMAND_PACKET_TYPE;
    report[3] = 0x00;
    report[4] = 0xfc;
    report[5] = 0x08;
    report[6] = SONY_KEY_LOW;
    report[7] = SONY_KEY_HIGH;
    report[8] = PC_TO_RECEIVER;
    report[9] = BATTERY_EVENT_ID;
    report[10] = EVENT_TYPE_GET;
    report[11] = (transaction_id % 256) as u8;
    report[12] = (transaction_id / 256) as u8;
    let sum: u8 = checksum(slice_subrange(report.as_slice(), 6, 13));
    assert(report@.subrange(6, 13) =~= request_body(transaction_id).skip(6));
    report[13] = sum;
    assert(report@ =~= request(transaction_id));
    report
}

/// The stretches of a report that are compared with the response header, byte by byte.
pub proof fn lemma_header_stretches(report: Seq<u8>, transaction: u16)
    requires
        report.len() >= 13,
    ensures
        report.subrange(2, 4) == response_header(transaction).subrange(2, 4) <==> {
            &&& report[2] == EVENT_PACKET_TYPE
            &&& report[3] == EVENT_CODE
        },
        report.subrange(2, 6) == response_header(transaction).subrange(2, 6) <==> {
            &&& report[2] == EVENT_PACKET_TYPE
            &&& report[3] == EVENT_CODE
            &&& report[4] == EXPECTED_EVENT_PARAMETER_LENGTH
            &&& report[5] == 0
        },
        report.subrange(6, 8) == response_header(transaction).subrange(6, 8) <==> {
            &&& report[6] == SONY_KEY_LOW
            &&& report[7] == SONY_KEY_HIGH
        },
        report.subrange(8, 11) == response_header(transaction).subrange(8, 11) <==> {
            &&& report[8] == RECEIVER_TO_PC
            &&& report[9] == BATTERY_EVENT_ID
            &&& report[10] == EVENT_TYPE_RETURN
        },
        report.subrange(6, 13) == response_header(transaction).subrange(6, 13) <==> {
            &&& report[6] == SONY_KEY_LOW
            &&& report[7] == SONY_KEY_HIGH
            &&& report[8] == RECEIVER_TO_PC
            &&& report[9] == BATTERY_EVENT_ID
            &&& report[10] == EVENT_TYPE_RETURN
            &&& transaction_of(report) == transaction
        },
{
    let header = response_header(transaction);
    assert(forall|i: int, j: int, k: int|
        0 <= i <= j <= 13 && 0 <= k < j - i ==> #[trigger] report.subrange(i, j)[k] == report[i
            + k]);
    assert(forall|i: int, j: int, k: int|
        0 <= i <= j <= 13 && 0 <= k < j - i ==> #[trigger] header.subrange(i, j)[k] == header[i
            + k]);
    if report.subrange(2, 4) == header.subrange(2, 4) {
        assert(report.subrange(2, 4)[0] == header.subrange(2, 4)[0]);
        assert(report.subrange(2, 4)[1] == header.subrange(2, 4)[1]);
    }
    if report[2] == EVENT_PACKET_TYPE && report[3] == EVENT_CODE {
        assert(report.subrange(2, 4) =~= header.subrange(2, 4));
    }
    if report.subrange(2, 6) == header.subrange(2, 6) {
        assert(report.subrange(2, 6)[0] == header.subrange(2, 6)[0]);
        assert(report.subrange(2, 6)[1] == header.subrange(2, 6)[1]);
        assert(report.subrange(2, 6)[2] == header.subrange(2, 6)[2]);
        assert(report.subrange(2, 6)[3] == header.subrange(2, 6)[3]);
    }
    if report[2] == EVENT_PACKET_TYPE && report[3] == EVENT_CODE && report[4]
        == EXPECTED_EVENT_PARAMETER_LENGTH && report[5] == 0 {
        assert(report.subrange(2, 6) =~= header.subrange(2, 6));
    }
    if report.subrange(6, 8) == header.subrange(6, 8) {
        assert(report.subrange(6, 8)[0] == header.subrange(6, 8)[0]);
        assert(report.subrange(6, 8)[1] == header.subrange(6, 8)[1]);
    }
    if report[6] == SONY_KEY_LOW && report[7] == SONY_KEY_HIGH {
        assert(report.subrange(6, 8) =~= header.subrange(6, 8));
    }
    if report.subrange(8, 11) == header.subrange(8, 11) {
        assert(report.subrange(8, 11)[0] == header.subrange(8, 11)[0]);
        assert(report.subrange(8, 11)[1] == header.subrange(8, 11)[1]);
        assert(report.subrange(8, 11)[2] == header.subrange(8, 11)[2]);
    }
    if report[8] == RECEIVER_TO_PC && report[9] == BATTERY_EVENT_ID && report[10]
        == EVENT_TYPE_RETURN {
        assert(report.subrange(8, 11) =~= header.subrange(8, 11));
    }
    if report.subrange(6, 13) == header.subrange(6, 13) {
        assert(forall|k: int| 0 <= k < 7 ==> #[trigger] report.subrange(6, 13)[k] == header[6 + k]);
        assert(report.subrange(6, 13)[0] == report[6]);
        assert(report.subrange(6, 13)[1] == report[7]);
        assert(report.subrange(6, 13)[2] == report[8]);
        assert(report.subrange(6, 13)[3] == report[9]);
        assert(report.subrange(6, 13)[4] == report[10]);
        assert(report.subrange(6, 13)[5] == report[11]);
        assert(report.subrange(6, 13)[6] == report[12]);
    }
    if report[6] == SONY_KEY_LOW && report[7] == SONY_KEY_HIGH && report[8] == RECEIVER_TO_PC
        && report[9] == BATTERY_EVENT_ID && report[10] == EVENT_TYPE_RETURN && transaction_of(
        report,
    ) == transaction {
        assert(report.subrange(6, 13) =~= header.subrange(6, 13));
    }
}

/// A report is a response exactly when its header bytes, its transaction and its
/// checksum are right.
pub proof fn lemma_is_response(report: Seq<u8>, transaction: u16)
    requires
        report.len() >= MEANINGFUL_LENGTH,
    ensures
        is_response(report, transaction) <==> {
            &&& report[0] == REPORT_ID
            &&& report[1] == EXPECTED_FRAME_LENGTH
            &&& report[2] == EVENT_PACKET_TYPE
            &&& report[3] == EVENT_CODE
            &&& report[4] == EXPECTED_EVENT_PARAMETER_LENGTH
            &&& report[5] == 0
            &&& report[6] == SONY_KEY_LOW
            &&& report[7] == SONY_KEY_HIGH
            &&& report[8] == RECEIVER_TO_PC
            &&& report[9] == BATTERY_EVENT_ID
            &&& report[10] == EVENT_TYPE_RETURN
            &&& transaction_of(report) == transaction
            &&& report[19] == wrapping_sum(report.subrange(5, 19))
        },
{
    let taken = report.take(20);
    let built = response(transaction, payload_of(report));
    let body = response_header(transaction) + payload_of(report);
    assert(built.len() == 20);
    assert(forall|i: int| 0 <= i < 20 ==> #[trigger] taken[i] == report[i]);
    assert(forall|i: int| 0 <= i < 13 ==> #[trigger] built[i] == response_header(transaction)[i]);
    assert(forall|i: int| 13 <= i < 19 ==> #[trigger] built[i] == report[i]);
    if forall|i: int| 0 <= i < 13 ==> report[i] == response_header(transaction)[i] {
        assert(body.skip(5) =~= report.subrange(5, 19));
    }
    if is_response(report, transaction) {
        assert(taken[0] == built[0] && taken[1] == built[1] && taken[2] == built[2] && taken[3]
            == built[3] && taken[4] == built[4] && taken[5] == built[5] && taken[6] == built[6]
            && taken[7] == built[7] && taken[8] == built[8] && taken[9] == built[9] && taken[10]
            == built[10] && taken[11] == built[11] && taken[12] == built[12] && taken[19]
            == built[19]);
        assert forall|i: int| 0 <= i < 13 implies report[i] == response_header(transaction)[i] by {
            assert(taken[i] == built[i]);
        }
        assert(body.skip(5) =~= report.subrange(5, 19));
    }
    if {
        &&& report[0] == REPORT_ID
        &&& report[1] == EXPECTED_FRAME_LENGTH
        &&& report[2] == EVENT_PACKET_TYPE
        &&& report[3] == EVENT_CODE
        &&& report[4] == EXPECTED_EVENT_PARAMETER_LENGTH
        &&& report[5] == 0
        &&& report[6] == SONY_KEY_LOW
        &&& report[7] == SONY_KEY_HIGH
        &&& report[8] == RECEIVER_TO_PC
        &&& report[9] == BATTERY_EVENT_ID
        &&& report[10] == EVENT_TYPE_RETURN
        &&& transaction_of(report) == transaction
        &&& report[19] == wrapping_sum(report.subrange(5, 19))
    } {
        assert(body.skip(5) =~= report.subrange(5, 19));
        assert(taken =~= built);
    }
}

/// Decodes the battery response to a transaction.
pub fn parse_battery_response(response: &[u8], expected_transaction: u16) -> (result: Result<
    BatteryReading,
    Error,
>)
    ensures
        match result {
            Ok(reading) => {
                &&& is_response(response@, expected_transaction)
                &&& reading == reading_of(payload_of(response@))
            },
            Err(error) => {
                &&& !is_response(response@, expected_transaction)
                &&& error@ == ErrorView::InvalidResponse(
                    rejection(response@, expected_transaction),
                )
            },
        },
{
    if response.len() < 2 {
        return Err(Error::InvalidResponse("report is shorter than its header".to_owned()));
    }
    proof {
        if response@.len() >= MEANINGFUL_LENGTH {
            lemma_is_response(response@, expected_transaction);
            lemma_header_stretches(response@, expected_transaction);
        }
    }
    if response[0] != REPORT_ID {
        let mut reason = "unexpected report ID 0x".to_owned();
        push_hex(&mut reason, response[0] as u32, 2);
        return Err(Error::InvalidResponse(reason));
    }
    let frame_length: usize = response[1] as usize;
    if frame_length != EXPECTED_FRAME_LENGTH || frame_length + 2 > response.len() {
        let mut reason = "invalid frame length ".to_owned();
        push_decimal(&mut reason, frame_length as u128);
        return Err(Error::InvalidResponse(reason));
    }
    let frame = slice_subrange(response, 2, 2 + frame_length);

    if frame[0] != EVENT_PACKET_TYPE || frame[1] != EVENT_CODE || frame[2]
        != EXPECTED_EVENT_PARAMETER_LENGTH || frame[3] != 0 {
        return Err(Error::InvalidResponse("unexpected Sony HCI event header".to_owned()));
    }
    if frame[4] != SONY_KEY_LOW || frame[5] != SONY_KEY_HIGH {
        return Err(Error::InvalidResponse("Sony key does not match".to_owned()));
    }
    if frame[6] != RECEIVER_TO_PC || frame[7] != BATTERY_EVENT_ID || frame[8] != EVENT_TYPE_RETURN {
        return Err(Error::InvalidResponse("packet is not a battery return event".to_owned()));
    }
    let transaction: u16 = frame[9] as u16 + 256 * frame[10] as u16;
    if transaction != expected_transaction {
        let mut reason = "transaction ".to_owned();
        push_decimal(&mut reason, transaction as u128);
        reason.append(" does not match ");
        push_decimal(&mut reason, expected_transaction as u128);
        return Err(Error::InvalidResponse(reason));
    }
    let calculated: u8 = checksum(slice_subrange(frame, 3, frame_length - 1));
    let stated: u8 = frame[frame_length - 1];
    assert(frame@.subrange(3, 17) =~= response@.subrange(5, 19));
    if calculated != stated {
        let mut reason = "checksum 0x".to_owned();
        push_hex(&mut reason, stated as u32, 2);
        reason.append(" does not match calculated 0x");
        push_hex(&mut reason, calculated as u32, 2);
        return Err(Error::InvalidResponse(reason));
    }
    let params = slice_subrange(frame, 11, frame_length - 1);
    assert(params@ =~= payload_of(response@));
    Ok(
        BatteryReading {
            left: BatteryCell::from_bytes(params[0], params[1]),
            right: BatteryCell::from_bytes(params[2], params[3]),
            case: BatteryCell::from_bytes(params[4], params[5]),
        },
    )
}

/// Whether a report has the marks of the battery event of a transaction.
pub fn looks_like_matching_battery_event(response: &[u8], transaction: u16) -> (matching: bool)
    ensures
        matching == is_matching_event(response@, transaction),
{
    if response.len() < 13 {
        return false;
    }
    proof {
        lemma_header_stretches(response@, transaction);
    }
    response[0] == REPORT_ID && response[2] == EVENT_PACKET_TYPE && response[3] == EVENT_CODE
        && response[6] == SONY_KEY_LOW && response[7] == SONY_KEY_HIGH && response[8]
        == RECEIVER_TO_PC && response[9] == BATTERY_EVENT_ID && response[10] == EVENT_TYPE_RETURN
        && response[11] as u16 + 256 * response[12] as u16 == transaction
}

/// Replacing one byte changes the sum by the difference.
proof fn lemma_byte_sum_update(bytes: Seq<u8>, index: int, value: u8)
    requires
        0 <= index < bytes.len(),
    ensures
        byte_sum(bytes.update(index, value)) == byte_sum(bytes) - bytes[index] + value,
    decreases bytes.len(),
{
    let updated = bytes.update(index, value);
    if index == bytes.len() - 1 {
        assert(updated.drop_last() =~= bytes.drop_last());
    } else {
        assert(updated.drop_last() =~= bytes.drop_last().update(index, value));
        lemma_byte_sum_update(bytes.drop_last(), index, value);
    }
}

/// The response that carries a payload is accepted as the response to its
/// transaction, whatever follows its meaningful bytes, and the payload is read back.
pub proof fn law_response_is_read_back(transaction: u16, payload: Seq<u8>, rest: Seq<u8>)
    requires
        payload.len() == 6,
    ensures
        is_response(response(transaction, payload) + rest, transaction),
        payload_of(response(transaction, payload) + rest) == payload,
{
    let report = response(transaction, payload) + rest;
    assert(payload_of(report) =~= payload);
    assert(report.take(20) =~= response(transaction, payload));
}

/// Acceptance rests on the meaningful bytes alone, and so does the payload.
pub proof fn law_only_meaningful_bytes_count(report: Seq<u8>, transaction: u16)
    ensures
        is_response(report, transaction) <==> report.len() >= MEANINGFUL_LENGTH && is_response(
            report.take(MEANINGFUL_LENGTH as int),
            transaction,
        ),
        report.len() >= MEANINGFUL_LENGTH ==> payload_of(report.take(MEANINGFUL_LENGTH as int))
            == payload_of(report),
{
    if report.len() >= 20 {
        assert(payload_of(report.take(20)) =~= payload_of(report));
        assert(report.take(20).take(20) =~= report.take(20));
    }
}

/// Whatever is accepted has the marks of the battery event of the transaction.
pub proof fn law_response_is_matching_event(report: Seq<u8>, transaction: u16)
    requires
        is_response(report, transaction),
    ensures
        is_matching_event(report, transaction),
{
    lemma_is_response(report, transaction);
    lemma_header_stretches(report, transaction);
}

/// A report answers one transaction at most.
pub proof fn law_response_answers_one_transaction(report: Seq<u8>, a: u16, b: u16)
    requires
        is_response(report, a),
        is_response(report, b),
    ensures
        a == b,
{
    lemma_is_response(report, a);
    lemma_is_response(report, b);
}

/// A report that has the marks of one transaction's event is not the event of another.
pub proof fn law_event_matches_one_transaction(report: Seq<u8>, a: u16, b: u16)
    requires
        is_matching_event(report, a),
        is_matching_event(report, b),
    ensures
        a == b,
{
    lemma_header_stretches(report, a);
    lemma_header_stretches(report, b);
}

/// A response in which any one meaningful byte has changed is rejected.
pub proof fn law_changed_byte_is_noticed(
    report: Seq<u8>,
    transaction: u16,
    index: int,
    value: u8,
)
    requires
        is_response(report, transaction),
        0 <= index < MEANINGFUL_LENGTH,
        value != report[index],
    ensures
        !is_response(report.update(index, value), transaction),
{
    let changed = report.update(index, value);
    lemma_is_response(report, transaction);
    lemma_is_response(changed, transaction);
    let summed = report.subrange(5, 19);
    if 5 <= index < 19 {
        assert(changed.subrange(5, 19) =~= summed.update(index - 5, value));
        lemma_byte_sum_update(summed, index - 5, value);
    } else {
        assert(changed.subrange(5, 19) =~= summed);
    }
}

/// Every request is one report long, asks to `GET` the battery event, carries its
/// transaction ID, sums to its checksum, and is zero beyond it.
pub proof fn law_request_layout(transaction: u16)
    ensures
        request(transaction).len() == REPORT_SIZE,
        request(transaction)[9] == BATTERY_EVENT_ID,
        request(transaction)[10] == EVENT_TYPE_GET,
        transaction_of(request(transaction)) == transaction,
        request(transaction)[13] == wrapping_sum(request(transaction).subrange(6, 13)),
        forall|i: int| 14 <= i < REPORT_SIZE ==> request(transaction)[i] == 0,
{
    assert(request(transaction).subrange(6, 13) =~= request_body(transaction).skip(6));
}

/// Requests of different transactions differ, and in nothing but the transaction ID
/// and the checksum.
pub proof fn law_requests_differ_in_transaction_only(a: u16, b: u16)
    ensures
        request(a) == request(b) <==> a == b,
        forall|i: int|
            0 <= i < REPORT_SIZE && !(11 <= i <= 13) ==> request(a)[i] == request(b)[i],
{
    law_request_layout(a);
    law_request_layout(b);
}

/// No request is ever taken for a response.
pub proof fn law_request_is_no_response(asked: u16, transaction: u16)
    ensures
        !is_response(request(asked), transaction),
        !is_matching_event(request(asked), transaction),
{
    lemma_is_response(request(asked), transaction);
    lemma_header_stretches(request(asked), transaction);
}

} // verus!
