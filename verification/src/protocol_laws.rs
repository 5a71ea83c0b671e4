//! The request and the response byte by byte.

use vstd::prelude::*;

use crate::battery::{BatteryCell, BatteryState};
use crate::protocol::{
    byte_sum, is_matching_event, is_response, payload_of, reading_of, rejection, request, response,
    transaction_of,
};
use crate::text::{decimal, hex};

verus! {

/// One more byte adds its value to the sum.
proof fn lemma_sum_grows(bytes: Seq<u8>, start: int, end: int)
    requires
        0 <= start <= end < bytes.len(),
    ensures
        byte_sum(bytes.subrange(start, end + 1)) == byte_sum(bytes.subrange(start, end))
            + bytes[end],
{
    assert(bytes.subrange(start, end + 1).drop_last() =~= bytes.subrange(start, end));
}

proof fn lemma_sum_starts(bytes: Seq<u8>, start: int)
    requires
        0 <= start <= bytes.len(),
    ensures
        byte_sum(bytes.subrange(start, start)) == 0,
{
}

/// A report is a response to a transaction exactly where these bytes are what they are to
/// be: the report and frame headers, the key, the event, the transaction ID with its low
/// byte first, and the sum of all bytes from the sixth to the last of the payload.
pub proof fn law_response_bytes(report: Seq<u8>, transaction: u16)
    ensures
        is_response(report, transaction) <==> {
            &&& report.len() >= 20
            &&& report[0] == 0x02
            &&& report[1] == 0x12
            &&& report[2] == 0x04
            &&& report[3] == 0xff
            &&& report[4] == 0x0f
            &&& report[5] == 0x00
            &&& report[6] == 0x96
            &&& report[7] == 0xc3
            &&& report[8] == 0x14
            &&& report[9] == 0x04
            &&& report[10] == 0x10
            &&& report[11] + 256 * report[12] == transaction
            &&& report[19] == (report[5] + report[6] + report[7] + report[8] + report[9]
                + report[10] + report[11] + report[12] + report[13] + report[14] + report[15]
                + report[16] + report[17] + report[18]) % 256
        },
{
    if report.len() >= 20 {
        crate::protocol::lemma_is_response(report, transaction);
        lemma_sum_starts(report, 5);
        lemma_sum_grows(report, 5, 5);
        lemma_sum_grows(report, 5, 6);
        lemma_sum_grows(report, 5, 7);
        lemma_sum_grows(report, 5, 8);
        lemma_sum_grows(report, 5, 9);
        lemma_sum_grows(report, 5, 10);
        lemma_sum_grows(report, 5, 11);
        lemma_sum_grows(report, 5, 12);
        lemma_sum_grows(report, 5, 13);
        lemma_sum_grows(report, 5, 14);
        lemma_sum_grows(report, 5, 15);
        lemma_sum_grows(report, 5, 16);
        lemma_sum_grows(report, 5, 17);
        lemma_sum_grows(report, 5, 18);
    }
}

/// In a report of whatever bytes, the left earbud is told by bytes 13 and 14 alone, the
/// right one by bytes 15 and 16 alone, and the case by bytes 17 and 18 alone: a percentage
/// up to one hundred as it stands and none above, and the state of the state byte.
pub proof fn law_each_cell_has_its_own_bytes(report: Seq<u8>)
    requires
        report.len() >= 20,
    ensures
        ({
            let reading = reading_of(payload_of(report));
            &&& report[14] <= 100 ==> reading.left.percent == Some(report[14])
            &&& report[14] > 100 ==> reading.left.percent is None
            &&& report[16] <= 100 ==> reading.right.percent == Some(report[16])
            &&& report[16] > 100 ==> reading.right.percent is None
            &&& report[18] <= 100 ==> reading.case.percent == Some(report[18])
            &&& report[18] > 100 ==> reading.case.percent is None
            &&& reading.left.state == BatteryState::of_byte(report[13])
            &&& reading.right.state == BatteryState::of_byte(report[15])
            &&& reading.case.state == BatteryState::of_byte(report[17])
        }),
{
}

/// What the state bytes mean: zero is discharging, one is charging, two is an error, the
/// greatest byte is unavailable, and any other byte is kept as one of unknown meaning.
pub proof fn law_state_bytes_have_their_meaning(byte: u8)
    ensures
        BatteryState::of_byte(byte) == BatteryState::Discharging <==> byte == 0,
        BatteryState::of_byte(byte) == BatteryState::Charging <==> byte == 1,
        BatteryState::of_byte(byte) == BatteryState::Error <==> byte == 2,
        BatteryState::of_byte(byte) == BatteryState::Unavailable <==> byte == 255,
        2 < byte < 255 ==> BatteryState::of_byte(byte) == BatteryState::Unknown(byte),
{
}

/// A cell keeps the percentage of its percentage byte, whatever its state byte, and the
/// state of its state byte, whatever its percentage byte.
pub proof fn law_cells_keep_their_bytes(state: u8, percent: u8, other: u8)
    ensures
        percent <= 100 ==> BatteryCell::of_bytes(state, percent).percent == Some(percent),
        percent > 100 ==> BatteryCell::of_bytes(state, percent).percent is None,
        BatteryCell::of_bytes(state, percent).state == BatteryCell::of_bytes(state, other).state,
        BatteryCell::of_bytes(state, percent).state == BatteryState::of_byte(state),
{
}

/// Exchanging the bytes of two cells in a response, with the checksum as it was, gives a
/// response in which those two cells are exchanged and the third is as it was.
pub proof fn law_exchanged_bytes_exchange_the_cells(report: Seq<u8>, transaction: u16)
    requires
        is_response(report, transaction),
    ensures
        ({
            let changed = report.update(13, report[15]).update(14, report[16]).update(
                15,
                report[13],
            ).update(16, report[14]);
            let before = reading_of(payload_of(report));
            let after = reading_of(payload_of(changed));
            &&& is_response(changed, transaction)
            &&& after.left == before.right
            &&& after.right == before.left
            &&& after.case == before.case
        }),
{
    let changed = report.update(13, report[15]).update(14, report[16]).update(
        15,
        report[13],
    ).update(16, report[14]);
    law_response_bytes(report, transaction);
    law_response_bytes(changed, transaction);
}

/// The built response holds the payload at offset 13 and is twenty bytes long.
pub proof fn law_response_holds_its_payload(transaction: u16, payload: Seq<u8>)
    requires
        payload.len() == 6,
    ensures
        response(transaction, payload).len() == 20,
        forall|i: int| 0 <= i < 6 ==> response(transaction, payload)[13 + i] == payload[i],
        response(transaction, payload)[11] + 256 * response(transaction, payload)[12]
            == transaction,
{
}

/// The bytes of a request: the report and frame headers, the key, the way from the
/// computer to the receiver, the battery event, `GET`, the transaction ID with its low
/// byte first, and the sum of all bytes from the key on. All others are zero.
pub proof fn law_request_bytes(transaction: u16)
    ensures
        ({
            let report = request(transaction);
            &&& report.len() == 64
            &&& report[0] == 0x02
            &&& report[1] == 0x0c
            &&& report[2] == 0x01
            &&& report[3] == 0x00
            &&& report[4] == 0xfc
            &&& report[5] == 0x08
            &&& report[6] == 0x96
            &&& report[7] == 0xc3
            &&& report[8] == 0x41
            &&& report[9] == 0x04
            &&& report[10] == 0x01
            &&& report[11] + 256 * report[12] == transaction
            &&& report[13] == (report[6] + report[7] + report[8] + report[9] + report[10]
                + report[11] + report[12]) % 256
            &&& forall|i: int| 14 <= i < 64 ==> report[i] == 0
        }),
{
    let report = request(transaction);
    crate::protocol::law_request_layout(transaction);
    lemma_sum_starts(report, 6);
    lemma_sum_grows(report, 6, 6);
    lemma_sum_grows(report, 6, 7);
    lemma_sum_grows(report, 6, 8);
    lemma_sum_grows(report, 6, 9);
    lemma_sum_grows(report, 6, 10);
    lemma_sum_grows(report, 6, 11);
    lemma_sum_grows(report, 6, 12);
}

/// A report has the marks of the battery event of a transaction exactly where these bytes
/// are what they are to be.
pub proof fn law_event_bytes(report: Seq<u8>, transaction: u16)
    ensures
        is_matching_event(report, transaction) <==> {
            &&& report.len() >= 13
            &&& report[0] == 0x02
            &&& report[2] == 0x04
            &&& report[3] == 0xff
            &&& report[6] == 0x96
            &&& report[7] == 0xc3
            &&& report[8] == 0x14
            &&& report[9] == 0x04
            &&& report[10] == 0x10
            &&& report[11] + 256 * report[12] == transaction
        },
{
    if report.len() >= 13 {
        crate::protocol::lemma_header_stretches(report, transaction);
    }
}

/// A report that is refused for its first bytes is refused with these words: for its
/// length, its report ID or its frame length.
pub proof fn law_refused_headers_are_told(report: Seq<u8>, transaction: u16)
    ensures
        report.len() < 2 ==> rejection(report, transaction) == "report is shorter than its header"@,
        report.len() >= 2 && report[0] != 0x02 ==> rejection(report, transaction)
            == "unexpected report ID 0x"@ + hex(report[0] as nat, 2),
        report.len() >= 2 && report[0] == 0x02 && (report[1] != 0x12 || report.len() < 20)
            ==> rejection(report, transaction) == "invalid frame length "@ + decimal(
            report[1] as nat,
        ),
{
}

/// A report of the right size is refused with these words: for its event header, its key,
/// its event, its transaction or its checksum, whichever comes first.
pub proof fn law_refused_frames_are_told(report: Seq<u8>, transaction: u16)
    requires
        report.len() >= 20,
        report[0] == 0x02,
        report[1] == 0x12,
    ensures
        ({
            let reason = rejection(report, transaction);
            let header = report[2] == 0x04 && report[3] == 0xff && report[4] == 0x0f && report[5]
                == 0x00;
            let key = report[6] == 0x96 && report[7] == 0xc3;
            let event = report[8] == 0x14 && report[9] == 0x04 && report[10] == 0x10;
            let carried = report[11] + 256 * report[12];
            let sum = (report[5] + report[6] + report[7] + report[8] + report[9] + report[10]
                + report[11] + report[12] + report[13] + report[14] + report[15] + report[16]
                + report[17] + report[18]) % 256;
            &&& !header ==> reason == "unexpected Sony HCI event header"@
            &&& header && !key ==> reason == "Sony key does not match"@
            &&& header && key && !event ==> reason == "packet is not a battery return event"@
            &&& header && key && event && carried != transaction ==> reason == "transaction "@
                + decimal(carried as nat) + " does not match "@ + decimal(transaction as nat)
            &&& header && key && event && carried == transaction && report[19] != sum ==> reason
                == "checksum 0x"@ + hex(report[19] as nat, 2) + " does not match calculated 0x"@
                + hex(sum as nat, 2)
        }),
{
    crate::protocol::lemma_header_stretches(report, transaction);
    lemma_sum_starts(report, 5);
    lemma_sum_grows(report, 5, 5);
    lemma_sum_grows(report, 5, 6);
    lemma_sum_grows(report, 5, 7);
    lemma_sum_grows(report, 5, 8);
    lemma_sum_grows(report, 5, 9);
    lemma_sum_grows(report, 5, 10);
    lemma_sum_grows(report, 5, 11);
    lemma_sum_grows(report, 5, 12);
    lemma_sum_grows(report, 5, 13);
    lemma_sum_grows(report, 5, 14);
    lemma_sum_grows(report, 5, 15);
    lemma_sum_grows(report, 5, 16);
    lemma_sum_grows(report, 5, 17);
    lemma_sum_grows(report, 5, 18);
    assert(transaction_of(report) == report[11] + 256 * report[12]);
}

} // verus!
