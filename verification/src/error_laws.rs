//! What the words for errors tell.

use vstd::prelude::*;

use crate::clock::Duration;
use crate::error::{joined_paths, Error, ErrorView, IoError, IoErrorView};
use crate::text::{decimal, hex, lossy_text};
use crate::text_laws::{law_decimal_is_read_back, number};

verus! {

/// An absent receiver is told with its USB vendor and product number.
pub proof fn law_absent_receiver_in_words()
    ensures
        ErrorView::DeviceNotFound.text() == "Sony INZONE Buds receiver 054c:0ec2 was not found"@,
{
    reveal_strlit("Sony INZONE Buds receiver ");
    reveal_strlit(":");
    reveal_strlit(" was not found");
    reveal_strlit("Sony INZONE Buds receiver 054c:0ec2 was not found");
    reveal_with_fuel(hex, 5);
    assert(hex(0x054c, 4) =~= seq!['0', '5', '4', 'c']);
    assert(hex(0x0ec2, 4) =~= seq!['0', 'e', 'c', '2']);
    assert(ErrorView::DeviceNotFound.text()
        =~= "Sony INZONE Buds receiver 054c:0ec2 was not found"@);
}

/// A timeout is told in whole seconds.
pub proof fn law_timeout_in_words(timeout: Duration)
    ensures
        ({
            let text = ErrorView::Timeout(timeout).text();
            let before = "no battery response within "@.len() as int;
            let after = text.len() - " seconds"@.len();
            &&& before < after
            &&& text.take(before) == "no battery response within "@
            &&& number(text.subrange(before, after)) == timeout.nanos as int / 1_000_000_000
            &&& text.skip(after) == " seconds"@
        }),
{
    let text = ErrorView::Timeout(timeout).text();
    let before = "no battery response within "@.len() as int;
    let after = text.len() - " seconds"@.len();
    let digits = decimal((timeout.nanos as int / 1_000_000_000) as nat);
    law_decimal_is_read_back((timeout.nanos as int / 1_000_000_000) as nat);
    assert(text == "no battery response within "@ + digits + " seconds"@);
    assert(text.take(before) =~= "no battery response within "@);
    assert(text.subrange(before, after) =~= digits);
    assert(text.skip(after) =~= " seconds"@);
}

/// A failure of the system is told with what was being done, and in the system's own words;
/// a device that was refused with its path; a response that was refused with the reason.
pub proof fn law_causes_in_words(
    operation: Seq<char>,
    source: IoErrorView,
    path: Seq<u8>,
    reason: Seq<char>,
)
    ensures
        ({
            let text = ErrorView::Io { operation, source }.text();
            &&& text.take(operation.len() as int) == operation
            &&& text[operation.len() as int] == ':'
            &&& text[operation.len() as int + 1] == ' '
            &&& text.skip(operation.len() as int + 2) == source.message
        }),
        ({
            let text = ErrorView::DeviceMismatch(path).text();
            let start = "refusing to send a Sony HID request to unverified device "@;
            &&& text.take(start.len() as int) == start
            &&& text.skip(start.len() as int) == lossy_text(path)
        }),
        ({
            let text = ErrorView::InvalidResponse(reason).text();
            let start = "invalid battery response: "@;
            &&& text.take(start.len() as int) == start
            &&& text.skip(start.len() as int) == reason
        }),
{
    reveal_strlit(": ");
    let told = ErrorView::Io { operation, source }.text();
    assert(told.take(operation.len() as int) =~= operation);
    assert(told.skip(operation.len() as int + 2) =~= source.message);
    let refused = ErrorView::DeviceMismatch(path).text();
    let start = "refusing to send a Sony HID request to unverified device "@;
    assert(refused.take(start.len() as int) =~= start);
    assert(refused.skip(start.len() as int) =~= lossy_text(path));
    let invalid = ErrorView::InvalidResponse(reason).text();
    let begin = "invalid battery response: "@;
    assert(invalid.take(begin.len() as int) =~= begin);
    assert(invalid.skip(begin.len() as int) =~= reason);
}

/// Of several devices all are told, in order and with a comma and a blank between them.
pub proof fn law_several_devices_in_words(paths: Seq<Seq<u8>>, path: Seq<u8>)
    ensures
        ({
            let text = ErrorView::AmbiguousDevices(paths).text();
            let start = "multiple matching INZONE battery interfaces found: "@;
            &&& text.take(start.len() as int) == start
            &&& text.skip(start.len() as int) == joined_paths(paths)
        }),
        joined_paths(seq![path]) == lossy_text(path),
        paths.len() > 0 ==> joined_paths(paths.push(path)) == joined_paths(paths) + seq![',', ' ']
            + lossy_text(path),
{
    reveal_strlit(", ");
    let text = ErrorView::AmbiguousDevices(paths).text();
    let start = "multiple matching INZONE battery interfaces found: "@;
    assert(text.take(start.len() as int) =~= start);
    assert(text.skip(start.len() as int) =~= joined_paths(paths));
    assert(paths.push(path).drop_last() =~= paths);
    assert(", "@ =~= seq![',', ' ']);
}

/// Errors are seen as they are.
pub proof fn law_errors_are_seen_as_they_are(
    paths: Vec<Vec<u8>>,
    path: Vec<u8>,
    operation: &'static str,
    source: IoError,
    timeout: Duration,
    reason: String,
    i: int,
)
    requires
        0 <= i < paths@.len(),
    ensures
        Error::DeviceNotFound@ == ErrorView::DeviceNotFound,
        Error::AmbiguousDevices(paths)@ matches ErrorView::AmbiguousDevices(told) && told.len()
            == paths@.len() && told[i] == paths@[i]@,
        Error::DeviceMismatch(path)@ == ErrorView::DeviceMismatch(path@),
        (Error::Io { operation, source })@ == (ErrorView::Io {
            operation: operation@,
            source: source@,
        }),
        Error::Timeout(timeout)@ == ErrorView::Timeout(timeout),
        Error::InvalidResponse(reason)@ == ErrorView::InvalidResponse(reason@),
{
}

} // verus!
