//! Choosing a device and asking it for its batteries, where others do the looking and
//! the asking.

use vstd::prelude::*;

use crate::battery::BatteryReading;
use crate::device::path_result;
use crate::error::{Error, ErrorView};
use crate::query::{QueryResult, QueryResultView};

verus! {

/// The contents of a query's outcome.
pub open spec fn query_outcome(outcome: Result<QueryResult, Error>) -> Result<
    QueryResultView,
    ErrorView,
> {
    match outcome {
        Ok(result) => Ok(result@),
        Err(error) => Err(error@),
    }
}

/// Whether a way to discover devices may come to this end.
pub open spec fn may_find<D: FnOnce() -> Result<Vec<u8>, Error>>(
    discover: D,
    found: Result<Seq<u8>, ErrorView>,
) -> bool {
    exists|result: Result<Vec<u8>, Error>| #[trigger]
        call_ensures(discover, (), result) && path_result(result) == found
}

/// Whether a way to query devices may come to this end on a device.
pub open spec fn may_bring<Q: FnOnce(&[u8]) -> Result<QueryResult, Error>>(
    query: Q,
    device: Seq<u8>,
    outcome: Result<QueryResultView, ErrorView>,
) -> bool {
    exists|path: &[u8], result: Result<QueryResult, Error>| #[trigger]
        call_ensures(query, (path,), result) && path@ == device && query_outcome(result) == outcome
}

/// The device to use: the one that was named, and otherwise what discovery found.
pub open spec fn chosen_device(
    named: Option<Seq<u8>>,
    found: Result<Seq<u8>, ErrorView>,
) -> Result<Seq<u8>, ErrorView> {
    match named {
        Some(device) => Ok(device),
        None => found,
    }
}

/// Whether a device may come to be used: the one that was named, and otherwise only one
/// that discovery may find.
pub open spec fn may_choose<D: FnOnce() -> Result<Vec<u8>, Error>>(
    named: Option<Seq<u8>>,
    discover: D,
    device: Seq<u8>,
) -> bool {
    match named {
        Some(named) => device == named,
        None => may_find(discover, Ok(device)),
    }
}

/// The device to use: the configured one, and otherwise what discovery finds. Discovery
/// is run only where no device is configured.
pub fn configured_device_with<D: FnOnce() -> Result<Vec<u8>, Error>>(
    configured: Option<Vec<u8>>,
    discover: D,
) -> (device: Result<Vec<u8>, Error>)
    requires
        configured is None ==> call_requires(discover, ()),
    ensures
        match configured {
            Some(path) => path_result(device) == Ok::<Seq<u8>, ErrorView>(path@),
            None => may_find(discover, path_result(device)),
        },
{
    match configured {
        Some(path) => Ok(path),
        None => discover(),
    }
}

/// What is learnt of the batteries from the outcome of a query.
pub open spec fn reading_result(outcome: Result<QueryResultView, ErrorView>) -> Result<
    BatteryReading,
    Seq<char>,
> {
    match outcome {
        Ok(result) => Ok(result.reading),
        Err(error) => Err(error.text()),
    }
}

/// The contents of a reading or of the message of an error.
pub open spec fn reading_view(result: Result<BatteryReading, String>) -> Result<
    BatteryReading,
    Seq<char>,
> {
    match result {
        Ok(reading) => Ok(reading),
        Err(message) => Err(message@),
    }
}

/// What is learnt of the batteries from the outcome of a query: the reading, or the
/// message of the error.
pub fn reading_of_query(outcome: Result<QueryResult, Error>) -> (result: Result<
    BatteryReading,
    String,
>)
    ensures
        reading_view(result) == reading_result(query_outcome(outcome)),
{
    match outcome {
        Ok(result) => Ok(result.reading),
        Err(error) => Err(error.to_string()),
    }
}

/// Reads the batteries of the device that was found: the reading, or the message of the
/// error that kept the device from being found or from being read. Only a device that was
/// found is queried.
pub fn read_batteries_with<Q: FnOnce(&[u8]) -> Result<QueryResult, Error>>(
    discovered: Result<Vec<u8>, Error>,
    query: Q,
) -> (result: Result<BatteryReading, String>)
    requires
        discovered matches Ok(found) ==> forall|device: &[u8]|
            device@ == found@ ==> call_requires(query, (device,)),
    ensures
        match path_result(discovered) {
            Ok(device) => exists|outcome: Result<QueryResultView, ErrorView>|
                may_bring(query, device, outcome) && reading_view(result)
                    == #[trigger] reading_result(outcome),
            Err(error) => reading_view(result) == Err::<BatteryReading, Seq<char>>(error.text()),
        },
{
    match discovered {
        Ok(device) => {
            let path = device.as_slice();
            let outcome = query(path);
            assert(may_bring(query, device@, query_outcome(outcome)));
            reading_of_query(outcome)
        },
        Err(error) => Err(error.to_string()),
    }
}

/// What a query brought is handed on as it is: its reading, or the words of its error.
pub proof fn law_query_is_handed_on_as_it_is(result: QueryResult, error: Error, message: String)
    ensures
        reading_result(query_outcome(Ok(result))) == Ok::<BatteryReading, Seq<char>>(
            result.reading,
        ),
        reading_result(query_outcome(Err(error))) == Err::<BatteryReading, Seq<char>>(
            error@.text(),
        ),
        reading_view(Ok(result.reading)) == Ok::<BatteryReading, Seq<char>>(result.reading),
        reading_view(Err(message)) == Err::<BatteryReading, Seq<char>>(message@),
        query_outcome(Ok(result)) == Ok::<QueryResultView, ErrorView>(
            QueryResultView { reading: result.reading, raw_response: result.raw_response@ },
        ),
{
}

/// A named device is used whatever discovery would find, and what discovery finds is used
/// where none is named.
pub proof fn law_named_device_comes_first(
    named: Seq<u8>,
    found: Result<Seq<u8>, ErrorView>,
)
    ensures
        chosen_device(Some(named), found) == Ok::<Seq<u8>, ErrorView>(named),
        chosen_device(None, found) == found,
{
}

/// Where a way to query succeeds on one device alone, a query that brings a result was made
/// on that device.
pub proof fn law_the_device_itself_is_queried<Q: FnOnce(&[u8]) -> Result<QueryResult, Error>>(
    query: Q,
    device: Seq<u8>,
    only: Seq<u8>,
    outcome: Result<QueryResultView, ErrorView>,
)
    requires
        may_bring(query, device, outcome),
        outcome is Ok,
        forall|path: &[u8], result: Result<QueryResult, Error>| #[trigger]
            call_ensures(query, (path,), result) && result is Ok ==> path@ == only,
    ensures
        device == only,
{
}

/// What a way to discover devices or to query them always gives is what comes of it.
pub proof fn law_nothing_else_comes_of_it<
    D: FnOnce() -> Result<Vec<u8>, Error>,
    Q: FnOnce(&[u8]) -> Result<QueryResult, Error>,
>(
    discover: D,
    query: Q,
    path: Seq<u8>,
    reading: BatteryReading,
    device: Seq<u8>,
    found: Result<Seq<u8>, ErrorView>,
    outcome: Result<QueryResultView, ErrorView>,
)
    requires
        forall|result: Result<Vec<u8>, Error>| #[trigger]
            call_ensures(discover, (), result) ==> (result matches Ok(given) && given@ == path),
        forall|path: &[u8], result: Result<QueryResult, Error>| #[trigger]
            call_ensures(query, (path,), result) ==> (result matches Ok(given) && given.reading
                == reading),
    ensures
        may_find(discover, found) ==> found == Ok::<Seq<u8>, ErrorView>(path),
        may_bring(query, device, outcome) ==> (outcome matches Ok(result) && result.reading
            == reading),
        may_choose(None, discover, device) ==> device == path,
        may_choose(Some(path), discover, device) ==> device == path,
{
}

} // verus!
