//! The command line: arguments, output and exit status.

use vstd::prelude::*;
use vstd::slice::slice_to_vec;

use crate::battery::BatteryReading;
use crate::device::path_result;
use crate::error::{Error, ErrorView};
use crate::json::{reading_json, reading_object};
use crate::lookup::{chosen_device, may_bring, may_choose, may_find, query_outcome};
use crate::query::{QueryResult, QueryResultView};
use crate::text::{
    hex, lossy_text, push_hex, same_text, to_lossy_text, to_utf8_text, utf8_text, views,
};

verus! {

pub const HELP: &'static str = "\
Native Sony INZONE Buds battery status for Linux

Usage: inzone-buds [OPTIONS]

Options:
      --device PATH  Use a specific verified hidraw device
      --json         Print machine-readable JSON
      --raw          Print the raw HID response to stderr
  -h, --help         Print help
  -V, --version      Print version
";

/// How a query is to be made and shown.
#[derive(Debug)]
pub struct Options {
    pub device: Option<Vec<u8>>,
    pub json: bool,
    pub raw: bool,
}

/// The contents of [`Options`].
pub struct OptionsView {
    pub device: Option<Seq<u8>>,
    pub json: bool,
    pub raw: bool,
}

impl View for Options {
    type V = OptionsView;

    open spec fn view(&self) -> OptionsView {
        OptionsView {
            device: match self.device {
                Some(device) => Some(device@),
                None => None,
            },
            json: self.json,
            raw: self.raw,
        }
    }
}

impl OptionsView {
    /// The options where none was given.
    pub open spec fn none() -> Self {
        OptionsView { device: None, json: false, raw: false }
    }
}

impl Default for Options {
    fn default() -> (options: Self)
        ensures
            options@ == OptionsView::none(),
    {
        Options { device: None, json: false, raw: false }
    }
}

/// What the arguments ask for.
#[derive(Debug)]
pub enum Command {
    Query(Options),
    Help,
    Version,
}

/// The contents of a [`Command`].
pub enum CommandView {
    Query(OptionsView),
    Help,
    Version,
}

impl View for Command {
    type V = CommandView;

    open spec fn view(&self) -> CommandView {
        match self {
            Command::Query(options) => CommandView::Query(options@),
            Command::Help => CommandView::Help,
            Command::Version => CommandView::Version,
        }
    }
}

/// What arguments ask for on top of the options that were given already. The first
/// that is not an option decides, and so does a request for help or for the version.
pub open spec fn parsed_args(arguments: Seq<Seq<u8>>, options: OptionsView) -> Result<
    CommandView,
    Seq<char>,
>
    decreases arguments.len(),
{
    if arguments.len() == 0 {
        Ok(CommandView::Query(options))
    } else {
        match utf8_text(arguments[0]) {
            Some(text) => if text == "--device"@ {
                if arguments.len() == 1 {
                    Err("--device requires a path"@)
                } else {
                    parsed_args(
                        arguments.skip(2),
                        OptionsView { device: Some(arguments[1]), ..options },
                    )
                }
            } else if text == "--json"@ {
                parsed_args(arguments.skip(1), OptionsView { json: true, ..options })
            } else if text == "--raw"@ {
                parsed_args(arguments.skip(1), OptionsView { raw: true, ..options })
            } else if text == "-h"@ || text == "--help"@ {
                Ok(CommandView::Help)
            } else if text == "-V"@ || text == "--version"@ {
                Ok(CommandView::Version)
            } else {
                Err("unknown option: "@ + text + "\n\n"@ + HELP@)
            },
            None => Err("arguments must be valid UTF-8"@),
        }
    }
}

/// What the arguments, without the name of the program, ask for.
pub fn parse_args_from(arguments: &Vec<Vec<u8>>) -> (result: Result<Command, String>)
    ensures
        match result {
            Ok(command) => parsed_args(views(arguments@), OptionsView::none()) == Ok::<
                CommandView,
                Seq<char>,
            >(command@),
            Err(message) => parsed_args(views(arguments@), OptionsView::none()) == Err::<
                CommandView,
                Seq<char>,
            >(message@),
        },
{
    let mut options = Options { device: None, json: false, raw: false };
    let ghost all = views(arguments@);
    let n: usize = arguments.len();
    let mut i: usize = 0;
    assert(all.skip(0) =~= all);
    while i < n
        invariant
            i <= n == arguments@.len(),
            all == views(arguments@),
            parsed_args(all, OptionsView::none()) == parsed_args(all.skip(i as int), options@),
        decreases n - i,
    {
        let ghost rest = all.skip(i as int);
        proof {
            assert(rest[0] == arguments@[i as int]@);
            assert(rest.skip(1) =~= all.skip(i + 1));
        }
        let text = match to_utf8_text(arguments[i].as_slice()) {
            Some(text) => text,
            None => {
                return Err("arguments must be valid UTF-8".to_owned());
            },
        };
        if same_text(text.as_str(), "--device") {
            if n - i < 2 {
                return Err("--device requires a path".to_owned());
            }
            proof {
                assert(rest[1] == arguments@[i + 1]@);
                assert(rest.skip(2) =~= all.skip(i + 2));
            }
            options.device = Some(slice_to_vec(arguments[i + 1].as_slice()));
            i = i + 2;
        } else if same_text(text.as_str(), "--json") {
            options.json = true;
            i = i + 1;
        } else if same_text(text.as_str(), "--raw") {
            options.raw = true;
            i = i + 1;
        } else if same_text(text.as_str(), "-h") || same_text(text.as_str(), "--help") {
            return Ok(Command::Help);
        } else if same_text(text.as_str(), "-V") || same_text(text.as_str(), "--version") {
            return Ok(Command::Version);
        } else {
            let mut message = "unknown option: ".to_owned();
            message.append(text.as_str());
            message.append("\n\n");
            message.append(HELP);
            return Err(message);
        }
    }
    assert(all.skip(n as int) =~= seq![]);
    Ok(Command::Query(options))
}

/// The bytes in hexadecimal, each after a space.
pub open spec fn spaced_hex(bytes: Seq<u8>) -> Seq<char>
    decreases bytes.len(),
{
    if bytes.len() == 0 {
        seq![]
    } else {
        spaced_hex(bytes.drop_last()) + " "@ + hex(bytes.last() as nat, 2)
    }
}

fn push_spaced_hex(out: &mut String, bytes: &[u8])
    ensures
        final(out)@ == old(out)@ + spaced_hex(bytes@),
{
    let ghost start = out@;
    for i in 0..bytes.len()
        invariant
            out@ == start + spaced_hex(bytes@.take(i as int)),
    {
        proof {
            assert(bytes@.take(i + 1).drop_last() =~= bytes@.take(i as int));
        }
        out.append(" ");
        push_hex(out, bytes[i] as u32, 2);
    }
    assert(bytes@.take(bytes@.len() as int) =~= bytes@);
}

/// A reading of a device in words, one line each for the device and the three cells.
pub open spec fn reading_lines(device: Seq<char>, reading: BatteryReading) -> Seq<char> {
    "Sony INZONE Buds ("@ + device + ")\nLeft:  "@ + reading.left.text() + "\nRight: "@
        + reading.right.text() + "\nCase:  "@ + reading.case.text() + "\n"@
}

/// A reading of a device in words, one line each for the device and the three cells.
pub fn reading_text(device: &str, reading: BatteryReading) -> (text: String)
    ensures
        text@ == reading_lines(device@, reading),
{
    let mut out = "Sony INZONE Buds (".to_owned();
    out.append(device);
    out.append(")\nLeft:  ");
    out.append(reading.left.to_string().as_str());
    out.append("\nRight: ");
    out.append(reading.right.to_string().as_str());
    out.append("\nCase:  ");
    out.append(reading.case.to_string().as_str());
    out.append("\n");
    out
}

/// What goes to standard output for the result of a query.
pub open spec fn shown_result(
    options: OptionsView,
    device: Seq<char>,
    result: QueryResultView,
) -> Seq<char> {
    if options.json {
        reading_object(device, result.reading) + "\n"@
    } else {
        reading_lines(device, result.reading)
    }
}

/// What goes to standard error beside the result of a query.
pub open spec fn shown_raw(options: OptionsView, result: QueryResultView) -> Seq<char> {
    if options.raw {
        "raw:"@ + spaced_hex(result.raw_response) + "\n"@
    } else {
        seq![]
    }
}

/// What goes to standard output and to standard error for the result of querying a
/// device, given the text in which the device is shown.
pub fn show_result(options: &Options, device: &str, result: &QueryResult) -> (output: (
    String,
    String,
))
    ensures
        output.0@ == shown_result(options@, device@, result@),
        output.1@ == shown_raw(options@, result@),
{
    let mut stderr = String::new();
    if options.raw {
        stderr.append("raw:");
        push_spaced_hex(&mut stderr, result.raw_response.as_slice());
        stderr.append("\n");
    }
    let stdout = if options.json {
        let mut line = reading_json(device, result.reading);
        line.append("\n");
        line
    } else {
        reading_text(device, result.reading)
    };
    (stdout, stderr)
}

/// The contents of what goes to standard output and to standard error, or of a message.
pub open spec fn output_view(result: Result<(String, String), String>) -> Result<
    (Seq<char>, Seq<char>),
    Seq<char>,
> {
    match result {
        Ok((stdout, stderr)) => Ok((stdout@, stderr@)),
        Err(message) => Err(message@),
    }
}

/// What is shown once a device was queried.
pub open spec fn shown_outcome(
    options: OptionsView,
    device: Seq<u8>,
    outcome: Result<QueryResultView, ErrorView>,
) -> Result<(Seq<char>, Seq<char>), Seq<char>> {
    match outcome {
        Ok(result) => Ok(
            (shown_result(options, lossy_text(device), result), shown_raw(options, result)),
        ),
        Err(error) => Err(error.text()),
    }
}

/// What goes to standard output and to standard error once a device was queried, or the
/// message of the error.
pub fn show_outcome(
    options: &Options,
    device: &[u8],
    outcome: Result<QueryResult, Error>,
) -> (shown: Result<(String, String), String>)
    ensures
        output_view(shown) == shown_outcome(options@, device@, query_outcome(outcome)),
{
    match outcome {
        Ok(result) => Ok(show_result(options, to_lossy_text(device).as_str(), &result)),
        Err(error) => Err(error.to_string()),
    }
}

/// What a query shows, given what discovery would find and what the device would bring.
pub open spec fn executed(
    options: OptionsView,
    found: Result<Seq<u8>, ErrorView>,
    outcome: Result<QueryResultView, ErrorView>,
) -> Result<(Seq<char>, Seq<char>), Seq<char>> {
    match chosen_device(options.device, found) {
        Ok(device) => shown_outcome(options, device, outcome),
        Err(error) => Err(error.text()),
    }
}

/// Whether discovery may find this and the device bring that. Discovery is asked only
/// where no device was named, and only a device that was named or found is queried.
pub open spec fn may_happen<
    D: FnOnce() -> Result<Vec<u8>, Error>,
    Q: FnOnce(&[u8]) -> Result<QueryResult, Error>,
>(
    options: OptionsView,
    discover: D,
    query: Q,
    found: Result<Seq<u8>, ErrorView>,
    outcome: Result<QueryResultView, ErrorView>,
) -> bool {
    &&& options.device is None ==> may_find(discover, found)
    &&& chosen_device(options.device, found) matches Ok(device) ==> may_bring(
        query,
        device,
        outcome,
    )
}

/// Queries the device that was named, or otherwise the one that discovery finds: what
/// goes to standard output and to standard error, or the message of the error. Discovery
/// is run only where no device was named, and only a device that was named or found is
/// queried.
pub fn execute<D, Q>(options: Options, discover: D, query: Q) -> (result: Result<
    (String, String),
    String,
>) where D: FnOnce() -> Result<Vec<u8>, Error>, Q: FnOnce(&[u8]) -> Result<QueryResult, Error>
    requires
        options@.device is None ==> call_requires(discover, ()),
        forall|device: &[u8]|
            may_choose(options@.device, discover, device@) ==> call_requires(query, (device,)),
    ensures
        exists|found: Result<Seq<u8>, ErrorView>, outcome: Result<QueryResultView, ErrorView>|
            may_happen(options@, discover, query, found, outcome) && output_view(result)
                == #[trigger] executed(options@, found, outcome),
{
    let ghost view = options@;
    let Options { device, json, raw } = options;
    let chosen = match device {
        Some(device) => Ok(device),
        None => discover(),
    };
    let ghost found = path_result(chosen);
    let device = match chosen {
        Ok(device) => device,
        Err(error) => {
            let ghost outcome: Result<QueryResultView, ErrorView> = Err(ErrorView::DeviceNotFound);
            let message = error.to_string();
            assert(may_happen(view, discover, query, found, outcome));
            assert(executed(view, found, outcome) == Err::<(Seq<char>, Seq<char>), Seq<char>>(
                message@,
            ));
            return Err(message);
        },
    };
    let outcome = query(device.as_slice());
    let ghost brought = query_outcome(outcome);
    let shown = show_outcome(
        &Options { device: None, json, raw },
        device.as_slice(),
        outcome,
    );
    assert(may_bring(query, device@, brought));
    assert(may_happen(view, discover, query, found, brought));
    assert(output_view(shown) == executed(view, found, brought));
    shown
}

/// Whether the program did what it was asked.
#[derive(Clone, Copy, Debug, PartialEq, Eq, Structural)]
pub enum ExitStatus {
    Success,
    Failure,
}

/// How the program ends: its status, and what goes to standard output and to standard
/// error.
pub open spec fn exit_view(exit: (ExitStatus, String, String)) -> (
    ExitStatus,
    Seq<char>,
    Seq<char>,
) {
    (exit.0, exit.1@, exit.2@)
}

/// The end of the program after an error.
pub open spec fn failure(message: Seq<char>) -> (ExitStatus, Seq<char>, Seq<char>) {
    (ExitStatus::Failure, seq![], "error: "@ + message + "\n"@)
}

/// The end of the program, given what discovery would find and what the device would
/// bring.
pub open spec fn exit_of(
    arguments: Seq<Seq<u8>>,
    version: Seq<char>,
    found: Result<Seq<u8>, ErrorView>,
    outcome: Result<QueryResultView, ErrorView>,
) -> (ExitStatus, Seq<char>, Seq<char>) {
    match parsed_args(arguments, OptionsView::none()) {
        Ok(CommandView::Help) => (ExitStatus::Success, HELP@, seq![]),
        Ok(CommandView::Version) => (
            ExitStatus::Success,
            "inzone-buds "@ + version + "\n"@,
            seq![],
        ),
        Ok(CommandView::Query(options)) => match executed(options, found, outcome) {
            Ok((stdout, stderr)) => (ExitStatus::Success, stdout, stderr),
            Err(message) => failure(message),
        },
        Err(message) => failure(message),
    }
}

fn exit_with_error(message: &str) -> (exit: (ExitStatus, String, String))
    ensures
        exit_view(exit) == failure(message@),
{
    let mut stderr = "error: ".to_owned();
    stderr.append(message);
    stderr.append("\n");
    (ExitStatus::Failure, String::new(), stderr)
}

/// Runs the program with the arguments, without its own name, and with ways to discover
/// devices and to query them. Help, the version and a bad argument need neither.
pub fn application<D, Q>(arguments: &Vec<Vec<u8>>, version: &str, discover: D, query: Q) -> (exit: (
    ExitStatus,
    String,
    String,
)) where D: FnOnce() -> Result<Vec<u8>, Error>, Q: FnOnce(&[u8]) -> Result<QueryResult, Error>
    requires
        parsed_args(views(arguments@), OptionsView::none()) matches Ok(
            CommandView::Query(options),
        ) ==> {
            &&& options.device is None ==> call_requires(discover, ())
            &&& forall|device: &[u8]|
                may_choose(options.device, discover, device@) ==> call_requires(query, (device,))
        },
    ensures
        exists|found: Result<Seq<u8>, ErrorView>, outcome: Result<QueryResultView, ErrorView>|
            {
                &&& parsed_args(views(arguments@), OptionsView::none()) matches Ok(
                    CommandView::Query(options),
                ) ==> may_happen(options, discover, query, found, outcome)
                &&& exit_view(exit) == #[trigger] exit_of(
                    views(arguments@),
                    version@,
                    found,
                    outcome,
                )
            },
{
    let ghost all = views(arguments@);
    let ghost nothing: Result<Seq<u8>, ErrorView> = Err(ErrorView::DeviceNotFound);
    let ghost unasked: Result<QueryResultView, ErrorView> = Err(ErrorView::DeviceNotFound);
    match parse_args_from(arguments) {
        Ok(Command::Help) => {
            let exit = (ExitStatus::Success, HELP.to_owned(), String::new());
            assert(exit_view(exit) == exit_of(all, version@, nothing, unasked));
            exit
        },
        Ok(Command::Version) => {
            let mut stdout = "inzone-buds ".to_owned();
            stdout.append(version);
            stdout.append("\n");
            let exit = (ExitStatus::Success, stdout, String::new());
            assert(exit_view(exit) == exit_of(all, version@, nothing, unasked));
            exit
        },
        Ok(Command::Query(options)) => {
            let ghost view = options@;
            let result = execute(options, discover, query);
            let ghost (found, outcome) = choose|
                found: Result<Seq<u8>, ErrorView>,
                outcome: Result<QueryResultView, ErrorView>,
            |
                may_happen(view, discover, query, found, outcome) && output_view(result)
                    == #[trigger] executed(view, found, outcome);
            let exit = match result {
                Ok((stdout, stderr)) => (ExitStatus::Success, stdout, stderr),
                Err(message) => exit_with_error(message.as_str()),
            };
            assert(exit_view(exit) == exit_of(all, version@, found, outcome));
            exit
        },
        Err(message) => {
            let exit = exit_with_error(message.as_str());
            assert(exit_view(exit) == exit_of(all, version@, nothing, unasked));
            exit
        },
    }
}

/// The program fails exactly when it has nothing to put on standard output, and then it
/// puts the message of the error on standard error.
pub proof fn law_failures_are_told(
    arguments: Seq<Seq<u8>>,
    version: Seq<char>,
    found: Result<Seq<u8>, ErrorView>,
    outcome: Result<QueryResultView, ErrorView>,
)
    ensures
        ({
            let (status, stdout, stderr) = exit_of(arguments, version, found, outcome);
            &&& status == ExitStatus::Failure <==> stdout.len() == 0
            &&& status == ExitStatus::Failure ==> exists|message: Seq<char>|
                stderr == "error: "@ + message + "\n"@
        }),
{
    reveal_strlit("inzone-buds ");
    reveal_strlit("\n");
    reveal_strlit("Sony INZONE Buds (");
    lemma_help_is_not_empty();
}

proof fn lemma_help_is_not_empty()
    ensures
        HELP@.len() > 0,
{
    reveal_strlit(
        "\
Native Sony INZONE Buds battery status for Linux

Usage: inzone-buds [OPTIONS]

Options:
      --device PATH  Use a specific verified hidraw device
      --json         Print machine-readable JSON
      --raw          Print the raw HID response to stderr
  -h, --help         Print help
  -V, --version      Print version
",
    );
}

/// Where a device was named, nothing depends on what discovery would find.
pub proof fn law_named_device_needs_no_discovery(
    options: OptionsView,
    found: Result<Seq<u8>, ErrorView>,
    other: Result<Seq<u8>, ErrorView>,
    outcome: Result<QueryResultView, ErrorView>,
)
    requires
        options.device is Some,
    ensures
        executed(options, found, outcome) == executed(options, other, outcome),
{
}

/// Asking for help or for the version, or with arguments that make no sense, needs
/// neither discovery nor a device.
pub proof fn law_only_queries_need_a_device(
    arguments: Seq<Seq<u8>>,
    version: Seq<char>,
    found: Result<Seq<u8>, ErrorView>,
    outcome: Result<QueryResultView, ErrorView>,
    other_found: Result<Seq<u8>, ErrorView>,
    other_outcome: Result<QueryResultView, ErrorView>,
)
    requires
        !(parsed_args(arguments, OptionsView::none()) matches Ok(CommandView::Query(_))),
    ensures
        exit_of(arguments, version, found, outcome) == exit_of(
            arguments,
            version,
            other_found,
            other_outcome,
        ),
{
}

/// Asking for the raw response changes nothing on standard output.
pub proof fn law_raw_response_stays_on_standard_error(
    options: OptionsView,
    device: Seq<char>,
    result: QueryResultView,
)
    ensures
        shown_result(OptionsView { raw: true, ..options }, device, result) == shown_result(
            OptionsView { raw: false, ..options },
            device,
            result,
        ),
        shown_raw(OptionsView { raw: false, ..options }, result).len() == 0,
{
}

} // verus!
