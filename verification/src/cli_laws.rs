//! What the program makes of its arguments, and what its output tells.

use vstd::prelude::*;

use crate::battery::BatteryReading;
use crate::battery_laws::law_cell_words_stand_on_one_line;
use crate::cli::{
    exit_of, exit_view, output_view, parsed_args, reading_lines, shown_raw, shown_result,
    spaced_hex, Command, CommandView, ExitStatus, Options, OptionsView, HELP,
};
use crate::error::ErrorView;
use crate::json::reading_object;
use crate::query::QueryResultView;
use crate::text::{hex, hex_byte, lines, lossy_text, utf8_text};
use crate::text_laws::{law_first_line, law_hex_bytes_are_read_back};

verus! {

/// One option with all that belongs to it.
pub enum Flag {
    Device(Seq<u8>),
    Json,
    Raw,
}

/// Whether arguments are the written form of options, one after the other.
pub open spec fn writes(arguments: Seq<Seq<u8>>, flags: Seq<Flag>) -> bool
    decreases flags.len(),
{
    if flags.len() == 0 {
        arguments.len() == 0
    } else {
        match flags[0] {
            Flag::Device(path) => arguments.len() >= 2 && utf8_text(arguments[0]) == Some(
                "--device"@,
            ) && arguments[1] == path && writes(arguments.skip(2), flags.skip(1)),
            Flag::Json => arguments.len() >= 1 && utf8_text(arguments[0]) == Some("--json"@)
                && writes(arguments.skip(1), flags.skip(1)),
            Flag::Raw => arguments.len() >= 1 && utf8_text(arguments[0]) == Some("--raw"@)
                && writes(arguments.skip(1), flags.skip(1)),
        }
    }
}

/// Whether options are those of flags on top of others: JSON and the raw response where
/// they are asked for at least once, and the device of the last flag that names one.
pub open spec fn are_options_of(
    options: OptionsView,
    flags: Seq<Flag>,
    before: OptionsView,
) -> bool {
    &&& options.json <==> before.json || flags.contains(Flag::Json)
    &&& options.raw <==> before.raw || flags.contains(Flag::Raw)
    &&& (forall|i: int| 0 <= i < flags.len() ==> !(#[trigger] flags[i] is Device))
        ==> options.device == before.device
    &&& forall|i: int|
        0 <= i < flags.len() && #[trigger] flags[i] is Device && (forall|j: int|
            i < j < flags.len() ==> !(#[trigger] flags[j] is Device)) ==> options.device == Some(
            flags[i]->Device_0,
        )
}

proof fn lemma_words_differ()
    ensures
        "--device"@ != "--json"@,
        "--device"@ != "--raw"@,
        "--device"@ != "-h"@,
        "--device"@ != "--help"@,
        "--device"@ != "-V"@,
        "--device"@ != "--version"@,
        "--json"@ != "--raw"@,
        "--json"@ != "-h"@,
        "--json"@ != "--help"@,
        "--json"@ != "-V"@,
        "--json"@ != "--version"@,
        "--raw"@ != "-h"@,
        "--raw"@ != "--help"@,
        "--raw"@ != "-V"@,
        "--raw"@ != "--version"@,
        "-h"@ != "-V"@,
        "-h"@ != "--version"@,
        "--help"@ != "-V"@,
        "--help"@ != "--version"@,
{
    reveal_strlit("--device");
    reveal_strlit("--json");
    reveal_strlit("--raw");
    reveal_strlit("-h");
    reveal_strlit("--help");
    reveal_strlit("-V");
    reveal_strlit("--version");
    assert("--device"@.len() == 8 && "--json"@.len() == 6 && "--raw"@.len() == 5);
    assert("-h"@.len() == 2 && "--help"@.len() == 6 && "-V"@.len() == 2 && "--version"@.len() == 9);
    assert("--json"@[2] == 'j' && "--help"@[2] == 'h' && "-h"@[1] == 'h' && "-V"@[1] == 'V');
}

/// The options of flags, and what the arguments behind them then mean.
proof fn lemma_flags_are_heard(
    arguments: Seq<Seq<u8>>,
    flags: Seq<Flag>,
    rest: Seq<Seq<u8>>,
    before: OptionsView,
) -> (options: OptionsView)
    requires
        writes(arguments, flags),
    ensures
        are_options_of(options, flags, before),
        parsed_args(arguments + rest, before) == parsed_args(rest, options),
    decreases flags.len(),
{
    lemma_words_differ();
    let all = arguments + rest;
    if flags.len() == 0 {
        assert(all =~= rest);
        before
    } else {
        let more = flags.skip(1);
        let used: int = if flags[0] is Device {
            2
        } else {
            1
        };
        let heard = match flags[0] {
            Flag::Device(path) => OptionsView { device: Some(path), ..before },
            Flag::Json => OptionsView { json: true, ..before },
            Flag::Raw => OptionsView { raw: true, ..before },
        };
        assert(all.skip(used) =~= arguments.skip(used) + rest);
        assert(all[0] == arguments[0]);
        if flags[0] is Device {
            assert(all[1] == arguments[1]);
        }
        let options = lemma_flags_are_heard(arguments.skip(used), more, rest, heard);
        assert(parsed_args(all, before) == parsed_args(all.skip(used), heard));
        assert(forall|i: int| 0 <= i < more.len() ==> #[trigger] more[i] == flags[i + 1]);
        lemma_first_flag(flags, Flag::Json);
        lemma_first_flag(flags, Flag::Raw);
        if forall|i: int| 0 <= i < more.len() ==> !(#[trigger] more[i] is Device) {
            assert(options.device == heard.device);
        }
        if forall|i: int| 0 <= i < flags.len() ==> !(#[trigger] flags[i] is Device) {
            assert forall|i: int| 0 <= i < more.len() implies !(#[trigger] more[i] is Device) by {
                assert(more[i] == flags[i + 1]);
            }
            assert(!(flags[0] is Device));
        }
        assert forall|i: int|
            0 <= i < flags.len() && #[trigger] flags[i] is Device && (forall|j: int|
                i < j < flags.len() ==> !(#[trigger] flags[j] is Device)) implies options.device
            == Some(flags[i]->Device_0) by {
            if i == 0 {
                assert forall|k: int| 0 <= k < more.len() implies !(
                #[trigger] more[k] is Device) by {
                    assert(more[k] == flags[k + 1]);
                }
            } else {
                assert(more[i - 1] == flags[i]);
                assert forall|k: int| i - 1 < k < more.len() implies !(
                #[trigger] more[k] is Device) by {
                    assert(more[k] == flags[k + 1]);
                }
            }
        }
        options
    }
}

proof fn lemma_first_flag(flags: Seq<Flag>, flag: Flag)
    requires
        flags.len() > 0,
    ensures
        flags.contains(flag) <==> flags[0] == flag || flags.skip(1).contains(flag),
{
    if flags.skip(1).contains(flag) {
        let i = choose|i: int| 0 <= i < flags.skip(1).len() && flags.skip(1)[i] == flag;
        assert(flags[i + 1] == flag);
    }
    if flags.contains(flag) && flags[0] != flag {
        let i = choose|i: int| 0 <= i < flags.len() && flags[i] == flag;
        assert(flags.skip(1)[i - 1] == flag);
    }
}

/// Arguments that write options ask for a query with those options: JSON and the raw
/// response exactly where they were asked for, and the device that was named last.
pub proof fn law_written_options_are_heard(arguments: Seq<Seq<u8>>, flags: Seq<Flag>)
    requires
        writes(arguments, flags),
    ensures
        parsed_args(arguments, OptionsView::none()) matches Ok(CommandView::Query(options))
            && are_options_of(
            options,
            flags,
            OptionsView { device: None, json: false, raw: false },
        ),
{
    let options = lemma_flags_are_heard(arguments, flags, seq![], OptionsView::none());
    assert(arguments + seq![] =~= arguments);
}

/// After any options, the first argument that is none decides, whatever comes after it:
/// it asks for help or for the version, or it is refused in these words.
pub proof fn law_first_other_argument_decides(
    arguments: Seq<Seq<u8>>,
    flags: Seq<Flag>,
    argument: Seq<u8>,
    rest: Seq<Seq<u8>>,
)
    requires
        writes(arguments, flags),
    ensures
        ({
            let result = parsed_args(arguments + (seq![argument] + rest), OptionsView::none());
            let text = utf8_text(argument);
            let help = text == Some("-h"@) || text == Some("--help"@);
            let version = text == Some("-V"@) || text == Some("--version"@);
            let option = text == Some("--device"@) || text == Some("--json"@) || text == Some(
                "--raw"@,
            );
            &&& help ==> result == Ok::<CommandView, Seq<char>>(CommandView::Help)
            &&& version ==> result == Ok::<CommandView, Seq<char>>(CommandView::Version)
            &&& text is None ==> result == Err::<CommandView, Seq<char>>(
                "arguments must be valid UTF-8"@,
            )
            &&& text is Some && !help && !version && !option ==> result == Err::<
                CommandView,
                Seq<char>,
            >("unknown option: "@ + text->0 + "\n\n"@ + HELP@)
            &&& text == Some("--device"@) && rest.len() == 0 ==> result == Err::<
                CommandView,
                Seq<char>,
            >("--device requires a path"@)
        }),
{
    lemma_words_differ();
    let behind = seq![argument] + rest;
    let options = lemma_flags_are_heard(arguments, flags, behind, OptionsView::none());
    assert(behind[0] == argument);
}

/// Help, the version and a refused argument end the program at once: help and the version
/// with success, and a refused argument with its message.
pub proof fn law_other_commands_end_the_program(
    arguments: Seq<Seq<u8>>,
    version: Seq<char>,
    found: Result<Seq<u8>, ErrorView>,
    outcome: Result<QueryResultView, ErrorView>,
)
    ensures
        ({
            let command = parsed_args(arguments, OptionsView::none());
            let (status, stdout, stderr) = exit_of(arguments, version, found, outcome);
            &&& command == Ok::<CommandView, Seq<char>>(CommandView::Help) ==> status
                == ExitStatus::Success && stdout == HELP@ && stderr.len() == 0
            &&& command == Ok::<CommandView, Seq<char>>(CommandView::Version) ==> status
                == ExitStatus::Success && stdout == "inzone-buds "@ + version + "\n"@
                && stderr.len() == 0
            &&& command matches Err(message) ==> status == ExitStatus::Failure && stdout.len() == 0
                && stderr == "error: "@ + message + "\n"@
        }),
{
}

/// A query that succeeds shows the reading of the device that was named, or of the one
/// that was found where none was named; one that fails tells the error, that of discovery
/// only where no device was named.
pub proof fn law_queries_end_the_program(
    arguments: Seq<Seq<u8>>,
    options: OptionsView,
    version: Seq<char>,
    found: Result<Seq<u8>, ErrorView>,
    outcome: Result<QueryResultView, ErrorView>,
)
    requires
        parsed_args(arguments, OptionsView::none()) == Ok::<CommandView, Seq<char>>(
            CommandView::Query(options),
        ),
    ensures
        ({
            let (status, stdout, stderr) = exit_of(arguments, version, found, outcome);
            let failed = |error: ErrorView|
                status == ExitStatus::Failure && stdout.len() == 0 && stderr == "error: "@
                    + error.text() + "\n"@;
            let shows = |device: Seq<u8>, result: QueryResultView|
                status == ExitStatus::Success && stdout == shown_result(
                    options,
                    lossy_text(device),
                    result,
                ) && stderr == shown_raw(options, result);
            match (options.device, found, outcome) {
                (Some(device), _, Ok(result)) => shows(device, result),
                (Some(_), _, Err(error)) => failed(error),
                (None, Ok(device), Ok(result)) => shows(device, result),
                (None, Ok(_), Err(error)) => failed(error),
                (None, Err(error), _) => failed(error),
            }
        }),
{
}

/// With JSON asked for, standard output is the JSON object and a line feed; without, its
/// lines name the device and then tell the left earbud, the right one and the case.
pub proof fn law_output_goes_by_the_options(
    options: OptionsView,
    device: Seq<char>,
    result: QueryResultView,
)
    ensures
        ({
            let shown = shown_result(options, device, result);
            &&& options.json ==> shown.drop_last() == reading_object(device, result.reading)
                && shown.last() == '\n'
            &&& !options.json ==> shown == reading_lines(device, result.reading)
        }),
{
    reveal_strlit("\n");
    if options.json {
        assert(shown_result(options, device, result).drop_last() =~= reading_object(
            device,
            result.reading,
        ));
    }
}

/// The words for a reading name the device, and go on with one line each for the left
/// earbud, the right one and the case, in this order.
pub proof fn law_lines_tell_the_cells(device: Seq<char>, reading: BatteryReading)
    ensures
        ({
            let text = reading_lines(device, reading);
            let title = "Sony INZONE Buds ("@ + device + ")\n"@;
            &&& text.len() >= title.len()
            &&& text.take(title.len() as int) == title
            &&& lines(text.skip(title.len() as int)) == seq![
                "Left:  "@ + reading.left.text(),
                "Right: "@ + reading.right.text(),
                "Case:  "@ + reading.case.text(),
            ]
        }),
{
    reveal_strlit(")\n");
    reveal_strlit(")\nLeft:  ");
    reveal_strlit("\nRight: ");
    reveal_strlit("\nCase:  ");
    reveal_strlit("Left:  ");
    reveal_strlit("Right: ");
    reveal_strlit("Case:  ");
    reveal_strlit("\n");
    let text = reading_lines(device, reading);
    let title = "Sony INZONE Buds ("@ + device + ")\n"@;
    let left = "Left:  "@ + reading.left.text();
    let right = "Right: "@ + reading.right.text();
    let case = "Case:  "@ + reading.case.text();
    law_cell_words_stand_on_one_line(reading.left);
    law_cell_words_stand_on_one_line(reading.right);
    law_cell_words_stand_on_one_line(reading.case);
    let last = case.push('\n') + seq![];
    let middle = right.push('\n') + last;
    let first = left.push('\n') + middle;
    lemma_lines_shape(device, reading.left.text(), reading.right.text(), reading.case.text());
    assert(text == title + first);
    assert(text.take(title.len() as int) =~= title);
    assert(text.skip(title.len() as int) =~= first);
    law_first_line(case, seq![]);
    law_first_line(right, last);
    law_first_line(left, middle);
    assert(lines(first) =~= seq![left, right, case]);
}

proof fn lemma_lines_shape(device: Seq<char>, l: Seq<char>, r: Seq<char>, c: Seq<char>)
    ensures
        "Sony INZONE Buds ("@ + device + ")\nLeft:  "@ + l + "\nRight: "@ + r + "\nCase:  "@ + c
            + "\n"@ == ("Sony INZONE Buds ("@ + device + ")\n"@) + (("Left:  "@ + l).push('\n')
            + (("Right: "@ + r).push('\n') + (("Case:  "@ + c).push('\n') + Seq::<char>::empty()))),
{
    reveal_strlit(")\n");
    reveal_strlit(")\nLeft:  ");
    reveal_strlit("\nRight: ");
    reveal_strlit("\nCase:  ");
    reveal_strlit("Left:  ");
    reveal_strlit("Right: ");
    reveal_strlit("Case:  ");
    reveal_strlit("\n");
    let start = "Sony INZONE Buds ("@ + device;
    assert(start + ")\nLeft:  "@ =~= (start + ")\n"@) + "Left:  "@);
    let t = start + ")\n"@;
    let a = t + "Left:  "@ + l;
    assert(a =~= t + ("Left:  "@ + l));
    let b = a + "\nRight: "@ + r;
    assert(b =~= t + ("Left:  "@ + l).push('\n') + ("Right: "@ + r));
    let d = b + "\nCase:  "@ + c;
    let x = t + ("Left:  "@ + l).push('\n');
    assert(d =~= x + ("Right: "@ + r).push('\n') + ("Case:  "@ + c));
    let y = x + ("Right: "@ + r).push('\n');
    assert(d + "\n"@ =~= y + ("Case:  "@ + c).push('\n'));
    let z = ("Case:  "@ + c).push('\n') + Seq::<char>::empty();
    assert(z =~= ("Case:  "@ + c).push('\n'));
    assert(y + z =~= x + (("Right: "@ + r).push('\n') + z));
    assert(x + (("Right: "@ + r).push('\n') + z) =~= t + (("Left:  "@ + l).push('\n') + ((
    "Right: "@ + r).push('\n') + z)));
}

/// The raw response is shown byte by byte: a blank and two hexadecimal digits for each, in
/// order, after a word and before a line feed. Nothing is shown where it was not asked for.
pub proof fn law_raw_bytes_are_read_back(options: OptionsView, result: QueryResultView, i: int)
    requires
        0 <= i < result.raw_response.len(),
    ensures
        ({
            let shown = shown_raw(options, result);
            &&& !options.raw ==> shown.len() == 0
            &&& options.raw ==> {
                &&& shown.len() == 4 + 3 * result.raw_response.len() + 1
                &&& shown.take(4) == "raw:"@
                &&& shown[4 + 3 * i] == ' '
                &&& hex_byte(shown.subrange(4 + 3 * i + 1, 4 + 3 * i + 3)) == Some(
                    result.raw_response[i],
                )
                &&& shown.last() == '\n'
            }
        }),
{
    reveal_strlit("raw:");
    reveal_strlit("\n");
    let bytes = result.raw_response;
    lemma_spaced(bytes, i);
    if options.raw {
        let shown = shown_raw(options, result);
        assert(shown.take(4) =~= "raw:"@);
        assert(shown.subrange(4 + 3 * i + 1, 4 + 3 * i + 3) =~= spaced_hex(bytes).subrange(
            3 * i + 1,
            3 * i + 3,
        ));
    }
}

proof fn lemma_spaced_length(bytes: Seq<u8>)
    ensures
        spaced_hex(bytes).len() == 3 * bytes.len(),
    decreases bytes.len(),
{
    reveal_strlit(" ");
    if bytes.len() > 0 {
        lemma_spaced_length(bytes.drop_last());
        law_hex_bytes_are_read_back(bytes.last());
    }
}

proof fn lemma_spaced(bytes: Seq<u8>, i: int)
    requires
        0 <= i < bytes.len(),
    ensures
        spaced_hex(bytes).len() == 3 * bytes.len(),
        spaced_hex(bytes)[3 * i] == ' ',
        hex_byte(spaced_hex(bytes).subrange(3 * i + 1, 3 * i + 3)) == Some(bytes[i]),
    decreases bytes.len(),
{
    reveal_strlit(" ");
    let before = bytes.drop_last();
    let start = spaced_hex(before);
    let digits = hex(bytes.last() as nat, 2);
    let all = start + " "@ + digits;
    assert(spaced_hex(bytes) == all);
    law_hex_bytes_are_read_back(bytes.last());
    lemma_spaced_length(before);
    lemma_spaced_length(bytes);
    if i < before.len() {
        lemma_spaced(before, i);
        assert(all.subrange(3 * i + 1, 3 * i + 3) =~= start.subrange(3 * i + 1, 3 * i + 3));
        assert(all[3 * i] == start[3 * i]);
        assert(before[i] == bytes[i]);
    } else {
        assert(all.subrange(3 * i + 1, 3 * i + 3) =~= digits);
        assert(all[3 * i] == ' ');
    }
}

/// Options, commands and output are seen as they are.
pub proof fn law_output_is_seen_as_it_is(
    options: Options,
    status: ExitStatus,
    stdout: String,
    stderr: String,
)
    ensures
        options@.json == options.json,
        options@.raw == options.raw,
        options.device is None ==> options@.device is None,
        options.device matches Some(device) ==> options@.device == Some(device@),
        Command::Query(options)@ == CommandView::Query(options@),
        Command::Help@ == CommandView::Help,
        Command::Version@ == CommandView::Version,
        exit_view((status, stdout, stderr)) == (status, stdout@, stderr@),
        output_view(Ok((stdout, stderr))) == Ok::<(Seq<char>, Seq<char>), Seq<char>>(
            (stdout@, stderr@),
        ),
        output_view(Err(stdout)) == Err::<(Seq<char>, Seq<char>), Seq<char>>(stdout@),
{
}

/// The help tells how the program is called and names every option.
pub proof fn law_help_names_every_option()
    ensures
        exists|at: int|
            0 <= at && at + "Usage: inzone-buds [OPTIONS]"@.len() <= HELP@.len() && #[trigger] HELP@.subrange(
                at,
                at + "Usage: inzone-buds [OPTIONS]"@.len(),
            ) == "Usage: inzone-buds [OPTIONS]"@,
        exists|at: int|
            0 <= at && at + "--device PATH"@.len() <= HELP@.len() && #[trigger] HELP@.subrange(
                at,
                at + "--device PATH"@.len(),
            ) == "--device PATH"@,
        exists|at: int|
            0 <= at && at + "--json"@.len() <= HELP@.len() && #[trigger] HELP@.subrange(
                at,
                at + "--json"@.len(),
            ) == "--json"@,
        exists|at: int|
            0 <= at && at + "--raw"@.len() <= HELP@.len() && #[trigger] HELP@.subrange(
                at,
                at + "--raw"@.len(),
            ) == "--raw"@,
        exists|at: int|
            0 <= at && at + "-h, --help"@.len() <= HELP@.len() && #[trigger] HELP@.subrange(
                at,
                at + "-h, --help"@.len(),
            ) == "-h, --help"@,
        exists|at: int|
            0 <= at && at + "-V, --version"@.len() <= HELP@.len() && #[trigger] HELP@.subrange(
                at,
                at + "-V, --version"@.len(),
            ) == "-V, --version"@,
{
    reveal_strlit(
        "\
Native Sony INZONE Buds battery status for Linux

Usage: inzone-buds [OPTIONS]

Options:
      --device PATH  Use a specific verified hidraw device
      --json         Print machine-readable JSON
      --raw          Print the raw HID response to stderr
  -h, --help         Print help
  -V, --version      Print version
",
    );
    reveal_strlit("Usage: inzone-buds [OPTIONS]");
    assert(HELP@.subrange(50, 50int + 28) =~= "Usage: inzone-buds [OPTIONS]"@);
    reveal_strlit("--device PATH");
    assert(HELP@.subrange(95, 95int + 13) =~= "--device PATH"@);
    reveal_strlit("--json");
    assert(HELP@.subrange(154, 154int + 6) =~= "--json"@);
    reveal_strlit("--raw");
    assert(HELP@.subrange(203, 203int + 5) =~= "--raw"@);
    reveal_strlit("-h, --help");
    assert(HELP@.subrange(257, 257int + 10) =~= "-h, --help"@);
    reveal_strlit("-V, --version");
    assert(HELP@.subrange(289, 289int + 13) =~= "-V, --version"@);
}

} // verus!
