//! What the printed JSON says to a reader that knows JSON and not the printer.

use vstd::prelude::*;

use crate::battery::{BatteryCell, BatteryReading};
use crate::json::{
    cell_object, escaped, escaped_char, is_control, reading_object, unescaped,
};
use crate::text::{decimal, digits_value, hex};
use crate::text_laws::{law_decimal_is_read_back, law_hex_is_read_back, number};

verus! {

/// A JSON value.
pub enum Json {
    Null,
    Number(nat),
    Text(Seq<char>),
    Object(Seq<(Seq<char>, Json)>),
}

/// Where the string ends whose inside begins here: at the first quotation mark that no
/// backslash stands before.
pub open spec fn string_end(s: Seq<char>) -> Option<nat>
    decreases s.len(),
{
    if s.len() == 0 {
        None
    } else if s[0] == '"' {
        Some(0)
    } else if s[0] == '\\' {
        if s.len() < 2 {
            None
        } else {
            match string_end(s.skip(2)) {
                Some(end) => Some(end + 2),
                None => None,
            }
        }
    } else {
        match string_end(s.skip(1)) {
            Some(end) => Some(end + 1),
            None => None,
        }
    }
}

/// The string at the start of a text, and what follows it.
pub open spec fn read_string(s: Seq<char>) -> Option<(Seq<char>, Seq<char>)> {
    if s.len() == 0 || s[0] != '"' {
        None
    } else {
        match string_end(s.skip(1)) {
            Some(end) => match unescaped(s.skip(1).take(end as int)) {
                Some(text) => Some((text, s.skip(end as int + 2))),
                None => None,
            },
            None => None,
        }
    }
}

/// How many digits a text begins with.
pub open spec fn leading_digits(s: Seq<char>) -> nat
    decreases s.len(),
{
    if s.len() > 0 && '0' <= s[0] <= '9' {
        leading_digits(s.skip(1)) + 1
    } else {
        0
    }
}

/// The value at the start of a text, and what follows it. Numbers are natural numbers, and
/// no white space stands between the signs.
pub open spec fn read_value(s: Seq<char>) -> Option<(Json, Seq<char>)>
    decreases s.len(),
{
    if s.len() == 0 {
        None
    } else if s[0] == '"' {
        match read_string(s) {
            Some((text, rest)) => Some((Json::Text(text), rest)),
            None => None,
        }
    } else if '0' <= s[0] <= '9' {
        let digits = leading_digits(s) as int;
        Some((Json::Number(number(s.take(digits))), s.skip(digits)))
    } else if s.len() >= 4 && s[0] == 'n' && s[1] == 'u' && s[2] == 'l' && s[3] == 'l' {
        Some((Json::Null, s.skip(4)))
    } else if s[0] == '{' {
        if s.len() >= 2 && s[1] == '}' {
            Some((Json::Object(seq![]), s.skip(2)))
        } else {
            read_members(s.skip(1), seq![])
        }
    } else {
        None
    }
}

/// The members of an object from here on, after those that were read already.
pub open spec fn read_members(s: Seq<char>, before: Seq<(Seq<char>, Json)>) -> Option<
    (Json, Seq<char>),
>
    decreases s.len(),
{
    match read_string(s) {
        Some((key, rest)) => if rest.len() == 0 || rest.len() > s.len() || rest[0] != ':' {
            None
        } else {
            match read_value(rest.skip(1)) {
                Some((value, next)) => {
                    let members = before.push((key, value));
                    if next.len() == 0 || next.len() > s.len() {
                        None
                    } else if next[0] == '}' {
                        Some((Json::Object(members), next.skip(1)))
                    } else if next[0] == ',' {
                        read_members(next.skip(1), members)
                    } else {
                        None
                    }
                },
                None => None,
            }
        },
        None => None,
    }
}

/// What an object holds under a key: the first member of that name.
pub open spec fn member(members: Seq<(Seq<char>, Json)>, key: Seq<char>) -> Option<Json>
    decreases members.len(),
{
    if members.len() == 0 {
        None
    } else if members[0].0 == key {
        Some(members[0].1)
    } else {
        member(members.skip(1), key)
    }
}

/// Whether a value is an object with this percentage, or `null` for none, and this state.
pub open spec fn tells_cell(value: Option<Json>, percent: Option<u8>, state: Seq<char>) -> bool {
    value matches Some(Json::Object(members)) && {
        &&& members.len() == 2
        &&& percent matches Some(percent) ==> member(members, "percent"@) == Some(
            Json::Number(percent as nat),
        )
        &&& percent is None ==> member(members, "percent"@) == Some(Json::Null)
        &&& member(members, "state"@) == Some(Json::Text(state))
    }
}

/// An escaped text is followed to its end.
proof fn lemma_string_end(text: Seq<char>, rest: Seq<char>)
    ensures
        string_end(escaped(text) + seq!['"'] + rest) == Some(escaped(text).len()),
    decreases text.len(),
{
    let tail = seq!['"'] + rest;
    assert(escaped(text) + seq!['"'] + rest =~= escaped(text) + tail);
    if text.len() == 0 {
        assert(escaped(text) + tail =~= tail);
    } else {
        let c = text[0];
        let more = text.drop_first();
        crate::json::lemma_escaped_front(text);
        lemma_string_end(more, rest);
        assert(escaped(more) + seq!['"'] + rest =~= escaped(more) + tail);
        lemma_char_is_passed(c, escaped(more) + tail);
        assert(escaped(text) + tail =~= escaped_char(c) + (escaped(more) + tail));
    }
}

/// An escaped character holds no end of the string.
proof fn lemma_char_is_passed(c: char, tail: Seq<char>)
    requires
        string_end(tail) is Some,
    ensures
        string_end(escaped_char(c) + tail) == Some(string_end(tail)->0 + escaped_char(c).len()),
{
    let s = escaped_char(c) + tail;
    if c == '"' || c == '\\' || c == '\n' || c == '\r' || c == '\t' {
        assert(s.skip(2) =~= tail);
    } else if is_control(c) {
        crate::json::lemma_control_digits(c, c as nat);
        let digits = escaped_char(c).skip(2);
        assert(s.skip(2) =~= digits + tail);
        assert((digits + tail).skip(1) =~= digits.skip(1) + tail);
        assert((digits.skip(1) + tail).skip(1) =~= digits.skip(2) + tail);
        assert((digits.skip(2) + tail).skip(1) =~= digits.skip(3) + tail);
        assert((digits.skip(3) + tail).skip(1) =~= tail);
        let end = string_end(tail)->0;
        assert(digits[0] == '0' && digits[1] == '0');
        assert(string_end(digits.skip(3) + tail) == Some(end + 1));
        assert(string_end(digits.skip(2) + tail) == Some(end + 2));
        assert(string_end(digits.skip(1) + tail) == Some(end + 3));
        assert(string_end(digits + tail) == Some(end + 4));
    } else {
        assert(s.skip(1) =~= tail);
    }
}

/// A printed string is read as the text that was printed.
proof fn lemma_string_is_read(text: Seq<char>, rest: Seq<char>)
    ensures
        read_string(seq!['"'] + escaped(text) + seq!['"'] + rest) == Some((text, rest)),
{
    let s = seq!['"'] + escaped(text) + seq!['"'] + rest;
    let n = escaped(text).len() as int;
    lemma_string_end(text, rest);
    crate::json::law_escaping_is_undone(text);
    assert(s.skip(1) =~= escaped(text) + seq!['"'] + rest);
    assert(s.skip(1).take(n) =~= escaped(text));
    assert(s.skip(n + 2) =~= rest);
}

/// Whether a text is printed as it is.
spec fn is_plain(text: Seq<char>) -> bool {
    forall|i: int|
        0 <= i < text.len() ==> ' ' <= #[trigger] text[i] <= '~' && text[i] != '"' && text[i]
            != '\\'
}

/// A text without quotation marks, backslashes and control characters is printed as it is.
proof fn lemma_plain(text: Seq<char>)
    requires
        is_plain(text),
    ensures
        escaped(text) == text,
    decreases text.len(),
{
    if text.len() > 0 {
        lemma_plain(text.drop_last());
        assert(escaped(text) =~= text);
    }
}

proof fn lemma_plain_string_is_read(s: Seq<char>, text: Seq<char>, rest: Seq<char>)
    requires
        is_plain(text),
        s == seq!['"'] + text + seq!['"'] + rest,
    ensures
        read_string(s) == Some((text, rest)),
{
    lemma_plain(text);
    lemma_string_is_read(text, rest);
}

/// Digits are followed to their end.
pub proof fn lemma_digits_end(digits: Seq<char>, rest: Seq<char>)
    requires
        forall|i: int| 0 <= i < digits.len() ==> '0' <= #[trigger] digits[i] <= '9',
        rest.len() > 0,
        !('0' <= rest[0] <= '9'),
    ensures
        leading_digits(digits + rest) == digits.len(),
    decreases digits.len(),
{
    if digits.len() == 0 {
        assert(digits + rest =~= rest);
    } else {
        assert((digits + rest)[0] == digits[0]);
        assert((digits + rest).skip(1) =~= digits.skip(1) + rest);
        lemma_digits_end(digits.skip(1), rest);
    }
}

/// A printed percentage is read as the percentage.
proof fn lemma_percent_is_read(percent: Option<u8>, rest: Seq<char>)
    requires
        rest.len() > 0,
        rest[0] == ',',
    ensures
        read_value(
            (match percent {
                Some(percent) => decimal(percent as nat),
                None => "null"@,
            }) + rest,
        ) == Some(
            (
                match percent {
                    Some(percent) => Json::Number(percent as nat),
                    None => Json::Null,
                },
                rest,
            ),
        ),
{
    reveal_strlit("null");
    match percent {
        Some(percent) => {
            let digits = decimal(percent as nat);
            let s = digits + rest;
            law_decimal_is_read_back(percent as nat);
            lemma_digits_end(digits, rest);
            assert(s[0] == digits[0]);
            assert(s.take(digits.len() as int) =~= digits);
            assert(s.skip(digits.len() as int) =~= rest);
        },
        None => {
            let s = "null"@ + rest;
            assert(s.skip(4) =~= rest);
        },
    }
}

/// The text of a member of an object with its comma or its opening brace before it.
spec fn keyed(sign: char, key: Seq<char>, value: Seq<char>) -> Seq<char> {
    seq![sign] + (seq!['"'] + key + seq!['"'] + (seq![':'] + value))
}

proof fn lemma_regroup(a: Seq<char>, b: Seq<char>, c: Seq<char>)
    ensures
        (a + b) + c == a + (b + c),
{
    assert((a + b) + c =~= a + (b + c));
}

/// A key with its signs before a value.
proof fn lemma_keyed(printed: Seq<char>, sign: char, key: Seq<char>, value: Seq<char>)
    requires
        printed =~= seq![sign, '"'] + key + seq!['"', ':'],
    ensures
        printed + value == keyed(sign, key, value),
{
    assert(printed + value =~= keyed(sign, key, value));
}

/// A printed cell, taken apart from its start.
proof fn lemma_cell_shape(percent: Seq<char>, name: Seq<char>, rest: Seq<char>)
    ensures
        "{\"percent\":"@ + percent + ",\"state\":\""@ + name + "\"}"@ + rest == keyed(
            '{',
            "percent"@,
            percent + keyed(',', "state"@, seq!['"'] + name + seq!['"'] + (seq!['}'] + rest)),
        ),
{
    reveal_strlit("{\"percent\":");
    reveal_strlit(",\"state\":\"");
    reveal_strlit(",\"state\":");
    reveal_strlit("\"}");
    reveal_strlit("percent");
    reveal_strlit("state");
    let (a, b, z) = ("{\"percent\":"@, ",\"state\":\""@, "\"}"@);
    let comma = ",\"state\":"@;
    let quote = seq!['"'];
    let closing = seq!['}'] + rest;
    let text = quote + name + quote + closing;
    assert(b =~= comma + quote);
    assert(z =~= quote + seq!['}']);
    lemma_regroup(quote, seq!['}'], rest);
    assert(z + rest == quote + closing);
    lemma_regroup(quote, name, quote);
    lemma_regroup(quote, name + quote, closing);
    lemma_regroup(name, quote, closing);
    assert(text == quote + (name + (z + rest)));
    lemma_regroup(comma, quote, name + (z + rest));
    lemma_keyed(comma, ',', "state"@, text);
    assert(b + (name + (z + rest)) == keyed(',', "state"@, text));
    lemma_regroup(a + percent + b + name, z, rest);
    lemma_regroup(a + percent + b, name, z + rest);
    lemma_regroup(a + percent, b, name + (z + rest));
    lemma_regroup(a, percent, keyed(',', "state"@, text));
    lemma_keyed(a, '{', "percent"@, percent + keyed(',', "state"@, text));
}

/// One member of an object is read, given how its value is read.
proof fn lemma_one_member(
    sign: char,
    key: Seq<char>,
    value: Json,
    printed: Seq<char>,
    rest: Seq<char>,
    before: Seq<(Seq<char>, Json)>,
)
    requires
        is_plain(key),
        read_value(printed) == Some((value, rest)),
        0 < rest.len() <= printed.len(),
        rest[0] == ',' || rest[0] == '}',
    ensures
        read_members(keyed(sign, key, printed).skip(1), before) == (if rest[0] == '}' {
            Some((Json::Object(before.push((key, value))), rest.skip(1)))
        } else {
            read_members(rest.skip(1), before.push((key, value)))
        }),
{
    let s = keyed(sign, key, printed).skip(1);
    let colon = seq![':'] + printed;
    assert(s =~= seq!['"'] + key + seq!['"'] + colon);
    lemma_plain_string_is_read(s, key, colon);
    assert(colon.skip(1) =~= printed);
}

proof fn lemma_cell_keys()
    ensures
        is_plain("percent"@) && is_plain("state"@),
        "percent"@ != "state"@,
{
    reveal_strlit("percent");
    reveal_strlit("state");
    assert("percent"@.len() == 7 && "state"@.len() == 5);
}

proof fn lemma_two_members(
    a: Seq<char>,
    x: Json,
    b: Seq<char>,
    y: Json,
    members: Seq<(Seq<char>, Json)>,
)
    requires
        a != b,
        members.len() == 2,
        members[0] == (a, x),
        members[1] == (b, y),
    ensures
        member(members, a) == Some(x),
        member(members, b) == Some(y),
{
    let second = members.skip(1);
    assert(second[0] == (b, y));
    assert(member(second, b) == Some(y));
}

/// A printed name of a state is read.
proof fn lemma_name_is_read(name: Seq<char>, rest: Seq<char>)
    requires
        is_plain(name),
    ensures
        read_value(seq!['"'] + name + seq!['"'] + rest) == Some((Json::Text(name), rest)),
{
    let s = seq!['"'] + name + seq!['"'] + rest;
    lemma_plain_string_is_read(s, name, rest);
    assert(s[0] == '"');
}

/// A printed cell is read as its percentage and its state.
proof fn lemma_cell_is_read(cell: BatteryCell, rest: Seq<char>)
    requires
        rest.len() > 0,
    ensures
        read_value(cell_object(cell) + rest) matches Some((value, next)) && next == rest
            && tells_cell(Some(value), cell.percent, cell.state.name()),
{
    let name = cell.state.name();
    let percent = match cell.percent {
        Some(percent) => decimal(percent as nat),
        None => "null"@,
    };
    let value = match cell.percent {
        Some(percent) => Json::Number(percent as nat),
        None => Json::Null,
    };
    let s = cell_object(cell) + rest;
    let closing = seq!['}'] + rest;
    let text = seq!['"'] + name + seq!['"'] + closing;
    let state = keyed(',', "state"@, text);
    let first = Seq::<(Seq<char>, Json)>::empty().push(("percent"@, value));
    let both = first.push(("state"@, Json::Text(name)));
    lemma_cell_shape(percent, name, rest);
    lemma_cell_keys();
    lemma_names_are_plain(cell.state);
    lemma_percent_is_read(cell.percent, state);
    lemma_one_member('{', "percent"@, value, percent + state, state, seq![]);
    lemma_name_is_read(name, closing);
    lemma_one_member(',', "state"@, Json::Text(name), text, closing, first);
    assert(closing.skip(1) =~= rest);
    assert(s == keyed('{', "percent"@, percent + state));
    assert(s[0] == '{' && s[1] == '"');
    assert(read_value(s) == Some((Json::Object(both), rest)));
    lemma_two_members("percent"@, value, "state"@, Json::Text(name), both);
}

proof fn lemma_names_are_plain(state: crate::battery::BatteryState)
    ensures
        is_plain(state.name()),
{
    reveal_strlit("discharging");
    reveal_strlit("charging");
    reveal_strlit("error");
    reveal_strlit("unavailable");
    reveal_strlit("unknown");
}

/// One more cell of the object of a reading is read.
proof fn lemma_member_is_read(
    key: Seq<char>,
    cell: BatteryCell,
    rest: Seq<char>,
    before: Seq<(Seq<char>, Json)>,
) -> (value: Json)
    requires
        is_plain(key),
        rest.len() > 0,
        rest[0] == ',' || rest[0] == '}',
    ensures
        tells_cell(Some(value), cell.percent, cell.state.name()),
        read_members(keyed(',', key, cell_object(cell) + rest).skip(1), before) == (if rest[0]
            == '}' {
            Some((Json::Object(before.push((key, value))), rest.skip(1)))
        } else {
            read_members(rest.skip(1), before.push((key, value)))
        }),
{
    let printed = cell_object(cell) + rest;
    lemma_cell_is_read(cell, rest);
    let (value, next) = read_value(printed)->Some_0;
    lemma_one_member(',', key, value, printed, rest, before);
    value
}

/// The object of a reading, taken apart from its start.
proof fn lemma_object_shape(device: Seq<char>, reading: BatteryReading)
    ensures
        ({
            let case_part = keyed(',', "case"@, cell_object(reading.case) + seq!['}']);
            let right_part = keyed(',', "right"@, cell_object(reading.right) + case_part);
            let left_part = keyed(',', "left"@, cell_object(reading.left) + right_part);
            let name = seq!['"'] + escaped(device) + seq!['"'] + left_part;
            reading_object(device, reading) == keyed('{', "device"@, name)
        }),
{
    reveal_strlit("{\"device\":\"");
    reveal_strlit("\",\"left\":");
    reveal_strlit(",\"right\":");
    reveal_strlit(",\"case\":");
    reveal_strlit("}");
    reveal_strlit("device");
    reveal_strlit("left");
    reveal_strlit("right");
    reveal_strlit("case");
    let e = escaped(device);
    let (l, r, k) = (
        cell_object(reading.left),
        cell_object(reading.right),
        cell_object(reading.case),
    );
    let (a, b, c, d, z) = (
        "{\"device\":\""@,
        "\",\"left\":"@,
        ",\"right\":"@,
        ",\"case\":"@,
        "}"@,
    );
    assert(z =~= seq!['}']);
    let case_part = keyed(',', "case"@, k + z);
    lemma_keyed(d, ',', "case"@, k + z);
    lemma_regroup(d, k, z);
    assert((d + k) + z == case_part);
    let right_part = keyed(',', "right"@, r + case_part);
    lemma_keyed(c, ',', "right"@, r + case_part);
    lemma_regroup(c, r, case_part);
    assert((c + r) + case_part == right_part);
    let left_part = keyed(',', "left"@, l + right_part);
    let comma = ",\"left\":"@;
    reveal_strlit(",\"left\":");
    lemma_keyed(comma, ',', "left"@, l + right_part);
    assert(b =~= seq!['"'] + comma);
    lemma_regroup(seq!['"'], comma, l + right_part);
    lemma_regroup(b, l, right_part);
    assert((b + l) + right_part == seq!['"'] + left_part);
    let name = seq!['"'] + e + seq!['"'] + left_part;
    let start = "{\"device\":"@;
    reveal_strlit("{\"device\":");
    lemma_keyed(start, '{', "device"@, name);
    assert(a =~= start + seq!['"']);
    lemma_regroup(start + seq!['"'], e, seq!['"'] + left_part);
    lemma_regroup(start, seq!['"'], e + (seq!['"'] + left_part));
    lemma_regroup(seq!['"'], e, seq!['"']);
    lemma_regroup(seq!['"'], e + seq!['"'], left_part);
    lemma_regroup(e, seq!['"'], left_part);
    assert(a + e + (seq!['"'] + left_part) == keyed('{', "device"@, name));
    // The printer adds to the end; what it adds is grouped from the end.
    lemma_regroup(a + e, b, l);
    lemma_regroup(a + e + b + l, c, r);
    lemma_regroup(a + e + b + l + c + r, d, k);
    let whole = a + e + b + l + c + r + d + k + z;
    lemma_regroup(a + e + b + l + c + r, d + k, z);
    assert(whole == (a + e + b + l + c + r) + case_part);
    lemma_regroup(a + e + b + l, c + r, case_part);
    assert(whole == (a + e + b + l) + right_part);
    lemma_regroup(a + e, b + l, right_part);
    assert(whole == (a + e) + (seq!['"'] + left_part));
}

proof fn lemma_keys()
    ensures
        is_plain("device"@) && is_plain("left"@) && is_plain("right"@) && is_plain("case"@),
        "device"@ != "left"@ && "device"@ != "right"@ && "device"@ != "case"@,
        "left"@ != "right"@ && "left"@ != "case"@ && "right"@ != "case"@,
{
    reveal_strlit("device");
    reveal_strlit("left");
    reveal_strlit("right");
    reveal_strlit("case");
    assert("device"@.len() == 6 && "left"@.len() == 4 && "right"@.len() == 5 && "case"@.len() == 4);
    assert("left"@[0] == 'l' && "case"@[0] == 'c');
}

/// The device at the start of the object of a reading is read.
proof fn lemma_device_is_read(device: Seq<char>, rest: Seq<char>)
    requires
        rest.len() > 0,
        rest[0] == ',',
    ensures
        read_value(
            keyed('{', "device"@, seq!['"'] + escaped(device) + seq!['"'] + rest),
        ) == read_members(
            rest.skip(1),
            Seq::<(Seq<char>, Json)>::empty().push(("device"@, Json::Text(device))),
        ),
{
    lemma_keys();
    let name = seq!['"'] + escaped(device) + seq!['"'] + rest;
    let s = keyed('{', "device"@, name);
    lemma_string_is_read(device, rest);
    assert(name[0] == '"');
    lemma_one_member('{', "device"@, Json::Text(device), name, rest, seq![]);
    assert(s[0] == '{' && s[1] == '"');
}

/// The printed object is read back: under `device` the device, and under `left`, `right`
/// and `case` the percentage and the named state of that very cell, with `null` where the
/// percentage is not known. Nothing else is in it and nothing comes after it.
pub proof fn law_printed_reading_is_read_back(device: Seq<char>, reading: BatteryReading)
    ensures
        read_value(reading_object(device, reading)) matches Some((Json::Object(members), rest)) && {
            &&& rest.len() == 0
            &&& members.len() == 4
            &&& member(members, "device"@) == Some(Json::Text(device))
            &&& tells_cell(
                member(members, "left"@),
                reading.left.percent,
                reading.left.state.name(),
            )
            &&& tells_cell(
                member(members, "right"@),
                reading.right.percent,
                reading.right.state.name(),
            )
            &&& tells_cell(
                member(members, "case"@),
                reading.case.percent,
                reading.case.state.name(),
            )
        },
{
    let s = reading_object(device, reading);
    let closing = seq!['}'];
    let case_part = keyed(',', "case"@, cell_object(reading.case) + closing);
    let right_part = keyed(',', "right"@, cell_object(reading.right) + case_part);
    let left_part = keyed(',', "left"@, cell_object(reading.left) + right_part);
    lemma_object_shape(device, reading);
    lemma_keys();
    lemma_device_is_read(device, left_part);
    let first = Seq::<(Seq<char>, Json)>::empty().push(("device"@, Json::Text(device)));
    let left = lemma_member_is_read("left"@, reading.left, right_part, first);
    let second = first.push(("left"@, left));
    let right = lemma_member_is_read("right"@, reading.right, case_part, second);
    let third = second.push(("right"@, right));
    let case = lemma_member_is_read("case"@, reading.case, closing, third);
    let members = third.push(("case"@, case));
    assert(read_value(s) == Some((Json::Object(members), closing.skip(1))));
    lemma_four_members(
        "device"@,
        Json::Text(device),
        "left"@,
        left,
        "right"@,
        right,
        "case"@,
        case,
        members,
    );
}

proof fn lemma_four_members(
    a: Seq<char>,
    x: Json,
    b: Seq<char>,
    y: Json,
    c: Seq<char>,
    z: Json,
    d: Seq<char>,
    w: Json,
    members: Seq<(Seq<char>, Json)>,
)
    requires
        a != b && a != c && a != d && b != c && b != d && c != d,
        members.len() == 4,
        members[0] == (a, x),
        members[1] == (b, y),
        members[2] == (c, z),
        members[3] == (d, w),
    ensures
        member(members, a) == Some(x),
        member(members, b) == Some(y),
        member(members, c) == Some(z),
        member(members, d) == Some(w),
{
    let second = members.skip(1);
    let third = second.skip(1);
    let fourth = third.skip(1);
    assert(second[0] == (b, y) && third[0] == (c, z) && fourth[0] == (d, w));
    assert(member(fourth, d) == Some(w));
    assert(member(third, c) == Some(z) && member(third, d) == Some(w));
    assert(member(second, b) == Some(y) && member(second, c) == Some(z) && member(second, d)
        == Some(w));
}

/// Two readings that are printed alike are of the same device, and have the same
/// percentage and the same named state in every cell.
pub proof fn law_readings_are_printed_apart(
    device: Seq<char>,
    reading: BatteryReading,
    other_device: Seq<char>,
    other: BatteryReading,
)
    requires
        reading_object(device, reading) == reading_object(other_device, other),
    ensures
        device == other_device,
        reading.left.percent == other.left.percent,
        reading.right.percent == other.right.percent,
        reading.case.percent == other.case.percent,
        reading.left.state.name() == other.left.state.name(),
        reading.right.state.name() == other.right.state.name(),
        reading.case.state.name() == other.case.state.name(),
{
    law_printed_reading_is_read_back(device, reading);
    law_printed_reading_is_read_back(other_device, other);
}

/// A text of printable ASCII without quotation marks and backslashes is printed as it is.
pub proof fn law_plain_text_is_printed_as_it_is(text: Seq<char>)
    requires
        forall|i: int|
            0 <= i < text.len() ==> ' ' <= #[trigger] text[i] <= '~' && text[i] != '"' && text[i]
                != '\\',
    ensures
        escaped(text) == text,
{
    lemma_plain(text);
}

/// How characters with a meaning of their own are printed, and that letters beyond ASCII
/// are printed as they are.
pub proof fn law_special_characters_are_escaped(c: char)
    ensures
        escaped_char('"') == seq!['\\', '"'],
        escaped_char('\\') == seq!['\\', '\\'],
        escaped_char('\n') == seq!['\\', 'n'],
        escaped_char('\r') == seq!['\\', 'r'],
        escaped_char('\t') == seq!['\\', 't'],
        c as int >= 0xa0 ==> escaped_char(c) == seq![c],
{
}

/// A control character without a short form is printed as `\u` and its number in four
/// hexadecimal digits.
pub proof fn law_control_characters_are_numbered(c: char)
    requires
        (c as int) < 0x20 || 0x7f <= (c as int) < 0xa0,
        c != '\n' && c != '\r' && c != '\t',
    ensures
        escaped_char(c).len() == 6,
        escaped_char(c)[0] == '\\',
        escaped_char(c)[1] == 'u',
        digits_value(escaped_char(c).skip(2)) == c as nat,
{
    crate::json::lemma_control_digits(c, c as nat);
    law_hex_is_read_back(c as nat, 4);
    reveal_with_fuel(vstd::arithmetic::power::pow, 5);
    assert(vstd::arithmetic::power::pow(16, 4) == 65536);
    assert(escaped_char(c).skip(2) =~= hex(c as nat, 4));
}

} // verus!
