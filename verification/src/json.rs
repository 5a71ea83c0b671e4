//! Readings as JSON.

use vstd::prelude::*;

use crate::battery::{BatteryCell, BatteryReading, BatteryState};
use crate::text::{chars_of, decimal, digit, digit_value, hex, push_decimal, push_hex};

verus! {

/// Whether a character is a control character: its Unicode category is `Cc`.
pub open spec fn is_control(c: char) -> bool {
    (c as int) < 0x20 || 0x7f <= (c as int) < 0xa0
}

/// A character as it stands in a JSON string.
pub open spec fn escaped_char(c: char) -> Seq<char> {
    if c == '"' {
        seq!['\\', '"']
    } else if c == '\\' {
        seq!['\\', '\\']
    } else if c == '\n' {
        seq!['\\', 'n']
    } else if c == '\r' {
        seq!['\\', 'r']
    } else if c == '\t' {
        seq!['\\', 't']
    } else if is_control(c) {
        seq!['\\', 'u'] + hex(c as nat, 4)
    } else {
        seq![c]
    }
}

/// A text as it stands in a JSON string.
pub open spec fn escaped(s: Seq<char>) -> Seq<char>
    decreases s.len(),
{
    if s.len() == 0 {
        seq![]
    } else {
        escaped(s.drop_last()) + escaped_char(s.last())
    }
}

fn push_escaped(out: &mut String, c: char)
    ensures
        final(out)@ == old(out)@ + escaped_char(c),
{
    if c == '"' {
        out.append("\\\"");
        proof {
            reveal_strlit("\\\"");
        }
    } else if c == '\\' {
        out.append("\\\\");
        proof {
            reveal_strlit("\\\\");
        }
    } else if c == '\n' {
        out.append("\\n");
        proof {
            reveal_strlit("\\n");
        }
    } else if c == '\r' {
        out.append("\\r");
        proof {
            reveal_strlit("\\r");
        }
    } else if c == '\t' {
        out.append("\\t");
        proof {
            reveal_strlit("\\t");
        }
    } else if (c as u32) < 0x20 || (0x7f <= c as u32 && (c as u32) < 0xa0) {
        out.append("\\u");
        proof {
            reveal_strlit("\\u");
        }
        push_hex(out, c as u32, 4);
    } else {
        out.push(c);
    }
    assert(out@ =~= old(out)@ + escaped_char(c));
}

/// The text as it stands in a JSON string.
pub fn json_escape(value: &str) -> (text: String)
    ensures
        text@ == escaped(value@),
{
    let characters = chars_of(value);
    let mut out = String::new();
    for i in 0..characters.len()
        invariant
            characters@ == value@,
            out@ == escaped(value@.take(i as int)),
    {
        proof {
            assert(value@.take(i + 1).drop_last() =~= value@.take(i as int));
        }
        push_escaped(&mut out, characters[i]);
    }
    assert(value@.take(value@.len() as int) =~= value@);
    out
}

/// A cell as a JSON object.
pub open spec fn cell_object(cell: BatteryCell) -> Seq<char> {
    "{\"percent\":"@ + (match cell.percent {
        Some(percent) => decimal(percent as nat),
        None => "null"@,
    }) + ",\"state\":\""@ + cell.state.name() + "\"}"@
}

/// A cell as a JSON object.
pub fn cell_json(cell: BatteryCell) -> (text: String)
    ensures
        text@ == cell_object(cell),
{
    let mut out = "{\"percent\":".to_owned();
    match cell.percent {
        Some(percent) => {
            push_decimal(&mut out, percent as u128);
        },
        None => {
            out.append("null");
        },
    }
    out.append(",\"state\":\"");
    out.append(cell.state.as_str());
    out.append("\"}");
    out
}

/// A reading of a device as a JSON object.
pub open spec fn reading_object(device: Seq<char>, reading: BatteryReading) -> Seq<char> {
    "{\"device\":\""@ + escaped(device) + "\",\"left\":"@ + cell_object(reading.left)
        + ",\"right\":"@ + cell_object(reading.right) + ",\"case\":"@ + cell_object(reading.case)
        + "}"@
}

/// A reading of a device as a JSON object.
pub fn reading_json(device: &str, reading: BatteryReading) -> (text: String)
    ensures
        text@ == reading_object(device@, reading),
{
    let mut out = "{\"device\":\"".to_owned();
    out.append(json_escape(device).as_str());
    out.append("\",\"left\":");
    out.append(cell_json(reading.left).as_str());
    out.append(",\"right\":");
    out.append(cell_json(reading.right).as_str());
    out.append(",\"case\":");
    out.append(cell_json(reading.case).as_str());
    out.append("}");
    out
}

/// The character that an escape of one letter stands for.
pub open spec fn short_escape(letter: char) -> Option<char> {
    if letter == '"' || letter == '\\' || letter == '/' {
        Some(letter)
    } else if letter == 'b' {
        Some(8 as char)
    } else if letter == 'f' {
        Some(12 as char)
    } else if letter == 'n' {
        Some('\n')
    } else if letter == 'r' {
        Some('\r')
    } else if letter == 't' {
        Some('\t')
    } else {
        None
    }
}

/// The number of a `\u` escape at the start of a text.
pub open spec fn unicode_escape(s: Seq<char>) -> Option<nat> {
    if s.len() >= 6 && s[0] == '\\' && s[1] == 'u' {
        match (digit_value(s[2]), digit_value(s[3]), digit_value(s[4]), digit_value(s[5])) {
            (Some(a), Some(b), Some(c), Some(d)) => Some(
                (0x1000 * a + 0x100 * b + 0x10 * c + d) as nat,
            ),
            _ => None,
        }
    } else {
        None
    }
}

/// The text that the inside of a JSON string stands for, where it is well formed. An
/// escape for one half of a surrogate pair is taken as malformed.
pub open spec fn unescaped(s: Seq<char>) -> Option<Seq<char>>
    decreases s.len(),
{
    if s.len() == 0 {
        Some(seq![])
    } else if s[0] == '\\' {
        if s.len() >= 2 && short_escape(s[1]) is Some {
            match unescaped(s.skip(2)) {
                Some(rest) => Some(seq![short_escape(s[1])->0] + rest),
                None => None,
            }
        } else {
            match unicode_escape(s) {
                Some(number) => if number < 0xd800 || number >= 0xe000 {
                    match unescaped(s.skip(6)) {
                        Some(rest) => Some(seq![number as char] + rest),
                        None => None,
                    }
                } else {
                    None
                },
                None => None,
            }
        }
    } else if s[0] == '"' || (s[0] as int) < 0x20 {
        None
    } else {
        match unescaped(s.skip(1)) {
            Some(rest) => Some(seq![s[0]] + rest),
            None => None,
        }
    }
}

/// Escaping goes character by character, from the front as well.
pub proof fn lemma_escaped_front(s: Seq<char>)
    requires
        s.len() > 0,
    ensures
        escaped(s) == escaped_char(s[0]) + escaped(s.drop_first()),
    decreases s.len(),
{
    if s.len() == 1 {
        assert(escaped(s.drop_last()) =~= seq![]);
        assert(escaped(s.drop_first()) =~= seq![]);
        assert(escaped(s) =~= escaped_char(s[0]) + escaped(s.drop_first()));
    } else {
        lemma_escaped_front(s.drop_last());
        assert(s.drop_last().drop_first() =~= s.drop_first().drop_last());
        assert(escaped(s) =~= escaped_char(s[0]) + escaped(s.drop_first()));
    }
}

/// The digits of an escaped control character.
pub proof fn lemma_control_digits(c: char, n: nat)
    requires
        is_control(c),
        n == c as nat,
    ensures
        n < 0x100,
        n as char == c,
        hex(n, 4) == seq!['0', '0', digit((n / 16) as int), digit((n % 16) as int)],
        digit_value('0') == Some(0nat),
        digit_value(digit((n / 16) as int)) == Some((n / 16) as nat),
        digit_value(digit((n % 16) as int)) == Some((n % 16) as nat),
{
    reveal_with_fuel(hex, 5);
    assert(n / 16 / 16 == 0);
    assert(n / 16 / 16 / 16 == 0);
    assert(n / 16 % 16 == n / 16);
    assert(digit(0) == '0');
    assert(hex(n, 4) =~= seq!['0', '0', digit((n / 16) as int), digit((n % 16) as int)]);
}

/// An escaped character at the front stands for the character.
proof fn lemma_front_is_undone(c: char, tail: Seq<char>)
    requires
        unescaped(tail) is Some,
    ensures
        unescaped(escaped_char(c) + tail) == Some(seq![c] + unescaped(tail)->0),
{
    let written = escaped_char(c) + tail;
    if c == '"' || c == '\\' || c == '\n' || c == '\r' || c == '\t' {
        assert(written.skip(2) =~= tail);
        assert(short_escape(written[1]) == Some(c));
    } else if is_control(c) {
        lemma_control_digits(c, c as nat);
        assert(written.skip(6) =~= tail);
        assert(written[2] == '0' && written[3] == '0');
        assert(unicode_escape(written) == Some(c as nat));
    } else {
        assert(written.skip(1) =~= tail);
    }
}

/// A JSON string that was written by escaping a text stands for that very text, so no
/// two texts are written alike.
pub proof fn law_escaping_is_undone(s: Seq<char>)
    ensures
        unescaped(escaped(s)) == Some(s),
    decreases s.len(),
{
    if s.len() > 0 {
        let rest = s.drop_first();
        lemma_escaped_front(s);
        law_escaping_is_undone(rest);
        lemma_front_is_undone(s[0], escaped(rest));
        assert(s =~= seq![s[0]] + rest);
    }
}

/// Whether a text is free of control characters.
pub open spec fn is_printable(s: Seq<char>) -> bool {
    forall|i: int| 0 <= i < s.len() ==> !is_control(#[trigger] s[i])
}

/// An escaped text holds no control character.
pub proof fn law_escaped_text_is_printable(s: Seq<char>)
    ensures
        is_printable(escaped(s)),
    decreases s.len(),
{
    if s.len() > 0 {
        law_escaped_text_is_printable(s.drop_last());
        if is_control(s.last()) {
            lemma_control_digits(s.last(), s.last() as nat);
        }
        lemma_joined_is_printable(escaped(s.drop_last()), escaped_char(s.last()));
    }
}

proof fn lemma_joined_is_printable(s: Seq<char>, t: Seq<char>)
    requires
        is_printable(s),
        is_printable(t),
    ensures
        is_printable(s + t),
{
    assert forall|i: int| 0 <= i < (s + t).len() implies !is_control(#[trigger] (s + t)[i]) by {
        if i < s.len() {
            assert((s + t)[i] == s[i]);
        } else {
            assert((s + t)[i] == t[i - s.len()]);
        }
    }
}

proof fn lemma_decimal_is_printable(n: nat)
    ensures
        is_printable(decimal(n)),
    decreases n,
{
    if n >= 10 {
        lemma_decimal_is_printable(n / 10);
    }
}

proof fn lemma_state_name_is_printable(state: BatteryState)
    ensures
        is_printable(state.name()),
{
    reveal_strlit("discharging");
    reveal_strlit("charging");
    reveal_strlit("error");
    reveal_strlit("unavailable");
    reveal_strlit("unknown");
}

proof fn lemma_cell_object_is_printable(cell: BatteryCell)
    ensures
        is_printable(cell_object(cell)),
{
    reveal_strlit("{\"percent\":");
    reveal_strlit("null");
    reveal_strlit(",\"state\":\"");
    reveal_strlit("\"}");
    let percent = match cell.percent {
        Some(percent) => decimal(percent as nat),
        None => "null"@,
    };
    if cell.percent is Some {
        lemma_decimal_is_printable(cell.percent->0 as nat);
    }
    lemma_state_name_is_printable(cell.state);
    let first = "{\"percent\":"@ + percent;
    lemma_joined_is_printable("{\"percent\":"@, percent);
    let second = first + ",\"state\":\""@;
    lemma_joined_is_printable(first, ",\"state\":\""@);
    let third = second + cell.state.name();
    lemma_joined_is_printable(second, cell.state.name());
    lemma_joined_is_printable(third, "\"}"@);
}

/// The object of a reading holds no control character, whatever the name of the device:
/// it stands on one line.
pub proof fn law_object_stands_on_one_line(device: Seq<char>, reading: BatteryReading)
    ensures
        is_printable(reading_object(device, reading)),
{
    reveal_strlit("{\"device\":\"");
    reveal_strlit("\",\"left\":");
    reveal_strlit(",\"right\":");
    reveal_strlit(",\"case\":");
    reveal_strlit("}");
    law_escaped_text_is_printable(device);
    lemma_cell_object_is_printable(reading.left);
    lemma_cell_object_is_printable(reading.right);
    lemma_cell_object_is_printable(reading.case);
    let named = "{\"device\":\""@ + escaped(device);
    lemma_joined_is_printable("{\"device\":\""@, escaped(device));
    let left = named + "\",\"left\":"@;
    lemma_joined_is_printable(named, "\",\"left\":"@);
    let with_left = left + cell_object(reading.left);
    lemma_joined_is_printable(left, cell_object(reading.left));
    let right = with_left + ",\"right\":"@;
    lemma_joined_is_printable(with_left, ",\"right\":"@);
    let with_right = right + cell_object(reading.right);
    lemma_joined_is_printable(right, cell_object(reading.right));
    let case = with_right + ",\"case\":"@;
    lemma_joined_is_printable(with_right, ",\"case\":"@);
    let with_case = case + cell_object(reading.case);
    lemma_joined_is_printable(case, cell_object(reading.case));
    lemma_joined_is_printable(with_case, "}"@);
}

} // verus!
