//! What the words for states and cells tell.

use vstd::prelude::*;

use crate::battery::{BatteryCell, BatteryState};
use crate::json_laws::{leading_digits, lemma_digits_end};
use crate::text::{decimal, hex, hex_byte};
use crate::text_laws::{law_decimal_is_read_back, law_hex_bytes_are_read_back, number};

verus! {

/// The names of the states.
pub proof fn law_states_have_their_names(byte: u8)
    ensures
        BatteryState::of_byte(0).name() == "discharging"@,
        BatteryState::of_byte(1).name() == "charging"@,
        BatteryState::of_byte(2).name() == "error"@,
        BatteryState::of_byte(255).name() == "unavailable"@,
        2 < byte < 255 ==> BatteryState::of_byte(byte).name() == "unknown"@,
{
}

/// A state is told by its name, and one of unknown meaning by its byte in two hexadecimal
/// digits beside the name.
pub proof fn law_state_words(state: BatteryState)
    ensures
        !(state is Unknown) ==> state.text() == state.name(),
        state matches BatteryState::Unknown(byte) ==> {
            &&& state.text().len() == 14
            &&& state.text().take(11) == "unknown (0x"@
            &&& hex_byte(state.text().subrange(11, 13)) == Some(byte)
            &&& state.text()[13] == ')'
        },
{
    reveal_strlit("unknown (0x");
    reveal_strlit(")");
    if let BatteryState::Unknown(byte) = state {
        law_hex_bytes_are_read_back(byte);
        assert(state.text().take(11) =~= "unknown (0x"@);
        assert(state.text().subrange(11, 13) =~= hex(byte as nat, 2));
    }
}

/// No two states are told in the same words.
pub proof fn law_state_words_are_told_apart(a: BatteryState, b: BatteryState)
    requires
        a.text() == b.text(),
    ensures
        a == b,
{
    reveal_strlit("discharging");
    reveal_strlit("charging");
    reveal_strlit("error");
    reveal_strlit("unavailable");
    reveal_strlit("unknown");
    law_state_words(a);
    law_state_words(b);
    assert("discharging"@[0] == 'd' && "unavailable"@[0] == 'u');
}

/// A cell is told by its percentage in decimal and a percent sign, or by `unknown` where
/// there is none. Its state follows in brackets, and is left out only where a percentage
/// is known and the state is unavailable.
pub proof fn law_cell_words(cell: BatteryCell)
    ensures
        ({
            let text = cell.text();
            let digits = leading_digits(text) as int;
            &&& cell.percent matches Some(percent) ==> digits > 0 && number(text.take(digits))
                == percent && text[digits] == '%'
            &&& cell.percent is Some && cell.state == BatteryState::Unavailable ==> text.skip(
                digits,
            ) == "%"@
            &&& cell.percent is Some && cell.state != BatteryState::Unavailable ==> text.skip(
                digits,
            ) == "% ("@ + cell.state.text() + ")"@
            &&& cell.percent is None ==> digits == 0 && text == "unknown ("@ + cell.state.text()
                + ")"@
        }),
{
    reveal_strlit("%");
    reveal_strlit("% (");
    reveal_strlit(")");
    reveal_strlit("unknown (");
    let text = cell.text();
    match cell.percent {
        Some(percent) => {
            let digits = decimal(percent as nat);
            let rest = if cell.state == BatteryState::Unavailable {
                "%"@
            } else {
                "% ("@ + cell.state.text() + ")"@
            };
            law_decimal_is_read_back(percent as nat);
            assert(text =~= digits + rest);
            assert(rest[0] == '%');
            lemma_digits_end(digits, rest);
            assert(text.take(digits.len() as int) =~= digits);
            assert(text.skip(digits.len() as int) =~= rest);
            assert(text[digits.len() as int] == rest[0]);
        },
        None => {
            assert(text[0] == 'u');
        },
    }
}

/// No two cells are told in the same words.
pub proof fn law_cell_words_are_told_apart(a: BatteryCell, b: BatteryCell)
    requires
        a.text() == b.text(),
    ensures
        a == b,
{
    reveal_strlit("%");
    reveal_strlit("% (");
    reveal_strlit(")");
    reveal_strlit("unknown (");
    law_cell_words(a);
    law_cell_words(b);
    let shown = |cell: BatteryCell|
        !(cell.percent is Some && cell.state == BatteryState::Unavailable);
    if shown(a) && shown(b) {
        if a.percent is Some {
            lemma_inside("% ("@, a.state.text(), ")"@);
            lemma_inside("% ("@, b.state.text(), ")"@);
        } else {
            lemma_inside("unknown ("@, a.state.text(), ")"@);
            lemma_inside("unknown ("@, b.state.text(), ")"@);
        }
        law_state_words_are_told_apart(a.state, b.state);
    } else if a.percent is Some {
        assert("%"@.len() == 1);
        assert(("% ("@ + a.state.text() + ")"@).len() > 1);
        assert(("% ("@ + b.state.text() + ")"@).len() > 1);
    }
}

proof fn lemma_inside(before: Seq<char>, text: Seq<char>, after: Seq<char>)
    ensures
        (before + text + after).subrange(
            before.len() as int,
            (before + text + after).len() - after.len(),
        ) == text,
{
    assert((before + text + after).subrange(
        before.len() as int,
        (before + text + after).len() - after.len(),
    ) =~= text);
}

/// The words for a cell hold no line feed and end with no carriage return.
pub proof fn law_cell_words_stand_on_one_line(cell: BatteryCell)
    ensures
        cell.text().len() > 0,
        cell.text().last() == '%' || cell.text().last() == ')',
        forall|i: int| 0 <= i < cell.text().len() ==> ' ' <= #[trigger] cell.text()[i] <= '~',
{
    reveal_strlit("%");
    reveal_strlit("% (");
    reveal_strlit(")");
    reveal_strlit("unknown (");
    lemma_state_words_are_printable(cell.state);
    if let Some(percent) = cell.percent {
        law_decimal_is_read_back(percent as nat);
    }
}

proof fn lemma_state_words_are_printable(state: BatteryState)
    ensures
        forall|i: int| 0 <= i < state.text().len() ==> ' ' <= #[trigger] state.text()[i] <= '~',
{
    reveal_strlit("discharging");
    reveal_strlit("charging");
    reveal_strlit("error");
    reveal_strlit("unavailable");
    reveal_strlit("unknown (0x");
    reveal_strlit(")");
    if let BatteryState::Unknown(byte) = state {
        crate::text_laws::law_hex_is_read_back(byte as nat, 2);
    }
}

} // verus!
