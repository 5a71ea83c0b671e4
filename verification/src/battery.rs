//! Battery cells as the receiver reports them.

use vstd::prelude::*;

use crate::text::{push_decimal, push_hex};

verus! {

/// What a cell is doing.
#[derive(Clone, Copy, Debug, PartialEq, Eq, Structural)]
pub enum BatteryState {
    Discharging,
    Charging,
    Error,
    Unavailable,
    Unknown(u8),
}

impl BatteryState {
    /// The state that a byte stands for. A byte without a meaning of its own is kept
    /// as it is.
    pub open spec fn of_byte(value: u8) -> Self {
        if value == 0 {
            BatteryState::Discharging
        } else if value == 1 {
            BatteryState::Charging
        } else if value == 2 {
            BatteryState::Error
        } else if value == 0xff {
            BatteryState::Unavailable
        } else {
            BatteryState::Unknown(value)
        }
    }

    /// Decodes a state byte.
    pub fn from_byte(value: u8) -> (state: Self)
        ensures
            state == BatteryState::of_byte(value),
    {
        match value {
            0 => BatteryState::Discharging,
            1 => BatteryState::Charging,
            2 => BatteryState::Error,
            0xff => BatteryState::Unavailable,
            other => BatteryState::Unknown(other),
        }
    }

    /// The name of the state.
    pub open spec fn name(self) -> Seq<char> {
        match self {
            BatteryState::Discharging => "discharging"@,
            BatteryState::Charging => "charging"@,
            BatteryState::Error => "error"@,
            BatteryState::Unavailable => "unavailable"@,
            BatteryState::Unknown(_) => "unknown"@,
        }
    }

    /// The name of the state, without the byte of an unknown one.
    pub fn as_str(self) -> (name: &'static str)
        ensures
            name@ == self.name(),
    {
        match self {
            BatteryState::Discharging => "discharging",
            BatteryState::Charging => "charging",
            BatteryState::Error => "error",
            BatteryState::Unavailable => "unavailable",
            BatteryState::Unknown(_) => "unknown",
        }
    }

    /// The state in words, with the byte of an unknown one.
    pub open spec fn text(self) -> Seq<char> {
        match self {
            BatteryState::Unknown(value) => "unknown (0x"@ + crate::text::hex(value as nat, 2)
                + ")"@,
            state => state.name(),
        }
    }

    /// The state in words, with the byte of an unknown one.
    pub fn to_string(&self) -> (text: String)
        ensures
            text@ == self.text(),
    {
        match *self {
            BatteryState::Unknown(value) => {
                let mut out = "unknown (0x".to_owned();
                push_hex(&mut out, value as u32, 2);
                out.append(")");
                out
            },
            state => state.as_str().to_owned(),
        }
    }
}

/// One cell: an earbud or the case.
#[derive(Clone, Copy, Debug, PartialEq, Eq, Structural)]
pub struct BatteryCell {
    pub percent: Option<u8>,
    pub state: BatteryState,
}

impl BatteryCell {
    /// The cell that a state byte and a percentage byte stand for: a percentage above
    /// one hundred means that none is known.
    pub open spec fn of_bytes(state: u8, percent: u8) -> Self {
        BatteryCell {
            percent: if percent <= 100 {
                Some(percent)
            } else {
                None
            },
            state: BatteryState::of_byte(state),
        }
    }

    /// Decodes a cell from its state byte and its percentage byte.
    pub fn from_bytes(state: u8, percent: u8) -> (cell: Self)
        ensures
            cell == BatteryCell::of_bytes(state, percent),
    {
        BatteryCell {
            percent: if percent <= 100 { Some(percent) } else { None },
            state: BatteryState::from_byte(state),
        }
    }

    /// The cell in words.
    pub open spec fn text(self) -> Seq<char> {
        match (self.percent, self.state) {
            (Some(percent), BatteryState::Unavailable) => crate::text::decimal(percent as nat)
                + "%"@,
            (Some(percent), state) => crate::text::decimal(percent as nat) + "% ("@ + state.text()
                + ")"@,
            (None, state) => "unknown ("@ + state.text() + ")"@,
        }
    }

    /// The cell in words. The receiver reports a useful percentage of the case
    /// beside the state `Unavailable`, so that state is left out beside a percentage.
    pub fn to_string(&self) -> (text: String)
        ensures
            text@ == self.text(),
    {
        let mut out = String::new();
        match self.percent {
            Some(percent) => {
                push_decimal(&mut out, percent as u128);
                match self.state {
                    BatteryState::Unavailable => {
                        out.append("%");
                    },
                    state => {
                        out.append("% (");
                        out.append(state.to_string().as_str());
                        out.append(")");
                    },
                }
            },
            None => {
                out.append("unknown (");
                out.append(self.state.to_string().as_str());
                out.append(")");
            },
        }
        out
    }
}

/// The three cells that one response reports.
#[derive(Clone, Copy, Debug, PartialEq, Eq, Structural)]
pub struct BatteryReading {
    pub left: BatteryCell,
    pub right: BatteryCell,
    pub case: BatteryCell,
}

/// No two bytes are decoded to the same state, so nothing the receiver reports of a
/// state is lost.
pub proof fn law_state_bytes_are_told_apart(a: u8, b: u8)
    ensures
        BatteryState::of_byte(a) == BatteryState::of_byte(b) <==> a == b,
{
}

/// A decoded cell never shows a percentage above one hundred, and shows every
/// percentage up to it as it was reported.
pub proof fn law_percentages_are_bounded(state: u8, percent: u8)
    ensures
        BatteryCell::of_bytes(state, percent).percent matches Some(shown) ==> shown <= 100,
        percent <= 100 ==> BatteryCell::of_bytes(state, percent).percent == Some(percent),
{
}

} // verus!
