use vstd::prelude::*;
use vstd::string::StringExecFns;

use crate::text::spec_dec_digits;
use crate::text::spec_hex_digits;
use crate::text::u64_to_dec;
use crate::text::u32_to_hex;

verus! {

/// One loggable event of the communication session.
#[derive(Debug, Clone)]
pub enum LogEvent {
    SdoData { index: u16, sub_index: u8, value: String },
    SdoError { index: u16, sub_index: u8, error: String },
    TpdoData { tpdo_number: u8, values: Vec<(String, String)> },
    ConnectionSuccess,
    ConnectionFailed(String),
    ConnectionStatus(bool),
}

/// An object address rendered for the log: four hexadecimal index digits, a
/// colon, two sub-index digits.
pub open spec fn spec_log_address(index: u16, sub_index: u8) -> Seq<char> {
    spec_hex_digits(index as nat, 4) + ":"@ + spec_hex_digits(sub_index as nat, 2)
}

/// TPDO field values joined for one log cell: `name=value`, comma-separated.
pub open spec fn spec_joined_values(values: Seq<(String, String)>) -> Seq<char>
    decreases values.len(),
{
    if values.len() == 0 {
        Seq::empty()
    } else if values.len() == 1 {
        values[0].0@ + "="@ + values[0].1@
    } else {
        spec_joined_values(values.drop_last()) + ", "@ + values.last().0@ + "="@
            + values.last().1@
    }
}

/// The four record cells a log event renders to, besides the timestamp:
/// event type, address, value and message.
pub open spec fn spec_log_record(event: LogEvent) -> (Seq<char>, Seq<char>, Seq<char>, Seq<char>) {
    match event {
        LogEvent::SdoData { index, sub_index, value } => (
            "SDO_DATA"@,
            spec_log_address(index, sub_index),
            value@,
            Seq::empty(),
        ),
        LogEvent::SdoError { index, sub_index, error } => (
            "SDO_ERROR"@,
            spec_log_address(index, sub_index),
            Seq::empty(),
            error@,
        ),
        LogEvent::TpdoData { tpdo_number, values } => (
            "TPDO_DATA"@,
            "TPDO"@ + spec_dec_digits(tpdo_number as nat),
            spec_joined_values(values@),
            Seq::empty(),
        ),
        LogEvent::ConnectionSuccess => (
            "CONNECTION_SUCCESS"@,
            Seq::empty(),
            Seq::empty(),
            "Successfully connected to CANopen node"@,
        ),
        LogEvent::ConnectionFailed(err) => ("CONNECTION_FAILED"@, Seq::empty(), Seq::empty(), err@),
        LogEvent::ConnectionStatus(is_alive) => (
            "CONNECTION_STATUS"@,
            Seq::empty(),
            if is_alive {
                "Connected"@
            } else {
                "Disconnected"@
            },
            Seq::empty(),
        ),
    }
}

/// Render an object address for the log.
fn log_address(index: u16, sub_index: u8) -> (s: String)
    ensures
        s@ == spec_log_address(index, sub_index),
{
    let mut s = u32_to_hex(index as u32, 4);
    s.append(":");
    let h = u32_to_hex(sub_index as u32, 2);
    s.append(h.as_str());
    s
}

/// Join TPDO field values for one log cell.
fn joined_values(values: &Vec<(String, String)>) -> (s: String)
    ensures
        s@ == spec_joined_values(values@),
{
    let mut s = String::new();
    let mut i: usize = 0;
    proof {
        assert(values@.take(0) =~= Seq::<(String, String)>::empty());
    }
    while i < values.len()
        invariant
            i <= values@.len(),
            s@ == spec_joined_values(values@.take(i as int)),
        decreases values@.len() - i,
    {
        if i > 0 {
            s.append(", ");
        }
        s.append(values[i].0.as_str());
        s.append("=");
        s.append(values[i].1.as_str());
        proof {
            assert(values@.take(i + 1).drop_last() =~= values@.take(i as int));
            assert(values@.take(i + 1).last() == values@[i as int]);
            assert(s@ =~= spec_joined_values(values@.take(i + 1)));
        }
        i = i + 1;
    }
    proof {
        assert(values@.take(i as int) =~= values@);
    }
    s
}

/// Render a log event to its four record cells (event type, address, value,
/// message); the caller prepends the timestamp and writes the row out.
pub fn log_event_record(event: &LogEvent) -> (r: (String, String, String, String))
    ensures
        ({
            let cells = spec_log_record(*event);
            r.0@ == cells.0 && r.1@ == cells.1 && r.2@ == cells.2 && r.3@ == cells.3
        }),
{
    match event {
        LogEvent::SdoData { index, sub_index, value } => (
            String::from_str("SDO_DATA"),
            log_address(*index, *sub_index),
            value.clone(),
            String::new(),
        ),
        LogEvent::SdoError { index, sub_index, error } => (
            String::from_str("SDO_ERROR"),
            log_address(*index, *sub_index),
            String::new(),
            error.clone(),
        ),
        LogEvent::TpdoData { tpdo_number, values } => {
            let mut address = String::from_str("TPDO");
            let digits = u64_to_dec(*tpdo_number as u64);
            address.append(digits.as_str());
            (String::from_str("TPDO_DATA"), address, joined_values(values), String::new())
        },
        LogEvent::ConnectionSuccess => (
            String::from_str("CONNECTION_SUCCESS"),
            String::new(),
            String::new(),
            String::from_str("Successfully connected to CANopen node"),
        ),
        LogEvent::ConnectionFailed(err) => (
            String::from_str("CONNECTION_FAILED"),
            String::new(),
            String::new(),
            err.clone(),
        ),
        LogEvent::ConnectionStatus(is_alive) => (
            String::from_str("CONNECTION_STATUS"),
            String::new(),
            if *is_alive {
                String::from_str("Connected")
            } else {
                String::from_str("Disconnected")
            },
            String::new(),
        ),
    }
}

} // verus!
