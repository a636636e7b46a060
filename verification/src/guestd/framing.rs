//! Messages as lines: each message is one line of JSON, ended by a newline.

use vstd::prelude::*;

use crate::guestd::channel::ChannelError;
use crate::proto::ids::Timestamp;
use crate::text;
use crate::text::trimmed_end;

verus! {

/// The newline that ends a message.
pub const NEWLINE: u8 = 10;

/// The line that carries a message's JSON.
pub fn to_line(json: Vec<u8>) -> (line: Vec<u8>)
    ensures
        line@ == json@.push(NEWLINE),
{
    let mut line = json;
    line.push(NEWLINE);
    line
}

/// The JSON that a line carries, where `read` is how many bytes the reading of it brought: none
/// means that the peer has closed the connection.
pub fn from_line(read: usize, line: &str) -> (r: Result<String, ChannelError>)
    ensures
        match r {
            Ok(json) => read > 0 && json@ == text::trim_end(line@),
            Err(e) => read == 0 && e == ChannelError::Closed,
        },
{
    if read == 0 {
        return Err(ChannelError::Closed);
    }
    Ok(trimmed_end(line))
}

/// The guest's clock as a timestamp, where `nanos` are the nanoseconds since the epoch: the low 64
/// bits, and zero for a clock that stands before the epoch.
pub fn wall_clock(nanos: Option<u128>) -> (ts: Timestamp)
    ensures
        ts.nanos == match nanos {
            Some(n) => n as int % 0x1_0000_0000_0000_0000,
            None => 0,
        },
{
    match nanos {
        Some(n) => Timestamp::from_nanos((n % 0x1_0000_0000_0000_0000) as u64),
        None => Timestamp::from_nanos(0),
    }
}

} // verus!
