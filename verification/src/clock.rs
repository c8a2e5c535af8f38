//! What the clocks gave for one dispatch attempt: the time since the epoch
//! and the local time as text. Reading the clocks is the caller's; this
//! module checks what was read.

use vstd::prelude::*;
use vstd::string::StrSliceExecFns;

verus! {

/// Whether `c` is a decimal digit.
pub open spec fn is_digit(c: char) -> bool {
    '0' <= c <= '9'
}

/// Whether `c` may stand at position `i` of a time written as
/// `YYYY-MM-DD HH:MM:SS`.
pub open spec fn fits_format_at(i: int, c: char) -> bool {
    if i == 4 || i == 7 {
        c == '-'
    } else if i == 10 {
        c == ' '
    } else if i == 13 || i == 16 {
        c == ':'
    } else {
        is_digit(c)
    }
}

/// Whether `text` is a time written as `YYYY-MM-DD HH:MM:SS`: nineteen
/// characters, digits but for the two hyphens, the space and the two colons.
pub open spec fn is_send_time_text(text: Seq<char>) -> bool {
    &&& text.len() == 19
    &&& forall|i: int| 0 <= i < 19 ==> fits_format_at(i, #[trigger] text[i])
}

/// Whether `c` may stand at position `i` of a time written as
/// `YYYY-MM-DD HH:MM:SS`.
fn check_format_at(i: usize, c: char) -> (r: bool)
    ensures
        r == fits_format_at(i as int, c),
{
    if i == 4 || i == 7 {
        c == '-'
    } else if i == 10 {
        c == ' '
    } else if i == 13 || i == 16 {
        c == ':'
    } else {
        '0' <= c && c <= '9'
    }
}

/// Whether `text` is a time written as `YYYY-MM-DD HH:MM:SS`.
pub fn check_send_time_text(text: &str) -> (r: bool)
    ensures
        r == is_send_time_text(text@),
{
    if text.unicode_len() != 19 {
        return false;
    }
    let mut i: usize = 0;
    while i < 19
        invariant
            i <= 19,
            text@.len() == 19,
            forall|j: int| 0 <= j < i ==> fits_format_at(j, #[trigger] text@[j]),
        decreases 19 - i,
    {
        if !check_format_at(i, text.get_char(i)) {
            return false;
        }
        i += 1;
    }
    true
}

/// The clock readings of one dispatch attempt: the timestamp in milliseconds
/// since the epoch, and the local time written as `YYYY-MM-DD HH:MM:SS`.
#[derive(Debug, PartialEq, Eq)]
pub struct ClockReading {
    ts: u64,
    send_time: String,
}

impl ClockReading {
    #[verifier::type_invariant]
    spec fn shaped(self) -> bool {
        is_send_time_text(self.send_time@)
    }

    /// The timestamp of the reading.
    pub closed spec fn timestamp(self) -> u64 {
        self.ts
    }

    /// The local time of the reading, as text.
    pub closed spec fn local_time(self) -> Seq<char> {
        self.send_time@
    }

    /// Takes what the clocks gave: the milliseconds since the epoch, or
    /// nothing where the system clock could not be read, and the local time
    /// as text. There is a reading where the system clock gave a time and
    /// the text has the form `YYYY-MM-DD HH:MM:SS`. The milliseconds are cut
    /// to their low 64 bits.
    pub fn new(since_epoch_millis: Option<u128>, local_time: String) -> (r: Option<ClockReading>)
        ensures
            match r {
                Some(reading) => {
                    &&& since_epoch_millis matches Some(millis)
                    &&& reading.timestamp() == millis % 0x1_0000_0000_0000_0000
                    &&& reading.local_time() == local_time@
                    &&& is_send_time_text(local_time@)
                },
                None => since_epoch_millis is None || !is_send_time_text(local_time@),
            },
    {
        match since_epoch_millis {
            Some(millis) => {
                if check_send_time_text(local_time.as_str()) {
                    let low: u128 = millis % 0x1_0000_0000_0000_0000;
                    Some(ClockReading { ts: low as u64, send_time: local_time })
                } else {
                    None
                }
            },
            None => None,
        }
    }

    /// The timestamp of the reading.
    pub fn ts(&self) -> (r: u64)
        ensures
            r == self.timestamp(),
    {
        self.ts
    }

    /// The local time of the reading, which has the form
    /// `YYYY-MM-DD HH:MM:SS`.
    pub fn send_time(&self) -> (r: &String)
        ensures
            r@ == self.local_time(),
            is_send_time_text(r@),
    {
        proof {
            use_type_invariant(self);
        }
        &self.send_time
    }
}

} // verus!
