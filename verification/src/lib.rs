//! Core of a bridge from a structured event/span stream to the Linux
//! user_events tracepoint encoding (and its Common Schema variant).
//!
//! The library holds the verified heart of the bridge: the log-site metadata
//! registry, the span lifecycle tracker, the two wire encoders, and the
//! enablement filter. The host glue that adapts a logging front-end to these
//! types, and the clock, live outside.

pub mod hash;
pub mod registry;
pub mod values;
pub mod tracker;
pub mod eh;
pub mod guid;
pub mod error;
pub mod provider;
pub mod cs;
pub mod layer;

use vstd::prelude::*;

verus! {

/// Severity of an event or span, from most to least severe.
#[derive(Clone, Copy, PartialEq, Eq, Structural, Debug)]
pub enum Level {
    Error,
    Warn,
    Info,
    Debug,
    Trace,
}

impl Level {
    /// The numeric severity the channel encoding uses: error 2 through
    /// verbose 5, with trace one step past verbose.
    pub open spec fn as_int_spec(self) -> u8 {
        match self {
            Level::Error => 2,
            Level::Warn => 3,
            Level::Info => 4,
            Level::Debug => 5,
            Level::Trace => 6,
        }
    }

    /// Maps the severity to the channel's numeric level.
    pub fn map_level(&self) -> (r: u8)
        ensures
            r == self.as_int_spec(),
    {
        match self {
            Level::Error => 2,
            Level::Warn => 3,
            Level::Info => 4,
            Level::Debug => 5,
            Level::Trace => 6,
        }
    }
}

/// A point in time: whole seconds and nanoseconds since the Unix epoch.
#[derive(Clone, Copy, PartialEq, Eq, Structural, Debug)]
pub struct Timestamp {
    pub secs: u64,
    pub nanos: u32,
}

impl Timestamp {
    pub open spec fn wf(self) -> bool {
        self.nanos < 1_000_000_000
    }

    /// The Unix epoch itself, the placeholder before a span is entered.
    pub fn epoch() -> (r: Timestamp)
        ensures
            r == (Timestamp { secs: 0, nanos: 0 }),
    {
        Timestamp { secs: 0, nanos: 0 }
    }
}

/// The newest timestamp the wall-clock rendering accepts: the last second
/// of year 9999.
pub const MAX_RFC3339_SECS: u64 = 253_402_300_799;

/// The lowercase hexadecimal digit of a nibble, as a UTF-8 byte.
pub open spec fn hex_digit(n: u8) -> u8 {
    if n < 10 {
        (48 + n) as u8
    } else {
        (87 + n) as u8
    }
}

/// The sixteen lowercase hexadecimal digits of a 64-bit value, most
/// significant nibble first, as UTF-8 bytes.
pub open spec fn hex16_bytes(val: u64) -> Seq<u8> {
    Seq::new(16, |i: int| hex_digit(((val >> ((15 - i) * 4)) & 0xf) as u8))
}

/// Turns one 64-bit value into its sixteen lowercase hexadecimal digits,
/// most significant nibble first, as UTF-8 bytes.
pub fn to_hex_utf8_bytes(val: u64) -> (r: Vec<u8>)
    ensures
        r@ == hex16_bytes(val),
{
    let mut out: Vec<u8> = Vec::new();
    let mut i: usize = 0;
    while i < 16
        invariant
            i <= 16,
            out@.len() == i,
            forall|k: int| 0 <= k < i ==> out@[k] == hex16_bytes(val)[k],
        decreases 16 - i,
    {
        let shift: u64 = (15 - i as u64) * 4;
        let nibble: u64 = (val >> shift) & 0xf;
        proof {
            assert(((val >> shift) & 0xf) < 16) by (bit_vector);
        }
        let digit: u8 = if nibble < 10 {
            (48 + nibble as u8)
        } else {
            (97 + (nibble as u8 - 10))
        };
        proof {
            assert(shift == (15 - i as int) * 4);
            assert(digit == hex_digit(nibble as u8));
        }
        out.push(digit);
        i = i + 1;
    }
    proof {
        assert(out@ =~= hex16_bytes(val));
    }
    out
}

} // verus!
