//! The time of day at which a roll was made.

use chrono::Timelike;
use vstd::prelude::*;
use vstd::string::*;

use crate::tools::{digits, push_nat};

verus! {

/// One second, in nanoseconds.
pub const NANOS_PER_SECOND: u32 = 1_000_000_000;

/// A wall-clock time of day. During a leap second `nano` runs on past one
/// second while `second` stays at 59.
#[derive(Clone, Copy, Debug)]
pub struct RollTime {
    hour: u32,
    minute: u32,
    second: u32,
    nano: u32,
}

/// A number written with at least two digits, zero-padded.
pub open spec fn two_digits(n: nat) -> Seq<char> {
    if n < 10 {
        seq!['0'] + digits(n)
    } else {
        digits(n)
    }
}

/// `HH:MM:SS` for the given fields; a leap second shows as second 60.
pub open spec fn clock_face(hour: nat, minute: nat, second: nat, nano: nat) -> Seq<char> {
    two_digits(hour) + seq![':'] + two_digits(minute) + seq![':'] + two_digits(
        second + nano / (NANOS_PER_SECOND as nat),
    )
}

/// Reads the local wall clock through `chrono::Local::now().time()` and takes
/// the reading apart with `Timelike`'s `hour`, `minute`, `second` and
/// `nanosecond`. Trusted: the four fields lie in the ranges chrono documents
/// for them (0 to 23, 0 to 59, 0 to 59, and below two seconds' worth of
/// nanoseconds). Nothing is claimed about which time comes back. chrono
/// panics where the system clock reads a time before 1970.
#[verifier::external_body]
fn local_time_fields() -> (fields: (u32, u32, u32, u32))
    ensures
        fields.0 < 24,
        fields.1 < 60,
        fields.2 < 60,
        fields.3 < 2 * NANOS_PER_SECOND,
{
    let now = chrono::Local::now().time();
    (now.hour(), now.minute(), now.second(), now.nanosecond())
}

impl RollTime {
    #[verifier::type_invariant]
    spec fn in_range(self) -> bool {
        &&& self.hour < 24
        &&& self.minute < 60
        &&& self.second < 60
        &&& self.nano < 2 * NANOS_PER_SECOND
    }

    pub closed spec fn spec_hour(self) -> nat {
        self.hour as nat
    }

    pub closed spec fn spec_minute(self) -> nat {
        self.minute as nat
    }

    pub closed spec fn spec_second(self) -> nat {
        self.second as nat
    }

    pub closed spec fn spec_nano(self) -> nat {
        self.nano as nat
    }

    /// The time as the table and the detail windows print it.
    pub open spec fn face(self) -> Seq<char> {
        clock_face(self.spec_hour(), self.spec_minute(), self.spec_second(), self.spec_nano())
    }

    /// A time of day from its fields, or `None` when a field is out of range.
    pub fn new(hour: u32, minute: u32, second: u32, nano: u32) -> (t: Option<RollTime>)
        ensures
            t.is_some() <==> hour < 24 && minute < 60 && second < 60 && nano < 2 * NANOS_PER_SECOND,
            t matches Some(time) ==> {
                &&& time.spec_hour() == hour
                &&& time.spec_minute() == minute
                &&& time.spec_second() == second
                &&& time.spec_nano() == nano
            },
    {
        if hour < 24 && minute < 60 && second < 60 && nano < 2 * NANOS_PER_SECOND {
            Some(RollTime { hour, minute, second, nano })
        } else {
            None
        }
    }

    /// The current local time of day.
    pub fn now() -> (t: RollTime)
        ensures
            t.spec_hour() < 24,
            t.spec_minute() < 60,
            t.spec_second() < 60,
            t.spec_nano() < 2 * NANOS_PER_SECOND,
    {
        let fields = local_time_fields();
        RollTime { hour: fields.0, minute: fields.1, second: fields.2, nano: fields.3 }
    }

    pub fn hour(&self) -> (h: u32)
        ensures
            h == self.spec_hour(),
            h < 24,
    {
        proof {
            use_type_invariant(self);
        }
        self.hour
    }

    pub fn minute(&self) -> (m: u32)
        ensures
            m == self.spec_minute(),
            m < 60,
    {
        proof {
            use_type_invariant(self);
        }
        self.minute
    }

    pub fn second(&self) -> (s: u32)
        ensures
            s == self.spec_second(),
            s < 60,
    {
        proof {
            use_type_invariant(self);
        }
        self.second
    }

    pub fn nano(&self) -> (n: u32)
        ensures
            n == self.spec_nano(),
            n < 2 * NANOS_PER_SECOND,
    {
        proof {
            use_type_invariant(self);
        }
        self.nano
    }

    /// The time as `HH:MM:SS`.
    pub fn clock_text(&self) -> (s: String)
        ensures
            s@ == self.face(),
    {
        proof {
            use_type_invariant(self);
            reveal_strlit(":");
        }
        let mut s = String::new();
        push_two_digits(&mut s, self.hour);
        s.append(":");
        push_two_digits(&mut s, self.minute);
        s.append(":");
        push_two_digits(&mut s, self.second + self.nano / NANOS_PER_SECOND);
        assert(s@ =~= self.face());
        s
    }
}

fn push_two_digits(text: &mut String, n: u32)
    ensures
        final(text)@ == old(text)@ + two_digits(n as nat),
{
    if n < 10 {
        proof {
            reveal_strlit("0");
        }
        text.append("0");
    }
    push_nat(text, n as u64);
    assert(final(text)@ =~= old(text)@ + two_digits(n as nat));
}

} // verus!
