//! The record that one correlated round trip leaves in the log, and the two
//! quantities it is computed from.

use vstd::prelude::*;
use crate::codec::{decimal, write_decimal};

verus! {

/// One line of the log: when the probe was sent (local wall clock, seconds),
/// how far the remote clock was from that (seconds, signed), and how long the
/// round trip took (monotonic nanoseconds).
#[derive(Clone, Copy, Debug, PartialEq, Eq, Structural)]
pub struct LogRecord {
    pub last_send_time: u64,
    pub time_differential: i64,
    pub delay_nanos: u64,
}

/// `x` brought into the range of `i64` by adding or removing 2^64 once.
pub open spec fn wrap_signed(x: int) -> int {
    if x > i64::MAX {
        x - 0x1_0000_0000_0000_0000
    } else if x < i64::MIN {
        x + 0x1_0000_0000_0000_0000
    } else {
        x
    }
}

/// The remote reading minus the local one, as a signed 64-bit number.
pub open spec fn differential(remote: u64, local: u64) -> int {
    wrap_signed(remote - local)
}

/// Monotonic time from `since` to `now`; zero when `now` is the earlier one.
pub open spec fn elapsed(since: u64, now: u64) -> int {
    if now >= since {
        now - since
    } else {
        0
    }
}

/// The record of a probe sent at `last_send_time` (wall) and `last_sent_at`
/// (monotonic) whose answer carried `remote_time` and arrived at `received_at`.
pub open spec fn record_of(last_send_time: u64, last_sent_at: u64, remote_time: u64, received_at: u64) -> LogRecord {
    LogRecord {
        last_send_time,
        time_differential: differential(remote_time, last_send_time) as i64,
        delay_nanos: elapsed(last_sent_at, received_at) as u64,
    }
}

/// The numeral of a signed number: a minus sign before the magnitude if negative.
pub open spec fn signed_decimal(x: int) -> Seq<u8> {
    if x < 0 {
        seq![45u8] + decimal((-x) as nat)
    } else {
        decimal(x as nat)
    }
}

/// The last `width` decimal digits of `n`, with leading zeros.
pub open spec fn padded(n: nat, width: nat) -> Seq<u8>
    decreases width,
{
    if width == 0 {
        Seq::empty()
    } else {
        padded(n / 10, (width - 1) as nat).push((48 + n % 10) as u8)
    }
}

/// The last `width` decimal digits of `n` without their trailing zeros.
pub open spec fn fraction(n: nat, width: nat) -> Seq<u8>
    decreases width,
{
    if width == 0 {
        Seq::empty()
    } else if n % 10 == 0 {
        fraction(n / 10, (width - 1) as nat)
    } else {
        padded(n, width)
    }
}

/// A span of nanoseconds as seconds in decimal: the whole seconds, then, if
/// the span is not a whole number of seconds, a point and the fraction to
/// the nanosecond without trailing zeros.
pub open spec fn seconds_text(nanos: u64) -> Seq<u8> {
    if nanos % 1_000_000_000 == 0 {
        decimal((nanos / 1_000_000_000) as nat)
    } else {
        decimal((nanos / 1_000_000_000) as nat) + seq![46u8] + fraction(
            (nanos % 1_000_000_000) as nat,
            9,
        )
    }
}

/// Signed difference `remote - local` in seconds. It is the exact difference
/// whenever that fits in an `i64`, and wraps around by 2^64 otherwise.
pub fn time_differential(remote: u64, local: u64) -> (d: i64)
    ensures
        d == differential(remote, local),
        i64::MIN <= remote - local <= i64::MAX ==> d == remote - local,
{
    if remote >= local {
        let ahead: u64 = remote - local;
        if ahead <= 0x7fff_ffff_ffff_ffff {
            ahead as i64
        } else {
            let short: u64 = u64::MAX - ahead;
            -(short as i64) - 1
        }
    } else {
        let behind: u64 = local - remote;
        if behind <= 0x8000_0000_0000_0000 {
            let below: u64 = behind - 1;
            -(below as i64) - 1
        } else {
            let short: u64 = u64::MAX - behind;
            (short as i64) + 1
        }
    }
}

/// Monotonic nanoseconds from `since` to `now`, zero if `now` is not later.
pub fn delay_between(since: u64, now: u64) -> (d: u64)
    ensures
        d == elapsed(since, now),
{
    if now >= since {
        now - since
    } else {
        0
    }
}

/// Appends the numeral of a signed number.
pub fn write_signed(out: &mut Vec<u8>, x: i64)
    ensures
        final(out)@ == old(out)@ + signed_decimal(x as int),
{
    if x < 0 {
        out.push(45u8);
        let magnitude: u64 = if x == i64::MIN {
            0x8000_0000_0000_0000
        } else {
            (-x) as u64
        };
        write_decimal(out, magnitude);
        assert(out@ =~= old(out)@ + signed_decimal(x as int));
    } else {
        write_decimal(out, x as u64);
    }
}

/// Appends the last `width` decimal digits of `n`, with leading zeros.
fn write_padded(out: &mut Vec<u8>, n: u64, width: u8)
    ensures
        final(out)@ == old(out)@ + padded(n as nat, width as nat),
    decreases width,
{
    if width > 0 {
        write_padded(out, n / 10, width - 1);
        let d: u8 = (n % 10) as u8;
        out.push(48u8 + d);
        assert(out@ =~= old(out)@ + padded(n as nat, width as nat));
    } else {
        assert(out@ =~= old(out)@ + padded(n as nat, width as nat));
    }
}

/// Appends a span of nanoseconds as seconds in decimal.
pub fn write_seconds(out: &mut Vec<u8>, nanos: u64)
    ensures
        final(out)@ == old(out)@ + seconds_text(nanos),
{
    write_decimal(out, nanos / 1_000_000_000);
    let part: u64 = nanos % 1_000_000_000;
    if part != 0 {
        out.push(46u8);
        let mut n: u64 = part;
        let mut width: u8 = 9;
        while width > 0 && n % 10 == 0
            invariant
                fraction(n as nat, width as nat) == fraction(part as nat, 9),
            decreases width,
        {
            n = n / 10;
            width = width - 1;
        }
        write_padded(out, n, width);
        assert(out@ =~= old(out)@ + seconds_text(nanos));
    }
}

impl LogRecord {
    /// The record's line in the log: send time, differential and delay in
    /// seconds, separated by commas and ended by a newline.
    pub open spec fn text(self) -> Seq<u8> {
        decimal(self.last_send_time as nat) + seq![44u8] + signed_decimal(
            self.time_differential as int,
        ) + seq![44u8] + seconds_text(self.delay_nanos) + seq![10u8]
    }

    /// Writes the record's line.
    pub fn line(&self) -> (out: Vec<u8>)
        ensures
            out@ == self.text(),
    {
        let mut out: Vec<u8> = Vec::new();
        write_decimal(&mut out, self.last_send_time);
        out.push(44u8);
        write_signed(&mut out, self.time_differential);
        out.push(44u8);
        write_seconds(&mut out, self.delay_nanos);
        out.push(10u8);
        assert(out@ =~= self.text());
        out
    }

    /// Builds the record of one matched round trip.
    pub fn measure(last_send_time: u64, last_sent_at: u64, remote_time: u64, received_at: u64) -> (record: LogRecord)
        ensures
            record == record_of(last_send_time, last_sent_at, remote_time, received_at),
            record.last_send_time == last_send_time,
            record.time_differential == differential(remote_time, last_send_time),
            record.delay_nanos == elapsed(last_sent_at, received_at),
    {
        LogRecord {
            last_send_time,
            time_differential: time_differential(remote_time, last_send_time),
            delay_nanos: delay_between(last_sent_at, received_at),
        }
    }
}

} // verus!
