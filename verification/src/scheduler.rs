//! The client's poll scheduler: when to send the next probe, which response
//! answers it, and what a matched response puts in the log.

use vstd::prelude::*;
use crate::codec::{decode_response, response_in};
use crate::cookie::fresh_cookie;
use crate::message::{DecodeError, Request, Response};
use crate::record::{record_of, LogRecord};
use crate::responder::reply_to;

verus! {

pub const NANOS_PER_SEC: u64 = 1_000_000_000;

pub const NANOS_PER_HOUR: u64 = 3_600_000_000_000;

/// The scheduler's whole state: the poll cadence, the one probe that may be
/// outstanding, and the counters behind the hourly notice.
#[derive(Clone, Copy, Debug, PartialEq, Eq, Structural)]
pub struct Scheduler {
    /// Poll interval in whole seconds, at least 1.
    pub poll_interval: u64,
    /// Monotonic instant of the next send.
    pub next_poll_at: u128,
    /// Cookie of the outstanding probe; `None` when no probe awaits a match.
    pub last_cookie: Option<u32>,
    /// Wall clock reading taken when the last probe was sent.
    pub last_send_time: u64,
    /// Monotonic instant at which the last probe was sent.
    pub last_sent_at: u64,
    /// Whole hours of running time already announced.
    pub hours_running: u64,
    /// Round trips matched so far.
    pub samples_collected: u64,
}

/// What became of one received datagram.
#[derive(Clone, Copy, Debug, PartialEq, Eq, Structural)]
pub enum Outcome {
    /// It did not decode as a response and was ignored.
    Dropped,
    /// It decoded, but its cookie is not that of the outstanding probe.
    BadCookie,
    /// It answered the outstanding probe; the record is to be appended to the log.
    Matched(LogRecord),
}

/// The hourly notice: hours of running time and samples logged so far.
#[derive(Clone, Copy, Debug, PartialEq, Eq, Structural)]
pub struct StatusNotice {
    pub hours: u64,
    pub samples: u64,
    /// Whether `hours` is exactly one, so that the unit reads "hour".
    pub singular: bool,
}

/// What one pass of the client's loop asks of its caller before it waits.
#[derive(Clone, Copy, Debug, PartialEq, Eq, Structural)]
pub struct Pass {
    /// The hourly notice to print, if one is owed.
    pub notice: Option<StatusNotice>,
    /// The probe to send, if the poll was due.
    pub probe: Option<Request>,
    /// How long to wait for a response, in nanoseconds; never zero.
    pub wait: u128,
}

impl Scheduler {
    /// The poll interval in nanoseconds.
    pub open spec fn interval_nanos(self) -> int {
        self.poll_interval * NANOS_PER_SEC
    }

    /// The interval is positive and the next poll lies at most one interval
    /// beyond the largest monotonic instant.
    pub open spec fn wf(self) -> bool {
        &&& self.poll_interval >= 1
        &&& self.next_poll_at <= u64::MAX + self.interval_nanos()
    }

    /// A probe is to be sent at `now`.
    pub open spec fn due(self, now: u64) -> bool {
        self.next_poll_at <= now
    }

    /// The next poll instant after a send at `now`: one interval after the
    /// previous one, or one interval after `now` where that is not in the future.
    pub open spec fn rescheduled(self, now: u64) -> int {
        if self.next_poll_at + self.interval_nanos() <= now {
            now + self.interval_nanos()
        } else {
            self.next_poll_at + self.interval_nanos()
        }
    }

    /// The state after a probe with `cookie` was sent at `now`, wall clock `wall`.
    pub open spec fn after_send(self, now: u64, wall: u64, cookie: u32) -> Scheduler {
        Scheduler {
            next_poll_at: self.rescheduled(now) as u128,
            last_cookie: Some(cookie),
            last_send_time: wall,
            last_sent_at: now,
            ..self
        }
    }

    /// The state after one scheduling pass at `now`.
    pub open spec fn after_poll(self, now: u64, wall: u64, cookie: u32) -> Scheduler {
        if self.due(now) {
            self.after_send(now, wall, cookie)
        } else {
            self
        }
    }

    /// The probe that one scheduling pass at `now` sends, if any.
    pub open spec fn probe(self, now: u64, cookie: u32) -> Option<Request> {
        if self.due(now) {
            Some(Request { cookie })
        } else {
            None
        }
    }

    /// Time left at `now` until the next poll; zero when it is due.
    pub open spec fn remaining(self, now: u64) -> int {
        if self.next_poll_at > now {
            self.next_poll_at - now
        } else {
            0
        }
    }

    /// `response` carries the cookie of the outstanding probe.
    pub open spec fn correlates(self, response: Response) -> bool {
        self.last_cookie == Some(response.cookie)
    }

    /// The sample count after one more match; it stops at `u64::MAX`.
    pub open spec fn counted(self) -> u64 {
        if self.samples_collected < u64::MAX {
            (self.samples_collected + 1) as u64
        } else {
            self.samples_collected
        }
    }

    /// What a received datagram amounts to.
    pub open spec fn outcome(self, decoded: Result<Response, DecodeError>, received_at: u64) -> Outcome {
        match decoded {
            Err(_) => Outcome::Dropped,
            Ok(response) => if self.correlates(response) {
                Outcome::Matched(record_of(self.last_send_time, self.last_sent_at, response.send_time, received_at))
            } else {
                Outcome::BadCookie
            },
        }
    }

    /// The state after a received datagram: only a matching response changes
    /// it, by resolving the outstanding probe and counting the sample.
    pub open spec fn after_receive(self, decoded: Result<Response, DecodeError>) -> Scheduler {
        match decoded {
            Ok(response) if self.correlates(response) => Scheduler {
                last_cookie: None,
                samples_collected: self.counted(),
                ..self
            },
            _ => self,
        }
    }

    /// Whole hours of running time at `now`.
    pub open spec fn hours_at(now: u64) -> u64 {
        now / NANOS_PER_HOUR
    }

    /// The notice owed at `now`: one whenever the count of whole hours differs
    /// from the one last announced.
    pub open spec fn notice(self, now: u64) -> Option<StatusNotice> {
        if Self::hours_at(now) != self.hours_running {
            Some(StatusNotice {
                hours: Self::hours_at(now),
                samples: self.samples_collected,
                singular: Self::hours_at(now) == 1,
            })
        } else {
            None
        }
    }

    /// The state after the hours of running time at `now` were looked at.
    pub open spec fn announced(self, now: u64) -> Scheduler {
        Scheduler { hours_running: Self::hours_at(now), ..self }
    }

    /// A scheduler started at monotonic instant 0: the first probe is due at
    /// once and none is outstanding.
    pub fn new(poll_interval: u64) -> (s: Scheduler)
        requires
            poll_interval >= 1,
        ensures
            s.wf(),
            s == (Scheduler {
                poll_interval,
                next_poll_at: 0,
                last_cookie: None,
                last_send_time: 0,
                last_sent_at: 0,
                hours_running: 0,
                samples_collected: 0,
            }),
    {
        Scheduler {
            poll_interval,
            next_poll_at: 0,
            last_cookie: None,
            last_send_time: 0,
            last_sent_at: 0,
            hours_running: 0,
            samples_collected: 0,
        }
    }

    /// Whether a probe is to be sent at `now`.
    pub fn is_due(&self, now: u64) -> (d: bool)
        ensures
            d == self.due(now),
    {
        self.next_poll_at <= now as u128
    }

    /// One scheduling pass at monotonic instant `now` with the cookie to use.
    /// If the poll is due, the probe is returned for sending, it becomes the
    /// outstanding one, and the next poll is set by the catch-up rule. If not,
    /// nothing is sent and nothing changes.
    pub fn poll_with(&mut self, now: u64, wall: u64, cookie: u32) -> (sent: Option<Request>)
        requires
            old(self).wf(),
        ensures
            *final(self) == old(self).after_poll(now, wall, cookie),
            sent == old(self).probe(now, cookie),
            final(self).wf(),
            final(self).next_poll_at > now,
    {
        if self.next_poll_at > now as u128 {
            return None;
        }
        let interval: u128 = self.poll_interval as u128 * NANOS_PER_SEC as u128;
        let mut next: u128 = self.next_poll_at + interval;
        if next <= now as u128 {
            next = now as u128 + interval;
        }
        self.next_poll_at = next;
        self.last_cookie = Some(cookie);
        self.last_send_time = wall;
        self.last_sent_at = now;
        Some(Request { cookie })
    }

    /// One scheduling pass at `now` with a freshly drawn cookie. Whatever
    /// cookie was drawn, the pass is `poll_with` of it; when the poll is not
    /// due, no cookie is drawn and nothing changes.
    pub fn poll(&mut self, now: u64, wall: u64) -> (sent: Option<Request>)
        requires
            old(self).wf(),
        ensures
            sent is Some <==> old(self).due(now),
            sent is None ==> *final(self) == *old(self),
            sent is Some ==> *final(self) == old(self).after_send(now, wall, sent.unwrap().cookie),
            final(self).wf(),
            final(self).next_poll_at > now,
    {
        if !self.is_due(now) {
            return None;
        }
        let cookie: u32 = fresh_cookie();
        self.poll_with(now, wall, cookie)
    }

    /// The head of one pass of the client's loop at monotonic instant `now`
    /// and wall clock reading `wall`: the hourly notice, then at most one
    /// probe, then the time to wait for a response, which is never zero.
    pub fn pass(&mut self, now: u64, wall: u64) -> (pass: Pass)
        requires
            old(self).wf(),
        ensures
            pass.notice == old(self).notice(now),
            pass.probe is Some <==> old(self).due(now),
            pass.probe is None ==> *final(self) == old(self).announced(now),
            pass.probe is Some ==> *final(self) == old(self).announced(now).after_send(
                now,
                wall,
                pass.probe.unwrap().cookie,
            ),
            pass.wait == final(self).remaining(now),
            pass.wait > 0,
            final(self).wf(),
    {
        let notice = self.status(now);
        let probe = self.poll(now, wall);
        let wait = self.timeout(now);
        Pass { notice, probe, wait }
    }

    /// How long to wait for a response at `now`: the time left until the next
    /// poll, in nanoseconds. It is positive right after a scheduling pass at `now`.
    pub fn timeout(&self, now: u64) -> (t: u128)
        ensures
            t == self.remaining(now),
            t > 0 <==> !self.due(now),
    {
        if self.next_poll_at > now as u128 {
            self.next_poll_at - now as u128
        } else {
            0
        }
    }

    /// Takes one received datagram, as decoded, at monotonic instant
    /// `received_at`. A datagram that did not decode is dropped. A response
    /// whose cookie is not the outstanding one is reported and changes
    /// nothing. A matching response resolves the probe and yields its record.
    pub fn receive(&mut self, decoded: Result<Response, DecodeError>, received_at: u64) -> (outcome: Outcome)
        ensures
            outcome == old(self).outcome(decoded, received_at),
            *final(self) == old(self).after_receive(decoded),
            old(self).wf() ==> final(self).wf(),
    {
        match decoded {
            Err(_) => Outcome::Dropped,
            Ok(response) => {
                if self.last_cookie != Some(response.cookie) {
                    Outcome::BadCookie
                } else {
                    let record = LogRecord::measure(
                        self.last_send_time,
                        self.last_sent_at,
                        response.send_time,
                        received_at,
                    );
                    self.last_cookie = None;
                    if self.samples_collected < u64::MAX {
                        self.samples_collected = self.samples_collected + 1;
                    }
                    Outcome::Matched(record)
                }
            },
        }
    }

    /// Takes one received datagram as it came off the wire: decodes it as a
    /// response and hands the result to `receive`.
    pub fn receive_datagram(&mut self, datagram: &[u8], received_at: u64) -> (outcome: Outcome)
        ensures
            outcome == old(self).outcome(response_in(datagram@), received_at),
            *final(self) == old(self).after_receive(response_in(datagram@)),
            old(self).wf() ==> final(self).wf(),
    {
        let decoded = decode_response(datagram);
        self.receive(decoded, received_at)
    }

    /// The hourly notice. Returns one, and remembers the hour, whenever the
    /// whole hours of running time at `now` differ from those last announced.
    pub fn status(&mut self, now: u64) -> (notice: Option<StatusNotice>)
        ensures
            notice == old(self).notice(now),
            *final(self) == old(self).announced(now),
            old(self).wf() ==> final(self).wf(),
    {
        let hours: u64 = now / NANOS_PER_HOUR;
        if hours != self.hours_running {
            self.hours_running = hours;
            Some(StatusNotice { hours, samples: self.samples_collected, singular: hours == 1 })
        } else {
            None
        }
    }
}

/// No bursts: a send at `now` leaves the next poll strictly after `now`, at
/// `now` plus one interval whenever one interval after the previous poll
/// instant would not be in the future, so that a second pass at the same
/// instant sends nothing and changes nothing, however long the stall was.
pub proof fn lemma_no_burst(s: Scheduler, now: u64, wall: u64, cookie: u32, again: u32)
    requires
        s.wf(),
        s.due(now),
    ensures
        s.after_poll(now, wall, cookie).wf(),
        s.after_poll(now, wall, cookie).next_poll_at > now,
        s.after_poll(now, wall, cookie).next_poll_at <= now + s.interval_nanos(),
        s.next_poll_at + s.interval_nanos() <= now ==> s.after_poll(now, wall, cookie).next_poll_at
            == now + s.interval_nanos(),
        s.next_poll_at + s.interval_nanos() > now ==> s.after_poll(now, wall, cookie).next_poll_at
            == s.next_poll_at + s.interval_nanos(),
        s.after_poll(now, wall, cookie).probe(now, again) is None,
        s.after_poll(now, wall, cookie).after_poll(now, wall, again) == s.after_poll(
            now,
            wall,
            cookie,
        ),
{
}

/// Correlation: a response whose cookie is not the outstanding one, or that
/// comes when no probe is outstanding, yields no record and leaves the whole
/// state, the outstanding probe included, as it was.
pub proof fn lemma_mismatch_inert(s: Scheduler, response: Response, received_at: u64)
    requires
        s.last_cookie != Some(response.cookie),
    ensures
        s.outcome(Ok(response), received_at) == Outcome::BadCookie,
        s.after_receive(Ok(response)) == s,
{
}

/// A datagram that did not decode yields no record and changes nothing.
pub proof fn lemma_malformed_inert(s: Scheduler, error: DecodeError, received_at: u64)
    ensures
        s.outcome(Err(error), received_at) == Outcome::Dropped,
        s.after_receive(Err(error)) == s,
{
}

/// The responder's answer to the probe just sent matches it: it resolves the
/// probe, and its record holds the probe's send time.
pub proof fn lemma_reply_matches(
    s: Scheduler,
    now: u64,
    wall: u64,
    cookie: u32,
    remote_wall: u64,
    received_at: u64,
)
    requires
        s.wf(),
        s.due(now),
    ensures
        ({
            let sent = s.after_poll(now, wall, cookie);
            let reply = reply_to(Request { cookie }, remote_wall);
            &&& sent.outcome(Ok(reply), received_at) == Outcome::Matched(
                record_of(wall, now, remote_wall, received_at),
            )
            &&& sent.after_receive(Ok(reply)).last_cookie is None
        }),
{
}

} // verus!
