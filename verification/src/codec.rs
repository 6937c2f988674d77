//! The wire text of the two messages. A message is one JSON object in its
//! compact form, fields by name in a fixed order and numbers in plain
//! decimal: `{"cookie":42}` and `{"send_time":1000,"cookie":42}`. Decoding
//! accepts exactly these texts and nothing else.

use vstd::prelude::*;
use crate::message::{DecodeError, Request, Response};

verus! {

/// ASCII decimal digit.
pub open spec fn is_digit(b: u8) -> bool {
    48 <= b <= 57
}

/// The decimal numeral of `n`, most significant digit first, no leading zero.
pub open spec fn decimal(n: nat) -> Seq<u8>
    decreases n,
{
    if n < 10 {
        seq![(48 + n) as u8]
    } else {
        decimal(n / 10).push((48 + n % 10) as u8)
    }
}

/// The number that a run of decimal digits denotes; 0 for the empty run.
pub open spec fn value_of(digits: Seq<u8>) -> int
    decreases digits.len(),
{
    if digits.len() == 0 {
        0
    } else {
        value_of(digits.drop_last()) * 10 + (digits.last() - 48)
    }
}

/// The first index from `at` on that holds no digit (the length, if none).
pub open spec fn digits_until(s: Seq<u8>, at: int) -> int
    decreases s.len() - at,
{
    if 0 <= at < s.len() && is_digit(s[at]) {
        digits_until(s, at + 1)
    } else {
        at
    }
}

/// `{"cookie":`
pub open spec fn cookie_label() -> Seq<u8> {
    seq![123u8, 34, 99, 111, 111, 107, 105, 101, 34, 58]
}

/// `{"send_time":`
pub open spec fn send_time_label() -> Seq<u8> {
    seq![123u8, 34, 115, 101, 110, 100, 95, 116, 105, 109, 101, 34, 58]
}

/// `,"cookie":`
pub open spec fn next_cookie_label() -> Seq<u8> {
    seq![44u8, 34, 99, 111, 111, 107, 105, 101, 34, 58]
}

/// `}`
pub open spec fn closing() -> Seq<u8> {
    seq![125u8]
}

/// The wire text of a request.
pub open spec fn request_text(r: Request) -> Seq<u8> {
    cookie_label() + decimal(r.cookie as nat) + closing()
}

/// The wire text of a response.
pub open spec fn response_text(r: Response) -> Seq<u8> {
    send_time_label() + decimal(r.send_time as nat) + next_cookie_label() + decimal(
        r.cookie as nat,
    ) + closing()
}

/// `bytes` is the wire text of some request.
pub open spec fn is_request_text(bytes: Seq<u8>) -> bool {
    exists|q: Request| bytes == #[trigger] request_text(q)
}

/// `bytes` is the wire text of some response.
pub open spec fn is_response_text(bytes: Seq<u8>) -> bool {
    exists|q: Response| bytes == #[trigger] response_text(q)
}

/// The decoding of `bytes` as a request: the request whose text `bytes` is,
/// or an error when `bytes` is the text of no request.
pub open spec fn request_in(bytes: Seq<u8>) -> Result<Request, DecodeError> {
    if is_request_text(bytes) {
        Ok(choose|q: Request| bytes == #[trigger] request_text(q))
    } else {
        Err(DecodeError {})
    }
}

/// The decoding of `bytes` as a response: the response whose text `bytes`
/// is, or an error when `bytes` is the text of no response.
pub open spec fn response_in(bytes: Seq<u8>) -> Result<Response, DecodeError> {
    if is_response_text(bytes) {
        Ok(choose|q: Response| bytes == #[trigger] response_text(q))
    } else {
        Err(DecodeError {})
    }
}

/// A decimal numeral is a non-empty run of digits that denotes its number.
pub proof fn lemma_decimal(n: nat)
    ensures
        decimal(n).len() >= 1,
        forall|i: int| 0 <= i < decimal(n).len() ==> is_digit(#[trigger] decimal(n)[i]),
        value_of(decimal(n)) == n,
    decreases n,
{
    reveal_with_fuel(value_of, 2);
    if n < 10 {
        assert(decimal(n).drop_last().len() == 0);
    } else {
        lemma_decimal(n / 10);
        assert(decimal(n).drop_last() =~= decimal(n / 10));
    }
}

/// A prefix of a run of digits denotes no more than the whole run.
proof fn lemma_prefix_value(digits: Seq<u8>, k: int)
    requires
        0 <= k <= digits.len(),
        forall|i: int| 0 <= i < digits.len() ==> is_digit(#[trigger] digits[i]),
    ensures
        0 <= value_of(digits.subrange(0, k)) <= value_of(digits),
    decreases digits.len(),
{
    if k == digits.len() {
        assert(digits.subrange(0, k) =~= digits);
        if digits.len() > 0 {
            lemma_prefix_value(digits.drop_last(), k - 1);
        }
    } else {
        lemma_prefix_value(digits.drop_last(), k);
        assert(digits.subrange(0, k) =~= digits.drop_last().subrange(0, k));
    }
}

/// From anywhere inside a numeral that is followed by something other than a
/// digit, the run of digits ends where the numeral ends.
proof fn lemma_run_end(before: Seq<u8>, n: nat, after: Seq<u8>, k: int)
    requires
        0 <= k <= decimal(n).len(),
        after.len() > 0 ==> !is_digit(after[0]),
    ensures
        digits_until(before + decimal(n) + after, before.len() + k) == before.len() + decimal(
            n,
        ).len(),
    decreases decimal(n).len() - k,
{
    let s = before + decimal(n) + after;
    let at = before.len() + k;
    lemma_decimal(n);
    if k < decimal(n).len() {
        assert(s[at] == decimal(n)[k]);
        lemma_run_end(before, n, after, k + 1);
    } else if after.len() > 0 {
        assert(s[at] == after[0]);
    }
}

/// In `before + decimal(n) + after`, where `after` does not start with a
/// digit, the run of digits that starts behind `before` is the numeral of `n`.
proof fn lemma_field(before: Seq<u8>, n: nat, after: Seq<u8>)
    requires
        after.len() > 0 ==> !is_digit(after[0]),
    ensures
        ({
            let s = before + decimal(n) + after;
            let end = digits_until(s, before.len() as int);
            &&& end == before.len() + decimal(n).len()
            &&& s.subrange(before.len() as int, end) == decimal(n)
            &&& value_of(s.subrange(before.len() as int, end)) == n
        }),
{
    let s = before + decimal(n) + after;
    lemma_run_end(before, n, after, 0);
    lemma_decimal(n);
    assert(s.subrange(before.len() as int, (before.len() + decimal(n).len()) as int) =~= decimal(n));
}

/// Different requests have different texts.
pub proof fn lemma_request_text_injective(a: Request, b: Request)
    requires
        request_text(a) == request_text(b),
    ensures
        a == b,
{
    lemma_field(cookie_label(), a.cookie as nat, closing());
    lemma_field(cookie_label(), b.cookie as nat, closing());
}

/// Different responses have different texts.
pub proof fn lemma_response_text_injective(a: Response, b: Response)
    requires
        response_text(a) == response_text(b),
    ensures
        a == b,
{
    lemma_response_fields(a);
    lemma_response_fields(b);
}

/// Where the two numerals of a response's text stand and what they denote.
proof fn lemma_response_fields(r: Response)
    ensures
        ({
            let s = response_text(r);
            let first = digits_until(s, 13);
            let second = digits_until(s, first + 10);
            &&& first == 13 + decimal(r.send_time as nat).len()
            &&& value_of(s.subrange(13, first)) == r.send_time
            &&& second == first + 10 + decimal(r.cookie as nat).len()
            &&& value_of(s.subrange(first + 10, second)) == r.cookie
            &&& s.len() == second + 1
        }),
{
    let s = response_text(r);
    let t = decimal(r.send_time as nat);
    let c = decimal(r.cookie as nat);
    let tail = next_cookie_label() + c + closing();
    assert(s =~= send_time_label() + t + tail);
    lemma_field(send_time_label(), r.send_time as nat, tail);
    let head = send_time_label() + t + next_cookie_label();
    assert(s =~= head + c + closing());
    lemma_field(head, r.cookie as nat, closing());
}

/// Round trip: decoding the text of a request gives that request back.
pub proof fn lemma_request_round_trip(r: Request)
    ensures
        request_in(request_text(r)) == Ok::<Request, DecodeError>(r),
{
    assert(is_request_text(request_text(r)));
    let q = choose|q: Request| request_text(r) == #[trigger] request_text(q);
    lemma_request_text_injective(r, q);
}

/// Round trip: decoding the text of a response gives that response back.
pub proof fn lemma_response_round_trip(r: Response)
    ensures
        response_in(response_text(r)) == Ok::<Response, DecodeError>(r),
{
    assert(is_response_text(response_text(r)));
    let q = choose|q: Response| response_text(r) == #[trigger] response_text(q);
    lemma_response_text_injective(r, q);
}

/// Decoding succeeds on the wire texts and on nothing else, and what it
/// gives, written out again, is the input.
pub proof fn lemma_decoding_exact(bytes: Seq<u8>)
    ensures
        request_in(bytes) is Ok <==> is_request_text(bytes),
        request_in(bytes) is Ok ==> request_text(request_in(bytes).unwrap()) == bytes,
        response_in(bytes) is Ok <==> is_response_text(bytes),
        response_in(bytes) is Ok ==> response_text(response_in(bytes).unwrap()) == bytes,
{
}

/// Appends the decimal numeral of `n`.
pub fn write_decimal(out: &mut Vec<u8>, n: u64)
    ensures
        final(out)@ == old(out)@ + decimal(n as nat),
    decreases n,
{
    if n >= 10 {
        write_decimal(out, n / 10);
    }
    let d: u8 = (n % 10) as u8;
    out.push(48u8 + d);
    proof {
        if n >= 10 {
            assert(out@ =~= old(out)@ + decimal((n / 10) as nat).push((48 + n % 10) as u8));
        } else {
            assert(out@ =~= old(out)@ + seq![(48 + n) as u8]);
        }
    }
}

fn write_cookie_label(out: &mut Vec<u8>)
    ensures
        final(out)@ == old(out)@ + cookie_label(),
{
    out.push(123u8);
    out.push(34u8);
    out.push(99u8);
    out.push(111u8);
    out.push(111u8);
    out.push(107u8);
    out.push(105u8);
    out.push(101u8);
    out.push(34u8);
    out.push(58u8);
    assert(out@ =~= old(out)@ + cookie_label());
}

fn write_send_time_label(out: &mut Vec<u8>)
    ensures
        final(out)@ == old(out)@ + send_time_label(),
{
    out.push(123u8);
    out.push(34u8);
    out.push(115u8);
    out.push(101u8);
    out.push(110u8);
    out.push(100u8);
    out.push(95u8);
    out.push(116u8);
    out.push(105u8);
    out.push(109u8);
    out.push(101u8);
    out.push(34u8);
    out.push(58u8);
    assert(out@ =~= old(out)@ + send_time_label());
}

fn write_next_cookie_label(out: &mut Vec<u8>)
    ensures
        final(out)@ == old(out)@ + next_cookie_label(),
{
    out.push(44u8);
    out.push(34u8);
    out.push(99u8);
    out.push(111u8);
    out.push(111u8);
    out.push(107u8);
    out.push(105u8);
    out.push(101u8);
    out.push(34u8);
    out.push(58u8);
    assert(out@ =~= old(out)@ + next_cookie_label());
}

/// The wire text of a request.
pub fn encode_request(r: Request) -> (out: Vec<u8>)
    ensures
        out@ == request_text(r),
{
    let mut out: Vec<u8> = Vec::new();
    write_cookie_label(&mut out);
    write_decimal(&mut out, r.cookie as u64);
    out.push(125u8);
    assert(out@ =~= request_text(r));
    out
}

/// The wire text of a response.
pub fn encode_response(r: Response) -> (out: Vec<u8>)
    ensures
        out@ == response_text(r),
{
    let mut out: Vec<u8> = Vec::new();
    write_send_time_label(&mut out);
    write_decimal(&mut out, r.send_time);
    write_next_cookie_label(&mut out);
    write_decimal(&mut out, r.cookie as u64);
    out.push(125u8);
    assert(out@ =~= response_text(r));
    out
}

/// Whether two byte strings are the same.
fn same_bytes(a: &[u8], b: &[u8]) -> (same: bool)
    ensures
        same == (a@ == b@),
{
    if a.len() != b.len() {
        return false;
    }
    let mut i: usize = 0;
    while i < a.len()
        invariant
            i <= a.len(),
            a.len() == b.len(),
            forall|j: int| 0 <= j < i ==> a@[j] == b@[j],
        decreases a.len() - i,
    {
        if a[i] != b[i] {
            return false;
        }
        i += 1;
    }
    assert(a@ =~= b@);
    true
}

/// Where the run of digits that starts at `at` ends.
fn digits_end(bytes: &[u8], at: usize) -> (end: usize)
    requires
        at <= bytes.len(),
    ensures
        end == digits_until(bytes@, at as int),
        at <= end <= bytes.len(),
        forall|i: int| at <= i < end ==> is_digit(#[trigger] bytes@[i]),
{
    let mut end: usize = at;
    while end < bytes.len() && 48 <= bytes[end] && bytes[end] <= 57
        invariant
            at <= end <= bytes.len(),
            digits_until(bytes@, at as int) == digits_until(bytes@, end as int),
            forall|i: int| at <= i < end ==> is_digit(#[trigger] bytes@[i]),
        decreases bytes.len() - end,
    {
        end += 1;
    }
    end
}

/// The number that the digits in `at..end` denote, unless it exceeds `max`.
fn number(bytes: &[u8], at: usize, end: usize, max: u64) -> (n: Option<u64>)
    requires
        at <= end <= bytes.len(),
        forall|i: int| at <= i < end ==> is_digit(#[trigger] bytes@[i]),
    ensures
        n == (if value_of(bytes@.subrange(at as int, end as int)) <= max {
            Some(value_of(bytes@.subrange(at as int, end as int)) as u64)
        } else {
            None
        }),
{
    let ghost run = bytes@.subrange(at as int, end as int);
    let mut acc: u128 = 0;
    let mut i: usize = at;
    while i < end
        invariant
            at <= i <= end <= bytes.len(),
            run == bytes@.subrange(at as int, end as int),
            forall|j: int| at <= j < end ==> is_digit(#[trigger] bytes@[j]),
            acc == value_of(bytes@.subrange(at as int, i as int)),
            acc <= max,
        decreases end - i,
    {
        let d: u8 = bytes[i] - 48u8;
        proof {
            let next = bytes@.subrange(at as int, i + 1);
            assert(next.drop_last() =~= bytes@.subrange(at as int, i as int));
            assert(next =~= run.subrange(0, i + 1 - at));
            lemma_prefix_value(run, i + 1 - at);
        }
        acc = acc * 10 + d as u128;
        if acc > max as u128 {
            return None;
        }
        i += 1;
    }
    Some(acc as u64)
}

/// Decodes a datagram as a request. It succeeds exactly on the texts that
/// `encode_request` writes, and then gives the request that was written.
pub fn decode_request(bytes: &[u8]) -> (result: Result<Request, DecodeError>)
    ensures
        result == request_in(bytes@),
        result is Ok <==> is_request_text(bytes@),
        result is Ok ==> bytes@ == request_text(result.unwrap()),
{
    proof {
        assert forall|q: Request| bytes@ == #[trigger] request_text(q) implies {
            &&& bytes@.len() >= 10
            &&& value_of(bytes@.subrange(10, digits_until(bytes@, 10))) == q.cookie
        } by {
            lemma_field(cookie_label(), q.cookie as nat, closing());
        }
    }
    if bytes.len() < 10 {
        return Err(DecodeError {});
    }
    let end: usize = digits_end(bytes, 10);
    match number(bytes, 10, end, 0xffff_ffff) {
        None => Err(DecodeError {}),
        Some(n) => {
            let candidate = Request { cookie: n as u32 };
            let text = encode_request(candidate);
            if same_bytes(bytes, text.as_slice()) {
                proof {
                    lemma_request_round_trip(candidate);
                }
                Ok(candidate)
            } else {
                Err(DecodeError {})
            }
        },
    }
}

/// Decodes a datagram as a response. It succeeds exactly on the texts that
/// `encode_response` writes, and then gives the response that was written.
pub fn decode_response(bytes: &[u8]) -> (result: Result<Response, DecodeError>)
    ensures
        result == response_in(bytes@),
        result is Ok <==> is_response_text(bytes@),
        result is Ok ==> bytes@ == response_text(result.unwrap()),
{
    proof {
        assert forall|q: Response| bytes@ == #[trigger] response_text(q) implies {
            let first = digits_until(bytes@, 13);
            let second = digits_until(bytes@, first + 10);
            &&& bytes@.len() == second + 1
            &&& first >= 13
            &&& second >= first + 10
            &&& value_of(bytes@.subrange(13, first)) == q.send_time
            &&& value_of(bytes@.subrange(first + 10, second)) == q.cookie
        } by {
            lemma_response_fields(q);
        }
    }
    if bytes.len() < 13 {
        return Err(DecodeError {});
    }
    let first: usize = digits_end(bytes, 13);
    if bytes.len() - first < 10 {
        return Err(DecodeError {});
    }
    let second: usize = digits_end(bytes, first + 10);
    let send_time = match number(bytes, 13, first, 0xffff_ffff_ffff_ffff) {
        None => {
            return Err(DecodeError {});
        },
        Some(n) => n,
    };
    match number(bytes, first + 10, second, 0xffff_ffff) {
        None => Err(DecodeError {}),
        Some(n) => {
            let candidate = Response { send_time, cookie: n as u32 };
            let text = encode_response(candidate);
            if same_bytes(bytes, text.as_slice()) {
                proof {
                    lemma_response_round_trip(candidate);
                }
                Ok(candidate)
            } else {
                Err(DecodeError {})
            }
        },
    }
}

} // verus!
