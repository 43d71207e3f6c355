//! Decisions of the chat loop: what one received message turns into.
use vstd::prelude::*;
use vstd::utf8::encode_utf8;
use crate::frame::{encode_frame, terminator};
use crate::text::{decode_lossy, lossy_text};
use chrono::Timelike;

verus! {

/// A wall-clock time of day as shown in chat lines. The second is 60
/// during a leap second.
#[derive(PartialEq, Eq, Structural, Clone, Copy, Debug)]
pub struct ClockTime {
    pub hour: u8,
    pub minute: u8,
    pub second: u8,
}

impl ClockTime {
    pub open spec fn wf(&self) -> bool {
        self.hour < 24 && self.minute < 60 && self.second <= 60
    }

    /// The time of day from the clock's hour, minute, second and nanosecond
    /// of the second; a nanosecond count of one billion or more marks a
    /// leap second.
    pub fn from_parts(hour: u32, minute: u32, second: u32, nanosecond: u32) -> (r: ClockTime)
        requires
            hour < 24,
            minute < 60,
            second < 60,
        ensures
            r.wf(),
            r.hour == hour,
            r.minute == minute,
            r.second == (if nanosecond >= 1_000_000_000 { second + 1 } else { second as int }),
    {
        let s: u32 = if nanosecond >= 1_000_000_000 {
            second + 1
        } else {
            second
        };
        ClockTime { hour: hour as u8, minute: minute as u8, second: s as u8 }
    }
}

/// Relies on `chrono::Local::now` and the `Timelike` accessors of its
/// result: hour below 24, minute and second below 60, nanosecond below two
/// billion (the upper billion marks a leap second).
#[verifier::external_body]
fn local_clock() -> (r: (u32, u32, u32, u32))
    ensures
        r.0 < 24,
        r.1 < 60,
        r.2 < 60,
        r.3 < 2_000_000_000,
{
    let now = chrono::Local::now();
    (now.hour(), now.minute(), now.second(), now.nanosecond())
}

/// The local time of day now.
pub fn local_time() -> (r: ClockTime)
    ensures
        r.wf(),
{
    let (h, m, s, ns) = local_clock();
    ClockTime::from_parts(h, m, s, ns)
}

pub open spec fn digit(n: int) -> u8 {
    (48 + n) as u8
}

pub open spec fn two_digits(n: int) -> Seq<u8> {
    seq![digit(n / 10), digit(n % 10)]
}

/// `[HH:MM:SS]` in ASCII.
pub open spec fn stamp(t: ClockTime) -> Seq<u8> {
    seq![91u8] + two_digits(t.hour as int) + seq![58u8] + two_digits(t.minute as int) + seq![58u8]
        + two_digits(t.second as int) + seq![93u8]
}

/// The line broadcast for a message: `[HH:MM:SS]<name>:<message>`.
pub open spec fn chat_line(t: ClockTime, name: Seq<char>, msg: Seq<char>) -> Seq<u8> {
    stamp(t) + encode_utf8(name) + seq![58u8] + encode_utf8(msg)
}

/// What the chat loop does with one received message.
pub enum ChatAction {
    /// An empty message: read the next one.
    Ignore,
    /// The exit command: send this message back to the sender, then stop.
    Exit(Vec<u8>),
    /// Send this message to every live session, the sender included.
    Broadcast(Vec<u8>),
}

fn append_bytes(out: &mut Vec<u8>, b: &[u8])
    ensures
        final(out)@ == old(out)@ + b@,
{
    let mut i: usize = 0;
    while i < b.len()
        invariant
            i <= b@.len(),
            out@ == old(out)@ + b@.take(i as int),
        decreases b@.len() - i,
    {
        out.push(b[i]);
        assert(b@.take(i + 1) =~= b@.take(i as int).push(b@[i as int]));
        i = i + 1;
    }
    assert(b@.take(b@.len() as int) =~= b@);
}

fn push_two_digits(out: &mut Vec<u8>, n: u8)
    requires
        n < 100,
    ensures
        final(out)@ == old(out)@ + two_digits(n as int),
{
    out.push(48 + n / 10);
    out.push(48 + n % 10);
    assert(final(out)@ =~= old(out)@ + two_digits(n as int));
}

/// The broadcast line for `msg` from `name` at `t`, without the terminator.
pub fn format_chat_line(t: ClockTime, name: &str, msg: &str) -> (r: Vec<u8>)
    requires
        t.wf(),
    ensures
        r@ == chat_line(t, name@, msg@),
{
    let mut out: Vec<u8> = Vec::new();
    out.push(91u8);
    push_two_digits(&mut out, t.hour);
    out.push(58u8);
    push_two_digits(&mut out, t.minute);
    out.push(58u8);
    push_two_digits(&mut out, t.second);
    out.push(93u8);
    assert(out@ =~= stamp(t));
    append_bytes(&mut out, name.as_bytes());
    out.push(58u8);
    append_bytes(&mut out, msg.as_bytes());
    assert(out@ =~= chat_line(t, name@, msg@));
    out
}

/// `r` sends the wire form of the exit command back to the sender.
pub open spec fn is_exit_echo(r: &ChatAction) -> bool {
    match r {
        ChatAction::Exit(f) => f@ == encode_utf8(exit_command()) + terminator(),
        _ => false,
    }
}

/// `r` broadcasts the wire form of `line`.
pub open spec fn is_broadcast_of(r: &ChatAction, line: Seq<u8>) -> bool {
    match r {
        ChatAction::Broadcast(f) => f@ == line + terminator(),
        _ => false,
    }
}

/// The command that ends a chat session.
pub open spec fn exit_command() -> Seq<char> {
    "/exit"@
}

/// The action for the message `msg` from the client shown as `name`, received at `t`.
pub fn chat_action(name: &str, msg: &str, t: ClockTime) -> (r: ChatAction)
    requires
        t.wf(),
    ensures
        msg@.len() == 0 ==> r is Ignore,
        msg@.len() != 0 && msg@ == exit_command() ==> is_exit_echo(&r),
        msg@.len() != 0 && msg@ != exit_command() ==> is_broadcast_of(&r, chat_line(t, name@, msg@)),
{
    if msg.unicode_len() == 0 {
        ChatAction::Ignore
    } else if String::from_str(msg) == String::from_str("/exit") {
        ChatAction::Exit(encode_frame("/exit".as_bytes()))
    } else {
        let line = format_chat_line(t, name, msg);
        ChatAction::Broadcast(encode_frame(line.as_slice()))
    }
}

/// The action for one message as it came off the wire, from the client
/// shown as `name`; a broadcast is stamped with the local time of receipt.
pub fn on_chat_payload(name: &str, payload: &[u8]) -> (r: ChatAction)
    ensures
        ({
            let msg = lossy_text(payload@);
            &&& msg.len() == 0 ==> r is Ignore
            &&& msg.len() != 0 && msg == exit_command() ==> is_exit_echo(&r)
            &&& msg.len() != 0 && msg != exit_command() ==> exists|t: ClockTime|
                t.wf() && is_broadcast_of(&r, chat_line(t, name@, msg))
        }),
{
    let text = decode_lossy(payload);
    let msg = text.as_str();
    if msg.unicode_len() == 0 {
        ChatAction::Ignore
    } else if text == String::from_str("/exit") {
        ChatAction::Exit(encode_frame("/exit".as_bytes()))
    } else {
        let t = local_time();
        chat_action(name, msg, t)
    }
}

} // verus!
