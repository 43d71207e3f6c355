//! Message framing: every message on the wire is its payload followed by the
//! four bytes `\r\n\r\n`. The scanner reassembles payloads from a byte stream
//! fed one byte or one chunk at a time.
use vstd::prelude::*;

verus! {

pub const CR: u8 = 13;

pub const LF: u8 = 10;

/// The bytes that close every message.
pub open spec fn terminator() -> Seq<u8> {
    seq![CR, LF, CR, LF]
}

/// `s` holds the terminator starting at index `i`.
pub open spec fn terminator_at(s: Seq<u8>, i: int) -> bool {
    &&& 0 <= i
    &&& i + 4 <= s.len()
    &&& s[i] == CR
    &&& s[i + 1] == LF
    &&& s[i + 2] == CR
    &&& s[i + 3] == LF
}

pub open spec fn contains_terminator(s: Seq<u8>) -> bool {
    exists|i: int| terminator_at(s, i)
}

/// `wire` is exactly one message carrying `payload`: the payload, then the
/// terminator, and no terminator that starts earlier.
pub open spec fn is_frame(wire: Seq<u8>, payload: Seq<u8>) -> bool {
    &&& wire == payload + terminator()
    &&& forall|i: int| 0 <= i < payload.len() ==> !terminator_at(wire, i)
}

/// `s` ends with the byte `CR` followed by `LF`.
pub open spec fn ends_with_crlf(s: Seq<u8>) -> bool {
    s.len() >= 2 && s[s.len() - 2] == CR && s[s.len() - 1] == LF
}

/// How many bytes at the end of `s` may still be the start of a terminator:
/// the longest proper prefix of the terminator that `s` ends with.
pub open spec fn pending_len(s: Seq<u8>) -> nat {
    let n = s.len();
    if n >= 3 && s[n - 3] == CR && s[n - 2] == LF && s[n - 1] == CR {
        3
    } else if n >= 2 && s[n - 2] == CR && s[n - 1] == LF {
        2
    } else if n >= 1 && s[n - 1] == CR {
        1
    } else {
        0
    }
}

/// One observation of a non-blocking read of a single byte.
pub enum ReadEvent {
    /// One byte arrived.
    Byte(u8),
    /// The peer closed the stream.
    EndOfStream,
    /// No data is available yet.
    WouldBlock,
    /// The connection was reset.
    Reset,
    /// Any other transport error.
    Failed,
}

/// What the reading side does after a `ReadEvent`.
#[derive(PartialEq, Eq, Structural, Clone, Copy, Debug)]
pub enum ReadStep {
    /// Read again at once.
    Continue,
    /// Sleep one poll interval, then read again.
    Wait,
    /// A whole message has arrived.
    Complete,
    /// The connection was reset: stop.
    Reset,
    /// The stream ended or failed: stop.
    Failed,
}

/// Incremental scanner for one message. It keeps every byte that is not part
/// of the terminator, including bytes of a false start such as `\r\n` followed
/// by another byte.
pub struct FrameScanner {
    pending: usize,
    payload: Vec<u8>,
    complete: bool,
    received: Ghost<Seq<u8>>,
}

impl FrameScanner {
    /// All bytes fed to the scanner so far.
    pub closed spec fn received(&self) -> Seq<u8> {
        self.received@
    }

    /// The payload bytes gathered so far.
    pub closed spec fn payload(&self) -> Seq<u8> {
        self.payload@
    }

    pub closed spec fn is_complete(&self) -> bool {
        self.complete
    }

    pub closed spec fn wf(&self) -> bool {
        &&& self.pending <= 3
        &&& !self.complete ==> {
            &&& self.received@ == self.payload@ + terminator().take(self.pending as int)
            &&& self.pending == pending_len(self.received@)
            &&& !contains_terminator(self.received@)
        }
        &&& self.complete ==> is_frame(self.received@, self.payload@)
    }

    pub fn new() -> (r: Self)
        ensures
            r.wf(),
            r.received() == Seq::<u8>::empty(),
            !r.is_complete(),
    {
        let r = FrameScanner {
            pending: 0,
            payload: Vec::new(),
            complete: false,
            received: Ghost(Seq::empty()),
        };
        assert(r.received@ =~= r.payload@ + terminator().take(0));
        r
    }

    pub fn complete(&self) -> (r: bool)
        ensures
            r == self.is_complete(),
    {
        self.complete
    }

    /// Feeds one byte. The scanner completes exactly when the bytes received
    /// first hold the terminator, and then holds the bytes before it.
    pub fn push_byte(&mut self, b: u8)
        requires
            old(self).wf(),
            !old(self).is_complete(),
        ensures
            final(self).wf(),
            final(self).received() == old(self).received().push(b),
            final(self).is_complete() == contains_terminator(final(self).received()),
            final(self).is_complete() ==> is_frame(final(self).received(), final(self).payload()),
    {
        let ghost old_rec = self.received@;
        let ghost old_pay = self.payload@;
        let ghost rec = old_rec.push(b);
        let ghost n = old_rec.len() as int;
        proof {
            self.received = Ghost(rec);
            assert(forall|i: int| 0 <= i < n - 3 ==> (terminator_at(rec, i) <==> terminator_at(old_rec, i)));
            assert(terminator_at(rec, n - 3) ==> terminator_at(rec, n - 3));
        }
        if self.pending == 0 {
            if b == CR {
                self.pending = 1;
            } else {
                self.payload.push(b);
            }
        } else if self.pending == 1 {
            if b == LF {
                self.pending = 2;
            } else if b == CR {
                self.payload.push(CR);
            } else {
                self.payload.push(CR);
                self.payload.push(b);
                self.pending = 0;
            }
        } else if self.pending == 2 {
            if b == CR {
                self.pending = 3;
            } else {
                self.payload.push(CR);
                self.payload.push(LF);
                self.payload.push(b);
                self.pending = 0;
            }
        } else {
            if b == LF {
                self.complete = true;
            } else if b == CR {
                self.payload.push(CR);
                self.payload.push(LF);
                self.payload.push(CR);
                self.pending = 1;
            } else {
                self.payload.push(CR);
                self.payload.push(LF);
                self.payload.push(CR);
                self.payload.push(b);
                self.pending = 0;
            }
        }
        proof {
            if self.complete {
                assert(rec =~= self.payload@ + terminator());
                assert(terminator_at(rec, n - 3));
            } else {
                assert(rec =~= self.payload@ + terminator().take(self.pending as int));
                assert(!contains_terminator(rec)) by {
                    if contains_terminator(rec) {
                        let i = choose|i: int| terminator_at(rec, i);
                        if i < n - 3 {
                            assert(terminator_at(old_rec, i));
                        }
                    }
                }
            }
        }
    }

    /// Feeds bytes of `chunk` until a message is complete or the chunk is
    /// used up, and returns how many bytes were taken.
    pub fn feed(&mut self, chunk: &[u8]) -> (r: usize)
        requires
            old(self).wf(),
            !old(self).is_complete(),
        ensures
            final(self).wf(),
            r <= chunk@.len(),
            final(self).received() == old(self).received() + chunk@.take(r as int),
            final(self).is_complete() == contains_terminator(final(self).received()),
            !final(self).is_complete() ==> r == chunk@.len(),
            final(self).is_complete() ==> is_frame(final(self).received(), final(self).payload()),
    {
        let mut i: usize = 0;
        while i < chunk.len() && !self.complete
            invariant
                self.wf(),
                i <= chunk@.len(),
                self.received() == old(self).received() + chunk@.take(i as int),
                self.is_complete() == contains_terminator(self.received()),
            decreases chunk@.len() - i,
        {
            self.push_byte(chunk[i]);
            assert(chunk@.take(i + 1) =~= chunk@.take(i as int).push(chunk@[i as int]));
            i = i + 1;
        }
        i
    }

    /// Applies one read observation: a byte is scanned, no data asks for a
    /// poll wait, a reset or any other failure (the end of the stream
    /// included) stops the read.
    pub fn on_event(&mut self, ev: ReadEvent) -> (r: ReadStep)
        requires
            old(self).wf(),
            !old(self).is_complete(),
        ensures
            final(self).wf(),
            match ev {
                ReadEvent::Byte(b) => {
                    &&& final(self).received() == old(self).received().push(b)
                    &&& final(self).is_complete() == contains_terminator(final(self).received())
                    &&& r == (if final(self).is_complete() { ReadStep::Complete } else { ReadStep::Continue })
                },
                ReadEvent::EndOfStream => *final(self) == *old(self) && r == ReadStep::Failed,
                ReadEvent::WouldBlock => *final(self) == *old(self) && r == ReadStep::Wait,
                ReadEvent::Reset => *final(self) == *old(self) && r == ReadStep::Reset,
                ReadEvent::Failed => *final(self) == *old(self) && r == ReadStep::Failed,
            },
            final(self).is_complete() ==> is_frame(final(self).received(), final(self).payload()),
    {
        match ev {
            ReadEvent::Byte(b) => {
                self.push_byte(b);
                if self.complete {
                    ReadStep::Complete
                } else {
                    ReadStep::Continue
                }
            },
            ReadEvent::EndOfStream => ReadStep::Failed,
            ReadEvent::WouldBlock => ReadStep::Wait,
            ReadEvent::Reset => ReadStep::Reset,
            ReadEvent::Failed => ReadStep::Failed,
        }
    }

    /// Hands out the payload of a complete message.
    pub fn into_payload(self) -> (r: Vec<u8>)
        requires
            self.wf(),
            self.is_complete(),
        ensures
            is_frame(self.received(), r@),
    {
        self.payload
    }
}

/// The payload of the first message in `input`, with the number of bytes
/// that message takes; `None` when `input` holds no terminator.
pub fn decode_frame(input: &[u8]) -> (r: Option<(Vec<u8>, usize)>)
    ensures
        match r {
            Some((p, n)) => n <= input@.len() && is_frame(input@.take(n as int), p@),
            None => !contains_terminator(input@),
        },
{
    let mut sc = FrameScanner::new();
    let n = sc.feed(input);
    if sc.complete() {
        Some((sc.into_payload(), n))
    } else {
        assert(input@.take(n as int) =~= input@);
        None
    }
}

/// The wire form of a message: its payload followed by the terminator.
pub fn encode_frame(payload: &[u8]) -> (r: Vec<u8>)
    ensures
        r@ == payload@ + terminator(),
{
    let mut out: Vec<u8> = Vec::new();
    let mut i: usize = 0;
    while i < payload.len()
        invariant
            i <= payload@.len(),
            out@ == payload@.take(i as int),
        decreases payload@.len() - i,
    {
        out.push(payload[i]);
        assert(payload@.take(i + 1) =~= payload@.take(i as int).push(payload@[i as int]));
        i = i + 1;
    }
    out.push(CR);
    out.push(LF);
    out.push(CR);
    out.push(LF);
    assert(out@ =~= payload@ + terminator());
    out
}

/// A payload comes back unchanged from its wire form whenever it holds no
/// terminator and does not end with `\r\n`: fed in any chunks, the scanner
/// completes exactly at the end of the wire form and yields the payload.
/// (A payload ending with `\r\n` runs into the terminator that follows it.)
pub proof fn lemma_frame_round_trip(p: Seq<u8>)
    requires
        !contains_terminator(p),
        !ends_with_crlf(p),
    ensures
        is_frame(p + terminator(), p),
        forall|q: Seq<u8>| is_frame(p + terminator(), q) ==> q == p,
        forall|n: int| 0 <= n < p.len() + 4 ==> !contains_terminator((p + terminator()).take(n)),
{
    let w = p + terminator();
    let m = p.len() as int;
    assert forall|i: int| 0 <= i < m implies !terminator_at(w, i) by {
        if terminator_at(w, i) {
            if i + 4 <= m {
                assert(terminator_at(p, i));
            } else if i == m - 1 {
                assert(w[i + 1] == terminator()[0]);
            } else if i == m - 2 {
                assert(w[i + 2] == terminator()[0]);
                assert(w[i + 3] == terminator()[1]);
                assert(ends_with_crlf(p));
            } else {
                assert(i == m - 3);
                assert(w[i + 3] == terminator()[0]);
            }
        }
    }
    assert forall|q: Seq<u8>| is_frame(w, q) implies q == p by {
        assert(q =~= w.take(q.len() as int));
        assert(p =~= w.take(m));
    }
    assert forall|n: int| 0 <= n < m + 4 implies !contains_terminator(#[trigger] w.take(n)) by {
        if contains_terminator(w.take(n)) {
            let i = choose|i: int| terminator_at(w.take(n), i);
            assert(terminator_at(w, i));
        }
    }
}

} // verus!
