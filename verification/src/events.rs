//! The event stream: frames arrive from the peer one by one, each is read as
//! an event, and the stream hands on those that its filter lets through.
//!
//! On the wire an event is a version byte, a byte for its kind, and its
//! payload as a byte string.

use vstd::prelude::*;
use crate::error::DecodeError;
use crate::wire::blob;
use crate::wire::holds_at;
use crate::wire::lemma_parse_blob;
use crate::wire::parse_blob;
use crate::wire::read_blob;
use crate::wire::write_blob;
use crate::wire::MAX_LEN;

verus! {

/// The one version of an event's wire form that this library reads and
/// writes.
pub const EVENT_VERSION: u8 = 1;

/// A notification of a change on the ledger. The payload is carried, not
/// looked into.
#[derive(Debug, Clone, PartialEq, Eq)]
pub struct Event {
    pub kind: u8,
    pub payload: Vec<u8>,
}

/// Which events a subscriber asks for: those of one kind, or all.
#[derive(Debug, Clone, Copy, PartialEq, Eq, Structural)]
pub struct Filter {
    pub kind: Option<u8>,
}

/// What one pull on the stream gives.
#[derive(Debug, Clone, PartialEq, Eq)]
pub enum Pull {
    /// The next event.
    Yield(Event),
    /// A frame held an event that the filter does not let through.
    Skipped,
    /// A frame could not be read; the stream stays open.
    Failed(DecodeError),
    /// The stream has ended, now or before.
    Ended,
}

/// A stream of events. Once ended it stays ended.
pub struct EventIterator {
    filter: Filter,
    ended: bool,
}

/// The wire form of an event.
pub open spec fn event_form(kind: u8, payload: Seq<u8>) -> Seq<u8> {
    seq![EVENT_VERSION, kind] + blob(payload)
}

/// What reading `s` as an event gives: its kind and its payload.
pub open spec fn parse_event(s: Seq<u8>) -> Result<(u8, Seq<u8>), DecodeError> {
    if s.len() == 0 {
        Err(DecodeError::Empty)
    } else if s[0] != EVENT_VERSION {
        Err(DecodeError::UnknownVersion(s[0]))
    } else if s.len() < 2 {
        Err(DecodeError::Malformed)
    } else {
        match parse_blob(s, 2) {
            Some((payload, end)) => if end == s.len() {
                Ok((s[1], payload))
            } else {
                Err(DecodeError::Malformed)
            },
            None => Err(DecodeError::Malformed),
        }
    }
}

/// Whether the filter lets an event of `kind` through.
pub open spec fn lets_through(filter: Filter, kind: u8) -> bool {
    match filter.kind {
        Some(k) => k == kind,
        None => true,
    }
}

/// An event is read back from its wire form as it was.
pub proof fn lemma_event_round_trip(kind: u8, payload: Seq<u8>)
    requires
        payload.len() <= MAX_LEN,
    ensures
        parse_event(event_form(kind, payload)) == Ok::<(u8, Seq<u8>), DecodeError>((kind, payload)),
{
    let s = event_form(kind, payload);
    assert(s.subrange(2, (2 + blob(payload).len()) as int) =~= blob(payload));
    assert(holds_at(s, 2, blob(payload)));
    lemma_parse_blob(s, 2, payload);
    assert(s[0] == EVENT_VERSION && s[1] == kind);
}

impl Event {
    /// The wire form.
    pub fn to_bytes(&self) -> (out: Vec<u8>)
        requires
            self.payload@.len() <= MAX_LEN,
        ensures
            out@ == event_form(self.kind, self.payload@),
            parse_event(out@) == Ok::<(u8, Seq<u8>), DecodeError>((self.kind, self.payload@)),
    {
        let mut out: Vec<u8> = Vec::new();
        out.push(EVENT_VERSION);
        out.push(self.kind);
        assert(out@ =~= seq![EVENT_VERSION, self.kind]);
        write_blob(&mut out, &self.payload);
        proof {
            lemma_event_round_trip(self.kind, self.payload@);
        }
        out
    }

    /// Reads an event from one frame.
    pub fn from_bytes(frame: &[u8]) -> (r: Result<Event, DecodeError>)
        ensures
            match r {
                Ok(e) => parse_event(frame@) == Ok::<(u8, Seq<u8>), DecodeError>(
                    (e.kind, e.payload@),
                ),
                Err(e) => parse_event(frame@) == Err::<(u8, Seq<u8>), DecodeError>(e),
            },
    {
        if frame.len() == 0 {
            return Err(DecodeError::Empty);
        }
        if frame[0] != EVENT_VERSION {
            return Err(DecodeError::UnknownVersion(frame[0]));
        }
        if frame.len() < 2 {
            return Err(DecodeError::Malformed);
        }
        match read_blob(frame, 2) {
            Some((payload, end)) => {
                if end == frame.len() {
                    Ok(Event { kind: frame[1], payload })
                } else {
                    Err(DecodeError::Malformed)
                }
            },
            None => Err(DecodeError::Malformed),
        }
    }
}

impl Filter {
    /// Whether the filter lets `event` through.
    pub fn matches(&self, event: &Event) -> (b: bool)
        ensures
            b == lets_through(*self, event.kind),
    {
        match self.kind {
            Some(k) => k == event.kind,
            None => true,
        }
    }
}

impl EventIterator {
    pub closed spec fn filter(&self) -> Filter {
        self.filter
    }

    pub closed spec fn ended(&self) -> bool {
        self.ended
    }

    /// An open stream with that filter.
    pub fn new(filter: Filter) -> (s: EventIterator)
        ensures
            s.filter() == filter,
            !s.ended(),
    {
        EventIterator { filter, ended: false }
    }

    /// Whether the stream has ended.
    pub fn is_ended(&self) -> (b: bool)
        ensures
            b == self.ended(),
    {
        self.ended
    }

    /// Ends the stream; every later pull gives `Ended`.
    pub fn close(&mut self)
        ensures
            final(self).ended(),
            final(self).filter() == old(self).filter(),
    {
        self.ended = true;
    }

    /// One pull: `frame` is what the channel delivered, `None` where it was
    /// closed. An ended stream gives `Ended` whatever arrives. A frame that
    /// cannot be read gives `Failed` with the reason and leaves the stream
    /// open; an event that the filter does not let through gives `Skipped`.
    pub fn next(&mut self, frame: Option<&[u8]>) -> (r: Pull)
        ensures
            final(self).filter() == old(self).filter(),
            final(self).ended() == (old(self).ended() || frame is None),
            match r {
                Pull::Ended => old(self).ended() || frame is None,
                Pull::Yield(e) => !old(self).ended() && frame is Some && parse_event(
                    frame->Some_0@,
                ) == Ok::<(u8, Seq<u8>), DecodeError>((e.kind, e.payload@)) && lets_through(
                    old(self).filter(),
                    e.kind,
                ),
                Pull::Skipped => !old(self).ended() && frame is Some && parse_event(
                    frame->Some_0@,
                ) is Ok && !lets_through(old(self).filter(), parse_event(frame->Some_0@)->Ok_0.0),
                Pull::Failed(e) => !old(self).ended() && frame is Some && parse_event(
                    frame->Some_0@,
                ) == Err::<(u8, Seq<u8>), DecodeError>(e),
            },
    {
        if self.ended {
            return Pull::Ended;
        }
        match frame {
            None => {
                self.ended = true;
                Pull::Ended
            },
            Some(bytes) => match Event::from_bytes(bytes) {
                Ok(event) => {
                    if self.filter.matches(&event) {
                        Pull::Yield(event)
                    } else {
                        Pull::Skipped
                    }
                },
                Err(e) => Pull::Failed(e),
            },
        }
    }
}

} // verus!
