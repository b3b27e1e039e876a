//! Text sinks: consumers of sequential character writes that may fail.

use vstd::prelude::*;

verus! {

/// A refused or failed write, as a sink reports it. It carries no payload;
/// the renderer propagates it unchanged and never produces one of its own.
#[derive(Clone, Copy, PartialEq, Eq, Structural, Debug)]
pub struct WriteError;

/// A consumer of sequential textual writes. A write may fail; on failure the
/// sink keeps whatever it had already accepted.
pub trait TextSink {
    /// The text the sink has accepted so far.
    spec fn contents(&self) -> Seq<char>;

    /// Whether this sink accepts every write. An infallible sink stays
    /// infallible after each write, so a whole rendering into it succeeds.
    spec fn infallible(&self) -> bool;

    /// Writes one character: on success exactly `c` is appended to the
    /// contents, and an infallible sink never refuses.
    fn write_char(&mut self, c: char) -> (r: Result<(), WriteError>)
        ensures
            r is Ok ==> final (self).contents() == old(self).contents().push(c),
            old(self).infallible() ==> r is Ok && final (self).infallible(),
    ;
}

/// Relies on String::push: appends the given character to the end of the string.
#[verifier::external_body]
fn push_char(s: &mut String, c: char)
    ensures
        final (s)@ == old(s)@.push(c),
{
    s.push(c)
}

/// A sink that materializes the written text in a `String`. Its writes never
/// fail, so rendering into it always runs to completion.
pub struct StringSink {
    buf: String,
}

impl StringSink {
    /// An empty sink.
    pub fn new() -> (r: StringSink)
        ensures
            r.contents() == Seq::<char>::empty(),
            r.infallible(),
    {
        StringSink { buf: String::new() }
    }

    /// Hands the collected text out.
    pub fn into_string(self) -> (r: String)
        ensures
            r@ == self.contents(),
    {
        self.buf
    }
}

impl TextSink for StringSink {
    closed spec fn contents(&self) -> Seq<char> {
        self.buf@
    }

    closed spec fn infallible(&self) -> bool {
        true
    }

    fn write_char(&mut self, c: char) -> (r: Result<(), WriteError>) {
        push_char(&mut self.buf, c);
        Ok(())
    }
}

/// A sink that accepts at most a fixed number of characters and refuses every
/// write beyond that, keeping what it has; a small fallible sink for callers
/// that want to observe how rendering stops on a failed write.
pub struct BoundedSink {
    accepted: Vec<char>,
    limit: usize,
}

impl BoundedSink {
    /// An empty sink that will accept at most `limit` characters.
    pub fn new(limit: usize) -> (r: BoundedSink)
        ensures
            r.contents() == Seq::<char>::empty(),
            r.remaining() == limit,
    {
        BoundedSink { accepted: Vec::new(), limit }
    }

    /// How many more characters the sink will accept.
    pub closed spec fn remaining(&self) -> int {
        self.limit - self.accepted@.len()
    }

    /// The collected characters, in the order they were accepted.
    pub fn into_chars(self) -> (r: Vec<char>)
        ensures
            r@ == self.contents(),
    {
        self.accepted
    }
}

impl TextSink for BoundedSink {
    closed spec fn contents(&self) -> Seq<char> {
        self.accepted@
    }

    closed spec fn infallible(&self) -> bool {
        false
    }

    fn write_char(&mut self, c: char) -> (r: Result<(), WriteError>)
        ensures
            r is Ok <==> old(self).remaining() > 0,
            r is Ok ==> final (self).remaining() == old(self).remaining() - 1,
            r is Err ==> *final (self) == *old(self),
    {
        if self.accepted.len() < self.limit {
            self.accepted.push(c);
            Ok(())
        } else {
            Err(WriteError)
        }
    }
}

} // verus!
