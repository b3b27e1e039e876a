//! The element capability: a value that renders itself into a text sink,
//! and implementations for the primitive integer types.

use vstd::prelude::*;

use crate::sink::TextSink;
use crate::sink::WriteError;

verus! {

/// A value that renders itself into a text sink. The renderer requires
/// nothing else of an element: no equality, ordering, hashing or cloning.
pub trait Render {
    /// The element's textual rendering.
    spec fn text(&self) -> Seq<char>;

    /// Renders the element into the sink. On success exactly the element's
    /// rendering is appended; on an infallible sink rendering succeeds.
    fn render<S: TextSink>(&self, sink: &mut S) -> (r: Result<(), WriteError>)
        ensures
            r is Ok ==> final (sink).contents() == old(sink).contents() + self.text(),
            old(sink).infallible() ==> r is Ok && final (sink).infallible(),
    ;
}

/// The decimal digit character for `d`.
pub open spec fn digit_char(d: nat) -> char {
    if d == 0 {
        '0'
    } else if d == 1 {
        '1'
    } else if d == 2 {
        '2'
    } else if d == 3 {
        '3'
    } else if d == 4 {
        '4'
    } else if d == 5 {
        '5'
    } else if d == 6 {
        '6'
    } else if d == 7 {
        '7'
    } else if d == 8 {
        '8'
    } else {
        '9'
    }
}

/// The decimal rendering of a natural number: its digits, most significant
/// first, with no sign and no leading zero except for zero itself.
pub open spec fn dec_text(n: nat) -> Seq<char>
    decreases n,
{
    if n < 10 {
        seq![digit_char(n)]
    } else {
        dec_text(n / 10).push(digit_char(n % 10))
    }
}

/// The decimal rendering of an integer: a leading `-` before the magnitude
/// for a negative value.
pub open spec fn int_text(n: int) -> Seq<char> {
    if n < 0 {
        seq!['-'] + dec_text((-n) as nat)
    } else {
        dec_text(n as nat)
    }
}

fn digit_char_exec(d: u64) -> (c: char)
    requires
        d < 10,
    ensures
        c == digit_char(d as nat),
{
    if d == 0 {
        '0'
    } else if d == 1 {
        '1'
    } else if d == 2 {
        '2'
    } else if d == 3 {
        '3'
    } else if d == 4 {
        '4'
    } else if d == 5 {
        '5'
    } else if d == 6 {
        '6'
    } else if d == 7 {
        '7'
    } else if d == 8 {
        '8'
    } else {
        '9'
    }
}

/// The decimal digits of `n`, most significant first.
fn dec_chars(n: u64) -> (v: Vec<char>)
    ensures
        v@ == dec_text(n as nat),
{
    let mut rev: Vec<char> = Vec::new();
    rev.push(digit_char_exec(n % 10));
    let mut m: u64 = n / 10;
    while m > 0
        invariant
            m > 0 ==> dec_text(n as nat) == dec_text(m as nat) + rev@.reverse(),
            m == 0 ==> dec_text(n as nat) == rev@.reverse(),
            rev@.len() >= 1,
        decreases m,
    {
        let ghost prev = rev@;
        let ghost pm = m as nat;
        rev.push(digit_char_exec(m % 10));
        proof {
            assert(rev@ =~= prev.push(digit_char(pm % 10)));
            assert(rev@.reverse() =~= seq![digit_char(pm % 10)] + prev.reverse());
            assert(dec_text(pm) == dec_text(pm / 10).push(digit_char(pm % 10)) || pm < 10);
            if pm < 10 {
                assert(dec_text(n as nat) =~= rev@.reverse());
            } else {
                assert(dec_text(pm) =~= dec_text(pm / 10) + seq![digit_char(pm % 10)]);
                assert(dec_text(n as nat) =~= dec_text(pm / 10) + rev@.reverse());
            }
        }
        m = m / 10;
    }
    let mut out: Vec<char> = Vec::new();
    let n_digits = rev.len();
    let mut i: usize = 0;
    while i < n_digits
        invariant
            n_digits == rev@.len(),
            0 <= i <= n_digits,
            out@ =~= rev@.reverse().take(i as int),
        decreases n_digits - i,
    {
        out.push(rev[n_digits - 1 - i]);
        proof {
            assert(rev@.reverse()[i as int] == rev@[n_digits - 1 - i]);
            assert(out@ =~= rev@.reverse().take(i + 1));
        }
        i = i + 1;
    }
    proof {
        assert(out@ =~= rev@.reverse());
    }
    out
}

/// Writes the decimal rendering of `n` into the sink, character by
/// character, stopping at the first refused write.
fn render_u64<S: TextSink>(sink: &mut S, n: u64) -> (r: Result<(), WriteError>)
    ensures
        r is Ok ==> final (sink).contents() == old(sink).contents() + dec_text(n as nat),
        old(sink).infallible() ==> r is Ok && final (sink).infallible(),
{
    let digits = dec_chars(n);
    let count = digits.len();
    let mut i: usize = 0;
    while i < count
        invariant
            count == digits@.len(),
            digits@ == dec_text(n as nat),
            0 <= i <= count,
            sink.contents() == old(sink).contents() + digits@.take(i as int),
            old(sink).infallible() ==> sink.infallible(),
        decreases count - i,
    {
        let r = sink.write_char(digits[i]);
        if r.is_err() {
            return r;
        }
        proof {
            assert(digits@.take(i + 1) =~= digits@.take(i as int).push(digits@[i as int]));
            assert(sink.contents() =~= old(sink).contents() + digits@.take(i + 1));
        }
        i = i + 1;
    }
    proof {
        assert(digits@.take(count as int) =~= digits@);
    }
    Ok(())
}

/// Writes the decimal rendering of `n`, with a leading `-` when `n` is
/// negative, into the sink.
fn render_i64<S: TextSink>(sink: &mut S, n: i64) -> (r: Result<(), WriteError>)
    ensures
        r is Ok ==> final (sink).contents() == old(sink).contents() + int_text(n as int),
        old(sink).infallible() ==> r is Ok && final (sink).infallible(),
{
    if n < 0 {
        let r = sink.write_char('-');
        if r.is_err() {
            return r;
        }
        let magnitude: u64 = if n == i64::MIN {
            9223372036854775808u64
        } else {
            (-n) as u64
        };
        let ghost mid = sink.contents();
        let r2 = render_u64(sink, magnitude);
        proof {
            if r2 is Ok {
                assert(mid =~= old(sink).contents().push('-'));
                assert(old(sink).contents().push('-') + dec_text(magnitude as nat) =~= old(
                    sink,
                ).contents() + int_text(n as int));
            }
        }
        r2
    } else {
        render_u64(sink, n as u64)
    }
}

impl Render for u8 {
    open spec fn text(&self) -> Seq<char> {
        dec_text(*self as nat)
    }

    fn render<S: TextSink>(&self, sink: &mut S) -> (r: Result<(), WriteError>) {
        render_u64(sink, *self as u64)
    }
}

impl Render for u16 {
    open spec fn text(&self) -> Seq<char> {
        dec_text(*self as nat)
    }

    fn render<S: TextSink>(&self, sink: &mut S) -> (r: Result<(), WriteError>) {
        render_u64(sink, *self as u64)
    }
}

impl Render for u32 {
    open spec fn text(&self) -> Seq<char> {
        dec_text(*self as nat)
    }

    fn render<S: TextSink>(&self, sink: &mut S) -> (r: Result<(), WriteError>) {
        render_u64(sink, *self as u64)
    }
}

impl Render for u64 {
    open spec fn text(&self) -> Seq<char> {
        dec_text(*self as nat)
    }

    fn render<S: TextSink>(&self, sink: &mut S) -> (r: Result<(), WriteError>) {
        render_u64(sink, *self)
    }
}

impl Render for usize {
    open spec fn text(&self) -> Seq<char> {
        dec_text(*self as nat)
    }

    fn render<S: TextSink>(&self, sink: &mut S) -> (r: Result<(), WriteError>) {
        render_u64(sink, *self as u64)
    }
}

impl Render for i32 {
    open spec fn text(&self) -> Seq<char> {
        int_text(*self as int)
    }

    fn render<S: TextSink>(&self, sink: &mut S) -> (r: Result<(), WriteError>) {
        render_i64(sink, *self as i64)
    }
}

impl Render for i64 {
    open spec fn text(&self) -> Seq<char> {
        int_text(*self as int)
    }

    fn render<S: TextSink>(&self, sink: &mut S) -> (r: Result<(), WriteError>) {
        render_i64(sink, *self)
    }
}

impl Render for char {
    open spec fn text(&self) -> Seq<char> {
        seq![*self]
    }

    fn render<S: TextSink>(&self, sink: &mut S) -> (r: Result<(), WriteError>) {
        let r = sink.write_char(*self);
        proof {
            if r is Ok {
                assert(old(sink).contents().push(*self) =~= old(sink).contents() + seq![*self]);
            }
        }
        r
    }
}

} // verus!
