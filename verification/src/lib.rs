//! A configurable textual rendering of a borrowed slice of elements.
//!
//! A sequence is rendered as `open e0 delim e1 delim ... en close`, with an
//! optional space after each delimiter. The decoration is configured through
//! builder operations on a lightweight handle that borrows the slice; the
//! rendered text streams into any [`sink::TextSink`].

use vstd::prelude::*;

pub mod chrome;
pub mod element;
pub mod output;
pub mod sink;

use crate::chrome::Chrome;
use crate::chrome::default_chrome;
use crate::element::Render;
use crate::output::body_text;
use crate::output::chain_text;
use crate::output::lemma_body_split;
use crate::output::lemma_chain_push;
use crate::output::output_text;
use crate::sink::StringSink;
use crate::sink::TextSink;
use crate::sink::WriteError;

verus! {

/// The renderings of the elements of `s`, in order.
pub open spec fn texts_of<T: Render>(s: Seq<T>) -> Seq<Seq<char>> {
    s.map(|i: int, e: T| e.text())
}

/// A container whose elements can be rendered as a decorated sequence.
pub trait SliceDisplay<T: Render> {
    /// The elements the container holds, in order.
    spec fn elements(&self) -> Seq<T>;

    /// Returns a renderer handle over the container's elements, decorated
    /// with the default chrome. The handle is inert: nothing is rendered
    /// until it is handed to a sink.
    #[must_use]
    fn display(&self) -> (r: SliceDisplayImpl<'_, T>)
        ensures
            r.slice@ == self.elements(),
            r.chrome == default_chrome(),
    ;
}

/// A renderer handle: a borrowed slice of elements paired with the
/// decoration to render them with. Cheap to copy; rendering never mutates
/// the slice or the handle.
#[derive(Clone, Copy)]
pub struct SliceDisplayImpl<'a, T> {
    pub slice: &'a [T],
    pub chrome: Chrome,
}

impl<'a, T: Render> SliceDisplayImpl<'a, T> {
    /// The text this handle renders: the output grammar applied to its
    /// decoration and its elements' renderings.
    pub open spec fn rendered(&self) -> Seq<char> {
        output_text(self.chrome, texts_of(self.slice@))
    }

    /// Returns the handle with both terminators replaced; the delimiter,
    /// the spacing flag and the slice are kept.
    pub fn terminator(self, beginning: char, ending: char) -> (r: Self)
        ensures
            r.chrome == self.chrome.with_terminators(beginning, ending),
            r.slice == self.slice,
    {
        SliceDisplayImpl {
            slice: self.slice,
            chrome: Chrome { open: beginning, close: ending, ..self.chrome },
        }
    }

    /// Returns the handle with the delimiter replaced; everything else is
    /// kept.
    pub fn delimiter(self, delimiter: char) -> (r: Self)
        ensures
            r.chrome == self.chrome.with_delimiter(delimiter),
            r.slice == self.slice,
    {
        SliceDisplayImpl { slice: self.slice, chrome: Chrome { delim: delimiter, ..self.chrome } }
    }

    /// Returns the handle with the spacing flag replaced; everything else
    /// is kept.
    pub fn should_space(self, should_space: bool) -> (r: Self)
        ensures
            r.chrome == self.chrome.with_spacing(should_space),
            r.slice == self.slice,
    {
        SliceDisplayImpl {
            slice: self.slice,
            chrome: Chrome { space_after_delim: should_space, ..self.chrome },
        }
    }

    /// Renders the handle into the sink: the opening terminator, the
    /// elements joined by the delimiter (and a space, when configured), and
    /// the closing terminator. On success exactly that text is appended to
    /// the sink; the first refused write stops the emission and is returned
    /// unchanged, and an infallible sink renders completely.
    pub fn render_to<S: TextSink>(&self, sink: &mut S) -> (r: Result<(), WriteError>)
        ensures
            r is Ok ==> final (sink).contents() == old(sink).contents() + self.rendered(),
            old(sink).infallible() ==> r is Ok && final (sink).infallible(),
    {
        let c = self.chrome;
        let ghost elems = texts_of(self.slice@);
        let r_open = sink.write_char(c.open);
        if r_open.is_err() {
            return r_open;
        }
        let n = self.slice.len();
        if n > 0 {
            let mut i: usize = 0;
            proof {
                assert(chain_text(c, elems.take(0)) == Seq::<char>::empty());
                assert(sink.contents() =~= old(sink).contents() + seq![c.open] + chain_text(
                    c,
                    elems.take(0),
                ));
            }
            while i < n - 1
                invariant
                    n == self.slice@.len(),
                    n >= 1,
                    0 <= i <= n - 1,
                    c == self.chrome,
                    elems == texts_of(self.slice@),
                    sink.contents() == old(sink).contents() + seq![c.open] + chain_text(
                        c,
                        elems.take(i as int),
                    ),
                    old(sink).infallible() ==> sink.infallible(),
                decreases n - 1 - i,
            {
                let r_elem = self.slice[i].render(sink);
                if r_elem.is_err() {
                    return r_elem;
                }
                let r_delim = sink.write_char(c.delim);
                if r_delim.is_err() {
                    return r_delim;
                }
                if c.space_after_delim {
                    let r_space = sink.write_char(' ');
                    if r_space.is_err() {
                        return r_space;
                    }
                }
                proof {
                    lemma_chain_push(c, elems.take(i as int), elems[i as int]);
                    assert(elems.take(i + 1) =~= elems.take(i as int).push(elems[i as int]));
                    assert(sink.contents() =~= old(sink).contents() + seq![c.open] + chain_text(
                        c,
                        elems.take(i + 1),
                    ));
                }
                i = i + 1;
            }
            let r_last = self.slice[n - 1].render(sink);
            if r_last.is_err() {
                return r_last;
            }
            proof {
                lemma_body_split(c, elems);
                assert(elems.last() == elems[n - 1]);
                assert(sink.contents() =~= old(sink).contents() + seq![c.open] + body_text(
                    c,
                    elems,
                ));
            }
        } else {
            proof {
                assert(body_text(c, elems) == Seq::<char>::empty());
                assert(sink.contents() =~= old(sink).contents() + seq![c.open] + body_text(
                    c,
                    elems,
                ));
            }
        }
        let r_close = sink.write_char(c.close);
        proof {
            if r_close is Ok {
                assert(sink.contents() =~= old(sink).contents() + output_text(c, elems));
            }
        }
        r_close
    }

    /// Renders the handle into a fresh string and returns it. The string
    /// sink never refuses a write, so the result is exactly the handle's
    /// rendered text.
    pub fn to_text(&self) -> (r: String)
        ensures
            r@ == self.rendered(),
    {
        let mut sink = StringSink::new();
        let ghost start = sink.contents();
        let res = self.render_to(&mut sink);
        proof {
            assert(res is Ok);
            assert(start + self.rendered() =~= self.rendered());
        }
        sink.into_string()
    }
}

impl<T: Render> SliceDisplay<T> for Vec<T> {
    open spec fn elements(&self) -> Seq<T> {
        self@
    }

    fn display(&self) -> (r: SliceDisplayImpl<'_, T>) {
        SliceDisplayImpl {
            slice: self.as_slice(),
            chrome: Chrome { open: '[', close: ']', delim: ',', space_after_delim: true },
        }
    }
}

impl<T: Render> SliceDisplay<T> for [T] {
    open spec fn elements(&self) -> Seq<T> {
        self@
    }

    fn display(&self) -> (r: SliceDisplayImpl<'_, T>) {
        SliceDisplayImpl {
            slice: self,
            chrome: Chrome { open: '[', close: ']', delim: ',', space_after_delim: true },
        }
    }
}

impl<T: Render, const N: usize> SliceDisplay<T> for [T; N] {
    open spec fn elements(&self) -> Seq<T> {
        self@
    }

    fn display(&self) -> (r: SliceDisplayImpl<'_, T>) {
        SliceDisplayImpl {
            slice: self.as_slice(),
            chrome: Chrome { open: '[', close: ']', delim: ',', space_after_delim: true },
        }
    }
}

/// What a handle renders is a function of its decoration and its elements
/// alone: two handles over equal element sequences and equal decoration
/// render the same text, whatever containers the slices came from and
/// however the handles were built.
pub proof fn lemma_output_determined<T: Render>(a: SliceDisplayImpl<T>, b: SliceDisplayImpl<T>)
    requires
        a.slice@ == b.slice@,
        a.chrome == b.chrome,
    ensures
        a.rendered() == b.rendered(),
{
}

/// Rendering is pure: any two materialized renderings of one handle are
/// identical, character for character. There is no hidden state.
pub proof fn lemma_rendering_pure<T: Render>(h: SliceDisplayImpl<T>, s1: Seq<char>, s2: Seq<char>)
    requires
        s1 == h.rendered(),
        s2 == h.rendered(),
    ensures
        s1 == s2,
{
}

/// Uniform polymorphism: the entry point renders the same text over any two
/// containers that hold the same elements — an owned vector, a borrowed
/// slice, a fixed-size array — since each hands out a default handle over
/// exactly its elements.
pub proof fn lemma_uniform_polymorphism<T: Render, C1: SliceDisplay<T>, C2: SliceDisplay<T>>(
    c1: &C1,
    c2: &C2,
    h1: SliceDisplayImpl<T>,
    h2: SliceDisplayImpl<T>,
)
    requires
        c1.elements() == c2.elements(),
        h1.slice@ == c1.elements(),
        h1.chrome == default_chrome(),
        h2.slice@ == c2.elements(),
        h2.chrome == default_chrome(),
    ensures
        h1.rendered() == h2.rendered(),
{
}

/// Empty law, at the renderer: a handle over no elements renders exactly
/// its two terminators.
pub proof fn lemma_handle_empty<T: Render>(h: SliceDisplayImpl<T>)
    requires
        h.slice@.len() == 0,
    ensures
        h.rendered() == seq![h.chrome.open, h.chrome.close],
{
    assert(texts_of(h.slice@) =~= Seq::<Seq<char>>::empty());
    crate::output::lemma_empty_law(h.chrome);
}

/// Singleton law, at the renderer: a handle over one element renders its
/// terminators around that element's rendering alone; no delimiter and no
/// space appear.
pub proof fn lemma_handle_singleton<T: Render>(h: SliceDisplayImpl<T>)
    requires
        h.slice@.len() == 1,
    ensures
        h.rendered() == seq![h.chrome.open] + h.slice@[0].text() + seq![h.chrome.close],
{
    assert(texts_of(h.slice@) =~= seq![h.slice@[0].text()]);
    crate::output::lemma_singleton_law(h.chrome, h.slice@[0].text());
}

/// No trailing separator, at the renderer: over a non-empty slice the text
/// immediately before the closing terminator is the last element's
/// rendering.
pub proof fn lemma_handle_no_trailing_separator<T: Render>(h: SliceDisplayImpl<T>)
    requires
        h.slice@.len() >= 1,
    ensures
        h.rendered() == seq![h.chrome.open] + chain_text(
            h.chrome,
            texts_of(h.slice@).take(h.slice@.len() - 1),
        ) + h.slice@.last().text() + seq![h.chrome.close],
{
    crate::output::lemma_no_trailing_separator(h.chrome, texts_of(h.slice@));
    assert(texts_of(h.slice@).last() == h.slice@.last().text());
}

/// Count law, at the renderer: when no element's rendering contains the
/// delimiter and neither terminator is the delimiter, the delimiter occurs
/// exactly once per separator position — `n - 1` times for `n` elements.
pub proof fn lemma_handle_delimiter_count<T: Render>(h: SliceDisplayImpl<T>)
    requires
        h.slice@.len() >= 1,
        forall|i: int|
            0 <= i < h.slice@.len() ==> crate::output::count_char(
                #[trigger] h.slice@[i].text(),
                h.chrome.delim,
            ) == 0,
        h.chrome.open != h.chrome.delim,
        h.chrome.close != h.chrome.delim,
        h.chrome.space_after_delim ==> ' ' != h.chrome.delim,
    ensures
        crate::output::count_char(h.rendered(), h.chrome.delim) == h.slice@.len() - 1,
{
    let elems = texts_of(h.slice@);
    assert(forall|i: int|
        0 <= i < elems.len() ==> crate::output::count_char(#[trigger] elems[i], h.chrome.delim)
            == 0) by {
        assert(forall|i: int| 0 <= i < elems.len() ==> #[trigger] elems[i] == h.slice@[i].text());
    }
    crate::output::lemma_delimiter_count(h.chrome, elems);
}

/// Space law, at the renderer: when the tokens and the element renderings
/// contain no space of their own, the output holds one space per separator
/// position with the flag set, and none without it.
pub proof fn lemma_handle_space_count<T: Render>(h: SliceDisplayImpl<T>)
    requires
        h.slice@.len() >= 1,
        forall|i: int|
            0 <= i < h.slice@.len() ==> crate::output::count_char(
                #[trigger] h.slice@[i].text(),
                ' ',
            ) == 0,
        h.chrome.open != ' ',
        h.chrome.close != ' ',
        h.chrome.delim != ' ',
    ensures
        crate::output::count_char(h.rendered(), ' ') == if h.chrome.space_after_delim {
            (h.slice@.len() - 1) as nat
        } else {
            0nat
        },
{
    let elems = texts_of(h.slice@);
    assert(forall|i: int|
        0 <= i < elems.len() ==> crate::output::count_char(#[trigger] elems[i], ' ') == 0) by {
        assert(forall|i: int| 0 <= i < elems.len() ==> #[trigger] elems[i] == h.slice@[i].text());
    }
    crate::output::lemma_space_count(h.chrome, elems);
}

} // verus!
