//! The output grammar: what the rendered text of a sequence is, as a
//! mathematical function of the decoration and of each element's rendering.

use vstd::prelude::*;

use crate::chrome::Chrome;

verus! {

/// The separator emitted at each separator position: the delimiter, followed
/// by a single space when `space_after_delim` is set.
pub open spec fn sep_text(c: Chrome) -> Seq<char> {
    if c.space_after_delim {
        seq![c.delim, ' ']
    } else {
        seq![c.delim]
    }
}

/// The body between the terminators, for the element renderings `elems`:
/// empty for no elements, the single rendering for one, and otherwise the
/// renderings joined by the separator.
pub open spec fn body_text(c: Chrome, elems: Seq<Seq<char>>) -> Seq<char>
    decreases elems.len(),
{
    if elems.len() == 0 {
        Seq::empty()
    } else if elems.len() == 1 {
        elems[0]
    } else {
        elems[0] + sep_text(c) + body_text(c, elems.drop_first())
    }
}

/// The full rendered text: the body between the two terminators.
pub open spec fn output_text(c: Chrome, elems: Seq<Seq<char>>) -> Seq<char> {
    seq![c.open] + body_text(c, elems) + seq![c.close]
}

/// Every element rendering followed by one separator; the shape the emission
/// loop produces for all elements but the last.
pub open spec fn chain_text(c: Chrome, elems: Seq<Seq<char>>) -> Seq<char>
    decreases elems.len(),
{
    if elems.len() == 0 {
        Seq::empty()
    } else {
        elems[0] + sep_text(c) + chain_text(c, elems.drop_first())
    }
}

/// Appending one rendering to the chain appends that rendering and one
/// separator to its text.
pub proof fn lemma_chain_push(c: Chrome, elems: Seq<Seq<char>>, t: Seq<char>)
    ensures
        chain_text(c, elems.push(t)) == chain_text(c, elems) + t + sep_text(c),
    decreases elems.len(),
{
    if elems.len() == 0 {
        assert(elems.push(t).drop_first() =~= Seq::<Seq<char>>::empty());
        assert(elems.push(t)[0] == t);
        assert(chain_text(c, Seq::<Seq<char>>::empty()) == Seq::<char>::empty());
        assert(chain_text(c, elems.push(t)) == t + sep_text(c) + chain_text(
            c,
            elems.push(t).drop_first(),
        ));
        assert(chain_text(c, elems.push(t)) =~= chain_text(c, elems) + t + sep_text(c));
    } else {
        assert(elems.push(t).drop_first() =~= elems.drop_first().push(t));
        lemma_chain_push(c, elems.drop_first(), t);
        assert(elems.push(t)[0] == elems[0]);
        assert(chain_text(c, elems.push(t)) =~= chain_text(c, elems) + t + sep_text(c));
    }
}

/// The body of a non-empty sequence is the chain over all elements but the
/// last, followed by the last rendering, with nothing in between.
pub proof fn lemma_body_split(c: Chrome, elems: Seq<Seq<char>>)
    requires
        elems.len() >= 1,
    ensures
        body_text(c, elems) == chain_text(c, elems.take(elems.len() - 1)) + elems.last(),
    decreases elems.len(),
{
    if elems.len() == 1 {
        assert(elems.take(0) =~= Seq::<Seq<char>>::empty());
        assert(chain_text(c, elems.take(0)) + elems.last() =~= elems[0]);
    } else {
        let rest = elems.drop_first();
        lemma_body_split(c, rest);
        assert(elems.take(elems.len() - 1).drop_first() =~= rest.take(rest.len() - 1));
        assert(elems.take(elems.len() - 1)[0] == elems[0]);
        assert(rest.last() == elems.last());
        assert(body_text(c, elems) =~= chain_text(c, elems.take(elems.len() - 1)) + elems.last());
    }
}

/// How often the character `ch` occurs in `s`.
pub open spec fn count_char(s: Seq<char>, ch: char) -> nat
    decreases s.len(),
{
    if s.len() == 0 {
        0
    } else {
        (if s[0] == ch {
            1nat
        } else {
            0nat
        }) + count_char(s.drop_first(), ch)
    }
}

/// Counting over a concatenation sums the two counts.
pub proof fn lemma_count_concat(a: Seq<char>, b: Seq<char>, ch: char)
    ensures
        count_char(a + b, ch) == count_char(a, ch) + count_char(b, ch),
    decreases a.len(),
{
    if a.len() == 0 {
        assert(a + b =~= b);
    } else {
        assert((a + b)[0] == a[0]);
        assert((a + b).drop_first() =~= a.drop_first() + b);
        lemma_count_concat(a.drop_first(), b, ch);
    }
}

/// The count in a one-character sequence.
pub proof fn lemma_count_singleton(a: char, ch: char)
    ensures
        count_char(seq![a], ch) == if a == ch {
            1nat
        } else {
            0nat
        },
{
    assert(seq![a].drop_first() =~= Seq::<char>::empty());
    assert(count_char(Seq::<char>::empty(), ch) == 0);
}

/// The count of `ch` in one separator.
pub proof fn lemma_count_sep(c: Chrome, ch: char)
    ensures
        count_char(sep_text(c), ch) == (if c.delim == ch {
            1nat
        } else {
            0nat
        }) + (if c.space_after_delim && ' ' == ch {
            1nat
        } else {
            0nat
        }),
{
    lemma_count_singleton(c.delim, ch);
    lemma_count_singleton(' ', ch);
    if c.space_after_delim {
        assert(sep_text(c) =~= seq![c.delim] + seq![' ']);
        lemma_count_concat(seq![c.delim], seq![' '], ch);
    } else {
        assert(sep_text(c) =~= seq![c.delim]);
    }
}

/// The count of `ch` in the body, when no element rendering contains `ch`:
/// one occurrence per separator of each occurrence of `ch` in the separator.
pub proof fn lemma_count_body(c: Chrome, elems: Seq<Seq<char>>, ch: char)
    requires
        elems.len() >= 1,
        forall|i: int| 0 <= i < elems.len() ==> count_char(#[trigger] elems[i], ch) == 0,
    ensures
        count_char(body_text(c, elems), ch) == (elems.len() - 1) * count_char(sep_text(c), ch),
    decreases elems.len(),
{
    let k = count_char(sep_text(c), ch) as int;
    if elems.len() == 1 {
        assert(count_char(body_text(c, elems), ch) == 0);
    } else {
        let rest = elems.drop_first();
        assert(forall|i: int| 0 <= i < rest.len() ==> count_char(#[trigger] rest[i], ch) == 0);
        lemma_count_body(c, rest, ch);
        lemma_count_concat(elems[0] + sep_text(c), body_text(c, rest), ch);
        lemma_count_concat(elems[0], sep_text(c), ch);
        let a = elems.len() - 2;
        assert((a + 1) * k == a * k + k) by (nonlinear_arith);
    }
}

/// The count of `ch` in the full output, when no element rendering contains
/// `ch` and neither terminator is `ch`.
pub proof fn lemma_count_output(c: Chrome, elems: Seq<Seq<char>>, ch: char)
    requires
        elems.len() >= 1,
        forall|i: int| 0 <= i < elems.len() ==> count_char(#[trigger] elems[i], ch) == 0,
        c.open != ch,
        c.close != ch,
    ensures
        count_char(output_text(c, elems), ch) == (elems.len() - 1) * count_char(sep_text(c), ch),
{
    lemma_count_body(c, elems, ch);
    lemma_count_singleton(c.open, ch);
    lemma_count_singleton(c.close, ch);
    lemma_count_concat(seq![c.open], body_text(c, elems), ch);
    lemma_count_concat(seq![c.open] + body_text(c, elems), seq![c.close], ch);
}

/// Empty law: with no elements the output is exactly the two terminators.
pub proof fn lemma_empty_law(c: Chrome)
    ensures
        output_text(c, Seq::<Seq<char>>::empty()) == seq![c.open, c.close],
{
    assert(output_text(c, Seq::<Seq<char>>::empty()) =~= seq![c.open, c.close]);
}

/// Singleton law: with one element the output is the two terminators around
/// that element's rendering alone; no delimiter and no space appear.
pub proof fn lemma_singleton_law(c: Chrome, t: Seq<char>)
    ensures
        output_text(c, seq![t]) == seq![c.open] + t + seq![c.close],
{
    assert(body_text(c, seq![t]) == t);
}

/// No trailing separator: for a non-empty sequence, the text immediately
/// before the closing terminator is the last element's rendering; every
/// separator stands in the chain before it.
pub proof fn lemma_no_trailing_separator(c: Chrome, elems: Seq<Seq<char>>)
    requires
        elems.len() >= 1,
    ensures
        output_text(c, elems) == seq![c.open] + chain_text(c, elems.take(elems.len() - 1))
            + elems.last() + seq![c.close],
{
    lemma_body_split(c, elems);
    assert(output_text(c, elems) =~= seq![c.open] + chain_text(c, elems.take(elems.len() - 1))
        + elems.last() + seq![c.close]);
}

/// Count law: with `n` elements whose renderings never contain the delimiter,
/// and terminators other than the delimiter, the delimiter occurs exactly
/// `n - 1` times in the output — once per separator position.
pub proof fn lemma_delimiter_count(c: Chrome, elems: Seq<Seq<char>>)
    requires
        elems.len() >= 1,
        forall|i: int| 0 <= i < elems.len() ==> count_char(#[trigger] elems[i], c.delim) == 0,
        c.open != c.delim,
        c.close != c.delim,
        c.space_after_delim ==> ' ' != c.delim,
    ensures
        count_char(output_text(c, elems), c.delim) == elems.len() - 1,
{
    lemma_count_sep(c, c.delim);
    lemma_count_output(c, elems, c.delim);
    assert((elems.len() - 1) * 1 == elems.len() - 1);
}

/// Space law: when a space follows each delimiter, and neither the tokens nor
/// the element renderings contain a space of their own, the output holds one
/// space per separator position; without the flag it holds none.
pub proof fn lemma_space_count(c: Chrome, elems: Seq<Seq<char>>)
    requires
        elems.len() >= 1,
        forall|i: int| 0 <= i < elems.len() ==> count_char(#[trigger] elems[i], ' ') == 0,
        c.open != ' ',
        c.close != ' ',
        c.delim != ' ',
    ensures
        count_char(output_text(c, elems), ' ') == if c.space_after_delim {
            (elems.len() - 1) as nat
        } else {
            0nat
        },
{
    lemma_count_sep(c, ' ');
    lemma_count_output(c, elems, ' ');
    if c.space_after_delim {
        assert((elems.len() - 1) * 1 == elems.len() - 1);
    } else {
        assert((elems.len() - 1) * 0 == 0);
    }
}

} // verus!
