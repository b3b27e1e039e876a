//! The decoration around a rendered sequence: terminators, delimiter, spacing.

use vstd::prelude::*;

verus! {

/// The decorative tokens of a rendering: the opening terminator, the closing
/// terminator, the delimiter between elements, and whether a single space
/// follows each delimiter. A `Chrome` is an immutable value; every combination
/// of tokens is accepted, including repeated or space characters.
#[derive(Clone, Copy)]
pub struct Chrome {
    pub open: char,
    pub close: char,
    pub delim: char,
    pub space_after_delim: bool,
}

/// The default decoration: `[` and `]` around the elements, `,` between them,
/// and a space after each delimiter.
pub open spec fn default_chrome() -> Chrome {
    Chrome { open: '[', close: ']', delim: ',', space_after_delim: true }
}

impl Chrome {
    /// The decoration with both terminators replaced.
    pub open spec fn with_terminators(self, beginning: char, ending: char) -> Chrome {
        Chrome { open: beginning, close: ending, ..self }
    }

    /// The decoration with the delimiter replaced.
    pub open spec fn with_delimiter(self, delimiter: char) -> Chrome {
        Chrome { delim: delimiter, ..self }
    }

    /// The decoration with the spacing flag replaced.
    pub open spec fn with_spacing(self, flag: bool) -> Chrome {
        Chrome { space_after_delim: flag, ..self }
    }
}

impl Default for Chrome {
    /// The default decoration, `[`, `]`, `,`, with spacing.
    fn default() -> (r: Chrome)
        ensures
            r == default_chrome(),
    {
        Chrome { open: '[', close: ']', delim: ',', space_after_delim: true }
    }
}

/// Overriding one field twice keeps only the last value: for each builder
/// field, applying the override with `v1` and then with `v2` yields the same
/// decoration as applying it with `v2` alone.
pub proof fn lemma_last_write_wins(
    c: Chrome,
    open1: char,
    close1: char,
    open2: char,
    close2: char,
    delim1: char,
    delim2: char,
    flag1: bool,
    flag2: bool,
)
    ensures
        c.with_terminators(open1, close1).with_terminators(open2, close2) == c.with_terminators(
            open2,
            close2,
        ),
        c.with_delimiter(delim1).with_delimiter(delim2) == c.with_delimiter(delim2),
        c.with_spacing(flag1).with_spacing(flag2) == c.with_spacing(flag2),
{
}

} // verus!
