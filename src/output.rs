//! Styled pieces of output, in the order they are written.
use crate::color::Style;
use vstd::prelude::*;

verus! {

/// A piece of text and how to draw it.
#[derive(Debug)]
pub struct Span {
    pub text: String,
    pub style: Style,
}

impl View for Span {
    type V = (Seq<char>, Style);

    open spec fn view(&self) -> (Seq<char>, Style) {
        (self.text@, self.style)
    }
}

/// What a run of spans shows: each one's text and style.
pub open spec fn spans(v: Seq<Span>) -> Seq<(Seq<char>, Style)> {
    v.map_values(|s: Span| s@)
}

pub open spec fn newline() -> Seq<char> {
    seq!['\n']
}

/// A branch's banner: its name with one space on each side.
pub open spec fn banner(name: Seq<char>) -> Seq<char> {
    seq![' '] + name + seq![' ']
}

pub(crate) fn newline_span() -> (r: Span)
    ensures
        r@ == (newline(), Style::Plain),
{
    let text = String::from_str("\n");
    proof {
        reveal_strlit("\n");
        assert(text@ =~= newline());
    }
    Span { text, style: Style::Plain }
}

pub(crate) fn banner_span(name: &str) -> (r: Span)
    ensures
        r@ == (banner(name@), Style::Banner),
{
    let text = String::from_str(" ").concat(name).concat(" ");
    proof {
        reveal_strlit(" ");
        assert(text@ =~= banner(name@));
    }
    Span { text, style: Style::Banner }
}

} // verus!
