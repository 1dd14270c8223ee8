use crate::level::Level;
use vstd::prelude::*;

verus! {

/// A terminal color.
#[derive(Clone, Copy, Debug, PartialEq, Eq, Structural)]
pub enum Color {
    Red,
    Yellow,
    Cyan,
    Green,
    White,
    Rgb(u8, u8, u8),
}

/// The grey of the gutter and of a branch banner's background.
pub open spec fn muted_white() -> Color {
    Color::Rgb(160, 160, 160)
}

/// The near-black text of a branch banner.
pub open spec fn darker_black() -> Color {
    Color::Rgb(20, 20, 20)
}

pub open spec fn spec_color_for(level: Level) -> Color {
    match level {
        Level::Error => Color::Red,
        Level::Warn => Color::Yellow,
        Level::Info => Color::Cyan,
        Level::Debug => Color::Green,
        Level::Trace => Color::White,
    }
}

/// The color of a record's level tag.
pub fn color_for(level: Level) -> (r: Color)
    ensures
        r == spec_color_for(level),
{
    match level {
        Level::Error => Color::Red,
        Level::Warn => Color::Yellow,
        Level::Info => Color::Cyan,
        Level::Debug => Color::Green,
        Level::Trace => Color::White,
    }
}

/// How a piece of output is drawn.
#[derive(Clone, Copy, Debug, PartialEq, Eq, Structural)]
pub enum Style {
    /// No color.
    Plain,
    /// The branch gutter: muted foreground.
    Gutter,
    /// A branch's name banner: dark text on a muted background.
    Banner,
    /// A record's level tag: bold, in the given color.
    Tag(Color),
}

impl Style {
    pub open spec fn spec_foreground(self) -> Option<Color> {
        match self {
            Style::Plain => None,
            Style::Gutter => Some(muted_white()),
            Style::Banner => Some(darker_black()),
            Style::Tag(c) => Some(c),
        }
    }

    pub open spec fn spec_background(self) -> Option<Color> {
        match self {
            Style::Banner => Some(muted_white()),
            _ => None,
        }
    }

    /// The foreground color, if any.
    pub fn foreground(self) -> (r: Option<Color>)
        ensures
            r == self.spec_foreground(),
    {
        match self {
            Style::Plain => None,
            Style::Gutter => Some(Color::Rgb(160, 160, 160)),
            Style::Banner => Some(Color::Rgb(20, 20, 20)),
            Style::Tag(c) => Some(c),
        }
    }

    /// The background color, if any.
    pub fn background(self) -> (r: Option<Color>)
        ensures
            r == self.spec_background(),
    {
        match self {
            Style::Banner => Some(Color::Rgb(160, 160, 160)),
            _ => None,
        }
    }

    /// Whether the text is bold.
    pub fn bold(self) -> (r: bool)
        ensures
            r == (self is Tag),
    {
        match self {
            Style::Tag(_) => true,
            _ => false,
        }
    }
}

} // verus!
