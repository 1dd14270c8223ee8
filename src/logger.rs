//! The sink: turns a record into styled output beside the branch gutter.
use crate::color::{color_for, spec_color_for, Style};
use crate::level::Level;
use crate::output::{newline, spans, Span};
use crate::stack::{BranchStack, Mode};
use crate::text::{lines, text_lines, views};
use vstd::prelude::*;

verus! {

/// A record's level tag: the level's name and a colon.
pub open spec fn tag(level: Level) -> Seq<char> {
    level.name() + seq![':']
}

/// The lines of a record's text: the first straight after the tag, each
/// other one after a fresh gutter.
pub open spec fn body_spans(ls: Seq<Seq<char>>, pre: Seq<char>) -> Seq<(Seq<char>, Style)>
    decreases ls.len(),
{
    if ls.len() == 0 {
        Seq::empty()
    } else if ls.len() == 1 {
        seq![(ls[0] + newline(), Style::Plain)]
    } else {
        body_spans(ls.drop_last(), pre) + seq![
            (pre, Style::Gutter),
            (ls.last() + newline(), Style::Plain),
        ]
    }
}

/// What a record draws in tree mode: the gutter, the colored tag, and the
/// message after one space, split into lines.
pub open spec fn record_spans(pre: Seq<char>, level: Level, message: Seq<char>) -> Seq<
    (Seq<char>, Style),
> {
    seq![(pre, Style::Gutter), (tag(level), Style::Tag(spec_color_for(level)))] + body_spans(
        lines(seq![' '] + message),
        pre,
    )
}

/// What a record draws in flat mode: the colored tag and the whole message
/// after one space.
pub open spec fn flat_record_spans(level: Level, message: Seq<char>) -> Seq<(Seq<char>, Style)> {
    seq![
        (tag(level), Style::Tag(spec_color_for(level))),
        (seq![' '] + message + newline(), Style::Plain),
    ]
}

/// The sink's settings: the least severe level that is drawn.
pub struct Malogany {
    level: Level,
}

/// A sink that draws records of `level` and the levels more severe.
pub fn init(level: Level) -> (r: Malogany)
    ensures
        r.max_level() == level,
{
    Malogany { level }
}

impl Malogany {
    pub closed spec fn max_level(&self) -> Level {
        self.level
    }

    /// The least severe level that is drawn.
    pub fn level(&self) -> (r: Level)
        ensures
            r == self.max_level(),
    {
        self.level
    }

    pub open spec fn spec_enabled(&self, level: Level) -> bool {
        level.rank() <= self.max_level().rank()
    }

    /// Whether a record of `level` is drawn.
    pub fn enabled(&self, level: Level) -> (r: bool)
        ensures
            r == self.spec_enabled(level),
    {
        level.at_most(self.level)
    }

    /// Draws a record of `level` whose text is `message`. A record that is
    /// not enabled draws nothing and changes nothing; one drawn in tree mode
    /// clears the stack's ended-branch mark.
    pub fn log(&self, stack: &mut BranchStack, level: Level, message: &str) -> (r: Vec<Span>)
        requires
            old(stack).wf(),
        ensures
            final(stack).wf(),
            final(stack).names() == old(stack).names(),
            final(stack).spec_mode() == old(stack).spec_mode(),
            !self.spec_enabled(level) ==> {
                &&& r@.len() == 0
                &&& final(stack).ended() == old(stack).ended()
            },
            self.spec_enabled(level) && old(stack).spec_mode() is Flat ==> {
                &&& spans(r@) == flat_record_spans(level, message@)
                &&& final(stack).ended() == old(stack).ended()
            },
            self.spec_enabled(level) && old(stack).spec_mode() is Tree ==> {
                &&& spans(r@) == record_spans(old(stack).preamble_text(), level, message@)
                &&& !final(stack).ended()
            },
    {
        let mut out: Vec<Span> = Vec::new();
        if !self.enabled(level) {
            return out;
        }
        let tag_text = String::from_str(level.as_str()).concat(":");
        proof {
            reveal_strlit(":");
            assert(tag_text@ =~= tag(level));
        }
        let tag_span = Span { text: tag_text, style: Style::Tag(color_for(level)) };
        if stack.mode() == Mode::Flat {
            out.push(tag_span);
            let text = String::from_str(" ").concat(message).concat("\n");
            proof {
                reveal_strlit(" ");
                reveal_strlit("\n");
                assert(text@ =~= seq![' '] + message@ + newline());
            }
            out.push(Span { text, style: Style::Plain });
            assert(spans(out@) =~= flat_record_spans(level, message@));
            return out;
        }
        let ghost pre = stack.preamble_text();
        out.push(stack.gutter_span());
        out.push(tag_span);
        let text = String::from_str(" ").concat(message);
        proof {
            reveal_strlit(" ");
            assert(text@ =~= seq![' '] + message@);
        }
        let ls = text_lines(text.as_str());
        let ghost head = spans(out@);
        let ghost lv = views(ls@);
        assert(lv.take(0) =~= Seq::<Seq<char>>::empty());
        assert(spans(out@) =~= head + body_spans(lv.take(0), pre));
        let mut i: usize = 0;
        while i < ls.len()
            invariant
                stack.wf(),
                stack.spec_mode() is Tree,
                stack.names() == old(stack).names(),
                pre == stack.preamble_text(),
                lv == views(ls@),
                i <= ls@.len(),
                spans(out@) == head + body_spans(lv.take(i as int), pre),
            decreases ls@.len() - i,
        {
            let ghost prev = spans(out@);
            if i > 0 {
                out.push(stack.gutter_span());
                assert(spans(out@) =~= prev.push((pre, Style::Gutter)));
            }
            let ghost mid = spans(out@);
            let line = String::from_str(ls[i].as_str()).concat("\n");
            proof {
                reveal_strlit("\n");
                assert(line@ =~= lv[i as int] + newline());
            }
            out.push(Span { text: line, style: Style::Plain });
            proof {
                assert(spans(out@) =~= mid.push((lv[i as int] + newline(), Style::Plain)));
                assert(lv.take(i + 1).drop_last() =~= lv.take(i as int));
                assert(lv.take(i + 1).last() == lv[i as int]);
                if i == 0 {
                    assert(lv.take(1) =~= seq![lv[0]]);
                }
                assert(spans(out@) =~= head + body_spans(lv.take(i + 1), pre));
            }
            i = i + 1;
        }
        assert(lv.take(ls@.len() as int) =~= lv);
        stack.set_ended(false);
        out
    }
}

} // verus!
