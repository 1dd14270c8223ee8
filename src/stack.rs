//! The per-thread stack of open branches and the gutter drawn from it.
use crate::color::Style;
use crate::output::{banner, banner_span, newline, newline_span, spans, Span};
use crate::text::{column_text, preamble, views};
use crate::widths::{widths_at, widths_len, widths_new, widths_of, widths_pop, widths_push, GutterWidths};
use vstd::prelude::*;

verus! {

/// How records and branches are drawn.
#[derive(Clone, Copy, Debug, PartialEq, Eq, Structural)]
pub enum Mode {
    /// Branches are tracked and drawn as a gutter beside every line.
    Tree,
    /// Records are drawn flat; branches are not tracked.
    Flat,
}

/// The error of closing a branch where none is open.
#[derive(Clone, Copy, Debug, PartialEq, Eq, Structural)]
pub enum BranchError {
    EmptyStackUnderflow,
}

/// The branches that are open on one thread, outermost first, and whether
/// the last thing drawn was the end of a branch.
pub struct BranchStack {
    names: Vec<String>,
    widths: GutterWidths,
    ended_branch: bool,
    mode: Mode,
}

/// The width of the gutter column of a branch with this name: one more
/// character on each side of the name.
pub open spec fn gutter_width(name: Seq<char>) -> nat {
    name.len() + 2
}

/// The gutter widths of a stack of branch names.
pub open spec fn gutter_widths(names: Seq<Seq<char>>) -> Seq<nat> {
    names.map_values(|n: Seq<char>| gutter_width(n))
}

/// What opening a branch draws: where the last thing drawn was the end of a
/// sibling, the gutter and an empty line; then the gutter as it stood and
/// the name's banner.
pub open spec fn enter_spans(pre: Seq<char>, ended: bool, name: Seq<char>) -> Seq<
    (Seq<char>, Style),
> {
    (if ended {
        seq![(pre, Style::Gutter), (newline(), Style::Plain)]
    } else {
        Seq::empty()
    }) + seq![(pre, Style::Gutter), (banner(name), Style::Banner), (newline(), Style::Plain)]
}

/// What closing a branch draws: the gutter without it, and its banner again.
pub open spec fn exit_spans(pre: Seq<char>, name: Seq<char>) -> Seq<(Seq<char>, Style)> {
    seq![(pre, Style::Gutter), (banner(name), Style::Banner), (newline(), Style::Plain)]
}

/// A step on a branch stack: opening a branch of the given name, or closing
/// the innermost one.
pub enum BranchStep {
    Enter(Seq<char>),
    Exit,
}

/// The open branches after one step in tree mode, as `enter_branch` and
/// `exit_branch` state it; `None` where a close finds none open.
pub open spec fn step(names: Seq<Seq<char>>, s: BranchStep) -> Option<Seq<Seq<char>>> {
    match s {
        BranchStep::Enter(n) => Some(names.push(n)),
        BranchStep::Exit => if names.len() == 0 {
            None
        } else {
            Some(names.drop_last())
        },
    }
}

impl BranchStack {
    /// The names of the open branches, outermost first.
    pub closed spec fn names(&self) -> Seq<Seq<char>> {
        views(self.names@)
    }

    /// Whether a branch was closed with nothing drawn since.
    pub closed spec fn ended(&self) -> bool {
        self.ended_branch
    }

    pub closed spec fn spec_mode(&self) -> Mode {
        self.mode
    }

    pub closed spec fn wf(&self) -> bool {
        &&& widths_of(self.widths).len() == self.names@.len()
        &&& forall|i: int|
            0 <= i < self.names@.len() ==> widths_of(self.widths)[i] as nat == gutter_width(
                #[trigger] self.names@[i]@,
            )
        &&& self.mode is Flat ==> self.names@.len() == 0 && !self.ended_branch
    }

    /// A well-formed stack in flat mode tracks nothing: no branch is open and
    /// none has ended.
    pub proof fn lemma_flat_is_empty(&self)
        requires
            self.wf(),
        ensures
            self.spec_mode() is Flat ==> self.names().len() == 0 && !self.ended(),
    {
    }

    /// The gutter for the open branches.
    pub open spec fn preamble_text(&self) -> Seq<char> {
        preamble(gutter_widths(self.names()))
    }

    /// An empty stack.
    pub fn new(mode: Mode) -> (r: BranchStack)
        ensures
            r.wf(),
            r.names() == Seq::<Seq<char>>::empty(),
            !r.ended(),
            r.spec_mode() == mode,
    {
        let r = BranchStack {
            names: Vec::new(),
            widths: widths_new(),
            ended_branch: false,
            mode,
        };
        assert(r.names() =~= Seq::<Seq<char>>::empty());
        r
    }

    pub fn mode(&self) -> (r: Mode)
        ensures
            r == self.spec_mode(),
    {
        self.mode
    }

    /// The number of open branches.
    pub fn depth(&self) -> (r: usize)
        ensures
            r as nat == self.names().len(),
    {
        self.names.len()
    }

    /// Whether a branch was closed with nothing drawn since.
    pub fn ended_branch(&self) -> (r: bool)
        ensures
            r == self.ended(),
    {
        self.ended_branch
    }

    /// The name of the `i`-th open branch, outermost first.
    pub fn name_at(&self, i: usize) -> (r: &str)
        requires
            i < self.names().len(),
        ensures
            r@ == self.names()[i as int],
    {
        self.names[i].as_str()
    }

    /// The gutter width of the `i`-th open branch, outermost first.
    pub fn width_at(&self, i: usize) -> (r: usize)
        requires
            self.wf(),
            i < self.names().len(),
        ensures
            r as nat == gutter_width(self.names()[i as int]),
    {
        widths_at(&self.widths, i)
    }

    pub(crate) fn set_ended(&mut self, ended: bool)
        requires
            old(self).wf(),
            old(self).spec_mode() is Tree,
        ensures
            final(self).wf(),
            final(self).names() == old(self).names(),
            final(self).ended() == ended,
            final(self).spec_mode() == old(self).spec_mode(),
    {
        self.ended_branch = ended;
    }

    /// The gutter for the open branches: for each, outermost first, a bar
    /// centred in its width and a space.
    pub fn render_preamble(&self) -> (r: String)
        requires
            self.wf(),
        ensures
            r@ == self.preamble_text(),
    {
        let n = widths_len(&self.widths);
        let ghost ws = gutter_widths(self.names());
        let mut s = String::new();
        let mut i: usize = 0;
        assert(ws.take(0) =~= Seq::<nat>::empty());
        while i < n
            invariant
                self.wf(),
                ws == gutter_widths(self.names()),
                n as nat == ws.len(),
                i <= n,
                s@ == preamble(ws.take(i as int)),
            decreases n - i,
        {
            let w = widths_at(&self.widths, i);
            let col = column_text(w);
            s.append(col.as_str());
            proof {
                assert(ws.take(i + 1).drop_last() =~= ws.take(i as int));
                assert(ws[i as int] == w as nat);
            }
            i = i + 1;
        }
        assert(ws.take(n as int) =~= ws);
        s
    }

    pub(crate) fn gutter_span(&self) -> (r: Span)
        requires
            self.wf(),
        ensures
            r@ == (self.preamble_text(), Style::Gutter),
    {
        Span { text: self.render_preamble(), style: Style::Gutter }
    }
}

/// Opens a branch named `name`. In tree mode it is pushed and drawn: see
/// `enter_spans`; in flat mode nothing happens.
pub fn enter_branch(stack: &mut BranchStack, name: &str) -> (r: Vec<Span>)
    requires
        old(stack).wf(),
        name@.len() + 2 <= usize::MAX,
        old(stack).names().len() < usize::MAX / 32,
    ensures
        final(stack).wf(),
        final(stack).spec_mode() == old(stack).spec_mode(),
        old(stack).spec_mode() is Flat ==> {
            &&& r@.len() == 0
            &&& final(stack).names() == old(stack).names()
            &&& final(stack).ended() == old(stack).ended()
        },
        old(stack).spec_mode() is Tree ==> {
            &&& Some(final(stack).names()) == step(old(stack).names(), BranchStep::Enter(name@))
            &&& final(stack).names() == old(stack).names().push(name@)
            &&& !final(stack).ended()
            &&& spans(r@) == enter_spans(old(stack).preamble_text(), old(stack).ended(), name@)
        },
{
    let mut out: Vec<Span> = Vec::new();
    if stack.mode == Mode::Flat {
        return out;
    }
    if stack.ended_branch {
        out.push(stack.gutter_span());
        out.push(newline_span());
    }
    out.push(stack.gutter_span());
    out.push(banner_span(name));
    out.push(newline_span());
    let width = name.unicode_len() + 2;
    let ghost before = stack.names@;
    stack.names.push(String::from_str(name));
    widths_push(&mut stack.widths, width);
    stack.ended_branch = false;
    proof {
        assert(stack.names@ == before.push(stack.names@.last()));
        assert(views(stack.names@) =~= views(before).push(name@));
        assert(spans(out@) =~= enter_spans(
            old(stack).preamble_text(),
            old(stack).ended(),
            name@,
        ));
    }
    out
}

/// Closes the innermost open branch. In tree mode it is popped and drawn:
/// see `exit_spans`; with none open this fails and nothing changes. In flat
/// mode nothing happens.
pub fn exit_branch(stack: &mut BranchStack) -> (r: Result<Vec<Span>, BranchError>)
    requires
        old(stack).wf(),
    ensures
        final(stack).wf(),
        final(stack).spec_mode() == old(stack).spec_mode(),
        old(stack).spec_mode() is Flat ==> {
            &&& r is Ok && r->Ok_0@.len() == 0
            &&& final(stack).names() == old(stack).names()
            &&& final(stack).ended() == old(stack).ended()
        },
        old(stack).spec_mode() is Tree ==> step(old(stack).names(), BranchStep::Exit) == if r is Ok {
            Some(final(stack).names())
        } else {
            None
        },
        old(stack).spec_mode() is Tree && old(stack).names().len() == 0 ==> {
            &&& r matches Err(BranchError::EmptyStackUnderflow)
            &&& final(stack).names() == old(stack).names()
            &&& final(stack).ended() == old(stack).ended()
        },
        old(stack).spec_mode() is Tree && old(stack).names().len() > 0 ==> {
            &&& r is Ok
            &&& final(stack).names() == old(stack).names().drop_last()
            &&& final(stack).ended()
            &&& spans(r->Ok_0@) == exit_spans(
                final(stack).preamble_text(),
                old(stack).names().last(),
            )
        },
{
    let mut out: Vec<Span> = Vec::new();
    if stack.mode == Mode::Flat {
        return Ok(out);
    }
    if stack.names.len() == 0 {
        return Err(BranchError::EmptyStackUnderflow);
    }
    let ghost before = stack.names@;
    let _ = widths_pop(&mut stack.widths);
    let name = match stack.names.pop() {
        Some(n) => n,
        None => String::new(),
    };
    proof {
        assert(stack.names@ =~= before.drop_last());
        assert(views(stack.names@) =~= views(before).drop_last());
    }
    stack.ended_branch = true;
    out.push(stack.gutter_span());
    out.push(banner_span(name.as_str()));
    out.push(newline_span());
    assert(spans(out@) =~= exit_spans(stack.preamble_text(), name@));
    Ok(out)
}

} // verus!
