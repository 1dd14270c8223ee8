//! Laws of the branch stack and of the gutter drawn from it.
use crate::stack::{gutter_width, gutter_widths, step, BranchStack, BranchStep};
use crate::text::{column, preamble, spaces};
use vstd::prelude::*;

verus! {

/// The open branches after a run of steps; `None` where one of them fails.
pub open spec fn replay(names: Seq<Seq<char>>, steps: Seq<BranchStep>) -> Option<Seq<Seq<char>>>
    decreases steps.len(),
{
    if steps.len() == 0 {
        Some(names)
    } else {
        match replay(names, steps.drop_last()) {
            Some(m) => step(m, steps.last()),
            None => None,
        }
    }
}

/// Opens less closes.
pub open spec fn net(steps: Seq<BranchStep>) -> int
    decreases steps.len(),
{
    if steps.len() == 0 {
        0
    } else {
        net(steps.drop_last()) + match steps.last() {
            BranchStep::Enter(_) => 1int,
            BranchStep::Exit => -1int,
        }
    }
}

/// Every close matches an earlier open, and every open is closed.
pub open spec fn well_matched(steps: Seq<BranchStep>) -> bool {
    &&& net(steps) == 0
    &&& forall|i: int| 0 <= i <= steps.len() ==> net(#[trigger] steps.take(i)) >= 0
}

proof fn lemma_replay_prefix(names: Seq<Seq<char>>, steps: Seq<BranchStep>)
    requires
        forall|i: int| 0 <= i <= steps.len() ==> net(#[trigger] steps.take(i)) >= 0,
    ensures
        replay(names, steps) is Some,
        replay(names, steps)->Some_0.len() == names.len() + net(steps),
        replay(names, steps)->Some_0.take(names.len() as int) == names,
    decreases steps.len(),
{
    if steps.len() == 0 {
        assert(names.take(names.len() as int) =~= names);
    } else {
        let d = steps.drop_last();
        assert forall|i: int| 0 <= i <= d.len() implies net(#[trigger] d.take(i)) >= 0 by {
            assert(d.take(i) =~= steps.take(i));
        }
        lemma_replay_prefix(names, d);
        assert(steps.take(steps.len() as int) =~= steps);
        let m = replay(names, d)->Some_0;
        match steps.last() {
            BranchStep::Enter(n) => {
                assert(m.push(n).take(names.len() as int) =~= m.take(names.len() as int));
            },
            BranchStep::Exit => {
                assert(m.drop_last().take(names.len() as int) =~= m.take(names.len() as int));
            },
        }
    }
}

/// Well-matched opens and closes, from any stack, never close a branch that
/// is not open, and leave the stack as it was; from an empty stack, the
/// depth returns to zero.
pub proof fn lemma_well_matched_returns(names: Seq<Seq<char>>, steps: Seq<BranchStep>)
    requires
        well_matched(steps),
    ensures
        replay(names, steps) == Some(names),
{
    lemma_replay_prefix(names, steps);
    let r = replay(names, steps)->Some_0;
    assert(r =~= r.take(names.len() as int));
}

/// Branches close in the reverse order of opening: after opening `a` and
/// then `b`, the first close pops `b`, the second `a`, and the stack is
/// back where it was.
pub proof fn lemma_last_in_first_out(names: Seq<Seq<char>>, a: Seq<char>, b: Seq<char>)
    ensures
        ({
            let s = names.push(a).push(b);
            &&& s.last() == b
            &&& step(s, BranchStep::Exit) == Some(names.push(a))
            &&& names.push(a).last() == a
            &&& step(names.push(a), BranchStep::Exit) == Some(names)
        }),
{
    assert(names.push(a).push(b).drop_last() =~= names.push(a));
    assert(names.push(a).drop_last() =~= names);
}

/// The gutter column of a branch named `n` is `n`'s length in characters
/// plus two wide, then a separating space; opening the branch adds that
/// column to the right of the gutter.
pub proof fn lemma_column_width(names: Seq<Seq<char>>, n: Seq<char>)
    ensures
        gutter_width(n) == n.len() + 2,
        column(gutter_width(n)).len() == gutter_width(n) + 1,
        column(gutter_width(n)).last() == ' ',
        preamble(gutter_widths(names.push(n))) == preamble(gutter_widths(names)) + column(
            gutter_width(n),
        ),
{
    let w = gutter_width(n);
    let left: nat = ((w - 1) as nat) / 2;
    assert(spaces(left).len() == left);
    assert(gutter_widths(names.push(n)).drop_last() =~= gutter_widths(names));
}

/// The characters that a gutter spans: each column's width and its
/// separating space.
pub open spec fn total_width(ws: Seq<nat>) -> nat
    decreases ws.len(),
{
    if ws.len() == 0 {
        0
    } else {
        total_width(ws.drop_last()) + ws.last() + 1
    }
}

/// How many bars `s` holds.
pub open spec fn bar_count(s: Seq<char>) -> nat
    decreases s.len(),
{
    if s.len() == 0 {
        0
    } else {
        bar_count(s.drop_last()) + if s.last() == '│' {
            1nat
        } else {
            0nat
        }
    }
}

proof fn lemma_bar_count_concat(a: Seq<char>, b: Seq<char>)
    ensures
        bar_count(a + b) == bar_count(a) + bar_count(b),
    decreases b.len(),
{
    if b.len() > 0 {
        lemma_bar_count_concat(a, b.drop_last());
        assert((a + b).drop_last() =~= a + b.drop_last());
    } else {
        assert(a + b =~= a);
    }
}

proof fn lemma_bar_count_spaces(n: nat)
    ensures
        bar_count(spaces(n)) == 0,
    decreases n,
{
    if n > 0 {
        lemma_bar_count_spaces((n - 1) as nat);
        assert(spaces(n).drop_last() =~= spaces((n - 1) as nat));
    }
}

proof fn lemma_column_shape(w: nat)
    requires
        w >= 1,
    ensures
        column(w).len() == w + 1,
        column(w)[(w - 1) / 2] == '│',
        bar_count(column(w)) == 1,
{
    let pad = (w - 1) as nat;
    let left = pad / 2;
    let right = (pad - left) as nat;
    lemma_bar_count_spaces(left);
    lemma_bar_count_spaces(right);
    assert(bar_count(Seq::<char>::empty()) == 0);
    let bar = seq!['│'];
    let space = seq![' '];
    assert(bar.drop_last() =~= Seq::<char>::empty());
    assert(bar.last() == '│');
    assert(bar_count(bar) == 1);
    assert(space.drop_last() =~= Seq::<char>::empty());
    assert(space.last() == ' ');
    assert(bar_count(space) == 0);
    lemma_bar_count_concat(spaces(left), seq!['│']);
    lemma_bar_count_concat(spaces(left) + seq!['│'], spaces(right));
    lemma_bar_count_concat(spaces(left) + seq!['│'] + spaces(right), seq![' ']);
}

proof fn lemma_layout(ws: Seq<nat>)
    requires
        forall|i: int| 0 <= i < ws.len() ==> ws[i] >= 1,
    ensures
        preamble(ws).len() == total_width(ws),
        bar_count(preamble(ws)) == ws.len(),
        forall|i: int|
            0 <= i < ws.len() ==> preamble(ws).subrange(
                total_width(#[trigger] ws.take(i)) as int,
                total_width(ws.take(i + 1)) as int,
            ) == column(ws[i]),
    decreases ws.len(),
{
    if ws.len() > 0 {
        let d = ws.drop_last();
        lemma_layout(d);
        lemma_column_shape(ws.last());
        lemma_bar_count_concat(preamble(d), column(ws.last()));
        let p = preamble(ws);
        assert forall|i: int| 0 <= i < ws.len() implies p.subrange(
            total_width(#[trigger] ws.take(i)) as int,
            total_width(ws.take(i + 1)) as int,
        ) == column(ws[i]) by {
            if i < d.len() {
                assert(ws.take(i) =~= d.take(i));
                assert(ws.take(i + 1) =~= d.take(i + 1));
                assert(d.take(i + 1).drop_last() =~= d.take(i));
                lemma_prefix_width(d, i + 1);
                assert(p.subrange(total_width(d.take(i)) as int, total_width(d.take(i + 1)) as int)
                    =~= preamble(d).subrange(
                    total_width(d.take(i)) as int,
                    total_width(d.take(i + 1)) as int,
                ));
            } else {
                assert(ws.take(i) =~= d);
                assert(ws.take(i + 1) =~= ws);
                assert(p.subrange(total_width(d) as int, total_width(ws) as int) =~= column(
                    ws.last(),
                ));
            }
        }
    }
}

proof fn lemma_prefix_width(ws: Seq<nat>, k: int)
    requires
        0 <= k <= ws.len(),
    ensures
        total_width(ws.take(k)) <= total_width(ws),
    decreases ws.len() - k,
{
    if k < ws.len() {
        lemma_prefix_width(ws, k + 1);
        assert(ws.take(k + 1).drop_last() =~= ws.take(k));
    } else {
        assert(ws.take(k) =~= ws);
    }
}

/// The layout of the gutter for open branches `names`: it is as long as
/// the columns' widths and separating spaces together; it holds one bar
/// per branch and no other; and branch `i`'s column, a bar centred in
/// `gutter_width(names[i])` characters and a space, starts where the
/// columns before it end, so its bar stands at that offset plus
/// `(gutter_width(names[i]) - 1) / 2`.
pub proof fn lemma_preamble_layout(names: Seq<Seq<char>>)
    ensures
        ({
            let ws = gutter_widths(names);
            let p = preamble(ws);
            &&& p.len() == total_width(ws)
            &&& bar_count(p) == names.len()
            &&& forall|i: int|
                0 <= i < names.len() ==> {
                    &&& p.subrange(
                        total_width(#[trigger] ws.take(i)) as int,
                        total_width(ws.take(i + 1)) as int,
                    ) == column(gutter_width(names[i]))
                    &&& p[total_width(ws.take(i)) + (gutter_width(names[i]) - 1) / 2] == '│'
                }
        }),
{
    let ws = gutter_widths(names);
    assert(ws.len() == names.len());
    assert forall|i: int| 0 <= i < ws.len() implies ws[i] >= 1 by {
        assert(ws[i] == gutter_width(names[i]));
    }
    lemma_layout(ws);
    let p = preamble(ws);
    assert forall|i: int| 0 <= i < names.len() implies {
        &&& p.subrange(
            total_width(#[trigger] ws.take(i)) as int,
            total_width(ws.take(i + 1)) as int,
        ) == column(gutter_width(names[i]))
        &&& p[total_width(ws.take(i)) + (gutter_width(names[i]) - 1) / 2] == '│'
    } by {
        let w = gutter_width(names[i]);
        assert(ws[i] == w);
        lemma_column_shape(w);
        let a = total_width(ws.take(i));
        let b = total_width(ws.take(i + 1));
        lemma_prefix_width(ws, i + 1);
        assert(ws.take(i + 1).drop_last() =~= ws.take(i));
        assert(ws.take(i + 1).last() == w);
        assert(b == a + w + 1);
        let sub = p.subrange(a as int, b as int);
        assert(sub == column(w));
        assert(sub[(w - 1) / 2] == '│');
        assert(p[a + (w - 1) / 2] == sub[(w - 1) / 2]);
    }
}

/// The gutter is a function of the open branches alone: drawn twice from
/// the same branches it is the same.
pub proof fn lemma_preamble_depends_on_branches(a: &BranchStack, b: &BranchStack)
    requires
        a.names() == b.names(),
    ensures
        a.preamble_text() == b.preamble_text(),
{
}

} // verus!
