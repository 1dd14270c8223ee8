//! Text pieces of the output: the gutter columns and the lines of a message.
use vstd::prelude::*;

verus! {

/// The characters of each string, in order.
pub open spec fn views(v: Seq<String>) -> Seq<Seq<char>> {
    v.map_values(|s: String| s@)
}

/// `n` spaces.
pub open spec fn spaces(n: nat) -> Seq<char> {
    Seq::new(n, |i: int| ' ')
}

/// One gutter column of width `w`: a bar centred in a field of `w`
/// characters (an odd leftover space goes right), then one separating space.
pub open spec fn column(w: nat) -> Seq<char> {
    let pad: nat = if w >= 1 { (w - 1) as nat } else { 0 };
    let left: nat = pad / 2;
    spaces(left) + seq!['│'] + spaces((pad - left) as nat) + seq![' ']
}

/// The gutter for columns of the given widths, outermost first.
pub open spec fn preamble(widths: Seq<nat>) -> Seq<char>
    decreases widths.len(),
{
    if widths.len() == 0 {
        Seq::empty()
    } else {
        preamble(widths.drop_last()) + column(widths.last())
    }
}

/// The pieces of `s` between line feeds: one more than it has line feeds.
pub open spec fn split_lines(s: Seq<char>) -> Seq<Seq<char>>
    decreases s.len(),
{
    if s.len() == 0 {
        seq![Seq::empty()]
    } else {
        let p = split_lines(s.drop_last());
        if s.last() == '\n' {
            p.push(Seq::empty())
        } else {
            p.update(p.len() - 1, p.last().push(s.last()))
        }
    }
}

/// A line that ended at a line feed, less the carriage return, if any,
/// that stood just before that line feed.
pub open spec fn strip_cr(l: Seq<char>) -> Seq<char> {
    if l.len() > 0 && l.last() == '\r' {
        l.drop_last()
    } else {
        l
    }
}

/// The lines of `s`: its pieces between line feeds, where each piece that a
/// line feed ends loses a carriage return just before it (so `\r\n` ends a
/// line as `\n` does), less an empty last piece (a final line ending ends
/// the last line and starts none).
pub open spec fn lines(s: Seq<char>) -> Seq<Seq<char>> {
    let p = split_lines(s);
    let ended = p.drop_last().map_values(|l: Seq<char>| strip_cr(l));
    if p.last().len() == 0 {
        ended
    } else {
        ended.push(p.last())
    }
}

/// The lines of `t`, as `lines` gives them.
pub fn text_lines(t: &str) -> (r: Vec<String>)
    ensures
        views(r@) == lines(t@),
{
    let n = t.unicode_len();
    let mut pieces: Vec<String> = Vec::new();
    let ghost raw: Seq<Seq<char>> = Seq::empty();
    let mut start: usize = 0;
    let mut i: usize = 0;
    assert(t@.take(0) =~= Seq::<char>::empty());
    assert(views(pieces@) =~= raw.map_values(|l: Seq<char>| strip_cr(l)));
    assert(raw.push(t@.subrange(0, 0)) =~= split_lines(t@.take(0)));
    while i < n
        invariant
            n as nat == t@.len(),
            start <= i <= n,
            raw.push(t@.subrange(start as int, i as int)) == split_lines(t@.take(i as int)),
            views(pieces@) == raw.map_values(|l: Seq<char>| strip_cr(l)),
        decreases n - i,
    {
        let c = t.get_char(i);
        proof {
            assert(t@.take(i + 1).drop_last() =~= t@.take(i as int));
            assert(t@.take(i + 1).last() == c);
        }
        let ghost before = views(pieces@);
        let ghost p = split_lines(t@.take(i as int));
        let ghost piece_raw = t@.subrange(start as int, i as int);
        if c == '\n' {
            let mut end: usize = i;
            if i > start {
                let d = t.get_char(i - 1);
                if d == '\r' {
                    end = i - 1;
                }
            }
            let piece = String::from_str(t.substring_char(start, end));
            pieces.push(piece);
            proof {
                assert(t@.subrange(start as int, end as int) =~= strip_cr(piece_raw));
                assert(views(pieces@) =~= before.push(strip_cr(piece_raw)));
                let old_raw = raw;
                raw = raw.push(piece_raw);
                assert(raw.map_values(|l: Seq<char>| strip_cr(l)) =~= old_raw.map_values(
                    |l: Seq<char>| strip_cr(l),
                ).push(strip_cr(piece_raw)));
                assert(views(pieces@) =~= raw.map_values(|l: Seq<char>| strip_cr(l)));
            }
            start = i + 1;
            assert(t@.subrange(start as int, i + 1) =~= Seq::<char>::empty());
            assert(split_lines(t@.take(i + 1)) == p.push(Seq::empty()));
            assert(raw.push(t@.subrange(start as int, i + 1)) =~= split_lines(t@.take(i + 1)));
        } else {
            assert(t@.subrange(start as int, i + 1) =~= piece_raw.push(c));
            assert(raw.push(t@.subrange(start as int, i + 1)) =~= split_lines(t@.take(i + 1)));
        }
        i = i + 1;
    }
    assert(t@.take(n as int) =~= t@);
    assert(split_lines(t@).drop_last() =~= raw);
    let last = t.substring_char(start, n);
    if last.unicode_len() > 0 {
        pieces.push(String::from_str(last));
        assert(views(pieces@) =~= lines(t@));
    } else {
        assert(views(pieces@) =~= lines(t@));
    }
    pieces
}

/// One gutter column of width `w`, as `column` gives it.
pub fn column_text(w: usize) -> (r: String)
    ensures
        r@ == column(w as nat),
{
    let pad: usize = if w >= 1 { w - 1 } else { 0 };
    let left: usize = pad / 2;
    let mut s = String::new();
    let mut k: usize = 0;
    while k < left
        invariant
            k <= left,
            s@ == spaces(k as nat),
        decreases left - k,
    {
        s.append(" ");
        proof {
            reveal_strlit(" ");
            assert(spaces((k + 1) as nat) =~= spaces(k as nat) + " "@);
        }
        k = k + 1;
    }
    s.append("│");
    let mut k: usize = 0;
    let ghost head = s@;
    while k < pad - left
        invariant
            k <= pad - left,
            left <= pad,
            s@ == head + spaces(k as nat),
        decreases pad - left - k,
    {
        s.append(" ");
        proof {
            reveal_strlit(" ");
            assert(spaces((k + 1) as nat) =~= spaces(k as nat) + " "@);
            assert(head + spaces((k + 1) as nat) =~= head + spaces(k as nat) + " "@);
        }
        k = k + 1;
    }
    s.append(" ");
    proof {
        reveal_strlit(" ");
        reveal_strlit("│");
        assert(s@ =~= column(w as nat));
    }
    s
}

} // verus!
