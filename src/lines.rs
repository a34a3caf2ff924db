//! Lines of a text and their lengths in UTF-8 bytes.
use vstd::prelude::*;

verus! {

/// The number of bytes that `c` takes in UTF-8.
pub open spec fn utf8_len(c: char) -> nat {
    if (c as u32) < 0x80 {
        1
    } else if (c as u32) < 0x800 {
        2
    } else if (c as u32) < 0x10000 {
        3
    } else {
        4
    }
}

/// The number of bytes that `s` takes in UTF-8.
pub open spec fn byte_len(s: Seq<char>) -> nat
    decreases s.len(),
{
    if s.len() == 0 {
        0
    } else {
        byte_len(s.drop_last()) + utf8_len(s.last())
    }
}

/// `line` without one carriage return at its end.
pub open spec fn strip_cr(line: Seq<char>) -> Seq<char> {
    if line.len() > 0 && line.last() == '\r' {
        line.drop_last()
    } else {
        line
    }
}

/// The pieces of `s` between newlines: one more than there are newlines.
pub open spec fn pieces(s: Seq<char>) -> Seq<Seq<char>>
    decreases s.len(),
{
    if s.len() == 0 {
        seq![Seq::empty()]
    } else if s.last() == '\n' {
        pieces(s.drop_last()).push(Seq::empty())
    } else {
        let p = pieces(s.drop_last());
        p.update(p.len() - 1, p.last().push(s.last()))
    }
}

/// The lines of `s`: the pieces between newlines, each that a newline ends
/// without a carriage return before that newline, and no empty line after a
/// final newline. An empty text has no lines.
pub open spec fn text_lines(s: Seq<char>) -> Seq<Seq<char>> {
    let p = pieces(s);
    let ended = p.drop_last().map_values(|l: Seq<char>| strip_cr(l));
    if p.last().len() == 0 {
        ended
    } else {
        ended.push(p.last())
    }
}

/// The number of spaces that `line` starts with.
pub open spec fn lead_spaces(line: Seq<char>) -> nat
    decreases line.len(),
{
    if line.len() == 0 || line[0] != ' ' {
        0
    } else {
        1 + lead_spaces(line.drop_first())
    }
}

/// The byte length of the longest of `lines`, 0 for none.
pub open spec fn max_line_bytes(lines: Seq<Seq<char>>) -> nat
    decreases lines.len(),
{
    if lines.len() == 0 {
        0
    } else {
        vstd::math::max(max_line_bytes(lines.drop_last()) as int, byte_len(lines.last()) as int) as nat
    }
}

pub proof fn lemma_pieces_nonempty(s: Seq<char>)
    ensures
        pieces(s).len() >= 1,
    decreases s.len(),
{
    if s.len() > 0 {
        lemma_pieces_nonempty(s.drop_last());
    }
}

/// The bytes that `c` takes in UTF-8.
pub fn char_utf8_len(c: char) -> (r: usize)
    ensures
        r == utf8_len(c),
{
    let v = c as u32;
    if v < 0x80 {
        1
    } else if v < 0x800 {
        2
    } else if v < 0x10000 {
        3
    } else {
        4
    }
}

/// The bytes that `s` takes in UTF-8, or `None` where that exceeds `cap`.
pub fn byte_len_within(s: &Vec<char>, cap: usize) -> (r: Option<usize>)
    ensures
        r is Some <==> byte_len(s@) <= cap,
        r is Some ==> r->Some_0 == byte_len(s@),
{
    let mut total: usize = 0;
    let mut i: usize = 0;
    while i < s.len()
        invariant
            i <= s@.len(),
            total == byte_len(s@.subrange(0, i as int)),
            total <= cap,
        decreases s@.len() - i,
    {
        assert(s@.subrange(0, i + 1).drop_last() =~= s@.subrange(0, i as int));
        let n = char_utf8_len(s[i]);
        if n > cap || total > cap - n {
            proof {
                lemma_byte_len_prefix(s@, i as int + 1);
            }
            return None;
        }
        total = total + n;
        i = i + 1;
    }
    assert(s@.subrange(0, i as int) =~= s@);
    Some(total)
}

/// A prefix takes no more bytes than the whole.
pub proof fn lemma_byte_len_prefix(s: Seq<char>, k: int)
    requires
        0 <= k <= s.len(),
    ensures
        byte_len(s.subrange(0, k)) <= byte_len(s),
    decreases s.len() - k,
{
    if k < s.len() {
        lemma_byte_len_prefix(s, k + 1);
        assert(s.subrange(0, k + 1).drop_last() =~= s.subrange(0, k));
    } else {
        assert(s.subrange(0, k) =~= s);
    }
}

/// The number of spaces that `line` starts with.
pub fn leading_space_count(line: &Vec<char>) -> (r: usize)
    ensures
        r == lead_spaces(line@),
        r <= line@.len(),
{
    let mut i: usize = 0;
    assert(line@.skip(0) =~= line@);
    while i < line.len() && line[i] == ' '
        invariant
            i <= line@.len(),
            lead_spaces(line@) == i + lead_spaces(line@.skip(i as int)),
        decreases line@.len() - i,
    {
        assert(line@.skip(i as int).drop_first() =~= line@.skip(i + 1));
        i = i + 1;
    }
    i
}

/// The lines of `text`, as `str::lines` finds them.
pub fn split_lines(text: &Vec<char>) -> (r: Vec<Vec<char>>)
    ensures
        r@.len() == text_lines(text@).len(),
        forall|i: int| 0 <= i < r@.len() ==> #[trigger] r@[i]@ == text_lines(text@)[i],
        forall|i: int| 0 <= i < r@.len() ==> byte_len(#[trigger] r@[i]@) <= byte_len(text@),
{
    let mut lines: Vec<Vec<char>> = Vec::new();
    let mut cur: Vec<char> = Vec::new();
    let mut i: usize = 0;
    proof {
        assert(text@.subrange(0, 0) =~= Seq::<char>::empty());
    }
    while i < text.len()
        invariant
            i <= text@.len(),
            pieces(text@.subrange(0, i as int)).len() == lines@.len() + 1,
            cur@ == pieces(text@.subrange(0, i as int)).last(),
            forall|j: int|
                0 <= j < lines@.len() ==> #[trigger] lines@[j]@ == strip_cr(
                    pieces(text@.subrange(0, i as int))[j],
                ),
            forall|j: int|
                0 <= j < lines@.len() ==> byte_len(#[trigger] lines@[j]@) <= byte_len(
                    text@.subrange(0, i as int),
                ),
            byte_len(cur@) <= byte_len(text@.subrange(0, i as int)),
        decreases text@.len() - i,
    {
        let ghost prev = text@.subrange(0, i as int);
        let ghost next = text@.subrange(0, i + 1);
        assert(next.drop_last() =~= prev);
        let c = text[i];
        if c == '\n' {
            let mut line = cur;
            if line.len() > 0 && line[line.len() - 1] == '\r' {
                line.pop();
                assert(line@ =~= strip_cr(pieces(prev).last()));
                assert(byte_len(strip_cr(pieces(prev).last())) <= byte_len(pieces(prev).last()));
            }
            lines.push(line);
            cur = Vec::new();
            assert(cur@ =~= Seq::<char>::empty());
        } else {
            cur.push(c);
            assert(cur@ == pieces(prev).last().push(c));
            assert(cur@.drop_last() =~= pieces(prev).last());
        }
        i = i + 1;
    }
    assert(text@.subrange(0, i as int) =~= text@);
    proof {
        lemma_pieces_nonempty(text@);
    }
    if cur.len() > 0 {
        lines.push(cur);
    }
    let ghost p = pieces(text@);
    assert(lines@.len() == text_lines(text@).len());
    lines
}

/// The byte length of the longest of `lines`, 0 for none.
pub(crate) fn longest_line_bytes(lines: &Vec<Vec<char>>, text: Ghost<Seq<char>>) -> (r: usize)
    requires
        forall|i: int| 0 <= i < lines@.len() ==> byte_len(#[trigger] lines@[i]@) <= byte_len(text@),
        byte_len(text@) <= usize::MAX,
    ensures
        r == max_line_bytes(lines@.map_values(|l: Vec<char>| l@)),
        r <= byte_len(text@),
{
    let ghost views = lines@.map_values(|l: Vec<char>| l@);
    let mut max: usize = 0;
    let mut i: usize = 0;
    while i < lines.len()
        invariant
            i <= lines@.len(),
            views == lines@.map_values(|l: Vec<char>| l@),
            max == max_line_bytes(views.subrange(0, i as int)),
            max <= byte_len(text@),
            forall|i: int| 0 <= i < lines@.len() ==> byte_len(#[trigger] lines@[i]@) <= byte_len(text@),
            byte_len(text@) <= usize::MAX,
        decreases lines@.len() - i,
    {
        assert(views.subrange(0, i + 1).drop_last() =~= views.subrange(0, i as int));
        assert(views.subrange(0, i + 1).last() == lines@[i as int]@);
        let n = byte_len_within(&lines[i], usize::MAX);
        let n = match n {
            Some(n) => n,
            None => 0,
        };
        if n > max {
            max = n;
        }
        i = i + 1;
    }
    assert(views.subrange(0, i as int) =~= views);
    max
}

} // verus!
