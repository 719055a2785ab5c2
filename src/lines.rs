//! Splitting text at newlines and joining lines back together.

use vstd::prelude::*;
use vstd::string::*;

verus! {

/// The pieces of `s` between newline characters, in order. An empty text is
/// one empty piece, and a text that ends with a newline ends with an empty piece.
pub open spec fn split_lines(s: Seq<char>) -> Seq<Seq<char>>
    decreases s.len(),
{
    if s.len() == 0 {
        seq![Seq::<char>::empty()]
    } else {
        let prev = split_lines(s.drop_last());
        if s.last() == '\n' {
            prev.push(Seq::empty())
        } else {
            prev.update(prev.len() - 1, prev.last().push(s.last()))
        }
    }
}

/// How many newline characters `s` holds.
pub open spec fn count_newlines(s: Seq<char>) -> nat
    decreases s.len(),
{
    if s.len() == 0 {
        0
    } else {
        count_newlines(s.drop_last()) + if s.last() == '\n' { 1nat } else { 0nat }
    }
}

/// The lines, with one newline between each two of them.
pub open spec fn join_lines(lines: Seq<Seq<char>>) -> Seq<char>
    decreases lines.len(),
{
    if lines.len() == 0 {
        Seq::empty()
    } else if lines.len() == 1 {
        lines[0]
    } else {
        join_lines(lines.drop_last()) + seq!['\n'] + lines.last()
    }
}

/// Whether `s` holds no newline character.
pub open spec fn is_single_line(s: Seq<char>) -> bool {
    forall|i: int| 0 <= i < s.len() ==> s[i] != '\n'
}

/// A text has one more piece than it has newlines.
pub proof fn lemma_split_lines_len(s: Seq<char>)
    ensures
        split_lines(s).len() == count_newlines(s) + 1,
    decreases s.len(),
{
    if s.len() > 0 {
        lemma_split_lines_len(s.drop_last());
    }
}

/// No piece of a split text holds a newline.
pub proof fn lemma_split_pieces_single(s: Seq<char>)
    ensures
        forall|i: int|
            0 <= i < split_lines(s).len() ==> is_single_line(#[trigger] split_lines(s)[i]),
    decreases s.len(),
{
    if s.len() > 0 {
        lemma_split_pieces_single(s.drop_last());
        lemma_split_lines_len(s.drop_last());
        let prev = split_lines(s.drop_last());
        if s.last() != '\n' {
            assert(is_single_line(prev.last().push(s.last())));
            assert forall|i: int| 0 <= i < split_lines(s).len() implies is_single_line(
                #[trigger] split_lines(s)[i],
            ) by {
                if i < prev.len() - 1 {
                    assert(split_lines(s)[i] == prev[i]);
                }
            }
        } else {
            assert forall|i: int| 0 <= i < split_lines(s).len() implies is_single_line(
                #[trigger] split_lines(s)[i],
            ) by {
                if i < prev.len() {
                    assert(split_lines(s)[i] == prev[i]);
                }
            }
        }
    }
}

/// Joining the pieces of a text with newlines gives the text back.
pub proof fn lemma_join_split(s: Seq<char>)
    ensures
        join_lines(split_lines(s)) == s,
    decreases s.len(),
{
    if s.len() > 0 {
        let prev = split_lines(s.drop_last());
        lemma_join_split(s.drop_last());
        lemma_split_lines_len(s.drop_last());
        if s.last() == '\n' {
            assert(prev.push(Seq::empty()).drop_last() =~= prev);
            assert(s =~= s.drop_last() + seq!['\n'] + Seq::empty());
        } else {
            let next = prev.update(prev.len() - 1, prev.last().push(s.last()));
            if prev.len() == 1 {
                assert(s =~= s.drop_last().push(s.last()));
            } else {
                assert(next.drop_last() =~= prev.drop_last());
                assert(join_lines(prev) == join_lines(prev.drop_last()) + seq!['\n'] + prev.last());
                assert(s =~= s.drop_last().push(s.last()));
                assert(s =~= join_lines(prev.drop_last()) + seq!['\n'] + prev.last().push(s.last()));
            }
        }
    }
}

/// Joining lines that hold no newline gives a text with one newline fewer
/// than there are lines.
pub proof fn lemma_join_lines_count(lines: Seq<Seq<char>>)
    requires
        lines.len() > 0,
        forall|i: int| 0 <= i < lines.len() ==> is_single_line(#[trigger] lines[i]),
    ensures
        count_newlines(join_lines(lines)) + 1 == lines.len(),
    decreases lines.len(),
{
    if lines.len() == 1 {
        lemma_single_line_count(lines[0]);
    } else {
        let prev = lines.drop_last();
        assert forall|i: int| 0 <= i < prev.len() implies is_single_line(#[trigger] prev[i]) by {
            assert(prev[i] == lines[i]);
        }
        lemma_join_lines_count(prev);
        lemma_count_concat(join_lines(prev), seq!['\n']);
        lemma_count_concat(join_lines(prev) + seq!['\n'], lines.last());
        lemma_single_line_count(lines.last());
        assert(count_newlines(seq!['\n']) == 1) by {
            assert(seq!['\n'].drop_last() =~= Seq::<char>::empty());
            assert(count_newlines(Seq::<char>::empty()) == 0);
        }
    }
}

/// A text without newlines counts none.
pub proof fn lemma_single_line_count(s: Seq<char>)
    requires
        is_single_line(s),
    ensures
        count_newlines(s) == 0,
    decreases s.len(),
{
    if s.len() > 0 {
        lemma_single_line_count(s.drop_last());
    }
}

/// Newlines of a concatenation add up.
pub proof fn lemma_count_concat(a: Seq<char>, b: Seq<char>)
    ensures
        count_newlines(a + b) == count_newlines(a) + count_newlines(b),
    decreases b.len(),
{
    if b.len() == 0 {
        assert(a + b =~= a);
    } else {
        assert((a + b).drop_last() =~= a + b.drop_last());
        lemma_count_concat(a, b.drop_last());
    }
}

/// Splits `s` at its newline characters.
pub fn split_at_newlines(s: &str) -> (r: Vec<String>)
    ensures
        r.deep_view() == split_lines(s@),
{
    let n = s.unicode_len();
    let mut out: Vec<String> = Vec::new();
    let mut start: usize = 0;
    let mut i: usize = 0;
    assert(s@.subrange(0, 0) =~= Seq::<char>::empty());
    assert(out.deep_view().push(s@.subrange(0, 0)) =~= seq![Seq::<char>::empty()]);
    while i < n
        invariant
            n == s@.len(),
            start <= i <= n,
            out.deep_view().push(s@.subrange(start as int, i as int)) == split_lines(
                s@.subrange(0, i as int),
            ),
        decreases n - i,
    {
        let c = s.get_char(i);
        let ghost before = s@.subrange(0, i as int);
        let ghost done = out.deep_view();
        assert(s@.subrange(0, i as int + 1).drop_last() =~= before);
        if c == '\n' {
            let piece = String::from_str(s.substring_char(start, i));
            out.push(piece);
            assert(out.deep_view() =~= done.push(s@.subrange(start as int, i as int)));
            start = i + 1;
            assert(s@.subrange(start as int, start as int) =~= Seq::<char>::empty());
        } else {
            assert(s@.subrange(start as int, i as int + 1) =~= s@.subrange(
                start as int,
                i as int,
            ).push(c));
            assert(done.push(s@.subrange(start as int, i as int)).update(
                done.len() as int,
                s@.subrange(start as int, i as int + 1),
            ) =~= done.push(s@.subrange(start as int, i as int + 1)));
        }
        i = i + 1;
    }
    let piece = String::from_str(s.substring_char(start, n));
    let ghost done = out.deep_view();
    out.push(piece);
    assert(out.deep_view() =~= done.push(s@.subrange(start as int, n as int)));
    assert(s@.subrange(0, n as int) =~= s@);
    out
}

/// Joins `lines` with one newline between each two of them.
pub fn join_with_newlines(lines: &Vec<String>) -> (r: String)
    ensures
        r@ == join_lines(lines.deep_view()),
{
    let n = lines.len();
    if n == 0 {
        return String::new();
    }
    let mut out = String::from_str(lines[0].as_str());
    let mut i: usize = 1;
    assert(lines.deep_view().subrange(0, 1).drop_last().len() == 0);
    while i < n
        invariant
            n == lines.len(),
            1 <= i <= n,
            out@ == join_lines(lines.deep_view().subrange(0, i as int)),
        decreases n - i,
    {
        let ghost prev = out@;
        out.append("\n");
        out.append(lines[i].as_str());
        proof {
            reveal_strlit("\n");
            let dv = lines.deep_view();
            assert(dv.subrange(0, i as int + 1).drop_last() =~= dv.subrange(0, i as int));
            assert(out@ =~= prev + seq!['\n'] + dv[i as int]);
        }
        i = i + 1;
    }
    assert(lines.deep_view().subrange(0, n as int) =~= lines.deep_view());
    out
}

} // verus!
