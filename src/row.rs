//! A row: columns laid side by side into one block of lines.

use vstd::prelude::*;
use vstd::string::*;
use crate::column::Column;
use crate::lines::{
    count_newlines, is_single_line, join_lines, join_with_newlines, lemma_count_concat,
    lemma_join_lines_count, lemma_join_split, lemma_split_lines_len, lemma_split_pieces_single,
    split_at_newlines, split_lines,
};
use crate::text::{Alignment, display_width, pad_str, padded_str, repaired_str, repeat};

verus! {

/// The number of lines that a column contributes: the newlines of its block.
pub open spec fn line_count(c: Column) -> nat {
    count_newlines(c.output())
}

/// The height of a row of these columns: the largest line count among them.
pub open spec fn height(cols: Seq<Column>) -> nat
    decreases cols.len(),
{
    if cols.len() == 0 {
        0
    } else {
        let h = height(cols.drop_last());
        let c = line_count(cols.last());
        if c > h {
            c
        } else {
            h
        }
    }
}

/// What column `c` contributes to line `y` of a row: its own line `y`, or
/// nothing where it has no such line, padded to its width when it has one.
pub open spec fn segment(c: Column, y: int) -> Seq<char> {
    let parts = split_lines(c.output());
    let t = if 0 <= y < parts.len() {
        parts[y]
    } else {
        Seq::empty()
    };
    match c.width {
        Some(w) => padded_str(t, w as nat, c.align_spec(), c.pad_spec()),
        None => t,
    }
}

/// Line `y` of a row: the segments of its columns, left to right.
pub open spec fn line_at(cols: Seq<Column>, y: int) -> Seq<char>
    decreases cols.len(),
{
    if cols.len() == 0 {
        Seq::empty()
    } else {
        line_at(cols.drop_last(), y) + segment(cols.last(), y)
    }
}

/// The lines of a row, top to bottom.
pub open spec fn row_lines(cols: Seq<Column>) -> Seq<Seq<char>> {
    Seq::new(height(cols), |y: int| line_at(cols, y))
}

/// Columns in order, left to right.
#[derive(Clone, Debug, PartialEq)]
pub struct Row {
    pub columns: Vec<Column>,
}

impl Row {
    /// The rendered block: empty when no column has a line, else the row's
    /// lines, each followed by a newline.
    pub open spec fn output(&self) -> Seq<char> {
        if height(self.columns@) == 0 {
            Seq::empty()
        } else {
            join_lines(row_lines(self.columns@)) + seq!['\n']
        }
    }

    /// Whether every column renders, and every pad unit can fill a line: a
    /// column with a width is padded also where it has no line of its own.
    pub open spec fn renders(&self) -> bool {
        forall|i: int|
            0 <= i < self.columns.len() ==> (#[trigger] self.columns@[i]).renders()
                && self.columns@[i].pads()
    }

    /// A row without columns.
    pub fn new() -> (r: Self)
        ensures
            r.columns@ == Seq::<Column>::empty(),
    {
        Row { columns: Vec::new() }
    }

    /// The row with `column` added on the right.
    pub fn add_column(self, column: Column) -> (r: Self)
        ensures
            r.columns@ == self.columns@.push(column),
    {
        let mut columns = self.columns;
        columns.push(column);
        Row { columns }
    }

    /// Renders the row: each column is rendered, the row is as high as its
    /// highest column, and line `y` holds each column's line `y` in turn, with
    /// an empty line in place of a missing one; a column with a width pads its
    /// line, or the empty line, to that width.
    pub fn build(&self) -> (r: String)
        requires
            self.renders(),
        ensures
            r@ == self.output(),
            self.columns.len() == 1 && self.columns@[0].is_plain_text() ==> r@
                == self.columns@[0].text->0@ + seq!['\n'],
    {
        let n = self.columns.len();
        let ghost cols = self.columns@;
        let mut blocks: Vec<Vec<String>> = Vec::new();
        let mut h: usize = 0;
        let mut x: usize = 0;
        while x < n
            invariant
                n == cols.len(),
                cols == self.columns@,
                self.renders(),
                x <= n,
                blocks.len() == x,
                h == height(cols.subrange(0, x as int)),
                forall|j: int|
                    0 <= j < x ==> (#[trigger] cols[j]).is_plain_text() ==> cols[j].output()
                        == cols[j].text->0@ + seq!['\n'],
                forall|j: int|
                    0 <= j < x ==> (#[trigger] blocks@[j]).deep_view() == split_lines(
                        cols[j].output(),
                    ),
            decreases n - x,
        {
            assert(cols[x as int].renders());
            let s = self.columns[x].build();
            let parts = split_at_newlines(s.as_str());
            proof {
                lemma_split_lines_len(s@);
                assert(cols.subrange(0, x as int + 1).drop_last() =~= cols.subrange(0, x as int));
            }
            let count = parts.len() - 1;
            if count > h {
                h = count;
            }
            blocks.push(parts);
            x = x + 1;
        }
        assert(cols.subrange(0, n as int) =~= cols);
        proof {
            if n == 1 && cols[0].is_plain_text() {
                lemma_plain_single_column(cols);
            }
        }
        if h == 0 {
            return String::new();
        }
        let mut lines: Vec<String> = Vec::new();
        let mut y: usize = 0;
        while y < h
            invariant
                n == cols.len(),
                cols == self.columns@,
                self.renders(),
                blocks.len() == n,
                h == height(cols),
                n == 1 && cols[0].is_plain_text() ==> self.output() == cols[0].text->0@ + seq![
                    '\n',
                ],
                y <= h,
                lines.len() == y,
                forall|j: int|
                    0 <= j < n ==> (#[trigger] blocks@[j]).deep_view() == split_lines(
                        cols[j].output(),
                    ),
                forall|j: int| 0 <= j < y ==> #[trigger] lines.deep_view()[j] == line_at(cols, j),
            decreases h - y,
        {
            let mut line = String::new();
            let mut x: usize = 0;
            while x < n
                invariant
                    n == cols.len(),
                    cols == self.columns@,
                    self.renders(),
                    blocks.len() == n,
                    x <= n,
                    forall|j: int|
                        0 <= j < n ==> (#[trigger] blocks@[j]).deep_view() == split_lines(
                            cols[j].output(),
                        ),
                    line@ == line_at(cols.subrange(0, x as int), y as int),
                decreases n - x,
            {
                let col = &self.columns[x];
                assert(cols[x as int].renders());
                let block = &blocks[x];
                let text = if y < block.len() {
                    assert(block.deep_view()[y as int] == block@[y as int]@);
                    String::from_str(block[y].as_str())
                } else {
                    String::new()
                };
                let seg = match col.width {
                    Some(w) => pad_str(text.as_str(), w, col.text_align(), col.text_pad()),
                    None => text,
                };
                assert(seg@ == segment(cols[x as int], y as int));
                line.append(seg.as_str());
                assert(cols.subrange(0, x as int + 1).drop_last() =~= cols.subrange(0, x as int));
                x = x + 1;
            }
            assert(cols.subrange(0, n as int) =~= cols);
            let ghost done = lines.deep_view();
            lines.push(line);
            assert(lines.deep_view() =~= done.push(line_at(cols, y as int)));
            y = y + 1;
        }
        assert(lines.deep_view() =~= row_lines(cols));
        let mut out = join_with_newlines(&lines);
        out.append("\n");
        proof {
            reveal_strlit("\n");
        }
        out
    }

    /// Renders the row when every column renders, and gives `None` when one
    /// does not.
    pub fn try_build(&self) -> (r: Option<String>)
        ensures
            r is Some <==> self.renders(),
            r is Some ==> r->0@ == self.output(),
    {
        let n = self.columns.len();
        let mut x: usize = 0;
        while x < n
            invariant
                n == self.columns.len(),
                x <= n,
                forall|j: int|
                    0 <= j < x ==> (#[trigger] self.columns@[j]).renders()
                        && self.columns@[j].pads(),
            decreases n - x,
        {
            if !self.columns[x].can_render() || !self.columns[x].can_pad() {
                return None;
            }
            x = x + 1;
        }
        Some(self.build())
    }
}

/// A single column of plain text, with nothing that formats it, renders as
/// its text followed by a newline.
proof fn lemma_plain_single_column(cols: Seq<Column>)
    requires
        cols.len() == 1,
        cols[0].is_plain_text(),
        cols[0].output() == cols[0].text->0@ + seq!['\n'],
    ensures
        height(cols) > 0,
        join_lines(row_lines(cols)) + seq!['\n'] == cols[0].text->0@ + seq!['\n'],
{
    let t = cols[0].text->0@;
    let o = cols[0].output();
    assert(o.drop_last() =~= t);
    lemma_split_lines_len(t);
    lemma_split_lines_len(o);
    assert(cols.drop_last().len() == 0);
    assert(cols.last() == cols[0]);
    assert(height(cols.drop_last()) == 0);
    let parts = split_lines(t);
    assert forall|y: int| 0 <= y < height(cols) implies #[trigger] line_at(cols, y) == parts[y] by {
        assert(line_at(cols.drop_last(), y) == Seq::<char>::empty());
        assert(split_lines(o)[y] == parts[y]);
        assert(line_at(cols, y) =~= segment(cols[0], y));
    }
    assert(row_lines(cols) =~= parts);
    lemma_join_split(t);
}

/// The height of a row is the largest line count among its columns: no
/// column has more lines, and when there are columns, one has exactly as many.
pub proof fn lemma_height_is_max(cols: Seq<Column>)
    ensures
        forall|i: int| 0 <= i < cols.len() ==> line_count(#[trigger] cols[i]) <= height(cols),
        cols.len() > 0 ==> exists|i: int|
            0 <= i < cols.len() && line_count(#[trigger] cols[i]) == height(cols),
    decreases cols.len(),
{
    if cols.len() > 0 {
        let prev = cols.drop_last();
        lemma_height_is_max(prev);
        assert forall|i: int| 0 <= i < cols.len() implies line_count(#[trigger] cols[i]) <= height(
            cols,
        ) by {
            if i < prev.len() {
                assert(cols[i] == prev[i]);
            }
        }
        if line_count(cols.last()) > height(prev) || prev.len() == 0 {
            assert(line_count(cols[cols.len() - 1]) == height(cols));
        } else {
            let i = choose|i: int| 0 <= i < prev.len() && line_count(#[trigger] prev[i]) == height(prev);
            assert(cols[i] == prev[i]);
        }
    }
}

/// A row renders as many lines as its highest column has, and nothing when
/// no column has a line.
pub proof fn lemma_row_height(r: Row)
    ensures
        row_lines(r.columns@).len() == height(r.columns@),
        (forall|i: int|
            0 <= i < r.columns.len() ==> is_single_line((#[trigger] r.columns@[i]).pad_spec()))
            ==> count_newlines(r.output()) == height(r.columns@),
        forall|i: int|
            0 <= i < r.columns.len() ==> line_count(#[trigger] r.columns@[i]) <= height(r.columns@),
        r.columns.len() > 0 ==> exists|i: int|
            0 <= i < r.columns.len() && line_count(#[trigger] r.columns@[i]) == height(r.columns@),
        height(r.columns@) == 0 <==> r.output() == Seq::<char>::empty(),
{
    let cols = r.columns@;
    lemma_height_is_max(cols);
    if (forall|i: int| 0 <= i < cols.len() ==> is_single_line((#[trigger] cols[i]).pad_spec()))
        && height(cols) > 0 {
        let lines = row_lines(cols);
        assert forall|y: int| 0 <= y < lines.len() implies is_single_line(#[trigger] lines[y]) by {
            lemma_line_single(cols, y);
        }
        lemma_join_lines_count(lines);
        lemma_count_concat(join_lines(lines), seq!['\n']);
        assert(seq!['\n'].drop_last() =~= Seq::<char>::empty());
        assert(count_newlines(Seq::<char>::empty()) == 0);
    }
}

/// Copies of a unit without newlines hold none.
proof fn lemma_repeat_single(unit: Seq<char>, n: nat)
    requires
        is_single_line(unit),
    ensures
        is_single_line(repeat(unit, n)),
    decreases n,
{
    if n > 0 {
        lemma_repeat_single(unit, (n - 1) as nat);
    }
}

/// What a column contributes to a line holds no newline when its pad unit
/// holds none.
proof fn lemma_segment_single(c: Column, y: int)
    requires
        is_single_line(c.pad_spec()),
    ensures
        is_single_line(segment(c, y)),
{
    let parts = split_lines(c.output());
    lemma_split_pieces_single(c.output());
    let t = if 0 <= y < parts.len() {
        parts[y]
    } else {
        Seq::empty()
    };
    assert(is_single_line(t));
    if let Some(w) = c.width {
        let diff = (w - display_width(t)) as nat;
        let copies = diff / display_width(c.pad_spec());
        lemma_repeat_single(c.pad_spec(), copies);
        lemma_repeat_single(c.pad_spec(), copies / 2);
        lemma_repeat_single(c.pad_spec(), 0);
        lemma_repeat_single(c.pad_spec(), (diff - copies / 2) as nat);
        let seg = segment(c, y);
        assert(is_single_line(seg));
    }
}

/// A line of a row holds no newline when no pad unit of its columns does.
proof fn lemma_line_single(cols: Seq<Column>, y: int)
    requires
        forall|i: int| 0 <= i < cols.len() ==> is_single_line((#[trigger] cols[i]).pad_spec()),
    ensures
        is_single_line(line_at(cols, y)),
    decreases cols.len(),
{
    if cols.len() > 0 {
        let prev = cols.drop_last();
        assert forall|i: int| 0 <= i < prev.len() implies is_single_line(
            (#[trigger] prev[i]).pad_spec(),
        ) by {
            assert(prev[i] == cols[i]);
        }
        lemma_line_single(prev, y);
        assert(is_single_line(cols[cols.len() - 1].pad_spec()));
        lemma_segment_single(cols.last(), y);
    }
}

/// Whether `s` is copies of `unit` alone.
pub open spec fn is_fill(s: Seq<char>, unit: Seq<char>) -> bool {
    exists|a: nat, b: nat| s == #[trigger] repeat(unit, a) + #[trigger] repeat(unit, b)
}

/// Where a column has no line of its own at a row index below the row's
/// height, and the column has a width, what it contributes there is made of
/// its pad unit alone.
pub proof fn lemma_missing_line_is_fill(r: Row, x: int, y: int)
    requires
        0 <= x < r.columns.len(),
        line_count(r.columns@[x]) <= y < height(r.columns@),
        r.columns@[x].width is Some,
    ensures
        is_fill(segment(r.columns@[x], y), r.columns@[x].pad_spec()),
{
    let c = r.columns@[x];
    let o = c.output();
    let parts = split_lines(o);
    let unit = c.pad_spec();
    let w = c.width->0 as nat;
    if c.text is None {
        assert(parts =~= seq![Seq::<char>::empty()]);
    } else {
        assert(o.drop_last() =~= repaired_str(c.laid_out()));
        lemma_split_lines_len(o.drop_last());
        lemma_split_lines_len(o);
    }
    let t = if 0 <= y < parts.len() {
        parts[y]
    } else {
        Seq::empty()
    };
    assert(t =~= Seq::<char>::empty());
    let seg = segment(c, y);
    let fill: (nat, nat) = if display_width(t) >= w {
        assert(seg =~= repeat(unit, 0) + repeat(unit, 0));
        (0, 0)
    } else {
        let diff = (w - display_width(t)) as nat;
        let copies = diff / display_width(unit);
        let fill = match c.align_spec() {
            Alignment::Left => (0nat, copies),
            Alignment::Right => (copies, 0nat),
            Alignment::Center => (copies / 2, (diff - copies / 2) as nat),
        };
        assert(seg =~= repeat(unit, fill.0) + repeat(unit, fill.1));
        fill
    };
    assert(segment(r.columns@[x], y) == repeat(r.columns@[x].pad_spec(), fill.0) + repeat(
        r.columns@[x].pad_spec(),
        fill.1,
    ));
    lemma_fill_witness(seg, unit, fill.0, fill.1);
}

proof fn lemma_fill_witness(s: Seq<char>, unit: Seq<char>, a: nat, b: nat)
    requires
        s == repeat(unit, a) + repeat(unit, b),
    ensures
        is_fill(s, unit),
{
}

/// Rendering is a function of the configuration: two rows that are set alike
/// render alike, so rendering one row twice gives the same text.
pub proof fn lemma_row_render_deterministic(a: Row, b: Row)
    requires
        a == b,
    ensures
        a.output() == b.output(),
        a.renders() == b.renders(),
{
}

} // verus!
