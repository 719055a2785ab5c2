//! A cell: one formatted slot of a row, rendered as a sequence of lines.

use vstd::prelude::*;
use vstd::string::*;
use crate::text::{
    Alignment, ends_with, has_escape, is_ascii_chars, split_fill, starts_with, visible_width, pad_text, padded_text, repair_text, repaired_text,
    text_width_of, truncate_text, truncated_text, truncates_text_safely, wrap_text,
    wrapped_text,
};

verus! {

/// A formatted slot of a row. Every setting is optional; the getters give the
/// defaults: left alignment, the tail `"..."` and a space as pad character.
#[derive(Clone, Debug, PartialEq)]
pub struct Cell {
    /// Width in visible columns of every line; unset keeps the text on one line.
    pub width: Option<usize>,
    /// The content; unset renders no line at all.
    pub text: Option<String>,
    /// Width to which the text is truncated before it is wrapped.
    pub text_width: Option<usize>,
    /// The alignment: it decides where truncation puts the tail and on which
    /// sides padding goes.
    pub text_align: Option<Alignment>,
    /// Marker that stands where truncation cut text away.
    pub text_tail: Option<String>,
    /// Character that fills each line up to `width`.
    pub text_pad: Option<char>,
}

impl Cell {
    /// The alignment in force.
    pub open spec fn align_spec(&self) -> Alignment {
        match self.text_align {
            Some(a) => a,
            None => Alignment::Left,
        }
    }

    /// The truncation tail in force.
    pub open spec fn tail_spec(&self) -> Seq<char> {
        match self.text_tail {
            Some(t) => t@,
            None => seq!['.', '.', '.'],
        }
    }

    /// The pad character in force.
    pub open spec fn pad_spec(&self) -> char {
        match self.text_pad {
            Some(c) => c,
            None => ' ',
        }
    }

    /// The text after truncation, when truncation is set.
    pub open spec fn cut_text(&self) -> Seq<char> {
        let t = self.text->0@;
        match self.text_width {
            Some(tw) => truncated_text(t, tw as nat, self.align_spec(), self.tail_spec()),
            None => t,
        }
    }

    /// The lines before repair: the cut text wrapped at `width` with each line
    /// padded to it, or the cut text as one line when no width is set.
    pub open spec fn laid_out(&self) -> Seq<Seq<char>> {
        match self.width {
            Some(w) => wrapped_text(self.cut_text(), w as nat).map_values(
                |l: Seq<char>| padded_text(l, w as nat, self.align_spec(), self.pad_spec()),
            ),
            None => seq![self.cut_text()],
        }
    }

    /// The rendered lines: none without text, else the laid-out lines with
    /// their escape codes repaired.
    pub open spec fn rows(&self) -> Seq<Seq<char>> {
        match self.text {
            None => Seq::empty(),
            Some(_) => repaired_text(self.laid_out()),
        }
    }

    /// Whether rendering stays within what truncation can do.
    pub open spec fn renders(&self) -> bool {
        match (self.text, self.text_width) {
            (Some(t), Some(tw)) => truncates_text_safely(t@, tw as nat, self.tail_spec()),
            _ => true,
        }
    }

    /// A cell with nothing set.
    pub fn new() -> (r: Self)
        ensures
            r.width is None,
            r.text is None,
            r.text_width is None,
            r.text_align is None,
            r.text_tail is None,
            r.text_pad is None,
    {
        Cell {
            width: None,
            text: None,
            text_width: None,
            text_align: None,
            text_tail: None,
            text_pad: None,
        }
    }

    /// The cell width.
    pub fn width(&self) -> (r: &Option<usize>)
        ensures
            *r == self.width,
    {
        &self.width
    }

    /// The cell text.
    pub fn text(&self) -> (r: &Option<String>)
        ensures
            *r == self.text,
    {
        &self.text
    }

    /// The truncation width.
    pub fn text_width(&self) -> (r: &Option<usize>)
        ensures
            *r == self.text_width,
    {
        &self.text_width
    }

    /// The alignment, left when unset.
    pub fn text_align(&self) -> (r: Alignment)
        ensures
            r == self.align_spec(),
    {
        match self.text_align {
            Some(a) => a,
            None => Alignment::Left,
        }
    }

    /// The truncation tail, `"..."` when unset.
    pub fn text_tail(&self) -> (r: &str)
        ensures
            r@ == self.tail_spec(),
    {
        match &self.text_tail {
            Some(t) => t.as_str(),
            None => {
                proof {
                    reveal_strlit("...");
                }
                "..."
            },
        }
    }

    /// The pad character, a space when unset.
    pub fn text_pad(&self) -> (r: char)
        ensures
            r == self.pad_spec(),
    {
        match self.text_pad {
            Some(c) => c,
            None => ' ',
        }
    }

    /// The cell with its width set.
    pub fn set_width(self, width: usize) -> (r: Self)
        ensures
            r == (Cell { width: Some(width), ..self }),
    {
        Cell { width: Some(width), ..self }
    }

    /// The cell with its text set.
    pub fn set_text(self, text: &str) -> (r: Self)
        ensures
            r.text is Some && r.text->0@ == text@,
            r == (Cell { text: r.text, ..self }),
    {
        Cell { text: Some(String::from_str(text)), ..self }
    }

    /// The cell with its truncation width set.
    pub fn set_text_width(self, width: usize) -> (r: Self)
        ensures
            r == (Cell { text_width: Some(width), ..self }),
    {
        Cell { text_width: Some(width), ..self }
    }

    /// The cell with its alignment set.
    pub fn set_text_align(self, align: Alignment) -> (r: Self)
        ensures
            r == (Cell { text_align: Some(align), ..self }),
    {
        Cell { text_align: Some(align), ..self }
    }

    /// The cell with its truncation tail set.
    pub fn set_text_tail(self, tail: &str) -> (r: Self)
        ensures
            r.text_tail is Some && r.text_tail->0@ == tail@,
            r == (Cell { text_tail: r.text_tail, ..self }),
    {
        Cell { text_tail: Some(String::from_str(tail)), ..self }
    }

    /// The cell with its pad character set.
    pub fn set_text_pad(self, pad: char) -> (r: Self)
        ensures
            r == (Cell { text_pad: Some(pad), ..self }),
    {
        Cell { text_pad: Some(pad), ..self }
    }

    /// Renders the cell: truncates the text when a truncation width is set,
    /// wraps it and pads each line when a width is set, and repairs the escape
    /// codes across the lines.
    pub fn build_rows(&self) -> (r: Vec<String>)
        requires
            self.renders(),
        ensures
            r.deep_view() == self.rows(),
            r.len() == self.rows().len(),
            self.text is Some ==> r.len() == self.laid_out().len(),
            self.text is Some && self.width is None ==> r.len() == 1,
            self.text is Some && self.text_width is Some && visible_width(self.text->0@)
                <= self.text_width->0 ==> self.cut_text() == self.text->0@,
            self.text is Some && self.text_width is Some && visible_width(self.text->0@)
                > self.text_width->0 && self.align_spec() == Alignment::Left ==> ends_with(
                self.cut_text(),
                self.tail_spec(),
            ),
            self.text is Some && self.text_width is Some && visible_width(self.text->0@)
                > self.text_width->0 && self.align_spec() == Alignment::Right ==> starts_with(
                self.cut_text(),
                self.tail_spec(),
            ),
            self.text is Some && (forall|i: int|
                0 <= i < self.laid_out().len() ==> !has_escape(#[trigger] self.laid_out()[i]))
                ==> r.deep_view() == self.laid_out(),
            self.text is Some && self.width is None && self.text_width is None && !has_escape(
                self.text->0@,
            ) ==> r.deep_view() == seq![self.text->0@],
            self.text is Some && self.width is None && self.align_spec() == Alignment::Right
                && self.text_width is Some && visible_width(self.text->0@)
                > self.text_width->0 ==> r.len() == 1 && starts_with(r@[0]@, self.tail_spec()),
    {
        let text = match &self.text {
            Some(t) => t,
            None => return Vec::new(),
        };
        let align = self.text_align();
        let cut = match self.text_width {
            Some(tw) => truncate_text(text.as_str(), tw, align, self.text_tail()),
            None => String::from_str(text.as_str()),
        };
        assert(cut@ == self.cut_text());
        let mut lines: Vec<String> = Vec::new();
        match self.width {
            Some(w) => {
                let pad = self.text_pad();
                let wrapped = wrap_text(cut.as_str(), w);
                let mut i: usize = 0;
                while i < wrapped.len()
                    invariant
                        i <= wrapped.len(),
                        lines.len() == i,
                        wrapped.deep_view() == wrapped_text(cut@, w as nat),
                        forall|j: int|
                            0 <= j < i ==> #[trigger] lines.deep_view()[j] == padded_text(
                                wrapped.deep_view()[j],
                                w as nat,
                                align,
                                pad,
                            ),
                    decreases wrapped.len() - i,
                {
                    let ghost before = lines.deep_view();
                    assert(wrapped.deep_view()[i as int] == wrapped@[i as int]@);
                    let line = pad_text(wrapped[i].as_str(), w, align, pad);
                    lines.push(line);
                    assert(lines.deep_view() =~= before.push(lines@[i as int]@));
                    i = i + 1;
                }
                assert(lines.deep_view() =~= self.laid_out());
            },
            None => {
                lines.push(cut);
                assert(lines.deep_view() =~= self.laid_out());
            },
        }
        let ghost laid = lines.deep_view();
        let r = repair_text(lines);
        proof {
            if self.width is None && self.align_spec() == Alignment::Right
                && self.text_width is Some && visible_width(text@) > self.text_width->0 {
                assert(laid[0] == cut@);
                assert(r.deep_view()[0] == r@[0]@);
                assert(r@[0]@.subrange(0, cut@.len() as int).subrange(
                    0,
                    self.tail_spec().len() as int,
                ) =~= r@[0]@.subrange(0, self.tail_spec().len() as int));
            }
        }
        r
    }

    /// Renders the cell when truncation can do what it is set to, and gives
    /// `None` when it cannot: when the text is wider than the truncation width
    /// and the tail is wider too, or the text holds non-ASCII characters.
    pub fn try_build_rows(&self) -> (r: Option<Vec<String>>)
        ensures
            r is Some <==> self.renders(),
            r is Some ==> r->0.deep_view() == self.rows(),
    {
        if let (Some(t), Some(tw)) = (&self.text, self.text_width) {
            if text_width_of(t.as_str()) > tw {
                if text_width_of(self.text_tail()) > tw || !is_ascii_chars(t.as_str()) {
                    return None;
                }
            }
        }
        Some(self.build_rows())
    }
}

/// A cell without text renders no line.
pub proof fn lemma_no_text_no_rows(c: Cell)
    requires
        c.text is None,
    ensures
        c.rows() == Seq::<Seq<char>>::empty(),
{
}

/// With a width set, each line before repair is its wrapped line with pad
/// characters on the sides that the alignment gives, exactly as many as the
/// wrapped line falls short of the width; a wrapped line that is not short is
/// kept as it is.
pub proof fn lemma_laid_out_lines_fill_width(c: Cell, i: int)
    requires
        c.text is Some,
        c.width is Some,
        0 <= i < wrapped_text(c.cut_text(), c.width->0 as nat).len(),
    ensures
        ({
            let w = c.width->0 as nat;
            let l = wrapped_text(c.cut_text(), w)[i];
            let fill = split_fill((w - visible_width(l)) as nat, c.align_spec());
            &&& c.laid_out().len() == wrapped_text(c.cut_text(), w).len()
            &&& visible_width(l) >= w ==> c.laid_out()[i] == l
            &&& visible_width(l) < w ==> fill.0 + fill.1 + visible_width(l) == w
                && c.laid_out()[i] == Seq::new(fill.0, |_j: int| c.pad_spec()) + l + Seq::new(
                fill.1,
                |_j: int| c.pad_spec(),
            )
        }),
{
}

/// Rendering is a function of the configuration: two cells that are set alike
/// render alike, so rendering one cell twice gives the same lines.
pub proof fn lemma_cell_render_deterministic(a: Cell, b: Cell)
    requires
        a == b,
    ensures
        a.rows() == b.rows(),
        a.renders() == b.renders(),
{
}

} // verus!
