//! A column: one formatted slot of a row, rendered as a block of text with a
//! newline after each of its lines.

use vstd::prelude::*;
use vstd::string::*;
use crate::lines::{
    count_newlines, join_lines, join_with_newlines, lemma_count_concat, split_at_newlines,
    split_lines,
};
use crate::text::{
    Alignment, display_width, ends_with, has_escape, starts_with, is_ascii_chars, pad_str, padded_str, repair_str, repaired_str,
    str_width_of, truncate_str, truncated_str, truncates_str_safely, wrap_str, wrapped_str,
};

verus! {

/// A formatted slot of a row whose pad unit is a string. Every setting is
/// optional; the getters give the defaults: left alignment, the tail `"..."`
/// and a single space as pad unit.
#[derive(Clone, Debug, PartialEq)]
pub struct Column {
    /// Width in visible columns of every line; unset keeps the text as it is.
    pub width: Option<usize>,
    /// The content; unset renders nothing.
    pub text: Option<String>,
    /// Width to which the text is truncated before it is wrapped.
    pub text_width: Option<usize>,
    /// The alignment: it decides where truncation puts the tail and on which
    /// sides padding goes.
    pub text_align: Option<Alignment>,
    /// Marker that stands where truncation cut text away.
    pub text_tail: Option<String>,
    /// Unit that fills each line up to `width`.
    pub text_pad: Option<String>,
}

impl Column {
    /// The alignment in force.
    pub open spec fn align_spec(&self) -> Alignment {
        match self.text_align {
            Some(a) => a,
            None => Alignment::Left,
        }
    }

    /// The truncation tail in force.
    pub open spec fn tail_spec(&self) -> Seq<char> {
        match self.text_tail {
            Some(t) => t@,
            None => seq!['.', '.', '.'],
        }
    }

    /// The pad unit in force.
    pub open spec fn pad_spec(&self) -> Seq<char> {
        match self.text_pad {
            Some(p) => p@,
            None => seq![' '],
        }
    }

    /// The text after truncation, when truncation is set.
    pub open spec fn cut_text(&self) -> Seq<char> {
        let t = self.text->0@;
        match self.text_width {
            Some(tw) => truncated_str(t, tw as nat, self.align_spec(), self.tail_spec()),
            None => t,
        }
    }

    /// The text before repair: the cut text wrapped at `width` with each of
    /// its lines padded to it, or the cut text itself when no width is set.
    pub open spec fn laid_out(&self) -> Seq<char> {
        match self.width {
            Some(w) => join_lines(
                split_lines(wrapped_str(self.cut_text(), w as nat)).map_values(
                    |l: Seq<char>| padded_str(l, w as nat, self.align_spec(), self.pad_spec()),
                ),
            ),
            None => self.cut_text(),
        }
    }

    /// The rendered block: empty without text, else the laid-out text with its
    /// escape codes repaired and a closing newline.
    pub open spec fn output(&self) -> Seq<char> {
        match self.text {
            None => Seq::empty(),
            Some(_) => repaired_str(self.laid_out()) + seq!['\n'],
        }
    }

    /// Whether the column holds text without escape codes and sets neither a
    /// width nor a truncation width, so that nothing formats it.
    pub open spec fn is_plain_text(&self) -> bool {
        &&& self.text is Some
        &&& self.width is None
        &&& self.text_width is None
        &&& !has_escape(self.text->0@)
    }

    /// Whether the pad unit can fill a line: it has a visible width wherever
    /// there is a positive width to fill.
    pub open spec fn pads(&self) -> bool {
        (self.width is Some && self.width->0 > 0) ==> display_width(self.pad_spec()) > 0
    }

    /// Whether rendering stays within what truncation and padding can do.
    pub open spec fn renders(&self) -> bool {
        &&& self.text is Some ==> self.pads()
        &&& match (self.text, self.text_width) {
            (Some(t), Some(tw)) => truncates_str_safely(t@, tw as nat, self.tail_spec()),
            _ => true,
        }
    }

    /// A column with nothing set.
    pub fn new() -> (r: Self)
        ensures
            r.width is None,
            r.text is None,
            r.text_width is None,
            r.text_align is None,
            r.text_tail is None,
            r.text_pad is None,
    {
        Column {
            width: None,
            text: None,
            text_width: None,
            text_align: None,
            text_tail: None,
            text_pad: None,
        }
    }

    /// A column with only its text set.
    pub fn from_str(txt: &str) -> (r: Self)
        ensures
            r.text is Some && r.text->0@ == txt@,
            r.width is None,
            r.text_width is None,
            r.text_align is None,
            r.text_tail is None,
            r.text_pad is None,
    {
        Column {
            width: None,
            text: Some(String::from_str(txt)),
            text_width: None,
            text_align: None,
            text_tail: None,
            text_pad: None,
        }
    }

    /// The column width.
    pub fn width(&self) -> (r: &Option<usize>)
        ensures
            *r == self.width,
    {
        &self.width
    }

    /// The column text.
    pub fn text(&self) -> (r: &Option<String>)
        ensures
            *r == self.text,
    {
        &self.text
    }

    /// The truncation width.
    pub fn text_width(&self) -> (r: &Option<usize>)
        ensures
            *r == self.text_width,
    {
        &self.text_width
    }

    /// The alignment, left when unset.
    pub fn text_align(&self) -> (r: Alignment)
        ensures
            r == self.align_spec(),
    {
        match self.text_align {
            Some(a) => a,
            None => Alignment::Left,
        }
    }

    /// The truncation tail, `"..."` when unset.
    pub fn text_tail(&self) -> (r: &str)
        ensures
            r@ == self.tail_spec(),
    {
        match &self.text_tail {
            Some(t) => t.as_str(),
            None => {
                proof {
                    reveal_strlit("...");
                }
                "..."
            },
        }
    }

    /// The pad unit, a single space when unset.
    pub fn text_pad(&self) -> (r: &str)
        ensures
            r@ == self.pad_spec(),
    {
        match &self.text_pad {
            Some(p) => p.as_str(),
            None => {
                proof {
                    reveal_strlit(" ");
                }
                " "
            },
        }
    }

    /// The column with its width set.
    pub fn set_width(self, width: usize) -> (r: Self)
        ensures
            r == (Column { width: Some(width), ..self }),
    {
        Column { width: Some(width), ..self }
    }

    /// The column with its text set.
    pub fn set_text(self, text: &str) -> (r: Self)
        ensures
            r.text is Some && r.text->0@ == text@,
            r == (Column { text: r.text, ..self }),
    {
        Column { text: Some(String::from_str(text)), ..self }
    }

    /// The column with its truncation width set.
    pub fn set_text_width(self, width: usize) -> (r: Self)
        ensures
            r == (Column { text_width: Some(width), ..self }),
    {
        Column { text_width: Some(width), ..self }
    }

    /// The column with its alignment set.
    pub fn set_text_align(self, align: Alignment) -> (r: Self)
        ensures
            r == (Column { text_align: Some(align), ..self }),
    {
        Column { text_align: Some(align), ..self }
    }

    /// The column with its truncation tail set.
    pub fn set_text_tail(self, tail: &str) -> (r: Self)
        ensures
            r.text_tail is Some && r.text_tail->0@ == tail@,
            r == (Column { text_tail: r.text_tail, ..self }),
    {
        Column { text_tail: Some(String::from_str(tail)), ..self }
    }

    /// The column with its pad unit set.
    pub fn set_text_pad(self, pad: &str) -> (r: Self)
        ensures
            r.text_pad is Some && r.text_pad->0@ == pad@,
            r == (Column { text_pad: r.text_pad, ..self }),
    {
        Column { text_pad: Some(String::from_str(pad)), ..self }
    }

    /// Renders the column: truncates the text when a truncation width is set,
    /// wraps it and pads each line when a width is set, repairs the escape
    /// codes across the lines and ends the block with a newline.
    pub fn build(&self) -> (r: String)
        requires
            self.renders(),
        ensures
            r@ == self.output(),
            self.is_plain_text() ==> r@ == self.text->0@ + seq!['\n'],
            self.text is Some && self.text_width is Some && display_width(self.text->0@)
                <= self.text_width->0 ==> self.cut_text() == self.text->0@,
            self.text is Some && self.text_width is Some && display_width(self.text->0@)
                > self.text_width->0 && self.align_spec() == Alignment::Left ==> ends_with(
                self.cut_text(),
                self.tail_spec(),
            ),
            self.text is Some && self.text_width is Some && display_width(self.text->0@)
                > self.text_width->0 && self.align_spec() == Alignment::Right ==> starts_with(
                self.cut_text(),
                self.tail_spec(),
            ),
            self.text is Some && self.width is None && !has_escape(self.cut_text()) ==> r@
                == self.cut_text() + seq!['\n'],
            self.text is Some ==> count_newlines(r@) == count_newlines(self.laid_out()) + 1,
    {
        let text = match &self.text {
            Some(t) => t,
            None => return String::new(),
        };
        let align = self.text_align();
        let cut = match self.text_width {
            Some(tw) => truncate_str(text.as_str(), tw, align, self.text_tail()),
            None => String::from_str(text.as_str()),
        };
        assert(cut@ == self.cut_text());
        let body = match self.width {
            Some(w) => {
                let pad = self.text_pad();
                let wrapped = wrap_str(cut.as_str(), w);
                let parts = split_at_newlines(wrapped.as_str());
                let mut lines: Vec<String> = Vec::new();
                let mut i: usize = 0;
                while i < parts.len()
                    invariant
                        i <= parts.len(),
                        lines.len() == i,
                        parts.deep_view() == split_lines(wrapped_str(cut@, w as nat)),
                        pad@ == self.pad_spec(),
                        self.pads(),
                        self.width == Some(w),
                        forall|j: int|
                            0 <= j < i ==> #[trigger] lines.deep_view()[j] == padded_str(
                                parts.deep_view()[j],
                                w as nat,
                                align,
                                pad@,
                            ),
                    decreases parts.len() - i,
                {
                    let ghost before = lines.deep_view();
                    assert(parts.deep_view()[i as int] == parts@[i as int]@);
                    let line = pad_str(parts[i].as_str(), w, align, pad);
                    lines.push(line);
                    assert(lines.deep_view() =~= before.push(lines@[i as int]@));
                    i = i + 1;
                }
                assert(lines.deep_view() =~= split_lines(wrapped_str(cut@, w as nat)).map_values(
                    |l: Seq<char>| padded_str(l, w as nat, align, pad@),
                ));
                join_with_newlines(&lines)
            },
            None => cut,
        };
        assert(body@ == self.laid_out());
        let mut out = repair_str(body.as_str());
        let ghost repaired = out@;
        out.append("\n");
        proof {
            reveal_strlit("\n");
            assert(out@ =~= repaired + seq!['\n']);
            lemma_count_concat(repaired, seq!['\n']);
            assert(seq!['\n'].drop_last() =~= Seq::<char>::empty());
            assert(count_newlines(Seq::<char>::empty()) == 0);
        }
        out
    }

    /// Tells whether the pad unit can fill a line: it cannot when it has no
    /// visible width and there is width to fill.
    pub fn can_pad(&self) -> (r: bool)
        ensures
            r == self.pads(),
    {
        if let Some(w) = self.width {
            if w > 0 && str_width_of(self.text_pad()) == 0 {
                return false;
            }
        }
        true
    }

    /// Tells whether rendering stays within what truncation and padding can
    /// do: it cannot when there is text and the pad unit cannot fill a line,
    /// or when the text is wider than the truncation width and the tail is
    /// wider too, or the text holds non-ASCII characters.
    pub fn can_render(&self) -> (r: bool)
        ensures
            r == self.renders(),
    {
        if self.text.is_some() && !self.can_pad() {
            return false;
        }
        if let (Some(t), Some(tw)) = (&self.text, self.text_width) {
            if str_width_of(t.as_str()) > tw {
                if str_width_of(self.text_tail()) > tw || !is_ascii_chars(t.as_str()) {
                    return false;
                }
            }
        }
        true
    }

    /// Renders the column when [`Column::can_render`] holds, and gives `None`
    /// when it does not.
    pub fn try_build(&self) -> (r: Option<String>)
        ensures
            r is Some <==> self.renders(),
            r is Some ==> r->0@ == self.output(),
    {
        if self.can_render() {
            Some(self.build())
        } else {
            None
        }
    }
}

/// A column without text renders nothing.
pub proof fn lemma_no_text_no_output(c: Column)
    requires
        c.text is None,
    ensures
        c.output() == Seq::<char>::empty(),
{
}

} // verus!
