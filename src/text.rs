//! The text primitives that cells, columns and rows are built from: measuring,
//! truncating, wrapping, padding and repairing text that may hold ANSI escape
//! codes. The work itself is done by `rawcmd_utils` (for cells) and `ansistr`
//! (for columns and rows); the functions here state what the library relies on.

use vstd::prelude::*;
use vstd::string::*;
use crate::lines::count_newlines;

verus! {

/// Where text goes within its width, and from which side truncation cuts.
#[derive(Clone, Copy, Debug, PartialEq, Eq, Structural)]
pub enum Alignment {
    Left,
    Center,
    Right,
}

/// Whether `s` holds a character that starts an ANSI escape code.
pub open spec fn has_escape(s: Seq<char>) -> bool {
    exists|i: int| 0 <= i < s.len() && (s[i] == '\x1b' || s[i] == '\u{9b}')
}

/// Whether `s` begins with `p`.
pub open spec fn starts_with(s: Seq<char>, p: Seq<char>) -> bool {
    p.len() <= s.len() && s.subrange(0, p.len() as int) == p
}

/// Whether `s` ends with `p`.
pub open spec fn ends_with(s: Seq<char>, p: Seq<char>) -> bool {
    p.len() <= s.len() && s.subrange(s.len() - p.len(), s.len() as int) == p
}

/// Whether every character of `s` is ASCII.
pub open spec fn is_ascii_text(s: Seq<char>) -> bool {
    forall|i: int| 0 <= i < s.len() ==> (s[i] as u32) < 128
}

/// `unit` written `n` times in a row.
pub open spec fn repeat(unit: Seq<char>, n: nat) -> Seq<char>
    decreases n,
{
    if n == 0 {
        Seq::empty()
    } else {
        repeat(unit, (n - 1) as nat) + unit
    }
}

/// The left and right amounts of fill for a shortfall of `diff`, by alignment.
pub open spec fn split_fill(diff: nat, align: Alignment) -> (nat, nat) {
    match align {
        Alignment::Left => (0, diff),
        Alignment::Right => (diff, 0),
        Alignment::Center => (diff / 2, (diff - diff / 2) as nat),
    }
}

/// Tells whether every character of `s` is ASCII.
pub fn is_ascii_chars(s: &str) -> (r: bool)
    ensures
        r == is_ascii_text(s@),
{
    let n = s.unicode_len();
    let mut i: usize = 0;
    while i < n
        invariant
            n == s@.len(),
            i <= n,
            forall|j: int| 0 <= j < i ==> (s@[j] as u32) < 128,
        decreases n - i,
    {
        let c = s.get_char(i);
        if (c as u32) >= 128 {
            return false;
        }
        i = i + 1;
    }
    true
}

// ---------------------------------------------------------------------------
// rawcmd_utils: the primitives of cells.

/// The visible width of a text as `rawcmd_utils::size_text` measures it.
pub uninterp spec fn visible_width(s: Seq<char>) -> nat;

/// The text that `rawcmd_utils::trucate_text` returns.
pub uninterp spec fn truncated_text(s: Seq<char>, width: nat, align: Alignment, tail: Seq<char>) -> Seq<char>;

/// The lines that `rawcmd_utils::wrap_text` returns.
pub uninterp spec fn wrapped_text(s: Seq<char>, width: nat) -> Seq<Seq<char>>;

/// The lines that `rawcmd_utils::repaire_text` returns.
pub uninterp spec fn repaired_text(lines: Seq<Seq<char>>) -> Seq<Seq<char>>;

/// `line` filled with `pad` on the sides that `align` gives until it is
/// `width` columns wide; a line that is wide enough already is kept.
pub open spec fn padded_text(line: Seq<char>, width: nat, align: Alignment, pad: char) -> Seq<char> {
    let size = visible_width(line);
    if size >= width {
        line
    } else {
        let fill = split_fill((width - size) as nat, align);
        Seq::new(fill.0, |_i: int| pad) + line + Seq::new(fill.1, |_i: int| pad)
    }
}

/// Truncation needs no cut, or has room for the tail and cuts plain ASCII text
/// (the cut is made at byte offsets).
pub open spec fn truncates_text_safely(s: Seq<char>, width: nat, tail: Seq<char>) -> bool {
    visible_width(s) <= width || (visible_width(tail) <= width && is_ascii_text(s))
}

/// Relies on `rawcmd_utils::size_text`: the visible width of the text.
#[verifier::external_body]
pub(crate) fn text_width_of(s: &str) -> (r: usize)
    ensures
        r == visible_width(s@),
{
    rawcmd_utils::size_text(s)
}

/// Relies on `rawcmd_utils::trucate_text`: text within its width is returned
/// as it is; otherwise the tail ends the result for left alignment and starts
/// it for right alignment. It subtracts the tail's width from `width` and cuts
/// at byte offsets, hence the condition.
#[verifier::external_body]
pub(crate) fn truncate_text(s: &str, width: usize, align: Alignment, tail: &str) -> (r: String)
    requires
        truncates_text_safely(s@, width as nat, tail@),
    ensures
        r@ == truncated_text(s@, width as nat, align, tail@),
        visible_width(s@) <= width ==> r@ == s@,
        visible_width(s@) > width && align == Alignment::Left ==> r@.len() >= tail@.len()
            && r@.subrange(r@.len() - tail@.len(), r@.len() as int) == tail@,
        visible_width(s@) > width && align == Alignment::Right ==> r@.len() >= tail@.len()
            && r@.subrange(0, tail@.len() as int) == tail@,
{
    let a = match align {
        Alignment::Left => rawcmd_utils::Alignment::Left,
        Alignment::Center => rawcmd_utils::Alignment::Center,
        Alignment::Right => rawcmd_utils::Alignment::Right,
    };
    rawcmd_utils::trucate_text(s, width, &a, tail)
}

/// Relies on `rawcmd_utils::wrap_text`: the lines of the text wrapped at `width`.
#[verifier::external_body]
pub(crate) fn wrap_text(s: &str, width: usize) -> (r: Vec<String>)
    ensures
        r.deep_view() == wrapped_text(s@, width as nat),
{
    rawcmd_utils::wrap_text(s, width)
}

/// Relies on `rawcmd_utils::pad_text`: the line with `pad` pushed before and
/// after it, by alignment, up to `width` visible columns.
#[verifier::external_body]
pub(crate) fn pad_text(line: &str, width: usize, align: Alignment, pad: char) -> (r: String)
    ensures
        r@ == padded_text(line@, width as nat, align, pad),
{
    let a = match align {
        Alignment::Left => rawcmd_utils::Alignment::Left,
        Alignment::Center => rawcmd_utils::Alignment::Center,
        Alignment::Right => rawcmd_utils::Alignment::Right,
    };
    rawcmd_utils::pad_text(line, width, &a, pad)
}

/// Relies on `rawcmd_utils::repaire_text`: one line out for each line in;
/// each line out is the line in with escape codes put before and after it, so
/// lines without escape codes come out as they are, and the first line in
/// starts the first line out.
#[verifier::external_body]
pub(crate) fn repair_text(lines: Vec<String>) -> (r: Vec<String>)
    ensures
        r.deep_view() == repaired_text(lines.deep_view()),
        r.len() == lines.len(),
        (forall|i: int| 0 <= i < lines.len() ==> !has_escape(#[trigger] lines.deep_view()[i]))
            ==> r.deep_view() == lines.deep_view(),
        lines.len() > 0 ==> r.deep_view()[0].len() >= lines.deep_view()[0].len()
            && r.deep_view()[0].subrange(0, lines.deep_view()[0].len() as int)
            == lines.deep_view()[0],
{
    rawcmd_utils::repaire_text(lines)
}

// ---------------------------------------------------------------------------
// ansistr: the primitives of columns and rows.

/// The visible width of a text as `ansistr::size_str` measures it.
pub uninterp spec fn display_width(s: Seq<char>) -> nat;

/// The text that `ansistr::trucate_str` returns.
pub uninterp spec fn truncated_str(s: Seq<char>, width: nat, align: Alignment, tail: Seq<char>) -> Seq<char>;

/// The newline-separated lines that `ansistr::wrap_str` returns.
pub uninterp spec fn wrapped_str(s: Seq<char>, width: nat) -> Seq<char>;

/// The text that `ansistr::repaire_str` returns.
pub uninterp spec fn repaired_str(s: Seq<char>) -> Seq<char>;

/// `line` with whole copies of `unit` on the sides that `align` gives, as
/// many as fit the shortfall to `width` (counted in copies of the unit's
/// width); a line that is wide enough already is kept.
pub open spec fn padded_str(line: Seq<char>, width: nat, align: Alignment, unit: Seq<char>) -> Seq<char> {
    let size = display_width(line);
    if size >= width {
        line
    } else {
        let diff = (width - size) as nat;
        let copies = diff / display_width(unit);
        let fill = match align {
            Alignment::Left => (0nat, copies),
            Alignment::Right => (copies, 0nat),
            Alignment::Center => (copies / 2, (diff - copies / 2) as nat),
        };
        repeat(unit, fill.0) + line + repeat(unit, fill.1)
    }
}

/// Padding divides by the unit's width, which is then to be positive.
pub open spec fn pads_str_safely(line: Seq<char>, width: nat, unit: Seq<char>) -> bool {
    display_width(line) >= width || display_width(unit) > 0
}

/// As for cells: no cut, or room for the tail and plain ASCII text.
pub open spec fn truncates_str_safely(s: Seq<char>, width: nat, tail: Seq<char>) -> bool {
    display_width(s) <= width || (display_width(tail) <= width && is_ascii_text(s))
}

/// Relies on `ansistr::size_str`: the visible width of the text.
#[verifier::external_body]
pub(crate) fn str_width_of(s: &str) -> (r: usize)
    ensures
        r == display_width(s@),
{
    ansistr::size_str(s)
}

/// Relies on `ansistr::trucate_str`: text within its width is returned as it
/// is; otherwise the tail ends the result for left alignment and starts it for
/// right alignment. It subtracts the tail's width from `width` and cuts at
/// byte offsets, hence the condition.
#[verifier::external_body]
pub(crate) fn truncate_str(s: &str, width: usize, align: Alignment, tail: &str) -> (r: String)
    requires
        truncates_str_safely(s@, width as nat, tail@),
    ensures
        r@ == truncated_str(s@, width as nat, align, tail@),
        display_width(s@) <= width ==> r@ == s@,
        display_width(s@) > width && align == Alignment::Left ==> r@.len() >= tail@.len()
            && r@.subrange(r@.len() - tail@.len(), r@.len() as int) == tail@,
        display_width(s@) > width && align == Alignment::Right ==> r@.len() >= tail@.len()
            && r@.subrange(0, tail@.len() as int) == tail@,
{
    let a = match align {
        Alignment::Left => ansistr::TextAlign::Left,
        Alignment::Center => ansistr::TextAlign::Center,
        Alignment::Right => ansistr::TextAlign::Right,
    };
    ansistr::trucate_str(s, width, &a, tail)
}

/// Relies on `ansistr::wrap_str`: the text wrapped at `width`, its lines
/// separated by newlines.
#[verifier::external_body]
pub(crate) fn wrap_str(s: &str, width: usize) -> (r: String)
    ensures
        r@ == wrapped_str(s@, width as nat),
{
    ansistr::wrap_str(s, width)
}

/// Relies on `ansistr::pad_str`: the line with whole copies of `unit` before
/// and after it, by alignment. It divides by the unit's width when the line is
/// narrower than `width`, hence the condition.
#[verifier::external_body]
pub(crate) fn pad_str(line: &str, width: usize, align: Alignment, unit: &str) -> (r: String)
    requires
        pads_str_safely(line@, width as nat, unit@),
    ensures
        r@ == padded_str(line@, width as nat, align, unit@),
{
    let a = match align {
        Alignment::Left => ansistr::TextAlign::Left,
        Alignment::Center => ansistr::TextAlign::Center,
        Alignment::Right => ansistr::TextAlign::Right,
    };
    ansistr::pad_str(line, width, &a, unit)
}

/// Relies on `ansistr::repaire_str`: each newline-separated line gets escape
/// codes put before and after it, so text without escape codes comes out as
/// it is, and the codes add no newline.
#[verifier::external_body]
pub(crate) fn repair_str(s: &str) -> (r: String)
    ensures
        r@ == repaired_str(s@),
        !has_escape(s@) ==> r@ == s@,
        count_newlines(r@) == count_newlines(s@),
{
    ansistr::repaire_str(s)
}

} // verus!
