use vstd::prelude::*;
use crate::diagnostic::{option_string_view, Highlight, HighlightModel, ResolvedSlice, Severity, SliceModel};
use crate::source::{lemma_newline_offsets, newline_offsets, offsets_view, CachedSource};

verus! {

/// The 1-based line and column coordinates of a span. A span covers
/// `start_col` on `start_line` up to `end_col` on `end_line`.
#[derive(Clone, Copy, Debug, PartialEq, Eq, Structural)]
pub struct LineInfo {
    pub start_line: usize,
    pub end_line: usize,
    pub start_col: usize,
    pub end_col: usize,
}

/// A region of a named source file.
pub struct Span {
    pub filename: String,
    pub lines: LineInfo,
}

impl Span {
    /// The span of `lines` in the file named `filename`.
    pub fn new(filename: String, lines: LineInfo) -> (r: Span)
        ensures
            r.filename@ == filename@,
            r.lines == lines,
    {
        Span { filename, lines }
    }
}

/// Where the excerpt of a span starts: at the newline that ends the line
/// above `start_line`, or at the start of the file for a span on line 1.
pub open spec fn excerpt_start(nl: Seq<int>, start_line: int) -> int {
    if start_line <= 1 {
        0
    } else {
        nl[start_line - 2]
    }
}

/// One past where the excerpt of a span ends: its last character is the
/// newline that ends `end_line`.
pub open spec fn excerpt_end(nl: Seq<int>, end_line: int) -> int {
    nl[end_line - 1] + 1
}

/// The text shown for a span with coordinates `li` in a file with text `text`.
pub open spec fn excerpt(text: Seq<char>, li: LineInfo) -> Seq<char> {
    let nl = newline_offsets(text);
    text.subrange(excerpt_start(nl, li.start_line as int), excerpt_end(nl, li.end_line as int))
}

/// The highlighted character range, within an excerpt of `len` characters,
/// of a span with coordinates `li`.
pub open spec fn highlight_range(li: LineInfo, len: int) -> (int, int) {
    let start_col = li.start_col as int;
    let end_col = li.end_col as int;
    if li.end_line > li.start_line {
        (start_col, len)
    } else if start_col == end_col {
        if start_col - 1 == len {
            (start_col - 1, start_col)
        } else {
            (start_col, start_col + 1)
        }
    } else {
        (start_col, end_col)
    }
}

/// Whether `li` is the zero-width single-line span whose column lies one
/// past the end of an excerpt of `len` characters.
pub open spec fn marks_past_end(li: LineInfo, len: int) -> bool {
    &&& li.end_line <= li.start_line
    &&& li.start_col == li.end_col
    &&& li.start_col - 1 == len
}

/// The highlight of `li` lies within an excerpt of `len` characters; only
/// the zero-width span one past the end may end one character past it. Its
/// bounds are `usize` values.
pub open spec fn highlight_fits(li: LineInfo, len: int) -> bool {
    let r = highlight_range(li, len);
    &&& marks_past_end(li, len) || 0 <= r.0 <= r.1 <= len
    &&& r.1 <= usize::MAX
}

/// The lines of `li` exist in a file with text `text`, its highlight fits in
/// its excerpt, and the excerpt's lines are numbered by `usize` values.
pub open spec fn span_fits(text: Seq<char>, li: LineInfo) -> bool {
    let nl = newline_offsets(text);
    &&& 1 <= li.end_line <= nl.len()
    &&& li.start_line <= li.end_line
    &&& highlight_fits(li, excerpt(text, li).len() as int)
    &&& li.start_line + excerpt(text, li).len() <= usize::MAX
}

/// The slice for a span with coordinates `li` in the file `filename` with
/// text `text`; a label gives it an error highlight, no label none.
pub open spec fn resolved(
    text: Seq<char>,
    filename: Seq<char>,
    li: LineInfo,
    label: Option<Seq<char>>,
) -> SliceModel {
    let source = excerpt(text, li);
    let range = highlight_range(li, source.len() as int);
    SliceModel {
        source,
        line_start: li.start_line as int,
        origin: Some(filename),
        annotation: match label {
            Some(l) => Some(
                HighlightModel { start: range.0, end: range.1, label: l, severity: Severity::Error },
            ),
            None => None,
        },
        fold: false,
    }
}

/// The highlight range of `li` in an excerpt of `len` characters.
pub fn resolve_range(li: LineInfo, len: usize) -> (r: (usize, usize))
    requires
        highlight_fits(li, len as int),
    ensures
        r.0 as int == highlight_range(li, len as int).0,
        r.1 as int == highlight_range(li, len as int).1,
{
    if li.end_line > li.start_line {
        (li.start_col, len)
    } else if li.start_col == li.end_col {
        if li.start_col > 0 && li.start_col - 1 == len {
            (li.start_col - 1, li.start_col)
        } else {
            (li.start_col, li.start_col + 1)
        }
    } else {
        (li.start_col, li.end_col)
    }
}

/// The character offsets in `source` where the excerpt of a span with
/// coordinates `li` starts and ends.
pub(crate) fn excerpt_bounds(source: &CachedSource, li: LineInfo) -> (r: (usize, usize))
    requires
        source.wf(),
        1 <= li.end_line <= newline_offsets(source.text@).len(),
        li.start_line <= li.end_line,
    ensures
        r.0 as int == excerpt_start(newline_offsets(source.text@), li.start_line as int),
        r.1 as int == excerpt_end(newline_offsets(source.text@), li.end_line as int),
        r.0 <= r.1 <= source.text@.len(),
        excerpt(source.text@, li).len() == r.1 - r.0,
{
    let ghost text = source.text@;
    let ghost nl = newline_offsets(text);
    proof {
        lemma_newline_offsets(text);
        assert(offsets_view(source.newlines@)[li.end_line - 1] == nl[li.end_line - 1]);
    }
    let start: usize = if li.start_line <= 1 {
        0
    } else {
        proof {
            assert(offsets_view(source.newlines@)[li.start_line - 2] == nl[li.start_line - 2]);
        }
        source.newlines[li.start_line - 2]
    };
    let end: usize = source.newlines[li.end_line - 1] + 1;
    proof {
        if li.start_line > 1 && li.start_line < li.end_line {
            assert(nl[li.start_line - 2] < nl[li.end_line - 1]);
        }
    }
    (start, end)
}

/// Cuts the excerpt of `span` out of `source`, the cached text of its file,
/// and highlights it under `label`, if there is one.
pub fn resolve(source: &CachedSource, span: &Span, label: Option<String>) -> (r: ResolvedSlice)
    requires
        source.wf(),
        span_fits(source.text@, span.lines),
    ensures
        r@ == resolved(source.text@, span.filename@, span.lines, option_string_view(label)),
{
    let li = span.lines;
    let (start, end) = excerpt_bounds(source, li);
    let text_ref = source.text.as_str();
    let excerpt_text = text_ref.substring_char(start, end).to_owned();
    let len: usize = end - start;
    let range = resolve_range(li, len);
    let annotation = match label {
        Some(l) => Some(Highlight { start: range.0, end: range.1, label: l, severity: Severity::Error }),
        None => None,
    };
    ResolvedSlice {
        source: excerpt_text,
        line_start: li.start_line,
        origin: Some(span.filename.clone()),
        annotation,
        fold: false,
    }
}

/// A single-line span whose start column is before its end column is
/// highlighted over exactly its columns.
pub proof fn lemma_single_line_range(
    text: Seq<char>,
    filename: Seq<char>,
    li: LineInfo,
    label: Seq<char>,
)
    requires
        li.start_line == li.end_line,
        li.start_col < li.end_col,
    ensures
        resolved(text, filename, li, Some(label)).annotation == Some(
            HighlightModel {
                start: li.start_col as int,
                end: li.end_col as int,
                label,
                severity: Severity::Error,
            },
        ),
{
}

/// A zero-width single-line span whose column, less one, is not the length
/// of its excerpt is marked over the one character at its column.
pub proof fn lemma_zero_width_range(
    text: Seq<char>,
    filename: Seq<char>,
    li: LineInfo,
    label: Seq<char>,
)
    requires
        li.start_line == li.end_line,
        li.start_col == li.end_col,
        li.start_col - 1 != excerpt(text, li).len(),
    ensures
        resolved(text, filename, li, Some(label)).annotation == Some(
            HighlightModel {
                start: li.start_col as int,
                end: li.start_col + 1,
                label,
                severity: Severity::Error,
            },
        ),
{
}

/// A zero-width single-line span whose column lies one past the end of its
/// excerpt is marked over the character before that column, which ends at
/// the excerpt's end.
pub proof fn lemma_zero_width_at_end(
    text: Seq<char>,
    filename: Seq<char>,
    li: LineInfo,
    label: Seq<char>,
)
    requires
        li.start_line == li.end_line,
        li.start_col == li.end_col,
        li.start_col - 1 == excerpt(text, li).len(),
    ensures
        resolved(text, filename, li, Some(label)).annotation == Some(
            HighlightModel {
                start: li.start_col - 1,
                end: li.start_col as int,
                label,
                severity: Severity::Error,
            },
        ),
        li.start_col - 1 == resolved(text, filename, li, Some(label)).source.len(),
{
}

/// A span over several lines is highlighted from its start column to the
/// end of its excerpt.
pub proof fn lemma_multi_line_range(
    text: Seq<char>,
    filename: Seq<char>,
    li: LineInfo,
    label: Seq<char>,
)
    requires
        li.start_line < li.end_line,
    ensures
        resolved(text, filename, li, Some(label)).annotation == Some(
            HighlightModel {
                start: li.start_col as int,
                end: excerpt(text, li).len() as int,
                label,
                severity: Severity::Error,
            },
        ),
{
}

/// The excerpt of a span that starts on line 1 begins with the first
/// character of the file.
pub proof fn lemma_first_line_excerpt(text: Seq<char>, li: LineInfo)
    requires
        span_fits(text, li),
        li.start_line == 1,
    ensures
        excerpt(text, li) == text.subrange(0, excerpt(text, li).len() as int),
        text.len() > 0 ==> excerpt(text, li)[0] == text[0],
{
    lemma_newline_offsets(text);
    let nl = newline_offsets(text);
    assert(0 <= nl[li.end_line - 1] < text.len());
}

} // verus!
