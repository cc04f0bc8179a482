use vstd::prelude::*;
use crate::diagnostic::{
    assemble, HighlightModel, option_string_view, Diagnostic, DiagnosticModel, ResolvedSlice, Severity, SliceModel,
};
use crate::render::{render, renderable, styled_text};
use crate::resolve::{
    excerpt, excerpt_bounds, highlight_range, lemma_first_line_excerpt, resolve, resolved, span_fits,
    LineInfo, Span,
};
use crate::source::{cache_after_insert, CachedSource, SourceCache};

verus! {

/// The file names of `spans`, in order.
pub open spec fn span_names(spans: Seq<(Span, Option<String>)>) -> Seq<Seq<char>> {
    spans.map_values(|e: (Span, Option<String>)| e.0.filename@)
}

/// Every span names a file of `files` and fits in that file's text.
pub open spec fn spans_fit_in(
    files: Map<Seq<char>, Seq<char>>,
    spans: Seq<(Span, Option<String>)>,
) -> bool {
    forall|i: int|
        0 <= i < spans.len() ==> files.contains_key(#[trigger] spans[i].0.filename@)
            && span_fits(files[spans[i].0.filename@], spans[i].0.lines)
}

/// The slice of the `i`-th span, resolved against the text of its file.
pub open spec fn slice_of(
    files: Map<Seq<char>, Seq<char>>,
    spans: Seq<(Span, Option<String>)>,
    i: int,
) -> SliceModel {
    resolved(
        files[spans[i].0.filename@],
        spans[i].0.filename@,
        spans[i].0.lines,
        option_string_view(spans[i].1),
    )
}

/// The error diagnostic titled `message` with one slice per span, in the
/// order of the spans.
pub open spec fn diagnostic_of(
    files: Map<Seq<char>, Seq<char>>,
    spans: Seq<(Span, Option<String>)>,
    message: Seq<char>,
) -> DiagnosticModel {
    DiagnosticModel {
        severity: Severity::Error,
        message,
        slices: Seq::new(spans.len(), |i: int| slice_of(files, spans, i)),
    }
}

/// The file names of `spans`, in order.
pub fn filenames(spans: &Vec<(Span, Option<String>)>) -> (r: Vec<String>)
    ensures
        r@.map_values(|s: String| s@) == span_names(spans@),
{
    let mut r: Vec<String> = Vec::new();
    let mut i: usize = 0;
    while i < spans.len()
        invariant
            i <= spans.len(),
            r.len() == i,
            forall|j: int| 0 <= j < i ==> (#[trigger] r@[j])@ == spans@[j].0.filename@,
        decreases spans.len() - i,
    {
        r.push(spans[i].0.filename.clone());
        i = i + 1;
    }
    assert(r@.map_values(|s: String| s@) =~= span_names(spans@));
    r
}

/// Whether the span with coordinates `li` fits in the file cached as `source`.
pub fn span_fits_source(source: &CachedSource, li: LineInfo) -> (r: bool)
    requires
        source.wf(),
    ensures
        r == span_fits(source.text@, li),
{
    if li.end_line < 1 || li.end_line > source.newlines.len() || li.start_line > li.end_line {
        return false;
    }
    let (start, end) = excerpt_bounds(source, li);
    let len: usize = end - start;
    if li.start_line > usize::MAX - len {
        return false;
    }
    let (s, e) = (li.start_col, li.end_col);
    if li.end_line > li.start_line {
        s <= len
    } else if s == e {
        if s > 0 && s - 1 == len {
            len < usize::MAX
        } else {
            s < len
        }
    } else {
        s <= e && e <= len
    }
}

/// Whether every span names a file of `cache` and fits in its text.
pub fn spans_fit(cache: &SourceCache, spans: &Vec<(Span, Option<String>)>) -> (r: bool)
    requires
        cache.wf(),
    ensures
        r == spans_fit_in(cache@, spans@),
{
    let mut i: usize = 0;
    while i < spans.len()
        invariant
            cache.wf(),
            i <= spans.len(),
            spans_fit_in(cache@, spans@.subrange(0, i as int)),
        decreases spans.len() - i,
    {
        let span = &spans[i].0;
        match cache.get(&span.filename) {
            None => {
                assert(!spans_fit_in(cache@, spans@)) by {
                    assert(!cache@.contains_key(spans@[i as int].0.filename@));
                }
                return false;
            },
            Some(source) => {
                if !span_fits_source(source, span.lines) {
                    assert(!spans_fit_in(cache@, spans@)) by {
                        assert(!span_fits(cache@[spans@[i as int].0.filename@], spans@[i as int].0.lines));
                    }
                    return false;
                }
            },
        }
        assert forall|j: int| 0 <= j < i + 1 implies cache@.contains_key(
            #[trigger] spans@.subrange(0, i + 1)[j].0.filename@,
        ) && span_fits(cache@[spans@.subrange(0, i + 1)[j].0.filename@], spans@.subrange(0, i + 1)[j].0.lines) by {
            if j < i {
                assert(spans@.subrange(0, i as int)[j] == spans@.subrange(0, i + 1)[j]);
            }
        }
        i = i + 1;
    }
    assert(spans@.subrange(0, i as int) =~= spans@);
    true
}

/// Resolves each span against the cached text of its file and assembles the
/// slices, in the order of the spans, under the error title `message`.
pub fn build_diagnostic(
    cache: &SourceCache,
    spans: &Vec<(Span, Option<String>)>,
    message: String,
) -> (r: Diagnostic)
    requires
        cache.wf(),
        spans_fit_in(cache@, spans@),
    ensures
        r@ == diagnostic_of(cache@, spans@, message@),
{
    let mut slices: Vec<ResolvedSlice> = Vec::new();
    let mut i: usize = 0;
    while i < spans.len()
        invariant
            cache.wf(),
            spans_fit_in(cache@, spans@),
            i <= spans.len(),
            slices.len() == i,
            forall|j: int| 0 <= j < i ==> (#[trigger] slices@[j])@ == slice_of(cache@, spans@, j),
        decreases spans.len() - i,
    {
        let (span, label) = &spans[i];
        assert(cache@.contains_key(spans@[i as int].0.filename@));
        match cache.get(&span.filename) {
            Some(source) => {
                slices.push(resolve(source, span, label.clone()));
            },
            None => {
                proof {
                    assert(false);
                }
            },
        }
        i = i + 1;
    }
    let r = assemble(message, slices);
    assert(r@.slices =~= diagnostic_of(cache@, spans@, message@).slices);
    r
}

/// A diagnostic built from spans that fit can be rendered: each highlight
/// ends at most one character past its slice's source.
pub proof fn lemma_diagnostic_renderable(
    files: Map<Seq<char>, Seq<char>>,
    spans: Seq<(Span, Option<String>)>,
    message: Seq<char>,
)
    requires
        spans_fit_in(files, spans),
    ensures
        renderable(diagnostic_of(files, spans, message)),
{
    let d = diagnostic_of(files, spans, message);
    assert forall|i: int| 0 <= i < d.slices.len() implies match (#[trigger] d.slices[i]).annotation {
        Some(h) => h.end <= d.slices[i].source.len() + 1,
        None => true,
    } by {
        assert(files.contains_key(spans[i].0.filename@));
    }
}

/// Renders, as styled text ending in a newline, the error diagnostic titled
/// `message` that highlights each span under its label, in order. Every file
/// that the spans name must have been loaded into `cache`, and every span
/// must fit in its file.
pub fn create_error(
    cache: &SourceCache,
    spans: &Vec<(Span, Option<String>)>,
    message: String,
) -> (r: String)
    requires
        cache.wf(),
        spans_fit_in(cache@, spans@),
    ensures
        r@ == styled_text(diagnostic_of(cache@, spans@, message@)) + seq!['\n'],
{
    let ghost m = message@;
    let d = build_diagnostic(cache, spans, message);
    proof {
        lemma_diagnostic_renderable(cache@, spans@, m);
    }
    render(&d)
}

/// Spans resolve to the same diagnostic however often they are resolved
/// and whatever file is offered to the cache in between: cached text is
/// never replaced.
pub proof fn lemma_resolution_stable(
    files: Map<Seq<char>, Seq<char>>,
    filename: Seq<char>,
    text: Seq<char>,
    spans: Seq<(Span, Option<String>)>,
    message: Seq<char>,
)
    requires
        spans_fit_in(files, spans),
    ensures
        spans_fit_in(cache_after_insert(files, filename, text), spans),
        diagnostic_of(cache_after_insert(files, filename, text), spans, message)
            == diagnostic_of(files, spans, message),
{
    let after = cache_after_insert(files, filename, text);
    assert forall|i: int| 0 <= i < spans.len() implies after.contains_key(
        #[trigger] spans[i].0.filename@,
    ) && after[spans[i].0.filename@] == files[spans[i].0.filename@] by {
        assert(files.contains_key(spans[i].0.filename@));
    }
    assert(diagnostic_of(after, spans, message).slices =~= diagnostic_of(files, spans, message).slices);
}

/// What the diagnostic of `spans` holds for its `i`-th span: one slice per
/// span, in input order, cut from the text of that span's own file, with a
/// labelled highlight over the span's columns for a single-line span, a
/// one-character mark for a zero-width one (over the last column for one
/// just past the end of the excerpt), and a run to the end of the excerpt
/// for a span over several lines. A span on line 1 is cut from the start of
/// its file.
pub proof fn lemma_diagnostic_slice(
    files: Map<Seq<char>, Seq<char>>,
    spans: Seq<(Span, Option<String>)>,
    message: Seq<char>,
    i: int,
)
    requires
        0 <= i < spans.len(),
    ensures
        ({
            let d = diagnostic_of(files, spans, message);
            let name = spans[i].0.filename@;
            let li = spans[i].0.lines;
            let s = d.slices[i];
            let len = s.source.len() as int;
            &&& d.slices.len() == spans.len()
            &&& d.severity == Severity::Error
            &&& d.message == message
            &&& s.origin == Some(name)
            &&& s.line_start == li.start_line
            &&& s.source == excerpt(files[name], li)
            &&& !s.fold
            &&& spans[i].1 is None ==> s.annotation is None
            &&& spans[i].1 matches Some(l) ==> s.annotation == Some(
                HighlightModel {
                    start: highlight_range(li, len).0,
                    end: highlight_range(li, len).1,
                    label: l@,
                    severity: Severity::Error,
                },
            )
            &&& li.start_line == li.end_line && li.start_col < li.end_col ==> highlight_range(li, len)
                == (li.start_col as int, li.end_col as int)
            &&& li.start_line == li.end_line && li.start_col == li.end_col && li.start_col - 1 != len
                ==> highlight_range(li, len) == (li.start_col as int, li.start_col + 1)
            &&& li.start_line == li.end_line && li.start_col == li.end_col && li.start_col - 1 == len
                ==> highlight_range(li, len) == (li.start_col - 1, li.start_col as int)
            &&& li.start_line < li.end_line ==> highlight_range(li, len) == (li.start_col as int, len)
            &&& li.start_line == 1 && span_fits(files[name], li) ==> s.source == files[name].subrange(0, len)
        }),
{
    let name = spans[i].0.filename@;
    let li = spans[i].0.lines;
    if li.start_line == 1 && span_fits(files[name], li) {
        lemma_first_line_excerpt(files[name], li);
    }
}

} // verus!
