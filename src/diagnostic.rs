use vstd::prelude::*;

verus! {

/// How severe an annotation is; the renderer picks its colour and marker
/// from it.
#[derive(Clone, Copy, Debug, PartialEq, Eq, Structural)]
pub enum Severity {
    Error,
    Warning,
    Info,
    Note,
    Help,
}

/// A labelled highlight over the characters `start..end` of a slice.
pub struct Highlight {
    pub start: usize,
    pub end: usize,
    pub label: String,
    pub severity: Severity,
}

/// The mathematical value of a [`Highlight`].
pub struct HighlightModel {
    pub start: int,
    pub end: int,
    pub label: Seq<char>,
    pub severity: Severity,
}

impl View for Highlight {
    type V = HighlightModel;

    open spec fn view(&self) -> HighlightModel {
        HighlightModel {
            start: self.start as int,
            end: self.end as int,
            label: self.label@,
            severity: self.severity,
        }
    }
}

/// One excerpt of a file: the text shown, the number of its first line,
/// the file it came from, and at most one highlight. `fold` asks the
/// renderer to elide unannotated lines of a long excerpt.
pub struct ResolvedSlice {
    pub source: String,
    pub line_start: usize,
    pub origin: Option<String>,
    pub annotation: Option<Highlight>,
    pub fold: bool,
}

/// The mathematical value of a [`ResolvedSlice`].
pub struct SliceModel {
    pub source: Seq<char>,
    pub line_start: int,
    pub origin: Option<Seq<char>>,
    pub annotation: Option<HighlightModel>,
    pub fold: bool,
}

pub open spec fn option_string_view(o: Option<String>) -> Option<Seq<char>> {
    match o {
        Some(s) => Some(s@),
        None => None,
    }
}

pub open spec fn option_highlight_view(o: Option<Highlight>) -> Option<HighlightModel> {
    match o {
        Some(h) => Some(h@),
        None => None,
    }
}

impl View for ResolvedSlice {
    type V = SliceModel;

    open spec fn view(&self) -> SliceModel {
        SliceModel {
            source: self.source@,
            line_start: self.line_start as int,
            origin: option_string_view(self.origin),
            annotation: option_highlight_view(self.annotation),
            fold: self.fold,
        }
    }
}

/// A complete diagnostic: a titled message and its slices, in order.
pub struct Diagnostic {
    pub severity: Severity,
    pub message: String,
    pub slices: Vec<ResolvedSlice>,
}

/// The mathematical value of a [`Diagnostic`].
pub struct DiagnosticModel {
    pub severity: Severity,
    pub message: Seq<char>,
    pub slices: Seq<SliceModel>,
}

impl View for Diagnostic {
    type V = DiagnosticModel;

    open spec fn view(&self) -> DiagnosticModel {
        DiagnosticModel {
            severity: self.severity,
            message: self.message@,
            slices: self.slices@.map_values(|s: ResolvedSlice| s@),
        }
    }
}

/// Wraps `message` as an error title over `slices`, which keep their order.
pub fn assemble(message: String, slices: Vec<ResolvedSlice>) -> (r: Diagnostic)
    ensures
        r.severity == Severity::Error,
        r.message@ == message@,
        r.slices@ == slices@,
{
    Diagnostic { severity: Severity::Error, message, slices }
}

} // verus!
