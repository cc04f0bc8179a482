use vstd::prelude::*;
use annotate_snippets::AnnotationType::{Error, Help, Info, Note, Warning};
use annotate_snippets::{Annotation, Renderer, Slice, Snippet, SourceAnnotation};
use crate::diagnostic::{Diagnostic, DiagnosticModel, Severity};

verus! {

/// The text that annotate_snippets' styled renderer produces for `d`.
pub uninterp spec fn styled_text(d: DiagnosticModel) -> Seq<char>;

/// Every highlight of `d` starts no later than it ends and ends at most one
/// character past the end of its slice's source, and the line numbers of
/// each slice, one per line from `line_start`, are `usize` values.
pub open spec fn renderable(d: DiagnosticModel) -> bool {
    forall|i: int|
        0 <= i < d.slices.len() ==> {
            &&& (#[trigger] d.slices[i]).line_start + d.slices[i].source.len() <= usize::MAX
            &&& match d.slices[i].annotation {
                Some(h) => h.start <= h.end <= d.slices[i].source.len() + 1,
                None => true,
            }
        }
}

/// Relies on annotate_snippets' `Renderer::styled` and `Renderer::render`:
/// the text depends on the diagnostic alone. `render` panics on a highlight
/// that ends more than one character past its slice's source, underflows
/// while drawing a highlight that starts after it ends, and overflows its
/// line counter on a slice whose lines are numbered past `usize::MAX`.
#[verifier::external_body]
fn render_styled(d: &Diagnostic) -> (r: String)
    requires
        renderable(d@),
    ensures
        r@ == styled_text(d@),
{
    let kind = |s| match s {
        Severity::Error => Error, Severity::Warning => Warning, Severity::Info => Info,
        Severity::Note => Note, Severity::Help => Help,
    };
    Renderer::styled().render(Snippet {
        title: Some(Annotation { id: None, label: Some(&d.message), annotation_type: kind(d.severity) }),
        footer: vec![],
        slices: d.slices.iter().map(|s| Slice {
            source: &s.source, line_start: s.line_start, origin: s.origin.as_deref(), fold: s.fold,
            annotations: s.annotation.iter().map(|a| SourceAnnotation {
                range: (a.start, a.end), label: &a.label, annotation_type: kind(a.severity),
            }).collect(),
        }).collect(),
    }).to_string()
}

/// Renders `d` as styled terminal text, ending in a newline.
pub fn render(d: &Diagnostic) -> (r: String)
    requires
        renderable(d@),
    ensures
        r@ == styled_text(d@) + seq!['\n'],
{
    let mut r = render_styled(d);
    r.append("\n");
    proof {
        reveal_strlit("\n");
    }
    r
}

} // verus!
