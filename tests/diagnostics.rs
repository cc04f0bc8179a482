use span_diagnostics::diagnostic::{assemble, Severity};
use span_diagnostics::render::render;
use span_diagnostics::report::{build_diagnostic, create_error, filenames, span_fits_source, spans_fit};
use span_diagnostics::resolve::{resolve, resolve_range, LineInfo, Span};
use span_diagnostics::source::{scan_newlines, CachedSource, SourceCache};
use std::collections::HashMap;

const A_RS: &str = "fn f() {\n    g();\n}\n";

fn lines(start_line: usize, end_line: usize, start_col: usize, end_col: usize) -> LineInfo {
    LineInfo { start_line, end_line, start_col, end_col }
}

fn span(file: &str, li: LineInfo) -> Span {
    Span::new(file.to_string(), li)
}

fn strip_styles(s: &str) -> String {
    let mut out = String::new();
    let mut chars = s.chars().peekable();
    while let Some(c) = chars.next() {
        if c == '\u{1b}' {
            while let Some(d) = chars.next() {
                if d.is_ascii_alphabetic() {
                    break;
                }
            }
        } else {
            out.push(c);
        }
    }
    out
}

/// A storage double that counts how often each file is read.
struct CountingFiles {
    contents: HashMap<String, String>,
    reads: HashMap<String, usize>,
}

impl CountingFiles {
    fn read(&mut self, name: &str) -> String {
        *self.reads.entry(name.to_string()).or_insert(0) += 1;
        self.contents[name].clone()
    }

    fn load_into(&mut self, cache: &mut SourceCache, spans: &Vec<(Span, Option<String>)>) {
        for name in cache.files_to_load(&filenames(spans)) {
            let text = self.read(&name);
            cache.insert(name, text);
        }
    }
}

#[test]
fn newlines_are_char_offsets() {
    assert_eq!(scan_newlines(A_RS), vec![8, 17, 19]);
    assert_eq!(scan_newlines("é\nü\n"), vec![1, 3]);
    assert_eq!(scan_newlines(""), Vec::<usize>::new());
    assert_eq!(scan_newlines("no newline"), Vec::<usize>::new());
}

#[test]
fn single_line_span_keeps_its_columns() {
    let src = CachedSource::new(A_RS.to_string());
    let s = resolve(&src, &span("a.rs", lines(2, 2, 5, 8)), Some("call here".to_string()));
    assert_eq!(s.source, "\n    g();\n");
    assert_eq!(s.line_start, 2);
    assert_eq!(s.origin.as_deref(), Some("a.rs"));
    assert!(!s.fold);
    let h = s.annotation.unwrap();
    assert_eq!((h.start, h.end), (5, 8));
    assert_eq!(h.label, "call here");
    assert_eq!(h.severity, Severity::Error);
}

#[test]
fn zero_width_span_marks_one_character() {
    let src = CachedSource::new(A_RS.to_string());
    let s = resolve(&src, &span("a.rs", lines(2, 2, 5, 5)), Some("here".to_string()));
    let h = s.annotation.unwrap();
    assert_eq!((h.start, h.end), (5, 6));
}

#[test]
fn zero_width_span_past_end_marks_last_character() {
    let src = CachedSource::new(A_RS.to_string());
    // The excerpt of line 2 is "\n    g();\n", ten characters long.
    let s = resolve(&src, &span("a.rs", lines(2, 2, 11, 11)), Some("here".to_string()));
    assert_eq!(s.source.chars().count(), 10);
    let h = s.annotation.unwrap();
    assert_eq!((h.start, h.end), (10, 11));
}

#[test]
fn multi_line_span_runs_to_excerpt_end() {
    let src = CachedSource::new(A_RS.to_string());
    let s = resolve(&src, &span("a.rs", lines(1, 2, 4, 2)), Some("body".to_string()));
    assert_eq!(s.source, "fn f() {\n    g();\n");
    let h = s.annotation.unwrap();
    assert_eq!((h.start, h.end), (4, 18));
}

#[test]
fn first_line_excerpt_starts_at_file_start() {
    let src = CachedSource::new(A_RS.to_string());
    let s = resolve(&src, &span("a.rs", lines(1, 1, 1, 3)), None);
    assert_eq!(s.source, "fn f() {\n");
    assert!(s.source.starts_with('f'));
    assert_eq!(s.line_start, 1);
}

#[test]
fn later_line_excerpt_starts_at_previous_newline() {
    let src = CachedSource::new(A_RS.to_string());
    let s = resolve(&src, &span("a.rs", lines(3, 3, 1, 2)), Some("end".to_string()));
    assert_eq!(s.source, "\n}\n");
    assert_eq!(s.line_start, 3);
}

#[test]
fn unlabelled_span_has_no_annotation() {
    let src = CachedSource::new(A_RS.to_string());
    let s = resolve(&src, &span("a.rs", lines(2, 2, 5, 8)), None);
    assert!(s.annotation.is_none());
    assert_eq!(s.source, "\n    g();\n");
}

#[test]
fn range_formula_cases() {
    assert_eq!(resolve_range(lines(4, 4, 3, 9), 20), (3, 9));
    assert_eq!(resolve_range(lines(4, 4, 3, 3), 20), (3, 4));
    assert_eq!(resolve_range(lines(4, 4, 21, 21), 20), (20, 21));
    assert_eq!(resolve_range(lines(4, 6, 3, 1), 20), (3, 20));
}

#[test]
fn resolving_twice_gives_the_same_slice() {
    let src = CachedSource::new(A_RS.to_string());
    let sp = span("a.rs", lines(2, 2, 5, 8));
    let a = resolve(&src, &sp, Some("x".to_string()));
    let b = resolve(&src, &sp, Some("x".to_string()));
    assert_eq!(a.source, b.source);
    assert_eq!(a.line_start, b.line_start);
    let (ha, hb) = (a.annotation.unwrap(), b.annotation.unwrap());
    assert_eq!((ha.start, ha.end, ha.label), (hb.start, hb.end, hb.label));
}

#[test]
fn each_file_is_read_once() {
    let mut files = CountingFiles {
        contents: HashMap::from([
            ("a.rs".to_string(), A_RS.to_string()),
            ("b.rs".to_string(), "x\ny\n".to_string()),
        ]),
        reads: HashMap::new(),
    };
    let mut cache = SourceCache::new();
    let spans = vec![
        (span("a.rs", lines(2, 2, 5, 8)), Some("one".to_string())),
        (span("a.rs", lines(3, 3, 1, 2)), Some("two".to_string())),
        (span("b.rs", lines(1, 1, 0, 1)), None),
        (span("a.rs", lines(2, 2, 5, 6)), None),
    ];
    assert_eq!(cache.files_to_load(&filenames(&spans)), vec!["a.rs".to_string(), "b.rs".to_string()]);
    files.load_into(&mut cache, &spans);
    files.load_into(&mut cache, &spans);
    assert!(cache.files_to_load(&filenames(&spans)).is_empty());
    assert_eq!(files.reads["a.rs"], 1);
    assert_eq!(files.reads["b.rs"], 1);
    let first = build_diagnostic(&cache, &spans, "m".to_string());
    let second = build_diagnostic(&cache, &spans, "m".to_string());
    assert_eq!(first.slices.len(), 4);
    for (x, y) in first.slices.iter().zip(second.slices.iter()) {
        assert_eq!(x.source, y.source);
    }
}

#[test]
fn cache_keeps_first_text() {
    let mut cache = SourceCache::new();
    let name = "a.rs".to_string();
    assert!(!cache.contains(&name));
    cache.insert(name.clone(), A_RS.to_string());
    cache.insert(name.clone(), "changed\n".to_string());
    assert!(cache.contains(&name));
    assert_eq!(cache.get(&name).unwrap().text, A_RS);
    assert_eq!(cache.get(&name).unwrap().newlines, vec![8, 17, 19]);
    assert!(cache.get(&"b.rs".to_string()).is_none());
}

#[test]
fn end_to_end_call_site() {
    let mut cache = SourceCache::new();
    cache.insert("a.rs".to_string(), A_RS.to_string());
    let spans = vec![(span("a.rs", lines(2, 2, 5, 8)), Some("call here".to_string()))];
    assert!(spans_fit(&cache, &spans));
    let out = create_error(&cache, &spans, "found call".to_string());
    assert!(out.ends_with('\n'));
    let plain = strip_styles(&out);
    let rows: Vec<&str> = plain.lines().collect();
    assert_eq!(rows[0], "error: found call");
    let shown: Vec<&str> = rows.iter().copied().filter(|r| r.trim_start().starts_with(|c: char| c.is_ascii_digit())).collect();
    assert_eq!(shown.len(), 2);
    assert!(shown[1].ends_with("|     g();"));
    let at = rows.iter().position(|r| r.ends_with("    g();")).unwrap();
    let under = rows[at + 1];
    let bar = under.find('|').unwrap();
    assert_eq!(&under[bar..], "|     ^^^ call here");
    assert!(plain.contains("a.rs"));
}

#[test]
fn two_files_two_slices_in_order() {
    let mut cache = SourceCache::new();
    cache.insert("b.rs".to_string(), "let x = 1;\nlet y = 2;\n".to_string());
    cache.insert("a.rs".to_string(), A_RS.to_string());
    let spans = vec![
        (span("a.rs", lines(2, 2, 5, 8)), Some("first".to_string())),
        (span("b.rs", lines(2, 2, 5, 6)), Some("second".to_string())),
    ];
    assert!(spans_fit(&cache, &spans));
    let d = build_diagnostic(&cache, &spans, "two files".to_string());
    assert_eq!(d.slices.len(), 2);
    assert_eq!(d.message, "two files");
    assert_eq!(d.severity, Severity::Error);
    assert_eq!(d.slices[0].origin.as_deref(), Some("a.rs"));
    assert_eq!(d.slices[0].source, "\n    g();\n");
    assert_eq!(d.slices[1].origin.as_deref(), Some("b.rs"));
    assert_eq!(d.slices[1].source, "\nlet y = 2;\n");
    let h = d.slices[1].annotation.as_ref().unwrap();
    assert_eq!((h.start, h.end), (5, 6));
    let out = strip_styles(&render(&d));
    assert!(out.find("first").unwrap() < out.find("second").unwrap());
}

#[test]
fn spans_that_do_not_fit_are_refused() {
    let src = CachedSource::new(A_RS.to_string());
    assert!(span_fits_source(&src, lines(2, 2, 5, 8)));
    assert!(span_fits_source(&src, lines(2, 2, 11, 11)));
    assert!(!span_fits_source(&src, lines(4, 4, 1, 2)));
    assert!(!span_fits_source(&src, lines(0, 0, 1, 2)));
    assert!(!span_fits_source(&src, lines(3, 2, 1, 2)));
    assert!(!span_fits_source(&src, lines(3, 3, 10, 10)));
    assert!(!span_fits_source(&src, lines(2, 2, 8, 5)));
    assert!(!span_fits_source(&src, lines(2, 2, 5, 12)));
    assert!(!span_fits_source(&src, lines(1, 2, 19, 19)));
    // Only the zero-width span one past the end may end past the excerpt.
    assert!(!span_fits_source(&src, lines(2, 2, 10, 11)));
    assert!(!span_fits_source(&src, lines(2, 2, 10, 10)));
    assert!(span_fits_source(&src, lines(2, 2, 9, 10)));
    assert!(span_fits_source(&src, lines(2, 2, 9, 9)));
    // Line numbers must stay within usize.
    let far = CachedSource::new("x
".to_string());
    assert!(!span_fits_source(&far, lines(usize::MAX, usize::MAX, 0, 1)));
    let mut cache = SourceCache::new();
    cache.insert("a.rs".to_string(), A_RS.to_string());
    let missing = vec![(span("c.rs", lines(1, 1, 1, 2)), None)];
    assert!(!spans_fit(&cache, &missing));
}

#[test]
fn assemble_keeps_order() {
    let src = CachedSource::new(A_RS.to_string());
    let one = resolve(&src, &span("a.rs", lines(3, 3, 1, 2)), None);
    let two = resolve(&src, &span("a.rs", lines(1, 1, 1, 2)), None);
    let d = assemble("msg".to_string(), vec![one, two]);
    assert_eq!(d.slices[0].line_start, 3);
    assert_eq!(d.slices[1].line_start, 1);
    assert_eq!(d.severity, Severity::Error);
}
