use typst_query::diag::{
    plan, report, Color, Diagnostic, DiagnosticFormat, Entry, Kind, Label, RenderError, Severity,
    SourceDb, SourceFile, Span, TracePoint, TAB_WIDTH,
};

fn file(path: &str, len: usize) -> SourceFile {
    SourceFile { path: path.to_string(), len }
}

fn db() -> SourceDb {
    let mut db = SourceDb::new();
    db.insert(1, file("main.typ", 100));
    db.insert(2, file("lib/util.typ", 40));
    db
}

fn diagnostic(severity: Severity, message: &str, span: Span) -> Diagnostic {
    Diagnostic { severity, message: message.to_string(), span, hints: vec![], trace: vec![] }
}

fn label(file: u64, path: &str, start: usize, end: usize) -> Label {
    Label { file, path: path.to_string(), start, end }
}

fn messages(entries: &[Entry]) -> Vec<&str> {
    entries.iter().map(|entry| entry.message.as_str()).collect()
}

#[test]
fn detached_span_points_nowhere() {
    assert_eq!(Span::detached().file, None);
    assert_eq!(db().resolve(&Span::detached()), Ok(None));
    assert_eq!(SourceDb::new().resolve(&Span::detached()), Ok(None));
    let mut later = db();
    later.reset();
    assert_eq!(later.resolve(&Span::detached()), Ok(None));
    let odd = Span { file: None, start: 9, end: 3, epoch: 77 };
    assert_eq!(db().resolve(&odd), Ok(None));
}

#[test]
fn span_resolves_to_its_file_and_range() {
    let db = db();
    assert_eq!(db.resolve(&db.span(1, 10, 20)), Ok(Some(label(1, "main.typ", 10, 20))));
    assert_eq!(db.resolve(&db.span(2, 0, 40)), Ok(Some(label(2, "lib/util.typ", 0, 40))));
    assert_eq!(db.resolve(&db.span(2, 40, 40)), Ok(Some(label(2, "lib/util.typ", 40, 40))));
    assert_eq!(db.resolve(&db.span(1, 0, 0)), Ok(Some(label(1, "main.typ", 0, 0))));
}

#[test]
fn span_of_unknown_file_is_refused() {
    let db = db();
    assert_eq!(db.resolve(&db.span(3, 0, 1)), Err(RenderError::UnknownFile));
    assert_eq!(SourceDb::new().resolve(&db.span(1, 0, 1)), Err(RenderError::UnknownFile));
}

#[test]
fn span_out_of_range_is_refused() {
    let db = db();
    assert_eq!(db.resolve(&db.span(2, 0, 41)), Err(RenderError::OutOfRange));
    assert_eq!(db.resolve(&db.span(2, 41, 41)), Err(RenderError::OutOfRange));
    assert_eq!(db.resolve(&db.span(1, 20, 10)), Err(RenderError::OutOfRange));
}

#[test]
fn span_from_before_a_reset_is_stale() {
    let mut db = db();
    let span = db.span(1, 10, 20);
    assert_eq!(span.epoch, 0);
    assert_eq!(db.epoch(), 0);
    db.reset();
    assert_eq!(db.epoch(), 1);
    assert_eq!(db.resolve(&span), Err(RenderError::StaleSpan));
    db.insert(1, file("other.typ", 100));
    assert_eq!(db.resolve(&span), Err(RenderError::StaleSpan));
    assert_eq!(db.resolve(&db.span(1, 10, 20)), Ok(Some(label(1, "other.typ", 10, 20))));
    db.reset();
    assert_eq!(db.resolve(&span), Err(RenderError::StaleSpan));
    let future = Span { file: Some(1), start: 0, end: 0, epoch: 5 };
    assert_eq!(db.resolve(&future), Err(RenderError::StaleSpan));
}

#[test]
fn reset_forgets_the_files() {
    let mut db = db();
    db.reset();
    assert_eq!(db.resolve(&db.span(1, 0, 0)), Err(RenderError::UnknownFile));
}

#[test]
fn insert_replaces_a_known_file() {
    let mut db = db();
    db.insert(2, file("renamed.typ", 5));
    assert_eq!(db.resolve(&db.span(2, 0, 5)), Ok(Some(label(2, "renamed.typ", 0, 5))));
    assert_eq!(db.resolve(&db.span(2, 0, 6)), Err(RenderError::OutOfRange));
    assert_eq!(db.resolve(&db.span(1, 0, 100)), Ok(Some(label(1, "main.typ", 0, 100))));
}

#[test]
fn warnings_come_before_errors() {
    let db = db();
    let w1 = diagnostic(Severity::Warning, "W1", db.span(1, 90, 95));
    let w2 = diagnostic(Severity::Warning, "W2", db.span(1, 50, 55));
    let e1 = diagnostic(Severity::Error, "E1", db.span(1, 10, 15));
    let e2 = diagnostic(Severity::Error, "E2", db.span(1, 0, 5));
    let made = report(&db, &[w1, w2], &[e1, e2], DiagnosticFormat::Human).unwrap();
    assert_eq!(messages(&made.entries), vec!["W1", "W2", "E1", "E2"]);
    let kinds: Vec<Kind> = made.entries.iter().map(|entry| entry.kind).collect();
    assert_eq!(kinds, vec![Kind::Warning, Kind::Warning, Kind::Error, Kind::Error]);
    assert_eq!(
        made.lines(),
        vec![
            "main.typ:90..95: warning: W1",
            "main.typ:50..55: warning: W2",
            "main.typ:10..15: error: E1",
            "main.typ:0..5: error: E2",
        ]
    );
}

#[test]
fn short_report_of_one_warning() {
    let mut warning = diagnostic(Severity::Warning, "unused variable", Span::detached());
    warning.hints.push("consider removing it".to_string());
    let made = report(&SourceDb::new(), &[warning], &[], DiagnosticFormat::Short).unwrap();
    assert!(!made.colored);
    assert_eq!(made.tab_width, 2);
    assert_eq!(made.entries.len(), 1);
    assert_eq!(made.entries[0].kind, Kind::Warning);
    assert_eq!(made.entries[0].message, "unused variable");
    assert_eq!(made.entries[0].notes, vec!["hint: consider removing it"]);
    assert_eq!(made.entries[0].label, None);
    let lines = made.lines();
    assert_eq!(lines, vec!["warning: unused variable", "hint: consider removing it"]);
    assert!(lines.iter().any(|line| line.contains("unused variable")));
    assert!(lines.iter().any(|line| line == "hint: consider removing it"));
    assert!(lines.iter().all(|line| !line.contains('\u{1b}')));
}

#[test]
fn human_report_may_show_colors() {
    let warning = diagnostic(Severity::Warning, "unused variable", Span::detached());
    let made = report(&SourceDb::new(), &[warning], &[], DiagnosticFormat::Human).unwrap();
    assert!(made.colored);
    assert_eq!(made.tab_width, TAB_WIDTH);
    assert_eq!(TAB_WIDTH, 2);
}

#[test]
fn empty_report() {
    let made = report(&db(), &[], &[], DiagnosticFormat::Short).unwrap();
    assert!(made.entries.is_empty());
    assert!(made.lines().is_empty());
    assert_eq!(plan(&db(), &[]), Ok(vec![]));
}

#[test]
fn hints_become_notes_in_order() {
    let db = db();
    let mut error = diagnostic(Severity::Error, "unknown variable: x", db.span(2, 3, 4));
    error.hints.push("did you mean y?".to_string());
    error.hints.push("".to_string());
    error.hints.push("or declare it".to_string());
    let made = report(&db, &[], &[error], DiagnosticFormat::Short).unwrap();
    assert_eq!(
        made.entries,
        vec![Entry {
            kind: Kind::Error,
            message: "unknown variable: x".to_string(),
            notes: vec![
                "hint: did you mean y?".to_string(),
                "hint: ".to_string(),
                "hint: or declare it".to_string(),
            ],
            label: Some(label(2, "lib/util.typ", 3, 4)),
        }]
    );
    assert_eq!(
        made.lines(),
        vec![
            "lib/util.typ:3..4: error: unknown variable: x",
            "hint: did you mean y?",
            "hint: ",
            "hint: or declare it",
        ]
    );
}

#[test]
fn trace_points_follow_their_diagnostic_as_help() {
    let db = db();
    let mut error = diagnostic(Severity::Error, "cannot add", db.span(2, 3, 4));
    error.hints.push("check the types".to_string());
    error.trace.push(TracePoint {
        span: db.span(2, 10, 30),
        value: "error occurred in this call of function `f`".to_string(),
    });
    error.trace.push(TracePoint {
        span: Span::detached(),
        value: "error occurred while importing this module".to_string(),
    });
    let warning = diagnostic(Severity::Warning, "late", db.span(1, 1, 2));
    let last = diagnostic(Severity::Error, "last", db.span(1, 2, 3));
    let made = report(&db, &[warning], &[error, last], DiagnosticFormat::Human).unwrap();
    let kinds: Vec<Kind> = made.entries.iter().map(|entry| entry.kind).collect();
    assert_eq!(kinds, vec![Kind::Warning, Kind::Error, Kind::Help, Kind::Help, Kind::Error]);
    assert_eq!(
        made.entries[2],
        Entry {
            kind: Kind::Help,
            message: "error occurred in this call of function `f`".to_string(),
            notes: vec![],
            label: Some(label(2, "lib/util.typ", 10, 30)),
        }
    );
    assert_eq!(made.entries[3].label, None);
    assert_eq!(
        made.lines(),
        vec![
            "main.typ:1..2: warning: late",
            "lib/util.typ:3..4: error: cannot add",
            "hint: check the types",
            "lib/util.typ:10..30: help: error occurred in this call of function `f`",
            "help: error occurred while importing this module",
            "main.typ:2..3: error: last",
        ]
    );
}

#[test]
fn one_unresolvable_span_fails_the_whole_report() {
    let db = db();
    let fine = diagnostic(Severity::Warning, "fine", db.span(1, 0, 1));
    let lost = diagnostic(Severity::Error, "lost", db.span(9, 0, 1));
    assert_eq!(
        report(&db, &[fine], &[lost], DiagnosticFormat::Human),
        Err(RenderError::UnknownFile)
    );
    let fine = diagnostic(Severity::Error, "fine", db.span(1, 0, 1));
    let lost = diagnostic(Severity::Warning, "lost", db.span(1, 0, 101));
    assert_eq!(
        report(&db, &[lost], &[fine], DiagnosticFormat::Short),
        Err(RenderError::OutOfRange)
    );
}

#[test]
fn the_first_unresolvable_span_decides_the_error() {
    let db = db();
    let mut traced = diagnostic(Severity::Warning, "traced", db.span(1, 0, 1));
    traced.trace.push(TracePoint { span: db.span(1, 0, 1), value: "ok".to_string() });
    traced.trace.push(TracePoint { span: db.span(1, 5, 500), value: "far".to_string() });
    traced.trace.push(TracePoint { span: db.span(7, 0, 0), value: "gone".to_string() });
    let unknown = diagnostic(Severity::Error, "unknown", db.span(8, 0, 1));
    assert_eq!(plan(&db, &[traced]), Err(RenderError::OutOfRange));
    let mut traced = diagnostic(Severity::Warning, "traced", db.span(1, 0, 1));
    traced.trace.push(TracePoint { span: db.span(1, 5, 500), value: "far".to_string() });
    assert_eq!(
        report(&db, &[traced], &[unknown], DiagnosticFormat::Human),
        Err(RenderError::OutOfRange)
    );
    let mut traced = diagnostic(Severity::Error, "traced", db.span(1, 0, 1));
    traced.trace.push(TracePoint { span: db.span(1, 5, 500), value: "far".to_string() });
    let unknown = diagnostic(Severity::Warning, "unknown", db.span(8, 0, 1));
    assert_eq!(
        report(&db, &[unknown], &[traced], DiagnosticFormat::Human),
        Err(RenderError::UnknownFile)
    );
}

#[test]
fn stale_diagnostics_cannot_be_reported() {
    let mut db = db();
    let old = diagnostic(Severity::Error, "old", db.span(1, 0, 1));
    db.reset();
    db.insert(1, file("main.typ", 100));
    assert_eq!(report(&db, &[], &[old], DiagnosticFormat::Human), Err(RenderError::StaleSpan));
}

#[test]
fn label_and_headline_as_text() {
    let place = label(4, "a/b.typ", 0, 1234);
    assert_eq!(place.text(), "a/b.typ:0..1234");
    let entry = Entry {
        kind: Kind::Help,
        message: "m".to_string(),
        notes: vec!["hint: n".to_string()],
        label: Some(place),
    };
    assert_eq!(entry.headline(), "a/b.typ:0..1234: help: m");
    let bare = Entry { kind: Kind::Error, message: "".to_string(), notes: vec![], label: None };
    assert_eq!(bare.headline(), "error: ");
}

#[test]
fn marker_colors() {
    assert_eq!(Kind::Error.color(), Color::Red);
    assert_eq!(Kind::Warning.color(), Color::Yellow);
    assert_eq!(Kind::Help.color(), Color::Cyan);
}
