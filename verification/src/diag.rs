//! Compiler diagnostics and the reports made of them.

use crate::text::{decimal, decimal_text};
use std::collections::HashMap;
use vstd::prelude::*;

verus! {

/// How a report is shown.
#[derive(Debug, Clone, Copy, PartialEq, Eq, Structural)]
pub enum DiagnosticFormat {
    /// For a reader at a terminal: the stream may show colors.
    Human,
    /// For other programs: the stream shows no colors.
    Short,
}

/// How grave a diagnostic is.
#[derive(Debug, Clone, Copy, PartialEq, Eq, Structural)]
pub enum Severity {
    Error,
    Warning,
}

/// A range of bytes in a source file, as one state of the source database
/// knows it. A span without a file is detached: it points nowhere.
#[derive(Debug, Clone, Copy, PartialEq, Eq, Structural)]
pub struct Span {
    /// The file, or none for a detached span.
    pub file: Option<u64>,
    /// The first byte of the range.
    pub start: usize,
    /// The byte after the last of the range.
    pub end: usize,
    /// The state of the source database in which the span was made.
    pub epoch: u64,
}

impl Span {
    /// A span that points nowhere.
    pub fn detached() -> (span: Span)
        ensures
            span == (Span { file: None, start: 0, end: 0, epoch: 0 }),
    {
        Span { file: None, start: 0, end: 0, epoch: 0 }
    }
}

/// What the source database knows of one file.
#[derive(Debug, PartialEq, Eq)]
pub struct SourceFile {
    /// The path by which the file is shown.
    pub path: String,
    /// The length of its text in bytes.
    pub len: usize,
}

/// What a [`SourceFile`] denotes.
pub struct FileInfo {
    pub path: Seq<char>,
    pub len: nat,
}

impl View for SourceFile {
    type V = FileInfo;

    open spec fn view(&self) -> FileInfo {
        FileInfo { path: self.path@, len: self.len as nat }
    }
}

/// What a [`SourceDb`] denotes: the files it knows, by their identities, and
/// the number of times it has been reset.
pub struct Sources {
    pub epoch: nat,
    pub files: Map<u64, FileInfo>,
}

/// The files of one compile attempt. A reset forgets them all and begins a
/// new state, in which no span of an earlier state is valid.
pub struct SourceDb {
    epoch: u64,
    files: HashMap<u64, SourceFile>,
}

impl View for SourceDb {
    type V = Sources;

    closed spec fn view(&self) -> Sources {
        Sources {
            epoch: self.epoch as nat,
            files: self.files@.map_values(|file: SourceFile| file@),
        }
    }
}

/// Where a span points: a range of bytes in a known file.
#[derive(Debug, PartialEq, Eq)]
pub struct Label {
    /// The identity of the file.
    pub file: u64,
    /// The path by which the file is shown.
    pub path: String,
    /// The first byte of the range.
    pub start: usize,
    /// The byte after the last of the range.
    pub end: usize,
}

/// What a [`Label`] denotes.
pub struct LabelView {
    pub file: u64,
    pub path: Seq<char>,
    pub start: nat,
    pub end: nat,
}

impl View for Label {
    type V = LabelView;

    open spec fn view(&self) -> LabelView {
        LabelView {
            file: self.file,
            path: self.path@,
            start: self.start as nat,
            end: self.end as nat,
        }
    }
}

/// Why a report could not be made.
#[derive(Debug, Clone, Copy, PartialEq, Eq, Structural)]
pub enum RenderError {
    /// A span was made in another state of the source database.
    StaleSpan,
    /// A span names a file that the source database does not know.
    UnknownFile,
    /// A span reaches beyond the end of its file, or ends before it starts.
    OutOfRange,
}

/// Where `span` points in `sources`: nowhere for a detached span, a label for
/// a span of the present state that lies within a known file, and an error
/// for every other span.
pub open spec fn resolved(sources: Sources, span: Span) -> Result<Option<LabelView>, RenderError> {
    match span.file {
        None => Ok(None),
        Some(file) => if span.epoch != sources.epoch {
            Err(RenderError::StaleSpan)
        } else if !sources.files.dom().contains(file) {
            Err(RenderError::UnknownFile)
        } else if !(span.start <= span.end <= sources.files[file].len) {
            Err(RenderError::OutOfRange)
        } else {
            Ok(
                Some(
                    LabelView {
                        file,
                        path: sources.files[file].path,
                        start: span.start as nat,
                        end: span.end as nat,
                    },
                ),
            )
        },
    }
}

/// What became of a resolved span, as a value of the executable kind.
pub open spec fn label_view(label: Option<Label>) -> Option<LabelView> {
    match label {
        Some(l) => Some(l@),
        None => None,
    }
}

impl SourceDb {
    /// A database that knows no file.
    pub fn new() -> (db: SourceDb)
        ensures
            db@.epoch == 0,
            db@.files == Map::<u64, FileInfo>::empty(),
    {
        let db = SourceDb { epoch: 0, files: HashMap::new() };
        assert(db@.files =~= Map::<u64, FileInfo>::empty());
        db
    }

    /// The number of resets so far.
    pub fn epoch(&self) -> (epoch: u64)
        ensures
            epoch == self@.epoch,
    {
        self.epoch
    }

    /// Makes `file` known under the identity `id`, in place of any file known
    /// under it before.
    pub fn insert(&mut self, id: u64, file: SourceFile)
        ensures
            final(self)@.epoch == old(self)@.epoch,
            final(self)@.files == old(self)@.files.insert(id, file@),
    {
        broadcast use vstd::std_specs::hash::group_hash_axioms;

        self.files.insert(id, file);
        assert(self@.files =~= old(self)@.files.insert(id, file@));
    }

    /// Forgets every file and begins a new state.
    pub fn reset(&mut self)
        requires
            old(self)@.epoch < u64::MAX,
        ensures
            final(self)@.epoch == old(self)@.epoch + 1,
            final(self)@.files == Map::<u64, FileInfo>::empty(),
    {
        self.files.clear();
        self.epoch = self.epoch + 1;
        assert(self@.files =~= Map::<u64, FileInfo>::empty());
    }

    /// A span over the bytes from `start` to `end` of the file `file`, valid
    /// in the present state.
    pub fn span(&self, file: u64, start: usize, end: usize) -> (span: Span)
        ensures
            span == (Span { file: Some(file), start, end, epoch: self@.epoch as u64 }),
    {
        Span { file: Some(file), start, end, epoch: self.epoch }
    }

    /// Looks up where `span` points.
    pub fn resolve(&self, span: &Span) -> (found: Result<Option<Label>, RenderError>)
        ensures
            match resolved(self@, *span) {
                Ok(label) => found matches Ok(l) && label_view(l) == label,
                Err(error) => found == Err::<Option<Label>, RenderError>(error),
            },
    {
        broadcast use vstd::std_specs::hash::group_hash_axioms;

        match span.file {
            None => Ok(None),
            Some(file) => {
                if span.epoch != self.epoch {
                    return Err(RenderError::StaleSpan);
                }
                match self.files.get(&file) {
                    None => Err(RenderError::UnknownFile),
                    Some(known) => {
                        if span.start <= span.end && span.end <= known.len {
                            Ok(
                                Some(
                                    Label {
                                        file,
                                        path: known.path.clone(),
                                        start: span.start,
                                        end: span.end,
                                    },
                                ),
                            )
                        } else {
                            Err(RenderError::OutOfRange)
                        }
                    },
                }
            },
        }
    }
}

/// Span staleness: a span that was made before a reset never resolves to a
/// place afterwards. Here `before` is the state in which the span was made
/// and `after` any state that follows a reset of it, whatever files have been
/// made known since. A detached span still points nowhere; every other span
/// of the earlier state is refused as stale.
pub proof fn lemma_stale_span_is_refused(before: Sources, after: Sources, span: Span)
    requires
        span.epoch == before.epoch,
        before.epoch < after.epoch,
    ensures
        resolved(after, span) == match span.file {
            None => Ok::<Option<LabelView>, RenderError>(None),
            Some(_) => Err::<Option<LabelView>, RenderError>(RenderError::StaleSpan),
        },
{
}

/// A span that resolves to a place resolves to its own: the label names the
/// span's file and range, and the file is one that the database knows in the
/// state in which the span was made.
pub proof fn lemma_resolved_label_is_own(sources: Sources, span: Span)
    ensures
        resolved(sources, span) matches Ok(Some(label)) ==> {
            &&& span.file == Some(label.file)
            &&& span.epoch == sources.epoch
            &&& sources.files.dom().contains(label.file)
            &&& label.path == sources.files[label.file].path
            &&& label.start == span.start
            &&& label.end == span.end
            &&& label.start <= label.end <= sources.files[label.file].len
        },
{
}

/// A breadcrumb on the way to a diagnostic: a place and what happened there.
#[derive(Debug, PartialEq, Eq)]
pub struct TracePoint {
    /// The place.
    pub span: Span,
    /// What happened there.
    pub value: String,
}

/// What a [`TracePoint`] denotes.
pub struct TraceView {
    pub span: Span,
    pub value: Seq<char>,
}

impl View for TracePoint {
    type V = TraceView;

    open spec fn view(&self) -> TraceView {
        TraceView { span: self.span, value: self.value@ }
    }
}

/// A message of the compiler about a place in the sources.
#[derive(Debug, PartialEq, Eq)]
pub struct Diagnostic {
    /// Whether it is an error or a warning.
    pub severity: Severity,
    /// What is wrong.
    pub message: String,
    /// Where it is wrong.
    pub span: Span,
    /// Advice on what to do about it.
    pub hints: Vec<String>,
    /// The way that led there, nearest first.
    pub trace: Vec<TracePoint>,
}

/// What a [`Diagnostic`] denotes.
pub struct DiagnosticView {
    pub severity: Severity,
    pub message: Seq<char>,
    pub span: Span,
    pub hints: Seq<Seq<char>>,
    pub trace: Seq<TraceView>,
}

impl View for Diagnostic {
    type V = DiagnosticView;

    open spec fn view(&self) -> DiagnosticView {
        DiagnosticView {
            severity: self.severity,
            message: self.message@,
            span: self.span,
            hints: Seq::new(self.hints@.len(), |i: int| self.hints@[i]@),
            trace: Seq::new(self.trace@.len(), |i: int| self.trace@[i]@),
        }
    }
}

/// What the given diagnostics denote, in the same order.
pub open spec fn diagnostic_views(diagnostics: Seq<Diagnostic>) -> Seq<DiagnosticView> {
    Seq::new(diagnostics.len(), |i: int| diagnostics[i]@)
}

/// The marker under which an entry of a report is shown.
#[derive(Debug, Clone, Copy, PartialEq, Eq, Structural)]
pub enum Kind {
    Error,
    Warning,
    Help,
}

/// The color in which a marker is shown where the stream shows colors.
#[derive(Debug, Clone, Copy, PartialEq, Eq, Structural)]
pub enum Color {
    Red,
    Yellow,
    Cyan,
}

/// The color of a marker: errors are red, warnings yellow, help cyan.
pub open spec fn color_of(kind: Kind) -> Color {
    match kind {
        Kind::Error => Color::Red,
        Kind::Warning => Color::Yellow,
        Kind::Help => Color::Cyan,
    }
}

impl Kind {
    /// The color in which the marker is shown.
    pub fn color(self) -> (color: Color)
        ensures
            color == color_of(self),
    {
        match self {
            Kind::Error => Color::Red,
            Kind::Warning => Color::Yellow,
            Kind::Help => Color::Cyan,
        }
    }
}

/// One entry of a report: a message under a marker, with its notes and the
/// place it is attached to.
#[derive(Debug, PartialEq, Eq)]
pub struct Entry {
    /// The marker.
    pub kind: Kind,
    /// The message.
    pub message: String,
    /// The notes that follow the message.
    pub notes: Vec<String>,
    /// The place, where the entry has one.
    pub label: Option<Label>,
}

/// What an [`Entry`] denotes.
pub struct EntryView {
    pub kind: Kind,
    pub message: Seq<char>,
    pub notes: Seq<Seq<char>>,
    pub label: Option<LabelView>,
}

impl View for Entry {
    type V = EntryView;

    open spec fn view(&self) -> EntryView {
        EntryView {
            kind: self.kind,
            message: self.message@,
            notes: Seq::new(self.notes@.len(), |i: int| self.notes@[i]@),
            label: label_view(self.label),
        }
    }
}

/// What the given entries denote, in the same order.
pub open spec fn entry_views(entries: Seq<Entry>) -> Seq<EntryView> {
    Seq::new(entries.len(), |i: int| entries[i]@)
}

/// The width of a tab in a source snippet, in columns.
pub const TAB_WIDTH: usize = 2;

/// A report that is ready to be written to a stream.
#[derive(Debug, PartialEq, Eq)]
pub struct Report {
    /// Whether the stream may show colors.
    pub colored: bool,
    /// The width of a tab in a source snippet, in columns.
    pub tab_width: usize,
    /// The entries, in the order in which they are written.
    pub entries: Vec<Entry>,
}

/// The marker of a diagnostic of the given severity.
pub open spec fn kind_of(severity: Severity) -> Kind {
    match severity {
        Severity::Error => Kind::Error,
        Severity::Warning => Kind::Warning,
    }
}

/// The note that shows a hint.
pub open spec fn note_of(hint: Seq<char>) -> Seq<char> {
    "hint: "@ + hint
}

/// The entry of a diagnostic itself: its message under the marker of its
/// severity, a note for every hint, and a label at its span.
pub open spec fn primary(sources: Sources, diagnostic: DiagnosticView) -> Result<
    EntryView,
    RenderError,
> {
    match resolved(sources, diagnostic.span) {
        Ok(label) => Ok(
            EntryView {
                kind: kind_of(diagnostic.severity),
                message: diagnostic.message,
                notes: diagnostic.hints.map_values(|hint: Seq<char>| note_of(hint)),
                label,
            },
        ),
        Err(error) => Err(error),
    }
}

/// The entry of a trace point: what happened there, as help, with a label at
/// its own span.
pub open spec fn annotation(sources: Sources, point: TraceView) -> Result<EntryView, RenderError> {
    match resolved(sources, point.span) {
        Ok(label) => Ok(
            EntryView { kind: Kind::Help, message: point.value, notes: Seq::empty(), label },
        ),
        Err(error) => Err(error),
    }
}

/// The entries of the given trace points, in their order; the error of the
/// first one whose span does not resolve.
pub open spec fn annotations(sources: Sources, trace: Seq<TraceView>) -> Result<
    Seq<EntryView>,
    RenderError,
>
    decreases trace.len(),
{
    if trace.len() == 0 {
        Ok(Seq::empty())
    } else {
        match annotations(sources, trace.drop_last()) {
            Err(error) => Err(error),
            Ok(before) => match annotation(sources, trace.last()) {
                Err(error) => Err(error),
                Ok(entry) => Ok(before.push(entry)),
            },
        }
    }
}

/// The entries of one diagnostic: its own, then one for every trace point.
pub open spec fn entries_of(sources: Sources, diagnostic: DiagnosticView) -> Result<
    Seq<EntryView>,
    RenderError,
> {
    match primary(sources, diagnostic) {
        Err(error) => Err(error),
        Ok(entry) => match annotations(sources, diagnostic.trace) {
            Err(error) => Err(error),
            Ok(after) => Ok(seq![entry] + after),
        },
    }
}

/// The entries of the given diagnostics, in their order; the error of the
/// first span, in that order, that does not resolve.
pub open spec fn planned(sources: Sources, diagnostics: Seq<DiagnosticView>) -> Result<
    Seq<EntryView>,
    RenderError,
>
    decreases diagnostics.len(),
{
    if diagnostics.len() == 0 {
        Ok(Seq::empty())
    } else {
        match planned(sources, diagnostics.drop_last()) {
            Err(error) => Err(error),
            Ok(before) => match entries_of(sources, diagnostics.last()) {
                Err(error) => Err(error),
                Ok(these) => Ok(before + these),
            },
        }
    }
}

/// Whether a report in `format` goes to a stream that may show colors.
pub open spec fn colored_in(format: DiagnosticFormat) -> bool {
    format == DiagnosticFormat::Human
}

/// Report ordering: the entries of two runs of diagnostics, one after the
/// other, are the entries of the first run followed by those of the second,
/// each in its own order. Nothing is sorted by severity or by place. The first
/// span that does not resolve, in that same order, decides the error.
pub proof fn lemma_planned_in_order(
    sources: Sources,
    first: Seq<DiagnosticView>,
    second: Seq<DiagnosticView>,
)
    ensures
        planned(sources, first + second) == match planned(sources, first) {
            Err(error) => Err::<Seq<EntryView>, RenderError>(error),
            Ok(before) => match planned(sources, second) {
                Err(error) => Err::<Seq<EntryView>, RenderError>(error),
                Ok(after) => Ok::<Seq<EntryView>, RenderError>(before + after),
            },
        },
    decreases second.len(),
{
    if second.len() == 0 {
        assert(first + second =~= first);
        if let Ok(before) = planned(sources, first) {
            assert(before + Seq::<EntryView>::empty() =~= before);
        }
    } else {
        assert((first + second).drop_last() =~= first + second.drop_last());
        assert((first + second).last() == second.last());
        lemma_planned_in_order(sources, first, second.drop_last());
        if let Ok(before) = planned(sources, first) {
            if let Ok(middle) = planned(sources, second.drop_last()) {
                if let Ok(these) = entries_of(sources, second.last()) {
                    assert((before + middle) + these =~= before + (middle + these));
                }
            }
        }
    }
}

/// A note for every hint, in the order of the hints.
fn notes_for(hints: &Vec<String>) -> (notes: Vec<String>)
    ensures
        notes@.len() == hints@.len(),
        forall|i: int| 0 <= i < hints@.len() ==> (#[trigger] notes@[i])@ == note_of(hints@[i]@),
{
    let mut notes: Vec<String> = Vec::new();
    let mut i: usize = 0;
    while i < hints.len()
        invariant
            i <= hints.len(),
            notes@.len() == i,
            forall|j: int| 0 <= j < i ==> (#[trigger] notes@[j])@ == note_of(hints@[j]@),
        decreases hints.len() - i,
    {
        let mut note = String::from_str("hint: ");
        note.append(hints[i].as_str());
        notes.push(note);
        i += 1;
    }
    notes
}

/// The entries of one diagnostic, appended to `entries`.
fn plan_one(db: &SourceDb, diagnostic: &Diagnostic, entries: &mut Vec<Entry>) -> (done: Result<
    (),
    RenderError,
>)
    ensures
        match entries_of(db@, diagnostic@) {
            Ok(these) => done is Ok && entry_views(final(entries)@) == entry_views(old(entries)@)
                + these,
            Err(error) => done == Err::<(), RenderError>(error),
        },
{
    let label = match db.resolve(&diagnostic.span) {
        Ok(label) => label,
        Err(error) => {
            return Err(error);
        },
    };
    let kind = match diagnostic.severity {
        Severity::Error => Kind::Error,
        Severity::Warning => Kind::Warning,
    };
    let entry = Entry {
        kind,
        message: diagnostic.message.clone(),
        notes: notes_for(&diagnostic.hints),
        label,
    };
    assert(entry@.notes =~= diagnostic@.hints.map_values(|hint: Seq<char>| note_of(hint)));
    assert(Ok::<EntryView, RenderError>(entry@) == primary(db@, diagnostic@));
    entries.push(entry);
    let ghost head = entry_views(entries@);
    assert(head =~= entry_views(old(entries)@) + seq![entry@]);
    let mut i: usize = 0;
    while i < diagnostic.trace.len()
        invariant
            i <= diagnostic.trace.len(),
            primary(db@, diagnostic@) is Ok,
            annotations(db@, diagnostic@.trace.take(i as int)) matches Ok(after) && entry_views(
                entries@,
            ) == head + after,
        decreases diagnostic.trace.len() - i,
    {
        let point = &diagnostic.trace[i];
        proof {
            let seen = diagnostic@.trace.take(i + 1);
            assert(seen.drop_last() =~= diagnostic@.trace.take(i as int));
            assert(seen.last() == point@);
        }
        match db.resolve(&point.span) {
            Ok(label) => {
                let ghost before = entry_views(entries@);
                let help = Entry {
                    kind: Kind::Help,
                    message: point.value.clone(),
                    notes: Vec::new(),
                    label,
                };
                assert(help@.notes =~= Seq::<Seq<char>>::empty());
                entries.push(help);
                assert(entry_views(entries@) =~= before.push(help@));
                proof {
                    let after = annotations(db@, diagnostic@.trace.take(i as int))->Ok_0;
                    assert((head + after).push(help@) =~= head + after.push(help@));
                }
            },
            Err(error) => {
                proof {
                    assert(annotation(db@, point@) == Err::<EntryView, RenderError>(error));
                    assert(annotations(db@, diagnostic@.trace.take(i + 1)) == Err::<
                        Seq<EntryView>,
                        RenderError,
                    >(error));
                    lemma_annotations_failure_persists(db@, diagnostic@.trace, i + 1);
                }
                return Err(error);
            },
        }
        i += 1;
    }
    proof {
        assert(diagnostic@.trace.take(i as int) =~= diagnostic@.trace);
        let before = entry_views(old(entries)@);
        let after = annotations(db@, diagnostic@.trace)->Ok_0;
        assert((before + seq![entry@]) + after =~= before + (seq![entry@] + after));
    }
    Ok(())
}

/// Once a trace point fails, so does every longer trace, with the same error.
proof fn lemma_annotations_failure_persists(sources: Sources, trace: Seq<TraceView>, n: int)
    requires
        0 <= n <= trace.len(),
        annotations(sources, trace.take(n)) is Err,
    ensures
        annotations(sources, trace) == annotations(sources, trace.take(n)),
    decreases trace.len(),
{
    if n == trace.len() {
        assert(trace.take(n) =~= trace);
    } else {
        assert(trace.drop_last().take(n) =~= trace.take(n));
        lemma_annotations_failure_persists(sources, trace.drop_last(), n);
    }
}

/// Once a diagnostic fails, so does every longer run, with the same error.
proof fn lemma_planned_failure_persists(sources: Sources, diagnostics: Seq<DiagnosticView>, n: int)
    requires
        0 <= n <= diagnostics.len(),
        planned(sources, diagnostics.take(n)) is Err,
    ensures
        planned(sources, diagnostics) == planned(sources, diagnostics.take(n)),
    decreases diagnostics.len(),
{
    if n == diagnostics.len() {
        assert(diagnostics.take(n) =~= diagnostics);
    } else {
        assert(diagnostics.drop_last().take(n) =~= diagnostics.take(n));
        lemma_planned_failure_persists(sources, diagnostics.drop_last(), n);
    }
}

/// The entries of the given diagnostics, in their order.
pub fn plan(db: &SourceDb, diagnostics: &[Diagnostic]) -> (entries: Result<Vec<Entry>, RenderError>)
    ensures
        match planned(db@, diagnostic_views(diagnostics@)) {
            Ok(these) => entries matches Ok(found) && entry_views(found@) == these,
            Err(error) => entries == Err::<Vec<Entry>, RenderError>(error),
        },
{
    let ghost all = diagnostic_views(diagnostics@);
    let mut entries: Vec<Entry> = Vec::new();
    let mut i: usize = 0;
    assert(entry_views(entries@) =~= Seq::<EntryView>::empty());
    while i < diagnostics.len()
        invariant
            i <= diagnostics.len(),
            all == diagnostic_views(diagnostics@),
            planned(db@, all.take(i as int)) matches Ok(these) && entry_views(entries@) == these,
        decreases diagnostics.len() - i,
    {
        proof {
            let seen = all.take(i + 1);
            assert(seen.drop_last() =~= all.take(i as int));
            assert(seen.last() == diagnostics[i as int]@);
        }
        match plan_one(db, &diagnostics[i], &mut entries) {
            Ok(()) => {},
            Err(error) => {
                proof {
                    lemma_planned_failure_persists(db@, all, i + 1);
                }
                return Err(error);
            },
        }
        i += 1;
    }
    assert(all.take(i as int) =~= all);
    Ok(entries)
}

/// Makes the report of a compile attempt: the warnings first, then the
/// errors, each run in the order given. Every diagnostic is followed by one
/// entry of help for each of its trace points. A report in the human format
/// goes to a stream that may show colors; one in the short format does not.
///
/// No report is made if any span of any diagnostic does not resolve in `db`.
pub fn report(
    db: &SourceDb,
    warnings: &[Diagnostic],
    errors: &[Diagnostic],
    format: DiagnosticFormat,
) -> (made: Result<Report, RenderError>)
    ensures
        match planned(db@, diagnostic_views(warnings@) + diagnostic_views(errors@)) {
            Ok(entries) => made matches Ok(report) && entry_views(report.entries@) == entries
                && report.colored == colored_in(format) && report.tab_width == TAB_WIDTH,
            Err(error) => made == Err::<Report, RenderError>(error),
        },
{
    proof {
        lemma_planned_in_order(db@, diagnostic_views(warnings@), diagnostic_views(errors@));
    }
    let mut entries = match plan(db, warnings) {
        Ok(entries) => entries,
        Err(error) => {
            return Err(error);
        },
    };
    let mut more = match plan(db, errors) {
        Ok(entries) => entries,
        Err(error) => {
            return Err(error);
        },
    };
    let ghost before = entry_views(entries@);
    let ghost after = entry_views(more@);
    entries.append(&mut more);
    assert(entry_views(entries@) =~= before + after);
    let colored = match format {
        DiagnosticFormat::Human => true,
        DiagnosticFormat::Short => false,
    };
    Ok(Report { colored, tab_width: TAB_WIDTH, entries })
}

/// The word that stands for a marker.
pub open spec fn kind_word(kind: Kind) -> Seq<char> {
    match kind {
        Kind::Error => "error"@,
        Kind::Warning => "warning"@,
        Kind::Help => "help"@,
    }
}

/// A place as text: the path, then the range of bytes.
pub open spec fn place(label: LabelView) -> Seq<char> {
    label.path + ":"@ + decimal(label.start) + ".."@ + decimal(label.end)
}

/// The first line of an entry: its place, where it has one, then the word of
/// its marker and its message.
pub open spec fn headline(entry: EntryView) -> Seq<char> {
    let told = kind_word(entry.kind) + ": "@ + entry.message;
    match entry.label {
        Some(label) => place(label) + ": "@ + told,
        None => told,
    }
}

/// The lines of an entry: its first line, then each note on a line of its
/// own.
pub open spec fn entry_lines(entry: EntryView) -> Seq<Seq<char>> {
    seq![headline(entry)] + entry.notes
}

/// The lines of the given entries, in their order.
pub open spec fn report_lines(entries: Seq<EntryView>) -> Seq<Seq<char>>
    decreases entries.len(),
{
    if entries.len() == 0 {
        Seq::empty()
    } else {
        report_lines(entries.drop_last()) + entry_lines(entries.last())
    }
}

/// The characters of the given strings, in the same order.
pub open spec fn texts(lines: Seq<String>) -> Seq<Seq<char>> {
    Seq::new(lines.len(), |i: int| lines[i]@)
}

fn kind_text(kind: Kind) -> (word: &'static str)
    ensures
        word@ == kind_word(kind),
{
    match kind {
        Kind::Error => "error",
        Kind::Warning => "warning",
        Kind::Help => "help",
    }
}

impl Label {
    /// The place as text.
    pub fn text(&self) -> (text: String)
        ensures
            text@ == place(self@),
    {
        let mut text = self.path.clone();
        text.append(":");
        text.append(decimal_text(self.start).as_str());
        text.append("..");
        text.append(decimal_text(self.end).as_str());
        text
    }
}

impl Entry {
    /// The first line of the entry.
    pub fn headline(&self) -> (line: String)
        ensures
            line@ == headline(self@),
    {
        let mut line = match &self.label {
            Some(label) => {
                let mut line = label.text();
                line.append(": ");
                line
            },
            None => String::new(),
        };
        line.append(kind_text(self.kind));
        line.append(": ");
        line.append(self.message.as_str());
        assert(line@ =~= headline(self@));
        line
    }

    /// The lines of the entry, appended to `lines`.
    fn write(&self, lines: &mut Vec<String>)
        ensures
            texts(final(lines)@) == texts(old(lines)@) + entry_lines(self@),
    {
        let first = self.headline();
        lines.push(first);
        assert(texts(lines@) =~= texts(old(lines)@) + seq![headline(self@)] + self@.notes.take(0));
        let mut i: usize = 0;
        while i < self.notes.len()
            invariant
                i <= self.notes.len(),
                texts(lines@) == texts(old(lines)@) + seq![headline(self@)] + self@.notes.take(
                    i as int,
                ),
            decreases self.notes.len() - i,
        {
            let ghost before = texts(lines@);
            let note = self.notes[i].clone();
            lines.push(note);
            proof {
                assert(texts(lines@) =~= before.push(note@));
                assert(self@.notes.take(i + 1) =~= self@.notes.take(i as int).push(note@));
                assert(before.push(note@) =~= texts(old(lines)@) + seq![headline(self@)]
                    + self@.notes.take(i + 1));
            }
            i += 1;
        }
        proof {
            assert(self@.notes.take(i as int) =~= self@.notes);
            assert(texts(old(lines)@) + seq![headline(self@)] + self@.notes =~= texts(old(lines)@)
                + entry_lines(self@));
        }
    }
}

impl Report {
    /// The report as plain lines of text, without any color code of its own:
    /// the lines of each entry, in the order of the entries.
    pub fn lines(&self) -> (lines: Vec<String>)
        ensures
            texts(lines@) == report_lines(entry_views(self.entries@)),
    {
        let ghost all = entry_views(self.entries@);
        let mut lines: Vec<String> = Vec::new();
        let mut i: usize = 0;
        while i < self.entries.len()
            invariant
                i <= self.entries.len(),
                all == entry_views(self.entries@),
                texts(lines@) == report_lines(all.take(i as int)),
            decreases self.entries.len() - i,
        {
            proof {
                let seen = all.take(i + 1);
                assert(seen.drop_last() =~= all.take(i as int));
                assert(seen.last() == self.entries[i as int]@);
            }
            self.entries[i].write(&mut lines);
            i += 1;
        }
        assert(all.take(i as int) =~= all);
        lines
    }
}

} // verus!
