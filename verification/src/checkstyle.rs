//! The report: findings grouped by the file they point at.

use vstd::prelude::*;
use vstd::string::{StrSliceExecFns, StringExecFns};

use crate::json::{json_text, JsonView};
use crate::message::compiler_message::{CompilerMessage, ErrorLevel};
use crate::message::fields::DecodeError;
use crate::message::Message;
use crate::noise::{is_summary, is_summary_line};
use crate::text::{chars_of, decimal, decimal_string, str_eq};

verus! {

/// What the caller asks of the report.
#[derive(Debug, Clone)]
pub struct Options {
    /// Append the compiler's full rendering of a diagnostic to its message.
    pub include_rendered: bool,
    /// Hand the lines that are no records back to the caller, for its
    /// diagnostic channel, instead of dropping them.
    pub redirect_to_stderr: bool,
}

/// The report: one bucket of findings for each file, in the order in which
/// the files were first seen.
#[derive(Debug, Clone)]
pub struct CheckstyleDoc {
    pub files: Vec<(String, CheckstyleFile)>,
}

/// The findings of one file, in the order in which they were reported.
#[derive(Debug, Clone)]
pub struct CheckstyleFile {
    pub errors: Vec<CheckstyleError>,
}

/// One finding.
#[derive(Debug, Clone)]
pub struct CheckstyleError {
    pub column: u32,
    pub line: u32,
    pub message: String,
    pub severity: String,
    pub source: Option<String>,
}

/// The three severities of a report.
#[derive(Debug, Clone, Copy, PartialEq, Eq, Structural)]
pub enum Severity {
    Error,
    Warning,
    Info,
}

/// A finding as a value: what a `CheckstyleError` holds.
pub struct ErrorView {
    pub column: u32,
    pub line: u32,
    pub message: Seq<char>,
    pub severity: Seq<char>,
    pub source: Option<Seq<char>>,
}

/// A finding together with the file it belongs to.
pub struct Finding {
    pub file: Seq<char>,
    pub error: ErrorView,
}

impl View for CheckstyleError {
    type V = ErrorView;

    open spec fn view(&self) -> ErrorView {
        ErrorView {
            column: self.column,
            line: self.line,
            message: self.message@,
            severity: self.severity@,
            source: self.source.deep_view(),
        }
    }
}

impl View for CheckstyleFile {
    type V = Seq<ErrorView>;

    open spec fn view(&self) -> Seq<ErrorView> {
        Seq::new(self.errors@.len(), |i: int| self.errors@[i]@)
    }
}

impl View for CheckstyleDoc {
    type V = Seq<(Seq<char>, Seq<ErrorView>)>;

    open spec fn view(&self) -> Seq<(Seq<char>, Seq<ErrorView>)> {
        Seq::new(self.files@.len(), |i: int| (self.files@[i].0@, self.files@[i].1@))
    }
}

impl Default for CheckstyleDoc {
    /// A report without findings.
    fn default() -> (doc: Self)
        ensures
            doc@ == Seq::<(Seq<char>, Seq<ErrorView>)>::empty(),
            doc.wf(),
    {
        Self::new()
    }
}

impl Default for CheckstyleFile {
    /// A file without findings.
    fn default() -> (file: Self)
        ensures
            file@ == Seq::<ErrorView>::empty(),
    {
        let file = CheckstyleFile { errors: Vec::new() };
        assert(file@ =~= Seq::empty());
        file
    }
}

impl Severity {
    /// The name of this severity in a report.
    pub open spec fn label(self) -> Seq<char> {
        match self {
            Severity::Error => "error"@,
            Severity::Warning => "warning"@,
            Severity::Info => "info"@,
        }
    }

    /// The severity that a report gives a diagnostic of the compiler's
    /// level: warnings stay warnings, notes and help become information, and
    /// all else, a level without a name of its own included, is an error.
    pub open spec fn of_level(level: ErrorLevel) -> Severity {
        match level {
            ErrorLevel::InternalCompilerError => Severity::Error,
            ErrorLevel::Error => Severity::Error,
            ErrorLevel::Warning => Severity::Warning,
            ErrorLevel::Note => Severity::Info,
            ErrorLevel::Help => Severity::Info,
            ErrorLevel::Other(_) => Severity::Error,
        }
    }

    /// Maps the compiler's level to the severity of the report.
    pub fn of(level: &ErrorLevel) -> (severity: Severity)
        ensures
            severity == Self::of_level(*level),
    {
        match level {
            ErrorLevel::InternalCompilerError => Severity::Error,
            ErrorLevel::Error => Severity::Error,
            ErrorLevel::Warning => Severity::Warning,
            ErrorLevel::Note => Severity::Info,
            ErrorLevel::Help => Severity::Info,
            ErrorLevel::Other(_) => Severity::Error,
        }
    }

    /// The name of this severity in a report.
    pub fn name(&self) -> (name: &'static str)
        ensures
            name@ == self.label(),
    {
        match self {
            Severity::Error => "error",
            Severity::Warning => "warning",
            Severity::Info => "info",
        }
    }
}

/// The message of the finding for a diagnostic: its short message, followed
/// where the rendering is asked for and there is one by an empty line and the
/// rendering inside a fence.
pub open spec fn report_message(d: CompilerMessage, opts: Options) -> Seq<char> {
    match d.rendered {
        Some(rendered) => if opts.include_rendered {
            d.message@ + "\n\n```\n"@ + rendered@ + "\n```\n"@
        } else {
            d.message@
        },
        None => d.message@,
    }
}

/// The finding for a diagnostic at a given place.
pub open spec fn finding_at(
    d: CompilerMessage,
    opts: Options,
    file: Seq<char>,
    line: u32,
    column: u32,
) -> Finding {
    Finding {
        file,
        error: ErrorView {
            column,
            line,
            message: report_message(d, opts),
            severity: Severity::of_level(d.level).label(),
            source: match d.code {
                Some(code) => Some(code.code@),
                None => None,
            },
        },
    }
}

/// The finding that a diagnostic gives. It stands at the start of the first
/// span. A diagnostic without spans gives none where its message is an
/// end-of-run summary, and else one at line 1, column 1 of `<unknown>`.
pub open spec fn diagnostic_finding(d: CompilerMessage, opts: Options) -> Option<Finding> {
    if d.spans@.len() > 0 {
        let span = d.spans@[0];
        Some(
            finding_at(
                d,
                opts,
                span.file_name@,
                span.line_start as u32,
                span.column_start as u32,
            ),
        )
    } else if is_summary(d.message@) {
        None
    } else {
        Some(finding_at(d, opts, "<unknown>"@, 1, 1))
    }
}

/// The finding that a record gives: that of its diagnostic, and none for a
/// record of any other kind.
pub open spec fn finding_of(m: Message, opts: Options) -> Option<Finding> {
    match m {
        Message::FromCompiler(record) => diagnostic_finding(record.message, opts),
        _ => None,
    }
}

/// The index of the first bucket of `file`, or the number of buckets where
/// it has none.
pub open spec fn bucket_index(buckets: Seq<(Seq<char>, Seq<ErrorView>)>, file: Seq<char>) -> int
    decreases buckets.len(),
{
    if buckets.len() == 0 || buckets[0].0 == file {
        0
    } else {
        1 + bucket_index(buckets.drop_first(), file)
    }
}

/// The buckets after a finding was filed: at the end of the bucket of its
/// file, or in a new last bucket where the file had none.
pub open spec fn filed(buckets: Seq<(Seq<char>, Seq<ErrorView>)>, f: Finding) -> Seq<
    (Seq<char>, Seq<ErrorView>),
> {
    let i = bucket_index(buckets, f.file);
    if i < buckets.len() {
        buckets.update(i, (f.file, buckets[i].1.push(f.error)))
    } else {
        buckets.push((f.file, seq![f.error]))
    }
}

/// The buckets after a record was taken in.
pub open spec fn absorbed(
    buckets: Seq<(Seq<char>, Seq<ErrorView>)>,
    finding: Option<Finding>,
) -> Seq<(Seq<char>, Seq<ErrorView>)> {
    match finding {
        Some(f) => filed(buckets, f),
        None => buckets,
    }
}

/// Whether no two buckets are of the same file.
pub open spec fn distinct_files(buckets: Seq<(Seq<char>, Seq<ErrorView>)>) -> bool {
    forall|i: int, j: int|
        0 <= i < j < buckets.len() ==> (#[trigger] buckets[i]).0 != (#[trigger] buckets[j]).0
}

/// One step of writing a report to a sink of nested elements.
#[derive(Debug, Clone)]
pub enum ReportEvent {
    /// Opens an element with the given attributes, in their order.
    Start { name: String, attributes: Vec<(String, String)> },
    /// Closes the element that was opened last and is still open.
    End,
}

/// A `ReportEvent` as a value.
pub enum EventView {
    Start { name: Seq<char>, attributes: Seq<(Seq<char>, Seq<char>)> },
    End,
}

impl DeepView for ReportEvent {
    type V = EventView;

    open spec fn deep_view(&self) -> EventView {
        match self {
            ReportEvent::Start { name, attributes } => EventView::Start {
                name: name@,
                attributes: attributes.deep_view(),
            },
            ReportEvent::End => EventView::End,
        }
    }
}

/// The attributes of the element of a finding: `column`, `line`, `message`,
/// `severity` and, where the finding has one, `source`.
pub open spec fn error_attributes(e: ErrorView) -> Seq<(Seq<char>, Seq<char>)> {
    let always = seq![
        ("column"@, decimal(e.column as nat)),
        ("line"@, decimal(e.line as nat)),
        ("message"@, e.message),
        ("severity"@, e.severity),
    ];
    match e.source {
        Some(source) => always.push(("source"@, source)),
        None => always,
    }
}

/// The events of a finding: an `error` element without content.
pub open spec fn error_events(e: ErrorView) -> Seq<EventView> {
    seq![EventView::Start { name: "error"@, attributes: error_attributes(e) }, EventView::End]
}

/// The events of the findings of a file, one after the other.
pub open spec fn errors_events(errors: Seq<ErrorView>) -> Seq<EventView>
    decreases errors.len(),
{
    if errors.len() == 0 {
        Seq::empty()
    } else {
        errors_events(errors.drop_last()) + error_events(errors.last())
    }
}

/// The events of a file: a `file` element with the attribute `name`, which
/// holds the findings of the file.
pub open spec fn file_events(name: Seq<char>, errors: Seq<ErrorView>) -> Seq<EventView> {
    seq![EventView::Start { name: "file"@, attributes: seq![("name"@, name)] }] + errors_events(
        errors,
    ) + seq![EventView::End]
}

/// The events of the buckets of a report, one after the other.
pub open spec fn files_events(buckets: Seq<(Seq<char>, Seq<ErrorView>)>) -> Seq<EventView>
    decreases buckets.len(),
{
    if buckets.len() == 0 {
        Seq::empty()
    } else {
        files_events(buckets.drop_last()) + file_events(buckets.last().0, buckets.last().1)
    }
}

/// The events of a report: a `checkstyle` element without attributes, which
/// holds the files of the report.
pub open spec fn doc_events(buckets: Seq<(Seq<char>, Seq<ErrorView>)>) -> Seq<EventView> {
    seq![EventView::Start { name: "checkstyle"@, attributes: Seq::empty() }] + files_events(
        buckets,
    ) + seq![EventView::End]
}

impl CheckstyleError {
    /// Writes this finding to the sink: one `error` element.
    pub fn write_xml(&self, xml: &mut Vec<ReportEvent>)
        ensures
            final(xml).deep_view() == old(xml).deep_view() + error_events(self@),
    {
        let ghost before = xml.deep_view();
        let mut attributes: Vec<(String, String)> = Vec::new();
        attributes.push(("column".to_owned(), decimal_string(self.column)));
        attributes.push(("line".to_owned(), decimal_string(self.line)));
        attributes.push(("message".to_owned(), self.message.clone()));
        attributes.push(("severity".to_owned(), self.severity.clone()));
        if let Some(source) = &self.source {
            attributes.push(("source".to_owned(), source.clone()));
        }
        assert(attributes.deep_view() =~= error_attributes(self@));
        xml.push(ReportEvent::Start { name: "error".to_owned(), attributes });
        xml.push(ReportEvent::End);
        assert(xml.deep_view() =~= before + error_events(self@));
    }
}

impl CheckstyleFile {
    /// Writes this file to the sink: one `file` element named `name`, with
    /// the findings in their order.
    pub fn write_xml(&self, xml: &mut Vec<ReportEvent>, name: &str)
        ensures
            final(xml).deep_view() == old(xml).deep_view() + file_events(name@, self@),
    {
        let ghost before = xml.deep_view();
        let mut attributes: Vec<(String, String)> = Vec::new();
        attributes.push(("name".to_owned(), name.to_owned()));
        assert(attributes.deep_view() =~= seq![("name"@, name@)]);
        xml.push(ReportEvent::Start { name: "file".to_owned(), attributes });
        let ghost opened = xml.deep_view();
        assert(opened =~= before + seq![
            EventView::Start { name: "file"@, attributes: seq![("name"@, name@)] },
        ]);
        let mut i: usize = 0;
        assert(self@.take(0) =~= Seq::empty());
        while i < self.errors.len()
            invariant
                i <= self.errors@.len(),
                xml.deep_view() == opened + errors_events(self@.take(i as int)),
            decreases self.errors@.len() - i,
        {
            let ghost sofar = xml.deep_view();
            self.errors[i].write_xml(xml);
            proof {
                assert(self@.take(i + 1).drop_last() =~= self@.take(i as int));
                assert(self@.take(i + 1).last() == self.errors@[i as int]@);
                assert(xml.deep_view() =~= opened + errors_events(self@.take(i + 1)));
            }
            i += 1;
        }
        assert(self@.take(i as int) =~= self@);
        let ghost filled = xml.deep_view();
        xml.push(ReportEvent::End);
        assert(xml.deep_view() =~= filled.push(EventView::End));
        assert(xml.deep_view() =~= before + file_events(name@, self@));
    }
}

/// Whether a line opens like a record: with `{`.
pub open spec fn is_envelope(line: Seq<char>) -> bool {
    line.len() > 0 && line[0] == '{'
}

/// The line without the line feeds at its end.
pub open spec fn stripped(line: Seq<char>) -> Seq<char>
    decreases line.len(),
{
    if line.len() > 0 && line.last() == '\n' {
        stripped(line.drop_last())
    } else {
        line
    }
}

/// What is wrong with a line: nothing where it does not open like a record,
/// `Syntax` where it opens like one and is no JSON document, `Schema` where
/// the document decodes to no record.
pub open spec fn line_error(line: Seq<char>) -> Option<DecodeError> {
    if is_envelope(line) {
        Message::line_fault(line)
    } else {
        None
    }
}

/// The finding that a line adds to the report, if it adds one.
pub open spec fn line_finding(line: Seq<char>, opts: Options) -> Option<Finding> {
    if is_envelope(line) && line_error(line) is None {
        finding_of(Message::decoding(json_text(line)->0), opts)
    } else {
        None
    }
}

/// The text that a line sends to the side channel, if it sends one: a line
/// that does not open like a record is forwarded, without the line feeds at
/// its end, where forwarding is asked for.
pub open spec fn line_forward(line: Seq<char>, opts: Options) -> Option<Seq<char>> {
    if !is_envelope(line) && opts.redirect_to_stderr {
        Some(stripped(line))
    } else {
        None
    }
}

/// The index of the first line that is in error, or the number of lines
/// where none is.
pub open spec fn first_bad_line(lines: Seq<String>) -> int
    decreases lines.len(),
{
    if lines.len() == 0 || line_error(lines[0]@) is Some {
        0
    } else {
        1 + first_bad_line(lines.drop_first())
    }
}

/// The report of a run of lines, none of which is in error.
pub open spec fn report_of(lines: Seq<String>, opts: Options) -> Seq<(Seq<char>, Seq<ErrorView>)>
    decreases lines.len(),
{
    if lines.len() == 0 {
        Seq::empty()
    } else {
        absorbed(report_of(lines.drop_last(), opts), line_finding(lines.last()@, opts))
    }
}

/// The texts that a run of lines sends to the side channel, in their order.
pub open spec fn forwarded(lines: Seq<String>, opts: Options) -> Seq<Seq<char>>
    decreases lines.len(),
{
    if lines.len() == 0 {
        Seq::empty()
    } else {
        match line_forward(lines.last()@, opts) {
            Some(text) => forwarded(lines.drop_last(), opts).push(text),
            None => forwarded(lines.drop_last(), opts),
        }
    }
}

/// Why a run of lines gave no report.
#[derive(Debug)]
pub struct ReadError {
    /// The index of the first line in error, counted from 0.
    pub line: usize,
    /// What is wrong with that line.
    pub cause: DecodeError,
    /// What the lines before it sent to the side channel.
    pub forwarded: Vec<String>,
}

/// Two diagnostics that one document decodes to give the same finding.
pub proof fn lemma_diagnostic_decodings_agree(
    a: CompilerMessage,
    b: CompilerMessage,
    j: JsonView,
    opts: Options,
)
    requires
        a.decoded_from(j),
        b.decoded_from(j),
    ensures
        diagnostic_finding(a, opts) == diagnostic_finding(b, opts),
{
    let items = j.member("spans"@)->0->Array_0;
    if a.spans@.len() > 0 {
        assert(a.spans@[0].decoded_from(items[0]));
        assert(b.spans@[0].decoded_from(items[0]));
    }
    assert(report_message(a, opts) == report_message(b, opts));
    assert(Severity::of_level(a.level) == Severity::of_level(b.level));
}

/// Two records that one document decodes to give the same finding: what a
/// line adds to the report depends on the line alone.
pub proof fn lemma_decodings_agree(a: Message, b: Message, j: JsonView, opts: Options)
    requires
        a.decoded_from(j),
        b.decoded_from(j),
    ensures
        finding_of(a, opts) == finding_of(b, opts),
{
    match (a, b) {
        (Message::FromCompiler(x), Message::FromCompiler(y)) => {
            lemma_diagnostic_decodings_agree(
                x.message,
                y.message,
                j.member("message"@)->0,
                opts,
            );
        },
        _ => {},
    }
}

/// The number of findings in all buckets together.
pub open spec fn total_findings(buckets: Seq<(Seq<char>, Seq<ErrorView>)>) -> nat
    decreases buckets.len(),
{
    if buckets.len() == 0 {
        0
    } else {
        total_findings(buckets.drop_last()) + buckets.last().1.len()
    }
}

/// A diagnostic with spans gives a finding, and the finding stands where the
/// first span starts: in its file, at its first line and column, whatever
/// the spans after it say. Line and column are the span's own numbers where
/// these fit in 32 bits.
pub proof fn lemma_finding_stands_at_first_span(d: CompilerMessage, opts: Options)
    requires
        d.spans@.len() >= 1,
    ensures
        diagnostic_finding(d, opts) matches Some(f) && {
            &&& f.file == d.spans@[0].file_name@
            &&& f.error.line == d.spans@[0].line_start as u32
            &&& f.error.column == d.spans@[0].column_start as u32
            &&& d.spans@[0].line_start <= u32::MAX ==> f.error.line == d.spans@[0].line_start
            &&& d.spans@[0].column_start <= u32::MAX ==> f.error.column
                == d.spans@[0].column_start
        },
{
}

/// The line and the column of a finding count from 1 where those of the
/// first span do and fit in 32 bits, and where the diagnostic has no span.
pub proof fn lemma_finding_place_counts_from_one(d: CompilerMessage, opts: Options)
    requires
        d.spans@.len() >= 1 ==> {
            &&& 1 <= d.spans@[0].line_start <= u32::MAX
            &&& 1 <= d.spans@[0].column_start <= u32::MAX
        },
    ensures
        diagnostic_finding(d, opts) matches Some(f) ==> f.error.line >= 1 && f.error.column >= 1,
{
}

/// A diagnostic without spans whose message is an end-of-run summary gives
/// no finding, and leaves every report as it is.
pub proof fn lemma_summary_gives_no_finding(
    d: CompilerMessage,
    opts: Options,
    buckets: Seq<(Seq<char>, Seq<ErrorView>)>,
)
    requires
        d.spans@.len() == 0,
        is_summary(d.message@),
    ensures
        diagnostic_finding(d, opts) is None,
        absorbed(buckets, diagnostic_finding(d, opts)) == buckets,
{
}

/// A diagnostic without spans whose message is no end-of-run summary is kept:
/// it gives one finding, at line 1 and column 1 of the file `<unknown>`.
pub proof fn lemma_unplaced_diagnostic_is_kept(d: CompilerMessage, opts: Options)
    requires
        d.spans@.len() == 0,
        !is_summary(d.message@),
    ensures
        diagnostic_finding(d, opts) matches Some(f) && {
            &&& f.file == "<unknown>"@
            &&& f.error.line == 1
            &&& f.error.column == 1
        },
{
}

/// Every level of the compiler has a severity in the report, and the name of
/// that severity is `error`, `warning` or `info`. A level without a name of
/// its own is an error.
pub proof fn lemma_severity_is_total(level: ErrorLevel)
    ensures
        ({
            let name = Severity::of_level(level).label();
            name == "error"@ || name == "warning"@ || name == "info"@
        }),
        level is Other ==> Severity::of_level(level) == Severity::Error,
        level is InternalCompilerError || level is Error ==> Severity::of_level(level)
            == Severity::Error,
        level is Warning ==> Severity::of_level(level) == Severity::Warning,
        level is Note || level is Help ==> Severity::of_level(level) == Severity::Info,
{
}

/// Where the rendering is asked for and the diagnostic has one, the message
/// of the finding is the short message, an empty line, and the rendering
/// inside a fence. Where it is not asked for, or there is none, the message
/// is the short message and nothing else.
pub proof fn lemma_rendering_follows_the_message(d: CompilerMessage, opts: Options)
    ensures
        opts.include_rendered && d.rendered is Some ==> report_message(d, opts) == d.message@
            + "\n\n```\n"@ + d.rendered->0@ + "\n```\n"@,
        !opts.include_rendered || d.rendered is None ==> report_message(d, opts) == d.message@,
        forall|f: Finding|
            diagnostic_finding(d, opts) == Some(f) ==> f.error.message == report_message(d, opts),
{
}

/// Changing one bucket changes the number of findings by what that bucket
/// gains.
proof fn lemma_total_after_update(
    buckets: Seq<(Seq<char>, Seq<ErrorView>)>,
    i: int,
    bucket: (Seq<char>, Seq<ErrorView>),
)
    requires
        0 <= i < buckets.len(),
    ensures
        total_findings(buckets.update(i, bucket)) == total_findings(buckets) - buckets[i].1.len()
            + bucket.1.len(),
    decreases buckets.len(),
{
    let after = buckets.update(i, bucket);
    if i == buckets.len() - 1 {
        assert(after.drop_last() =~= buckets.drop_last());
    } else {
        assert(after.drop_last() =~= buckets.drop_last().update(i, bucket));
        lemma_total_after_update(buckets.drop_last(), i, bucket);
    }
}

/// Filing a finding adds exactly one finding to the report, and no two
/// findings are merged: the bucket of its file grows by one, at its end, and
/// all other buckets stay as they are.
pub proof fn lemma_filed_adds_one(buckets: Seq<(Seq<char>, Seq<ErrorView>)>, f: Finding)
    ensures
        total_findings(filed(buckets, f)) == total_findings(buckets) + 1,
        ({
            let i = bucket_index(buckets, f.file);
            let after = filed(buckets, f);
            &&& 0 <= i <= buckets.len()
            &&& after[i].0 == f.file
            &&& after[i].1 == (if i < buckets.len() {
                buckets[i].1
            } else {
                Seq::empty()
            }).push(f.error)
            &&& forall|k: int| 0 <= k < buckets.len() && k != i ==> after[k] == buckets[k]
        }),
{
    lemma_bucket_index_bounds(buckets, f.file);
    let i = bucket_index(buckets, f.file);
    if i < buckets.len() {
        lemma_total_after_update(buckets, i, (f.file, buckets[i].1.push(f.error)));
    } else {
        assert(filed(buckets, f).drop_last() =~= buckets);
        assert(Seq::<ErrorView>::empty().push(f.error) =~= seq![f.error]);
    }
}

/// Every finding belongs to one bucket: where no two buckets are of the same
/// file, filing a finding keeps it so.
pub proof fn lemma_filed_keeps_files_distinct(
    buckets: Seq<(Seq<char>, Seq<ErrorView>)>,
    f: Finding,
)
    requires
        distinct_files(buckets),
    ensures
        distinct_files(filed(buckets, f)),
{
    lemma_bucket_index_bounds(buckets, f.file);
}

/// In the report of a run of lines no two buckets are of the same file: each
/// file has one bucket, and each finding stands in the bucket of its file.
pub proof fn lemma_report_files_are_distinct(lines: Seq<String>, opts: Options)
    ensures
        distinct_files(report_of(lines, opts)),
    decreases lines.len(),
{
    if lines.len() > 0 {
        lemma_report_files_are_distinct(lines.drop_last(), opts);
        match line_finding(lines.last()@, opts) {
            Some(f) => lemma_filed_keeps_files_distinct(report_of(lines.drop_last(), opts), f),
            None => {},
        }
    }
}

/// `bucket_index` is within bounds, no bucket before it is of the file, and
/// the bucket at it is, where there is one.
pub proof fn lemma_bucket_index_bounds(buckets: Seq<(Seq<char>, Seq<ErrorView>)>, file: Seq<char>)
    ensures
        0 <= bucket_index(buckets, file) <= buckets.len(),
        forall|i: int| 0 <= i < bucket_index(buckets, file) ==> (#[trigger] buckets[i]).0 != file,
        bucket_index(buckets, file) < buckets.len() ==> buckets[bucket_index(buckets, file)].0
            == file,
    decreases buckets.len(),
{
    if buckets.len() == 0 || buckets[0].0 == file {
    } else {
        let rest = buckets.drop_first();
        lemma_bucket_index_bounds(rest, file);
        assert forall|i: int| 0 <= i < bucket_index(buckets, file) implies (
        #[trigger] buckets[i]).0 != file by {
            if i > 0 {
                assert(buckets[i] == rest[i - 1]);
            }
        }
    }
}

/// `first_bad_line` is the one place before which no line is in error and at
/// which the lines end or a line is in error.
pub proof fn lemma_first_bad_line(lines: Seq<String>, k: int)
    requires
        0 <= k <= lines.len(),
        forall|i: int| 0 <= i < k ==> line_error(#[trigger] lines[i]@) is None,
        k < lines.len() ==> line_error(lines[k]@) is Some,
    ensures
        first_bad_line(lines) == k,
    decreases lines.len(),
{
    if lines.len() == 0 || line_error(lines[0]@) is Some {
        if k > 0 {
            assert(line_error(lines[0]@) is None);
        }
    } else {
        let rest = lines.drop_first();
        assert forall|i: int| 0 <= i < k - 1 implies line_error(#[trigger] rest[i]@) is None by {
            assert(rest[i] == lines[i + 1]);
        }
        lemma_first_bad_line(rest, k - 1);
    }
}

/// A run of lines has a first line in error exactly when it has a line in
/// error: one line that opens like a record and is none makes the whole run
/// fail, and nothing else does.
pub proof fn lemma_run_fails_on_any_bad_line(lines: Seq<String>)
    ensures
        first_bad_line(lines) < lines.len() <==> exists|i: int|
            0 <= i < lines.len() && line_error(#[trigger] lines[i]@) is Some,
        0 <= first_bad_line(lines) <= lines.len(),
        first_bad_line(lines) < lines.len() ==> line_error(lines[first_bad_line(lines)]@) is Some,
        forall|i: int|
            0 <= i < first_bad_line(lines) ==> line_error(#[trigger] lines[i]@) is None,
    decreases lines.len(),
{
    if lines.len() == 0 || line_error(lines[0]@) is Some {
    } else {
        let rest = lines.drop_first();
        lemma_run_fails_on_any_bad_line(rest);
        assert forall|i: int| 0 <= i < first_bad_line(lines) implies line_error(
            #[trigger] lines[i]@,
        ) is None by {
            if i > 0 {
                assert(lines[i] == rest[i - 1]);
            }
        }
        if first_bad_line(lines) < lines.len() {
            assert(lines[first_bad_line(lines)] == rest[first_bad_line(rest)]);
        }
    }
}

/// Copies a line without the line feeds at its end.
fn strip_line_feeds(line: &str) -> (s: String)
    ensures
        s@ == stripped(line@),
{
    let v = chars_of(line);
    let mut end: usize = v.len();
    assert(v@.take(end as int) =~= v@);
    while end > 0 && v[end - 1] == '\n'
        invariant
            end <= v@.len(),
            stripped(v@) == stripped(v@.take(end as int)),
        decreases end,
    {
        assert(v@.take(end as int).drop_last() =~= v@.take(end - 1));
        end -= 1;
    }
    assert(v@.subrange(0, end as int) =~= v@.take(end as int));
    line.substring_char(0, end).to_owned()
}

/// `bucket_index` is the one place at or before which the file first shows.
pub proof fn lemma_bucket_index(buckets: Seq<(Seq<char>, Seq<ErrorView>)>, file: Seq<char>, k: int)
    requires
        0 <= k <= buckets.len(),
        forall|i: int| 0 <= i < k ==> (#[trigger] buckets[i]).0 != file,
        k < buckets.len() ==> buckets[k].0 == file,
    ensures
        bucket_index(buckets, file) == k,
    decreases buckets.len(),
{
    if buckets.len() == 0 || buckets[0].0 == file {
        if k > 0 {
            assert(buckets[0].0 != file);
        }
    } else {
        let rest = buckets.drop_first();
        assert forall|i: int| 0 <= i < k - 1 implies (#[trigger] rest[i]).0 != file by {
            assert(rest[i] == buckets[i + 1]);
        }
        lemma_bucket_index(rest, file, k - 1);
    }
}

impl CheckstyleDoc {
    /// Whether each file has one bucket only. A report that is built from
    /// nothing by the functions of this type is well formed.
    pub open spec fn wf(&self) -> bool {
        distinct_files(self@)
    }

    /// Files a finding: at the end of the bucket of its file, or in a new
    /// last bucket where the file has none yet.
    pub fn file_error(&mut self, file: String, error: CheckstyleError)
        ensures
            final(self)@ == filed(old(self)@, (Finding { file: file@, error: error@ })),
            old(self).wf() ==> final(self).wf(),
    {
        let ghost before = self@;
        let ghost finding = Finding { file: file@, error: error@ };
        let mut i: usize = 0;
        while i < self.files.len() && !str_eq(self.files[i].0.as_str(), file.as_str())
            invariant
                i <= self.files@.len(),
                self@ == before,
                forall|k: int| 0 <= k < i ==> (#[trigger] before[k]).0 != file@,
            decreases self.files@.len() - i,
        {
            i += 1;
        }
        proof {
            lemma_bucket_index(before, file@, i as int);
            if distinct_files(before) {
                lemma_filed_keeps_files_distinct(before, finding);
            }
        }
        if i < self.files.len() {
            self.files[i].1.errors.push(error);
            proof {
                assert(self.files@.len() == old(self).files@.len());
                assert(self.files@[i as int].0 == old(self).files@[i as int].0);
                assert(self.files@[i as int].1.errors@ == old(self).files@[i as int].1.errors@.push(
                    error,
                ));
                assert forall|k: int| 0 <= k < self.files@.len() && k != i implies self.files@[k]
                    == old(self).files@[k] by {}
                assert(self@[i as int].1 =~= before[i as int].1.push(error@));
                assert(self@ =~= filed(before, finding));
            }
        } else {
            let mut errors: Vec<CheckstyleError> = Vec::new();
            errors.push(error);
            self.files.push((file, CheckstyleFile { errors }));
            proof {
                assert(self@[i as int].1 =~= seq![error@]);
                assert(self@ =~= filed(before, finding));
            }
        }
    }

    /// Takes in one record. A record that carries no diagnostic changes
    /// nothing, and neither does an end-of-run summary that names no place;
    /// every other diagnostic adds exactly one finding, after those that its
    /// file already has.
    pub fn append_message(&mut self, msg: &Message, opts: &Options)
        ensures
            final(self)@ == absorbed(old(self)@, finding_of(*msg, *opts)),
            old(self).wf() ==> final(self).wf(),
    {
        let d = match msg {
            Message::FromCompiler(record) => &record.message,
            _ => {
                return ;
            },
        };
        let (file, column, line) = if d.spans.len() > 0 {
            let span = &d.spans[0];
            (
                span.file_name.clone(),
                #[verifier::truncate]
                (span.column_start as u32),
                #[verifier::truncate]
                (span.line_start as u32),
            )
        } else if is_summary_line(d.message.as_str()) {
            return ;
        } else {
            ("<unknown>".to_owned(), 1u32, 1u32)
        };
        let severity = Severity::of(&d.level);
        let mut message = d.message.clone();
        if opts.include_rendered {
            if let Some(rendered) = &d.rendered {
                message.append("\n\n```\n");
                message.append(rendered.as_str());
                message.append("\n```\n");
            }
        }
        let source = match &d.code {
            Some(code) => Some(code.code.clone()),
            None => None,
        };
        let error = CheckstyleError {
            column,
            line,
            message,
            severity: severity.name().to_owned(),
            source,
        };
        self.file_error(file, error);
    }

    /// Takes in one line of the stream.
    ///
    /// A line that does not open with `{` is no record: it leaves the report
    /// as it is, and comes back without the line feeds at its end where
    /// `opts` asks for such lines to be forwarded. A line that opens with `{`
    /// must be a record: its finding, if it has one, is filed, and where it
    /// is none the error says why and the report stays as it was.
    pub fn take_line(&mut self, line: &str, opts: &Options) -> (r: Result<
        Option<String>,
        DecodeError,
    >)
        ensures
            match r {
                Ok(side) => {
                    &&& line_error(line@) is None
                    &&& final(self)@ == absorbed(old(self)@, line_finding(line@, *opts))
                    &&& side.deep_view() == line_forward(line@, *opts)
                },
                Err(e) => line_error(line@) == Some(e) && final(self)@ == old(self)@,
            },
            old(self).wf() ==> final(self).wf(),
    {
        if line.is_empty() || line.get_char(0) != '{' {
            if opts.redirect_to_stderr {
                return Ok(Some(strip_line_feeds(line)));
            }
            return Ok(None);
        }
        let msg = Message::parse(line)?;
        proof {
            let tree = json_text(line@)->0;
            lemma_decodings_agree(msg, Message::decoding(tree), tree, *opts);
        }
        self.append_message(&msg, opts);
        Ok(None)
    }

    /// Builds the report of a whole stream, given line by line.
    ///
    /// The run fails at the first line that opens with `{` and is no record,
    /// and then gives no report. Else the result is the report of all lines,
    /// and the texts that the lines which are no records send to the side
    /// channel.
    pub fn from_reader(lines: &Vec<String>, opts: &Options) -> (r: Result<
        (Self, Vec<String>),
        ReadError,
    >)
        ensures
            match r {
                Ok((doc, side)) => {
                    &&& first_bad_line(lines@) == lines@.len()
                    &&& doc@ == report_of(lines@, *opts)
                    &&& doc.wf()
                    &&& side.deep_view() == forwarded(lines@, *opts)
                },
                Err(e) => {
                    &&& e.line == first_bad_line(lines@)
                    &&& e.line < lines@.len()
                    &&& line_error(lines@[e.line as int]@) == Some(e.cause)
                    &&& e.forwarded.deep_view() == forwarded(lines@.take(e.line as int), *opts)
                },
            },
    {
        let mut doc = Self::new();
        let mut side: Vec<String> = Vec::new();
        let mut i: usize = 0;
        assert(lines@.take(0) =~= Seq::empty());
        assert(side.deep_view() =~= Seq::empty());
        while i < lines.len()
            invariant
                i <= lines@.len(),
                forall|k: int| 0 <= k < i ==> line_error(#[trigger] lines@[k]@) is None,
                doc@ == report_of(lines@.take(i as int), *opts),
                side.deep_view() == forwarded(lines@.take(i as int), *opts),
            decreases lines@.len() - i,
        {
            let ghost before = side.deep_view();
            assert(lines@.take(i + 1).drop_last() =~= lines@.take(i as int));
            match doc.take_line(lines[i].as_str(), opts) {
                Ok(Some(text)) => {
                    side.push(text);
                    assert(side.deep_view() =~= before.push(text@));
                },
                Ok(None) => {},
                Err(cause) => {
                    proof {
                        lemma_first_bad_line(lines@, i as int);
                    }
                    return Err(ReadError { line: i, cause, forwarded: side });
                },
            }
            i += 1;
        }
        proof {
            assert(lines@.take(i as int) =~= lines@);
            lemma_first_bad_line(lines@, i as int);
            lemma_report_files_are_distinct(lines@, *opts);
        }
        Ok((doc, side))
    }

    /// Writes the report to the sink: one `checkstyle` element, with the
    /// files in the order in which they were first seen.
    pub fn write_xml(&self, xml: &mut Vec<ReportEvent>)
        ensures
            final(xml).deep_view() == old(xml).deep_view() + doc_events(self@),
    {
        let ghost before = xml.deep_view();
        let attributes: Vec<(String, String)> = Vec::new();
        assert(attributes.deep_view() =~= Seq::empty());
        xml.push(ReportEvent::Start { name: "checkstyle".to_owned(), attributes });
        let ghost opened = xml.deep_view();
        assert(opened =~= before + seq![
            EventView::Start { name: "checkstyle"@, attributes: Seq::empty() },
        ]);
        let mut i: usize = 0;
        assert(self@.take(0) =~= Seq::empty());
        while i < self.files.len()
            invariant
                i <= self.files@.len(),
                xml.deep_view() == opened + files_events(self@.take(i as int)),
            decreases self.files@.len() - i,
        {
            self.files[i].1.write_xml(xml, self.files[i].0.as_str());
            proof {
                assert(self@.take(i + 1).drop_last() =~= self@.take(i as int));
                assert(self@.take(i + 1).last() == (self.files@[i as int].0@, self.files@[i as int].1@));
                assert(xml.deep_view() =~= opened + files_events(self@.take(i + 1)));
            }
            i += 1;
        }
        assert(self@.take(i as int) =~= self@);
        let ghost filled = xml.deep_view();
        xml.push(ReportEvent::End);
        assert(xml.deep_view() =~= filled.push(EventView::End));
        assert(xml.deep_view() =~= before + doc_events(self@));
    }

    /// A report without findings.
    pub fn new() -> (doc: Self)
        ensures
            doc@ == Seq::<(Seq<char>, Seq<ErrorView>)>::empty(),
            doc.wf(),
    {
        let doc = CheckstyleDoc { files: Vec::new() };
        assert(doc@ =~= Seq::empty());
        doc
    }
}

} // verus!
