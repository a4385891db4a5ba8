use clippy_reviewdog_filter::checkstyle::{
    CheckstyleDoc, CheckstyleError, CheckstyleFile, Options, ReportEvent, Severity,
};
use clippy_reviewdog_filter::message::compiler_message::{
    CompilerMessage, DiagnosticCode, DiagnosticSpan, ErrorLevel,
};
use clippy_reviewdog_filter::message::fields::DecodeError;
use clippy_reviewdog_filter::message::{FromCompiler, Message, PackageId, Target};
use clippy_reviewdog_filter::message::target::Edition;

const UNUSED: &str = "{\"reason\":\"compiler-message\",\"package_id\":\"sample 0.1.0 (path+file:///tmp/sample)\",\"target\":{\"kind\":[\"bin\"],\"crate_types\":[\"bin\"],\"name\":\"sample\",\"src_path\":\"/tmp/sample/src/main.rs\",\"edition\":\"2018\"},\"message\":{\"message\":\"unused variable: `x`\",\"code\":{\"code\":\"unused_variables\",\"explanation\":null},\"level\":\"warning\",\"spans\":[{\"file_name\":\"src/main.rs\",\"byte_start\":36,\"byte_end\":37,\"line_start\":3,\"line_end\":3,\"column_start\":9,\"column_end\":10,\"is_primary\":true,\"text\":[{\"text\":\"    let x = 1u32 as f64;\",\"highlight_start\":9,\"highlight_end\":10}],\"label\":null,\"suggested_replacement\":null,\"suggestion_applicability\":null,\"expansion\":null}],\"children\":[{\"message\":\"#[warn(unused_variables)] on by default\",\"code\":null,\"level\":\"note\",\"spans\":[],\"children\":[],\"rendered\":null},{\"message\":\"consider prefixing with an underscore\",\"code\":null,\"level\":\"help\",\"spans\":[{\"file_name\":\"src/main.rs\",\"byte_start\":36,\"byte_end\":37,\"line_start\":3,\"line_end\":3,\"column_start\":9,\"column_end\":10,\"is_primary\":true,\"text\":[{\"text\":\"    let x = 1u32 as f64;\",\"highlight_start\":9,\"highlight_end\":10}],\"label\":null,\"suggested_replacement\":\"_x\",\"suggestion_applicability\":\"MachineApplicable\",\"expansion\":null}],\"children\":[],\"rendered\":null}],\"rendered\":\"warning: unused variable: `x`\\n --> src/main.rs:3:9\\n\"}}";

const LOSSY: &str = "{\"reason\":\"compiler-message\",\"package_id\":\"sample 0.1.0 (path+file:///tmp/sample)\",\"target\":{\"kind\":[\"bin\"],\"crate_types\":[\"bin\"],\"name\":\"sample\",\"src_path\":\"/tmp/sample/src/main.rs\",\"edition\":\"2018\"},\"message\":{\"message\":\"casting u32 to f64 may become silently lossy if types change\",\"code\":{\"code\":\"cast_lossless\",\"explanation\":null},\"level\":\"warning\",\"spans\":[{\"file_name\":\"src/main.rs\",\"byte_start\":40,\"byte_end\":51,\"line_start\":3,\"line_end\":3,\"column_start\":13,\"column_end\":24,\"is_primary\":true,\"text\":[{\"text\":\"    let x = 1u32 as f64;\",\"highlight_start\":13,\"highlight_end\":24}],\"label\":null,\"suggested_replacement\":null,\"suggestion_applicability\":null,\"expansion\":null}],\"children\":[],\"rendered\":\"warning: casting u32 to f64\\n\"}}";

const ARTIFACT: &str = "{\"reason\":\"compiler-artifact\",\"package_id\":\"sample 0.1.0 (path+file:///tmp/sample)\",\"target\":{\"kind\":[\"bin\"],\"crate_types\":[\"bin\"],\"name\":\"sample\",\"src_path\":\"/tmp/sample/src/main.rs\",\"edition\":\"2018\"},\"profile\":{\"opt_level\":\"0\",\"debuginfo\":2,\"debug_assertions\":true,\"overflow_checks\":true,\"test\":false},\"features\":[],\"filenames\":[\"/tmp/sample/target/debug/sample\"],\"fresh\":false}";

const BUILD_SCRIPT: &str = "{\"reason\":\"build-script-executed\",\"package_id\":\"dep 1.2.3-beta.1+x86 (registry+https://github.com/rust-lang/crates.io-index)\",\"linked_libs\":[\"z\"],\"linked_paths\":[],\"cfgs\":[\"has_i128\"],\"env\":[[\"OUT\",\"/tmp/out\"]]}";

fn options(include_rendered: bool, redirect_to_stderr: bool) -> Options {
    Options { include_rendered, redirect_to_stderr }
}

fn lines(texts: &[&str]) -> Vec<String> {
    texts.iter().map(|t| t.to_string()).collect()
}

fn file<'a>(doc: &'a CheckstyleDoc, name: &str) -> &'a CheckstyleFile {
    &doc.files.iter().find(|(n, _)| n == name).expect("no such file").1
}

fn span(file_name: &str, line: usize, column: usize) -> DiagnosticSpan {
    DiagnosticSpan {
        file_name: file_name.to_string(),
        byte_start: 0,
        byte_end: 1,
        line_start: line,
        line_end: line,
        column_start: column,
        column_end: column + 1,
        is_primary: true,
        text: Vec::new(),
        label: None,
        suggested_replacement: None,
        suggestion_applicability: None,
        expansion: None,
    }
}

fn diagnostic(message: &str, level: ErrorLevel, spans: Vec<DiagnosticSpan>) -> Message {
    Message::FromCompiler(FromCompiler {
        package_id: PackageId::parse("sample 0.1.0 (path+file:///tmp/sample)").unwrap(),
        target: Target {
            kind: vec!["bin".to_string()],
            name: "sample".to_string(),
            src_path: "src/main.rs".to_string(),
            crate_types: vec!["bin".to_string()],
            edition: Edition::Edition2018,
            required_features: None,
        },
        message: CompilerMessage {
            message: message.to_string(),
            code: None,
            level,
            spans,
            children: Vec::new(),
            rendered: Some("RENDERED".to_string()),
        },
    })
}

#[test]
fn test_from_reader() {
    let options = options(false, true);
    let input = lines(&[
        "   Compiling sample v0.1.0 (/tmp/sample)",
        UNUSED,
        ARTIFACT,
        "",
        LOSSY,
        BUILD_SCRIPT,
        "{\"reason\":\"build-finished\",\"success\":true}",
        "    Finished dev [unoptimized + debuginfo] target(s) in 0.13s",
    ]);
    let (checkstyle, _) = CheckstyleDoc::from_reader(&input, &options).unwrap();
    assert_eq!(checkstyle.files.len(), 1);
    let file = file(&checkstyle, "src/main.rs");
    assert_eq!(file.errors.len(), 2);

    let error0 = &file.errors[0];
    assert_eq!(error0.column, 9);
    assert_eq!(error0.line, 3);
    assert_eq!(error0.message, "unused variable: `x`");
    assert_eq!(error0.severity, "warning");
    assert_eq!(error0.source, Some("unused_variables".to_owned()));

    let error1 = &file.errors[1];
    assert_eq!(error1.column, 13);
    assert_eq!(error1.line, 3);
    assert_eq!(
        error1.message,
        "casting u32 to f64 may become silently lossy if types change"
    );
    assert_eq!(error1.severity, "warning");
    assert_eq!(error1.source, Some("cast_lossless".to_owned()));
}

#[test]
fn from_reader_forwards_plain_lines_in_order() {
    let input = lines(&["first\n\n", UNUSED, "", "second"]);
    let (_, side) = CheckstyleDoc::from_reader(&input, &options(false, true)).unwrap();
    assert_eq!(side, vec!["first".to_string(), "".to_string(), "second".to_string()]);
}

#[test]
fn from_reader_drops_plain_lines_when_not_forwarding() {
    let input = lines(&["first", UNUSED, "second"]);
    let (doc, side) = CheckstyleDoc::from_reader(&input, &options(false, false)).unwrap();
    assert!(side.is_empty());
    assert_eq!(doc.files.len(), 1);
}

#[test]
fn default_report_and_file_are_empty() {
    assert!(CheckstyleDoc::default().files.is_empty());
    assert!(CheckstyleFile::default().errors.is_empty());
}

#[test]
fn from_reader_of_nothing_is_an_empty_report() {
    let (doc, side) = CheckstyleDoc::from_reader(&Vec::new(), &options(true, true)).unwrap();
    assert!(doc.files.is_empty());
    assert!(side.is_empty());
}

#[test]
fn from_reader_fails_on_a_package_id_without_parentheses() {
    let bad = UNUSED.replace("(path+file:///tmp/sample)", "path+file:///tmp/sample");
    let input = lines(&["note", UNUSED, &bad, LOSSY]);
    let err = CheckstyleDoc::from_reader(&input, &options(false, true)).unwrap_err();
    assert_eq!(err.line, 2);
    assert_eq!(err.cause, DecodeError::Schema);
    assert_eq!(err.forwarded, vec!["note".to_string()]);
}

#[test]
fn from_reader_fails_on_a_bad_version() {
    let bad = ARTIFACT.replace("sample 0.1.0 ", "sample 0.1 ");
    let err = CheckstyleDoc::from_reader(&lines(&[&bad]), &options(false, true)).unwrap_err();
    assert_eq!(err.line, 0);
    assert_eq!(err.cause, DecodeError::Schema);
}

#[test]
fn from_reader_fails_on_a_broken_envelope() {
    let input = lines(&[UNUSED, "{\"reason\":\"compiler-message\""]);
    let err = CheckstyleDoc::from_reader(&input, &options(false, true)).unwrap_err();
    assert_eq!(err.line, 1);
    assert_eq!(err.cause, DecodeError::Syntax);
}

#[test]
fn take_line_leaves_the_report_alone_on_error() {
    let mut doc = CheckstyleDoc::new();
    doc.take_line(UNUSED, &options(false, true)).unwrap();
    assert_eq!(doc.take_line("{}", &options(false, true)), Err(DecodeError::Schema));
    assert_eq!(doc.take_line("{]", &options(false, true)), Err(DecodeError::Syntax));
    assert_eq!(doc.files.len(), 1);
    assert_eq!(doc.files[0].1.errors.len(), 1);
}

#[test]
fn take_line_strips_line_feeds_only_at_the_end() {
    let mut doc = CheckstyleDoc::new();
    let side = doc.take_line("a\nb\n\n", &options(false, true)).unwrap();
    assert_eq!(side, Some("a\nb".to_string()));
    assert_eq!(doc.take_line("a\n", &options(false, false)).unwrap(), None);
    assert_eq!(doc.take_line(" {", &options(false, true)).unwrap(), Some(" {".to_string()));
    assert!(doc.files.is_empty());
}

#[test]
fn unknown_reason_is_ignored() {
    let mut doc = CheckstyleDoc::new();
    let side = doc.take_line("{\"reason\":\"something-new\",\"x\":[1,2]}", &options(true, true));
    assert_eq!(side, Ok(None));
    assert!(doc.files.is_empty());
}

#[test]
fn finding_stands_at_the_first_span() {
    let mut doc = CheckstyleDoc::new();
    let msg = diagnostic(
        "two places",
        ErrorLevel::Error,
        vec![span("src/a.rs", 7, 2), span("src/b.rs", 1, 1)],
    );
    doc.append_message(&msg, &options(false, false));
    assert_eq!(doc.files.len(), 1);
    assert_eq!(doc.files[0].0, "src/a.rs");
    let error = &doc.files[0].1.errors[0];
    assert_eq!((error.line, error.column), (7, 2));
    assert_eq!(error.severity, "error");
    assert_eq!(error.source, None);
}

#[test]
fn summaries_without_spans_give_no_finding() {
    for text in [
        "aborting due to 1 previous error",
        "aborting due to 12 previous errors; 1 warning emitted",
        "34 warnings emitted",
    ] {
        let mut doc = CheckstyleDoc::new();
        doc.append_message(&diagnostic(text, ErrorLevel::Error, Vec::new()), &options(false, true));
        assert!(doc.files.is_empty(), "{}", text);
    }
}

#[test]
fn summary_with_a_span_is_kept() {
    let mut doc = CheckstyleDoc::new();
    let msg = diagnostic("34 warnings emitted", ErrorLevel::Warning, vec![span("x.rs", 1, 1)]);
    doc.append_message(&msg, &options(false, true));
    assert_eq!(doc.files.len(), 1);
}

#[test]
fn diagnostic_without_spans_goes_to_unknown() {
    let mut doc = CheckstyleDoc::new();
    let msg = diagnostic("linking with `cc` failed", ErrorLevel::Error, Vec::new());
    doc.append_message(&msg, &options(false, true));
    assert_eq!(doc.files.len(), 1);
    assert_eq!(doc.files[0].0, "<unknown>");
    let error = &doc.files[0].1.errors[0];
    assert_eq!((error.line, error.column), (1, 1));
    assert_eq!(error.message, "linking with `cc` failed");
}

#[test]
fn records_without_diagnostics_are_ignored() {
    let mut doc = CheckstyleDoc::new();
    doc.append_message(&Message::Other, &options(true, true));
    doc.take_line(ARTIFACT, &options(true, true)).unwrap();
    doc.take_line(BUILD_SCRIPT, &options(true, true)).unwrap();
    assert!(doc.files.is_empty());
}

#[test]
fn rendered_text_is_appended_on_request() {
    let mut doc = CheckstyleDoc::new();
    let msg = diagnostic("short", ErrorLevel::Note, vec![span("x.rs", 1, 1)]);
    doc.append_message(&msg, &options(true, false));
    doc.append_message(&msg, &options(false, false));
    let errors = &doc.files[0].1.errors;
    assert_eq!(errors[0].message, "short\n\n```\nRENDERED\n```\n");
    assert_eq!(errors[1].message, "short");
    assert_eq!(errors[0].severity, "info");
}

#[test]
fn rendered_text_is_not_missed_when_absent() {
    let mut doc = CheckstyleDoc::new();
    let mut msg = diagnostic("short", ErrorLevel::Help, vec![span("x.rs", 1, 1)]);
    if let Message::FromCompiler(record) = &mut msg {
        record.message.rendered = None;
        record.message.code =
            Some(DiagnosticCode { code: "E0001".to_string(), explanation: None });
    }
    doc.append_message(&msg, &options(true, false));
    let error = &doc.files[0].1.errors[0];
    assert_eq!(error.message, "short");
    assert_eq!(error.source, Some("E0001".to_string()));
}

#[test]
fn files_keep_the_order_of_first_appearance() {
    let mut doc = CheckstyleDoc::new();
    let o = options(false, false);
    doc.append_message(&diagnostic("1", ErrorLevel::Error, vec![span("b.rs", 1, 1)]), &o);
    doc.append_message(&diagnostic("2", ErrorLevel::Error, vec![span("a.rs", 2, 1)]), &o);
    doc.append_message(&diagnostic("3", ErrorLevel::Error, vec![span("b.rs", 3, 1)]), &o);
    let names: Vec<&str> = doc.files.iter().map(|(n, _)| n.as_str()).collect();
    assert_eq!(names, vec!["b.rs", "a.rs"]);
    let b: Vec<&str> = doc.files[0].1.errors.iter().map(|e| e.message.as_str()).collect();
    assert_eq!(b, vec!["1", "3"]);
    assert_eq!(doc.files[1].1.errors.len(), 1);
}

#[test]
fn severity_of_every_level() {
    assert_eq!(Severity::of(&ErrorLevel::InternalCompilerError), Severity::Error);
    assert_eq!(Severity::of(&ErrorLevel::Error), Severity::Error);
    assert_eq!(Severity::of(&ErrorLevel::Warning), Severity::Warning);
    assert_eq!(Severity::of(&ErrorLevel::Note), Severity::Info);
    assert_eq!(Severity::of(&ErrorLevel::Help), Severity::Info);
    assert_eq!(Severity::of(&ErrorLevel::Other("fatal".to_string())), Severity::Error);
    assert_eq!(Severity::Error.name(), "error");
    assert_eq!(Severity::Warning.name(), "warning");
    assert_eq!(Severity::Info.name(), "info");
}

#[test]
fn line_numbers_beyond_32_bits_wrap() {
    let mut doc = CheckstyleDoc::new();
    let msg = diagnostic("far", ErrorLevel::Error, vec![span("x.rs", (1usize << 32) + 5, 3)]);
    doc.append_message(&msg, &options(false, false));
    assert_eq!(doc.files[0].1.errors[0].line, 5);
}

fn attr(name: &str, value: &str) -> (String, String) {
    (name.to_string(), value.to_string())
}

fn events_of(events: &[ReportEvent]) -> Vec<(String, Vec<(String, String)>)> {
    events
        .iter()
        .map(|e| match e {
            ReportEvent::Start { name, attributes } => (name.clone(), attributes.clone()),
            ReportEvent::End => ("/".to_string(), Vec::new()),
        })
        .collect()
}

#[test]
fn write_xml_of_a_finding() {
    let error = CheckstyleError {
        column: 10,
        line: 4294967295,
        message: "m".to_string(),
        severity: "warning".to_string(),
        source: Some("lint".to_string()),
    };
    let mut sink = Vec::new();
    error.write_xml(&mut sink);
    assert_eq!(
        events_of(&sink),
        vec![
            (
                "error".to_string(),
                vec![
                    attr("column", "10"),
                    attr("line", "4294967295"),
                    attr("message", "m"),
                    attr("severity", "warning"),
                    attr("source", "lint"),
                ]
            ),
            ("/".to_string(), Vec::new()),
        ]
    );
}

#[test]
fn write_xml_of_a_report() {
    let mut doc = CheckstyleDoc::new();
    let o = options(false, false);
    doc.append_message(&diagnostic("1", ErrorLevel::Error, vec![span("b.rs", 1, 0)]), &o);
    doc.append_message(&diagnostic("2", ErrorLevel::Warning, vec![span("a.rs", 20, 105)]), &o);
    let mut sink = vec![ReportEvent::End];
    doc.write_xml(&mut sink);
    let names: Vec<String> = events_of(&sink).into_iter().map(|(n, _)| n).collect();
    assert_eq!(
        names,
        vec!["/", "checkstyle", "file", "error", "/", "/", "file", "error", "/", "/", "/"]
    );
    let all = events_of(&sink);
    assert_eq!(all[1].1, Vec::new());
    assert_eq!(all[2].1, vec![attr("name", "b.rs")]);
    assert_eq!(
        all[3].1,
        vec![
            attr("column", "0"),
            attr("line", "1"),
            attr("message", "1"),
            attr("severity", "error"),
        ]
    );
    assert_eq!(all[6].1, vec![attr("name", "a.rs")]);
    assert_eq!(all[7].1[0], attr("column", "105"));
    assert_eq!(all[7].1[1], attr("line", "20"));
}

#[test]
fn write_xml_of_an_empty_report_and_file() {
    let mut sink = Vec::new();
    CheckstyleDoc::new().write_xml(&mut sink);
    assert_eq!(events_of(&sink).len(), 2);
    let mut sink = Vec::new();
    CheckstyleFile { errors: Vec::new() }.write_xml(&mut sink, "x");
    assert_eq!(
        events_of(&sink),
        vec![("file".to_string(), vec![attr("name", "x")]), ("/".to_string(), Vec::new())]
    );
}
