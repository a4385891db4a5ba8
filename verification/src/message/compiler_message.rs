//! A compiler diagnostic and the source spans it points at.

use vstd::prelude::*;

use crate::json::{lemma_view_of_array, views_of, Json, JsonView};
use crate::message::fields::{
    as_bool, as_opt_text, as_text, as_u32, as_usize, bool_at, opt_text_at, text_at, u32_at,
    usize_at, DecodeError,
};
use crate::text::str_eq;

verus! {

/// One diagnostic of the compiler, with the diagnostics nested under it.
#[derive(Debug)]
pub struct CompilerMessage {
    pub message: String,
    pub code: Option<DiagnosticCode>,
    pub level: ErrorLevel,
    pub spans: Vec<DiagnosticSpan>,
    pub children: Vec<CompilerMessage>,
    pub rendered: Option<String>,
}

/// A range of source text that a diagnostic points at. Lines and columns
/// count from 1.
#[derive(Debug)]
pub struct DiagnosticSpan {
    pub file_name: String,
    pub byte_start: u32,
    pub byte_end: u32,
    pub line_start: usize,
    pub line_end: usize,
    pub column_start: usize,
    pub column_end: usize,
    pub is_primary: bool,
    pub text: Vec<DiagnosticSpanLine>,
    pub label: Option<String>,
    pub suggested_replacement: Option<String>,
    pub suggestion_applicability: Option<Applicability>,
    pub expansion: Option<Box<DiagnosticSpanMacroExpansion>>,
}

/// How safely a suggested replacement can be applied.
#[derive(Debug, Clone)]
pub enum Applicability {
    MachineApplicable,
    HasPlaceholders,
    MaybeIncorrect,
    Unspecified,
    /// A level that this library has no name for, kept as it was written.
    Other(String),
}

/// One line of source text under a span, with the highlighted columns.
#[derive(Debug, Clone)]
pub struct DiagnosticSpanLine {
    pub text: String,
    pub highlight_start: usize,
    pub highlight_end: usize,
}

/// The macro invocation that produced a span.
#[derive(Debug)]
pub struct DiagnosticSpanMacroExpansion {
    pub span: DiagnosticSpan,
    pub macro_decl_name: String,
    pub def_site_span: Option<DiagnosticSpan>,
}

/// The machine-readable code of a diagnostic.
#[derive(Debug, Clone)]
pub struct DiagnosticCode {
    pub code: String,
    pub explanation: Option<String>,
}

/// The severity that the compiler gave a diagnostic.
#[derive(Debug, Clone)]
pub enum ErrorLevel {
    InternalCompilerError,
    Error,
    Warning,
    Note,
    Help,
    /// A severity that this library has no name for, kept as it was written.
    Other(String),
}

impl Applicability {
    /// The name under which this level is written.
    pub open spec fn label(self) -> Seq<char> {
        match self {
            Applicability::MachineApplicable => "MachineApplicable"@,
            Applicability::HasPlaceholders => "HasPlaceholders"@,
            Applicability::MaybeIncorrect => "MaybeIncorrect"@,
            Applicability::Unspecified => "Unspecified"@,
            Applicability::Other(name) => name@,
        }
    }

    /// Whether `name` is one of the four names with a variant of their own.
    pub open spec fn is_known(name: Seq<char>) -> bool {
        ||| name == "MachineApplicable"@
        ||| name == "HasPlaceholders"@
        ||| name == "MaybeIncorrect"@
        ||| name == "Unspecified"@
    }

    /// Whether this level is the one that `name` is read as: its own variant
    /// for a known name, `Other` with the name unchanged for any other.
    pub open spec fn named(self, name: Seq<char>) -> bool {
        if name == "MachineApplicable"@ {
            self is MachineApplicable
        } else if name == "HasPlaceholders"@ {
            self is HasPlaceholders
        } else if name == "MaybeIncorrect"@ {
            self is MaybeIncorrect
        } else if name == "Unspecified"@ {
            self is Unspecified
        } else {
            self matches Applicability::Other(kept) && kept@ == name
        }
    }

    /// Whether this level is what the document `j` decodes to.
    pub open spec fn decoded_from(self, j: JsonView) -> bool {
        j matches JsonView::Text(name) && self.named(name)
    }

    /// Reads a level from its name. No name is refused.
    pub fn from_name(name: &str) -> (level: Self)
        ensures
            level.named(name@),
    {
        if str_eq(name, "MachineApplicable") {
            Applicability::MachineApplicable
        } else if str_eq(name, "HasPlaceholders") {
            Applicability::HasPlaceholders
        } else if str_eq(name, "MaybeIncorrect") {
            Applicability::MaybeIncorrect
        } else if str_eq(name, "Unspecified") {
            Applicability::Unspecified
        } else {
            Applicability::Other(name.to_owned())
        }
    }

    /// The name under which this level is written.
    pub fn name(&self) -> (name: &str)
        ensures
            name@ == self.label(),
    {
        match self {
            Applicability::MachineApplicable => "MachineApplicable",
            Applicability::HasPlaceholders => "HasPlaceholders",
            Applicability::MaybeIncorrect => "MaybeIncorrect",
            Applicability::Unspecified => "Unspecified",
            Applicability::Other(name) => name.as_str(),
        }
    }

    /// Decodes a level: any text is one, nothing else is.
    pub fn deserialize(j: &Json) -> (r: Result<Self, DecodeError>)
        ensures
            match r {
                Ok(level) => level.decoded_from(j@),
                Err(e) => e == DecodeError::Schema && !(j@ is Text),
            },
    {
        match j {
            Json::Text(name) => Ok(Self::from_name(name.as_str())),
            _ => Err(DecodeError::Schema),
        }
    }

    /// Encodes this level as the text of its name.
    pub fn serialize(&self) -> (j: Json)
        ensures
            j@ == JsonView::Text(self.label()),
    {
        Json::Text(self.name().to_owned())
    }
}

impl ErrorLevel {
    /// The name under which this severity is written.
    pub open spec fn label(self) -> Seq<char> {
        match self {
            ErrorLevel::InternalCompilerError => "error: internal compiler error"@,
            ErrorLevel::Error => "error"@,
            ErrorLevel::Warning => "warning"@,
            ErrorLevel::Note => "note"@,
            ErrorLevel::Help => "help"@,
            ErrorLevel::Other(name) => name@,
        }
    }

    /// Whether `name` is one of the five names with a variant of their own.
    pub open spec fn is_known(name: Seq<char>) -> bool {
        ||| name == "error: internal compiler error"@
        ||| name == "error"@
        ||| name == "warning"@
        ||| name == "note"@
        ||| name == "help"@
    }

    /// Whether this severity is the one that `name` is read as: its own
    /// variant for a known name, `Other` with the name unchanged for any other.
    pub open spec fn named(self, name: Seq<char>) -> bool {
        if name == "error: internal compiler error"@ {
            self is InternalCompilerError
        } else if name == "error"@ {
            self is Error
        } else if name == "warning"@ {
            self is Warning
        } else if name == "note"@ {
            self is Note
        } else if name == "help"@ {
            self is Help
        } else {
            self matches ErrorLevel::Other(kept) && kept@ == name
        }
    }

    /// Whether this severity is what the document `j` decodes to.
    pub open spec fn decoded_from(self, j: JsonView) -> bool {
        j matches JsonView::Text(name) && self.named(name)
    }

    /// Reads a severity from its name. No name is refused.
    pub fn from_name(name: &str) -> (level: Self)
        ensures
            level.named(name@),
    {
        if str_eq(name, "error: internal compiler error") {
            ErrorLevel::InternalCompilerError
        } else if str_eq(name, "error") {
            ErrorLevel::Error
        } else if str_eq(name, "warning") {
            ErrorLevel::Warning
        } else if str_eq(name, "note") {
            ErrorLevel::Note
        } else if str_eq(name, "help") {
            ErrorLevel::Help
        } else {
            ErrorLevel::Other(name.to_owned())
        }
    }

    /// The name under which this severity is written.
    pub fn name(&self) -> (name: &str)
        ensures
            name@ == self.label(),
    {
        match self {
            ErrorLevel::InternalCompilerError => "error: internal compiler error",
            ErrorLevel::Error => "error",
            ErrorLevel::Warning => "warning",
            ErrorLevel::Note => "note",
            ErrorLevel::Help => "help",
            ErrorLevel::Other(name) => name.as_str(),
        }
    }

    /// Decodes a severity: any text is one, nothing else is.
    pub fn deserialize(j: &Json) -> (r: Result<Self, DecodeError>)
        ensures
            match r {
                Ok(level) => level.decoded_from(j@),
                Err(e) => e == DecodeError::Schema && !(j@ is Text),
            },
    {
        match j {
            Json::Text(name) => Ok(Self::from_name(name.as_str())),
            _ => Err(DecodeError::Schema),
        }
    }

    /// Encodes this severity as the text of its name.
    pub fn serialize(&self) -> (j: Json)
        ensures
            j@ == JsonView::Text(self.label()),
    {
        Json::Text(self.name().to_owned())
    }
}

impl DiagnosticCode {
    /// Whether this code is what the document `j` decodes to.
    pub open spec fn decoded_from(self, j: JsonView) -> bool {
        &&& as_text(j.member("code"@)) == Some(self.code@)
        &&& as_opt_text(j.member("explanation"@)) == Some(self.explanation.deep_view())
    }

    /// Decodes a code from an object with the members `code` and, where it
    /// has one, `explanation`.
    pub fn deserialize(j: &Json) -> (r: Result<Self, DecodeError>)
        ensures
            match r {
                Ok(code) => code.decoded_from(j@),
                Err(e) => e == DecodeError::Schema && forall|c: Self| !c.decoded_from(j@),
            },
    {
        let code = text_at(j, "code")?;
        let explanation = opt_text_at(j, "explanation")?;
        Ok(DiagnosticCode { code, explanation })
    }
}

impl DiagnosticSpanLine {
    /// Whether this line is what the document `j` decodes to.
    pub open spec fn decoded_from(self, j: JsonView) -> bool {
        &&& as_text(j.member("text"@)) == Some(self.text@)
        &&& as_usize(j.member("highlight_start"@)) == Some(self.highlight_start)
        &&& as_usize(j.member("highlight_end"@)) == Some(self.highlight_end)
    }

    /// Decodes a line from an object with the members `text`,
    /// `highlight_start` and `highlight_end`.
    pub fn deserialize(j: &Json) -> (r: Result<Self, DecodeError>)
        ensures
            match r {
                Ok(line) => line.decoded_from(j@),
                Err(e) => e == DecodeError::Schema && forall|l: Self| !l.decoded_from(j@),
            },
    {
        let text = text_at(j, "text")?;
        let highlight_start = usize_at(j, "highlight_start")?;
        let highlight_end = usize_at(j, "highlight_end")?;
        Ok(DiagnosticSpanLine { text, highlight_start, highlight_end })
    }
}

/// Whether `lines` are what the items of the list `v` decode to, one by one.
pub open spec fn lines_decoded_from(lines: Seq<DiagnosticSpanLine>, v: Option<JsonView>) -> bool {
    &&& v matches Some(JsonView::Array(items))
    &&& items.len() == lines.len()
    &&& forall|i: int| 0 <= i < lines.len() ==> lines[i].decoded_from(#[trigger] items[i])
}

/// Decodes the member `key` as a list of lines.
fn lines_at(j: &Json, key: &str) -> (r: Result<Vec<DiagnosticSpanLine>, DecodeError>)
    ensures
        match r {
            Ok(lines) => lines_decoded_from(lines@, j@.member(key@)),
            Err(e) => e == DecodeError::Schema && forall|l: Seq<DiagnosticSpanLine>|
                !lines_decoded_from(l, j@.member(key@)),
        },
{
    match j.get(key) {
        Some(Json::Array(items)) => {
            let mut out: Vec<DiagnosticSpanLine> = Vec::new();
            let mut i: usize = 0;
            proof {
                lemma_view_of_array(*items);
            }
            while i < items.len()
                invariant
                    i <= items@.len(),
                    out@.len() == i,
                    j@.member(key@) == Some(JsonView::Array(views_of(items@))),
                    forall|k: int|
                        0 <= k < i ==> out@[k].decoded_from(#[trigger] views_of(items@)[k]),
                decreases items@.len() - i,
            {
                assert(views_of(items@)[i as int] == items@[i as int]@);
                match DiagnosticSpanLine::deserialize(&items[i]) {
                    Ok(line) => out.push(line),
                    Err(e) => {
                        return Err(e);
                    },
                }
                i += 1;
            }
            Ok(out)
        },
        _ => Err(DecodeError::Schema),
    }
}

impl DiagnosticSpan {
    /// Whether this span is what the document `j` decodes to.
    pub open spec fn decoded_from(self, j: JsonView) -> bool
        decreases self,
    {
        &&& as_text(j.member("file_name"@)) == Some(self.file_name@)
        &&& as_u32(j.member("byte_start"@)) == Some(self.byte_start)
        &&& as_u32(j.member("byte_end"@)) == Some(self.byte_end)
        &&& as_usize(j.member("line_start"@)) == Some(self.line_start)
        &&& as_usize(j.member("line_end"@)) == Some(self.line_end)
        &&& as_usize(j.member("column_start"@)) == Some(self.column_start)
        &&& as_usize(j.member("column_end"@)) == Some(self.column_end)
        &&& as_bool(j.member("is_primary"@)) == Some(self.is_primary)
        &&& lines_decoded_from(self.text@, j.member("text"@))
        &&& as_opt_text(j.member("label"@)) == Some(self.label.deep_view())
        &&& as_opt_text(j.member("suggested_replacement"@)) == Some(
            self.suggested_replacement.deep_view(),
        )
        &&& match j.member("suggestion_applicability"@) {
            None | Some(JsonView::Null) => self.suggestion_applicability is None,
            Some(a) => self.suggestion_applicability matches Some(level) && level.decoded_from(a),
        }
        &&& match j.member("expansion"@) {
            None | Some(JsonView::Null) => self.expansion is None,
            Some(x) => self.expansion matches Some(expansion) && expansion.decoded_from(x),
        }
    }

    /// Decodes a span from an object. The twelve members other than `label`,
    /// `suggested_replacement`, `suggestion_applicability` and `expansion`
    /// are required.
    pub fn deserialize(j: &Json) -> (r: Result<Self, DecodeError>)
        ensures
            match r {
                Ok(span) => span.decoded_from(j@),
                Err(e) => e == DecodeError::Schema && forall|s: Self| !s.decoded_from(j@),
            },
        decreases j,
    {
        let file_name = text_at(j, "file_name")?;
        let byte_start = u32_at(j, "byte_start")?;
        let byte_end = u32_at(j, "byte_end")?;
        let line_start = usize_at(j, "line_start")?;
        let line_end = usize_at(j, "line_end")?;
        let column_start = usize_at(j, "column_start")?;
        let column_end = usize_at(j, "column_end")?;
        let is_primary = bool_at(j, "is_primary")?;
        let text = lines_at(j, "text")?;
        let label = opt_text_at(j, "label")?;
        let suggested_replacement = opt_text_at(j, "suggested_replacement")?;
        let suggestion_applicability = match j.get("suggestion_applicability") {
            None | Some(Json::Null) => None,
            Some(a) => Some(Applicability::deserialize(a)?),
        };
        let expansion = match j.get("expansion") {
            None | Some(Json::Null) => None,
            Some(x) => match DiagnosticSpanMacroExpansion::deserialize(x) {
                Ok(expansion) => Some(Box::new(expansion)),
                Err(e) => {
                    assert forall|s: Self| !s.decoded_from(j@) by {
                        if s.decoded_from(j@) {
                            assert(s.expansion->0.decoded_from(x@));
                        }
                    }
                    return Err(e);
                },
            },
        };
        Ok(
            DiagnosticSpan {
                file_name,
                byte_start,
                byte_end,
                line_start,
                line_end,
                column_start,
                column_end,
                is_primary,
                text,
                label,
                suggested_replacement,
                suggestion_applicability,
                expansion,
            },
        )
    }
}

impl DiagnosticSpanMacroExpansion {
    /// Whether this expansion is what the document `j` decodes to.
    pub open spec fn decoded_from(self, j: JsonView) -> bool
        decreases self,
    {
        &&& j.member("span"@) matches Some(s) && self.span.decoded_from(s)
        &&& as_text(j.member("macro_decl_name"@)) == Some(self.macro_decl_name@)
        &&& match j.member("def_site_span"@) {
            None | Some(JsonView::Null) => self.def_site_span is None,
            Some(d) => self.def_site_span matches Some(span) && span.decoded_from(d),
        }
    }

    /// Decodes an expansion from an object with the members `span`,
    /// `macro_decl_name` and, where it has one, `def_site_span`.
    pub fn deserialize(j: &Json) -> (r: Result<Self, DecodeError>)
        ensures
            match r {
                Ok(expansion) => expansion.decoded_from(j@),
                Err(e) => e == DecodeError::Schema && forall|x: Self| !x.decoded_from(j@),
            },
        decreases j,
    {
        let span = match j.get("span") {
            Some(s) => match DiagnosticSpan::deserialize(s) {
                Ok(span) => span,
                Err(e) => {
                    assert forall|x: Self| !x.decoded_from(j@) by {
                        if x.decoded_from(j@) {
                            assert(x.span.decoded_from(s@));
                        }
                    }
                    return Err(e);
                },
            },
            None => {
                return Err(DecodeError::Schema);
            },
        };
        let macro_decl_name = text_at(j, "macro_decl_name")?;
        let def_site_span = match j.get("def_site_span") {
            None | Some(Json::Null) => None,
            Some(d) => match DiagnosticSpan::deserialize(d) {
                Ok(span) => Some(span),
                Err(e) => {
                    assert forall|x: Self| !x.decoded_from(j@) by {
                        if x.decoded_from(j@) {
                            assert(x.def_site_span->0.decoded_from(d@));
                        }
                    }
                    return Err(e);
                },
            },
        };
        Ok(DiagnosticSpanMacroExpansion { span, macro_decl_name, def_site_span })
    }
}

/// Whether `spans` are what the items of the list `v` decode to, one by one.
pub open spec fn spans_decoded_from(spans: Seq<DiagnosticSpan>, v: Option<JsonView>) -> bool {
    &&& v matches Some(JsonView::Array(items))
    &&& items.len() == spans.len()
    &&& forall|i: int| 0 <= i < spans.len() ==> spans[i].decoded_from(#[trigger] items[i])
}

/// Decodes the member `key` as a list of spans.
fn spans_at(j: &Json, key: &str) -> (r: Result<Vec<DiagnosticSpan>, DecodeError>)
    ensures
        match r {
            Ok(spans) => spans_decoded_from(spans@, j@.member(key@)),
            Err(e) => e == DecodeError::Schema && forall|s: Seq<DiagnosticSpan>|
                !spans_decoded_from(s, j@.member(key@)),
        },
{
    match j.get(key) {
        Some(Json::Array(items)) => {
            let mut out: Vec<DiagnosticSpan> = Vec::new();
            let mut i: usize = 0;
            proof {
                lemma_view_of_array(*items);
            }
            while i < items.len()
                invariant
                    i <= items@.len(),
                    out@.len() == i,
                    j@.member(key@) == Some(JsonView::Array(views_of(items@))),
                    forall|k: int|
                        0 <= k < i ==> out@[k].decoded_from(#[trigger] views_of(items@)[k]),
                decreases items@.len() - i,
            {
                assert(views_of(items@)[i as int] == items@[i as int]@);
                match DiagnosticSpan::deserialize(&items[i]) {
                    Ok(span) => out.push(span),
                    Err(e) => {
                        return Err(e);
                    },
                }
                i += 1;
            }
            Ok(out)
        },
        _ => Err(DecodeError::Schema),
    }
}

impl CompilerMessage {
    /// Whether this diagnostic is what the document `j` decodes to.
    pub open spec fn decoded_from(self, j: JsonView) -> bool
        decreases self,
    {
        &&& as_text(j.member("message"@)) == Some(self.message@)
        &&& match j.member("code"@) {
            None | Some(JsonView::Null) => self.code is None,
            Some(c) => self.code matches Some(code) && code.decoded_from(c),
        }
        &&& j.member("level"@) matches Some(l) && self.level.decoded_from(l)
        &&& spans_decoded_from(self.spans@, j.member("spans"@))
        &&& j.member("children"@) matches Some(JsonView::Array(items))
        &&& items.len() == self.children@.len()
        &&& forall|i: int|
            0 <= i < self.children@.len() ==> self.children@[i].decoded_from(#[trigger] items[i])
        &&& as_opt_text(j.member("rendered"@)) == Some(self.rendered.deep_view())
    }

    /// Whether the document `j` decodes to some diagnostic.
    pub open spec fn decodable(j: JsonView) -> bool {
        exists|m: CompilerMessage| m.decoded_from(j)
    }

    /// Decodes the items of a list of nested diagnostics.
    fn children_in(items: &Vec<Json>) -> (r: Result<Vec<CompilerMessage>, DecodeError>)
        ensures
            match r {
                Ok(children) => {
                    &&& children@.len() == items@.len()
                    &&& forall|i: int|
                        0 <= i < children@.len() ==> children@[i].decoded_from(
                            #[trigger] views_of(items@)[i],
                        )
                },
                Err(e) => e == DecodeError::Schema && exists|i: int|
                    0 <= i < items@.len() && !Self::decodable(#[trigger] views_of(items@)[i]),
            },
        decreases items,
    {
        let mut out: Vec<CompilerMessage> = Vec::new();
        let mut i: usize = 0;
        while i < items.len()
            invariant
                i <= items@.len(),
                out@.len() == i,
                forall|k: int| 0 <= k < i ==> out@[k].decoded_from(#[trigger] views_of(items@)[k]),
            decreases items@.len() - i,
        {
            assert(views_of(items@)[i as int] == items@[i as int]@);
            match CompilerMessage::deserialize(&items[i]) {
                Ok(child) => out.push(child),
                Err(e) => {
                    return Err(e);
                },
            }
            i += 1;
        }
        Ok(out)
    }

    /// Decodes a diagnostic from an object. The members `message`, `level`,
    /// `spans` and `children` are required; `code` and `rendered` may be
    /// absent or `null`.
    pub fn deserialize(j: &Json) -> (r: Result<Self, DecodeError>)
        ensures
            match r {
                Ok(message) => message.decoded_from(j@),
                Err(e) => e == DecodeError::Schema && forall|m: Self| !m.decoded_from(j@),
            },
        decreases j,
    {
        let message = text_at(j, "message")?;
        let code = match j.get("code") {
            None | Some(Json::Null) => None,
            Some(c) => Some(DiagnosticCode::deserialize(c)?),
        };
        let level = match j.get("level") {
            Some(l) => ErrorLevel::deserialize(l)?,
            None => {
                return Err(DecodeError::Schema);
            },
        };
        let spans = spans_at(j, "spans")?;
        let children = match j.get("children") {
            Some(Json::Array(items)) => {
                proof {
                    lemma_view_of_array(*items);
                }
                match Self::children_in(items) {
                    Ok(children) => children,
                    Err(e) => {
                        assert forall|m: Self| !m.decoded_from(j@) by {
                            let i = choose|i: int|
                                0 <= i < items@.len() && !Self::decodable(
                                    #[trigger] views_of(items@)[i],
                                );
                            if m.decoded_from(j@) {
                                assert(m.children@[i].decoded_from(views_of(items@)[i]));
                            }
                        }
                        return Err(e);
                    },
                }
            },
            _ => {
                return Err(DecodeError::Schema);
            },
        };
        let rendered = opt_text_at(j, "rendered")?;
        Ok(CompilerMessage { message, code, level, spans, children, rendered })
    }
}

/// Every name is read as a severity that is written as that same name:
/// reading and then writing changes nothing, for the five known names and
/// for every other text alike.
pub proof fn lemma_level_name_round_trip(level: ErrorLevel, name: Seq<char>)
    requires
        level.named(name),
    ensures
        level.label() == name,
        !ErrorLevel::is_known(name) ==> level is Other,
{
}

/// Every name is read as an applicability that is written as that same name.
pub proof fn lemma_applicability_name_round_trip(level: Applicability, name: Seq<char>)
    requires
        level.named(name),
    ensures
        level.label() == name,
        !Applicability::is_known(name) ==> level is Other,
{
}

} // verus!
