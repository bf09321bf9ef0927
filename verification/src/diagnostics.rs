//! Diagnostics as the analysis engine reports them and as the server keeps
//! them.

use crate::paths::{file_path_uri, uri_from_file_path};
use crate::span::SSourceSpan;
use crate::uri_map::UriMap;
use vstd::prelude::*;

verus! {

/// A zero-based (line, character) position in a document.
#[derive(Debug, Clone, Copy, PartialEq, Eq, Structural)]
pub struct Position {
    pub line: u32,
    pub character: u32,
}

/// A range between two positions.
#[derive(Debug, Clone, Copy, PartialEq, Eq, Structural)]
pub struct Range {
    pub start: Position,
    pub end: Position,
}

/// How serious a diagnostic is.
#[derive(Debug, Clone, Copy, PartialEq, Eq, Structural)]
pub enum DiagnosticSeverity {
    Error,
    Warning,
    Information,
}

/// The name under which every diagnostic of this server is reported.
pub const DIAGNOSTIC_SOURCE: &'static str = "VerseCompiler";

/// One diagnostic of a document.
#[derive(Debug)]
pub struct Diagnostic {
    pub range: Range,
    pub severity: DiagnosticSeverity,
    /// The engine's reference code, where it gave one.
    pub code: Option<i32>,
    pub source: String,
    pub message: String,
}

impl Clone for Diagnostic {
    fn clone(&self) -> (copy: Self)
        ensures
            copy == *self,
    {
        Diagnostic {
            range: self.range,
            severity: self.severity,
            code: self.code,
            source: self.source.clone(),
            message: self.message.clone(),
        }
    }
}

/// A copy of `diagnostics`.
pub fn clone_diagnostics(diagnostics: &Vec<Diagnostic>) -> (copy: Vec<Diagnostic>)
    ensures
        copy@ == diagnostics@,
{
    let mut copy: Vec<Diagnostic> = Vec::new();
    let mut i: usize = 0;
    while i < diagnostics.len()
        invariant
            i <= diagnostics.len(),
            copy@ == diagnostics@.take(i as int),
        decreases diagnostics.len() - i,
    {
        copy.push(diagnostics[i].clone());
        assert(diagnostics@.take(i + 1) == diagnostics@.take(i as int).push(diagnostics@[i as int]));
        i += 1;
    }
    assert(diagnostics@.take(i as int) == diagnostics@);
    copy
}

/// A diagnostic in the form in which the analysis engine hands it over.
#[derive(Debug)]
pub struct SDiagnostic {
    /// The file the diagnostic belongs to; empty for one that belongs to the
    /// project as a whole.
    pub path: String,
    pub message: String,
    /// Zero where the engine gave no code.
    pub reference_code: u16,
    /// 1 for an error, 2 for a warning, 3 for an information.
    pub severity: i32,
    pub span: SSourceSpan,
}

impl DiagnosticSeverity {
    /// The severity that the engine's code `code` stands for.
    pub open spec fn of_code(code: int) -> Option<DiagnosticSeverity> {
        if code == 1 {
            Some(DiagnosticSeverity::Error)
        } else if code == 2 {
            Some(DiagnosticSeverity::Warning)
        } else if code == 3 {
            Some(DiagnosticSeverity::Information)
        } else {
            None
        }
    }

    /// The severity that the engine's code `code` stands for.
    pub fn from_code(code: i32) -> (severity: Option<DiagnosticSeverity>)
        ensures
            severity == Self::of_code(code as int),
    {
        match code {
            1 => Some(DiagnosticSeverity::Error),
            2 => Some(DiagnosticSeverity::Warning),
            3 => Some(DiagnosticSeverity::Information),
            _ => None,
        }
    }
}

impl SDiagnostic {
    /// Whether `diagnostic` says what `self` says: the same range, severity,
    /// code and message, under the server's source name.
    pub open spec fn lowers_to(&self, diagnostic: Diagnostic) -> bool {
        &&& diagnostic.range == Range {
            start: Position { line: self.span.begin_row, character: self.span.begin_col },
            end: Position { line: self.span.end_row, character: self.span.end_col },
        }
        &&& DiagnosticSeverity::of_code(self.severity as int) == Some(diagnostic.severity)
        &&& diagnostic.code == if self.reference_code > 0 {
            Some(self.reference_code as i32)
        } else {
            None
        }
        &&& diagnostic.source@ == DIAGNOSTIC_SOURCE@
        &&& diagnostic.message == self.message
    }

    /// The diagnostic in the server's form.
    pub fn lower(self) -> (diagnostic: Diagnostic)
        requires
            1 <= self.severity <= 3,
        ensures
            self.lowers_to(diagnostic),
    {
        let severity = match self.severity {
            1 => DiagnosticSeverity::Error,
            2 => DiagnosticSeverity::Warning,
            _ => DiagnosticSeverity::Information,
        };
        Diagnostic {
            range: Range {
                start: Position { line: self.span.begin_row, character: self.span.begin_col },
                end: Position { line: self.span.end_row, character: self.span.end_col },
            },
            severity,
            code: if self.reference_code > 0 {
                Some(self.reference_code as i32)
            } else {
                None
            },
            source: DIAGNOSTIC_SOURCE.to_owned(),
            message: self.message,
        }
    }
}

/// What one build reports: diagnostics by document, and those that belong to
/// the project as a whole.
pub struct DiagnosticAccumulator {
    /// Diagnostics to report under the project descriptor.
    pub global_diagnostics: Vec<Diagnostic>,
    /// Diagnostics by document URI.
    pub diagnostics: UriMap<Vec<Diagnostic>>,
}

impl DiagnosticAccumulator {
    /// An accumulator that holds nothing.
    pub fn new() -> (acc: Self)
        ensures
            acc.global_diagnostics@ == Seq::<Diagnostic>::empty(),
            acc.diagnostics.keys() == Seq::<Seq<char>>::empty(),
            acc.diagnostics.wf(),
    {
        DiagnosticAccumulator { global_diagnostics: Vec::new(), diagnostics: UriMap::new() }
    }

    /// Whether `after` is `self` with `diagnostic` added: behind the others
    /// of `uri`, or behind the project's own where there is no `uri`.
    pub open spec fn recorded(
        &self,
        after: DiagnosticAccumulator,
        uri: Option<Seq<char>>,
        diagnostic: Diagnostic,
    ) -> bool {
        match uri {
            None => {
                &&& after.global_diagnostics@ == self.global_diagnostics@.push(diagnostic)
                &&& after.diagnostics == self.diagnostics
            },
            Some(u) => {
                &&& after.global_diagnostics == self.global_diagnostics
                &&& after.diagnostics.keys() == if self.diagnostics.contains_key(u) {
                    self.diagnostics.keys()
                } else {
                    self.diagnostics.keys().push(u)
                }
                &&& forall|k: Seq<char>|
                    #[trigger] after.diagnostics.list_of(k) == if k == u {
                        self.diagnostics.list_of(k).push(diagnostic)
                    } else {
                        self.diagnostics.list_of(k)
                    }
            },
        }
    }

    /// Adds `diagnostic` under `uri`, or to the project's own where there is
    /// no `uri`.
    pub fn record(&mut self, uri: Option<String>, diagnostic: Diagnostic)
        ensures
            old(self).recorded(
                *final(self),
                match uri {
                    Some(u) => Some(u@),
                    None => None,
                },
                diagnostic,
            ),
            final(self).diagnostics.wf(),
    {
        match uri {
            Some(uri) => {
                self.diagnostics.append(uri, diagnostic);
            },
            None => {
                self.global_diagnostics.push(diagnostic);
                proof {
                    use_type_invariant(&self.diagnostics);
                }
            },
        }
    }
}

impl SDiagnostic {
    /// Whether the diagnostic is dropped: it has a path, and the path has no
    /// URI.
    pub open spec fn dropped(&self) -> bool {
        self.path@.len() > 0 && file_path_uri(self.path@) is None
    }

    /// Whether the severity is one of the three that the analysis engine
    /// knows.
    pub open spec fn known_severity(&self) -> bool {
        1 <= self.severity <= 3
    }
}

/// Whether `after` is `before` with `diagnostic` taken in: under the URI of
/// its path, or among the project's own where it has no path. Nothing is
/// taken in of a diagnostic that is dropped.
pub open spec fn added(
    before: DiagnosticAccumulator,
    after: DiagnosticAccumulator,
    diagnostic: SDiagnostic,
) -> bool {
    if diagnostic.dropped() {
        after == before
    } else {
        exists|lowered: Diagnostic|
            diagnostic.lowers_to(lowered) && before.recorded(
                after,
                if diagnostic.path@.len() == 0 {
                    None
                } else {
                    file_path_uri(diagnostic.path@)
                },
                lowered,
            )
    }
}

/// Takes one diagnostic from the analysis engine. One with a path goes under
/// the path's URI, and is dropped where the path has none; one without a
/// path goes to the project's own. A diagnostic that is not dropped must
/// have a severity that the engine knows.
#[allow(non_snake_case)]
pub fn RS_AddDiagnostic(acc: &mut DiagnosticAccumulator, diagnostic: SDiagnostic)
    requires
        !diagnostic.dropped() ==> diagnostic.known_severity(),
    ensures
        added(*old(acc), *final(acc), diagnostic),
{
    let uri = if diagnostic.path.as_str().is_empty() {
        None
    } else {
        match uri_from_file_path(diagnostic.path.as_str()) {
            Some(uri) => Some(uri),
            None => {
                return ;
            },
        }
    };
    let lowered = diagnostic.lower();
    acc.record(uri, lowered);
}

/// Takes one diagnostic from the analysis engine, whatever its severity.
/// The result says whether the diagnostic was dealt with, taken in or
/// dropped; one that is not dropped and has a severity that the engine does
/// not know is not, and changes nothing.
pub fn add_diagnostic(acc: &mut DiagnosticAccumulator, diagnostic: SDiagnostic) -> (dealt_with:
    bool)
    ensures
        dealt_with == (diagnostic.dropped() || diagnostic.known_severity()),
        dealt_with ==> added(*old(acc), *final(acc), diagnostic),
        !dealt_with ==> *final(acc) == *old(acc),
{
    if 1 <= diagnostic.severity && diagnostic.severity <= 3 {
        RS_AddDiagnostic(acc, diagnostic);
        true
    } else if diagnostic.path.as_str().is_empty() {
        false
    } else {
        uri_from_file_path(diagnostic.path.as_str()).is_none()
    }
}

} // verus!
