//! Errors and warnings, and the run-scoped reporter that accumulates them.
//!
//! Diagnostics only accumulate; none is ever retracted. The run's exit status
//! is derived solely from whether any error was ever reported.

use vstd::prelude::*;

use crate::ast::Span;

verus! {

/// The closed taxonomy of diagnostic kinds.
#[derive(Debug, PartialEq, Eq)]
pub enum DiagnosticKind {
    /// An attribute present on a node or type where it is not legal.
    UnexpectedAttribute { attribute: String },
    /// A required attribute is absent.
    MissingRequiredAttribute { attribute: String },
    /// The same backend attribute kind is repeated on one node.
    DuplicateAttribute { attribute: String },
    /// Warning: the attribute is accepted but has no generated-code effect.
    InconsequentialUseOfAttribute { attribute: String, kind: String },
    /// Writing a generated file failed.
    IoFailure { action: String, path: String, error: String },
}

/// Spec-level mirror of `DiagnosticKind`.
#[verifier::ext_equal]
pub enum DiagnosticKindView {
    UnexpectedAttribute { attribute: Seq<char> },
    MissingRequiredAttribute { attribute: Seq<char> },
    DuplicateAttribute { attribute: Seq<char> },
    InconsequentialUseOfAttribute { attribute: Seq<char>, kind: Seq<char> },
    IoFailure { action: Seq<char>, path: Seq<char>, error: Seq<char> },
}

impl View for DiagnosticKind {
    type V = DiagnosticKindView;

    open spec fn view(&self) -> DiagnosticKindView {
        match self {
            DiagnosticKind::UnexpectedAttribute { attribute } => (DiagnosticKindView::UnexpectedAttribute {
                attribute: attribute@,
            }),
            DiagnosticKind::MissingRequiredAttribute { attribute } => (DiagnosticKindView::MissingRequiredAttribute {
                attribute: attribute@,
            }),
            DiagnosticKind::DuplicateAttribute { attribute } => (DiagnosticKindView::DuplicateAttribute {
                attribute: attribute@,
            }),
            DiagnosticKind::InconsequentialUseOfAttribute { attribute, kind } => (DiagnosticKindView::InconsequentialUseOfAttribute {
                attribute: attribute@,
                kind: kind@,
            }),
            DiagnosticKind::IoFailure { action, path, error } => (DiagnosticKindView::IoFailure {
                action: action@,
                path: path@,
                error: error@,
            }),
        }
    }
}

impl DeepView for DiagnosticKind {
    type V = DiagnosticKindView;

    open spec fn deep_view(&self) -> DiagnosticKindView {
        self.view()
    }
}

impl DiagnosticKindView {
    /// Every kind but the inconsequential-use warning is an error.
    pub open spec fn is_error(self) -> bool {
        !(self is InconsequentialUseOfAttribute)
    }
}

/// One diagnostic: a kind, an optional span, free-text notes, and — for
/// warnings only — the enclosing declaration's scope string.
#[derive(Debug, PartialEq, Eq)]
pub struct Diagnostic {
    pub kind: DiagnosticKind,
    pub span: Option<Span>,
    pub notes: Vec<String>,
    pub scope: Option<String>,
}

/// Spec-level mirror of `Diagnostic`.
#[verifier::ext_equal]
pub struct DiagnosticView {
    pub kind: DiagnosticKindView,
    pub span: Option<Span>,
    pub notes: Seq<Seq<char>>,
    pub scope: Option<Seq<char>>,
}

impl DiagnosticView {
    pub open spec fn is_error(self) -> bool {
        self.kind.is_error()
    }
}

impl View for Diagnostic {
    type V = DiagnosticView;

    open spec fn view(&self) -> DiagnosticView {
        DiagnosticView {
            kind: self.kind.view(),
            span: match self.span {
                Some(s) => Some(s),
                None => None,
            },
            notes: self.notes.deep_view(),
            scope: match &self.scope {
                Some(s) => Some(s@),
                None => None,
            },
        }
    }
}

impl DeepView for Diagnostic {
    type V = DiagnosticView;

    open spec fn deep_view(&self) -> DiagnosticView {
        self.view()
    }
}

impl Diagnostic {
    /// A fresh diagnostic of the given kind, with no span, notes or scope.
    pub fn new(kind: DiagnosticKind) -> (d: Diagnostic)
        ensures
            d@ == (DiagnosticView {
                kind: kind@,
                span: None,
                notes: Seq::<Seq<char>>::empty(),
                scope: None,
            }),
    {
        let d = Diagnostic { kind, span: None, notes: Vec::new(), scope: None };
        proof {
            assert(d@.notes =~= Seq::<Seq<char>>::empty());
        }
        d
    }

    /// Anchors the diagnostic at a span.
    pub fn set_span(self, span: Span) -> (d: Diagnostic)
        ensures
            d@ == (DiagnosticView { span: Some(span), ..self@ }),
    {
        Diagnostic { span: Some(span), ..self }
    }

    /// Appends a free-text note.
    pub fn add_note(self, note: String) -> (d: Diagnostic)
        ensures
            d@ == (DiagnosticView { notes: self@.notes.push(note@), ..self@ }),
    {
        let ghost orig = self@;
        let ghost n = note@;
        let Diagnostic { kind, span, mut notes, scope } = self;
        notes.push(note);
        let d = Diagnostic { kind, span, notes, scope };
        proof {
            assert(d@.notes =~= orig.notes.push(n));
            assert(d@ =~= (DiagnosticView { notes: orig.notes.push(n), ..orig }));
        }
        d
    }

    /// Attaches the enclosing declaration's scope string (warnings only).
    pub fn set_scope(self, scope: String) -> (d: Diagnostic)
        ensures
            d@ == (DiagnosticView { scope: Some(scope@), ..self@ }),
    {
        Diagnostic { scope: Some(scope), ..self }
    }

    /// True for every kind but the inconsequential-use warning.
    pub fn is_error(&self) -> (r: bool)
        ensures
            r == self@.is_error(),
    {
        !matches!(self.kind, DiagnosticKind::InconsequentialUseOfAttribute { .. })
    }

    /// Hands the diagnostic to the reporter.
    pub fn report(self, reporter: &mut DiagnosticReporter)
        ensures
            final(reporter)@ == old(reporter)@.push(self@),
    {
        reporter.report(self);
    }
}

/// True when the sequence holds at least one error.
pub open spec fn has_error_diag(diags: Seq<DiagnosticView>) -> bool {
    exists|i: int| 0 <= i < diags.len() && diags[i].is_error()
}

/// Process-scoped collector of errors and warnings; the terminal sink that
/// determines the run's success or failure.
#[derive(Debug, PartialEq, Eq)]
pub struct DiagnosticReporter {
    pub diagnostics: Vec<Diagnostic>,
}

impl View for DiagnosticReporter {
    type V = Seq<DiagnosticView>;

    open spec fn view(&self) -> Seq<DiagnosticView> {
        self.diagnostics.deep_view()
    }
}

impl DeepView for DiagnosticReporter {
    type V = Seq<DiagnosticView>;

    open spec fn deep_view(&self) -> Seq<DiagnosticView> {
        self.view()
    }
}

impl DiagnosticReporter {
    /// A reporter with nothing reported yet.
    pub fn new() -> (r: DiagnosticReporter)
        ensures
            r@ == Seq::<DiagnosticView>::empty(),
    {
        let r = DiagnosticReporter { diagnostics: Vec::new() };
        proof {
            assert(r@ =~= Seq::<DiagnosticView>::empty());
        }
        r
    }

    /// Accumulates one diagnostic; nothing is ever retracted.
    pub fn report(&mut self, diagnostic: Diagnostic)
        ensures
            final(self)@ == old(self)@.push(diagnostic@),
    {
        self.diagnostics.push(diagnostic);
        proof {
            assert(self@ =~= old(self)@.push(diagnostic@));
        }
    }

    /// Whether any error (of any kind, from any pass) was ever reported.
    pub fn has_errors(&self) -> (r: bool)
        ensures
            r == has_error_diag(self@),
    {
        let mut i: usize = 0;
        while i < self.diagnostics.len()
            invariant
                0 <= i <= self.diagnostics.len(),
                forall|j: int| 0 <= j < i ==> !self@[j].is_error(),
            decreases self.diagnostics.len() - i,
        {
            if self.diagnostics[i].is_error() {
                proof {
                    assert(self@[i as int].is_error());
                }
                return true;
            }
            i = i + 1;
        }
        false
    }
}

} // verus!
