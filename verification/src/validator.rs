//! The attribute-validation pass: the last phase before code generation.
//!
//! It traverses every loaded file — source and included-only alike, since
//! attribute misuse in a dependency must be caught even though that file is
//! never re-emitted — checks every node's backend-specific attributes against
//! the per-node-kind legality rules, and accumulates diagnostics. It never
//! mutates the tree, and it never stops early: all applicable rules for a
//! node are evaluated even after one of them produced a diagnostic.

use vstd::prelude::*;

use crate::ast::{
    directive_of, Attribute, AttributeKind, AttributeKindView, AttributeTag, AttributeView,
    CsAttributeKind, CsAttributeKindView, EntityData, EntityDataView, Node, NodeView, Span,
    SliceFile, SliceFileView, TypeCategory, TypeRef,
};
use crate::compilation::{CompilationData, CompilationDataView};
use crate::diagnostics::{
    has_error_diag, Diagnostic, DiagnosticKind, DiagnosticKindView, DiagnosticReporter,
    DiagnosticView,
};

verus! {

// ---------------------------------------------------------------------------
// The specification of the pass: which diagnostics a node yields, in order.
// ---------------------------------------------------------------------------

/// The backend-specific attributes of a node's attribute list, each with the
/// span it was written at, in insertion order.
pub open spec fn cs_attributes_view(attrs: Seq<AttributeView>) -> Seq<(CsAttributeKindView, Span)>
    decreases attrs.len(),
{
    if attrs.len() == 0 {
        Seq::empty()
    } else {
        let rest = cs_attributes_view(attrs.drop_last());
        match attrs.last().kind {
            AttributeKindView::Cs { kind } => rest.push((kind, attrs.last().span)),
            AttributeKindView::General { .. } => rest,
        }
    }
}

/// How many attributes of the list have the given bare kind.
pub open spec fn count_tag(attrs: Seq<(CsAttributeKindView, Span)>, tag: AttributeTag) -> int
    decreases attrs.len(),
{
    if attrs.len() == 0 {
        0
    } else {
        count_tag(attrs.drop_last(), tag) + if attrs.last().0.tag() == tag {
            1int
        } else {
            0int
        }
    }
}

pub proof fn lemma_count_tag_nonneg(attrs: Seq<(CsAttributeKindView, Span)>, tag: AttributeTag)
    ensures
        count_tag(attrs, tag) >= 0,
    decreases attrs.len(),
{
    if attrs.len() != 0 {
        lemma_count_tag_nonneg(attrs.drop_last(), tag);
    }
}

/// The error reported for an attribute on a node or type where it is not
/// legal, anchored at that attribute's span and naming its directive.
pub open spec fn unexpected_attribute_diag(kind: CsAttributeKindView, span: Span) -> DiagnosticView {
    DiagnosticView {
        kind: DiagnosticKindView::UnexpectedAttribute { attribute: directive_of(kind.tag()) },
        span: Some(span),
        notes: Seq::empty(),
        scope: None,
    }
}

/// The error for a rename attribute on a module, whose note points at the
/// namespace attribute instead.
pub open spec fn module_identifier_diag(span: Span) -> DiagnosticView {
    DiagnosticView {
        kind: DiagnosticKindView::UnexpectedAttribute { attribute: "cs::identifier"@ },
        span: Some(span),
        notes: seq!["To rename a module use cs::namespace instead"@],
        scope: None,
    }
}

/// The note attached to an encoded-result error, which distinguishes an
/// operation that only returns a stream from one that returns nothing.
pub open spec fn encoded_result_note(has_streamed_return: bool) -> Seq<char> {
    if has_streamed_return {
        "The 'cs::encodedResult' attribute is not applicable to an operation that only returns a stream."@
    } else {
        "The 'cs::encodedResult' attribute is not applicable to an operation that does not return anything."@
    }
}

/// The error for an encoded-result attribute on an operation without a
/// non-streamed return value.
pub open spec fn encoded_result_diag(span: Span, has_streamed_return: bool) -> DiagnosticView {
    DiagnosticView {
        kind: DiagnosticKindView::UnexpectedAttribute { attribute: "cs::encodedResult"@ },
        span: Some(span),
        notes: seq![encoded_result_note(has_streamed_return)],
        scope: None,
    }
}

/// The error for a custom type without the required wire-codec attribute,
/// anchored at the type's own span.
pub open spec fn missing_custom_diag(span: Span) -> DiagnosticView {
    DiagnosticView {
        kind: DiagnosticKindView::MissingRequiredAttribute { attribute: "cs::custom"@ },
        span: Some(span),
        notes: Seq::empty(),
        scope: None,
    }
}

/// The diagnostic for a backend attribute kind repeated on one node, anchored
/// at the first repetition.
pub open spec fn duplicate_attribute_diag(tag: AttributeTag, span: Span) -> DiagnosticView {
    DiagnosticView {
        kind: DiagnosticKindView::DuplicateAttribute { attribute: directive_of(tag) },
        span: Some(span),
        notes: Seq::empty(),
        scope: None,
    }
}

/// The warning for a rename attribute on a type alias, which is accepted but
/// has no generated-code effect; anchored at the alias and carrying its scope.
pub open spec fn inconsequential_identifier_diag(span: Span, scope: Seq<char>) -> DiagnosticView {
    DiagnosticView {
        kind: DiagnosticKindView::InconsequentialUseOfAttribute {
            attribute: "cs::identifier"@,
            kind: "typealias"@,
        },
        span: Some(span),
        notes: Seq::empty(),
        scope: Some(scope),
    }
}

/// The common fallback rule: a rename is allowed, every other backend
/// attribute is unexpected.
pub open spec fn common_attribute_diags(kind: CsAttributeKindView, span: Span) -> Seq<DiagnosticView> {
    match kind {
        CsAttributeKindView::Identifier { .. } => Seq::empty(),
        _ => seq![unexpected_attribute_diag(kind, span)],
    }
}

/// On a sequence or dictionary, only the container override is allowed.
pub open spec fn collection_attribute_diags(kind: CsAttributeKindView, span: Span) -> Seq<DiagnosticView> {
    match kind {
        CsAttributeKindView::Generic { .. } => Seq::empty(),
        _ => seq![unexpected_attribute_diag(kind, span)],
    }
}

/// The data-type rule for an attribute reaching a type reference: sequences
/// and dictionaries admit only the container override; no backend attribute
/// is permitted on any other concrete type.
pub open spec fn data_type_attribute_diags(
    category: TypeCategory,
    kind: CsAttributeKindView,
    span: Span,
) -> Seq<DiagnosticView> {
    match category {
        TypeCategory::Sequence => collection_attribute_diags(kind, span),
        TypeCategory::Dictionary => collection_attribute_diags(kind, span),
        TypeCategory::Other => seq![unexpected_attribute_diag(kind, span)],
    }
}

pub open spec fn module_attribute_diags(kind: CsAttributeKindView, span: Span) -> Seq<DiagnosticView> {
    match kind {
        CsAttributeKindView::Namespace { .. } => Seq::empty(),
        CsAttributeKindView::Identifier { .. } => seq![module_identifier_diag(span)],
        CsAttributeKindView::Internal => Seq::empty(),
        _ => common_attribute_diags(kind, span),
    }
}

pub open spec fn struct_attribute_diags(kind: CsAttributeKindView, span: Span) -> Seq<DiagnosticView> {
    match kind {
        CsAttributeKindView::Readonly => Seq::empty(),
        CsAttributeKindView::Internal => Seq::empty(),
        CsAttributeKindView::Attribute { .. } => Seq::empty(),
        _ => common_attribute_diags(kind, span),
    }
}

pub open spec fn class_attribute_diags(kind: CsAttributeKindView, span: Span) -> Seq<DiagnosticView> {
    match kind {
        CsAttributeKindView::Internal => Seq::empty(),
        CsAttributeKindView::Attribute { .. } => Seq::empty(),
        _ => common_attribute_diags(kind, span),
    }
}

pub open spec fn exception_attribute_diags(kind: CsAttributeKindView, span: Span) -> Seq<DiagnosticView> {
    match kind {
        CsAttributeKindView::Internal => Seq::empty(),
        CsAttributeKindView::Attribute { .. } => Seq::empty(),
        _ => common_attribute_diags(kind, span),
    }
}

pub open spec fn interface_attribute_diags(kind: CsAttributeKindView, span: Span) -> Seq<DiagnosticView> {
    match kind {
        CsAttributeKindView::Internal => Seq::empty(),
        _ => common_attribute_diags(kind, span),
    }
}

pub open spec fn enum_attribute_diags(kind: CsAttributeKindView, span: Span) -> Seq<DiagnosticView> {
    match kind {
        CsAttributeKindView::Internal => Seq::empty(),
        CsAttributeKindView::Attribute { .. } => Seq::empty(),
        _ => common_attribute_diags(kind, span),
    }
}

/// The encoded-result rule: legal only on an operation with at least one
/// non-streamed return value.
pub open spec fn encoded_result_diags(
    has_non_streamed_return: bool,
    has_streamed_return: bool,
    span: Span,
) -> Seq<DiagnosticView> {
    if has_non_streamed_return {
        Seq::empty()
    } else {
        seq![encoded_result_diag(span, has_streamed_return)]
    }
}

pub open spec fn operation_attribute_diags(
    has_non_streamed_return: bool,
    has_streamed_return: bool,
    kind: CsAttributeKindView,
    span: Span,
) -> Seq<DiagnosticView> {
    match kind {
        CsAttributeKindView::EncodedResult => encoded_result_diags(
            has_non_streamed_return,
            has_streamed_return,
            span,
        ),
        _ => common_attribute_diags(kind, span),
    }
}

pub open spec fn custom_type_attribute_diags(kind: CsAttributeKindView, span: Span) -> Seq<DiagnosticView> {
    match kind {
        CsAttributeKindView::Custom { .. } => Seq::empty(),
        _ => common_attribute_diags(kind, span),
    }
}

pub open spec fn type_alias_attribute_diags(
    entity: EntityDataView,
    underlying: TypeRef,
    kind: CsAttributeKindView,
    span: Span,
) -> Seq<DiagnosticView> {
    match kind {
        CsAttributeKindView::Identifier { .. } => seq![
            inconsequential_identifier_diag(entity.span, entity.parser_scope),
        ],
        _ => data_type_attribute_diags(underlying.category, kind, span),
    }
}

pub open spec fn data_member_attribute_diags(
    data_type: TypeRef,
    kind: CsAttributeKindView,
    span: Span,
) -> Seq<DiagnosticView> {
    match kind {
        CsAttributeKindView::Identifier { .. } => Seq::empty(),
        CsAttributeKindView::Attribute { .. } => Seq::empty(),
        _ => data_type_attribute_diags(data_type.category, kind, span),
    }
}

pub open spec fn parameter_attribute_diags(
    data_type: TypeRef,
    kind: CsAttributeKindView,
    span: Span,
) -> Seq<DiagnosticView> {
    match kind {
        CsAttributeKindView::Identifier { .. } => Seq::empty(),
        _ => data_type_attribute_diags(data_type.category, kind, span),
    }
}

/// The diagnostics one attribute occurrence yields on a given node: exactly
/// one rule fires per occurrence, chosen by the node's kind.
pub open spec fn attribute_diags(node: NodeView, kind: CsAttributeKindView, span: Span) -> Seq<DiagnosticView> {
    match node {
        NodeView::Module { .. } => module_attribute_diags(kind, span),
        NodeView::Struct { .. } => struct_attribute_diags(kind, span),
        NodeView::Class { .. } => class_attribute_diags(kind, span),
        NodeView::Exception { .. } => exception_attribute_diags(kind, span),
        NodeView::Interface { .. } => interface_attribute_diags(kind, span),
        NodeView::Enum { .. } => enum_attribute_diags(kind, span),
        NodeView::Operation { has_non_streamed_return, has_streamed_return, .. } => operation_attribute_diags(
            has_non_streamed_return,
            has_streamed_return,
            kind,
            span,
        ),
        NodeView::CustomType { .. } => custom_type_attribute_diags(kind, span),
        NodeView::TypeAlias { entity, underlying } => type_alias_attribute_diags(
            entity,
            underlying,
            kind,
            span,
        ),
        NodeView::DataMember { data_type, .. } => data_member_attribute_diags(data_type, kind, span),
        NodeView::Parameter { data_type, .. } => parameter_attribute_diags(data_type, kind, span),
    }
}

/// The kind-specific legality diagnostics of a node, over its backend
/// attributes in order.
pub open spec fn legality_diags(node: NodeView, attrs: Seq<(CsAttributeKindView, Span)>) -> Seq<DiagnosticView>
    decreases attrs.len(),
{
    if attrs.len() == 0 {
        Seq::empty()
    } else {
        legality_diags(node, attrs.drop_last()) + attribute_diags(
            node,
            attrs.last().0,
            attrs.last().1,
        )
    }
}

/// The duplicate check: one diagnostic per backend attribute kind that
/// appears more than once, anchored at the kind's second occurrence.
pub open spec fn duplicate_diags(attrs: Seq<(CsAttributeKindView, Span)>) -> Seq<DiagnosticView>
    decreases attrs.len(),
{
    if attrs.len() == 0 {
        Seq::empty()
    } else {
        let prefix = attrs.drop_last();
        duplicate_diags(prefix) + if count_tag(prefix, attrs.last().0.tag()) == 1 {
            seq![duplicate_attribute_diag(attrs.last().0.tag(), attrs.last().1)]
        } else {
            Seq::<DiagnosticView>::empty()
        }
    }
}

/// The required-attribute check on a custom type: without a wire codec the
/// backend cannot encode or decode it.
pub open spec fn missing_custom_diags(entity: EntityDataView) -> Seq<DiagnosticView> {
    if count_tag(cs_attributes_view(entity.attributes), AttributeTag::Custom) == 0 {
        seq![missing_custom_diag(entity.span)]
    } else {
        Seq::<DiagnosticView>::empty()
    }
}

/// Everything the validator reports for one node, in order: the duplicate
/// check, then (for a custom type) the required-attribute check, then the
/// kind-specific legality check of each backend attribute.
pub open spec fn node_diags(node: NodeView) -> Seq<DiagnosticView> {
    let attrs = cs_attributes_view(node.entity().attributes);
    match node {
        NodeView::CustomType { entity } => duplicate_diags(attrs) + missing_custom_diags(entity)
            + legality_diags(node, attrs),
        _ => duplicate_diags(attrs) + legality_diags(node, attrs),
    }
}

/// Everything the validator reports for a file's nodes, in traversal order.
pub open spec fn nodes_diags(nodes: Seq<NodeView>) -> Seq<DiagnosticView>
    decreases nodes.len(),
{
    if nodes.len() == 0 {
        Seq::empty()
    } else {
        nodes_diags(nodes.drop_last()) + node_diags(nodes.last())
    }
}

pub open spec fn file_diags(file: SliceFileView) -> Seq<DiagnosticView> {
    nodes_diags(file.nodes)
}

/// Everything the validator reports for a whole run, across all loaded files
/// — source and included-only alike.
pub open spec fn files_diags(files: Seq<SliceFileView>) -> Seq<DiagnosticView>
    decreases files.len(),
{
    if files.len() == 0 {
        Seq::empty()
    } else {
        files_diags(files.drop_last()) + file_diags(files.last())
    }
}

/// The whole pass as a value transformation: files unchanged, diagnostics
/// extended by everything the traversals report.
pub open spec fn validated_view(data: CompilationDataView) -> CompilationDataView {
    CompilationDataView {
        files: data.files,
        diagnostics: data.diagnostics + files_diags(data.files),
    }
}

// ---------------------------------------------------------------------------
// Shared take/step lemmas for the loops below.
// ---------------------------------------------------------------------------

proof fn lemma_take_step<T>(s: Seq<T>, i: int)
    requires
        0 <= i < s.len(),
    ensures
        s.take(i + 1).drop_last() =~= s.take(i),
        s.take(i + 1).last() == s[i],
{
}

// ---------------------------------------------------------------------------
// The executable pass.
// ---------------------------------------------------------------------------

/// Extracts the backend-specific attributes of an attribute list, with their
/// spans, in insertion order; attributes unrelated to this backend are
/// ignored entirely.
pub fn cs_attributes(attributes: &Vec<Attribute>) -> (r: Vec<(CsAttributeKind, Span)>)
    ensures
        r.deep_view() == cs_attributes_view(attributes.deep_view()),
{
    let ghost a = attributes.deep_view();
    let mut r: Vec<(CsAttributeKind, Span)> = Vec::new();
    proof {
        assert(a.take(0) =~= Seq::<AttributeView>::empty());
        assert(r.deep_view() =~= cs_attributes_view(a.take(0)));
    }
    for i in 0..attributes.len()
        invariant
            a == attributes.deep_view(),
            r.deep_view() == cs_attributes_view(a.take(i as int)),
    {
        let ghost r_before = r.deep_view();
        match &attributes[i].kind {
            AttributeKind::Cs { kind } => {
                let span = attributes[i].span;
                r.push((kind.clone(), span));
                proof {
                    assert(r.deep_view() =~= r_before.push((kind@, span)));
                }
            },
            AttributeKind::General { .. } => {},
        }
        proof {
            lemma_take_step(a, i as int);
            assert(a[i as int] == attributes[i as int]@);
            assert(r.deep_view() =~= cs_attributes_view(a.take(i as int + 1)));
        }
    }
    proof {
        assert(a.take(attributes.len() as int) =~= a);
    }
    r
}

/// Reports that the attribute is not legal where it was written.
pub fn report_unexpected_attribute(
    attribute: &CsAttributeKind,
    span: Span,
    diagnostic_reporter: &mut DiagnosticReporter,
)
    ensures
        final(diagnostic_reporter)@ == old(diagnostic_reporter)@.push(
            unexpected_attribute_diag(attribute@, span),
        ),
{
    Diagnostic::new(DiagnosticKind::UnexpectedAttribute { attribute: attribute.directive() })
        .set_span(span)
        .report(diagnostic_reporter);
    proof {
        assert(diagnostic_reporter@.last() =~= unexpected_attribute_diag(attribute@, span));
        assert(diagnostic_reporter@ =~= old(diagnostic_reporter)@.push(
            unexpected_attribute_diag(attribute@, span),
        ));
    }
}

/// The common fallback rule shared by most node kinds.
pub fn validate_common_attributes(
    attribute: &CsAttributeKind,
    span: Span,
    diagnostic_reporter: &mut DiagnosticReporter,
)
    ensures
        final(diagnostic_reporter)@ == old(diagnostic_reporter)@ + common_attribute_diags(
            attribute@,
            span,
        ),
{
    match attribute {
        CsAttributeKind::Identifier { .. } => {},
        _ => report_unexpected_attribute(attribute, span, diagnostic_reporter),
    }
    proof {
        assert(diagnostic_reporter@ =~= old(diagnostic_reporter)@ + common_attribute_diags(
            attribute@,
            span,
        ));
    }
}

/// The encoded-result rule: the attribute is legal only when the operation
/// has at least one non-streamed return value; the note distinguishes a
/// streams-only operation from one that returns nothing.
pub fn validate_cs_encoded_result(
    has_non_streamed_return: bool,
    has_streamed_return: bool,
    span: Span,
    diagnostic_reporter: &mut DiagnosticReporter,
)
    ensures
        final(diagnostic_reporter)@ == old(diagnostic_reporter)@ + encoded_result_diags(
            has_non_streamed_return,
            has_streamed_return,
            span,
        ),
{
    if !has_non_streamed_return {
        let note = if has_streamed_return {
            "The 'cs::encodedResult' attribute is not applicable to an operation that only returns a stream.".to_owned()
        } else {
            "The 'cs::encodedResult' attribute is not applicable to an operation that does not return anything.".to_owned()
        };
        Diagnostic::new(DiagnosticKind::UnexpectedAttribute {
            attribute: "cs::encodedResult".to_owned(),
        }).set_span(span).add_note(note).report(diagnostic_reporter);
        proof {
            assert(diagnostic_reporter@.last().notes =~= seq![
                encoded_result_note(has_streamed_return),
            ]);
            assert(diagnostic_reporter@.last() =~= encoded_result_diag(
                span,
                has_streamed_return,
            ));
        }
    }
    proof {
        assert(diagnostic_reporter@ =~= old(diagnostic_reporter)@ + encoded_result_diags(
            has_non_streamed_return,
            has_streamed_return,
            span,
        ));
    }
}

/// On a sequence or dictionary reference, only the container override is
/// allowed.
pub fn validate_collection_attributes(
    attribute: &CsAttributeKind,
    span: Span,
    diagnostic_reporter: &mut DiagnosticReporter,
)
    ensures
        final(diagnostic_reporter)@ == old(diagnostic_reporter)@ + collection_attribute_diags(
            attribute@,
            span,
        ),
{
    match attribute {
        CsAttributeKind::Generic { .. } => {},
        _ => report_unexpected_attribute(attribute, span, diagnostic_reporter),
    }
    proof {
        assert(diagnostic_reporter@ =~= old(diagnostic_reporter)@ + collection_attribute_diags(
            attribute@,
            span,
        ));
    }
}

/// The data-type rule, applied to an attribute that delegation carried to a
/// type reference.
pub fn validate_data_type_attributes(
    data_type: &TypeRef,
    attribute: &CsAttributeKind,
    span: Span,
    diagnostic_reporter: &mut DiagnosticReporter,
)
    ensures
        final(diagnostic_reporter)@ == old(diagnostic_reporter)@ + data_type_attribute_diags(
            data_type.category,
            attribute@,
            span,
        ),
{
    match data_type.concrete_type() {
        TypeCategory::Sequence => validate_collection_attributes(attribute, span, diagnostic_reporter),
        TypeCategory::Dictionary => validate_collection_attributes(attribute, span, diagnostic_reporter),
        TypeCategory::Other => {
            report_unexpected_attribute(attribute, span, diagnostic_reporter);
            proof {
                assert(diagnostic_reporter@ =~= old(diagnostic_reporter)@
                    + data_type_attribute_diags(data_type.category, attribute@, span));
            }
        },
    }
}

/// The node-kind-independent duplicate check: one diagnostic per backend
/// attribute kind that appears more than once on the node.
pub fn validate_repeated_attributes(
    attributes: &Vec<(CsAttributeKind, Span)>,
    diagnostic_reporter: &mut DiagnosticReporter,
)
    ensures
        final(diagnostic_reporter)@ == old(diagnostic_reporter)@ + duplicate_diags(
            attributes.deep_view(),
        ),
{
    let ghost a = attributes.deep_view();
    proof {
        assert(a.take(0) =~= Seq::<(CsAttributeKindView, Span)>::empty());
        assert(diagnostic_reporter@ =~= old(diagnostic_reporter)@ + duplicate_diags(a.take(0)));
    }
    for i in 0..attributes.len()
        invariant
            a == attributes.deep_view(),
            diagnostic_reporter@ == old(diagnostic_reporter)@ + duplicate_diags(a.take(i as int)),
    {
        let tag_i = attributes[i].0.tag();
        proof {
            assert(a[i as int] == attributes[i as int].deep_view());
            assert(tag_i == a[i as int].0.tag());
            assert(a.take(0) =~= Seq::<(CsAttributeKindView, Span)>::empty());
        }
        let mut count: usize = 0;
        for j in 0..i
            invariant
                a == attributes.deep_view(),
                i < attributes.len(),
                tag_i == a[i as int].0.tag(),
                count <= j,
                count as int == count_tag(a.take(j as int), tag_i),
        {
            if attributes[j].0.tag() == tag_i {
                count = count + 1;
            }
            proof {
                lemma_take_step(a, j as int);
                assert(a[j as int] == attributes[j as int].deep_view());
            }
        }
        if count == 1 {
            let directive = attributes[i].0.directive();
            let span = attributes[i].1;
            Diagnostic::new(DiagnosticKind::DuplicateAttribute { attribute: directive })
                .set_span(span)
                .report(diagnostic_reporter);
            proof {
                assert(diagnostic_reporter@.last() =~= duplicate_attribute_diag(
                    tag_i,
                    a[i as int].1,
                ));
            }
        }
        proof {
            lemma_take_step(a, i as int);
            assert(diagnostic_reporter@ =~= old(diagnostic_reporter)@ + duplicate_diags(
                a.take(i as int + 1),
            ));
        }
    }
    proof {
        assert(a.take(attributes.len() as int) =~= a);
    }
}

/// Visits all the elements in a file to check for errors and warnings
/// specific to this backend. This is the final validation step, and the last
/// phase of compilation before code generation occurs.
pub struct CsValidator {
    pub diagnostic_reporter: DiagnosticReporter,
}

impl CsValidator {
    pub fn visit_module_start(&mut self, module_def: &EntityData)
        ensures
            final(self).diagnostic_reporter@ == old(self).diagnostic_reporter@ + node_diags(
                NodeView::Module { entity: module_def@ },
            ),
    {
        let ghost node = NodeView::Module { entity: module_def@ };
        let attributes = cs_attributes(&module_def.attributes);
        let ghost a = attributes.deep_view();
        validate_repeated_attributes(&attributes, &mut self.diagnostic_reporter);
        proof {
            assert(a.take(0) =~= Seq::<(CsAttributeKindView, Span)>::empty());
            assert(self.diagnostic_reporter@ =~= old(self).diagnostic_reporter@ + duplicate_diags(
                a,
            ) + legality_diags(node, a.take(0)));
        }
        for i in 0..attributes.len()
            invariant
                a == attributes.deep_view(),
                node == (NodeView::Module { entity: module_def@ }),
                self.diagnostic_reporter@ == old(self).diagnostic_reporter@ + duplicate_diags(a)
                    + legality_diags(node, a.take(i as int)),
        {
            let attribute = &attributes[i].0;
            let span = attributes[i].1;
            proof {
                assert(a[i as int] == attributes[i as int].deep_view());
            }
            match attribute {
                CsAttributeKind::Namespace { .. } => {},
                CsAttributeKind::Identifier { .. } => {
                    Diagnostic::new(DiagnosticKind::UnexpectedAttribute {
                        attribute: "cs::identifier".to_owned(),
                    }).set_span(span)
                        .add_note("To rename a module use cs::namespace instead".to_owned())
                        .report(&mut self.diagnostic_reporter);
                    proof {
                        assert(self.diagnostic_reporter@.last().notes =~= seq![
                            "To rename a module use cs::namespace instead"@,
                        ]);
                        assert(self.diagnostic_reporter@.last() =~= module_identifier_diag(span));
                    }
                },
                CsAttributeKind::Internal => {},
                _ => validate_common_attributes(attribute, span, &mut self.diagnostic_reporter),
            }
            proof {
                lemma_take_step(a, i as int);
                assert(self.diagnostic_reporter@ =~= old(self).diagnostic_reporter@
                    + duplicate_diags(a) + legality_diags(node, a.take(i as int + 1)));
            }
        }
        proof {
            assert(a.take(attributes.len() as int) =~= a);
        }
    }

    pub fn visit_struct_start(&mut self, struct_def: &EntityData)
        ensures
            final(self).diagnostic_reporter@ == old(self).diagnostic_reporter@ + node_diags(
                NodeView::Struct { entity: struct_def@ },
            ),
    {
        let ghost node = NodeView::Struct { entity: struct_def@ };
        let attributes = cs_attributes(&struct_def.attributes);
        let ghost a = attributes.deep_view();
        validate_repeated_attributes(&attributes, &mut self.diagnostic_reporter);
        proof {
            assert(a.take(0) =~= Seq::<(CsAttributeKindView, Span)>::empty());
            assert(self.diagnostic_reporter@ =~= old(self).diagnostic_reporter@ + duplicate_diags(
                a,
            ) + legality_diags(node, a.take(0)));
        }
        for i in 0..attributes.len()
            invariant
                a == attributes.deep_view(),
                node == (NodeView::Struct { entity: struct_def@ }),
                self.diagnostic_reporter@ == old(self).diagnostic_reporter@ + duplicate_diags(a)
                    + legality_diags(node, a.take(i as int)),
        {
            let attribute = &attributes[i].0;
            let span = attributes[i].1;
            proof {
                assert(a[i as int] == attributes[i as int].deep_view());
            }
            match attribute {
                CsAttributeKind::Readonly => {},
                CsAttributeKind::Internal => {},
                CsAttributeKind::Attribute { .. } => {},
                _ => validate_common_attributes(attribute, span, &mut self.diagnostic_reporter),
            }
            proof {
                lemma_take_step(a, i as int);
                assert(self.diagnostic_reporter@ =~= old(self).diagnostic_reporter@
                    + duplicate_diags(a) + legality_diags(node, a.take(i as int + 1)));
            }
        }
        proof {
            assert(a.take(attributes.len() as int) =~= a);
        }
    }

    pub fn visit_class_start(&mut self, class_def: &EntityData)
        ensures
            final(self).diagnostic_reporter@ == old(self).diagnostic_reporter@ + node_diags(
                NodeView::Class { entity: class_def@ },
            ),
    {
        let ghost node = NodeView::Class { entity: class_def@ };
        let attributes = cs_attributes(&class_def.attributes);
        let ghost a = attributes.deep_view();
        validate_repeated_attributes(&attributes, &mut self.diagnostic_reporter);
        proof {
            assert(a.take(0) =~= Seq::<(CsAttributeKindView, Span)>::empty());
            assert(self.diagnostic_reporter@ =~= old(self).diagnostic_reporter@ + duplicate_diags(
                a,
            ) + legality_diags(node, a.take(0)));
        }
        for i in 0..attributes.len()
            invariant
                a == attributes.deep_view(),
                node == (NodeView::Class { entity: class_def@ }),
                self.diagnostic_reporter@ == old(self).diagnostic_reporter@ + duplicate_diags(a)
                    + legality_diags(node, a.take(i as int)),
        {
            let attribute = &attributes[i].0;
            let span = attributes[i].1;
            proof {
                assert(a[i as int] == attributes[i as int].deep_view());
            }
            match attribute {
                CsAttributeKind::Internal => {},
                CsAttributeKind::Attribute { .. } => {},
                _ => validate_common_attributes(attribute, span, &mut self.diagnostic_reporter),
            }
            proof {
                lemma_take_step(a, i as int);
                assert(self.diagnostic_reporter@ =~= old(self).diagnostic_reporter@
                    + duplicate_diags(a) + legality_diags(node, a.take(i as int + 1)));
            }
        }
        proof {
            assert(a.take(attributes.len() as int) =~= a);
        }
    }

    pub fn visit_exception_start(&mut self, exception_def: &EntityData)
        ensures
            final(self).diagnostic_reporter@ == old(self).diagnostic_reporter@ + node_diags(
                NodeView::Exception { entity: exception_def@ },
            ),
    {
        let ghost node = NodeView::Exception { entity: exception_def@ };
        let attributes = cs_attributes(&exception_def.attributes);
        let ghost a = attributes.deep_view();
        validate_repeated_attributes(&attributes, &mut self.diagnostic_reporter);
        proof {
            assert(a.take(0) =~= Seq::<(CsAttributeKindView, Span)>::empty());
            assert(self.diagnostic_reporter@ =~= old(self).diagnostic_reporter@ + duplicate_diags(
                a,
            ) + legality_diags(node, a.take(0)));
        }
        for i in 0..attributes.len()
            invariant
                a == attributes.deep_view(),
                node == (NodeView::Exception { entity: exception_def@ }),
                self.diagnostic_reporter@ == old(self).diagnostic_reporter@ + duplicate_diags(a)
                    + legality_diags(node, a.take(i as int)),
        {
            let attribute = &attributes[i].0;
            let span = attributes[i].1;
            proof {
                assert(a[i as int] == attributes[i as int].deep_view());
            }
            match attribute {
                CsAttributeKind::Internal => {},
                CsAttributeKind::Attribute { .. } => {},
                _ => validate_common_attributes(attribute, span, &mut self.diagnostic_reporter),
            }
            proof {
                lemma_take_step(a, i as int);
                assert(self.diagnostic_reporter@ =~= old(self).diagnostic_reporter@
                    + duplicate_diags(a) + legality_diags(node, a.take(i as int + 1)));
            }
        }
        proof {
            assert(a.take(attributes.len() as int) =~= a);
        }
    }

    pub fn visit_interface_start(&mut self, interface_def: &EntityData)
        ensures
            final(self).diagnostic_reporter@ == old(self).diagnostic_reporter@ + node_diags(
                NodeView::Interface { entity: interface_def@ },
            ),
    {
        let ghost node = NodeView::Interface { entity: interface_def@ };
        let attributes = cs_attributes(&interface_def.attributes);
        let ghost a = attributes.deep_view();
        validate_repeated_attributes(&attributes, &mut self.diagnostic_reporter);
        proof {
            assert(a.take(0) =~= Seq::<(CsAttributeKindView, Span)>::empty());
            assert(self.diagnostic_reporter@ =~= old(self).diagnostic_reporter@ + duplicate_diags(
                a,
            ) + legality_diags(node, a.take(0)));
        }
        for i in 0..attributes.len()
            invariant
                a == attributes.deep_view(),
                node == (NodeView::Interface { entity: interface_def@ }),
                self.diagnostic_reporter@ == old(self).diagnostic_reporter@ + duplicate_diags(a)
                    + legality_diags(node, a.take(i as int)),
        {
            let attribute = &attributes[i].0;
            let span = attributes[i].1;
            proof {
                assert(a[i as int] == attributes[i as int].deep_view());
            }
            match attribute {
                CsAttributeKind::Internal => {},
                _ => validate_common_attributes(attribute, span, &mut self.diagnostic_reporter),
            }
            proof {
                lemma_take_step(a, i as int);
                assert(self.diagnostic_reporter@ =~= old(self).diagnostic_reporter@
                    + duplicate_diags(a) + legality_diags(node, a.take(i as int + 1)));
            }
        }
        proof {
            assert(a.take(attributes.len() as int) =~= a);
        }
    }

    pub fn visit_enum_start(&mut self, enum_def: &EntityData)
        ensures
            final(self).diagnostic_reporter@ == old(self).diagnostic_reporter@ + node_diags(
                NodeView::Enum { entity: enum_def@ },
            ),
    {
        let ghost node = NodeView::Enum { entity: enum_def@ };
        let attributes = cs_attributes(&enum_def.attributes);
        let ghost a = attributes.deep_view();
        validate_repeated_attributes(&attributes, &mut self.diagnostic_reporter);
        proof {
            assert(a.take(0) =~= Seq::<(CsAttributeKindView, Span)>::empty());
            assert(self.diagnostic_reporter@ =~= old(self).diagnostic_reporter@ + duplicate_diags(
                a,
            ) + legality_diags(node, a.take(0)));
        }
        for i in 0..attributes.len()
            invariant
                a == attributes.deep_view(),
                node == (NodeView::Enum { entity: enum_def@ }),
                self.diagnostic_reporter@ == old(self).diagnostic_reporter@ + duplicate_diags(a)
                    + legality_diags(node, a.take(i as int)),
        {
            let attribute = &attributes[i].0;
            let span = attributes[i].1;
            proof {
                assert(a[i as int] == attributes[i as int].deep_view());
            }
            match attribute {
                CsAttributeKind::Internal => {},
                CsAttributeKind::Attribute { .. } => {},
                _ => validate_common_attributes(attribute, span, &mut self.diagnostic_reporter),
            }
            proof {
                lemma_take_step(a, i as int);
                assert(self.diagnostic_reporter@ =~= old(self).diagnostic_reporter@
                    + duplicate_diags(a) + legality_diags(node, a.take(i as int + 1)));
            }
        }
        proof {
            assert(a.take(attributes.len() as int) =~= a);
        }
    }

    pub fn visit_operation_start(
        &mut self,
        operation: &EntityData,
        has_non_streamed_return: bool,
        has_streamed_return: bool,
    )
        ensures
            final(self).diagnostic_reporter@ == old(self).diagnostic_reporter@ + node_diags(
                NodeView::Operation {
                    entity: operation@,
                    has_non_streamed_return,
                    has_streamed_return,
                },
            ),
    {
        let ghost node = NodeView::Operation {
            entity: operation@,
            has_non_streamed_return,
            has_streamed_return,
        };
        let attributes = cs_attributes(&operation.attributes);
        let ghost a = attributes.deep_view();
        validate_repeated_attributes(&attributes, &mut self.diagnostic_reporter);
        proof {
            assert(a.take(0) =~= Seq::<(CsAttributeKindView, Span)>::empty());
            assert(self.diagnostic_reporter@ =~= old(self).diagnostic_reporter@ + duplicate_diags(
                a,
            ) + legality_diags(node, a.take(0)));
        }
        for i in 0..attributes.len()
            invariant
                a == attributes.deep_view(),
                node == (NodeView::Operation { entity: operation@, has_non_streamed_return, has_streamed_return, }),
                self.diagnostic_reporter@ == old(self).diagnostic_reporter@ + duplicate_diags(a)
                    + legality_diags(node, a.take(i as int)),
        {
            let attribute = &attributes[i].0;
            let span = attributes[i].1;
            proof {
                assert(a[i as int] == attributes[i as int].deep_view());
            }
            match attribute {
                CsAttributeKind::EncodedResult => validate_cs_encoded_result(
                    has_non_streamed_return,
                    has_streamed_return,
                    span,
                    &mut self.diagnostic_reporter,
                ),
                _ => validate_common_attributes(attribute, span, &mut self.diagnostic_reporter),
            }
            proof {
                lemma_take_step(a, i as int);
                assert(self.diagnostic_reporter@ =~= old(self).diagnostic_reporter@
                    + duplicate_diags(a) + legality_diags(node, a.take(i as int + 1)));
            }
        }
        proof {
            assert(a.take(attributes.len() as int) =~= a);
        }
    }

    pub fn visit_custom_type(&mut self, custom_type: &EntityData)
        ensures
            final(self).diagnostic_reporter@ == old(self).diagnostic_reporter@ + node_diags(
                NodeView::CustomType { entity: custom_type@ },
            ),
    {
        let ghost node = NodeView::CustomType { entity: custom_type@ };
        let attributes = cs_attributes(&custom_type.attributes);
        let ghost a = attributes.deep_view();
        validate_repeated_attributes(&attributes, &mut self.diagnostic_reporter);
        // The wire-codec attribute is required on custom types: without it the
        // backend does not know how to encode or decode them.
        let mut has_custom = false;
        proof {
            assert(a.take(0) =~= Seq::<(CsAttributeKindView, Span)>::empty());
        }
        for i in 0..attributes.len()
            invariant
                a == attributes.deep_view(),
                has_custom == (count_tag(a.take(i as int), AttributeTag::Custom) != 0),
        {
            proof {
                assert(a[i as int] == attributes[i as int].deep_view());
                lemma_count_tag_nonneg(a.take(i as int), AttributeTag::Custom);
            }
            if attributes[i].0.tag() == AttributeTag::Custom {
                has_custom = true;
            }
            proof {
                lemma_take_step(a, i as int);
            }
        }
        proof {
            assert(a.take(attributes.len() as int) =~= a);
        }
        if !has_custom {
            Diagnostic::new(DiagnosticKind::MissingRequiredAttribute {
                attribute: "cs::custom".to_owned(),
            }).set_span(custom_type.span).report(&mut self.diagnostic_reporter);
            proof {
                assert(self.diagnostic_reporter@.last() =~= missing_custom_diag(
                    custom_type@.span,
                ));
            }
        }
        proof {
            assert(self.diagnostic_reporter@ =~= old(self).diagnostic_reporter@ + duplicate_diags(
                a,
            ) + missing_custom_diags(custom_type@) + legality_diags(node, a.take(0)));
        }
        for i in 0..attributes.len()
            invariant
                a == attributes.deep_view(),
                node == (NodeView::CustomType { entity: custom_type@ }),
                self.diagnostic_reporter@ == old(self).diagnostic_reporter@ + duplicate_diags(a)
                    + missing_custom_diags(custom_type@) + legality_diags(node, a.take(i as int)),
        {
            let attribute = &attributes[i].0;
            let span = attributes[i].1;
            proof {
                assert(a[i as int] == attributes[i as int].deep_view());
            }
            match attribute {
                CsAttributeKind::Custom { .. } => {},
                _ => validate_common_attributes(attribute, span, &mut self.diagnostic_reporter),
            }
            proof {
                lemma_take_step(a, i as int);
                assert(self.diagnostic_reporter@ =~= old(self).diagnostic_reporter@
                    + duplicate_diags(a) + missing_custom_diags(custom_type@) + legality_diags(
                    node,
                    a.take(i as int + 1),
                ));
            }
        }
        proof {
            assert(a.take(attributes.len() as int) =~= a);
        }
    }

    pub fn visit_type_alias(&mut self, type_alias: &EntityData, underlying: &TypeRef)
        ensures
            final(self).diagnostic_reporter@ == old(self).diagnostic_reporter@ + node_diags(
                NodeView::TypeAlias { entity: type_alias@, underlying: *underlying },
            ),
    {
        let ghost node = NodeView::TypeAlias { entity: type_alias@, underlying: *underlying };
        let attributes = cs_attributes(&type_alias.attributes);
        let ghost a = attributes.deep_view();
        validate_repeated_attributes(&attributes, &mut self.diagnostic_reporter);
        proof {
            assert(a.take(0) =~= Seq::<(CsAttributeKindView, Span)>::empty());
            assert(self.diagnostic_reporter@ =~= old(self).diagnostic_reporter@ + duplicate_diags(
                a,
            ) + legality_diags(node, a.take(0)));
        }
        for i in 0..attributes.len()
            invariant
                a == attributes.deep_view(),
                node == (NodeView::TypeAlias { entity: type_alias@, underlying: *underlying }),
                self.diagnostic_reporter@ == old(self).diagnostic_reporter@ + duplicate_diags(a)
                    + legality_diags(node, a.take(i as int)),
        {
            let attribute = &attributes[i].0;
            let span = attributes[i].1;
            proof {
                assert(a[i as int] == attributes[i as int].deep_view());
            }
            match attribute {
                CsAttributeKind::Identifier { .. } => {
                    Diagnostic::new(DiagnosticKind::InconsequentialUseOfAttribute {
                        attribute: "cs::identifier".to_owned(),
                        kind: "typealias".to_owned(),
                    }).set_span(type_alias.span)
                        .set_scope(type_alias.parser_scope.clone())
                        .report(&mut self.diagnostic_reporter);
                    proof {
                        assert(self.diagnostic_reporter@.last() =~= inconsequential_identifier_diag(
                            type_alias@.span,
                            type_alias@.parser_scope,
                        ));
                    }
                },
                _ => validate_data_type_attributes(
                    underlying,
                    attribute,
                    span,
                    &mut self.diagnostic_reporter,
                ),
            }
            proof {
                lemma_take_step(a, i as int);
                assert(self.diagnostic_reporter@ =~= old(self).diagnostic_reporter@
                    + duplicate_diags(a) + legality_diags(node, a.take(i as int + 1)));
            }
        }
        proof {
            assert(a.take(attributes.len() as int) =~= a);
        }
    }

    pub fn visit_data_member(&mut self, data_member: &EntityData, data_type: &TypeRef)
        ensures
            final(self).diagnostic_reporter@ == old(self).diagnostic_reporter@ + node_diags(
                NodeView::DataMember { entity: data_member@, data_type: *data_type },
            ),
    {
        let ghost node = NodeView::DataMember { entity: data_member@, data_type: *data_type };
        let attributes = cs_attributes(&data_member.attributes);
        let ghost a = attributes.deep_view();
        validate_repeated_attributes(&attributes, &mut self.diagnostic_reporter);
        proof {
            assert(a.take(0) =~= Seq::<(CsAttributeKindView, Span)>::empty());
            assert(self.diagnostic_reporter@ =~= old(self).diagnostic_reporter@ + duplicate_diags(
                a,
            ) + legality_diags(node, a.take(0)));
        }
        for i in 0..attributes.len()
            invariant
                a == attributes.deep_view(),
                node == (NodeView::DataMember { entity: data_member@, data_type: *data_type }),
                self.diagnostic_reporter@ == old(self).diagnostic_reporter@ + duplicate_diags(a)
                    + legality_diags(node, a.take(i as int)),
        {
            let attribute = &attributes[i].0;
            let span = attributes[i].1;
            proof {
                assert(a[i as int] == attributes[i as int].deep_view());
            }
            match attribute {
                CsAttributeKind::Identifier { .. } => {},
                CsAttributeKind::Attribute { .. } => {},
                _ => validate_data_type_attributes(
                    data_type,
                    attribute,
                    span,
                    &mut self.diagnostic_reporter,
                ),
            }
            proof {
                lemma_take_step(a, i as int);
                assert(self.diagnostic_reporter@ =~= old(self).diagnostic_reporter@
                    + duplicate_diags(a) + legality_diags(node, a.take(i as int + 1)));
            }
        }
        proof {
            assert(a.take(attributes.len() as int) =~= a);
        }
    }

    pub fn visit_parameter(&mut self, parameter: &EntityData, data_type: &TypeRef)
        ensures
            final(self).diagnostic_reporter@ == old(self).diagnostic_reporter@ + node_diags(
                NodeView::Parameter { entity: parameter@, data_type: *data_type },
            ),
    {
        let ghost node = NodeView::Parameter { entity: parameter@, data_type: *data_type };
        let attributes = cs_attributes(&parameter.attributes);
        let ghost a = attributes.deep_view();
        validate_repeated_attributes(&attributes, &mut self.diagnostic_reporter);
        proof {
            assert(a.take(0) =~= Seq::<(CsAttributeKindView, Span)>::empty());
            assert(self.diagnostic_reporter@ =~= old(self).diagnostic_reporter@ + duplicate_diags(
                a,
            ) + legality_diags(node, a.take(0)));
        }
        for i in 0..attributes.len()
            invariant
                a == attributes.deep_view(),
                node == (NodeView::Parameter { entity: parameter@, data_type: *data_type }),
                self.diagnostic_reporter@ == old(self).diagnostic_reporter@ + duplicate_diags(a)
                    + legality_diags(node, a.take(i as int)),
        {
            let attribute = &attributes[i].0;
            let span = attributes[i].1;
            proof {
                assert(a[i as int] == attributes[i as int].deep_view());
            }
            match attribute {
                CsAttributeKind::Identifier { .. } => {},
                _ => validate_data_type_attributes(
                    data_type,
                    attribute,
                    span,
                    &mut self.diagnostic_reporter,
                ),
            }
            proof {
                lemma_take_step(a, i as int);
                assert(self.diagnostic_reporter@ =~= old(self).diagnostic_reporter@
                    + duplicate_diags(a) + legality_diags(node, a.take(i as int + 1)));
            }
        }
        proof {
            assert(a.take(attributes.len() as int) =~= a);
        }
    }

    /// Applies the kind-specific check of one node; the match is exhaustive
    /// over the closed set of node kinds.
    pub fn visit_node(&mut self, node: &Node)
        ensures
            final(self).diagnostic_reporter@ == old(self).diagnostic_reporter@ + node_diags(node@),
    {
        match node {
            Node::Module { entity } => self.visit_module_start(entity),
            Node::Struct { entity } => self.visit_struct_start(entity),
            Node::Class { entity } => self.visit_class_start(entity),
            Node::Exception { entity } => self.visit_exception_start(entity),
            Node::Interface { entity } => self.visit_interface_start(entity),
            Node::Enum { entity } => self.visit_enum_start(entity),
            Node::Operation { entity, has_non_streamed_return, has_streamed_return } => self
                .visit_operation_start(entity, *has_non_streamed_return, *has_streamed_return),
            Node::CustomType { entity } => self.visit_custom_type(entity),
            Node::TypeAlias { entity, underlying } => self.visit_type_alias(entity, underlying),
            Node::DataMember { entity, data_type } => self.visit_data_member(entity, data_type),
            Node::Parameter { entity, data_type } => self.visit_parameter(entity, data_type),
        }
    }
}

impl SliceFile {
    /// The traversal entry point: hands every node, in order, to the visitor.
    pub fn visit_with(&self, visitor: &mut CsValidator)
        ensures
            final(visitor).diagnostic_reporter@ == old(visitor).diagnostic_reporter@ + file_diags(
                self@,
            ),
    {
        let ghost ns = self.nodes.deep_view();
        proof {
            assert(ns.take(0) =~= Seq::<NodeView>::empty());
            assert(visitor.diagnostic_reporter@ =~= old(visitor).diagnostic_reporter@
                + nodes_diags(ns.take(0)));
        }
        for i in 0..self.nodes.len()
            invariant
                ns == self.nodes.deep_view(),
                visitor.diagnostic_reporter@ == old(visitor).diagnostic_reporter@ + nodes_diags(
                    ns.take(i as int),
                ),
        {
            visitor.visit_node(&self.nodes[i]);
            proof {
                lemma_take_step(ns, i as int);
                assert(ns[i as int] == self.nodes[i as int].deep_view());
                assert(visitor.diagnostic_reporter@ =~= old(visitor).diagnostic_reporter@
                    + nodes_diags(ns.take(i as int + 1)));
            }
        }
        proof {
            assert(ns.take(self.nodes.len() as int) =~= ns);
        }
    }
}

/// The validation pass: traverses every loaded file — source and
/// included-only alike — and checks its backend-specific attributes. The tree
/// is never mutated; failures are recorded as diagnostics, and the pass hands
/// the data on as a failure exactly when the run's diagnostics now hold an
/// error.
pub fn validate_cs_attributes(compilation_data: CompilationData) -> (r: Result<
    CompilationData,
    CompilationData,
>)
    ensures
        (match r {
            Result::Ok(d) => d@ == validated_view(compilation_data@) && !validated_view(
                compilation_data@,
            ).has_errors(),
            Result::Err(d) => d@ == validated_view(compilation_data@) && validated_view(
                compilation_data@,
            ).has_errors(),
        }),
{
    let ghost orig = compilation_data@;
    let CompilationData { files, diagnostic_reporter } = compilation_data;
    let mut visitor = CsValidator { diagnostic_reporter };
    let ghost fs = files.deep_view();
    proof {
        assert(fs.take(0) =~= Seq::<SliceFileView>::empty());
        assert(visitor.diagnostic_reporter@ =~= orig.diagnostics + files_diags(fs.take(0)));
    }
    for i in 0..files.len()
        invariant
            fs == files.deep_view(),
            visitor.diagnostic_reporter@ == orig.diagnostics + files_diags(fs.take(i as int)),
    {
        files[i].visit_with(&mut visitor);
        proof {
            lemma_take_step(fs, i as int);
            assert(fs[i as int] == files[i as int].deep_view());
            assert(visitor.diagnostic_reporter@ =~= orig.diagnostics + files_diags(
                fs.take(i as int + 1),
            ));
        }
    }
    proof {
        assert(fs.take(files.len() as int) =~= fs);
    }
    let data = CompilationData { files, diagnostic_reporter: visitor.diagnostic_reporter };
    proof {
        assert(data@ =~= validated_view(orig));
    }
    data.into_result()
}

// ---------------------------------------------------------------------------
// Laws of the validator.
// ---------------------------------------------------------------------------

/// Whether the underlying type of a reference admits the container override.
pub open spec fn is_collection(data_type: TypeRef) -> bool {
    data_type.category is Sequence || data_type.category is Dictionary
}

/// The legality table itself, written out independently of the diagnostics:
/// one attribute occurrence on a node yields no error exactly when this
/// predicate holds of the pair.
pub open spec fn attribute_allowed(node: NodeView, kind: CsAttributeKindView) -> bool {
    match node {
        NodeView::Module { .. } => kind is Namespace || kind is Internal,
        NodeView::Struct { .. } => kind is Readonly || kind is Internal || kind is Attribute
            || kind is Identifier,
        NodeView::Class { .. } => kind is Internal || kind is Attribute || kind is Identifier,
        NodeView::Exception { .. } => kind is Internal || kind is Attribute || kind is Identifier,
        NodeView::Interface { .. } => kind is Internal || kind is Identifier,
        NodeView::Enum { .. } => kind is Internal || kind is Attribute || kind is Identifier,
        NodeView::Operation { has_non_streamed_return, .. } => (kind is EncodedResult
            && has_non_streamed_return) || kind is Identifier,
        NodeView::CustomType { .. } => kind is Custom || kind is Identifier,
        NodeView::TypeAlias { underlying, .. } => kind is Identifier || (is_collection(underlying)
            && kind is Generic),
        NodeView::DataMember { data_type, .. } => kind is Identifier || kind is Attribute || (
        is_collection(data_type) && kind is Generic),
        NodeView::Parameter { data_type, .. } => kind is Identifier || (is_collection(data_type)
            && kind is Generic),
    }
}

/// Attaching an attribute where the legality table allows it yields no
/// error; attaching it anywhere else yields exactly one unexpected-attribute
/// error naming that attribute's directive, anchored at that occurrence's
/// span.
pub proof fn lemma_attribute_legality(node: NodeView, kind: CsAttributeKindView, span: Span)
    ensures
        attribute_allowed(node, kind) ==> !has_error_diag(attribute_diags(node, kind, span)),
        !attribute_allowed(node, kind) ==> ({
            let ds = attribute_diags(node, kind, span);
            ds.len() == 1 && ds[0].is_error() && ds[0].span == Some(span) && ds[0].kind
                == (DiagnosticKindView::UnexpectedAttribute {
                attribute: directive_of(kind.tag()),
            })
        }),
{
    let ds = attribute_diags(node, kind, span);
    if attribute_allowed(node, kind) {
        assert(forall|i: int| 0 <= i < ds.len() ==> !ds[i].is_error());
    }
}

/// The node-level face of the legality table: on a node that carries exactly
/// one backend attribute (and is not a custom type, whose required-attribute
/// check is its own law), the validator reports exactly what the one
/// occurrence's rule yields — one named error at that occurrence's span when
/// the table forbids the pair, nothing or one warning when it allows it.
pub proof fn lemma_single_attribute_node(node: NodeView, kind: CsAttributeKindView, span: Span)
    requires
        cs_attributes_view(node.entity().attributes) == seq![(kind, span)],
        !(node is CustomType),
    ensures
        node_diags(node) == attribute_diags(node, kind, span),
{
    let attrs = seq![(kind, span)];
    assert(attrs.last() == (kind, span));
    assert(attrs.drop_last() =~= Seq::<(CsAttributeKindView, Span)>::empty());
    assert(count_tag(attrs.drop_last(), kind.tag()) == 0);
    assert(duplicate_diags(attrs.drop_last()) =~= Seq::<DiagnosticView>::empty());
    assert(duplicate_diags(attrs) =~= Seq::<DiagnosticView>::empty());
    assert(legality_diags(node, attrs.drop_last()) =~= Seq::<DiagnosticView>::empty());
    assert(legality_diags(node, attrs) =~= attribute_diags(node, kind, span));
    assert(node_diags(node) =~= attribute_diags(node, kind, span));
}

/// How many diagnostics of a sequence report a missing required attribute.
pub open spec fn count_missing_required(diags: Seq<DiagnosticView>) -> int
    decreases diags.len(),
{
    if diags.len() == 0 {
        0
    } else {
        count_missing_required(diags.drop_last()) + if diags.last().kind
            is MissingRequiredAttribute {
            1int
        } else {
            0int
        }
    }
}

proof fn lemma_count_missing_required_concat(a: Seq<DiagnosticView>, b: Seq<DiagnosticView>)
    ensures
        count_missing_required(a + b) == count_missing_required(a) + count_missing_required(b),
    decreases b.len(),
{
    if b.len() == 0 {
        assert(a + b =~= a);
    } else {
        lemma_count_missing_required_concat(a, b.drop_last());
        assert((a + b).drop_last() =~= a + b.drop_last());
        assert((a + b).last() == b.last());
    }
}

proof fn lemma_count_missing_required_single(d: DiagnosticView)
    ensures
        count_missing_required(seq![d]) == (if d.kind is MissingRequiredAttribute {
            1int
        } else {
            0int
        }),
{
    let s = seq![d];
    assert(s.drop_last() =~= Seq::<DiagnosticView>::empty());
    assert(s.last() == d);
    assert(count_missing_required(s.drop_last()) == 0);
}

proof fn lemma_attribute_diags_no_missing(node: NodeView, kind: CsAttributeKindView, span: Span)
    ensures
        count_missing_required(attribute_diags(node, kind, span)) == 0,
{
    let ds = attribute_diags(node, kind, span);
    if ds.len() != 0 {
        assert(ds.len() == 1);
        assert(ds =~= seq![ds[0]]);
        assert(!(ds[0].kind is MissingRequiredAttribute));
        lemma_count_missing_required_single(ds[0]);
    }
}

proof fn lemma_duplicate_diags_no_missing(attrs: Seq<(CsAttributeKindView, Span)>)
    ensures
        count_missing_required(duplicate_diags(attrs)) == 0,
    decreases attrs.len(),
{
    if attrs.len() != 0 {
        let prefix = attrs.drop_last();
        lemma_duplicate_diags_no_missing(prefix);
        if count_tag(prefix, attrs.last().0.tag()) == 1 {
            lemma_count_missing_required_concat(
                duplicate_diags(prefix),
                seq![duplicate_attribute_diag(attrs.last().0.tag(), attrs.last().1)],
            );
            lemma_count_missing_required_single(
                duplicate_attribute_diag(attrs.last().0.tag(), attrs.last().1),
            );
        } else {
            lemma_count_missing_required_concat(
                duplicate_diags(prefix),
                Seq::<DiagnosticView>::empty(),
            );
        }
    }
}

proof fn lemma_legality_diags_no_missing(node: NodeView, attrs: Seq<(CsAttributeKindView, Span)>)
    ensures
        count_missing_required(legality_diags(node, attrs)) == 0,
    decreases attrs.len(),
{
    if attrs.len() != 0 {
        lemma_legality_diags_no_missing(node, attrs.drop_last());
        lemma_attribute_diags_no_missing(node, attrs.last().0, attrs.last().1);
        lemma_count_missing_required_concat(
            legality_diags(node, attrs.drop_last()),
            attribute_diags(node, attrs.last().0, attrs.last().1),
        );
    }
}

/// A custom type yields exactly one missing-required-attribute error when it
/// carries no wire-codec attribute at all, and none otherwise — in
/// particular, a repeated wire-codec attribute yields a duplicate diagnostic
/// but never a false missing-attribute report.
pub proof fn lemma_custom_type_requires_custom(entity: EntityDataView)
    ensures
        ({
            let attrs = cs_attributes_view(entity.attributes);
            let ds = node_diags(NodeView::CustomType { entity });
            count_missing_required(ds) == (if count_tag(attrs, AttributeTag::Custom) == 0 {
                1int
            } else {
                0int
            })
        }),
{
    let node = NodeView::CustomType { entity };
    let attrs = cs_attributes_view(entity.attributes);
    lemma_duplicate_diags_no_missing(attrs);
    lemma_legality_diags_no_missing(node, attrs);
    lemma_count_missing_required_concat(duplicate_diags(attrs), missing_custom_diags(entity));
    lemma_count_missing_required_concat(
        duplicate_diags(attrs) + missing_custom_diags(entity),
        legality_diags(node, attrs),
    );
    if count_tag(attrs, AttributeTag::Custom) == 0 {
        assert(missing_custom_diags(entity) =~= seq![missing_custom_diag(entity.span)]);
        lemma_count_missing_required_single(missing_custom_diag(entity.span));
    }
}

/// A rename attribute on a type alias yields exactly one warning — accepted,
/// but without any generated-code effect — and no error.
pub proof fn lemma_type_alias_identifier_warns(
    entity: EntityDataView,
    underlying: TypeRef,
    identifier: Seq<char>,
    span: Span,
)
    ensures
        ({
            let ds = attribute_diags(
                NodeView::TypeAlias { entity, underlying },
                CsAttributeKindView::Identifier { identifier },
                span,
            );
            ds.len() == 1 && !ds[0].is_error() && ds[0] == inconsequential_identifier_diag(
                entity.span,
                entity.parser_scope,
            )
        }),
{
}

/// The encoded-result attribute is accepted exactly on an operation with a
/// non-streamed return value; otherwise it yields exactly one error, and the
/// note on that error differs between an operation that only returns a
/// stream and one that returns nothing at all.
pub proof fn lemma_encoded_result(
    has_non_streamed_return: bool,
    has_streamed_return: bool,
    span: Span,
)
    ensures
        has_non_streamed_return ==> encoded_result_diags(
            has_non_streamed_return,
            has_streamed_return,
            span,
        ) =~= Seq::<DiagnosticView>::empty(),
        !has_non_streamed_return ==> ({
            let ds = encoded_result_diags(has_non_streamed_return, has_streamed_return, span);
            ds.len() == 1 && ds[0].is_error() && ds[0].span == Some(span) && ds[0].notes == seq![
                encoded_result_note(has_streamed_return),
            ]
        }),
        encoded_result_note(true) != encoded_result_note(false),
{
    reveal_strlit(
        "The 'cs::encodedResult' attribute is not applicable to an operation that only returns a stream.",
    );
    reveal_strlit(
        "The 'cs::encodedResult' attribute is not applicable to an operation that does not return anything.",
    );
    assert(encoded_result_note(true).len() != encoded_result_note(false).len());
}

/// The data-type rule in both directions: a container override on a sequence
/// or dictionary is silently accepted; anything else reaching a type
/// reference is exactly one unexpected-attribute error.
pub proof fn lemma_data_type_rule(category: TypeCategory, kind: CsAttributeKindView, span: Span)
    ensures
        ((category is Sequence || category is Dictionary) && kind is Generic)
            ==> data_type_attribute_diags(category, kind, span) =~= Seq::<DiagnosticView>::empty(),
        !((category is Sequence || category is Dictionary) && kind is Generic)
            ==> data_type_attribute_diags(category, kind, span) =~= seq![
            unexpected_attribute_diag(kind, span),
        ],
{
}

} // verus!
