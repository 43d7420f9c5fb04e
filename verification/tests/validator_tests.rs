use slicec_cs::ast::{
    Attribute, AttributeKind, CsAttributeKind, EntityData, Node, Span, TypeCategory, TypeRef,
};
use slicec_cs::compilation::CompilationData;
use slicec_cs::diagnostics::{Diagnostic, DiagnosticKind, DiagnosticReporter};
use slicec_cs::validator::{validate_cs_attributes, CsValidator};

fn span(n: u64) -> Span {
    Span { start: n, end: n + 1 }
}

fn cs_attr(kind: CsAttributeKind, n: u64) -> Attribute {
    Attribute { kind: AttributeKind::Cs { kind }, span: span(n) }
}

fn general_attr(directive: &str, n: u64) -> Attribute {
    Attribute { kind: AttributeKind::General { directive: directive.to_string() }, span: span(n) }
}

fn entity(attributes: Vec<Attribute>) -> EntityData {
    EntityData {
        identifier: "Thing".to_string(),
        span: span(100),
        parser_scope: "::Outer".to_string(),
        attributes,
    }
}

fn diags_for(node: Node) -> Vec<Diagnostic> {
    let mut visitor = CsValidator { diagnostic_reporter: DiagnosticReporter::new() };
    visitor.visit_node(&node);
    visitor.diagnostic_reporter.diagnostics
}

fn identifier() -> CsAttributeKind {
    CsAttributeKind::Identifier { identifier: "Renamed".to_string() }
}

fn generic() -> CsAttributeKind {
    CsAttributeKind::Generic { generic: "List".to_string() }
}

fn custom() -> CsAttributeKind {
    CsAttributeKind::Custom { custom: "Codec".to_string() }
}

fn type_ref(category: TypeCategory) -> TypeRef {
    TypeRef { category }
}

// --- the legality table: illegal pairs give exactly one named error -------

#[test]
fn readonly_on_class_is_unexpected() {
    let node = Node::Class { entity: entity(vec![cs_attr(CsAttributeKind::Readonly, 7)]) };
    let diags = diags_for(node);
    assert_eq!(diags.len(), 1);
    assert!(diags[0].is_error());
    assert_eq!(
        diags[0].kind,
        DiagnosticKind::UnexpectedAttribute { attribute: "cs::readonly".to_string() }
    );
    assert_eq!(diags[0].span, Some(span(7)));
}

#[test]
fn namespace_on_struct_is_unexpected() {
    let kind = CsAttributeKind::Namespace { namespace: "N".to_string() };
    let node = Node::Struct { entity: entity(vec![cs_attr(kind, 3)]) };
    let diags = diags_for(node);
    assert_eq!(diags.len(), 1);
    assert_eq!(
        diags[0].kind,
        DiagnosticKind::UnexpectedAttribute { attribute: "cs::namespace".to_string() }
    );
    assert_eq!(diags[0].span, Some(span(3)));
}

#[test]
fn encoded_result_on_interface_is_unexpected() {
    let node = Node::Interface { entity: entity(vec![cs_attr(CsAttributeKind::EncodedResult, 9)]) };
    let diags = diags_for(node);
    assert_eq!(diags.len(), 1);
    assert_eq!(
        diags[0].kind,
        DiagnosticKind::UnexpectedAttribute { attribute: "cs::encodedResult".to_string() }
    );
}

#[test]
fn allowed_attributes_give_no_diagnostics() {
    let nodes = vec![
        Node::Module {
            entity: entity(vec![
                cs_attr(CsAttributeKind::Namespace { namespace: "N".to_string() }, 1),
                cs_attr(CsAttributeKind::Internal, 2),
            ]),
        },
        Node::Struct {
            entity: entity(vec![
                cs_attr(CsAttributeKind::Readonly, 1),
                cs_attr(CsAttributeKind::Internal, 2),
                cs_attr(CsAttributeKind::Attribute { attribute: "Obsolete".to_string() }, 3),
                cs_attr(identifier(), 4),
            ]),
        },
        Node::Enum {
            entity: entity(vec![
                cs_attr(CsAttributeKind::Internal, 1),
                cs_attr(identifier(), 2),
            ]),
        },
    ];
    for node in nodes {
        assert_eq!(diags_for(node).len(), 0);
    }
}

#[test]
fn frontend_generic_attributes_are_ignored_entirely() {
    let node = Node::Interface {
        entity: entity(vec![general_attr("deprecated", 1), general_attr("compress", 2)]),
    };
    assert_eq!(diags_for(node).len(), 0);
}

#[test]
fn module_identifier_is_error_with_namespace_note() {
    let node = Node::Module { entity: entity(vec![cs_attr(identifier(), 5)]) };
    let diags = diags_for(node);
    assert_eq!(diags.len(), 1);
    assert!(diags[0].is_error());
    assert_eq!(
        diags[0].kind,
        DiagnosticKind::UnexpectedAttribute { attribute: "cs::identifier".to_string() }
    );
    assert_eq!(diags[0].span, Some(span(5)));
    assert_eq!(diags[0].notes, vec!["To rename a module use cs::namespace instead".to_string()]);
}

// --- custom types require the wire-codec attribute ------------------------

#[test]
fn custom_type_without_custom_is_missing_required() {
    let node = Node::CustomType { entity: entity(vec![]) };
    let diags = diags_for(node);
    assert_eq!(diags.len(), 1);
    assert!(diags[0].is_error());
    assert_eq!(
        diags[0].kind,
        DiagnosticKind::MissingRequiredAttribute { attribute: "cs::custom".to_string() }
    );
    assert_eq!(diags[0].span, Some(span(100)));
}

#[test]
fn custom_type_with_one_custom_is_clean() {
    let node = Node::CustomType { entity: entity(vec![cs_attr(custom(), 1)]) };
    assert_eq!(diags_for(node).len(), 0);
}

#[test]
fn custom_type_with_two_customs_is_duplicate_never_missing() {
    let node = Node::CustomType {
        entity: entity(vec![cs_attr(custom(), 1), cs_attr(custom(), 2)]),
    };
    let diags = diags_for(node);
    assert_eq!(diags.len(), 1);
    assert_eq!(
        diags[0].kind,
        DiagnosticKind::DuplicateAttribute { attribute: "cs::custom".to_string() }
    );
    // anchored at the second occurrence
    assert_eq!(diags[0].span, Some(span(2)));
}

// --- duplicates -----------------------------------------------------------

#[test]
fn one_duplicate_diagnostic_per_repeated_kind() {
    let node = Node::Struct {
        entity: entity(vec![
            cs_attr(CsAttributeKind::Internal, 1),
            cs_attr(CsAttributeKind::Internal, 2),
            cs_attr(CsAttributeKind::Internal, 3),
        ]),
    };
    let diags = diags_for(node);
    assert_eq!(diags.len(), 1);
    assert_eq!(
        diags[0].kind,
        DiagnosticKind::DuplicateAttribute { attribute: "cs::internal".to_string() }
    );
    assert_eq!(diags[0].span, Some(span(2)));
}

#[test]
fn two_repeated_kinds_give_two_duplicate_diagnostics() {
    let node = Node::Struct {
        entity: entity(vec![
            cs_attr(CsAttributeKind::Internal, 1),
            cs_attr(CsAttributeKind::Readonly, 2),
            cs_attr(CsAttributeKind::Internal, 3),
            cs_attr(CsAttributeKind::Readonly, 4),
        ]),
    };
    let diags = diags_for(node);
    assert_eq!(diags.len(), 2);
    assert!(matches!(&diags[0].kind, DiagnosticKind::DuplicateAttribute { attribute } if attribute == "cs::internal"));
    assert!(matches!(&diags[1].kind, DiagnosticKind::DuplicateAttribute { attribute } if attribute == "cs::readonly"));
}

// --- type aliases ---------------------------------------------------------

#[test]
fn type_alias_identifier_is_one_warning_no_error() {
    let node = Node::TypeAlias {
        entity: entity(vec![cs_attr(identifier(), 4)]),
        underlying: type_ref(TypeCategory::Other),
    };
    let diags = diags_for(node);
    assert_eq!(diags.len(), 1);
    assert!(!diags[0].is_error());
    assert_eq!(
        diags[0].kind,
        DiagnosticKind::InconsequentialUseOfAttribute {
            attribute: "cs::identifier".to_string(),
            kind: "typealias".to_string(),
        }
    );
    // anchored at the alias itself, carrying its scope
    assert_eq!(diags[0].span, Some(span(100)));
    assert_eq!(diags[0].scope, Some("::Outer".to_string()));
}

#[test]
fn type_alias_of_sequence_accepts_generic() {
    let node = Node::TypeAlias {
        entity: entity(vec![cs_attr(generic(), 1)]),
        underlying: type_ref(TypeCategory::Sequence),
    };
    assert_eq!(diags_for(node).len(), 0);
}

#[test]
fn type_alias_of_scalar_rejects_generic() {
    let node = Node::TypeAlias {
        entity: entity(vec![cs_attr(generic(), 1)]),
        underlying: type_ref(TypeCategory::Other),
    };
    let diags = diags_for(node);
    assert_eq!(diags.len(), 1);
    assert_eq!(
        diags[0].kind,
        DiagnosticKind::UnexpectedAttribute { attribute: "cs::generic".to_string() }
    );
}

// --- operations and the encoded-result rule -------------------------------

#[test]
fn encoded_result_with_non_streamed_return_is_clean() {
    let node = Node::Operation {
        entity: entity(vec![cs_attr(CsAttributeKind::EncodedResult, 1)]),
        has_non_streamed_return: true,
        has_streamed_return: true,
    };
    assert_eq!(diags_for(node).len(), 0);
}

fn encoded_result_note(has_streamed_return: bool) -> String {
    let node = Node::Operation {
        entity: entity(vec![cs_attr(CsAttributeKind::EncodedResult, 1)]),
        has_non_streamed_return: false,
        has_streamed_return,
    };
    let diags = diags_for(node);
    assert_eq!(diags.len(), 1);
    assert!(diags[0].is_error());
    assert_eq!(
        diags[0].kind,
        DiagnosticKind::UnexpectedAttribute { attribute: "cs::encodedResult".to_string() }
    );
    assert_eq!(diags[0].span, Some(span(1)));
    assert_eq!(diags[0].notes.len(), 1);
    diags[0].notes[0].clone()
}

#[test]
fn encoded_result_notes_distinguish_the_two_cases() {
    let streams_only = encoded_result_note(true);
    let no_return = encoded_result_note(false);
    assert_eq!(
        streams_only,
        "The 'cs::encodedResult' attribute is not applicable to an operation that only returns a stream."
    );
    assert_eq!(
        no_return,
        "The 'cs::encodedResult' attribute is not applicable to an operation that does not return anything."
    );
    assert_ne!(streams_only, no_return);
}

// --- data members and parameters: the data-type rule ----------------------

#[test]
fn sequence_member_accepts_generic() {
    let node = Node::DataMember {
        entity: entity(vec![cs_attr(generic(), 1)]),
        data_type: type_ref(TypeCategory::Sequence),
    };
    assert_eq!(diags_for(node).len(), 0);
}

#[test]
fn dictionary_member_accepts_generic() {
    let node = Node::DataMember {
        entity: entity(vec![cs_attr(generic(), 1)]),
        data_type: type_ref(TypeCategory::Dictionary),
    };
    assert_eq!(diags_for(node).len(), 0);
}

#[test]
fn sequence_member_rejects_readonly() {
    let node = Node::DataMember {
        entity: entity(vec![cs_attr(CsAttributeKind::Readonly, 6)]),
        data_type: type_ref(TypeCategory::Sequence),
    };
    let diags = diags_for(node);
    assert_eq!(diags.len(), 1);
    assert!(diags[0].is_error());
    assert_eq!(
        diags[0].kind,
        DiagnosticKind::UnexpectedAttribute { attribute: "cs::readonly".to_string() }
    );
    assert_eq!(diags[0].span, Some(span(6)));
}

#[test]
fn scalar_member_rejects_generic_via_data_type_rule() {
    let node = Node::DataMember {
        entity: entity(vec![cs_attr(generic(), 2)]),
        data_type: type_ref(TypeCategory::Other),
    };
    let diags = diags_for(node);
    assert_eq!(diags.len(), 1);
    assert_eq!(
        diags[0].kind,
        DiagnosticKind::UnexpectedAttribute { attribute: "cs::generic".to_string() }
    );
}

#[test]
fn member_identifier_and_raw_attribute_are_accepted() {
    let node = Node::DataMember {
        entity: entity(vec![
            cs_attr(identifier(), 1),
            cs_attr(CsAttributeKind::Attribute { attribute: "Obsolete".to_string() }, 2),
        ]),
        data_type: type_ref(TypeCategory::Other),
    };
    assert_eq!(diags_for(node).len(), 0);
}

#[test]
fn parameter_accepts_identifier_rejects_raw_attribute() {
    let clean = Node::Parameter {
        entity: entity(vec![cs_attr(identifier(), 1)]),
        data_type: type_ref(TypeCategory::Other),
    };
    assert_eq!(diags_for(clean).len(), 0);

    let bad = Node::Parameter {
        entity: entity(vec![
            cs_attr(CsAttributeKind::Attribute { attribute: "Obsolete".to_string() }, 2),
        ]),
        data_type: type_ref(TypeCategory::Other),
    };
    let diags = diags_for(bad);
    assert_eq!(diags.len(), 1);
    assert_eq!(
        diags[0].kind,
        DiagnosticKind::UnexpectedAttribute { attribute: "cs::attribute".to_string() }
    );
}

#[test]
fn parameter_of_sequence_accepts_generic() {
    let node = Node::Parameter {
        entity: entity(vec![cs_attr(generic(), 1)]),
        data_type: type_ref(TypeCategory::Sequence),
    };
    assert_eq!(diags_for(node).len(), 0);
}

// --- the whole pass -------------------------------------------------------

fn file(filename: &str, is_source: bool, nodes: Vec<Node>) -> slicec_cs::ast::SliceFile {
    slicec_cs::ast::SliceFile { filename: filename.to_string(), is_source, nodes }
}

#[test]
fn validation_covers_included_only_files() {
    let included = file(
        "Dep",
        false,
        vec![Node::Class { entity: entity(vec![cs_attr(CsAttributeKind::Readonly, 1)]) }],
    );
    let data = CompilationData {
        files: vec![included],
        diagnostic_reporter: DiagnosticReporter::new(),
    };
    match validate_cs_attributes(data) {
        Ok(_) => panic!("misuse in a dependency must still fail the run"),
        Err(d) => {
            assert_eq!(d.diagnostic_reporter.diagnostics.len(), 1);
            assert_eq!(d.into_exit_code(), 1);
        },
    }
}

#[test]
fn clean_run_validates_ok_and_exits_zero() {
    let source = file(
        "Shapes",
        true,
        vec![
            Node::Module { entity: entity(vec![cs_attr(CsAttributeKind::Internal, 1)]) },
            Node::Struct { entity: entity(vec![cs_attr(CsAttributeKind::Readonly, 2)]) },
        ],
    );
    let data = CompilationData {
        files: vec![source],
        diagnostic_reporter: DiagnosticReporter::new(),
    };
    match validate_cs_attributes(data) {
        Ok(d) => {
            assert_eq!(d.diagnostic_reporter.diagnostics.len(), 0);
            assert_eq!(d.into_exit_code(), 0);
        },
        Err(_) => panic!("a clean tree must validate"),
    }
}

#[test]
fn warnings_never_affect_exit_status() {
    let source = file(
        "Alias",
        true,
        vec![Node::TypeAlias {
            entity: entity(vec![cs_attr(identifier(), 1)]),
            underlying: type_ref(TypeCategory::Other),
        }],
    );
    let data = CompilationData {
        files: vec![source],
        diagnostic_reporter: DiagnosticReporter::new(),
    };
    match validate_cs_attributes(data) {
        Ok(d) => {
            assert_eq!(d.diagnostic_reporter.diagnostics.len(), 1);
            assert!(!d.diagnostic_reporter.diagnostics[0].is_error());
            assert_eq!(d.into_exit_code(), 0);
        },
        Err(_) => panic!("a warning alone must not fail the pass"),
    }
}

#[test]
fn diagnostics_accumulate_across_nodes_in_order() {
    let source = file(
        "Many",
        true,
        vec![
            Node::Class { entity: entity(vec![cs_attr(CsAttributeKind::Readonly, 1)]) },
            Node::Interface { entity: entity(vec![cs_attr(CsAttributeKind::Readonly, 2)]) },
        ],
    );
    let data = CompilationData {
        files: vec![source],
        diagnostic_reporter: DiagnosticReporter::new(),
    };
    match validate_cs_attributes(data) {
        Ok(_) => panic!("two misuses must fail the run"),
        Err(d) => {
            let diags = d.diagnostic_reporter.diagnostics;
            assert_eq!(diags.len(), 2);
            assert_eq!(diags[0].span, Some(span(1)));
            assert_eq!(diags[1].span, Some(span(2)));
        },
    }
}
