use slicec_cs::ast::{
    Attribute, AttributeKind, CsAttributeKind, EntityData, Node, SliceFile, Span,
};
use slicec_cs::codegen::{output_path, preamble, FileEmissions, GeneratedCode};
use slicec_cs::compilation::CompilationData;
use slicec_cs::diagnostics::{DiagnosticKind, DiagnosticReporter};
use slicec_cs::pipeline::{run_pipeline, OutputSlot, PipelineOptions, PipelineOutcome};

fn source_file(filename: &str) -> SliceFile {
    SliceFile { filename: filename.to_string(), is_source: true, nodes: vec![] }
}

fn included_file(filename: &str) -> SliceFile {
    SliceFile { filename: filename.to_string(), is_source: false, nodes: vec![] }
}

fn expected_preamble(version: &str, filename: &str) -> String {
    format!(
        "// Copyright (c) ZeroC, Inc.\n\n// <auto-generated/>\n// slicec-cs version: '{version}'\n// Generated from file: '{filename}.slice'\n\n#nullable enable\n\n#pragma warning disable 1591 // Missing XML Comment\n#pragma warning disable 1573 // Parameter has no matching param tag in the XML comment\n\nusing IceRpc.Slice;\n\n[assembly:IceRpc.Slice.Slice(\"{filename}.slice\")]"
    )
}

/// The seven traversals' fragment lists, with the given blocks as the first
/// traversal's contribution and the other six empty.
fn emissions_with(blocks: Vec<&str>) -> FileEmissions {
    let mut fragments: Vec<Vec<String>> = vec![blocks.iter().map(|s| s.to_string()).collect()];
    for _ in 1..7 {
        fragments.push(vec![]);
    }
    FileEmissions { fragments }
}

fn empty_data(files: Vec<SliceFile>) -> CompilationData {
    CompilationData { files, diagnostic_reporter: DiagnosticReporter::new() }
}

fn fresh_slot() -> OutputSlot {
    OutputSlot { existing: None, write_failure: None }
}

fn options(dry_run: bool, output_dir: Option<&str>) -> PipelineOptions {
    PipelineOptions { dry_run, output_dir: output_dir.map(|s| s.to_string()) }
}

fn run(
    data: CompilationData,
    opts: &PipelineOptions,
    emissions: Vec<FileEmissions>,
    slots: Vec<OutputSlot>,
) -> PipelineOutcome {
    run_pipeline(Ok(data), opts, "1.2.3", &emissions, slots)
}

// --- assembly of the generated text ---------------------------------------

#[test]
fn preamble_matches_its_fixed_shape() {
    let file = source_file("Widgets");
    assert_eq!(preamble(&file, "9.9.9"), expected_preamble("9.9.9", "Widgets"));
}

#[test]
fn output_path_joins_directory_name_and_extension() {
    assert_eq!(output_path(&Some("out".to_string()), "Widgets"), "out/Widgets.cs");
    assert_eq!(output_path(&None, "Widgets"), "./Widgets.cs");
}

#[test]
fn generated_code_concatenates_preamble_then_blocks_in_order() {
    let mut code = GeneratedCode::new();
    code.add_preamble("P1".to_string());
    code.add_code_block("A".to_string());
    code.add_preamble("P2".to_string());
    code.add_code_block("B".to_string());
    assert_eq!(code.into_string(), "P1P2AB");
}

// --- one full run ----------------------------------------------------------

#[test]
fn a_clean_source_file_is_generated_and_written() {
    let data = empty_data(vec![source_file("Widgets")]);
    let outcome = run(
        data,
        &options(false, Some("gen")),
        vec![emissions_with(vec!["\nclass W {}", "\nclass X {}"])],
        vec![fresh_slot()],
    );
    assert_eq!(outcome.exit_code, 0);
    assert_eq!(outcome.writes, vec!["gen/Widgets.cs".to_string()]);
    let expected = expected_preamble("1.2.3", "Widgets") + "\nclass W {}\nclass X {}";
    assert_eq!(outcome.slots[0].existing.as_deref(), Some(expected.as_str()));
}

#[test]
fn included_only_files_are_never_emitted() {
    let data = empty_data(vec![included_file("Dep")]);
    let outcome = run(
        data,
        &options(false, None),
        vec![emissions_with(vec!["ignored"])],
        vec![fresh_slot()],
    );
    assert_eq!(outcome.exit_code, 0);
    assert!(outcome.writes.is_empty());
    assert_eq!(outcome.slots[0].existing, None);
}

#[test]
fn dry_run_skips_emission_entirely() {
    let data = empty_data(vec![source_file("Widgets")]);
    let outcome = run(
        data,
        &options(true, None),
        vec![emissions_with(vec!["code"])],
        vec![fresh_slot()],
    );
    assert_eq!(outcome.exit_code, 0);
    assert!(outcome.writes.is_empty());
    assert_eq!(outcome.slots[0].existing, None);
}

// --- idempotence ------------------------------------------------------------

#[test]
fn identical_existing_content_is_never_rewritten() {
    let content = expected_preamble("1.2.3", "Widgets") + "code";
    let data = empty_data(vec![source_file("Widgets")]);
    let outcome = run(
        data,
        &options(false, None),
        vec![emissions_with(vec!["code"])],
        vec![OutputSlot { existing: Some(content.clone()), write_failure: None }],
    );
    assert_eq!(outcome.exit_code, 0);
    assert!(outcome.writes.is_empty());
    assert_eq!(outcome.slots[0].existing, Some(content));
}

#[test]
fn second_run_over_unchanged_input_writes_nothing() {
    let first = run(
        empty_data(vec![source_file("A"), source_file("B")]),
        &options(false, None),
        vec![emissions_with(vec!["a"]), emissions_with(vec!["b"])],
        vec![fresh_slot(), fresh_slot()],
    );
    assert_eq!(first.writes.len(), 2);

    let second = run(
        empty_data(vec![source_file("A"), source_file("B")]),
        &options(false, None),
        vec![emissions_with(vec!["a"]), emissions_with(vec!["b"])],
        first.slots.clone(),
    );
    assert_eq!(second.exit_code, 0);
    assert!(second.writes.is_empty());
    assert_eq!(second.slots, first.slots);
}

// --- short-circuiting --------------------------------------------------------

#[test]
fn upstream_failure_skips_validation_and_emission() {
    // A tree that the validator would certainly flag...
    let bad_entity = EntityData {
        identifier: "M".to_string(),
        span: Span { start: 1, end: 2 },
        parser_scope: "::".to_string(),
        attributes: vec![Attribute {
            kind: AttributeKind::Cs { kind: CsAttributeKind::Readonly },
            span: Span { start: 1, end: 2 },
        }],
    };
    let mut reporter = DiagnosticReporter::new();
    slicec_cs::diagnostics::Diagnostic::new(DiagnosticKind::IoFailure {
        action: "read".to_string(),
        path: "Broken.slice".to_string(),
        error: "missing".to_string(),
    })
    .report(&mut reporter);
    let failed = CompilationData {
        files: vec![SliceFile {
            filename: "Broken".to_string(),
            is_source: true,
            nodes: vec![Node::Interface { entity: bad_entity }],
        }],
        diagnostic_reporter: reporter,
    };

    let outcome = run_pipeline(
        Err(failed),
        &options(false, None),
        "1.2.3",
        &vec![emissions_with(vec!["code"])],
        vec![fresh_slot()],
    );
    // ...yet the validator never ran: only the upstream diagnostic is there,
    // nothing was written, and the exit status still reflects the failure.
    assert_eq!(outcome.data.diagnostic_reporter.diagnostics.len(), 1);
    assert!(outcome.writes.is_empty());
    assert_eq!(outcome.slots[0].existing, None);
    assert_eq!(outcome.exit_code, 1);
}

#[test]
fn validation_errors_skip_emission() {
    let entity = EntityData {
        identifier: "C".to_string(),
        span: Span { start: 1, end: 2 },
        parser_scope: "::".to_string(),
        attributes: vec![Attribute {
            kind: AttributeKind::Cs { kind: CsAttributeKind::Readonly },
            span: Span { start: 3, end: 4 },
        }],
    };
    let data = CompilationData {
        files: vec![SliceFile {
            filename: "Bad".to_string(),
            is_source: true,
            nodes: vec![Node::Class { entity }],
        }],
        diagnostic_reporter: DiagnosticReporter::new(),
    };
    let outcome = run(
        data,
        &options(false, None),
        vec![emissions_with(vec!["code"])],
        vec![fresh_slot()],
    );
    assert_eq!(outcome.exit_code, 1);
    assert!(outcome.writes.is_empty());
    assert_eq!(outcome.slots[0].existing, None);
    assert_eq!(outcome.data.diagnostic_reporter.diagnostics.len(), 1);
}

// --- write failures ----------------------------------------------------------

#[test]
fn one_failed_write_never_stops_the_other_files() {
    let data = empty_data(vec![source_file("A"), source_file("B")]);
    let outcome = run(
        data,
        &options(false, None),
        vec![emissions_with(vec!["a"]), emissions_with(vec!["b"])],
        vec![
            OutputSlot { existing: None, write_failure: Some("permission denied".to_string()) },
            fresh_slot(),
        ],
    );
    // A's failure is a recoverable error carrying action, path and cause...
    assert_eq!(outcome.exit_code, 1);
    assert_eq!(outcome.data.diagnostic_reporter.diagnostics.len(), 1);
    assert_eq!(
        outcome.data.diagnostic_reporter.diagnostics[0].kind,
        DiagnosticKind::IoFailure {
            action: "write".to_string(),
            path: "./A.cs".to_string(),
            error: "permission denied".to_string(),
        }
    );
    // ...and B was still generated and written normally.
    assert_eq!(outcome.writes, vec!["./A.cs".to_string(), "./B.cs".to_string()]);
    assert_eq!(outcome.slots[0].existing, None);
    assert_eq!(
        outcome.slots[1].existing,
        Some(expected_preamble("1.2.3", "B") + "b"),
    );
}
