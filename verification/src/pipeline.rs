//! The pipeline orchestrator: sequences the patching passes, the attribute
//! validation, and — when nothing short-circuited and the run is not a dry
//! run — the emission traversals and the idempotent write of each source
//! file's output.
//!
//! The filesystem enters as data: one output slot per file records what the
//! destination currently holds and whether the environment would refuse a
//! write, so the orchestration is verified for every disk state and every
//! failure pattern. The surrounding program performs the actual reads and
//! writes and reports their outcomes through these slots.

use vstd::prelude::*;

use crate::ast::SliceFileView;
use crate::codegen::{
    emit_file, emitted_content, output_path, output_path_view, FileEmissions, TRAVERSAL_COUNT,
};
use crate::compilation::{spec_exit_code, CompilationData, CompilationDataView};
use crate::diagnostics::{
    has_error_diag, Diagnostic, DiagnosticKind, DiagnosticKindView, DiagnosticView,
};
use crate::validator::{validate_cs_attributes, validated_view};

verus! {

/// What the orchestrator is configured with: whether to skip emission and
/// file output entirely, and where the generated files go.
#[derive(Debug, PartialEq, Eq)]
pub struct PipelineOptions {
    pub dry_run: bool,
    pub output_dir: Option<String>,
}

/// Spec-level mirror of `PipelineOptions`.
#[verifier::ext_equal]
pub struct PipelineOptionsView {
    pub dry_run: bool,
    pub output_dir: Option<Seq<char>>,
}

impl View for PipelineOptions {
    type V = PipelineOptionsView;

    open spec fn view(&self) -> PipelineOptionsView {
        PipelineOptionsView { dry_run: self.dry_run, output_dir: self.output_dir.deep_view() }
    }
}

/// One output destination as the run observes it: the content the file at
/// the destination path currently holds, if any, and — when the environment
/// would refuse a write there — the failure text that the attempt reports.
#[derive(Clone, Debug, PartialEq, Eq)]
pub struct OutputSlot {
    pub existing: Option<String>,
    pub write_failure: Option<String>,
}

/// Spec-level mirror of `OutputSlot`.
#[verifier::ext_equal]
pub struct OutputSlotView {
    pub existing: Option<Seq<char>>,
    pub write_failure: Option<Seq<char>>,
}

impl View for OutputSlot {
    type V = OutputSlotView;

    open spec fn view(&self) -> OutputSlotView {
        OutputSlotView {
            existing: self.existing.deep_view(),
            write_failure: self.write_failure.deep_view(),
        }
    }
}

impl DeepView for OutputSlot {
    type V = OutputSlotView;

    open spec fn deep_view(&self) -> OutputSlotView {
        self.view()
    }
}

/// The recoverable error recorded when writing a generated file fails,
/// carrying the attempted action, the path, and the underlying failure.
pub open spec fn io_error_diag(path: Seq<char>, error: Seq<char>) -> DiagnosticView {
    DiagnosticView {
        kind: DiagnosticKindView::IoFailure { action: "write"@, path, error },
        span: None,
        notes: Seq::empty(),
        scope: None,
    }
}

/// What the emission-and-write step does for one file: the diagnostics it
/// adds, the slot as it leaves it, and the write attempts it makes.
#[verifier::ext_equal]
pub struct FileEmitView {
    pub diags: Seq<DiagnosticView>,
    pub slot: OutputSlotView,
    pub writes: Seq<Seq<char>>,
}

/// The emission-and-write step for one file. Included-only files are never
/// emitted. A source file whose destination already holds exactly the
/// generated text is skipped; otherwise a write is attempted, and a failure
/// is recorded as a recoverable error rather than aborting anything.
pub open spec fn emit_one_file(
    file: SliceFileView,
    output_dir: Option<Seq<char>>,
    version: Seq<char>,
    fragments: Seq<Seq<Seq<char>>>,
    slot: OutputSlotView,
) -> FileEmitView {
    if !file.is_source {
        FileEmitView { diags: Seq::empty(), slot, writes: Seq::empty() }
    } else {
        let content = emitted_content(file.filename, version, fragments);
        let path = output_path_view(output_dir, file.filename);
        if slot.existing == Some(content) {
            FileEmitView { diags: Seq::empty(), slot, writes: Seq::empty() }
        } else {
            match slot.write_failure {
                Some(error) => (FileEmitView {
                    diags: seq![io_error_diag(path, error)],
                    slot,
                    writes: seq![path],
                }),
                None => (FileEmitView {
                    diags: Seq::empty(),
                    slot: OutputSlotView { existing: Some(content), write_failure: None },
                    writes: seq![path],
                }),
            }
        }
    }
}

/// The emission-and-write step over the first `n` files, each handled
/// independently of the others' outcomes.
#[verifier::ext_equal]
pub struct EmissionView {
    pub diags: Seq<DiagnosticView>,
    pub slots: Seq<OutputSlotView>,
    pub writes: Seq<Seq<char>>,
}

pub open spec fn emit_files(
    files: Seq<SliceFileView>,
    output_dir: Option<Seq<char>>,
    version: Seq<char>,
    emissions: Seq<Seq<Seq<Seq<char>>>>,
    slots: Seq<OutputSlotView>,
    n: int,
) -> EmissionView
    decreases n,
{
    if n <= 0 {
        EmissionView { diags: Seq::empty(), slots, writes: Seq::empty() }
    } else {
        let prev = emit_files(files, output_dir, version, emissions, slots, n - 1);
        let one = emit_one_file(
            files[n - 1],
            output_dir,
            version,
            emissions[n - 1],
            prev.slots[n - 1],
        );
        EmissionView {
            diags: prev.diags + one.diags,
            slots: prev.slots.update(n - 1, one.slot),
            writes: prev.writes + one.writes,
        }
    }
}

/// Everything one whole run produces: the final diagnostic history, the
/// output slots as the run leaves them, the write attempts in order, and the
/// process exit status.
#[verifier::ext_equal]
pub struct PipelineOutcomeView {
    pub diagnostics: Seq<DiagnosticView>,
    pub slots: Seq<OutputSlotView>,
    pub writes: Seq<Seq<char>>,
    pub exit_code: int,
}

/// The whole pipeline as a value transformation. A failure of the upstream
/// patching passes short-circuits everything after it, but the diagnostics
/// accumulated so far still drive the exit status. A validation failure
/// likewise skips emission. Emission is also skipped in a dry run. The exit
/// status is success exactly when no error was ever reported.
pub open spec fn pipeline_outcome(
    patched: Result<CompilationDataView, CompilationDataView>,
    options: PipelineOptionsView,
    version: Seq<char>,
    emissions: Seq<Seq<Seq<Seq<char>>>>,
    slots: Seq<OutputSlotView>,
) -> PipelineOutcomeView {
    match patched {
        Result::Err(failed) => (PipelineOutcomeView {
            diagnostics: failed.diagnostics,
            slots,
            writes: Seq::empty(),
            exit_code: spec_exit_code(failed.diagnostics),
        }),
        Result::Ok(data) => {
            let validated = validated_view(data);
            if validated.has_errors() || options.dry_run {
                PipelineOutcomeView {
                    diagnostics: validated.diagnostics,
                    slots,
                    writes: Seq::empty(),
                    exit_code: spec_exit_code(validated.diagnostics),
                }
            } else {
                let emitted = emit_files(
                    validated.files,
                    options.output_dir,
                    version,
                    emissions,
                    slots,
                    validated.files.len() as int,
                );
                PipelineOutcomeView {
                    diagnostics: validated.diagnostics + emitted.diags,
                    slots: emitted.slots,
                    writes: emitted.writes,
                    exit_code: spec_exit_code(validated.diagnostics + emitted.diags),
                }
            }
        },
    }
}

/// The view of a pass result: either side carries the same shape of data.
pub open spec fn compilation_result_view(r: Result<CompilationData, CompilationData>) -> Result<
    CompilationDataView,
    CompilationDataView,
> {
    match r {
        Result::Ok(d) => Result::Ok(d@),
        Result::Err(d) => Result::Err(d@),
    }
}

/// What `run_pipeline` hands back: the compilation state with every
/// diagnostic of the run, the output slots as the run left them, the paths
/// where writes were attempted, and the exit status.
#[derive(Debug, PartialEq, Eq)]
pub struct PipelineOutcome {
    pub data: CompilationData,
    pub slots: Vec<OutputSlot>,
    pub writes: Vec<String>,
    pub exit_code: i32,
}

/// Runs the pipeline from the point where the external patching passes hand
/// their result over: validation, then — unless something short-circuited or
/// this is a dry run — emission and the idempotent write decision for every
/// source file, one output slot per file.
pub fn run_pipeline(
    patched: Result<CompilationData, CompilationData>,
    options: &PipelineOptions,
    version: &str,
    emissions: &Vec<FileEmissions>,
    output_slots: Vec<OutputSlot>,
) -> (r: PipelineOutcome)
    requires
        (match patched {
            Result::Ok(d) => emissions@.len() == d.files@.len() && output_slots@.len()
                == d.files@.len() && (forall|k: int|
                0 <= k < emissions@.len() ==> (#[trigger] emissions@[k]).fragments@.len()
                    == TRAVERSAL_COUNT),
            Result::Err(_) => true,
        }),
    ensures
        ({
            let o = pipeline_outcome(
                compilation_result_view(patched),
                options@,
                version@,
                emissions.deep_view(),
                output_slots.deep_view(),
            );
            r.data@.diagnostics == o.diagnostics && r.slots.deep_view() == o.slots
                && r.writes.deep_view() == o.writes && r.exit_code as int == o.exit_code
        }),
{
    let ghost pv = compilation_result_view(patched);
    let ghost slots0 = output_slots.deep_view();
    let data = match patched {
        Ok(d) => d,
        Err(failed) => {
            // An upstream pass reported an unrecoverable condition: skip the
            // remaining passes, but keep everything reported so far.
            let exit_code = if failed.has_errors() {
                1
            } else {
                0
            };
            let r = PipelineOutcome {
                data: failed,
                slots: output_slots,
                writes: Vec::new(),
                exit_code,
            };
            proof {
                assert(r.writes.deep_view() =~= Seq::<Seq<char>>::empty());
            }
            return r;
        },
    };
    let ghost validated = validated_view(data@);
    let data = match validate_cs_attributes(data) {
        Ok(d) => d,
        Err(failed) => {
            // Validation found errors: emission is skipped, the exit status
            // reflects everything accumulated.
            let r = PipelineOutcome {
                data: failed,
                slots: output_slots,
                writes: Vec::new(),
                exit_code: 1,
            };
            proof {
                assert(r.writes.deep_view() =~= Seq::<Seq<char>>::empty());
            }
            return r;
        },
    };
    if options.dry_run {
        let r = PipelineOutcome { data, slots: output_slots, writes: Vec::new(), exit_code: 0 };
        proof {
            assert(r.writes.deep_view() =~= Seq::<Seq<char>>::empty());
        }
        return r;
    }
    let mut data = data;
    let mut slots = output_slots;
    let mut writes: Vec<String> = Vec::new();
    proof {
        assert(writes.deep_view() =~= emit_files(
            validated.files,
            options@.output_dir,
            version@,
            emissions.deep_view(),
            slots0,
            0,
        ).writes);
        assert(data@.diagnostics =~= validated.diagnostics + emit_files(
            validated.files,
            options@.output_dir,
            version@,
            emissions.deep_view(),
            slots0,
            0,
        ).diags);
    }
    let file_count = data.files.len();
    for i in 0..file_count
        invariant
            file_count == data.files@.len(),
            data.files.deep_view() == validated.files,
            !has_error_diag(validated.diagnostics),
            emissions@.len() == data.files@.len(),
            slots@.len() == data.files@.len(),
            slots0.len() == data.files@.len(),
            forall|k: int|
                0 <= k < emissions@.len() ==> (#[trigger] emissions@[k]).fragments@.len()
                    == TRAVERSAL_COUNT,
            data@.diagnostics == validated.diagnostics + emit_files(
                validated.files,
                options@.output_dir,
                version@,
                emissions.deep_view(),
                slots0,
                i as int,
            ).diags,
            slots.deep_view() == emit_files(
                validated.files,
                options@.output_dir,
                version@,
                emissions.deep_view(),
                slots0,
                i as int,
            ).slots,
            writes.deep_view() == emit_files(
                validated.files,
                options@.output_dir,
                version@,
                emissions.deep_view(),
                slots0,
                i as int,
            ).writes,
    {
        let ghost prev = emit_files(
            validated.files,
            options@.output_dir,
            version@,
            emissions.deep_view(),
            slots0,
            i as int,
        );
        proof {
            assert(validated.files[i as int] == data.files[i as int]@);
            assert(emissions.deep_view()[i as int] == emissions@[i as int]@);
            assert(prev.slots[i as int] == slots[i as int]@);
        }
        if data.files[i].is_source {
            let content = emit_file(&data.files[i], version, &emissions[i]);
            let path = output_path(&options.output_dir, data.files[i].filename.as_str());
            let mut skip = false;
            match &slots[i].existing {
                Some(existing) => {
                    if *existing == content {
                        // The destination already holds exactly this text:
                        // repeated runs over unchanged input never touch it.
                        skip = true;
                    }
                },
                None => {},
            }
            if !skip {
                writes.push(path.clone());
                let mut failure: Option<String> = None;
                match &slots[i].write_failure {
                    Some(error) => { failure = Some(error.clone()) },
                    None => {},
                }
                match failure {
                    Some(error) => {
                        // The write failed: record a recoverable error and
                        // go on to the next file.
                        Diagnostic::new(DiagnosticKind::IoFailure {
                            action: "write".to_owned(),
                            path,
                            error,
                        }).report(&mut data.diagnostic_reporter);
                    },
                    None => {
                        let updated = OutputSlot { existing: Some(content), write_failure: None };
                        slots.set(i, updated);
                    },
                }
            }
        }
        proof {
            let one = emit_one_file(
                validated.files[i as int],
                options@.output_dir,
                version@,
                emissions.deep_view()[i as int],
                prev.slots[i as int],
            );
            assert(data@.diagnostics =~= validated.diagnostics + (prev.diags + one.diags));
            assert(slots.deep_view() =~= prev.slots.update(i as int, one.slot));
            assert(writes.deep_view() =~= prev.writes + one.writes);
        }
    }
    let exit_code = if data.has_errors() {
        1
    } else {
        0
    };
    PipelineOutcome { data, slots, writes, exit_code }
}

// ---------------------------------------------------------------------------
// Laws of the orchestrator.
// ---------------------------------------------------------------------------

/// The step changes what slots hold, never how many there are.
proof fn lemma_emit_files_len(
    files: Seq<SliceFileView>,
    output_dir: Option<Seq<char>>,
    version: Seq<char>,
    emissions: Seq<Seq<Seq<Seq<char>>>>,
    slots: Seq<OutputSlotView>,
    n: int,
)
    requires
        n <= slots.len(),
    ensures
        emit_files(files, output_dir, version, emissions, slots, n).slots.len() == slots.len(),
    decreases n,
{
    if n > 0 {
        lemma_emit_files_len(files, output_dir, version, emissions, slots, n - 1);
    }
}

/// Each file's final slot depends on that file's input slot alone: the step
/// for the first `n` files leaves slot `j` exactly as the one-file step on
/// its own input would, and never touches a slot past `n`.
pub proof fn lemma_emit_files_per_index(
    files: Seq<SliceFileView>,
    output_dir: Option<Seq<char>>,
    version: Seq<char>,
    emissions: Seq<Seq<Seq<Seq<char>>>>,
    slots: Seq<OutputSlotView>,
    n: int,
    j: int,
)
    requires
        0 <= j < slots.len(),
        n <= slots.len(),
    ensures
        emit_files(files, output_dir, version, emissions, slots, n).slots.len() == slots.len(),
        j < n ==> emit_files(files, output_dir, version, emissions, slots, n).slots[j]
            == emit_one_file(files[j], output_dir, version, emissions[j], slots[j]).slot,
        j >= n ==> emit_files(files, output_dir, version, emissions, slots, n).slots[j]
            == slots[j],
    decreases n,
{
    if n > 0 {
        lemma_emit_files_per_index(files, output_dir, version, emissions, slots, n - 1, j);
        lemma_emit_files_per_index(files, output_dir, version, emissions, slots, n - 1, n - 1);
    }
}

/// A fold whose every one-file step is a no-op adds no diagnostic, attempts
/// no write, and leaves every slot as it was.
proof fn lemma_emit_files_noop(
    files: Seq<SliceFileView>,
    output_dir: Option<Seq<char>>,
    version: Seq<char>,
    emissions: Seq<Seq<Seq<Seq<char>>>>,
    slots: Seq<OutputSlotView>,
    n: int,
)
    requires
        n <= slots.len(),
        forall|j: int|
            0 <= j < n ==> #[trigger] emit_one_file(
                files[j],
                output_dir,
                version,
                emissions[j],
                slots[j],
            ) == (FileEmitView {
                diags: Seq::<DiagnosticView>::empty(),
                slot: slots[j],
                writes: Seq::<Seq<char>>::empty(),
            }),
    ensures
        emit_files(files, output_dir, version, emissions, slots, n) == (EmissionView {
            diags: Seq::<DiagnosticView>::empty(),
            slots,
            writes: Seq::<Seq<char>>::empty(),
        }),
    decreases n,
{
    if n <= 0 {
    } else {
        lemma_emit_files_noop(files, output_dir, version, emissions, slots, n - 1);
        let one = emit_one_file(files[n - 1], output_dir, version, emissions[n - 1], slots[n - 1]);
        assert(Seq::<DiagnosticView>::empty() + one.diags =~= Seq::<DiagnosticView>::empty());
        assert(Seq::<Seq<char>>::empty() + one.writes =~= Seq::<Seq<char>>::empty());
        assert(slots.update(n - 1, one.slot) =~= slots);
    }
}

/// Idempotence of the emission-and-write step: when every write succeeds,
/// running the step a second time over the unchanged tree and the disk state
/// the first run left behind attempts no write, adds no diagnostic, and
/// leaves every output exactly as the first run left it.
pub proof fn lemma_emission_idempotent(
    files: Seq<SliceFileView>,
    output_dir: Option<Seq<char>>,
    version: Seq<char>,
    emissions: Seq<Seq<Seq<Seq<char>>>>,
    slots: Seq<OutputSlotView>,
)
    requires
        slots.len() == files.len(),
        forall|j: int| 0 <= j < slots.len() ==> (#[trigger] slots[j]).write_failure is None,
    ensures
        ({
            let first = emit_files(files, output_dir, version, emissions, slots, files.len() as int);
            let second = emit_files(
                files,
                output_dir,
                version,
                emissions,
                first.slots,
                files.len() as int,
            );
            second.writes == Seq::<Seq<char>>::empty() && second.diags
                == Seq::<DiagnosticView>::empty() && second.slots == first.slots
        }),
{
    let n = files.len() as int;
    let first = emit_files(files, output_dir, version, emissions, slots, n);
    assert forall|j: int| 0 <= j < n implies #[trigger] emit_one_file(
        files[j],
        output_dir,
        version,
        emissions[j],
        first.slots[j],
    ) == (FileEmitView {
        diags: Seq::<DiagnosticView>::empty(),
        slot: first.slots[j],
        writes: Seq::<Seq<char>>::empty(),
    }) by {
        lemma_emit_files_per_index(files, output_dir, version, emissions, slots, n, j);
        let one = emit_one_file(files[j], output_dir, version, emissions[j], slots[j]);
        assert(first.slots[j] == one.slot);
        if files[j].is_source {
            let content = emitted_content(files[j].filename, version, emissions[j]);
            assert(one.slot.existing == Some(content));
        }
    }
    lemma_emit_files_len(files, output_dir, version, emissions, slots, n);
    lemma_emit_files_noop(files, output_dir, version, emissions, first.slots, n);
}

/// Pipeline short-circuit: when an upstream pass reports an unrecoverable
/// failure, the validator adds nothing, no emission runs and no write is
/// attempted, yet the exit status still reflects every diagnostic
/// accumulated before the failure.
pub proof fn lemma_pipeline_short_circuit(
    failed: CompilationDataView,
    options: PipelineOptionsView,
    version: Seq<char>,
    emissions: Seq<Seq<Seq<Seq<char>>>>,
    slots: Seq<OutputSlotView>,
)
    ensures
        ({
            let o = pipeline_outcome(Result::Err(failed), options, version, emissions, slots);
            o.diagnostics == failed.diagnostics && o.writes == Seq::<Seq<char>>::empty()
                && o.slots == slots && (o.exit_code == 0 <==> !has_error_diag(failed.diagnostics))
        }),
{
}

/// An error somewhere in the right part of a diagnostic history is an error
/// in the whole history.
proof fn lemma_error_in_concat_right(a: Seq<DiagnosticView>, b: Seq<DiagnosticView>)
    requires
        has_error_diag(b),
    ensures
        has_error_diag(a + b),
{
    let i = choose|i: int| 0 <= i < b.len() && b[i].is_error();
    assert((a + b)[a.len() + i].is_error());
}

/// A diagnostic that some file's step produced survives into the whole
/// step's history.
proof fn lemma_fold_keeps_error(
    files: Seq<SliceFileView>,
    output_dir: Option<Seq<char>>,
    version: Seq<char>,
    emissions: Seq<Seq<Seq<Seq<char>>>>,
    slots: Seq<OutputSlotView>,
    n: int,
    j: int,
)
    requires
        0 <= j < n <= slots.len(),
        has_error_diag(emit_one_file(files[j], output_dir, version, emissions[j], slots[j]).diags),
    ensures
        has_error_diag(emit_files(files, output_dir, version, emissions, slots, n).diags),
    decreases n,
{
    let prev = emit_files(files, output_dir, version, emissions, slots, n - 1);
    if j == n - 1 {
        lemma_emit_files_per_index(files, output_dir, version, emissions, slots, n - 1, j);
        lemma_error_in_concat_right(
            prev.diags,
            emit_one_file(files[n - 1], output_dir, version, emissions[n - 1], prev.slots[n - 1]).diags,
        );
    } else {
        lemma_fold_keeps_error(files, output_dir, version, emissions, slots, n - 1, j);
        let i = choose|i: int| 0 <= i < prev.diags.len() && prev.diags[i].is_error();
        let one = emit_one_file(files[n - 1], output_dir, version, emissions[n - 1], prev.slots[n - 1]);
        assert((prev.diags + one.diags)[i].is_error());
    }
}

/// Isolation of write failures, one direction: two runs whose output slots
/// differ only at one file leave every other file's output identical — a
/// failure at one destination never changes what is generated and written
/// for any other file.
pub proof fn lemma_io_isolation(
    files: Seq<SliceFileView>,
    output_dir: Option<Seq<char>>,
    version: Seq<char>,
    emissions: Seq<Seq<Seq<Seq<char>>>>,
    slots_a: Seq<OutputSlotView>,
    slots_b: Seq<OutputSlotView>,
    failing: int,
)
    requires
        slots_a.len() == files.len(),
        slots_b.len() == files.len(),
        0 <= failing < files.len(),
        forall|j: int| 0 <= j < files.len() && j != failing ==> slots_a[j] == slots_b[j],
    ensures
        forall|j: int|
            0 <= j < files.len() && j != failing ==> emit_files(
                files,
                output_dir,
                version,
                emissions,
                slots_a,
                files.len() as int,
            ).slots[j] == emit_files(
                files,
                output_dir,
                version,
                emissions,
                slots_b,
                files.len() as int,
            ).slots[j],
{
    let n = files.len() as int;
    assert forall|j: int| 0 <= j < files.len() && j != failing implies emit_files(
        files,
        output_dir,
        version,
        emissions,
        slots_a,
        n,
    ).slots[j] == emit_files(files, output_dir, version, emissions, slots_b, n).slots[j] by {
        lemma_emit_files_per_index(files, output_dir, version, emissions, slots_a, n, j);
        lemma_emit_files_per_index(files, output_dir, version, emissions, slots_b, n, j);
    }
}

/// Isolation of write failures, the other direction: a failed write is
/// recorded as an error, so a run in which some source file's write was
/// attempted and refused exits with failure.
pub proof fn lemma_pipeline_io_failure(
    data: CompilationDataView,
    options: PipelineOptionsView,
    version: Seq<char>,
    emissions: Seq<Seq<Seq<Seq<char>>>>,
    slots: Seq<OutputSlotView>,
    failing: int,
)
    requires
        !options.dry_run,
        !validated_view(data).has_errors(),
        slots.len() == data.files.len(),
        0 <= failing < data.files.len(),
        data.files[failing].is_source,
        slots[failing].write_failure is Some,
        slots[failing].existing != Some(
            emitted_content(data.files[failing].filename, version, emissions[failing]),
        ),
    ensures
        pipeline_outcome(Result::Ok(data), options, version, emissions, slots).exit_code == 1,
{
    let validated = validated_view(data);
    let n = data.files.len() as int;
    let one = emit_one_file(data.files[failing], options.output_dir, version, emissions[failing], slots[failing]);
    assert(has_error_diag(one.diags)) by {
        assert(one.diags[0].is_error());
    }
    lemma_fold_keeps_error(validated.files, options.output_dir, version, emissions, slots, n, failing);
    let emitted = emit_files(validated.files, options.output_dir, version, emissions, slots, n);
    lemma_error_in_concat_right(validated.diagnostics, emitted.diags);
}

} // verus!
