//! One compression task: one original file in one format.
use vstd::prelude::*;
use crate::compress_type::{CompressType, CompressError, spec_compressed, spec_output_name, lzw_code_size_supported};
use crate::digest::{md5_hex, md5_text};
use crate::freshness::{
    record_name, record_name_of, fresh, run_check, lemma_second_run_skips, CheckModel, DecisionModel,
    FileFacts, OutputFacts, StageModel,
};

verus! {

/// What became of a task.
pub enum TaskOutcome {
    /// The compressor reported an error.
    Failed(CompressError),
    /// The output would not be smaller than the original; it is not kept.
    NotSmaller,
    /// Dry run: the output would be kept; this is its length.
    DryRun { compressed_len: usize },
    /// The output to write.
    Write(Vec<u8>),
}

/// The outcome for the result of a compressor, given the length of the
/// original: an output is kept only when it is strictly smaller, and only
/// written when this is no dry run.
pub fn task_outcome(result: Result<Vec<u8>, CompressError>, source_len: usize, dry_run: bool) -> (o: TaskOutcome)
    ensures
        match result {
            Err(_) => o is Failed,
            Ok(v) => if source_len <= v.len() {
                o is NotSmaller
            } else if dry_run {
                o == (TaskOutcome::DryRun { compressed_len: v.len() })
            } else {
                o matches TaskOutcome::Write(w) && w@ == v@
            },
        },
{
    match result {
        Err(e) => TaskOutcome::Failed(e),
        Ok(v) => {
            if source_len <= v.len() {
                TaskOutcome::NotSmaller
            } else if dry_run {
                TaskOutcome::DryRun { compressed_len: v.len() }
            } else {
                TaskOutcome::Write(v)
            }
        },
    }
}

/// Compresses `source` in format `t` and decides what to do with the
/// output: it fails exactly where the compressor reports an error; otherwise
/// an output that is not strictly smaller than the original is not kept, a
/// dry run reports the output's length, and else the output is to be
/// written. An LZW task never fails.
pub fn compress_task(t: CompressType, source: &[u8], dry_run: bool) -> (o: TaskOutcome)
    requires
        lzw_code_size_supported(t),
    ensures
        t is Lzw ==> !(o is Failed),
        match spec_compressed(t, source@) {
            None => o is Failed,
            Some(c) => if source@.len() <= c.len() {
                o is NotSmaller
            } else if dry_run {
                o == (TaskOutcome::DryRun { compressed_len: c.len() as usize })
            } else {
                o matches TaskOutcome::Write(w) && w@ == c
            },
        },
{
    task_outcome(t.compress(source), source.len(), dry_run)
}

/// A record file to write: its name and its text.
pub struct RecordWrite {
    pub path: String,
    pub text: String,
}

/// The model of a [`RecordWrite`].
pub struct RecordModel {
    pub path: Seq<char>,
    pub text: Seq<char>,
}

impl View for RecordWrite {
    type V = RecordModel;

    open spec fn view(&self) -> RecordModel {
        RecordModel { path: self.path@, text: self.text@ }
    }
}

/// The records to write once `output` has been written with contents
/// `compressed`: with records in use, the original's record (unless an
/// earlier output of the same original already wrote it) and then the
/// output's record.
pub open spec fn spec_records(
    use_records: bool,
    original_written: bool,
    original: Seq<char>,
    source_md5: Seq<char>,
    output: Seq<char>,
    compressed: Seq<u8>,
) -> Seq<RecordModel> {
    if !use_records {
        seq![]
    } else {
        (if original_written {
            seq![]
        } else {
            seq![RecordModel { path: record_name(original), text: source_md5 }]
        }) + seq![RecordModel { path: record_name(output), text: md5_text(compressed) }]
    }
}

/// The records to write after an output was written, and whether the
/// original's record has now been written. The original's record is written
/// at most once per original: once the flag is set, it is never listed
/// again.
pub fn records_after_write(
    use_records: bool,
    original_written: bool,
    original: &str,
    source_md5: &str,
    output: &str,
    compressed: &[u8],
) -> (r: (Vec<RecordWrite>, bool))
    ensures
        r.0@.map_values(|w: RecordWrite| w@) == spec_records(
            use_records,
            original_written,
            original@,
            source_md5@,
            output@,
            compressed@,
        ),
        r.1 == (original_written || use_records),
{
    let mut writes: Vec<RecordWrite> = Vec::new();
    if !use_records {
        proof {
            assert(writes@.map_values(|w: RecordWrite| w@) =~= seq![]);
        }
        return (writes, original_written);
    }
    if !original_written {
        writes.push(RecordWrite { path: record_name_of(original), text: source_md5.to_owned() });
    }
    writes.push(RecordWrite { path: record_name_of(output), text: md5_hex(compressed) });
    proof {
        assert(writes@.map_values(|w: RecordWrite| w@) =~= spec_records(
            use_records,
            original_written,
            original@,
            source_md5@,
            output@,
            compressed@,
        ));
    }
    (writes, true)
}

/// With records in use, the records written after an output end with the
/// output's own record, whose text is the checksum of what was written: an
/// output whose file still holds those bytes is fresh for the next check.
/// The original's record, when listed, comes first and holds the checksum
/// that the check computed for the original.
pub proof fn lemma_recorded_output_is_fresh(
    original_written: bool,
    original: Seq<char>,
    source_md5: Seq<char>,
    output: Seq<char>,
    compressed: Seq<u8>,
)
    ensures
        ({
            let recs = spec_records(true, original_written, original, source_md5, output, compressed);
            &&& recs.len() == (if original_written { 1int } else { 2int })
            &&& recs.last().path == record_name(output)
            &&& fresh(OutputFacts { exists: true, record: Some(recs.last().text), content: Some(compressed) })
            &&& !original_written ==> recs[0] == RecordModel { path: record_name(original), text: source_md5 }
        }),
{
}

/// A run that wrote every output of a file, each with the records that
/// [`records_after_write`] lists for it, leaves a state in which the next
/// check of the unchanged file skips it: the original's record holds the
/// checksum of its contents, and each output still holds what was written
/// next to the record written for it.
pub proof fn lemma_written_file_is_skipped(c: CheckModel, written: Seq<Seq<u8>>, facts: FileFacts)
    requires
        c.stage == StageModel::ReadRecord,
        written.len() == c.types.len(),
        facts.outputs.len() == c.types.len(),
        facts.record == Some(c.source_md5),
        forall|i: int|
            0 <= i < written.len() ==> #[trigger] facts.outputs[i] == (OutputFacts {
                exists: true,
                record: Some(
                    spec_records(
                        true,
                        i > 0,
                        c.original,
                        c.source_md5,
                        spec_output_name(c.types[i], c.original),
                        written[i],
                    ).last().text,
                ),
                content: Some(written[i]),
            }),
    ensures
        run_check(c, facts, 1 + 3 * c.types.len()) == StageModel::Decided(DecisionModel::Skip),
{
    assert forall|i: int| 0 <= i < facts.outputs.len() implies fresh(#[trigger] facts.outputs[i]) by {
        lemma_recorded_output_is_fresh(i > 0, c.original, c.source_md5, spec_output_name(c.types[i], c.original), written[i]);
    }
    lemma_second_run_skips(c, facts);
}

/// The number of tasks: one per file and format.
pub fn task_count(files: usize, formats: usize) -> (n: u64)
    requires
        files * formats <= u64::MAX,
    ensures
        n == files * formats,
{
    assert(files * formats >= 0) by (nonlinear_arith);
    (files as u64) * (formats as u64)
}

/// Why a compression run stops before it starts.
#[derive(PartialEq, Eq, Structural, Clone, Copy, Debug)]
pub enum RunError {
    /// The search found no file to compress.
    NoMatchingFiles,
}

/// The message of a run error.
pub open spec fn run_error_message(e: RunError) -> Seq<char> {
    match e {
        RunError::NoMatchingFiles => "No matching files found. Ensure the directory is accessible and not ignored by .gitignore."@,
    }
}

impl RunError {
    /// The message shown for this error.
    pub fn message(&self) -> (m: String)
        ensures
            m@ == run_error_message(*self),
    {
        match self {
            RunError::NoMatchingFiles => String::from_str(
                "No matching files found. Ensure the directory is accessible and not ignored by .gitignore.",
            ),
        }
    }
}

/// A compression run needs at least one file: it stops exactly when the
/// search found none.
pub fn require_files(found: usize) -> (r: Result<(), RunError>)
    ensures
        r == (if found == 0 {
            Err(RunError::NoMatchingFiles)
        } else {
            Ok::<(), RunError>(())
        }),
{
    if found == 0 {
        Err(RunError::NoMatchingFiles)
    } else {
        Ok(())
    }
}

} // verus!
