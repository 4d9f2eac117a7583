//! Deciding, from the MD5 records, which outputs of one file to (re)make.
//!
//! Next to each original file `f` the tool keeps `f.md5`, the checksum text
//! of the file when it was last compressed, and next to each output `o` the
//! record `o.md5` of that output. A [`FileCheck`] walks through these files
//! for one original: it names the next file to look at ([`FileCheck::probe`]),
//! the caller looks and reports what it found ([`FileCheck::observe`]), and
//! once the check is decided ([`FileCheck::decision`]) the file is either
//! skipped or the formats to produce are known. An unchanged file whose
//! outputs are all fresh is skipped; a changed or unrecorded file gets every
//! format; otherwise every stale output is made again.
use vstd::prelude::*;
use crate::compress_type::{CompressType, spec_output_name};
use crate::digest::{md5_hex, md5_text};
use crate::paths::{add_extension, with_extension};

verus! {

/// The extension of the MD5 record files.
pub open spec fn record_ext() -> Seq<char> {
    seq!['.', 'm', 'd', '5']
}

/// The name of the MD5 record of the file `path`.
pub open spec fn record_name(path: Seq<char>) -> Seq<char> {
    with_extension(path, record_ext())
}

/// The name of the MD5 record of the file `path`: `path` followed by `.md5`.
pub fn record_name_of(path: &str) -> (name: String)
    ensures
        name@ == record_name(path@),
        name@ == path@ + record_ext(),
{
    proof {
        reveal_strlit(".md5");
    }
    add_extension(path, ".md5")
}

/// What to do with one original file.
pub enum FileDecision {
    /// The file and all its outputs are unchanged.
    Skip,
    /// Produce these formats.
    Compress(Vec<CompressType>),
}

/// The model of a [`FileDecision`].
pub enum DecisionModel {
    Skip,
    Compress(Seq<CompressType>),
}

impl View for FileDecision {
    type V = DecisionModel;

    open spec fn view(&self) -> DecisionModel {
        match self {
            FileDecision::Skip => DecisionModel::Skip,
            FileDecision::Compress(v) => DecisionModel::Compress(v@),
        }
    }
}

/// A file that the caller is asked to look at.
pub enum Probe {
    /// Read this file as text; report `Observation::Text`.
    ReadText(String),
    /// Tell whether this file exists; report `Observation::Exists`.
    Exists(String),
    /// Read the bytes of this file; report `Observation::Bytes`.
    ReadBytes(String),
    /// Nothing more to look at: the check is decided.
    Done,
}

/// The model of a [`Probe`].
pub enum ProbeModel {
    ReadText(Seq<char>),
    Exists(Seq<char>),
    ReadBytes(Seq<char>),
    Done,
}

impl View for Probe {
    type V = ProbeModel;

    open spec fn view(&self) -> ProbeModel {
        match self {
            Probe::ReadText(p) => ProbeModel::ReadText(p@),
            Probe::Exists(p) => ProbeModel::Exists(p@),
            Probe::ReadBytes(p) => ProbeModel::ReadBytes(p@),
            Probe::Done => ProbeModel::Done,
        }
    }
}

/// What the caller found; `None` when the file could not be read.
pub enum Observation {
    Text(Option<String>),
    Exists(bool),
    Bytes(Option<Vec<u8>>),
}

/// The model of an [`Observation`].
pub enum ObservationModel {
    Text(Option<Seq<char>>),
    Exists(bool),
    Bytes(Option<Seq<u8>>),
}

impl View for Observation {
    type V = ObservationModel;

    open spec fn view(&self) -> ObservationModel {
        match self {
            Observation::Text(t) => ObservationModel::Text(
                match t {
                    Some(s) => Some(s@),
                    None => None,
                },
            ),
            Observation::Exists(b) => ObservationModel::Exists(*b),
            Observation::Bytes(b) => ObservationModel::Bytes(
                match b {
                    Some(v) => Some(v@),
                    None => None,
                },
            ),
        }
    }
}

enum Stage {
    ReadRecord,
    Exists { index: usize, stale: Vec<CompressType> },
    ReadOutputRecord { index: usize, stale: Vec<CompressType> },
    ReadOutput { index: usize, stale: Vec<CompressType>, output_record: String },
    Decided(FileDecision),
}

/// Where a check stands. `index` is the position, in the list of formats,
/// of the output looked at; `stale` the formats found stale so far.
pub enum StageModel {
    /// Reading the original's record.
    ReadRecord,
    /// Asking whether the output exists.
    Exists { index: nat, stale: Seq<CompressType> },
    /// Reading the output's record.
    ReadOutputRecord { index: nat, stale: Seq<CompressType> },
    /// Reading the output, whose record says `output_record`.
    ReadOutput { index: nat, stale: Seq<CompressType>, output_record: Seq<char> },
    /// Decided.
    Decided(DecisionModel),
}

/// The model of a [`FileCheck`].
pub struct CheckModel {
    /// The original file.
    pub original: Seq<char>,
    /// The formats asked for, in order.
    pub types: Seq<CompressType>,
    /// The checksum text of the original's current contents (empty when
    /// records are not used).
    pub source_md5: Seq<char>,
    pub stage: StageModel,
}

/// The check of one original file against its records.
pub struct FileCheck {
    original: String,
    types: Vec<CompressType>,
    source_md5: String,
    stage: Stage,
}

/// The decision for an unchanged original once all outputs have been looked
/// at: skip when none is stale, else make the stale ones again.
pub open spec fn settle(stale: Seq<CompressType>) -> DecisionModel {
    if stale.len() == 0 {
        DecisionModel::Skip
    } else {
        DecisionModel::Compress(stale)
    }
}

/// The stage that looks at the output at `index`, or the decision when all
/// outputs have been looked at.
pub open spec fn enter(c: CheckModel, index: nat, stale: Seq<CompressType>) -> StageModel {
    if index < c.types.len() {
        StageModel::Exists { index, stale }
    } else {
        StageModel::Decided(settle(stale))
    }
}

/// The stage after the output at `index` was found stale: its format is
/// noted and the check goes on with the next output.
pub open spec fn found_stale(c: CheckModel, index: nat, stale: Seq<CompressType>) -> StageModel {
    enter(c, index + 1, stale.push(c.types[index as int]))
}

/// The file a check asks about next.
pub open spec fn spec_probe(c: CheckModel) -> ProbeModel {
    match c.stage {
        StageModel::ReadRecord => ProbeModel::ReadText(record_name(c.original)),
        StageModel::Exists { index, .. } => ProbeModel::Exists(
            spec_output_name(c.types[index as int], c.original),
        ),
        StageModel::ReadOutputRecord { index, .. } => ProbeModel::ReadText(
            record_name(spec_output_name(c.types[index as int], c.original)),
        ),
        StageModel::ReadOutput { index, .. } => ProbeModel::ReadBytes(
            spec_output_name(c.types[index as int], c.original),
        ),
        StageModel::Decided(_) => ProbeModel::Done,
    }
}

/// Whether an observation answers the probe of the stage.
pub open spec fn answers(stage: StageModel, obs: ObservationModel) -> bool {
    match stage {
        StageModel::ReadRecord => obs is Text,
        StageModel::Exists { .. } => obs is Exists,
        StageModel::ReadOutputRecord { .. } => obs is Text,
        StageModel::ReadOutput { .. } => obs is Bytes,
        StageModel::Decided(_) => false,
    }
}

/// The stage after an observation. An original whose record cannot be read
/// or does not match its checksum text gets every format. Otherwise each
/// output is looked at in turn; it is stale when it is missing, its record
/// cannot be read, it cannot be read, or its checksum text is not its
/// record.
pub open spec fn spec_observe(c: CheckModel, obs: ObservationModel) -> StageModel {
    match (c.stage, obs) {
        (StageModel::ReadRecord, ObservationModel::Text(t)) => match t {
            Some(r) => if r == c.source_md5 {
                enter(c, 0, seq![])
            } else {
                StageModel::Decided(DecisionModel::Compress(c.types))
            },
            None => StageModel::Decided(DecisionModel::Compress(c.types)),
        },
        (StageModel::Exists { index, stale }, ObservationModel::Exists(found)) => if found {
            StageModel::ReadOutputRecord { index, stale }
        } else {
            found_stale(c, index, stale)
        },
        (StageModel::ReadOutputRecord { index, stale }, ObservationModel::Text(t)) => match t {
            Some(o) => StageModel::ReadOutput { index, stale, output_record: o },
            None => found_stale(c, index, stale),
        },
        (StageModel::ReadOutput { index, stale, output_record }, ObservationModel::Bytes(b)) => match b {
            Some(content) => if md5_text(content) == output_record {
                enter(c, index + 1, stale)
            } else {
                found_stale(c, index, stale)
            },
            None => found_stale(c, index, stale),
        },
        _ => c.stage,
    }
}

spec fn stage_model(s: Stage) -> StageModel {
    match s {
        Stage::ReadRecord => StageModel::ReadRecord,
        Stage::Exists { index, stale } => StageModel::Exists { index: index as nat, stale: stale@ },
        Stage::ReadOutputRecord { index, stale } => StageModel::ReadOutputRecord {
            index: index as nat,
            stale: stale@,
        },
        Stage::ReadOutput { index, stale, output_record } => StageModel::ReadOutput {
            index: index as nat,
            stale: stale@,
            output_record: output_record@,
        },
        Stage::Decided(d) => StageModel::Decided(d@),
    }
}

impl FileCheck {
    #[verifier::type_invariant]
    spec fn well_formed(self) -> bool {
        match self.stage {
            Stage::Exists { index, .. } => index < self.types.len(),
            Stage::ReadOutputRecord { index, .. } => index < self.types.len(),
            Stage::ReadOutput { index, .. } => index < self.types.len(),
            _ => true,
        }
    }

    /// The model of this check.
    pub closed spec fn model(self) -> CheckModel {
        CheckModel {
            original: self.original@,
            types: self.types@,
            source_md5: self.source_md5@,
            stage: stage_model(self.stage),
        }
    }

    /// Starts the check of `original`, whose contents are `source`, for the
    /// formats `types`. Without records every format is produced at once;
    /// with them the original's record is read first.
    pub fn new(original: &str, source: &[u8], types: Vec<CompressType>, use_records: bool) -> (c: FileCheck)
        ensures
            c.model().original == original@,
            c.model().types == types@,
            c.model().source_md5 == (if use_records {
                md5_text(source@)
            } else {
                Seq::<char>::empty()
            }),
            c.model().stage == (if use_records {
                StageModel::ReadRecord
            } else {
                StageModel::Decided(DecisionModel::Compress(types@))
            }),
    {
        if use_records {
            FileCheck {
                original: original.to_owned(),
                types,
                source_md5: md5_hex(source),
                stage: Stage::ReadRecord,
            }
        } else {
            let all = types.clone();
            proof {
                assert(all@ =~= types@);
            }
            FileCheck {
                original: original.to_owned(),
                types,
                source_md5: String::new(),
                stage: Stage::Decided(FileDecision::Compress(all)),
            }
        }
    }

    /// The checksum text of the original's contents (empty without records).
    pub fn source_md5(&self) -> (s: &String)
        ensures
            s@ == self.model().source_md5,
    {
        &self.source_md5
    }

    /// The file to look at next.
    pub fn probe(&self) -> (p: Probe)
        ensures
            p@ == spec_probe(self.model()),
    {
        proof {
            use_type_invariant(self);
        }
        match &self.stage {
            Stage::ReadRecord => Probe::ReadText(record_name_of(self.original.as_str())),
            Stage::Exists { index, .. } => {
                let name = self.types[*index].get_filename(self.original.as_str());
                Probe::Exists(name)
            },
            Stage::ReadOutputRecord { index, .. } => {
                let name = self.types[*index].get_filename(self.original.as_str());
                Probe::ReadText(record_name_of(name.as_str()))
            },
            Stage::ReadOutput { index, .. } => {
                let name = self.types[*index].get_filename(self.original.as_str());
                Probe::ReadBytes(name)
            },
            Stage::Decided(_) => Probe::Done,
        }
    }

    /// Whether the check is decided.
    pub fn is_decided(&self) -> (d: bool)
        ensures
            d == (self.model().stage is Decided),
    {
        match &self.stage {
            Stage::Decided(_) => true,
            _ => false,
        }
    }

    fn enter_exec(&self, index: usize, stale: Vec<CompressType>) -> (s: Stage)
        requires
            index <= self.types.len(),
        ensures
            (match s {
                Stage::Exists { index, .. } => index < self.types.len(),
                Stage::Decided(_) => true,
                _ => false,
            }),
            stage_model(s) == enter(self.model(), index as nat, stale@),
    {
        if index < self.types.len() {
            Stage::Exists { index, stale }
        } else if stale.len() == 0 {
            Stage::Decided(FileDecision::Skip)
        } else {
            Stage::Decided(FileDecision::Compress(stale))
        }
    }

    fn stale_exec(&self, index: usize, stale: &Vec<CompressType>) -> (s: Stage)
        requires
            index < self.types.len(),
        ensures
            (match s {
                Stage::Exists { index, .. } => index < self.types.len(),
                Stage::Decided(_) => true,
                _ => false,
            }),
            stage_model(s) == found_stale(self.model(), index as nat, stale@),
    {
        let mut more = stale.clone();
        proof {
            assert(more@ =~= stale@);
        }
        more.push(self.types[index]);
        self.enter_exec(index + 1, more)
    }

    /// Records what the caller found about the file of [`FileCheck::probe`].
    pub fn observe(&mut self, obs: Observation)
        requires
            answers(old(self).model().stage, obs@),
        ensures
            final(self).model().original == old(self).model().original,
            final(self).model().types == old(self).model().types,
            final(self).model().source_md5 == old(self).model().source_md5,
            final(self).model().stage == spec_observe(old(self).model(), obs@),
    {
        proof {
            use_type_invariant(&*self);
        }
        let next = match (&self.stage, obs) {
            (Stage::ReadRecord, Observation::Text(t)) => {
                let matches = match &t {
                    Some(r) => *r == self.source_md5,
                    None => false,
                };
                if matches {
                    let none: Vec<CompressType> = Vec::new();
                    proof {
                        assert(none@ =~= seq![]);
                    }
                    self.enter_exec(0, none)
                } else {
                    let all = self.types.clone();
                    proof {
                        assert(all@ =~= self.types@);
                    }
                    Stage::Decided(FileDecision::Compress(all))
                }
            },
            (Stage::Exists { index, stale }, Observation::Exists(found)) => {
                if found {
                    Stage::ReadOutputRecord { index: *index, stale: stale.clone() }
                } else {
                    self.stale_exec(*index, stale)
                }
            },
            (Stage::ReadOutputRecord { index, stale }, Observation::Text(t)) => {
                match t {
                    Some(o) => Stage::ReadOutput {
                        index: *index,
                        stale: stale.clone(),
                        output_record: o,
                    },
                    None => self.stale_exec(*index, stale),
                }
            },
            (Stage::ReadOutput { index, stale, output_record }, Observation::Bytes(b)) => {
                match b {
                    Some(content) => {
                        let text = md5_hex(content.as_slice());
                        if text == *output_record {
                            self.enter_exec(*index + 1, stale.clone())
                        } else {
                            self.stale_exec(*index, stale)
                        }
                    },
                    None => self.stale_exec(*index, stale),
                }
            },
            _ => {
                proof {
                    assert(false);
                }
                Stage::ReadRecord
            },
        };
        self.stage = next;
    }

    /// The decision, once the check is decided.
    pub fn decision(&self) -> (d: &FileDecision)
        requires
            self.model().stage is Decided,
        ensures
            self.model().stage == StageModel::Decided(d@),
    {
        match &self.stage {
            Stage::Decided(d) => d,
            _ => unreached(),
        }
    }
}

/// What the files of one output hold: whether the output exists, the text
/// of its record (if readable) and its contents (if readable).
pub struct OutputFacts {
    pub exists: bool,
    pub record: Option<Seq<char>>,
    pub content: Option<Seq<u8>>,
}

/// What the files of one original hold: the text of the original's record
/// (if readable) and the facts of each output, in the order of the formats.
pub struct FileFacts {
    pub record: Option<Seq<char>>,
    pub outputs: Seq<OutputFacts>,
}

/// An output is fresh when it exists and its record, which can be read,
/// is the checksum text of its contents, which can be read.
pub open spec fn fresh(f: OutputFacts) -> bool {
    &&& f.exists
    &&& f.record is Some
    &&& f.content is Some
    &&& md5_text(f.content->0) == f.record->0
}

/// The formats, from position `i` on, whose outputs are not fresh, in order.
pub open spec fn stale_formats(types: Seq<CompressType>, outputs: Seq<OutputFacts>, i: nat) -> Seq<CompressType>
    decreases types.len() - i,
{
    if i >= types.len() {
        seq![]
    } else {
        (if fresh(outputs[i as int]) {
            seq![]
        } else {
            seq![types[i as int]]
        }) + stale_formats(types, outputs, i + 1)
    }
}

/// The decision that the records call for: every format for an original
/// whose record is missing or does not match its contents; otherwise skip
/// when every output is fresh, or make again exactly the stale ones.
pub open spec fn expected_decision(c: CheckModel, facts: FileFacts) -> DecisionModel {
    match facts.record {
        Some(r) => if r == c.source_md5 {
            settle(stale_formats(c.types, facts.outputs, 0))
        } else {
            DecisionModel::Compress(c.types)
        },
        None => DecisionModel::Compress(c.types),
    }
}

/// The position of the output that a stage looks at.
pub open spec fn stage_index(s: StageModel) -> nat {
    match s {
        StageModel::Exists { index, .. } => index,
        StageModel::ReadOutputRecord { index, .. } => index,
        StageModel::ReadOutput { index, .. } => index,
        _ => 0,
    }
}

/// The true answer to the probe of a stage.
pub open spec fn truthful(facts: FileFacts, s: StageModel) -> ObservationModel {
    let f = facts.outputs[stage_index(s) as int];
    match s {
        StageModel::ReadRecord => ObservationModel::Text(facts.record),
        StageModel::ReadOutputRecord { .. } => ObservationModel::Text(f.record),
        StageModel::ReadOutput { .. } => ObservationModel::Bytes(f.content),
        _ => ObservationModel::Exists(f.exists),
    }
}

/// The check after `n` probes, each answered truthfully.
pub open spec fn run_check(c: CheckModel, facts: FileFacts, n: nat) -> StageModel
    decreases n,
{
    if n == 0 {
        c.stage
    } else {
        let next = spec_observe(c, truthful(facts, c.stage));
        run_check(CheckModel { stage: next, ..c }, facts, (n - 1) as nat)
    }
}

proof fn lemma_decided_stays(c: CheckModel, facts: FileFacts, n: nat)
    requires
        c.stage is Decided,
    ensures
        run_check(c, facts, n) == c.stage,
    decreases n,
{
    if n > 0 {
        assert(CheckModel { stage: spec_observe(c, truthful(facts, c.stage)), ..c } == c);
        lemma_decided_stays(c, facts, (n - 1) as nat);
    }
}

proof fn lemma_run_from(c: CheckModel, facts: FileFacts, i: nat, stale: Seq<CompressType>, n: nat)
    requires
        i <= c.types.len(),
        facts.outputs.len() == c.types.len(),
        c.stage == enter(c, i, stale),
        n >= 3 * (c.types.len() - i),
    ensures
        run_check(c, facts, n) == StageModel::Decided(
            settle(stale + stale_formats(c.types, facts.outputs, i)),
        ),
    decreases c.types.len() - i,
{
    let rest = stale_formats(c.types, facts.outputs, i);
    if i == c.types.len() {
        assert(rest =~= seq![]);
        assert(stale + rest =~= stale);
        lemma_decided_stays(c, facts, n);
    } else {
        let f = facts.outputs[i as int];
        let t = c.types[i as int];
        let next_rest = stale_formats(c.types, facts.outputs, i + 1);
        let c1 = CheckModel { stage: spec_observe(c, truthful(facts, c.stage)), ..c };
        let c2 = CheckModel { stage: spec_observe(c1, truthful(facts, c1.stage)), ..c };
        let c3 = CheckModel { stage: spec_observe(c2, truthful(facts, c2.stage)), ..c };
        assert(run_check(c, facts, n) == run_check(c1, facts, (n - 1) as nat));
        if fresh(f) {
            assert(rest =~= next_rest);
            assert(run_check(c1, facts, (n - 1) as nat) == run_check(c2, facts, (n - 2) as nat));
            assert(run_check(c2, facts, (n - 2) as nat) == run_check(c3, facts, (n - 3) as nat));
            assert(c3.stage == enter(c3, i + 1, stale));
            lemma_run_from(c3, facts, i + 1, stale, (n - 3) as nat);
        } else {
            assert(rest =~= seq![t] + next_rest);
            assert(stale + rest =~= stale.push(t) + next_rest);
            if !f.exists {
                assert(c1.stage == enter(c1, i + 1, stale.push(t)));
                lemma_run_from(c1, facts, i + 1, stale.push(t), (n - 1) as nat);
            } else if f.record is None {
                assert(run_check(c1, facts, (n - 1) as nat) == run_check(c2, facts, (n - 2) as nat));
                assert(c2.stage == enter(c2, i + 1, stale.push(t)));
                lemma_run_from(c2, facts, i + 1, stale.push(t), (n - 2) as nat);
            } else {
                assert(run_check(c1, facts, (n - 1) as nat) == run_check(c2, facts, (n - 2) as nat));
                assert(run_check(c2, facts, (n - 2) as nat) == run_check(c3, facts, (n - 3) as nat));
                assert(c3.stage == enter(c3, i + 1, stale.push(t)));
                lemma_run_from(c3, facts, i + 1, stale.push(t), (n - 3) as nat);
            }
        }
    }
}

/// A check started with records in use and answered truthfully is decided,
/// after at most one probe for the original and three per output, as the
/// records call for: an unchanged original whose outputs are all fresh is
/// skipped, a changed or unrecorded one gets every format, and otherwise
/// every stale output, and only those, is made again.
pub proof fn lemma_check_outcome(c: CheckModel, facts: FileFacts)
    requires
        facts.outputs.len() == c.types.len(),
        c.stage == StageModel::ReadRecord,
    ensures
        run_check(c, facts, 1 + 3 * c.types.len()) == StageModel::Decided(expected_decision(c, facts)),
{
    let n = 1 + 3 * c.types.len();
    let c1 = CheckModel { stage: spec_observe(c, truthful(facts, c.stage)), ..c };
    assert(run_check(c, facts, n) == run_check(c1, facts, (n - 1) as nat));
    match facts.record {
        Some(r) => {
            if r == c.source_md5 {
                assert(c1.stage == enter(c1, 0, seq![]));
                lemma_run_from(c1, facts, 0, seq![], (n - 1) as nat);
                assert(seq![] + stale_formats(c.types, facts.outputs, 0) =~= stale_formats(c.types, facts.outputs, 0));
            } else {
                lemma_decided_stays(c1, facts, (n - 1) as nat);
            }
        },
        None => {
            lemma_decided_stays(c1, facts, (n - 1) as nat);
        },
    }
}

/// Once every output has been made from the current contents and recorded,
/// with the original's record matching its contents, the next check skips
/// the file: a second run changes nothing.
pub proof fn lemma_second_run_skips(c: CheckModel, facts: FileFacts)
    requires
        facts.outputs.len() == c.types.len(),
        c.stage == StageModel::ReadRecord,
        facts.record == Some(c.source_md5),
        forall|i: int| 0 <= i < facts.outputs.len() ==> fresh(#[trigger] facts.outputs[i]),
    ensures
        run_check(c, facts, 1 + 3 * c.types.len()) == StageModel::Decided(DecisionModel::Skip),
{
    lemma_check_outcome(c, facts);
    lemma_all_fresh(c.types, facts.outputs, 0);
}

proof fn lemma_all_fresh(types: Seq<CompressType>, outputs: Seq<OutputFacts>, i: nat)
    requires
        outputs.len() == types.len(),
        forall|j: int| 0 <= j < outputs.len() ==> fresh(#[trigger] outputs[j]),
    ensures
        stale_formats(types, outputs, i) == Seq::<CompressType>::empty(),
    decreases types.len() - i,
{
    if i < types.len() {
        lemma_all_fresh(types, outputs, i + 1);
        assert(fresh(outputs[i as int]));
        assert(stale_formats(types, outputs, i) =~= Seq::<CompressType>::empty());
    }
}

} // verus!
