//! The replication pipeline: which steps a run performs, in which order,
//! given the checkpoint that the sink reports.
//!
//! A run is planned as a list of steps; the driver performs each step against
//! the source and the sink, and stops at the first failure.
use vstd::prelude::*;
use std::collections::HashSet;
use crate::batching::BatchConfig;
use crate::table::TableId;

verus! {

broadcast use vstd::std_specs::hash::group_hash_axioms;

/// Which phases a run performs.
#[derive(Clone, Copy, Debug, PartialEq, Eq, Structural)]
pub enum PipelineAction {
    TableCopiesOnly,
    CdcOnly,
    Both,
}

/// The checkpoint the sink keeps: the tables whose copy completed, and the
/// last log position it durably consumed.
#[derive(Debug)]
pub struct ResumptionState {
    pub copied_tables: HashSet<TableId>,
    pub last_lsn: u64,
}

/// One step of a run.
#[derive(Clone, Copy, Debug, PartialEq, Eq, Structural)]
pub enum PipelineStep {
    /// Hand the source's table schemas to the sink.
    WriteTableSchemas,
    /// Empty the table at the sink before copying it.
    TruncateTable(TableId),
    /// Copy the table's rows in batches.
    CopyTable(TableId),
    /// Record at the sink that the table's copy completed.
    TableCopied(TableId),
    /// Close the source's snapshot transaction.
    CommitTransaction,
    /// Stream change events in batches, starting at this log position.
    StreamCdc(u64),
}

#[derive(Clone, Copy, Debug, PartialEq, Eq, Structural)]
pub enum PipelineError {
    /// The checkpoint is the last log position there is.
    LsnOverflow,
}

/// The copy steps for the tables, in order, skipping those already copied.
pub open spec fn copy_steps(ids: Seq<TableId>, copied: Set<TableId>) -> Seq<PipelineStep>
    decreases ids.len(),
{
    if ids.len() == 0 {
        Seq::empty()
    } else {
        let id = ids.last();
        let rest = copy_steps(ids.drop_last(), copied);
        if copied.contains(id) {
            rest
        } else {
            rest + seq![PipelineStep::TruncateTable(id), PipelineStep::CopyTable(id), PipelineStep::TableCopied(id)]
        }
    }
}

/// The steps of a run: schemas; then, unless only CDC runs, the copies and
/// the commit; then, unless only copies run, CDC from one past the
/// checkpoint.
pub open spec fn pipeline_plan(action: PipelineAction, copied: Set<TableId>, last_lsn: u64, ids: Seq<TableId>) -> Seq<PipelineStep> {
    let copies = if action != PipelineAction::CdcOnly {
        copy_steps(ids, copied).push(PipelineStep::CommitTransaction)
    } else {
        Seq::empty()
    };
    let cdc = if action != PipelineAction::TableCopiesOnly {
        seq![PipelineStep::StreamCdc((last_lsn + 1) as u64)]
    } else {
        Seq::empty()
    };
    seq![PipelineStep::WriteTableSchemas] + copies + cdc
}

/// A run streams changes and the checkpoint leaves no next position.
pub open spec fn lsn_overflows(action: PipelineAction, last_lsn: u64) -> bool {
    action != PipelineAction::TableCopiesOnly && last_lsn == u64::MAX
}

/// A pipeline between a source and a sink.
pub struct BatchDataPipeline<Src, Snk> {
    pub source: Src,
    pub sink: Snk,
    pub action: PipelineAction,
    pub batch_config: BatchConfig,
}

impl<Src, Snk> BatchDataPipeline<Src, Snk> {
    pub fn new(source: Src, sink: Snk, action: PipelineAction, batch_config: BatchConfig) -> (r: Self)
        ensures
            r.source == source,
            r.sink == sink,
            r.action == action,
            r.batch_config == batch_config,
    {
        BatchDataPipeline { source, sink, action, batch_config }
    }

    /// The steps of a run over the source's tables `table_ids`, resuming from
    /// the sink's checkpoint.
    pub fn plan(&self, resumption: &ResumptionState, table_ids: &[TableId]) -> (r: Result<Vec<PipelineStep>, PipelineError>)
        ensures
            lsn_overflows(self.action, resumption.last_lsn) ==> r == Err::<Vec<PipelineStep>, PipelineError>(PipelineError::LsnOverflow),
            !lsn_overflows(self.action, resumption.last_lsn) ==> (r matches Ok(steps)
                && steps@ == pipeline_plan(self.action, resumption.copied_tables@, resumption.last_lsn, table_ids@)),
    {
        plan_steps(self.action, resumption, table_ids)
    }
}

fn push_copy_steps(steps: &mut Vec<PipelineStep>, copied: &HashSet<TableId>, table_ids: &[TableId])
    ensures
        final(steps)@ == old(steps)@ + copy_steps(table_ids@, copied@),
{
    let mut i: usize = 0;
    assert(table_ids@.take(0) =~= Seq::<TableId>::empty());
    assert(steps@ =~= old(steps)@ + Seq::<PipelineStep>::empty());
    while i < table_ids.len()
        invariant
            i <= table_ids@.len(),
            steps@ == old(steps)@ + copy_steps(table_ids@.take(i as int), copied@),
        decreases table_ids@.len() - i,
    {
        let id = table_ids[i];
        proof {
            let t = table_ids@.take(i as int + 1);
            assert(t.drop_last() =~= table_ids@.take(i as int));
            assert(t.last() == id);
        }
        if !copied.contains(&id) {
            steps.push(PipelineStep::TruncateTable(id));
            steps.push(PipelineStep::CopyTable(id));
            steps.push(PipelineStep::TableCopied(id));
            assert(steps@ =~= old(steps)@ + copy_steps(table_ids@.take(i as int + 1), copied@));
        }
        i = i + 1;
    }
    assert(table_ids@.take(table_ids@.len() as int) =~= table_ids@);
}

fn plan_steps(action: PipelineAction, resumption: &ResumptionState, table_ids: &[TableId]) -> (r: Result<Vec<PipelineStep>, PipelineError>)
    ensures
        lsn_overflows(action, resumption.last_lsn) ==> r == Err::<Vec<PipelineStep>, PipelineError>(PipelineError::LsnOverflow),
        !lsn_overflows(action, resumption.last_lsn) ==> (r matches Ok(steps)
            && steps@ == pipeline_plan(action, resumption.copied_tables@, resumption.last_lsn, table_ids@)),
{
    let copies = action != PipelineAction::CdcOnly;
    let cdc = action != PipelineAction::TableCopiesOnly;
    if cdc && resumption.last_lsn == u64::MAX {
        return Err(PipelineError::LsnOverflow);
    }
    let mut steps: Vec<PipelineStep> = Vec::new();
    steps.push(PipelineStep::WriteTableSchemas);
    if copies {
        push_copy_steps(&mut steps, &resumption.copied_tables, table_ids);
        steps.push(PipelineStep::CommitTransaction);
    }
    if cdc {
        steps.push(PipelineStep::StreamCdc(resumption.last_lsn + 1));
    }
    assert(steps@ =~= pipeline_plan(action, resumption.copied_tables@, resumption.last_lsn, table_ids@));
    Ok(steps)
}

proof fn lemma_copy_steps_skip(ids: Seq<TableId>, copied: Set<TableId>)
    ensures
        forall|k: int| 0 <= k < copy_steps(ids, copied).len() ==> match #[trigger] copy_steps(ids, copied)[k] {
            PipelineStep::TruncateTable(t) => !copied.contains(t) && ids.contains(t),
            PipelineStep::CopyTable(t) => !copied.contains(t) && ids.contains(t),
            PipelineStep::TableCopied(t) => !copied.contains(t) && ids.contains(t),
            _ => false,
        },
    decreases ids.len(),
{
    if ids.len() > 0 {
        let rest = ids.drop_last();
        lemma_copy_steps_skip(rest, copied);
        let s = copy_steps(ids, copied);
        assert forall|k: int| 0 <= k < s.len() implies match #[trigger] s[k] {
            PipelineStep::TruncateTable(t) => !copied.contains(t) && ids.contains(t),
            PipelineStep::CopyTable(t) => !copied.contains(t) && ids.contains(t),
            PipelineStep::TableCopied(t) => !copied.contains(t) && ids.contains(t),
            _ => false,
        } by {
            let r = copy_steps(rest, copied);
            if k < r.len() {
                assert(s[k] == r[k]);
                match r[k] {
                    PipelineStep::TruncateTable(t) => { assert(rest.contains(t)); let j = choose|j: int| 0 <= j < rest.len() && rest[j] == t; assert(ids[j] == t); },
                    PipelineStep::CopyTable(t) => { assert(rest.contains(t)); let j = choose|j: int| 0 <= j < rest.len() && rest[j] == t; assert(ids[j] == t); },
                    PipelineStep::TableCopied(t) => { assert(rest.contains(t)); let j = choose|j: int| 0 <= j < rest.len() && rest[j] == t; assert(ids[j] == t); },
                    _ => {},
                }
            } else {
                assert(ids[ids.len() - 1] == ids.last());
            }
        }
    }
}

proof fn lemma_copy_steps_cover(ids: Seq<TableId>, copied: Set<TableId>, j: int)
    requires
        0 <= j < ids.len(),
        !copied.contains(ids[j]),
    ensures
        copy_steps(ids, copied).contains(PipelineStep::CopyTable(ids[j])),
        copy_steps(ids, copied).contains(PipelineStep::TruncateTable(ids[j])),
        copy_steps(ids, copied).contains(PipelineStep::TableCopied(ids[j])),
    decreases ids.len(),
{
    let rest = ids.drop_last();
    let s = copy_steps(ids, copied);
    if j < ids.len() - 1 {
        lemma_copy_steps_cover(rest, copied, j);
        assert(rest[j] == ids[j]);
        let r = copy_steps(rest, copied);
        assert(forall|k: int| 0 <= k < r.len() ==> s[k] == r[k]);
        let a = choose|k: int| 0 <= k < r.len() && r[k] == PipelineStep::CopyTable(ids[j]);
        assert(s[a] == PipelineStep::CopyTable(ids[j]));
        let b = choose|k: int| 0 <= k < r.len() && r[k] == PipelineStep::TruncateTable(ids[j]);
        assert(s[b] == PipelineStep::TruncateTable(ids[j]));
        let c = choose|k: int| 0 <= k < r.len() && r[k] == PipelineStep::TableCopied(ids[j]);
        assert(s[c] == PipelineStep::TableCopied(ids[j]));
    } else {
        let r = copy_steps(rest, copied);
        assert(s[r.len() as int] == PipelineStep::TruncateTable(ids[j]));
        assert(s[r.len() as int + 1] == PipelineStep::CopyTable(ids[j]));
        assert(s[r.len() as int + 2] == PipelineStep::TableCopied(ids[j]));
    }
}

/// Resumption: a run that performs both phases copies no table the sink
/// reports as copied, copies every other table of the source, and starts
/// streaming changes at exactly one past the sink's last log position, as
/// its last step.
pub proof fn lemma_resumption(copied: Set<TableId>, last_lsn: u64, ids: Seq<TableId>)
    requires
        last_lsn < u64::MAX,
    ensures
        ({
            let plan = pipeline_plan(PipelineAction::Both, copied, last_lsn, ids);
            &&& forall|k: int, t: TableId| 0 <= k < plan.len() && copied.contains(t) ==> plan[k] != PipelineStep::CopyTable(t)
                && plan[k] != PipelineStep::TruncateTable(t)
            &&& forall|t: TableId| ids.contains(t) && !copied.contains(t) ==> plan.contains(PipelineStep::CopyTable(t))
            &&& plan.last() == PipelineStep::StreamCdc((last_lsn + 1) as u64)
            &&& forall|k: int| 0 <= k < plan.len() - 1 ==> !(plan[k] is StreamCdc)
        }),
{
    let plan = pipeline_plan(PipelineAction::Both, copied, last_lsn, ids);
    let cs = copy_steps(ids, copied);
    lemma_copy_steps_skip(ids, copied);
    assert(plan == seq![PipelineStep::WriteTableSchemas] + cs.push(PipelineStep::CommitTransaction) + seq![PipelineStep::StreamCdc((last_lsn + 1) as u64)]);
    assert forall|k: int| 0 <= k < plan.len() - 1 implies !(plan[k] is StreamCdc) by {
        if 1 <= k < cs.len() + 1 {
            assert(plan[k] == cs[k - 1]);
        }
    }
    assert forall|k: int, t: TableId| 0 <= k < plan.len() && copied.contains(t) implies plan[k] != PipelineStep::CopyTable(t)
        && plan[k] != PipelineStep::TruncateTable(t) by {
        if 1 <= k < cs.len() + 1 {
            assert(plan[k] == cs[k - 1]);
        }
    }
    assert forall|t: TableId| ids.contains(t) && !copied.contains(t) implies plan.contains(PipelineStep::CopyTable(t)) by {
        let j = choose|j: int| 0 <= j < ids.len() && ids[j] == t;
        lemma_copy_steps_cover(ids, copied, j);
        let k = choose|k: int| 0 <= k < cs.len() && cs[k] == PipelineStep::CopyTable(t);
        assert(plan[k + 1] == cs[k]);
    }
}

/// The error of the first failed item, if any.
pub open spec fn first_error<T, E>(s: Seq<Result<T, E>>) -> Option<E>
    decreases s.len(),
{
    if s.len() == 0 {
        None
    } else {
        match s[0] {
            Err(e) => Some(e),
            Ok(_) => first_error(s.drop_first()),
        }
    }
}

/// The values of successful items.
pub open spec fn ok_values<T, E>(s: Seq<Result<T, E>>) -> Seq<T> {
    s.map_values(|x: Result<T, E>| x->Ok_0)
}

/// Unwraps a batch of fallible items: their values in order, or the error of
/// the first item that failed.
pub fn collect_batch<T, E>(batch: Vec<Result<T, E>>) -> (r: Result<Vec<T>, E>)
    ensures
        match first_error(batch@) {
            Some(e) => r == Err::<Vec<T>, E>(e),
            None => r matches Ok(v) && v@ == ok_values(batch@),
        },
{
    let ghost orig = batch@;
    let ghost n = batch@.len() as int;
    let mut batch = batch;
    let mut rev: Vec<T> = Vec::new();
    let mut err: Option<E> = None;
    assert(orig.skip(n) =~= Seq::<Result<T, E>>::empty());
    while batch.len() > 0
        invariant
            n == orig.len(),
            batch@.len() <= n,
            batch@ == orig.take(batch@.len() as int),
            err == first_error(orig.skip(batch@.len() as int)),
            err is None ==> rev@.len() == n - batch@.len(),
            err is None ==> forall|j: int| 0 <= j < rev@.len() ==> rev@[j] == orig[n - 1 - j]->Ok_0,
        decreases batch@.len(),
    {
        let ghost i = batch@.len() as int;
        let x = batch.pop().unwrap();
        proof {
            assert(orig.skip(i - 1).drop_first() =~= orig.skip(i));
            assert(orig.skip(i - 1)[0] == orig[i - 1]);
            assert(batch@ =~= orig.take(i - 1));
            assert(x == orig[i - 1]);
        }
        match x {
            Ok(v) => {
                rev.push(v);
            },
            Err(e) => {
                err = Some(e);
            },
        }
    }
    assert(orig.skip(0) =~= orig);
    match err {
        Some(e) => Err(e),
        None => {
            let mut out: Vec<T> = Vec::new();
            while rev.len() > 0
                invariant
                    n == orig.len(),
                    out@.len() + rev@.len() == n,
                    forall|j: int| 0 <= j < rev@.len() ==> rev@[j] == orig[n - 1 - j]->Ok_0,
                    forall|j: int| 0 <= j < out@.len() ==> out@[j] == orig[j]->Ok_0,
                decreases rev@.len(),
            {
                let v = rev.pop().unwrap();
                out.push(v);
            }
            assert(out@ =~= ok_values(orig));
            Ok(out)
        },
    }
}

} // verus!
