use std::collections::HashSet;

use pg_replicate::batching::BatchConfig;
use pg_replicate::pipeline::{collect_batch, BatchDataPipeline, PipelineAction, PipelineError, PipelineStep, ResumptionState};

const A: u32 = 1;
const B: u32 = 2;
const C: u32 = 3;

fn pipeline(action: PipelineAction) -> BatchDataPipeline<(), ()> {
    BatchDataPipeline::new((), (), action, BatchConfig::new(10, 1000))
}

#[test]
fn both_resumes_after_checkpoint() {
    let resumption = ResumptionState { copied_tables: HashSet::from([A]), last_lsn: 100 };
    let steps = pipeline(PipelineAction::Both).plan(&resumption, &[A, B, C]).unwrap();
    assert_eq!(
        steps,
        vec![
            PipelineStep::WriteTableSchemas,
            PipelineStep::TruncateTable(B),
            PipelineStep::CopyTable(B),
            PipelineStep::TableCopied(B),
            PipelineStep::TruncateTable(C),
            PipelineStep::CopyTable(C),
            PipelineStep::TableCopied(C),
            PipelineStep::CommitTransaction,
            PipelineStep::StreamCdc(101),
        ]
    );
}

#[test]
fn copied_tables_are_skipped() {
    let resumption = ResumptionState { copied_tables: HashSet::from([A, B]), last_lsn: 7 };
    let steps = pipeline(PipelineAction::Both).plan(&resumption, &[A, B]).unwrap();
    assert_eq!(steps, vec![PipelineStep::WriteTableSchemas, PipelineStep::CommitTransaction, PipelineStep::StreamCdc(8)]);
}

#[test]
fn single_phase_actions() {
    let resumption = ResumptionState { copied_tables: HashSet::new(), last_lsn: 0 };
    let steps = pipeline(PipelineAction::CdcOnly).plan(&resumption, &[A]).unwrap();
    assert_eq!(steps, vec![PipelineStep::WriteTableSchemas, PipelineStep::StreamCdc(1)]);
    let steps = pipeline(PipelineAction::TableCopiesOnly).plan(&resumption, &[A]).unwrap();
    assert_eq!(
        steps,
        vec![
            PipelineStep::WriteTableSchemas,
            PipelineStep::TruncateTable(A),
            PipelineStep::CopyTable(A),
            PipelineStep::TableCopied(A),
            PipelineStep::CommitTransaction,
        ]
    );
}

#[test]
fn last_lsn_overflow() {
    let resumption = ResumptionState { copied_tables: HashSet::new(), last_lsn: u64::MAX };
    assert_eq!(pipeline(PipelineAction::Both).plan(&resumption, &[]), Err(PipelineError::LsnOverflow));
    assert!(pipeline(PipelineAction::TableCopiesOnly).plan(&resumption, &[]).is_ok());
}

#[test]
fn batch_errors_stop_at_first() {
    let ok: Vec<Result<u8, &str>> = vec![Ok(1), Ok(2), Ok(3)];
    assert_eq!(collect_batch(ok), Ok(vec![1, 2, 3]));
    let bad: Vec<Result<u8, &str>> = vec![Ok(1), Err("first"), Ok(3), Err("second")];
    assert_eq!(collect_batch(bad), Err("first"));
    let empty: Vec<Result<u8, &str>> = vec![];
    assert_eq!(collect_batch(empty), Ok(vec![]));
}
