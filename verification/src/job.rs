//! The job model: status, record, attached result, and the
//! well-formedness invariant that every observable record satisfies.

use vstd::prelude::*;

use crate::document::{ContentView, ParsedContent};

verus! {

/// The job state machine's states. `Completed` and `Failed` are terminal.
#[derive(Clone, Copy, Debug, PartialEq, Eq, Structural)]
pub enum JobStatus {
    Queued,
    Processing,
    Completed,
    Failed,
}

/// Whether a status is terminal: no job transitions out of it.
pub open spec fn is_terminal(s: JobStatus) -> bool {
    s == JobStatus::Completed || s == JobStatus::Failed
}

/// The metadata payload attached to a finished result: when the job was
/// processed and from which stored path.
#[derive(Debug)]
pub struct ResultInfo {
    pub processed_at: String,
    pub source_path: String,
}

pub ghost struct ResultInfoView {
    pub processed_at: Seq<char>,
    pub source_path: Seq<char>,
}

impl View for ResultInfo {
    type V = ResultInfoView;

    open spec fn view(&self) -> ResultInfoView {
        ResultInfoView { processed_at: self.processed_at@, source_path: self.source_path@ }
    }
}

/// The immutable payload attached to a job exactly once, on the
/// transition into `Completed`.
#[derive(Debug)]
pub struct JobResult {
    pub filename: String,
    pub file_type: String,
    pub content: ParsedContent,
    pub metadata: ResultInfo,
}

pub ghost struct JobResultView {
    pub filename: Seq<char>,
    pub file_type: Seq<char>,
    pub content: ContentView,
    pub metadata: ResultInfoView,
}

impl View for JobResult {
    type V = JobResultView;

    open spec fn view(&self) -> JobResultView {
        JobResultView {
            filename: self.filename@,
            file_type: self.file_type@,
            content: self.content@,
            metadata: self.metadata@,
        }
    }
}

/// One unit of requested document conversion, tracked from `Queued` to a
/// terminal state. The identifier is assigned at creation and immutable.
#[derive(Debug)]
pub struct Job {
    pub id: u128,
    pub status: JobStatus,
    pub progress: u8,
    pub message: Option<String>,
    pub result: Option<JobResult>,
}

pub ghost struct JobView {
    pub id: u128,
    pub status: JobStatus,
    pub progress: u8,
    pub message: Option<Seq<char>>,
    pub result: Option<JobResultView>,
}

impl View for Job {
    type V = JobView;

    open spec fn view(&self) -> JobView {
        JobView {
            id: self.id,
            status: self.status,
            progress: self.progress,
            message: self.message.deep_view(),
            result: match self.result {
                Some(ref r) => Some(r@),
                None => None,
            },
        }
    }
}

/// The record invariant: a result is attached if and only if the job is
/// `Completed`, and progress stays within the 0..=100 range.
pub open spec fn job_wf(j: JobView) -> bool {
    &&& j.result is Some <==> j.status == JobStatus::Completed
    &&& j.progress <= 100
}

} // verus!
