//! The worker loop's verified core: claiming one pending job at a time,
//! driving it through Queued -> Processing -> {Completed, Failed}, and
//! attaching the result atomically with the transition into Completed.
//! The caller runs the loop itself (sleeping between polls and invoking
//! the external converters); every decision stands here.

use vstd::prelude::*;

use crate::document::{spec_classify, DocumentMetadata, FileType, ParsedContent};
use crate::errors::ParseError;
use crate::job::{is_terminal, JobResult, JobStatus, ResultInfo};
use crate::job_queue::{status_update, JobQueue};
use crate::parser::{input_encodable, input_matches, now_rfc3339, spec_parse, ConversionInput,
    DocumentParser};
use crate::text::{find_char, find_char_exec, is_space, lemma_find_char_at, lemma_find_char_some,
    spec_trim, trim_end, trim_start, trim_str};

verus! {

/// The filename a job's message carries: the text before the first
/// opening parenthesis, trimmed. A message without one resolves to
/// nothing.
pub open spec fn spec_resolve_filename(msg: Seq<char>) -> Option<Seq<char>> {
    match find_char(msg, '(') {
        None => None,
        Some(i) => Some(spec_trim(msg.take(i))),
    }
}

/// The filename resolved from a job record's message, if any.
pub open spec fn resolve_of_job(j: crate::job::JobView) -> Option<Seq<char>> {
    match j.message {
        None => None,
        Some(m) => spec_resolve_filename(m),
    }
}

/// Resolves the filename out of a message, as `spec_resolve_filename`
/// describes.
pub fn resolve_filename(msg: &str) -> (r: Option<String>)
    ensures
        r.deep_view() == spec_resolve_filename(msg@),
{
    match find_char_exec(msg, '(') {
        None => None,
        Some(i) => {
            proof {
                lemma_find_char_some(msg@, '(');
            }
            let prefix = msg.substring_char(0, i);
            assert(prefix@ =~= msg@.take(i as int));
            Some(String::from_str(trim_str(prefix)))
        },
    }
}

/// The transitions of the job state machine; terminal states have none.
pub open spec fn step_allowed(from: JobStatus, to: JobStatus) -> bool {
    ||| from == JobStatus::Queued && to == JobStatus::Processing
    ||| from == JobStatus::Processing && (to == JobStatus::Completed || to == JobStatus::Failed)
}

/// No transition leaves a terminal state: a job observed Completed or
/// Failed stays so.
pub proof fn lemma_terminal_stable(s: JobStatus, t: JobStatus)
    ensures
        is_terminal(s) ==> !step_allowed(s, t),
{
}

pub ghost struct ClaimView {
    pub id: u128,
    pub filename: Seq<char>,
    pub file_type: FileType,
}

struct ClaimTicket {
    id: u128,
    filename: String,
    file_type: FileType,
}

/// What one claim attempt reports.
#[derive(Debug)]
pub enum ClaimOutcome {
    /// Nothing is pending.
    NoWork,
    /// A claim is already in flight; nothing changes.
    Busy,
    /// The popped identifier has no record: a tolerated anomaly, skipped.
    Missing(u128),
    /// The popped identifier's record cannot be decoded; skipped.
    Corrupt(u128),
    /// The record is not in the queued state; skipped and left untouched.
    NotQueued(u128),
    /// The filename cannot be resolved from the stored message, or it
    /// classifies as an unsupported type: the job fails immediately.
    Rejected(u128),
    /// The job moved to Processing; conversion may start.
    Claimed { id: u128, filename: String, file_type: FileType },
}

/// What finishing the in-flight job reports.
#[derive(Debug)]
pub enum FinishOutcome {
    /// No claim is in flight; there is nothing to finish.
    NoClaim,
    /// The claimed record vanished mid-update; nothing written.
    Vanished(u128),
    /// The claimed record no longer decodes; nothing written.
    CorruptRecord(u128),
    /// The claimed record is no longer Processing; left untouched.
    Stale(u128),
    /// The job reached its terminal state.
    Done(u128),
}

/// The background worker: owns the store and queue, claims at most one
/// job at a time, and never starts a second before finishing the first.
pub struct BackgroundWorker {
    job_queue: JobQueue,
    parser: DocumentParser,
    poll_interval_secs: u64,
    current: Option<ClaimTicket>,
}

impl BackgroundWorker {
    pub closed spec fn store(self) -> JobQueue {
        self.job_queue
    }

    pub closed spec fn claim(self) -> Option<ClaimView> {
        match self.current {
            None => None,
            Some(t) => Some(ClaimView { id: t.id, filename: t.filename@, file_type: t.file_type }),
        }
    }

    pub closed spec fn interval(self) -> u64 {
        self.poll_interval_secs
    }

    pub open spec fn wf(self) -> bool {
        self.store().wf()
    }

    pub fn new(job_queue: JobQueue, poll_interval_secs: u64) -> (w: BackgroundWorker)
        requires
            job_queue.wf(),
        ensures
            w.wf(),
            w.store() == job_queue,
            w.claim() is None,
            w.interval() == poll_interval_secs,
    {
        BackgroundWorker { job_queue, parser: DocumentParser::new(), poll_interval_secs, current: None }
    }

    /// How long the caller should sleep between empty polls.
    pub fn poll_interval(&self) -> (r: u64)
        ensures
            r == self.interval(),
    {
        self.poll_interval_secs
    }

    /// The store, for the producer-facing reads and writes that share it
    /// with this worker.
    pub fn queue(&self) -> (q: &JobQueue)
        ensures
            *q == self.store(),
    {
        &self.job_queue
    }

    /// Mutable access to the store, for producers enqueuing work.
    pub fn queue_mut(&mut self) -> (q: &mut JobQueue)
        ensures
            *q == old(self).store(),
            final(self).store() == *final(q),
            final(self).claim() == old(self).claim(),
            final(self).interval() == old(self).interval(),
    {
        &mut self.job_queue
    }

    /// Claims the next pending job, if any: pops one identifier, checks
    /// its record, resolves the filename out of the stored message, and
    /// moves the job to Processing with progress reset. Only a Queued
    /// record is ever written to, so no terminal job is touched; at most
    /// one claim is in flight at a time.
    pub fn claim_next(&mut self) -> (r: ClaimOutcome)
        requires
            old(self).wf(),
        ensures
            final(self).wf(),
            final(self).interval() == old(self).interval(),
            old(self).claim() is Some ==> r is Busy,
            match r {
                ClaimOutcome::Busy => {
                    &&& old(self).claim() is Some
                    &&& final(self).claim() == old(self).claim()
                    &&& JobQueue::same_state(final(self).store(), old(self).store())
                },
                ClaimOutcome::NoWork => {
                    &&& old(self).store().pending_view().len() == 0
                    &&& final(self).claim() == old(self).claim()
                    &&& JobQueue::same_state(final(self).store(), old(self).store())
                },
                ClaimOutcome::Missing(id) => {
                    &&& popped(old(self).store(), final(self).store(), id)
                    &&& old(self).store().raw_at(id) is None
                    &&& forall|o: u128|
                        final(self).store().raw_at(o) == old(self).store().raw_at(o)
                    &&& final(self).claim() is None
                },
                ClaimOutcome::Corrupt(id) => {
                    &&& popped(old(self).store(), final(self).store(), id)
                    &&& old(self).store().raw_at(id) is Some
                    &&& old(self).store().job_at(id) is None
                    &&& forall|o: u128|
                        final(self).store().raw_at(o) == old(self).store().raw_at(o)
                    &&& final(self).claim() is None
                },
                ClaimOutcome::NotQueued(id) => {
                    &&& popped(old(self).store(), final(self).store(), id)
                    &&& old(self).store().job_at(id) matches Some(j) && j.status
                        != JobStatus::Queued
                    &&& forall|o: u128|
                        final(self).store().raw_at(o) == old(self).store().raw_at(o)
                    &&& final(self).claim() is None
                },
                ClaimOutcome::Rejected(id) => {
                    &&& popped(old(self).store(), final(self).store(), id)
                    &&& old(self).store().job_at(id) matches Some(j) && j.status
                        == JobStatus::Queued && (match resolve_of_job(j) {
                        None => final(self).store().job_at(id) == Some(
                            status_update(
                                j,
                                JobStatus::Failed,
                                100,
                                Some("the filename could not be resolved from the job message"@),
                            ),
                        ),
                        Some(name) => spec_classify(name) == FileType::Unknown
                            && final(self).store().job_at(id) == Some(
                            status_update(
                                j,
                                JobStatus::Failed,
                                100,
                                Some("unsupported file type"@),
                            ),
                        ),
                    })
                    &&& forall|o: u128|
                        o != id ==> final(self).store().raw_at(o) == old(self).store().raw_at(o)
                    &&& final(self).claim() is None
                },
                ClaimOutcome::Claimed { id, filename, file_type } => {
                    &&& popped(old(self).store(), final(self).store(), id)
                    &&& old(self).store().job_at(id) matches Some(j) && j.status
                        == JobStatus::Queued && resolve_of_job(j) == Some(filename@)
                        && final(self).store().job_at(id) == Some(
                        status_update(j, JobStatus::Processing, 0, Some("processing started"@)),
                    )
                    &&& file_type == spec_classify(filename@)
                    &&& file_type != FileType::Unknown
                    &&& forall|o: u128|
                        o != id ==> final(self).store().raw_at(o) == old(self).store().raw_at(o)
                    &&& final(self).claim() == Some(
                        ClaimView { id, filename: filename@, file_type },
                    )
                },
            },
    {
        if self.current.is_some() {
            return ClaimOutcome::Busy;
        }
        let popped_id = match self.job_queue.pop_pending() {
            None => {
                return ClaimOutcome::NoWork;
            },
            Some(id) => id,
        };
        let job = match self.job_queue.get_job(popped_id) {
            Ok(None) => {
                return ClaimOutcome::Missing(popped_id);
            },
            Err(_) => {
                return ClaimOutcome::Corrupt(popped_id);
            },
            Ok(Some(job)) => job,
        };
        if job.status != JobStatus::Queued {
            return ClaimOutcome::NotQueued(popped_id);
        }
        let resolved = match &job.message {
            None => None,
            Some(m) => resolve_filename(m.as_str()),
        };
        let filename = match resolved {
            None => {
                let reason = String::from_str(
                    "the filename could not be resolved from the job message",
                );
                match self.job_queue.update_job_status(
                    popped_id,
                    JobStatus::Failed,
                    100,
                    Some(reason),
                ) {
                    Ok(()) => {},
                    Err(_) => {
                        proof {
                            assert(false);
                        }
                    },
                }
                return ClaimOutcome::Rejected(popped_id);
            },
            Some(name) => name,
        };
        let file_type = FileType::from_filename(filename.as_str());
        if file_type == FileType::Unknown {
            let reason = String::from_str("unsupported file type");
            match self.job_queue.update_job_status(popped_id, JobStatus::Failed, 100, Some(reason))
            {
                Ok(()) => {},
                Err(_) => {
                    proof {
                        assert(false);
                    }
                },
            }
            return ClaimOutcome::Rejected(popped_id);
        }
        let notice = String::from_str("processing started");
        match self.job_queue.update_job_status(popped_id, JobStatus::Processing, 0, Some(notice)) {
            Ok(()) => {},
            Err(_) => {
                proof {
                    assert(false);
                }
            },
        }
        let ticket_name = filename.clone();
        self.current = Some(
            ClaimTicket { id: popped_id, filename: ticket_name, file_type },
        );
        ClaimOutcome::Claimed { id: popped_id, filename, file_type }
    }

    /// Finishes the in-flight job with the strategy's outcome: parsed
    /// content completes the job with its result attached atomically,
    /// a hard parse error fails it; either way the claim is released
    /// and progress reaches 100. Only a record still in Processing is
    /// written to.
    pub fn finish_job(&mut self, outcome: Result<ParsedContent, ParseError>) -> (r: FinishOutcome)
        requires
            old(self).wf(),
        ensures
            final(self).wf(),
            final(self).interval() == old(self).interval(),
            final(self).claim() is None,
            match r {
                FinishOutcome::NoClaim => old(self).claim() is None && JobQueue::same_state(
                    final(self).store(),
                    old(self).store(),
                ),
                FinishOutcome::Vanished(id) => {
                    &&& old(self).claim() matches Some(c) && c.id == id
                    &&& old(self).store().raw_at(id) is None
                    &&& JobQueue::same_state(final(self).store(), old(self).store())
                },
                FinishOutcome::CorruptRecord(id) => {
                    &&& old(self).claim() matches Some(c) && c.id == id
                    &&& old(self).store().raw_at(id) is Some
                    &&& old(self).store().job_at(id) is None
                    &&& JobQueue::same_state(final(self).store(), old(self).store())
                },
                FinishOutcome::Stale(id) => {
                    &&& old(self).claim() matches Some(c) && c.id == id
                    &&& old(self).store().job_at(id) matches Some(j) && j.status
                        != JobStatus::Processing
                    &&& JobQueue::same_state(final(self).store(), old(self).store())
                },
                FinishOutcome::Done(id) => {
                    &&& old(self).claim() matches Some(c) && c.id == id
                        && (old(self).store().job_at(id) matches Some(j)
                        && j.status == JobStatus::Processing && (
                    match outcome {
                        Ok(content) => final(self).store().job_at(id) matches Some(nj)
                            && nj.status == JobStatus::Completed && nj.progress == 100
                            && nj.message == Some("processing complete"@) && (nj.result matches
                        Some(rv) && rv.filename == c.filename && rv.file_type
                            == c.file_type.spec_tag() && rv.content == content@
                            && rv.metadata.source_path == "uploads/"@ + c.filename),
                        Err(e) => final(self).store().job_at(id) == Some(
                            status_update(
                                j,
                                JobStatus::Failed,
                                100,
                                Some("parse error: "@ + e.message@),
                            ),
                        ),
                    }))
                    &&& forall|o: u128|
                        o != id ==> final(self).store().raw_at(o) == old(self).store().raw_at(o)
                    &&& final(self).store().pending_view() == old(self).store().pending_view()
                },
            },
    {
        let ticket = match self.current.take() {
            None => {
                return FinishOutcome::NoClaim;
            },
            Some(t) => t,
        };
        let id = ticket.id;
        let job = match self.job_queue.get_job(id) {
            Ok(None) => {
                return FinishOutcome::Vanished(id);
            },
            Err(_) => {
                return FinishOutcome::CorruptRecord(id);
            },
            Ok(Some(job)) => job,
        };
        if job.status != JobStatus::Processing {
            return FinishOutcome::Stale(id);
        }
        match outcome {
            Ok(content) => {
                let mut source_path = String::from_str("uploads/");
                source_path.append(ticket.filename.as_str());
                let result = JobResult {
                    filename: ticket.filename,
                    file_type: String::from_str(ticket.file_type.to_string()),
                    content,
                    metadata: ResultInfo { processed_at: now_rfc3339(), source_path },
                };
                let notice = String::from_str("processing complete");
                match self.job_queue.complete_job(id, notice, result) {
                    Ok(()) => {},
                    Err(_) => {
                        proof {
                            assert(false);
                        }
                    },
                }
                FinishOutcome::Done(id)
            },
            Err(e) => {
                let mut reason = String::from_str("parse error: ");
                reason.append(e.message.as_str());
                match self.job_queue.update_job_status(id, JobStatus::Failed, 100, Some(reason)) {
                    Ok(()) => {},
                    Err(_) => {
                        proof {
                            assert(false);
                        }
                    },
                }
                FinishOutcome::Done(id)
            },
        }
    }
}

impl BackgroundWorker {
    /// Runs the claimed job's strategy over the gathered converter
    /// outcomes and finishes the job: parsed content completes it with
    /// the result attached, a hard parse error fails it. The strategy
    /// table `spec_parse` decides which, so a job completes exactly when
    /// its format's minimum viable extraction was available. The metadata
    /// snapshot must have been computed for the claimed job's type.
    pub fn process_claimed(&mut self, input: &ConversionInput, metadata: DocumentMetadata) -> (r:
        FinishOutcome)
        requires
            old(self).wf(),
            old(self).claim() matches Some(c) && input_matches(c.file_type, input@)
                && metadata@.file_type == c.file_type,
            input_encodable(input@),
        ensures
            final(self).wf(),
            final(self).interval() == old(self).interval(),
            final(self).claim() is None,
            match r {
                FinishOutcome::NoClaim => false,
                FinishOutcome::Vanished(id) => {
                    &&& old(self).claim() matches Some(c) && c.id == id
                    &&& old(self).store().raw_at(id) is None
                    &&& JobQueue::same_state(final(self).store(), old(self).store())
                },
                FinishOutcome::CorruptRecord(id) => {
                    &&& old(self).claim() matches Some(c) && c.id == id
                    &&& old(self).store().raw_at(id) is Some
                    &&& old(self).store().job_at(id) is None
                    &&& JobQueue::same_state(final(self).store(), old(self).store())
                },
                FinishOutcome::Stale(id) => {
                    &&& old(self).claim() matches Some(c) && c.id == id
                    &&& old(self).store().job_at(id) matches Some(j) && j.status
                        != JobStatus::Processing
                    &&& JobQueue::same_state(final(self).store(), old(self).store())
                },
                FinishOutcome::Done(id) => {
                    &&& old(self).claim() matches Some(c) && c.id == id
                        && (old(self).store().job_at(id) matches Some(j)
                        && j.status == JobStatus::Processing && (match spec_parse(
                        c.file_type,
                        input@,
                        metadata@,
                    ) {
                        Ok(cv) => final(self).store().job_at(id) matches Some(nj) && nj.status
                            == JobStatus::Completed && nj.progress == 100 && nj.message == Some(
                            "processing complete"@,
                        ) && (nj.result matches Some(rv) && rv.filename == c.filename
                            && rv.file_type == c.file_type.spec_tag() && rv.content == cv
                            && rv.metadata.source_path == "uploads/"@ + c.filename),
                        Err(msg) => final(self).store().job_at(id) == Some(
                            status_update(
                                j,
                                JobStatus::Failed,
                                100,
                                Some("parse error: "@ + msg),
                            ),
                        ),
                    }))
                    &&& forall|o: u128|
                        o != id ==> final(self).store().raw_at(o) == old(self).store().raw_at(o)
                    &&& final(self).store().pending_view() == old(self).store().pending_view()
                },
            },
    {
        let file_type: FileType = match &self.current {
            Some(t) => t.file_type,
            None => {
                proof {
                    assert(false);
                }
                FileType::Unknown
            },
        };
        let outcome = self.parser.parse_document(file_type, input, metadata);
        self.finish_job(outcome)
    }
}

/// The filename a job was enqueued under is resolved back unchanged
/// from the queued message, provided the name carries no opening
/// parenthesis and no surrounding whitespace.
pub proof fn lemma_queued_message_resolves(name: Seq<char>)
    requires
        forall|k: int| 0 <= k < name.len() ==> name[k] != '(',
        spec_trim(name) == name,
    ensures
        spec_resolve_filename(crate::job_queue::queued_message(name)) == Some(name),
{
    let msg = crate::job_queue::queued_message(name);
    reveal_strlit(" (");
    let i = name.len() as int + 1;
    assert(msg[i] == '(');
    assert forall|k: int| 0 <= k < i implies msg[k] != '(' by {
        if k < name.len() {
            assert(msg[k] == name[k]);
        } else {
            assert(msg[k] == ' ');
        }
    }
    lemma_find_char_at(msg, '(', i);
    let prefix = msg.take(i);
    assert(prefix =~= name + seq![' ']);
    if name.len() == 0 {
        assert(prefix =~= seq![' ']);
        assert(is_space(prefix[0]));
        assert(prefix.skip(1) =~= Seq::<char>::empty());
        assert(trim_start(Seq::<char>::empty()) =~= Seq::<char>::empty());
        assert(trim_start(prefix).len() == 0);
        assert(spec_trim(prefix) =~= name);
    } else {
        assert(!is_space(name[0])) by {
            if is_space(name[0]) {
                assert(trim_start(name) == trim_start(name.skip(1)));
                lemma_trim_start_shrinks(name.skip(1));
                lemma_trim_end_shrinks(trim_start(name.skip(1)));
                assert(spec_trim(name).len() < name.len());
            }
        }
        assert(prefix[0] == name[0]);
        assert(trim_start(prefix) == prefix);
        assert(prefix[prefix.len() - 1] == ' ');
        assert(prefix.drop_last() =~= name);
        assert(trim_end(prefix) == trim_end(name));
        assert(!is_space(name[name.len() - 1])) by {
            if is_space(name[name.len() - 1]) {
                assert(trim_end(name) == trim_end(name.drop_last()));
                lemma_trim_end_shrinks(name.drop_last());
                lemma_trim_start_of_trim_end(name);
            }
        }
        assert(trim_end(name) == name);
        assert(trim_start(name) == name);
        assert(spec_trim(prefix) == name);
    }
}

proof fn lemma_trim_start_shrinks(s: Seq<char>)
    ensures
        trim_start(s).len() <= s.len(),
    decreases s.len(),
{
    if s.len() > 0 && is_space(s[0]) {
        lemma_trim_start_shrinks(s.skip(1));
    }
}

proof fn lemma_trim_end_shrinks(s: Seq<char>)
    ensures
        trim_end(s).len() <= s.len(),
    decreases s.len(),
{
    if s.len() > 0 && is_space(s[s.len() - 1]) {
        lemma_trim_end_shrinks(s.drop_last());
    }
}

proof fn lemma_trim_start_of_trim_end(s: Seq<char>)
    ensures
        trim_start(trim_end(s)).len() <= trim_end(s).len(),
{
    lemma_trim_start_shrinks(trim_end(s));
}

/// The pending queue lost exactly its front entry, which was `id`.
pub open spec fn popped(before: JobQueue, after: JobQueue, id: u128) -> bool {
    &&& before.pending_view().len() > 0
    &&& before.pending_view()[0] == id
    &&& after.pending_view() == before.pending_view().skip(1)
}

} // verus!
