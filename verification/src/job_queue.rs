//! The job store and the pending-work queue. Records are persisted as
//! encoded text keyed by identifier, so every read decodes and can fail
//! with a data-integrity error; the pending queue holds bare identifiers
//! in FIFO admission order, decoupled from the keyed storage.

use vstd::prelude::*;

use crate::codec::{encode_record, decode_record, spec_encode, spec_decode};
use crate::document::{spec_classify, FileType};
use crate::errors::PipelineError;
use crate::job::{job_wf, Job, JobResult, JobResultView, JobStatus, JobView};

verus! {

/// Relies on `uuid::Uuid::new_v4` for a freshly generated random
/// identifier, taken as its 128-bit value. Nothing is assumed of the
/// value: the caller must handle a collision with an existing key.
#[verifier::external_body]
fn new_job_id() -> u128 {
    uuid::Uuid::new_v4().as_u128()
}

/// The notice a job carries from creation: the filename, its detected
/// type tag in parentheses, and a waiting note. The worker later resolves
/// the filename back out of this message.
pub open spec fn queued_message(name: Seq<char>) -> Seq<char> {
    name + " ("@ + spec_classify(name).spec_tag() + ") queued for processing"@
}

/// The record a freshly enqueued job is created with.
pub open spec fn initial_job(id: u128, name: Seq<char>) -> JobView {
    JobView {
        id,
        status: JobStatus::Queued,
        progress: 0,
        message: Some(queued_message(name)),
        result: None,
    }
}

/// The record after a status update outside `Completed`: status and
/// progress replaced, the message replaced only when one is given, and
/// no result attached.
pub open spec fn status_update(
    j: JobView,
    status: JobStatus,
    progress: u8,
    message: Option<Seq<char>>,
) -> JobView {
    JobView {
        id: j.id,
        status,
        progress,
        message: if message is Some {
            message
        } else {
            j.message
        },
        result: None,
    }
}

/// The record after the transition into `Completed`: progress 100 and
/// the result attached atomically with the status change.
pub open spec fn completed_update(j: JobView, message: Seq<char>, result: JobResultView) -> JobView {
    JobView {
        id: j.id,
        status: JobStatus::Completed,
        progress: 100,
        message: Some(message),
        result: Some(result),
    }
}

/// The index of the entry holding `id`, if any.
spec fn find_rec(es: Seq<(u128, String)>, id: u128) -> Option<int>
    decreases es.len(),
{
    if es.len() == 0 {
        None
    } else if es[0].0 == id {
        Some(0int)
    } else {
        match find_rec(es.skip(1), id) {
            None => None,
            Some(j) => Some(j + 1),
        }
    }
}

proof fn lemma_find_rec(es: Seq<(u128, String)>, id: u128)
    ensures
        match find_rec(es, id) {
            None => forall|k: int| 0 <= k < es.len() ==> (#[trigger] es[k]).0 != id,
            Some(i) => 0 <= i < es.len() && es[i].0 == id,
        },
    decreases es.len(),
{
    if es.len() > 0 && es[0].0 != id {
        lemma_find_rec(es.skip(1), id);
        assert forall|k: int| 1 <= k < es.len() implies (#[trigger] es[k]).0 == es.skip(1)[k
            - 1].0 by {}
    }
}

proof fn lemma_find_push(es: Seq<(u128, String)>, p: (u128, String), id: u128)
    ensures
        find_rec(es.push(p), id) == (match find_rec(es, id) {
            Some(i) => Some(i),
            None => if p.0 == id {
                Some(es.len() as int)
            } else {
                None::<int>
            },
        }),
    decreases es.len(),
{
    if es.len() == 0 {
        assert(es.push(p).len() == 1);
        assert(es.push(p)[0] == p);
        assert(es.push(p).skip(1) =~= Seq::<(u128, String)>::empty());
        assert(find_rec(es, id) is None);
        if p.0 == id {
            assert(find_rec(es.push(p), id) == Some(0int));
        } else {
            assert(find_rec(es.push(p).skip(1), id) is None);
            assert(find_rec(es.push(p), id) is None);
        }
    } else {
        assert(es.push(p)[0] == es[0]);
        assert(es.push(p).skip(1) =~= es.skip(1).push(p));
        lemma_find_push(es.skip(1), p, id);
        if es[0].0 != id {
            assert(find_rec(es.push(p), id) == match find_rec(es.skip(1).push(p), id) {
                None => None::<int>,
                Some(j) => Some(j + 1),
            });
            assert(es.skip(1).len() == es.len() - 1);
        }
    }
}

proof fn lemma_find_update(es: Seq<(u128, String)>, i: int, p: (u128, String), id: u128)
    requires
        0 <= i < es.len(),
        es[i].0 == p.0,
    ensures
        find_rec(es.update(i, p), id) == find_rec(es, id),
    decreases es.len(),
{
    if i == 0 {
        assert(es.update(0, p)[0].0 == es[0].0);
        assert(es.update(0, p).skip(1) =~= es.skip(1));
    } else {
        assert(es.update(i, p)[0] == es[0]);
        assert(es.update(i, p).skip(1) =~= es.skip(1).update(i - 1, p));
        lemma_find_update(es.skip(1), i - 1, p, id);
    }
}

/// The keyed job store together with the pending-work queue.
pub struct JobQueue {
    entries: Vec<(u128, String)>,
    pending: Vec<u128>,
}

impl JobQueue {
    /// Keys are unique, so each identifier denotes at most one record.
    pub closed spec fn wf(self) -> bool {
        forall|i: int, j: int|
            0 <= i < j < self.entries@.len() ==> (#[trigger] self.entries@[i]).0 != (
            #[trigger] self.entries@[j]).0
    }

    /// The stored text under an identifier, if any.
    pub closed spec fn raw_at(self, id: u128) -> Option<Seq<char>> {
        match find_rec(self.entries@, id) {
            None => None,
            Some(i) => Some(self.entries@[i].1@),
        }
    }

    /// The job record an identifier denotes: its stored text decoded.
    pub open spec fn job_at(self, id: u128) -> Option<JobView> {
        match self.raw_at(id) {
            None => None,
            Some(r) => spec_decode(r),
        }
    }

    /// The identifiers waiting to be claimed, in admission order.
    pub closed spec fn pending_view(self) -> Seq<u128> {
        self.pending@
    }

    /// Two store states that no caller can tell apart.
    pub open spec fn same_state(a: JobQueue, b: JobQueue) -> bool {
        &&& forall|o: u128| a.raw_at(o) == b.raw_at(o)
        &&& a.pending_view() == b.pending_view()
    }

    /// An empty store: no records, nothing pending.
    pub fn new() -> (q: JobQueue)
        ensures
            q.wf(),
            forall|id: u128| q.raw_at(id) is None,
            q.pending_view() == Seq::<u128>::empty(),
    {
        let q = JobQueue { entries: Vec::new(), pending: Vec::new() };
        proof {
            assert forall|id: u128| q.raw_at(id) is None by {
                assert(q.entries@.len() == 0);
            }
            assert(q.pending_view() =~= Seq::<u128>::empty());
        }
        q
    }

    fn find_index(&self, id: u128) -> (r: Option<usize>)
        ensures
            match r {
                None => find_rec(self.entries@, id) is None,
                Some(i) => 0 <= i < self.entries@.len() && find_rec(self.entries@, id) == Some(
                    i as int,
                ) && self.entries@[i as int].0 == id,
            },
    {
        let n = self.entries.len();
        let mut k: usize = 0;
        assert(self.entries@.skip(0) =~= self.entries@);
        while k < n
            invariant
                0 <= k <= n,
                n == self.entries@.len(),
                find_rec(self.entries@, id) == match find_rec(self.entries@.skip(k as int), id) {
                    None => None::<int>,
                    Some(j) => Some(j + k),
                },
            decreases n - k,
        {
            assert(self.entries@.skip(k as int)[0] == self.entries@[k as int]);
            if self.entries[k].0 == id {
                return Some(k);
            }
            assert(self.entries@.skip(k as int).skip(1) =~= self.entries@.skip(k + 1));
            k = k + 1;
        }
        assert(self.entries@.skip(n as int).len() == 0);
        None
    }

    /// Creates the record for a new job and admits its identifier to the
    /// pending queue; a duplicate identifier is refused and the store is
    /// left untouched.
    pub fn enqueue_job(&mut self, job: &Job) -> (r: Result<(), PipelineError>)
        requires
            old(self).wf(),
            job_wf(job@),
        ensures
            final(self).wf(),
            match r {
                Ok(()) => {
                    &&& old(self).raw_at(job.id) is None
                    &&& final(self).raw_at(job.id) == Some(spec_encode(job@))
                    &&& final(self).job_at(job.id) == Some(job@)
                    &&& forall|o: u128| o != job.id ==> final(self).raw_at(o) == old(self).raw_at(o)
                    &&& final(self).pending_view() == old(self).pending_view().push(job.id)
                },
                Err(e) => {
                    &&& e == PipelineError::Conflict
                    &&& old(self).raw_at(job.id) is Some
                    &&& JobQueue::same_state(*final(self), *old(self))
                },
            },
    {
        match self.find_index(job.id) {
            Some(_) => Err(PipelineError::Conflict),
            None => {
                let ghost es0 = self.entries@;
                let text = encode_record(job);
                proof {
                    crate::codec::lemma_encode_decode(job@);
                    lemma_find_rec(es0, job.id);
                }
                self.entries.push((job.id, text));
                self.pending.push(job.id);
                proof {
                    let esn = self.entries@;
                    assert(esn == es0.push((job.id, text)));
                    assert forall|o: u128| true implies find_rec(esn, o) == (match find_rec(
                        es0,
                        o,
                    ) {
                        Some(i) => Some(i),
                        None => if o == job.id {
                            Some(es0.len() as int)
                        } else {
                            None::<int>
                        },
                    }) by {
                        lemma_find_push(es0, (job.id, text), o);
                    }
                    assert forall|o: u128| o != job.id implies final(self).raw_at(o)
                        == old(self).raw_at(o) by {
                        lemma_find_rec(es0, o);
                        assert(match find_rec(es0, o) {
                            None => true,
                            Some(i) => esn[i] == es0[i],
                        });
                    }
                    assert(final(self).raw_at(job.id) == Some(text@));
                    assert forall|i: int, j: int|
                        0 <= i < j < esn.len() implies (#[trigger] esn[i]).0 != (
                    #[trigger] esn[j]).0 by {
                        if j == esn.len() - 1 {
                            assert(esn[i] == es0[i]);
                            assert(es0[i].0 != job.id);
                        } else {
                            assert(esn[i] == es0[i]);
                            assert(esn[j] == es0[j]);
                        }
                    }
                }
                Ok(())
            },
        }
    }

    /// Reads the current snapshot of a record, decoding the stored text;
    /// an identifier with no record reports nothing, and a record whose
    /// text cannot be decoded is a data-integrity error.
    pub fn get_job(&self, job_id: u128) -> (r: Result<Option<Job>, PipelineError>)
        ensures
            match r {
                Ok(None) => self.raw_at(job_id) is None,
                Ok(Some(job)) => self.raw_at(job_id) is Some && self.job_at(job_id) == Some(job@),
                Err(e) => e == PipelineError::Corrupt && self.raw_at(job_id) is Some
                    && self.job_at(job_id) is None,
            },
    {
        match self.find_index(job_id) {
            None => Ok(None),
            Some(i) => {
                let entry: &(u128, String) = &self.entries[i];
                match decode_record(entry.1.as_str()) {
                    None => Err(PipelineError::Corrupt),
                    Some(job) => Ok(Some(job)),
                }
            },
        }
    }

    /// Read-modify-writes a record's status, progress and (optionally)
    /// message outside `Completed`: no result can be attached here, so
    /// the updated record carries none.
    pub fn update_job_status(
        &mut self,
        job_id: u128,
        status: JobStatus,
        progress: u8,
        message: Option<String>,
    ) -> (r: Result<(), PipelineError>)
        requires
            old(self).wf(),
            status != JobStatus::Completed,
            progress <= 100,
        ensures
            final(self).wf(),
            match r {
                Ok(()) => {
                    &&& old(self).job_at(job_id) matches Some(j)
                        && final(self).raw_at(job_id)
                            == Some(spec_encode(status_update(j, status, progress, message.deep_view())))
                        && final(self).job_at(job_id)
                            == Some(status_update(j, status, progress, message.deep_view()))
                    &&& forall|o: u128|
                        o != job_id ==> final(self).raw_at(o) == old(self).raw_at(o)
                    &&& final(self).pending_view() == old(self).pending_view()
                },
                Err(PipelineError::NotFound) => old(self).raw_at(job_id) is None
                    && JobQueue::same_state(*final(self), *old(self)),
                Err(PipelineError::Corrupt) => old(self).raw_at(job_id) is Some
                    && old(self).job_at(job_id) is None
                    && JobQueue::same_state(*final(self), *old(self)),
                Err(_) => false,
            },
    {
        match self.find_index(job_id) {
            None => Err(PipelineError::NotFound),
            Some(i) => {
                let entry: &(u128, String) = &self.entries[i];
                match decode_record(entry.1.as_str()) {
                    None => Err(PipelineError::Corrupt),
                    Some(mut job) => {
                        let ghost j = job@;
                        job.status = status;
                        job.progress = progress;
                        match message {
                            Some(m) => {
                                job.message = Some(m);
                            },
                            None => {},
                        }
                        job.result = None;
                        let ghost nj = job@;
                        let new_text = encode_record(&job);
                        proof {
                            assert(nj == status_update(j, status, progress, message.deep_view()));
                            assert(job_wf(nj));
                            crate::codec::lemma_encode_decode(nj);
                        }
                        self.set_entry(i, job_id, new_text);
                        Ok(())
                    },
                }
            },
        }
    }

    /// Read-modify-writes a record into `Completed`, attaching the result
    /// atomically with the status change; progress becomes 100.
    pub fn complete_job(&mut self, job_id: u128, message: String, result: JobResult) -> (r: Result<
        (),
        PipelineError,
    >)
        requires
            old(self).wf(),
        ensures
            final(self).wf(),
            match r {
                Ok(()) => {
                    &&& old(self).job_at(job_id) matches Some(j)
                        && final(self).raw_at(job_id)
                            == Some(spec_encode(completed_update(j, message@, result@)))
                        && final(self).job_at(job_id)
                            == Some(completed_update(j, message@, result@))
                    &&& forall|o: u128|
                        o != job_id ==> final(self).raw_at(o) == old(self).raw_at(o)
                    &&& final(self).pending_view() == old(self).pending_view()
                },
                Err(PipelineError::NotFound) => old(self).raw_at(job_id) is None
                    && JobQueue::same_state(*final(self), *old(self)),
                Err(PipelineError::Corrupt) => old(self).raw_at(job_id) is Some
                    && old(self).job_at(job_id) is None
                    && JobQueue::same_state(*final(self), *old(self)),
                Err(_) => false,
            },
    {
        match self.find_index(job_id) {
            None => Err(PipelineError::NotFound),
            Some(i) => {
                let entry: &(u128, String) = &self.entries[i];
                match decode_record(entry.1.as_str()) {
                    None => Err(PipelineError::Corrupt),
                    Some(mut job) => {
                        let ghost j = job@;
                        job.status = JobStatus::Completed;
                        job.progress = 100;
                        job.message = Some(message);
                        job.result = Some(result);
                        let ghost nj = job@;
                        let new_text = encode_record(&job);
                        proof {
                            assert(nj == completed_update(j, message@, result@));
                            assert(job_wf(nj));
                            crate::codec::lemma_encode_decode(nj);
                        }
                        self.set_entry(i, job_id, new_text);
                        Ok(())
                    },
                }
            },
        }
    }

    /// Replaces the text stored at a known index, keeping its key.
    fn set_entry(&mut self, i: usize, job_id: u128, text: String)
        requires
            old(self).wf(),
            0 <= i < old(self).entries@.len(),
            old(self).entries@[i as int].0 == job_id,
        ensures
            final(self).wf(),
            final(self).raw_at(job_id) == Some(text@),
            forall|o: u128| o != job_id ==> final(self).raw_at(o) == old(self).raw_at(o),
            final(self).pending_view() == old(self).pending_view(),
    {
        let ghost es0 = self.entries@;
        self.entries.set(i, (job_id, text));
        proof {
            let esn = self.entries@;
            assert(esn == es0.update(i as int, (job_id, text)));
            assert forall|o: u128| true implies find_rec(esn, o) == find_rec(es0, o) by {
                lemma_find_update(es0, i as int, (job_id, text), o);
            }
            lemma_find_rec(es0, job_id);
            assert forall|k: int, l: int|
                0 <= k < l < esn.len() implies (#[trigger] esn[k]).0 != (#[trigger] esn[l]).0 by {
                assert(esn[k].0 == es0[k].0);
                assert(esn[l].0 == es0[l].0);
            }
            assert(find_rec(es0, job_id) == Some(i as int)) by {
                if find_rec(es0, job_id) is None {
                    lemma_find_rec(es0, job_id);
                    assert(es0[i as int].0 != job_id);
                } else {
                    let k = find_rec(es0, job_id)->Some_0;
                    lemma_find_rec(es0, job_id);
                    if k != i {
                        assert(es0[k].0 == job_id && es0[i as int].0 == job_id);
                    }
                }
            }
            assert forall|o: u128| o != job_id implies final(self).raw_at(o)
                == old(self).raw_at(o) by {
                lemma_find_rec(es0, o);
                if find_rec(es0, o) is Some {
                    let k = find_rec(es0, o)->Some_0;
                    assert(es0[k].0 == o);
                    assert(k != i);
                    assert(esn[k] == es0[k]);
                }
            }
        }
    }

    /// Removes and returns the next pending identifier, if any; records
    /// are untouched. No two callers can obtain the same identifier.
    pub fn pop_pending(&mut self) -> (r: Option<u128>)
        requires
            old(self).wf(),
        ensures
            final(self).wf(),
            forall|o: u128| final(self).raw_at(o) == old(self).raw_at(o),
            match r {
                None => old(self).pending_view().len() == 0
                    && final(self).pending_view() == old(self).pending_view(),
                Some(id) => old(self).pending_view().len() > 0 && id == old(self).pending_view()[0]
                    && final(self).pending_view() == old(self).pending_view().skip(1),
            },
    {
        if self.pending.len() == 0 {
            return None;
        }
        let ghost p0 = self.pending@;
        let id = self.pending.remove(0);
        assert(self.pending@ =~= p0.skip(1));
        Some(id)
    }

    /// Admits an identifier to the pending queue without touching records.
    pub fn push_pending(&mut self, id: u128)
        requires
            old(self).wf(),
        ensures
            final(self).wf(),
            forall|o: u128| final(self).raw_at(o) == old(self).raw_at(o),
            final(self).pending_view() == old(self).pending_view().push(id),
    {
        self.pending.push(id);
    }

    /// How many identifiers wait to be claimed.
    pub fn pending_len(&self) -> (n: usize)
        ensures
            n == self.pending_view().len(),
    {
        self.pending.len()
    }

    /// The stored text under an identifier, for mirroring to a backing
    /// store.
    pub fn raw_record(&self, job_id: u128) -> (r: Option<String>)
        ensures
            match r {
                None => self.raw_at(job_id) is None,
                Some(s) => self.raw_at(job_id) == Some(s@),
            },
    {
        match self.find_index(job_id) {
            None => None,
            Some(i) => {
                let entry: &(u128, String) = &self.entries[i];
                Some(entry.1.clone())
            },
        }
    }

    /// Restores a record from previously persisted text, without
    /// admitting it to the pending queue. The text is kept as given:
    /// whether it decodes is the readers' concern.
    pub fn load_record(&mut self, job_id: u128, text: &str) -> (r: Result<(), PipelineError>)
        requires
            old(self).wf(),
        ensures
            final(self).wf(),
            match r {
                Ok(()) => {
                    &&& old(self).raw_at(job_id) is None
                    &&& final(self).raw_at(job_id) == Some(text@)
                    &&& forall|o: u128| o != job_id ==> final(self).raw_at(o) == old(self).raw_at(o)
                    &&& final(self).pending_view() == old(self).pending_view()
                },
                Err(e) => e == PipelineError::Conflict && old(self).raw_at(job_id) is Some
                    && JobQueue::same_state(*final(self), *old(self)),
            },
    {
        match self.find_index(job_id) {
            Some(_) => Err(PipelineError::Conflict),
            None => {
                let ghost es0 = self.entries@;
                let owned = text.to_owned();
                proof {
                    lemma_find_rec(es0, job_id);
                }
                self.entries.push((job_id, owned));
                proof {
                    let esn = self.entries@;
                    assert forall|o: u128| true implies find_rec(esn, o) == (match find_rec(
                        es0,
                        o,
                    ) {
                        Some(i) => Some(i),
                        None => if o == job_id {
                            Some(es0.len() as int)
                        } else {
                            None::<int>
                        },
                    }) by {
                        lemma_find_push(es0, (job_id, owned), o);
                    }
                    assert forall|o: u128| o != job_id implies final(self).raw_at(o)
                        == old(self).raw_at(o) by {
                        lemma_find_rec(es0, o);
                        assert(match find_rec(es0, o) {
                            None => true,
                            Some(i) => esn[i] == es0[i],
                        });
                    }
                    assert forall|i: int, j: int|
                        0 <= i < j < esn.len() implies (#[trigger] esn[i]).0 != (
                    #[trigger] esn[j]).0 by {
                        if j == esn.len() - 1 {
                            assert(esn[i] == es0[i]);
                            assert(es0[i].0 != job_id);
                        } else {
                            assert(esn[i] == es0[i]);
                            assert(esn[j] == es0[j]);
                        }
                    }
                }
                Ok(())
            },
        }
    }
}

/// The status snapshot the producer-facing interface reports.
#[derive(Debug)]
pub struct StatusSnapshot {
    pub status: JobStatus,
    pub progress: u8,
    pub message: Option<String>,
}

/// What a result query reports: the attached result once the job is
/// `Completed`, or the current status and progress while it is not.
#[derive(Debug)]
pub enum ResultQuery {
    Ready(JobResult),
    NotReady { status: JobStatus, progress: u8 },
}

impl JobQueue {
    /// Accepts an upload under its filename: rejects an unrecognized
    /// extension before any record is written, else creates the job
    /// record under a fresh random identifier and admits it to the
    /// pending queue. A collision of the random identifier with an
    /// existing record is refused as a conflict, leaving the store as it
    /// was; on a store with no records at all, a supported filename is
    /// therefore always accepted.
    pub fn enqueue(&mut self, filename: &str) -> (r: Result<u128, PipelineError>)
        requires
            old(self).wf(),
        ensures
            final(self).wf(),
            spec_classify(filename@) != FileType::Unknown && (forall|o: u128|
                old(self).raw_at(o) is None) ==> r is Ok,
            match r {
                Ok(id) => {
                    &&& spec_classify(filename@) != FileType::Unknown
                    &&& old(self).raw_at(id) is None
                    &&& final(self).job_at(id) == Some(initial_job(id, filename@))
                    &&& final(self).raw_at(id) == Some(spec_encode(initial_job(id, filename@)))
                    &&& forall|o: u128| o != id ==> final(self).raw_at(o) == old(self).raw_at(o)
                    &&& final(self).pending_view() == old(self).pending_view().push(id)
                },
                Err(PipelineError::UnsupportedType) => spec_classify(filename@)
                    == FileType::Unknown && JobQueue::same_state(*final(self), *old(self)),
                Err(PipelineError::Conflict) => {
                    &&& spec_classify(filename@) != FileType::Unknown
                    &&& exists|o: u128| old(self).raw_at(o) is Some
                    &&& JobQueue::same_state(*final(self), *old(self))
                },
                Err(_) => false,
            },
    {
        let t = FileType::from_filename(filename);
        if t == FileType::Unknown {
            return Err(PipelineError::UnsupportedType);
        }
        let id = new_job_id();
        let mut msg = String::from_str(filename);
        msg.append(" (");
        msg.append(t.to_string());
        msg.append(") queued for processing");
        assert(msg@ =~= queued_message(filename@));
        let job = Job {
            id,
            status: JobStatus::Queued,
            progress: 0,
            message: Some(msg),
            result: None,
        };
        assert(job@ == initial_job(id, filename@));
        match self.enqueue_job(&job) {
            Ok(()) => Ok(id),
            Err(e) => Err(e),
        }
    }

    /// Reports a job's status, progress and message, or that the
    /// identifier is unknown.
    pub fn get_status(&self, job_id: u128) -> (r: Result<StatusSnapshot, PipelineError>)
        ensures
            match r {
                Ok(snap) => self.job_at(job_id) matches Some(j) && snap.status == j.status
                    && snap.progress == j.progress && snap.message.deep_view() == j.message,
                Err(PipelineError::NotFound) => self.raw_at(job_id) is None,
                Err(PipelineError::Corrupt) => self.raw_at(job_id) is Some && self.job_at(
                    job_id,
                ) is None,
                Err(_) => false,
            },
    {
        match self.get_job(job_id) {
            Ok(None) => Err(PipelineError::NotFound),
            Ok(Some(job)) => Ok(
                StatusSnapshot { status: job.status, progress: job.progress, message: job.message },
            ),
            Err(e) => Err(e),
        }
    }

    /// Reports the attached result once a job is `Completed`, a
    /// not-ready indicator carrying the current status and progress
    /// while it is not, or that the identifier is unknown.
    pub fn get_result(&self, job_id: u128) -> (r: Result<ResultQuery, PipelineError>)
        ensures
            match r {
                Ok(q) => self.job_at(job_id) matches Some(j) && match q {
                    ResultQuery::Ready(res) => j.status == JobStatus::Completed && j.result
                        == Some(res@),
                    ResultQuery::NotReady { status, progress } => j.status != JobStatus::Completed
                        && j.result is None && status == j.status && progress == j.progress,
                },
                Err(PipelineError::NotFound) => self.raw_at(job_id) is None,
                Err(PipelineError::Corrupt) => self.raw_at(job_id) is Some && self.job_at(
                    job_id,
                ) is None,
                Err(_) => false,
            },
    {
        match self.get_job(job_id) {
            Ok(None) => Err(PipelineError::NotFound),
            Ok(Some(job)) => match job.result {
                Some(res) => Ok(ResultQuery::Ready(res)),
                None => Ok(
                    ResultQuery::NotReady { status: job.status, progress: job.progress },
                ),
            },
            Err(e) => Err(e),
        }
    }
}

/// Every job the store can report satisfies the record invariant: a
/// result is attached if and only if the status is `Completed`, at every
/// observation point.
pub proof fn lemma_observed_job_wf(q: JobQueue, id: u128)
    ensures
        match q.job_at(id) {
            Some(j) => job_wf(j) && (j.result is Some <==> j.status == JobStatus::Completed),
            None => true,
        },
{
}

} // verus!
