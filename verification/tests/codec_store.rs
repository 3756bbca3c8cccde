use docpipe::codec::{decode_record, encode_record};
use docpipe::document::{DocumentMetadata, FileType, ParsedContent, SheetData};
use docpipe::errors::PipelineError;
use docpipe::job::{Job, JobResult, JobStatus, ResultInfo};
use docpipe::job_queue::{JobQueue, ResultQuery};

fn sample_metadata() -> DocumentMetadata {
    DocumentMetadata {
        file_type: FileType::Xlsx,
        file_size: 2048,
        page_count: None,
        sheet_count: None,
        created_at: String::from("2024-05-01T10:00:00+00:00"),
    }
}

fn sample_completed_job() -> Job {
    let sheet = SheetData {
        name: String::from("Sheet1"),
        rows: vec![
            vec![String::from("name"), String::from("qty")],
            vec![String::from("bolt; small"), String::from("12")],
        ],
    };
    let content = ParsedContent {
        text: None,
        sheets: Some(vec![sheet]),
        metadata: sample_metadata(),
        thumbnail: None,
        original_file: Some(String::from("aGVsbG8=")),
        images: Some(vec![String::from("page-1.png")]),
        html: Some(String::from("<table>1;2</table>")),
        enrichment_notes: vec![String::from("thumbnail unavailable")],
    };
    Job {
        id: 12345678901234567890,
        status: JobStatus::Completed,
        progress: 100,
        message: Some(String::from("processing complete")),
        result: Some(JobResult {
            filename: String::from("inventory.xlsx"),
            file_type: String::from("xlsx"),
            content,
            metadata: ResultInfo {
                processed_at: String::from("2024-05-01T10:00:05+00:00"),
                source_path: String::from("uploads/inventory.xlsx"),
            },
        }),
    }
}

#[test]
fn record_round_trip_full() {
    let job = sample_completed_job();
    let text = encode_record(&job);
    let back = decode_record(text.as_str()).expect("round trip must decode");
    assert_eq!(back.id, job.id);
    assert!(matches!(back.status, JobStatus::Completed));
    assert_eq!(back.progress, 100);
    assert_eq!(back.message, Some(String::from("processing complete")));
    let result = back.result.expect("completed job keeps its result");
    assert_eq!(result.filename, "inventory.xlsx");
    assert_eq!(result.file_type, "xlsx");
    assert_eq!(result.metadata.source_path, "uploads/inventory.xlsx");
    let sheets = result.content.sheets.expect("sheets survive");
    assert_eq!(sheets.len(), 1);
    assert_eq!(sheets[0].name, "Sheet1");
    assert_eq!(sheets[0].rows[1][0], "bolt; small");
    assert_eq!(
        result.content.enrichment_notes,
        vec![String::from("thumbnail unavailable")]
    );
}

#[test]
fn record_round_trip_minimal() {
    let job = Job {
        id: 0,
        status: JobStatus::Queued,
        progress: 0,
        message: None,
        result: None,
    };
    let text = encode_record(&job);
    let back = decode_record(text.as_str()).expect("round trip must decode");
    assert_eq!(back.id, 0);
    assert!(matches!(back.status, JobStatus::Queued));
    assert_eq!(back.message, None);
    assert!(back.result.is_none());
}

#[test]
fn decode_rejects_garbage() {
    assert!(decode_record("").is_none());
    assert!(decode_record("not a record").is_none());
    assert!(decode_record("12;").is_none());
}

#[test]
fn decode_rejects_trailing_text() {
    let job = Job {
        id: 1,
        status: JobStatus::Queued,
        progress: 0,
        message: None,
        result: None,
    };
    let mut text = encode_record(&job);
    text.push('x');
    assert!(decode_record(text.as_str()).is_none());
}

#[test]
fn decode_rejects_result_iff_completed_violation() {
    // A record that claims Completed but carries no result breaks the
    // invariant and must not decode. Build it by editing the status tag
    // of a valid queued record.
    let job = Job {
        id: 9,
        status: JobStatus::Queued,
        progress: 0,
        message: None,
        result: None,
    };
    let text = encode_record(&job);
    let broken = text.replacen('Q', "C", 1);
    assert!(decode_record(broken.as_str()).is_none());
}

#[test]
fn store_create_get_and_conflict() {
    let mut q = JobQueue::new();
    let job = Job {
        id: 42,
        status: JobStatus::Queued,
        progress: 0,
        message: Some(String::from("a.txt (txt) queued for processing")),
        result: None,
    };
    assert!(q.enqueue_job(&job).is_ok());
    let fetched = q.get_job(42).unwrap().expect("record exists");
    assert_eq!(fetched.id, 42);
    assert!(matches!(fetched.status, JobStatus::Queued));

    // The second create with the same identifier is refused, and the
    // first record stays as it was.
    let dup = Job {
        id: 42,
        status: JobStatus::Queued,
        progress: 0,
        message: Some(String::from("other")),
        result: None,
    };
    assert_eq!(q.enqueue_job(&dup), Err(PipelineError::Conflict));
    let again = q.get_job(42).unwrap().expect("record still exists");
    assert_eq!(
        again.message,
        Some(String::from("a.txt (txt) queued for processing"))
    );
}

#[test]
fn store_update_not_found() {
    let mut q = JobQueue::new();
    let r = q.update_job_status(7, JobStatus::Failed, 100, None);
    assert_eq!(r, Err(PipelineError::NotFound));
}

#[test]
fn store_corrupt_record_is_reported() {
    let mut q = JobQueue::new();
    q.load_record(5, "garbled bytes").unwrap();
    assert_eq!(q.get_job(5).unwrap_err(), PipelineError::Corrupt);
    let r = q.update_job_status(5, JobStatus::Failed, 100, None);
    assert_eq!(r, Err(PipelineError::Corrupt));
}

#[test]
fn store_update_keeps_message_when_none_is_given() {
    let mut q = JobQueue::new();
    let job = Job {
        id: 8,
        status: JobStatus::Queued,
        progress: 0,
        message: Some(String::from("keep me")),
        result: None,
    };
    q.enqueue_job(&job).unwrap();
    q.update_job_status(8, JobStatus::Processing, 10, None).unwrap();
    let fetched = q.get_job(8).unwrap().unwrap();
    assert!(matches!(fetched.status, JobStatus::Processing));
    assert_eq!(fetched.progress, 10);
    assert_eq!(fetched.message, Some(String::from("keep me")));
}

#[test]
fn status_and_result_for_unused_id_are_not_found() {
    let q = JobQueue::new();
    assert_eq!(q.get_status(987654321).unwrap_err(), PipelineError::NotFound);
    assert_eq!(q.get_result(987654321).unwrap_err(), PipelineError::NotFound);
}

#[test]
fn result_is_not_ready_before_completion() {
    let mut q = JobQueue::new();
    let job = Job {
        id: 3,
        status: JobStatus::Queued,
        progress: 0,
        message: None,
        result: None,
    };
    q.enqueue_job(&job).unwrap();
    match q.get_result(3).unwrap() {
        ResultQuery::NotReady { status, progress } => {
            assert!(matches!(status, JobStatus::Queued));
            assert_eq!(progress, 0);
        },
        ResultQuery::Ready(_) => panic!("no result can be ready yet"),
    }
}

#[test]
fn enqueue_rejects_unknown_type_before_any_write() {
    let mut q = JobQueue::new();
    let r = q.enqueue("virus.exe");
    assert_eq!(r, Err(PipelineError::UnsupportedType));
    assert_eq!(q.pending_len(), 0);
}

#[test]
fn enqueue_creates_a_queued_record() {
    let mut q = JobQueue::new();
    let id = q.enqueue("report.pdf").unwrap();
    let snap = q.get_status(id).unwrap();
    assert!(matches!(snap.status, JobStatus::Queued));
    assert_eq!(snap.progress, 0);
    assert_eq!(
        snap.message,
        Some(String::from("report.pdf (pdf) queued for processing"))
    );
    assert_eq!(q.pending_len(), 1);
}
