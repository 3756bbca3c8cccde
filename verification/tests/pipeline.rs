use docpipe::codec::encode_record;
use docpipe::document::{DocumentMetadata, FileType};
use docpipe::errors::PipelineError;
use docpipe::job::{Job, JobStatus};
use docpipe::job_queue::{JobQueue, ResultQuery};
use docpipe::parser::{CapabilityOutcome, ConversionInput, DocumentParser};
use docpipe::worker::{BackgroundWorker, ClaimOutcome, FinishOutcome};

#[test]
fn pdf_job_runs_to_completed_with_page_count() {
    let mut queue = JobQueue::new();
    let id = queue.enqueue("report.pdf").unwrap();
    let mut worker = BackgroundWorker::new(queue, 5);

    let claim = worker.claim_next();
    let (cid, filename, file_type) = match claim {
        ClaimOutcome::Claimed { id, filename, file_type } => (id, filename, file_type),
        other => panic!("expected a claim, got {:?}", other),
    };
    assert_eq!(cid, id);
    assert_eq!(filename, "report.pdf");
    assert_eq!(file_type, FileType::Pdf);

    // The claim moved the job to Processing with progress reset.
    let snap = worker.queue().get_status(id).unwrap();
    assert!(matches!(snap.status, JobStatus::Processing));
    assert_eq!(snap.progress, 0);
    assert_eq!(snap.message, Some(String::from("processing started")));

    // The converters ran: text extracted, a page-count report, a
    // thumbnail, one embedded image, and the original bytes.
    let parser = DocumentParser::new();
    let metadata = parser.extract_metadata(
        FileType::Pdf,
        4096,
        Some("Title: report\nPages: 3\nEncrypted: no\n"),
    );
    assert_eq!(metadata.page_count, Some(3));
    let input = ConversionInput::Pdf {
        text: CapabilityOutcome::Produced(String::from("First paragraph.\n\nSecond one.")),
        thumbnail: Some(vec![1u8, 2, 3]),
        image_names: vec![String::from("page-1.png"), String::from("skip.txt")],
        file_bytes: Some(b"%PDF-1.4 fake".to_vec()),
    };
    let done = worker.process_claimed(&input, metadata);
    assert!(matches!(done, FinishOutcome::Done(_)));

    let snap = worker.queue().get_status(id).unwrap();
    assert!(matches!(snap.status, JobStatus::Completed));
    assert_eq!(snap.progress, 100);

    match worker.queue().get_result(id).unwrap() {
        ResultQuery::Ready(result) => {
            assert_eq!(result.filename, "report.pdf");
            assert_eq!(result.file_type, "pdf");
            assert_eq!(result.metadata.source_path, "uploads/report.pdf");
            let text = result.content.text.expect("text is the primary content");
            assert!(!text.is_empty());
            assert_eq!(result.content.metadata.page_count, Some(3));
            assert_eq!(
                result.content.images,
                Some(vec![String::from("page-1.png")])
            );
            assert!(result.content.thumbnail.is_some());
            let html = result.content.html.expect("a rendering is attached");
            assert!(html.contains("<p>First paragraph.</p>"));
            assert!(html.contains("page-1.png"));
        },
        other => panic!("expected a ready result, got {:?}", other),
    }
}

#[test]
fn xlsx_job_with_unavailable_converter_still_completes() {
    let mut queue = JobQueue::new();
    let id = queue.enqueue("sheet.xlsx").unwrap();
    let mut worker = BackgroundWorker::new(queue, 5);

    match worker.claim_next() {
        ClaimOutcome::Claimed { file_type, .. } => assert_eq!(file_type, FileType::Xlsx),
        other => panic!("expected a claim, got {:?}", other),
    }
    let parser = DocumentParser::new();
    let metadata = parser.extract_metadata(FileType::Xlsx, 100, None);
    let input = ConversionInput::Xlsx {
        csv: CapabilityOutcome::Unavailable(String::from("xlsx2csv: command not found")),
        file_bytes: None,
    };
    let done = worker.process_claimed(&input, metadata);
    assert!(matches!(done, FinishOutcome::Done(_)));

    let snap = worker.queue().get_status(id).unwrap();
    assert!(matches!(snap.status, JobStatus::Completed));
    match worker.queue().get_result(id).unwrap() {
        ResultQuery::Ready(result) => {
            assert_eq!(
                result.content.text,
                Some(String::from(
                    "XLSX file uploaded; detailed parsing is unavailable."
                ))
            );
            assert!(result.content.sheets.is_none());
        },
        other => panic!("expected a ready result, got {:?}", other),
    }
}

#[test]
fn xlsx_job_with_working_converter_stores_rows() {
    let mut queue = JobQueue::new();
    let id = queue.enqueue("inventory.xlsx").unwrap();
    let mut worker = BackgroundWorker::new(queue, 1);
    match worker.claim_next() {
        ClaimOutcome::Claimed { .. } => {},
        other => panic!("expected a claim, got {:?}", other),
    }
    let parser = DocumentParser::new();
    let metadata = parser.extract_metadata(FileType::Xlsx, 100, None);
    let input = ConversionInput::Xlsx {
        csv: CapabilityOutcome::Produced(String::from("name, qty\nbolt , 12\n")),
        file_bytes: None,
    };
    assert!(matches!(
        worker.process_claimed(&input, metadata),
        FinishOutcome::Done(_)
    ));
    match worker.queue().get_result(id).unwrap() {
        ResultQuery::Ready(result) => {
            let sheets = result.content.sheets.expect("rows are the primary content");
            assert_eq!(sheets.len(), 1);
            assert_eq!(sheets[0].name, "Sheet1");
            assert_eq!(
                sheets[0].rows,
                vec![
                    vec![String::from("name"), String::from("qty")],
                    vec![String::from("bolt"), String::from("12")],
                ]
            );
            assert!(result.content.text.is_none());
        },
        other => panic!("expected a ready result, got {:?}", other),
    }
}

#[test]
fn txt_job_with_deleted_file_fails_with_read_message() {
    let mut queue = JobQueue::new();
    let id = queue.enqueue("notes.txt").unwrap();
    let mut worker = BackgroundWorker::new(queue, 5);
    match worker.claim_next() {
        ClaimOutcome::Claimed { file_type, .. } => assert_eq!(file_type, FileType::Txt),
        other => panic!("expected a claim, got {:?}", other),
    }
    let parser = DocumentParser::new();
    let metadata = parser.extract_metadata(FileType::Txt, 0, None);
    let input = ConversionInput::Plain {
        contents: Err(String::from("No such file or directory (os error 2)")),
        file_bytes: None,
    };
    assert!(matches!(
        worker.process_claimed(&input, metadata),
        FinishOutcome::Done(_)
    ));
    let snap = worker.queue().get_status(id).unwrap();
    assert!(matches!(snap.status, JobStatus::Failed));
    assert_eq!(snap.progress, 100);
    assert_eq!(
        snap.message,
        Some(String::from(
            "parse error: failed to read TXT file: No such file or directory (os error 2)"
        ))
    );
    // A failed job carries no result, only its status.
    match worker.queue().get_result(id).unwrap() {
        ResultQuery::NotReady { status, .. } => assert!(matches!(status, JobStatus::Failed)),
        ResultQuery::Ready(_) => panic!("a failed job has no result"),
    }
}

#[test]
fn worker_reports_no_work_on_an_empty_queue() {
    let queue = JobQueue::new();
    let mut worker = BackgroundWorker::new(queue, 5);
    assert!(matches!(worker.claim_next(), ClaimOutcome::NoWork));
    assert!(matches!(worker.finish_job(Err(docpipe::errors::ParseError::new(String::from("x")))), FinishOutcome::NoClaim));
}

#[test]
fn worker_skips_a_dangling_queue_entry() {
    let mut queue = JobQueue::new();
    // An identifier whose record is missing is a tolerated anomaly.
    queue.push_pending(777);
    let mut worker = BackgroundWorker::new(queue, 5);
    match worker.claim_next() {
        ClaimOutcome::Missing(id) => assert_eq!(id, 777),
        other => panic!("expected the entry to be skipped, got {:?}", other),
    }
    assert!(matches!(worker.claim_next(), ClaimOutcome::NoWork));
}

#[test]
fn worker_refuses_second_claim_while_one_is_in_flight() {
    let mut queue = JobQueue::new();
    queue.enqueue("a.txt").unwrap();
    queue.enqueue("b.txt").unwrap();
    let mut worker = BackgroundWorker::new(queue, 5);
    assert!(matches!(worker.claim_next(), ClaimOutcome::Claimed { .. }));
    assert!(matches!(worker.claim_next(), ClaimOutcome::Busy));
}

#[test]
fn worker_fails_job_whose_filename_cannot_be_resolved() {
    let mut queue = JobQueue::new();
    let job = Job {
        id: 51,
        status: JobStatus::Queued,
        progress: 0,
        message: Some(String::from("a message with no marker")),
        result: None,
    };
    queue.enqueue_job(&job).unwrap();
    let mut worker = BackgroundWorker::new(queue, 5);
    match worker.claim_next() {
        ClaimOutcome::Rejected(id) => assert_eq!(id, 51),
        other => panic!("expected a rejection, got {:?}", other),
    }
    let snap = worker.queue().get_status(51).unwrap();
    assert!(matches!(snap.status, JobStatus::Failed));
    assert_eq!(
        snap.message,
        Some(String::from(
            "the filename could not be resolved from the job message"
        ))
    );
}

#[test]
fn worker_does_not_touch_a_terminal_record() {
    let mut queue = JobQueue::new();
    let job = Job {
        id: 60,
        status: JobStatus::Failed,
        progress: 100,
        message: Some(String::from("already failed")),
        result: None,
    };
    let text = encode_record(&job);
    queue.load_record(60, text.as_str()).unwrap();
    queue.push_pending(60);
    let mut worker = BackgroundWorker::new(queue, 5);
    match worker.claim_next() {
        ClaimOutcome::NotQueued(id) => assert_eq!(id, 60),
        other => panic!("expected the terminal job to be skipped, got {:?}", other),
    }
    let snap = worker.queue().get_status(60).unwrap();
    assert!(matches!(snap.status, JobStatus::Failed));
    assert_eq!(snap.message, Some(String::from("already failed")));
}

#[test]
fn worker_skips_a_corrupt_pending_record() {
    let mut queue = JobQueue::new();
    queue.load_record(61, "not decodable").unwrap();
    queue.push_pending(61);
    let mut worker = BackgroundWorker::new(queue, 5);
    match worker.claim_next() {
        ClaimOutcome::Corrupt(id) => assert_eq!(id, 61),
        other => panic!("expected the corrupt entry to be skipped, got {:?}", other),
    }
    assert_eq!(
        queue_err(&worker),
        PipelineError::Corrupt,
    );
}

fn queue_err(worker: &BackgroundWorker) -> PipelineError {
    worker.queue().get_status(61).unwrap_err()
}

#[test]
fn worker_fails_job_with_unsupported_type_in_message() {
    let mut queue = JobQueue::new();
    let job = Job {
        id: 52,
        status: JobStatus::Queued,
        progress: 0,
        message: Some(String::from("virus.zip (zip) queued for processing")),
        result: None,
    };
    queue.enqueue_job(&job).unwrap();
    let mut worker = BackgroundWorker::new(queue, 5);
    match worker.claim_next() {
        ClaimOutcome::Rejected(id) => assert_eq!(id, 52),
        other => panic!("expected a rejection, got {:?}", other),
    }
    let snap = worker.queue().get_status(52).unwrap();
    assert!(matches!(snap.status, JobStatus::Failed));
    assert_eq!(snap.message, Some(String::from("unsupported file type")));
}

#[test]
fn claims_come_in_admission_order() {
    let mut queue = JobQueue::new();
    queue.enqueue("first.txt").unwrap();
    queue.enqueue("second.txt").unwrap();
    let mut worker = BackgroundWorker::new(queue, 5);
    match worker.claim_next() {
        ClaimOutcome::Claimed { filename, .. } => assert_eq!(filename, "first.txt"),
        other => panic!("expected a claim, got {:?}", other),
    }
    let parser = DocumentParser::new();
    let metadata = parser.extract_metadata(FileType::Txt, 1, None);
    let input = ConversionInput::Plain {
        contents: Ok(String::from("one")),
        file_bytes: None,
    };
    assert!(matches!(
        worker.process_claimed(&input, metadata),
        FinishOutcome::Done(_)
    ));
    match worker.claim_next() {
        ClaimOutcome::Claimed { filename, .. } => assert_eq!(filename, "second.txt"),
        other => panic!("expected a claim, got {:?}", other),
    }
}

#[test]
fn pdf_image_enrichment_is_filtered_and_sorted() {
    let mut queue = JobQueue::new();
    let id = queue.enqueue("scan.pdf").unwrap();
    let mut worker = BackgroundWorker::new(queue, 5);
    match worker.claim_next() {
        ClaimOutcome::Claimed { .. } => {},
        other => panic!("expected a claim, got {:?}", other),
    }
    let parser = DocumentParser::new();
    let metadata = parser.extract_metadata(FileType::Pdf, 10, None);
    // The raw directory listing arrives unordered and with strangers.
    let input = ConversionInput::Pdf {
        text: CapabilityOutcome::Produced(String::from("t")),
        thumbnail: None,
        image_names: vec![
            String::from("page-2.png"),
            String::from("notes.txt"),
            String::from("page-1.png"),
            String::from("page-10.png"),
        ],
        file_bytes: None,
    };
    assert!(matches!(
        worker.process_claimed(&input, metadata),
        FinishOutcome::Done(_)
    ));
    match worker.queue().get_result(id).unwrap() {
        ResultQuery::Ready(result) => {
            assert_eq!(
                result.content.images,
                Some(vec![
                    String::from("page-1.png"),
                    String::from("page-10.png"),
                    String::from("page-2.png"),
                ])
            );
        },
        other => panic!("expected a ready result, got {:?}", other),
    }
}
