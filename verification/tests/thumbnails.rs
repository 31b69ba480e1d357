use hestia::data::File;
use hestia::errors::ThumbnailError;
use hestia::thumbnails::{
    tally, thumbnail_stats, ThumbnailRow,
    count_jobs, get_next_job, get_pending_job_count, handle_failed_job, queue_files_for_processing,
    queue_single_file, FailureOutcome, ProcessorConfig, ThumbnailJob, ThumbnailJobStatus,
    ThumbnailSize,
};

fn job(id: i32, status: ThumbnailJobStatus) -> ThumbnailJob {
    ThumbnailJob {
        file_id: id,
        file_path: format!("/f/{}", id),
        size: ThumbnailSize::Small,
        status,
        created_at: 0,
        retry_count: 0,
    }
}

fn file(id: Option<i32>, path: &str) -> File {
    File {
        id,
        path: path.to_string(),
        name: path.to_string(),
        content_hash: String::new(),
        identity_hash: String::new(),
        file_type_name: "image_png".to_string(),
        file_system_id: None,
    }
}

#[test]
fn next_job_is_the_first_pending_one() {
    let mut q = vec![
        job(1, ThumbnailJobStatus::Processing),
        job(2, ThumbnailJobStatus::Pending),
        job(3, ThumbnailJobStatus::Pending),
    ];
    assert_eq!(get_pending_job_count(&q), 2);
    let j = get_next_job(&mut q).unwrap();
    assert_eq!(j.file_id, 2);
    assert_eq!(j.status, ThumbnailJobStatus::Processing);
    assert_eq!(q.len(), 2);
    assert_eq!(q[0].file_id, 1);
    assert_eq!(q[1].file_id, 3);
    assert_eq!(get_pending_job_count(&q), 1);
    assert_eq!(count_jobs(&q, ThumbnailJobStatus::Processing), 1);
}

#[test]
fn no_pending_job_leaves_the_queue_alone() {
    let mut q = vec![job(1, ThumbnailJobStatus::Processing), job(2, ThumbnailJobStatus::Failed)];
    assert!(get_next_job(&mut q).is_none());
    assert_eq!(q.len(), 2);
    assert!(get_next_job(&mut Vec::new()).is_none());
}

#[test]
fn failed_jobs_are_retried_then_given_up() {
    let mut j = job(7, ThumbnailJobStatus::Processing);
    for attempt in 1..3u32 {
        match handle_failed_job(j, 3, 5000) {
            FailureOutcome::Retry { job, delay } => {
                assert_eq!(job.retry_count, attempt);
                assert_eq!(job.status, ThumbnailJobStatus::Pending);
                assert_eq!(delay, 5000 * attempt as u64);
                j = job;
            }
            FailureOutcome::Failed(_) => panic!("given up too early"),
        }
    }
    match handle_failed_job(j, 3, 5000) {
        FailureOutcome::Failed(job) => {
            assert_eq!(job.retry_count, 3);
            assert_eq!(job.status, ThumbnailJobStatus::Failed);
        }
        FailureOutcome::Retry { .. } => panic!("retried too often"),
    }
    match handle_failed_job(job(8, ThumbnailJobStatus::Processing), 0, 5000) {
        FailureOutcome::Failed(job) => assert_eq!(job.retry_count, 1),
        FailureOutcome::Retry { .. } => panic!("no retry allowed"),
    }
    let mut last = job(9, ThumbnailJobStatus::Processing);
    last.retry_count = 4;
    match handle_failed_job(last, 5, u64::MAX) {
        FailureOutcome::Failed(job) => assert_eq!(job.retry_count, 5),
        FailureOutcome::Retry { .. } => panic!("retried too often"),
    }
}

#[test]
fn files_are_queued_for_each_missing_size() {
    let files = vec![file(Some(1), "/a.png"), file(Some(2), "/b.png")];
    let sizes = ThumbnailSize::all();
    assert_eq!(sizes, vec![ThumbnailSize::Small, ThumbnailSize::Medium, ThumbnailSize::Large]);
    let has = vec![vec![true, false, false], vec![false, false, true]];
    let mut q = Vec::new();
    let n = queue_files_for_processing(&mut q, &files, &sizes, &has, 42).unwrap();
    assert_eq!(n, 4);
    let got: Vec<(i32, ThumbnailSize)> = q.iter().map(|j| (j.file_id, j.size)).collect();
    assert_eq!(
        got,
        vec![
            (1, ThumbnailSize::Medium),
            (1, ThumbnailSize::Large),
            (2, ThumbnailSize::Small),
            (2, ThumbnailSize::Medium)
        ]
    );
    assert!(q.iter().all(|j| j.status == ThumbnailJobStatus::Pending && j.retry_count == 0 && j.created_at == 42));
    assert_eq!(q[2].file_path, "/b.png");
}

#[test]
fn a_file_without_id_stops_the_queueing() {
    let files = vec![file(Some(1), "/a.png"), file(None, "/b.png"), file(Some(3), "/c.png")];
    let sizes = vec![ThumbnailSize::Small];
    let has = vec![vec![false], vec![false], vec![false]];
    let mut q = Vec::new();
    let r = queue_files_for_processing(&mut q, &files, &sizes, &has, 0);
    assert!(matches!(r, Err(ThumbnailError::FileIdNotProvided)));
    assert_eq!(q.len(), 1);
    assert_eq!(q[0].file_id, 1);
}

#[test]
fn single_files_are_queued_unless_present() {
    let mut q = Vec::new();
    queue_single_file(&mut q, 5, "/x.png".to_string(), ThumbnailSize::Large, true, 1);
    assert!(q.is_empty());
    queue_single_file(&mut q, 5, "/x.png".to_string(), ThumbnailSize::Large, false, 1);
    assert_eq!(q.len(), 1);
    assert_eq!(q[0].size, ThumbnailSize::Large);
    let taken = get_next_job(&mut q).unwrap();
    assert_eq!(taken.file_id, 5);
    assert!(q.is_empty());
}

#[test]
fn processor_defaults() {
    let c = ProcessorConfig::for_cpu_count(1);
    assert_eq!(c.worker_count, 2);
    assert_eq!(ProcessorConfig::for_cpu_count(8).worker_count, 8);
    assert_eq!(c.batch_size, 50);
    assert_eq!(c.max_retries, 3);
    assert_eq!(c.retry_delay, 5000);
    assert_eq!(c.processing_timeout, 30000);
    assert_eq!(c.memory_limit_mb, 100);
    let d = ProcessorConfig::default();
    assert_eq!(d.worker_count, std::cmp::max(num_cpus::get(), 2));
    assert_eq!(d.batch_size, 50);
}

#[test]
fn thumbnail_errors_display() {
    assert_eq!(
        ThumbnailError::FileIdNotProvided.to_string(),
        "File ID for thumbnail generation not provided"
    );
    assert_eq!(
        ThumbnailError::GenerationFailed { reason: "slow".to_string() }.to_string(),
        "Thumbnail generation failed: slow"
    );
    assert_eq!(ThumbnailError::Io("disk".to_string()).to_string(), "File I/O error: disk");
}

#[test]
fn thumbnail_statistics_count_each_size_and_type() {
    let row = |size: &str, mime: &str, bytes: i32| ThumbnailRow {
        size: size.to_string(),
        mime_type: mime.to_string(),
        file_size: bytes,
    };
    let rows = vec![
        row("small", "image/png", 10),
        row("large", "image/png", 30),
        row("small", "image/jpeg", 5),
        row("small", "image/png", 7),
    ];
    let stats = thumbnail_stats(&rows);
    assert_eq!(stats.total_thumbnails, 4);
    assert_eq!(stats.total_storage_bytes, 52);
    assert_eq!(
        stats.thumbnails_by_size,
        vec![("small".to_string(), 3), ("large".to_string(), 1)]
    );
    assert_eq!(
        stats.thumbnails_by_type,
        vec![("image/png".to_string(), 3), ("image/jpeg".to_string(), 1)]
    );
    let empty = thumbnail_stats(&vec![]);
    assert_eq!((empty.total_thumbnails, empty.total_storage_bytes), (0, 0));
    assert!(tally(&vec![]).is_empty());
}
