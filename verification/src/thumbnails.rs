//! Thumbnail generation: the job queue that the workers share, what becomes of
//! a failed job, and the processor's configuration.
use vstd::prelude::*;
use crate::data::File;
use crate::errors::ThumbnailError;
use crate::queries::texts;

verus! {

/// The sizes in which thumbnails are made.
#[derive(Debug, Clone, Copy, PartialEq, Eq, Structural)]
pub enum ThumbnailSize {
    Small,
    Medium,
    Large,
}

impl ThumbnailSize {
    /// Every size, smallest first.
    pub fn all() -> (r: Vec<ThumbnailSize>)
        ensures
            r@ == seq![ThumbnailSize::Small, ThumbnailSize::Medium, ThumbnailSize::Large],
    {
        let mut v: Vec<ThumbnailSize> = Vec::new();
        v.push(ThumbnailSize::Small);
        v.push(ThumbnailSize::Medium);
        v.push(ThumbnailSize::Large);
        assert(v@ =~= seq![ThumbnailSize::Small, ThumbnailSize::Medium, ThumbnailSize::Large]);
        v
    }
}

/// Where a job stands.
#[derive(Debug, Clone, Copy, PartialEq, Eq, Structural)]
pub enum ThumbnailJobStatus {
    Pending,
    Processing,
    Completed,
    Failed,
}

/// A thumbnail to make: of which file, at which size, and how often it
/// failed so far.
pub struct ThumbnailJob {
    pub file_id: i32,
    pub file_path: String,
    pub size: ThumbnailSize,
    pub status: ThumbnailJobStatus,
    /// When the job was queued, in milliseconds of the processor's clock.
    pub created_at: u64,
    pub retry_count: u32,
}

// ----- configuration -----

/// Configuration of the thumbnail processor.
pub struct ProcessorConfig {
    pub worker_count: usize,
    pub batch_size: usize,
    pub max_retries: u32,
    /// Delay before the first retry of a failed job, in milliseconds.
    pub retry_delay: u64,
    /// Time allowed to make one thumbnail, in milliseconds.
    pub processing_timeout: u64,
    pub memory_limit_mb: usize,
}

/// `num_cpus::get`: the number of logical CPUs available to this process.
/// Its documentation promises at least one; what else it returns depends on
/// the machine and on the process's CPU affinity and cgroup limits.
#[verifier::external_body]
fn available_cpus() -> (n: usize)
    ensures
        n >= 1,
{
    num_cpus::get()
}

impl ProcessorConfig {
    /// The default configuration for a machine with `cpus` logical CPUs: one
    /// worker per CPU and at least two, batches of 50, three attempts with
    /// five seconds between the first two, thirty seconds per thumbnail and
    /// 100 MB of memory.
    pub fn for_cpu_count(cpus: usize) -> (r: ProcessorConfig)
        ensures
            r.worker_count == if cpus < 2 {
                2
            } else {
                cpus
            },
            r.batch_size == 50,
            r.max_retries == 3,
            r.retry_delay == 5000,
            r.processing_timeout == 30000,
            r.memory_limit_mb == 100,
    {
        ProcessorConfig {
            worker_count: if cpus < 2 {
                2
            } else {
                cpus
            },
            batch_size: 50,
            max_retries: 3,
            retry_delay: 5000,
            processing_timeout: 30000,
            memory_limit_mb: 100,
        }
    }
}

impl Default for ProcessorConfig {
    /// The default configuration for the CPUs of this machine (see
    /// [`ProcessorConfig::for_cpu_count`]).
    fn default() -> (r: ProcessorConfig)
        ensures
            r.worker_count >= 2,
            r.batch_size == 50,
            r.max_retries == 3,
            r.retry_delay == 5000,
            r.processing_timeout == 30000,
            r.memory_limit_mb == 100,
    {
        Self::for_cpu_count(available_cpus())
    }
}

// ----- the queue -----

/// Whether a job waits for a worker.
pub open spec fn is_pending(j: ThumbnailJob) -> bool {
    j.status == ThumbnailJobStatus::Pending
}

/// Index of the first pending job of `q`, where there is one.
pub open spec fn first_pending(q: Seq<ThumbnailJob>) -> Option<int>
    decreases q.len(),
{
    if q.len() == 0 {
        None
    } else {
        match first_pending(q.drop_last()) {
            Some(i) => Some(i),
            None => if is_pending(q.last()) {
                Some(q.len() - 1)
            } else {
                None
            },
        }
    }
}

proof fn lemma_first_pending(q: Seq<ThumbnailJob>)
    ensures
        match first_pending(q) {
            Some(i) => 0 <= i < q.len() && is_pending(q[i]) && forall|k: int|
                0 <= k < i ==> !is_pending(#[trigger] q[k]),
            None => forall|k: int| 0 <= k < q.len() ==> !is_pending(#[trigger] q[k]),
        },
    decreases q.len(),
{
    if q.len() > 0 {
        lemma_first_pending(q.drop_last());
        assert forall|k: int| 0 <= k < q.len() - 1 implies q.drop_last()[k] == q[k] by {}
    }
}

/// The job with the status `status`, otherwise unchanged.
pub open spec fn with_status(j: ThumbnailJob, status: ThumbnailJobStatus) -> ThumbnailJob {
    ThumbnailJob { status, ..j }
}

/// Takes the first pending job out of `queue`, marked as being processed.
pub fn get_next_job(queue: &mut Vec<ThumbnailJob>) -> (r: Option<ThumbnailJob>)
    ensures
        match first_pending(old(queue)@) {
            Some(i) => r == Some(with_status(old(queue)@[i], ThumbnailJobStatus::Processing))
                && final(queue)@ == old(queue)@.remove(i),
            None => r is None && final(queue)@ == old(queue)@,
        },
{
    proof {
        lemma_first_pending(queue@);
    }
    let mut i: usize = 0;
    while i < queue.len()
        invariant
            i <= queue.len(),
            queue@ == old(queue)@,
            forall|k: int| 0 <= k < i ==> !is_pending(#[trigger] queue@[k]),
        decreases queue.len() - i,
    {
        if queue[i].status == ThumbnailJobStatus::Pending {
            proof {
                lemma_first_pending(queue@);
                if first_pending(queue@) != Some(i as int) {
                    let f = first_pending(queue@)->0;
                    assert(f < i ==> !is_pending(queue@[f]));
                }
            }
            let mut job = queue.remove(i);
            job.status = ThumbnailJobStatus::Processing;
            return Some(job);
        }
        i = i + 1;
    }
    None
}

/// How many jobs of `q` have the status `s`.
pub open spec fn count_status(q: Seq<ThumbnailJob>, s: ThumbnailJobStatus) -> nat
    decreases q.len(),
{
    if q.len() == 0 {
        0
    } else {
        count_status(q.drop_last(), s) + if q.last().status == s {
            1nat
        } else {
            0nat
        }
    }
}

/// How many jobs of `queue` have the status `status`.
pub fn count_jobs(queue: &Vec<ThumbnailJob>, status: ThumbnailJobStatus) -> (r: usize)
    ensures
        r == count_status(queue@, status),
{
    let mut n: usize = 0;
    let mut i: usize = 0;
    while i < queue.len()
        invariant
            i <= queue.len(),
            n == count_status(queue@.take(i as int), status),
            n <= i,
        decreases queue.len() - i,
    {
        assert(queue@.take(i + 1).drop_last() =~= queue@.take(i as int));
        if queue[i].status == status {
            n = n + 1;
        }
        i = i + 1;
    }
    assert(queue@.take(queue.len() as int) =~= queue@);
    n
}

/// The number of jobs waiting for a worker.
pub fn get_pending_job_count(queue: &Vec<ThumbnailJob>) -> (r: usize)
    ensures
        r == count_status(queue@, ThumbnailJobStatus::Pending),
{
    count_jobs(queue, ThumbnailJobStatus::Pending)
}

// ----- failures -----

/// What becomes of a job that failed.
pub enum FailureOutcome {
    /// Queue it again, pending, after `delay` milliseconds.
    Retry { job: ThumbnailJob, delay: u64 },
    /// Give it up.
    Failed(ThumbnailJob),
}

/// Whether a job that failed for the `attempt`-th time is tried again.
pub open spec fn retries(attempt: nat, max_retries: nat) -> bool {
    attempt < max_retries
}

/// The outcome of a failed job: its failure count goes up by one; while it
/// stays below `max_retries` the job is queued again, pending, after
/// `retry_delay` times the failure count, which must fit in a `u64`;
/// otherwise it is failed, and the delay is not computed.
pub fn handle_failed_job(job: ThumbnailJob, max_retries: u32, retry_delay: u64) -> (r: FailureOutcome)
    requires
        job.retry_count < u32::MAX,
        retries((job.retry_count + 1) as nat, max_retries as nat) ==> (job.retry_count + 1) * retry_delay
            <= u64::MAX,
    ensures
        ({
            let count = (job.retry_count + 1) as u32;
            let next = ThumbnailJob { retry_count: count, ..job };
            if retries(count as nat, max_retries as nat) {
                r == FailureOutcome::Retry {
                    job: with_status(next, ThumbnailJobStatus::Pending),
                    delay: (retry_delay * count) as u64,
                }
            } else {
                r == FailureOutcome::Failed(with_status(next, ThumbnailJobStatus::Failed))
            }
        }),
{
    let mut job = job;
    job.retry_count = job.retry_count + 1;
    if job.retry_count < max_retries {
        job.status = ThumbnailJobStatus::Pending;
        let count: u64 = job.retry_count as u64;
        assert(retry_delay * count <= u64::MAX) by (nonlinear_arith)
            requires
                count * retry_delay <= u64::MAX,
        ;
        let delay = retry_delay * count;
        FailureOutcome::Retry { job, delay }
    } else {
        job.status = ThumbnailJobStatus::Failed;
        FailureOutcome::Failed(job)
    }
}

/// A job that fails every time is given up at its failure numbered
/// `max(max_retries, 1)`, and tried again after every failure before that.
pub proof fn lemma_failed_job_attempts(max_retries: nat, attempt: nat)
    requires
        1 <= attempt,
    ensures
        retries(attempt, max_retries) <==> attempt < if max_retries == 0 {
            1
        } else {
            max_retries
        },
{
}

// ----- queueing -----

/// The flags held by each vector of `v`.
pub open spec fn flag_views(v: Seq<Vec<bool>>) -> Seq<Seq<bool>> {
    Seq::new(v.len(), |i: int| v[i]@)
}

/// The jobs that queueing `files` at `sizes` adds, file after file and size
/// after size, skipping those whose thumbnail exists (`has_thumbnail[f][s]`),
/// and whether a file without an id stopped it.
pub open spec fn planned_jobs(
    files: Seq<File>,
    sizes: Seq<ThumbnailSize>,
    has_thumbnail: Seq<Seq<bool>>,
    created_at: u64,
) -> (Seq<ThumbnailJob>, bool)
    decreases files.len(),
{
    if files.len() == 0 {
        (seq![], false)
    } else {
        let (before, stopped) = planned_jobs(files.drop_last(), sizes, has_thumbnail, created_at);
        if stopped {
            (before, true)
        } else {
            let f = files.last();
            match f.id {
                None => (before, sizes.len() > 0),
                Some(id) => (
                    before + jobs_for_file(
                        id,
                        f.path,
                        sizes,
                        has_thumbnail[files.len() - 1],
                        created_at,
                    ),
                    false,
                ),
            }
        }
    }
}

/// The jobs for one file: one per size whose thumbnail does not exist.
pub open spec fn jobs_for_file(
    id: i32,
    path: String,
    sizes: Seq<ThumbnailSize>,
    has: Seq<bool>,
    created_at: u64,
) -> Seq<ThumbnailJob>
    decreases sizes.len(),
{
    if sizes.len() == 0 {
        seq![]
    } else {
        jobs_for_file(id, path, sizes.drop_last(), has, created_at) + if has[sizes.len() - 1] {
            seq![]
        } else {
            seq![new_job(id, path, sizes.last(), created_at)]
        }
    }
}

/// A fresh, pending job.
pub open spec fn new_job(id: i32, path: String, size: ThumbnailSize, created_at: u64) -> ThumbnailJob {
    ThumbnailJob {
        file_id: id,
        file_path: path,
        size,
        status: ThumbnailJobStatus::Pending,
        created_at,
        retry_count: 0,
    }
}

/// Queues a job for each of `files` at each of `sizes` whose thumbnail does
/// not exist yet. `has_thumbnail[f][s]` says whether the database holds the
/// thumbnail of file `f` at size `s` (where looking it up failed, it counts as
/// missing, so the job is queued). A file without an id stops the queueing
/// with an error, the jobs queued before it staying queued. Gives how many
/// jobs were queued.
pub fn queue_files_for_processing(
    queue: &mut Vec<ThumbnailJob>,
    files: &Vec<File>,
    sizes: &Vec<ThumbnailSize>,
    has_thumbnail: &Vec<Vec<bool>>,
    created_at: u64,
) -> (r: Result<usize, ThumbnailError>)
    requires
        has_thumbnail.len() == files.len(),
        forall|f: int| 0 <= f < files.len() ==> (#[trigger] has_thumbnail@[f])@.len() == sizes.len(),
        old(queue).len() + files.len() * sizes.len() <= usize::MAX,
    ensures
        ({
            let (jobs, stopped) = planned_jobs(files@, sizes@, flag_views(has_thumbnail@), created_at);
            &&& final(queue)@ == old(queue)@ + jobs
            &&& stopped ==> (r matches Err(e) && e is FileIdNotProvided)
            &&& !stopped ==> r == Ok::<usize, ThumbnailError>(jobs.len() as usize)
        }),
{
    let ghost hv = flag_views(has_thumbnail@);
    let ghost start = queue@;
    let mut count: usize = 0;
    let mut i: usize = 0;
    while i < files.len()
        invariant
            i <= files.len(),
            start == old(queue)@,
            has_thumbnail.len() == files.len(),
            hv == flag_views(has_thumbnail@),
            forall|f: int| 0 <= f < files.len() ==> (#[trigger] has_thumbnail@[f])@.len() == sizes.len(),
            start.len() + files.len() * sizes.len() <= usize::MAX,
            planned_jobs(files@.take(i as int), sizes@, hv, created_at).1 == false,
            queue@ == start + planned_jobs(files@.take(i as int), sizes@, hv, created_at).0,
            count == planned_jobs(files@.take(i as int), sizes@, hv, created_at).0.len(),
            count <= i * sizes.len(),
        decreases files.len() - i,
    {
        assert(files@.take(i + 1).drop_last() =~= files@.take(i as int));
        assert(files@.take(i + 1).last() == files@[i as int]);
        let file = &files[i];
        let id = match file.id {
            Some(id) => id,
            None => {
                if sizes.len() > 0 {
                    proof {
                        let prev = planned_jobs(files@.take(i as int), sizes@, hv, created_at);
                        assert(planned_jobs(files@.take(i + 1), sizes@, hv, created_at) == (prev.0, true));
                        lemma_planned_stopped_stays(files@, sizes@, hv, created_at, i as int + 1);
                    }
                    return Err(ThumbnailError::FileIdNotProvided);
                }
                proof {
                    assert(planned_jobs(files@.take(i + 1), sizes@, hv, created_at).0 =~= planned_jobs(
                        files@.take(i as int),
                        sizes@,
                        hv,
                        created_at,
                    ).0);
                    assert(count <= (i + 1) * sizes.len()) by (nonlinear_arith)
                        requires
                            count <= i * sizes.len(),
                    ;
                }
                i = i + 1;
                continue;
            },
        };
        let flags = &has_thumbnail[i];
        assert(hv[i as int] == flags@);
        let ghost before = queue@;
        let ghost before_count = count;
        let mut s: usize = 0;
        while s < sizes.len()
            invariant
                s <= sizes.len(),
                flags@.len() == sizes.len(),
                count == before_count + jobs_for_file(id, file.path, sizes@.take(s as int), flags@, created_at).len(),
                queue@ == before + jobs_for_file(id, file.path, sizes@.take(s as int), flags@, created_at),
                before_count <= i * sizes.len(),
                start.len() + files.len() * sizes.len() <= usize::MAX,
                i < files.len(),
                count <= before_count + s,
            decreases sizes.len() - s,
        {
            assert(sizes@.take(s + 1).drop_last() =~= sizes@.take(s as int));
            assert(sizes@.take(s + 1).last() == sizes@[s as int]);
            let present = flags[s];
            if !present {
                proof {
                    assert(i * sizes.len() + s < files.len() * sizes.len()) by (nonlinear_arith)
                        requires
                            i < files.len(),
                            s < sizes.len(),
                    ;
                }
                let job = ThumbnailJob {
                    file_id: id,
                    file_path: file.path.clone(),
                    size: sizes[s],
                    status: ThumbnailJobStatus::Pending,
                    created_at,
                    retry_count: 0,
                };
                queue.push(job);
                count = count + 1;
            }
            assert(queue@ =~= before + jobs_for_file(id, file.path, sizes@.take(s + 1), flags@, created_at));
            s = s + 1;
        }
        assert(sizes@.take(sizes.len() as int) =~= sizes@);
        proof {
            assert(count <= (i + 1) * sizes.len()) by (nonlinear_arith)
                requires
                    count <= before_count + sizes.len(),
                    before_count <= i * sizes.len(),
            ;
            assert(queue@ =~= start + planned_jobs(files@.take(i + 1), sizes@, hv, created_at).0);
        }
        i = i + 1;
    }
    assert(files@.take(files.len() as int) =~= files@);
    Ok(count)
}

proof fn lemma_planned_stopped_stays(
    files: Seq<File>,
    sizes: Seq<ThumbnailSize>,
    has: Seq<Seq<bool>>,
    created_at: u64,
    n: int,
)
    requires
        0 <= n <= files.len(),
        planned_jobs(files.take(n), sizes, has, created_at).1,
    ensures
        planned_jobs(files, sizes, has, created_at) == planned_jobs(files.take(n), sizes, has, created_at),
    decreases files.len() - n,
{
    if n == files.len() {
        assert(files.take(n) =~= files);
    } else {
        assert(files.take(n + 1).drop_last() =~= files.take(n));
        lemma_planned_stopped_stays(files, sizes, has, created_at, n + 1);
    }
}

/// Queues a job for one file at one size, unless its thumbnail exists
/// (`has_thumbnail`; where looking it up failed, the job is queued).
pub fn queue_single_file(
    queue: &mut Vec<ThumbnailJob>,
    file_id: i32,
    file_path: String,
    size: ThumbnailSize,
    has_thumbnail: bool,
    created_at: u64,
)
    ensures
        has_thumbnail ==> final(queue)@ == old(queue)@,
        !has_thumbnail ==> final(queue)@ == old(queue)@.push(new_job(file_id, file_path, size, created_at)),
{
    if !has_thumbnail {
        queue.push(
            ThumbnailJob {
                file_id,
                file_path,
                size,
                status: ThumbnailJobStatus::Pending,
                created_at,
                retry_count: 0,
            },
        );
    }
}

proof fn lemma_count_status_remove(q: Seq<ThumbnailJob>, i: int, st: ThumbnailJobStatus)
    requires
        0 <= i < q.len(),
    ensures
        count_status(q.remove(i), st) + (if q[i].status == st { 1nat } else { 0nat }) == count_status(q, st),
    decreases q.len(),
{
    if i == q.len() - 1 {
        assert(q.remove(i) =~= q.drop_last());
    } else {
        lemma_count_status_remove(q.drop_last(), i, st);
        assert(q.remove(i).drop_last() =~= q.drop_last().remove(i));
        assert(q.remove(i).last() == q.last());
    }
}

/// Taking the next job leaves one pending job fewer in the queue, and one
/// more in progress, where there was a pending job; otherwise the queue is
/// unchanged.
pub proof fn lemma_next_job_takes_one_pending(q: Seq<ThumbnailJob>)
    ensures
        match first_pending(q) {
            Some(i) => count_status(q.remove(i), ThumbnailJobStatus::Pending) + 1 == count_status(
                q,
                ThumbnailJobStatus::Pending,
            ),
            None => count_status(q, ThumbnailJobStatus::Pending) == 0,
        },
    decreases q.len(),
{
    lemma_first_pending(q);
    match first_pending(q) {
        Some(i) => {
            lemma_count_status_remove(q, i, ThumbnailJobStatus::Pending);
        },
        None => {
            if q.len() > 0 {
                lemma_next_job_takes_one_pending(q.drop_last());
                assert(first_pending(q.drop_last()) is None);
            }
        },
    }
}

/// A job queued behind jobs that are all taken or done is the next one a
/// worker takes, and taking it gives back the queue as it was before.
pub proof fn lemma_queued_job_is_next(q: Seq<ThumbnailJob>, id: i32, path: String, size: ThumbnailSize, created_at: u64)
    requires
        first_pending(q) is None,
    ensures
        first_pending(q.push(new_job(id, path, size, created_at))) == Some(q.len() as int),
        q.push(new_job(id, path, size, created_at)).remove(q.len() as int) == q,
{
    let j = new_job(id, path, size, created_at);
    assert(q.push(j).drop_last() =~= q);
    assert(q.push(j).remove(q.len() as int) =~= q);
}

// ----- statistics of stored thumbnails -----

/// The columns of a stored thumbnail that its statistics read.
pub struct ThumbnailRow {
    pub size: String,
    pub mime_type: String,
    pub file_size: i32,
}

/// Figures of the stored thumbnails: how many there are, how many of each
/// size and of each type (each key once, in the order it first occurs), and
/// the bytes they take.
pub struct ThumbnailStats {
    pub total_thumbnails: u64,
    pub thumbnails_by_size: Vec<(String, u64)>,
    pub thumbnails_by_type: Vec<(String, u64)>,
    pub total_storage_bytes: u64,
}

/// The texts of `keys`, each once, in the order they first occur.
pub open spec fn distinct_texts(keys: Seq<Seq<char>>) -> Seq<Seq<char>>
    decreases keys.len(),
{
    if keys.len() == 0 {
        seq![]
    } else {
        let before = distinct_texts(keys.drop_last());
        if before.contains(keys.last()) {
            before
        } else {
            before.push(keys.last())
        }
    }
}

/// How often `k` occurs in `keys`.
pub open spec fn occurrences(keys: Seq<Seq<char>>, k: Seq<char>) -> nat
    decreases keys.len(),
{
    if keys.len() == 0 {
        0
    } else {
        occurrences(keys.drop_last(), k) + if keys.last() == k {
            1nat
        } else {
            0nat
        }
    }
}

proof fn lemma_occurrences_bound(keys: Seq<Seq<char>>, k: Seq<char>)
    ensures
        occurrences(keys, k) <= keys.len(),
    decreases keys.len(),
{
    if keys.len() > 0 {
        lemma_occurrences_bound(keys.drop_last(), k);
    }
}

proof fn lemma_distinct_texts_members(keys: Seq<Seq<char>>)
    ensures
        forall|k: Seq<char>| distinct_texts(keys).contains(k) <==> keys.contains(k),
        distinct_texts(keys).no_duplicates(),
    decreases keys.len(),
{
    if keys.len() > 0 {
        let p = keys.drop_last();
        let x = keys.last();
        lemma_distinct_texts_members(p);
        let d = distinct_texts(p);
        assert forall|k: Seq<char>| distinct_texts(keys).contains(k) <==> keys.contains(k) by {
            if keys.contains(k) {
                let i = choose|i: int| 0 <= i < keys.len() && keys[i] == k;
                if i < p.len() {
                    assert(p[i] == k);
                    assert(p.contains(k));
                }
            }
            if p.contains(k) {
                let i = choose|i: int| 0 <= i < p.len() && p[i] == k;
                assert(keys[i] == k);
            }
            if k == x {
                assert(keys[keys.len() - 1] == k);
            }
            if !d.contains(x) {
                if d.push(x).contains(k) {
                    let i = choose|i: int| 0 <= i < d.push(x).len() && d.push(x)[i] == k;
                    if i < d.len() {
                        assert(d[i] == k);
                    }
                }
                if d.contains(k) {
                    let i = choose|i: int| 0 <= i < d.len() && d[i] == k;
                    assert(d.push(x)[i] == k);
                }
                if k == x {
                    assert(d.push(x)[d.len() as int] == k);
                }
            }
        }
        if !d.contains(x) {
            assert forall|a: int, b: int| 0 <= a < d.push(x).len() && 0 <= b < d.push(x).len() && a != b implies d.push(x)[a] != d.push(x)[b] by {
                if a < d.len() && b < d.len() {
                } else if a == d.len() {
                    assert(d.contains(d[b]));
                } else {
                    assert(d.contains(d[a]));
                }
            }
        }
    }
}

/// The counts of `keys`: each key once, in the order it first occurs, with how
/// often it occurs.
pub open spec fn tally_of(keys: Seq<Seq<char>>) -> Seq<(Seq<char>, nat)> {
    distinct_texts(keys).map_values(|k: Seq<char>| (k, occurrences(keys, k)))
}

/// The view of counted keys.
pub open spec fn tally_view(v: Seq<(String, u64)>) -> Seq<(Seq<char>, nat)> {
    Seq::new(v.len(), |i: int| (v[i].0@, v[i].1 as nat))
}

/// How often each of `keys` occurs (see [`tally_of`]).
pub fn tally(keys: &Vec<String>) -> (r: Vec<(String, u64)>)
    requires
        keys.len() <= u64::MAX,
    ensures
        tally_view(r@) == tally_of(texts(keys@)),
{
    let ghost all = texts(keys@);
    let mut out: Vec<(String, u64)> = Vec::new();
    let mut i: usize = 0;
    while i < keys.len()
        invariant
            i <= keys.len(),
            keys.len() <= u64::MAX,
            all == texts(keys@),
            tally_view(out@) == tally_of(all.take(i as int)),
        decreases keys.len() - i,
    {
        let ghost pre = all.take(i as int);
        let ghost post = all.take(i + 1);
        assert(post.drop_last() =~= pre);
        assert(post.last() == keys@[i as int]@);
        proof {
            lemma_distinct_texts_members(pre);
        }
        let key = &keys[i];
        let mut j: usize = 0;
        let mut found: Option<usize> = None;
        while j < out.len()
            invariant
                j <= out.len(),
                tally_view(out@) == tally_of(pre),
                match found {
                    Some(f) => f < out.len() && out@[f as int].0@ == key@,
                    None => forall|m: int| 0 <= m < j ==> out@[m].0@ != key@,
                },
            decreases out.len() - j,
        {
            if found.is_none() && out[j].0 == *key {
                found = Some(j);
            }
            j = j + 1;
        }
        let ghost d = distinct_texts(pre);
        assert(tally_view(out@).len() == d.len());
        match found {
            Some(f) => {
                assert(tally_view(out@)[f as int] == (d[f as int], occurrences(pre, d[f as int])));
                assert(d[f as int] == key@);
                assert(d.contains(key@));
                assert(distinct_texts(post) == d);
                proof {
                    lemma_occurrences_bound(pre, key@);
                }
                let old_count: u64 = out[f].1;
                assert(old_count == occurrences(pre, key@));
                let entry = (out[f].0.clone(), old_count + 1);
                let ghost before = out@;
                out.set(f, entry);
                assert forall|m: int| 0 <= m < d.len() implies #[trigger] tally_view(out@)[m] == (d[m], occurrences(post, d[m])) by {
                    assert(occurrences(post, d[m]) == occurrences(pre, d[m]) + if post.last() == d[m] { 1nat } else { 0nat });
                    assert(tally_of(pre)[m] == (d[m], occurrences(pre, d[m])));
                    assert(tally_view(before)[m] == tally_of(pre)[m]);
                    if m != f {
                        assert(out@[m] == before[m]);
                        assert(d[m] != d[f as int]);
                        assert(tally_view(out@)[m] == tally_view(before)[m]);
                    } else {
                        assert(out@[m] == entry);
                        assert(tally_view(out@)[m] == (key@, (old_count + 1) as nat));
                    }
                }
                assert(tally_view(out@) =~= tally_of(post));
            },
            None => {
                assert forall|m: int| 0 <= m < d.len() implies d[m] != key@ by {
                    assert(tally_view(out@)[m].0 == d[m]);
                }
                assert(!d.contains(key@));
                assert(distinct_texts(post) == d.push(key@));
                assert(occurrences(pre, key@) == 0) by {
                    lemma_occurrences_absent(pre, key@);
                }
                let ghost before = out@;
                out.push((key.clone(), 1));
                assert forall|m: int| 0 <= m < d.len() implies #[trigger] tally_view(out@)[m] == (d[m], occurrences(post, d[m])) by {
                    assert(out@[m] == before[m]);
                    assert(tally_of(pre)[m] == (d[m], occurrences(pre, d[m])));
                    assert(tally_view(before)[m] == tally_of(pre)[m]);
                    assert(tally_view(out@)[m] == tally_view(before)[m]);
                    assert(post.last() != d[m]);
                    assert(occurrences(post, d[m]) == occurrences(pre, d[m]));
                }
                assert(tally_view(out@)[d.len() as int] == (key@, occurrences(post, key@)));
                assert(tally_view(out@) =~= tally_of(post));
            },
        }
        i = i + 1;
    }
    assert(all.take(keys.len() as int) =~= all);
    out
}

proof fn lemma_occurrences_absent(keys: Seq<Seq<char>>, k: Seq<char>)
    requires
        !distinct_texts(keys).contains(k),
    ensures
        occurrences(keys, k) == 0,
    decreases keys.len(),
{
    lemma_distinct_texts_members(keys);
    if keys.len() > 0 {
        let p = keys.drop_last();
        lemma_distinct_texts_members(p);
        assert(!keys.contains(k));
        assert(keys.last() != k) by {
            if keys.last() == k {
                assert(keys[keys.len() - 1] == k);
            }
        }
        assert(!p.contains(k)) by {
            if p.contains(k) {
                let i = choose|i: int| 0 <= i < p.len() && p[i] == k;
                assert(keys[i] == k);
            }
        }
        lemma_occurrences_absent(p, k);
    }
}

/// The total of the byte counts, each taken as `u64` the way `as` converts an
/// `i32`.
pub open spec fn storage_total(rows: Seq<ThumbnailRow>) -> int
    decreases rows.len(),
{
    if rows.len() == 0 {
        0
    } else {
        storage_total(rows.drop_last()) + (rows.last().file_size as u64) as int
    }
}

proof fn lemma_storage_total_monotone(rows: Seq<ThumbnailRow>, i: int)
    requires
        0 <= i <= rows.len(),
    ensures
        0 <= storage_total(rows.take(i)) <= storage_total(rows),
    decreases rows.len() - i,
{
    if i < rows.len() {
        lemma_storage_total_monotone(rows, i + 1);
        assert(rows.take(i + 1).drop_last() =~= rows.take(i));
        lemma_storage_total_nonneg(rows.take(i));
    } else {
        assert(rows.take(i) =~= rows);
        lemma_storage_total_nonneg(rows);
    }
}

proof fn lemma_storage_total_nonneg(rows: Seq<ThumbnailRow>)
    ensures
        storage_total(rows) >= 0,
    decreases rows.len(),
{
    if rows.len() > 0 {
        lemma_storage_total_nonneg(rows.drop_last());
    }
}

/// The sizes of the rows.
pub open spec fn row_sizes(rows: Seq<ThumbnailRow>) -> Seq<Seq<char>> {
    Seq::new(rows.len(), |i: int| rows[i].size@)
}

/// The types of the rows.
pub open spec fn row_types(rows: Seq<ThumbnailRow>) -> Seq<Seq<char>> {
    Seq::new(rows.len(), |i: int| rows[i].mime_type@)
}

/// The statistics of the stored thumbnails `rows`.
pub fn thumbnail_stats(rows: &Vec<ThumbnailRow>) -> (r: ThumbnailStats)
    requires
        rows.len() <= u64::MAX,
        storage_total(rows@) <= u64::MAX,
    ensures
        r.total_thumbnails == rows.len(),
        tally_view(r.thumbnails_by_size@) == tally_of(row_sizes(rows@)),
        tally_view(r.thumbnails_by_type@) == tally_of(row_types(rows@)),
        r.total_storage_bytes == storage_total(rows@),
{
    let mut sizes: Vec<String> = Vec::new();
    let mut types: Vec<String> = Vec::new();
    let mut total: u64 = 0;
    let mut i: usize = 0;
    while i < rows.len()
        invariant
            i <= rows.len(),
            storage_total(rows@) <= u64::MAX,
            texts(sizes@) == row_sizes(rows@).take(i as int),
            texts(types@) == row_types(rows@).take(i as int),
            sizes.len() == i,
            types.len() == i,
            total == storage_total(rows@.take(i as int)),
        decreases rows.len() - i,
    {
        proof {
            lemma_storage_total_monotone(rows@, i + 1);
        }
        assert(rows@.take(i + 1).drop_last() =~= rows@.take(i as int));
        let ghost before_sizes = texts(sizes@);
        let ghost before_types = texts(types@);
        sizes.push(rows[i].size.clone());
        types.push(rows[i].mime_type.clone());
        assert(texts(sizes@) =~= before_sizes.push(rows@[i as int].size@));
        assert(texts(types@) =~= before_types.push(rows@[i as int].mime_type@));
        assert(row_sizes(rows@).take(i + 1) =~= row_sizes(rows@).take(i as int).push(rows@[i as int].size@));
        assert(row_types(rows@).take(i + 1) =~= row_types(rows@).take(i as int).push(rows@[i as int].mime_type@));
        let bytes: u64 = rows[i].file_size as u64;
        total = total + bytes;
        i = i + 1;
    }
    assert(row_sizes(rows@).take(rows.len() as int) =~= row_sizes(rows@));
    assert(row_types(rows@).take(rows.len() as int) =~= row_types(rows@));
    assert(rows@.take(rows.len() as int) =~= rows@);
    ThumbnailStats {
        total_thumbnails: rows.len() as u64,
        thumbnails_by_size: tally(&sizes),
        thumbnails_by_type: tally(&types),
        total_storage_bytes: total,
    }
}

} // verus!
