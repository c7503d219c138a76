use crate::format::ImageTarget;
use vstd::prelude::*;

verus! {

#[verifier::external_type_specification]
#[verifier::external_body]
#[verifier::reject_recursive_types(T)]
pub struct ExInjector<T>(crossbeam_deque::Injector<T>);

#[verifier::external_type_specification]
#[verifier::external_body]
#[verifier::reject_recursive_types(T)]
pub struct ExWorker<T>(crossbeam_deque::Worker<T>);

/// One resize-and-encode request as it travels through the work queue. The
/// job owns its bytes outright, and `responder` is the sending half of the
/// job's single-use completion channel, kept generic so that the runner can
/// supply whatever one-shot channel it bridges results over.
pub struct WorkUnit<R> {
    pub image_data: Vec<u8>,
    pub width: u32,
    pub height: u32,
    pub target: ImageTarget,
    pub responder: R,
}

/// Relies on crossbeam_deque::Injector::push: places the task onto the
/// shared injector, visible to every worker; it never blocks and never
/// fails. Peers may push and steal concurrently through the same shared
/// reference, so no statement about the injector's contents is possible.
#[verifier::external_body]
fn injector_push<T>(global: &crossbeam_deque::Injector<T>, task: T) {
    global.push(task)
}

/// Relies on crossbeam_deque::Worker::pop: takes the next task from this
/// worker's own deque — its oldest, for a FIFO worker — or nothing if the
/// deque is empty.
#[verifier::external_body]
fn worker_pop<T>(local: &crossbeam_deque::Worker<T>) -> Option<T> {
    local.pop()
}

/// Relies on crossbeam_deque::Injector::steal_batch_and_pop: moves a batch
/// of tasks from the shared injector into `local`'s deque and hands one of
/// them back. An empty injector and a steal that lost a race against a peer
/// both come back as nothing, since the caller treats them alike: yield and
/// retry.
#[verifier::external_body]
fn injector_steal_batch_and_pop<T>(
    global: &crossbeam_deque::Injector<T>,
    local: &crossbeam_deque::Worker<T>,
) -> Option<T> {
    match global.steal_batch_and_pop(local) {
        crossbeam_deque::Steal::Success(task) => Some(task),
        crossbeam_deque::Steal::Empty => None,
        crossbeam_deque::Steal::Retry => None,
    }
}

/// The enqueue half of the submission bridge: builds the job around its
/// completion-channel sender and pushes it to the shared injector. Never
/// blocks and never rejects a job.
pub fn enqueue_job<R>(
    global: &crossbeam_deque::Injector<WorkUnit<R>>,
    image_data: Vec<u8>,
    width: u32,
    height: u32,
    target: ImageTarget,
    responder: R,
) {
    injector_push(global, WorkUnit { image_data, width, height, target, responder });
}

/// One scheduling step of a worker over the real queues: the worker's own
/// deque first (the cheap, contention-free path), then a batch steal from
/// the shared injector. Nothing found means the caller should yield its
/// time slice and retry. Because both queues are shared with concurrently
/// running submitters and peers, nothing can be said here about which task
/// comes back; the pool protocol model states what the scheduling steps
/// guarantee.
pub fn next_job<T>(
    local: &crossbeam_deque::Worker<T>,
    global: &crossbeam_deque::Injector<T>,
) -> Option<T> {
    match worker_pop(local) {
        Some(task) => Some(task),
        None => injector_steal_batch_and_pop(global, local),
    }
}

} // verus!
