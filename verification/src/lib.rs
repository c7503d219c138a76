//! Core of an image-resizing worker pool: the aspect-preserving scale
//! decision, the target-format table, the work-stealing scheduling step over
//! the real deques, and a verified model of the pool's job-conservation
//! protocol (submission, batch steal, execution, panic recovery, shutdown).

pub mod error;
pub mod format;
pub mod pool;
pub mod scale;
pub mod sched;

pub use error::{Error, ImageError};
pub use format::ImageTarget;
pub use pool::{Pool, ThreadMonitor, WorkerAction, WorkerSlot};
pub use scale::{plan_transform, verify_and_adjust_scale, TransformPlan};
pub use sched::{enqueue_job, next_job, WorkUnit};
