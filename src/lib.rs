//! A batch image-upload client: a verified scheduler that runs a bounded number
//! of streamed uploads at once, the endpoint address it posts to, and the
//! classification and rendering of each file's outcome.
//!
//! The I/O itself (listing a directory, streaming a file into an HTTP body)
//! is done by the caller, which feeds each event back into the scheduler.

pub mod endpoint;
pub mod outcome;
pub mod scheduler;

pub use endpoint::{decimal, upload_url};
pub use outcome::{failure_line, is_success_status, response_outcome, ClientError, UploadResult};
pub use scheduler::{Action, Scheduler, SchedulerView, UploadTask};
