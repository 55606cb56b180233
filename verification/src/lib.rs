pub mod channels;
pub mod clock;
pub mod eml_task;
pub mod live_queue;
pub mod picture;
pub mod queue_laws;
pub mod render_request;
pub mod task_id;
pub mod worker_thread;
