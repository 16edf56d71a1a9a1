//! Verified core of a small x86_64 hobby kernel: paging arithmetic, the
//! physical frame stack, the VGA text buffer, the core-local task queue,
//! one-shot futures and streams, and the thread scheduler.

pub mod frame;
pub mod frame_stack;
pub mod paging;
pub mod page_table;
pub mod allocator;
pub mod vga;
pub mod task_queue;
pub mod scheduler;
pub mod kernel_scheduler;
pub mod interrupts;
pub mod boot;
pub mod future_value;
pub mod computation;
pub mod fn_box;
pub mod stream;
pub mod future;
pub mod spsc_stream;
pub mod future_stream;
pub mod thread_local;
