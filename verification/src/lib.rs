//! Change notifications for a watched directory: the decoding of the
//! kernel's event buffers, the queue that hands notifications to the
//! consumer, and the life cycle of a watch session.

pub mod cursor;
pub mod watcher;
pub mod unix;
pub mod windows;
pub mod unix_layout;
pub mod windows_layout;
pub mod session;
pub mod handle;
pub mod dispatch;
