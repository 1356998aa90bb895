//! System-call logic of a small monolithic kernel: record locks, the file
//! descriptor table, BPF maps and programs, timer file descriptors, mount
//! bookkeeping, clock and credential calls, and raw IPv6 sockets.
//!
//! Every operation works on plain kernel state held by the types of this
//! crate; the glue that reads user memory and talks to devices stays outside.

pub mod abi;
pub mod bpf;
pub mod byte_order;
pub mod creds;
pub mod dispatch;
pub mod error;
pub mod fd_ops;
pub mod fd_table;
pub mod flock;
pub mod mount;
pub mod net;
pub mod time;
pub mod timerfd;

pub use error::{SysError, syscall_return_value};
