//! Verified core of a small message-passing microkernel: identifier
//! allocation, the scheduler's process and thread tables, interrupt routing,
//! the device tree and the system-call boundary.

pub mod acpi;
pub mod device_tree;
pub mod dt;
pub mod incremental_num;
pub mod message;
pub mod port;
pub mod print;
pub mod ps2;
pub mod scheduler;
pub mod syscall;
pub mod tables;
pub mod terminal;
pub mod wire;
