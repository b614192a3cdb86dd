//! Offset resolution and self-healing patching of an external process.
//!
//! The library finds addresses inside the modules of a running process by
//! signature scans, reads the layout of the process's classes from the
//! process's own type registry, assembles both into a table of offsets, and
//! uses that table to bring the process's memory to a desired state, tick
//! by tick.
//!
//! The library does no input or output. It works on an image of the
//! target's memory that its caller takes, and it keeps a journal of the
//! writes that it issues, which its caller carries out. Every function is
//! verified against the image: what it returns, what it writes and in what
//! order is stated in its contract.
//!
//! - [`memory`]: the image of an address space, typed reads and writes.
//! - [`pattern`]: wildcarded byte patterns and the signature scanner.
//! - [`process`]: the target process: image, modules, interfaces, journal.
//! - [`cs2`]: the type registry, the offset table and its resolution, the
//!   entity list, and the patch loop with what holds of it.
//! - [`config`]: the desired state.
//! - [`constants`]: the names of the target and of its modules.

pub mod config;
pub mod constants;
pub mod cs2;
pub mod memory;
pub mod pattern;
pub mod process;
