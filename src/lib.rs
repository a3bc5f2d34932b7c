//! A small 32-bit x86 kernel's logic, verified.
//!
//! The core is memory management: the page-table entry layout (`model`),
//! address spaces over a pluggable physical-memory context (`address_space`,
//! with an in-memory context in `arena`), the boot-time bump allocator
//! (`init_allocator`), the steady-state frame allocator (`allocator`), and the
//! boot decisions that tie them together (`memory_map`, `boot`).
//!
//! Around it: the devices as computed port writes (`port`, `pic`, `pit`,
//! `serial`, `ps2`), descriptor tables (`descriptors`), and the text console
//! with its keyboard layout, screen, terminal and shell (`keyboard`, `vga`,
//! `terminal`, `shell`), with small utilities (`array_vec`, `once_cell`,
//! `format`, `process`).

pub mod model;
pub mod allocator;
pub mod address_space;
pub mod init_allocator;
pub mod arena;
pub mod port;
pub mod pic;
pub mod serial;
pub mod ps2;
pub mod pit;
pub mod keyboard;
pub mod array_vec;
pub mod memory_map;
pub mod boot;
pub mod process;
pub mod once_cell;
pub mod descriptors;
pub mod format;
pub mod vga;
pub mod terminal;
pub mod shell;
