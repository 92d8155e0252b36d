//! Dispatch core of a small cooperative kernel: the interrupt-to-task byte
//! bridge, the cooperative executor's scheduling state, the keyboard line
//! editor and the command and test registries.

pub mod vga_buffer;
pub mod interrupts;
pub mod sound;
pub mod task;
pub mod executor;
pub mod keyboard;
pub mod line_editor;
pub mod registry;
pub mod command_registry;
pub mod test_registry;
pub mod commands;
