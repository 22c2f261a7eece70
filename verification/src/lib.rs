//! A small x86 kernel's text-mode console and interrupt numbering, with
//! the screen model and its operations verified.

pub mod interrupts;
pub mod vga_buffer;
