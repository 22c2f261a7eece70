# abest_os

The console and interrupt numbering of a small x86-64 kernel, as a verified library.

- `src/vga_buffer.rs`: the VGA text screen (25 rows of 80 cells held in volatile cells),
  the colors and attribute bytes, and the writer that prints bytes on the bottom row
  and scrolls. Every operation is specified over `ScreenState`, the rows the screen
  shows, the column of the next character and the current attribute byte.
- `src/interrupts.rs`: the interrupt controllers' vector offsets and the vector of each
  hardware interrupt.
- `app/main.rs`: the global console behind a spin lock, the print macros, the test
  runner, the interrupt controller setup, and a hosted `main` that runs the boot
  messages and copies the screen to standard output.
