# kernel_terminal

A small message-passing kernel, verified with Verus.

- `src/module.rs`: the `Module` interface, the handler that owns every module
  and delivers messages by handle (`send_message`) under per-module spin
  locks, with reply handlers that run under the sender's lock; the main
  module and the message counter.
- `src/terminal/vga.rs`: the VGA text frame buffer (25 rows of 80 cells held
  in `volatile` slots), its screen model and laws.
- `src/terminal/serial.rs`: the serial port, which decides the port I/O that
  each message needs and queues it.
- `src/terminal/mod.rs`: the terminal, which forwards a message to both
  devices with reply handlers that merge their replies. Run by a module
  whose lock is free (`Handler::terminal_message`) it answers with the
  merged reply; delivered to the terminal itself, its first reply handler
  needs the terminal's own lock, so the delivery waits forever.
- `src/x86.rs`: the boot stack and the multiboot header words.
- `src/lib.rs`: `hello`, the kernel's first words.
- `app/main.rs`: boots the kernel, performs the serial port I/O, prints
  the screen and spins where the kernel waits forever.
