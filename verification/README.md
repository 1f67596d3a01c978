# kerla

The core of a small x86-64 kernel with a Linux-compatible interface, written
in Verus: each function states what it does in `requires`/`ensures`, over
mathematical models (`Seq`, `Map`, `Set`, integers), and Verus proves it.

- `src/` is the verified library: address arithmetic, file descriptor
  tables, paths and the path walk of the virtual file system (mount points,
  symbolic links), the initramfs (cpio) parser, tmpfs, devfs, procfs
  metrics, virtqueues and the virtio-net and virtio block drivers, the
  decisions taken on interrupts, multiboot parsing, page tables, thread
  stacks, epoll, terminals and backtraces. Public proof functions state the
  library's laws (what a lookup gives after an install, a read after a
  write, a pop after an enqueue, ...).
- `tests/` runs the library on concrete values.
- `app/` is the hardware side: port I/O, the serial port, page allocation,
  interrupt dispatch and the virtio devices' registers and rings in memory.
  It carries out what the library decides.

`arrayvec` and `hashbrown` are called from the library through a few
trusted functions whose contracts restate those crates' documentation.
