# lib

The core of an e-reader shell that also runs Palm OS applications, written
in Verus: the functions under `src/` carry contracts that Verus proves; the
one trusted item is a wrapper around `std::str::from_utf8` in
`src/palm/text.rs`.

- `src/palm/cpu/` — a 68000 register file, a flat big-endian memory, the
  effective-address helpers and the instruction groups (ALU, logic, MOVEM,
  multiply/divide, memory shifts, branches, system), each specified as a
  function from registers and memory to registers and memory.
- `src/palm/` — the resource map of `.prc` databases, 1-bit bitmaps (plain,
  RLE, PackBits and scan-line compressed), menu-bar recovery, the Palm pane
  layout and the system-trap stubs: `trap_stub::dispatch` runs one trap
  against the registers, the runtime state and memory (the feature
  manager, the clock, `SysRandom`, `StrLen`, form transitions and the
  popup stack, the dynamic heap in `trap_stub::heap`, the date, library,
  window-bounds, preferences and input-area stubs in `trap_stub::misc`,
  and the plain stubs that clear D0). Heap blocks are tracked by handle,
  address, size and lock; the memory map holds one run, so their bytes are
  not mapped into it. The stubs that work on fonts, form objects, fields,
  windows, the event loop and databases need runtime state this crate does
  not hold; the dispatcher reports them back to its caller unanswered, and
  takes the verdict of the database and table stubs as an argument.
- `src/app/` — the launcher (buttons and taps over recent items, apps,
  books and images, and the one-bit thumbnails of its pictures), the book
  reader (page turning, page-number dialog, table of contents, help) and
  the launcher's menu bar.
- `src/application.rs` — the shell's frame step (sleep and wake on the
  power button, the install-folder scan) and, in `application/`, the touch
  handling of the reader and the launcher. The hit tests of the dialogs,
  menus and status bar, the menu controllers and the drawing live with the
  device code that calls these; their results come in as arguments and the
  work to do goes back out in the returned step.
- `src/ui.rs`, `src/input.rs`, `src/trbk.rs`, `src/image_viewer.rs` — the
  small UI, input and storage types these build on.
- `app/` — the byte-size formatting of the records list, which works in
  floating point and stays outside the verified library. The drawing of
  the launcher and the Palm forms, and the logging of the trap trace, are
  not part of this crate.
- `tests/` — scenarios on concrete values for each part.
