# A small x86_64 kernel, verified with Verus

`src/` is the kernel's logic, proved with Verus:

- `paging`, `page_table`, `allocator`: virtual pages, the recursive mapping of
  the page tables, page-table entries, mapping a page to a fresh frame, and
  the bump allocator of the kernel heap, which zeroes what it hands out and
  gives new threads their stacks. Page-table memory is a map from an entry's
  address to its value, and the heap a map from a byte's address to its
  value.
- `frame`, `frame_stack`, `boot`: physical frames, the stack of free frames,
  and its setup at boot from the boot loader's memory areas.
- `vga`: the 80x25 text screen kept as a copy of its cells, and the writer
  that prints to it.
- `interrupts`: what each interrupt does, how it is acknowledged, and which
  scheduler step follows it.
- `task_queue`, `future_value`, `computation`, `stream`, `future`,
  `spsc_stream`, `future_stream`: the core-local task queue, one-shot futures
  and streams, as state machines whose shared cells live in tables.
- `scheduler`, `kernel_scheduler`, `fn_box`, `thread_local`: the two thread
  schedulers, as decisions that end in what to run next.

`app/main.rs` drives these from a hosted `main`: it formats text, shows the
screen on standard output, and performs what the decisions ask for.
`tests/` runs the library on concrete values.
