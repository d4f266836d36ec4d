# nvme_firmware

The core of an emulated NVMe controller, with proofs: queues and doorbells, shadow
doorbells, fetching and dispatching commands, fused compare-and-write, aborting,
asynchronous events, interrupt aggregation, PRP and SGL decoding, protection information.

The controller does no I/O. Calls take a `DeviceCtx`, to which the controller hands its
requests (reads and writes of guest memory, interrupts); whoever drives it carries them
out and reports each finished transfer by its token. The clock is part of the `DeviceCtx`
too.

- `src/` is the library, verified with Verus. Contracts speak of models: the state of a
  part of the controller and the link as a value, and a transition on it. Functions named
  `law_..` state what holds of several operations together.
- `src/mapping.rs` holds what is trusted: the bytes behind `memmap2::MmapMut`.
- `tests/` runs the library on concrete values.
- `app/` is the program around it: arguments, backing files, the loop that serves a host.
