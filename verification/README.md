# ps2-core

The core of a PlayStation 2 emulator as a Verus library: the address space and
its devices, the main processor and the planning half of its recompiler, the
graphics synthesizer's memory, transfers and pixel pipeline, and the cheat
engine.

- `src/` is the library. Every function states in `requires` and `ensures` what
  it needs and gives; Verus proves it. Proof functions named `law_*` state what
  holds across functions.
- `tests/` runs the library on concrete values.
- `app/` is the host: floating point, files, threads, saved states and the
  assembler. What it restores or reads from outside, the library tests.

## Models

A type that the rest speaks of has a model over sequences and integers:
`BusModel` for the machine, `CpuModel` for the main processor, `Card`, `Drive`
and their like for the devices, a byte sequence for local memory. Contracts
relate models; a value's own validity is its `wf`.

## Where the host comes in

- Devices that are not part of the library hear of writes through
  `Bus::events` and answer reads through `Bus::reply`.
- Single-precision results are the host's: an instruction that needs one ends
  in `Outcome::Fpu`, and `Cpu::finish_fpu` takes the result.
- What would stop the machine (an instruction that does not exist, an access
  over the end of a memory, a jump to address zero) is an `Outcome`, too.
- The recompiler plans blocks of host operations, places them in an arena and
  links their exits; the host encodes them. What the operations do is proved to
  be what the interpreter does, with two exceptions: a linking branch that tests
  register 31 sees it before the link where the interpreter sees it after, and
  a 128-bit load into register zero skips its read (for the vector unit's
  register zero, which the interpreter writes, that leaves the register alone).
- In the host's environment `PS2E_JIT_NATIVE` limits what is recompiled, for
  bringing it up; `src/ee/jit/native.rs` says how.
- The renderer gives primitives; the host interpolates their attributes and
  hands pixels back to the pixel pipeline.
