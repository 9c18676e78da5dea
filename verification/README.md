# nds_core

The core of a handheld game console with two processors, as a Verus library.
Everything under `src/` is verified; `app/` holds the floating-point output
stages, the disk and the loops around an instruction interpreter.

## Layout

| Module | Contents |
| --- | --- |
| `mmu` | Memory system: memories, address decoding, registers, transfers, watches |
| `cpu` | The two processors: register file, pipeline, interrupts, coprocessor, buses |
| `hle` | Direct boot of a cartridge |
| `ppu` | Display timing and the 2D compositor |
| `gx`, `texture` | Geometry command decoder, its engine, texel fetches |
| `apu`, `psg`, `sound_tables` | Sound channels, mixing, lookup tables |
| `ipc`, `timers`, `rtc`, `maths`, `keys`, `spi`, `backup`, `vram`, `tcm` | Devices |
| `user_settings`, `bytes` | Settings page, byte order |

## How contracts are stated

Each stateful type has a mathematical model (`MmuModel`, `IpcModel`, ...), which
is its view. Spec functions of the model say what each operation leads to, and
the executable operation ensures exactly that. Properties that span operations
are public proof functions whose names begin with `law_`.

An instruction interpreter is not part of the library: `step` and `run` of the
processors hand out the instruction to execute and take the result back.
Likewise the geometry engine issues decoded operations, which a floating-point
back end performs.

A snapshot is a machine value of its own: `capture` makes one, and `resume_from`,
which every stateful type has, takes the state of another value over.
