# coeus_emulation

An emulator for Dalvik bytecode, verified with Verus. It runs single methods of
an Android app, keeps their objects on a heap of its own, and stops where arrays
or strings are used, so that an analysis can look at them.

## Layout

- `src/instruction.rs`, `src/models.rs`: decoded code, and what a dex file tells
  a running program.
- `src/vm/semantics.rs`: what every instruction does, as functions on views of
  the machine. The contracts of the executable code are stated over it.
- `src/vm/effects.rs`, `objects.rs`, `linking.rs`: instructions that go on with
  the one behind them; `control.rs`, `calls.rs`, `statics.rs`: those that do not;
  `run.rs`: whole runs; `machine.rs`: setting a machine up and looking at it.
- `src/vm/laws.rs`, `object_laws.rs`, `stop_laws.rs`, `plain_laws.rs`: what holds
  of every run, what one instruction gives back of another, where the machine
  stops, and what holds of code that makes and reads no object.
- `src/scripting.rs`: what scripts get to see of the files that were loaded.
- `app/`: the loop around a run, in which a runtime answers for methods that no
  dex file defines; how frames and instances are shown; the script module.

## Runs

A run takes its heap addresses from a random generator. Its contract says that
for some answers of that generator it ends as the semantics say. An instruction
that makes an object gets the first answer that is not in use as an address. It
gets none where too many answers in a row are in use, or where the generator
gives none; what the instruction does then is part of the semantics.

Where a method is called that no dex file defines, the run hands the call out
(`Progress::Runtime`) and is continued with `VM::resume`. Where the code asks for
something without a defined result, such as a remainder by a literal zero, the
run ends with `Progress::Stuck`.
