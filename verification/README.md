# armageddon

A simulator and disassembler for ARMv6-M (Thumb) programs, verified with
Verus.

- `src/thumb`: decoding of 16 and 32 bit Thumb instructions, their operands,
  their text, the disassembly listing with literal pools and symbols, and
  text search.
- `src/system`: the simulated processor: registers, memory allocated by page,
  the system control space, instruction execution, exceptions and their
  return, the stepping loop and its trace.
- `src/elf`: reading ELF headers, section headers, symbols and loadable
  sections from the bytes of a file.
- `src/ui`: what the panes of a user interface compute: lines of a long
  text, search state, memory views, register labels, breakpoints and the
  address fields a user types.
- `src/binutils.rs`, `src/dwarf.rs`: bit fields, little endian words and
  LEB128 numbers.
- `app/`: a command line front end that reads an ELF file, loads it into
  the simulator and prints its disassembly.
- `tests/`: tests of the library on hand encoded instructions, programs and
  ELF images.
