# mini_machine

Three toy virtual machines whose words are numbers of a few digits in a small
base, written in Verus with their behaviour stated as contracts and proved.

- `src/radbyte.rs`: `RadixByte<BASE, DIGITS>`, a word of `DIGITS` digits in
  base `BASE`, with modular and digit-wise arithmetic.
- `src/undigyte.rs`, `src/undigyte_machine.rs`: the undigyte (two base-11
  digits), its character table, its `0u` notation, and the machine with 121
  cells and seven registers.
- `src/septendigyte.rs`, `src/septendigyte_machine.rs`: the septendigyte
  (two base-17 digits), its Latin-1-based characters, its `0s` notation, and
  the machine with 17 registers.
- `src/pentyte.rs`, `src/pentyte_machine.rs`: the pentyte (three base-5
  digits), the pentASCII table, and the machine of 25 cells.
- `src/machine.rs`: the `Machine` trait that the septendigyte and pentyte
  machines implement: decode, execute, and what a debugger shows.
- `src/text.rs`, `src/positional.rs`: text handling and positional numerals.
- `src/radbyte_laws.rs`, `src/machine_laws.rs`, `src/encoding_laws.rs`:
  laws that relate several operations.
- `app/`: the command-line program: reads a program file, runs the chosen
  machine and its debugger loop.

Each machine step is a function from the machine state and an instruction
to the next state, the text printed and an effect (continue, halt, or an
error such as a division by zero); the program in `app/` performs the
printing and the stopping.
