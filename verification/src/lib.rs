//! Three small virtual machines over words of a fixed number of digits in a
//! small base, with verified contracts: the generic word type `RadixByte`
//! and its digit-wise arithmetic; the undigyte machine (two base-11 digits,
//! 121 cells); the septendigyte machine (two base-17 digits); and the pentyte
//! machine (three base-5 digits, 25 cells). Each machine decodes and executes
//! one instruction at a time against a stated semantics; running the loop,
//! reading files and printing is left to the program around the library.
pub mod machine;
pub mod positional;
pub mod radbyte;
pub mod radbyte_laws;
pub mod text;
pub mod undigyte;
pub mod undigyte_machine;
pub mod septendigyte;
pub mod septendigyte_machine;
pub mod pentyte;
pub mod pentyte_machine;
pub mod machine_laws;
pub mod septendigyte_laws;
pub mod undigyte_laws;
pub mod pentyte_laws;
pub mod encoding_laws;
