//! Interchangeable execution engines for fixed-size (at most 16 states)
//! deterministic finite automata over a byte alphabet.
//!
//! Three engines implement one capability, [`dfa::TransitionTable`]: a dense
//! state-major grid ([`table::Table1`]), a dense symbol-major grid
//! ([`table::Table2`]), and a packed lookup-vector engine ([`sheng::Sheng`])
//! that advances state by a parallel byte-remap over 16 lanes and can split
//! an input into chunks whose transition functions are composed afterwards.
//! All engines are proved to compute the same logical transition function,
//! [`dfa::grid_run`].

pub mod dfa;
pub mod sheng;
pub mod table;
