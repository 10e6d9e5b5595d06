//! Pieces of the bytecode optimiser: a priority queue, and the split of a
//! method's code into instruction blocks.
pub mod min_heap;
pub mod instr_block;
pub mod block_map;
