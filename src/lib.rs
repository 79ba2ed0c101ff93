//! GridLoc: an esoteric language whose programs drive directed pointers over
//! an unbounded two-dimensional grid of bytes.
pub mod cells;
pub mod grid;
pub mod instruction;
pub mod interpreter;
pub mod laws;
pub mod pointer;
pub mod position;
pub mod program;
pub mod tape;
pub mod text;

pub use grid::{position_to_chunk, Chunk, ChunkCoord, ChunkOffset, Grid, HashGrid, CHUNK_LENGTH};
pub use instruction::{parse_instruction, parse_program, IOKind, Instruction, StringModeKind};
pub use interpreter::{Interpreter, InterpreterBuilder};
pub use pointer::Pointer;
pub use position::{Direction, Position};
pub use program::{ProgramState, Tape};
pub use tape::SourceTape;
pub use text::clean_source;
