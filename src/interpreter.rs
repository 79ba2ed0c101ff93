//! Building a program from its text, and the handles a driver keeps.
use vstd::prelude::*;
use vstd::string::StringSliceAdditionalSpecFns;

use crate::grid::Grid;
use crate::pointer::PointerView;
use crate::position::{Direction, Position};
use crate::program::ProgramState;
use crate::tape::SourceTape;
use crate::text::{clean_source, cleaned};

verus! {

/// Collects a program text and the input and output a driver will use.
pub struct InterpreterBuilder<R, W> {
    program: SourceTape,
    reader: Option<R>,
    writer: Option<W>,
}

/// A program ready to run, with the input and output its driver uses.
pub struct Interpreter<R, W> {
    pub reader: Option<R>,
    pub writer: Option<W>,
    pub state: ProgramState,
}

impl<R, W> InterpreterBuilder<R, W> {
    /// The program the builder holds.
    pub closed spec fn program(&self) -> SourceTape {
        self.program
    }

    pub closed spec fn reader_of(&self) -> Option<R> {
        self.reader
    }

    pub closed spec fn writer_of(&self) -> Option<W> {
        self.writer
    }

    /// A builder for the program text `source`, with its comments stripped,
    /// and no reader or writer yet.
    pub fn from_source(source: &str) -> (r: InterpreterBuilder<R, W>)
        ensures
            r.program().wf(),
            r.program().bytes() == cleaned(source.spec_bytes()),
            r.program().cursor() == 0,
            r.reader_of() is None,
            r.writer_of() is None,
    {
        InterpreterBuilder { program: SourceTape::from_vec(clean_source(source)), reader: None, writer: None }
    }

    /// Sets the input the program reads from.
    pub fn reader(self, reader: R) -> (r: InterpreterBuilder<R, W>)
        ensures
            r.program() == self.program(),
            r.reader_of() == Some(reader),
            r.writer_of() == self.writer_of(),
    {
        InterpreterBuilder { program: self.program, reader: Some(reader), writer: self.writer }
    }

    /// Sets the output the program writes to.
    pub fn writer(self, writer: W) -> (r: InterpreterBuilder<R, W>)
        ensures
            r.program() == self.program(),
            r.reader_of() == self.reader_of(),
            r.writer_of() == Some(writer),
    {
        InterpreterBuilder { program: self.program, reader: self.reader, writer: Some(writer) }
    }

    /// A fresh program state over the text, with the reader and writer.
    pub fn build(self) -> (r: Interpreter<R, W>)
        requires
            self.program().wf(),
        ensures
            r.state.wf(),
            r.state.eval_tapes@ == seq![crate::program::Tape::Source(self.program())],
            r.state.pointers.len() == 1,
            r.state.pointers@[0]@ == (PointerView {
                position: Position { x: 0, y: 0 },
                direction: Direction::Right,
                stack: Seq::empty(),
                value: 0,
            }),
            forall|q: Position| #[trigger] r.state.grid.cell(q) == 0,
            r.state.saved_positions@ == Map::<u8, Position>::empty(),
            r.state.string_mode is None,
            r.reader == self.reader_of(),
            r.writer == self.writer_of(),
    {
        let state = ProgramState::new(self.program);
        Interpreter { reader: self.reader, writer: self.writer, state }
    }
}

impl<R, W> Interpreter<R, W> {
    /// The program state, to inspect.
    pub fn state(&self) -> (r: &ProgramState)
        ensures
            r == &self.state,
    {
        &self.state
    }
}

} // verus!
