//! The program state and the step that runs one byte of the current tape.
use vstd::prelude::*;

use std::collections::HashMap;

use crate::grid::{Grid, HashGrid};
use crate::instruction::{decode, parse_instruction, IOKind, Instruction, StringModeKind};
use crate::pointer::{advance, moved, walk, Pointer, PointerView};
use crate::position::{opposite_of, Direction, Position};
use crate::tape::{scan_backward, scan_forward, SourceTape, CLOSE_BRACKET, OPEN_BRACKET};
use crate::text::{
    decimal, decimal_bytes, number_byte, parse_number_byte, strip_line_end, trim_line, trimmed,
    without_line_end,
};

verus! {

broadcast use vstd::std_specs::hash::group_hash_axioms;

/// The most cells that one walk over the grid visits: a bracket scan or a
/// string output gives up after this many.
pub const WALK_LIMIT: u64 = 0xFFFF_FFFF_FFFF_FFFF;

/// Relies on `rand::random`: a byte drawn from the thread's generator. Any
/// byte may come back.
#[verifier::external_body]
fn random_byte() -> (r: u8) {
    rand::random::<u8>()
}

/// A source of instructions: the program text, or the grid read by the
/// pointer at index `root` of the pointer stack.
pub enum Tape {
    Source(SourceTape),
    Grid { root: usize },
}

/// The byte that a binary, logical or digit instruction leaves in the
/// register, from the register `a` and the cell `b` under the pointer.
pub open spec fn combine(i: Instruction, a: u8, b: u8) -> u8 {
    match i {
        Instruction::Value(n) => ((a % 16) * 16 + n % 16) as u8,
        Instruction::Add => ((a + b) % 256) as u8,
        Instruction::Subtract => ((a - b + 256) % 256) as u8,
        Instruction::Multiply => ((a * b) % 256) as u8,
        Instruction::Divide => if b == 0 {
            0
        } else {
            (a / b) as u8
        },
        Instruction::Modulo => if b == 0 {
            0
        } else {
            (a % b) as u8
        },
        Instruction::Equals => if a == b {
            1
        } else {
            0
        },
        Instruction::GreaterThan => if a > b {
            1
        } else {
            0
        },
        Instruction::LogicalAnd => if a != 0 && b != 0 {
            1
        } else {
            0
        },
        Instruction::LogicalOr => if a != 0 || b != 0 {
            1
        } else {
            0
        },
        Instruction::LogicalNot => if a == 0 {
            1
        } else {
            0
        },
        _ => a,
    }
}

pub open spec fn is_combining(i: Instruction) -> bool {
    match i {
        Instruction::Value(_) | Instruction::Add | Instruction::Subtract | Instruction::Multiply
        | Instruction::Divide | Instruction::Modulo | Instruction::Equals | Instruction::GreaterThan
        | Instruction::LogicalAnd | Instruction::LogicalOr | Instruction::LogicalNot => true,
        _ => false,
    }
}

/// What an instruction that reads only the pointer, the cell `g` under it
/// and the saved positions makes of the pointer.
pub open spec fn pointer_after(
    i: Instruction,
    p: PointerView,
    g: u8,
    saved: Map<u8, Position>,
) -> PointerView {
    match i {
        Instruction::SetDirection(d) => PointerView { direction: d, ..p },
        Instruction::MoveOne | Instruction::WriteValueMove => PointerView {
            position: moved(p.position, p.direction, 1),
            ..p
        },
        Instruction::MoveMultiple => PointerView {
            position: moved(p.position, p.direction, p.value as int),
            ..p
        },
        Instruction::ReadValue | Instruction::SwapValue => PointerView { value: g, ..p },
        Instruction::PushPosition => PointerView { stack: p.stack.push(p.position), ..p },
        Instruction::PopPosition => if p.stack.len() > 0 {
            PointerView { position: p.stack.last(), stack: p.stack.drop_last(), ..p }
        } else {
            p
        },
        Instruction::SwapPosition => if p.stack.len() > 0 {
            PointerView { position: p.stack.last(), stack: p.stack.drop_last().push(p.position), ..p }
        } else {
            p
        },
        Instruction::LoadPosition => if saved.contains_key(p.value) {
            PointerView { position: saved[p.value], ..p }
        } else {
            p
        },
        _ => if is_combining(i) {
            PointerView { value: combine(i, p.value, g), ..p }
        } else {
            p
        },
    }
}

/// The bytes an input instruction writes, from the line that was read.
/// A character read is the line's first byte (zero for an empty line); a
/// number read is the trimmed line's value; a string read is the line
/// without its terminator.
pub open spec fn input_bytes(kind: IOKind, line: Seq<u8>) -> Seq<u8> {
    let t = without_line_end(line);
    match kind {
        IOKind::Character => seq![if t.len() > 0 { t[0] } else { 0u8 }],
        IOKind::Number => seq![number_byte(trimmed(line))],
        IOKind::String => t,
    }
}

/// The cell at `q` after `bytes` are written one by one from `p` onward in
/// direction `d`.
pub open spec fn cell_after_writes(
    g: HashGrid,
    p: Position,
    d: Direction,
    bytes: Seq<u8>,
    q: Position,
) -> u8
    decreases bytes.len(),
{
    if bytes.len() == 0 {
        g.cell(q)
    } else if q == walk(p, d, (bytes.len() - 1) as nat) {
        bytes.last()
    } else {
        cell_after_writes(g, p, d, bytes.drop_last(), q)
    }
}

/// The non-zero bytes met from `p` onward in direction `d`, up to the first
/// zero cell, visiting at most `fuel` cells.
pub open spec fn run_from(g: HashGrid, p: Position, d: Direction, fuel: nat) -> Seq<u8>
    decreases fuel,
{
    if fuel == 0 || g.cell(p) == 0 {
        Seq::empty()
    } else {
        seq![g.cell(p)] + run_from(g, moved(p, d, 1), d, (fuel - 1) as nat)
    }
}

/// Where a forward bracket scan over the grid, reading from `p` in direction
/// `d` with `depth` open loops, leaves the reading pointer.
pub open spec fn grid_scan_forward(g: HashGrid, p: Position, d: Direction, depth: nat, fuel: nat) -> Position
    decreases fuel,
{
    if fuel == 0 || g.cell(p) == 0 {
        p
    } else {
        let b = g.cell(p);
        let q = moved(p, d, 1);
        if b == CLOSE_BRACKET {
            if depth == 0 {
                q
            } else {
                grid_scan_forward(g, q, d, (depth - 1) as nat, (fuel - 1) as nat)
            }
        } else if b == OPEN_BRACKET {
            grid_scan_forward(g, q, d, depth + 1, (fuel - 1) as nat)
        } else {
            grid_scan_forward(g, q, d, depth, (fuel - 1) as nat)
        }
    }
}

/// Where a backward bracket scan over the grid, stepping back from `p`
/// against direction `d` with `depth` open loops, leaves the reading pointer.
pub open spec fn grid_scan_backward(g: HashGrid, p: Position, d: Direction, depth: nat, fuel: nat) -> Position
    decreases fuel,
{
    if fuel == 0 {
        p
    } else {
        let q = moved(p, opposite_of(d), 1);
        let b = g.cell(q);
        if b == OPEN_BRACKET {
            if depth == 0 {
                q
            } else {
                grid_scan_backward(g, q, d, (depth - 1) as nat, (fuel - 1) as nat)
            }
        } else if b == CLOSE_BRACKET {
            grid_scan_backward(g, q, d, depth + 1, (fuel - 1) as nat)
        } else {
            grid_scan_backward(g, q, d, depth, (fuel - 1) as nat)
        }
    }
}

/// Reads the grid forward from `start` for the `]` that matches an
/// already-read `[`, and returns where the reading pointer stops.
fn scan_grid_forward(grid: &HashGrid, start: Position, d: Direction) -> (r: Position)
    requires
        grid.well_formed(),
    ensures
        r == grid_scan_forward(*grid, start, d, 0, WALK_LIMIT as nat),
{
    let ghost target = grid_scan_forward(*grid, start, d, 0, WALK_LIMIT as nat);
    let mut p = start;
    let mut depth: u64 = 0;
    let mut fuel: u64 = WALK_LIMIT;
    loop
        invariant_except_break
            grid_scan_forward(*grid, p, d, depth as nat, fuel as nat) == target,
        invariant
            grid.well_formed(),
            depth + fuel <= WALK_LIMIT,
        ensures
            p == target,
        decreases fuel,
    {
        if fuel == 0 {
            break;
        }
        let b = grid.get(&p);
        if b == 0 {
            break;
        }
        let q = advance(p, d, 1);
        fuel = fuel - 1;
        if b == CLOSE_BRACKET {
            if depth == 0 {
                p = q;
                break;
            }
            depth = depth - 1;
        } else if b == OPEN_BRACKET {
            depth = depth + 1;
        }
        p = q;
    }
    p
}

/// Steps back over the grid from `start`, against direction `d`, for the `[`
/// that matches, and returns where the reading pointer stops.
fn scan_grid_backward(grid: &HashGrid, start: Position, d: Direction) -> (r: Position)
    requires
        grid.well_formed(),
    ensures
        r == grid_scan_backward(*grid, start, d, 0, WALK_LIMIT as nat),
{
    let ghost target = grid_scan_backward(*grid, start, d, 0, WALK_LIMIT as nat);
    let back = d.opposite();
    let mut p = start;
    let mut depth: u64 = 0;
    let mut fuel: u64 = WALK_LIMIT;
    loop
        invariant_except_break
            grid_scan_backward(*grid, p, d, depth as nat, fuel as nat) == target,
        invariant
            grid.well_formed(),
            back == opposite_of(d),
            depth + fuel <= WALK_LIMIT,
        ensures
            p == target,
        decreases fuel,
    {
        if fuel == 0 {
            break;
        }
        let q = advance(p, back, 1);
        let b = grid.get(&q);
        fuel = fuel - 1;
        p = q;
        if b == OPEN_BRACKET {
            if depth == 0 {
                break;
            }
            depth = depth - 1;
        } else if b == CLOSE_BRACKET {
            depth = depth + 1;
        }
    }
    p
}

/// Collects the non-zero cells from the pointer onward, moving the pointer
/// with each, and stops on the first zero cell.
fn collect_run(grid: &HashGrid, p: &mut Pointer) -> (out: Vec<u8>)
    requires
        grid.well_formed(),
    ensures
        out@ == run_from(*grid, old(p).position, old(p).direction, WALK_LIMIT as nat),
        final(p)@ == (PointerView { position: walk(old(p).position, old(p).direction, out@.len()), ..old(p)@ }),
{
    let ghost origin_view = p@;
    let ghost whole = run_from(*grid, origin_view.position, origin_view.direction, WALK_LIMIT as nat);
    let mut out: Vec<u8> = Vec::new();
    let mut fuel: u64 = WALK_LIMIT;
    let mut cur = grid.get(&p.position);
    while fuel > 0 && cur != 0
        invariant
            grid.well_formed(),
            p@ == (PointerView { position: p.position, ..origin_view }),
            cur == grid.cell(p.position),
            p.position == walk(origin_view.position, origin_view.direction, out@.len()),
            out@ + run_from(*grid, p.position, origin_view.direction, fuel as nat) == whole,
            out@.len() + fuel == WALK_LIMIT,
        decreases fuel,
    {
        let ghost rest = run_from(*grid, moved(p.position, origin_view.direction, 1), origin_view.direction, (fuel - 1) as nat);
        assert(out@.push(cur) + rest =~= out@ + (seq![cur] + rest));
        out.push(cur);
        p.move_pointer(1);
        cur = grid.get(&p.position);
        fuel = fuel - 1;
    }
    assert(out@ + run_from(*grid, p.position, origin_view.direction, fuel as nat) =~= out@);
    out
}

/// Writes `bytes` one by one from the pointer onward, moving the pointer
/// after each.
fn write_run(grid: &mut HashGrid, p: &mut Pointer, bytes: &Vec<u8>)
    requires
        old(grid).well_formed(),
    ensures
        final(grid).well_formed(),
        forall|c: Position| #[trigger]
            final(grid).cell(c) == cell_after_writes(*old(grid), old(p).position, old(p).direction, bytes@, c),
        final(p)@ == (PointerView { position: walk(old(p).position, old(p).direction, bytes@.len()), ..old(p)@ }),
{
    let ghost g0 = *grid;
    let ghost origin_view = p@;
    let mut i: usize = 0;
    while i < bytes.len()
        invariant
            i <= bytes@.len(),
            grid.well_formed(),
            p@ == (PointerView { position: p.position, ..origin_view }),
            p.position == walk(origin_view.position, origin_view.direction, i as nat),
            forall|c: Position| #[trigger]
                grid.cell(c) == cell_after_writes(g0, origin_view.position, origin_view.direction, bytes@.take(i as int), c),
        decreases bytes@.len() - i,
    {
        let ghost before = *grid;
        let ghost here = p.position;
        grid.set(&p.position, bytes[i]);
        p.move_pointer(1);
        i = i + 1;
        proof {
            assert(bytes@.take(i as int).drop_last() =~= bytes@.take(i - 1));
            assert forall|c: Position| #[trigger]
                grid.cell(c) == cell_after_writes(g0, origin_view.position, origin_view.direction, bytes@.take(i as int), c) by {
                assert(before.cell(c) == cell_after_writes(g0, origin_view.position, origin_view.direction, bytes@.take(i - 1), c));
            }
        }
    }
    assert(bytes@.take(i as int) =~= bytes@);
}

/// The bytes an input instruction writes, from the line that was read.
fn input_bytes_of(kind: IOKind, line: &[u8]) -> (r: Vec<u8>)
    ensures
        r@ == input_bytes(kind, line@),
{
    match kind {
        IOKind::Character => {
            let t = strip_line_end(line);
            let b = if t.len() > 0 {
                t[0]
            } else {
                0
            };
            let mut r: Vec<u8> = Vec::new();
            r.push(b);
            assert(r@ =~= seq![b]);
            r
        },
        IOKind::Number => {
            let t = trim_line(line);
            let b = parse_number_byte(t.as_slice());
            let mut r: Vec<u8> = Vec::new();
            r.push(b);
            assert(r@ =~= seq![b]);
            r
        },
        IOKind::String => strip_line_end(line),
    }
}

/// The whole state of a running program.
pub struct ProgramState {
    pub eval_tapes: Vec<Tape>,
    pub grid: HashGrid,
    pub pointers: Vec<Pointer>,
    pub saved_positions: HashMap<u8, Position>,
    pub string_mode: Option<StringModeKind>,
}

pub open spec fn tape_wf(tape: Tape, t: int) -> bool {
    match tape {
        Tape::Source(src) => src.wf(),
        Tape::Grid { root } => root < t,
    }
}

/// The byte the top tape yields next, if any.
pub open spec fn next_byte(s: ProgramState) -> Option<u8> {
    if s.eval_tapes.len() == 0 {
        None
    } else {
        match s.eval_tapes@.last() {
            Tape::Source(src) => if src.cursor() < src.bytes().len() {
                Some(src.bytes()[src.cursor()])
            } else {
                None
            },
            Tape::Grid { root } => {
                let c = s.grid.cell(s.pointers@[root as int].position);
                if c != 0 {
                    Some(c)
                } else {
                    None
                }
            },
        }
    }
}

/// `s1` is `s0` with only the pointer at `root` moved, to `target`.
pub open spec fn root_moved(s0: ProgramState, s1: ProgramState, root: int, target: Position) -> bool {
    &&& s1.pointers.len() == s0.pointers.len()
    &&& forall|j: int| 0 <= j < s0.pointers.len() && j != root ==> s1.pointers@[j] == s0.pointers@[j]
    &&& s1.pointers@[root]@ == PointerView { position: target, ..s0.pointers@[root]@ }
}

/// `s1` is `s0` with the top source tape's cursor moved to `cursor`.
pub open spec fn cursor_moved(s0: ProgramState, s1: ProgramState, src: SourceTape, cursor: int) -> bool {
    let t = s0.eval_tapes.len() - 1;
    &&& s1.eval_tapes.len() == s0.eval_tapes.len()
    &&& s1.eval_tapes@.drop_last() == s0.eval_tapes@.drop_last()
    &&& s1.eval_tapes@[t] matches Tape::Source(src1) && src1.wf() && src1.bytes() == src.bytes()
        && src1.cursor() == cursor
    &&& s1.pointers@ == s0.pointers@
}

/// Nothing observable differs between `s0` and `s1`.
pub open spec fn unchanged(s0: ProgramState, s1: ProgramState) -> bool {
    &&& s1.eval_tapes@ == s0.eval_tapes@
    &&& s1.pointers@ == s0.pointers@
    &&& same_rest(s0, s1)
}

/// The grid, the saved positions and the string mode are the same.
pub open spec fn same_rest(s0: ProgramState, s1: ProgramState) -> bool {
    &&& s1.grid == s0.grid
    &&& s1.saved_positions@ == s0.saved_positions@
    &&& s1.string_mode == s0.string_mode
}

/// `s1` is `s0` after its top tape yielded one byte.
pub open spec fn pulled(s0: ProgramState, s1: ProgramState) -> bool {
    &&& s0.eval_tapes.len() > 0
    &&& same_rest(s0, s1)
    &&& match s0.eval_tapes@.last() {
        Tape::Source(src) => cursor_moved(s0, s1, src, src.cursor() + 1),
        Tape::Grid { root } => s1.eval_tapes@ == s0.eval_tapes@ && root_moved(
            s0,
            s1,
            root as int,
            moved(s0.pointers@[root as int].position, s0.pointers@[root as int].direction, 1),
        ),
    }
}

/// `s1` is `s0` after a loop bracket scan on the top tape.
pub open spec fn jumped(s0: ProgramState, s1: ProgramState, forwards: bool) -> bool {
    &&& s0.eval_tapes.len() > 0
    &&& same_rest(s0, s1)
    &&& match s0.eval_tapes@.last() {
        Tape::Source(src) => cursor_moved(
            s0,
            s1,
            src,
            if forwards {
                scan_forward(src.bytes(), src.cursor(), 0)
            } else if src.cursor() == 0 {
                0
            } else {
                scan_backward(src.bytes(), src.cursor() - 1, 0)
            },
        ),
        Tape::Grid { root } => {
            let r = s0.pointers@[root as int];
            s1.eval_tapes@ == s0.eval_tapes@ && root_moved(
                s0,
                s1,
                root as int,
                if forwards {
                    grid_scan_forward(s0.grid, r.position, r.direction, 0, WALK_LIMIT as nat)
                } else {
                    grid_scan_backward(
                        s0.grid,
                        moved(r.position, opposite_of(r.direction), 1),
                        r.direction,
                        0,
                        WALK_LIMIT as nat,
                    )
                },
            )
        },
    }
}

/// `s1` is `s0` with only the top pointer changed, to `q`; the tapes stay.
pub open spec fn top_changed(s0: ProgramState, s1: ProgramState, q: PointerView) -> bool {
    let n = s0.pointers.len();
    &&& s1.eval_tapes@ == s0.eval_tapes@
    &&& s1.pointers.len() == n
    &&& s1.pointers@.drop_last() == s0.pointers@.drop_last()
    &&& s1.pointers@[n - 1]@ == q
}

/// `s1` and output `out` are what instruction `i` makes of `s0`, given the
/// input line `line` for the read instructions.
pub open spec fn executed(
    s0: ProgramState,
    i: Instruction,
    line: Seq<u8>,
    s1: ProgramState,
    out: Seq<u8>,
) -> bool {
    let n = s0.pointers.len();
    let p = s0.pointers@[n - 1]@;
    let g = s0.grid.cell(p.position);
    let saved = s0.saved_positions@;
    match i {
        Instruction::Evaluate => {
            &&& same_rest(s0, s1)
            &&& out.len() == 0
            &&& s1.eval_tapes@ == s0.eval_tapes@.push(Tape::Grid { root: (n - 1) as usize })
            &&& s1.pointers.len() == n + 1
            &&& s1.pointers@.drop_last() == s0.pointers@
            &&& s1.pointers@[n as int]@ == PointerView {
                position: p.position,
                direction: p.direction,
                stack: Seq::empty(),
                value: 0,
            }
        },
        Instruction::Kill => {
            &&& same_rest(s0, s1)
            &&& out.len() == 0
            &&& s1.eval_tapes@ == s0.eval_tapes@.drop_last()
            &&& s1.pointers@ == s0.pointers@.drop_last()
        },
        Instruction::StartLoop => out.len() == 0 && if p.value == 0 {
            jumped(s0, s1, true)
        } else {
            unchanged(s0, s1)
        },
        Instruction::EndLoop => out.len() == 0 && if p.value != 0 {
            jumped(s0, s1, false)
        } else {
            unchanged(s0, s1)
        },
        Instruction::Write { kind } => {
            let text = match kind {
                IOKind::Character => seq![g],
                IOKind::Number => decimal(g as nat),
                IOKind::String => run_from(s0.grid, p.position, p.direction, WALK_LIMIT as nat),
            };
            &&& same_rest(s0, s1)
            &&& out == text
            &&& top_changed(
                s0,
                s1,
                if kind == IOKind::String {
                    PointerView { position: walk(p.position, p.direction, text.len() as nat), ..p }
                } else {
                    p
                },
            )
        },
        Instruction::Read { kind } => {
            let bytes = input_bytes(kind, line);
            &&& s1.grid.well_formed()
            &&& forall|c: Position| #[trigger]
                s1.grid.cell(c) == cell_after_writes(s0.grid, p.position, p.direction, bytes, c)
            &&& s1.saved_positions@ == saved
            &&& s1.string_mode == s0.string_mode
            &&& out.len() == 0
            &&& top_changed(s0, s1, PointerView { position: walk(p.position, p.direction, bytes.len() as nat), ..p })
        },
        Instruction::WriteValue | Instruction::WriteValueMove | Instruction::SwapValue => {
            &&& s1.grid.well_formed()
            &&& forall|c: Position| #[trigger]
                s1.grid.cell(c) == if c == p.position {
                    p.value
                } else {
                    s0.grid.cell(c)
                }
            &&& s1.saved_positions@ == saved
            &&& s1.string_mode == s0.string_mode
            &&& out.len() == 0
            &&& top_changed(s0, s1, pointer_after(i, p, g, saved))
        },
        Instruction::SavePosition => {
            &&& s1.grid == s0.grid
            &&& s1.saved_positions@ == saved.insert(p.value, p.position)
            &&& s1.string_mode == s0.string_mode
            &&& out.len() == 0
            &&& top_changed(s0, s1, p)
        },
        Instruction::ToggleStringMode { kind } => {
            &&& s1.grid == s0.grid
            &&& s1.saved_positions@ == saved
            &&& s1.string_mode == Some(kind)
            &&& out.len() == 0
            &&& top_changed(s0, s1, p)
        },
        Instruction::Random => {
            &&& same_rest(s0, s1)
            &&& out.len() == 0
            &&& top_changed(s0, s1, PointerView { value: s1.pointers@[n - 1].value, ..p })
        },
        _ => {
            &&& same_rest(s0, s1)
            &&& out.len() == 0
            &&& top_changed(s0, s1, pointer_after(i, p, g, saved))
        },
    }
}

/// `s1` and output `out` are what byte `b`, just pulled from the top tape,
/// makes of `s0`: in string mode it is written to the grid (or closes the
/// mode); otherwise its instruction runs, and a byte that is none is skipped.
pub open spec fn dispatched(s0: ProgramState, b: u8, line: Seq<u8>, s1: ProgramState, out: Seq<u8>) -> bool {
    let n = s0.pointers.len();
    let p = s0.pointers@[n - 1]@;
    match s0.string_mode {
        Some(k) => if decode(b as char) == Some(Instruction::ToggleStringMode { kind: k }) {
            &&& s1.grid == s0.grid
            &&& s1.saved_positions@ == s0.saved_positions@
            &&& s1.string_mode is None
            &&& s1.eval_tapes@ == s0.eval_tapes@
            &&& s1.pointers@ == s0.pointers@
            &&& out.len() == 0
        } else {
            &&& s1.grid.well_formed()
            &&& forall|c: Position| #[trigger]
                s1.grid.cell(c) == if c == p.position {
                    b
                } else {
                    s0.grid.cell(c)
                }
            &&& s1.saved_positions@ == s0.saved_positions@
            &&& s1.string_mode == s0.string_mode
            &&& out.len() == 0
            &&& top_changed(s0, s1, PointerView { position: moved(p.position, p.direction, 1), ..p })
        },
        None => match decode(b as char) {
            Some(i) => executed(s0, i, line, s1, out),
            None => unchanged(s0, s1) && out.len() == 0,
        },
    }
}

impl ProgramState {
    /// The invariant of a program state: as many pointers as tapes, a
    /// well-formed grid, and each grid tape reading through a pointer below
    /// its own level.
    pub open spec fn wf(&self) -> bool {
        &&& self.eval_tapes.len() == self.pointers.len()
        &&& self.grid.well_formed()
        &&& forall|t: int| 0 <= t < self.eval_tapes.len() ==> tape_wf(#[trigger] self.eval_tapes@[t], t)
    }

    /// A fresh program reading `program`: one pointer at the origin facing
    /// right, an empty grid, no saved positions, string mode off.
    pub fn new(program: SourceTape) -> (r: ProgramState)
        requires
            program.wf(),
        ensures
            r.wf(),
            r.eval_tapes@ == seq![Tape::Source(program)],
            r.pointers.len() == 1,
            r.pointers@[0]@ == (PointerView {
                position: Position { x: 0, y: 0 },
                direction: Direction::Right,
                stack: Seq::empty(),
                value: 0,
            }),
            forall|q: Position| #[trigger] r.grid.cell(q) == 0,
            r.saved_positions@ == Map::<u8, Position>::empty(),
            (r.string_mode is None),
    {
        let mut eval_tapes: Vec<Tape> = Vec::new();
        eval_tapes.push(Tape::Source(program));
        let mut pointers: Vec<Pointer> = Vec::new();
        pointers.push(Pointer::new(Position::origin(), Direction::Right));
        let r = ProgramState {
            eval_tapes,
            grid: HashGrid::new(),
            pointers,
            saved_positions: HashMap::new(),
            string_mode: None,
        };
        proof {
            assert(r.eval_tapes@ =~= seq![Tape::Source(program)]);
        }
        r
    }

    /// Takes the next byte from the top tape; `None` when there is no tape or
    /// the top tape is exhausted, and then nothing changes.
    pub fn pull(&mut self) -> (r: Option<u8>)
        requires
            old(self).wf(),
        ensures
            final(self).wf(),
            r == next_byte(*old(self)),
            (r is None) ==> unchanged(*old(self), *final(self)),
            (r is Some) ==> pulled(*old(self), *final(self)),
    {
        let n = self.eval_tapes.len();
        if n == 0 {
            return None;
        }
        let tape = self.eval_tapes.pop();
        match tape {
            Some(Tape::Source(mut src)) => {
                assert(tape_wf(old(self).eval_tapes@[n - 1], n - 1));
                let r = src.next();
                self.eval_tapes.push(Tape::Source(src));
                proof {
                    assert(self.eval_tapes@.drop_last() =~= old(self).eval_tapes@.drop_last());
                    if r is None {
                        assert(self.eval_tapes@ =~= old(self).eval_tapes@);
                    }
                    assert forall|t: int| 0 <= t < self.eval_tapes.len() implies tape_wf(
                        #[trigger] self.eval_tapes@[t],
                        t,
                    ) by {
                        if t < n - 1 {
                            assert(self.eval_tapes@[t] == old(self).eval_tapes@[t]);
                        }
                    }
                }
                r
            },
            Some(Tape::Grid { root }) => {
                self.eval_tapes.push(Tape::Grid { root });
                proof {
                    assert(self.eval_tapes@ =~= old(self).eval_tapes@);
                    assert(tape_wf(old(self).eval_tapes@[n - 1], n - 1));
                }
                let pos = self.pointers[root].position;
                let c = self.grid.get(&pos);
                if c == 0 {
                    return None;
                }
                self.pointers[root].move_pointer(1);
                Some(c)
            },
            None => None,
        }
    }

    /// The byte the top tape would yield next, without taking it.
    pub fn peek(&self) -> (r: Option<u8>)
        requires
            self.wf(),
        ensures
            r == next_byte(*self),
    {
        let n = self.eval_tapes.len();
        if n == 0 {
            return None;
        }
        assert(tape_wf(self.eval_tapes@[n - 1], n - 1));
        match &self.eval_tapes[n - 1] {
            Tape::Source(src) => src.peek_next(),
            Tape::Grid { root } => {
                let c = self.grid.get(&self.pointers[*root].position);
                if c != 0 {
                    Some(c)
                } else {
                    None
                }
            },
        }
    }

    /// Whether the next step runs an input instruction, and so needs a line.
    pub fn needs_input(&self) -> (r: bool)
        requires
            self.wf(),
        ensures
            r == (self.string_mode is None && next_byte(*self) is Some && decode(
                next_byte(*self)->Some_0 as char,
            ) matches Some(Instruction::Read { .. })),
    {
        if self.string_mode.is_some() {
            return false;
        }
        match self.peek() {
            Some(b) => match parse_instruction(b as char) {
                Some(Instruction::Read { .. }) => true,
                _ => false,
            },
            None => false,
        }
    }

    /// Runs the bracket scan of a loop on the top tape: forward past the
    /// matching `]`, or back onto the matching `[`.
    pub fn jump_loop(&mut self, forwards: bool)
        requires
            old(self).wf(),
            old(self).eval_tapes.len() > 0,
        ensures
            final(self).wf(),
            jumped(*old(self), *final(self), forwards),
    {
        let n = self.eval_tapes.len();
        let tape = self.eval_tapes.pop();
        assert(tape_wf(old(self).eval_tapes@[n - 1], n - 1));
        match tape {
            Some(Tape::Source(mut src)) => {
                if forwards {
                    src.skip_forward();
                } else {
                    src.skip_backward();
                }
                self.eval_tapes.push(Tape::Source(src));
                proof {
                    assert(self.eval_tapes@.drop_last() =~= old(self).eval_tapes@.drop_last());
                    assert forall|t: int| 0 <= t < self.eval_tapes.len() implies tape_wf(
                        #[trigger] self.eval_tapes@[t],
                        t,
                    ) by {
                        if t < n - 1 {
                            assert(self.eval_tapes@[t] == old(self).eval_tapes@[t]);
                        }
                    }
                }
            },
            Some(Tape::Grid { root }) => {
                self.eval_tapes.push(Tape::Grid { root });
                proof {
                    assert(self.eval_tapes@ =~= old(self).eval_tapes@);
                }
                let pos = self.pointers[root].position;
                let d = self.pointers[root].direction;
                let target = if forwards {
                    scan_grid_forward(&self.grid, pos, d)
                } else {
                    scan_grid_backward(&self.grid, advance(pos, d.opposite(), 1), d)
                };
                self.pointers[root].position = target;
            },
            None => {},
        }
    }

    /// Runs one instruction against the top pointer; `line` is the input line
    /// for the read instructions. Returns the bytes it outputs.
    pub fn execute_instruction(&mut self, instruction: Instruction, line: &[u8]) -> (out: Vec<u8>)
        requires
            old(self).wf(),
            old(self).eval_tapes.len() > 0,
        ensures
            final(self).wf(),
            executed(*old(self), instruction, line@, *final(self), out@),
    {
        let top = self.pointers.len() - 1;
        let p_value = self.pointers[top].value;
        let pos = self.pointers[top].position;
        let g_value = self.grid.get(&pos);
        match instruction {
            Instruction::Evaluate => {
                let fresh = Pointer::from_other(&self.pointers[top]);
                self.pointers.push(fresh);
                self.eval_tapes.push(Tape::Grid { root: top });
                proof {
                    assert forall|t: int| 0 <= t < self.eval_tapes.len() implies tape_wf(
                        #[trigger] self.eval_tapes@[t],
                        t,
                    ) by {
                        if t < top + 1 {
                            assert(self.eval_tapes@[t] == old(self).eval_tapes@[t]);
                        }
                    }
                    assert(self.pointers@.drop_last() =~= old(self).pointers@);
                }
                Vec::new()
            },
            Instruction::Kill => {
                self.pointers.pop();
                self.eval_tapes.pop();
                proof {
                    assert forall|t: int| 0 <= t < self.eval_tapes.len() implies tape_wf(
                        #[trigger] self.eval_tapes@[t],
                        t,
                    ) by {
                        assert(self.eval_tapes@[t] == old(self).eval_tapes@[t]);
                    }
                }
                Vec::new()
            },
            Instruction::StartLoop => {
                if p_value == 0 {
                    self.jump_loop(true);
                }
                Vec::new()
            },
            Instruction::EndLoop => {
                if p_value != 0 {
                    self.jump_loop(false);
                }
                Vec::new()
            },
            _ => self.execute_on_top(instruction, line, g_value),
        }
    }

    /// Runs an instruction that acts on the top pointer alone (with the grid,
    /// the saved positions and the string mode).
    fn execute_on_top(&mut self, instruction: Instruction, line: &[u8], g_value: u8) -> (out: Vec<u8>)
        requires
            old(self).wf(),
            old(self).eval_tapes.len() > 0,
            g_value == old(self).grid.cell(old(self).pointers@[old(self).pointers.len() - 1].position),
            !(instruction is Evaluate || instruction is Kill || instruction is StartLoop
                || instruction is EndLoop),
        ensures
            final(self).wf(),
            executed(*old(self), instruction, line@, *final(self), out@),
    {
        let mut p = match self.pointers.pop() {
            Some(p) => p,
            None => {
                return Vec::new();
            },
        };
        let mut out: Vec<u8> = Vec::new();
        match instruction {
            Instruction::SetDirection(d) => {
                p.direction = d;
            },
            Instruction::MoveOne => {
                p.move_pointer(1);
            },
            Instruction::MoveMultiple => {
                let v = p.value;
                p.move_pointer(v);
            },
            Instruction::ReadValue => {
                p.value = g_value;
            },
            Instruction::WriteValue => {
                self.grid.set(&p.position, p.value);
            },
            Instruction::WriteValueMove => {
                self.grid.set(&p.position, p.value);
                p.move_pointer(1);
            },
            Instruction::SwapValue => {
                let previous = self.grid.set(&p.position, p.value);
                p.value = previous;
            },
            Instruction::PushPosition => {
                let here = p.position;
                p.position_stack.push(here);
            },
            Instruction::PopPosition => {
                match p.position_stack.pop() {
                    Some(q) => {
                        p.position = q;
                    },
                    None => {},
                }
            },
            Instruction::SwapPosition => {
                match p.position_stack.pop() {
                    Some(q) => {
                        let here = p.position;
                        p.position_stack.push(here);
                        p.position = q;
                    },
                    None => {},
                }
            },
            Instruction::SavePosition => {
                self.saved_positions.insert(p.value, p.position);
            },
            Instruction::LoadPosition => {
                match self.saved_positions.get(&p.value) {
                    Some(q) => {
                        p.position = *q;
                    },
                    None => {},
                }
            },
            Instruction::ToggleStringMode { kind } => {
                self.string_mode = Some(kind);
            },
            Instruction::Value(v) => {
                p.value = (p.value % 16) * 16 + v % 16;
            },
            Instruction::Add => {
                p.value = p.value.wrapping_add(g_value);
            },
            Instruction::Subtract => {
                p.value = p.value.wrapping_sub(g_value);
            },
            Instruction::Multiply => {
                p.value = p.value.wrapping_mul(g_value);
            },
            Instruction::Divide => {
                p.value = if g_value == 0 {
                    0
                } else {
                    p.value / g_value
                };
            },
            Instruction::Modulo => {
                p.value = if g_value == 0 {
                    0
                } else {
                    p.value % g_value
                };
            },
            Instruction::Equals => {
                p.value = if p.value == g_value {
                    1
                } else {
                    0
                };
            },
            Instruction::GreaterThan => {
                p.value = if p.value > g_value {
                    1
                } else {
                    0
                };
            },
            Instruction::LogicalAnd => {
                p.value = if p.value != 0 && g_value != 0 {
                    1
                } else {
                    0
                };
            },
            Instruction::LogicalOr => {
                p.value = if p.value != 0 || g_value != 0 {
                    1
                } else {
                    0
                };
            },
            Instruction::LogicalNot => {
                p.value = if p.value == 0 {
                    1
                } else {
                    0
                };
            },
            Instruction::Random => {
                p.value = random_byte();
            },
            Instruction::Write { kind } => {
                match kind {
                    IOKind::Character => {
                        out.push(g_value);
                        assert(out@ =~= seq![g_value]);
                    },
                    IOKind::Number => {
                        out = decimal_bytes(g_value);
                    },
                    IOKind::String => {
                        out = collect_run(&self.grid, &mut p);
                    },
                }
            },
            Instruction::Read { kind } => {
                let bytes = input_bytes_of(kind, line);
                write_run(&mut self.grid, &mut p, &bytes);
            },
            _ => {},
        }
        self.pointers.push(p);
        proof {
            assert(self.pointers@.drop_last() =~= old(self).pointers@.drop_last());
        }
        out
    }

    /// Handles a byte just taken from the top tape: in string mode it is
    /// written to the grid (or, as the same quote, ends the mode); otherwise
    /// its instruction runs and other bytes are skipped.
    pub fn dispatch(&mut self, b: u8, line: &[u8]) -> (out: Vec<u8>)
        requires
            old(self).wf(),
            old(self).eval_tapes.len() > 0,
        ensures
            final(self).wf(),
            dispatched(*old(self), b, line@, *final(self), out@),
    {
        let instruction = parse_instruction(b as char);
        match self.string_mode {
            Some(kind) => {
                let closes = match instruction {
                    Some(Instruction::ToggleStringMode { kind: k }) => k == kind,
                    _ => false,
                };
                if closes {
                    self.string_mode = None;
                } else {
                    let mut p = match self.pointers.pop() {
                        Some(p) => p,
                        None => {
                            return Vec::new();
                        },
                    };
                    self.grid.set(&p.position, b);
                    p.move_pointer(1);
                    self.pointers.push(p);
                    proof {
                        assert(self.pointers@.drop_last() =~= old(self).pointers@.drop_last());
                    }
                }
                Vec::new()
            },
            None => match instruction {
                Some(i) => self.execute_instruction(i, line),
                None => Vec::new(),
            },
        }
    }

    /// One step: takes a byte from the top tape and handles it. Returns the
    /// bytes output, or `None` when no tape has a byte left (the program has
    /// ended, and nothing changes).
    pub fn step(&mut self, line: &[u8]) -> (r: Option<Vec<u8>>)
        requires
            old(self).wf(),
        ensures
            final(self).wf(),
            (r is None) == (next_byte(*old(self)) is None),
            (r is None) ==> unchanged(*old(self), *final(self)),
            (r is Some) ==> exists|mid: ProgramState| #[trigger]
                pulled(*old(self), mid) && dispatched(
                    mid,
                    next_byte(*old(self))->Some_0,
                    line@,
                    *final(self),
                    r->Some_0@,
                ),
    {
        let b = match self.pull() {
            Some(b) => b,
            None => {
                return None;
            },
        };
        let ghost mid = *self;
        let out = self.dispatch(b, line);
        assert(pulled(*old(self), mid));
        Some(out)
    }
}

} // verus!
