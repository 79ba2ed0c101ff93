//! Laws that relate several instructions or steps of a program.
use vstd::prelude::*;

use crate::grid::Grid;
use crate::instruction::{decode, Instruction, StringModeKind};
use crate::program::{combine, dispatched, executed, next_byte, ProgramState};
use crate::tape::{scan_backward, scan_forward, CLOSE_BRACKET, OPEN_BRACKET};

verus! {

/// Stack balance: a well-formed state (which every step keeps) has as many
/// pointers as tapes, and once both stacks are empty no byte is left to run.
pub proof fn lemma_stack_balance(s: ProgramState)
    requires
        s.wf(),
    ensures
        s.eval_tapes.len() == s.pointers.len(),
        s.eval_tapes.len() == 0 ==> next_byte(s) is None,
{
}

/// The byte of a quote character.
pub open spec fn quote_kind(q: u8) -> Option<StringModeKind> {
    if q == 0x27 {
        Some(StringModeKind::Single)
    } else if q == 0x22 {
        Some(StringModeKind::Double)
    } else {
        None
    }
}

/// String-mode idempotence: the same quote byte handled twice in a row, with
/// string mode off, turns string mode on and then off again, and leaves the
/// pointers and the grid as they were, with no output.
pub proof fn lemma_quote_pair(
    s0: ProgramState,
    q: u8,
    line1: Seq<u8>,
    s1: ProgramState,
    out1: Seq<u8>,
    line2: Seq<u8>,
    s2: ProgramState,
    out2: Seq<u8>,
)
    requires
        s0.pointers.len() > 0,
        s0.string_mode is None,
        q == 0x27 || q == 0x22,
        dispatched(s0, q, line1, s1, out1),
        dispatched(s1, q, line2, s2, out2),
    ensures
        s1.string_mode == quote_kind(q),
        s2.string_mode is None,
        s2.grid == s0.grid,
        s2.pointers.len() == s0.pointers.len(),
        s2.pointers@.drop_last() == s0.pointers@.drop_last(),
        s2.pointers@.last()@ == s0.pointers@.last()@,
        s2.eval_tapes@ == s0.eval_tapes@,
        out1.len() == 0,
        out2.len() == 0,
{
    assert(decode(q as char) == Some(Instruction::ToggleStringMode { kind: quote_kind(q)->Some_0 }));
    assert(s1.pointers@ =~= s1.pointers@.drop_last().push(s1.pointers@.last()));
}

/// Round trip: writing the register to the cell with `,` and then reading the
/// cell with `_` leaves the register as it was.
pub proof fn lemma_write_read_round_trip(
    s0: ProgramState,
    line1: Seq<u8>,
    s1: ProgramState,
    out1: Seq<u8>,
    line2: Seq<u8>,
    s2: ProgramState,
    out2: Seq<u8>,
)
    requires
        s0.pointers.len() > 0,
        executed(s0, Instruction::WriteValue, line1, s1, out1),
        executed(s1, Instruction::ReadValue, line2, s2, out2),
    ensures
        s2.pointers@.last().value == s0.pointers@.last().value,
        s2.pointers@.last().position == s0.pointers@.last().position,
{
}

/// Wrapping: `+`, `-` and `*` leave the register `a` combined with the cell
/// `b` modulo 256.
pub proof fn lemma_wrapping(s0: ProgramState, i: Instruction, line: Seq<u8>, s1: ProgramState, out: Seq<u8>)
    requires
        s0.pointers.len() > 0,
        i is Add || i is Subtract || i is Multiply,
        executed(s0, i, line, s1, out),
    ensures
        ({
            let a = s0.pointers@.last().value as int;
            let b = s0.grid.cell(s0.pointers@.last().position) as int;
            let v = s1.pointers@.last().value as int;
            &&& i is Add ==> v == (a + b) % 256
            &&& i is Subtract ==> v == (a - b) % 256
            &&& i is Multiply ==> v == (a * b) % 256
        }),
{
}

/// The register after the digit instructions `hs`, one after another,
/// starting from `a`.
pub open spec fn after_digits(a: u8, hs: Seq<u8>) -> u8
    decreases hs.len(),
{
    if hs.len() == 0 {
        a
    } else {
        combine(Instruction::Value(hs.last()), after_digits(a, hs.drop_last()), 0)
    }
}

/// Nibble shift: after two or more digit instructions, the register holds the
/// low nibble of the second-to-last digit above the low nibble of the last,
/// whatever it held before.
pub proof fn lemma_nibble_shift(a: u8, hs: Seq<u8>)
    requires
        hs.len() >= 2,
    ensures
        after_digits(a, hs) == ((hs[hs.len() - 2] & 0x0F) << 4) | (hs[hs.len() - 1] & 0x0F),
{
    let h1 = hs[hs.len() - 2];
    let h2 = hs[hs.len() - 1];
    assert(hs.drop_last().last() == h1);
    let b = after_digits(a, hs.drop_last());
    assert(b == ((after_digits(a, hs.drop_last().drop_last()) % 16) * 16 + h1 % 16) as u8);
    assert((b % 16) == h1 % 16);
    assert(((h1 % 16) * 16 + h2 % 16) as u8 == ((h1 & 0x0F) << 4) | (h2 & 0x0F)) by (bit_vector);
}

/// Each digit instruction shifts the register's low nibble up and puts its
/// own digit below it: the step-by-step form of the nibble shift.
pub proof fn lemma_digit_step(s0: ProgramState, h: u8, line: Seq<u8>, s1: ProgramState, out: Seq<u8>)
    requires
        s0.pointers.len() > 0,
        executed(s0, Instruction::Value(h), line, s1, out),
    ensures
        s1.pointers@.last().value == after_digits(s0.pointers@.last().value, seq![h]),
{
    let a = s0.pointers@.last().value;
    assert(seq![h].drop_last() =~= Seq::<u8>::empty());
    assert(seq![h].last() == h);
    assert(after_digits(a, Seq::<u8>::empty()) == a);
    assert(after_digits(a, seq![h]) == combine(Instruction::Value(h), a, 0));
    assert(s1.pointers@.last().value == combine(
        Instruction::Value(h),
        a,
        s0.grid.cell(s0.pointers@.last().position),
    ));
}

/// How a byte changes the loop nesting: `[` opens, `]` closes.
pub open spec fn bracket_weight(b: u8) -> int {
    if b == OPEN_BRACKET {
        1
    } else if b == CLOSE_BRACKET {
        -1
    } else {
        0
    }
}

/// The net nesting of `s[i..j)`: opening brackets minus closing ones.
pub open spec fn nesting(s: Seq<u8>, i: int, j: int) -> int
    decreases j - i,
{
    if j <= i {
        0
    } else {
        nesting(s, i, j - 1) + bracket_weight(s[j - 1])
    }
}

proof fn lemma_nesting_first(s: Seq<u8>, i: int, k: int)
    requires
        0 <= i < k <= s.len(),
    ensures
        nesting(s, i, k) == bracket_weight(s[i]) + nesting(s, i + 1, k),
    decreases k - i,
{
    assert(nesting(s, i, i) == 0);
    assert(nesting(s, i + 1, i + 1) == 0);
    if k - 1 > i {
        lemma_nesting_first(s, i, k - 1);
    }
}

proof fn lemma_forward_from_depth(s: Seq<u8>, i: int, j: int, d: nat)
    requires
        0 <= i <= j < s.len(),
        s[j] == CLOSE_BRACKET,
        d + nesting(s, i, j) == 0,
        forall|k: int| i <= k <= j ==> d + #[trigger] nesting(s, i, k) >= 0,
    ensures
        scan_forward(s, i, d) == j + 1,
    decreases j - i,
{
    if i < j {
        assert forall|k: int| i + 1 <= k <= j implies (d + bracket_weight(s[i])) + #[trigger] nesting(
            s,
            i + 1,
            k,
        ) >= 0 by {
            lemma_nesting_first(s, i, k);
        }
        lemma_nesting_first(s, i, j);
        assert(d + nesting(s, i, i + 1) >= 0);
        assert(nesting(s, i, i) == 0);
        assert(nesting(s, i, i + 1) == bracket_weight(s[i]));
        lemma_forward_from_depth(s, i + 1, j, (d + bracket_weight(s[i])) as nat);
    }
}

/// Nibble shift over a run of steps: when each state in `states` comes from
/// the one before by the digit instruction `hs[i]`, the last register is
/// `after_digits` of the first, and so (by `lemma_nibble_shift`, for two or
/// more digits) holds the last two digits' low nibbles.
pub proof fn lemma_digit_run(
    states: Seq<ProgramState>,
    hs: Seq<u8>,
    lines: Seq<Seq<u8>>,
    outs: Seq<Seq<u8>>,
)
    requires
        states.len() == hs.len() + 1,
        lines.len() == hs.len(),
        outs.len() == hs.len(),
        states[0].pointers.len() > 0,
        forall|i: int|
            0 <= i < hs.len() ==> #[trigger] executed(
                states[i],
                Instruction::Value(hs[i]),
                lines[i],
                states[i + 1],
                outs[i],
            ),
    ensures
        states.last().pointers.len() == states[0].pointers.len(),
        states.last().pointers@.last().value == after_digits(states[0].pointers@.last().value, hs),
    decreases hs.len(),
{
    if hs.len() > 0 {
        let k = hs.len() - 1;
        let init = states.drop_last();
        assert forall|i: int| 0 <= i < hs.drop_last().len() implies #[trigger] executed(
            init[i],
            Instruction::Value(hs.drop_last()[i]),
            lines.drop_last()[i],
            init[i + 1],
            outs.drop_last()[i],
        ) by {
            assert(executed(states[i], Instruction::Value(hs[i]), lines[i], states[i + 1], outs[i]));
        }
        lemma_digit_run(init, hs.drop_last(), lines.drop_last(), outs.drop_last());
        assert(executed(states[k], Instruction::Value(hs[k]), lines[k], states[k + 1], outs[k]));
        assert(init.last() == states[k]);
        lemma_digit_step(states[k], hs[k], lines[k], states[k + 1], outs[k]);
        let a = states[k].pointers@.last().value;
        assert(seq![hs[k]].drop_last() =~= Seq::<u8>::empty());
        assert(after_digits(a, Seq::<u8>::empty()) == a);
    } else {
        assert(after_digits(states[0].pointers@.last().value, hs) == states[0].pointers@.last().value);
    }
}

/// Loop symmetry, forward: a `[` skipped with a zero register resumes just
/// past exactly its matching `]` — the first `]` at index `j` where the
/// nesting of the bytes read since the `[` first drops below zero.
pub proof fn lemma_forward_match(s: Seq<u8>, i: int, j: int)
    requires
        0 <= i <= j < s.len(),
        s[j] == CLOSE_BRACKET,
        nesting(s, i, j) == 0,
        forall|k: int| i <= k <= j ==> #[trigger] nesting(s, i, k) >= 0,
    ensures
        scan_forward(s, i, 0) == j + 1,
{
    lemma_forward_from_depth(s, i, j, 0);
}

proof fn lemma_backward_from_depth(s: Seq<u8>, j: int, i: int, d: nat)
    requires
        0 <= j < i <= s.len(),
        s[j] == OPEN_BRACKET,
        d - nesting(s, j + 1, i) == 0,
        forall|k: int| j < k <= i ==> d - #[trigger] nesting(s, k, i) >= 0,
    ensures
        scan_backward(s, i, d) == j,
    decreases i - j,
{
    if j + 1 < i {
        assert forall|k: int| j < k <= i - 1 implies (d + (if s[i - 1] == CLOSE_BRACKET {
            1int
        } else if s[i - 1] == OPEN_BRACKET {
            -1int
        } else {
            0int
        })) - #[trigger] nesting(s, k, i - 1) >= 0 by {
            assert(nesting(s, k, i) == nesting(s, k, i - 1) + bracket_weight(s[i - 1]));
        }
        assert(nesting(s, i - 1, i - 1) == 0);
        assert(nesting(s, i - 1, i) == bracket_weight(s[i - 1]));
        assert(d - nesting(s, i - 1, i) >= 0);
        assert(nesting(s, j + 1, i) == nesting(s, j + 1, i - 1) + bracket_weight(s[i - 1]));
        let d2: int = d + (if s[i - 1] == CLOSE_BRACKET {
            1int
        } else if s[i - 1] == OPEN_BRACKET {
            -1int
        } else {
            0int
        });
        lemma_backward_from_depth(s, j, i - 1, d2 as nat);
    } else {
        assert(nesting(s, j + 1, i) == 0);
    }
}

/// Loop symmetry, backward: a `]` taken with a non-zero register, read just
/// before cursor `c`, rewinds onto exactly its matching `[` at index `j`: the
/// nearest `[` before it at which the nesting, counted back from the `]`,
/// closes.
pub proof fn lemma_backward_match(s: Seq<u8>, j: int, c: int)
    requires
        0 <= j < c - 1,
        c <= s.len(),
        s[c - 1] == CLOSE_BRACKET,
        s[j] == OPEN_BRACKET,
        nesting(s, j + 1, c - 1) == 0,
        forall|k: int| j < k <= c - 1 ==> #[trigger] nesting(s, k, c - 1) <= 0,
    ensures
        scan_backward(s, c - 1, 0) == j,
{
    lemma_backward_from_depth(s, j, c - 1, 0);
}

} // verus!
