//! The instruction set and the one-character decoder.
use vstd::prelude::*;

use crate::position::Direction;
use crate::text::{clean_source, cleaned};
use vstd::string::StringSliceAdditionalSpecFns;

verus! {

/// The two quote characters that open and close string mode.
#[derive(Clone, Copy, Debug, PartialEq, Eq, Structural)]
pub enum StringModeKind {
    Single,
    Double,
}

/// What an input or output instruction transfers.
#[derive(Clone, Copy, Debug, PartialEq, Eq, Structural)]
pub enum IOKind {
    Character,
    String,
    Number,
}

#[derive(Clone, Copy, Debug, PartialEq, Eq, Structural)]
pub enum Instruction {
    SetDirection(Direction),
    MoveOne,
    MoveMultiple,
    ReadValue,
    WriteValue,
    WriteValueMove,
    SwapValue,
    StartLoop,
    EndLoop,
    PushPosition,
    PopPosition,
    SwapPosition,
    SavePosition,
    LoadPosition,
    ToggleStringMode { kind: StringModeKind },
    Evaluate,
    Kill,
    Value(u8),
    Add,
    Subtract,
    Multiply,
    Divide,
    Modulo,
    Equals,
    GreaterThan,
    LogicalAnd,
    LogicalOr,
    LogicalNot,
    Random,
    Write { kind: IOKind },
    Read { kind: IOKind },
}

/// The instruction a character stands for, if any.
pub open spec fn decode(c: char) -> Option<Instruction> {
    if '0' <= c <= '9' {
        Some(Instruction::Value((c as u32 - '0' as u32) as u8))
    } else if 'A' <= c <= 'F' {
        Some(Instruction::Value((c as u32 - 'A' as u32 + 10) as u8))
    } else {
        match c {
            '<' => Some(Instruction::SetDirection(Direction::Left)),
            '>' => Some(Instruction::SetDirection(Direction::Right)),
            '^' => Some(Instruction::SetDirection(Direction::Up)),
            'v' => Some(Instruction::SetDirection(Direction::Down)),
            '.' => Some(Instruction::MoveOne),
            ':' => Some(Instruction::MoveMultiple),
            '_' => Some(Instruction::ReadValue),
            ',' => Some(Instruction::WriteValue),
            ';' => Some(Instruction::WriteValueMove),
            '~' => Some(Instruction::SwapValue),
            '[' => Some(Instruction::StartLoop),
            ']' => Some(Instruction::EndLoop),
            '(' => Some(Instruction::PushPosition),
            ')' => Some(Instruction::PopPosition),
            '$' => Some(Instruction::SwapPosition),
            'q' => Some(Instruction::SavePosition),
            'g' => Some(Instruction::LoadPosition),
            '\'' => Some(Instruction::ToggleStringMode { kind: StringModeKind::Single }),
            '"' => Some(Instruction::ToggleStringMode { kind: StringModeKind::Double }),
            'e' => Some(Instruction::Evaluate),
            '@' => Some(Instruction::Kill),
            '+' => Some(Instruction::Add),
            '-' => Some(Instruction::Subtract),
            '*' => Some(Instruction::Multiply),
            '/' => Some(Instruction::Divide),
            '%' => Some(Instruction::Modulo),
            '=' => Some(Instruction::Equals),
            '`' => Some(Instruction::GreaterThan),
            '&' => Some(Instruction::LogicalAnd),
            '|' => Some(Instruction::LogicalOr),
            '!' => Some(Instruction::LogicalNot),
            'x' => Some(Instruction::Write { kind: IOKind::Character }),
            'n' => Some(Instruction::Write { kind: IOKind::Number }),
            's' => Some(Instruction::Write { kind: IOKind::String }),
            'X' => Some(Instruction::Read { kind: IOKind::Character }),
            'N' => Some(Instruction::Read { kind: IOKind::Number }),
            'S' => Some(Instruction::Read { kind: IOKind::String }),
            _ => None,
        }
    }
}

/// Decodes one character; characters outside the instruction set give `None`.
pub fn parse_instruction(c: char) -> (r: Option<Instruction>)
    ensures
        r == decode(c),
{
    if '0' <= c && c <= '9' {
        return Some(Instruction::Value((c as u32 - '0' as u32) as u8));
    }
    if 'A' <= c && c <= 'F' {
        return Some(Instruction::Value((c as u32 - 'A' as u32 + 10) as u8));
    }
    match c {
        '<' => Some(Instruction::SetDirection(Direction::Left)),
        '>' => Some(Instruction::SetDirection(Direction::Right)),
        '^' => Some(Instruction::SetDirection(Direction::Up)),
        'v' => Some(Instruction::SetDirection(Direction::Down)),
        '.' => Some(Instruction::MoveOne),
        ':' => Some(Instruction::MoveMultiple),
        '_' => Some(Instruction::ReadValue),
        ',' => Some(Instruction::WriteValue),
        ';' => Some(Instruction::WriteValueMove),
        '~' => Some(Instruction::SwapValue),
        '[' => Some(Instruction::StartLoop),
        ']' => Some(Instruction::EndLoop),
        '(' => Some(Instruction::PushPosition),
        ')' => Some(Instruction::PopPosition),
        '$' => Some(Instruction::SwapPosition),
        'q' => Some(Instruction::SavePosition),
        'g' => Some(Instruction::LoadPosition),
        '\'' => Some(Instruction::ToggleStringMode { kind: StringModeKind::Single }),
        '"' => Some(Instruction::ToggleStringMode { kind: StringModeKind::Double }),
        'e' => Some(Instruction::Evaluate),
        '@' => Some(Instruction::Kill),
        '+' => Some(Instruction::Add),
        '-' => Some(Instruction::Subtract),
        '*' => Some(Instruction::Multiply),
        '/' => Some(Instruction::Divide),
        '%' => Some(Instruction::Modulo),
        '=' => Some(Instruction::Equals),
        '`' => Some(Instruction::GreaterThan),
        '&' => Some(Instruction::LogicalAnd),
        '|' => Some(Instruction::LogicalOr),
        '!' => Some(Instruction::LogicalNot),
        'x' => Some(Instruction::Write { kind: IOKind::Character }),
        'n' => Some(Instruction::Write { kind: IOKind::Number }),
        's' => Some(Instruction::Write { kind: IOKind::String }),
        'X' => Some(Instruction::Read { kind: IOKind::Character }),
        'N' => Some(Instruction::Read { kind: IOKind::Number }),
        'S' => Some(Instruction::Read { kind: IOKind::String }),
        _ => None,
    }
}

/// The instructions of a byte string, in order, skipping bytes that are none.
pub open spec fn decode_all(s: Seq<u8>) -> Seq<Instruction>
    decreases s.len(),
{
    if s.len() == 0 {
        Seq::empty()
    } else {
        let init = decode_all(s.drop_last());
        match decode(s.last() as char) {
            Some(i) => init.push(i),
            None => init,
        }
    }
}

/// The instructions of a program text, with its comments stripped.
pub fn parse_program(source: &str) -> (r: Vec<Instruction>)
    ensures
        r@ == decode_all(cleaned(source.spec_bytes())),
{
    let bytes = clean_source(source);
    let mut r: Vec<Instruction> = Vec::new();
    let mut i: usize = 0;
    while i < bytes.len()
        invariant
            i <= bytes@.len(),
            r@ == decode_all(bytes@.take(i as int)),
        decreases bytes@.len() - i,
    {
        assert(bytes@.take(i + 1).drop_last() =~= bytes@.take(i as int));
        match parse_instruction(bytes[i] as char) {
            Some(instruction) => r.push(instruction),
            None => {},
        }
        i = i + 1;
    }
    assert(bytes@.take(i as int) =~= bytes@);
    r
}

} // verus!
