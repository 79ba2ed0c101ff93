use gridloc::{
    clean_source, parse_instruction, parse_program, position_to_chunk, Direction, Grid, HashGrid, IOKind,
    Instruction, InterpreterBuilder, Pointer, Position, ProgramState, SourceTape, StringModeKind,
};

fn run(source: &str, input: &[&str]) -> (ProgramState, Vec<u8>) {
    let mut state = ProgramState::new(SourceTape::from_source(source));
    let mut output = Vec::new();
    let mut lines = input.iter();
    loop {
        assert_eq!(state.eval_tapes.len(), state.pointers.len());
        let line: Vec<u8> = if state.needs_input() {
            lines.next().map(|l| l.as_bytes().to_vec()).unwrap_or_default()
        } else {
            Vec::new()
        };
        match state.step(&line) {
            Some(bytes) => output.extend(bytes),
            None => break,
        }
    }
    (state, output)
}

fn cell(state: &ProgramState, x: isize, y: isize) -> u8 {
    state.grid.get(&Position::new(x, y))
}

fn value_after(source: &str) -> u8 {
    let (state, _) = run(source, &[]);
    state.pointers.last().unwrap().value
}

fn position_after(source: &str) -> Position {
    let (state, _) = run(source, &[]);
    state.pointers.last().unwrap().position
}

#[test]
fn decodes_the_instruction_table() {
    assert_eq!(parse_instruction('<'), Some(Instruction::SetDirection(Direction::Left)));
    assert_eq!(parse_instruction('v'), Some(Instruction::SetDirection(Direction::Down)));
    assert_eq!(parse_instruction(':'), Some(Instruction::MoveMultiple));
    assert_eq!(parse_instruction('\''), Some(Instruction::ToggleStringMode { kind: StringModeKind::Single }));
    assert_eq!(parse_instruction('"'), Some(Instruction::ToggleStringMode { kind: StringModeKind::Double }));
    assert_eq!(parse_instruction('7'), Some(Instruction::Value(7)));
    assert_eq!(parse_instruction('C'), Some(Instruction::Value(12)));
    assert_eq!(parse_instruction('`'), Some(Instruction::GreaterThan));
    assert_eq!(parse_instruction('N'), Some(Instruction::Read { kind: IOKind::Number }));
    assert_eq!(parse_instruction('s'), Some(Instruction::Write { kind: IOKind::String }));
    assert_eq!(parse_instruction(' '), None);
    assert_eq!(parse_instruction('a'), None);
    assert_eq!(parse_instruction('G'), None);
}

#[test]
fn nibble_shift_keeps_the_last_two_digits() {
    assert_eq!(value_after("123"), 0x23);
    assert_eq!(value_after("A5"), 0xA5);
    assert_eq!(value_after("F"), 0x0F);
}

#[test]
fn addition_wraps() {
    assert_eq!(value_after("FF,+"), 0xFE);
}

#[test]
fn subtraction_wraps() {
    assert_eq!(value_after("01,00-"), 0xFF);
}

#[test]
fn multiplication_wraps() {
    assert_eq!(value_after("10,*"), 0x00);
    assert_eq!(value_after("03,05*"), 0x0F);
}

#[test]
fn division_and_modulo_by_zero_give_zero() {
    assert_eq!(value_after("7/"), 0);
    assert_eq!(value_after("7%"), 0);
    assert_eq!(value_after("03,07/"), 2);
    assert_eq!(value_after("03,07%"), 1);
}

#[test]
fn comparisons_and_logic() {
    assert_eq!(value_after("5,05="), 1);
    assert_eq!(value_after("5,04="), 0);
    assert_eq!(value_after("5,06`"), 1);
    assert_eq!(value_after("5,05`"), 0);
    assert_eq!(value_after("5,00&"), 0);
    assert_eq!(value_after("5,03&"), 1);
    assert_eq!(value_after("0|"), 0);
    assert_eq!(value_after("3,00|"), 1);
    assert_eq!(value_after("0!"), 1);
    assert_eq!(value_after("3!"), 0);
}

#[test]
fn write_then_read_round_trip() {
    assert_eq!(value_after("A5,00_"), 0xA5);
}

#[test]
fn swap_exchanges_register_and_cell() {
    let (state, _) = run("9~", &[]);
    assert_eq!(state.pointers[0].value, 0);
    assert_eq!(cell(&state, 0, 0), 9);
}

#[test]
fn same_quote_twice_changes_nothing() {
    let (state, output) = run("''", &[]);
    assert!(output.is_empty());
    assert_eq!(state.string_mode, None);
    assert_eq!(state.pointers[0].position, Position::new(0, 0));
    assert_eq!(state.grid.chunk_count(), 0);
}

#[test]
fn other_quote_is_captured_in_string_mode() {
    let (state, _) = run("\"'\"", &[]);
    assert_eq!(cell(&state, 0, 0), b'\'');
    assert_eq!(state.pointers[0].position, Position::new(1, 0));
    assert_eq!(state.string_mode, None);
}

#[test]
fn unknown_characters_are_ignored() {
    let (state, output) = run("abc wz", &[]);
    assert!(output.is_empty());
    assert_eq!(state.pointers[0].position, Position::new(0, 0));
    assert_eq!(state.pointers[0].value, 0);
}

#[test]
fn skipped_loop_resumes_past_the_matching_bracket() {
    assert_eq!(position_after("[.[.].]."), Position::new(1, 0));
}

#[test]
fn skipped_loop_without_match_ends_the_program() {
    let (state, _) = run("[..", &[]);
    assert_eq!(state.pointers[0].position, Position::new(0, 0));
}

#[test]
fn directions_and_moves() {
    assert_eq!(position_after("^.."), Position::new(0, 2));
    assert_eq!(position_after("v."), Position::new(0, -1));
    assert_eq!(position_after("<."), Position::new(-1, 0));
    assert_eq!(position_after("5:"), Position::new(5, 0));
    assert_eq!(position_after("7;"), Position::new(1, 0));
}

#[test]
fn position_stack() {
    assert_eq!(position_after("(...)"), Position::new(0, 0));
    assert_eq!(position_after(".)"), Position::new(1, 0));
    assert_eq!(position_after(".$"), Position::new(1, 0));
    let (state, _) = run("(..$", &[]);
    assert_eq!(state.pointers[0].position, Position::new(0, 0));
    assert_eq!(state.pointers[0].position_stack, vec![Position::new(2, 0)]);
}

#[test]
fn saved_positions() {
    assert_eq!(position_after("3q...g"), Position::new(0, 0));
    assert_eq!(position_after("3q..4g"), Position::new(2, 0));
}

#[test]
fn write_character_and_number() {
    let (_, output) = run("41,x", &[]);
    assert_eq!(output, b"A".to_vec());
    let (_, output) = run("FF,n", &[]);
    assert_eq!(output, b"255".to_vec());
    let (_, output) = run("n", &[]);
    assert_eq!(output, b"0".to_vec());
    let (_, output) = run("0A,n", &[]);
    assert_eq!(output, b"10".to_vec());
}

#[test]
fn write_string_stops_on_the_zero_cell() {
    let (state, output) = run("s", &[]);
    assert!(output.is_empty());
    assert_eq!(state.pointers[0].position, Position::new(0, 0));
    let (state, output) = run("(\"ab\")s", &[]);
    assert_eq!(output, b"ab".to_vec());
    assert_eq!(state.pointers[0].position, Position::new(2, 0));
}

#[test]
fn read_character() {
    let (state, _) = run("X", &["hi\n"]);
    assert_eq!(cell(&state, 0, 0), b'h');
    assert_eq!(state.pointers[0].position, Position::new(1, 0));
    let (state, _) = run("X", &["\n"]);
    assert_eq!(cell(&state, 0, 0), 0);
    assert_eq!(state.pointers[0].position, Position::new(1, 0));
}

#[test]
fn read_keeps_leading_spaces() {
    let (state, _) = run("S", &[" a\n"]);
    assert_eq!(cell(&state, 0, 0), b' ');
    assert_eq!(cell(&state, 1, 0), b'a');
    assert_eq!(state.pointers[0].position, Position::new(2, 0));
    let (state, _) = run("X", &[" a\n"]);
    assert_eq!(cell(&state, 0, 0), b' ');
}

#[test]
fn read_string_drops_only_the_line_end() {
    let (state, _) = run("S", &["ab \r\n"]);
    assert_eq!(cell(&state, 0, 0), b'a');
    assert_eq!(cell(&state, 1, 0), b'b');
    assert_eq!(cell(&state, 2, 0), b' ');
    assert_eq!(cell(&state, 3, 0), 0);
    assert_eq!(state.pointers[0].position, Position::new(3, 0));
    let (state, _) = run("S", &["xy"]);
    assert_eq!(cell(&state, 1, 0), b'y');
    assert_eq!(state.pointers[0].position, Position::new(2, 0));
}

#[test]
fn read_number() {
    let (state, _) = run("N", &["300\n"]);
    assert_eq!(cell(&state, 0, 0), 44);
    let (state, _) = run("N", &["abc\n"]);
    assert_eq!(cell(&state, 0, 0), 0);
    let (state, _) = run("N", &["  7 \r\n"]);
    assert_eq!(cell(&state, 0, 0), 7);
    let (state, _) = run("N", &["\u{3000}9\u{00A0}\n"]);
    assert_eq!(cell(&state, 0, 0), 9);
    let (state, _) = run("N", &["+5\n"]);
    assert_eq!(cell(&state, 0, 0), 5);
    let (state, _) = run("N", &[""]);
    assert_eq!(cell(&state, 0, 0), 0);
}

#[test]
fn read_string_writes_without_terminator() {
    let (state, _) = run("S", &["hi\n"]);
    assert_eq!(cell(&state, 0, 0), b'h');
    assert_eq!(cell(&state, 1, 0), b'i');
    assert_eq!(cell(&state, 2, 0), 0);
    assert_eq!(state.pointers[0].position, Position::new(2, 0));
}

#[test]
fn evaluate_skips_a_loop_on_the_grid() {
    let (state, _) = run("(\"0[.]1,@\")e", &[]);
    assert_eq!(state.eval_tapes.len(), 1);
    assert_eq!(cell(&state, 0, 0), 1);
    assert_eq!(cell(&state, 1, 0), b'[');
}

#[test]
fn evaluate_runs_a_loop_on_the_grid() {
    let (state, _) = run("(\"v.3[;~1~-]@\")e", &[]);
    assert_eq!(state.eval_tapes.len(), 1);
    assert_eq!(state.pointers.len(), 1);
    assert_eq!(cell(&state, 0, -1), 3);
    assert_eq!(cell(&state, 0, -2), 2);
    assert_eq!(cell(&state, 0, -3), 1);
    assert_eq!(cell(&state, 0, -4), 1);
    assert_eq!(state.pointers[0].position, Position::new(11, 0));
}

#[test]
fn exhausted_grid_tape_ends_the_program() {
    let (state, _) = run(".e", &[]);
    assert_eq!(state.eval_tapes.len(), 2);
    assert_eq!(state.pointers.len(), 2);
}

#[test]
fn needs_input_only_before_a_read() {
    let state = ProgramState::new(SourceTape::from_source("S"));
    assert!(state.needs_input());
    let state = ProgramState::new(SourceTape::from_source("s"));
    assert!(!state.needs_input());
    let mut state = ProgramState::new(SourceTape::from_source("'S"));
    state.step(&[]);
    assert!(!state.needs_input());
}

#[test]
fn random_changes_only_the_register() {
    let mut state = ProgramState::new(SourceTape::from_source(""));
    let output = state.execute_instruction(Instruction::Random, &[]);
    assert!(output.is_empty());
    assert_eq!(state.pointers.len(), 1);
    assert_eq!(state.pointers[0].position, Position::new(0, 0));
    assert_eq!(state.grid.chunk_count(), 0);
}

#[test]
fn grid_sparsity() {
    let mut grid = HashGrid::new();
    assert_eq!(grid.set(&Position::new(0, 0), 7), 0);
    assert!(grid.has_chunk(&Position::new(0, 0)));
    assert_eq!(grid.set(&Position::new(0, 0), 0), 7);
    assert!(!grid.has_chunk(&Position::new(0, 0)));
    assert_eq!(grid.chunk_count(), 0);
}

#[test]
fn euclidean_chunking() {
    assert_eq!(position_to_chunk(&Position::new(-1, -1)), ((-1, -1), (7, 7)));
    assert_eq!(position_to_chunk(&Position::new(8, -8)), ((1, -1), (0, 0)));
    assert_eq!(position_to_chunk(&Position::new(-9, 15)), ((-2, 1), (7, 7)));
    let mut grid = HashGrid::new();
    grid.set(&Position::new(-1, -1), 5);
    assert_eq!(grid.get(&Position::new(-1, -1)), 5);
    assert_eq!(grid.get(&Position::new(7, 7)), 0);
    assert!(grid.has_chunk(&Position::new(-8, -8)));
    assert!(!grid.has_chunk(&Position::new(0, 0)));
}

#[test]
fn chunk_keeps_other_cells() {
    let mut grid = HashGrid::new();
    grid.set(&Position::new(1, 1), 3);
    grid.set(&Position::new(2, 1), 4);
    grid.set(&Position::new(1, 1), 0);
    assert_eq!(grid.get(&Position::new(2, 1)), 4);
    assert_eq!(grid.chunk_count(), 1);
    grid.set(&Position::new(100, -100), 1);
    assert_eq!(grid.chunk_count(), 2);
}

#[test]
fn extreme_positions_are_stored() {
    let mut grid = HashGrid::new();
    let corner = Position::new(isize::MIN, isize::MAX);
    grid.set(&corner, 9);
    assert_eq!(grid.get(&corner), 9);
    assert_eq!(grid.get(&Position::new(isize::MAX, isize::MIN)), 0);
}

#[test]
fn position_arithmetic_wraps() {
    let a = Position::new(isize::MAX, 3);
    let b = Position::new(1, -5);
    assert_eq!(a + b, Position::new(isize::MIN, -2));
    assert_eq!(Position::new(isize::MIN, 0) - Position::new(1, 0), Position::new(isize::MAX, 0));
    assert_eq!(Position::new(2, -3) * 4, Position::new(8, -12));
}

#[test]
fn directions() {
    assert_eq!(Direction::Up.unit_vector(), Position::new(0, 1));
    assert_eq!(Direction::Down.unit_vector(), Position::new(0, -1));
    assert_eq!(Direction::Left.unit_vector(), Position::new(-1, 0));
    assert_eq!(Direction::Right.opposite(), Direction::Left);
    assert_eq!(Direction::Up.opposite(), Direction::Down);
    assert_eq!(Direction::default(), Direction::Right);
}

#[test]
fn pointer_moves_and_copies() {
    let mut p = Pointer::new(Position::new(0, 0), Direction::Left);
    p.move_pointer(255);
    assert_eq!(p.position, Position::new(-255, 0));
    p.value = 9;
    p.position_stack.push(Position::new(1, 1));
    let q = Pointer::from_other(&p);
    assert_eq!(q.position, Position::new(-255, 0));
    assert_eq!(q.direction, Direction::Left);
    assert_eq!(q.value, 0);
    assert!(q.position_stack.is_empty());
}

#[test]
fn source_tape_steps_both_ways() {
    let mut tape = SourceTape::from_source("ab");
    assert_eq!(tape.prev(), None);
    assert_eq!(tape.peek_next(), Some(b'a'));
    assert_eq!(tape.next(), Some(b'a'));
    assert_eq!(tape.next(), Some(b'b'));
    assert_eq!(tape.next(), None);
    assert_eq!(tape.prev(), Some(b'b'));
}

#[test]
fn comments_are_stripped() {
    assert_eq!(clean_source("ab # c\n  cd  \n#x\nef"), b"ab cdef".to_vec());
    assert_eq!(clean_source(""), Vec::<u8>::new());
    assert_eq!(clean_source("\r\n+\r\n"), b"+".to_vec());
    assert_eq!(clean_source("\u{3000}+"), b"+".to_vec());
    assert_eq!(clean_source("\u{00A0}-\u{2009}\u{0085}\n\u{1680}."), b"-.".to_vec());
    assert_eq!(clean_source("\u{00E9}+"), "\u{00E9}+".as_bytes().to_vec());
}

#[test]
fn parses_a_program() {
    assert_eq!(parse_program("+# x\n- q"), vec![Instruction::Add, Instruction::Subtract, Instruction::SavePosition]);
}

#[test]
fn builder_strips_comments_and_keeps_handles() {
    let interpreter = InterpreterBuilder::from_source("5 # set\n:")
        .reader(1u8)
        .writer(2u8)
        .build();
    assert_eq!(interpreter.reader, Some(1u8));
    assert_eq!(interpreter.writer, Some(2u8));
    let mut state = interpreter.state;
    while state.step(&[]).is_some() {}
    assert_eq!(state.pointers[0].position, Position::new(5, 0));
    let bare: InterpreterBuilder<u8, u8> = InterpreterBuilder::from_source("");
    let built = bare.build();
    assert_eq!(built.reader, None);
    assert_eq!(built.state().pointers.len(), 1);
}
