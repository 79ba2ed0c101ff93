use gridloc::{Grid, Position, ProgramState, SourceTape};

fn run(source: &str, input: &[&str]) -> (ProgramState, Vec<u8>) {
    let mut state = ProgramState::new(SourceTape::from_source(source));
    let mut output = Vec::new();
    let mut lines = input.iter();
    loop {
        let line: Vec<u8> = if state.needs_input() {
            lines.next().map(|l| l.as_bytes().to_vec()).unwrap_or_default()
        } else {
            Vec::new()
        };
        match state.step(&line) {
            Some(bytes) => output.extend(bytes),
            None => break,
        }
    }
    (state, output)
}

fn cell(state: &ProgramState, x: isize, y: isize) -> u8 {
    state.grid.get(&Position::new(x, y))
}

fn top_value(state: &ProgramState) -> u8 {
    state.pointers.last().unwrap().value
}

fn top_position(state: &ProgramState) -> Position {
    state.pointers.last().unwrap().position
}

#[test]
fn hello_world_string_literal() {
    let (state, output) = run("(\"Hello world 12345\")s", &[]);
    assert_eq!(output, b"Hello world 12345".to_vec());
    for (i, b) in b"Hello world 12345".iter().enumerate() {
        assert_eq!(cell(&state, i as isize, 0), *b);
    }
    assert_eq!(cell(&state, 17, 0), 0);
    assert_eq!(cell(&state, 18, 0), 0);
}

#[test]
fn counted_loop() {
    let (state, _) = run("3[;~1~-]", &[]);
    assert_eq!(top_value(&state), 0);
    assert_eq!(cell(&state, 0, 0), 3);
    assert_eq!(cell(&state, 1, 0), 2);
    assert_eq!(cell(&state, 2, 0), 1);
}

#[test]
fn numeric_read_then_write() {
    let (state, output) = run("(N)n", &["42\n"]);
    assert_eq!(output, b"42".to_vec());
    assert_eq!(cell(&state, 0, 0), 42);
}

#[test]
fn numeric_read_moves_past_the_cell() {
    let (state, output) = run("Nn", &["42\n"]);
    assert_eq!(cell(&state, 0, 0), 42);
    assert_eq!(top_position(&state), Position::new(1, 0));
    assert_eq!(output, b"0".to_vec());
}

#[test]
fn nested_evaluate() {
    let (state, _) = run("(\"+1,@\")e", &[]);
    assert_eq!(state.eval_tapes.len(), 1);
    assert_eq!(state.pointers.len(), 1);
    assert_eq!(cell(&state, 0, 0), 0xB1);
    assert_eq!(top_position(&state), Position::new(4, 0));
}

#[test]
fn kill_of_the_last_tape_ends_the_program() {
    let (state, _) = run("@.", &[]);
    assert_eq!(state.eval_tapes.len(), 0);
    assert_eq!(state.pointers.len(), 0);
}
