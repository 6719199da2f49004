use simple_bf::BrainfuckMachine;
use simple_bf::BrainfuckToken;

#[test]
fn tokenise_maps_each_instruction_character() {
    assert_eq!(
        BrainfuckMachine::tokenise('<'),
        Some(BrainfuckToken::DecMemoryPointer)
    );
    assert_eq!(
        BrainfuckMachine::tokenise('>'),
        Some(BrainfuckToken::IncMemoryPointer)
    );
    assert_eq!(BrainfuckMachine::tokenise('+'), Some(BrainfuckToken::IncMemory));
    assert_eq!(BrainfuckMachine::tokenise('-'), Some(BrainfuckToken::DecMemory));
    assert_eq!(BrainfuckMachine::tokenise('.'), Some(BrainfuckToken::Output));
    assert_eq!(BrainfuckMachine::tokenise(','), Some(BrainfuckToken::Input));
    assert_eq!(BrainfuckMachine::tokenise('['), Some(BrainfuckToken::LoopStart));
    assert_eq!(BrainfuckMachine::tokenise(']'), Some(BrainfuckToken::LoopEnd));
}

#[test]
fn tokenise_drops_other_characters() {
    assert_eq!(BrainfuckMachine::tokenise('a'), None);
    assert_eq!(BrainfuckMachine::tokenise(' '), None);
    assert_eq!(BrainfuckMachine::tokenise('\n'), None);
    assert_eq!(BrainfuckMachine::tokenise('0'), None);
    assert_eq!(BrainfuckMachine::tokenise(';'), None);
}

#[test]
fn token_count_counts_only_instruction_characters() {
    let mut machine = BrainfuckMachine::new();
    machine.load_program("a + b - c . # comment [x] ,\n><");
    assert_eq!(machine.token_count(), 8);
}

#[test]
fn token_count_of_empty_source_is_zero() {
    let mut machine = BrainfuckMachine::new();
    machine.load_program("");
    assert_eq!(machine.token_count(), 0);
    machine.load_program("no instructions here at all");
    assert_eq!(machine.token_count(), 0);
}

#[test]
fn load_program_replaces_prior_program() {
    let mut machine = BrainfuckMachine::new();
    machine.load_program("+++");
    assert_eq!(machine.token_count(), 3);
    machine.load_program("-");
    assert_eq!(machine.token_count(), 1);
}

#[test]
fn empty_program_halts_immediately() {
    let mut machine = BrainfuckMachine::new();
    machine.load_program("");
    let result = machine.run(&Vec::new());
    assert_eq!(result.fault, None);
    assert_eq!(result.output, Vec::<u8>::new());
}
