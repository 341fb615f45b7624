use lotus::errors::RuntimeError;
use lotus::interpreter::{Interpreter, RunOutcome, StackValue};
use lotus::lexer::{ILToken, Lexer};
use lotus::stack::Stack;

const FUEL: u64 = 100_000;

fn run_to_error(src: &str, input: Vec<String>) -> (Interpreter, RuntimeError) {
    let tokens = Lexer::new(src).parse().unwrap();
    let mut interpreter = Interpreter::new(tokens, input);
    let err = interpreter.run(FUEL).unwrap_err();
    (interpreter, err)
}

#[test]
fn empty_stack_halts_the_run() {
    // A bare `drop` fails before any further token executes.
    let (interpreter, err) = run_to_error("drop 5", vec![]);
    assert!(matches!(err, RuntimeError::EmptyStack(_)));

    let expected_stack: Stack<StackValue> = Stack::new();
    assert_eq!(&expected_stack, interpreter.get_stack());
}

#[test]
fn unknown_word() {
    let (_, err) = run_to_error("abracadabra", vec![]);
    match err {
        RuntimeError::UnknownWord(w) => assert_eq!(w, "abracadabra".to_string()),
        other => panic!("expected an unknown-word error, got {:?}", other),
    }
}

#[test]
fn return_without_call() {
    let (_, err) = run_to_error("fend", vec![]);
    assert!(matches!(err, RuntimeError::ReturnWithoutCall));
}

#[test]
fn unterminated_call() {
    // The second call of `f` takes the true branch, whose early `fend`
    // returns only one of the two waiting calls before the program ends.
    let (_, err) = run_to_error("1 0 fdef f if fend end f", vec![]);
    assert!(matches!(err, RuntimeError::UnterminatedCall));
}

#[test]
fn malformed_input_line() {
    let (_, err) = run_to_error("get_int", vec!["abc".to_string()]);
    match err {
        RuntimeError::InvalidNumberInput(t) => assert_eq!(t, "abc".to_string()),
        other => panic!("expected an invalid-input error, got {:?}", other),
    }
}

#[test]
fn non_numeric_operand() {
    let (_, err) = run_to_error("\"a\" \"b\" +", vec![]);
    assert!(matches!(err, RuntimeError::NonNumericOperand));
}

#[test]
fn get_line_keeps_the_line_verbatim() {
    // Only the line terminator is stripped, and the lines carry none here:
    // surrounding spaces stay.
    let tokens = Lexer::new("get_line").parse().unwrap();
    let mut interpreter = Interpreter::new(tokens, vec!["  spaced out \t".to_string()]);
    assert_eq!(interpreter.run(FUEL).unwrap(), RunOutcome::Halted);

    let mut expected_stack: Stack<StackValue> = Stack::new();
    expected_stack.push(StackValue::String("  spaced out \t".to_string()));
    assert_eq!(&expected_stack, interpreter.get_stack());
}

#[test]
fn input_ends_with_empty_lines() {
    // Reading past the end of the input yields empty lines.
    let tokens = Lexer::new("get_line get_line").parse().unwrap();
    let mut interpreter = Interpreter::new(tokens, vec!["one".to_string()]);
    assert_eq!(interpreter.run(FUEL).unwrap(), RunOutcome::Halted);

    let mut expected_stack: Stack<StackValue> = Stack::new();
    expected_stack.push(StackValue::String("one".to_string()));
    expected_stack.push(StackValue::String(String::new()));
    assert_eq!(&expected_stack, interpreter.get_stack());
}

#[test]
fn out_of_fuel_resumes() {
    // A run cut short by its fuel goes on from where it stood.
    let tokens = Lexer::new("1 2 3").parse().unwrap();
    let mut interpreter = Interpreter::new(tokens, vec![]);
    assert_eq!(interpreter.run(2).unwrap(), RunOutcome::OutOfFuel);
    assert_eq!(interpreter.run(FUEL).unwrap(), RunOutcome::Halted);

    let mut expected_stack: Stack<StackValue> = Stack::new();
    expected_stack.push(StackValue::UnsignedInt(1));
    expected_stack.push(StackValue::UnsignedInt(2));
    expected_stack.push(StackValue::UnsignedInt(3));
    assert_eq!(&expected_stack, interpreter.get_stack());
}

#[test]
fn values_print_their_text_form() {
    assert_eq!(StackValue::UnsignedInt(42).to_text(), "42".to_string());
    assert_eq!(StackValue::SignedInt(-42).to_text(), "-42".to_string());
    assert_eq!(StackValue::Bool(false).to_text(), "false".to_string());
    assert_eq!(StackValue::String("x y".to_string()).to_text(), "x y".to_string());
    assert_eq!(StackValue::Float(1.5f64.to_bits()).to_text(), "1.5".to_string());
}

#[test]
fn engine_runs_handmade_tokens() {
    // The engine takes any resolved token sequence, not only parsed ones.
    let tokens = vec![
        ILToken::PushUnsignedInteger(7),
        ILToken::Symbol("dup".to_string()),
        ILToken::Symbol("*".to_string()),
    ];
    let mut interpreter = Interpreter::new(tokens, vec![]);
    assert_eq!(interpreter.run(FUEL).unwrap(), RunOutcome::Halted);

    let mut expected_stack: Stack<StackValue> = Stack::new();
    expected_stack.push(StackValue::Float(49.0f64.to_bits()));
    assert_eq!(&expected_stack, interpreter.get_stack());
}
