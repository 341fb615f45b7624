use lotus::interpreter::{Interpreter, RunOutcome, StackValue};
use lotus::lexer::Lexer;
use lotus::stack::Stack;

const FUEL: u64 = 100_000;

fn run_program(src: &str, input: Vec<String>) -> Interpreter {
    let tokens = Lexer::new(src).parse().unwrap();
    let mut interpreter = Interpreter::new(tokens, input);
    assert_eq!(interpreter.run(FUEL).unwrap(), RunOutcome::Halted);
    interpreter
}

#[test]
fn interpreter_empty_program() {
    let interpreter = run_program("", vec![]);

    let expected_stack: Stack<StackValue> = Stack::new();
    let stack = interpreter.get_stack();
    assert_eq!(&expected_stack, stack);
}

#[test]
fn pushing_numbers() {
    let interpreter = run_program("0 1 2 3 4 5 6 7 8 9", vec![]);

    let mut expected_stack: Stack<StackValue> = Stack::new();
    for i in 0..=9 {
        expected_stack.push(StackValue::UnsignedInt(i));
    }

    assert_eq!(&expected_stack, interpreter.get_stack());
}

#[test]
fn pushing_strings() {
    let interpreter = run_program("\"Hello :D\"", vec![]);

    let mut expected_stack: Stack<StackValue> = Stack::new();
    expected_stack.push(StackValue::String(String::from("Hello :D")));

    assert_eq!(&expected_stack, interpreter.get_stack());
}

#[test]
fn mathematics() {
    let interpreter = run_program("1 1 + 3 1 - 1 2 * 8 4 /", vec![]);

    let mut expected_stack: Stack<StackValue> = Stack::new();
    for _ in 0..4 {
        expected_stack.push(StackValue::Float(2.0f64.to_bits()));
    }

    assert_eq!(&expected_stack, interpreter.get_stack());
}

#[test]
fn drop() {
    let interpreter = run_program("6 9 9 drop", vec![]);

    let mut expected_stack: Stack<StackValue> = Stack::new();
    expected_stack.push(StackValue::UnsignedInt(6));
    expected_stack.push(StackValue::UnsignedInt(9));

    assert_eq!(&expected_stack, interpreter.get_stack());
}

#[test]
fn dup() {
    let interpreter = run_program("6 9 9 dup", vec![]);

    let mut expected_stack: Stack<StackValue> = Stack::new();
    expected_stack.push(StackValue::UnsignedInt(6));
    expected_stack.push(StackValue::UnsignedInt(9));
    expected_stack.push(StackValue::UnsignedInt(9));
    expected_stack.push(StackValue::UnsignedInt(9));

    assert_eq!(&expected_stack, interpreter.get_stack());
}

#[test]
fn input() {
    let lines = vec![
        "Hello".to_string(),
        " -123".to_string(),
        " 246".to_string(),
        " 2.0".to_string(),
    ];
    let interpreter = run_program("get_line get_int get_uint get_float", lines);

    let mut expected_stack: Stack<StackValue> = Stack::new();
    expected_stack.push(StackValue::String("Hello".to_owned()));
    expected_stack.push(StackValue::SignedInt(-123));
    expected_stack.push(StackValue::UnsignedInt(246));
    expected_stack.push(StackValue::Float(2.0f64.to_bits()));

    assert_eq!(&expected_stack, interpreter.get_stack());
}

#[test]
fn if_statement() {
    let interpreter = run_program("18 15 > if \"You are underage\" end", vec![]);

    let mut expected_stack: Stack<StackValue> = Stack::new();
    expected_stack.push(StackValue::String("You are underage".to_owned()));

    assert_eq!(&expected_stack, interpreter.get_stack());
}

#[test]
fn function() {
    let interpreter = run_program("fdef square dup * fend 2 square", vec![]);

    let mut expected_stack: Stack<StackValue> = Stack::new();
    expected_stack.push(StackValue::Float(4.0f64.to_bits()));

    assert_eq!(&expected_stack, interpreter.get_stack());
}

#[test]
fn comments() {
    let interpreter = run_program("# Multiply # fdef mul * fend 4 2 mul # Output: 8 #", vec![]);

    let mut expected_stack: Stack<StackValue> = Stack::new();
    expected_stack.push(StackValue::Float(8.0f64.to_bits()));

    assert_eq!(&expected_stack, interpreter.get_stack());
}

#[test]
fn dup_duplicates_a_string() {
    let interpreter = run_program("\"X\" dup", vec![]);

    let mut expected_stack: Stack<StackValue> = Stack::new();
    expected_stack.push(StackValue::String("X".to_string()));
    expected_stack.push(StackValue::String("X".to_string()));

    assert_eq!(&expected_stack, interpreter.get_stack());
}

#[test]
fn arithmetic_operand_order() {
    // Subtraction computes the second value minus the top value.
    let interpreter = run_program("3 1 -", vec![]);

    let mut expected_stack: Stack<StackValue> = Stack::new();
    expected_stack.push(StackValue::Float(2.0f64.to_bits()));

    assert_eq!(&expected_stack, interpreter.get_stack());
}

#[test]
fn conditional_skip() {
    let skipped = run_program("0 if \"X\" end", vec![]);
    let expected_empty: Stack<StackValue> = Stack::new();
    assert_eq!(&expected_empty, skipped.get_stack());

    let taken = run_program("1 if \"X\" end", vec![]);
    let mut expected_taken: Stack<StackValue> = Stack::new();
    expected_taken.push(StackValue::String("X".to_string()));
    assert_eq!(&expected_taken, taken.get_stack());
}

#[test]
fn signed_conversion_in_arithmetic() {
    let interpreter = run_program("-1 1 +", vec![]);

    let mut expected_stack: Stack<StackValue> = Stack::new();
    expected_stack.push(StackValue::Float(0.0f64.to_bits()));

    assert_eq!(&expected_stack, interpreter.get_stack());
}

#[test]
fn comparisons() {
    let interpreter = run_program("1 2 < 1 2 > 2 2 <= 2 3 >= 2 2 == 2 2 !=", vec![]);

    let mut expected_stack: Stack<StackValue> = Stack::new();
    expected_stack.push(StackValue::Bool(true)); // 1 < 2
    expected_stack.push(StackValue::Bool(false)); // 1 > 2
    expected_stack.push(StackValue::Bool(true)); // 2 <= 2
    expected_stack.push(StackValue::Bool(false)); // 2 >= 3
    expected_stack.push(StackValue::Bool(true)); // 2 == 2
    expected_stack.push(StackValue::Bool(false)); // 2 != 2

    assert_eq!(&expected_stack, interpreter.get_stack());
}

#[test]
fn boolean_literals_and_truth() {
    let interpreter = run_program("true if \"yes\" end false if \"no\" end", vec![]);

    let mut expected_stack: Stack<StackValue> = Stack::new();
    expected_stack.push(StackValue::String("yes".to_string()));

    assert_eq!(&expected_stack, interpreter.get_stack());
}

#[test]
fn float_zero_is_falsy() {
    let positive_zero = run_program("0.0 if \"X\" end", vec![]);
    let expected_empty: Stack<StackValue> = Stack::new();
    assert_eq!(&expected_empty, positive_zero.get_stack());

    let negative_zero = run_program("-0.0 if \"X\" end", vec![]);
    assert_eq!(&expected_empty, negative_zero.get_stack());
}

#[test]
fn print_writes_lines() {
    let interpreter = run_program("5 print \"hi\" print true print -3 print", vec![]);

    let expected: Vec<String> = vec![
        "5".to_string(),
        "hi".to_string(),
        "true".to_string(),
        "-3".to_string(),
    ];
    assert_eq!(expected, interpreter.output);

    let expected_stack: Stack<StackValue> = Stack::new();
    assert_eq!(&expected_stack, interpreter.get_stack());
}

#[test]
fn printing_extreme_integers() {
    let interpreter = run_program(
        "18446744073709551615 print -9223372036854775808 print 0 print",
        vec![],
    );

    let expected: Vec<String> = vec![
        "18446744073709551615".to_string(),
        "-9223372036854775808".to_string(),
        "0".to_string(),
    ];
    assert_eq!(expected, interpreter.output);
}
