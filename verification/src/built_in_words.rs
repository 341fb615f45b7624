//! The built-in words of the engine, each with its exact effect on the
//! engine state. Every word is specified as a pure function from the state
//! before it to the state after it together with the error it may raise;
//! none of them moves the program counter, which the engine advances itself.

use crate::errors::{EmptyStackError, RunErrV, RuntimeError};
use crate::float::{cmp_bits, float_add, float_div, float_from_text, float_mul, float_of_text,
    float_sub, FloatOrder};
use crate::interpreter::{advance, as_float_spec, truthy_spec, value_text, Interpreter, StackValue,
    StepRes, ValueV, VmState};
use crate::lexer::TokenV;
use crate::text::{chars_to_string, parse_i64_chars, parse_u64_chars, spec_parse_i64,
    spec_parse_u64, str_to_chars, trim_chars, trim_of};
use vstd::prelude::*;

verus! {

/// A binary word over two numbers: one of the four arithmetic operators or
/// one of the six comparisons.
pub ghost enum BinOp {
    Add,
    Sub,
    Mul,
    Div,
    Less,
    Greater,
    LessEq,
    GreaterEq,
    Eq,
    NotEq,
}

/// What a binary word pushes, from the floating-point readings of its
/// operands: `fa` read from the value popped first (the top), `fb` from the
/// value popped second. Addition computes `a + b`; every other operator and
/// comparison computes `b OP a`.
pub open spec fn binop_result(op: BinOp, fb: u64, fa: u64) -> ValueV {
    match op {
        BinOp::Add => ValueV::Float(crate::float::add_bits(fa, fb)),
        BinOp::Sub => ValueV::Float(crate::float::sub_bits(fb, fa)),
        BinOp::Mul => ValueV::Float(crate::float::mul_bits(fb, fa)),
        BinOp::Div => ValueV::Float(crate::float::div_bits(fb, fa)),
        BinOp::Less => ValueV::Bool(cmp_bits(fb, fa) == FloatOrder::Less),
        BinOp::Greater => ValueV::Bool(cmp_bits(fb, fa) == FloatOrder::Greater),
        BinOp::LessEq => ValueV::Bool(cmp_bits(fb, fa) == FloatOrder::Less || cmp_bits(fb, fa)
            == FloatOrder::Equal),
        BinOp::GreaterEq => ValueV::Bool(cmp_bits(fb, fa) == FloatOrder::Greater || cmp_bits(
            fb,
            fa,
        ) == FloatOrder::Equal),
        BinOp::Eq => ValueV::Bool(cmp_bits(fb, fa) == FloatOrder::Equal),
        BinOp::NotEq => ValueV::Bool(cmp_bits(fb, fa) != FloatOrder::Equal),
    }
}

/// The effect of a binary word: pop the top value and read it as a number,
/// pop the next value and read it as a number, push the result. Popping an
/// empty stack and an operand that is not a number are fatal, each at the
/// instant it is met.
pub open spec fn eff_binop(st: VmState, op: BinOp) -> (VmState, Option<RunErrV>) {
    if st.stack.len() == 0 {
        (st, Some(RunErrV::EmptyStack))
    } else {
        let a = st.stack.last();
        let st1 = VmState { stack: st.stack.drop_last(), ..st };
        match as_float_spec(a) {
            None => (st1, Some(RunErrV::NonNumericOperand)),
            Some(fa) => {
                if st1.stack.len() == 0 {
                    (st1, Some(RunErrV::EmptyStack))
                } else {
                    let b = st1.stack.last();
                    let st2 = VmState { stack: st1.stack.drop_last(), ..st1 };
                    match as_float_spec(b) {
                        None => (st2, Some(RunErrV::NonNumericOperand)),
                        Some(fb) => (
                            VmState { stack: st2.stack.push(binop_result(op, fb, fa)), ..st2 },
                            None,
                        ),
                    }
                }
            },
        }
    }
}

/// The effect of `drop`: pop and discard the top value.
pub open spec fn eff_drop(st: VmState) -> (VmState, Option<RunErrV>) {
    if st.stack.len() == 0 {
        (st, Some(RunErrV::EmptyStack))
    } else {
        (VmState { stack: st.stack.drop_last(), ..st }, None)
    }
}

/// The effect of `dup`: pop the top value and push two copies of it.
pub open spec fn eff_dup(st: VmState) -> (VmState, Option<RunErrV>) {
    if st.stack.len() == 0 {
        (st, Some(RunErrV::EmptyStack))
    } else {
        (VmState { stack: st.stack.push(st.stack.last()), ..st }, None)
    }
}

/// The effect of `print`: pop the top value and write its text form as one
/// output line.
pub open spec fn eff_print(st: VmState) -> (VmState, Option<RunErrV>) {
    if st.stack.len() == 0 {
        (st, Some(RunErrV::EmptyStack))
    } else {
        (
            VmState {
                stack: st.stack.drop_last(),
                output: st.output.push(value_text(st.stack.last())),
                ..st
            },
            None,
        )
    }
}

/// Reading one line from the input: the next unread line, or an empty line
/// once the input has ended.
pub open spec fn read_eff(st: VmState) -> (Seq<char>, VmState) {
    if st.inpos < st.input.len() {
        (st.input[st.inpos], VmState { inpos: st.inpos + 1, ..st })
    } else {
        (Seq::empty(), st)
    }
}

/// The effect of `get_line`: read one line and push it as a string,
/// exactly as it was given; the injected lines carry no terminator, and
/// nothing else is stripped.
pub open spec fn eff_get_line(st: VmState) -> (VmState, Option<RunErrV>) {
    let (line, st1) = read_eff(st);
    (VmState { stack: st1.stack.push(ValueV::String(line)), ..st1 }, None)
}

/// The effect of `get_int`: read one line, trim it, parse it as a signed
/// integer and push it; text that does not parse is fatal.
pub open spec fn eff_get_int(st: VmState) -> (VmState, Option<RunErrV>) {
    let (line, st1) = read_eff(st);
    match spec_parse_i64(trim_of(line)) {
        Some(v) => (VmState { stack: st1.stack.push(ValueV::SignedInt(v)), ..st1 }, None),
        None => (st1, Some(RunErrV::InvalidNumberInput(trim_of(line)))),
    }
}

/// The effect of `get_uint`: as `get_int`, for an unsigned integer.
pub open spec fn eff_get_uint(st: VmState) -> (VmState, Option<RunErrV>) {
    let (line, st1) = read_eff(st);
    match spec_parse_u64(trim_of(line)) {
        Some(v) => (VmState { stack: st1.stack.push(ValueV::UnsignedInt(v)), ..st1 }, None),
        None => (st1, Some(RunErrV::InvalidNumberInput(trim_of(line)))),
    }
}

/// The effect of `get_float`: as `get_int`, for a floating-point number.
pub open spec fn eff_get_float(st: VmState) -> (VmState, Option<RunErrV>) {
    let (line, st1) = read_eff(st);
    match float_of_text(trim_of(line)) {
        Some(b) => (VmState { stack: st1.stack.push(ValueV::Float(b)), ..st1 }, None),
        None => (st1, Some(RunErrV::InvalidNumberInput(trim_of(line)))),
    }
}

/// The effect of `if`: pop the top value and take its truth; when false,
/// jump the counter to the baked target, where the engine's own advance then
/// lands just past the matching `end`. A target outside the program ends it.
pub open spec fn eff_if(st: VmState) -> (VmState, Option<RunErrV>) {
    if st.stack.len() == 0 {
        (st, Some(RunErrV::EmptyStack))
    } else {
        let c = truthy_spec(st.stack.last());
        let st1 = VmState { stack: st.stack.drop_last(), ..st };
        if c {
            (st1, None)
        } else {
            if 0 <= st.pos < st.tokens.len() && st.tokens[st.pos] matches TokenV::If(t) {
                let t = st.tokens[st.pos]->If_0 as int;
                (
                    VmState {
                        pos: if t < st.tokens.len() {
                            t
                        } else {
                            st.tokens.len() as int
                        },
                        ..st1
                    },
                    None,
                )
            } else {
                (st1, None)
            }
        }
    }
}

/// Pops the top value and reads it as a number, with the word's two fatal
/// conditions.
fn pop_float(interpreter: &mut Interpreter) -> (r: Result<u64, RuntimeError>)
    ensures
        ({
            let st = old(interpreter)@;
            if st.stack.len() == 0 {
                r matches Err(e) && e@ == RunErrV::EmptyStack && final(interpreter)@ == st
            } else {
                final(interpreter)@ == (VmState { stack: st.stack.drop_last(), ..st })
                    && match as_float_spec(st.stack.last()) {
                    Some(f) => r matches Ok(b) && b == f,
                    None => r matches Err(e) && e@ == RunErrV::NonNumericOperand,
                }
            }
        }),
{
    let v: StackValue = match interpreter.pop_value() {
        Some(v) => v,
        None => {
            return Err(RuntimeError::EmptyStack(EmptyStackError));
        },
    };
    match v.as_float_bits() {
        Some(f) => Ok(f),
        None => Err(RuntimeError::NonNumericOperand),
    }
}

/// The outcome a binary word owes: the new state and error of its effect.
pub open spec fn binop_post(
    interpreter_old: VmState,
    interpreter_new: VmState,
    r: Result<(), RuntimeError>,
    op: BinOp,
) -> bool {
    let (st2, oe) = eff_binop(interpreter_old, op);
    interpreter_new == st2 && match oe {
        None => r is Ok,
        Some(ev) => r matches Err(e) && e@ == ev,
    }
}

/// `+`: pop `a`, pop `b`, push the float `a + b`.
pub fn word_add(interpreter: &mut Interpreter) -> (r: Result<(), RuntimeError>)
    ensures
        binop_post(old(interpreter)@, final(interpreter)@, r, BinOp::Add),
{
    let a: u64 = match pop_float(interpreter) {
        Ok(f) => f,
        Err(e) => {
            return Err(e);
        },
    };
    let b: u64 = match pop_float(interpreter) {
        Ok(f) => f,
        Err(e) => {
            return Err(e);
        },
    };
    let result: u64 = float_add(a, b);
    interpreter.push_value(StackValue::Float(result));
    Ok(())
}

/// `-`: pop `a`, pop `b`, push the float `b - a`.
pub fn word_subtract(interpreter: &mut Interpreter) -> (r: Result<(), RuntimeError>)
    ensures
        binop_post(old(interpreter)@, final(interpreter)@, r, BinOp::Sub),
{
    let a: u64 = match pop_float(interpreter) {
        Ok(f) => f,
        Err(e) => {
            return Err(e);
        },
    };
    let b: u64 = match pop_float(interpreter) {
        Ok(f) => f,
        Err(e) => {
            return Err(e);
        },
    };
    let result: u64 = float_sub(b, a);
    interpreter.push_value(StackValue::Float(result));
    Ok(())
}

/// `*`: pop `a`, pop `b`, push the float `b * a`.
pub fn word_multiply(interpreter: &mut Interpreter) -> (r: Result<(), RuntimeError>)
    ensures
        binop_post(old(interpreter)@, final(interpreter)@, r, BinOp::Mul),
{
    let a: u64 = match pop_float(interpreter) {
        Ok(f) => f,
        Err(e) => {
            return Err(e);
        },
    };
    let b: u64 = match pop_float(interpreter) {
        Ok(f) => f,
        Err(e) => {
            return Err(e);
        },
    };
    let result: u64 = float_mul(b, a);
    interpreter.push_value(StackValue::Float(result));
    Ok(())
}

/// `/`: pop `a`, pop `b`, push the float `b / a`.
pub fn word_divide(interpreter: &mut Interpreter) -> (r: Result<(), RuntimeError>)
    ensures
        binop_post(old(interpreter)@, final(interpreter)@, r, BinOp::Div),
{
    let a: u64 = match pop_float(interpreter) {
        Ok(f) => f,
        Err(e) => {
            return Err(e);
        },
    };
    let b: u64 = match pop_float(interpreter) {
        Ok(f) => f,
        Err(e) => {
            return Err(e);
        },
    };
    let result: u64 = float_div(b, a);
    interpreter.push_value(StackValue::Float(result));
    Ok(())
}

/// `<`: pop `a`, pop `b`, push the boolean `b < a`.
pub fn word_less(interpreter: &mut Interpreter) -> (r: Result<(), RuntimeError>)
    ensures
        binop_post(old(interpreter)@, final(interpreter)@, r, BinOp::Less),
{
    let a: u64 = match pop_float(interpreter) {
        Ok(f) => f,
        Err(e) => {
            return Err(e);
        },
    };
    let b: u64 = match pop_float(interpreter) {
        Ok(f) => f,
        Err(e) => {
            return Err(e);
        },
    };
    let c: bool = match crate::float::float_cmp(b, a) {
        FloatOrder::Less => true,
        _ => false,
    };
    interpreter.push_value(StackValue::Bool(c));
    Ok(())
}

/// `>`: pop `a`, pop `b`, push the boolean `b > a`.
pub fn word_more(interpreter: &mut Interpreter) -> (r: Result<(), RuntimeError>)
    ensures
        binop_post(old(interpreter)@, final(interpreter)@, r, BinOp::Greater),
{
    let a: u64 = match pop_float(interpreter) {
        Ok(f) => f,
        Err(e) => {
            return Err(e);
        },
    };
    let b: u64 = match pop_float(interpreter) {
        Ok(f) => f,
        Err(e) => {
            return Err(e);
        },
    };
    let c: bool = match crate::float::float_cmp(b, a) {
        FloatOrder::Greater => true,
        _ => false,
    };
    interpreter.push_value(StackValue::Bool(c));
    Ok(())
}

/// `==`: pop `a`, pop `b`, push the boolean `b == a`.
pub fn word_equal(interpreter: &mut Interpreter) -> (r: Result<(), RuntimeError>)
    ensures
        binop_post(old(interpreter)@, final(interpreter)@, r, BinOp::Eq),
{
    let a: u64 = match pop_float(interpreter) {
        Ok(f) => f,
        Err(e) => {
            return Err(e);
        },
    };
    let b: u64 = match pop_float(interpreter) {
        Ok(f) => f,
        Err(e) => {
            return Err(e);
        },
    };
    let c: bool = match crate::float::float_cmp(b, a) {
        FloatOrder::Equal => true,
        _ => false,
    };
    interpreter.push_value(StackValue::Bool(c));
    Ok(())
}

/// `<=`: pop `a`, pop `b`, push the boolean `b <= a`.
pub fn word_less_or_equal(interpreter: &mut Interpreter) -> (r: Result<(), RuntimeError>)
    ensures
        binop_post(old(interpreter)@, final(interpreter)@, r, BinOp::LessEq),
{
    let a: u64 = match pop_float(interpreter) {
        Ok(f) => f,
        Err(e) => {
            return Err(e);
        },
    };
    let b: u64 = match pop_float(interpreter) {
        Ok(f) => f,
        Err(e) => {
            return Err(e);
        },
    };
    let c: bool = match crate::float::float_cmp(b, a) {
        FloatOrder::Less => true,
        FloatOrder::Equal => true,
        _ => false,
    };
    interpreter.push_value(StackValue::Bool(c));
    Ok(())
}

/// `>=`: pop `a`, pop `b`, push the boolean `b >= a`.
pub fn word_more_or_equal(interpreter: &mut Interpreter) -> (r: Result<(), RuntimeError>)
    ensures
        binop_post(old(interpreter)@, final(interpreter)@, r, BinOp::GreaterEq),
{
    let a: u64 = match pop_float(interpreter) {
        Ok(f) => f,
        Err(e) => {
            return Err(e);
        },
    };
    let b: u64 = match pop_float(interpreter) {
        Ok(f) => f,
        Err(e) => {
            return Err(e);
        },
    };
    let c: bool = match crate::float::float_cmp(b, a) {
        FloatOrder::Greater => true,
        FloatOrder::Equal => true,
        _ => false,
    };
    interpreter.push_value(StackValue::Bool(c));
    Ok(())
}

/// `!=`: pop `a`, pop `b`, push the boolean `b != a`.
pub fn word_not_equal(interpreter: &mut Interpreter) -> (r: Result<(), RuntimeError>)
    ensures
        binop_post(old(interpreter)@, final(interpreter)@, r, BinOp::NotEq),
{
    let a: u64 = match pop_float(interpreter) {
        Ok(f) => f,
        Err(e) => {
            return Err(e);
        },
    };
    let b: u64 = match pop_float(interpreter) {
        Ok(f) => f,
        Err(e) => {
            return Err(e);
        },
    };
    let c: bool = match crate::float::float_cmp(b, a) {
        FloatOrder::Equal => false,
        _ => true,
    };
    interpreter.push_value(StackValue::Bool(c));
    Ok(())
}

/// `drop`: pop and discard the top value.
pub fn word_drop(interpreter: &mut Interpreter) -> (r: Result<(), RuntimeError>)
    ensures
        ({
            let (st2, oe) = eff_drop(old(interpreter)@);
            final(interpreter)@ == st2 && match oe {
                None => r is Ok,
                Some(ev) => r matches Err(e) && e@ == ev,
            }
        }),
{
    match interpreter.pop_value() {
        Some(_) => Ok(()),
        None => Err(RuntimeError::EmptyStack(EmptyStackError)),
    }
}

/// `dup`: pop the top value and push two copies of it; a string's contents
/// are copied, not shared.
pub fn word_dup(interpreter: &mut Interpreter) -> (r: Result<(), RuntimeError>)
    ensures
        ({
            let (st2, oe) = eff_dup(old(interpreter)@);
            final(interpreter)@ == st2 && match oe {
                None => r is Ok,
                Some(ev) => r matches Err(e) && e@ == ev,
            }
        }),
{
    let t: StackValue = match interpreter.pop_value() {
        Some(v) => v,
        None => {
            return Err(RuntimeError::EmptyStack(EmptyStackError));
        },
    };
    interpreter.push_value(t.clone_value());
    interpreter.push_value(t);
    proof {
        assert(final(interpreter)@.stack =~= old(interpreter)@.stack.push(
            old(interpreter)@.stack.last(),
        ));
        assert(final(interpreter)@ =~= eff_dup(old(interpreter)@).0);
    }
    Ok(())
}

/// `print`: pop the top value and write its text form as one output line.
pub fn word_print(interpreter: &mut Interpreter) -> (r: Result<(), RuntimeError>)
    ensures
        ({
            let (st2, oe) = eff_print(old(interpreter)@);
            final(interpreter)@ == st2 && match oe {
                None => r is Ok,
                Some(ev) => r matches Err(e) && e@ == ev,
            }
        }),
{
    let t: StackValue = match interpreter.pop_value() {
        Some(v) => v,
        None => {
            return Err(RuntimeError::EmptyStack(EmptyStackError));
        },
    };
    let line: String = t.to_text();
    interpreter.write_line(line);
    Ok(())
}

/// `get_line`: read one line and push it as a string, exactly as it stands.
pub fn word_get_line(interpreter: &mut Interpreter) -> (r: Result<(), RuntimeError>)
    ensures
        ({
            let (st2, oe) = eff_get_line(old(interpreter)@);
            final(interpreter)@ == st2 && match oe {
                None => r is Ok,
                Some(ev) => r matches Err(e) && e@ == ev,
            }
        }),
{
    let line: String = interpreter.read_line();
    interpreter.push_value(StackValue::String(line));
    Ok(())
}

/// `get_int`: read one line, trim it, parse it as a signed integer, push
/// it; text that does not parse is fatal.
pub fn word_get_int(interpreter: &mut Interpreter) -> (r: Result<(), RuntimeError>)
    ensures
        ({
            let (st2, oe) = eff_get_int(old(interpreter)@);
            final(interpreter)@ == st2 && match oe {
                None => r is Ok,
                Some(ev) => r matches Err(e) && e@ == ev,
            }
        }),
{
    let line: String = interpreter.read_line();
    let trimmed: Vec<char> = trim_chars(&str_to_chars(line.as_str()));
    match parse_i64_chars(&trimmed) {
        Some(v) => {
            interpreter.push_value(StackValue::SignedInt(v));
            Ok(())
        },
        None => Err(RuntimeError::InvalidNumberInput(chars_to_string(&trimmed))),
    }
}

/// `get_uint`: as `get_int`, for an unsigned integer.
pub fn word_get_uint(interpreter: &mut Interpreter) -> (r: Result<(), RuntimeError>)
    ensures
        ({
            let (st2, oe) = eff_get_uint(old(interpreter)@);
            final(interpreter)@ == st2 && match oe {
                None => r is Ok,
                Some(ev) => r matches Err(e) && e@ == ev,
            }
        }),
{
    let line: String = interpreter.read_line();
    let trimmed: Vec<char> = trim_chars(&str_to_chars(line.as_str()));
    match parse_u64_chars(&trimmed) {
        Some(v) => {
            interpreter.push_value(StackValue::UnsignedInt(v));
            Ok(())
        },
        None => Err(RuntimeError::InvalidNumberInput(chars_to_string(&trimmed))),
    }
}

/// `get_float`: as `get_int`, for a floating-point number.
pub fn word_get_float(interpreter: &mut Interpreter) -> (r: Result<(), RuntimeError>)
    ensures
        ({
            let (st2, oe) = eff_get_float(old(interpreter)@);
            final(interpreter)@ == st2 && match oe {
                None => r is Ok,
                Some(ev) => r matches Err(e) && e@ == ev,
            }
        }),
{
    let line: String = interpreter.read_line();
    let trimmed: Vec<char> = trim_chars(&str_to_chars(line.as_str()));
    match float_from_text(chars_to_string(&trimmed).as_str()) {
        Some(b) => {
            interpreter.push_value(StackValue::Float(b));
            Ok(())
        },
        None => Err(RuntimeError::InvalidNumberInput(chars_to_string(&trimmed))),
    }
}

/// `if`: pop the top value and take its truth; when false, jump to the
/// baked target so that the engine's advance lands just past the matching
/// `end`.
pub fn word_if(interpreter: &mut Interpreter) -> (r: Result<(), RuntimeError>)
    ensures
        ({
            let (st2, oe) = eff_if(old(interpreter)@);
            final(interpreter)@ == st2 && match oe {
                None => r is Ok,
                Some(ev) => r matches Err(e) && e@ == ev,
            }
        }),
{
    let condition: StackValue = match interpreter.pop_value() {
        Some(v) => v,
        None => {
            return Err(RuntimeError::EmptyStack(EmptyStackError));
        },
    };
    if !condition.truthy() {
        interpreter.jump_to_if_target();
    }
    Ok(())
}

/// Whether a symbol names a built-in word.
pub open spec fn is_builtin(name: Seq<char>) -> bool {
    ||| name == "drop"@
    ||| name == "dup"@
    ||| name == "print"@
    ||| name == "get_line"@
    ||| name == "+"@
    ||| name == "-"@
    ||| name == "/"@
    ||| name == "*"@
    ||| name == "<"@
    ||| name == ">"@
    ||| name == "<="@
    ||| name == ">="@
    ||| name == "=="@
    ||| name == "!="@
    ||| name == "get_int"@
    ||| name == "get_uint"@
    ||| name == "get_float"@
}

/// The effect of the built-in word a symbol names.
pub open spec fn builtin_eff(name: Seq<char>, st: VmState) -> (VmState, Option<RunErrV>) {
    if name == "drop"@ {
        eff_drop(st)
    } else if name == "dup"@ {
        eff_dup(st)
    } else if name == "print"@ {
        eff_print(st)
    } else if name == "get_line"@ {
        eff_get_line(st)
    } else if name == "+"@ {
        eff_binop(st, BinOp::Add)
    } else if name == "-"@ {
        eff_binop(st, BinOp::Sub)
    } else if name == "/"@ {
        eff_binop(st, BinOp::Div)
    } else if name == "*"@ {
        eff_binop(st, BinOp::Mul)
    } else if name == "<"@ {
        eff_binop(st, BinOp::Less)
    } else if name == ">"@ {
        eff_binop(st, BinOp::Greater)
    } else if name == "<="@ {
        eff_binop(st, BinOp::LessEq)
    } else if name == ">="@ {
        eff_binop(st, BinOp::GreaterEq)
    } else if name == "=="@ {
        eff_binop(st, BinOp::Eq)
    } else if name == "!="@ {
        eff_binop(st, BinOp::NotEq)
    } else if name == "get_int"@ {
        eff_get_int(st)
    } else if name == "get_uint"@ {
        eff_get_uint(st)
    } else {
        eff_get_float(st)
    }
}

/// An effect folded into a step: its error is fatal with the state at that
/// instant; otherwise the engine advances past the token it executed.
pub open spec fn wrap_eff(eff: (VmState, Option<RunErrV>)) -> StepRes {
    match eff.1 {
        Some(e) => StepRes::Fail(eff.0, e),
        None => StepRes::Next(advance(eff.0)),
    }
}

} // verus!
