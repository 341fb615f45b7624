//! The execution engine: a program counter walked over a resolved token
//! sequence, a value stack, a call/return stack, a table of user-defined
//! functions, and line-based input and output carried as plain values. The
//! whole engine is specified by a small-step machine over `VmState`: `run`
//! ends exactly where some number of `vm_step` steps ends.

use crate::built_in_words::{builtin_eff, eff_if, is_builtin, word_add, word_divide, word_drop,
    word_dup, word_equal, word_get_float, word_get_int, word_get_line, word_get_uint, word_if,
    word_less, word_less_or_equal, word_more, word_more_or_equal, word_multiply, word_not_equal,
    word_print, word_subtract, wrap_eff};
use crate::errors::{RunErrV, RuntimeError};
use crate::text::chars_eq_str;
use crate::float::{is_zero_bits, text_of_float};
use crate::lexer::{toks_view, ILToken, TokenV};
use crate::stack::Stack;
use crate::text::{i64_text, u64_text};
use vstd::prelude::*;

verus! {

/// One cell of the value stack. A floating-point value is carried as the 64
/// bits of its IEEE 754 double encoding.
#[derive(Debug, PartialEq, Clone)]
pub enum StackValue {
    String(String),
    UnsignedInt(u64),
    SignedInt(i64),
    Float(u64),
    Bool(bool),
}

/// The mathematical content of a `StackValue`.
pub ghost enum ValueV {
    String(Seq<char>),
    UnsignedInt(u64),
    SignedInt(i64),
    Float(u64),
    Bool(bool),
}

impl View for StackValue {
    type V = ValueV;

    open spec fn view(&self) -> ValueV {
        match self {
            StackValue::String(s) => ValueV::String(s@),
            StackValue::UnsignedInt(n) => ValueV::UnsignedInt(*n),
            StackValue::SignedInt(n) => ValueV::SignedInt(*n),
            StackValue::Float(b) => ValueV::Float(*b),
            StackValue::Bool(b) => ValueV::Bool(*b),
        }
    }
}

impl Default for StackValue {
    /// The default value, a signed zero integer.
    fn default() -> (r: Self)
        ensures
            r@ == ValueV::SignedInt(0),
    {
        Self::SignedInt(0)
    }
}

/// The truth of a value: `false` exactly for a zero number, an empty string
/// and `false` itself.
pub open spec fn truthy_spec(v: ValueV) -> bool {
    match v {
        ValueV::Bool(b) => b,
        ValueV::UnsignedInt(n) => n != 0,
        ValueV::SignedInt(n) => n != 0,
        ValueV::Float(bits) => !is_zero_bits(bits),
        ValueV::String(s) => s.len() != 0,
    }
}

/// The floating-point reading of a value, for arithmetic and comparison:
/// numbers convert, strings and booleans do not.
pub open spec fn as_float_spec(v: ValueV) -> Option<u64> {
    match v {
        ValueV::Float(b) => Some(b),
        ValueV::UnsignedInt(n) => Some(crate::float::bits_of_u64(n)),
        ValueV::SignedInt(n) => Some(crate::float::bits_of_i64(n)),
        _ => None,
    }
}

/// The text form of a value, as `print` writes it.
pub open spec fn value_text(v: ValueV) -> Seq<char> {
    match v {
        ValueV::String(s) => s,
        ValueV::UnsignedInt(n) => u64_text(n as nat),
        ValueV::SignedInt(n) => i64_text(n as int),
        ValueV::Float(b) => text_of_float(b),
        ValueV::Bool(b) => if b {
            "true"@
        } else {
            "false"@
        },
    }
}

impl StackValue {
    /// The truth of this value.
    pub fn truthy(&self) -> (r: bool)
        ensures
            r == truthy_spec(self@),
    {
        match self {
            StackValue::Bool(b) => *b,
            StackValue::UnsignedInt(n) => *n != 0,
            StackValue::SignedInt(n) => *n != 0,
            StackValue::Float(bits) => !crate::float::float_is_zero(*bits),
            StackValue::String(s) => !s.as_str().is_empty(),
        }
    }

    /// The floating-point reading of this value, if it is a number.
    pub fn as_float_bits(&self) -> (r: Option<u64>)
        ensures
            r == as_float_spec(self@),
    {
        match self {
            StackValue::Float(b) => Some(*b),
            StackValue::UnsignedInt(n) => Some(crate::float::float_of_u64(*n)),
            StackValue::SignedInt(n) => Some(crate::float::float_of_i64(*n)),
            _ => None,
        }
    }

    /// A copy of this value; a string's contents are copied, not shared.
    pub fn clone_value(&self) -> (r: Self)
        ensures
            r@ == self@,
    {
        match self {
            StackValue::String(s) => StackValue::String(s.clone()),
            StackValue::UnsignedInt(n) => StackValue::UnsignedInt(*n),
            StackValue::SignedInt(n) => StackValue::SignedInt(*n),
            StackValue::Float(b) => StackValue::Float(*b),
            StackValue::Bool(b) => StackValue::Bool(*b),
        }
    }

    /// The text form of this value, as `print` writes it.
    pub fn to_text(&self) -> (r: String)
        ensures
            r@ == value_text(self@),
    {
        match self {
            StackValue::String(s) => s.clone(),
            StackValue::UnsignedInt(n) => crate::text::u64_string(*n),
            StackValue::SignedInt(n) => crate::text::i64_string(*n),
            StackValue::Float(b) => crate::float::float_to_text(*b),
            StackValue::Bool(b) => {
                if *b {
                    String::from_str("true")
                } else {
                    String::from_str("false")
                }
            },
        }
    }
}

/// The whole state of the engine at one instant, as mathematics: the
/// program, the program counter, the two stacks, the function table, and the
/// read and written lines.
#[verifier::ext_equal]
pub ghost struct VmState {
    pub tokens: Seq<TokenV>,
    pub pos: int,
    pub stack: Seq<ValueV>,
    pub rstack: Seq<int>,
    pub funcs: Seq<(Seq<char>, int)>,
    pub input: Seq<Seq<char>>,
    pub inpos: int,
    pub output: Seq<Seq<char>>,
}

/// What one step of the engine yields: the next state, a normal halt, or a
/// fatal error with the state at that instant.
#[verifier::ext_equal]
pub ghost enum StepRes {
    Next(VmState),
    Done(VmState),
    Fail(VmState, RunErrV),
}

/// The value views of a stack of values, bottom first.
pub open spec fn vals_view(s: Seq<StackValue>) -> Seq<ValueV> {
    Seq::new(s.len(), |i: int| s[i]@)
}

/// The saved positions of a call/return stack, as integers.
pub open spec fn ints_view(s: Seq<usize>) -> Seq<int> {
    Seq::new(s.len(), |i: int| s[i] as int)
}

/// The character sequences of a sequence of lines.
pub open spec fn strs_view(s: Seq<String>) -> Seq<Seq<char>> {
    Seq::new(s.len(), |i: int| s[i]@)
}

/// The entries of a function table: each name with its entry position.
pub open spec fn funcs_view(s: Seq<(String, usize)>) -> Seq<(Seq<char>, int)> {
    Seq::new(s.len(), |i: int| (s[i].0@, s[i].1 as int))
}

/// The position a function name maps to: the most recent registration wins.
pub open spec fn lookup_func(fs: Seq<(Seq<char>, int)>, name: Seq<char>) -> Option<int>
    decreases fs.len(),
{
    if fs.len() == 0 {
        None
    } else if fs.last().0 == name {
        Some(fs.last().1)
    } else {
        lookup_func(fs.drop_last(), name)
    }
}

/// The execution engine. The token sequence, the program counter and the
/// read and written lines are open to the caller; the stacks and the
/// function table belong to the engine alone.
#[derive(Debug)]
pub struct Interpreter {
    pub tokens: Vec<ILToken>,
    pub position: usize,
    pub input: Vec<String>,
    pub output: Vec<String>,
    stack: Stack<StackValue>,
    return_stack: Stack<usize>,
    functions: Vec<(String, usize)>,
    input_pos: usize,
}

impl View for Interpreter {
    type V = VmState;

    closed spec fn view(&self) -> VmState {
        VmState {
            tokens: toks_view(self.tokens@),
            pos: self.position as int,
            stack: vals_view(self.stack@),
            rstack: ints_view(self.return_stack@),
            funcs: funcs_view(self.functions@),
            input: strs_view(self.input@),
            inpos: self.input_pos as int,
            output: strs_view(self.output@),
        }
    }
}

impl Interpreter {
    /// A fresh engine over a resolved program and its input lines: the
    /// counter at the start, both stacks empty, no functions registered and
    /// nothing written yet. Each run must construct its own engine.
    pub fn new(tokens: Vec<ILToken>, input: Vec<String>) -> (r: Self)
        ensures
            r@ == (VmState {
                tokens: toks_view(tokens@),
                pos: 0,
                stack: Seq::empty(),
                rstack: Seq::empty(),
                funcs: Seq::empty(),
                input: strs_view(input@),
                inpos: 0,
                output: Seq::empty(),
            }),
    {
        let r = Self {
            tokens,
            position: 0,
            input,
            output: Vec::new(),
            stack: Stack::new(),
            return_stack: Stack::new(),
            functions: Vec::new(),
            input_pos: 0,
        };
        proof {
            assert(vals_view(r.stack@) =~= Seq::<ValueV>::empty());
            assert(ints_view(r.return_stack@) =~= Seq::<int>::empty());
            assert(funcs_view(r.functions@) =~= Seq::<(Seq<char>, int)>::empty());
            assert(strs_view(r.output@) =~= Seq::<Seq<char>>::empty());
        }
        r
    }

    /// Places a value on top of the value stack.
    pub fn push_value(&mut self, value: StackValue)
        ensures
            final(self)@ == (VmState { stack: old(self)@.stack.push(value@), ..old(self)@ }),
    {
        let ghost st = self@;
        let ghost v = value@;
        self.stack.push(value);
        proof {
            assert(vals_view(self.stack@) =~= st.stack.push(v));
            assert(self@ =~= (VmState { stack: st.stack.push(v), ..st }));
        }
    }

    /// Removes and returns the top value, or `None` if the stack is empty.
    pub fn pop_value(&mut self) -> (r: Option<StackValue>)
        ensures
            old(self)@.stack.len() == 0 ==> r is None && final(self)@ == old(self)@,
            old(self)@.stack.len() > 0 ==> (r matches Some(v) && v@ == old(self)@.stack.last()
                && final(self)@ == (VmState {
                stack: old(self)@.stack.drop_last(),
                ..old(self)@
            })),
    {
        let ghost st = self@;
        let r = self.stack.pop();
        proof {
            if st.stack.len() == 0 {
                assert(self@ =~= st);
            } else {
                assert(vals_view(self.stack@) =~= st.stack.drop_last());
                assert(self@ =~= (VmState { stack: st.stack.drop_last(), ..st }));
            }
        }
        r
    }

    /// The value stack, bottom first.
    pub fn get_stack(&self) -> (r: &Stack<StackValue>)
        ensures
            vals_view(r@) == self@.stack,
    {
        &self.stack
    }

    /// Reads one line from the input: the next unread line, or an empty
    /// line once the input has ended.
    pub(crate) fn read_line(&mut self) -> (r: String)
        ensures
            ({
                let st = old(self)@;
                if st.inpos < st.input.len() {
                    r@ == st.input[st.inpos] && final(self)@ == (VmState {
                        inpos: st.inpos + 1,
                        ..st
                    })
                } else {
                    r@ =~= Seq::<char>::empty() && final(self)@ == st
                }
            }),
    {
        let ghost st = self@;
        if self.input_pos < self.input.len() {
            let line: String = self.input[self.input_pos].clone();
            self.input_pos = self.input_pos + 1;
            proof {
                assert(self@ =~= (VmState { inpos: st.inpos + 1, ..st }));
            }
            line
        } else {
            proof {
                assert(self@ =~= st);
            }
            String::new()
        }
    }

    /// Writes one line to the output.
    pub(crate) fn write_line(&mut self, line: String)
        ensures
            final(self)@ == (VmState { output: old(self)@.output.push(line@), ..old(self)@ }),
    {
        let ghost st = self@;
        let ghost l = line@;
        self.output.push(line);
        proof {
            assert(strs_view(self.output@) =~= st.output.push(l));
            assert(self@ =~= (VmState { output: st.output.push(l), ..st }));
        }
    }

    /// Jumps the counter to the target baked into the `if` token it stands
    /// on; a target outside the program ends it. On any other token the
    /// counter stays.
    pub(crate) fn jump_to_if_target(&mut self)
        ensures
            ({
                let st = old(self)@;
                if 0 <= st.pos < st.tokens.len() && st.tokens[st.pos] matches TokenV::If(t) {
                    let t = st.tokens[st.pos]->If_0 as int;
                    final(self)@ == (VmState {
                        pos: if t < st.tokens.len() {
                            t
                        } else {
                            st.tokens.len() as int
                        },
                        ..st
                    })
                } else {
                    final(self)@ == st
                }
            }),
    {
        let ghost st = self@;
        if self.position < self.tokens.len() {
            let target: Option<usize> = match &self.tokens[self.position] {
                ILToken::If(ip) => Some(*ip),
                _ => None,
            };
            match target {
                Some(ip) => {
                    let len: usize = self.tokens.len();
                    self.position = if ip < len {
                        ip
                    } else {
                        len
                    };
                    proof {
                        assert(st.tokens[st.pos] matches TokenV::If(t));
                        assert(self@ =~= (VmState { pos: self.position as int, ..st }));
                    }
                },
                None => {
                    proof {
                        assert(self@ =~= st);
                    }
                },
            }
        } else {
            proof {
                assert(self@ =~= st);
            }
        }
    }

    /// The entry position registered for a function name, if any; the most
    /// recent registration wins.
    pub(crate) fn lookup_function(&self, name: &String) -> (r: Option<usize>)
        ensures
            match r {
                Some(p) => lookup_func(self@.funcs, name@) == Some(p as int),
                None => lookup_func(self@.funcs, name@) is None,
            },
    {
        let ghost fs = funcs_view(self.functions@);
        proof {
            assert(fs.subrange(0, fs.len() as int) =~= fs);
        }
        let mut k: usize = self.functions.len();
        while k > 0
            invariant
                fs == funcs_view(self.functions@),
                0 <= k <= self.functions@.len(),
                lookup_func(fs, name@) == lookup_func(fs.subrange(0, k as int), name@),
            decreases k,
        {
            let entry_name_eq: bool = self.functions[k - 1].0 == *name;
            proof {
                assert(fs.subrange(0, k as int).last() == fs[k - 1]);
                assert(fs.subrange(0, k as int).drop_last() =~= fs.subrange(0, k - 1));
            }
            if entry_name_eq {
                return Some(self.functions[k - 1].1);
            }
            k = k - 1;
        }
        proof {
            assert(fs.subrange(0, 0) =~= Seq::<(Seq<char>, int)>::empty());
        }
        None
    }

    /// Moves the counter forward onto the next token equal to the given
    /// one, or to the end of the program if there is none.
    pub(crate) fn skip_until(&mut self, token: &ILToken)
        requires
            0 <= old(self)@.pos < old(self)@.tokens.len(),
        ensures
            final(self)@ == (VmState {
                pos: find_token_idx(old(self)@.tokens, old(self)@.pos + 1, token@),
                ..old(self)@
            }),
    {
        let ghost st = self@;
        let ghost stop = token@;
        proof {
            lemma_find_token_idx(st.tokens, st.pos + 1, stop);
        }
        let n: usize = self.tokens.len();
        self.position = self.position + 1;
        while self.position < self.tokens.len() && !tokens_equal(
            &self.tokens[self.position],
            token,
        )
            invariant
                st.pos + 1 <= self.position <= st.tokens.len(),
                stop == token@,
                self@ == (VmState { pos: self.position as int, ..st }),
                find_token_idx(st.tokens, st.pos + 1, stop) == find_token_idx(
                    st.tokens,
                    self.position as int,
                    stop,
                ),
            decreases st.tokens.len() - self.position,
        {
            self.position = self.position + 1;
        }
        proof {
            assert(self@ =~= (VmState { pos: self.position as int, ..st }));
        }
    }

    /// Skips a function body just registered: forward onto its `fend`.
    pub(crate) fn skip_function_body(&mut self)
        requires
            0 <= old(self)@.pos < old(self)@.tokens.len(),
        ensures
            final(self)@ == (VmState {
                pos: find_token_idx(old(self)@.tokens, old(self)@.pos + 1, TokenV::FuncEnd),
                ..old(self)@
            }),
    {
        self.skip_until(&ILToken::FuncEnd);
    }

    /// Walks the program for at most `fuel` tokens, each dispatched exactly
    /// as `vm_step` says: the result and the state left behind are those of
    /// `vm_run` with that much fuel. A run cut short by its fuel can be
    /// resumed by running the same engine again.
    fn interpret(&mut self, fuel: u64) -> (r: Result<RunOutcome, RuntimeError>)
        ensures
            ({
                let outcome = vm_run(old(self)@, fuel as nat);
                match r {
                    Ok(RunOutcome::Halted) => outcome == StepRes::Done(final(self)@),
                    Ok(RunOutcome::OutOfFuel) => outcome == StepRes::Next(final(self)@),
                    Err(e) => outcome == StepRes::Fail(final(self)@, e@),
                }
            }),
    {
        let ghost init = self@;
        let mut steps: u64 = 0;
        loop
            invariant
                init == old(self)@,
                steps <= fuel,
                vm_run(init, steps as nat) == StepRes::Next(self@),
            decreases fuel - steps,
        {
            if steps == fuel {
                return Ok(RunOutcome::OutOfFuel);
            }
            if self.position >= self.tokens.len() {
                if self.return_stack.len() == 0 {
                    proof {
                        assert(self@.rstack.len() == 0);
                        assert(vm_step(self@) =~~= StepRes::Done(self@));
                        lemma_vm_run_snoc(init, steps as nat);
                        assert(vm_run(init, steps as nat + 1) == StepRes::Done(self@));
                        lemma_vm_run_absorb(init, steps as nat + 1, fuel as nat);
                    }
                    return Ok(RunOutcome::Halted);
                } else {
                    proof {
                        assert(self@.rstack.len() > 0);
                        assert(vm_step(self@) =~~= StepRes::Fail(
                            self@,
                            RunErrV::UnterminatedCall,
                        ));
                        lemma_vm_run_snoc(init, steps as nat);
                        assert(vm_run(init, steps as nat + 1) == StepRes::Fail(
                            self@,
                            RunErrV::UnterminatedCall,
                        ));
                        lemma_vm_run_absorb(init, steps as nat + 1, fuel as nat);
                    }
                    return Err(RuntimeError::UnterminatedCall);
                }
            }
            let ghost st = self@;
            let token: ILToken = clone_token(&self.tokens[self.position]);
            proof {
                assert(token@ == st.tokens[st.pos]);
            }
            match token {
                ILToken::PushString(v) => {
                    self.push_value(StackValue::String(v));
                },
                ILToken::PushUnsignedInteger(v) => {
                    self.push_value(StackValue::UnsignedInt(v));
                },
                ILToken::PushSignedInteger(v) => {
                    self.push_value(StackValue::SignedInt(v));
                },
                ILToken::PushFloat(b) => {
                    self.push_value(StackValue::Float(b));
                },
                ILToken::PushBool(b) => {
                    self.push_value(StackValue::Bool(b));
                },
                ILToken::If(_) => {
                    match word_if(self) {
                        Ok(()) => {},
                        Err(e) => {
                            proof {
                                assert(vm_step(st) =~~= StepRes::Fail(self@, e@));
                                lemma_vm_run_snoc(init, steps as nat);
                                assert(vm_run(init, steps as nat + 1) == StepRes::Fail(
                                    self@,
                                    e@,
                                ));
                                lemma_vm_run_absorb(init, steps as nat + 1, fuel as nat);
                            }
                            return Err(e);
                        },
                    }
                },
                ILToken::End => {},
                ILToken::Symbol(name) => {
                    let nc: Vec<char> = crate::text::str_to_chars(name.as_str());
                    let outcome: Option<Result<(), RuntimeError>> = if chars_eq_str(&nc, "drop") {
                        Some(word_drop(self))
                    } else if chars_eq_str(&nc, "dup") {
                        Some(word_dup(self))
                    } else if chars_eq_str(&nc, "print") {
                        Some(word_print(self))
                    } else if chars_eq_str(&nc, "get_line") {
                        Some(word_get_line(self))
                    } else if chars_eq_str(&nc, "+") {
                        Some(word_add(self))
                    } else if chars_eq_str(&nc, "-") {
                        Some(word_subtract(self))
                    } else if chars_eq_str(&nc, "/") {
                        Some(word_divide(self))
                    } else if chars_eq_str(&nc, "*") {
                        Some(word_multiply(self))
                    } else if chars_eq_str(&nc, "<") {
                        Some(word_less(self))
                    } else if chars_eq_str(&nc, ">") {
                        Some(word_more(self))
                    } else if chars_eq_str(&nc, "<=") {
                        Some(word_less_or_equal(self))
                    } else if chars_eq_str(&nc, ">=") {
                        Some(word_more_or_equal(self))
                    } else if chars_eq_str(&nc, "==") {
                        Some(word_equal(self))
                    } else if chars_eq_str(&nc, "!=") {
                        Some(word_not_equal(self))
                    } else if chars_eq_str(&nc, "get_int") {
                        Some(word_get_int(self))
                    } else if chars_eq_str(&nc, "get_uint") {
                        Some(word_get_uint(self))
                    } else if chars_eq_str(&nc, "get_float") {
                        Some(word_get_float(self))
                    } else {
                        None
                    };
                    match outcome {
                        Some(Ok(())) => {},
                        Some(Err(e)) => {
                            proof {
                                assert(is_builtin(st.tokens[st.pos]->Symbol_0));
                                assert(vm_step(st) =~~= StepRes::Fail(self@, e@));
                                lemma_vm_run_snoc(init, steps as nat);
                                assert(vm_run(init, steps as nat + 1) == StepRes::Fail(
                                    self@,
                                    e@,
                                ));
                                lemma_vm_run_absorb(init, steps as nat + 1, fuel as nat);
                            }
                            return Err(e);
                        },
                        None => {
                            proof {
                                assert(!is_builtin(st.tokens[st.pos]->Symbol_0));
                            }
                            match self.lookup_function(&name) {
                                Some(p) => {
                                    let len: usize = self.tokens.len();
                                    self.return_stack.push(self.position);
                                    self.position = if p < len {
                                        p
                                    } else {
                                        len
                                    };
                                    proof {
                                        assert(ints_view(self.return_stack@) =~= st.rstack.push(
                                            st.pos,
                                        ));
                                        assert(self@ =~= (VmState {
                                            pos: self.position as int,
                                            rstack: st.rstack.push(st.pos),
                                            ..st
                                        }));
                                    }
                                },
                                None => {
                                    proof {
                                        assert(vm_step(st) =~~= StepRes::Fail(
                                            self@,
                                            RunErrV::UnknownWord(name@),
                                        ));
                                        lemma_vm_run_snoc(init, steps as nat);
                                        assert(vm_run(init, steps as nat + 1) == StepRes::Fail(
                                            self@,
                                            RunErrV::UnknownWord(name@),
                                        ));
                                        lemma_vm_run_absorb(
                                            init,
                                            steps as nat + 1,
                                            fuel as nat,
                                        );
                                    }
                                    return Err(RuntimeError::UnknownWord(name));
                                },
                            }
                        },
                    }
                },
                ILToken::FuncDef(fname) => {
                    let ghost nm = fname@;
                    let p: usize = self.position;
                    self.functions.push((fname, p));
                    proof {
                        assert(funcs_view(self.functions@) =~= st.funcs.push((nm, st.pos)));
                        assert(self@ =~= (VmState { funcs: st.funcs.push((nm, st.pos)), ..st }));
                    }
                    self.skip_function_body();
                },
                ILToken::FuncEnd => {
                    match self.return_stack.pop() {
                        Some(rp) => {
                            proof {
                                assert(ints_view(self.return_stack@) =~= st.rstack.drop_last());
                                assert(rp as int == st.rstack.last());
                            }
                            let len: usize = self.tokens.len();
                            self.position = if rp < len {
                                rp
                            } else {
                                len
                            };
                            proof {
                                assert(self@ =~= (VmState {
                                    pos: self.position as int,
                                    rstack: st.rstack.drop_last(),
                                    ..st
                                }));
                            }
                        },
                        None => {
                            proof {
                                assert(vm_step(st) =~~= StepRes::Fail(
                                    self@,
                                    RunErrV::ReturnWithoutCall,
                                ));
                                lemma_vm_run_snoc(init, steps as nat);
                                assert(vm_run(init, steps as nat + 1) == StepRes::Fail(
                                    self@,
                                    RunErrV::ReturnWithoutCall,
                                ));
                                lemma_vm_run_absorb(init, steps as nat + 1, fuel as nat);
                            }
                            return Err(RuntimeError::ReturnWithoutCall);
                        },
                    }
                },
                ILToken::CommentMarker => {
                    self.skip_until(&ILToken::CommentMarker);
                },
            }
            if self.position < self.tokens.len() {
                self.position = self.position + 1;
            }
            proof {
                assert(vm_step(st) =~~= StepRes::Next(self@));
                lemma_vm_run_snoc(init, steps as nat);
            }
            steps = steps + 1;
        }
    }

    /// Runs the program for at most `fuel` tokens: a normal halt, the first
    /// fatal error, or the still-running engine once the fuel is spent. The
    /// result and the state left behind are exactly those of `vm_run` with
    /// that much fuel, and a run cut short can be resumed by calling `run`
    /// on the same engine again.
    pub fn run(&mut self, fuel: u64) -> (r: Result<RunOutcome, RuntimeError>)
        ensures
            ({
                let outcome = vm_run(old(self)@, fuel as nat);
                match r {
                    Ok(RunOutcome::Halted) => outcome == StepRes::Done(final(self)@),
                    Ok(RunOutcome::OutOfFuel) => outcome == StepRes::Next(final(self)@),
                    Err(e) => outcome == StepRes::Fail(final(self)@, e@),
                }
            }),
    {
        self.interpret(fuel)
    }
}

/// The engine's own advance after a token: one step forward, never past the
/// end of the program.
pub open spec fn advance(st: VmState) -> VmState {
    if st.pos < st.tokens.len() {
        VmState { pos: st.pos + 1, ..st }
    } else {
        st
    }
}

/// The first position at or after `i` whose token equals `stop`, or the end
/// of the program.
pub open spec fn find_token_idx(toks: Seq<TokenV>, i: int, stop: TokenV) -> int
    decreases toks.len() - i,
{
    if 0 <= i < toks.len() {
        if toks[i] == stop {
            i
        } else {
            find_token_idx(toks, i + 1, stop)
        }
    } else {
        toks.len() as int
    }
}

pub proof fn lemma_find_token_idx(toks: Seq<TokenV>, i: int, stop: TokenV)
    requires
        0 <= i <= toks.len(),
    ensures
        i <= find_token_idx(toks, i, stop) <= toks.len(),
        find_token_idx(toks, i, stop) < toks.len() ==> toks[find_token_idx(toks, i, stop)]
            == stop,
        forall|j: int| i <= j < find_token_idx(toks, i, stop) ==> toks[j] != stop,
    decreases toks.len() - i,
{
    if i < toks.len() && toks[i] != stop {
        lemma_find_token_idx(toks, i + 1, stop);
    }
}

/// One step of the engine: what the token under the counter does to the
/// state. Past the end of the program the engine halts, fatally if a
/// function call is still waiting to return.
pub open spec fn vm_step(st: VmState) -> StepRes {
    if !(0 <= st.pos < st.tokens.len()) {
        if st.rstack.len() > 0 {
            StepRes::Fail(st, RunErrV::UnterminatedCall)
        } else {
            StepRes::Done(st)
        }
    } else {
        match st.tokens[st.pos] {
            TokenV::PushString(t) => StepRes::Next(
                advance(VmState { stack: st.stack.push(ValueV::String(t)), ..st }),
            ),
            TokenV::PushUnsignedInteger(v) => StepRes::Next(
                advance(VmState { stack: st.stack.push(ValueV::UnsignedInt(v)), ..st }),
            ),
            TokenV::PushSignedInteger(v) => StepRes::Next(
                advance(VmState { stack: st.stack.push(ValueV::SignedInt(v)), ..st }),
            ),
            TokenV::PushFloat(b) => StepRes::Next(
                advance(VmState { stack: st.stack.push(ValueV::Float(b)), ..st }),
            ),
            TokenV::PushBool(b) => StepRes::Next(
                advance(VmState { stack: st.stack.push(ValueV::Bool(b)), ..st }),
            ),
            TokenV::If(_) => wrap_eff(eff_if(st)),
            TokenV::End => StepRes::Next(advance(st)),
            TokenV::Symbol(name) => {
                if is_builtin(name) {
                    wrap_eff(builtin_eff(name, st))
                } else {
                    match lookup_func(st.funcs, name) {
                        Some(p) => StepRes::Next(
                            advance(
                                VmState {
                                    pos: if 0 <= p < st.tokens.len() {
                                        p
                                    } else {
                                        st.tokens.len() as int
                                    },
                                    rstack: st.rstack.push(st.pos),
                                    ..st
                                },
                            ),
                        ),
                        None => StepRes::Fail(st, RunErrV::UnknownWord(name)),
                    }
                }
            },
            TokenV::FuncDef(name) => StepRes::Next(
                advance(
                    VmState {
                        pos: find_token_idx(st.tokens, st.pos + 1, TokenV::FuncEnd),
                        funcs: st.funcs.push((name, st.pos)),
                        ..st
                    },
                ),
            ),
            TokenV::FuncEnd => {
                if st.rstack.len() == 0 {
                    StepRes::Fail(st, RunErrV::ReturnWithoutCall)
                } else {
                    let rp = st.rstack.last();
                    StepRes::Next(
                        advance(
                            VmState {
                                pos: if 0 <= rp < st.tokens.len() {
                                    rp
                                } else {
                                    st.tokens.len() as int
                                },
                                rstack: st.rstack.drop_last(),
                                ..st
                            },
                        ),
                    )
                }
            },
            TokenV::CommentMarker => StepRes::Next(
                advance(
                    VmState { pos: find_token_idx(st.tokens, st.pos + 1, TokenV::CommentMarker), ..st },
                ),
            ),
        }
    }
}

/// At most `fuel` steps of the engine: the state still running, or the halt
/// or failure that was reached first.
pub open spec fn vm_run(st: VmState, fuel: nat) -> StepRes
    decreases fuel,
{
    if fuel == 0 {
        StepRes::Next(st)
    } else {
        match vm_step(st) {
            StepRes::Next(st2) => vm_run(st2, (fuel - 1) as nat),
            r => r,
        }
    }
}

/// Running one more step from wherever `fuel` steps still run.
pub proof fn lemma_vm_run_snoc(st: VmState, fuel: nat)
    requires
        vm_run(st, fuel) is Next,
    ensures
        vm_run(st, fuel + 1) == vm_step(vm_run(st, fuel)->Next_0),
    decreases fuel,
{
    if fuel == 0 {
        assert(vm_run(st, 0) == StepRes::Next(st));
        assert(vm_run(st, 1) == match vm_step(st) {
            StepRes::Next(st2) => vm_run(st2, 0),
            r => r,
        });
    } else {
        match vm_step(st) {
            StepRes::Next(st2) => {
                assert(vm_run(st, fuel) == vm_run(st2, (fuel - 1) as nat));
                assert(vm_run(st, fuel + 1) == vm_run(st2, ((fuel + 1) - 1) as nat));
                lemma_vm_run_snoc(st2, (fuel - 1) as nat);
            },
            _ => {},
        }
    }
}

/// A halt or failure, once reached, stands whatever more fuel is spent.
pub proof fn lemma_vm_run_absorb(st: VmState, m: nat, k: nat)
    requires
        m <= k,
        !(vm_run(st, m) is Next),
    ensures
        vm_run(st, k) == vm_run(st, m),
    decreases m,
{
    if m > 0 {
        match vm_step(st) {
            StepRes::Next(st2) => {
                lemma_vm_run_absorb(st2, (m - 1) as nat, (k - 1) as nat);
            },
            _ => {},
        }
    }
}

/// How a fuel-bounded run ended: at a normal halt, or still going when the
/// fuel ran out.
#[derive(Debug, Clone, Copy, PartialEq, Eq, Structural)]
pub enum RunOutcome {
    Halted,
    OutOfFuel,
}

/// Whether two tokens are equal, payloads included.
fn tokens_equal(a: &ILToken, b: &ILToken) -> (r: bool)
    ensures
        r == (a@ == b@),
{
    match (a, b) {
        (ILToken::PushString(x), ILToken::PushString(y)) => *x == *y,
        (ILToken::PushUnsignedInteger(x), ILToken::PushUnsignedInteger(y)) => *x == *y,
        (ILToken::PushSignedInteger(x), ILToken::PushSignedInteger(y)) => *x == *y,
        (ILToken::PushFloat(x), ILToken::PushFloat(y)) => *x == *y,
        (ILToken::PushBool(x), ILToken::PushBool(y)) => *x == *y,
        (ILToken::Symbol(x), ILToken::Symbol(y)) => *x == *y,
        (ILToken::If(x), ILToken::If(y)) => *x == *y,
        (ILToken::End, ILToken::End) => true,
        (ILToken::FuncDef(x), ILToken::FuncDef(y)) => *x == *y,
        (ILToken::FuncEnd, ILToken::FuncEnd) => true,
        (ILToken::CommentMarker, ILToken::CommentMarker) => true,
        _ => false,
    }
}

/// An exact copy of a token; a string payload is copied, not shared.
fn clone_token(t: &ILToken) -> (r: ILToken)
    ensures
        r@ == t@,
{
    match t {
        ILToken::PushString(s) => ILToken::PushString(s.clone()),
        ILToken::PushUnsignedInteger(v) => ILToken::PushUnsignedInteger(*v),
        ILToken::PushSignedInteger(v) => ILToken::PushSignedInteger(*v),
        ILToken::PushFloat(b) => ILToken::PushFloat(*b),
        ILToken::PushBool(b) => ILToken::PushBool(*b),
        ILToken::Symbol(s) => ILToken::Symbol(s.clone()),
        ILToken::If(x) => ILToken::If(*x),
        ILToken::End => ILToken::End,
        ILToken::FuncDef(s) => ILToken::FuncDef(s.clone()),
        ILToken::FuncEnd => ILToken::FuncEnd,
        ILToken::CommentMarker => ILToken::CommentMarker,
    }
}

/// Whether a token is a literal push.
pub open spec fn is_push_token(t: TokenV) -> bool {
    ||| t is PushString
    ||| t is PushUnsignedInteger
    ||| t is PushSignedInteger
    ||| t is PushFloat
    ||| t is PushBool
}

/// The value a literal push places on the stack.
pub open spec fn pushed_value(t: TokenV) -> ValueV {
    match t {
        TokenV::PushString(s) => ValueV::String(s),
        TokenV::PushUnsignedInteger(v) => ValueV::UnsignedInt(v),
        TokenV::PushSignedInteger(v) => ValueV::SignedInt(v),
        TokenV::PushFloat(b) => ValueV::Float(b),
        TokenV::PushBool(b) => ValueV::Bool(b),
        _ => ValueV::Bool(false),
    }
}

proof fn lemma_pushes_from(st: VmState, i: int)
    requires
        forall|k: int| 0 <= k < st.tokens.len() ==> is_push_token(#[trigger] st.tokens[k]),
        st.pos == i,
        0 <= i <= st.tokens.len(),
        st.rstack.len() == 0,
    ensures
        vm_run(st, (st.tokens.len() - i + 1) as nat) == StepRes::Done(
            VmState {
                pos: st.tokens.len() as int,
                stack: st.stack + Seq::new(
                    (st.tokens.len() - i) as nat,
                    |k: int| pushed_value(st.tokens[i + k]),
                ),
                ..st
            },
        ),
    decreases st.tokens.len() - i,
{
    let len = st.tokens.len() as int;
    if i == len {
        assert(vm_step(st) == StepRes::Done(st));
        assert(vm_run(st, 1) == StepRes::Done(st));
        assert(st.stack + Seq::new(0, |k: int| pushed_value(st.tokens[i + k])) =~= st.stack);
        assert((VmState {
            pos: len,
            stack: st.stack + Seq::new(0, |k: int| pushed_value(st.tokens[i + k])),
            ..st
        }) =~~= st);
    } else {
        let t = st.tokens[i];
        let v = pushed_value(t);
        let st2 = VmState { pos: i + 1, stack: st.stack.push(v), ..st };
        assert(vm_step(st) =~~= StepRes::Next(st2));
        lemma_pushes_from(st2, i + 1);
        assert(vm_run(st, (len - i + 1) as nat) == vm_run(st2, (len - i) as nat));
        assert(st.stack.push(v) + Seq::new(
            (len - i - 1) as nat,
            |k: int| pushed_value(st.tokens[i + 1 + k]),
        ) =~= st.stack + Seq::new((len - i) as nat, |k: int| pushed_value(st.tokens[i + k])));
        assert((VmState {
            pos: len,
            stack: st2.stack + Seq::new(
                (len - (i + 1)) as nat,
                |k: int| pushed_value(st2.tokens[i + 1 + k]),
            ),
            ..st2
        }) =~~= (VmState {
            pos: len,
            stack: st.stack + Seq::new((len - i) as nat, |k: int| pushed_value(st.tokens[i + k])),
            ..st
        }));
    }
}

/// For every program made of literal pushes alone, a fresh run halts
/// normally with exactly the pushed values on the stack, bottom to top in
/// source order, and changes nothing else.
pub proof fn lemma_literal_pushes(tokens: Seq<TokenV>, input: Seq<Seq<char>>)
    requires
        forall|k: int| 0 <= k < tokens.len() ==> is_push_token(#[trigger] tokens[k]),
    ensures
        ({
            let init = VmState {
                tokens,
                pos: 0,
                stack: Seq::empty(),
                rstack: Seq::empty(),
                funcs: Seq::empty(),
                input,
                inpos: 0,
                output: Seq::empty(),
            };
            vm_run(init, (tokens.len() + 1) as nat) == StepRes::Done(
                VmState {
                    pos: tokens.len() as int,
                    stack: Seq::new(tokens.len(), |k: int| pushed_value(tokens[k])),
                    ..init
                },
            )
        }),
{
    let init = VmState {
        tokens,
        pos: 0,
        stack: Seq::empty(),
        rstack: Seq::empty(),
        funcs: Seq::empty(),
        input,
        inpos: 0,
        output: Seq::empty(),
    };
    lemma_pushes_from(init, 0);
    assert(Seq::<ValueV>::empty() + Seq::new(tokens.len(), |k: int| pushed_value(tokens[0 + k]))
        =~= Seq::new(tokens.len(), |k: int| pushed_value(tokens[k])));
    assert((VmState {
        pos: tokens.len() as int,
        stack: Seq::<ValueV>::empty() + Seq::new(
            tokens.len(),
            |k: int| pushed_value(tokens[0 + k]),
        ),
        ..init
    }) =~~= (VmState {
        pos: tokens.len() as int,
        stack: Seq::new(tokens.len(), |k: int| pushed_value(tokens[k])),
        ..init
    }));
}

/// For every `if` whose baked target lies in the program, one step settles
/// the branch: the condition is popped, and a false condition carries the
/// counter straight past the target — the guarded block is skipped whole,
/// so none of its tokens executes — while a true condition falls through
/// into the block. Nothing else changes.
pub proof fn lemma_conditional_branch(st: VmState)
    requires
        0 <= st.pos < st.tokens.len(),
        st.tokens[st.pos] is If,
        (st.tokens[st.pos]->If_0 as int) < st.tokens.len(),
        st.stack.len() > 0,
    ensures
        truthy_spec(st.stack.last()) ==> vm_step(st) == StepRes::Next(
            VmState { pos: st.pos + 1, stack: st.stack.drop_last(), ..st },
        ),
        !truthy_spec(st.stack.last()) ==> vm_step(st) == StepRes::Next(
            VmState {
                pos: st.tokens[st.pos]->If_0 + 1,
                stack: st.stack.drop_last(),
                ..st
            },
        ),
{
    let (st2, oe) = eff_if(st);
    if truthy_spec(st.stack.last()) {
        assert(vm_step(st) =~~= StepRes::Next(
            VmState { pos: st.pos + 1, stack: st.stack.drop_last(), ..st },
        ));
    } else {
        assert(st2.pos == st.tokens[st.pos]->If_0 as int);
        assert(vm_step(st) =~~= StepRes::Next(
            VmState {
                pos: st.tokens[st.pos]->If_0 + 1,
                stack: st.stack.drop_last(),
                ..st
            },
        ));
    }
}

/// A word that pops — `if`, or any built-in but the four input words —
/// meets an empty value stack only to fail: the step is the empty-stack
/// failure with the state exactly as it stood, and a failure stands however
/// much fuel is left, so no later token ever executes.
pub proof fn lemma_empty_stack_halts(st: VmState)
    requires
        0 <= st.pos < st.tokens.len(),
        st.stack.len() == 0,
        match st.tokens[st.pos] {
            TokenV::Symbol(name) => is_builtin(name) && !(name == "get_line"@ || name
                == "get_int"@ || name == "get_uint"@ || name == "get_float"@),
            TokenV::If(_) => true,
            _ => false,
        },
    ensures
        vm_step(st) == StepRes::Fail(st, RunErrV::EmptyStack),
        forall|fuel: nat| fuel > 0 ==> vm_run(st, fuel) == StepRes::Fail(st, RunErrV::EmptyStack),
{
    assert(vm_step(st) == StepRes::Fail(st, RunErrV::EmptyStack));
    assert forall|fuel: nat| fuel > 0 implies vm_run(st, fuel) == StepRes::Fail(
        st,
        RunErrV::EmptyStack,
    ) by {
        assert(vm_run(st, 1) == StepRes::Fail(st, RunErrV::EmptyStack));
        lemma_vm_run_absorb(st, 1, fuel);
    }
}

} // verus!
