//! Error values for the two phases of a run: lexical and structural errors
//! found while turning source text into a program, and runtime errors that
//! halt the execution engine.

use vstd::prelude::*;

verus! {

/// The ways a numeric literal can be malformed.
#[derive(Debug, Clone, PartialEq, Eq, Structural)]
pub enum NumberParseErrorType {
    /// More than one decimal point.
    WrongFloat,
    /// A character that is neither a digit nor a decimal point.
    NonNumericChar,
    /// The literal is only a negative sign.
    OnlyNegativeSign,
}

/// A malformed numeric literal: the offending literal and the offset of the
/// offending character within it.
#[derive(Debug, Clone, PartialEq)]
pub struct NumberParseError {
    pub error_type: NumberParseErrorType,
    pub literal: String,
    pub pos: usize,
}

/// The mathematical content of a `NumberParseError`.
pub ghost struct NumberParseErrorV {
    pub error_type: NumberParseErrorType,
    pub literal: Seq<char>,
    pub pos: usize,
}

impl View for NumberParseError {
    type V = NumberParseErrorV;

    open spec fn view(&self) -> NumberParseErrorV {
        NumberParseErrorV { error_type: self.error_type, literal: self.literal@, pos: self.pos }
    }
}

impl NumberParseError {
    /// Builds a malformed-number error from its parts.
    pub fn new(error_type: NumberParseErrorType, literal: String, pos: usize) -> (r: Self)
        ensures
            r@ == (NumberParseErrorV { error_type, literal: literal@, pos }),
    {
        Self { error_type, literal, pos }
    }
}

/// A string literal whose closing quote is missing.
#[derive(Debug, Clone, PartialEq)]
pub struct UnterminatedStringError;

/// A value was popped from an empty value stack.
#[derive(Debug, Clone, PartialEq)]
pub struct EmptyStackError;

/// A nesting violation found by the block resolver.
#[derive(Debug, Clone, PartialEq)]
pub enum StructuralError {
    /// An `end` with no open `if`, at the given token index.
    UnmatchedEnd { position: usize },
    /// An `if` that no `end` closes, at the given token index.
    UnclosedIf { position: usize },
}

/// Any error that aborts tokenization or block resolution.
#[derive(Debug, Clone, PartialEq)]
pub enum LexError {
    /// A malformed numeric literal.
    Number(NumberParseError),
    /// A string literal without its closing quote.
    UnterminatedString(UnterminatedStringError),
    /// An integer literal whose value does not fit in its type.
    IntegerOutOfRange { literal: String },
    /// A `fdef` with no word after it to name the function.
    MissingFunctionName,
    /// An `if`/`end` nesting violation.
    Structure(StructuralError),
}

/// The mathematical content of a `LexError`.
pub ghost enum LexErrV {
    Number(NumberParseErrorV),
    UnterminatedString,
    IntegerOutOfRange(Seq<char>),
    MissingFunctionName,
    UnmatchedEnd(usize),
    UnclosedIf(usize),
}

impl View for LexError {
    type V = LexErrV;

    open spec fn view(&self) -> LexErrV {
        match self {
            LexError::Number(e) => LexErrV::Number(e@),
            LexError::UnterminatedString(_) => LexErrV::UnterminatedString,
            LexError::IntegerOutOfRange { literal } => LexErrV::IntegerOutOfRange(literal@),
            LexError::MissingFunctionName => LexErrV::MissingFunctionName,
            LexError::Structure(StructuralError::UnmatchedEnd { position }) => LexErrV::UnmatchedEnd(
                *position,
            ),
            LexError::Structure(StructuralError::UnclosedIf { position }) => LexErrV::UnclosedIf(
                *position,
            ),
        }
    }
}

/// Any error that halts the execution engine. All of them are fatal: the
/// engine never continues past one.
#[derive(Debug, Clone, PartialEq)]
pub enum RuntimeError {
    /// A word popped the value stack while it was empty.
    EmptyStack(EmptyStackError),
    /// A symbol that is neither a built-in word nor a defined function.
    UnknownWord(String),
    /// A line read by `get_int`, `get_uint` or `get_float` that does not
    /// parse as the requested number type.
    InvalidNumberInput(String),
    /// An arithmetic or comparison word met an operand that is not a number.
    NonNumericOperand,
    /// A `fend` was executed with no saved call position to return to.
    ReturnWithoutCall,
    /// The program ended while a function call was still waiting to return.
    UnterminatedCall,
}

/// The mathematical content of a `RuntimeError`.
pub ghost enum RunErrV {
    EmptyStack,
    UnknownWord(Seq<char>),
    InvalidNumberInput(Seq<char>),
    NonNumericOperand,
    ReturnWithoutCall,
    UnterminatedCall,
}

impl View for RuntimeError {
    type V = RunErrV;

    open spec fn view(&self) -> RunErrV {
        match self {
            RuntimeError::EmptyStack(_) => RunErrV::EmptyStack,
            RuntimeError::UnknownWord(w) => RunErrV::UnknownWord(w@),
            RuntimeError::InvalidNumberInput(t) => RunErrV::InvalidNumberInput(t@),
            RuntimeError::NonNumericOperand => RunErrV::NonNumericOperand,
            RuntimeError::ReturnWithoutCall => RunErrV::ReturnWithoutCall,
            RuntimeError::UnterminatedCall => RunErrV::UnterminatedCall,
        }
    }
}

} // verus!
