//! The tokenizer and the block resolver. Source text is scanned into a flat,
//! ordered token sequence; literals are classified as string, unsigned,
//! signed or floating-point; reserved symbols are rewritten into their own
//! token kinds; and a final pass bakes each `if` token's jump target, the
//! index of its matching `end`, into the sequence.

use crate::errors::{LexErrV, LexError, NumberParseError, NumberParseErrorType, NumberParseErrorV,
    StructuralError, UnterminatedStringError};
use crate::float::{float_from_text, float_of_text};
use crate::stack::Stack;
use crate::text::{chars_to_string, dec_val, find_char_idx, first_bad_idx, is_digit, is_digit_char,
    is_simple_decimal, is_space_char, lemma_dot_count_split, lemma_dot_count_zero,
    lemma_find_char_idx, lemma_first_bad_idx, lemma_skip_space_idx, lemma_word_end_idx,
    parse_i64_chars, parse_u64_chars, skip_space_idx, str_to_chars, subvec, word_end_idx};
use vstd::prelude::*;

verus! {

/// One instruction of a program: a literal push, a symbol to resolve at run
/// time, or one of the rewritten reserved forms. A floating-point literal is
/// carried as the 64 bits of its IEEE 754 double encoding.
#[derive(Debug, PartialEq, Clone)]
pub enum ILToken {
    PushString(String),
    PushUnsignedInteger(u64),
    PushSignedInteger(i64),
    PushFloat(u64),
    PushBool(bool),
    Symbol(String),
    /// `if`, with the index of its matching `end` once resolved.
    If(usize),
    End,
    /// `fdef`, with the name of the function it opens.
    FuncDef(String),
    FuncEnd,
    CommentMarker,
}

/// The mathematical content of an `ILToken`.
pub ghost enum TokenV {
    PushString(Seq<char>),
    PushUnsignedInteger(u64),
    PushSignedInteger(i64),
    PushFloat(u64),
    PushBool(bool),
    Symbol(Seq<char>),
    If(usize),
    End,
    FuncDef(Seq<char>),
    FuncEnd,
    CommentMarker,
}

impl View for ILToken {
    type V = TokenV;

    open spec fn view(&self) -> TokenV {
        match self {
            ILToken::PushString(t) => TokenV::PushString(t@),
            ILToken::PushUnsignedInteger(v) => TokenV::PushUnsignedInteger(*v),
            ILToken::PushSignedInteger(v) => TokenV::PushSignedInteger(*v),
            ILToken::PushFloat(b) => TokenV::PushFloat(*b),
            ILToken::PushBool(b) => TokenV::PushBool(*b),
            ILToken::Symbol(t) => TokenV::Symbol(t@),
            ILToken::If(t) => TokenV::If(*t),
            ILToken::End => TokenV::End,
            ILToken::FuncDef(t) => TokenV::FuncDef(t@),
            ILToken::FuncEnd => TokenV::FuncEnd,
            ILToken::CommentMarker => TokenV::CommentMarker,
        }
    }
}

/// The token views of a token sequence, in order.
pub open spec fn toks_view(ts: Seq<ILToken>) -> Seq<TokenV> {
    Seq::new(ts.len(), |i: int| ts[i]@)
}

/// A whitespace-delimited candidate before classification.
#[derive(Debug, PartialEq, Clone)]
enum Token {
    Symbol(Vec<char>),
    NumericLiteral(Vec<char>),
    StringLiteral(Vec<char>),
}

/// The mathematical content of a raw candidate.
pub ghost enum RawV {
    Symbol(Seq<char>),
    NumericLiteral(Seq<char>),
    StringLiteral(Seq<char>),
}

impl View for Token {
    type V = RawV;

    closed spec fn view(&self) -> RawV {
        match self {
            Token::Symbol(t) => RawV::Symbol(t@),
            Token::NumericLiteral(t) => RawV::NumericLiteral(t@),
            Token::StringLiteral(t) => RawV::StringLiteral(t@),
        }
    }
}

/// The lexical check of a numeric literal: a lone negative sign, a second
/// decimal point, or a character that belongs to no number, in that order of
/// precedence, each reported with its offset within the literal.
pub open spec fn validate_number(lit: Seq<char>) -> Option<NumberParseErrorV> {
    let neg = lit.len() > 0 && lit[0] == '-';
    let start: int = if neg {
        1
    } else {
        0
    };
    let d1 = find_char_idx(lit, 0, '.');
    let d2 = find_char_idx(lit, d1 + 1, '.');
    let bad = first_bad_idx(lit, start);
    if neg && lit.len() == 1 {
        Some(
            NumberParseErrorV {
                error_type: NumberParseErrorType::OnlyNegativeSign,
                literal: lit,
                pos: 0,
            },
        )
    } else if d2 < lit.len() {
        Some(
            NumberParseErrorV {
                error_type: NumberParseErrorType::WrongFloat,
                literal: lit,
                pos: d2 as usize,
            },
        )
    } else if bad < lit.len() {
        Some(
            NumberParseErrorV {
                error_type: NumberParseErrorType::NonNumericChar,
                literal: lit,
                pos: bad as usize,
            },
        )
    } else {
        None
    }
}

/// What a validated numeric literal pushes: a float if it holds a decimal
/// point, a signed integer if it starts with the sign, an unsigned integer
/// otherwise; an integer literal whose value does not fit is refused.
pub open spec fn convert_number(lit: Seq<char>) -> Result<TokenV, LexErrV> {
    if find_char_idx(lit, 0, '.') < lit.len() {
        Ok(TokenV::PushFloat(float_of_text(lit).unwrap()))
    } else if lit.len() > 0 && lit[0] == '-' {
        if dec_val(lit.drop_first()) <= 0x8000_0000_0000_0000 {
            Ok(TokenV::PushSignedInteger((-(dec_val(lit.drop_first()) as int)) as i64))
        } else {
            Err(LexErrV::IntegerOutOfRange(lit))
        }
    } else {
        if dec_val(lit) <= u64::MAX {
            Ok(TokenV::PushUnsignedInteger(dec_val(lit) as u64))
        } else {
            Err(LexErrV::IntegerOutOfRange(lit))
        }
    }
}

/// Scans one raw candidate from position `i`: the result, and the position
/// after it. A quote opens a string literal that runs to the matching quote;
/// a digit, or a negative sign followed directly by a digit, opens a numeric
/// literal that runs to the next whitespace; anything else is a symbol that
/// runs to the next whitespace.
pub open spec fn spec_next_raw(s: Seq<char>, i: int) -> (Result<Option<RawV>, LexErrV>, int) {
    let j = skip_space_idx(s, i);
    if j >= s.len() {
        (Ok(None), j)
    } else {
        let c = s[j];
        if c == '"' || c == '\'' {
            let k = find_char_idx(s, j + 1, c);
            if k >= s.len() {
                (Err(LexErrV::UnterminatedString), k)
            } else {
                (Ok(Some(RawV::StringLiteral(s.subrange(j + 1, k)))), k + 1)
            }
        } else if is_digit(c) || (c == '-' && j + 1 < s.len() && is_digit(s[j + 1])) {
            let e = word_end_idx(s, j);
            let lit = s.subrange(j, e);
            match validate_number(lit) {
                Some(err) => (Err(LexErrV::Number(err)), e),
                None => (Ok(Some(RawV::NumericLiteral(lit))), e),
            }
        } else {
            let e = word_end_idx(s, j);
            (Ok(Some(RawV::Symbol(s.subrange(j, e)))), e)
        }
    }
}

/// Scans one token from position `i`: raw scanning, then rewriting of the
/// reserved symbols. `fdef` also takes the next whitespace-delimited word as
/// the name of the function it opens.
pub open spec fn spec_next_token(s: Seq<char>, i: int) -> (Result<Option<TokenV>, LexErrV>, int) {
    let (raw, n) = spec_next_raw(s, i);
    match raw {
        Err(e) => (Err(e), n),
        Ok(None) => (Ok(None), n),
        Ok(Some(RawV::StringLiteral(t))) => (Ok(Some(TokenV::PushString(t))), n),
        Ok(Some(RawV::NumericLiteral(lit))) => match convert_number(lit) {
            Ok(t) => (Ok(Some(t)), n),
            Err(e) => (Err(e), n),
        },
        Ok(Some(RawV::Symbol(w))) => {
            if w == "if"@ {
                (Ok(Some(TokenV::If(0))), n)
            } else if w == "end"@ {
                (Ok(Some(TokenV::End)), n)
            } else if w == "true"@ {
                (Ok(Some(TokenV::PushBool(true))), n)
            } else if w == "false"@ {
                (Ok(Some(TokenV::PushBool(false))), n)
            } else if w == "#"@ {
                (Ok(Some(TokenV::CommentMarker)), n)
            } else if w == "fend"@ {
                (Ok(Some(TokenV::FuncEnd)), n)
            } else if w == "fdef"@ {
                let j2 = skip_space_idx(s, n);
                if j2 >= s.len() {
                    (Err(LexErrV::MissingFunctionName), j2)
                } else {
                    let e2 = word_end_idx(s, j2);
                    (Ok(Some(TokenV::FuncDef(s.subrange(j2, e2)))), e2)
                }
            } else {
                (Ok(Some(TokenV::Symbol(w))), n)
            }
        },
    }
}

/// The scanner only moves forward, and it stays within the text.
pub proof fn lemma_spec_next_token_bounds(s: Seq<char>, i: int)
    requires
        0 <= i <= s.len(),
    ensures
        i <= spec_next_token(s, i).1 <= s.len(),
        spec_next_token(s, i).0 matches Ok(t) && t is Some ==> spec_next_token(s, i).1 > i,
        spec_next_token(s, i).0 matches Ok(t) && t is None ==> spec_next_token(s, i).1
            == s.len(),
{
    lemma_skip_space_idx(s, i);
    let j = skip_space_idx(s, i);
    if j < s.len() {
        lemma_find_char_idx(s, j + 1, s[j]);
        lemma_word_end_idx(s, j);
        let e = word_end_idx(s, j);
        lemma_skip_space_idx(s, e);
        let j2 = skip_space_idx(s, e);
        if j2 < s.len() {
            lemma_word_end_idx(s, j2);
        }
    }
}

/// The token sequence of the text from position `i` on, or the first
/// lexical error.
pub open spec fn spec_lex_from(s: Seq<char>, i: int) -> Result<Seq<TokenV>, LexErrV>
    decreases s.len() - i,
        when 0 <= i <= s.len()
        via spec_lex_from_dec
{
    let (head, n) = spec_next_token(s, i);
    match head {
        Err(e) => Err(e),
        Ok(None) => Ok(Seq::empty()),
        Ok(Some(t)) => match spec_lex_from(s, n) {
            Ok(rest) => Ok(seq![t].add(rest)),
            Err(e) => Err(e),
        },
    }
}

#[via_fn]
proof fn spec_lex_from_dec(s: Seq<char>, i: int) {
    lemma_spec_next_token_bounds(s, i);
}

/// The token sequence of a whole text, or its first lexical error.
pub open spec fn spec_lex(s: Seq<char>) -> Result<Seq<TokenV>, LexErrV> {
    spec_lex_from(s, 0)
}

/// One step of the block resolver: a left-to-right pass that keeps the
/// indices of the open `if` tokens on a stack and, at each `end`, bakes the
/// current index into the most recently opened `if`.
pub open spec fn spec_resolve_at(
    toks: Seq<TokenV>,
    i: int,
    stack: Seq<int>,
    acc: Seq<TokenV>,
) -> Result<Seq<TokenV>, LexErrV>
    decreases toks.len() - i,
        when 0 <= i <= toks.len()
{
    if i >= toks.len() {
        if stack.len() > 0 {
            Err(LexErrV::UnclosedIf(stack.last() as usize))
        } else {
            Ok(acc)
        }
    } else {
        match toks[i] {
            TokenV::If(_) => spec_resolve_at(toks, i + 1, stack.push(i), acc),
            TokenV::End => {
                if stack.len() == 0 {
                    Err(LexErrV::UnmatchedEnd(i as usize))
                } else {
                    spec_resolve_at(
                        toks,
                        i + 1,
                        stack.drop_last(),
                        acc.update(stack.last(), TokenV::If(i as usize)),
                    )
                }
            },
            _ => spec_resolve_at(toks, i + 1, stack, acc),
        }
    }
}

/// The resolved form of a token sequence: identical, except that every `if`
/// carries the index of its matching `end`; or the first nesting violation.
pub open spec fn spec_resolve(toks: Seq<TokenV>) -> Result<Seq<TokenV>, LexErrV> {
    spec_resolve_at(toks, 0, Seq::empty(), toks)
}

/// The program a text names: its token sequence, resolved; or the first
/// error of either pass.
pub open spec fn spec_parse(s: Seq<char>) -> Result<Seq<TokenV>, LexErrV> {
    match spec_lex(s) {
        Ok(toks) => spec_resolve(toks),
        Err(e) => Err(e),
    }
}

/// The tokenizer: it owns the characters of the source text and a scanning
/// position.
#[derive(Debug)]
pub struct Lexer {
    chars: Vec<char>,
    pos: usize,
}

impl View for Lexer {
    type V = (Seq<char>, int);

    closed spec fn view(&self) -> (Seq<char>, int) {
        (self.chars@, self.pos as int)
    }
}

impl Lexer {
    /// Opens a source text for scanning, at its beginning.
    pub fn new(string: &str) -> (r: Self)
        ensures
            r@ == (string@, 0int),
    {
        Self { chars: str_to_chars(string), pos: 0 }
    }

    /// Moves the scanning position past any whitespace.
    fn trim_whitespace(&mut self)
        requires
            old(self)@.1 <= old(self)@.0.len(),
        ensures
            final(self)@.0 == old(self)@.0,
            final(self)@.1 == skip_space_idx(old(self)@.0, old(self)@.1),
            final(self)@.1 <= final(self)@.0.len(),
    {
        let ghost s = self.chars@;
        while self.pos < self.chars.len() && is_space_char(self.chars[self.pos])
            invariant
                self.chars@ == s,
                0 <= self.pos <= s.len(),
                skip_space_idx(s, old(self)@.1) == skip_space_idx(s, self.pos as int),
            decreases s.len() - self.pos,
        {
            self.pos = self.pos + 1;
        }
    }

    /// Scans a string literal: the position is at the opening quote, and the
    /// literal runs to the matching closing quote.
    fn parse_string(&mut self) -> (r: Result<Token, UnterminatedStringError>)
        requires
            old(self)@.1 < old(self)@.0.len(),
        ensures
            final(self)@.0 == old(self)@.0,
            ({
                let s = old(self)@.0;
                let j = old(self)@.1;
                let k = find_char_idx(s, j + 1, s[j]);
                if k >= s.len() {
                    r matches Err(_) && final(self)@.1 == s.len()
                } else {
                    r matches Ok(t) && t@ == RawV::StringLiteral(s.subrange(j + 1, k))
                        && final(self)@.1 == k + 1
                }
            }),
    {
        let ghost s = self.chars@;
        let ghost j = self.pos as int;
        let n: usize = self.chars.len();
        let quote: char = self.chars[self.pos];
        let start: usize = self.pos + 1;
        let mut i: usize = start;
        proof {
            lemma_find_char_idx(s, j + 1, s[j]);
        }
        while i < self.chars.len() && self.chars[i] != quote
            invariant
                self.chars@ == s,
                self.pos == j,
                quote == s[j],
                j + 1 <= i <= s.len(),
                start == j + 1,
                find_char_idx(s, j + 1, quote) == find_char_idx(s, i as int, quote),
            decreases s.len() - i,
        {
            i = i + 1;
        }
        if i < self.chars.len() {
            let lit: Vec<char> = subvec(&self.chars, start, i);
            self.pos = i + 1;
            Ok(Token::StringLiteral(lit))
        } else {
            self.pos = i;
            Err(UnterminatedStringError)
        }
    }

    /// Scans and checks a numeric literal: the whole whitespace-delimited
    /// word, which must be digits with at most one decimal point after an
    /// optional negative sign.
    fn parse_number(&mut self) -> (r: Result<Token, NumberParseError>)
        requires
            old(self)@.1 <= old(self)@.0.len(),
        ensures
            final(self)@.0 == old(self)@.0,
            ({
                let s = old(self)@.0;
                let j = old(self)@.1;
                let e = word_end_idx(s, j);
                let lit = s.subrange(j, e);
                final(self)@.1 == e && match validate_number(lit) {
                    Some(ev) => r matches Err(er) && er@ == ev,
                    None => r matches Ok(t) && t@ == RawV::NumericLiteral(lit),
                }
            }),
    {
        let ghost s = self.chars@;
        let ghost j = self.pos as int;
        let start: usize = self.pos;
        proof {
            lemma_word_end_idx(s, j);
        }
        let mut i: usize = start;
        while i < self.chars.len() && !is_space_char(self.chars[i])
            invariant
                self.chars@ == s,
                j <= i <= s.len(),
                start == j,
                word_end_idx(s, j) == word_end_idx(s, i as int),
            decreases s.len() - i,
        {
            i = i + 1;
        }
        self.pos = i;
        let lit: Vec<char> = subvec(&self.chars, start, i);
        let ghost litv = s.subrange(j, word_end_idx(s, j));
        proof {
            assert(lit@ == litv);
        }
        let neg: bool = lit.len() > 0 && lit[0] == '-';
        if neg && lit.len() == 1 {
            return Err(
                NumberParseError::new(
                    NumberParseErrorType::OnlyNegativeSign,
                    chars_to_string(&lit),
                    0,
                ),
            );
        }
        // Find the first and, if there is one, the second decimal point.
        proof {
            lemma_find_char_idx(litv, 0, '.');
        }
        let mut d1: usize = 0;
        while d1 < lit.len() && lit[d1] != '.'
            invariant
                lit@ == litv,
                0 <= d1 <= litv.len(),
                find_char_idx(litv, 0, '.') == find_char_idx(litv, d1 as int, '.'),
            decreases litv.len() - d1,
        {
            d1 = d1 + 1;
        }
        if d1 < lit.len() {
            let mut d2: usize = d1 + 1;
            proof {
                lemma_find_char_idx(litv, d1 + 1, '.');
            }
            while d2 < lit.len() && lit[d2] != '.'
                invariant
                    lit@ == litv,
                    d1 + 1 <= d2 <= litv.len(),
                    find_char_idx(litv, d1 + 1, '.') == find_char_idx(litv, d2 as int, '.'),
                decreases litv.len() - d2,
            {
                d2 = d2 + 1;
            }
            if d2 < lit.len() {
                return Err(
                    NumberParseError::new(
                        NumberParseErrorType::WrongFloat,
                        chars_to_string(&lit),
                        d2,
                    ),
                );
            }
        }
        // Scan for a character that belongs to no number.
        let start_check: usize = if neg {
            1
        } else {
            0
        };
        proof {
            lemma_first_bad_idx(litv, start_check as int);
        }
        let mut b: usize = start_check;
        while b < lit.len() && (is_digit_char(lit[b]) || lit[b] == '.')
            invariant
                lit@ == litv,
                start_check <= b <= litv.len(),
                first_bad_idx(litv, start_check as int) == first_bad_idx(litv, b as int),
            decreases litv.len() - b,
        {
            b = b + 1;
        }
        if b < lit.len() {
            return Err(
                NumberParseError::new(NumberParseErrorType::NonNumericChar, chars_to_string(&lit), b),
            );
        }
        Ok(Token::NumericLiteral(lit))
    }

    /// Scans a symbol: the whole whitespace-delimited word, verbatim.
    fn parse_symbol(&mut self) -> (r: Token)
        requires
            old(self)@.1 <= old(self)@.0.len(),
        ensures
            final(self)@.0 == old(self)@.0,
            ({
                let s = old(self)@.0;
                let j = old(self)@.1;
                let e = word_end_idx(s, j);
                final(self)@.1 == e && r@ == RawV::Symbol(s.subrange(j, e))
            }),
    {
        let ghost s = self.chars@;
        let ghost j = self.pos as int;
        let start: usize = self.pos;
        proof {
            lemma_word_end_idx(s, j);
        }
        let mut i: usize = start;
        while i < self.chars.len() && !is_space_char(self.chars[i])
            invariant
                self.chars@ == s,
                j <= i <= s.len(),
                start == j,
                word_end_idx(s, j) == word_end_idx(s, i as int),
            decreases s.len() - i,
        {
            i = i + 1;
        }
        self.pos = i;
        Token::Symbol(subvec(&self.chars, start, i))
    }

    /// Scans the next raw candidate, or reports the end of the text.
    fn next_raw(&mut self) -> (r: Result<Option<Token>, LexError>)
        requires
            old(self)@.1 <= old(self)@.0.len(),
        ensures
            final(self)@.0 == old(self)@.0,
            final(self)@.1 <= final(self)@.0.len(),
            ({
                let (res, n) = spec_next_raw(old(self)@.0, old(self)@.1);
                final(self)@.1 == n && match res {
                    Ok(None) => r matches Ok(ro) && ro is None,
                    Ok(Some(rv)) => r matches Ok(ro) && ro matches Some(t) && t@ == rv,
                    Err(ev) => r matches Err(er) && er@ == ev,
                }
            }),
    {
        let ghost s = self.chars@;
        let ghost i = self.pos as int;
        proof {
            lemma_skip_space_idx(s, i);
        }
        self.trim_whitespace();
        let ghost j = self.pos as int;
        if self.pos >= self.chars.len() {
            return Ok(None);
        }
        proof {
            lemma_word_end_idx(s, j);
            lemma_find_char_idx(s, j + 1, s[j]);
        }
        let c: char = self.chars[self.pos];
        let next_is_digit: bool = self.pos + 1 < self.chars.len() && is_digit_char(
            self.chars[self.pos + 1],
        );
        if c == '"' || c == '\'' {
            match self.parse_string() {
                Ok(t) => Ok(Some(t)),
                Err(e) => Err(LexError::UnterminatedString(e)),
            }
        } else if is_digit_char(c) || (c == '-' && next_is_digit) {
            match self.parse_number() {
                Ok(t) => Ok(Some(t)),
                Err(e) => Err(LexError::Number(e)),
            }
        } else {
            Ok(Some(self.parse_symbol()))
        }
    }

    /// Turns a validated numeric literal into its token: a float if it holds
    /// a decimal point, a signed or unsigned integer otherwise.
    fn convert_numeric(lit: Vec<char>) -> (r: Result<ILToken, LexError>)
        requires
            validate_number(lit@) is None,
            lit@.len() > 0,
            is_digit(lit@[0]) || (lit@[0] == '-' && lit@.len() > 1 && is_digit(lit@[1])),
        ensures
            match convert_number(lit@) {
                Ok(tv) => r matches Ok(t) && t@ == tv,
                Err(ev) => r matches Err(er) && er@ == ev,
            },
    {
        let ghost litv = lit@;
        let ghost neg = litv[0] == '-';
        let ghost start: int = if neg {
            1int
        } else {
            0int
        };
        proof {
            lemma_find_char_idx(litv, 0, '.');
            lemma_first_bad_idx(litv, start);
            let d1 = find_char_idx(litv, 0, '.');
            if d1 < litv.len() {
                lemma_find_char_idx(litv, d1 + 1, '.');
            }
        }
        // Find the decimal point, if any.
        let mut d1: usize = 0;
        while d1 < lit.len() && lit[d1] != '.'
            invariant
                lit@ == litv,
                0 <= d1 <= litv.len(),
                find_char_idx(litv, 0, '.') == find_char_idx(litv, d1 as int, '.'),
            decreases litv.len() - d1,
        {
            d1 = d1 + 1;
        }
        if d1 < lit.len() {
            // A float literal: digits with one decimal point, maybe signed.
            proof {
                let t = if neg {
                    litv.drop_first()
                } else {
                    litv
                };
                let fd = find_char_idx(litv, 0, '.') as int;
                assert(litv[fd] == '.');
                lemma_dot_count_split(t, if neg {
                    fd - 1
                } else {
                    fd
                });
                lemma_dot_count_zero(t.subrange((if neg {
                    fd - 1
                } else {
                    fd
                }) + 1, t.len() as int));
                assert(is_simple_decimal(litv));
            }
            let text: String = chars_to_string(&lit);
            let ob: Option<u64> = float_from_text(text.as_str());
            proof {
                assert(ob is Some);
            }
            let bits: u64 = ob.unwrap();
            Ok(ILToken::PushFloat(bits))
        } else if lit[0] == '-' {
            proof {
                assert(forall|k: int|
                    1 <= k < litv.len() ==> is_digit(#[trigger] litv[k]));
                assert(litv.drop_first().len() > 0);
                assert(forall|k: int|
                    0 <= k < litv.drop_first().len() ==> is_digit(
                        #[trigger] litv.drop_first()[k],
                    ));
            }
            match parse_i64_chars(&lit) {
                Some(v) => Ok(ILToken::PushSignedInteger(v)),
                None => Err(LexError::IntegerOutOfRange { literal: chars_to_string(&lit) }),
            }
        } else {
            proof {
                assert(forall|k: int|
                    0 <= k < litv.len() ==> is_digit(#[trigger] litv[k]));
            }
            match parse_u64_chars(&lit) {
                Some(v) => Ok(ILToken::PushUnsignedInteger(v)),
                None => Err(LexError::IntegerOutOfRange { literal: chars_to_string(&lit) }),
            }
        }
    }

    /// Scans the next token: raw scanning, then rewriting of the reserved
    /// symbols, with `fdef` taking the next word as its function name.
    fn next_processed(&mut self) -> (r: Result<Option<ILToken>, LexError>)
        requires
            old(self)@.1 <= old(self)@.0.len(),
        ensures
            final(self)@.0 == old(self)@.0,
            final(self)@.1 <= final(self)@.0.len(),
            ({
                let (res, n) = spec_next_token(old(self)@.0, old(self)@.1);
                final(self)@.1 == n && match res {
                    Ok(None) => r matches Ok(ro) && ro is None,
                    Ok(Some(tv)) => r matches Ok(ro) && ro matches Some(t) && t@ == tv,
                    Err(ev) => r matches Err(er) && er@ == ev,
                }
            }),
    {
        let ghost s = self.chars@;
        let ghost i = self.pos as int;
        proof {
            lemma_spec_next_token_bounds(s, i);
        }
        let raw: Option<Token> = match self.next_raw() {
            Ok(t) => t,
            Err(e) => {
                return Err(e);
            },
        };
        match raw {
            None => Ok(None),
            Some(Token::StringLiteral(t)) => Ok(Some(ILToken::PushString(chars_to_string(&t)))),
            Some(Token::NumericLiteral(lit)) => {
                proof {
                    lemma_skip_space_idx(s, i);
                    let j = skip_space_idx(s, i);
                    lemma_word_end_idx(s, j);
                    assert(lit@[0] == s[j]);
                    if s[j] == '-' {
                        assert(lit@[1] == s[j + 1]);
                    }
                }
                match Self::convert_numeric(lit) {
                    Ok(t) => Ok(Some(t)),
                    Err(e) => Err(e),
                }
            },
            Some(Token::Symbol(w)) => {
                if crate::text::chars_eq_str(&w, "if") {
                    Ok(Some(ILToken::If(0)))
                } else if crate::text::chars_eq_str(&w, "end") {
                    Ok(Some(ILToken::End))
                } else if crate::text::chars_eq_str(&w, "true") {
                    Ok(Some(ILToken::PushBool(true)))
                } else if crate::text::chars_eq_str(&w, "false") {
                    Ok(Some(ILToken::PushBool(false)))
                } else if crate::text::chars_eq_str(&w, "#") {
                    Ok(Some(ILToken::CommentMarker))
                } else if crate::text::chars_eq_str(&w, "fend") {
                    Ok(Some(ILToken::FuncEnd))
                } else if crate::text::chars_eq_str(&w, "fdef") {
                    self.trim_whitespace();
                    if self.pos >= self.chars.len() {
                        Err(LexError::MissingFunctionName)
                    } else {
                        let name: Token = self.parse_symbol();
                        match name {
                            Token::Symbol(nm) => Ok(
                                Some(ILToken::FuncDef(chars_to_string(&nm))),
                            ),
                            _ => Err(LexError::MissingFunctionName),
                        }
                    }
                } else {
                    Ok(Some(ILToken::Symbol(chars_to_string(&w))))
                }
            },
        }
    }

    /// The block resolver: matches each `if` with its `end` and bakes the
    /// `end`'s index into the `if` token, failing on any nesting violation.
    fn cross_reference_blocks(program: Vec<ILToken>) -> (r: Result<Vec<ILToken>, LexError>)
        ensures
            match r {
                Ok(res) => spec_resolve(toks_view(program@)) == Ok::<_, LexErrV>(toks_view(res@)),
                Err(e) => spec_resolve(toks_view(program@)) == Err::<Seq<TokenV>, _>(e@),
            },
    {
        let ghost toks = toks_view(program@);
        let mut result: Vec<ILToken> = program;
        let mut stack: Stack<usize> = Stack::new();
        let mut i: usize = 0;
        proof {
            assert(toks_view(result@) =~= toks);
            assert(stack@.map_values(|u: usize| u as int) =~= Seq::<int>::empty());
        }
        while i < result.len()
            invariant
                toks == toks_view(program@),
                0 <= i <= result@.len(),
                result@.len() == toks.len(),
                forall|k: int| 0 <= k < stack@.len() ==> 0 <= #[trigger] stack@[k] < i,
                forall|k: int| i <= k < toks.len() ==> toks_view(result@)[k] == toks[k],
                spec_resolve(toks) == spec_resolve_at(
                    toks,
                    i as int,
                    stack@.map_values(|u: usize| u as int),
                    toks_view(result@),
                ),
            decreases result@.len() - i,
        {
            let ghost stv = stack@.map_values(|u: usize| u as int);
            let ghost accv = toks_view(result@);
            let is_if: bool = match &result[i] {
                ILToken::If(_) => true,
                _ => false,
            };
            let is_end: bool = match &result[i] {
                ILToken::End => true,
                _ => false,
            };
            if is_if {
                stack.push(i);
                proof {
                    assert(toks[i as int] is If);
                    assert(stack@.map_values(|u: usize| u as int) =~= stv.push(i as int));
                    assert(spec_resolve_at(toks, i as int, stv, accv) == spec_resolve_at(
                        toks,
                        i + 1,
                        stv.push(i as int),
                        accv,
                    ));
                }
            } else if is_end {
                match stack.pop() {
                    Some(if_ip) => {
                        proof {
                            assert(stv[stv.len() - 1] == if_ip as int);
                        }
                        result[if_ip] = ILToken::If(i);
                        proof {
                            assert(toks[i as int] is End);
                            assert(stack@.map_values(|u: usize| u as int) =~= stv.drop_last());
                            assert(toks_view(result@) =~= accv.update(
                                stv.last(),
                                TokenV::If(i),
                            ));
                            assert(spec_resolve_at(toks, i as int, stv, accv) == spec_resolve_at(
                                toks,
                                i + 1,
                                stv.drop_last(),
                                accv.update(stv.last(), TokenV::If(i as usize)),
                            ));
                        }
                    },
                    None => {
                        proof {
                            assert(toks[i as int] is End);
                            assert(stv.len() == 0);
                            assert(spec_resolve_at(toks, i as int, stv, accv)
                                == Err::<Seq<TokenV>, LexErrV>(LexErrV::UnmatchedEnd(i)));
                        }
                        return Err(
                            LexError::Structure(StructuralError::UnmatchedEnd { position: i }),
                        );
                    },
                }
            } else {
                proof {
                    assert(!(toks[i as int] is If) && !(toks[i as int] is End));
                    assert(spec_resolve_at(toks, i as int, stv, accv) == spec_resolve_at(
                        toks,
                        i + 1,
                        stv,
                        accv,
                    ));
                }
            }
            i = i + 1;
        }
        let ghost stv = stack@.map_values(|u: usize| u as int);
        let ghost accv = toks_view(result@);
        match stack.pop() {
            Some(open_if) => {
                proof {
                    assert(stv[stv.len() - 1] == open_if as int);
                    assert(spec_resolve_at(toks, toks.len() as int, stv, accv)
                        == Err::<Seq<TokenV>, LexErrV>(LexErrV::UnclosedIf(open_if)));
                }
                Err(LexError::Structure(StructuralError::UnclosedIf { position: open_if }))
            },
            None => {
                proof {
                    assert(stv.len() == 0);
                    assert(spec_resolve_at(toks, toks.len() as int, stv, accv)
                        == Ok::<Seq<TokenV>, LexErrV>(accv));
                }
                Ok(result)
            },
        }
    }

    /// Scans the whole text and resolves its blocks: the program the text
    /// names, or the first error of either pass.
    pub fn parse(self) -> (r: Result<Vec<ILToken>, LexError>)
        ensures
            match r {
                Ok(p) => spec_parse(self@.0) == Ok::<_, LexErrV>(toks_view(p@)),
                Err(e) => spec_parse(self@.0) == Err::<Seq<TokenV>, _>(e@),
            },
    {
        let mut lexer = self;
        let ghost s = lexer.chars@;
        lexer.pos = 0;
        let mut program: Vec<ILToken> = Vec::new();
        proof {
            if spec_lex(s) is Ok {
                let all = spec_lex(s)->Ok_0;
                assert(toks_view(program@).add(all) =~= all);
            }
        }
        loop
            invariant
                s == self@.0,
                lexer.chars@ == s,
                lexer.pos <= s.len(),
                match spec_lex(s) {
                    Ok(all) => spec_lex_from(s, lexer.pos as int) matches Ok(rest) && all
                        == toks_view(program@).add(rest),
                    Err(e) => spec_lex_from(s, lexer.pos as int) == Err::<Seq<TokenV>, _>(e),
                },
            ensures
                spec_lex(s) == Ok::<Seq<TokenV>, LexErrV>(toks_view(program@)),
            decreases s.len() - lexer.pos,
        {
            let ghost p0 = lexer.pos as int;
            proof {
                lemma_spec_next_token_bounds(s, p0);
            }
            match lexer.next_processed() {
                Err(e) => {
                    proof {
                        assert(spec_lex_from(s, p0) == Err::<Seq<TokenV>, LexErrV>(e@));
                    }
                    return Err(e);
                },
                Ok(None) => {
                    proof {
                        assert(spec_lex_from(s, p0) == Ok::<_, LexErrV>(Seq::<TokenV>::empty()));
                        assert(toks_view(program@).add(Seq::<TokenV>::empty()) =~= toks_view(
                            program@,
                        ));
                    }
                    break ;
                },
                Ok(Some(tok)) => {
                    let ghost tv = tok@;
                    program.push(tok);
                    proof {
                        assert(toks_view(program@) =~= toks_view(program@.drop_last()).push(tv));
                        let n = spec_next_token(s, p0).1;
                        if spec_lex_from(s, n) is Ok {
                            let rest = spec_lex_from(s, n)->Ok_0;
                            assert(spec_lex_from(s, p0) == Ok::<Seq<TokenV>, LexErrV>(
                                seq![tv].add(rest),
                            ));
                            assert(toks_view(program@.drop_last()).add(seq![tv].add(rest))
                                =~= toks_view(program@).add(rest));
                        } else {
                            assert(spec_lex_from(s, p0) == spec_lex_from(s, n));
                        }
                    }
                },
            }
        }
        Self::cross_reference_blocks(program)
    }
}

} // verus!
