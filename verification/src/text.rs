//! Characters, text and decimal numbers: the shared ground under the
//! tokenizer and the execution engine. Token separation, trimming and
//! integer parsing and printing are all defined here against spec-level
//! sequences of characters.

use vstd::prelude::*;
use vstd::string::StrSliceExecFns;
use vstd::string::StringExecFns;

verus! {

/// Characters that separate tokens and are trimmed from numeric input
/// lines: exactly the ASCII whitespace characters. Unicode-only whitespace,
/// such as a no-break space, is an ordinary character here and does not
/// separate tokens.
pub open spec fn is_space(c: char) -> bool {
    c == ' ' || c == '\t' || c == '\n' || c == '\r' || c == '\x0c'
}

/// Runtime test for `is_space`.
pub fn is_space_char(c: char) -> (r: bool)
    ensures
        r == is_space(c),
{
    c == ' ' || c == '\t' || c == '\n' || c == '\r' || c == '\x0c'
}

/// A decimal digit.
pub open spec fn is_digit(c: char) -> bool {
    48 <= c as u32 <= 57
}

/// The numeric value of a decimal digit.
pub open spec fn digit_val(c: char) -> nat {
    (c as u32 - 48) as nat
}

/// Runtime test for `is_digit`.
pub fn is_digit_char(c: char) -> (r: bool)
    ensures
        r == is_digit(c),
{
    let u: u32 = c as u32;
    48 <= u && u <= 57
}

/// The digit character for a value below ten.
pub open spec fn digit_char(d: nat) -> char {
    if d == 0 {
        '0'
    } else if d == 1 {
        '1'
    } else if d == 2 {
        '2'
    } else if d == 3 {
        '3'
    } else if d == 4 {
        '4'
    } else if d == 5 {
        '5'
    } else if d == 6 {
        '6'
    } else if d == 7 {
        '7'
    } else if d == 8 {
        '8'
    } else {
        '9'
    }
}

/// Runtime counterpart of `digit_char`.
pub fn digit_to_char(d: u64) -> (r: char)
    requires
        d < 10,
    ensures
        r == digit_char(d as nat),
{
    if d == 0 {
        '0'
    } else if d == 1 {
        '1'
    } else if d == 2 {
        '2'
    } else if d == 3 {
        '3'
    } else if d == 4 {
        '4'
    } else if d == 5 {
        '5'
    } else if d == 6 {
        '6'
    } else if d == 7 {
        '7'
    } else if d == 8 {
        '8'
    } else {
        '9'
    }
}

/// The first position at or after `i` that does not hold a space, or the end
/// of the text.
pub open spec fn skip_space_idx(s: Seq<char>, i: int) -> int
    decreases s.len() - i,
{
    if 0 <= i < s.len() && is_space(s[i]) {
        skip_space_idx(s, i + 1)
    } else {
        i
    }
}

pub proof fn lemma_skip_space_idx(s: Seq<char>, i: int)
    requires
        0 <= i <= s.len(),
    ensures
        i <= skip_space_idx(s, i) <= s.len(),
        skip_space_idx(s, i) < s.len() ==> !is_space(s[skip_space_idx(s, i)]),
        forall|j: int| i <= j < skip_space_idx(s, i) ==> is_space(s[j]),
    decreases s.len() - i,
{
    if i < s.len() && is_space(s[i]) {
        lemma_skip_space_idx(s, i + 1);
    }
}

/// The first position at or after `i` that holds a space, or the end of the
/// text: the end of the token that starts at `i`.
pub open spec fn word_end_idx(s: Seq<char>, i: int) -> int
    decreases s.len() - i,
{
    if 0 <= i < s.len() && !is_space(s[i]) {
        word_end_idx(s, i + 1)
    } else {
        i
    }
}

pub proof fn lemma_word_end_idx(s: Seq<char>, i: int)
    requires
        0 <= i <= s.len(),
    ensures
        i <= word_end_idx(s, i) <= s.len(),
        word_end_idx(s, i) < s.len() ==> is_space(s[word_end_idx(s, i)]),
        forall|j: int| i <= j < word_end_idx(s, i) ==> !is_space(s[j]),
        i < s.len() && !is_space(s[i]) ==> word_end_idx(s, i) > i,
    decreases s.len() - i,
{
    if i < s.len() && !is_space(s[i]) {
        lemma_word_end_idx(s, i + 1);
    }
}

/// The first position at or after `i` that holds the character `q`, or the
/// end of the text.
pub open spec fn find_char_idx(s: Seq<char>, i: int, q: char) -> int
    decreases s.len() - i,
{
    if 0 <= i < s.len() {
        if s[i] == q {
            i
        } else {
            find_char_idx(s, i + 1, q)
        }
    } else {
        s.len() as int
    }
}

pub proof fn lemma_find_char_idx(s: Seq<char>, i: int, q: char)
    requires
        0 <= i <= s.len(),
    ensures
        i <= find_char_idx(s, i, q) <= s.len(),
        find_char_idx(s, i, q) < s.len() ==> s[find_char_idx(s, i, q)] == q,
        forall|j: int| i <= j < find_char_idx(s, i, q) ==> s[j] != q,
    decreases s.len() - i,
{
    if i < s.len() && s[i] != q {
        lemma_find_char_idx(s, i + 1, q);
    }
}

/// The first position at or after `i` that holds neither a digit nor a
/// decimal point, or the end of the text.
pub open spec fn first_bad_idx(s: Seq<char>, i: int) -> int
    decreases s.len() - i,
{
    if 0 <= i < s.len() {
        if is_digit(s[i]) || s[i] == '.' {
            first_bad_idx(s, i + 1)
        } else {
            i
        }
    } else {
        s.len() as int
    }
}

pub proof fn lemma_first_bad_idx(s: Seq<char>, i: int)
    requires
        0 <= i <= s.len(),
    ensures
        i <= first_bad_idx(s, i) <= s.len(),
        first_bad_idx(s, i) < s.len() ==> !(is_digit(s[first_bad_idx(s, i)]) || s[first_bad_idx(
            s,
            i,
        )] == '.'),
        forall|j: int|
            i <= j < first_bad_idx(s, i) ==> is_digit(#[trigger] s[j]) || s[j] == '.',
    decreases s.len() - i,
{
    if i < s.len() && (is_digit(s[i]) || s[i] == '.') {
        lemma_first_bad_idx(s, i + 1);
    }
}

/// The position after the last non-space strictly before `j`, walking down.
pub open spec fn rskip_space_idx(s: Seq<char>, j: int) -> int
    decreases j,
{
    if 0 < j <= s.len() && is_space(s[j - 1]) {
        rskip_space_idx(s, j - 1)
    } else {
        j
    }
}

pub proof fn lemma_rskip_space_idx(s: Seq<char>, j: int)
    requires
        0 <= j <= s.len(),
    ensures
        0 <= rskip_space_idx(s, j) <= j,
    decreases j,
{
    if 0 < j && is_space(s[j - 1]) {
        lemma_rskip_space_idx(s, j - 1);
    }
}

/// The text with leading and trailing spaces removed.
pub open spec fn trim_of(s: Seq<char>) -> Seq<char> {
    let a = skip_space_idx(s, 0);
    let b = rskip_space_idx(s, s.len() as int);
    if a >= b {
        Seq::<char>::empty()
    } else {
        s.subrange(a, b)
    }
}

/// The characters of a text, in order.
pub fn str_to_chars(s: &str) -> (r: Vec<char>)
    ensures
        r@ == s@,
{
    let n: usize = s.unicode_len();
    let mut r: Vec<char> = Vec::new();
    let mut i: usize = 0;
    while i < n
        invariant
            n == s@.len(),
            0 <= i <= n,
            r@ == s@.subrange(0, i as int),
        decreases n - i,
    {
        r.push(s.get_char(i));
        i = i + 1;
        proof {
            assert(r@ =~= s@.subrange(0, i as int));
        }
    }
    proof {
        assert(r@ =~= s@);
    }
    r
}

/// Relies on `String::push` of std: it appends exactly the given character.
#[verifier::external_body]
pub(crate) fn string_push_char(s: &mut String, c: char)
    ensures
        final(s)@ == old(s)@.push(c),
{
    s.push(c);
}

/// The text made of the given characters, in order.
pub fn chars_to_string(v: &Vec<char>) -> (r: String)
    ensures
        r@ == v@,
{
    let mut r: String = String::new();
    let mut i: usize = 0;
    while i < v.len()
        invariant
            0 <= i <= v@.len(),
            r@ == v@.subrange(0, i as int),
        decreases v@.len() - i,
    {
        string_push_char(&mut r, v[i]);
        i = i + 1;
        proof {
            assert(r@ =~= v@.subrange(0, i as int));
        }
    }
    proof {
        assert(r@ =~= v@);
    }
    r
}

/// Whether the characters spell exactly the given text.
pub fn chars_eq_str(v: &Vec<char>, s: &str) -> (r: bool)
    ensures
        r == (v@ == s@),
{
    let n: usize = s.unicode_len();
    if n != v.len() {
        return false;
    }
    let mut i: usize = 0;
    while i < n
        invariant
            n == s@.len(),
            n == v@.len(),
            0 <= i <= n,
            forall|j: int| 0 <= j < i ==> v@[j] == s@[j],
        decreases n - i,
    {
        if v[i] != s.get_char(i) {
            return false;
        }
        i = i + 1;
    }
    proof {
        assert(v@ =~= s@);
    }
    true
}

/// The characters from `a` (inclusive) to `b` (exclusive).
pub fn subvec(v: &Vec<char>, a: usize, b: usize) -> (r: Vec<char>)
    requires
        a <= b <= v@.len(),
    ensures
        r@ == v@.subrange(a as int, b as int),
{
    let mut r: Vec<char> = Vec::new();
    let mut i: usize = a;
    while i < b
        invariant
            a <= i <= b <= v@.len(),
            r@ == v@.subrange(a as int, i as int),
        decreases b - i,
    {
        r.push(v[i]);
        i = i + 1;
        proof {
            assert(r@ =~= v@.subrange(a as int, i as int));
        }
    }
    r
}

/// The characters with leading and trailing spaces removed.
pub fn trim_chars(v: &Vec<char>) -> (r: Vec<char>)
    ensures
        r@ == trim_of(v@),
{
    let ghost s = v@;
    let mut a: usize = 0;
    while a < v.len() && is_space_char(v[a])
        invariant
            0 <= a <= s.len(),
            s == v@,
            skip_space_idx(s, 0) == skip_space_idx(s, a as int),
        decreases s.len() - a,
    {
        a = a + 1;
    }
    let mut b: usize = v.len();
    while b > a && is_space_char(v[b - 1])
        invariant
            a <= b <= s.len(),
            s == v@,
            a == skip_space_idx(s, 0),
            a < s.len() ==> !is_space(s[a as int]),
            rskip_space_idx(s, s.len() as int) == rskip_space_idx(s, b as int),
        decreases b,
    {
        b = b - 1;
    }
    if b <= a {
        proof {
            lemma_rskip_space_idx(s, b as int);
            assert(trim_of(s) =~= Seq::<char>::empty());
        }
        Vec::new()
    } else {
        subvec(v, a, b)
    }
}

/// All characters are decimal digits.
pub open spec fn all_digits(s: Seq<char>) -> bool {
    forall|i: int| 0 <= i < s.len() ==> is_digit(s[i])
}

/// The value of a string of decimal digits.
pub open spec fn dec_val(s: Seq<char>) -> nat
    decreases s.len(),
{
    if s.len() == 0 {
        0
    } else {
        dec_val(s.drop_last()) * 10 + digit_val(s.last())
    }
}

pub proof fn lemma_dec_val_snoc(s: Seq<char>, c: char)
    ensures
        dec_val(s.push(c)) == dec_val(s) * 10 + digit_val(c),
{
    assert(s.push(c).drop_last() =~= s);
    assert(s.push(c).last() == c);
}

/// The value of a digit string never shrinks as the string grows rightward.
pub proof fn lemma_dec_val_prefix_le(s: Seq<char>, i: int)
    requires
        0 <= i <= s.len(),
    ensures
        dec_val(s.subrange(0, i)) <= dec_val(s),
    decreases s.len() - i,
{
    if i == s.len() {
        assert(s.subrange(0, i) =~= s);
    } else {
        assert(s.subrange(0, i + 1) =~= s.subrange(0, i).push(s[i]));
        lemma_dec_val_snoc(s.subrange(0, i), s[i]);
        lemma_dec_val_prefix_le(s, i + 1);
    }
}

/// How many decimal points the text holds.
pub open spec fn dot_count(s: Seq<char>) -> nat
    decreases s.len(),
{
    if s.len() == 0 {
        0nat
    } else {
        (if s[0] == '.' {
            1nat
        } else {
            0nat
        }) + dot_count(s.drop_first())
    }
}

/// A text without a decimal point has none to count.
pub proof fn lemma_dot_count_zero(s: Seq<char>)
    requires
        forall|j: int| 0 <= j < s.len() ==> s[j] != '.',
    ensures
        dot_count(s) == 0,
    decreases s.len(),
{
    if s.len() > 0 {
        lemma_dot_count_zero(s.drop_first());
    }
}

/// Counting restarts after the first decimal point.
pub proof fn lemma_dot_count_split(s: Seq<char>, d: int)
    requires
        0 <= d < s.len(),
        s[d] == '.',
        forall|j: int| 0 <= j < d ==> s[j] != '.',
    ensures
        dot_count(s) == 1 + dot_count(s.subrange(d + 1, s.len() as int)),
    decreases s.len(),
{
    if d == 0 {
        assert(s.drop_first() =~= s.subrange(1, s.len() as int));
    } else {
        lemma_dot_count_split(s.drop_first(), d - 1);
        assert(s.drop_first().subrange(d, s.drop_first().len() as int) =~= s.subrange(
            d + 1,
            s.len() as int,
        ));
    }
}

/// What parsing a text as a `u64` yields: an optional plus sign, then at
/// least one digit, naming a value that fits.
pub open spec fn spec_parse_u64(s: Seq<char>) -> Option<u64> {
    let t = if s.len() > 0 && s[0] == '+' {
        s.drop_first()
    } else {
        s
    };
    if t.len() > 0 && all_digits(t) && dec_val(t) <= u64::MAX {
        Some(dec_val(t) as u64)
    } else {
        None
    }
}

/// What parsing a text as an `i64` yields: an optional sign, then at least
/// one digit, naming a value that fits.
pub open spec fn spec_parse_i64(s: Seq<char>) -> Option<i64> {
    if s.len() > 0 && s[0] == '-' {
        let t = s.drop_first();
        if t.len() > 0 && all_digits(t) && dec_val(t) <= 0x8000_0000_0000_0000 {
            Some((-(dec_val(t) as int)) as i64)
        } else {
            None
        }
    } else {
        let t = if s.len() > 0 && s[0] == '+' {
            s.drop_first()
        } else {
            s
        };
        if t.len() > 0 && all_digits(t) && dec_val(t) <= i64::MAX {
            Some(dec_val(t) as i64)
        } else {
            None
        }
    }
}

/// Reads the digits `v[from..]` as a value, refusing anything that is not a
/// digit and any value above `bound`.
fn parse_digits(v: &Vec<char>, from: usize, bound: u64) -> (r: Option<u64>)
    requires
        from <= v@.len(),
    ensures
        ({
            let t = v@.subrange(from as int, v@.len() as int);
            if t.len() > 0 && all_digits(t) && dec_val(t) <= bound {
                r == Some(dec_val(t) as u64)
            } else {
                r is None
            }
        }),
{
    let ghost t = v@.subrange(from as int, v@.len() as int);
    if from == v.len() {
        return None;
    }
    let mut acc: u64 = 0;
    let mut i: usize = from;
    while i < v.len()
        invariant
            from <= i <= v@.len(),
            t == v@.subrange(from as int, v@.len() as int),
            all_digits(t.subrange(0, i - from)),
            acc == dec_val(t.subrange(0, i - from)),
            acc <= bound,
        decreases v@.len() - i,
    {
        let c: char = v[i];
        proof {
            assert(t[i - from] == v@[i as int]);
        }
        if !is_digit_char(c) {
            return None;
        }
        let d: u64 = (c as u32 - 48) as u64;
        let wide: u128 = acc as u128 * 10 + d as u128;
        proof {
            assert(t.subrange(0, i + 1 - from) =~= t.subrange(0, i - from).push(t[i - from]));
            lemma_dec_val_snoc(t.subrange(0, i - from), t[i - from]);
        }
        if wide > bound as u128 {
            proof {
                lemma_dec_val_prefix_le(t, i + 1 - from);
            }
            return None;
        }
        acc = wide as u64;
        i = i + 1;
    }
    proof {
        assert(t.subrange(0, t.len() as int) =~= t);
    }
    Some(acc)
}

/// Parses a text as a `u64`, exactly as its decimal form allows.
pub fn parse_u64_chars(v: &Vec<char>) -> (r: Option<u64>)
    ensures
        r == spec_parse_u64(v@),
{
    let from: usize = if v.len() > 0 && v[0] == '+' {
        1
    } else {
        0
    };
    proof {
        if from == 1 {
            assert(v@.subrange(1, v@.len() as int) =~= v@.drop_first());
        } else {
            assert(v@.subrange(0, v@.len() as int) =~= v@);
        }
    }
    parse_digits(v, from, u64::MAX)
}

/// Parses a text as an `i64`, exactly as its decimal form allows.
pub fn parse_i64_chars(v: &Vec<char>) -> (r: Option<i64>)
    ensures
        r == spec_parse_i64(v@),
{
    if v.len() > 0 && v[0] == '-' {
        proof {
            assert(v@.subrange(1, v@.len() as int) =~= v@.drop_first());
        }
        match parse_digits(v, 1, 0x8000_0000_0000_0000) {
            Some(m) => {
                if m == 0x8000_0000_0000_0000 {
                    Some(i64::MIN)
                } else {
                    Some(-(m as i64))
                }
            },
            None => None,
        }
    } else {
        let from: usize = if v.len() > 0 && v[0] == '+' {
            1
        } else {
            0
        };
        proof {
            if from == 1 {
                assert(v@.subrange(1, v@.len() as int) =~= v@.drop_first());
            } else {
                assert(v@.subrange(0, v@.len() as int) =~= v@);
            }
        }
        match parse_digits(v, from, i64::MAX as u64) {
            Some(m) => Some(m as i64),
            None => None,
        }
    }
}

/// The decimal form of an unsigned value.
pub open spec fn u64_text(n: nat) -> Seq<char>
    decreases n,
{
    if n < 10 {
        seq![digit_char(n)]
    } else {
        u64_text(n / 10).push(digit_char(n % 10))
    }
}

/// The decimal form of a signed value.
pub open spec fn i64_text(n: int) -> Seq<char> {
    if n >= 0 {
        u64_text(n as nat)
    } else {
        seq!['-'].add(u64_text((-n) as nat))
    }
}

/// Writes an unsigned value in decimal.
pub fn u64_string(n: u64) -> (r: String)
    ensures
        r@ == u64_text(n as nat),
    decreases n,
{
    if n < 10 {
        let mut s: String = String::new();
        string_push_char(&mut s, digit_to_char(n));
        proof {
            assert(s@ =~= u64_text(n as nat));
        }
        s
    } else {
        let mut s: String = u64_string(n / 10);
        string_push_char(&mut s, digit_to_char(n % 10));
        s
    }
}

/// Writes a signed value in decimal.
pub fn i64_string(n: i64) -> (r: String)
    ensures
        r@ == i64_text(n as int),
{
    if n >= 0 {
        u64_string(n as u64)
    } else {
        let mag: u64 = if n == i64::MIN {
            9223372036854775808u64
        } else {
            (-n) as u64
        };
        let mut s: String = String::new();
        string_push_char(&mut s, '-');
        let digits: String = u64_string(mag);
        s.append(digits.as_str());
        proof {
            assert(s@ =~= i64_text(n as int));
        }
        s
    }
}

/// A numeric literal that names a decimal value: an optional negative sign,
/// then digits with at most one decimal point among them, starting with a
/// digit.
pub open spec fn is_simple_decimal(s: Seq<char>) -> bool {
    let t = if s.len() > 0 && s[0] == '-' {
        s.drop_first()
    } else {
        s
    };
    &&& t.len() > 0
    &&& is_digit(t[0])
    &&& dot_count(t) <= 1
    &&& forall|i: int| 0 <= i < t.len() ==> is_digit(t[i]) || t[i] == '.'
}

} // verus!
