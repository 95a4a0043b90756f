//! Cutting Qwy Script source code into tokens.

use vstd::prelude::*;

use super::model::Tok;
use super::values::{tokens_view, Span, Token};

verus! {

/// Whether `c` has the Unicode `White_Space` property.
pub open spec fn spec_is_whitespace(c: char) -> bool {
    let u = c as u32;
    (0x9 <= u <= 0xD) || u == 0x20 || u == 0x85 || u == 0xA0 || u == 0x1680 || (0x2000 <= u
        <= 0x200A) || u == 0x2028 || u == 0x2029 || u == 0x202F || u == 0x205F || u == 0x3000
}

/// `char::is_whitespace`, which is true exactly of the characters that have
/// the Unicode `White_Space` property (the list in `spec_is_whitespace`).
#[verifier::external_body]
pub(crate) fn is_whitespace(c: char) -> (r: bool)
    ensures
        r == spec_is_whitespace(c),
{
    c.is_whitespace()
}

/// `String::push`, which appends the character at the end of the string.
#[verifier::external_body]
pub(crate) fn push_char(s: &mut String, c: char)
    ensures
        final(s)@ == old(s)@.push(c),
{
    s.push(c)
}

pub open spec fn spec_is_ascii_alphabetic(c: char) -> bool {
    ('a' <= c && c <= 'z') || ('A' <= c && c <= 'Z')
}

pub open spec fn spec_is_ascii_digit(c: char) -> bool {
    '0' <= c && c <= '9'
}

/// A character that can start a word.
pub open spec fn is_word_start(c: char) -> bool {
    spec_is_ascii_alphabetic(c) || c == '_'
}

/// A character that can continue a word.
pub open spec fn is_word_char(c: char) -> bool {
    spec_is_ascii_alphabetic(c) || spec_is_ascii_digit(c) || c == '_'
}

/// The token that a one-character punctuation stands for.
pub open spec fn punctuation(c: char) -> Option<Tok> {
    if c == '(' {
        Some(Tok::OpenParenthesis)
    } else if c == ')' {
        Some(Tok::CloseParenthesis)
    } else if c == ',' {
        Some(Tok::Comma)
    } else if c == '{' {
        Some(Tok::OpenCurly)
    } else if c == '}' {
        Some(Tok::CloseCurly)
    } else if c == ';' {
        Some(Tok::Semicolon)
    } else if c == '$' {
        Some(Tok::Sigil)
    } else {
        None
    }
}

/// The first index at or after `j` that does not continue a word.
pub open spec fn word_end(s: Seq<char>, j: int) -> int
    decreases s.len() - j,
{
    if j >= s.len() || !is_word_char(s[j]) {
        j
    } else {
        word_end(s, j + 1)
    }
}

/// The first index at or after `j` that is not a digit.
pub open spec fn digits_end(s: Seq<char>, j: int) -> int
    decreases s.len() - j,
{
    if j >= s.len() || !spec_is_ascii_digit(s[j]) {
        j
    } else {
        digits_end(s, j + 1)
    }
}

/// The decimal value of a sequence of digits.
pub open spec fn digits_value(d: Seq<char>) -> int
    decreases d.len(),
{
    if d.len() == 0 {
        0
    } else {
        digits_value(d.drop_last()) * 10 + (d.last() as int - '0' as int)
    }
}

/// The value of the digits is computed digit by digit as `value * 10 + code(digit) - code('0')`
/// in `i32`, and no intermediate result overflows.
pub open spec fn digits_fit(d: Seq<char>) -> bool
    decreases d.len(),
{
    d.len() == 0 || (digits_fit(d.drop_last()) && digits_value(d.drop_last()) * 10 + (
    d.last() as int) <= i32::MAX)
}

/// The tokens of `s` from index `i` on.
pub open spec fn spec_tokenize(s: Seq<char>, i: int) -> Seq<(Tok, Span)>
    decreases s.len() - i,
{
    if i < 0 || i >= s.len() {
        Seq::empty()
    } else if spec_is_whitespace(s[i]) {
        spec_tokenize(s, i + 1)
    } else if is_word_start(s[i]) {
        let j = word_end(s, i + 1);
        if i < j <= s.len() {
            seq![(Tok::Word(s.subrange(i, j)), Span { start: i as usize, end: (j - 1) as usize })]
                + spec_tokenize(s, j)
        } else {
            Seq::empty()
        }
    } else if spec_is_ascii_digit(s[i]) {
        let j = digits_end(s, i + 1);
        if i < j <= s.len() {
            seq![
                (
                    Tok::Integer(digits_value(s.subrange(i, j)) as i32),
                    Span { start: i as usize, end: (j - 1) as usize },
                ),
            ] + spec_tokenize(s, j)
        } else {
            Seq::empty()
        }
    } else {
        match punctuation(s[i]) {
            Some(t) => seq![(t, Span { start: i as usize, end: i as usize })] + spec_tokenize(
                s,
                i + 1,
            ),
            None => Seq::empty(),
        }
    }
}

/// Whether the tokenizer accepts `s` from index `i` on: every token starts with a
/// whitespace, a letter, `_`, a digit or one of `(),{};$`, and no integer literal overflows.
pub open spec fn can_tokenize(s: Seq<char>, i: int) -> bool
    decreases s.len() - i,
{
    if i < 0 || i >= s.len() {
        true
    } else if spec_is_whitespace(s[i]) {
        can_tokenize(s, i + 1)
    } else if is_word_start(s[i]) {
        let j = word_end(s, i + 1);
        i < j <= s.len() && can_tokenize(s, j)
    } else if spec_is_ascii_digit(s[i]) {
        let j = digits_end(s, i + 1);
        i < j <= s.len() && digits_fit(s.subrange(i, j)) && can_tokenize(s, j)
    } else {
        punctuation(s[i]) is Some && can_tokenize(s, i + 1)
    }
}


/// The characters of a string, in order.
pub(crate) fn chars_of(s: &str) -> (r: Vec<char>)
    ensures
        r@ == s@,
{
    let mut v: Vec<char> = Vec::new();
    for c in it: s.chars()
        invariant
            v@ == it.seq().take(it.index() as int),
    {
        v.push(c);
    }
    v
}


fn is_ascii_alphabetic(c: char) -> (r: bool)
    ensures
        r == spec_is_ascii_alphabetic(c),
{
    ('a' <= c && c <= 'z') || ('A' <= c && c <= 'Z')
}

pub(crate) fn is_ascii_digit(c: char) -> (r: bool)
    ensures
        r == spec_is_ascii_digit(c),
{
    '0' <= c && c <= '9'
}

proof fn lemma_digits_end_ge(s: Seq<char>, k: int)
    ensures
        digits_end(s, k) >= k,
    decreases s.len() - k,
{
    if k < s.len() && spec_is_ascii_digit(s[k]) {
        lemma_digits_end_ge(s, k + 1);
    }
}

proof fn lemma_digits_end_le(s: Seq<char>, k: int)
    requires
        k <= s.len(),
    ensures
        digits_end(s, k) <= s.len(),
    decreases s.len() - k,
{
    if k < s.len() && spec_is_ascii_digit(s[k]) {
        lemma_digits_end_le(s, k + 1);
    }
}

proof fn lemma_digits_fit_prefix(d: Seq<char>, k: int)
    requires
        digits_fit(d),
        0 <= k <= d.len(),
    ensures
        digits_fit(d.subrange(0, k)),
    decreases d.len() - k,
{
    if k < d.len() {
        lemma_digits_fit_prefix(d.drop_last(), k);
        assert(d.drop_last().subrange(0, k) =~= d.subrange(0, k));
    } else {
        assert(d.subrange(0, k) =~= d);
    }
}

proof fn lemma_digits_value_nonneg(d: Seq<char>)
    requires
        forall|i: int| 0 <= i < d.len() ==> spec_is_ascii_digit(#[trigger] d[i]),
    ensures
        digits_value(d) >= 0,
    decreases d.len(),
{
    if d.len() > 0 {
        lemma_digits_value_nonneg(d.drop_last());
    }
}

proof fn lemma_tokens_view_push(tokens: Seq<(Token, Span)>, t: (Token, Span))
    ensures
        tokens_view(tokens.push(t)) == tokens_view(tokens).push((t.0@, t.1)),
{
    assert(tokens_view(tokens.push(t)) =~= tokens_view(tokens).push((t.0@, t.1)));
}

/// Cuts the source code into tokens, each with the span of the characters it was made from.
pub fn tokenize(qwy_script_code: &str) -> (tokens: Vec<(Token, Span)>)
    requires
        can_tokenize(qwy_script_code@, 0),
    ensures
        tokens_view(tokens@) == spec_tokenize(qwy_script_code@, 0),
{
    let ghost s = qwy_script_code@;
    let chars = chars_of(qwy_script_code);
    let n = chars.len();
    let mut tokens: Vec<(Token, Span)> = Vec::new();
    let mut i: usize = 0;
    while i < n
        invariant
            chars@ == s,
            n == s.len(),
            i <= n,
            can_tokenize(s, i as int),
            spec_tokenize(s, 0) == tokens_view(tokens@) + spec_tokenize(s, i as int),
        decreases n - i,
    {
        let c = chars[i];
        if is_whitespace(c) {
            i = i + 1;
        } else if is_ascii_alphabetic(c) || c == '_' {
            let mut word = String::new();
            let start = i;
            let mut end = i;
            while i < n && (is_ascii_alphabetic(chars[i]) || is_ascii_digit(chars[i]) || chars[i]
                == '_')
                invariant
                    chars@ == s,
                    n == s.len(),
                    start <= i <= n,
                    start < n,
                    is_word_start(s[start as int]),
                    word@ == s.subrange(start as int, i as int),
                    i > start ==> end == i - 1,
                    i > start ==> word_end(s, start + 1) == word_end(s, i as int),
                decreases n - i,
            {
                push_char(&mut word, chars[i]);
                end = i;
                i = i + 1;
            }
            proof {
                lemma_tokens_view_push(tokens@, (Token::Word(word), Span { start, end }));
            }
            tokens.push((Token::Word(word), Span { start, end }));
            proof {
                assert(spec_tokenize(s, start as int) == seq![(Tok::Word(s.subrange(start as int, i as int)), Span { start, end })] + spec_tokenize(s, i as int));
                assert(spec_tokenize(s, 0) =~= tokens_view(tokens@) + spec_tokenize(s, i as int));
            }
        } else if is_ascii_digit(c) {
            let mut value: i32 = 0;
            let start = i;
            let mut end = i;
            let ghost j = digits_end(s, start + 1);
            proof {
                assert(digits_fit(s.subrange(start as int, j)));
            }
            while i < n && is_ascii_digit(chars[i])
                invariant
                    chars@ == s,
                    n == s.len(),
                    start <= i <= n,
                    start < n,
                    spec_is_ascii_digit(s[start as int]),
                    j == digits_end(s, start + 1),
                    start < j <= n,
                    digits_fit(s.subrange(start as int, j)),
                    value == digits_value(s.subrange(start as int, i as int)),
                    forall|k: int| start <= k < i ==> spec_is_ascii_digit(#[trigger] s[k]),
                    i > start ==> end == i - 1,
                    i > start ==> j == digits_end(s, i as int),
                    i <= j,
                decreases n - i,
            {
                let d = chars[i];
                proof {
                    if i > start {
                        lemma_digits_end_ge(s, i + 1);
                        assert(i < j);
                    }
                    lemma_digits_fit_prefix(s.subrange(start as int, j), i - start + 1);
                    assert(s.subrange(start as int, j).subrange(0, i - start + 1) =~= s.subrange(start as int, i + 1));
                    assert(s.subrange(start as int, i + 1).drop_last() =~= s.subrange(start as int, i as int));
                    lemma_digits_value_nonneg(s.subrange(start as int, i as int));
                }
                value = value * 10 + d as i32 - '0' as i32;
                end = i;
                i = i + 1;
            }
            proof {
                lemma_tokens_view_push(tokens@, (Token::Integer(value), Span { start, end }));
            }
            tokens.push((Token::Integer(value), Span { start, end }));
            proof {
                assert(spec_tokenize(s, start as int) == seq![(Tok::Integer(value), Span { start, end })] + spec_tokenize(s, i as int));
                assert(spec_tokenize(s, 0) =~= tokens_view(tokens@) + spec_tokenize(s, i as int));
            }
        } else {
            let token = if c == '(' {
                Token::OpenParenthesis
            } else if c == ')' {
                Token::CloseParenthesis
            } else if c == ',' {
                Token::Comma
            } else if c == '{' {
                Token::OpenCurly
            } else if c == '}' {
                Token::CloseCurly
            } else if c == ';' {
                Token::Semicolon
            } else {
                Token::Sigil
            };
            proof {
                lemma_tokens_view_push(tokens@, (token, Span { start: i, end: i }));
            }
            tokens.push((token, Span { start: i, end: i }));
            i = i + 1;
            proof {
                assert(spec_tokenize(s, 0) =~= tokens_view(tokens@) + spec_tokenize(s, i as int));
            }
        }
    }
    proof {
        assert(spec_tokenize(s, 0) =~= tokens_view(tokens@));
    }
    tokens
}


/// Whether the tokenizer accepts the code (see `can_tokenize`).
pub fn can_be_tokenized(qwy_script_code: &str) -> (r: bool)
    ensures
        r == can_tokenize(qwy_script_code@, 0),
{
    let ghost s = qwy_script_code@;
    let chars = chars_of(qwy_script_code);
    let n = chars.len();
    let mut i: usize = 0;
    while i < n
        invariant
            s == qwy_script_code@,
            chars@ == s,
            n == s.len(),
            i <= n,
            can_tokenize(s, 0) == can_tokenize(s, i as int),
        decreases n - i,
    {
        let c = chars[i];
        if is_whitespace(c) {
            i = i + 1;
        } else if is_ascii_alphabetic(c) || c == '_' {
            let start = i;
            while i < n && (is_ascii_alphabetic(chars[i]) || is_ascii_digit(chars[i]) || chars[i]
                == '_')
                invariant
                    chars@ == s,
                    n == s.len(),
                    start <= i <= n,
                    start < n,
                    is_word_start(s[start as int]),
                    i > start ==> word_end(s, start + 1) == word_end(s, i as int),
                decreases n - i,
            {
                i = i + 1;
            }
        } else if is_ascii_digit(c) {
            let start = i;
            let mut value: i32 = 0;
            let mut fits = true;
            while i < n && is_ascii_digit(chars[i]) && fits
                invariant
                    chars@ == s,
                    n == s.len(),
                    start <= i <= n,
                    start < n,
                    spec_is_ascii_digit(s[start as int]),
                    forall|k: int| start <= k < i ==> spec_is_ascii_digit(#[trigger] s[k]),
                    i > start ==> digits_end(s, start + 1) == digits_end(s, i as int),
                    can_tokenize(s, 0) == can_tokenize(s, start as int),
                    fits ==> digits_fit(s.subrange(start as int, i as int)),
                    fits ==> value == digits_value(s.subrange(start as int, i as int)),
                    !fits ==> i < n && spec_is_ascii_digit(s[i as int]) && !digits_fit(s.subrange(start as int, i + 1)),
                decreases n - i + (if fits { 1int } else { 0int }),
            {
                let d = chars[i];
                proof {
                    lemma_digits_value_nonneg(s.subrange(start as int, i as int));
                    assert(s.subrange(start as int, i + 1).drop_last() =~= s.subrange(start as int, i as int));
                }
                proof {
                    assert(value >= 0);
                    assert('0' <= d && d <= '9');
                    assert(d as int >= 48 && d as int <= 57);
                    assert((value <= (i32::MAX - d as int) / 10) <==> (value * 10 + d as int <= i32::MAX)) by (nonlinear_arith)
                        requires value >= 0, d as int >= 48, d as int <= 57;
                }
                if value <= (i32::MAX - d as i32) / 10 {
                    value = value * 10 + d as i32 - '0' as i32;
                    i = i + 1;
                } else {
                    fits = false;
                }
            }
            if !fits {
                proof {
                    let j = digits_end(s, start + 1);
                    lemma_digits_end_ge(s, i + 1);
                    lemma_digits_end_le(s, i + 1);
                    if i > start {
                        assert(j == digits_end(s, i as int));
                    }
                    assert(j == digits_end(s, i + 1));
                    if digits_fit(s.subrange(start as int, j)) {
                        lemma_digits_fit_prefix(s.subrange(start as int, j), i - start + 1);
                        assert(s.subrange(start as int, j).subrange(0, i - start + 1) =~= s.subrange(start as int, i + 1));
                    }
                }
                return false;
            }
        } else if c == '(' || c == ')' || c == ',' || c == '{' || c == '}' || c == ';' || c == '$' {
            i = i + 1;
        } else {
            return false;
        }
    }
    true
}

} // verus!
