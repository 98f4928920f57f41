use vstd::prelude::*;

use crate::scanner::error::{ErrorV, MetaV};
use crate::token::{keyword_token, TokenTypeV, TokenV};

verus! {

// ---------------------------------------------------------------------------
// Character classes
// ---------------------------------------------------------------------------
/// An ASCII decimal digit.
pub open spec fn digit_char(c: char) -> bool {
    48 <= c as u32 <= 57
}

/// Decides `digit_char` at run time.
pub(crate) fn is_digit(c: char) -> (r: bool)
    ensures
        r == digit_char(c),
{
    let u = c as u32;
    48 <= u && u <= 57
}

/// Whether `c` has the Unicode Alphabetic property.
pub uninterp spec fn alpha_char(c: char) -> bool;

/// Whether `c` is Unicode alphanumeric (alphabetic or numeric).
pub uninterp spec fn alnum_char(c: char) -> bool;

/// Whether `c` has the Unicode White_Space property.
pub uninterp spec fn space_char(c: char) -> bool;

/// Relies on char::is_alphabetic: whether a character is alphabetic depends
/// on the character alone.
#[verifier::external_body]
pub(crate) fn is_alpha(c: char) -> (r: bool)
    ensures
        r == alpha_char(c),
{
    c.is_alphabetic()
}

/// Relies on char::is_alphanumeric: whether a character is alphanumeric
/// depends on the character alone, and control characters such as a line
/// feed are neither alphabetic nor numeric.
#[verifier::external_body]
pub(crate) fn is_alnum(c: char) -> (r: bool)
    ensures
        r == alnum_char(c),
        r ==> c != '\n',
{
    c.is_alphanumeric()
}

/// Relies on char::is_whitespace: whether a character is white space depends
/// on the character alone.
#[verifier::external_body]
pub(crate) fn is_space(c: char) -> (r: bool)
    ensures
        r == space_char(c),
{
    c.is_whitespace()
}

// ---------------------------------------------------------------------------
// Positions in the source
// ---------------------------------------------------------------------------
/// Index of the first line feed at or after `i`, or the length of `s` if
/// there is none.
pub open spec fn next_nl(s: Seq<char>, i: int) -> int
    decreases s.len() - i,
{
    if i >= s.len() {
        s.len() as int
    } else if s[i] == '\n' {
        i
    } else {
        next_nl(s, i + 1)
    }
}

pub proof fn lemma_next_nl(s: Seq<char>, i: int)
    requires
        i <= s.len(),
    ensures
        i <= next_nl(s, i) <= s.len(),
        forall|j: int| i <= j < next_nl(s, i) ==> s[j] != '\n',
        next_nl(s, i) < s.len() ==> s[next_nl(s, i)] == '\n',
    decreases s.len() - i,
{
    if i < s.len() && s[i] != '\n' {
        lemma_next_nl(s, i + 1);
    }
}

/// Number of line feeds among the first `e` characters of `s`.
pub open spec fn nl_count(s: Seq<char>, e: int) -> int
    decreases e,
{
    if e <= 0 {
        0
    } else {
        nl_count(s, e - 1) + if s[e - 1] == '\n' {
            1int
        } else {
            0int
        }
    }
}

pub proof fn lemma_nl_count_bounds(s: Seq<char>, e: int)
    ensures
        0 <= nl_count(s, e),
        nl_count(s, e) <= e || e < 0,
    decreases e,
{
    if e > 0 {
        lemma_nl_count_bounds(s, e - 1);
    }
}

/// The count of line feeds only grows with the prefix.
pub proof fn lemma_nl_count_monotonic(s: Seq<char>, a: int, b: int)
    requires
        a <= b,
    ensures
        nl_count(s, a) <= nl_count(s, b),
    decreases b - a,
{
    if a < b {
        lemma_nl_count_monotonic(s, a, b - 1);
    }
}

/// End of a run of decimal digits starting at `i`.
pub open spec fn digits_end(s: Seq<char>, i: int) -> int
    decreases s.len() - i,
{
    if i >= s.len() {
        s.len() as int
    } else if digit_char(s[i]) {
        digits_end(s, i + 1)
    } else {
        i
    }
}

pub proof fn lemma_digits_end(s: Seq<char>, i: int)
    requires
        i <= s.len(),
    ensures
        i <= digits_end(s, i) <= s.len(),
        forall|j: int| i <= j < digits_end(s, i) ==> digit_char(s[j]),
        digits_end(s, i) < s.len() ==> !digit_char(s[digits_end(s, i)]),
    decreases s.len() - i,
{
    if i < s.len() && digit_char(s[i]) {
        lemma_digits_end(s, i + 1);
    }
}

/// End of a run of alphanumeric characters starting at `i`.
pub open spec fn alnum_end(s: Seq<char>, i: int) -> int
    decreases s.len() - i,
{
    if i >= s.len() {
        s.len() as int
    } else if alnum_char(s[i]) {
        alnum_end(s, i + 1)
    } else {
        i
    }
}

pub proof fn lemma_alnum_end(s: Seq<char>, i: int)
    requires
        i <= s.len(),
    ensures
        i <= alnum_end(s, i) <= s.len(),
        forall|j: int| i <= j < alnum_end(s, i) ==> alnum_char(s[j]),
        alnum_end(s, i) < s.len() ==> !alnum_char(s[alnum_end(s, i)]),
    decreases s.len() - i,
{
    if i < s.len() && alnum_char(s[i]) {
        lemma_alnum_end(s, i + 1);
    }
}

/// Index of the first closing double quote at or after `i`, or the length of
/// `s` if the string literal never closes.
pub open spec fn str_end(s: Seq<char>, i: int) -> int
    decreases s.len() - i,
{
    if i >= s.len() {
        s.len() as int
    } else if s[i] == '"' {
        i
    } else {
        str_end(s, i + 1)
    }
}

pub proof fn lemma_str_end(s: Seq<char>, i: int)
    requires
        i <= s.len(),
    ensures
        i <= str_end(s, i) <= s.len(),
        forall|j: int| i <= j < str_end(s, i) ==> s[j] != '"',
        str_end(s, i) < s.len() ==> s[str_end(s, i)] == '"',
    decreases s.len() - i,
{
    if i < s.len() && s[i] != '"' {
        lemma_str_end(s, i + 1);
    }
}

/// Index of the `*` of the first `*/` pair at or after `i`, or the length of
/// `s` if the block comment never closes.
pub open spec fn block_end(s: Seq<char>, i: int) -> int
    decreases s.len() - i,
{
    if i + 1 >= s.len() {
        s.len() as int
    } else if s[i] == '*' && s[i + 1] == '/' {
        i
    } else {
        block_end(s, i + 1)
    }
}

pub proof fn lemma_block_end(s: Seq<char>, i: int)
    requires
        i <= s.len(),
    ensures
        i <= block_end(s, i) <= s.len(),
        block_end(s, i) < s.len() ==> block_end(s, i) + 1 < s.len() && s[block_end(s, i)] == '*'
            && s[block_end(s, i) + 1] == '/',
        forall|j: int|
            i <= j < block_end(s, i) ==> !(j + 1 < s.len() && #[trigger] s[j] == '*' && s[j + 1]
                == '/'),
    decreases s.len() - i,
{
    if i + 1 < s.len() && !(s[i] == '*' && s[i + 1] == '/') {
        lemma_block_end(s, i + 1);
    }
}

// ---------------------------------------------------------------------------
// The scanner state and one pull of the scanner
// ---------------------------------------------------------------------------
/// Mathematical model of the scanner's cursor state.
pub ghost struct ScannerV {
    pub source: Seq<char>,
    pub start: int,
    pub current: int,
    pub line: int,
    pub done: bool,
}

/// The state a scanner starts in.
pub open spec fn init_scanner(src: Seq<char>) -> ScannerV {
    ScannerV { source: src, start: 0, current: 0, line: 1, done: false }
}

/// A well-formed scanner state: the cursor lies within the source and the
/// line counter is one more than the number of line feeds already consumed.
pub open spec fn scanner_wf(v: ScannerV) -> bool {
    &&& 0 <= v.start <= v.source.len()
    &&& 0 <= v.current <= v.source.len()
    &&& v.source.len() < usize::MAX
    &&& v.line == 1 + nl_count(v.source, v.current)
}

/// The character under the cursor, if any.
pub open spec fn peek_spec(v: ScannerV) -> Option<char> {
    if v.current < v.source.len() {
        Some(v.source[v.current])
    } else {
        None
    }
}

/// The next one or two characters under the cursor, if any.
pub open spec fn peek2_spec(v: ScannerV) -> Option<Seq<char>> {
    let n = v.source.len() as int;
    if v.current < n {
        Some(v.source.subrange(v.current, if v.current + 2 <= n { v.current + 2 } else { n }))
    } else {
        None
    }
}

/// The token kind produced directly by a single punctuation character.
/// A slash is not listed here: it opens comments, so it has its own rule.
pub open spec fn single_char_token(c: char) -> Option<TokenTypeV> {
    if c == '(' {
        Some(TokenTypeV::LeftParen)
    } else if c == ')' {
        Some(TokenTypeV::RightParen)
    } else if c == '{' {
        Some(TokenTypeV::LeftBrace)
    } else if c == '}' {
        Some(TokenTypeV::RightBrace)
    } else if c == ',' {
        Some(TokenTypeV::Comma)
    } else if c == '.' {
        Some(TokenTypeV::Dot)
    } else if c == '-' {
        Some(TokenTypeV::Minus)
    } else if c == '+' {
        Some(TokenTypeV::Plus)
    } else if c == ';' {
        Some(TokenTypeV::Semicolon)
    } else if c == '*' {
        Some(TokenTypeV::Star)
    } else {
        None
    }
}

/// A token whose lexeme is the given slice of the source.
pub open spec fn sliced_token(t: TokenTypeV, lex: Seq<char>, line: int) -> TokenV {
    TokenV { token_type: t, lexeme: Some(lex), line: line }
}

/// One pull of the scanner: the successor state, paired with what the pull
/// yields. `None` means the scanner was already exhausted; otherwise the
/// pull yields one classified token or one lexical error. White space and
/// comments are skipped silently, and reaching the end of the source emits
/// the end-of-input token exactly once.
pub open spec fn spec_next(v: ScannerV) -> (ScannerV, Option<Result<TokenV, ErrorV>>)
    decreases v.source.len() - v.current,
        via spec_next_decreases
{
    let s = v.source;
    let n = s.len() as int;
    if v.done {
        (v, None)
    } else if v.current >= n {
        let w = ScannerV { source: s, start: v.start, current: v.current, line: v.line, done: true };
        (w, Some(Ok(TokenV { token_type: TokenTypeV::Eof, lexeme: None, line: v.line })))
    } else {
        let i = v.current;
        let c = s[i];
        let line = v.line;
        if single_char_token(c) is Some {
            let w = ScannerV { source: s, start: i, current: i + 1, line: line, done: false };
            (w, Some(Ok(sliced_token(single_char_token(c).unwrap(), s.subrange(i, i + 1), line))))
        } else if c == '!' {
            two_char_step(v, TokenTypeV::BangEqual, TokenTypeV::Bang)
        } else if c == '=' {
            two_char_step(v, TokenTypeV::EqualEqual, TokenTypeV::Equal)
        } else if c == '<' {
            two_char_step(v, TokenTypeV::LessEqual, TokenTypeV::Less)
        } else if c == '>' {
            two_char_step(v, TokenTypeV::GreaterEqual, TokenTypeV::Greater)
        } else if c == '/' {
            if i + 1 < n && s[i + 1] == '*' {
                let stop = block_end(s, i + 2);
                let resume = if stop < n {
                    stop + 2
                } else {
                    n
                };
                spec_next(
                    ScannerV {
                        source: s,
                        start: i,
                        current: resume,
                        line: line + nl_count(s, stop) - nl_count(s, i + 2),
                        done: false,
                    },
                )
            } else if i + 1 < n && s[i + 1] == '/' {
                spec_next(
                    ScannerV {
                        source: s,
                        start: i,
                        current: next_nl(s, i + 2),
                        line: line,
                        done: false,
                    },
                )
            } else {
                let w = ScannerV { source: s, start: i, current: i + 1, line: line, done: false };
                (w, Some(Ok(sliced_token(TokenTypeV::Slash, s.subrange(i, i + 1), line))))
            }
        } else if c == '\n' {
            spec_next(ScannerV { source: s, start: i, current: i + 1, line: line + 1, done: false })
        } else if space_char(c) {
            spec_next(ScannerV { source: s, start: i, current: i + 1, line: line, done: false })
        } else if c == '"' {
            let j = str_end(s, i + 1);
            let line2 = line + nl_count(s, j) - nl_count(s, i + 1);
            if j >= n {
                let w = ScannerV { source: s, start: i, current: n, line: line2, done: false };
                (
                    w,
                    Some(
                        Err(
                            ErrorV::UnterminatedString(
                                MetaV { lexeme: None, line: line, position: i + 1, source: s },
                            ),
                        ),
                    ),
                )
            } else {
                let w = ScannerV { source: s, start: i, current: j + 1, line: line2, done: false };
                (
                    w,
                    Some(
                        Ok(
                            sliced_token(
                                TokenTypeV::String(s.subrange(i + 1, j)),
                                s.subrange(i + 1, j),
                                line,
                            ),
                        ),
                    ),
                )
            }
        } else if digit_char(c) {
            let j = digits_end(s, i + 1);
            let k = if j < n && s[j] == '.' {
                digits_end(s, j + 1)
            } else {
                j
            };
            let lex = s.subrange(i, k);
            let w = ScannerV { source: s, start: i, current: k, line: line, done: false };
            (w, Some(Ok(sliced_token(TokenTypeV::Number(lex), lex, line))))
        } else if alpha_char(c) {
            let j = alnum_end(s, i + 1);
            let lex = s.subrange(i, j);
            let t = match keyword_token(lex) {
                Some(t) => t,
                None => TokenTypeV::Identifier(lex),
            };
            let w = ScannerV { source: s, start: i, current: j, line: line, done: false };
            (w, Some(Ok(sliced_token(t, lex, line))))
        } else {
            let w = ScannerV { source: s, start: i, current: i + 1, line: line, done: false };
            (
                w,
                Some(
                    Err(
                        ErrorV::UnrecognizedToken(
                            MetaV { lexeme: Some(c), line: line, position: i + 1, source: s },
                        ),
                    ),
                ),
            )
        }
    }
}

/// A one-or-two-character operator: the two-character kind when the next
/// character is `=`, otherwise the one-character kind.
pub open spec fn two_char_step(v: ScannerV, two: TokenTypeV, one: TokenTypeV) -> (
    ScannerV,
    Option<Result<TokenV, ErrorV>>,
) {
    let s = v.source;
    let n = s.len() as int;
    let i = v.current;
    if i + 1 < n && s[i + 1] == '=' {
        let w = ScannerV { source: s, start: i, current: i + 2, line: v.line, done: false };
        (w, Some(Ok(sliced_token(two, s.subrange(i, i + 2), v.line))))
    } else {
        let w = ScannerV { source: s, start: i, current: i + 1, line: v.line, done: false };
        (w, Some(Ok(sliced_token(one, s.subrange(i, i + 1), v.line))))
    }
}

#[via_fn]
proof fn spec_next_decreases(v: ScannerV) {
    let s = v.source;
    let n = s.len() as int;
    if !v.done && v.current < n {
        let i = v.current;
        let c = s[i];
        if c == '/' && i + 1 < n && s[i + 1] == '*' {
            lemma_block_end(s, i + 2);
        } else if c == '/' && i + 1 < n && s[i + 1] == '/' {
            lemma_next_nl(s, i + 2);
        }
    }
}

} // verus!
