use vstd::prelude::*;
use vstd::string::*;

pub mod error;
pub mod laws;
pub mod model;

pub use error::ScannerError;
pub use error::ScannerErrorMeta;

verus! {

broadcast use vstd::string::group_string_axioms;

use crate::scanner::error::{ErrorV, MetaV};
use crate::scanner::model::{
    alnum_end, alpha_char, block_end, digit_char, digits_end, init_scanner, is_alnum, is_alpha,
    is_digit, is_space, lemma_alnum_end, lemma_block_end, lemma_digits_end, lemma_next_nl,
    lemma_nl_count_bounds, lemma_str_end, next_nl, nl_count, peek2_spec, peek_spec, scanner_wf,
    single_char_token, sliced_token, spec_next, str_end, ScannerV,
};
use crate::token::{keyword_token, opt_token_type_view, str_eq, Token, TokenType, TokenTypeV, TokenV};

/// Model of one pulled item.
pub open spec fn pull_view(r: Option<Result<Token, ScannerError>>) -> Option<
    Result<TokenV, ErrorV>,
> {
    match r {
        Option::None => Option::None,
        Option::Some(Result::Ok(t)) => Option::Some(Result::Ok(t@)),
        Option::Some(Result::Err(e)) => Option::Some(Result::Err(e@)),
    }
}

/// A pull-based lexical analyzer: it walks the source once, left to right,
/// and yields one token or one lexical error per pull, skipping white space
/// and comments silently. After the end-of-input token has been produced,
/// every further pull yields nothing.
pub struct Scanner {
    source: String,
    start: usize,
    current: usize,
    line: usize,
    done: bool,
}

impl View for Scanner {
    type V = ScannerV;

    closed spec fn view(&self) -> ScannerV {
        ScannerV {
            source: self.source@,
            start: self.start as int,
            current: self.current as int,
            line: self.line as int,
            done: self.done,
        }
    }
}

impl Scanner {
    /// The scanner's cursor state is well formed.
    pub open spec fn wf(&self) -> bool {
        scanner_wf(self@)
    }

    /// A fresh scanner over `source`, at the start of line 1.
    pub fn new(source: &str) -> (r: Scanner)
        requires
            source@.len() < usize::MAX,
        ensures
            r@ == init_scanner(source@),
            r.wf(),
    {
        Scanner { source: source.to_owned(), start: 0, current: 0, line: 1, done: false }
    }

    /// The character under the cursor, without consuming it.
    fn peek(&self) -> (r: Option<char>)
        ensures
            r == peek_spec(self@),
    {
        if self.current < self.source.as_str().unicode_len() {
            Some(self.source.as_str().get_char(self.current))
        } else {
            None
        }
    }

    /// The next two characters under the cursor (or one, at the very end),
    /// without consuming them.
    fn peek_2(&self) -> (r: Option<String>)
        ensures
            (match r {
                Option::Some(t) => peek2_spec(self@) == Some(t@),
                Option::None => peek2_spec(self@) is None,
            }),
    {
        let n = self.source.as_str().unicode_len();
        if self.current >= n {
            None
        } else {
            let end = if self.current + 1 < n {
                self.current + 2
            } else {
                n
            };
            Some(self.lexeme_text(self.current, end))
        }
    }

    /// Consumes the character under the cursor exactly when it is `expected`.
    fn match_lexeme(&mut self, expected: char) -> (r: bool)
        requires
            old(self)@.source.len() < usize::MAX,
        ensures
            r == (peek_spec(old(self)@) == Some(expected)),
            r ==> final(self)@ == (ScannerV {
                current: old(self)@.current + 1,
                ..old(self)@
            }),
            !r ==> final(self)@ == old(self)@,
    {
        match self.peek() {
            Some(c) => {
                if c == expected {
                    self.current = self.current + 1;
                    true
                } else {
                    false
                }
            },
            None => false,
        }
    }

    /// Consumes and returns the character under the cursor, if any.
    fn advance(&mut self) -> (r: Option<char>)
        requires
            old(self)@.source.len() < usize::MAX,
        ensures
            r == peek_spec(old(self)@),
            r is Some ==> final(self)@ == (ScannerV {
                current: old(self)@.current + 1,
                ..old(self)@
            }),
            r is None ==> final(self)@ == old(self)@,
    {
        let r = self.peek();
        if r.is_some() {
            self.current = self.current + 1;
        }
        r
    }

    /// Whether the cursor is at or past the end of the source.
    fn is_at_end(&self) -> (r: bool)
        ensures
            r == (self@.current >= self@.source.len()),
    {
        self.current >= self.source.as_str().unicode_len()
    }

    /// The slice of source text between the two character positions.
    fn lexeme_text(&self, from: usize, to: usize) -> (r: String)
        requires
            from <= to <= self@.source.len(),
        ensures
            r@ == self@.source.subrange(from as int, to as int),
    {
        self.source.as_str().substring_char(from, to).to_owned()
    }

    /// Skips to (but not past) the next line feed, or to the end of input.
    fn skip_line_comment(&mut self)
        requires
            old(self).wf(),
        ensures
            final(self).wf(),
            final(self)@ == (ScannerV {
                current: next_nl(old(self)@.source, old(self)@.current),
                ..old(self)@
            }),
    {
        let ghost s = self@.source;
        let ghost i0 = self@.current;
        proof {
            lemma_next_nl(s, i0);
        }
        loop
            invariant
                self.wf(),
                self@.source == s,
                self@.start == old(self)@.start,
                self@.line == old(self)@.line,
                self@.done == old(self)@.done,
                i0 <= self@.current <= s.len(),
                next_nl(s, self@.current) == next_nl(s, i0),
            ensures
                self.wf(),
                self@.source == s,
                self@.start == old(self)@.start,
                self@.line == old(self)@.line,
                self@.done == old(self)@.done,
                self@.current == next_nl(s, i0),
            decreases s.len() - self@.current,
        {
            let ghost cur = self@.current;
            match self.peek() {
                Some(c) => {
                    if c == '\n' {
                        proof {
                            assert(next_nl(s, cur) == cur);
                        }
                        break ;
                    }
                    self.advance();
                },
                None => {
                    proof {
                        assert(next_nl(s, s.len() as int) == s.len());
                    }
                    break ;
                },
            }
        }
    }

    /// Skips to just past the closing `*/`, counting the line feeds inside.
    /// A block comment that never closes runs silently to the end of input.
    fn skip_block_comment(&mut self)
        requires
            old(self).wf(),
        ensures
            final(self).wf(),
            ({
                let s = old(self)@.source;
                let i0 = old(self)@.current;
                let stop = block_end(s, i0);
                final(self)@ == (ScannerV {
                    current: if stop < s.len() {
                        stop + 2
                    } else {
                        s.len() as int
                    },
                    line: old(self)@.line + nl_count(s, stop) - nl_count(s, i0),
                    ..old(self)@
                })
            }),
    {
        let ghost s = self@.source;
        let ghost i0 = self@.current;
        proof {
            lemma_block_end(s, i0);
        }
        loop
            invariant
                self.wf(),
                self@.source == s,
                self@.start == old(self)@.start,
                self@.done == old(self)@.done,
                i0 <= self@.current <= s.len(),
                block_end(s, self@.current) == block_end(s, i0),
                self@.line == old(self)@.line + nl_count(s, self@.current) - nl_count(s, i0),
            ensures
                self.wf(),
                self@.source == s,
                self@.start == old(self)@.start,
                self@.done == old(self)@.done,
                i0 <= self@.current <= s.len(),
                self@.current == block_end(s, i0),
                self@.line == old(self)@.line + nl_count(s, self@.current) - nl_count(s, i0),
            decreases s.len() - self@.current,
        {
            let ghost cur = self@.current;
            let p2 = self.peek_2();
            match p2 {
                None => {
                    proof {
                        assert(block_end(s, s.len() as int) == s.len());
                    }
                    break ;
                },
                Some(t) => {
                    if str_eq(t.as_str(), "*/") {
                        proof {
                            reveal_strlit("*/");
                            assert(t@.len() == 2);
                            assert(cur + 2 <= s.len());
                            assert(t@ =~= s.subrange(cur, cur + 2));
                            assert(t@[0] == '*' && t@[1] == '/');
                            assert(s[cur] == '*' && s[cur + 1] == '/');
                            assert(block_end(s, cur) == cur);
                        }
                        break ;
                    }
                    proof {
                        reveal_strlit("*/");
                        if cur + 2 <= s.len() && s[cur] == '*' && s[cur + 1] == '/' {
                            assert(t@ =~= "*/"@);
                        }
                        assert(block_end(s, cur) == block_end(s, cur + 1));
                    }
                    match self.peek() {
                        Some(ch) => {
                            if ch == '\n' {
                                proof {
                                    lemma_nl_count_bounds(s, cur);
                                }
                                self.line = self.line + 1;
                            }
                        },
                        None => {},
                    }
                    self.advance();
                },
            }
        }
        let ghost stop = self@.current;
        proof {
            if stop < s.len() {
                assert(s[stop] == '*' && s[stop + 1] == '/');
                assert(nl_count(s, stop + 1) == nl_count(s, stop));
                assert(nl_count(s, stop + 2) == nl_count(s, stop + 1));
            }
        }
        self.advance();
        self.advance();
    }

    /// Scans the rest of a string literal. On entry the opening quote has
    /// just been consumed, so the cursor sits on the first content character.
    /// Line feeds inside the literal advance the line counter, but the token
    /// itself is attributed to the line of its opening quote, as is the
    /// error for a literal that never closes.
    fn scan_string(&mut self) -> (r: Option<Result<Token, ScannerError>>)
        requires
            old(self).wf(),
            1 <= old(self)@.current,
            old(self)@.start == old(self)@.current - 1,
        ensures
            final(self).wf(),
            ({
                let s = old(self)@.source;
                let i1 = old(self)@.current;
                let j = str_end(s, i1);
                let line2 = old(self)@.line + nl_count(s, j) - nl_count(s, i1);
                if j >= s.len() {
                    final(self)@ == (ScannerV { current: s.len() as int, line: line2, ..old(self)@ })
                        && pull_view(r) == Some(
                        Err::<TokenV, ErrorV>(
                            ErrorV::UnterminatedString(
                                MetaV {
                                    lexeme: None,
                                    line: old(self)@.line,
                                    position: i1,
                                    source: s,
                                },
                            ),
                        ),
                    )
                } else {
                    final(self)@ == (ScannerV { current: j + 1, line: line2, ..old(self)@ })
                        && pull_view(r) == Some(
                        Ok::<TokenV, ErrorV>(
                            sliced_token(
                                TokenTypeV::String(s.subrange(i1, j)),
                                s.subrange(i1, j),
                                old(self)@.line,
                            ),
                        ),
                    )
                }
            }),
    {
        let line_start = self.line;
        let pos_start = self.current;
        let ghost s = self@.source;
        let ghost i1 = self@.current;
        proof {
            lemma_str_end(s, i1);
        }
        loop
            invariant
                self.wf(),
                self@.source == s,
                self@.start == old(self)@.start,
                self@.done == old(self)@.done,
                i1 <= self@.current <= s.len(),
                str_end(s, self@.current) == str_end(s, i1),
                self@.line == old(self)@.line + nl_count(s, self@.current) - nl_count(s, i1),
            ensures
                self.wf(),
                self@.source == s,
                self@.start == old(self)@.start,
                self@.done == old(self)@.done,
                i1 <= self@.current <= s.len(),
                self@.current == str_end(s, i1),
                self@.line == old(self)@.line + nl_count(s, self@.current) - nl_count(s, i1),
            decreases s.len() - self@.current,
        {
            let ghost cur = self@.current;
            match self.peek() {
                Some(c) => {
                    if c == '"' {
                        proof {
                            assert(str_end(s, cur) == cur);
                        }
                        break ;
                    }
                    if c == '\n' {
                        proof {
                            lemma_nl_count_bounds(s, cur);
                        }
                        self.line = self.line + 1;
                    }
                    self.advance();
                },
                None => {
                    proof {
                        assert(str_end(s, s.len() as int) == s.len());
                    }
                    break ;
                },
            }
        }
        if self.is_at_end() {
            Some(
                Err(
                    ScannerError::UnterminatedString(
                        ScannerErrorMeta {
                            lexeme: None,
                            line: line_start,
                            position: pos_start,
                            source: self.source.clone(),
                        },
                    ),
                ),
            )
        } else {
            self.advance();
            let payload = self.lexeme_text(self.start + 1, self.current - 1);
            let tok = Token {
                token_type: TokenType::String(payload.clone()),
                lexeme: Some(payload),
                line: line_start,
            };
            Some(Ok(tok))
        }
    }

    /// Consumes a maximal run of decimal digits.
    fn skip_digits(&mut self)
        requires
            old(self).wf(),
        ensures
            final(self).wf(),
            final(self)@ == (ScannerV {
                current: digits_end(old(self)@.source, old(self)@.current),
                ..old(self)@
            }),
    {
        let ghost s = self@.source;
        let ghost i1 = self@.current;
        proof {
            lemma_digits_end(s, i1);
        }
        loop
            invariant
                self.wf(),
                self@.source == s,
                self@.start == old(self)@.start,
                self@.line == old(self)@.line,
                self@.done == old(self)@.done,
                i1 <= self@.current <= s.len(),
                digits_end(s, self@.current) == digits_end(s, i1),
            ensures
                self.wf(),
                self@.source == s,
                self@.start == old(self)@.start,
                self@.line == old(self)@.line,
                self@.done == old(self)@.done,
                self@.current == digits_end(s, i1),
            decreases s.len() - self@.current,
        {
            let ghost cur = self@.current;
            match self.peek() {
                Some(c) => {
                    if is_digit(c) {
                        proof {
                            assert(c != '\n');
                        }
                        self.advance();
                    } else {
                        proof {
                            assert(digits_end(s, cur) == cur);
                        }
                        break ;
                    }
                },
                None => {
                    proof {
                        assert(digits_end(s, s.len() as int) == s.len());
                    }
                    break ;
                },
            }
        }
    }

    /// Scans the rest of a numeric literal. On entry the first digit has
    /// just been consumed. The scan takes the remaining digits, then a
    /// single dot with whatever digits follow it, and keeps the numeral
    /// text itself as the token's payload.
    fn scan_number(&mut self) -> (r: Option<Result<Token, ScannerError>>)
        requires
            old(self).wf(),
            1 <= old(self)@.current,
            old(self)@.start == old(self)@.current - 1,
        ensures
            final(self).wf(),
            ({
                let s = old(self)@.source;
                let i1 = old(self)@.current;
                let j = digits_end(s, i1);
                let k = if j < s.len() && s[j] == '.' {
                    digits_end(s, j + 1)
                } else {
                    j
                };
                let lex = s.subrange(i1 - 1, k);
                final(self)@ == (ScannerV { current: k, ..old(self)@ }) && pull_view(r) == Some(
                    Ok::<TokenV, ErrorV>(sliced_token(TokenTypeV::Number(lex), lex, old(self)@.line)),
                )
            }),
    {
        let ghost s = self@.source;
        let ghost i1 = self@.current;
        proof {
            lemma_digits_end(s, i1);
        }
        self.skip_digits();
        let ghost j = self@.current;
        let dot = match self.peek() {
            Some(c) => c == '.',
            None => false,
        };
        if dot {
            self.advance();
            proof {
                lemma_digits_end(s, j + 1);
            }
            self.skip_digits();
        }
        let lexeme = self.lexeme_text(self.start, self.current);
        let tok = Token {
            token_type: TokenType::Number(lexeme.clone()),
            lexeme: Some(lexeme),
            line: self.line,
        };
        Some(Ok(tok))
    }

    /// Scans the rest of an identifier or keyword. On entry the leading
    /// alphabetic character has just been consumed. The lexeme is the
    /// maximal alphanumeric run; if it spells a reserved word the keyword
    /// token is produced, never an identifier.
    fn scan_identifier(&mut self) -> (r: Option<Result<Token, ScannerError>>)
        requires
            old(self).wf(),
            1 <= old(self)@.current,
            old(self)@.start == old(self)@.current - 1,
        ensures
            final(self).wf(),
            ({
                let s = old(self)@.source;
                let i1 = old(self)@.current;
                let j = alnum_end(s, i1);
                let lex = s.subrange(i1 - 1, j);
                let t = match keyword_token(lex) {
                    Some(t) => t,
                    None => TokenTypeV::Identifier(lex),
                };
                final(self)@ == (ScannerV { current: j, ..old(self)@ }) && pull_view(r) == Some(
                    Ok::<TokenV, ErrorV>(sliced_token(t, lex, old(self)@.line)),
                )
            }),
    {
        let ghost s = self@.source;
        let ghost i1 = self@.current;
        proof {
            lemma_alnum_end(s, i1);
        }
        loop
            invariant
                self.wf(),
                self@.source == s,
                self@.start == old(self)@.start,
                self@.line == old(self)@.line,
                self@.done == old(self)@.done,
                i1 <= self@.current <= s.len(),
                alnum_end(s, self@.current) == alnum_end(s, i1),
            ensures
                self.wf(),
                self@.source == s,
                self@.start == old(self)@.start,
                self@.line == old(self)@.line,
                self@.done == old(self)@.done,
                self@.current == alnum_end(s, i1),
            decreases s.len() - self@.current,
        {
            let ghost cur = self@.current;
            match self.peek() {
                Some(c) => {
                    if is_alnum(c) {
                        self.advance();
                    } else {
                        proof {
                            assert(alnum_end(s, cur) == cur);
                        }
                        break ;
                    }
                },
                None => {
                    proof {
                        assert(alnum_end(s, s.len() as int) == s.len());
                    }
                    break ;
                },
            }
        }
        let lexeme = self.lexeme_text(self.start, self.current);
        match TokenType::parse_keyword(lexeme.as_str()) {
            Some(t) => Some(
                Ok(Token { token_type: t, lexeme: Some(lexeme), line: self.line }),
            ),
            None => Some(
                Ok(
                    Token {
                        token_type: TokenType::Identifier(lexeme.clone()),
                        lexeme: Some(lexeme),
                        line: self.line,
                    },
                ),
            ),
        }
    }

    /// Pulls the next item: one classified token, one lexical error, the
    /// end-of-input token exactly once, and nothing ever after that.
    pub fn next(&mut self) -> (r: Option<Result<Token, ScannerError>>)
        requires
            old(self).wf(),
        ensures
            final(self).wf(),
            final(self)@ == spec_next(old(self)@).0,
            pull_view(r) == spec_next(old(self)@).1,
    {
        if self.done {
            return None;
        }
        self.scan_token()
    }

    /// Skips white space and comments, then classifies the next lexeme, or
    /// emits the end-of-input token once the cursor has passed the end.
    fn scan_token(&mut self) -> (r: Option<Result<Token, ScannerError>>)
        requires
            old(self).wf(),
            !old(self)@.done,
        ensures
            final(self).wf(),
            final(self)@ == spec_next(old(self)@).0,
            pull_view(r) == spec_next(old(self)@).1,
    {
        let ghost orig = self@;
        loop
            invariant
                orig == old(self)@,
                self.wf(),
                !self@.done,
                spec_next(self@) == spec_next(orig),
            decreases self@.source.len() - self@.current,
        {
            let ghost v = self@;
            let ghost s = v.source;
            let ghost n = s.len() as int;
            if self.is_at_end() {
                self.done = true;
                return Some(
                    Ok(Token { token_type: TokenType::Eof, lexeme: None, line: self.line }),
                );
            }
            self.start = self.current;
            let ghost i = v.current;
            let c = self.advance().unwrap();
            match c {
                '(' => {
                    return Some(Ok(self.sliced(TokenType::LeftParen)));
                },
                ')' => {
                    return Some(Ok(self.sliced(TokenType::RightParen)));
                },
                '{' => {
                    return Some(Ok(self.sliced(TokenType::LeftBrace)));
                },
                '}' => {
                    return Some(Ok(self.sliced(TokenType::RightBrace)));
                },
                ',' => {
                    return Some(Ok(self.sliced(TokenType::Comma)));
                },
                '.' => {
                    return Some(Ok(self.sliced(TokenType::Dot)));
                },
                '-' => {
                    return Some(Ok(self.sliced(TokenType::Minus)));
                },
                '+' => {
                    return Some(Ok(self.sliced(TokenType::Plus)));
                },
                ';' => {
                    return Some(Ok(self.sliced(TokenType::Semicolon)));
                },
                '*' => {
                    return Some(Ok(self.sliced(TokenType::Star)));
                },
                '!' => {
                    let t = if self.match_lexeme('=') {
                        TokenType::BangEqual
                    } else {
                        TokenType::Bang
                    };
                    return Some(Ok(self.sliced(t)));
                },
                '=' => {
                    let t = if self.match_lexeme('=') {
                        TokenType::EqualEqual
                    } else {
                        TokenType::Equal
                    };
                    return Some(Ok(self.sliced(t)));
                },
                '<' => {
                    let t = if self.match_lexeme('=') {
                        TokenType::LessEqual
                    } else {
                        TokenType::Less
                    };
                    return Some(Ok(self.sliced(t)));
                },
                '>' => {
                    let t = if self.match_lexeme('=') {
                        TokenType::GreaterEqual
                    } else {
                        TokenType::Greater
                    };
                    return Some(Ok(self.sliced(t)));
                },
                '/' => {
                    if self.match_lexeme('*') {
                        proof {
                            lemma_block_end(s, i + 2);
                        }
                        self.skip_block_comment();
                    } else if self.match_lexeme('/') {
                        proof {
                            lemma_next_nl(s, i + 2);
                        }
                        self.skip_line_comment();
                    } else {
                        return Some(Ok(self.sliced(TokenType::Slash)));
                    }
                },
                '\n' => {
                    proof {
                        lemma_nl_count_bounds(s, i);
                    }
                    self.line = self.line + 1;
                },
                other => {
                    if is_space(other) {
                        // silently skipped; the next lexeme starts afresh
                    } else if other == '"' {
                        return self.scan_string();
                    } else if is_digit(other) {
                        return self.scan_number();
                    } else if is_alpha(other) {
                        return self.scan_identifier();
                    } else {
                        return Some(
                            Err(
                                ScannerError::UnrecognizedToken(
                                    ScannerErrorMeta {
                                        lexeme: Some(other),
                                        line: self.line,
                                        position: self.current,
                                        source: self.source.clone(),
                                    },
                                ),
                            ),
                        );
                    }
                },
            }
        }
    }

    /// A token of kind `t` whose lexeme is the text between `start` and the
    /// cursor, attributed to the current line.
    fn sliced(&self, t: TokenType) -> (tok: Token)
        requires
            self@.start <= self@.current <= self@.source.len(),
            0 <= self@.start,
        ensures
            tok@ == sliced_token(t@, self@.source.subrange(self@.start, self@.current), self@.line),
    {
        Token {
            token_type: t,
            lexeme: Some(self.lexeme_text(self.start, self.current)),
            line: self.line,
        }
    }
}

} // verus!
