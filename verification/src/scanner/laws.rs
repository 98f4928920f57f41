use vstd::prelude::*;

use crate::scanner::error::{meta_of, ErrorV};
use crate::scanner::model::{
    block_end, digits_end, init_scanner, lemma_alnum_end, lemma_block_end, lemma_digits_end,
    lemma_next_nl, lemma_nl_count_monotonic, lemma_str_end, next_nl, nl_count, single_char_token,
    space_char, spec_next, ScannerV,
};
use crate::token::{TokenTypeV, TokenV};

verus! {

/// From position `i` on, the source holds nothing but white space, line
/// feeds, line comments and block comments: text the scanner passes over
/// silently.
pub open spec fn skippable(s: Seq<char>, i: int) -> bool
    decreases s.len() - i,
        via skippable_decreases
{
    let n = s.len() as int;
    if i >= n {
        true
    } else {
        let c = s[i];
        if single_char_token(c) is Some {
            false
        } else if c == '!' || c == '=' || c == '<' || c == '>' {
            false
        } else if c == '/' {
            if i + 1 < n && s[i + 1] == '*' {
                let stop = block_end(s, i + 2);
                skippable(
                    s,
                    if stop < n {
                        stop + 2
                    } else {
                        n
                    },
                )
            } else if i + 1 < n && s[i + 1] == '/' {
                skippable(s, next_nl(s, i + 2))
            } else {
                false
            }
        } else if c == '\n' {
            skippable(s, i + 1)
        } else if space_char(c) {
            skippable(s, i + 1)
        } else {
            false
        }
    }
}

#[via_fn]
proof fn skippable_decreases(s: Seq<char>, i: int) {
    let n = s.len() as int;
    if i < n {
        let c = s[i];
        if c == '/' && i + 1 < n && s[i + 1] == '*' {
            lemma_block_end(s, i + 2);
        } else if c == '/' && i + 1 < n && s[i + 1] == '/' {
            lemma_next_nl(s, i + 2);
        }
    }
}

/// Law: over a skippable stretch of source, a pull produces the end-of-input
/// token and marks the scanner exhausted — no other token or error appears.
pub proof fn lemma_skippable_scans_to_eof(v: ScannerV)
    requires
        !v.done,
        0 <= v.current <= v.source.len(),
        skippable(v.source, v.current),
    ensures
        spec_next(v).0.done,
        spec_next(v).1 == Some(
            Ok::<TokenV, ErrorV>(
                TokenV { token_type: TokenTypeV::Eof, lexeme: None, line: spec_next(v).0.line },
            ),
        ),
    decreases v.source.len() - v.current,
{
    let s = v.source;
    let n = s.len() as int;
    if v.current < n {
        let i = v.current;
        let c = s[i];
        if c == '/' {
            if i + 1 < n && s[i + 1] == '*' {
                lemma_block_end(s, i + 2);
                let stop = block_end(s, i + 2);
                let resume = if stop < n {
                    stop + 2
                } else {
                    n
                };
                lemma_skippable_scans_to_eof(
                    ScannerV {
                        source: s,
                        start: i,
                        current: resume,
                        line: v.line + nl_count(s, stop) - nl_count(s, i + 2),
                        done: false,
                    },
                );
            } else {
                lemma_next_nl(s, i + 2);
                lemma_skippable_scans_to_eof(
                    ScannerV {
                        source: s,
                        start: i,
                        current: next_nl(s, i + 2),
                        line: v.line,
                        done: false,
                    },
                );
            }
        } else if c == '\n' {
            lemma_skippable_scans_to_eof(
                ScannerV { source: s, start: i, current: i + 1, line: v.line + 1, done: false },
            );
        } else {
            lemma_skippable_scans_to_eof(
                ScannerV { source: s, start: i, current: i + 1, line: v.line, done: false },
            );
        }
    }
}

/// Law: for a source consisting solely of white space and comments, the
/// token sequence is exactly one end-of-input token: the first pull of a
/// fresh scanner yields it, and every pull after that yields nothing.
pub proof fn lemma_whitespace_and_comments_scan_to_eof_alone(s: Seq<char>)
    requires
        skippable(s, 0),
    ensures
        ({
            let first = spec_next(init_scanner(s));
            &&& first.1 == Some(
                Ok::<TokenV, ErrorV>(
                    TokenV { token_type: TokenTypeV::Eof, lexeme: None, line: first.0.line },
                ),
            )
            &&& first.0.done
            &&& spec_next(first.0).1 is None
            &&& spec_next(first.0).0 == first.0
        }),
{
    lemma_skippable_scans_to_eof(init_scanner(s));
}

/// Law: once the end-of-input token has been produced, the scanner is
/// exhausted for good — a pull yields nothing and changes nothing.
pub proof fn lemma_exhausted_scanner_stays_exhausted(v: ScannerV)
    requires
        v.done,
    ensures
        spec_next(v) == (v, None::<Result<TokenV, ErrorV>>),
{
}

/// Law: pulling is total and the pull sequence terminates with exactly one
/// end-of-input token. While the scanner is not exhausted, every pull
/// yields an item; the pull that exhausts it yields the end-of-input token;
/// every other pull yields an ordinary token or an error and moves the
/// cursor strictly forward, so a scan of a bounded source is bounded too.
/// Together with the exhaustion law, nothing follows the end-of-input token.
pub proof fn lemma_pull_sequence_terminates(v: ScannerV)
    requires
        !v.done,
        0 <= v.current <= v.source.len(),
    ensures
        spec_next(v).1 is Some,
        spec_next(v).0.source == v.source,
        spec_next(v).0.done ==> spec_next(v).1 == Some(
            Ok::<TokenV, ErrorV>(
                TokenV { token_type: TokenTypeV::Eof, lexeme: None, line: spec_next(v).0.line },
            ),
        ),
        !spec_next(v).0.done ==> v.current < spec_next(v).0.current <= v.source.len(),
        !spec_next(v).0.done ==> (match spec_next(v).1 {
            Some(Ok(t)) => !(t.token_type is Eof),
            Some(Err(_)) => true,
            None => false,
        }),
    decreases v.source.len() - v.current,
{
    let s = v.source;
    let n = s.len() as int;
    if v.current < n {
        let i = v.current;
        let c = s[i];
        if c == '/' {
            if i + 1 < n && s[i + 1] == '*' {
                lemma_block_end(s, i + 2);
                let stop = block_end(s, i + 2);
                let resume = if stop < n {
                    stop + 2
                } else {
                    n
                };
                lemma_pull_sequence_terminates(
                    ScannerV {
                        source: s,
                        start: i,
                        current: resume,
                        line: v.line + nl_count(s, stop) - nl_count(s, i + 2),
                        done: false,
                    },
                );
            } else if i + 1 < n && s[i + 1] == '/' {
                lemma_next_nl(s, i + 2);
                lemma_pull_sequence_terminates(
                    ScannerV {
                        source: s,
                        start: i,
                        current: next_nl(s, i + 2),
                        line: v.line,
                        done: false,
                    },
                );
            }
        } else if c == '\n' {
            lemma_pull_sequence_terminates(
                ScannerV { source: s, start: i, current: i + 1, line: v.line + 1, done: false },
            );
        } else if space_char(c) && single_char_token(c) is None && c != '!' && c != '=' && c != '<'
            && c != '>' {
            lemma_pull_sequence_terminates(
                ScannerV { source: s, start: i, current: i + 1, line: v.line, done: false },
            );
        } else if c == '"' {
            lemma_str_end(s, i + 1);
        } else {
            lemma_digits_end(s, i + 1);
            let j = digits_end(s, i + 1);
            if j < n {
                lemma_digits_end(s, j + 1);
            }
            lemma_alnum_end(s, i + 1);
        }
    }
}

/// Law: every lexical error a pull can yield is attributed to a 1-based
/// line and carries the full source text, which is just what rendering it
/// asks of its input.
pub proof fn lemma_yielded_errors_are_renderable(v: ScannerV)
    requires
        v.line >= 1,
        0 <= v.current <= v.source.len(),
    ensures
        (match spec_next(v).1 {
            Some(Err(e)) => meta_of(e).line >= 1 && meta_of(e).source == v.source,
            _ => true,
        }),
    decreases v.source.len() - v.current,
{
    let s = v.source;
    let n = s.len() as int;
    if !v.done && v.current < n {
        let i = v.current;
        let c = s[i];
        if c == '/' {
            if i + 1 < n && s[i + 1] == '*' {
                lemma_block_end(s, i + 2);
                let stop = block_end(s, i + 2);
                let resume = if stop < n {
                    stop + 2
                } else {
                    n
                };
                lemma_nl_count_monotonic(s, i + 2, stop);
                lemma_yielded_errors_are_renderable(
                    ScannerV {
                        source: s,
                        start: i,
                        current: resume,
                        line: v.line + nl_count(s, stop) - nl_count(s, i + 2),
                        done: false,
                    },
                );
            } else if i + 1 < n && s[i + 1] == '/' {
                lemma_next_nl(s, i + 2);
                lemma_yielded_errors_are_renderable(
                    ScannerV {
                        source: s,
                        start: i,
                        current: next_nl(s, i + 2),
                        line: v.line,
                        done: false,
                    },
                );
            }
        } else if c == '\n' {
            lemma_yielded_errors_are_renderable(
                ScannerV { source: s, start: i, current: i + 1, line: v.line + 1, done: false },
            );
        } else if space_char(c) && single_char_token(c) is None && c != '!' && c != '=' && c != '<'
            && c != '>' {
            lemma_yielded_errors_are_renderable(
                ScannerV { source: s, start: i, current: i + 1, line: v.line, done: false },
            );
        }
    }
}

/// The token kind a lone punctuation character scans to.
pub open spec fn punct_kind(c: char) -> Option<TokenTypeV> {
    if single_char_token(c) is Some {
        single_char_token(c)
    } else if c == '/' {
        Some(TokenTypeV::Slash)
    } else {
        None
    }
}

/// Law: a source that is exactly one punctuation character yields one token
/// of the corresponding kind, whose lexeme is that very character, on line
/// 1, and then the end-of-input token.
pub proof fn lemma_single_punctuation(c: char)
    requires
        punct_kind(c) is Some,
    ensures
        ({
            let first = spec_next(init_scanner(seq![c]));
            &&& first.1 == Some(
                Ok::<TokenV, ErrorV>(
                    TokenV {
                        token_type: punct_kind(c).unwrap(),
                        lexeme: Some(seq![c]),
                        line: 1,
                    },
                ),
            )
            &&& spec_next(first.0).1 == Some(
                Ok::<TokenV, ErrorV>(
                    TokenV { token_type: TokenTypeV::Eof, lexeme: None, line: 1 },
                ),
            )
        }),
{
    let s = seq![c];
    assert(s.subrange(0, 1) =~= s);
}

} // verus!
