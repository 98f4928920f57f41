use vstd::prelude::*;
use vstd::string::*;

verus! {

broadcast use vstd::string::group_string_axioms;

use crate::scanner::model::{lemma_next_nl, next_nl};

/// Everything needed to render a lexical error on its own: the offending
/// character (when there is one), the 1-based line, the character position
/// where the error was detected, and a copy of the full source text.
#[derive(Debug, Clone)]
pub struct ScannerErrorMeta {
    pub lexeme: Option<char>,
    pub line: usize,
    pub position: usize,
    pub source: String,
}

/// The three kinds of lexical error.
#[derive(Debug, Clone)]
pub enum ScannerError {
    UnrecognizedToken(ScannerErrorMeta),
    UnterminatedString(ScannerErrorMeta),
    Deserialization(ScannerErrorMeta),
}

/// Mathematical model of an error's metadata.
pub ghost struct MetaV {
    pub lexeme: Option<char>,
    pub line: int,
    pub position: int,
    pub source: Seq<char>,
}

/// Mathematical model of a lexical error.
pub ghost enum ErrorV {
    UnrecognizedToken(MetaV),
    UnterminatedString(MetaV),
    Deserialization(MetaV),
}

impl View for ScannerErrorMeta {
    type V = MetaV;

    open spec fn view(&self) -> MetaV {
        MetaV {
            lexeme: self.lexeme,
            line: self.line as int,
            position: self.position as int,
            source: self.source@,
        }
    }
}

impl View for ScannerError {
    type V = ErrorV;

    open spec fn view(&self) -> ErrorV {
        match self {
            ScannerError::UnrecognizedToken(m) => ErrorV::UnrecognizedToken(m@),
            ScannerError::UnterminatedString(m) => ErrorV::UnterminatedString(m@),
            ScannerError::Deserialization(m) => ErrorV::Deserialization(m@),
        }
    }
}

/// The metadata carried by an error, whichever kind it is.
pub open spec fn meta_of(e: ErrorV) -> MetaV {
    match e {
        ErrorV::UnrecognizedToken(m) => m,
        ErrorV::UnterminatedString(m) => m,
        ErrorV::Deserialization(m) => m,
    }
}

/// The summary line and the pointer message for each error kind.
pub open spec fn error_strings(e: ErrorV) -> (Seq<char>, Seq<char>) {
    match e {
        ErrorV::UnrecognizedToken(_) => ("Unrecognized token"@, "This should not be here"@),
        ErrorV::UnterminatedString(_) => (
            "Unterminated open quote"@,
            "This quotation mark is missing its partner"@,
        ),
        ErrorV::Deserialization(_) => (
            "Failed value conversion"@,
            "This could not be turned into a native value"@,
        ),
    }
}

/// The quoted offending character, when the error carries one.
pub open spec fn lexeme_note(l: Option<char>) -> Seq<char> {
    match l {
        Some(c) => " `"@ + seq![c] + "`"@,
        None => Seq::<char>::empty(),
    }
}

/// Start of the 0-based line `k` when the source is split on line feeds;
/// lines past the last one begin (empty) at the end of the source.
pub open spec fn line_index(s: Seq<char>, k: int) -> int
    decreases k,
{
    if k <= 0 {
        0
    } else {
        let p = line_index(s, k - 1);
        let e = next_nl(s, p);
        if e < s.len() {
            e + 1
        } else {
            s.len() as int
        }
    }
}

/// The text of the 0-based line `k`: from its start to the next line feed.
pub open spec fn line_of(s: Seq<char>, k: int) -> Seq<char> {
    s.subrange(line_index(s, k), next_nl(s, line_index(s, k)))
}

/// Combined length of the first `m` lines, line feeds not counted.
pub open spec fn lines_len_sum(s: Seq<char>, m: int) -> int
    decreases m,
{
    if m <= 0 {
        0
    } else {
        lines_len_sum(s, m - 1) + line_of(s, m - 1).len()
    }
}

/// The character for one decimal digit.
pub open spec fn decimal_digit_char(d: int) -> char {
    if d == 0 {
        '0'
    } else if d == 1 {
        '1'
    } else if d == 2 {
        '2'
    } else if d == 3 {
        '3'
    } else if d == 4 {
        '4'
    } else if d == 5 {
        '5'
    } else if d == 6 {
        '6'
    } else if d == 7 {
        '7'
    } else if d == 8 {
        '8'
    } else {
        '9'
    }
}

/// The usual decimal rendering of a non-negative number.
pub open spec fn dec_digits(n: int) -> Seq<char>
    decreases n,
{
    if n < 0 {
        Seq::<char>::empty()
    } else if n <= 9 {
        seq![decimal_digit_char(n)]
    } else {
        dec_digits(n / 10) + seq![decimal_digit_char(n % 10)]
    }
}

/// `k` spaces.
pub open spec fn spaces(k: int) -> Seq<char>
    decreases k,
{
    if k <= 0 {
        Seq::<char>::empty()
    } else {
        spaces(k - 1) + " "@
    }
}

/// The column under which the pointer is drawn: the error's position, less
/// the combined length of the lines before the error's line, less the line
/// number itself (which stands in for the line feeds that separate those
/// lines), floored at zero so that the rendering is total.
pub open spec fn column_of(m: MetaV) -> int {
    let off = lines_len_sum(m.source, m.line - 1);
    if m.position >= off + m.line {
        m.position - off - m.line
    } else {
        0
    }
}

/// The full three-part diagnostic for an error: a summary line naming the
/// error kind, the offending character and the line number; the source line
/// the error lies on; and a pointer aligned under the offending column.
pub open spec fn render_seq(e: ErrorV) -> Seq<char> {
    let m = meta_of(e);
    "ERROR: "@ + error_strings(e).0 + lexeme_note(m.lexeme) + " on line "@ + dec_digits(m.line)
        + ".\n"@ + line_of(m.source, m.line - 1) + "\n"@ + spaces(column_of(m))
        + "\u{1F446} ----- "@ + error_strings(e).1 + ".  "@
}

/// Relies on String::push: appends exactly one character.
#[verifier::external_body]
pub(crate) fn push_char(s: &mut String, c: char)
    ensures
        final(s)@ == old(s)@ + seq![c],
{
    s.push(c);
}

/// The character for one decimal digit, at run time.
fn digit_to_char(d: usize) -> (c: char)
    requires
        d <= 9,
    ensures
        c == decimal_digit_char(d as int),
{
    if d == 0 {
        '0'
    } else if d == 1 {
        '1'
    } else if d == 2 {
        '2'
    } else if d == 3 {
        '3'
    } else if d == 4 {
        '4'
    } else if d == 5 {
        '5'
    } else if d == 6 {
        '6'
    } else if d == 7 {
        '7'
    } else if d == 8 {
        '8'
    } else {
        '9'
    }
}

/// Appends the decimal rendering of `n`.
fn push_decimal(out: &mut String, n: usize)
    ensures
        final(out)@ == old(out)@ + dec_digits(n as int),
    decreases n,
{
    if n <= 9 {
        push_char(out, digit_to_char(n));
    } else {
        push_decimal(out, n / 10);
        push_char(out, digit_to_char(n % 10));
        proof {
            assert(final(out)@ =~= old(out)@ + dec_digits(n as int));
        }
    }
}

/// First line feed at or after `from`, or the end of the text.
fn find_nl(s: &str, from: usize) -> (r: usize)
    requires
        from <= s@.len(),
    ensures
        r == next_nl(s@, from as int),
        from <= r <= s@.len(),
{
    let n = s.unicode_len();
    let mut i = from;
    proof {
        lemma_next_nl(s@, from as int);
    }
    while i < n
        invariant
            from <= i <= n,
            n == s@.len(),
            next_nl(s@, i as int) == next_nl(s@, from as int),
        ensures
            i == next_nl(s@, from as int),
        decreases n - i,
    {
        if s.get_char(i) == '\n' {
            proof {
                assert(next_nl(s@, i as int) == i);
            }
            break ;
        }
        i = i + 1;
    }
    i
}

impl ScannerError {
    /// A renderable error: its line number is 1-based.
    pub open spec fn wf(&self) -> bool {
        meta_of(self@).line >= 1
    }

    /// Renders the full three-part diagnostic for this error.
    #[verifier::rlimit(60)]
    pub fn render(&self) -> (r: String)
        requires
            self.wf(),
        ensures
            r@ == render_seq(self@),
    {
        let (m, top, ptr) = match self {
            ScannerError::UnrecognizedToken(mm) => (
                mm,
                "Unrecognized token",
                "This should not be here",
            ),
            ScannerError::UnterminatedString(mm) => (
                mm,
                "Unterminated open quote",
                "This quotation mark is missing its partner",
            ),
            ScannerError::Deserialization(mm) => (
                mm,
                "Failed value conversion",
                "This could not be turned into a native value",
            ),
        };
        let src = &m.source;
        let ghost s = src@;
        let n = src.as_str().unicode_len();
        let target = m.line - 1;
        let mut k: usize = 0;
        let mut pos: usize = 0;
        let mut off: usize = 0;
        while k < target
            invariant
                k <= target,
                n == s.len(),
                s == src@,
                pos == line_index(s, k as int),
                off == lines_len_sum(s, k as int),
                off <= pos <= n,
            decreases target - k,
        {
            let e = find_nl(src.as_str(), pos);
            off = off + (e - pos);
            pos = if e < n {
                e + 1
            } else {
                n
            };
            k = k + 1;
        }
        let ls = pos;
        let le = find_nl(src.as_str(), ls);
        let col = if m.position >= off && m.position - off >= m.line {
            m.position - off - m.line
        } else {
            0
        };
        let mut out = String::new();
        out.append("ERROR: ");
        out.append(top);
        match m.lexeme {
            Some(c) => {
                out.append(" `");
                push_char(&mut out, c);
                out.append("`");
            },
            None => {},
        }
        out.append(" on line ");
        push_decimal(&mut out, m.line);
        out.append(".\n");
        out.append(src.as_str().substring_char(ls, le));
        out.append("\n");
        let ghost base = out@;
        let mut q: usize = 0;
        while q < col
            invariant
                q <= col,
                out@ =~= base + spaces(q as int),
            decreases col - q,
        {
            out.append(" ");
            q = q + 1;
        }
        out.append("\u{1F446} ----- ");
        out.append(ptr);
        out.append(".  ");
        proof {
            assert(out@ =~= render_seq(self@));
        }
        out
    }
}

} // verus!
