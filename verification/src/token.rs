use vstd::prelude::*;
use vstd::string::*;

verus! {

/// The closed set of lexical categories. Literal kinds carry their payload:
/// the identifier text, the string contents (without the delimiting quotes),
/// or the exact numeral text as it appeared in the source.
#[derive(Debug, Clone)]
pub enum TokenType {
    // Single character tokens
    LeftParen,
    RightParen,
    LeftBrace,
    RightBrace,
    Comma,
    Dot,
    Minus,
    Plus,
    Semicolon,
    Slash,
    Star,
    // One or two character tokens
    Bang,
    BangEqual,
    Equal,
    EqualEqual,
    Greater,
    GreaterEqual,
    Less,
    LessEqual,
    // Literals
    Identifier(String),
    String(String),
    Number(String),
    // Keywords
    And,
    Class,
    Else,
    False,
    Fun,
    For,
    If,
    Nil,
    Or,
    Print,
    Return,
    Super,
    This,
    True,
    Var,
    While,
    Eof,
}

/// Mathematical model of a token kind: payloads are character sequences.
pub ghost enum TokenTypeV {
    LeftParen,
    RightParen,
    LeftBrace,
    RightBrace,
    Comma,
    Dot,
    Minus,
    Plus,
    Semicolon,
    Slash,
    Star,
    Bang,
    BangEqual,
    Equal,
    EqualEqual,
    Greater,
    GreaterEqual,
    Less,
    LessEqual,
    Identifier(Seq<char>),
    String(Seq<char>),
    Number(Seq<char>),
    And,
    Class,
    Else,
    False,
    Fun,
    For,
    If,
    Nil,
    Or,
    Print,
    Return,
    Super,
    This,
    True,
    Var,
    While,
    Eof,
}

impl View for TokenType {
    type V = TokenTypeV;

    open spec fn view(&self) -> TokenTypeV {
        match self {
            TokenType::LeftParen => TokenTypeV::LeftParen,
            TokenType::RightParen => TokenTypeV::RightParen,
            TokenType::LeftBrace => TokenTypeV::LeftBrace,
            TokenType::RightBrace => TokenTypeV::RightBrace,
            TokenType::Comma => TokenTypeV::Comma,
            TokenType::Dot => TokenTypeV::Dot,
            TokenType::Minus => TokenTypeV::Minus,
            TokenType::Plus => TokenTypeV::Plus,
            TokenType::Semicolon => TokenTypeV::Semicolon,
            TokenType::Slash => TokenTypeV::Slash,
            TokenType::Star => TokenTypeV::Star,
            TokenType::Bang => TokenTypeV::Bang,
            TokenType::BangEqual => TokenTypeV::BangEqual,
            TokenType::Equal => TokenTypeV::Equal,
            TokenType::EqualEqual => TokenTypeV::EqualEqual,
            TokenType::Greater => TokenTypeV::Greater,
            TokenType::GreaterEqual => TokenTypeV::GreaterEqual,
            TokenType::Less => TokenTypeV::Less,
            TokenType::LessEqual => TokenTypeV::LessEqual,
            TokenType::Identifier(s) => TokenTypeV::Identifier(s@),
            TokenType::String(s) => TokenTypeV::String(s@),
            TokenType::Number(s) => TokenTypeV::Number(s@),
            TokenType::And => TokenTypeV::And,
            TokenType::Class => TokenTypeV::Class,
            TokenType::Else => TokenTypeV::Else,
            TokenType::False => TokenTypeV::False,
            TokenType::Fun => TokenTypeV::Fun,
            TokenType::For => TokenTypeV::For,
            TokenType::If => TokenTypeV::If,
            TokenType::Nil => TokenTypeV::Nil,
            TokenType::Or => TokenTypeV::Or,
            TokenType::Print => TokenTypeV::Print,
            TokenType::Return => TokenTypeV::Return,
            TokenType::Super => TokenTypeV::Super,
            TokenType::This => TokenTypeV::This,
            TokenType::True => TokenTypeV::True,
            TokenType::Var => TokenTypeV::Var,
            TokenType::While => TokenTypeV::While,
            TokenType::Eof => TokenTypeV::Eof,
        }
    }
}

/// A classified lexical unit. `lexeme` reproduces the consumed source text
/// (with the delimiting quotes stripped for string literals); it is absent
/// only for the end-of-input sentinel. `line` is the 1-based line number
/// where the token's first character occurs; the end-of-input sentinel
/// carries the line the scan ended on.
#[derive(Debug, Clone)]
pub struct Token {
    pub token_type: TokenType,
    pub lexeme: Option<String>,
    pub line: usize,
}

/// Mathematical model of a token.
pub ghost struct TokenV {
    pub token_type: TokenTypeV,
    pub lexeme: Option<Seq<char>>,
    pub line: int,
}

impl View for Token {
    type V = TokenV;

    open spec fn view(&self) -> TokenV {
        TokenV {
            token_type: self.token_type@,
            lexeme: match self.lexeme {
                Option::Some(ref s) => Option::Some(s@),
                Option::None => Option::None,
            },
            line: self.line as int,
        }
    }
}

/// The fixed keyword table: the token kind reserved for `s`, if any.
/// Keyword recognition is total over these sixteen spellings, so no
/// identifier may ever collide with a keyword.
pub open spec fn keyword_token(s: Seq<char>) -> Option<TokenTypeV> {
    if s == "and"@ {
        Some(TokenTypeV::And)
    } else if s == "class"@ {
        Some(TokenTypeV::Class)
    } else if s == "else"@ {
        Some(TokenTypeV::Else)
    } else if s == "false"@ {
        Some(TokenTypeV::False)
    } else if s == "for"@ {
        Some(TokenTypeV::For)
    } else if s == "fun"@ {
        Some(TokenTypeV::Fun)
    } else if s == "if"@ {
        Some(TokenTypeV::If)
    } else if s == "nil"@ {
        Some(TokenTypeV::Nil)
    } else if s == "or"@ {
        Some(TokenTypeV::Or)
    } else if s == "print"@ {
        Some(TokenTypeV::Print)
    } else if s == "return"@ {
        Some(TokenTypeV::Return)
    } else if s == "super"@ {
        Some(TokenTypeV::Super)
    } else if s == "this"@ {
        Some(TokenTypeV::This)
    } else if s == "true"@ {
        Some(TokenTypeV::True)
    } else if s == "var"@ {
        Some(TokenTypeV::Var)
    } else if s == "while"@ {
        Some(TokenTypeV::While)
    } else {
        None
    }
}

/// Model of an optional token kind.
pub open spec fn opt_token_type_view(r: Option<TokenType>) -> Option<TokenTypeV> {
    match r {
        Option::Some(t) => Option::Some(t@),
        Option::None => Option::None,
    }
}

/// Character-by-character string equality, so that the result is known to
/// decide equality of the two views.
pub(crate) fn str_eq(a: &str, b: &str) -> (r: bool)
    ensures
        r == (a@ == b@),
{
    let la = a.unicode_len();
    let lb = b.unicode_len();
    if la != lb {
        return false;
    }
    let mut i: usize = 0;
    while i < la
        invariant
            0 <= i <= la,
            la == a@.len(),
            lb == b@.len(),
            la == lb,
            forall|j: int| 0 <= j < i ==> a@[j] == b@[j],
        decreases la - i,
    {
        let ca = a.get_char(i);
        let cb = b.get_char(i);
        if ca != cb {
            return false;
        }
        i += 1;
    }
    proof {
        assert(a@ =~= b@);
    }
    true
}

impl TokenType {
    /// Looks `key` up in the fixed keyword table.
    pub fn parse_keyword(key: &str) -> (r: Option<TokenType>)
        ensures
            opt_token_type_view(r) == keyword_token(key@),
    {
        if str_eq(key, "and") {
            Some(TokenType::And)
        } else if str_eq(key, "class") {
            Some(TokenType::Class)
        } else if str_eq(key, "else") {
            Some(TokenType::Else)
        } else if str_eq(key, "false") {
            Some(TokenType::False)
        } else if str_eq(key, "for") {
            Some(TokenType::For)
        } else if str_eq(key, "fun") {
            Some(TokenType::Fun)
        } else if str_eq(key, "if") {
            Some(TokenType::If)
        } else if str_eq(key, "nil") {
            Some(TokenType::Nil)
        } else if str_eq(key, "or") {
            Some(TokenType::Or)
        } else if str_eq(key, "print") {
            Some(TokenType::Print)
        } else if str_eq(key, "return") {
            Some(TokenType::Return)
        } else if str_eq(key, "super") {
            Some(TokenType::Super)
        } else if str_eq(key, "this") {
            Some(TokenType::This)
        } else if str_eq(key, "true") {
            Some(TokenType::True)
        } else if str_eq(key, "var") {
            Some(TokenType::Var)
        } else if str_eq(key, "while") {
            Some(TokenType::While)
        } else {
            None
        }
    }
}

} // verus!
