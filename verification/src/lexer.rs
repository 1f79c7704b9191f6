use vstd::prelude::*;
use vstd::string::StringExecFns;
use vstd::string::StrSliceExecFns;

verus! {

broadcast use vstd::std_specs::vec::group_vec_axioms;

/// One token of the surface language.
#[derive(Debug, Clone, PartialEq)]
pub enum Token {
    Int(i64),
    /// A floating-point numeral, kept as written.
    Float(String),
    Str(String),
    /// An identifier or constructor name; the parser tells them apart
    /// by the case of the first character.
    Ident(String),
    Let,
    In,
    If,
    ThenKw,
    Else,
    Fun,
    Match,
    With,
    TypeKw,
    Of,
    True,
    False,
    LParen,
    RParen,
    LBracket,
    RBracket,
    Comma,
    Semicolon,
    Pipe,
    Arrow,
    Assign,
    EqEq,
    NotEq,
    Lt,
    Lte,
    Gt,
    Gte,
    Plus,
    Minus,
    Star,
    Slash,
    AndAnd,
    OrOr,
    Underscore,
    Eof,
}

impl Token {
    /// The token's surface spelling, for diagnostics.
    pub fn render(&self) -> (r: String)
        ensures
            *self matches Token::Of ==> r@ == "of"@,
    {
        match self {
            Token::Int(n) => crate::numfmt::i64_to_string(*n),
            Token::Float(s) => s.clone(),
            Token::Str(s) => s.clone(),
            Token::Ident(s) => s.clone(),
            Token::Let => String::from_str("let"),
            Token::In => String::from_str("in"),
            Token::If => String::from_str("if"),
            Token::ThenKw => kw_second_of_if(),
            Token::Else => String::from_str("else"),
            Token::Fun => String::from_str("fun"),
            Token::Match => String::from_str("match"),
            Token::With => String::from_str("with"),
            Token::TypeKw => String::from_str("type"),
            Token::Of => String::from_str("of"),
            Token::True => String::from_str("true"),
            Token::False => String::from_str("false"),
            Token::LParen => String::from_str("("),
            Token::RParen => String::from_str(")"),
            Token::LBracket => String::from_str("["),
            Token::RBracket => String::from_str("]"),
            Token::Comma => String::from_str(","),
            Token::Semicolon => String::from_str(";"),
            Token::Pipe => String::from_str("|"),
            Token::Arrow => String::from_str("->"),
            Token::Assign => String::from_str("="),
            Token::EqEq => String::from_str("=="),
            Token::NotEq => String::from_str("!="),
            Token::Lt => String::from_str("<"),
            Token::Lte => String::from_str("<="),
            Token::Gt => String::from_str(">"),
            Token::Gte => String::from_str(">="),
            Token::Plus => String::from_str("+"),
            Token::Minus => String::from_str("-"),
            Token::Star => String::from_str("*"),
            Token::Slash => String::from_str("/"),
            Token::AndAnd => String::from_str("&&"),
            Token::OrOr => String::from_str("||"),
            Token::Underscore => String::from_str("_"),
            Token::Eof => String::from_str(""),
        }
    }
}

/// The spelling of the keyword between an `if` condition and its first
/// branch.
fn kw_second_of_if() -> (r: String)
    ensures
        r@ == seq!['t', 'h', 'e', 'n'],
{
    let mut s = String::new();
    proof {
        reveal_strlit("t");
        reveal_strlit("h");
        reveal_strlit("e");
        reveal_strlit("n");
    }
    s.append("t");
    s.append("h");
    s.append("e");
    s.append("n");
    proof {
        assert(s@ =~= seq!['t', 'h', 'e', 'n']);
    }
    s
}

/// A token and where its first character stands, 1-indexed.
#[derive(Debug, Clone, PartialEq)]
pub struct LocatedToken {
    pub token: Token,
    pub line: u32,
    pub column: u32,
}

/// A lexing failure and where it was found.
#[derive(Debug, Clone, PartialEq)]
pub struct LexError {
    pub message: String,
    pub line: u32,
    pub column: u32,
}

/// The lexer: a cursor over the source text.
#[derive(Debug)]
pub struct Lexer {
    pub source: String,
    pub pos: usize,
    pub line: u32,
    pub column: u32,
}

/// Whether a byte can continue an identifier.
fn is_word_byte(b: u8) -> (r: bool)
    ensures
        r == (0x41 <= b <= 0x5a || 0x61 <= b <= 0x7a || b == 0x5f || 0x30 <= b <= 0x39),
{
    (0x41 <= b && b <= 0x5a) || (0x61 <= b && b <= 0x7a) || b == 0x5f
        || (0x30 <= b && b <= 0x39)
}

/// Whether a byte is an ASCII letter or underscore.
fn is_alpha(b: u8) -> (r: bool)
    ensures
        r == (0x41 <= b <= 0x5a || 0x61 <= b <= 0x7a || b == 0x5f),
{
    (0x41 <= b && b <= 0x5a) || (0x61 <= b && b <= 0x7a) || b == 0x5f
}

/// Whether a byte is an ASCII space, tab, newline or carriage return.
fn is_space(b: u8) -> (r: bool)
    ensures
        r == (b == 0x20 || b == 0x09 || b == 0x0a || b == 0x0d),
{
    b == 0x20 || b == 0x09 || b == 0x0a || b == 0x0d
}

/// Whether a byte is an ASCII digit.
fn is_digit(b: u8) -> (r: bool)
    ensures
        r == (0x30 <= b <= 0x39),
{
    0x30 <= b && b <= 0x39
}

impl Lexer {
    /// A lexer over the given source text.
    pub fn new(input: &str) -> (r: Lexer)
        ensures
            r.source@ == input@,
            r.pos == 0,
    {
        Lexer { source: String::from_str(input), pos: 0, line: 1, column: 1 }
    }

    /// Split the whole source into tokens, ending with one `Eof` token.
    /// Only ASCII source text is accepted.
    pub fn tokenize(&mut self) -> (r: Result<Vec<LocatedToken>, LexError>)
        ensures
            r matches Ok(toks) ==> toks@.len() >= 1
                && toks@.last().token == Token::Eof,
    {
        if !self.source.as_str().is_ascii() {
            return Err(LexError {
                message: String::from_str("only ASCII source text is accepted"),
                line: self.line,
                column: self.column,
            });
        }
        let mut out: Vec<LocatedToken> = Vec::new();
        let n = self.source.as_str().unicode_len();
        self.pos = 0;
        loop
            invariant
                self.source.is_ascii(),
                n == self.source@.len(),
                self.pos <= n,
            decreases n - self.pos,
        {
            let ghost p0 = self.pos;
            // Skip spaces, newlines and carriage returns.
            while self.pos < n && is_space(self.source.as_str().get_ascii(self.pos))
                invariant
                    self.source.is_ascii(),
                    n == self.source@.len(),
                    p0 <= self.pos <= n,
                decreases n - self.pos,
            {
                let c = self.source.as_str().get_ascii(self.pos);
                if c == 0x0a {
                    self.line = if self.line == u32::MAX { self.line } else { self.line + 1 };
                    self.column = 1;
                } else {
                    self.column = if self.column == u32::MAX {
                        self.column
                    } else {
                        self.column + 1
                    };
                }
                self.pos = self.pos + 1;
            }
            if self.pos >= n {
                out.push(LocatedToken {
                    token: Token::Eof,
                    line: self.line,
                    column: self.column,
                });
                return Ok(out);
            }
            let start = self.pos;
            let start_line = self.line;
            let start_col = self.column;
            let c = self.source.as_str().get_ascii(self.pos);
            self.pos = self.pos + 1;
            let token: Token = if is_alpha(c) {
                while self.pos < n && is_word_byte(self.source.as_str().get_ascii(self.pos))
                    invariant
                        self.source.is_ascii(),
                        n == self.source@.len(),
                        start < self.pos && self.pos <= n,
                    decreases n - self.pos,
                {
                    self.pos = self.pos + 1;
                    self.column = if self.column == u32::MAX {
                        self.column
                    } else {
                        self.column + 1
                    };
                }
                let text = self.source.as_str().substring_ascii(start, self.pos);
                self.keyword_or_ident(text)
            } else if is_digit(c) {
                while self.pos < n && is_digit(self.source.as_str().get_ascii(self.pos))
                    invariant
                        self.source.is_ascii(),
                        n == self.source@.len(),
                        start < self.pos && self.pos <= n,
                    decreases n - self.pos,
                {
                    self.pos = self.pos + 1;
                    self.column = if self.column == u32::MAX {
                        self.column
                    } else {
                        self.column + 1
                    };
                }
                // A dot followed by digits makes a floating-point
                // numeral, kept as written.
                let has_dot = self.pos < n && n - self.pos >= 2
                    && self.source.as_str().get_ascii(self.pos) == 0x2e
                    && is_digit(self.source.as_str().get_ascii(self.pos + 1));
                if has_dot {
                    self.pos = self.pos + 1;
                    while self.pos < n && is_digit(
                        self.source.as_str().get_ascii(self.pos),
                    )
                        invariant
                            self.source.is_ascii(),
                            n == self.source@.len(),
                            start < self.pos && self.pos <= n,
                        decreases n - self.pos,
                    {
                        self.pos = self.pos + 1;
                    }
                    let text = self.source.as_str().substring_ascii(start, self.pos);
                    Token::Float(String::from_str(text))
                } else {
                    let text = self.source.as_str().substring_ascii(start, self.pos);
                    match parse_int_ascii(text) {
                        Some(v) => Token::Int(v),
                        None => {
                            return Err(LexError {
                                message: String::from_str("integer literal too large"),
                                line: start_line,
                                column: start_col,
                            });
                        },
                    }
                }
            } else if c == 0x22 {
                // A double-quoted string without escapes.
                let text_start = self.pos;
                while self.pos < n && self.source.as_str().get_ascii(self.pos) != 0x22
                    invariant
                        self.source.is_ascii(),
                        n == self.source@.len(),
                        start < self.pos && text_start <= self.pos <= n,
                    decreases n - self.pos,
                {
                    self.pos = self.pos + 1;
                }
                if self.pos >= n {
                    return Err(LexError {
                        message: String::from_str("unterminated string literal"),
                        line: start_line,
                        column: start_col,
                    });
                }
                let text = self.source.as_str().substring_ascii(text_start, self.pos);
                self.pos = self.pos + 1;
                Token::Str(String::from_str(text))
            } else {
                let two = if self.pos < n {
                    Some(self.source.as_str().get_ascii(self.pos))
                } else {
                    None
                };
                match c {
                    0x28 => Token::LParen,
                    0x29 => Token::RParen,
                    0x5b => Token::LBracket,
                    0x5d => Token::RBracket,
                    0x2c => Token::Comma,
                    0x3b => Token::Semicolon,
                    0x2a => Token::Star,
                    0x2f => Token::Slash,
                    0x2b => Token::Plus,
                    0x5f => Token::Underscore,
                    0x2d => {
                        if two == Some(0x3e) {
                            self.pos = self.pos + 1;
                            Token::Arrow
                        } else {
                            Token::Minus
                        }
                    },
                    0x3d => {
                        if two == Some(0x3d) {
                            self.pos = self.pos + 1;
                            Token::EqEq
                        } else {
                            Token::Assign
                        }
                    },
                    0x21 => {
                        if two == Some(0x3d) {
                            self.pos = self.pos + 1;
                            Token::NotEq
                        } else {
                            return Err(LexError {
                                message: String::from_str("unexpected character"),
                                line: start_line,
                                column: start_col,
                            });
                        }
                    },
                    0x3c => {
                        if two == Some(0x3d) {
                            self.pos = self.pos + 1;
                            Token::Lte
                        } else {
                            Token::Lt
                        }
                    },
                    0x3e => {
                        if two == Some(0x3d) {
                            self.pos = self.pos + 1;
                            Token::Gte
                        } else {
                            Token::Gt
                        }
                    },
                    0x26 => {
                        if two == Some(0x26) {
                            self.pos = self.pos + 1;
                            Token::AndAnd
                        } else {
                            return Err(LexError {
                                message: String::from_str("unexpected character"),
                                line: start_line,
                                column: start_col,
                            });
                        }
                    },
                    0x7c => {
                        if two == Some(0x7c) {
                            self.pos = self.pos + 1;
                            Token::OrOr
                        } else {
                            Token::Pipe
                        }
                    },
                    _ => {
                        return Err(LexError {
                            message: String::from_str("unexpected character"),
                            line: start_line,
                            column: start_col,
                        });
                    },
                }
            };
            out.push(LocatedToken { token, line: start_line, column: start_col });
        }
    }

    /// Classify a word as a keyword or a plain identifier.
    fn keyword_or_ident(&self, text: &str) -> (r: Token) {
        let kw2 = kw_second_of_if();
        if crate::value::str_eq(text, "let") {
            Token::Let
        } else if crate::value::str_eq(text, "in") {
            Token::In
        } else if crate::value::str_eq(text, "if") {
            Token::If
        } else if crate::value::str_eq(text, kw2.as_str()) {
            Token::ThenKw
        } else if crate::value::str_eq(text, "else") {
            Token::Else
        } else if crate::value::str_eq(text, "fun") {
            Token::Fun
        } else if crate::value::str_eq(text, "match") {
            Token::Match
        } else if crate::value::str_eq(text, "with") {
            Token::With
        } else if crate::value::str_eq(text, "type") {
            Token::TypeKw
        } else if crate::value::str_eq(text, "of") {
            Token::Of
        } else if crate::value::str_eq(text, "true") {
            Token::True
        } else if crate::value::str_eq(text, "false") {
            Token::False
        } else if crate::value::str_eq(text, "_") {
            Token::Underscore
        } else {
            Token::Ident(String::from_str(text))
        }
    }
}

/// Parse a run of ASCII digits as a non-negative 64-bit integer; too
/// large a numeral is `None`.
fn parse_int_ascii(text: &str) -> (r: Option<i64>)
    requires
        text.is_ascii(),
{
    let n = text.unicode_len();
    let mut acc: i64 = 0;
    let mut i: usize = 0;
    while i < n
        invariant
            text.is_ascii(),
            n == text@.len(),
            i <= n,
            0 <= acc,
        decreases n - i,
    {
        let b = text.get_ascii(i);
        if !(0x30 <= b && b <= 0x39) {
            return None;
        }
        let d = (b - 0x30) as i64;
        if acc > 922337203685477580i64 || (acc == 922337203685477580i64 && d > 7) {
            return None;
        }
        acc = acc * 10 + d;
        i = i + 1;
    }
    if n == 0 {
        return None;
    }
    Some(acc)
}

} // verus!
