//! Tokens: the classified lexical units that the scanner produces and the
//! parser consumes, together with the keyword table.
use vstd::prelude::*;

verus! {

/// The closed set of token classifications: single- and double-character
/// operators, literal kinds, keywords, and the two control markers
/// `IGNORE` (whitespace, comments and newlines, dropped before parsing)
/// and `EOF` (end of input).
#[derive(Clone, Copy, PartialEq, Eq, Structural, Debug)]
pub enum TokenType {
    LeftParen,
    RightParen,
    LeftBrace,
    RightBrace,
    COMMA,
    DOT,
    MINUS,
    PLUS,
    SEMICOLON,
    STAR,
    SLASH,
    BANG,
    BangEqual,
    EQUAL,
    EqualEqual,
    LESS,
    LessEqual,
    GREATER,
    GreaterEqual,
    NUMBER,
    STRING,
    IDENTIFIER,
    FUN,
    IF,
    ELSE,
    BREAK,
    TRUE,
    FALSE,
    NIL,
    IGNORE,
    EOF,
}

/// The mathematical model of a token: its line as a `nat` and its lexeme
/// as a sequence of characters.
pub struct SToken {
    pub line: nat,
    pub ty: TokenType,
    pub lexeme: Seq<char>,
}

/// A classified unit of source text: its originating line, its
/// classification and its exact source spelling (empty for keywords and
/// operators).
#[derive(Debug)]
pub struct Token {
    pub line: usize,
    pub token_type: TokenType,
    pub lexeme: String,
}

impl View for Token {
    type V = SToken;

    open spec fn view(&self) -> SToken {
        SToken { line: self.line as nat, ty: self.token_type, lexeme: self.lexeme@ }
    }
}

impl Token {
    /// Creates a new token at the given line with the given spelling.
    pub fn new(line: usize, token_type: TokenType, lexeme: String) -> (t: Token)
        ensures
            t@ == (SToken { line: line as nat, ty: token_type, lexeme: lexeme@ }),
    {
        Token { line, token_type, lexeme }
    }

    /// Returns the token's classification.
    pub fn get_type(&self) -> (t: &TokenType)
        ensures
            *t == self@.ty,
    {
        &self.token_type
    }

    /// Returns the token's source spelling.
    pub fn get_lexeme(&self) -> (l: &String)
        ensures
            l@ == self@.lexeme,
    {
        &self.lexeme
    }

    /// Returns the line the token came from.
    pub fn get_line(&self) -> (l: usize)
        ensures
            l as nat == self@.line,
    {
        self.line
    }

    /// Checks whether the token has the given classification.
    pub fn is_type(&self, token_type: &TokenType) -> (r: bool)
        ensures
            r == (self@.ty == *token_type),
    {
        self.token_type == *token_type
    }

    /// Checks whether the token is whitespace, a comment or a newline,
    /// which the scanner drops before handing tokens to the parser.
    pub fn ignore(&self) -> (r: bool)
        ensures
            r == (self@.ty == TokenType::IGNORE),
    {
        self.token_type == TokenType::IGNORE
    }

    /// Returns a token equal to this one.
    pub fn duplicate(&self) -> (t: Token)
        ensures
            t == *self,
    {
        Token { line: self.line, token_type: self.token_type, lexeme: self.lexeme.clone() }
    }
}

/// The models of a token vector, in order.
pub open spec fn stokens(v: Seq<Token>) -> Seq<SToken> {
    v.map_values(|t: Token| t@)
}

/// The end-of-input marker the parser reads when its cursor has passed
/// the last token.
pub open spec fn sp_eof_token() -> SToken {
    SToken { line: 0, ty: TokenType::EOF, lexeme: Seq::empty() }
}

/// The keyword table: the reserved-word spellings and their
/// classifications. Exact, case-sensitive match only.
pub open spec fn sp_keyword(s: Seq<char>) -> Option<TokenType> {
    if s == "fun"@ {
        Some(TokenType::FUN)
    } else if s == "if"@ {
        Some(TokenType::IF)
    } else if s == "else"@ {
        Some(TokenType::ELSE)
    } else if s == "break"@ {
        Some(TokenType::BREAK)
    } else if s == "true"@ {
        Some(TokenType::TRUE)
    } else if s == "false"@ {
        Some(TokenType::FALSE)
    } else if s == "nil"@ {
        Some(TokenType::NIL)
    } else {
        None
    }
}

/// Looks a spelling up in the keyword table: a hit yields the keyword's
/// classification, a miss means the spelling is an ordinary identifier.
pub fn keyword_lookup(s: &String) -> (r: Option<TokenType>)
    ensures
        r == sp_keyword(s@),
{
    if *s == "fun".to_owned() {
        Some(TokenType::FUN)
    } else if *s == "if".to_owned() {
        Some(TokenType::IF)
    } else if *s == "else".to_owned() {
        Some(TokenType::ELSE)
    } else if *s == "break".to_owned() {
        Some(TokenType::BREAK)
    } else if *s == "true".to_owned() {
        Some(TokenType::TRUE)
    } else if *s == "false".to_owned() {
        Some(TokenType::FALSE)
    } else if *s == "nil".to_owned() {
        Some(TokenType::NIL)
    } else {
        None
    }
}

} // verus!
