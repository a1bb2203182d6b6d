//! The scanner: converts a character sequence into an ordered token
//! sequence in a single greedy pass with one character of lookahead, or
//! fails with a single lexical error. There is no lexical recovery: the
//! first illegal character, or an unterminated string, aborts the scan.
use vstd::prelude::*;
use vstd::string::StringExecFns;
use crate::numeral::{sp_decimal, usize_to_string};
use crate::strutil::{char_is_alphanumeric, char_is_numeric, chars_of, string_push, unicode_alphanumeric, unicode_numeric};
use crate::token::{sp_keyword, keyword_lookup, stokens, SToken, Token, TokenType};

verus! {

/// One step of the scan: the token produced (or the lexical error), the
/// position of the first character not consumed, and the line counter
/// after the step.
pub struct SScanStep {
    pub res: Result<SToken, Seq<char>>,
    pub next: int,
    pub line: nat,
}

/// Whether a character is an ASCII decimal digit, which opens a number.
pub open spec fn sp_is_digit(c: char) -> bool {
    '0' as u32 <= c as u32 <= '9' as u32
}

/// Whether a character is an ASCII letter, which opens an identifier.
pub open spec fn sp_is_alpha(c: char) -> bool {
    ('a' as u32 <= c as u32 <= 'z' as u32) || ('A' as u32 <= c as u32 <= 'Z' as u32)
}

/// The first position at or after `i` whose character is not numeric
/// under Unicode, or the end of the input.
pub open spec fn sp_skip_numeric(src: Seq<char>, i: int) -> int
    decreases src.len() - i,
    when 0 <= i <= src.len()
{
    if i >= src.len() {
        i
    } else if unicode_numeric(src[i]) {
        sp_skip_numeric(src, i + 1)
    } else {
        i
    }
}

/// The first position at or after `i` whose character is not
/// alphanumeric under Unicode, or the end of the input.
pub open spec fn sp_skip_alphanumeric(src: Seq<char>, i: int) -> int
    decreases src.len() - i,
    when 0 <= i <= src.len()
{
    if i >= src.len() {
        i
    } else if unicode_alphanumeric(src[i]) {
        sp_skip_alphanumeric(src, i + 1)
    } else {
        i
    }
}

/// The first position at or after `i` holding the character `c`, or the
/// end of the input.
pub open spec fn sp_find_char(src: Seq<char>, i: int, c: char) -> int
    decreases src.len() - i,
    when 0 <= i <= src.len()
{
    if i >= src.len() {
        i
    } else if src[i] == c {
        i
    } else {
        sp_find_char(src, i + 1, c)
    }
}

/// How many newline characters lie in `src` between `i` (inclusive) and
/// `j` (exclusive).
pub open spec fn sp_count_newlines(src: Seq<char>, i: int, j: int) -> nat
    decreases j - i,
    when i <= j <= src.len() && 0 <= i
{
    if i >= j {
        0
    } else {
        (if src[i] == '\n' {
            1nat
        } else {
            0nat
        }) + sp_count_newlines(src, i + 1, j)
    }
}

/// Counting over `[i, j + 1)` adds the character at `j` to the count
/// over `[i, j)`.
pub proof fn lemma_count_newlines_snoc(src: Seq<char>, i: int, j: int)
    requires
        0 <= i <= j,
        j + 1 <= src.len(),
    ensures
        sp_count_newlines(src, i, j + 1) == sp_count_newlines(src, i, j) + (if src[j] == '\n' {
            1nat
        } else {
            0nat
        }),
    decreases j - i,
{
    reveal_with_fuel(sp_count_newlines, 2);
    if i < j {
        lemma_count_newlines_snoc(src, i + 1, j);
    }
}

/// A newline count over a range is bounded by the range's width.
pub proof fn lemma_count_newlines_le(src: Seq<char>, i: int, j: int)
    requires
        0 <= i <= j <= src.len(),
    ensures
        sp_count_newlines(src, i, j) <= j - i,
    decreases j - i,
{
    if i < j {
        lemma_count_newlines_le(src, i + 1, j);
    }
}

/// The scanner's error format: the line, then the message.
pub open spec fn sp_error_msg(line: nat, msg: Seq<char>) -> Seq<char> {
    "[line : "@ + sp_decimal(line) + "] Error : "@ + msg
}

/// A step that produced an operator or control token, which carries no
/// spelling.
pub open spec fn sp_op_step(line: nat, ty: TokenType, next: int) -> SScanStep {
    SScanStep { res: Ok(SToken { line, ty, lexeme: Seq::empty() }), next, line }
}

/// Scanning a number: decimal digits, optionally followed by a dot and
/// more digits; the dot is consumed only when a digit follows it
/// immediately, otherwise it is left for the next step.
pub open spec fn sp_number(src: Seq<char>, start: int, line: nat) -> SScanStep
    recommends
        0 <= start < src.len(),
{
    let j1 = sp_skip_numeric(src, start + 1);
    let after_dot = if j1 + 1 >= src.len() {
        '\0'
    } else {
        src[j1 + 1]
    };
    if j1 < src.len() && src[j1] == '.' && unicode_numeric(after_dot) {
        let j2 = sp_skip_numeric(src, j1 + 1);
        SScanStep {
            res: Ok(SToken { line, ty: TokenType::NUMBER, lexeme: src.subrange(start, j2) }),
            next: j2,
            line,
        }
    } else {
        SScanStep {
            res: Ok(SToken { line, ty: TokenType::NUMBER, lexeme: src.subrange(start, j1) }),
            next: j1,
            line,
        }
    }
}

/// Scanning a string literal: the contents between the quotes are taken
/// verbatim, embedded newlines are permitted and counted; reaching the
/// end of the input before a closing quote is a lexical error.
pub open spec fn sp_string(src: Seq<char>, start: int, line: nat) -> SScanStep
    recommends
        0 <= start < src.len(),
{
    let q = sp_find_char(src, start + 1, '"');
    if q >= src.len() {
        let line2 = line + sp_count_newlines(src, start + 1, src.len() as int);
        SScanStep {
            res: Err(sp_error_msg(line2 as nat, "Unterminated string sequence"@)),
            next: src.len() as int,
            line: line2 as nat,
        }
    } else {
        let line2 = line + sp_count_newlines(src, start + 1, q);
        SScanStep {
            res: Ok(
                SToken {
                    line: line2 as nat,
                    ty: TokenType::STRING,
                    lexeme: src.subrange(start + 1, q),
                },
            ),
            next: q + 1,
            line: line2 as nat,
        }
    }
}

/// Scanning an identifier: the full alphanumeric run is looked up in
/// the keyword table; a hit yields the keyword's classification with an
/// empty spelling, a miss an `IDENTIFIER` keeping its exact source
/// substring.
pub open spec fn sp_identifier(src: Seq<char>, start: int, line: nat) -> SScanStep
    recommends
        0 <= start < src.len(),
{
    let j = sp_skip_alphanumeric(src, start + 1);
    let lex = src.subrange(start, j);
    match sp_keyword(lex) {
        Some(k) => sp_op_step(line, k, j),
        None => SScanStep {
            res: Ok(SToken { line, ty: TokenType::IDENTIFIER, lexeme: lex }),
            next: j,
            line,
        },
    }
}

/// One scan step starting at `start`: greedy matching with one
/// character of lookahead for the compound operators, `//` comments,
/// strings, numbers and identifiers. Any character not covered is a
/// lexical error naming it.
pub open spec fn sp_scan_token(src: Seq<char>, start: int, line: nat) -> SScanStep
    recommends
        0 <= start < src.len(),
{
    let c = src[start];
    let two = start + 1 < src.len() && src[start + 1] == '=';
    if c == '(' {
        sp_op_step(line, TokenType::LeftParen, start + 1)
    } else if c == ')' {
        sp_op_step(line, TokenType::RightParen, start + 1)
    } else if c == '{' {
        sp_op_step(line, TokenType::LeftBrace, start + 1)
    } else if c == '}' {
        sp_op_step(line, TokenType::RightBrace, start + 1)
    } else if c == ',' {
        sp_op_step(line, TokenType::COMMA, start + 1)
    } else if c == '.' {
        sp_op_step(line, TokenType::DOT, start + 1)
    } else if c == '-' {
        sp_op_step(line, TokenType::MINUS, start + 1)
    } else if c == '+' {
        sp_op_step(line, TokenType::PLUS, start + 1)
    } else if c == ';' {
        sp_op_step(line, TokenType::SEMICOLON, start + 1)
    } else if c == '*' {
        sp_op_step(line, TokenType::STAR, start + 1)
    } else if c == '!' {
        if two {
            sp_op_step(line, TokenType::BangEqual, start + 2)
        } else {
            sp_op_step(line, TokenType::BANG, start + 1)
        }
    } else if c == '=' {
        if two {
            sp_op_step(line, TokenType::EqualEqual, start + 2)
        } else {
            sp_op_step(line, TokenType::EQUAL, start + 1)
        }
    } else if c == '<' {
        if two {
            sp_op_step(line, TokenType::LessEqual, start + 2)
        } else {
            sp_op_step(line, TokenType::LESS, start + 1)
        }
    } else if c == '>' {
        if two {
            sp_op_step(line, TokenType::GreaterEqual, start + 2)
        } else {
            sp_op_step(line, TokenType::GREATER, start + 1)
        }
    } else if c == '/' {
        if start + 1 < src.len() && src[start + 1] == '/' {
            sp_op_step(line, TokenType::IGNORE, sp_find_char(src, start + 2, '\n'))
        } else {
            sp_op_step(line, TokenType::SLASH, start + 1)
        }
    } else if c == '\n' {
        sp_op_step(line + 1, TokenType::IGNORE, start + 1)
    } else if c == ' ' || c == '\r' || c == '\t' {
        sp_op_step(line, TokenType::IGNORE, start + 1)
    } else if c == '"' {
        sp_string(src, start, line)
    } else if sp_is_digit(c) {
        sp_number(src, start, line)
    } else if sp_is_alpha(c) {
        sp_identifier(src, start, line)
    } else {
        SScanStep { res: Err("unexpected token : "@.push(c)), next: start + 1, line }
    }
}

/// The whole scan from position `i` on: the tokens in order with
/// `IGNORE` dropped, or the first lexical error. A scan step always
/// consumes at least one character; the arm for a step that did not is
/// unreachable and only keeps the recursion well-founded.
pub open spec fn sp_scan_rest(src: Seq<char>, i: int, line: nat) -> Result<Seq<SToken>, Seq<char>>
    decreases src.len() - i,
    when 0 <= i <= src.len()
{
    if i >= src.len() {
        Ok(Seq::empty())
    } else {
        let st = sp_scan_token(src, i, line);
        if i < st.next <= src.len() {
            match st.res {
                Err(m) => Err(m),
                Ok(t) => match sp_scan_rest(src, st.next, st.line) {
                    Err(m) => Err(m),
                    Ok(rest) => Ok(
                        if t.ty == TokenType::IGNORE {
                            rest
                        } else {
                            seq![t] + rest
                        },
                    ),
                },
            }
        } else {
            Err(Seq::empty())
        }
    }
}

/// The scanner: owns its character buffer, the tokens produced so far,
/// the bounds of the token being scanned and the current line.
#[derive(Debug)]
pub struct Scanner {
    pub tokens: Vec<Token>,
    pub source: Vec<char>,
    pub start: usize,
    pub current: usize,
    pub line: usize,
}

impl Scanner {
    /// Creates a new scanner for the given source code, starting at the
    /// first character of line one.
    pub fn new(source: &String) -> (s: Scanner)
        ensures
            s.tokens@ =~= Seq::<Token>::empty(),
            s.source@ == source@,
            s.start == 0,
            s.current == 0,
            s.line == 1,
    {
        Scanner {
            tokens: Vec::new(),
            source: chars_of(source.as_str()),
            start: 0,
            current: 0,
            line: 1,
        }
    }

    /// Checks whether the whole input has been consumed.
    fn is_at_end(&self) -> (r: bool)
        ensures
            r == (self.current >= self.source.len()),
    {
        self.current >= self.source.len()
    }

    /// Consumes and returns the character at the cursor.
    fn advance(&mut self) -> (c: char)
        requires
            old(self).current < old(self).source.len(),
        ensures
            *final(self) == (Scanner { current: (old(self).current + 1) as usize, ..*old(self) }),
            c == old(self).source@[old(self).current as int],
    {
        self.current = self.current + 1;
        self.source[self.current - 1]
    }

    /// Reads the character at the cursor without consuming it; the end
    /// of the input reads as `'\0'`.
    fn peek(&self) -> (c: char)
        ensures
            c == (if self.current < self.source.len() {
                self.source@[self.current as int]
            } else {
                '\0'
            }),
    {
        if self.is_at_end() {
            '\0'
        } else {
            self.source[self.current]
        }
    }

    /// Reads one character past the cursor without consuming; one past
    /// the end of the input reads as `'\0'`.
    fn peek_next(&self) -> (c: char)
        requires
            self.current < self.source.len(),
        ensures
            c == (if self.current + 1 >= self.source.len() {
                '\0'
            } else {
                self.source@[self.current + 1]
            }),
    {
        if self.current + 1 == self.source.len() {
            '\0'
        } else {
            self.source[self.current + 1]
        }
    }

    /// Consumes the character at the cursor only if it is the expected
    /// one.
    fn match_next(&mut self, expect: char) -> (r: bool)
        ensures
            r == (old(self).current < old(self).source.len() && old(self).source@[old(
                self,
            ).current as int] == expect),
            *final(self) == (Scanner {
                current: if r {
                    (old(self).current + 1) as usize
                } else {
                    old(self).current
                },
                ..*old(self)
            }),
    {
        if self.is_at_end() {
            false
        } else if self.source[self.current] == expect {
            self.current = self.current + 1;
            true
        } else {
            false
        }
    }

    /// Creates a token of the given classification at the current line.
    fn token(&self, token: TokenType, lexeme: String) -> (t: Token)
        ensures
            t@ == (SToken { line: self.line as nat, ty: token, lexeme: lexeme@ }),
    {
        Token::new(self.line, token, lexeme)
    }

    /// Copies the characters between `from` (inclusive) and `to`
    /// (exclusive) into a fresh string.
    fn substring(&self, from: usize, to: usize) -> (s: String)
        requires
            from <= to <= self.source.len(),
        ensures
            s@ == self.source@.subrange(from as int, to as int),
    {
        let mut s = String::new();
        let mut k: usize = from;
        while k < to
            invariant
                from <= k <= to <= self.source.len(),
                s@ == self.source@.subrange(from as int, k as int),
            decreases to - k,
        {
            string_push(&mut s, self.source[k]);
            k = k + 1;
            proof {
                assert(s@ =~= self.source@.subrange(from as int, k as int));
            }
        }
        s
    }

    /// Creates a lexical error naming the current line.
    pub fn error(&self, message: String) -> (r: Result<Token, String>)
        ensures
            r matches Err(m) && m@ == sp_error_msg(self.line as nat, message@),
    {
        let mut m = "[line : ".to_owned();
        let num = usize_to_string(self.line);
        m.append(num.as_str());
        m.append("] Error : ");
        m.append(message.as_str());
        proof {
            assert(m@ =~= sp_error_msg(self.line as nat, message@));
        }
        Err(m)
    }

    /// Scans a number at the opening digit: more digits, optionally a
    /// fractional part when a digit immediately follows the dot.
    fn number(&mut self) -> (r: Result<Token, String>)
        requires
            old(self).current == old(self).start + 1,
            old(self).current <= old(self).source.len(),
        ensures
            ({
                let st = sp_number(old(self).source@, old(self).start as int, old(self).line as nat);
                &&& final(self).source == old(self).source
                &&& final(self).tokens == old(self).tokens
                &&& final(self).start == old(self).start
                &&& final(self).line == old(self).line
                &&& final(self).current as int == st.next
                &&& final(self).current <= final(self).source.len()
                &&& old(self).current <= final(self).current
                &&& r matches Ok(t) && st.res == Ok::<SToken, Seq<char>>(t@)
            }),
    {
        let ghost src = self.source@;
        let ghost pos0 = self.current as int;
        loop
            invariant
                0 <= pos0 <= self.current <= self.source.len(),
                self.source == old(self).source,
                src == self.source@,
                self.tokens == old(self).tokens,
                self.start == old(self).start,
                self.line == old(self).line,
                sp_skip_numeric(src, pos0) == sp_skip_numeric(src, self.current as int),
            ensures
                self.source == old(self).source,
                src == self.source@,
                self.tokens == old(self).tokens,
                self.start == old(self).start,
                self.line == old(self).line,
                0 <= pos0 <= self.current <= self.source.len(),
                self.current as int == sp_skip_numeric(src, pos0),
            decreases self.source.len() - self.current,
        {
            let p = self.peek();
            if !char_is_numeric(p) {
                break;
            }
            if self.is_at_end() {
                break;
            }
            let _ = self.advance();
        }
        let ghost j1 = self.current as int;
        if self.peek() == '.' && char_is_numeric(self.peek_next()) {
            let _ = self.advance();
            let ghost mid0 = self.current as int;
            loop
                invariant
                    0 <= mid0 <= self.current <= self.source.len(),
                    self.source == old(self).source,
                    src == self.source@,
                    self.tokens == old(self).tokens,
                    self.start == old(self).start,
                    self.line == old(self).line,
                    sp_skip_numeric(src, mid0) == sp_skip_numeric(src, self.current as int),
                ensures
                    self.source == old(self).source,
                    src == self.source@,
                    self.tokens == old(self).tokens,
                    self.start == old(self).start,
                    self.line == old(self).line,
                    0 <= mid0 <= self.current <= self.source.len(),
                    self.current as int == sp_skip_numeric(src, mid0),
                decreases self.source.len() - self.current,
            {
                let p = self.peek();
                if !char_is_numeric(p) {
                    break;
                }
                if self.is_at_end() {
                    break;
                }
                let _ = self.advance();
            }
        }
        Ok(self.token(TokenType::NUMBER, self.substring(self.start, self.current)))
    }

    /// Scans a string literal at the opening quote; its contents are
    /// taken verbatim, embedded newlines are permitted and counted.
    fn string(&mut self) -> (r: Result<Token, String>)
        requires
            old(self).current == old(self).start + 1,
            old(self).current <= old(self).source.len(),
            old(self).line + (old(self).source.len() - old(self).current) <= usize::MAX,
        ensures
            ({
                let st = sp_string(old(self).source@, old(self).start as int, old(self).line as nat);
                &&& final(self).source == old(self).source
                &&& final(self).tokens == old(self).tokens
                &&& final(self).start == old(self).start
                &&& final(self).current as int == st.next
                &&& final(self).line as nat == st.line
                &&& final(self).current <= final(self).source.len()
                &&& old(self).current <= final(self).current
                &&& final(self).line as int <= old(self).line + (final(self).current
                    - old(self).current)
                &&& match (r, st.res) {
                    (Ok(t), Ok(s)) => t@ == s,
                    (Err(m), Err(sm)) => m@ == sm,
                    _ => false,
                }
            }),
    {
        let ghost src = self.source@;
        let ghost pos0 = self.current as int;
        let ghost line0 = self.line as nat;
        loop
            invariant
                0 <= pos0 <= self.current <= self.source.len(),
                self.source == old(self).source,
                src == self.source@,
                self.tokens == old(self).tokens,
                self.start == old(self).start,
                sp_find_char(src, pos0, '"') == sp_find_char(src, self.current as int, '"'),
                self.line as nat == line0 + sp_count_newlines(src, pos0, self.current as int),
                self.line + (self.source.len() - self.current) <= usize::MAX,
            ensures
                self.source == old(self).source,
                src == self.source@,
                self.tokens == old(self).tokens,
                self.start == old(self).start,
                0 <= pos0 <= self.current <= self.source.len(),
                self.current as int == sp_find_char(src, pos0, '"'),
                self.line as nat == line0 + sp_count_newlines(src, pos0, self.current as int),
            decreases self.source.len() - self.current,
        {
            let p = self.peek();
            if p == '"' {
                break;
            }
            if self.is_at_end() {
                break;
            }
            let ghost cur0 = self.current as int;
            if p == '\n' {
                self.line = self.line + 1;
            }
            let _ = self.advance();
            proof {
                lemma_count_newlines_snoc(src, pos0, cur0);
            }
        }
        proof {
            lemma_count_newlines_le(src, pos0, self.current as int);
        }
        if self.is_at_end() {
            self.error("Unterminated string sequence".to_owned())
        } else {
            let sub = self.substring(self.start + 1, self.current);
            let _ = self.advance();
            Ok(self.token(TokenType::STRING, sub))
        }
    }

    /// Scans an identifier at its opening letter and classifies it
    /// through the keyword table.
    fn identifier(&mut self) -> (r: Result<Token, String>)
        requires
            old(self).current == old(self).start + 1,
            old(self).current <= old(self).source.len(),
        ensures
            ({
                let st = sp_identifier(
                    old(self).source@,
                    old(self).start as int,
                    old(self).line as nat,
                );
                &&& final(self).source == old(self).source
                &&& final(self).tokens == old(self).tokens
                &&& final(self).start == old(self).start
                &&& final(self).line == old(self).line
                &&& final(self).current as int == st.next
                &&& final(self).current <= final(self).source.len()
                &&& old(self).current <= final(self).current
                &&& r matches Ok(t) && st.res == Ok::<SToken, Seq<char>>(t@)
            }),
    {
        let ghost src = self.source@;
        let ghost pos0 = self.current as int;
        loop
            invariant
                0 <= pos0 <= self.current <= self.source.len(),
                self.source == old(self).source,
                src == self.source@,
                self.tokens == old(self).tokens,
                self.start == old(self).start,
                self.line == old(self).line,
                sp_skip_alphanumeric(src, pos0) == sp_skip_alphanumeric(src, self.current as int),
            ensures
                self.source == old(self).source,
                src == self.source@,
                self.tokens == old(self).tokens,
                self.start == old(self).start,
                self.line == old(self).line,
                0 <= pos0 <= self.current <= self.source.len(),
                self.current as int == sp_skip_alphanumeric(src, pos0),
            decreases self.source.len() - self.current,
        {
            let p = self.peek();
            if !char_is_alphanumeric(p) {
                break;
            }
            if self.is_at_end() {
                break;
            }
            let _ = self.advance();
        }
        let sub = self.substring(self.start, self.current);
        match keyword_lookup(&sub) {
            Some(k) => Ok(self.token(k, String::new())),
            None => Ok(self.token(TokenType::IDENTIFIER, sub)),
        }
    }

    /// One scan step: consumes at least one character and produces one
    /// token, or the lexical error.
    fn scan_token(&mut self) -> (r: Result<Token, String>)
        requires
            old(self).start == old(self).current,
            old(self).current < old(self).source.len(),
            old(self).line + (old(self).source.len() - old(self).current) <= usize::MAX,
        ensures
            ({
                let st = sp_scan_token(
                    old(self).source@,
                    old(self).current as int,
                    old(self).line as nat,
                );
                &&& final(self).source == old(self).source
                &&& final(self).tokens == old(self).tokens
                &&& final(self).start == old(self).start
                &&& final(self).current as int == st.next
                &&& final(self).line as nat == st.line
                &&& old(self).current < final(self).current
                &&& final(self).current <= final(self).source.len()
                &&& final(self).line + (final(self).source.len() - final(self).current) <= old(
                    self,
                ).line + (old(self).source.len() - old(self).current)
                &&& match (r, st.res) {
                    (Ok(t), Ok(s)) => t@ == s,
                    (Err(m), Err(sm)) => m@ == sm,
                    _ => false,
                }
            }),
    {
        let c = self.advance();
        if c == '(' {
            Ok(self.token(TokenType::LeftParen, String::new()))
        } else if c == ')' {
            Ok(self.token(TokenType::RightParen, String::new()))
        } else if c == '{' {
            Ok(self.token(TokenType::LeftBrace, String::new()))
        } else if c == '}' {
            Ok(self.token(TokenType::RightBrace, String::new()))
        } else if c == ',' {
            Ok(self.token(TokenType::COMMA, String::new()))
        } else if c == '.' {
            Ok(self.token(TokenType::DOT, String::new()))
        } else if c == '-' {
            Ok(self.token(TokenType::MINUS, String::new()))
        } else if c == '+' {
            Ok(self.token(TokenType::PLUS, String::new()))
        } else if c == ';' {
            Ok(self.token(TokenType::SEMICOLON, String::new()))
        } else if c == '*' {
            Ok(self.token(TokenType::STAR, String::new()))
        } else if c == '!' {
            if self.match_next('=') {
                Ok(self.token(TokenType::BangEqual, String::new()))
            } else {
                Ok(self.token(TokenType::BANG, String::new()))
            }
        } else if c == '=' {
            if self.match_next('=') {
                Ok(self.token(TokenType::EqualEqual, String::new()))
            } else {
                Ok(self.token(TokenType::EQUAL, String::new()))
            }
        } else if c == '<' {
            if self.match_next('=') {
                Ok(self.token(TokenType::LessEqual, String::new()))
            } else {
                Ok(self.token(TokenType::LESS, String::new()))
            }
        } else if c == '>' {
            if self.match_next('=') {
                Ok(self.token(TokenType::GreaterEqual, String::new()))
            } else {
                Ok(self.token(TokenType::GREATER, String::new()))
            }
        } else if c == '/' {
            if self.match_next('/') {
                // A comment goes until the end of the line; the newline
                // itself is left for the next step.
                let ghost src = self.source@;
                let ghost pos0 = self.current as int;
                loop
                    invariant
                        0 <= pos0 <= self.current <= self.source.len(),
                        self.source == old(self).source,
                        src == self.source@,
                        self.tokens == old(self).tokens,
                        self.start == old(self).start,
                        self.line == old(self).line,
                        sp_find_char(src, pos0, '\n') == sp_find_char(
                            src,
                            self.current as int,
                            '\n',
                        ),
                    ensures
                        self.source == old(self).source,
                        src == self.source@,
                        self.tokens == old(self).tokens,
                        self.start == old(self).start,
                        self.line == old(self).line,
                        0 <= pos0 <= self.current <= self.source.len(),
                        self.current as int == sp_find_char(src, pos0, '\n'),
                    decreases self.source.len() - self.current,
                {
                    let p = self.peek();
                    if p == '\n' {
                        break;
                    }
                    if self.is_at_end() {
                        break;
                    }
                    let _ = self.advance();
                }
                Ok(self.token(TokenType::IGNORE, String::new()))
            } else {
                Ok(self.token(TokenType::SLASH, String::new()))
            }
        } else if c == '\n' {
            self.line = self.line + 1;
            Ok(self.token(TokenType::IGNORE, String::new()))
        } else if c == ' ' || c == '\r' || c == '\t' {
            Ok(self.token(TokenType::IGNORE, String::new()))
        } else if c == '"' {
            self.string()
        } else if c_is_digit(c) {
            self.number()
        } else if c_is_alpha(c) {
            self.identifier()
        } else {
            let mut m = "unexpected token : ".to_owned();
            string_push(&mut m, c);
            Err(m)
        }
    }

    /// Returns the complete token list of the source, with `IGNORE`
    /// tokens dropped, or the first lexical error. The end-of-input
    /// marker is not part of the emitted sequence: the parser
    /// synthesizes it when its cursor has passed the last token.
    pub fn tokens(&mut self) -> (r: Result<Vec<Token>, String>)
        requires
            old(self).current <= old(self).source.len(),
            old(self).line + (old(self).source.len() - old(self).current) <= usize::MAX,
        ensures
            match (r, sp_scan_rest(
                old(self).source@,
                old(self).current as int,
                old(self).line as nat,
            )) {
                (Ok(v), Ok(ts)) => stokens(v@) == stokens(old(self).tokens@) + ts,
                (Err(m), Err(sm)) => m@ == sm,
                _ => false,
            },
    {
        let ghost src = old(self).source@;
        let ghost full = sp_scan_rest(src, old(self).current as int, old(self).line as nat);
        let ghost base = stokens(old(self).tokens@);
        loop
            invariant
                self.current <= self.source.len(),
                self.source == old(self).source,
                src == self.source@,
                self.line + (self.source.len() - self.current) <= usize::MAX,
                full == sp_scan_rest(src, old(self).current as int, old(self).line as nat),
                base == stokens(old(self).tokens@),
                match sp_scan_rest(src, self.current as int, self.line as nat) {
                    Ok(rest) => (match full {
                        Ok(full_ts) => base + full_ts == stokens(self.tokens@) + rest,
                        Err(_) => false,
                    }),
                    Err(m) => full == Err::<Seq<SToken>, Seq<char>>(m),
                },
            ensures
                self.current == self.source.len(),
                src == self.source@,
                match full {
                    Ok(full_ts) => base + full_ts == stokens(self.tokens@),
                    Err(_) => false,
                },
            decreases self.source.len() - self.current,
        {
            if self.is_at_end() {
                proof {
                    assert(sp_scan_rest(src, self.current as int, self.line as nat) == Ok::<
                        Seq<SToken>,
                        Seq<char>,
                    >(Seq::empty()));
                    assert(match full {
                        Ok(full_ts) => base + full_ts == stokens(self.tokens@) + Seq::<
                            SToken,
                        >::empty(),
                        Err(_) => false,
                    });
                    assert(match full {
                        Ok(full_ts) => stokens(self.tokens@) + Seq::<SToken>::empty() == stokens(
                            self.tokens@,
                        ),
                        Err(_) => false,
                    }) by {
                        assert(stokens(self.tokens@) + Seq::<SToken>::empty() =~= stokens(
                            self.tokens@,
                        ));
                    }
                }
                break;
            }
            self.start = self.current;
            let ghost cur0 = self.current as int;
            let ghost line_0 = self.line as nat;
            let tok = match self.scan_token() {
                Ok(t) => t,
                Err(m) => {
                    return Err(m);
                },
            };
            if !tok.ignore() {
                let ghost toks0 = self.tokens@;
                self.tokens.push(tok);
                proof {
                    assert(stokens(self.tokens@) =~= stokens(toks0) + seq![self.tokens@.last()@]);
                    let st = sp_scan_token(src, cur0, line_0);
                    assert(match sp_scan_rest(src, st.next, st.line) {
                        Ok(rest2) => sp_scan_rest(src, cur0, line_0) == Ok::<
                            Seq<SToken>,
                            Seq<char>,
                        >(seq![st.res->Ok_0] + rest2) && (match full {
                            Ok(full_ts) => base + full_ts == stokens(toks0) + (seq![st.res->Ok_0]
                                + rest2),
                            Err(_) => false,
                        }) && stokens(toks0) + (seq![st.res->Ok_0] + rest2) =~= (stokens(toks0)
                            + seq![st.res->Ok_0]) + rest2,
                        Err(_) => true,
                    });
                }
            }
        }
        let out = clone_tokens(&self.tokens);
        Ok(out)
    }
}

/// Whether a character is an ASCII decimal digit.
fn c_is_digit(c: char) -> (r: bool)
    ensures
        r == sp_is_digit(c),
{
    let u = c as u32;
    '0' as u32 <= u && u <= '9' as u32
}

/// Whether a character is an ASCII letter.
fn c_is_alpha(c: char) -> (r: bool)
    ensures
        r == sp_is_alpha(c),
{
    let u = c as u32;
    ('a' as u32 <= u && u <= 'z' as u32) || ('A' as u32 <= u && u <= 'Z' as u32)
}

/// Copies a token list element by element.
fn clone_tokens(v: &Vec<Token>) -> (out: Vec<Token>)
    ensures
        out@ == v@,
{
    let mut out: Vec<Token> = Vec::new();
    let mut i: usize = 0;
    while i < v.len()
        invariant
            i <= v.len(),
            out@ == v@.subrange(0, i as int),
        decreases v.len() - i,
    {
        out.push(v[i].duplicate());
        i = i + 1;
        proof {
            assert(out@ =~= v@.subrange(0, i as int));
        }
    }
    proof {
        assert(out@ =~= v@);
    }
    out
}

} // verus!
