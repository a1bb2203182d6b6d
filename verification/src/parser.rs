//! The parser: consumes the token sequence with a single forward-only
//! cursor (one token of lookahead, no backtracking) and builds the
//! abstract syntax tree, with bounded multi-error recovery at the
//! function-declaration level.
//!
//! Each grammar rule has a spec-level twin (`sp_...`) taking the token
//! models and a cursor position and returning the parse result together
//! with the new position; each executable method is proved to agree
//! with its twin. A sub-parse never moves the cursor backwards; the
//! arms guarded on that fact are unreachable and only keep the spec
//! recursion well-founded.
use vstd::prelude::*;
use vstd::hash_map::StringHashMap;
use crate::expression::{BinaryExpr, Expr, LiteralExpr, SBinaryExpr, SExpr, SLiteralExpr, SUnaryExpr, UnaryExpr};
use crate::statement::{lemma_stmts_view_eq, sstmts_view, Assignment, FunctionDecl, IfStatement, SAssignment, SFunctionDecl, SIfStatement, SStmt, Statement};
use crate::token::{sp_eof_token, stokens, SToken, Token, TokenType};

verus! {

/// The model of a parse error: the token the cursor had advanced to
/// when the failure surfaced, and a descriptive message.
pub struct SParseError {
    pub token: SToken,
    pub message: Seq<char>,
}

/// A parse error: just enough to show what happened and where.
#[derive(Debug)]
pub struct ParseError {
    pub token: Token,
    pub message: String,
}

impl View for ParseError {
    type V = SParseError;

    open spec fn view(&self) -> SParseError {
        SParseError { token: self.token@, message: self.message@ }
    }
}

impl ParseError {
    /// Creates a new parse error.
    pub fn new(token: Token, message: String) -> (r: ParseError)
        ensures
            r.token == token,
            r.message == message,
    {
        ParseError { token, message }
    }
}

/// The outcome of one spec-level parse rule: the parsed value or the
/// error message, and the cursor position after the attempt.
pub struct Parsed<T> {
    pub res: Result<T, Seq<char>>,
    pub pos: int,
}

/// The outcome of the spec-level top-level driver: the function map or
/// the ordered error list, and the final cursor position.
pub struct SProgram {
    pub res: Result<Map<Seq<char>, SFunctionDecl>, Seq<SParseError>>,
    pub pos: int,
}

/// Whether the cursor is past the last token.
pub open spec fn sp_at_end(toks: Seq<SToken>, pos: int) -> bool {
    pos >= toks.len()
}

/// The token at the cursor; past the end, the end-of-input marker.
pub open spec fn sp_peek(toks: Seq<SToken>, pos: int) -> SToken {
    if 0 <= pos < toks.len() {
        toks[pos]
    } else {
        sp_eof_token()
    }
}

/// The token just before the cursor; at the very start the first
/// token, and the end-of-input marker when there are no tokens.
pub open spec fn sp_previous(toks: Seq<SToken>, pos: int) -> SToken {
    if toks.len() == 0 {
        sp_eof_token()
    } else if pos <= 0 {
        toks[0]
    } else if pos <= toks.len() {
        toks[pos - 1]
    } else {
        toks[toks.len() - 1]
    }
}

/// Consuming one token: the token read and the new cursor position;
/// past the end the cursor stays and the token before it is read.
pub open spec fn sp_advance(toks: Seq<SToken>, pos: int) -> (SToken, int) {
    if !sp_at_end(toks, pos) {
        (sp_previous(toks, pos + 1), pos + 1)
    } else {
        (sp_previous(toks, pos), pos)
    }
}

/// Whether the token at the cursor has the given classification.
pub open spec fn sp_check(toks: Seq<SToken>, pos: int, ty: TokenType) -> bool {
    !(sp_at_end(toks, pos) || sp_peek(toks, pos).ty != ty)
}

/// Whether the token at the cursor has one of the given
/// classifications.
pub open spec fn sp_match_found(toks: Seq<SToken>, pos: int, tts: Seq<TokenType>) -> bool {
    exists|j: int| 0 <= j < tts.len() && sp_check(toks, pos, #[trigger] tts[j])
}

/// The cursor after a match attempt: one further on a hit, unchanged
/// on a miss.
pub open spec fn sp_match_pos(toks: Seq<SToken>, pos: int, tts: Seq<TokenType>) -> int {
    if sp_match_found(toks, pos, tts) {
        pos + 1
    } else {
        pos
    }
}

/// Parsing a literal: a parenthesized expression, a number, a string,
/// `nil`, `false`, `true` (numerals `0`, `0` and `1`), or an
/// identifier; anything else cannot be parsed.
pub open spec fn sp_literal(toks: Seq<SToken>, pos: int) -> Parsed<SExpr>
    decreases toks.len() - pos, 0int,
    when 0 <= pos <= toks.len()
{
    if sp_check(toks, pos, TokenType::LeftParen) {
        let e = sp_expression(toks, pos + 1);
        if sp_peek(toks, e.pos).ty == TokenType::RightParen {
            Parsed { res: e.res, pos: e.pos + 1 }
        } else {
            Parsed { res: Err("Expected right parenthesis"@), pos: e.pos }
        }
    } else {
        let (t, p1) = sp_advance(toks, pos);
        if t.ty == TokenType::NUMBER {
            Parsed { res: Ok(SExpr::Literal(SLiteralExpr::NUMBER(t.lexeme))), pos: p1 }
        } else if t.ty == TokenType::STRING {
            Parsed { res: Ok(SExpr::Literal(SLiteralExpr::STRING(t.lexeme))), pos: p1 }
        } else if t.ty == TokenType::NIL {
            Parsed { res: Ok(SExpr::Literal(SLiteralExpr::NUMBER("0"@))), pos: p1 }
        } else if t.ty == TokenType::FALSE {
            Parsed { res: Ok(SExpr::Literal(SLiteralExpr::NUMBER("0"@))), pos: p1 }
        } else if t.ty == TokenType::TRUE {
            Parsed { res: Ok(SExpr::Literal(SLiteralExpr::NUMBER("1"@))), pos: p1 }
        } else if t.ty == TokenType::IDENTIFIER {
            Parsed { res: Ok(SExpr::Identifier(t.lexeme)), pos: p1 }
        } else {
            Parsed { res: Err("Cant parse literal"@), pos: p1 }
        }
    }
}

/// Parsing a unary expression: `!` and `-` prefixes chain to the
/// right.
pub open spec fn sp_unary(toks: Seq<SToken>, pos: int) -> Parsed<SExpr>
    decreases toks.len() - pos, 1int,
    when 0 <= pos <= toks.len()
{
    if sp_check(toks, pos, TokenType::MINUS) || sp_check(toks, pos, TokenType::BANG) {
        let r = sp_unary(toks, pos + 1);
        match r.res {
            Err(m) => Parsed { res: Err(m), pos: r.pos },
            Ok(right) => Parsed {
                res: Ok(
                    SExpr::Unary(SUnaryExpr { op: toks[pos], right: Box::new(right) }),
                ),
                pos: r.pos,
            },
        }
    } else {
        sp_literal(toks, pos)
    }
}

/// The left-associative accretion shared by the binary levels: as long
/// as one of `ops` is at the cursor, the expression so far becomes the
/// left child of a new binary node.
pub open spec fn sp_mult_tail(toks: Seq<SToken>, pos: int, acc: SExpr) -> Parsed<SExpr>
    decreases toks.len() - pos, 2int,
    when 0 <= pos <= toks.len()
{
    if sp_check(toks, pos, TokenType::STAR) || sp_check(toks, pos, TokenType::SLASH) {
        let r = sp_unary(toks, pos + 1);
        match r.res {
            Err(m) => Parsed { res: Err(m), pos: r.pos },
            Ok(right) => if pos + 1 <= r.pos <= toks.len() {
                sp_mult_tail(
                    toks,
                    r.pos,
                    SExpr::Binary(
                        SBinaryExpr {
                            left: Box::new(acc),
                            op: toks[pos],
                            right: Box::new(right),
                        },
                    ),
                )
            } else {
                Parsed { res: Err(Seq::empty()), pos: r.pos }
            },
        }
    } else {
        Parsed { res: Ok(acc), pos }
    }
}

/// Parsing a multiplication: unary operands under `*` and `/`,
/// strictly left-associative.
pub open spec fn sp_multiplication(toks: Seq<SToken>, pos: int) -> Parsed<SExpr>
    decreases toks.len() - pos, 3int,
    when 0 <= pos <= toks.len()
{
    let e = sp_unary(toks, pos);
    match e.res {
        Err(m) => Parsed { res: Err(m), pos: e.pos },
        Ok(first) => if pos <= e.pos <= toks.len() {
            sp_mult_tail(toks, e.pos, first)
        } else {
            Parsed { res: Err(Seq::empty()), pos: e.pos }
        },
    }
}

/// The accretion step for additions.
pub open spec fn sp_add_tail(toks: Seq<SToken>, pos: int, acc: SExpr) -> Parsed<SExpr>
    decreases toks.len() - pos, 4int,
    when 0 <= pos <= toks.len()
{
    if sp_check(toks, pos, TokenType::MINUS) || sp_check(toks, pos, TokenType::PLUS) {
        let r = sp_multiplication(toks, pos + 1);
        match r.res {
            Err(m) => Parsed { res: Err(m), pos: r.pos },
            Ok(right) => if pos + 1 <= r.pos <= toks.len() {
                sp_add_tail(
                    toks,
                    r.pos,
                    SExpr::Binary(
                        SBinaryExpr {
                            left: Box::new(acc),
                            op: toks[pos],
                            right: Box::new(right),
                        },
                    ),
                )
            } else {
                Parsed { res: Err(Seq::empty()), pos: r.pos }
            },
        }
    } else {
        Parsed { res: Ok(acc), pos }
    }
}

/// Parsing an addition: multiplications under `-` and `+`, strictly
/// left-associative.
pub open spec fn sp_addition(toks: Seq<SToken>, pos: int) -> Parsed<SExpr>
    decreases toks.len() - pos, 5int,
    when 0 <= pos <= toks.len()
{
    let e = sp_multiplication(toks, pos);
    match e.res {
        Err(m) => Parsed { res: Err(m), pos: e.pos },
        Ok(first) => if pos <= e.pos <= toks.len() {
            sp_add_tail(toks, e.pos, first)
        } else {
            Parsed { res: Err(Seq::empty()), pos: e.pos }
        },
    }
}

/// The accretion step for comparisons.
pub open spec fn sp_cmp_tail(toks: Seq<SToken>, pos: int, acc: SExpr) -> Parsed<SExpr>
    decreases toks.len() - pos, 6int,
    when 0 <= pos <= toks.len()
{
    if sp_check(toks, pos, TokenType::GreaterEqual) || sp_check(toks, pos, TokenType::LessEqual)
        || sp_check(toks, pos, TokenType::GREATER) || sp_check(toks, pos, TokenType::LESS) {
        let r = sp_addition(toks, pos + 1);
        match r.res {
            Err(m) => Parsed { res: Err(m), pos: r.pos },
            Ok(right) => if pos + 1 <= r.pos <= toks.len() {
                sp_cmp_tail(
                    toks,
                    r.pos,
                    SExpr::Binary(
                        SBinaryExpr {
                            left: Box::new(acc),
                            op: toks[pos],
                            right: Box::new(right),
                        },
                    ),
                )
            } else {
                Parsed { res: Err(Seq::empty()), pos: r.pos }
            },
        }
    } else {
        Parsed { res: Ok(acc), pos }
    }
}

/// Parsing a comparison: additions under `>=`, `<=`, `>` and `<`,
/// strictly left-associative.
pub open spec fn sp_comparison(toks: Seq<SToken>, pos: int) -> Parsed<SExpr>
    decreases toks.len() - pos, 7int,
    when 0 <= pos <= toks.len()
{
    let e = sp_addition(toks, pos);
    match e.res {
        Err(m) => Parsed { res: Err(m), pos: e.pos },
        Ok(first) => if pos <= e.pos <= toks.len() {
            sp_cmp_tail(toks, e.pos, first)
        } else {
            Parsed { res: Err(Seq::empty()), pos: e.pos }
        },
    }
}

/// The accretion step for equalities.
pub open spec fn sp_eq_tail(toks: Seq<SToken>, pos: int, acc: SExpr) -> Parsed<SExpr>
    decreases toks.len() - pos, 8int,
    when 0 <= pos <= toks.len()
{
    if sp_check(toks, pos, TokenType::EqualEqual) || sp_check(toks, pos, TokenType::BangEqual) {
        let r = sp_comparison(toks, pos + 1);
        match r.res {
            Err(m) => Parsed { res: Err(m), pos: r.pos },
            Ok(right) => if pos + 1 <= r.pos <= toks.len() {
                sp_eq_tail(
                    toks,
                    r.pos,
                    SExpr::Binary(
                        SBinaryExpr {
                            left: Box::new(acc),
                            op: toks[pos],
                            right: Box::new(right),
                        },
                    ),
                )
            } else {
                Parsed { res: Err(Seq::empty()), pos: r.pos }
            },
        }
    } else {
        Parsed { res: Ok(acc), pos }
    }
}

/// Parsing an equality: comparisons under `==` and `!=`, strictly
/// left-associative.
pub open spec fn sp_equality(toks: Seq<SToken>, pos: int) -> Parsed<SExpr>
    decreases toks.len() - pos, 9int,
    when 0 <= pos <= toks.len()
{
    let e = sp_comparison(toks, pos);
    match e.res {
        Err(m) => Parsed { res: Err(m), pos: e.pos },
        Ok(first) => if pos <= e.pos <= toks.len() {
            sp_eq_tail(toks, e.pos, first)
        } else {
            Parsed { res: Err(Seq::empty()), pos: e.pos }
        },
    }
}

/// Parsing an expression: the lowest precedence level is equality.
pub open spec fn sp_expression(toks: Seq<SToken>, pos: int) -> Parsed<SExpr>
    decreases toks.len() - pos, 10int,
    when 0 <= pos <= toks.len()
{
    sp_equality(toks, pos)
}

/// Expecting a semicolon after a statement: the statement goes through
/// when one is at the cursor, else the parse fails.
pub open spec fn sp_expect_semicolon(toks: Seq<SToken>, pos: int, s: SStmt) -> Parsed<SStmt> {
    if sp_check(toks, pos, TokenType::SEMICOLON) {
        Parsed { res: Ok(s), pos: pos + 1 }
    } else {
        Parsed { res: Err("Expected semicolon at the end of statement"@), pos }
    }
}

/// Parsing a bare expression statement.
pub open spec fn sp_expr_statement(toks: Seq<SToken>, pos: int) -> Parsed<SStmt>
    recommends
        0 <= pos <= toks.len(),
{
    let e = sp_expression(toks, pos);
    match e.res {
        Err(m) => Parsed { res: Err(m), pos: e.pos },
        Ok(ex) => Parsed { res: Ok(SStmt::ExprStatement(ex)), pos: e.pos },
    }
}

/// Parsing an assignment: the identifier, `=`, then the assigned
/// expression.
pub open spec fn sp_assignment(toks: Seq<SToken>, pos: int) -> Parsed<SStmt>
    recommends
        0 <= pos <= toks.len(),
{
    let (id, p1) = sp_advance(toks, pos);
    if sp_check(toks, p1, TokenType::EQUAL) {
        let e = sp_expression(toks, p1 + 1);
        match e.res {
            Err(m) => Parsed { res: Err(m), pos: e.pos },
            Ok(ex) => Parsed {
                res: Ok(SStmt::Assignment(SAssignment { identifier: id, expr: ex })),
                pos: e.pos,
            },
        }
    } else {
        Parsed { res: Err("expected Equals after variable declaration"@), pos: p1 }
    }
}

/// Parsing an assignment or a bare expression statement, each followed
/// by its mandatory semicolon.
pub open spec fn sp_declaration(toks: Seq<SToken>, pos: int) -> Parsed<SStmt>
    recommends
        0 <= pos <= toks.len(),
{
    let d = if sp_peek(toks, pos).ty == TokenType::IDENTIFIER {
        sp_assignment(toks, pos)
    } else {
        sp_expr_statement(toks, pos)
    };
    match d.res {
        Err(m) => Parsed { res: Err(m), pos: d.pos },
        Ok(s) => sp_expect_semicolon(toks, d.pos, s),
    }
}

/// Parsing an if statement after its `if` keyword: the condition, then
/// the single owned body statement. The grammar has no `else` clause:
/// an `else` token after the body is left unconsumed.
pub open spec fn sp_parse_if(toks: Seq<SToken>, pos: int) -> Parsed<SStmt>
    decreases toks.len() - pos, 0int,
    when 0 <= pos <= toks.len()
{
    let p1 = sp_advance(toks, pos).1;
    let c = sp_expression(toks, p1);
    match c.res {
        Err(m) => Parsed { res: Err(m), pos: c.pos },
        Ok(cond) => if pos < c.pos <= toks.len() {
            let b = sp_statement(toks, c.pos);
            match b.res {
                Err(m) => Parsed { res: Err(m), pos: b.pos },
                Ok(body) => Parsed {
                    res: Ok(
                        SStmt::IfStatement(
                            SIfStatement { cond, statement: Box::new(body) },
                        ),
                    ),
                    pos: b.pos,
                },
            }
        } else {
            // The cursor was already at the end of the input, so no
            // body statement can follow.
            Parsed { res: Err("Expected semicolon at the end of statement"@), pos: c.pos }
        },
    }
}

/// Parsing the statements of a scope until its closing brace, in
/// source order.
pub open spec fn sp_scope_items(toks: Seq<SToken>, pos: int, acc: Seq<SStmt>) -> Parsed<SStmt>
    decreases toks.len() - pos, 5int,
    when 0 <= pos <= toks.len()
{
    if sp_peek(toks, pos).ty == TokenType::RightBrace {
        Parsed { res: Ok(SStmt::Scope(acc)), pos: pos + 1 }
    } else if pos >= toks.len() {
        Parsed { res: Err("Expected closing brace at the end of scope"@), pos }
    } else {
        let s = sp_statement(toks, pos);
        match s.res {
            Err(m) => Parsed { res: Err(m), pos: s.pos },
            Ok(st) => if pos < s.pos <= toks.len() {
                sp_scope_items(toks, s.pos, acc.push(st))
            } else {
                Parsed { res: Err(Seq::empty()), pos: s.pos }
            },
        }
    }
}

/// Parsing a brace-delimited scope after its opening brace.
pub open spec fn sp_parse_scope(toks: Seq<SToken>, pos: int) -> Parsed<SStmt>
    decreases toks.len() - pos, 0int,
    when 0 <= pos <= toks.len()
{
    if pos >= toks.len() {
        Parsed { res: Err("Expected closing brace at the end of scope"@), pos }
    } else {
        sp_scope_items(toks, pos + 1, Seq::empty())
    }
}

/// Parsing a scope where one opens, else falling through to an
/// assignment or expression statement.
pub open spec fn sp_scope(toks: Seq<SToken>, pos: int) -> Parsed<SStmt>
    decreases toks.len() - pos, 1int,
    when 0 <= pos <= toks.len()
{
    if sp_peek(toks, pos).ty == TokenType::LeftBrace {
        sp_parse_scope(toks, pos)
    } else {
        sp_declaration(toks, pos)
    }
}

/// Parsing an if statement where one opens, else falling through.
pub open spec fn sp_if_condition(toks: Seq<SToken>, pos: int) -> Parsed<SStmt>
    decreases toks.len() - pos, 2int,
    when 0 <= pos <= toks.len()
{
    if sp_peek(toks, pos).ty == TokenType::IF {
        sp_parse_if(toks, pos)
    } else {
        sp_scope(toks, pos)
    }
}

/// Parsing a break statement where one opens, else falling through.
pub open spec fn sp_break_statement(toks: Seq<SToken>, pos: int) -> Parsed<SStmt>
    decreases toks.len() - pos, 3int,
    when 0 <= pos <= toks.len()
{
    if sp_peek(toks, pos).ty == TokenType::BREAK {
        sp_expect_semicolon(toks, sp_advance(toks, pos).1, SStmt::BreakStatement)
    } else {
        sp_if_condition(toks, pos)
    }
}

/// Parsing a statement: break, if, scope, assignment or expression
/// statement, tried outermost first.
pub open spec fn sp_statement(toks: Seq<SToken>, pos: int) -> Parsed<SStmt>
    decreases toks.len() - pos, 4int,
    when 0 <= pos <= toks.len()
{
    sp_break_statement(toks, pos)
}

/// Parsing the parameter names after the first one: `,`-separated
/// identifiers until the closing parenthesis.
pub open spec fn sp_args_tail(toks: Seq<SToken>, pos: int, acc: Seq<Seq<char>>) -> Parsed<
    Seq<Seq<char>>,
>
    decreases toks.len() - pos,
    when 0 <= pos <= toks.len()
{
    if sp_peek(toks, pos).ty == TokenType::RightParen {
        Parsed { res: Ok(acc), pos: pos + 1 }
    } else if !sp_check(toks, pos, TokenType::COMMA) {
        Parsed { res: Err("Expected comma after identifier"@), pos }
    } else if sp_check(toks, pos + 1, TokenType::IDENTIFIER) {
        sp_args_tail(toks, pos + 2, acc.push(toks[pos + 1].lexeme))
    } else {
        Parsed { res: Err("Expected identifier"@), pos: pos + 1 }
    }
}

/// Parsing a parameter list: `(`, at least one identifier, then
/// `,`-separated identifiers until `)`. A zero-parameter list is a
/// grammar error.
pub open spec fn sp_func_args(toks: Seq<SToken>, pos: int) -> Parsed<Seq<Seq<char>>>
    recommends
        0 <= pos <= toks.len(),
{
    if !sp_check(toks, pos, TokenType::LeftParen) {
        Parsed { res: Err("Expected left parenthesis after function name"@), pos }
    } else if !sp_check(toks, pos + 1, TokenType::IDENTIFIER) {
        Parsed { res: Err("Expected identifier"@), pos: pos + 1 }
    } else {
        sp_args_tail(toks, pos + 2, seq![toks[pos + 1].lexeme])
    }
}

/// Parsing a function declaration: `fun`, the name, the parameter
/// list, then the body scope.
pub open spec fn sp_function_decl(toks: Seq<SToken>, pos: int) -> Parsed<SFunctionDecl>
    recommends
        0 <= pos <= toks.len(),
{
    if sp_peek(toks, pos).ty == TokenType::FUN {
        let p1 = sp_advance(toks, pos).1;
        if sp_check(toks, p1, TokenType::IDENTIFIER) {
            let name = toks[p1].lexeme;
            let a = sp_func_args(toks, p1 + 1);
            match a.res {
                Err(m) => Parsed { res: Err(m), pos: a.pos },
                Ok(args) => {
                    let s = sp_scope(toks, a.pos);
                    match s.res {
                        Err(m) => Parsed { res: Err(m), pos: s.pos },
                        Ok(sc) => Parsed {
                            res: Ok(SFunctionDecl { name, args, scope: sc }),
                            pos: s.pos,
                        },
                    }
                },
            }
        } else {
            Parsed { res: Err("Expected identifier after function"@), pos: p1 }
        }
    } else {
        Parsed { res: Err("error : expected function declaration there"@), pos }
    }
}

/// One round of the top-level driver: attempt a function declaration,
/// record the outcome, stop at the end of the tokens or at the fifth
/// error.
pub open spec fn sp_program_loop(
    toks: Seq<SToken>,
    pos: int,
    funcs: Map<Seq<char>, SFunctionDecl>,
    errs: Seq<SParseError>,
) -> SProgram
    decreases toks.len() - pos, 5int - errs.len(),
    when 0 <= pos <= toks.len() && errs.len() <= 4
{
    if pos >= toks.len() {
        SProgram {
            res: if errs.len() == 0 {
                Ok(funcs)
            } else {
                Err(errs)
            },
            pos,
        }
    } else {
        let fd = sp_function_decl(toks, pos);
        match fd.res {
            Ok(f) => if pos < fd.pos <= toks.len() {
                sp_program_loop(toks, fd.pos, funcs.insert(f.name, f), errs)
            } else {
                SProgram { res: Err(errs), pos: fd.pos }
            },
            Err(m) => {
                let errs2 = errs.push(
                    SParseError { token: sp_previous(toks, fd.pos), message: m },
                );
                if errs2.len() >= 5 {
                    SProgram { res: Err(errs2), pos: fd.pos }
                } else if pos <= fd.pos <= toks.len() {
                    sp_program_loop(toks, fd.pos, funcs, errs2)
                } else {
                    SProgram { res: Err(errs2), pos: fd.pos }
                }
            },
        }
    }
}

/// The whole parse: the function map when no error was recorded, else
/// the ordered error list, capped at five.
pub open spec fn sp_program(toks: Seq<SToken>, pos: int) -> SProgram
    recommends
        0 <= pos <= toks.len(),
{
    sp_program_loop(toks, pos, Map::empty(), Seq::empty())
}

/// The models of a function map.
pub open spec fn fdmap_view(m: Map<Seq<char>, FunctionDecl>) -> Map<Seq<char>, SFunctionDecl> {
    Map::new(|k: Seq<char>| m.dom().contains(k), |k: Seq<char>| m[k]@)
}

/// The models of an error list, in order.
pub open spec fn perrs_view(v: Seq<ParseError>) -> Seq<SParseError> {
    v.map_values(|e: ParseError| e@)
}

/// Whether an executable program outcome agrees with a spec-level one.
pub open spec fn prog_matches(
    r: Result<StringHashMap<FunctionDecl>, Vec<ParseError>>,
    s: Result<Map<Seq<char>, SFunctionDecl>, Seq<SParseError>>,
) -> bool {
    match (r, s) {
        (Ok(m), Ok(sm)) => fdmap_view(m@) == sm,
        (Err(v), Err(sv)) => perrs_view(v@) == sv,
        _ => false,
    }
}

/// Whether an executable parameter-list outcome agrees with a
/// spec-level one.
pub open spec fn args_matches(
    r: Result<Vec<String>, String>,
    s: Result<Seq<Seq<char>>, Seq<char>>,
) -> bool {
    match (r, s) {
        (Ok(v), Ok(sv)) => v@.map_values(|x: String| x@) == sv,
        (Err(m), Err(sm)) => m@ == sm,
        _ => false,
    }
}

/// Whether an executable function-declaration outcome agrees with a
/// spec-level one.
pub open spec fn fdecl_matches(
    r: Result<FunctionDecl, String>,
    s: Result<SFunctionDecl, Seq<char>>,
) -> bool {
    match (r, s) {
        (Ok(f), Ok(sf)) => f@ == sf,
        (Err(m), Err(sm)) => m@ == sm,
        _ => false,
    }
}

/// A token sequence holding exactly one well-formed function
/// declaration parses to a map holding exactly one entry, keyed by the
/// declared name.
pub proof fn lemma_single_function_program(toks: Seq<SToken>)
    requires
        0 < toks.len(),
        sp_function_decl(toks, 0).res is Ok,
        sp_function_decl(toks, 0).pos == toks.len(),
    ensures
        ({
            let f = sp_function_decl(toks, 0).res->Ok_0;
            &&& sp_program(toks, 0).res == Ok::<Map<Seq<char>, SFunctionDecl>, Seq<SParseError>>(
                Map::empty().insert(f.name, f),
            )
            &&& sp_program(toks, 0).res->Ok_0.dom() == set![f.name]
        }),
{
    reveal_with_fuel(sp_program_loop, 3);
    let f = sp_function_decl(toks, 0).res->Ok_0;
    assert(sp_program_loop(toks, 0, Map::empty(), Seq::empty()) == sp_program_loop(
        toks,
        toks.len() as int,
        Map::<Seq<char>, SFunctionDecl>::empty().insert(f.name, f),
        Seq::empty(),
    ));
    assert(Map::<Seq<char>, SFunctionDecl>::empty().insert(f.name, f).dom() =~= set![f.name]);
}

/// Whether an executable expression outcome agrees with a spec-level
/// one.
pub open spec fn expr_matches(r: Result<Expr, String>, s: Result<SExpr, Seq<char>>) -> bool {
    match (r, s) {
        (Ok(e), Ok(se)) => e@ == se,
        (Err(m), Err(sm)) => m@ == sm,
        _ => false,
    }
}

/// Whether an executable statement outcome agrees with a spec-level
/// one.
pub open spec fn stmt_matches(r: Result<Statement, String>, s: Result<SStmt, Seq<char>>) -> bool {
    match (r, s) {
        (Ok(e), Ok(se)) => e@ == se,
        (Err(m), Err(sm)) => m@ == sm,
        _ => false,
    }
}

/// The parser: the token sequence and a single forward-only cursor,
/// never past the sequence's length (equality means "at end").
pub struct Parser {
    pub tokens: Vec<Token>,
    pub current: usize,
}

impl Parser {
    /// The cursor stays within the token sequence.
    pub open spec fn wf(&self) -> bool {
        self.current <= self.tokens.len()
    }

    /// The models of the parser's tokens.
    pub open spec fn stoks(&self) -> Seq<SToken> {
        stokens(self.tokens@)
    }

    /// Creates a new parser over the given tokens, with the cursor at
    /// the first one.
    pub fn new(tokens: Vec<Token>) -> (p: Parser)
        ensures
            p.tokens == tokens,
            p.current == 0,
            p.wf(),
    {
        Parser { tokens, current: 0 }
    }

    /// Checks whether the cursor has passed the last token.
    pub fn is_at_end(&self) -> (r: bool)
        ensures
            r == sp_at_end(self.stoks(), self.current as int),
    {
        self.current >= self.tokens.len()
    }

    /// Reads the token at the cursor without consuming it; past the
    /// end, the end-of-input marker.
    pub fn peek(&self) -> (t: Token)
        requires
            self.wf(),
        ensures
            t@ == sp_peek(self.stoks(), self.current as int),
    {
        if self.current < self.tokens.len() {
            self.tokens[self.current].duplicate()
        } else {
            Token::new(0, TokenType::EOF, String::new())
        }
    }

    /// Returns the token just before the cursor; at the very start the
    /// first token, and the end-of-input marker when there are none.
    pub fn previous(&self) -> (t: Token)
        requires
            self.wf(),
        ensures
            t@ == sp_previous(self.stoks(), self.current as int),
    {
        if self.tokens.len() == 0 {
            Token::new(0, TokenType::EOF, String::new())
        } else if self.current == 0 {
            self.tokens[0].duplicate()
        } else {
            self.tokens[self.current - 1].duplicate()
        }
    }

    /// Consumes the token at the cursor and returns it; past the end
    /// the cursor stays put.
    pub fn advance(&mut self) -> (t: Token)
        requires
            old(self).wf(),
        ensures
            final(self).wf(),
            final(self).tokens == old(self).tokens,
            old(self).current <= final(self).current,
            t@ == sp_advance(old(self).stoks(), old(self).current as int).0,
            final(self).current as int == sp_advance(old(self).stoks(), old(self).current as int).1,
    {
        if !self.is_at_end() {
            self.current = self.current + 1;
        }
        self.previous()
    }

    /// Checks whether the token at the cursor has the given
    /// classification, without consuming it.
    pub fn check(&self, token_type: &TokenType) -> (r: bool)
        requires
            self.wf(),
        ensures
            r == sp_check(self.stoks(), self.current as int, *token_type),
    {
        !(self.is_at_end() || !self.peek().is_type(token_type))
    }

    /// Consumes the token at the cursor when its classification is one
    /// of the given ones; otherwise does nothing.
    pub fn match_nexts(&mut self, tokens: &[TokenType]) -> (r: bool)
        requires
            old(self).wf(),
        ensures
            final(self).wf(),
            final(self).tokens == old(self).tokens,
            r == sp_match_found(old(self).stoks(), old(self).current as int, tokens@),
            final(self).current as int == sp_match_pos(
                old(self).stoks(),
                old(self).current as int,
                tokens@,
            ),
    {
        let mut i: usize = 0;
        while i < tokens.len()
            invariant
                *self == *old(self),
                self.wf(),
                i <= tokens@.len(),
                forall|j: int|
                    0 <= j < i ==> !sp_check(
                        self.stoks(),
                        self.current as int,
                        #[trigger] tokens@[j],
                    ),
            decreases tokens@.len() - i,
        {
            if self.check(&tokens[i]) {
                let _ = self.advance();
                return true;
            }
            i = i + 1;
        }
        false
    }

    /// Consumes the token at the cursor when it has the given
    /// classification.
    fn match_one(&mut self, a: TokenType) -> (r: bool)
        requires
            old(self).wf(),
        ensures
            final(self).wf(),
            final(self).tokens == old(self).tokens,
            r == sp_check(old(self).stoks(), old(self).current as int, a),
            final(self).current as int == old(self).current + (if r {
                1int
            } else {
                0int
            }),
    {
        if self.check(&a) {
            let _ = self.advance();
            true
        } else {
            false
        }
    }

    /// Consumes the token at the cursor when it has one of the two
    /// given classifications.
    fn match_two(&mut self, a: TokenType, b: TokenType) -> (r: bool)
        requires
            old(self).wf(),
        ensures
            final(self).wf(),
            final(self).tokens == old(self).tokens,
            r == (sp_check(old(self).stoks(), old(self).current as int, a) || sp_check(
                old(self).stoks(),
                old(self).current as int,
                b,
            )),
            final(self).current as int == old(self).current + (if r {
                1int
            } else {
                0int
            }),
    {
        if self.check(&a) {
            let _ = self.advance();
            true
        } else if self.check(&b) {
            let _ = self.advance();
            true
        } else {
            false
        }
    }

    /// Consumes the token at the cursor when it has one of the four
    /// given classifications.
    fn match_four(&mut self, a: TokenType, b: TokenType, c: TokenType, d: TokenType) -> (r: bool)
        requires
            old(self).wf(),
        ensures
            final(self).wf(),
            final(self).tokens == old(self).tokens,
            r == (sp_check(old(self).stoks(), old(self).current as int, a) || sp_check(
                old(self).stoks(),
                old(self).current as int,
                b,
            ) || sp_check(old(self).stoks(), old(self).current as int, c) || sp_check(
                old(self).stoks(),
                old(self).current as int,
                d,
            )),
            final(self).current as int == old(self).current + (if r {
                1int
            } else {
                0int
            }),
    {
        if self.check(&a) {
            let _ = self.advance();
            true
        } else if self.check(&b) {
            let _ = self.advance();
            true
        } else if self.check(&c) {
            let _ = self.advance();
            true
        } else if self.check(&d) {
            let _ = self.advance();
            true
        } else {
            false
        }
    }

    /// Parses a literal expression.
    pub fn literal(&mut self) -> (r: Result<Expr, String>)
        requires
            old(self).wf(),
        ensures
            final(self).wf(),
            final(self).tokens == old(self).tokens,
            old(self).current <= final(self).current,
            ({
                let st = sp_literal(old(self).stoks(), old(self).current as int);
                final(self).current as int == st.pos && expr_matches(r, st.res)
            }),
        decreases self.tokens@.len() - self.current, 0int,
    {
        if self.match_one(TokenType::LeftParen) {
            let expr = self.expression();
            let pk = self.peek();
            match pk.is_type(&TokenType::RightParen) {
                true => {
                    let _ = self.advance();
                    expr
                },
                false => Err("Expected right parenthesis".to_owned()),
            }
        } else {
            let token = self.advance();
            let tt = *token.get_type();
            match tt {
                TokenType::NUMBER => Ok(
                    Expr::Literal(LiteralExpr::NUMBER(token.get_lexeme().clone())),
                ),
                TokenType::STRING => Ok(
                    Expr::Literal(LiteralExpr::STRING(token.get_lexeme().clone())),
                ),
                TokenType::NIL => Ok(Expr::Literal(LiteralExpr::NUMBER("0".to_owned()))),
                TokenType::FALSE => Ok(Expr::Literal(LiteralExpr::NUMBER("0".to_owned()))),
                TokenType::TRUE => Ok(Expr::Literal(LiteralExpr::NUMBER("1".to_owned()))),
                TokenType::IDENTIFIER => Ok(Expr::Identifier(token.get_lexeme().clone())),
                _ => Err("Cant parse literal".to_owned()),
            }
        }
    }

    /// Parses a unary expression: `!` and `-` prefixes chain to the
    /// right.
    pub fn unary(&mut self) -> (r: Result<Expr, String>)
        requires
            old(self).wf(),
        ensures
            final(self).wf(),
            final(self).tokens == old(self).tokens,
            old(self).current <= final(self).current,
            ({
                let st = sp_unary(old(self).stoks(), old(self).current as int);
                final(self).current as int == st.pos && expr_matches(r, st.res)
            }),
        decreases self.tokens@.len() - self.current, 1int,
    {
        if self.match_two(TokenType::MINUS, TokenType::BANG) {
            let previous = self.previous();
            let right = match self.unary() {
                Ok(e) => e,
                Err(m) => {
                    return Err(m);
                },
            };
            return Ok(Expr::Unary(UnaryExpr::new(previous, right)));
        }
        self.literal()
    }

    /// Parses a multiplication: unary operands under `*` and `/`,
    /// accreted strictly left-associatively.
    pub fn multiplication(&mut self) -> (r: Result<Expr, String>)
        requires
            old(self).wf(),
        ensures
            final(self).wf(),
            final(self).tokens == old(self).tokens,
            old(self).current <= final(self).current,
            ({
                let st = sp_multiplication(old(self).stoks(), old(self).current as int);
                final(self).current as int == st.pos && expr_matches(r, st.res)
            }),
        decreases self.tokens@.len() - self.current, 3int,
    {
        let ghost goal = sp_multiplication(old(self).stoks(), old(self).current as int);
        let mut expr = match self.unary() {
            Ok(e) => e,
            Err(m) => {
                return Err(m);
            },
        };
        loop
            invariant
                self.wf(),
                self.tokens == old(self).tokens,
                old(self).current <= self.current,
                goal == sp_multiplication(old(self).stoks(), old(self).current as int),
                sp_mult_tail(self.stoks(), self.current as int, expr@) == goal,
            decreases self.tokens@.len() - self.current,
        {
            let ghost cur0 = self.current as int;
            let ghost acc0 = expr@;
            if !self.match_two(TokenType::STAR, TokenType::SLASH) {
                return Ok(expr);
            }
            let previous = self.previous();
            let right = match self.unary() {
                Ok(e) => e,
                Err(m) => {
                    return Err(m);
                },
            };
            let new_expr = Expr::Binary(BinaryExpr::new(expr, previous, right));
            expr = new_expr;
            proof {
                assert(expr@ == SExpr::Binary(
                    SBinaryExpr {
                        left: Box::new(acc0),
                        op: self.stoks()[cur0],
                        right: Box::new(sp_unary(self.stoks(), cur0 + 1).res->Ok_0),
                    },
                ));
                assert(sp_mult_tail(self.stoks(), self.current as int, expr@) == goal);
            }
        }
    }

    /// Parses an addition: multiplications under `-` and `+`, accreted
    /// strictly left-associatively.
    pub fn addition(&mut self) -> (r: Result<Expr, String>)
        requires
            old(self).wf(),
        ensures
            final(self).wf(),
            final(self).tokens == old(self).tokens,
            old(self).current <= final(self).current,
            ({
                let st = sp_addition(old(self).stoks(), old(self).current as int);
                final(self).current as int == st.pos && expr_matches(r, st.res)
            }),
        decreases self.tokens@.len() - self.current, 5int,
    {
        let ghost goal = sp_addition(old(self).stoks(), old(self).current as int);
        let mut expr = match self.multiplication() {
            Ok(e) => e,
            Err(m) => {
                return Err(m);
            },
        };
        loop
            invariant
                self.wf(),
                self.tokens == old(self).tokens,
                old(self).current <= self.current,
                goal == sp_addition(old(self).stoks(), old(self).current as int),
                sp_add_tail(self.stoks(), self.current as int, expr@) == goal,
            decreases self.tokens@.len() - self.current,
        {
            let ghost cur0 = self.current as int;
            let ghost acc0 = expr@;
            if !self.match_two(TokenType::MINUS, TokenType::PLUS) {
                return Ok(expr);
            }
            let previous = self.previous();
            let right = match self.multiplication() {
                Ok(e) => e,
                Err(m) => {
                    return Err(m);
                },
            };
            let new_expr = Expr::Binary(BinaryExpr::new(expr, previous, right));
            expr = new_expr;
            proof {
                assert(expr@ == SExpr::Binary(
                    SBinaryExpr {
                        left: Box::new(acc0),
                        op: self.stoks()[cur0],
                        right: Box::new(sp_multiplication(self.stoks(), cur0 + 1).res->Ok_0),
                    },
                ));
                assert(sp_add_tail(self.stoks(), self.current as int, expr@) == goal);
            }
        }
    }

    /// Parses a comparison: additions under `>=`, `<=`, `>` and `<`,
    /// accreted strictly left-associatively.
    pub fn comparison(&mut self) -> (r: Result<Expr, String>)
        requires
            old(self).wf(),
        ensures
            final(self).wf(),
            final(self).tokens == old(self).tokens,
            old(self).current <= final(self).current,
            ({
                let st = sp_comparison(old(self).stoks(), old(self).current as int);
                final(self).current as int == st.pos && expr_matches(r, st.res)
            }),
        decreases self.tokens@.len() - self.current, 7int,
    {
        let ghost goal = sp_comparison(old(self).stoks(), old(self).current as int);
        let mut expr = match self.addition() {
            Ok(e) => e,
            Err(m) => {
                return Err(m);
            },
        };
        loop
            invariant
                self.wf(),
                self.tokens == old(self).tokens,
                old(self).current <= self.current,
                goal == sp_comparison(old(self).stoks(), old(self).current as int),
                sp_cmp_tail(self.stoks(), self.current as int, expr@) == goal,
            decreases self.tokens@.len() - self.current,
        {
            let ghost cur0 = self.current as int;
            let ghost acc0 = expr@;
            if !self.match_four(
                TokenType::GreaterEqual,
                TokenType::LessEqual,
                TokenType::GREATER,
                TokenType::LESS,
            ) {
                return Ok(expr);
            }
            let previous = self.previous();
            let right = match self.addition() {
                Ok(e) => e,
                Err(m) => {
                    return Err(m);
                },
            };
            let new_expr = Expr::Binary(BinaryExpr::new(expr, previous, right));
            expr = new_expr;
            proof {
                assert(expr@ == SExpr::Binary(
                    SBinaryExpr {
                        left: Box::new(acc0),
                        op: self.stoks()[cur0],
                        right: Box::new(sp_addition(self.stoks(), cur0 + 1).res->Ok_0),
                    },
                ));
                assert(sp_cmp_tail(self.stoks(), self.current as int, expr@) == goal);
            }
        }
    }

    /// Parses an equality: comparisons under `==` and `!=`, accreted
    /// strictly left-associatively.
    pub fn equality(&mut self) -> (r: Result<Expr, String>)
        requires
            old(self).wf(),
        ensures
            final(self).wf(),
            final(self).tokens == old(self).tokens,
            old(self).current <= final(self).current,
            ({
                let st = sp_equality(old(self).stoks(), old(self).current as int);
                final(self).current as int == st.pos && expr_matches(r, st.res)
            }),
        decreases self.tokens@.len() - self.current, 9int,
    {
        let ghost goal = sp_equality(old(self).stoks(), old(self).current as int);
        let mut expr = match self.comparison() {
            Ok(e) => e,
            Err(m) => {
                return Err(m);
            },
        };
        loop
            invariant
                self.wf(),
                self.tokens == old(self).tokens,
                old(self).current <= self.current,
                goal == sp_equality(old(self).stoks(), old(self).current as int),
                sp_eq_tail(self.stoks(), self.current as int, expr@) == goal,
            decreases self.tokens@.len() - self.current,
        {
            let ghost cur0 = self.current as int;
            let ghost acc0 = expr@;
            if !self.match_two(TokenType::EqualEqual, TokenType::BangEqual) {
                return Ok(expr);
            }
            let previous = self.previous();
            let right = match self.comparison() {
                Ok(e) => e,
                Err(m) => {
                    return Err(m);
                },
            };
            let new_expr = Expr::Binary(BinaryExpr::new(expr, previous, right));
            expr = new_expr;
            proof {
                assert(expr@ == SExpr::Binary(
                    SBinaryExpr {
                        left: Box::new(acc0),
                        op: self.stoks()[cur0],
                        right: Box::new(sp_comparison(self.stoks(), cur0 + 1).res->Ok_0),
                    },
                ));
                assert(sp_eq_tail(self.stoks(), self.current as int, expr@) == goal);
            }
        }
    }

    /// Parses an expression: the lowest precedence level is equality.
    pub fn expression(&mut self) -> (r: Result<Expr, String>)
        requires
            old(self).wf(),
        ensures
            final(self).wf(),
            final(self).tokens == old(self).tokens,
            old(self).current <= final(self).current,
            ({
                let st = sp_expression(old(self).stoks(), old(self).current as int);
                final(self).current as int == st.pos && expr_matches(r, st.res)
            }),
        decreases self.tokens@.len() - self.current, 10int,
    {
        self.equality()
    }

    /// Expects a semicolon after the statement, else fails the parse.
    pub fn expect_semicolon(&mut self, statement: Statement) -> (r: Result<Statement, String>)
        requires
            old(self).wf(),
        ensures
            final(self).wf(),
            final(self).tokens == old(self).tokens,
            old(self).current <= final(self).current,
            ({
                let st = sp_expect_semicolon(
                    old(self).stoks(),
                    old(self).current as int,
                    statement@,
                );
                final(self).current as int == st.pos && stmt_matches(r, st.res)
            }),
    {
        match self.match_one(TokenType::SEMICOLON) {
            true => Ok(statement),
            false => Err("Expected semicolon at the end of statement".to_owned()),
        }
    }

    /// Parses a bare expression statement.
    pub fn expr_statement(&mut self) -> (r: Result<Statement, String>)
        requires
            old(self).wf(),
        ensures
            final(self).wf(),
            final(self).tokens == old(self).tokens,
            old(self).current <= final(self).current,
            ({
                let st = sp_expr_statement(old(self).stoks(), old(self).current as int);
                final(self).current as int == st.pos && stmt_matches(r, st.res)
            }),
    {
        match self.expression() {
            Ok(e) => Ok(Statement::ExprStatement(e)),
            Err(m) => Err(m),
        }
    }

    /// Parses an assignment: the identifier, `=`, then the assigned
    /// expression.
    pub fn assignment(&mut self) -> (r: Result<Statement, String>)
        requires
            old(self).wf(),
        ensures
            final(self).wf(),
            final(self).tokens == old(self).tokens,
            old(self).current <= final(self).current,
            ({
                let st = sp_assignment(old(self).stoks(), old(self).current as int);
                final(self).current as int == st.pos && stmt_matches(r, st.res)
            }),
    {
        let ident = self.advance();
        match self.match_one(TokenType::EQUAL) {
            true => {
                let e = match self.expression() {
                    Ok(e) => e,
                    Err(m) => {
                        return Err(m);
                    },
                };
                Ok(Statement::Assignment(Assignment::new(ident, e)))
            },
            false => Err("expected Equals after variable declaration".to_owned()),
        }
    }

    /// Parses an assignment or a bare expression statement, each
    /// followed by its mandatory semicolon.
    pub fn declaration(&mut self) -> (r: Result<Statement, String>)
        requires
            old(self).wf(),
        ensures
            final(self).wf(),
            final(self).tokens == old(self).tokens,
            old(self).current <= final(self).current,
            (r matches Ok(_) && old(self).current < old(self).tokens.len())
                ==> old(self).current < final(self).current,
            ({
                let st = sp_declaration(old(self).stoks(), old(self).current as int);
                final(self).current as int == st.pos && stmt_matches(r, st.res)
            }),
    {
        let pk = self.peek();
        let decl = match *pk.get_type() {
            TokenType::IDENTIFIER => self.assignment(),
            _ => self.expr_statement(),
        };
        match decl {
            Ok(d) => self.expect_semicolon(d),
            Err(m) => Err(m),
        }
    }

    /// Parses an if statement after its `if` keyword: the condition,
    /// then the single owned body statement. The grammar has no `else`
    /// clause: an `else` token after the body is left unconsumed.
    #[verifier::rlimit(50)]
    pub fn parse_if(&mut self) -> (r: Result<Statement, String>)
        requires
            old(self).wf(),
        ensures
            final(self).wf(),
            final(self).tokens == old(self).tokens,
            old(self).current <= final(self).current,
            (r matches Ok(_) && old(self).current < old(self).tokens.len())
                ==> old(self).current < final(self).current,
            ({
                let st = sp_parse_if(old(self).stoks(), old(self).current as int);
                final(self).current as int == st.pos && stmt_matches(r, st.res)
            }),
        decreases self.tokens@.len() - self.current, 0int,
    {
        let c0 = self.current;
        let _ = self.advance();
        let condition = match self.expression() {
            Ok(e) => e,
            Err(m) => {
                return Err(m);
            },
        };
        if self.current == c0 {
            // The cursor was already at the end of the input: no body
            // statement can follow.
            return Err("Expected semicolon at the end of statement".to_owned());
        }
        let next_statement = match self.statement() {
            Ok(s) => s,
            Err(m) => {
                return Err(m);
            },
        };
        Ok(Statement::IfStatement(IfStatement::new(condition, next_statement)))
    }

    /// Parses a brace-delimited scope after its opening brace: the
    /// statements inside in source order, until the closing brace.
    #[verifier::rlimit(50)]
    pub fn parse_scope(&mut self) -> (r: Result<Statement, String>)
        requires
            old(self).wf(),
        ensures
            final(self).wf(),
            final(self).tokens == old(self).tokens,
            old(self).current <= final(self).current,
            (r matches Ok(_) && old(self).current < old(self).tokens.len())
                ==> old(self).current < final(self).current,
            ({
                let st = sp_parse_scope(old(self).stoks(), old(self).current as int);
                final(self).current as int == st.pos && stmt_matches(r, st.res)
            }),
        decreases self.tokens@.len() - self.current, 0int,
    {
        let ghost pos0 = self.current as int;
        let ghost goal = sp_parse_scope(old(self).stoks(), old(self).current as int);
        let _ = self.advance();
        let mut statements: Vec<Statement> = Vec::new();
        proof {
            assert(sstmts_view(statements@) =~= Seq::<SStmt>::empty());
        }
        loop
            invariant
                self.wf(),
                self.tokens == old(self).tokens,
                pos0 == old(self).current as int,
                goal == sp_parse_scope(old(self).stoks(), pos0),
                pos0 <= self.current,
                pos0 < self.tokens@.len() ==> pos0 + 1 <= self.current,
                pos0 < self.tokens@.len() ==> sp_scope_items(
                    self.stoks(),
                    self.current as int,
                    sstmts_view(statements@),
                ) == goal,
                pos0 >= self.tokens@.len() ==> self.current as int == pos0,
            decreases self.tokens@.len() - self.current,
        {
            let pk = self.peek();
            if !pk.is_type(&TokenType::RightBrace) {
                if self.is_at_end() {
                    return Err("Expected closing brace at the end of scope".to_owned());
                }
                let ghost stmts0 = statements@;
                let s = match self.statement() {
                    Ok(s) => s,
                    Err(m) => {
                        return Err(m);
                    },
                };
                statements.push(s);
                proof {
                    assert(sstmts_view(statements@) =~= sstmts_view(stmts0).push(
                        crate::statement::stmt_view(statements@.last()),
                    ));
                }
            } else {
                let _ = self.advance();
                proof {
                    lemma_stmts_view_eq(statements);
                }
                return Ok(Statement::Scope(statements));
            }
        }
    }

    /// Parses a scope where one opens, else falls through to an
    /// assignment or expression statement.
    pub fn scope(&mut self) -> (r: Result<Statement, String>)
        requires
            old(self).wf(),
        ensures
            final(self).wf(),
            final(self).tokens == old(self).tokens,
            old(self).current <= final(self).current,
            (r matches Ok(_) && old(self).current < old(self).tokens.len())
                ==> old(self).current < final(self).current,
            ({
                let st = sp_scope(old(self).stoks(), old(self).current as int);
                final(self).current as int == st.pos && stmt_matches(r, st.res)
            }),
        decreases self.tokens@.len() - self.current, 1int,
    {
        let pk = self.peek();
        match pk.is_type(&TokenType::LeftBrace) {
            true => self.parse_scope(),
            false => self.declaration(),
        }
    }

    /// Parses an if statement where one opens, else falls through.
    pub fn if_condition(&mut self) -> (r: Result<Statement, String>)
        requires
            old(self).wf(),
        ensures
            final(self).wf(),
            final(self).tokens == old(self).tokens,
            old(self).current <= final(self).current,
            (r matches Ok(_) && old(self).current < old(self).tokens.len())
                ==> old(self).current < final(self).current,
            ({
                let st = sp_if_condition(old(self).stoks(), old(self).current as int);
                final(self).current as int == st.pos && stmt_matches(r, st.res)
            }),
        decreases self.tokens@.len() - self.current, 2int,
    {
        let pk = self.peek();
        match pk.is_type(&TokenType::IF) {
            true => self.parse_if(),
            false => self.scope(),
        }
    }

    /// Parses a break statement where one opens, else falls through.
    pub fn break_statement(&mut self) -> (r: Result<Statement, String>)
        requires
            old(self).wf(),
        ensures
            final(self).wf(),
            final(self).tokens == old(self).tokens,
            old(self).current <= final(self).current,
            (r matches Ok(_) && old(self).current < old(self).tokens.len())
                ==> old(self).current < final(self).current,
            ({
                let st = sp_break_statement(old(self).stoks(), old(self).current as int);
                final(self).current as int == st.pos && stmt_matches(r, st.res)
            }),
        decreases self.tokens@.len() - self.current, 3int,
    {
        let pk = self.peek();
        match pk.is_type(&TokenType::BREAK) {
            true => {
                let _ = self.advance();
                self.expect_semicolon(Statement::BreakStatement)
            },
            false => self.if_condition(),
        }
    }

    /// Parses a statement: break, if, scope, assignment or expression
    /// statement, tried outermost first.
    pub fn statement(&mut self) -> (r: Result<Statement, String>)
        requires
            old(self).wf(),
        ensures
            final(self).wf(),
            final(self).tokens == old(self).tokens,
            old(self).current <= final(self).current,
            (r matches Ok(_) && old(self).current < old(self).tokens.len())
                ==> old(self).current < final(self).current,
            ({
                let st = sp_statement(old(self).stoks(), old(self).current as int);
                final(self).current as int == st.pos && stmt_matches(r, st.res)
            }),
        decreases self.tokens@.len() - self.current, 4int,
    {
        self.break_statement()
    }

    /// Parses the declaration of the parameter names.
    pub fn func_args(&mut self) -> (r: Result<Vec<String>, String>)
        requires
            old(self).wf(),
        ensures
            final(self).wf(),
            final(self).tokens == old(self).tokens,
            old(self).current <= final(self).current,
            ({
                let st = sp_func_args(old(self).stoks(), old(self).current as int);
                final(self).current as int == st.pos && args_matches(r, st.res)
            }),
    {
        let ghost goal = sp_func_args(old(self).stoks(), old(self).current as int);
        let mut args: Vec<String> = Vec::new();
        if self.check(&TokenType::LeftParen) {
            let _ = self.advance();
        } else {
            return Err("Expected left parenthesis after function name".to_owned());
        }
        if self.check(&TokenType::IDENTIFIER) {
            let t = self.advance();
            args.push(t.get_lexeme().clone());
        } else {
            return Err("Expected identifier".to_owned());
        }
        proof {
            assert(args@.map_values(|x: String| x@) =~= seq![
                old(self).stoks()[old(self).current as int + 1].lexeme,
            ]);
        }
        loop
            invariant
                self.wf(),
                self.tokens == old(self).tokens,
                old(self).current <= self.current,
                goal == sp_func_args(old(self).stoks(), old(self).current as int),
                sp_args_tail(
                    self.stoks(),
                    self.current as int,
                    args@.map_values(|x: String| x@),
                ) == goal,
            decreases self.tokens@.len() - self.current,
        {
            let pk = self.peek();
            if pk.is_type(&TokenType::RightParen) {
                let _ = self.advance();
                return Ok(args);
            }
            if !self.check(&TokenType::COMMA) {
                return Err("Expected comma after identifier".to_owned());
            }
            // Consume the separating comma before the next name.
            let _ = self.advance();
            if self.check(&TokenType::IDENTIFIER) {
                let t = self.advance();
                let ghost av0 = args@;
                args.push(t.get_lexeme().clone());
                proof {
                    assert(args@.map_values(|x: String| x@) =~= av0.map_values(
                        |x: String| x@,
                    ).push(t@.lexeme));
                }
            } else {
                return Err("Expected identifier".to_owned());
            }
        }
    }

    /// Parses a function declaration: `fun`, the name, the parameter
    /// list, then the body scope.
    pub fn function_decl(&mut self) -> (r: Result<FunctionDecl, String>)
        requires
            old(self).wf(),
        ensures
            final(self).wf(),
            final(self).tokens == old(self).tokens,
            old(self).current <= final(self).current,
            r matches Ok(_) ==> old(self).current < final(self).current,
            ({
                let st = sp_function_decl(old(self).stoks(), old(self).current as int);
                final(self).current as int == st.pos && fdecl_matches(r, st.res)
            }),
    {
        let pk = self.peek();
        match *pk.get_type() {
            TokenType::FUN => {
                let _ = self.advance();
                let name = match self.check(&TokenType::IDENTIFIER) {
                    true => {
                        let t = self.advance();
                        t.get_lexeme().clone()
                    },
                    false => {
                        return Err("Expected identifier after function".to_owned());
                    },
                };
                let arguments = match self.func_args() {
                    Ok(a) => a,
                    Err(m) => {
                        return Err(m);
                    },
                };
                let scope = match self.scope() {
                    Ok(s) => s,
                    Err(m) => {
                        return Err(m);
                    },
                };
                Ok(FunctionDecl::new(name, arguments, scope))
            },
            _ => Err("error : expected function declaration there".to_owned()),
        }
    }

    /// The top-level driver: attempts function declarations while any
    /// tokens remain. A success goes into the map under its declared
    /// name, silently replacing an earlier declaration of the same
    /// name; a failure is recorded and parsing simply continues where
    /// the cursor stopped. Once five errors have accumulated the run
    /// stops with exactly those errors, so a sixth potential error is
    /// never produced; a run with no errors is the only one that
    /// yields a program.
    pub fn program(&mut self) -> (r: Result<StringHashMap<FunctionDecl>, Vec<ParseError>>)
        requires
            old(self).wf(),
        ensures
            final(self).wf(),
            final(self).tokens == old(self).tokens,
            old(self).current <= final(self).current,
            ({
                let st = sp_program(old(self).stoks(), old(self).current as int);
                final(self).current as int == st.pos && prog_matches(r, st.res)
            }),
            r matches Err(e) ==> 1 <= e@.len() <= 5,
    {
        let ghost goal = sp_program(old(self).stoks(), old(self).current as int);
        let mut fails: Vec<ParseError> = Vec::new();
        let mut functions: StringHashMap<FunctionDecl> = StringHashMap::new();
        proof {
            assert(fdmap_view(functions@) =~= Map::<Seq<char>, SFunctionDecl>::empty());
            assert(perrs_view(fails@) =~= Seq::<SParseError>::empty());
        }
        loop
            invariant
                self.wf(),
                self.tokens == old(self).tokens,
                old(self).current <= self.current,
                fails@.len() <= 4,
                goal == sp_program(old(self).stoks(), old(self).current as int),
                sp_program_loop(
                    self.stoks(),
                    self.current as int,
                    fdmap_view(functions@),
                    perrs_view(fails@),
                ) == goal,
            decreases self.tokens@.len() - self.current, 5int - fails@.len(),
        {
            if self.is_at_end() {
                if fails.is_empty() {
                    return Ok(functions);
                } else {
                    return Err(fails);
                }
            }
            match self.function_decl() {
                Ok(e) => {
                    let name = e.name().clone();
                    let ghost f0 = functions@;
                    let ghost ev = e@;
                    functions.insert(name, e);
                    proof {
                        assert(fdmap_view(functions@) =~= fdmap_view(f0).insert(ev.name, ev));
                    }
                },
                Err(m) => {
                    let prev = self.previous();
                    let ghost e0 = fails@;
                    fails.push(ParseError::new(prev, m));
                    proof {
                        assert(perrs_view(fails@) =~= perrs_view(e0).push(fails@.last()@));
                    }
                    if fails.len() >= 5 {
                        return Err(fails);
                    }
                },
            }
        }
    }
}

} // verus!
