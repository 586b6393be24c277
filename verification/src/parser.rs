//! The parser: tokens to AST, by operator precedence.
//!
//! Precedence, lowest to highest: equality, comparison, additive,
//! multiplicative, prefix, then call and index.  Infix operators are
//! left-associative, prefix operators right-associative.  Trailing commas
//! are accepted in argument lists, array literals and hash literals.
//! `if` branches and function bodies are always blocks.
//!
//! The meaning of parsing is the `parse_*` specification functions over
//! token models: each executable parser returns exactly the node model
//! and next position that they give, or an error exactly when they give
//! none.

use vstd::prelude::*;

use std::rc::Rc;

use crate::ast::Expr;
use crate::ast::ExprV;
use crate::ast::Opcode;
use crate::ast::Program;
use crate::ast::Stmt;
use crate::ast::StmtV;
use crate::ast::ast_pairs_view;
use crate::ast::exprs_view;
use crate::ast::lemma_ast_pairs_view;
use crate::ast::lemma_exprs_view;
use crate::ast::lemma_names_view;
use crate::ast::lemma_stmts_view;
use crate::ast::names_view;
use crate::ast::stmts_view;
use crate::lexer::Token;
use crate::lexer::TokenV;
use crate::lexer::lemma_tokens_view;
use crate::lexer::spec_tokenize;
use crate::lexer::tokenize;
use crate::lexer::tokens_view;
use crate::text::u64_dec_string;

verus! {

/// Precedence of prefix operators.
pub const PREFIX_PREC: u32 = 5;

/// Precedence of call and index expressions, the tightest.
pub const POSTFIX_PREC: u32 = 6;

/// The infix operator and precedence of a token, for the binary
/// operators.
pub open spec fn infix_prec(t: TokenV) -> Option<(Opcode, int)> {
    match t {
        TokenV::Eq => Some((Opcode::Eq, 1)),
        TokenV::NotEq => Some((Opcode::NotEq, 1)),
        TokenV::Lt => Some((Opcode::Lt, 2)),
        TokenV::Gt => Some((Opcode::Gt, 2)),
        TokenV::Plus => Some((Opcode::Add, 3)),
        TokenV::Minus => Some((Opcode::Sub, 3)),
        TokenV::Star => Some((Opcode::Mul, 4)),
        TokenV::Slash => Some((Opcode::Div, 4)),
        _ => None,
    }
}

/// The token that closes an expression list: a bracket for array
/// literals, a parenthesis for argument lists.
pub open spec fn is_closer(t: TokenV, square: bool) -> bool {
    if square {
        t is RBracket
    } else {
        t is RParen
    }
}

/// An expression whose operators bind tighter than `min_prec`, starting
/// at `pos`, and the position just past it.
pub open spec fn parse_expr_prec(toks: Seq<TokenV>, pos: int, min_prec: int) -> Option<
    (ExprV, int),
>
    decreases toks.len() - pos, 2nat,
{
    if pos < 0 || pos >= toks.len() {
        None
    } else {
        let prefixed = match toks[pos] {
            TokenV::Minus => Some(Opcode::Sub),
            TokenV::Plus => Some(Opcode::Add),
            TokenV::Bang => Some(Opcode::Bang),
            _ => None,
        };
        match prefixed {
            Some(op) => match parse_expr_prec(toks, pos + 1, PREFIX_PREC as int) {
                None => None,
                Some((operand, p1)) => if pos < p1 <= toks.len() {
                    parse_infix_chain(
                        toks,
                        p1,
                        ExprV::PrefixOp { operator: op, right: Box::new(operand) },
                        min_prec,
                    )
                } else {
                    None
                },
            },
            None => match parse_primary(toks, pos) {
                None => None,
                Some((left, p1)) => if pos < p1 <= toks.len() {
                    parse_infix_chain(toks, p1, left, min_prec)
                } else {
                    None
                },
            },
        }
    }
}

/// The expression continued from `left` by infix, call and index
/// operators binding tighter than `min_prec`.
pub open spec fn parse_infix_chain(toks: Seq<TokenV>, pos: int, left: ExprV, min_prec: int) -> Option<
    (ExprV, int),
>
    decreases toks.len() - pos, 3nat,
{
    if pos < 0 {
        None
    } else if pos >= toks.len() {
        Some((left, pos))
    } else {
        match toks[pos] {
            TokenV::LParen => if POSTFIX_PREC > min_prec {
                match parse_exprs_until(toks, pos + 1, false) {
                    None => None,
                    Some((args, p2)) => if pos < p2 <= toks.len() {
                        parse_infix_chain(
                            toks,
                            p2,
                            ExprV::Call { function: Box::new(left), arguments: args },
                            min_prec,
                        )
                    } else {
                        None
                    },
                }
            } else {
                Some((left, pos))
            },
            TokenV::LBracket => if POSTFIX_PREC > min_prec {
                match parse_expr_prec(toks, pos + 1, 0) {
                    None => None,
                    Some((idx, p2)) => if pos < p2 && p2 < toks.len() && toks[p2] is RBracket {
                        parse_infix_chain(
                            toks,
                            p2 + 1,
                            ExprV::Index { left: Box::new(left), index: Box::new(idx) },
                            min_prec,
                        )
                    } else {
                        None
                    },
                }
            } else {
                Some((left, pos))
            },
            _ => match infix_prec(toks[pos]) {
                None => Some((left, pos)),
                Some((op, prec)) => if prec > min_prec {
                    match parse_expr_prec(toks, pos + 1, prec) {
                        None => None,
                        Some((right, p2)) => if pos < p2 <= toks.len() {
                            parse_infix_chain(
                                toks,
                                p2,
                                ExprV::InfixOp {
                                    left: Box::new(left),
                                    operator: op,
                                    right: Box::new(right),
                                },
                                min_prec,
                            )
                        } else {
                            None
                        },
                    }
                } else {
                    Some((left, pos))
                },
            },
        }
    }
}

/// A primary expression: a literal, an identifier, a grouped expression,
/// an `if` expression, a function literal, an array literal or a hash
/// literal.
pub open spec fn parse_primary(toks: Seq<TokenV>, pos: int) -> Option<(ExprV, int)>
    decreases toks.len() - pos, 0nat,
{
    if pos < 0 || pos >= toks.len() {
        None
    } else {
        match toks[pos] {
            TokenV::Int(n) => Some((ExprV::Number(n), pos + 1)),
            TokenV::True => Some((ExprV::Boolean(true), pos + 1)),
            TokenV::False => Some((ExprV::Boolean(false), pos + 1)),
            TokenV::Ident(w) => Some((ExprV::Identifier(w), pos + 1)),
            TokenV::StrLit(s) => Some((ExprV::StringLit(s), pos + 1)),
            TokenV::LParen => match parse_expr_prec(toks, pos + 1, 0) {
                None => None,
                Some((e, p2)) => if pos < p2 && p2 < toks.len() && toks[p2] is RParen {
                    Some((e, p2 + 1))
                } else {
                    None
                },
            },
            TokenV::If => if pos + 1 < toks.len() && toks[pos + 1] is LParen {
                match parse_expr_prec(toks, pos + 2, 0) {
                    None => None,
                    Some((cond, p2)) => if pos + 2 <= p2 && p2 < toks.len() && toks[p2] is RParen {
                        match parse_block(toks, p2 + 1) {
                            None => None,
                            Some((cons, p3)) => if p2 + 1 < p3 <= toks.len() {
                                if p3 < toks.len() && toks[p3] is Else {
                                    match parse_block(toks, p3 + 1) {
                                        None => None,
                                        Some((alt, p4)) => Some(
                                            (
                                                ExprV::If {
                                                    condition: Box::new(cond),
                                                    consequence: Box::new(cons),
                                                    alternative: Some(Box::new(alt)),
                                                },
                                                p4,
                                            ),
                                        ),
                                    }
                                } else {
                                    Some(
                                        (
                                            ExprV::If {
                                                condition: Box::new(cond),
                                                consequence: Box::new(cons),
                                                alternative: None,
                                            },
                                            p3,
                                        ),
                                    )
                                }
                            } else {
                                None
                            },
                        }
                    } else {
                        None
                    },
                }
            } else {
                None
            },
            TokenV::Fn => if pos + 1 < toks.len() && toks[pos + 1] is LParen {
                match parse_params(toks, pos + 2) {
                    None => None,
                    Some((params, p2)) => if pos + 2 <= p2 <= toks.len() {
                        match parse_block(toks, p2) {
                            None => None,
                            Some((body, p3)) => Some(
                                (ExprV::FuncLit { parameters: params, body: Box::new(body) }, p3),
                            ),
                        }
                    } else {
                        None
                    },
                }
            } else {
                None
            },
            TokenV::LBracket => match parse_exprs_until(toks, pos + 1, true) {
                None => None,
                Some((elems, p2)) => Some((ExprV::ArrayLit { elements: elems }, p2)),
            },
            TokenV::LBrace => match parse_pairs_until(toks, pos + 1) {
                None => None,
                Some((pairs, p2)) => Some((ExprV::HashLit { pairs }, p2)),
            },
            _ => None,
        }
    }
}

/// Comma-separated expressions up to and including the closing token; a
/// trailing comma is accepted.
pub open spec fn parse_exprs_until(toks: Seq<TokenV>, pos: int, square: bool) -> Option<
    (Seq<ExprV>, int),
>
    decreases toks.len() - pos, 4nat,
{
    if pos < 0 || pos >= toks.len() {
        None
    } else if is_closer(toks[pos], square) {
        Some((Seq::empty(), pos + 1))
    } else {
        match parse_expr_prec(toks, pos, 0) {
            None => None,
            Some((e, p1)) => if !(pos < p1 && p1 < toks.len()) {
                None
            } else if toks[p1] is Comma {
                match parse_exprs_until(toks, p1 + 1, square) {
                    None => None,
                    Some((rest, p2)) => Some((seq![e] + rest, p2)),
                }
            } else if is_closer(toks[p1], square) {
                Some((seq![e], p1 + 1))
            } else {
                None
            },
        }
    }
}

/// Comma-separated `key: value` pairs up to and including the closing
/// brace; a trailing comma is accepted.
pub open spec fn parse_pairs_until(toks: Seq<TokenV>, pos: int) -> Option<
    (Seq<(ExprV, ExprV)>, int),
>
    decreases toks.len() - pos, 4nat,
{
    if pos < 0 || pos >= toks.len() {
        None
    } else if toks[pos] is RBrace {
        Some((Seq::empty(), pos + 1))
    } else {
        match parse_expr_prec(toks, pos, 0) {
            None => None,
            Some((k, p1)) => if !(pos < p1 && p1 < toks.len() && toks[p1] is Colon) {
                None
            } else {
                match parse_expr_prec(toks, p1 + 1, 0) {
                    None => None,
                    Some((v, p2)) => if !(p1 < p2 && p2 < toks.len()) {
                        None
                    } else if toks[p2] is Comma {
                        match parse_pairs_until(toks, p2 + 1) {
                            None => None,
                            Some((rest, p3)) => Some((seq![(k, v)] + rest, p3)),
                        }
                    } else if toks[p2] is RBrace {
                        Some((seq![(k, v)], p2 + 1))
                    } else {
                        None
                    },
                }
            },
        }
    }
}

/// Comma-separated parameter names up to and including the closing
/// parenthesis; a trailing comma is accepted.
pub open spec fn parse_params(toks: Seq<TokenV>, pos: int) -> Option<(Seq<Seq<char>>, int)>
    decreases toks.len() - pos,
{
    if pos < 0 || pos >= toks.len() {
        None
    } else if toks[pos] is RParen {
        Some((Seq::empty(), pos + 1))
    } else {
        match toks[pos] {
            TokenV::Ident(w) => if pos + 1 < toks.len() && toks[pos + 1] is Comma {
                match parse_params(toks, pos + 2) {
                    None => None,
                    Some((rest, p2)) => Some((seq![w] + rest, p2)),
                }
            } else if pos + 1 < toks.len() && toks[pos + 1] is RParen {
                Some((seq![w], pos + 2))
            } else {
                None
            },
            _ => None,
        }
    }
}

/// A block: statements between braces.
pub open spec fn parse_block(toks: Seq<TokenV>, pos: int) -> Option<(StmtV, int)>
    decreases toks.len() - pos, 5nat,
{
    if pos < 0 || pos >= toks.len() || !(toks[pos] is LBrace) {
        None
    } else {
        match parse_block_stmts(toks, pos + 1) {
            None => None,
            Some((ss, p2)) => Some((StmtV::Block { statements: ss }, p2)),
        }
    }
}

/// Statements up to and including the closing brace.
pub open spec fn parse_block_stmts(toks: Seq<TokenV>, pos: int) -> Option<(Seq<StmtV>, int)>
    decreases toks.len() - pos, 7nat,
{
    if pos < 0 || pos >= toks.len() {
        None
    } else if toks[pos] is RBrace {
        Some((Seq::empty(), pos + 1))
    } else {
        match parse_stmt(toks, pos) {
            None => None,
            Some((s, p1)) => if pos < p1 <= toks.len() {
                match parse_block_stmts(toks, p1) {
                    None => None,
                    Some((rest, p2)) => Some((seq![s] + rest, p2)),
                }
            } else {
                None
            },
        }
    }
}

/// One statement: `let`, `return`, a block, or an expression followed by
/// a semicolon.
pub open spec fn parse_stmt(toks: Seq<TokenV>, pos: int) -> Option<(StmtV, int)>
    decreases toks.len() - pos, 6nat,
{
    if pos < 0 || pos >= toks.len() {
        None
    } else {
        match toks[pos] {
            TokenV::Let => if pos + 2 < toks.len() && toks[pos + 1] is Ident && toks[pos
                + 2] is Assign {
                match parse_expr_prec(toks, pos + 3, 0) {
                    None => None,
                    Some((v, p1)) => if pos + 3 <= p1 && p1 < toks.len() && toks[p1] is Semicolon {
                        Some(
                            (
                                StmtV::Let {
                                    name: toks[pos + 1]->Ident_0,
                                    value: Box::new(v),
                                },
                                p1 + 1,
                            ),
                        )
                    } else {
                        None
                    },
                }
            } else {
                None
            },
            TokenV::Return => match parse_expr_prec(toks, pos + 1, 0) {
                None => None,
                Some((v, p1)) => if pos + 1 <= p1 && p1 < toks.len() && toks[p1] is Semicolon {
                    Some((StmtV::Return { return_value: Box::new(v) }, p1 + 1))
                } else {
                    None
                },
            },
            TokenV::LBrace => {
                // A brace opens either a hash literal or a block: it is an
                // expression statement when a whole expression and its
                // semicolon fit, else a block.
                let tried = match parse_expr_prec(toks, pos, 0) {
                    None => None,
                    Some((e, p1)) => if pos < p1 && p1 < toks.len() && toks[p1] is Semicolon {
                        Some((StmtV::Expr { expression: Box::new(e) }, p1 + 1))
                    } else {
                        None
                    },
                };
                match tried {
                    Some(r) => Some(r),
                    None => parse_block(toks, pos),
                }
            },
            _ => match parse_expr_prec(toks, pos, 0) {
                None => None,
                Some((e, p1)) => if pos < p1 && p1 < toks.len() && toks[p1] is Semicolon {
                    Some((StmtV::Expr { expression: Box::new(e) }, p1 + 1))
                } else {
                    None
                },
            },
        }
    }
}

/// Statements up to the end of the tokens.
pub open spec fn parse_program_stmts(toks: Seq<TokenV>, pos: int) -> Option<Seq<StmtV>>
    decreases toks.len() - pos, 7nat,
{
    if pos < 0 {
        None
    } else if pos >= toks.len() {
        Some(Seq::empty())
    } else {
        match parse_stmt(toks, pos) {
            None => None,
            Some((s, p1)) => if pos < p1 <= toks.len() {
                match parse_program_stmts(toks, p1) {
                    None => None,
                    Some(rest) => Some(seq![s] + rest),
                }
            } else {
                None
            },
        }
    }
}

/// The model program of a source text, if it lexes and parses.
pub open spec fn spec_parse_program(s: Seq<char>) -> Option<Seq<StmtV>> {
    match spec_tokenize(s) {
        None => None,
        Some(toks) => parse_program_stmts(toks, 0),
    }
}

/// The model expression of a source text holding exactly one expression.
pub open spec fn spec_parse_expression(s: Seq<char>) -> Option<ExprV> {
    match spec_tokenize(s) {
        None => None,
        Some(toks) => match parse_expr_prec(toks, 0, 0) {
            None => None,
            Some((e, p)) => if p == toks.len() {
                Some(e)
            } else {
                None
            },
        },
    }
}

/// The model statement of a source text holding exactly one statement.
pub open spec fn spec_parse_statement(s: Seq<char>) -> Option<StmtV> {
    match spec_tokenize(s) {
        None => None,
        Some(toks) => match parse_stmt(toks, 0) {
            None => None,
            Some((s2, p)) => if p == toks.len() {
                Some(s2)
            } else {
                None
            },
        },
    }
}

/// A parse error naming the position of the offending token.
fn parse_error_at(pos: usize) -> (r: String)
{
    let mut m = "unexpected token at position ".to_owned();
    let p = u64_dec_string(pos as u64);
    m.append(p.as_str());
    m
}

/// An expression whose operators bind tighter than `min_prec`.
fn p_expr(toks: &Vec<Token>, pos: usize, min_prec: u32) -> (r: Result<(Expr, usize), String>)
    ensures
        match (r, parse_expr_prec(tokens_view(toks@, 0), pos as int, min_prec as int)) {
            (Ok((e, p)), Some((ev, pv))) => e@ == ev && p == pv,
            (Err(_), None) => true,
            _ => false,
        },
    decreases toks.len() - pos, 2nat,
{
    proof {
        lemma_tokens_view(toks@, 0);
    }
    if pos >= toks.len() {
        return Err(parse_error_at(pos));
    }
    let prefixed: Option<Opcode> = match &toks[pos] {
        Token::Minus => Some(Opcode::Sub),
        Token::Plus => Some(Opcode::Add),
        Token::Bang => Some(Opcode::Bang),
        _ => None,
    };
    match prefixed {
        Some(op) => {
            let (operand, p1) = match p_expr(toks, pos + 1, PREFIX_PREC) {
                Ok(x) => x,
                Err(e) => {
                    return Err(e);
                },
            };
            if !(pos < p1 && p1 <= toks.len()) {
                return Err(parse_error_at(p1));
            }
            p_infix_chain(
                toks,
                p1,
                Expr::PrefixOp { operator: op, right: Box::new(operand) },
                min_prec,
            )
        },
        None => {
            let (left, p1) = match p_primary(toks, pos) {
                Ok(x) => x,
                Err(e) => {
                    return Err(e);
                },
            };
            if !(pos < p1 && p1 <= toks.len()) {
                return Err(parse_error_at(p1));
            }
            p_infix_chain(toks, p1, left, min_prec)
        },
    }
}

/// The expression continued from `left` by infix, call and index
/// operators binding tighter than `min_prec`.
fn p_infix_chain(toks: &Vec<Token>, pos: usize, left: Expr, min_prec: u32) -> (r: Result<
    (Expr, usize),
    String,
>)
    ensures
        match (r, parse_infix_chain(tokens_view(toks@, 0), pos as int, left@, min_prec as int)) {
            (Ok((e, p)), Some((ev, pv))) => e@ == ev && p == pv,
            (Err(_), None) => true,
            _ => false,
        },
    decreases toks.len() - pos, 3nat,
{
    proof {
        lemma_tokens_view(toks@, 0);
    }
    if pos >= toks.len() {
        return Ok((left, pos));
    }
    match &toks[pos] {
        Token::LParen => {
            if POSTFIX_PREC > min_prec {
                let (args, p2) = match p_exprs_until(toks, pos + 1, false) {
                    Ok(x) => x,
                    Err(e) => {
                        return Err(e);
                    },
                };
                if !(pos < p2 && p2 <= toks.len()) {
                    return Err(parse_error_at(p2));
                }
                p_infix_chain(
                    toks,
                    p2,
                    Expr::Call { function: Box::new(left), arguments: args },
                    min_prec,
                )
            } else {
                Ok((left, pos))
            }
        },
        Token::LBracket => {
            if POSTFIX_PREC > min_prec {
                let (idx, p2) = match p_expr(toks, pos + 1, 0) {
                    Ok(x) => x,
                    Err(e) => {
                        return Err(e);
                    },
                };
                let closes = pos < p2 && p2 < toks.len() && matches!(&toks[p2], Token::RBracket);
                if !closes {
                    return Err(parse_error_at(p2));
                }
                p_infix_chain(
                    toks,
                    p2 + 1,
                    Expr::Index { left: Box::new(left), index: Box::new(idx) },
                    min_prec,
                )
            } else {
                Ok((left, pos))
            }
        },
        other => {
            let op_prec: Option<(Opcode, u32)> = match other {
                Token::Eq => Some((Opcode::Eq, 1)),
                Token::NotEq => Some((Opcode::NotEq, 1)),
                Token::Lt => Some((Opcode::Lt, 2)),
                Token::Gt => Some((Opcode::Gt, 2)),
                Token::Plus => Some((Opcode::Add, 3)),
                Token::Minus => Some((Opcode::Sub, 3)),
                Token::Star => Some((Opcode::Mul, 4)),
                Token::Slash => Some((Opcode::Div, 4)),
                _ => None,
            };
            match op_prec {
                None => Ok((left, pos)),
                Some((op, prec)) => {
                    if prec > min_prec {
                        let (right, p2) = match p_expr(toks, pos + 1, prec) {
                            Ok(x) => x,
                            Err(e) => {
                                return Err(e);
                            },
                        };
                        if !(pos < p2 && p2 <= toks.len()) {
                            return Err(parse_error_at(p2));
                        }
                        p_infix_chain(
                            toks,
                            p2,
                            Expr::InfixOp {
                                left: Box::new(left),
                                operator: op,
                                right: Box::new(right),
                            },
                            min_prec,
                        )
                    } else {
                        Ok((left, pos))
                    }
                },
            }
        },
    }
}

/// A primary expression.
#[verifier::rlimit(100)]
#[verifier::spinoff_prover]
fn p_primary(toks: &Vec<Token>, pos: usize) -> (r: Result<(Expr, usize), String>)
    ensures
        match (r, parse_primary(tokens_view(toks@, 0), pos as int)) {
            (Ok((e, p)), Some((ev, pv))) => e@ == ev && p == pv,
            (Err(_), None) => true,
            _ => false,
        },
    decreases toks.len() - pos, 0nat,
{
    proof {
        lemma_tokens_view(toks@, 0);
    }
    if pos >= toks.len() {
        return Err(parse_error_at(pos));
    }
    match &toks[pos] {
        Token::Int(n) => Ok((Expr::Number(*n), pos + 1)),
        Token::True => Ok((Expr::Boolean(true), pos + 1)),
        Token::False => Ok((Expr::Boolean(false), pos + 1)),
        Token::Ident(w) => Ok((Expr::Identifier(w.clone()), pos + 1)),
        Token::StrLit(s) => Ok((Expr::StringLit(s.clone()), pos + 1)),
        Token::LParen => {
            let (e, p2) = match p_expr(toks, pos + 1, 0) {
                Ok(x) => x,
                Err(e) => {
                    return Err(e);
                },
            };
            let closes = pos < p2 && p2 < toks.len() && matches!(&toks[p2], Token::RParen);
            if !closes {
                return Err(parse_error_at(p2));
            }
            Ok((e, p2 + 1))
        },
        Token::If => {
            let opens = pos + 1 < toks.len() && matches!(&toks[pos + 1], Token::LParen);
            if !opens {
                return Err(parse_error_at(pos + 1));
            }
            let (cond, p2) = match p_expr(toks, pos + 2, 0) {
                Ok(x) => x,
                Err(e) => {
                    return Err(e);
                },
            };
            let closes = pos + 2 <= p2 && p2 < toks.len() && matches!(&toks[p2], Token::RParen);
            if !closes {
                return Err(parse_error_at(p2));
            }
            let (cons, p3) = match p_block(toks, p2 + 1) {
                Ok(x) => x,
                Err(e) => {
                    return Err(e);
                },
            };
            if !(p2 + 1 < p3 && p3 <= toks.len()) {
                return Err(parse_error_at(p3));
            }
            if p3 < toks.len() && matches!(&toks[p3], Token::Else) {
                let (alt, p4) = match p_block(toks, p3 + 1) {
                    Ok(x) => x,
                    Err(e) => {
                        return Err(e);
                    },
                };
                Ok(
                    (
                        Expr::If {
                            condition: Box::new(cond),
                            consequence: Box::new(cons),
                            alternative: Some(Box::new(alt)),
                        },
                        p4,
                    ),
                )
            } else {
                Ok(
                    (
                        Expr::If {
                            condition: Box::new(cond),
                            consequence: Box::new(cons),
                            alternative: None,
                        },
                        p3,
                    ),
                )
            }
        },
        Token::Fn => {
            let opens = pos + 1 < toks.len() && matches!(&toks[pos + 1], Token::LParen);
            if !opens {
                return Err(parse_error_at(pos + 1));
            }
            let (params, p2) = match p_params(toks, pos + 2) {
                Ok(x) => x,
                Err(e) => {
                    return Err(e);
                },
            };
            if !(pos + 2 <= p2 && p2 <= toks.len()) {
                return Err(parse_error_at(p2));
            }
            let (body, p3) = match p_block(toks, p2) {
                Ok(x) => x,
                Err(e) => {
                    return Err(e);
                },
            };
            Ok((Expr::FuncLit { parameters: Rc::new(params), body: Rc::new(body) }, p3))
        },
        Token::LBracket => {
            let (elems, p2) = match p_exprs_until(toks, pos + 1, true) {
                Ok(x) => x,
                Err(e) => {
                    return Err(e);
                },
            };
            Ok((Expr::ArrayLit { elements: elems }, p2))
        },
        Token::LBrace => {
            let (pairs, p2) = match p_pairs_until(toks, pos + 1) {
                Ok(x) => x,
                Err(e) => {
                    return Err(e);
                },
            };
            Ok((Expr::HashLit { pairs }, p2))
        },
        _ => Err(parse_error_at(pos)),
    }
}

/// Comma-separated expressions up to and including the closing token.
fn p_exprs_until(toks: &Vec<Token>, pos: usize, square: bool) -> (r: Result<
    (Vec<Expr>, usize),
    String,
>)
    ensures
        match (r, parse_exprs_until(tokens_view(toks@, 0), pos as int, square)) {
            (Ok((es, p)), Some((esv, pv))) => exprs_view(es@, 0) == esv && p == pv,
            (Err(_), None) => true,
            _ => false,
        },
    decreases toks.len() - pos, 4nat,
{
    proof {
        lemma_tokens_view(toks@, 0);
    }
    if pos >= toks.len() {
        return Err(parse_error_at(pos));
    }
    let at_closer = if square {
        matches!(&toks[pos], Token::RBracket)
    } else {
        matches!(&toks[pos], Token::RParen)
    };
    if at_closer {
        let empty: Vec<Expr> = Vec::new();
        proof {
            lemma_exprs_view(empty@, 0);
            assert(exprs_view(empty@, 0) =~= Seq::<ExprV>::empty());
        }
        return Ok((empty, pos + 1));
    }
    let (e, p1) = match p_expr(toks, pos, 0) {
        Ok(x) => x,
        Err(e2) => {
            return Err(e2);
        },
    };
    if !(pos < p1 && p1 < toks.len()) {
        return Err(parse_error_at(p1));
    }
    if matches!(&toks[p1], Token::Comma) {
        let (rest, p2) = match p_exprs_until(toks, p1 + 1, square) {
            Ok(x) => x,
            Err(e2) => {
                return Err(e2);
            },
        };
        let mut out = rest;
        let ghost out_before = out@;
        out.insert(0, e);
        proof {
            lemma_exprs_view(out@, 0);
            lemma_exprs_view(out_before, 0);
            assert(exprs_view(out@, 0) =~= seq![out@[0]@] + exprs_view(out_before, 0));
        }
        Ok((out, p2))
    } else {
        let at_closer2 = if square {
            matches!(&toks[p1], Token::RBracket)
        } else {
            matches!(&toks[p1], Token::RParen)
        };
        if at_closer2 {
            let mut out: Vec<Expr> = Vec::new();
            out.push(e);
            proof {
                lemma_exprs_view(out@, 0);
                assert(exprs_view(out@, 0) =~= seq![out@[0]@]);
            }
            Ok((out, p1 + 1))
        } else {
            Err(parse_error_at(p1))
        }
    }
}

/// Comma-separated `key: value` pairs up to and including the closing
/// brace.
fn p_pairs_until(toks: &Vec<Token>, pos: usize) -> (r: Result<(Vec<(Expr, Expr)>, usize), String>)
    ensures
        match (r, parse_pairs_until(tokens_view(toks@, 0), pos as int)) {
            (Ok((ps, p)), Some((psv, pv))) => ast_pairs_view(ps@, 0) == psv && p == pv,
            (Err(_), None) => true,
            _ => false,
        },
    decreases toks.len() - pos, 4nat,
{
    proof {
        lemma_tokens_view(toks@, 0);
    }
    if pos >= toks.len() {
        return Err(parse_error_at(pos));
    }
    if matches!(&toks[pos], Token::RBrace) {
        let empty: Vec<(Expr, Expr)> = Vec::new();
        proof {
            lemma_ast_pairs_view(empty@, 0);
            assert(ast_pairs_view(empty@, 0) =~= Seq::<(ExprV, ExprV)>::empty());
        }
        return Ok((empty, pos + 1));
    }
    let (k, p1) = match p_expr(toks, pos, 0) {
        Ok(x) => x,
        Err(e2) => {
            return Err(e2);
        },
    };
    let has_colon = pos < p1 && p1 < toks.len() && matches!(&toks[p1], Token::Colon);
    if !has_colon {
        return Err(parse_error_at(p1));
    }
    let (v, p2) = match p_expr(toks, p1 + 1, 0) {
        Ok(x) => x,
        Err(e2) => {
            return Err(e2);
        },
    };
    if !(p1 < p2 && p2 < toks.len()) {
        return Err(parse_error_at(p2));
    }
    if matches!(&toks[p2], Token::Comma) {
        let (rest, p3) = match p_pairs_until(toks, p2 + 1) {
            Ok(x) => x,
            Err(e2) => {
                return Err(e2);
            },
        };
        let mut out = rest;
        let ghost out_before = out@;
        out.insert(0, (k, v));
        proof {
            lemma_ast_pairs_view(out@, 0);
            lemma_ast_pairs_view(out_before, 0);
            assert(ast_pairs_view(out@, 0) =~= seq![(out@[0].0@, out@[0].1@)] + ast_pairs_view(
                out_before,
                0,
            ));
        }
        Ok((out, p3))
    } else if matches!(&toks[p2], Token::RBrace) {
        let mut out: Vec<(Expr, Expr)> = Vec::new();
        out.push((k, v));
        proof {
            lemma_ast_pairs_view(out@, 0);
            assert(ast_pairs_view(out@, 0) =~= seq![(out@[0].0@, out@[0].1@)]);
        }
        Ok((out, p2 + 1))
    } else {
        Err(parse_error_at(p2))
    }
}

/// Comma-separated parameter names up to and including the closing
/// parenthesis.
fn p_params(toks: &Vec<Token>, pos: usize) -> (r: Result<(Vec<String>, usize), String>)
    ensures
        match (r, parse_params(tokens_view(toks@, 0), pos as int)) {
            (Ok((ns, p)), Some((nsv, pv))) => names_view(ns@, 0) == nsv && p == pv,
            (Err(_), None) => true,
            _ => false,
        },
    decreases toks.len() - pos,
{
    proof {
        lemma_tokens_view(toks@, 0);
    }
    if pos >= toks.len() {
        return Err(parse_error_at(pos));
    }
    if matches!(&toks[pos], Token::RParen) {
        let empty: Vec<String> = Vec::new();
        proof {
            lemma_names_view(empty@, 0);
            assert(names_view(empty@, 0) =~= Seq::<Seq<char>>::empty());
        }
        return Ok((empty, pos + 1));
    }
    match &toks[pos] {
        Token::Ident(w) => {
            if pos + 1 < toks.len() && matches!(&toks[pos + 1], Token::Comma) {
                let (rest, p2) = match p_params(toks, pos + 2) {
                    Ok(x) => x,
                    Err(e2) => {
                        return Err(e2);
                    },
                };
                let mut out = rest;
                let ghost out_before = out@;
                out.insert(0, w.clone());
                proof {
                    lemma_names_view(out@, 0);
                    lemma_names_view(out_before, 0);
                    assert(names_view(out@, 0) =~= seq![out@[0]@] + names_view(out_before, 0));
                }
                Ok((out, p2))
            } else if pos + 1 < toks.len() && matches!(&toks[pos + 1], Token::RParen) {
                let mut out: Vec<String> = Vec::new();
                out.push(w.clone());
                proof {
                    lemma_names_view(out@, 0);
                    assert(names_view(out@, 0) =~= seq![out@[0]@]);
                }
                Ok((out, pos + 2))
            } else {
                Err(parse_error_at(pos + 1))
            }
        },
        _ => Err(parse_error_at(pos)),
    }
}

/// A block: statements between braces.
fn p_block(toks: &Vec<Token>, pos: usize) -> (r: Result<(Stmt, usize), String>)
    ensures
        match (r, parse_block(tokens_view(toks@, 0), pos as int)) {
            (Ok((s, p)), Some((sv, pv))) => s@ == sv && p == pv,
            (Err(_), None) => true,
            _ => false,
        },
    decreases toks.len() - pos, 5nat,
{
    proof {
        lemma_tokens_view(toks@, 0);
    }
    if pos >= toks.len() || !matches!(&toks[pos], Token::LBrace) {
        return Err(parse_error_at(pos));
    }
    let (ss, p2) = match p_block_stmts(toks, pos + 1) {
        Ok(x) => x,
        Err(e2) => {
            return Err(e2);
        },
    };
    Ok((Stmt::Block { statements: ss }, p2))
}

/// Statements up to and including the closing brace.
fn p_block_stmts(toks: &Vec<Token>, pos: usize) -> (r: Result<(Vec<Stmt>, usize), String>)
    ensures
        match (r, parse_block_stmts(tokens_view(toks@, 0), pos as int)) {
            (Ok((ss, p)), Some((ssv, pv))) => stmts_view(ss@, 0) == ssv && p == pv,
            (Err(_), None) => true,
            _ => false,
        },
    decreases toks.len() - pos, 7nat,
{
    proof {
        lemma_tokens_view(toks@, 0);
    }
    if pos >= toks.len() {
        return Err(parse_error_at(pos));
    }
    if matches!(&toks[pos], Token::RBrace) {
        let empty: Vec<Stmt> = Vec::new();
        proof {
            lemma_stmts_view(empty@, 0);
            assert(stmts_view(empty@, 0) =~= Seq::<StmtV>::empty());
        }
        return Ok((empty, pos + 1));
    }
    let (s, p1) = match p_stmt(toks, pos) {
        Ok(x) => x,
        Err(e2) => {
            return Err(e2);
        },
    };
    if !(pos < p1 && p1 <= toks.len()) {
        return Err(parse_error_at(p1));
    }
    let (rest, p2) = match p_block_stmts(toks, p1) {
        Ok(x) => x,
        Err(e2) => {
            return Err(e2);
        },
    };
    let mut out = rest;
    let ghost out_before = out@;
    out.insert(0, s);
    proof {
        lemma_stmts_view(out@, 0);
        lemma_stmts_view(out_before, 0);
        assert(stmts_view(out@, 0) =~= seq![out@[0]@] + stmts_view(out_before, 0));
    }
    Ok((out, p2))
}

/// One statement.
fn p_stmt(toks: &Vec<Token>, pos: usize) -> (r: Result<(Stmt, usize), String>)
    ensures
        match (r, parse_stmt(tokens_view(toks@, 0), pos as int)) {
            (Ok((s, p)), Some((sv, pv))) => s@ == sv && p == pv,
            (Err(_), None) => true,
            _ => false,
        },
    decreases toks.len() - pos, 6nat,
{
    proof {
        lemma_tokens_view(toks@, 0);
    }
    if pos >= toks.len() {
        return Err(parse_error_at(pos));
    }
    match &toks[pos] {
        Token::Let => {
            let shaped = toks.len() > 2 && pos < toks.len() - 2 && matches!(
                &toks[pos + 1],
                Token::Ident(_),
            ) && matches!(&toks[pos + 2], Token::Assign);
            if !shaped {
                return Err(parse_error_at(pos));
            }
            let name: String = match &toks[pos + 1] {
                Token::Ident(w) => w.clone(),
                _ => String::new(),
            };
            let (v, p1) = match p_expr(toks, pos + 3, 0) {
                Ok(x) => x,
                Err(e2) => {
                    return Err(e2);
                },
            };
            let ends = pos + 3 <= p1 && p1 < toks.len() && matches!(&toks[p1], Token::Semicolon);
            if !ends {
                return Err(parse_error_at(p1));
            }
            Ok((Stmt::Let { name, value: Box::new(v) }, p1 + 1))
        },
        Token::Return => {
            let (v, p1) = match p_expr(toks, pos + 1, 0) {
                Ok(x) => x,
                Err(e2) => {
                    return Err(e2);
                },
            };
            let ends = pos + 1 <= p1 && p1 < toks.len() && matches!(&toks[p1], Token::Semicolon);
            if !ends {
                return Err(parse_error_at(p1));
            }
            Ok((Stmt::Return { return_value: Box::new(v) }, p1 + 1))
        },
        Token::LBrace => {
            match p_expr(toks, pos, 0) {
                Ok((e, p1)) => {
                    let ends = pos < p1 && p1 < toks.len() && matches!(
                        &toks[p1],
                        Token::Semicolon,
                    );
                    if ends {
                        Ok((Stmt::Expr { expression: Box::new(e) }, p1 + 1))
                    } else {
                        p_block(toks, pos)
                    }
                },
                Err(_) => p_block(toks, pos),
            }
        },
        _ => {
            let (e, p1) = match p_expr(toks, pos, 0) {
                Ok(x) => x,
                Err(e2) => {
                    return Err(e2);
                },
            };
            let ends = pos < p1 && p1 < toks.len() && matches!(&toks[p1], Token::Semicolon);
            if !ends {
                return Err(parse_error_at(p1));
            }
            Ok((Stmt::Expr { expression: Box::new(e) }, p1 + 1))
        },
    }
}

/// Statements up to the end of the tokens.
fn p_program_stmts(toks: &Vec<Token>, pos: usize) -> (r: Result<Vec<Stmt>, String>)
    ensures
        match (r, parse_program_stmts(tokens_view(toks@, 0), pos as int)) {
            (Ok(ss), Some(ssv)) => stmts_view(ss@, 0) == ssv,
            (Err(_), None) => true,
            _ => false,
        },
    decreases toks.len() - pos, 7nat,
{
    proof {
        lemma_tokens_view(toks@, 0);
    }
    if pos >= toks.len() {
        let empty: Vec<Stmt> = Vec::new();
        proof {
            lemma_stmts_view(empty@, 0);
            assert(stmts_view(empty@, 0) =~= Seq::<StmtV>::empty());
        }
        return Ok(empty);
    }
    let (s, p1) = match p_stmt(toks, pos) {
        Ok(x) => x,
        Err(e2) => {
            return Err(e2);
        },
    };
    if !(pos < p1 && p1 <= toks.len()) {
        return Err(parse_error_at(p1));
    }
    let rest = match p_program_stmts(toks, p1) {
        Ok(x) => x,
        Err(e2) => {
            return Err(e2);
        },
    };
    let mut out = rest;
    let ghost out_before = out@;
    out.insert(0, s);
    proof {
        lemma_stmts_view(out@, 0);
        lemma_stmts_view(out_before, 0);
        assert(stmts_view(out@, 0) =~= seq![out@[0]@] + stmts_view(out_before, 0));
    }
    Ok(out)
}

/// Parses a whole source text into a program.  Succeeds exactly when the
/// text lexes and parses, and then returns exactly the program the
/// grammar's model gives.
pub fn parse_program(input: &str) -> (r: Result<Program, String>)
    ensures
        match (r, spec_parse_program(input@)) {
            (Ok(p), Some(ssv)) => p@ == ssv,
            (Err(_), None) => true,
            _ => false,
        },
{
    let toks = match tokenize(input) {
        Ok(ts) => ts,
        Err(e) => {
            return Err(e);
        },
    };
    match p_program_stmts(&toks, 0) {
        Ok(ss) => Ok(Program { statements: ss }),
        Err(e) => Err(e),
    }
}

/// Parses a source text holding exactly one expression.
pub fn parse_expression(input: &str) -> (r: Result<Expr, String>)
    ensures
        match (r, spec_parse_expression(input@)) {
            (Ok(e), Some(ev)) => e@ == ev,
            (Err(_), None) => true,
            _ => false,
        },
{
    let toks = match tokenize(input) {
        Ok(ts) => ts,
        Err(e) => {
            return Err(e);
        },
    };
    proof {
        lemma_tokens_view(toks@, 0);
    }
    match p_expr(&toks, 0, 0) {
        Ok((e, p)) => if p == toks.len() {
            Ok(e)
        } else {
            Err(parse_error_at(p))
        },
        Err(e) => Err(e),
    }
}

/// Parses a source text holding exactly one statement.
pub fn parse_statement(input: &str) -> (r: Result<Stmt, String>)
    ensures
        match (r, spec_parse_statement(input@)) {
            (Ok(s), Some(sv)) => s@ == sv,
            (Err(_), None) => true,
            _ => false,
        },
{
    let toks = match tokenize(input) {
        Ok(ts) => ts,
        Err(e) => {
            return Err(e);
        },
    };
    proof {
        lemma_tokens_view(toks@, 0);
    }
    match p_stmt(&toks, 0) {
        Ok((s, p)) => if p == toks.len() {
            Ok(s)
        } else {
            Err(parse_error_at(p))
        },
        Err(e) => Err(e),
    }
}

} // verus!
