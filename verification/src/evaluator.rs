//! The evaluator: a recursive tree walker over the AST, against an arena of
//! lexical scopes.
//!
//! Its meaning is the fueled interpreter given by the `spec_eval_*`
//! functions over the models of nodes, values and scopes; every executable
//! evaluation function returns exactly what the model says.  Fuel bounds
//! the depth of the walk; when it runs out, evaluation stops with no
//! result, and `eval_program` reports that as a host-level error.  Fuel is
//! the only source of host-level failure: everything the language itself
//! rejects is an `Error` value.
//!
//! Arithmetic wraps around on overflow; division truncates toward zero,
//! and division by zero yields the `Error` value whose message is
//! `division by zero`.

use vstd::prelude::*;

use std::rc::Rc;

use crate::ast::Expr;
use crate::ast::ExprV;
use crate::ast::Opcode;
use crate::ast::Program;
use crate::ast::Stmt;
use crate::ast::StmtV;
use crate::ast::ast_pairs_view;
use crate::ast::exprs_view;
use crate::ast::lemma_ast_pairs_view;
use crate::ast::lemma_exprs_view;
use crate::ast::lemma_names_view;
use crate::ast::lemma_stmts_view;
use crate::ast::names_view;
use crate::ast::opcode_str;
use crate::ast::stmts_view;
use crate::builtin::apply_builtin;
use crate::builtin::get_builtin;
use crate::builtin::spec_builtin_call;
use crate::builtin::spec_get_builtin;
use crate::environment::Environment;
use crate::environment::ScopeV;
use crate::environment::env_push;
use crate::environment::env_set;
use crate::environment::lookup_in;
use crate::equality::obj_equal;
use crate::object::HashKey;
use crate::object::Object;
use crate::object::ObjectType;
use crate::object::ObjectV;
use crate::object::hash_key_v;
use crate::object::inspect_str;
use crate::object::lemma_obj_pairs_view;
use crate::object::lemma_objs_view;
use crate::object::obj_pairs_view;
use crate::object::obj_view;
use crate::object::objs_view;
use crate::object::type_of_v;
use crate::object::type_tag_str;
use crate::text::str_eq;
use vstd::pervasive::VecAdditionalExecFns;
use vstd::wrapping::i64_specs;

verus! {

/// How deep an evaluation may go: the depth of nested evaluation steps
/// (and so also of language-level calls) that `eval_program` allows.  The
/// bound keeps the host's call stack within what a spawned thread gets.
pub const EVAL_FUEL: u64 = 512;

/// Whether a value is the error control-flow value.
pub open spec fn spec_is_error(v: ObjectV) -> bool {
    v is Error
}

/// Whether a value counts as true in a condition: everything but the
/// boolean `false` and `null`.
pub open spec fn spec_is_truthy(v: ObjectV) -> bool {
    !(v == ObjectV::Boolean(false) || v == ObjectV::Null)
}

/// Message of the error for a prefix operator applied to a value of the
/// wrong type.
pub open spec fn unknown_prefix_msg(op: Opcode, tag: ObjectType) -> Seq<char> {
    "unknown operator: "@ + opcode_str(op) + type_tag_str(tag)
}

/// Message of the error for an infix operator on operands of two
/// different types.
pub open spec fn type_mismatch_msg(lt: ObjectType, op: Opcode, rt: ObjectType) -> Seq<char> {
    "type mismatch: "@ + type_tag_str(lt) + " "@ + opcode_str(op) + " "@ + type_tag_str(rt)
}

/// Message of the error for an infix operator undefined on its operand
/// types.
pub open spec fn unknown_infix_msg(lt: ObjectType, op: Opcode, rt: ObjectType) -> Seq<char> {
    "unknown operator: "@ + type_tag_str(lt) + " "@ + opcode_str(op) + " "@ + type_tag_str(rt)
}

/// Message of the error for an unbound identifier.
pub open spec fn identifier_not_found_msg(name: Seq<char>) -> Seq<char> {
    "identifier not found: "@ + name
}

/// Message of the error for calling a value that is not callable.
pub open spec fn not_a_function_msg(tag: ObjectType) -> Seq<char> {
    "not a function: "@ + type_tag_str(tag)
}

/// Message of the error for indexing into a value that supports no index
/// operator.
pub open spec fn index_not_supported_msg(lt: ObjectType, it: ObjectType) -> Seq<char> {
    "index operator not supported: "@ + type_tag_str(lt) + "["@ + type_tag_str(it) + "]"@
}

/// Message of the error for a hash key of an unhashable variant.
pub open spec fn unusable_hash_key_msg(key: ObjectV) -> Seq<char> {
    "unusable as hash key: "@ + inspect_str(key)
}

/// What the prefix `!` returns: negation of a boolean; `true` on `null`;
/// `false` on everything else.
pub open spec fn spec_bang(v: ObjectV) -> ObjectV {
    match v {
        ObjectV::Boolean(b) => ObjectV::Boolean(!b),
        ObjectV::Null => ObjectV::Boolean(true),
        _ => ObjectV::Boolean(false),
    }
}

/// What a prefix operator returns.  `-` negates an integer, wrapping on
/// the smallest one; `+` is the identity on an integer; both reject
/// anything else.
pub open spec fn spec_eval_prefix(op: Opcode, v: ObjectV) -> ObjectV {
    match op {
        Opcode::Bang => spec_bang(v),
        Opcode::Sub => match v {
            ObjectV::Integer(n) => ObjectV::Integer(i64_specs::wrapping_sub(0, n)),
            _ => ObjectV::Error(unknown_prefix_msg(op, type_of_v(v))),
        },
        Opcode::Add => match v {
            ObjectV::Integer(n) => ObjectV::Integer(n),
            _ => ObjectV::Error(unknown_prefix_msg(op, type_of_v(v))),
        },
        _ => ObjectV::Error(unknown_prefix_msg(op, type_of_v(v))),
    }
}

/// What an infix operator returns on two integers: wrapping arithmetic,
/// truncating division (`division by zero` as an error value; the one
/// overflowing quotient wraps), and comparisons.
pub open spec fn spec_int_infix(op: Opcode, a: i64, b: i64) -> ObjectV {
    match op {
        Opcode::Add => ObjectV::Integer(i64_specs::wrapping_add(a, b)),
        Opcode::Sub => ObjectV::Integer(i64_specs::wrapping_sub(a, b)),
        Opcode::Mul => ObjectV::Integer(i64_specs::wrapping_mul(a, b)),
        Opcode::Div => if b == 0 {
            ObjectV::Error("division by zero"@)
        } else {
            match a.checked_div(b) {
                Some(q) => ObjectV::Integer(q),
                None => ObjectV::Integer(i64::MIN),
            }
        },
        Opcode::Eq => ObjectV::Boolean(a == b),
        Opcode::NotEq => ObjectV::Boolean(a != b),
        Opcode::Lt => ObjectV::Boolean(a < b),
        Opcode::Gt => ObjectV::Boolean(a > b),
        Opcode::Bang => ObjectV::Error(
            unknown_infix_msg(ObjectType::Integer, op, ObjectType::Integer),
        ),
    }
}

/// What an infix operator returns on two strings: `+` concatenates, `==`
/// and `!=` compare character for character, everything else is an error.
pub open spec fn spec_string_infix(op: Opcode, a: Seq<char>, b: Seq<char>) -> ObjectV {
    match op {
        Opcode::Add => ObjectV::StringObj(a + b),
        Opcode::Eq => ObjectV::Boolean(a == b),
        Opcode::NotEq => ObjectV::Boolean(a != b),
        _ => ObjectV::Error(unknown_infix_msg(ObjectType::StringObj, op, ObjectType::StringObj)),
    }
}

/// What an infix operator returns on two values of the same remaining
/// type: `==` and `!=` fall back to structural equality, everything else
/// is an error.
pub open spec fn spec_fallback_infix(op: Opcode, l: ObjectV, r: ObjectV) -> ObjectV {
    match op {
        Opcode::Eq => ObjectV::Boolean(l == r),
        Opcode::NotEq => ObjectV::Boolean(!(l == r)),
        _ => ObjectV::Error(unknown_infix_msg(type_of_v(l), op, type_of_v(r))),
    }
}

/// What an infix operator returns: an error on operands of two different
/// types, else by the rule of the operand type.
pub open spec fn spec_eval_infix(op: Opcode, l: ObjectV, r: ObjectV) -> ObjectV {
    if type_of_v(l) != type_of_v(r) {
        ObjectV::Error(type_mismatch_msg(type_of_v(l), op, type_of_v(r)))
    } else {
        match (l, r) {
            (ObjectV::Integer(a), ObjectV::Integer(b)) => spec_int_infix(op, a, b),
            (ObjectV::StringObj(a), ObjectV::StringObj(b)) => spec_string_infix(op, a, b),
            _ => spec_fallback_infix(op, l, r),
        }
    }
}

/// What an identifier evaluates to: the built-in of that name first, then
/// the binding seen from scope `at`, else an error.
pub open spec fn spec_eval_identifier(name: Seq<char>, scopes: Seq<ScopeV>, at: int) -> ObjectV {
    match spec_get_builtin(name) {
        Some(f) => ObjectV::Builtin(f),
        None => match lookup_in(scopes, at, name) {
            Some(v) => v,
            None => ObjectV::Error(identifier_not_found_msg(name)),
        },
    }
}

/// The value stored under hash key `k` among the entries from index `i`
/// on, if any.
pub open spec fn hash_lookup(ps: Seq<(ObjectV, ObjectV)>, i: int, k: HashKey) -> Option<ObjectV>
    decreases ps.len() - i,
{
    if i < 0 || i >= ps.len() {
        None
    } else if hash_key_v(ps[i].0) == Some(k) {
        Some(ps[i].1)
    } else {
        hash_lookup(ps, i + 1, k)
    }
}

/// The entries after `k` is mapped to `v`: the first entry whose key has
/// the same hash key, from index `i` on, is replaced, or a new entry is
/// appended.
pub open spec fn hash_insert(
    ps: Seq<(ObjectV, ObjectV)>,
    i: int,
    k: ObjectV,
    v: ObjectV,
) -> Seq<(ObjectV, ObjectV)>
    decreases ps.len() - i,
{
    if i < 0 || i >= ps.len() {
        ps.push((k, v))
    } else if hash_key_v(ps[i].0) == hash_key_v(k) {
        ps.update(i, (k, v))
    } else {
        hash_insert(ps, i + 1, k, v)
    }
}

/// What an index expression returns: a zero-based array element, `Null`
/// out of range; a hash entry's value, `Null` for a missing key, an error
/// for an unhashable key; an error on anything else.
pub open spec fn spec_eval_index(l: ObjectV, idx: ObjectV) -> ObjectV {
    match (l, idx) {
        (ObjectV::Array(es), ObjectV::Integer(n)) => if 0 <= n < es.len() {
            es[n as int]
        } else {
            ObjectV::Null
        },
        (ObjectV::Hash(ps), _) => match hash_key_v(idx) {
            Some(k) => match hash_lookup(ps, 0, k) {
                Some(v) => v,
                None => ObjectV::Null,
            },
            None => ObjectV::Error(unusable_hash_key_msg(idx)),
        },
        _ => ObjectV::Error(index_not_supported_msg(type_of_v(l), type_of_v(idx))),
    }
}

/// The scopes after the parameters from index `j` on are bound to the
/// arguments, pairwise, in scope `at`.  Extra arguments are dropped;
/// parameters beyond the arguments stay unbound.
pub open spec fn bind_args(
    scopes: Seq<ScopeV>,
    at: int,
    params: Seq<Seq<char>>,
    args: Seq<ObjectV>,
    j: int,
) -> Seq<ScopeV>
    decreases params.len() - j,
{
    if j < 0 || j >= params.len() || j >= args.len() {
        scopes
    } else {
        bind_args(env_set(scopes, at, params[j], args[j]), at, params, args, j + 1)
    }
}

/// What one evaluation step yields: the scopes afterwards, and the result
/// unless the fuel ran out.
pub type EvalOut = (Seq<ScopeV>, Option<ObjectV>);

/// What a statement evaluates to.
///
/// `let` binds the value of its expression in the current scope (its own
/// result is `Null`); `return` wraps its value; an expression statement is
/// its expression; a block runs its statements in order.  An `Error` from
/// a subexpression is returned unchanged.
pub open spec fn spec_eval_stmt(s: StmtV, scopes: Seq<ScopeV>, at: int, fuel: nat) -> EvalOut
    decreases fuel, 0nat,
{
    if fuel == 0 {
        (scopes, None)
    } else {
        match s {
            StmtV::Let { name, value } => {
                let (s1, rv) = spec_eval_expr(*value, scopes, at, (fuel - 1) as nat);
                match rv {
                    None => (s1, None),
                    Some(v) => if spec_is_error(v) {
                        (s1, Some(v))
                    } else {
                        (env_set(s1, at, name, v), Some(ObjectV::Null))
                    },
                }
            },
            StmtV::Return { return_value } => {
                let (s1, rv) = spec_eval_expr(*return_value, scopes, at, (fuel - 1) as nat);
                match rv {
                    None => (s1, None),
                    Some(v) => if spec_is_error(v) {
                        (s1, Some(v))
                    } else {
                        (s1, Some(ObjectV::ReturnValue(Box::new(v))))
                    },
                }
            },
            StmtV::Expr { expression } => spec_eval_expr(*expression, scopes, at, (fuel - 1) as nat),
            StmtV::Block { statements } => spec_eval_block_stmts(
                statements,
                0,
                scopes,
                at,
                (fuel - 1) as nat,
                ObjectV::Null,
            ),
        }
    }
}

/// What a block's statements from index `i` on evaluate to, where `last`
/// is the value of the most recent statement: the first `ReturnValue` or
/// `Error` is returned as-is, else the value of the last statement, or
/// `Null` for an empty block.
pub open spec fn spec_eval_block_stmts(
    ss: Seq<StmtV>,
    i: int,
    scopes: Seq<ScopeV>,
    at: int,
    fuel: nat,
    last: ObjectV,
) -> EvalOut
    decreases fuel, ss.len() - i,
{
    if fuel == 0 {
        (scopes, None)
    } else if i < 0 || i >= ss.len() {
        (scopes, Some(last))
    } else {
        let (s1, rv) = spec_eval_stmt(ss[i], scopes, at, (fuel - 1) as nat);
        match rv {
            None => (s1, None),
            Some(v) => if v is ReturnValue || v is Error {
                (s1, Some(v))
            } else {
                spec_eval_block_stmts(ss, i + 1, s1, at, fuel, v)
            },
        }
    }
}

/// What a program's statements from index `i` on evaluate to: an `Error`
/// is returned at once; a `ReturnValue` ends the program with its inner
/// value; else the value of the last statement, or `Null` for an empty
/// program.
pub open spec fn spec_eval_prog_stmts(
    ss: Seq<StmtV>,
    i: int,
    scopes: Seq<ScopeV>,
    at: int,
    fuel: nat,
    last: ObjectV,
) -> EvalOut
    decreases fuel, ss.len() - i,
{
    if fuel == 0 {
        (scopes, None)
    } else if i < 0 || i >= ss.len() {
        (scopes, Some(last))
    } else {
        let (s1, rv) = spec_eval_stmt(ss[i], scopes, at, (fuel - 1) as nat);
        match rv {
            None => (s1, None),
            Some(v) => match v {
                ObjectV::Error(_) => (s1, Some(v)),
                ObjectV::ReturnValue(x) => (s1, Some(*x)),
                _ => spec_eval_prog_stmts(ss, i + 1, s1, at, fuel, v),
            },
        }
    }
}

/// What a whole program evaluates to against the given scopes, evaluated
/// in scope `at`.
pub open spec fn spec_eval_program(ss: Seq<StmtV>, scopes: Seq<ScopeV>, at: int, fuel: nat) -> EvalOut {
    spec_eval_prog_stmts(ss, 0, scopes, at, fuel, ObjectV::Null)
}

/// What the expressions from index `i` on evaluate to, appended to the
/// values `acc`: left to right, stopping at the first `Error`, which is
/// handed back alone.
pub open spec fn spec_eval_exprs(
    es: Seq<ExprV>,
    i: int,
    scopes: Seq<ScopeV>,
    at: int,
    fuel: nat,
    acc: Seq<ObjectV>,
) -> (Seq<ScopeV>, Option<Result<Seq<ObjectV>, ObjectV>>)
    decreases fuel, es.len() - i,
{
    if fuel == 0 {
        (scopes, None)
    } else if i < 0 || i >= es.len() {
        (scopes, Some(Ok(acc)))
    } else {
        let (s1, rv) = spec_eval_expr(es[i], scopes, at, (fuel - 1) as nat);
        match rv {
            None => (s1, None),
            Some(v) => if spec_is_error(v) {
                (s1, Some(Err(v)))
            } else {
                spec_eval_exprs(es, i + 1, s1, at, fuel, acc.push(v))
            },
        }
    }
}

/// What the hash literal entries from index `i` on evaluate to, inserted
/// into the entries `acc`: for each entry the key first, which must be
/// hashable, then the value; a later key with the same hash key replaces
/// the earlier entry.
pub open spec fn spec_eval_hash_pairs(
    ps: Seq<(ExprV, ExprV)>,
    i: int,
    scopes: Seq<ScopeV>,
    at: int,
    fuel: nat,
    acc: Seq<(ObjectV, ObjectV)>,
) -> EvalOut
    decreases fuel, ps.len() - i,
{
    if fuel == 0 {
        (scopes, None)
    } else if i < 0 || i >= ps.len() {
        (scopes, Some(ObjectV::Hash(acc)))
    } else {
        let (s1, kv) = spec_eval_expr(ps[i].0, scopes, at, (fuel - 1) as nat);
        match kv {
            None => (s1, None),
            Some(k) => if spec_is_error(k) {
                (s1, Some(k))
            } else if hash_key_v(k) is None {
                (s1, Some(ObjectV::Error(unusable_hash_key_msg(k))))
            } else {
                let (s2, vv) = spec_eval_expr(ps[i].1, s1, at, (fuel - 1) as nat);
                match vv {
                    None => (s2, None),
                    Some(v) => if spec_is_error(v) {
                        (s2, Some(v))
                    } else {
                        spec_eval_hash_pairs(ps, i + 1, s2, at, fuel, hash_insert(acc, 0, k, v))
                    },
                }
            },
        }
    }
}

/// What applying a callee to evaluated arguments yields.  A built-in runs
/// natively.  A function gets a fresh scope enclosed by its captured
/// scope, with parameters bound to arguments pairwise; a `ReturnValue`
/// from its body is unwrapped.  Anything else is an error.
pub open spec fn spec_apply_function(
    f: ObjectV,
    args: Seq<ObjectV>,
    scopes: Seq<ScopeV>,
    fuel: nat,
) -> EvalOut
    decreases fuel, 0nat,
{
    if fuel == 0 {
        (scopes, None)
    } else {
        match f {
            ObjectV::Builtin(k) => (scopes, Some(spec_builtin_call(k, args))),
            ObjectV::Function { parameters, body, env } => {
                let new_at = scopes.len() as int;
                let bound = bind_args(env_push(scopes, env), new_at, parameters, args, 0);
                let (s2, rv) = spec_eval_stmt(*body, bound, new_at, (fuel - 1) as nat);
                match rv {
                    Some(ObjectV::ReturnValue(x)) => (s2, Some(*x)),
                    _ => (s2, rv),
                }
            },
            _ => (scopes, Some(ObjectV::Error(not_a_function_msg(type_of_v(f))))),
        }
    }
}

/// What an expression evaluates to.
pub open spec fn spec_eval_expr(e: ExprV, scopes: Seq<ScopeV>, at: int, fuel: nat) -> EvalOut
    decreases fuel, 0nat,
{
    if fuel == 0 {
        (scopes, None)
    } else {
        match e {
            ExprV::Number(n) => (scopes, Some(ObjectV::Integer(n))),
            ExprV::Boolean(b) => (scopes, Some(ObjectV::Boolean(b))),
            ExprV::StringLit(s) => (scopes, Some(ObjectV::StringObj(s))),
            ExprV::Identifier(name) => (scopes, Some(spec_eval_identifier(name, scopes, at))),
            ExprV::InfixOp { left, operator, right } => {
                let (s1, lr) = spec_eval_expr(*left, scopes, at, (fuel - 1) as nat);
                match lr {
                    None => (s1, None),
                    Some(l) => if spec_is_error(l) {
                        (s1, Some(l))
                    } else {
                        let (s2, rr) = spec_eval_expr(*right, s1, at, (fuel - 1) as nat);
                        match rr {
                            None => (s2, None),
                            Some(r) => if spec_is_error(r) {
                                (s2, Some(r))
                            } else {
                                (s2, Some(spec_eval_infix(operator, l, r)))
                            },
                        }
                    },
                }
            },
            ExprV::PrefixOp { operator, right } => {
                let (s1, rr) = spec_eval_expr(*right, scopes, at, (fuel - 1) as nat);
                match rr {
                    None => (s1, None),
                    Some(r) => if spec_is_error(r) {
                        (s1, Some(r))
                    } else {
                        (s1, Some(spec_eval_prefix(operator, r)))
                    },
                }
            },
            ExprV::If { condition, consequence, alternative } => {
                let (s1, cr) = spec_eval_expr(*condition, scopes, at, (fuel - 1) as nat);
                match cr {
                    None => (s1, None),
                    Some(c) => if spec_is_error(c) {
                        (s1, Some(c))
                    } else if spec_is_truthy(c) {
                        spec_eval_stmt(*consequence, s1, at, (fuel - 1) as nat)
                    } else {
                        match alternative {
                            Some(alt) => spec_eval_stmt(*alt, s1, at, (fuel - 1) as nat),
                            None => (s1, Some(ObjectV::Null)),
                        }
                    },
                }
            },
            ExprV::FuncLit { parameters, body } => (
                scopes,
                Some(ObjectV::Function { parameters, body, env: at }),
            ),
            ExprV::Call { function, arguments } => {
                let (s1, fr) = spec_eval_expr(*function, scopes, at, (fuel - 1) as nat);
                match fr {
                    None => (s1, None),
                    Some(f) => if spec_is_error(f) {
                        (s1, Some(f))
                    } else {
                        let (s2, ar) = spec_eval_exprs(
                            arguments,
                            0,
                            s1,
                            at,
                            (fuel - 1) as nat,
                            Seq::empty(),
                        );
                        match ar {
                            None => (s2, None),
                            Some(Err(e)) => (s2, Some(e)),
                            Some(Ok(vals)) => spec_apply_function(f, vals, s2, (fuel - 1) as nat),
                        }
                    },
                }
            },
            ExprV::ArrayLit { elements } => {
                let (s1, ar) = spec_eval_exprs(elements, 0, scopes, at, (fuel - 1) as nat, Seq::empty());
                match ar {
                    None => (s1, None),
                    Some(Err(e)) => (s1, Some(e)),
                    Some(Ok(vals)) => (s1, Some(ObjectV::Array(vals))),
                }
            },
            ExprV::Index { left, index } => {
                let (s1, lr) = spec_eval_expr(*left, scopes, at, (fuel - 1) as nat);
                match lr {
                    None => (s1, None),
                    Some(l) => if spec_is_error(l) {
                        (s1, Some(l))
                    } else {
                        let (s2, ir) = spec_eval_expr(*index, s1, at, (fuel - 1) as nat);
                        match ir {
                            None => (s2, None),
                            Some(idx) => if spec_is_error(idx) {
                                (s2, Some(idx))
                            } else {
                                (s2, Some(spec_eval_index(l, idx)))
                            },
                        }
                    },
                }
            },
            ExprV::HashLit { pairs } => spec_eval_hash_pairs(
                pairs,
                0,
                scopes,
                at,
                (fuel - 1) as nat,
                Seq::empty(),
            ),
        }
    }
}

/// An error value carrying the given message.
pub fn new_error(message: String) -> (r: Object)
    ensures
        r@ == ObjectV::Error(message@),
{
    Object::Error(message)
}

/// Whether a value is the error control-flow value.
pub fn is_error(object: &Object) -> (r: bool)
    ensures
        r == spec_is_error(object@),
{
    match object {
        Object::Error(_) => true,
        _ => false,
    }
}

/// Whether a value counts as true in a condition.
pub fn is_truthy(object: &Object) -> (r: bool)
    ensures
        r == spec_is_truthy(object@),
{
    match object {
        Object::Boolean(b) => *b,
        Object::Null => false,
        _ => true,
    }
}

/// The boolean value for a host boolean.
pub fn eval_native_boolean(input: &bool) -> (r: Object)
    ensures
        r@ == ObjectV::Boolean(*input),
{
    Object::Boolean(*input)
}

/// The error for a prefix operator applied to the wrong type.
fn unknown_prefix_error(op: &Opcode, tag: ObjectType) -> (r: Object)
    ensures
        r@ == ObjectV::Error(unknown_prefix_msg(*op, tag)),
{
    let mut m = "unknown operator: ".to_owned();
    m.append(op.as_str());
    m.append(tag.as_str());
    proof {
        assert(m@ =~= unknown_prefix_msg(*op, tag));
    }
    Object::Error(m)
}

/// The error for an infix operator on operands of two different types.
fn type_mismatch_error(lt: ObjectType, op: &Opcode, rt: ObjectType) -> (r: Object)
    ensures
        r@ == ObjectV::Error(type_mismatch_msg(lt, *op, rt)),
{
    let mut m = "type mismatch: ".to_owned();
    m.append(lt.as_str());
    m.append(" ");
    m.append(op.as_str());
    m.append(" ");
    m.append(rt.as_str());
    proof {
        assert(m@ =~= type_mismatch_msg(lt, *op, rt));
    }
    Object::Error(m)
}

/// The error for an infix operator undefined on its operand types.
fn unknown_infix_error(lt: ObjectType, op: &Opcode, rt: ObjectType) -> (r: Object)
    ensures
        r@ == ObjectV::Error(unknown_infix_msg(lt, *op, rt)),
{
    let mut m = "unknown operator: ".to_owned();
    m.append(lt.as_str());
    m.append(" ");
    m.append(op.as_str());
    m.append(" ");
    m.append(rt.as_str());
    proof {
        assert(m@ =~= unknown_infix_msg(lt, *op, rt));
    }
    Object::Error(m)
}

/// The prefix `!` on a value.
fn eval_bang_operator_expression(right: &Object) -> (r: Object)
    ensures
        r@ == spec_bang(right@),
{
    match right {
        Object::Boolean(b) => Object::Boolean(!*b),
        Object::Null => Object::Boolean(true),
        _ => Object::Boolean(false),
    }
}

/// A prefix operator on a value.
fn eval_prefix_expression(operator: &Opcode, right: &Object) -> (r: Object)
    ensures
        r@ == spec_eval_prefix(*operator, right@),
{
    match operator {
        Opcode::Bang => eval_bang_operator_expression(right),
        Opcode::Sub => match right {
            Object::Integer(n) => Object::Integer((0 as i64).wrapping_sub(*n)),
            _ => unknown_prefix_error(operator, right.object_type()),
        },
        Opcode::Add => match right {
            Object::Integer(n) => Object::Integer(*n),
            _ => unknown_prefix_error(operator, right.object_type()),
        },
        _ => unknown_prefix_error(operator, right.object_type()),
    }
}

/// An infix operator on two integers.
fn eval_integer_infix_expression(operator: &Opcode, left: i64, right: i64) -> (r: Object)
    ensures
        r@ == spec_int_infix(*operator, left, right),
{
    match operator {
        Opcode::Add => Object::Integer(left.wrapping_add(right)),
        Opcode::Sub => Object::Integer(left.wrapping_sub(right)),
        Opcode::Mul => Object::Integer(left.wrapping_mul(right)),
        Opcode::Div => if right == 0 {
            new_error("division by zero".to_owned())
        } else {
            match left.checked_div(right) {
                Some(q) => Object::Integer(q),
                None => Object::Integer(i64::MIN),
            }
        },
        Opcode::Eq => eval_native_boolean(&(left == right)),
        Opcode::NotEq => eval_native_boolean(&(left != right)),
        Opcode::Lt => eval_native_boolean(&(left < right)),
        Opcode::Gt => eval_native_boolean(&(left > right)),
        Opcode::Bang => unknown_infix_error(ObjectType::Integer, operator, ObjectType::Integer),
    }
}

/// An infix operator on two strings.
fn eval_string_infix_expression(operator: &Opcode, left: &String, right: &String) -> (r: Object)
    ensures
        r@ == spec_string_infix(*operator, left@, right@),
{
    match operator {
        Opcode::Add => {
            let mut s = left.clone();
            s.append(right.as_str());
            Object::StringObj(s)
        },
        Opcode::Eq => Object::Boolean(str_eq(left.as_str(), right.as_str())),
        Opcode::NotEq => Object::Boolean(!str_eq(left.as_str(), right.as_str())),
        _ => unknown_infix_error(ObjectType::StringObj, operator, ObjectType::StringObj),
    }
}

/// An infix operator on two values of the same remaining type: structural
/// equality for `==` and `!=`, an error otherwise.
fn eval_boolean_infix_expression(operator: &Opcode, left: &Object, right: &Object) -> (r: Object)
    ensures
        r@ == spec_fallback_infix(*operator, left@, right@),
{
    match operator {
        Opcode::Eq => eval_native_boolean(&obj_equal(left, right)),
        Opcode::NotEq => eval_native_boolean(&!obj_equal(left, right)),
        _ => unknown_infix_error(left.object_type(), operator, right.object_type()),
    }
}

/// An infix operator on two evaluated operands.
fn eval_infix_expression(operator: &Opcode, left: &Object, right: &Object) -> (r: Object)
    ensures
        r@ == spec_eval_infix(*operator, left@, right@),
{
    let lt = left.object_type();
    let rt = right.object_type();
    if lt != rt {
        return type_mismatch_error(lt, operator, rt);
    }
    match (left, right) {
        (Object::Integer(a), Object::Integer(b)) => eval_integer_infix_expression(
            operator,
            *a,
            *b,
        ),
        (Object::StringObj(a), Object::StringObj(b)) => eval_string_infix_expression(
            operator,
            a,
            b,
        ),
        _ => eval_boolean_infix_expression(operator, left, right),
    }
}

/// An identifier resolved against the built-ins and the scopes.
fn eval_identifier_expression(name: &str, env: &Environment, at: usize) -> (r: Object)
    ensures
        r@ == spec_eval_identifier(name@, env@, at as int),
{
    match get_builtin(name) {
        Some(f) => Object::Builtin(f),
        None => match env.get(at, name) {
            Some(v) => v,
            None => {
                let mut m = "identifier not found: ".to_owned();
                m.append(name);
                proof {
                    assert(m@ =~= identifier_not_found_msg(name@));
                }
                Object::Error(m)
            },
        },
    }
}

/// The value stored under hash key `k` among the entries from index `j`
/// on, or `Null`.
fn hash_find(pairs: &Vec<(Object, Object)>, j: usize, k: HashKey) -> (r: Object)
    ensures
        r@ == match hash_lookup(obj_pairs_view(pairs@, 0), j as int, k) {
            Some(v) => v,
            None => ObjectV::Null,
        },
    decreases pairs.len() - j,
{
    proof {
        lemma_obj_pairs_view(pairs@, 0);
    }
    if j >= pairs.len() {
        Object::Null
    } else {
        match pairs[j].0.hash_key() {
            Some(k2) => if k2 == k {
                pairs[j].1.duplicate()
            } else {
                hash_find(pairs, j + 1, k)
            },
            None => hash_find(pairs, j + 1, k),
        }
    }
}

/// The error for a hash key of an unhashable variant.
fn unusable_hash_key_error(key: &Object) -> (r: Object)
    ensures
        r@ == ObjectV::Error(unusable_hash_key_msg(key@)),
{
    let mut m = "unusable as hash key: ".to_owned();
    let ks = key.inspect();
    m.append(ks.as_str());
    proof {
        assert(m@ =~= unusable_hash_key_msg(key@));
    }
    Object::Error(m)
}

/// An index into a hash value.
pub fn eval_hash_index_expression(pairs: &Vec<(Object, Object)>, index: &Object) -> (r: Object)
    ensures
        r@ == spec_eval_index(ObjectV::Hash(obj_pairs_view(pairs@, 0)), index@),
{
    match index.hash_key() {
        Some(k) => hash_find(pairs, 0, k),
        None => unusable_hash_key_error(index),
    }
}

/// An index expression on two evaluated operands.
pub fn eval_index_expression(left: &Object, index: &Object) -> (r: Object)
    ensures
        r@ == spec_eval_index(left@, index@),
{
    match (left, index) {
        (Object::Array(elements), Object::Integer(n)) => {
            let elems: &Vec<Object> = &**elements;
            proof {
                lemma_objs_view(elems@, 0);
            }
            if *n >= 0 && (*n as u64) < (elems.len() as u64) {
                elems[*n as usize].duplicate()
            } else {
                Object::Null
            }
        },
        (Object::Hash(pairs), _) => eval_hash_index_expression(&**pairs, index),
        _ => {
            let mut m = "index operator not supported: ".to_owned();
            m.append(left.object_type().as_str());
            m.append("[");
            m.append(index.object_type().as_str());
            m.append("]");
            proof {
                assert(m@ =~= index_not_supported_msg(type_of_v(left@), type_of_v(index@)));
            }
            Object::Error(m)
        },
    }
}

/// Replaces the first entry whose key has the same hash key, from index
/// `j` on, or appends a new entry.
fn hash_insert_pair(acc: &mut Vec<(Object, Object)>, j: usize, k: Object, v: Object)
    ensures
        obj_pairs_view(final(acc)@, 0) == hash_insert(
            obj_pairs_view(old(acc)@, 0),
            j as int,
            k@,
            v@,
        ),
    decreases old(acc).len() - j,
{
    proof {
        lemma_obj_pairs_view(acc@, 0);
    }
    if j >= acc.len() {
        let ghost old_acc = acc@;
        acc.push((k, v));
        proof {
            lemma_obj_pairs_view(acc@, 0);
            lemma_obj_pairs_view(old_acc, 0);
            assert(obj_pairs_view(acc@, 0) =~= obj_pairs_view(old_acc, 0).push((k@, v@)));
        }
    } else {
        let keys_match = match (acc[j].0.hash_key(), k.hash_key()) {
            (Some(a), Some(b)) => a == b,
            (None, None) => true,
            _ => false,
        };
        if keys_match {
            let ghost old_acc = acc@;
            acc.set(j, (k, v));
            proof {
                lemma_obj_pairs_view(acc@, 0);
                lemma_obj_pairs_view(old_acc, 0);
                assert(obj_pairs_view(acc@, 0) =~= obj_pairs_view(old_acc, 0).update(
                    j as int,
                    (k@, v@),
                ));
            }
        } else {
            hash_insert_pair(acc, j + 1, k, v);
        }
    }
}

/// Binds the parameters from index `j` on to the arguments, pairwise, in
/// scope `at`.
fn bind_arguments(
    env: &mut Environment,
    at: usize,
    params: &Vec<String>,
    args: &Vec<Object>,
    j: usize,
)
    ensures
        final(env)@ == bind_args(
            old(env)@,
            at as int,
            names_view(params@, 0),
            objs_view(args@, 0),
            j as int,
        ),
    decreases params.len() - j,
{
    proof {
        lemma_names_view(params@, 0);
        lemma_objs_view(args@, 0);
    }
    if j >= params.len() || j >= args.len() {
        return ;
    }
    env.set(at, params[j].clone(), args[j].duplicate());
    bind_arguments(env, at, params, args, j + 1);
}

/// Applies a callee to its evaluated arguments.
fn apply_function(function: Object, args: Vec<Object>, env: &mut Environment, fuel: u64) -> (r:
    Option<Object>)
    ensures
        ({
            let (s2, rv) = spec_apply_function(function@, objs_view(args@, 0), old(env)@, fuel as nat);
            &&& final(env)@ == s2
            &&& match (r, rv) {
                (Some(o), Some(v)) => o@ == v,
                (None, None) => true,
                _ => false,
            }
        }),
    decreases fuel, 0nat,
{
    if fuel == 0 {
        return None;
    }
    match function {
        Object::Builtin(k) => Some(apply_builtin(k, args)),
        Object::Function { parameters, body, env: captured } => {
            let new_at = env.new_enclosed(captured);
            bind_arguments(env, new_at, &parameters, &args, 0);
            let rv = eval_stmt(&body, env, new_at, fuel - 1);
            match rv {
                Some(Object::ReturnValue(x)) => Some(*x),
                other => other,
            }
        },
        other => {
            let mut m = "not a function: ".to_owned();
            m.append(other.object_type().as_str());
            proof {
                assert(m@ =~= not_a_function_msg(type_of_v(other@)));
            }
            Some(Object::Error(m))
        },
    }
}

/// Evaluates the expressions from index `i` on, left to right, appending
/// their values to `acc`; stops at the first `Error`.
fn eval_expressions(
    es: &Vec<Expr>,
    i: usize,
    env: &mut Environment,
    at: usize,
    fuel: u64,
    acc: Vec<Object>,
) -> (r: Option<Result<Vec<Object>, Object>>)
    ensures
        ({
            let (s2, rv) = spec_eval_exprs(
                exprs_view(es@, 0),
                i as int,
                old(env)@,
                at as int,
                fuel as nat,
                objs_view(acc@, 0),
            );
            &&& final(env)@ == s2
            &&& match (r, rv) {
                (Some(Ok(vs)), Some(Ok(vsv))) => objs_view(vs@, 0) == vsv,
                (Some(Err(e)), Some(Err(ev))) => e@ == ev,
                (None, None) => true,
                _ => false,
            }
        }),
    decreases fuel, es.len() - i,
{
    proof {
        lemma_exprs_view(es@, 0);
        lemma_objs_view(acc@, 0);
    }
    if fuel == 0 {
        return None;
    }
    if i >= es.len() {
        return Some(Ok(acc));
    }
    match eval_expr(&es[i], env, at, fuel - 1) {
        None => None,
        Some(v) => {
            if is_error(&v) {
                Some(Err(v))
            } else {
                let mut acc2 = acc;
                let ghost acc_before = acc2@;
                acc2.push(v);
                proof {
                    lemma_objs_view(acc2@, 0);
                    lemma_objs_view(acc_before, 0);
                    assert(objs_view(acc2@, 0) =~= objs_view(acc_before, 0).push(
                        obj_view(acc2@[acc2@.len() - 1]),
                    ));
                }
                eval_expressions(es, i + 1, env, at, fuel, acc2)
            }
        },
    }
}

/// Evaluates the hash literal entries from index `i` on, inserting them
/// into `acc`.
fn eval_hash_literal(
    ps: &Vec<(Expr, Expr)>,
    i: usize,
    env: &mut Environment,
    at: usize,
    fuel: u64,
    acc: Vec<(Object, Object)>,
) -> (r: Option<Object>)
    ensures
        ({
            let (s2, rv) = spec_eval_hash_pairs(
                ast_pairs_view(ps@, 0),
                i as int,
                old(env)@,
                at as int,
                fuel as nat,
                obj_pairs_view(acc@, 0),
            );
            &&& final(env)@ == s2
            &&& match (r, rv) {
                (Some(o), Some(v)) => o@ == v,
                (None, None) => true,
                _ => false,
            }
        }),
    decreases fuel, ps.len() - i,
{
    proof {
        lemma_ast_pairs_view(ps@, 0);
        lemma_obj_pairs_view(acc@, 0);
    }
    if fuel == 0 {
        return None;
    }
    if i >= ps.len() {
        return Some(Object::Hash(Rc::new(acc)));
    }
    match eval_expr(&ps[i].0, env, at, fuel - 1) {
        None => None,
        Some(k) => {
            if is_error(&k) {
                return Some(k);
            }
            if k.hash_key().is_none() {
                return Some(unusable_hash_key_error(&k));
            }
            match eval_expr(&ps[i].1, env, at, fuel - 1) {
                None => None,
                Some(v) => {
                    if is_error(&v) {
                        return Some(v);
                    }
                    let mut acc2 = acc;
                    hash_insert_pair(&mut acc2, 0, k, v);
                    eval_hash_literal(ps, i + 1, env, at, fuel, acc2)
                },
            }
        },
    }
}

/// Evaluates one expression in scope `at`.
fn eval_expr(e: &Expr, env: &mut Environment, at: usize, fuel: u64) -> (r: Option<Object>)
    ensures
        ({
            let (s2, rv) = spec_eval_expr(e@, old(env)@, at as int, fuel as nat);
            &&& final(env)@ == s2
            &&& match (r, rv) {
                (Some(o), Some(v)) => o@ == v,
                (None, None) => true,
                _ => false,
            }
        }),
    decreases fuel, 0nat,
{
    if fuel == 0 {
        return None;
    }
    match e {
        Expr::Number(n) => Some(Object::Integer(*n)),
        Expr::Boolean(b) => Some(Object::Boolean(*b)),
        Expr::StringLit(s) => Some(Object::StringObj(s.clone())),
        Expr::Identifier(name) => Some(eval_identifier_expression(name.as_str(), env, at)),
        Expr::InfixOp { left, operator, right } => {
            match eval_expr(left, env, at, fuel - 1) {
                None => None,
                Some(l) => {
                    if is_error(&l) {
                        return Some(l);
                    }
                    match eval_expr(right, env, at, fuel - 1) {
                        None => None,
                        Some(r) => {
                            if is_error(&r) {
                                return Some(r);
                            }
                            Some(eval_infix_expression(operator, &l, &r))
                        },
                    }
                },
            }
        },
        Expr::PrefixOp { operator, right } => {
            match eval_expr(right, env, at, fuel - 1) {
                None => None,
                Some(r) => {
                    if is_error(&r) {
                        return Some(r);
                    }
                    Some(eval_prefix_expression(operator, &r))
                },
            }
        },
        Expr::If { condition, consequence, alternative } => {
            match eval_expr(condition, env, at, fuel - 1) {
                None => None,
                Some(c) => {
                    if is_error(&c) {
                        return Some(c);
                    }
                    if is_truthy(&c) {
                        eval_stmt(consequence, env, at, fuel - 1)
                    } else {
                        match alternative {
                            Some(alt) => eval_stmt(alt, env, at, fuel - 1),
                            None => Some(Object::Null),
                        }
                    }
                },
            }
        },
        Expr::FuncLit { parameters, body } => Some(
            Object::Function {
                parameters: Rc::clone(parameters),
                body: Rc::clone(body),
                env: at,
            },
        ),
        Expr::Call { function, arguments } => {
            match eval_expr(function, env, at, fuel - 1) {
                None => None,
                Some(f) => {
                    if is_error(&f) {
                        return Some(f);
                    }
                    match eval_expressions(arguments, 0, env, at, fuel - 1, Vec::new()) {
                        None => None,
                        Some(Err(e2)) => Some(e2),
                        Some(Ok(vals)) => apply_function(f, vals, env, fuel - 1),
                    }
                },
            }
        },
        Expr::ArrayLit { elements } => {
            match eval_expressions(elements, 0, env, at, fuel - 1, Vec::new()) {
                None => None,
                Some(Err(e2)) => Some(e2),
                Some(Ok(vals)) => {
                    proof {
                        lemma_objs_view(vals@, 0);
                    }
                    Some(Object::Array(Rc::new(vals)))
                },
            }
        },
        Expr::Index { left, index } => {
            match eval_expr(left, env, at, fuel - 1) {
                None => None,
                Some(l) => {
                    if is_error(&l) {
                        return Some(l);
                    }
                    match eval_expr(index, env, at, fuel - 1) {
                        None => None,
                        Some(idx) => {
                            if is_error(&idx) {
                                return Some(idx);
                            }
                            Some(eval_index_expression(&l, &idx))
                        },
                    }
                },
            }
        },
        Expr::HashLit { pairs } => eval_hash_literal(pairs, 0, env, at, fuel - 1, Vec::new()),
    }
}

/// Evaluates one statement in scope `at`.
fn eval_stmt(s: &Stmt, env: &mut Environment, at: usize, fuel: u64) -> (r: Option<Object>)
    ensures
        ({
            let (s2, rv) = spec_eval_stmt(s@, old(env)@, at as int, fuel as nat);
            &&& final(env)@ == s2
            &&& match (r, rv) {
                (Some(o), Some(v)) => o@ == v,
                (None, None) => true,
                _ => false,
            }
        }),
    decreases fuel, 0nat,
{
    if fuel == 0 {
        return None;
    }
    match s {
        Stmt::Let { name, value } => {
            match eval_expr(value, env, at, fuel - 1) {
                None => None,
                Some(v) => {
                    if is_error(&v) {
                        return Some(v);
                    }
                    env.set(at, name.clone(), v);
                    Some(Object::Null)
                },
            }
        },
        Stmt::Return { return_value } => {
            match eval_expr(return_value, env, at, fuel - 1) {
                None => None,
                Some(v) => {
                    if is_error(&v) {
                        return Some(v);
                    }
                    Some(Object::ReturnValue(Box::new(v)))
                },
            }
        },
        Stmt::Expr { expression } => eval_expr(expression, env, at, fuel - 1),
        Stmt::Block { statements } => eval_block_stmts(
            statements,
            0,
            env,
            at,
            fuel - 1,
            Object::Null,
        ),
    }
}

/// Evaluates a block's statements from index `i` on; `last` is the value
/// of the most recent statement.
fn eval_block_stmts(
    ss: &Vec<Stmt>,
    i: usize,
    env: &mut Environment,
    at: usize,
    fuel: u64,
    last: Object,
) -> (r: Option<Object>)
    ensures
        ({
            let (s2, rv) = spec_eval_block_stmts(
                stmts_view(ss@, 0),
                i as int,
                old(env)@,
                at as int,
                fuel as nat,
                last@,
            );
            &&& final(env)@ == s2
            &&& match (r, rv) {
                (Some(o), Some(v)) => o@ == v,
                (None, None) => true,
                _ => false,
            }
        }),
    decreases fuel, ss.len() - i,
{
    proof {
        lemma_stmts_view(ss@, 0);
    }
    if fuel == 0 {
        return None;
    }
    if i >= ss.len() {
        return Some(last);
    }
    match eval_stmt(&ss[i], env, at, fuel - 1) {
        None => None,
        Some(v) => {
            let stop = match &v {
                Object::ReturnValue(_) => true,
                Object::Error(_) => true,
                _ => false,
            };
            if stop {
                Some(v)
            } else {
                eval_block_stmts(ss, i + 1, env, at, fuel, v)
            }
        },
    }
}

/// Evaluates a program's statements from index `i` on; `last` is the
/// value of the most recent statement.
fn eval_prog_stmts(
    ss: &Vec<Stmt>,
    i: usize,
    env: &mut Environment,
    at: usize,
    fuel: u64,
    last: Object,
) -> (r: Option<Object>)
    ensures
        ({
            let (s2, rv) = spec_eval_prog_stmts(
                stmts_view(ss@, 0),
                i as int,
                old(env)@,
                at as int,
                fuel as nat,
                last@,
            );
            &&& final(env)@ == s2
            &&& match (r, rv) {
                (Some(o), Some(v)) => o@ == v,
                (None, None) => true,
                _ => false,
            }
        }),
    decreases fuel, ss.len() - i,
{
    proof {
        lemma_stmts_view(ss@, 0);
    }
    if fuel == 0 {
        return None;
    }
    if i >= ss.len() {
        return Some(last);
    }
    match eval_stmt(&ss[i], env, at, fuel - 1) {
        None => None,
        Some(v) => {
            match v {
                Object::Error(m) => Some(Object::Error(m)),
                Object::ReturnValue(x) => Some(*x),
                other => eval_prog_stmts(ss, i + 1, env, at, fuel, other),
            }
        },
    }
}

/// Evaluates a whole program in the global scope of `env`.  The result is
/// exactly what the model interpreter yields at the standard fuel; `Err`
/// reports the one host-level failure, exhaustion of the evaluation
/// depth.
pub fn eval_program(program: &Program, env: &mut Environment) -> (r: Result<Object, String>)
    ensures
        ({
            let (s2, rv) = spec_eval_program(program@, old(env)@, 0, EVAL_FUEL as nat);
            &&& final(env)@ == s2
            &&& match (r, rv) {
                (Ok(o), Some(v)) => o@ == v,
                (Err(_), None) => true,
                _ => false,
            }
        }),
{
    match eval_prog_stmts(&program.statements, 0, env, 0, EVAL_FUEL, Object::Null) {
        Some(v) => Ok(v),
        None => Err("evaluation depth limit exceeded".to_owned()),
    }
}

} // verus!
