//! General laws of the evaluator, stated over its model and proved once
//! and for all: truthiness of conditions, tunnelling of `return` values,
//! short-circuiting of errors, the `Null` results of missing lookups, and
//! the irrelevance of the evaluation budget to any result it allows.

use vstd::prelude::*;

use crate::ast::ExprV;
use crate::ast::Opcode;
use crate::ast::StmtV;
use crate::builtin::spec_len_builtin;
use crate::builtin::spec_push_builtin;
use crate::environment::ScopeV;
use crate::evaluator::hash_lookup;
use crate::evaluator::spec_apply_function;
use crate::evaluator::spec_eval_block_stmts;
use crate::evaluator::spec_eval_expr;
use crate::evaluator::spec_eval_exprs;
use crate::evaluator::spec_eval_hash_pairs;
use crate::evaluator::spec_eval_index;
use crate::evaluator::spec_eval_prog_stmts;
use crate::evaluator::spec_eval_program;
use crate::evaluator::spec_eval_stmt;
use crate::evaluator::spec_is_error;
use crate::evaluator::spec_is_truthy;
use crate::object::ObjectV;
use crate::object::hash_key_v;

verus! {

/// An `if` expression picks its branch by the truthiness of the
/// condition's value: everything except the boolean `false` and `null`
/// — the integer zero included — selects the consequence; `false` and
/// `null` select the alternative, or yield `null` where there is none.
pub proof fn lemma_if_branches_on_truthiness(
    cond: ExprV,
    cons: StmtV,
    alt: Option<Box<StmtV>>,
    scopes: Seq<ScopeV>,
    at: int,
    fuel: nat,
    s1: Seq<ScopeV>,
    c: ObjectV,
)
    requires
        fuel > 0,
        spec_eval_expr(cond, scopes, at, (fuel - 1) as nat) == (s1, Some(c)),
        !spec_is_error(c),
    ensures
        spec_eval_expr(
            ExprV::If {
                condition: Box::new(cond),
                consequence: Box::new(cons),
                alternative: alt,
            },
            scopes,
            at,
            fuel,
        ) == if spec_is_truthy(c) {
            spec_eval_stmt(cons, s1, at, (fuel - 1) as nat)
        } else {
            match alt {
                Some(a) => spec_eval_stmt(*a, s1, at, (fuel - 1) as nat),
                None => (s1, Some(ObjectV::Null)),
            }
        },
        spec_is_truthy(ObjectV::Integer(0)),
        !spec_is_truthy(ObjectV::Null),
        !spec_is_truthy(ObjectV::Boolean(false)),
{
}

/// A `return` value produced by a statement of a block ends the block at
/// once, still wrapped: the statements after it are not evaluated, and
/// the scopes stay as that statement left them.
pub proof fn lemma_block_propagates_return(
    ss: Seq<StmtV>,
    i: int,
    scopes: Seq<ScopeV>,
    at: int,
    fuel: nat,
    last: ObjectV,
    s1: Seq<ScopeV>,
    w: ObjectV,
)
    requires
        fuel > 0,
        0 <= i < ss.len(),
        spec_eval_stmt(ss[i], scopes, at, (fuel - 1) as nat) == (s1, Some(w)),
        w is ReturnValue,
    ensures
        spec_eval_block_stmts(ss, i, scopes, at, fuel, last) == (s1, Some(w)),
{
}

/// A `return` value that reaches the top level of the program ends the
/// program with the wrapped value unwrapped.
pub proof fn lemma_program_unwraps_return(
    ss: Seq<StmtV>,
    i: int,
    scopes: Seq<ScopeV>,
    at: int,
    fuel: nat,
    last: ObjectV,
    s1: Seq<ScopeV>,
    x: Box<ObjectV>,
)
    requires
        fuel > 0,
        0 <= i < ss.len(),
        spec_eval_stmt(ss[i], scopes, at, (fuel - 1) as nat) == (
            s1,
            Some(ObjectV::ReturnValue(x)),
        ),
    ensures
        spec_eval_prog_stmts(ss, i, scopes, at, fuel, last) == (s1, Some(*x)),
{
}

/// Once the left operand of an infix expression yields an error, the
/// right operand is not evaluated: the scopes stay as the left operand
/// left them, and the error itself is the whole expression's result.
pub proof fn lemma_infix_short_circuits_on_error(
    left: ExprV,
    op: Opcode,
    right: ExprV,
    scopes: Seq<ScopeV>,
    at: int,
    fuel: nat,
    s1: Seq<ScopeV>,
    e: ObjectV,
)
    requires
        fuel > 0,
        spec_eval_expr(left, scopes, at, (fuel - 1) as nat) == (s1, Some(e)),
        spec_is_error(e),
    ensures
        spec_eval_expr(
            ExprV::InfixOp { left: Box::new(left), operator: op, right: Box::new(right) },
            scopes,
            at,
            fuel,
        ) == (s1, Some(e)),
{
}

/// Once a statement of a block yields an error, the statements after it
/// are not evaluated: the error is the block's result.
pub proof fn lemma_block_short_circuits_on_error(
    ss: Seq<StmtV>,
    i: int,
    scopes: Seq<ScopeV>,
    at: int,
    fuel: nat,
    last: ObjectV,
    s1: Seq<ScopeV>,
    e: ObjectV,
)
    requires
        fuel > 0,
        0 <= i < ss.len(),
        spec_eval_stmt(ss[i], scopes, at, (fuel - 1) as nat) == (s1, Some(e)),
        spec_is_error(e),
    ensures
        spec_eval_block_stmts(ss, i, scopes, at, fuel, last) == (s1, Some(e)),
        spec_eval_prog_stmts(ss, i, scopes, at, fuel, last) == (s1, Some(e)),
{
}

/// Once an argument of a call or an element of an array literal yields an
/// error, the later ones are not evaluated, and the whole list evaluation
/// hands back that error alone.
pub proof fn lemma_arguments_short_circuit_on_error(
    es: Seq<ExprV>,
    i: int,
    scopes: Seq<ScopeV>,
    at: int,
    fuel: nat,
    acc: Seq<ObjectV>,
    s1: Seq<ScopeV>,
    e: ObjectV,
)
    requires
        fuel > 0,
        0 <= i < es.len(),
        spec_eval_expr(es[i], scopes, at, (fuel - 1) as nat) == (s1, Some(e)),
        spec_is_error(e),
    ensures
        spec_eval_exprs(es, i, scopes, at, fuel, acc) == (s1, Some(Err::<Seq<ObjectV>, ObjectV>(e))),
{
}

/// `push` builds a new array: the result appends the element to the
/// argument array's elements, and the argument itself — being a value —
/// is untouched, so its length is what it was.
pub proof fn lemma_push_builds_new_array(es: Seq<ObjectV>, x: ObjectV)
    ensures
        spec_push_builtin(seq![ObjectV::Array(es), x]) == ObjectV::Array(es.push(x)),
        spec_len_builtin(seq![ObjectV::Array(es)]) == ObjectV::Integer(es.len() as i64),
{
    assert(seq![ObjectV::Array(es), x].len() == 2);
    assert(seq![ObjectV::Array(es), x][0] == ObjectV::Array(es));
    assert(seq![ObjectV::Array(es), x][1] == x);
    assert(seq![ObjectV::Array(es)][0] == ObjectV::Array(es));
}

/// Indexing an array out of range — negative, or at or past the length —
/// yields `null`, not an error.
pub proof fn lemma_array_index_out_of_range(es: Seq<ObjectV>, n: i64)
    requires
        n < 0 || n >= es.len(),
    ensures
        spec_eval_index(ObjectV::Array(es), ObjectV::Integer(n)) == ObjectV::Null,
{
}

/// Looking up a hashable key that a hash does not hold yields `null`,
/// not an error.
pub proof fn lemma_hash_missing_key_is_null(ps: Seq<(ObjectV, ObjectV)>, key: ObjectV)
    requires
        hash_key_v(key) is Some,
        hash_lookup(ps, 0, hash_key_v(key)->Some_0) is None,
    ensures
        spec_eval_index(ObjectV::Hash(ps), key) == ObjectV::Null,
{
}

/// The evaluation budget only decides whether an answer comes, never
/// which: once a statement evaluates to a result at some fuel, every
/// larger fuel gives the same result and the same scopes.
pub proof fn lemma_stmt_fuel_irrelevant(s: StmtV, scopes: Seq<ScopeV>, at: int, f1: nat, f2: nat)
    requires
        f1 <= f2,
        spec_eval_stmt(s, scopes, at, f1).1 is Some,
    ensures
        spec_eval_stmt(s, scopes, at, f2) == spec_eval_stmt(s, scopes, at, f1),
    decreases f1, 0nat,
{
    match s {
        StmtV::Let { name, value } => {
            lemma_expr_fuel_irrelevant(*value, scopes, at, (f1 - 1) as nat, (f2 - 1) as nat);
        },
        StmtV::Return { return_value } => {
            lemma_expr_fuel_irrelevant(*return_value, scopes, at, (f1 - 1) as nat, (f2 - 1) as nat);
        },
        StmtV::Expr { expression } => {
            lemma_expr_fuel_irrelevant(*expression, scopes, at, (f1 - 1) as nat, (f2 - 1) as nat);
        },
        StmtV::Block { statements } => {
            lemma_block_fuel_irrelevant(
                statements,
                0,
                scopes,
                at,
                (f1 - 1) as nat,
                (f2 - 1) as nat,
                ObjectV::Null,
            );
        },
    }
}

/// Fuel irrelevance for the statements of a block.
pub proof fn lemma_block_fuel_irrelevant(
    ss: Seq<StmtV>,
    i: int,
    scopes: Seq<ScopeV>,
    at: int,
    f1: nat,
    f2: nat,
    last: ObjectV,
)
    requires
        f1 <= f2,
        spec_eval_block_stmts(ss, i, scopes, at, f1, last).1 is Some,
    ensures
        spec_eval_block_stmts(ss, i, scopes, at, f2, last) == spec_eval_block_stmts(
            ss,
            i,
            scopes,
            at,
            f1,
            last,
        ),
    decreases f1, ss.len() - i,
{
    if 0 <= i < ss.len() {
        let (s1, rv) = spec_eval_stmt(ss[i], scopes, at, (f1 - 1) as nat);
        lemma_stmt_fuel_irrelevant(ss[i], scopes, at, (f1 - 1) as nat, (f2 - 1) as nat);
        match rv {
            Some(v) => if !(v is ReturnValue || v is Error) {
                lemma_block_fuel_irrelevant(ss, i + 1, s1, at, f1, f2, v);
            },
            None => {},
        }
    }
}

/// Fuel irrelevance for the statements of a program.
pub proof fn lemma_prog_fuel_irrelevant(
    ss: Seq<StmtV>,
    i: int,
    scopes: Seq<ScopeV>,
    at: int,
    f1: nat,
    f2: nat,
    last: ObjectV,
)
    requires
        f1 <= f2,
        spec_eval_prog_stmts(ss, i, scopes, at, f1, last).1 is Some,
    ensures
        spec_eval_prog_stmts(ss, i, scopes, at, f2, last) == spec_eval_prog_stmts(
            ss,
            i,
            scopes,
            at,
            f1,
            last,
        ),
    decreases f1, ss.len() - i,
{
    if 0 <= i < ss.len() {
        let (s1, rv) = spec_eval_stmt(ss[i], scopes, at, (f1 - 1) as nat);
        lemma_stmt_fuel_irrelevant(ss[i], scopes, at, (f1 - 1) as nat, (f2 - 1) as nat);
        match rv {
            Some(v) => match v {
                ObjectV::Error(_) => {},
                ObjectV::ReturnValue(_) => {},
                _ => {
                    lemma_prog_fuel_irrelevant(ss, i + 1, s1, at, f1, f2, v);
                },
            },
            None => {},
        }
    }
}

/// Fuel irrelevance for a whole program: once it evaluates to a result,
/// raising the budget changes nothing.
pub proof fn lemma_program_fuel_irrelevant(
    ss: Seq<StmtV>,
    scopes: Seq<ScopeV>,
    at: int,
    f1: nat,
    f2: nat,
)
    requires
        f1 <= f2,
        spec_eval_program(ss, scopes, at, f1).1 is Some,
    ensures
        spec_eval_program(ss, scopes, at, f2) == spec_eval_program(ss, scopes, at, f1),
{
    lemma_prog_fuel_irrelevant(ss, 0, scopes, at, f1, f2, ObjectV::Null);
}

/// Fuel irrelevance for argument lists.
pub proof fn lemma_exprs_fuel_irrelevant(
    es: Seq<ExprV>,
    i: int,
    scopes: Seq<ScopeV>,
    at: int,
    f1: nat,
    f2: nat,
    acc: Seq<ObjectV>,
)
    requires
        f1 <= f2,
        spec_eval_exprs(es, i, scopes, at, f1, acc).1 is Some,
    ensures
        spec_eval_exprs(es, i, scopes, at, f2, acc) == spec_eval_exprs(es, i, scopes, at, f1, acc),
    decreases f1, es.len() - i,
{
    if 0 <= i < es.len() {
        let (s1, rv) = spec_eval_expr(es[i], scopes, at, (f1 - 1) as nat);
        lemma_expr_fuel_irrelevant(es[i], scopes, at, (f1 - 1) as nat, (f2 - 1) as nat);
        match rv {
            Some(v) => if !spec_is_error(v) {
                lemma_exprs_fuel_irrelevant(es, i + 1, s1, at, f1, f2, acc.push(v));
            },
            None => {},
        }
    }
}

/// Fuel irrelevance for hash literal entries.
pub proof fn lemma_hash_pairs_fuel_irrelevant(
    ps: Seq<(ExprV, ExprV)>,
    i: int,
    scopes: Seq<ScopeV>,
    at: int,
    f1: nat,
    f2: nat,
    acc: Seq<(ObjectV, ObjectV)>,
)
    requires
        f1 <= f2,
        spec_eval_hash_pairs(ps, i, scopes, at, f1, acc).1 is Some,
    ensures
        spec_eval_hash_pairs(ps, i, scopes, at, f2, acc) == spec_eval_hash_pairs(
            ps,
            i,
            scopes,
            at,
            f1,
            acc,
        ),
    decreases f1, ps.len() - i,
{
    if 0 <= i < ps.len() {
        let (s1, kv) = spec_eval_expr(ps[i].0, scopes, at, (f1 - 1) as nat);
        lemma_expr_fuel_irrelevant(ps[i].0, scopes, at, (f1 - 1) as nat, (f2 - 1) as nat);
        match kv {
            Some(k) => if !spec_is_error(k) && !(hash_key_v(k) is None) {
                let (s2, vv) = spec_eval_expr(ps[i].1, s1, at, (f1 - 1) as nat);
                lemma_expr_fuel_irrelevant(ps[i].1, s1, at, (f1 - 1) as nat, (f2 - 1) as nat);
                match vv {
                    Some(v) => if !spec_is_error(v) {
                        lemma_hash_pairs_fuel_irrelevant(
                            ps,
                            i + 1,
                            s2,
                            at,
                            f1,
                            f2,
                            crate::evaluator::hash_insert(acc, 0, k, v),
                        );
                    },
                    None => {},
                }
            },
            None => {},
        }
    }
}

/// Fuel irrelevance for applying a callee.
pub proof fn lemma_apply_fuel_irrelevant(
    f: ObjectV,
    args: Seq<ObjectV>,
    scopes: Seq<ScopeV>,
    f1: nat,
    f2: nat,
)
    requires
        f1 <= f2,
        spec_apply_function(f, args, scopes, f1).1 is Some,
    ensures
        spec_apply_function(f, args, scopes, f2) == spec_apply_function(f, args, scopes, f1),
    decreases f1, 0nat,
{
    match f {
        ObjectV::Function { parameters, body, env } => {
            let new_at = scopes.len() as int;
            let bound = crate::evaluator::bind_args(
                crate::environment::env_push(scopes, env),
                new_at,
                parameters,
                args,
                0,
            );
            lemma_stmt_fuel_irrelevant(*body, bound, new_at, (f1 - 1) as nat, (f2 - 1) as nat);
        },
        _ => {},
    }
}

/// Fuel irrelevance for one expression.
pub proof fn lemma_expr_fuel_irrelevant(e: ExprV, scopes: Seq<ScopeV>, at: int, f1: nat, f2: nat)
    requires
        f1 <= f2,
        spec_eval_expr(e, scopes, at, f1).1 is Some,
    ensures
        spec_eval_expr(e, scopes, at, f2) == spec_eval_expr(e, scopes, at, f1),
    decreases f1, 0nat,
{
    match e {
        ExprV::InfixOp { left, operator, right } => {
            let (s1, lr) = spec_eval_expr(*left, scopes, at, (f1 - 1) as nat);
            lemma_expr_fuel_irrelevant(*left, scopes, at, (f1 - 1) as nat, (f2 - 1) as nat);
            match lr {
                Some(l) => if !spec_is_error(l) {
                    lemma_expr_fuel_irrelevant(*right, s1, at, (f1 - 1) as nat, (f2 - 1) as nat);
                },
                None => {},
            }
        },
        ExprV::PrefixOp { operator, right } => {
            lemma_expr_fuel_irrelevant(*right, scopes, at, (f1 - 1) as nat, (f2 - 1) as nat);
        },
        ExprV::If { condition, consequence, alternative } => {
            let (s1, cr) = spec_eval_expr(*condition, scopes, at, (f1 - 1) as nat);
            lemma_expr_fuel_irrelevant(*condition, scopes, at, (f1 - 1) as nat, (f2 - 1) as nat);
            match cr {
                Some(c) => if !spec_is_error(c) {
                    if spec_is_truthy(c) {
                        lemma_stmt_fuel_irrelevant(
                            *consequence,
                            s1,
                            at,
                            (f1 - 1) as nat,
                            (f2 - 1) as nat,
                        );
                    } else {
                        match alternative {
                            Some(alt) => {
                                lemma_stmt_fuel_irrelevant(
                                    *alt,
                                    s1,
                                    at,
                                    (f1 - 1) as nat,
                                    (f2 - 1) as nat,
                                );
                            },
                            None => {},
                        }
                    }
                },
                None => {},
            }
        },
        ExprV::Call { function, arguments } => {
            let (s1, fr) = spec_eval_expr(*function, scopes, at, (f1 - 1) as nat);
            lemma_expr_fuel_irrelevant(*function, scopes, at, (f1 - 1) as nat, (f2 - 1) as nat);
            match fr {
                Some(fv) => if !spec_is_error(fv) {
                    let (s2, ar) = spec_eval_exprs(
                        arguments,
                        0,
                        s1,
                        at,
                        (f1 - 1) as nat,
                        Seq::empty(),
                    );
                    lemma_exprs_fuel_irrelevant(
                        arguments,
                        0,
                        s1,
                        at,
                        (f1 - 1) as nat,
                        (f2 - 1) as nat,
                        Seq::empty(),
                    );
                    match ar {
                        Some(Ok(vals)) => {
                            lemma_apply_fuel_irrelevant(
                                fv,
                                vals,
                                s2,
                                (f1 - 1) as nat,
                                (f2 - 1) as nat,
                            );
                        },
                        _ => {},
                    }
                },
                None => {},
            }
        },
        ExprV::ArrayLit { elements } => {
            lemma_exprs_fuel_irrelevant(
                elements,
                0,
                scopes,
                at,
                (f1 - 1) as nat,
                (f2 - 1) as nat,
                Seq::empty(),
            );
        },
        ExprV::Index { left, index } => {
            let (s1, lr) = spec_eval_expr(*left, scopes, at, (f1 - 1) as nat);
            lemma_expr_fuel_irrelevant(*left, scopes, at, (f1 - 1) as nat, (f2 - 1) as nat);
            match lr {
                Some(l) => if !spec_is_error(l) {
                    lemma_expr_fuel_irrelevant(*index, s1, at, (f1 - 1) as nat, (f2 - 1) as nat);
                },
                None => {},
            }
        },
        ExprV::HashLit { pairs } => {
            lemma_hash_pairs_fuel_irrelevant(
                pairs,
                0,
                scopes,
                at,
                (f1 - 1) as nat,
                (f2 - 1) as nat,
                Seq::empty(),
            );
        },
        _ => {},
    }
}

} // verus!
