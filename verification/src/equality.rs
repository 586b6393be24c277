//! Structural equality of runtime values, used by the `==` and `!=`
//! operators of the language.  Two values are equal exactly when their
//! models are equal.

use vstd::prelude::*;

use crate::ast::Expr;
use crate::ast::Stmt;
use crate::ast::ast_pairs_view;
use crate::ast::exprs_view;
use crate::ast::lemma_ast_pairs_view;
use crate::ast::lemma_exprs_view;
use crate::ast::lemma_names_view;
use crate::ast::lemma_stmts_view;
use crate::ast::names_view;
use crate::ast::stmts_view;
use crate::object::Object;
use crate::object::lemma_obj_pairs_view;
use crate::object::lemma_objs_view;
use crate::object::obj_pairs_view;
use crate::object::objs_view;
use crate::text::str_eq;

verus! {

/// Whether two expression nodes have the same model.
pub fn expr_equal(a: &Expr, b: &Expr) -> (r: bool)
    ensures
        r == (a@ == b@),
    decreases a, 0nat,
{
    match (a, b) {
        (Expr::Number(x), Expr::Number(y)) => *x == *y,
        (Expr::Identifier(x), Expr::Identifier(y)) => str_eq(x.as_str(), y.as_str()),
        (Expr::Boolean(x), Expr::Boolean(y)) => *x == *y,
        (Expr::StringLit(x), Expr::StringLit(y)) => str_eq(x.as_str(), y.as_str()),
        (
            Expr::InfixOp { left: l1, operator: o1, right: r1 },
            Expr::InfixOp { left: l2, operator: o2, right: r2 },
        ) => expr_equal(l1, l2) && *o1 == *o2 && expr_equal(r1, r2),
        (
            Expr::PrefixOp { operator: o1, right: r1 },
            Expr::PrefixOp { operator: o2, right: r2 },
        ) => *o1 == *o2 && expr_equal(r1, r2),
        (
            Expr::If { condition: c1, consequence: q1, alternative: a1 },
            Expr::If { condition: c2, consequence: q2, alternative: a2 },
        ) => {
            let alt_eq = match (a1, a2) {
                (Some(s1), Some(s2)) => stmt_equal(s1, s2),
                (None, None) => true,
                _ => false,
            };
            alt_eq && expr_equal(c1, c2) && stmt_equal(q1, q2)
        },
        (
            Expr::FuncLit { parameters: p1, body: b1 },
            Expr::FuncLit { parameters: p2, body: b2 },
        ) => names_equal(p1, p2, 0) && stmt_equal(b1, b2),
        (
            Expr::Call { function: f1, arguments: a1 },
            Expr::Call { function: f2, arguments: a2 },
        ) => expr_equal(f1, f2) && exprs_equal(a1, a2, 0),
        (Expr::ArrayLit { elements: e1 }, Expr::ArrayLit { elements: e2 }) => exprs_equal(
            e1,
            e2,
            0,
        ),
        (
            Expr::Index { left: l1, index: i1 },
            Expr::Index { left: l2, index: i2 },
        ) => expr_equal(l1, l2) && expr_equal(i1, i2),
        (Expr::HashLit { pairs: p1 }, Expr::HashLit { pairs: p2 }) => ast_pairs_equal(p1, p2, 0),
        _ => false,
    }
}

/// Whether two statement nodes have the same model.
pub fn stmt_equal(a: &Stmt, b: &Stmt) -> (r: bool)
    ensures
        r == (a@ == b@),
    decreases a, 0nat,
{
    match (a, b) {
        (Stmt::Let { name: n1, value: v1 }, Stmt::Let { name: n2, value: v2 }) => str_eq(
            n1.as_str(),
            n2.as_str(),
        ) && expr_equal(v1, v2),
        (
            Stmt::Return { return_value: v1 },
            Stmt::Return { return_value: v2 },
        ) => expr_equal(v1, v2),
        (Stmt::Expr { expression: e1 }, Stmt::Expr { expression: e2 }) => expr_equal(e1, e2),
        (Stmt::Block { statements: s1 }, Stmt::Block { statements: s2 }) => stmts_equal(s1, s2, 0),
        _ => false,
    }
}

/// Whether the models of two expression lists agree from index `i` on.
fn exprs_equal(a: &Vec<Expr>, b: &Vec<Expr>, i: usize) -> (r: bool)
    ensures
        r == (exprs_view(a@, i as int) == exprs_view(b@, i as int)),
    decreases a@, a@.len() - i,
{
    proof {
        lemma_exprs_view(a@, i as int);
        lemma_exprs_view(b@, i as int);
    }
    if a.len() != b.len() {
        if i < a.len() || i < b.len() {
            return false;
        }
        proof {
            assert(exprs_view(a@, i as int) =~= Seq::<crate::ast::ExprV>::empty());
            assert(exprs_view(b@, i as int) =~= Seq::<crate::ast::ExprV>::empty());
        }
        return true;
    }
    if i >= a.len() {
        proof {
            assert(exprs_view(a@, i as int) =~= exprs_view(b@, i as int));
        }
        true
    } else {
        let head = expr_equal(&a[i], &b[i]);
        if !head {
            proof {
                assert(exprs_view(a@, i as int)[0] == a@[i as int]@);
                assert(exprs_view(b@, i as int)[0] == b@[i as int]@);
            }
            false
        } else {
            let rest = exprs_equal(a, b, i + 1);
            proof {
                if rest {
                    assert(exprs_view(a@, i as int) =~= exprs_view(b@, i as int));
                } else {
                    assert(exprs_view(a@, i as int)[0] == exprs_view(b@, i as int)[0]);
                    assert(exprs_view(a@, i as int).skip(1) =~= exprs_view(a@, i as int + 1));
                    assert(exprs_view(b@, i as int).skip(1) =~= exprs_view(b@, i as int + 1));
                }
            }
            rest
        }
    }
}

/// Whether the models of two statement lists agree from index `i` on.
fn stmts_equal(a: &Vec<Stmt>, b: &Vec<Stmt>, i: usize) -> (r: bool)
    ensures
        r == (stmts_view(a@, i as int) == stmts_view(b@, i as int)),
    decreases a@, a@.len() - i,
{
    proof {
        lemma_stmts_view(a@, i as int);
        lemma_stmts_view(b@, i as int);
    }
    if a.len() != b.len() {
        if i < a.len() || i < b.len() {
            return false;
        }
        proof {
            assert(stmts_view(a@, i as int) =~= Seq::<crate::ast::StmtV>::empty());
            assert(stmts_view(b@, i as int) =~= Seq::<crate::ast::StmtV>::empty());
        }
        return true;
    }
    if i >= a.len() {
        proof {
            assert(stmts_view(a@, i as int) =~= stmts_view(b@, i as int));
        }
        true
    } else {
        let head = stmt_equal(&a[i], &b[i]);
        if !head {
            proof {
                assert(stmts_view(a@, i as int)[0] == a@[i as int]@);
                assert(stmts_view(b@, i as int)[0] == b@[i as int]@);
            }
            false
        } else {
            let rest = stmts_equal(a, b, i + 1);
            proof {
                if rest {
                    assert(stmts_view(a@, i as int) =~= stmts_view(b@, i as int));
                } else {
                    assert(stmts_view(a@, i as int).skip(1) =~= stmts_view(a@, i as int + 1));
                    assert(stmts_view(b@, i as int).skip(1) =~= stmts_view(b@, i as int + 1));
                }
            }
            rest
        }
    }
}

/// Whether the models of two key-value expression lists agree from index
/// `i` on.
fn ast_pairs_equal(a: &Vec<(Expr, Expr)>, b: &Vec<(Expr, Expr)>, i: usize) -> (r: bool)
    ensures
        r == (ast_pairs_view(a@, i as int) == ast_pairs_view(b@, i as int)),
    decreases a@, a@.len() - i,
{
    proof {
        lemma_ast_pairs_view(a@, i as int);
        lemma_ast_pairs_view(b@, i as int);
    }
    if a.len() != b.len() {
        if i < a.len() || i < b.len() {
            return false;
        }
        proof {
            assert(ast_pairs_view(a@, i as int) =~= Seq::<(
                crate::ast::ExprV,
                crate::ast::ExprV,
            )>::empty());
            assert(ast_pairs_view(b@, i as int) =~= Seq::<(
                crate::ast::ExprV,
                crate::ast::ExprV,
            )>::empty());
        }
        return true;
    }
    if i >= a.len() {
        proof {
            assert(ast_pairs_view(a@, i as int) =~= ast_pairs_view(b@, i as int));
        }
        true
    } else {
        let head = expr_equal(&a[i].0, &b[i].0) && expr_equal(&a[i].1, &b[i].1);
        if !head {
            proof {
                assert(ast_pairs_view(a@, i as int)[0] == (a@[i as int].0@, a@[i as int].1@));
                assert(ast_pairs_view(b@, i as int)[0] == (b@[i as int].0@, b@[i as int].1@));
            }
            false
        } else {
            let rest = ast_pairs_equal(a, b, i + 1);
            proof {
                if rest {
                    assert(ast_pairs_view(a@, i as int) =~= ast_pairs_view(b@, i as int));
                } else {
                    assert(ast_pairs_view(a@, i as int).skip(1) =~= ast_pairs_view(
                        a@,
                        i as int + 1,
                    ));
                    assert(ast_pairs_view(b@, i as int).skip(1) =~= ast_pairs_view(
                        b@,
                        i as int + 1,
                    ));
                }
            }
            rest
        }
    }
}

/// Whether the models of two name lists agree from index `i` on.
fn names_equal(a: &Vec<String>, b: &Vec<String>, i: usize) -> (r: bool)
    ensures
        r == (names_view(a@, i as int) == names_view(b@, i as int)),
    decreases a@.len() - i,
{
    proof {
        lemma_names_view(a@, i as int);
        lemma_names_view(b@, i as int);
    }
    if a.len() != b.len() {
        if i < a.len() || i < b.len() {
            return false;
        }
        proof {
            assert(names_view(a@, i as int) =~= Seq::<Seq<char>>::empty());
            assert(names_view(b@, i as int) =~= Seq::<Seq<char>>::empty());
        }
        return true;
    }
    if i >= a.len() {
        proof {
            assert(names_view(a@, i as int) =~= names_view(b@, i as int));
        }
        true
    } else {
        let head = str_eq(a[i].as_str(), b[i].as_str());
        if !head {
            proof {
                assert(names_view(a@, i as int)[0] == a@[i as int]@);
                assert(names_view(b@, i as int)[0] == b@[i as int]@);
            }
            false
        } else {
            let rest = names_equal(a, b, i + 1);
            proof {
                if rest {
                    assert(names_view(a@, i as int) =~= names_view(b@, i as int));
                } else {
                    assert(names_view(a@, i as int).skip(1) =~= names_view(a@, i as int + 1));
                    assert(names_view(b@, i as int).skip(1) =~= names_view(b@, i as int + 1));
                }
            }
            rest
        }
    }
}

/// Whether two runtime values are structurally equal: their models are
/// the same.  Functions compare by parameter names, body and captured
/// scope.
pub fn obj_equal(a: &Object, b: &Object) -> (r: bool)
    ensures
        r == (a@ == b@),
    decreases a, 0nat,
{
    match (a, b) {
        (Object::Integer(x), Object::Integer(y)) => *x == *y,
        (Object::Boolean(x), Object::Boolean(y)) => *x == *y,
        (Object::Null, Object::Null) => true,
        (Object::StringObj(x), Object::StringObj(y)) => str_eq(x.as_str(), y.as_str()),
        (Object::Array(x), Object::Array(y)) => objs_equal(x, y, 0),
        (Object::Hash(x), Object::Hash(y)) => obj_pairs_equal(x, y, 0),
        (
            Object::Function { parameters: p1, body: b1, env: e1 },
            Object::Function { parameters: p2, body: b2, env: e2 },
        ) => names_equal(p1, p2, 0) && stmt_equal(b1, b2) && *e1 == *e2,
        (Object::Builtin(x), Object::Builtin(y)) => *x == *y,
        (Object::ReturnValue(x), Object::ReturnValue(y)) => obj_equal(x, y),
        (Object::Error(x), Object::Error(y)) => str_eq(x.as_str(), y.as_str()),
        _ => false,
    }
}

/// Whether the models of two value lists agree from index `i` on.
fn objs_equal(a: &Vec<Object>, b: &Vec<Object>, i: usize) -> (r: bool)
    ensures
        r == (objs_view(a@, i as int) == objs_view(b@, i as int)),
    decreases a@, a@.len() - i,
{
    proof {
        lemma_objs_view(a@, i as int);
        lemma_objs_view(b@, i as int);
    }
    if a.len() != b.len() {
        if i < a.len() || i < b.len() {
            return false;
        }
        proof {
            assert(objs_view(a@, i as int) =~= Seq::<crate::object::ObjectV>::empty());
            assert(objs_view(b@, i as int) =~= Seq::<crate::object::ObjectV>::empty());
        }
        return true;
    }
    if i >= a.len() {
        proof {
            assert(objs_view(a@, i as int) =~= objs_view(b@, i as int));
        }
        true
    } else {
        let head = obj_equal(&a[i], &b[i]);
        if !head {
            proof {
                assert(objs_view(a@, i as int)[0] == a@[i as int]@);
                assert(objs_view(b@, i as int)[0] == b@[i as int]@);
            }
            false
        } else {
            let rest = objs_equal(a, b, i + 1);
            proof {
                if rest {
                    assert(objs_view(a@, i as int) =~= objs_view(b@, i as int));
                } else {
                    assert(objs_view(a@, i as int).skip(1) =~= objs_view(a@, i as int + 1));
                    assert(objs_view(b@, i as int).skip(1) =~= objs_view(b@, i as int + 1));
                }
            }
            rest
        }
    }
}

/// Whether the models of two hash entry lists agree from index `i` on.
fn obj_pairs_equal(a: &Vec<(Object, Object)>, b: &Vec<(Object, Object)>, i: usize) -> (r: bool)
    ensures
        r == (obj_pairs_view(a@, i as int) == obj_pairs_view(b@, i as int)),
    decreases a@, a@.len() - i,
{
    proof {
        lemma_obj_pairs_view(a@, i as int);
        lemma_obj_pairs_view(b@, i as int);
    }
    if a.len() != b.len() {
        if i < a.len() || i < b.len() {
            return false;
        }
        proof {
            assert(obj_pairs_view(a@, i as int) =~= Seq::<(
                crate::object::ObjectV,
                crate::object::ObjectV,
            )>::empty());
            assert(obj_pairs_view(b@, i as int) =~= Seq::<(
                crate::object::ObjectV,
                crate::object::ObjectV,
            )>::empty());
        }
        return true;
    }
    if i >= a.len() {
        proof {
            assert(obj_pairs_view(a@, i as int) =~= obj_pairs_view(b@, i as int));
        }
        true
    } else {
        let head = obj_equal(&a[i].0, &b[i].0) && obj_equal(&a[i].1, &b[i].1);
        if !head {
            proof {
                assert(obj_pairs_view(a@, i as int)[0] == (a@[i as int].0@, a@[i as int].1@));
                assert(obj_pairs_view(b@, i as int)[0] == (b@[i as int].0@, b@[i as int].1@));
            }
            false
        } else {
            let rest = obj_pairs_equal(a, b, i + 1);
            proof {
                if rest {
                    assert(obj_pairs_view(a@, i as int) =~= obj_pairs_view(b@, i as int));
                } else {
                    assert(obj_pairs_view(a@, i as int).skip(1) =~= obj_pairs_view(
                        a@,
                        i as int + 1,
                    ));
                    assert(obj_pairs_view(b@, i as int).skip(1) =~= obj_pairs_view(
                        b@,
                        i as int + 1,
                    ));
                }
            }
            rest
        }
    }
}

} // verus!
