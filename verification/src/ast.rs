//! Abstract syntax tree of the language, together with its mathematical
//! model and its printable form.
//!
//! A `Program` is an ordered sequence of statements.  Statements and
//! expressions are tagged variants; `If` branches and function bodies are
//! always `Block` statements.  Each executable node type has a ghost model
//! (`ExprV`, `StmtV`) in which strings are character sequences and lists
//! are `Seq`s; the view of a node is its model.  Every node has a fixed
//! printable form, given by the `*_str` specification functions over the
//! model and computed by the `to_string` methods.

use vstd::prelude::*;

use std::rc::Rc;

use crate::text::dec_str;
use crate::text::i64_dec_string;

verus! {

/// Prefix and infix operator symbols.
#[derive(Clone, Copy, PartialEq, Eq, Structural, Debug)]
pub enum Opcode {
    Mul,
    Div,
    Add,
    Sub,
    Bang,
    Eq,
    NotEq,
    Lt,
    Gt,
}

/// The source form of an operator, as a sequence of characters.
pub open spec fn opcode_str(op: Opcode) -> Seq<char> {
    match op {
        Opcode::Mul => "*"@,
        Opcode::Div => "/"@,
        Opcode::Add => "+"@,
        Opcode::Sub => "-"@,
        Opcode::Bang => "!"@,
        Opcode::Eq => "=="@,
        Opcode::NotEq => "!="@,
        Opcode::Lt => "<"@,
        Opcode::Gt => ">"@,
    }
}

impl Opcode {
    /// The operator's source form.
    pub fn as_str(&self) -> (r: &'static str)
        ensures
            r@ == opcode_str(*self),
    {
        match self {
            Opcode::Mul => "*",
            Opcode::Div => "/",
            Opcode::Add => "+",
            Opcode::Sub => "-",
            Opcode::Bang => "!",
            Opcode::Eq => "==",
            Opcode::NotEq => "!=",
            Opcode::Lt => "<",
            Opcode::Gt => ">",
        }
    }
}

/// An expression node.
#[derive(Debug)]
pub enum Expr {
    Number(i64),
    Identifier(String),
    Boolean(bool),
    StringLit(String),
    InfixOp { left: Box<Expr>, operator: Opcode, right: Box<Expr> },
    PrefixOp { operator: Opcode, right: Box<Expr> },
    If { condition: Box<Expr>, consequence: Box<Stmt>, alternative: Option<Box<Stmt>> },
    FuncLit { parameters: Rc<Vec<String>>, body: Rc<Stmt> },
    Call { function: Box<Expr>, arguments: Vec<Expr> },
    ArrayLit { elements: Vec<Expr> },
    Index { left: Box<Expr>, index: Box<Expr> },
    HashLit { pairs: Vec<(Expr, Expr)> },
}

/// A statement node.
#[derive(Debug)]
pub enum Stmt {
    Let { name: String, value: Box<Expr> },
    Return { return_value: Box<Expr> },
    Expr { expression: Box<Expr> },
    Block { statements: Vec<Stmt> },
}

/// A parsed program: its top-level statements, in order.
#[derive(Debug)]
pub struct Program {
    pub statements: Vec<Stmt>,
}

/// Model of an expression: strings as character sequences, lists as `Seq`s.
pub enum ExprV {
    Number(i64),
    Identifier(Seq<char>),
    Boolean(bool),
    StringLit(Seq<char>),
    InfixOp { left: Box<ExprV>, operator: Opcode, right: Box<ExprV> },
    PrefixOp { operator: Opcode, right: Box<ExprV> },
    If { condition: Box<ExprV>, consequence: Box<StmtV>, alternative: Option<Box<StmtV>> },
    FuncLit { parameters: Seq<Seq<char>>, body: Box<StmtV> },
    Call { function: Box<ExprV>, arguments: Seq<ExprV> },
    ArrayLit { elements: Seq<ExprV> },
    Index { left: Box<ExprV>, index: Box<ExprV> },
    HashLit { pairs: Seq<(ExprV, ExprV)> },
}

/// Model of a statement.
pub enum StmtV {
    Let { name: Seq<char>, value: Box<ExprV> },
    Return { return_value: Box<ExprV> },
    Expr { expression: Box<ExprV> },
    Block { statements: Seq<StmtV> },
}

/// Model of an expression node.
pub open spec fn expr_view(e: Expr) -> ExprV
    decreases e, 0nat,
{
    match e {
        Expr::Number(n) => ExprV::Number(n),
        Expr::Identifier(name) => ExprV::Identifier(name@),
        Expr::Boolean(b) => ExprV::Boolean(b),
        Expr::StringLit(s) => ExprV::StringLit(s@),
        Expr::InfixOp { left, operator, right } => ExprV::InfixOp {
            left: Box::new(expr_view(*left)),
            operator,
            right: Box::new(expr_view(*right)),
        },
        Expr::PrefixOp { operator, right } => ExprV::PrefixOp {
            operator,
            right: Box::new(expr_view(*right)),
        },
        Expr::If { condition, consequence, alternative } => ExprV::If {
            condition: Box::new(expr_view(*condition)),
            consequence: Box::new(stmt_view(*consequence)),
            alternative: match alternative {
                Some(alt) => Some(Box::new(stmt_view(*alt))),
                None => None,
            },
        },
        Expr::FuncLit { parameters, body } => ExprV::FuncLit {
            parameters: names_view(parameters@, 0),
            body: Box::new(stmt_view(*body)),
        },
        Expr::Call { function, arguments } => ExprV::Call {
            function: Box::new(expr_view(*function)),
            arguments: exprs_view(arguments@, 0),
        },
        Expr::ArrayLit { elements } => ExprV::ArrayLit { elements: exprs_view(elements@, 0) },
        Expr::Index { left, index } => ExprV::Index {
            left: Box::new(expr_view(*left)),
            index: Box::new(expr_view(*index)),
        },
        Expr::HashLit { pairs } => ExprV::HashLit { pairs: ast_pairs_view(pairs@, 0) },
    }
}

/// Model of a statement node.
pub open spec fn stmt_view(s: Stmt) -> StmtV
    decreases s, 0nat,
{
    match s {
        Stmt::Let { name, value } => StmtV::Let { name: name@, value: Box::new(expr_view(*value)) },
        Stmt::Return { return_value } => StmtV::Return {
            return_value: Box::new(expr_view(*return_value)),
        },
        Stmt::Expr { expression } => StmtV::Expr { expression: Box::new(expr_view(*expression)) },
        Stmt::Block { statements } => StmtV::Block { statements: stmts_view(statements@, 0) },
    }
}

/// Models of the expressions from index `i` on.
pub open spec fn exprs_view(es: Seq<Expr>, i: int) -> Seq<ExprV>
    decreases es, es.len() - i,
{
    if i < 0 || i >= es.len() {
        Seq::empty()
    } else {
        seq![expr_view(es[i])] + exprs_view(es, i + 1)
    }
}

/// Models of the statements from index `i` on.
pub open spec fn stmts_view(ss: Seq<Stmt>, i: int) -> Seq<StmtV>
    decreases ss, ss.len() - i,
{
    if i < 0 || i >= ss.len() {
        Seq::empty()
    } else {
        seq![stmt_view(ss[i])] + stmts_view(ss, i + 1)
    }
}

/// Models of the key-value expression pairs from index `i` on.
pub open spec fn ast_pairs_view(ps: Seq<(Expr, Expr)>, i: int) -> Seq<(ExprV, ExprV)>
    decreases ps, ps.len() - i,
{
    if i < 0 || i >= ps.len() {
        Seq::empty()
    } else {
        seq![(expr_view(ps[i].0), expr_view(ps[i].1))] + ast_pairs_view(ps, i + 1)
    }
}

/// Models of the names from index `i` on.
pub open spec fn names_view(ns: Seq<String>, i: int) -> Seq<Seq<char>>
    decreases ns.len() - i,
{
    if i < 0 || i >= ns.len() {
        Seq::empty()
    } else {
        seq![ns[i]@] + names_view(ns, i + 1)
    }
}

/// Length and elements of `exprs_view`.
pub broadcast proof fn lemma_exprs_view(es: Seq<Expr>, i: int)
    ensures
        0 <= i <= es.len() ==> #[trigger] exprs_view(es, i).len() == es.len() - i,
        forall|k: int|
            0 <= i && 0 <= k < es.len() - i ==> #[trigger] exprs_view(es, i)[k] == expr_view(
                es[i + k],
            ),
    decreases es.len() - i,
{
    if 0 <= i < es.len() {
        lemma_exprs_view(es, i + 1);
        assert forall|k: int| 0 <= i && 0 <= k < es.len() - i implies #[trigger] exprs_view(es, i)[k]
            == expr_view(es[i + k]) by {
            if k > 0 {
                assert(exprs_view(es, i + 1)[k - 1] == expr_view(es[(i + 1) + (k - 1)]));
            }
        }
    }
}

/// Length and elements of `stmts_view`.
pub broadcast proof fn lemma_stmts_view(ss: Seq<Stmt>, i: int)
    ensures
        0 <= i <= ss.len() ==> #[trigger] stmts_view(ss, i).len() == ss.len() - i,
        forall|k: int|
            0 <= i && 0 <= k < ss.len() - i ==> #[trigger] stmts_view(ss, i)[k] == stmt_view(
                ss[i + k],
            ),
    decreases ss.len() - i,
{
    if 0 <= i < ss.len() {
        lemma_stmts_view(ss, i + 1);
        assert forall|k: int| 0 <= i && 0 <= k < ss.len() - i implies #[trigger] stmts_view(ss, i)[k]
            == stmt_view(ss[i + k]) by {
            if k > 0 {
                assert(stmts_view(ss, i + 1)[k - 1] == stmt_view(ss[(i + 1) + (k - 1)]));
            }
        }
    }
}

/// Length and elements of `ast_pairs_view`.
pub broadcast proof fn lemma_ast_pairs_view(ps: Seq<(Expr, Expr)>, i: int)
    ensures
        0 <= i <= ps.len() ==> #[trigger] ast_pairs_view(ps, i).len() == ps.len() - i,
        forall|k: int|
            0 <= i && 0 <= k < ps.len() - i ==> #[trigger] ast_pairs_view(ps, i)[k] == (
            expr_view(ps[i + k].0),
            expr_view(ps[i + k].1),
            ),
    decreases ps.len() - i,
{
    if 0 <= i < ps.len() {
        lemma_ast_pairs_view(ps, i + 1);
        assert forall|k: int| 0 <= i && 0 <= k < ps.len() - i implies #[trigger] ast_pairs_view(
            ps,
            i,
        )[k] == (expr_view(ps[i + k].0), expr_view(ps[i + k].1)) by {
            if k > 0 {
                assert(ast_pairs_view(ps, i + 1)[k - 1] == (
                    expr_view(ps[(i + 1) + (k - 1)].0),
                    expr_view(ps[(i + 1) + (k - 1)].1),
                ));
            }
        }
    }
}

/// Length and elements of `names_view`.
pub broadcast proof fn lemma_names_view(ns: Seq<String>, i: int)
    ensures
        0 <= i <= ns.len() ==> #[trigger] names_view(ns, i).len() == ns.len() - i,
        forall|k: int|
            0 <= i && 0 <= k < ns.len() - i ==> #[trigger] names_view(ns, i)[k] == ns[i + k]@,
    decreases ns.len() - i,
{
    if 0 <= i < ns.len() {
        lemma_names_view(ns, i + 1);
        assert forall|k: int| 0 <= i && 0 <= k < ns.len() - i implies #[trigger] names_view(ns, i)[k]
            == ns[i + k]@ by {
            if k > 0 {
                assert(names_view(ns, i + 1)[k - 1] == ns[(i + 1) + (k - 1)]@);
            }
        }
    }
}

impl View for Expr {
    type V = ExprV;

    open spec fn view(&self) -> ExprV {
        expr_view(*self)
    }
}

impl View for Stmt {
    type V = StmtV;

    open spec fn view(&self) -> StmtV {
        stmt_view(*self)
    }
}

impl View for Program {
    type V = Seq<StmtV>;

    open spec fn view(&self) -> Seq<StmtV> {
        stmts_view(self.statements@, 0)
    }
}

/// Printable form of an expression.
pub open spec fn expr_str(e: ExprV) -> Seq<char>
    decreases e, 0nat,
{
    match e {
        ExprV::Number(n) => dec_str(n as int),
        ExprV::Identifier(name) => name,
        ExprV::Boolean(b) => if b {
            "true"@
        } else {
            "false"@
        },
        ExprV::StringLit(s) => "\""@ + s + "\""@,
        ExprV::InfixOp { left, operator, right } => "("@ + expr_str(*left) + " "@ + opcode_str(
            operator,
        ) + " "@ + expr_str(*right) + ")"@,
        ExprV::PrefixOp { operator, right } => "("@ + opcode_str(operator) + expr_str(*right)
            + ")"@,
        ExprV::If { condition, consequence, alternative } => {
            let head = "if ("@ + expr_str(*condition) + ") "@ + stmt_str(*consequence);
            match alternative {
                Some(alt) => head + " else "@ + stmt_str(*alt),
                None => head,
            }
        },
        ExprV::FuncLit { parameters, body } => "fn("@ + params_str(parameters, 0) + ") "@
            + stmt_str(*body),
        ExprV::Call { function, arguments } => expr_str(*function) + "("@ + exprs_str(arguments, 0)
            + ")"@,
        ExprV::ArrayLit { elements } => "["@ + exprs_str(elements, 0) + "]"@,
        ExprV::Index { left, index } => "("@ + expr_str(*left) + "["@ + expr_str(*index) + "])"@,
        ExprV::HashLit { pairs } => "{"@ + pairs_str(pairs, 0) + "}"@,
    }
}

/// Printable form of a statement.
pub open spec fn stmt_str(s: StmtV) -> Seq<char>
    decreases s, 0nat,
{
    match s {
        StmtV::Let { name, value } => "let "@ + name + " = "@ + expr_str(*value),
        StmtV::Return { return_value } => "return "@ + expr_str(*return_value),
        StmtV::Expr { expression } => expr_str(*expression),
        StmtV::Block { statements } => "{\n"@ + block_lines(statements, 0) + "}"@,
    }
}

/// The expressions from index `i` on, printed and joined by commas.
pub open spec fn exprs_str(es: Seq<ExprV>, i: int) -> Seq<char>
    decreases es, es.len() - i,
{
    if i < 0 || i >= es.len() {
        Seq::empty()
    } else if i == es.len() - 1 {
        expr_str(es[i])
    } else {
        expr_str(es[i]) + ", "@ + exprs_str(es, i + 1)
    }
}

/// The key-value pairs from index `i` on, printed as `key: value` and
/// joined by commas.
pub open spec fn pairs_str(ps: Seq<(ExprV, ExprV)>, i: int) -> Seq<char>
    decreases ps, ps.len() - i,
{
    if i < 0 || i >= ps.len() {
        Seq::empty()
    } else {
        let one = expr_str(ps[i].0) + ": "@ + expr_str(ps[i].1);
        if i == ps.len() - 1 {
            one
        } else {
            one + ", "@ + pairs_str(ps, i + 1)
        }
    }
}

/// The statements from index `i` on, each printed as an indented line.
pub open spec fn block_lines(ss: Seq<StmtV>, i: int) -> Seq<char>
    decreases ss, ss.len() - i,
{
    if i < 0 || i >= ss.len() {
        Seq::empty()
    } else {
        "  "@ + stmt_str(ss[i]) + "\n"@ + block_lines(ss, i + 1)
    }
}

/// The statements from index `i` on, printed and joined by commas.
pub open spec fn stmts_join(ss: Seq<StmtV>, i: int) -> Seq<char>
    decreases ss, ss.len() - i,
{
    if i < 0 || i >= ss.len() {
        Seq::empty()
    } else if i == ss.len() - 1 {
        stmt_str(ss[i])
    } else {
        stmt_str(ss[i]) + ", "@ + stmts_join(ss, i + 1)
    }
}

/// The parameter names from index `i` on, joined by commas.
pub open spec fn params_str(ps: Seq<Seq<char>>, i: int) -> Seq<char>
    decreases ps.len() - i,
{
    if i < 0 || i >= ps.len() {
        Seq::empty()
    } else if i == ps.len() - 1 {
        ps[i]
    } else {
        ps[i] + ", "@ + params_str(ps, i + 1)
    }
}

/// Printable form of a whole program: its statements, comma-separated,
/// in brackets.
pub open spec fn program_str(ss: Seq<StmtV>) -> Seq<char> {
    "["@ + stmts_join(ss, 0) + "]"@
}

impl Expr {
    /// The expression's printable form.
    pub fn to_string(&self) -> (r: String)
        ensures
            r@ == expr_str(self@),
        decreases self, 0nat,
    {
        match self {
            Expr::Number(n) => i64_dec_string(*n),
            Expr::Identifier(name) => name.clone(),
            Expr::Boolean(b) => if *b {
                "true".to_owned()
            } else {
                "false".to_owned()
            },
            Expr::StringLit(s) => {
                let mut r = "\"".to_owned();
                r.append(s.as_str());
                r.append("\"");
                proof {
                    assert(r@ =~= expr_str(self@));
                }
                r
            },
            Expr::InfixOp { left, operator, right } => {
                let mut r = "(".to_owned();
                let ls = left.to_string();
                r.append(ls.as_str());
                r.append(" ");
                r.append(operator.as_str());
                r.append(" ");
                let rs = right.to_string();
                r.append(rs.as_str());
                r.append(")");
                proof {
                    assert(r@ =~= expr_str(self@));
                }
                r
            },
            Expr::PrefixOp { operator, right } => {
                let mut r = "(".to_owned();
                r.append(operator.as_str());
                let rs = right.to_string();
                r.append(rs.as_str());
                r.append(")");
                proof {
                    assert(r@ =~= expr_str(self@));
                }
                r
            },
            Expr::If { condition, consequence, alternative } => {
                let mut r = "if (".to_owned();
                let cs = condition.to_string();
                r.append(cs.as_str());
                r.append(") ");
                let bs = consequence.to_string();
                r.append(bs.as_str());
                match alternative {
                    Some(alt) => {
                        r.append(" else ");
                        let als = alt.to_string();
                        r.append(als.as_str());
                    },
                    None => {},
                }
                proof {
                    assert(r@ =~= expr_str(self@));
                }
                r
            },
            Expr::FuncLit { parameters, body } => {
                let mut r = "fn(".to_owned();
                let ps = params_to_string(parameters, 0);
                r.append(ps.as_str());
                r.append(") ");
                let bs = body.to_string();
                r.append(bs.as_str());
                proof {
                    assert(r@ =~= expr_str(self@));
                }
                r
            },
            Expr::Call { function, arguments } => {
                let mut r = function.to_string();
                r.append("(");
                let args = exprs_to_string(arguments, 0);
                r.append(args.as_str());
                r.append(")");
                proof {
                    assert(r@ =~= expr_str(self@));
                }
                r
            },
            Expr::ArrayLit { elements } => {
                let mut r = "[".to_owned();
                let es = exprs_to_string(elements, 0);
                r.append(es.as_str());
                r.append("]");
                proof {
                    assert(r@ =~= expr_str(self@));
                }
                r
            },
            Expr::Index { left, index } => {
                let mut r = "(".to_owned();
                let ls = left.to_string();
                r.append(ls.as_str());
                r.append("[");
                let is = index.to_string();
                r.append(is.as_str());
                r.append("])");
                proof {
                    assert(r@ =~= expr_str(self@));
                }
                r
            },
            Expr::HashLit { pairs } => {
                let mut r = "{".to_owned();
                let ps = pairs_to_string(pairs, 0);
                r.append(ps.as_str());
                r.append("}");
                proof {
                    assert(r@ =~= expr_str(self@));
                }
                r
            },
        }
    }
}

impl Stmt {
    /// The statement's printable form.
    pub fn to_string(&self) -> (r: String)
        ensures
            r@ == stmt_str(self@),
        decreases self, 0nat,
    {
        match self {
            Stmt::Let { name, value } => {
                let mut r = "let ".to_owned();
                r.append(name.as_str());
                r.append(" = ");
                let vs = value.to_string();
                r.append(vs.as_str());
                proof {
                    assert(r@ =~= stmt_str(self@));
                }
                r
            },
            Stmt::Return { return_value } => {
                let mut r = "return ".to_owned();
                let vs = return_value.to_string();
                r.append(vs.as_str());
                proof {
                    assert(r@ =~= stmt_str(self@));
                }
                r
            },
            Stmt::Expr { expression } => {
                let r = expression.to_string();
                proof {
                    assert(r@ =~= stmt_str(self@));
                }
                r
            },
            Stmt::Block { statements } => {
                let mut r = "{\n".to_owned();
                let body = block_lines_to_string(statements, 0);
                r.append(body.as_str());
                r.append("}");
                proof {
                    assert(r@ =~= stmt_str(self@));
                }
                r
            },
        }
    }
}

impl Program {
    /// The program's printable form.
    pub fn to_string(&self) -> (r: String)
        ensures
            r@ == program_str(self@),
    {
        let mut r = "[".to_owned();
        let body = stmts_join_to_string(&self.statements, 0);
        r.append(body.as_str());
        r.append("]");
        proof {
            assert(r@ =~= program_str(self@));
        }
        r
    }
}

/// Comma-joined printable forms of the expressions from index `i` on.
fn exprs_to_string(es: &Vec<Expr>, i: usize) -> (r: String)
    ensures
        r@ == exprs_str(exprs_view(es@, 0), i as int),
    decreases es@, es@.len() - i,
{
    proof {
        lemma_exprs_view(es@, 0);
    }
    if i >= es.len() {
        String::new()
    } else {
        let mut r = es[i].to_string();
        if i < es.len() - 1 {
            r.append(", ");
            let rest = exprs_to_string(es, i + 1);
            r.append(rest.as_str());
        }
        proof {
            assert(r@ =~= exprs_str(exprs_view(es@, 0), i as int));
        }
        r
    }
}

/// Comma-joined printable forms of the key-value pairs from index `i` on.
fn pairs_to_string(ps: &Vec<(Expr, Expr)>, i: usize) -> (r: String)
    ensures
        r@ == pairs_str(ast_pairs_view(ps@, 0), i as int),
    decreases ps@, ps@.len() - i,
{
    proof {
        lemma_ast_pairs_view(ps@, 0);
    }
    if i >= ps.len() {
        String::new()
    } else {
        let mut r = ps[i].0.to_string();
        r.append(": ");
        let vs = ps[i].1.to_string();
        r.append(vs.as_str());
        if i < ps.len() - 1 {
            r.append(", ");
            let rest = pairs_to_string(ps, i + 1);
            r.append(rest.as_str());
        }
        proof {
            assert(r@ =~= pairs_str(ast_pairs_view(ps@, 0), i as int));
        }
        r
    }
}

/// Indented lines for the statements from index `i` on.
fn block_lines_to_string(ss: &Vec<Stmt>, i: usize) -> (r: String)
    ensures
        r@ == block_lines(stmts_view(ss@, 0), i as int),
    decreases ss@, ss@.len() - i,
{
    proof {
        lemma_stmts_view(ss@, 0);
    }
    if i >= ss.len() {
        String::new()
    } else {
        let mut r = "  ".to_owned();
        let one = ss[i].to_string();
        r.append(one.as_str());
        r.append("\n");
        let rest = block_lines_to_string(ss, i + 1);
        r.append(rest.as_str());
        proof {
            assert(r@ =~= block_lines(stmts_view(ss@, 0), i as int));
        }
        r
    }
}

/// Comma-joined printable forms of the statements from index `i` on.
fn stmts_join_to_string(ss: &Vec<Stmt>, i: usize) -> (r: String)
    ensures
        r@ == stmts_join(stmts_view(ss@, 0), i as int),
    decreases ss@, ss@.len() - i,
{
    proof {
        lemma_stmts_view(ss@, 0);
    }
    if i >= ss.len() {
        String::new()
    } else {
        let mut r = ss[i].to_string();
        if i < ss.len() - 1 {
            r.append(", ");
            let rest = stmts_join_to_string(ss, i + 1);
            r.append(rest.as_str());
        }
        proof {
            assert(r@ =~= stmts_join(stmts_view(ss@, 0), i as int));
        }
        r
    }
}

/// Comma-joined parameter names from index `i` on.
pub(crate) fn params_to_string(ps: &Vec<String>, i: usize) -> (r: String)
    ensures
        r@ == params_str(names_view(ps@, 0), i as int),
    decreases ps@.len() - i,
{
    proof {
        lemma_names_view(ps@, 0);
    }
    if i >= ps.len() {
        String::new()
    } else {
        let mut r = ps[i].clone();
        if i < ps.len() - 1 {
            r.append(", ");
            let rest = params_to_string(ps, i + 1);
            r.append(rest.as_str());
        }
        proof {
            assert(r@ =~= params_str(names_view(ps@, 0), i as int));
        }
        r
    }
}

} // verus!
