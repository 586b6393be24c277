//! Runtime values: a closed set of tagged variants with uniform type tags,
//! a printable inspection form, and hash-key derivation for the hashable
//! variants.
//!
//! Each value has a ghost model (`ObjectV`) in which strings are character
//! sequences and aggregates are `Seq`s; the view of a value is its model.

use vstd::prelude::*;

use std::rc::Rc;

use crate::ast::Stmt;
use crate::ast::StmtV;
use crate::ast::names_view;
use crate::ast::params_str;
use crate::ast::stmt_str;
use crate::ast::stmt_view;
use crate::text::dec_str;
use crate::text::i64_dec_string;

verus! {

/// Type tag of a runtime value.
#[derive(Clone, Copy, PartialEq, Eq, Structural, Debug)]
pub enum ObjectType {
    Integer,
    Null,
    Boolean,
    ReturnValue,
    Error,
    Function,
    StringObj,
    Builtin,
    Array,
    Hash,
}

/// The uppercase name of a type tag.
pub open spec fn type_tag_str(t: ObjectType) -> Seq<char> {
    match t {
        ObjectType::Integer => "INTEGER"@,
        ObjectType::Null => "NULL"@,
        ObjectType::Boolean => "BOOLEAN"@,
        ObjectType::ReturnValue => "RETURN_VALUE"@,
        ObjectType::Error => "ERROR"@,
        ObjectType::Function => "FUNCTION"@,
        ObjectType::StringObj => "STRING"@,
        ObjectType::Builtin => "BUILTIN"@,
        ObjectType::Array => "ARRAY"@,
        ObjectType::Hash => "HASH"@,
    }
}

impl ObjectType {
    /// The tag's uppercase name.
    pub fn as_str(&self) -> (r: &'static str)
        ensures
            r@ == type_tag_str(*self),
    {
        match self {
            ObjectType::Integer => "INTEGER",
            ObjectType::Null => "NULL",
            ObjectType::Boolean => "BOOLEAN",
            ObjectType::ReturnValue => "RETURN_VALUE",
            ObjectType::Error => "ERROR",
            ObjectType::Function => "FUNCTION",
            ObjectType::StringObj => "STRING",
            ObjectType::Builtin => "BUILTIN",
            ObjectType::Array => "ARRAY",
            ObjectType::Hash => "HASH",
        }
    }
}

/// One of the native functions of the built-in registry.
#[derive(Clone, Copy, PartialEq, Eq, Structural, Debug)]
pub enum BuiltinFn {
    Len,
    First,
    Last,
    Rest,
    Push,
}

/// Identity of a hash entry: the key's type tag and a 64-bit value
/// derived from the key.
#[derive(Clone, Copy, PartialEq, Eq, Structural, Debug)]
pub struct HashKey {
    pub tag: ObjectType,
    pub value: u64,
}

/// A runtime value.
///
/// `ReturnValue` and `Error` are control-flow values: the evaluator unwinds
/// on them and user code never observes their wrapper form.  Aggregate
/// payloads are reference-counted; values are immutable, so sharing is
/// unobservable.  A `Function` captures its defining scope by its index
/// into the evaluation environment's arena of scopes.
#[derive(Debug)]
pub enum Object {
    Integer(i64),
    Boolean(bool),
    Null,
    StringObj(String),
    Array(Rc<Vec<Object>>),
    Hash(Rc<Vec<(Object, Object)>>),
    Function { parameters: Rc<Vec<String>>, body: Rc<Stmt>, env: usize },
    Builtin(BuiltinFn),
    ReturnValue(Box<Object>),
    Error(String),
}

/// Model of a runtime value.
pub enum ObjectV {
    Integer(i64),
    Boolean(bool),
    Null,
    StringObj(Seq<char>),
    Array(Seq<ObjectV>),
    Hash(Seq<(ObjectV, ObjectV)>),
    Function { parameters: Seq<Seq<char>>, body: Box<StmtV>, env: int },
    Builtin(BuiltinFn),
    ReturnValue(Box<ObjectV>),
    Error(Seq<char>),
}

/// Model of a value.
pub open spec fn obj_view(o: Object) -> ObjectV
    decreases o, 0nat,
{
    match o {
        Object::Integer(n) => ObjectV::Integer(n),
        Object::Boolean(b) => ObjectV::Boolean(b),
        Object::Null => ObjectV::Null,
        Object::StringObj(s) => ObjectV::StringObj(s@),
        Object::Array(elements) => ObjectV::Array(objs_view(elements@, 0)),
        Object::Hash(pairs) => ObjectV::Hash(obj_pairs_view(pairs@, 0)),
        Object::Function { parameters, body, env } => ObjectV::Function {
            parameters: names_view(parameters@, 0),
            body: Box::new(stmt_view(*body)),
            env: env as int,
        },
        Object::Builtin(f) => ObjectV::Builtin(f),
        Object::ReturnValue(v) => ObjectV::ReturnValue(Box::new(obj_view(*v))),
        Object::Error(message) => ObjectV::Error(message@),
    }
}

/// Models of the values from index `i` on.
pub open spec fn objs_view(es: Seq<Object>, i: int) -> Seq<ObjectV>
    decreases es, es.len() - i,
{
    if i < 0 || i >= es.len() {
        Seq::empty()
    } else {
        seq![obj_view(es[i])] + objs_view(es, i + 1)
    }
}

/// Models of the hash entries from index `i` on.
pub open spec fn obj_pairs_view(ps: Seq<(Object, Object)>, i: int) -> Seq<(ObjectV, ObjectV)>
    decreases ps, ps.len() - i,
{
    if i < 0 || i >= ps.len() {
        Seq::empty()
    } else {
        seq![(obj_view(ps[i].0), obj_view(ps[i].1))] + obj_pairs_view(ps, i + 1)
    }
}

/// Length and elements of `objs_view`.
pub broadcast proof fn lemma_objs_view(es: Seq<Object>, i: int)
    ensures
        0 <= i <= es.len() ==> #[trigger] objs_view(es, i).len() == es.len() - i,
        forall|k: int|
            0 <= i && 0 <= k < es.len() - i ==> #[trigger] objs_view(es, i)[k] == obj_view(
                es[i + k],
            ),
    decreases es.len() - i,
{
    if 0 <= i < es.len() {
        lemma_objs_view(es, i + 1);
        assert forall|k: int| 0 <= i && 0 <= k < es.len() - i implies #[trigger] objs_view(es, i)[k]
            == obj_view(es[i + k]) by {
            if k > 0 {
                assert(objs_view(es, i + 1)[k - 1] == obj_view(es[(i + 1) + (k - 1)]));
            }
        }
    }
}

/// Length and elements of `obj_pairs_view`.
pub broadcast proof fn lemma_obj_pairs_view(ps: Seq<(Object, Object)>, i: int)
    ensures
        0 <= i <= ps.len() ==> #[trigger] obj_pairs_view(ps, i).len() == ps.len() - i,
        forall|k: int|
            0 <= i && 0 <= k < ps.len() - i ==> #[trigger] obj_pairs_view(ps, i)[k] == (
            obj_view(ps[i + k].0),
            obj_view(ps[i + k].1),
            ),
    decreases ps.len() - i,
{
    if 0 <= i < ps.len() {
        lemma_obj_pairs_view(ps, i + 1);
        assert forall|k: int| 0 <= i && 0 <= k < ps.len() - i implies #[trigger] obj_pairs_view(
            ps,
            i,
        )[k] == (obj_view(ps[i + k].0), obj_view(ps[i + k].1)) by {
            if k > 0 {
                assert(obj_pairs_view(ps, i + 1)[k - 1] == (
                    obj_view(ps[(i + 1) + (k - 1)].0),
                    obj_view(ps[(i + 1) + (k - 1)].1),
                ));
            }
        }
    }
}

impl View for Object {
    type V = ObjectV;

    open spec fn view(&self) -> ObjectV {
        obj_view(*self)
    }
}

/// Type tag of a value.
pub open spec fn type_of_v(o: ObjectV) -> ObjectType {
    match o {
        ObjectV::Integer(_) => ObjectType::Integer,
        ObjectV::Boolean(_) => ObjectType::Boolean,
        ObjectV::Null => ObjectType::Null,
        ObjectV::StringObj(_) => ObjectType::StringObj,
        ObjectV::Array(_) => ObjectType::Array,
        ObjectV::Hash(_) => ObjectType::Hash,
        ObjectV::Function { .. } => ObjectType::Function,
        ObjectV::Builtin(_) => ObjectType::Builtin,
        ObjectV::ReturnValue(_) => ObjectType::ReturnValue,
        ObjectV::Error(_) => ObjectType::Error,
    }
}

/// Offset basis of the 64-bit FNV-1a hash.
pub const FNV_OFFSET: u64 = 0xcbf29ce484222325;

/// Prime of the 64-bit FNV-1a hash.
pub const FNV_PRIME: u64 = 0x100000001b3;

/// 64-bit FNV-1a over the characters of a string, from index `i` on,
/// starting from the accumulator `acc`.
pub open spec fn fnv1a_from(s: Seq<char>, i: int, acc: u64) -> u64
    decreases s.len() - i,
{
    if i < 0 || i >= s.len() {
        acc
    } else {
        let mixed = acc ^ ((s[i] as u32) as u64);
        let stepped = ((mixed as int * FNV_PRIME as int) % 0x10000000000000000) as u64;
        fnv1a_from(s, i + 1, stepped)
    }
}

/// Deterministic 64-bit hash of a string's characters.
pub open spec fn string_hash(s: Seq<char>) -> u64 {
    fnv1a_from(s, 0, FNV_OFFSET)
}

/// The hash key of a value: integers reinterpreted as unsigned, booleans
/// as one and zero, strings by a deterministic 64-bit hash of their
/// characters.  Only integers, booleans and strings are hashable.
pub open spec fn hash_key_v(o: ObjectV) -> Option<HashKey> {
    match o {
        ObjectV::Integer(n) => Some(HashKey { tag: ObjectType::Integer, value: n as u64 }),
        ObjectV::Boolean(b) => Some(
            HashKey {
                tag: ObjectType::Boolean,
                value: if b {
                    1
                } else {
                    0
                },
            },
        ),
        ObjectV::StringObj(s) => Some(
            HashKey { tag: ObjectType::StringObj, value: string_hash(s) },
        ),
        _ => None,
    }
}

/// Inspection form of a value, shown to the user of the language.
pub open spec fn inspect_str(o: ObjectV) -> Seq<char>
    decreases o, 0nat,
{
    match o {
        ObjectV::Integer(n) => dec_str(n as int),
        ObjectV::Boolean(b) => if b {
            "true"@
        } else {
            "false"@
        },
        ObjectV::Null => "null"@,
        ObjectV::StringObj(s) => s,
        ObjectV::Array(elements) => "["@ + objects_join(elements, 0) + "]"@,
        ObjectV::Hash(pairs) => "{"@ + hash_pairs_join(pairs, 0) + "}"@,
        ObjectV::Function { parameters, body, env } => "fn("@ + params_str(parameters, 0) + ") "@
            + stmt_str(*body),
        ObjectV::Builtin(_) => "builtin function"@,
        ObjectV::ReturnValue(v) => inspect_str(*v),
        ObjectV::Error(message) => message,
    }
}

/// Inspection forms of the values from index `i` on, joined by commas.
pub open spec fn objects_join(es: Seq<ObjectV>, i: int) -> Seq<char>
    decreases es, es.len() - i,
{
    if i < 0 || i >= es.len() {
        Seq::empty()
    } else if i == es.len() - 1 {
        inspect_str(es[i])
    } else {
        inspect_str(es[i]) + ", "@ + objects_join(es, i + 1)
    }
}

/// Inspection forms of the entries from index `i` on, as `key: value`,
/// joined by commas.
pub open spec fn hash_pairs_join(ps: Seq<(ObjectV, ObjectV)>, i: int) -> Seq<char>
    decreases ps, ps.len() - i,
{
    if i < 0 || i >= ps.len() {
        Seq::empty()
    } else {
        let one = inspect_str(ps[i].0) + ": "@ + inspect_str(ps[i].1);
        if i == ps.len() - 1 {
            one
        } else {
            one + ", "@ + hash_pairs_join(ps, i + 1)
        }
    }
}

impl Object {
    /// The value's type tag.
    pub fn object_type(&self) -> (t: ObjectType)
        ensures
            t == type_of_v(self@),
    {
        match self {
            Object::Integer(_) => ObjectType::Integer,
            Object::Boolean(_) => ObjectType::Boolean,
            Object::Null => ObjectType::Null,
            Object::StringObj(_) => ObjectType::StringObj,
            Object::Array(_) => ObjectType::Array,
            Object::Hash(_) => ObjectType::Hash,
            Object::Function { .. } => ObjectType::Function,
            Object::Builtin(_) => ObjectType::Builtin,
            Object::ReturnValue(_) => ObjectType::ReturnValue,
            Object::Error(_) => ObjectType::Error,
        }
    }

    /// A value with the same model, independent of this one.
    pub fn duplicate(&self) -> (r: Object)
        ensures
            r@ == self@,
        decreases self,
    {
        match self {
            Object::Integer(n) => Object::Integer(*n),
            Object::Boolean(b) => Object::Boolean(*b),
            Object::Null => Object::Null,
            Object::StringObj(s) => Object::StringObj(s.clone()),
            Object::Array(elements) => Object::Array(Rc::clone(elements)),
            Object::Hash(pairs) => Object::Hash(Rc::clone(pairs)),
            Object::Function { parameters, body, env } => Object::Function {
                parameters: Rc::clone(parameters),
                body: Rc::clone(body),
                env: *env,
            },
            Object::Builtin(f) => Object::Builtin(*f),
            Object::ReturnValue(v) => Object::ReturnValue(Box::new(v.duplicate())),
            Object::Error(message) => Object::Error(message.clone()),
        }
    }

    /// The value's hash key, for the hashable variants.
    pub fn hash_key(&self) -> (r: Option<HashKey>)
        ensures
            r == hash_key_v(self@),
    {
        match self {
            Object::Integer(n) => Some(
                HashKey {
                    tag: ObjectType::Integer,
                    value:
                    #[verifier::truncate]
                    (*n as u64),
                },
            ),
            Object::Boolean(b) => Some(
                HashKey {
                    tag: ObjectType::Boolean,
                    value: if *b {
                        1
                    } else {
                        0
                    },
                },
            ),
            Object::StringObj(s) => Some(
                HashKey { tag: ObjectType::StringObj, value: string_hash_exec(s.as_str()) },
            ),
            _ => None,
        }
    }

    /// The value's inspection form.
    pub fn inspect(&self) -> (r: String)
        ensures
            r@ == inspect_str(self@),
        decreases self, 0nat,
    {
        match self {
            Object::Integer(n) => i64_dec_string(*n),
            Object::Boolean(b) => if *b {
                "true".to_owned()
            } else {
                "false".to_owned()
            },
            Object::Null => "null".to_owned(),
            Object::StringObj(s) => s.clone(),
            Object::Array(elements) => {
                let mut r = "[".to_owned();
                let body = objects_join_string(elements, 0);
                r.append(body.as_str());
                r.append("]");
                proof {
                    assert(r@ =~= inspect_str(self@));
                }
                r
            },
            Object::Hash(pairs) => {
                let mut r = "{".to_owned();
                let body = hash_pairs_join_string(pairs, 0);
                r.append(body.as_str());
                r.append("}");
                proof {
                    assert(r@ =~= inspect_str(self@));
                }
                r
            },
            Object::Function { parameters, body, env } => {
                let mut r = "fn(".to_owned();
                let ps = crate::ast::params_to_string(parameters, 0);
                r.append(ps.as_str());
                r.append(") ");
                let bs = body.to_string();
                r.append(bs.as_str());
                proof {
                    assert(r@ =~= inspect_str(self@));
                }
                r
            },
            Object::Builtin(_) => "builtin function".to_owned(),
            Object::ReturnValue(v) => {
                let r = v.inspect();
                proof {
                    assert(r@ =~= inspect_str(self@));
                }
                r
            },
            Object::Error(message) => message.clone(),
        }
    }
}

/// Deterministic 64-bit hash of a string.
pub fn string_hash_exec(s: &str) -> (r: u64)
    ensures
        r == string_hash(s@),
{
    let n = s.unicode_len();
    let mut acc: u64 = FNV_OFFSET;
    let mut i: usize = 0;
    while i < n
        invariant
            n == s@.len(),
            i <= n,
            fnv1a_from(s@, i as int, acc) == string_hash(s@),
        decreases n - i,
    {
        let c = s.get_char(i);
        let mixed: u64 = acc ^ ((c as u32) as u64);
        let product: u128 = (mixed as u128) * (FNV_PRIME as u128);
        acc = (product % 0x10000000000000000u128) as u64;
        i = i + 1;
    }
    acc
}

/// Comma-joined inspection forms of the values from index `i` on.
fn objects_join_string(es: &Vec<Object>, i: usize) -> (r: String)
    ensures
        r@ == objects_join(objs_view(es@, 0), i as int),
    decreases es@, es@.len() - i,
{
    proof {
        lemma_objs_view(es@, 0);
    }
    if i >= es.len() {
        String::new()
    } else {
        let mut r = es[i].inspect();
        if i < es.len() - 1 {
            r.append(", ");
            let rest = objects_join_string(es, i + 1);
            r.append(rest.as_str());
        }
        proof {
            assert(r@ =~= objects_join(objs_view(es@, 0), i as int));
        }
        r
    }
}

/// Comma-joined `key: value` inspection forms of the entries from index
/// `i` on.
fn hash_pairs_join_string(ps: &Vec<(Object, Object)>, i: usize) -> (r: String)
    ensures
        r@ == hash_pairs_join(obj_pairs_view(ps@, 0), i as int),
    decreases ps@, ps@.len() - i,
{
    proof {
        lemma_obj_pairs_view(ps@, 0);
    }
    if i >= ps.len() {
        String::new()
    } else {
        let mut r = ps[i].0.inspect();
        r.append(": ");
        let vs = ps[i].1.inspect();
        r.append(vs.as_str());
        if i < ps.len() - 1 {
            r.append(", ");
            let rest = hash_pairs_join_string(ps, i + 1);
            r.append(rest.as_str());
        }
        proof {
            assert(r@ =~= hash_pairs_join(obj_pairs_view(ps@, 0), i as int));
        }
        r
    }
}

} // verus!
