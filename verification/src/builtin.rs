//! The built-in functions of the language: a fixed registry of native
//! functions, consulted by name before the environment, each taking the
//! already evaluated argument list and returning a value.  Built-ins never
//! fail except by returning an `Error` value.

use vstd::prelude::*;

use std::rc::Rc;

use crate::object::BuiltinFn;
use crate::object::ObjectType;
use crate::object::Object;
use crate::object::ObjectV;
use crate::object::lemma_objs_view;
use crate::object::obj_view;
use crate::object::objs_view;
use crate::object::type_of_v;
use crate::object::type_tag_str;
use crate::text::byte_len;
use crate::text::dec_str;
use crate::text::str_byte_len;
use crate::text::str_eq;
use crate::text::u64_dec_string;

verus! {

/// The built-in bound to `name`, if any.
pub open spec fn spec_get_builtin(name: Seq<char>) -> Option<BuiltinFn> {
    if name == "len"@ {
        Some(BuiltinFn::Len)
    } else if name == "first"@ {
        Some(BuiltinFn::First)
    } else if name == "last"@ {
        Some(BuiltinFn::Last)
    } else if name == "rest"@ {
        Some(BuiltinFn::Rest)
    } else if name == "push"@ {
        Some(BuiltinFn::Push)
    } else {
        None
    }
}

/// The built-in registered under `name`, if any.
pub fn get_builtin(name: &str) -> (r: Option<BuiltinFn>)
    ensures
        r == spec_get_builtin(name@),
{
    if str_eq(name, "len") {
        Some(BuiltinFn::Len)
    } else if str_eq(name, "first") {
        Some(BuiltinFn::First)
    } else if str_eq(name, "last") {
        Some(BuiltinFn::Last)
    } else if str_eq(name, "rest") {
        Some(BuiltinFn::Rest)
    } else if str_eq(name, "push") {
        Some(BuiltinFn::Push)
    } else {
        None
    }
}

/// Message of the error for a built-in called with the wrong number of
/// arguments.
pub open spec fn arity_error_msg(got: int, want: int) -> Seq<char> {
    "wrong number of arguments. got="@ + dec_str(got) + ", want="@ + dec_str(want)
}

/// Message of the error for a built-in that wants an array.
pub open spec fn must_be_array_msg(fname: Seq<char>, tag: ObjectType) -> Seq<char> {
    "argument to `"@ + fname + "` must be ARRAY, got "@ + type_tag_str(tag)
}

/// What `len` returns: the byte length of a string, the element count of
/// an array, an error on anything else or on a wrong argument count.
pub open spec fn spec_len_builtin(args: Seq<ObjectV>) -> ObjectV {
    if args.len() != 1 {
        ObjectV::Error(arity_error_msg(args.len() as int, 1))
    } else {
        match args[0] {
            ObjectV::StringObj(s) => ObjectV::Integer(byte_len(s) as i64),
            ObjectV::Array(es) => ObjectV::Integer(es.len() as i64),
            _ => ObjectV::Error(
                "argument to `len` not supported, got "@ + type_tag_str(type_of_v(args[0])),
            ),
        }
    }
}

/// What `first` returns: the first element of an array, `Null` if it is
/// empty, an error on anything else or on a wrong argument count.
pub open spec fn spec_first_builtin(args: Seq<ObjectV>) -> ObjectV {
    if args.len() != 1 {
        ObjectV::Error(arity_error_msg(args.len() as int, 1))
    } else {
        match args[0] {
            ObjectV::Array(es) => if es.len() == 0 {
                ObjectV::Null
            } else {
                es[0]
            },
            _ => ObjectV::Error(must_be_array_msg("first"@, type_of_v(args[0]))),
        }
    }
}

/// What `last` returns: the last element of an array, `Null` if it is
/// empty, an error on anything else or on a wrong argument count.
pub open spec fn spec_last_builtin(args: Seq<ObjectV>) -> ObjectV {
    if args.len() != 1 {
        ObjectV::Error(arity_error_msg(args.len() as int, 1))
    } else {
        match args[0] {
            ObjectV::Array(es) => if es.len() == 0 {
                ObjectV::Null
            } else {
                es[es.len() - 1]
            },
            _ => ObjectV::Error(must_be_array_msg("last"@, type_of_v(args[0]))),
        }
    }
}

/// What `rest` returns: a new array holding all but the first element,
/// `Null` on an empty array, an error on anything else or on a wrong
/// argument count.
pub open spec fn spec_rest_builtin(args: Seq<ObjectV>) -> ObjectV {
    if args.len() != 1 {
        ObjectV::Error(arity_error_msg(args.len() as int, 1))
    } else {
        match args[0] {
            ObjectV::Array(es) => if es.len() == 0 {
                ObjectV::Null
            } else {
                ObjectV::Array(es.skip(1))
            },
            _ => ObjectV::Error(must_be_array_msg("rest"@, type_of_v(args[0]))),
        }
    }
}

/// What `push` returns: a new array equal to the first argument with the
/// second appended; the original array is not modified.  An error on a
/// non-array or on a wrong argument count.
pub open spec fn spec_push_builtin(args: Seq<ObjectV>) -> ObjectV {
    if args.len() != 2 {
        ObjectV::Error(arity_error_msg(args.len() as int, 2))
    } else {
        match args[0] {
            ObjectV::Array(es) => ObjectV::Array(es.push(args[1])),
            _ => ObjectV::Error(must_be_array_msg("push"@, type_of_v(args[0]))),
        }
    }
}

/// What a built-in call returns.
pub open spec fn spec_builtin_call(f: BuiltinFn, args: Seq<ObjectV>) -> ObjectV {
    match f {
        BuiltinFn::Len => spec_len_builtin(args),
        BuiltinFn::First => spec_first_builtin(args),
        BuiltinFn::Last => spec_last_builtin(args),
        BuiltinFn::Rest => spec_rest_builtin(args),
        BuiltinFn::Push => spec_push_builtin(args),
    }
}

/// The error for a built-in called with the wrong number of arguments.
fn arity_error(got: usize, want: u64) -> (r: Object)
    ensures
        r@ == ObjectV::Error(arity_error_msg(got as int, want as int)),
{
    let mut m = "wrong number of arguments. got=".to_owned();
    let g = u64_dec_string(got as u64);
    m.append(g.as_str());
    m.append(", want=");
    let w = u64_dec_string(want);
    m.append(w.as_str());
    proof {
        assert(m@ =~= arity_error_msg(got as int, want as int));
    }
    Object::Error(m)
}

/// The error for a built-in that wants an array and got something else.
fn must_be_array_error(fname: &str, got: &Object) -> (r: Object)
    ensures
        r@ == ObjectV::Error(must_be_array_msg(fname@, type_of_v(got@))),
{
    let mut m = "argument to `".to_owned();
    m.append(fname);
    m.append("` must be ARRAY, got ");
    m.append(got.object_type().as_str());
    proof {
        assert(m@ =~= must_be_array_msg(fname@, type_of_v(got@)));
    }
    Object::Error(m)
}

/// A new vector holding copies of the elements from index `from` on.
fn duplicate_objects(src: &Vec<Object>, from: usize) -> (r: Vec<Object>)
    ensures
        objs_view(r@, 0) == objs_view(src@, from as int),
{
    let mut r: Vec<Object> = Vec::new();
    let mut k = from;
    proof {
        lemma_objs_view(r@, 0);
    }
    if from > src.len() {
        proof {
            assert(objs_view(r@, 0) =~= objs_view(src@, from as int));
        }
        return r;
    }
    while k < src.len()
        invariant
            from <= k <= src.len(),
            objs_view(r@, 0) + objs_view(src@, k as int) =~= objs_view(src@, from as int),
        decreases src.len() - k,
    {
        let ghost old_r = r@;
        r.push(src[k].duplicate());
        proof {
            lemma_objs_view(old_r, 0);
            lemma_objs_view(r@, 0);
            assert(objs_view(r@, 0) =~= objs_view(old_r, 0).push(obj_view(src@[k as int])));
            assert(objs_view(r@, 0) + objs_view(src@, k as int + 1) =~= objs_view(
                src@,
                from as int,
            ));
        }
        k = k + 1;
    }
    proof {
        assert(objs_view(r@, 0) + objs_view(src@, k as int) =~= objs_view(r@, 0));
        assert(objs_view(r@, 0) =~= objs_view(src@, from as int));
    }
    r
}

/// The `len` built-in.
pub fn len_builtin(args: Vec<Object>) -> (r: Object)
    ensures
        r@ == spec_len_builtin(objs_view(args@, 0)),
{
    proof {
        lemma_objs_view(args@, 0);
    }
    if args.len() != 1 {
        return arity_error(args.len(), 1);
    }
    match &args[0] {
        Object::StringObj(s) => {
            let n = str_byte_len(s.as_str());
            Object::Integer(
                #[verifier::truncate]
                (n as i64),
            )
        },
        Object::Array(elements) => {
            let elems: &Vec<Object> = &**elements;
            proof {
                lemma_objs_view(elems@, 0);
            }
            Object::Integer(
                #[verifier::truncate]
                (elems.len() as i64),
            )
        },
        other => {
            let mut m = "argument to `len` not supported, got ".to_owned();
            m.append(other.object_type().as_str());
            proof {
                assert(m@ =~= "argument to `len` not supported, got "@ + type_tag_str(
                    type_of_v(objs_view(args@, 0)[0]),
                ));
            }
            Object::Error(m)
        },
    }
}

/// The `first` built-in.
pub fn first_builtin(args: Vec<Object>) -> (r: Object)
    ensures
        r@ == spec_first_builtin(objs_view(args@, 0)),
{
    proof {
        lemma_objs_view(args@, 0);
    }
    if args.len() != 1 {
        return arity_error(args.len(), 1);
    }
    match &args[0] {
        Object::Array(elements) => {
            let elems: &Vec<Object> = &**elements;
            proof {
                lemma_objs_view(elems@, 0);
            }
            if elems.len() == 0 {
                Object::Null
            } else {
                elems[0].duplicate()
            }
        },
        other => must_be_array_error("first", other),
    }
}

/// The `last` built-in.
pub fn last_builtin(args: Vec<Object>) -> (r: Object)
    ensures
        r@ == spec_last_builtin(objs_view(args@, 0)),
{
    proof {
        lemma_objs_view(args@, 0);
    }
    if args.len() != 1 {
        return arity_error(args.len(), 1);
    }
    match &args[0] {
        Object::Array(elements) => {
            let elems: &Vec<Object> = &**elements;
            proof {
                lemma_objs_view(elems@, 0);
            }
            if elems.len() == 0 {
                Object::Null
            } else {
                elems[elems.len() - 1].duplicate()
            }
        },
        other => must_be_array_error("last", other),
    }
}

/// The `rest` built-in.
pub fn rest_builtin(args: Vec<Object>) -> (r: Object)
    ensures
        r@ == spec_rest_builtin(objs_view(args@, 0)),
{
    proof {
        lemma_objs_view(args@, 0);
    }
    if args.len() != 1 {
        return arity_error(args.len(), 1);
    }
    match &args[0] {
        Object::Array(elements) => {
            let elems: &Vec<Object> = &**elements;
            proof {
                lemma_objs_view(elems@, 0);
            }
            if elems.len() == 0 {
                Object::Null
            } else {
                let copied = duplicate_objects(elems, 1);
                proof {
                    assert(objs_view(copied@, 0) =~= objs_view(elems@, 0).skip(1));
                }
                Object::Array(Rc::new(copied))
            }
        },
        other => must_be_array_error("rest", other),
    }
}

/// The `push` built-in.
pub fn push_builtin(args: Vec<Object>) -> (r: Object)
    ensures
        r@ == spec_push_builtin(objs_view(args@, 0)),
{
    proof {
        lemma_objs_view(args@, 0);
    }
    if args.len() != 2 {
        return arity_error(args.len(), 2);
    }
    let appended = args[1].duplicate();
    match &args[0] {
        Object::Array(elements) => {
            let elems: &Vec<Object> = &**elements;
            proof {
                lemma_objs_view(elems@, 0);
            }
            let mut copied = duplicate_objects(elems, 0);
            let ghost before_push = copied@;
            copied.push(appended);
            proof {
                lemma_objs_view(before_push, 0);
                lemma_objs_view(copied@, 0);
                assert(objs_view(copied@, 0) =~= objs_view(elems@, 0).push(obj_view(appended)));
            }
            Object::Array(Rc::new(copied))
        },
        other => must_be_array_error("push", other),
    }
}

/// A built-in applied to its evaluated arguments.
pub fn apply_builtin(f: BuiltinFn, args: Vec<Object>) -> (r: Object)
    ensures
        r@ == spec_builtin_call(f, objs_view(args@, 0)),
{
    match f {
        BuiltinFn::Len => len_builtin(args),
        BuiltinFn::First => first_builtin(args),
        BuiltinFn::Last => last_builtin(args),
        BuiltinFn::Rest => rest_builtin(args),
        BuiltinFn::Push => push_builtin(args),
    }
}

} // verus!
