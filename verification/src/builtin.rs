//! The built-in function registry.
//!
//! A fixed table of native functions, looked up by name when an identifier is
//! not bound and when a built-in handle is called.  The spec functions here
//! give each entry's meaning; `apply_builtin` is the executable counterpart,
//! proved to match.

use vstd::prelude::*;
use crate::object::{Object, ObjectV, obj_view, kind_chars, display_chars, objs_view_from,
    lemma_objs_view_from};
use crate::text::{dec_chars, byte_len, sat_i64};

verus! {

/// Whether `name` denotes a registered built-in.
pub open spec fn is_builtin_name(name: Seq<char>) -> bool {
    name == "len"@ || name == "first"@ || name == "last"@ || name == "rest"@ || name == "push"@
        || name == "puts"@
}

/// The arity-mismatch message of the built-ins.
pub open spec fn wrong_args_msg(got: int, want: int) -> Seq<char> {
    "wrong number of arguments. got="@ + dec_chars(got) + ", want="@ + dec_chars(want)
}

/// `len`: the byte count of a string or the element count of an array,
/// clamped into a 64-bit integer.
pub open spec fn builtin_len(args: Seq<ObjectV>) -> ObjectV {
    if args.len() != 1 {
        ObjectV::RuntimeError(wrong_args_msg(args.len() as int, 1))
    } else {
        match args[0] {
            ObjectV::Str(s) => ObjectV::Integer(sat_i64(byte_len(s) as int)),
            ObjectV::Array(es) => ObjectV::Integer(sat_i64(es.len() as int)),
            _ => ObjectV::RuntimeError(
                "argument to `len` not supported, got "@ + kind_chars(args[0]),
            ),
        }
    }
}

/// `first`: the first element of an array, or `null` if it is empty.
pub open spec fn builtin_first(args: Seq<ObjectV>) -> ObjectV {
    if args.len() != 1 {
        ObjectV::RuntimeError(wrong_args_msg(args.len() as int, 1))
    } else {
        match args[0] {
            ObjectV::Array(es) => if es.len() == 0 {
                ObjectV::Null
            } else {
                es[0]
            },
            _ => ObjectV::RuntimeError(
                "argument to `first` must be ARRAY, got "@ + kind_chars(args[0]),
            ),
        }
    }
}

/// `last`: the last element of an array, or `null` if it is empty.
pub open spec fn builtin_last(args: Seq<ObjectV>) -> ObjectV {
    if args.len() != 1 {
        ObjectV::RuntimeError(wrong_args_msg(args.len() as int, 1))
    } else {
        match args[0] {
            ObjectV::Array(es) => if es.len() == 0 {
                ObjectV::Null
            } else {
                es.last()
            },
            _ => ObjectV::RuntimeError(
                "argument to `last` must be ARRAY, got "@ + kind_chars(args[0]),
            ),
        }
    }
}

/// `rest`: a new array of all but the first element, or `null` if the array
/// is empty.
pub open spec fn builtin_rest(args: Seq<ObjectV>) -> ObjectV {
    if args.len() != 1 {
        ObjectV::RuntimeError(wrong_args_msg(args.len() as int, 1))
    } else {
        match args[0] {
            ObjectV::Array(es) => if es.len() == 0 {
                ObjectV::Null
            } else {
                ObjectV::Array(es.drop_first())
            },
            _ => ObjectV::RuntimeError(
                "argument to `rest` must be ARRAY, got "@ + kind_chars(args[0]),
            ),
        }
    }
}

/// `push`: a new array with the value appended; the original is untouched.
pub open spec fn builtin_push(args: Seq<ObjectV>) -> ObjectV {
    if args.len() != 2 {
        ObjectV::RuntimeError(wrong_args_msg(args.len() as int, 2))
    } else {
        match args[0] {
            ObjectV::Array(es) => ObjectV::Array(es.push(args[1])),
            _ => ObjectV::RuntimeError(
                "argument to `push` must be ARRAY, got "@ + kind_chars(args[0]),
            ),
        }
    }
}

/// The display lines that `puts` writes: one per argument.
pub open spec fn puts_lines(args: Seq<ObjectV>, i: int) -> Seq<Seq<char>>
    decreases args.len() - i,
{
    if 0 <= i < args.len() {
        seq![display_chars(args[i])] + puts_lines(args, i + 1)
    } else {
        seq![]
    }
}

/// Built-in dispatch by name: the result value and the output after the
/// call.  Only `puts` writes output; an unregistered name is an error.
pub open spec fn builtin_apply(name: Seq<char>, args: Seq<ObjectV>, out: Seq<Seq<char>>) -> (
    ObjectV,
    Seq<Seq<char>>,
) {
    if name == "len"@ {
        (builtin_len(args), out)
    } else if name == "first"@ {
        (builtin_first(args), out)
    } else if name == "last"@ {
        (builtin_last(args), out)
    } else if name == "rest"@ {
        (builtin_rest(args), out)
    } else if name == "push"@ {
        (builtin_push(args), out)
    } else if name == "puts"@ {
        (ObjectV::Null, out + puts_lines(args, 0))
    } else {
        (ObjectV::RuntimeError("Not a function: "@ + name), out)
    }
}

/// View of a list of output lines.
pub open spec fn lines_view(s: Seq<String>) -> Seq<Seq<char>> {
    s.map_values(|x: String| x@)
}

/// `puts_lines(args, i)` lists the display forms of `args[i..]`.
pub proof fn lemma_puts_lines(args: Seq<ObjectV>, i: int)
    requires
        0 <= i <= args.len(),
    ensures
        puts_lines(args, i).len() == args.len() - i,
        forall|j: int|
            0 <= j < args.len() - i ==> puts_lines(args, i)[j] == display_chars(args[i + j]),
    decreases args.len() - i,
{
    if i < args.len() {
        lemma_puts_lines(args, i + 1);
    }
}

/// Whether `name` denotes a registered built-in.
pub fn builtin_exists(name: &String) -> (r: bool)
    ensures
        r == is_builtin_name(name@),
{
    name.eq(&"len".to_owned()) || name.eq(&"first".to_owned()) || name.eq(&"last".to_owned())
        || name.eq(&"rest".to_owned()) || name.eq(&"push".to_owned()) || name.eq(
        &"puts".to_owned(),
    )
}

/// A runtime error holding the characters of `buf`.
fn err_from(buf: Vec<char>) -> (r: Object)
    ensures
        r@ == ObjectV::RuntimeError(buf@),
{
    Object::RuntimeError(crate::text::string_from_chars(&buf))
}

/// The arity-mismatch error.
pub(crate) fn wrong_args_err(got: usize, want: u64) -> (r: Object)
    ensures
        r@ == ObjectV::RuntimeError(wrong_args_msg(got as int, want as int)),
{
    let mut buf: Vec<char> = Vec::new();
    crate::text::append_str(&mut buf, "wrong number of arguments. got=");
    crate::text::push_dec_u64(&mut buf, got as u64);
    crate::text::append_str(&mut buf, ", want=");
    crate::text::push_dec_u64(&mut buf, want);
    proof {
        assert(buf@ =~= wrong_args_msg(got as int, want as int));
    }
    err_from(buf)
}

/// An `argument to ... got <KIND>` error: `head`, then the kind of `o`.
fn arg_kind_err(head: &str, o: &Object) -> (r: Object)
    ensures
        r@ == ObjectV::RuntimeError(head@ + kind_chars(o@)),
{
    let mut buf: Vec<char> = Vec::new();
    crate::text::append_str(&mut buf, head);
    let k = o.kind();
    crate::text::append_str(&mut buf, k.as_str());
    err_from(buf)
}

/// Runs the built-in `name` on `args`, appending any output to `out`.
/// Returns and writes exactly what `builtin_apply` prescribes.
pub fn apply_builtin(name: &String, args: Vec<Object>, out: &mut Vec<String>) -> (r: Object)
    ensures
        ({
            let (rv, outv) = builtin_apply(
                name@,
                objs_view_from(args@, 0),
                lines_view(old(out)@),
            );
            r@ == rv && lines_view(final(out)@) == outv
        }),
{
    proof {
        lemma_objs_view_from(args@, 0);
    }
    let ghost argsv = objs_view_from(args@, 0);
    if name.eq(&"len".to_owned()) {
        if args.len() != 1 {
            wrong_args_err(args.len(), 1)
        } else {
            match &args[0] {
                Object::Str(s) => {
                    let cs = crate::text::chars_of(s.as_str());
                    Object::Integer(crate::text::byte_len_i64(&cs))
                },
                Object::Array(es) => {
                    let n = es.len();
                    proof {
                        lemma_objs_view_from(es@, 0);
                    }
                    if (n as u64) <= (i64::MAX as u64) {
                        Object::Integer(n as i64)
                    } else {
                        Object::Integer(i64::MAX)
                    }
                },
                other => arg_kind_err("argument to `len` not supported, got ", other),
            }
        }
    } else if name.eq(&"first".to_owned()) {
        if args.len() != 1 {
            wrong_args_err(args.len(), 1)
        } else {
            match &args[0] {
                Object::Array(es) => {
                    proof {
                        lemma_objs_view_from(es@, 0);
                    }
                    if es.len() == 0 {
                        Object::Null
                    } else {
                        es[0].duplicate()
                    }
                },
                other => arg_kind_err("argument to `first` must be ARRAY, got ", other),
            }
        }
    } else if name.eq(&"last".to_owned()) {
        if args.len() != 1 {
            wrong_args_err(args.len(), 1)
        } else {
            match &args[0] {
                Object::Array(es) => {
                    proof {
                        lemma_objs_view_from(es@, 0);
                    }
                    if es.len() == 0 {
                        Object::Null
                    } else {
                        es[es.len() - 1].duplicate()
                    }
                },
                other => arg_kind_err("argument to `last` must be ARRAY, got ", other),
            }
        }
    } else if name.eq(&"rest".to_owned()) {
        if args.len() != 1 {
            wrong_args_err(args.len(), 1)
        } else {
            match &args[0] {
                Object::Array(es) => {
                    proof {
                        lemma_objs_view_from(es@, 0);
                    }
                    if es.len() == 0 {
                        Object::Null
                    } else {
                        let mut rest: Vec<Object> = Vec::new();
                        let mut i: usize = 1;
                        while i < es.len()
                            invariant
                                1 <= i <= es@.len(),
                                rest@.len() == i - 1,
                                forall|j: int|
                                    0 <= j < i - 1 ==> obj_view(rest@[j]) == obj_view(
                                        es@[j + 1],
                                    ),
                            decreases es@.len() - i,
                        {
                            rest.push(es[i].duplicate());
                            i += 1;
                        }
                        proof {
                            lemma_objs_view_from(rest@, 0);
                            assert(objs_view_from(rest@, 0) =~= objs_view_from(
                                es@,
                                0,
                            ).drop_first());
                        }
                        Object::Array(rest)
                    }
                },
                other => arg_kind_err("argument to `rest` must be ARRAY, got ", other),
            }
        }
    } else if name.eq(&"push".to_owned()) {
        if args.len() != 2 {
            wrong_args_err(args.len(), 2)
        } else {
            match &args[0] {
                Object::Array(es) => {
                    proof {
                        lemma_objs_view_from(es@, 0);
                    }
                    let mut grown: Vec<Object> = Vec::new();
                    let mut i: usize = 0;
                    while i < es.len()
                        invariant
                            i <= es@.len(),
                            grown@.len() == i,
                            forall|j: int|
                                0 <= j < i ==> obj_view(grown@[j]) == obj_view(es@[j]),
                        decreases es@.len() - i,
                    {
                        grown.push(es[i].duplicate());
                        i += 1;
                    }
                    grown.push(args[1].duplicate());
                    proof {
                        lemma_objs_view_from(grown@, 0);
                        assert(objs_view_from(grown@, 0) =~= objs_view_from(es@, 0).push(
                            argsv[1],
                        ));
                    }
                    Object::Array(grown)
                },
                other => arg_kind_err("argument to `push` must be ARRAY, got ", other),
            }
        }
    } else if name.eq(&"puts".to_owned()) {
        let ghost out0 = out@;
        let mut i: usize = 0;
        while i < args.len()
            invariant
                i <= args@.len(),
                argsv == objs_view_from(args@, 0),
                argsv.len() == args@.len(),
                forall|j: int| 0 <= j < args@.len() ==> argsv[j] == obj_view(args@[j]),
                out@.len() == out0.len() + i,
                forall|j: int| 0 <= j < out0.len() ==> out@[j] == out0[j],
                forall|j: int|
                    0 <= j < i ==> out@[out0.len() + j]@ == display_chars(argsv[j]),
            decreases args@.len() - i,
        {
            let line = args[i].inspect();
            out.push(line);
            i += 1;
        }
        proof {
            lemma_puts_lines(argsv, 0);
            assert(lines_view(out@) =~= lines_view(out0) + puts_lines(argsv, 0));
        }
        Object::Null
    } else {
        let mut buf: Vec<char> = Vec::new();
        crate::text::append_str(&mut buf, "Not a function: ");
        crate::text::append_str(&mut buf, name.as_str());
        err_from(buf)
    }
}

} // verus!
