//! The runtime value model.
//!
//! A value is a tagged variant (`Object`); its mathematical view (`ObjectV`)
//! replaces strings by character sequences, vectors by sequences, and the
//! captured binding context of a function by the index of that context in the
//! evaluator's arena.

use vstd::prelude::*;
use std::rc::Rc;
use crate::ast::{BlockStatement, BlockV, block_view, params_view};

verus! {

broadcast use vstd::std_specs::vec::axiom_vec_decreases_to_view;

/// The fingerprint of a key-eligible value.  Two key-eligible values are
/// equal under the language's `==` exactly when their hash keys are equal.
pub enum HashKey {
    Integer(i64),
    Boolean(bool),
    Str(String),
}

/// Mathematical view of a hash key.
#[verifier::ext_equal]
pub enum HashKeyV {
    Integer(i64),
    Boolean(bool),
    Str(Seq<char>),
}

pub open spec fn hash_key_view(k: HashKey) -> HashKeyV {
    match k {
        HashKey::Integer(n) => HashKeyV::Integer(n),
        HashKey::Boolean(b) => HashKeyV::Boolean(b),
        HashKey::Str(s) => HashKeyV::Str(s@),
    }
}

impl View for HashKey {
    type V = HashKeyV;

    open spec fn view(&self) -> HashKeyV {
        hash_key_view(*self)
    }
}

/// A runtime value.
pub enum Object {
    Integer(i64),
    Boolean(bool),
    Str(String),
    Null,
    Array(Vec<Object>),
    Hash(Vec<(HashKey, Object)>),
    Function { parameters: Vec<String>, body: Rc<BlockStatement>, env: usize },
    BuiltinFunction(String),
    ReturnValue(Box<Object>),
    RuntimeError(String),
}

/// Mathematical view of a function value: parameter names, body block, and
/// the arena index of the captured binding context.
#[verifier::ext_equal]
pub struct FunctionV {
    pub parameters: Seq<Seq<char>>,
    pub body: BlockV,
    pub env: int,
}

/// Mathematical view of a runtime value.
#[verifier::ext_equal]
pub enum ObjectV {
    Integer(i64),
    Boolean(bool),
    Str(Seq<char>),
    Null,
    Array(Seq<ObjectV>),
    Hash(Seq<(HashKeyV, ObjectV)>),
    Function(FunctionV),
    BuiltinFunction(Seq<char>),
    ReturnValue(Box<ObjectV>),
    RuntimeError(Seq<char>),
}

pub open spec fn obj_view(o: Object) -> ObjectV
    decreases o, 0int,
{
    match o {
        Object::Integer(n) => ObjectV::Integer(n),
        Object::Boolean(b) => ObjectV::Boolean(b),
        Object::Str(s) => ObjectV::Str(s@),
        Object::Null => ObjectV::Null,
        Object::Array(v) => ObjectV::Array(objs_view_from(v@, 0)),
        Object::Hash(v) => ObjectV::Hash(hpairs_view_from(v@, 0)),
        Object::Function { parameters, body, env } => ObjectV::Function(
            FunctionV {
                parameters: params_view(parameters@),
                body: block_view(*body),
                env: env as int,
            },
        ),
        Object::BuiltinFunction(name) => ObjectV::BuiltinFunction(name@),
        Object::ReturnValue(b) => ObjectV::ReturnValue(Box::new(obj_view(*b))),
        Object::RuntimeError(m) => ObjectV::RuntimeError(m@),
    }
}

pub open spec fn objs_view_from(s: Seq<Object>, i: int) -> Seq<ObjectV>
    decreases s, s.len() - i,
{
    if 0 <= i < s.len() {
        seq![obj_view(s[i])] + objs_view_from(s, i + 1)
    } else {
        seq![]
    }
}

pub open spec fn hpairs_view_from(s: Seq<(HashKey, Object)>, i: int) -> Seq<(HashKeyV, ObjectV)>
    decreases s, s.len() - i,
{
    if 0 <= i < s.len() {
        seq![(hash_key_view(s[i].0), obj_view(s[i].1))] + hpairs_view_from(s, i + 1)
    } else {
        seq![]
    }
}

impl View for Object {
    type V = ObjectV;

    open spec fn view(&self) -> ObjectV {
        obj_view(*self)
    }
}

/// `objs_view_from(s, i)` lists the views of `s[i..]`, elementwise.
pub proof fn lemma_objs_view_from(s: Seq<Object>, i: int)
    requires
        0 <= i <= s.len(),
    ensures
        objs_view_from(s, i).len() == s.len() - i,
        forall|j: int| 0 <= j < s.len() - i ==> objs_view_from(s, i)[j] == obj_view(s[i + j]),
    decreases s.len() - i,
{
    if i < s.len() {
        lemma_objs_view_from(s, i + 1);
    }
}

/// `hpairs_view_from(s, i)` lists the views of `s[i..]`, pairwise.
pub proof fn lemma_hpairs_view_from(s: Seq<(HashKey, Object)>, i: int)
    requires
        0 <= i <= s.len(),
    ensures
        hpairs_view_from(s, i).len() == s.len() - i,
        forall|j: int|
            0 <= j < s.len() - i ==> hpairs_view_from(s, i)[j] == (
                hash_key_view(s[i + j].0),
                obj_view(s[i + j].1),
            ),
    decreases s.len() - i,
{
    if i < s.len() {
        lemma_hpairs_view_from(s, i + 1);
    }
}

/// The kind spelling of a value, as it appears in error messages.
pub open spec fn kind_chars(v: ObjectV) -> Seq<char> {
    match v {
        ObjectV::Integer(..) => "INTEGER"@,
        ObjectV::Boolean(..) => "BOOLEAN"@,
        ObjectV::Str(..) => "STRING"@,
        ObjectV::Null => "NULL"@,
        ObjectV::Array(..) => "ARRAY"@,
        ObjectV::Hash(..) => "HASH"@,
        ObjectV::Function(..) => "FUNCTION"@,
        ObjectV::BuiltinFunction(..) => "BUILTIN"@,
        ObjectV::ReturnValue(..) => "RETURN_VALUE"@,
        ObjectV::RuntimeError(..) => "ERROR"@,
    }
}

/// The hash key derived from a value, for the three key-eligible kinds.
pub open spec fn hash_key_of(v: ObjectV) -> Option<HashKeyV> {
    match v {
        ObjectV::Integer(n) => Some(HashKeyV::Integer(n)),
        ObjectV::Boolean(b) => Some(HashKeyV::Boolean(b)),
        ObjectV::Str(s) => Some(HashKeyV::Str(s)),
        _ => None,
    }
}

/// View of an optional hash key.
pub open spec fn opt_key_view(k: Option<HashKey>) -> Option<HashKeyV> {
    match k {
        Some(key) => Some(hash_key_view(key)),
        None => None,
    }
}

/// The canonical rendering of a hash key: a kind letter, a colon, and the
/// payload.
pub open spec fn hash_key_chars(k: HashKeyV) -> Seq<char> {
    match k {
        HashKeyV::Integer(n) => "I:"@ + crate::text::dec_chars(n as int),
        HashKeyV::Boolean(b) => "B:"@ + (if b {
            "true"@
        } else {
            "false"@
        }),
        HashKeyV::Str(s) => "S:"@ + s,
    }
}

/// Display form of a value, per kind: decimal for integers, `true`/`false`,
/// raw characters for strings, `null`, bracketed element lists for arrays,
/// braced pairs for hashes, the syntax-tree rendering for functions, and the
/// message behind an `Error: ` prefix for runtime errors.
pub open spec fn display_chars(v: ObjectV) -> Seq<char>
    decreases v, 0int,
{
    match v {
        ObjectV::Integer(n) => crate::text::dec_chars(n as int),
        ObjectV::Boolean(b) => if b {
            "true"@
        } else {
            "false"@
        },
        ObjectV::Str(s) => s,
        ObjectV::Null => "null"@,
        ObjectV::Array(es) => "["@ + display_list(es, 0) + "]"@,
        ObjectV::Hash(ps) => "{"@ + display_pairs(ps, 0) + "}"@,
        ObjectV::Function(f) => "fn("@ + crate::ast::params_dchars(f.parameters, 0) + ") {\n"@
            + crate::ast::block_dchars(f.body) + "\n}"@,
        ObjectV::BuiltinFunction(..) => "builtin function"@,
        ObjectV::ReturnValue(b) => display_chars(*b),
        ObjectV::RuntimeError(m) => "Error: "@ + m,
    }
}

/// Display forms of the values of `es` from `i` on, joined by `", "`.
pub open spec fn display_list(es: Seq<ObjectV>, i: int) -> Seq<char>
    decreases es, es.len() - i,
{
    if 0 <= i < es.len() {
        if i + 1 < es.len() {
            display_chars(es[i]) + ", "@ + display_list(es, i + 1)
        } else {
            display_chars(es[i])
        }
    } else {
        Seq::empty()
    }
}

/// Display form of a hash key: its payload, rendered as the value would be.
pub open spec fn key_display_chars(k: HashKeyV) -> Seq<char> {
    match k {
        HashKeyV::Integer(n) => crate::text::dec_chars(n as int),
        HashKeyV::Boolean(b) => if b {
            "true"@
        } else {
            "false"@
        },
        HashKeyV::Str(s) => s,
    }
}

/// Display forms of the pairs of `ps` from `i` on, as `key: value`, joined by
/// `", "`.
pub open spec fn display_pairs(ps: Seq<(HashKeyV, ObjectV)>, i: int) -> Seq<char>
    decreases ps, ps.len() - i,
{
    if 0 <= i < ps.len() {
        if i + 1 < ps.len() {
            key_display_chars(ps[i].0) + ": "@ + display_chars(ps[i].1) + ", "@ + display_pairs(
                ps,
                i + 1,
            )
        } else {
            key_display_chars(ps[i].0) + ": "@ + display_chars(ps[i].1)
        }
    } else {
        Seq::empty()
    }
}

impl Object {
    /// The kind name of this value, spelled as error messages spell it.
    pub fn kind(&self) -> (r: String)
        ensures
            r@ == kind_chars(self@),
    {
        match self {
            Object::Integer(..) => "INTEGER".to_owned(),
            Object::Boolean(..) => "BOOLEAN".to_owned(),
            Object::Str(..) => "STRING".to_owned(),
            Object::Null => "NULL".to_owned(),
            Object::Array(..) => "ARRAY".to_owned(),
            Object::Hash(..) => "HASH".to_owned(),
            Object::Function { .. } => "FUNCTION".to_owned(),
            Object::BuiltinFunction(..) => "BUILTIN".to_owned(),
            Object::ReturnValue(..) => "RETURN_VALUE".to_owned(),
            Object::RuntimeError(..) => "ERROR".to_owned(),
        }
    }

    /// The hash key of this value, or `None` if its kind is not key-eligible.
    pub fn hash_key(&self) -> (r: Option<HashKey>)
        ensures
            opt_key_view(r) == hash_key_of(self@),
    {
        match self {
            Object::Integer(n) => Some(HashKey::Integer(*n)),
            Object::Boolean(b) => Some(HashKey::Boolean(*b)),
            Object::Str(s) => Some(HashKey::Str(s.clone())),
            _ => None,
        }
    }

    /// A deep copy: the copy has the same view as the original.  Function
    /// values share their body block and keep the same captured context.
    #[verifier::loop_isolation(false)]
    pub fn duplicate(&self) -> (r: Object)
        ensures
            r@ == self@,
        decreases self,
    {
        match self {
            Object::Integer(n) => Object::Integer(*n),
            Object::Boolean(b) => Object::Boolean(*b),
            Object::Str(s) => Object::Str(s.clone()),
            Object::Null => Object::Null,
            Object::Array(v) => {
                let mut out: Vec<Object> = Vec::new();
                let mut i: usize = 0;
                while i < v.len()
                    invariant
                        i <= v@.len(),
                        out@.len() == i,
                        forall|j: int| 0 <= j < i ==> obj_view(out@[j]) == obj_view(v@[j]),
                    decreases v@.len() - i,
                {
                    out.push(v[i].duplicate());
                    i += 1;
                }
                proof {
                    lemma_objs_view_from(out@, 0);
                    lemma_objs_view_from(v@, 0);
                    assert(objs_view_from(out@, 0) =~= objs_view_from(v@, 0));
                }
                Object::Array(out)
            },
            Object::Hash(v) => {
                let mut out: Vec<(HashKey, Object)> = Vec::new();
                let mut i: usize = 0;
                while i < v.len()
                    invariant
                        i <= v@.len(),
                        out@.len() == i,
                        forall|j: int|
                            0 <= j < i ==> hash_key_view(out@[j].0) == hash_key_view(v@[j].0)
                                && obj_view(out@[j].1) == obj_view(v@[j].1),
                    decreases v@.len() - i,
                {
                    let p = &v[i];
                    out.push((duplicate_key(&p.0), p.1.duplicate()));
                    i += 1;
                }
                proof {
                    lemma_hpairs_view_from(out@, 0);
                    lemma_hpairs_view_from(v@, 0);
                    assert(hpairs_view_from(out@, 0) =~= hpairs_view_from(v@, 0));
                }
                Object::Hash(out)
            },
            Object::Function { parameters, body, env } => {
                let mut ps: Vec<String> = Vec::new();
                let mut i: usize = 0;
                while i < parameters.len()
                    invariant
                        i <= parameters@.len(),
                        ps@.len() == i,
                        forall|j: int| 0 <= j < i ==> ps@[j] == parameters@[j],
                    decreases parameters@.len() - i,
                {
                    ps.push(parameters[i].clone());
                    i += 1;
                }
                proof {
                    assert(ps@ =~= parameters@);
                }
                Object::Function { parameters: ps, body: crate::ast::share_block(body), env: *env }
            },
            Object::BuiltinFunction(name) => Object::BuiltinFunction(name.clone()),
            Object::ReturnValue(b) => Object::ReturnValue(Box::new((&**b).duplicate())),
            Object::RuntimeError(m) => Object::RuntimeError(m.clone()),
        }
    }
}

/// A copy of a hash key with the same view.
pub fn duplicate_key(k: &HashKey) -> (r: HashKey)
    ensures
        r@ == k@,
{
    match k {
        HashKey::Integer(n) => HashKey::Integer(*n),
        HashKey::Boolean(b) => HashKey::Boolean(*b),
        HashKey::Str(s) => HashKey::Str(s.clone()),
    }
}

/// Whether two hash keys are equal.
pub fn key_eq(a: &HashKey, b: &HashKey) -> (r: bool)
    ensures
        r == (a@ == b@),
{
    match (a, b) {
        (HashKey::Integer(x), HashKey::Integer(y)) => *x == *y,
        (HashKey::Boolean(x), HashKey::Boolean(y)) => *x == *y,
        (HashKey::Str(x), HashKey::Str(y)) => x.eq(y),
        _ => false,
    }
}

impl HashKey {
    /// The canonical rendering of this key: kind letter, colon, payload.
    pub fn stringify(&self) -> (r: String)
        ensures
            r@ == hash_key_chars(self@),
    {
        let mut buf: Vec<char> = Vec::new();
        match self {
            HashKey::Integer(n) => {
                crate::text::append_str(&mut buf, "I:");
                crate::text::push_dec_i64(&mut buf, *n);
            },
            HashKey::Boolean(b) => {
                crate::text::append_str(&mut buf, "B:");
                if *b {
                    crate::text::append_str(&mut buf, "true");
                } else {
                    crate::text::append_str(&mut buf, "false");
                }
            },
            HashKey::Str(s) => {
                crate::text::append_str(&mut buf, "S:");
                crate::text::append_str(&mut buf, s.as_str());
            },
        }
        crate::text::string_from_chars(&buf)
    }
}

/// Appends the display form of `o` to `buf`.
pub fn push_obj_display(buf: &mut Vec<char>, o: &Object)
    ensures
        final(buf)@ == old(buf)@ + display_chars(obj_view(*o)),
    decreases o, 0int,
{
    let ghost start = buf@;
    match o {
        Object::Integer(n) => {
            crate::text::push_dec_i64(buf, *n);
        },
        Object::Boolean(b) => {
            if *b {
                crate::text::append_str(buf, "true");
            } else {
                crate::text::append_str(buf, "false");
            }
        },
        Object::Str(s) => {
            crate::text::append_str(buf, s.as_str());
        },
        Object::Null => {
            crate::text::append_str(buf, "null");
        },
        Object::Array(es) => {
            crate::text::append_str(buf, "[");
            push_obj_list_display(buf, es, 0);
            crate::text::append_str(buf, "]");
            proof {
                assert(buf@ =~= start + display_chars(obj_view(*o)));
            }
        },
        Object::Hash(ps) => {
            crate::text::append_str(buf, "{");
            push_pairs_display(buf, ps, 0);
            crate::text::append_str(buf, "}");
            proof {
                assert(buf@ =~= start + display_chars(obj_view(*o)));
            }
        },
        Object::Function { parameters, body, .. } => {
            crate::text::append_str(buf, "fn(");
            crate::ast::push_params_display(buf, parameters, 0);
            crate::text::append_str(buf, ") {\n");
            crate::ast::push_block_display(buf, &**body);
            crate::text::append_str(buf, "\n}");
            proof {
                assert(buf@ =~= start + display_chars(obj_view(*o)));
            }
        },
        Object::BuiltinFunction(..) => {
            crate::text::append_str(buf, "builtin function");
        },
        Object::ReturnValue(b) => {
            push_obj_display(buf, &**b);
        },
        Object::RuntimeError(m) => {
            crate::text::append_str(buf, "Error: ");
            crate::text::append_str(buf, m.as_str());
            proof {
                assert(buf@ =~= start + display_chars(obj_view(*o)));
            }
        },
    }
}

/// Appends the display forms of `es[i..]`, joined by `", "`, to `buf`.
pub fn push_obj_list_display(buf: &mut Vec<char>, es: &Vec<Object>, i: usize)
    requires
        i <= es@.len(),
    ensures
        final(buf)@ == old(buf)@ + display_list(objs_view_from(es@, 0), i as int),
    decreases es@, es@.len() - i,
{
    proof {
        lemma_objs_view_from(es@, 0);
    }
    if i < es.len() {
        let ghost start = buf@;
        push_obj_display(buf, &es[i]);
        if i + 1 < es.len() {
            crate::text::append_str(buf, ", ");
            push_obj_list_display(buf, es, i + 1);
        }
        proof {
            assert(buf@ =~= start + display_list(objs_view_from(es@, 0), i as int));
        }
    }
}

/// Appends the key of `k` in display form to `buf`.
pub fn push_key_display(buf: &mut Vec<char>, k: &HashKey)
    ensures
        final(buf)@ == old(buf)@ + key_display_chars(k@),
{
    match k {
        HashKey::Integer(n) => {
            crate::text::push_dec_i64(buf, *n);
        },
        HashKey::Boolean(b) => {
            if *b {
                crate::text::append_str(buf, "true");
            } else {
                crate::text::append_str(buf, "false");
            }
        },
        HashKey::Str(s) => {
            crate::text::append_str(buf, s.as_str());
        },
    }
}

/// Appends the pairs `ps[i..]` as `key: value`, joined by `", "`, to `buf`.
pub fn push_pairs_display(buf: &mut Vec<char>, ps: &Vec<(HashKey, Object)>, i: usize)
    requires
        i <= ps@.len(),
    ensures
        final(buf)@ == old(buf)@ + display_pairs(hpairs_view_from(ps@, 0), i as int),
    decreases ps@, ps@.len() - i,
{
    proof {
        lemma_hpairs_view_from(ps@, 0);
    }
    if i < ps.len() {
        let ghost start = buf@;
        push_key_display(buf, &ps[i].0);
        crate::text::append_str(buf, ": ");
        push_obj_display(buf, &ps[i].1);
        if i + 1 < ps.len() {
            crate::text::append_str(buf, ", ");
            push_pairs_display(buf, ps, i + 1);
        }
        proof {
            assert(buf@ =~= start + display_pairs(hpairs_view_from(ps@, 0), i as int));
        }
    }
}

impl Object {
    /// The display form of this value, as a string.
    pub fn inspect(&self) -> (r: String)
        ensures
            r@ == display_chars(self@),
    {
        let mut buf: Vec<char> = Vec::new();
        push_obj_display(&mut buf, self);
        crate::text::string_from_chars(&buf)
    }
}

} // verus!
