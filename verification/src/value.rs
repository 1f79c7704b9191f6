use vstd::prelude::*;

use std::rc::Rc;
use crate::chunk::{Chunk, ChunkM, cmodel, chunk_eq_spec};
use crate::util::rc_clone;

verus! {

broadcast use vstd::std_specs::vec::group_vec_axioms;

/// A captured binding slot of a closure: either a reference into the live
/// value stack (open) or an owned value hoisted off the stack (closed).
/// Closures hold indices into the virtual machine's upvalue table, so the
/// slots themselves live in one arena and need no interior mutability.
#[derive(Debug)]
pub enum Upvalue {
    /// Refers to an absolute slot of the value stack of a live frame.
    Open(usize),
    /// Owns the value; the referenced frame has returned.
    Closed(Value),
}

/// A compiled function together with its captured environment.
#[derive(Debug)]
pub struct Closure {
    /// The code of the function body.
    pub chunk: Rc<Chunk>,
    /// Number of parameters the body expects as its first locals.
    pub arity: usize,
    /// Indices into the virtual machine's upvalue table.
    pub upvalues: Vec<usize>,
}

/// Runtime representation of every value the machine manipulates.
///
/// Floating-point numbers are carried as their raw IEEE-754 bit pattern;
/// equality on them compares bit patterns, except that a NaN is never
/// equal to anything, itself included.
#[derive(Debug)]
pub enum Value {
    Int(i64),
    /// IEEE-754 double, stored as its bit pattern.
    Float(u64),
    Bool(bool),
    Str(String),
    Unit,
    /// The empty cons-list.
    Nil,
    /// A cons cell; a well-formed tail is `Nil` or another `Cons`.
    Cons { head: Rc<Value>, tail: Rc<Value> },
    Tuple(Vec<Value>),
    /// Ordered field name to value mapping; field order is significant.
    Record(Vec<(String, Value)>),
    /// An instance of a discriminated union constructor.
    Variant { tag: String, ctor: String, fields: Vec<Value> },
    /// A string-keyed mapping, kept sorted by key with unique keys.
    Table(Vec<(String, Value)>),
    Closure(Rc<Closure>),
    /// A host function reference with any partially applied arguments.
    NativeFn { name: String, arity: usize, args: Vec<Value> },
    /// A handle to asynchronous work, or a pre-computed value.
    Async(AsyncValue),
}

/// Unique identifier for a task handed to the asynchronous worker.
#[derive(Debug, Clone, Copy, PartialEq, Eq, Hash, Structural)]
pub struct TaskId(pub u64);

impl TaskId {
    /// Wrap a raw identifier.
    pub fn new(raw: u64) -> (r: TaskId)
        ensures
            r.0 == raw,
    {
        TaskId(raw)
    }

    /// The raw identifier value.
    pub fn raw(&self) -> (r: u64)
        ensures
            r == self.0,
    {
        self.0
    }
}

/// Either a reference to scheduled work or an already computed value.
#[derive(Debug)]
pub enum AsyncValue {
    Task(TaskId),
    Value(Box<Value>),
}

/// The mathematical shape of a runtime value: strings become character
/// sequences and vectors become sequences, so that two values with the
/// same contents have equal models. All contracts speak of models.
pub enum ValueM {
    Int(i64),
    Float(u64),
    Bool(bool),
    Str(Seq<char>),
    Unit,
    Nil,
    Cons(Box<ValueM>, Box<ValueM>),
    Tuple(Seq<ValueM>),
    Record(Seq<(Seq<char>, ValueM)>),
    Variant { tag: Seq<char>, ctor: Seq<char>, fields: Seq<ValueM> },
    Table(Seq<(Seq<char>, ValueM)>),
    Closure(ClosureM),
    NativeFn { name: Seq<char>, arity: usize, args: Seq<ValueM> },
    AsyncTask(u64),
    AsyncValue(Box<ValueM>),
}

/// The mathematical shape of a closure.
pub struct ClosureM {
    pub chunk: ChunkM,
    pub arity: usize,
    pub upvalues: Seq<usize>,
}

/// The model of a value.
pub open spec fn vmodel(v: Value) -> ValueM
    decreases v,
{
    match v {
        Value::Int(n) => ValueM::Int(n),
        Value::Float(b) => ValueM::Float(b),
        Value::Bool(b) => ValueM::Bool(b),
        Value::Str(s) => ValueM::Str(s@),
        Value::Unit => ValueM::Unit,
        Value::Nil => ValueM::Nil,
        Value::Cons { head, tail } => ValueM::Cons(
            Box::new(vmodel(*head)),
            Box::new(vmodel(*tail)),
        ),
        Value::Tuple(xs) => ValueM::Tuple(models_of(xs@)),
        Value::Record(xs) => ValueM::Record(fmodels_of(xs@)),
        Value::Variant { tag, ctor, fields } => ValueM::Variant {
            tag: tag@,
            ctor: ctor@,
            fields: models_of(fields@),
        },
        Value::Table(xs) => ValueM::Table(fmodels_of(xs@)),
        Value::Closure(c) => ValueM::Closure(clmodel(*c)),
        Value::NativeFn { name, arity, args } => ValueM::NativeFn {
            name: name@,
            arity,
            args: models_of(args@),
        },
        Value::Async(a) => match a {
            AsyncValue::Task(id) => ValueM::AsyncTask(id.0),
            AsyncValue::Value(v) => ValueM::AsyncValue(Box::new(vmodel(*v))),
        },
    }
}

/// The models of a sequence of values, in order.
pub open spec fn models_of(s: Seq<Value>) -> Seq<ValueM>
    decreases s,
{
    if s.len() == 0 {
        Seq::<ValueM>::empty()
    } else {
        seq![vmodel(s[0])] + models_of(s.skip(1))
    }
}

/// The models of a sequence of name/value pairs, in order.
pub open spec fn fmodels_of(s: Seq<(String, Value)>) -> Seq<(Seq<char>, ValueM)>
    decreases s,
{
    if s.len() == 0 {
        Seq::<(Seq<char>, ValueM)>::empty()
    } else {
        seq![(s[0].0@, vmodel(s[0].1))] + fmodels_of(s.skip(1))
    }
}

/// The model of a closure.
pub open spec fn clmodel(c: Closure) -> ClosureM
    decreases c,
{
    ClosureM { chunk: cmodel(*c.chunk), arity: c.arity, upvalues: c.upvalues@ }
}

/// `models_of` maps the model over the sequence pointwise.
pub proof fn lemma_models_of(s: Seq<Value>)
    ensures
        models_of(s).len() == s.len(),
        forall|i: int| 0 <= i < s.len() ==> models_of(s)[i] == vmodel(#[trigger] s[i]),
    decreases s,
{
    if s.len() > 0 {
        lemma_models_of(s.skip(1));
        assert forall|i: int| 0 <= i < s.len() implies models_of(s)[i]
            == vmodel(#[trigger] s[i]) by {
            if i > 0 {
                assert(s.skip(1)[i - 1] == s[i]);
                assert(models_of(s)[i] == models_of(s.skip(1))[i - 1]);
            }
        }
    }
}

/// `fmodels_of` maps the model over the pair sequence pointwise.
pub proof fn lemma_fmodels_of(s: Seq<(String, Value)>)
    ensures
        fmodels_of(s).len() == s.len(),
        forall|i: int| 0 <= i < s.len() ==> fmodels_of(s)[i]
            == ((#[trigger] s[i]).0@, vmodel(s[i].1)),
    decreases s,
{
    if s.len() > 0 {
        lemma_fmodels_of(s.skip(1));
        assert forall|i: int| 0 <= i < s.len() implies fmodels_of(s)[i]
            == ((#[trigger] s[i]).0@, vmodel(s[i].1)) by {
            if i > 0 {
                assert(s.skip(1)[i - 1] == s[i]);
                assert(fmodels_of(s)[i] == fmodels_of(s.skip(1))[i - 1]);
            }
        }
    }
}

impl Closure {
    /// Build a closure over `chunk` expecting `arity` arguments and
    /// capturing nothing.
    pub fn with_arity(chunk: Chunk, arity: usize) -> (r: Closure)
        ensures
            clmodel(r) == (ClosureM {
                chunk: cmodel(chunk),
                arity,
                upvalues: Seq::<usize>::empty(),
            }),
    {
        let r = Closure { chunk: Rc::new(chunk), arity, upvalues: Vec::new() };
        proof {
            assert(r.upvalues@ =~= Seq::<usize>::empty());
        }
        r
    }
}

/// Whether a 64-bit pattern encodes an IEEE-754 NaN: all exponent bits set
/// and a non-zero mantissa.
pub open spec fn spec_is_nan_bits(b: u64) -> bool {
    (b >> 52) & 0x7ff == 0x7ff && b & 0xf_ffff_ffff_ffff != 0
}

/// Runtime check matching `spec_is_nan_bits`.
pub fn is_nan_bits(b: u64) -> (r: bool)
    ensures
        r == spec_is_nan_bits(b),
{
    (b >> 52) & 0x7ff == 0x7ff && b & 0xf_ffff_ffff_ffff != 0
}

/// Structural equality of two values, the meaning of the machine's `Eq`
/// instruction and of `==` on `Value`. It differs from equality of the
/// models in one point only: a NaN float is not equal to itself.
pub open spec fn value_eq_spec(a: ValueM, b: ValueM) -> bool
    decreases a,
{
    match (a, b) {
        (ValueM::Int(x), ValueM::Int(y)) => x == y,
        (ValueM::Float(x), ValueM::Float(y)) => x == y && !spec_is_nan_bits(x),
        (ValueM::Bool(x), ValueM::Bool(y)) => x == y,
        (ValueM::Str(x), ValueM::Str(y)) => x == y,
        (ValueM::Unit, ValueM::Unit) => true,
        (ValueM::Nil, ValueM::Nil) => true,
        (ValueM::Cons(h1, t1), ValueM::Cons(h2, t2)) =>
            value_eq_spec(*h1, *h2) && value_eq_spec(*t1, *t2),
        (ValueM::Tuple(xs), ValueM::Tuple(ys)) => seq_values_eq_spec(xs, ys),
        (ValueM::Record(xs), ValueM::Record(ys)) => seq_fields_eq_spec(xs, ys),
        (ValueM::Variant { tag: t1, ctor: c1, fields: f1 },
         ValueM::Variant { tag: t2, ctor: c2, fields: f2 }) =>
            t1 == t2 && c1 == c2 && seq_values_eq_spec(f1, f2),
        (ValueM::Table(xs), ValueM::Table(ys)) => seq_fields_eq_spec(xs, ys),
        (ValueM::Closure(c1), ValueM::Closure(c2)) =>
            chunk_eq_spec(c1.chunk, c2.chunk) && c1.arity == c2.arity
                && c1.upvalues == c2.upvalues,
        (ValueM::NativeFn { name: n1, arity: a1, args: g1 },
         ValueM::NativeFn { name: n2, arity: a2, args: g2 }) =>
            n1 == n2 && a1 == a2 && seq_values_eq_spec(g1, g2),
        (ValueM::AsyncTask(x), ValueM::AsyncTask(y)) => x == y,
        (ValueM::AsyncValue(x), ValueM::AsyncValue(y)) => value_eq_spec(*x, *y),
        _ => false,
    }
}

/// Pointwise `value_eq_spec` over two model sequences.
pub open spec fn seq_values_eq_spec(a: Seq<ValueM>, b: Seq<ValueM>) -> bool
    decreases a,
{
    a.len() == b.len()
        && (forall|i: int| 0 <= i < a.len() ==> value_eq_spec(#[trigger] a[i], b[i]))
}

/// Pointwise name and `value_eq_spec` equality over two pair sequences.
pub open spec fn seq_fields_eq_spec(
    a: Seq<(Seq<char>, ValueM)>,
    b: Seq<(Seq<char>, ValueM)>,
) -> bool
    decreases a,
{
    a.len() == b.len()
        && (forall|i: int| 0 <= i < a.len()
            ==> (#[trigger] a[i]).0 == b[i].0 && value_eq_spec(a[i].1, b[i].1))
}

/// The sequence of elements of a cons-list model, or `None` where the
/// value is not list-shaped (its spine must consist of `Cons` cells
/// ending in `Nil`).
pub open spec fn list_model(m: ValueM) -> Option<Seq<ValueM>>
    decreases m,
{
    match m {
        ValueM::Nil => Some(Seq::<ValueM>::empty()),
        ValueM::Cons(head, tail) => match list_model(*tail) {
            Some(s) => Some(seq![*head] + s),
            None => None,
        },
        _ => None,
    }
}

/// The stable name of a value's kind, used in type-mismatch diagnostics.
pub open spec fn kind_name_spec(m: ValueM) -> Seq<char> {
    match m {
        ValueM::Int(_) => "int"@,
        ValueM::Float(_) => "float"@,
        ValueM::Bool(_) => "bool"@,
        ValueM::Str(_) => "string"@,
        ValueM::Unit => "unit"@,
        ValueM::Nil => "list"@,
        ValueM::Cons(_, _) => "list"@,
        ValueM::Tuple(_) => "tuple"@,
        ValueM::Record(_) => "record"@,
        ValueM::Variant { .. } => "variant"@,
        ValueM::Table(_) => "map"@,
        ValueM::Closure(_) => "closure"@,
        ValueM::NativeFn { .. } => "function"@,
        ValueM::AsyncTask(_) => "async"@,
        ValueM::AsyncValue(_) => "async"@,
    }
}

/// Whether a value counts as true when tested by a conditional jump:
/// `Bool(false)` is the only falsy value.
pub open spec fn spec_is_truthy(m: ValueM) -> bool {
    !(m matches ValueM::Bool(false))
}

impl Value {
    /// The model of this value.
    pub open spec fn model(&self) -> ValueM {
        vmodel(*self)
    }

    /// The stable name of this value's kind.
    pub fn kind_name(&self) -> (r: &'static str)
        ensures
            r@ == kind_name_spec(vmodel(*self)),
    {
        match self {
            Value::Int(_) => "int",
            Value::Float(_) => "float",
            Value::Bool(_) => "bool",
            Value::Str(_) => "string",
            Value::Unit => "unit",
            Value::Nil => "list",
            Value::Cons { .. } => "list",
            Value::Tuple(_) => "tuple",
            Value::Record(_) => "record",
            Value::Variant { .. } => "variant",
            Value::Table(_) => "map",
            Value::Closure(_) => "closure",
            Value::NativeFn { .. } => "function",
            Value::Async(_) => "async",
        }
    }

    /// The integer carried by an `Int`, if this is one.
    pub fn as_int(&self) -> (r: Option<i64>)
        ensures
            r == match vmodel(*self) {
                ValueM::Int(n) => Some(n),
                _ => None::<i64>,
            },
    {
        match self {
            Value::Int(n) => Some(*n),
            _ => None,
        }
    }

    /// The string carried by a `Str`, if this is one.
    pub fn as_str(&self) -> (r: Option<&str>)
        ensures
            match r {
                Some(s) => vmodel(*self) matches ValueM::Str(t) && s@ == t,
                None => !(vmodel(*self) matches ValueM::Str(_)),
            },
    {
        match self {
            Value::Str(s) => Some(s.as_str()),
            _ => None,
        }
    }

    /// The boolean carried by a `Bool`, if this is one.
    pub fn as_bool(&self) -> (r: Option<bool>)
        ensures
            r == match vmodel(*self) {
                ValueM::Bool(b) => Some(b),
                _ => None::<bool>,
            },
    {
        match self {
            Value::Bool(b) => Some(*b),
            _ => None,
        }
    }

    /// Runtime check matching `spec_is_truthy`.
    pub fn is_truthy(&self) -> (r: bool)
        ensures
            r == spec_is_truthy(vmodel(*self)),
    {
        match self {
            Value::Bool(b) => *b,
            _ => true,
        }
    }

    /// A value with the same model. Unlike `clone`, contracts can rely on
    /// its result.
    pub fn duplicate(&self) -> (r: Value)
        ensures
            vmodel(r) == vmodel(*self),
        decreases *self,
    {
        match self {
            Value::Int(n) => Value::Int(*n),
            Value::Float(b) => Value::Float(*b),
            Value::Bool(b) => Value::Bool(*b),
            Value::Str(s) => Value::Str(s.clone()),
            Value::Unit => Value::Unit,
            Value::Nil => Value::Nil,
            Value::Cons { head, tail } => Value::Cons {
                head: rc_clone(head),
                tail: rc_clone(tail),
            },
            Value::Tuple(xs) => Value::Tuple(dup_values(xs)),
            Value::Record(xs) => Value::Record(dup_fields(xs)),
            Value::Variant { tag, ctor, fields } => Value::Variant {
                tag: tag.clone(),
                ctor: ctor.clone(),
                fields: dup_values(fields),
            },
            Value::Table(xs) => Value::Table(dup_fields(xs)),
            Value::Closure(c) => Value::Closure(rc_clone(c)),
            Value::NativeFn { name, arity, args } => Value::NativeFn {
                name: name.clone(),
                arity: *arity,
                args: dup_values(args),
            },
            Value::Async(a) => Value::Async(match a {
                AsyncValue::Task(id) => AsyncValue::Task(*id),
                AsyncValue::Value(v) => AsyncValue::Value(Box::new(v.duplicate())),
            }),
        }
    }

    /// Build a cons-list holding the elements of `items` in order.
    pub fn vec_to_cons(items: Vec<Value>) -> (r: Value)
        ensures
            list_model(vmodel(r)) == Some(models_of(items@)),
    {
        let ghost all = items@;
        let mut rest = items;
        let mut acc = Value::Nil;
        while rest.len() > 0
            invariant
                rest@.len() <= all.len(),
                rest@ == all.take(rest@.len() as int),
                list_model(vmodel(acc)) == Some(models_of(all.skip(rest@.len() as int))),
            decreases rest@.len(),
        {
            let ghost n = rest@.len() as int;
            let head = rest.pop().unwrap();
            proof {
                assert(head == all[n - 1]);
                assert(rest@ =~= all.take(n - 1));
                lemma_models_of_skip_unfold(all, n - 1);
            }
            acc = Value::Cons { head: Rc::new(head), tail: Rc::new(acc) };
        }
        proof {
            assert(all.skip(0) =~= all);
        }
        acc
    }

    /// The elements of a cons-list in order, or `None` where the value is
    /// not list-shaped.
    pub fn cons_to_vec(v: &Value) -> (r: Option<Vec<Value>>)
        ensures
            match r {
                Some(xs) => list_model(vmodel(*v)) == Some(models_of(xs@)),
                None => list_model(vmodel(*v)) is None,
            },
    {
        let mut out: Vec<Value> = Vec::new();
        let mut cur: &Value = v;
        proof {
            assert(models_of(out@) =~= Seq::<ValueM>::empty());
        }
        loop
            invariant
                list_model(vmodel(*v)) == match list_model(vmodel(*cur)) {
                    Some(s) => Some(models_of(out@) + s),
                    None => None::<Seq<ValueM>>,
                },
            decreases *cur,
        {
            match cur {
                Value::Nil => {
                    proof {
                        assert(models_of(out@) + Seq::<ValueM>::empty() =~= models_of(out@));
                    }
                    return Some(out);
                },
                Value::Cons { head, tail } => {
                    let ghost prev = out@;
                    out.push(head.duplicate());
                    cur = &**tail;
                    proof {
                        lemma_models_of_push(prev, out@.last());
                        assert(out@ =~= prev.push(out@.last()));
                        if list_model(vmodel(*cur)) is Some {
                            let s = list_model(vmodel(*cur)).unwrap();
                            assert(models_of(prev) + (seq![vmodel(out@.last())] + s)
                                =~= models_of(prev.push(out@.last())) + s);
                        }
                    }
                },
                _ => {
                    return None;
                },
            }
        }
    }

    /// The elements of this cons-list in order, or `None` where it is not
    /// list-shaped.
    pub fn list_to_vec(&self) -> (r: Option<Vec<Value>>)
        ensures
            match r {
                Some(xs) => list_model(vmodel(*self)) == Some(models_of(xs@)),
                None => list_model(vmodel(*self)) is None,
            },
    {
        Value::cons_to_vec(self)
    }

    /// Structural equality, as the machine's `Eq` instruction sees it.
    pub fn value_eq(&self, other: &Value) -> (r: bool)
        ensures
            r == value_eq_spec(vmodel(*self), vmodel(*other)),
        decreases *self,
    {
        match (self, other) {
            (Value::Int(x), Value::Int(y)) => x == y,
            (Value::Float(x), Value::Float(y)) => *x == *y && !is_nan_bits(*x),
            (Value::Bool(x), Value::Bool(y)) => x == y,
            (Value::Str(x), Value::Str(y)) => str_eq(x.as_str(), y.as_str()),
            (Value::Unit, Value::Unit) => true,
            (Value::Nil, Value::Nil) => true,
            (Value::Cons { head: h1, tail: t1 }, Value::Cons { head: h2, tail: t2 }) =>
                h1.value_eq(h2) && t1.value_eq(t2),
            (Value::Tuple(xs), Value::Tuple(ys)) => values_eq(xs, ys),
            (Value::Record(xs), Value::Record(ys)) => fields_eq(xs, ys),
            (Value::Variant { tag: tn1, ctor: vn1, fields: f1 },
             Value::Variant { tag: tn2, ctor: vn2, fields: f2 }) =>
                str_eq(tn1.as_str(), tn2.as_str())
                    && str_eq(vn1.as_str(), vn2.as_str())
                    && values_eq(f1, f2),
            (Value::Table(xs), Value::Table(ys)) => fields_eq(xs, ys),
            (Value::Closure(c1), Value::Closure(c2)) => closure_eq(&**c1, &**c2),
            (Value::NativeFn { name: n1, arity: a1, args: g1 },
             Value::NativeFn { name: n2, arity: a2, args: g2 }) =>
                str_eq(n1.as_str(), n2.as_str()) && *a1 == *a2 && values_eq(g1, g2),
            (Value::Async(x), Value::Async(y)) => match (x, y) {
                (AsyncValue::Task(s), AsyncValue::Task(t)) => s.0 == t.0,
                (AsyncValue::Value(p), AsyncValue::Value(q)) => p.value_eq(q),
                _ => false,
            },
            _ => false,
        }
    }
}

/// Unfolding `models_of` one step from the left of a suffix.
proof fn lemma_models_of_skip_unfold(s: Seq<Value>, i: int)
    requires
        0 <= i < s.len(),
    ensures
        models_of(s.skip(i)) == seq![vmodel(s[i])] + models_of(s.skip(i + 1)),
{
    assert(s.skip(i).len() > 0);
    assert(s.skip(i)[0] == s[i]);
    assert(s.skip(i).skip(1) =~= s.skip(i + 1));
}

/// `models_of` distributes over `push`.
pub proof fn lemma_models_of_push(s: Seq<Value>, v: Value)
    ensures
        models_of(s.push(v)) == models_of(s).push(vmodel(v)),
{
    lemma_models_of(s.push(v));
    lemma_models_of(s);
    assert forall|i: int| 0 <= i < s.len() + 1 implies models_of(s.push(v))[i]
        == models_of(s).push(vmodel(v))[i] by {
        assert(models_of(s.push(v))[i] == vmodel(s.push(v)[i]));
        if i < s.len() {
            assert(s.push(v)[i] == s[i]);
        } else {
            assert(s.push(v)[i] == v);
        }
    }
    assert(models_of(s.push(v)) =~= models_of(s).push(vmodel(v)));
}

/// `fmodels_of` distributes over `push`.
pub proof fn lemma_fmodels_of_push(s: Seq<(String, Value)>, p: (String, Value))
    ensures
        fmodels_of(s.push(p)) == fmodels_of(s).push((p.0@, vmodel(p.1))),
{
    lemma_fmodels_of(s.push(p));
    lemma_fmodels_of(s);
    assert forall|i: int| 0 <= i < s.len() + 1 implies fmodels_of(s.push(p))[i]
        == fmodels_of(s).push((p.0@, vmodel(p.1)))[i] by {
        assert(fmodels_of(s.push(p))[i] == (s.push(p)[i].0@, vmodel(s.push(p)[i].1)));
        if i < s.len() {
            assert(s.push(p)[i] == s[i]);
        } else {
            assert(s.push(p)[i] == p);
        }
    }
    assert(fmodels_of(s.push(p)) =~= fmodels_of(s).push((p.0@, vmodel(p.1))));
}

/// String equality by contents.
pub(crate) fn str_eq(a: &str, b: &str) -> (r: bool)
    ensures
        r == (a@ == b@),
{
    let ab = a.as_bytes();
    let bb = b.as_bytes();
    proof {
        vstd::utf8::encode_utf8_decode_utf8(a@);
        vstd::utf8::encode_utf8_decode_utf8(b@);
    }
    slice_bytes_eq(ab, bb)
}

/// Byte-slice equality.
fn slice_bytes_eq(a: &[u8], b: &[u8]) -> (r: bool)
    ensures
        r == (a@ == b@),
{
    if a.len() != b.len() {
        proof {
            assert(a@.len() != b@.len());
        }
        return false;
    }
    let mut i: usize = 0;
    while i < a.len()
        invariant
            i <= a@.len(),
            a@.len() == b@.len(),
            forall|j: int| 0 <= j < i ==> a@[j] == b@[j],
        decreases a@.len() - i,
    {
        if a[i] != b[i] {
            return false;
        }
        i = i + 1;
    }
    proof {
        assert(a@ =~= b@);
    }
    true
}

/// Pointwise structural equality of two value vectors.
pub(crate) fn values_eq(a: &Vec<Value>, b: &Vec<Value>) -> (r: bool)
    ensures
        r == seq_values_eq_spec(models_of(a@), models_of(b@)),
    decreases *a,
{
    proof {
        lemma_models_of(a@);
        lemma_models_of(b@);
    }
    if a.len() != b.len() {
        return false;
    }
    let mut i: usize = 0;
    while i < a.len()
        invariant
            i <= a@.len(),
            a@.len() == b@.len(),
            models_of(a@).len() == a@.len(),
            models_of(b@).len() == b@.len(),
            forall|j: int| 0 <= j < a@.len() ==> models_of(a@)[j] == vmodel(#[trigger] a@[j]),
            forall|j: int| 0 <= j < b@.len() ==> models_of(b@)[j] == vmodel(#[trigger] b@[j]),
            forall|j: int| 0 <= j < i ==> value_eq_spec(
                #[trigger] models_of(a@)[j],
                models_of(b@)[j],
            ),
        decreases a@.len() - i,
    {
        if !a[i].value_eq(&b[i]) {
            return false;
        }
        i = i + 1;
    }
    true
}

/// Pointwise structural equality of two name/value pair vectors.
pub(crate) fn fields_eq(a: &Vec<(String, Value)>, b: &Vec<(String, Value)>) -> (r: bool)
    ensures
        r == seq_fields_eq_spec(fmodels_of(a@), fmodels_of(b@)),
    decreases *a,
{
    proof {
        lemma_fmodels_of(a@);
        lemma_fmodels_of(b@);
    }
    if a.len() != b.len() {
        return false;
    }
    let mut i: usize = 0;
    while i < a.len()
        invariant
            i <= a@.len(),
            a@.len() == b@.len(),
            fmodels_of(a@).len() == a@.len(),
            fmodels_of(b@).len() == b@.len(),
            forall|j: int| 0 <= j < a@.len() ==> fmodels_of(a@)[j]
                == ((#[trigger] a@[j]).0@, vmodel(a@[j].1)),
            forall|j: int| 0 <= j < b@.len() ==> fmodels_of(b@)[j]
                == ((#[trigger] b@[j]).0@, vmodel(b@[j].1)),
            forall|j: int| 0 <= j < i ==> (#[trigger] fmodels_of(a@)[j]).0
                == fmodels_of(b@)[j].0
                && value_eq_spec(fmodels_of(a@)[j].1, fmodels_of(b@)[j].1),
        decreases a@.len() - i,
    {
        if !str_eq(a[i].0.as_str(), b[i].0.as_str()) {
            return false;
        }
        if !a[i].1.value_eq(&b[i].1) {
            return false;
        }
        i = i + 1;
    }
    true
}

/// Equality of closures: same code, arity, and captured slots.
pub(crate) fn closure_eq(a: &Closure, b: &Closure) -> (r: bool)
    ensures
        r == (chunk_eq_spec(clmodel(*a).chunk, clmodel(*b).chunk)
            && clmodel(*a).arity == clmodel(*b).arity
            && clmodel(*a).upvalues == clmodel(*b).upvalues),
    decreases *a,
{
    if !crate::chunk::chunk_eq(&a.chunk, &b.chunk) {
        return false;
    }
    if a.arity != b.arity {
        return false;
    }
    if a.upvalues.len() != b.upvalues.len() {
        proof {
            assert(a.upvalues@.len() != b.upvalues@.len());
        }
        return false;
    }
    let mut i: usize = 0;
    while i < a.upvalues.len()
        invariant
            i <= a.upvalues@.len(),
            a.upvalues@.len() == b.upvalues@.len(),
            forall|j: int| 0 <= j < i ==> a.upvalues@[j] == b.upvalues@[j],
        decreases a.upvalues@.len() - i,
    {
        if a.upvalues[i] != b.upvalues[i] {
            return false;
        }
        i = i + 1;
    }
    proof {
        assert(a.upvalues@ =~= b.upvalues@);
    }
    true
}

/// A vector of values with the same models, in order.
pub(crate) fn dup_values(xs: &Vec<Value>) -> (r: Vec<Value>)
    ensures
        models_of(r@) == models_of(xs@),
    decreases *xs,
{
    let mut out: Vec<Value> = Vec::new();
    let mut i: usize = 0;
    proof {
        lemma_models_of(xs@);
    }
    while i < xs.len()
        invariant
            i <= xs@.len(),
            models_of(xs@).len() == xs@.len(),
            forall|j: int| 0 <= j < xs@.len() ==> models_of(xs@)[j]
                == vmodel(#[trigger] xs@[j]),
            models_of(out@) == models_of(xs@).take(i as int),
        decreases xs@.len() - i,
    {
        let ghost prev = out@;
        out.push(xs[i].duplicate());
        proof {
            lemma_models_of_push(prev, out@.last());
            assert(out@ =~= prev.push(out@.last()));
            assert(models_of(xs@).take(i + 1)
                =~= models_of(xs@).take(i as int).push(models_of(xs@)[i as int]));
        }
        i = i + 1;
    }
    proof {
        assert(models_of(xs@).take(xs@.len() as int) =~= models_of(xs@));
    }
    out
}

/// A pair vector with the same models.
pub(crate) fn dup_fields(xs: &Vec<(String, Value)>) -> (r: Vec<(String, Value)>)
    ensures
        fmodels_of(r@) == fmodels_of(xs@),
    decreases *xs,
{
    let mut out: Vec<(String, Value)> = Vec::new();
    let mut i: usize = 0;
    proof {
        lemma_fmodels_of(xs@);
    }
    while i < xs.len()
        invariant
            i <= xs@.len(),
            fmodels_of(xs@).len() == xs@.len(),
            forall|j: int| 0 <= j < xs@.len() ==> fmodels_of(xs@)[j]
                == ((#[trigger] xs@[j]).0@, vmodel(xs@[j].1)),
            fmodels_of(out@) == fmodels_of(xs@).take(i as int),
        decreases xs@.len() - i,
    {
        let ghost prev = out@;
        out.push((xs[i].0.clone(), xs[i].1.duplicate()));
        proof {
            lemma_fmodels_of_push(prev, out@.last());
            assert(out@ =~= prev.push(out@.last()));
            assert(fmodels_of(xs@).take(i + 1)
                =~= fmodels_of(xs@).take(i as int).push(fmodels_of(xs@)[i as int]));
        }
        i = i + 1;
    }
    proof {
        assert(fmodels_of(xs@).take(xs@.len() as int) =~= fmodels_of(xs@));
    }
    out
}

impl Clone for Value {
    /// A copy with the same model.
    fn clone(&self) -> (r: Value)
        ensures
            vmodel(r) == vmodel(*self),
    {
        self.duplicate()
    }
}

impl PartialEq for Value {
    /// Structural equality; a NaN float is not equal to itself.
    fn eq(&self, other: &Value) -> (r: bool) {
        self.value_eq(other)
    }
}

impl vstd::std_specs::cmp::PartialEqSpecImpl for Value {
    open spec fn obeys_eq_spec() -> bool {
        true
    }

    open spec fn eq_spec(&self, other: &Value) -> bool {
        value_eq_spec(vmodel(*self), vmodel(*other))
    }
}

/// Building a cons-list from a sequence of elements and reading it back
/// returns the same elements: `vec_to_cons` yields a value whose list
/// model is exactly the models of its input, and `cons_to_vec` returns
/// elements whose models are exactly the list model of its input, so the
/// round trip preserves every element.
pub proof fn lemma_cons_list_round_trip(xs: Seq<Value>, mid: Value, out: Seq<Value>)
    requires
        list_model(vmodel(mid)) == Some(models_of(xs)),
        list_model(vmodel(mid)) == Some(models_of(out)),
    ensures
        models_of(out) == models_of(xs),
{
}

} // verus!
