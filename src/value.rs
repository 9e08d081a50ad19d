use vstd::prelude::*;
use vstd::std_specs::vec::axiom_vec_index_decreases;

verus! {

/// A node of the parsed document as the filters see it: its attributes,
/// name and text, in document order.
#[derive(Debug)]
pub struct DocNode {
    pub attributes: Vec<(String, String)>,
}

/// A structure: string keys with their values. Well-formed structures have
/// unique keys; the order of the entries carries no meaning.
pub type Structure = Vec<(String, Value)>;

/// The runtime datum that flows through the filter pipeline.
#[derive(Debug)]
pub enum Value {
    Null,
    Bool(bool),
    Int(i64),
    /// A 64-bit float, held as its IEEE-754 bit pattern.
    Float(u64),
    String(String),
    List(Vec<Value>),
    Structure(Structure),
    Node(DocNode),
}

/// The tag of a value.
#[derive(Clone, Copy, Debug, PartialEq, Eq, Structural)]
pub enum Kind {
    Null,
    Bool,
    Int,
    Float,
    String,
    List,
    Structure,
    Node,
}

/// The result of a coercion that tries its first alternative before the second.
#[derive(Clone, Debug, PartialEq)]
pub enum Or<A, B> {
    A(A),
    B(B),
}

/// Every way in which applying a filter can fail.
#[derive(Clone, Debug, PartialEq)]
pub enum FilterError {
    UnknownFilter(String),
    TypeMismatch { expected: Kind, actual: Kind },
    MissingArgument(String),
    UnexpectedArguments(Vec<String>),
    ParseFailure { text: String, target: Kind },
    IndexOutOfRange { index: i64, len: usize },
    MalformedEntry,
    ContextBindingFailure(String),
}

impl Value {
    pub open spec fn spec_kind(&self) -> Kind {
        match self {
            Value::Null => Kind::Null,
            Value::Bool(_) => Kind::Bool,
            Value::Int(_) => Kind::Int,
            Value::Float(_) => Kind::Float,
            Value::String(_) => Kind::String,
            Value::List(_) => Kind::List,
            Value::Structure(_) => Kind::Structure,
            Value::Node(_) => Kind::Node,
        }
    }

    pub fn kind(&self) -> (r: Kind)
        ensures
            r == self.spec_kind(),
    {
        match self {
            Value::Null => Kind::Null,
            Value::Bool(_) => Kind::Bool,
            Value::Int(_) => Kind::Int,
            Value::Float(_) => Kind::Float,
            Value::String(_) => Kind::String,
            Value::List(_) => Kind::List,
            Value::Structure(_) => Kind::Structure,
            Value::Node(_) => Kind::Node,
        }
    }
}

/// Whether `k` is a key of the entries `s`.
pub open spec fn has_key(s: Seq<(String, Value)>, k: Seq<char>) -> bool {
    exists|i: int| 0 <= i < s.len() && (#[trigger] s[i]).0@ == k
}

/// No key occurs twice among the entries `s`.
pub open spec fn keys_unique(s: Seq<(String, Value)>) -> bool {
    forall|i: int, j: int|
        0 <= i < s.len() && 0 <= j < s.len() && (#[trigger] s[i]).0@ == (#[trigger] s[j]).0@
            ==> i == j
}

/// The value stored under `k` in the entries `s`, whose keys are unique.
pub open spec fn lookup(s: Seq<(String, Value)>, k: Seq<char>) -> Option<Value> {
    if has_key(s, k) {
        let i = choose|i: int| 0 <= i < s.len() && (#[trigger] s[i]).0@ == k;
        Some(s[i].1)
    } else {
        None
    }
}

/// Under unique keys, the entry at `i` is what `lookup` finds for its key.
pub proof fn lemma_lookup_at(s: Seq<(String, Value)>, i: int)
    requires
        keys_unique(s),
        0 <= i < s.len(),
    ensures
        lookup(s, s[i].0@) == Some(s[i].1),
{
    assert(has_key(s, s[i].0@));
}

/// Checks the tag of `v`, failing with a type mismatch that names both kinds.
pub fn expect_kind(v: &Value, expected: Kind) -> (r: Result<(), FilterError>)
    ensures
        r is Ok <==> v.spec_kind() == expected,
        r matches Err(e) ==> e == (FilterError::TypeMismatch { expected, actual: v.spec_kind() }),
{
    let actual = v.kind();
    if actual == expected {
        Ok(())
    } else {
        Err(FilterError::TypeMismatch { expected, actual })
    }
}

/// Coerces a value to a string.
pub fn as_string(v: Value) -> (r: Result<String, FilterError>)
    ensures
        match v {
            Value::String(s) => r == Ok::<String, FilterError>(s),
            _ => r == Err::<String, FilterError>(
                FilterError::TypeMismatch { expected: Kind::String, actual: v.spec_kind() },
            ),
        },
{
    let actual = v.kind();
    match v {
        Value::String(s) => Ok(s),
        _ => Err(FilterError::TypeMismatch { expected: Kind::String, actual }),
    }
}

/// Coerces a value to a list.
pub fn as_list(v: Value) -> (r: Result<Vec<Value>, FilterError>)
    ensures
        match v {
            Value::List(l) => r == Ok::<Vec<Value>, FilterError>(l),
            _ => r == Err::<Vec<Value>, FilterError>(
                FilterError::TypeMismatch { expected: Kind::List, actual: v.spec_kind() },
            ),
        },
{
    let actual = v.kind();
    match v {
        Value::List(l) => Ok(l),
        _ => Err(FilterError::TypeMismatch { expected: Kind::List, actual }),
    }
}

/// Coerces a value to a structure.
pub fn as_structure(v: Value) -> (r: Result<Structure, FilterError>)
    ensures
        match v {
            Value::Structure(s) => r == Ok::<Structure, FilterError>(s),
            _ => r == Err::<Structure, FilterError>(
                FilterError::TypeMismatch { expected: Kind::Structure, actual: v.spec_kind() },
            ),
        },
{
    let actual = v.kind();
    match v {
        Value::Structure(s) => Ok(s),
        _ => Err(FilterError::TypeMismatch { expected: Kind::Structure, actual }),
    }
}

/// Coerces a value to a document node.
pub fn as_node(v: Value) -> (r: Result<DocNode, FilterError>)
    ensures
        match v {
            Value::Node(n) => r == Ok::<DocNode, FilterError>(n),
            _ => r == Err::<DocNode, FilterError>(
                FilterError::TypeMismatch { expected: Kind::Node, actual: v.spec_kind() },
            ),
        },
{
    let actual = v.kind();
    match v {
        Value::Node(n) => Ok(n),
        _ => Err(FilterError::TypeMismatch { expected: Kind::Node, actual }),
    }
}

/// Coerces a value to an integer, else a float, else a string, in that order.
pub fn int_source(v: Value) -> (r: Result<Or<i64, Or<u64, String>>, FilterError>)
    ensures
        match v {
            Value::Int(n) => r == Ok::<_, FilterError>(Or::<i64, Or<u64, String>>::A(n)),
            Value::Float(b) => r == Ok::<_, FilterError>(Or::<i64, Or<u64, String>>::B(Or::A(b))),
            Value::String(s) => r == Ok::<_, FilterError>(Or::<i64, Or<u64, String>>::B(Or::B(s))),
            _ => r == Err::<Or<i64, Or<u64, String>>, FilterError>(
                FilterError::TypeMismatch { expected: Kind::String, actual: v.spec_kind() },
            ),
        },
{
    let actual = v.kind();
    match v {
        Value::Int(n) => Ok(Or::A(n)),
        Value::Float(b) => Ok(Or::B(Or::A(b))),
        Value::String(s) => Ok(Or::B(Or::B(s))),
        _ => Err(FilterError::TypeMismatch { expected: Kind::String, actual }),
    }
}

/// Coerces a value to a float, else an integer, else a string, in that order.
pub fn float_source(v: Value) -> (r: Result<Or<u64, Or<i64, String>>, FilterError>)
    ensures
        match v {
            Value::Float(b) => r == Ok::<_, FilterError>(Or::<u64, Or<i64, String>>::A(b)),
            Value::Int(n) => r == Ok::<_, FilterError>(Or::<u64, Or<i64, String>>::B(Or::A(n))),
            Value::String(s) => r == Ok::<_, FilterError>(Or::<u64, Or<i64, String>>::B(Or::B(s))),
            _ => r == Err::<Or<u64, Or<i64, String>>, FilterError>(
                FilterError::TypeMismatch { expected: Kind::String, actual: v.spec_kind() },
            ),
        },
{
    let actual = v.kind();
    match v {
        Value::Float(b) => Ok(Or::A(b)),
        Value::Int(n) => Ok(Or::B(Or::A(n))),
        Value::String(s) => Ok(Or::B(Or::B(s))),
        _ => Err(FilterError::TypeMismatch { expected: Kind::String, actual }),
    }
}

} // verus!

verus! {

/// `b` holds the same content as `a`: equal scalars and strings, and
/// containers of equal length whose items are copies, item by item.
pub open spec fn copies(a: Value, b: Value) -> bool
    decreases a,
{
    match a {
        Value::List(x) => match b {
            Value::List(y) => x@.len() == y@.len() && forall|i: int|
                0 <= i < x@.len() ==> copies(#[trigger] x[i], y[i]),
            _ => false,
        },
        Value::Structure(x) => match b {
            Value::Structure(y) => x@.len() == y@.len() && forall|i: int|
                0 <= i < x@.len() ==> (#[trigger] x[i]).0@ == y[i].0@ && copies(x[i].1, y[i].1),
            _ => false,
        },
        Value::String(s) => match b {
            Value::String(t) => s@ == t@,
            _ => false,
        },
        Value::Node(n) => match b {
            Value::Node(m) => n.attributes@.len() == m.attributes@.len() && forall|i: int|
                0 <= i < n.attributes@.len() ==> (#[trigger] n.attributes[i]).0@
                    == m.attributes[i].0@ && n.attributes[i].1@ == m.attributes[i].1@,
            _ => false,
        },
        _ => a == b,
    }
}

impl Value {
    /// A copy of this value, item by item.
    pub fn copy(&self) -> (r: Value)
        ensures
            copies(*self, r),
        decreases self,
    {
        match self {
            Value::Null => Value::Null,
            Value::Bool(x) => Value::Bool(*x),
            Value::Int(x) => Value::Int(*x),
            Value::Float(x) => Value::Float(*x),
            Value::String(s) => Value::String(s.clone()),
            Value::List(l) => {
                let mut out: Vec<Value> = Vec::new();
                let mut i: usize = 0;
                while i < l.len()
                    invariant
                        *self == Value::List(*l),
                        i <= l@.len(),
                        out@.len() == i,
                        forall|j: int| 0 <= j < i ==> copies(#[trigger] l[j], out[j]),
                    decreases l@.len() - i,
                {
                    proof {
                        axiom_vec_index_decreases(*l, i as int);
                        assert(decreases_to!(*self => (*self)->List_0));
                        assert(decreases_to!(*self => l[i as int]));
                    }
                    out.push(l[i].copy());
                    i = i + 1;
                }
                Value::List(out)
            },
            Value::Structure(l) => {
                let mut out: Structure = Vec::new();
                let mut i: usize = 0;
                while i < l.len()
                    invariant
                        *self == Value::Structure(*l),
                        i <= l@.len(),
                        out@.len() == i,
                        forall|j: int|
                            0 <= j < i ==> (#[trigger] l[j]).0@ == out[j].0@ && copies(l[j].1, out[j].1),
                    decreases l@.len() - i,
                {
                    proof {
                        axiom_vec_index_decreases(*l, i as int);
                        assert(decreases_to!(*self => (*self)->Structure_0));
                        assert(decreases_to!(l[i as int] => l[i as int].1));
                        assert(decreases_to!(*self => l[i as int].1));
                    }
                    out.push((l[i].0.clone(), l[i].1.copy()));
                    i = i + 1;
                }
                Value::Structure(out)
            },
            Value::Node(n) => {
                let mut out: Vec<(String, String)> = Vec::new();
                let mut i: usize = 0;
                while i < n.attributes.len()
                    invariant
                        i <= n.attributes@.len(),
                        out@.len() == i,
                        forall|j: int|
                            0 <= j < i ==> (#[trigger] n.attributes[j]).0@ == out[j].0@
                                && n.attributes[j].1@ == out[j].1@,
                    decreases n.attributes@.len() - i,
                {
                    out.push((n.attributes[i].0.clone(), n.attributes[i].1.clone()));
                    i = i + 1;
                }
                Value::Node(DocNode { attributes: out })
            },
        }
    }
}

} // verus!
