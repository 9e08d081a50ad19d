use vstd::prelude::*;
use crate::context::Context;
use crate::numeric::{float_to_int, parse_i64, parsed_i64, truncate_float};
use crate::value::{
    copies, has_key, keys_unique, lemma_lookup_at, lookup, DocNode, FilterError, Kind, Or,
    Structure, Value,
};

verus! {

/// The text `s` with leading and trailing whitespace removed.
pub uninterp spec fn trimmed(s: Seq<char>) -> Seq<char>;

/// Relies on `str::trim`: the result depends on the text alone.
#[verifier::external_body]
fn trim_text(s: &str) -> (r: String)
    ensures
        r@ == trimmed(s@),
{
    s.trim().to_string()
}

/// The message a `dbg` record carries when none is given.
pub open spec fn default_dbg_message() -> Seq<char> {
    seq!['d', 'b', 'g', ' ', 'm', 'e', 's', 's', 'a', 'g', 'e']
}

/// Passes the value through.
pub fn id(value: Value) -> (r: Result<Value, FilterError>)
    ensures
        r == Ok::<Value, FilterError>(value),
{
    Ok(value)
}

/// What `dbg` returns and how it changes the context.
pub open spec fn dbg_result(value: Value, msg: Option<String>, c0: Context, c1: Context, r: Result<Value, FilterError>) -> bool {
    &&& r == Ok::<Value, FilterError>(value)
    &&& c1.vars == c0.vars
    &&& c1.diagnostics@.len() == c0.diagnostics@.len() + 1
    &&& c1.diagnostics@.drop_last() == c0.diagnostics@
    &&& copies(value, c1.diagnostics@.last().0)
    &&& c1.diagnostics@.last().1@ == match msg {
        Some(m) => m@,
        None => default_dbg_message(),
    }
}

/// Passes the value through, recording a copy of it with `msg` (or a default
/// message) as a diagnostic.
pub fn dbg(value: Value, msg: Option<String>, ctx: &mut Context) -> (r: Result<Value, FilterError>)
    ensures
        dbg_result(value, msg, *old(ctx), *final(ctx), r),
{
    let text = match msg {
        Some(m) => m,
        None => {
            let t = String::from_str("dbg message");
            proof {
                reveal_strlit("dbg message");
            }
            t
        },
    };
    ctx.diagnostics.push((value.copy(), text));
    proof {
        assert(ctx.diagnostics@.drop_last() == old(ctx).diagnostics@);
        assert(ctx.vars == old(ctx).vars);
        assert(copies(value, ctx.diagnostics@.last().0));
        assert(ctx.diagnostics@.last().1@ == match msg {
            Some(m) => m@,
            None => default_dbg_message(),
        });
    }
    Ok(value)
}

/// What `tee` returns and how it changes the context.
pub open spec fn tee_result(value: Value, into: String, c0: Context, c1: Context, r: Result<Value, FilterError>) -> bool {
    &&& c1.diagnostics == c0.diagnostics
    &&& has_key(c0.vars@, into@) ==> r == Err::<Value, FilterError>(
        FilterError::ContextBindingFailure(into),
    ) && c1.vars == c0.vars
    &&& !has_key(c0.vars@, into@) ==> {
        &&& r == Ok::<Value, FilterError>(value)
        &&& c1.vars@.len() == c0.vars@.len() + 1
        &&& c1.vars@.drop_last() == c0.vars@
        &&& c1.vars@.last().0 == into
        &&& copies(value, c1.vars@.last().1)
    }
}

/// Binds a copy of the value to the variable `into` and passes the value through.
pub fn tee(value: Value, into: String, ctx: &mut Context) -> (r: Result<Value, FilterError>)
    ensures
        tee_result(value, into, *old(ctx), *final(ctx), r),
{
    let copy = value.copy();
    match ctx.set_var(into, copy) {
        Ok(()) => {
            proof {
                assert(ctx.vars@.drop_last() == old(ctx).vars@);
            }
            Ok(value)
        },
        Err(e) => Err(e),
    }
}

/// What `strip` returns.
pub open spec fn strip_result(value: String, r: Result<Value, FilterError>) -> bool {
    r matches Ok(Value::String(s)) && s@ == trimmed(value@)
}

/// Removes leading and trailing whitespace.
pub fn strip(value: String) -> (r: Result<Value, FilterError>)
    ensures
        strip_result(value, r),
{
    Ok(Value::String(trim_text(value.as_str())))
}

/// What `attrs` returns.
pub open spec fn attrs_result(value: DocNode, r: Result<Value, FilterError>) -> bool {
    r matches Ok(Value::Structure(s)) && s@.len() == value.attributes@.len() && forall|i: int|
        0 <= i < s@.len() ==> (#[trigger] s@[i]).0 == value.attributes@[i].0 && s@[i].1
            == Value::String(value.attributes@[i].1)
}

/// The attributes of a document node, as a structure of strings.
pub fn attrs(value: DocNode) -> (r: Result<Value, FilterError>)
    ensures
        attrs_result(value, r),
{
    let mut rest = value.attributes;
    let ghost all = rest@;
    let mut out: Structure = Vec::new();
    while rest.len() > 0
        invariant
            out@.len() + rest@.len() == all.len(),
            rest@ == all.subrange(out@.len() as int, all.len() as int),
            forall|i: int|
                0 <= i < out@.len() ==> (#[trigger] out@[i]).0 == all[i].0 && out@[i].1
                    == Value::String(all[i].1),
        decreases rest@.len(),
    {
        let (k, v) = rest.remove(0);
        out.push((k, Value::String(v)));
    }
    Ok(Value::Structure(out))
}

/// Finds the position of `key` among the entries `s`.
fn position(s: &Structure, key: &String) -> (r: Option<usize>)
    ensures
        r matches Some(j) ==> j < s@.len() && s@[j as int].0@ == key@,
        r is None ==> !has_key(s@, key@),
{
    let mut j: usize = 0;
    while j < s.len()
        invariant
            j <= s@.len(),
            forall|m: int| 0 <= m < j ==> (#[trigger] s@[m]).0@ != key@,
        decreases s@.len() - j,
    {
        if s[j].0 == *key {
            return Some(j);
        }
        j = j + 1;
    }
    None
}

/// What `take` returns.
pub open spec fn take_result(value: Seq<(String, Value)>, key: Seq<char>, r: Result<Value, FilterError>) -> bool {
    &&& r == Ok::<Value, FilterError>(
        match lookup(value, key) {
            Some(v) => v,
            None => Value::Null,
        }
    )
}

/// The value stored under `key`, or null where there is none.
pub fn take(value: Structure, key: String) -> (r: Result<Value, FilterError>)
    requires
        keys_unique(value@),
    ensures
        take_result(value@, key@, r),
{
    let mut value = value;
    match position(&value, &key) {
        Some(j) => {
            proof {
                lemma_lookup_at(value@, j as int);
            }
            let (_, v) = value.remove(j);
            Ok(v)
        },
        None => Ok(Value::Null),
    }
}

/// What `to_int` returns.
pub open spec fn int_result(value: Or<i64, Or<u64, String>>, r: Result<Value, FilterError>) -> bool {
    &&& match value {
        Or::A(n) => r == Ok::<Value, FilterError>(Value::Int(n)),
        Or::B(Or::A(b)) => r matches Ok(Value::Int(n)) && n as int == float_to_int(b),
        Or::B(Or::B(s)) => match parsed_i64(s@) {
            Some(n) => r matches Ok(Value::Int(m)) && m as int == n,
            None => r == Err::<Value, FilterError>(
                FilterError::ParseFailure { text: s, target: Kind::Int },
            ),
        }
    }
}

/// Converts to an integer: an integer passes, a float is truncated toward
/// zero, a string is parsed as base 10.
pub fn to_int(value: Or<i64, Or<u64, String>>) -> (r: Result<Value, FilterError>)
    ensures
        int_result(value, r),
{
    match value {
        Or::A(n) => Ok(Value::Int(n)),
        Or::B(Or::A(b)) => Ok(Value::Int(truncate_float(b))),
        Or::B(Or::B(s)) => match parse_i64(s.as_str()) {
            Some(n) => Ok(Value::Int(n)),
            None => Err(FilterError::ParseFailure { text: s, target: Kind::Int }),
        },
    }
}

/// The position that index `i` denotes in a list of length `len`: from the
/// front when nonnegative, from the back when negative.
pub open spec fn resolved_index(len: int, i: int) -> int {
    if i < 0 {
        len + i
    } else {
        i
    }
}

/// What `nth` returns.
pub open spec fn nth_result(value: Seq<Value>, i: i64, r: Result<Value, FilterError>) -> bool {
    &&& ({
        let k = resolved_index(value.len() as int, i as int);
        if 0 <= k < value.len() {
            r == Ok::<Value, FilterError>(value[k])
        } else {
            r == Err::<Value, FilterError>(
                FilterError::IndexOutOfRange { index: i, len: value.len() as usize },
            )
        }
    })
}

/// The item at index `i`; a negative index counts from the end.
pub fn nth(value: Vec<Value>, i: i64) -> (r: Result<Value, FilterError>)
    ensures
        nth_result(value@, i, r),
{
    let mut value = value;
    let len = value.len();
    let k: usize = if i < 0 {
        if (i as i128) < -(len as i128) {
            return Err(FilterError::IndexOutOfRange { index: i, len });
        }
        (len as i128 + i as i128) as usize
    } else {
        if i as u64 >= len as u64 {
            return Err(FilterError::IndexOutOfRange { index: i, len });
        }
        i as usize
    };
    if k >= len {
        return Err(FilterError::IndexOutOfRange { index: i, len });
    }
    Ok(value.remove(k))
}

/// What `keys` returns.
pub open spec fn keys_result(value: Seq<(String, Value)>, r: Result<Value, FilterError>) -> bool {
    r matches Ok(Value::List(l)) && l@.len() == value.len() && forall|i: int|
        0 <= i < l@.len() ==> #[trigger] l@[i] == Value::String(value[i].0)
}

/// The keys, as a list of strings.
pub fn keys(value: Structure) -> (r: Result<Value, FilterError>)
    ensures
        keys_result(value@, r),
{
    let mut rest = value;
    let ghost all = rest@;
    let mut out: Vec<Value> = Vec::new();
    while rest.len() > 0
        invariant
            out@.len() + rest@.len() == all.len(),
            rest@ == all.subrange(out@.len() as int, all.len() as int),
            forall|i: int| 0 <= i < out@.len() ==> #[trigger] out@[i] == Value::String(all[i].0),
        decreases rest@.len(),
    {
        let (k, _) = rest.remove(0);
        out.push(Value::String(k));
    }
    Ok(Value::List(out))
}

/// What `values` returns.
pub open spec fn values_result(value: Seq<(String, Value)>, r: Result<Value, FilterError>) -> bool {
    r matches Ok(Value::List(l)) && l@.len() == value.len() && forall|i: int|
        0 <= i < l@.len() ==> #[trigger] l@[i] == value[i].1
}

/// The values, as a list, without their keys.
pub fn values(value: Structure) -> (r: Result<Value, FilterError>)
    ensures
        values_result(value@, r),
{
    let mut rest = value;
    let ghost all = rest@;
    let mut out: Vec<Value> = Vec::new();
    while rest.len() > 0
        invariant
            out@.len() + rest@.len() == all.len(),
            rest@ == all.subrange(out@.len() as int, all.len() as int),
            forall|i: int| 0 <= i < out@.len() ==> #[trigger] out@[i] == all[i].1,
        decreases rest@.len(),
    {
        let (_, v) = rest.remove(0);
        out.push(v);
    }
    Ok(Value::List(out))
}

/// `e` is the two-item list `[key, value]` of the entry `kv`.
pub open spec fn is_entry_of(e: Value, kv: (String, Value)) -> bool {
    e matches Value::List(l) && l@ == seq![Value::String(kv.0), kv.1]
}

/// What `entries` returns.
pub open spec fn entries_result(value: Seq<(String, Value)>, r: Result<Value, FilterError>) -> bool {
    r matches Ok(Value::List(l)) && l@.len() == value.len() && forall|i: int|
        0 <= i < l@.len() ==> is_entry_of(#[trigger] l@[i], value[i])
}

/// The entries, as a list of two-item `[key, value]` lists.
pub fn entries(value: Structure) -> (r: Result<Value, FilterError>)
    ensures
        entries_result(value@, r),
{
    let mut rest = value;
    let ghost all = rest@;
    let mut out: Vec<Value> = Vec::new();
    while rest.len() > 0
        invariant
            out@.len() + rest@.len() == all.len(),
            rest@ == all.subrange(out@.len() as int, all.len() as int),
            forall|i: int| 0 <= i < out@.len() ==> is_entry_of(#[trigger] out@[i], all[i]),
        decreases rest@.len(),
    {
        let (k, v) = rest.remove(0);
        let ghost kv = (k, v);
        let pair = vec![Value::String(k), v];
        assert(pair@ == seq![Value::String(kv.0), kv.1]);
        out.push(Value::List(pair));
    }
    Ok(Value::List(out))
}

/// The key and value of a two-item `[key, value]` list whose key is a string.
pub open spec fn entry_pair(e: Value) -> Option<(String, Value)> {
    match e {
        Value::List(l) => if l@.len() == 2 && l@[0] is String {
            Some((l@[0]->String_0, l@[1]))
        } else {
            None
        },
        _ => None,
    }
}

/// Every item of `es` is a `[key, value]` list with a string key.
pub open spec fn all_entries(es: Seq<Value>) -> bool {
    forall|i: int| 0 <= i < es.len() ==> (#[trigger] entry_pair(es[i])) is Some
}

/// The key-value pairs of a list of entries.
pub open spec fn entry_pairs(es: Seq<Value>) -> Seq<(String, Value)> {
    es.map_values(|e: Value| entry_pair(e).unwrap())
}

/// The value of the last pair in `s` whose key is `k`.
pub open spec fn last_value(s: Seq<(String, Value)>, k: Seq<char>) -> Option<Value>
    decreases s.len(),
{
    if s.len() == 0 {
        None
    } else if s.last().0@ == k {
        Some(s.last().1)
    } else {
        last_value(s.drop_last(), k)
    }
}

/// Stores `v` under `k`, replacing the value already there.
fn insert(s: &mut Structure, k: String, v: Value)
    requires
        keys_unique(old(s)@),
    ensures
        keys_unique(final(s)@),
        forall|q: Seq<char>|
            #[trigger] lookup(final(s)@, q) == if q == k@ {
                Some(v)
            } else {
                lookup(old(s)@, q)
            },
        !has_key(old(s)@, k@) ==> final(s)@ == old(s)@.push((k, v)),
{
    let ghost pre = s@;
    let ghost kk = k@;
    match position(s, &k) {
        Some(j) => {
            s.set(j, (k, v));
            assert(keys_unique(s@)) by {
                assert forall|a: int, b: int|
                    0 <= a < s@.len() && 0 <= b < s@.len() && (#[trigger] s@[a]).0@ == (
                    #[trigger] s@[b]).0@ implies a == b by {
                    assert(pre[j as int].0@ == kk);
                    if a != j && b != j {
                        assert(pre[a] == s@[a] && pre[b] == s@[b]);
                    } else if a == j && b != j {
                        assert(pre[b] == s@[b]);
                    } else if a != j && b == j {
                        assert(pre[a] == s@[a]);
                    }
                }
            }
            assert forall|q: Seq<char>|
                #[trigger] lookup(s@, q) == if q == kk {
                    Some(v)
                } else {
                    lookup(pre, q)
                } by {
                if q == kk {
                    lemma_lookup_at(s@, j as int);
                } else {
                    if has_key(pre, q) {
                        let i = choose|i: int| 0 <= i < pre.len() && (#[trigger] pre[i]).0@ == q;
                        lemma_lookup_at(pre, i);
                        assert(s@[i] == pre[i]);
                        lemma_lookup_at(s@, i);
                    } else {
                        assert(!has_key(s@, q)) by {
                            if has_key(s@, q) {
                                let i = choose|i: int| 0 <= i < s@.len() && (#[trigger] s@[i]).0@ == q;
                                assert(s@[i] == pre[i]);
                            }
                        }
                    }
                }
            }
        },
        None => {
            s.push((k, v));
            assert(keys_unique(s@)) by {
                assert forall|a: int, b: int|
                    0 <= a < s@.len() && 0 <= b < s@.len() && (#[trigger] s@[a]).0@ == (
                    #[trigger] s@[b]).0@ implies a == b by {
                    if a < pre.len() && b < pre.len() {
                        assert(pre[a] == s@[a] && pre[b] == s@[b]);
                    } else if a < pre.len() {
                        assert(pre[a] == s@[a]);
                    } else if b < pre.len() {
                        assert(pre[b] == s@[b]);
                    }
                }
            }
            assert forall|q: Seq<char>|
                #[trigger] lookup(s@, q) == if q == kk {
                    Some(v)
                } else {
                    lookup(pre, q)
                } by {
                if q == kk {
                    lemma_lookup_at(s@, pre.len() as int);
                } else {
                    if has_key(pre, q) {
                        let i = choose|i: int| 0 <= i < pre.len() && (#[trigger] pre[i]).0@ == q;
                        lemma_lookup_at(pre, i);
                        assert(s@[i] == pre[i]);
                        lemma_lookup_at(s@, i);
                    } else {
                        assert(!has_key(s@, q)) by {
                            if has_key(s@, q) {
                                let i = choose|i: int| 0 <= i < s@.len() && (#[trigger] s@[i]).0@ == q;
                                if i < pre.len() {
                                    assert(s@[i] == pre[i]);
                                }
                            }
                        }
                    }
                }
            }
        },
    }
}

/// What `from_entries` returns.
pub open spec fn from_entries_result(value: Seq<Value>, r: Result<Value, FilterError>) -> bool {
    &&& r is Ok <==> all_entries(value)
    &&& r matches Err(e) ==> e is MalformedEntry
    &&& r matches Ok(v) ==> v matches Value::Structure(s) && keys_unique(s@) && (forall|k: Seq<char>|
        #[trigger] lookup(s@, k) == last_value(entry_pairs(value), k)) && (keys_unique(
        entry_pairs(value)
    ) ==> s@ == entry_pairs(value))
}

/// Builds a structure from a list of `[key, value]` lists; where a key comes
/// more than once, its last value is kept.
pub fn from_entries(value: Vec<Value>) -> (r: Result<Value, FilterError>)
    ensures
        from_entries_result(value@, r),
{
    let mut rest = value;
    let ghost all = rest@;
    let mut out: Structure = Vec::new();
    let ghost mut done: int = 0;
    while rest.len() > 0
        invariant
            all == value@,
            0 <= done <= all.len(),
            rest@ == all.subrange(done, all.len() as int),
            all_entries(all.subrange(0, done)),
            keys_unique(out@),
            forall|k: Seq<char>|
                #[trigger] lookup(out@, k) == last_value(entry_pairs(all.subrange(0, done)), k),
            keys_unique(entry_pairs(all.subrange(0, done))) ==> out@ == entry_pairs(
                all.subrange(0, done),
            ),
        decreases rest@.len(),
    {
        let e = rest.remove(0);
        let ghost ge = e;
        assert(ge == all[done]);
        let bad = Err(FilterError::MalformedEntry);
        let (k, v) = match e {
            Value::List(mut l) => {
                if l.len() != 2 {
                    assert(entry_pair(all[done]) is None);
                    assert(!all_entries(all));
                    return bad;
                }
                let v = l.pop().unwrap();
                let k = l.pop().unwrap();
                match k {
                    Value::String(k) => {
                        assert(entry_pair(ge) == Some((k, v)));
                        (k, v)
                    },
                    _ => {
                        assert(entry_pair(all[done]) is None);
                        assert(!all_entries(all));
                        return bad;
                    },
                }
            },
            _ => {
                assert(entry_pair(all[done]) is None);
                assert(!all_entries(all));
                return bad;
            },
        };
        let ghost pre = entry_pairs(all.subrange(0, done));
        let ghost post = entry_pairs(all.subrange(0, done + 1));
        assert(all.subrange(0, done + 1) == all.subrange(0, done).push(ge));
        assert(post == pre.push((k, v)));
        assert(post.drop_last() == pre);
        assert(all_entries(all.subrange(0, done + 1))) by {
            assert forall|i: int| 0 <= i < done + 1 implies (#[trigger] entry_pair(
                all.subrange(0, done + 1)[i],
            )) is Some by {
                if i < done {
                    assert(all.subrange(0, done + 1)[i] == all.subrange(0, done)[i]);
                }
            }
        }
        proof {
            if keys_unique(post) {
                assert(keys_unique(pre)) by {
                    assert forall|a: int, b: int|
                        0 <= a < pre.len() && 0 <= b < pre.len() && (#[trigger] pre[a]).0@ == (
                        #[trigger] pre[b]).0@ implies a == b by {
                        assert(post[a] == pre[a] && post[b] == pre[b]);
                    }
                }
                assert(!has_key(out@, k@)) by {
                    if has_key(out@, k@) {
                        let i = choose|i: int| 0 <= i < out@.len() && (#[trigger] out@[i]).0@ == k@;
                        assert(post[i] == pre[i]);
                        assert(post[pre.len() as int].0@ == k@);
                    }
                }
            }
        }
        insert(&mut out, k, v);
        proof {
            done = done + 1;
        }
    }
    assert(all.subrange(0, done) == all);
    Ok(Value::Structure(out))
}

} // verus!
