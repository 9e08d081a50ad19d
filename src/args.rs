use vstd::prelude::*;
use crate::value::{lemma_lookup_at, has_key, keys_unique, lookup, FilterError, Kind, Value};

verus! {

/// One declared named parameter of a filter.
pub struct Param {
    pub name: String,
    pub kind: Kind,
    pub optional: bool,
}

/// A declared parameter as the contracts see it: name, kind, and whether it may be omitted.
pub type ParamSpec = (Seq<char>, Kind, bool);

impl View for Param {
    type V = ParamSpec;

    open spec fn view(&self) -> ParamSpec {
        (self.name@, self.kind, self.optional)
    }
}

/// The views of a list of declared parameters.
pub open spec fn param_specs(ps: Seq<Param>) -> Seq<ParamSpec> {
    ps.map_values(|p: Param| p@)
}

/// No two declared parameters share a name.
pub open spec fn names_unique(params: Seq<ParamSpec>) -> bool {
    forall|a: int, b: int|
        0 <= a < params.len() && 0 <= b < params.len() && (#[trigger] params[a]).0 == (
        #[trigger] params[b]).0 ==> a == b
}

/// Whether `k` names one of the declared parameters.
pub open spec fn declared(params: Seq<ParamSpec>, k: Seq<char>) -> bool {
    exists|j: int| 0 <= j < params.len() && (#[trigger] params[j]).0 == k
}

/// The parameter `p` is satisfied by the argument map `args`: present with the
/// declared kind, or absent and optional.
pub open spec fn param_ok(p: ParamSpec, args: Seq<(String, Value)>) -> bool {
    match lookup(args, p.0) {
        Some(v) => v.spec_kind() == p.1,
        None => p.2,
    }
}

/// The `i`-th parameter is the first one that `args` does not satisfy.
pub open spec fn first_bad(params: Seq<ParamSpec>, args: Seq<(String, Value)>, i: int) -> bool {
    &&& 0 <= i < params.len()
    &&& !param_ok(params[i], args)
    &&& forall|j: int| 0 <= j < i ==> param_ok(#[trigger] params[j], args)
}

/// Every declared parameter is satisfied.
pub open spec fn params_ok(params: Seq<ParamSpec>, args: Seq<(String, Value)>) -> bool {
    forall|j: int| 0 <= j < params.len() ==> param_ok(#[trigger] params[j], args)
}

/// The keys of `args` that no parameter declares, in the order of `args`.
pub open spec fn surplus(params: Seq<ParamSpec>, args: Seq<(String, Value)>) -> Seq<Seq<char>>
    decreases args.len(),
{
    if args.len() == 0 {
        Seq::empty()
    } else {
        let rest = surplus(params, args.drop_last());
        if declared(params, args.last().0@) {
            rest
        } else {
            rest.push(args.last().0@)
        }
    }
}

/// The names of a list of strings.
pub open spec fn names(v: Seq<String>) -> Seq<Seq<char>> {
    v.map_values(|s: String| s@)
}

/// Every declared parameter is satisfied and no undeclared key is given.
pub open spec fn args_accepted(params: Seq<ParamSpec>, args: Seq<(String, Value)>) -> bool {
    params_ok(params, args) && surplus(params, args).len() == 0
}

/// `e` is the error that deserializing `args` against `params` reports: the
/// first unsatisfied parameter, missing or of the wrong kind; failing that, all
/// undeclared keys at once.
pub open spec fn args_error(params: Seq<ParamSpec>, args: Seq<(String, Value)>, e: FilterError) -> bool {
    match e {
        FilterError::MissingArgument(n) => exists|i: int|
            first_bad(params, args, i) && lookup(args, params[i].0) is None && n@
                == (#[trigger] params[i]).0,
        FilterError::TypeMismatch { expected, actual } => exists|i: int|
            first_bad(params, args, i) && lookup(args, params[i].0) is Some && expected == (
            #[trigger] params[i]).1 && actual == lookup(args, params[i].0).unwrap().spec_kind(),
        FilterError::UnexpectedArguments(ns) => params_ok(params, args) && names(ns@) == surplus(
            params,
            args,
        ) && surplus(params, args).len() > 0,
        _ => false,
    }
}

/// What deserializing `args` against `params` must give: the looked-up value of
/// each parameter, or the error of the first unsatisfied parameter, or all
/// undeclared keys at once.
pub open spec fn deserialized(
    params: Seq<ParamSpec>,
    args: Seq<(String, Value)>,
    r: Result<Vec<Option<Value>>, FilterError>,
) -> bool {
    &&& (r is Ok <==> args_accepted(params, args))
    &&& r matches Ok(vals) ==> vals@.len() == params.len() && forall|j: int|
        0 <= j < params.len() ==> (#[trigger] vals@[j]) == lookup(args, params[j].0)
    &&& r matches Err(e) ==> args_error(params, args, e)
}

fn find_param(params: &Vec<Param>, k: &String) -> (r: Option<usize>)
    ensures
        r matches Some(j) ==> j < params@.len() && params@[j as int].name@ == k@,
        r is None ==> !declared(param_specs(params@), k@),
{
    let mut j: usize = 0;
    while j < params.len()
        invariant
            j <= params@.len(),
            forall|m: int| 0 <= m < j ==> (#[trigger] params@[m]).name@ != k@,
        decreases params@.len() - j,
    {
        if params[j].name == *k {
            return Some(j);
        }
        j = j + 1;
    }
    None
}

/// Validates a named-argument map against declared parameters. Each declared
/// parameter is taken from the map and checked in declaration order; then every
/// key that no parameter declares is reported together.
pub fn deserialize_args(params: &Vec<Param>, args: Vec<(String, Value)>) -> (r: Result<
    Vec<Option<Value>>,
    FilterError,
>)
    requires
        keys_unique(args@),
        names_unique(param_specs(params@)),
    ensures
        deserialized(param_specs(params@), args@, r),
{
    let ghost ps = param_specs(params@);
    assert(forall|m: int| 0 <= m < params@.len() ==> #[trigger] ps[m] == params@[m]@);
    let ghost all = args@;
    let mut rest = args;
    let mut slots: Vec<Option<Value>> = Vec::new();
    while slots.len() < params.len()
        invariant
            slots@.len() <= params@.len(),
            forall|m: int| 0 <= m < slots@.len() ==> (#[trigger] slots@[m]) is None,
        decreases params@.len() - slots@.len(),
    {
        slots.push(None);
    }
    let mut extra: Vec<String> = Vec::new();
    let ghost mut done: int = 0;
    while rest.len() > 0
        invariant
            all == args@,
            keys_unique(all),
            ps == param_specs(params@),
            names_unique(ps),
            forall|m: int| 0 <= m < params@.len() ==> #[trigger] ps[m] == params@[m]@,
            0 <= done <= all.len(),
            rest@ == all.subrange(done, all.len() as int),
            slots@.len() == params@.len(),
            forall|m: int|
                0 <= m < params@.len() ==> (#[trigger] slots@[m]) == lookup(
                    all.subrange(0, done),
                    params@[m].name@,
                ),
            names(extra@) == surplus(ps, all.subrange(0, done)),
        decreases rest@.len(),
    {
        let (k, v) = rest.remove(0);
        let ghost pre = all.subrange(0, done);
        let ghost post = all.subrange(0, done + 1);
        assert(post.drop_last() == pre);
        assert(post.last() == (k, v));
        assert(keys_unique(post));
        assert forall|m: int| 0 <= m < params@.len() && params@[m].name@ != k@ implies lookup(
            post,
            params@[m].name@,
        ) == lookup(pre, params@[m].name@) by {
            let kk = params@[m].name@;
            if has_key(post, kk) {
                let i = choose|i: int| 0 <= i < post.len() && (#[trigger] post[i]).0@ == kk;
                assert(pre[i] == post[i]);
            }
            if has_key(pre, kk) {
                let i = choose|i: int| 0 <= i < pre.len() && (#[trigger] pre[i]).0@ == kk;
                assert(pre[i] == post[i]);
            }
        }
        proof {
            lemma_lookup_at(post, done);
            assert(!has_key(pre, k@)) by {
                if has_key(pre, k@) {
                    let i = choose|i: int| 0 <= i < pre.len() && (#[trigger] pre[i]).0@ == k@;
                    assert(post[i] == pre[i]);
                }
            }
        }
        match find_param(params, &k) {
            Some(j) => {
                proof {
                    assert(ps[j as int].0 == k@);
                    assert(declared(ps, k@));
                    assert forall|m: int| 0 <= m < params@.len() && m != j implies params@[m].name@
                        != k@ by {
                        assert(ps[m].0 == params@[m].name@);
                    }
                }
                slots.set(j, Some(v));
            },
            None => {
                proof {
                    assert forall|m: int| 0 <= m < params@.len() implies params@[m].name@ != k@ by {
                        assert(ps[m].0 == params@[m].name@);
                    }
                    assert(names(extra@.push(k)) == names(extra@).push(k@));
                }
                extra.push(k);
            },
        }
        proof {
            done = done + 1;
        }
    }
    assert(all.subrange(0, done) == all);
    let mut i: usize = 0;
    while i < params.len()
        invariant
            all == args@,
            ps == param_specs(params@),
            forall|m: int| 0 <= m < params@.len() ==> #[trigger] ps[m] == params@[m]@,
            i <= params@.len(),
            slots@.len() == params@.len(),
            forall|m: int| 0 <= m < params@.len() ==> (#[trigger] slots@[m]) == lookup(all, params@[m].name@),
            forall|m: int| 0 <= m < i ==> param_ok(#[trigger] ps[m], all),
        decreases params@.len() - i,
    {
        match &slots[i] {
            None => {
                if !params[i].optional {
                    assert(first_bad(ps, all, i as int));
                    assert(!param_ok(ps[i as int], all));
                    let n = params[i].name.clone();
                    assert(n@ == params@[i as int].name@);
                    return Err(FilterError::MissingArgument(n));
                }
            },
            Some(v) => {
                let actual = v.kind();
                if actual != params[i].kind {
                    assert(first_bad(ps, all, i as int));
                    assert(!param_ok(ps[i as int], all));
                    return Err(FilterError::TypeMismatch { expected: params[i].kind, actual });
                }
            },
        }
        i = i + 1;
    }
    if extra.len() > 0 {
        return Err(FilterError::UnexpectedArguments(extra));
    }
    Ok(slots)
}

} // verus!
