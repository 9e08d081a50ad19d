use vstd::prelude::*;
use crate::args::{
    args_accepted, args_error, declared, first_bad, names, names_unique, param_ok, params_ok,
    surplus, ParamSpec,
};
use crate::builtins::{
    all_entries, entries_result, entry_pair, entry_pairs, from_entries_result, is_entry_of,
    resolved_index,
};
use crate::context::Context;
use crate::filter::{
    builtin_names, dispatched, into_name, params_of, string_arg, int_arg, index_name,
    value_accepted, NoArgs, Args,
};
use crate::numeric::{float_to_int, parsed_i64};
use crate::value::{has_key, keys_unique, lookup, FilterError, Value};

verus! {

/// The builtin filter `name`, given `value` and `args` in context `c0`, meets
/// none of its own failure conditions: a variable that is already bound, text
/// that is no integer, an index out of range, or a malformed entry.
pub open spec fn filter_can_succeed(
    name: Seq<char>,
    value: Value,
    args: Seq<(String, Value)>,
    c0: Context,
) -> bool {
    &&& name == "tee"@ ==> !has_key(c0.vars@, string_arg(args, into_name())@)
    &&& (name == "int"@ && value is String) ==> parsed_i64(value->String_0@) is Some
    &&& name == "nth"@ ==> {
        let k = resolved_index(value->List_0@.len() as int, int_arg(args, index_name()) as int);
        0 <= k < value->List_0@.len()
    }
    &&& name == "from_entries"@ ==> all_entries(value->List_0@)
}

/// Dispatching to a registered filter with a value and arguments of the shape
/// it declares succeeds, unless the filter's own failure condition holds; an
/// unregistered name fails as unknown.
pub proof fn lemma_dispatch_outcome(
    name: Seq<char>,
    value: Value,
    args: Seq<(String, Value)>,
    c0: Context,
    c1: Context,
    r: Result<Value, FilterError>,
)
    requires
        dispatched(name, value, args, c0, c1, r),
    ensures
        !builtin_names().contains(name) ==> (r matches Err(FilterError::UnknownFilter(n)) && n@
            == name),
        builtin_names().contains(name) && value_accepted(name, value) && args_accepted(
            params_of(name),
            args,
        ) && filter_can_succeed(name, value, args, c0) ==> r is Ok,
{
    reveal_strlit("dbg");
    reveal_strlit("tee");
    reveal_strlit("strip");
    reveal_strlit("take");
    reveal_strlit("attrs");
    reveal_strlit("int");
    reveal_strlit("nth");
    reveal_strlit("keys");
    reveal_strlit("values");
    reveal_strlit("entries");
    reveal_strlit("from_entries");
    assert("dbg"@[0] != "tee"@[0] && "dbg"@[0] != "int"@[0] && "dbg"@[0] != "nth"@[0]);
    assert("tee"@[0] != "int"@[0] && "tee"@[0] != "nth"@[0] && "int"@[0] != "nth"@[0]);
    assert("strip"@[0] != "attrs"@[0] && "take"@[0] != "keys"@[0]);
}

/// With every other parameter satisfied, omitting one required parameter
/// fails with a missing-argument error that names it.
pub proof fn lemma_missing_argument(params: Seq<ParamSpec>, args: Seq<(String, Value)>, i: int)
    requires
        names_unique(params),
        0 <= i < params.len(),
        !params[i].2,
        lookup(args, params[i].0) is None,
        forall|j: int| 0 <= j < params.len() && j != i ==> param_ok(#[trigger] params[j], args),
    ensures
        !args_accepted(params, args),
        forall|e: FilterError|
            #[trigger] args_error(params, args, e) ==> (e matches FilterError::MissingArgument(n)
                && n@ == params[i].0),
{
    assert(!param_ok(params[i], args));
    assert forall|e: FilterError| #[trigger] args_error(params, args, e) implies (
    e matches FilterError::MissingArgument(n) && n@ == params[i].0) by {
        match e {
            FilterError::MissingArgument(n) => {
                let k = choose|k: int|
                    first_bad(params, args, k) && lookup(args, params[k].0) is None && n@ == (
                    #[trigger] params[k]).0;
                if k != i {
                    assert(param_ok(params[k], args));
                }
            },
            FilterError::TypeMismatch { expected, actual } => {
                let k = choose|k: int|
                    first_bad(params, args, k) && lookup(args, params[k].0) is Some && expected == (
                    #[trigger] params[k]).1 && actual == lookup(
                        args,
                        params[k].0,
                    ).unwrap().spec_kind();
                if k != i {
                    assert(param_ok(params[k], args));
                }
            },
            _ => {},
        }
    }
}

proof fn lemma_surplus_has(params: Seq<ParamSpec>, args: Seq<(String, Value)>, i: int)
    requires
        0 <= i < args.len(),
        !declared(params, args[i].0@),
    ensures
        surplus(params, args).contains(args[i].0@),
    decreases args.len(),
{
    if i == args.len() - 1 {
        assert(surplus(params, args).last() == args[i].0@);
    } else {
        assert(args.drop_last()[i] == args[i]);
        lemma_surplus_has(params, args.drop_last(), i);
        let rest = surplus(params, args.drop_last());
        let k = choose|k: int| 0 <= k < rest.len() && rest[k] == args[i].0@;
        if !declared(params, args.last().0@) {
            assert(rest.push(args.last().0@)[k] == args[i].0@);
        }
    }
}

/// With every declared parameter satisfied, any undeclared key fails the map
/// with an unexpected-arguments error listing every undeclared key, that one
/// among them.
pub proof fn lemma_unexpected_arguments(params: Seq<ParamSpec>, args: Seq<(String, Value)>, i: int)
    requires
        params_ok(params, args),
        0 <= i < args.len(),
        !declared(params, args[i].0@),
    ensures
        !args_accepted(params, args),
        forall|e: FilterError|
            #[trigger] args_error(params, args, e) ==> (e matches FilterError::UnexpectedArguments(ns)
                && names(ns@) == surplus(params, args)),
        forall|j: int|
            0 <= j < args.len() && !declared(params, (#[trigger] args[j]).0@) ==> surplus(
                params,
                args,
            ).contains(args[j].0@),
{
    lemma_surplus_has(params, args, i);
    assert forall|j: int|
        0 <= j < args.len() && !declared(params, (#[trigger] args[j]).0@) implies surplus(
        params,
        args,
    ).contains(args[j].0@) by {
        lemma_surplus_has(params, args, j);
    }
    assert forall|e: FilterError| #[trigger] args_error(params, args, e) implies (
    e matches FilterError::UnexpectedArguments(ns) && names(ns@) == surplus(params, args)) by {
        match e {
            FilterError::MissingArgument(n) => {
                let k = choose|k: int|
                    first_bad(params, args, k) && lookup(args, params[k].0) is None && n@ == (
                    #[trigger] params[k]).0;
            },
            FilterError::TypeMismatch { expected, actual } => {
                let k = choose|k: int|
                    first_bad(params, args, k) && lookup(args, params[k].0) is Some && expected == (
                    #[trigger] params[k]).1 && actual == lookup(
                        args,
                        params[k].0,
                    ).unwrap().spec_kind();
            },
            _ => {},
        }
    }
}

/// Turning a structure into its entries and back gives the structure again.
pub proof fn lemma_entries_round_trip(
    s: Seq<(String, Value)>,
    e: Result<Value, FilterError>,
    l: Vec<Value>,
    r: Result<Value, FilterError>,
)
    requires
        keys_unique(s),
        entries_result(s, e),
        e == Ok::<Value, FilterError>(Value::List(l)),
        from_entries_result(l@, r),
    ensures
        r matches Ok(Value::Structure(t)) && t@ == s,
{
    assert forall|i: int| 0 <= i < l@.len() implies (#[trigger] entry_pair(l@[i])) is Some && entry_pair(
        l@[i],
    ) == Some(s[i]) by {
        assert(is_entry_of(l@[i], s[i]));
    }
    assert(all_entries(l@));
    assert(entry_pairs(l@) =~= s);
}

/// `int` keeps a native integer as it is, and never reads it as text.
pub proof fn lemma_int_prefers_integer(
    n: i64,
    args: Seq<(String, Value)>,
    c0: Context,
    c1: Context,
    r: Result<Value, FilterError>,
)
    requires
        dispatched("int"@, Value::Int(n), args, c0, c1, r),
        args_accepted(NoArgs::declared(), args),
    ensures
        r == Ok::<Value, FilterError>(Value::Int(n)),
{
    reveal_strlit("dbg");
    reveal_strlit("tee");
    reveal_strlit("strip");
    reveal_strlit("take");
    reveal_strlit("attrs");
    reveal_strlit("int");
    reveal_strlit("nth");
    reveal_strlit("keys");
    reveal_strlit("values");
    reveal_strlit("entries");
    reveal_strlit("from_entries");
    assert("dbg"@[0] != "int"@[0] && "tee"@[0] != "int"@[0] && "int"@[0] != "nth"@[0]);
    assert(builtin_names()[5] == "int"@);
}

/// `int` truncates a float toward zero, and never reads it as text.
pub proof fn lemma_int_prefers_float_to_text(
    b: u64,
    args: Seq<(String, Value)>,
    c0: Context,
    c1: Context,
    r: Result<Value, FilterError>,
)
    requires
        dispatched("int"@, Value::Float(b), args, c0, c1, r),
        args_accepted(NoArgs::declared(), args),
    ensures
        r matches Ok(Value::Int(m)) && m as int == float_to_int(b),
{
    reveal_strlit("dbg");
    reveal_strlit("tee");
    reveal_strlit("strip");
    reveal_strlit("take");
    reveal_strlit("attrs");
    reveal_strlit("int");
    reveal_strlit("nth");
    reveal_strlit("keys");
    reveal_strlit("values");
    reveal_strlit("entries");
    reveal_strlit("from_entries");
    assert("dbg"@[0] != "int"@[0] && "tee"@[0] != "int"@[0] && "int"@[0] != "nth"@[0]);
    assert(builtin_names()[5] == "int"@);
}

} // verus!
