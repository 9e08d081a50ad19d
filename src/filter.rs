use vstd::prelude::*;
use crate::args::{
    args_accepted, args_error, deserialize_args, names_unique, param_specs, Param, ParamSpec,
};
use crate::builtins::{
    attrs, attrs_result, dbg, dbg_result, entries, entries_result, from_entries,
    from_entries_result, int_result, keys, keys_result, nth, nth_result, strip, strip_result, take,
    take_result, tee, tee_result, to_int, values, values_result,
};
use crate::context::Context;
use crate::value::{
    as_list, as_node, as_string, as_structure, int_source, keys_unique, lookup, DocNode, FilterError,
    Kind, Or, Structure, Value,
};

verus! {

/// A typed parameter structure that a named-argument map deserializes into.
pub trait Args: Sized {
    /// The declared parameters, in declaration order.
    spec fn declared() -> Seq<ParamSpec>;

    /// This structure holds what `args` gives each declared parameter.
    spec fn holds(&self, args: Seq<(String, Value)>) -> bool;

    fn try_deserialize(args: Vec<(String, Value)>) -> (r: Result<Self, FilterError>)
        requires
            keys_unique(args@),
        ensures
            r is Ok <==> args_accepted(Self::declared(), args@),
            r matches Ok(a) ==> a.holds(args@),
            r matches Err(e) ==> args_error(Self::declared(), args@, e),
    ;
}

pub open spec fn msg_name() -> Seq<char> {
    seq!['m', 's', 'g']
}

pub open spec fn into_name() -> Seq<char> {
    seq!['i', 'n', 't', 'o']
}

pub open spec fn key_name() -> Seq<char> {
    seq!['k', 'e', 'y']
}

pub open spec fn index_name() -> Seq<char> {
    seq!['i']
}

/// The string given for `k`.
pub open spec fn string_arg(args: Seq<(String, Value)>, k: Seq<char>) -> String {
    lookup(args, k).unwrap()->String_0
}

/// The string given for `k`, if any.
pub open spec fn opt_string_arg(args: Seq<(String, Value)>, k: Seq<char>) -> Option<String> {
    match lookup(args, k) {
        Some(Value::String(s)) => Some(s),
        _ => None,
    }
}

/// The integer given for `k`.
pub open spec fn int_arg(args: Seq<(String, Value)>, k: Seq<char>) -> i64 {
    lookup(args, k).unwrap()->Int_0
}

fn one_param(name: &str, kind: Kind, optional: bool) -> (r: Vec<Param>)
    ensures
        param_specs(r@) == seq![(name@, kind, optional)],
{
    let p = vec![Param { name: name.to_owned(), kind, optional }];
    assert(param_specs(p@) =~= seq![(name@, kind, optional)]);
    p
}

/// The parameters of a filter that takes none.
pub struct NoArgs;

impl Args for NoArgs {
    open spec fn declared() -> Seq<ParamSpec> {
        seq![]
    }

    open spec fn holds(&self, args: Seq<(String, Value)>) -> bool {
        true
    }

    fn try_deserialize(args: Vec<(String, Value)>) -> (r: Result<Self, FilterError>) {
        let params: Vec<Param> = Vec::new();
        assert(param_specs(params@) =~= seq![]);
        match deserialize_args(&params, args) {
            Ok(_) => Ok(NoArgs),
            Err(e) => Err(e),
        }
    }
}

/// The parameters of `dbg`: an optional message.
pub struct DbgArgs {
    pub msg: Option<String>,
}

impl Args for DbgArgs {
    open spec fn declared() -> Seq<ParamSpec> {
        seq![(msg_name(), Kind::String, true)]
    }

    open spec fn holds(&self, args: Seq<(String, Value)>) -> bool {
        self.msg == opt_string_arg(args, msg_name())
    }

    fn try_deserialize(args: Vec<(String, Value)>) -> (r: Result<Self, FilterError>) {
        proof {
            reveal_strlit("msg");
            assert("msg"@ =~= msg_name());
        }
        let params = one_param("msg", Kind::String, true);
        assert(param_specs(params@) == Self::declared());
        match deserialize_args(&params, args) {
            Ok(mut vals) => match vals.pop() {
                Some(Some(Value::String(s))) => Ok(DbgArgs { msg: Some(s) }),
                _ => Ok(DbgArgs { msg: None }),
            },
            Err(e) => Err(e),
        }
    }
}

/// The parameters of `tee`: the variable to bind.
pub struct TeeArgs {
    pub into: String,
}

impl Args for TeeArgs {
    open spec fn declared() -> Seq<ParamSpec> {
        seq![(into_name(), Kind::String, false)]
    }

    open spec fn holds(&self, args: Seq<(String, Value)>) -> bool {
        lookup(args, into_name()) == Some(Value::String(self.into))
    }

    fn try_deserialize(args: Vec<(String, Value)>) -> (r: Result<Self, FilterError>) {
        proof {
            reveal_strlit("into");
            assert("into"@ =~= into_name());
        }
        let params = one_param("into", Kind::String, false);
        assert(param_specs(params@) == Self::declared());
        match deserialize_args(&params, args) {
            Ok(mut vals) => match vals.pop() {
                Some(Some(Value::String(s))) => Ok(TeeArgs { into: s }),
                _ => {
                    proof {
                        assert(false);
                    }
                    Err(FilterError::MissingArgument(String::new()))
                },
            },
            Err(e) => Err(e),
        }
    }
}

/// The parameters of `take`: the key to remove.
pub struct TakeArgs {
    pub key: String,
}

impl Args for TakeArgs {
    open spec fn declared() -> Seq<ParamSpec> {
        seq![(key_name(), Kind::String, false)]
    }

    open spec fn holds(&self, args: Seq<(String, Value)>) -> bool {
        lookup(args, key_name()) == Some(Value::String(self.key))
    }

    fn try_deserialize(args: Vec<(String, Value)>) -> (r: Result<Self, FilterError>) {
        proof {
            reveal_strlit("key");
            assert("key"@ =~= key_name());
        }
        let params = one_param("key", Kind::String, false);
        assert(param_specs(params@) == Self::declared());
        match deserialize_args(&params, args) {
            Ok(mut vals) => match vals.pop() {
                Some(Some(Value::String(s))) => Ok(TakeArgs { key: s }),
                _ => {
                    proof {
                        assert(false);
                    }
                    Err(FilterError::MissingArgument(String::new()))
                },
            },
            Err(e) => Err(e),
        }
    }
}

/// The parameters of `nth`: the index.
pub struct NthArgs {
    pub i: i64,
}

impl Args for NthArgs {
    open spec fn declared() -> Seq<ParamSpec> {
        seq![(index_name(), Kind::Int, false)]
    }

    open spec fn holds(&self, args: Seq<(String, Value)>) -> bool {
        lookup(args, index_name()) == Some(Value::Int(self.i))
    }

    fn try_deserialize(args: Vec<(String, Value)>) -> (r: Result<Self, FilterError>) {
        proof {
            reveal_strlit("i");
            assert("i"@ =~= index_name());
        }
        let params = one_param("i", Kind::Int, false);
        assert(param_specs(params@) == Self::declared());
        match deserialize_args(&params, args) {
            Ok(mut vals) => match vals.pop() {
                Some(Some(Value::Int(i))) => Ok(NthArgs { i }),
                _ => {
                    proof {
                        assert(false);
                    }
                    Err(FilterError::MissingArgument(String::new()))
                },
            },
            Err(e) => Err(e),
        }
    }
}

/// The names under which the builtin filters are registered.
pub open spec fn builtin_names() -> Seq<Seq<char>> {
    seq![
        "dbg"@,
        "tee"@,
        "strip"@,
        "take"@,
        "attrs"@,
        "int"@,
        "nth"@,
        "keys"@,
        "values"@,
        "entries"@,
        "from_entries"@,
    ]
}

/// The kind of value a builtin filter accepts; `None` where any value does.
pub open spec fn accepted_kind(name: Seq<char>) -> Option<Kind> {
    if name == "strip"@ {
        Some(Kind::String)
    } else if name == "take"@ || name == "keys"@ || name == "values"@ || name == "entries"@ {
        Some(Kind::Structure)
    } else if name == "attrs"@ {
        Some(Kind::Node)
    } else if name == "nth"@ || name == "from_entries"@ {
        Some(Kind::List)
    } else {
        None
    }
}

/// The value coerces to what the filter `name` accepts.
pub open spec fn value_accepted(name: Seq<char>, value: Value) -> bool {
    if name == "int"@ {
        value is Int || value is Float || value is String
    } else {
        match accepted_kind(name) {
            Some(k) => value.spec_kind() == k,
            None => true,
        }
    }
}

/// The declared parameters of the builtin filter `name`.
pub open spec fn params_of(name: Seq<char>) -> Seq<ParamSpec> {
    if name == "dbg"@ {
        DbgArgs::declared()
    } else if name == "tee"@ {
        TeeArgs::declared()
    } else if name == "take"@ {
        TakeArgs::declared()
    } else if name == "nth"@ {
        NthArgs::declared()
    } else {
        NoArgs::declared()
    }
}

/// The coercion of a value to the alternatives of `int`.
pub open spec fn int_alternative(value: Value) -> Or<i64, Or<u64, String>> {
    match value {
        Value::Int(n) => Or::A(n),
        Value::Float(b) => Or::B(Or::A(b)),
        _ => Or::B(Or::B(value->String_0)),
    }
}

/// What the builtin filter `name` does once its value and arguments are accepted.
pub open spec fn applied(
    name: Seq<char>,
    value: Value,
    args: Seq<(String, Value)>,
    c0: Context,
    c1: Context,
    r: Result<Value, FilterError>,
) -> bool {
    if name == "dbg"@ {
        dbg_result(value, opt_string_arg(args, msg_name()), c0, c1, r)
    } else if name == "tee"@ {
        tee_result(value, string_arg(args, into_name()), c0, c1, r)
    } else {
        c1 == c0 && if name == "strip"@ {
            strip_result(value->String_0, r)
        } else if name == "take"@ {
            take_result(value->Structure_0@, string_arg(args, key_name())@, r)
        } else if name == "attrs"@ {
            attrs_result(value->Node_0, r)
        } else if name == "int"@ {
            int_result(int_alternative(value), r)
        } else if name == "nth"@ {
            nth_result(value->List_0@, int_arg(args, index_name()), r)
        } else if name == "keys"@ {
            keys_result(value->Structure_0@, r)
        } else if name == "values"@ {
            values_result(value->Structure_0@, r)
        } else if name == "entries"@ {
            entries_result(value->Structure_0@, r)
        } else {
            from_entries_result(value->List_0@, r)
        }
    }
}

/// What dispatching to `name` does: an unknown name fails; otherwise the value
/// is coerced first, then the arguments are deserialized, and only then does
/// the filter run.
pub open spec fn dispatched(
    name: Seq<char>,
    value: Value,
    args: Seq<(String, Value)>,
    c0: Context,
    c1: Context,
    r: Result<Value, FilterError>,
) -> bool {
    if !builtin_names().contains(name) {
        c1 == c0 && (r matches Err(FilterError::UnknownFilter(n)) && n@ == name)
    } else if !value_accepted(name, value) {
        c1 == c0 && r == Err::<Value, FilterError>(
            FilterError::TypeMismatch {
                expected: match accepted_kind(name) {
                    Some(k) => k,
                    None => Kind::String,
                },
                actual: value.spec_kind(),
            },
        )
    } else if !args_accepted(params_of(name), args) {
        c1 == c0 && (r matches Err(e) && args_error(params_of(name), args, e))
    } else {
        applied(name, value, args, c0, c1, r)
    }
}

fn is_name(n: &String, lit: &str) -> (r: bool)
    ensures
        r == (n@ == lit@),
{
    *n == lit.to_owned()
}

/// Looks up the builtin filter `name` and applies it to `value` with the
/// named arguments `args`.
pub fn dispatch_filter(
    name: &str,
    value: Value,
    args: Vec<(String, Value)>,
    ctx: &mut Context,
) -> (r: Result<Value, FilterError>)
    requires
        keys_unique(args@),
        value matches Value::Structure(s) ==> keys_unique(s@),
    ensures
        dispatched(name@, value, args@, *old(ctx), *final(ctx), r),
{
    let n = name.to_owned();
    let ghost gv = value;
    let ghost ga = args@;
    proof {
        reveal_strlit("dbg");
        reveal_strlit("tee");
        reveal_strlit("strip");
        reveal_strlit("take");
        reveal_strlit("attrs");
        reveal_strlit("int");
        reveal_strlit("nth");
        reveal_strlit("keys");
        reveal_strlit("values");
        reveal_strlit("entries");
        reveal_strlit("from_entries");
        assert("dbg"@[0] != "tee"@[0] && "dbg"@[0] != "int"@[0] && "dbg"@[0] != "nth"@[0]);
        assert("tee"@[0] != "int"@[0] && "tee"@[0] != "nth"@[0] && "int"@[0] != "nth"@[0]);
        assert("strip"@[0] != "attrs"@[0] && "take"@[0] != "keys"@[0]);
    }
    if is_name(&n, "dbg") {
        assert(builtin_names()[0] == n@);
        let r = Dbg.apply_dyn(value, args, ctx);
        assert(dispatched(n@, gv, ga, *old(ctx), *ctx, r));
        r
    } else if is_name(&n, "tee") {
        assert(builtin_names()[1] == n@);
        let r = Tee.apply_dyn(value, args, ctx);
        assert(dispatched(n@, gv, ga, *old(ctx), *ctx, r));
        r
    } else if is_name(&n, "strip") {
        assert(builtin_names()[2] == n@);
        let r = Strip.apply_dyn(value, args, ctx);
        assert(dispatched(n@, gv, ga, *old(ctx), *ctx, r));
        r
    } else if is_name(&n, "take") {
        assert(builtin_names()[3] == n@);
        let r = Take.apply_dyn(value, args, ctx);
        assert(dispatched(n@, gv, ga, *old(ctx), *ctx, r));
        r
    } else if is_name(&n, "attrs") {
        assert(builtin_names()[4] == n@);
        let r = Attrs.apply_dyn(value, args, ctx);
        assert(dispatched(n@, gv, ga, *old(ctx), *ctx, r));
        r
    } else if is_name(&n, "int") {
        assert(builtin_names()[5] == n@);
        let r = Int.apply_dyn(value, args, ctx);
        assert(dispatched(n@, gv, ga, *old(ctx), *ctx, r));
        r
    } else if is_name(&n, "nth") {
        assert(builtin_names()[6] == n@);
        let r = Nth.apply_dyn(value, args, ctx);
        assert(dispatched(n@, gv, ga, *old(ctx), *ctx, r));
        r
    } else if is_name(&n, "keys") {
        assert(builtin_names()[7] == n@);
        let r = Keys.apply_dyn(value, args, ctx);
        assert(dispatched(n@, gv, ga, *old(ctx), *ctx, r));
        r
    } else if is_name(&n, "values") {
        assert(builtin_names()[8] == n@);
        let r = Values.apply_dyn(value, args, ctx);
        assert(dispatched(n@, gv, ga, *old(ctx), *ctx, r));
        r
    } else if is_name(&n, "entries") {
        assert(builtin_names()[9] == n@);
        let r = Entries.apply_dyn(value, args, ctx);
        assert(dispatched(n@, gv, ga, *old(ctx), *ctx, r));
        r
    } else if is_name(&n, "from_entries") {
        assert(builtin_names()[10] == n@);
        let r = FromEntries.apply_dyn(value, args, ctx);
        assert(dispatched(n@, gv, ga, *old(ctx), *ctx, r));
        r
    } else {
        assert(!builtin_names().contains(n@));
        Err(FilterError::UnknownFilter(n))
    }
}

/// A filter written against typed input: the kind of value it accepts, the
/// parameters it declares, and what it does with them.
pub trait Filter {
    type Input;
    type Params: Args;

    /// What coercing `value` to the accepted input gives.
    spec fn coerced(value: Value) -> Result<Self::Input, FilterError>;

    /// The inputs on which the filter may run.
    spec fn admits(value: Value) -> bool;

    /// What the filter returns and how it changes the context.
    spec fn result(
        value: Self::Input,
        args: Self::Params,
        c0: Context,
        c1: Context,
        r: Result<Value, FilterError>,
    ) -> bool;

    fn coerce(value: Value) -> (r: Result<Self::Input, FilterError>)
        ensures
            r == Self::coerced(value),
    ;

    fn apply(value: Self::Input, args: Self::Params, ctx: &mut Context) -> (r: Result<
        Value,
        FilterError,
    >)
        requires
            exists|v: Value| Self::admits(v) && Self::coerced(v) == Ok::<Self::Input, FilterError>(value),
        ensures
            Self::result(value, args, *old(ctx), *final(ctx), r),
    ;
}

/// A filter invoked uniformly on an untyped value and a named-argument map.
pub trait FilterDyn {
    /// What invoking the filter on `value` and `args` does.
    spec fn invoked(
        &self,
        value: Value,
        args: Seq<(String, Value)>,
        c0: Context,
        c1: Context,
        r: Result<Value, FilterError>,
    ) -> bool;

    spec fn admits_dyn(&self, value: Value) -> bool;

    fn apply_dyn(&self, value: Value, args: Vec<(String, Value)>, ctx: &mut Context) -> (r: Result<
        Value,
        FilterError,
    >)
        requires
            keys_unique(args@),
            self.admits_dyn(value),
        ensures
            self.invoked(value, args@, *old(ctx), *final(ctx), r),
    ;
}

impl<F: Filter> FilterDyn for F {
    open spec fn invoked(
        &self,
        value: Value,
        args: Seq<(String, Value)>,
        c0: Context,
        c1: Context,
        r: Result<Value, FilterError>,
    ) -> bool {
        match F::coerced(value) {
            Err(e) => c1 == c0 && r == Err::<Value, FilterError>(e),
            Ok(x) => if !args_accepted(F::Params::declared(), args) {
                c1 == c0 && (r matches Err(e) && args_error(F::Params::declared(), args, e))
            } else {
                exists|a: F::Params| #[trigger] a.holds(args) && F::result(x, a, c0, c1, r)
            },
        }
    }

    open spec fn admits_dyn(&self, value: Value) -> bool {
        F::admits(value)
    }

    fn apply_dyn(&self, value: Value, args: Vec<(String, Value)>, ctx: &mut Context) -> (r: Result<
        Value,
        FilterError,
    >) {
        let ghost gv = value;
        let x = match F::coerce(value) {
            Ok(x) => x,
            Err(e) => return Err(e),
        };
        let a = match F::Params::try_deserialize(args) {
            Ok(a) => a,
            Err(e) => return Err(e),
        };
        F::apply(x, a, ctx)
    }
}

/// The `dbg` filter.
pub struct Dbg;

impl Filter for Dbg {
    type Input = Value;
    type Params = DbgArgs;

    open spec fn coerced(value: Value) -> Result<Value, FilterError> {
        Ok(value)
    }

    open spec fn admits(value: Value) -> bool {
        true
    }

    open spec fn result(
        value: Value,
        args: DbgArgs,
        c0: Context,
        c1: Context,
        r: Result<Value, FilterError>,
    ) -> bool {
        dbg_result(value, args.msg, c0, c1, r)
    }

    fn coerce(value: Value) -> (r: Result<Value, FilterError>) {
        Ok(value)
    }

    fn apply(value: Value, args: DbgArgs, ctx: &mut Context) -> (r: Result<Value, FilterError>) {
        dbg(value, args.msg, ctx)
    }
}

/// The `tee` filter.
pub struct Tee;

impl Filter for Tee {
    type Input = Value;
    type Params = TeeArgs;

    open spec fn coerced(value: Value) -> Result<Value, FilterError> {
        Ok(value)
    }

    open spec fn admits(value: Value) -> bool {
        true
    }

    open spec fn result(
        value: Value,
        args: TeeArgs,
        c0: Context,
        c1: Context,
        r: Result<Value, FilterError>,
    ) -> bool {
        tee_result(value, args.into, c0, c1, r)
    }

    fn coerce(value: Value) -> (r: Result<Value, FilterError>) {
        Ok(value)
    }

    fn apply(value: Value, args: TeeArgs, ctx: &mut Context) -> (r: Result<Value, FilterError>) {
        tee(value, args.into, ctx)
    }
}

/// The `strip` filter.
pub struct Strip;

impl Filter for Strip {
    type Input = String;
    type Params = NoArgs;

    open spec fn coerced(value: Value) -> Result<String, FilterError> {
        match value {
            Value::String(s) => Ok(s),
            _ => Err(FilterError::TypeMismatch { expected: Kind::String, actual: value.spec_kind() }),
        }
    }

    open spec fn admits(value: Value) -> bool {
        true
    }

    open spec fn result(
        value: String,
        args: NoArgs,
        c0: Context,
        c1: Context,
        r: Result<Value, FilterError>,
    ) -> bool {
        c1 == c0 && strip_result(value, r)
    }

    fn coerce(value: Value) -> (r: Result<String, FilterError>) {
        as_string(value)
    }

    fn apply(value: String, args: NoArgs, ctx: &mut Context) -> (r: Result<Value, FilterError>) {
        strip(value)
    }
}

/// The `take` filter.
pub struct Take;

impl Filter for Take {
    type Input = Structure;
    type Params = TakeArgs;

    open spec fn coerced(value: Value) -> Result<Structure, FilterError> {
        match value {
            Value::Structure(s) => Ok(s),
            _ => Err(FilterError::TypeMismatch { expected: Kind::Structure, actual: value.spec_kind() }),
        }
    }

    open spec fn admits(value: Value) -> bool {
        value matches Value::Structure(s) ==> keys_unique(s@)
    }

    open spec fn result(
        value: Structure,
        args: TakeArgs,
        c0: Context,
        c1: Context,
        r: Result<Value, FilterError>,
    ) -> bool {
        c1 == c0 && take_result(value@, args.key@, r)
    }

    fn coerce(value: Value) -> (r: Result<Structure, FilterError>) {
        as_structure(value)
    }

    fn apply(value: Structure, args: TakeArgs, ctx: &mut Context) -> (r: Result<Value, FilterError>) {
        proof {
            let v = choose|v: Value| Self::admits(v) && Self::coerced(v) == Ok::<Structure, FilterError>(value);
            assert(keys_unique(value@));
        }
        take(value, args.key)
    }
}

/// The `attrs` filter.
pub struct Attrs;

impl Filter for Attrs {
    type Input = DocNode;
    type Params = NoArgs;

    open spec fn coerced(value: Value) -> Result<DocNode, FilterError> {
        match value {
            Value::Node(n) => Ok(n),
            _ => Err(FilterError::TypeMismatch { expected: Kind::Node, actual: value.spec_kind() }),
        }
    }

    open spec fn admits(value: Value) -> bool {
        true
    }

    open spec fn result(
        value: DocNode,
        args: NoArgs,
        c0: Context,
        c1: Context,
        r: Result<Value, FilterError>,
    ) -> bool {
        c1 == c0 && attrs_result(value, r)
    }

    fn coerce(value: Value) -> (r: Result<DocNode, FilterError>) {
        as_node(value)
    }

    fn apply(value: DocNode, args: NoArgs, ctx: &mut Context) -> (r: Result<Value, FilterError>) {
        attrs(value)
    }
}

/// The `int` filter.
pub struct Int;

impl Filter for Int {
    type Input = Or<i64, Or<u64, String>>;
    type Params = NoArgs;

    open spec fn coerced(value: Value) -> Result<Or<i64, Or<u64, String>>, FilterError> {
        match value {
            Value::Int(n) => Ok(Or::A(n)),
            Value::Float(b) => Ok(Or::B(Or::A(b))),
            Value::String(s) => Ok(Or::B(Or::B(s))),
            _ => Err(FilterError::TypeMismatch { expected: Kind::String, actual: value.spec_kind() }),
        }
    }

    open spec fn admits(value: Value) -> bool {
        true
    }

    open spec fn result(
        value: Or<i64, Or<u64, String>>,
        args: NoArgs,
        c0: Context,
        c1: Context,
        r: Result<Value, FilterError>,
    ) -> bool {
        c1 == c0 && int_result(value, r)
    }

    fn coerce(value: Value) -> (r: Result<Or<i64, Or<u64, String>>, FilterError>) {
        int_source(value)
    }

    fn apply(value: Or<i64, Or<u64, String>>, args: NoArgs, ctx: &mut Context) -> (r: Result<Value, FilterError>) {
        to_int(value)
    }
}

/// The `nth` filter.
pub struct Nth;

impl Filter for Nth {
    type Input = Vec<Value>;
    type Params = NthArgs;

    open spec fn coerced(value: Value) -> Result<Vec<Value>, FilterError> {
        match value {
            Value::List(l) => Ok(l),
            _ => Err(FilterError::TypeMismatch { expected: Kind::List, actual: value.spec_kind() }),
        }
    }

    open spec fn admits(value: Value) -> bool {
        true
    }

    open spec fn result(
        value: Vec<Value>,
        args: NthArgs,
        c0: Context,
        c1: Context,
        r: Result<Value, FilterError>,
    ) -> bool {
        c1 == c0 && nth_result(value@, args.i, r)
    }

    fn coerce(value: Value) -> (r: Result<Vec<Value>, FilterError>) {
        as_list(value)
    }

    fn apply(value: Vec<Value>, args: NthArgs, ctx: &mut Context) -> (r: Result<Value, FilterError>) {
        nth(value, args.i)
    }
}

/// The `keys` filter.
pub struct Keys;

impl Filter for Keys {
    type Input = Structure;
    type Params = NoArgs;

    open spec fn coerced(value: Value) -> Result<Structure, FilterError> {
        match value {
            Value::Structure(s) => Ok(s),
            _ => Err(FilterError::TypeMismatch { expected: Kind::Structure, actual: value.spec_kind() }),
        }
    }

    open spec fn admits(value: Value) -> bool {
        true
    }

    open spec fn result(
        value: Structure,
        args: NoArgs,
        c0: Context,
        c1: Context,
        r: Result<Value, FilterError>,
    ) -> bool {
        c1 == c0 && keys_result(value@, r)
    }

    fn coerce(value: Value) -> (r: Result<Structure, FilterError>) {
        as_structure(value)
    }

    fn apply(value: Structure, args: NoArgs, ctx: &mut Context) -> (r: Result<Value, FilterError>) {
        keys(value)
    }
}

/// The `values` filter.
pub struct Values;

impl Filter for Values {
    type Input = Structure;
    type Params = NoArgs;

    open spec fn coerced(value: Value) -> Result<Structure, FilterError> {
        match value {
            Value::Structure(s) => Ok(s),
            _ => Err(FilterError::TypeMismatch { expected: Kind::Structure, actual: value.spec_kind() }),
        }
    }

    open spec fn admits(value: Value) -> bool {
        true
    }

    open spec fn result(
        value: Structure,
        args: NoArgs,
        c0: Context,
        c1: Context,
        r: Result<Value, FilterError>,
    ) -> bool {
        c1 == c0 && values_result(value@, r)
    }

    fn coerce(value: Value) -> (r: Result<Structure, FilterError>) {
        as_structure(value)
    }

    fn apply(value: Structure, args: NoArgs, ctx: &mut Context) -> (r: Result<Value, FilterError>) {
        values(value)
    }
}

/// The `entries` filter.
pub struct Entries;

impl Filter for Entries {
    type Input = Structure;
    type Params = NoArgs;

    open spec fn coerced(value: Value) -> Result<Structure, FilterError> {
        match value {
            Value::Structure(s) => Ok(s),
            _ => Err(FilterError::TypeMismatch { expected: Kind::Structure, actual: value.spec_kind() }),
        }
    }

    open spec fn admits(value: Value) -> bool {
        true
    }

    open spec fn result(
        value: Structure,
        args: NoArgs,
        c0: Context,
        c1: Context,
        r: Result<Value, FilterError>,
    ) -> bool {
        c1 == c0 && entries_result(value@, r)
    }

    fn coerce(value: Value) -> (r: Result<Structure, FilterError>) {
        as_structure(value)
    }

    fn apply(value: Structure, args: NoArgs, ctx: &mut Context) -> (r: Result<Value, FilterError>) {
        entries(value)
    }
}

/// The `from_entries` filter.
pub struct FromEntries;

impl Filter for FromEntries {
    type Input = Vec<Value>;
    type Params = NoArgs;

    open spec fn coerced(value: Value) -> Result<Vec<Value>, FilterError> {
        match value {
            Value::List(l) => Ok(l),
            _ => Err(FilterError::TypeMismatch { expected: Kind::List, actual: value.spec_kind() }),
        }
    }

    open spec fn admits(value: Value) -> bool {
        true
    }

    open spec fn result(
        value: Vec<Value>,
        args: NoArgs,
        c0: Context,
        c1: Context,
        r: Result<Value, FilterError>,
    ) -> bool {
        c1 == c0 && from_entries_result(value@, r)
    }

    fn coerce(value: Value) -> (r: Result<Vec<Value>, FilterError>) {
        as_list(value)
    }

    fn apply(value: Vec<Value>, args: NoArgs, ctx: &mut Context) -> (r: Result<Value, FilterError>) {
        from_entries(value)
    }
}

} // verus!
