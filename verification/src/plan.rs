//! The shape of the code that the `rpc` attribute emits for an `impl` block:
//! the names of the generated items and, for each exported method, the request
//! variant, the client method and the server's match arm.
use vstd::prelude::*;
use crate::model::{Arg, Function, ImplItem, exported_all, get_function_types};

verus! {

/// The names of the items generated for a type.
#[derive(Debug)]
pub struct RpcNames {
    /// The request enum, `__<Type>RpcArg`: one variant per exported method.
    pub arg_enum: String,
    /// The client of the one-call-per-connection mode, `<Type>Rpc`.
    pub rpc_client: String,
    /// The message server of the persistent mode, `<Type>Server`.
    pub server: String,
    /// The client wrapper of the persistent mode, `<Type>Client`.
    pub client: String,
    /// The per-client connection record of the persistent mode, `<Type>Connection`.
    pub connection: String,
}

/// What is emitted for one exported method.
#[derive(Debug)]
pub struct MethodPlan {
    /// The method's name: also the name of its request variant.
    pub name: String,
    /// The parameters of the client method, as the exported method declares them.
    pub params: Vec<Arg>,
    /// The names that the request carries and that the server passes on to the
    /// method: those of the parameters whose pattern is a plain identifier, in order.
    pub arg_names: Vec<String>,
    /// The type that the client method returns inside its `Result`: the declared
    /// return type, or `()`.
    pub ret: String,
    /// Whether the request and the match arm name the arguments (`Variant(a, b)`)
    /// rather than the bare variant.
    pub request_carries_args: bool,
    /// Whether the request variant has tuple fields, one per parameter type.
    pub variant_has_fields: bool,
}

/// The whole plan for an `impl` block.
#[derive(Debug)]
pub struct RpcPlan {
    pub names: RpcNames,
    pub methods: Vec<MethodPlan>,
}

/// The views of a sequence of strings.
pub open spec fn views(s: Seq<String>) -> Seq<Seq<char>> {
    s.map_values(|x: String| x@)
}

/// The names bound by the parameters whose pattern is a plain identifier, in order.
pub open spec fn arg_idents(args: Seq<Arg>) -> Seq<Seq<char>> {
    args.filter_map(|a: Arg| match a.ident {
        Some(name) => Some(name@),
        None => None,
    })
}

/// The names that a request carries are those of the parameters whose pattern
/// is a plain identifier, every one of them, in order: there are as many names
/// as such parameters, and the k-th name is the k-th such parameter's.
pub proof fn lemma_arg_idents_are_the_named_params(args: Seq<Arg>)
    ensures
        ({
            let named = args.filter(|a: Arg| a.ident is Some);
            &&& arg_idents(args).len() == named.len()
            &&& forall|k: int| 0 <= k < named.len() ==> #[trigger] arg_idents(args)[k] == named[k].ident->0@
        }),
    decreases args.len(),
{
    reveal(Seq::filter);
    if args.len() > 0 {
        let pre = args.drop_last();
        lemma_arg_idents_are_the_named_params(pre);
        let named = args.filter(|a: Arg| a.ident is Some);
        let pnamed = pre.filter(|a: Arg| a.ident is Some);
        assert(named == (if args.last().ident is Some { pnamed.push(args.last()) } else { pnamed }));
        match args.last().ident {
            Some(n) => {
                assert(arg_idents(args) == arg_idents(pre) + seq![n@]);
                assert forall|k: int| 0 <= k < named.len() implies #[trigger] arg_idents(args)[k]
                    == named[k].ident->0@ by {
                    if k < pnamed.len() {
                        assert(arg_idents(args)[k] == arg_idents(pre)[k]);
                    }
                }
            },
            None => {
                assert(arg_idents(args) == arg_idents(pre));
            },
        }
    }
}

/// The returned type as it appears in the generated code.
pub open spec fn ret_text(ret: Option<String>) -> Seq<char> {
    match ret {
        Some(t) => t@,
        None => "()"@,
    }
}

/// `m` is what is emitted for the exported method `f`.
pub open spec fn plans_method(m: MethodPlan, f: Function) -> bool {
    &&& m.name == f.name
    &&& m.params == f.args
    &&& views(m.arg_names@) == arg_idents(f.args@)
    &&& m.ret@ == ret_text(f.ret)
    &&& m.request_carries_args == (arg_idents(f.args@).len() > 0)
    &&& m.variant_has_fields == (f.args@.len() > 0)
}

/// `names` are the names generated for the type named `t`.
pub open spec fn names_for(names: RpcNames, t: Seq<char>) -> bool {
    &&& names.arg_enum@ == "__"@ + t + "RpcArg"@
    &&& names.rpc_client@ == t + "Rpc"@
    &&& names.server@ == t + "Server"@
    &&& names.client@ == t + "Client"@
    &&& names.connection@ == t + "Connection"@
}

/// `s` followed by `suffix`.
fn suffixed(s: &str, suffix: &str) -> (r: String)
    ensures
        r@ == s@ + suffix@,
{
    let mut r = String::from_str(s);
    r.append(suffix);
    r
}

/// The names of the items generated for the type named `ty_name`.
pub fn rpc_names(ty_name: &str) -> (r: RpcNames)
    ensures
        names_for(r, ty_name@),
{
    let mut arg_enum = String::from_str("__");
    arg_enum.append(ty_name);
    arg_enum.append("RpcArg");
    RpcNames {
        arg_enum,
        rpc_client: suffixed(ty_name, "Rpc"),
        server: suffixed(ty_name, "Server"),
        client: suffixed(ty_name, "Client"),
        connection: suffixed(ty_name, "Connection"),
    }
}

/// The names that the request for a method with parameters `args` carries.
pub fn args_without_types(args: &Vec<Arg>) -> (r: Vec<String>)
    ensures
        views(r@) == arg_idents(args@),
        ({
            let named = args@.filter(|a: Arg| a.ident is Some);
            &&& r@.len() == named.len()
            &&& forall|k: int| 0 <= k < named.len() ==> (#[trigger] r@[k])@ == named[k].ident->0@
        }),
{
    let mut r: Vec<String> = Vec::new();
    let mut i: usize = 0;
    while i < args.len()
        invariant
            i <= args@.len(),
            views(r@) == arg_idents(args@.take(i as int)),
        decreases args@.len() - i,
    {
        assert(args@.take(i + 1).drop_last() =~= args@.take(i as int));
        match &args[i].ident {
            Some(name) => {
                let ghost before = r@;
                r.push(name.clone());
                assert(views(r@) =~= views(before).push(name@));
            },
            None => {},
        }
        i = i + 1;
    }
    assert(args@.take(args@.len() as int) =~= args@);
    proof {
        lemma_arg_idents_are_the_named_params(args@);
        assert forall|k: int| 0 <= k < r@.len() implies (#[trigger] r@[k])@ == views(r@)[k] by {}
    }
    r
}

/// What is emitted for the exported method `f`.
pub fn plan_method(f: Function) -> (m: MethodPlan)
    ensures
        plans_method(m, f),
{
    let arg_names = args_without_types(&f.args);
    let request_carries_args = arg_names.len() > 0;
    let variant_has_fields = f.args.len() > 0;
    let ret = match f.ret {
        Some(t) => t,
        None => String::from_str("()"),
    };
    assert(views(arg_names@).len() == arg_names@.len());
    MethodPlan {
        name: f.name,
        params: f.args,
        arg_names,
        ret,
        request_carries_args,
        variant_has_fields,
    }
}

/// The plan for the `impl` block of the type named `ty_name` with the items `items`:
/// the generated names, and one method plan per exported method, in order.
pub fn plan(ty_name: &str, items: Vec<ImplItem>) -> (r: RpcPlan)
    ensures
        names_for(r.names, ty_name@),
        r.methods@.len() == exported_all(items@).len(),
        forall|i: int|
            0 <= i < r.methods@.len() ==> plans_method(#[trigger] r.methods@[i], exported_all(items@)[i]),
{
    let names = rpc_names(ty_name);
    let ft = get_function_types(items);
    let ghost fs = ft.functions@;
    let mut functions = ft.functions;
    let mut methods: Vec<MethodPlan> = Vec::new();
    let mut k: usize = 0;
    assert(fs.len() == functions.len());
    while functions.len() > 0
        invariant
            k <= fs.len() <= usize::MAX,
            functions@ == fs.skip(k as int),
            functions@.len() == fs.len() - k,
            methods@.len() == k,
            forall|i: int| 0 <= i < k ==> plans_method(#[trigger] methods@[i], fs[i]),
        decreases functions@.len(),
    {
        let f = functions.remove(0);
        assert(f == fs[k as int]);
        methods.push(plan_method(f));
        k = k + 1;
        assert(functions@ =~= fs.skip(k as int));
    }
    RpcPlan { names, methods }
}

} // verus!
