//! What the `rpc` attribute reads of the `impl` block it is placed on, held as
//! plain values, and the selection of the methods that make up the RPC interface.
use vstd::prelude::*;

verus! {

/// How a method takes `self`.
#[derive(Clone, Copy, PartialEq, Eq, Structural, Debug)]
pub enum SelfKind {
    /// No `self` parameter at all (an associated function).
    NoSelf,
    /// `self` taken without a leading reference (`self`, `mut self`, `self: Box<Self>`).
    Owned,
    /// `&self` or `&mut self`.
    Reference,
}

/// A typed parameter of a method: `pat: ty`.
#[derive(Debug)]
pub struct Arg {
    /// The pattern, as written.
    pub pat: String,
    /// The bound name, where the pattern is a plain identifier.
    pub ident: Option<String>,
    /// The parameter's type, as written.
    pub ty: String,
}

/// A method of the annotated `impl` block.
#[derive(Debug)]
pub struct ImplFn {
    pub name: String,
    /// Whether the method is declared `pub`.
    pub is_public: bool,
    pub receiver: SelfKind,
    /// The typed parameters, in order, without the receiver.
    pub args: Vec<Arg>,
    /// The declared return type; `None` for the default `()`.
    pub ret: Option<String>,
}

/// An item of the annotated `impl` block.
#[derive(Debug)]
pub enum ImplItem {
    Fn(ImplFn),
    /// Constants, types and macros, which the interface ignores.
    Other,
}

/// A method that is exported through RPC: its name, parameters and return type.
#[derive(Debug)]
pub struct Function {
    pub name: String,
    pub args: Vec<Arg>,
    pub ret: Option<String>,
}

/// The exported methods of an `impl` block, in the order in which they are declared.
#[derive(Debug)]
pub struct FunctionTypes {
    pub functions: Vec<Function>,
}

/// The method that `item` exports, if any: only public methods that take
/// `self` by reference are exported.
pub open spec fn exported(item: ImplItem) -> Option<Function> {
    match item {
        ImplItem::Fn(f) => if f.is_public && f.receiver == SelfKind::Reference {
            Some(Function { name: f.name, args: f.args, ret: f.ret })
        } else {
            None
        },
        ImplItem::Other => None,
    }
}

/// The methods that `items` export, in order.
pub open spec fn exported_all(items: Seq<ImplItem>) -> Seq<Function> {
    items.filter_map(|item: ImplItem| exported(item))
}

/// Every public method of the block that takes `self` by reference is exported.
pub proof fn lemma_public_ref_methods_are_exported(items: Seq<ImplItem>, j: int)
    requires
        0 <= j < items.len(),
        exported(items[j]) is Some,
    ensures
        exported_all(items).contains(exported(items[j])->0),
    decreases items.len(),
{
    let rest = items.drop_last();
    if j == items.len() - 1 {
        assert(exported_all(items) == exported_all(rest) + seq![exported(items[j])->0]);
        assert(exported_all(items)[exported_all(rest).len() as int] == exported(items[j])->0);
    } else {
        assert(rest[j] == items[j]);
        lemma_public_ref_methods_are_exported(rest, j);
        let k = choose|k: int|
            0 <= k < exported_all(rest).len() && exported_all(rest)[k] == exported(items[j])->0;
        match exported(items.last()) {
            Some(f) => {
                assert(exported_all(items) == exported_all(rest) + seq![f]);
                assert(exported_all(items)[k] == exported_all(rest)[k]);
            },
            None => {},
        }
    }
}

/// Only public methods that take `self` by reference are exported: each
/// exported function is such a method of the block, with its name, parameters
/// and return type.
pub proof fn lemma_exported_are_public_ref_methods(items: Seq<ImplItem>, f: Function)
    requires
        exported_all(items).contains(f),
    ensures
        exists|j: int|
            0 <= j < items.len() && {
                &&& #[trigger] items[j] matches ImplItem::Fn(m)
                &&& m.is_public
                &&& m.receiver == SelfKind::Reference
                &&& f == (Function { name: m.name, args: m.args, ret: m.ret })
            },
{
    items.lemma_filter_map_contains(|item: ImplItem| exported(item), f);
    let t = choose|t: ImplItem| #[trigger] items.contains(t) && exported(t) == Some(f);
    let j = choose|j: int| 0 <= j < items.len() && items[j] == t;
    assert(items[j] == t);
}

/// Every public method of the block that takes `self` by reference is
/// exported, with its name, parameters and return type, whatever its
/// parameters and return type are.
pub proof fn lemma_every_public_ref_method_is_exported(items: Seq<ImplItem>, j: int)
    requires
        0 <= j < items.len(),
    ensures
        items[j] matches ImplItem::Fn(m) ==> (m.is_public && m.receiver == SelfKind::Reference
            ==> exported_all(items).contains(Function { name: m.name, args: m.args, ret: m.ret })),
{
    if let ImplItem::Fn(m) = items[j] {
        if m.is_public && m.receiver == SelfKind::Reference {
            assert(exported(items[j]) == Some(Function { name: m.name, args: m.args, ret: m.ret }));
            lemma_public_ref_methods_are_exported(items, j);
        }
    }
}

/// Collects the methods of an `impl` block that make up its RPC interface.
pub fn get_function_types(items: Vec<ImplItem>) -> (r: FunctionTypes)
    ensures
        r.functions@ == exported_all(items@),
        forall|j: int|
            0 <= j < items@.len() ==> (#[trigger] items@[j] matches ImplItem::Fn(m) ==> (m.is_public
                && m.receiver == SelfKind::Reference ==> r.functions@.contains(
                Function { name: m.name, args: m.args, ret: m.ret },
            ))),
        forall|f: Function|
            #[trigger] r.functions@.contains(f) ==> exists|j: int|
                0 <= j < items@.len() && {
                    &&& #[trigger] items@[j] matches ImplItem::Fn(m)
                    &&& m.is_public
                    &&& m.receiver == SelfKind::Reference
                    &&& f == (Function { name: m.name, args: m.args, ret: m.ret })
                },
{
    let ghost orig = items@;
    let mut items = items;
    assert(orig.len() == items.len());
    let mut functions: Vec<Function> = Vec::new();
    let mut k: usize = 0;
    while items.len() > 0
        invariant
            k <= orig.len() <= usize::MAX,
            items@ == orig.skip(k as int),
            items@.len() == orig.len() - k,
            functions@ == exported_all(orig.take(k as int)),
        decreases items@.len(),
    {
        let item = items.remove(0);
        assert(orig.take(k + 1).drop_last() =~= orig.take(k as int));
        assert(orig.take(k + 1).last() == item);
        match item {
            ImplItem::Fn(func) => {
                if func.is_public && func.receiver == SelfKind::Reference {
                    functions.push(Function { name: func.name, args: func.args, ret: func.ret });
                }
            },
            ImplItem::Other => {},
        }
        k = k + 1;
        assert(items@ =~= orig.skip(k as int));
    }
    assert(orig.take(k as int) =~= orig);
    proof {
        assert forall|j: int| 0 <= j < orig.len() implies (#[trigger] orig[j] matches ImplItem::Fn(
            m,
        ) ==> (m.is_public && m.receiver == SelfKind::Reference ==> functions@.contains(
            Function { name: m.name, args: m.args, ret: m.ret },
        ))) by {
            lemma_every_public_ref_method_is_exported(orig, j);
        }
        assert forall|f: Function| #[trigger] functions@.contains(f) implies exists|j: int|
            0 <= j < orig.len() && {
                &&& #[trigger] orig[j] matches ImplItem::Fn(m)
                &&& m.is_public
                &&& m.receiver == SelfKind::Reference
                &&& f == (Function { name: m.name, args: m.args, ret: m.ret })
            } by {
            lemma_exported_are_public_ref_methods(orig, f);
        }
    }
    FunctionTypes { functions }
}

} // verus!
