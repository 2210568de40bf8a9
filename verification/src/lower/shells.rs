//! The functions declarations are lowered into, before they have bodies.

use vstd::prelude::*;

use crate::ast::{Expr, FunctionItem};
use crate::inst::{Inst, InstKind, InstKindView, InstView, Terminator, TerminatorView, Trap, Value};
use crate::program::{
    id_limit, views, Field, FieldView, FuncId, Function, FunctionView, Inline, Interface,
    InterfaceView, Method, MethodView, Nominal, NominalView, Shape, ShapeView, Variant, VariantView,
};
use crate::sema::{Signature, VariantType};
use crate::span::Span;
use crate::text::{clone_names, decimal, is_named, maybe_name, names, number, same_text};
use crate::ty::{clone_tys, tys, Builtin, Ty, TyView};

use super::body::given::{maybe_expr, maybe_expr_view, Bound};
use super::body::kinds::{builtin_over, builtin_over_view, thrown_or, thrown_or_view};
use super::body::{Parameter, ParameterView};
use super::declared::{texts, texts_view};
use super::state::{maybe_owner, parameters, parameters_view, Owner, OwnerView};

verus! {

/// No fields.
pub fn no_fields() -> (fields: Vec<Field>)
    ensures
        views(fields@) == Seq::<FieldView>::empty(),
{
    let fields: Vec<Field> = Vec::new();
    assert(views(fields@) =~= Seq::empty());
    fields
}

/// No variants.
pub fn no_variants() -> (variants: Vec<Variant>)
    ensures
        views(variants@) == Seq::<VariantView>::empty(),
{
    let variants: Vec<Variant> = Vec::new();
    assert(views(variants@) =~= Seq::empty());
    variants
}

/// A position as text.
pub open spec fn numbered_view(index: nat) -> Seq<char> {
    decimal(index)
}

/// A position as text.
pub fn numbered(index: usize) -> (text: String)
    ensures
        text@ == numbered_view(index as nat),
{
    number(index as u64)
}

/// What a variant carries, from `from` on.
pub open spec fn variant_from(
    variants: Seq<(String, VariantType)>,
    name: Seq<char>,
    from: nat,
) -> Option<VariantType>
    decreases variants.len() - from,
{
    if from >= variants.len() {
        None
    } else if variants[from as int].0@ == name {
        Some(variants[from as int].1)
    } else {
        variant_from(variants, name, from + 1)
    }
}

/// What a variant carries.
pub open spec fn variant_type_view(
    variants: Seq<(String, VariantType)>,
    name: Seq<char>,
) -> Option<VariantType> {
    variant_from(variants, name, 0)
}

/// What a variant carries.
pub fn variant_type<'a>(variants: &'a Vec<(String, VariantType)>, name: &str) -> (found: Option<
    &'a VariantType,
>)
    ensures
        match found {
            Some(held) => variant_type_view(variants@, name@) == Some(*held),
            None => variant_type_view(variants@, name@) is None,
        },
{
    let mut i: usize = 0;
    while i < variants.len()
        invariant
            i <= variants.len(),
            variant_type_view(variants@, name@) == variant_from(variants@, name@, i as nat),
        decreases variants.len() - i,
    {
        if same_text(variants[i].0.as_str(), name) {
            return Some(&variants[i].1);
        }
        i += 1;
    }
    None
}

/// A function with no body yet, which says it never returns where it will get
/// one. One with more parameters than can be told apart takes none.
pub open spec fn shell_view(
    name: Seq<char>,
    type_params: Seq<Seq<char>>,
    params: Seq<TyView>,
    result: TyView,
    span: Span,
    bodied: bool,
) -> FunctionView {
    let taken = if params.len() <= id_limit() {
        params
    } else {
        Seq::empty()
    };
    let fresh = FunctionView::fresh(name, taken, result, span);
    let ended = if bodied {
        fresh.end_block(fresh.entry, TerminatorView::Trap(Trap::Unreachable))
    } else {
        fresh
    };
    FunctionView { type_params, ..ended }
}

/// A function with no body yet.
pub fn shell(
    name: String,
    type_params: Vec<String>,
    params: Vec<Ty>,
    result: Ty,
    span: Span,
    bodied: bool,
) -> (function: Function)
    ensures
        function@ == shell_view(name@, names(type_params@), tys(params@), result@, span, bodied),
{
    let taken = if params.len() as u64 <= 0x1_0000_0000 {
        params
    } else {
        Vec::new()
    };
    assert(params@.len() > id_limit() ==> tys(taken@) =~= Seq::empty());
    let mut function = Function::new(name, taken, result, span);
    if bodied {
        let entry = function.entry;
        function.end_block(entry, Terminator::Trap(Trap::Unreachable));
    }
    function.type_params = type_params;
    function
}

/// What a declaration says of a function besides what it takes.
pub open spec fn dressed_view(
    function: FunctionView,
    asynchronous: bool,
    inline: Inline,
    external: Option<Seq<char>>,
    c_abi: bool,
) -> FunctionView {
    FunctionView { asynchronous, inline, external, c_abi, ..function }
}

/// What a declaration says of a function besides what it takes.
pub fn dressed(
    function: Function,
    asynchronous: bool,
    inline: Inline,
    external: Option<String>,
    c_abi: bool,
) -> (dressed: Function)
    ensures
        dressed@ == dressed_view(function@, asynchronous, inline, maybe_name(external), c_abi),
{
    let mut held = function;
    held.asynchronous = asynchronous;
    held.inline = inline;
    held.external = external;
    held.c_abi = c_abi;
    held
}

/// Type parameters with those of an owner before them, each once, from `from`
/// on.
pub open spec fn owned_from(owner: Seq<Seq<char>>, own: Seq<Seq<char>>, from: nat) -> Seq<Seq<char>>
    decreases owner.len() - from,
{
    if from >= owner.len() {
        own
    } else {
        let rest = owned_from(owner, own, from + 1);
        if rest.contains(owner[from as int]) {
            rest
        } else {
            seq![owner[from as int]] + rest
        }
    }
}

/// Type parameters with those of an owner before them, each once.
pub open spec fn all_params_view(owner: Option<OwnerView>, own: Seq<Seq<char>>) -> Seq<Seq<char>> {
    match owner {
        Some(held) => owned_from(held.params, own, 0),
        None => own,
    }
}

/// Type parameters with those of an owner before them, each once.
pub fn all_params(owner: &Option<Owner>, own: &Vec<String>) -> (params: Vec<String>)
    ensures
        names(params@) == all_params_view(maybe_owner(*owner), names(own@)),
{
    let mut params = clone_names(own);
    match owner {
        Some(held) => {
            let mut i: usize = held.params.len();
            while i > 0
                invariant
                    i <= held.params.len(),
                    names(params@) == owned_from(names(held.params@), names(own@), i as nat),
                decreases i,
            {
                i -= 1;
                if !is_named(&params, held.params[i].as_str()) {
                    let ghost before = params@;
                    params.insert(0, held.params[i].clone());
                    assert(names(params@) =~= seq![names(held.params@)[i as int]] + names(before));
                }
            }
        },
        None => {},
    }
    params
}

/// The type a parameter is passed at: what a variadic one takes is gathered.
pub open spec fn passed_at(param: ParameterView) -> TyView {
    if param.variadic {
        builtin_over_view(Builtin::FrozenList, param.ty)
    } else {
        param.ty
    }
}

/// The types a function takes: its receiver where it has one, and its
/// parameters.
pub open spec fn passed_types_view(owner: Option<OwnerView>, taken: Seq<ParameterView>) -> Seq<
    TyView,
> {
    let rest = Seq::new(taken.len(), |i: int| passed_at(taken[i]));
    match owner {
        Some(held) => seq![held.ty] + rest,
        None => rest,
    }
}

/// The types a function takes.
pub fn passed_types<'a>(owner: &Option<Owner>, taken: &Vec<Parameter<'a>>) -> (types: Vec<Ty>)
    ensures
        tys(types@) == passed_types_view(maybe_owner(*owner), views(taken@)),
{
    let mut types: Vec<Ty> = Vec::new();
    match owner {
        Some(held) => {
            types.push(held.ty.clone());
        },
        None => {},
    }
    let ghost first = tys(types@);
    let mut i: usize = 0;
    assert(first + Seq::new(0, |k: int| passed_at(views(taken@)[k])) =~= first);
    while i < taken.len()
        invariant
            i <= taken.len(),
            tys(types@) == first + Seq::new(i as nat, |k: int| passed_at(views(taken@)[k])),
        decreases taken.len() - i,
    {
        let ghost before = types@;
        let ty = if taken[i].variadic {
            builtin_over(Builtin::FrozenList, taken[i].ty.clone())
        } else {
            taken[i].ty.clone()
        };
        types.push(ty);
        assert(tys(types@) =~= tys(before).push(passed_at(views(taken@)[i as int])));
        assert(tys(types@) =~= first + Seq::new(
            (i + 1) as nat,
            |k: int| passed_at(views(taken@)[k]),
        ));
        i += 1;
    }
    assert(tys(types@) =~= passed_types_view(maybe_owner(*owner), views(taken@)));
    types
}

/// What a parameter of a declaration is bound to: as it is written, or by its
/// name where it is not.
pub open spec fn bound_at<'a>(
    function: FunctionItem,
    signature: Signature,
    index: int,
) -> Bound<'a> {
    let at = if signature.takes_self {
        index + 1
    } else {
        index
    };
    if at < function.params@.len() {
        Bound::Written(&function.params@[at].binding)
    } else {
        Bound::Named(&signature.params@[index].name)
    }
}

/// What the entry of a declared function binds.
pub open spec fn bindings_of_view<'a>(
    received: bool,
    function: FunctionItem,
    signature: Signature,
) -> Seq<Bound<'a>> {
    let rest = Seq::new(signature.params@.len(), |i: int| bound_at(function, signature, i));
    if received {
        seq![Bound::Receiver] + rest
    } else {
        rest
    }
}

/// What the entry of a declared function binds.
pub fn bindings_of<'a>(received: bool, function: &'a FunctionItem, signature: &'a Signature) -> (bound:
    Vec<Bound<'a>>)
    ensures
        bound@ == bindings_of_view(received, *function, *signature),
{
    let mut bound: Vec<Bound<'a>> = Vec::new();
    if received {
        bound.push(Bound::Receiver);
    }
    let ghost first = bound@;
    let mut i: usize = 0;
    assert(first + Seq::new(0, |k: int| bound_at(*function, *signature, k)) =~= first);
    while i < signature.params.len()
        invariant
            i <= signature.params.len(),
            bound@ == first + Seq::new(i as nat, |k: int| bound_at(*function, *signature, k)),
        decreases signature.params.len() - i,
    {
        let ghost before = bound@;
        if signature.takes_self {
            if i < function.params.len() && i + 1 < function.params.len() {
                bound.push(Bound::Written(&function.params[i + 1].binding));
            } else {
                bound.push(Bound::Named(&signature.params[i].name));
            }
        } else if i < function.params.len() {
            bound.push(Bound::Written(&function.params[i].binding));
        } else {
            bound.push(Bound::Named(&signature.params[i].name));
        }
        assert(bound@ =~= before.push(bound_at(*function, *signature, i as int)));
        assert(bound@ =~= first + Seq::new(
            (i + 1) as nat,
            |k: int| bound_at(*function, *signature, k),
        ));
        i += 1;
    }
    assert(bound@ =~= bindings_of_view(received, *function, *signature));
    bound
}

/// The default written beside a parameter.
pub open spec fn default_written_view<'a>(
    function: FunctionItem,
    takes_self: bool,
    index: nat,
) -> Option<&'a Expr> {
    let at = if takes_self {
        index + 1
    } else {
        index
    };
    if at < function.params@.len() {
        maybe_expr_view(function.params@[at as int].default)
    } else {
        None
    }
}

/// The default written beside a parameter.
pub fn default_written<'a>(function: &'a FunctionItem, takes_self: bool, index: usize) -> (found:
    Option<&'a Expr>)
    ensures
        found == default_written_view(*function, takes_self, index as nat),
{
    if takes_self {
        if index < function.params.len() && index + 1 < function.params.len() {
            maybe_expr(&function.params[index + 1].default)
        } else {
            None
        }
    } else if index < function.params.len() {
        maybe_expr(&function.params[index].default)
    } else {
        None
    }
}

/// What a function gives back: what it returned, or that or what it threw.
pub open spec fn given_back_view(result: TyView, throws: bool) -> TyView {
    if throws {
        thrown_or_view(result)
    } else {
        result
    }
}

/// What a function gives back.
pub fn given_back(result: Ty, throws: bool) -> (ty: Ty)
    ensures
        ty@ == given_back_view(result@, throws),
{
    if throws {
        thrown_or(result)
    } else {
        result
    }
}

/// One type.
pub open spec fn one_type_view(ty: TyView) -> Seq<TyView> {
    seq![ty]
}

/// One type.
pub fn one_type(ty: &Ty) -> (types: Vec<Ty>)
    ensures
        tys(types@) == one_type_view(ty@),
{
    let mut types: Vec<Ty> = Vec::new();
    types.push(ty.clone());
    assert(tys(types@) =~= seq![ty@]);
    types
}

/// Two types.
pub open spec fn two_types_view(first: TyView, second: TyView) -> Seq<TyView> {
    seq![first, second]
}

/// Two types.
pub fn two_types(first: &Ty, second: &Ty) -> (types: Vec<Ty>)
    ensures
        tys(types@) == two_types_view(first@, second@),
{
    let mut types: Vec<Ty> = Vec::new();
    types.push(first.clone());
    types.push(second.clone());
    assert(tys(types@) =~= seq![first@, second@]);
    types
}

/// A type after the types of some parameters' receiver.
pub open spec fn after_first_view(first: TyView, taken: Seq<ParameterView>) -> Seq<TyView> {
    seq![first] + Seq::new(taken.len(), |i: int| taken[i].ty)
}

/// A type after the types of some parameters' receiver.
pub fn after_first<'a>(first: &Ty, taken: &Vec<Parameter<'a>>) -> (types: Vec<Ty>)
    ensures
        tys(types@) == after_first_view(first@, views(taken@)),
{
    let mut types: Vec<Ty> = Vec::new();
    types.push(first.clone());
    let mut i: usize = 0;
    while i < taken.len()
        invariant
            i <= taken.len(),
            types@.len() == i + 1,
            types@[0]@ == first@,
            forall|k: int| 0 < k <= i ==> (#[trigger] types@[k])@ == taken@[k - 1].ty@,
        decreases taken.len() - i,
    {
        types.push(taken[i].ty.clone());
        i += 1;
    }
    assert(tys(types@) =~= after_first_view(first@, views(taken@)));
    types
}

/// Only `self` bound.
pub open spec fn receiver_only_view<'a>() -> Seq<Bound<'a>> {
    seq![Bound::Receiver]
}

/// Only `self` bound.
pub fn receiver_only<'a>() -> (bound: Vec<Bound<'a>>)
    ensures
        bound@ == receiver_only_view(),
{
    let mut bound: Vec<Bound<'a>> = Vec::new();
    bound.push(Bound::Receiver);
    assert(bound@ =~= receiver_only_view());
    bound
}

/// `self` bound, and a name.
pub open spec fn receiver_and_view<'a>(name: &'a String) -> Seq<Bound<'a>> {
    seq![Bound::Receiver, Bound::Named(name)]
}

/// `self` bound, and a name.
pub fn receiver_and<'a>(name: &'a String) -> (bound: Vec<Bound<'a>>)
    ensures
        bound@ == receiver_and_view(name),
{
    let mut bound: Vec<Bound<'a>> = Vec::new();
    bound.push(Bound::Receiver);
    bound.push(Bound::Named(name));
    assert(bound@ =~= receiver_and_view(name));
    bound
}

/// Nothing bound.
pub fn nothing_bound<'a>() -> (bound: Vec<Bound<'a>>)
    ensures
        bound@ == Seq::<Bound<'a>>::empty(),
{
    Vec::new()
}

/// The interface a type is, where it is one.
pub open spec fn interface_in_view(nominal: NominalView) -> Option<InterfaceView> {
    match nominal.shape {
        ShapeView::Interface(held) => Some(held),
        _ => None,
    }
}

/// The interface a type is, where it is one.
pub fn interface_in(nominal: &Nominal) -> (found: Option<&Interface>)
    ensures
        match found {
            Some(held) => interface_in_view(nominal@) == Some(held@),
            None => interface_in_view(nominal@) is None,
        },
{
    match &nominal.shape {
        Shape::Interface(held) => Some(held),
        _ => None,
    }
}

/// Whether a method of an interface may throw.
pub open spec fn slot_throws_view(methods: Seq<MethodView>, slot: nat) -> bool {
    slot < methods.len() && methods[slot as int].throws
}

/// Whether a method of an interface may throw.
pub fn slot_throws(methods: &Vec<Method>, slot: usize) -> (found: bool)
    ensures
        found == slot_throws_view(views(methods@), slot as nat),
{
    slot < methods.len() && methods[slot].throws
}

/// What a function gives back besides what it threw, and whether it throws.
pub open spec fn declared_half_view(result: TyView) -> (TyView, bool) {
    match result {
        TyView::Builtin { kind: Builtin::Result, args } => if args.len() > 1 && args[1]
            == TyView::Dynamic {
            (args[0], true)
        } else {
            (result, false)
        },
        _ => (result, false),
    }
}

fn declared_half(result: &Ty) -> (half: (Ty, bool))
    ensures
        (half.0@, half.1) == declared_half_view(result@),
{
    match result {
        Ty::Builtin { kind: Builtin::Result, args } => {
            assert(result@ == TyView::Builtin { kind: Builtin::Result, args: tys(args@) });
            if args.len() > 1 && args[1].same(&Ty::Dynamic) {
                assert(tys(args@)[1] == TyView::Dynamic && tys(args@)[0] == args@[0]@);
                (args[0].clone(), true)
            } else {
                (result.clone(), false)
            }
        },
        _ => (result.clone(), false),
    }
}

/// A function that calls another and gives back what it returned or what it
/// threw, whether the other throws or not.
pub open spec fn adapter_view(source: FunctionView, name: Seq<char>, callee: FuncId) -> FunctionView {
    let (declared, throws) = declared_half_view(source.result);
    let fresh = FunctionView {
        type_params: source.type_params,
        ..FunctionView::fresh(name, source.params, thrown_or_view(declared), source.span)
    };
    let called = fresh.next_value();
    let calling = fresh.add_value(source.result).push_inst(
        fresh.entry,
        InstView {
            result: Some(called),
            kind: InstKindView::Call {
                callee,
                type_args: parameters_view(source.type_params),
                args: fresh.block(fresh.entry).params,
            },
            span: source.span,
        },
    );
    if throws {
        calling.end_block(fresh.entry, TerminatorView::Return(called))
    } else {
        let given = calling.next_value();
        calling.add_value(fresh.result).push_inst(
            fresh.entry,
            InstView {
                result: Some(given),
                kind: InstKindView::MakeEnum {
                    ty: fresh.result,
                    variant: 0,
                    payload: seq![called],
                },
                span: source.span,
            },
        ).end_block(fresh.entry, TerminatorView::Return(given))
    }
}

/// A function that calls another and gives back what it returned or what it
/// threw.
pub fn adapter(source: &Function, name: String, callee: FuncId) -> (function: Function)
    requires
        source@.params.len() + 2 <= id_limit(),
    ensures
        function@ == adapter_view(source@, name@, callee),
{
    let (declared, throws) = declared_half(&source.result);
    let params = clone_tys(&source.params);
    let mut function = Function::new(name, params, thrown_or(declared), source.span);
    function.type_params = clone_names(&source.type_params);
    let entry = function.entry;
    let args = crate::inst::clone_values(&function.block(entry).params);
    let called = function.add_value(source.result.clone());
    function.push_inst(
        entry,
        Inst {
            result: Some(called),
            kind: InstKind::Call { callee, type_args: parameters(&source.type_params), args },
            span: source.span,
        },
    );
    if throws {
        function.end_block(entry, Terminator::Return(called));
    } else {
        let ty = function.result.clone();
        let given = function.add_value(function.result.clone());
        let mut payload: Vec<Value> = Vec::new();
        payload.push(called);
        assert(payload@ =~= seq![called]);
        function.push_inst(
            entry,
            Inst {
                result: Some(given),
                kind: InstKind::MakeEnum { ty, variant: 0, payload },
                span: source.span,
            },
        );
        function.end_block(entry, Terminator::Return(given));
    }
    function
}

/// What an adapter is called.
pub open spec fn adapter_name_view(source: Seq<char>, index: nat) -> Seq<char> {
    texts_view(source, "#virtual"@, decimal(index))
}

/// What an adapter is called.
pub fn adapter_name(source: &str, index: usize) -> (name: String)
    ensures
        name@ == adapter_name_view(source@, index as nat),
{
    let written = number(index as u64);
    texts(source, "#virtual", written.as_str())
}

/// What a setter is called.
pub open spec fn setter_name_view(path: Seq<char>) -> Seq<char> {
    texts_view(path, "="@, ""@)
}

/// What a setter is called.
pub fn setter_name(path: &str) -> (name: String)
    ensures
        name@ == setter_name_view(path@),
{
    texts(path, "=", "")
}

/// What a method that cannot be resolved is reported as.
pub open spec fn unresolved_view(name: Seq<char>, method: Seq<char>) -> Seq<char> {
    texts_view(
        "`"@,
        name,
        texts_view("` implementing `"@, method, "` in a way the compiler cannot resolve"@),
    )
}

/// What a method that cannot be resolved is reported as.
pub fn unresolved(name: &str, method: &str) -> (what: String)
    ensures
        what@ == unresolved_view(name@, method@),
{
    let rest = texts("` implementing `", method, "` in a way the compiler cannot resolve");
    texts("`", name, rest.as_str())
}

} // verus!
