//! What is handed to a call, and what is bound on the way into a body.

use vstd::prelude::*;

use crate::ast::{Argument, Binding, Expr, ExprKind, FunctionBody, Param};
use crate::inst::{clone_values, Value};
use crate::span::Span;
use crate::text::{names, same_text};
use crate::ty::{maybe_ty, tys, Builtin, Ty, TyView};

use super::kinds::{args_of, args_of_view, opt_ty};

use super::{Callee, CalleeView};

verus! {

/// One argument of a call.
#[derive(Clone, Copy)]
pub struct Given<'a> {
    /// The parameter it names, where it names one.
    pub name: Option<&'a String>,
    pub value: &'a Expr,
}

/// What is bound to a parameter of a function.
#[derive(Clone, Copy)]
pub enum Bound<'a> {
    /// `self`.
    Receiver,
    Written(&'a Binding),
    /// A name the declaration does not write out.
    Named(&'a String),
}

/// The name an argument is written with.
pub open spec fn name_of(name: Option<String>) -> Option<&'static String> {
    match name {
        Some(held) => Some(&held),
        None => None,
    }
}

/// The arguments written at a call.
pub open spec fn given_view<'a>(args: Seq<Argument>) -> Seq<Given<'a>> {
    Seq::new(args.len(), |i: int| Given { name: name_of(args[i].name), value: &args[i].value })
}

/// The arguments written at a call.
pub fn given<'a>(args: &'a Vec<Argument>) -> (list: Vec<Given<'a>>)
    ensures
        list@ == given_view(args@),
{
    let mut list: Vec<Given<'a>> = Vec::new();
    let mut i: usize = 0;
    while i < args.len()
        invariant
            i <= args.len(),
            list@.len() == i,
            forall|k: int|
                0 <= k < i ==> #[trigger] list@[k] == (Given {
                    name: name_of(args@[k].name),
                    value: &args@[k].value,
                }),
        decreases args.len() - i,
    {
        let name = match &args[i].name {
            Some(held) => Some(held),
            None => None,
        };
        list.push(Given { name, value: &args[i].value });
        i += 1;
    }
    assert(list@ =~= given_view(args@));
    list
}

/// One argument, in the first position.
pub open spec fn given_one_view<'a>(value: Expr) -> Seq<Given<'a>> {
    seq![Given { name: None, value: &value }]
}

/// One argument, in the first position.
pub fn given_one<'a>(value: &'a Expr) -> (list: Vec<Given<'a>>)
    ensures
        list@ == given_one_view(*value),
{
    let mut list: Vec<Given<'a>> = Vec::new();
    list.push(Given { name: None, value });
    assert(list@ =~= given_one_view(*value));
    list
}

/// No arguments.
pub fn none_given<'a>() -> (list: Vec<Given<'a>>)
    ensures
        list@ == Seq::<Given<'a>>::empty(),
{
    let list: Vec<Given<'a>> = Vec::new();
    assert(list@ =~= Seq::empty());
    list
}

/// No names.
pub fn no_names() -> (list: Vec<String>)
    ensures
        names(list@) == Seq::<Seq<char>>::empty(),
{
    let list: Vec<String> = Vec::new();
    assert(names(list@) =~= Seq::empty());
    list
}

/// Whether any of the first `count` arguments names its parameter.
pub open spec fn any_named_among(args: Seq<Given>, count: nat) -> bool
    decreases count,
{
    count > 0 && (args[count - 1].name is Some || any_named_among(args, (count - 1) as nat))
}

/// Whether any argument names its parameter.
pub open spec fn any_named_view(args: Seq<Given>) -> bool {
    any_named_among(args, args.len())
}

/// Whether any argument names its parameter.
pub fn any_named(args: &Vec<Given>) -> (found: bool)
    ensures
        found == any_named_view(args@),
{
    let mut found = false;
    let mut i: usize = 0;
    while i < args.len()
        invariant
            i <= args.len(),
            found == any_named_among(args@, i as nat),
        decreases args.len() - i,
    {
        if args[i].name.is_some() {
            found = true;
        }
        i += 1;
    }
    found
}

/// Where the variadic parameter of a function sits, from `from` on.
pub open spec fn variadic_from(reached: CalleeView, from: nat) -> Option<usize>
    decreases reached.params.len() - from,
{
    if from >= reached.params.len() {
        None
    } else if reached.params[from as int].variadic {
        Some(from as usize)
    } else {
        variadic_from(reached, from + 1)
    }
}

/// Where the variadic parameter of a function sits.
pub open spec fn variadic_at_view(reached: CalleeView) -> Option<usize> {
    variadic_from(reached, 0)
}

/// Where the variadic parameter of a function sits.
pub fn variadic_at(reached: &Callee) -> (found: Option<usize>)
    ensures
        found == variadic_at_view(reached@),
{
    let mut i: usize = 0;
    while i < reached.params.len()
        invariant
            i <= reached.params.len(),
            variadic_at_view(reached@) == variadic_from(reached@, i as nat),
        decreases reached.params.len() - i,
    {
        if reached.params[i].variadic {
            return Some(i);
        }
        i += 1;
    }
    None
}

/// Where a parameter of that name sits, from `from` on.
pub open spec fn parameter_from(reached: CalleeView, name: Seq<char>, from: nat) -> Option<usize>
    decreases reached.params.len() - from,
{
    if from >= reached.params.len() {
        None
    } else if reached.params[from as int].name@ == name {
        Some(from as usize)
    } else {
        parameter_from(reached, name, from + 1)
    }
}

fn parameter_at(reached: &Callee, name: &String) -> (found: Option<usize>)
    ensures
        found == parameter_from(reached@, name@, 0),
{
    let mut i: usize = 0;
    while i < reached.params.len()
        invariant
            i <= reached.params.len(),
            parameter_from(reached@, name@, 0) == parameter_from(reached@, name@, i as nat),
        decreases reached.params.len() - i,
    {
        if same_text(reached.params[i].name.as_str(), name.as_str()) {
            return Some(i);
        }
        i += 1;
    }
    None
}

/// How many of the first `count` arguments are in a position of their own.
pub open spec fn positional(args: Seq<Given>, count: nat) -> nat
    decreases count,
{
    if count == 0 {
        0
    } else {
        positional(args, (count - 1) as nat) + if args[count - 1].name is None {
            1nat
        } else {
            0nat
        }
    }
}

/// Which parameter the argument at an index fills. A named argument names the
/// parameter it fills, and the variadic parameter takes every one from its
/// position on.
pub open spec fn slot_view(reached: CalleeView, args: Seq<Given>, index: nat) -> Option<usize> {
    match args[index as int].name {
        Some(name) => parameter_from(reached, name@, 0),
        None => {
            let position = positional(args, index);
            match variadic_at_view(reached) {
                Some(variadic) => if position >= variadic {
                    Some(variadic)
                } else {
                    Some(position as usize)
                },
                None => if position < reached.params.len() {
                    Some(position as usize)
                } else {
                    None
                },
            }
        },
    }
}

/// Which parameter each argument fills.
pub open spec fn slots_of_view(reached: CalleeView, args: Seq<Given>) -> Seq<Option<usize>> {
    Seq::new(args.len(), |i: int| slot_view(reached, args, i as nat))
}

/// Which parameter each argument fills.
pub fn slots_of(reached: &Callee, args: &Vec<Given>) -> (slots: Vec<Option<usize>>)
    ensures
        slots@ == slots_of_view(reached@, args@),
{
    let variadic = variadic_at(reached);
    let mut slots: Vec<Option<usize>> = Vec::new();
    let mut position: usize = 0;
    let mut i: usize = 0;
    while i < args.len()
        invariant
            i <= args.len(),
            position <= i,
            position == positional(args@, i as nat),
            variadic == variadic_at_view(reached@),
            slots@.len() == i,
            forall|k: int|
                0 <= k < i ==> #[trigger] slots@[k] == slot_view(reached@, args@, k as nat),
        decreases args.len() - i,
    {
        let slot = match args[i].name {
            Some(name) => parameter_at(reached, name),
            None => {
                let at: usize = position;
                position += 1;
                match variadic {
                    Some(last) => if at >= last {
                        Some(last)
                    } else {
                        Some(at)
                    },
                    None => if at < reached.params.len() {
                        Some(at)
                    } else {
                        None
                    },
                }
            },
        };
        slots.push(slot);
        i += 1;
    }
    assert(slots@ =~= slots_of_view(reached@, args@));
    slots
}

/// The types a call passes its arguments at: those of the parameters, with the
/// type parameters of the callee filled in.
pub open spec fn wanted_types_view(reached: CalleeView, type_args: Seq<TyView>) -> Seq<TyView> {
    Seq::new(
        reached.params.len(),
        |i: int| reached.params[i].ty.substitute(reached.type_params, type_args),
    )
}

/// The types a call passes its arguments at.
pub fn wanted_types(reached: &Callee, type_args: &Vec<Ty>) -> (wanted: Vec<Ty>)
    ensures
        tys(wanted@) == wanted_types_view(reached@, tys(type_args@)),
{
    let mut wanted: Vec<Ty> = Vec::new();
    let mut i: usize = 0;
    while i < reached.params.len()
        invariant
            i <= reached.params.len(),
            wanted@.len() == i,
            forall|k: int|
                0 <= k < i ==> (#[trigger] wanted@[k])@ == reached.params@[k].ty@.substitute(
                    names(reached.type_params@),
                    tys(type_args@),
                ),
        decreases reached.params.len() - i,
    {
        wanted.push(reached.params[i].ty.substitute(&reached.type_params, type_args));
        i += 1;
    }
    assert(tys(wanted@) =~= wanted_types_view(reached@, tys(type_args@)));
    wanted
}

/// The type a parameter is passed at, where the argument fills one.
pub open spec fn wanted_at_view(wanted: Seq<TyView>, slots: Seq<Option<usize>>, index: nat) -> Option<
    TyView,
> {
    if index < slots.len() {
        match slots[index as int] {
            Some(slot) => if slot < wanted.len() {
                Some(wanted[slot as int])
            } else {
                None
            },
            None => None,
        }
    } else {
        None
    }
}

/// The type a parameter is passed at, where the argument fills one.
pub fn wanted_at<'b>(wanted: &'b Vec<Ty>, slots: &Vec<Option<usize>>, index: usize) -> (found: Option<
    &'b Ty,
>)
    ensures
        opt_ty(found) == wanted_at_view(tys(wanted@), slots@, index as nat),
{
    if index < slots.len() {
        match slots[index] {
            Some(slot) => if slot < wanted.len() {
                assert(tys(wanted@)[slot as int] == wanted@[slot as int]@);
                Some(&wanted[slot])
            } else {
                None
            },
            None => None,
        }
    } else {
        None
    }
}

/// What the first `count` arguments fill: the last to fill a parameter is the
/// one it takes.
pub open spec fn filled_by(
    wide: nat,
    variadic: Option<usize>,
    slots: Seq<Option<usize>>,
    values: Seq<Value>,
    count: nat,
) -> Seq<Option<Value>>
    decreases count,
{
    if count == 0 {
        Seq::new(wide, |i: int| None)
    } else {
        let earlier = filled_by(wide, variadic, slots, values, (count - 1) as nat);
        match slots[count - 1] {
            Some(slot) => if slots[count - 1] != variadic && slot < wide {
                earlier.update(slot as int, Some(values[count - 1]))
            } else {
                earlier
            },
            None => earlier,
        }
    }
}

/// What the arguments fill.
pub open spec fn fill_view(
    wide: nat,
    variadic: Option<usize>,
    slots: Seq<Option<usize>>,
    values: Seq<Value>,
) -> Seq<Option<Value>> {
    filled_by(
        wide,
        variadic,
        slots,
        values,
        if slots.len() <= values.len() {
            slots.len()
        } else {
            values.len()
        },
    )
}

/// Filling keeps how many parameters there are.
proof fn filling_keeps_the_width(
    wide: nat,
    variadic: Option<usize>,
    slots: Seq<Option<usize>>,
    values: Seq<Value>,
    count: nat,
)
    ensures
        filled_by(wide, variadic, slots, values, count).len() == wide,
    decreases count,
{
    if count > 0 {
        filling_keeps_the_width(wide, variadic, slots, values, (count - 1) as nat);
    }
}

/// What the arguments fill.
pub fn fill(
    wide: usize,
    variadic: Option<usize>,
    slots: &Vec<Option<usize>>,
    values: &Vec<Value>,
) -> (filled: Vec<Option<Value>>)
    ensures
        filled@ == fill_view(wide as nat, variadic, slots@, values@),
{
    let mut filled: Vec<Option<Value>> = Vec::new();
    let mut k: usize = 0;
    while k < wide
        invariant
            k <= wide,
            filled@.len() == k,
            forall|j: int| 0 <= j < k ==> #[trigger] filled@[j] == None::<Value>,
        decreases wide - k,
    {
        filled.push(None);
        k += 1;
    }
    assert(filled@ =~= filled_by(wide as nat, variadic, slots@, values@, 0));
    let mut i: usize = 0;
    while i < slots.len() && i < values.len()
        invariant
            i <= slots.len(),
            i <= values.len(),
            filled@ == filled_by(wide as nat, variadic, slots@, values@, i as nat),
        decreases slots.len() - i,
    {
        proof {
            filling_keeps_the_width(wide as nat, variadic, slots@, values@, i as nat);
        }
        match slots[i] {
            Some(slot) => {
                let last = match variadic {
                    Some(at) => at == slot,
                    None => false,
                };
                if !last && slot < wide {
                    filled.set(slot, Some(values[i]));
                }
            },
            None => {},
        }
        i += 1;
    }
    filled
}

/// What the variadic parameter takes of the first `count` arguments.
pub open spec fn rest_among(
    variadic: Option<usize>,
    slots: Seq<Option<usize>>,
    values: Seq<Value>,
    count: nat,
) -> Seq<Value>
    decreases count,
{
    if count == 0 {
        Seq::empty()
    } else {
        let earlier = rest_among(variadic, slots, values, (count - 1) as nat);
        if slots[count - 1] is Some && slots[count - 1] == variadic {
            earlier.push(values[count - 1])
        } else {
            earlier
        }
    }
}

/// What the variadic parameter takes.
pub open spec fn rest_of_view(
    variadic: Option<usize>,
    slots: Seq<Option<usize>>,
    values: Seq<Value>,
) -> Seq<Value> {
    rest_among(
        variadic,
        slots,
        values,
        if slots.len() <= values.len() {
            slots.len()
        } else {
            values.len()
        },
    )
}

/// What the variadic parameter takes.
pub fn rest_of(variadic: Option<usize>, slots: &Vec<Option<usize>>, values: &Vec<Value>) -> (rest: Vec<
    Value,
>)
    ensures
        rest@ == rest_of_view(variadic, slots@, values@),
{
    let mut rest: Vec<Value> = Vec::new();
    let mut i: usize = 0;
    while i < slots.len() && i < values.len()
        invariant
            i <= slots.len(),
            i <= values.len(),
            rest@ == rest_among(variadic, slots@, values@, i as nat),
        decreases slots.len() - i,
    {
        match slots[i] {
            Some(slot) => {
                match variadic {
                    Some(at) => {
                        if at == slot {
                            rest.push(values[i]);
                        }
                    },
                    None => {},
                }
            },
            None => {},
        }
        i += 1;
    }
    rest
}

/// Whether a parameter has something to take: an argument, a default, or every
/// argument from its position on.
pub open spec fn has_value(
    reached: CalleeView,
    variadic: Option<usize>,
    filled: Seq<Option<Value>>,
    slot: nat,
) -> bool {
    filled[slot as int] is Some || variadic == Some(slot as usize) || (slot
        < reached.params.len() && reached.params[slot as int].default is Some)
}

/// How many parameters come before the first with nothing to take, counted from
/// `from` on.
pub open spec fn supplied_from(
    reached: CalleeView,
    variadic: Option<usize>,
    filled: Seq<Option<Value>>,
    from: nat,
) -> nat
    decreases filled.len() - from,
{
    if from >= filled.len() {
        filled.len()
    } else if has_value(reached, variadic, filled, from) {
        supplied_from(reached, variadic, filled, from + 1)
    } else {
        from
    }
}

/// How many parameters come before the first with nothing to take.
pub open spec fn supplied_view(
    reached: CalleeView,
    variadic: Option<usize>,
    filled: Seq<Option<Value>>,
) -> nat {
    supplied_from(reached, variadic, filled, 0)
}

/// How many parameters come before the first with nothing to take.
pub fn supplied(reached: &Callee, variadic: Option<usize>, filled: &Vec<Option<Value>>) -> (count:
    usize)
    ensures
        count == supplied_view(reached@, variadic, filled@),
{
    let mut i: usize = 0;
    while i < filled.len()
        invariant
            i <= filled.len(),
            supplied_view(reached@, variadic, filled@) == supplied_from(
                reached@,
                variadic,
                filled@,
                i as nat,
            ),
        decreases filled.len() - i,
    {
        let last = match variadic {
            Some(at) => at == i,
            None => false,
        };
        let there = filled[i].is_some() || last || (i < reached.params.len()
            && reached.params[i].default.is_some());
        if !there {
            return i;
        }
        i += 1;
    }
    i
}

/// Whether a position is the variadic one.
pub open spec fn is_variadic_view(variadic: Option<usize>, index: nat) -> bool {
    variadic is Some && variadic->0 == index
}

/// Whether a position is the variadic one.
pub fn is_variadic(variadic: Option<usize>, index: usize) -> (variadic_one: bool)
    ensures
        variadic_one == is_variadic_view(variadic, index as nat),
{
    match variadic {
        Some(at) => at == index,
        None => false,
    }
}

/// The default of the parameter at an index.
pub open spec fn default_at_view<'a>(reached: CalleeView<'a>, index: nat) -> Option<&'a Expr> {
    if index < reached.params.len() {
        reached.params[index as int].default
    } else {
        None
    }
}

/// The default of the parameter at an index.
pub fn default_at<'a>(reached: &'a Callee<'a>, index: usize) -> (found: Option<&'a Expr>)
    ensures
        found == default_at_view(reached@, index as nat),
{
    if index < reached.params.len() {
        reached.params[index].default
    } else {
        None
    }
}

/// The same values, with another at an index.
pub open spec fn put_at_view(values: Seq<Value>, index: usize, value: Value) -> Seq<Value> {
    if index < values.len() {
        values.update(index as int, value)
    } else {
        values
    }
}

/// The same values, with another at an index.
pub fn put_at(values: &Vec<Value>, index: usize, value: Value) -> (changed: Vec<Value>)
    ensures
        changed@ == put_at_view(values@, index, value),
{
    let mut changed = clone_values(values);
    if index < changed.len() {
        changed.set(index, value);
    }
    changed
}

/// A value before others.
pub open spec fn ahead_view(first: Value, rest: Seq<Value>) -> Seq<Value> {
    seq![first] + rest
}

/// A value before others.
pub fn ahead(first: Value, rest: &Vec<Value>) -> (values: Vec<Value>)
    ensures
        values@ == ahead_view(first, rest@),
{
    let mut values: Vec<Value> = Vec::new();
    values.push(first);
    let mut i: usize = 0;
    assert(values@ =~= seq![first] + rest@.take(0));
    while i < rest.len()
        invariant
            i <= rest.len(),
            values@ == seq![first] + rest@.take(i as int),
        decreases rest.len() - i,
    {
        values.push(rest[i]);
        assert(values@ =~= seq![first] + rest@.take(i + 1));
        i += 1;
    }
    assert(rest@.take(rest@.len() as int) =~= rest@);
    values
}

/// The value at an index.
pub open spec fn value_at_view(values: Seq<Value>, index: nat) -> Value {
    if index < values.len() {
        values[index as int]
    } else {
        Value(0)
    }
}

/// The value at an index.
pub fn value_at(values: &Vec<Value>, index: usize) -> (value: Value)
    ensures
        value == value_at_view(values@, index as nat),
{
    if index < values.len() {
        values[index]
    } else {
        Value(0)
    }
}

/// The parameters that are bound by name. A closure takes itself first.
pub open spec fn entry_values_view(params: Seq<Value>, closure: bool) -> Seq<Value> {
    if closure && params.len() > 0 {
        params.skip(1)
    } else {
        params
    }
}

/// The parameters that are bound by name.
pub fn entry_values(params: &Vec<Value>, closure: bool) -> (values: Vec<Value>)
    ensures
        values@ == entry_values_view(params@, closure),
{
    if closure && params.len() > 0 {
        crate::inst::values_from(params, 1)
    } else {
        clone_values(params)
    }
}

/// The type at an index, which is there wherever it is asked for.
pub open spec fn ty_or_never_view(types: Seq<TyView>, index: nat) -> TyView {
    if index < types.len() {
        types[index as int]
    } else {
        TyView::Never
    }
}

/// The type at an index, which is there wherever it is asked for.
pub fn ty_or_never(types: &Vec<Ty>, index: usize) -> (ty: Ty)
    ensures
        ty@ == ty_or_never_view(tys(types@), index as nat),
{
    if index < types.len() {
        assert(tys(types@)[index as int] == types@[index as int]@);
        types[index].clone()
    } else {
        Ty::Never
    }
}

/// The type a field at an index has.
pub open spec fn ty_of_view(types: Seq<TyView>, index: u32) -> TyView {
    ty_or_never_view(types, index as nat)
}

/// The type a field at an index has.
pub fn ty_of(types: &Vec<Ty>, index: u32) -> (ty: Ty)
    ensures
        ty@ == ty_of_view(tys(types@), index),
{
    ty_or_never(types, index as usize)
}

/// The first of two types that is there.
pub open spec fn either_view(first: Option<TyView>, second: Option<TyView>) -> Option<TyView> {
    match first {
        Some(_) => first,
        None => second,
    }
}

/// The first of two types that is there.
pub fn either<'b>(first: &'b Option<Ty>, second: Option<&'b Ty>) -> (found: Option<&'b Ty>)
    ensures
        opt_ty(found) == either_view(maybe_ty(*first), opt_ty(second)),
{
    match first {
        Some(ty) => Some(ty),
        None => second,
    }
}

/// A type, or another where it is not there.
pub open spec fn or_else_view(first: Option<TyView>, second: TyView) -> TyView {
    match first {
        Some(ty) => ty,
        None => second,
    }
}

/// A type, or another where it is not there.
pub fn or_else(first: Option<Ty>, second: Ty) -> (ty: Ty)
    ensures
        ty@ == or_else_view(maybe_ty(first), second@),
{
    match first {
        Some(ty) => ty,
        None => second,
    }
}

/// What the task an asynchronous call gives back completes with.
pub open spec fn task_result_view(ty: TyView) -> Option<TyView> {
    match args_of_view(ty, Builtin::Task) {
        Some(args) => if args.len() == 1 {
            Some(args[0])
        } else {
            None
        },
        None => None,
    }
}

/// What the task an asynchronous call gives back completes with.
pub fn task_result(ty: &Ty) -> (found: Option<Ty>)
    ensures
        maybe_ty(found) == task_result_view(ty@),
{
    match args_of(ty, Builtin::Task) {
        Some(args) => if args.len() == 1 {
            assert(tys(args@)[0] == args@[0]@);
            Some(args[0].clone())
        } else {
            None
        },
        None => None,
    }
}

/// Whether an expression reads a place rather than building a value.
pub open spec fn is_place_view(expr: Expr) -> bool {
    expr.kind is Name || expr.kind is Field || expr.kind is Index
}

/// Whether an expression reads a place rather than building a value.
pub fn is_place(expr: &Expr) -> (place: bool)
    ensures
        place == is_place_view(*expr),
{
    match &expr.kind {
        ExprKind::Name(_) => true,
        ExprKind::Field { .. } => true,
        ExprKind::Index { .. } => true,
        _ => false,
    }
}

/// Whether an expression is `nil`.
pub open spec fn is_nil_view(expr: Expr) -> bool {
    expr.kind is Nil
}

/// Whether an expression is `nil`.
pub fn is_nil(expr: &Expr) -> (nil: bool)
    ensures
        nil == is_nil_view(*expr),
{
    match &expr.kind {
        ExprKind::Nil => true,
        _ => false,
    }
}

/// The name an expression is, where it is one.
pub open spec fn written_name_view(expr: Expr) -> Option<String> {
    match expr.kind {
        ExprKind::Name(name) => Some(name),
        _ => None,
    }
}

/// The name an expression is, where it is one.
pub fn written_name(expr: &Expr) -> (found: Option<&String>)
    ensures
        match found {
            Some(name) => written_name_view(*expr) == Some(*name),
            None => written_name_view(*expr) is None,
        },
{
    match &expr.kind {
        ExprKind::Name(name) => Some(name),
        _ => None,
    }
}

/// An optional expression by reference.
pub open spec fn maybe_expr_view<'a>(value: Option<Expr>) -> Option<&'a Expr> {
    match value {
        Some(held) => Some(&held),
        None => None,
    }
}

/// An optional expression by reference.
pub fn maybe_expr<'a>(value: &'a Option<Expr>) -> (found: Option<&'a Expr>)
    ensures
        found == maybe_expr_view(*value),
{
    match value {
        Some(held) => Some(held),
        None => None,
    }
}

/// The last of several names.
pub open spec fn last_name_view(held: Seq<String>) -> Option<String> {
    if held.len() > 0 {
        Some(held.last())
    } else {
        None
    }
}

/// The last of several names.
pub fn last_name(held: &Vec<String>) -> (found: Option<&String>)
    ensures
        match found {
            Some(name) => last_name_view(held@) == Some(*name),
            None => last_name_view(held@) is None,
        },
{
    if held.len() > 0 {
        Some(&held[held.len() - 1])
    } else {
        None
    }
}

/// How many names there are.
pub open spec fn count_of_view(held: Seq<Seq<char>>) -> nat {
    held.len()
}

/// How many names there are.
pub fn count_of(held: &Vec<String>) -> (count: usize)
    ensures
        count == count_of_view(names(held@)),
{
    held.len()
}

/// One less, where there is one less.
pub open spec fn below_view(count: nat) -> nat {
    if count > 0 {
        (count - 1) as nat
    } else {
        0
    }
}

/// One less, where there is one less.
pub fn below(count: usize) -> (less: usize)
    ensures
        less == below_view(count as nat),
{
    if count > 0 {
        count - 1
    } else {
        0
    }
}

/// Where a body stands.
pub open spec fn body_span_view(body: FunctionBody) -> Span {
    match body {
        FunctionBody::Block(block) => block.span,
        FunctionBody::Expr(value) => value.span,
    }
}

/// Where a body stands.
pub fn body_span(body: &FunctionBody) -> (span: Span)
    ensures
        span == body_span_view(*body),
{
    match body {
        FunctionBody::Block(block) => block.span,
        FunctionBody::Expr(value) => value.span,
    }
}

/// What the parameters of a closure are bound to.
pub open spec fn bound_params_view<'a>(params: Seq<Param>) -> Seq<Bound<'a>> {
    Seq::new(params.len(), |i: int| Bound::Written(&params[i].binding))
}

/// What the parameters of a closure are bound to.
pub fn bound_params<'a>(params: &'a Vec<Param>) -> (bound: Vec<Bound<'a>>)
    ensures
        bound@ == bound_params_view(params@),
{
    let mut bound: Vec<Bound<'a>> = Vec::new();
    let mut i: usize = 0;
    while i < params.len()
        invariant
            i <= params.len(),
            bound@.len() == i,
            forall|k: int|
                0 <= k < i ==> #[trigger] bound@[k] == Bound::Written(&params@[k].binding),
        decreases params.len() - i,
    {
        bound.push(Bound::Written(&params[i].binding));
        i += 1;
    }
    assert(bound@ =~= bound_params_view(params@));
    bound
}

/// What some optional values hold, those that hold nothing left out.
pub open spec fn values_in(filled: Seq<Option<Value>>, count: nat) -> Seq<Value>
    decreases count,
{
    if count == 0 {
        Seq::empty()
    } else {
        let earlier = values_in(filled, (count - 1) as nat);
        match filled[count - 1] {
            Some(value) => earlier.push(value),
            None => earlier,
        }
    }
}

/// What some optional values hold.
pub open spec fn all_values_view(filled: Seq<Option<Value>>) -> Seq<Value> {
    values_in(filled, filled.len())
}

/// What some optional values hold.
pub fn all_values(filled: &Vec<Option<Value>>) -> (values: Vec<Value>)
    ensures
        values@ == all_values_view(filled@),
{
    let mut values: Vec<Value> = Vec::new();
    let mut i: usize = 0;
    while i < filled.len()
        invariant
            i <= filled.len(),
            values@ == values_in(filled@, i as nat),
        decreases filled.len() - i,
    {
        match filled[i] {
            Some(value) => {
                values.push(value);
            },
            None => {},
        }
        i += 1;
    }
    values
}

/// Whether every one of the first `count` holds something.
pub open spec fn full_among(filled: Seq<Option<Value>>, count: nat) -> bool
    decreases count,
{
    count == 0 || (filled[count - 1] is Some && full_among(filled, (count - 1) as nat))
}

/// Whether every one holds something.
pub open spec fn is_full_view(filled: Seq<Option<Value>>) -> bool {
    full_among(filled, filled.len())
}

/// Whether every one holds something.
pub fn is_full(filled: &Vec<Option<Value>>) -> (full: bool)
    ensures
        full == is_full_view(filled@),
{
    let mut full = true;
    let mut i: usize = 0;
    while i < filled.len()
        invariant
            i <= filled.len(),
            full == full_among(filled@, i as nat),
        decreases filled.len() - i,
    {
        if filled[i].is_none() {
            full = false;
        }
        i += 1;
    }
    full
}

} // verus!
