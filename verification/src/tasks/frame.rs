//! What the frame of an asynchronous function holds.

use vstd::prelude::*;

use crate::inst::Value;
use crate::program::{id_limit, views, BlockId, Field, FieldView, Function, FunctionView};
use crate::text::{decimal, number};
use crate::ty::{tys, Ty, TyView};

use super::live::{live_in, live_sets, row_set, row_sets};
use super::machine::FIRST_PARAM;

verus! {

/// Whether a value is needed where the function resumes, and so has to survive
/// the suspension: it is live on entry to a block that is resumed at, or is a
/// task waited for. The `fixed` values are read anew on every entry, and a
/// value that never comes to be is not kept.
pub open spec fn survives(
    poll: FunctionView,
    resumes: Seq<BlockId>,
    awaited: Seq<Value>,
    fixed: Seq<Value>,
    value: Value,
) -> bool {
    &&& !fixed.contains(value)
    &&& !(poll.type_of(value) is Never)
    &&& awaited.contains(value) || exists|k: int|
        0 <= k < resumes.len() && live_sets(poll)[(#[trigger] resumes[k]).0 as int].contains(
            value,
        )
}

/// The same of every value, in order.
pub open spec fn survivors(
    poll: FunctionView,
    resumes: Seq<BlockId>,
    awaited: Seq<Value>,
    fixed: Seq<Value>,
) -> Seq<bool> {
    Seq::new(
        poll.values.len(),
        |i: int| survives(poll, resumes, awaited, fixed, Value(i as u32)),
    )
}

/// The field that holds `value` where it is among the first `count`
/// parameters.
pub open spec fn param_slot(params: Seq<Value>, value: Value, count: nat) -> Option<u32>
    decreases count,
{
    if count == 0 {
        None
    } else if params[count - 1] == value {
        Some((FIRST_PARAM + count - 1) as u32)
    } else {
        param_slot(params, value, (count - 1) as nat)
    }
}

/// The fields that hold those of the first `count` values that survive and are
/// no parameters, and the field each of those values lives in.
pub open spec fn laid_out(
    types: Seq<TyView>,
    params: Seq<Value>,
    kept: Seq<bool>,
    count: nat,
) -> (Seq<FieldView>, Seq<Option<u32>>)
    decreases count,
{
    if count == 0 {
        (Seq::empty(), Seq::empty())
    } else {
        let (fields, homes) = laid_out(types, params, kept, (count - 1) as nat);
        let value = Value((count - 1) as u32);
        if !kept[count - 1] {
            (fields, homes.push(None))
        } else {
            match param_slot(params, value, params.len()) {
                Some(slot) => (fields, homes.push(Some(slot))),
                None => (
                    fields.push(
                        FieldView {
                            name: "v"@ + decimal((count - 1) as nat),
                            ty: types[count - 1],
                        },
                    ),
                    homes.push(Some((FIRST_PARAM + params.len() + fields.len()) as u32)),
                ),
            }
        }
    }
}

/// The fields the first `count` parameters live in.
pub open spec fn param_fields(params: Seq<TyView>, count: nat) -> Seq<FieldView> {
    Seq::new(count, |i: int| FieldView { name: "param"@ + decimal(i as nat), ty: params[i] })
}

/// Every field of the frame.
pub open spec fn frame_fields(
    task_ty: TyView,
    completion_ty: TyView,
    params: Seq<TyView>,
    rest: Seq<FieldView>,
) -> Seq<FieldView> {
    seq![
        FieldView { name: "state"@, ty: TyView::integer() },
        FieldView { name: "task"@, ty: task_ty },
        FieldView { name: "result"@, ty: completion_ty },
    ] + param_fields(params, params.len()) + rest
}

/// A value that survives lives in a field of the frame, and no other does.
pub proof fn survivors_have_homes(
    types: Seq<TyView>,
    params: Seq<Value>,
    kept: Seq<bool>,
    count: nat,
    value: int,
)
    requires
        0 <= value < count,
    ensures
        laid_out(types, params, kept, count).1.len() == count,
        laid_out(types, params, kept, count).1[value] is Some <==> kept[value],
    decreases count,
{
    homes_count(types, params, kept, (count - 1) as nat);
    if value < count - 1 {
        survivors_have_homes(types, params, kept, (count - 1) as nat, value);
    }
}

proof fn homes_count(types: Seq<TyView>, params: Seq<Value>, kept: Seq<bool>, count: nat)
    ensures
        laid_out(types, params, kept, count).1.len() == count,
    decreases count,
{
    if count > 0 {
        homes_count(types, params, kept, (count - 1) as nat);
    }
}

/// Two values that survive and are no parameters live in different fields.
pub proof fn homes_are_distinct(
    types: Seq<TyView>,
    params: Seq<Value>,
    kept: Seq<bool>,
    count: nat,
    first: int,
    second: int,
)
    requires
        0 <= first < second < count,
        kept[first] && kept[second],
        param_slot(params, Value(first as u32), params.len()) is None,
        param_slot(params, Value(second as u32), params.len()) is None,
        FIRST_PARAM + params.len() + laid_out(types, params, kept, count).0.len() <= id_limit(),
    ensures
        laid_out(types, params, kept, count).1[first] != laid_out(
            types,
            params,
            kept,
            count,
        ).1[second],
    decreases count,
{
    homes_count(types, params, kept, (count - 1) as nat);
    if second < count - 1 {
        homes_are_distinct(types, params, kept, (count - 1) as nat, first, second);
    } else {
        home_is_early(types, params, kept, (count - 1) as nat, first);
    }
}

proof fn home_is_early(
    types: Seq<TyView>,
    params: Seq<Value>,
    kept: Seq<bool>,
    count: nat,
    value: int,
)
    requires
        0 <= value < count,
        kept[value],
        param_slot(params, Value(value as u32), params.len()) is None,
        FIRST_PARAM + params.len() + laid_out(types, params, kept, count).0.len() <= id_limit(),
    ensures
        laid_out(types, params, kept, count).1[value] matches Some(slot) && slot < FIRST_PARAM
            + params.len() + laid_out(types, params, kept, count).0.len(),
    decreases count,
{
    homes_count(types, params, kept, (count - 1) as nat);
    if value < count - 1 {
        home_is_early(types, params, kept, (count - 1) as nat, value);
    }
}

proof fn layout_grows(
    types: Seq<TyView>,
    params: Seq<Value>,
    kept: Seq<bool>,
    first: nat,
    last: nat,
)
    requires
        first <= last,
    ensures
        laid_out(types, params, kept, first).0.len() <= laid_out(
            types,
            params,
            kept,
            last,
        ).0.len(),
    decreases last,
{
    if first < last {
        layout_grows(types, params, kept, first, (last - 1) as nat);
    }
}

fn is_among(values: &Vec<Value>, value: Value) -> (found: bool)
    ensures
        found == values@.contains(value),
{
    let mut i: usize = 0;
    while i < values.len()
        invariant
            i <= values.len(),
            forall|k: int| 0 <= k < i ==> values@[k] != value,
        decreases values.len() - i,
    {
        if values[i] == value {
            assert(values@[i as int] == value);
            return true;
        }
        i += 1;
    }
    false
}

/// Which values of the function have to survive a suspension.
pub fn find_survivors(
    poll: &Function,
    resumes: &Vec<BlockId>,
    awaited: &Vec<Value>,
    fixed: &Vec<Value>,
) -> (kept: Vec<bool>)
    requires
        poll@.well_formed(),
        forall|k: int| 0 <= k < resumes@.len() ==> (#[trigger] resumes@[k]).0 < poll@.blocks.len(),
    ensures
        kept@ == survivors(poll@, resumes@, awaited@, fixed@),
{
    let live = live_in(poll);
    let ghost sets = live_sets(poll@);
    let count: usize = poll.values.len();
    let mut kept: Vec<bool> = Vec::new();
    let mut v: usize = 0;
    while v < count
        invariant
            v <= count == poll@.values.len() == poll.values@.len(),
            count <= id_limit(),
            sets == live_sets(poll@),
            row_sets(live@) == sets,
            live@.len() == poll@.blocks.len(),
            forall|i: int| 0 <= i < live@.len() ==> (#[trigger] live@[i])@.len() == count,
            forall|k: int|
                0 <= k < resumes@.len() ==> (#[trigger] resumes@[k]).0 < poll@.blocks.len(),
            kept@.len() == v,
            forall|i: int|
                0 <= i < v ==> (#[trigger] kept@[i]) == survives(
                    poll@,
                    resumes@,
                    awaited@,
                    fixed@,
                    Value(i as u32),
                ),
        decreases count - v,
    {
        let value = Value(v as u32);
        let mut needed = is_among(awaited, value);
        let mut k: usize = 0;
        while k < resumes.len() && !needed
            invariant
                k <= resumes.len(),
                v < count == poll@.values.len(),
                count <= id_limit(),
                value == Value(v as u32),
                sets == live_sets(poll@),
                row_sets(live@) == sets,
                live@.len() == poll@.blocks.len(),
                forall|i: int| 0 <= i < live@.len() ==> (#[trigger] live@[i])@.len() == count,
                forall|k: int|
                    0 <= k < resumes@.len() ==> (#[trigger] resumes@[k]).0 < poll@.blocks.len(),
                !needed ==> !awaited@.contains(value) && forall|j: int|
                    0 <= j < k ==> !sets[(#[trigger] resumes@[j]).0 as int].contains(value),
                needed ==> awaited@.contains(value) || exists|j: int|
                    0 <= j < resumes@.len() && sets[(#[trigger] resumes@[j]).0 as int].contains(
                        value,
                    ),
            decreases resumes.len() - k,
        {
            let at: usize = resumes[k].0 as usize;
            assert(resumes@[k as int].0 < poll@.blocks.len());
            assert(row_sets(live@)[at as int] == row_set(live@[at as int]@));
            if live[at][v] {
                assert(sets[resumes@[k as int].0 as int].contains(value));
                needed = true;
            }
            k += 1;
        }
        let never = match poll.type_of(value) {
            Ty::Never => true,
            _ => false,
        };
        kept.push(needed && !never && !is_among(fixed, value));
        v += 1;
    }
    assert(kept@ =~= survivors(poll@, resumes@, awaited@, fixed@));
    kept
}

fn slot_of_param(params: &Vec<Value>, value: Value) -> (slot: Option<u32>)
    requires
        FIRST_PARAM + params@.len() <= id_limit(),
    ensures
        slot == param_slot(params@, value, params@.len()),
{
    let mut i: usize = params.len();
    while i > 0
        invariant
            i <= params.len(),
            FIRST_PARAM + params@.len() <= id_limit(),
            param_slot(params@, value, params@.len()) == param_slot(params@, value, i as nat),
        decreases i,
    {
        if params[i - 1] == value {
            return Some(FIRST_PARAM + (i - 1) as u32);
        }
        i -= 1;
    }
    None
}

/// Lays the surviving values out after the parameters.
pub fn lay_out(poll: &Function, params: &Vec<Value>, kept: &Vec<bool>) -> (layout: (
    Vec<Field>,
    Vec<Option<u32>>,
))
    requires
        kept@.len() == poll@.values.len(),
        poll@.values.len() <= id_limit(),
        FIRST_PARAM + params@.len() + laid_out(
            poll@.values,
            params@,
            kept@,
            kept@.len(),
        ).0.len() <= id_limit(),
    ensures
        (views(layout.0@), layout.1@) == laid_out(poll@.values, params@, kept@, kept@.len()),
{
    let ghost types = poll@.values;
    let mut fields: Vec<Field> = Vec::new();
    let mut homes: Vec<Option<u32>> = Vec::new();
    let mut v: usize = 0;
    assert(views(fields@) =~= Seq::empty());
    while v < kept.len()
        invariant
            v <= kept@.len() == poll@.values.len(),
            poll@.values.len() <= id_limit(),
            types == poll@.values,
            FIRST_PARAM + params@.len() + laid_out(types, params@, kept@, kept@.len()).0.len()
                <= id_limit(),
            (views(fields@), homes@) == laid_out(types, params@, kept@, v as nat),
        decreases kept.len() - v,
    {
        proof {
            layout_grows(types, params@, kept@, (v + 1) as nat, kept@.len());
        }
        let value = Value(v as u32);
        if !kept[v] {
            homes.push(None);
        } else {
            match slot_of_param(params, value) {
                Some(slot) => {
                    homes.push(Some(slot));
                },
                None => {
                    assert(views(fields@).len() == fields.len());
                    homes.push(Some(FIRST_PARAM + params.len() as u32 + fields.len() as u32));
                    let mut name = "v".to_owned();
                    name.append(number(v as u64).as_str());
                    let field = Field { name, ty: poll.type_of(value).clone() };
                    let ghost had = fields@;
                    fields.push(field);
                    assert(views(fields@) =~= views(had).push(field@));
                },
            }
        }
        v += 1;
    }
    (fields, homes)
}

/// The fixed fields of the frame, and the parameters.
pub fn first_fields(task_ty: &Ty, completion_ty: &Ty, params: &Vec<Ty>) -> (fields: Vec<Field>)
    requires
        params@.len() <= id_limit(),
    ensures
        views(fields@) == frame_fields(task_ty@, completion_ty@, tys(params@), Seq::empty()),
{
    let mut fields: Vec<Field> = Vec::new();
    fields.push(Field { name: "state".to_owned(), ty: Ty::integer() });
    fields.push(Field { name: "task".to_owned(), ty: task_ty.clone() });
    fields.push(Field { name: "result".to_owned(), ty: completion_ty.clone() });
    let ghost fixed = views(fields@);
    assert(fixed =~= frame_fields(
        task_ty@,
        completion_ty@,
        Seq::empty(),
        Seq::empty(),
    ));
    let mut i: usize = 0;
    assert(fixed + param_fields(tys(params@), 0) =~= fixed);
    while i < params.len()
        invariant
            i <= params.len(),
            params@.len() <= id_limit(),
            views(fields@) == fixed + param_fields(tys(params@), i as nat),
        decreases params.len() - i,
    {
        let mut name = "param".to_owned();
        name.append(number(i as u64).as_str());
        let field = Field { name, ty: params[i].clone() };
        let ghost had = fields@;
        fields.push(field);
        assert(views(fields@) =~= views(had).push(field@));
        assert(param_fields(tys(params@), (i + 1) as nat) =~= param_fields(
            tys(params@),
            i as nat,
        ).push(field@));
        assert(views(fields@) =~= fixed + param_fields(tys(params@), (i + 1) as nat));
        i += 1;
    }
    assert(views(fields@) =~= frame_fields(
        task_ty@,
        completion_ty@,
        tys(params@),
        Seq::empty(),
    ));
    fields
}

} // verus!
