//! The bodies of the members a type derives.

use vstd::prelude::*;
use vstd::string::StringExecFns;

use crate::inst::{
    BinaryOp, Const, ConstView, InstKind, InstKindView, MethodId, Target, TargetView, Terminator,
    TerminatorView, Trap, Value, case_views, no_values, one, two,
};
use crate::lower::declared::{dotted, dotted_view, texts, texts_view};
use crate::program::{
    BlockId, Field, FieldView, FuncId, Method, MethodView, Nominal, NominalView, Shape, ShapeView,
    Variant, VariantView, views,
};
use crate::span::Span;
use crate::text::{decimal, names, number, same_text};
use crate::ty::{IntTy, Ty, TyView, TypeId, clone_tys};

use super::kinds::{
    args_given, args_given_view, index_id, index_id_view, optional, same_text_view, seq1, seq2,
    shown_by, shown_by_view,
};
use super::given::{value_at, value_at_view};
use super::{Body, BodyView};

verus! {

/// Whether two values of a type can be compared.
pub open spec fn comparable_view(ty: TyView, held: Seq<(TypeId, FuncId)>) -> bool {
    !(ty is Named) || shown_by_view(ty, held) is Some
}

/// Whether two values of a type can be compared.
pub fn comparable(ty: &Ty, held: &Vec<(TypeId, FuncId)>) -> (found: bool)
    ensures
        found == comparable_view(ty@, held@),
{
    match ty {
        Ty::Named { .. } => shown_by(ty, held).is_some(),
        _ => true,
    }
}

/// Whether a value of a type can be hashed.
pub open spec fn hashable_view(ty: TyView, held: Seq<(TypeId, FuncId)>) -> bool {
    match ty {
        TyView::Named { id, args } => shown_by_view(ty, held) is Some,
        TyView::Unit => true,
        TyView::Nil => true,
        TyView::Bool => true,
        TyView::Int(_) => true,
        TyView::Float(_) => true,
        TyView::Char => true,
        TyView::Str => true,
        TyView::Bytes => true,
        _ => false,
    }
}

/// Whether a value of a type can be hashed.
pub fn hashable(ty: &Ty, held: &Vec<(TypeId, FuncId)>) -> (found: bool)
    ensures
        found == hashable_view(ty@, held@),
{
    match ty {
        Ty::Named { .. } => shown_by(ty, held).is_some(),
        Ty::Unit => true,
        Ty::Nil => true,
        Ty::Bool => true,
        Ty::Int(_) => true,
        Ty::Float(_) => true,
        Ty::Char => true,
        Ty::Str => true,
        Ty::Bytes => true,
        _ => false,
    }
}

/// The position of the method called `display`, from `from` on.
pub open spec fn display_at(methods: Seq<MethodView>, from: nat) -> Option<nat>
    decreases methods.len() - from,
{
    if from >= methods.len() {
        None
    } else if methods[from as int].name == "display"@ {
        Some(from)
    } else {
        display_at(methods, from + 1)
    }
}

/// The slot `display` has in the method table of an interface.
pub open spec fn display_slot_view(ty: TyView, types: Seq<NominalView>) -> Option<MethodId> {
    match ty {
        TyView::Named { id, args } => if id.0 < types.len() {
            match types[id.0 as int].shape {
                ShapeView::Interface(held) => match display_at(held.methods, 0) {
                    Some(slot) => Some(MethodId { interface: id, slot: index_id_view(slot) }),
                    None => None,
                },
                _ => None,
            }
        } else {
            None
        },
        _ => None,
    }
}

fn display_position(methods: &Vec<Method>) -> (found: Option<usize>)
    ensures
        match found {
            Some(at) => display_at(views(methods@), 0) == Some(at as nat),
            None => display_at(views(methods@), 0) is None,
        },
{
    let mut i: usize = 0;
    while i < methods.len()
        invariant
            i <= methods.len(),
            display_at(views(methods@), 0) == display_at(views(methods@), i as nat),
        decreases methods.len() - i,
    {
        if same_text(methods[i].name.as_str(), "display") {
            return Some(i);
        }
        i += 1;
    }
    None
}

/// The slot `display` has in the method table of an interface.
pub fn display_slot(ty: &Ty, types: &Vec<Nominal>) -> (found: Option<MethodId>)
    ensures
        found == display_slot_view(ty@, views(types@)),
{
    match ty {
        Ty::Named { id, .. } => {
            if id.0 as usize >= types.len() {
                return None;
            }
            match &types[id.0 as usize].shape {
                Shape::Interface(held) => match display_position(&held.methods) {
                    Some(slot) => Some(MethodId { interface: *id, slot: index_id(slot) }),
                    None => None,
                },
                _ => None,
            }
        },
        _ => None,
    }
}

/// Whether a value of a type can be displayed.
pub open spec fn displayable_view(
    ty: TyView,
    held: Seq<(TypeId, FuncId)>,
    types: Seq<NominalView>,
) -> bool
    decreases ty,
{
    match ty {
        TyView::Named { id, args } => shown_by_view(ty, held) is Some || display_slot_view(
            ty,
            types,
        ) is Some,
        TyView::Str => true,
        TyView::Int(_) => true,
        TyView::Float(_) => true,
        TyView::Char => true,
        TyView::Nil => true,
        TyView::Bool => true,
        TyView::Optional(inner) => displayable_view(*inner, held, types),
        _ => false,
    }
}

/// Whether a value of a type can be displayed.
pub fn displayable(ty: &Ty, held: &Vec<(TypeId, FuncId)>, types: &Vec<Nominal>) -> (found: bool)
    ensures
        found == displayable_view(ty@, held@, views(types@)),
    decreases ty,
{
    match ty {
        Ty::Named { .. } => shown_by(ty, held).is_some() || display_slot(ty, types).is_some(),
        Ty::Str => true,
        Ty::Int(_) => true,
        Ty::Float(_) => true,
        Ty::Char => true,
        Ty::Nil => true,
        Ty::Bool => true,
        Ty::Optional(inner) => displayable(inner, held, types),
        _ => false,
    }
}

/// Whether a derived `eq` can compare every field.
pub open spec fn comparable_all_view(fields: Seq<FieldView>, held: Seq<(TypeId, FuncId)>) -> bool {
    forall|i: int| 0 <= i < fields.len() ==> comparable_view((#[trigger] fields[i]).ty, held)
}

/// Whether a derived `eq` can compare every field.
pub fn comparable_all(fields: &Vec<Field>, held: &Vec<(TypeId, FuncId)>) -> (found: bool)
    ensures
        found == comparable_all_view(views(fields@), held@),
{
    let mut i: usize = 0;
    while i < fields.len()
        invariant
            i <= fields.len(),
            forall|k: int|
                0 <= k < i ==> comparable_view((#[trigger] views(fields@)[k]).ty, held@),
        decreases fields.len() - i,
    {
        if !comparable(&fields[i].ty, held) {
            assert(!comparable_view(views(fields@)[i as int].ty, held@));
            return false;
        }
        i += 1;
    }
    true
}

/// Whether a derived `eq` can compare every payload.
pub open spec fn comparable_in_view(variants: Seq<VariantView>, held: Seq<(TypeId, FuncId)>) -> bool {
    forall|i: int|
        0 <= i < variants.len() ==> comparable_all_view((#[trigger] variants[i]).fields, held)
}

/// Whether a derived `eq` can compare every payload.
pub fn comparable_in(variants: &Vec<Variant>, held: &Vec<(TypeId, FuncId)>) -> (found: bool)
    ensures
        found == comparable_in_view(views(variants@), held@),
{
    let mut i: usize = 0;
    while i < variants.len()
        invariant
            i <= variants.len(),
            forall|k: int|
                0 <= k < i ==> comparable_all_view((#[trigger] views(variants@)[k]).fields, held@),
        decreases variants.len() - i,
    {
        if !comparable_all(&variants[i].fields, held) {
            assert(!comparable_all_view(views(variants@)[i as int].fields, held@));
            return false;
        }
        i += 1;
    }
    true
}

/// Whether a derived `hash` can read every field.
pub open spec fn hashable_all_view(fields: Seq<FieldView>, held: Seq<(TypeId, FuncId)>) -> bool {
    forall|i: int| 0 <= i < fields.len() ==> hashable_view((#[trigger] fields[i]).ty, held)
}

/// Whether a derived `hash` can read every field.
pub fn hashable_all(fields: &Vec<Field>, held: &Vec<(TypeId, FuncId)>) -> (found: bool)
    ensures
        found == hashable_all_view(views(fields@), held@),
{
    let mut i: usize = 0;
    while i < fields.len()
        invariant
            i <= fields.len(),
            forall|k: int|
                0 <= k < i ==> hashable_view((#[trigger] views(fields@)[k]).ty, held@),
        decreases fields.len() - i,
    {
        if !hashable(&fields[i].ty, held) {
            assert(!hashable_view(views(fields@)[i as int].ty, held@));
            return false;
        }
        i += 1;
    }
    true
}

/// Whether a derived `hash` can read every payload.
pub open spec fn hashable_in_view(variants: Seq<VariantView>, held: Seq<(TypeId, FuncId)>) -> bool {
    forall|i: int|
        0 <= i < variants.len() ==> hashable_all_view((#[trigger] variants[i]).fields, held)
}

/// Whether a derived `hash` can read every payload.
pub fn hashable_in(variants: &Vec<Variant>, held: &Vec<(TypeId, FuncId)>) -> (found: bool)
    ensures
        found == hashable_in_view(views(variants@), held@),
{
    let mut i: usize = 0;
    while i < variants.len()
        invariant
            i <= variants.len(),
            forall|k: int|
                0 <= k < i ==> hashable_all_view((#[trigger] views(variants@)[k]).fields, held@),
        decreases variants.len() - i,
    {
        if !hashable_all(&variants[i].fields, held) {
            assert(!hashable_all_view(views(variants@)[i as int].fields, held@));
            return false;
        }
        i += 1;
    }
    true
}

/// Whether a derived `display` can write every field.
pub open spec fn displayable_all_view(fields: Seq<FieldView>, held: Seq<(TypeId, FuncId)>, types: Seq<NominalView>) -> bool {
    forall|i: int| 0 <= i < fields.len() ==> displayable_view((#[trigger] fields[i]).ty, held, types)
}

/// Whether a derived `display` can write every field.
pub fn displayable_all(fields: &Vec<Field>, held: &Vec<(TypeId, FuncId)>, types: &Vec<Nominal>) -> (found: bool)
    ensures
        found == displayable_all_view(views(fields@), held@, views(types@)),
{
    let mut i: usize = 0;
    while i < fields.len()
        invariant
            i <= fields.len(),
            forall|k: int|
                0 <= k < i ==> displayable_view((#[trigger] views(fields@)[k]).ty, held@, views(types@)),
        decreases fields.len() - i,
    {
        if !displayable(&fields[i].ty, held, types) {
            assert(!displayable_view(views(fields@)[i as int].ty, held@, views(types@)));
            return false;
        }
        i += 1;
    }
    true
}

/// Whether a derived `display` can write every payload.
pub open spec fn displayable_in_view(variants: Seq<VariantView>, held: Seq<(TypeId, FuncId)>, types: Seq<NominalView>) -> bool {
    forall|i: int|
        0 <= i < variants.len() ==> displayable_all_view((#[trigger] variants[i]).fields, held, types)
}

/// Whether a derived `display` can write every payload.
pub fn displayable_in(variants: &Vec<Variant>, held: &Vec<(TypeId, FuncId)>, types: &Vec<Nominal>) -> (found: bool)
    ensures
        found == displayable_in_view(views(variants@), held@, views(types@)),
{
    let mut i: usize = 0;
    while i < variants.len()
        invariant
            i <= variants.len(),
            forall|k: int|
                0 <= k < i ==> displayable_all_view((#[trigger] views(variants@)[k]).fields, held@, views(types@)),
        decreases variants.len() - i,
    {
        if !displayable_all(&variants[i].fields, held, types) {
            assert(!displayable_all_view(views(variants@)[i as int].fields, held@, views(types@)));
            return false;
        }
        i += 1;
    }
    true
}

/// What a member nothing derives is reported as.
pub open spec fn member_kind_view(member: Seq<char>) -> Seq<char> {
    texts_view("a derived `"@, member, "`"@)
}

/// What a member nothing derives is reported as.
pub fn member_kind(member: &str) -> (what: String)
    ensures
        what@ == member_kind_view(member@),
{
    texts("a derived `", member, "`")
}

/// How a field of a struct is read, or of the payload of a variant.
pub open spec fn field_read_view(value: Value, variant: Option<u32>, index: nat) -> InstKindView {
    match variant {
        Some(variant) => InstKindView::GetPayload { value, variant, field: index_id_view(index) },
        None => InstKindView::GetField { object: value, field: index_id_view(index) },
    }
}

/// How a field of a struct is read, or of the payload of a variant.
pub fn field_read(value: Value, variant: Option<u32>, index: usize) -> (kind: InstKind)
    ensures
        kind@ == field_read_view(value, variant, index as nat),
{
    match variant {
        Some(variant) => InstKind::GetPayload { value, variant, field: index_id(index) },
        None => InstKind::GetField { object: value, field: index_id(index) },
    }
}

/// A case for each block, in order.
pub open spec fn cases_to_view(blocks: Seq<BlockId>) -> Seq<(u64, TargetView)> {
    Seq::new(blocks.len(), |i: int| (i as u64, TargetView::to(blocks[i])))
}

/// A case for each block, in order.
pub fn cases_to(blocks: &Vec<BlockId>) -> (cases: Vec<(u64, Target)>)
    ensures
        case_views(cases@) == cases_to_view(blocks@),
{
    let mut cases: Vec<(u64, Target)> = Vec::new();
    let mut i: usize = 0;
    while i < blocks.len()
        invariant
            i <= blocks.len(),
            cases@.len() == i,
            forall|k: int|
                0 <= k < i ==> (#[trigger] cases@[k]).0 == k as u64 && cases@[k].1@
                    == TargetView::to(blocks@[k]),
        decreases blocks.len() - i,
    {
        cases.push((i as u64, Target::to(blocks[i])));
        i += 1;
    }
    assert(case_views(cases@) =~= cases_to_view(blocks@));
    cases
}

/// How the text of a struct starts.
pub open spec fn lead_view(name: Seq<char>, empty: bool) -> Seq<char> {
    if empty {
        texts_view(name, " {}"@, ""@)
    } else {
        texts_view(name, " { "@, ""@)
    }
}

/// How the text of a struct starts.
pub fn lead(name: &str, empty: bool) -> (text: String)
    ensures
        text@ == lead_view(name@, empty),
{
    if empty {
        texts(name, " {}", "")
    } else {
        texts(name, " { ", "")
    }
}

/// How the text of a field starts.
pub open spec fn of_field_view(name: Seq<char>) -> Seq<char> {
    texts_view(name, " = "@, ""@)
}

/// How the text of a field starts.
pub fn of_field(name: &str) -> (text: String)
    ensures
        text@ == of_field_view(name@),
{
    texts(name, " = ", "")
}

/// Whether the fields of a payload are numbered rather than named.
pub open spec fn is_tuple_named_view(fields: Seq<FieldView>) -> bool {
    fields.len() > 0 && forall|i: int|
        0 <= i < fields.len() ==> (#[trigger] fields[i]).name == decimal(i as nat)
}

/// Whether the fields of a payload are numbered rather than named.
pub fn is_tuple_named(fields: &Vec<Field>) -> (found: bool)
    ensures
        found == is_tuple_named_view(views(fields@)),
{
    let mut i: usize = 0;
    while i < fields.len()
        invariant
            i <= fields.len(),
            forall|k: int|
                0 <= k < i ==> (#[trigger] views(fields@)[k]).name == decimal(k as nat),
        decreases fields.len() - i,
    {
        let written = number(i as u64);
        if !same_text(fields[i].name.as_str(), written.as_str()) {
            assert(views(fields@)[i as int].name != decimal(i as nat));
            return false;
        }
        i += 1;
    }
    fields.len() > 0
}

/// How the text of a variant starts.
pub open spec fn variant_lead_view(name: Seq<char>, variant: VariantView, tuple: bool) -> Seq<char> {
    let whole = dotted_view(name, variant.name);
    if variant.fields.len() == 0 {
        whole
    } else if tuple {
        texts_view(whole, "("@, ""@)
    } else {
        texts_view(whole, " { "@, ""@)
    }
}

/// How the text of a variant starts.
pub fn variant_lead(name: &str, variant: &Variant, tuple: bool) -> (text: String)
    ensures
        text@ == variant_lead_view(name@, variant@, tuple),
{
    let whole = dotted(name, variant.name.as_str());
    if variant.fields.len() == 0 {
        whole
    } else if tuple {
        texts(whole.as_str(), "(", "")
    } else {
        texts(whole.as_str(), " { ", "")
    }
}

/// How the text of a payload ends.
pub open spec fn variant_close_view(fields: Seq<FieldView>, tuple: bool) -> Seq<char> {
    if tuple {
        ")"@
    } else {
        " }"@
    }
}

/// How the text of a payload ends.
pub fn variant_close(fields: &Vec<Field>, tuple: bool) -> (text: &'static str)
    ensures
        text@ == variant_close_view(views(fields@), tuple),
{
    if tuple {
        ")"
    } else {
        " }"
    }
}

/// What follows the last dot of a text, which is all of it where it has none.
pub open spec fn after_dot_view(text: Seq<char>) -> Seq<char>
    decreases text.len(),
{
    if text.len() == 0 || text.last() == '.' {
        Seq::empty()
    } else {
        after_dot_view(text.drop_last()).push(text.last())
    }
}

proof fn after_dot_is(text: Seq<char>, at: nat)
    requires
        at <= text.len(),
        at == 0 || text[at - 1] == '.',
        forall|k: int| at <= k < text.len() ==> text[k] != '.',
    ensures
        after_dot_view(text) == text.skip(at as int),
    decreases text.len(),
{
    if text.len() == at {
        assert(text.skip(at as int) =~= Seq::empty());
    } else {
        assert(text.drop_last().len() == text.len() - 1);
        if at > 0 {
            assert(text.drop_last()[at - 1] == '.');
        }
        after_dot_is(text.drop_last(), at);
        assert(text.drop_last().skip(at as int).push(text.last()) =~= text.skip(at as int));
    }
}

/// What follows the last dot of a text, which is all of it where it has none.
pub fn after_dot(text: &str) -> (rest: String)
    ensures
        rest@ == after_dot_view(text@),
{
    let length: usize = text.unicode_len();
    let mut at: usize = length;
    while at > 0
        invariant_except_break
            at <= length == text@.len(),
            forall|k: int| at <= k < text@.len() ==> text@[k] != '.',
        ensures
            at <= length == text@.len(),
            at == 0 || text@[at - 1] == '.',
            forall|k: int| at <= k < text@.len() ==> text@[k] != '.',
        decreases at,
    {
        if text.get_char(at - 1) == '.' {
            break;
        }
        at -= 1;
    }
    proof {
        after_dot_is(text@, at as nat);
    }
    let rest = text.substring_char(at, length).to_owned();
    assert(rest@ =~= text@.skip(at as int));
    rest
}

/// What an optional list of fields says.
pub open spec fn maybe_field_views(held: Option<Vec<Field>>) -> Option<Seq<FieldView>> {
    match held {
        Some(fields) => Some(views(fields@)),
        None => None,
    }
}

/// What an optional list of variants says.
pub open spec fn maybe_variants(held: Option<Vec<Variant>>) -> Option<Seq<VariantView>> {
    match held {
        Some(variants) => Some(views(variants@)),
        None => None,
    }
}

/// The blocks a value that may be missing is told apart in.
#[derive(Clone, Copy)]
pub struct Ways {
    pub found: BlockId,
    pub otherwise: BlockId,
    pub join: BlockId,
}

impl<'a> BodyView<'a> {
    /// The fields of a declared struct, as they are declared.
    pub open spec fn declared_fields(self, id: TypeId) -> Option<Seq<FieldView>> {
        if id.0 < self.context.program.types.len() {
            match self.context.program.nominal(id).shape {
                ShapeView::Struct(held) => Some(held.fields),
                _ => None,
            }
        } else {
            None
        }
    }

    /// The variants of a declared enum, as they are declared.
    pub open spec fn declared_variants(self, id: TypeId) -> Option<Seq<VariantView>> {
        if id.0 < self.context.program.types.len() {
            match self.context.program.nominal(id).shape {
                ShapeView::Enum(held) => Some(held.variants),
                _ => None,
            }
        } else {
            None
        }
    }

    /// What a declared type is called inside its module.
    pub open spec fn short_name(self, id: TypeId) -> Seq<char> {
        if id.0 < self.context.program.types.len() {
            after_dot_view(self.context.program.nominal(id).name)
        } else {
            Seq::empty()
        }
    }

    /// The text of a value of a derived type, going on in the block the text is
    /// in.
    #[verifier::opaque]
    pub open spec fn display_derived(self, value: Value, ty: TyView, span: Span) -> (
        BodyView<'a>,
        Value,
    )
        decreases ty,
    {
        match ty {
            TyView::Named { id, args } => match shown_by_view(ty, self.context.displays) {
                Some(callee) => self.emit(
                    InstKindView::Call { callee, type_args: args, args: seq1(value) },
                    TyView::Str,
                    span,
                ),
                None => match display_slot_view(ty, self.context.program.types) {
                    Some(method) => self.emit(
                        InstKindView::CallVirtual { method, receiver: value, args: Seq::empty() },
                        TyView::Str,
                        span,
                    ),
                    None => self.emit(InstKindView::DisplayValue { value }, TyView::Str, span),
                },
            },
            TyView::Nil => self.emit(
                InstKindView::Const(ConstView::Str("nil"@)),
                TyView::Str,
                span,
            ),
            TyView::Bool => self.display_bool(value, span),
            TyView::Optional(inner) => {
                let (b, ways) = self.split_optional(value, span);
                let (b, held) = b.switch_to(ways.found).emit(
                    InstKindView::Unwrap { value },
                    *inner,
                    span,
                );
                let (b, text) = b.display_derived(held, *inner, span);
                b.finish_optional(text, ways, span)
            },
            _ => self.emit(InstKindView::DisplayValue { value }, TyView::Str, span),
        }
    }
}

impl<'a> Body<'a> {
    fn declared_fields(&self, id: TypeId) -> (found: Option<Vec<Field>>)
        ensures
            maybe_field_views(found) == self@.declared_fields(id),
    {
        if id.0 as usize >= self.context.program.types.len() {
            return None;
        }
        match &self.context.program.nominal(id).shape {
            Shape::Struct(held) => {
                let copy = held.clone();
                Some(copy.fields)
            },
            _ => None,
        }
    }

    fn declared_variants(&self, id: TypeId) -> (found: Option<Vec<Variant>>)
        ensures
            maybe_variants(found) == self@.declared_variants(id),
    {
        if id.0 as usize >= self.context.program.types.len() {
            return None;
        }
        match &self.context.program.nominal(id).shape {
            Shape::Enum(held) => {
                let copy = held.clone();
                Some(copy.variants)
            },
            _ => None,
        }
    }

    fn short_name(&self, id: TypeId) -> (name: String)
        ensures
            name@ == self@.short_name(id),
    {
        if id.0 as usize >= self.context.program.types.len() {
            return String::new();
        }
        after_dot(self.context.program.nominal(id).name.as_str())
    }

    /// The text of a value of a derived type, going on in the block the text is
    /// in.
    pub fn display_derived(&mut self, value: Value, ty: &Ty, span: Span) -> (text: Value)
        ensures
            (final(self)@, text) == old(self)@.display_derived(value, ty@, span),
        decreases ty,
    {
        proof {
            reveal(BodyView::display_derived);
        }
        match ty {
            Ty::Named { args, .. } => match shown_by(ty, self.context.displays) {
                Some(callee) => {
                    let type_args = clone_tys(args);
                    self.emit(
                        InstKind::Call { callee, type_args, args: one(value) },
                        Ty::Str,
                        span,
                    )
                },
                None => match display_slot(ty, &self.context.program.types) {
                    Some(method) => self.emit(
                        InstKind::CallVirtual { method, receiver: value, args: no_values() },
                        Ty::Str,
                        span,
                    ),
                    None => self.emit(InstKind::DisplayValue { value }, Ty::Str, span),
                },
            },
            Ty::Nil => self.emit(InstKind::Const(Const::Str("nil".to_owned())), Ty::Str, span),
            Ty::Bool => self.display_bool(value, span),
            Ty::Optional(inner) => {
                let ways = self.split_optional(value, span);
                self.switch_to(ways.found);
                let held = self.emit(InstKind::Unwrap { value }, (**inner).clone(), span);
                let text = self.display_derived(held, inner, span);
                self.finish_optional(text, ways, span)
            },
            _ => self.emit(InstKind::DisplayValue { value }, Ty::Str, span),
        }
    }
}

impl<'a> BodyView<'a> {
    /// Writes the body of a member a type derives, and says whether it could: what
    /// holds a part the member cannot read is reported instead.
    #[verifier::opaque]
    pub open spec fn derive(
        self,
        member: Seq<char>,
        owner: TypeId,
        span: Span,
    ) -> (BodyView<'a>, bool) {
        let b = self;
        let fields = b.declared_fields(owner);
        let variants = b.declared_variants(owner);
        match fields {
            Some(fields) => {
                if same_text_view(member, "eq"@) {
                    b.struct_eq(fields, span)
                } else {
                    if same_text_view(member, "hash"@) {
                        b.struct_hash(fields, span)
                    } else {
                        if same_text_view(member, "display"@) {
                            b.struct_display(owner, fields, span)
                        } else {
                            b.underivable(member, span)
                        }
                    }
                }
            },
            None => {
                match variants {
                    Some(variants) => {
                        if same_text_view(member, "eq"@) {
                            b.enum_eq(variants, span)
                        } else {
                            if same_text_view(member, "hash"@) {
                                b.enum_hash(variants, span)
                            } else {
                                if same_text_view(member, "display"@) {
                                    b.enum_display(owner, variants, span)
                                } else {
                                    b.underivable(member, span)
                                }
                            }
                        }
                    },
                    None => {
                        (b, false)
                    },
                }
            },
        }
    }

    /// A member nothing derives.
    #[verifier::opaque]
    pub open spec fn underivable(self, member: Seq<char>, span: Span) -> (BodyView<'a>, bool) {
        let b = self;
        let what = member_kind_view(member);
        let b = b.gap(span, what);
        (b, false)
    }

    /// A boolean returned.
    #[verifier::opaque]
    pub open spec fn answer(self, held: bool, span: Span) -> BodyView<'a> {
        let b = self;
        let (b, value) = b.emit(InstKindView::Const(ConstView::Bool(held)), TyView::Bool, span);
        let b = b.terminate(TerminatorView::Return(value));
        b
    }

    /// `Eq` compares every field, and the first that differs answers.
    #[verifier::opaque]
    pub open spec fn struct_eq(self, fields: Seq<FieldView>, span: Span) -> (BodyView<'a>, bool) {
        let b = self;
        let entry = b.function.entry;
        let params = b.params_of(entry);
        if params.len() != 2 {
            (b, false)
        } else {
            if !comparable_all_view(fields, b.context.equals) {
                b.refuse(span, "a derived `eq` over a field it cannot compare"@)
            } else {
                let (b, differs) = b.add_block(span);
                let b = b.eq_fields(
                    value_at_view(params, 0),
                    value_at_view(params, 1),
                    None,
                    fields,
                    differs,
                    span,
                    fields.len(),
                );
                let b = b.answer(true, span);
                let b = b.switch_to(differs);
                let b = b.answer(false, span);
                (b, true)
            }
        }
    }

    /// A body left unwritten, and why.
    #[verifier::opaque]
    pub open spec fn refuse(self, span: Span, what: Seq<char>) -> (BodyView<'a>, bool) {
        let b = self;
        let b = b.gap(span, what);
        (b, false)
    }

    /// Each of the fields compared, going on where they are the same.
    #[verifier::opaque]
    pub open spec fn eq_fields(
        self,
        left: Value,
        right: Value,
        variant: Option<u32>,
        fields: Seq<FieldView>,
        differs: BlockId,
        span: Span,
        count: nat,
    ) -> BodyView<'a>
        decreases count,
    {
        if count == 0 {
            self
        } else {
            let b = self.eq_fields(left, right, variant, fields, differs, span, (count - 1) as nat);
            let i = (count - 1) as nat;
            let (b, a) = b.emit(
                field_read_view(left, variant, i as nat),
                fields[i as int].ty,
                span,
            );
            let (b, b0) = b.emit(
                field_read_view(right, variant, i as nat),
                fields[i as int].ty,
                span,
            );
            let (b, same) = b.same(a, b0, fields[i as int].ty, span);
            let (b, next) = b.add_block(span);
            let b = b.branch(same, next, differs);
            let b = b.switch_to(next);
            b
        }
    }

    /// Whether two values of a type are equal: an instruction where the backend
    /// knows how, and the type's own `eq` otherwise.
    #[verifier::opaque]
    pub open spec fn same(
        self,
        left: Value,
        right: Value,
        ty: TyView,
        span: Span,
    ) -> (BodyView<'a>, Value) {
        let b = self;
        match shown_by_view(ty, b.context.equals) {
            Some(callee) => {
                b.emit(
                    InstKindView::Call {
                        callee,
                        type_args: args_given_view(ty),
                        args: seq2(left, right),
                    },
                    TyView::Bool,
                    span,
                )
            },
            None => {
                b.emit(
                    InstKindView::Binary { op: BinaryOp::Equal, left, right },
                    TyView::Bool,
                    span,
                )
            },
        }
    }

    /// For an enum `Eq` compares the variant before its payload. Each payload is read
    /// under the tag that proved which variant it is, so every variant gets its own
    /// way through.
    #[verifier::opaque]
    pub open spec fn enum_eq(self, variants: Seq<VariantView>, span: Span) -> (BodyView<'a>, bool) {
        let b = self;
        let entry = b.function.entry;
        let params = b.params_of(entry);
        if params.len() != 2 {
            (b, false)
        } else {
            if !comparable_in_view(variants, b.context.equals) {
                b.refuse(span, "a derived `eq` over a payload it cannot compare"@)
            } else {
                let left = value_at_view(params, 0);
                let right = value_at_view(params, 1);
                let (b, tag) = b.emit(
                    InstKindView::GetTag { value: left },
                    TyView::Int(IntTy::I64),
                    span,
                );
                let (b, other) = b.emit(
                    InstKindView::GetTag { value: right },
                    TyView::Int(IntTy::I64),
                    span,
                );
                let (b, same) = b.emit(
                    InstKindView::Binary { op: BinaryOp::Equal, left: tag, right: other },
                    TyView::Bool,
                    span,
                );
                let (b, differs) = b.add_block(span);
                let b = b.switch_to(differs);
                let b = b.answer(false, span);
                let (b, carried) = b.add_block(span);
                let b = b.switch_to(entry);
                let b = b.branch(same, carried, differs);
                let (b, blocks) = b.eq_variants(
                    left,
                    right,
                    variants,
                    differs,
                    span,
                    variants.len(),
                );
                let b = b.choose_variant(tag, blocks, carried, span);
                (b, true)
            }
        }
    }

    /// A way through for each variant.
    #[verifier::opaque]
    pub open spec fn eq_variants(
        self,
        left: Value,
        right: Value,
        variants: Seq<VariantView>,
        differs: BlockId,
        span: Span,
        count: nat,
    ) -> (BodyView<'a>, Seq<BlockId>)
        decreases count,
    {
        if count == 0 {
            (self, Seq::empty())
        } else {
            let (b, blocks) = self.eq_variants(left, right, variants, differs, span, (count - 1) as nat);
            let i = (count - 1) as nat;
            let (b, block) = b.add_block(span);
            let blocks = blocks.push(block);
            let b = b.switch_to(block);
            let b = b.eq_fields(
                left,
                right,
                Some(index_id_view(i as nat)),
                variants[i as int].fields,
                differs,
                span,
                variants[i as int].fields.len(),
            );
            let b = b.answer(true, span);
            (b, blocks)
        }
    }

    /// From `from` to the block of the variant a tag names.
    #[verifier::opaque]
    pub open spec fn choose_variant(
        self,
        tag: Value,
        blocks: Seq<BlockId>,
        from: BlockId,
        span: Span,
    ) -> BodyView<'a> {
        let b = self;
        let (b, unreached) = b.add_block(span);
        let b = b.switch_to(unreached);
        let b = b.terminate(TerminatorView::Trap(Trap::Unreachable));
        let b = b.switch_to(from);
        let b = b.terminate(
            TerminatorView::Switch {
                value: tag,
                cases: cases_to_view(blocks),
                default: TargetView::to(unreached),
            },
        );
        b
    }

    /// Where a hash starts.
    #[verifier::opaque]
    pub open spec fn hash_start(self, span: Span) -> (BodyView<'a>, Value) {
        let b = self;
        b.emit(
            InstKindView::Const(ConstView::Int(0xcbf29ce484222325)),
            TyView::Int(IntTy::U64),
            span,
        )
    }

    /// A hash with one more part in it.
    #[verifier::opaque]
    pub open spec fn combine(
        self,
        state: Value,
        value: Value,
        span: Span,
    ) -> (BodyView<'a>, Value) {
        let b = self;
        b.emit(InstKindView::HashCombine { state, value }, TyView::Int(IntTy::U64), span)
    }

    /// `Hash` combines every field, in the order they are declared.
    #[verifier::opaque]
    pub open spec fn struct_hash(self, fields: Seq<FieldView>, span: Span) -> (BodyView<'a>, bool) {
        let b = self;
        let entry = b.function.entry;
        let params = b.params_of(entry);
        if params.len() != 1 {
            (b, false)
        } else {
            if !hashable_all_view(fields, b.context.hashes) {
                b.refuse(span, "a derived `hash` over a field it cannot hash"@)
            } else {
                let (b, start) = b.hash_start(span);
                let (b, state) = b.hash_fields(
                    start,
                    value_at_view(params, 0),
                    None,
                    fields,
                    span,
                    fields.len(),
                );
                let b = b.terminate(TerminatorView::Return(state));
                (b, true)
            }
        }
    }

    /// Each of the fields combined into a hash.
    #[verifier::opaque]
    pub open spec fn hash_fields(
        self,
        first: Value,
        value: Value,
        variant: Option<u32>,
        fields: Seq<FieldView>,
        span: Span,
        count: nat,
    ) -> (BodyView<'a>, Value)
        decreases count,
    {
        if count == 0 {
            (self, first)
        } else {
            let (b, state) = self.hash_fields(first, value, variant, fields, span, (count - 1) as nat);
            let i = (count - 1) as nat;
            let (b, held) = b.emit(
                field_read_view(value, variant, i as nat),
                fields[i as int].ty,
                span,
            );
            let (b, hashed) = b.hash(held, fields[i as int].ty, span);
            let (b, more) = b.combine(state, hashed, span);
            let state = more;
            (b, state)
        }
    }

    /// The hash of one value: the type's own `hash` where it is a declared type.
    #[verifier::opaque]
    pub open spec fn hash(self, value: Value, ty: TyView, span: Span) -> (BodyView<'a>, Value) {
        let b = self;
        match shown_by_view(ty, b.context.hashes) {
            Some(callee) => {
                b.emit(
                    InstKindView::Call {
                        callee,
                        type_args: args_given_view(ty),
                        args: seq1(value),
                    },
                    TyView::Int(IntTy::U64),
                    span,
                )
            },
            None => {
                b.emit(InstKindView::HashValue { value }, TyView::Int(IntTy::U64), span)
            },
        }
    }

    /// For an enum `Hash` combines the variant before its payload.
    #[verifier::opaque]
    pub open spec fn enum_hash(
        self,
        variants: Seq<VariantView>,
        span: Span,
    ) -> (BodyView<'a>, bool) {
        let b = self;
        let entry = b.function.entry;
        let params = b.params_of(entry);
        if params.len() != 1 {
            (b, false)
        } else {
            if !hashable_in_view(variants, b.context.hashes) {
                b.refuse(span, "a derived `hash` over a payload it cannot hash"@)
            } else {
                let value = value_at_view(params, 0);
                let (b, tag) = b.emit(
                    InstKindView::GetTag { value },
                    TyView::Int(IntTy::I64),
                    span,
                );
                let (b, tag_hash) = b.emit(
                    InstKindView::HashValue { value: tag },
                    TyView::Int(IntTy::U64),
                    span,
                );
                let (b, start) = b.hash_start(span);
                let (b, state) = b.combine(start, tag_hash, span);
                let (b, blocks) = b.hash_variants(state, value, variants, span, variants.len());
                let b = b.choose_variant(tag, blocks, entry, span);
                (b, true)
            }
        }
    }

    /// A way through for each variant.
    #[verifier::opaque]
    pub open spec fn hash_variants(
        self,
        state: Value,
        value: Value,
        variants: Seq<VariantView>,
        span: Span,
        count: nat,
    ) -> (BodyView<'a>, Seq<BlockId>)
        decreases count,
    {
        if count == 0 {
            (self, Seq::empty())
        } else {
            let (b, blocks) = self.hash_variants(state, value, variants, span, (count - 1) as nat);
            let i = (count - 1) as nat;
            let (b, block) = b.add_block(span);
            let blocks = blocks.push(block);
            let b = b.switch_to(block);
            let (b, hashed) = b.hash_fields(
                state,
                value,
                Some(index_id_view(i as nat)),
                variants[i as int].fields,
                span,
                variants[i as int].fields.len(),
            );
            let b = b.terminate(TerminatorView::Return(hashed));
            (b, blocks)
        }
    }

    /// A piece of text.
    #[verifier::opaque]
    pub open spec fn string(self, text: Seq<char>, span: Span) -> (BodyView<'a>, Value) {
        let b = self;
        b.emit(InstKindView::Const(ConstView::Str(text)), TyView::Str, span)
    }

    /// One text after another.
    #[verifier::opaque]
    pub open spec fn concat_values(
        self,
        left: Value,
        right: Value,
        span: Span,
    ) -> (BodyView<'a>, Value) {
        let b = self;
        b.emit(InstKindView::Binary { op: BinaryOp::Concat, left, right }, TyView::Str, span)
    }

    /// A piece of text after another.
    #[verifier::opaque]
    pub open spec fn append_text(
        self,
        left: Value,
        text: Seq<char>,
        span: Span,
    ) -> (BodyView<'a>, Value) {
        let b = self;
        let (b, right) = b.string(text, span);
        b.concat_values(left, right, span)
    }

    /// `Display` writes the name of the type and every field.
    #[verifier::opaque]
    pub open spec fn struct_display(
        self,
        owner: TypeId,
        fields: Seq<FieldView>,
        span: Span,
    ) -> (BodyView<'a>, bool) {
        let b = self;
        let entry = b.function.entry;
        let params = b.params_of(entry);
        if params.len() != 1 {
            (b, false)
        } else {
            if !displayable_all_view(fields, b.context.displays, b.context.program.types) {
                b.refuse(span, "a derived `display` over a field it cannot display"@)
            } else {
                let name = b.short_name(owner);
                let opening = lead_view(name, fields.len() == 0);
                let (b, text) = b.string(opening, span);
                let (b, text) = b.display_fields(
                    text,
                    value_at_view(params, 0),
                    None,
                    true,
                    fields,
                    span,
                    fields.len(),
                );
                let (b, whole) = if fields.len() > 0 {
                    b.append_text(text, " }"@, span)
                } else {
                    (b, text)
                };
                let b = b.terminate(TerminatorView::Return(whole));
                (b, true)
            }
        }
    }

    /// Each of the fields written after a text, named where they have names.
    #[verifier::opaque]
    pub open spec fn display_fields(
        self,
        first: Value,
        value: Value,
        variant: Option<u32>,
        named: bool,
        fields: Seq<FieldView>,
        span: Span,
        count: nat,
    ) -> (BodyView<'a>, Value)
        decreases count,
    {
        if count == 0 {
            (self, first)
        } else {
            let (b, text) = self.display_fields(first, value, variant, named, fields, span, (count - 1) as nat);
            let i = (count - 1) as nat;
            let (b, separated) = if i > 0 {
                b.append_text(text, ", "@, span)
            } else {
                (b, text)
            };
            let (b, labelled0) = if named {
                let label = of_field_view(fields[i as int].name);
                b.append_text(separated, label, span)
            } else {
                (b, separated)
            };
            let (b, held) = b.emit(
                field_read_view(value, variant, i as nat),
                fields[i as int].ty,
                span,
            );
            let (b, displayed) = b.display_derived(held, fields[i as int].ty, span);
            let (b, more) = b.concat_values(labelled0, displayed, span);
            let text = more;
            (b, text)
        }
    }

    /// For an enum `Display` writes the variant and its payload.
    #[verifier::opaque]
    pub open spec fn enum_display(
        self,
        owner: TypeId,
        variants: Seq<VariantView>,
        span: Span,
    ) -> (BodyView<'a>, bool) {
        let b = self;
        let entry = b.function.entry;
        let params = b.params_of(entry);
        if params.len() != 1 {
            (b, false)
        } else {
            if !displayable_in_view(variants, b.context.displays, b.context.program.types) {
                b.refuse(span, "a derived `display` over a payload it cannot display"@)
            } else {
                let value = value_at_view(params, 0);
                let (b, tag) = b.emit(
                    InstKindView::GetTag { value },
                    TyView::Int(IntTy::I64),
                    span,
                );
                let name = b.short_name(owner);
                let (b, blocks) = b.display_variants(name, value, variants, span, variants.len());
                let b = b.choose_variant(tag, blocks, entry, span);
                (b, true)
            }
        }
    }

    /// A way through for each variant.
    #[verifier::opaque]
    pub open spec fn display_variants(
        self,
        name: Seq<char>,
        value: Value,
        variants: Seq<VariantView>,
        span: Span,
        count: nat,
    ) -> (BodyView<'a>, Seq<BlockId>)
        decreases count,
    {
        if count == 0 {
            (self, Seq::empty())
        } else {
            let (b, blocks) = self.display_variants(name, value, variants, span, (count - 1) as nat);
            let i = (count - 1) as nat;
            let (b, block) = b.add_block(span);
            let blocks = blocks.push(block);
            let b = b.switch_to(block);
            let tuple = is_tuple_named_view(variants[i as int].fields);
            let opening = variant_lead_view(name, variants[i as int], tuple);
            let (b, text) = b.string(opening, span);
            let (b, text) = b.display_fields(
                text,
                value,
                Some(index_id_view(i as nat)),
                !tuple,
                variants[i as int].fields,
                span,
                variants[i as int].fields.len(),
            );
            let last = variant_close_view(variants[i as int].fields, tuple);
            let (b, whole) = if variants[i as int].fields.len() > 0 {
                b.append_text(text, last, span)
            } else {
                (b, text)
            };
            let b = b.terminate(TerminatorView::Return(whole));
            (b, blocks)
        }
    }

    /// A boolean as text.
    #[verifier::opaque]
    pub open spec fn display_bool(self, value: Value, span: Span) -> (BodyView<'a>, Value) {
        let b = self;
        let (b, then) = b.add_block(span);
        let (b, otherwise) = b.add_block(span);
        let (b, join) = b.add_block(span);
        let b = b.branch(value, then, otherwise);
        let b = b.switch_to(then);
        let (b, text) = b.string("true"@, span);
        let b = b.jump_with(join, text);
        let b = b.switch_to(otherwise);
        let (b, text) = b.string("false"@, span);
        let b = b.jump_with(join, text);
        let b = b.switch_to(join);
        b.add_block_param(join, TyView::Str, span)
    }

    /// A branch on whether a value is there.
    #[verifier::opaque]
    pub open spec fn split_optional(self, value: Value, span: Span) -> (BodyView<'a>, Ways) {
        let b = self;
        let (b, found) = b.add_block(span);
        let (b, otherwise) = b.add_block(span);
        let (b, join) = b.add_block(span);
        let (b, condition) = b.emit(InstKindView::IsSome { value }, TyView::Bool, span);
        let b = b.branch(condition, found, otherwise);
        (b, Ways { found, otherwise, join })
    }

    /// The text of what was there, or `nil`.
    #[verifier::opaque]
    pub open spec fn finish_optional(
        self,
        text: Value,
        ways: Ways,
        span: Span,
    ) -> (BodyView<'a>, Value) {
        let b = self;
        let b = b.jump_with(ways.join, text);
        let b = b.switch_to(ways.otherwise);
        let (b, absent) = b.string("nil"@, span);
        let b = b.jump_with(ways.join, absent);
        let b = b.switch_to(ways.join);
        b.add_block_param(ways.join, TyView::Str, span)
    }
}

impl<'a> Body<'a> {
    /// Writes the body of a member a type derives, and says whether it could: what
    /// holds a part the member cannot read is reported instead.
    pub fn derive(&mut self, member: &str, owner: TypeId, span: Span) -> (produced: bool)
        ensures
            (final(self)@, produced) == old(self)@.derive(member@, owner, span),
    {
        proof {
            reveal(BodyView::derive);
        }
        let fields = self.declared_fields(owner);
        let variants = self.declared_variants(owner);
        match fields {
            Some(fields) => {
                if same_text(member, "eq") {
                    return self.struct_eq(&fields, span);
                }
                if same_text(member, "hash") {
                    return self.struct_hash(&fields, span);
                }
                if same_text(member, "display") {
                    return self.struct_display(owner, &fields, span);
                }
                self.underivable(member, span)
            },
            None => {
                match variants {
                    Some(variants) => {
                        if same_text(member, "eq") {
                            return self.enum_eq(&variants, span);
                        }
                        if same_text(member, "hash") {
                            return self.enum_hash(&variants, span);
                        }
                        if same_text(member, "display") {
                            return self.enum_display(owner, &variants, span);
                        }
                        self.underivable(member, span)
                    },
                    None => {
                        false
                    },
                }
            },
        }
    }

    /// A member nothing derives.
    pub fn underivable(&mut self, member: &str, span: Span) -> (produced: bool)
        ensures
            (final(self)@, produced) == old(self)@.underivable(member@, span),
    {
        proof {
            reveal(BodyView::underivable);
        }
        let what = member_kind(member);
        self.gap(span, what.as_str());
        false
    }

    /// A boolean returned.
    pub fn answer(&mut self, held: bool, span: Span)
        ensures
            final(self)@ == old(self)@.answer(held, span),
    {
        proof {
            reveal(BodyView::answer);
        }
        let value = self.emit(InstKind::Const(Const::Bool(held)), Ty::Bool, span);
        self.terminate(Terminator::Return(value));
    }

    /// `Eq` compares every field, and the first that differs answers.
    pub fn struct_eq(&mut self, fields: &Vec<Field>, span: Span) -> (produced: bool)
        ensures
            (final(self)@, produced) == old(self)@.struct_eq(views(fields@), span),
    {
        proof {
            reveal(BodyView::struct_eq);
        }
        let entry = self.function.entry;
        let params = self.params_of(entry);
        if params.len() != 2 {
            return false;
        }
        if !comparable_all(fields, self.context.equals) {
            return self.refuse(span, "a derived `eq` over a field it cannot compare");
        }
        let differs = self.add_block(span);
        self.eq_fields(value_at(&params, 0), value_at(&params, 1), None, fields, differs, span);
        self.answer(true, span);
        self.switch_to(differs);
        self.answer(false, span);
        true
    }

    /// A body left unwritten, and why.
    pub fn refuse(&mut self, span: Span, what: &str) -> (produced: bool)
        ensures
            (final(self)@, produced) == old(self)@.refuse(span, what@),
    {
        proof {
            reveal(BodyView::refuse);
        }
        self.gap(span, what);
        false
    }

    /// Each of the fields compared, going on where they are the same.
    pub fn eq_fields(
        &mut self,
        left: Value,
        right: Value,
        variant: Option<u32>,
        fields: &Vec<Field>,
        differs: BlockId,
        span: Span,
    )
        ensures
            final(self)@ == old(self)@.eq_fields(
                left,
                right,
                variant,
                views(fields@),
                differs,
                span,
                fields@.len(),
            ),
    {
        let ghost start = self@;
        let mut i: usize = 0;
        proof {
            reveal(BodyView::eq_fields);
        }
        while i < fields.len()
            invariant
                i <= fields.len(),
                self@ == start.eq_fields(
                    left,
                    right,
                    variant,
                    views(fields@),
                    differs,
                    span,
                    i as nat,
                ),
            decreases fields.len() - i,
        {
            proof {
                reveal(BodyView::eq_fields);
            }
            let a = self.emit(field_read(left, variant, i), fields[i].ty.clone(), span);
            let b0 = self.emit(field_read(right, variant, i), fields[i].ty.clone(), span);
            let same = self.same(a, b0, &fields[i].ty, span);
            let next = self.add_block(span);
            self.branch(same, next, differs);
            self.switch_to(next);
            i += 1;
        }
    }

    /// Whether two values of a type are equal: an instruction where the backend
    /// knows how, and the type's own `eq` otherwise.
    pub fn same(&mut self, left: Value, right: Value, ty: &Ty, span: Span) -> (produced: Value)
        ensures
            (final(self)@, produced) == old(self)@.same(left, right, ty@, span),
    {
        proof {
            reveal(BodyView::same);
        }
        match shown_by(ty, self.context.equals) {
            Some(callee) => {
                self.emit(
                    InstKind::Call { callee, type_args: args_given(ty), args: two(left, right) },
                    Ty::Bool,
                    span,
                )
            },
            None => {
                self.emit(InstKind::Binary { op: BinaryOp::Equal, left, right }, Ty::Bool, span)
            },
        }
    }

    /// For an enum `Eq` compares the variant before its payload. Each payload is read
    /// under the tag that proved which variant it is, so every variant gets its own
    /// way through.
    #[verifier::rlimit(60)]
    pub fn enum_eq(&mut self, variants: &Vec<Variant>, span: Span) -> (produced: bool)
        ensures
            (final(self)@, produced) == old(self)@.enum_eq(views(variants@), span),
    {
        proof {
            reveal(BodyView::enum_eq);
        }
        let entry = self.function.entry;
        let params = self.params_of(entry);
        if params.len() != 2 {
            return false;
        }
        if !comparable_in(variants, self.context.equals) {
            return self.refuse(span, "a derived `eq` over a payload it cannot compare");
        }
        let left = value_at(&params, 0);
        let right = value_at(&params, 1);
        let tag = self.emit(InstKind::GetTag { value: left }, Ty::Int(IntTy::I64), span);
        let other = self.emit(InstKind::GetTag { value: right }, Ty::Int(IntTy::I64), span);
        let same = self.emit(
            InstKind::Binary { op: BinaryOp::Equal, left: tag, right: other },
            Ty::Bool,
            span,
        );
        let differs = self.add_block(span);
        self.switch_to(differs);
        self.answer(false, span);
        let carried = self.add_block(span);
        self.switch_to(entry);
        self.branch(same, carried, differs);
        let blocks = self.eq_variants(left, right, variants, differs, span);
        self.choose_variant(tag, &blocks, carried, span);
        true
    }

    /// A way through for each variant.
    pub fn eq_variants(
        &mut self,
        left: Value,
        right: Value,
        variants: &Vec<Variant>,
        differs: BlockId,
        span: Span,
    ) -> (blocks: Vec<BlockId>)
        ensures
            (final(self)@, blocks@) == old(self)@.eq_variants(
                left,
                right,
                views(variants@),
                differs,
                span,
                variants@.len(),
            ),
    {
        let ghost start = self@;
        let mut blocks: Vec<BlockId> = Vec::new();
        let mut i: usize = 0;
        proof {
            reveal(BodyView::eq_variants);
        }
        while i < variants.len()
            invariant
                i <= variants.len(),
                (self@, blocks@) == start.eq_variants(
                    left,
                    right,
                    views(variants@),
                    differs,
                    span,
                    i as nat,
                ),
            decreases variants.len() - i,
        {
            proof {
                reveal(BodyView::eq_variants);
            }
            let block = self.add_block(span);
            blocks.push(block);
            self.switch_to(block);
            self.eq_fields(left, right, Some(index_id(i)), &variants[i].fields, differs, span);
            self.answer(true, span);
            i += 1;
        }
        blocks
    }

    /// From `from` to the block of the variant a tag names.
    pub fn choose_variant(&mut self, tag: Value, blocks: &Vec<BlockId>, from: BlockId, span: Span)
        ensures
            final(self)@ == old(self)@.choose_variant(tag, blocks@, from, span),
    {
        proof {
            reveal(BodyView::choose_variant);
        }
        let unreached = self.add_block(span);
        self.switch_to(unreached);
        self.terminate(Terminator::Trap(Trap::Unreachable));
        self.switch_to(from);
        self.terminate(
            Terminator::Switch {
                value: tag,
                cases: cases_to(blocks),
                default: Target::to(unreached),
            },
        );
    }

    /// Where a hash starts.
    pub fn hash_start(&mut self, span: Span) -> (produced: Value)
        ensures
            (final(self)@, produced) == old(self)@.hash_start(span),
    {
        proof {
            reveal(BodyView::hash_start);
        }
        self.emit(InstKind::Const(Const::Int(0xcbf29ce484222325)), Ty::Int(IntTy::U64), span)
    }

    /// A hash with one more part in it.
    pub fn combine(&mut self, state: Value, value: Value, span: Span) -> (produced: Value)
        ensures
            (final(self)@, produced) == old(self)@.combine(state, value, span),
    {
        proof {
            reveal(BodyView::combine);
        }
        self.emit(InstKind::HashCombine { state, value }, Ty::Int(IntTy::U64), span)
    }

    /// `Hash` combines every field, in the order they are declared.
    pub fn struct_hash(&mut self, fields: &Vec<Field>, span: Span) -> (produced: bool)
        ensures
            (final(self)@, produced) == old(self)@.struct_hash(views(fields@), span),
    {
        proof {
            reveal(BodyView::struct_hash);
        }
        let entry = self.function.entry;
        let params = self.params_of(entry);
        if params.len() != 1 {
            return false;
        }
        if !hashable_all(fields, self.context.hashes) {
            return self.refuse(span, "a derived `hash` over a field it cannot hash");
        }
        let start = self.hash_start(span);
        let state = self.hash_fields(start, value_at(&params, 0), None, fields, span);
        self.terminate(Terminator::Return(state));
        true
    }

    /// Each of the fields combined into a hash.
    pub fn hash_fields(
        &mut self,
        first: Value,
        value: Value,
        variant: Option<u32>,
        fields: &Vec<Field>,
        span: Span,
    ) -> (state: Value)
        ensures
            (final(self)@, state) == old(self)@.hash_fields(
                first,
                value,
                variant,
                views(fields@),
                span,
                fields@.len(),
            ),
    {
        let ghost start = self@;
        let mut state: Value = first;
        let mut i: usize = 0;
        proof {
            reveal(BodyView::hash_fields);
        }
        while i < fields.len()
            invariant
                i <= fields.len(),
                (self@, state) == start.hash_fields(
                    first,
                    value,
                    variant,
                    views(fields@),
                    span,
                    i as nat,
                ),
            decreases fields.len() - i,
        {
            proof {
                reveal(BodyView::hash_fields);
            }
            let held = self.emit(field_read(value, variant, i), fields[i].ty.clone(), span);
            let hashed = self.hash(held, &fields[i].ty, span);
            let more = self.combine(state, hashed, span);
            state = more;
            i += 1;
        }
        state
    }

    /// The hash of one value: the type's own `hash` where it is a declared type.
    pub fn hash(&mut self, value: Value, ty: &Ty, span: Span) -> (produced: Value)
        ensures
            (final(self)@, produced) == old(self)@.hash(value, ty@, span),
    {
        proof {
            reveal(BodyView::hash);
        }
        match shown_by(ty, self.context.hashes) {
            Some(callee) => {
                self.emit(
                    InstKind::Call { callee, type_args: args_given(ty), args: one(value) },
                    Ty::Int(IntTy::U64),
                    span,
                )
            },
            None => {
                self.emit(InstKind::HashValue { value }, Ty::Int(IntTy::U64), span)
            },
        }
    }

    /// For an enum `Hash` combines the variant before its payload.
    pub fn enum_hash(&mut self, variants: &Vec<Variant>, span: Span) -> (produced: bool)
        ensures
            (final(self)@, produced) == old(self)@.enum_hash(views(variants@), span),
    {
        proof {
            reveal(BodyView::enum_hash);
        }
        let entry = self.function.entry;
        let params = self.params_of(entry);
        if params.len() != 1 {
            return false;
        }
        if !hashable_in(variants, self.context.hashes) {
            return self.refuse(span, "a derived `hash` over a payload it cannot hash");
        }
        let value = value_at(&params, 0);
        let tag = self.emit(InstKind::GetTag { value }, Ty::Int(IntTy::I64), span);
        let tag_hash = self.emit(InstKind::HashValue { value: tag }, Ty::Int(IntTy::U64), span);
        let start = self.hash_start(span);
        let state = self.combine(start, tag_hash, span);
        let blocks = self.hash_variants(state, value, variants, span);
        self.choose_variant(tag, &blocks, entry, span);
        true
    }

    /// A way through for each variant.
    pub fn hash_variants(
        &mut self,
        state: Value,
        value: Value,
        variants: &Vec<Variant>,
        span: Span,
    ) -> (blocks: Vec<BlockId>)
        ensures
            (final(self)@, blocks@) == old(self)@.hash_variants(
                state,
                value,
                views(variants@),
                span,
                variants@.len(),
            ),
    {
        let ghost start = self@;
        let mut blocks: Vec<BlockId> = Vec::new();
        let mut i: usize = 0;
        proof {
            reveal(BodyView::hash_variants);
        }
        while i < variants.len()
            invariant
                i <= variants.len(),
                (self@, blocks@) == start.hash_variants(
                    state,
                    value,
                    views(variants@),
                    span,
                    i as nat,
                ),
            decreases variants.len() - i,
        {
            proof {
                reveal(BodyView::hash_variants);
            }
            let block = self.add_block(span);
            blocks.push(block);
            self.switch_to(block);
            let hashed = self.hash_fields(
                state,
                value,
                Some(index_id(i)),
                &variants[i].fields,
                span,
            );
            self.terminate(Terminator::Return(hashed));
            i += 1;
        }
        blocks
    }

    /// A piece of text.
    pub fn string(&mut self, text: &str, span: Span) -> (produced: Value)
        ensures
            (final(self)@, produced) == old(self)@.string(text@, span),
    {
        proof {
            reveal(BodyView::string);
        }
        self.emit(InstKind::Const(Const::Str(text.to_owned())), Ty::Str, span)
    }

    /// One text after another.
    pub fn concat_values(&mut self, left: Value, right: Value, span: Span) -> (produced: Value)
        ensures
            (final(self)@, produced) == old(self)@.concat_values(left, right, span),
    {
        proof {
            reveal(BodyView::concat_values);
        }
        self.emit(InstKind::Binary { op: BinaryOp::Concat, left, right }, Ty::Str, span)
    }

    /// A piece of text after another.
    pub fn append_text(&mut self, left: Value, text: &str, span: Span) -> (produced: Value)
        ensures
            (final(self)@, produced) == old(self)@.append_text(left, text@, span),
    {
        proof {
            reveal(BodyView::append_text);
        }
        let right = self.string(text, span);
        self.concat_values(left, right, span)
    }

    /// `Display` writes the name of the type and every field.
    pub fn struct_display(
        &mut self,
        owner: TypeId,
        fields: &Vec<Field>,
        span: Span,
    ) -> (produced: bool)
        ensures
            (final(self)@, produced) == old(self)@.struct_display(owner, views(fields@), span),
    {
        proof {
            reveal(BodyView::struct_display);
        }
        let entry = self.function.entry;
        let params = self.params_of(entry);
        if params.len() != 1 {
            return false;
        }
        if !displayable_all(fields, self.context.displays, &self.context.program.types) {
            return self.refuse(span, "a derived `display` over a field it cannot display");
        }
        let name = self.short_name(owner);
        let opening = lead(name.as_str(), fields.len() == 0);
        let text = self.string(opening.as_str(), span);
        let text = self.display_fields(text, value_at(&params, 0), None, true, fields, span);
        let whole = if fields.len() > 0 {
            self.append_text(text, " }", span)
        } else {
            text
        };
        self.terminate(Terminator::Return(whole));
        true
    }

    /// Each of the fields written after a text, named where they have names.
    pub fn display_fields(
        &mut self,
        first: Value,
        value: Value,
        variant: Option<u32>,
        named: bool,
        fields: &Vec<Field>,
        span: Span,
    ) -> (text: Value)
        ensures
            (final(self)@, text) == old(self)@.display_fields(
                first,
                value,
                variant,
                named,
                views(fields@),
                span,
                fields@.len(),
            ),
    {
        let ghost start = self@;
        let mut text: Value = first;
        let mut i: usize = 0;
        proof {
            reveal(BodyView::display_fields);
        }
        while i < fields.len()
            invariant
                i <= fields.len(),
                (self@, text) == start.display_fields(
                    first,
                    value,
                    variant,
                    named,
                    views(fields@),
                    span,
                    i as nat,
                ),
            decreases fields.len() - i,
        {
            proof {
                reveal(BodyView::display_fields);
            }
            let separated = if i > 0 {
                self.append_text(text, ", ", span)
            } else {
                text
            };
            let labelled0 = if named {
                let label = of_field(fields[i].name.as_str());
                self.append_text(separated, label.as_str(), span)
            } else {
                separated
            };
            let held = self.emit(field_read(value, variant, i), fields[i].ty.clone(), span);
            let displayed = self.display_derived(held, &fields[i].ty, span);
            let more = self.concat_values(labelled0, displayed, span);
            text = more;
            i += 1;
        }
        text
    }

    /// For an enum `Display` writes the variant and its payload.
    pub fn enum_display(
        &mut self,
        owner: TypeId,
        variants: &Vec<Variant>,
        span: Span,
    ) -> (produced: bool)
        ensures
            (final(self)@, produced) == old(self)@.enum_display(owner, views(variants@), span),
    {
        proof {
            reveal(BodyView::enum_display);
        }
        let entry = self.function.entry;
        let params = self.params_of(entry);
        if params.len() != 1 {
            return false;
        }
        if !displayable_in(variants, self.context.displays, &self.context.program.types) {
            return self.refuse(span, "a derived `display` over a payload it cannot display");
        }
        let value = value_at(&params, 0);
        let tag = self.emit(InstKind::GetTag { value }, Ty::Int(IntTy::I64), span);
        let name = self.short_name(owner);
        let blocks = self.display_variants(name.as_str(), value, variants, span);
        self.choose_variant(tag, &blocks, entry, span);
        true
    }

    /// A way through for each variant.
    pub fn display_variants(
        &mut self,
        name: &str,
        value: Value,
        variants: &Vec<Variant>,
        span: Span,
    ) -> (blocks: Vec<BlockId>)
        ensures
            (final(self)@, blocks@) == old(self)@.display_variants(
                name@,
                value,
                views(variants@),
                span,
                variants@.len(),
            ),
    {
        let ghost start = self@;
        let mut blocks: Vec<BlockId> = Vec::new();
        let mut i: usize = 0;
        proof {
            reveal(BodyView::display_variants);
        }
        while i < variants.len()
            invariant
                i <= variants.len(),
                (self@, blocks@) == start.display_variants(
                    name@,
                    value,
                    views(variants@),
                    span,
                    i as nat,
                ),
            decreases variants.len() - i,
        {
            proof {
                reveal(BodyView::display_variants);
            }
            let block = self.add_block(span);
            blocks.push(block);
            self.switch_to(block);
            let tuple = is_tuple_named(&variants[i].fields);
            let opening = variant_lead(name, &variants[i], tuple);
            let text = self.string(opening.as_str(), span);
            let text = self.display_fields(
                text,
                value,
                Some(index_id(i)),
                !tuple,
                &variants[i].fields,
                span,
            );
            let last = variant_close(&variants[i].fields, tuple);
            let whole = if variants[i].fields.len() > 0 {
                self.append_text(text, last, span)
            } else {
                text
            };
            self.terminate(Terminator::Return(whole));
            i += 1;
        }
        blocks
    }

    /// A boolean as text.
    pub fn display_bool(&mut self, value: Value, span: Span) -> (produced: Value)
        ensures
            (final(self)@, produced) == old(self)@.display_bool(value, span),
    {
        proof {
            reveal(BodyView::display_bool);
        }
        let then = self.add_block(span);
        let otherwise = self.add_block(span);
        let join = self.add_block(span);
        self.branch(value, then, otherwise);
        self.switch_to(then);
        let text = self.string("true", span);
        self.jump_with(join, text);
        self.switch_to(otherwise);
        let text = self.string("false", span);
        self.jump_with(join, text);
        self.switch_to(join);
        self.add_block_param(join, Ty::Str, span)
    }

    /// A branch on whether a value is there.
    pub fn split_optional(&mut self, value: Value, span: Span) -> (produced: Ways)
        ensures
            (final(self)@, produced) == old(self)@.split_optional(value, span),
    {
        proof {
            reveal(BodyView::split_optional);
        }
        let found = self.add_block(span);
        let otherwise = self.add_block(span);
        let join = self.add_block(span);
        let condition = self.emit(InstKind::IsSome { value }, Ty::Bool, span);
        self.branch(condition, found, otherwise);
        Ways { found, otherwise, join }
    }

    /// The text of what was there, or `nil`.
    pub fn finish_optional(&mut self, text: Value, ways: Ways, span: Span) -> (produced: Value)
        ensures
            (final(self)@, produced) == old(self)@.finish_optional(text, ways, span),
    {
        proof {
            reveal(BodyView::finish_optional);
        }
        self.jump_with(ways.join, text);
        self.switch_to(ways.otherwise);
        let absent = self.string("nil", span);
        self.jump_with(ways.join, absent);
        self.switch_to(ways.join);
        self.add_block_param(ways.join, Ty::Str, span)
    }
}

} // verus!
