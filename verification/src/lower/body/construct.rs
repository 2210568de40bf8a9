//! Lowering constructors, fields, and collection literals.

use vstd::prelude::*;

use crate::ast::{Expr, FieldInit, MapEntry, MapKey};
use crate::inst::{Allocation, Const, ConstView, InstKind, InstKindView, Value, no_values, one, two};
use crate::span::Span;
use crate::ty::{Builtin, Ty, TyView, named_tys, tys};

use super::kinds::{
    args_of, args_of_view, as_opt, builtin_args, builtin_args_view, index_id, index_id_view, is_ty,
    is_ty_view, no_tys, opt_ty, optional, optional_inner, optional_inner_view, seq1, ty_at,
    ty_at_view,
};
use super::queries::{field_ty, field_ty_view};
use super::asked::{
    element_stored, element_stored_view, field_slots, field_slots_view, field_wanted,
    field_wanted_view, index_type, index_type_view, is_indexed, is_indexed_view, named_slots,
    named_slots_view, reads_length, reads_length_view, record_type, record_type_view,
    sequence_element, sequence_element_view,
};
use super::calls::maybe_built;
use super::deeper::{Deeper, deeper};
use super::given::{
    Given, all_values, all_values_view, fill, fill_view, given, given_one, given_one_view, is_full,
    is_full_view, or_else, or_else_view, wanted_at, wanted_at_view, written_name, written_name_view,
};
use super::{Body, BodyView};

verus! {

impl<'a> BodyView<'a> {
    /// A literal gives a value for every field, and a field with a default may be
    /// left out. A variant carrying named fields is written like one, and builds an
    /// enum value.
    #[verifier::opaque]
    pub open spec fn record(
        self,
        path: Seq<String>,
        fields: Seq<FieldInit>,
        wanted: Option<TyView>,
        span: Span,
        deeper: Deeper<'a>,
    ) -> (BodyView<'a>, Value) {
        let b = self;
        let (b, recorded) = b.recorded(span);
        match record_type_view(recorded, wanted) {
            Some(ty) => {
                match b.variant_named(ty, path) {
                    Some(tag) => {
                        b.construct_record(ty, tag, fields, span, deeper)
                    },
                    None => {
                        match b.fields_of(ty) {
                            Some(declared) => {
                                let slots = field_slots_view(declared, fields);
                                let (b, values) = b.field_values(
                                    fields,
                                    slots,
                                    declared,
                                    deeper,
                                    fields.len(),
                                );
                                let filled = fill_view(declared.len(), None, slots, values);
                                let limit = b.given_fields(ty, declared, filled);
                                let (b, stored) = b.default_fields(
                                    ty,
                                    declared,
                                    filled,
                                    limit,
                                    span,
                                    deeper,
                                    filled.len(),
                                );
                                if limit < declared.len() {
                                    b.missing(span, "a literal with no value for a field"@)
                                } else {
                                    b.emit(
                                        InstKindView::MakeStruct {
                                            ty: ty,
                                            fields: stored,
                                            allocation: Allocation::Managed,
                                        },
                                        ty,
                                        span,
                                    )
                                }
                            },
                            None => b.missing(span, "a record literal of a type with no fields"@),
                        }
                    },
                }
            },
            None => b.missing(span, "a record literal with no type"@),
        }
    }

    /// What each field written in a literal produces, at the type of the field.
    #[verifier::opaque]
    pub open spec fn field_values(
        self,
        fields: Seq<FieldInit>,
        slots: Seq<Option<usize>>,
        declared: Seq<(Seq<char>, TyView)>,
        deeper: Deeper<'a>,
        count: nat,
    ) -> (BodyView<'a>, Seq<Value>)
        decreases count,
    {
        if count == 0 {
            (self, Seq::empty())
        } else {
            let (b, values) = self.field_values(fields, slots, declared, deeper, (count - 1) as nat);
            let i = (count - 1) as nat;
            let (b, value) = match field_wanted_view(declared, slots, i) {
                Some(ty) => {
                    b.stored(fields[i as int].value, Some(ty), deeper)
                },
                None => {
                    b.stored(fields[i as int].value, None, deeper)
                },
            };
            let values = values.push(value);
            (b, values)
        }
    }

    /// What the first `limit` fields hold: what was written, the default beside the
    /// field, or nothing where the field is optional.
    #[verifier::opaque]
    pub open spec fn default_fields(
        self,
        ty: TyView,
        declared: Seq<(Seq<char>, TyView)>,
        filled: Seq<Option<Value>>,
        limit: nat,
        span: Span,
        deeper: Deeper<'a>,
        count: nat,
    ) -> (BodyView<'a>, Seq<Value>)
        decreases count,
    {
        if count == 0 {
            (self, Seq::empty())
        } else {
            let (b, values) = self.default_fields(ty, declared, filled, limit, span, deeper, (count - 1) as nat);
            let i = (count - 1) as nat;
            let (b, values) = if i < limit {
                let (b, value) = match filled[i as int] {
                    Some(held) => {
                        (b, held)
                    },
                    None => {
                        let (b, value) = match b.default_for(ty, index_id_view(i)) {
                            Some(default) => {
                                b.stored(
                                    default,
                                    Some(field_ty_view(declared, index_id_view(i))),
                                    deeper,
                                )
                            },
                            None => {
                                b.emit(
                                    InstKindView::Const(ConstView::Nil),
                                    field_ty_view(declared, index_id_view(i)),
                                    span,
                                )
                            },
                        };
                        (b, value)
                    },
                };
                let values = values.push(value);
                (b, values)
            } else {
                (b, values)
            };
            (b, values)
        }
    }

    /// Building an enum value whose variant carries named fields.
    #[verifier::opaque]
    pub open spec fn construct_record(
        self,
        ty: TyView,
        variant: u32,
        fields: Seq<FieldInit>,
        span: Span,
        deeper: Deeper<'a>,
    ) -> (BodyView<'a>, Value) {
        let b = self;
        match b.payload_names(ty, variant) {
            Some(declared) => {
                match b.payload_of(ty, variant) {
                    Some(carried) => {
                        let slots = named_slots_view(declared, fields);
                        let (b, values) = b.named_values(
                            fields,
                            slots,
                            carried,
                            deeper,
                            fields.len(),
                        );
                        let filled = fill_view(declared.len(), None, slots, values);
                        if !is_full_view(filled) {
                            b.missing(span, "a variant with no value for a field it carries"@)
                        } else {
                            let payload = all_values_view(filled);
                            b.emit(InstKindView::MakeEnum { ty: ty, variant, payload }, ty, span)
                        }
                    },
                    None => b.missing(span, "a variant whose payload has no type"@),
                }
            },
            None => b.missing(span, "a variant whose payload has no type"@),
        }
    }

    /// What each field written in a variant produces, at the type of the field.
    #[verifier::opaque]
    pub open spec fn named_values(
        self,
        fields: Seq<FieldInit>,
        slots: Seq<Option<usize>>,
        carried: Seq<TyView>,
        deeper: Deeper<'a>,
        count: nat,
    ) -> (BodyView<'a>, Seq<Value>)
        decreases count,
    {
        if count == 0 {
            (self, Seq::empty())
        } else {
            let (b, values) = self.named_values(fields, slots, carried, deeper, (count - 1) as nat);
            let i = (count - 1) as nat;
            let (b, value) = b.expr(
                fields[i as int].value,
                wanted_at_view(carried, slots, i),
                deeper,
            );
            let values = values.push(value);
            (b, values)
        }
    }

    /// Building an enum value from the payload the variant carries.
    #[verifier::opaque]
    pub open spec fn construct(
        self,
        ty: TyView,
        variant: u32,
        args: Seq<Given<'a>>,
        span: Span,
        deeper: Deeper<'a>,
    ) -> (BodyView<'a>, Value) {
        let b = self;
        match b.payload_of(ty, variant) {
            Some(carried) => {
                if carried.len() != args.len() {
                    b.missing(span, "a variant given a payload of another length"@)
                } else {
                    let (b, payload) = b.pass_each(args, carried, deeper, args.len());
                    b.emit(InstKindView::MakeEnum { ty: ty, variant, payload }, ty, span)
                }
            },
            None => b.missing(span, "a variant whose payload has no type"@),
        }
    }

    /// `.` reads a field. `?.` reads one through a value that may hold nothing, and
    /// gives nothing back where it does.
    #[verifier::opaque]
    pub open spec fn field(
        self,
        receiver: Expr,
        name: Seq<char>,
        optional: bool,
        span: Span,
        deeper: Deeper<'a>,
    ) -> (BodyView<'a>, Value) {
        let b = self;
        let (b, empty) = b.empty_variant(receiver, name, span);
        match empty {
            Some(built) => {
                b.emit(
                    InstKindView::MakeEnum { ty: built.0, variant: built.1, payload: Seq::empty() },
                    built.0,
                    span,
                )
            },
            None => {
                let (b, object) = b.expr(receiver, None, deeper);
                let (b, result) = b.recorded(span);
                if optional {
                    b.optional_field(object, name, result, span)
                } else {
                    b.plain_field(object, name, result, span)
                }
            },
        }
    }

    /// The variant a field written on an enum builds. A variant with no payload is
    /// written like a field of the enum, and builds a value rather than reading one.
    #[verifier::opaque]
    pub open spec fn empty_variant(
        self,
        receiver: Expr,
        name: Seq<char>,
        span: Span,
    ) -> (BodyView<'a>, Option<(TyView, u32)>) {
        let b = self;
        match written_name_view(receiver) {
            Some(written) => {
                if b.lookup(written@).is_some() {
                    (b, None)
                } else {
                    let (b, ty) = b.recorded(span);
                    match b.variant_of(ty, name) {
                        Some(variant) => {
                            (b, Some((ty, variant)))
                        },
                        None => {
                            (b, None)
                        },
                    }
                }
            },
            None => (b, None),
        }
    }

    /// A field, a property, or a length read. A property reads like a field and runs
    /// code, so a read of one is a call to its getter.
    #[verifier::opaque]
    pub open spec fn plain_field(
        self,
        object: Value,
        name: Seq<char>,
        result: TyView,
        span: Span,
    ) -> (BodyView<'a>, Value) {
        let b = self;
        let (b, object) = b.settled(object, span);
        let held = b.type_at(object);
        match b.getter(held, name) {
            Some(found) => {
                b.emit(
                    InstKindView::Call {
                        callee: found.0,
                        type_args: Seq::empty(),
                        args: seq1(object),
                    },
                    found.1,
                    span,
                )
            },
            None => {
                if reads_length_view(name, held) {
                    b.emit(InstKindView::Length { receiver: object }, TyView::integer(), span)
                } else {
                    match b.field_index(held, name) {
                        Some(index) => {
                            let declared = b.stored_type(held, index);
                            b.narrowed(
                                declared,
                                result,
                                InstKindView::GetField { object, field: index },
                                span,
                            )
                        },
                        None => b.missing(span, "a member that is not a stored field"@),
                    }
                }
            },
        }
    }

    /// A field read through a value that may hold nothing.
    #[verifier::opaque]
    pub open spec fn optional_field(
        self,
        object: Value,
        name: Seq<char>,
        result: TyView,
        span: Span,
    ) -> (BodyView<'a>, Value) {
        let b = self;
        let held = b.type_at(object);
        match optional_inner_view(held) {
            Some(inner) => {
                match b.field_index(inner, name) {
                    Some(index) => {
                        let (b, present) = b.add_block(span);
                        let (b, absent) = b.add_block(span);
                        let (b, join) = b.add_block(span);
                        let (b, there) = b.emit(
                            InstKindView::IsSome { value: object },
                            TyView::Bool,
                            span,
                        );
                        let b = b.branch(there, present, absent);
                        let b = b.switch_to(present);
                        let (b, inside) = b.emit(
                            InstKindView::Unwrap { value: object },
                            inner,
                            span,
                        );
                        let (b, read_at) = if is_ty_view(b.stored_type(inner, index), result) {
                            (b, result)
                        } else {
                            (b, or_else_view(optional_inner_view(result), result))
                        };
                        let (b, read) = b.emit(
                            InstKindView::GetField { object: inside, field: index },
                            read_at,
                            span,
                        );
                        let (b, wrapped) = b.coerce(read, result, span);
                        let b = b.jump_with(join, wrapped);
                        let b = b.switch_to(absent);
                        let (b, nothing) = b.emit(
                            InstKindView::Const(ConstView::Nil),
                            result,
                            span,
                        );
                        let b = b.jump_with(join, nothing);
                        let b = b.switch_to(join);
                        b.add_block_param(join, result, span)
                    },
                    None => b.missing(span, "a member that is not a stored field"@),
                }
            },
            None => b.missing(span, "`?.` on a value that holds something already"@),
        }
    }

    /// `[a, b]` fills a list or a fixed-size array, and which one it fills is what
    /// context asked for.
    #[verifier::opaque]
    pub open spec fn list(
        self,
        values: Seq<Expr>,
        wanted: Option<TyView>,
        span: Span,
        deeper: Deeper<'a>,
    ) -> (BodyView<'a>, Value) {
        let b = self;
        let (b, ty) = b.settled_type(wanted, span);
        match sequence_element_view(ty) {
            Some(element) => {
                let (b, built) = b.each_at(values, element, deeper, values.len());
                b.emit(InstKindView::MakeList { element, values: built }, ty, span)
            },
            None => b.missing(span, "a sequence literal whose elements have no type"@),
        }
    }

    /// What each of several expressions produces, at one type.
    #[verifier::opaque]
    pub open spec fn each_at(
        self,
        list: Seq<Expr>,
        element: TyView,
        deeper: Deeper<'a>,
        count: nat,
    ) -> (BodyView<'a>, Seq<Value>)
        decreases count,
    {
        if count == 0 {
            (self, Seq::empty())
        } else {
            let (b, values) = self.each_at(list, element, deeper, (count - 1) as nat);
            let i = (count - 1) as nat;
            let (b, value) = b.expr(list[i as int], Some(element), deeper);
            let values = values.push(value);
            (b, values)
        }
    }

    /// `Map { ... }` builds a map, by name or by computed key.
    #[verifier::opaque]
    pub open spec fn map(
        self,
        entries: Seq<MapEntry>,
        wanted: Option<TyView>,
        span: Span,
        deeper: Deeper<'a>,
    ) -> (BodyView<'a>, Value) {
        let b = self;
        let (b, ty) = b.settled_type(wanted, span);
        match builtin_args_view(ty) {
            Some(args) => {
                match ty_at_view(args, 0) {
                    Some(key) => {
                        match ty_at_view(args, 1) {
                            Some(value) => {
                                let (b, built) = b.map_entries(
                                    entries,
                                    key,
                                    value,
                                    span,
                                    deeper,
                                    entries.len(),
                                );
                                b.emit(
                                    InstKindView::MakeMap { key, value, entries: built },
                                    ty,
                                    span,
                                )
                            },
                            None => b.missing(span, "a map literal whose entries have no type"@),
                        }
                    },
                    None => b.missing(span, "a map literal whose entries have no type"@),
                }
            },
            None => b.missing(span, "a map literal whose entries have no type"@),
        }
    }

    /// What each entry of a map produces. An entry's key is written before its value,
    /// so it is evaluated first.
    #[verifier::opaque]
    pub open spec fn map_entries(
        self,
        entries: Seq<MapEntry>,
        key: TyView,
        value: TyView,
        span: Span,
        deeper: Deeper<'a>,
        count: nat,
    ) -> (BodyView<'a>, Seq<(Value, Value)>)
        decreases count,
    {
        if count == 0 {
            (self, Seq::empty())
        } else {
            let (b, built) = self.map_entries(entries, key, value, span, deeper, (count - 1) as nat);
            let i = (count - 1) as nat;
            let (b, held) = match entries[i as int].key {
                MapKey::Name(name) => {
                    b.emit(InstKindView::Const(ConstView::Str(name@)), key, span)
                },
                MapKey::Computed(computed) => {
                    b.expr(computed, Some(key), deeper)
                },
            };
            let (b, stored) = b.expr(entries[i as int].value, Some(value), deeper);
            let built = built.push((held, stored));
            (b, built)
        }
    }

    /// `Set { ... }` builds a set.
    #[verifier::opaque]
    pub open spec fn set(
        self,
        values: Seq<Expr>,
        wanted: Option<TyView>,
        span: Span,
        deeper: Deeper<'a>,
    ) -> (BodyView<'a>, Value) {
        let b = self;
        let (b, ty) = b.settled_type(wanted, span);
        match builtin_args_view(ty) {
            Some(args) => {
                match ty_at_view(args, 0) {
                    Some(element) => {
                        let (b, built) = b.each_at(values, element, deeper, values.len());
                        b.emit(InstKindView::MakeSet { element, values: built }, ty, span)
                    },
                    None => b.missing(span, "a set literal whose elements have no type"@),
                }
            },
            None => b.missing(span, "a set literal whose elements have no type"@),
        }
    }

    /// `x[i]` reads what the container holds at `i`. A map hands back an optional,
    /// because a key it does not hold is not a mistake. A type the checker sent
    /// through a protocol reads through the method it named.
    #[verifier::opaque]
    pub open spec fn index(
        self,
        receiver: Expr,
        index: Expr,
        optional: bool,
        span: Span,
        deeper: Deeper<'a>,
    ) -> (BodyView<'a>, Value) {
        let b = self;
        if optional {
            b.missing(span, "an optional index"@)
        } else {
            if b.reached(span).is_some() {
                let args = given_one_view(index);
                b.call(receiver, Some("index"@), args, span, deeper)
            } else {
                let (b, container) = b.expr(receiver, None, deeper);
                let (b, container) = b.settled(container, span);
                let held = b.type_at(container);
                if !is_indexed_view(held) {
                    b.missing(span, "indexing something the compiler cannot index"@)
                } else {
                    let wanted = index_type_view(held);
                    let (b, at) = b.expr(index, wanted, deeper);
                    let (b, result) = b.recorded(span);
                    if args_of_view(result, Builtin::Slice).is_some() {
                        let range = b.type_at(at);
                        let inclusive = args_of_view(range, Builtin::RangeInclusive).is_some();
                        b.emit(
                            InstKindView::MakeSlice { receiver: container, range: at, inclusive },
                            result,
                            span,
                        )
                    } else {
                        b.narrowed(
                            element_stored_view(held),
                            result,
                            InstKindView::GetIndex { receiver: container, index: at },
                            span,
                        )
                    }
                }
            }
        }
    }
}

impl<'a> Body<'a> {
    /// A literal gives a value for every field, and a field with a default may be
    /// left out. A variant carrying named fields is written like one, and builds an
    /// enum value.
    pub fn record(
        &mut self,
        path: &'a Vec<String>,
        fields: &'a Vec<FieldInit>,
        wanted: Option<&Ty>,
        span: Span,
        fuel: u32,
    ) -> (produced: Value)
        ensures
            (final(self)@, produced) == old(self)@.record(
                path@,
                fields@,
                opt_ty(wanted),
                span,
                deeper(fuel as nat),
            ),
        decreases fuel, 6nat, 0nat,
    {
        proof {
            reveal(BodyView::record);
        }
        let recorded = self.recorded(span);
        let ty = match record_type(recorded, wanted) {
            Some(ty) => ty,
            None => {
                return self.missing(span, "a record literal with no type");
            },
        };
        match self.variant_named(&ty, path) {
            Some(tag) => {
                self.construct_record(ty, tag, fields, span, fuel)
            },
            None => {
                let declared = match self.fields_of(&ty) {
                    Some(declared) => declared,
                    None => {
                        return self.missing(span, "a record literal of a type with no fields");
                    },
                };
                let slots = field_slots(&declared, fields);
                let values = self.field_values(fields, &slots, &declared, fuel);
                let filled = fill(declared.len(), None, &slots, &values);
                let limit = self.given_fields(&ty, &declared, &filled);
                let stored = self.default_fields(&ty, &declared, &filled, limit, span, fuel);
                if limit < declared.len() {
                    return self.missing(span, "a literal with no value for a field");
                }
                self.emit(
                    InstKind::MakeStruct {
                        ty: ty.clone(),
                        fields: stored,
                        allocation: Allocation::Managed,
                    },
                    ty,
                    span,
                )
            },
        }
    }

    /// What each field written in a literal produces, at the type of the field.
    pub fn field_values(
        &mut self,
        fields: &'a Vec<FieldInit>,
        slots: &Vec<Option<usize>>,
        declared: &Vec<(String, Ty)>,
        fuel: u32,
    ) -> (values: Vec<Value>)
        ensures
            (final(self)@, values@) == old(self)@.field_values(
                fields@,
                slots@,
                named_tys(declared@),
                deeper(fuel as nat),
                fields@.len(),
            ),
        decreases fuel, 2nat, fields@.len(),
    {
        let ghost start = self@;
        let mut values: Vec<Value> = Vec::new();
        let mut i: usize = 0;
        proof {
            reveal(BodyView::field_values);
        }
        while i < fields.len()
            invariant
                i <= fields.len(),
                (self@, values@) == start.field_values(
                    fields@,
                    slots@,
                    named_tys(declared@),
                    deeper(fuel as nat),
                    i as nat,
                ),
            decreases fields.len() - i,
        {
            proof {
                reveal(BodyView::field_values);
            }
            let value = match field_wanted(declared, slots, i) {
                Some(ty) => {
                    self.stored(&fields[i].value, Some(&ty), fuel)
                },
                None => {
                    self.stored(&fields[i].value, None, fuel)
                },
            };
            values.push(value);
            i += 1;
        }
        values
    }

    /// What the first `limit` fields hold: what was written, the default beside the
    /// field, or nothing where the field is optional.
    pub fn default_fields(
        &mut self,
        ty: &Ty,
        declared: &Vec<(String, Ty)>,
        filled: &Vec<Option<Value>>,
        limit: usize,
        span: Span,
        fuel: u32,
    ) -> (values: Vec<Value>)
        ensures
            (final(self)@, values@) == old(self)@.default_fields(
                ty@,
                named_tys(declared@),
                filled@,
                limit as nat,
                span,
                deeper(fuel as nat),
                filled@.len(),
            ),
        decreases fuel, 2nat, filled@.len(),
    {
        let ghost start = self@;
        let mut values: Vec<Value> = Vec::new();
        let mut i: usize = 0;
        proof {
            reveal(BodyView::default_fields);
        }
        while i < filled.len()
            invariant
                i <= filled.len(),
                (self@, values@) == start.default_fields(
                    ty@,
                    named_tys(declared@),
                    filled@,
                    limit as nat,
                    span,
                    deeper(fuel as nat),
                    i as nat,
                ),
            decreases filled.len() - i,
        {
            proof {
                reveal(BodyView::default_fields);
            }
            if i < limit {
                let value = match filled[i] {
                    Some(held) => {
                        held
                    },
                    None => {
                        let value = match self.default_for(ty, index_id(i)) {
                            Some(default) => {
                                self.stored(default, Some(&field_ty(declared, index_id(i))), fuel)
                            },
                            None => {
                                self.emit(
                                    InstKind::Const(Const::Nil),
                                    field_ty(declared, index_id(i)),
                                    span,
                                )
                            },
                        };
                        value
                    },
                };
                values.push(value);
            }
            i += 1;
        }
        values
    }

    /// Building an enum value whose variant carries named fields.
    pub fn construct_record(
        &mut self,
        ty: Ty,
        variant: u32,
        fields: &'a Vec<FieldInit>,
        span: Span,
        fuel: u32,
    ) -> (produced: Value)
        ensures
            (final(self)@, produced) == old(self)@.construct_record(
                ty@,
                variant,
                fields@,
                span,
                deeper(fuel as nat),
            ),
        decreases fuel, 5nat, 0nat,
    {
        proof {
            reveal(BodyView::construct_record);
        }
        let declared = match self.payload_names(&ty, variant) {
            Some(declared) => declared,
            None => {
                return self.missing(span, "a variant whose payload has no type");
            },
        };
        let carried = match self.payload_of(&ty, variant) {
            Some(carried) => carried,
            None => {
                return self.missing(span, "a variant whose payload has no type");
            },
        };
        let slots = named_slots(&declared, fields);
        let values = self.named_values(fields, &slots, &carried, fuel);
        let filled = fill(declared.len(), None, &slots, &values);
        if !is_full(&filled) {
            return self.missing(span, "a variant with no value for a field it carries");
        }
        let payload = all_values(&filled);
        self.emit(InstKind::MakeEnum { ty: ty.clone(), variant, payload }, ty, span)
    }

    /// What each field written in a variant produces, at the type of the field.
    pub fn named_values(
        &mut self,
        fields: &'a Vec<FieldInit>,
        slots: &Vec<Option<usize>>,
        carried: &Vec<Ty>,
        fuel: u32,
    ) -> (values: Vec<Value>)
        ensures
            (final(self)@, values@) == old(self)@.named_values(
                fields@,
                slots@,
                tys(carried@),
                deeper(fuel as nat),
                fields@.len(),
            ),
        decreases fuel, 1nat, fields@.len(),
    {
        let ghost start = self@;
        let mut values: Vec<Value> = Vec::new();
        let mut i: usize = 0;
        proof {
            reveal(BodyView::named_values);
        }
        while i < fields.len()
            invariant
                i <= fields.len(),
                (self@, values@) == start.named_values(
                    fields@,
                    slots@,
                    tys(carried@),
                    deeper(fuel as nat),
                    i as nat,
                ),
            decreases fields.len() - i,
        {
            proof {
                reveal(BodyView::named_values);
            }
            let value = self.expr(&fields[i].value, wanted_at(carried, slots, i), fuel);
            values.push(value);
            i += 1;
        }
        values
    }

    /// Building an enum value from the payload the variant carries.
    pub fn construct(
        &mut self,
        ty: Ty,
        variant: u32,
        args: &Vec<Given<'a>>,
        span: Span,
        fuel: u32,
    ) -> (produced: Value)
        ensures
            (final(self)@, produced) == old(self)@.construct(
                ty@,
                variant,
                args@,
                span,
                deeper(fuel as nat),
            ),
        decreases fuel, 5nat, 0nat,
    {
        proof {
            reveal(BodyView::construct);
        }
        let carried = match self.payload_of(&ty, variant) {
            Some(carried) => carried,
            None => {
                return self.missing(span, "a variant whose payload has no type");
            },
        };
        if carried.len() != args.len() {
            return self.missing(span, "a variant given a payload of another length");
        }
        let payload = self.pass_each(args, &carried, fuel);
        self.emit(InstKind::MakeEnum { ty: ty.clone(), variant, payload }, ty, span)
    }

    /// `.` reads a field. `?.` reads one through a value that may hold nothing, and
    /// gives nothing back where it does.
    pub fn field(
        &mut self,
        receiver: &'a Expr,
        name: &str,
        optional: bool,
        span: Span,
        fuel: u32,
    ) -> (produced: Value)
        ensures
            (final(self)@, produced) == old(self)@.field(
                *receiver,
                name@,
                optional,
                span,
                deeper(fuel as nat),
            ),
        decreases fuel, 6nat, 0nat,
    {
        proof {
            reveal(BodyView::field);
        }
        let empty = self.empty_variant(receiver, name, span);
        match empty {
            Some(built) => {
                self.emit(
                    InstKind::MakeEnum {
                        ty: built.0.clone(),
                        variant: built.1,
                        payload: no_values(),
                    },
                    built.0,
                    span,
                )
            },
            None => {
                let object = self.expr(receiver, None, fuel);
                let result = self.recorded(span);
                if optional {
                    return self.optional_field(object, name, result, span);
                }
                self.plain_field(object, name, result, span)
            },
        }
    }

    /// The variant a field written on an enum builds. A variant with no payload is
    /// written like a field of the enum, and builds a value rather than reading one.
    pub fn empty_variant(
        &mut self,
        receiver: &'a Expr,
        name: &str,
        span: Span,
    ) -> (produced: Option<(Ty, u32)>)
        ensures
            (
                final(self)@,
                maybe_built(produced),
            ) == old(self)@.empty_variant(*receiver, name@, span),
    {
        proof {
            reveal(BodyView::empty_variant);
        }
        let written = match written_name(receiver) {
            Some(written) => written,
            None => {
                return None;
            },
        };
        if self.lookup(written.as_str()).is_some() {
            return None;
        }
        let ty = self.recorded(span);
        match self.variant_of(&ty, name) {
            Some(variant) => {
                Some((ty, variant))
            },
            None => {
                None
            },
        }
    }

    /// A field, a property, or a length read. A property reads like a field and runs
    /// code, so a read of one is a call to its getter.
    pub fn plain_field(
        &mut self,
        object: Value,
        name: &str,
        result: Ty,
        span: Span,
    ) -> (produced: Value)
        ensures
            (final(self)@, produced) == old(self)@.plain_field(object, name@, result@, span),
    {
        proof {
            reveal(BodyView::plain_field);
        }
        let object = self.settled(object, span);
        let held = self.type_at(object);
        match self.getter(&held, name) {
            Some(found) => {
                self.emit(
                    InstKind::Call { callee: found.0, type_args: no_tys(), args: one(object) },
                    found.1,
                    span,
                )
            },
            None => {
                // A length is read off the header, and a string stores how many bytes
                // it has in the same place.
                if reads_length(name, &held) {
                    return self.emit(InstKind::Length { receiver: object }, Ty::integer(), span);
                }
                let index = match self.field_index(&held, name) {
                    Some(index) => index,
                    None => {
                        return self.missing(span, "a member that is not a stored field");
                    },
                };
                let declared = self.stored_type(&held, index);
                self.narrowed(declared, &result, InstKind::GetField { object, field: index }, span)
            },
        }
    }

    /// A field read through a value that may hold nothing.
    pub fn optional_field(
        &mut self,
        object: Value,
        name: &str,
        result: Ty,
        span: Span,
    ) -> (produced: Value)
        ensures
            (final(self)@, produced) == old(self)@.optional_field(object, name@, result@, span),
    {
        proof {
            reveal(BodyView::optional_field);
        }
        let held = self.type_at(object);
        let inner = match optional_inner(&held) {
            Some(inner) => inner,
            None => {
                return self.missing(span, "`?.` on a value that holds something already");
            },
        };
        let index = match self.field_index(&inner, name) {
            Some(index) => index,
            None => {
                return self.missing(span, "a member that is not a stored field");
            },
        };
        let present = self.add_block(span);
        let absent = self.add_block(span);
        let join = self.add_block(span);
        let there = self.emit(InstKind::IsSome { value: object }, Ty::Bool, span);
        self.branch(there, present, absent);
        self.switch_to(present);
        let inside = self.emit(InstKind::Unwrap { value: object }, inner.clone(), span);
        // A field that may be nothing itself is read as it is, so that one absent
        // value comes of the two.
        let read_at = if is_ty(&self.stored_type(&inner, index), &result) {
            result.clone()
        } else {
            or_else(optional_inner(&result), result.clone())
        };
        let read = self.emit(InstKind::GetField { object: inside, field: index }, read_at, span);
        let wrapped = self.coerce(read, &result, span);
        self.jump_with(join, wrapped);
        self.switch_to(absent);
        let nothing = self.emit(InstKind::Const(Const::Nil), result.clone(), span);
        self.jump_with(join, nothing);
        self.switch_to(join);
        self.add_block_param(join, result, span)
    }

    /// `[a, b]` fills a list or a fixed-size array, and which one it fills is what
    /// context asked for.
    pub fn list(
        &mut self,
        values: &'a Vec<Expr>,
        wanted: Option<&Ty>,
        span: Span,
        fuel: u32,
    ) -> (produced: Value)
        ensures
            (final(self)@, produced) == old(self)@.list(
                values@,
                opt_ty(wanted),
                span,
                deeper(fuel as nat),
            ),
        decreases fuel, 6nat, 0nat,
    {
        proof {
            reveal(BodyView::list);
        }
        let ty = self.settled_type(wanted, span);
        let element = match sequence_element(&ty) {
            Some(element) => element,
            None => {
                return self.missing(span, "a sequence literal whose elements have no type");
            },
        };
        let built = self.each_at(values, &element, fuel);
        self.emit(InstKind::MakeList { element, values: built }, ty, span)
    }

    /// What each of several expressions produces, at one type.
    pub fn each_at(&mut self, list: &'a Vec<Expr>, element: &Ty, fuel: u32) -> (values: Vec<Value>)
        ensures
            (final(self)@, values@) == old(self)@.each_at(
                list@,
                element@,
                deeper(fuel as nat),
                list@.len(),
            ),
        decreases fuel, 1nat, list@.len(),
    {
        let ghost start = self@;
        let mut values: Vec<Value> = Vec::new();
        let mut i: usize = 0;
        proof {
            reveal(BodyView::each_at);
        }
        while i < list.len()
            invariant
                i <= list.len(),
                (self@, values@) == start.each_at(list@, element@, deeper(fuel as nat), i as nat),
            decreases list.len() - i,
        {
            proof {
                reveal(BodyView::each_at);
            }
            let value = self.expr(&list[i], Some(element), fuel);
            values.push(value);
            i += 1;
        }
        values
    }

    /// `Map { ... }` builds a map, by name or by computed key.
    pub fn map(
        &mut self,
        entries: &'a Vec<MapEntry>,
        wanted: Option<&Ty>,
        span: Span,
        fuel: u32,
    ) -> (produced: Value)
        ensures
            (final(self)@, produced) == old(self)@.map(
                entries@,
                opt_ty(wanted),
                span,
                deeper(fuel as nat),
            ),
        decreases fuel, 6nat, 0nat,
    {
        proof {
            reveal(BodyView::map);
        }
        let ty = self.settled_type(wanted, span);
        let args = match builtin_args(&ty) {
            Some(args) => args,
            None => {
                return self.missing(span, "a map literal whose entries have no type");
            },
        };
        let key = match ty_at(&args, 0) {
            Some(key) => key,
            None => {
                return self.missing(span, "a map literal whose entries have no type");
            },
        };
        let value = match ty_at(&args, 1) {
            Some(value) => value,
            None => {
                return self.missing(span, "a map literal whose entries have no type");
            },
        };
        let built = self.map_entries(entries, &key, &value, span, fuel);
        self.emit(InstKind::MakeMap { key, value, entries: built }, ty, span)
    }

    /// What each entry of a map produces. An entry's key is written before its value,
    /// so it is evaluated first.
    pub fn map_entries(
        &mut self,
        entries: &'a Vec<MapEntry>,
        key: &Ty,
        value: &Ty,
        span: Span,
        fuel: u32,
    ) -> (built: Vec<(Value, Value)>)
        ensures
            (final(self)@, built@) == old(self)@.map_entries(
                entries@,
                key@,
                value@,
                span,
                deeper(fuel as nat),
                entries@.len(),
            ),
        decreases fuel, 1nat, entries@.len(),
    {
        let ghost start = self@;
        let mut built: Vec<(Value, Value)> = Vec::new();
        let mut i: usize = 0;
        proof {
            reveal(BodyView::map_entries);
        }
        while i < entries.len()
            invariant
                i <= entries.len(),
                (self@, built@) == start.map_entries(
                    entries@,
                    key@,
                    value@,
                    span,
                    deeper(fuel as nat),
                    i as nat,
                ),
            decreases entries.len() - i,
        {
            proof {
                reveal(BodyView::map_entries);
            }
            let held = match &entries[i].key {
                MapKey::Name(name) => {
                    self.emit(InstKind::Const(Const::Str(name.clone())), key.clone(), span)
                },
                MapKey::Computed(computed) => {
                    self.expr(computed, Some(key), fuel)
                },
            };
            let stored = self.expr(&entries[i].value, Some(value), fuel);
            built.push((held, stored));
            i += 1;
        }
        built
    }

    /// `Set { ... }` builds a set.
    pub fn set(
        &mut self,
        values: &'a Vec<Expr>,
        wanted: Option<&Ty>,
        span: Span,
        fuel: u32,
    ) -> (produced: Value)
        ensures
            (final(self)@, produced) == old(self)@.set(
                values@,
                opt_ty(wanted),
                span,
                deeper(fuel as nat),
            ),
        decreases fuel, 6nat, 0nat,
    {
        proof {
            reveal(BodyView::set);
        }
        let ty = self.settled_type(wanted, span);
        let args = match builtin_args(&ty) {
            Some(args) => args,
            None => {
                return self.missing(span, "a set literal whose elements have no type");
            },
        };
        let element = match ty_at(&args, 0) {
            Some(element) => element,
            None => {
                return self.missing(span, "a set literal whose elements have no type");
            },
        };
        let built = self.each_at(values, &element, fuel);
        self.emit(InstKind::MakeSet { element, values: built }, ty, span)
    }

    /// `x[i]` reads what the container holds at `i`. A map hands back an optional,
    /// because a key it does not hold is not a mistake. A type the checker sent
    /// through a protocol reads through the method it named.
    pub fn index(
        &mut self,
        receiver: &'a Expr,
        index: &'a Expr,
        optional: bool,
        span: Span,
        fuel: u32,
    ) -> (produced: Value)
        ensures
            (final(self)@, produced) == old(self)@.index(
                *receiver,
                *index,
                optional,
                span,
                deeper(fuel as nat),
            ),
        decreases fuel, 12nat, 0nat,
    {
        proof {
            reveal(BodyView::index);
        }
        if optional {
            return self.missing(span, "an optional index");
        }
        if self.reached(span).is_some() {
            let args = given_one(index);
            return self.call(receiver, Some("index"), &args, span, fuel);
        }
        let container = self.expr(receiver, None, fuel);
        let container = self.settled(container, span);
        let held = self.type_at(container);
        if !is_indexed(&held) {
            return self.missing(span, "indexing something the compiler cannot index");
        }
        let wanted = index_type(&held);
        let at = self.expr(index, as_opt(&wanted), fuel);
        let result = self.recorded(span);
        if args_of(&result, Builtin::Slice).is_some() {
            let range = self.type_at(at);
            let inclusive = args_of(&range, Builtin::RangeInclusive).is_some();
            return self.emit(
                InstKind::MakeSlice { receiver: container, range: at, inclusive },
                result,
                span,
            );
        }
        self.narrowed(
            element_stored(&held),
            &result,
            InstKind::GetIndex { receiver: container, index: at },
            span,
        )
    }
}

} // verus!
