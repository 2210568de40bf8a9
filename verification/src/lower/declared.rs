//! What a program declares, and what is written beside it.

use vstd::prelude::*;

use crate::ast::{
    Argument, Decorator, EnumItem, Expr, ExprKind, FunctionItem, Item, Member, StructItem,
};
use crate::program::Inline;
use crate::sema::{Decl, Entry, Graph, ModuleId, Node, Overloads, Signature, Type};
use crate::span::Span;
use crate::text::{concat, concatenated, join, joined, names, same_text};

verus! {

/// The struct declaration an item is, where it is the one of that name.
pub open spec fn struct_item_named_view(item: Item, name: Seq<char>) -> Option<StructItem> {
    match item {
        Item::Struct(held) => if held.name@ == name {
            Some(held)
        } else {
            None
        },
        _ => None,
    }
}

/// The struct declaration an item is, where it is the one of that name.
pub fn struct_item_named<'a>(item: &'a Item, name: &str) -> (found: Option<&'a StructItem>)
    ensures
        match found {
            Some(held) => struct_item_named_view(*item, name@) == Some(*held),
            None => struct_item_named_view(*item, name@) is None,
        },
{
    match item {
        Item::Struct(held) => if same_text(held.name.as_str(), name) {
            Some(held)
        } else {
            None
        },
        _ => None,
    }
}

/// The struct declared as a name, from `from` on.
pub open spec fn struct_item_from(items: Seq<Item>, name: Seq<char>, from: nat) -> Option<StructItem>
    decreases items.len() - from,
{
    if from >= items.len() {
        None
    } else {
        match struct_item_named_view(items[from as int], name) {
            Some(found) => Some(found),
            None => struct_item_from(items, name, from + 1),
        }
    }
}

/// The struct declared as a name.
pub fn struct_item<'a>(items: &'a Vec<Item>, name: &str) -> (found: Option<&'a StructItem>)
    ensures
        match found {
            Some(held) => struct_item_from(items@, name@, 0) == Some(*held),
            None => struct_item_from(items@, name@, 0) is None,
        },
{
    let mut i: usize = 0;
    while i < items.len()
        invariant
            i <= items.len(),
            struct_item_from(items@, name@, 0) == struct_item_from(items@, name@, i as nat),
        decreases items.len() - i,
    {
        let held = struct_item_named(&items[i], name);
        if held.is_some() {
            return held;
        }
        i += 1;
    }
    None
}

/// The enum declaration an item is, where it is the one of that name.
pub open spec fn enum_item_named_view(item: Item, name: Seq<char>) -> Option<EnumItem> {
    match item {
        Item::Enum(held) => if held.name@ == name {
            Some(held)
        } else {
            None
        },
        _ => None,
    }
}

/// The enum declaration an item is, where it is the one of that name.
pub fn enum_item_named<'a>(item: &'a Item, name: &str) -> (found: Option<&'a EnumItem>)
    ensures
        match found {
            Some(held) => enum_item_named_view(*item, name@) == Some(*held),
            None => enum_item_named_view(*item, name@) is None,
        },
{
    match item {
        Item::Enum(held) => if same_text(held.name.as_str(), name) {
            Some(held)
        } else {
            None
        },
        _ => None,
    }
}

/// The enum declared as a name, from `from` on.
pub open spec fn enum_item_from(items: Seq<Item>, name: Seq<char>, from: nat) -> Option<EnumItem>
    decreases items.len() - from,
{
    if from >= items.len() {
        None
    } else {
        match enum_item_named_view(items[from as int], name) {
            Some(found) => Some(found),
            None => enum_item_from(items, name, from + 1),
        }
    }
}

/// The enum declared as a name.
pub fn enum_item<'a>(items: &'a Vec<Item>, name: &str) -> (found: Option<&'a EnumItem>)
    ensures
        match found {
            Some(held) => enum_item_from(items@, name@, 0) == Some(*held),
            None => enum_item_from(items@, name@, 0) is None,
        },
{
    let mut i: usize = 0;
    while i < items.len()
        invariant
            i <= items.len(),
            enum_item_from(items@, name@, 0) == enum_item_from(items@, name@, i as nat),
        decreases items.len() - i,
    {
        let held = enum_item_named(&items[i], name);
        if held.is_some() {
            return held;
        }
        i += 1;
    }
    None
}

/// Where the type an item declares under a name stands.
pub open spec fn stands_at_view(item: Item, name: Seq<char>) -> Option<Span> {
    match item {
        Item::Struct(held) => if held.name@ == name {
            Some(held.span)
        } else {
            None
        },
        Item::Enum(held) => if held.name@ == name {
            Some(held.span)
        } else {
            None
        },
        Item::Interface(held) => if held.name@ == name {
            Some(held.span)
        } else {
            None
        },
        _ => None,
    }
}

/// Where the type an item declares under a name stands.
pub fn stands_at(item: &Item, name: &str) -> (found: Option<Span>)
    ensures
        found == stands_at_view(*item, name@),
{
    match item {
        Item::Struct(held) => if same_text(held.name.as_str(), name) {
            Some(held.span)
        } else {
            None
        },
        Item::Enum(held) => if same_text(held.name.as_str(), name) {
            Some(held.span)
        } else {
            None
        },
        Item::Interface(held) => if same_text(held.name.as_str(), name) {
            Some(held.span)
        } else {
            None
        },
        _ => None,
    }
}

/// Where the type of a name is declared, from `from` on.
pub open spec fn declared_at_from(items: Seq<Item>, name: Seq<char>, from: nat) -> Option<Span>
    decreases items.len() - from,
{
    if from >= items.len() {
        None
    } else {
        match stands_at_view(items[from as int], name) {
            Some(found) => Some(found),
            None => declared_at_from(items, name, from + 1),
        }
    }
}

/// Where the type of a name is declared.
pub fn declared_at<'a>(items: &'a Vec<Item>, name: &str) -> (found: Option<Span>)
    ensures
        match found {
            Some(held) => declared_at_from(items@, name@, 0) == Some(held),
            None => declared_at_from(items@, name@, 0) is None,
        },
{
    let mut i: usize = 0;
    while i < items.len()
        invariant
            i <= items.len(),
            declared_at_from(items@, name@, 0) == declared_at_from(items@, name@, i as nat),
        decreases items.len() - i,
    {
        let held = stands_at(&items[i], name);
        if held.is_some() {
            return held;
        }
        i += 1;
    }
    None
}

/// An entry, where it is the one of that module and name.
pub open spec fn entry_named_view(entry: Entry, module: ModuleId, name: Seq<char>) -> Option<Entry> {
    if entry.module == module && entry.name@ == name {
        Some(entry)
    } else {
        None
    }
}

/// An entry, where it is the one of that module and name.
pub fn entry_named<'a>(entry: &'a Entry, module: ModuleId, name: &str) -> (found: Option<&'a Entry>)
    ensures
        match found {
            Some(held) => entry_named_view(*entry, module, name@) == Some(*held),
            None => entry_named_view(*entry, module, name@) is None,
        },
{
    if entry.module == module && same_text(entry.name.as_str(), name) {
        Some(entry)
    } else {
        None
    }
}

/// What a module declares under a name, from `from` on.
pub open spec fn entry_from(entries: Seq<Entry>, module: ModuleId, name: Seq<char>, from: nat) -> Option<Entry>
    decreases entries.len() - from,
{
    if from >= entries.len() {
        None
    } else {
        match entry_named_view(entries[from as int], module, name) {
            Some(found) => Some(found),
            None => entry_from(entries, module, name, from + 1),
        }
    }
}

/// What a module declares under a name.
pub fn entry<'a>(entries: &'a Vec<Entry>, module: ModuleId, name: &str) -> (found: Option<&'a Entry>)
    ensures
        match found {
            Some(held) => entry_from(entries@, module, name@, 0) == Some(*held),
            None => entry_from(entries@, module, name@, 0) is None,
        },
{
    let mut i: usize = 0;
    while i < entries.len()
        invariant
            i <= entries.len(),
            entry_from(entries@, module, name@, 0) == entry_from(entries@, module, name@, i as nat),
        decreases entries.len() - i,
    {
        let held = entry_named(&entries[i], module, name);
        if held.is_some() {
            return held;
        }
        i += 1;
    }
    None
}

/// A signature, where it is the one written at `span`.
pub open spec fn signature_at_view(signature: Signature, span: Span) -> Option<Signature> {
    if signature.span == span {
        Some(signature)
    } else {
        None
    }
}

/// A signature, where it is the one written at `span`.
pub fn signature_at<'a>(signature: &'a Signature, span: Span) -> (found: Option<&'a Signature>)
    ensures
        match found {
            Some(held) => signature_at_view(*signature, span) == Some(*held),
            None => signature_at_view(*signature, span) is None,
        },
{
    if signature.span == span {
        Some(signature)
    } else {
        None
    }
}

/// The signature written at `span` among several, from `from` on.
pub open spec fn signature_among_from(signatures: Seq<Signature>, span: Span, from: nat) -> Option<Signature>
    decreases signatures.len() - from,
{
    if from >= signatures.len() {
        None
    } else {
        match signature_at_view(signatures[from as int], span) {
            Some(found) => Some(found),
            None => signature_among_from(signatures, span, from + 1),
        }
    }
}

/// The signature written at `span` among several.
pub fn signature_among<'a>(signatures: &'a Vec<Signature>, span: Span) -> (found: Option<&'a Signature>)
    ensures
        match found {
            Some(held) => signature_among_from(signatures@, span, 0) == Some(*held),
            None => signature_among_from(signatures@, span, 0) is None,
        },
{
    let mut i: usize = 0;
    while i < signatures.len()
        invariant
            i <= signatures.len(),
            signature_among_from(signatures@, span, 0) == signature_among_from(signatures@, span, i as nat),
        decreases signatures.len() - i,
    {
        let held = signature_at(&signatures[i], span);
        if held.is_some() {
            return held;
        }
        i += 1;
    }
    None
}

/// The signature written at `span` among those of several names, from `from` on.
pub open spec fn signature_in_from(methods: Seq<Overloads>, span: Span, from: nat) -> Option<Signature>
    decreases methods.len() - from,
{
    if from >= methods.len() {
        None
    } else {
        match signature_among_from(methods[from as int].signatures@, span, 0) {
            Some(found) => Some(found),
            None => signature_in_from(methods, span, from + 1),
        }
    }
}

/// The signature written at `span` among those of several names.
pub fn signature_in<'a>(methods: &'a Vec<Overloads>, span: Span) -> (found: Option<&'a Signature>)
    ensures
        match found {
            Some(held) => signature_in_from(methods@, span, 0) == Some(*held),
            None => signature_in_from(methods@, span, 0) is None,
        },
{
    let mut i: usize = 0;
    while i < methods.len()
        invariant
            i <= methods.len(),
            signature_in_from(methods@, span, 0) == signature_in_from(methods@, span, i as nat),
        decreases methods.len() - i,
    {
        let held = signature_among(&methods[i].signatures, span);
        if held.is_some() {
            return held;
        }
        i += 1;
    }
    None
}

/// The signature written at `span` among those of a declaration.
pub open spec fn signature_of_view(decl: Decl, span: Span) -> Option<Signature> {
    match decl {
        Decl::Function(signatures) => signature_among_from(signatures@, span, 0),
        Decl::Struct(held) => signature_in_from(held.methods@, span, 0),
        Decl::Enum(held) => signature_in_from(held.methods@, span, 0),
        Decl::Interface(held) => signature_in_from(held.methods@, span, 0),
        Decl::Extension { type_params, target, methods } => signature_in_from(methods@, span, 0),
        Decl::Other => None,
    }
}

/// The signature written at `span` among those of a declaration.
pub fn signature_of<'a>(decl: &'a Decl, span: Span) -> (found: Option<&'a Signature>)
    ensures
        match found {
            Some(held) => signature_of_view(*decl, span) == Some(*held),
            None => signature_of_view(*decl, span) is None,
        },
{
    match decl {
        Decl::Function(signatures) => signature_among(signatures, span),
        Decl::Struct(held) => signature_in(&held.methods, span),
        Decl::Enum(held) => signature_in(&held.methods, span),
        Decl::Interface(held) => signature_in(&held.methods, span),
        Decl::Extension { methods, .. } => signature_in(methods, span),
        Decl::Other => None,
    }
}

/// The signature written at `span`, from `from` on.
pub open spec fn signature_from(entries: Seq<Entry>, span: Span, from: nat) -> Option<Signature>
    decreases entries.len() - from,
{
    if from >= entries.len() {
        None
    } else {
        match signature_of_view(entries[from as int].decl, span) {
            Some(found) => Some(found),
            None => signature_from(entries, span, from + 1),
        }
    }
}

/// The signature written at `span`.
pub fn signature<'a>(entries: &'a Vec<Entry>, span: Span) -> (found: Option<&'a Signature>)
    ensures
        match found {
            Some(held) => signature_from(entries@, span, 0) == Some(*held),
            None => signature_from(entries@, span, 0) is None,
        },
{
    let mut i: usize = 0;
    while i < entries.len()
        invariant
            i <= entries.len(),
            signature_from(entries@, span, 0) == signature_from(entries@, span, i as nat),
        decreases entries.len() - i,
    {
        let held = signature_of(&entries[i].decl, span);
        if held.is_some() {
            return held;
        }
        i += 1;
    }
    None
}

/// The signatures of a name, where they are of that name.
pub open spec fn overloads_named_view(held: Overloads, name: Seq<char>) -> Option<Overloads> {
    if held.name@ == name {
        Some(held)
    } else {
        None
    }
}

/// The signatures of a name, where they are of that name.
pub fn overloads_named<'a>(held: &'a Overloads, name: &str) -> (found: Option<&'a Overloads>)
    ensures
        match found {
            Some(same) => overloads_named_view(*held, name@) == Some(*same),
            None => overloads_named_view(*held, name@) is None,
        },
{
    if same_text(held.name.as_str(), name) {
        Some(held)
    } else {
        None
    }
}

/// The signatures a name has, from `from` on.
pub open spec fn overloads_from(methods: Seq<Overloads>, name: Seq<char>, from: nat) -> Option<Overloads>
    decreases methods.len() - from,
{
    if from >= methods.len() {
        None
    } else {
        match overloads_named_view(methods[from as int], name) {
            Some(found) => Some(found),
            None => overloads_from(methods, name, from + 1),
        }
    }
}

/// The signatures a name has.
pub fn overloads<'a>(methods: &'a Vec<Overloads>, name: &str) -> (found: Option<&'a Overloads>)
    ensures
        match found {
            Some(held) => overloads_from(methods@, name@, 0) == Some(*held),
            None => overloads_from(methods@, name@, 0) is None,
        },
{
    let mut i: usize = 0;
    while i < methods.len()
        invariant
            i <= methods.len(),
            overloads_from(methods@, name@, 0) == overloads_from(methods@, name@, i as nat),
        decreases methods.len() - i,
    {
        let held = overloads_named(&methods[i], name);
        if held.is_some() {
            return held;
        }
        i += 1;
    }
    None
}

/// The type of a name, where it is that name.
pub open spec fn typed_named_view(held: (String, Type), name: Seq<char>) -> Option<Type> {
    if held.0@ == name {
        Some(held.1)
    } else {
        None
    }
}

/// The type of a name, where it is that name.
pub fn typed_named<'a>(held: &'a (String, Type), name: &str) -> (found: Option<&'a Type>)
    ensures
        match found {
            Some(same) => typed_named_view(*held, name@) == Some(*same),
            None => typed_named_view(*held, name@) is None,
        },
{
    if same_text(held.0.as_str(), name) {
        Some(&held.1)
    } else {
        None
    }
}

/// The type a property is declared at, from `from` on.
pub open spec fn property_type_from(properties: Seq<(String, Type)>, name: Seq<char>, from: nat) -> Option<Type>
    decreases properties.len() - from,
{
    if from >= properties.len() {
        None
    } else {
        match typed_named_view(properties[from as int], name) {
            Some(found) => Some(found),
            None => property_type_from(properties, name, from + 1),
        }
    }
}

/// The type a property is declared at.
pub fn property_type<'a>(properties: &'a Vec<(String, Type)>, name: &str) -> (found: Option<&'a Type>)
    ensures
        match found {
            Some(held) => property_type_from(properties@, name@, 0) == Some(*held),
            None => property_type_from(properties@, name@, 0) is None,
        },
{
    let mut i: usize = 0;
    while i < properties.len()
        invariant
            i <= properties.len(),
            property_type_from(properties@, name@, 0) == property_type_from(properties@, name@, i as nat),
        decreases properties.len() - i,
    {
        let held = typed_named(&properties[i], name);
        if held.is_some() {
            return held;
        }
        i += 1;
    }
    None
}

/// The symbol of a name, where it is that name.
pub open spec fn symbol_named_view(held: (String, String), name: Seq<char>) -> Option<String> {
    if held.0@ == name {
        Some(held.1)
    } else {
        None
    }
}

/// The symbol of a name, where it is that name.
pub fn symbol_named<'a>(held: &'a (String, String), name: &str) -> (found: Option<&'a String>)
    ensures
        match found {
            Some(same) => symbol_named_view(*held, name@) == Some(*same),
            None => symbol_named_view(*held, name@) is None,
        },
{
    if same_text(held.0.as_str(), name) {
        Some(&held.1)
    } else {
        None
    }
}

/// The symbol an intrinsic is linked to, from `from` on.
pub open spec fn symbol_from(symbols: Seq<(String, String)>, name: Seq<char>, from: nat) -> Option<String>
    decreases symbols.len() - from,
{
    if from >= symbols.len() {
        None
    } else {
        match symbol_named_view(symbols[from as int], name) {
            Some(found) => Some(found),
            None => symbol_from(symbols, name, from + 1),
        }
    }
}

/// The symbol an intrinsic is linked to.
pub fn symbol<'a>(symbols: &'a Vec<(String, String)>, name: &str) -> (found: Option<&'a String>)
    ensures
        match found {
            Some(held) => symbol_from(symbols@, name@, 0) == Some(*held),
            None => symbol_from(symbols@, name@, 0) is None,
        },
{
    let mut i: usize = 0;
    while i < symbols.len()
        invariant
            i <= symbols.len(),
            symbol_from(symbols@, name@, 0) == symbol_from(symbols@, name@, i as nat),
        decreases symbols.len() - i,
    {
        let held = symbol_named(&symbols[i], name);
        if held.is_some() {
            return held;
        }
        i += 1;
    }
    None
}

/// A decorator, where it is the one of that name.
pub open spec fn decorator_named_view(decorator: Decorator, name: Seq<char>) -> Option<Decorator> {
    if decorator.name@ == name {
        Some(decorator)
    } else {
        None
    }
}

/// A decorator, where it is the one of that name.
pub fn decorator_named<'a>(decorator: &'a Decorator, name: &str) -> (found: Option<&'a Decorator>)
    ensures
        match found {
            Some(held) => decorator_named_view(*decorator, name@) == Some(*held),
            None => decorator_named_view(*decorator, name@) is None,
        },
{
    if same_text(decorator.name.as_str(), name) {
        Some(decorator)
    } else {
        None
    }
}

/// The first decorator of a name, from `from` on.
pub open spec fn decorator_from(decorators: Seq<Decorator>, name: Seq<char>, from: nat) -> Option<Decorator>
    decreases decorators.len() - from,
{
    if from >= decorators.len() {
        None
    } else {
        match decorator_named_view(decorators[from as int], name) {
            Some(found) => Some(found),
            None => decorator_from(decorators, name, from + 1),
        }
    }
}

/// The first decorator of a name.
pub fn decorator<'a>(decorators: &'a Vec<Decorator>, name: &str) -> (found: Option<&'a Decorator>)
    ensures
        match found {
            Some(held) => decorator_from(decorators@, name@, 0) == Some(*held),
            None => decorator_from(decorators@, name@, 0) is None,
        },
{
    let mut i: usize = 0;
    while i < decorators.len()
        invariant
            i <= decorators.len(),
            decorator_from(decorators@, name@, 0) == decorator_from(decorators@, name@, i as nat),
        decreases decorators.len() - i,
    {
        let held = decorator_named(&decorators[i], name);
        if held.is_some() {
            return held;
        }
        i += 1;
    }
    None
}

/// Whether a declaration is decorated with a name.
pub open spec fn is_decorated_view(decorators: Seq<Decorator>, name: Seq<char>) -> bool {
    decorator_from(decorators, name, 0) is Some
}

/// Whether a declaration is decorated with a name.
pub fn is_decorated(decorators: &Vec<Decorator>, name: &str) -> (found: bool)
    ensures
        found == is_decorated_view(decorators@, name@),
{
    decorator(decorators, name).is_some()
}

/// Whether a function is one the language provides.
pub open spec fn is_intrinsic_view(function: FunctionItem) -> bool {
    is_decorated_view(function.decorators@, "intrinsic"@)
}

/// Whether a function is one the language provides.
pub fn is_intrinsic(function: &FunctionItem) -> (found: bool)
    ensures
        found == is_intrinsic_view(*function),
{
    is_decorated(&function.decorators, "intrinsic")
}

/// Whether a method runs when the last holder of its object lets go.
pub open spec fn is_finalizer_view(function: FunctionItem) -> bool {
    is_decorated_view(function.decorators@, "finalizer"@)
}

/// Whether a method runs when the last holder of its object lets go.
pub fn is_finalizer(function: &FunctionItem) -> (found: bool)
    ensures
        found == is_finalizer_view(*function),
{
    is_decorated(&function.decorators, "finalizer")
}

/// What the decorators of a function ask of the inliner.
pub open spec fn inline_asked_view(function: FunctionItem) -> Inline {
    if is_decorated_view(function.decorators@, "noinline"@) {
        Inline::Never
    } else if is_decorated_view(function.decorators@, "inline"@) {
        Inline::Always
    } else {
        Inline::Default
    }
}

/// What the decorators of a function ask of the inliner.
pub fn inline_asked(function: &FunctionItem) -> (asked: Inline)
    ensures
        asked == inline_asked_view(*function),
{
    if is_decorated(&function.decorators, "noinline") {
        Inline::Never
    } else if is_decorated(&function.decorators, "inline") {
        Inline::Always
    } else {
        Inline::Default
    }
}

/// Whether the first of some arguments is a text.
pub open spec fn starts_with_text_view(args: Seq<Argument>, text: Seq<char>) -> bool {
    args.len() > 0 && match args[0].value.kind {
        ExprKind::Text(held) => held@ == text,
        _ => false,
    }
}

/// Whether the first of some arguments is a text.
pub fn starts_with_text(args: &Vec<Argument>, text: &str) -> (found: bool)
    ensures
        found == starts_with_text_view(args@, text@),
{
    if args.len() > 0 {
        match &args[0].value.kind {
            ExprKind::Text(held) => same_text(held.as_str(), text),
            _ => false,
        }
    } else {
        false
    }
}

/// The symbol a function is linked to, where it is defined elsewhere: by the
/// runtime, or with the C convention.
pub open spec fn extern_symbol_view(function: FunctionItem, symbols: Seq<(String, String)>) -> Option<
    Seq<char>,
> {
    if is_intrinsic_view(function) {
        if function.name@.len() == 1 {
            match symbol_from(symbols, function.name@[0]@, 0) {
                Some(held) => Some(held@),
                None => None,
            }
        } else {
            None
        }
    } else {
        match decorator_from(function.decorators@, "extern"@, 0) {
            Some(held) => if starts_with_text_view(held.args@, "c"@) {
                Some(joined(names(function.name@), "."@))
            } else {
                None
            },
            None => None,
        }
    }
}

/// The symbol a function is linked to, where it is defined elsewhere.
pub fn extern_symbol(function: &FunctionItem, symbols: &Vec<(String, String)>) -> (found: Option<
    String,
>)
    ensures
        crate::text::maybe_name(found) == extern_symbol_view(*function, symbols@),
{
    if is_intrinsic(function) {
        if function.name.len() == 1 {
            match symbol(symbols, function.name[0].as_str()) {
                Some(held) => Some(held.clone()),
                None => None,
            }
        } else {
            None
        }
    } else {
        match decorator(&function.decorators, "extern") {
            Some(held) => if starts_with_text(&held.args, "c") {
                Some(join(&function.name, "."))
            } else {
                None
            },
            None => None,
        }
    }
}

/// A function declaration that takes an id: in which module, and inside what.
#[derive(Clone, Copy)]
pub struct Found<'a> {
    pub module: ModuleId,
    pub owner: Option<&'a String>,
    pub function: &'a FunctionItem,
}

/// The methods with a body among the first `count` members of a struct.
pub open spec fn found_members<'a>(
    members: Seq<Member>,
    module: ModuleId,
    owner: &'a String,
    count: nat,
) -> Seq<Found<'a>>
    decreases count,
{
    if count == 0 {
        Seq::empty()
    } else {
        let earlier = found_members(members, module, owner, (count - 1) as nat);
        match members[count - 1] {
            Member::Function(function) => if function.body is Some && function.name@.len() > 0 {
                earlier.push(Found { module, owner: Some(owner), function: &function })
            } else {
                earlier
            },
            _ => earlier,
        }
    }
}

/// The methods with a body among the first `count` of a block that adds them.
pub open spec fn found_added<'a>(
    functions: Seq<FunctionItem>,
    module: ModuleId,
    owner: &'a String,
    count: nat,
) -> Seq<Found<'a>>
    decreases count,
{
    if count == 0 {
        Seq::empty()
    } else {
        let earlier = found_added(functions, module, owner, (count - 1) as nat);
        if functions[count - 1].body is Some && functions[count - 1].name@.len() > 0 {
            earlier.push(Found { module, owner: Some(owner), function: &functions[count - 1] })
        } else {
            earlier
        }
    }
}

/// The functions an item declares. An intrinsic without a runtime symbol is
/// lowered in place at every call.
pub open spec fn found_in<'a>(item: Item, module: ModuleId, symbols: Seq<(String, String)>) -> Seq<
    Found<'a>,
> {
    match item {
        Item::Function(function) => if !is_intrinsic_view(function) || extern_symbol_view(
            function,
            symbols,
        ) is Some {
            seq![Found { module, owner: None, function: &function }]
        } else {
            Seq::empty()
        },
        Item::Struct(held) => found_members(
            held.members@,
            module,
            &held.name,
            held.members@.len(),
        ),
        Item::Extend(held) => found_added(
            held.functions@,
            module,
            &held.name,
            held.functions@.len(),
        ),
        _ => Seq::empty(),
    }
}

/// The functions the first `count` items of a module declare.
pub open spec fn collected<'a>(
    items: Seq<Item>,
    module: ModuleId,
    symbols: Seq<(String, String)>,
    count: nat,
) -> Seq<Found<'a>>
    decreases count,
{
    if count == 0 {
        Seq::empty()
    } else {
        collected(items, module, symbols, (count - 1) as nat) + found_in(
            items[count - 1],
            module,
            symbols,
        )
    }
}

/// The module at a position.
pub open spec fn module_at_view(index: nat) -> ModuleId {
    ModuleId(super::body::kinds::index_id_view(index))
}

/// The module at a position.
pub fn module_at(index: usize) -> (module: ModuleId)
    ensures
        module == module_at_view(index as nat),
{
    ModuleId(super::body::kinds::index_id(index))
}

/// The functions the first `count` modules declare.
pub open spec fn declarations_in<'a>(
    modules: Seq<Node>,
    symbols: Seq<(String, String)>,
    count: nat,
) -> Seq<Found<'a>>
    decreases count,
{
    if count == 0 {
        Seq::empty()
    } else {
        declarations_in(modules, symbols, (count - 1) as nat) + collected(
            modules[count - 1].ast.items@,
            module_at_view((count - 1) as nat),
            symbols,
            modules[count - 1].ast.items@.len(),
        )
    }
}

fn collect<'a>(item: &'a Item, module: ModuleId, symbols: &Vec<(String, String)>) -> (found: Vec<
    Found<'a>,
>)
    ensures
        found@ == found_in(*item, module, symbols@),
{
    let mut found: Vec<Found<'a>> = Vec::new();
    match item {
        Item::Function(function) => {
            if !is_intrinsic(function) || extern_symbol(function, symbols).is_some() {
                found.push(Found { module, owner: None, function });
                assert(found@ =~= seq![Found { module, owner: None, function }]);
            } else {
                assert(found@ =~= Seq::empty());
            }
        },
        Item::Struct(held) => {
            let mut i: usize = 0;
            while i < held.members.len()
                invariant
                    i <= held.members.len(),
                    found@ == found_members(held.members@, module, &held.name, i as nat),
                decreases held.members.len() - i,
            {
                match &held.members[i] {
                    Member::Function(function) => {
                        if function.body.is_some() && function.name.len() > 0 {
                            found.push(Found { module, owner: Some(&held.name), function });
                        }
                    },
                    _ => {},
                }
                i += 1;
            }
        },
        Item::Extend(held) => {
            let mut i: usize = 0;
            while i < held.functions.len()
                invariant
                    i <= held.functions.len(),
                    found@ == found_added(held.functions@, module, &held.name, i as nat),
                decreases held.functions.len() - i,
            {
                let function = &held.functions[i];
                if function.body.is_some() && function.name.len() > 0 {
                    found.push(Found { module, owner: Some(&held.name), function });
                }
                i += 1;
            }
        },
        _ => {
            assert(found@ =~= Seq::empty());
        },
    }
    found
}

/// Every free function declaration, and every member with a body.
pub fn declarations<'a>(modules: &'a Vec<Node>, symbols: &Vec<(String, String)>) -> (found: Vec<
    Found<'a>,
>)
    ensures
        found@ == declarations_in(modules@, symbols@, modules@.len()),
{
    let mut found: Vec<Found<'a>> = Vec::new();
    let mut i: usize = 0;
    while i < modules.len()
        invariant
            i <= modules.len(),
            found@ == declarations_in(modules@, symbols@, i as nat),
        decreases modules.len() - i,
    {
        let items = &modules[i].ast.items;
        let module = module_at(i);
        let ghost before = found@;
        let mut k: usize = 0;
        assert(before + collected(items@, module, symbols@, 0) =~= before);
        while k < items.len()
            invariant
                k <= items.len(),
                found@ == before + collected(items@, module, symbols@, k as nat),
            decreases items.len() - k,
        {
            let mut more = collect(&items[k], module, symbols);
            let ghost held = found@;
            let ghost added = more@;
            found.append(&mut more);
            assert(found@ =~= before + collected(items@, module, symbols@, (k + 1) as nat)) by {
                assert(found@ == held + added);
                assert(collected(items@, module, symbols@, (k + 1) as nat) == collected(
                    items@,
                    module,
                    symbols@,
                    k as nat,
                ) + added);
            }
            k += 1;
        }
        i += 1;
    }
    found
}

/// The name of a function, without the path before it.
pub open spec fn last_part(function: FunctionItem) -> Seq<char> {
    if function.name@.len() > 0 {
        function.name@.last()@
    } else {
        Seq::empty()
    }
}

/// The path naming a function inside its module.
pub open spec fn path_of_view(found: Found) -> Seq<char> {
    match found.owner {
        Some(owner) => dotted_view(owner@, last_part(*found.function)),
        None => joined(names(found.function.name@), "."@),
    }
}

/// Two texts with a dot between them.
pub open spec fn dotted_view(first: Seq<char>, second: Seq<char>) -> Seq<char> {
    concatenated(seq![first, "."@, second])
}

/// Two texts with a dot between them.
pub fn dotted(first: &str, second: &str) -> (text: String)
    ensures
        text@ == dotted_view(first@, second@),
{
    let mut parts: Vec<String> = Vec::new();
    parts.push(first.to_owned());
    parts.push(".".to_owned());
    parts.push(second.to_owned());
    assert(names(parts@) =~= seq![first@, "."@, second@]);
    concat(&parts)
}

/// Three texts, one after another.
pub open spec fn texts_view(first: Seq<char>, second: Seq<char>, third: Seq<char>) -> Seq<char> {
    concatenated(seq![first, second, third])
}

/// Three texts, one after another.
pub fn texts(first: &str, second: &str, third: &str) -> (text: String)
    ensures
        text@ == texts_view(first@, second@, third@),
{
    let mut parts: Vec<String> = Vec::new();
    parts.push(first.to_owned());
    parts.push(second.to_owned());
    parts.push(third.to_owned());
    assert(names(parts@) =~= seq![first@, second@, third@]);
    concat(&parts)
}

/// The path naming a function inside its module.
pub fn path_of(found: &Found) -> (path: String)
    ensures
        path@ == path_of_view(*found),
{
    match found.owner {
        Some(owner) => if found.function.name.len() > 0 {
            dotted(owner.as_str(), found.function.name[found.function.name.len() - 1].as_str())
        } else {
            let empty = "";
            proof {
                reveal_strlit("");
            }
            assert(empty@ =~= Seq::empty());
            dotted(owner.as_str(), empty)
        },
        None => join(&found.function.name, "."),
    }
}

/// What a method belongs to, by the path before its name.
pub open spec fn owner_of_view(found: Found) -> Option<Seq<char>> {
    match found.owner {
        Some(owner) => Some(owner@),
        None => if found.function.name@.len() > 1 {
            Some(joined(names(found.function.name@).drop_last(), "."@))
        } else {
            None
        },
    }
}

/// What a method belongs to, by the path before its name.
pub fn owner_of(found: &Found) -> (owner: Option<String>)
    ensures
        crate::text::maybe_name(owner) == owner_of_view(*found),
{
    match found.owner {
        Some(owner) => Some(owner.clone()),
        None => if found.function.name.len() > 1 {
            let mut before = crate::text::clone_names(&found.function.name);
            let ghost all = names(before@);
            let _ = before.pop();
            assert(names(before@) =~= all.drop_last());
            Some(join(&before, "."))
        } else {
            None
        },
    }
}

/// The default beside each of the first `count` members that is a stored field.
pub open spec fn defaults_among<'a>(members: Seq<Member>, count: nat) -> Seq<Option<&'a Expr>>
    decreases count,
{
    if count == 0 {
        Seq::empty()
    } else {
        let earlier = defaults_among(members, (count - 1) as nat);
        match members[count - 1] {
            Member::Field(default) => earlier.push(
                super::body::given::maybe_expr_view(default),
            ),
            _ => earlier,
        }
    }
}

/// The default written beside each stored field of a struct, in the order the
/// fields are declared.
pub open spec fn written_defaults_view<'a>(items: Seq<Item>, name: Seq<char>) -> Seq<
    Option<&'a Expr>,
> {
    match struct_item_from(items, name, 0) {
        Some(held) => defaults_among(held.members@, held.members@.len()),
        None => Seq::empty(),
    }
}

/// The default written beside each stored field of a struct.
pub fn written_defaults<'a>(items: &'a Vec<Item>, name: &str) -> (defaults: Vec<Option<&'a Expr>>)
    ensures
        defaults@ == written_defaults_view(items@, name@),
{
    let mut defaults: Vec<Option<&'a Expr>> = Vec::new();
    match struct_item(items, name) {
        Some(held) => {
            let mut i: usize = 0;
            while i < held.members.len()
                invariant
                    i <= held.members.len(),
                    defaults@ == defaults_among(held.members@, i as nat),
                decreases held.members.len() - i,
            {
                match &held.members[i] {
                    Member::Field(default) => {
                        defaults.push(super::body::given::maybe_expr(default));
                    },
                    _ => {},
                }
                i += 1;
            }
        },
        None => {
            assert(defaults@ =~= Seq::empty());
        },
    }
    defaults
}

/// Whether a decorator fixes the order of a struct in memory.
pub open spec fn fixes_layout(decorator: Decorator) -> bool {
    decorator.name@ == "repr"@ && starts_with_text_view(decorator.args@, "C"@)
}

/// Whether some decorators fix the order of a struct in memory.
pub open spec fn layout_fixed(decorators: Seq<Decorator>) -> bool {
    exists|i: int| 0 <= i < decorators.len() && #[trigger] fixes_layout(decorators[i])
}

fn is_layout_fixed(decorators: &Vec<Decorator>) -> (fixed: bool)
    ensures
        fixed == layout_fixed(decorators@),
{
    let mut i: usize = 0;
    while i < decorators.len()
        invariant
            i <= decorators.len(),
            forall|k: int| 0 <= k < i ==> !#[trigger] fixes_layout(decorators@[k]),
        decreases decorators.len() - i,
    {
        if same_text(decorators[i].name.as_str(), "repr") && starts_with_text(
            &decorators[i].args,
            "C",
        ) {
            assert(fixes_layout(decorators@[i as int]));
            return true;
        }
        i += 1;
    }
    false
}

/// Whether `@repr("C")` fixes the order of a struct in memory.
pub open spec fn repr_c_view(items: Seq<Item>, name: Seq<char>) -> bool {
    match struct_item_from(items, name, 0) {
        Some(held) => layout_fixed(held.decorators@),
        None => false,
    }
}

/// Whether `@repr("C")` fixes the order of a struct in memory.
pub fn repr_c(items: &Vec<Item>, name: &str) -> (fixed: bool)
    ensures
        fixed == repr_c_view(items@, name@),
{
    match struct_item(items, name) {
        Some(held) => is_layout_fixed(&held.decorators),
        None => false,
    }
}

/// A signature and the name it is of.
#[derive(Clone, Copy)]
pub struct Named<'a> {
    pub name: &'a String,
    pub signature: &'a Signature,
}

/// The signatures of the first `count` names, one after another.
pub open spec fn flattened<'a>(methods: Seq<Overloads>, count: nat) -> Seq<Named<'a>>
    decreases count,
{
    if count == 0 {
        Seq::empty()
    } else {
        flattened(methods, (count - 1) as nat) + Seq::new(
            methods[count - 1].signatures@.len(),
            |i: int|
                Named {
                    name: &methods[count - 1].name,
                    signature: &methods[count - 1].signatures@[i],
                },
        )
    }
}

/// Every signature of several names.
pub open spec fn flat_view<'a>(methods: Seq<Overloads>) -> Seq<Named<'a>> {
    flattened(methods, methods.len())
}

/// Every signature of several names.
pub fn flat<'a>(methods: &'a Vec<Overloads>) -> (all: Vec<Named<'a>>)
    ensures
        all@ == flat_view(methods@),
{
    let mut all: Vec<Named<'a>> = Vec::new();
    let mut i: usize = 0;
    while i < methods.len()
        invariant
            i <= methods.len(),
            all@ == flattened(methods@, i as nat),
        decreases methods.len() - i,
    {
        let held = &methods[i];
        let ghost before = all@;
        let ghost whole: Seq<Named<'a>> = Seq::new(
            held.signatures@.len(),
            |k: int| Named { name: &held.name, signature: &held.signatures@[k] },
        );
        let mut k: usize = 0;
        assert(before + whole.take(0) =~= before);
        while k < held.signatures.len()
            invariant
                k <= held.signatures.len(),
                whole == Seq::new(
                    held.signatures@.len(),
                    |j: int| Named { name: &held.name, signature: &held.signatures@[j] },
                ),
                all@ == before + whole.take(k as int),
            decreases held.signatures.len() - k,
        {
            all.push(Named { name: &held.name, signature: &held.signatures[k] });
            assert(all@ =~= before + whole.take(k + 1));
            k += 1;
        }
        assert(whole.take(whole.len() as int) =~= whole);
        assert(flattened(methods@, (i + 1) as nat) =~= before + whole);
        i += 1;
    }
    all
}

/// How many of the first `count` signatures take `takes` parameters.
pub open spec fn fitting_count(signatures: Seq<Signature>, takes: nat, count: nat) -> nat
    decreases count,
{
    if count == 0 {
        0
    } else {
        fitting_count(signatures, takes, (count - 1) as nat) + if signatures[count
            - 1].params@.len() == takes {
            1nat
        } else {
            0nat
        }
    }
}

/// Where the last of the first `count` signatures that takes `takes` parameters
/// is written.
pub open spec fn fitting_span(signatures: Seq<Signature>, takes: nat, count: nat) -> Option<Span>
    decreases count,
{
    if count == 0 {
        None
    } else if signatures[count - 1].params@.len() == takes {
        Some(signatures[count - 1].span)
    } else {
        fitting_span(signatures, takes, (count - 1) as nat)
    }
}

/// Where the one signature of a name that takes `takes` parameters is written. A
/// name may have several signatures, and the one filling a slot is the one that
/// takes what the slot takes.
pub open spec fn fitting_view(methods: Seq<Overloads>, name: Seq<char>, takes: nat) -> Option<Span> {
    match overloads_from(methods, name, 0) {
        Some(held) => if fitting_count(held.signatures@, takes, held.signatures@.len()) == 1 {
            fitting_span(held.signatures@, takes, held.signatures@.len())
        } else {
            None
        },
        None => None,
    }
}

/// Where the one signature of a name that takes `takes` parameters is written.
pub fn fitting(methods: &Vec<Overloads>, name: &str, takes: usize) -> (found: Option<Span>)
    ensures
        found == fitting_view(methods@, name@, takes as nat),
{
    match overloads(methods, name) {
        Some(held) => {
            let mut count: usize = 0;
            let mut found: Option<Span> = None;
            let mut i: usize = 0;
            while i < held.signatures.len()
                invariant
                    i <= held.signatures.len(),
                    count <= i,
                    count == fitting_count(held.signatures@, takes as nat, i as nat),
                    found == fitting_span(held.signatures@, takes as nat, i as nat),
                decreases held.signatures.len() - i,
            {
                if held.signatures[i].params.len() == takes {
                    count += 1;
                    found = Some(held.signatures[i].span);
                }
                i += 1;
            }
            if count == 1 {
                found
            } else {
                None
            }
        },
        None => None,
    }
}

/// Modules reached so far, and those whose imports are all done, in the order
/// they are.
pub struct Order {
    pub seen: Vec<ModuleId>,
    pub ordered: Vec<ModuleId>,
}

/// An [`Order`] with its modules as sequences.
pub struct OrderView {
    pub seen: Seq<ModuleId>,
    pub ordered: Seq<ModuleId>,
}

impl View for Order {
    type V = OrderView;

    open spec fn view(&self) -> OrderView {
        OrderView { seen: self.seen@, ordered: self.ordered@ }
    }
}

/// A module reached: what it imports comes before it, and it comes once.
pub open spec fn visited(modules: Seq<Node>, module: ModuleId, order: OrderView, fuel: nat) -> OrderView
    decreases fuel, 0nat,
{
    if order.seen.contains(module) || fuel == 0 || module.0 >= modules.len() {
        order
    } else {
        let reached = OrderView { seen: order.seen.push(module), ..order };
        let imports = modules[module.0 as int].imports@;
        let done = visited_all(modules, imports, reached, (fuel - 1) as nat, imports.len());
        OrderView { ordered: done.ordered.push(module), ..done }
    }
}

/// The first `count` of several modules reached.
pub open spec fn visited_all(
    modules: Seq<Node>,
    list: Seq<ModuleId>,
    order: OrderView,
    fuel: nat,
    count: nat,
) -> OrderView
    decreases fuel, 1nat + count,
{
    if count == 0 {
        order
    } else {
        visited(
            modules,
            list[count - 1],
            visited_all(modules, list, order, fuel, (count - 1) as nat),
            fuel,
        )
    }
}

/// Every module.
pub open spec fn all_modules(count: nat) -> Seq<ModuleId> {
    Seq::new(count, |i: int| module_at_view(i as nat))
}

/// The order modules are initialized in: each after what it imports, and once.
pub open spec fn initialization_order_view(modules: Seq<Node>) -> Seq<ModuleId> {
    visited_all(
        modules,
        all_modules(modules.len()),
        OrderView { seen: Seq::empty(), ordered: Seq::empty() },
        modules.len() + 1,
        modules.len(),
    ).ordered
}

fn has_module(held: &Vec<ModuleId>, module: ModuleId) -> (found: bool)
    ensures
        found == held@.contains(module),
{
    let mut i: usize = 0;
    while i < held.len()
        invariant
            i <= held.len(),
            forall|k: int| 0 <= k < i ==> held@[k] != module,
        decreases held.len() - i,
    {
        if held[i] == module {
            return true;
        }
        i += 1;
    }
    false
}

fn visit(modules: &Vec<Node>, module: ModuleId, order: &mut Order, fuel: u128)
    ensures
        final(order)@ == visited(modules@, module, old(order)@, fuel as nat),
    decreases fuel, 0nat,
{
    if has_module(&order.seen, module) || fuel == 0 || module.0 as usize >= modules.len() {
        return;
    }
    order.seen.push(module);
    visit_all(modules, &modules[module.0 as usize].imports, order, fuel - 1);
    order.ordered.push(module);
}

fn visit_all(modules: &Vec<Node>, list: &Vec<ModuleId>, order: &mut Order, fuel: u128)
    ensures
        final(order)@ == visited_all(modules@, list@, old(order)@, fuel as nat, list@.len()),
    decreases fuel, 1nat + list@.len(),
{
    let ghost start = order@;
    let mut i: usize = 0;
    while i < list.len()
        invariant
            i <= list.len(),
            order@ == visited_all(modules@, list@, start, fuel as nat, i as nat),
        decreases list.len() - i,
    {
        visit(modules, list[i], order, fuel);
        i += 1;
    }
}

/// The order modules are initialized in: each after what it imports, and once.
pub fn initialization_order(graph: &Graph) -> (order: Vec<ModuleId>)
    ensures
        order@ == initialization_order_view(graph.modules@),
{
    let mut order = Order { seen: Vec::new(), ordered: Vec::new() };
    assert(order@ == OrderView { seen: Seq::empty(), ordered: Seq::empty() });
    let mut all: Vec<ModuleId> = Vec::new();
    let mut i: usize = 0;
    while i < graph.modules.len()
        invariant
            i <= graph.modules.len(),
            all@.len() == i,
            forall|k: int| 0 <= k < i ==> #[trigger] all@[k] == module_at_view(k as nat),
        decreases graph.modules.len() - i,
    {
        all.push(module_at(i));
        i += 1;
    }
    assert(all@ =~= all_modules(graph.modules@.len()));
    visit_all(&graph.modules, &all, &mut order, graph.modules.len() as u128 + 1);
    order.ordered
}

/// Whether an order is one a walk over the imports leaves behind: each module in
/// it was reached, and once, and no module is listed twice.
pub open spec fn orderly(order: OrderView) -> bool {
    &&& order.seen.no_duplicates()
    &&& order.ordered.no_duplicates()
    &&& forall|i: int|
        0 <= i < order.ordered.len() ==> order.seen.contains(#[trigger] order.ordered[i])
}

/// How a walk goes on from an order: what was reached stays reached, what was
/// listed stays where it is, and what is listed anew had not been reached.
pub open spec fn continues(before: OrderView, after: OrderView) -> bool {
    &&& before.ordered.is_prefix_of(after.ordered)
    &&& forall|module: ModuleId| #[trigger] before.seen.contains(module) ==> after.seen.contains(module)
    &&& forall|module: ModuleId| #[trigger]
        after.seen.contains(module) && !before.seen.contains(module) ==> after.ordered.contains(module)
    &&& forall|module: ModuleId| #[trigger]
        after.ordered.contains(module) && before.seen.contains(module) ==> before.ordered.contains(module)
}

proof fn continues_on(first: OrderView, second: OrderView, third: OrderView)
    requires
        continues(first, second),
        continues(second, third),
    ensures
        continues(first, third),
{
    assert forall|module: ModuleId| #[trigger]
        third.seen.contains(module) && !first.seen.contains(module) implies third.ordered.contains(
        module,
    ) by {
        if second.seen.contains(module) {
            assert(second.ordered.contains(module));
            let at = choose|i: int| 0 <= i < second.ordered.len() && second.ordered[i] == module;
            assert(third.ordered[at] == module);
        }
    }
    assert forall|module: ModuleId| #[trigger]
        third.ordered.contains(module) && first.seen.contains(module) implies first.ordered.contains(
        module,
    ) by {
        assert(second.seen.contains(module));
        assert(second.ordered.contains(module));
    }
}

proof fn visiting(modules: Seq<Node>, module: ModuleId, order: OrderView, fuel: nat)
    requires
        orderly(order),
    ensures
        orderly(visited(modules, module, order, fuel)),
        continues(order, visited(modules, module, order, fuel)),
        fuel > 0 && module.0 < modules.len() ==> visited(
            modules,
            module,
            order,
            fuel,
        ).seen.contains(module),
    decreases fuel, 0nat,
{
    if order.seen.contains(module) || fuel == 0 || module.0 >= modules.len() {
    } else {
        let reached = OrderView { seen: order.seen.push(module), ..order };
        let imports = modules[module.0 as int].imports@;
        assert(reached.seen.no_duplicates());
        assert forall|i: int| 0 <= i < reached.ordered.len() implies reached.seen.contains(
            #[trigger] reached.ordered[i],
        ) by {
            let at = choose|k: int|
                0 <= k < order.seen.len() && order.seen[k] == order.ordered[i];
            assert(reached.seen[at] == reached.ordered[i]);
        }
        visiting_all(modules, imports, reached, (fuel - 1) as nat, imports.len());
        let done = visited_all(modules, imports, reached, (fuel - 1) as nat, imports.len());
        let after = OrderView { ordered: done.ordered.push(module), ..done };
        assert(reached.seen[order.seen.len() as int] == module);
        assert(reached.seen.contains(module));
        assert(done.seen.contains(module));
        if done.ordered.contains(module) {
            assert(reached.ordered.contains(module));
            let at = choose|k: int| 0 <= k < order.ordered.len() && order.ordered[k] == module;
            assert(order.seen.contains(order.ordered[at]));
        }
        assert(after.ordered.no_duplicates());
        assert forall|i: int| 0 <= i < after.ordered.len() implies after.seen.contains(
            #[trigger] after.ordered[i],
        ) by {
            if i < done.ordered.len() {
                assert(after.ordered[i] == done.ordered[i]);
            }
        }
        assert forall|held: ModuleId| #[trigger] order.seen.contains(held) implies after.seen.contains(
            held,
        ) by {
            let at = choose|k: int| 0 <= k < order.seen.len() && order.seen[k] == held;
            assert(reached.seen[at] == held);
            assert(reached.seen.contains(held));
        }
        assert forall|held: ModuleId| #[trigger]
            after.seen.contains(held) && !order.seen.contains(
                held,
            ) implies after.ordered.contains(held) by {
            if held == module {
                assert(after.ordered[done.ordered.len() as int] == module);
            } else {
                if reached.seen.contains(held) {
                    let at = choose|k: int| 0 <= k < reached.seen.len() && reached.seen[k] == held;
                    assert(order.seen[at] == held);
                }
                assert(done.ordered.contains(held));
                let at = choose|k: int| 0 <= k < done.ordered.len() && done.ordered[k] == held;
                assert(after.ordered[at] == held);
            }
        }
        assert forall|held: ModuleId| #[trigger]
            after.ordered.contains(held) && order.seen.contains(
                held,
            ) implies order.ordered.contains(held) by {
            let at = choose|k: int| 0 <= k < after.ordered.len() && after.ordered[k] == held;
            if at < done.ordered.len() {
                assert(done.ordered[at] == held);
                assert(done.ordered.contains(held));
                let was = choose|k: int| 0 <= k < order.seen.len() && order.seen[k] == held;
                assert(reached.seen[was] == held);
                assert(reached.seen.contains(held));
            }
        }
    }
}

proof fn visiting_all(
    modules: Seq<Node>,
    list: Seq<ModuleId>,
    order: OrderView,
    fuel: nat,
    count: nat,
)
    requires
        orderly(order),
        count <= list.len(),
    ensures
        orderly(visited_all(modules, list, order, fuel, count)),
        continues(order, visited_all(modules, list, order, fuel, count)),
        forall|i: int|
            0 <= i < count && fuel > 0 && (#[trigger] list[i]).0 < modules.len() ==> visited_all(
                modules,
                list,
                order,
                fuel,
                count,
            ).seen.contains(list[i]),
    decreases fuel, 1nat + count,
{
    if count > 0 {
        visiting_all(modules, list, order, fuel, (count - 1) as nat);
        let earlier = visited_all(modules, list, order, fuel, (count - 1) as nat);
        visiting(modules, list[count - 1], earlier, fuel);
        continues_on(order, earlier, visited(modules, list[count - 1], earlier, fuel));
    }
}

/// Every module is initialized, and no module twice.
pub proof fn every_module_is_initialized_once(modules: Seq<Node>)
    requires
        modules.len() <= 0x1_0000_0000,
    ensures
        initialization_order_view(modules).no_duplicates(),
        forall|i: int|
            0 <= i < modules.len() ==> initialization_order_view(modules).contains(
                #[trigger] module_at_view(i as nat),
            ),
{
    let start = OrderView { seen: Seq::empty(), ordered: Seq::empty() };
    let all = all_modules(modules.len());
    visiting_all(modules, all, start, modules.len() + 1, modules.len());
    let done = visited_all(modules, all, start, modules.len() + 1, modules.len());
    assert forall|i: int| 0 <= i < modules.len() implies initialization_order_view(
        modules,
    ).contains(#[trigger] module_at_view(i as nat)) by {
        assert(all[i] == module_at_view(i as nat));
        assert(done.seen.contains(all[i]));
    }
}

proof fn few_distinct(held: Seq<ModuleId>, limit: nat)
    requires
        held.no_duplicates(),
        forall|i: int| 0 <= i < held.len() ==> (#[trigger] held[i]).0 < limit,
    ensures
        held.len() <= limit,
    decreases limit,
{
    if limit == 0 {
        if held.len() > 0 {
            assert(held[0].0 < limit);
        }
    } else if exists|i: int| 0 <= i < held.len() && (#[trigger] held[i]).0 == limit - 1 {
        let at = choose|i: int| 0 <= i < held.len() && (#[trigger] held[i]).0 == limit - 1;
        let rest = held.remove(at);
        assert forall|i: int| 0 <= i < rest.len() implies (#[trigger] rest[i]).0 < limit - 1 by {
            let was = if i < at {
                i
            } else {
                i + 1
            };
            assert(rest[i] == held[was]);
            assert(held[was] != held[at]);
        }
        assert(rest.no_duplicates()) by {
            assert forall|i: int, j: int| 0 <= i < j < rest.len() implies rest[i] != rest[j] by {
                let first = if i < at {
                    i
                } else {
                    i + 1
                };
                let second = if j < at {
                    j
                } else {
                    j + 1
                };
                assert(rest[i] == held[first] && rest[j] == held[second]);
            }
        }
        few_distinct(rest, (limit - 1) as nat);
    } else {
        few_distinct(held, (limit - 1) as nat);
    }
}

/// Whether no module imports itself, through others or not: every module is of a
/// higher rank than those it imports.
pub open spec fn ranked(modules: Seq<Node>, rank: spec_fn(ModuleId) -> nat) -> bool {
    forall|i: int, k: int|
        0 <= i < modules.len() && 0 <= k < modules[i].imports@.len() ==> rank(
            #[trigger] modules[i].imports@[k],
        ) < rank(module_at_view(i as nat))
}

/// Whether each module listed comes after those it imports.
pub open spec fn settled(modules: Seq<Node>, ordered: Seq<ModuleId>) -> bool {
    forall|j: int, k: int|
        0 <= j < ordered.len() && 0 <= k < modules[ordered[j].0 as int].imports@.len()
            && modules[ordered[j].0 as int].imports@[k].0 < modules.len() ==> ordered.take(
            j,
        ).contains(#[trigger] modules[ordered[j].0 as int].imports@[k])
}

/// What a walk that still has to list `rank` and below keeps to.
pub open spec fn keeps_to(
    modules: Seq<Node>,
    order: OrderView,
    fuel: nat,
    rank: spec_fn(ModuleId) -> nat,
    at: nat,
) -> bool {
    &&& orderly(order)
    &&& settled(modules, order.ordered)
    &&& order.seen.len() + fuel >= modules.len() + 1
    &&& forall|i: int| 0 <= i < order.seen.len() ==> (#[trigger] order.seen[i]).0 < modules.len()
    &&& forall|module: ModuleId| #[trigger]
        order.seen.contains(module) && !order.ordered.contains(module) ==> rank(module) > at
}

proof fn settling(
    modules: Seq<Node>,
    module: ModuleId,
    order: OrderView,
    fuel: nat,
    rank: spec_fn(ModuleId) -> nat,
)
    requires
        modules.len() <= 0x1_0000_0000,
        ranked(modules, rank),
        keeps_to(modules, order, fuel, rank, rank(module)),
    ensures
        settled(modules, visited(modules, module, order, fuel).ordered),
        visited(modules, module, order, fuel).seen.len() >= order.seen.len(),
        forall|i: int|
            0 <= i < visited(modules, module, order, fuel).seen.len() ==> (#[trigger] visited(
                modules,
                module,
                order,
                fuel,
            ).seen[i]).0 < modules.len(),
    decreases fuel, 0nat,
{
    few_distinct(order.seen, modules.len());
    if order.seen.contains(module) || module.0 >= modules.len() {
    } else {
        let reached = OrderView { seen: order.seen.push(module), ..order };
        let imports = modules[module.0 as int].imports@;
        assert(module_at_view(module.0 as nat) == module);
        visiting(modules, module, order, fuel);
        assert(reached.seen.no_duplicates());
        assert forall|i: int| 0 <= i < reached.ordered.len() implies reached.seen.contains(
            #[trigger] reached.ordered[i],
        ) by {
            let at = choose|k: int|
                0 <= k < order.seen.len() && order.seen[k] == order.ordered[i];
            assert(reached.seen[at] == reached.ordered[i]);
        }
        assert forall|i: int| 0 <= i < reached.seen.len() implies (#[trigger] reached.seen[i]).0
            < modules.len() by {
            if i < order.seen.len() {
                assert(reached.seen[i] == order.seen[i]);
            }
        }
        assert forall|i: int| 0 <= i < imports.len() implies keeps_to(
            modules,
            reached,
            (fuel - 1) as nat,
            rank,
            rank(#[trigger] imports[i]),
        ) by {
            assert(rank(modules[module.0 as int].imports@[i]) < rank(
                module_at_view(module.0 as nat),
            ));
            assert forall|held: ModuleId| #[trigger]
                reached.seen.contains(held) && !reached.ordered.contains(held) implies rank(held)
                > rank(imports[i]) by {
                if held != module {
                    let at = choose|k: int| 0 <= k < reached.seen.len() && reached.seen[k] == held;
                    assert(order.seen[at] == held);
                    assert(order.seen.contains(held));
                }
            }
        }
        settling_all(modules, imports, reached, (fuel - 1) as nat, rank, imports.len());
        visiting_all(modules, imports, reached, (fuel - 1) as nat, imports.len());
        let done = visited_all(modules, imports, reached, (fuel - 1) as nat, imports.len());
        let after = done.ordered.push(module);
        assert forall|j: int, k: int|
            0 <= j < after.len() && 0 <= k < modules[after[j].0 as int].imports@.len()
                && modules[after[j].0 as int].imports@[k].0 < modules.len() implies after.take(
            j,
        ).contains(#[trigger] modules[after[j].0 as int].imports@[k]) by {
            assert(after.take(j) =~= done.ordered.take(j));
            if j < done.ordered.len() {
                assert(after[j] == done.ordered[j]);
            } else {
                let wanted = imports[k];
                assert(done.ordered.take(j) =~= done.ordered);
                few_distinct(reached.seen, modules.len());
                assert(done.seen.contains(wanted));
                if !done.ordered.contains(wanted) {
                    assert(reached.seen.contains(wanted));
                    assert(keeps_to(modules, reached, (fuel - 1) as nat, rank, rank(imports[k])));
                    if reached.ordered.contains(wanted) {
                        let at = choose|i: int|
                            0 <= i < reached.ordered.len() && reached.ordered[i] == wanted;
                        assert(done.ordered[at] == wanted);
                    }
                    assert(rank(wanted) > rank(wanted));
                }
            }
        }
    }
}

proof fn settling_all(
    modules: Seq<Node>,
    list: Seq<ModuleId>,
    order: OrderView,
    fuel: nat,
    rank: spec_fn(ModuleId) -> nat,
    count: nat,
)
    requires
        modules.len() <= 0x1_0000_0000,
        ranked(modules, rank),
        count <= list.len(),
        orderly(order),
        settled(modules, order.ordered),
        forall|i: int| 0 <= i < order.seen.len() ==> (#[trigger] order.seen[i]).0 < modules.len(),
        forall|i: int|
            0 <= i < list.len() ==> keeps_to(
                modules,
                order,
                fuel,
                rank,
                rank(#[trigger] list[i]),
            ),
    ensures
        settled(modules, visited_all(modules, list, order, fuel, count).ordered),
        visited_all(modules, list, order, fuel, count).seen.len() >= order.seen.len(),
        forall|i: int|
            0 <= i < visited_all(modules, list, order, fuel, count).seen.len() ==> (
            #[trigger] visited_all(modules, list, order, fuel, count).seen[i]).0 < modules.len(),
    decreases fuel, 1nat + count,
{
    if count > 0 {
        settling_all(modules, list, order, fuel, rank, (count - 1) as nat);
        visiting_all(modules, list, order, fuel, (count - 1) as nat);
        let earlier = visited_all(modules, list, order, fuel, (count - 1) as nat);
        let next = list[count - 1];
        assert(keeps_to(modules, order, fuel, rank, rank(next)));
        assert forall|held: ModuleId| #[trigger]
            earlier.seen.contains(held) && !earlier.ordered.contains(held) implies rank(held)
            > rank(next) by {
            assert(order.seen.contains(held));
            if order.ordered.contains(held) {
                let at = choose|i: int| 0 <= i < order.ordered.len() && order.ordered[i] == held;
                assert(earlier.ordered[at] == held);
            }
        }
        settling(modules, next, earlier, fuel, rank);
    }
}

/// Where no module imports itself, through others or not, each is initialized
/// after those it imports.
pub proof fn imports_are_initialized_first(modules: Seq<Node>, rank: spec_fn(ModuleId) -> nat)
    requires
        modules.len() <= 0x1_0000_0000,
        ranked(modules, rank),
    ensures
        settled(modules, initialization_order_view(modules)),
{
    let start = OrderView { seen: Seq::empty(), ordered: Seq::empty() };
    let all = all_modules(modules.len());
    settling_all(modules, all, start, modules.len() + 1, rank, modules.len());
}

} // verus!
