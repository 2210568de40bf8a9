//! The implementations a primitive has of the prelude's protocols.

use vstd::prelude::*;

use crate::inst::{one, BinaryOp, Const, ConstView, InstKind, InstKindView, Value};
use crate::program::{
    fresh_is_well_formed, id_limit, views, BlockId, FuncId, Function, FunctionView,
    Implementation, ImplementationView, Interface, InterfaceView, Method, MethodView, Nominal,
    NominalView, Program, ProgramView, Shape, ShapeView,
};
use crate::span::Span;
use crate::tasks::builder::{Builder, BuilderView};
use crate::tasks::{one_ty, two_tys};
use crate::text::without_prefix;
use crate::text::strip_prefix;
use crate::ty::{tys, IntTy, Ty, TyView};
use crate::ty::TypeId;

verus! {

/// Gives back how a truth value is written.
pub open spec fn spell_truth_code(
    b: BuilderView,
    value: Value,
) -> BuilderView {
    let (b, yes) = b.open_block();
    let (b, no) = b.open_block();
    let (b, join) = b.open_block();
    let b = b.branch(value, yes, no);
    let b = b.switch_to(yes);
    let (b, text) = b.put(InstKindView::Const(ConstView::Str("true"@)), TyView::Str);
    let b = b.jump_with(join, seq![text]);
    let b = b.switch_to(no);
    let (b, text) = b.put(InstKindView::Const(ConstView::Str("false"@)), TyView::Str);
    let b = b.jump_with(join, seq![text]);
    let (b, joined) = b.open_param(join, TyView::Str);
    let b = b.switch_to(join);
    let b = b.ret(joined);
    b
}

fn spell_truth(b: &mut Builder, value: Value)
    requires
        old(b)@.function.values.len() + 3 <= id_limit(),
        old(b)@.function.blocks.len() + 3 <= id_limit(),
        old(b)@.current.0 < old(b)@.function.blocks.len(),
    ensures
        final(b)@ == spell_truth_code(old(b)@, value),
        old(b)@.sound() && value.0 < old(b)@.function.values.len() ==> final(b)@.sound(),
{
    let yes = b.block();
    let no = b.block();
    let join = b.block();
    b.branch(value, yes, no);

    b.switch_to(yes);
    let text = b.emit(InstKind::Const(Const::Str("true".to_owned())), Ty::Str);
    b.jump_with(join, one(text));

    b.switch_to(no);
    let text = b.emit(InstKind::Const(Const::Str("false".to_owned())), Ty::Str);
    b.jump_with(join, one(text));

    let joined = b.param(join, Ty::Str);
    b.switch_to(join);
    b.ret(joined);
}

/// Gives back -1, 1 or 0 as `left` comes before, after or with `right`.
pub open spec fn order_code(
    b: BuilderView,
    left: Value,
    right: Value,
) -> BuilderView {
    let (b, before) = b.open_block();
    let (b, not_before) = b.open_block();
    let (b, after) = b.open_block();
    let (b, same) = b.open_block();
    let (b, less) = b.put(InstKindView::Binary { op: BinaryOp::Less, left, right }, TyView::Bool);
    let b = b.branch(less, before, not_before);
    let b = b.switch_to(not_before);
    let (b, greater) = b.put(InstKindView::Binary { op: BinaryOp::Greater, left, right }, TyView::Bool);
    let b = b.branch(greater, after, same);
    let b = b.switch_to(before);
    let (b, answer) = b.integer(0xffff_ffff_ffff_ffff);
    let b = b.ret(answer);
    let b = b.switch_to(after);
    let (b, answer) = b.integer(1);
    let b = b.ret(answer);
    let b = b.switch_to(same);
    let (b, answer) = b.integer(0);
    let b = b.ret(answer);
    b
}

fn order(b: &mut Builder, left: Value, right: Value)
    requires
        old(b)@.function.values.len() + 5 <= id_limit(),
        old(b)@.function.blocks.len() + 4 <= id_limit(),
        old(b)@.current.0 < old(b)@.function.blocks.len(),
    ensures
        final(b)@ == order_code(old(b)@, left, right),
        old(b)@.sound() && left.0 < old(b)@.function.values.len() && right.0 < old(b)@.function.values.len() ==> final(b)@.sound(),
{
    let before = b.block();
    let not_before = b.block();
    let after = b.block();
    let same = b.block();
    let less = b.emit(InstKind::Binary { op: BinaryOp::Less, left, right }, Ty::Bool);
    b.branch(less, before, not_before);

    b.switch_to(not_before);
    let greater = b.emit(InstKind::Binary { op: BinaryOp::Greater, left, right }, Ty::Bool);
    b.branch(greater, after, same);

    b.switch_to(before);
    let answer = b.integer(0xffff_ffff_ffff_ffff);
    b.ret(answer);

    b.switch_to(after);
    let answer = b.integer(1);
    b.ret(answer);

    b.switch_to(same);
    let answer = b.integer(0);
    b.ret(answer);
}

/// Where a method over `params` starts.
pub open spec fn opened(
    held: TyView,
    suffix: Seq<char>,
    params: Seq<TyView>,
    result: TyView,
    span: Span,
) -> BuilderView {
    BuilderView {
        function: FunctionView::fresh(held.text() + suffix, params, result, span),
        current: BlockId(0),
        span,
    }
}

/// A method that gives back what one instruction produces.
pub open spec fn giving(b: BuilderView, kind: InstKindView, ty: TyView) -> FunctionView {
    let (b, value) = b.put(kind, ty);
    b.ret(value).function
}

/// The literal form of a primitive.
pub open spec fn display_of(held: TyView, span: Span) -> Option<FunctionView> {
    let b = opened(held, ".display"@, seq![held], TyView::Str, span);
    match held {
        TyView::Str => Some(b.ret(Value(0)).function),
        TyView::Int(_) => Some(
            giving(b, InstKindView::DisplayValue { value: Value(0) }, TyView::Str),
        ),
        TyView::Float(_) => Some(
            giving(b, InstKindView::DisplayValue { value: Value(0) }, TyView::Str),
        ),
        TyView::Char => Some(
            giving(b, InstKindView::DisplayValue { value: Value(0) }, TyView::Str),
        ),
        TyView::Nil => Some(giving(b, InstKindView::Const(ConstView::Str("nil"@)), TyView::Str)),
        TyView::Bool => Some(spell_truth_code(b, Value(0)).function),
        _ => None,
    }
}

/// Whether a type is compared without being declared to be.
pub open spec fn compares(held: TyView) -> bool {
    match held {
        TyView::Bool => true,
        TyView::Int(_) => true,
        TyView::Float(_) => true,
        TyView::Char => true,
        TyView::Str => true,
        TyView::Bytes => true,
        _ => false,
    }
}

/// The built-in comparison.
pub open spec fn eq_of(held: TyView, span: Span) -> Option<FunctionView> {
    let b = opened(held, ".eq"@, seq![held, held], TyView::Bool, span);
    if held is Unit || held is Nil {
        Some(giving(b, InstKindView::Const(ConstView::Bool(true)), TyView::Bool))
    } else if compares(held) {
        Some(
            giving(
                b,
                InstKindView::Binary { op: BinaryOp::Equal, left: Value(0), right: Value(1) },
                TyView::Bool,
            ),
        )
    } else {
        None
    }
}

/// The built-in hash.
pub open spec fn hash_of(held: TyView, span: Span) -> Option<FunctionView> {
    if held is Unit || held is Nil || compares(held) {
        Some(
            giving(
                opened(held, ".hash"@, seq![held], TyView::Int(IntTy::U64), span),
                InstKindView::HashValue { value: Value(0) },
                TyView::Int(IntTy::U64),
            ),
        )
    } else {
        None
    }
}

/// Negative, zero, or positive as the receiver orders before, with, or after
/// the argument.
pub open spec fn compare_of(held: TyView, span: Span) -> Option<FunctionView> {
    if held is Int || held is Float || held is Char || held is Str {
        Some(
            order_code(
                opened(held, ".compare"@, seq![held, held], TyView::integer(), span),
                Value(0),
                Value(1),
            ).function,
        )
    } else {
        None
    }
}

/// The method of a protocol that a primitive has without declaring it.
pub open spec fn method_of(
    protocol: Seq<char>,
    name: Seq<char>,
    held: TyView,
    span: Span,
) -> Option<FunctionView> {
    if protocol == "Display"@ && name == "display"@ {
        display_of(held, span)
    } else if protocol == "Eq"@ && name == "eq"@ {
        eq_of(held, span)
    } else if protocol == "Hash"@ && name == "hash"@ {
        hash_of(held, span)
    } else if protocol == "Comparable"@ && name == "compare"@ {
        compare_of(held, span)
    } else {
        None
    }
}

/// The first `count` methods of a protocol, where a primitive has them all.
pub open spec fn written(
    protocol: Seq<char>,
    methods: Seq<MethodView>,
    held: TyView,
    span: Span,
    count: nat,
) -> Option<Seq<FunctionView>>
    decreases count,
{
    if count == 0 {
        Some(Seq::empty())
    } else {
        match written(protocol, methods, held, span, (count - 1) as nat) {
            Some(before) => match method_of(protocol, methods[count - 1].name, held, span) {
                Some(function) => Some(before.push(function)),
                None => None,
            },
            None => None,
        }
    }
}

/// Whether an implementation is one for values of type `held`: a declared type
/// is implemented for all its arguments at once.
pub open spec fn covers(implementation: ImplementationView, held: TyView) -> bool {
    match (implementation.ty, held) {
        (TyView::Named { id: left, .. }, TyView::Named { id: right, .. }) => left == right,
        _ => implementation.ty == held,
    }
}

/// The first of the implementations that is one for `held`, from `from` on.
pub open spec fn covering(
    implementors: Seq<ImplementationView>,
    held: TyView,
    from: nat,
) -> Option<ImplementationView>
    decreases implementors.len() - from,
{
    if from >= implementors.len() {
        None
    } else if covers(implementors[from as int], held) {
        Some(implementors[from as int])
    } else {
        covering(implementors, held, from + 1)
    }
}

/// The program with more functions.
pub open spec fn functions_added(
    program: ProgramView,
    functions: Seq<FunctionView>,
) -> ProgramView {
    ProgramView { functions: program.functions + functions, ..program }
}

/// The implementation of an interface made of functions that are added next.
pub open spec fn implemented(program: ProgramView, held: TyView, count: nat) -> ImplementationView {
    ImplementationView {
        ty: held,
        methods: Seq::new(count, |i: int| FuncId((program.functions.len() + i) as u32)),
    }
}

/// A type with one more implementation, where it is an interface.
pub open spec fn implementor_added(
    nominal: NominalView,
    implementation: ImplementationView,
) -> NominalView {
    match nominal.shape {
        ShapeView::Interface(shape) => NominalView {
            shape: ShapeView::Interface(
                InterfaceView { implementors: shape.implementors.push(implementation), ..shape },
            ),
            ..nominal
        },
        _ => nominal,
    }
}

/// What the prelude calls an interface, if it is one of the prelude's.
pub open spec fn protocol_of(name: Seq<char>) -> Option<Seq<char>> {
    without_prefix(name, "std/prelude."@)
}

/// The program in which the implementation `held` has of `interface` is there,
/// and that implementation.
pub open spec fn with_implementation(
    program: ProgramView,
    interface: TypeId,
    held: TyView,
) -> (ProgramView, Option<ImplementationView>) {
    let nominal = program.nominal(interface);
    match nominal.shape {
        ShapeView::Interface(shape) => match covering(shape.implementors, held, 0) {
            Some(found) => (program, Some(found)),
            None => match protocol_of(nominal.name) {
                Some(protocol) => match written(
                    protocol,
                    shape.methods,
                    held,
                    nominal.span,
                    shape.methods.len(),
                ) {
                    Some(functions) => {
                        let built = implemented(program, held, functions.len());
                        (
                            functions_added(program, functions).with_nominal(
                                interface,
                                implementor_added(nominal, built),
                            ),
                            Some(built),
                        )
                    },
                    None => (program, None),
                },
                None => (program, None),
            },
        },
        _ => (program, None),
    }
}

/// What was found or written once is found from then on, and nothing is written
/// again. Where nothing is found, nothing was written.
pub proof fn an_implementation_is_written_once(
    program: ProgramView,
    interface: TypeId,
    held: TyView,
)
    requires
        interface.0 < program.types.len(),
    ensures
        ({
            let (after, found) = with_implementation(program, interface, held);
            &&& found is Some ==> with_implementation(after, interface, held) == (after, found)
            &&& found is None ==> after == program
        }),
{
    let (after, found) = with_implementation(program, interface, held);
    if after != program {
        let before = program.nominal(interface).shape->Interface_0.implementors;
        let now = after.nominal(interface).shape->Interface_0.implementors;
        assert(now =~= before.push(found->0));
        last_covers(before, found->0, held, 0);
    }
}

proof fn last_covers(
    before: Seq<ImplementationView>,
    built: ImplementationView,
    held: TyView,
    from: nat,
)
    requires
        from <= before.len(),
        covering(before, held, from) is None,
        built.ty == held,
    ensures
        covering(before.push(built), held, from) == Some(built),
    decreases before.len() - from,
{
    let now = before.push(built);
    if from < before.len() {
        assert(now[from as int] == before[from as int]);
        last_covers(before, built, held, from + 1);
    } else {
        assert(now[from as int] == built);
    }
}

fn open(
    held: &Ty,
    suffix: &str,
    two: bool,
    result: Ty,
    span: Span,
) -> (b: Builder)
    ensures
        b@ == opened(
            held@,
            suffix@,
            if two {
                seq![held@, held@]
            } else {
                seq![held@]
            },
            result@,
            span,
        ),
        b@.sound(),
        b@.function.blocks.len() == 1,
        b@.function.values.len() == if two {
            2int
        } else {
            1
        },
{
    let mut name = held.to_text();
    name.append(suffix);
    let params = if two {
        two_tys(held.clone(), held.clone())
    } else {
        one_ty(held.clone())
    };
    assert(tys(params@).len() == params@.len());
    proof {
        fresh_is_well_formed(name@, tys(params@), result@, span);
    }
    let function = Function::new(name, params, result, span);
    Builder::new(function, BlockId(0), span)
}

fn give(b: Builder, kind: InstKind, ty: Ty) -> (function: Function)
    requires
        b@.sound(),
        b@.ready(),
        kind@.within(b@.function.values.len(), b@.function.slots.len()),
    ensures
        function@ == giving(b@, kind@, ty@),
        function@.well_formed(),
{
    let mut b = b;
    let value = b.emit(kind, ty);
    b.ret(value);
    b.finish()
}

/// The literal form of a primitive.
fn display(held: &Ty, span: Span) -> (function: Option<Function>)
    ensures
        match function {
            Some(built) => display_of(held@, span) == Some(built@) && built@.well_formed(),
            None => display_of(held@, span) is None,
        },
{
    let mut b = open(held, ".display", false, Ty::Str, span);
    let value = Value(0);
    match held {
        Ty::Str => {
            b.ret(value);
            Some(b.finish())
        },
        Ty::Int(_) => Some(give(b, InstKind::DisplayValue { value }, Ty::Str)),
        Ty::Float(_) => Some(give(b, InstKind::DisplayValue { value }, Ty::Str)),
        Ty::Char => Some(give(b, InstKind::DisplayValue { value }, Ty::Str)),
        Ty::Nil => Some(give(b, InstKind::Const(Const::Str("nil".to_owned())), Ty::Str)),
        Ty::Bool => {
            spell_truth(&mut b, value);
            Some(b.finish())
        },
        _ => None,
    }
}

fn is_compared(held: &Ty) -> (compared: bool)
    ensures
        compared == compares(held@),
{
    match held {
        Ty::Bool => true,
        Ty::Int(_) => true,
        Ty::Float(_) => true,
        Ty::Char => true,
        Ty::Str => true,
        Ty::Bytes => true,
        _ => false,
    }
}

fn is_trivial(held: &Ty) -> (trivial: bool)
    ensures
        trivial == (held@ is Unit || held@ is Nil),
{
    match held {
        Ty::Unit => true,
        Ty::Nil => true,
        _ => false,
    }
}

/// The built-in comparison.
fn eq(held: &Ty, span: Span) -> (function: Option<Function>)
    ensures
        match function {
            Some(built) => eq_of(held@, span) == Some(built@) && built@.well_formed(),
            None => eq_of(held@, span) is None,
        },
{
    let b = open(held, ".eq", true, Ty::Bool, span);
    if is_trivial(held) {
        Some(give(b, InstKind::Const(Const::Bool(true)), Ty::Bool))
    } else if is_compared(held) {
        Some(
            give(
                b,
                InstKind::Binary { op: BinaryOp::Equal, left: Value(0), right: Value(1) },
                Ty::Bool,
            ),
        )
    } else {
        None
    }
}

/// The built-in hash.
fn hash(held: &Ty, span: Span) -> (function: Option<Function>)
    ensures
        match function {
            Some(built) => hash_of(held@, span) == Some(built@) && built@.well_formed(),
            None => hash_of(held@, span) is None,
        },
{
    if is_trivial(held) || is_compared(held) {
        let b = open(held, ".hash", false, Ty::Int(IntTy::U64), span);
        Some(give(b, InstKind::HashValue { value: Value(0) }, Ty::Int(IntTy::U64)))
    } else {
        None
    }
}

/// Negative, zero, or positive as the receiver orders before, with, or after
/// the argument.
fn compare(held: &Ty, span: Span) -> (function: Option<Function>)
    ensures
        match function {
            Some(built) => compare_of(held@, span) == Some(built@) && built@.well_formed(),
            None => compare_of(held@, span) is None,
        },
{
    let ordered = match held {
        Ty::Int(_) => true,
        Ty::Float(_) => true,
        Ty::Char => true,
        Ty::Str => true,
        _ => false,
    };
    if ordered {
        let mut b = open(held, ".compare", true, Ty::integer(), span);
        order(&mut b, Value(0), Value(1));
        Some(b.finish())
    } else {
        None
    }
}

fn method(protocol: &String, name: &String, held: &Ty, span: Span) -> (function: Option<Function>)
    ensures
        match function {
            Some(built) => method_of(protocol@, name@, held@, span) == Some(built@)
                && built@.well_formed(),
            None => method_of(protocol@, name@, held@, span) is None,
        },
{
    if *protocol == "Display".to_owned() && *name == "display".to_owned() {
        display(held, span)
    } else if *protocol == "Eq".to_owned() && *name == "eq".to_owned() {
        eq(held, span)
    } else if *protocol == "Hash".to_owned() && *name == "hash".to_owned() {
        hash(held, span)
    } else if *protocol == "Comparable".to_owned() && *name == "compare".to_owned() {
        compare(held, span)
    } else {
        None
    }
}

fn is_for(implementation: &Implementation, held: &Ty) -> (covered: bool)
    ensures
        covered == covers(implementation@, held@),
{
    match &implementation.ty {
        Ty::Named { id: left, .. } => match held {
            Ty::Named { id: right, .. } => left.0 == right.0,
            _ => implementation.ty.same(held),
        },
        _ => implementation.ty.same(held),
    }
}

fn find_covering(implementors: &Vec<Implementation>, held: &Ty) -> (found: Option<Implementation>)
    ensures
        match found {
            Some(built) => covering(views(implementors@), held@, 0) == Some(built@),
            None => covering(views(implementors@), held@, 0) is None,
        },
{
    let mut i: usize = 0;
    while i < implementors.len()
        invariant
            i <= implementors.len(),
            covering(views(implementors@), held@, 0) == covering(
                views(implementors@),
                held@,
                i as nat,
            ),
        decreases implementors.len() - i,
    {
        assert(views(implementors@)[i as int] == implementors@[i as int]@);
        if is_for(&implementors[i], held) {
            return Some(implementors[i].clone());
        }
        i += 1;
    }
    None
}

fn write_methods(protocol: &String, methods: &Vec<Method>, held: &Ty, span: Span) -> (functions:
    Option<Vec<Function>>)
    ensures
        match functions {
            Some(built) => {
                &&& written(protocol@, views(methods@), held@, span, methods@.len())
                    == Some(views(built@))
                &&& built@.len() == methods@.len()
            },
            None => written(protocol@, views(methods@), held@, span, methods@.len()) is None,
        },
{
    let mut built: Vec<Function> = Vec::new();
    let mut i: usize = 0;
    assert(views(built@) =~= Seq::empty());
    while i < methods.len()
        invariant
            i <= methods.len(),
            built@.len() == i,
            written(protocol@, views(methods@), held@, span, i as nat) == Some(views(built@)),
        decreases methods.len() - i,
    {
        assert(views(methods@)[i as int] == methods@[i as int]@);
        match method(protocol, &methods[i].name, held, span) {
            Some(function) => {
                let ghost before = built@;
                built.push(function);
                assert(views(built@) =~= views(before).push(function@));
            },
            None => {
                proof {
                    stays_unwritten(
                        protocol@,
                        views(methods@),
                        held@,
                        span,
                        (i + 1) as nat,
                        methods@.len(),
                    );
                }
                return None;
            },
        }
        i += 1;
    }
    Some(built)
}

proof fn stays_unwritten(
    protocol: Seq<char>,
    methods: Seq<MethodView>,
    held: TyView,
    span: Span,
    first: nat,
    last: nat,
)
    requires
        first <= last,
        written(protocol, methods, held, span, first) is None,
    ensures
        written(protocol, methods, held, span, last) is None,
    decreases last,
{
    if first < last {
        stays_unwritten(protocol, methods, held, span, first, (last - 1) as nat);
    }
}

/// The implementation `held` has of `interface`, written the first time
/// something asks for it. `None` where `held` does not satisfy the protocol
/// without declaring it.
pub fn implementation(program: &mut Program, interface: TypeId, held: &Ty) -> (found: Option<
    Implementation,
>)
    requires
        interface.0 < old(program)@.types.len(),
        with_implementation(old(program)@, interface, held@).0.functions.len() <= id_limit(),
    ensures
        match found {
            Some(built) => (final(program)@, Some(built@)) == with_implementation(
                old(program)@,
                interface,
                held@,
            ),
            None => (final(program)@, None::<ImplementationView>) == with_implementation(
                old(program)@,
                interface,
                held@,
            ),
        },
{
    let ghost start = program@;
    let nominal = program.nominal(interface).clone();
    let span = nominal.span;
    match nominal.shape {
        Shape::Interface(shape) => {
            if let Some(found) = find_covering(&shape.implementors, held) {
                return Some(found);
            }
            match strip_prefix(&nominal.name, "std/prelude.") {
                Some(protocol) => match write_methods(&protocol, &shape.methods, held, span) {
                    Some(functions) => {
                        let first: u32 = program.functions.len() as u32;
                        let ghost added = views(functions@);
                        assert(start.functions.len() + functions.len() <= id_limit());
                        let mut methods: Vec<FuncId> = Vec::new();
                        let mut i: usize = 0;
                        while i < functions.len()
                            invariant
                                i <= functions.len(),
                                first + functions.len() <= id_limit(),
                                methods@ == Seq::new(i as nat, |k: int| FuncId((first + k) as u32)),
                            decreases functions.len() - i,
                        {
                            methods.push(FuncId(first + i as u32));
                            assert(methods@ =~= Seq::new(
                                (i + 1) as nat,
                                |k: int| FuncId((first + k) as u32),
                            ));
                            i += 1;
                        }
                        let built = Implementation { ty: held.clone(), methods };
                        assert(built@.methods =~= implemented(start, held@, added.len()).methods);
                        let ghost had = program.functions@;
                        let mut functions = functions;
                        program.functions.append(&mut functions);
                        assert(program@.functions =~= start.functions + added);
                        let mut implementors = shape.implementors;
                        let ghost before = implementors@;
                        implementors.push(built.clone());
                        assert(views(implementors@) =~= views(before).push(built@));
                        program.types.set(
                            interface.0 as usize,
                            Nominal {
                                name: nominal.name,
                                type_params: nominal.type_params,
                                shape: Shape::Interface(
                                    Interface { methods: shape.methods, implementors },
                                ),
                                span,
                            },
                        );
                        assert(program@.types =~= with_implementation(
                            start,
                            interface,
                            held@,
                        ).0.types);
                        Some(built)
                    },
                    None => None,
                },
                None => None,
            }
        },
        _ => None,
    }
}

} // verus!
