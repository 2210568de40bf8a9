//! Lowering whole programs.

use luar_lir::ast::{
    Argument, BinaryOp, Binding, Block, Decorator, EnumItem, Expr, ExprKind, FunctionBody,
    FunctionItem, InterfaceItem, Item, Member, Module, Param, PropertyItem, Setter, Stmt,
    StmtKind, StructItem,
};
use luar_lir::inst::{BinaryOp as Op, Const, InstKind, Terminator};
use luar_lir::lower::names::shared;
use luar_lir::lower::throws::{escaping, Written};
use luar_lir::lower::{lower, lower_in_mode, CompilationMode, Lowered};
use luar_lir::print;
use luar_lir::program::{FuncId, Function, Inline, Program, Shape};
use luar_lir::sema::{
    BuiltinCall, Decl, DerivedMember, Entry, EnumType, Facts, Generic, Graph, InterfaceType, Intrinsic,
    ModuleId, Node, Overloads, ParamType, Primitive, Signature, StructType, Table, Type,
    VariantType,
};
use luar_lir::span::{FileId, Span};
use luar_lir::ty::{Builtin, FloatTy, IntTy, Ty, TypeId};

fn at(start: u32) -> Span {
    Span {
        file: FileId(0),
        start,
        end: start + 1,
    }
}

fn integer() -> Type {
    Type::Primitive(Primitive::I64)
}

fn text() -> Type {
    Type::Primitive(Primitive::Text)
}

fn nothing() -> Type {
    Type::Tuple(Vec::new())
}

fn named(name: &str) -> Type {
    Type::Named {
        module: ModuleId(0),
        name: name.to_owned(),
        args: Vec::new(),
    }
}

fn expr(kind: ExprKind, start: u32) -> Expr {
    Expr {
        kind,
        span: at(start),
    }
}

fn name(written: &str, start: u32) -> Expr {
    expr(ExprKind::Name(written.to_owned()), start)
}

fn number(value: u64, start: u32) -> Expr {
    expr(ExprKind::Integer(value), start)
}

fn binary(op: BinaryOp, left: Expr, right: Expr, start: u32) -> Expr {
    expr(
        ExprKind::Binary {
            op,
            op_span: at(start),
            left: Box::new(left),
            right: Box::new(right),
        },
        start,
    )
}

fn stmt(kind: StmtKind, start: u32) -> Stmt {
    Stmt {
        kind,
        span: at(start),
    }
}

fn block(stmts: Vec<Stmt>) -> Block {
    Block {
        stmts,
        span: at(900),
    }
}

fn param(written: &str) -> Param {
    Param {
        binding: Binding::Name(written.to_owned()),
        default: None,
    }
}

fn function(written: &str, params: Vec<&str>, body: Vec<Stmt>, start: u32) -> FunctionItem {
    FunctionItem {
        name: vec![written.to_owned()],
        decorators: Vec::new(),
        exported: false,
        params: params.into_iter().map(param).collect(),
        body: Some(block(body)),
        span: at(start),
    }
}

fn signature(params: Vec<(&str, Type)>, result: Type, takes_self: bool, start: u32) -> Signature {
    Signature {
        span: at(start),
        type_params: Vec::new(),
        params: params
            .into_iter()
            .map(|(name, ty)| ParamType {
                name: name.to_owned(),
                ty,
                variadic: false,
            })
            .collect(),
        result,
        takes_self,
        asynchronous: false,
    }
}

fn overloads(name: &str, signatures: Vec<Signature>) -> Overloads {
    Overloads {
        name: name.to_owned(),
        signatures,
    }
}

fn entry(name: &str, decl: Decl) -> Entry {
    Entry {
        module: ModuleId(0),
        name: name.to_owned(),
        decl,
    }
}

fn structure(fields: Vec<(&str, Type)>, methods: Vec<Overloads>, implements: Vec<Type>) -> Decl {
    Decl::Struct(StructType {
        type_params: Vec::new(),
        fields: fields
            .into_iter()
            .map(|(name, ty)| (name.to_owned(), ty))
            .collect(),
        reference: false,
        properties: Vec::new(),
        methods,
        implements,
    })
}

fn struct_item(name: &str, members: Vec<Member>) -> StructItem {
    StructItem {
        name: name.to_owned(),
        decorators: Vec::new(),
        reference: false,
        members,
        span: at(500),
    }
}

fn node(path: &str, items: Vec<Item>, stmts: Vec<Stmt>, imports: Vec<ModuleId>) -> Node {
    Node {
        path: path.to_owned(),
        ast: Module {
            items,
            body: block(stmts),
            span: at(999),
        },
        imports,
    }
}

fn one_module(items: Vec<Item>) -> Graph {
    Graph {
        modules: vec![node("app", items, Vec::new(), Vec::new())],
    }
}

fn table(entries: Vec<Entry>) -> Table {
    Table {
        entries,
        derived: Vec::new(),
        symbols: Vec::new(),
    }
}

fn facts(types: Vec<(u32, Type)>) -> Facts {
    Facts {
        types: types.into_iter().map(|(start, ty)| (at(start), ty)).collect(),
        bindings: Vec::new(),
        calls: Vec::new(),
        builtins: Vec::new(),
        type_args: Vec::new(),
        addressed: Vec::new(),
        protocols: Vec::new(),
    }
}

fn no_facts() -> Facts {
    facts(Vec::new())
}

/// What the instructions of a function do, and how its blocks end.
fn lines(function: &Function) -> Vec<String> {
    let mut found = Vec::new();
    for (_, block) in function.blocks() {
        for inst in &block.insts {
            let whole = print::instruction(inst, function);
            let kind = match whole.split_once(" = ") {
                Some((head, tail)) if head.starts_with('v') => tail.to_owned(),
                _ => whole,
            };
            found.push(kind);
        }
        if let Some(term) = &block.term {
            found.push(print::terminator(term));
        }
    }
    found
}

fn called<'a>(program: &'a Program, name: &str) -> &'a Function {
    program
        .functions()
        .into_iter()
        .find(|(_, function)| function.name == name)
        .map(|(_, function)| function)
        .expect("a function of that name")
}

fn gaps(lowered: &Lowered) -> Vec<&str> {
    lowered.gaps.iter().map(|gap| gap.what.as_str()).collect()
}

fn sum() -> FunctionItem {
    function(
        "sum",
        vec!["a", "b"],
        vec![stmt(
            StmtKind::Return(Some(binary(
                BinaryOp::Add,
                name("a", 11),
                name("b", 12),
                13,
            ))),
            14,
        )],
        10,
    )
}

fn sum_entry() -> Entry {
    entry(
        "sum",
        Decl::Function(vec![signature(
            vec![("a", integer()), ("b", integer())],
            integer(),
            false,
            10,
        )]),
    )
}

fn sum_facts() -> Facts {
    facts(vec![(11, integer()), (12, integer()), (13, integer())])
}

#[test]
fn a_sum_is_added_and_returned() {
    let graph = one_module(vec![Item::Function(sum())]);
    let lowered = lower(&graph, &table(vec![sum_entry()]), &sum_facts());
    assert!(lowered.gaps.is_empty());
    let sum = lowered.program.function(FuncId(0));
    assert_eq!(sum.name, "app.sum");
    assert_eq!(sum.params, [Ty::integer(), Ty::integer()]);
    assert_eq!(sum.result, Ty::integer());
    assert_eq!(lines(sum), ["add v0 v1", "return v2"]);
}

#[test]
fn only_an_exported_main_is_where_the_program_starts() {
    let mut main = function("main", Vec::new(), Vec::new(), 10);
    main.exported = true;
    let entries = || {
        table(vec![entry(
            "main",
            Decl::Function(vec![signature(Vec::new(), nothing(), false, 10)]),
        )])
    };
    let started = lower(
        &one_module(vec![Item::Function(main)]),
        &entries(),
        &no_facts(),
    );
    assert_eq!(started.program.entry, Some(FuncId(0)));

    let hidden = function("main", Vec::new(), Vec::new(), 10);
    let waiting = lower(
        &one_module(vec![Item::Function(hidden)]),
        &entries(),
        &no_facts(),
    );
    assert_eq!(waiting.program.entry, None);
}

#[test]
fn a_declaration_without_a_signature_is_left_out() {
    let graph = one_module(vec![Item::Function(sum())]);
    let lowered = lower(&graph, &table(Vec::new()), &no_facts());
    assert!(lowered.program.functions().is_empty());
    assert!(lowered.gaps.is_empty());
}

#[test]
fn a_type_without_a_form_is_a_gap() {
    let graph = one_module(vec![Item::Function(function(
        "take",
        vec!["held"],
        Vec::new(),
        10,
    ))]);
    let entries = table(vec![entry(
        "take",
        Decl::Function(vec![signature(
            vec![("held", Type::Intersection(Vec::new()))],
            nothing(),
            false,
            10,
        )]),
    )]);
    let lowered = lower(&graph, &entries, &no_facts());
    assert_eq!(gaps(&lowered), ["an intersection type"]);
    assert_eq!(lowered.program.function(FuncId(0)).params, [Ty::Never]);
}

#[test]
fn a_name_nothing_binds_is_a_gap() {
    let graph = one_module(vec![Item::Function(function(
        "read",
        Vec::new(),
        vec![stmt(StmtKind::Return(Some(name("missing", 11))), 12)],
        10,
    ))]);
    let entries = table(vec![entry(
        "read",
        Decl::Function(vec![signature(Vec::new(), integer(), false, 10)]),
    )]);
    let lowered = lower(&graph, &entries, &facts(vec![(11, integer())]));
    assert_eq!(gaps(&lowered), ["a name that is not a local binding"]);
}

#[test]
fn decorators_say_how_a_function_is_inlined_and_linked() {
    let mut quick = function("quick", Vec::new(), Vec::new(), 10);
    quick.decorators.push(Decorator {
        name: "inline".to_owned(),
        args: Vec::new(),
    });
    let mut slow = function("slow", Vec::new(), Vec::new(), 20);
    slow.decorators.push(Decorator {
        name: "noinline".to_owned(),
        args: Vec::new(),
    });
    let mut linked = function("puts", Vec::new(), Vec::new(), 30);
    linked.body = None;
    linked.decorators.push(Decorator {
        name: "extern".to_owned(),
        args: vec![Argument {
            name: None,
            value: expr(ExprKind::Text("c".to_owned()), 31),
            span: at(31),
        }],
    });
    let mut provided = function("clock", Vec::new(), Vec::new(), 40);
    provided.body = None;
    provided.decorators.push(Decorator {
        name: "intrinsic".to_owned(),
        args: Vec::new(),
    });
    let mut in_place = function("identity", Vec::new(), Vec::new(), 50);
    in_place.body = None;
    in_place.decorators.push(Decorator {
        name: "intrinsic".to_owned(),
        args: Vec::new(),
    });
    let graph = one_module(vec![
        Item::Function(quick),
        Item::Function(slow),
        Item::Function(linked),
        Item::Function(provided),
        Item::Function(in_place),
    ]);
    let plain = |name: &str, start: u32| {
        entry(
            name,
            Decl::Function(vec![signature(Vec::new(), nothing(), false, start)]),
        )
    };
    let entries = Table {
        entries: vec![
            plain("quick", 10),
            plain("slow", 20),
            plain("puts", 30),
            plain("clock", 40),
            plain("identity", 50),
        ],
        derived: Vec::new(),
        symbols: vec![("clock".to_owned(), "luar_clock".to_owned())],
    };
    let program = lower(&graph, &entries, &no_facts()).program;
    // What is lowered in place has no function of its own.
    assert_eq!(program.functions().len(), 4);
    assert_eq!(called(&program, "app.quick").inline, Inline::Always);
    assert_eq!(called(&program, "app.slow").inline, Inline::Never);
    let puts = called(&program, "app.puts");
    assert_eq!(puts.inline, Inline::Default);
    assert_eq!(puts.external, Some("puts".to_owned()));
    assert!(puts.c_abi);
    let clock = called(&program, "app.clock");
    assert_eq!(clock.external, Some("luar_clock".to_owned()));
    assert!(!clock.c_abi);
}

#[test]
fn a_function_an_exception_escapes_gives_back_which_happened() {
    let thrower = function(
        "fail",
        Vec::new(),
        vec![stmt(
            StmtKind::Throw(expr(ExprKind::Text("no".to_owned()), 11)),
            12,
        )],
        10,
    );
    let caller = function(
        "call",
        Vec::new(),
        vec![stmt(
            StmtKind::Return(Some(expr(
                ExprKind::Call {
                    callee: Box::new(name("fail", 22)),
                    method: None,
                    args: Vec::new(),
                },
                21,
            ))),
            23,
        )],
        20,
    );
    let quiet = function("quiet", Vec::new(), Vec::new(), 30);
    let graph = one_module(vec![
        Item::Function(thrower),
        Item::Function(caller),
        Item::Function(quiet),
    ]);
    let entries = table(vec![
        entry(
            "fail",
            Decl::Function(vec![signature(Vec::new(), integer(), false, 10)]),
        ),
        entry(
            "call",
            Decl::Function(vec![signature(Vec::new(), integer(), false, 20)]),
        ),
        entry(
            "quiet",
            Decl::Function(vec![signature(Vec::new(), nothing(), false, 30)]),
        ),
    ]);
    let mut known = facts(vec![(11, text()), (21, integer())]);
    known.calls.push((at(21), at(10)));
    let lowered = lower(&graph, &entries, &known);
    assert!(lowered.gaps.is_empty());
    let either = Ty::Builtin {
        kind: Builtin::Result,
        args: vec![Ty::integer(), Ty::Dynamic],
    };
    // The call passes on what it cannot catch.
    assert_eq!(called(&lowered.program, "app.fail").result, either);
    assert_eq!(called(&lowered.program, "app.call").result, either);
    assert_ne!(called(&lowered.program, "app.quiet").result, either);
}

#[test]
fn types_are_built_as_they_are_declared() {
    let mut point = struct_item(
        "Point",
        vec![
            Member::Field(None),
            Member::Field(Some(number(7, 71))),
        ],
    );
    point.decorators.push(Decorator {
        name: "repr".to_owned(),
        args: vec![Argument {
            name: None,
            value: expr(ExprKind::Text("C".to_owned()), 72),
            span: at(72),
        }],
    });
    let shape = EnumItem {
        name: "Shape".to_owned(),
        variants: vec!["Dot".to_owned(), "Line".to_owned(), "Named".to_owned()],
        span: at(600),
    };
    let graph = one_module(vec![Item::Struct(point), Item::Enum(shape)]);
    let entries = table(vec![
        entry(
            "Point",
            structure(vec![("x", integer()), ("y", integer())], Vec::new(), Vec::new()),
        ),
        entry(
            "Shape",
            Decl::Enum(EnumType {
                type_params: Vec::new(),
                variants: vec![
                    (
                        "Named".to_owned(),
                        VariantType::Record(vec![("label".to_owned(), text())]),
                    ),
                    ("Line".to_owned(), VariantType::Tuple(vec![integer(), integer()])),
                    ("Dot".to_owned(), VariantType::Unit),
                ],
                methods: Vec::new(),
            }),
        ),
    ]);
    let program = lower(&graph, &entries, &no_facts()).program;
    let point = program.nominal(TypeId(0));
    assert_eq!(point.name, "app.Point");
    assert_eq!(point.span, at(500));
    match &point.shape {
        Shape::Struct(held) => {
            assert!(held.repr_c);
            assert!(!held.reference);
            assert_eq!(held.fields[1].name, "y");
            assert_eq!(held.fields[1].ty, Ty::integer());
        }
        _ => panic!("a struct"),
    }
    match &program.nominal(TypeId(1)).shape {
        Shape::Enum(held) => {
            let names: Vec<&str> = held
                .variants
                .iter()
                .map(|variant| variant.name.as_str())
                .collect();
            assert_eq!(names, ["Dot", "Line", "Named"]);
            assert!(held.variants[0].fields.is_empty());
            assert_eq!(held.variants[1].fields[0].name, "0");
            assert_eq!(held.variants[1].fields[1].name, "1");
            assert_eq!(held.variants[2].fields[0].name, "label");
        }
        _ => panic!("an enum"),
    }
    assert_eq!(program.find_type("app.Shape"), Some(TypeId(1)));
}

fn sized_program(throws: bool, second_signature: bool) -> Lowered {
    let mut body = Vec::new();
    if throws {
        body.push(stmt(
            StmtKind::Throw(expr(ExprKind::Text("no".to_owned()), 111)),
            112,
        ));
    }
    body.push(stmt(StmtKind::Return(Some(number(3, 113))), 114));
    let size = function("size", vec!["self"], body, 110);
    let graph = one_module(vec![
        Item::Interface(InterfaceItem {
            name: "Sized".to_owned(),
            span: at(100),
        }),
        Item::Struct(struct_item("Small", vec![Member::Function(size)])),
    ]);
    let mut signatures = vec![signature(Vec::new(), integer(), true, 110)];
    if second_signature {
        signatures.push(signature(Vec::new(), integer(), true, 120));
    }
    let entries = table(vec![
        entry(
            "Sized",
            Decl::Interface(InterfaceType {
                type_params: Vec::new(),
                methods: vec![overloads(
                    "size",
                    vec![signature(Vec::new(), integer(), true, 105)],
                )],
            }),
        ),
        entry(
            "Small",
            structure(
                Vec::new(),
                vec![overloads("size", signatures)],
                vec![named("Sized")],
            ),
        ),
    ]);
    lower(&graph, &entries, &facts(vec![(111, text()), (113, integer())]))
}

#[test]
fn an_implementation_fills_the_slots_of_its_interface() {
    let lowered = sized_program(false, false);
    assert!(lowered.gaps.is_empty());
    match &lowered.program.nominal(TypeId(0)).shape {
        Shape::Interface(held) => {
            assert_eq!(held.methods[0].name, "size");
            assert!(!held.methods[0].throws);
            assert_eq!(held.implementors.len(), 1);
            assert_eq!(held.implementors[0].methods, [FuncId(0)]);
        }
        _ => panic!("an interface"),
    }
    assert_eq!(lowered.program.function(FuncId(0)).name, "app.Small.size");
}

#[test]
fn what_fills_a_slot_that_may_throw_says_which_happened() {
    let lowered = sized_program(true, false);
    let program = &lowered.program;
    match &program.nominal(TypeId(0)).shape {
        Shape::Interface(held) => {
            assert!(held.methods[0].throws);
            let slot = held.implementors[0].methods[0];
            let adapter = program.function(slot);
            assert_eq!(adapter.name, "app.Small.size#virtual1");
            assert_eq!(lines(adapter), ["call func0(v0)", "return v1"]);
        }
        _ => panic!("an interface"),
    }
}

#[test]
fn a_slot_two_signatures_fit_is_a_gap() {
    let lowered = sized_program(false, true);
    assert_eq!(
        gaps(&lowered),
        ["`Small` implementing `size` in a way the compiler cannot resolve"]
    );
    match &lowered.program.nominal(TypeId(0)).shape {
        Shape::Interface(held) => assert!(held.implementors.is_empty()),
        _ => panic!("an interface"),
    }
}

#[test]
fn an_interface_that_is_not_declared_is_a_gap() {
    let graph = one_module(vec![Item::Struct(struct_item("Small", Vec::new()))]);
    let entries = table(vec![entry(
        "Small",
        structure(Vec::new(), Vec::new(), vec![named("Missing")]),
    )]);
    let lowered = lower(&graph, &entries, &no_facts());
    assert_eq!(gaps(&lowered), ["an interface the compiler could not find"]);
}

#[test]
fn modules_are_initialized_after_what_they_import() {
    let held = |start: u32| {
        stmt(
            StmtKind::Local {
                binding: Binding::Name("held".to_owned()),
                value: Some(number(1, start + 1)),
            },
            start,
        )
    };
    let graph = Graph {
        modules: vec![
            node("first", Vec::new(), vec![held(10)], vec![ModuleId(2)]),
            node("second", Vec::new(), Vec::new(), Vec::new()),
            node("third", Vec::new(), vec![held(20)], vec![ModuleId(0)]),
        ],
    };
    let lowered = lower(
        &graph,
        &table(Vec::new()),
        &facts(vec![(11, integer()), (21, integer())]),
    );
    let program = &lowered.program;
    let order: Vec<&str> = program
        .initializers
        .iter()
        .map(|id| program.function(*id).name.as_str())
        .collect();
    // The first imports the third, and a module without statements has nothing
    // to run.
    assert_eq!(order, ["third.$init", "first.$init"]);
}

#[test]
fn a_const_is_worked_out_where_it_is_read() {
    let read = function(
        "read",
        Vec::new(),
        vec![stmt(StmtKind::Return(Some(name("LIMIT", 21))), 22)],
        20,
    );
    let graph = Graph {
        modules: vec![node(
            "app",
            vec![Item::Function(read)],
            vec![stmt(
                StmtKind::Const {
                    binding: Binding::Name("LIMIT".to_owned()),
                    value: number(12, 11),
                },
                10,
            )],
            Vec::new(),
        )],
    };
    let entries = table(vec![entry(
        "read",
        Decl::Function(vec![signature(Vec::new(), integer(), false, 20)]),
    )]);
    let lowered = lower(
        &graph,
        &entries,
        &facts(vec![(11, integer()), (21, integer())]),
    );
    assert_eq!(
        lines(called(&lowered.program, "app.read")),
        ["const 12", "return v0"]
    );
}

#[test]
fn a_reference_struct_has_its_finalizer() {
    let mut release = function("release", vec!["self"], Vec::new(), 10);
    release.decorators.push(Decorator {
        name: "finalizer".to_owned(),
        args: Vec::new(),
    });
    let mut held = struct_item("Handle", vec![Member::Function(release)]);
    held.reference = true;
    let graph = one_module(vec![Item::Struct(held)]);
    let entries = table(vec![entry(
        "Handle",
        Decl::Struct(StructType {
            type_params: Vec::new(),
            fields: Vec::new(),
            reference: true,
            properties: Vec::new(),
            methods: vec![overloads(
                "release",
                vec![signature(Vec::new(), nothing(), true, 10)],
            )],
            implements: Vec::new(),
        }),
    )]);
    let program = lower(&graph, &entries, &no_facts()).program;
    let ty = Ty::Named {
        id: TypeId(0),
        args: Vec::new(),
    };
    let finalizer = program.finalizer(&ty).expect("a finalizer");
    assert_eq!(program.function(finalizer).name, "app.Handle.release");
    assert_eq!(program.function(finalizer).params, [ty]);
}

#[test]
fn a_property_is_read_and_written_through_functions() {
    let area = PropertyItem {
        name: "area".to_owned(),
        get: block(vec![stmt(StmtKind::Return(Some(number(4, 11))), 12)]),
        set: Some(Setter {
            param: "value".to_owned(),
            body: block(Vec::new()),
            span: at(15),
        }),
        span: at(10),
    };
    let orphan = PropertyItem {
        name: "lost".to_owned(),
        get: block(Vec::new()),
        set: None,
        span: at(20),
    };
    let graph = one_module(vec![Item::Struct(struct_item(
        "Square",
        vec![Member::Property(area), Member::Property(orphan)],
    ))]);
    let entries = table(vec![entry(
        "Square",
        Decl::Struct(StructType {
            type_params: Vec::new(),
            fields: Vec::new(),
            reference: false,
            properties: vec![("area".to_owned(), integer())],
            methods: Vec::new(),
            implements: Vec::new(),
        }),
    )]);
    let lowered = lower(&graph, &entries, &facts(vec![(11, integer())]));
    let program = &lowered.program;
    let get = called(program, "app.Square.area");
    assert_eq!(get.result, Ty::integer());
    assert_eq!(lines(get), ["const 4", "return v1"]);
    let set = called(program, "app.Square.area=");
    assert_eq!(set.params[1], Ty::integer());
    assert_eq!(set.result, Ty::Unit);
    assert_eq!(
        gaps(&lowered),
        ["a property the declaration table does not hold"]
    );
}

#[test]
fn a_closure_takes_an_id_after_every_declaration() {
    let closure = expr(
        ExprKind::Function {
            asynchronous: false,
            params: vec![param("x")],
            body: Box::new(FunctionBody::Expr(name("x", 12))),
        },
        11,
    );
    let make = function(
        "make",
        Vec::new(),
        vec![stmt(StmtKind::Return(Some(closure)), 13)],
        10,
    );
    let later = function("later", Vec::new(), Vec::new(), 20);
    let graph = one_module(vec![Item::Function(make), Item::Function(later)]);
    let shape = || Type::Function {
        asynchronous: false,
        sendable: false,
        params: vec![integer()],
        result: Box::new(integer()),
    };
    let entries = table(vec![
        entry(
            "make",
            Decl::Function(vec![signature(Vec::new(), shape(), false, 10)]),
        ),
        entry(
            "later",
            Decl::Function(vec![signature(Vec::new(), nothing(), false, 20)]),
        ),
    ]);
    let lowered = lower(&graph, &entries, &facts(vec![(11, shape()), (12, integer())]));
    assert!(lowered.gaps.is_empty());
    let program = &lowered.program;
    assert_eq!(program.functions().len(), 3);
    assert_eq!(program.function(FuncId(2)).name, "app.make#2");
    assert!(matches!(
        program.function(FuncId(0)).blocks()[0].1.insts[0].kind,
        InstKind::MakeClosure { func: FuncId(2), .. }
    ));
}

fn assertion_program(mode: CompilationMode) -> Lowered {
    let call = expr(
        ExprKind::Call {
            callee: Box::new(name("debug_assert", 12)),
            method: None,
            args: vec![Argument {
                name: None,
                value: expr(ExprKind::Bool(true), 13),
                span: at(13),
            }],
        },
        11,
    );
    let check = function("check", Vec::new(), vec![stmt(StmtKind::Expr(call), 14)], 10);
    let graph = one_module(vec![Item::Function(check)]);
    let entries = table(vec![entry(
        "check",
        Decl::Function(vec![signature(Vec::new(), nothing(), false, 10)]),
    )]);
    let mut known = facts(vec![(11, nothing()), (13, Type::Primitive(Primitive::Bool))]);
    known
        .builtins
        .push((at(11), BuiltinCall::Intrinsic(Intrinsic::DebugAssert)));
    lower_in_mode(&graph, &entries, &known, mode)
}

#[test]
fn a_debug_assertion_is_checked_in_debug_mode_alone() {
    let checks = |lowered: &Lowered| {
        lines(lowered.program.function(FuncId(0)))
            .iter()
            .filter(|line| line.starts_with("assert"))
            .count()
    };
    assert_eq!(checks(&assertion_program(CompilationMode::Debug)), 1);
    assert_eq!(checks(&assertion_program(CompilationMode::Release)), 0);
}

fn derived(members: Vec<&str>, fields: Vec<(&str, Type)>) -> Lowered {
    let graph = one_module(vec![Item::Struct(struct_item("Point", Vec::new()))]);
    let mut methods = Vec::new();
    let mut written = Vec::new();
    for (which, member) in members.iter().enumerate() {
        let start = 10 + which as u32;
        let signature = match *member {
            "eq" => signature(
                vec![("other", named("Point"))],
                Type::Primitive(Primitive::Bool),
                true,
                start,
            ),
            "hash" => signature(Vec::new(), Type::Primitive(Primitive::U64), true, start),
            _ => signature(Vec::new(), text(), true, start),
        };
        methods.push(overloads(member, vec![signature]));
        written.push(DerivedMember {
            span: at(start),
            owner: named("Point"),
            member: (*member).to_owned(),
        });
    }
    let mut entries = table(vec![entry("Point", structure(fields, methods, Vec::new()))]);
    entries.derived = written;
    lower(&graph, &entries, &no_facts())
}

#[test]
fn a_derived_eq_compares_every_field() {
    let lowered = derived(vec!["eq"], vec![("x", integer()), ("y", text())]);
    assert!(lowered.gaps.is_empty());
    assert_eq!(
        lines(called(&lowered.program, "app.Point.eq")),
        [
            "field v0.0",
            "field v1.0",
            "eq v2 v3",
            "branch v4 block2 else block1",
            "const false",
            "return v9",
            "field v0.1",
            "field v1.1",
            "eq v5 v6",
            "branch v7 block3 else block1",
            "const true",
            "return v8",
        ]
    );
}

#[test]
fn a_derived_hash_combines_every_field() {
    let lowered = derived(vec!["hash"], vec![("x", integer())]);
    assert!(lowered.gaps.is_empty());
    assert_eq!(
        lines(called(&lowered.program, "app.Point.hash")),
        [
            "const 14695981039346656037",
            "field v0.0",
            "hash v2",
            "hash combine v1 v3",
            "return v4",
        ]
    );
}

#[test]
fn a_derived_display_writes_every_field() {
    let lowered = derived(vec!["display"], vec![("x", integer())]);
    assert!(lowered.gaps.is_empty());
    assert_eq!(
        lines(called(&lowered.program, "app.Point.display")),
        [
            "const \"Point { \"",
            "const \"x = \"",
            "concat v1 v2",
            "field v0.0",
            "display v4",
            "concat v3 v5",
            "const \" }\"",
            "concat v6 v7",
            "return v8",
        ]
    );
    let empty = derived(vec!["display"], Vec::new());
    assert_eq!(
        lines(called(&empty.program, "app.Point.display")),
        ["const \"Point {}\"", "return v1"]
    );
}

#[test]
fn a_derived_member_goes_through_those_of_its_fields() {
    let lowered = derived(vec!["eq"], vec![("inner", named("Point"))]);
    assert!(lowered.gaps.is_empty());
    assert!(lines(called(&lowered.program, "app.Point.eq"))
        .iter()
        .any(|line| line == "call func0(v2, v3)"));
}

#[test]
fn a_derived_member_it_cannot_write_is_a_gap() {
    let record = || Type::Record(vec![("x".to_owned(), integer())]);
    let hashed = derived(vec!["hash"], vec![("held", record())]);
    assert_eq!(
        gaps(&hashed),
        ["a derived `hash` over a field it cannot hash"]
    );
    // The function is left saying that it never returns.
    assert_eq!(
        lines(called(&hashed.program, "app.Point.hash")),
        ["trap unreachable"]
    );
    let displayed = derived(vec!["display"], vec![("held", record())]);
    assert_eq!(
        gaps(&displayed),
        ["a derived `display` over a field it cannot display"]
    );
    let copied = derived(vec!["clone"], Vec::new());
    assert_eq!(gaps(&copied), ["a derived `clone`"]);
}

#[test]
fn a_derived_member_of_an_enum_reads_the_variant_first() {
    let graph = one_module(vec![Item::Enum(EnumItem {
        name: "Shape".to_owned(),
        variants: vec!["Dot".to_owned(), "Line".to_owned()],
        span: at(600),
    })]);
    let mut entries = table(vec![entry(
        "Shape",
        Decl::Enum(EnumType {
            type_params: Vec::new(),
            variants: vec![
                ("Dot".to_owned(), VariantType::Unit),
                ("Line".to_owned(), VariantType::Tuple(vec![integer()])),
            ],
            methods: vec![overloads(
                "display",
                vec![signature(Vec::new(), text(), true, 10)],
            )],
        }),
    )]);
    entries.derived.push(DerivedMember {
        span: at(10),
        owner: named("Shape"),
        member: "display".to_owned(),
    });
    let lowered = lower(&graph, &entries, &no_facts());
    assert!(lowered.gaps.is_empty());
    assert_eq!(
        lines(called(&lowered.program, "app.Shape.display")),
        [
            "tag v0",
            "switch v1 [0 => block1, 1 => block2] else block3",
            "const \"Shape.Dot\"",
            "return v2",
            "const \"Shape.Line(\"",
            "payload v0#1.0",
            "display v4",
            "concat v3 v5",
            "const \")\"",
            "concat v6 v7",
            "return v8",
            "trap unreachable",
        ]
    );
}

#[test]
fn a_loop_carries_what_it_writes() {
    let count = function(
        "count",
        vec!["limit"],
        vec![
            stmt(
                StmtKind::Local {
                    binding: Binding::Name("total".to_owned()),
                    value: Some(number(0, 11)),
                },
                12,
            ),
            stmt(
                StmtKind::While {
                    label: None,
                    condition: binary(BinaryOp::Less, name("total", 13), name("limit", 14), 15),
                    body: block(vec![stmt(
                        StmtKind::Assign {
                            target: name("total", 16),
                            op: None,
                            value: binary(
                                BinaryOp::Add,
                                name("total", 17),
                                number(1, 18),
                                19,
                            ),
                        },
                        20,
                    )]),
                },
                21,
            ),
            stmt(StmtKind::Return(Some(name("total", 22))), 23),
        ],
        10,
    );
    let graph = one_module(vec![Item::Function(count)]);
    let entries = table(vec![entry(
        "count",
        Decl::Function(vec![signature(vec![("limit", integer())], integer(), false, 10)]),
    )]);
    let mut known: Vec<(u32, Type)> = vec![11, 13, 14, 16, 17, 18, 19, 22]
        .into_iter()
        .map(|start| (start, integer()))
        .collect();
    known.push((15, Type::Primitive(Primitive::Bool)));
    let lowered = lower(&graph, &entries, &facts(known));
    assert!(lowered.gaps.is_empty());
    let count = lowered.program.function(FuncId(0));
    let carrying = count
        .blocks()
        .into_iter()
        .filter(|(_, block)| !block.params.is_empty())
        .count();
    // The entry takes the limit, and the header the binding the loop writes.
    assert!(carrying >= 2);
    assert!(count
        .blocks()
        .into_iter()
        .any(|(_, block)| matches!(block.term, Some(Terminator::Branch { .. }))));
}

#[test]
fn widths_are_kept() {
    let kinds = vec![
        (Primitive::U8, Ty::Int(IntTy::U8)),
        (Primitive::F32, Ty::Float(FloatTy::F32)),
        (Primitive::Char, Ty::Char),
        (Primitive::Any, Ty::Dynamic),
    ];
    for (primitive, wanted) in kinds {
        let graph = one_module(vec![Item::Function(function(
            "take",
            vec!["held"],
            Vec::new(),
            10,
        ))]);
        let entries = table(vec![entry(
            "take",
            Decl::Function(vec![signature(
                vec![("held", Type::Primitive(primitive))],
                nothing(),
                false,
                10,
            )]),
        )]);
        let lowered = lower(&graph, &entries, &no_facts());
        assert_eq!(lowered.program.function(FuncId(0)).params, [wanted]);
    }
}

#[test]
fn literals_are_quoted_when_they_are_printed() {
    assert_eq!(print::constant(&Const::Str("a\"b".to_owned())), "\"a\\\"b\"");
    assert_eq!(print::constant(&Const::Char('\n')), "'\\n'");
    assert_eq!(print::constant(&Const::Bytes(vec![1, 20])), "[1, 20]");
    assert_eq!(print::constant(&Const::Int(0)), "0");
    assert_eq!(print::constant(&Const::Nil), "nil");
}

fn names_what_is_there(function: &Function, functions: u32) -> bool {
    let values = function.values.len() as u32;
    let blocks = function.blocks.len() as u32;
    function.entry.0 < blocks
        && function.blocks.iter().all(|block| {
            block.params.iter().all(|param| param.0 < values)
                && block.insts.iter().all(|inst| {
                    inst.result.iter().all(|value| value.0 < values)
                        && inst.kind.operands().iter().all(|value| value.0 < values)
                        && match &inst.kind {
                            InstKind::Call { callee, .. } => callee.0 < functions,
                            InstKind::MakeClosure { func, .. } => func.0 < functions,
                            _ => true,
                        }
                })
                && block.term.iter().all(|term| {
                    term.targets().iter().all(|target| {
                        target.block.0 < blocks && target.args.iter().all(|arg| arg.0 < values)
                    })
                })
        })
}

#[test]
fn lowered_functions_name_what_is_there() {
    let fields = vec![("width", integer()), ("label", text())];
    for lowered in [
        sized_program(true, false),
        assertion_program(CompilationMode::Debug),
        derived(vec!["eq", "hash", "display"], fields),
    ] {
        let functions = lowered.program.functions.len() as u32;
        assert!(functions > 0);
        assert!(lowered.program.functions.iter().all(|held| names_what_is_there(held, functions)));
    }
}

/// Runs a function that only counts: integers, comparisons, and jumps. `None` where
/// a sum or a difference is nothing its type holds.
fn run_counting(function: &Function) -> Option<i128> {
    let mut held = vec![0i128; function.values.len()];
    let mut at = function.entry;
    for _ in 0..5000 {
        let block = function.block(at);
        for inst in &block.insts {
            let Some(result) = inst.result else {
                panic!("nothing but values is produced");
            };
            let value = match &inst.kind {
                InstKind::Const(Const::Int(value)) => i128::from(*value),
                InstKind::Binary { op, left, right } => {
                    let (left, right) = (held[left.0 as usize], held[right.0 as usize]);
                    match op {
                        Op::Add => left + right,
                        Op::Subtract => left - right,
                        Op::Less => i128::from(left < right),
                        Op::LessEqual => i128::from(left <= right),
                        Op::Greater => i128::from(left > right),
                        Op::GreaterEqual => i128::from(left >= right),
                        Op::Equal => i128::from(left == right),
                        _ => panic!("no other operator counts"),
                    }
                }
                _ => panic!("no other instruction counts"),
            };
            if *function.type_of(result) == Ty::Int(IntTy::U8) && !(0..=255).contains(&value) {
                return None;
            }
            held[result.0 as usize] = value;
        }
        let target = match block.term.as_ref().expect("every block is ended") {
            Terminator::Jump(to) => to,
            Terminator::Branch { condition, then, otherwise } => {
                if held[condition.0 as usize] == 1 { then } else { otherwise }
            }
            Terminator::Return(value) => return Some(held[value.0 as usize]),
            _ => panic!("no other end counts"),
        };
        let passed: Vec<i128> = target.args.iter().map(|arg| held[arg.0 as usize]).collect();
        for (param, value) in function.block(target.block).params.iter().zip(passed) {
            held[param.0 as usize] = value;
        }
        at = target.block;
    }
    panic!("the function does not end");
}

/// How often the body of a `for` over a range of bytes runs.
fn passes(first: u64, last: u64, inclusive: bool, reversed: bool) -> Option<i128> {
    let range = expr(
        ExprKind::Range {
            start: Some(Box::new(number(first, 31))),
            end: Some(Box::new(number(last, 32))),
            inclusive,
        },
        33,
    );
    let iterable = if reversed {
        expr(
            ExprKind::Call {
                callee: Box::new(range),
                method: Some("reversed".to_owned()),
                args: Vec::new(),
            },
            34,
        )
    } else {
        range
    };
    let count = function(
        "count",
        Vec::new(),
        vec![
            stmt(
                StmtKind::Local {
                    binding: Binding::Name("total".to_owned()),
                    value: Some(number(0, 11)),
                },
                12,
            ),
            stmt(
                StmtKind::For {
                    label: None,
                    bindings: vec![Binding::Name("i".to_owned())],
                    iterable,
                    body: block(vec![stmt(
                        StmtKind::Assign {
                            target: name("total", 16),
                            op: None,
                            value: binary(
                                BinaryOp::Add,
                                name("total", 17),
                                number(1, 18),
                                19,
                            ),
                        },
                        20,
                    )]),
                },
                21,
            ),
            stmt(StmtKind::Return(Some(name("total", 22))), 23),
        ],
        10,
    );
    let graph = one_module(vec![Item::Function(count)]);
    let entries = table(vec![entry(
        "count",
        Decl::Function(vec![signature(Vec::new(), integer(), false, 10)]),
    )]);
    let mut known: Vec<(u32, Type)> = vec![11, 16, 17, 18, 19, 22]
        .into_iter()
        .map(|start| (start, integer()))
        .collect();
    for start in [31, 32] {
        known.push((start, Type::Primitive(Primitive::U8)));
    }
    let lowered = lower(&graph, &entries, &facts(known));
    assert_eq!(gaps(&lowered), Vec::<&str>::new());
    run_counting(lowered.program.function(FuncId(0)))
}

#[test]
fn an_inclusive_range_reaches_the_largest_value_of_its_type() {
    assert_eq!(passes(254, 255, true, false), Some(2));
    assert_eq!(passes(255, 255, true, false), Some(1));
    assert_eq!(passes(0, 255, true, false), Some(256));
    assert_eq!(passes(3, 2, true, false), Some(0));
    assert_eq!(passes(253, 255, false, false), Some(2));
    assert_eq!(passes(3, 3, false, false), Some(0));
}

#[test]
fn a_reversed_range_reaches_the_smallest_value_of_its_type() {
    assert_eq!(passes(0, 1, true, true), Some(2));
    assert_eq!(passes(0, 0, true, true), Some(1));
    assert_eq!(passes(2, 1, true, true), Some(0));
    assert_eq!(passes(0, 2, false, true), Some(2));
    assert_eq!(passes(0, 0, false, true), Some(0));
}

fn called_at(callee: &str, start: u32) -> Stmt {
    let call = expr(
        ExprKind::Call {
            callee: Box::new(name(callee, start + 1)),
            method: None,
            args: Vec::new(),
        },
        start,
    );
    stmt(StmtKind::Expr(call), start + 2)
}

#[test]
fn exceptions_escape_whatever_the_order_of_the_bodies() {
    // The first throws, the second calls it, and the third calls only itself.
    let throws = block(vec![stmt(StmtKind::Throw(number(0, 1)), 2)]);
    let calls = block(vec![called_at("throws", 10)]);
    let loops = block(vec![called_at("loops", 20)]);
    let mut known = no_facts();
    known.calls = vec![(at(10), at(100)), (at(20), at(300))];
    let bodies = vec![
        Written { span: at(100), body: &throws },
        Written { span: at(200), body: &calls },
        Written { span: at(300), body: &loops },
    ];
    let mut turned = bodies.clone();
    turned.reverse();
    for listed in [&bodies, &turned] {
        let found = escaping(listed, &known, &Vec::new());
        assert_eq!(found.len(), 2);
        assert!(found.contains(&at(100)));
        assert!(found.contains(&at(200)));
    }
}

#[test]
fn shared_names_stand_in_order() {
    let assigned = |written: &str, start: u32| {
        stmt(
            StmtKind::Assign {
                target: name(written, start),
                op: None,
                value: number(0, start + 1),
            },
            start + 2,
        )
    };
    let closure = expr(
        ExprKind::Function {
            asynchronous: false,
            params: Vec::new(),
            body: Box::new(FunctionBody::Block(block(vec![
                assigned("zeta", 40),
                assigned("alpha", 50),
                assigned("zeta", 60),
                assigned("mu", 70),
            ]))),
        },
        30,
    );
    let whole = block(vec![stmt(StmtKind::Expr(closure), 31)]);
    assert_eq!(shared(&whole), vec!["alpha", "mu", "zeta"]);
}

fn optional(inner: Type) -> Type {
    Type::Optional(Box::new(inner))
}

/// A program of one function that returns what is written.
fn returning(
    params: Vec<(&str, Type)>,
    result: Type,
    written: Expr,
    types: Vec<(u32, Type)>,
) -> Lowered {
    let names = params.iter().map(|(name, _)| *name).collect();
    let body = vec![stmt(StmtKind::Return(Some(written)), 90)];
    let item = function("f", names, body, 10);
    let declared = entry(
        "f",
        Decl::Function(vec![signature(params, result, false, 10)]),
    );
    lower(
        &one_module(vec![Item::Function(item)]),
        &table(vec![declared]),
        &facts(types),
    )
}

#[test]
fn an_optional_of_an_optional_is_one_optional() {
    let lowered = returning(
        vec![("a", optional(optional(integer())))],
        optional(optional(integer())),
        name("a", 11),
        vec![(11, optional(optional(integer())))],
    );
    assert!(lowered.gaps.is_empty());
    let function = lowered.program.function(FuncId(0));
    let held = Ty::Optional(Box::new(Ty::integer()));
    assert_eq!(function.params, [held.clone()]);
    assert_eq!(function.result, held);
}

#[test]
fn a_fallback_that_may_be_nothing_is_given_where_the_left_is_nothing() {
    let may = || optional(integer());
    let written = binary(BinaryOp::Coalesce, name("a", 11), name("b", 12), 13);
    let lowered = returning(
        vec![("a", may()), ("b", may())],
        may(),
        written,
        vec![(11, may()), (12, may()), (13, may())],
    );
    assert!(lowered.gaps.is_empty());
    assert_eq!(
        lines(lowered.program.function(FuncId(0))),
        [
            "is some v0",
            "branch v2 block1 else block2",
            "jump block3(v0)",
            "jump block3(v1)",
            "return v3",
        ]
    );
}

#[test]
fn a_fallback_is_given_where_the_left_is_nothing() {
    let written = binary(BinaryOp::Coalesce, name("a", 11), name("b", 12), 13);
    let lowered = returning(
        vec![("a", optional(integer())), ("b", integer())],
        integer(),
        written,
        vec![(11, optional(integer())), (12, integer()), (13, integer())],
    );
    assert!(lowered.gaps.is_empty());
    assert_eq!(
        lines(lowered.program.function(FuncId(0))),
        [
            "is some v0",
            "branch v2 block1 else block2",
            "unwrap v0",
            "jump block3(v3)",
            "jump block3(v1)",
            "return v4",
        ]
    );
}

fn map_read(value: fn() -> Type, result: fn() -> Type) -> Lowered {
    let map = || Type::Builtin {
        kind: Generic::MapTy,
        args: vec![integer(), value()],
    };
    let written = expr(
        ExprKind::Index {
            receiver: Box::new(name("m", 11)),
            index: Box::new(name("k", 12)),
            optional: false,
        },
        13,
    );
    returning(
        vec![("m", map()), ("k", integer())],
        result(),
        written,
        vec![(11, map()), (12, integer()), (13, result())],
    )
}

fn maybe_integer() -> Type {
    optional(integer())
}

#[test]
fn a_map_of_optionals_gives_nothing_for_a_key_it_does_not_hold() {
    let lowered = map_read(maybe_integer, maybe_integer);
    assert!(lowered.gaps.is_empty());
    let function = lowered.program.function(FuncId(0));
    assert_eq!(lines(function), ["index v0[v1]", "return v2"]);
    let read = function.block(function.entry).insts[0].result.expect("a value");
    assert_eq!(*function.type_of(read), Ty::Optional(Box::new(Ty::integer())));
}

#[test]
fn what_a_map_was_proved_to_hold_is_read_through() {
    let held: [fn() -> Type; 2] = [integer, maybe_integer];
    for value in held {
        let lowered = map_read(value, integer);
        assert!(lowered.gaps.is_empty());
        assert_eq!(
            lines(lowered.program.function(FuncId(0))),
            ["index v0[v1]", "unwrap v2", "return v3"]
        );
    }
}

#[test]
fn a_result_nothing_typed_is_two_gaps_more() {
    let written = expr(
        ExprKind::Call {
            callee: Box::new(expr(
                ExprKind::Field {
                    receiver: Box::new(name("Result", 11)),
                    name: "Ok".to_owned(),
                    optional: false,
                },
                12,
            )),
            method: None,
            args: Vec::new(),
        },
        13,
    );
    let lowered = returning(Vec::new(), integer(), written, Vec::new());
    assert_eq!(
        gaps(&lowered),
        [
            "an expression the checker did not type",
            "an expression the checker did not type",
            "a call the checker did not resolve",
        ]
    );
}

#[test]
fn a_chain_through_an_optional_field_gives_one_absent_value() {
    let point = entry(
        "Point",
        structure(vec![("x", optional(integer()))], Vec::new(), Vec::new()),
    );
    let written = expr(
        ExprKind::Field {
            receiver: Box::new(name("p", 11)),
            name: "x".to_owned(),
            optional: true,
        },
        13,
    );
    let held = || optional(named("Point"));
    let item = function(
        "f",
        vec!["p"],
        vec![stmt(StmtKind::Return(Some(written)), 90)],
        10,
    );
    let declared = entry(
        "f",
        Decl::Function(vec![signature(
            vec![("p", held())],
            optional(integer()),
            false,
            10,
        )]),
    );
    let lowered = lower(
        &one_module(vec![
            Item::Struct(struct_item("Point", Vec::new())),
            Item::Function(item),
        ]),
        &table(vec![point, declared]),
        &facts(vec![(11, held()), (13, optional(integer()))]),
    );
    assert!(lowered.gaps.is_empty());
    assert_eq!(
        lines(called(&lowered.program, "app.f")),
        [
            "is some v0",
            "branch v1 block1 else block2",
            "unwrap v0",
            "field v2.0",
            "jump block3(v3)",
            "const nil",
            "jump block3(v4)",
            "return v5",
        ]
    );
}
