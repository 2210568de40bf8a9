//! Inlining, scheduling, and printing.

use luar_lir::devirt::infer;
use luar_lir::inst::{
    BinaryOp, Const, Inst, InstKind, Target, Terminator, Trap, Value,
};
use luar_lir::print;
use luar_lir::program::{
    BlockId, Field, FuncId, Function, Inline, Interface, Method, Nominal, Program, Shape, Struct,
};
use luar_lir::protocols;
use luar_lir::span::{FileId, Span};
use luar_lir::tasks;
use luar_lir::ty::{Builtin, Ty, TypeId};

const SPAN: Span = Span {
    file: FileId(0),
    start: 0,
    end: 0,
};

fn emit(function: &mut Function, kind: InstKind, ty: Ty) -> Value {
    let value = function.add_value(ty);
    let entry = function.entry;
    function.push_inst(
        entry,
        Inst {
            result: Some(value),
            kind,
            span: SPAN,
        },
    );
    value
}

fn doubled() -> Function {
    let mut double = Function::new(
        "double".to_owned(),
        vec![Ty::integer()],
        Ty::integer(),
        SPAN,
    );
    let held = double.block(double.entry).params[0];
    let sum = emit(
        &mut double,
        InstKind::Binary {
            op: BinaryOp::Add,
            left: held,
            right: held,
        },
        Ty::integer(),
    );
    let entry = double.entry;
    double.end_block(entry, Terminator::Return(sum));
    double
}

fn calling(asked: Inline) -> Program {
    let mut program = Program::default();
    let mut double = doubled();
    double.inline = asked;
    let callee = program.add_function(double);
    let mut main = Function::new("main".to_owned(), Vec::new(), Ty::integer(), SPAN);
    let two = emit(&mut main, InstKind::Const(Const::Int(2)), Ty::integer());
    let called = emit(
        &mut main,
        InstKind::Call {
            callee,
            type_args: Vec::new(),
            args: vec![two],
        },
        Ty::integer(),
    );
    let entry = main.entry;
    main.end_block(entry, Terminator::Return(called));
    program.add_function(main);
    program
}

fn calls(function: &Function) -> usize {
    function
        .blocks()
        .into_iter()
        .flat_map(|(_, block)| block.insts.iter())
        .filter(|inst| matches!(inst.kind, InstKind::Call { .. }))
        .count()
}

#[test]
fn what_is_asked_to_be_inlined_is() {
    let mut program = calling(Inline::Always);
    luar_lir::inline::run(&mut program);
    assert_eq!(calls(program.function(FuncId(1))), 0);
    assert!(program.function(FuncId(1)).blocks().len() > 1);
}

#[test]
fn what_is_asked_not_to_be_inlined_is_not() {
    let mut program = calling(Inline::Never);
    let before = program.function(FuncId(1)).clone();
    luar_lir::inline::run(&mut program);
    assert_eq!(*program.function(FuncId(1)), before);
}

#[test]
fn a_program_without_tasks_is_left_alone() {
    let mut program = calling(Inline::Never);
    let before = program.clone();
    let gaps = tasks::run(&mut program);
    assert!(gaps.is_empty());
    assert_eq!(program, before);
}

fn completion() -> Ty {
    Ty::Builtin {
        kind: Builtin::Result,
        args: vec![Ty::integer(), Ty::Dynamic],
    }
}

fn working(result: Ty, addressed: bool) -> Program {
    let mut program = Program::default();
    let mut work = Function::new("work".to_owned(), Vec::new(), result.clone(), SPAN);
    work.asynchronous = true;
    if addressed {
        work.add_slot(Ty::integer());
    }
    let one = emit(&mut work, InstKind::Const(Const::Int(1)), Ty::integer());
    let done = emit(
        &mut work,
        InstKind::MakeEnum {
            ty: result.clone(),
            variant: 0,
            payload: vec![one],
        },
        result,
    );
    let entry = work.entry;
    work.end_block(entry, Terminator::Return(done));
    program.add_function(work);
    program
}

#[test]
fn an_asynchronous_function_becomes_a_task() {
    let mut program = working(completion(), false);
    let gaps = tasks::run(&mut program);
    assert!(gaps.is_empty());
    // The runtime has ten functions, and the work is polled by one of its own.
    assert_eq!(program.functions().len(), 12);
    assert!(matches!(
        program.function(FuncId(0)).result,
        Ty::Builtin {
            kind: Builtin::Task,
            ..
        }
    ));
}

#[test]
fn a_task_is_built_with_a_value_for_each_of_its_fields() {
    let mut program = working(completion(), false);
    tasks::run(&mut program);
    let stub = program.function(FuncId(0));
    let built = stub
        .block(stub.entry)
        .insts
        .iter()
        .find_map(|inst| match &inst.kind {
            InstKind::MakeStruct { ty, fields, .. } if *ty == stub.result => Some(fields),
            _ => None,
        })
        .expect("a task is built");
    let types: Vec<Ty> = built.iter().map(|field| stub.type_of(*field).clone()).collect();
    let Ty::Builtin { args, .. } = &stub.result else {
        panic!("a task is given back");
    };
    assert_eq!(types, tasks::task_fields(&args[0]));
}

#[test]
fn what_cannot_become_a_task_is_a_gap() {
    let gaps = tasks::run(&mut working(Ty::integer(), false));
    assert_eq!(gaps[0].what, "an async function without a completion");
    let gaps = tasks::run(&mut working(completion(), true));
    assert_eq!(gaps[0].what, "an async function taking a local's address");
}

#[test]
fn a_function_is_printed_block_by_block() {
    assert_eq!(
        print::function(&doubled()),
        "function double(i64) -> i64\n  block0(v0: i64):\n    v1: i64 = add v0 v0\n    return v1\n"
    );
}

#[test]
fn an_end_is_printed_with_where_it_goes() {
    assert_eq!(
        print::terminator(&Terminator::Jump(Target::new(
            BlockId(2),
            vec![Value(1), Value(3)]
        ))),
        "jump block2(v1, v3)"
    );
    assert_eq!(
        print::terminator(&Terminator::Trap(Trap::Unreachable)),
        "trap unreachable"
    );
}

#[test]
fn a_type_is_printed_field_by_field() {
    let point = Nominal {
        name: "Point".to_owned(),
        type_params: vec!["T".to_owned()],
        shape: Shape::Struct(Struct {
            fields: vec![Field {
                name: "x".to_owned(),
                ty: Ty::Parameter("T".to_owned()),
            }],
            reference: false,
            repr_c: false,
        }),
        span: SPAN,
    };
    let printed = print::nominal(&point);
    assert!(printed.starts_with("struct Point<T>"));
    assert!(printed.contains("    x: T\n"));
}

#[test]
fn the_last_finalizer_of_a_type_is_the_one_that_runs() {
    let mut program = Program::default();
    let first = program.add_function(doubled());
    let second = program.add_function(doubled());
    program.set_finalizer(Ty::integer(), first);
    program.set_finalizer(Ty::integer(), second);
    assert_eq!(program.finalizer(&Ty::integer()), Some(second));
    assert_eq!(program.finalizer(&Ty::Str), None);
}

#[test]
fn an_implementation_for_a_builtin_type_is_written_once() {
    let mut program = Program::default();
    let eq = program.add_type(Nominal {
        name: "std/prelude.Eq".to_owned(),
        type_params: Vec::new(),
        shape: Shape::Interface(Interface {
            methods: vec![Method {
                name: "eq".to_owned(),
                params: vec![Ty::integer()],
                result: Ty::Bool,
                throws: false,
                asynchronous: false,
            }],
            implementors: Vec::new(),
        }),
        span: SPAN,
    });
    let first = protocols::implementation(&mut program, eq, &Ty::integer());
    let count = program.functions().len();
    let second = protocols::implementation(&mut program, eq, &Ty::integer());
    assert_eq!(first, second);
    assert_eq!(program.functions().len(), count);
    assert_eq!(
        protocols::implementation(&mut program, eq, &Ty::Named {
            id: TypeId(9),
            args: Vec::new(),
        }),
        None
    );
}

#[test]
fn an_optional_filled_with_an_optional_is_that_optional() {
    let optional = Ty::Optional(Box::new(Ty::integer()));
    let pattern = Ty::Optional(Box::new(Ty::Parameter("T".to_owned())));
    let params = vec!["T".to_owned()];
    assert_eq!(pattern.substitute(&params, &vec![optional.clone()]), optional);
    assert_eq!(pattern.substitute(&params, &vec![Ty::integer()]), optional);
    // A parameter nothing fills stays.
    assert_eq!(pattern.substitute(&params, &Vec::new()), pattern);
}

#[test]
fn a_switch_names_its_cases_and_then_its_default() {
    let term = Terminator::Switch {
        value: Value(0),
        cases: vec![(0, Target::to(BlockId(1))), (1, Target::to(BlockId(2)))],
        default: Target::to(BlockId(3)),
    };
    let blocks: Vec<u32> = term.targets().iter().map(|target| target.block.0).collect();
    assert_eq!(blocks, vec![1, 2, 3]);
}

#[test]
fn what_inference_knew_it_keeps() {
    let params = vec!["T".to_owned(), "U".to_owned()];
    let pattern = Ty::Tuple(vec![
        Ty::Parameter("U".to_owned()),
        Ty::Parameter("T".to_owned()),
    ]);
    let mut known = vec![Some(Ty::Bool), None];
    let concrete = Ty::Tuple(vec![Ty::Str, Ty::integer()]);
    assert_eq!(infer(&params, &pattern, &concrete, &mut known), None);
    assert_eq!(known[0], Some(Ty::Bool));
    let concrete = Ty::Tuple(vec![Ty::Str, Ty::Bool]);
    let mut known = vec![Some(Ty::Bool), None];
    assert_eq!(infer(&params, &pattern, &concrete, &mut known), Some(()));
    assert_eq!(known, vec![Some(Ty::Bool), Some(Ty::Str)]);
}

#[test]
fn a_cell_is_matched_whole() {
    let params = vec!["T".to_owned()];
    let cell = |held: Ty| Ty::Cell(Box::new(held));
    let mut known = vec![None];
    let counted = cell(Ty::integer());
    assert_eq!(infer(&params, &counted, &counted, &mut known), Some(()));
    let pattern = cell(Ty::Parameter("T".to_owned()));
    assert_eq!(infer(&params, &pattern, &counted, &mut known), None);
    assert_eq!(known, vec![None]);
}

#[test]
fn an_operand_the_function_lacks_is_still_printed() {
    let function = Function::new("f".to_owned(), Vec::new(), Ty::Unit, SPAN);
    let inst = Inst {
        result: None,
        kind: InstKind::Print { value: Value(7) },
        span: SPAN,
    };
    assert!(print::instruction(&inst, &function).ends_with("v7"));
}

#[test]
fn nil_inhabits_what_may_be_nothing() {
    assert!(Ty::Nil.is_optional());
    assert!(Ty::Dynamic.is_optional());
    assert!(Ty::Optional(Box::new(Ty::Bool)).is_optional());
    assert!(Ty::Union(vec![Ty::Bool, Ty::Nil]).is_optional());
    assert!(!Ty::Union(vec![Ty::Bool, Ty::Str]).is_optional());
    assert!(!Ty::Bool.is_optional());
    assert!(!Ty::Parameter("T".to_owned()).is_optional());
}

#[test]
fn what_may_be_nothing_already_stays_as_it_is() {
    let may = Ty::Optional(Box::new(Ty::Bool));
    assert_eq!(Ty::Bool.optional(), may);
    assert_eq!(may.clone().optional(), may);
}
