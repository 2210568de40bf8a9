//! Deciding where values live.

use luar_lir::escape::run;
use luar_lir::inst::{Allocation, Const, Inst, InstKind, Terminator, Value};
use luar_lir::program::{BlockId, Field, FuncId, Function, Nominal, Program, Shape, Struct};
use luar_lir::span::{FileId, Span};
use luar_lir::ty::Ty;

const SPAN: Span = Span {
    file: FileId(0),
    start: 0,
    end: 0,
};

#[test]
fn read_only_literal_uses_registers() {
    let (mut program, function, value) = fixture(false);
    read(&mut program, function, value);
    finish(&mut program, function);
    run(&mut program);
    assert_eq!(placed(&program, function, value), Allocation::Registers);
}

#[test]
fn mutable_literal_uses_the_stack() {
    let (mut program, function, value) = fixture(false);
    let one = constant(&mut program, function);
    program
        .function_mut(function)
        .block_mut(BlockId(0))
        .insts
        .push(Inst {
            result: None,
            kind: InstKind::SetField {
                object: value,
                field: 0,
                value: one,
            },
            span: SPAN,
        });
    finish(&mut program, function);
    run(&mut program);
    assert_eq!(placed(&program, function, value), Allocation::Stack);
}

#[test]
fn returned_literal_stays_managed() {
    let (mut program, function, value) = fixture(false);
    program
        .function_mut(function)
        .block_mut(BlockId(0))
        .term = Some(Terminator::Return(value));
    run(&mut program);
    assert_eq!(placed(&program, function, value), Allocation::Managed);
}

#[test]
fn local_copy_and_its_source_use_the_stack() {
    let (mut program, function, value) = fixture(false);
    let ty = program.function(function).type_of(value).clone();
    let copied = {
        let function = program.function_mut(function);
        let copied = function.add_value(ty);
        function.block_mut(function.entry).insts.push(Inst {
            result: Some(copied),
            kind: InstKind::CopyValue {
                value,
                allocation: Allocation::Managed,
            },
            span: SPAN,
        });
        copied
    };
    read(&mut program, function, copied);
    finish(&mut program, function);
    run(&mut program);
    assert_eq!(placed(&program, function, value), Allocation::Stack);
    assert_eq!(placed(&program, function, copied), Allocation::Stack);
}

#[test]
fn reference_struct_stays_managed() {
    let (mut program, function, value) = fixture(true);
    read(&mut program, function, value);
    finish(&mut program, function);
    run(&mut program);
    assert_eq!(placed(&program, function, value), Allocation::Managed);
}

fn fixture(reference: bool) -> (Program, FuncId, Value) {
    let mut program = Program::default();
    let id = program.add_type(Nominal {
        name: "Point".to_owned(),
        type_params: Vec::new(),
        shape: Shape::Struct(Struct {
            fields: vec![Field {
                name: "x".to_owned(),
                ty: Ty::integer(),
            }],
            reference,
            repr_c: false,
        }),
        span: SPAN,
    });
    let ty = Ty::Named {
        id,
        args: Vec::new(),
    };
    let mut function = Function::new("main".to_owned(), Vec::new(), Ty::Unit, SPAN);
    let entry = function.entry;
    let field = function.add_value(Ty::integer());
    function.block_mut(entry).insts.push(Inst {
        result: Some(field),
        kind: InstKind::Const(Const::Int(1)),
        span: SPAN,
    });
    let value = function.add_value(ty.clone());
    function.block_mut(entry).insts.push(Inst {
        result: Some(value),
        kind: InstKind::MakeStruct {
            ty,
            fields: vec![field],
            allocation: Allocation::Managed,
        },
        span: SPAN,
    });
    let id = program.add_function(function);
    (program, id, value)
}

fn read(program: &mut Program, function: FuncId, value: Value) {
    let function = program.function_mut(function);
    let read = function.add_value(Ty::integer());
    function.block_mut(function.entry).insts.push(Inst {
        result: Some(read),
        kind: InstKind::GetField {
            object: value,
            field: 0,
        },
        span: SPAN,
    });
}

fn constant(program: &mut Program, function: FuncId) -> Value {
    let function = program.function_mut(function);
    let value = function.add_value(Ty::integer());
    function.block_mut(function.entry).insts.push(Inst {
        result: Some(value),
        kind: InstKind::Const(Const::Int(1)),
        span: SPAN,
    });
    value
}

fn finish(program: &mut Program, function: FuncId) {
    let function = program.function_mut(function);
    let unit = function.add_value(Ty::Unit);
    function.block_mut(function.entry).insts.push(Inst {
        result: Some(unit),
        kind: InstKind::Const(Const::Unit),
        span: SPAN,
    });
    function.block_mut(function.entry).term = Some(Terminator::Return(unit));
}

fn placed(program: &Program, function: FuncId, value: Value) -> Allocation {
    program
        .function(function)
        .blocks()
        .into_iter()
        .flat_map(|(_, block)| &block.insts)
        .find_map(|inst| {
            (inst.result == Some(value)).then_some(match inst.kind {
                InstKind::MakeStruct { allocation, .. }
                | InstKind::CopyValue { allocation, .. } => allocation,
                _ => Allocation::Managed,
            })
        })
        .expect("the allocation")
}
