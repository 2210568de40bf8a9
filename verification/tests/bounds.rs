//! Removing index checks.

use luar_lir::bounds::eliminate;
use luar_lir::inst::{BinaryOp, Const, Inst, InstKind, Target, Terminator, Value};
use luar_lir::program::{BlockId, Function};
use luar_lir::span::{FileId, Span};
use luar_lir::ty::{Builtin, IntTy, Ty};

const SPAN: Span = Span {
    file: FileId(0),
    start: 0,
    end: 0,
};

#[test]
fn ascending_length_bound_removes_the_check() {
    let mut function = loop_function(0, false);
    eliminate(&mut function);
    assert!(has_unchecked_access(&function));
}

#[test]
fn negative_start_keeps_the_check() {
    let mut function = loop_function(u64::MAX, false);
    eliminate(&mut function);
    assert!(!has_unchecked_access(&function));
}

#[test]
fn a_negative_start_of_a_narrow_type_keeps_the_check() {
    // As an `i8`, 255 is one below zero.
    let mut function = loop_function_of(Ty::Int(IntTy::I8), 255, false);
    eliminate(&mut function);
    assert!(!has_unchecked_access(&function));
    let mut function = loop_function_of(Ty::Int(IntTy::I8), 127, false);
    eliminate(&mut function);
    assert!(has_unchecked_access(&function));
}

#[test]
fn an_index_that_the_caller_passes_keeps_the_check() {
    let mut function = loop_function(0, false);
    function.entry = BlockId(1);
    eliminate(&mut function);
    assert!(!has_unchecked_access(&function));
}

#[test]
fn mutation_before_the_access_keeps_the_check() {
    let mut function = loop_function(0, true);
    eliminate(&mut function);
    assert!(!has_unchecked_access(&function));
}

#[test]
fn another_way_into_the_body_keeps_the_check() {
    let mut function = loop_function(0, false);
    // The block the loop leaves to goes back into the body.
    function.block_mut(BlockId(3)).term = Some(Terminator::Jump(Target::to(BlockId(2))));
    eliminate(&mut function);
    assert!(!has_unchecked_access(&function));
}

#[test]
fn a_change_after_the_length_is_read_keeps_the_check() {
    let mut function = loop_function(0, false);
    let receiver = function.block(function.entry).params[0];
    emit(
        &mut function,
        BlockId(1),
        InstKind::ListPop { receiver },
        Ty::Optional(Box::new(Ty::integer())),
    );
    eliminate(&mut function);
    assert!(!has_unchecked_access(&function));
}

#[test]
fn a_length_read_before_the_loop_removes_the_check() {
    let mut function = length_read_first();
    eliminate(&mut function);
    assert!(has_unchecked_access(&function));
}

#[test]
fn a_length_read_before_a_loop_that_changes_the_list_keeps_the_check() {
    let mut function = length_read_first();
    let receiver = function.block(function.entry).params[0];
    // The list is changed once it was read, and the length is that of before.
    emit(
        &mut function,
        BlockId(2),
        InstKind::ListPop { receiver },
        Ty::Optional(Box::new(Ty::integer())),
    );
    eliminate(&mut function);
    assert!(!has_unchecked_access(&function));
}

#[test]
fn a_loop_that_only_prints_changes_no_list() {
    let mut function = length_read_first();
    let receiver = function.block(function.entry).params[0];
    function.block_mut(BlockId(2)).insts.push(Inst {
        result: None,
        kind: InstKind::Print { value: receiver },
        span: SPAN,
    });
    eliminate(&mut function);
    assert!(has_unchecked_access(&function));
}

#[test]
fn a_way_round_the_read_keeps_the_check() {
    let mut function = length_read_first();
    // The function is entered in a block that goes to the loop without reading
    // the length.
    let start = function.add_block();
    let first = emit(
        &mut function,
        start,
        InstKind::Const(Const::Int(0)),
        Ty::integer(),
    );
    function.block_mut(start).term = Some(Terminator::Jump(Target::new(BlockId(1), vec![first])));
    function.entry = start;
    eliminate(&mut function);
    assert!(!has_unchecked_access(&function));
}

/// The loop with the length read where the function is entered, once for every
/// pass.
fn length_read_first() -> Function {
    let mut function = loop_function(0, false);
    let read = function.block_mut(BlockId(1)).insts.remove(0);
    let entry = function.entry;
    function.block_mut(entry).insts.push(read);
    function
}

fn has_unchecked_access(function: &Function) -> bool {
    function.blocks().iter().any(|(_, block)| {
        block
            .insts
            .iter()
            .any(|inst| matches!(inst.kind, InstKind::GetUncheckedIndex { .. }))
    })
}

fn loop_function(first: u64, mutate: bool) -> Function {
    loop_function_of(Ty::integer(), first, mutate)
}

fn loop_function_of(counted: Ty, first: u64, mutate: bool) -> Function {
    let list = Ty::Builtin {
        kind: Builtin::List,
        args: vec![Ty::integer()],
    };
    let mut function = Function::new("read".to_owned(), vec![list], Ty::Unit, SPAN);
    let entry = function.entry;
    let receiver = function.block(entry).params[0];
    let header = function.add_block();
    let body = function.add_block();
    let exit = function.add_block();

    let initial = emit(
        &mut function,
        entry,
        InstKind::Const(Const::Int(first)),
        counted.clone(),
    );
    function.block_mut(entry).term = Some(Terminator::Jump(Target::new(header, vec![initial])));

    let index = function.add_block_param(header, counted.clone());
    let length = emit(
        &mut function,
        header,
        InstKind::Length { receiver },
        counted.clone(),
    );
    let condition = emit(
        &mut function,
        header,
        InstKind::Binary {
            op: BinaryOp::Less,
            left: index,
            right: length,
        },
        Ty::Bool,
    );
    function.block_mut(header).term = Some(Terminator::Branch {
        condition,
        then: Target::to(body),
        otherwise: Target::to(exit),
    });

    if mutate {
        emit(
            &mut function,
            body,
            InstKind::ListPop { receiver },
            Ty::Optional(Box::new(Ty::integer())),
        );
    }
    emit(
        &mut function,
        body,
        InstKind::GetIndex { receiver, index },
        Ty::integer(),
    );
    let one = emit(&mut function, body, InstKind::Const(Const::Int(1)), counted.clone());
    let next = emit(
        &mut function,
        body,
        InstKind::Binary {
            op: BinaryOp::Add,
            left: index,
            right: one,
        },
        counted,
    );
    function.block_mut(body).term = Some(Terminator::Jump(Target::new(header, vec![next])));

    let unit = emit(&mut function, exit, InstKind::Const(Const::Unit), Ty::Unit);
    function.block_mut(exit).term = Some(Terminator::Return(unit));
    function
}

fn emit(function: &mut Function, block: BlockId, kind: InstKind, ty: Ty) -> Value {
    let value = function.add_value(ty);
    function.block_mut(block).insts.push(Inst {
        result: Some(value),
        kind,
        span: SPAN,
    });
    value
}
