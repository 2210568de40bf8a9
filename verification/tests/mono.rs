//! Filling type parameters in.

use luar_lir::inst::{Allocation, Const, Inst, InstKind, Terminator};
use luar_lir::mono::run;
use luar_lir::program::{FuncId, Function, Program};
use luar_lir::span::{FileId, Span};
use luar_lir::ty::{Ty, TypeId};

const SPAN: Span = Span {
    file: FileId(0),
    start: 0,
    end: 0,
};

/// A template `identity<T>(T) -> T`, and a caller of it.
fn program_with_two_calls() -> (Program, FuncId) {
    let mut program = Program::default();

    let mut template = Function::new(
        "identity".to_owned(),
        vec![Ty::Parameter("T".to_owned())],
        Ty::Parameter("T".to_owned()),
        SPAN,
    );
    template.type_params = vec!["T".to_owned()];
    let held = template.block(template.entry).params[0];
    template.block_mut(template.entry).term = Some(Terminator::Return(held));
    let identity = program.add_function(template);

    let mut caller = Function::new("main".to_owned(), Vec::new(), Ty::integer(), SPAN);
    let entry = caller.entry;
    let mut last = None;
    for (ty, args) in [
        (Ty::integer(), vec![Ty::integer()]),
        (Ty::Str, vec![Ty::Str]),
        (Ty::integer(), vec![Ty::integer()]),
    ] {
        let argument = caller.add_value(ty.clone());
        caller.block_mut(entry).insts.push(Inst {
            result: Some(argument),
            kind: InstKind::Const(Const::Int(1)),
            span: SPAN,
        });
        let result = caller.add_value(ty);
        caller.block_mut(entry).insts.push(Inst {
            result: Some(result),
            kind: InstKind::Call {
                callee: identity,
                type_args: args,
                args: vec![argument],
            },
            span: SPAN,
        });
        last = Some(result);
    }
    caller.block_mut(entry).term = Some(Terminator::Return(last.expect("three calls")));
    let main = program.add_function(caller);

    (program, main)
}

#[test]
fn one_instance_per_set_of_type_arguments() {
    let (mut program, main) = program_with_two_calls();
    run(&mut program);

    let reached: Vec<FuncId> = program
        .function(main)
        .blocks()
        .into_iter()
        .flat_map(|(_, block)| block.insts.iter())
        .filter_map(|inst| match &inst.kind {
            InstKind::Call { callee, .. } => Some(*callee),
            _ => None,
        })
        .collect();

    // Two calls asked for `int` and one for `string`, so there are two
    // instances and the two `int` calls share one.
    assert_eq!(reached[0], reached[2]);
    assert_ne!(reached[0], reached[1]);
    assert_eq!(program.functions().len(), 4);
}

#[test]
fn an_instance_has_its_parameters_filled_in() {
    let (mut program, main) = program_with_two_calls();
    run(&mut program);

    let first = program
        .function(main)
        .blocks()
        .into_iter()
        .flat_map(|(_, block)| block.insts.iter())
        .find_map(|inst| match &inst.kind {
            InstKind::Call { callee, .. } => Some(*callee),
            _ => None,
        })
        .expect("a call");

    let instance = program.function(first);
    assert!(!instance.is_template());
    assert_eq!(instance.params, [Ty::integer()]);
    assert_eq!(instance.result, Ty::integer());
    assert_eq!(
        instance.type_of(instance.block(instance.entry).params[0]),
        &Ty::integer()
    );
}

#[test]
fn no_call_carries_type_arguments_afterwards() {
    let (mut program, _) = program_with_two_calls();
    run(&mut program);

    let carried = program
        .functions()
        .into_iter()
        .filter(|(_, function)| !function.is_template())
        .flat_map(|(_, function)| {
            function
                .blocks()
                .into_iter()
                .flat_map(|(_, block)| block.insts.iter())
                .filter_map(|inst| match &inst.kind {
                    InstKind::Call { type_args, .. } => Some(type_args.len()),
                    _ => None,
                })
                .collect::<Vec<_>>()
        })
        .sum::<usize>();

    assert_eq!(carried, 0);
}

#[test]
fn a_generic_finalizer_gets_an_instance_for_its_receiver() {
    let mut program = Program::default();
    let generic = Ty::Named {
        id: TypeId(0),
        args: vec![Ty::Parameter("T".to_owned())],
    };
    let mut finalizer = Function::new(
        "Box.release".to_owned(),
        vec![generic.clone()],
        Ty::Unit,
        SPAN,
    );
    finalizer.type_params = vec!["T".to_owned()];
    let unit = finalizer.add_value(Ty::Unit);
    finalizer.block_mut(finalizer.entry).insts.push(Inst {
        result: Some(unit),
        kind: InstKind::Const(Const::Unit),
        span: SPAN,
    });
    finalizer.block_mut(finalizer.entry).term = Some(Terminator::Return(unit));
    let finalizer = program.add_function(finalizer);
    program.set_finalizer(generic, finalizer);

    let receiver = Ty::Named {
        id: TypeId(0),
        args: vec![Ty::integer()],
    };
    let mut main = Function::new("main".to_owned(), Vec::new(), Ty::Unit, SPAN);
    let value = main.add_value(receiver.clone());
    main.block_mut(main.entry).insts.push(Inst {
        result: Some(value),
        kind: InstKind::MakeStruct {
            ty: receiver.clone(),
            fields: Vec::new(),
            allocation: Allocation::Managed,
        },
        span: SPAN,
    });
    let unit = main.add_value(Ty::Unit);
    main.block_mut(main.entry).insts.push(Inst {
        result: Some(unit),
        kind: InstKind::Const(Const::Unit),
        span: SPAN,
    });
    main.block_mut(main.entry).term = Some(Terminator::Return(unit));
    program.add_function(main);

    run(&mut program);

    let instance = program.finalizer(&receiver).expect("a finalizer instance");
    assert!(!program.function(instance).is_template());
    assert_eq!(program.function(instance).params, [receiver]);
}
