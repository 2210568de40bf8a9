//! Calling the one implementation an interface has.

use luar_lir::devirt::run;
use luar_lir::inst::{Allocation, Const, Inst, InstKind, MethodId, Terminator};
use luar_lir::mono;
use luar_lir::program::{
    FuncId, Function, Implementation, Interface, Method, Nominal, Program, Shape, Struct,
};
use luar_lir::span::{FileId, Span};
use luar_lir::ty::{Ty, TypeId};

const SPAN: Span = Span {
    file: FileId(0),
    start: 0,
    end: 0,
};

/// An interface with one method, `count` types implementing it, and a
/// function calling it through the interface.
fn program_with(count: usize) -> (Program, FuncId, TypeId) {
    let mut program = Program::default();

    let interface = program.add_type(Nominal {
        name: "Sized".to_owned(),
        type_params: Vec::new(),
        shape: Shape::Interface(Interface {
            methods: vec![Method {
                name: "size".to_owned(),
                params: Vec::new(),
                result: Ty::integer(),
                throws: false,
                asynchronous: false,
            }],
            implementors: Vec::new(),
        }),
        span: SPAN,
    });

    let mut implementors = Vec::new();
    for which in 0..count {
        let ty = program.add_type(Nominal {
            name: format!("Small{which}"),
            type_params: Vec::new(),
            shape: Shape::Struct(Struct {
                fields: Vec::new(),
                reference: false,
                repr_c: false,
            }),
            span: SPAN,
        });
        let receiver = Ty::Named {
            id: ty,
            args: Vec::new(),
        };
        let mut size =
            Function::new(format!("Small{which}.size"), vec![receiver], Ty::integer(), SPAN);
        let held = size.block(size.entry).params[0];
        size.block_mut(size.entry).term = Some(Terminator::Return(held));
        let size = program.add_function(size);
        implementors.push(Implementation {
            ty: Ty::Named {
                id: ty,
                args: Vec::new(),
            },
            methods: vec![size],
        });
    }

    if let Shape::Interface(held) = &mut program.nominal_mut(interface).shape {
        held.implementors = implementors;
    }

    let seen = Ty::Named {
        id: interface,
        args: Vec::new(),
    };
    let mut caller = Function::new("measure".to_owned(), vec![seen], Ty::integer(), SPAN);
    let entry = caller.entry;
    let receiver = caller.block(entry).params[0];
    let result = caller.add_value(Ty::integer());
    caller.block_mut(entry).insts.push(Inst {
        result: Some(result),
        kind: InstKind::CallVirtual {
            method: MethodId { interface, slot: 0 },
            receiver,
            args: Vec::new(),
        },
        span: SPAN,
    });
    caller.block_mut(entry).term = Some(Terminator::Return(result));
    let measure = program.add_function(caller);

    (program, measure, interface)
}

fn kinds(program: &Program, id: FuncId) -> Vec<&'static str> {
    program
        .function(id)
        .blocks()
        .into_iter()
        .flat_map(|(_, block)| block.insts.iter())
        .map(|inst| match &inst.kind {
            InstKind::CallVirtual { .. } => "virtual",
            InstKind::Call { .. } => "direct",
            InstKind::DynValue { .. } => "open",
            _ => "other",
        })
        .collect()
}

#[test]
fn one_implementation_makes_the_call_direct() {
    let (mut program, measure, _) = program_with(1);
    run(&mut program);
    assert_eq!(kinds(&program, measure), ["open", "direct"]);
}

#[test]
fn the_direct_call_reaches_the_one_implementation() {
    let (mut program, measure, interface) = program_with(1);
    let Shape::Interface(held) = &program.nominal(interface).shape else {
        panic!("an interface");
    };
    let only = held.implementors[0].methods[0];

    run(&mut program);

    let reached = program
        .function(measure)
        .blocks()
        .into_iter()
        .flat_map(|(_, block)| block.insts.iter())
        .find_map(|inst| match &inst.kind {
            InstKind::Call { callee, .. } => Some(*callee),
            _ => None,
        });
    assert_eq!(reached, Some(only));
}

#[test]
fn two_implementations_leave_the_call_dispatching() {
    let (mut program, measure, _) = program_with(2);
    run(&mut program);
    assert_eq!(kinds(&program, measure), ["virtual"]);
}

#[test]
fn an_interface_nothing_implements_leaves_the_call_alone() {
    let (mut program, measure, _) = program_with(0);
    run(&mut program);
    assert_eq!(kinds(&program, measure), ["virtual"]);
}

#[test]
fn a_resolved_interface_value_needs_no_method_table() {
    let (mut program, _, interface) = program_with(1);
    let Shape::Interface(held) = &program.nominal(interface).shape else {
        unreachable!()
    };
    let concrete = held.implementors[0].ty.clone();
    let mut caller = Function::new("box".to_owned(), Vec::new(), Ty::Unit, SPAN);
    let value = caller.add_value(concrete.clone());
    caller.block_mut(caller.entry).insts.push(Inst {
        result: Some(value),
        kind: InstKind::MakeStruct {
            ty: concrete,
            fields: Vec::new(),
            allocation: Allocation::Managed,
        },
        span: SPAN,
    });
    let boxed = caller.add_value(Ty::Named {
        id: interface,
        args: Vec::new(),
    });
    caller.block_mut(caller.entry).insts.push(Inst {
        result: Some(boxed),
        kind: InstKind::MakeDyn {
            interface: Some(interface),
            value,
        },
        span: SPAN,
    });
    let unit = caller.add_value(Ty::Unit);
    caller.block_mut(caller.entry).insts.push(Inst {
        result: Some(unit),
        kind: InstKind::Const(Const::Unit),
        span: SPAN,
    });
    caller.block_mut(caller.entry).term = Some(Terminator::Return(unit));
    let caller = program.add_function(caller);

    run(&mut program);

    let interface = program
        .function(caller)
        .block(program.function(caller).entry)
        .insts
        .iter()
        .find_map(|inst| match inst.kind {
            InstKind::MakeDyn { interface, .. } => Some(interface),
            _ => None,
        });
    assert_eq!(interface, Some(None));
}

#[test]
fn a_generic_implementation_is_instantiated() {
    let mut program = Program::default();
    let interface = program.add_type(Nominal {
        name: "Source".to_owned(),
        type_params: vec!["T".to_owned()],
        shape: Shape::Interface(Interface {
            methods: vec![Method {
                name: "take".to_owned(),
                params: Vec::new(),
                result: Ty::Parameter("T".to_owned()),
                throws: false,
                asynchronous: false,
            }],
            implementors: Vec::new(),
        }),
        span: SPAN,
    });
    let holder = program.add_type(Nominal {
        name: "Holder".to_owned(),
        type_params: vec!["U".to_owned()],
        shape: Shape::Struct(Struct {
            fields: Vec::new(),
            reference: false,
            repr_c: false,
        }),
        span: SPAN,
    });
    let generic_holder = Ty::Named {
        id: holder,
        args: vec![Ty::Parameter("U".to_owned())],
    };
    let mut take = Function::new(
        "Holder.take".to_owned(),
        vec![generic_holder],
        Ty::Parameter("U".to_owned()),
        SPAN,
    );
    take.type_params = vec!["U".to_owned()];
    let returned = take.block(take.entry).params[0];
    take.block_mut(take.entry).term = Some(Terminator::Return(returned));
    let take = program.add_function(take);
    let Shape::Interface(held) = &mut program.nominal_mut(interface).shape else {
        unreachable!()
    };
    held.implementors.push(Implementation {
        ty: Ty::Named {
            id: holder,
            args: Vec::new(),
        },
        methods: vec![take],
    });

    let seen = Ty::Named {
        id: interface,
        args: vec![Ty::integer()],
    };
    let mut caller = Function::new("read".to_owned(), vec![seen], Ty::integer(), SPAN);
    let receiver = caller.block(caller.entry).params[0];
    let result = caller.add_value(Ty::integer());
    caller.block_mut(caller.entry).insts.push(Inst {
        result: Some(result),
        kind: InstKind::CallVirtual {
            method: MethodId { interface, slot: 0 },
            receiver,
            args: Vec::new(),
        },
        span: SPAN,
    });
    caller.block_mut(caller.entry).term = Some(Terminator::Return(result));
    let caller = program.add_function(caller);

    run(&mut program);
    mono::run(&mut program);

    let reached = program
        .function(caller)
        .block(program.function(caller).entry)
        .insts
        .iter()
        .find_map(|inst| match inst.kind {
            InstKind::Call { callee, .. } => Some(callee),
            _ => None,
        })
        .expect("a direct call");
    assert!(!program.function(reached).is_template());
    assert_eq!(
        program.function(reached).params,
        [Ty::Named {
            id: holder,
            args: vec![Ty::integer()]
        }]
    );
}
