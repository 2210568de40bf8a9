//! LIR: typed SSA with block parameters.

pub mod ast;
pub mod bounds;
pub mod deferred;
pub mod devirt;
pub mod escape;
pub mod inline;
pub mod inst;
pub mod laws;
pub mod lower;
pub mod mono;
pub mod print;
pub mod program;
pub mod protocols;
pub mod sema;
pub mod span;
pub mod tasks;
pub mod text;
pub mod ty;

pub use inst::{
    BinaryOp, Const, Effect, Inst, InstKind, MethodId, Target, Terminator, Trap, UnaryOp, Value,
};
pub use program::{
    Block, BlockId, Enum, Field, FuncId, Function, Implementation, Inline, Interface, Method,
    Nominal, Program, Shape, SlotId, Struct, Variant,
};
pub use ty::{Builtin, FloatTy, IntTy, Ty, TypeId};
