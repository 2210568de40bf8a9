//! Lowering checked modules.

pub mod bodies;
pub mod body;
pub mod declare;
pub mod declared;
pub mod flat;
pub mod names;
pub mod order;
pub mod shells;
pub mod sound;
pub mod state;
pub mod throws;
pub mod types;

use vstd::prelude::*;

use crate::program::{views, Program, ProgramView};
use crate::span::Span;

pub use bodies::{lower, lower_in_mode};

verus! {

/// Whether debug-only source operations are included.
#[derive(Debug, Clone, Copy, PartialEq, Eq, Structural)]
pub enum CompilationMode {
    Debug,
    Release,
}

/// Something the lowering does not handle yet, and where it stands.
#[derive(Debug, PartialEq, Eq)]
pub struct Gap {
    pub span: Span,
    pub what: String,
}

/// A [`Gap`] with its text as a mathematical value.
pub struct GapView {
    pub span: Span,
    pub what: Seq<char>,
}

impl View for Gap {
    type V = GapView;

    open spec fn view(&self) -> GapView {
        GapView { span: self.span, what: self.what@ }
    }
}

/// A lowered program, and what lowering could not do to it.
#[derive(Debug)]
pub struct Lowered {
    pub program: Program,
    /// Empty for a program that lowered completely. Anything here means the
    /// program describes less than the source does.
    pub gaps: Vec<Gap>,
}

/// A [`Lowered`] with its contents as mathematical values.
pub struct LoweredView {
    pub program: ProgramView,
    pub gaps: Seq<GapView>,
}

impl View for Lowered {
    type V = LoweredView;

    open spec fn view(&self) -> LoweredView {
        LoweredView { program: self.program@, gaps: views(self.gaps@) }
    }
}

} // verus!
