//! Lowering the bodies of everything a program declares.

use vstd::prelude::*;

use crate::program::{views, FuncId, Function, FunctionView, Program, ProgramView};
use crate::sema::{Decl, Entry, Facts, Graph, ModuleId, Overloads, Table};
use crate::span::Span;
use crate::text::{names, same_text};
use crate::ty::TypeId;

use super::body::deeper::deeper;
use super::body::kinds::{index_id, index_id_view};
use super::body::{made_views, Body, BodyView, Context, ContextView};
use super::declared::{
    declarations, declarations_in, initialization_order, initialization_order_view, overloads,
    overloads_from, Found,
};
use super::names::{assigned, in_block_view, Seeking};
use super::state::{Derived, Lowering, LoweringView, Pending, PendingView};
use super::throws::{escaping, escaping_view, written_views, InterfaceName, Written};
use super::{CompilationMode, Gap, GapView, Lowered, LoweredView};

verus! {

/// The declarations with bodies among the first `count`.
pub open spec fn bodies_among(found: Seq<Found>, count: nat) -> Seq<(Span, crate::ast::Block)>
    decreases count,
{
    if count == 0 {
        Seq::empty()
    } else {
        let earlier = bodies_among(found, (count - 1) as nat);
        match found[count - 1].function.body {
            Some(body) => earlier.push((found[count - 1].function.span, body)),
            None => earlier,
        }
    }
}

fn written_among<'a>(found: &Vec<Found<'a>>) -> (written: Vec<Written<'a>>)
    ensures
        written_views(written@) == bodies_among(found@, found@.len()),
{
    let mut written: Vec<Written<'a>> = Vec::new();
    assert(written_views(written@) =~= Seq::empty());
    let mut i: usize = 0;
    while i < found.len()
        invariant
            i <= found.len(),
            written_views(written@) == bodies_among(found@, i as nat),
        decreases found.len() - i,
    {
        let function = found[i].function;
        match &function.body {
            Some(body) => {
                let ghost before = written@;
                written.push(Written { span: function.span, body });
                assert(written_views(written@) =~= written_views(before).push(
                    (function.span, *body),
                ));
            },
            None => {},
        }
        i += 1;
    }
    written
}

/// The interfaces among the first `count` declarations.
pub open spec fn interfaces_among<'a>(entries: Seq<Entry>, count: nat) -> Seq<InterfaceName<'a>>
    decreases count,
{
    if count == 0 {
        Seq::empty()
    } else {
        let earlier = interfaces_among(entries, (count - 1) as nat);
        match entries[count - 1].decl {
            Decl::Interface(_) => earlier.push(
                InterfaceName { module: entries[count - 1].module, name: &entries[count - 1].name },
            ),
            _ => earlier,
        }
    }
}

fn interfaces_of<'a>(entries: &'a Vec<Entry>) -> (found: Vec<InterfaceName<'a>>)
    ensures
        found@ == interfaces_among(entries@, entries@.len()),
{
    let mut found: Vec<InterfaceName<'a>> = Vec::new();
    let mut i: usize = 0;
    while i < entries.len()
        invariant
            i <= entries.len(),
            found@ == interfaces_among(entries@, i as nat),
        decreases entries.len() - i,
    {
        match &entries[i].decl {
            Decl::Interface(_) => {
                found.push(InterfaceName { module: entries[i].module, name: &entries[i].name });
            },
            _ => {},
        }
        i += 1;
    }
    found
}

/// The methods a struct or an enum has.
pub open spec fn methods_of_view(decl: Decl) -> Seq<Overloads> {
    match decl {
        Decl::Struct(held) => held.methods@,
        Decl::Enum(held) => held.methods@,
        _ => Seq::empty(),
    }
}

/// The first signature of a method.
pub open spec fn first_signature_view(decl: Decl, member: Seq<char>) -> Option<Span> {
    match overloads_from(methods_of_view(decl), member, 0) {
        Some(held) => if held.signatures@.len() > 0 {
            Some(held.signatures@[0].span)
        } else {
            None
        },
        None => None,
    }
}

fn first_signature(decl: &Decl, member: &str) -> (found: Option<Span>)
    ensures
        found == first_signature_view(*decl, member@),
{
    let held = match decl {
        Decl::Struct(held) => overloads(&held.methods, member),
        Decl::Enum(held) => overloads(&held.methods, member),
        _ => {
            assert(overloads_from(Seq::empty(), member@, 0) is None);
            return None;
        },
    };
    match held {
        Some(held) => if held.signatures.len() > 0 {
            Some(held.signatures[0].span)
        } else {
            None
        },
        None => None,
    }
}

/// What lowering several bodies makes: what each function becomes, the closures
/// built on the way, and what could not be done.
pub struct Bodies {
    pub built: Vec<(FuncId, Function)>,
    pub made: Vec<(FuncId, Function)>,
    pub gaps: Vec<Gap>,
    pub next: u32,
}

/// A [`Bodies`] with its contents as mathematical values.
pub struct BodiesView {
    pub built: Seq<(FuncId, FunctionView)>,
    pub made: Seq<(FuncId, FunctionView)>,
    pub gaps: Seq<GapView>,
    pub next: u32,
}

impl View for Bodies {
    type V = BodiesView;

    open spec fn view(&self) -> BodiesView {
        BodiesView {
            built: made_views(self.built@),
            made: made_views(self.made@),
            gaps: views(self.gaps@),
            next: self.next,
        }
    }
}

/// One body lowered.
#[verifier::opaque]
pub open spec fn body_lowered<'a>(
    context: ContextView<'a>,
    pending: PendingView<'a>,
    next: u32,
) -> BodyView<'a> {
    BodyView::fresh(
        ContextView { module: pending.module, ..context },
        context.program.function(pending.id),
        pending.throws,
        in_block_view(*pending.body, Seeking::Assigned),
        next,
    ).lower_block(pending.bindings, *pending.body, deeper(u32::MAX as nat))
}

/// The first `count` of several bodies lowered. A closure is a function nothing
/// declared, so it takes an id after every declaration has one.
pub open spec fn bodies_lowered<'a>(
    context: ContextView<'a>,
    pending: Seq<PendingView<'a>>,
    next: u32,
    count: nat,
) -> BodiesView
    decreases count,
{
    if count == 0 {
        BodiesView { built: Seq::empty(), made: Seq::empty(), gaps: Seq::empty(), next }
    } else {
        let earlier = bodies_lowered(context, pending, next, (count - 1) as nat);
        let held = pending[count - 1];
        if held.id.0 < context.program.functions.len() {
            let body = body_lowered(context, held, earlier.next);
            BodiesView {
                built: earlier.built.push((held.id, body.function)),
                made: earlier.made + body.made,
                gaps: earlier.gaps + body.gaps,
                next: body.next_function,
            }
        } else {
            earlier
        }
    }
}

fn lower_one<'a>(context: Context<'a>, pending: &Pending<'a>, next: u32) -> (body: Body<'a>)
    requires
        pending.id.0 < context.program@.functions.len(),
    ensures
        body@ == body_lowered(context@, pending@, next),
{
    proof {
        reveal(body_lowered);
    }
    let mut mutated: Vec<String> = Vec::new();
    assert(names(mutated@) =~= Seq::empty());
    assigned(pending.body, &mut mutated);
    let shell = context.program.function(pending.id).clone();
    let within = Context { module: pending.module, ..context };
    let mut body = Body::new(within, shell, pending.throws, mutated, next);
    body.lower_block(&pending.bindings, pending.body, u32::MAX);
    body
}

fn lower_each<'a>(context: Context<'a>, pending: &Vec<Pending<'a>>, next: u32) -> (bodies: Bodies)
    ensures
        bodies@ == bodies_lowered(context@, views(pending@), next, pending@.len()),
{
    let mut bodies = Bodies { built: Vec::new(), made: Vec::new(), gaps: Vec::new(), next };
    assert(bodies@.built =~= Seq::empty());
    assert(bodies@.made =~= Seq::empty());
    assert(bodies@.gaps =~= Seq::empty());
    let mut i: usize = 0;
    while i < pending.len()
        invariant
            i <= pending.len(),
            bodies@ == bodies_lowered(context@, views(pending@), next, i as nat),
        decreases pending.len() - i,
    {
        let held = &pending[i];
        if (held.id.0 as usize) < context.program.functions.len() {
            let ghost before = bodies@;
            let body = lower_one(context, held, bodies.next);
            let ghost lowered = body@;
            let ghost built = bodies.built@;
            let ghost made = bodies.made@;
            let ghost gaps = bodies.gaps@;
            let mut more = body.made;
            let ghost more_made = more@;
            let mut noticed = body.gaps;
            let ghost more_gaps = noticed@;
            bodies.next = body.next_function;
            bodies.built.push((held.id, body.function));
            bodies.made.append(&mut more);
            bodies.gaps.append(&mut noticed);
            assert(made_views(bodies.built@) =~= made_views(built).push(
                (held.id, lowered.function),
            ));
            assert(made_views(bodies.made@) =~= made_views(made) + made_views(more_made));
            assert(views(bodies.gaps@) =~= views(gaps) + views(more_gaps));
        }
        i += 1;
    }
    bodies
}

impl<'a> LoweringView<'a> {
    /// Works out which declarations an exception can escape, before any of them
    /// takes a result type.
    #[verifier::opaque]
    pub open spec fn find_throwing(self, found: Seq<Found<'a>>) -> LoweringView<'a> {
        LoweringView {
            throwing: escaping_view(
                bodies_among(found, found.len()),
                *self.facts,
                interfaces_among(self.table.entries@, self.table.entries@.len()),
            ),
            ..self
        }
    }

    /// The declaration whose name in the whole program is `name`, from `from`
    /// on.
    pub open spec fn entry_called(self, name: Seq<char>, from: nat) -> Option<Entry>
        decreases self.table.entries@.len() - from,
    {
        if from >= self.table.entries@.len() {
            None
        } else {
            let held = self.table.entries@[from as int];
            if self.qualify(held.module, held.name@) == name {
                Some(held)
            } else {
                self.entry_called(name, from + 1)
            }
        }
    }

    /// The function a member of a struct or an enum became, declared or derived.
    #[verifier::opaque]
    pub open spec fn member_of(self, owner: TypeId, member: Seq<char>) -> Option<FuncId> {
        if owner.0 < self.program.types.len() {
            match self.entry_called(self.program.nominal(owner).name, 0) {
                Some(held) => match first_signature_view(held.decl, member) {
                    Some(span) => match self.callee_of(span) {
                        Some(callee) => Some(callee.id),
                        None => None,
                    },
                    None => None,
                },
                None => None,
            }
        } else {
            None
        }
    }

    /// The function a member became, for each of the first `count` types that
    /// has it.
    pub open spec fn members_of(self, member: Seq<char>, count: nat) -> Seq<(TypeId, FuncId)>
        decreases count,
    {
        if count == 0 {
            Seq::empty()
        } else {
            let earlier = self.members_of(member, (count - 1) as nat);
            let owner = self.ids[count - 1].id;
            match self.member_of(owner, member) {
                Some(id) => earlier.push((owner, id)),
                None => earlier,
            }
        }
    }

    /// Which functions display, compare and hash each struct and enum, declared
    /// or derived, once every one has an id.
    #[verifier::opaque]
    pub open spec fn find_displays(self) -> LoweringView<'a> {
        LoweringView {
            displays: self.members_of("display"@, self.ids.len()),
            equals: self.members_of("eq"@, self.ids.len()),
            hashes: self.members_of("hash"@, self.ids.len()),
            ..self
        }
    }

    /// What lowering a body written in a module needs.
    #[verifier::opaque]
    pub open spec fn context(self, module: ModuleId) -> ContextView<'a> {
        ContextView {
            facts: self.facts,
            mode: self.mode,
            ids: self.ids,
            callees: self.functions,
            virtuals: self.virtuals,
            defaults: self.defaults,
            properties: self.properties,
            displays: self.displays,
            equals: self.equals,
            hashes: self.hashes,
            program: self.program,
            module,
            constants: self.constants,
        }
    }

    /// More gaps.
    #[verifier::opaque]
    pub open spec fn more_gaps(self, gaps: Seq<GapView>) -> LoweringView<'a> {
        LoweringView { gaps: self.gaps + gaps, ..self }
    }

    /// Fills in every declared function's body.
    #[verifier::opaque]
    pub open spec fn lower_bodies(self) -> LoweringView<'a> {
        let bodies = bodies_lowered(
            self.context(ModuleId(0)),
            self.bodies,
            index_id_view(self.program.functions.len()),
            self.bodies.len(),
        );
        let b = self.put_all(bodies.built, bodies.built.len());
        let b = b.more_gaps(bodies.gaps);
        b.add_all(bodies.made, bodies.made.len())
    }

    /// The body of a derived member written, where it can be.
    #[verifier::opaque]
    pub open spec fn derive_body(
        self,
        id: FuncId,
        member: Seq<char>,
        owner: TypeId,
        span: Span,
    ) -> LoweringView<'a> {
        if id.0 < self.program.functions.len() {
            let (body, written) = BodyView::fresh(
                self.context(ModuleId(0)),
                self.program.function(id),
                false,
                Seq::empty(),
                0,
            ).derive(member, owner, span);
            let b = self.more_gaps(body.gaps);
            if written {
                b.put_function(id, body.function)
            } else {
                b
            }
        } else {
            self
        }
    }

    /// A program nothing has been found out about.
    pub open spec fn start(
        graph: &'a Graph,
        table: &'a Table,
        facts: &'a Facts,
        mode: CompilationMode,
    ) -> LoweringView<'a> {
        LoweringView {
            graph,
            table,
            facts,
            mode,
            program: ProgramView::empty(),
            ids: Seq::empty(),
            functions: Seq::empty(),
            virtuals: Seq::empty(),
            defaults: Seq::empty(),
            properties: Seq::empty(),
            bodies: Seq::empty(),
            derived: Seq::empty(),
            displays: Seq::empty(),
            equals: Seq::empty(),
            hashes: Seq::empty(),
            throwing: Seq::empty(),
            constants: Seq::empty(),
            gaps: Seq::empty(),
        }
    }

    /// Everything the program declares given an id and a signature.
    pub open spec fn declare_all(self) -> LoweringView<'a> {
        let modules = self.graph.modules@;
        let entries = self.table.entries@;
        let found = declarations_in(modules, self.table.symbols@, modules.len());
        let order = initialization_order_view(modules);
        let b = self.collect_constants(modules, modules.len());
        let b = b.name_types(entries, entries.len());
        let b = b.build_types(entries, entries.len());
        let b = b.find_throwing(found);
        let b = b.declare_functions(found, found.len());
        let b = b.declare_initializers(order, order.len());
        let b = b.declare_finalizers(modules, modules.len());
        let b = b.declare_properties(modules, modules.len());
        let b = b.declare_derived(self.table.derived@, self.table.derived@.len());
        b.find_displays()
    }

    /// Everything filled in that the declarations are needed for.
    pub open spec fn fill_all(self) -> LoweringView<'a> {
        let entries = self.table.entries@;
        let b = self.build_vtables(entries, entries.len());
        let b = b.adapt_throwing_virtuals(b.program.types, b.program.types.len());
        let b = b.lower_bodies();
        b.write_derived(b.derived, b.derived.len())
    }
}

impl<'a> Lowering<'a> {
    fn find_throwing(&mut self, found: &Vec<Found<'a>>)
        ensures
            final(self)@ == old(self)@.find_throwing(found@),
    {
        proof {
            reveal(LoweringView::find_throwing);
        }
        let written = written_among(found);
        let interfaces = interfaces_of(&self.table.entries);
        self.throwing = escaping(&written, self.facts, &interfaces);
    }

    fn entry_called(&self, name: &str) -> (found: Option<&'a Entry>)
        ensures
            match found {
                Some(held) => self@.entry_called(name@, 0) == Some(*held),
                None => self@.entry_called(name@, 0) is None,
            },
    {
        let entries = &self.table.entries;
        let mut i: usize = 0;
        while i < entries.len()
            invariant
                i <= entries.len(),
                entries == self@.table.entries,
                self@.entry_called(name@, 0) == self@.entry_called(name@, i as nat),
            decreases entries.len() - i,
        {
            let whole = self.qualify(entries[i].module, entries[i].name.as_str());
            if same_text(whole.as_str(), name) {
                return Some(&entries[i]);
            }
            i += 1;
        }
        None
    }

    fn member_of(&self, owner: TypeId, member: &str) -> (found: Option<FuncId>)
        ensures
            found == self@.member_of(owner, member@),
    {
        proof {
            reveal(LoweringView::member_of);
        }
        if (owner.0 as usize) < self.program.types.len() {
            match self.entry_called(self.program.nominal(owner).name.as_str()) {
                Some(held) => match first_signature(&held.decl, member) {
                    Some(span) => match self.callee_of(span) {
                        Some(callee) => Some(callee.id),
                        None => None,
                    },
                    None => None,
                },
                None => None,
            }
        } else {
            None
        }
    }

    fn members_of(&self, member: &str) -> (found: Vec<(TypeId, FuncId)>)
        ensures
            found@ == self@.members_of(member@, self@.ids.len()),
    {
        let mut found: Vec<(TypeId, FuncId)> = Vec::new();
        let mut i: usize = 0;
        while i < self.ids.len()
            invariant
                i <= self.ids.len(),
                found@ == self@.members_of(member@, i as nat),
            decreases self.ids.len() - i,
        {
            let owner = self.ids[i].id;
            match self.member_of(owner, member) {
                Some(id) => {
                    found.push((owner, id));
                },
                None => {},
            }
            i += 1;
        }
        found
    }

    fn find_displays(&mut self)
        ensures
            final(self)@ == old(self)@.find_displays(),
    {
        proof {
            reveal(LoweringView::find_displays);
        }
        let displays = self.members_of("display");
        let equals = self.members_of("eq");
        let hashes = self.members_of("hash");
        self.displays = displays;
        self.equals = equals;
        self.hashes = hashes;
    }

    fn context<'b>(&'b self, module: ModuleId) -> (context: Context<'b>)
        ensures
            context@ == self@.context(module),
            context.program@ == self@.program,
    {
        proof {
            reveal(LoweringView::context);
        }
        Context {
            facts: self.facts,
            mode: self.mode,
            ids: &self.ids,
            callees: &self.functions,
            virtuals: &self.virtuals,
            defaults: &self.defaults,
            properties: &self.properties,
            displays: &self.displays,
            equals: &self.equals,
            hashes: &self.hashes,
            program: &self.program,
            module,
            constants: &self.constants,
        }
    }

    fn more_gaps(&mut self, gaps: Vec<Gap>)
        ensures
            final(self)@ == old(self)@.more_gaps(views(gaps@)),
    {
        proof {
            reveal(LoweringView::more_gaps);
        }
        let ghost before = self.gaps@;
        let ghost more = gaps@;
        let mut held = gaps;
        self.gaps.append(&mut held);
        assert(views(self.gaps@) =~= views(before) + views(more));
    }

    fn lower_bodies(&mut self)
        ensures
            final(self)@ == old(self)@.lower_bodies(),
    {
        proof {
            reveal(LoweringView::lower_bodies);
        }
        let next = index_id(self.program.functions.len());
        let bodies = lower_each(self.context(ModuleId(0)), &self.bodies, next);
        self.put_all(&bodies.built);
        self.more_gaps(bodies.gaps);
        self.add_all(&bodies.made);
    }

    /// Writes the body of a derived member, where it can be written.
    pub fn derive_body(&mut self, id: FuncId, member: &str, owner: TypeId, span: Span)
        ensures
            final(self)@ == old(self)@.derive_body(id, member@, owner, span),
    {
        proof {
            reveal(LoweringView::derive_body);
        }
        if (id.0 as usize) < self.program.functions.len() {
            let mutated: Vec<String> = Vec::new();
            assert(names(mutated@) =~= Seq::empty());
            let shell = self.program.function(id).clone();
            let mut body = Body::new(self.context(ModuleId(0)), shell, false, mutated, 0);
            let written = body.derive(member, owner, span);
            let gaps = body.gaps;
            let function = body.function;
            self.more_gaps(gaps);
            if written {
                self.put_function(id, function);
            }
        }
    }

    fn start(
        graph: &'a Graph,
        table: &'a Table,
        facts: &'a Facts,
        mode: CompilationMode,
    ) -> (lowering: Lowering<'a>)
        ensures
            lowering@ == LoweringView::start(graph, table, facts, mode),
    {
        let lowering = Lowering {
            graph,
            table,
            facts,
            mode,
            program: Program::default(),
            ids: Vec::new(),
            functions: Vec::new(),
            virtuals: Vec::new(),
            defaults: Vec::new(),
            properties: Vec::new(),
            bodies: Vec::new(),
            derived: Vec::new(),
            displays: Vec::new(),
            equals: Vec::new(),
            hashes: Vec::new(),
            throwing: Vec::new(),
            constants: Vec::new(),
            gaps: Vec::new(),
        };
        assert(lowering@.functions =~= Seq::empty());
        assert(lowering@.properties =~= Seq::empty());
        assert(lowering@.bodies =~= Seq::empty());
        assert(lowering@.gaps =~= Seq::empty());
        lowering
    }

    fn declare_all(&mut self)
        ensures
            final(self)@ == old(self)@.declare_all(),
    {
        let graph = self.graph;
        let table = self.table;
        let found = declarations(&graph.modules, &table.symbols);
        let order = initialization_order(graph);
        self.collect_constants(&graph.modules);
        self.name_types(&table.entries);
        self.build_types(&table.entries);
        self.find_throwing(&found);
        self.declare_functions(&found);
        self.declare_initializers(&order);
        self.declare_finalizers(&graph.modules);
        self.declare_properties(&graph.modules);
        self.declare_derived(&table.derived);
        self.find_displays();
    }

    fn fill_all(&mut self)
        ensures
            final(self)@ == old(self)@.fill_all(),
    {
        let table = self.table;
        self.build_vtables(&table.entries);
        let program = self.program.clone();
        self.adapt_throwing_virtuals(&program.types);
        self.lower_bodies();
        let derived = clone_derived(&self.derived);
        self.write_derived(&derived);
    }
}

fn clone_derived<'a>(held: &Vec<Derived<'a>>) -> (copy: Vec<Derived<'a>>)
    ensures
        copy@ == held@,
{
    let mut copy: Vec<Derived<'a>> = Vec::new();
    let mut i: usize = 0;
    while i < held.len()
        invariant
            i <= held.len(),
            copy@ == held@.take(i as int),
        decreases held.len() - i,
    {
        copy.push(held[i]);
        assert(copy@ =~= held@.take(i + 1));
        i += 1;
    }
    assert(held@.take(i as int) =~= held@);
    copy
}

/// What a program is lowered into.
pub open spec fn lowered_view(
    graph: &Graph,
    table: &Table,
    facts: &Facts,
    mode: CompilationMode,
) -> LoweredView {
    let done = LoweringView::start(graph, table, facts, mode).declare_all().fill_all();
    LoweredView { program: done.program, gaps: done.gaps }
}

/// Lowers every module of a program the checker has already accepted.
#[must_use]
pub fn lower_in_mode(graph: &Graph, table: &Table, facts: &Facts, mode: CompilationMode) -> (lowered:
    Lowered)
    ensures
        lowered@ == lowered_view(graph, table, facts, mode),
{
    let mut lowering = Lowering::start(graph, table, facts, mode);
    lowering.declare_all();
    lowering.fill_all();
    Lowered { program: lowering.program, gaps: lowering.gaps }
}

/// Lowers every module of a program, with its debug-only operations.
#[must_use]
pub fn lower(graph: &Graph, table: &Table, facts: &Facts) -> (lowered: Lowered)
    ensures
        lowered@ == lowered_view(graph, table, facts, CompilationMode::Debug),
{
    lower_in_mode(graph, table, facts, CompilationMode::Debug)
}

} // verus!
