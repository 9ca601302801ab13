//! Position resolution: walk the tree depth first and classify the most
//! specific node containing a query position.
//!
//! The walk carries a context of the enclosing contract, function and
//! expression, threaded as a value through each recursive call; the first
//! node that fires a match wins and the walk stops.  The whole policy is
//! written down once, as the `resolve_*` spec functions, and the executable
//! walk is proved to return exactly what they say.

use vstd::prelude::*;

use crate::ast::{
    ArgListV, Block, BlockV, ContractV, DefV, Definition, EnumV, ErrorV, EventParamV, EventParameter, EventV,
    Expr, ExprBinaryV, ExprCall, ExprCallV, ExprNew, ExprNewV, ExprV, File, FileV, FunctionBody,
    FunctionBodyV, FunctionV, Ident, IdentV, Inheritance, InheritanceV, Item, ItemContract,
    ItemEnum, ItemError, ItemEvent, ItemFunction, ItemStruct, ItemV, Stmt, StmtExprV, StmtReturnV,
    StmtV, StmtVarDeclV, StructV, Type, TypeKindV, TypeV, VarDeclV, VarDefV, VariableDeclaration,
    VariableDefinition, lemma_view_exprs, lemma_view_stmts, view_expr, view_exprs, view_stmt,
    view_stmts,
};
use crate::pos::{Position, Span, in_range, spec_in_range};

verus! {

broadcast use vstd::seq::axiom_seq_index_decreases, vstd::seq::axiom_seq_subrange_decreases;

// ---------------------------------------------------------------------------
// Result type
// ---------------------------------------------------------------------------

/// What a position query found, together with the minimal enclosing context
/// a caller needs to act on it.
#[derive(Debug)]
pub enum FoundNode<'a> {
    ContractDefName(&'a ItemContract),
    ContractDefInheritance(&'a ItemContract, &'a Ident),
    FunctionDefName(&'a ItemContract, &'a ItemFunction),
    FunctionDefParameterName(&'a ItemContract, &'a ItemFunction, &'a VariableDeclaration, &'a Ident),
    FunctionUsageName(&'a ItemContract, &'a ItemFunction, &'a ExprCall),
    ContractInstantiation(&'a ItemContract, Option<&'a ItemFunction>, &'a ExprNew),
    VariableUsageName(Option<&'a ItemContract>, Option<&'a ItemFunction>, &'a Expr, &'a Ident),
    TypeUsage(Option<&'a ItemContract>, Option<&'a ItemFunction>, Option<&'a Expr>, &'a Type),
    VariableDefName(Option<&'a ItemContract>, Option<&'a ItemFunction>, &'a VariableDeclaration, &'a Ident),
    ConstantVariableDefName(&'a VariableDefinition, &'a Ident),
    PropertyDefName(&'a ItemContract, &'a VariableDefinition, &'a Ident),
    EnumDefName(Option<&'a ItemContract>, &'a ItemEnum, &'a Ident),
    EnumDefValue(Option<&'a ItemContract>, &'a ItemEnum, &'a Ident),
    ErrorDefName(Option<&'a ItemContract>, &'a ItemError, &'a Ident),
    ErrorDefParameter(Option<&'a ItemContract>, &'a ItemError, &'a VariableDeclaration),
    EventDefName(&'a ItemContract, &'a ItemEvent, &'a Ident),
    EventDefParameter(&'a ItemContract, &'a ItemEvent, &'a EventParameter),
    StructDefName(Option<&'a ItemContract>, &'a Ident),
    StructDefPropertyName(&'a ItemContract, Option<&'a ItemFunction>, &'a VariableDeclaration, &'a Ident),
}

/// Mirror of [`FoundNode`] over the tree's mirror types.
pub enum FoundNodeV {
    ContractDefName(ContractV),
    ContractDefInheritance(ContractV, IdentV),
    FunctionDefName(ContractV, FunctionV),
    FunctionDefParameterName(ContractV, FunctionV, VarDeclV, IdentV),
    FunctionUsageName(ContractV, FunctionV, ExprCallV),
    ContractInstantiation(ContractV, Option<FunctionV>, ExprNewV),
    VariableUsageName(Option<ContractV>, Option<FunctionV>, ExprV, IdentV),
    TypeUsage(Option<ContractV>, Option<FunctionV>, Option<ExprV>, TypeV),
    VariableDefName(Option<ContractV>, Option<FunctionV>, VarDeclV, IdentV),
    ConstantVariableDefName(VarDefV, IdentV),
    PropertyDefName(ContractV, VarDefV, IdentV),
    EnumDefName(Option<ContractV>, EnumV, IdentV),
    EnumDefValue(Option<ContractV>, EnumV, IdentV),
    ErrorDefName(Option<ContractV>, ErrorV, IdentV),
    ErrorDefParameter(Option<ContractV>, ErrorV, VarDeclV),
    EventDefName(ContractV, EventV, IdentV),
    EventDefParameter(ContractV, EventV, EventParamV),
    StructDefName(Option<ContractV>, IdentV),
    StructDefPropertyName(ContractV, Option<FunctionV>, VarDeclV, IdentV),
}

impl<'a> DeepView for FoundNode<'a> {
    type V = FoundNodeV;

    open spec fn deep_view(&self) -> FoundNodeV {
        match self {
            FoundNode::ContractDefName(c) => FoundNodeV::ContractDefName(c.deep_view()),
            FoundNode::ContractDefInheritance(c, i) => FoundNodeV::ContractDefInheritance(
                c.deep_view(),
                i.deep_view(),
            ),
            FoundNode::FunctionDefName(c, f) => FoundNodeV::FunctionDefName(
                c.deep_view(),
                f.deep_view(),
            ),
            FoundNode::FunctionDefParameterName(c, f, p, n) => FoundNodeV::FunctionDefParameterName(
                c.deep_view(),
                f.deep_view(),
                p.deep_view(),
                n.deep_view(),
            ),
            FoundNode::FunctionUsageName(c, f, e) => FoundNodeV::FunctionUsageName(
                c.deep_view(),
                f.deep_view(),
                e.deep_view(),
            ),
            FoundNode::ContractInstantiation(c, f, e) => FoundNodeV::ContractInstantiation(
                c.deep_view(),
                f.deep_view(),
                e.deep_view(),
            ),
            FoundNode::VariableUsageName(c, f, e, n) => FoundNodeV::VariableUsageName(
                c.deep_view(),
                f.deep_view(),
                e.deep_view(),
                n.deep_view(),
            ),
            FoundNode::TypeUsage(c, f, e, t) => FoundNodeV::TypeUsage(
                c.deep_view(),
                f.deep_view(),
                e.deep_view(),
                t.deep_view(),
            ),
            FoundNode::VariableDefName(c, f, v, n) => FoundNodeV::VariableDefName(
                c.deep_view(),
                f.deep_view(),
                v.deep_view(),
                n.deep_view(),
            ),
            FoundNode::ConstantVariableDefName(v, n) => FoundNodeV::ConstantVariableDefName(
                v.deep_view(),
                n.deep_view(),
            ),
            FoundNode::PropertyDefName(c, v, n) => FoundNodeV::PropertyDefName(
                c.deep_view(),
                v.deep_view(),
                n.deep_view(),
            ),
            FoundNode::EnumDefName(c, e, n) => FoundNodeV::EnumDefName(
                c.deep_view(),
                e.deep_view(),
                n.deep_view(),
            ),
            FoundNode::EnumDefValue(c, e, n) => FoundNodeV::EnumDefValue(
                c.deep_view(),
                e.deep_view(),
                n.deep_view(),
            ),
            FoundNode::ErrorDefName(c, e, n) => FoundNodeV::ErrorDefName(
                c.deep_view(),
                e.deep_view(),
                n.deep_view(),
            ),
            FoundNode::ErrorDefParameter(c, e, p) => FoundNodeV::ErrorDefParameter(
                c.deep_view(),
                e.deep_view(),
                p.deep_view(),
            ),
            FoundNode::EventDefName(c, e, n) => FoundNodeV::EventDefName(
                c.deep_view(),
                e.deep_view(),
                n.deep_view(),
            ),
            FoundNode::EventDefParameter(c, e, p) => FoundNodeV::EventDefParameter(
                c.deep_view(),
                e.deep_view(),
                p.deep_view(),
            ),
            FoundNode::StructDefName(c, n) => FoundNodeV::StructDefName(
                c.deep_view(),
                n.deep_view(),
            ),
            FoundNode::StructDefPropertyName(c, f, p, n) => FoundNodeV::StructDefPropertyName(
                c.deep_view(),
                f.deep_view(),
                p.deep_view(),
                n.deep_view(),
            ),
        }
    }
}

// ---------------------------------------------------------------------------
// The resolution policy, as spec functions
// ---------------------------------------------------------------------------

/// Enclosing context accumulated on the path from the file root down to the
/// node under inspection.
pub struct Ctx {
    pub contract: Option<ContractV>,
    pub function: Option<FunctionV>,
    pub expr: Option<ExprV>,
}

pub open spec fn empty_ctx() -> Ctx {
    Ctx { contract: None, function: None, expr: None }
}

/// Outcome of resolving one subtree: a match, no match, or a query that the
/// walk cannot answer because a node demanding enclosing context was reached
/// without it (an ill-formed tree for that position).
pub enum Lookup {
    Found(FoundNodeV),
    Missed,
    Invalid,
}

/// First-match combination: a later sibling is consulted only when the
/// earlier one missed.
pub open spec fn orelse(a: Lookup, b: Lookup) -> Lookup {
    if a is Missed {
        b
    } else {
        a
    }
}

pub open spec fn spec_expr_span(e: ExprV) -> Span {
    match e {
        ExprV::Call(c) => c.span,
        ExprV::New(n) => n.span,
        ExprV::Ident(i) => i.span,
        ExprV::Lit(sp) => sp,
        ExprV::Binary(b) => b.span,
    }
}

/// First inheritance path whose span contains the position.
pub open spec fn first_path(paths: Seq<IdentV>, pos: Position) -> Option<IdentV>
    decreases paths,
{
    if paths.len() == 0 {
        None
    } else if spec_in_range(paths[0].span, pos) {
        Some(paths[0])
    } else {
        first_path(paths.subrange(1, paths.len() as int), pos)
    }
}

/// First declaration whose name token contains the position.
pub open spec fn first_named_decl(ps: Seq<VarDeclV>, pos: Position) -> Option<VarDeclV>
    decreases ps,
{
    if ps.len() == 0 {
        None
    } else if ps[0].name is Some && spec_in_range(ps[0].name->0.span, pos) {
        Some(ps[0])
    } else {
        first_named_decl(ps.subrange(1, ps.len() as int), pos)
    }
}

/// First enum variant whose name contains the position.
pub open spec fn first_variant(vs: Seq<IdentV>, pos: Position) -> Option<IdentV>
    decreases vs,
{
    if vs.len() == 0 {
        None
    } else if spec_in_range(vs[0].span, pos) {
        Some(vs[0])
    } else {
        first_variant(vs.subrange(1, vs.len() as int), pos)
    }
}

/// First event parameter whose name token contains the position.
pub open spec fn first_named_event_param(ps: Seq<EventParamV>, pos: Position) -> Option<EventParamV>
    decreases ps,
{
    if ps.len() == 0 {
        None
    } else if ps[0].name is Some && spec_in_range(ps[0].name->0.span, pos) {
        Some(ps[0])
    } else {
        first_named_event_param(ps.subrange(1, ps.len() as int), pos)
    }
}

pub open spec fn resolve_ident(ctx: Ctx, id: IdentV, pos: Position) -> Lookup {
    if spec_in_range(id.span, pos) {
        match ctx.expr {
            Some(e) => Lookup::Found(FoundNodeV::VariableUsageName(ctx.contract, ctx.function, e, id)),
            None => Lookup::Invalid,
        }
    } else {
        Lookup::Missed
    }
}

pub open spec fn resolve_type(ctx: Ctx, t: TypeV, pos: Position) -> Lookup {
    if spec_in_range(t.span, pos) {
        Lookup::Found(FoundNodeV::TypeUsage(ctx.contract, ctx.function, ctx.expr, t))
    } else {
        Lookup::Missed
    }
}

pub open spec fn resolve_expr(ctx: Ctx, e: ExprV, pos: Position) -> Lookup
    decreases e,
{
    let ctx2 = if spec_in_range(spec_expr_span(e), pos) {
        Ctx { expr: Some(e), ..ctx }
    } else {
        ctx
    };
    match e {
        ExprV::Call(c) => resolve_call(ctx2, c, pos),
        ExprV::New(n) => if spec_in_range(n.span, pos) {
            match ctx2.contract {
                Some(ct) => Lookup::Found(FoundNodeV::ContractInstantiation(ct, ctx2.function, n)),
                None => Lookup::Invalid,
            }
        } else {
            resolve_type(ctx2, n.ty, pos)
        },
        ExprV::Ident(i) => resolve_ident(ctx2, i, pos),
        ExprV::Lit(_) => Lookup::Missed,
        ExprV::Binary(b) => orelse(
            resolve_expr(ctx2, *b.left, pos),
            resolve_expr(ctx2, *b.right, pos),
        ),
    }
}

/// A call whose own span contains the position but whose argument list does
/// not is reported as a use of the called name, without descending into the
/// callee; otherwise the walk continues into callee and arguments.
pub open spec fn resolve_call(ctx: Ctx, c: ExprCallV, pos: Position) -> Lookup
    decreases c,
{
    if spec_in_range(c.span, pos) && !spec_in_range(c.args.span, pos) {
        if ctx.contract is Some && ctx.function is Some {
            Lookup::Found(FoundNodeV::FunctionUsageName(ctx.contract->0, ctx.function->0, c))
        } else {
            Lookup::Invalid
        }
    } else {
        orelse(resolve_expr(ctx, *c.callee, pos), resolve_exprs(ctx, c.args.args, pos))
    }
}

pub open spec fn resolve_exprs(ctx: Ctx, es: Seq<ExprV>, pos: Position) -> Lookup
    decreases es,
{
    if es.len() == 0 {
        Lookup::Missed
    } else {
        orelse(
            resolve_expr(ctx, es[0], pos),
            resolve_exprs(ctx, es.subrange(1, es.len() as int), pos),
        )
    }
}

pub open spec fn resolve_var_decl(ctx: Ctx, v: VarDeclV, pos: Position) -> Lookup
    decreases v,
{
    if spec_in_range(v.span, pos) && v.name is Some && spec_in_range(v.name->0.span, pos) {
        Lookup::Found(FoundNodeV::VariableDefName(ctx.contract, ctx.function, v, v.name->0))
    } else {
        orelse(
            resolve_type(ctx, v.ty, pos),
            match v.name {
                Some(n) => resolve_ident(ctx, n, pos),
                None => Lookup::Missed,
            },
        )
    }
}

pub open spec fn resolve_var_decls(ctx: Ctx, ps: Seq<VarDeclV>, pos: Position) -> Lookup
    decreases ps,
{
    if ps.len() == 0 {
        Lookup::Missed
    } else {
        orelse(
            resolve_var_decl(ctx, ps[0], pos),
            resolve_var_decls(ctx, ps.subrange(1, ps.len() as int), pos),
        )
    }
}

pub open spec fn resolve_stmt(ctx: Ctx, s: StmtV, pos: Position) -> Lookup
    decreases s,
{
    match s {
        StmtV::VarDecl(sv) => orelse(
            match sv.assignment {
                Some(e) => resolve_expr(ctx, e, pos),
                None => Lookup::Missed,
            },
            resolve_var_decl(ctx, sv.declaration, pos),
        ),
        StmtV::Expr(se) => resolve_expr(ctx, se.expr, pos),
        StmtV::Block(b) => resolve_stmts(ctx, b.stmts, pos),
        StmtV::Return(r) => match r.expr {
            Some(e) => resolve_expr(ctx, e, pos),
            None => Lookup::Missed,
        },
    }
}

pub open spec fn resolve_stmts(ctx: Ctx, ss: Seq<StmtV>, pos: Position) -> Lookup
    decreases ss,
{
    if ss.len() == 0 {
        Lookup::Missed
    } else {
        orelse(
            resolve_stmt(ctx, ss[0], pos),
            resolve_stmts(ctx, ss.subrange(1, ss.len() as int), pos),
        )
    }
}

pub open spec fn resolve_idents(ctx: Ctx, ids: Seq<IdentV>, pos: Position) -> Lookup
    decreases ids,
{
    if ids.len() == 0 {
        Lookup::Missed
    } else {
        orelse(
            resolve_ident(ctx, ids[0], pos),
            resolve_idents(ctx, ids.subrange(1, ids.len() as int), pos),
        )
    }
}

pub open spec fn resolve_event_param(ctx: Ctx, p: EventParamV, pos: Position) -> Lookup {
    orelse(
        resolve_type(ctx, p.ty, pos),
        match p.name {
            Some(n) => resolve_ident(ctx, n, pos),
            None => Lookup::Missed,
        },
    )
}

pub open spec fn resolve_event_params(ctx: Ctx, ps: Seq<EventParamV>, pos: Position) -> Lookup
    decreases ps,
{
    if ps.len() == 0 {
        Lookup::Missed
    } else {
        orelse(
            resolve_event_param(ctx, ps[0], pos),
            resolve_event_params(ctx, ps.subrange(1, ps.len() as int), pos),
        )
    }
}

pub open spec fn resolve_function_children(ctx: Ctx, f: FunctionV, pos: Position) -> Lookup
    decreases f, 0int,
{
    orelse(
        resolve_ident(ctx, f.name, pos),
        orelse(
            resolve_var_decls(ctx, f.parameters, pos),
            orelse(
                resolve_var_decls(ctx, f.returns, pos),
                match f.body {
                    FunctionBodyV::Block(b) => resolve_stmts(ctx, b.stmts, pos),
                    FunctionBodyV::Empty => Lookup::Missed,
                },
            ),
        ),
    )
}

pub open spec fn resolve_function(ctx: Ctx, f: FunctionV, pos: Position) -> Lookup
    decreases f, 1int,
{
    if spec_in_range(f.span, pos) {
        if spec_in_range(f.name.span, pos) {
            match ctx.contract {
                Some(c) => Lookup::Found(FoundNodeV::FunctionDefName(c, f)),
                None => Lookup::Invalid,
            }
        } else {
            match first_named_decl(f.parameters, pos) {
                Some(p) => match ctx.contract {
                    Some(c) => Lookup::Found(
                        FoundNodeV::FunctionDefParameterName(c, f, p, p.name->0),
                    ),
                    None => Lookup::Invalid,
                },
                None => resolve_function_children(Ctx { function: Some(f), ..ctx }, f, pos),
            }
        }
    } else {
        resolve_function_children(ctx, f, pos)
    }
}

pub open spec fn resolve_var_def(ctx: Ctx, v: VarDefV, pos: Position) -> Lookup
    decreases v,
{
    if spec_in_range(v.span, pos) && spec_in_range(v.name.span, pos) {
        match ctx.contract {
            Some(c) => Lookup::Found(FoundNodeV::PropertyDefName(c, v, v.name)),
            None => Lookup::Found(FoundNodeV::ConstantVariableDefName(v, v.name)),
        }
    } else {
        orelse(resolve_type(ctx, v.ty, pos), resolve_ident(ctx, v.name, pos))
    }
}

pub open spec fn resolve_enum(ctx: Ctx, e: EnumV, pos: Position) -> Lookup
    decreases e,
{
    if spec_in_range(e.span, pos) {
        if spec_in_range(e.name.span, pos) {
            Lookup::Found(FoundNodeV::EnumDefName(ctx.contract, e, e.name))
        } else {
            match first_variant(e.variants, pos) {
                Some(v) => Lookup::Found(FoundNodeV::EnumDefValue(ctx.contract, e, v)),
                None => orelse(
                    resolve_ident(ctx, e.name, pos),
                    resolve_idents(ctx, e.variants, pos),
                ),
            }
        }
    } else {
        orelse(resolve_ident(ctx, e.name, pos), resolve_idents(ctx, e.variants, pos))
    }
}

pub open spec fn resolve_error(ctx: Ctx, e: ErrorV, pos: Position) -> Lookup
    decreases e,
{
    if spec_in_range(e.span, pos) {
        if spec_in_range(e.name.span, pos) {
            Lookup::Found(FoundNodeV::ErrorDefName(ctx.contract, e, e.name))
        } else {
            match first_named_decl(e.parameters, pos) {
                Some(p) => Lookup::Found(FoundNodeV::ErrorDefParameter(ctx.contract, e, p)),
                None => orelse(
                    resolve_ident(ctx, e.name, pos),
                    resolve_var_decls(ctx, e.parameters, pos),
                ),
            }
        }
    } else {
        orelse(resolve_ident(ctx, e.name, pos), resolve_var_decls(ctx, e.parameters, pos))
    }
}

pub open spec fn resolve_event(ctx: Ctx, e: EventV, pos: Position) -> Lookup
    decreases e,
{
    if spec_in_range(e.span, pos) {
        if spec_in_range(e.name.span, pos) {
            match ctx.contract {
                Some(c) => Lookup::Found(FoundNodeV::EventDefName(c, e, e.name)),
                None => Lookup::Invalid,
            }
        } else {
            match first_named_event_param(e.parameters, pos) {
                Some(p) => match ctx.contract {
                    Some(c) => Lookup::Found(FoundNodeV::EventDefParameter(c, e, p)),
                    None => Lookup::Invalid,
                },
                None => orelse(
                    resolve_ident(ctx, e.name, pos),
                    resolve_event_params(ctx, e.parameters, pos),
                ),
            }
        }
    } else {
        orelse(resolve_ident(ctx, e.name, pos), resolve_event_params(ctx, e.parameters, pos))
    }
}

pub open spec fn resolve_struct(ctx: Ctx, s: StructV, pos: Position) -> Lookup
    decreases s,
{
    if spec_in_range(s.span, pos) {
        if spec_in_range(s.name.span, pos) {
            Lookup::Found(FoundNodeV::StructDefName(ctx.contract, s.name))
        } else {
            match first_named_decl(s.fields, pos) {
                Some(p) => match ctx.contract {
                    Some(c) => Lookup::Found(
                        FoundNodeV::StructDefPropertyName(c, ctx.function, p, p.name->0),
                    ),
                    None => Lookup::Invalid,
                },
                None => orelse(
                    resolve_ident(ctx, s.name, pos),
                    resolve_var_decls(ctx, s.fields, pos),
                ),
            }
        }
    } else {
        orelse(resolve_ident(ctx, s.name, pos), resolve_var_decls(ctx, s.fields, pos))
    }
}

pub open spec fn resolve_def(ctx: Ctx, d: DefV, pos: Position) -> Lookup
    decreases d,
{
    match d {
        DefV::Function(f) => resolve_function(ctx, f, pos),
        DefV::Variable(v) => resolve_var_def(ctx, v, pos),
        DefV::Enum(e) => resolve_enum(ctx, e, pos),
        DefV::Struct(s) => resolve_struct(ctx, s, pos),
        DefV::Error(e) => resolve_error(ctx, e, pos),
        DefV::Event(e) => resolve_event(ctx, e, pos),
    }
}

pub open spec fn resolve_defs(ctx: Ctx, ds: Seq<DefV>, pos: Position) -> Lookup
    decreases ds,
{
    if ds.len() == 0 {
        Lookup::Missed
    } else {
        orelse(
            resolve_def(ctx, ds[0], pos),
            resolve_defs(ctx, ds.subrange(1, ds.len() as int), pos),
        )
    }
}

/// The inheritance clause is only consulted when its own span contains the
/// position; within it, the first matching path wins.
pub open spec fn inheritance_hit(c: ContractV, pos: Position) -> Option<IdentV> {
    match c.inheritance {
        Some(inh) => if spec_in_range(inh.span, pos) {
            first_path(inh.paths, pos)
        } else {
            None
        },
        None => None,
    }
}

pub open spec fn resolve_contract(ctx: Ctx, c: ContractV, pos: Position) -> Lookup
    decreases c,
{
    let ctx2 = Ctx { contract: Some(c), ..ctx };
    if spec_in_range(c.span, pos) && spec_in_range(c.name.span, pos) {
        Lookup::Found(FoundNodeV::ContractDefName(c))
    } else if spec_in_range(c.span, pos) && inheritance_hit(c, pos) is Some {
        Lookup::Found(FoundNodeV::ContractDefInheritance(c, inheritance_hit(c, pos)->0))
    } else {
        orelse(resolve_ident(ctx2, c.name, pos), resolve_defs(ctx2, c.body, pos))
    }
}

pub open spec fn resolve_item(ctx: Ctx, item: ItemV, pos: Position) -> Lookup
    decreases item,
{
    match item {
        ItemV::Contract(c) => resolve_contract(ctx, c, pos),
        ItemV::Def(d) => resolve_def(ctx, d, pos),
        ItemV::Pragma(_) => Lookup::Missed,
    }
}

pub open spec fn resolve_items(ctx: Ctx, items: Seq<ItemV>, pos: Position) -> Lookup
    decreases items,
{
    if items.len() == 0 {
        Lookup::Missed
    } else {
        orelse(
            resolve_item(ctx, items[0], pos),
            resolve_items(ctx, items.subrange(1, items.len() as int), pos),
        )
    }
}

/// The whole policy: resolve a position against a file, starting with no
/// enclosing context.
pub open spec fn resolve_file(f: FileV, pos: Position) -> Lookup {
    resolve_items(empty_ctx(), f.items, pos)
}

/// How an executable result corresponds to a spec outcome.
pub open spec fn found_matches(r: Option<FoundNodeV>, l: Lookup) -> bool {
    match l {
        Lookup::Found(f) => r == Some(f),
        Lookup::Missed => r is None,
        Lookup::Invalid => true,
    }
}

} // verus!

verus! {

// ---------------------------------------------------------------------------
// The executable walk
// ---------------------------------------------------------------------------

/// The context actually threaded through the executable walk, as a spec
/// value.
pub open spec fn ctx_of(
    c: Option<&ItemContract>,
    f: Option<&ItemFunction>,
    e: Option<&Expr>,
) -> Ctx {
    Ctx { contract: c.deep_view(), function: f.deep_view(), expr: e.deep_view() }
}

fn expr_span(e: &Expr) -> (s: Span)
    ensures
        s == spec_expr_span(e.deep_view()),
{
    match e {
        Expr::Call(c) => c.span,
        Expr::New(n) => n.span,
        Expr::Ident(i) => i.span,
        Expr::Lit(sp) => *sp,
        Expr::Binary(b) => b.span,
    }
}

fn find_ident<'a>(
    contract: Option<&'a ItemContract>,
    function: Option<&'a ItemFunction>,
    cur_expr: Option<&'a Expr>,
    id: &'a Ident,
    pos: Position,
) -> (r: Option<FoundNode<'a>>)
    requires
        !(resolve_ident(ctx_of(contract, function, cur_expr), id.deep_view(), pos) is Invalid),
    ensures
        found_matches(
            r.deep_view(),
            resolve_ident(ctx_of(contract, function, cur_expr), id.deep_view(), pos),
        ),
{
    if in_range(&id.span, pos) {
        match cur_expr {
            Some(e) => Some(FoundNode::VariableUsageName(contract, function, e, id)),
            None => unreached(),
        }
    } else {
        None
    }
}

fn find_type<'a>(
    contract: Option<&'a ItemContract>,
    function: Option<&'a ItemFunction>,
    cur_expr: Option<&'a Expr>,
    t: &'a Type,
    pos: Position,
) -> (r: Option<FoundNode<'a>>)
    ensures
        found_matches(
            r.deep_view(),
            resolve_type(ctx_of(contract, function, cur_expr), t.deep_view(), pos),
        ),
{
    if in_range(&t.span, pos) {
        Some(FoundNode::TypeUsage(contract, function, cur_expr, t))
    } else {
        None
    }
}

fn find_expr<'a>(
    contract: Option<&'a ItemContract>,
    function: Option<&'a ItemFunction>,
    cur_expr: Option<&'a Expr>,
    e: &'a Expr,
    pos: Position,
) -> (r: Option<FoundNode<'a>>)
    requires
        !(resolve_expr(ctx_of(contract, function, cur_expr), e.deep_view(), pos) is Invalid),
    ensures
        found_matches(
            r.deep_view(),
            resolve_expr(ctx_of(contract, function, cur_expr), e.deep_view(), pos),
        ),
    decreases *e,
{
    let sp = expr_span(e);
    let cur2 = if in_range(&sp, pos) {
        Some(e)
    } else {
        cur_expr
    };
    match e {
        Expr::Call(c) => find_call(contract, function, cur2, c, pos),
        Expr::New(n) => {
            if in_range(&n.span, pos) {
                match contract {
                    Some(ct) => Some(FoundNode::ContractInstantiation(ct, function, n)),
                    None => unreached(),
                }
            } else {
                find_type(contract, function, cur2, &n.ty, pos)
            }
        },
        Expr::Ident(i) => find_ident(contract, function, cur2, i, pos),
        Expr::Lit(_) => None,
        Expr::Binary(b) => {
            let r = find_expr(contract, function, cur2, &*b.left, pos);
            if r.is_some() {
                r
            } else {
                find_expr(contract, function, cur2, &*b.right, pos)
            }
        },
    }
}

fn find_call<'a>(
    contract: Option<&'a ItemContract>,
    function: Option<&'a ItemFunction>,
    cur_expr: Option<&'a Expr>,
    c: &'a ExprCall,
    pos: Position,
) -> (r: Option<FoundNode<'a>>)
    requires
        !(resolve_call(ctx_of(contract, function, cur_expr), c.deep_view(), pos) is Invalid),
    ensures
        found_matches(
            r.deep_view(),
            resolve_call(ctx_of(contract, function, cur_expr), c.deep_view(), pos),
        ),
    decreases *c,
{
    if in_range(&c.span, pos) && !in_range(&c.args.span, pos) {
        match (contract, function) {
            (Some(ct), Some(fun)) => Some(FoundNode::FunctionUsageName(ct, fun, c)),
            _ => unreached(),
        }
    } else {
        let r = find_expr(contract, function, cur_expr, &*c.callee, pos);
        if r.is_some() {
            r
        } else {
            find_args(contract, function, cur_expr, &c.args.args, pos)
        }
    }
}

fn find_args<'a>(
    contract: Option<&'a ItemContract>,
    function: Option<&'a ItemFunction>,
    cur_expr: Option<&'a Expr>,
    es: &'a Vec<Expr>,
    pos: Position,
) -> (r: Option<FoundNode<'a>>)
    requires
        !(resolve_exprs(ctx_of(contract, function, cur_expr), view_exprs(es@), pos) is Invalid),
    ensures
        found_matches(
            r.deep_view(),
            resolve_exprs(ctx_of(contract, function, cur_expr), view_exprs(es@), pos),
        ),
    decreases es@,
{
    let ghost ctx = ctx_of(contract, function, cur_expr);
    let ghost ev = view_exprs(es@);
    proof {
        lemma_view_exprs(es@);
    }
    let n = es.len();
    proof {
        assert(ev.subrange(0, n as int) =~= ev);
    }
    let mut i: usize = 0;
    while i < n
        invariant
            n == es@.len(),
            i <= n,
            ev == view_exprs(es@),
            ev.len() == n,
            forall|k: int| 0 <= k < n ==> ev[k] == view_expr(es@[k]),
            ctx == ctx_of(contract, function, cur_expr),
            !(resolve_exprs(ctx, ev, pos) is Invalid),
            resolve_exprs(ctx, ev.subrange(i as int, n as int), pos) == resolve_exprs(ctx, ev, pos),
        decreases n - i,
    {
        proof {
            assert(ev.subrange(i as int, n as int)[0] == ev[i as int]);
            assert(ev.subrange(i as int, n as int).subrange(1, (n - i) as int) =~= ev.subrange(
                i as int + 1,
                n as int,
            ));
        }
        let r = find_expr(contract, function, cur_expr, &es[i], pos);
        if r.is_some() {
            return r;
        }
        i += 1;
    }
    None
}

fn find_var_decl<'a>(
    contract: Option<&'a ItemContract>,
    function: Option<&'a ItemFunction>,
    cur_expr: Option<&'a Expr>,
    v: &'a VariableDeclaration,
    pos: Position,
) -> (r: Option<FoundNode<'a>>)
    requires
        !(resolve_var_decl(ctx_of(contract, function, cur_expr), v.deep_view(), pos) is Invalid),
    ensures
        found_matches(
            r.deep_view(),
            resolve_var_decl(ctx_of(contract, function, cur_expr), v.deep_view(), pos),
        ),
{
    if in_range(&v.span, pos) {
        if let Some(nm) = &v.name {
            if in_range(&nm.span, pos) {
                return Some(FoundNode::VariableDefName(contract, function, v, nm));
            }
        }
    }
    let r = find_type(contract, function, cur_expr, &v.ty, pos);
    if r.is_some() {
        return r;
    }
    match &v.name {
        Some(nm) => find_ident(contract, function, cur_expr, nm, pos),
        None => None,
    }
}

fn find_var_decls<'a>(
    contract: Option<&'a ItemContract>,
    function: Option<&'a ItemFunction>,
    cur_expr: Option<&'a Expr>,
    ps: &'a Vec<VariableDeclaration>,
    pos: Position,
) -> (r: Option<FoundNode<'a>>)
    requires
        !(resolve_var_decls(ctx_of(contract, function, cur_expr), ps.deep_view(), pos) is Invalid),
    ensures
        found_matches(
            r.deep_view(),
            resolve_var_decls(ctx_of(contract, function, cur_expr), ps.deep_view(), pos),
        ),
{
    let ghost ctx = ctx_of(contract, function, cur_expr);
    let ghost pv = ps.deep_view();
    let n = ps.len();
    proof {
        assert(pv.subrange(0, n as int) =~= pv);
    }
    let mut i: usize = 0;
    while i < n
        invariant
            n == ps@.len(),
            i <= n,
            pv == ps.deep_view(),
            pv.len() == n,
            ctx == ctx_of(contract, function, cur_expr),
            !(resolve_var_decls(ctx, pv, pos) is Invalid),
            resolve_var_decls(ctx, pv.subrange(i as int, n as int), pos) == resolve_var_decls(
                ctx,
                pv,
                pos,
            ),
        decreases n - i,
    {
        proof {
            assert(pv.subrange(i as int, n as int)[0] == pv[i as int]);
            assert(pv.subrange(i as int, n as int).subrange(1, (n - i) as int) =~= pv.subrange(
                i as int + 1,
                n as int,
            ));
        }
        let r = find_var_decl(contract, function, cur_expr, &ps[i], pos);
        if r.is_some() {
            return r;
        }
        i += 1;
    }
    None
}

fn find_stmt<'a>(
    contract: Option<&'a ItemContract>,
    function: Option<&'a ItemFunction>,
    cur_expr: Option<&'a Expr>,
    st: &'a Stmt,
    pos: Position,
) -> (r: Option<FoundNode<'a>>)
    requires
        !(resolve_stmt(ctx_of(contract, function, cur_expr), st.deep_view(), pos) is Invalid),
    ensures
        found_matches(
            r.deep_view(),
            resolve_stmt(ctx_of(contract, function, cur_expr), st.deep_view(), pos),
        ),
    decreases *st,
{
    match st {
        Stmt::VarDecl(sv) => {
            let r = match &sv.assignment {
                Some(e) => find_expr(contract, function, cur_expr, e, pos),
                None => None,
            };
            if r.is_some() {
                return r;
            }
            find_var_decl(contract, function, cur_expr, &sv.declaration, pos)
        },
        Stmt::Expr(se) => find_expr(contract, function, cur_expr, &se.expr, pos),
        Stmt::Block(b) => find_stmts(contract, function, cur_expr, &b.stmts, pos),
        Stmt::Return(rt) => match &rt.expr {
            Some(e) => find_expr(contract, function, cur_expr, e, pos),
            None => None,
        },
    }
}

fn find_stmts<'a>(
    contract: Option<&'a ItemContract>,
    function: Option<&'a ItemFunction>,
    cur_expr: Option<&'a Expr>,
    ss: &'a Vec<Stmt>,
    pos: Position,
) -> (r: Option<FoundNode<'a>>)
    requires
        !(resolve_stmts(ctx_of(contract, function, cur_expr), view_stmts(ss@), pos) is Invalid),
    ensures
        found_matches(
            r.deep_view(),
            resolve_stmts(ctx_of(contract, function, cur_expr), view_stmts(ss@), pos),
        ),
    decreases ss@,
{
    let ghost ctx = ctx_of(contract, function, cur_expr);
    let ghost sv = view_stmts(ss@);
    proof {
        lemma_view_stmts(ss@);
    }
    let n = ss.len();
    proof {
        assert(sv.subrange(0, n as int) =~= sv);
    }
    let mut i: usize = 0;
    while i < n
        invariant
            n == ss@.len(),
            i <= n,
            sv == view_stmts(ss@),
            sv.len() == n,
            forall|k: int| 0 <= k < n ==> sv[k] == view_stmt(ss@[k]),
            ctx == ctx_of(contract, function, cur_expr),
            !(resolve_stmts(ctx, sv, pos) is Invalid),
            resolve_stmts(ctx, sv.subrange(i as int, n as int), pos) == resolve_stmts(ctx, sv, pos),
        decreases n - i,
    {
        proof {
            assert(sv.subrange(i as int, n as int)[0] == sv[i as int]);
            assert(sv.subrange(i as int, n as int).subrange(1, (n - i) as int) =~= sv.subrange(
                i as int + 1,
                n as int,
            ));
        }
        let r = find_stmt(contract, function, cur_expr, &ss[i], pos);
        if r.is_some() {
            return r;
        }
        i += 1;
    }
    None
}

} // verus!

verus! {

fn find_var_def<'a>(
    contract: Option<&'a ItemContract>,
    function: Option<&'a ItemFunction>,
    cur_expr: Option<&'a Expr>,
    v: &'a VariableDefinition,
    pos: Position,
) -> (r: Option<FoundNode<'a>>)
    requires
        !(resolve_var_def(ctx_of(contract, function, cur_expr), v.deep_view(), pos) is Invalid),
    ensures
        found_matches(
            r.deep_view(),
            resolve_var_def(ctx_of(contract, function, cur_expr), v.deep_view(), pos),
        ),
{
    if in_range(&v.span, pos) && in_range(&v.name.span, pos) {
        match contract {
            Some(c) => Some(FoundNode::PropertyDefName(c, v, &v.name)),
            None => Some(FoundNode::ConstantVariableDefName(v, &v.name)),
        }
    } else {
        let r = find_type(contract, function, cur_expr, &v.ty, pos);
        if r.is_some() {
            r
        } else {
            find_ident(contract, function, cur_expr, &v.name, pos)
        }
    }
}

#[verifier::loop_isolation(false)]
fn find_enum<'a>(
    contract: Option<&'a ItemContract>,
    function: Option<&'a ItemFunction>,
    cur_expr: Option<&'a Expr>,
    e: &'a ItemEnum,
    pos: Position,
) -> (r: Option<FoundNode<'a>>)
    requires
        !(resolve_enum(ctx_of(contract, function, cur_expr), e.deep_view(), pos) is Invalid),
    ensures
        found_matches(
            r.deep_view(),
            resolve_enum(ctx_of(contract, function, cur_expr), e.deep_view(), pos),
        ),
{
    let ghost ctx = ctx_of(contract, function, cur_expr);
    if in_range(&e.span, pos) {
        if in_range(&e.name.span, pos) {
            return Some(FoundNode::EnumDefName(contract, e, &e.name));
        }
        let ghost vv = e.variants.deep_view();
        let n = e.variants.len();
        proof {
            assert(vv.subrange(0, n as int) =~= vv);
        }
        let mut i: usize = 0;
        while i < n
            invariant
                n == e.variants@.len(),
                i <= n,
                vv == e.variants.deep_view(),
                vv.len() == n,
                first_variant(vv.subrange(i as int, n as int), pos) == first_variant(vv, pos),
            decreases n - i,
        {
            proof {
                assert(vv.subrange(i as int, n as int)[0] == vv[i as int]);
                assert(vv.subrange(i as int, n as int).subrange(1, (n - i) as int) =~= vv.subrange(
                    i as int + 1,
                    n as int,
                ));
            }
            if in_range(&e.variants[i].span, pos) {
                return Some(FoundNode::EnumDefValue(contract, e, &e.variants[i]));
            }
            i += 1;
        }
        assert(first_variant(vv, pos) is None);
    }
    let r = find_ident(contract, function, cur_expr, &e.name, pos);
    if r.is_some() {
        return r;
    }
    find_idents(contract, function, cur_expr, &e.variants, pos)
}

fn find_idents<'a>(
    contract: Option<&'a ItemContract>,
    function: Option<&'a ItemFunction>,
    cur_expr: Option<&'a Expr>,
    ids: &'a Vec<Ident>,
    pos: Position,
) -> (r: Option<FoundNode<'a>>)
    requires
        !(resolve_idents(ctx_of(contract, function, cur_expr), ids.deep_view(), pos) is Invalid),
    ensures
        found_matches(
            r.deep_view(),
            resolve_idents(ctx_of(contract, function, cur_expr), ids.deep_view(), pos),
        ),
{
    let ghost ctx = ctx_of(contract, function, cur_expr);
    let ghost iv = ids.deep_view();
    let n = ids.len();
    proof {
        assert(iv.subrange(0, n as int) =~= iv);
    }
    let mut i: usize = 0;
    while i < n
        invariant
            n == ids@.len(),
            i <= n,
            iv == ids.deep_view(),
            iv.len() == n,
            ctx == ctx_of(contract, function, cur_expr),
            !(resolve_idents(ctx, iv, pos) is Invalid),
            resolve_idents(ctx, iv.subrange(i as int, n as int), pos) == resolve_idents(
                ctx,
                iv,
                pos,
            ),
        decreases n - i,
    {
        proof {
            assert(iv.subrange(i as int, n as int)[0] == iv[i as int]);
            assert(iv.subrange(i as int, n as int).subrange(1, (n - i) as int) =~= iv.subrange(
                i as int + 1,
                n as int,
            ));
        }
        let r = find_ident(contract, function, cur_expr, &ids[i], pos);
        if r.is_some() {
            return r;
        }
        i += 1;
    }
    None
}

#[verifier::loop_isolation(false)]
fn find_error<'a>(
    contract: Option<&'a ItemContract>,
    function: Option<&'a ItemFunction>,
    cur_expr: Option<&'a Expr>,
    e: &'a ItemError,
    pos: Position,
) -> (r: Option<FoundNode<'a>>)
    requires
        !(resolve_error(ctx_of(contract, function, cur_expr), e.deep_view(), pos) is Invalid),
    ensures
        found_matches(
            r.deep_view(),
            resolve_error(ctx_of(contract, function, cur_expr), e.deep_view(), pos),
        ),
{
    let ghost ctx = ctx_of(contract, function, cur_expr);
    if in_range(&e.span, pos) {
        if in_range(&e.name.span, pos) {
            return Some(FoundNode::ErrorDefName(contract, e, &e.name));
        }
        let ghost pv = e.parameters.deep_view();
        let n = e.parameters.len();
        proof {
            assert(pv.subrange(0, n as int) =~= pv);
        }
        let mut i: usize = 0;
        while i < n
            invariant
                n == e.parameters@.len(),
                i <= n,
                pv == e.parameters.deep_view(),
                pv.len() == n,
                first_named_decl(pv.subrange(i as int, n as int), pos) == first_named_decl(pv, pos),
            decreases n - i,
        {
            proof {
                assert(pv.subrange(i as int, n as int)[0] == pv[i as int]);
                assert(pv.subrange(i as int, n as int).subrange(1, (n - i) as int) =~= pv.subrange(
                    i as int + 1,
                    n as int,
                ));
            }
            if let Some(nm) = &e.parameters[i].name {
                if in_range(&nm.span, pos) {
                    return Some(FoundNode::ErrorDefParameter(contract, e, &e.parameters[i]));
                }
            }
            i += 1;
        }
        assert(first_named_decl(pv, pos) is None);
    }
    let r = find_ident(contract, function, cur_expr, &e.name, pos);
    if r.is_some() {
        return r;
    }
    find_var_decls(contract, function, cur_expr, &e.parameters, pos)
}

#[verifier::loop_isolation(false)]
fn find_event<'a>(
    contract: Option<&'a ItemContract>,
    function: Option<&'a ItemFunction>,
    cur_expr: Option<&'a Expr>,
    e: &'a ItemEvent,
    pos: Position,
) -> (r: Option<FoundNode<'a>>)
    requires
        !(resolve_event(ctx_of(contract, function, cur_expr), e.deep_view(), pos) is Invalid),
    ensures
        found_matches(
            r.deep_view(),
            resolve_event(ctx_of(contract, function, cur_expr), e.deep_view(), pos),
        ),
{
    let ghost ctx = ctx_of(contract, function, cur_expr);
    if in_range(&e.span, pos) {
        if in_range(&e.name.span, pos) {
            match contract {
                Some(c) => {
                    return Some(FoundNode::EventDefName(c, e, &e.name));
                },
                None => {
                    return unreached();
                },
            }
        }
        let ghost pv = e.parameters.deep_view();
        let n = e.parameters.len();
        proof {
            assert(pv.subrange(0, n as int) =~= pv);
        }
        let mut i: usize = 0;
        while i < n
            invariant
                n == e.parameters@.len(),
                i <= n,
                pv == e.parameters.deep_view(),
                pv.len() == n,
                first_named_event_param(pv.subrange(i as int, n as int), pos)
                    == first_named_event_param(pv, pos),
            decreases n - i,
        {
            proof {
                assert(pv.subrange(i as int, n as int)[0] == pv[i as int]);
                assert(pv.subrange(i as int, n as int).subrange(1, (n - i) as int) =~= pv.subrange(
                    i as int + 1,
                    n as int,
                ));
            }
            if let Some(nm) = &e.parameters[i].name {
                if in_range(&nm.span, pos) {
                    match contract {
                        Some(c) => {
                            return Some(FoundNode::EventDefParameter(c, e, &e.parameters[i]));
                        },
                        None => {
                            return unreached();
                        },
                    }
                }
            }
            i += 1;
        }
        assert(first_named_event_param(pv, pos) is None);
    }
    let r = find_ident(contract, function, cur_expr, &e.name, pos);
    if r.is_some() {
        return r;
    }
    find_event_params(contract, function, cur_expr, &e.parameters, pos)
}

fn find_event_params<'a>(
    contract: Option<&'a ItemContract>,
    function: Option<&'a ItemFunction>,
    cur_expr: Option<&'a Expr>,
    ps: &'a Vec<EventParameter>,
    pos: Position,
) -> (r: Option<FoundNode<'a>>)
    requires
        !(resolve_event_params(ctx_of(contract, function, cur_expr), ps.deep_view(), pos)
            is Invalid),
    ensures
        found_matches(
            r.deep_view(),
            resolve_event_params(ctx_of(contract, function, cur_expr), ps.deep_view(), pos),
        ),
{
    let ghost ctx = ctx_of(contract, function, cur_expr);
    let ghost pv = ps.deep_view();
    let n = ps.len();
    proof {
        assert(pv.subrange(0, n as int) =~= pv);
    }
    let mut i: usize = 0;
    while i < n
        invariant
            n == ps@.len(),
            i <= n,
            pv == ps.deep_view(),
            pv.len() == n,
            ctx == ctx_of(contract, function, cur_expr),
            !(resolve_event_params(ctx, pv, pos) is Invalid),
            resolve_event_params(ctx, pv.subrange(i as int, n as int), pos)
                == resolve_event_params(ctx, pv, pos),
        decreases n - i,
    {
        proof {
            assert(pv.subrange(i as int, n as int)[0] == pv[i as int]);
            assert(pv.subrange(i as int, n as int).subrange(1, (n - i) as int) =~= pv.subrange(
                i as int + 1,
                n as int,
            ));
        }
        let p = &ps[i];
        let r = find_type(contract, function, cur_expr, &p.ty, pos);
        if r.is_some() {
            return r;
        }
        let r = match &p.name {
            Some(nm) => find_ident(contract, function, cur_expr, nm, pos),
            None => None,
        };
        if r.is_some() {
            return r;
        }
        i += 1;
    }
    None
}

#[verifier::loop_isolation(false)]
fn find_struct<'a>(
    contract: Option<&'a ItemContract>,
    function: Option<&'a ItemFunction>,
    cur_expr: Option<&'a Expr>,
    s: &'a ItemStruct,
    pos: Position,
) -> (r: Option<FoundNode<'a>>)
    requires
        !(resolve_struct(ctx_of(contract, function, cur_expr), s.deep_view(), pos) is Invalid),
    ensures
        found_matches(
            r.deep_view(),
            resolve_struct(ctx_of(contract, function, cur_expr), s.deep_view(), pos),
        ),
{
    let ghost ctx = ctx_of(contract, function, cur_expr);
    if in_range(&s.span, pos) {
        if in_range(&s.name.span, pos) {
            return Some(FoundNode::StructDefName(contract, &s.name));
        }
        let ghost fv = s.fields.deep_view();
        let n = s.fields.len();
        proof {
            assert(fv.subrange(0, n as int) =~= fv);
        }
        let mut i: usize = 0;
        while i < n
            invariant
                n == s.fields@.len(),
                i <= n,
                fv == s.fields.deep_view(),
                fv.len() == n,
                first_named_decl(fv.subrange(i as int, n as int), pos) == first_named_decl(fv, pos),
            decreases n - i,
        {
            proof {
                assert(fv.subrange(i as int, n as int)[0] == fv[i as int]);
                assert(fv.subrange(i as int, n as int).subrange(1, (n - i) as int) =~= fv.subrange(
                    i as int + 1,
                    n as int,
                ));
            }
            if let Some(nm) = &s.fields[i].name {
                if in_range(&nm.span, pos) {
                    match contract {
                        Some(c) => {
                            return Some(
                                FoundNode::StructDefPropertyName(c, function, &s.fields[i], nm),
                            );
                        },
                        None => {
                            return unreached();
                        },
                    }
                }
            }
            i += 1;
        }
        assert(first_named_decl(fv, pos) is None);
    }
    let r = find_ident(contract, function, cur_expr, &s.name, pos);
    if r.is_some() {
        return r;
    }
    find_var_decls(contract, function, cur_expr, &s.fields, pos)
}

fn find_function_children<'a>(
    contract: Option<&'a ItemContract>,
    function: Option<&'a ItemFunction>,
    cur_expr: Option<&'a Expr>,
    f: &'a ItemFunction,
    pos: Position,
) -> (r: Option<FoundNode<'a>>)
    requires
        !(resolve_function_children(ctx_of(contract, function, cur_expr), f.deep_view(), pos)
            is Invalid),
    ensures
        found_matches(
            r.deep_view(),
            resolve_function_children(ctx_of(contract, function, cur_expr), f.deep_view(), pos),
        ),
{
    let r = find_ident(contract, function, cur_expr, &f.name, pos);
    if r.is_some() {
        return r;
    }
    let r = find_var_decls(contract, function, cur_expr, &f.parameters, pos);
    if r.is_some() {
        return r;
    }
    let r = find_var_decls(contract, function, cur_expr, &f.returns, pos);
    if r.is_some() {
        return r;
    }
    match &f.body {
        FunctionBody::Block(b) => find_stmts(contract, function, cur_expr, &b.stmts, pos),
        FunctionBody::Empty => None,
    }
}

#[verifier::loop_isolation(false)]
fn find_function<'a>(
    contract: Option<&'a ItemContract>,
    function: Option<&'a ItemFunction>,
    cur_expr: Option<&'a Expr>,
    f: &'a ItemFunction,
    pos: Position,
) -> (r: Option<FoundNode<'a>>)
    requires
        !(resolve_function(ctx_of(contract, function, cur_expr), f.deep_view(), pos) is Invalid),
    ensures
        found_matches(
            r.deep_view(),
            resolve_function(ctx_of(contract, function, cur_expr), f.deep_view(), pos),
        ),
{
    let ghost ctx = ctx_of(contract, function, cur_expr);
    if in_range(&f.span, pos) {
        if in_range(&f.name.span, pos) {
            match contract {
                Some(c) => {
                    return Some(FoundNode::FunctionDefName(c, f));
                },
                None => {
                    return unreached();
                },
            }
        }
        let ghost pv = f.parameters.deep_view();
        let n = f.parameters.len();
        proof {
            assert(pv.subrange(0, n as int) =~= pv);
        }
        let mut i: usize = 0;
        while i < n
            invariant
                n == f.parameters@.len(),
                i <= n,
                pv == f.parameters.deep_view(),
                pv.len() == n,
                first_named_decl(pv.subrange(i as int, n as int), pos) == first_named_decl(pv, pos),
            decreases n - i,
        {
            proof {
                assert(pv.subrange(i as int, n as int)[0] == pv[i as int]);
                assert(pv.subrange(i as int, n as int).subrange(1, (n - i) as int) =~= pv.subrange(
                    i as int + 1,
                    n as int,
                ));
            }
            if let Some(nm) = &f.parameters[i].name {
                if in_range(&nm.span, pos) {
                    match contract {
                        Some(c) => {
                            return Some(
                                FoundNode::FunctionDefParameterName(c, f, &f.parameters[i], nm),
                            );
                        },
                        None => {
                            return unreached();
                        },
                    }
                }
            }
            i += 1;
        }
        assert(first_named_decl(pv, pos) is None);
        find_function_children(contract, Some(f), cur_expr, f, pos)
    } else {
        find_function_children(contract, function, cur_expr, f, pos)
    }
}

fn find_def<'a>(
    contract: Option<&'a ItemContract>,
    function: Option<&'a ItemFunction>,
    cur_expr: Option<&'a Expr>,
    d: &'a Definition,
    pos: Position,
) -> (r: Option<FoundNode<'a>>)
    requires
        !(resolve_def(ctx_of(contract, function, cur_expr), d.deep_view(), pos) is Invalid),
    ensures
        found_matches(
            r.deep_view(),
            resolve_def(ctx_of(contract, function, cur_expr), d.deep_view(), pos),
        ),
{
    match d {
        Definition::Function(f) => find_function(contract, function, cur_expr, f, pos),
        Definition::Variable(v) => find_var_def(contract, function, cur_expr, v, pos),
        Definition::Enum(e) => find_enum(contract, function, cur_expr, e, pos),
        Definition::Struct(s) => find_struct(contract, function, cur_expr, s, pos),
        Definition::Error(e) => find_error(contract, function, cur_expr, e, pos),
        Definition::Event(e) => find_event(contract, function, cur_expr, e, pos),
    }
}

fn find_defs<'a>(
    contract: Option<&'a ItemContract>,
    function: Option<&'a ItemFunction>,
    cur_expr: Option<&'a Expr>,
    ds: &'a Vec<Definition>,
    pos: Position,
) -> (r: Option<FoundNode<'a>>)
    requires
        !(resolve_defs(ctx_of(contract, function, cur_expr), ds.deep_view(), pos) is Invalid),
    ensures
        found_matches(
            r.deep_view(),
            resolve_defs(ctx_of(contract, function, cur_expr), ds.deep_view(), pos),
        ),
{
    let ghost ctx = ctx_of(contract, function, cur_expr);
    let ghost dv = ds.deep_view();
    let n = ds.len();
    proof {
        assert(dv.subrange(0, n as int) =~= dv);
    }
    let mut i: usize = 0;
    while i < n
        invariant
            n == ds@.len(),
            i <= n,
            dv == ds.deep_view(),
            dv.len() == n,
            ctx == ctx_of(contract, function, cur_expr),
            !(resolve_defs(ctx, dv, pos) is Invalid),
            resolve_defs(ctx, dv.subrange(i as int, n as int), pos) == resolve_defs(ctx, dv, pos),
        decreases n - i,
    {
        proof {
            assert(dv.subrange(i as int, n as int)[0] == dv[i as int]);
            assert(dv.subrange(i as int, n as int).subrange(1, (n - i) as int) =~= dv.subrange(
                i as int + 1,
                n as int,
            ));
        }
        let r = find_def(contract, function, cur_expr, &ds[i], pos);
        if r.is_some() {
            return r;
        }
        i += 1;
    }
    None
}

#[verifier::loop_isolation(false)]
fn find_contract<'a>(
    contract: Option<&'a ItemContract>,
    function: Option<&'a ItemFunction>,
    cur_expr: Option<&'a Expr>,
    c: &'a ItemContract,
    pos: Position,
) -> (r: Option<FoundNode<'a>>)
    requires
        !(resolve_contract(ctx_of(contract, function, cur_expr), c.deep_view(), pos) is Invalid),
    ensures
        found_matches(
            r.deep_view(),
            resolve_contract(ctx_of(contract, function, cur_expr), c.deep_view(), pos),
        ),
{
    let ghost ctx = ctx_of(contract, function, cur_expr);
    if in_range(&c.span, pos) {
        if in_range(&c.name.span, pos) {
            return Some(FoundNode::ContractDefName(c));
        }
        if let Some(inh) = &c.inheritance {
            if in_range(&inh.span, pos) {
                let ghost iv = inh.paths.deep_view();
                let n = inh.paths.len();
                proof {
                    assert(iv.subrange(0, n as int) =~= iv);
                }
                let mut i: usize = 0;
                while i < n
                    invariant
                        n == inh.paths@.len(),
                        i <= n,
                        iv == inh.paths.deep_view(),
                        iv.len() == n,
                        first_path(iv.subrange(i as int, n as int), pos) == first_path(iv, pos),
                    decreases n - i,
                {
                    proof {
                        assert(iv.subrange(i as int, n as int)[0] == iv[i as int]);
                        assert(iv.subrange(i as int, n as int).subrange(1, (n - i) as int)
                            =~= iv.subrange(i as int + 1, n as int));
                    }
                    if in_range(&inh.paths[i].span, pos) {
                        return Some(FoundNode::ContractDefInheritance(c, &inh.paths[i]));
                    }
                    i += 1;
                }
                assert(first_path(iv, pos) is None);
            }
        }
    }
    let r = find_ident(Some(c), function, cur_expr, &c.name, pos);
    if r.is_some() {
        return r;
    }
    find_defs(Some(c), function, cur_expr, &c.body, pos)
}

fn find_item<'a>(
    contract: Option<&'a ItemContract>,
    function: Option<&'a ItemFunction>,
    cur_expr: Option<&'a Expr>,
    item: &'a Item,
    pos: Position,
) -> (r: Option<FoundNode<'a>>)
    requires
        !(resolve_item(ctx_of(contract, function, cur_expr), item.deep_view(), pos) is Invalid),
    ensures
        found_matches(
            r.deep_view(),
            resolve_item(ctx_of(contract, function, cur_expr), item.deep_view(), pos),
        ),
{
    match item {
        Item::Contract(c) => find_contract(contract, function, cur_expr, c, pos),
        Item::Def(d) => find_def(contract, function, cur_expr, d, pos),
        Item::Pragma(_) => None,
    }
}

/// Resolve a position against a parsed file.
///
/// Returns the first match of the depth-first walk, or `None` when no node
/// of the tree contains the position.  The caller must query a tree that is
/// well formed at the position: a query that reaches a node demanding
/// enclosing context where there is none (for example an event declared
/// outside any contract) is excluded by the precondition.
#[verifier::loop_isolation(false)]
pub fn retrieve_node_from_position<'a>(ast: &'a File, pos: Position) -> (r: Option<FoundNode<'a>>)
    requires
        !(resolve_file(ast.deep_view(), pos) is Invalid),
    ensures
        found_matches(r.deep_view(), resolve_file(ast.deep_view(), pos)),
{
    let ghost fv = ast.deep_view();
    let ghost ctx = empty_ctx();
    let ghost iv = ast.items.deep_view();
    let n = ast.items.len();
    proof {
        assert(ctx_of(None, None, None) == empty_ctx());
        assert(iv.subrange(0, n as int) =~= iv);
    }
    let mut i: usize = 0;
    while i < n
        invariant
            n == ast.items@.len(),
            i <= n,
            iv == ast.items.deep_view(),
            iv.len() == n,
            !(resolve_items(empty_ctx(), iv, pos) is Invalid),
            resolve_items(empty_ctx(), iv.subrange(i as int, n as int), pos) == resolve_items(
                empty_ctx(),
                iv,
                pos,
            ),
        decreases n - i,
    {
        proof {
            assert(iv.subrange(i as int, n as int)[0] == iv[i as int]);
            assert(iv.subrange(i as int, n as int).subrange(1, (n - i) as int) =~= iv.subrange(
                i as int + 1,
                n as int,
            ));
            assert(ctx_of(None, None, None) == empty_ctx());
        }
        let r = find_item(None, None, None, &ast.items[i], pos);
        if r.is_some() {
            return r;
        }
        i += 1;
    }
    None
}

} // verus!

verus! {

// ---------------------------------------------------------------------------
// Laws of the resolution policy
// ---------------------------------------------------------------------------

/// A position inside a function definition's name token resolves to the
/// function-name variant carrying the enclosing contract.
pub proof fn lemma_name_hit_function(ctx: Ctx, f: FunctionV, pos: Position)
    requires
        spec_in_range(f.span, pos),
        spec_in_range(f.name.span, pos),
        ctx.contract is Some,
    ensures
        resolve_function(ctx, f, pos) == Lookup::Found(
            FoundNodeV::FunctionDefName(ctx.contract->0, f),
        ),
{
}

/// A position inside a contract definition's name token resolves to the
/// contract-name variant.
pub proof fn lemma_name_hit_contract(ctx: Ctx, c: ContractV, pos: Position)
    requires
        spec_in_range(c.span, pos),
        spec_in_range(c.name.span, pos),
    ensures
        resolve_contract(ctx, c, pos) == Lookup::Found(FoundNodeV::ContractDefName(c)),
{
}

/// A position inside a state variable's name token resolves to the
/// property-name variant under a contract, and to the constant-name variant
/// at file level.
pub proof fn lemma_name_hit_var_def(ctx: Ctx, v: VarDefV, pos: Position)
    requires
        spec_in_range(v.span, pos),
        spec_in_range(v.name.span, pos),
    ensures
        ctx.contract is Some ==> resolve_var_def(ctx, v, pos) == Lookup::Found(
            FoundNodeV::PropertyDefName(ctx.contract->0, v, v.name),
        ),
        ctx.contract is None ==> resolve_var_def(ctx, v, pos) == Lookup::Found(
            FoundNodeV::ConstantVariableDefName(v, v.name),
        ),
{
}

/// A position inside an enum definition's name token resolves to the
/// enum-name variant carrying the enclosing contract slot as it stands.
pub proof fn lemma_name_hit_enum(ctx: Ctx, e: EnumV, pos: Position)
    requires
        spec_in_range(e.span, pos),
        spec_in_range(e.name.span, pos),
    ensures
        resolve_enum(ctx, e, pos) == Lookup::Found(FoundNodeV::EnumDefName(ctx.contract, e, e.name)),
{
}

/// A position inside a struct definition's name token resolves to the
/// struct-name variant.
pub proof fn lemma_name_hit_struct(ctx: Ctx, s: StructV, pos: Position)
    requires
        spec_in_range(s.span, pos),
        spec_in_range(s.name.span, pos),
    ensures
        resolve_struct(ctx, s, pos) == Lookup::Found(FoundNodeV::StructDefName(ctx.contract, s.name)),
{
}

/// A position inside an error definition's name token resolves to the
/// error-name variant.
pub proof fn lemma_name_hit_error(ctx: Ctx, e: ErrorV, pos: Position)
    requires
        spec_in_range(e.span, pos),
        spec_in_range(e.name.span, pos),
    ensures
        resolve_error(ctx, e, pos) == Lookup::Found(FoundNodeV::ErrorDefName(ctx.contract, e, e.name)),
{
}

/// A position inside an event definition's name token resolves to the
/// event-name variant carrying the enclosing contract.
pub proof fn lemma_name_hit_event(ctx: Ctx, e: EventV, pos: Position)
    requires
        spec_in_range(e.span, pos),
        spec_in_range(e.name.span, pos),
        ctx.contract is Some,
    ensures
        resolve_event(ctx, e, pos) == Lookup::Found(
            FoundNodeV::EventDefName(ctx.contract->0, e, e.name),
        ),
{
}

/// A position inside a local declaration's name token resolves to the
/// variable-name variant carrying the contract and function context as they
/// stand.
pub proof fn lemma_name_hit_var_decl(ctx: Ctx, v: VarDeclV, pos: Position)
    requires
        spec_in_range(v.span, pos),
        v.name is Some,
        spec_in_range(v.name->0.span, pos),
    ensures
        resolve_var_decl(ctx, v, pos) == Lookup::Found(
            FoundNodeV::VariableDefName(ctx.contract, ctx.function, v, v.name->0),
        ),
{
}

/// A position inside a call expression but outside its argument list
/// resolves to the call-name variant; the walk never descends into the
/// callee in that case.
pub proof fn lemma_call_name(ctx: Ctx, c: ExprCallV, pos: Position)
    requires
        spec_in_range(c.span, pos),
        !spec_in_range(c.args.span, pos),
        ctx.contract is Some,
        ctx.function is Some,
    ensures
        resolve_expr(ctx, ExprV::Call(c), pos) == Lookup::Found(
            FoundNodeV::FunctionUsageName(ctx.contract->0, ctx.function->0, c),
        ),
{
    assert(spec_expr_span(ExprV::Call(c)) == c.span);
    let ctx2 = Ctx { expr: Some(ExprV::Call(c)), ..ctx };
    assert(resolve_expr(ctx, ExprV::Call(c), pos) == resolve_call(ctx2, c, pos));
    assert(resolve_call(ctx2, c, pos) == Lookup::Found(
        FoundNodeV::FunctionUsageName(ctx.contract->0, ctx.function->0, c),
    ));
}

/// Resolution is a function of the tree and the position alone: two results
/// that both meet the resolver's contract against the same tree and position
/// are structurally equal.
pub proof fn lemma_resolve_deterministic(
    r1: Option<FoundNodeV>,
    r2: Option<FoundNodeV>,
    f: FileV,
    pos: Position,
)
    requires
        !(resolve_file(f, pos) is Invalid),
        found_matches(r1, resolve_file(f, pos)),
        found_matches(r2, resolve_file(f, pos)),
    ensures
        r1 == r2,
{
}

} // verus!

verus! {

// ---------------------------------------------------------------------------
// Law: a position outside every node's span resolves to nothing
// ---------------------------------------------------------------------------

pub open spec fn outside_ident(id: IdentV, pos: Position) -> bool {
    !spec_in_range(id.span, pos)
}

pub open spec fn outside_type(t: TypeV, pos: Position) -> bool {
    &&& !spec_in_range(t.span, pos)
    &&& match t.kind {
        TypeKindV::Custom(id) => outside_ident(id, pos),
        _ => true,
    }
}

pub open spec fn outside_expr(e: ExprV, pos: Position) -> bool
    decreases e,
{
    match e {
        ExprV::Call(c) => !spec_in_range(c.span, pos) && !spec_in_range(c.args.span, pos)
            && outside_expr(*c.callee, pos) && outside_exprs(c.args.args, pos),
        ExprV::New(n) => !spec_in_range(n.span, pos) && outside_type(n.ty, pos),
        ExprV::Ident(i) => outside_ident(i, pos),
        ExprV::Lit(sp) => !spec_in_range(sp, pos),
        ExprV::Binary(b) => !spec_in_range(b.span, pos) && outside_expr(*b.left, pos)
            && outside_expr(*b.right, pos),
    }
}

pub open spec fn outside_exprs(es: Seq<ExprV>, pos: Position) -> bool
    decreases es,
{
    if es.len() == 0 {
        true
    } else {
        outside_expr(es[0], pos) && outside_exprs(es.subrange(1, es.len() as int), pos)
    }
}

pub open spec fn outside_var_decl(v: VarDeclV, pos: Position) -> bool {
    &&& !spec_in_range(v.span, pos)
    &&& outside_type(v.ty, pos)
    &&& match v.name {
        Some(n) => outside_ident(n, pos),
        None => true,
    }
}

pub open spec fn outside_var_decls(ps: Seq<VarDeclV>, pos: Position) -> bool
    decreases ps,
{
    if ps.len() == 0 {
        true
    } else {
        outside_var_decl(ps[0], pos) && outside_var_decls(ps.subrange(1, ps.len() as int), pos)
    }
}

pub open spec fn outside_var_def(v: VarDefV, pos: Position) -> bool {
    &&& !spec_in_range(v.span, pos)
    &&& outside_type(v.ty, pos)
    &&& outside_ident(v.name, pos)
    &&& match v.initializer {
        Some(e) => outside_expr(e, pos),
        None => true,
    }
}

pub open spec fn outside_stmt(s: StmtV, pos: Position) -> bool
    decreases s,
{
    match s {
        StmtV::VarDecl(sv) => !spec_in_range(sv.span, pos) && outside_var_decl(sv.declaration, pos)
            && match sv.assignment {
            Some(e) => outside_expr(e, pos),
            None => true,
        },
        StmtV::Expr(se) => !spec_in_range(se.span, pos) && outside_expr(se.expr, pos),
        StmtV::Block(b) => !spec_in_range(b.span, pos) && outside_stmts(b.stmts, pos),
        StmtV::Return(r) => !spec_in_range(r.span, pos) && match r.expr {
            Some(e) => outside_expr(e, pos),
            None => true,
        },
    }
}

pub open spec fn outside_stmts(ss: Seq<StmtV>, pos: Position) -> bool
    decreases ss,
{
    if ss.len() == 0 {
        true
    } else {
        outside_stmt(ss[0], pos) && outside_stmts(ss.subrange(1, ss.len() as int), pos)
    }
}

pub open spec fn outside_idents(ids: Seq<IdentV>, pos: Position) -> bool
    decreases ids,
{
    if ids.len() == 0 {
        true
    } else {
        outside_ident(ids[0], pos) && outside_idents(ids.subrange(1, ids.len() as int), pos)
    }
}

pub open spec fn outside_event_param(p: EventParamV, pos: Position) -> bool {
    &&& !spec_in_range(p.span, pos)
    &&& outside_type(p.ty, pos)
    &&& match p.name {
        Some(n) => outside_ident(n, pos),
        None => true,
    }
}

pub open spec fn outside_event_params(ps: Seq<EventParamV>, pos: Position) -> bool
    decreases ps,
{
    if ps.len() == 0 {
        true
    } else {
        outside_event_param(ps[0], pos) && outside_event_params(
            ps.subrange(1, ps.len() as int),
            pos,
        )
    }
}

pub open spec fn outside_def(d: DefV, pos: Position) -> bool {
    match d {
        DefV::Function(f) => !spec_in_range(f.span, pos) && outside_ident(f.name, pos)
            && outside_var_decls(f.parameters, pos) && outside_var_decls(f.returns, pos) && match f.body {
            FunctionBodyV::Block(b) => !spec_in_range(b.span, pos) && outside_stmts(b.stmts, pos),
            FunctionBodyV::Empty => true,
        },
        DefV::Variable(v) => outside_var_def(v, pos),
        DefV::Enum(e) => !spec_in_range(e.span, pos) && outside_ident(e.name, pos) && outside_idents(
            e.variants,
            pos,
        ),
        DefV::Struct(s) => !spec_in_range(s.span, pos) && outside_ident(s.name, pos)
            && outside_var_decls(s.fields, pos),
        DefV::Error(e) => !spec_in_range(e.span, pos) && outside_ident(e.name, pos)
            && outside_var_decls(e.parameters, pos),
        DefV::Event(e) => !spec_in_range(e.span, pos) && outside_ident(e.name, pos)
            && outside_event_params(e.parameters, pos),
    }
}

pub open spec fn outside_defs(ds: Seq<DefV>, pos: Position) -> bool
    decreases ds,
{
    if ds.len() == 0 {
        true
    } else {
        outside_def(ds[0], pos) && outside_defs(ds.subrange(1, ds.len() as int), pos)
    }
}

pub open spec fn outside_item(it: ItemV, pos: Position) -> bool {
    match it {
        ItemV::Contract(c) => !spec_in_range(c.span, pos) && outside_ident(c.name, pos) && (match c.inheritance {
            Some(inh) => !spec_in_range(inh.span, pos) && outside_idents(inh.paths, pos),
            None => true,
        }) && outside_defs(c.body, pos),
        ItemV::Def(d) => outside_def(d, pos),
        ItemV::Pragma(sp) => !spec_in_range(sp, pos),
    }
}

pub open spec fn outside_items(items: Seq<ItemV>, pos: Position) -> bool
    decreases items,
{
    if items.len() == 0 {
        true
    } else {
        outside_item(items[0], pos) && outside_items(items.subrange(1, items.len() as int), pos)
    }
}

/// The position lies outside the span of every node of the file.
pub open spec fn outside_file(f: FileV, pos: Position) -> bool {
    outside_items(f.items, pos)
}

proof fn lemma_out_expr(ctx: Ctx, e: ExprV, pos: Position)
    requires
        outside_expr(e, pos),
    ensures
        resolve_expr(ctx, e, pos) is Missed,
    decreases e,
{
    assert(!spec_in_range(spec_expr_span(e), pos));
    match e {
        ExprV::Call(c) => {
            lemma_out_expr(ctx, *c.callee, pos);
            lemma_out_exprs(ctx, c.args.args, pos);
            assert(resolve_expr(ctx, e, pos) == resolve_call(ctx, c, pos));
            assert(resolve_call(ctx, c, pos) is Missed);
        },
        ExprV::Binary(b) => {
            lemma_out_expr(ctx, *b.left, pos);
            lemma_out_expr(ctx, *b.right, pos);
        },
        ExprV::New(n) => {
            assert(resolve_expr(ctx, e, pos) == resolve_type(ctx, n.ty, pos));
        },
        ExprV::Ident(i) => {
            assert(resolve_expr(ctx, e, pos) == resolve_ident(ctx, i, pos));
        },
        ExprV::Lit(_) => {},
    }
}

proof fn lemma_out_exprs(ctx: Ctx, es: Seq<ExprV>, pos: Position)
    requires
        outside_exprs(es, pos),
    ensures
        resolve_exprs(ctx, es, pos) is Missed,
    decreases es,
{
    if es.len() > 0 {
        lemma_out_expr(ctx, es[0], pos);
        lemma_out_exprs(ctx, es.subrange(1, es.len() as int), pos);
    }
}

proof fn lemma_out_var_decl(ctx: Ctx, v: VarDeclV, pos: Position)
    requires
        outside_var_decl(v, pos),
    ensures
        resolve_var_decl(ctx, v, pos) is Missed,
{
}

proof fn lemma_out_var_decls(ctx: Ctx, ps: Seq<VarDeclV>, pos: Position)
    requires
        outside_var_decls(ps, pos),
    ensures
        resolve_var_decls(ctx, ps, pos) is Missed,
    decreases ps,
{
    if ps.len() > 0 {
        lemma_out_var_decl(ctx, ps[0], pos);
        lemma_out_var_decls(ctx, ps.subrange(1, ps.len() as int), pos);
    }
}

proof fn lemma_out_stmt(ctx: Ctx, s: StmtV, pos: Position)
    requires
        outside_stmt(s, pos),
    ensures
        resolve_stmt(ctx, s, pos) is Missed,
    decreases s,
{
    match s {
        StmtV::VarDecl(sv) => {
            match sv.assignment {
                Some(e) => lemma_out_expr(ctx, e, pos),
                None => {},
            }
            lemma_out_var_decl(ctx, sv.declaration, pos);
        },
        StmtV::Expr(se) => lemma_out_expr(ctx, se.expr, pos),
        StmtV::Block(b) => lemma_out_stmts(ctx, b.stmts, pos),
        StmtV::Return(r) => match r.expr {
            Some(e) => lemma_out_expr(ctx, e, pos),
            None => {},
        },
    }
}

proof fn lemma_out_stmts(ctx: Ctx, ss: Seq<StmtV>, pos: Position)
    requires
        outside_stmts(ss, pos),
    ensures
        resolve_stmts(ctx, ss, pos) is Missed,
    decreases ss,
{
    if ss.len() > 0 {
        lemma_out_stmt(ctx, ss[0], pos);
        lemma_out_stmts(ctx, ss.subrange(1, ss.len() as int), pos);
    }
}

proof fn lemma_out_idents(ctx: Ctx, ids: Seq<IdentV>, pos: Position)
    requires
        outside_idents(ids, pos),
    ensures
        resolve_idents(ctx, ids, pos) is Missed,
    decreases ids,
{
    if ids.len() > 0 {
        lemma_out_idents(ctx, ids.subrange(1, ids.len() as int), pos);
    }
}

proof fn lemma_out_event_params(ctx: Ctx, ps: Seq<EventParamV>, pos: Position)
    requires
        outside_event_params(ps, pos),
    ensures
        resolve_event_params(ctx, ps, pos) is Missed,
    decreases ps,
{
    if ps.len() > 0 {
        lemma_out_event_params(ctx, ps.subrange(1, ps.len() as int), pos);
    }
}

proof fn lemma_out_def(ctx: Ctx, d: DefV, pos: Position)
    requires
        outside_def(d, pos),
    ensures
        resolve_def(ctx, d, pos) is Missed,
{
    match d {
        DefV::Function(f) => {
            lemma_out_var_decls(ctx, f.parameters, pos);
            lemma_out_var_decls(ctx, f.returns, pos);
            match f.body {
                FunctionBodyV::Block(b) => lemma_out_stmts(ctx, b.stmts, pos),
                FunctionBodyV::Empty => {},
            }
            assert(resolve_function_children(ctx, f, pos) is Missed);
        },
        DefV::Variable(_) => {},
        DefV::Enum(e) => {
            lemma_out_idents(ctx, e.variants, pos);
        },
        DefV::Struct(s) => {
            lemma_out_var_decls(ctx, s.fields, pos);
        },
        DefV::Error(e) => {
            lemma_out_var_decls(ctx, e.parameters, pos);
        },
        DefV::Event(e) => {
            lemma_out_event_params(ctx, e.parameters, pos);
        },
    }
}

proof fn lemma_out_defs(ctx: Ctx, ds: Seq<DefV>, pos: Position)
    requires
        outside_defs(ds, pos),
    ensures
        resolve_defs(ctx, ds, pos) is Missed,
    decreases ds,
{
    if ds.len() > 0 {
        lemma_out_def(ctx, ds[0], pos);
        lemma_out_defs(ctx, ds.subrange(1, ds.len() as int), pos);
    }
}

proof fn lemma_out_item(ctx: Ctx, it: ItemV, pos: Position)
    requires
        outside_item(it, pos),
    ensures
        resolve_item(ctx, it, pos) is Missed,
{
    match it {
        ItemV::Contract(c) => {
            let ctx2 = Ctx { contract: Some(c), ..ctx };
            lemma_out_defs(ctx2, c.body, pos);
        },
        ItemV::Def(d) => lemma_out_def(ctx, d, pos),
        ItemV::Pragma(_) => {},
    }
}

proof fn lemma_out_items(ctx: Ctx, items: Seq<ItemV>, pos: Position)
    requires
        outside_items(items, pos),
    ensures
        resolve_items(ctx, items, pos) is Missed,
    decreases items,
{
    if items.len() > 0 {
        lemma_out_item(ctx, items[0], pos);
        lemma_out_items(ctx, items.subrange(1, items.len() as int), pos);
    }
}

/// A position outside every node's span resolves to nothing.
pub proof fn lemma_outside_resolves_to_none(f: FileV, pos: Position)
    requires
        outside_file(f, pos),
    ensures
        resolve_file(f, pos) is Missed,
{
    lemma_out_items(empty_ctx(), f.items, pos);
}

} // verus!
