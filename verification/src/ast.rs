//! The syntax-tree model the resolver and the rules work on.
//!
//! The tree is produced outside this crate (a parser adapter converts its
//! own syntax tree into these types) and is immutable for the duration of
//! any query.  Every node carries the span the parser reported for it; for
//! named items that is the span of the name token, matching the parser's
//! convention.
//!
//! Each executable type has a mirror type (suffix `V`) over `Seq` values,
//! reached through `deep_view`; all contracts in this crate are stated over
//! the mirrors.

use vstd::prelude::*;

use crate::pos::Span;

verus! {

broadcast use vstd::seq::axiom_seq_index_decreases;

// ---------------------------------------------------------------------------
// Executable tree
// ---------------------------------------------------------------------------

/// A name token.
#[derive(Debug)]
pub struct Ident {
    pub span: Span,
    pub name: String,
}

/// A type reference.  Compound types are carried with the span of the whole
/// reference; the resolver never descends below a type reference.
#[derive(Debug)]
pub enum TypeKind {
    Address,
    Bool,
    Uint,
    Int,
    Str,
    Bytes,
    FixedBytes,
    Custom(Ident),
}

#[derive(Debug)]
pub struct Type {
    pub span: Span,
    pub kind: TypeKind,
}

/// The parenthesised argument list of a call.
#[derive(Debug)]
pub struct ArgList {
    pub span: Span,
    pub args: Vec<Expr>,
}

#[derive(Debug)]
pub struct ExprCall {
    pub span: Span,
    pub callee: Box<Expr>,
    pub args: ArgList,
}

#[derive(Debug)]
pub struct ExprNew {
    pub span: Span,
    pub ty: Type,
}

#[derive(Debug)]
pub struct ExprBinary {
    pub span: Span,
    pub left: Box<Expr>,
    pub right: Box<Expr>,
}

#[derive(Debug)]
pub enum Expr {
    Call(ExprCall),
    New(ExprNew),
    Ident(Ident),
    Lit(Span),
    Binary(ExprBinary),
}

/// `type name` as it appears in parameter lists, struct fields and local
/// declarations.  Return parameters may be unnamed.
#[derive(Debug)]
pub struct VariableDeclaration {
    pub span: Span,
    pub ty: Type,
    pub name: Option<Ident>,
}

/// A state variable or file-level constant definition.
#[derive(Debug)]
pub struct VariableDefinition {
    pub span: Span,
    pub ty: Type,
    pub name: Ident,
    pub initializer: Option<Expr>,
}

#[derive(Debug)]
pub struct Block {
    pub span: Span,
    pub stmts: Vec<Stmt>,
}

#[derive(Debug)]
pub struct StmtVarDecl {
    pub span: Span,
    pub assignment: Option<Expr>,
    pub declaration: VariableDeclaration,
}

#[derive(Debug)]
pub struct StmtExpr {
    pub span: Span,
    pub expr: Expr,
}

#[derive(Debug)]
pub struct StmtReturn {
    pub span: Span,
    pub expr: Option<Expr>,
}

#[derive(Debug)]
pub enum Stmt {
    VarDecl(StmtVarDecl),
    Expr(StmtExpr),
    Block(Block),
    Return(StmtReturn),
}

#[derive(Debug)]
pub enum FunctionBody {
    Block(Block),
    Empty,
}

#[derive(Debug)]
pub struct ItemFunction {
    pub span: Span,
    pub name: Ident,
    pub parameters: Vec<VariableDeclaration>,
    pub returns: Vec<VariableDeclaration>,
    pub body: FunctionBody,
}

#[derive(Debug)]
pub struct ItemEnum {
    pub span: Span,
    pub name: Ident,
    pub variants: Vec<Ident>,
}

#[derive(Debug)]
pub struct ItemStruct {
    pub span: Span,
    pub name: Ident,
    pub fields: Vec<VariableDeclaration>,
}

#[derive(Debug)]
pub struct ItemError {
    pub span: Span,
    pub name: Ident,
    pub parameters: Vec<VariableDeclaration>,
}

#[derive(Debug)]
pub struct EventParameter {
    pub span: Span,
    pub ty: Type,
    pub name: Option<Ident>,
}

#[derive(Debug)]
pub struct ItemEvent {
    pub span: Span,
    pub name: Ident,
    pub parameters: Vec<EventParameter>,
}

/// The `is A, B` clause of a contract definition.
#[derive(Debug)]
pub struct Inheritance {
    pub span: Span,
    pub paths: Vec<Ident>,
}

#[derive(Debug)]
pub struct ItemContract {
    pub span: Span,
    pub name: Ident,
    pub inheritance: Option<Inheritance>,
    pub body: Vec<Definition>,
}

/// An item that may appear at file level or inside a contract body.
#[derive(Debug)]
pub enum Definition {
    Function(ItemFunction),
    Variable(VariableDefinition),
    Enum(ItemEnum),
    Struct(ItemStruct),
    Error(ItemError),
    Event(ItemEvent),
}

/// A top-level item of a source file.
#[derive(Debug)]
pub enum Item {
    Contract(ItemContract),
    Def(Definition),
    Pragma(Span),
}

/// A parsed source file.
#[derive(Debug)]
pub struct File {
    pub items: Vec<Item>,
}

// ---------------------------------------------------------------------------
// Mirror types
// ---------------------------------------------------------------------------

pub struct IdentV {
    pub span: Span,
    pub name: Seq<char>,
}

pub enum TypeKindV {
    Address,
    Bool,
    Uint,
    Int,
    Str,
    Bytes,
    FixedBytes,
    Custom(IdentV),
}

pub struct TypeV {
    pub span: Span,
    pub kind: TypeKindV,
}

pub struct ArgListV {
    pub span: Span,
    pub args: Seq<ExprV>,
}

pub struct ExprCallV {
    pub span: Span,
    pub callee: Box<ExprV>,
    pub args: ArgListV,
}

pub struct ExprNewV {
    pub span: Span,
    pub ty: TypeV,
}

pub struct ExprBinaryV {
    pub span: Span,
    pub left: Box<ExprV>,
    pub right: Box<ExprV>,
}

pub enum ExprV {
    Call(ExprCallV),
    New(ExprNewV),
    Ident(IdentV),
    Lit(Span),
    Binary(ExprBinaryV),
}

pub struct VarDeclV {
    pub span: Span,
    pub ty: TypeV,
    pub name: Option<IdentV>,
}

pub struct VarDefV {
    pub span: Span,
    pub ty: TypeV,
    pub name: IdentV,
    pub initializer: Option<ExprV>,
}

pub struct BlockV {
    pub span: Span,
    pub stmts: Seq<StmtV>,
}

pub struct StmtVarDeclV {
    pub span: Span,
    pub assignment: Option<ExprV>,
    pub declaration: VarDeclV,
}

pub struct StmtExprV {
    pub span: Span,
    pub expr: ExprV,
}

pub struct StmtReturnV {
    pub span: Span,
    pub expr: Option<ExprV>,
}

pub enum StmtV {
    VarDecl(StmtVarDeclV),
    Expr(StmtExprV),
    Block(BlockV),
    Return(StmtReturnV),
}

pub enum FunctionBodyV {
    Block(BlockV),
    Empty,
}

pub struct FunctionV {
    pub span: Span,
    pub name: IdentV,
    pub parameters: Seq<VarDeclV>,
    pub returns: Seq<VarDeclV>,
    pub body: FunctionBodyV,
}

pub struct EnumV {
    pub span: Span,
    pub name: IdentV,
    pub variants: Seq<IdentV>,
}

pub struct StructV {
    pub span: Span,
    pub name: IdentV,
    pub fields: Seq<VarDeclV>,
}

pub struct ErrorV {
    pub span: Span,
    pub name: IdentV,
    pub parameters: Seq<VarDeclV>,
}

pub struct EventParamV {
    pub span: Span,
    pub ty: TypeV,
    pub name: Option<IdentV>,
}

pub struct EventV {
    pub span: Span,
    pub name: IdentV,
    pub parameters: Seq<EventParamV>,
}

pub struct InheritanceV {
    pub span: Span,
    pub paths: Seq<IdentV>,
}

pub struct ContractV {
    pub span: Span,
    pub name: IdentV,
    pub inheritance: Option<InheritanceV>,
    pub body: Seq<DefV>,
}

pub enum DefV {
    Function(FunctionV),
    Variable(VarDefV),
    Enum(EnumV),
    Struct(StructV),
    Error(ErrorV),
    Event(EventV),
}

pub enum ItemV {
    Contract(ContractV),
    Def(DefV),
    Pragma(Span),
}

pub struct FileV {
    pub items: Seq<ItemV>,
}

// ---------------------------------------------------------------------------
// Views
// ---------------------------------------------------------------------------

impl DeepView for Ident {
    type V = IdentV;

    open spec fn deep_view(&self) -> IdentV {
        IdentV { span: self.span, name: self.name@ }
    }
}

impl DeepView for TypeKind {
    type V = TypeKindV;

    open spec fn deep_view(&self) -> TypeKindV {
        match self {
            TypeKind::Address => TypeKindV::Address,
            TypeKind::Bool => TypeKindV::Bool,
            TypeKind::Uint => TypeKindV::Uint,
            TypeKind::Int => TypeKindV::Int,
            TypeKind::Str => TypeKindV::Str,
            TypeKind::Bytes => TypeKindV::Bytes,
            TypeKind::FixedBytes => TypeKindV::FixedBytes,
            TypeKind::Custom(id) => TypeKindV::Custom(id.deep_view()),
        }
    }
}

impl DeepView for Type {
    type V = TypeV;

    open spec fn deep_view(&self) -> TypeV {
        TypeV { span: self.span, kind: self.kind.deep_view() }
    }
}

/// View of an expression; recursion goes through [`view_exprs`] for child
/// lists, so termination is by the structure of the tree.
pub open spec fn view_expr(e: Expr) -> ExprV
    decreases e,
{
    match e {
        Expr::Call(c) => ExprV::Call(
            ExprCallV {
                span: c.span,
                callee: Box::new(view_expr(*c.callee)),
                args: ArgListV { span: c.args.span, args: view_exprs(c.args.args@) },
            },
        ),
        Expr::New(n) => ExprV::New(ExprNewV { span: n.span, ty: n.ty.deep_view() }),
        Expr::Ident(i) => ExprV::Ident(i.deep_view()),
        Expr::Lit(sp) => ExprV::Lit(sp),
        Expr::Binary(b) => ExprV::Binary(
            ExprBinaryV {
                span: b.span,
                left: Box::new(view_expr(*b.left)),
                right: Box::new(view_expr(*b.right)),
            },
        ),
    }
}

pub open spec fn view_exprs(es: Seq<Expr>) -> Seq<ExprV>
    decreases es,
{
    if es.len() == 0 {
        Seq::empty()
    } else {
        seq![view_expr(es[0])] + view_exprs(es.subrange(1, es.len() as int))
    }
}

impl DeepView for Expr {
    type V = ExprV;

    open spec fn deep_view(&self) -> ExprV {
        view_expr(*self)
    }
}

impl DeepView for ArgList {
    type V = ArgListV;

    open spec fn deep_view(&self) -> ArgListV {
        ArgListV { span: self.span, args: view_exprs(self.args@) }
    }
}

impl DeepView for ExprCall {
    type V = ExprCallV;

    open spec fn deep_view(&self) -> ExprCallV {
        ExprCallV {
            span: self.span,
            callee: Box::new(view_expr(*self.callee)),
            args: self.args.deep_view(),
        }
    }
}

impl DeepView for ExprNew {
    type V = ExprNewV;

    open spec fn deep_view(&self) -> ExprNewV {
        ExprNewV { span: self.span, ty: self.ty.deep_view() }
    }
}

pub open spec fn view_stmt(s: Stmt) -> StmtV
    decreases s,
{
    match s {
        Stmt::VarDecl(sv) => StmtV::VarDecl(
            StmtVarDeclV {
                span: sv.span,
                assignment: sv.assignment.deep_view(),
                declaration: sv.declaration.deep_view(),
            },
        ),
        Stmt::Expr(se) => StmtV::Expr(StmtExprV { span: se.span, expr: se.expr.deep_view() }),
        Stmt::Block(b) => StmtV::Block(BlockV { span: b.span, stmts: view_stmts(b.stmts@) }),
        Stmt::Return(r) => StmtV::Return(StmtReturnV { span: r.span, expr: r.expr.deep_view() }),
    }
}

pub open spec fn view_stmts(ss: Seq<Stmt>) -> Seq<StmtV>
    decreases ss,
{
    if ss.len() == 0 {
        Seq::empty()
    } else {
        seq![view_stmt(ss[0])] + view_stmts(ss.subrange(1, ss.len() as int))
    }
}

impl DeepView for Stmt {
    type V = StmtV;

    open spec fn deep_view(&self) -> StmtV {
        view_stmt(*self)
    }
}

impl DeepView for VariableDeclaration {
    type V = VarDeclV;

    open spec fn deep_view(&self) -> VarDeclV {
        VarDeclV { span: self.span, ty: self.ty.deep_view(), name: self.name.deep_view() }
    }
}

impl DeepView for VariableDefinition {
    type V = VarDefV;

    open spec fn deep_view(&self) -> VarDefV {
        VarDefV {
            span: self.span,
            ty: self.ty.deep_view(),
            name: self.name.deep_view(),
            initializer: self.initializer.deep_view(),
        }
    }
}

impl DeepView for Block {
    type V = BlockV;

    open spec fn deep_view(&self) -> BlockV {
        BlockV { span: self.span, stmts: view_stmts(self.stmts@) }
    }
}

impl DeepView for FunctionBody {
    type V = FunctionBodyV;

    open spec fn deep_view(&self) -> FunctionBodyV {
        match self {
            FunctionBody::Block(b) => FunctionBodyV::Block(b.deep_view()),
            FunctionBody::Empty => FunctionBodyV::Empty,
        }
    }
}

impl DeepView for ItemFunction {
    type V = FunctionV;

    open spec fn deep_view(&self) -> FunctionV {
        FunctionV {
            span: self.span,
            name: self.name.deep_view(),
            parameters: self.parameters.deep_view(),
            returns: self.returns.deep_view(),
            body: self.body.deep_view(),
        }
    }
}

impl DeepView for ItemEnum {
    type V = EnumV;

    open spec fn deep_view(&self) -> EnumV {
        EnumV { span: self.span, name: self.name.deep_view(), variants: self.variants.deep_view() }
    }
}

impl DeepView for ItemStruct {
    type V = StructV;

    open spec fn deep_view(&self) -> StructV {
        StructV { span: self.span, name: self.name.deep_view(), fields: self.fields.deep_view() }
    }
}

impl DeepView for ItemError {
    type V = ErrorV;

    open spec fn deep_view(&self) -> ErrorV {
        ErrorV {
            span: self.span,
            name: self.name.deep_view(),
            parameters: self.parameters.deep_view(),
        }
    }
}

impl DeepView for EventParameter {
    type V = EventParamV;

    open spec fn deep_view(&self) -> EventParamV {
        EventParamV { span: self.span, ty: self.ty.deep_view(), name: self.name.deep_view() }
    }
}

impl DeepView for ItemEvent {
    type V = EventV;

    open spec fn deep_view(&self) -> EventV {
        EventV {
            span: self.span,
            name: self.name.deep_view(),
            parameters: self.parameters.deep_view(),
        }
    }
}

impl DeepView for Inheritance {
    type V = InheritanceV;

    open spec fn deep_view(&self) -> InheritanceV {
        InheritanceV { span: self.span, paths: self.paths.deep_view() }
    }
}

impl DeepView for ItemContract {
    type V = ContractV;

    open spec fn deep_view(&self) -> ContractV {
        ContractV {
            span: self.span,
            name: self.name.deep_view(),
            inheritance: self.inheritance.deep_view(),
            body: self.body.deep_view(),
        }
    }
}

impl DeepView for Definition {
    type V = DefV;

    open spec fn deep_view(&self) -> DefV {
        match self {
            Definition::Function(f) => DefV::Function(f.deep_view()),
            Definition::Variable(v) => DefV::Variable(v.deep_view()),
            Definition::Enum(e) => DefV::Enum(e.deep_view()),
            Definition::Struct(s) => DefV::Struct(s.deep_view()),
            Definition::Error(e) => DefV::Error(e.deep_view()),
            Definition::Event(e) => DefV::Event(e.deep_view()),
        }
    }
}

impl DeepView for Item {
    type V = ItemV;

    open spec fn deep_view(&self) -> ItemV {
        match self {
            Item::Contract(c) => ItemV::Contract(c.deep_view()),
            Item::Def(d) => ItemV::Def(d.deep_view()),
            Item::Pragma(sp) => ItemV::Pragma(*sp),
        }
    }
}

impl DeepView for File {
    type V = FileV;

    open spec fn deep_view(&self) -> FileV {
        FileV { items: self.items.deep_view() }
    }
}

// ---------------------------------------------------------------------------
// Indexing lemmas for the recursive list views
// ---------------------------------------------------------------------------

pub proof fn lemma_view_exprs(es: Seq<Expr>)
    ensures
        view_exprs(es).len() == es.len(),
        forall|i: int| 0 <= i < es.len() ==> view_exprs(es)[i] == view_expr(es[i]),
    decreases es.len(),
{
    if es.len() > 0 {
        lemma_view_exprs(es.subrange(1, es.len() as int));
        assert forall|i: int| 0 <= i < es.len() implies view_exprs(es)[i] == view_expr(es[i]) by {
            if i > 0 {
                assert(es.subrange(1, es.len() as int)[i - 1] == es[i]);
            }
        }
    }
}

pub proof fn lemma_view_stmts(ss: Seq<Stmt>)
    ensures
        view_stmts(ss).len() == ss.len(),
        forall|i: int| 0 <= i < ss.len() ==> view_stmts(ss)[i] == view_stmt(ss[i]),
    decreases ss.len(),
{
    if ss.len() > 0 {
        lemma_view_stmts(ss.subrange(1, ss.len() as int));
        assert forall|i: int| 0 <= i < ss.len() implies view_stmts(ss)[i] == view_stmt(ss[i]) by {
            if i > 0 {
                assert(ss.subrange(1, ss.len() as int)[i - 1] == ss[i]);
            }
        }
    }
}

} // verus!
