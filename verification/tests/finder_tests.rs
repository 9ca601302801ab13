use solidhunter::ast::{
    Block, Definition, Expr, ExprBinary, File, FunctionBody, Ident, Item, ItemContract, ItemEvent,
    ItemFunction, Stmt, StmtExpr, StmtReturn, StmtVarDecl, Type, TypeKind, VariableDeclaration,
    VariableDefinition,
};
use solidhunter::finder::{FoundNode, retrieve_node_from_position};
use solidhunter::pos::{Position, Span};

fn sp(sl: usize, sc: usize, el: usize, ec: usize) -> Span {
    Span::new(sl, sc, el, ec)
}

fn ident(sl: usize, sc: usize, el: usize, ec: usize, name: &str) -> Ident {
    Ident { span: sp(sl, sc, el, ec), name: name.to_string() }
}

fn ty(sl: usize, sc: usize, el: usize, ec: usize, kind: TypeKind) -> Type {
    Type { span: sp(sl, sc, el, ec), kind }
}

/// The tree the parser produces for:
///
/// ```text
/// pragma solidity ^0.8.0;abstract contract One {
///     uint storedData;
///     function set(uint x) public {
///         storedData = x;
///         string test2;
///     }
///
///     function get() public view returns (uint) {
///         return storedData;
///     }
/// }
/// ```
///
/// Named items carry their name token's span, following the parser's span
/// convention; lines are 1-based and columns 0-based.
fn sample_file() -> File {
    let var_stored = VariableDefinition {
        span: sp(2, 4, 2, 20),
        ty: ty(2, 4, 2, 8, TypeKind::Uint),
        name: ident(2, 9, 2, 19, "storedData"),
        initializer: None,
    };
    let set_fn = ItemFunction {
        span: sp(3, 13, 3, 16),
        name: ident(3, 13, 3, 16, "set"),
        parameters: vec![VariableDeclaration {
            span: sp(3, 17, 3, 23),
            ty: ty(3, 17, 3, 21, TypeKind::Uint),
            name: Some(ident(3, 22, 3, 23, "x")),
        }],
        returns: vec![],
        body: FunctionBody::Block(Block {
            span: sp(3, 32, 6, 5),
            stmts: vec![
                Stmt::Expr(StmtExpr {
                    span: sp(4, 8, 4, 23),
                    expr: Expr::Binary(ExprBinary {
                        span: sp(4, 8, 4, 22),
                        left: Box::new(Expr::Ident(ident(4, 8, 4, 18, "storedData"))),
                        right: Box::new(Expr::Ident(ident(4, 21, 4, 22, "x"))),
                    }),
                }),
                Stmt::VarDecl(StmtVarDecl {
                    span: sp(5, 8, 5, 20),
                    assignment: None,
                    declaration: VariableDeclaration {
                        span: sp(5, 8, 5, 20),
                        ty: ty(5, 8, 5, 14, TypeKind::Str),
                        name: Some(ident(5, 15, 5, 20, "test2")),
                    },
                }),
            ],
        }),
    };
    let get_fn = ItemFunction {
        span: sp(8, 13, 8, 16),
        name: ident(8, 13, 8, 16, "get"),
        parameters: vec![],
        returns: vec![VariableDeclaration {
            span: sp(8, 40, 8, 44),
            ty: ty(8, 40, 8, 44, TypeKind::Uint),
            name: None,
        }],
        body: FunctionBody::Block(Block {
            span: sp(8, 46, 10, 5),
            stmts: vec![Stmt::Return(StmtReturn {
                span: sp(9, 8, 9, 26),
                expr: Some(Expr::Ident(ident(9, 15, 9, 25, "storedData"))),
            })],
        }),
    };
    let contract = ItemContract {
        span: sp(1, 41, 1, 44),
        name: ident(1, 41, 1, 44, "One"),
        inheritance: None,
        body: vec![
            Definition::Variable(var_stored),
            Definition::Function(set_fn),
            Definition::Function(get_fn),
        ],
    };
    File { items: vec![Item::Pragma(sp(1, 0, 1, 23)), Item::Contract(contract)] }
}

#[test]
fn test_retrieve_node_type_decl_string() {
    let ast = sample_file();
    let res = retrieve_node_from_position(&ast, Position::new(5, 8));
    if let Some(node) = res {
        match &node {
            FoundNode::TypeUsage(_, _, _, t) => match t.kind {
                TypeKind::Str => assert!(true),
                _ => assert!(false),
            },
            _ => assert!(false),
        }
    } else {
        assert!(false)
    }
}

#[test]
fn test_retrieve_function_def_name() {
    let ast = sample_file();
    let res = retrieve_node_from_position(&ast, Position::new(3, 14));
    if let Some(node) = res {
        match &node {
            FoundNode::FunctionDefName(_, f) => {
                assert_eq!(f.name.name, "set");
            },
            _ => assert!(false),
        }
    } else {
        assert!(false)
    }
}

#[test]
fn name_token_resolves_to_property_def() {
    let ast = sample_file();
    // Inside the name token of the state variable on line 2.
    let res = retrieve_node_from_position(&ast, Position::new(2, 12));
    match res {
        Some(FoundNode::PropertyDefName(c, v, n)) => {
            assert_eq!(c.name.name, "One");
            assert_eq!(v.name.name, "storedData");
            assert_eq!(n.name, "storedData");
        },
        _ => assert!(false),
    }
}

#[test]
fn contract_name_resolves_to_contract_def() {
    let ast = sample_file();
    let res = retrieve_node_from_position(&ast, Position::new(1, 42));
    match res {
        Some(FoundNode::ContractDefName(c)) => assert_eq!(c.name.name, "One"),
        _ => assert!(false),
    }
}

#[test]
fn parameter_name_resolves_to_variable_def() {
    let ast = sample_file();
    // The function item's span is its name token, so at the parameter the
    // function context is not yet set and the walk reaches the declaration
    // through the parameter list.
    let res = retrieve_node_from_position(&ast, Position::new(3, 22));
    match res {
        Some(FoundNode::VariableDefName(c, f, v, n)) => {
            assert_eq!(c.unwrap().name.name, "One");
            assert!(f.is_none());
            assert_eq!(v.span.start.column, 17);
            assert_eq!(n.name, "x");
        },
        _ => assert!(false),
    }
}

#[test]
fn position_outside_every_span_resolves_to_none() {
    let ast = sample_file();
    // Trailing whitespace far below the last closing brace.
    assert!(retrieve_node_from_position(&ast, Position::new(40, 2)).is_none());
    // A column beyond the end of the widest line, on the last line.
    assert!(retrieve_node_from_position(&ast, Position::new(11, 60)).is_none());
}

#[test]
fn resolution_is_deterministic() {
    let ast = sample_file();
    let a = retrieve_node_from_position(&ast, Position::new(5, 8));
    let b = retrieve_node_from_position(&ast, Position::new(5, 8));
    match (a, b) {
        (Some(FoundNode::TypeUsage(_, _, _, t1)), Some(FoundNode::TypeUsage(_, _, _, t2))) => {
            assert_eq!(t1.span, t2.span);
            assert!(matches!(t1.kind, TypeKind::Str));
            assert!(matches!(t2.kind, TypeKind::Str));
        },
        _ => assert!(false),
    }
}

#[test]
fn call_expression_resolves_to_usage_without_descending() {
    // A one-line contract whose function item carries a whole-line span, so
    // the walk enters the function with its context set.  The call spans
    // columns 30..40 and its argument list columns 36..40.
    let call = Expr::Call(solidhunter::ast::ExprCall {
        span: sp(1, 30, 1, 40),
        callee: Box::new(Expr::Ident(ident(1, 30, 1, 31, "g"))),
        args: solidhunter::ast::ArgList {
            span: sp(1, 36, 1, 40),
            args: vec![Expr::Ident(ident(1, 37, 1, 38, "y"))],
        },
    });
    let f = ItemFunction {
        span: sp(1, 0, 1, 60),
        name: ident(1, 13, 1, 14, "f"),
        parameters: vec![],
        returns: vec![],
        body: FunctionBody::Block(Block {
            span: sp(1, 28, 1, 44),
            stmts: vec![Stmt::Expr(StmtExpr { span: sp(1, 30, 1, 41), expr: call })],
        }),
    };
    let contract = ItemContract {
        span: sp(1, 9, 1, 10),
        name: ident(1, 9, 1, 10, "C"),
        inheritance: None,
        body: vec![Definition::Function(f)],
    };
    let ast = File { items: vec![Item::Contract(contract)] };
    // Position on the callee name, inside the call but outside the
    // argument list: a call-name usage, not a variable usage of the callee
    // identifier, although that identifier also contains the position.
    let res = retrieve_node_from_position(&ast, Position::new(1, 31));
    match res {
        Some(FoundNode::FunctionUsageName(c, f, call)) => {
            assert_eq!(c.name.name, "C");
            assert_eq!(f.name.name, "f");
            assert_eq!(call.span.start.column, 30);
        },
        _ => assert!(false),
    }
}

#[test]
fn event_name_resolves_to_event_def() {
    let event = ItemEvent {
        span: sp(2, 10, 2, 18),
        name: ident(2, 10, 2, 18, "Transfer"),
        parameters: vec![],
    };
    let contract = ItemContract {
        span: sp(1, 9, 1, 10),
        name: ident(1, 9, 1, 10, "C"),
        inheritance: None,
        body: vec![Definition::Event(event)],
    };
    let ast = File { items: vec![Item::Contract(contract)] };
    let res = retrieve_node_from_position(&ast, Position::new(2, 12));
    match res {
        Some(FoundNode::EventDefName(c, e, n)) => {
            assert_eq!(c.name.name, "C");
            assert_eq!(e.name.name, "Transfer");
            assert_eq!(n.name, "Transfer");
        },
        _ => assert!(false),
    }
}

#[test]
fn inheritance_path_resolves_to_inheritance() {
    // A contract item carrying a whole-header span, so the inheritance
    // clause is consulted: `contract C is Base { }` with the clause at
    // columns 13..30 and the path at columns 16..21.
    let contract = ItemContract {
        span: sp(1, 0, 3, 50),
        name: ident(1, 9, 1, 12, "C"),
        inheritance: Some(solidhunter::ast::Inheritance {
            span: sp(1, 13, 1, 30),
            paths: vec![ident(1, 16, 1, 21, "Base")],
        }),
        body: vec![],
    };
    let ast = File { items: vec![Item::Contract(contract)] };
    let res = retrieve_node_from_position(&ast, Position::new(1, 17));
    match res {
        Some(FoundNode::ContractDefInheritance(c, p)) => {
            assert_eq!(c.name.name, "C");
            assert_eq!(p.name, "Base");
        },
        _ => assert!(false),
    }
}

#[test]
fn enum_variant_resolves_to_enum_value() {
    let e = solidhunter::ast::ItemEnum {
        span: sp(2, 4, 4, 25),
        name: ident(2, 9, 2, 14, "State"),
        variants: vec![ident(3, 8, 3, 12, "Idle"), ident(3, 14, 3, 20, "Active")],
    };
    let contract = ItemContract {
        span: sp(1, 9, 1, 10),
        name: ident(1, 9, 1, 10, "C"),
        inheritance: None,
        body: vec![Definition::Enum(e)],
    };
    let ast = File { items: vec![Item::Contract(contract)] };
    // In range of the enum (wide span) and of the second variant's token.
    let res = retrieve_node_from_position(&ast, Position::new(2, 15));
    match res {
        Some(FoundNode::EnumDefValue(c, e, v)) => {
            assert!(c.is_some());
            assert_eq!(e.name.name, "State");
            assert_eq!(v.name, "Active");
        },
        _ => assert!(false),
    }
}

#[test]
fn file_level_constant_resolves_without_contract() {
    let v = VariableDefinition {
        span: sp(1, 0, 1, 30),
        ty: Type { span: sp(1, 0, 1, 4), kind: TypeKind::Uint },
        name: ident(1, 14, 1, 17, "FEE"),
        initializer: None,
    };
    let ast = File { items: vec![Item::Def(Definition::Variable(v))] };
    let res = retrieve_node_from_position(&ast, Position::new(1, 15));
    match res {
        Some(FoundNode::ConstantVariableDefName(v, n)) => {
            assert_eq!(v.name.name, "FEE");
            assert_eq!(n.name, "FEE");
        },
        _ => assert!(false),
    }
}

#[test]
fn identifier_in_expression_resolves_to_variable_usage() {
    let ast = sample_file();
    // Inside the identifier on the left of the assignment on line 4.
    let res = retrieve_node_from_position(&ast, Position::new(4, 10));
    match res {
        Some(FoundNode::VariableUsageName(c, f, e, n)) => {
            assert_eq!(c.unwrap().name.name, "One");
            assert!(f.is_none());
            assert!(matches!(e, Expr::Ident(_)));
            assert_eq!(n.name, "storedData");
        },
        _ => assert!(false),
    }
}

#[test]
fn new_expression_resolves_to_instantiation() {
    let new_expr = Expr::New(solidhunter::ast::ExprNew {
        span: sp(2, 8, 2, 17),
        ty: ty(2, 12, 2, 17, TypeKind::Custom(ident(2, 12, 2, 17, "Other"))),
    });
    let f = ItemFunction {
        span: sp(1, 22, 1, 23),
        name: ident(1, 22, 1, 23, "f"),
        parameters: vec![],
        returns: vec![],
        body: FunctionBody::Block(Block {
            span: sp(1, 33, 3, 1),
            stmts: vec![Stmt::Expr(StmtExpr { span: sp(2, 8, 2, 18), expr: new_expr })],
        }),
    };
    let contract = ItemContract {
        span: sp(1, 9, 1, 10),
        name: ident(1, 9, 1, 10, "C"),
        inheritance: None,
        body: vec![Definition::Function(f)],
    };
    let ast = File { items: vec![Item::Contract(contract)] };
    let res = retrieve_node_from_position(&ast, Position::new(2, 9));
    match res {
        Some(FoundNode::ContractInstantiation(c, f, n)) => {
            assert_eq!(c.name.name, "C");
            assert!(f.is_none());
            assert_eq!(n.span.start.column, 8);
        },
        _ => assert!(false),
    }
}

#[test]
fn error_parameter_resolves_to_error_parameter() {
    let e = solidhunter::ast::ItemError {
        span: sp(2, 4, 2, 40),
        name: ident(2, 10, 2, 17, "TooLow"),
        parameters: vec![VariableDeclaration {
            span: sp(2, 18, 2, 30),
            ty: ty(2, 18, 2, 22, TypeKind::Uint),
            name: Some(ident(2, 23, 2, 30, "balance")),
        }],
    };
    let ast = File { items: vec![Item::Def(Definition::Error(e))] };
    let res = retrieve_node_from_position(&ast, Position::new(2, 25));
    match res {
        Some(FoundNode::ErrorDefParameter(c, e, p)) => {
            assert!(c.is_none());
            assert_eq!(e.name.name, "TooLow");
            assert_eq!(p.name.as_ref().unwrap().name, "balance");
        },
        _ => assert!(false),
    }
}

#[test]
fn event_parameter_resolves_to_event_parameter() {
    let e = ItemEvent {
        span: sp(2, 4, 2, 40),
        name: ident(2, 10, 2, 18, "Transfer"),
        parameters: vec![solidhunter::ast::EventParameter {
            span: sp(2, 19, 2, 30),
            ty: ty(2, 19, 2, 26, TypeKind::Address),
            name: Some(ident(2, 27, 2, 29, "to")),
        }],
    };
    let contract = ItemContract {
        span: sp(1, 9, 1, 10),
        name: ident(1, 9, 1, 10, "C"),
        inheritance: None,
        body: vec![Definition::Event(e)],
    };
    let ast = File { items: vec![Item::Contract(contract)] };
    let res = retrieve_node_from_position(&ast, Position::new(2, 28));
    match res {
        Some(FoundNode::EventDefParameter(c, e, p)) => {
            assert_eq!(c.name.name, "C");
            assert_eq!(e.name.name, "Transfer");
            assert_eq!(p.name.as_ref().unwrap().name, "to");
        },
        _ => assert!(false),
    }
}

#[test]
fn struct_field_resolves_to_struct_property() {
    let s = solidhunter::ast::ItemStruct {
        span: sp(2, 4, 4, 30),
        name: ident(2, 11, 2, 16, "Point"),
        fields: vec![VariableDeclaration {
            span: sp(3, 8, 3, 14),
            ty: ty(3, 8, 3, 12, TypeKind::Uint),
            name: Some(ident(3, 13, 3, 14, "x")),
        }],
    };
    let contract = ItemContract {
        span: sp(1, 9, 1, 10),
        name: ident(1, 9, 1, 10, "C"),
        inheritance: None,
        body: vec![Definition::Struct(s)],
    };
    let ast = File { items: vec![Item::Contract(contract)] };
    let res = retrieve_node_from_position(&ast, Position::new(2, 13));
    match res {
        Some(FoundNode::StructDefName(c, n)) => {
            assert!(c.is_some());
            assert_eq!(n.name, "Point");
        },
        _ => assert!(false),
    }
    // A one-line struct: the field scan runs only while the position also
    // sits within the struct's own span, which the containment test ties
    // to the struct's starting line.
    let s = solidhunter::ast::ItemStruct {
        span: sp(2, 4, 2, 40),
        name: ident(2, 11, 2, 16, "Point"),
        fields: vec![VariableDeclaration {
            span: sp(2, 18, 2, 24),
            ty: ty(2, 18, 2, 22, TypeKind::Uint),
            name: Some(ident(2, 23, 2, 24, "x")),
        }],
    };
    let contract = ItemContract {
        span: sp(1, 9, 1, 10),
        name: ident(1, 9, 1, 10, "C"),
        inheritance: None,
        body: vec![Definition::Struct(s)],
    };
    let ast = File { items: vec![Item::Contract(contract)] };
    let res = retrieve_node_from_position(&ast, Position::new(2, 23));
    match res {
        Some(FoundNode::StructDefPropertyName(c, f, p, n)) => {
            assert_eq!(c.name.name, "C");
            assert!(f.is_none());
            assert_eq!(p.span.start.column, 18);
            assert_eq!(n.name, "x");
        },
        _ => assert!(false),
    }
}
