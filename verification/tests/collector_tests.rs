use ty_types::collector::{
    build_call_signature, collect_types, kind_name, AstNode, CallBinding, CallInfo,
    CallParamShape, NodeKind, SyntaxTree,
};
use ty_types::protocol::{ParamKind, TypeDescriptor};
use ty_types::registry::TypeRegistry;
use ty_types::shape::{OracleTable, TypeEntry, TypeShape};

fn entry(display: &str, shape: TypeShape) -> TypeEntry {
    TypeEntry { display: display.to_string(), shape }
}

fn leaf(kind: NodeKind, start: u32, end: u32, inferred: Option<u64>) -> AstNode {
    AstNode { start, end, kind, inferred, call: None, children: vec![] }
}

fn parent(kind: NodeKind, start: u32, end: u32, children: Vec<usize>) -> AstNode {
    AstNode { start, end, kind, inferred: None, call: None, children }
}

/// The identities behind `x: int = 42`.
fn int_table() -> OracleTable {
    let mut t = OracleTable::new();
    t.insert_first(
        10,
        entry(
            "int",
            TypeShape::Instance {
                class_name: "int".to_string(),
                module_name: None,
                type_args: vec![],
                supertypes: vec![],
                class_ident: Some(11),
            },
        ),
    );
    t.insert_first(
        11,
        entry(
            "<class 'int'>",
            TypeShape::ClassLiteral {
                class_name: "int".to_string(),
                module_name: None,
                type_params: vec![],
                supertypes: vec![],
                members: vec![],
            },
        ),
    );
    t.insert_first(12, entry("Literal[42]", TypeShape::IntLiteral { value: 42 }));
    t
}

/// `x: int = 42` as an arena: the annotated assignment is a plain
/// statement whose parts are the target, the annotation and the value.
fn simple_assignment() -> SyntaxTree {
    SyntaxTree {
        nodes: vec![
            leaf(NodeKind::ExprName, 0, 1, Some(10)),
            leaf(NodeKind::ExprName, 3, 6, Some(11)),
            leaf(NodeKind::ExprNumberLiteral, 9, 11, Some(12)),
            parent(NodeKind::StmtOther, 0, 11, vec![0, 1, 2]),
        ],
        roots: vec![3],
    }
}

#[test]
fn test_simple_types() {
    let table = int_table();
    let tree = simple_assignment();
    let mut reg = TypeRegistry::new();
    let result = collect_types(&tree, &table, &mut reg);
    assert!(result.nodes.len() >= 3, "expected at least 3 nodes, got {}", result.nodes.len());
    let lit = result
        .nodes
        .iter()
        .find(|a| a.node_kind == "ExprNumberLiteral")
        .expect("should have a number literal node");
    let lit_id = lit.type_id.expect("number literal should have a type");
    match reg.get_descriptor(lit_id) {
        Some(TypeDescriptor::IntLiteral { display, value }) => {
            assert_eq!(*value, 42);
            assert_eq!(display.as_deref(), Some("Literal[42]"));
        },
        _ => panic!("the literal's type should be intLiteral"),
    }
    let has_int_instance = result.new_types.iter().any(|(_, d)| match d {
        TypeDescriptor::Instance { class_name, .. } => class_name == "int",
        _ => false,
    });
    assert!(has_int_instance, "should have an 'int' instance type");
}

#[test]
fn test_target_unwrapping() {
    // (a, b) = (1, "x"): the tuple target dissolves into its elements,
    // the tuple value is attributed as usual.
    let mut table = int_table();
    table.insert_first(20, entry("Literal[\"x\"]", TypeShape::StringLiteral {
        value: "x".to_string(),
    }));
    table.insert_first(21, entry("tuple[int, str]", TypeShape::Other));
    let tree = SyntaxTree {
        nodes: vec![
            leaf(NodeKind::ExprName, 1, 2, Some(12)),
            leaf(NodeKind::ExprName, 4, 5, Some(20)),
            AstNode {
                start: 0,
                end: 6,
                kind: NodeKind::ExprTuple,
                inferred: Some(21),
                call: None,
                children: vec![0, 1],
            },
            leaf(NodeKind::ExprNumberLiteral, 10, 11, Some(12)),
            leaf(NodeKind::ExprStringLiteral, 13, 16, Some(20)),
            AstNode {
                start: 9,
                end: 17,
                kind: NodeKind::ExprTuple,
                inferred: Some(21),
                call: None,
                children: vec![3, 4],
            },
            parent(NodeKind::StmtAssign, 0, 17, vec![2, 5]),
        ],
        roots: vec![6],
    };
    let mut reg = TypeRegistry::new();
    let result = collect_types(&tree, &table, &mut reg);
    let kinds: Vec<&str> = result.nodes.iter().map(|a| a.node_kind.as_str()).collect();
    // The assignment, both unwrapped names, then the value tuple and its parts.
    assert_eq!(
        kinds,
        vec![
            "StmtAssign",
            "ExprName",
            "ExprName",
            "ExprTuple",
            "ExprNumberLiteral",
            "ExprStringLiteral",
        ],
    );
    let tuples = result.nodes.iter().filter(|a| a.node_kind == "ExprTuple").count();
    assert_eq!(tuples, 1, "only the value tuple is attributed, never the target");
    let names: Vec<_> = result.nodes.iter().filter(|a| a.node_kind == "ExprName").collect();
    assert!(names[0].type_id.is_some() && names[1].type_id.is_some());
}

#[test]
fn test_for_loop_target_before_iter() {
    let table = int_table();
    let tree = SyntaxTree {
        nodes: vec![
            leaf(NodeKind::ExprName, 4, 5, Some(10)),
            leaf(NodeKind::ExprName, 9, 14, Some(11)),
            leaf(NodeKind::ExprNumberLiteral, 20, 22, Some(12)),
            parent(NodeKind::StmtFor, 0, 22, vec![0, 1, 2]),
        ],
        roots: vec![3],
    };
    let mut reg = TypeRegistry::new();
    let result = collect_types(&tree, &table, &mut reg);
    let kinds: Vec<&str> = result.nodes.iter().map(|a| a.node_kind.as_str()).collect();
    assert_eq!(kinds, vec!["StmtFor", "ExprName", "ExprName", "ExprNumberLiteral"]);
    assert!(result.nodes[0].type_id.is_none(), "the for statement itself is untyped");
}

#[test]
fn test_with_item_binding_before_context() {
    let table = int_table();
    let tree = SyntaxTree {
        nodes: vec![
            leaf(NodeKind::ExprName, 10, 11, Some(10)),
            leaf(NodeKind::ExprName, 5, 8, Some(11)),
            parent(NodeKind::WithItem, 5, 11, vec![0, 1]),
            leaf(NodeKind::ExprNumberLiteral, 15, 17, Some(12)),
            parent(NodeKind::StmtWith, 0, 17, vec![2, 3]),
        ],
        roots: vec![4],
    };
    let mut reg = TypeRegistry::new();
    let result = collect_types(&tree, &table, &mut reg);
    let kinds: Vec<&str> = result.nodes.iter().map(|a| a.node_kind.as_str()).collect();
    // The with statement, the bound name, the context expression, the body.
    assert_eq!(kinds, vec!["StmtWith", "ExprName", "ExprName", "ExprNumberLiteral"]);
}

#[test]
fn test_comprehension_iterator_first() {
    let table = int_table();
    let tree = SyntaxTree {
        nodes: vec![
            leaf(NodeKind::ExprName, 1, 2, Some(10)),
            leaf(NodeKind::ExprName, 12, 17, Some(11)),
            leaf(NodeKind::ExprName, 7, 8, Some(10)),
            leaf(NodeKind::ExprName, 21, 22, Some(12)),
            parent(NodeKind::Comprehension, 3, 22, vec![1, 2, 3]),
            AstNode {
                start: 0,
                end: 23,
                kind: NodeKind::ExprListComp,
                inferred: Some(10),
                call: None,
                children: vec![0, 4],
            },
            parent(NodeKind::StmtOther, 0, 23, vec![5]),
        ],
        roots: vec![6],
    };
    let mut reg = TypeRegistry::new();
    let result = collect_types(&tree, &table, &mut reg);
    let starts: Vec<u32> = result.nodes.iter().map(|a| a.start).collect();
    // The comprehension expression, its element, then per clause:
    // iterator, target, filters.
    assert_eq!(starts, vec![0, 1, 12, 7, 21]);
}

#[test]
fn test_generic_call_type_arguments() {
    // result = identity(42) against def identity[T](x: T) -> T.
    let mut table = int_table();
    table.insert_first(50, entry("T", TypeShape::TypeVar {
        name: "T".to_string(),
        variance: "invariant".to_string(),
        bound: None,
        constraints: None,
    }));
    let call = CallInfo {
        overloads: vec![CallBinding {
            matched: true,
            params: vec![CallParamShape {
                name: "x".to_string(),
                ty: 12,
                kind: ParamKind::PositionalOrKeyword,
                default: None,
            }],
            return_ty: 12,
            type_args: vec![12],
        }],
    };
    let tree = SyntaxTree {
        nodes: vec![
            leaf(NodeKind::ExprName, 0, 8, None),
            leaf(NodeKind::ExprNumberLiteral, 9, 11, Some(12)),
            AstNode {
                start: 0,
                end: 12,
                kind: NodeKind::ExprCall,
                inferred: Some(12),
                call: Some(call),
                children: vec![0, 1],
            },
            parent(NodeKind::StmtOther, 0, 12, vec![2]),
        ],
        roots: vec![3],
    };
    let mut reg = TypeRegistry::new();
    let result = collect_types(&tree, &table, &mut reg);
    let call_att = result
        .nodes
        .iter()
        .find(|a| a.node_kind == "ExprCall")
        .expect("should have an ExprCall node");
    let sig = call_att.call_signature.as_ref().expect("ExprCall should have a call signature");
    assert_eq!(sig.type_arguments.len(), 1, "identity(42) should have 1 type argument");
    match reg.get_descriptor(sig.type_arguments[0]) {
        Some(TypeDescriptor::IntLiteral { .. }) | Some(TypeDescriptor::Instance { .. }) => {},
        _ => panic!("type argument should be int-like"),
    }
}

#[test]
fn test_specialized_return_type() {
    let table = int_table();
    let call = CallInfo {
        overloads: vec![CallBinding {
            matched: true,
            params: vec![],
            return_ty: 12,
            type_args: vec![12],
        }],
    };
    let mut reg = TypeRegistry::new();
    let sig = build_call_signature(&table, &mut reg, &call)
        .expect("call signature should have a return type");
    let ret = sig.return_type_id.expect("call signature should have a return type");
    match reg.get_descriptor(ret) {
        Some(TypeDescriptor::IntLiteral { value, .. }) => assert_eq!(*value, 42),
        _ => panic!("specialized return type should be intLiteral"),
    }
}

#[test]
fn test_first_matching_overload_wins() {
    let table = int_table();
    let call = CallInfo {
        overloads: vec![
            CallBinding { matched: false, params: vec![], return_ty: 10, type_args: vec![] },
            CallBinding { matched: true, params: vec![], return_ty: 12, type_args: vec![] },
        ],
    };
    let mut reg = TypeRegistry::new();
    let sig = build_call_signature(&table, &mut reg, &call).expect("signature");
    let ret = sig.return_type_id.expect("return type");
    assert!(matches!(reg.get_descriptor(ret), Some(TypeDescriptor::IntLiteral { .. })));
}

#[test]
fn test_unmatched_call_falls_back_to_first_overload() {
    let table = int_table();
    let call = CallInfo {
        overloads: vec![
            CallBinding { matched: false, params: vec![], return_ty: 10, type_args: vec![] },
            CallBinding { matched: false, params: vec![], return_ty: 12, type_args: vec![] },
        ],
    };
    let mut reg = TypeRegistry::new();
    let sig = build_call_signature(&table, &mut reg, &call).expect("signature");
    let ret = sig.return_type_id.expect("return type");
    assert!(
        matches!(reg.get_descriptor(ret), Some(TypeDescriptor::Instance { .. })),
        "with no matching overload the first declared one is encoded",
    );
}

#[test]
fn test_uncallable_call_has_no_signature() {
    let table = int_table();
    let call = CallInfo { overloads: vec![] };
    let mut reg = TypeRegistry::new();
    assert!(build_call_signature(&table, &mut reg, &call).is_none());
}

#[test]
fn test_call_attribution_without_resolvable_callee() {
    // A call on a dynamic callee still gets its own attribution; the
    // signature is simply absent, independent of the result type.
    let table = int_table();
    let tree = SyntaxTree {
        nodes: vec![
            leaf(NodeKind::ExprName, 0, 1, None),
            AstNode {
                start: 0,
                end: 3,
                kind: NodeKind::ExprCall,
                inferred: Some(10),
                call: None,
                children: vec![0],
            },
            parent(NodeKind::StmtOther, 0, 3, vec![1]),
        ],
        roots: vec![2],
    };
    let mut reg = TypeRegistry::new();
    let result = collect_types(&tree, &table, &mut reg);
    let call_att = result.nodes.iter().find(|a| a.node_kind == "ExprCall").unwrap();
    assert!(call_att.call_signature.is_none());
    assert!(call_att.type_id.is_some(), "the result type stands on its own");
}

#[test]
fn test_kind_names_match_wire_spellings() {
    assert_eq!(kind_name(NodeKind::ExprCall), "ExprCall");
    assert_eq!(kind_name(NodeKind::ExprNumberLiteral), "ExprNumberLiteral");
    assert_eq!(kind_name(NodeKind::StmtFunctionDef), "StmtFunctionDef");
    assert_eq!(kind_name(NodeKind::Alias), "Alias");
}
