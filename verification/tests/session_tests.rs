use ty_types::collector::{AstNode, NodeKind, SyntaxTree};
use ty_types::protocol::TypeDescriptor;
use ty_types::session::{
    collect_files, gate, rejection_code, resolve_path, Method, RequestDecision, Session,
    SessionPhase, DOMAIN_ERROR, INVALID_PARAMS, METHOD_NOT_FOUND, PARSE_ERROR,
};
use ty_types::shape::{TypeEntry, TypeIdent, TypeShape};

fn entry(display: &str, shape: TypeShape) -> TypeEntry {
    TypeEntry { display: display.to_string(), shape }
}

fn leaf(kind: NodeKind, start: u32, end: u32, inferred: Option<u64>) -> AstNode {
    AstNode { start, end, kind, inferred, call: None, children: vec![] }
}

fn parent(kind: NodeKind, start: u32, end: u32, children: Vec<usize>) -> AstNode {
    AstNode { start, end, kind, inferred: None, call: None, children }
}

fn int_entries() -> Vec<(TypeIdent, TypeEntry)> {
    vec![
        (
            10,
            entry(
                "int",
                TypeShape::Instance {
                    class_name: "int".to_string(),
                    module_name: None,
                    type_args: vec![],
                    supertypes: vec![],
                    class_ident: Some(11),
                },
            ),
        ),
        (
            11,
            entry(
                "<class 'int'>",
                TypeShape::ClassLiteral {
                    class_name: "int".to_string(),
                    module_name: None,
                    type_params: vec![],
                    supertypes: vec![],
                    members: vec![],
                },
            ),
        ),
        (12, entry("Literal[42]", TypeShape::IntLiteral { value: 42 })),
    ]
}

/// `x: int = 42` in `a.py`.
fn tree_a() -> SyntaxTree {
    SyntaxTree {
        nodes: vec![
            leaf(NodeKind::ExprName, 0, 1, Some(10)),
            leaf(NodeKind::ExprName, 3, 6, Some(11)),
            leaf(NodeKind::ExprNumberLiteral, 9, 11, Some(12)),
            parent(NodeKind::StmtOther, 0, 11, vec![0, 1, 2]),
        ],
        roots: vec![3],
    }
}

/// `from a import x` then `y = x + 1` in `b.py`.
fn tree_b() -> SyntaxTree {
    SyntaxTree {
        nodes: vec![
            leaf(NodeKind::Alias, 14, 15, Some(10)),
            parent(NodeKind::StmtOther, 0, 15, vec![0]),
            leaf(NodeKind::ExprName, 16, 17, Some(10)),
            leaf(NodeKind::ExprName, 20, 21, Some(10)),
            leaf(NodeKind::ExprNumberLiteral, 24, 25, Some(12)),
            leaf(NodeKind::ExprBinOp, 20, 25, Some(10)),
            parent(NodeKind::StmtAssign, 16, 25, vec![2, 5]),
        ],
        roots: vec![1, 6],
    }
}

#[test]
fn test_initialize_and_shutdown() {
    let mut s = Session::new();
    assert_eq!(s.phase, SessionPhase::Uninitialized);
    assert_eq!(gate(s.phase, Method::Initialize), RequestDecision::Proceed);
    s.begin();
    assert_eq!(s.phase, SessionPhase::Initialized);
    assert_eq!(gate(s.phase, Method::Shutdown), RequestDecision::Proceed);
    s.end();
    assert_eq!(s.phase, SessionPhase::Terminated);
}

#[test]
fn test_error_before_initialize() {
    let s = Session::new();
    let d = gate(s.phase, Method::GetTypes);
    assert_eq!(d, RequestDecision::RejectNotInitialized, "should return error before initialize");
    assert_eq!(rejection_code(d), DOMAIN_ERROR);
}

#[test]
fn test_reinitialize_is_rejected() {
    let mut s = Session::new();
    s.begin();
    let d = gate(s.phase, Method::Initialize);
    assert_eq!(d, RequestDecision::RejectAlreadyInitialized);
    assert_eq!(rejection_code(d), DOMAIN_ERROR);
}

#[test]
fn test_unknown_method_codes() {
    let mut s = Session::new();
    // Before initialize, even an unknown method reads as "not initialized".
    assert_eq!(gate(s.phase, Method::Unknown), RequestDecision::RejectNotInitialized);
    s.begin();
    let d = gate(s.phase, Method::Unknown);
    assert_eq!(d, RequestDecision::RejectUnknownMethod);
    assert_eq!(rejection_code(d), METHOD_NOT_FOUND);
}

#[test]
fn test_error_code_constants() {
    assert_eq!(PARSE_ERROR, -32700);
    assert_eq!(INVALID_PARAMS, -32602);
    assert_eq!(METHOD_NOT_FOUND, -32601);
    assert_eq!(DOMAIN_ERROR, -32000);
}

#[test]
fn test_cross_file_resolution() {
    let mut s = Session::new();
    s.begin();
    s.get_types(&tree_a(), int_entries(), true);
    let rb = s.get_types(&tree_b(), int_entries(), true);
    let alias = rb
        .nodes
        .iter()
        .find(|a| a.node_kind == "Alias")
        .expect("b.py should have an Alias node");
    assert!(alias.type_id.is_some(), "import alias should have a type");
}

#[test]
fn test_cross_request_dedup() {
    let mut s = Session::new();
    s.begin();
    let ra = s.get_types(&tree_a(), int_entries(), true);
    let int_id = ra
        .types
        .iter()
        .find(|(_, d)| matches!(d, TypeDescriptor::Instance { class_name, .. } if class_name == "int"))
        .map(|(id, _)| *id)
        .expect("a.py should introduce 'int' type");
    let rb = s.get_types(&tree_b(), int_entries(), true);
    let reintroduced = rb.types.iter().any(
        |(_, d)| matches!(d, TypeDescriptor::Instance { class_name, .. } if class_name == "int"),
    );
    assert!(!reintroduced, "b.py should NOT re-introduce 'int'; it was already sent with a.py");
    let alias = rb.nodes.iter().find(|a| a.node_kind == "Alias").unwrap();
    assert_eq!(
        alias.type_id,
        Some(int_id),
        "b.py nodes should reference the same 'int' type ID as a.py",
    );
}

#[test]
fn test_type_registry() {
    let mut s = Session::new();
    s.begin();
    s.get_types(&tree_a(), int_entries(), true);
    let mut entries2 = int_entries();
    entries2.push((
        20,
        entry(
            "str",
            TypeShape::Instance {
                class_name: "str".to_string(),
                module_name: None,
                type_args: vec![],
                supertypes: vec![],
                class_ident: None,
            },
        ),
    ));
    entries2.push((21, entry("Literal[\"hello\"]", TypeShape::StringLiteral {
        value: "hello".to_string(),
    })));
    let tree2 = SyntaxTree {
        nodes: vec![
            leaf(NodeKind::ExprName, 0, 1, Some(20)),
            leaf(NodeKind::ExprName, 3, 6, None),
            leaf(NodeKind::ExprStringLiteral, 9, 16, Some(21)),
            parent(NodeKind::StmtOther, 0, 16, vec![0, 1, 2]),
        ],
        roots: vec![3],
    };
    s.get_types(&tree2, entries2, true);
    let dump = s.get_type_registry();
    let displays: Vec<String> = dump
        .types
        .iter()
        .filter_map(|(_, d)| match d {
            TypeDescriptor::Instance { display, .. } => display.clone(),
            TypeDescriptor::IntLiteral { display, .. } => display.clone(),
            TypeDescriptor::StringLiteral { display, .. } => display.clone(),
            _ => None,
        })
        .collect();
    assert!(displays.iter().any(|d| d == "int"), "registry should have 'int'");
    assert!(displays.iter().any(|d| d == "str"), "registry should have 'str'");
    assert!(displays.iter().any(|d| d == "Literal[42]"), "registry should have 'Literal[42]'");
}

#[test]
fn test_include_display_false_strips_labels() {
    let mut s = Session::new();
    s.begin();
    let r = s.get_types(&tree_a(), int_entries(), false);
    assert!(!r.types.is_empty());
    for (_, d) in &r.types {
        let display = match d {
            TypeDescriptor::Instance { display, .. } => display,
            TypeDescriptor::ClassLiteral { display, .. } => display,
            TypeDescriptor::IntLiteral { display, .. } => display,
            TypeDescriptor::Other { display } => display,
            _ => &None,
        };
        assert!(display.is_none(), "includeDisplay: false clears every label");
    }
}

#[test]
fn test_first_oracle_entry_wins() {
    let mut s = Session::new();
    s.begin();
    s.get_types(&tree_a(), int_entries(), true);
    // A conflicting late entry for an already-seen identity is ignored.
    let conflicting = vec![(12, entry("Literal[7]", TypeShape::IntLiteral { value: 7 }))];
    let r = s.get_types(&tree_a(), conflicting, true);
    assert!(r.types.is_empty(), "nothing new to disclose");
    let dump = s.get_type_registry();
    let lit = dump
        .types
        .iter()
        .find_map(|(_, d)| match d {
            TypeDescriptor::IntLiteral { value, .. } => Some(*value),
            _ => None,
        })
        .unwrap();
    assert_eq!(lit, 42);
}

#[test]
fn test_resolve_path() {
    assert_eq!(resolve_path("/proj", "a.py"), "/proj/a.py");
    assert_eq!(resolve_path("/proj", "/abs/b.py"), "/abs/b.py");
    assert_eq!(resolve_path("/proj", ""), "/proj/");
}

#[test]
fn test_oneshot_dedup_across_files() {
    let mut table = ty_types::shape::OracleTable::new();
    for (k, v) in int_entries() {
        table.insert_first(k, v);
    }
    let files = vec![
        ("/proj/a.py".to_string(), tree_a()),
        ("/proj/b.py".to_string(), tree_b()),
    ];
    let result = collect_files(&files, &table);
    assert_eq!(result.files.len(), 2);
    assert_eq!(result.files[0].0, "/proj/a.py");
    let int_count = result
        .types
        .iter()
        .filter(|(_, d)| matches!(d, TypeDescriptor::Instance { class_name, .. } if class_name == "int"))
        .count();
    assert_eq!(int_count, 1, "types are deduplicated across the files");
    // Both files' name nodes point at the same id.
    let a_name = result.files[0].1.iter().find(|a| a.node_kind == "ExprName").unwrap();
    let b_alias = result.files[1].1.iter().find(|a| a.node_kind == "Alias").unwrap();
    assert_eq!(a_name.type_id, b_alias.type_id);
}
