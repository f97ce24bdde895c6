use ty_types::protocol::{default_true, param_kind_label, ParamKind, TypeDescriptor};
use ty_types::registry::TypeRegistry;
use ty_types::shape::{FieldShape, MemberShape, OracleTable, TypeEntry, TypeShape};

fn entry(display: &str, shape: TypeShape) -> TypeEntry {
    TypeEntry { display: display.to_string(), shape }
}

fn int_table() -> OracleTable {
    let mut t = OracleTable::new();
    t.insert_first(
        10,
        entry(
            "int",
            TypeShape::Instance {
                class_name: "int".to_string(),
                module_name: None,
                type_args: vec![],
                supertypes: vec![],
                class_ident: Some(11),
            },
        ),
    );
    t.insert_first(
        11,
        entry(
            "<class 'int'>",
            TypeShape::ClassLiteral {
                class_name: "int".to_string(),
                module_name: None,
                type_params: vec![],
                supertypes: vec![],
                members: vec![],
            },
        ),
    );
    t.insert_first(12, entry("Literal[42]", TypeShape::IntLiteral { value: 42 }));
    t
}

#[test]
fn test_register_assigns_ids_from_one() {
    let table = int_table();
    let mut reg = TypeRegistry::new();
    let r = reg.register(&table, 12);
    assert!(r.is_new);
    assert_eq!(r.type_id, 1);
}

#[test]
fn test_register_is_idempotent() {
    let table = int_table();
    let mut reg = TypeRegistry::new();
    let first = reg.register(&table, 12);
    let again = reg.register(&table, 12);
    assert!(first.is_new);
    assert!(!again.is_new);
    assert_eq!(first.type_id, again.type_id);
}

#[test]
fn test_register_interns_components_transitively() {
    let table = int_table();
    let mut reg = TypeRegistry::new();
    // The instance registers its class literal as a component.
    let r = reg.register(&table, 10);
    assert_eq!(r.type_id, 1);
    match reg.get_descriptor(1) {
        Some(TypeDescriptor::Instance { class_name, class_id, .. }) => {
            assert_eq!(class_name.as_str(), "int");
            assert_eq!(*class_id, Some(2));
        },
        other => panic!("expected an instance descriptor, got {:?}", other.is_some()),
    }
    match reg.get_descriptor(2) {
        Some(TypeDescriptor::ClassLiteral { class_name, .. }) => {
            assert_eq!(class_name.as_str(), "int");
        },
        _ => panic!("expected the class literal under id 2"),
    }
}

#[test]
fn test_int_literal_descriptor_value() {
    let table = int_table();
    let mut reg = TypeRegistry::new();
    let r = reg.register(&table, 12);
    match reg.get_descriptor(r.type_id) {
        Some(TypeDescriptor::IntLiteral { display, value }) => {
            assert_eq!(*value, 42);
            assert_eq!(display.as_deref(), Some("Literal[42]"));
        },
        _ => panic!("expected an int-literal descriptor"),
    }
}

#[test]
fn test_unknown_identity_degrades_to_other() {
    let table = int_table();
    let mut reg = TypeRegistry::new();
    let r = reg.register(&table, 999);
    assert!(r.is_new);
    match reg.get_descriptor(r.type_id) {
        Some(TypeDescriptor::Other { display }) => assert!(display.is_none()),
        _ => panic!("an identity the oracle does not know becomes the catch-all"),
    }
}

#[test]
fn test_union_members_reference_component_ids() {
    let mut table = int_table();
    table.insert_first(
        20,
        entry(
            "str",
            TypeShape::Instance {
                class_name: "str".to_string(),
                module_name: None,
                type_args: vec![],
                supertypes: vec![],
                class_ident: None,
            },
        ),
    );
    table.insert_first(30, entry("int | str", TypeShape::Union { members: vec![10, 20] }));
    let mut reg = TypeRegistry::new();
    let r = reg.register(&table, 30);
    // The union gets its id first, then its members depth-first.
    assert_eq!(r.type_id, 1);
    match reg.get_descriptor(1) {
        Some(TypeDescriptor::Union { display, members }) => {
            assert_eq!(display.as_deref(), Some("int | str"));
            assert_eq!(members.len(), 2);
            let m0 = reg.get_descriptor(members[0]).expect("member interned");
            assert!(matches!(m0, TypeDescriptor::Instance { .. }));
        },
        _ => panic!("expected a union descriptor"),
    }
}

#[test]
fn test_cyclic_class_terminates_with_stable_id() {
    // A class whose instance type reaches the class again through a member.
    let mut table = OracleTable::new();
    table.insert_first(
        1,
        entry(
            "Node",
            TypeShape::Instance {
                class_name: "Node".to_string(),
                module_name: None,
                type_args: vec![],
                supertypes: vec![],
                class_ident: Some(2),
            },
        ),
    );
    table.insert_first(
        2,
        entry(
            "<class 'Node'>",
            TypeShape::ClassLiteral {
                class_name: "Node".to_string(),
                module_name: None,
                type_params: vec![],
                supertypes: vec![],
                members: vec![MemberShape { name: "next".to_string(), ty: 1 }],
            },
        ),
    );
    let mut reg = TypeRegistry::new();
    let r = reg.register(&table, 1);
    assert_eq!(r.type_id, 1);
    match reg.get_descriptor(2) {
        Some(TypeDescriptor::ClassLiteral { members, .. }) => {
            assert_eq!(members.len(), 1);
            // The member's type is the instance itself: the id closed the cycle.
            assert_eq!(members[0].type_id, 1);
        },
        _ => panic!("expected the class literal"),
    }
    let again = reg.register(&table, 1);
    assert!(!again.is_new);
    assert_eq!(again.type_id, 1);
}

#[test]
fn test_subclass_of_dynamic_base_refers_to_itself() {
    let mut table = OracleTable::new();
    table.insert_first(5, entry("type[Unknown]", TypeShape::SubclassOf { class_ident: None }));
    let mut reg = TypeRegistry::new();
    let r = reg.register(&table, 5);
    match reg.get_descriptor(r.type_id) {
        Some(TypeDescriptor::SubclassOf { base, .. }) => assert_eq!(*base, r.type_id),
        _ => panic!("expected a subclass-of descriptor"),
    }
}

#[test]
fn test_tracking_drains_only_new_ids() {
    let table = int_table();
    let mut reg = TypeRegistry::new();
    reg.start_tracking();
    reg.register(&table, 12);
    let first = reg.drain_new_types();
    assert_eq!(first.len(), 1);
    assert_eq!(first[0].0, 1);
    reg.register(&table, 12);
    let second = reg.drain_new_types();
    assert!(second.is_empty(), "an already-interned type is not tracked again");
    reg.register(&table, 10);
    let third = reg.drain_new_types();
    assert_eq!(third.len(), 2, "the instance and its class literal are both new");
    assert_eq!(third[0].0, 2);
    assert_eq!(third[1].0, 3);
}

#[test]
fn test_all_descriptors_lists_every_id() {
    let table = int_table();
    let mut reg = TypeRegistry::new();
    reg.register(&table, 12);
    reg.register(&table, 10);
    let all = reg.all_descriptors();
    assert_eq!(all.len(), 3);
    for (k, pair) in all.iter().enumerate() {
        assert_eq!(pair.0, k + 1);
    }
}

#[test]
fn test_typed_dict_fields() {
    let mut table = int_table();
    table.insert_first(
        40,
        entry(
            "Movie",
            TypeShape::TypedDict {
                name: "Movie".to_string(),
                fields: vec![FieldShape {
                    name: "year".to_string(),
                    ty: 10,
                    required: true,
                    read_only: false,
                }],
            },
        ),
    );
    let mut reg = TypeRegistry::new();
    let r = reg.register(&table, 40);
    match reg.get_descriptor(r.type_id) {
        Some(TypeDescriptor::TypedDict { name, fields, .. }) => {
            assert_eq!(name.as_str(), "Movie");
            assert_eq!(fields.len(), 1);
            assert_eq!(fields[0].name.as_str(), "year");
            assert!(fields[0].required);
            assert!(!fields[0].read_only);
        },
        _ => panic!("expected a typed-dict descriptor"),
    }
}

#[test]
fn test_strip_display_clears_only_the_label() {
    let table = int_table();
    let mut reg = TypeRegistry::new();
    let r = reg.register(&table, 12);
    let mut d = match reg.get_descriptor(r.type_id) {
        Some(TypeDescriptor::IntLiteral { display, value }) => TypeDescriptor::IntLiteral {
            display: display.clone(),
            value: *value,
        },
        _ => panic!("expected an int literal"),
    };
    d.strip_display();
    match d {
        TypeDescriptor::IntLiteral { display, value } => {
            assert!(display.is_none());
            assert_eq!(value, 42);
        },
        _ => panic!("stripping keeps the variant"),
    }
}

#[test]
fn test_default_true_and_param_kind_labels() {
    assert!(default_true());
    assert_eq!(param_kind_label(ParamKind::PositionalOnly), "positionalOnly");
    assert_eq!(param_kind_label(ParamKind::PositionalOrKeyword), "positionalOrKeyword");
    assert_eq!(param_kind_label(ParamKind::Variadic), "variadic");
    assert_eq!(param_kind_label(ParamKind::KeywordOnly), "keywordOnly");
    assert_eq!(param_kind_label(ParamKind::KeywordVariadic), "keywordVariadic");
}

#[test]
fn test_never_truthy_falsy_fixed_labels() {
    let mut table = OracleTable::new();
    table.insert_first(1, entry("ignored", TypeShape::Never));
    table.insert_first(2, entry("ignored", TypeShape::Truthy));
    table.insert_first(3, entry("ignored", TypeShape::Falsy));
    let mut reg = TypeRegistry::new();
    let a = reg.register(&table, 1).type_id;
    let b = reg.register(&table, 2).type_id;
    let c = reg.register(&table, 3).type_id;
    assert!(matches!(
        reg.get_descriptor(a),
        Some(TypeDescriptor::Never { display: Some(s) }) if s.as_str() == "Never"
    ));
    assert!(matches!(
        reg.get_descriptor(b),
        Some(TypeDescriptor::Truthy { display: Some(s) }) if s.as_str() == "AlwaysTruthy"
    ));
    assert!(matches!(
        reg.get_descriptor(c),
        Some(TypeDescriptor::Falsy { display: Some(s) }) if s.as_str() == "AlwaysFalsy"
    ));
}
