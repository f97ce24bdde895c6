use ty_types::protocol::{ParamKind, TypeDescriptor};
use ty_types::registry::TypeRegistry;
use ty_types::shape::{FnParamShape, OracleTable, SigShape, TypeEntry, TypeShape};

fn entry(display: &str, shape: TypeShape) -> TypeEntry {
    TypeEntry { display: display.to_string(), shape }
}

fn instance(class_name: &str, module_name: Option<&str>, class_ident: Option<u64>) -> TypeShape {
    TypeShape::Instance {
        class_name: class_name.to_string(),
        module_name: module_name.map(|m| m.to_string()),
        type_args: vec![],
        supertypes: vec![],
        class_ident,
    }
}

fn base_table() -> OracleTable {
    let mut t = OracleTable::new();
    t.insert_first(10, entry("int", instance("int", None, None)));
    t.insert_first(20, entry("str", instance("str", None, None)));
    t
}

#[test]
fn test_function_and_class_types() {
    let mut table = base_table();
    table.insert_first(
        30,
        entry(
            "def greet(name: str) -> str",
            TypeShape::Function {
                name: "greet".to_string(),
                module_name: None,
                type_params: vec![],
                overloads: vec![SigShape {
                    params: vec![FnParamShape {
                        name: "name".to_string(),
                        annotated: 20,
                        kind: ParamKind::PositionalOrKeyword,
                        has_default: false,
                    }],
                    return_ty: 20,
                }],
            },
        ),
    );
    table.insert_first(
        31,
        entry(
            "<class 'Animal'>",
            TypeShape::ClassLiteral {
                class_name: "Animal".to_string(),
                module_name: None,
                type_params: vec![],
                supertypes: vec![],
                members: vec![],
            },
        ),
    );
    let mut reg = TypeRegistry::new();
    let f = reg.register(&table, 30).type_id;
    let c = reg.register(&table, 31).type_id;
    match reg.get_descriptor(f) {
        Some(TypeDescriptor::Function { name, parameters, return_type, .. }) => {
            assert_eq!(name.as_str(), "greet", "should have a function type for 'greet'");
            assert_eq!(parameters.len(), 1);
            assert_eq!(parameters[0].name.as_str(), "name");
            assert!(parameters[0].type_id.is_some());
            let ret = return_type.expect("declared return type");
            assert!(matches!(
                reg.get_descriptor(ret),
                Some(TypeDescriptor::Instance { class_name, .. }) if class_name.as_str() == "str"
            ));
        },
        _ => panic!("should have a function type for 'greet'"),
    }
    assert!(matches!(
        reg.get_descriptor(c),
        Some(TypeDescriptor::ClassLiteral { class_name, .. }) if class_name.as_str() == "Animal"
    ));
}

#[test]
fn test_union_type() {
    let mut table = base_table();
    table.insert_first(40, entry("int | str", TypeShape::Union { members: vec![10, 20] }));
    let mut reg = TypeRegistry::new();
    let u = reg.register(&table, 40).type_id;
    match reg.get_descriptor(u) {
        Some(TypeDescriptor::Union { display, members }) => {
            assert_eq!(display.as_deref(), Some("int | str"), "should have an 'int | str' union");
            assert_eq!(members.len(), 2, "int | str union should have 2 members");
        },
        _ => panic!("should have a union type"),
    }
}

#[test]
fn test_generic_function_type_parameters() {
    let mut table = base_table();
    table.insert_first(50, entry("T", TypeShape::TypeVar {
        name: "T".to_string(),
        variance: "invariant".to_string(),
        bound: None,
        constraints: None,
    }));
    table.insert_first(
        51,
        entry(
            "def identity[T](x: T) -> T",
            TypeShape::Function {
                name: "identity".to_string(),
                module_name: None,
                type_params: vec![50],
                overloads: vec![SigShape {
                    params: vec![FnParamShape {
                        name: "x".to_string(),
                        annotated: 50,
                        kind: ParamKind::PositionalOrKeyword,
                        has_default: false,
                    }],
                    return_ty: 50,
                }],
            },
        ),
    );
    let mut reg = TypeRegistry::new();
    let f = reg.register(&table, 51).type_id;
    match reg.get_descriptor(f) {
        Some(TypeDescriptor::Function { name, type_parameters, .. }) => {
            assert_eq!(name.as_str(), "identity", "should have a function type for 'identity'");
            assert_eq!(type_parameters.len(), 1, "identity[T] should have 1 type parameter");
            assert!(matches!(
                reg.get_descriptor(type_parameters[0]),
                Some(TypeDescriptor::TypeVar { .. })
            ));
        },
        _ => panic!("should have a function type for 'identity'"),
    }
}

#[test]
fn test_generic_class_type_parameters() {
    let mut table = base_table();
    table.insert_first(50, entry("T", TypeShape::TypeVar {
        name: "T".to_string(),
        variance: "invariant".to_string(),
        bound: None,
        constraints: None,
    }));
    table.insert_first(
        52,
        entry(
            "<class 'Box'>",
            TypeShape::ClassLiteral {
                class_name: "Box".to_string(),
                module_name: None,
                type_params: vec![50],
                supertypes: vec![],
                members: vec![],
            },
        ),
    );
    let mut reg = TypeRegistry::new();
    let c = reg.register(&table, 52).type_id;
    match reg.get_descriptor(c) {
        Some(TypeDescriptor::ClassLiteral { class_name, type_parameters, .. }) => {
            assert_eq!(class_name.as_str(), "Box", "should have a classLiteral for 'Box'");
            assert_eq!(type_parameters.len(), 1, "Box[T] should have 1 type parameter");
            match reg.get_descriptor(type_parameters[0]) {
                Some(TypeDescriptor::TypeVar { name, .. }) => assert_eq!(name.as_str(), "T"),
                _ => panic!("the type parameter should be a typeVar"),
            }
        },
        _ => panic!("should have a classLiteral for 'Box'"),
    }
}

#[test]
fn test_non_generic_function_no_type_parameters() {
    let mut table = base_table();
    table.insert_first(
        53,
        entry(
            "def add(a: int, b: int) -> int",
            TypeShape::Function {
                name: "add".to_string(),
                module_name: None,
                type_params: vec![],
                overloads: vec![SigShape {
                    params: vec![
                        FnParamShape {
                            name: "a".to_string(),
                            annotated: 10,
                            kind: ParamKind::PositionalOrKeyword,
                            has_default: false,
                        },
                        FnParamShape {
                            name: "b".to_string(),
                            annotated: 10,
                            kind: ParamKind::PositionalOrKeyword,
                            has_default: false,
                        },
                    ],
                    return_ty: 10,
                }],
            },
        ),
    );
    let mut reg = TypeRegistry::new();
    let f = reg.register(&table, 53).type_id;
    match reg.get_descriptor(f) {
        Some(TypeDescriptor::Function { name, type_parameters, .. }) => {
            assert_eq!(name.as_str(), "add", "should have a function type for 'add'");
            assert!(
                type_parameters.is_empty(),
                "non-generic function should not have typeParameters",
            );
        },
        _ => panic!("should have a function type for 'add'"),
    }
}

#[test]
fn test_parameter_default_type() {
    // def f(x: int = 42): the function descriptor says a default exists;
    // the default's own type id travels only on call signatures.
    let mut table = base_table();
    table.insert_first(12, entry("Literal[42]", TypeShape::IntLiteral { value: 42 }));
    table.insert_first(
        54,
        entry(
            "def f(x: int = 42)",
            TypeShape::Function {
                name: "f".to_string(),
                module_name: None,
                type_params: vec![],
                overloads: vec![SigShape {
                    params: vec![FnParamShape {
                        name: "x".to_string(),
                        annotated: 10,
                        kind: ParamKind::PositionalOrKeyword,
                        has_default: true,
                    }],
                    return_ty: 10,
                }],
            },
        ),
    );
    let mut reg = TypeRegistry::new();
    let f = reg.register(&table, 54).type_id;
    match reg.get_descriptor(f) {
        Some(TypeDescriptor::Function { parameters, .. }) => {
            assert_eq!(parameters.len(), 1, "should have parameter 'x'");
            assert!(parameters[0].has_default);
            assert!(parameters[0].default_type_id.is_none());
        },
        _ => panic!("should have a function type for 'f'"),
    }
    // The same parameter on a concrete call carries its default's type.
    let call = ty_types::collector::CallInfo {
        overloads: vec![ty_types::collector::CallBinding {
            matched: true,
            params: vec![ty_types::collector::CallParamShape {
                name: "x".to_string(),
                ty: 10,
                kind: ParamKind::PositionalOrKeyword,
                default: Some(12),
            }],
            return_ty: 10,
            type_args: vec![],
        }],
    };
    let sig = ty_types::collector::build_call_signature(&table, &mut reg, &call).unwrap();
    assert!(sig.parameters[0].has_default);
    let d = sig.parameters[0].default_type_id.expect("x should have a defaultTypeId");
    assert!(matches!(
        reg.get_descriptor(d),
        Some(TypeDescriptor::IntLiteral { value: 42, .. })
    ));
}

#[test]
fn test_instance_supertypes() {
    let mut table = base_table();
    table.insert_first(60, entry("Animal", instance("Animal", None, None)));
    table.insert_first(
        61,
        entry(
            "Dog",
            TypeShape::Instance {
                class_name: "Dog".to_string(),
                module_name: None,
                type_args: vec![],
                supertypes: vec![60],
                class_ident: None,
            },
        ),
    );
    let mut reg = TypeRegistry::new();
    let dog = reg.register(&table, 61).type_id;
    match reg.get_descriptor(dog) {
        Some(TypeDescriptor::Instance { class_name, supertypes, .. }) => {
            assert_eq!(class_name.as_str(), "Dog", "should have an Instance for Dog");
            assert!(!supertypes.is_empty(), "Dog instance should have at least one supertype");
            let has_animal = supertypes.iter().any(|s| {
                matches!(
                    reg.get_descriptor(*s),
                    Some(TypeDescriptor::Instance { class_name, .. }) if class_name.as_str() == "Animal"
                )
            });
            assert!(has_animal, "Dog's supertypes should include Animal");
        },
        _ => panic!("should have an Instance for Dog"),
    }
}

#[test]
fn test_module_names() {
    let mut table = OracleTable::new();
    table.insert_first(
        70,
        entry(
            "<class 'MyClass'>",
            TypeShape::ClassLiteral {
                class_name: "MyClass".to_string(),
                module_name: Some("mymodule".to_string()),
                type_params: vec![],
                supertypes: vec![],
                members: vec![],
            },
        ),
    );
    table.insert_first(71, entry("MyClass", instance("MyClass", Some("mymodule"), Some(70))));
    table.insert_first(
        72,
        entry(
            "def my_func() -> int",
            TypeShape::Function {
                name: "my_func".to_string(),
                module_name: Some("mymodule".to_string()),
                type_params: vec![],
                overloads: vec![],
            },
        ),
    );
    let mut reg = TypeRegistry::new();
    let inst = reg.register(&table, 71).type_id;
    let func = reg.register(&table, 72).type_id;
    match reg.get_descriptor(inst) {
        Some(TypeDescriptor::Instance { module_name, class_id, .. }) => {
            assert_eq!(module_name.as_deref(), Some("mymodule"));
            let cls = class_id.expect("backing class literal");
            assert!(matches!(
                reg.get_descriptor(cls),
                Some(TypeDescriptor::ClassLiteral { module_name: Some(m), .. }) if m.as_str() == "mymodule"
            ));
        },
        _ => panic!("should have instance for MyClass"),
    }
    assert!(matches!(
        reg.get_descriptor(func),
        Some(TypeDescriptor::Function { name, module_name: Some(m), .. })
            if name.as_str() == "my_func" && m.as_str() == "mymodule"
    ));
}

#[test]
fn test_typevar_variance_covariant() {
    let mut table = OracleTable::new();
    table.insert_first(80, entry("T_co", TypeShape::TypeVar {
        name: "T_co".to_string(),
        variance: "covariant".to_string(),
        bound: None,
        constraints: None,
    }));
    let mut reg = TypeRegistry::new();
    let t = reg.register(&table, 80).type_id;
    match reg.get_descriptor(t) {
        Some(TypeDescriptor::TypeVar { name, variance, .. }) => {
            assert_eq!(name.as_str(), "T_co");
            assert_eq!(variance.as_str(), "covariant", "typeVar should have a variance field");
        },
        _ => panic!("should have a typeVar"),
    }
}

#[test]
fn test_typevar_variance_on_pep695() {
    let mut table = OracleTable::new();
    table.insert_first(81, entry("T", TypeShape::TypeVar {
        name: "T".to_string(),
        variance: "invariant".to_string(),
        bound: None,
        constraints: None,
    }));
    let mut reg = TypeRegistry::new();
    let t = reg.register(&table, 81).type_id;
    match reg.get_descriptor(t) {
        Some(TypeDescriptor::TypeVar { variance, .. }) => {
            let v = variance.as_str();
            assert!(
                v == "covariant" || v == "contravariant" || v == "invariant",
                "variance should be a valid value, got {:?}",
                v,
            );
        },
        _ => panic!("should have a TypeVar T"),
    }
}

#[test]
fn test_typevar_with_upper_bound() {
    let mut table = base_table();
    table.insert_first(82, entry("T", TypeShape::TypeVar {
        name: "T".to_string(),
        variance: "invariant".to_string(),
        bound: Some(10),
        constraints: None,
    }));
    let mut reg = TypeRegistry::new();
    let t = reg.register(&table, 82).type_id;
    match reg.get_descriptor(t) {
        Some(TypeDescriptor::TypeVar { upper_bound, constraints, .. }) => {
            let b = upper_bound.expect("bounded TypeVar should have upperBound");
            assert!(constraints.is_none());
            assert!(
                matches!(
                    reg.get_descriptor(b),
                    Some(TypeDescriptor::Instance { class_name, .. }) if class_name.as_str() == "int"
                ),
                "upper bound should be int",
            );
        },
        _ => panic!("should have a typeVar"),
    }
}

#[test]
fn test_typevar_with_constraints() {
    let mut table = base_table();
    table.insert_first(83, entry("T", TypeShape::TypeVar {
        name: "T".to_string(),
        variance: "invariant".to_string(),
        bound: None,
        constraints: Some(vec![10, 20]),
    }));
    let mut reg = TypeRegistry::new();
    let t = reg.register(&table, 83).type_id;
    match reg.get_descriptor(t) {
        Some(TypeDescriptor::TypeVar { upper_bound, constraints, .. }) => {
            assert!(upper_bound.is_none());
            let cs = constraints.as_ref().expect("constrained TypeVar should have constraints");
            assert_eq!(cs.len(), 2, "TypeVar(T, int, str) should have 2 constraints");
            let names: Vec<String> = cs
                .iter()
                .filter_map(|c| match reg.get_descriptor(*c) {
                    Some(TypeDescriptor::Instance { class_name, .. }) => Some(class_name.clone()),
                    _ => None,
                })
                .collect();
            assert!(
                names.iter().any(|n| n == "int") && names.iter().any(|n| n == "str"),
                "constraints should include int and str",
            );
        },
        _ => panic!("should have a typeVar"),
    }
}

#[test]
fn test_typevar_no_bounds_no_constraints() {
    let mut table = OracleTable::new();
    table.insert_first(84, entry("T", TypeShape::TypeVar {
        name: "T".to_string(),
        variance: "invariant".to_string(),
        bound: None,
        constraints: None,
    }));
    let mut reg = TypeRegistry::new();
    let t = reg.register(&table, 84).type_id;
    match reg.get_descriptor(t) {
        Some(TypeDescriptor::TypeVar { upper_bound, constraints, .. }) => {
            assert!(upper_bound.is_none(), "unbounded TypeVar should not have upperBound");
            assert!(constraints.is_none(), "unconstrained TypeVar should not have constraints");
        },
        _ => panic!("should have TypeVar T"),
    }
}

#[test]
fn test_bound_method_derives_from_function() {
    let mut table = base_table();
    table.insert_first(
        90,
        entry(
            "def bark(self) -> str",
            TypeShape::Function {
                name: "bark".to_string(),
                module_name: Some("zoo".to_string()),
                type_params: vec![],
                overloads: vec![SigShape { params: vec![], return_ty: 20 }],
            },
        ),
    );
    table.insert_first(91, entry("bound method", TypeShape::BoundMethod { function: Some(90) }));
    let mut reg = TypeRegistry::new();
    let m = reg.register(&table, 91).type_id;
    match reg.get_descriptor(m) {
        Some(TypeDescriptor::BoundMethod { name, module_name, return_type, .. }) => {
            assert_eq!(name.as_deref(), Some("bark"));
            assert_eq!(module_name.as_deref(), Some("zoo"));
            assert!(return_type.is_some());
        },
        _ => panic!("should have a bound-method descriptor"),
    }
}

#[test]
fn test_dynamic_parameter_type_is_omitted() {
    // An untyped parameter stays distinguishable: its declared type is
    // left out when the annotation is fully dynamic.
    let mut table = base_table();
    table.insert_first(95, entry("Unknown", TypeShape::Dynamic {
        dynamic_kind: "Unknown".to_string(),
    }));
    table.insert_first(
        96,
        entry(
            "def f(x, y: int)",
            TypeShape::Function {
                name: "f".to_string(),
                module_name: None,
                type_params: vec![],
                overloads: vec![SigShape {
                    params: vec![
                        FnParamShape {
                            name: "x".to_string(),
                            annotated: 95,
                            kind: ParamKind::PositionalOrKeyword,
                            has_default: false,
                        },
                        FnParamShape {
                            name: "y".to_string(),
                            annotated: 10,
                            kind: ParamKind::PositionalOrKeyword,
                            has_default: false,
                        },
                    ],
                    return_ty: 95,
                }],
            },
        ),
    );
    let mut reg = TypeRegistry::new();
    let f = reg.register(&table, 96).type_id;
    match reg.get_descriptor(f) {
        Some(TypeDescriptor::Function { parameters, return_type, .. }) => {
            assert!(parameters[0].type_id.is_none(), "dynamic annotation is omitted");
            assert!(parameters[1].type_id.is_some());
            assert!(return_type.is_none(), "dynamic return type is omitted");
        },
        _ => panic!("should have a function descriptor"),
    }
}

#[test]
fn test_enum_literal_descriptor() {
    let mut table = OracleTable::new();
    table.insert_first(97, entry("Literal[Color.RED]", TypeShape::EnumLiteral {
        class_name: "Color".to_string(),
        member_name: "RED".to_string(),
    }));
    let mut reg = TypeRegistry::new();
    let e = reg.register(&table, 97).type_id;
    assert!(matches!(
        reg.get_descriptor(e),
        Some(TypeDescriptor::EnumLiteral { class_name, member_name, .. })
            if class_name.as_str() == "Color" && member_name.as_str() == "RED"
    ));
}

#[test]
fn test_intersection_descriptor() {
    let mut table = base_table();
    table.insert_first(100, entry("int & ~str", TypeShape::Intersection {
        positive: vec![10],
        negative: vec![20],
    }));
    let mut reg = TypeRegistry::new();
    let t = reg.register(&table, 100).type_id;
    match reg.get_descriptor(t) {
        Some(TypeDescriptor::Intersection { positive, negative, .. }) => {
            assert_eq!(positive.len(), 1);
            assert_eq!(negative.len(), 1);
            assert_ne!(positive[0], negative[0]);
        },
        _ => panic!("should have an intersection descriptor"),
    }
}

#[test]
fn test_module_alias_and_newtype_descriptors() {
    let mut table = base_table();
    table.insert_first(101, entry("<module 'os'>", TypeShape::Module {
        module_name: "os".to_string(),
    }));
    table.insert_first(102, entry("Vector", TypeShape::TypeAlias { name: "Vector".to_string() }));
    table.insert_first(103, entry("UserId", TypeShape::NewType {
        name: "UserId".to_string(),
        base: 10,
    }));
    let mut reg = TypeRegistry::new();
    let m = reg.register(&table, 101).type_id;
    let a = reg.register(&table, 102).type_id;
    let n = reg.register(&table, 103).type_id;
    assert!(matches!(
        reg.get_descriptor(m),
        Some(TypeDescriptor::Module { module_name, .. }) if module_name.as_str() == "os"
    ));
    assert!(matches!(
        reg.get_descriptor(a),
        Some(TypeDescriptor::TypeAlias { name, .. }) if name.as_str() == "Vector"
    ));
    match reg.get_descriptor(n) {
        Some(TypeDescriptor::NewType { name, base_type, .. }) => {
            assert_eq!(name.as_str(), "UserId");
            assert!(matches!(
                reg.get_descriptor(*base_type),
                Some(TypeDescriptor::Instance { .. })
            ));
        },
        _ => panic!("should have a newType descriptor"),
    }
}

#[test]
fn test_type_guard_narrowing_descriptors() {
    let mut table = base_table();
    table.insert_first(104, entry("TypeIs[int]", TypeShape::TypeIs { narrowed: 10 }));
    table.insert_first(105, entry("TypeGuard[str]", TypeShape::TypeGuard { guarded: 20 }));
    let mut reg = TypeRegistry::new();
    let ti = reg.register(&table, 104).type_id;
    let tg = reg.register(&table, 105).type_id;
    match (reg.get_descriptor(ti), reg.get_descriptor(tg)) {
        (
            Some(TypeDescriptor::TypeIs { narrowed_type, .. }),
            Some(TypeDescriptor::TypeGuard { guarded_type, .. }),
        ) => {
            assert!(matches!(
                reg.get_descriptor(*narrowed_type),
                Some(TypeDescriptor::Instance { class_name, .. }) if class_name.as_str() == "int"
            ));
            assert!(matches!(
                reg.get_descriptor(*guarded_type),
                Some(TypeDescriptor::Instance { class_name, .. }) if class_name.as_str() == "str"
            ));
        },
        _ => panic!("should have typeIs and typeGuard descriptors"),
    }
}

#[test]
fn test_remaining_literal_and_opaque_descriptors() {
    let mut table = OracleTable::new();
    table.insert_first(110, entry("Literal[True]", TypeShape::BoolLiteral { value: true }));
    table.insert_first(111, entry("Literal[b\"ab\"]", TypeShape::BytesLiteral {
        value: "Literal[b\"ab\"]".to_string(),
    }));
    table.insert_first(112, entry("LiteralString", TypeShape::LiteralString));
    table.insert_first(113, entry("Unknown", TypeShape::Dynamic {
        dynamic_kind: "Unknown".to_string(),
    }));
    table.insert_first(114, entry("(int) -> str", TypeShape::Callable));
    table.insert_first(115, entry("Protocol", TypeShape::SpecialForm {
        name: "Protocol".to_string(),
    }));
    table.insert_first(116, entry("property", TypeShape::Property));
    let mut reg = TypeRegistry::new();
    for ident in [110u64, 111, 112, 113, 114, 115, 116] {
        reg.register(&table, ident);
    }
    assert!(matches!(
        reg.get_descriptor(1),
        Some(TypeDescriptor::BoolLiteral { value: true, .. })
    ));
    assert!(matches!(reg.get_descriptor(2), Some(TypeDescriptor::BytesLiteral { .. })));
    assert!(matches!(reg.get_descriptor(3), Some(TypeDescriptor::LiteralString { .. })));
    assert!(matches!(
        reg.get_descriptor(4),
        Some(TypeDescriptor::Dynamic { dynamic_kind, .. }) if dynamic_kind.as_str() == "Unknown"
    ));
    assert!(matches!(reg.get_descriptor(5), Some(TypeDescriptor::Callable { .. })));
    assert!(matches!(
        reg.get_descriptor(6),
        Some(TypeDescriptor::SpecialForm { name, .. }) if name.as_str() == "Protocol"
    ));
    assert!(matches!(reg.get_descriptor(7), Some(TypeDescriptor::Property { .. })));
}

#[test]
fn test_bound_method_without_known_function() {
    let mut table = OracleTable::new();
    table.insert_first(120, entry("builtin method", TypeShape::BoundMethod { function: None }));
    let mut reg = TypeRegistry::new();
    let m = reg.register(&table, 120).type_id;
    match reg.get_descriptor(m) {
        Some(TypeDescriptor::BoundMethod { name, parameters, return_type, .. }) => {
            assert!(name.is_none());
            assert!(parameters.is_empty());
            assert!(return_type.is_none());
        },
        _ => panic!("should have a bound-method descriptor"),
    }
}
