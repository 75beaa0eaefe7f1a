use uniffi_jni_core::callbacks::map_methods;
use uniffi_jni_core::context::Context;
use uniffi_jni_core::deconstruct::populate_type_id_map;
use uniffi_jni_core::enums::FieldsKind;
use uniffi_jni_core::error::BindgenError;
use uniffi_jni_core::ffitypes::{FfiType, ObjectImpl, Type};
use uniffi_jni_core::nodes::{
    Callable, CallableKind, CallableResult, Class, LowerableType, Method, ScaffoldingFunctionKind,
    TypeNode, UniffiTraitMethods,
};
use uniffi_jni_core::packages::{
    kotlin_async_callable_results, rust_async_callable_results, rust_throws_types, OptionalType,
    Package, Root, SequenceType, TypeDefinition,
};
use uniffi_jni_core::records::{map_fields, map_record, FieldInput, RecordInput};

fn node(ty: Type, id: usize, lowerable: Option<LowerableType>) -> TypeNode {
    TypeNode {
        is_used_as_error: false,
        has_from_unexpected_callback_error_impl: false,
        ty,
        type_kt: String::from("kotlin.Int"),
        type_rs: String::from("i32"),
        id,
        lowerable,
    }
}

fn no_traits() -> UniffiTraitMethods {
    UniffiTraitMethods {
        debug_fmt: None,
        display_fmt: None,
        eq_eq: None,
        eq_ne: None,
        hash_hash: None,
        ord_cmp: None,
    }
}

fn callable(name: &str, kind: CallableKind) -> Callable {
    Callable {
        kind,
        name: name.to_string(),
        orig_name: name.to_string(),
        is_async: false,
        arguments: vec![],
        result: CallableResult { return_type: None, throws_type: None, id: 0 },
        fully_qualified_name_rs: String::new(),
    }
}

fn method(jni: &str, name: &str) -> Method {
    Method {
        jni_method_name: jni.to_string(),
        callable: callable(name, CallableKind::Method { self_type: node(Type::Int32, 1, None) }),
        docstring: None,
    }
}

fn class(name: &str, id: usize, traits: UniffiTraitMethods) -> Class {
    Class {
        name: name.to_string(),
        orig_name: name.to_string(),
        uniffi_trait_methods: traits,
        rust_module_path: String::from("m"),
        self_type: node(Type::Int32, id, None),
        package_name: String::from("p"),
        base_classes: vec![],
        constructors: vec![],
        methods: vec![],
        docstring: None,
        crate_name: String::from("c"),
        imp: ObjectImpl::Struct,
        callback_interface: None,
    }
}

fn package(name: &str, cdylib: Option<&str>, defs: Vec<TypeDefinition>) -> Package {
    Package {
        name: name.to_string(),
        crate_name: String::from("my_crate"),
        cdylib_name: cdylib.map(|s| s.to_string()),
        disable_java_cleaner: false,
        android_cleaner: false,
        functions: vec![],
        type_definitions: defs,
        scaffolding_functions: vec![],
        imports: vec![],
    }
}

fn optional_def(id: usize) -> TypeDefinition {
    TypeDefinition::Optional(OptionalType {
        inner: node(Type::Int32, 0, None),
        self_type: node(Type::Int32, id, None),
    })
}

fn sequence_def(id: usize) -> TypeDefinition {
    TypeDefinition::Sequence(SequenceType {
        inner: node(Type::Int32, 0, None),
        self_type: node(Type::Int32, id, None),
    })
}

fn def_id(d: &TypeDefinition) -> usize {
    match d {
        TypeDefinition::Optional(o) => o.self_type.id,
        TypeDefinition::Sequence(s) => s.self_type.id,
        TypeDefinition::Class(c) => c.self_type.id,
        TypeDefinition::Bytes(t) => t.id,
        _ => usize::MAX,
    }
}

#[test]
fn ffi_type_definitions_drop_repeated_ids() {
    let root = Root {
        cdylib: None,
        packages: vec![
            package("a", None, vec![optional_def(1), sequence_def(2), optional_def(1)]),
            package("b", None, vec![sequence_def(2), TypeDefinition::Bytes(node(Type::Bytes, 3, None))]),
        ],
    };
    let ids: Vec<usize> = root.ffi_type_definitions().iter().map(|d| def_id(d)).collect();
    assert_eq!(ids, vec![1, 2, 3]);
}

#[test]
fn cdylib_names() {
    let none = Root { cdylib: None, packages: vec![package("a", None, vec![])] };
    assert_eq!(none.cdylib_name(), Err(BindgenError::UnknownCdylibName));
    let own = Root { cdylib: Some(String::from("mylib")), packages: vec![package("a", None, vec![])] };
    assert_eq!(own.cdylib_name(), Ok(String::from("mylib")));
    let agreed = Root {
        cdylib: Some(String::from("mylib")),
        packages: vec![package("a", Some("x"), vec![]), package("b", None, vec![]), package("c", Some("x"), vec![])],
    };
    assert_eq!(agreed.cdylib_name(), Ok(String::from("x")));
    let conflict = Root {
        cdylib: None,
        packages: vec![package("a", Some("x"), vec![]), package("b", Some("y"), vec![]), package("c", Some("x"), vec![])],
    };
    assert_eq!(
        conflict.cdylib_name(),
        Err(BindgenError::ConflictingCdylibNames(vec![String::from("x"), String::from("y")]))
    );
}

#[test]
fn package_names_classes_and_trait_methods() {
    let mut traits = no_traits();
    traits.eq_eq = Some(method("eq", "eq"));
    let p = package(
        "com.example.geo",
        None,
        vec![
            optional_def(1),
            TypeDefinition::Class(class("First", 2, traits)),
            TypeDefinition::Class(class("Second", 3, no_traits())),
        ],
    );
    assert_eq!(p.jni_class(), "`MyCrate`");
    assert_eq!(p.name_jni(), "com/example/geo");
    let names: Vec<&str> = p.classes().iter().map(|c| c.name.as_str()).collect();
    assert_eq!(names, vec!["First", "Second"]);
    let methods = p.uniffi_trait_methods();
    assert_eq!(methods.len(), 2);
    assert!(methods[0].eq_eq.is_some());
    assert!(methods[1].eq_eq.is_none());
}

#[test]
fn trait_scaffolding_functions() {
    let mut traits = no_traits();
    traits.debug_fmt = Some(method("debugFmt", "fmt_debug"));
    traits.display_fmt = Some(method("displayFmt", "fmt_display"));
    traits.hash_hash = Some(method("hashHash", "hash"));
    traits.eq_ne = Some(method("eqNe", "ne"));
    let fns = traits.scaffolding_functions();
    let got: Vec<(&str, &str)> = fns
        .iter()
        .map(|f| (f.jni_method_name.as_str(), f.callable.name.as_str()))
        .collect();
    // Display wins over Debug, then Eq::ne, then Hash::hash
    assert_eq!(got, vec![("displayFmt", "fmt_display"), ("eqNe", "ne"), ("hashHash", "hash")]);
    assert!(matches!(fns[0].kind, ScaffoldingFunctionKind::TraitMethodDisplayFmt));
    assert!(matches!(fns[1].kind, ScaffoldingFunctionKind::TraitMethodEqNe));
    assert!(matches!(fns[2].kind, ScaffoldingFunctionKind::TraitMethodHashHash));
    let mut debug_only = no_traits();
    debug_only.debug_fmt = Some(method("debugFmt", "fmt_debug"));
    let fns = debug_only.scaffolding_functions();
    assert_eq!(fns.len(), 1);
    assert!(matches!(fns[0].kind, ScaffoldingFunctionKind::TraitMethodDebugFmt));
    assert!(no_traits().scaffolding_functions().is_empty());
}

fn context(namespace: Option<&str>) -> Context {
    Context {
        package_map: vec![],
        crate_map: vec![],
        type_module_paths: vec![],
        type_id_map: vec![],
        current_crate_name: None,
        current_namespace_name: namespace.map(|s| s.to_string()),
    }
}

#[test]
fn callback_interface_methods() {
    let self_type = node(Type::Int32, 1, None);
    let methods = vec![
        callable("get_value", CallableKind::Method { self_type: self_type.clone() }),
        callable(
            "on_event",
            CallableKind::VTableMethod { self_type: self_type.clone(), for_callback_interface: false },
        ),
    ];
    let mapped = map_methods("EventListener", methods, &context(Some("my_app"))).unwrap();
    assert_eq!(mapped.len(), 2);
    assert_eq!(mapped[0].dispatch_fn_rs, "uniffi_callback_dispatch_my_app_event_listener_get_value");
    assert_eq!(mapped[0].dispatch_fn_kt, "callbackInterfaceMyAppEventListenerGetValue");
    assert_eq!(mapped[1].dispatch_fn_rs, "uniffi_callback_dispatch_my_app_event_listener_on_event");
    assert!(matches!(
        mapped[1].callable.kind,
        CallableKind::VTableMethod { for_callback_interface: true, .. }
    ));
    // A callback method has a receiver, so it uses the buffer
    assert_eq!(mapped[0].jni_signature, "(JJ)V");
    assert_eq!(mapped[0].jni_method_call_name, "call_void");
}

#[test]
fn callback_interface_method_errors() {
    let bad = vec![callable("make", CallableKind::Function)];
    assert_eq!(
        map_methods("L", bad, &context(Some("ns"))).err(),
        Some(BindgenError::InvalidCallbackMethodKind)
    );
    let good = vec![callable("get", CallableKind::Method { self_type: node(Type::Int32, 1, None) })];
    assert_eq!(
        map_methods("L", good, &context(None)).err(),
        Some(BindgenError::CurrentNamespaceNameNotSet)
    );
    assert_eq!(map_methods("L", vec![], &context(None)).unwrap().len(), 0);
}

#[test]
fn type_ids_in_visit_order() {
    let point = Type::Record {
        namespace: String::from("geo"),
        name: String::from("Point"),
        orig_name: String::from("Point"),
    };
    let ids = populate_type_id_map(&vec![
        Type::Int32,
        point.clone(),
        Type::Int32,
        Type::Optional { inner_type: Box::new(point.clone()) },
        point,
    ]);
    assert_eq!(ids.len(), 3);
    assert_eq!(ids[0], (Type::Int32, 0));
    assert_eq!(ids[1].1, 1);
    assert_eq!(ids[2].1, 2);
    assert!(matches!(ids[2].0, Type::Optional { .. }));
}

fn field_input(name: &str, lowerable: Option<LowerableType>) -> FieldInput {
    FieldInput {
        name: name.to_string(),
        orig_name: name.to_string(),
        ty: node(Type::Int32, 0, lowerable),
        default: None,
        docstring: None,
    }
}

#[test]
fn fields_are_numbered() {
    let fields = map_fields(vec![field_input("a", None), field_input("b", None), field_input("c", None)]);
    let got: Vec<(&str, usize)> = fields.iter().map(|f| (f.name.as_str(), f.index)).collect();
    assert_eq!(got, vec![("a", 0), ("b", 1), ("c", 2)]);
}

fn record_input(lowerable: bool, fields: Vec<FieldInput>) -> RecordInput {
    RecordInput {
        fields_kind: FieldsKind::Named,
        self_type: node(
            Type::Int32,
            7,
            if lowerable { Some(LowerableType::Deconstructable(vec![FfiType::Int32])) } else { None },
        ),
        name: String::from("Rec"),
        orig_name: String::from("Rec"),
        uniffi_trait_methods: no_traits(),
        fields,
        docstring: None,
        recursive: false,
    }
}

#[test]
fn records_are_deconstructed_when_lowerable() {
    let rec = map_record(
        record_input(true, vec![field_input("x", Some(LowerableType::Primitive(FfiType::Int32)))]),
        true,
    )
    .unwrap();
    assert!(rec.immutable);
    assert_eq!(rec.fields[0].index, 0);
    assert_eq!(rec.deconstructable.unwrap().ffi_types(), vec![FfiType::Int32]);
    let plain = map_record(record_input(false, vec![field_input("blob", None)]), false).unwrap();
    assert!(plain.deconstructable.is_none());
    let broken = map_record(record_input(true, vec![field_input("blob", None)]), false);
    assert_eq!(
        broken.err(),
        Some(BindgenError::RecordFieldNotDeconstructable(String::from("Rec"), String::from("blob")))
    );
}

fn with_result(name: &str, kind: CallableKind, is_async: bool, result_id: usize, throws: Option<TypeNode>) -> Callable {
    let mut c = callable(name, kind);
    c.is_async = is_async;
    c.result = CallableResult { return_type: None, throws_type: throws, id: result_id };
    c
}

#[test]
fn throws_types_of_rust_functions_once_each() {
    let callback = CallableKind::VTableMethod { self_type: node(Type::Int32, 1, None), for_callback_interface: true };
    let cs = vec![
        with_result("a", CallableKind::Function, false, 1, Some(node(Type::Int32, 10, None))),
        with_result("b", callback, false, 2, Some(node(Type::Int32, 11, None))),
        with_result("c", CallableKind::Function, false, 3, Some(node(Type::Int32, 10, None))),
        with_result("d", CallableKind::Function, false, 4, Some(node(Type::Int32, 12, None))),
        with_result("e", CallableKind::Function, false, 5, None),
    ];
    let refs: Vec<&Callable> = cs.iter().collect();
    let ids: Vec<usize> = rust_throws_types(&refs).iter().map(|t| t.id).collect();
    assert_eq!(ids, vec![10, 12]);
}

#[test]
fn async_results_once_per_id() {
    let callback = || CallableKind::VTableMethod { self_type: node(Type::Int32, 1, None), for_callback_interface: true };
    let cs = vec![
        with_result("a", CallableKind::Function, true, 7, None),
        with_result("b", CallableKind::Function, false, 8, None),
        with_result("c", callback(), true, 9, None),
        with_result("d", CallableKind::Function, true, 6, None),
        with_result("e", CallableKind::Function, true, 7, Some(node(Type::Int32, 3, None))),
    ];
    let refs: Vec<&Callable> = cs.iter().collect();
    let rust = rust_async_callable_results(&refs);
    assert_eq!(rust.iter().map(|r| r.id).collect::<Vec<_>>(), vec![7, 6]);
    // The position is that of the first result with the ID, the value that of the last
    assert!(rust[0].throws_type.is_some());
    let kotlin = kotlin_async_callable_results(&refs);
    assert_eq!(kotlin.iter().map(|r| r.id).collect::<Vec<_>>(), vec![9]);
}

#[test]
fn cleaner_settings_merge_across_packages() {
    let mut a = package("a", None, vec![]);
    let mut b = package("b", None, vec![]);
    let none = Root { cdylib: None, packages: vec![package("a", None, vec![]), package("b", None, vec![])] };
    assert!(!none.disable_java_cleaner());
    assert!(!none.enable_android_cleaner());
    b.disable_java_cleaner = true;
    a.android_cleaner = true;
    let root = Root { cdylib: None, packages: vec![a, b] };
    assert!(root.disable_java_cleaner());
    assert!(root.enable_android_cleaner());
    assert!(!Root { cdylib: None, packages: vec![] }.disable_java_cleaner());
}
