use uniffi_jni_core::codetype::{ExternalCodeType, ExternalKind, ObjectCodeType};
use uniffi_jni_core::context::{
    insert_entry, Context, Namespace, NamespaceTypeDefinition, RootNamespace,
};
use uniffi_jni_core::enums::{
    create_field_sources, EnumFfiFieldSource, EnumShape, FieldsKind, FfiFieldFinder, LowerableEnum, Variant, VariantInput, enum_entry_name_kt,
    kotlin_enum_kind, lowerable_enum,
};
use uniffi_jni_core::error::BindgenError;
use uniffi_jni_core::ffitypes::{FfiType, ObjectImpl, Type};
use uniffi_jni_core::nodes::{
    Callable, CallableKind, CallableResult, Class, Constructor, DeconstructableField,
    DeconstructableFieldKind,
    DefaultValue, DefaultValueNode, FfiField, Field, KotlinEnumKind, Literal, LiteralNode,
    LowerableType, Radix, TypeNode,
    UniffiTraitMethods,
};
use uniffi_jni_core::packages::{map_enum, EnumInput};
use uniffi_jni_core::records;
use uniffi_jni_core::text::{decimal_string, push_decimal};
use uniffi_jni_core::version_mismatch::{
    check_api_mismatch_output, check_contract_mismatch_output, ensure_output,
};

fn node(ty: Type, lowerable: Option<LowerableType>) -> TypeNode {
    TypeNode {
        is_used_as_error: false,
        has_from_unexpected_callback_error_impl: false,
        ty,
        type_kt: String::from("kotlin.Int"),
        type_rs: String::from("i32"),
        id: 0,
        lowerable,
    }
}

fn field(name: &str, index: usize, lowerable: Option<LowerableType>) -> Field {
    Field {
        name: name.to_string(),
        orig_name: name.to_string(),
        index,
        ty: node(Type::Int32, lowerable),
        default: None,
        docstring: None,
    }
}

#[test]
fn decimal_rendering() {
    assert_eq!(decimal_string(0), "0");
    assert_eq!(decimal_string(7), "7");
    assert_eq!(decimal_string(1234567890), "1234567890");
    assert_eq!(decimal_string(u64::MAX), "18446744073709551615");
    let mut s = String::from("x");
    push_decimal(&mut s, 42);
    assert_eq!(s, "x42");
}

#[test]
fn context_lookups() {
    let mut ctx = Context {
        package_map: vec![(String::from("geo"), String::from("com.example.geo"))],
        crate_map: vec![(String::from("geo"), String::from("geo_crate"))],
        type_module_paths: vec![(
            String::from("geo"),
            vec![(String::from("Point"), String::from("geo_crate::shapes"))],
        )],
        type_id_map: vec![],
        current_crate_name: None,
        current_namespace_name: None,
    };
    assert_eq!(ctx.current_crate_name(), Err(BindgenError::CurrentCrateNameNotSet));
    assert_eq!(ctx.namespace_name(), Err(BindgenError::CurrentNamespaceNameNotSet));
    ctx.update_from_namespace(&Namespace {
        name: String::from("geo"),
        crate_name: String::from("geo_crate"),
    });
    assert_eq!(ctx.current_crate_name(), Ok("geo_crate"));
    assert_eq!(ctx.namespace_name(), Ok("geo"));
    assert_eq!(ctx.package_name("geo"), Ok("com.example.geo"));
    assert_eq!(
        ctx.package_name("other"),
        Err(BindgenError::PackageNameNotFound(String::from("other")))
    );
    assert_eq!(ctx.crate_name("geo"), Ok("geo_crate"));
    assert_eq!(
        ctx.crate_name("other"),
        Err(BindgenError::CrateNameNotFound(String::from("other")))
    );
    assert_eq!(ctx.module_path_for_type("geo", "Point"), Ok("geo_crate::shapes"));
    assert_eq!(
        ctx.module_path_for_type("geo", "Line"),
        Err(BindgenError::ModulePathNotFound(String::from("geo"), String::from("Line")))
    );
}

#[test]
fn record_deconstruction_numbers_values_in_field_order() {
    let fields = vec![
        field("x", 0, Some(LowerableType::Primitive(FfiType::Int32))),
        field("pair", 1, Some(LowerableType::Deconstructable(vec![FfiType::Int8, FfiType::Float64]))),
        field("flag", 2, Some(LowerableType::Primitive(FfiType::Boolean))),
    ];
    let rec = records::deconstructable("Thing", &fields).unwrap();
    assert_eq!(rec.source_fields.len(), 3);
    match &rec.source_fields[0].kind {
        DeconstructableFieldKind::Primitive(f) => assert_eq!((f.index, f.ty), (0, FfiType::Int32)),
        _ => panic!("expected a primitive field"),
    }
    match &rec.source_fields[1].kind {
        DeconstructableFieldKind::Recursive(fs) => {
            assert_eq!(fs.iter().map(|f| (f.index, f.ty)).collect::<Vec<_>>(), vec![
                (1, FfiType::Int8),
                (2, FfiType::Float64)
            ]);
        }
        _ => panic!("expected a recursive field"),
    }
    match &rec.source_fields[2].kind {
        DeconstructableFieldKind::Primitive(f) => assert_eq!((f.index, f.ty), (3, FfiType::Boolean)),
        _ => panic!("expected a primitive field"),
    }
    assert_eq!(
        rec.ffi_types(),
        vec![FfiType::Int32, FfiType::Int8, FfiType::Float64, FfiType::Boolean]
    );
    assert!(rec.source_fields[1].is_recursive());
    assert_eq!(rec.source_fields[1].name_kt(), "`pair`");
}

#[test]
fn record_with_buffer_field_is_not_deconstructable() {
    let fields = vec![field("x", 0, Some(LowerableType::Primitive(FfiType::Int32))), field("blob", 1, None)];
    assert_eq!(
        records::deconstructable("Thing", &fields).err(),
        Some(BindgenError::RecordFieldNotDeconstructable(String::from("Thing"), String::from("blob")))
    );
}

#[test]
fn field_names() {
    assert_eq!(field("my_field", 0, None).name_kt(), "`myField`");
    // Tuple fields are named by position, from 1
    assert_eq!(field("", 2, None).name_kt(), "v3");
}

fn variant(name: &str, fields: Vec<Field>) -> Variant {
    Variant {
        name_kt: name.to_string(),
        name: name.to_string(),
        orig_name: name.to_string(),
        discr: LiteralNode {
            lit_kt: String::from("0"),
            lit: Literal::UInt(0, Radix::Decimal, node(Type::UInt8, None)),
        },
        fields_kind: FieldsKind::Named,
        fields,
        docstring: None,
    }
}

#[test]
fn enum_deconstruction_shares_fields_between_variants() {
    let variants = vec![
        variant("A", vec![field("x", 0, Some(LowerableType::Primitive(FfiType::Int32)))]),
        variant("B", vec![
            field("s", 0, Some(LowerableType::Primitive(FfiType::String))),
            field("y", 1, Some(LowerableType::Primitive(FfiType::Int32))),
        ]),
    ];
    let all = vec![FfiType::Int32, FfiType::Int32, FfiType::NullableString];
    let lowered = lowerable_enum("E", &variants, &Some(LowerableType::Deconstructable(all))).unwrap();
    match lowered {
        Some(LowerableEnum::Deconstructable(de)) => {
            assert_eq!(de.ffi_fields.len(), 3);
            assert_eq!(de.variants.len(), 2);
            assert_eq!(de.variants[0].enum_ffi_field_sources.len(), 2);
            assert_eq!(de.variants[1].enum_ffi_field_sources.len(), 2);
        }
        _ => panic!("expected a deconstructable enum"),
    }
}

#[test]
fn enum_deconstruction_fails_on_a_missing_field_type() {
    let variants = vec![variant("A", vec![field("f", 0, Some(LowerableType::Primitive(FfiType::Float32)))])];
    let all = vec![FfiType::Int32, FfiType::Int32];
    match lowerable_enum("E", &variants, &Some(LowerableType::Deconstructable(all))) {
        Err(e) => assert_eq!(e, BindgenError::FfiFieldNotFound(String::from("E"), FfiType::Float32)),
        Ok(_) => panic!("expected an error"),
    }
}

#[test]
fn lowerable_enum_kinds() {
    assert!(matches!(
        lowerable_enum("E", &[], &Some(LowerableType::Primitive(FfiType::Int32))),
        Ok(Some(LowerableEnum::Primitive))
    ));
    assert!(matches!(lowerable_enum("E", &[], &None), Ok(None)));
}

#[test]
fn ffi_field_finder_takes_the_first_unused_field() {
    let all = vec![
        FfiField { index: 0, ty: FfiType::Int32 },
        FfiField { index: 1, ty: FfiType::Int64 },
        FfiField { index: 2, ty: FfiType::NullableString },
        FfiField { index: 3, ty: FfiType::Int64 },
    ];
    let mut finder = FfiFieldFinder::new(String::from("E"), &all);
    assert_eq!(finder.available_fields.len(), 3);
    assert_eq!(finder.find(FfiType::Int64).unwrap().index, 1);
    assert_eq!(finder.find(FfiType::String).unwrap().index, 2);
    assert_eq!(finder.find(FfiType::Int64).unwrap().index, 3);
    assert_eq!(
        finder.find(FfiType::Int64).err(),
        Some(BindgenError::FfiFieldNotFound(String::from("E"), FfiType::Int64))
    );
}

#[test]
fn kotlin_enum_kinds() {
    let (kind, bases) = kotlin_enum_kind(EnumShape::Error { flat: true }, true, true, true, false, "E", "Int");
    assert!(matches!(kind, KotlinEnumKind::FlatError));
    assert!(bases.is_empty());
    let (kind, bases) = kotlin_enum_kind(EnumShape::Error { flat: false }, false, true, true, false, "E", "Int");
    assert!(matches!(kind, KotlinEnumKind::SealedClass));
    assert_eq!(bases, vec![String::from("Exception()"), String::from("Comparable<E>")]);
    let (kind, bases) = kotlin_enum_kind(EnumShape::Enum, false, false, false, false, "E", "Int");
    assert!(matches!(kind, KotlinEnumKind::SealedClass));
    assert!(bases.is_empty());
    let (kind, bases) = kotlin_enum_kind(EnumShape::Enum, true, false, true, true, "E", "kotlin.UByte");
    match kind {
        KotlinEnumKind::EnumClass { discr_type } => assert_eq!(discr_type, Some(String::from("kotlin.UByte"))),
        _ => panic!("expected an enum class"),
    }
    assert!(bases.is_empty());
    let (kind, _) = kotlin_enum_kind(EnumShape::Enum, true, false, false, false, "E", "Int");
    assert!(matches!(kind, KotlinEnumKind::EnumClass { discr_type: None }));
    assert!(EnumShape::Error { flat: true }.is_flat_error());
    assert!(!EnumShape::Error { flat: false }.is_flat_error());
    assert!(!EnumShape::Enum.is_flat_error());
}

#[test]
fn enum_entry_names() {
    assert_eq!(enum_entry_name_kt("MyVariant"), "`MY_VARIANT`");
    assert_eq!(enum_entry_name_kt("red"), "`RED`");
}

#[test]
fn code_types() {
    let ext = ExternalCodeType::new(String::from("Widget"), ExternalKind::CallbackInterface);
    assert_eq!(ext.type_label(), "Widget");
    assert_eq!(ext.canonical_name(), "TypeWidget");
    assert_eq!(ext.ffi_converter_name(), "FfiConverterTypeWidget");
    assert_eq!(ext.initialization_fn(), Some(String::from("FfiConverterTypeWidget.register")));
    let data = ExternalCodeType::new(String::from("Widget"), ExternalKind::DataClass);
    assert_eq!(data.initialization_fn(), None);
    let obj = ObjectCodeType::new(String::from("Gadget"), ObjectImpl::Struct);
    assert_eq!(obj.canonical_name(), "TypeGadget");
    assert_eq!(obj.initialization_fn("uniffiCallbackInterfaceGadget"), None);
    let tr = ObjectCodeType::new(String::from("Gadget"), ObjectImpl::Trait);
    assert_eq!(
        tr.initialization_fn("uniffiCallbackInterfaceGadget"),
        Some(String::from("uniffiCallbackInterfaceGadget.initialize"))
    );
}

#[test]
fn version_mismatch_output_checks() {
    assert_eq!(ensure_output("boom", "a boom b", ""), Ok(()));
    assert_eq!(ensure_output("boom", "", "xxboom"), Ok(()));
    assert_eq!(
        ensure_output("boom", "out", "err"),
        Err(String::from(
            "Script output did not contain the expected error output:\nboom\n\nEither fix the script or adjust the expected output in `test_version_mismatches.rs`\n\nSTDOUT:\nout\n\nSTDERR:\nerr\n"
        ))
    );
    assert_eq!(
        check_contract_mismatch_output(
            String::new(),
            String::from("error: UniFFI contract version mismatch: try cleaning and rebuilding your project"),
        ),
        Ok(())
    );
    assert!(check_contract_mismatch_output(String::from("fine"), String::new()).is_err());
    assert_eq!(
        check_api_mismatch_output(
            String::from("UniFFI API checksum mismatch: try cleaning and rebuilding your project"),
            String::new(),
        ),
        Ok(())
    );
    assert!(check_api_mismatch_output(String::new(), String::from("UniFFI API")).is_err());
}

fn constructor(primary: bool, name: &str) -> Constructor {
    Constructor {
        jni_method_name: String::new(),
        callable: Callable {
            kind: CallableKind::Constructor { self_type: node(Type::Int32, None), primary },
            name: name.to_string(),
            orig_name: name.to_string(),
            is_async: false,
            arguments: vec![],
            result: CallableResult { return_type: None, throws_type: None, id: 0 },
            fully_qualified_name_rs: String::new(),
        },
        docstring: None,
    }
}

#[test]
fn class_names_and_constructors() {
    let class = Class {
        name: String::from("sprite_sheet"),
        orig_name: String::from("SpriteSheet"),
        uniffi_trait_methods: UniffiTraitMethods {
            debug_fmt: None,
            display_fmt: None,
            eq_eq: None,
            eq_ne: None,
            hash_hash: None,
            ord_cmp: None,
        },
        rust_module_path: String::from("games"),
        self_type: node(Type::Int32, None),
        package_name: String::from("com.games"),
        base_classes: vec![],
        constructors: vec![constructor(false, "from_file"), constructor(true, "new"), constructor(false, "empty")],
        methods: vec![],
        docstring: None,
        crate_name: String::from("game_kit"),
        imp: ObjectImpl::Struct,
        callback_interface: None,
    };
    assert_eq!(class.jni_free_name(), "objectFreeGameKitSpriteSheet");
    assert_eq!(class.jni_addref_name(), "objectAddReffGameKitSpriteSheet");
    assert_eq!(class.handle_map_kt(), "callbackInterfaceHandleMapGameKitSpriteSheet");
    assert_eq!(class.impl_struct_rs(), "UniffiCallbackImplGameKitSpriteSheet");
    assert_eq!(class.primary_constructor().unwrap().callable.name, "new");
    let secondary: Vec<&str> = class
        .secondary_constructors()
        .iter()
        .map(|c| c.callable.name.as_str())
        .collect();
    assert_eq!(secondary, vec!["from_file", "empty"]);
    assert!(class.uniffi_trait_methods.to_string().is_none());
}

fn primitive_source(name: &str, index: usize, ffi: FfiField) -> DeconstructableField {
    DeconstructableField {
        name: name.to_string(),
        orig_name: name.to_string(),
        index,
        ty: node(Type::Int32, None),
        kind: DeconstructableFieldKind::Primitive(ffi),
    }
}

#[test]
fn field_sources_come_in_ffi_value_order() {
    // The variant uses FFI values 3 and 1; values 2 and 4 are left to defaults
    let variant_fields = vec![
        primitive_source("a", 0, FfiField { index: 3, ty: FfiType::Int32 }),
        primitive_source("b", 1, FfiField { index: 1, ty: FfiType::Int64 }),
    ];
    let unused = vec![
        FfiField { index: 4, ty: FfiType::Boolean },
        FfiField { index: 2, ty: FfiType::Float64 },
    ];
    let sources = create_field_sources(unused, &variant_fields);
    assert_eq!(sources.len(), 4);
    assert!(matches!(sources[0], EnumFfiFieldSource::Primitive { source_field: 1 }));
    assert!(matches!(sources[1], EnumFfiFieldSource::Default { ffi_type: FfiType::Float64 }));
    assert!(matches!(sources[2], EnumFfiFieldSource::Primitive { source_field: 0 }));
    assert!(matches!(sources[3], EnumFfiFieldSource::Default { ffi_type: FfiType::Boolean }));
}

fn empty_context() -> Context {
    Context {
        package_map: vec![],
        crate_map: vec![],
        type_module_paths: vec![],
        type_id_map: vec![],
        current_crate_name: None,
        current_namespace_name: None,
    }
}

#[test]
fn inserting_entries_replaces_values() {
    let mut m: Vec<(String, u32)> = vec![];
    insert_entry(&mut m, String::from("a"), 1);
    insert_entry(&mut m, String::from("b"), 2);
    insert_entry(&mut m, String::from("a"), 3);
    assert_eq!(m, vec![(String::from("a"), 3), (String::from("b"), 2)]);
}

#[test]
fn context_learns_the_namespaces_of_the_root() {
    let mut ctx = empty_context();
    ctx.update_from_root(&vec![
        RootNamespace {
            name: String::from("geo"),
            crate_name: String::from("geo_crate"),
            config_package_name: None,
            type_definitions: vec![
                NamespaceTypeDefinition::Record {
                    orig_name: String::from("Point"),
                    rust_module_path: String::from("geo_crate::shapes"),
                },
                NamespaceTypeDefinition::Other,
                NamespaceTypeDefinition::Enum {
                    orig_name: String::from("Color"),
                    rust_module_path: String::from("geo_crate"),
                },
                NamespaceTypeDefinition::Record {
                    orig_name: String::from("Point"),
                    rust_module_path: String::from("geo_crate::points"),
                },
            ],
        },
        RootNamespace {
            name: String::from("net"),
            crate_name: String::from("net_crate"),
            config_package_name: Some(String::from("org.example.net")),
            type_definitions: vec![],
        },
    ], &vec![
        Type::Int32,
        Type::Optional { inner_type: Box::new(Type::Int32) },
        Type::Int32,
        Type::String,
    ]);
    // Without a configured package, the package is `uniffi.` and the namespace's name
    assert_eq!(ctx.package_name("geo"), Ok("uniffi.geo"));
    assert_eq!(ctx.package_name("net"), Ok("org.example.net"));
    assert_eq!(ctx.crate_name("net"), Ok("net_crate"));
    // A later definition of a type replaces an earlier one
    assert_eq!(ctx.module_path_for_type("geo", "Point"), Ok("geo_crate::points"));
    assert_eq!(ctx.module_path_for_type("geo", "Color"), Ok("geo_crate"));
    assert!(ctx.module_path_for_type("net", "Point").is_err());
    assert_eq!(ctx.current_crate_name(), Err(BindgenError::CurrentCrateNameNotSet));
    // Each type gets an id, in the order it is first visited
    assert_eq!(
        ctx.type_id_map,
        vec![
            (Type::Int32, 0),
            (Type::Optional { inner_type: Box::new(Type::Int32) }, 1),
            (Type::String, 2),
        ]
    );
    // A later root numbers only the types not seen yet, from 0
    ctx.update_from_root(&vec![], &vec![Type::String, Type::Boolean]);
    assert_eq!(ctx.type_id_map[3], (Type::Boolean, 0));
    assert_eq!(ctx.type_id_map.len(), 4);
}

#[test]
fn nested_default_values_clone_whole() {
    let inner = DefaultValue::Literal(Literal::String(String::from("hi")));
    let d = DefaultValueNode {
        default_kt: String::from("\"hi\""),
        default: DefaultValue::Literal(Literal::SomeValue { inner: Box::new(inner) }),
    };
    let c = d.clone();
    assert_eq!(c.default_kt, "\"hi\"");
    match c.default {
        DefaultValue::Literal(Literal::SomeValue { inner }) => match *inner {
            DefaultValue::Literal(Literal::String(s)) => assert_eq!(s, "hi"),
            _ => panic!("inner value changed"),
        },
        _ => panic!("outer value changed"),
    }
}

fn variant_input(name: &str, class_name: &str, fields: Vec<Field>) -> VariantInput {
    VariantInput {
        name: name.to_string(),
        orig_name: name.to_string(),
        discr: LiteralNode {
            lit_kt: String::from("0"),
            lit: Literal::UInt(0, Radix::Decimal, node(Type::UInt8, None)),
        },
        fields_kind: FieldsKind::Unit,
        fields,
        docstring: None,
        class_name_kt: class_name.to_string(),
    }
}

fn enum_input(is_flat: bool, shape: EnumShape, lowerable: Option<LowerableType>, variants: Vec<VariantInput>) -> EnumInput {
    let mut self_type = node(
        Type::Enum {
            namespace: String::from("games"),
            name: String::from("Move"),
            orig_name: String::from("Move"),
        },
        lowerable,
    );
    self_type.type_kt = String::from("games.Move");
    EnumInput {
        is_flat,
        use_entries: true,
        self_type,
        discr_type: node(Type::UInt8, None),
        discr_specified: false,
        variants,
        name: String::from("Move"),
        orig_name: String::from("Move"),
        uniffi_trait_methods: UniffiTraitMethods {
            debug_fmt: None,
            display_fmt: None,
            eq_eq: None,
            eq_ne: None,
            hash_hash: None,
            ord_cmp: None,
        },
        shape,
        docstring: None,
        recursive: false,
    }
}

#[test]
fn enums_are_mapped() {
    // A flat enum becomes an `enum class`, its variants named in shouty snake case
    let flat = map_enum(enum_input(
        true,
        EnumShape::Enum,
        Some(LowerableType::Primitive(FfiType::Int32)),
        vec![variant_input("rock", "Rock", vec![]), variant_input("paper_sheet", "PaperSheet", vec![])],
    ))
    .unwrap();
    assert_eq!(flat.variants[1].name_kt, "`PAPER_SHEET`");
    assert!(matches!(flat.kotlin_kind, KotlinEnumKind::EnumClass { discr_type: None }));
    assert!(matches!(flat.lowerable, Some(LowerableEnum::Primitive)));
    assert!(flat.use_entries);
    // A flat error's variants are named by their class names
    let error = map_enum(enum_input(
        true,
        EnumShape::Error { flat: true },
        None,
        vec![variant_input("bad_move", "BadMove", vec![])],
    ))
    .unwrap();
    assert_eq!(error.variants[0].name_kt, "BadMove");
    assert!(matches!(error.kotlin_kind, KotlinEnumKind::FlatError));
    assert!(error.lowerable.is_none());
    // A variant with a field that cannot be deconstructed is refused
    let refused = map_enum(enum_input(
        false,
        EnumShape::Enum,
        Some(LowerableType::Deconstructable(vec![FfiType::Int32])),
        vec![variant_input("jump", "Jump", vec![field("height", 0, None)])],
    ));
    assert!(matches!(refused, Err(BindgenError::VariantFieldNotDeconstructable(_, _, _))));
}
