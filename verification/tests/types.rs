use uniffi_jni_core::context::Context;
use uniffi_jni_core::error::BindgenError;
use uniffi_jni_core::ffitypes::{FfiType, ObjectImpl, Type};
use uniffi_jni_core::nodes::{LowerableType, TypeNode};
use uniffi_jni_core::types::{map_type_node, type_kt, type_rs, TypeNodeInput};

fn node(ty: Type, id: usize, lowerable: Option<LowerableType>) -> TypeNode {
    TypeNode {
        is_used_as_error: false,
        has_from_unexpected_callback_error_impl: false,
        ty,
        type_kt: String::from("com.example.`Point`"),
        type_rs: String::from("Point"),
        id,
        lowerable,
    }
}

fn record(name: &str) -> Type {
    Type::Record {
        namespace: String::from("geo"),
        name: name.to_string(),
        orig_name: name.to_string(),
    }
}

fn context() -> Context {
    Context {
        package_map: vec![(String::from("geo"), String::from("com.example"))],
        crate_map: vec![(String::from("geo"), String::from("geo_crate"))],
        type_module_paths: vec![(
            String::from("geo"),
            vec![
                (String::from("Point"), String::from("geo_crate::shapes")),
                (String::from("Shape"), String::from("geo_crate")),
            ],
        )],
        type_id_map: vec![],
        current_crate_name: Some(String::from("geo_crate")),
        current_namespace_name: Some(String::from("geo")),
    }
}

#[test]
fn type_rs_of_builtin_types() {
    let ctx = context();
    assert_eq!(type_rs(&Type::UInt8, &ctx).unwrap(), "u8");
    assert_eq!(type_rs(&Type::String, &ctx).unwrap(), "::std::string::String");
    assert_eq!(type_rs(&Type::Bytes, &ctx).unwrap(), "::std::vec::Vec<u8>");
    assert_eq!(type_rs(&Type::Timestamp, &ctx).unwrap(), "::std::time::Instant");
    let opt = Type::Optional { inner_type: Box::new(Type::Int32) };
    assert_eq!(type_rs(&opt, &ctx).unwrap(), "::std::option::Option<i32>");
    let map = Type::Dictionary {
        key_type: Box::new(Type::String),
        value_type: Box::new(Type::Sequence { inner_type: Box::new(Type::Boolean) }),
    };
    assert_eq!(
        type_rs(&map, &ctx).unwrap(),
        "::std::collections::HashMap<::std::string::String, ::std::vec::Vec<bool>>"
    );
    let boxed = Type::Box { inner_type: Box::new(Type::Float64) };
    assert_eq!(type_rs(&boxed, &ctx).unwrap(), "::std::boxed::Box<f64>");
}

#[test]
fn type_rs_of_user_types() {
    let ctx = context();
    assert_eq!(type_rs(&record("Point"), &ctx).unwrap(), "geo_crate::shapes::Point");
    let iface = Type::Interface {
        namespace: String::from("geo"),
        name: String::from("Shape"),
        orig_name: String::from("Shape"),
        imp: ObjectImpl::Struct,
    };
    assert_eq!(type_rs(&iface, &ctx).unwrap(), "::std::sync::Arc<geo_crate::Shape>");
    let trait_iface = Type::Interface {
        namespace: String::from("geo"),
        name: String::from("Shape"),
        orig_name: String::from("Shape"),
        imp: ObjectImpl::Trait,
    };
    assert_eq!(type_rs(&trait_iface, &ctx).unwrap(), "::std::sync::Arc<dyn geo_crate::Shape>");
    let cb = Type::CallbackInterface {
        namespace: String::from("geo"),
        name: String::from("Shape"),
        orig_name: String::from("Shape"),
    };
    assert_eq!(type_rs(&cb, &ctx).unwrap(), "::std::boxed::Box<dyn geo_crate::Shape>");
}

#[test]
fn type_rs_of_unknown_type_is_an_error() {
    let ctx = context();
    let missing = Type::Optional { inner_type: Box::new(record("Line")) };
    assert_eq!(
        type_rs(&missing, &ctx),
        Err(BindgenError::ModulePathNotFound(String::from("geo"), String::from("Line")))
    );
}

#[test]
fn buffer_function_names() {
    let int = node(Type::UInt16, 1, Some(LowerableType::Primitive(FfiType::UInt16)));
    assert_eq!(int.read_fn_rs(), "uniffi::FfiBufferCursor::read_u16");
    assert_eq!(int.write_fn_rs(), "uniffi::FfiBufferCursor::write_u16");
    assert_eq!(int.read_fn_kt(), "readUShort");
    assert_eq!(int.write_fn_kt(), "writeUShort");
    let rec = node(record("Point"), 7, None);
    assert_eq!(rec.read_fn_rs(), "uniffi_read_type_7");
    assert_eq!(rec.write_fn_kt(), "writeType7");
    let bytes = node(Type::Bytes, 3, None);
    assert_eq!(bytes.read_fn_rs(), "uniffi_read_bytes");
    assert_eq!(bytes.read_fn_kt(), "readBytes");
}

#[test]
fn conversion_function_names() {
    let b = node(Type::Boolean, 1, Some(LowerableType::Primitive(FfiType::Boolean)));
    assert_eq!(b.lower_fn_rs(), "uniffi_jni::lower_bool");
    assert_eq!(b.lift_fn_rs(), "uniffi_jni::lift_bool");
    assert_eq!(b.lower_fn_kt(), "lowerBoolean");
    assert_eq!(b.lift_fn_kt(), "liftBoolean");
    let opt = node(
        Type::Optional { inner_type: Box::new(Type::Float32) },
        2,
        Some(LowerableType::Primitive(FfiType::Int32)),
    );
    assert_eq!(opt.lower_fn_rs(), "uniffi_jni::lower_option_f32");
    assert_eq!(opt.lift_fn_kt(), "liftOptionFloat");
    let opt_rec = node(Type::Optional { inner_type: Box::new(record("Point")) }, 9, None);
    assert_eq!(opt_rec.lower_fn_rs(), "uniffi_lower_type_9");
    assert_eq!(opt_rec.lift_fn_kt(), "liftType9");
    let dur = node(Type::Duration, 4, None);
    assert_eq!(dur.lift_fn_rs(), "uniffi_lift_duration");
    assert_eq!(dur.lower_fn_kt(), "lowerDuration");
}

#[test]
fn generated_names_use_the_prefix_case() {
    let rec = node(record("Point"), 12, None);
    assert_eq!(rec.fn_name_rs("ReadAll"), "uniffi_read_all_type_12");
    assert_eq!(rec.fn_name_kt("read_all"), "readAllType12");
    let s = node(Type::String, 1, Some(LowerableType::Primitive(FfiType::String)));
    assert_eq!(s.fn_name_rs("LowerIt"), "uniffi_lower_it_string");
    assert_eq!(s.fn_name_kt("lower_it"), "lowerItString");
}

#[test]
fn numbered_names() {
    let rec = node(record("Point"), 42, None);
    assert_eq!(rec.deconstructed_type_kt(), "DeconstructedType42");
    assert_eq!(rec.throw_error_fn_rs(), "uniffi_throw_error_42");
    assert_eq!(rec.construct_fn_kt(), "construct42");
    assert_eq!(rec.lift_kt_from_rust_var(), "UNIFFI_CACHED_LIFT_KT_42");
}

#[test]
fn lowering_kind() {
    let p = node(Type::Int8, 0, Some(LowerableType::Primitive(FfiType::Int8)));
    assert!(p.is_primitive());
    assert!(!p.uses_buffer());
    let d = node(
        record("Point"),
        0,
        Some(LowerableType::Deconstructable(vec![FfiType::Int32, FfiType::Float64])),
    );
    assert!(!d.is_primitive());
    assert!(!d.uses_buffer());
    let b = node(record("Point"), 0, None);
    assert!(!b.is_primitive());
    assert!(b.uses_buffer());
}

#[test]
fn lift_jni_signatures() {
    let d = node(
        record("Point"),
        0,
        Some(LowerableType::Deconstructable(vec![FfiType::Int32, FfiType::Float64, FfiType::String])),
    );
    assert_eq!(d.lift_fn_jni_signature(), "(IDLjava/lang/String;)Lcom/example/Point;");
    let b = node(record("Point"), 0, None);
    assert_eq!(b.lift_fn_jni_signature(), "(J)Lcom/example/Point;");
    let p = node(Type::Boolean, 0, Some(LowerableType::Primitive(FfiType::Boolean)));
    assert_eq!(p.lift_fn_jni_signature(), "(Z)Lcom/example/Point;");
}

#[test]
fn ffi_type_texts() {
    assert_eq!(FfiType::UInt8.type_kt(), "Byte");
    assert_eq!(FfiType::NullableString.type_kt(), "String?");
    assert_eq!(FfiType::UInt64.type_rs(), "i64");
    assert_eq!(FfiType::String.type_rs(), "uniffi_jni::jstring");
    assert_eq!(FfiType::Float32.default_kt(), "0.0f");
    assert_eq!(FfiType::Int16.default_kt(), "0.toShort()");
    assert_eq!(FfiType::String.default_kt(), "\"\"");
    assert_eq!(FfiType::Boolean.jni_signature(), "Z");
    assert_eq!(FfiType::NullableString.jni_signature(), "Ljava/lang/String;");
    assert_eq!(FfiType::UInt32.jvalue_field(), "i");
    assert_eq!(FfiType::Float64.jvalue_field(), "d");
}

#[test]
fn primitive_ffi_types() {
    assert_eq!(FfiType::for_primitive(&Type::UInt8), Some(FfiType::UInt8));
    assert_eq!(FfiType::for_primitive(&Type::String), Some(FfiType::String));
    assert_eq!(
        FfiType::for_primitive(&Type::Optional { inner_type: Box::new(Type::UInt8) }),
        Some(FfiType::Int64)
    );
    assert_eq!(
        FfiType::for_primitive(&Type::Optional { inner_type: Box::new(Type::Float32) }),
        Some(FfiType::Int32)
    );
    assert_eq!(
        FfiType::for_primitive(&Type::Optional { inner_type: Box::new(Type::String) }),
        Some(FfiType::NullableString)
    );
    assert_eq!(
        FfiType::for_primitive(&Type::Optional { inner_type: Box::new(Type::Int64) }),
        None
    );
    assert_eq!(FfiType::for_primitive(&Type::Bytes), None);
    assert_eq!(FfiType::for_primitive(&record("Point")), None);
}

#[test]
fn type_names_and_interfaces() {
    assert_eq!(record("Point").name(), Some("Point"));
    assert_eq!(Type::Int32.name(), None);
    assert!(!ObjectImpl::Struct.is_trait_interface());
    assert!(ObjectImpl::Trait.is_trait_interface());
    assert!(ObjectImpl::CallbackTrait.is_trait_interface());
    assert!(ObjectImpl::CallbackTrait.has_callback_interface());
    assert!(!ObjectImpl::Trait.has_callback_interface());
    let copy = record("Point").clone();
    assert_eq!(copy, record("Point"));
}

#[test]
fn lift_names_are_lower_names_with_the_verb_replaced() {
    let types = vec![
        node(Type::UInt8, 1, None),
        node(Type::Optional { inner_type: Box::new(Type::UInt8) }, 2, None),
        node(Type::Optional { inner_type: Box::new(Type::Int64) }, 7, None),
        node(Type::Timestamp, 3, None),
        node(record("Point"), 4, None),
    ];
    for t in &types {
        assert_eq!(t.lift_fn_rs(), t.lower_fn_rs().replacen("lower", "lift", 1));
        assert_eq!(t.lift_fn_kt(), t.lower_fn_kt().replacen("lower", "lift", 1));
        let primitive = FfiType::for_primitive(&t.ty).is_some();
        assert_eq!(t.lower_fn_rs().starts_with("uniffi_jni::lower_"), primitive);
        if !primitive {
            assert!(t.lower_fn_rs().starts_with("uniffi_lower_"));
        }
    }
    assert_eq!(types[2].lower_fn_rs(), "uniffi_lower_type_7");
    assert_eq!(types[2].lift_fn_kt(), "liftType7");
}

#[test]
fn kotlin_types() {
    let ctx = context();
    let classes = vec![
        (record("Point"), String::from("Point")),
        (record("Shape"), String::from("ShapeException")),
    ];
    assert_eq!(type_kt(&Type::UInt8, &ctx, &classes), Ok(String::from("kotlin.UByte")));
    assert_eq!(
        type_kt(&Type::Optional { inner_type: Box::new(Type::Int32) }, &ctx, &classes),
        Ok(String::from("kotlin.Int?"))
    );
    assert_eq!(
        type_kt(
            &Type::Dictionary {
                key_type: Box::new(Type::String),
                value_type: Box::new(Type::Sequence { inner_type: Box::new(record("Point")) }),
            },
            &ctx,
            &classes
        ),
        Ok(String::from(
            "kotlin.collections.Map<kotlin.String, kotlin.collections.List<com.example.Point>>"
        ))
    );
    assert_eq!(
        type_kt(&Type::Box { inner_type: Box::new(record("Shape")) }, &ctx, &classes),
        Ok(String::from("com.example.ShapeException"))
    );
    assert_eq!(type_kt(&Type::Timestamp, &ctx, &classes), Ok(String::from("java.time.Instant")));
    // A type of an unknown namespace has no package
    let other = Type::Enum {
        namespace: String::from("net"),
        name: String::from("Mode"),
        orig_name: String::from("Mode"),
    };
    assert_eq!(
        type_kt(&other, &ctx, &classes),
        Err(BindgenError::PackageNameNotFound(String::from("net")))
    );
    // A type without a class name is refused
    assert_eq!(
        type_kt(&record("Line"), &ctx, &classes),
        Err(BindgenError::ClassNameNotFound(record("Line")))
    );
}

fn input(ty: Type) -> TypeNodeInput {
    TypeNodeInput { ty, is_used_as_error: false, has_from_unexpected_callback_error_impl: false }
}

#[test]
fn type_nodes_are_mapped() {
    let mut ctx = context();
    ctx.type_id_map = vec![(Type::Int32, 0), (record("Point"), 1)];
    let classes = vec![(record("Point"), String::from("Point"))];
    let decon = vec![(record("Point"), vec![FfiType::Int32, FfiType::Int32])];
    assert_eq!(ctx.get_type_id(&record("Point")), Ok(1));
    assert_eq!(ctx.get_type_id(&Type::Boolean), Err(BindgenError::TypeIdNotFound(Type::Boolean)));
    let n = map_type_node(input(Type::Int32), &ctx, &classes, &decon).unwrap();
    assert_eq!(n.type_kt, "kotlin.Int");
    assert_eq!(n.type_rs, "i32");
    assert_eq!(n.id, 0);
    assert!(matches!(n.lowerable, Some(LowerableType::Primitive(FfiType::Int32))));
    let mut point_input = input(record("Point"));
    point_input.is_used_as_error = true;
    let p = map_type_node(point_input, &ctx, &classes, &decon).unwrap();
    assert_eq!(p.type_kt, "com.example.Point");
    assert_eq!(p.type_rs, "geo_crate::shapes::Point");
    assert_eq!(p.id, 1);
    assert!(p.is_used_as_error);
    match p.lowerable {
        Some(LowerableType::Deconstructable(ts)) => assert_eq!(ts, vec![FfiType::Int32, FfiType::Int32]),
        _ => panic!("expected a deconstructable type"),
    }
    // A type without an id is refused once its names are made
    assert_eq!(
        map_type_node(input(Type::Boolean), &ctx, &classes, &decon).err(),
        Some(BindgenError::TypeIdNotFound(Type::Boolean))
    );
    // The Kotlin type is made first
    assert_eq!(
        map_type_node(input(record("Shape")), &ctx, &classes, &decon).err(),
        Some(BindgenError::ClassNameNotFound(record("Shape")))
    );
    // A type without a module path fails on its Rust type
    let line = Type::Record {
        namespace: String::from("geo"),
        name: String::from("Line"),
        orig_name: String::from("Line"),
    };
    let classes2 = vec![(line.clone(), String::from("Line"))];
    assert_eq!(
        map_type_node(input(line), &ctx, &classes2, &decon).err(),
        Some(BindgenError::ModulePathNotFound(String::from("geo"), String::from("Line")))
    );
}
