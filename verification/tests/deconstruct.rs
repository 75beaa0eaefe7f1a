use uniffi_jni_core::deconstruct::{
    DeconstructContext, create_deconstructable_map, create_deconstructable_types_recurse,
    lowerable_type, types_equal,
};
use uniffi_jni_core::error::BindgenError;
use uniffi_jni_core::ffitypes::{FfiType, ObjectImpl, Type};
use uniffi_jni_core::nodes::LowerableType;

fn record(name: &str) -> Type {
    Type::Record {
        namespace: String::from("geo"),
        name: name.to_string(),
        orig_name: name.to_string(),
    }
}

fn optional(ty: Type) -> Type {
    Type::Optional { inner_type: Box::new(ty) }
}

fn records() -> Vec<(Type, Vec<Type>)> {
    vec![
        (record("Point"), vec![Type::Int32, Type::Float64]),
        (record("Tagged"), vec![optional(Type::UInt8), Type::String]),
        (record("Line"), vec![record("Point"), record("Point")]),
    ]
}

#[test]
fn records_with_primitive_fields_are_flattened() {
    let map = create_deconstructable_map(records(), &vec![record("Point"), record("Tagged")]).unwrap();
    assert_eq!(map.len(), 2);
    assert_eq!(map[0].0, record("Point"));
    assert_eq!(map[0].1, vec![FfiType::Int32, FfiType::Float64]);
    assert_eq!(map[1].0, record("Tagged"));
    // An optional small number is widened into one 64-bit value
    assert_eq!(map[1].1, vec![FfiType::Int64, FfiType::String]);
}

#[test]
fn optional_records_get_a_flag_first() {
    let map = create_deconstructable_map(records(), &vec![optional(record("Point"))]).unwrap();
    assert_eq!(map.len(), 2);
    assert_eq!(map[0].0, record("Point"));
    assert_eq!(map[1].0, optional(record("Point")));
    assert_eq!(map[1].1, vec![FfiType::Boolean, FfiType::Int32, FfiType::Float64]);
}

#[test]
fn records_with_record_fields_are_not_deconstructable() {
    let map = create_deconstructable_map(records(), &vec![record("Line"), record("Point")]).unwrap();
    assert_eq!(map.len(), 1);
    assert_eq!(map[0].0, record("Point"));
}

#[test]
fn other_types_are_not_deconstructable() {
    let types = vec![
        Type::Int32,
        optional(Type::UInt8),
        Type::Sequence { inner_type: Box::new(record("Point")) },
        Type::Bytes,
    ];
    let map = create_deconstructable_map(records(), &types).unwrap();
    assert_eq!(map.len(), 0);
}

#[test]
fn a_missing_record_is_an_error() {
    let r = create_deconstructable_map(records(), &vec![record("Point"), optional(record("Circle"))]);
    assert_eq!(r, Err(BindgenError::MissingRecord(record("Circle"))));
}

#[test]
fn the_last_listing_of_a_record_counts() {
    let mut recs = records();
    recs.push((record("Point"), vec![Type::Boolean]));
    let map = create_deconstructable_map(recs, &vec![record("Point")]).unwrap();
    assert_eq!(map[0].1, vec![FfiType::Boolean]);
}

#[test]
fn a_type_is_looked_at_once() {
    let mut context = DeconstructContext {
        deconstructable_types: Vec::new(),
        visited: Vec::new(),
        records: records(),
    };
    let first = create_deconstructable_types_recurse(&record("Point"), &mut context).unwrap();
    assert_eq!(first, Some(vec![FfiType::Int32, FfiType::Float64]));
    let again = create_deconstructable_types_recurse(&record("Point"), &mut context).unwrap();
    assert_eq!(again, first);
    assert_eq!(context.visited.len(), 1);
    assert_eq!(create_deconstructable_types_recurse(&record("Line"), &mut context), Ok(None));
    // Given up on once, a type stays given up on
    assert_eq!(create_deconstructable_types_recurse(&record("Line"), &mut context), Ok(None));
    assert_eq!(context.visited.len(), 2);
    assert_eq!(context.deconstructable_types.len(), 1);
}

#[test]
fn lowering_of_types() {
    let map = create_deconstructable_map(records(), &vec![record("Point")]).unwrap();
    assert!(matches!(
        lowerable_type(&Type::Int32, &map),
        Some(LowerableType::Primitive(FfiType::Int32))
    ));
    match lowerable_type(&record("Point"), &map) {
        Some(LowerableType::Deconstructable(ts)) => {
            assert_eq!(ts, vec![FfiType::Int32, FfiType::Float64])
        }
        _ => panic!("expected a deconstructable type"),
    }
    assert!(lowerable_type(&record("Line"), &map).is_none());
}

#[test]
fn type_equality_compares_names() {
    assert!(types_equal(&record("Point"), &record("Point")));
    assert!(!types_equal(&record("Point"), &record("Line")));
    assert!(types_equal(&optional(Type::Int8), &optional(Type::Int8)));
    assert!(!types_equal(&optional(Type::Int8), &optional(Type::UInt8)));
    let a = Type::Interface {
        namespace: String::from("geo"),
        name: String::from("Shape"),
        orig_name: String::from("Shape"),
        imp: ObjectImpl::Struct,
    };
    let b = Type::Interface {
        namespace: String::from("geo"),
        name: String::from("Shape"),
        orig_name: String::from("Shape"),
        imp: ObjectImpl::Trait,
    };
    assert!(!types_equal(&a, &b));
    assert!(!types_equal(&Type::Int8, &Type::UInt8));
}
