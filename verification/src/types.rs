//! The Rust and Kotlin names of types, and of the functions that read, write, lift and lower
//! them.

use vstd::prelude::*;
use crate::context::{Context, first_match, module_path_of, type_id_of};
use crate::deconstruct::{find_first_type, first_index_of, keys_of, lowerable_type, memo_get, memo_view};
use crate::error::BindgenError;
use crate::ffitypes::{
    FfiType, Type, copy_type, ffi_jni_signature, ffi_type_kt, int_type_width, primitive_ffi_type,
};
use crate::names::{
    is_lowercase_word, lower_camel_case, snake_case, to_lower_camel_case, to_snake_case,
};
use crate::nodes::{LowerableType, TypeNode};
use crate::text::{decimal, push_decimal};

verus! {

/// The Rust type of a type, or the namespace and name of a type whose module path is unknown.
pub open spec fn rust_type(ty: Type, ctx: Context) -> Result<Seq<char>, (Seq<char>, Seq<char>)>
    decreases ty,
{
    match ty {
        Type::UInt8 => Ok("u8"@),
        Type::Int8 => Ok("i8"@),
        Type::UInt16 => Ok("u16"@),
        Type::Int16 => Ok("i16"@),
        Type::UInt32 => Ok("u32"@),
        Type::Int32 => Ok("i32"@),
        Type::UInt64 => Ok("u64"@),
        Type::Int64 => Ok("i64"@),
        Type::Float32 => Ok("f32"@),
        Type::Float64 => Ok("f64"@),
        Type::Boolean => Ok("bool"@),
        Type::String => Ok("::std::string::String"@),
        Type::Optional { inner_type } => match rust_type(*inner_type, ctx) {
            Ok(inner) => Ok("::std::option::Option<"@ + inner + ">"@),
            Err(e) => Err(e),
        },
        Type::Sequence { inner_type } => match rust_type(*inner_type, ctx) {
            Ok(inner) => Ok("::std::vec::Vec<"@ + inner + ">"@),
            Err(e) => Err(e),
        },
        Type::Dictionary { key_type, value_type } => match rust_type(*key_type, ctx) {
            Ok(k) => match rust_type(*value_type, ctx) {
                Ok(v) => Ok("::std::collections::HashMap<"@ + k + ", "@ + v + ">"@),
                Err(e) => Err(e),
            },
            Err(e) => Err(e),
        },
        Type::Record { namespace, orig_name, .. } | Type::Enum { namespace, orig_name, .. }
        | Type::Custom { namespace, orig_name, .. } => match module_path_of(
            ctx,
            namespace@,
            orig_name@,
        ) {
            Some(p) => Ok(p + "::"@ + orig_name@),
            None => Err((namespace@, orig_name@)),
        },
        Type::Interface { namespace, orig_name, imp, .. } => match module_path_of(
            ctx,
            namespace@,
            orig_name@,
        ) {
            Some(p) => if imp is Struct {
                Ok("::std::sync::Arc<"@ + p + "::"@ + orig_name@ + ">"@)
            } else {
                Ok("::std::sync::Arc<dyn "@ + p + "::"@ + orig_name@ + ">"@)
            },
            None => Err((namespace@, orig_name@)),
        },
        Type::CallbackInterface { namespace, orig_name, .. } => match module_path_of(
            ctx,
            namespace@,
            orig_name@,
        ) {
            Some(p) => Ok("::std::boxed::Box<dyn "@ + p + "::"@ + orig_name@ + ">"@),
            None => Err((namespace@, orig_name@)),
        },
        Type::Box { inner_type } => match rust_type(*inner_type, ctx) {
            Ok(inner) => Ok("::std::boxed::Box<"@ + inner + ">"@),
            Err(e) => Err(e),
        },
        Type::Bytes => Ok("::std::vec::Vec<u8>"@),
        Type::Duration => Ok("::std::time::Duration"@),
        Type::Timestamp => Ok("::std::time::Instant"@),
    }
}

/// Whether a result of `type_rs` is what `rust_type` says.
pub open spec fn type_rs_result(r: Result<String, BindgenError>, expected: Result<Seq<char>, (Seq<char>, Seq<char>)>) -> bool {
    match expected {
        Ok(s) => r matches Ok(x) && x@ == s,
        Err((n, t)) => r matches Err(BindgenError::ModulePathNotFound(a, b)) && a@ == n && b@ == t,
    }
}

/// A string made of three parts.
fn concat3(a: &str, b: &str, c: &str) -> (s: String)
    ensures
        s@ == a@ + b@ + c@,
{
    let mut s = String::from_str(a);
    s.append(b);
    s.append(c);
    s
}

/// The Rust type of a type, as the scaffolding writes it.
pub fn type_rs(ty: &Type, context: &Context) -> (r: Result<String, BindgenError>)
    ensures
        type_rs_result(r, rust_type(*ty, *context)),
    decreases ty,
{
    let lit = match ty {
        Type::UInt8 => "u8",
        Type::Int8 => "i8",
        Type::UInt16 => "u16",
        Type::Int16 => "i16",
        Type::UInt32 => "u32",
        Type::Int32 => "i32",
        Type::UInt64 => "u64",
        Type::Int64 => "i64",
        Type::Float32 => "f32",
        Type::Float64 => "f64",
        Type::Boolean => "bool",
        Type::String => "::std::string::String",
        Type::Bytes => "::std::vec::Vec<u8>",
        Type::Duration => "::std::time::Duration",
        Type::Timestamp => "::std::time::Instant",
        Type::Optional { inner_type } => {
            let inner = type_rs(inner_type, context)?;
            return Ok(concat3("::std::option::Option<", inner.as_str(), ">"));
        },
        Type::Sequence { inner_type } => {
            let inner = type_rs(inner_type, context)?;
            return Ok(concat3("::std::vec::Vec<", inner.as_str(), ">"));
        },
        Type::Dictionary { key_type, value_type } => {
            let k = type_rs(key_type, context)?;
            let v = type_rs(value_type, context)?;
            let mut s = concat3("::std::collections::HashMap<", k.as_str(), ", ");
            s.append(v.as_str());
            s.append(">");
            return Ok(s);
        },
        Type::Record { namespace, orig_name, .. } | Type::Enum { namespace, orig_name, .. }
        | Type::Custom { namespace, orig_name, .. } => {
            let path = context.module_path_for_type(namespace.as_str(), orig_name.as_str())?;
            return Ok(concat3(path, "::", orig_name.as_str()));
        },
        Type::Interface { namespace, orig_name, imp, .. } => {
            let path = context.module_path_for_type(namespace.as_str(), orig_name.as_str())?;
            let mut s = if imp.is_trait_interface() {
                concat3("::std::sync::Arc<dyn ", path, "::")
            } else {
                concat3("::std::sync::Arc<", path, "::")
            };
            s.append(orig_name.as_str());
            s.append(">");
            return Ok(s);
        },
        Type::CallbackInterface { namespace, orig_name, .. } => {
            let path = context.module_path_for_type(namespace.as_str(), orig_name.as_str())?;
            let mut s = concat3("::std::boxed::Box<dyn ", path, "::");
            s.append(orig_name.as_str());
            s.append(">");
            return Ok(s);
        },
        Type::Box { inner_type } => {
            let inner = type_rs(inner_type, context)?;
            return Ok(concat3("::std::boxed::Box<", inner.as_str(), ">"));
        },
    };
    Ok(String::from_str(lit))
}

/// Why the Kotlin type of a type cannot be written.
pub enum KotlinTypeFailure {
    /// The namespace of a user-defined type has no known package.
    Package(Seq<char>),
    /// No class name was given for a user-defined type.
    ClassName(Type),
}

/// The class name given for a type: that of its first entry.
pub open spec fn class_name_of(class_names: Seq<(Type, String)>, ty: Type) -> Option<Seq<char>> {
    let i = first_index_of(keys_of(class_names), ty);
    if 0 <= i < class_names.len() {
        Some(class_names[i].1@)
    } else {
        None
    }
}

/// The Kotlin type of a type.  A user-defined type is its namespace's package, a dot and its
/// class name.
pub open spec fn kotlin_type(ty: Type, ctx: Context, class_names: Seq<(Type, String)>) -> Result<
    Seq<char>,
    KotlinTypeFailure,
>
    decreases ty,
{
    match ty {
        Type::UInt8 => Ok("kotlin.UByte"@),
        Type::Int8 => Ok("kotlin.Byte"@),
        Type::UInt16 => Ok("kotlin.UShort"@),
        Type::Int16 => Ok("kotlin.Short"@),
        Type::UInt32 => Ok("kotlin.UInt"@),
        Type::Int32 => Ok("kotlin.Int"@),
        Type::UInt64 => Ok("kotlin.ULong"@),
        Type::Int64 => Ok("kotlin.Long"@),
        Type::Float32 => Ok("kotlin.Float"@),
        Type::Float64 => Ok("kotlin.Double"@),
        Type::Boolean => Ok("kotlin.Boolean"@),
        Type::String => Ok("kotlin.String"@),
        Type::Optional { inner_type } => match kotlin_type(*inner_type, ctx, class_names) {
            Ok(inner) => Ok(inner + "?"@),
            Err(e) => Err(e),
        },
        Type::Sequence { inner_type } => match kotlin_type(*inner_type, ctx, class_names) {
            Ok(inner) => Ok("kotlin.collections.List<"@ + inner + ">"@),
            Err(e) => Err(e),
        },
        Type::Dictionary { key_type, value_type } => match kotlin_type(*key_type, ctx, class_names) {
            Ok(k) => match kotlin_type(*value_type, ctx, class_names) {
                Ok(v) => Ok("kotlin.collections.Map<"@ + k + ", "@ + v + ">"@),
                Err(e) => Err(e),
            },
            Err(e) => Err(e),
        },
        Type::Record { namespace, .. } | Type::Enum { namespace, .. } | Type::Interface {
            namespace,
            ..
        } | Type::CallbackInterface { namespace, .. } | Type::Custom { namespace, .. } => {
            match first_match(ctx.package_map@, namespace@) {
                None => Err(KotlinTypeFailure::Package(namespace@)),
                Some(p) => match class_name_of(class_names, ty) {
                    Some(c) => Ok(p@ + "."@ + c),
                    None => Err(KotlinTypeFailure::ClassName(ty)),
                },
            }
        },
        Type::Box { inner_type } => kotlin_type(*inner_type, ctx, class_names),
        Type::Bytes => Ok("kotlin.ByteArray"@),
        Type::Duration => Ok("java.time.Duration"@),
        Type::Timestamp => Ok("java.time.Instant"@),
    }
}

/// Whether a result of `type_kt` is what `kotlin_type` says.
pub open spec fn type_kt_result(r: Result<String, BindgenError>, expected: Result<Seq<char>, KotlinTypeFailure>) -> bool {
    match expected {
        Ok(s) => r matches Ok(x) && x@ == s,
        Err(KotlinTypeFailure::Package(n)) => r matches Err(BindgenError::PackageNameNotFound(a)) && a@ == n,
        Err(KotlinTypeFailure::ClassName(t)) => r == Err::<String, BindgenError>(BindgenError::ClassNameNotFound(t)),
    }
}

/// The Kotlin type of a type, as the bindings write it.  `class_names` gives the Kotlin class
/// name of each user-defined type (which depends on the type's name and on whether it is used
/// as an error).
pub fn type_kt(ty: &Type, context: &Context, class_names: &Vec<(Type, String)>) -> (r: Result<
    String,
    BindgenError,
>)
    ensures
        type_kt_result(r, kotlin_type(*ty, *context, class_names@)),
    decreases ty,
{
    let lit = match ty {
        Type::UInt8 => "kotlin.UByte",
        Type::Int8 => "kotlin.Byte",
        Type::UInt16 => "kotlin.UShort",
        Type::Int16 => "kotlin.Short",
        Type::UInt32 => "kotlin.UInt",
        Type::Int32 => "kotlin.Int",
        Type::UInt64 => "kotlin.ULong",
        Type::Int64 => "kotlin.Long",
        Type::Float32 => "kotlin.Float",
        Type::Float64 => "kotlin.Double",
        Type::Boolean => "kotlin.Boolean",
        Type::String => "kotlin.String",
        Type::Bytes => "kotlin.ByteArray",
        Type::Duration => "java.time.Duration",
        Type::Timestamp => "java.time.Instant",
        Type::Optional { inner_type } => {
            let mut inner = type_kt(inner_type, context, class_names)?;
            inner.append("?");
            return Ok(inner);
        },
        Type::Sequence { inner_type } => {
            let inner = type_kt(inner_type, context, class_names)?;
            return Ok(concat3("kotlin.collections.List<", inner.as_str(), ">"));
        },
        Type::Dictionary { key_type, value_type } => {
            let k = type_kt(key_type, context, class_names)?;
            let v = type_kt(value_type, context, class_names)?;
            let mut s = concat3("kotlin.collections.Map<", k.as_str(), ", ");
            s.append(v.as_str());
            s.append(">");
            return Ok(s);
        },
        Type::Record { namespace, .. } | Type::Enum { namespace, .. } | Type::Interface {
            namespace,
            ..
        } | Type::CallbackInterface { namespace, .. } | Type::Custom { namespace, .. } => {
            let package = context.package_name(namespace.as_str())?;
            return match find_first_type(class_names, ty) {
                Some(i) => Ok(concat3(package, ".", class_names[i].1.as_str())),
                None => Err(BindgenError::ClassNameNotFound(copy_type(ty))),
            };
        },
        Type::Box { inner_type } => {
            return type_kt(inner_type, context, class_names);
        },
    };
    Ok(String::from_str(lit))
}

/// A type node before it is mapped: the type, and what the general pipeline knows of it.
pub struct TypeNodeInput {
    pub ty: Type,
    pub is_used_as_error: bool,
    pub has_from_unexpected_callback_error_impl: bool,
}

/// Whether `l` is how a type is lowered: as its primitive FFI type, else as the FFI types that
/// `deconstructable_types` gives it, else not at all.
pub open spec fn lowerable_of(ty: Type, deconstructable_types: Seq<(Type, Vec<FfiType>)>, l: Option<LowerableType>) -> bool {
    match primitive_ffi_type(ty) {
        Some(t) => l == Some(LowerableType::Primitive(t)),
        None => match memo_get(memo_view(deconstructable_types), ty) {
            Some(v) => l matches Some(LowerableType::Deconstructable(w)) && w@ == v,
            None => l is None,
        },
    }
}

/// Map a type node: choose how it is lowered, then write its Kotlin type, its Rust type and
/// its id.  Fails on the first of these that cannot be made, in that order.  `class_names`
/// gives the Kotlin class name of each user-defined type.
pub fn map_type_node(
    input: TypeNodeInput,
    context: &Context,
    class_names: &Vec<(Type, String)>,
    deconstructable_types: &Vec<(Type, Vec<FfiType>)>,
) -> (r: Result<TypeNode, BindgenError>)
    ensures
        match kotlin_type(input.ty, *context, class_names@) {
            Err(f) => r matches Err(e) && type_kt_result(Err(e), Err(f)),
            Ok(kt) => match rust_type(input.ty, *context) {
                Err(f) => r matches Err(e) && type_rs_result(Err(e), Err(f)),
                Ok(rs) => match type_id_of(context.type_id_map@, input.ty) {
                    None => r == Err::<TypeNode, BindgenError>(BindgenError::TypeIdNotFound(input.ty)),
                    Some(id) => r matches Ok(n) && n.ty == input.ty && n.type_kt@ == kt
                        && n.type_rs@ == rs && n.id == id && n.is_used_as_error == input.is_used_as_error
                        && n.has_from_unexpected_callback_error_impl
                        == input.has_from_unexpected_callback_error_impl && lowerable_of(
                        input.ty,
                        deconstructable_types@,
                        n.lowerable,
                    ),
                },
            },
        },
{
    let lowerable = lowerable_type(&input.ty, deconstructable_types);
    let type_kt = match type_kt(&input.ty, context, class_names) {
        Ok(s) => s,
        Err(e) => return Err(e),
    };
    let type_rs = match type_rs(&input.ty, context) {
        Ok(s) => s,
        Err(e) => return Err(e),
    };
    let id = context.get_type_id(&input.ty)?;
    Ok(
        TypeNode {
            is_used_as_error: input.is_used_as_error,
            has_from_unexpected_callback_error_impl: input.has_from_unexpected_callback_error_impl,
            ty: input.ty,
            type_kt,
            type_rs,
            id,
            lowerable,
        },
    )
}

/// The Kotlin name of a signed integer of a width in bits.
pub open spec fn kotlin_int_name(width: nat) -> Seq<char> {
    if width == 8 {
        "Byte"@
    } else if width == 16 {
        "Short"@
    } else if width == 32 {
        "Int"@
    } else {
        "Long"@
    }
}

/// Every integer type keeps its width and signedness in Kotlin and in Rust: a signed one is
/// Kotlin's integer of that width (`kotlin.Long` for 64 bits), an unsigned one the same name
/// with a `U` in front (`kotlin.ULong`); in Rust it is `i` or `u` and the width
/// (`i64`, `u64`).
pub proof fn law_integer_types_keep_their_width(ty: Type, ctx: Context, class_names: Seq<(Type, String)>)
    requires
        int_type_width(ty) is Some,
    ensures
        ({
            let (w, signed) = int_type_width(ty).unwrap();
            &&& kotlin_type(ty, ctx, class_names) == Ok::<Seq<char>, KotlinTypeFailure>(
                "kotlin."@ + (if signed {
                    Seq::<char>::empty()
                } else {
                    seq!['U']
                }) + kotlin_int_name(w),
            )
            &&& rust_type(ty, ctx) == Ok::<Seq<char>, (Seq<char>, Seq<char>)>(
                seq![if signed {
                    'i'
                } else {
                    'u'
                }] + decimal(w),
            )
        }),
{
    reveal_strlit("kotlin.");
    reveal_strlit("Byte");
    reveal_strlit("Short");
    reveal_strlit("Int");
    reveal_strlit("Long");
    reveal_strlit("kotlin.Byte");
    reveal_strlit("kotlin.UByte");
    reveal_strlit("kotlin.Short");
    reveal_strlit("kotlin.UShort");
    reveal_strlit("kotlin.Int");
    reveal_strlit("kotlin.UInt");
    reveal_strlit("kotlin.Long");
    reveal_strlit("kotlin.ULong");
    reveal_strlit("i8");
    reveal_strlit("u8");
    reveal_strlit("i16");
    reveal_strlit("u16");
    reveal_strlit("i32");
    reveal_strlit("u32");
    reveal_strlit("i64");
    reveal_strlit("u64");
    reveal_with_fuel(decimal, 3);
    let (w, signed) = int_type_width(ty).unwrap();
    let k = "kotlin."@ + (if signed {
        Seq::<char>::empty()
    } else {
        seq!['U']
    }) + kotlin_int_name(w);
    let r = seq![if signed {
        'i'
    } else {
        'u'
    }] + decimal(w);
    match ty {
        Type::Int8 => {
            assert(k =~= "kotlin.Byte"@);
            assert(r =~= "i8"@);
        },
        Type::UInt8 => {
            assert(k =~= "kotlin.UByte"@);
            assert(r =~= "u8"@);
        },
        Type::Int16 => {
            assert(k =~= "kotlin.Short"@);
            assert(r =~= "i16"@);
        },
        Type::UInt16 => {
            assert(k =~= "kotlin.UShort"@);
            assert(r =~= "u16"@);
        },
        Type::Int32 => {
            assert(k =~= "kotlin.Int"@);
            assert(r =~= "i32"@);
        },
        Type::UInt32 => {
            assert(k =~= "kotlin.UInt"@);
            assert(r =~= "u32"@);
        },
        Type::Int64 => {
            assert(k =~= "kotlin.Long"@);
            assert(r =~= "i64"@);
        },
        Type::UInt64 => {
            assert(k =~= "kotlin.ULong"@);
            assert(r =~= "u64"@);
        },
        _ => {},
    }
}

/// A type passed as a single primitive FFI value that is not an optional: an integer, a float,
/// a boolean or a string.
pub open spec fn is_scalar(ty: Type) -> bool {
    primitive_ffi_type(ty) is Some && !(ty is Optional)
}

/// The Kotlin type of a scalar is the Kotlin type that its FFI value is passed as, with a `U`
/// for an unsigned integer (JNI passes an unsigned integer as the signed type of its width):
/// `kotlin.Short` for an `i16` passed as a short, `kotlin.UShort` for a `u16`,
/// `kotlin.Double` for an `f64`.
pub proof fn law_scalar_kotlin_types_match_their_ffi_types(ty: Type, ctx: Context, class_names: Seq<(Type, String)>)
    requires
        is_scalar(ty),
    ensures
        kotlin_type(ty, ctx, class_names) == Ok::<Seq<char>, KotlinTypeFailure>(
            "kotlin."@ + (if int_type_width(ty) matches Some((_, false)) {
                seq!['U']
            } else {
                Seq::<char>::empty()
            }) + ffi_type_kt(primitive_ffi_type(ty).unwrap()),
        ),
{
    reveal_strlit("kotlin.");
    reveal_strlit("Byte");
    reveal_strlit("Short");
    reveal_strlit("Int");
    reveal_strlit("Long");
    reveal_strlit("Float");
    reveal_strlit("Double");
    reveal_strlit("Boolean");
    reveal_strlit("String");
    reveal_strlit("kotlin.Byte");
    reveal_strlit("kotlin.UByte");
    reveal_strlit("kotlin.Short");
    reveal_strlit("kotlin.UShort");
    reveal_strlit("kotlin.Int");
    reveal_strlit("kotlin.UInt");
    reveal_strlit("kotlin.Long");
    reveal_strlit("kotlin.ULong");
    reveal_strlit("kotlin.Float");
    reveal_strlit("kotlin.Double");
    reveal_strlit("kotlin.Boolean");
    reveal_strlit("kotlin.String");
    let k = "kotlin."@ + (if int_type_width(ty) matches Some((_, false)) {
        seq!['U']
    } else {
        Seq::<char>::empty()
    }) + ffi_type_kt(primitive_ffi_type(ty).unwrap());
    match ty {
        Type::Int8 => assert(k =~= "kotlin.Byte"@),
        Type::UInt8 => assert(k =~= "kotlin.UByte"@),
        Type::Int16 => assert(k =~= "kotlin.Short"@),
        Type::UInt16 => assert(k =~= "kotlin.UShort"@),
        Type::Int32 => assert(k =~= "kotlin.Int"@),
        Type::UInt32 => assert(k =~= "kotlin.UInt"@),
        Type::Int64 => assert(k =~= "kotlin.Long"@),
        Type::UInt64 => assert(k =~= "kotlin.ULong"@),
        Type::Float32 => assert(k =~= "kotlin.Float"@),
        Type::Float64 => assert(k =~= "kotlin.Double"@),
        Type::Boolean => assert(k =~= "kotlin.Boolean"@),
        Type::String => assert(k =~= "kotlin.String"@),
        _ => {},
    }
}

/// The suffix that names a primitive type in Rust function names.
pub open spec fn primitive_rs_suffix_of(ty: Type) -> Option<Seq<char>> {
    match ty {
        Type::UInt8 => Some("u8"@),
        Type::Int8 => Some("i8"@),
        Type::UInt16 => Some("u16"@),
        Type::Int16 => Some("i16"@),
        Type::UInt32 => Some("u32"@),
        Type::Int32 => Some("i32"@),
        Type::UInt64 => Some("u64"@),
        Type::Int64 => Some("i64"@),
        Type::Float32 => Some("f32"@),
        Type::Float64 => Some("f64"@),
        Type::Boolean => Some("bool"@),
        Type::String => Some("string"@),
        _ => None,
    }
}

/// The suffix that names a primitive type in Rust function names.
fn primitive_rs_suffix(ty: &Type) -> (r: Option<&'static str>)
    ensures
        match primitive_rs_suffix_of(*ty) {
            Some(s) => r matches Some(x) && x@ == s,
            None => r is None,
        },
{
    match ty {
        Type::UInt8 => Some("u8"),
        Type::Int8 => Some("i8"),
        Type::UInt16 => Some("u16"),
        Type::Int16 => Some("i16"),
        Type::UInt32 => Some("u32"),
        Type::Int32 => Some("i32"),
        Type::UInt64 => Some("u64"),
        Type::Int64 => Some("i64"),
        Type::Float32 => Some("f32"),
        Type::Float64 => Some("f64"),
        Type::Boolean => Some("bool"),
        Type::String => Some("string"),
        _ => None,
    }
}

/// The suffix that names a builtin type in generated Rust function names.
pub open spec fn named_rs_suffix_of(ty: Type) -> Option<Seq<char>> {
    match ty {
        Type::UInt8 => Some("u8"@),
        Type::Int8 => Some("i8"@),
        Type::UInt16 => Some("u16"@),
        Type::Int16 => Some("i16"@),
        Type::UInt32 => Some("u32"@),
        Type::Int32 => Some("i32"@),
        Type::UInt64 => Some("u64"@),
        Type::Int64 => Some("i64"@),
        Type::Float32 => Some("f32"@),
        Type::Float64 => Some("f64"@),
        Type::Boolean => Some("bool"@),
        Type::String => Some("string"@),
        Type::Bytes => Some("bytes"@),
        Type::Timestamp => Some("timestamp"@),
        Type::Duration => Some("duration"@),
        _ => None,
    }
}

/// The suffix that names a builtin type in generated Rust function names.
fn named_rs_suffix(ty: &Type) -> (r: Option<&'static str>)
    ensures
        match named_rs_suffix_of(*ty) {
            Some(s) => r matches Some(x) && x@ == s,
            None => r is None,
        },
{
    match ty {
        Type::UInt8 => Some("u8"),
        Type::Int8 => Some("i8"),
        Type::UInt16 => Some("u16"),
        Type::Int16 => Some("i16"),
        Type::UInt32 => Some("u32"),
        Type::Int32 => Some("i32"),
        Type::UInt64 => Some("u64"),
        Type::Int64 => Some("i64"),
        Type::Float32 => Some("f32"),
        Type::Float64 => Some("f64"),
        Type::Boolean => Some("bool"),
        Type::String => Some("string"),
        Type::Bytes => Some("bytes"),
        Type::Timestamp => Some("timestamp"),
        Type::Duration => Some("duration"),
        _ => None,
    }
}

/// The suffix that names a primitive type in the Kotlin buffer read/write functions.
pub open spec fn buffer_kt_suffix_of(ty: Type) -> Option<Seq<char>> {
    match ty {
        Type::UInt8 => Some("UByte"@),
        Type::Int8 => Some("Byte"@),
        Type::UInt16 => Some("UShort"@),
        Type::Int16 => Some("Short"@),
        Type::UInt32 => Some("UInt"@),
        Type::Int32 => Some("Int"@),
        Type::UInt64 => Some("ULong"@),
        Type::Int64 => Some("Long"@),
        Type::Float32 => Some("Float"@),
        Type::Float64 => Some("Double"@),
        Type::Boolean => Some("Bool"@),
        Type::String => Some("String"@),
        _ => None,
    }
}

/// The suffix that names a primitive type in the Kotlin buffer read/write functions.
fn buffer_kt_suffix(ty: &Type) -> (r: Option<&'static str>)
    ensures
        match buffer_kt_suffix_of(*ty) {
            Some(s) => r matches Some(x) && x@ == s,
            None => r is None,
        },
{
    match ty {
        Type::UInt8 => Some("UByte"),
        Type::Int8 => Some("Byte"),
        Type::UInt16 => Some("UShort"),
        Type::Int16 => Some("Short"),
        Type::UInt32 => Some("UInt"),
        Type::Int32 => Some("Int"),
        Type::UInt64 => Some("ULong"),
        Type::Int64 => Some("Long"),
        Type::Float32 => Some("Float"),
        Type::Float64 => Some("Double"),
        Type::Boolean => Some("Bool"),
        Type::String => Some("String"),
        _ => None,
    }
}

/// The suffix that names a primitive type in the Kotlin lift/lower functions.
pub open spec fn primitive_kt_suffix_of(ty: Type) -> Option<Seq<char>> {
    match ty {
        Type::UInt8 => Some("UByte"@),
        Type::Int8 => Some("Byte"@),
        Type::UInt16 => Some("UShort"@),
        Type::Int16 => Some("Short"@),
        Type::UInt32 => Some("UInt"@),
        Type::Int32 => Some("Int"@),
        Type::UInt64 => Some("ULong"@),
        Type::Int64 => Some("Long"@),
        Type::Float32 => Some("Float"@),
        Type::Float64 => Some("Double"@),
        Type::Boolean => Some("Boolean"@),
        Type::String => Some("String"@),
        _ => None,
    }
}

/// The suffix that names a primitive type in the Kotlin lift/lower functions.
fn primitive_kt_suffix(ty: &Type) -> (r: Option<&'static str>)
    ensures
        match primitive_kt_suffix_of(*ty) {
            Some(s) => r matches Some(x) && x@ == s,
            None => r is None,
        },
{
    match ty {
        Type::UInt8 => Some("UByte"),
        Type::Int8 => Some("Byte"),
        Type::UInt16 => Some("UShort"),
        Type::Int16 => Some("Short"),
        Type::UInt32 => Some("UInt"),
        Type::Int32 => Some("Int"),
        Type::UInt64 => Some("ULong"),
        Type::Int64 => Some("Long"),
        Type::Float32 => Some("Float"),
        Type::Float64 => Some("Double"),
        Type::Boolean => Some("Boolean"),
        Type::String => Some("String"),
        _ => None,
    }
}

/// The suffix that names a builtin type in generated Kotlin function names.
pub open spec fn named_kt_suffix_of(ty: Type) -> Option<Seq<char>> {
    match ty {
        Type::UInt8 => Some("UByte"@),
        Type::Int8 => Some("Byte"@),
        Type::UInt16 => Some("UShort"@),
        Type::Int16 => Some("Short"@),
        Type::UInt32 => Some("UInt"@),
        Type::Int32 => Some("Int"@),
        Type::UInt64 => Some("ULong"@),
        Type::Int64 => Some("Long"@),
        Type::Float32 => Some("Float"@),
        Type::Float64 => Some("Double"@),
        Type::Boolean => Some("Boolean"@),
        Type::String => Some("String"@),
        Type::Bytes => Some("Bytes"@),
        Type::Timestamp => Some("Timestamp"@),
        Type::Duration => Some("Duration"@),
        _ => None,
    }
}

/// The suffix that names a builtin type in generated Kotlin function names.
fn named_kt_suffix(ty: &Type) -> (r: Option<&'static str>)
    ensures
        match named_kt_suffix_of(*ty) {
            Some(s) => r matches Some(x) && x@ == s,
            None => r is None,
        },
{
    match ty {
        Type::UInt8 => Some("UByte"),
        Type::Int8 => Some("Byte"),
        Type::UInt16 => Some("UShort"),
        Type::Int16 => Some("Short"),
        Type::UInt32 => Some("UInt"),
        Type::Int32 => Some("Int"),
        Type::UInt64 => Some("ULong"),
        Type::Int64 => Some("Long"),
        Type::Float32 => Some("Float"),
        Type::Float64 => Some("Double"),
        Type::Boolean => Some("Boolean"),
        Type::String => Some("String"),
        Type::Bytes => Some("Bytes"),
        Type::Timestamp => Some("Timestamp"),
        Type::Duration => Some("Duration"),
        _ => None,
    }
}

/// The suffix of a primitive whose optional is lifted and lowered by a Rust helper.
pub open spec fn option_rs_suffix_of(ty: Type) -> Option<Seq<char>> {
    match ty {
        Type::UInt8 => Some("u8"@),
        Type::Int8 => Some("i8"@),
        Type::UInt16 => Some("u16"@),
        Type::Int16 => Some("i16"@),
        Type::UInt32 => Some("u32"@),
        Type::Int32 => Some("i32"@),
        Type::Float32 => Some("f32"@),
        Type::Float64 => Some("f64"@),
        Type::Boolean => Some("bool"@),
        Type::String => Some("string"@),
        _ => None,
    }
}

/// The suffix of a primitive whose optional is lifted and lowered by a Rust helper.
fn option_rs_suffix(ty: &Type) -> (r: Option<&'static str>)
    ensures
        match option_rs_suffix_of(*ty) {
            Some(s) => r matches Some(x) && x@ == s,
            None => r is None,
        },
{
    match ty {
        Type::UInt8 => Some("u8"),
        Type::Int8 => Some("i8"),
        Type::UInt16 => Some("u16"),
        Type::Int16 => Some("i16"),
        Type::UInt32 => Some("u32"),
        Type::Int32 => Some("i32"),
        Type::Float32 => Some("f32"),
        Type::Float64 => Some("f64"),
        Type::Boolean => Some("bool"),
        Type::String => Some("string"),
        _ => None,
    }
}

/// The suffix of a primitive whose optional is lifted and lowered by a Kotlin helper.
pub open spec fn option_kt_suffix_of(ty: Type) -> Option<Seq<char>> {
    match ty {
        Type::UInt8 => Some("UByte"@),
        Type::Int8 => Some("Byte"@),
        Type::UInt16 => Some("UShort"@),
        Type::Int16 => Some("Short"@),
        Type::UInt32 => Some("UInt"@),
        Type::Int32 => Some("Int"@),
        Type::Float32 => Some("Float"@),
        Type::Float64 => Some("Double"@),
        Type::Boolean => Some("Boolean"@),
        Type::String => Some("String"@),
        _ => None,
    }
}

/// The suffix of a primitive whose optional is lifted and lowered by a Kotlin helper.
fn option_kt_suffix(ty: &Type) -> (r: Option<&'static str>)
    ensures
        match option_kt_suffix_of(*ty) {
            Some(s) => r matches Some(x) && x@ == s,
            None => r is None,
        },
{
    match ty {
        Type::UInt8 => Some("UByte"),
        Type::Int8 => Some("Byte"),
        Type::UInt16 => Some("UShort"),
        Type::Int16 => Some("Short"),
        Type::UInt32 => Some("UInt"),
        Type::Int32 => Some("Int"),
        Type::Float32 => Some("Float"),
        Type::Float64 => Some("Double"),
        Type::Boolean => Some("Boolean"),
        Type::String => Some("String"),
        _ => None,
    }
}

/// A generated Rust function name: `uniffi_{prefix}_{type}`, where compound types are named by
/// their node's id.
pub open spec fn fn_name_rs_of(node: TypeNode, prefix: Seq<char>) -> Seq<char> {
    generated_fn_rs(node, snake_case(prefix))
}

/// A generated Rust function name whose prefix `word` is already in snake case.
pub open spec fn generated_fn_rs(node: TypeNode, word: Seq<char>) -> Seq<char> {
    match named_rs_suffix_of(node.ty) {
        Some(x) => "uniffi_"@ + word + "_"@ + x,
        None => "uniffi_"@ + word + "_type_"@ + decimal(node.id as nat),
    }
}

/// A generated Kotlin function name: `{prefix}{Type}`, where compound types are named by their
/// node's id.
pub open spec fn fn_name_kt_of(node: TypeNode, prefix: Seq<char>) -> Seq<char> {
    generated_fn_kt(node, lower_camel_case(prefix))
}

/// A generated Kotlin function name whose prefix `word` is already in lower camel case.
pub open spec fn generated_fn_kt(node: TypeNode, word: Seq<char>) -> Seq<char> {
    match named_kt_suffix_of(node.ty) {
        Some(x) => word + x,
        None => word + "Type"@ + decimal(node.id as nat),
    }
}

/// The Rust function that reads (`verb` "read") or writes a type from an FFI buffer.
pub open spec fn buffer_fn_rs_of(node: TypeNode, verb: Seq<char>) -> Seq<char> {
    match primitive_rs_suffix_of(node.ty) {
        Some(x) => "uniffi::FfiBufferCursor::"@ + verb + "_"@ + x,
        None => fn_name_rs_of(node, verb),
    }
}

/// The Rust function that lifts (`verb` "lift") or lowers a type to or from its FFI values.
pub open spec fn conversion_fn_rs_of(node: TypeNode, verb: Seq<char>) -> Seq<char> {
    match primitive_rs_suffix_of(node.ty) {
        Some(x) => "uniffi_jni::"@ + verb + "_"@ + x,
        None => match node.ty {
            Type::Optional { inner_type } => match option_rs_suffix_of(*inner_type) {
                Some(x) => "uniffi_jni::"@ + verb + "_option_"@ + x,
                None => fn_name_rs_of(node, verb),
            },
            _ => fn_name_rs_of(node, verb),
        },
    }
}

/// `conversion_fn_rs_of` for a verb that is one lowercase word, which heck's snake case leaves
/// as it is.
pub open spec fn conversion_fn_rs_word(node: TypeNode, verb: Seq<char>) -> Seq<char> {
    match primitive_rs_suffix_of(node.ty) {
        Some(x) => "uniffi_jni::"@ + verb + "_"@ + x,
        None => match node.ty {
            Type::Optional { inner_type } => match option_rs_suffix_of(*inner_type) {
                Some(x) => "uniffi_jni::"@ + verb + "_option_"@ + x,
                None => generated_fn_rs(node, verb),
            },
            _ => generated_fn_rs(node, verb),
        },
    }
}

/// The Kotlin function that reads (`verb` "read") or writes a type from an FFI buffer.
pub open spec fn buffer_fn_kt_of(node: TypeNode, verb: Seq<char>) -> Seq<char> {
    match buffer_kt_suffix_of(node.ty) {
        Some(x) => verb + x,
        None => fn_name_kt_of(node, verb),
    }
}

/// The Kotlin function that lifts (`verb` "lift") or lowers a type to or from its FFI values.
pub open spec fn conversion_fn_kt_of(node: TypeNode, verb: Seq<char>) -> Seq<char> {
    match primitive_kt_suffix_of(node.ty) {
        Some(x) => verb + x,
        None => match node.ty {
            Type::Optional { inner_type } => match option_kt_suffix_of(*inner_type) {
                Some(x) => verb + "Option"@ + x,
                None => fn_name_kt_of(node, verb),
            },
            _ => fn_name_kt_of(node, verb),
        },
    }
}

/// `conversion_fn_kt_of` for a verb that is one lowercase word, which heck's lower camel case
/// leaves as it is.
pub open spec fn conversion_fn_kt_word(node: TypeNode, verb: Seq<char>) -> Seq<char> {
    match primitive_kt_suffix_of(node.ty) {
        Some(x) => verb + x,
        None => match node.ty {
            Type::Optional { inner_type } => match option_kt_suffix_of(*inner_type) {
                Some(x) => verb + "Option"@ + x,
                None => generated_fn_kt(node, verb),
            },
            _ => generated_fn_kt(node, verb),
        },
    }
}

/// Whether the word `w` occurs in `s` at position `k`.
pub open spec fn occurs_at(s: Seq<char>, w: Seq<char>, k: int) -> bool {
    0 <= k && k + w.len() <= s.len() && s.subrange(k, k + w.len()) == w
}

/// Whether `t` is `s` with the first occurrence of `from` replaced by `to`.
pub open spec fn first_occurrence_replaced(s: Seq<char>, t: Seq<char>, from: Seq<char>, to: Seq<char>) -> bool {
    exists|k: int|
        #[trigger] occurs_at(s, from, k) && (forall|i: int| 0 <= i < k ==> !occurs_at(s, from, i))
            && t == s.subrange(0, k) + to + s.subrange(k + from.len(), s.len() as int)
}

/// A word put after a prefix that does not hold its first letter occurs first right after the
/// prefix.
proof fn lemma_first_occurrence(a: Seq<char>, from: Seq<char>, to: Seq<char>, rest: Seq<char>)
    requires
        from.len() > 0,
        forall|i: int| 0 <= i < a.len() ==> a[i] != from[0],
    ensures
        first_occurrence_replaced(a + from + rest, a + to + rest, from, to),
{
    let s = a + from + rest;
    let k = a.len() as int;
    assert(s.subrange(k, k + from.len()) =~= from);
    assert forall|i: int| 0 <= i < k implies !occurs_at(s, from, i) by {
        if occurs_at(s, from, i) {
            assert(s.subrange(i, i + from.len())[0] == s[i]);
            assert(s[i] == a[i]);
        }
    }
    assert(s.subrange(0, k) =~= a);
    assert(s.subrange(k + from.len(), s.len() as int) =~= rest);
    assert(occurs_at(s, from, k));
}

/// The parts of a Rust lift or lower function name around its verb: `uniffi_jni::` for the
/// functions of the `uniffi_jni` crate, `uniffi_` for generated ones.
pub open spec fn conversion_rs_parts(node: TypeNode) -> (Seq<char>, Seq<char>) {
    let generated_rest = match named_rs_suffix_of(node.ty) {
        Some(x) => "_"@ + x,
        None => "_type_"@ + decimal(node.id as nat),
    };
    match primitive_rs_suffix_of(node.ty) {
        Some(x) => ("uniffi_jni::"@, "_"@ + x),
        None => match node.ty {
            Type::Optional { inner_type } => match option_rs_suffix_of(*inner_type) {
                Some(x) => ("uniffi_jni::"@, "_option_"@ + x),
                None => ("uniffi_"@, generated_rest),
            },
            _ => ("uniffi_"@, generated_rest),
        },
    }
}

proof fn lemma_conversion_rs_parts(node: TypeNode, verb: Seq<char>)
    ensures
        conversion_fn_rs_word(node, verb) == conversion_rs_parts(node).0 + verb + conversion_rs_parts(
            node,
        ).1,
{
    let p = conversion_rs_parts(node);
    assert(conversion_fn_rs_word(node, verb) =~= p.0 + verb + p.1);
}

/// The part of a Kotlin lift or lower function name after its verb.
pub open spec fn conversion_kt_rest(node: TypeNode) -> Seq<char> {
    let generated_rest = match named_kt_suffix_of(node.ty) {
        Some(x) => x,
        None => "Type"@ + decimal(node.id as nat),
    };
    match primitive_kt_suffix_of(node.ty) {
        Some(x) => x,
        None => match node.ty {
            Type::Optional { inner_type } => match option_kt_suffix_of(*inner_type) {
                Some(x) => "Option"@ + x,
                None => generated_rest,
            },
            _ => generated_rest,
        },
    }
}

/// Every Rust lower function has its lift counterpart: `lift_fn_rs` is `lower_fn_rs` with its
/// first "lower" replaced by "lift" (`uniffi_jni::lower_option_u8` and
/// `uniffi_jni::lift_option_u8`, `uniffi_lower_type_7` and `uniffi_lift_type_7`).
pub proof fn law_lift_fn_rs_mirrors_lower(node: TypeNode)
    ensures
        first_occurrence_replaced(
            conversion_fn_rs_word(node, "lower"@),
            conversion_fn_rs_word(node, "lift"@),
            "lower"@,
            "lift"@,
        ),
{
    reveal_strlit("lower");
    reveal_strlit("lift");
    reveal_strlit("uniffi_jni::");
    reveal_strlit("uniffi_");
    lemma_conversion_rs_parts(node, "lower"@);
    lemma_conversion_rs_parts(node, "lift"@);
    let p = conversion_rs_parts(node);
    assert(forall|i: int| 0 <= i < p.0.len() ==> p.0[i] != 'l');
    lemma_first_occurrence(p.0, "lower"@, "lift"@, p.1);
}

/// Every Kotlin lower function has its lift counterpart: `lift_fn_kt` is `lower_fn_kt` with
/// its first "lower" replaced by "lift" (`lowerOptionUByte` and `liftOptionUByte`,
/// `lowerType7` and `liftType7`).
pub proof fn law_lift_fn_kt_mirrors_lower(node: TypeNode)
    ensures
        conversion_fn_kt_word(node, "lower"@) == "lower"@ + conversion_kt_rest(node),
        conversion_fn_kt_word(node, "lift"@) == "lift"@ + conversion_kt_rest(node),
        first_occurrence_replaced(
            conversion_fn_kt_word(node, "lower"@),
            conversion_fn_kt_word(node, "lift"@),
            "lower"@,
            "lift"@,
        ),
{
    reveal_strlit("lower");
    reveal_strlit("lift");
    assert(conversion_fn_kt_word(node, "lower"@) =~= "lower"@ + conversion_kt_rest(node));
    assert(conversion_fn_kt_word(node, "lift"@) =~= "lift"@ + conversion_kt_rest(node));
    let e = Seq::<char>::empty();
    assert(e + "lower"@ + conversion_kt_rest(node) =~= "lower"@ + conversion_kt_rest(node));
    assert(e + "lift"@ + conversion_kt_rest(node) =~= "lift"@ + conversion_kt_rest(node));
    lemma_first_occurrence(e, "lower"@, "lift"@, conversion_kt_rest(node));
}

/// The Rust lower function is one of the `uniffi_jni` crate's exactly when the type is passed
/// as a single primitive FFI value; for any other type it is a generated `uniffi_lower_`
/// function.
pub proof fn law_lower_fn_rs_prefix(node: TypeNode)
    ensures
        "uniffi_jni::lower_"@.is_prefix_of(conversion_fn_rs_word(node, "lower"@))
            <==> primitive_ffi_type(node.ty) is Some,
        primitive_ffi_type(node.ty) is None ==> "uniffi_lower_"@.is_prefix_of(
            conversion_fn_rs_word(node, "lower"@),
        ),
{
    reveal_strlit("lower");
    reveal_strlit("uniffi_jni::");
    reveal_strlit("uniffi_");
    reveal_strlit("uniffi_jni::lower_");
    reveal_strlit("uniffi_lower_");
    reveal_strlit("_");
    reveal_strlit("_option_");
    reveal_strlit("_type_");
    lemma_conversion_rs_parts(node, "lower"@);
    let p = conversion_rs_parts(node);
    let s = conversion_fn_rs_word(node, "lower"@);
    if primitive_ffi_type(node.ty) is Some {
        assert(p.0 == "uniffi_jni::"@);
        assert(p.1[0] == '_');
        assert(s.subrange(0, 18) =~= "uniffi_jni::lower_"@);
    } else {
        assert(p.0 == "uniffi_"@);
        assert(p.1[0] == '_');
        assert(s.subrange(0, 13) =~= "uniffi_lower_"@);
        assert(s[7] == 'l');
        if s.len() >= 18 {
            assert(s.subrange(0, 18)[7] == 'l');
        }
    }
}

/// The JNI signatures of a sequence of FFI types, one after the other.
pub open spec fn jni_signatures(ts: Seq<FfiType>) -> Seq<char>
    decreases ts.len(),
{
    if ts.len() == 0 {
        seq![]
    } else {
        jni_signatures(ts.drop_last()) + ffi_jni_signature(ts.last())
    }
}

/// Every occurrence of `c` in `s` replaced by `to`.
pub open spec fn replace_char(s: Seq<char>, c: char, to: Seq<char>) -> Seq<char>
    decreases s.len(),
{
    if s.len() == 0 {
        seq![]
    } else {
        replace_char(s.drop_last(), c, to) + if s.last() == c {
            to
        } else {
            seq![s.last()]
        }
    }
}

/// std's `str::replace`, with a `char` pattern: every occurrence of `c` in `s` is replaced by
/// `to`.
#[verifier::external_body]
pub(crate) fn replace_char_in(s: &str, c: char, to: &str) -> (r: String)
    ensures
        r@ == replace_char(s@, c, to@),
{
    s.replace(c, to)
}

/// The JNI signature of the arguments of the Kotlin lift function of a type.
pub open spec fn lift_fn_args_of(node: TypeNode) -> Seq<char> {
    match node.lowerable {
        None => "J"@,
        Some(LowerableType::Deconstructable(ts)) => jni_signatures(ts@),
        Some(LowerableType::Primitive(t)) => ffi_jni_signature(t),
    }
}

/// The JNI signature of the Kotlin lift function of a type: it takes the type's FFI values
/// (or a buffer pointer) and returns the Kotlin object.
pub open spec fn lift_fn_jni_signature_of(node: TypeNode) -> Seq<char> {
    "("@ + lift_fn_args_of(node) + ")"@ + "L"@ + replace_char(replace_char(node.type_kt@, '.', "/"@), '`', seq![])
        + ";"@
}

impl TypeNode {
    /// Rust function that reads this type from an FFI buffer
    pub fn read_fn_rs(&self) -> (s: String)
        ensures
            s@ == buffer_fn_rs_of(*self, "read"@),
    {
        proof {
            reveal_strlit("read");
        }
        self.buffer_fn_rs("read")
    }

    /// Rust function that writes this type to an FFI buffer
    pub fn write_fn_rs(&self) -> (s: String)
        ensures
            s@ == buffer_fn_rs_of(*self, "write"@),
    {
        proof {
            reveal_strlit("write");
        }
        self.buffer_fn_rs("write")
    }

    /// Function to lower this type
    ///
    /// For primitive types, this converts this type into a single FfiType.
    /// For deconstructable types, this converts this type into a multiple FfiTypes.
    /// Otherwise, this function is not defined
    pub fn lower_fn_rs(&self) -> (s: String)
        ensures
            s@ == conversion_fn_rs_of(*self, "lower"@),
            s@ == conversion_fn_rs_word(*self, "lower"@),
    {
        proof {
            reveal_strlit("lower");
            assert(is_lowercase_word("lower"@));
        }
        self.conversion_fn_rs("lower")
    }

    /// Function to lift this type
    ///
    /// For primitive types, this converts a single FfiType into this type.
    /// For deconstructable types, this converts multiple FfiTypes into this type.
    /// Otherwise, this function is not defined
    pub fn lift_fn_rs(&self) -> (s: String)
        ensures
            s@ == conversion_fn_rs_of(*self, "lift"@),
            s@ == conversion_fn_rs_word(*self, "lift"@),
    {
        proof {
            reveal_strlit("lift");
            assert(is_lowercase_word("lift"@));
        }
        self.conversion_fn_rs("lift")
    }

    /// Kotlin function that reads this type from an FFI buffer
    pub fn read_fn_kt(&self) -> (s: String)
        ensures
            s@ == buffer_fn_kt_of(*self, "read"@),
    {
        proof {
            reveal_strlit("read");
        }
        self.buffer_fn_kt("read")
    }

    /// Kotlin function that writes this type to an FFI buffer
    pub fn write_fn_kt(&self) -> (s: String)
        ensures
            s@ == buffer_fn_kt_of(*self, "write"@),
    {
        proof {
            reveal_strlit("write");
        }
        self.buffer_fn_kt("write")
    }

    /// Kotlin function to lower this type
    pub fn lower_fn_kt(&self) -> (s: String)
        ensures
            s@ == conversion_fn_kt_of(*self, "lower"@),
            s@ == conversion_fn_kt_word(*self, "lower"@),
    {
        proof {
            reveal_strlit("lower");
            assert(is_lowercase_word("lower"@));
        }
        self.conversion_fn_kt("lower")
    }

    /// Kotlin function to lift this type
    pub fn lift_fn_kt(&self) -> (s: String)
        ensures
            s@ == conversion_fn_kt_of(*self, "lift"@),
            s@ == conversion_fn_kt_word(*self, "lift"@),
    {
        proof {
            reveal_strlit("lift");
            assert(is_lowercase_word("lift"@));
        }
        self.conversion_fn_kt("lift")
    }

    fn buffer_fn_rs(&self, verb: &str) -> (s: String)
        ensures
            s@ == buffer_fn_rs_of(*self, verb@),
    {
        match primitive_rs_suffix(&self.ty) {
            Some(x) => {
                let mut s = concat3("uniffi::FfiBufferCursor::", verb, "_");
                s.append(x);
                s
            },
            None => self.fn_name_rs(verb),
        }
    }

    fn conversion_fn_rs(&self, verb: &str) -> (s: String)
        ensures
            s@ == conversion_fn_rs_of(*self, verb@),
            is_lowercase_word(verb@) ==> s@ == conversion_fn_rs_word(*self, verb@),
    {
        if let Some(x) = primitive_rs_suffix(&self.ty) {
            let mut s = concat3("uniffi_jni::", verb, "_");
            s.append(x);
            return s;
        }
        if let Type::Optional { inner_type } = &self.ty {
            if let Some(x) = option_rs_suffix(inner_type) {
                let mut s = concat3("uniffi_jni::", verb, "_option_");
                s.append(x);
                return s;
            }
        }
        self.fn_name_rs(verb)
    }

    fn buffer_fn_kt(&self, verb: &str) -> (s: String)
        ensures
            s@ == buffer_fn_kt_of(*self, verb@),
    {
        match buffer_kt_suffix(&self.ty) {
            Some(x) => {
                let mut s = String::from_str(verb);
                s.append(x);
                s
            },
            None => self.fn_name_kt(verb),
        }
    }

    fn conversion_fn_kt(&self, verb: &str) -> (s: String)
        ensures
            s@ == conversion_fn_kt_of(*self, verb@),
            is_lowercase_word(verb@) ==> s@ == conversion_fn_kt_word(*self, verb@),
    {
        if let Some(x) = primitive_kt_suffix(&self.ty) {
            let mut s = String::from_str(verb);
            s.append(x);
            return s;
        }
        if let Type::Optional { inner_type } = &self.ty {
            if let Some(x) = option_kt_suffix(inner_type) {
                let mut s = concat3(verb, "Option", x);
                return s;
            }
        }
        self.fn_name_kt(verb)
    }

    /// Generate a standard Rust function name
    pub fn fn_name_rs(&self, prefix: &str) -> (s: String)
        ensures
            s@ == fn_name_rs_of(*self, prefix@),
            is_lowercase_word(prefix@) ==> s@ == generated_fn_rs(*self, prefix@),
    {
        let prefix = to_snake_case(prefix);
        let mut s = String::from_str("uniffi_");
        s.append(prefix.as_str());
        match named_rs_suffix(&self.ty) {
            Some(x) => {
                s.append("_");
                s.append(x);
            },
            None => {
                s.append("_type_");
                push_decimal(&mut s, self.id as u64);
            },
        }
        s
    }

    /// Generate a standard Kotlin function name
    pub fn fn_name_kt(&self, prefix: &str) -> (s: String)
        ensures
            s@ == fn_name_kt_of(*self, prefix@),
            is_lowercase_word(prefix@) ==> s@ == generated_fn_kt(*self, prefix@),
    {
        let mut s = to_lower_camel_case(prefix);
        match named_kt_suffix(&self.ty) {
            Some(x) => s.append(x),
            None => {
                s.append("Type");
                push_decimal(&mut s, self.id as u64);
            },
        }
        s
    }

    /// Kotlin type that the deconstruct function returns in Kotlin
    ///
    /// This is a tuple-like class, where all fields are named `v{index}`
    pub fn deconstructed_type_kt(&self) -> (s: String)
        ensures
            s@ == "DeconstructedType"@ + decimal(self.id as nat),
    {
        let mut s = String::from_str("DeconstructedType");
        push_decimal(&mut s, self.id as u64);
        s
    }

    pub fn throw_error_fn_rs(&self) -> (s: String)
        ensures
            s@ == "uniffi_throw_error_"@ + decimal(self.id as nat),
    {
        let mut s = String::from_str("uniffi_throw_error_");
        push_decimal(&mut s, self.id as u64);
        s
    }

    pub fn construct_fn_kt(&self) -> (s: String)
        ensures
            s@ == "construct"@ + decimal(self.id as nat),
    {
        let mut s = String::from_str("construct");
        push_decimal(&mut s, self.id as u64);
        s
    }

    /// Static Rust variable to call the Kotlin lift function from Rust
    pub fn lift_kt_from_rust_var(&self) -> (s: String)
        ensures
            s@ == "UNIFFI_CACHED_LIFT_KT_"@ + decimal(self.id as nat),
    {
        let mut s = String::from_str("UNIFFI_CACHED_LIFT_KT_");
        push_decimal(&mut s, self.id as u64);
        s
    }

    pub fn is_primitive(&self) -> (b: bool)
        ensures
            b == (self.lowerable matches Some(LowerableType::Primitive(_))),
    {
        match &self.lowerable {
            Some(LowerableType::Primitive(_)) => true,
            _ => false,
        }
    }

    pub fn uses_buffer(&self) -> (b: bool)
        ensures
            b == (self.lowerable is None),
    {
        self.lowerable.is_none()
    }

    pub fn lift_fn_jni_signature(&self) -> (s: String)
        ensures
            s@ == lift_fn_jni_signature_of(*self),
    {
        let mut s = String::from_str("(");
        match &self.lowerable {
            None => s.append("J"),
            Some(LowerableType::Deconstructable(ffi_types)) => append_jni_signatures(&mut s, ffi_types),
            Some(LowerableType::Primitive(ffi_type)) => s.append(ffi_type.jni_signature()),
        }
        assert(s@ == "("@ + lift_fn_args_of(*self));
        s.append(")");
        s.append("L");
        let slashed = replace_char_in(self.type_kt.as_str(), '.', "/");
        let name = replace_char_in(slashed.as_str(), '`', "");
        proof {
            reveal_strlit("");
            assert(""@ =~= seq![]);
        }
        s.append(name.as_str());
        s.append(";");
        s
    }
}

/// Appends the JNI signatures of FFI types, one after the other.
pub fn append_jni_signatures(s: &mut String, ffi_types: &Vec<FfiType>)
    ensures
        final(s)@ == old(s)@ + jni_signatures(ffi_types@),
{
    let mut i: usize = 0;
    while i < ffi_types.len()
        invariant
            i <= ffi_types@.len(),
            s@ == old(s)@ + jni_signatures(ffi_types@.subrange(0, i as int)),
        decreases ffi_types@.len() - i,
    {
        s.append(ffi_types[i].jni_signature());
        i = i + 1;
        proof {
            assert(ffi_types@.subrange(0, i as int).drop_last() =~= ffi_types@.subrange(0, i - 1));
        }
    }
    proof {
        assert(ffi_types@.subrange(0, i as int) =~= ffi_types@);
    }
}

} // verus!
