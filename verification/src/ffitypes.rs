//! The types of the interface, and the primitive types that JNI passes across the FFI.

use vstd::prelude::*;

verus! {

/// How an interface is implemented.
#[derive(Debug, Clone, Copy, PartialEq, Eq, Hash, Structural)]
pub enum ObjectImpl {
    /// A Rust struct.
    Struct,
    /// A Rust trait, implemented in Rust.
    Trait,
    /// A Rust trait, that the foreign code can implement too.
    CallbackTrait,
}

impl ObjectImpl {
    /// Whether the interface is a trait.
    pub fn is_trait_interface(&self) -> (b: bool)
        ensures
            b == !(*self is Struct),
    {
        match self {
            ObjectImpl::Struct => false,
            _ => true,
        }
    }

    /// Whether the foreign code can implement the interface.
    pub fn has_callback_interface(&self) -> (b: bool)
        ensures
            b == (*self is CallbackTrait),
    {
        match self {
            ObjectImpl::CallbackTrait => true,
            _ => false,
        }
    }
}

/// A type of the interface.
#[derive(Debug, PartialEq, Eq, Hash)]
pub enum Type {
    UInt8,
    Int8,
    UInt16,
    Int16,
    UInt32,
    Int32,
    UInt64,
    Int64,
    Float32,
    Float64,
    Boolean,
    String,
    Bytes,
    Timestamp,
    Duration,
    Optional { inner_type: Box<Type> },
    Sequence { inner_type: Box<Type> },
    Dictionary { key_type: Box<Type>, value_type: Box<Type> },
    Record { namespace: String, name: String, orig_name: String },
    Enum { namespace: String, name: String, orig_name: String },
    Interface { namespace: String, name: String, orig_name: String, imp: ObjectImpl },
    CallbackInterface { namespace: String, name: String, orig_name: String },
    Custom { namespace: String, name: String, orig_name: String },
    Box { inner_type: Box<Type> },
}

/// A copy of a type.
pub fn copy_type(ty: &Type) -> (r: Type)
    ensures
        r == *ty,
    decreases ty,
{
    match ty {
        Type::UInt8 => Type::UInt8,
        Type::Int8 => Type::Int8,
        Type::UInt16 => Type::UInt16,
        Type::Int16 => Type::Int16,
        Type::UInt32 => Type::UInt32,
        Type::Int32 => Type::Int32,
        Type::UInt64 => Type::UInt64,
        Type::Int64 => Type::Int64,
        Type::Float32 => Type::Float32,
        Type::Float64 => Type::Float64,
        Type::Boolean => Type::Boolean,
        Type::String => Type::String,
        Type::Bytes => Type::Bytes,
        Type::Timestamp => Type::Timestamp,
        Type::Duration => Type::Duration,
        Type::Optional { inner_type } => Type::Optional {
            inner_type: Box::new(copy_type(inner_type)),
        },
        Type::Sequence { inner_type } => Type::Sequence {
            inner_type: Box::new(copy_type(inner_type)),
        },
        Type::Dictionary { key_type, value_type } => Type::Dictionary {
            key_type: Box::new(copy_type(key_type)),
            value_type: Box::new(copy_type(value_type)),
        },
        Type::Record { namespace, name, orig_name } => Type::Record {
            namespace: namespace.clone(),
            name: name.clone(),
            orig_name: orig_name.clone(),
        },
        Type::Enum { namespace, name, orig_name } => Type::Enum {
            namespace: namespace.clone(),
            name: name.clone(),
            orig_name: orig_name.clone(),
        },
        Type::Interface { namespace, name, orig_name, imp } => Type::Interface {
            namespace: namespace.clone(),
            name: name.clone(),
            orig_name: orig_name.clone(),
            imp: *imp,
        },
        Type::CallbackInterface { namespace, name, orig_name } => Type::CallbackInterface {
            namespace: namespace.clone(),
            name: name.clone(),
            orig_name: orig_name.clone(),
        },
        Type::Custom { namespace, name, orig_name } => Type::Custom {
            namespace: namespace.clone(),
            name: name.clone(),
            orig_name: orig_name.clone(),
        },
        Type::Box { inner_type } => Type::Box { inner_type: Box::new(copy_type(inner_type)) },
    }
}

impl Clone for Type {
    fn clone(&self) -> (r: Self)
        ensures
            r == *self,
    {
        copy_type(self)
    }
}

/// The name of a user-defined type, if it is one.
pub open spec fn user_type_name(ty: Type) -> Option<Seq<char>> {
    match ty {
        Type::Record { name, .. } => Some(name@),
        Type::Enum { name, .. } => Some(name@),
        Type::Interface { name, .. } => Some(name@),
        Type::CallbackInterface { name, .. } => Some(name@),
        Type::Custom { name, .. } => Some(name@),
        _ => None,
    }
}

impl Type {
    /// The name of a user-defined type.
    pub fn name(&self) -> (r: Option<&str>)
        ensures
            match user_type_name(*self) {
                Some(n) => r matches Some(s) && s@ == n,
                None => r is None,
            },
    {
        match self {
            Type::Record { name, .. } => Some(name.as_str()),
            Type::Enum { name, .. } => Some(name.as_str()),
            Type::Interface { name, .. } => Some(name.as_str()),
            Type::CallbackInterface { name, .. } => Some(name.as_str()),
            Type::Custom { name, .. } => Some(name.as_str()),
            _ => None,
        }
    }
}

/// Type that's passed across the FFI using JNI
#[derive(Debug, Clone, Copy, PartialEq, Eq, Hash, Structural)]
pub enum FfiType {
    UInt8,
    Int8,
    UInt16,
    Int16,
    UInt32,
    Int32,
    UInt64,
    Int64,
    Float32,
    Float64,
    Boolean,
    String,
    NullableString,
}

/// The FFI type that a type is passed as, when it is a primitive.
///
/// Optional numbers and booleans are widened into a 64-bit value (an optional `f32` into a
/// 32-bit one), which leaves room to tell `None` apart; optional strings are nullable.
pub open spec fn primitive_ffi_type(ty: Type) -> Option<FfiType> {
    match ty {
        Type::Int8 => Some(FfiType::Int8),
        Type::Int16 => Some(FfiType::Int16),
        Type::Int32 => Some(FfiType::Int32),
        Type::Int64 => Some(FfiType::Int64),
        Type::UInt8 => Some(FfiType::UInt8),
        Type::UInt16 => Some(FfiType::UInt16),
        Type::UInt32 => Some(FfiType::UInt32),
        Type::UInt64 => Some(FfiType::UInt64),
        Type::Float32 => Some(FfiType::Float32),
        Type::Float64 => Some(FfiType::Float64),
        Type::Boolean => Some(FfiType::Boolean),
        Type::String => Some(FfiType::String),
        Type::Optional { inner_type } => match *inner_type {
            Type::UInt8 | Type::Int8 | Type::UInt16 | Type::Int16 | Type::UInt32 | Type::Int32
            | Type::Boolean | Type::Float64 => Some(FfiType::Int64),
            Type::Float32 => Some(FfiType::Int32),
            Type::String => Some(FfiType::NullableString),
            _ => None,
        },
        _ => None,
    }
}

/// The Kotlin type of an FFI value.  Unsigned types are passed as their signed versions, since
/// that's what JNI expects.
pub open spec fn ffi_type_kt(t: FfiType) -> Seq<char> {
    match t {
        FfiType::Int8 | FfiType::UInt8 => "Byte"@,
        FfiType::Int16 | FfiType::UInt16 => "Short"@,
        FfiType::Int32 | FfiType::UInt32 => "Int"@,
        FfiType::Int64 | FfiType::UInt64 => "Long"@,
        FfiType::Float32 => "Float"@,
        FfiType::Float64 => "Double"@,
        FfiType::Boolean => "Boolean"@,
        FfiType::String => "String"@,
        FfiType::NullableString => "String?"@,
    }
}

/// The Rust type of an FFI value.  JNI only works with signed types, and strings are `jstring`s.
pub open spec fn ffi_type_rs(t: FfiType) -> Seq<char> {
    match t {
        FfiType::Int8 | FfiType::UInt8 => "i8"@,
        FfiType::Int16 | FfiType::UInt16 => "i16"@,
        FfiType::Int32 | FfiType::UInt32 => "i32"@,
        FfiType::Int64 | FfiType::UInt64 => "i64"@,
        FfiType::Float32 => "f32"@,
        FfiType::Float64 => "f64"@,
        FfiType::Boolean => "bool"@,
        FfiType::String | FfiType::NullableString => "uniffi_jni::jstring"@,
    }
}

/// The Kotlin expression of an FFI type's default value.
pub open spec fn ffi_default_kt(t: FfiType) -> Seq<char> {
    match t {
        FfiType::Int8 | FfiType::UInt8 => "0.toByte()"@,
        FfiType::Int16 | FfiType::UInt16 => "0.toShort()"@,
        FfiType::Int32 | FfiType::UInt32 => "0"@,
        FfiType::Int64 | FfiType::UInt64 => "0L"@,
        FfiType::Float32 => "0.0f"@,
        FfiType::Float64 => "0.0"@,
        FfiType::Boolean => "false"@,
        FfiType::String => "\"\""@,
        FfiType::NullableString => "null"@,
    }
}

/// The JNI type signature of an FFI type.
pub open spec fn ffi_jni_signature(t: FfiType) -> Seq<char> {
    match t {
        FfiType::Int8 | FfiType::UInt8 => "B"@,
        FfiType::Int16 | FfiType::UInt16 => "S"@,
        FfiType::Int32 | FfiType::UInt32 => "I"@,
        FfiType::Int64 | FfiType::UInt64 => "J"@,
        FfiType::Float32 => "F"@,
        FfiType::Float64 => "D"@,
        FfiType::Boolean => "Z"@,
        FfiType::String | FfiType::NullableString => "Ljava/lang/String;"@,
    }
}

/// The field of a `jvalue` union that holds an FFI type.
pub open spec fn ffi_jvalue_field(t: FfiType) -> Seq<char> {
    match t {
        FfiType::Int8 | FfiType::UInt8 => "b"@,
        FfiType::Int16 | FfiType::UInt16 => "s"@,
        FfiType::Int32 | FfiType::UInt32 => "i"@,
        FfiType::Int64 | FfiType::UInt64 => "j"@,
        FfiType::Float32 => "f"@,
        FfiType::Float64 => "d"@,
        FfiType::Boolean => "z"@,
        FfiType::String | FfiType::NullableString => "l"@,
    }
}

/// The width in bits of an integer type of the interface, and whether it is signed.
pub open spec fn int_type_width(ty: Type) -> Option<(nat, bool)> {
    match ty {
        Type::Int8 => Some((8, true)),
        Type::UInt8 => Some((8, false)),
        Type::Int16 => Some((16, true)),
        Type::UInt16 => Some((16, false)),
        Type::Int32 => Some((32, true)),
        Type::UInt32 => Some((32, false)),
        Type::Int64 => Some((64, true)),
        Type::UInt64 => Some((64, false)),
        _ => None,
    }
}

/// The width in bits of an integer FFI type, and whether it is signed.
pub open spec fn int_ffi_width(t: FfiType) -> Option<(nat, bool)> {
    match t {
        FfiType::Int8 => Some((8, true)),
        FfiType::UInt8 => Some((8, false)),
        FfiType::Int16 => Some((16, true)),
        FfiType::UInt16 => Some((16, false)),
        FfiType::Int32 => Some((32, true)),
        FfiType::UInt32 => Some((32, false)),
        FfiType::Int64 => Some((64, true)),
        FfiType::UInt64 => Some((64, false)),
        _ => None,
    }
}

/// The width in bits of the JNI integer type that a signature letter stands for: `B` a byte,
/// `S` a short, `I` an int, `J` a long.
pub open spec fn jni_int_width(sig: Seq<char>) -> Option<nat> {
    if sig == seq!['B'] {
        Some(8)
    } else if sig == seq!['S'] {
        Some(16)
    } else if sig == seq!['I'] {
        Some(32)
    } else if sig == seq!['J'] {
        Some(64)
    } else {
        None
    }
}

/// Every integer of the interface is passed as a primitive FFI value of the same width and
/// signedness, whose JNI type has that width too (so an `i16` is a JNI short, `S`).
pub proof fn law_integers_keep_their_width(ty: Type)
    requires
        int_type_width(ty) is Some,
    ensures
        primitive_ffi_type(ty) matches Some(t) && int_ffi_width(t) == int_type_width(ty)
            && jni_int_width(ffi_jni_signature(t)) == Some(int_type_width(ty).unwrap().0),
{
    reveal_strlit("B");
    reveal_strlit("S");
    reveal_strlit("I");
    reveal_strlit("J");
    assert("B"@ =~= seq!['B']);
    assert("S"@ =~= seq!['S']);
    assert("I"@ =~= seq!['I']);
    assert("J"@ =~= seq!['J']);
    assert(seq!['S'] != seq!['B']) by {
        assert(seq!['S'][0] != seq!['B'][0]);
    }
    assert(seq!['I'] != seq!['B'] && seq!['I'] != seq!['S']) by {
        assert(seq!['I'][0] != seq!['B'][0]);
        assert(seq!['I'][0] != seq!['S'][0]);
    }
    assert(seq!['J'] != seq!['B'] && seq!['J'] != seq!['S'] && seq!['J'] != seq!['I']) by {
        assert(seq!['J'][0] != seq!['B'][0]);
        assert(seq!['J'][0] != seq!['S'][0]);
        assert(seq!['J'][0] != seq!['I'][0]);
    }
}

/// The other primitive types keep their kind: floats their width, booleans and strings stay
/// booleans and strings.
pub proof fn law_scalars_keep_their_kind()
    ensures
        primitive_ffi_type(Type::Float32) == Some(FfiType::Float32),
        primitive_ffi_type(Type::Float64) == Some(FfiType::Float64),
        primitive_ffi_type(Type::Boolean) == Some(FfiType::Boolean),
        primitive_ffi_type(Type::String) == Some(FfiType::String),
{
}

/// An optional primitive is passed as one wider value that leaves room to tell `None` apart:
/// an optional integer narrower than 64 bits, or an optional boolean or `f64`, as a 64-bit
/// integer; an optional `f32` as a 32-bit integer; an optional string as a nullable string.
/// A 64-bit integer has no room left, so its optional is not primitive, and neither is the
/// optional of a type that is not primitive itself.
pub proof fn law_optionals_are_widened(x: Type)
    ensures
        int_type_width(x) matches Some((w, _)) ==> primitive_ffi_type(
            Type::Optional { inner_type: Box::new(x) },
        ) == (if w < 64 {
            Some(FfiType::Int64)
        } else {
            None::<FfiType>
        }),
        (x is Boolean || x is Float64) ==> primitive_ffi_type(Type::Optional { inner_type: Box::new(x) })
            == Some(FfiType::Int64),
        x is Float32 ==> primitive_ffi_type(Type::Optional { inner_type: Box::new(x) }) == Some(
            FfiType::Int32,
        ),
        x is String ==> primitive_ffi_type(Type::Optional { inner_type: Box::new(x) }) == Some(
            FfiType::NullableString,
        ),
        primitive_ffi_type(x) is None ==> primitive_ffi_type(Type::Optional { inner_type: Box::new(x) })
            is None,
{
}

impl FfiType {
    /// Get the FfiType for a type -- if it's a primitive
    pub fn for_primitive(ty: &Type) -> (r: Option<FfiType>)
        ensures
            r == primitive_ffi_type(*ty),
    {
        match ty {
            Type::Int8 => Some(FfiType::Int8),
            Type::Int16 => Some(FfiType::Int16),
            Type::Int32 => Some(FfiType::Int32),
            Type::Int64 => Some(FfiType::Int64),
            Type::UInt8 => Some(FfiType::UInt8),
            Type::UInt16 => Some(FfiType::UInt16),
            Type::UInt32 => Some(FfiType::UInt32),
            Type::UInt64 => Some(FfiType::UInt64),
            Type::Float32 => Some(FfiType::Float32),
            Type::Float64 => Some(FfiType::Float64),
            Type::Boolean => Some(FfiType::Boolean),
            Type::String => Some(FfiType::String),
            Type::Optional { inner_type } => match &**inner_type {
                Type::UInt8 => Some(FfiType::Int64),
                Type::Int8 => Some(FfiType::Int64),
                Type::UInt16 => Some(FfiType::Int64),
                Type::Int16 => Some(FfiType::Int64),
                Type::UInt32 => Some(FfiType::Int64),
                Type::Int32 => Some(FfiType::Int64),
                Type::Boolean => Some(FfiType::Int64),
                Type::Float32 => Some(FfiType::Int32),
                Type::Float64 => Some(FfiType::Int64),
                Type::String => Some(FfiType::NullableString),
                _ => None,
            },
            _ => None,
        }
    }

    pub fn type_kt(&self) -> (s: String)
        ensures
            s@ == ffi_type_kt(*self),
    {
        let lit = match self {
            FfiType::Int8 => "Byte",
            FfiType::Int16 => "Short",
            FfiType::Int32 => "Int",
            FfiType::Int64 => "Long",
            // Unsigned types are always passed as their signed versions in Kotlin, since
            // that's what JNI expects
            FfiType::UInt8 => "Byte",
            FfiType::UInt16 => "Short",
            FfiType::UInt32 => "Int",
            FfiType::UInt64 => "Long",
            FfiType::Float32 => "Float",
            FfiType::Float64 => "Double",
            FfiType::Boolean => "Boolean",
            FfiType::String => "String",
            FfiType::NullableString => "String?",
        };
        String::from_str(lit)
    }

    pub fn type_rs(&self) -> (s: String)
        ensures
            s@ == ffi_type_rs(*self),
    {
        let lit = match self {
            FfiType::Int8 => "i8",
            FfiType::Int16 => "i16",
            FfiType::Int32 => "i32",
            FfiType::Int64 => "i64",
            // JNI only works with signed types
            FfiType::UInt8 => "i8",
            FfiType::UInt16 => "i16",
            FfiType::UInt32 => "i32",
            FfiType::UInt64 => "i64",
            FfiType::Float32 => "f32",
            FfiType::Float64 => "f64",
            FfiType::Boolean => "bool",
            // JNI uses the `jstring` type, we convert to `String` in the lift/lower functions.
            FfiType::String | FfiType::NullableString => "uniffi_jni::jstring",
        };
        String::from_str(lit)
    }

    pub fn default_kt(&self) -> (s: String)
        ensures
            s@ == ffi_default_kt(*self),
    {
        let lit = match self {
            FfiType::Int8 | FfiType::UInt8 => "0.toByte()",
            FfiType::Int16 | FfiType::UInt16 => "0.toShort()",
            FfiType::Int32 | FfiType::UInt32 => "0",
            FfiType::Int64 | FfiType::UInt64 => "0L",
            FfiType::Float32 => "0.0f",
            FfiType::Float64 => "0.0",
            FfiType::Boolean => "false",
            FfiType::String => "\"\"",
            FfiType::NullableString => "null",
        };
        String::from_str(lit)
    }

    pub fn jni_signature(&self) -> (s: &'static str)
        ensures
            s@ == ffi_jni_signature(*self),
    {
        match self {
            FfiType::UInt8 | FfiType::Int8 => "B",
            FfiType::UInt16 | FfiType::Int16 => "S",
            FfiType::UInt32 | FfiType::Int32 => "I",
            FfiType::UInt64 | FfiType::Int64 => "J",
            FfiType::Float32 => "F",
            FfiType::Float64 => "D",
            FfiType::Boolean => "Z",
            FfiType::String | FfiType::NullableString => "Ljava/lang/String;",
        }
    }

    pub fn jvalue_field(&self) -> (s: &'static str)
        ensures
            s@ == ffi_jvalue_field(*self),
    {
        match self {
            FfiType::UInt8 | FfiType::Int8 => "b",
            FfiType::UInt16 | FfiType::Int16 => "s",
            FfiType::UInt32 | FfiType::Int32 => "i",
            FfiType::UInt64 | FfiType::Int64 => "j",
            FfiType::Float32 => "f",
            FfiType::Float64 => "d",
            FfiType::Boolean => "z",
            FfiType::String | FfiType::NullableString => "l",
        }
    }
}

} // verus!
