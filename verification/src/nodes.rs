//! Nodes of the Kotlin JNI bindings: what the templates read to generate the scaffolding and
//! the bindings.

use vstd::prelude::*;
use crate::ffitypes::{FfiType, ObjectImpl, Type, copy_type};
use crate::names::{lower_camel_case, to_lower_camel_case, to_upper_camel_case, upper_camel_case};

verus! {

/// Type that can lowered and passed across the FFI
pub enum LowerableType {
    /// Primitive type can be lowered and passed directly using JNI
    Primitive(FfiType),
    /// High-level type can be deconstructed into multiple primitive types.
    Deconstructable(Vec<FfiType>),
}

/// A copy of a list of FFI types.
pub fn copy_ffi_types(v: &Vec<FfiType>) -> (r: Vec<FfiType>)
    ensures
        r@ == v@,
{
    let mut r: Vec<FfiType> = Vec::new();
    let mut i: usize = 0;
    while i < v.len()
        invariant
            i <= v@.len(),
            r@ == v@.subrange(0, i as int),
        decreases v@.len() - i,
    {
        r.push(v[i]);
        i = i + 1;
        proof {
            assert(r@ =~= v@.subrange(0, i as int));
        }
    }
    proof {
        assert(v@.subrange(0, i as int) =~= v@);
    }
    r
}

/// Whether two lowerable types say the same.
pub open spec fn lowerable_same(a: LowerableType, b: LowerableType) -> bool {
    match (a, b) {
        (LowerableType::Primitive(t), LowerableType::Primitive(u)) => t == u,
        (LowerableType::Deconstructable(v), LowerableType::Deconstructable(w)) => v@ == w@,
        _ => false,
    }
}

/// Whether two optional lowerable types say the same.
pub open spec fn opt_lowerable_same(a: Option<LowerableType>, b: Option<LowerableType>) -> bool {
    match (a, b) {
        (Some(x), Some(y)) => lowerable_same(x, y),
        (None, None) => true,
        _ => false,
    }
}

impl Clone for LowerableType {
    fn clone(&self) -> (r: Self)
        ensures
            lowerable_same(r, *self),
    {
        match self {
            LowerableType::Primitive(t) => LowerableType::Primitive(*t),
            LowerableType::Deconstructable(ts) => LowerableType::Deconstructable(copy_ffi_types(ts)),
        }
    }
}

/// The FFI types that a lowerable type is passed as.
pub open spec fn lowerable_ffi_types(l: LowerableType) -> Seq<FfiType> {
    match l {
        LowerableType::Primitive(t) => seq![t],
        LowerableType::Deconstructable(ts) => ts@,
    }
}

impl LowerableType {
    pub fn ffi_types(&self) -> (r: Vec<FfiType>)
        ensures
            r@ == lowerable_ffi_types(*self),
    {
        match self {
            LowerableType::Primitive(ffi_type) => {
                let mut v = Vec::new();
                v.push(*ffi_type);
                v
            },
            LowerableType::Deconstructable(ffi_types) => copy_ffi_types(ffi_types),
        }
    }

    pub fn is_deconstructable(&self) -> (b: bool)
        ensures
            b == (*self is Deconstructable),
    {
        match self {
            LowerableType::Deconstructable(_) => true,
            _ => false,
        }
    }
}

pub struct TypeNode {
    pub is_used_as_error: bool,
    pub has_from_unexpected_callback_error_impl: bool,
    pub ty: Type,
    pub type_kt: String,
    pub type_rs: String,
    /// Unique ID for this type node
    pub id: usize,
    /// Extra info for lowerable types
    pub lowerable: Option<LowerableType>,
}

/// Whether two type nodes say the same.
pub open spec fn type_node_same(a: TypeNode, b: TypeNode) -> bool {
    &&& a.is_used_as_error == b.is_used_as_error
    &&& a.has_from_unexpected_callback_error_impl == b.has_from_unexpected_callback_error_impl
    &&& a.ty == b.ty
    &&& a.type_kt == b.type_kt
    &&& a.type_rs == b.type_rs
    &&& a.id == b.id
    &&& opt_lowerable_same(a.lowerable, b.lowerable)
}

impl Clone for TypeNode {
    fn clone(&self) -> (r: Self)
        ensures
            type_node_same(r, *self),
    {
        TypeNode {
            is_used_as_error: self.is_used_as_error,
            has_from_unexpected_callback_error_impl: self.has_from_unexpected_callback_error_impl,
            ty: copy_type(&self.ty),
            type_kt: self.type_kt.clone(),
            type_rs: self.type_rs.clone(),
            id: self.id,
            lowerable: match &self.lowerable {
                Some(l) => Some(l.clone()),
                None => None,
            },
        }
    }
}

/// Argument on the JNI FFI function
pub struct FfiArgument {
    pub name: String,
    pub ty: FfiType,
}

impl Clone for FfiArgument {
    fn clone(&self) -> (r: Self)
        ensures
            r == *self,
    {
        FfiArgument { name: self.name.clone(), ty: self.ty }
    }
}

/// A name in backticks, so that Kotlin reads it as a name whatever it is.
pub open spec fn quoted(name: Seq<char>) -> Seq<char> {
    "`"@ + name + "`"@
}

pub fn quote_name(name: String) -> (s: String)
    ensures
        s@ == quoted(name@),
{
    let mut s = String::from_str("`");
    s.append(name.as_str());
    s.append("`");
    s
}

impl FfiArgument {
    pub fn name_kt(&self) -> (s: String)
        ensures
            s@ == quoted(lower_camel_case(self.name@)),
    {
        quote_name(to_lower_camel_case(self.name.as_str()))
    }
}

pub enum ArgStrategy {
    /// Argument passed via a FFI buffer
    FfiBuffer,
    /// Primitive type passed as a JNI argument
    Primitive(FfiArgument),
    /// Deconstructable type that's passed as multiple JNI arguments
    Deconstruct(Vec<FfiArgument>),
}

/// The base an integer literal is written in.
#[derive(Debug, Clone, Copy, PartialEq, Eq, Structural)]
pub enum Radix {
    Decimal,
    Octal,
    Hexadecimal,
}

/// A literal value written in the interface definition.
pub enum Literal {
    Boolean(bool),
    String(String),
    UInt(u64, Radix, TypeNode),
    Int(i64, Radix, TypeNode),
    Float(String, TypeNode),
    Enum(String, TypeNode),
    EmptySequence,
    EmptyMap,
    /// The absent value of an optional type.
    NoneValue,
    /// A present value of an optional type.
    SomeValue { inner: Box<DefaultValue> },
}

/// Default value for a field/argument
///
/// This sets the arg/field type in the case where the user just specified `default`.
pub enum DefaultValue {
    Literal(Literal),
    Default(TypeNode),
}

/// A literal, with the Kotlin expression that writes it.
pub struct LiteralNode {
    pub lit_kt: String,
    pub lit: Literal,
}

/// The default value of a field or an argument, with the Kotlin expression that writes it.
pub struct DefaultValueNode {
    pub default_kt: String,
    pub default: DefaultValue,
}

pub struct Argument {
    pub name: String,
    pub orig_name: String,
    pub ty: TypeNode,
    pub by_ref: bool,
    pub optional: bool,
    pub default: Option<DefaultValueNode>,
    pub strategy: ArgStrategy,
}

impl Argument {
    pub fn name_kt(&self) -> (s: String)
        ensures
            s@ == quoted(lower_camel_case(self.name@)),
    {
        quote_name(to_lower_camel_case(self.name.as_str()))
    }

    pub fn uses_buffer(&self) -> (b: bool)
        ensures
            b == (self.strategy is FfiBuffer),
    {
        match self.strategy {
            ArgStrategy::FfiBuffer => true,
            _ => false,
        }
    }

    /// Generate code to pass this argument to the Rust function
    ///
    /// This is the argument name, optionally prefixed with things like `&`/`*`.  `name_rs` is
    /// the argument's name as a Rust identifier (escaped where it is a Rust keyword).
    pub fn pass_to_rust_fn(&self, name_rs: &str) -> (s: String)
        ensures
            s@ == (if self.by_ref && (self.ty.ty matches Type::Interface { imp, .. } && !(imp is Struct)) {
                "&*"@ + name_rs@
            } else if self.by_ref {
                "&"@ + name_rs@
            } else {
                name_rs@
            }),
    {
        proof {
            reveal_strlit("&*");
            reveal_strlit("&");
        }
        let prefix = match (self.by_ref, &self.ty.ty) {
            // Interface refs: use `&*` to go from the `Arc<T>` to `&T`
            (true, Type::Interface { imp, .. }) if imp.is_trait_interface() => "&*",
            // All other refs just need `&`
            (true, _) => "&",
            _ => "",
        };
        proof {
            reveal_strlit("");
        }
        let mut s = String::from_str(prefix);
        s.append(name_rs);
        proof {
            assert(""@ + name_rs@ =~= name_rs@);
        }
        s
    }
}

pub enum CallableKind {
    Function,
    Method { self_type: TypeNode },
    Constructor { self_type: TypeNode, primary: bool },
    VTableMethod { self_type: TypeNode, for_callback_interface: bool },
}

impl CallableKind {
    pub fn is_vtable_method(&self) -> (b: bool)
        ensures
            b == (*self is VTableMethod),
    {
        match self {
            CallableKind::VTableMethod { .. } => true,
            _ => false,
        }
    }

    pub fn is_callback_method(&self) -> (b: bool)
        ensures
            b == (*self matches CallableKind::VTableMethod { for_callback_interface, .. }
                && for_callback_interface),
    {
        match self {
            CallableKind::VTableMethod { for_callback_interface: true, .. } => true,
            _ => false,
        }
    }
}

pub struct CallableResult {
    pub return_type: Option<TypeNode>,
    pub throws_type: Option<TypeNode>,
    /// Unique ID for this CallableResult
    pub id: usize,
}

pub struct Callable {
    pub kind: CallableKind,
    pub name: String,
    pub orig_name: String,
    pub is_async: bool,
    pub arguments: Vec<Argument>,
    pub result: CallableResult,
    pub fully_qualified_name_rs: String,
}

pub struct Method {
    pub jni_method_name: String,
    pub callable: Callable,
    pub docstring: Option<String>,
}

pub struct Constructor {
    pub jni_method_name: String,
    pub callable: Callable,
    pub docstring: Option<String>,
}

pub struct Function {
    pub jni_method_name: String,
    pub rust_module_path: String,
    pub docstring: Option<String>,
    pub callable: Callable,
}

#[derive(Clone, Copy)]
pub enum ScaffoldingFunctionKind {
    // Normal function
    Function,
    // Normal method
    Method,
    // Trait method (most of these require special-cased logic)
    TraitMethodDebugFmt,
    TraitMethodDisplayFmt,
    TraitMethodEqEq,
    TraitMethodEqNe,
    TraitMethodHashHash,
    TraitMethodOrdCmp,
}

pub enum KotlinEnumKind {
    EnumClass { discr_type: Option<String> },
    FlatError,
    SealedClass,
}

pub struct Field {
    pub name: String,
    pub orig_name: String,
    pub index: usize,
    pub ty: TypeNode,
    pub default: Option<DefaultValueNode>,
    pub docstring: Option<String>,
}

/// Field of a lowered type
///
/// This represents one of the FFI values that a high-level value is passed as.
#[derive(Clone, Copy)]
pub struct FfiField {
    pub index: usize,
    pub ty: FfiType,
}

pub enum DeconstructableFieldKind {
    // Primitive type
    Primitive(FfiField),
    // Type that we should recursively deconstruct
    Recursive(Vec<FfiField>),
}

/// Field of a deconstructable type
///
/// This represents the field of the high-level type, which gets mapped to multiple FFI fields.
pub struct DeconstructableField {
    pub name: String,
    pub orig_name: String,
    pub index: usize,
    pub ty: TypeNode,
    pub kind: DeconstructableFieldKind,
}

/// Record that can be deconstructed into primitive values
pub struct DeconstructableRecord {
    /// Fields of the high-level type with info on how to lift/lower them.
    pub source_fields: Vec<DeconstructableField>,
}

/// The name of a field in Kotlin: the field's name, or `v1`, `v2`, ... for tuple fields.
pub open spec fn field_name_kt(name: Seq<char>, index: nat) -> Seq<char> {
    if name.len() == 0 {
        "v"@ + crate::text::decimal(index + 1)
    } else {
        quoted(lower_camel_case(name))
    }
}

fn field_name(name: &String, index: usize) -> (s: String)
    requires
        name@.len() == 0 ==> index < usize::MAX,
    ensures
        s@ == field_name_kt(name@, index as nat),
{
    if name.unicode_len() == 0 {
        let mut s = String::from_str("v");
        crate::text::push_decimal(&mut s, (index + 1) as u64);
        s
    } else {
        quote_name(to_lower_camel_case(name.as_str()))
    }
}

impl Field {
    pub fn name_kt(&self) -> (s: String)
        requires
            self.name@.len() == 0 ==> self.index < usize::MAX,
        ensures
            s@ == field_name_kt(self.name@, self.index as nat),
    {
        field_name(&self.name, self.index)
    }
}

impl DeconstructableField {
    pub fn is_recursive(&self) -> (b: bool)
        ensures
            b == (self.kind is Recursive),
    {
        match &self.kind {
            DeconstructableFieldKind::Recursive(_) => true,
            _ => false,
        }
    }

    pub fn name_kt(&self) -> (s: String)
        requires
            self.name@.len() == 0 ==> self.index < usize::MAX,
        ensures
            s@ == field_name_kt(self.name@, self.index as nat),
    {
        field_name(&self.name, self.index)
    }
}

/// The FFI types that a record's fields are passed as, in order.
pub open spec fn source_field_ffi_types(fields: Seq<DeconstructableField>) -> Seq<FfiType>
    decreases fields.len(),
{
    if fields.len() == 0 {
        seq![]
    } else {
        let rest = source_field_ffi_types(fields.drop_last());
        match fields.last().kind {
            DeconstructableFieldKind::Primitive(f) => rest.push(f.ty),
            DeconstructableFieldKind::Recursive(fs) => rest + fs@.map_values(|f: FfiField| f.ty),
        }
    }
}

impl DeconstructableRecord {
    pub fn ffi_types(&self) -> (r: Vec<FfiType>)
        ensures
            r@ == source_field_ffi_types(self.source_fields@),
    {
        let mut ffi_types: Vec<FfiType> = Vec::new();
        let mut i: usize = 0;
        while i < self.source_fields.len()
            invariant
                i <= self.source_fields@.len(),
                ffi_types@ == source_field_ffi_types(self.source_fields@.subrange(0, i as int)),
            decreases self.source_fields@.len() - i,
        {
            proof {
                assert(self.source_fields@.subrange(0, i + 1).drop_last() =~= self.source_fields@.subrange(0, i as int));
            }
            match &self.source_fields[i].kind {
                DeconstructableFieldKind::Primitive(f) => ffi_types.push(f.ty),
                DeconstructableFieldKind::Recursive(fs) => {
                    let ghost start = ffi_types@;
                    let mut j: usize = 0;
                    while j < fs.len()
                        invariant
                            j <= fs@.len(),
                            ffi_types@ == start + fs@.subrange(0, j as int).map_values(|f: FfiField| f.ty),
                        decreases fs@.len() - j,
                    {
                        ffi_types.push(fs[j].ty);
                        j = j + 1;
                        proof {
                            assert(fs@.subrange(0, j as int).map_values(|f: FfiField| f.ty) =~= fs@.subrange(0, j - 1).map_values(|f: FfiField| f.ty).push(fs@[j - 1].ty));
                        }
                    }
                    proof {
                        assert(fs@.subrange(0, j as int) =~= fs@);
                    }
                },
            }
            i = i + 1;
        }
        proof {
            assert(self.source_fields@.subrange(0, i as int) =~= self.source_fields@);
        }
        ffi_types
    }
}

pub enum ReturnStrategy<'a> {
    FfiBuffer(&'a TypeNode),
    Primitive(&'a TypeNode, FfiType),
    Void,
}

impl<'a> ReturnStrategy<'a> {
    pub fn is_primitive(&self) -> (b: bool)
        ensures
            b == (*self is Primitive),
    {
        match self {
            ReturnStrategy::Primitive(_, _) => true,
            _ => false,
        }
    }

    pub fn is_ffi_buffer(&self) -> (b: bool)
        ensures
            b == (*self is FfiBuffer),
    {
        match self {
            ReturnStrategy::FfiBuffer(_) => true,
            _ => false,
        }
    }
}

/// How a callable's return value comes back: as a primitive value when its type is one,
/// through the FFI buffer otherwise (deconstructing return values is not supported), or not at
/// all.
pub open spec fn return_strategy_of(return_type: Option<TypeNode>, r: ReturnStrategy) -> bool {
    match return_type {
        Some(t) => match t.lowerable {
            Some(LowerableType::Primitive(f)) => r matches ReturnStrategy::Primitive(n, g) && *n
                == t && g == f,
            _ => r matches ReturnStrategy::FfiBuffer(n) && *n == t,
        },
        None => r is Void,
    }
}

/// The Rust type of a call's outcome: the return type, wrapped in a `Result` when the call can
/// throw.
pub open spec fn result_type_rs(ret: Option<Seq<char>>, throws: Option<Seq<char>>) -> Seq<char> {
    match (ret, throws) {
        (None, None) => "()"@,
        (Some(r), None) => r,
        (None, Some(e)) => "::std::result::Result<(), "@ + e + ">"@,
        (Some(r), Some(e)) => "::std::result::Result<"@ + r + ", "@ + e + ">"@,
    }
}

/// The Rust type of an optional type node, if there is one.
pub open spec fn opt_type_rs(t: Option<TypeNode>) -> Option<Seq<char>> {
    match t {
        Some(n) => Some(n.type_rs@),
        None => None,
    }
}

fn result_type_string(ret: Option<&String>, throws: Option<&String>) -> (s: String)
    ensures
        s@ == result_type_rs(
            match ret {
                Some(r) => Some(r@),
                None => None,
            },
            match throws {
                Some(e) => Some(e@),
                None => None,
            },
        ),
{
    match (ret, throws) {
        (None, None) => String::from_str("()"),
        (Some(r), None) => r.clone(),
        (None, Some(e)) => {
            let mut s = String::from_str("::std::result::Result<(), ");
            s.append(e.as_str());
            s.append(">");
            s
        },
        (Some(r), Some(e)) => {
            let mut s = String::from_str("::std::result::Result<");
            s.append(r.as_str());
            s.append(", ");
            s.append(e.as_str());
            s.append(">");
            s
        },
    }
}

fn opt_type_rs_ref(t: &Option<TypeNode>) -> (r: Option<&String>)
    ensures
        match t {
            Some(n) => r matches Some(s) && s@ == n.type_rs@,
            None => r is None,
        },
{
    match t {
        Some(n) => Some(&n.type_rs),
        None => None,
    }
}

/// A name made of a prefix and the callable result's id.
fn id_name(prefix: &str, id: usize) -> (s: String)
    ensures
        s@ == prefix@ + crate::text::decimal(id as nat),
{
    let mut s = String::from_str(prefix);
    crate::text::push_decimal(&mut s, id as u64);
    s
}

impl CallableResult {
    pub fn return_type_rs(&self) -> (s: String)
        ensures
            s@ == result_type_rs(opt_type_rs(self.return_type), opt_type_rs(self.throws_type)),
    {
        result_type_string(opt_type_rs_ref(&self.return_type), opt_type_rs_ref(&self.throws_type))
    }

    pub fn return_type_kt(&self) -> (s: &str)
        ensures
            match self.return_type {
                None => s@ == "Unit"@,
                Some(t) => s@ == t.type_kt@,
            },
    {
        match &self.return_type {
            None => "Unit",
            Some(ty) => ty.type_kt.as_str(),
        }
    }

    pub fn return_strategy(&self) -> (r: ReturnStrategy<'_>)
        ensures
            return_strategy_of(self.return_type, r),
    {
        match &self.return_type {
            Some(type_node) => match &type_node.lowerable {
                Some(LowerableType::Primitive(ffi_type)) => {
                    ReturnStrategy::Primitive(type_node, *ffi_type)
                },
                Some(LowerableType::Deconstructable(_ffi_types)) => {
                    // We don't support deconstructing return values yet
                    ReturnStrategy::FfiBuffer(type_node)
                },
                None => ReturnStrategy::FfiBuffer(type_node),
            },
            _ => ReturnStrategy::Void,
        }
    }

    pub fn async_await_future_fn(&self) -> (s: String)
        ensures
            s@ == "awaitRustFuture"@ + crate::text::decimal(self.id as nat),
    {
        id_name("awaitRustFuture", self.id)
    }

    pub fn async_poll_fn(&self) -> (s: String)
        ensures
            s@ == "rustFuturePoll"@ + crate::text::decimal(self.id as nat),
    {
        id_name("rustFuturePoll", self.id)
    }

    pub fn async_cancel_fn(&self) -> (s: String)
        ensures
            s@ == "rustFutureCancel"@ + crate::text::decimal(self.id as nat),
    {
        id_name("rustFutureCancel", self.id)
    }

    pub fn async_free_fn(&self) -> (s: String)
        ensures
            s@ == "rustFutureFree"@ + crate::text::decimal(self.id as nat),
    {
        id_name("rustFutureFree", self.id)
    }

    pub fn async_complete_class(&self) -> (s: String)
        ensures
            s@ == "CompleteRustFuture"@ + crate::text::decimal(self.id as nat),
    {
        id_name("CompleteRustFuture", self.id)
    }

    pub fn async_complete_success_fn(&self) -> (s: String)
        ensures
            s@ == "completeCallbackSuccess"@ + crate::text::decimal(self.id as nat),
    {
        id_name("completeCallbackSuccess", self.id)
    }

    pub fn async_complete_error_fn(&self) -> (s: String)
        ensures
            s@ == "completeCallbackError"@ + crate::text::decimal(self.id as nat),
    {
        id_name("completeCallbackError", self.id)
    }

    pub fn async_complete_unexpected_error_fn(&self) -> (s: String)
        ensures
            s@ == "completeCallbackUnexpectedError"@ + crate::text::decimal(self.id as nat),
    {
        id_name("completeCallbackUnexpectedError", self.id)
    }

    /// oneshot Sender/Receiver generic type, for async callback functions
    pub fn async_oneshot_type(&self) -> (s: String)
        ensures
            s@ == "uniffi::Result<"@ + result_type_rs(
                opt_type_rs(self.return_type),
                opt_type_rs(self.throws_type),
            ) + ">"@,
    {
        let inner_type = result_type_string(
            opt_type_rs_ref(&self.return_type),
            opt_type_rs_ref(&self.throws_type),
        );
        // Wrap the normal result type in another Result<> to handle unexpected errors.
        let mut s = String::from_str("uniffi::Result<");
        s.append(inner_type.as_str());
        s.append(">");
        s
    }

    pub fn async_rust_future_output(&self) -> (s: String)
        ensures
            s@ == "uniffi::Result<"@ + rust_future_output_of(*self) + ">"@,
    {
        let strategy = self.return_strategy();
        let ok_type: &str = match strategy {
            ReturnStrategy::Primitive(type_node, _) => type_node.type_rs.as_str(),
            _ => "()",
        };
        let mut expected = String::from_str("");
        if let Some(throws_type) = &self.throws_type {
            // For errors, we return the E type, plus the FFI buffer if the caller sent us one.
            expected.append("::std::result::Result<");
            expected.append(ok_type);
            expected.append(", (");
            expected.append(throws_type.type_rs.as_str());
            expected.append(", ::std::option::Option<uniffi::FfiBuffer>)>");
        } else {
            expected.append(ok_type);
        }
        proof {
            reveal_strlit("");
            assert(""@ + ok_type@ =~= ok_type@);
            assert(""@ + "::std::result::Result<"@ =~= "::std::result::Result<"@);
        }
        // Everything gets wrapped in a Result to handle unexpected errors
        let mut s = String::from_str("uniffi::Result<");
        s.append(expected.as_str());
        s.append(">");
        s
    }
}

/// The value type that the Rust future of an async call resolves to: the primitive return
/// value (or `()`), in a `Result` with the error and the caller's FFI buffer when the call can
/// throw.
pub open spec fn rust_future_output_of(r: CallableResult) -> Seq<char> {
    let ok_type = match r.return_type {
        Some(t) => match t.lowerable {
            Some(LowerableType::Primitive(_)) => t.type_rs@,
            _ => "()"@,
        },
        None => "()"@,
    };
    match r.throws_type {
        Some(e) => "::std::result::Result<"@ + ok_type + ", ("@ + e.type_rs@
            + ", ::std::option::Option<uniffi::FfiBuffer>)>"@,
        None => ok_type,
    }
}

/// The declaration of an argument in a Kotlin parameter list, with its default value if it
/// has one and `with_default` asks for it.
pub open spec fn arg_decl_kt(a: Argument, with_default: bool) -> Seq<char> {
    let decl = quoted(lower_camel_case(a.name@)) + ": "@ + a.ty.type_kt@;
    match a.default {
        Some(d) if with_default => decl + " = "@ + d.default_kt@,
        _ => decl,
    }
}

/// Argument declarations, separated by `sep`.
pub open spec fn arg_list_of(args: Seq<Argument>, sep: Seq<char>, with_default: bool) -> Seq<char>
    decreases args.len(),
{
    if args.len() == 0 {
        seq![]
    } else if args.len() == 1 {
        arg_decl_kt(args[0], with_default)
    } else {
        arg_list_of(args.drop_last(), sep, with_default) + sep + arg_decl_kt(
            args.last(),
            with_default,
        )
    }
}

/// The JNI arguments of a list of arguments: one for each primitive argument, the parts of
/// each deconstructed one, none for those passed in the buffer.
pub open spec fn ffi_args_of(args: Seq<Argument>) -> Seq<FfiArgument>
    decreases args.len(),
{
    if args.len() == 0 {
        seq![]
    } else {
        let rest = ffi_args_of(args.drop_last());
        match args.last().strategy {
            ArgStrategy::Primitive(a) => rest.push(a),
            ArgStrategy::Deconstruct(v) => rest + v@,
            ArgStrategy::FfiBuffer => rest,
        }
    }
}

/// The type that a callable is a method of, if it is one.
pub open spec fn receiver_of(kind: CallableKind) -> Option<TypeNode> {
    match kind {
        CallableKind::Method { self_type } => Some(self_type),
        CallableKind::VTableMethod { self_type, .. } => Some(self_type),
        _ => None,
    }
}

/// Whether a callable uses the FFI buffer: a sync callback method that throws always does;
/// otherwise when an argument is passed in it, when there is a receiver, or when the return
/// value is not a primitive.
pub open spec fn uses_buffer_of(c: Callable) -> bool {
    if c.kind.is_callback_method_spec() && !c.is_async && c.result.throws_type is Some {
        true
    } else {
        (exists|i: int| 0 <= i < c.arguments@.len() && (#[trigger] c.arguments@[i]).strategy is FfiBuffer)
            || receiver_of(c.kind) is Some || (c.result.return_type matches Some(t) && !(
        t.lowerable matches Some(LowerableType::Primitive(_))))
    }
}

impl CallableKind {
    pub open spec fn is_callback_method_spec(&self) -> bool {
        *self matches CallableKind::VTableMethod { for_callback_interface, .. } && for_callback_interface
    }
}

fn append_arg_list(args: &Vec<Argument>, sep: &str, with_default: bool) -> (s: String)
    ensures
        s@ == arg_list_of(args@, sep@, with_default),
{
    let mut s = String::from_str("");
    proof {
        reveal_strlit("");
    }
    let mut i: usize = 0;
    while i < args.len()
        invariant
            i <= args@.len(),
            s@ == arg_list_of(args@.subrange(0, i as int), sep@, with_default),
        decreases args@.len() - i,
    {
        let a = &args[i];
        if i > 0 {
            s.append(sep);
        }
        s.append(a.name_kt().as_str());
        s.append(": ");
        s.append(a.ty.type_kt.as_str());
        if with_default {
            if let Some(d) = &a.default {
                s.append(" = ");
                s.append(d.default_kt.as_str());
            }
        }
        proof {
            assert(args@.subrange(0, i + 1).drop_last() =~= args@.subrange(0, i as int));
            if i == 0 {
                assert(s@ =~= arg_decl_kt(args@[0], with_default));
            }
        }
        i = i + 1;
    }
    proof {
        assert(args@.subrange(0, i as int) =~= args@);
    }
    s
}

impl Callable {
    pub fn name_kt(&self) -> (s: String)
        ensures
            s@ == quoted(lower_camel_case(self.name@)),
    {
        quote_name(to_lower_camel_case(self.name.as_str()))
    }

    pub fn has_receiver(&self) -> (b: bool)
        ensures
            b == (receiver_of(self.kind) is Some),
    {
        self.receiver_type().is_some()
    }

    pub fn receiver_type(&self) -> (r: Option<&TypeNode>)
        ensures
            match receiver_of(self.kind) {
                Some(t) => r matches Some(n) && *n == t,
                None => r is None,
            },
    {
        match &self.kind {
            CallableKind::Method { self_type, .. } | CallableKind::VTableMethod { self_type, .. } => Some(self_type),
            _ => None,
        }
    }

    pub fn is_constructor(&self) -> (b: bool)
        ensures
            b == (self.kind is Constructor),
    {
        match self.kind {
            CallableKind::Constructor { .. } => true,
            _ => false,
        }
    }

    pub fn is_primary_constructor(&self) -> (b: bool)
        ensures
            b == (self.kind matches CallableKind::Constructor { primary, .. } && primary),
    {
        match self.kind {
            CallableKind::Constructor { primary: true, .. } => true,
            _ => false,
        }
    }

    /// Get an argument list for the function/method
    pub fn arg_list(&self) -> (s: String)
        ensures
            s@ == arg_list_of(self.arguments@, ", "@, true),
    {
        append_arg_list(&self.arguments, ", ", true)
    }

    pub fn ffi_arguments(&self) -> (r: Vec<FfiArgument>)
        ensures
            r@ == ffi_args_of(self.arguments@),
    {
        let mut ffi_args: Vec<FfiArgument> = Vec::new();
        let mut i: usize = 0;
        while i < self.arguments.len()
            invariant
                i <= self.arguments@.len(),
                ffi_args@ == ffi_args_of(self.arguments@.subrange(0, i as int)),
            decreases self.arguments@.len() - i,
        {
            proof {
                assert(self.arguments@.subrange(0, i + 1).drop_last() =~= self.arguments@.subrange(0, i as int));
            }
            match &self.arguments[i].strategy {
                ArgStrategy::Primitive(arg) => ffi_args.push(arg.clone()),
                ArgStrategy::Deconstruct(args) => {
                    let ghost start = ffi_args@;
                    let mut j: usize = 0;
                    while j < args.len()
                        invariant
                            j <= args@.len(),
                            ffi_args@ == start + args@.subrange(0, j as int),
                        decreases args@.len() - j,
                    {
                        ffi_args.push(args[j].clone());
                        j = j + 1;
                        proof {
                            assert(ffi_args@ =~= start + args@.subrange(0, j as int));
                        }
                    }
                    proof {
                        assert(args@.subrange(0, j as int) =~= args@);
                    }
                },
                _ => (),
            }
            i = i + 1;
        }
        proof {
            assert(self.arguments@.subrange(0, i as int) =~= self.arguments@);
        }
        ffi_args
    }

    /// Get an argument list without any defaults
    ///
    /// Used when implementing a method for an interface, in that case you can't specify a default.
    pub fn arg_list_no_defaults(&self) -> (s: String)
        ensures
            s@ == arg_list_of(self.arguments@, " , "@, false),
    {
        append_arg_list(&self.arguments, " , ", false)
    }

    pub fn is_for_rust_function(&self) -> (b: bool)
        ensures
            b == !(self.kind matches CallableKind::VTableMethod { for_callback_interface, .. }
                && for_callback_interface),
    {
        match self.kind {
            CallableKind::Function | CallableKind::Method { .. } | CallableKind::Constructor { .. }
            | CallableKind::VTableMethod { for_callback_interface: false, .. } => true,
            _ => false,
        }
    }

    pub fn is_for_kotlin_function(&self) -> (b: bool)
        ensures
            b == (self.kind is VTableMethod),
    {
        match self.kind {
            CallableKind::VTableMethod { .. } => true,
            _ => false,
        }
    }

    pub fn uses_buffer(&self) -> (b: bool)
        ensures
            b == uses_buffer_of(*self),
    {
        if self.kind.is_callback_method() && !self.is_async && self.throws_type().is_some() {
            // Sync callback methods currently always need to use buffer if they throw.
            return true;
        }
        self.has_ffi_buffer_arg() || self.has_receiver() || match self.return_type() {
            Some(ty) => match &ty.lowerable {
                Some(LowerableType::Primitive(_)) => false,
                _ => true,
            },
            None => false,
        }
    }

    pub fn return_strategy(&self) -> (r: ReturnStrategy<'_>)
        ensures
            return_strategy_of(self.result.return_type, r),
    {
        self.result.return_strategy()
    }

    pub fn has_ffi_buffer_arg(&self) -> (b: bool)
        ensures
            b == exists|i: int| 0 <= i < self.arguments@.len() && (#[trigger] self.arguments@[i]).strategy is FfiBuffer,
    {
        let mut i: usize = 0;
        while i < self.arguments.len()
            invariant
                i <= self.arguments@.len(),
                forall|j: int| 0 <= j < i ==> !((#[trigger] self.arguments@[j]).strategy is FfiBuffer),
            decreases self.arguments@.len() - i,
        {
            if self.arguments[i].uses_buffer() {
                return true;
            }
            i = i + 1;
        }
        false
    }

    pub fn return_type(&self) -> (r: Option<&TypeNode>)
        ensures
            match self.result.return_type {
                Some(t) => r matches Some(n) && *n == t,
                None => r is None,
            },
    {
        self.result.return_type.as_ref()
    }

    pub fn throws_type(&self) -> (r: Option<&TypeNode>)
        ensures
            match self.result.throws_type {
                Some(t) => r matches Some(n) && *n == t,
                None => r is None,
            },
    {
        self.result.throws_type.as_ref()
    }
}

/// Set of methods for builtin traits
pub struct UniffiTraitMethods {
    pub debug_fmt: Option<Method>,
    pub display_fmt: Option<Method>,
    pub eq_eq: Option<Method>,
    pub eq_ne: Option<Method>,
    pub hash_hash: Option<Method>,
    pub ord_cmp: Option<Method>,
}

/// Single method in a vtable
pub struct CallbackMethod {
    pub callable: Callable,
    pub jni_signature: String,
    pub jni_method_call_name: String,
    pub dispatch_fn_rs: String,
    pub dispatch_fn_kt: String,
}

/// Kotlin Callback interface
///
/// This implements a Rust trait by calling into Kotlin.
/// This is generated for trait interfaces and callback interfaces
pub struct CallbackInterface {
    pub self_type: TypeNode,
    pub name: String,
    pub orig_name: String,
    pub rust_module_path: String,
    pub docstring: Option<String>,
    pub methods: Vec<CallbackMethod>,
    pub crate_name: String,
    pub for_trait_interface: bool,
}

/// Kotlin class that implements an interface by calling into Rust
///
/// This is generated for Objects and trait interfaces
pub struct Class {
    pub name: String,
    pub orig_name: String,
    pub uniffi_trait_methods: UniffiTraitMethods,
    pub rust_module_path: String,
    pub self_type: TypeNode,
    pub package_name: String,
    pub base_classes: Vec<String>,
    pub constructors: Vec<Constructor>,
    pub methods: Vec<Method>,
    pub docstring: Option<String>,
    pub crate_name: String,
    pub imp: ObjectImpl,
    /// Callback interface for trait interfaces
    pub callback_interface: Option<CallbackInterface>,
}

/// Kotlin Interface
///
/// This is generated for Objects, trait interfaces and callback interfaces
pub struct Interface {
    pub name: String,
    pub methods: Vec<Method>,
    pub docstring: Option<String>,
}

/// A name in upper camel case, with two parts before it.
pub open spec fn camel_name(prefix: Seq<char>, first: Seq<char>, second: Seq<char>) -> Seq<char> {
    prefix + upper_camel_case(first) + upper_camel_case(second)
}

fn make_camel_name(prefix: &str, first: &String, second: &String) -> (s: String)
    ensures
        s@ == camel_name(prefix@, first@, second@),
{
    let mut s = String::from_str(prefix);
    s.append(to_upper_camel_case(first.as_str()).as_str());
    s.append(to_upper_camel_case(second.as_str()).as_str());
    s
}

/// Whether a constructor is the primary (or, with `primary` false, a secondary) one.
pub open spec fn is_constructor_kind(c: Constructor, primary: bool) -> bool {
    c.callable.kind matches CallableKind::Constructor { primary: p, .. } && p == primary
}

impl Class {
    pub fn jni_free_name(&self) -> (s: String)
        ensures
            s@ == camel_name("objectFree"@, self.crate_name@, self.name@),
    {
        make_camel_name("objectFree", &self.crate_name, &self.name)
    }

    pub fn jni_addref_name(&self) -> (s: String)
        ensures
            s@ == camel_name("objectAddReff"@, self.crate_name@, self.name@),
    {
        make_camel_name("objectAddReff", &self.crate_name, &self.name)
    }

    pub fn handle_map_kt(&self) -> (s: String)
        ensures
            s@ == camel_name("callbackInterfaceHandleMap"@, self.crate_name@, self.name@),
    {
        make_camel_name("callbackInterfaceHandleMap", &self.crate_name, &self.name)
    }

    pub fn impl_struct_rs(&self) -> (s: String)
        ensures
            s@ == camel_name("UniffiCallbackImpl"@, self.crate_name@, self.orig_name@),
    {
        make_camel_name("UniffiCallbackImpl", &self.crate_name, &self.orig_name)
    }

    pub fn primary_constructor(&self) -> (r: Option<&Constructor>)
        ensures
            match r {
                Some(c) => exists|i: int|
                    0 <= i < self.constructors@.len() && self.constructors@[i] == *c
                        && is_constructor_kind(*c, true) && forall|j: int|
                        0 <= j < i ==> !is_constructor_kind(#[trigger] self.constructors@[j], true),
                None => forall|j: int|
                    0 <= j < self.constructors@.len() ==> !is_constructor_kind(
                        #[trigger] self.constructors@[j],
                        true,
                    ),
            },
    {
        let mut i: usize = 0;
        while i < self.constructors.len()
            invariant
                i <= self.constructors@.len(),
                forall|j: int| 0 <= j < i ==> !is_constructor_kind(#[trigger] self.constructors@[j], true),
            decreases self.constructors@.len() - i,
        {
            let c = &self.constructors[i];
            if let CallableKind::Constructor { primary: true, .. } = c.callable.kind {
                return Some(c);
            }
            i = i + 1;
        }
        None
    }

    pub fn secondary_constructors(&self) -> (r: Vec<&Constructor>)
        ensures
            r@.map_values(|c: &Constructor| *c) == self.constructors@.filter(
                |c: Constructor| is_constructor_kind(c, false),
            ),
    {
        let mut r: Vec<&Constructor> = Vec::new();
        let mut i: usize = 0;
        while i < self.constructors.len()
            invariant
                i <= self.constructors@.len(),
                r@.map_values(|c: &Constructor| *c) == self.constructors@.subrange(0, i as int).filter(
                    |c: Constructor| is_constructor_kind(c, false),
                ),
            decreases self.constructors@.len() - i,
        {
            let c = &self.constructors[i];
            proof {
                reveal(Seq::filter);
                assert(self.constructors@.subrange(0, i + 1).drop_last() =~= self.constructors@.subrange(0, i as int));
            }
            if let CallableKind::Constructor { primary: false, .. } = c.callable.kind {
                r.push(c);
                proof {
                    assert(r@.map_values(|c: &Constructor| *c) =~= self.constructors@.subrange(0, i + 1).filter(
                        |c: Constructor| is_constructor_kind(c, false),
                    ));
                }
            }
            i = i + 1;
        }
        proof {
            assert(self.constructors@.subrange(0, i as int) =~= self.constructors@);
        }
        r
    }
}

impl Interface {
    pub fn name_kt(&self) -> (s: String)
        ensures
            s@ == quoted(upper_camel_case(self.name@)),
    {
        quote_name(to_upper_camel_case(self.name.as_str()))
    }
}

impl CallbackInterface {
    pub fn name_kt(&self) -> (s: String)
        ensures
            s@ == quoted(upper_camel_case(self.name@)),
    {
        quote_name(to_upper_camel_case(self.name.as_str()))
    }

    pub fn has_async_method(&self) -> (b: bool)
        ensures
            b == exists|i: int| 0 <= i < self.methods@.len() && (#[trigger] self.methods@[i]).callable.is_async,
    {
        let mut i: usize = 0;
        while i < self.methods.len()
            invariant
                i <= self.methods@.len(),
                forall|j: int| 0 <= j < i ==> !(#[trigger] self.methods@[j]).callable.is_async,
            decreases self.methods@.len() - i,
        {
            if self.methods[i].callable.is_async {
                return true;
            }
            i = i + 1;
        }
        false
    }

    pub fn free_fn_kt(&self) -> (s: String)
        ensures
            s@ == camel_name("callbackInterfaceFree"@, self.crate_name@, self.name@),
    {
        make_camel_name("callbackInterfaceFree", &self.crate_name, &self.name)
    }

    pub fn handle_map_kt(&self) -> (s: String)
        ensures
            s@ == camel_name("callbackInterfaceHandleMap"@, self.crate_name@, self.name@),
    {
        make_camel_name("callbackInterfaceHandleMap", &self.crate_name, &self.name)
    }

    pub fn impl_struct_rs(&self) -> (s: String)
        ensures
            s@ == camel_name("UniffiCallbackImpl"@, self.crate_name@, self.orig_name@),
    {
        make_camel_name("UniffiCallbackImpl", &self.crate_name, &self.orig_name)
    }
}

/// Whether the trait methods order values (the `Ord` trait is exported).
pub open spec fn orderable(m: UniffiTraitMethods) -> bool {
    m.ord_cmp is Some
}

impl UniffiTraitMethods {
    /// Whether the trait methods order values (the `Ord` trait is exported).
    pub fn is_orderable(&self) -> (b: bool)
        ensures
            b == orderable(*self),
    {
        self.ord_cmp.is_some()
    }

    /// Rust has 2 display traits, while Kotlin has one.
    /// Prefer `Display` but use `Debug` otherwise
    pub fn to_string(&self) -> (r: Option<&Method>)
        ensures
            match self.display_fmt {
                Some(m) => r matches Some(x) && *x == m,
                None => match self.debug_fmt {
                    Some(m) => r matches Some(x) && *x == m,
                    None => r is None,
                },
            },
    {
        match &self.display_fmt {
            Some(m) => Some(m),
            None => self.debug_fmt.as_ref(),
        }
    }
}

/// Whether two argument strategies say the same.
pub open spec fn strategy_same(a: ArgStrategy, b: ArgStrategy) -> bool {
    match (a, b) {
        (ArgStrategy::FfiBuffer, ArgStrategy::FfiBuffer) => true,
        (ArgStrategy::Primitive(x), ArgStrategy::Primitive(y)) => x == y,
        (ArgStrategy::Deconstruct(v), ArgStrategy::Deconstruct(w)) => v@ == w@,
        _ => false,
    }
}

/// Whether two arguments say the same.
pub open spec fn argument_same(a: Argument, b: Argument) -> bool {
    &&& a.name == b.name
    &&& a.orig_name == b.orig_name
    &&& type_node_same(a.ty, b.ty)
    &&& a.by_ref == b.by_ref
    &&& a.optional == b.optional
    &&& opt_default_same(a.default, b.default)
    &&& strategy_same(a.strategy, b.strategy)
}

/// Whether two optional type nodes say the same.
pub open spec fn opt_type_node_same(a: Option<TypeNode>, b: Option<TypeNode>) -> bool {
    match (a, b) {
        (Some(x), Some(y)) => type_node_same(x, y),
        (None, None) => true,
        _ => false,
    }
}

/// Whether two callable kinds say the same.
pub open spec fn kind_same(a: CallableKind, b: CallableKind) -> bool {
    match (a, b) {
        (CallableKind::Function, CallableKind::Function) => true,
        (CallableKind::Method { self_type: x }, CallableKind::Method { self_type: y }) => type_node_same(x, y),
        (
            CallableKind::Constructor { self_type: x, primary: p },
            CallableKind::Constructor { self_type: y, primary: q },
        ) => type_node_same(x, y) && p == q,
        (
            CallableKind::VTableMethod { self_type: x, for_callback_interface: p },
            CallableKind::VTableMethod { self_type: y, for_callback_interface: q },
        ) => type_node_same(x, y) && p == q,
        _ => false,
    }
}

/// Whether two callables say the same.
pub open spec fn callable_same(a: Callable, b: Callable) -> bool {
    &&& kind_same(a.kind, b.kind)
    &&& a.name == b.name
    &&& a.orig_name == b.orig_name
    &&& a.is_async == b.is_async
    &&& a.arguments@.len() == b.arguments@.len()
    &&& forall|i: int| 0 <= i < a.arguments@.len() ==> argument_same(#[trigger] a.arguments@[i], b.arguments@[i])
    &&& opt_type_node_same(a.result.return_type, b.result.return_type)
    &&& opt_type_node_same(a.result.throws_type, b.result.throws_type)
    &&& a.result.id == b.result.id
    &&& a.fully_qualified_name_rs == b.fully_qualified_name_rs
}

fn copy_opt_type_node(t: &Option<TypeNode>) -> (r: Option<TypeNode>)
    ensures
        opt_type_node_same(r, *t),
{
    match t {
        Some(n) => Some(n.clone()),
        None => None,
    }
}

fn copy_ffi_args(v: &Vec<FfiArgument>) -> (r: Vec<FfiArgument>)
    ensures
        r@ == v@,
{
    let mut r: Vec<FfiArgument> = Vec::new();
    let mut i: usize = 0;
    while i < v.len()
        invariant
            i <= v@.len(),
            r@ == v@.take(i as int),
        decreases v@.len() - i,
    {
        r.push(v[i].clone());
        i = i + 1;
        proof {
            assert(r@ =~= v@.take(i as int));
        }
    }
    proof {
        assert(v@.take(i as int) =~= v@);
    }
    r
}

/// Whether two literals say the same.
pub open spec fn literal_same(a: Literal, b: Literal) -> bool
    decreases a,
{
    match a {
        Literal::Boolean(x) => b matches Literal::Boolean(y) && x == y,
        Literal::String(x) => b matches Literal::String(y) && x == y,
        Literal::UInt(x, r, t) => b matches Literal::UInt(y, q, u) && x == y && r == q
            && type_node_same(t, u),
        Literal::Int(x, r, t) => b matches Literal::Int(y, q, u) && x == y && r == q
            && type_node_same(t, u),
        Literal::Float(x, t) => b matches Literal::Float(y, u) && x == y && type_node_same(t, u),
        Literal::Enum(x, t) => b matches Literal::Enum(y, u) && x == y && type_node_same(t, u),
        Literal::EmptySequence => b is EmptySequence,
        Literal::EmptyMap => b is EmptyMap,
        Literal::NoneValue => b is NoneValue,
        Literal::SomeValue { inner } => b matches Literal::SomeValue { inner: other }
            && default_value_same(*inner, *other),
    }
}

/// Whether two default values say the same.
pub open spec fn default_value_same(a: DefaultValue, b: DefaultValue) -> bool
    decreases a,
{
    match a {
        DefaultValue::Literal(x) => b matches DefaultValue::Literal(y) && literal_same(x, y),
        DefaultValue::Default(t) => b matches DefaultValue::Default(u) && type_node_same(t, u),
    }
}

/// Whether two optional default value nodes say the same.
pub open spec fn opt_default_same(a: Option<DefaultValueNode>, b: Option<DefaultValueNode>) -> bool {
    match (a, b) {
        (Some(x), Some(y)) => x.default_kt == y.default_kt && default_value_same(x.default, y.default),
        (None, None) => true,
        _ => false,
    }
}

fn copy_literal(l: &Literal) -> (r: Literal)
    ensures
        literal_same(r, *l),
    decreases l,
{
    match l {
        Literal::Boolean(x) => Literal::Boolean(*x),
        Literal::String(x) => Literal::String(x.clone()),
        Literal::UInt(x, r, t) => Literal::UInt(*x, *r, t.clone()),
        Literal::Int(x, r, t) => Literal::Int(*x, *r, t.clone()),
        Literal::Float(x, t) => Literal::Float(x.clone(), t.clone()),
        Literal::Enum(x, t) => Literal::Enum(x.clone(), t.clone()),
        Literal::EmptySequence => Literal::EmptySequence,
        Literal::EmptyMap => Literal::EmptyMap,
        Literal::NoneValue => Literal::NoneValue,
        Literal::SomeValue { inner } => Literal::SomeValue { inner: Box::new(copy_default_value(&**inner)) },
    }
}

fn copy_default_value(d: &DefaultValue) -> (r: DefaultValue)
    ensures
        default_value_same(r, *d),
    decreases d,
{
    match d {
        DefaultValue::Literal(x) => DefaultValue::Literal(copy_literal(x)),
        DefaultValue::Default(t) => DefaultValue::Default(t.clone()),
    }
}

impl Clone for Literal {
    fn clone(&self) -> (r: Self)
        ensures
            literal_same(r, *self),
    {
        copy_literal(self)
    }
}

impl Clone for DefaultValue {
    fn clone(&self) -> (r: Self)
        ensures
            default_value_same(r, *self),
    {
        copy_default_value(self)
    }
}

impl Clone for LiteralNode {
    fn clone(&self) -> (r: Self)
        ensures
            r.lit_kt == self.lit_kt,
            literal_same(r.lit, self.lit),
    {
        LiteralNode { lit_kt: self.lit_kt.clone(), lit: copy_literal(&self.lit) }
    }
}

impl Clone for DefaultValueNode {
    fn clone(&self) -> (r: Self)
        ensures
            r.default_kt == self.default_kt,
            default_value_same(r.default, self.default),
    {
        DefaultValueNode { default_kt: self.default_kt.clone(), default: copy_default_value(&self.default) }
    }
}

impl Clone for ArgStrategy {
    fn clone(&self) -> (r: Self)
        ensures
            strategy_same(r, *self),
    {
        match self {
            ArgStrategy::FfiBuffer => ArgStrategy::FfiBuffer,
            ArgStrategy::Primitive(a) => ArgStrategy::Primitive(a.clone()),
            ArgStrategy::Deconstruct(v) => ArgStrategy::Deconstruct(copy_ffi_args(v)),
        }
    }
}

impl Clone for Argument {
    fn clone(&self) -> (r: Self)
        ensures
            argument_same(r, *self),
    {
        Argument {
            name: self.name.clone(),
            orig_name: self.orig_name.clone(),
            ty: self.ty.clone(),
            by_ref: self.by_ref,
            optional: self.optional,
            default: match &self.default {
                Some(d) => Some(d.clone()),
                None => None,
            },
            strategy: self.strategy.clone(),
        }
    }
}

impl Clone for CallableKind {
    fn clone(&self) -> (r: Self)
        ensures
            kind_same(r, *self),
    {
        match self {
            CallableKind::Function => CallableKind::Function,
            CallableKind::Method { self_type } => CallableKind::Method { self_type: self_type.clone() },
            CallableKind::Constructor { self_type, primary } => CallableKind::Constructor {
                self_type: self_type.clone(),
                primary: *primary,
            },
            CallableKind::VTableMethod { self_type, for_callback_interface } => CallableKind::VTableMethod {
                self_type: self_type.clone(),
                for_callback_interface: *for_callback_interface,
            },
        }
    }
}

impl Clone for Callable {
    fn clone(&self) -> (r: Self)
        ensures
            callable_same(r, *self),
    {
        let mut arguments: Vec<Argument> = Vec::new();
        let mut i: usize = 0;
        while i < self.arguments.len()
            invariant
                i <= self.arguments@.len(),
                arguments@.len() == i,
                forall|j: int| 0 <= j < i ==> argument_same(#[trigger] arguments@[j], self.arguments@[j]),
            decreases self.arguments@.len() - i,
        {
            arguments.push(self.arguments[i].clone());
            i = i + 1;
        }
        Callable {
            kind: self.kind.clone(),
            name: self.name.clone(),
            orig_name: self.orig_name.clone(),
            is_async: self.is_async,
            arguments,
            result: CallableResult {
                return_type: copy_opt_type_node(&self.result.return_type),
                throws_type: copy_opt_type_node(&self.result.throws_type),
                id: self.result.id,
            },
            fully_qualified_name_rs: self.fully_qualified_name_rs.clone(),
        }
    }
}

} // verus!
