//! How the arguments of a callable are passed across the FFI.

use vstd::prelude::*;
use crate::ffitypes::FfiType;
use crate::context::{Context, module_path_of};
use crate::error::BindgenError;
use crate::ffitypes::{Type, user_type_name};
use crate::names::{to_upper_camel_case, upper_camel_case};
use crate::nodes::{
    ArgStrategy, Argument, Callable, CallableKind, CallableResult, Constructor, DefaultValueNode, FfiArgument, Function,
    LowerableType, Method, TypeNode, lowerable_ffi_types,
};
use crate::text::{decimal, push_decimal};

verus! {

/// Maximum number of arguments to use to pass primitive/deconstructable types
pub const MAX_PRIMITIVE_ARGS: usize = 32;

/// Generates argument names for FFI arguments that we're passing
pub struct FfiArgAllocator(usize);

impl View for FfiArgAllocator {
    type V = nat;

    /// How many FFI arguments have been allocated.
    closed spec fn view(&self) -> nat {
        self.0 as nat
    }
}

/// The name of the FFI argument allocated as number `i`.
pub open spec fn ffi_arg_name(i: nat) -> Seq<char> {
    "uniffi_arg_"@ + decimal(i)
}

/// Whether the values of a lowerable type still fit in the JNI arguments, after `used` of
/// them were allocated.
pub open spec fn fits_in_args(used: nat, lowerable: LowerableType) -> bool {
    match lowerable {
        LowerableType::Primitive(_) => used < MAX_PRIMITIVE_ARGS,
        LowerableType::Deconstructable(ts) => used + ts@.len() <= MAX_PRIMITIVE_ARGS,
    }
}

/// Whether `args` are FFI arguments of the types `ts`, named by consecutive numbers from
/// `first`.
pub open spec fn allocated_args(args: Seq<FfiArgument>, ts: Seq<FfiType>, first: nat) -> bool {
    &&& args.len() == ts.len()
    &&& forall|i: int|
        0 <= i < args.len() ==> (#[trigger] args[i]).name@ == ffi_arg_name((first + i) as nat)
            && args[i].ty == ts[i]
}

/// How an argument of a type is passed, when `used` FFI arguments were allocated before it
/// (`r`), and how many are allocated after it (`used2`).
pub open spec fn strategy_of(used: nat, ty: TypeNode, r: ArgStrategy, used2: nat) -> bool {
    match ty.lowerable {
        Some(l) if fits_in_args(used, l) => match l {
            LowerableType::Primitive(t) => {
                &&& r matches ArgStrategy::Primitive(a) && a.name@ == ffi_arg_name(used) && a.ty == t
                &&& used2 == used + 1
            },
            LowerableType::Deconstructable(ts) => {
                &&& r matches ArgStrategy::Deconstruct(args) && allocated_args(args@, ts@, used)
                &&& used2 == used + ts@.len()
            },
        },
        _ => r is FfiBuffer && used2 == used,
    }
}

impl Default for FfiArgAllocator {
    fn default() -> (a: Self)
        ensures
            a@ == 0,
    {
        FfiArgAllocator(0)
    }
}

impl FfiArgAllocator {
    pub fn next(&mut self) -> (name: String)
        requires
            old(self)@ < usize::MAX,
        ensures
            name@ == ffi_arg_name(old(self)@),
            final(self)@ == old(self)@ + 1,
    {
        let i = self.0;
        self.0 += 1;
        let mut name = String::from_str("uniffi_arg_");
        push_decimal(&mut name, i as u64);
        name
    }

    pub fn strategy_for_type(&mut self, ty: &TypeNode) -> (r: ArgStrategy)
        ensures
            strategy_of(old(self)@, *ty, r, final(self)@),
    {
        match &ty.lowerable {
            Some(lowerable) => {
                if !self.can_lower_args(lowerable) {
                    return ArgStrategy::FfiBuffer;
                }
                match lowerable {
                    LowerableType::Primitive(ffi_type) => ArgStrategy::Primitive(
                        FfiArgument { name: self.next(), ty: *ffi_type },
                    ),
                    LowerableType::Deconstructable(primitive_types) => {
                        let ghost first = self@;
                        let mut args: Vec<FfiArgument> = Vec::new();
                        let mut i: usize = 0;
                        while i < primitive_types.len()
                            invariant
                                i <= primitive_types@.len(),
                                first + primitive_types@.len() <= MAX_PRIMITIVE_ARGS,
                                self@ == first + i,
                                allocated_args(args@, primitive_types@.subrange(0, i as int), first),
                            decreases primitive_types@.len() - i,
                        {
                            let name = self.next();
                            args.push(FfiArgument { name, ty: primitive_types[i] });
                            i = i + 1;
                        }
                        proof {
                            assert(primitive_types@.subrange(0, i as int) =~= primitive_types@);
                        }
                        ArgStrategy::Deconstruct(args)
                    },
                }
            },
            None => ArgStrategy::FfiBuffer,
        }
    }

    pub fn can_lower_args(&self, lowerable: &LowerableType) -> (b: bool)
        ensures
            b == fits_in_args(self@, *lowerable),
    {
        match lowerable {
            LowerableType::Primitive(_) => self.0 < MAX_PRIMITIVE_ARGS,
            LowerableType::Deconstructable(ffi_types) => ffi_types.len() <= MAX_PRIMITIVE_ARGS
                && self.0 <= MAX_PRIMITIVE_ARGS - ffi_types.len(),
        }
    }
}

/// How the receiver of a method is passed across the FFI.
pub enum ReceiverStrategy {
    /// A reference to the Rust struct of an interface: the struct's type and its handle.
    InterfaceRef(String, FfiArgument),
    /// A reference to a trait interface: the trait's type and the two words of its handle.
    TraitInterfaceRef(String, FfiArgument, FfiArgument),
    /// Like any other argument.
    Arg(ArgStrategy),
}

/// Whether `a` is a 64-bit handle argument named as number `i`.
pub open spec fn handle_arg(a: FfiArgument, i: nat) -> bool {
    a.name@ == ffi_arg_name(i) && a.ty == FfiType::Int64
}

/// How the receiver of type `ty` is passed, when `used` FFI arguments were allocated before it
/// (`r`), and how many are allocated after it (`used2`).  `name_rs` is the name of the
/// receiver's type as a Rust identifier.
///
/// An interface taken by reference (not by `Arc`) is passed as its handle: one word for a
/// struct, two for a trait, along with its full Rust type name; any other receiver is passed
/// like an argument.
pub open spec fn receiver_strategy_of(
    used: nat,
    ty: TypeNode,
    takes_self_by_arc: bool,
    ctx: Context,
    name_rs: Seq<char>,
    r: Result<ReceiverStrategy, BindgenError>,
    used2: nat,
) -> bool {
    match ty.ty {
        Type::Interface { imp, orig_name, namespace, .. } if !takes_self_by_arc => {
            match module_path_of(ctx, namespace@, orig_name@) {
                None => r matches Err(BindgenError::ModulePathNotFound(n, t)) && n@ == namespace@
                    && t@ == orig_name@,
                Some(path) => {
                    let full_name = path + "::"@ + name_rs;
                    if imp is Struct {
                        &&& r matches Ok(ReceiverStrategy::InterfaceRef(s, a))
                        &&& s@ == full_name && handle_arg(a, used)
                        &&& used2 == used + 1
                    } else {
                        &&& r matches Ok(ReceiverStrategy::TraitInterfaceRef(s, a, b))
                        &&& s@ == full_name && handle_arg(a, used) && handle_arg(b, used + 1)
                        &&& used2 == used + 2
                    }
                },
            }
        },
        _ => r matches Ok(ReceiverStrategy::Arg(a)) && strategy_of(used, ty, a, used2),
    }
}

impl FfiArgAllocator {
    /// Choose how the receiver of type `ty` is passed.  `name_rs` is the name of the
    /// receiver's type as a Rust identifier (escaped where it is a Rust keyword).
    pub fn receiver_strategy_for_type(
        &mut self,
        ty: &TypeNode,
        takes_self_by_arc: bool,
        context: &Context,
        name_rs: &str,
    ) -> (r: Result<ReceiverStrategy, BindgenError>)
        requires
            ty.ty matches Type::Interface { imp, .. } ==> (takes_self_by_arc || old(self)@ + (
            if imp is Struct {
                1int
            } else {
                2int
            }) <= usize::MAX),
        ensures
            r is Err ==> final(self)@ == old(self)@,
            receiver_strategy_of(
                old(self)@,
                *ty,
                takes_self_by_arc,
                *context,
                name_rs@,
                r,
                final(self)@,
            ),
    {
        match &ty.ty {
            Type::Interface { imp, orig_name, namespace, .. } => {
                if !takes_self_by_arc {
                    let path = context.module_path_for_type(
                        namespace.as_str(),
                        orig_name.as_str(),
                    )?;
                    proof {
                        reveal_strlit("::");
                    }
                    let mut inner_type_name = String::from_str(path);
                    inner_type_name.append("::");
                    inner_type_name.append(name_rs);
                    if !imp.is_trait_interface() {
                        return Ok(
                            ReceiverStrategy::InterfaceRef(
                                inner_type_name,
                                FfiArgument { name: self.next(), ty: FfiType::Int64 },
                            ),
                        );
                    } else {
                        let first = FfiArgument { name: self.next(), ty: FfiType::Int64 };
                        let second = FfiArgument { name: self.next(), ty: FfiType::Int64 };
                        return Ok(ReceiverStrategy::TraitInterfaceRef(inner_type_name, first, second));
                    }
                }
            },
            _ => {},
        }
        Ok(ReceiverStrategy::Arg(self.strategy_for_type(ty)))
    }
}

/// The number of FFI arguments allocated after an argument of type `ty`, when `used` were
/// allocated before it: its lowered values, if they fit, else none (it goes in the buffer).
pub open spec fn used_after(used: nat, ty: TypeNode) -> nat {
    match ty.lowerable {
        Some(l) => if fits_in_args(used, l) {
            used + lowerable_ffi_types(l).len()
        } else {
            used
        },
        None => used,
    }
}

/// The number of FFI arguments allocated before argument `i` of a list of types, when `used`
/// were allocated before the list.
pub open spec fn used_before(used: nat, tys: Seq<TypeNode>, i: nat) -> nat
    decreases i,
{
    if i == 0 {
        used
    } else {
        used_after(used_before(used, tys, (i - 1) as nat), tys[i - 1])
    }
}

/// The types of a list of arguments.
pub open spec fn input_types(inputs: Seq<ArgumentInput>) -> Seq<TypeNode> {
    inputs.map_values(|a: ArgumentInput| a.ty)
}

/// An argument of a callable, before its strategy is chosen.
pub struct ArgumentInput {
    pub name: String,
    pub orig_name: String,
    pub ty: TypeNode,
    pub by_ref: bool,
    pub optional: bool,
    pub default: Option<DefaultValueNode>,
}

/// Whether an argument is its input, with a strategy.
pub open spec fn argument_of(input: ArgumentInput, a: Argument) -> bool {
    &&& a.name == input.name
    &&& a.orig_name == input.orig_name
    &&& a.ty == input.ty
    &&& a.by_ref == input.by_ref
    &&& a.optional == input.optional
    &&& a.default == input.default
}

proof fn lemma_strategy_used(used: nat, ty: TypeNode, r: ArgStrategy, used2: nat)
    requires
        strategy_of(used, ty, r, used2),
    ensures
        used2 == used_after(used, ty),
{
}

/// Choose how each argument is passed, in order, allocating their FFI arguments.
pub fn map_arguments(allocator: &mut FfiArgAllocator, inputs: Vec<ArgumentInput>) -> (mapped: Vec<
    Argument,
>)
    ensures
        mapped@.len() == inputs@.len(),
        final(allocator)@ == used_before(old(allocator)@, input_types(inputs@), inputs@.len()),
        forall|i: int|
            0 <= i < inputs@.len() ==> argument_of(inputs@[i], #[trigger] mapped@[i]) && strategy_of(
                used_before(old(allocator)@, input_types(inputs@), i as nat),
                inputs@[i].ty,
                mapped@[i].strategy,
                used_before(old(allocator)@, input_types(inputs@), (i + 1) as nat),
            ),
{
    let ghost all = inputs@;
    let ghost start = allocator@;
    let mut inputs = inputs;
    let mut mapped: Vec<Argument> = Vec::new();
    while inputs.len() > 0
        invariant
            mapped@.len() + inputs@.len() == all.len(),
            inputs@ == all.skip(mapped@.len() as int),
            allocator@ == used_before(start, input_types(all), mapped@.len() as nat),
            forall|i: int|
                0 <= i < mapped@.len() ==> argument_of(all[i], #[trigger] mapped@[i]) && strategy_of(
                    used_before(start, input_types(all), i as nat),
                    all[i].ty,
                    mapped@[i].strategy,
                    used_before(start, input_types(all), (i + 1) as nat),
                ),
        decreases inputs@.len(),
    {
        let ghost k = mapped@.len();
        let input = inputs.remove(0);
        proof {
            assert(all.skip(k as int)[0] == all[k as int]);
            assert(inputs@ =~= all.skip(k + 1 as int));
        }
        let ghost used = allocator@;
        let strategy = allocator.strategy_for_type(&input.ty);
        proof {
            lemma_strategy_used(used, input.ty, strategy, allocator@);
            assert(input_types(all)[k as int] == input.ty);
        }
        mapped.push(
            Argument {
                name: input.name,
                orig_name: input.orig_name,
                ty: input.ty,
                by_ref: input.by_ref,
                optional: input.optional,
                default: input.default,
                strategy,
            },
        );
    }
    mapped
}

/// The number of FFI arguments allocated never goes down from one argument to the next, and
/// stays within `MAX_PRIMITIVE_ARGS` once it started there.  Since `map_arguments` numbers each
/// argument's FFI arguments from the count before it to the count after it, no two arguments
/// share an FFI argument name.
pub proof fn law_argument_allocation_is_ordered(used: nat, tys: Seq<TypeNode>, i: nat, j: nat)
    requires
        i <= j <= tys.len(),
        used <= MAX_PRIMITIVE_ARGS,
    ensures
        used_before(used, tys, i) <= used_before(used, tys, j) <= MAX_PRIMITIVE_ARGS,
    decreases j,
{
    if j > 0 {
        law_argument_allocation_is_ordered(used, tys, 0, (j - 1) as nat);
        if i < j {
            law_argument_allocation_is_ordered(used, tys, i, (j - 1) as nat);
        }
    }
}

/// Argument names never run out of the JNI arguments: an allocator that has allocated at most
/// `MAX_PRIMITIVE_ARGS` arguments still has at most that many after choosing a strategy, and
/// it never goes back, so no two arguments get the same name; a buffer argument allocates none.
pub proof fn law_allocator_bounded(used: nat, ty: TypeNode, r: ArgStrategy, used2: nat)
    requires
        used <= MAX_PRIMITIVE_ARGS,
        strategy_of(used, ty, r, used2),
    ensures
        used <= used2 <= MAX_PRIMITIVE_ARGS,
        r is FfiBuffer ==> used2 == used,
{
}

/// A callable, before the FFI arguments of its receiver and of its arguments are allocated.
pub struct CallableInput {
    pub kind: CallableKind,
    /// Whether a method takes its receiver as an `Arc`.
    pub takes_self_by_arc: bool,
    /// The name of the receiver's type as a Rust identifier (escaped where it is a keyword).
    pub self_name_rs: String,
    pub name: String,
    pub orig_name: String,
    pub is_async: bool,
    pub arguments: Vec<ArgumentInput>,
    pub result: CallableResult,
    pub fully_qualified_name_rs: String,
}

/// The receiver of a callable, and whether it is taken by `Arc`: methods have one, and a
/// vtable method's receiver is never taken by `Arc`.
pub open spec fn receiver_of_kind(kind: CallableKind, takes_self_by_arc: bool) -> Option<(TypeNode, bool)> {
    match kind {
        CallableKind::Method { self_type } => Some((self_type, takes_self_by_arc)),
        CallableKind::VTableMethod { self_type, .. } => Some((self_type, false)),
        _ => None,
    }
}

/// The number of FFI arguments that the receiver of type `ty` takes, allocated first.
pub open spec fn receiver_used(ty: TypeNode, takes_self_by_arc: bool) -> nat {
    match ty.ty {
        Type::Interface { imp, .. } if !takes_self_by_arc => if imp is Struct {
            1
        } else {
            2
        },
        _ => used_after(0, ty),
    }
}

/// Whether `c` is the callable of `input`, with the FFI arguments of its arguments allocated
/// after the `used` ones of the receiver.
pub open spec fn callable_mapped(input: CallableInput, c: Callable, used: nat) -> bool {
    &&& c.kind == input.kind
    &&& c.name == input.name
    &&& c.orig_name == input.orig_name
    &&& c.is_async == input.is_async
    &&& c.result == input.result
    &&& c.fully_qualified_name_rs == input.fully_qualified_name_rs
    &&& c.arguments@.len() == input.arguments@.len()
    &&& forall|i: int|
        0 <= i < input.arguments@.len() ==> argument_of(input.arguments@[i], #[trigger] c.arguments@[i])
            && strategy_of(
            used_before(used, input_types(input.arguments@), i as nat),
            input.arguments@[i].ty,
            c.arguments@[i].strategy,
            used_before(used, input_types(input.arguments@), (i + 1) as nat),
        )
}

proof fn lemma_receiver_used(
    ty: TypeNode,
    takes_self_by_arc: bool,
    ctx: Context,
    name_rs: Seq<char>,
    s: ReceiverStrategy,
    used2: nat,
)
    requires
        receiver_strategy_of(0, ty, takes_self_by_arc, ctx, name_rs, Ok(s), used2),
    ensures
        used2 == receiver_used(ty, takes_self_by_arc),
{
    match ty.ty {
        Type::Interface { .. } if !takes_self_by_arc => {},
        _ => {
            let a = s->Arg_0;
            lemma_strategy_used(0, ty, a, used2);
        },
    }
}

/// Map a callable: allocate the FFI arguments of its receiver first, then those of its
/// arguments, from one allocator.  Fails where the receiver's type has no known module path.
pub fn map_callable(input: CallableInput, context: &Context) -> (r: Result<
    (Callable, Option<ReceiverStrategy>),
    BindgenError,
>)
    ensures
        match receiver_of_kind(input.kind, input.takes_self_by_arc) {
            None => r matches Ok((c, rs)) && rs is None && callable_mapped(input, c, 0),
            Some((ty, by_arc)) => match r {
                Ok((c, rs)) => rs matches Some(s) && receiver_strategy_of(
                    0,
                    ty,
                    by_arc,
                    *context,
                    input.self_name_rs@,
                    Ok(s),
                    receiver_used(ty, by_arc),
                ) && callable_mapped(input, c, receiver_used(ty, by_arc)),
                Err(e) => receiver_strategy_of(0, ty, by_arc, *context, input.self_name_rs@, Err(e), 0),
            },
        },
{
    let ghost orig = input;
    let CallableInput {
        kind,
        takes_self_by_arc,
        self_name_rs,
        name,
        orig_name,
        is_async,
        arguments,
        result,
        fully_qualified_name_rs,
    } = input;
    let mut allocator = FfiArgAllocator::default();
    let receiver = match &kind {
        CallableKind::Method { self_type } => {
            let s = allocator.receiver_strategy_for_type(
                self_type,
                takes_self_by_arc,
                context,
                self_name_rs.as_str(),
            )?;
            proof {
                lemma_receiver_used(*self_type, takes_self_by_arc, *context, self_name_rs@, s, allocator@);
            }
            Some(s)
        },
        CallableKind::VTableMethod { self_type, .. } => {
            let s = allocator.receiver_strategy_for_type(
                self_type,
                false,
                context,
                self_name_rs.as_str(),
            )?;
            proof {
                lemma_receiver_used(*self_type, false, *context, self_name_rs@, s, allocator@);
            }
            Some(s)
        },
        _ => None,
    };
    let arguments = map_arguments(&mut allocator, arguments);
    let c = Callable { kind, name, orig_name, is_async, arguments, result, fully_qualified_name_rs };
    Ok((c, receiver))
}

/// The namespace and original name of a user-defined type.
pub open spec fn type_place(ty: Type) -> Option<(Seq<char>, Seq<char>)> {
    match ty {
        Type::Record { namespace, orig_name, .. } | Type::Enum { namespace, orig_name, .. }
        | Type::Interface { namespace, orig_name, .. } | Type::CallbackInterface {
            namespace,
            orig_name,
            ..
        } | Type::Custom { namespace, orig_name, .. } => Some((namespace@, orig_name@)),
        _ => None,
    }
}

/// The full Rust path of a method of the type `self_ty`: the module path of the type, the
/// type's name and the method's name (`self_name_rs` and `name_rs`, escaped where they are
/// Rust keywords).
pub open spec fn method_path_rs(
    self_ty: Type,
    self_name_rs: Seq<char>,
    name_rs: Seq<char>,
    ctx: Context,
    r: Result<String, BindgenError>,
) -> bool {
    match type_place(self_ty) {
        None => r == Err::<String, BindgenError>(BindgenError::InvalidCallableSelfType),
        Some((ns, orig)) => match module_path_of(ctx, ns, orig) {
            Some(p) => r matches Ok(s) && s@ == p + "::"@ + self_name_rs + "::"@ + name_rs,
            None => r matches Err(BindgenError::ModulePathNotFound(a, b)) && a@ == ns && b@ == orig,
        },
    }
}

/// The full Rust path of a method, constructor or vtable method of the type `self_ty`.
/// `self_name_rs` and `name_rs` are the type's and the callable's original names, escaped
/// where they are Rust keywords.
pub fn fully_qualified_method_name_rs(
    self_ty: &Type,
    self_name_rs: &str,
    name_rs: &str,
    context: &Context,
) -> (r: Result<String, BindgenError>)
    ensures
        method_path_rs(*self_ty, self_name_rs@, name_rs@, *context, r),
{
    let (namespace, orig_name) = match self_ty {
        Type::Record { namespace, orig_name, .. } | Type::Enum { namespace, orig_name, .. }
        | Type::Interface { namespace, orig_name, .. } | Type::CallbackInterface {
            namespace,
            orig_name,
            ..
        } | Type::Custom { namespace, orig_name, .. } => (namespace, orig_name),
        _ => return Err(BindgenError::InvalidCallableSelfType),
    };
    let path = context.module_path_for_type(namespace.as_str(), orig_name.as_str())?;
    proof {
        reveal_strlit("::");
    }
    let mut s = String::from_str(path);
    s.append("::");
    s.append(self_name_rs);
    s.append("::");
    s.append(name_rs);
    Ok(s)
}

/// The full Rust path of a callable.  A function is named in its own module, whose path
/// (`function_module_path`) is known for the current namespace; a method, constructor or
/// vtable method is named under its type.  `self_name_rs` and `name_rs` are the type's and the
/// callable's original names, escaped where they are Rust keywords.
pub fn fully_qualified_name_rs(
    kind: &CallableKind,
    function_module_path: &str,
    self_name_rs: &str,
    name_rs: &str,
    context: &Context,
) -> (r: Result<String, BindgenError>)
    ensures
        match *kind {
            CallableKind::Function => match context.current_namespace_name {
                None => r == Err::<String, BindgenError>(BindgenError::CurrentNamespaceNameNotSet),
                Some(_) => r matches Ok(s) && s@ == function_module_path@ + "::"@ + name_rs@,
            },
            CallableKind::Method { self_type } | CallableKind::Constructor { self_type, .. }
            | CallableKind::VTableMethod { self_type, .. } => method_path_rs(
                self_type.ty,
                self_name_rs@,
                name_rs@,
                *context,
                r,
            ),
        },
{
    match kind {
        CallableKind::Function => {
            context.namespace_name()?;
            proof {
                reveal_strlit("::");
            }
            let mut s = String::from_str(function_module_path);
            s.append("::");
            s.append(name_rs);
            Ok(s)
        },
        CallableKind::Method { self_type } | CallableKind::Constructor { self_type, .. }
        | CallableKind::VTableMethod { self_type, .. } => fully_qualified_method_name_rs(
            &self_type.ty,
            self_name_rs,
            name_rs,
            context,
        ),
    }
}

/// A JNI method name is made for every callable with a receiver (a method or a vtable method)
/// whose receiver is a user-defined type, and for every constructor of one: the type whose
/// name goes in the method name is the receiver's (the constructed) type.  Functions get no
/// type name.
pub proof fn law_jni_method_names_follow_the_receiver(kind: CallableKind, by_arc: bool)
    ensures
        match receiver_of_kind(kind, by_arc) {
            Some((ty, _)) => self_type_name(kind, false) == user_type_name(ty.ty),
            None => self_type_name(kind, false) is None,
        },
        kind is Constructor ==> self_type_name(kind, true) == user_type_name(kind->Constructor_self_type.ty),
        !(kind is Constructor) ==> self_type_name(kind, true) is None,
{
}

/// The name of the JNI method of a function, constructor or method: the kind, then the
/// crate, the type (for constructors and methods) and the callable, each in upper camel case.
pub open spec fn jni_method_name_of(kind: Seq<char>, crate_name: Seq<char>, self_name_opt: Option<Seq<char>>, name: Seq<char>) -> Seq<char> {
    match self_name_opt {
        Some(t) => kind + upper_camel_case(crate_name) + upper_camel_case(t) + upper_camel_case(name),
        None => kind + upper_camel_case(crate_name) + upper_camel_case(name),
    }
}

/// The result of a JNI method name for the current crate of `context`.
pub open spec fn jni_method_name_result(
    r: Result<String, BindgenError>,
    context: Context,
    kind: Seq<char>,
    self_name_opt: Option<Seq<char>>,
    name: Seq<char>,
) -> bool {
    match context.current_crate_name {
        Some(c) => r matches Ok(s) && s@ == jni_method_name_of(kind, c@, self_name_opt, name),
        None => r == Err::<String, BindgenError>(BindgenError::CurrentCrateNameNotSet),
    }
}

fn jni_method_name(kind: &str, crate_name: &str, self_name_opt: Option<&str>, name: &str) -> (s: String)
    ensures
        s@ == jni_method_name_of(
            kind@,
            crate_name@,
            match self_name_opt {
                Some(t) => Some(t@),
                None => None,
            },
            name@,
        ),
{
    let mut s = String::from_str(kind);
    s.append(to_upper_camel_case(crate_name).as_str());
    if let Some(t) = self_name_opt {
        s.append(to_upper_camel_case(t).as_str());
    }
    s.append(to_upper_camel_case(name).as_str());
    s
}

pub fn function_jni_method_name(func: &Function, context: &Context) -> (r: Result<String, BindgenError>)
    ensures
        jni_method_name_result(r, *context, "function"@, None, func.callable.name@),
{
    let crate_name = context.current_crate_name()?;
    Ok(jni_method_name("function", crate_name, None, func.callable.name.as_str()))
}

/// The name of the type that a constructor builds or that a method is called on.
pub open spec fn self_type_name(kind: CallableKind, constructor: bool) -> Option<Seq<char>> {
    match kind {
        CallableKind::Constructor { self_type, .. } if constructor => user_type_name(self_type.ty),
        CallableKind::Method { self_type } if !constructor => user_type_name(self_type.ty),
        CallableKind::VTableMethod { self_type, .. } if !constructor => user_type_name(self_type.ty),
        _ => None,
    }
}

pub fn constructor_jni_method_name(cons: &Constructor, context: &Context) -> (r: Result<String, BindgenError>)
    ensures
        match self_type_name(cons.callable.kind, true) {
            Some(t) => jni_method_name_result(r, *context, "constructor"@, Some(t), cons.callable.name@),
            None => r == Err::<String, BindgenError>(BindgenError::InvalidCallableKind),
        },
{
    let self_ty = match &cons.callable.kind {
        CallableKind::Constructor { self_type, .. } => self_type,
        _ => return Err(BindgenError::InvalidCallableKind),
    };
    let self_name = match self_ty.ty.name() {
        Some(n) => n,
        None => return Err(BindgenError::InvalidCallableKind),
    };
    let crate_name = context.current_crate_name()?;
    Ok(jni_method_name("constructor", crate_name, Some(self_name), cons.callable.name.as_str()))
}

pub fn method_jni_method_name(meth: &Method, context: &Context) -> (r: Result<String, BindgenError>)
    ensures
        match self_type_name(meth.callable.kind, false) {
            Some(t) => jni_method_name_result(r, *context, "method"@, Some(t), meth.callable.name@),
            None => r == Err::<String, BindgenError>(BindgenError::InvalidCallableKind),
        },
{
    let self_ty = match &meth.callable.kind {
        CallableKind::Method { self_type, .. } | CallableKind::VTableMethod { self_type, .. } => self_type,
        _ => return Err(BindgenError::InvalidCallableKind),
    };
    let self_name = match self_ty.ty.name() {
        Some(n) => n,
        None => return Err(BindgenError::InvalidCallableKind),
    };
    let crate_name = context.current_crate_name()?;
    Ok(jni_method_name("method", crate_name, Some(self_name), meth.callable.name.as_str()))
}

} // verus!
