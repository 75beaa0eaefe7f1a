//! JNI signatures of the methods that Rust calls on Kotlin callback objects.

use vstd::prelude::*;
use crate::ffitypes::{FfiType, ffi_jni_signature};
use crate::context::Context;
use crate::error::BindgenError;
use crate::names::{snake_case, to_snake_case, to_upper_camel_case, upper_camel_case};
use crate::nodes::{
    Callable, CallableKind, CallbackMethod, FfiArgument, LowerableType, ReturnStrategy, ffi_args_of,
    uses_buffer_of,
};

verus! {

/// The JNI signatures of a sequence of FFI arguments, one after the other.
pub open spec fn arg_signatures(args: Seq<FfiArgument>) -> Seq<char>
    decreases args.len(),
{
    if args.len() == 0 {
        seq![]
    } else {
        arg_signatures(args.drop_last()) + ffi_jni_signature(args.last().ty)
    }
}

/// The JNI signature of a callback method: the callback handle, the buffer handle when the
/// call uses one, the future handle of an async call or the return value pointer of one that
/// can throw, then the primitive arguments; it returns the primitive return value of a sync
/// call, or nothing.
pub open spec fn callback_jni_signature(c: Callable) -> Seq<char> {
    let handles = "J"@ + (if uses_buffer_of(c) {
        "J"@
    } else {
        seq![]
    }) + (if c.is_async || c.result.throws_type is Some {
        "J"@
    } else {
        seq![]
    });
    let ret = match c.result.return_type {
        Some(t) if !c.is_async => match t.lowerable {
            Some(LowerableType::Primitive(f)) => ffi_jni_signature(f),
            _ => "V"@,
        },
        _ => "V"@,
    };
    "("@ + handles + arg_signatures(ffi_args_of(c.arguments@)) + ")"@ + ret
}

/// The JNI signature of a callback method.
///
/// Return strategies here are a buffer, a primitive or nothing, so the return value pointer is
/// passed exactly when the call can throw.
pub fn jni_signature(callable: &Callable) -> (s: String)
    ensures
        s@ == callback_jni_signature(*callable),
{
    let mut args = String::from_str("(J");
    if callable.uses_buffer() {
        // Buffer handle
        args.append("J");
    }
    if callable.is_async {
        // Future handle
        args.append("J");
    } else if callable.throws_type().is_some() {
        // Return value pointer
        args.append("J");
    }
    proof {
        reveal_strlit("(J");
        reveal_strlit("(");
        reveal_strlit("J");
        assert("(J"@ =~= "("@ + "J"@);
    }
    // Arg for each primitive arg
    let ffi_args = callable.ffi_arguments();
    let ghost start = args@;
    let mut i: usize = 0;
    while i < ffi_args.len()
        invariant
            i <= ffi_args@.len(),
            args@ == start + arg_signatures(ffi_args@.subrange(0, i as int)),
        decreases ffi_args@.len() - i,
    {
        args.append(ffi_args[i].ty.jni_signature());
        i = i + 1;
        proof {
            assert(ffi_args@.subrange(0, i as int).drop_last() =~= ffi_args@.subrange(0, i - 1));
        }
    }
    proof {
        assert(ffi_args@.subrange(0, i as int) =~= ffi_args@);
    }
    let ret: &str = match (callable.is_async, callable.return_strategy()) {
        (false, ReturnStrategy::Primitive(_, ffi_type)) => ffi_type.jni_signature(),
        _ => "V",
    };
    args.append(")");
    args.append(ret);
    args
}

/// The method that makes the call, for the `CachedMethod` and `CachedStaticMethod` types.
pub open spec fn jni_method_call_name_of(c: Callable) -> Seq<char> {
    match c.result.return_type {
        Some(t) => match t.lowerable {
            Some(LowerableType::Primitive(f)) => match f {
                FfiType::Int8 | FfiType::UInt8 => "call_byte"@,
                FfiType::Int16 | FfiType::UInt16 => "call_short"@,
                FfiType::Int32 | FfiType::UInt32 => "call_int"@,
                FfiType::Int64 | FfiType::UInt64 => "call_long"@,
                FfiType::Float32 => "call_float"@,
                FfiType::Float64 => "call_double"@,
                FfiType::Boolean => "call_boolean"@,
                FfiType::String | FfiType::NullableString => "call_object"@,
            },
            Some(LowerableType::Deconstructable(_)) => "call_object"@,
            None => "call_void"@,
        },
        None => "call_void"@,
    }
}

/// Method name to make the call, for the `CachedMethod` and `CachedStaticMethod` types.
pub fn jni_method_call_name(callable: &Callable) -> (s: String)
    ensures
        s@ == jni_method_call_name_of(*callable),
{
    let lit = match callable.return_type() {
        Some(type_node) => match &type_node.lowerable {
            Some(LowerableType::Primitive(ffi_type)) => match ffi_type {
                FfiType::Int8 | FfiType::UInt8 => "call_byte",
                FfiType::Int16 | FfiType::UInt16 => "call_short",
                FfiType::Int32 | FfiType::UInt32 => "call_int",
                FfiType::Int64 | FfiType::UInt64 => "call_long",
                FfiType::Float32 => "call_float",
                FfiType::Float64 => "call_double",
                FfiType::Boolean => "call_boolean",
                FfiType::String | FfiType::NullableString => "call_object",
            },
            Some(LowerableType::Deconstructable(_)) => "call_object",
            None => "call_void",
        },
        None => "call_void",
    };
    String::from_str(lit)
}

/// Whether a callable can be a method of a callback interface: a method or a vtable method.
pub open spec fn is_callback_kind(kind: CallableKind) -> bool {
    kind is Method || kind is VTableMethod
}

/// The callable as a method of a callback interface: a vtable method for the callback
/// interface, on the same type.
pub open spec fn as_callback_method(c: Callable, m: Callable) -> bool {
    &&& m.name == c.name
    &&& m.orig_name == c.orig_name
    &&& m.is_async == c.is_async
    &&& m.arguments == c.arguments
    &&& m.result == c.result
    &&& m.fully_qualified_name_rs == c.fully_qualified_name_rs
    &&& match c.kind {
        CallableKind::Method { self_type } | CallableKind::VTableMethod { self_type, .. } => m.kind
            == (CallableKind::VTableMethod { self_type, for_callback_interface: true }),
        _ => false,
    }
}

/// Whether `m` is the callback method of callable `c` of interface `interface_name`, in
/// namespace `namespace`.
pub open spec fn callback_method_of(
    c: Callable,
    namespace: Seq<char>,
    interface_name: Seq<char>,
    m: CallbackMethod,
) -> bool {
    &&& as_callback_method(c, m.callable)
    &&& m.dispatch_fn_rs@ == "uniffi_callback_dispatch_"@ + snake_case(namespace) + "_"@
        + snake_case(interface_name) + "_"@ + snake_case(c.name@)
    &&& m.dispatch_fn_kt@ == "callbackInterface"@ + upper_camel_case(namespace) + upper_camel_case(
        interface_name,
    ) + upper_camel_case(c.name@)
    &&& m.jni_signature@ == callback_jni_signature(m.callable)
    &&& m.jni_method_call_name@ == jni_method_call_name_of(m.callable)
}

/// Map the methods of a callback interface (or of a trait interface that the foreign code can
/// implement): each becomes a vtable method for the callback interface, with the names of its
/// dispatch functions and its JNI signature.
///
/// Fails on the first callable that is not a method, and when the current namespace is not
/// set (and there is a method).
pub fn map_methods(interface_name: &str, methods: Vec<Callable>, context: &Context) -> (r: Result<
    Vec<CallbackMethod>,
    BindgenError,
>)
    ensures
        methods@.len() == 0 ==> (r matches Ok(v) && v@.len() == 0),
        methods@.len() > 0 && context.current_namespace_name is None ==> r == Err::<
            Vec<CallbackMethod>,
            BindgenError,
        >(
            if is_callback_kind(methods@[0].kind) {
                BindgenError::CurrentNamespaceNameNotSet
            } else {
                BindgenError::InvalidCallbackMethodKind
            },
        ),
        context.current_namespace_name matches Some(ns) ==> match r {
            Ok(v) => {
                &&& v@.len() == methods@.len()
                &&& forall|i: int|
                    0 <= i < methods@.len() ==> callback_method_of(
                        methods@[i],
                        ns@,
                        interface_name@,
                        #[trigger] v@[i],
                    )
            },
            Err(e) => e == BindgenError::InvalidCallbackMethodKind && exists|i: int|
                0 <= i < methods@.len() && !is_callback_kind(#[trigger] methods@[i].kind),
        },
{
    let ghost all = methods@;
    let mut rest = methods;
    let mut mapped: Vec<CallbackMethod> = Vec::new();
    proof {
        reveal_strlit("uniffi_callback_dispatch_");
        reveal_strlit("_");
        reveal_strlit("callbackInterface");
    }
    while rest.len() > 0
        invariant
            all == methods@,
            mapped@.len() + rest@.len() == all.len(),
            rest@ == all.skip(mapped@.len() as int),
            context.current_namespace_name matches Some(ns) ==> forall|i: int|
                0 <= i < mapped@.len() ==> callback_method_of(
                    all[i],
                    ns@,
                    interface_name@,
                    #[trigger] mapped@[i],
                ),
            mapped@.len() > 0 ==> context.current_namespace_name is Some,
        decreases rest@.len(),
    {
        let ghost k = mapped@.len();
        let callable = rest.remove(0);
        proof {
            assert(all.skip(k as int)[0] == all[k as int]);
            assert(rest@ =~= all.skip(k + 1 as int));
        }
        let Callable { kind, name, orig_name, is_async, arguments, result, fully_qualified_name_rs } =
            callable;
        let kind = match kind {
            CallableKind::VTableMethod { self_type, .. } | CallableKind::Method { self_type } => {
                CallableKind::VTableMethod { self_type, for_callback_interface: true }
            },
            _ => {
                return Err(BindgenError::InvalidCallbackMethodKind);
            },
        };
        let callable = Callable { kind, name, orig_name, is_async, arguments, result, fully_qualified_name_rs };
        let namespace = context.namespace_name()?;
        let mut dispatch_fn_rs = String::from_str("uniffi_callback_dispatch_");
        dispatch_fn_rs.append(to_snake_case(namespace).as_str());
        dispatch_fn_rs.append("_");
        dispatch_fn_rs.append(to_snake_case(interface_name).as_str());
        dispatch_fn_rs.append("_");
        dispatch_fn_rs.append(to_snake_case(callable.name.as_str()).as_str());
        let mut dispatch_fn_kt = String::from_str("callbackInterface");
        dispatch_fn_kt.append(to_upper_camel_case(namespace).as_str());
        dispatch_fn_kt.append(to_upper_camel_case(interface_name).as_str());
        dispatch_fn_kt.append(to_upper_camel_case(callable.name.as_str()).as_str());
        let jni_signature = jni_signature(&callable);
        let jni_method_call_name = jni_method_call_name(&callable);
        mapped.push(
            CallbackMethod {
                callable,
                jni_signature,
                jni_method_call_name,
                dispatch_fn_rs,
                dispatch_fn_kt,
            },
        );
    }
    Ok(mapped)
}

} // verus!
