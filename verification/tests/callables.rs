use uniffi_jni_core::callables::{
    ArgumentInput, CallableInput, FfiArgAllocator, ReceiverStrategy, fully_qualified_method_name_rs,
    fully_qualified_name_rs, map_callable, constructor_jni_method_name,
    function_jni_method_name, map_arguments, method_jni_method_name, MAX_PRIMITIVE_ARGS,
};
use uniffi_jni_core::callbacks::{jni_method_call_name, jni_signature};
use uniffi_jni_core::context::Context;
use uniffi_jni_core::error::BindgenError;
use uniffi_jni_core::ffitypes::{FfiType, ObjectImpl, Type};
use uniffi_jni_core::nodes::{
    ArgStrategy, Argument, Callable, CallableKind, CallableResult, Constructor, DefaultValue,
    DefaultValueNode, Literal, Radix,
    FfiArgument, Function, LowerableType, Method, TypeNode,
};

fn node(ty: Type, type_kt: &str, type_rs: &str, id: usize, lowerable: Option<LowerableType>) -> TypeNode {
    TypeNode {
        is_used_as_error: false,
        has_from_unexpected_callback_error_impl: false,
        ty,
        type_kt: type_kt.to_string(),
        type_rs: type_rs.to_string(),
        id,
        lowerable,
    }
}

fn int_node() -> TypeNode {
    node(Type::Int32, "kotlin.Int", "i32", 1, Some(LowerableType::Primitive(FfiType::Int32)))
}

fn point_node() -> TypeNode {
    node(
        Type::Record {
            namespace: String::from("geo"),
            name: String::from("Point"),
            orig_name: String::from("Point"),
        },
        "geo.Point",
        "geo_crate::Point",
        2,
        Some(LowerableType::Deconstructable(vec![FfiType::Int32, FfiType::Float64])),
    )
}

fn bytes_node() -> TypeNode {
    node(Type::Bytes, "kotlin.ByteArray", "::std::vec::Vec<u8>", 3, None)
}

fn shape_node(imp: ObjectImpl) -> TypeNode {
    node(
        Type::Interface {
            namespace: String::from("geo"),
            name: String::from("Shape"),
            orig_name: String::from("Shape"),
            imp,
        },
        "geo.Shape",
        "::std::sync::Arc<geo_crate::Shape>",
        4,
        None,
    )
}

fn context() -> Context {
    Context {
        package_map: vec![(String::from("geo"), String::from("geo"))],
        crate_map: vec![(String::from("geo"), String::from("geo_crate"))],
        type_module_paths: vec![(
            String::from("geo"),
            vec![(String::from("Shape"), String::from("geo_crate::shapes"))],
        )],
        type_id_map: vec![],
        current_crate_name: Some(String::from("geo_crate")),
        current_namespace_name: Some(String::from("geo")),
    }
}

fn input(name: &str, ty: TypeNode) -> ArgumentInput {
    ArgumentInput {
        name: name.to_string(),
        orig_name: name.to_string(),
        ty,
        by_ref: false,
        optional: false,
        default: None,
    }
}

fn names(args: &[FfiArgument]) -> Vec<String> {
    args.iter().map(|a| a.name.clone()).collect()
}

fn callable(kind: CallableKind, arguments: Vec<Argument>, result: CallableResult) -> Callable {
    Callable {
        kind,
        name: String::from("move_by"),
        orig_name: String::from("move_by"),
        is_async: false,
        arguments,
        result,
        fully_qualified_name_rs: String::from("geo_crate::move_by"),
    }
}

fn no_result() -> CallableResult {
    CallableResult { return_type: None, throws_type: None, id: 5 }
}

#[test]
fn allocator_names_arguments_in_order() {
    let mut a = FfiArgAllocator::default();
    assert_eq!(a.next(), "uniffi_arg_0");
    assert_eq!(a.next(), "uniffi_arg_1");
    assert_eq!(a.next(), "uniffi_arg_2");
}

#[test]
fn strategies_for_types() {
    let mut a = FfiArgAllocator::default();
    match a.strategy_for_type(&int_node()) {
        ArgStrategy::Primitive(arg) => {
            assert_eq!(arg.name, "uniffi_arg_0");
            assert_eq!(arg.ty, FfiType::Int32);
        }
        _ => panic!("expected a primitive argument"),
    }
    match a.strategy_for_type(&point_node()) {
        ArgStrategy::Deconstruct(args) => {
            assert_eq!(names(&args), vec!["uniffi_arg_1", "uniffi_arg_2"]);
            assert_eq!(args[1].ty, FfiType::Float64);
        }
        _ => panic!("expected a deconstructed argument"),
    }
    assert!(matches!(a.strategy_for_type(&bytes_node()), ArgStrategy::FfiBuffer));
    assert_eq!(a.next(), "uniffi_arg_3");
}

#[test]
fn arguments_past_the_limit_go_in_the_buffer() {
    let mut a = FfiArgAllocator::default();
    for _ in 0..MAX_PRIMITIVE_ARGS - 1 {
        a.next();
    }
    // One argument is left: a deconstructed type of two values no longer fits
    assert!(a.can_lower_args(&LowerableType::Primitive(FfiType::Int8)));
    assert!(!a.can_lower_args(&LowerableType::Deconstructable(vec![FfiType::Int8, FfiType::Int8])));
    assert!(matches!(a.strategy_for_type(&point_node()), ArgStrategy::FfiBuffer));
    assert!(matches!(a.strategy_for_type(&int_node()), ArgStrategy::Primitive(_)));
    assert!(!a.can_lower_args(&LowerableType::Primitive(FfiType::Int8)));
    assert!(matches!(a.strategy_for_type(&int_node()), ArgStrategy::FfiBuffer));
}

#[test]
fn receivers_of_interfaces_are_handles() {
    let ctx = context();
    let mut a = FfiArgAllocator::default();
    match a.receiver_strategy_for_type(&shape_node(ObjectImpl::Struct), false, &ctx, "Shape") {
        Ok(ReceiverStrategy::InterfaceRef(name, arg)) => {
            assert_eq!(name, "geo_crate::shapes::Shape");
            assert_eq!(arg.name, "uniffi_arg_0");
            assert_eq!(arg.ty, FfiType::Int64);
        }
        _ => panic!("expected an interface reference"),
    }
    match a.receiver_strategy_for_type(&shape_node(ObjectImpl::Trait), false, &ctx, "r#Shape") {
        Ok(ReceiverStrategy::TraitInterfaceRef(name, first, second)) => {
            assert_eq!(name, "geo_crate::shapes::r#Shape");
            assert_eq!(first.name, "uniffi_arg_1");
            assert_eq!(second.name, "uniffi_arg_2");
        }
        _ => panic!("expected a trait interface reference"),
    }
    // Taken by Arc, an interface is passed like an argument: in the buffer here
    match a.receiver_strategy_for_type(&shape_node(ObjectImpl::Struct), true, &ctx, "Shape") {
        Ok(ReceiverStrategy::Arg(ArgStrategy::FfiBuffer)) => {}
        _ => panic!("expected a buffer argument"),
    }
    match a.receiver_strategy_for_type(&point_node(), false, &ctx, "Point") {
        Ok(ReceiverStrategy::Arg(ArgStrategy::Deconstruct(args))) => {
            assert_eq!(names(&args), vec!["uniffi_arg_3", "uniffi_arg_4"]);
        }
        _ => panic!("expected a deconstructed argument"),
    }
}

#[test]
fn receiver_of_unknown_interface_is_an_error() {
    let mut ctx = context();
    ctx.type_module_paths.clear();
    let mut a = FfiArgAllocator::default();
    match a.receiver_strategy_for_type(&shape_node(ObjectImpl::Struct), false, &ctx, "Shape") {
        Err(e) => assert_eq!(
            e,
            BindgenError::ModulePathNotFound(String::from("geo"), String::from("Shape"))
        ),
        Ok(_) => panic!("expected an error"),
    }
    assert_eq!(a.next(), "uniffi_arg_0");
}

#[test]
fn arguments_are_mapped_in_order() {
    let mut a = FfiArgAllocator::default();
    let mapped = map_arguments(
        &mut a,
        vec![input("x", int_node()), input("data", bytes_node()), input("at", point_node())],
    );
    assert_eq!(mapped.len(), 3);
    assert_eq!(mapped[0].name, "x");
    assert_eq!(mapped[1].name, "data");
    assert_eq!(mapped[2].name, "at");
    assert!(matches!(&mapped[0].strategy, ArgStrategy::Primitive(arg) if arg.name == "uniffi_arg_0"));
    assert!(mapped[1].uses_buffer());
    match &mapped[2].strategy {
        ArgStrategy::Deconstruct(args) => assert_eq!(names(args), vec!["uniffi_arg_1", "uniffi_arg_2"]),
        _ => panic!("expected a deconstructed argument"),
    }
    assert_eq!(a.next(), "uniffi_arg_3");
}

#[test]
fn jni_method_names() {
    let ctx = context();
    let f = Function {
        jni_method_name: String::new(),
        rust_module_path: String::from("geo_crate"),
        docstring: None,
        callable: callable(CallableKind::Function, vec![], no_result()),
    };
    assert_eq!(function_jni_method_name(&f, &ctx).unwrap(), "functionGeoCrateMoveBy");
    let c = Constructor {
        jni_method_name: String::new(),
        callable: callable(
            CallableKind::Constructor { self_type: shape_node(ObjectImpl::Struct), primary: true },
            vec![],
            no_result(),
        ),
        docstring: None,
    };
    assert_eq!(constructor_jni_method_name(&c, &ctx).unwrap(), "constructorGeoCrateShapeMoveBy");
    let m = Method {
        jni_method_name: String::new(),
        callable: callable(
            CallableKind::Method { self_type: shape_node(ObjectImpl::Struct) },
            vec![],
            no_result(),
        ),
        docstring: None,
    };
    assert_eq!(method_jni_method_name(&m, &ctx).unwrap(), "methodGeoCrateShapeMoveBy");
    let wrong = Method {
        jni_method_name: String::new(),
        callable: callable(CallableKind::Function, vec![], no_result()),
        docstring: None,
    };
    assert_eq!(method_jni_method_name(&wrong, &ctx), Err(BindgenError::InvalidCallableKind));
    let mut no_crate = context();
    no_crate.current_crate_name = None;
    assert_eq!(
        function_jni_method_name(&f, &no_crate),
        Err(BindgenError::CurrentCrateNameNotSet)
    );
}

fn mapped_args() -> Vec<Argument> {
    let mut a = FfiArgAllocator::default();
    let mut inputs = vec![input("first_value", int_node()), input("at", point_node())];
    inputs[0].default = Some(DefaultValueNode {
        default_kt: String::from("0"),
        default: DefaultValue::Literal(Literal::Int(0, Radix::Decimal, int_node())),
    });
    map_arguments(&mut a, inputs)
}

#[test]
fn callable_texts() {
    let c = callable(CallableKind::Function, mapped_args(), no_result());
    assert_eq!(c.name_kt(), "`moveBy`");
    assert_eq!(c.arg_list(), "`firstValue`: kotlin.Int = 0, `at`: geo.Point");
    assert_eq!(c.arg_list_no_defaults(), "`firstValue`: kotlin.Int , `at`: geo.Point");
    assert_eq!(
        names(&c.ffi_arguments()),
        vec!["uniffi_arg_0", "uniffi_arg_1", "uniffi_arg_2"]
    );
    assert!(!c.has_ffi_buffer_arg());
    assert!(!c.uses_buffer());
    assert!(!c.has_receiver());
    assert!(c.is_for_rust_function());
    assert!(!c.is_for_kotlin_function());
    assert!(!c.is_constructor());
}

#[test]
fn callable_results() {
    let r = CallableResult {
        return_type: Some(int_node()),
        throws_type: Some(point_node()),
        id: 8,
    };
    assert_eq!(r.return_type_rs(), "::std::result::Result<i32, geo_crate::Point>");
    assert_eq!(r.return_type_kt(), "kotlin.Int");
    assert!(r.return_strategy().is_primitive());
    assert_eq!(r.async_poll_fn(), "rustFuturePoll8");
    assert_eq!(r.async_await_future_fn(), "awaitRustFuture8");
    assert_eq!(r.async_complete_class(), "CompleteRustFuture8");
    assert_eq!(
        r.async_oneshot_type(),
        "uniffi::Result<::std::result::Result<i32, geo_crate::Point>>"
    );
    assert_eq!(
        r.async_rust_future_output(),
        "uniffi::Result<::std::result::Result<i32, (geo_crate::Point, ::std::option::Option<uniffi::FfiBuffer>)>>"
    );
    let unit = no_result();
    assert_eq!(unit.return_type_rs(), "()");
    assert_eq!(unit.return_type_kt(), "Unit");
    assert_eq!(unit.async_rust_future_output(), "uniffi::Result<()>");
    let buffered = CallableResult { return_type: Some(bytes_node()), throws_type: None, id: 1 };
    assert!(buffered.return_strategy().is_ffi_buffer());
    assert_eq!(buffered.async_rust_future_output(), "uniffi::Result<()>");
}

#[test]
fn callback_signatures() {
    let kind = CallableKind::VTableMethod {
        self_type: shape_node(ObjectImpl::CallbackTrait),
        for_callback_interface: true,
    };
    let plain = callable(kind, mapped_args(), CallableResult {
        return_type: Some(int_node()),
        throws_type: None,
        id: 1,
    });
    // Callback handle, buffer handle (a method has a receiver), then the FFI arguments
    assert_eq!(jni_signature(&plain), "(JJIID)I");
    assert_eq!(jni_method_call_name(&plain), "call_int");
    let kind = CallableKind::VTableMethod {
        self_type: shape_node(ObjectImpl::CallbackTrait),
        for_callback_interface: true,
    };
    let throwing = callable(kind, vec![], CallableResult {
        return_type: None,
        throws_type: Some(point_node()),
        id: 1,
    });
    assert_eq!(jni_signature(&throwing), "(JJJ)V");
    assert_eq!(jni_method_call_name(&throwing), "call_void");
}

#[test]
fn passing_arguments_to_rust() {
    let mut a = FfiArgAllocator::default();
    let mut inputs = vec![
        input("plain", int_node()),
        input("shape", shape_node(ObjectImpl::Trait)),
        input("obj", shape_node(ObjectImpl::Struct)),
    ];
    inputs[1].by_ref = true;
    inputs[2].by_ref = true;
    let args = map_arguments(&mut a, inputs);
    assert_eq!(args[0].pass_to_rust_fn("plain"), "plain");
    assert_eq!(args[1].pass_to_rust_fn("shape"), "&*shape");
    assert_eq!(args[2].pass_to_rust_fn("r#obj"), "&r#obj");
}

fn callable_input(kind: CallableKind) -> CallableInput {
    CallableInput {
        kind,
        takes_self_by_arc: false,
        self_name_rs: String::from("Shape"),
        name: String::from("move_by"),
        orig_name: String::from("move_by"),
        is_async: false,
        arguments: vec![input("dx", int_node()), input("at", point_node())],
        result: no_result(),
        fully_qualified_name_rs: String::from("geo_crate::shapes::Shape::move_by"),
    }
}

#[test]
fn callables_allocate_the_receiver_first() {
    let ctx = context();
    // A trait interface receiver takes two handle words, then the arguments follow
    let (c, receiver) = map_callable(
        callable_input(CallableKind::Method { self_type: shape_node(ObjectImpl::Trait) }),
        &ctx,
    )
    .unwrap();
    match receiver {
        Some(ReceiverStrategy::TraitInterfaceRef(ty, a, b)) => {
            assert_eq!(ty, "geo_crate::shapes::Shape");
            assert_eq!(a.name, "uniffi_arg_0");
            assert_eq!(b.name, "uniffi_arg_1");
        }
        _ => panic!("expected a trait interface receiver"),
    }
    assert_eq!(names(&c.ffi_arguments()), vec!["uniffi_arg_2", "uniffi_arg_3", "uniffi_arg_4"]);
    assert_eq!(c.name, "move_by");
    // A function has no receiver: its arguments start at 0
    let (f, receiver) = map_callable(callable_input(CallableKind::Function), &ctx).unwrap();
    assert!(receiver.is_none());
    match &f.arguments[0].strategy {
        ArgStrategy::Primitive(a) => assert_eq!(a.name, "uniffi_arg_0"),
        _ => panic!("expected a primitive argument"),
    }
    // A method taking its receiver by `Arc` passes it as an argument
    let mut by_arc = callable_input(CallableKind::Method { self_type: shape_node(ObjectImpl::Struct) });
    by_arc.takes_self_by_arc = true;
    let (_, receiver) = map_callable(by_arc, &ctx).unwrap();
    assert!(matches!(receiver, Some(ReceiverStrategy::Arg(ArgStrategy::FfiBuffer))));
    // A receiver whose module path is unknown is refused
    let mut lost = callable_input(CallableKind::VTableMethod {
        self_type: shape_node(ObjectImpl::Struct),
        for_callback_interface: false,
    });
    lost.arguments = vec![];
    let mut no_paths = context();
    no_paths.type_module_paths = vec![];
    assert!(matches!(
        map_callable(lost, &no_paths),
        Err(BindgenError::ModulePathNotFound(_, _))
    ));
}

#[test]
fn fully_qualified_rust_names() {
    let ctx = context();
    assert_eq!(
        fully_qualified_name_rs(&CallableKind::Function, "geo_crate::ops", "", "move_by", &ctx),
        Ok(String::from("geo_crate::ops::move_by"))
    );
    let method = CallableKind::Method { self_type: shape_node(ObjectImpl::Struct) };
    assert_eq!(
        fully_qualified_name_rs(&method, "geo_crate::ops", "Shape", "r#move", &ctx),
        Ok(String::from("geo_crate::shapes::Shape::r#move"))
    );
    assert_eq!(
        fully_qualified_method_name_rs(&Type::Int32, "i32", "abs", &ctx),
        Err(BindgenError::InvalidCallableSelfType)
    );
    let mut no_ns = context();
    no_ns.current_namespace_name = None;
    assert_eq!(
        fully_qualified_name_rs(&CallableKind::Function, "geo_crate::ops", "", "move_by", &no_ns),
        Err(BindgenError::CurrentNamespaceNameNotSet)
    );
    let point = point_node();
    assert_eq!(
        fully_qualified_method_name_rs(&point.ty, "Point", "norm", &ctx),
        Err(BindgenError::ModulePathNotFound(String::from("geo"), String::from("Point")))
    );
}
