use uniffi_jni_core::export::{
    check_constructor_export, check_fn_export, check_method_export, check_trait_export,
    ExportError, TraitItem,
};

fn item(name: &str, kind: &str, is_constructor: bool, is_trait_method: bool, has_receiver: bool, is_async: bool) -> TraitItem {
    TraitItem {
        name: name.to_string(),
        kind: kind.to_string(),
        is_constructor,
        is_trait_method,
        has_receiver,
        is_async,
    }
}

fn method(is_async: bool, has_receiver: bool) -> TraitItem {
    item("area", "TraitMethod { index: 0 }", false, true, has_receiver, is_async)
}

#[test]
fn function_exports() {
    assert_eq!(check_fn_export(false, false, false), Ok(()));
    assert_eq!(check_fn_export(false, true, true), Ok(()));
    assert_eq!(check_fn_export(true, true, false), Err(ExportError::UnexpectedSelfParam));
    assert_eq!(check_fn_export(false, false, true), Err(ExportError::AsyncRuntimeOnSyncFunction));
}

#[test]
fn constructor_and_method_exports() {
    assert_eq!(check_constructor_export(false, false), Ok(()));
    assert_eq!(check_constructor_export(true, true), Err(ExportError::ConstructorWithSelf));
    assert_eq!(check_constructor_export(false, true), Err(ExportError::AsyncConstructor));
    assert_eq!(check_method_export(true), Ok(()));
    assert_eq!(check_method_export(false), Err(ExportError::AssociatedFunction));
}

#[test]
fn trait_exports() {
    assert_eq!(check_trait_export(false, &[method(false, true), method(false, true)]), Ok(()));
    assert_eq!(check_trait_export(true, &[]), Err(ExportError::AsyncRuntimeOnTrait));
    let constructor = item("new", "Constructor", true, false, false, false);
    // A constructor is refused before any method is looked at
    assert_eq!(
        check_trait_export(false, &[method(true, true), constructor]),
        Err(ExportError::ConstructorInTrait)
    );
    // The foreign implementation's checks come before the scaffolding's
    assert_eq!(
        check_trait_export(false, &[method(true, true), method(false, false)]),
        Err(ExportError::CallbackMethodWithoutSelf)
    );
    assert_eq!(
        check_trait_export(false, &[method(false, true), method(true, true)]),
        Err(ExportError::AsyncTraitMethod)
    );
    let odd = item("area", "Function", false, false, true, false);
    let e = check_trait_export(false, &[odd]);
    assert_eq!(
        e,
        Err(ExportError::UnexpectedTraitFunctionKind(String::from("area"), String::from("Function")))
    );
    assert_eq!(
        e.unwrap_err().message(),
        "Internal UniFFI error: Unexpected function kind for callback interface area: Function"
    );
}

#[test]
fn export_error_messages() {
    assert_eq!(ExportError::AsyncConstructor.message(), "constructors can't be async");
    assert_eq!(
        ExportError::CallbackMethodWithoutSelf.message(),
        "callback interface methods must take &self as their first argument"
    );
    assert_eq!(ExportError::AsyncRuntimeOnTrait.message(), "not supported for traits");
}
