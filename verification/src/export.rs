//! The checks that `#[uniffi::export]` makes of what it exports before it generates the
//! scaffolding: which signatures a function, a constructor, a method and a trait interface may
//! have.

use vstd::prelude::*;

verus! {

/// Why an item cannot be exported.
#[derive(Debug, Clone, PartialEq, Eq)]
pub enum ExportError {
    /// A free function with a `self` parameter.
    UnexpectedSelfParam,
    /// An async runtime given for a function that is not async.
    AsyncRuntimeOnSyncFunction,
    /// A constructor with a `self` parameter.
    ConstructorWithSelf,
    /// An async constructor.
    AsyncConstructor,
    /// A method without a `self` parameter.
    AssociatedFunction,
    /// An async runtime given for a trait.
    AsyncRuntimeOnTrait,
    /// A constructor in a trait interface.
    ConstructorInTrait,
    /// A trait method whose kind is not that of a trait method: its name, and its kind as the
    /// kind's `Debug` form writes it.
    UnexpectedTraitFunctionKind(String, String),
    /// A trait method without a `self` parameter, for the foreign implementation.
    CallbackMethodWithoutSelf,
    /// An async trait method.
    AsyncTraitMethod,
}

/// What the error says.
pub open spec fn export_error_message(e: ExportError) -> Seq<char> {
    match e {
        ExportError::UnexpectedSelfParam => "Unexpected self param (Note: uniffi::export must be used on the impl block, not its containing fn's)"@,
        ExportError::AsyncRuntimeOnSyncFunction => "this attribute is only allowed on async functions"@,
        ExportError::ConstructorWithSelf => "constructors must not have a self parameter"@,
        ExportError::AsyncConstructor => "constructors can't be async"@,
        ExportError::AssociatedFunction => "associated functions are not currently supported"@,
        ExportError::AsyncRuntimeOnTrait => "not supported for traits"@,
        ExportError::ConstructorInTrait => "Constructors not allowed in trait interfaces"@,
        ExportError::UnexpectedTraitFunctionKind(name, kind) => "Internal UniFFI error: Unexpected function kind for callback interface "@
            + name@ + ": "@ + kind@,
        ExportError::CallbackMethodWithoutSelf => "callback interface methods must take &self as their first argument"@,
        ExportError::AsyncTraitMethod => "async trait methods are not supported"@,
    }
}

impl ExportError {
    /// What the error says.
    pub fn message(&self) -> (s: String)
        ensures
            s@ == export_error_message(*self),
    {
        proof {
            reveal_strlit("Unexpected self param (Note: uniffi::export must be used on the impl block, not its containing fn's)");
            reveal_strlit("this attribute is only allowed on async functions");
            reveal_strlit("constructors must not have a self parameter");
            reveal_strlit("constructors can't be async");
            reveal_strlit("associated functions are not currently supported");
            reveal_strlit("not supported for traits");
            reveal_strlit("Constructors not allowed in trait interfaces");
            reveal_strlit("Internal UniFFI error: Unexpected function kind for callback interface ");
            reveal_strlit(": ");
            reveal_strlit("callback interface methods must take &self as their first argument");
            reveal_strlit("async trait methods are not supported");
        }
        let text = match self {
            ExportError::UnexpectedSelfParam => "Unexpected self param (Note: uniffi::export must be used on the impl block, not its containing fn's)",
            ExportError::AsyncRuntimeOnSyncFunction => "this attribute is only allowed on async functions",
            ExportError::ConstructorWithSelf => "constructors must not have a self parameter",
            ExportError::AsyncConstructor => "constructors can't be async",
            ExportError::AssociatedFunction => "associated functions are not currently supported",
            ExportError::AsyncRuntimeOnTrait => "not supported for traits",
            ExportError::ConstructorInTrait => "Constructors not allowed in trait interfaces",
            ExportError::UnexpectedTraitFunctionKind(name, kind) => {
                let mut s = String::from_str("Internal UniFFI error: Unexpected function kind for callback interface ");
                s.append(name.as_str());
                s.append(": ");
                s.append(kind.as_str());
                return s;
            },
            ExportError::CallbackMethodWithoutSelf => "callback interface methods must take &self as their first argument",
            ExportError::AsyncTraitMethod => "async trait methods are not supported",
        };
        String::from_str(text)
    }
}

/// A free function can be exported unless it takes `self`, or names an async runtime without
/// being async.
pub fn check_fn_export(has_receiver: bool, is_async: bool, has_async_runtime: bool) -> (r: Result<
    (),
    ExportError,
>)
    ensures
        r == (if has_receiver {
            Err(ExportError::UnexpectedSelfParam)
        } else if !is_async && has_async_runtime {
            Err(ExportError::AsyncRuntimeOnSyncFunction)
        } else {
            Ok(())
        }),
{
    if has_receiver {
        return Err(ExportError::UnexpectedSelfParam);
    }
    if !is_async && has_async_runtime {
        return Err(ExportError::AsyncRuntimeOnSyncFunction);
    }
    Ok(())
}

/// A constructor can be exported unless it takes `self` or is async.
pub fn check_constructor_export(has_receiver: bool, is_async: bool) -> (r: Result<(), ExportError>)
    ensures
        r == (if has_receiver {
            Err(ExportError::ConstructorWithSelf)
        } else if is_async {
            Err(ExportError::AsyncConstructor)
        } else {
            Ok(())
        }),
{
    if has_receiver {
        return Err(ExportError::ConstructorWithSelf);
    }
    if is_async {
        return Err(ExportError::AsyncConstructor);
    }
    Ok(())
}

/// A method can be exported only when it takes `self`.
pub fn check_method_export(has_receiver: bool) -> (r: Result<(), ExportError>)
    ensures
        r == (if has_receiver {
            Ok(())
        } else {
            Err(ExportError::AssociatedFunction)
        }),
{
    if !has_receiver {
        return Err(ExportError::AssociatedFunction);
    }
    Ok(())
}

/// An item of an exported trait, as the checks see it.
#[derive(Debug, Clone, PartialEq, Eq)]
pub struct TraitItem {
    pub name: String,
    /// The item's function kind, as the kind's `Debug` form writes it.
    pub kind: String,
    /// Whether the item is a constructor (else a method).
    pub is_constructor: bool,
    /// Whether the method's kind is that of a trait method.
    pub is_trait_method: bool,
    pub has_receiver: bool,
    pub is_async: bool,
}

/// The first error of the foreign implementation's methods: a method of the wrong kind or one
/// without `self`.
pub open spec fn foreign_method_error(items: Seq<TraitItem>) -> Option<ExportError>
    decreases items.len(),
{
    if items.len() == 0 {
        None
    } else if !items[0].is_trait_method {
        Some(ExportError::UnexpectedTraitFunctionKind(items[0].name, items[0].kind))
    } else if !items[0].has_receiver {
        Some(ExportError::CallbackMethodWithoutSelf)
    } else {
        foreign_method_error(items.drop_first())
    }
}

/// The first error of the trait's method scaffolding: an async method, or one without `self`.
pub open spec fn scaffolding_method_error(items: Seq<TraitItem>) -> Option<ExportError>
    decreases items.len(),
{
    if items.len() == 0 {
        None
    } else if items[0].is_async {
        Some(ExportError::AsyncTraitMethod)
    } else if !items[0].has_receiver {
        Some(ExportError::AssociatedFunction)
    } else {
        scaffolding_method_error(items.drop_first())
    }
}

/// What checking a trait gives: an async runtime is refused first, then any constructor, then
/// the first method that the foreign implementation cannot have, then the first method whose
/// scaffolding cannot be made.
pub open spec fn trait_export_check(has_async_runtime: bool, items: Seq<TraitItem>) -> Result<
    (),
    ExportError,
> {
    if has_async_runtime {
        Err(ExportError::AsyncRuntimeOnTrait)
    } else if exists|i: int| 0 <= i < items.len() && (#[trigger] items[i]).is_constructor {
        Err(ExportError::ConstructorInTrait)
    } else {
        match foreign_method_error(items) {
            Some(e) => Err(e),
            None => match scaffolding_method_error(items) {
                Some(e) => Err(e),
                None => Ok(()),
            },
        }
    }
}

/// Whether a trait item is a plain method: a trait method, with `self`, not async.
pub open spec fn plain_method(item: TraitItem) -> bool {
    !item.is_constructor && item.is_trait_method && item.has_receiver && !item.is_async
}

proof fn lemma_foreign_ok(items: Seq<TraitItem>)
    ensures
        foreign_method_error(items) is None <==> forall|i: int|
            0 <= i < items.len() ==> (#[trigger] items[i]).is_trait_method && items[i].has_receiver,
    decreases items.len(),
{
    if items.len() > 0 {
        lemma_foreign_ok(items.drop_first());
        assert forall|i: int| 0 < i < items.len() implies #[trigger] items[i] == items.drop_first()[i - 1] by {}
        if foreign_method_error(items.drop_first()) is None && items[0].is_trait_method && items[0].has_receiver {
            assert forall|i: int| 0 <= i < items.len() implies (#[trigger] items[i]).is_trait_method
                && items[i].has_receiver by {
                if i > 0 {
                    assert(items[i] == items.drop_first()[i - 1]);
                }
            }
        }
        if !(foreign_method_error(items.drop_first()) is None) && items[0].is_trait_method
            && items[0].has_receiver {
            let j = choose|j: int| 0 <= j < items.drop_first().len() && !(
            #[trigger] items.drop_first()[j].is_trait_method && items.drop_first()[j].has_receiver);
            assert(items[j + 1] == items.drop_first()[j]);
        }
    }
}

proof fn lemma_scaffolding_with_receivers(items: Seq<TraitItem>)
    requires
        forall|i: int| 0 <= i < items.len() ==> (#[trigger] items[i]).has_receiver,
    ensures
        scaffolding_method_error(items) == (if exists|i: int| 0 <= i < items.len() && (#[trigger] items[i]).is_async {
            Some(ExportError::AsyncTraitMethod)
        } else {
            None::<ExportError>
        }),
    decreases items.len(),
{
    if items.len() > 0 {
        let rest = items.drop_first();
        assert forall|i: int| 0 <= i < rest.len() implies (#[trigger] rest[i]).has_receiver by {
            assert(rest[i] == items[i + 1]);
        }
        lemma_scaffolding_with_receivers(rest);
        if exists|i: int| 0 <= i < rest.len() && (#[trigger] rest[i]).is_async {
            let j = choose|j: int| 0 <= j < rest.len() && (#[trigger] rest[j]).is_async;
            assert(items[j + 1] == rest[j]);
        }
        if exists|i: int| 0 <= i < items.len() && (#[trigger] items[i]).is_async {
            let j = choose|j: int| 0 <= j < items.len() && (#[trigger] items[j]).is_async;
            if j > 0 {
                assert(rest[j - 1] == items[j]);
            }
        }
    }
}

/// With no async runtime, no constructor and only trait methods that take `self`, a trait is
/// exported exactly when none of its methods is async; otherwise it is refused as having an
/// async method.  And any trait is exported exactly when all its items are plain methods.
pub proof fn law_async_trait_methods_are_refused(items: Seq<TraitItem>)
    ensures
        (forall|i: int| 0 <= i < items.len() ==> !(#[trigger] items[i]).is_constructor
            && items[i].is_trait_method && items[i].has_receiver) ==> trait_export_check(false, items)
            == (if exists|i: int| 0 <= i < items.len() && (#[trigger] items[i]).is_async {
            Err(ExportError::AsyncTraitMethod)
        } else {
            Ok(())
        }),
        trait_export_check(false, items) is Ok <==> forall|i: int|
            0 <= i < items.len() ==> plain_method(#[trigger] items[i]),
{
    lemma_foreign_ok(items);
    let all_receivers = forall|i: int| 0 <= i < items.len() ==> (#[trigger] items[i]).has_receiver;
    if all_receivers {
        lemma_scaffolding_with_receivers(items);
    }
    if trait_export_check(false, items) is Ok {
        assert(!exists|i: int| 0 <= i < items.len() && (#[trigger] items[i]).is_constructor);
        lemma_scaffolding_with_receivers(items);
        assert forall|i: int| 0 <= i < items.len() implies plain_method(#[trigger] items[i]) by {
            assert(items[i].is_trait_method && items[i].has_receiver);
            if items[i].is_async {
                assert(exists|j: int| 0 <= j < items.len() && (#[trigger] items[j]).is_async);
            }
            if items[i].is_constructor {
                assert(exists|j: int| 0 <= j < items.len() && (#[trigger] items[j]).is_constructor);
            }
        }
    }
    if forall|i: int| 0 <= i < items.len() ==> plain_method(#[trigger] items[i]) {
        assert forall|i: int| 0 <= i < items.len() implies (#[trigger] items[i]).has_receiver
            && items[i].is_trait_method && !items[i].is_async && !items[i].is_constructor by {
            assert(plain_method(items[i]));
        }
        lemma_scaffolding_with_receivers(items);
    }
}

/// The first error of the foreign implementation's methods, if any.
fn foreign_methods_check(items: &[TraitItem]) -> (r: Option<ExportError>)
    ensures
        r == foreign_method_error(items@),
{
    let mut i: usize = 0;
    assert(items@.skip(0) =~= items@);
    while i < items.len()
        invariant
            i <= items@.len(),
            foreign_method_error(items@) == foreign_method_error(items@.skip(i as int)),
        decreases items@.len() - i,
    {
        proof {
            assert(items@.skip(i as int)[0] == items@[i as int]);
            assert(items@.skip(i as int).drop_first() =~= items@.skip(i + 1 as int));
        }
        if !items[i].is_trait_method {
            return Some(ExportError::UnexpectedTraitFunctionKind(items[i].name.clone(), items[i].kind.clone()));
        }
        if !items[i].has_receiver {
            return Some(ExportError::CallbackMethodWithoutSelf);
        }
        i = i + 1;
    }
    None
}

/// The first error of the trait's method scaffolding, if any.
fn scaffolding_methods_check(items: &[TraitItem]) -> (r: Option<ExportError>)
    ensures
        r == scaffolding_method_error(items@),
{
    let mut i: usize = 0;
    assert(items@.skip(0) =~= items@);
    while i < items.len()
        invariant
            i <= items@.len(),
            scaffolding_method_error(items@) == scaffolding_method_error(items@.skip(i as int)),
        decreases items@.len() - i,
    {
        proof {
            assert(items@.skip(i as int)[0] == items@[i as int]);
            assert(items@.skip(i as int).drop_first() =~= items@.skip(i + 1 as int));
        }
        if items[i].is_async {
            return Some(ExportError::AsyncTraitMethod);
        }
        if !items[i].has_receiver {
            return Some(ExportError::AssociatedFunction);
        }
        i = i + 1;
    }
    None
}

/// Check an exported trait interface.
pub fn check_trait_export(has_async_runtime: bool, items: &[TraitItem]) -> (r: Result<
    (),
    ExportError,
>)
    ensures
        r == trait_export_check(has_async_runtime, items@),
{
    if has_async_runtime {
        return Err(ExportError::AsyncRuntimeOnTrait);
    }
    let mut i: usize = 0;
    while i < items.len()
        invariant
            !has_async_runtime,
            i <= items@.len(),
            forall|j: int| 0 <= j < i ==> !(#[trigger] items@[j]).is_constructor,
        decreases items@.len() - i,
    {
        if items[i].is_constructor {
            assert(items@[i as int].is_constructor);
            return Err(ExportError::ConstructorInTrait);
        }
        i = i + 1;
    }
    if let Some(e) = foreign_methods_check(items) {
        return Err(e);
    }
    match scaffolding_methods_check(items) {
        Some(e) => Err(e),
        None => Ok(()),
    }
}

} // verus!
