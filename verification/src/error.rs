//! Errors of the bindings pipeline.

use vstd::prelude::*;

verus! {

/// Why a step of the bindings pipeline failed.
#[derive(Debug, PartialEq, Eq)]
pub enum BindgenError {
    /// "current_crate_name not set"
    CurrentCrateNameNotSet,
    /// "current_namespace_name not set"
    CurrentNamespaceNameNotSet,
    /// "package name not found: {namespace_name}"
    PackageNameNotFound(String),
    /// "crate name not found: {namespace_name}"
    CrateNameNotFound(String),
    /// "module path not found: {namespace}:{type_orig_name}"
    ModulePathNotFound(String, String),
    /// "Invalid method callable kind: {:?}", for a constructor or method whose callable kind
    /// does not fit.
    InvalidCallableKind,
    /// "Can't generate DeconstructableRecord for {name} ({field} is not deconstructable)"
    RecordFieldNotDeconstructable(String, String),
    /// "Can't generate DeconstructableRecord for {name} ({variant}::{field} is not
    /// deconstructable)"
    VariantFieldNotDeconstructable(String, String, String),
    /// "Can't find FfiField for deconstructable enum: {name}: {ffi_type:?}"
    FfiFieldNotFound(String, crate::ffitypes::FfiType),
    /// "callbacks::map_methods: invalid CallableKind: {kind:?}"
    InvalidCallbackMethodKind,
    /// "create_deconstructable_types_recurse: missing record {ty:?}"
    MissingRecord(crate::ffitypes::Type),
    /// "Invalid callable self type: {self_ty:?}", for a receiver that is not a user-defined type.
    InvalidCallableSelfType,
    /// No id was given to a type.
    TypeIdNotFound(crate::ffitypes::Type),
    /// No Kotlin class name was given for a user-defined type.
    ClassNameNotFound(crate::ffitypes::Type),
    /// "Unknown cdylib name.  Use `src:[crate_name]` to generate bindings or set it in a
    /// `uniffi.toml` config"
    UnknownCdylibName,
    /// "Conflicting cdylib names in `uniffi.toml` files: {names:?}"
    ConflictingCdylibNames(Vec<String>),
}

} // verus!
