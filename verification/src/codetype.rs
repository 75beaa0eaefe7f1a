//! Kotlin code types of external types and of objects.

use vstd::prelude::*;
use crate::ffitypes::ObjectImpl;

verus! {

/// What kind of type an external type is.
#[derive(Debug, Clone, Copy, PartialEq, Eq)]
pub enum ExternalKind {
    Interface,
    DataClass,
    CallbackInterface,
}

/// The code type of a type that another crate defines.
pub struct ExternalCodeType {
    pub name: String,
    pub kind: ExternalKind,
}

impl ExternalCodeType {
    pub fn new(name: String, kind: ExternalKind) -> (c: Self)
        ensures
            c.name == name,
            c.kind == kind,
    {
        ExternalCodeType { name, kind }
    }

    pub fn type_label(&self) -> (s: String)
        ensures
            s == self.name,
    {
        self.name.clone()
    }

    pub fn canonical_name(&self) -> (s: String)
        ensures
            s@ == "Type"@ + self.name@,
    {
        let mut s = String::from_str("Type");
        s.append(self.name.as_str());
        s
    }

    /// The name of the Kotlin converter object of the type.
    pub fn ffi_converter_name(&self) -> (s: String)
        ensures
            s@ == "FfiConverter"@ + "Type"@ + self.name@,
    {
        let mut s = String::from_str("FfiConverter");
        s.append(self.canonical_name().as_str());
        s
    }

    /// The function to call to initialize the type: callback interfaces register themselves.
    pub fn initialization_fn(&self) -> (r: Option<String>)
        ensures
            match self.kind {
                ExternalKind::CallbackInterface => r matches Some(s) && s@ == "FfiConverter"@
                    + "Type"@ + self.name@ + ".register"@,
                _ => r is None,
            },
    {
        match self.kind {
            ExternalKind::CallbackInterface => {
                let mut s = self.ffi_converter_name();
                s.append(".register");
                Some(s)
            },
            _ => None,
        }
    }
}

/// The code type of an object.
pub struct ObjectCodeType {
    pub id: String,
    pub imp: ObjectImpl,
}

impl ObjectCodeType {
    pub fn new(id: String, imp: ObjectImpl) -> (c: Self)
        ensures
            c.id == id,
            c.imp == imp,
    {
        ObjectCodeType { id, imp }
    }

    pub fn canonical_name(&self) -> (s: String)
        ensures
            s@ == "Type"@ + self.id@,
    {
        let mut s = String::from_str("Type");
        s.append(self.id.as_str());
        s
    }

    /// The function to call to initialize the type: a trait object initializes its vtable
    /// object, whose Kotlin name (from the code oracle) is `trait_vtable_obj`; a struct needs
    /// no initialization.
    pub fn initialization_fn(&self, trait_vtable_obj: &str) -> (r: Option<String>)
        ensures
            match self.imp {
                ObjectImpl::Struct => r is None,
                _ => r matches Some(s) && s@ == trait_vtable_obj@ + ".initialize"@,
            },
    {
        match self.imp {
            ObjectImpl::Struct => None,
            _ => {
                let mut s = String::from_str(trait_vtable_obj);
                s.append(".initialize");
                Some(s)
            },
        }
    }
}

} // verus!
