//! The root of the Kotlin JNI bindings: one package per namespace, each with the type
//! definitions it generates code for.

use std::collections::HashSet;
use vstd::prelude::*;
use crate::enums::{
    EnumShape, FieldsKind, LowerableEnum, Variant, VariantInput, enum_kind_of, kotlin_enum_kind,
    lowerable_enum, lowerable_enum_of, map_variant, variant_mapped,
};
use crate::error::BindgenError;
use crate::names::{to_upper_camel_case, upper_camel_case};
use crate::nodes::{
    CallbackInterface, Callable, CallableKind, CallableResult, Class, DeconstructableRecord, Field,
    Function, Interface, KotlinEnumKind, Method, ScaffoldingFunctionKind, TypeNode,
    UniffiTraitMethods, callable_same, orderable, quote_name, quoted,
};
use crate::types::{replace_char, replace_char_in};

verus! {

broadcast use vstd::std_specs::hash::group_hash_axioms;

pub struct Record {
    pub fields_kind: FieldsKind,
    pub self_type: TypeNode,
    pub immutable: bool,
    pub name: String,
    pub orig_name: String,
    pub uniffi_trait_methods: UniffiTraitMethods,
    pub fields: Vec<Field>,
    pub docstring: Option<String>,
    pub recursive: bool,
    pub deconstructable: Option<DeconstructableRecord>,
}

pub struct Enum {
    pub is_flat: bool,
    pub use_entries: bool,
    pub self_type: TypeNode,
    pub discr_type: TypeNode,
    pub discr_specified: bool,
    pub variants: Vec<Variant>,
    pub name: String,
    pub orig_name: String,
    pub base_classes: Vec<String>,
    pub uniffi_trait_methods: UniffiTraitMethods,
    pub shape: EnumShape,
    pub kotlin_kind: KotlinEnumKind,
    pub docstring: Option<String>,
    pub recursive: bool,
    pub lowerable: Option<LowerableEnum>,
}

/// An enum, before its variants are named and its Kotlin declaration and lowering are chosen.
pub struct EnumInput {
    pub is_flat: bool,
    /// Whether the configuration asks for `entries` in place of `values()`.
    pub use_entries: bool,
    pub self_type: TypeNode,
    pub discr_type: TypeNode,
    pub discr_specified: bool,
    pub variants: Vec<VariantInput>,
    pub name: String,
    pub orig_name: String,
    pub uniffi_trait_methods: UniffiTraitMethods,
    pub shape: EnumShape,
    pub docstring: Option<String>,
    pub recursive: bool,
}

/// Whether `vs` are the variants of `inputs`, in an enum that is flat or not and of that shape.
pub open spec fn variants_mapped(inputs: Seq<VariantInput>, is_flat: bool, shape: EnumShape, vs: Seq<Variant>) -> bool {
    &&& vs.len() == inputs.len()
    &&& forall|i: int| 0 <= i < inputs.len() ==> variant_mapped(inputs[i], is_flat, shape, #[trigger] vs[i])
}

/// Map an enum: name its variants, choose its Kotlin declaration and the classes it extends,
/// then how it is lowered, which fails where its variants cannot be deconstructed.
pub fn map_enum(input: EnumInput) -> (r: Result<Enum, BindgenError>)
    ensures
        match r {
            Ok(e) => {
                &&& variants_mapped(input.variants@, input.is_flat, input.shape, e.variants@)
                &&& enum_kind_of(
                    input.shape,
                    input.is_flat,
                    input.self_type.is_used_as_error,
                    orderable(input.uniffi_trait_methods),
                    input.discr_specified,
                    input.self_type.type_kt@,
                    input.discr_type.type_kt@,
                    e.kotlin_kind,
                    e.base_classes@,
                )
                &&& lowerable_enum_of(input.name@, e.variants@, input.self_type.lowerable, Ok(e.lowerable))
                &&& e.is_flat == input.is_flat && e.use_entries == input.use_entries
                &&& e.self_type == input.self_type && e.discr_type == input.discr_type
                &&& e.discr_specified == input.discr_specified && e.name == input.name
                &&& e.orig_name == input.orig_name
                &&& e.uniffi_trait_methods == input.uniffi_trait_methods && e.shape == input.shape
                &&& e.docstring == input.docstring && e.recursive == input.recursive
            },
            Err(err) => exists|vs: Seq<Variant>|
                variants_mapped(input.variants@, input.is_flat, input.shape, vs) && lowerable_enum_of(
                    input.name@,
                    vs,
                    input.self_type.lowerable,
                    Err(err),
                ),
        },
{
    let ghost all = input.variants@;
    let EnumInput {
        is_flat,
        use_entries,
        self_type,
        discr_type,
        discr_specified,
        variants: inputs,
        name,
        orig_name,
        uniffi_trait_methods,
        shape,
        docstring,
        recursive,
    } = input;
    let mut inputs = inputs;
    let mut variants: Vec<Variant> = Vec::new();
    while inputs.len() > 0
        invariant
            variants@.len() + inputs@.len() == all.len(),
            inputs@ == all.skip(variants@.len() as int),
            forall|i: int| 0 <= i < variants@.len() ==> variant_mapped(all[i], is_flat, shape, #[trigger] variants@[i]),
        decreases inputs@.len(),
    {
        let ghost k = variants@.len();
        let v = inputs.remove(0);
        proof {
            assert(all.skip(k as int)[0] == all[k as int]);
            assert(inputs@ =~= all.skip(k + 1 as int));
        }
        variants.push(map_variant(v, is_flat, shape));
    }
    let (kotlin_kind, base_classes) = kotlin_enum_kind(
        shape,
        is_flat,
        self_type.is_used_as_error,
        uniffi_trait_methods.is_orderable(),
        discr_specified,
        self_type.type_kt.as_str(),
        discr_type.type_kt.as_str(),
    );
    let lowerable = match lowerable_enum(name.as_str(), variants.as_slice(), &self_type.lowerable) {
        Ok(l) => l,
        Err(e) => {
            assert(variants_mapped(all, is_flat, shape, variants@));
            return Err(e);
        },
    };
    Ok(
        Enum {
            is_flat,
            use_entries,
            self_type,
            discr_type,
            discr_specified,
            variants,
            name,
            orig_name,
            base_classes,
            uniffi_trait_methods,
            shape,
            kotlin_kind,
            docstring,
            recursive,
            lowerable,
        },
    )
}

impl Enum {
    pub fn is_flat_error(&self) -> (b: bool)
        ensures
            b == (self.shape == EnumShape::Error { flat: true }),
    {
        self.shape.is_flat_error()
    }
}

pub struct CustomType {
    pub crate_name: String,
    pub self_type: TypeNode,
    pub name: String,
    pub builtin: TypeNode,
    pub docstring: Option<String>,
}

pub struct BoxedType {
    pub inner: TypeNode,
    pub self_type: TypeNode,
}

pub struct OptionalType {
    pub inner: TypeNode,
    pub self_type: TypeNode,
}

pub struct SequenceType {
    pub inner: TypeNode,
    pub self_type: TypeNode,
}

pub struct MapType {
    pub key: TypeNode,
    pub value: TypeNode,
    pub self_type: TypeNode,
}

/// A type that a package generates code for.
pub enum TypeDefinition {
    Record(Record),
    Enum(Enum),
    Interface(Interface),
    Class(Class),
    CallbackInterface(CallbackInterface),
    Custom(CustomType),
    Box(BoxedType),
    Optional(OptionalType),
    Sequence(SequenceType),
    Dictionary(MapType),
    Timestamp(TypeNode),
    Duration(TypeNode),
    Bytes(TypeNode),
}

/// A scaffolding function: a function or method of the interface, or one of a type's trait
/// methods.
pub struct ScaffoldingFunction {
    pub jni_method_name: String,
    pub callable: Callable,
    pub kind: ScaffoldingFunctionKind,
}

/// The bindings of one namespace.
pub struct Package {
    pub name: String,
    pub crate_name: String,
    /// The cdylib name that the package's configuration sets, if any.
    pub cdylib_name: Option<String>,
    /// Whether the package's configuration disables the Java cleaner.
    pub disable_java_cleaner: bool,
    /// Whether the package's configuration asks for the Android cleaner.
    pub android_cleaner: bool,
    pub functions: Vec<Function>,
    pub type_definitions: Vec<TypeDefinition>,
    pub scaffolding_functions: Vec<ScaffoldingFunction>,
    pub imports: Vec<String>,
}

pub struct Root {
    pub cdylib: Option<String>,
    pub packages: Vec<Package>,
}

/// The ID of the type that a definition generates FFI functions for; interfaces generate
/// none (their class does).
pub open spec fn definition_id(d: TypeDefinition) -> Option<usize> {
    match d {
        TypeDefinition::Record(r) => Some(r.self_type.id),
        TypeDefinition::Enum(e) => Some(e.self_type.id),
        TypeDefinition::Optional(o) => Some(o.self_type.id),
        TypeDefinition::Sequence(s) => Some(s.self_type.id),
        TypeDefinition::Dictionary(m) => Some(m.self_type.id),
        TypeDefinition::Class(c) => Some(c.self_type.id),
        TypeDefinition::Custom(c) => Some(c.self_type.id),
        TypeDefinition::CallbackInterface(c) => Some(c.self_type.id),
        TypeDefinition::Box(b) => Some(b.self_type.id),
        TypeDefinition::Timestamp(t) => Some(t.id),
        TypeDefinition::Duration(t) => Some(t.id),
        TypeDefinition::Bytes(t) => Some(t.id),
        TypeDefinition::Interface(_) => None,
    }
}

fn definition_id_of(d: &TypeDefinition) -> (r: Option<usize>)
    ensures
        r == definition_id(*d),
{
    match d {
        TypeDefinition::Record(r) => Some(r.self_type.id),
        TypeDefinition::Enum(e) => Some(e.self_type.id),
        TypeDefinition::Optional(o) => Some(o.self_type.id),
        TypeDefinition::Sequence(s) => Some(s.self_type.id),
        TypeDefinition::Dictionary(m) => Some(m.self_type.id),
        TypeDefinition::Class(c) => Some(c.self_type.id),
        TypeDefinition::Custom(c) => Some(c.self_type.id),
        TypeDefinition::CallbackInterface(c) => Some(c.self_type.id),
        TypeDefinition::Box(b) => Some(b.self_type.id),
        TypeDefinition::Timestamp(t) => Some(t.id),
        TypeDefinition::Duration(t) => Some(t.id),
        TypeDefinition::Bytes(t) => Some(t.id),
        TypeDefinition::Interface(_) => None,
    }
}

/// The type definitions of all packages, package by package.
pub open spec fn all_type_definitions(packages: Seq<Package>) -> Seq<TypeDefinition> {
    packages.map_values(|p: Package| p.type_definitions@).flatten()
}

/// The IDs of the definitions of a list.
pub open spec fn ids_of(defs: Seq<TypeDefinition>) -> Set<usize> {
    Set::new(|id: usize| exists|j: int| 0 <= j < defs.len() && definition_id(#[trigger] defs[j]) == Some(id))
}

/// Whether a definition has an ID that none of `before` has.
pub open spec fn has_new_id(before: Seq<TypeDefinition>, d: TypeDefinition) -> bool {
    definition_id(d) matches Some(id) && !ids_of(before).contains(id)
}

/// The definitions of a list that generate FFI functions, without repeats: each definition
/// whose ID no earlier definition has.
pub open spec fn unique_definitions(defs: Seq<TypeDefinition>) -> Seq<TypeDefinition>
    decreases defs.len(),
{
    if defs.len() == 0 {
        Seq::empty()
    } else {
        let prev = unique_definitions(defs.drop_last());
        if has_new_id(defs.drop_last(), defs.last()) {
            prev.push(defs.last())
        } else {
            prev
        }
    }
}

/// The referenced values of a list of references.
pub open spec fn derefs<T>(s: Seq<&T>) -> Seq<T> {
    s.map_values(|x: &T| *x)
}

impl Root {
    /// Type definitions to generate FFI functions for
    ///
    /// This de-dupes the type definitions for all packages so we only don't generate duplicate
    /// functions for types that may be used in multiple packages like `Vec<u32>`.
    pub fn ffi_type_definitions(&self) -> (r: Vec<&TypeDefinition>)
        ensures
            derefs(r@) == unique_definitions(all_type_definitions(self.packages@)),
    {
        let ghost pkgs = self.packages@;
        let mut seen: HashSet<usize> = HashSet::new();
        let mut r: Vec<&TypeDefinition> = Vec::new();
        let mut p: usize = 0;
        proof {
            assert(pkgs.take(0).map_values(|p: Package| p.type_definitions@) =~= Seq::empty());
            assert(all_type_definitions(pkgs.take(0)) =~= Seq::empty());
            assert(seen@ =~= ids_of(Seq::empty()));
            assert(derefs(r@) =~= Seq::empty());
        }
        while p < self.packages.len()
            invariant
                pkgs == self.packages@,
                p <= pkgs.len(),
                seen@ == ids_of(all_type_definitions(pkgs.take(p as int))),
                derefs(r@) == unique_definitions(all_type_definitions(pkgs.take(p as int))),
            decreases pkgs.len() - p,
        {
            let defs = &self.packages[p].type_definitions;
            let ghost before = all_type_definitions(pkgs.take(p as int));
            let mut t: usize = 0;
            proof {
                assert(before + defs@.take(0) =~= before);
            }
            while t < defs.len()
                invariant
                    pkgs == self.packages@,
                    p < pkgs.len(),
                    *defs == pkgs[p as int].type_definitions,
                    before == all_type_definitions(pkgs.take(p as int)),
                    t <= defs@.len(),
                    seen@ == ids_of(before + defs@.take(t as int)),
                    derefs(r@) == unique_definitions(before + defs@.take(t as int)),
                decreases defs@.len() - t,
            {
                let d = &defs[t];
                let ghost cur = before + defs@.take(t as int);
                let ghost next = before + defs@.take(t + 1 as int);
                proof {
                    assert(next =~= cur.push(*d));
                    assert(next.drop_last() =~= cur);
                }
                match definition_id_of(d) {
                    Some(id) => {
                        let is_new = seen.insert(id);
                        if is_new {
                            r.push(d);
                            proof {
                                assert(derefs(r@) =~= derefs(r@.drop_last()).push(*d));
                            }
                        }
                    },
                    None => {},
                }
                proof {
                    assert(seen@ =~= ids_of(next)) by {
                        assert forall|id: usize| ids_of(next).contains(id) implies seen@.contains(
                            id,
                        ) by {
                            let j = choose|j: int|
                                0 <= j < next.len() && definition_id(#[trigger] next[j]) == Some(id);
                            if j < cur.len() {
                                assert(next[j] == cur[j]);
                                assert(ids_of(cur).contains(id));
                            }
                        }
                        assert forall|id: usize| seen@.contains(id) implies ids_of(next).contains(
                            id,
                        ) by {
                            if ids_of(cur).contains(id) {
                                let j = choose|j: int|
                                    0 <= j < cur.len() && definition_id(#[trigger] cur[j]) == Some(id);
                                assert(next[j] == cur[j]);
                            } else {
                                assert(next[cur.len() as int] == *d);
                            }
                        }
                    }
                }
                t = t + 1;
            }
            proof {
                assert(defs@.take(t as int) =~= defs@);
                let f = |p: Package| p.type_definitions@;
                assert(pkgs.take(p + 1 as int).map_values(f) =~= pkgs.take(p as int).map_values(
                    f,
                ).push(pkgs[p as int].type_definitions@));
                pkgs.take(p as int).map_values(f).lemma_flatten_push(pkgs[p as int].type_definitions@);
            }
            p = p + 1;
        }
        proof {
            assert(pkgs.take(p as int) =~= pkgs);
        }
        r
    }
}

/// The FFI type definitions are unique and complete: each has an ID, no two share one, and
/// every ID that some definition has is among theirs.
pub proof fn law_ffi_type_definitions_are_unique(defs: Seq<TypeDefinition>)
    ensures
        forall|i: int|
            0 <= i < unique_definitions(defs).len() ==> (#[trigger] definition_id(
                unique_definitions(defs)[i],
            )) is Some,
        forall|i: int, j: int|
            0 <= i < j < unique_definitions(defs).len() ==> #[trigger] definition_id(
                unique_definitions(defs)[i],
            ) != #[trigger] definition_id(unique_definitions(defs)[j]),
        ids_of(unique_definitions(defs)) == ids_of(defs),
    decreases defs.len(),
{
    if defs.len() > 0 {
        let before = defs.drop_last();
        let d = defs.last();
        law_ffi_type_definitions_are_unique(before);
        let prev = unique_definitions(before);
        let u = unique_definitions(defs);
        if has_new_id(before, d) {
            assert(u == prev.push(d));
            assert forall|i: int, j: int|
                0 <= i < j < u.len() implies #[trigger] definition_id(u[i]) != #[trigger] definition_id(
                u[j],
            ) by {
                if j == u.len() - 1 {
                    assert(u[i] == prev[i]);
                    assert(ids_of(prev).contains(definition_id(prev[i])->Some_0));
                } else {
                    assert(u[i] == prev[i] && u[j] == prev[j]);
                }
            }
            assert forall|i: int| 0 <= i < u.len() implies (#[trigger] definition_id(u[i])) is Some by {
                if i < prev.len() {
                    assert(u[i] == prev[i]);
                }
            }
        }
        assert(ids_of(u) =~= ids_of(defs)) by {
            assert forall|id: usize| ids_of(defs).contains(id) implies ids_of(u).contains(id) by {
                let j = choose|j: int| 0 <= j < defs.len() && definition_id(#[trigger] defs[j]) == Some(id);
                if j < before.len() {
                    assert(before[j] == defs[j]);
                    assert(ids_of(before).contains(id));
                    let k = choose|k: int| 0 <= k < prev.len() && definition_id(#[trigger] prev[k]) == Some(id);
                    assert(u[k] == prev[k]);
                } else if has_new_id(before, d) {
                    assert(u[prev.len() as int] == d);
                } else {
                    assert(ids_of(before).contains(id));
                    let k = choose|k: int| 0 <= k < prev.len() && definition_id(#[trigger] prev[k]) == Some(id);
                    assert(u[k] == prev[k]);
                }
            }
            assert forall|id: usize| ids_of(u).contains(id) implies ids_of(defs).contains(id) by {
                let k = choose|k: int| 0 <= k < u.len() && definition_id(#[trigger] u[k]) == Some(id);
                if k < prev.len() {
                    assert(u[k] == prev[k]);
                    assert(ids_of(prev).contains(id));
                    let j = choose|j: int| 0 <= j < before.len() && definition_id(#[trigger] before[j]) == Some(id);
                    assert(defs[j] == before[j]);
                } else {
                    assert(u[k] == d);
                    assert(defs[defs.len() - 1] == d);
                }
            }
        }
    } else {
        assert(ids_of(unique_definitions(defs)) =~= ids_of(defs));
    }
}

/// The distinct cdylib names of a list, in the order they first come.
pub open spec fn distinct_names(names: Seq<Option<String>>) -> Seq<Seq<char>>
    decreases names.len(),
{
    if names.len() == 0 {
        Seq::empty()
    } else {
        let prev = distinct_names(names.drop_last());
        match names.last() {
            Some(n) => if prev.contains(n@) {
                prev
            } else {
                prev.push(n@)
            },
            None => prev,
        }
    }
}

/// The cdylib names that the packages' configurations set.
pub open spec fn package_cdylib_names(packages: Seq<Package>) -> Seq<Option<String>> {
    packages.map_values(|p: Package| p.cdylib_name)
}

impl Root {
    /// Whether the Java cleaner is disabled: it is as soon as one package's configuration
    /// disables it.
    pub fn disable_java_cleaner(&self) -> (b: bool)
        ensures
            b == exists|i: int| 0 <= i < self.packages@.len() && (#[trigger] self.packages@[i]).disable_java_cleaner,
    {
        let mut i: usize = 0;
        while i < self.packages.len()
            invariant
                i <= self.packages@.len(),
                forall|j: int| 0 <= j < i ==> !(#[trigger] self.packages@[j]).disable_java_cleaner,
            decreases self.packages@.len() - i,
        {
            if self.packages[i].disable_java_cleaner {
                assert(self.packages@[i as int].disable_java_cleaner);
                return true;
            }
            i = i + 1;
        }
        false
    }

    /// Whether the Android cleaner is used: it is as soon as one package's configuration asks
    /// for it.
    pub fn enable_android_cleaner(&self) -> (b: bool)
        ensures
            b == exists|i: int| 0 <= i < self.packages@.len() && (#[trigger] self.packages@[i]).android_cleaner,
    {
        let mut i: usize = 0;
        while i < self.packages.len()
            invariant
                i <= self.packages@.len(),
                forall|j: int| 0 <= j < i ==> !(#[trigger] self.packages@[j]).android_cleaner,
            decreases self.packages@.len() - i,
        {
            if self.packages[i].android_cleaner {
                assert(self.packages@[i as int].android_cleaner);
                return true;
            }
            i = i + 1;
        }
        false
    }
}

impl Root {
    /// The name of the cdylib: the one that the packages' configurations agree on, else the
    /// root's own.
    pub fn cdylib_name(&self) -> (r: Result<String, BindgenError>)
        ensures
            ({
                let names = distinct_names(package_cdylib_names(self.packages@));
                if names.len() == 0 {
                    match self.cdylib {
                        Some(c) => r matches Ok(s) && s@ == c@,
                        None => r == Err::<String, BindgenError>(BindgenError::UnknownCdylibName),
                    }
                } else if names.len() == 1 {
                    r matches Ok(s) && s@ == names[0]
                } else {
                    r matches Err(BindgenError::ConflictingCdylibNames(v)) && v@.map_values(
                        |s: String| s@,
                    ) == names
                }
            }),
    {
        let ghost all = package_cdylib_names(self.packages@);
        let mut config_names: Vec<String> = Vec::new();
        let mut i: usize = 0;
        while i < self.packages.len()
            invariant
                i <= self.packages@.len(),
                all == package_cdylib_names(self.packages@),
                config_names@.map_values(|s: String| s@) == distinct_names(all.take(i as int)),
            decreases self.packages@.len() - i,
        {
            proof {
                assert(all.take(i + 1 as int).drop_last() =~= all.take(i as int));
                assert(all.take(i + 1 as int).last() == self.packages@[i as int].cdylib_name);
            }
            if let Some(name) = &self.packages[i].cdylib_name {
                let mut j: usize = 0;
                let mut found = false;
                while j < config_names.len()
                    invariant
                        j <= config_names@.len(),
                        found == exists|k: int| 0 <= k < j && (#[trigger] config_names@[k])@ == name@,
                    decreases config_names@.len() - j,
                {
                    if config_names[j] == *name {
                        found = true;
                    }
                    j = j + 1;
                }
                proof {
                    let v = config_names@.map_values(|s: String| s@);
                    if found {
                        let k = choose|k: int| 0 <= k < j && (#[trigger] config_names@[k])@ == name@;
                        assert(v[k] == name@);
                    } else {
                        assert forall|k: int| 0 <= k < v.len() implies v[k] != name@ by {
                            assert(v[k] == config_names@[k]@);
                        }
                    }
                }
                if !found {
                    config_names.push(name.clone());
                    proof {
                        assert(config_names@.map_values(|s: String| s@) =~= distinct_names(
                            all.take(i as int),
                        ).push(name@));
                    }
                }
            }
            i = i + 1;
        }
        proof {
            assert(all.take(i as int) =~= all);
        }
        if config_names.len() == 0 {
            match &self.cdylib {
                Some(name) => Ok(name.clone()),
                None => Err(BindgenError::UnknownCdylibName),
            }
        } else if config_names.len() == 1 {
            Ok(config_names[0].clone())
        } else {
            Err(BindgenError::ConflictingCdylibNames(config_names))
        }
    }
}

impl Package {
    /// The Kotlin class that holds the package's JNI methods.
    pub fn jni_class(&self) -> (s: String)
        ensures
            s@ == quoted(upper_camel_case(self.crate_name@)),
    {
        quote_name(to_upper_camel_case(self.crate_name.as_str()))
    }

    /// The package name as a JNI path.
    pub fn name_jni(&self) -> (s: String)
        ensures
            s@ == replace_char(self.name@, '.', "/"@),
    {
        proof {
            reveal_strlit("/");
        }
        replace_char_in(self.name.as_str(), '.', "/")
    }

    pub fn classes(&self) -> (r: Vec<&Class>)
        ensures
            derefs(r@) == classes_of(self.type_definitions@),
    {
        let mut r: Vec<&Class> = Vec::new();
        let mut i: usize = 0;
        while i < self.type_definitions.len()
            invariant
                i <= self.type_definitions@.len(),
                derefs(r@) == classes_of(self.type_definitions@.take(i as int)),
            decreases self.type_definitions@.len() - i,
        {
            proof {
                assert(self.type_definitions@.take(i + 1 as int).drop_last() =~= self.type_definitions@.take(
                    i as int,
                ));
            }
            if let TypeDefinition::Class(cls) = &self.type_definitions[i] {
                r.push(cls);
                proof {
                    assert(derefs(r@) =~= derefs(r@.drop_last()).push(*cls));
                }
            }
            i = i + 1;
        }
        proof {
            assert(self.type_definitions@.take(i as int) =~= self.type_definitions@);
        }
        r
    }

    pub fn uniffi_trait_methods(&self) -> (r: Vec<&UniffiTraitMethods>)
        ensures
            derefs(r@) == trait_methods_of(self.type_definitions@),
    {
        let mut r: Vec<&UniffiTraitMethods> = Vec::new();
        let mut i: usize = 0;
        while i < self.type_definitions.len()
            invariant
                i <= self.type_definitions@.len(),
                derefs(r@) == trait_methods_of(self.type_definitions@.take(i as int)),
            decreases self.type_definitions@.len() - i,
        {
            proof {
                assert(self.type_definitions@.take(i + 1 as int).drop_last() =~= self.type_definitions@.take(
                    i as int,
                ));
            }
            let m: Option<&UniffiTraitMethods> = match &self.type_definitions[i] {
                TypeDefinition::Class(c) => Some(&c.uniffi_trait_methods),
                TypeDefinition::Record(rec) => Some(&rec.uniffi_trait_methods),
                TypeDefinition::Enum(e) => Some(&e.uniffi_trait_methods),
                _ => None,
            };
            if let Some(m) = m {
                r.push(m);
                proof {
                    assert(derefs(r@) =~= derefs(r@.drop_last()).push(*m));
                }
            }
            i = i + 1;
        }
        proof {
            assert(self.type_definitions@.take(i as int) =~= self.type_definitions@);
        }
        r
    }
}

/// The classes among type definitions, in order.
pub open spec fn classes_of(defs: Seq<TypeDefinition>) -> Seq<Class>
    decreases defs.len(),
{
    if defs.len() == 0 {
        Seq::empty()
    } else {
        match defs.last() {
            TypeDefinition::Class(c) => classes_of(defs.drop_last()).push(c),
            _ => classes_of(defs.drop_last()),
        }
    }
}

/// The trait methods of the classes, records and enums among type definitions, in order.
pub open spec fn trait_methods_of(defs: Seq<TypeDefinition>) -> Seq<UniffiTraitMethods>
    decreases defs.len(),
{
    if defs.len() == 0 {
        Seq::empty()
    } else {
        let prev = trait_methods_of(defs.drop_last());
        match defs.last() {
            TypeDefinition::Class(c) => prev.push(c.uniffi_trait_methods),
            TypeDefinition::Record(r) => prev.push(r.uniffi_trait_methods),
            TypeDefinition::Enum(e) => prev.push(e.uniffi_trait_methods),
            _ => prev,
        }
    }
}

/// A trait method with its kind, if there is one.
pub open spec fn opt_trait_method(m: Option<Method>, kind: ScaffoldingFunctionKind) -> Seq<(
    Method,
    ScaffoldingFunctionKind,
)> {
    match m {
        Some(meth) => seq![(meth, kind)],
        None => Seq::empty(),
    }
}

/// The trait methods that get scaffolding functions, in order: `Display` (or else `Debug`),
/// then `Eq::eq`, `Eq::ne`, `Hash::hash` and `Ord::cmp`, those that the type has.
pub open spec fn trait_scaffolding(m: UniffiTraitMethods) -> Seq<(Method, ScaffoldingFunctionKind)> {
    let to_string = match (m.display_fmt, m.debug_fmt) {
        (Some(meth), _) => seq![(meth, ScaffoldingFunctionKind::TraitMethodDisplayFmt)],
        (None, Some(meth)) => seq![(meth, ScaffoldingFunctionKind::TraitMethodDebugFmt)],
        _ => Seq::empty(),
    };
    to_string + opt_trait_method(m.eq_eq, ScaffoldingFunctionKind::TraitMethodEqEq)
        + opt_trait_method(m.eq_ne, ScaffoldingFunctionKind::TraitMethodEqNe) + opt_trait_method(
        m.hash_hash,
        ScaffoldingFunctionKind::TraitMethodHashHash,
    ) + opt_trait_method(m.ord_cmp, ScaffoldingFunctionKind::TraitMethodOrdCmp)
}

/// Whether a scaffolding function is made from a trait method of a kind.
pub open spec fn scaffolding_of(f: ScaffoldingFunction, m: (Method, ScaffoldingFunctionKind)) -> bool {
    &&& f.jni_method_name == m.0.jni_method_name
    &&& callable_same(f.callable, m.0.callable)
    &&& f.kind == m.1
}

fn push_scaffolding(
    out: &mut Vec<ScaffoldingFunction>,
    m: &Option<Method>,
    kind: ScaffoldingFunctionKind,
    Ghost(expected): Ghost<Seq<(Method, ScaffoldingFunctionKind)>>,
)
    requires
        old(out)@.len() == expected.len(),
        forall|i: int| 0 <= i < expected.len() ==> scaffolding_of(#[trigger] old(out)@[i], expected[i]),
    ensures
        ({
            let e2 = expected + opt_trait_method(*m, kind);
            &&& final(out)@.len() == e2.len()
            &&& forall|i: int| 0 <= i < e2.len() ==> scaffolding_of(#[trigger] final(out)@[i], e2[i])
        }),
{
    if let Some(meth) = m {
        out.push(
            ScaffoldingFunction {
                jni_method_name: meth.jni_method_name.clone(),
                callable: meth.callable.clone(),
                kind,
            },
        );
        proof {
            let e2 = expected + opt_trait_method(*m, kind);
            assert forall|i: int| 0 <= i < e2.len() implies scaffolding_of(#[trigger] out@[i], e2[i]) by {
                if i < expected.len() {
                    assert(e2[i] == expected[i]);
                }
            }
        }
    } else {
        assert(expected + opt_trait_method(*m, kind) =~= expected);
    }
}

impl UniffiTraitMethods {
    /// The scaffolding functions of the trait methods.  Only one of `Display` and `Debug` is
    /// generated: `Display` where there is one.
    pub fn scaffolding_functions(&self) -> (r: Vec<ScaffoldingFunction>)
        ensures
            r@.len() == trait_scaffolding(*self).len(),
            forall|i: int|
                0 <= i < r@.len() ==> scaffolding_of(#[trigger] r@[i], trait_scaffolding(*self)[i]),
    {
        let mut out: Vec<ScaffoldingFunction> = Vec::new();
        // We only need to generate one of `Display` or `Debug`
        let to_string: &Option<Method> = match (&self.display_fmt, &self.debug_fmt) {
            (Some(_), _) => &self.display_fmt,
            (None, _) => &self.debug_fmt,
        };
        let kind = if self.display_fmt.is_some() {
            ScaffoldingFunctionKind::TraitMethodDisplayFmt
        } else {
            ScaffoldingFunctionKind::TraitMethodDebugFmt
        };
        let ghost e0 = Seq::<(Method, ScaffoldingFunctionKind)>::empty();
        push_scaffolding(&mut out, to_string, kind, Ghost(e0));
        let ghost e1 = e0 + opt_trait_method(*to_string, kind);
        push_scaffolding(&mut out, &self.eq_eq, ScaffoldingFunctionKind::TraitMethodEqEq, Ghost(e1));
        let ghost e2 = e1 + opt_trait_method(self.eq_eq, ScaffoldingFunctionKind::TraitMethodEqEq);
        push_scaffolding(&mut out, &self.eq_ne, ScaffoldingFunctionKind::TraitMethodEqNe, Ghost(e2));
        let ghost e3 = e2 + opt_trait_method(self.eq_ne, ScaffoldingFunctionKind::TraitMethodEqNe);
        push_scaffolding(
            &mut out,
            &self.hash_hash,
            ScaffoldingFunctionKind::TraitMethodHashHash,
            Ghost(e3),
        );
        let ghost e4 = e3 + opt_trait_method(
            self.hash_hash,
            ScaffoldingFunctionKind::TraitMethodHashHash,
        );
        push_scaffolding(&mut out, &self.ord_cmp, ScaffoldingFunctionKind::TraitMethodOrdCmp, Ghost(e4));
        proof {
            let e5 = e4 + opt_trait_method(self.ord_cmp, ScaffoldingFunctionKind::TraitMethodOrdCmp);
            assert(e0 + opt_trait_method(*to_string, kind) =~= match (self.display_fmt, self.debug_fmt) {
                (Some(meth), _) => seq![(meth, ScaffoldingFunctionKind::TraitMethodDisplayFmt)],
                (None, Some(meth)) => seq![(meth, ScaffoldingFunctionKind::TraitMethodDebugFmt)],
                _ => Seq::empty(),
            });
            assert(e5 =~= trait_scaffolding(*self));
        }
        out
    }
}

/// Whether a callable is implemented in Rust: anything but a method of a callback interface.
pub open spec fn is_rust_function(c: Callable) -> bool {
    !(c.kind matches CallableKind::VTableMethod { for_callback_interface, .. }
        && for_callback_interface)
}

/// The throws types of the Rust functions among callables, without repeats: each one whose ID
/// no earlier one has.
pub open spec fn unique_throws_types(cs: Seq<Callable>) -> Seq<TypeNode>
    decreases cs.len(),
{
    if cs.len() == 0 {
        Seq::empty()
    } else {
        let prev = unique_throws_types(cs.drop_last());
        let c = cs.last();
        match c.result.throws_type {
            Some(t) => if is_rust_function(c) && !ids_of_nodes(prev).contains(t.id) {
                prev.push(t)
            } else {
                prev
            },
            None => prev,
        }
    }
}

/// The IDs of type nodes.
pub open spec fn ids_of_nodes(s: Seq<TypeNode>) -> Set<usize> {
    Set::new(|id: usize| exists|j: int| 0 <= j < s.len() && (#[trigger] s[j]).id == id)
}

/// Unique throws types for Rust functions, over the callables of the root in the order they
/// are visited.
pub fn rust_throws_types<'a>(callables: &Vec<&'a Callable>) -> (r: Vec<&'a TypeNode>)
    ensures
        derefs(r@) == unique_throws_types(derefs(callables@)),
{
    let ghost cs = derefs(callables@);
    let mut seen: HashSet<usize> = HashSet::new();
    let mut r: Vec<&'a TypeNode> = Vec::new();
    let mut i: usize = 0;
    proof {
        assert(seen@ =~= ids_of_nodes(Seq::empty()));
        assert(derefs(r@) =~= Seq::empty());
    }
    while i < callables.len()
        invariant
            cs == derefs(callables@),
            i <= cs.len(),
            derefs(r@) == unique_throws_types(cs.take(i as int)),
            seen@ == ids_of_nodes(derefs(r@)),
        decreases cs.len() - i,
    {
        let c: &'a Callable = callables[i];
        proof {
            assert(cs.take(i + 1 as int).drop_last() =~= cs.take(i as int));
            assert(cs.take(i + 1 as int).last() == *c);
        }
        if c.is_for_rust_function() {
            if let Some(throws_type) = c.throws_type() {
                let ghost before = derefs(r@);
                if seen.insert(throws_type.id) {
                    r.push(throws_type);
                    proof {
                        assert(derefs(r@) =~= before.push(*throws_type));
                        assert(seen@ =~= ids_of_nodes(derefs(r@))) by {
                            assert forall|id: usize| ids_of_nodes(derefs(r@)).contains(id) implies seen@.contains(id) by {
                                let j = choose|j: int| 0 <= j < derefs(r@).len() && (#[trigger] derefs(r@)[j]).id == id;
                                if j < before.len() {
                                    assert(derefs(r@)[j] == before[j]);
                                    assert(ids_of_nodes(before).contains(id));
                                }
                            }
                            assert forall|id: usize| seen@.contains(id) implies ids_of_nodes(derefs(r@)).contains(id) by {
                                if id == throws_type.id {
                                    assert(derefs(r@)[before.len() as int] == *throws_type);
                                } else {
                                    let j = choose|j: int| 0 <= j < before.len() && (#[trigger] before[j]).id == id;
                                    assert(derefs(r@)[j] == before[j]);
                                }
                            }
                        }
                    }
                }
            }
        }
        i = i + 1;
    }
    proof {
        assert(cs.take(i as int) =~= cs);
    }
    r
}

/// The index of the first result with ID `id`, or the number of results if there is none.
pub open spec fn result_index(rs: Seq<CallableResult>, id: usize) -> int
    decreases rs.len(),
{
    if rs.len() == 0 {
        0
    } else if rs[0].id == id {
        0
    } else {
        1 + result_index(rs.drop_first(), id)
    }
}

/// Whether a callable's result is among the async results listed: an async Rust function, or
/// (with `for_rust` false) an async method of a Kotlin callback.
pub open spec fn is_listed_async(c: Callable, for_rust: bool) -> bool {
    c.is_async && if for_rust {
        is_rust_function(c)
    } else {
        c.kind is VTableMethod
    }
}

/// The results of the async callables, one per result ID: in the order each ID first comes,
/// each with the last result that has it (as an insertion-ordered map keeps them).
pub open spec fn unique_async_results(cs: Seq<Callable>, for_rust: bool) -> Seq<CallableResult>
    decreases cs.len(),
{
    if cs.len() == 0 {
        Seq::empty()
    } else {
        let prev = unique_async_results(cs.drop_last(), for_rust);
        let c = cs.last();
        if is_listed_async(c, for_rust) {
            let k = result_index(prev, c.result.id);
            if k < prev.len() {
                prev.update(k, c.result)
            } else {
                prev.push(c.result)
            }
        } else {
            prev
        }
    }
}

proof fn lemma_result_index(rs: Seq<CallableResult>, id: usize, k: int)
    requires
        0 <= k <= rs.len(),
        forall|j: int| 0 <= j < k ==> (#[trigger] rs[j]).id != id,
        k < rs.len() ==> rs[k].id == id,
    ensures
        result_index(rs, id) == k,
    decreases k,
{
    if k > 0 {
        assert forall|j: int| 0 <= j < k - 1 implies (#[trigger] rs.drop_first()[j]).id != id by {
            assert(rs.drop_first()[j] == rs[j + 1]);
        }
        lemma_result_index(rs.drop_first(), id, k - 1);
    }
}

fn async_callable_results<'a>(callables: &Vec<&'a Callable>, for_rust: bool) -> (r: Vec<
    &'a CallableResult,
>)
    ensures
        derefs(r@) == unique_async_results(derefs(callables@), for_rust),
{
    let ghost cs = derefs(callables@);
    let mut r: Vec<&'a CallableResult> = Vec::new();
    let mut i: usize = 0;
    proof {
        assert(derefs(r@) =~= Seq::empty());
    }
    while i < callables.len()
        invariant
            cs == derefs(callables@),
            i <= cs.len(),
            derefs(r@) == unique_async_results(cs.take(i as int), for_rust),
        decreases cs.len() - i,
    {
        let c: &'a Callable = callables[i];
        proof {
            assert(cs.take(i + 1 as int).drop_last() =~= cs.take(i as int));
            assert(cs.take(i + 1 as int).last() == *c);
        }
        let listed = c.is_async && if for_rust {
            c.is_for_rust_function()
        } else {
            c.is_for_kotlin_function()
        };
        if listed {
            let ghost before = derefs(r@);
            let mut k: usize = 0;
            while k < r.len() && r[k].id != c.result.id
                invariant
                    k <= r@.len(),
                    before == derefs(r@),
                    forall|j: int| 0 <= j < k ==> (#[trigger] before[j]).id != c.result.id,
                decreases r@.len() - k,
            {
                k = k + 1;
            }
            proof {
                lemma_result_index(before, c.result.id, k as int);
            }
            if k < r.len() {
                r.set(k, &c.result);
                proof {
                    assert(derefs(r@) =~= before.update(k as int, c.result));
                }
            } else {
                r.push(&c.result);
                proof {
                    assert(derefs(r@) =~= before.push(c.result));
                }
            }
        }
        i = i + 1;
    }
    proof {
        assert(cs.take(i as int) =~= cs);
    }
    r
}

/// The results of the async Rust functions, one per result ID, over the callables of the root
/// in the order they are visited.
pub fn rust_async_callable_results<'a>(callables: &Vec<&'a Callable>) -> (r: Vec<&'a CallableResult>)
    ensures
        derefs(r@) == unique_async_results(derefs(callables@), true),
{
    async_callable_results(callables, true)
}

/// The results of the async methods that Rust calls on Kotlin callbacks, one per result ID,
/// over the callables of the root in the order they are visited.
pub fn kotlin_async_callable_results<'a>(callables: &Vec<&'a Callable>) -> (r: Vec<
    &'a CallableResult,
>)
    ensures
        derefs(r@) == unique_async_results(derefs(callables@), false),
{
    async_callable_results(callables, false)
}

/// No two of the listed async results, and no two of the listed throws types, share an ID.
pub proof fn law_listed_ids_are_unique(cs: Seq<Callable>, for_rust: bool)
    ensures
        forall|i: int, j: int|
            0 <= i < j < unique_async_results(cs, for_rust).len() ==> (#[trigger] unique_async_results(
                cs,
                for_rust,
            )[i]).id != (#[trigger] unique_async_results(cs, for_rust)[j]).id,
        forall|i: int, j: int|
            0 <= i < j < unique_throws_types(cs).len() ==> (#[trigger] unique_throws_types(cs)[i]).id
                != (#[trigger] unique_throws_types(cs)[j]).id,
    decreases cs.len(),
{
    if cs.len() > 0 {
        law_listed_ids_are_unique(cs.drop_last(), for_rust);
        let c = cs.last();
        let prev = unique_async_results(cs.drop_last(), for_rust);
        let cur = unique_async_results(cs, for_rust);
        if is_listed_async(c, for_rust) {
            let k = result_index(prev, c.result.id);
            lemma_result_index_found(prev, c.result.id);
            assert forall|i: int, j: int| 0 <= i < j < cur.len() implies (#[trigger] cur[i]).id
                != (#[trigger] cur[j]).id by {
                if k < prev.len() {
                    if i == k {
                        assert(cur[j] == prev[j]);
                        assert(prev[k].id == c.result.id);
                    } else if j == k {
                        assert(cur[i] == prev[i]);
                        assert(prev[k].id == c.result.id);
                    } else {
                        assert(cur[i] == prev[i] && cur[j] == prev[j]);
                    }
                } else {
                    if j == prev.len() {
                        assert(cur[i] == prev[i]);
                    } else {
                        assert(cur[i] == prev[i] && cur[j] == prev[j]);
                    }
                }
            }
        }
        let tprev = unique_throws_types(cs.drop_last());
        let tcur = unique_throws_types(cs);
        if let Some(t) = c.result.throws_type {
            if is_rust_function(c) && !ids_of_nodes(tprev).contains(t.id) {
                assert forall|i: int, j: int| 0 <= i < j < tcur.len() implies (#[trigger] tcur[i]).id
                    != (#[trigger] tcur[j]).id by {
                    if j == tprev.len() {
                        assert(tcur[i] == tprev[i]);
                        if tprev[i].id == t.id {
                            assert(ids_of_nodes(tprev).contains(t.id));
                        }
                    } else {
                        assert(tcur[i] == tprev[i] && tcur[j] == tprev[j]);
                    }
                }
            }
        }
    }
}

proof fn lemma_result_index_found(rs: Seq<CallableResult>, id: usize)
    ensures
        0 <= result_index(rs, id) <= rs.len(),
        result_index(rs, id) < rs.len() ==> rs[result_index(rs, id)].id == id,
        forall|j: int| 0 <= j < result_index(rs, id) ==> (#[trigger] rs[j]).id != id,
    decreases rs.len(),
{
    if rs.len() > 0 && rs[0].id != id {
        lemma_result_index_found(rs.drop_first(), id);
        assert forall|j: int| 0 <= j < result_index(rs, id) implies (#[trigger] rs[j]).id != id by {
            if j > 0 {
                assert(rs[j] == rs.drop_first()[j - 1]);
            }
        }
    }
}

} // verus!
