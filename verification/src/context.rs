//! What the pipeline knows while it maps nodes: which Kotlin package and which Rust crate each
//! namespace belongs to, where each type is defined, the id of each type, and which namespace
//! is being mapped.

use vstd::prelude::*;
use crate::deconstruct::{
    extend_type_ids, find_first_type, first_index_of, keys_of, lemma_type_ids_after_empty, type_ids,
    type_ids_after,
};
use crate::error::BindgenError;
use crate::ffitypes::{Type, copy_type};

verus! {

/// The value of the first entry whose key is `key`.
pub open spec fn first_match<V>(m: Seq<(String, V)>, key: Seq<char>) -> Option<V>
    decreases m.len(),
{
    if m.len() == 0 {
        None
    } else if m[0].0@ == key {
        Some(m[0].1)
    } else {
        first_match(m.drop_first(), key)
    }
}

proof fn lemma_first_match_skip<V>(m: Seq<(String, V)>, key: Seq<char>, i: int)
    requires
        0 <= i <= m.len(),
        forall|j: int| 0 <= j < i ==> (#[trigger] m[j]).0@ != key,
    ensures
        first_match(m, key) == first_match(m.skip(i), key),
    decreases i,
{
    if i > 0 {
        assert(m[0].0@ != key);
        lemma_first_match_skip(m.drop_first(), key, i - 1);
        assert(m.drop_first().skip(i - 1) =~= m.skip(i));
        assert forall|j: int| 0 <= j < i - 1 implies (#[trigger] m.drop_first()[j]).0@ != key by {
            assert(m.drop_first()[j] == m[j + 1]);
        }
    } else {
        assert(m.skip(0) =~= m);
    }
}

/// The index of the first entry whose key is `key`.
pub fn find_entry<V>(m: &Vec<(String, V)>, key: &str) -> (r: Option<usize>)
    ensures
        match r {
            Some(i) => i < m@.len() && m@[i as int].0@ == key@ && first_match(m@, key@) == Some(
                m@[i as int].1,
            ) && forall|j: int| 0 <= j < i ==> (#[trigger] m@[j]).0@ != key@,
            None => first_match(m@, key@) is None,
        },
{
    let k = String::from_str(key);
    let mut i: usize = 0;
    while i < m.len()
        invariant
            i <= m@.len(),
            k@ == key@,
            forall|j: int| 0 <= j < i ==> (#[trigger] m@[j]).0@ != key@,
        decreases m@.len() - i,
    {
        if m[i].0 == k {
            proof {
                lemma_first_match_skip(m@, key@, i as int);
                assert(m@.skip(i as int)[0] == m@[i as int]);
            }
            return Some(i);
        }
        i = i + 1;
    }
    proof {
        lemma_first_match_skip(m@, key@, i as int);
        assert(m@.skip(i as int).len() == 0);
    }
    None
}

/// A namespace of the interface: its name and the crate that defines it.
pub struct Namespace {
    pub name: String,
    pub crate_name: String,
}

pub struct Context {
    /// Map namespace names to Kotlin packages
    pub package_map: Vec<(String, String)>,
    /// Map namespace names to Rust crates
    pub crate_map: Vec<(String, String)>,
    /// Map namespace names, then type names, to the module path that defines the type
    pub type_module_paths: Vec<(String, Vec<(String, String)>)>,
    /// The id of each type that the interface uses
    pub type_id_map: Vec<(Type, usize)>,
    pub current_crate_name: Option<String>,
    pub current_namespace_name: Option<String>,
}

/// The module path that defines a type, when the context knows it.
pub open spec fn module_path_of(ctx: Context, namespace: Seq<char>, type_orig_name: Seq<char>) -> Option<Seq<char>> {
    match first_match(ctx.type_module_paths@, namespace) {
        Some(paths) => match first_match(paths@, type_orig_name) {
            Some(p) => Some(p@),
            None => None,
        },
        None => None,
    }
}

impl Context {
    pub fn update_from_namespace(&mut self, namespace: &Namespace)
        ensures
            final(self).current_crate_name matches Some(c) && c@ == namespace.crate_name@,
            final(self).current_namespace_name matches Some(n) && n@ == namespace.name@,
            final(self).package_map == old(self).package_map,
            final(self).crate_map == old(self).crate_map,
            final(self).type_module_paths == old(self).type_module_paths,
            final(self).type_id_map == old(self).type_id_map,
    {
        self.current_crate_name = Some(namespace.crate_name.clone());
        self.current_namespace_name = Some(namespace.name.clone());
    }

    pub fn current_crate_name(&self) -> (r: Result<&str, BindgenError>)
        ensures
            match self.current_crate_name {
                Some(c) => r matches Ok(s) && s@ == c@,
                None => r == Err::<&str, BindgenError>(BindgenError::CurrentCrateNameNotSet),
            },
    {
        match &self.current_crate_name {
            Some(c) => Ok(c.as_str()),
            None => Err(BindgenError::CurrentCrateNameNotSet),
        }
    }

    pub fn namespace_name(&self) -> (r: Result<&str, BindgenError>)
        ensures
            match self.current_namespace_name {
                Some(n) => r matches Ok(s) && s@ == n@,
                None => r == Err::<&str, BindgenError>(BindgenError::CurrentNamespaceNameNotSet),
            },
    {
        match &self.current_namespace_name {
            Some(n) => Ok(n.as_str()),
            None => Err(BindgenError::CurrentNamespaceNameNotSet),
        }
    }

    pub fn package_name(&self, namespace_name: &str) -> (r: Result<&str, BindgenError>)
        ensures
            match first_match(self.package_map@, namespace_name@) {
                Some(p) => r matches Ok(s) && s@ == p@,
                None => r matches Err(BindgenError::PackageNameNotFound(n)) && n@ == namespace_name@,
            },
    {
        match find_entry(&self.package_map, namespace_name) {
            Some(i) => Ok(self.package_map[i].1.as_str()),
            None => Err(BindgenError::PackageNameNotFound(String::from_str(namespace_name))),
        }
    }

    pub fn crate_name(&self, namespace_name: &str) -> (r: Result<&str, BindgenError>)
        ensures
            match first_match(self.crate_map@, namespace_name@) {
                Some(c) => r matches Ok(s) && s@ == c@,
                None => r matches Err(BindgenError::CrateNameNotFound(n)) && n@ == namespace_name@,
            },
    {
        match find_entry(&self.crate_map, namespace_name) {
            Some(i) => Ok(self.crate_map[i].1.as_str()),
            None => Err(BindgenError::CrateNameNotFound(String::from_str(namespace_name))),
        }
    }

    pub fn module_path_for_type(&self, namespace: &str, type_orig_name: &str) -> (r: Result<
        &str,
        BindgenError,
    >)
        ensures
            match module_path_of(*self, namespace@, type_orig_name@) {
                Some(p) => r matches Ok(s) && s@ == p,
                None => r matches Err(BindgenError::ModulePathNotFound(n, t)) && n@ == namespace@
                    && t@ == type_orig_name@,
            },
    {
        if let Some(i) = find_entry(&self.type_module_paths, namespace) {
            let paths = &self.type_module_paths[i].1;
            if let Some(j) = find_entry(paths, type_orig_name) {
                return Ok(paths[j].1.as_str());
            }
        }
        Err(
            BindgenError::ModulePathNotFound(
                String::from_str(namespace),
                String::from_str(type_orig_name),
            ),
        )
    }
}

proof fn lemma_first_match_same_keys<V>(a: Seq<(String, V)>, b: Seq<(String, V)>, key: Seq<char>)
    requires
        a.len() == b.len(),
        forall|j: int| 0 <= j < a.len() ==> (#[trigger] a[j]).0@ == b[j].0@,
        forall|j: int| 0 <= j < a.len() && (#[trigger] a[j]).0@ == key ==> a[j].1 == b[j].1,
    ensures
        first_match(a, key) == first_match(b, key),
    decreases a.len(),
{
    if a.len() > 0 {
        assert(a[0].0@ == b[0].0@);
        assert forall|j: int| 0 <= j < a.drop_first().len() implies (#[trigger] a.drop_first()[j]).0@
            == b.drop_first()[j].0@ by {
            assert(a.drop_first()[j] == a[j + 1] && b.drop_first()[j] == b[j + 1]);
        }
        assert forall|j: int|
            0 <= j < a.drop_first().len() && (#[trigger] a.drop_first()[j]).0@ == key implies a.drop_first()[j].1
            == b.drop_first()[j].1 by {
            assert(a.drop_first()[j] == a[j + 1] && b.drop_first()[j] == b[j + 1]);
        }
        lemma_first_match_same_keys(a.drop_first(), b.drop_first(), key);
    }
}

proof fn lemma_first_match_push<V>(m: Seq<(String, V)>, e: (String, V), key: Seq<char>)
    ensures
        first_match(m.push(e), key) == (if first_match(m, key) is Some {
            first_match(m, key)
        } else if e.0@ == key {
            Some(e.1)
        } else {
            None
        }),
    decreases m.len(),
{
    if m.len() > 0 {
        assert(m.push(e).drop_first() =~= m.drop_first().push(e));
        assert(m.push(e)[0] == m[0]);
        lemma_first_match_push(m.drop_first(), e, key);
    } else {
        assert(m.push(e)[0] == e);
        assert(first_match(m.push(e).drop_first(), key) is None);
        assert(first_match(m, key) is None);
    }
}

/// Whether `after` maps `key` to `value` and every other key as `before` does.
pub open spec fn inserted<V>(before: Seq<(String, V)>, key: Seq<char>, value: V, after: Seq<(String, V)>) -> bool {
    &&& first_match(after, key) == Some(value)
    &&& forall|k: Seq<char>| k != key ==> first_match(after, k) == first_match(before, k)
}

/// Set the value of a key, as a map's `insert` does: replace the first entry with that key, or
/// add one at the end.
pub fn insert_entry<V>(m: &mut Vec<(String, V)>, key: String, value: V)
    ensures
        inserted(old(m)@, key@, value, final(m)@),
{
    match find_entry(m, key.as_str()) {
        Some(i) => {
            let ghost before = m@;
            m.set(i, (key, value));
            proof {
                let after = m@;
                assert forall|j: int| 0 <= j < i implies (#[trigger] after[j]).0@ != key@ by {
                    assert(after[j] == before[j]);
                }
                lemma_first_match_skip(after, key@, i as int);
                assert(after.skip(i as int)[0] == after[i as int]);
                assert forall|k: Seq<char>| k != key@ implies first_match(after, k) == first_match(
                    before,
                    k,
                ) by {
                    assert forall|j: int| 0 <= j < before.len() implies (#[trigger] before[j]).0@
                        == after[j].0@ by {
                        if j == i {
                            assert(before[j].0@ == key@);
                        }
                    }
                    lemma_first_match_same_keys(before, after, k);
                }
            }
        },
        None => {
            let ghost before = m@;
            m.push((key, value));
            proof {
                lemma_first_match_push(before, (key, value), key@);
                assert forall|k: Seq<char>| k != key@ implies first_match(m@, k) == first_match(before, k) by {
                    lemma_first_match_push(before, (key, value), k);
                }
            }
        },
    }
}

/// A type that a namespace defines, as far as the context is concerned.
pub enum NamespaceTypeDefinition {
    Record { orig_name: String, rust_module_path: String },
    Enum { orig_name: String, rust_module_path: String },
    Other,
}

/// A namespace of the interface, as the root lists it.
pub struct RootNamespace {
    pub name: String,
    pub crate_name: String,
    /// The Kotlin package that the namespace's configuration names, if any.
    pub config_package_name: Option<String>,
    pub type_definitions: Vec<NamespaceTypeDefinition>,
}

/// The module path of the last record or enum named `name` (a later definition replaces an
/// earlier one).
pub open spec fn defined_path(defs: Seq<NamespaceTypeDefinition>, name: Seq<char>) -> Option<String>
    decreases defs.len(),
{
    if defs.len() == 0 {
        None
    } else {
        match defs.last() {
            NamespaceTypeDefinition::Record { orig_name, rust_module_path } if orig_name@ == name => Some(
                rust_module_path,
            ),
            NamespaceTypeDefinition::Enum { orig_name, rust_module_path } if orig_name@ == name => Some(
                rust_module_path,
            ),
            _ => defined_path(defs.drop_last(), name),
        }
    }
}

/// Whether a list of (type name, module path) entries gives the module paths that the type
/// definitions give.
pub open spec fn paths_of(paths: Seq<(String, String)>, defs: Seq<NamespaceTypeDefinition>) -> bool {
    forall|name: Seq<char>| #[trigger] first_match(paths, name) == defined_path(defs, name)
}

impl Context {
    /// The module path of each record and enum of a namespace, by the type's name.
    pub fn type_module_paths(namespace: &RootNamespace) -> (r: Vec<(String, String)>)
        ensures
            paths_of(r@, namespace.type_definitions@),
    {
        let defs = &namespace.type_definitions;
        let mut r: Vec<(String, String)> = Vec::new();
        let mut i: usize = 0;
        while i < defs.len()
            invariant
                i <= defs@.len(),
                paths_of(r@, defs@.take(i as int)),
            decreases defs@.len() - i,
        {
            let ghost before = r@;
            proof {
                assert(defs@.take(i + 1 as int).drop_last() =~= defs@.take(i as int));
                assert(defs@.take(i + 1 as int).last() == defs@[i as int]);
            }
            match &defs[i] {
                NamespaceTypeDefinition::Record { orig_name, rust_module_path }
                | NamespaceTypeDefinition::Enum { orig_name, rust_module_path } => {
                    insert_entry(&mut r, orig_name.clone(), rust_module_path.clone());
                    proof {
                        assert forall|name: Seq<char>| #[trigger] first_match(r@, name) == defined_path(
                            defs@.take(i + 1 as int),
                            name,
                        ) by {
                            if name != orig_name@ {
                                assert(first_match(before, name) == defined_path(defs@.take(i as int), name));
                            }
                        }
                    }
                },
                NamespaceTypeDefinition::Other => {
                    proof {
                        assert forall|name: Seq<char>| #[trigger] first_match(r@, name) == defined_path(
                            defs@.take(i + 1 as int),
                            name,
                        ) by {
                            assert(first_match(before, name) == defined_path(defs@.take(i as int), name));
                        }
                    }
                },
            }
            i = i + 1;
        }
        proof {
            assert(defs@.take(i as int) =~= defs@);
        }
        r
    }
}

/// The id of a type: that of its first entry.
pub open spec fn type_id_of(m: Seq<(Type, usize)>, ty: Type) -> Option<usize> {
    let i = first_index_of(keys_of(m), ty);
    if 0 <= i < m.len() {
        Some(m[i].1)
    } else {
        None
    }
}

impl Context {
    /// The id of a type that the root uses.
    pub fn get_type_id(&self, ty: &Type) -> (r: Result<usize, BindgenError>)
        ensures
            match type_id_of(self.type_id_map@, *ty) {
                Some(id) => r == Ok::<usize, BindgenError>(id),
                None => r == Err::<usize, BindgenError>(BindgenError::TypeIdNotFound(*ty)),
            },
    {
        match find_first_type(&self.type_id_map, ty) {
            Some(i) => Ok(self.type_id_map[i].1),
            None => Err(BindgenError::TypeIdNotFound(copy_type(ty))),
        }
    }
}

/// The last namespace of a list with a name (a later namespace replaces an earlier one).
pub open spec fn last_namespace(nss: Seq<RootNamespace>, name: Seq<char>) -> Option<RootNamespace>
    decreases nss.len(),
{
    if nss.len() == 0 {
        None
    } else if nss.last().name@ == name {
        Some(nss.last())
    } else {
        last_namespace(nss.drop_last(), name)
    }
}

/// The Kotlin package of a namespace: the one its configuration names, else `uniffi.` and the
/// namespace's name.
pub open spec fn package_of(ns: RootNamespace) -> Seq<char> {
    match ns.config_package_name {
        Some(p) => p@,
        None => "uniffi."@ + ns.name@,
    }
}

/// Whether the context after an update knows the package, crate and type module paths of the
/// namespaces, and keeps what it knew of other namespaces.
pub open spec fn knows_namespaces(before: Context, nss: Seq<RootNamespace>, after: Context) -> bool {
    forall|k: Seq<char>|
        match #[trigger] last_namespace(nss, k) {
            Some(ns) => {
                &&& first_match(after.package_map@, k) matches Some(p) && p@ == package_of(ns)
                &&& first_match(after.crate_map@, k) matches Some(c) && c@ == ns.crate_name@
                &&& first_match(after.type_module_paths@, k) matches Some(ps) && paths_of(
                    ps@,
                    ns.type_definitions@,
                )
            },
            None => {
                &&& first_match(after.package_map@, k) == first_match(before.package_map@, k)
                &&& first_match(after.crate_map@, k) == first_match(before.crate_map@, k)
                &&& first_match(after.type_module_paths@, k) == first_match(
                    before.type_module_paths@,
                    k,
                )
            },
        }
}

impl Context {
    /// Learn the Kotlin package, the crate and the type module paths of each namespace of the
    /// root, then number the types that the root uses (`visited_types`, in the order a visit of
    /// the root meets them).
    pub fn update_from_root(&mut self, namespaces: &Vec<RootNamespace>, visited_types: &Vec<Type>)
        ensures
            knows_namespaces(*old(self), namespaces@, *final(self)),
            final(self).type_id_map@ == type_ids_after(old(self).type_id_map@, visited_types@),
            old(self).type_id_map@.len() == 0 ==> final(self).type_id_map@ == type_ids(visited_types@),
            final(self).current_crate_name == old(self).current_crate_name,
            final(self).current_namespace_name == old(self).current_namespace_name,
    {
        let ghost start = *self;
        let mut i: usize = 0;
        proof {
            assert forall|k: Seq<char>| #[trigger] last_namespace(namespaces@.take(0), k) is None by {
                assert(namespaces@.take(0).len() == 0);
            }
        }
        while i < namespaces.len()
            invariant
                i <= namespaces@.len(),
                start == *old(self),
                self.type_id_map == start.type_id_map,
                self.current_crate_name == start.current_crate_name,
                self.current_namespace_name == start.current_namespace_name,
                knows_namespaces(start, namespaces@.take(i as int), *self),
            decreases namespaces@.len() - i,
        {
            let namespace = &namespaces[i];
            let ghost before = *self;
            let ghost prefix = namespaces@.take(i as int);
            let ghost next = namespaces@.take(i + 1 as int);
            proof {
                assert(next.drop_last() =~= prefix);
                assert(next.last() == *namespace);
                reveal_strlit("uniffi.");
            }
            let package_name = match &namespace.config_package_name {
                Some(name) => name.clone(),
                None => {
                    let mut p = String::from_str("uniffi.");
                    p.append(namespace.name.as_str());
                    p
                },
            };
            let ghost pkgs = self.package_map@;
            let ghost crates = self.crate_map@;
            let ghost paths = self.type_module_paths@;
            insert_entry(&mut self.package_map, namespace.name.clone(), package_name);
            insert_entry(&mut self.crate_map, namespace.name.clone(), namespace.crate_name.clone());
            let ps = Self::type_module_paths(namespace);
            insert_entry(&mut self.type_module_paths, namespace.name.clone(), ps);
            proof {
                assert forall|k: Seq<char>| #![trigger last_namespace(next, k)]
                    match last_namespace(next, k) {
                        Some(ns) => {
                            &&& first_match(self.package_map@, k) matches Some(p) && p@ == package_of(ns)
                            &&& first_match(self.crate_map@, k) matches Some(c) && c@ == ns.crate_name@
                            &&& first_match(self.type_module_paths@, k) matches Some(ps) && paths_of(
                                ps@,
                                ns.type_definitions@,
                            )
                        },
                        None => {
                            &&& first_match(self.package_map@, k) == first_match(start.package_map@, k)
                            &&& first_match(self.crate_map@, k) == first_match(start.crate_map@, k)
                            &&& first_match(self.type_module_paths@, k) == first_match(
                                start.type_module_paths@,
                                k,
                            )
                        },
                    } by {
                    if k != namespace.name@ {
                        assert(last_namespace(next, k) == last_namespace(prefix, k));
                        assert(first_match(pkgs, k) == first_match(self.package_map@, k));
                    }
                }
            }
            i = i + 1;
        }
        proof {
            assert(namespaces@.take(i as int) =~= namespaces@);
        }
        proof {
            if self.type_id_map@.len() == 0 {
                assert(self.type_id_map@ =~= Seq::<(Type, usize)>::empty());
                lemma_type_ids_after_empty(visited_types@);
            }
        }
        extend_type_ids(&mut self.type_id_map, visited_types);
    }
}

} // verus!
