//! Which types can be deconstructed into primitive FFI values, and into which ones.
//!
//! A record whose fields are all primitive is passed as the primitive values of its fields, in
//! order.  An optional deconstructable type is passed as a `Boolean` flag followed by the
//! values of the inner type.  The results are kept in a map, so that each type is looked at
//! once; a type seen again before it got an entry (a cycle, or a type already given up on) is
//! not deconstructable.

use vstd::prelude::*;
use crate::error::BindgenError;
use crate::ffitypes::{FfiType, Type, copy_type, primitive_ffi_type};
use crate::nodes::{LowerableType, copy_ffi_types};

verus! {

/// Whether two types are the same, comparing names by their text.
pub open spec fn same_type(a: Type, b: Type) -> bool
    decreases a,
{
    match (a, b) {
        (Type::Optional { inner_type: x }, Type::Optional { inner_type: y }) => same_type(*x, *y),
        (Type::Sequence { inner_type: x }, Type::Sequence { inner_type: y }) => same_type(*x, *y),
        (Type::Box { inner_type: x }, Type::Box { inner_type: y }) => same_type(*x, *y),
        (
            Type::Dictionary { key_type: k1, value_type: v1 },
            Type::Dictionary { key_type: k2, value_type: v2 },
        ) => same_type(*k1, *k2) && same_type(*v1, *v2),
        (
            Type::Record { namespace: n1, name: m1, orig_name: o1 },
            Type::Record { namespace: n2, name: m2, orig_name: o2 },
        ) => n1@ == n2@ && m1@ == m2@ && o1@ == o2@,
        (
            Type::Enum { namespace: n1, name: m1, orig_name: o1 },
            Type::Enum { namespace: n2, name: m2, orig_name: o2 },
        ) => n1@ == n2@ && m1@ == m2@ && o1@ == o2@,
        (
            Type::Interface { namespace: n1, name: m1, orig_name: o1, imp: i1 },
            Type::Interface { namespace: n2, name: m2, orig_name: o2, imp: i2 },
        ) => n1@ == n2@ && m1@ == m2@ && o1@ == o2@ && i1 == i2,
        (
            Type::CallbackInterface { namespace: n1, name: m1, orig_name: o1 },
            Type::CallbackInterface { namespace: n2, name: m2, orig_name: o2 },
        ) => n1@ == n2@ && m1@ == m2@ && o1@ == o2@,
        (
            Type::Custom { namespace: n1, name: m1, orig_name: o1 },
            Type::Custom { namespace: n2, name: m2, orig_name: o2 },
        ) => n1@ == n2@ && m1@ == m2@ && o1@ == o2@,
        _ => a == b,
    }
}

/// Every type is the same as itself.
pub proof fn lemma_same_type_refl(a: Type)
    ensures
        same_type(a, a),
    decreases a,
{
    match a {
        Type::Optional { inner_type } => lemma_same_type_refl(*inner_type),
        Type::Sequence { inner_type } => lemma_same_type_refl(*inner_type),
        Type::Box { inner_type } => lemma_same_type_refl(*inner_type),
        Type::Dictionary { key_type, value_type } => {
            lemma_same_type_refl(*key_type);
            lemma_same_type_refl(*value_type);
        },
        _ => {},
    }
}

/// Sameness of types is symmetric.
pub proof fn lemma_same_type_symm(a: Type, b: Type)
    requires
        same_type(a, b),
    ensures
        same_type(b, a),
    decreases a,
{
    match (a, b) {
        (Type::Optional { inner_type: x }, Type::Optional { inner_type: y }) => {
            lemma_same_type_symm(*x, *y)
        },
        (Type::Sequence { inner_type: x }, Type::Sequence { inner_type: y }) => {
            lemma_same_type_symm(*x, *y)
        },
        (Type::Box { inner_type: x }, Type::Box { inner_type: y }) => lemma_same_type_symm(*x, *y),
        (
            Type::Dictionary { key_type: k1, value_type: v1 },
            Type::Dictionary { key_type: k2, value_type: v2 },
        ) => {
            lemma_same_type_symm(*k1, *k2);
            lemma_same_type_symm(*v1, *v2);
        },
        _ => {},
    }
}

/// Sameness of types is transitive.
pub proof fn lemma_same_type_trans(a: Type, b: Type, c: Type)
    requires
        same_type(a, b),
        same_type(b, c),
    ensures
        same_type(a, c),
    decreases a,
{
    match (a, b, c) {
        (
            Type::Optional { inner_type: x },
            Type::Optional { inner_type: y },
            Type::Optional { inner_type: z },
        ) => lemma_same_type_trans(*x, *y, *z),
        (
            Type::Sequence { inner_type: x },
            Type::Sequence { inner_type: y },
            Type::Sequence { inner_type: z },
        ) => lemma_same_type_trans(*x, *y, *z),
        (Type::Box { inner_type: x }, Type::Box { inner_type: y }, Type::Box { inner_type: z }) => {
            lemma_same_type_trans(*x, *y, *z)
        },
        (
            Type::Dictionary { key_type: k1, value_type: v1 },
            Type::Dictionary { key_type: k2, value_type: v2 },
            Type::Dictionary { key_type: k3, value_type: v3 },
        ) => {
            lemma_same_type_trans(*k1, *k2, *k3);
            lemma_same_type_trans(*v1, *v2, *v3);
        },
        _ => {},
    }
}

/// Whether two types are the same, comparing names by their text.
pub fn types_equal(a: &Type, b: &Type) -> (r: bool)
    ensures
        r == same_type(*a, *b),
    decreases a,
{
    match (a, b) {
        (Type::Optional { inner_type: x }, Type::Optional { inner_type: y }) => types_equal(x, y),
        (Type::Sequence { inner_type: x }, Type::Sequence { inner_type: y }) => types_equal(x, y),
        (Type::Box { inner_type: x }, Type::Box { inner_type: y }) => types_equal(x, y),
        (
            Type::Dictionary { key_type: k1, value_type: v1 },
            Type::Dictionary { key_type: k2, value_type: v2 },
        ) => types_equal(k1, k2) && types_equal(v1, v2),
        (
            Type::Record { namespace: n1, name: m1, orig_name: o1 },
            Type::Record { namespace: n2, name: m2, orig_name: o2 },
        ) => *n1 == *n2 && *m1 == *m2 && *o1 == *o2,
        (
            Type::Enum { namespace: n1, name: m1, orig_name: o1 },
            Type::Enum { namespace: n2, name: m2, orig_name: o2 },
        ) => *n1 == *n2 && *m1 == *m2 && *o1 == *o2,
        (
            Type::Interface { namespace: n1, name: m1, orig_name: o1, imp: i1 },
            Type::Interface { namespace: n2, name: m2, orig_name: o2, imp: i2 },
        ) => *n1 == *n2 && *m1 == *m2 && *o1 == *o2 && *i1 == *i2,
        (
            Type::CallbackInterface { namespace: n1, name: m1, orig_name: o1 },
            Type::CallbackInterface { namespace: n2, name: m2, orig_name: o2 },
        ) => *n1 == *n2 && *m1 == *m2 && *o1 == *o2,
        (
            Type::Custom { namespace: n1, name: m1, orig_name: o1 },
            Type::Custom { namespace: n2, name: m2, orig_name: o2 },
        ) => *n1 == *n2 && *m1 == *m2 && *o1 == *o2,
        (Type::UInt8, Type::UInt8) => true,
        (Type::Int8, Type::Int8) => true,
        (Type::UInt16, Type::UInt16) => true,
        (Type::Int16, Type::Int16) => true,
        (Type::UInt32, Type::UInt32) => true,
        (Type::Int32, Type::Int32) => true,
        (Type::UInt64, Type::UInt64) => true,
        (Type::Int64, Type::Int64) => true,
        (Type::Float32, Type::Float32) => true,
        (Type::Float64, Type::Float64) => true,
        (Type::Boolean, Type::Boolean) => true,
        (Type::String, Type::String) => true,
        (Type::Bytes, Type::Bytes) => true,
        (Type::Timestamp, Type::Timestamp) => true,
        (Type::Duration, Type::Duration) => true,
        _ => false,
    }
}

/// The types that a list of entries is keyed by.
pub open spec fn keys_of<V>(m: Seq<(Type, V)>) -> Seq<Type> {
    Seq::new(m.len(), |i: int| m[i].0)
}

/// The index of the first key that is the same as `ty`, or the number of keys if there is
/// none.
pub open spec fn first_index_of(keys: Seq<Type>, ty: Type) -> int
    decreases keys.len(),
{
    if keys.len() == 0 {
        0
    } else if same_type(keys[0], ty) {
        0
    } else {
        1 + first_index_of(keys.drop_first(), ty)
    }
}

/// The index of the last key that is the same as `ty`, or -1 if there is none.
pub open spec fn last_index_of(keys: Seq<Type>, ty: Type) -> int
    decreases keys.len(),
{
    if keys.len() == 0 {
        -1
    } else if same_type(keys.last(), ty) {
        keys.len() - 1
    } else {
        last_index_of(keys.drop_last(), ty)
    }
}

/// Whether a list of types holds one that is the same as `ty`.
pub open spec fn has_type(s: Seq<Type>, ty: Type) -> bool {
    exists|i: int| 0 <= i < s.len() && same_type(#[trigger] s[i], ty)
}

proof fn lemma_first_index(keys: Seq<Type>, ty: Type, i: int)
    requires
        0 <= i <= keys.len(),
        forall|j: int| 0 <= j < i ==> !same_type(#[trigger] keys[j], ty),
        i < keys.len() ==> same_type(keys[i], ty),
    ensures
        first_index_of(keys, ty) == i,
    decreases i,
{
    if i > 0 {
        assert(!same_type(keys[0], ty));
        assert forall|j: int| 0 <= j < i - 1 implies !same_type(
            #[trigger] keys.drop_first()[j],
            ty,
        ) by {
            assert(keys.drop_first()[j] == keys[j + 1]);
        }
        lemma_first_index(keys.drop_first(), ty, i - 1);
    }
}

proof fn lemma_last_index(keys: Seq<Type>, ty: Type, i: int)
    requires
        -1 <= i < keys.len(),
        forall|j: int| i < j < keys.len() ==> !same_type(#[trigger] keys[j], ty),
        i >= 0 ==> same_type(keys[i], ty),
    ensures
        last_index_of(keys, ty) == i,
    decreases keys.len(),
{
    if keys.len() > 0 && i < keys.len() - 1 {
        assert(!same_type(keys[keys.len() - 1], ty));
        assert forall|j: int| i < j < keys.len() - 1 implies !same_type(
            #[trigger] keys.drop_last()[j],
            ty,
        ) by {
            assert(keys.drop_last()[j] == keys[j]);
        }
        lemma_last_index(keys.drop_last(), ty, i);
    }
}

/// The index of the first entry whose type is the same as `ty`, if there is one.
pub fn find_first_type<V>(m: &Vec<(Type, V)>, ty: &Type) -> (r: Option<usize>)
    ensures
        match r {
            Some(i) => i == first_index_of(keys_of(m@), *ty) && i < m@.len(),
            None => first_index_of(keys_of(m@), *ty) == m@.len(),
        },
{
    let mut i: usize = 0;
    while i < m.len()
        invariant
            i <= m@.len(),
            forall|j: int| 0 <= j < i ==> !same_type(#[trigger] keys_of(m@)[j], *ty),
        decreases m@.len() - i,
    {
        if types_equal(&m[i].0, ty) {
            proof {
                lemma_first_index(keys_of(m@), *ty, i as int);
            }
            return Some(i);
        }
        i = i + 1;
    }
    proof {
        lemma_first_index(keys_of(m@), *ty, i as int);
    }
    None
}

/// The index of the last entry whose type is the same as `ty`, if there is one.
pub fn find_last_type<V>(m: &Vec<(Type, V)>, ty: &Type) -> (r: Option<usize>)
    ensures
        match r {
            Some(i) => i == last_index_of(keys_of(m@), *ty) && i < m@.len(),
            None => last_index_of(keys_of(m@), *ty) == -1,
        },
{
    let mut i: usize = m.len();
    while i > 0
        invariant
            i <= m@.len(),
            forall|j: int| i <= j < m@.len() ==> !same_type(#[trigger] keys_of(m@)[j], *ty),
        decreases i,
    {
        if types_equal(&m[i - 1].0, ty) {
            proof {
                lemma_last_index(keys_of(m@), *ty, i - 1);
            }
            return Some(i - 1);
        }
        i = i - 1;
    }
    proof {
        lemma_last_index(keys_of(m@), *ty, -1);
    }
    None
}

/// Whether a list of types holds one that is the same as `ty`.
pub fn contains_type(s: &Vec<Type>, ty: &Type) -> (b: bool)
    ensures
        b == has_type(s@, *ty),
{
    let mut i: usize = 0;
    while i < s.len()
        invariant
            i <= s@.len(),
            forall|j: int| 0 <= j < i ==> !same_type(#[trigger] s@[j], *ty),
        decreases s@.len() - i,
    {
        if types_equal(&s[i], ty) {
            return true;
        }
        i = i + 1;
    }
    false
}

/// The lists of FFI types, by their view.
pub open spec fn memo_view(m: Seq<(Type, Vec<FfiType>)>) -> Seq<(Type, Seq<FfiType>)> {
    m.map_values(|e: (Type, Vec<FfiType>)| (e.0, e.1@))
}

/// The field types of the records, by their view.
pub open spec fn records_view(m: Seq<(Type, Vec<Type>)>) -> Seq<(Type, Seq<Type>)> {
    m.map_values(|e: (Type, Vec<Type>)| (e.0, e.1@))
}

/// The FFI types that a type already got, if any.
pub open spec fn memo_get(memo: Seq<(Type, Seq<FfiType>)>, ty: Type) -> Option<Seq<FfiType>> {
    let i = first_index_of(keys_of(memo), ty);
    if i < memo.len() {
        Some(memo[i].1)
    } else {
        None
    }
}

/// The field types of a record type: those of the last record listed for it (a later entry
/// replaces an earlier one).
pub open spec fn record_fields(records: Seq<(Type, Seq<Type>)>, ty: Type) -> Option<Seq<Type>> {
    let i = last_index_of(keys_of(records), ty);
    if i >= 0 {
        Some(records[i].1)
    } else {
        None
    }
}

/// Whether every type of a list is passed as one primitive FFI value.
pub open spec fn all_primitive(fields: Seq<Type>) -> bool {
    forall|i: int| 0 <= i < fields.len() ==> (#[trigger] primitive_ffi_type(fields[i])) is Some
}

/// The primitive FFI values of a list of primitive types.
pub open spec fn primitive_types(fields: Seq<Type>) -> Seq<FfiType> {
    fields.map_values(|t: Type| primitive_ffi_type(t).unwrap())
}

/// The map from types to their FFI types, and the types already looked at.
pub struct DeconstructState {
    pub memo: Seq<(Type, Seq<FfiType>)>,
    pub visited: Seq<Type>,
}

/// What looking at a type gives, and the state after it: the FFI types that it is
/// deconstructed into (`None` where it can't be), or the record type whose fields are missing.
///
/// A type that already got FFI types gets them again.  A type looked at before without getting
/// any is not deconstructable: either it was given up on, or it is part of a cycle.  Otherwise
/// the type is marked as looked at, and:
/// * a record whose fields are all primitive is passed as their values; a record with any
///   other field is not deconstructable (the field is looked up as the record itself, which is
///   marked already);
/// * an optional type is passed as a `Boolean` and the values of the inner type;
/// * no other type is deconstructable.
pub open spec fn deconstruct_step(
    records: Seq<(Type, Seq<Type>)>,
    ty: Type,
    st: DeconstructState,
) -> (Result<Option<Seq<FfiType>>, Type>, DeconstructState)
    decreases ty,
{
    match memo_get(st.memo, ty) {
        Some(v) => (Ok(Some(v)), st),
        None => if has_type(st.visited, ty) {
            (Ok(None), st)
        } else {
            let st1 = DeconstructState { memo: st.memo, visited: st.visited.push(ty) };
            match ty {
                Type::Record { .. } => match record_fields(records, ty) {
                    None => (Err(ty), st1),
                    Some(fields) => if all_primitive(fields) {
                        let v = primitive_types(fields);
                        (Ok(Some(v)), DeconstructState { memo: st1.memo.push((ty, v)), visited: st1.visited })
                    } else {
                        (Ok(None), st1)
                    },
                },
                Type::Optional { inner_type } => {
                    let (r, st2) = deconstruct_step(records, *inner_type, st1);
                    match r {
                        Ok(Some(v)) => {
                            let w = seq![FfiType::Boolean] + v;
                            (Ok(Some(w)), DeconstructState { memo: st2.memo.push((ty, w)), visited: st2.visited })
                        },
                        _ => (r, st2),
                    }
                },
                _ => (Ok(None), st1),
            }
        },
    }
}

/// How deeply a type nests optionals.
pub open spec fn optional_depth(t: Type) -> nat
    decreases t,
{
    match t {
        Type::Optional { inner_type } => 1 + optional_depth(*inner_type),
        _ => 0,
    }
}

/// Whether `e` is the same as `ty` or as a type that `ty` holds as an optional.
pub open spec fn occurs_in(e: Type, ty: Type) -> bool
    decreases ty,
{
    same_type(e, ty) || match ty {
        Type::Optional { inner_type } => occurs_in(e, *inner_type),
        _ => false,
    }
}

proof fn lemma_same_type_depth(a: Type, b: Type)
    requires
        same_type(a, b),
    ensures
        optional_depth(a) == optional_depth(b),
    decreases a,
{
    match a {
        Type::Optional { inner_type: x } => match b {
            Type::Optional { inner_type: y } => lemma_same_type_depth(*x, *y),
            _ => {},
        },
        _ => match b {
            Type::Optional { .. } => {},
            _ => {},
        },
    }
}

proof fn lemma_occurs_depth(e: Type, ty: Type)
    requires
        occurs_in(e, ty),
    ensures
        optional_depth(e) <= optional_depth(ty),
    decreases ty,
{
    if same_type(e, ty) {
        lemma_same_type_depth(e, ty);
    } else {
        match ty {
            Type::Optional { inner_type } => lemma_occurs_depth(e, *inner_type),
            _ => {},
        }
    }
}

proof fn lemma_has_type_push(s: Seq<Type>, x: Type, t: Type)
    ensures
        has_type(s.push(x), t) <==> (has_type(s, t) || same_type(x, t)),
{
    if has_type(s, t) {
        let i = choose|i: int| 0 <= i < s.len() && same_type(#[trigger] s[i], t);
        assert(s.push(x)[i] == s[i]);
    }
    if same_type(x, t) {
        assert(s.push(x)[s.len() as int] == x);
    }
    if has_type(s.push(x), t) {
        let i = choose|i: int| 0 <= i < s.push(x).len() && same_type(#[trigger] s.push(x)[i], t);
        if i < s.len() {
            assert(s.push(x)[i] == s[i]);
        }
    }
}

/// A type that gets FFI types gets the same ones when one more type, which it does not hold,
/// is marked as looked at.
proof fn lemma_step_ignores_extra_visited(
    records: Seq<(Type, Seq<Type>)>,
    ty: Type,
    a: DeconstructState,
    b: DeconstructState,
    extra: Type,
)
    requires
        a.memo == b.memo,
        forall|t: Type| #[trigger] has_type(b.visited, t) <==> (has_type(a.visited, t) || same_type(extra, t)),
        !occurs_in(extra, ty),
        deconstruct_step(records, ty, a).0 matches Ok(Some(_)),
    ensures
        deconstruct_step(records, ty, b).0 == deconstruct_step(records, ty, a).0,
    decreases ty,
{
    if memo_get(a.memo, ty) is None {
        assert(!has_type(b.visited, ty));
        match ty {
            Type::Optional { inner_type } => {
                let a1 = DeconstructState { memo: a.memo, visited: a.visited.push(ty) };
                let b1 = DeconstructState { memo: b.memo, visited: b.visited.push(ty) };
                assert forall|t: Type| #[trigger] has_type(b1.visited, t) <==> (has_type(a1.visited, t)
                    || same_type(extra, t)) by {
                    lemma_has_type_push(a.visited, ty, t);
                    lemma_has_type_push(b.visited, ty, t);
                }
                lemma_step_ignores_extra_visited(records, *inner_type, a1, b1, extra);
            },
            _ => {},
        }
    }
}

/// An optional type is passed as a `Boolean` followed by the values of its inner type: when
/// the optional has not been looked at yet, it gets `Boolean` and the inner type's FFI types,
/// whether the inner type got them before or gets them now.
pub proof fn law_optional_gets_inner_values(
    records: Seq<(Type, Seq<Type>)>,
    inner: Type,
    st: DeconstructState,
    v: Seq<FfiType>,
)
    requires
        memo_get(st.memo, Type::Optional { inner_type: Box::new(inner) }) is None,
        !has_type(st.visited, Type::Optional { inner_type: Box::new(inner) }),
        deconstruct_step(records, inner, st).0 == Ok::<Option<Seq<FfiType>>, Type>(Some(v)),
    ensures
        deconstruct_step(records, Type::Optional { inner_type: Box::new(inner) }, st).0 == Ok::<
            Option<Seq<FfiType>>,
            Type,
        >(Some(seq![FfiType::Boolean] + v)),
{
    let opt = Type::Optional { inner_type: Box::new(inner) };
    let st1 = DeconstructState { memo: st.memo, visited: st.visited.push(opt) };
    assert forall|t: Type| #[trigger] has_type(st1.visited, t) <==> (has_type(st.visited, t)
        || same_type(opt, t)) by {
        lemma_has_type_push(st.visited, opt, t);
    }
    if occurs_in(opt, inner) {
        lemma_occurs_depth(opt, inner);
    }
    lemma_step_ignores_extra_visited(records, inner, st, st1, opt);
}

/// Context for `create_deconstructable_types_recurse`
pub struct DeconstructContext {
    /// The FFI types of each type found deconstructable so far.
    pub deconstructable_types: Vec<(Type, Vec<FfiType>)>,
    /// The types looked at so far.
    pub visited: Vec<Type>,
    /// Each record type with the types of its fields.
    pub records: Vec<(Type, Vec<Type>)>,
}

/// The state of a context.
pub open spec fn context_state(c: DeconstructContext) -> DeconstructState {
    DeconstructState { memo: memo_view(c.deconstructable_types@), visited: c.visited@ }
}

/// Whether a result and a context after the call agree with `deconstruct_step` from the
/// context before it.
pub open spec fn recurse_post(
    ty: Type,
    before: DeconstructContext,
    r: Result<Option<Vec<FfiType>>, BindgenError>,
    after: DeconstructContext,
) -> bool {
    let (out, st) = deconstruct_step(records_view(before.records@), ty, context_state(before));
    &&& after.records == before.records
    &&& context_state(after) == st
    &&& match out {
        Ok(Some(v)) => r matches Ok(Some(w)) && w@ == v,
        Ok(None) => r matches Ok(None),
        Err(t) => r == Err::<Option<Vec<FfiType>>, BindgenError>(BindgenError::MissingRecord(t)),
    }
}

proof fn lemma_keys_of_memo_view(m: Seq<(Type, Vec<FfiType>)>)
    ensures
        keys_of(memo_view(m)) == keys_of(m),
{
    assert(keys_of(memo_view(m)) =~= keys_of(m));
}

proof fn lemma_keys_of_records_view(m: Seq<(Type, Vec<Type>)>)
    ensures
        keys_of(records_view(m)) == keys_of(m),
{
    assert(keys_of(records_view(m)) =~= keys_of(m));
}

/// Find the FFI types that a type is deconstructed into, and remember them in the context.
pub fn create_deconstructable_types_recurse(ty: &Type, context: &mut DeconstructContext) -> (r:
    Result<Option<Vec<FfiType>>, BindgenError>)
    ensures
        recurse_post(*ty, *old(context), r, *final(context)),
    decreases *ty, (if has_type(old(context).visited@, *ty) { 0int } else { 1int }),
{
    let ghost before = *context;
    proof {
        lemma_keys_of_memo_view(context.deconstructable_types@);
        lemma_keys_of_records_view(context.records@);
    }
    if let Some(i) = find_first_type(&context.deconstructable_types, ty) {
        return Ok(Some(copy_ffi_types(&context.deconstructable_types[i].1)));
    }
    if contains_type(&context.visited, ty) {
        // We've already visited this record and didn't insert it into the map.
        // This means that either we've already determined there's no strategy
        // or we've just detected a cycle in the dependency graph
        // which means the type is not deconstructable.
        return Ok(None);
    }
    context.visited.push(copy_type(ty));
    proof {
        lemma_same_type_refl(*ty);
        assert(context.visited@[context.visited@.len() - 1] == *ty);
    }
    let ffi_types: Vec<FfiType> = match ty {
        Type::Record { .. } => {
            let mut field_ffi_types: Vec<FfiType> = Vec::new();
            let ri = match find_last_type(&context.records, ty) {
                Some(ri) => ri,
                None => {
                    return Err(BindgenError::MissingRecord(copy_type(ty)));
                },
            };
            let ghost fields = context.records@[ri as int].1@;
            let n = context.records[ri].1.len();
            let mut j: usize = 0;
            while j < n
                invariant
                    before == *old(context),
                    *ty is Record,
                    !has_type(before.visited@, *ty),
                    memo_get(memo_view(before.deconstructable_types@), *ty) is None,
                    same_type(*ty, *ty),
                    context.records == before.records,
                    context_state(*context) == (DeconstructState {
                        memo: memo_view(before.deconstructable_types@),
                        visited: before.visited@.push(*ty),
                    }),
                    ri < before.records@.len(),
                    ri == last_index_of(keys_of(before.records@), *ty),
                    fields == before.records@[ri as int].1@,
                    n == fields.len(),
                    j <= n,
                    all_primitive(fields.subrange(0, j as int)),
                    field_ffi_types@ == primitive_types(fields.subrange(0, j as int)),
                decreases n - j,
            {
                let f = copy_type(&context.records[ri].1[j]);
                match FfiType::for_primitive(&f) {
                    Some(ffi_type) => {
                        // Primitive field
                        field_ffi_types.push(ffi_type);
                        proof {
                            assert(fields.subrange(0, j + 1) =~= fields.subrange(0, j as int).push(f));
                            assert(primitive_types(fields.subrange(0, j + 1)) =~= primitive_types(
                                fields.subrange(0, j as int),
                            ).push(ffi_type));
                        }
                    },
                    None => {
                        proof {
                            assert(context.visited@[context.visited@.len() - 1] == *ty);
                            lemma_keys_of_memo_view(context.deconstructable_types@);
                            lemma_keys_of_memo_view(before.deconstructable_types@);
                        }
                        // The field is looked up as the record itself, which is marked visited
                        // already, so this gives up on the record.
                        let child = create_deconstructable_types_recurse(ty, context);
                        match child {
                            Err(e) => {
                                return Err(e);
                            },
                            Ok(Some(child_primitives)) => {
                                let mut k: usize = 0;
                                while k < child_primitives.len()
                                    decreases child_primitives@.len() - k,
                                {
                                    field_ffi_types.push(child_primitives[k]);
                                    k = k + 1;
                                }
                            },
                            Ok(None) => {
                                // Field can't be deconstructed, give up on this record
                                proof {
                                    assert(primitive_ffi_type(fields[j as int]) is None);
                                    assert(!all_primitive(fields));
                                    lemma_keys_of_records_view(before.records@);
                                    assert(records_view(before.records@)[ri as int].1 == fields);
                                    assert(record_fields(records_view(before.records@), *ty)
                                        == Some(fields));
                                }
                                return Ok(None);
                            },
                        }
                    },
                }
                j = j + 1;
            }
            proof {
                assert(fields.subrange(0, j as int) =~= fields);
                lemma_keys_of_records_view(before.records@);
                assert(records_view(before.records@)[ri as int].1 == fields);
            }
            field_ffi_types
        },
        Type::Optional { inner_type } => {
            match create_deconstructable_types_recurse(inner_type, context) {
                Err(e) => {
                    return Err(e);
                },
                Ok(None) => {
                    return Ok(None);
                },
                Ok(Some(ffi_types)) => {
                    let ghost inner = ffi_types@;
                    let mut ffi_types = ffi_types;
                    ffi_types.insert(0, FfiType::Boolean);
                    proof {
                        assert(ffi_types@ =~= seq![FfiType::Boolean] + inner);
                    }
                    ffi_types
                },
            }
        },
        // TODO handle more types
        _ => {
            return Ok(None);
        },
    };
    let entry = (copy_type(ty), copy_ffi_types(&ffi_types));
    let ghost memo_before_push = context.deconstructable_types@;
    context.deconstructable_types.push(entry);
    proof {
        assert(memo_view(context.deconstructable_types@) =~= memo_view(memo_before_push).push(
            (*ty, ffi_types@),
        ));
    }
    Ok(Some(ffi_types))
}


/// The state after looking at the first `n` types in order, from an empty map; or the first
/// record type found missing.
pub open spec fn deconstruct_prefix(
    records: Seq<(Type, Seq<Type>)>,
    types: Seq<Type>,
    n: nat,
) -> Result<DeconstructState, Type>
    decreases n,
{
    if n == 0 {
        Ok(DeconstructState { memo: Seq::empty(), visited: Seq::empty() })
    } else {
        match deconstruct_prefix(records, types, (n - 1) as nat) {
            Err(t) => Err(t),
            Ok(st) => match deconstruct_step(records, types[n - 1], st) {
                (Err(t), _) => Err(t),
                (Ok(_), st2) => Ok(st2),
            },
        }
    }
}

/// Find how each deconstructable type among `types` is passed across the FFI.
///
/// `records` lists each record type with the types of its fields; `types` are the types that
/// the interface uses, in the order they are visited.  The result maps each type found
/// deconstructable to its FFI types.
pub fn create_deconstructable_map(records: Vec<(Type, Vec<Type>)>, types: &Vec<Type>) -> (r:
    Result<Vec<(Type, Vec<FfiType>)>, BindgenError>)
    ensures
        match deconstruct_prefix(records_view(records@), types@, types@.len()) {
            Ok(st) => r matches Ok(m) && memo_view(m@) == st.memo,
            Err(t) => r == Err::<Vec<(Type, Vec<FfiType>)>, BindgenError>(
                BindgenError::MissingRecord(t),
            ),
        },
{
    let ghost rv = records_view(records@);
    let mut context = DeconstructContext {
        deconstructable_types: Vec::new(),
        visited: Vec::new(),
        records,
    };
    proof {
        assert(memo_view(context.deconstructable_types@) =~= Seq::empty());
        assert(context.visited@ =~= Seq::empty());
    }
    let mut i: usize = 0;
    while i < types.len()
        invariant
            i <= types@.len(),
            records_view(context.records@) == rv,
            rv == records_view(records@),
            deconstruct_prefix(rv, types@, i as nat) == Ok::<DeconstructState, Type>(
                context_state(context),
            ),
        decreases types@.len() - i,
    {
        let ghost before = context;
        match create_deconstructable_types_recurse(&types[i], &mut context) {
            Err(e) => {
                proof {
                    let out = deconstruct_step(rv, types@[i as int], context_state(before));
                    assert(out.0 is Err);
                    assert(deconstruct_prefix(rv, types@, (i + 1) as nat) == Err::<
                        DeconstructState,
                        Type,
                    >(out.0->Err_0));
                    assert(e == BindgenError::MissingRecord(out.0->Err_0));
                    lemma_prefix_err_stays(rv, types@, (i + 1) as nat, types@.len());
                }
                return Err(e);
            },
            Ok(_) => {},
        }
        i = i + 1;
    }
    Ok(context.deconstructable_types)
}

/// Once a record is found missing, it stays the outcome.
proof fn lemma_prefix_err_stays(records: Seq<(Type, Seq<Type>)>, types: Seq<Type>, n: nat, m: nat)
    requires
        n <= m,
        deconstruct_prefix(records, types, n) is Err,
    ensures
        deconstruct_prefix(records, types, m) == deconstruct_prefix(records, types, n),
    decreases m - n,
{
    if n < m {
        lemma_prefix_err_stays(records, types, n, (m - 1) as nat);
    }
}

/// How a type is deconstructed, when `v` are its FFI types: a record whose fields are all
/// primitive as their values, an optional type as a `Boolean` and the inner type's values.
pub open spec fn is_flattening(records: Seq<(Type, Seq<Type>)>, ty: Type, v: Seq<FfiType>) -> bool
    decreases ty,
{
    match ty {
        Type::Record { .. } => match record_fields(records, ty) {
            Some(fields) => all_primitive(fields) && v == primitive_types(fields),
            None => false,
        },
        Type::Optional { inner_type } => {
            &&& v.len() >= 1
            &&& v[0] == FfiType::Boolean
            &&& is_flattening(records, *inner_type, v.drop_first())
        },
        _ => false,
    }
}

/// Whether every entry of a map gives its type's flattening.
pub open spec fn memo_sound(records: Seq<(Type, Seq<Type>)>, memo: Seq<(Type, Seq<FfiType>)>) -> bool {
    forall|i: int| 0 <= i < memo.len() ==> is_flattening(records, #[trigger] memo[i].0, memo[i].1)
}

proof fn lemma_last_index_same(keys: Seq<Type>, a: Type, b: Type)
    requires
        same_type(a, b),
    ensures
        last_index_of(keys, a) == last_index_of(keys, b),
    decreases keys.len(),
{
    if keys.len() > 0 {
        if same_type(keys.last(), a) {
            lemma_same_type_trans(keys.last(), a, b);
        } else if same_type(keys.last(), b) {
            lemma_same_type_symm(a, b);
            lemma_same_type_trans(keys.last(), b, a);
        }
        lemma_last_index_same(keys.drop_last(), a, b);
    }
}

proof fn lemma_flattening_same(records: Seq<(Type, Seq<Type>)>, a: Type, b: Type, v: Seq<FfiType>)
    requires
        same_type(a, b),
        is_flattening(records, a, v),
    ensures
        is_flattening(records, b, v),
    decreases a,
{
    match (a, b) {
        (Type::Optional { inner_type: x }, Type::Optional { inner_type: y }) => {
            lemma_flattening_same(records, *x, *y, v.drop_first());
        },
        _ => {
            lemma_last_index_same(keys_of(records), a, b);
        },
    }
}

proof fn lemma_step_sound(records: Seq<(Type, Seq<Type>)>, ty: Type, st: DeconstructState)
    requires
        memo_sound(records, st.memo),
    ensures
        memo_sound(records, deconstruct_step(records, ty, st).1.memo),
        deconstruct_step(records, ty, st).0 matches Ok(Some(v)) ==> is_flattening(records, ty, v),
    decreases ty,
{
    match memo_get(st.memo, ty) {
        Some(v) => {
            let i = first_index_of(keys_of(st.memo), ty);
            lemma_first_index_nonneg(keys_of(st.memo), ty);
            assert(same_type(keys_of(st.memo)[i], ty)) by {
                lemma_first_index_found(keys_of(st.memo), ty);
            }
            assert(keys_of(st.memo)[i] == st.memo[i].0);
            lemma_flattening_same(records, st.memo[i].0, ty, v);
        },
        None => {
            if !has_type(st.visited, ty) {
                let st1 = DeconstructState { memo: st.memo, visited: st.visited.push(ty) };
                match ty {
                    Type::Optional { inner_type } => {
                        lemma_step_sound(records, *inner_type, st1);
                        let (r, st2) = deconstruct_step(records, *inner_type, st1);
                        if let Ok(Some(v)) = r {
                            let w = seq![FfiType::Boolean] + v;
                            assert(w.drop_first() =~= v);
                            assert(is_flattening(records, ty, w));
                            let m = st2.memo.push((ty, w));
                            assert forall|i: int| 0 <= i < m.len() implies is_flattening(
                                records,
                                #[trigger] m[i].0,
                                m[i].1,
                            ) by {
                                if i < st2.memo.len() {
                                    assert(m[i] == st2.memo[i]);
                                }
                            }
                        }
                    },
                    Type::Record { .. } => {
                        if let Some(fields) = record_fields(records, ty) {
                            if all_primitive(fields) {
                                let m = st1.memo.push((ty, primitive_types(fields)));
                                assert forall|i: int| 0 <= i < m.len() implies is_flattening(
                                    records,
                                    #[trigger] m[i].0,
                                    m[i].1,
                                ) by {
                                    if i < st1.memo.len() {
                                        assert(m[i] == st1.memo[i]);
                                    }
                                }
                            }
                        }
                    },
                    _ => {},
                }
            }
        },
    }
}

proof fn lemma_first_index_found(keys: Seq<Type>, ty: Type)
    requires
        first_index_of(keys, ty) < keys.len(),
    ensures
        0 <= first_index_of(keys, ty),
        same_type(keys[first_index_of(keys, ty)], ty),
    decreases keys.len(),
{
    if keys.len() > 0 && !same_type(keys[0], ty) {
        lemma_first_index_found(keys.drop_first(), ty);
        lemma_first_index_nonneg(keys.drop_first(), ty);
    }
}

proof fn lemma_first_index_nonneg(keys: Seq<Type>, ty: Type)
    ensures
        0 <= first_index_of(keys, ty) <= keys.len(),
    decreases keys.len(),
{
    if keys.len() > 0 && !same_type(keys[0], ty) {
        lemma_first_index_nonneg(keys.drop_first(), ty);
    }
}

/// Every type that the map gives FFI types is deconstructed into them: a record whose fields
/// are all primitive into its fields' values, an optional type into a `Boolean` flag and its
/// inner type's values.  So is each result of a single lookup.
pub proof fn law_deconstructed_types_are_flattenings(
    records: Seq<(Type, Seq<Type>)>,
    ty: Type,
    st: DeconstructState,
)
    requires
        memo_sound(records, st.memo),
    ensures
        memo_sound(records, deconstruct_step(records, ty, st).1.memo),
        deconstruct_step(records, ty, st).0 matches Ok(Some(v)) ==> is_flattening(records, ty, v),
{
    lemma_step_sound(records, ty, st);
}

/// Every entry of the map that `create_deconstructable_map` builds gives its type's
/// flattening.
pub proof fn law_deconstructable_map_is_sound(
    records: Seq<(Type, Seq<Type>)>,
    types: Seq<Type>,
    n: nat,
)
    requires
        n <= types.len(),
    ensures
        deconstruct_prefix(records, types, n) matches Ok(st) ==> memo_sound(records, st.memo),
    decreases n,
{
    if n > 0 {
        law_deconstructable_map_is_sound(records, types, (n - 1) as nat);
        if let Ok(st) = deconstruct_prefix(records, types, (n - 1) as nat) {
            lemma_step_sound(records, types[n - 1], st);
        }
    }
}

/// The lowering of a type: the part of mapping a type node that decides how its values cross
/// the FFI, from the map that `create_deconstructable_map` built.
pub fn lowerable_type(ty: &Type, deconstructable_types: &Vec<(Type, Vec<FfiType>)>) -> (r: Option<
    LowerableType,
>)
    ensures
        match primitive_ffi_type(*ty) {
            Some(t) => r == Some(LowerableType::Primitive(t)),
            None => match memo_get(memo_view(deconstructable_types@), *ty) {
                Some(v) => r matches Some(LowerableType::Deconstructable(w)) && w@ == v,
                None => r is None,
            },
        },
{
    if let Some(primitive) = FfiType::for_primitive(ty) {
        return Some(LowerableType::Primitive(primitive));
    }
    proof {
        lemma_keys_of_memo_view(deconstructable_types@);
    }
    match find_first_type(deconstructable_types, ty) {
        Some(i) => Some(LowerableType::Deconstructable(copy_ffi_types(&deconstructable_types[i].1))),
        None => None,
    }
}

/// The numbers of the types, in the order they are visited: each type not seen before gets the
/// next number, from 0.
pub open spec fn type_ids(types: Seq<Type>) -> Seq<(Type, usize)>
    decreases types.len(),
{
    if types.len() == 0 {
        Seq::empty()
    } else {
        let prev = type_ids(types.drop_last());
        if first_index_of(keys_of(prev), types.last()) < prev.len() {
            prev
        } else {
            prev.push((types.last(), prev.len() as usize))
        }
    }
}

proof fn lemma_type_ids_len(types: Seq<Type>)
    ensures
        type_ids(types).len() <= types.len(),
    decreases types.len(),
{
    if types.len() > 0 {
        lemma_type_ids_len(types.drop_last());
    }
}

/// The numbered types `known`, with the types of `types` that are not numbered yet added in
/// the order they are visited, numbered from 0 in the order they are added.
pub open spec fn type_ids_after(known: Seq<(Type, usize)>, types: Seq<Type>) -> Seq<(Type, usize)>
    decreases types.len(),
{
    if types.len() == 0 {
        known
    } else {
        let prev = type_ids_after(known, types.drop_last());
        if first_index_of(keys_of(prev), types.last()) < prev.len() {
            prev
        } else {
            prev.push((types.last(), (prev.len() - known.len()) as usize))
        }
    }
}

proof fn lemma_type_ids_after_len(known: Seq<(Type, usize)>, types: Seq<Type>)
    ensures
        known.len() <= type_ids_after(known, types).len(),
    decreases types.len(),
{
    if types.len() > 0 {
        lemma_type_ids_after_len(known, types.drop_last());
    }
}

/// Numbering from no known types is `type_ids`.
pub(crate) proof fn lemma_type_ids_after_empty(types: Seq<Type>)
    ensures
        type_ids_after(Seq::empty(), types) == type_ids(types),
    decreases types.len(),
{
    if types.len() > 0 {
        lemma_type_ids_after_empty(types.drop_last());
    }
}

/// Number the types of `types` that `m` does not number yet, in the order they are visited.
pub fn extend_type_ids(m: &mut Vec<(Type, usize)>, types: &Vec<Type>)
    ensures
        final(m)@ == type_ids_after(old(m)@, types@),
{
    let ghost known = m@;
    let start: usize = m.len();
    let mut i: usize = 0;
    while i < types.len()
        invariant
            i <= types@.len(),
            start == known.len(),
            m@ == type_ids_after(known, types@.take(i as int)),
        decreases types@.len() - i,
    {
        proof {
            assert(types@.take(i + 1 as int).drop_last() =~= types@.take(i as int));
            lemma_type_ids_after_len(known, types@.take(i as int));
        }
        if find_first_type(m, &types[i]).is_none() {
            let id = m.len() - start;
            m.push((copy_type(&types[i]), id));
        }
        i = i + 1;
    }
    proof {
        assert(types@.take(i as int) =~= types@);
    }
}

/// Number the types that the interface uses, in the order they are visited.
pub fn populate_type_id_map(types: &Vec<Type>) -> (m: Vec<(Type, usize)>)
    ensures
        m@ == type_ids(types@),
{
    let mut m: Vec<(Type, usize)> = Vec::new();
    proof {
        assert(m@ =~= Seq::<(Type, usize)>::empty());
        lemma_type_ids_after_empty(types@);
    }
    extend_type_ids(&mut m, types);
    m
}

/// Type IDs are positions in the map, no two entries are for the same type, and every type
/// visited has an entry.  (As for any list a `Vec` holds, there are at most `usize::MAX`
/// types.)
pub proof fn law_type_ids_are_distinct_positions(types: Seq<Type>)
    requires
        types.len() <= usize::MAX,
    ensures
        forall|i: int| 0 <= i < type_ids(types).len() ==> (#[trigger] type_ids(types)[i]).1 == i,
        forall|i: int, j: int|
            0 <= i < j < type_ids(types).len() ==> !same_type(
                #[trigger] type_ids(types)[i].0,
                #[trigger] type_ids(types)[j].0,
            ),
        forall|k: int|
            0 <= k < types.len() ==> first_index_of(keys_of(type_ids(types)), #[trigger] types[k])
                < type_ids(types).len(),
    decreases types.len(),
{
    if types.len() > 0 {
        let before = types.drop_last();
        let t = types.last();
        law_type_ids_are_distinct_positions(before);
        lemma_type_ids_len(before);
        let prev = type_ids(before);
        let m = type_ids(types);
        lemma_first_index_nonneg(keys_of(prev), t);
        if first_index_of(keys_of(prev), t) < prev.len() {
            assert forall|k: int| 0 <= k < types.len() implies first_index_of(
                keys_of(m),
                #[trigger] types[k],
            ) < m.len() by {
                if k < before.len() {
                    assert(before[k] == types[k]);
                }
            }
        } else {
            assert(m == prev.push((t, prev.len() as usize)));
            assert(keys_of(m) =~= keys_of(prev).push(t));
            assert forall|i: int, j: int| 0 <= i < j < m.len() implies !same_type(
                #[trigger] m[i].0,
                #[trigger] m[j].0,
            ) by {
                if j == m.len() - 1 {
                    assert(m[i] == prev[i]);
                    if same_type(m[i].0, m[j].0) {
                        lemma_first_index_prefix(keys_of(prev), t, i);
                    }
                } else {
                    assert(m[i] == prev[i] && m[j] == prev[j]);
                }
            }
            assert forall|k: int| 0 <= k < types.len() implies first_index_of(
                keys_of(m),
                #[trigger] types[k],
            ) < m.len() by {
                if k < before.len() {
                    assert(before[k] == types[k]);
                    lemma_first_index_push(keys_of(prev), t, types[k]);
                } else {
                    lemma_same_type_refl(t);
                    lemma_first_index_found_at(keys_of(m), t, prev.len() as int);
                }
            }
        }
    }
}

/// Where a key at `i` is the same as `ty`, the first such key is at `i` or before.
proof fn lemma_first_index_prefix(keys: Seq<Type>, ty: Type, i: int)
    requires
        0 <= i < keys.len(),
        same_type(keys[i], ty),
    ensures
        first_index_of(keys, ty) <= i,
    decreases i,
{
    if i > 0 && !same_type(keys[0], ty) {
        assert(keys.drop_first()[i - 1] == keys[i]);
        lemma_first_index_prefix(keys.drop_first(), ty, i - 1);
    }
}

proof fn lemma_first_index_found_at(keys: Seq<Type>, ty: Type, i: int)
    requires
        0 <= i < keys.len(),
        same_type(keys[i], ty),
    ensures
        first_index_of(keys, ty) < keys.len(),
{
    lemma_first_index_prefix(keys, ty, i);
}

/// A key found before a push is still found after it.
proof fn lemma_first_index_push(keys: Seq<Type>, x: Type, ty: Type)
    requires
        first_index_of(keys, ty) < keys.len(),
    ensures
        first_index_of(keys.push(x), ty) < keys.len() + 1,
{
    lemma_first_index_nonneg(keys, ty);
    lemma_first_index_found(keys, ty);
    let i = first_index_of(keys, ty);
    assert(keys.push(x)[i] == keys[i]);
    lemma_first_index_found_at(keys.push(x), ty, i);
}

} // verus!
