//! Enums whose variants can all be passed as primitive FFI values.
//!
//! A deconstructable enum is passed as a fixed list of FFI values: the first holds the variant
//! index, the rest are shared between the variants.  Each variant takes, for each of its
//! fields' FFI values, the first unused FFI value of the same type; the values a variant does
//! not use are passed as defaults.

use vstd::prelude::*;
use crate::error::BindgenError;
use crate::ffitypes::FfiType;
use crate::names::{shouty_snake_case, to_shouty_snake_case};
use crate::nodes::{
    DeconstructableField, DeconstructableFieldKind, FfiField, Field, KotlinEnumKind, LiteralNode,
    LowerableType,
    quote_name, quoted,
    type_node_same,
};

verus! {

/// How the fields of a variant are laid out.
#[derive(Debug, Clone, Copy, PartialEq, Eq)]
pub enum FieldsKind {
    Unit,
    Named,
    Unnamed,
}

pub struct Variant {
    pub name_kt: String,
    pub name: String,
    pub orig_name: String,
    pub discr: LiteralNode,
    pub fields_kind: FieldsKind,
    pub fields: Vec<Field>,
    pub docstring: Option<String>,
}

/// Where one of the enum's FFI values comes from, for one variant.
#[derive(Debug, Clone, Copy)]
pub enum EnumFfiFieldSource {
    /// The variant does not use the value: pass a default of this type.
    Default { ffi_type: FfiType },
    /// The value is the variant's primitive field `source_field`.
    Primitive { source_field: usize },
    /// The value is FFI value `index` of the variant's deconstructed field `source_field`.
    Recursive { source_field: usize, index: usize },
}

pub struct DeconstructableVariant {
    pub name_kt: String,
    pub orig_name: String,
    pub fields_kind: FieldsKind,
    pub source_fields: Vec<DeconstructableField>,
    pub enum_ffi_field_sources: Vec<EnumFfiFieldSource>,
}

pub struct DeconstructableEnum {
    pub variants: Vec<DeconstructableVariant>,
    pub ffi_fields: Vec<FfiField>,
}

/// Strings must be nullable in enums, since variants that do not use them pass a default.
pub open spec fn nullable(t: FfiType) -> FfiType {
    if t == FfiType::String {
        FfiType::NullableString
    } else {
        t
    }
}

/// Whether `i` is the first of `fields` with type `t`.
pub open spec fn first_of_type(fields: Seq<FfiField>, t: FfiType, i: int) -> bool {
    &&& 0 <= i < fields.len()
    &&& fields[i].ty == t
    &&& forall|j: int| 0 <= j < i ==> (#[trigger] fields[j]).ty != t
}

/// Taking the first of `avail` of type `t` (made nullable): the field and what is left (the
/// last field moves into its place), or the type that is missing.
pub open spec fn find_field(avail: Seq<FfiField>, t: FfiType) -> Result<(FfiField, Seq<FfiField>), FfiType> {
    let t2 = nullable(t);
    if exists|i: int| first_of_type(avail, t2, i) {
        let i = choose|i: int| first_of_type(avail, t2, i);
        Ok((avail[i], avail.update(i, avail.last()).drop_last()))
    } else {
        Err(t2)
    }
}

/// Taking fields for each of `ts`, in order.
pub open spec fn find_fields(avail: Seq<FfiField>, ts: Seq<FfiType>) -> Result<(Seq<FfiField>, Seq<FfiField>), FfiType>
    decreases ts.len(),
{
    if ts.len() == 0 {
        Ok((seq![], avail))
    } else {
        match find_fields(avail, ts.drop_last()) {
            Ok((fs, a)) => match find_field(a, ts.last()) {
                Ok((f, a2)) => Ok((fs.push(f), a2)),
                Err(t) => Err(t),
            },
            Err(t) => Err(t),
        }
    }
}

/// Why the fields of a variant could not be matched with the enum's FFI values.
pub enum FieldMatchError {
    /// This field cannot be lowered.
    Unlowerable(int),
    /// No unused FFI value of this type was left.
    Missing(FfiType),
}

/// Matching the fields of a variant with FFI values taken from `avail`: for each field whether
/// it is primitive and the FFI fields it takes, and the FFI fields left unused.
pub open spec fn match_variant_fields(avail: Seq<FfiField>, fields: Seq<Field>) -> Result<
    (Seq<(bool, Seq<FfiField>)>, Seq<FfiField>),
    FieldMatchError,
>
    decreases fields.len(),
{
    if fields.len() == 0 {
        Ok((seq![], avail))
    } else {
        match match_variant_fields(avail, fields.drop_last()) {
            Err(e) => Err(e),
            Ok((ks, a)) => match fields.last().ty.lowerable {
                None => Err(FieldMatchError::Unlowerable(fields.len() - 1)),
                Some(LowerableType::Primitive(t)) => match find_field(a, t) {
                    Ok((f, a2)) => Ok((ks.push((true, seq![f])), a2)),
                    Err(t2) => Err(FieldMatchError::Missing(t2)),
                },
                Some(LowerableType::Deconstructable(ts)) => match find_fields(a, ts@) {
                    Ok((fs, a2)) => Ok((ks.push((false, fs)), a2)),
                    Err(t2) => Err(FieldMatchError::Missing(t2)),
                },
            },
        }
    }
}

/// Whether `df` is the deconstruction of field `f`, taking the FFI fields `k`.
pub open spec fn source_field_of(f: Field, df: DeconstructableField, k: (bool, Seq<FfiField>)) -> bool {
    &&& df.name == f.name
    &&& df.orig_name == f.orig_name
    &&& df.index == f.index
    &&& type_node_same(df.ty, f.ty)
    &&& if k.0 {
        k.1.len() == 1 && df.kind == DeconstructableFieldKind::Primitive(k.1[0])
    } else {
        df.kind matches DeconstructableFieldKind::Recursive(fs) && fs@ == k.1
    }
}

/// The (FFI value index, source) pairs of the FFI values that a variant uses.
pub open spec fn variant_field_pairs(vf: Seq<DeconstructableField>) -> Seq<(usize, EnumFfiFieldSource)>
    decreases vf.len(),
{
    if vf.len() == 0 {
        seq![]
    } else {
        let i = (vf.len() - 1) as usize;
        variant_field_pairs(vf.drop_last()) + match vf.last().kind {
            DeconstructableFieldKind::Primitive(ff) => seq![
                (ff.index, EnumFfiFieldSource::Primitive { source_field: i }),
            ],
            DeconstructableFieldKind::Recursive(ffs) => ffs@.map_values(
                |f: FfiField| (f.index, EnumFfiFieldSource::Recursive { source_field: i, index: f.index }),
            ),
        }
    }
}

/// The (FFI value index, default) pairs of the FFI values that a variant leaves unused.
pub open spec fn unused_pairs(unused: Seq<FfiField>) -> Seq<(usize, EnumFfiFieldSource)> {
    unused.map_values(|f: FfiField| (f.index, EnumFfiFieldSource::Default { ffi_type: f.ty }))
}

/// Whether pairs are sorted by their FFI value index.
pub open spec fn sorted_by_index(s: Seq<(usize, EnumFfiFieldSource)>) -> bool {
    forall|i: int, j: int| 0 <= i < j < s.len() ==> s[i].0 <= s[j].0
}

/// Whether `out` lists the sources of all the enum's FFI values for a variant, in the order of
/// the FFI values.
pub open spec fn field_sources_of(
    unused: Seq<FfiField>,
    vf: Seq<DeconstructableField>,
    out: Seq<EnumFfiFieldSource>,
) -> bool {
    exists|s: Seq<(usize, EnumFfiFieldSource)>|
        s.to_multiset() == (unused_pairs(unused) + variant_field_pairs(vf)).to_multiset()
            && sorted_by_index(s) && out == s.map_values(
            |p: (usize, EnumFfiFieldSource)| p.1,
        )
}

/// std's `slice::sort_unstable_by_key`, by the first element of each pair: the pairs come out
/// as a permutation of those that went in, sorted by that element.
#[verifier::external_body]
fn sort_by_index(v: &mut Vec<(usize, EnumFfiFieldSource)>)
    ensures
        final(v)@.to_multiset() == old(v)@.to_multiset(),
        sorted_by_index(final(v)@),
{
    v.sort_unstable_by_key(|p| p.0)
}

/// Create an `EnumFfiFieldSource` vec
///
/// For each FFI field of the enum as a whole, there's an entry describing how it's used for a
/// particular variant.
pub fn create_field_sources(unused_fields: Vec<FfiField>, variant_fields: &[DeconstructableField]) -> (r: Vec<
    EnumFfiFieldSource,
>)
    ensures
        field_sources_of(unused_fields@, variant_fields@, r@),
{
    let mut field_sources: Vec<(usize, EnumFfiFieldSource)> = Vec::new();
    let mut i: usize = 0;
    while i < unused_fields.len()
        invariant
            i <= unused_fields@.len(),
            field_sources@ == unused_pairs(unused_fields@.subrange(0, i as int)),
        decreases unused_fields@.len() - i,
    {
        let ffi_field = unused_fields[i];
        field_sources.push((ffi_field.index, EnumFfiFieldSource::Default { ffi_type: ffi_field.ty }));
        i = i + 1;
        proof {
            assert(field_sources@ =~= unused_pairs(unused_fields@.subrange(0, i as int)));
        }
    }
    proof {
        assert(unused_fields@.subrange(0, i as int) =~= unused_fields@);
    }
    let ghost base = field_sources@;
    let mut i: usize = 0;
    while i < variant_fields.len()
        invariant
            i <= variant_fields@.len(),
            field_sources@ == base + variant_field_pairs(variant_fields@.subrange(0, i as int)),
        decreases variant_fields@.len() - i,
    {
        proof {
            assert(variant_fields@.subrange(0, i + 1).drop_last() =~= variant_fields@.subrange(
                0,
                i as int,
            ));
        }
        match &variant_fields[i].kind {
            DeconstructableFieldKind::Primitive(ffi_field) => {
                field_sources.push((ffi_field.index, EnumFfiFieldSource::Primitive { source_field: i }));
                proof {
                    assert(field_sources@ =~= base + variant_field_pairs(variant_fields@.subrange(0, i + 1)));
                }
            },
            DeconstructableFieldKind::Recursive(ffi_fields) => {
                let ghost start = field_sources@;
                let mut j: usize = 0;
                while j < ffi_fields.len()
                    invariant
                        j <= ffi_fields@.len(),
                        field_sources@ == start + ffi_fields@.subrange(0, j as int).map_values(
                            |f: FfiField|
                                (f.index, EnumFfiFieldSource::Recursive { source_field: i, index: f.index }),
                        ),
                    decreases ffi_fields@.len() - j,
                {
                    let f = ffi_fields[j];
                    field_sources.push((f.index, EnumFfiFieldSource::Recursive { source_field: i, index: f.index }));
                    j = j + 1;
                    proof {
                        assert(field_sources@ =~= start + ffi_fields@.subrange(0, j as int).map_values(
                            |f: FfiField|
                                (f.index, EnumFfiFieldSource::Recursive { source_field: i, index: f.index }),
                        ));
                    }
                }
                proof {
                    assert(ffi_fields@.subrange(0, j as int) =~= ffi_fields@);
                    assert(field_sources@ =~= base + variant_field_pairs(variant_fields@.subrange(0, i + 1)));
                }
            },
        }
        i = i + 1;
    }
    proof {
        assert(variant_fields@.subrange(0, i as int) =~= variant_fields@);
    }
    let ghost pairs = field_sources@;
    sort_by_index(&mut field_sources);
    let mut out: Vec<EnumFfiFieldSource> = Vec::new();
    let mut k: usize = 0;
    while k < field_sources.len()
        invariant
            k <= field_sources@.len(),
            out@ == field_sources@.subrange(0, k as int).map_values(
                |p: (usize, EnumFfiFieldSource)| p.1,
            ),
        decreases field_sources@.len() - k,
    {
        out.push(field_sources[k].1);
        k = k + 1;
        proof {
            assert(out@ =~= field_sources@.subrange(0, k as int).map_values(
                |p: (usize, EnumFfiFieldSource)| p.1,
            ));
        }
    }
    proof {
        assert(field_sources@.subrange(0, k as int) =~= field_sources@);
        assert(pairs == unused_pairs(unused_fields@) + variant_field_pairs(variant_fields@));
    }
    out
}

/// A sequence without its first element (empty stays empty).
pub open spec fn skip_first<A>(s: Seq<A>) -> Seq<A> {
    if s.len() == 0 {
        s
    } else {
        s.drop_first()
    }
}

/// The FFI fields of an enum: its FFI types, numbered from 0.
pub open spec fn numbered(ts: Seq<FfiType>) -> Seq<FfiField> {
    Seq::new(ts.len(), |i: int| FfiField { index: i as usize, ty: ts[i] })
}

/// Find FFI fields for an Enum variant.
///
/// Finds a FfiField for a variant from the total fields available for the enum.
pub struct FfiFieldFinder {
    pub name: String,
    pub available_fields: Vec<FfiField>,
}

impl FfiFieldFinder {
    pub fn new(name: String, all_fields: &[FfiField]) -> (f: Self)
        ensures
            f.name == name,
            f.available_fields@ == skip_first(all_fields@),
    {
        // Skip the first FfiField, which is used for the variant index
        let mut available_fields: Vec<FfiField> = Vec::new();
        let mut i: usize = 1;
        while i < all_fields.len()
            invariant
                1 <= i,
                all_fields@.len() > 0 ==> i <= all_fields@.len(),
                all_fields@.len() > 0 ==> available_fields@ == all_fields@.subrange(1, i as int),
                all_fields@.len() == 0 ==> available_fields@.len() == 0,
            decreases all_fields@.len() - i,
        {
            available_fields.push(all_fields[i]);
            i = i + 1;
            proof {
                assert(available_fields@ =~= all_fields@.subrange(1, i as int));
            }
        }
        proof {
            if all_fields@.len() > 0 {
                assert(all_fields@.subrange(1, i as int) =~= all_fields@.drop_first());
            } else {
                assert(available_fields@ =~= all_fields@);
            }
        }
        FfiFieldFinder { name, available_fields }
    }

    pub fn find(&mut self, ffi_type: FfiType) -> (r: Result<FfiField, BindgenError>)
        ensures
            final(self).name == old(self).name,
            match find_field(old(self).available_fields@, ffi_type) {
                Ok((f, a)) => r == Ok::<FfiField, BindgenError>(f) && final(self).available_fields@
                    == a,
                Err(t) => (r matches Err(BindgenError::FfiFieldNotFound(n, t2)) && n@ == old(
                    self,
                ).name@ && t2 == t) && final(self).available_fields@ == old(
                    self,
                ).available_fields@,
            },
    {
        let ghost requested = ffi_type;
        let ffi_type = match ffi_type {
            // Strings must be nullable, since a variant that does not use them passes a default
            FfiType::String => FfiType::NullableString,
            ffi_type => ffi_type,
        };
        let ghost avail = self.available_fields@;
        let mut i: usize = 0;
        while i < self.available_fields.len() && self.available_fields[i].ty != ffi_type
            invariant
                i <= avail.len(),
                *self == *old(self),
                ffi_type == nullable(requested),
                self.available_fields@ == avail,
                forall|j: int| 0 <= j < i ==> (#[trigger] avail[j]).ty != ffi_type,
            decreases avail.len() - i,
        {
            i = i + 1;
        }
        if i < self.available_fields.len() {
            proof {
                assert(first_of_type(avail, ffi_type, i as int));
                assert forall|k: int| first_of_type(avail, ffi_type, k) implies k == i by {
                    if k < i {
                        assert(avail[k].ty != ffi_type);
                    }
                    if k > i {
                        assert(avail[i as int].ty != ffi_type);
                    }
                }
            }
            Ok(self.available_fields.swap_remove(i))
        } else {
            Err(BindgenError::FfiFieldNotFound(self.name.clone(), ffi_type))
        }
    }
}

/// Whether `dv` deconstructs variant `v`, taking its FFI fields from `avail`.
pub open spec fn variant_deconstructed(v: Variant, dv: DeconstructableVariant, avail: Seq<FfiField>) -> bool {
    match match_variant_fields(avail, v.fields@) {
        Ok((ks, left)) => {
            &&& dv.name_kt == v.name_kt
            &&& dv.orig_name == v.orig_name
            &&& dv.fields_kind == v.fields_kind
            &&& dv.source_fields@.len() == v.fields@.len()
            &&& forall|k: int|
                0 <= k < v.fields@.len() ==> source_field_of(
                    v.fields@[k],
                    #[trigger] dv.source_fields@[k],
                    ks[k],
                )
            &&& field_sources_of(left, dv.source_fields@, dv.enum_ffi_field_sources@)
        },
        Err(_) => false,
    }
}

/// The error for a variant of the enum `name` whose fields could not be matched.
pub open spec fn variant_error(name: Seq<char>, v: Variant, fm: FieldMatchError, e: BindgenError) -> bool {
    match fm {
        FieldMatchError::Unlowerable(k) => e matches BindgenError::VariantFieldNotDeconstructable(
            n,
            vn,
            f,
        ) && n@ == name && vn@ == v.name@ && f@ == v.fields@[k].name@,
        FieldMatchError::Missing(t) => e matches BindgenError::FfiFieldNotFound(n, t2) && n@ == name
            && t2 == t,
    }
}

/// Whether variant `k` is the first whose fields cannot be matched.
pub open spec fn first_failing_variant(avail: Seq<FfiField>, variants: Seq<Variant>, k: int) -> bool {
    &&& 0 <= k < variants.len()
    &&& forall|j: int| 0 <= j < k ==> match_variant_fields(avail, (#[trigger] variants[j]).fields@) is Ok
    &&& match_variant_fields(avail, variants[k].fields@) is Err
}

/// Deconstruct the fields of one variant, taking FFI fields from `finder`.
fn deconstruct_fields(name: &str, v: &Variant, finder: FfiFieldFinder) -> (r: (
    Result<Vec<DeconstructableField>, BindgenError>,
    FfiFieldFinder,
))
    requires
        finder.name@ == name@,
    ensures
        match match_variant_fields(finder.available_fields@, v.fields@) {
            Ok((ks, left)) => r.0 matches Ok(sf) && r.1.available_fields@ == left && sf@.len()
                == v.fields@.len() && forall|k: int|
                0 <= k < v.fields@.len() ==> source_field_of(v.fields@[k], #[trigger] sf@[k], ks[k]),
            Err(fm) => r.0 matches Err(e) && variant_error(name@, *v, fm, e),
        },
{
    let mut cur = finder;
    let ghost avail0 = cur.available_fields@;
    let ghost mut ks: Seq<(bool, Seq<FfiField>)> = seq![];
    let mut source_fields: Vec<DeconstructableField> = Vec::new();
    let mut i: usize = 0;
    while i < v.fields.len()
        invariant
            i <= v.fields@.len(),
            avail0 == finder.available_fields@,
            cur.name@ == name@,
            match_variant_fields(avail0, v.fields@.take(i as int)) == Ok::<
                (Seq<(bool, Seq<FfiField>)>, Seq<FfiField>),
                FieldMatchError,
            >((ks, cur.available_fields@)),
            source_fields@.len() == i,
            ks.len() == i,
            forall|k: int|
                0 <= k < i ==> source_field_of(v.fields@[k], #[trigger] source_fields@[k], ks[k]),
        decreases v.fields@.len() - i,
    {
        let f = &v.fields[i];
        proof {
            assert(v.fields@.take(i + 1).drop_last() =~= v.fields@.take(i as int));
        }
        let deconstructable = match &f.ty.lowerable {
            Some(d) => d,
            None => {
                proof {
                    assert(v.fields@.take(i + 1).last() == v.fields@[i as int]);
                    assert(match_variant_fields(avail0, v.fields@.take(i + 1)) == Err::<
                        (Seq<(bool, Seq<FfiField>)>, Seq<FfiField>),
                        FieldMatchError,
                    >(FieldMatchError::Unlowerable(i as int)));
                    lemma_match_prefix_err(avail0, v.fields@, i + 1);
                }
                let e = BindgenError::VariantFieldNotDeconstructable(
                    String::from_str(name),
                    v.name.clone(),
                    f.name.clone(),
                );
                return (Err(e), cur);
            },
        };
        let ghost a = cur.available_fields@;
        let kind = match deconstructable {
            LowerableType::Primitive(ffi_type) => {
                let found = cur.find(*ffi_type);
                match found {
                    Ok(ff) => {
                        proof {
                            ks = ks.push((true, seq![ff]));
                        }
                        DeconstructableFieldKind::Primitive(ff)
                    },
                    Err(e) => {
                        proof {
                            assert(v.fields@.take(i + 1).last() == v.fields@[i as int]);
                            let t2 = nullable(*ffi_type);
                            assert(find_field(a, *ffi_type) == Err::<(FfiField, Seq<FfiField>), FfiType>(t2));
                            assert(match_variant_fields(avail0, v.fields@.take(i + 1)) == Err::<
                                (Seq<(bool, Seq<FfiField>)>, Seq<FfiField>),
                                FieldMatchError,
                            >(FieldMatchError::Missing(t2)));
                            lemma_match_prefix_err(avail0, v.fields@, i + 1);
                        }
                        return (Err(e), cur);
                    },
                }
            },
            LowerableType::Deconstructable(ffi_types) => {
                let mut ffi_fields: Vec<FfiField> = Vec::new();
                let mut j: usize = 0;
                while j < ffi_types.len()
                    invariant
                        j <= ffi_types@.len(),
                        i < v.fields@.len(),
                        avail0 == finder.available_fields@,
                        cur.name@ == name@,
                        match_variant_fields(avail0, v.fields@.take(i as int)) == Ok::<
                            (Seq<(bool, Seq<FfiField>)>, Seq<FfiField>),
                            FieldMatchError,
                        >((ks, a)),
                        v.fields@.take(i + 1).drop_last() == v.fields@.take(i as int),
                        v.fields@[i as int].ty.lowerable == Some(LowerableType::Deconstructable(*ffi_types)),
                        find_fields(a, ffi_types@.take(j as int)) == Ok::<
                            (Seq<FfiField>, Seq<FfiField>),
                            FfiType,
                        >((ffi_fields@, cur.available_fields@)),
                    decreases ffi_types@.len() - j,
                {
                    proof {
                        assert(ffi_types@.take(j + 1).drop_last() =~= ffi_types@.take(j as int));
                    }
                    match cur.find(ffi_types[j]) {
                        Ok(ff) => ffi_fields.push(ff),
                        Err(e) => {
                            proof {
                                let t2 = nullable(ffi_types@[j as int]);
                                assert(ffi_types@.take(j + 1).last() == ffi_types@[j as int]);
                                assert(find_fields(a, ffi_types@.take(j + 1)) == Err::<
                                    (Seq<FfiField>, Seq<FfiField>),
                                    FfiType,
                                >(t2));
                                lemma_find_fields_prefix_err(a, ffi_types@, j + 1);
                                assert(v.fields@.take(i + 1).last() == v.fields@[i as int]);
                                assert(match_variant_fields(avail0, v.fields@.take(i + 1)) == Err::<
                                    (Seq<(bool, Seq<FfiField>)>, Seq<FfiField>),
                                    FieldMatchError,
                                >(FieldMatchError::Missing(t2)));
                                lemma_match_prefix_err(avail0, v.fields@, i + 1);
                            }
                            return (Err(e), cur);
                        },
                    }
                    j = j + 1;
                }
                proof {
                    assert(ffi_types@.take(j as int) =~= ffi_types@);
                    ks = ks.push((false, ffi_fields@));
                }
                DeconstructableFieldKind::Recursive(ffi_fields)
            },
        };
        source_fields.push(
            DeconstructableField {
                name: f.name.clone(),
                orig_name: f.orig_name.clone(),
                index: f.index,
                ty: f.ty.clone(),
                kind,
            },
        );
        i = i + 1;
    }
    proof {
        assert(v.fields@.take(i as int) =~= v.fields@);
    }
    (Ok(source_fields), cur)
}

/// Once a prefix of the fields fails to match, all of them fail the same way.
proof fn lemma_match_prefix_err(avail: Seq<FfiField>, fields: Seq<Field>, n: int)
    requires
        0 < n <= fields.len(),
        match_variant_fields(avail, fields.take(n)) is Err,
    ensures
        match_variant_fields(avail, fields) == match_variant_fields(avail, fields.take(n)),
    decreases fields.len() - n,
{
    if n < fields.len() {
        assert(fields.take(n + 1).drop_last() =~= fields.take(n));
        lemma_match_prefix_err(avail, fields, n + 1);
    } else {
        assert(fields.take(n) =~= fields);
    }
}

/// Once a prefix of the types has no field, all of them fail the same way.
proof fn lemma_find_fields_prefix_err(avail: Seq<FfiField>, ts: Seq<FfiType>, n: int)
    requires
        0 < n <= ts.len(),
        find_fields(avail, ts.take(n)) is Err,
    ensures
        find_fields(avail, ts) == find_fields(avail, ts.take(n)),
    decreases ts.len() - n,
{
    if n < ts.len() {
        assert(ts.take(n + 1).drop_last() =~= ts.take(n));
        lemma_find_fields_prefix_err(avail, ts, n + 1);
    } else {
        assert(ts.take(n) =~= ts);
    }
}

/// Whether `r` deconstructs an enum named `name` with these variants into the FFI types
/// `all_ffi_types`: on success, the FFI fields are those types numbered in order and each
/// variant takes its fields' values from the fields after the first; on failure, `r` reports
/// the first variant whose fields cannot be matched.
pub open spec fn enum_deconstruction(
    name: Seq<char>,
    variants: Seq<Variant>,
    all_ffi_types: Seq<FfiType>,
    r: Result<DeconstructableEnum, BindgenError>,
) -> bool {
    let avail = skip_first(numbered(all_ffi_types));
    match r {
        Ok(de) => {
            &&& de.ffi_fields@ == numbered(all_ffi_types)
            &&& de.variants@.len() == variants.len()
            &&& forall|k: int|
                0 <= k < variants.len() ==> variant_deconstructed(
                    variants[k],
                    #[trigger] de.variants@[k],
                    avail,
                )
        },
        Err(e) => exists|k: int|
            #[trigger] first_failing_variant(avail, variants, k) && (match_variant_fields(
                avail,
                variants[k].fields@,
            ) matches Err(fm) && variant_error(name, variants[k], fm, e)),
    }
}

/// Create the deconstruction of an enum that is passed as the FFI types `all_ffi_types`.
///
/// Fails on the first variant whose fields cannot be matched with the enum's FFI fields.
pub fn deconstructable(name: &str, variants: &[Variant], all_ffi_types: &[FfiType]) -> (r: Result<
    DeconstructableEnum,
    BindgenError,
>)
    ensures
        enum_deconstruction(name@, variants@, all_ffi_types@, r),
{
    let mut all_ffi_fields: Vec<FfiField> = Vec::new();
    let mut i: usize = 0;
    while i < all_ffi_types.len()
        invariant
            i <= all_ffi_types@.len(),
            all_ffi_fields@ == numbered(all_ffi_types@.take(i as int)),
        decreases all_ffi_types@.len() - i,
    {
        all_ffi_fields.push(FfiField { index: i, ty: all_ffi_types[i] });
        i = i + 1;
        proof {
            assert(all_ffi_fields@ =~= numbered(all_ffi_types@.take(i as int)));
        }
    }
    proof {
        assert(all_ffi_types@.take(i as int) =~= all_ffi_types@);
    }
    let ghost avail = skip_first(numbered(all_ffi_types@));
    let mut deconstructable_variants: Vec<DeconstructableVariant> = Vec::new();
    let mut k: usize = 0;
    while k < variants.len()
        invariant
            k <= variants@.len(),
            all_ffi_fields@ == numbered(all_ffi_types@),
            avail == skip_first(numbered(all_ffi_types@)),
            deconstructable_variants@.len() == k,
            forall|j: int|
                0 <= j < k ==> variant_deconstructed(
                    variants@[j],
                    #[trigger] deconstructable_variants@[j],
                    avail,
                ),
            forall|j: int| 0 <= j < k ==> match_variant_fields(avail, (#[trigger] variants@[j]).fields@) is Ok,
        decreases variants@.len() - k,
    {
        let v = &variants[k];
        let field_finder = FfiFieldFinder::new(String::from_str(name), all_ffi_fields.as_slice());
        let (result, field_finder) = deconstruct_fields(name, v, field_finder);
        let source_fields = match result {
            Ok(sf) => sf,
            Err(e) => {
                proof {
                    assert(first_failing_variant(avail, variants@, k as int));
                }
                return Err(e);
            },
        };
        let enum_ffi_field_sources = create_field_sources(
            field_finder.available_fields,
            source_fields.as_slice(),
        );
        deconstructable_variants.push(
            DeconstructableVariant {
                name_kt: v.name_kt.clone(),
                orig_name: v.orig_name.clone(),
                fields_kind: v.fields_kind,
                source_fields,
                enum_ffi_field_sources,
            },
        );
        k = k + 1;
    }
    Ok(DeconstructableEnum { variants: deconstructable_variants, ffi_fields: all_ffi_fields })
}

/// How an enum is shaped: a plain enum, or an error that is flat (its variants carry only a
/// message) or not.
#[derive(Debug, Clone, Copy, PartialEq, Eq, Structural)]
pub enum EnumShape {
    Enum,
    Error { flat: bool },
}

impl EnumShape {
    pub fn is_flat_error(&self) -> (b: bool)
        ensures
            b == (*self == EnumShape::Error { flat: true }),
    {
        match self {
            EnumShape::Error { flat: true } => true,
            _ => false,
        }
    }
}

/// The texts of a list of strings.
pub open spec fn strings_view(v: Seq<String>) -> Seq<Seq<char>> {
    v.map_values(|s: String| s@)
}

/// The classes that a sealed Kotlin class for an enum extends: `Exception()` for an enum used
/// as an error, then `Comparable<..>` of itself for an enum that can be ordered.
pub open spec fn sealed_base_classes(
    is_used_as_error: bool,
    has_ord_cmp: bool,
    self_type_kt: Seq<char>,
) -> Seq<Seq<char>> {
    (if is_used_as_error {
        seq!["Exception()"@]
    } else {
        Seq::empty()
    }) + (if has_ord_cmp {
        seq!["Comparable<"@ + self_type_kt + ">"@]
    } else {
        Seq::empty()
    })
}

/// Whether an enum becomes a sealed Kotlin class: one used as an error, or one whose variants
/// carry fields (but never a flat error).
pub open spec fn is_sealed_class(shape: EnumShape, is_flat: bool, is_used_as_error: bool) -> bool {
    shape != (EnumShape::Error { flat: true }) && (is_used_as_error || !is_flat)
}

/// Whether `kind` is the Kotlin declaration of an enum and `base_classes` the classes it
/// extends.
///
/// A flat error becomes a flat error class; an enum used as an error, or one whose variants
/// carry fields, becomes a sealed class; any other enum becomes a Kotlin `enum class`, typed by
/// its discriminant type where the discriminants are given.
pub open spec fn enum_kind_of(
    shape: EnumShape,
    is_flat: bool,
    is_used_as_error: bool,
    has_ord_cmp: bool,
    discr_specified: bool,
    self_type_kt: Seq<char>,
    discr_type_kt: Seq<char>,
    kind: KotlinEnumKind,
    base_classes: Seq<String>,
) -> bool {
    &&& shape == (EnumShape::Error { flat: true }) ==> kind is FlatError && base_classes.len() == 0
    &&& is_sealed_class(shape, is_flat, is_used_as_error) ==> kind is SealedClass && strings_view(
        base_classes,
    ) == sealed_base_classes(is_used_as_error, has_ord_cmp, self_type_kt)
    &&& shape != (EnumShape::Error { flat: true }) && !is_sealed_class(
        shape,
        is_flat,
        is_used_as_error,
    ) ==> base_classes.len() == 0 && (kind matches KotlinEnumKind::EnumClass { discr_type } && (
    if discr_specified {
        discr_type matches Some(d) && d@ == discr_type_kt
    } else {
        discr_type is None
    }))
}

/// The Kotlin declaration that an enum becomes, and the classes that it extends.
///
/// A flat error becomes a flat error class; an enum used as an error, or one whose variants
/// carry fields, becomes a sealed class; any other enum becomes a Kotlin `enum class`, typed by
/// its discriminant type where the discriminants are given.
pub fn kotlin_enum_kind(
    shape: EnumShape,
    is_flat: bool,
    is_used_as_error: bool,
    has_ord_cmp: bool,
    discr_specified: bool,
    self_type_kt: &str,
    discr_type_kt: &str,
) -> (r: (KotlinEnumKind, Vec<String>))
    ensures
        enum_kind_of(
            shape,
            is_flat,
            is_used_as_error,
            has_ord_cmp,
            discr_specified,
            self_type_kt@,
            discr_type_kt@,
            r.0,
            r.1@,
        ),
{
    let mut base_classes: Vec<String> = Vec::new();
    if shape.is_flat_error() {
        (KotlinEnumKind::FlatError, base_classes)
    } else if is_used_as_error || !is_flat {
        proof {
            reveal_strlit("Exception()");
            reveal_strlit("Comparable<");
            reveal_strlit(">");
        }
        if is_used_as_error {
            base_classes.push(String::from_str("Exception()"));
        }
        if has_ord_cmp {
            let mut c = String::from_str("Comparable<");
            c.append(self_type_kt);
            c.append(">");
            base_classes.push(c);
        }
        proof {
            assert(strings_view(base_classes@) =~= sealed_base_classes(
                is_used_as_error,
                has_ord_cmp,
                self_type_kt@,
            ));
        }
        (KotlinEnumKind::SealedClass, base_classes)
    } else {
        let discr_type = if discr_specified {
            Some(String::from_str(discr_type_kt))
        } else {
            None
        };
        (KotlinEnumKind::EnumClass { discr_type }, base_classes)
    }
}

/// How an enum is lowered across the FFI.
pub enum LowerableEnum {
    /// As its primitive value.
    Primitive,
    /// As the values of its deconstruction.
    Deconstructable(DeconstructableEnum),
}

/// Whether `r` is how an enum named `name` is lowered, given how its type is: as a primitive,
/// deconstructed into the type's FFI values, or not at all.
pub open spec fn lowerable_enum_of(
    name: Seq<char>,
    variants: Seq<Variant>,
    lowerable: Option<LowerableType>,
    r: Result<Option<LowerableEnum>, BindgenError>,
) -> bool {
    match lowerable {
        None => r matches Ok(None),
        Some(LowerableType::Primitive(_)) => r matches Ok(Some(LowerableEnum::Primitive)),
        Some(LowerableType::Deconstructable(ts)) => match r {
            Ok(Some(LowerableEnum::Deconstructable(de))) => enum_deconstruction(name, variants, ts@, Ok(de)),
            Err(e) => enum_deconstruction(name, variants, ts@, Err(e)),
            _ => false,
        },
    }
}

/// How an enum named `name` is lowered, given how its type is: as a primitive, deconstructed
/// into the type's FFI values, or not at all.
pub fn lowerable_enum(name: &str, variants: &[Variant], lowerable: &Option<LowerableType>) -> (r:
    Result<Option<LowerableEnum>, BindgenError>)
    ensures
        lowerable_enum_of(name@, variants@, *lowerable, r),
{
    match lowerable {
        Some(LowerableType::Primitive(_)) => Ok(Some(LowerableEnum::Primitive)),
        Some(LowerableType::Deconstructable(ffi_types)) => {
            match deconstructable(name, variants, ffi_types.as_slice()) {
                Ok(de) => Ok(Some(LowerableEnum::Deconstructable(de))),
                Err(e) => Err(e),
            }
        },
        None => Ok(None),
    }
}

/// A variant of an enum, before its Kotlin name is chosen.
pub struct VariantInput {
    pub name: String,
    pub orig_name: String,
    pub discr: LiteralNode,
    pub fields_kind: FieldsKind,
    pub fields: Vec<Field>,
    pub docstring: Option<String>,
    /// The variant's Kotlin class name, for an enum whose variants become classes.
    pub class_name_kt: String,
}

/// The Kotlin name of a variant: its class name where the enum's variants become classes (the
/// enum is not flat, or it is a flat error), else its name as an `enum class` entry.
pub open spec fn variant_name_kt(is_flat: bool, shape: EnumShape, name: Seq<char>, class_name_kt: Seq<char>) -> Seq<char> {
    if !is_flat || shape == (EnumShape::Error { flat: true }) {
        class_name_kt
    } else {
        quoted(shouty_snake_case(name))
    }
}

/// Whether `v` is the variant of `input`, in an enum that is flat or not and of that shape.
pub open spec fn variant_mapped(input: VariantInput, is_flat: bool, shape: EnumShape, v: Variant) -> bool {
    &&& v.name_kt@ == variant_name_kt(is_flat, shape, input.name@, input.class_name_kt@)
    &&& v.name == input.name
    &&& v.orig_name == input.orig_name
    &&& v.discr == input.discr
    &&& v.fields_kind == input.fields_kind
    &&& v.fields == input.fields
    &&& v.docstring == input.docstring
}

/// Map a variant of an enum that is flat or not and of that shape.
pub fn map_variant(input: VariantInput, is_flat: bool, shape: EnumShape) -> (v: Variant)
    ensures
        variant_mapped(input, is_flat, shape, v),
{
    let name_kt = if !is_flat || shape.is_flat_error() {
        input.class_name_kt
    } else {
        enum_entry_name_kt(input.name.as_str())
    };
    Variant {
        name_kt,
        name: input.name,
        orig_name: input.orig_name,
        discr: input.discr,
        fields_kind: input.fields_kind,
        fields: input.fields,
        docstring: input.docstring,
    }
}

/// The Kotlin name of a variant of an enum that becomes a Kotlin `enum class`: its name in
/// shouty snake case, quoted.
pub fn enum_entry_name_kt(name: &str) -> (s: String)
    ensures
        s@ == quoted(shouty_snake_case(name@)),
{
    quote_name(to_shouty_snake_case(name))
}

} // verus!
