//! Records whose fields can all be passed as primitive FFI values.

use vstd::prelude::*;
use crate::error::BindgenError;
use crate::nodes::{
    DeconstructableField, DeconstructableFieldKind, DeconstructableRecord, FfiField, Field,
    LowerableType, lowerable_ffi_types, source_field_ffi_types, type_node_same,
};
use crate::ffitypes::FfiType;
use crate::enums::FieldsKind;
use crate::nodes::{DefaultValueNode, TypeNode, UniffiTraitMethods};
use crate::packages::Record;

verus! {

/// How many FFI values the fields of a record are passed as (fields that cannot be lowered
/// count for none).
pub open spec fn fields_ffi_count(fields: Seq<Field>) -> nat
    decreases fields.len(),
{
    if fields.len() == 0 {
        0
    } else {
        fields_ffi_count(fields.drop_last()) + match fields.last().ty.lowerable {
            Some(l) => lowerable_ffi_types(l).len(),
            None => 0,
        }
    }
}

proof fn lemma_count_prefix(fields: Seq<Field>, i: int)
    requires
        0 <= i <= fields.len(),
    ensures
        fields_ffi_count(fields.take(i)) <= fields_ffi_count(fields),
    decreases fields.len() - i,
{
    if i < fields.len() {
        lemma_count_prefix(fields, i + 1);
        assert(fields.take(i + 1).drop_last() =~= fields.take(i));
    } else {
        assert(fields.take(i) =~= fields);
    }
}

/// Whether `df` deconstructs the field `f`, its FFI values numbered from `start`.
pub open spec fn deconstructs_field(f: Field, df: DeconstructableField, start: nat) -> bool {
    &&& df.name == f.name
    &&& df.orig_name == f.orig_name
    &&& df.index == f.index
    &&& type_node_same(df.ty, f.ty)
    &&& match f.ty.lowerable {
        Some(LowerableType::Primitive(t)) => df.kind == DeconstructableFieldKind::Primitive(
            FfiField { index: start as usize, ty: t },
        ),
        Some(LowerableType::Deconstructable(ts)) => df.kind matches DeconstructableFieldKind::Recursive(fs)
            && fs@.len() == ts@.len() && forall|k: int|
            0 <= k < fs@.len() ==> #[trigger] fs@[k] == (FfiField { index: (start + k) as usize, ty: ts@[k] }),
        None => false,
    }
}

/// Whether field `k` is the first one that cannot be lowered.
pub open spec fn first_unlowerable(fields: Seq<Field>, k: int) -> bool {
    &&& 0 <= k < fields.len()
    &&& fields[k].ty.lowerable is None
    &&& forall|j: int| 0 <= j < k ==> (#[trigger] fields[j]).ty.lowerable is Some
}

/// Whether `r` deconstructs a record named `name` with these fields: on success, every field
/// can be lowered and each keeps its own FFI values, numbered in field order from 0; on
/// failure, `r` names the first field that cannot be lowered.
pub open spec fn record_deconstruction(
    name: Seq<char>,
    fields: Seq<Field>,
    r: Result<DeconstructableRecord, BindgenError>,
) -> bool {
    match r {
        Ok(rec) => {
            &&& forall|k: int| 0 <= k < fields.len() ==> (#[trigger] fields[k]).ty.lowerable is Some
            &&& rec.source_fields@.len() == fields.len()
            &&& forall|k: int|
                0 <= k < fields.len() ==> deconstructs_field(
                    fields[k],
                    #[trigger] rec.source_fields@[k],
                    fields_ffi_count(fields.take(k)),
                )
        },
        Err(e) => exists|k: int|
            first_unlowerable(fields, k) && (e matches BindgenError::RecordFieldNotDeconstructable(
                n,
                f,
            ) && n@ == name && f@ == fields[k].name@),
    }
}

/// Create the deconstruction of a record: each field keeps its own FFI values, numbered in
/// field order from 0.  Fails on the first field that cannot be lowered.
pub fn deconstructable(name: &str, fields: &[Field]) -> (r: Result<DeconstructableRecord, BindgenError>)
    requires
        fields_ffi_count(fields@) <= usize::MAX,
    ensures
        record_deconstruction(name@, fields@, r),
{
    let mut source_fields: Vec<DeconstructableField> = Vec::new();
    let mut field_counter: usize = 0;
    let mut i: usize = 0;
    while i < fields.len()
        invariant
            i <= fields@.len(),
            fields_ffi_count(fields@) <= usize::MAX,
            field_counter == fields_ffi_count(fields@.take(i as int)),
            source_fields@.len() == i,
            forall|k: int| 0 <= k < i ==> (#[trigger] fields@[k]).ty.lowerable is Some,
            forall|k: int|
                0 <= k < i ==> deconstructs_field(
                    fields@[k],
                    #[trigger] source_fields@[k],
                    fields_ffi_count(fields@.take(k)),
                ),
        decreases fields@.len() - i,
    {
        let f = &fields[i];
        let deconstructable = match &f.ty.lowerable {
            Some(d) => d,
            None => {
                proof {
                    assert(first_unlowerable(fields@, i as int));
                }
                return Err(
                    BindgenError::RecordFieldNotDeconstructable(
                        String::from_str(name),
                        f.name.clone(),
                    ),
                );
            },
        };
        proof {
            lemma_count_prefix(fields@, i + 1);
            assert(fields@.take(i + 1).drop_last() =~= fields@.take(i as int));
        }
        let ghost start = field_counter as nat;
        let kind = match deconstructable {
            LowerableType::Primitive(ffi_type) => {
                let field = FfiField { index: field_counter, ty: *ffi_type };
                field_counter = field_counter + 1;
                DeconstructableFieldKind::Primitive(field)
            },
            LowerableType::Deconstructable(ffi_types) => {
                let mut ffi_fields: Vec<FfiField> = Vec::new();
                let mut j: usize = 0;
                while j < ffi_types.len()
                    invariant
                        j <= ffi_types@.len(),
                        start + ffi_types@.len() <= usize::MAX,
                        field_counter == start + j,
                        ffi_fields@.len() == j,
                        forall|k: int|
                            0 <= k < j ==> #[trigger] ffi_fields@[k] == (FfiField {
                                index: (start + k) as usize,
                                ty: ffi_types@[k],
                            }),
                    decreases ffi_types@.len() - j,
                {
                    ffi_fields.push(FfiField { index: field_counter, ty: ffi_types[j] });
                    field_counter = field_counter + 1;
                    j = j + 1;
                }
                DeconstructableFieldKind::Recursive(ffi_fields)
            },
        };
        source_fields.push(
            DeconstructableField {
                name: f.name.clone(),
                orig_name: f.orig_name.clone(),
                index: f.index,
                ty: f.ty.clone(),
                kind,
            },
        );
        i = i + 1;
    }
    Ok(DeconstructableRecord { source_fields })
}

/// The FFI types of the fields of a record, one field after the other.
pub open spec fn fields_ffi_types(fields: Seq<Field>) -> Seq<FfiType>
    decreases fields.len(),
{
    if fields.len() == 0 {
        seq![]
    } else {
        fields_ffi_types(fields.drop_last()) + match fields.last().ty.lowerable {
            Some(l) => lowerable_ffi_types(l),
            None => seq![],
        }
    }
}

/// A deconstructed record is passed as its fields' FFI values, in field order: the FFI types
/// that `DeconstructableRecord::ffi_types` lists are those of the fields one after the other,
/// and each field's values are numbered from where the previous field's end.
pub proof fn law_deconstructed_record_types(fields: Seq<Field>, rec: DeconstructableRecord)
    requires
        rec.source_fields@.len() == fields.len(),
        forall|k: int|
            0 <= k < fields.len() ==> deconstructs_field(
                fields[k],
                #[trigger] rec.source_fields@[k],
                fields_ffi_count(fields.take(k)),
            ),
    ensures
        source_field_ffi_types(rec.source_fields@) == fields_ffi_types(fields),
        fields_ffi_types(fields).len() == fields_ffi_count(fields),
{
    let sf = rec.source_fields@;
    lemma_prefix_types(fields, sf, fields.len() as int);
    assert(sf.take(fields.len() as int) =~= sf);
    assert(fields.take(fields.len() as int) =~= fields);
}

proof fn lemma_prefix_types(fields: Seq<Field>, sf: Seq<DeconstructableField>, n: int)
    requires
        0 <= n <= fields.len(),
        sf.len() == fields.len(),
        forall|k: int|
            0 <= k < fields.len() ==> deconstructs_field(
                fields[k],
                #[trigger] sf[k],
                fields_ffi_count(fields.take(k)),
            ),
    ensures
        source_field_ffi_types(sf.take(n)) == fields_ffi_types(fields.take(n)),
        fields_ffi_types(fields.take(n)).len() == fields_ffi_count(fields.take(n)),
    decreases n,
{
    if n > 0 {
        lemma_prefix_types(fields, sf, n - 1);
        assert(sf.take(n).drop_last() =~= sf.take(n - 1));
        assert(fields.take(n).drop_last() =~= fields.take(n - 1));
        assert(deconstructs_field(fields[n - 1], sf[n - 1], fields_ffi_count(fields.take(n - 1))));
        match fields[n - 1].ty.lowerable {
            Some(LowerableType::Deconstructable(ts)) => {
                if let DeconstructableFieldKind::Recursive(fs) = sf[n - 1].kind {
                    assert(fs@.map_values(|f: FfiField| f.ty) =~= ts@);
                }
            },
            _ => {},
        }
    } else {
        assert(sf.take(0) =~= Seq::<DeconstructableField>::empty());
        assert(fields.take(0) =~= Seq::<Field>::empty());
    }
}

/// A field of a record or variant, before it is numbered.
pub struct FieldInput {
    pub name: String,
    pub orig_name: String,
    pub ty: TypeNode,
    pub default: Option<DefaultValueNode>,
    pub docstring: Option<String>,
}

/// Whether a field is its input, numbered `index`.
pub open spec fn field_of(input: FieldInput, index: int, f: Field) -> bool {
    &&& f.name == input.name
    &&& f.orig_name == input.orig_name
    &&& f.index == index
    &&& f.ty == input.ty
    &&& f.default == input.default
    &&& f.docstring == input.docstring
}

/// How many FFI values the inputs' fields are passed as.
pub open spec fn inputs_ffi_count(fields: Seq<FieldInput>) -> nat
    decreases fields.len(),
{
    if fields.len() == 0 {
        0
    } else {
        inputs_ffi_count(fields.drop_last()) + match fields.last().ty.lowerable {
            Some(l) => lowerable_ffi_types(l).len(),
            None => 0,
        }
    }
}

proof fn lemma_inputs_count(inputs: Seq<FieldInput>, fields: Seq<Field>)
    requires
        inputs.len() == fields.len(),
        forall|i: int| 0 <= i < inputs.len() ==> field_of(inputs[i], i, #[trigger] fields[i]),
    ensures
        fields_ffi_count(fields) == inputs_ffi_count(inputs),
    decreases inputs.len(),
{
    if inputs.len() > 0 {
        let a = inputs.drop_last();
        let b = fields.drop_last();
        assert forall|i: int| 0 <= i < a.len() implies field_of(a[i], i, #[trigger] b[i]) by {
            assert(a[i] == inputs[i] && b[i] == fields[i]);
        }
        lemma_inputs_count(a, b);
        assert(field_of(inputs.last(), inputs.len() - 1, fields.last()));
    }
}

/// Number the fields, in order from 0.
pub fn map_fields(fields: Vec<FieldInput>) -> (r: Vec<Field>)
    ensures
        r@.len() == fields@.len(),
        forall|i: int| 0 <= i < fields@.len() ==> field_of(fields@[i], i, #[trigger] r@[i]),
{
    let ghost all = fields@;
    let mut rest = fields;
    let mut mapped: Vec<Field> = Vec::new();
    while rest.len() > 0
        invariant
            all == fields@,
            mapped@.len() + rest@.len() == all.len(),
            rest@ == all.skip(mapped@.len() as int),
            forall|i: int| 0 <= i < mapped@.len() ==> field_of(all[i], i, #[trigger] mapped@[i]),
        decreases rest@.len(),
    {
        let ghost k = mapped@.len();
        let f = rest.remove(0);
        proof {
            assert(all.skip(k as int)[0] == all[k as int]);
            assert(rest@ =~= all.skip(k + 1 as int));
        }
        let index = mapped.len();
        mapped.push(
            Field {
                name: f.name,
                orig_name: f.orig_name,
                index,
                ty: f.ty,
                default: f.default,
                docstring: f.docstring,
            },
        );
    }
    mapped
}

/// A record, before its fields are numbered.
pub struct RecordInput {
    pub fields_kind: FieldsKind,
    pub self_type: TypeNode,
    pub name: String,
    pub orig_name: String,
    pub uniffi_trait_methods: UniffiTraitMethods,
    pub fields: Vec<FieldInput>,
    pub docstring: Option<String>,
    pub recursive: bool,
}

/// Map a record: number its fields, and deconstruct it when its type can be lowered.
/// `immutable` is what the namespace's configuration says of the record.
///
/// Fails when the type can be lowered but a field cannot.
pub fn map_record(input: RecordInput, immutable: bool) -> (r: Result<Record, BindgenError>)
    requires
        inputs_ffi_count(input.fields@) <= usize::MAX,
    ensures
        match r {
            Ok(rec) => {
                &&& rec.fields_kind == input.fields_kind
                &&& rec.self_type == input.self_type
                &&& rec.immutable == immutable
                &&& rec.name == input.name
                &&& rec.orig_name == input.orig_name
                &&& rec.uniffi_trait_methods == input.uniffi_trait_methods
                &&& rec.docstring == input.docstring
                &&& rec.recursive == input.recursive
                &&& rec.fields@.len() == input.fields@.len()
                &&& forall|i: int|
                    0 <= i < input.fields@.len() ==> field_of(
                        input.fields@[i],
                        i,
                        #[trigger] rec.fields@[i],
                    )
                &&& match rec.deconstructable {
                    Some(d) => input.self_type.lowerable is Some && record_deconstruction(
                        input.name@,
                        rec.fields@,
                        Ok(d),
                    ),
                    None => input.self_type.lowerable is None,
                }
            },
            Err(e) => input.self_type.lowerable is Some && exists|fields: Seq<Field>|
                fields.len() == input.fields@.len() && (forall|i: int|
                    0 <= i < input.fields@.len() ==> field_of(
                        input.fields@[i],
                        i,
                        #[trigger] fields[i],
                    )) && record_deconstruction(input.name@, fields, Err(e)),
        },
{
    let RecordInput {
        fields_kind,
        self_type,
        name,
        orig_name,
        uniffi_trait_methods,
        fields,
        docstring,
        recursive,
    } = input;
    let fields = map_fields(fields);
    proof {
        lemma_inputs_count(input.fields@, fields@);
    }
    let deconstructable = if self_type.lowerable.is_some() {
        match deconstructable(name.as_str(), fields.as_slice()) {
            Ok(d) => Some(d),
            Err(e) => {
                return Err(e);
            },
        }
    } else {
        None
    };
    Ok(
        Record {
            fields_kind,
            self_type,
            immutable,
            name,
            orig_name,
            uniffi_trait_methods,
            fields,
            docstring,
            recursive,
            deconstructable,
        },
    )
}

} // verus!
