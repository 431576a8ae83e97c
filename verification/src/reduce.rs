//! The type synthesizer: derives the reduced record type from a schema.
//!
//! The reduced type keeps the record's shape, visibility and generic
//! parameter list verbatim, holds exactly the immediate fields in declaration
//! order, and takes its name from the record name by a fixed suffix.

use vstd::prelude::*;

use crate::merge::{deferred_fields, immediate_fields, lemma_count_partition, lemma_select_all,
    lemma_select_len, flags_of};
use crate::schema::{FieldDesc, FieldDescModel, RecordModel, RecordSchema, Shape, schema_wf};

verus! {

/// The reduced record type derived from a schema: same shape, visibility and
/// generics, only the immediate fields.
#[derive(Debug)]
pub struct ReducedTypeDef {
    pub ident: String,
    pub vis: String,
    pub generics: String,
    pub shape: Shape,
    pub fields: Vec<FieldDesc>,
}

impl View for ReducedTypeDef {
    type V = RecordModel;

    open spec fn view(&self) -> RecordModel {
        RecordModel {
            ident: self.ident@,
            vis: self.vis@,
            generics: self.generics@,
            shape: self.shape,
            fields: self.fields.deep_view(),
        }
    }
}

/// The fixed suffix that turns a record name into its reduced type's name.
pub open spec fn suffix_text() -> Seq<char> {
    "Unpatched"@
}

/// The reduced type a schema gives rise to.
pub open spec fn reduced_model(s: RecordModel) -> RecordModel {
    RecordModel {
        ident: s.ident + suffix_text(),
        vis: s.vis,
        generics: s.generics,
        shape: s.shape,
        fields: immediate_fields(s.fields),
    }
}

/// The name of the reduced type: the record name with the fixed suffix.
/// Reproducible from the record name alone.
pub fn name_unpatched_struct(ident: &String) -> (r: String)
    ensures
        r@ == ident@ + suffix_text(),
{
    let mut r = ident.clone();
    r.append("Unpatched");
    r
}

/// The declared types of a field list, in declaration order.
pub fn extract_field_types(fields: &Vec<FieldDesc>) -> (r: Vec<String>)
    ensures
        r.deep_view() == fields.deep_view().map_values(|f: FieldDescModel| f.ty),
{
    let ghost all = fields.deep_view();
    let mut out: Vec<String> = Vec::new();
    let mut i: usize = 0;
    while i < fields.len()
        invariant
            i <= fields.len(),
            all == fields.deep_view(),
            out.deep_view() =~= all.take(i as int).map_values(|f: FieldDescModel| f.ty),
        decreases fields.len() - i,
    {
        let ghost prev = out.deep_view();
        out.push(fields[i].ty.clone());
        proof {
            assert(out.deep_view() =~= prev.push(all[i as int].ty));
            assert(all.take(i + 1 as int).map_values(|f: FieldDescModel| f.ty) =~= all.take(
                i as int,
            ).map_values(|f: FieldDescModel| f.ty).push(all[i as int].ty));
        }
        i += 1;
    }
    proof {
        assert(all.take(fields.len() as int) =~= all);
    }
    out
}

/// Derive the reduced record type from a schema.
///
/// The result has exactly the immediate fields, in declaration order, and
/// exactly as many as the schema has fields that are not deferred; shape,
/// visibility and generics carry over verbatim, and the name is the record
/// name with the fixed suffix.
pub fn synthesize_reduced(schema: &RecordSchema) -> (r: ReducedTypeDef)
    ensures
        r@ == reduced_model(schema@),
        r@.fields.len() + deferred_fields(schema@.fields).len() == schema@.fields.len(),
        schema_wf(schema@) ==> schema_wf(r@),
{
    let ghost s = schema@.fields;
    let mut out: Vec<FieldDesc> = Vec::new();
    let mut i: usize = 0;
    while i < schema.fields.len()
        invariant
            i <= schema.fields.len(),
            s == schema@.fields,
            out.deep_view() =~= immediate_fields(s.take(i as int)),
        decreases schema.fields.len() - i,
    {
        let ghost prev = out.deep_view();
        proof {
            crate::merge::lemma_classified_extend(s, i as int);
        }
        let f = &schema.fields[i];
        if !f.deferred {
            out.push(f.clone());
            proof {
                assert(out.deep_view() =~= prev.push(s[i as int]));
            }
        }
        i += 1;
    }
    proof {
        assert(s.take(schema.fields.len() as int) =~= s);
    }
    let r = ReducedTypeDef {
        ident: name_unpatched_struct(&schema.ident),
        vis: schema.vis.clone(),
        generics: schema.generics.clone(),
        shape: schema.shape,
        fields: out,
    };
    proof {
        lemma_select_len(s, flags_of(s), false);
        lemma_select_len(s, flags_of(s), true);
        lemma_count_partition(flags_of(s));
        if schema_wf(schema@) {
            if schema@.shape == Shape::Named {
                assert(forall|k: int| 0 <= k < s.len() ==> #[trigger] s[k].ident is Some) by {
                    assert(forall|k: int|
                        0 <= k < s.len() ==> s.map_values(|f: FieldDescModel| f.ident)[k]
                            == #[trigger] s[k].ident);
                }
                lemma_select_all(s, flags_of(s), false, |f: FieldDescModel| f.ident is Some);
                assert(forall|k: int|
                    0 <= k < r@.fields.len() ==> #[trigger] r@.fields[k].ident is Some);
            }
            assert(schema_wf(r@)) by {
                assert(forall|k: int|
                    0 <= k < r@.fields.len() ==> r@.fields.map_values(
                        |f: FieldDescModel| f.ident,
                    )[k] == #[trigger] r@.fields[k].ident);
            }
        }
    }
    r
}

} // verus!
