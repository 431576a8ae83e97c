//! The schema extractor: turns a record definition into an ordered, classified
//! field list.
//!
//! A field is classified `Deferred` when it carries the per-field marker
//! attribute, and `Immediate` otherwise; the marker is stripped before the
//! field descriptor is handed to later stages.  Extraction fails exactly when
//! the definition is not a record.

use vstd::prelude::*;

verus! {

/// The spec-level value of a source field: identity, declared type,
/// visibility and attached attribute names.
pub struct FieldModel {
    pub ident: Option<Seq<char>>,
    pub ty: Seq<char>,
    pub vis: Seq<char>,
    pub attrs: Seq<Seq<char>>,
}

/// The spec-level value of a classified field descriptor.  The marker
/// attribute is gone; only the classification it induced remains.
pub struct FieldDescModel {
    pub ident: Option<Seq<char>>,
    pub ty: Seq<char>,
    pub vis: Seq<char>,
    pub deferred: bool,
}

/// The spec-level value of a record schema or of a derived record type.
pub struct RecordModel {
    pub ident: Seq<char>,
    pub vis: Seq<char>,
    pub generics: Seq<char>,
    pub shape: Shape,
    pub fields: Seq<FieldDescModel>,
}

/// The spec-level value of a source definition.
pub struct DefinitionModel {
    pub ident: Seq<char>,
    pub vis: Seq<char>,
    pub generics: Seq<char>,
    pub data: DefinitionDataModel,
}

/// The spec-level value of a definition body.
pub enum DefinitionDataModel {
    Record { shape: Shape, fields: Seq<FieldModel> },
    Sum,
    Union,
}

/// How a record lays out its fields.
#[derive(Clone, Copy, PartialEq, Eq, Structural, Debug)]
pub enum Shape {
    Named,
    Positional,
    Empty,
}

/// A source field as the extractor receives it: optional name (positional
/// fields have none), declared type and visibility as source text, and the
/// names of its attached attributes.
#[derive(Debug)]
pub struct FieldDef {
    pub ident: Option<String>,
    pub ty: String,
    pub vis: String,
    pub attrs: Vec<String>,
}

impl View for FieldDef {
    type V = FieldModel;

    open spec fn view(&self) -> FieldModel {
        FieldModel {
            ident: self.ident.deep_view(),
            ty: self.ty@,
            vis: self.vis@,
            attrs: self.attrs.deep_view(),
        }
    }
}

impl DeepView for FieldDef {
    type V = FieldModel;

    open spec fn deep_view(&self) -> FieldModel {
        self.view()
    }
}

impl Clone for FieldDef {
    fn clone(&self) -> (r: Self)
        ensures
            r@ == self@,
    {
        let r = FieldDef {
            ident: match &self.ident {
                Some(s) => Some(s.clone()),
                None => None,
            },
            ty: self.ty.clone(),
            vis: self.vis.clone(),
            attrs: self.attrs.clone(),
        };
        proof {
            assert(r.attrs.deep_view() =~= self.attrs.deep_view());
        }
        r
    }
}

/// A classified field descriptor: the marker is stripped, the classification
/// recorded in `deferred`.
#[derive(Debug)]
pub struct FieldDesc {
    pub ident: Option<String>,
    pub ty: String,
    pub vis: String,
    pub deferred: bool,
}

impl View for FieldDesc {
    type V = FieldDescModel;

    open spec fn view(&self) -> FieldDescModel {
        FieldDescModel {
            ident: self.ident.deep_view(),
            ty: self.ty@,
            vis: self.vis@,
            deferred: self.deferred,
        }
    }
}

impl DeepView for FieldDesc {
    type V = FieldDescModel;

    open spec fn deep_view(&self) -> FieldDescModel {
        self.view()
    }
}

impl Clone for FieldDesc {
    fn clone(&self) -> (r: Self)
        ensures
            r@ == self@,
    {
        FieldDesc {
            ident: match &self.ident {
                Some(s) => Some(s.clone()),
                None => None,
            },
            ty: self.ty.clone(),
            vis: self.vis.clone(),
            deferred: self.deferred,
        }
    }
}

/// A record definition as handed to the generator: name, generic parameter
/// list and visibility as source text, and the definition body.
#[derive(Debug)]
pub struct Definition {
    pub ident: String,
    pub vis: String,
    pub generics: String,
    pub data: DefinitionData,
}

/// The body of a definition.  Only `Record` bodies can be processed; `Sum`
/// and `Union` stand for the other kinds of type definition a host language
/// offers.
#[derive(Debug)]
pub enum DefinitionData {
    Record { shape: Shape, fields: Vec<FieldDef> },
    Sum,
    Union,
}

impl View for Definition {
    type V = DefinitionModel;

    open spec fn view(&self) -> DefinitionModel {
        DefinitionModel {
            ident: self.ident@,
            vis: self.vis@,
            generics: self.generics@,
            data: match self.data {
                DefinitionData::Record { shape, fields } => (DefinitionDataModel::Record {
                    shape,
                    fields: fields.deep_view(),
                }),
                DefinitionData::Sum => DefinitionDataModel::Sum,
                DefinitionData::Union => DefinitionDataModel::Union,
            },
        }
    }
}

/// An ordered, classified field list together with the record's name,
/// visibility, generics and shape.
#[derive(Debug)]
pub struct RecordSchema {
    pub ident: String,
    pub vis: String,
    pub generics: String,
    pub shape: Shape,
    pub fields: Vec<FieldDesc>,
}

impl View for RecordSchema {
    type V = RecordModel;

    open spec fn view(&self) -> RecordModel {
        RecordModel {
            ident: self.ident@,
            vis: self.vis@,
            generics: self.generics@,
            shape: self.shape,
            fields: self.fields.deep_view(),
        }
    }
}

/// Why generation was refused for a definition.
#[derive(Clone, Copy, PartialEq, Eq, Structural, Debug)]
pub enum ExpandError {
    /// Generation was requested on a definition that is not a record.
    UnsupportedDefinitionKind,
    /// A per-field marker was attached in a form the front end could not
    /// parse.  The extractor itself never produces this: attribute names
    /// reach it already parsed, so the variant exists for front ends to
    /// surface their parse failures through the same taxonomy.
    MalformedMarker,
}

/// The name of the per-field marker attribute that classifies a field as
/// deferred.
pub open spec fn marker_text() -> Seq<char> {
    "partial"@
}

/// Whether an attribute list contains the deferred-field marker.
pub open spec fn has_marker_spec(attrs: Seq<Seq<char>>) -> bool {
    exists|i: int| 0 <= i < attrs.len() && attrs[i] == marker_text()
}

/// A field model with the marker attribute removed.
pub open spec fn strip_marker_spec(f: FieldModel) -> FieldModel {
    FieldModel { attrs: keep_non_marker(f.attrs), ..f }
}

/// The attribute names other than the marker, in order.
pub open spec fn keep_non_marker(attrs: Seq<Seq<char>>) -> Seq<Seq<char>>
    decreases attrs.len(),
{
    if attrs.len() == 0 {
        Seq::empty()
    } else if attrs.last() == marker_text() {
        keep_non_marker(attrs.drop_last())
    } else {
        keep_non_marker(attrs.drop_last()).push(attrs.last())
    }
}

/// The classified descriptor a field model gives rise to.
pub open spec fn classify_field(f: FieldModel) -> FieldDescModel {
    FieldDescModel { ident: f.ident, ty: f.ty, vis: f.vis, deferred: has_marker_spec(f.attrs) }
}

/// The classified descriptors of a whole field list, in declaration order.
pub open spec fn classify_fields(fs: Seq<FieldModel>) -> Seq<FieldDescModel> {
    fs.map_values(|f: FieldModel| classify_field(f))
}

/// The fields of a list whose marker status matches `only_marked`, in
/// declaration order.
pub open spec fn marked_fields(fs: Seq<FieldModel>, only_marked: bool) -> Seq<FieldModel>
    decreases fs.len(),
{
    if fs.len() == 0 {
        Seq::empty()
    } else if has_marker_spec(fs.last().attrs) == only_marked {
        marked_fields(fs.drop_last(), only_marked).push(fs.last())
    } else {
        marked_fields(fs.drop_last(), only_marked)
    }
}

/// A definition is well formed when a named record names every field and an
/// empty record has no fields.
pub open spec fn definition_wf(d: DefinitionModel) -> bool {
    match d.data {
        DefinitionDataModel::Record { shape, fields } => record_fields_wf(
            shape,
            fields.map_values(|f: FieldModel| f.ident),
        ),
        _ => true,
    }
}

/// A schema is well formed under the same conditions as a definition.
pub open spec fn schema_wf(s: RecordModel) -> bool {
    record_fields_wf(s.shape, s.fields.map_values(|f: FieldDescModel| f.ident))
}

/// Shape-dependent conditions on the field identities.
pub open spec fn record_fields_wf(shape: Shape, idents: Seq<Option<Seq<char>>>) -> bool {
    &&& shape == Shape::Named ==> (forall|i: int| 0 <= i < idents.len() ==> idents[i] is Some)
    &&& shape == Shape::Empty ==> idents.len() == 0
}

/// Whether `s` is the marker attribute's name.
fn is_marker(s: &String) -> (r: bool)
    ensures
        r == (s@ == marker_text()),
{
    let m = String::from_str("partial");
    *s == m
}

/// Whether a field carries the deferred-field marker.
pub fn has_marker(field: &FieldDef) -> (r: bool)
    ensures
        r == has_marker_spec(field@.attrs),
{
    let mut i: usize = 0;
    while i < field.attrs.len()
        invariant
            i <= field.attrs.len(),
            forall|j: int| 0 <= j < i ==> field@.attrs[j] != marker_text(),
        decreases field.attrs.len() - i,
    {
        if is_marker(&field.attrs[i]) {
            assert(field@.attrs[i as int] == marker_text());
            return true;
        }
        i += 1;
    }
    false
}

/// The fields whose marker status matches `only_marked`, in declaration
/// order, each cloned out of the input list.
pub fn collect_fields(fields: &Vec<FieldDef>, only_marked: bool) -> (r: Vec<FieldDef>)
    ensures
        r.deep_view() == marked_fields(fields.deep_view(), only_marked),
{
    let ghost all = fields.deep_view();
    let mut out: Vec<FieldDef> = Vec::new();
    let mut i: usize = 0;
    while i < fields.len()
        invariant
            i <= fields.len(),
            all == fields.deep_view(),
            out.deep_view() == marked_fields(all.take(i as int), only_marked),
        decreases fields.len() - i,
    {
        let ghost prev = out.deep_view();
        if has_marker(&fields[i]) == only_marked {
            out.push(fields[i].clone());
            proof {
                assert(out.deep_view() =~= prev.push(all[i as int]));
            }
        }
        proof {
            assert(all.take(i + 1 as int).drop_last() =~= all.take(i as int));
            assert(all.take(i + 1 as int).last() == all[i as int]);
        }
        i += 1;
    }
    proof {
        assert(all.take(fields.len() as int) =~= all);
    }
    out
}

/// Remove every marker attribute from every field, leaving the other
/// attributes and every other field component unchanged.
pub fn remove_marker_attributes(fields: &mut Vec<FieldDef>)
    ensures
        final(fields).deep_view() == old(fields).deep_view().map_values(
            |f: FieldModel| strip_marker_spec(f),
        ),
{
    let ghost all = fields.deep_view();
    let mut out: Vec<FieldDef> = Vec::new();
    let mut i: usize = 0;
    while i < fields.len()
        invariant
            i <= fields.len(),
            all == fields.deep_view(),
            out.deep_view() =~= all.take(i as int).map_values(
                |f: FieldModel| strip_marker_spec(f),
            ),
        decreases fields.len() - i,
    {
        let ghost prev = out.deep_view();
        let f = &fields[i];
        let mut attrs: Vec<String> = Vec::new();
        let mut j: usize = 0;
        while j < f.attrs.len()
            invariant
                j <= f.attrs.len(),
                f == &fields[i as int],
                i < fields.len(),
                all == fields.deep_view(),
                attrs.deep_view() =~= keep_non_marker(f@.attrs.take(j as int)),
            decreases f.attrs.len() - j,
        {
            let ghost prev_attrs = attrs.deep_view();
            if !is_marker(&f.attrs[j]) {
                attrs.push(f.attrs[j].clone());
                proof {
                    assert(attrs.deep_view() =~= prev_attrs.push(f@.attrs[j as int]));
                }
            }
            proof {
                assert(f@.attrs.take(j + 1 as int).drop_last() =~= f@.attrs.take(j as int));
                assert(f@.attrs.take(j + 1 as int).last() == f@.attrs[j as int]);
            }
            j += 1;
        }
        proof {
            assert(f@.attrs.take(f.attrs.len() as int) =~= f@.attrs);
        }
        let stripped = FieldDef {
            ident: match &f.ident {
                Some(s) => Some(s.clone()),
                None => None,
            },
            ty: f.ty.clone(),
            vis: f.vis.clone(),
            attrs,
        };
        proof {
            assert(stripped@ == strip_marker_spec(all[i as int]));
        }
        out.push(stripped);
        proof {
            assert(out.deep_view() =~= prev.push(strip_marker_spec(all[i as int])));
            assert(all.take(i + 1 as int).map_values(|f: FieldModel| strip_marker_spec(f)) =~= all.take(
                i as int,
            ).map_values(|f: FieldModel| strip_marker_spec(f)).push(
                strip_marker_spec(all[i as int]),
            ));
        }
        i += 1;
    }
    proof {
        assert(all.take(fields.len() as int) =~= all);
    }
    *fields = out;
}

/// Parse a definition into a record schema.
///
/// Succeeds exactly on record definitions; every field is classified by the
/// presence of the marker attribute, which does not survive into the
/// descriptor.  Any other definition kind is refused.
pub fn extract(def: &Definition) -> (r: Result<RecordSchema, ExpandError>)
    ensures
        (r is Ok) == (def@.data is Record),
        r is Err ==> r->Err_0 == ExpandError::UnsupportedDefinitionKind,
        def@.data matches DefinitionDataModel::Record { shape, fields } ==> r is Ok
            && r->Ok_0@ == (RecordModel {
            ident: def@.ident,
            vis: def@.vis,
            generics: def@.generics,
            shape,
            fields: classify_fields(fields),
        }),
        definition_wf(def@) && r is Ok ==> schema_wf(r->Ok_0@),
{
    match &def.data {
        DefinitionData::Record { shape, fields } => {
            let ghost all = fields.deep_view();
            let mut out: Vec<FieldDesc> = Vec::new();
            let mut i: usize = 0;
            while i < fields.len()
                invariant
                    i <= fields.len(),
                    all == fields.deep_view(),
                    out.deep_view() =~= classify_fields(all.take(i as int)),
                decreases fields.len() - i,
            {
                let ghost prev = out.deep_view();
                let f = &fields[i];
                let deferred = has_marker(f);
                out.push(
                    FieldDesc {
                        ident: match &f.ident {
                            Some(s) => Some(s.clone()),
                            None => None,
                        },
                        ty: f.ty.clone(),
                        vis: f.vis.clone(),
                        deferred,
                    },
                );
                proof {
                    assert(out.deep_view() =~= prev.push(classify_field(all[i as int])));
                    assert(classify_fields(all.take(i + 1 as int)) =~= classify_fields(
                        all.take(i as int),
                    ).push(classify_field(all[i as int])));
                }
                i += 1;
            }
            proof {
                assert(all.take(fields.len() as int) =~= all);
            }
            let schema = RecordSchema {
                ident: def.ident.clone(),
                vis: def.vis.clone(),
                generics: def.generics.clone(),
                shape: *shape,
                fields: out,
            };
            proof {
                if definition_wf(def@) {
                    assert(schema@.fields.map_values(|f: FieldDescModel| f.ident) =~= all.map_values(
                        |f: FieldModel| f.ident,
                    ));
                }
            }
            Ok(schema)
        },
        DefinitionData::Sum => Err(ExpandError::UnsupportedDefinitionKind),
        DefinitionData::Union => Err(ExpandError::UnsupportedDefinitionKind),
    }
}

} // verus!
