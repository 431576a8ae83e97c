use partial::emit::{expand_partial, expand_patched_impl, expand_patchable_impl,
    expand_unpatched_struct};
use partial::merge::{apply_merge, split_complete, synthesize_contract, MergeStep};
use partial::reduce::{extract_field_types, name_unpatched_struct, synthesize_reduced};
use partial::schema::{collect_fields, extract, has_marker, remove_marker_attributes, Definition,
    DefinitionData, ExpandError, FieldDef, Shape};

fn field(ident: Option<&str>, ty: &str, attrs: &[&str]) -> FieldDef {
    FieldDef {
        ident: ident.map(|s| s.to_string()),
        ty: ty.to_string(),
        vis: String::new(),
        attrs: attrs.iter().map(|s| s.to_string()).collect(),
    }
}

fn named_definition(name: &str, vis: &str, generics: &str, fields: Vec<FieldDef>) -> Definition {
    Definition {
        ident: name.to_string(),
        vis: vis.to_string(),
        generics: generics.to_string(),
        data: DefinitionData::Record { shape: Shape::Named, fields },
    }
}

fn example_definition() -> Definition {
    named_definition(
        "Example",
        "",
        "",
        vec![
            field(Some("field1"), "i32", &[]),
            field(Some("field2"), "String", &["partial"]),
        ],
    )
}

#[test]
fn marker_classifies_fields() {
    assert!(has_marker(&field(Some("a"), "u8", &["partial"])));
    assert!(has_marker(&field(Some("a"), "u8", &["serde", "partial"])));
    assert!(!has_marker(&field(Some("a"), "u8", &[])));
    assert!(!has_marker(&field(Some("a"), "u8", &["serde"])));
}

#[test]
fn collect_fields_splits_by_marker() {
    let fields = vec![
        field(Some("a"), "u8", &[]),
        field(Some("b"), "u16", &["partial"]),
        field(Some("c"), "u32", &[]),
    ];
    let immediate = collect_fields(&fields, false);
    let deferred = collect_fields(&fields, true);
    assert_eq!(immediate.len(), 2);
    assert_eq!(immediate[0].ident.as_deref(), Some("a"));
    assert_eq!(immediate[1].ident.as_deref(), Some("c"));
    assert_eq!(deferred.len(), 1);
    assert_eq!(deferred[0].ident.as_deref(), Some("b"));
}

#[test]
fn marker_attributes_are_stripped() {
    let mut fields = vec![
        field(Some("a"), "u8", &["serde", "partial"]),
        field(Some("b"), "u16", &["partial"]),
    ];
    remove_marker_attributes(&mut fields);
    assert_eq!(fields[0].attrs, vec!["serde".to_string()]);
    assert!(fields[1].attrs.is_empty());
}

#[test]
fn extract_classifies_and_strips() {
    let schema = extract(&example_definition()).unwrap();
    assert_eq!(schema.ident, "Example");
    assert_eq!(schema.shape, Shape::Named);
    assert_eq!(schema.fields.len(), 2);
    assert_eq!(schema.fields[0].ident.as_deref(), Some("field1"));
    assert!(!schema.fields[0].deferred);
    assert_eq!(schema.fields[1].ident.as_deref(), Some("field2"));
    assert!(schema.fields[1].deferred);
}

#[test]
fn extract_refuses_sum_definitions() {
    let def = Definition {
        ident: "Choice".to_string(),
        vis: String::new(),
        generics: String::new(),
        data: DefinitionData::Sum,
    };
    assert_eq!(extract(&def).unwrap_err(), ExpandError::UnsupportedDefinitionKind);
}

#[test]
fn extract_refuses_union_definitions() {
    let def = Definition {
        ident: "Raw".to_string(),
        vis: String::new(),
        generics: String::new(),
        data: DefinitionData::Union,
    };
    assert_eq!(extract(&def).unwrap_err(), ExpandError::UnsupportedDefinitionKind);
}

#[test]
fn reduced_name_is_record_name_with_suffix() {
    assert_eq!(name_unpatched_struct(&"Example".to_string()), "ExampleUnpatched");
}

#[test]
fn reduced_type_counts_partition_the_fields() {
    // Three fields, one deferred: the reduced type has two fields and the
    // contract one component.
    let def = named_definition(
        "Trio",
        "",
        "",
        vec![
            field(Some("a"), "u8", &[]),
            field(Some("b"), "u16", &["partial"]),
            field(Some("c"), "u32", &[]),
        ],
    );
    let schema = extract(&def).unwrap();
    let reduced = synthesize_reduced(&schema);
    let (tys, plan) = synthesize_contract(&schema);
    assert_eq!(reduced.fields.len(), 2);
    assert_eq!(tys.len(), 1);
    assert_eq!(plan.len(), 3);
}

#[test]
fn reduced_type_keeps_declaration_order() {
    let def = named_definition(
        "Trio",
        "pub",
        "<T>",
        vec![
            field(Some("a"), "u8", &[]),
            field(Some("b"), "T", &["partial"]),
            field(Some("c"), "u32", &[]),
        ],
    );
    let schema = extract(&def).unwrap();
    let reduced = synthesize_reduced(&schema);
    assert_eq!(reduced.ident, "TrioUnpatched");
    assert_eq!(reduced.vis, "pub");
    assert_eq!(reduced.generics, "<T>");
    assert_eq!(reduced.fields.len(), 2);
    assert_eq!(reduced.fields[0].ident.as_deref(), Some("a"));
    assert_eq!(reduced.fields[1].ident.as_deref(), Some("c"));
    let tys = extract_field_types(&reduced.fields);
    assert_eq!(tys, vec!["u8".to_string(), "u32".to_string()]);
}

#[test]
fn merge_plan_places_every_slot() {
    // Fields [a, b, c] with b deferred: a and c come back from reduced slots
    // 0 and 1 into slots 0 and 2, and the supplied value lands in slot 1.
    let def = named_definition(
        "Trio",
        "",
        "",
        vec![
            field(Some("a"), "i64", &[]),
            field(Some("b"), "i64", &["partial"]),
            field(Some("c"), "i64", &[]),
        ],
    );
    let schema = extract(&def).unwrap();
    let (tys, plan) = synthesize_contract(&schema);
    assert_eq!(tys, vec!["i64".to_string()]);
    assert_eq!(
        plan,
        vec![MergeStep::FromReduced(0), MergeStep::FromArgs(0), MergeStep::FromReduced(1)]
    );
    let merged = apply_merge(&plan, &vec![10i64, 30i64], &vec![20i64]);
    assert_eq!(merged, vec![10i64, 20i64, 30i64]);
}

#[test]
fn merge_round_trip_on_values() {
    // Split a complete value along the classification, then rebuild it.
    let def = named_definition(
        "Quad",
        "",
        "",
        vec![
            field(Some("a"), "i64", &["partial"]),
            field(Some("b"), "i64", &[]),
            field(Some("c"), "i64", &["partial"]),
            field(Some("d"), "i64", &[]),
        ],
    );
    let schema = extract(&def).unwrap();
    let (_tys, plan) = synthesize_contract(&schema);
    let complete = vec![1i64, 2i64, 3i64, 4i64];
    let (reduced, args) = split_complete(&schema.fields, &complete);
    assert_eq!(reduced, vec![2i64, 4i64]);
    assert_eq!(args, vec![1i64, 3i64]);
    assert_eq!(apply_merge(&plan, &reduced, &args), complete);
}

#[test]
fn positional_indices_render_beyond_one_digit() {
    // Eleven deferred slots after one immediate slot: the last deferred field
    // consumes completion component 10 and its index renders as two digits.
    let mut fields = vec![field(None, "u8", &[])];
    for _ in 0..11 {
        fields.push(field(None, "u8", &["partial"]));
    }
    let def = Definition {
        ident: "Wide".to_string(),
        vis: String::new(),
        generics: String::new(),
        data: DefinitionData::Record { shape: Shape::Positional, fields },
    };
    let out = expand_partial(&def).unwrap();
    assert!(out.contains("Wide(self.0, args.0, args.1, args.2, args.3, args.4, args.5, \
                          args.6, args.7, args.8, args.9, args.10, )"));
}

#[test]
fn expand_patched_impl_text() {
    let schema = extract(&example_definition()).unwrap();
    assert_eq!(
        expand_patched_impl(&schema),
        "impl ::partial::marker::Patched for Example {}\n"
    );
}

#[test]
fn expand_unpatched_struct_text() {
    let schema = extract(&example_definition()).unwrap();
    assert_eq!(
        expand_unpatched_struct(&schema),
        "struct ExampleUnpatched { field1: i32, }\n\
         impl ::partial::marker::Unpatched for ExampleUnpatched {}\n"
    );
}

#[test]
fn expand_patchable_impl_text() {
    let schema = extract(&example_definition()).unwrap();
    assert_eq!(
        expand_patchable_impl(&schema),
        "impl ::partial::patch::Patchable for ExampleUnpatched { type Args = (String, ); \
         type Patched = Example; fn patch(&self, args: Self::Args) -> Self::Patched { \
         Example { field1: self.field1, field2: args.0, } } }\n"
    );
}

#[test]
fn expand_partial_full_named_record() {
    let out = expand_partial(&example_definition()).unwrap();
    assert_eq!(
        out,
        "impl ::partial::marker::Patched for Example {}\n\
         struct ExampleUnpatched { field1: i32, }\n\
         impl ::partial::marker::Unpatched for ExampleUnpatched {}\n\
         impl ::partial::patch::Patchable for ExampleUnpatched { type Args = (String, ); \
         type Patched = Example; fn patch(&self, args: Self::Args) -> Self::Patched { \
         Example { field1: self.field1, field2: args.0, } } }\n"
    );
}

#[test]
fn expand_partial_keeps_visibility_and_generics() {
    let def = named_definition(
        "Holder",
        "pub",
        "<T>",
        vec![field(Some("item"), "T", &["partial"]), field(Some("tag"), "u8", &[])],
    );
    let out = expand_partial(&def).unwrap();
    assert_eq!(
        out,
        "impl<T> ::partial::marker::Patched for Holder<T> {}\n\
         pub struct HolderUnpatched<T> { tag: u8, }\n\
         impl<T> ::partial::marker::Unpatched for HolderUnpatched<T> {}\n\
         impl<T> ::partial::patch::Patchable for HolderUnpatched<T> { type Args = (T, ); \
         type Patched = Holder<T>; fn patch(&self, args: Self::Args) -> Self::Patched { \
         Holder { item: args.0, tag: self.tag, } } }\n"
    );
}

#[test]
fn expand_partial_positional_record() {
    let def = Definition {
        ident: "Pair".to_string(),
        vis: String::new(),
        generics: String::new(),
        data: DefinitionData::Record {
            shape: Shape::Positional,
            fields: vec![field(None, "String", &["partial"]), field(None, "i64", &[])],
        },
    };
    let out = expand_partial(&def).unwrap();
    assert_eq!(
        out,
        "impl ::partial::marker::Patched for Pair {}\n\
         struct PairUnpatched(i64, );\n\
         impl ::partial::marker::Unpatched for PairUnpatched {}\n\
         impl ::partial::patch::Patchable for PairUnpatched { type Args = (String, ); \
         type Patched = Pair; fn patch(&self, args: Self::Args) -> Self::Patched { \
         Pair(args.0, self.0, ) } }\n"
    );
}

#[test]
fn expand_partial_empty_record() {
    let def = Definition {
        ident: "Unit".to_string(),
        vis: "pub".to_string(),
        generics: String::new(),
        data: DefinitionData::Record { shape: Shape::Empty, fields: vec![] },
    };
    let out = expand_partial(&def).unwrap();
    assert_eq!(
        out,
        "impl ::partial::marker::Patched for Unit {}\n\
         pub struct UnitUnpatched;\n\
         impl ::partial::marker::Unpatched for UnitUnpatched {}\n\
         impl ::partial::patch::Patchable for UnitUnpatched { type Args = (); \
         type Patched = Unit; fn patch(&self, _args: Self::Args) -> Self::Patched { Unit } }\n"
    );
}

#[test]
fn expand_partial_two_deferred_components_in_order() {
    let def = named_definition(
        "Quad",
        "",
        "",
        vec![
            field(Some("a"), "u8", &[]),
            field(Some("b"), "String", &["partial"]),
            field(Some("c"), "u16", &[]),
            field(Some("d"), "bool", &["partial"]),
        ],
    );
    let out = expand_partial(&def).unwrap();
    assert!(out.contains("type Args = (String, bool, );"));
    assert!(out.contains("b: args.0,"));
    assert!(out.contains("d: args.1,"));
    assert!(out.contains("a: self.a,"));
    assert!(out.contains("c: self.c,"));
}

#[test]
fn expand_partial_refuses_non_records() {
    let def = Definition {
        ident: "Choice".to_string(),
        vis: String::new(),
        generics: String::new(),
        data: DefinitionData::Sum,
    };
    assert_eq!(expand_partial(&def).unwrap_err(), ExpandError::UnsupportedDefinitionKind);
}
