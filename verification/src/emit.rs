//! Rendering of the synthesized artifacts as source text: the reduced type
//! definition, the two capability-tag impls, and the completion-contract and
//! merge implementation.
//!
//! Generation is deterministic: the text is a pure function of the schema,
//! given exactly by the `*_text` spec functions.

use vstd::prelude::*;

use crate::merge::{arg_types, count, deferred_rank, flags_of, immediate_rank,
    lemma_classified_extend, lemma_rank_prefix, synthesize_contract};
use crate::reduce::{reduced_model, suffix_text, synthesize_reduced};
use crate::schema::{Definition, DefinitionDataModel, ExpandError, FieldDesc, FieldDescModel,
    RecordModel, RecordSchema, Shape, classify_fields, extract};

verus! {

/// The decimal digit character of `d`.
pub open spec fn dec_digit(d: int) -> char {
    if d == 0 {
        '0'
    } else if d == 1 {
        '1'
    } else if d == 2 {
        '2'
    } else if d == 3 {
        '3'
    } else if d == 4 {
        '4'
    } else if d == 5 {
        '5'
    } else if d == 6 {
        '6'
    } else if d == 7 {
        '7'
    } else if d == 8 {
        '8'
    } else {
        '9'
    }
}

/// The decimal rendering of `n`, used for positional slot indices.
pub open spec fn dec_text(n: int) -> Seq<char>
    decreases n,
{
    if n < 10 {
        seq![dec_digit(n)]
    } else {
        dec_text(n / 10).push(dec_digit(n % 10))
    }
}

/// The visibility followed by a space, or nothing when the visibility is
/// empty.
pub open spec fn vis_prefix(vis: Seq<char>) -> Seq<char> {
    if vis.len() == 0 {
        vis
    } else {
        vis + " "@
    }
}

/// A field's name, or nothing for a positional field.
pub open spec fn ident_text(id: Option<Seq<char>>) -> Seq<char> {
    match id {
        Some(s) => s,
        None => Seq::empty(),
    }
}

/// One capability-tag impl: `impl<G> ::partial::marker::<tag> for <name><G> {}`.
pub open spec fn marker_impl_text(
    generics: Seq<char>,
    tag: Seq<char>,
    target_name: Seq<char>,
) -> Seq<char> {
    "impl"@ + generics + " ::partial::marker::"@ + tag + " for "@ + target_name + generics
        + " {}\n"@
}

/// The complete-capable tag impl of the source record.
pub open spec fn patched_impl_text(s: RecordModel) -> Seq<char> {
    marker_impl_text(s.generics, "Patched"@, s.ident)
}

/// The first `n` named fields as `name: Type, ` items.
pub open spec fn named_fields_text(fs: Seq<FieldDescModel>, n: int) -> Seq<char>
    decreases n,
{
    if n <= 0 {
        Seq::<char>::empty()
    } else {
        named_fields_text(fs, n - 1) + ident_text(fs[n - 1].ident) + ": "@ + fs[n - 1].ty + ", "@
    }
}

/// The first `n` positional fields as `Type, ` items.
pub open spec fn positional_fields_text(fs: Seq<FieldDescModel>, n: int) -> Seq<char>
    decreases n,
{
    if n <= 0 {
        Seq::<char>::empty()
    } else {
        positional_fields_text(fs, n - 1) + fs[n - 1].ty + ", "@
    }
}

/// The definition of a reduced record type `r`, followed by its
/// reduced-capable tag impl.
pub open spec fn unpatched_struct_text(r: RecordModel) -> Seq<char> {
    vis_prefix(r.vis) + "struct "@ + r.ident + r.generics + (match r.shape {
        Shape::Named => " { "@ + named_fields_text(r.fields, r.fields.len() as int) + "}\n"@,
        Shape::Positional => "("@ + positional_fields_text(r.fields, r.fields.len() as int)
            + ");\n"@,
        Shape::Empty => ";\n"@,
    }) + marker_impl_text(r.generics, "Unpatched"@, r.ident)
}

/// The first `n` completion-contract types as `Type, ` tuple components.
pub open spec fn args_tuple_text(tys: Seq<Seq<char>>, n: int) -> Seq<char>
    decreases n,
{
    if n <= 0 {
        Seq::<char>::empty()
    } else {
        args_tuple_text(tys, n - 1) + tys[n - 1] + ", "@
    }
}

/// The merge source of named field `k`: the completion component of its
/// deferred rank, or the reduced instance's field of the same name.
pub open spec fn named_assign_text(fs: Seq<FieldDescModel>, k: int) -> Seq<char> {
    if fs[k].deferred {
        ident_text(fs[k].ident) + ": args."@ + dec_text(deferred_rank(fs, k)) + ", "@
    } else {
        ident_text(fs[k].ident) + ": self."@ + ident_text(fs[k].ident) + ", "@
    }
}

/// The first `n` named merge assignments.
pub open spec fn named_assigns_text(fs: Seq<FieldDescModel>, n: int) -> Seq<char>
    decreases n,
{
    if n <= 0 {
        Seq::<char>::empty()
    } else {
        named_assigns_text(fs, n - 1) + named_assign_text(fs, n - 1)
    }
}

/// The merge source of positional field `k`: the completion component of its
/// deferred rank, or the reduced slot of its immediate rank.
pub open spec fn positional_assign_text(fs: Seq<FieldDescModel>, k: int) -> Seq<char> {
    if fs[k].deferred {
        "args."@ + dec_text(deferred_rank(fs, k)) + ", "@
    } else {
        "self."@ + dec_text(immediate_rank(fs, k)) + ", "@
    }
}

/// The first `n` positional merge assignments.
pub open spec fn positional_assigns_text(fs: Seq<FieldDescModel>, n: int) -> Seq<char>
    decreases n,
{
    if n <= 0 {
        Seq::<char>::empty()
    } else {
        positional_assigns_text(fs, n - 1) + positional_assign_text(fs, n - 1)
    }
}

/// The completion-contract impl of a schema: the `Args` tuple of deferred
/// field types, the complete type as target, and the merge that places every
/// field in declaration order.
pub open spec fn patchable_impl_text(s: RecordModel) -> Seq<char> {
    "impl"@ + s.generics + " ::partial::patch::Patchable for "@ + s.ident + suffix_text()
        + s.generics + " { type Args = ("@ + args_tuple_text(
        arg_types(s.fields),
        arg_types(s.fields).len() as int,
    ) + "); type Patched = "@ + s.ident + s.generics + "; fn patch(&self, "@ + (match s.shape {
        Shape::Named => "args: Self::Args) -> Self::Patched { "@ + s.ident + " { "@
            + named_assigns_text(s.fields, s.fields.len() as int) + "} } }\n"@,
        Shape::Positional => "args: Self::Args) -> Self::Patched { "@ + s.ident + "("@
            + positional_assigns_text(s.fields, s.fields.len() as int) + ") } }\n"@,
        Shape::Empty => "_args: Self::Args) -> Self::Patched { "@ + s.ident + " } }\n"@,
    })
}

/// Everything generation attaches beside a record definition.
pub open spec fn expansion_text(s: RecordModel) -> Seq<char> {
    patched_impl_text(s) + unpatched_struct_text(reduced_model(s)) + patchable_impl_text(s)
}

fn digit_str(d: usize) -> (r: &'static str)
    requires
        d < 10,
    ensures
        r@ == seq![dec_digit(d as int)],
{
    if d == 0 {
        proof {
            reveal_strlit("0");
            assert("0"@ =~= seq![dec_digit(0int)]);
        }
        "0"
    } else if d == 1 {
        proof {
            reveal_strlit("1");
            assert("1"@ =~= seq![dec_digit(1int)]);
        }
        "1"
    } else if d == 2 {
        proof {
            reveal_strlit("2");
            assert("2"@ =~= seq![dec_digit(2int)]);
        }
        "2"
    } else if d == 3 {
        proof {
            reveal_strlit("3");
            assert("3"@ =~= seq![dec_digit(3int)]);
        }
        "3"
    } else if d == 4 {
        proof {
            reveal_strlit("4");
            assert("4"@ =~= seq![dec_digit(4int)]);
        }
        "4"
    } else if d == 5 {
        proof {
            reveal_strlit("5");
            assert("5"@ =~= seq![dec_digit(5int)]);
        }
        "5"
    } else if d == 6 {
        proof {
            reveal_strlit("6");
            assert("6"@ =~= seq![dec_digit(6int)]);
        }
        "6"
    } else if d == 7 {
        proof {
            reveal_strlit("7");
            assert("7"@ =~= seq![dec_digit(7int)]);
        }
        "7"
    } else if d == 8 {
        proof {
            reveal_strlit("8");
            assert("8"@ =~= seq![dec_digit(8int)]);
        }
        "8"
    } else {
        proof {
            reveal_strlit("9");
            assert("9"@ =~= seq![dec_digit(9int)]);
        }
        "9"
    }
}

/// Append the decimal rendering of `n`.
fn append_decimal(out: &mut String, n: usize)
    ensures
        final(out)@ == old(out)@ + dec_text(n as int),
    decreases n,
{
    if n >= 10 {
        proof {
            assert(n / 10 < n) by (nonlinear_arith)
                requires
                    n >= 10,
            ;
        }
        append_decimal(out, n / 10);
        out.append(digit_str(n % 10));
        proof {
            assert(out@ =~= old(out)@ + dec_text(n as int));
        }
    } else {
        out.append(digit_str(n));
        proof {
            assert(out@ =~= old(out)@ + dec_text(n as int));
        }
    }
}

fn append_marker_impl(out: &mut String, generics: &String, tag: &str, target_name: &String)
    ensures
        final(out)@ == old(out)@ + marker_impl_text(generics@, tag@, target_name@),
{
    out.append("impl");
    out.append(generics.as_str());
    out.append(" ::partial::marker::");
    out.append(tag);
    out.append(" for ");
    out.append(target_name.as_str());
    out.append(generics.as_str());
    out.append(" {}\n");
    proof {
        assert(out@ =~= old(out)@ + marker_impl_text(generics@, tag@, target_name@));
    }
}

/// Render the complete-capable tag impl of the source record.
pub fn expand_patched_impl(schema: &RecordSchema) -> (r: String)
    ensures
        r@ == patched_impl_text(schema@),
{
    let mut r = String::new();
    append_marker_impl(&mut r, &schema.generics, "Patched", &schema.ident);
    proof {
        assert(r@ =~= patched_impl_text(schema@));
    }
    r
}

fn append_named_fields(out: &mut String, fields: &Vec<FieldDesc>)
    ensures
        final(out)@ == old(out)@ + named_fields_text(
            fields.deep_view(),
            fields.deep_view().len() as int,
        ),
{
    let ghost s = fields.deep_view();
    let mut i: usize = 0;
    while i < fields.len()
        invariant
            i <= fields.len(),
            s == fields.deep_view(),
            out@ == old(out)@ + named_fields_text(s, i as int),
        decreases fields.len() - i,
    {
        match &fields[i].ident {
            Some(id) => out.append(id.as_str()),
            None => (),
        }
        out.append(": ");
        out.append(fields[i].ty.as_str());
        out.append(", ");
        proof {
            assert(out@ =~= old(out)@ + named_fields_text(s, i + 1 as int));
        }
        i += 1;
    }
}

fn append_positional_fields(out: &mut String, fields: &Vec<FieldDesc>)
    ensures
        final(out)@ == old(out)@ + positional_fields_text(
            fields.deep_view(),
            fields.deep_view().len() as int,
        ),
{
    let ghost s = fields.deep_view();
    let mut i: usize = 0;
    while i < fields.len()
        invariant
            i <= fields.len(),
            s == fields.deep_view(),
            out@ == old(out)@ + positional_fields_text(s, i as int),
        decreases fields.len() - i,
    {
        out.append(fields[i].ty.as_str());
        out.append(", ");
        proof {
            assert(out@ =~= old(out)@ + positional_fields_text(s, i + 1 as int));
        }
        i += 1;
    }
}

/// Render the reduced type's definition and its reduced-capable tag impl.
pub fn expand_unpatched_struct(schema: &RecordSchema) -> (r: String)
    ensures
        r@ == unpatched_struct_text(reduced_model(schema@)),
{
    let reduced = synthesize_reduced(schema);
    let mut r = String::new();
    if reduced.vis.as_str().unicode_len() > 0 {
        r.append(reduced.vis.as_str());
        r.append(" ");
    }
    proof {
        assert(r@ =~= vis_prefix(reduced@.vis));
    }
    r.append("struct ");
    r.append(reduced.ident.as_str());
    r.append(reduced.generics.as_str());
    match reduced.shape {
        Shape::Named => {
            r.append(" { ");
            append_named_fields(&mut r, &reduced.fields);
            r.append("}\n");
        },
        Shape::Positional => {
            r.append("(");
            append_positional_fields(&mut r, &reduced.fields);
            r.append(");\n");
        },
        Shape::Empty => {
            r.append(";\n");
        },
    }
    append_marker_impl(&mut r, &reduced.generics, "Unpatched", &reduced.ident);
    proof {
        assert(r@ =~= unpatched_struct_text(reduced_model(schema@)));
    }
    r
}

fn append_args_tuple(out: &mut String, tys: &Vec<String>)
    ensures
        final(out)@ == old(out)@ + args_tuple_text(tys.deep_view(), tys.deep_view().len() as int),
{
    let ghost s = tys.deep_view();
    let mut i: usize = 0;
    while i < tys.len()
        invariant
            i <= tys.len(),
            s == tys.deep_view(),
            out@ == old(out)@ + args_tuple_text(s, i as int),
        decreases tys.len() - i,
    {
        out.append(tys[i].as_str());
        out.append(", ");
        proof {
            assert(out@ =~= old(out)@ + args_tuple_text(s, i + 1 as int));
        }
        i += 1;
    }
}

/// Render the completion-contract impl: the `Args` tuple, the target type and
/// the merge that rebuilds every field in declaration order.
pub fn expand_patchable_impl(schema: &RecordSchema) -> (r: String)
    ensures
        r@ == patchable_impl_text(schema@),
{
    let ghost s = schema@.fields;
    let (tys, _plan) = synthesize_contract(schema);
    let mut r = String::new();
    r.append("impl");
    r.append(schema.generics.as_str());
    r.append(" ::partial::patch::Patchable for ");
    r.append(schema.ident.as_str());
    r.append("Unpatched");
    r.append(schema.generics.as_str());
    r.append(" { type Args = (");
    append_args_tuple(&mut r, &tys);
    r.append("); type Patched = ");
    r.append(schema.ident.as_str());
    r.append(schema.generics.as_str());
    r.append("; fn patch(&self, ");
    let ghost head = r@;
    match schema.shape {
        Shape::Named => {
            r.append("args: Self::Args) -> Self::Patched { ");
            r.append(schema.ident.as_str());
            r.append(" { ");
            append_named_assigns(&mut r, &schema.fields);
            r.append("} } }\n");
            proof {
                assert(r@ =~= head + ("args: Self::Args) -> Self::Patched { "@ + schema@.ident
                    + " { "@ + named_assigns_text(s, s.len() as int) + "} } }\n"@));
            }
        },
        Shape::Positional => {
            r.append("args: Self::Args) -> Self::Patched { ");
            r.append(schema.ident.as_str());
            r.append("(");
            append_positional_assigns(&mut r, &schema.fields);
            r.append(") } }\n");
            proof {
                assert(r@ =~= head + ("args: Self::Args) -> Self::Patched { "@ + schema@.ident
                    + "("@ + positional_assigns_text(s, s.len() as int) + ") } }\n"@));
            }
        },
        Shape::Empty => {
            r.append("_args: Self::Args) -> Self::Patched { ");
            r.append(schema.ident.as_str());
            r.append(" } }\n");
            proof {
                assert(r@ =~= head + ("_args: Self::Args) -> Self::Patched { "@ + schema@.ident
                    + " } }\n"@));
            }
        },
    }
    proof {
        assert(r@ =~= patchable_impl_text(schema@));
    }
    r
}

fn append_named_assigns(out: &mut String, fields: &Vec<FieldDesc>)
    ensures
        final(out)@ == old(out)@ + named_assigns_text(
            fields.deep_view(),
            fields.deep_view().len() as int,
        ),
{
    let ghost s = fields.deep_view();
    let mut n_def: usize = 0;
    let mut n_imm: usize = 0;
    let mut k: usize = 0;
    while k < fields.len()
        invariant
            k <= fields.len(),
            s == fields.deep_view(),
            out@ == old(out)@ + named_assigns_text(s, k as int),
            n_def == count(flags_of(s).take(k as int), true),
            n_imm == count(flags_of(s).take(k as int), false),
            n_imm + n_def == k,
        decreases fields.len() - k,
    {
        proof {
            lemma_classified_extend(s, k as int);
            lemma_rank_prefix(s, k as int);
            lemma_rank_prefix(s, k + 1 as int);
        }
        let f = &fields[k];
        if f.deferred {
            match &f.ident {
                Some(id) => out.append(id.as_str()),
                None => (),
            }
            out.append(": args.");
            append_decimal(out, n_def);
            out.append(", ");
            n_def = n_def + 1;
        } else {
            match &f.ident {
                Some(id) => out.append(id.as_str()),
                None => (),
            }
            out.append(": self.");
            match &f.ident {
                Some(id) => out.append(id.as_str()),
                None => (),
            }
            out.append(", ");
            n_imm = n_imm + 1;
        }
        proof {
            assert(out@ =~= old(out)@ + named_assigns_text(s, k + 1 as int));
        }
        k += 1;
    }
}

fn append_positional_assigns(out: &mut String, fields: &Vec<FieldDesc>)
    ensures
        final(out)@ == old(out)@ + positional_assigns_text(
            fields.deep_view(),
            fields.deep_view().len() as int,
        ),
{
    let ghost s = fields.deep_view();
    let mut n_def: usize = 0;
    let mut n_imm: usize = 0;
    let mut k: usize = 0;
    while k < fields.len()
        invariant
            k <= fields.len(),
            s == fields.deep_view(),
            out@ == old(out)@ + positional_assigns_text(s, k as int),
            n_def == count(flags_of(s).take(k as int), true),
            n_imm == count(flags_of(s).take(k as int), false),
            n_imm + n_def == k,
        decreases fields.len() - k,
    {
        proof {
            lemma_classified_extend(s, k as int);
            lemma_rank_prefix(s, k as int);
            lemma_rank_prefix(s, k + 1 as int);
        }
        let f = &fields[k];
        if f.deferred {
            out.append("args.");
            append_decimal(out, n_def);
            out.append(", ");
            n_def = n_def + 1;
        } else {
            out.append("self.");
            append_decimal(out, n_imm);
            out.append(", ");
            n_imm = n_imm + 1;
        }
        proof {
            assert(out@ =~= old(out)@ + positional_assigns_text(s, k + 1 as int));
        }
        k += 1;
    }
}

/// Run the whole generation for one definition.
///
/// On a record definition the result is the generated source text: the
/// complete-capable tag impl of the record, the reduced type with its
/// reduced-capable tag impl, and the completion-contract impl.  Any other
/// definition kind is refused with `UnsupportedDefinitionKind` and nothing is
/// generated.
pub fn expand_partial(def: &Definition) -> (r: Result<String, ExpandError>)
    ensures
        (r is Ok) == (def@.data is Record),
        r is Err ==> r->Err_0 == ExpandError::UnsupportedDefinitionKind,
        def@.data matches DefinitionDataModel::Record { shape, fields } ==> r is Ok
            && r->Ok_0@ == expansion_text(
            (RecordModel {
                ident: def@.ident,
                vis: def@.vis,
                generics: def@.generics,
                shape,
                fields: classify_fields(fields),
            }),
        ),
{
    match extract(def) {
        Err(e) => Err(e),
        Ok(schema) => {
            let mut r = expand_patched_impl(&schema);
            let unpatched = expand_unpatched_struct(&schema);
            r.append(unpatched.as_str());
            let patchable = expand_patchable_impl(&schema);
            r.append(patchable.as_str());
            proof {
                assert(r@ =~= expansion_text(schema@));
            }
            Ok(r)
        },
    }
}

} // verus!
