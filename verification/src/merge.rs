//! The transformation synthesizer: derives the completion contract and the
//! merge plan from a schema, and gives both their meaning.
//!
//! The completion contract is the ordered list of deferred field types.  The
//! merge plan assigns every slot of the complete type its source: the Nth
//! immediate field in declaration order comes from the Nth slot of the
//! reduced instance, and the Nth deferred field from the Nth component of the
//! completion data.  The plan is fixed at synthesis time and never depends on
//! the values merged.

use vstd::prelude::*;

use crate::schema::{FieldDesc, FieldDescModel, RecordSchema};

verus! {

/// Where one slot of the complete type takes its value from: a slot of the
/// reduced instance, or a component of the completion data.
#[derive(Clone, Copy, PartialEq, Eq, Structural, Debug)]
pub enum MergeStep {
    FromReduced(usize),
    FromArgs(usize),
}

/// The classification flags of a field list, in declaration order; `true`
/// marks a deferred field.
pub open spec fn flags_of(fs: Seq<FieldDescModel>) -> Seq<bool> {
    fs.map_values(|f: FieldDescModel| f.deferred)
}

/// How many flags equal `want`.
pub open spec fn count(flags: Seq<bool>, want: bool) -> int
    decreases flags.len(),
{
    if flags.len() == 0 {
        0
    } else {
        count(flags.drop_last(), want) + if flags.last() == want {
            1int
        } else {
            0int
        }
    }
}

/// The elements of `s` whose flag equals `want`, in order.
pub open spec fn select<T>(s: Seq<T>, flags: Seq<bool>, want: bool) -> Seq<T>
    decreases s.len(),
{
    if s.len() == 0 {
        Seq::empty()
    } else if flags.last() == want {
        select(s.drop_last(), flags.drop_last(), want).push(s.last())
    } else {
        select(s.drop_last(), flags.drop_last(), want)
    }
}

/// The immediate subsequence of a field list.
pub open spec fn immediate_fields(fs: Seq<FieldDescModel>) -> Seq<FieldDescModel> {
    select(fs, flags_of(fs), false)
}

/// The deferred subsequence of a field list.
pub open spec fn deferred_fields(fs: Seq<FieldDescModel>) -> Seq<FieldDescModel> {
    select(fs, flags_of(fs), true)
}

/// The completion contract: the deferred field types in declaration order.
pub open spec fn arg_types(fs: Seq<FieldDescModel>) -> Seq<Seq<char>> {
    deferred_fields(fs).map_values(|f: FieldDescModel| f.ty)
}

/// The merge plan of a classification: one source per field, in declaration
/// order.
pub open spec fn merge_plan(flags: Seq<bool>) -> Seq<MergeStep>
    decreases flags.len(),
{
    if flags.len() == 0 {
        Seq::empty()
    } else {
        merge_plan(flags.drop_last()).push(
            if flags.last() {
                MergeStep::FromArgs(count(flags.drop_last(), true) as usize)
            } else {
                MergeStep::FromReduced(count(flags.drop_last(), false) as usize)
            },
        )
    }
}

/// The value one step selects.
pub open spec fn step_eval<V>(step: MergeStep, reduced: Seq<V>, args: Seq<V>) -> V {
    match step {
        MergeStep::FromReduced(i) => reduced[i as int],
        MergeStep::FromArgs(j) => args[j as int],
    }
}

/// The complete value a plan rebuilds from a reduced instance and completion
/// data.
pub open spec fn merge_eval<V>(steps: Seq<MergeStep>, reduced: Seq<V>, args: Seq<V>) -> Seq<V>
    decreases steps.len(),
{
    if steps.len() == 0 {
        Seq::empty()
    } else {
        merge_eval(steps.drop_last(), reduced, args).push(
            step_eval(steps.last(), reduced, args),
        )
    }
}

/// Whether a step only reaches into sources of the given lengths.
pub open spec fn step_in_bounds(step: MergeStep, reduced_len: int, args_len: int) -> bool {
    match step {
        MergeStep::FromReduced(i) => i < reduced_len,
        MergeStep::FromArgs(j) => j < args_len,
    }
}

/// How many deferred fields precede field `k`; the deferred field at `k`
/// consumes this component of the completion data.
pub open spec fn deferred_rank(fs: Seq<FieldDescModel>, k: int) -> int {
    count(flags_of(fs).take(k), true)
}

/// How many immediate fields precede field `k`; the immediate field at `k`
/// comes from this slot of the reduced instance.
pub open spec fn immediate_rank(fs: Seq<FieldDescModel>, k: int) -> int {
    count(flags_of(fs).take(k), false)
}

/// Counting within a prefix of the classification is counting within the
/// same prefix of the field list.
pub proof fn lemma_rank_prefix(fs: Seq<FieldDescModel>, k: int)
    requires
        0 <= k <= fs.len(),
    ensures
        count(flags_of(fs.take(k)), true) == deferred_rank(fs, k),
        count(flags_of(fs.take(k)), false) == immediate_rank(fs, k),
{
    assert(flags_of(fs.take(k)) =~= flags_of(fs).take(k));
}

pub proof fn lemma_count_bounds(flags: Seq<bool>, want: bool)
    ensures
        0 <= count(flags, want) <= flags.len(),
    decreases flags.len(),
{
    if flags.len() > 0 {
        lemma_count_bounds(flags.drop_last(), want);
    }
}

/// Every field is immediate or deferred and no field is both, so the two
/// counts partition the field list.
pub proof fn lemma_count_partition(flags: Seq<bool>)
    ensures
        count(flags, true) + count(flags, false) == flags.len(),
    decreases flags.len(),
{
    if flags.len() > 0 {
        lemma_count_partition(flags.drop_last());
    }
}

pub proof fn lemma_select_len<T>(s: Seq<T>, flags: Seq<bool>, want: bool)
    requires
        s.len() == flags.len(),
    ensures
        select(s, flags, want).len() == count(flags, want),
    decreases s.len(),
{
    if s.len() > 0 {
        lemma_select_len(s.drop_last(), flags.drop_last(), want);
    }
}

/// Every element a selection keeps satisfies whatever held of every element
/// of the source.
pub proof fn lemma_select_all<T>(s: Seq<T>, flags: Seq<bool>, want: bool, p: spec_fn(T) -> bool)
    requires
        forall|i: int| 0 <= i < s.len() ==> p(s[i]),
    ensures
        forall|i: int| 0 <= i < select(s, flags, want).len() ==> p(select(s, flags, want)[i]),
    decreases s.len(),
{
    if s.len() > 0 {
        assert(forall|i: int| 0 <= i < s.drop_last().len() ==> p(s.drop_last()[i]));
        lemma_select_all(s.drop_last(), flags.drop_last(), want, p);
        let sub = select(s.drop_last(), flags.drop_last(), want);
        if flags.last() == want {
            assert(p(s.last()));
            assert forall|i: int| 0 <= i < sub.push(s.last()).len() implies p(
                sub.push(s.last())[i],
            ) by {
                if i < sub.len() {
                    assert(sub.push(s.last())[i] == sub[i]);
                } else {
                    assert(sub.push(s.last())[i] == s.last());
                }
            }
        }
    }
}

/// For a field list with `n` fields of which `k` are deferred, the reduced
/// type has exactly `n - k` fields and the completion contract exactly `k`
/// components.
pub proof fn lemma_artifact_counts(fs: Seq<FieldDescModel>)
    ensures
        immediate_fields(fs).len() == fs.len() - count(flags_of(fs), true),
        arg_types(fs).len() == count(flags_of(fs), true),
{
    lemma_select_len(fs, flags_of(fs), false);
    lemma_select_len(fs, flags_of(fs), true);
    lemma_count_partition(flags_of(fs));
}

pub proof fn lemma_plan_len(flags: Seq<bool>)
    ensures
        merge_plan(flags).len() == flags.len(),
    decreases flags.len(),
{
    if flags.len() > 0 {
        lemma_plan_len(flags.drop_last());
    }
}

/// Every step of a plan reaches only into the immediate and deferred
/// subsequences that the same classification induces.
pub proof fn lemma_plan_bounds(flags: Seq<bool>)
    requires
        flags.len() <= usize::MAX,
    ensures
        forall|k: int|
            0 <= k < merge_plan(flags).len() ==> step_in_bounds(
                #[trigger] merge_plan(flags)[k],
                count(flags, false),
                count(flags, true),
            ),
    decreases flags.len(),
{
    if flags.len() > 0 {
        let front = flags.drop_last();
        lemma_plan_bounds(front);
        lemma_plan_len(front);
        lemma_count_bounds(front, true);
        lemma_count_bounds(front, false);
        assert(count(flags, true) >= count(front, true));
        assert(count(flags, false) >= count(front, false));
    }
}

/// Each slot of the rebuilt value is what its step selects.
pub proof fn lemma_eval_elementwise<V>(steps: Seq<MergeStep>, reduced: Seq<V>, args: Seq<V>)
    ensures
        merge_eval(steps, reduced, args).len() == steps.len(),
        forall|k: int|
            0 <= k < steps.len() ==> merge_eval(steps, reduced, args)[k] == step_eval(
                #[trigger] steps[k],
                reduced,
                args,
            ),
    decreases steps.len(),
{
    if steps.len() > 0 {
        lemma_eval_elementwise(steps.drop_last(), reduced, args);
        let sub = merge_eval(steps.drop_last(), reduced, args);
        assert forall|k: int| 0 <= k < steps.len() implies merge_eval(steps, reduced, args)[k]
            == step_eval(#[trigger] steps[k], reduced, args) by {
            if k < steps.len() - 1 {
                assert(steps.drop_last()[k] == steps[k]);
                assert(merge_eval(steps, reduced, args)[k] == sub[k]);
            } else {
                assert(merge_eval(steps, reduced, args)[k] == step_eval(
                    steps.last(),
                    reduced,
                    args,
                ));
            }
        }
    }
}

/// A plan that never reaches past the given sources rebuilds the same value
/// when the sources grow at their ends.
pub proof fn lemma_eval_stable<V>(
    steps: Seq<MergeStep>,
    reduced1: Seq<V>,
    args1: Seq<V>,
    reduced2: Seq<V>,
    args2: Seq<V>,
)
    requires
        forall|k: int|
            0 <= k < steps.len() ==> step_in_bounds(
                #[trigger] steps[k],
                reduced1.len() as int,
                args1.len() as int,
            ),
        reduced1.len() <= reduced2.len(),
        args1.len() <= args2.len(),
        reduced1 =~= reduced2.take(reduced1.len() as int),
        args1 =~= args2.take(args1.len() as int),
    ensures
        merge_eval(steps, reduced1, args1) == merge_eval(steps, reduced2, args2),
{
    lemma_eval_elementwise(steps, reduced1, args1);
    lemma_eval_elementwise(steps, reduced2, args2);
    assert forall|k: int| 0 <= k < steps.len() implies step_eval(
        #[trigger] steps[k],
        reduced1,
        args1,
    ) == step_eval(steps[k], reduced2, args2) by {
        assert(step_in_bounds(steps[k], reduced1.len() as int, args1.len() as int));
        assert(reduced1 == reduced2.take(reduced1.len() as int));
        assert(args1 == args2.take(args1.len() as int));
        match steps[k] {
            MergeStep::FromReduced(i) => {
                assert((i as int) < reduced1.len());
                assert(reduced2.take(reduced1.len() as int)[i as int] == reduced2[i as int]);
                assert(reduced1[i as int] == reduced2[i as int]);
                assert(step_eval(steps[k], reduced1, args1) == reduced1[i as int]);
                assert(step_eval(steps[k], reduced2, args2) == reduced2[i as int]);
            },
            MergeStep::FromArgs(j) => {
                assert((j as int) < args1.len());
                assert(args2.take(args1.len() as int)[j as int] == args2[j as int]);
                assert(args1[j as int] == args2[j as int]);
                assert(step_eval(steps[k], reduced1, args1) == args1[j as int]);
                assert(step_eval(steps[k], reduced2, args2) == args2[j as int]);
            },
        }
    }
    assert forall|k: int| 0 <= k < steps.len() implies merge_eval(steps, reduced1, args1)[k]
        == merge_eval(steps, reduced2, args2)[k] by {
        assert(step_eval(steps[k], reduced1, args1) == step_eval(steps[k], reduced2, args2));
    }
    assert(merge_eval(steps, reduced1, args1) =~= merge_eval(steps, reduced2, args2));
}

/// The step for field `k` names the field's classification and its rank
/// among the fields of the same classification.
pub proof fn lemma_plan_slots(flags: Seq<bool>, k: int)
    requires
        flags.len() <= usize::MAX,
        0 <= k < flags.len(),
    ensures
        merge_plan(flags).len() == flags.len(),
        merge_plan(flags)[k] == if flags[k] {
            MergeStep::FromArgs(count(flags.take(k), true) as usize)
        } else {
            MergeStep::FromReduced(count(flags.take(k), false) as usize)
        },
    decreases flags.len(),
{
    lemma_plan_len(flags);
    let front = flags.drop_last();
    if k == flags.len() - 1 {
        assert(flags.take(k) =~= front);
    } else {
        lemma_plan_slots(front, k);
        assert(front.take(k) =~= flags.take(k));
    }
}

/// Order invariant of the merge: in the rebuilt value, field `k` holds the
/// completion component of its deferred rank when it is deferred, and the
/// reduced slot of its immediate rank when it is immediate.
pub proof fn lemma_merge_places_fields<V>(
    fs: Seq<FieldDescModel>,
    reduced: Seq<V>,
    args: Seq<V>,
    k: int,
)
    requires
        fs.len() <= usize::MAX,
        0 <= k < fs.len(),
    ensures
        merge_eval(merge_plan(flags_of(fs)), reduced, args).len() == fs.len(),
        merge_eval(merge_plan(flags_of(fs)), reduced, args)[k] == if fs[k].deferred {
            args[deferred_rank(fs, k)]
        } else {
            reduced[immediate_rank(fs, k)]
        },
{
    let flags = flags_of(fs);
    lemma_plan_len(flags);
    lemma_plan_slots(flags, k);
    lemma_eval_elementwise(merge_plan(flags), reduced, args);
    lemma_count_bounds(flags.take(k), true);
    lemma_count_bounds(flags.take(k), false);
}

/// Round trip: splitting any complete value into its immediate and deferred
/// projections and rebuilding along the merge plan reproduces the value, for
/// every classification pattern.
pub proof fn lemma_merge_round_trip<V>(fs: Seq<FieldDescModel>, values: Seq<V>)
    requires
        values.len() == fs.len(),
        fs.len() <= usize::MAX,
    ensures
        merge_eval(
            merge_plan(flags_of(fs)),
            select(values, flags_of(fs), false),
            select(values, flags_of(fs), true),
        ) == values,
{
    lemma_round_trip_flags(flags_of(fs), values);
}

proof fn lemma_round_trip_flags<V>(flags: Seq<bool>, values: Seq<V>)
    requires
        values.len() == flags.len(),
        flags.len() <= usize::MAX,
    ensures
        merge_eval(
            merge_plan(flags),
            select(values, flags, false),
            select(values, flags, true),
        ) == values,
    decreases flags.len(),
{
    let red = select(values, flags, false);
    let args = select(values, flags, true);
    if flags.len() == 0 {
        assert(merge_eval(merge_plan(flags), red, args) =~= values);
    } else {
        let front = flags.drop_last();
        let vfront = values.drop_last();
        let rf = select(vfront, front, false);
        let af = select(vfront, front, true);
        lemma_round_trip_flags(front, vfront);
        lemma_plan_bounds(front);
        lemma_plan_len(front);
        lemma_select_len(vfront, front, false);
        lemma_select_len(vfront, front, true);
        lemma_count_bounds(front, true);
        lemma_count_bounds(front, false);
        let plan_front = merge_plan(front);
        let laststep = if flags.last() {
            MergeStep::FromArgs(count(front, true) as usize)
        } else {
            MergeStep::FromReduced(count(front, false) as usize)
        };
        assert(merge_plan(flags) == plan_front.push(laststep));
        assert(plan_front.push(laststep).drop_last() =~= plan_front);
        assert(plan_front.push(laststep).last() == laststep);
        assert(merge_eval(merge_plan(flags), red, args) == merge_eval(plan_front, red, args).push(
            step_eval(laststep, red, args),
        ));
        if flags.last() {
            assert(red == rf);
            assert(args == af.push(values.last()));
            assert(rf =~= red.take(rf.len() as int));
            assert(af =~= args.take(af.len() as int));
            lemma_eval_stable(plan_front, rf, af, red, args);
            assert(step_eval(laststep, red, args) == args[count(front, true)]);
            assert(args[count(front, true)] == values.last());
        } else {
            assert(red == rf.push(values.last()));
            assert(args == af);
            assert(rf =~= red.take(rf.len() as int));
            assert(af =~= args.take(af.len() as int));
            lemma_eval_stable(plan_front, rf, af, red, args);
            assert(step_eval(laststep, red, args) == red[count(front, false)]);
            assert(red[count(front, false)] == values.last());
        }
        assert(merge_eval(merge_plan(flags), red, args) =~= values);
    }
}

/// How one more field extends the classification artifacts: the flag list,
/// the counts, the subsequences, the contract and the plan.
pub proof fn lemma_classified_extend(s: Seq<FieldDescModel>, i: int)
    requires
        0 <= i < s.len(),
    ensures
        flags_of(s.take(i + 1)) == flags_of(s.take(i)).push(s[i].deferred),
        count(flags_of(s.take(i + 1)), true) == count(flags_of(s.take(i)), true) + (
        if s[i].deferred {
            1int
        } else {
            0int
        }),
        count(flags_of(s.take(i + 1)), false) == count(flags_of(s.take(i)), false) + (
        if s[i].deferred {
            0int
        } else {
            1int
        }),
        immediate_fields(s.take(i + 1)) == if s[i].deferred {
            immediate_fields(s.take(i))
        } else {
            immediate_fields(s.take(i)).push(s[i])
        },
        deferred_fields(s.take(i + 1)) == if s[i].deferred {
            deferred_fields(s.take(i)).push(s[i])
        } else {
            deferred_fields(s.take(i))
        },
        arg_types(s.take(i + 1)) == if s[i].deferred {
            arg_types(s.take(i)).push(s[i].ty)
        } else {
            arg_types(s.take(i))
        },
        merge_plan(flags_of(s.take(i + 1))) == merge_plan(flags_of(s.take(i))).push(
            if s[i].deferred {
                MergeStep::FromArgs(count(flags_of(s.take(i)), true) as usize)
            } else {
                MergeStep::FromReduced(count(flags_of(s.take(i)), false) as usize)
            },
        ),
{
    let a = s.take(i);
    let b = s.take(i + 1);
    assert(b.drop_last() =~= a);
    assert(b.last() == s[i]);
    assert(flags_of(b) =~= flags_of(a).push(s[i].deferred));
    assert(flags_of(b).drop_last() =~= flags_of(a));
    assert(select(b, flags_of(b), false) == if s[i].deferred {
        select(a, flags_of(a), false)
    } else {
        select(a, flags_of(a), false).push(s[i])
    });
    assert(select(b, flags_of(b), true) == if s[i].deferred {
        select(a, flags_of(a), true).push(s[i])
    } else {
        select(a, flags_of(a), true)
    });
    if s[i].deferred {
        assert(arg_types(b) =~= arg_types(a).push(s[i].ty));
    } else {
        assert(arg_types(b) =~= arg_types(a));
    }
}

/// Derive the completion contract and the merge plan of a schema.
///
/// The first component lists the deferred field types in declaration order;
/// the second names, for every field in declaration order, the source of its
/// value in the complete type.
pub fn synthesize_contract(schema: &RecordSchema) -> (r: (Vec<String>, Vec<MergeStep>))
    ensures
        r.0.deep_view() == arg_types(schema@.fields),
        r.1@ == merge_plan(flags_of(schema@.fields)),
{
    let ghost s = schema@.fields;
    let mut tys: Vec<String> = Vec::new();
    let mut plan: Vec<MergeStep> = Vec::new();
    let mut n_imm: usize = 0;
    let mut n_def: usize = 0;
    let mut i: usize = 0;
    while i < schema.fields.len()
        invariant
            i <= schema.fields.len(),
            s == schema@.fields,
            tys.deep_view() =~= arg_types(s.take(i as int)),
            plan@ =~= merge_plan(flags_of(s.take(i as int))),
            n_imm == count(flags_of(s.take(i as int)), false),
            n_def == count(flags_of(s.take(i as int)), true),
            n_imm + n_def == i,
        decreases schema.fields.len() - i,
    {
        let ghost prev_tys = tys.deep_view();
        proof {
            lemma_classified_extend(s, i as int);
        }
        let f = &schema.fields[i];
        if f.deferred {
            tys.push(f.ty.clone());
            plan.push(MergeStep::FromArgs(n_def));
            n_def = n_def + 1;
            proof {
                assert(tys.deep_view() =~= prev_tys.push(s[i as int].ty));
            }
        } else {
            plan.push(MergeStep::FromReduced(n_imm));
            n_imm = n_imm + 1;
        }
        i += 1;
    }
    proof {
        assert(s.take(schema.fields.len() as int) =~= s);
    }
    (tys, plan)
}

/// Split a complete value's slots along a classification into the reduced
/// projection and the deferred projection, both in declaration order.
///
/// Running the merge plan of the same classification on the two projections
/// reproduces the complete value; `lemma_merge_round_trip` states this for
/// every classification pattern.
pub fn split_complete<V: Copy>(fields: &Vec<FieldDesc>, values: &Vec<V>) -> (r: (Vec<V>, Vec<V>))
    requires
        values@.len() == fields.deep_view().len(),
    ensures
        r.0@ == select(values@, flags_of(fields.deep_view()), false),
        r.1@ == select(values@, flags_of(fields.deep_view()), true),
{
    let ghost s = fields.deep_view();
    let mut reduced: Vec<V> = Vec::new();
    let mut args: Vec<V> = Vec::new();
    let mut i: usize = 0;
    while i < fields.len()
        invariant
            i <= fields.len(),
            s == fields.deep_view(),
            values@.len() == s.len(),
            reduced@ =~= select(values@.take(i as int), flags_of(s.take(i as int)), false),
            args@ =~= select(values@.take(i as int), flags_of(s.take(i as int)), true),
        decreases fields.len() - i,
    {
        proof {
            lemma_classified_extend(s, i as int);
            assert(values@.take(i + 1 as int).drop_last() =~= values@.take(i as int));
            assert(values@.take(i + 1 as int).last() == values@[i as int]);
            assert(flags_of(s.take(i + 1 as int)).drop_last() =~= flags_of(s.take(i as int)));
        }
        if fields[i].deferred {
            args.push(values[i]);
        } else {
            reduced.push(values[i]);
        }
        i += 1;
    }
    proof {
        assert(s.take(fields.len() as int) =~= s);
        assert(values@.take(fields.len() as int) =~= values@);
    }
    (reduced, args)
}

/// Run a merge plan on value level: rebuild the complete slot sequence from
/// the slots of a reduced instance and the completion data.
pub fn apply_merge<V: Copy>(steps: &Vec<MergeStep>, reduced: &Vec<V>, args: &Vec<V>) -> (r: Vec<
    V,
>)
    requires
        forall|k: int|
            0 <= k < steps@.len() ==> step_in_bounds(
                #[trigger] steps@[k],
                reduced@.len() as int,
                args@.len() as int,
            ),
    ensures
        r@ == merge_eval(steps@, reduced@, args@),
{
    let mut out: Vec<V> = Vec::new();
    let mut k: usize = 0;
    while k < steps.len()
        invariant
            k <= steps.len(),
            forall|m: int|
                0 <= m < steps@.len() ==> step_in_bounds(
                    #[trigger] steps@[m],
                    reduced@.len() as int,
                    args@.len() as int,
                ),
            out@ =~= merge_eval(steps@.take(k as int), reduced@, args@),
        decreases steps.len() - k,
    {
        proof {
            assert(steps@.take(k + 1 as int).drop_last() =~= steps@.take(k as int));
            assert(steps@.take(k + 1 as int).last() == steps@[k as int]);
        }
        match steps[k] {
            MergeStep::FromReduced(i) => {
                out.push(reduced[i]);
            },
            MergeStep::FromArgs(j) => {
                out.push(args[j]);
            },
        }
        k += 1;
    }
    proof {
        assert(steps@.take(steps.len() as int) =~= steps@);
    }
    out
}

} // verus!
