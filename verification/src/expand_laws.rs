//! What holds of every expansion plan, across passes and declarations.
use vstd::prelude::*;
use crate::expand::{
    chain_step, collected_idxs, dest_names, expansion, field_plan, field_plans, hits,
    override_names, pending, src_variants, targets, unmatched, variant_target, Collected,
    ExpandInput, FieldPlan, PlanV, SrcKind, Target, bad_froms, bad_tos, undeclared, undeclared_upto,
    ExpandErrorV, ExpandFault, FieldMiss,
};

use crate::input::{expand_input, is_plain_path, lemma_src_group, runs_from};
use crate::tokens::{group_body, ident_text, SpanV, Tok};
use crate::expand::SrcKindV;

verus! {

/// How many entries of `s` are `true`.
pub open spec fn count_true(s: Seq<bool>) -> nat
    decreases s.len(),
{
    if s.len() == 0 {
        0
    } else {
        count_true(s.drop_last()) + if s.last() { 1nat } else { 0nat }
    }
}

proof fn lemma_count_mono(a: Seq<bool>, b: Seq<bool>)
    requires
        a.len() == b.len(),
        forall|j: int| 0 <= j < a.len() && #[trigger] a[j] ==> b[j],
    ensures
        count_true(a) <= count_true(b),
    decreases a.len(),
{
    if a.len() > 0 {
        lemma_count_mono(a.drop_last(), b.drop_last());
    }
}

proof fn lemma_count_strict(a: Seq<bool>, b: Seq<bool>, i: int)
    requires
        a.len() == b.len(),
        forall|j: int| 0 <= j < a.len() && #[trigger] a[j] ==> b[j],
        0 <= i < a.len(),
        b[i],
        !a[i],
    ensures
        count_true(a) < count_true(b),
    decreases a.len(),
{
    if i == a.len() - 1 {
        lemma_count_mono(a.drop_last(), b.drop_last());
    } else {
        lemma_count_strict(a.drop_last(), b.drop_last(), i);
    }
}

/// Which part of the planner a plan comes from.
proof fn lemma_plan_origin(inp: &ExpandInput)
    ensures
        expansion(inp) matches Ok(PlanV::Chain(_)) ==> chain_step(inp) == Some(expansion(inp)),
        expansion(inp) matches Ok(PlanV::Arms(_)) ==> chain_step(inp) is None && inp.dest_shape.is_enum
            && expansion(inp) == crate::expand::enum_expansion(inp),
        expansion(inp) matches Ok(PlanV::Fields(_)) ==> chain_step(inp) is None && !inp.dest_shape.is_enum
            && expansion(inp) == crate::expand::struct_expansion(inp),
{
    if chain_step(inp) is None {
        if inp.dest_shape.is_enum {
            assert(!(crate::expand::enum_expansion(inp) matches Ok(PlanV::Chain(_))));
            assert(!(crate::expand::enum_expansion(inp) matches Ok(PlanV::Fields(_))));
        } else {
            assert(!(crate::expand::struct_expansion(inp) matches Ok(PlanV::Chain(_))));
            assert(!(crate::expand::struct_expansion(inp) matches Ok(PlanV::Arms(_))));
        }
    } else {
        let r = chain_step(inp).unwrap();
        assert(!(r matches Ok(PlanV::Arms(_))));
        assert(!(r matches Ok(PlanV::Fields(_))));
    }
}

/// Schemas still to fetch before a declaration can be planned: the open
/// tuple elements not collected yet, or, for a single source, its one
/// schema while none is collected.
pub open spec fn outstanding(inp: &ExpandInput) -> nat {
    match inp.src_kind {
        SrcKind::Tuple { .. } => count_true(pending(inp)),
        SrcKind::Single { .. } => if inp.collected@.len() == 0 { 1 } else { 0 },
    }
}

/// The expander's fixpoint terminates: a pass that asks to be re-run
/// through element `i`'s schema has schemas outstanding, and the next pass,
/// which carries that schema, has strictly fewer.
pub proof fn law_chain_makes_progress(inp: &ExpandInput, next: &ExpandInput, i: usize, c: Collected)
    requires
        expansion(inp) == Ok::<PlanV, ExpandErrorV>(PlanV::Chain(i)),
        c.idx == i,
        next.collected@ == inp.collected@.push(c),
        next.src_kind == inp.src_kind,
    ensures
        outstanding(inp) > 0,
        outstanding(next) < outstanding(inp),
{
    lemma_plan_origin(inp);
    assert(chain_step(inp) is Some);
    match inp.src_kind {
        SrcKind::Tuple { elems } => {
            let p = pending(inp);
            let q = pending(next);
            p.index_of_first_ensures(true);
            let k = p.index_of_first(true).unwrap();
            assert(k as usize == i);
            assert(p[k]);
            assert(collected_idxs(next) =~= collected_idxs(inp).push(i));
            assert forall|j: int| 0 <= j < q.len() && #[trigger] q[j] implies p[j] by {
                if collected_idxs(inp).contains(j as usize) {
                    let k = choose|k: int| 0 <= k < collected_idxs(inp).len() && collected_idxs(inp)[k] == j as usize;
                    assert(collected_idxs(next)[k] == j as usize);
                }
            }
            assert(collected_idxs(next)[collected_idxs(inp).len() as int] == i);
            assert(!q[k]);
            lemma_count_strict(q, p, k);
        },
        SrcKind::Single { .. } => {},
    }
}

proof fn lemma_field_plan_sound(inp: &ExpandInput, f: Seq<char>)
    ensures
        match field_plan(inp, f) {
            Ok(FieldPlan::Override(k)) => k < override_names(inp).len() && override_names(inp)[k as int] == f,
            Ok(FieldPlan::Direct) => inp.src_kind is Single && !override_names(inp).contains(f),
            Ok(FieldPlan::Element(e)) => inp.src_kind is Tuple && hits(inp, f) == seq![e]
                && !override_names(inp).contains(f),
            Ok(FieldPlan::Defaulted) => inp.defaults && hits(inp, f).len() == 0
                && !override_names(inp).contains(f)
                && (inp.declared ==> inp.dest_shape.declared_seq().contains(f)),
            Err(_) => true,
        },
{
    assert(inp.overrides.len() == override_names(inp).len());
    override_names(inp).index_of_first_ensures(f);
    if hits(inp, f).len() == 1 {
        assert(hits(inp, f) =~= seq![hits(inp, f)[0]]);
    }
}

/// Every entry of a struct plan says where its field comes from: an
/// override written for that very field, the same-named field of a single
/// source, the one open tuple element that has it, or the destination's
/// `Default` when the trailer allows and no schema has it (under
/// `..DeclaredDefaults`, only a field that declares its own default). Every
/// override names a destination field.
pub proof fn law_fields_sound(inp: &ExpandInput, fs: Seq<FieldPlan>)
    requires
        expansion(inp) == Ok::<PlanV, ExpandErrorV>(PlanV::Fields(fs)),
    ensures
        fs.len() == dest_names(inp).len(),
        forall|k: int| 0 <= k < override_names(inp).len() ==> dest_names(inp).contains(#[trigger] override_names(inp)[k]),
        forall|j: int| 0 <= j < fs.len() ==> match #[trigger] fs[j] {
            FieldPlan::Override(k) => k < override_names(inp).len() && override_names(inp)[k as int] == dest_names(inp)[j],
            FieldPlan::Direct => inp.src_kind is Single && !override_names(inp).contains(dest_names(inp)[j]),
            FieldPlan::Element(e) => inp.src_kind is Tuple && hits(inp, dest_names(inp)[j]) == seq![e]
                && !override_names(inp).contains(dest_names(inp)[j]),
            FieldPlan::Defaulted => inp.defaults && hits(inp, dest_names(inp)[j]).len() == 0
                && !override_names(inp).contains(dest_names(inp)[j])
                && (inp.declared ==> inp.dest_shape.declared_seq().contains(dest_names(inp)[j])),
        },
{
    lemma_plan_origin(inp);
    crate::expand::bad_overrides(inp).index_of_first_ensures(true);
    crate::expand::failed_fields(inp).index_of_first_ensures(true);
    assert forall|k: int| 0 <= k < override_names(inp).len() implies dest_names(inp).contains(#[trigger] override_names(inp)[k]) by {
        assert(crate::expand::bad_overrides(inp)[k] != true);
    }
    assert forall|j: int| 0 <= j < fs.len() implies match #[trigger] fs[j] {
        FieldPlan::Override(k) => k < override_names(inp).len() && override_names(inp)[k as int] == dest_names(inp)[j],
        FieldPlan::Direct => inp.src_kind is Single && !override_names(inp).contains(dest_names(inp)[j]),
        FieldPlan::Element(e) => inp.src_kind is Tuple && hits(inp, dest_names(inp)[j]) == seq![e]
            && !override_names(inp).contains(dest_names(inp)[j]),
        FieldPlan::Defaulted => inp.defaults && hits(inp, dest_names(inp)[j]).len() == 0
            && !override_names(inp).contains(dest_names(inp)[j])
            && (inp.declared ==> inp.dest_shape.declared_seq().contains(dest_names(inp)[j])),
    } by {
        let f = dest_names(inp)[j];
        assert(crate::expand::failed_fields(inp)[j] != true);
        assert(field_plans(inp)[j] == field_plan(inp, f));
        assert(fs[j] == field_plans(inp)[j]->Ok_0);
        lemma_field_plan_sound(inp, f);
    }
}

/// Every arm of an enum plan maps a source variant to a destination variant
/// that an explicit rename names, to the same-named destination variant, or,
/// for a source `Unspecified` with no same-named destination, to the
/// destination's default. No other destination variant is ever produced.
pub proof fn law_arms_sound(inp: &ExpandInput, arms: Seq<Target>)
    requires
        expansion(inp) == Ok::<PlanV, ExpandErrorV>(PlanV::Arms(arms)),
    ensures
        arms.len() == src_variants(inp).len(),
        forall|j: int| 0 <= j < arms.len() ==> match #[trigger] arms[j] {
            Target::Variant(d) => d < dest_names(inp).len() && (
                (exists|k: int| 0 <= k < inp.renames@.len()
                    && inp.renames@[k].from@ == src_variants(inp)[j]
                    && inp.renames@[k].to@ == dest_names(inp)[d as int])
                || dest_names(inp)[d as int] == src_variants(inp)[j]),
            Target::DestDefault => src_variants(inp)[j] == crate::expand::unspecified()
                && !dest_names(inp).contains(src_variants(inp)[j]),
        },
{
    lemma_plan_origin(inp);
    unmatched(inp).index_of_first_ensures(true);
    assert forall|j: int| 0 <= j < arms.len() implies match #[trigger] arms[j] {
        Target::Variant(d) => d < dest_names(inp).len() && (
            (exists|k: int| 0 <= k < inp.renames@.len()
                && inp.renames@[k].from@ == src_variants(inp)[j]
                && inp.renames@[k].to@ == dest_names(inp)[d as int])
            || dest_names(inp)[d as int] == src_variants(inp)[j]),
        Target::DestDefault => src_variants(inp)[j] == crate::expand::unspecified()
            && !dest_names(inp).contains(src_variants(inp)[j]),
    } by {
        let v = src_variants(inp)[j];
        assert(inp.dest_shape.names.len() == dest_names(inp).len());
        assert(inp.renames.len() == inp.renames@.len());
        assert(unmatched(inp)[j] != true);
        assert(arms[j] == targets(inp)[j].unwrap());
        let froms = crate::expand::rename_froms(inp);
        froms.index_of_first_ensures(v);
        dest_names(inp).index_of_first_ensures(v);
        match froms.index_of_first(v) {
            Some(k) => {
                let to = crate::expand::rename_tos(inp)[k];
                dest_names(inp).index_of_first_ensures(to);
                assert(inp.renames@[k].from@ == v);
            },
            None => {},
        }
    }
}

/// A struct declaration that overrides every destination field needs no
/// schema at all: it is never re-run through one, and its plan is the same
/// whatever schemas were collected. Schema-less types can therefore ride
/// along in a tuple source as long as the overrides consume them.
pub proof fn law_all_overridden_needs_no_schema(a: &ExpandInput, b: &ExpandInput)
    requires
        crate::expand::all_overridden(a),
        b.dest_shape == a.dest_shape,
        b.src_kind == a.src_kind,
        b.overrides == a.overrides,
        b.renames == a.renames,
        b.defaults == a.defaults,
        b.infallible == a.infallible,
    ensures
        !(expansion(a) matches Ok(PlanV::Chain(_))),
        expansion(a) == expansion(b),
{
    assert(crate::expand::all_overridden(b));
    assert forall|j: int| 0 <= j < dest_names(a).len() implies field_plan(a, #[trigger] dest_names(a)[j]) == field_plan(b, dest_names(a)[j]) by {
        let f = dest_names(a)[j];
        override_names(a).index_of_first_ensures(f);
    }
    assert(field_plans(a) =~= field_plans(b));
    assert(crate::expand::bad_overrides(a) =~= crate::expand::bad_overrides(b));
    assert(crate::expand::failed_fields(a) =~= crate::expand::failed_fields(b));
    let failed = crate::expand::failed_fields(a);
    assert forall|j: int| 0 <= j < failed.len() implies failed[j] != true by {
        override_names(a).index_of_first_ensures(dest_names(a)[j]);
    }
    failed.index_of_first_ensures(true);
}

/// Two unit enums with the same variants map onto each other variant by
/// variant, and the mapping declared in the opposite direction undoes it:
/// source variant `j` goes to destination variant `d`, and `d` comes back
/// to `j`.
pub proof fn law_enum_round_trip(there: &ExpandInput, back: &ExpandInput)
    requires
        there.dest_shape.is_enum,
        back.dest_shape.is_enum,
        there.src_kind is Single,
        back.src_kind is Single,
        there.collected@.len() > 0,
        back.collected@.len() > 0,
        there.collected@[0].shape.is_enum,
        back.collected@[0].shape.is_enum,
        there.overrides@.len() == 0,
        back.overrides@.len() == 0,
        there.lets@.len() == 0,
        back.lets@.len() == 0,
        there.renames@.len() == 0,
        back.renames@.len() == 0,
        src_variants(there) == dest_names(back),
        dest_names(there) == src_variants(back),
        src_variants(there).no_duplicates(),
        dest_names(there).no_duplicates(),
        forall|j: int| 0 <= j < src_variants(there).len() ==> dest_names(there).contains(#[trigger] src_variants(there)[j]),
        forall|j: int| 0 <= j < dest_names(there).len() ==> src_variants(there).contains(#[trigger] dest_names(there)[j]),
    ensures
        expansion(there) matches Ok(PlanV::Arms(a1)) && expansion(back) matches Ok(PlanV::Arms(a2))
            && a1.len() == src_variants(there).len() && a2.len() == dest_names(there).len()
            && forall|j: int| 0 <= j < a1.len() ==> (#[trigger] a1[j] matches Target::Variant(d)
                && d < a2.len() && a2[d as int] == Target::Variant(j as usize)),
{
    let srcs = src_variants(there);
    let dsts = dest_names(there);
    lemma_plan_origin(there);
    lemma_plan_origin(back);
    assert(there.dest_shape.names.len() == dsts.len());
    assert(back.dest_shape.names.len() == srcs.len());
    bad_froms(there).index_of_first_ensures(true);
    bad_tos(there).index_of_first_ensures(true);
    bad_froms(back).index_of_first_ensures(true);
    bad_tos(back).index_of_first_ensures(true);
    crate::expand::rename_froms(there).index_of_first_ensures(srcs[0]);
    assert forall|j: int| 0 <= j < srcs.len() implies #[trigger] targets(there)[j] == Some(Target::Variant(dsts.index_of_first(srcs[j]).unwrap() as usize)) by {
        crate::expand::rename_froms(there).index_of_first_ensures(srcs[j]);
        dsts.index_of_first_ensures(srcs[j]);
    }
    assert forall|d: int| 0 <= d < dsts.len() implies #[trigger] targets(back)[d] == Some(Target::Variant(srcs.index_of_first(dsts[d]).unwrap() as usize)) by {
        crate::expand::rename_froms(back).index_of_first_ensures(dsts[d]);
        srcs.index_of_first_ensures(dsts[d]);
    }
    assert forall|j: int| 0 <= j < srcs.len() implies #[trigger] unmatched(there)[j] == false by {
        assert(targets(there)[j] is Some);
    }
    assert forall|d: int| 0 <= d < dsts.len() implies #[trigger] unmatched(back)[d] == false by {
        assert(targets(back)[d] is Some);
    }
    unmatched(there).index_of_first_ensures(true);
    unmatched(back).index_of_first_ensures(true);
    assert forall|j: int| 0 <= j < srcs.len() implies {
        let d = dsts.index_of_first(#[trigger] srcs[j]).unwrap();
        0 <= d < dsts.len() && srcs.index_of_first(dsts[d]) == Some(j)
    } by {
        dsts.index_of_first_ensures(srcs[j]);
        let d = dsts.index_of_first(srcs[j]).unwrap();
        srcs.index_of_first_ensures(dsts[d]);
        let k = srcs.index_of_first(dsts[d]).unwrap();
        assert(srcs[k] == srcs[j]);
    }
}

proof fn lemma_undeclared_upto(plans: Seq<Result<FieldPlan, FieldMiss>>, n: int)
    requires
        0 <= n <= plans.len(),
        plans.len() <= usize::MAX,
    ensures
        forall|i: int, k: int| 0 <= i < k < undeclared_upto(plans, n).len()
            ==> #[trigger] undeclared_upto(plans, n)[i] < #[trigger] undeclared_upto(plans, n)[k],
        forall|i: int| 0 <= i < undeclared_upto(plans, n).len()
            ==> #[trigger] undeclared_upto(plans, n)[i] < n,
        forall|j: int| 0 <= j < n ==> (undeclared_upto(plans, n).contains(j as usize)
            <==> #[trigger] plans[j] == Err::<FieldPlan, FieldMiss>(FieldMiss::Undeclared)),
    decreases n,
{
    if n > 0 {
        lemma_undeclared_upto(plans, n - 1);
        let prev = undeclared_upto(plans, n - 1);
        let cur = undeclared_upto(plans, n);
        let last = (n - 1) as usize;
        assert(last == n - 1);
        if plans[n - 1] == Err::<FieldPlan, FieldMiss>(FieldMiss::Undeclared) {
            assert(cur == prev.push(last));
        } else {
            assert(cur == prev);
        }
        assert forall|j: int| 0 <= j < n implies (cur.contains(j as usize)
            <==> #[trigger] plans[j] == Err::<FieldPlan, FieldMiss>(FieldMiss::Undeclared)) by {
            let u = j as usize;
            assert(u == j);
            if j < n - 1 {
                if cur.contains(u) {
                    let k = choose|k: int| 0 <= k < cur.len() && cur[k] == u;
                    if k < prev.len() {
                        assert(prev[k] == u);
                    }
                }
                if prev.contains(u) {
                    let k = choose|k: int| 0 <= k < prev.len() && prev[k] == u;
                    assert(cur[k] == u);
                }
            } else {
                if cur.contains(u) && plans[j] != Err::<FieldPlan, FieldMiss>(FieldMiss::Undeclared) {
                    let k = choose|k: int| 0 <= k < cur.len() && cur[k] == u;
                    assert(prev[k] < n - 1);
                }
                if plans[j] == Err::<FieldPlan, FieldMiss>(FieldMiss::Undeclared) {
                    assert(cur[prev.len() as int] == u);
                }
            }
        }
    }
}

/// Under `..DeclaredDefaults`, a rejected struct declaration names every
/// destination field that nobody provides and that declares no default of
/// its own, in field order, and no other field; at least one is named.
pub proof fn law_undeclared_defaults_all_named(inp: &ExpandInput, named: Seq<usize>)
    requires
        expansion(inp) == Err::<PlanV, ExpandErrorV>(ExpandFault::UndeclaredDefaults(named)),
    ensures
        named.len() > 0,
        forall|i: int, k: int| 0 <= i < k < named.len() ==> #[trigger] named[i] < #[trigger] named[k],
        forall|j: int| 0 <= j < dest_names(inp).len() ==> (named.contains(j as usize) <==> {
            let f = #[trigger] dest_names(inp)[j];
            &&& inp.declared
            &&& inp.defaults
            &&& !inp.dest_shape.declared_seq().contains(f)
            &&& !override_names(inp).contains(f)
            &&& hits(inp, f).len() == 0
        }),
        forall|i: int| 0 <= i < named.len() ==> #[trigger] named[i] < dest_names(inp).len(),
{
    let plans = field_plans(inp);
    assert(plans.len() == inp.dest_shape.names.len());
    assert(chain_step(inp) is None);
    assert(!inp.dest_shape.is_enum);
    crate::expand::failed_fields(inp).index_of_first_ensures(true);
    let j0 = crate::expand::failed_fields(inp).index_of_first(true).unwrap();
    assert(named == undeclared(inp));
    lemma_undeclared_upto(plans, plans.len() as int);
    assert(plans[j0] == Err::<FieldPlan, FieldMiss>(FieldMiss::Undeclared));
    assert(named.contains(j0 as usize));
    assert forall|j: int| 0 <= j < dest_names(inp).len() implies (named.contains(j as usize) <==> {
        let f = #[trigger] dest_names(inp)[j];
        &&& inp.declared
        &&& inp.defaults
        &&& !inp.dest_shape.declared_seq().contains(f)
        &&& !override_names(inp).contains(f)
        &&& hits(inp, f).len() == 0
    }) by {
        let f = dest_names(inp)[j];
        assert(plans[j] == field_plan(inp, f));
        override_names(inp).index_of_first_ensures(f);
    }
}

/// An explicit rename wins: a source variant that a rename names as its
/// source goes to the destination variant that the first such rename names,
/// whatever the same-named or default variant would be.
pub proof fn law_renames_win(inp: &ExpandInput, arms: Seq<Target>, j: int, k: int)
    requires
        expansion(inp) == Ok::<PlanV, ExpandErrorV>(PlanV::Arms(arms)),
        0 <= j < arms.len(),
        0 <= k < inp.renames@.len(),
        inp.renames@[k].from@ == src_variants(inp)[j],
        forall|k2: int| 0 <= k2 < k ==> (#[trigger] inp.renames@[k2]).from@ != src_variants(inp)[j],
    ensures
        arms[j] matches Target::Variant(d) && d < dest_names(inp).len() && dest_names(inp)[d as int]
            == inp.renames@[k].to@,
{
    lemma_plan_origin(inp);
    assert(crate::expand::enum_expansion(inp) == Ok::<PlanV, ExpandErrorV>(PlanV::Arms(arms)));
    assert(arms =~= targets(inp).map_values(|t: Option<Target>| t.unwrap()));
    assert(dest_names(inp).len() == inp.dest_shape.names@.len());
    let v = src_variants(inp)[j];
    let froms = crate::expand::rename_froms(inp);
    let tos = crate::expand::rename_tos(inp);
    assert(froms[k] == v);
    froms.index_of_first_ensures(v);
    match froms.index_of_first(v) {
        Some(i) => {
            if i < k {
                assert(inp.renames@[i].from@ != v);
            }
            assert(i == k);
        },
        None => {
            assert(froms.contains(v));
        },
    }
    bad_tos(inp).index_of_first_ensures(true);
    assert(bad_tos(inp)[k] != true);
    assert(froms.index_of_first(v) == Some(k));
    assert(tos[k] == inp.renames@[k].to@);
    assert(dest_names(inp).contains(tos[k]));
    dest_names(inp).index_of_first_ensures(tos[k]);
    let d = dest_names(inp).index_of_first(tos[k]).unwrap();
    assert(0 <= d < dest_names(inp).len());
    assert(inp.dest_shape.names.len() <= usize::MAX);
    assert((d as usize) as int == d);
    assert(crate::expand::variant_target(inp, v) == Some(Target::Variant(d as usize)));
    assert(targets(inp)[j] == crate::expand::variant_target(inp, v));
    assert(arms[j] == targets(inp)[j].unwrap());
}

/// Without a rename, a source variant goes to the destination variant of
/// the same name, when there is one.
pub proof fn law_same_name_otherwise(inp: &ExpandInput, arms: Seq<Target>, j: int)
    requires
        expansion(inp) == Ok::<PlanV, ExpandErrorV>(PlanV::Arms(arms)),
        0 <= j < arms.len(),
        forall|k: int| 0 <= k < inp.renames@.len() ==> (#[trigger] inp.renames@[k]).from@ != src_variants(inp)[j],
        dest_names(inp).contains(src_variants(inp)[j]),
    ensures
        arms[j] matches Target::Variant(d) && d < dest_names(inp).len() && dest_names(inp)[d as int]
            == src_variants(inp)[j],
{
    lemma_plan_origin(inp);
    assert(crate::expand::enum_expansion(inp) == Ok::<PlanV, ExpandErrorV>(PlanV::Arms(arms)));
    assert(arms =~= targets(inp).map_values(|t: Option<Target>| t.unwrap()));
    assert(dest_names(inp).len() == inp.dest_shape.names@.len());
    let v = src_variants(inp)[j];
    let froms = crate::expand::rename_froms(inp);
    froms.index_of_first_ensures(v);
    if froms.index_of_first(v) is Some {
        let i = froms.index_of_first(v).unwrap();
        assert(inp.renames@[i as int].from@ == v);
    }
    dest_names(inp).index_of_first_ensures(v);
    assert(froms.index_of_first(v) is None);
    let d = dest_names(inp).index_of_first(v).unwrap();
    assert(0 <= d < dest_names(inp).len());
    assert(dest_names(inp)[d] == v);
    assert(inp.dest_shape.names.len() <= usize::MAX);
    assert((d as usize) as int == d);
    assert(crate::expand::variant_target(inp, v) == Some(Target::Variant(d as usize)));
    assert(targets(inp)[j] == crate::expand::variant_target(inp, v));
    assert(arms[j] == targets(inp)[j].unwrap());
}

/// The built-in leaf types: the primitives, `String`, and the third-party
/// values the leaves cover.
pub open spec fn builtin_leaf(w: Seq<char>) -> bool {
    ||| w == "bool"@ ||| w == "char"@
    ||| w == "i8"@ ||| w == "i16"@ ||| w == "i32"@ ||| w == "i64"@ ||| w == "i128"@ ||| w == "isize"@
    ||| w == "u8"@ ||| w == "u16"@ ||| w == "u32"@ ||| w == "u64"@ ||| w == "u128"@ ||| w == "usize"@
    ||| w == "f32"@ ||| w == "f64"@
    ||| w == "String"@
    ||| w == "Uuid"@ ||| w == "Decimal"@ ||| w == "NaiveDate"@ ||| w == "NaiveDateTime"@ ||| w == "NaiveTime"@
    ||| w == "Value"@
}

/// A source type, or a tuple element of one, is open (its fields join the
/// auto-match, so its schema is needed) exactly when it is a plain path
/// whose last segment is not a built-in leaf: leaves are opaque, reachable
/// only as `src.N`.
pub proof fn law_leaves_are_opaque(t: Seq<Tok>)
    requires
        expand_input(t) is Ok,
        t.len() <= usize::MAX,
    ensures
        ({
            let x = expand_input(t)->Ok_0;
            let sb = group_body(t[x.src.group[0] as int]);
            &&& x.src.group.len() == 1
            &&& match x.src_kind {
                SrcKindV::Single(open) => open == (is_plain_path(sb) && !builtin_leaf(ident_text(sb.last()))),
                SrcKindV::Tuple(el) => forall|i: int|
                    0 <= i < el.len() ==> {
                        let e = (#[trigger] el[i]).0;
                        let toks = group_body(sb[0]).subrange(e.start, e.end);
                        &&& e.group == seq![x.src.group[0], 0usize]
                        &&& el[i].1 == (is_plain_path(toks) && !builtin_leaf(ident_text(toks.last())))
                    },
            }
        }),
{
    let x = expand_input(t)->Ok_0;
    let g = lemma_src_group(t);
    assert(x.src.group[0] == g);
    let sb = group_body(t[g as int]);
    match x.src_kind {
        SrcKindV::Single(open) => {},
        SrcKindV::Tuple(el) => {
            let body = group_body(sb[0]);
            assert forall|i: int| 0 <= i < el.len() implies {
                let e = (#[trigger] el[i]).0;
                let toks = body.subrange(e.start, e.end);
                &&& e.group == seq![g, 0usize]
                &&& el[i].1 == (is_plain_path(toks) && !builtin_leaf(ident_text(toks.last())))
            } by {
                let r = runs_from(body, 0, 0)[i];
                assert(el[i].0 == SpanV { group: seq![g, 0usize], start: r.0, end: r.1 });
            }
        },
    }
}

} // verus!
