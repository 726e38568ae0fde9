//! The back end of `magic_map!`: from a parsed declaration and the schemas
//! collected so far, decide what the declaration expands to.
//!
//! The expander runs as a fixpoint. Tuple sources need the field lists of
//! their open elements, which only those elements' schemas know; while one is
//! missing, the plan is to re-run through that element's schema (`Chain`).
//! Once every needed schema is there, the plan is either one match arm per
//! source variant (enum destinations) or one entry per destination field
//! (struct destinations).
use vstd::prelude::*;
use crate::seqs::{find_name, has_name, lemma_first_at, lemma_first_none, names_of};
use crate::shape::Shape;
use crate::shape::ShapeV;
use crate::tokens::{SpanV, TokSpan};

verus! {

/// A schema collected for tuple element `idx` (or for the single source,
/// with `idx` 0).
pub struct Collected {
    pub idx: usize,
    pub shape: Shape,
}

/// `field: expr` in the override block.
pub struct Override {
    pub name: String,
    pub expr: TokSpan,
}

/// `SrcVariant => DestVariant` in the override block.
pub struct Rename {
    pub from: String,
    pub to: String,
}

/// One element of a tuple source. An open element is a plain non-generic,
/// non-leaf type path whose fields join the auto-match.
pub struct Element {
    pub span: TokSpan,
    pub open: bool,
}

/// The source type of a declaration.
pub enum SrcKind {
    Single { open: bool },
    Tuple { elems: Vec<Element> },
}

/// `pub fn name:` of the function form.
pub struct FnSig {
    pub vis: TokSpan,
    pub name: String,
}

/// A parsed `__magic_map_expand!` input.
pub struct ExpandInput {
    pub collected: Vec<Collected>,
    pub dest_shape: Shape,
    pub func: Option<FnSig>,
    pub src: TokSpan,
    pub src_kind: SrcKind,
    pub dest: TokSpan,
    pub overrides: Vec<Override>,
    pub lets: Vec<TokSpan>,
    pub renames: Vec<Rename>,
    pub defaults: bool,
    /// The trailer is `..DeclaredDefaults`.
    pub declared: bool,
    /// Declared `infallible`: the expansion converts every field without `?`.
    pub infallible: bool,
}

/// Where a destination field's value comes from.
#[derive(Debug, PartialEq, Eq, Structural, Clone, Copy)]
pub enum FieldPlan {
    /// The override at this position in the override block.
    Override(usize),
    /// `src.field` of the single source.
    Direct,
    /// `src.N.field` of tuple element `N`.
    Element(usize),
    /// Left to the destination's `Default` (the `..Default::default()` trailer).
    Defaulted,
}

/// What a source variant maps to.
#[derive(Debug, PartialEq, Eq, Structural, Clone, Copy)]
pub enum Target {
    /// The destination variant at this position of the destination schema.
    Variant(usize),
    /// `<Dest as Default>::default()`.
    DestDefault,
}

/// The source type's classification as a mathematical value.
pub enum SrcKindV {
    Single(bool),
    Tuple(Seq<(SpanV, bool)>),
}

/// A parsed expander input as a mathematical value.
pub struct ExpandV {
    pub collected: Seq<(usize, ShapeV)>,
    pub dest_shape: ShapeV,
    pub func: Option<(SpanV, Seq<char>)>,
    pub src: SpanV,
    pub src_kind: SrcKindV,
    pub dest: SpanV,
    pub overrides: Seq<(Seq<char>, SpanV)>,
    pub lets: Seq<SpanV>,
    pub renames: Seq<(Seq<char>, Seq<char>)>,
    pub defaults: bool,
    pub declared: bool,
    pub infallible: bool,
}

pub open spec fn src_kind_view(k: SrcKind) -> SrcKindV {
    match k {
        SrcKind::Single { open } => SrcKindV::Single(open),
        SrcKind::Tuple { elems } => SrcKindV::Tuple(elems@.map_values(|e: Element| (e.span@, e.open))),
    }
}

impl View for ExpandInput {
    type V = ExpandV;

    open spec fn view(&self) -> ExpandV {
        ExpandV {
            collected: self.collected@.map_values(|c: Collected| (c.idx, c.shape@)),
            dest_shape: self.dest_shape@,
            func: match self.func {
                Some(f) => Some((f.vis@, f.name@)),
                None => None,
            },
            src: self.src@,
            src_kind: src_kind_view(self.src_kind),
            dest: self.dest@,
            overrides: self.overrides@.map_values(|o: Override| (o.name@, o.expr@)),
            lets: self.lets@.map_values(|l: TokSpan| l@),
            renames: self.renames@.map_values(|r: Rename| (r.from@, r.to@)),
            defaults: self.defaults,
            declared: self.declared,
            infallible: self.infallible,
        }
    }
}

/// An expansion plan.
#[derive(Debug)]
pub enum Plan {
    /// Re-run through the schema of tuple element `idx` (`0` for a single source).
    Chain(usize),
    /// One target per source variant, in source declaration order.
    Arms(Vec<Target>),
    /// One entry per destination field, in destination declaration order.
    Fields(Vec<FieldPlan>),
}

/// The plan as a mathematical value.
pub enum PlanV {
    Chain(usize),
    Arms(Seq<Target>),
    Fields(Seq<FieldPlan>),
}

impl View for Plan {
    type V = PlanV;

    open spec fn view(&self) -> PlanV {
        match self {
            Plan::Chain(i) => PlanV::Chain(*i),
            Plan::Arms(a) => PlanV::Arms(a@),
            Plan::Fields(f) => PlanV::Fields(f@),
        }
    }
}

/// Why a declaration does not expand. Positions refer to the input; `L` is
/// the list type of a variant that names several positions (`Vec<usize>` for
/// the error `expand` returns, `Seq<usize>` in the specification).
#[derive(Debug, PartialEq, Eq, Clone)]
pub enum ExpandFault<L> {
    /// A defaults trailer or enum destination over a source that is not a plain schema-carrying path.
    NeedsPlainSource,
    /// An enum destination with a tuple source.
    EnumFromTuple,
    /// A field override in an enum mapping.
    EnumFieldOverride,
    /// A `let` binding in an enum mapping.
    EnumLet,
    /// An enum mapping without the source's schema.
    EnumNeedsSchema,
    /// An enum destination whose source schema is a struct.
    EnumNeedsEnumSource,
    /// The rename at this position names no source variant.
    UnknownSourceVariant(usize),
    /// The rename at this position names no destination variant.
    UnknownDestVariant(usize),
    /// The source variant at this position has no destination.
    UnmatchedVariant(usize),
    /// A variant rename in a struct mapping.
    RenameOnStruct,
    /// An `infallible` struct mapping with the defaults trailer, whose field
    /// tiers can fail.
    InfallibleDefaults,
    /// The override at this position names no destination field.
    UnknownField(usize),
    /// The destination field at this position is in no open tuple element.
    FieldNotInTuple(usize),
    /// The destination field at this position is in several open tuple
    /// elements: these, in order.
    AmbiguousField(usize, L),
    /// Under `..DeclaredDefaults`: every destination field, by position, in
    /// order, that is neither overridden nor provided and declares no default
    /// of its own.
    UndeclaredDefaults(L),
}

/// The error `expand` returns.
pub type ExpandError = ExpandFault<Vec<usize>>;

/// An expansion error as a mathematical value.
pub type ExpandErrorV = ExpandFault<Seq<usize>>;

pub open spec fn error_view(e: ExpandError) -> ExpandErrorV {
    match e {
        ExpandFault::NeedsPlainSource => ExpandFault::NeedsPlainSource,
        ExpandFault::EnumFromTuple => ExpandFault::EnumFromTuple,
        ExpandFault::EnumFieldOverride => ExpandFault::EnumFieldOverride,
        ExpandFault::EnumLet => ExpandFault::EnumLet,
        ExpandFault::EnumNeedsSchema => ExpandFault::EnumNeedsSchema,
        ExpandFault::EnumNeedsEnumSource => ExpandFault::EnumNeedsEnumSource,
        ExpandFault::UnknownSourceVariant(k) => ExpandFault::UnknownSourceVariant(k),
        ExpandFault::UnknownDestVariant(k) => ExpandFault::UnknownDestVariant(k),
        ExpandFault::UnmatchedVariant(j) => ExpandFault::UnmatchedVariant(j),
        ExpandFault::RenameOnStruct => ExpandFault::RenameOnStruct,
        ExpandFault::InfallibleDefaults => ExpandFault::InfallibleDefaults,
        ExpandFault::UnknownField(k) => ExpandFault::UnknownField(k),
        ExpandFault::FieldNotInTuple(j) => ExpandFault::FieldNotInTuple(j),
        ExpandFault::AmbiguousField(j, es) => ExpandFault::AmbiguousField(j, es@),
        ExpandFault::UndeclaredDefaults(v) => ExpandFault::UndeclaredDefaults(v@),
    }
}

pub open spec fn result_view(r: Result<Plan, ExpandError>) -> Result<PlanV, ExpandErrorV> {
    match r {
        Ok(p) => Ok(p@),
        Err(e) => Err(error_view(e)),
    }
}

// ── the specification ────────────────────────────────────────────────────────

pub open spec fn dest_names(inp: &ExpandInput) -> Seq<Seq<char>> {
    inp.dest_shape.name_seq()
}

pub open spec fn override_names(inp: &ExpandInput) -> Seq<Seq<char>> {
    inp.overrides@.map_values(|o: Override| o.name@)
}

pub open spec fn rename_froms(inp: &ExpandInput) -> Seq<Seq<char>> {
    inp.renames@.map_values(|r: Rename| r.from@)
}

pub open spec fn rename_tos(inp: &ExpandInput) -> Seq<Seq<char>> {
    inp.renames@.map_values(|r: Rename| r.to@)
}

pub open spec fn collected_idxs(inp: &ExpandInput) -> Seq<usize> {
    inp.collected@.map_values(|c: Collected| c.idx)
}

pub open spec fn is_tuple(inp: &ExpandInput) -> bool {
    inp.src_kind is Tuple
}

/// Every destination field of a struct destination has an override.
pub open spec fn all_overridden(inp: &ExpandInput) -> bool {
    &&& !inp.dest_shape.is_enum
    &&& forall|i: int| 0 <= i < dest_names(inp).len() ==> override_names(inp).contains(#[trigger] dest_names(inp)[i])
}

/// Per tuple element: open, and its schema not collected yet.
pub open spec fn pending(inp: &ExpandInput) -> Seq<bool> {
    match inp.src_kind {
        SrcKind::Tuple { elems } => Seq::new(
            elems@.len(),
            |i: int| elems@[i].open && !collected_idxs(inp).contains(i as usize),
        ),
        SrcKind::Single { .. } => Seq::empty(),
    }
}

/// The chaining step, when one is due.
pub open spec fn chain_step(inp: &ExpandInput) -> Option<Result<PlanV, ExpandErrorV>> {
    if all_overridden(inp) {
        None
    } else {
        match inp.src_kind {
            SrcKind::Tuple { .. } => match pending(inp).index_of_first(true) {
                Some(i) => Some(Ok(PlanV::Chain(i as usize))),
                None => None,
            },
            SrcKind::Single { open } => if (inp.defaults || inp.dest_shape.is_enum)
                && inp.collected@.len() == 0 {
                Some(if open { Ok(PlanV::Chain(0)) } else { Err(ExpandFault::NeedsPlainSource) })
            } else {
                None
            },
        }
    }
}

/// The name the zero variant of a proto3 enum carries.
pub open spec fn unspecified() -> Seq<char> {
    seq!['U', 'n', 's', 'p', 'e', 'c', 'i', 'f', 'i', 'e', 'd']
}

/// Where source variant `v` goes: an explicit rename first, then the
/// same-named destination variant, then `Unspecified` to the destination's
/// default.
pub open spec fn variant_target(inp: &ExpandInput, v: Seq<char>) -> Option<Target> {
    match rename_froms(inp).index_of_first(v) {
        Some(k) => match dest_names(inp).index_of_first(rename_tos(inp)[k]) {
            Some(d) => Some(Target::Variant(d as usize)),
            None => None,
        },
        None => match dest_names(inp).index_of_first(v) {
            Some(d) => Some(Target::Variant(d as usize)),
            None => if v == unspecified() {
                Some(Target::DestDefault)
            } else {
                None
            },
        },
    }
}

pub open spec fn src_variants(inp: &ExpandInput) -> Seq<Seq<char>> {
    inp.collected@[0].shape.name_seq()
}

/// Per rename: its source variant is not in the source schema.
pub open spec fn bad_froms(inp: &ExpandInput) -> Seq<bool> {
    rename_froms(inp).map_values(|f: Seq<char>| !src_variants(inp).contains(f))
}

/// Per rename: its destination variant is not in the destination schema.
pub open spec fn bad_tos(inp: &ExpandInput) -> Seq<bool> {
    rename_tos(inp).map_values(|t: Seq<char>| !dest_names(inp).contains(t))
}

/// Per source variant: where it goes.
pub open spec fn targets(inp: &ExpandInput) -> Seq<Option<Target>> {
    src_variants(inp).map_values(|v: Seq<char>| variant_target(inp, v))
}

/// Per source variant: it goes nowhere.
pub open spec fn unmatched(inp: &ExpandInput) -> Seq<bool> {
    targets(inp).map_values(|t: Option<Target>| t is None)
}

pub open spec fn enum_expansion(inp: &ExpandInput) -> Result<PlanV, ExpandErrorV> {
    if is_tuple(inp) {
        Err(ExpandFault::EnumFromTuple)
    } else if inp.overrides@.len() > 0 {
        Err(ExpandFault::EnumFieldOverride)
    } else if inp.lets@.len() > 0 {
        Err(ExpandFault::EnumLet)
    } else if inp.collected@.len() == 0 {
        Err(ExpandFault::EnumNeedsSchema)
    } else if !inp.collected@[0].shape.is_enum {
        Err(ExpandFault::EnumNeedsEnumSource)
    } else {
        match bad_froms(inp).index_of_first(true) {
            Some(k) => Err(ExpandFault::UnknownSourceVariant(k as usize)),
            None => match bad_tos(inp).index_of_first(true) {
                Some(k) => Err(ExpandFault::UnknownDestVariant(k as usize)),
                None => match unmatched(inp).index_of_first(true) {
                    Some(j) => Err(ExpandFault::UnmatchedVariant(j as usize)),
                    None => Ok(PlanV::Arms(targets(inp).map_values(|t: Option<Target>| t.unwrap()))),
                },
            },
        }
    }
}

/// A collected struct schema that lists field `f`.
pub open spec fn provides(c: Collected, f: Seq<char>) -> bool {
    !c.shape.is_enum && c.shape.name_seq().contains(f)
}

/// The element positions, in collection order, of the first `n` collected
/// schemas that provide `f`.
pub open spec fn hits_upto(cs: Seq<Collected>, f: Seq<char>, n: int) -> Seq<usize>
    decreases n,
{
    if n <= 0 {
        Seq::empty()
    } else if provides(cs[n - 1], f) {
        hits_upto(cs, f, n - 1).push(cs[n - 1].idx)
    } else {
        hits_upto(cs, f, n - 1)
    }
}

pub open spec fn hits(inp: &ExpandInput, f: Seq<char>) -> Seq<usize> {
    hits_upto(inp.collected@, f, inp.collected@.len() as int)
}

/// Why a field could not be planned.
pub enum FieldMiss {
    NotInTuple,
    Ambiguous,
    Undeclared,
}

/// A field nobody provides: left to the destination's `Default`, unless the
/// trailer only lets fields that declare their own default be left out.
pub open spec fn defaulted(inp: &ExpandInput, f: Seq<char>) -> Result<FieldPlan, FieldMiss> {
    if inp.declared && !inp.dest_shape.declared_seq().contains(f) {
        Err(FieldMiss::Undeclared)
    } else {
        Ok(FieldPlan::Defaulted)
    }
}

pub open spec fn field_plan(inp: &ExpandInput, f: Seq<char>) -> Result<FieldPlan, FieldMiss> {
    match override_names(inp).index_of_first(f) {
        Some(k) => Ok(FieldPlan::Override(k as usize)),
        None => if is_tuple(inp) {
            let h = hits(inp, f);
            if h.len() == 1 {
                Ok(FieldPlan::Element(h[0]))
            } else if h.len() == 0 {
                if inp.defaults {
                    defaulted(inp, f)
                } else {
                    Err(FieldMiss::NotInTuple)
                }
            } else {
                Err(FieldMiss::Ambiguous)
            }
        } else if inp.defaults && hits(inp, f).len() == 0 {
            defaulted(inp, f)
        } else {
            Ok(FieldPlan::Direct)
        },
    }
}

/// Per override: it names no destination field.
pub open spec fn bad_overrides(inp: &ExpandInput) -> Seq<bool> {
    override_names(inp).map_values(|o: Seq<char>| !dest_names(inp).contains(o))
}

/// Per destination field: where it comes from.
pub open spec fn field_plans(inp: &ExpandInput) -> Seq<Result<FieldPlan, FieldMiss>> {
    dest_names(inp).map_values(|f: Seq<char>| field_plan(inp, f))
}

/// Per destination field: it could not be planned.
pub open spec fn failed_fields(inp: &ExpandInput) -> Seq<bool> {
    field_plans(inp).map_values(|p: Result<FieldPlan, FieldMiss>| p is Err)
}

/// The positions, in order, among the first `n` field plans, of the fields
/// left to a default they do not declare.
pub open spec fn undeclared_upto(plans: Seq<Result<FieldPlan, FieldMiss>>, n: int) -> Seq<usize>
    decreases n,
{
    if n <= 0 {
        Seq::empty()
    } else if plans[n - 1] == Err::<FieldPlan, FieldMiss>(FieldMiss::Undeclared) {
        undeclared_upto(plans, n - 1).push((n - 1) as usize)
    } else {
        undeclared_upto(plans, n - 1)
    }
}

/// Every destination field, by position, left to a default it does not
/// declare.
pub open spec fn undeclared(inp: &ExpandInput) -> Seq<usize> {
    let plans = field_plans(inp);
    undeclared_upto(plans, plans.len() as int)
}

pub open spec fn struct_expansion(inp: &ExpandInput) -> Result<PlanV, ExpandErrorV> {
    if inp.renames@.len() > 0 {
        Err(ExpandFault::RenameOnStruct)
    } else if inp.infallible && inp.defaults {
        Err(ExpandFault::InfallibleDefaults)
    } else {
        match bad_overrides(inp).index_of_first(true) {
            Some(k) => Err(ExpandFault::UnknownField(k as usize)),
            None => {
                let plans = field_plans(inp);
                match failed_fields(inp).index_of_first(true) {
                    Some(j) => Err(
                        match plans[j] {
                            Err(FieldMiss::Ambiguous) => ExpandFault::AmbiguousField(j as usize, hits(inp, dest_names(inp)[j])),
                            Err(FieldMiss::Undeclared) => ExpandFault::UndeclaredDefaults(undeclared(inp)),
                            _ => ExpandFault::FieldNotInTuple(j as usize),
                        },
                    ),
                    None => Ok(PlanV::Fields(plans.map_values(|p: Result<FieldPlan, FieldMiss>| p->Ok_0))),
                }
            },
        }
    }
}

/// What a declaration expands to.
pub open spec fn expansion(inp: &ExpandInput) -> Result<PlanV, ExpandErrorV> {
    match chain_step(inp) {
        Some(r) => r,
        None => if inp.dest_shape.is_enum {
            enum_expansion(inp)
        } else {
            struct_expansion(inp)
        },
    }
}


// ── the implementation ───────────────────────────────────────────────────────

/// Position of the first override for field `f`.
fn find_override(inp: &ExpandInput, f: &String) -> (r: Option<usize>)
    ensures
        match r {
            Some(k) => override_names(inp).index_of_first(f@) == Some(k as int),
            None => override_names(inp).index_of_first(f@) == None::<int>,
        },
{
    let ghost ns = override_names(inp);
    let mut i: usize = 0;
    while i < inp.overrides.len()
        invariant
            i <= inp.overrides.len(),
            ns == override_names(inp),
            forall|j: int| 0 <= j < i ==> ns[j] != f@,
        decreases inp.overrides.len() - i,
    {
        if inp.overrides[i].name == *f {
            proof {
                lemma_first_at(ns, f@, i as int);
            }
            return Some(i);
        }
        i += 1;
    }
    proof {
        lemma_first_none(ns, f@);
    }
    None
}

#[verifier::loop_isolation(false)]
fn check_all_overridden(inp: &ExpandInput) -> (b: bool)
    ensures
        b == all_overridden(inp),
{
    if inp.dest_shape.is_enum {
        return false;
    }
    let mut i: usize = 0;
    while i < inp.dest_shape.names.len()
        invariant
            i <= inp.dest_shape.names.len(),
            !inp.dest_shape.is_enum,
            forall|j: int| 0 <= j < i ==> override_names(inp).contains(#[trigger] dest_names(inp)[j]),
        decreases inp.dest_shape.names.len() - i,
    {
        let k = find_override(inp, &inp.dest_shape.names[i]);
        proof {
            override_names(inp).index_of_first_ensures(dest_names(inp)[i as int]);
        }
        if k.is_none() {
            return false;
        }
        i += 1;
    }
    true
}

/// Whether a schema for element `idx` has been collected.
fn is_collected(inp: &ExpandInput, idx: usize) -> (b: bool)
    ensures
        b == collected_idxs(inp).contains(idx),
{
    let ghost cs = collected_idxs(inp);
    let mut i: usize = 0;
    while i < inp.collected.len()
        invariant
            i <= inp.collected.len(),
            cs == collected_idxs(inp),
            forall|j: int| 0 <= j < i ==> cs[j] != idx,
        decreases inp.collected.len() - i,
    {
        if inp.collected[i].idx == idx {
            assert(cs[i as int] == idx);
            return true;
        }
        i += 1;
    }
    false
}

/// The chaining step, when one is due.
#[verifier::loop_isolation(false)]
fn chain(inp: &ExpandInput) -> (r: Option<Result<Plan, ExpandError>>)
    ensures
        match r {
            Some(x) => chain_step(inp) == Some(result_view(x)),
            None => chain_step(inp) is None,
        },
{
    if check_all_overridden(inp) {
        return None;
    }
    match &inp.src_kind {
        SrcKind::Tuple { elems } => {
            let ghost pend = pending(inp);
            let mut i: usize = 0;
            while i < elems.len()
                invariant
                    i <= elems.len(),
                    inp.src_kind == (SrcKind::Tuple { elems: *elems }),
                    pend == pending(inp),
                    pend.len() == elems@.len(),
                    forall|j: int| 0 <= j < i ==> pend[j] != true,
                decreases elems.len() - i,
            {
                if elems[i].open && !is_collected(inp, i) {
                    proof {
                        lemma_first_at(pend, true, i as int);
                    }
                    return Some(Ok(Plan::Chain(i)));
                }
                i += 1;
            }
            proof {
                lemma_first_none(pend, true);
            }
            None
        },
        SrcKind::Single { open } => {
            if (inp.defaults || inp.dest_shape.is_enum) && inp.collected.len() == 0 {
                if *open {
                    Some(Ok(Plan::Chain(0)))
                } else {
                    Some(Err(ExpandError::NeedsPlainSource))
                }
            } else {
                None
            }
        },
    }
}

/// Where source variant `v` goes.
#[verifier::loop_isolation(false)]
fn target_of(inp: &ExpandInput, v: &String) -> (r: Option<Target>)
    ensures
        r == variant_target(inp, v@),
{
    let ghost froms = rename_froms(inp);
    let mut k: usize = 0;
    while k < inp.renames.len()
        invariant
            k <= inp.renames.len(),
            froms == rename_froms(inp),
            forall|j: int| 0 <= j < k ==> froms[j] != v@,
        decreases inp.renames.len() - k,
    {
        if inp.renames[k].from == *v {
            proof {
                lemma_first_at(froms, v@, k as int);
            }
            return match find_name(&inp.dest_shape.names, &inp.renames[k].to) {
                Some(d) => Some(Target::Variant(d)),
                None => None,
            };
        }
        k += 1;
    }
    proof {
        lemma_first_none(froms, v@);
    }
    match find_name(&inp.dest_shape.names, v) {
        Some(d) => Some(Target::Variant(d)),
        None => {
            let u = String::from_str("Unspecified");
            proof {
                reveal_strlit("Unspecified");
                assert("Unspecified"@ =~= unspecified());
            }
            if *v == u {
                Some(Target::DestDefault)
            } else {
                None
            }
        },
    }
}

#[verifier::loop_isolation(false)]
fn expand_enum(inp: &ExpandInput) -> (r: Result<Plan, ExpandError>)
    requires
        inp.dest_shape.is_enum,
    ensures
        result_view(r) == enum_expansion(inp),
{
    if let SrcKind::Tuple { .. } = &inp.src_kind {
        return Err(ExpandError::EnumFromTuple);
    }
    if inp.overrides.len() > 0 {
        return Err(ExpandError::EnumFieldOverride);
    }
    if inp.lets.len() > 0 {
        return Err(ExpandError::EnumLet);
    }
    if inp.collected.len() == 0 {
        return Err(ExpandError::EnumNeedsSchema);
    }
    let src = &inp.collected[0].shape;
    if !src.is_enum {
        return Err(ExpandError::EnumNeedsEnumSource);
    }
    let ghost srcs = src_variants(inp);
    // Renames must name a source variant…
    let ghost bad_from = bad_froms(inp);
    let mut k: usize = 0;
    while k < inp.renames.len()
        invariant
            k <= inp.renames.len(),
            srcs == src.name_seq(),
            bad_from == bad_froms(inp),
            forall|j: int| 0 <= j < k ==> bad_from[j] != true,
        decreases inp.renames.len() - k,
    {
        if !has_name(&src.names, &inp.renames[k].from) {
            proof {
                lemma_first_at(bad_from, true, k as int);
            }
            return Err(ExpandError::UnknownSourceVariant(k));
        }
        k += 1;
    }
    proof {
        lemma_first_none(bad_from, true);
    }
    // …and a destination variant.
    let ghost bad_to = bad_tos(inp);
    let mut k: usize = 0;
    while k < inp.renames.len()
        invariant
            k <= inp.renames.len(),
            bad_to == bad_tos(inp),
            forall|j: int| 0 <= j < k ==> bad_to[j] != true,
        decreases inp.renames.len() - k,
    {
        if !has_name(&inp.dest_shape.names, &inp.renames[k].to) {
            proof {
                lemma_first_at(bad_to, true, k as int);
            }
            return Err(ExpandError::UnknownDestVariant(k));
        }
        k += 1;
    }
    proof {
        lemma_first_none(bad_to, true);
    }
    // One arm per source variant.
    let ghost tgts = targets(inp);
    let ghost missing = unmatched(inp);
    let mut arms: Vec<Target> = Vec::new();
    let mut j: usize = 0;
    while j < src.names.len()
        invariant
            j <= src.names.len(),
            srcs == src.name_seq(),
            tgts == targets(inp),
            missing == unmatched(inp),
            arms@.len() == j,
            forall|i: int| 0 <= i < j ==> missing[i] != true,
            forall|i: int| 0 <= i < j ==> Some(#[trigger] arms@[i]) == tgts[i],
        decreases src.names.len() - j,
    {
        match target_of(inp, &src.names[j]) {
            Some(t) => {
                arms.push(t);
            },
            None => {
                proof {
                    lemma_first_at(missing, true, j as int);
                }
                return Err(ExpandError::UnmatchedVariant(j));
            },
        }
        j += 1;
    }
    proof {
        lemma_first_none(missing, true);
        assert(arms@ =~= tgts.map_values(|t: Option<Target>| t.unwrap()));
    }
    Ok(Plan::Arms(arms))
}

/// Positions of the collected struct schemas that list `f`.
fn hits_of(inp: &ExpandInput, f: &String) -> (r: Vec<usize>)
    ensures
        r@ == hits(inp, f@),
{
    let mut r: Vec<usize> = Vec::new();
    let mut i: usize = 0;
    while i < inp.collected.len()
        invariant
            i <= inp.collected.len(),
            r@ == hits_upto(inp.collected@, f@, i as int),
        decreases inp.collected.len() - i,
    {
        let c = &inp.collected[i];
        if !c.shape.is_enum && has_name(&c.shape.names, f) {
            r.push(c.idx);
        }
        i += 1;
    }
    r
}

fn plan_defaulted(inp: &ExpandInput, f: &String) -> (r: Result<FieldPlan, FieldMiss>)
    ensures
        r == defaulted(inp, f@),
{
    if inp.declared && !has_name(&inp.dest_shape.declared, f) {
        Err(FieldMiss::Undeclared)
    } else {
        Ok(FieldPlan::Defaulted)
    }
}

#[verifier::loop_isolation(false)]
fn plan_field(inp: &ExpandInput, f: &String) -> (r: Result<FieldPlan, FieldMiss>)
    ensures
        r == field_plan(inp, f@),
{
    if let Some(k) = find_override(inp, f) {
        return Ok(FieldPlan::Override(k));
    }
    let h = hits_of(inp, f);
    if let SrcKind::Tuple { .. } = &inp.src_kind {
        if h.len() == 1 {
            Ok(FieldPlan::Element(h[0]))
        } else if h.len() == 0 {
            if inp.defaults {
                plan_defaulted(inp, f)
            } else {
                Err(FieldMiss::NotInTuple)
            }
        } else {
            Err(FieldMiss::Ambiguous)
        }
    } else if inp.defaults && h.len() == 0 {
        plan_defaulted(inp, f)
    } else {
        Ok(FieldPlan::Direct)
    }
}

/// Every destination field, by position, left to a default it does not
/// declare.
fn undeclared_fields(inp: &ExpandInput) -> (r: Vec<usize>)
    ensures
        r@ == undeclared(inp),
{
    let ghost plans = field_plans(inp);
    let mut r: Vec<usize> = Vec::new();
    let mut j: usize = 0;
    while j < inp.dest_shape.names.len()
        invariant
            j <= inp.dest_shape.names.len(),
            plans == field_plans(inp),
            plans.len() == inp.dest_shape.names@.len(),
            r@ == undeclared_upto(plans, j as int),
        decreases inp.dest_shape.names.len() - j,
    {
        let p = plan_field(inp, &inp.dest_shape.names[j]);
        proof {
            assert(p == plans[j as int]);
        }
        if let Err(FieldMiss::Undeclared) = p {
            r.push(j);
        }
        j += 1;
    }
    r
}

#[verifier::loop_isolation(false)]
fn expand_struct(inp: &ExpandInput) -> (r: Result<Plan, ExpandError>)
    ensures
        result_view(r) == struct_expansion(inp),
{
    if inp.renames.len() > 0 {
        return Err(ExpandError::RenameOnStruct);
    }
    if inp.infallible && inp.defaults {
        return Err(ExpandError::InfallibleDefaults);
    }
    // An override naming no destination field would vanish silently.
    let ghost bad = bad_overrides(inp);
    let mut k: usize = 0;
    while k < inp.overrides.len()
        invariant
            k <= inp.overrides.len(),
            bad == bad_overrides(inp),
            forall|j: int| 0 <= j < k ==> bad[j] != true,
        decreases inp.overrides.len() - k,
    {
        if !has_name(&inp.dest_shape.names, &inp.overrides[k].name) {
            proof {
                lemma_first_at(bad, true, k as int);
            }
            return Err(ExpandError::UnknownField(k));
        }
        k += 1;
    }
    proof {
        lemma_first_none(bad, true);
    }
    let ghost plans = field_plans(inp);
    let ghost failed = failed_fields(inp);
    let mut out: Vec<FieldPlan> = Vec::new();
    let mut j: usize = 0;
    while j < inp.dest_shape.names.len()
        invariant
            j <= inp.dest_shape.names.len(),
            plans == field_plans(inp),
            failed == failed_fields(inp),
            out@.len() == j,
            forall|i: int| 0 <= i < j ==> failed[i] != true,
            forall|i: int| 0 <= i < j ==> Ok::<FieldPlan, FieldMiss>(#[trigger] out@[i]) == plans[i],
        decreases inp.dest_shape.names.len() - j,
    {
        match plan_field(inp, &inp.dest_shape.names[j]) {
            Ok(p) => {
                out.push(p);
            },
            Err(m) => {
                proof {
                    lemma_first_at(failed, true, j as int);
                }
                return Err(
                    match m {
                        FieldMiss::Ambiguous => ExpandError::AmbiguousField(j, hits_of(inp, &inp.dest_shape.names[j])),
                        FieldMiss::NotInTuple => ExpandError::FieldNotInTuple(j),
                        FieldMiss::Undeclared => ExpandError::UndeclaredDefaults(undeclared_fields(inp)),
                    },
                );
            },
        }
        j += 1;
    }
    proof {
        lemma_first_none(failed, true);
        assert(out@ =~= plans.map_values(|p: Result<FieldPlan, FieldMiss>| p->Ok_0));
    }
    Ok(Plan::Fields(out))
}

/// Plans the expansion of a declaration.
pub fn expand(inp: &ExpandInput) -> (r: Result<Plan, ExpandError>)
    ensures
        result_view(r) == expansion(inp),
{
    if let Some(step) = chain(inp) {
        return step;
    }
    if inp.dest_shape.is_enum {
        expand_enum(inp)
    } else {
        expand_struct(inp)
    }
}

} // verus!
