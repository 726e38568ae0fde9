//! The Rust that a plan is written out as, as a flat run of emitted tokens.
//!
//! Groups are flattened into an opening and a closing mark, and runs of the
//! declaration's own tokens are spliced in by span, so that the tokens the
//! user wrote keep their spans. Every other token is fresh; a renderer gives
//! all of them one span.
use vstd::prelude::*;
use crate::tokens::{Delim, SpanV, TokSpan};
use crate::expand::{
    chain_step, enum_expansion, error_view, expand, expansion, pending, ExpandError, src_variants, struct_expansion, ExpandErrorV, ExpandInput,
    ExpandV, FieldPlan, Plan, PlanV, SrcKind, SrcKindV, Target,
};
use crate::expand_laws::{law_arms_sound, law_fields_sound};
use crate::expand::override_names;
use crate::front::{front, last_segment, schema_name, MagicMapInput, MagicMapV};
use crate::schema::SchemaDecl;
use crate::seqs::has_name;
use crate::shape::{Shape, ShapeV};
use crate::tokens::{group_body, ident_text, Tok};

verus! {

/// One emitted token.
pub enum Emit {
    /// An identifier or keyword.
    Word(String),
    /// A punctuation character; `true` when it joins the next one (`::`, `->`).
    Punct(char, bool),
    /// An unsuffixed integer literal used as a tuple index.
    Index(usize),
    /// Opens a group.
    Open(Delim),
    /// Closes the innermost open group.
    Close,
    /// The declaration's own tokens in this run, as written.
    Splice(TokSpan),
}

/// An emitted token as a mathematical value.
pub enum EmitV {
    Word(Seq<char>),
    Punct(char, bool),
    Index(usize),
    Open(Delim),
    Close,
    Splice(SpanV),
}

impl View for Emit {
    type V = EmitV;

    open spec fn view(&self) -> EmitV {
        match self {
            Emit::Word(w) => EmitV::Word(w@),
            Emit::Punct(c, j) => EmitV::Punct(*c, *j),
            Emit::Index(n) => EmitV::Index(*n),
            Emit::Open(d) => EmitV::Open(*d),
            Emit::Close => EmitV::Close,
            Emit::Splice(s) => EmitV::Splice(s@),
        }
    }
}

/// What a run of emitted tokens reads as.
pub open spec fn emitted(s: Seq<Emit>) -> Seq<EmitV> {
    s.map_values(|e: Emit| e@)
}

// ── pieces ───────────────────────────────────────────────────────────────────

pub open spec fn word(w: Seq<char>) -> Seq<EmitV> {
    seq![EmitV::Word(w)]
}

pub open spec fn punct(c: char) -> Seq<EmitV> {
    seq![EmitV::Punct(c, false)]
}

/// `c` joined to the punctuation after it.
pub open spec fn joint(c: char) -> Seq<EmitV> {
    seq![EmitV::Punct(c, true)]
}

pub open spec fn splice(s: SpanV) -> Seq<EmitV> {
    seq![EmitV::Splice(s)]
}

/// `::w`
pub open spec fn seg(w: Seq<char>) -> Seq<EmitV> {
    joint(':') + punct(':') + word(w)
}

pub open spec fn grouped(d: Delim, inner: Seq<EmitV>) -> Seq<EmitV> {
    seq![EmitV::Open(d)] + inner + seq![EmitV::Close]
}

/// `->`
pub open spec fn arrow() -> Seq<EmitV> {
    joint('-') + punct('>')
}

/// `=>`
pub open spec fn fat_arrow() -> Seq<EmitV> {
    joint('=') + punct('>')
}

// ── writing pieces ───────────────────────────────────────────────────────────

fn put(out: &mut Vec<Emit>, e: Emit)
    ensures
        emitted(final(out)@) == emitted(old(out)@).push(e@),
{
    out.push(e);
    assert(emitted(out@) =~= emitted(old(out)@).push(e@));
}

fn put_word(out: &mut Vec<Emit>, w: &str)
    ensures
        emitted(final(out)@) == emitted(old(out)@) + word(w@),
{
    put(out, Emit::Word(String::from_str(w)));
    assert(emitted(out@) =~= emitted(old(out)@) + word(w@));
}

fn put_name(out: &mut Vec<Emit>, w: &String)
    ensures
        emitted(final(out)@) == emitted(old(out)@) + word(w@),
{
    put(out, Emit::Word(w.clone()));
    assert(emitted(out@) =~= emitted(old(out)@) + word(w@));
}

fn put_punct(out: &mut Vec<Emit>, c: char)
    ensures
        emitted(final(out)@) == emitted(old(out)@) + punct(c),
{
    put(out, Emit::Punct(c, false));
    assert(emitted(out@) =~= emitted(old(out)@) + punct(c));
}

fn put_joint(out: &mut Vec<Emit>, c: char)
    ensures
        emitted(final(out)@) == emitted(old(out)@) + joint(c),
{
    put(out, Emit::Punct(c, true));
    assert(emitted(out@) =~= emitted(old(out)@) + joint(c));
}

fn put_splice(out: &mut Vec<Emit>, s: &TokSpan)
    ensures
        emitted(final(out)@) == emitted(old(out)@) + splice(s@),
{
    let copy = TokSpan { group: s.group.clone(), start: s.start, end: s.end };
    assert(copy@ == s@);
    put(out, Emit::Splice(copy));
    assert(emitted(out@) =~= emitted(old(out)@) + splice(s@));
}

fn put_seg(out: &mut Vec<Emit>, w: &str)
    ensures
        emitted(final(out)@) == emitted(old(out)@) + seg(w@),
{
    let ghost s0 = emitted(out@);
    put_joint(out, ':');
    put_punct(out, ':');
    put_word(out, w);
    assert(emitted(out@) =~= s0 + seg(w@));
}

fn put_open(out: &mut Vec<Emit>, d: Delim)
    ensures
        emitted(final(out)@) == emitted(old(out)@) + seq![EmitV::Open(d)],
{
    put(out, Emit::Open(d));
}

fn put_close(out: &mut Vec<Emit>)
    ensures
        emitted(final(out)@) == emitted(old(out)@) + seq![EmitV::Close],
{
    put(out, Emit::Close);
}

fn put_arrow(out: &mut Vec<Emit>)
    ensures
        emitted(final(out)@) == emitted(old(out)@) + arrow(),
{
    let ghost s0 = emitted(out@);
    put_joint(out, '-');
    put_punct(out, '>');
    assert(emitted(out@) =~= s0 + arrow());
}

// ── the value of a struct destination ────────────────────────────────────────

/// `::core::a::b::c`
pub open spec fn core_path(a: Seq<char>, b: Seq<char>, c: Seq<char>) -> Seq<EmitV> {
    seg("core"@) + seg(a) + seg(b) + seg(c)
}

/// `::magic_map::a::b`
pub open spec fn funnel_path(a: Seq<char>, b: Seq<char>) -> Seq<EmitV> {
    seg("magic_map"@) + seg(a) + seg(b)
}

/// `::core::result::Result::Ok(e)`
pub open spec fn ok_of(e: Seq<EmitV>) -> Seq<EmitV> {
    core_path("result"@, "Result"@, "Ok"@) + grouped(Delim::Paren, e)
}

/// `::core::option::Option::Some(e)`
pub open spec fn some_of(e: Seq<EmitV>) -> Seq<EmitV> {
    core_path("option"@, "Option"@, "Some"@) + grouped(Delim::Paren, e)
}

/// `<Dest as ::core::default::Default>::default()`
pub open spec fn dest_default(x: ExpandV) -> Seq<EmitV> {
    punct('<') + splice(x.dest) + word("as"@) + seg("core"@) + seg("default"@) + seg("Default"@) + punct('>')
        + seg("default"@) + grouped(Delim::Paren, Seq::empty())
}

/// Where a field is read from the source: `src.f`, or `src.N.f` for tuple
/// element `N`.
pub open spec fn src_access(f: Seq<char>, fp: FieldPlan) -> Seq<EmitV> {
    match fp {
        FieldPlan::Element(i) => word("src"@) + punct('.') + seq![EmitV::Index(i)] + punct('.') + word(f),
        _ => word("src"@) + punct('.') + word(f),
    }
}

/// `use ::magic_map::{MapFieldOpt as _, MapFieldVal as _, MapFieldWrap as _};`
pub open spec fn tiers_use() -> Seq<EmitV> {
    word("use"@) + seg("magic_map"@) + joint(':') + punct(':') + grouped(
        Delim::Brace,
        word("MapFieldOpt"@) + word("as"@) + word("_"@) + punct(',') + word("MapFieldVal"@) + word("as"@)
            + word("_"@) + punct(',') + word("MapFieldWrap"@) + word("as"@) + word("_"@),
    ) + punct(';')
}

/// `Some(acc), Some(__magic_fb.f)`
pub open spec fn pair_args(f: Seq<char>, acc: Seq<EmitV>) -> Seq<EmitV> {
    some_of(acc) + punct(',') + some_of(word("__magic_fb"@) + punct('.') + word(f))
}

/// `&mut &mut &mut ::magic_map::MapPair(..)`
pub open spec fn pair_ref(f: Seq<char>, acc: Seq<EmitV>) -> Seq<EmitV> {
    punct('&') + word("mut"@) + punct('&') + word("mut"@) + punct('&') + word("mut"@) + seg("magic_map"@)
        + seg("MapPair"@) + grouped(Delim::Paren, pair_args(f, acc))
}

/// The fallback pair of a field under a defaults trailer, resolved through
/// the tiers: `(&mut &mut &mut ::magic_map::MapPair(Some(acc),
/// Some(__magic_fb.f))).map_field_or()?`
pub open spec fn pair_value(f: Seq<char>, acc: Seq<EmitV>) -> Seq<EmitV> {
    grouped(Delim::Paren, pair_ref(f, acc)) + punct('.') + word("map_field_or"@)
        + grouped(Delim::Paren, Seq::empty()) + punct('?')
}

/// A field read from the source, converted: through the fallback tiers
/// under a defaults trailer, with `MapFrom::map_from` when the mapping is
/// infallible, and otherwise with `TryMapFrom::try_map_from(..)?`.
pub open spec fn converted(x: ExpandV, f: Seq<char>, acc: Seq<EmitV>) -> Seq<EmitV> {
    if x.defaults {
        grouped(Delim::Brace, tiers_use() + pair_value(f, acc))
    } else if x.infallible {
        funnel_path("MapFrom"@, "map_from"@) + grouped(Delim::Paren, acc)
    } else {
        funnel_path("TryMapFrom"@, "try_map_from"@) + grouped(Delim::Paren, acc) + punct('?')
    }
}

/// `f: value,` for a field of the plan; nothing for a field left to the
/// trailer.
pub open spec fn assign(x: ExpandV, f: Seq<char>, fp: FieldPlan) -> Seq<EmitV> {
    match fp {
        FieldPlan::Override(k) => word(f) + punct(':') + splice(x.overrides[k as int].1) + punct(','),
        FieldPlan::Defaulted => Seq::empty(),
        _ => word(f) + punct(':') + converted(x, f, src_access(f, fp)) + punct(','),
    }
}

pub open spec fn assigns_upto(x: ExpandV, fs: Seq<FieldPlan>, n: int) -> Seq<EmitV>
    decreases n,
{
    if n <= 0 {
        Seq::empty()
    } else {
        assigns_upto(x, fs, n - 1) + assign(x, x.dest_shape.names[n - 1], fs[n - 1])
    }
}

/// `..::core::default::Default::default()` when a field is left to it.
pub open spec fn trailer(fs: Seq<FieldPlan>) -> Seq<EmitV> {
    if fs.contains(FieldPlan::Defaulted) {
        joint('.') + punct('.') + core_path("default"@, "Default"@, "default"@) + grouped(Delim::Paren, Seq::empty())
    } else {
        Seq::empty()
    }
}

pub open spec fn lets_upto(ls: Seq<SpanV>, n: int) -> Seq<EmitV>
    decreases n,
{
    if n <= 0 {
        Seq::empty()
    } else {
        lets_upto(ls, n - 1) + splice(ls[n - 1])
    }
}

/// `Dest { f: value, .. }`
pub open spec fn struct_value(x: ExpandV, fs: Seq<FieldPlan>) -> Seq<EmitV> {
    splice(x.dest) + grouped(Delim::Brace, assigns_upto(x, fs, fs.len() as int) + trailer(fs))
}

/// `let __magic_fb = <Dest as Default>::default();` under a defaults
/// trailer.
pub open spec fn fallback(x: ExpandV) -> Seq<EmitV> {
    if x.defaults {
        word("let"@) + word("__magic_fb"@) + punct('=') + dest_default(x) + punct(';')
    } else {
        Seq::empty()
    }
}

/// The body for a struct destination: the fallback, the `let` bindings
/// before any field, then the value, wrapped in `Ok` unless infallible.
pub open spec fn fields_body(x: ExpandV, fs: Seq<FieldPlan>) -> Seq<EmitV> {
    if x.infallible {
        lets_upto(x.lets, x.lets.len() as int) + struct_value(x, fs)
    } else {
        fallback(x) + lets_upto(x.lets, x.lets.len() as int) + ok_of(struct_value(x, fs))
    }
}

fn put_core_path(out: &mut Vec<Emit>, a: &str, b: &str, c: &str)
    ensures
        emitted(final(out)@) == emitted(old(out)@) + core_path(a@, b@, c@),
{
    let ghost s0 = emitted(out@);
    put_seg(out, "core");
    put_seg(out, a);
    put_seg(out, b);
    put_seg(out, c);
    assert(emitted(out@) =~= s0 + core_path(a@, b@, c@));
}

fn put_funnel_path(out: &mut Vec<Emit>, a: &str, b: &str)
    ensures
        emitted(final(out)@) == emitted(old(out)@) + funnel_path(a@, b@),
{
    let ghost s0 = emitted(out@);
    put_seg(out, "magic_map");
    put_seg(out, a);
    put_seg(out, b);
    assert(emitted(out@) =~= s0 + funnel_path(a@, b@));
}

fn put_unit_call(out: &mut Vec<Emit>)
    ensures
        emitted(final(out)@) == emitted(old(out)@) + grouped(Delim::Paren, Seq::empty()),
{
    let ghost s0 = emitted(out@);
    put_open(out, Delim::Paren);
    put_close(out);
    assert(emitted(out@) =~= s0 + grouped(Delim::Paren, Seq::empty()));
}

fn put_dest_default(out: &mut Vec<Emit>, inp: &ExpandInput)
    ensures
        emitted(final(out)@) == emitted(old(out)@) + dest_default(inp@),
{
    let ghost s0 = emitted(out@);
    put_punct(out, '<');
    put_splice(out, &inp.dest);
    put_word(out, "as");
    put_seg(out, "core");
    put_seg(out, "default");
    put_seg(out, "Default");
    put_punct(out, '>');
    put_seg(out, "default");
    put_unit_call(out);
    assert(emitted(out@) =~= s0 + dest_default(inp@));
}

fn put_src_access(out: &mut Vec<Emit>, f: &String, fp: FieldPlan)
    ensures
        emitted(final(out)@) == emitted(old(out)@) + src_access(f@, fp),
{
    let ghost s0 = emitted(out@);
    put_word(out, "src");
    put_punct(out, '.');
    if let FieldPlan::Element(i) = fp {
        put(out, Emit::Index(i));
        put_punct(out, '.');
    }
    put_name(out, f);
    assert(emitted(out@) =~= s0 + src_access(f@, fp));
}

fn put_tiers_use(out: &mut Vec<Emit>)
    ensures
        emitted(final(out)@) == emitted(old(out)@) + tiers_use(),
{
    let ghost s0 = emitted(out@);
    put_word(out, "use");
    put_seg(out, "magic_map");
    put_joint(out, ':');
    put_punct(out, ':');
    put_open(out, Delim::Brace);
    put_word(out, "MapFieldOpt");
    put_word(out, "as");
    put_word(out, "_");
    put_punct(out, ',');
    put_word(out, "MapFieldVal");
    put_word(out, "as");
    put_word(out, "_");
    put_punct(out, ',');
    put_word(out, "MapFieldWrap");
    put_word(out, "as");
    put_word(out, "_");
    put_close(out);
    put_punct(out, ';');
    assert(emitted(out@) =~= s0 + tiers_use());
}

fn put_pair_args(out: &mut Vec<Emit>, f: &String, fp: FieldPlan)
    ensures
        emitted(final(out)@) == emitted(old(out)@) + pair_args(f@, src_access(f@, fp)),
{
    let ghost s0 = emitted(out@);
    put_core_path(out, "option", "Option", "Some");
    put_open(out, Delim::Paren);
    put_src_access(out, f, fp);
    put_close(out);
    assert(emitted(out@) =~= s0 + some_of(src_access(f@, fp)));
    put_punct(out, ',');
    let ghost s1 = emitted(out@);
    put_core_path(out, "option", "Option", "Some");
    put_open(out, Delim::Paren);
    put_word(out, "__magic_fb");
    put_punct(out, '.');
    put_name(out, f);
    put_close(out);
    assert(emitted(out@) =~= s1 + some_of(word("__magic_fb"@) + punct('.') + word(f@)));
    assert(emitted(out@) =~= s0 + pair_args(f@, src_access(f@, fp)));
}

fn put_pair_ref(out: &mut Vec<Emit>, f: &String, fp: FieldPlan)
    ensures
        emitted(final(out)@) == emitted(old(out)@) + pair_ref(f@, src_access(f@, fp)),
{
    let ghost s0 = emitted(out@);
    put_punct(out, '&');
    put_word(out, "mut");
    put_punct(out, '&');
    put_word(out, "mut");
    put_punct(out, '&');
    put_word(out, "mut");
    put_seg(out, "magic_map");
    put_seg(out, "MapPair");
    let ghost s1 = emitted(out@);
    put_open(out, Delim::Paren);
    put_pair_args(out, f, fp);
    put_close(out);
    assert(emitted(out@) =~= s1 + grouped(Delim::Paren, pair_args(f@, src_access(f@, fp))));
    assert(emitted(out@) =~= s0 + pair_ref(f@, src_access(f@, fp)));
}

fn put_pair_value(out: &mut Vec<Emit>, f: &String, fp: FieldPlan)
    ensures
        emitted(final(out)@) == emitted(old(out)@) + pair_value(f@, src_access(f@, fp)),
{
    let ghost s0 = emitted(out@);
    put_open(out, Delim::Paren);
    put_pair_ref(out, f, fp);
    put_close(out);
    assert(emitted(out@) =~= s0 + grouped(Delim::Paren, pair_ref(f@, src_access(f@, fp))));
    put_punct(out, '.');
    put_word(out, "map_field_or");
    put_unit_call(out);
    put_punct(out, '?');
    assert(emitted(out@) =~= s0 + pair_value(f@, src_access(f@, fp)));
}

fn put_converted(out: &mut Vec<Emit>, inp: &ExpandInput, f: &String, fp: FieldPlan)
    ensures
        emitted(final(out)@) == emitted(old(out)@) + converted(inp@, f@, src_access(f@, fp)),
{
    let ghost s0 = emitted(out@);
    if inp.defaults {
        put_open(out, Delim::Brace);
        put_tiers_use(out);
        put_pair_value(out, f, fp);
        put_close(out);
    } else if inp.infallible {
        put_funnel_path(out, "MapFrom", "map_from");
        put_open(out, Delim::Paren);
        put_src_access(out, f, fp);
        put_close(out);
    } else {
        put_funnel_path(out, "TryMapFrom", "try_map_from");
        put_open(out, Delim::Paren);
        put_src_access(out, f, fp);
        put_close(out);
        put_punct(out, '?');
    }
    assert(emitted(out@) =~= s0 + converted(inp@, f@, src_access(f@, fp)));
}

fn put_assign(out: &mut Vec<Emit>, inp: &ExpandInput, f: &String, fp: FieldPlan)
    requires
        fp matches FieldPlan::Override(k) ==> k < inp.overrides@.len(),
    ensures
        emitted(final(out)@) == emitted(old(out)@) + assign(inp@, f@, fp),
{
    let ghost s0 = emitted(out@);
    match fp {
        FieldPlan::Override(k) => {
            put_name(out, f);
            put_punct(out, ':');
            put_splice(out, &inp.overrides[k].expr);
            put_punct(out, ',');
        },
        FieldPlan::Defaulted => {},
        _ => {
            put_name(out, f);
            put_punct(out, ':');
            put_converted(out, inp, f, fp);
            put_punct(out, ',');
        },
    }
    assert(emitted(out@) =~= s0 + assign(inp@, f@, fp));
}

fn put_lets(out: &mut Vec<Emit>, inp: &ExpandInput)
    ensures
        emitted(final(out)@) == emitted(old(out)@) + lets_upto(inp@.lets, inp@.lets.len() as int),
{
    let ghost s0 = emitted(out@);
    let ghost ls = inp@.lets;
    let mut i: usize = 0;
    while i < inp.lets.len()
        invariant
            i <= inp.lets@.len(),
            ls == inp@.lets,
            ls.len() == inp.lets@.len(),
            emitted(out@) == s0 + lets_upto(ls, i as int),
        decreases inp.lets@.len() - i,
    {
        put_splice(out, &inp.lets[i]);
        assert(ls[i as int] == inp.lets@[i as int]@);
        assert(emitted(out@) =~= s0 + lets_upto(ls, i + 1));
        i += 1;
    }
}

/// Whether any field is left to the trailer.
fn any_defaulted(fs: &Vec<FieldPlan>) -> (r: bool)
    ensures
        r == fs@.contains(FieldPlan::Defaulted),
{
    let mut i: usize = 0;
    while i < fs.len()
        invariant
            i <= fs@.len(),
            forall|k: int| 0 <= k < i ==> fs@[k] != FieldPlan::Defaulted,
        decreases fs@.len() - i,
    {
        if let FieldPlan::Defaulted = fs[i] {
            assert(fs@[i as int] == FieldPlan::Defaulted);
            return true;
        }
        i += 1;
    }
    false
}

fn put_struct_value(out: &mut Vec<Emit>, inp: &ExpandInput, fs: &Vec<FieldPlan>)
    requires
        fs@.len() == inp.dest_shape.names@.len(),
        forall|j: int| 0 <= j < fs@.len() ==> (#[trigger] fs@[j] matches FieldPlan::Override(k) ==> k < inp.overrides@.len()),
    ensures
        emitted(final(out)@) == emitted(old(out)@) + struct_value(inp@, fs@),
{
    let ghost s0 = emitted(out@);
    let ghost x = inp@;
    put_splice(out, &inp.dest);
    put_open(out, Delim::Brace);
    let ghost s1 = emitted(out@);
    let mut j: usize = 0;
    while j < fs.len()
        invariant
            j <= fs@.len(),
            x == inp@,
            fs@.len() == inp.dest_shape.names@.len(),
            forall|j: int| 0 <= j < fs@.len() ==> (#[trigger] fs@[j] matches FieldPlan::Override(k) ==> k < inp.overrides@.len()),
            emitted(out@) == s1 + assigns_upto(x, fs@, j as int),
        decreases fs@.len() - j,
    {
        put_assign(out, inp, &inp.dest_shape.names[j], fs[j]);
        assert(x.dest_shape.names[j as int] == inp.dest_shape.names@[j as int]@);
        assert(emitted(out@) =~= s1 + assigns_upto(x, fs@, j + 1));
        j += 1;
    }
    let ghost s2 = emitted(out@);
    if any_defaulted(fs) {
        put_joint(out, '.');
        put_punct(out, '.');
        put_core_path(out, "default", "Default", "default");
        put_unit_call(out);
    }
    assert(emitted(out@) =~= s2 + trailer(fs@));
    put_close(out);
    assert(emitted(out@) =~= s0 + struct_value(x, fs@));
}

fn put_fields_body(out: &mut Vec<Emit>, inp: &ExpandInput, fs: &Vec<FieldPlan>)
    requires
        fs@.len() == inp.dest_shape.names@.len(),
        forall|j: int| 0 <= j < fs@.len() ==> (#[trigger] fs@[j] matches FieldPlan::Override(k) ==> k < inp.overrides@.len()),
    ensures
        emitted(final(out)@) == emitted(old(out)@) + fields_body(inp@, fs@),
{
    let ghost s0 = emitted(out@);
    let ghost x = inp@;
    if inp.infallible {
        put_lets(out, inp);
        put_struct_value(out, inp, fs);
    } else {
        if inp.defaults {
            put_word(out, "let");
            put_word(out, "__magic_fb");
            put_punct(out, '=');
            put_dest_default(out, inp);
            put_punct(out, ';');
        }
        assert(emitted(out@) =~= s0 + fallback(x));
        put_lets(out, inp);
        let ghost s1 = emitted(out@);
        put_core_path(out, "result", "Result", "Ok");
        put_open(out, Delim::Paren);
        put_struct_value(out, inp, fs);
        put_close(out);
        assert(emitted(out@) =~= s1 + ok_of(struct_value(x, fs@)));
    }
    assert(emitted(out@) =~= s0 + fields_body(x, fs@));
}

// ── the match of an enum destination ─────────────────────────────────────────

/// `Src::V => Dest::D,` or `Src::V => <Dest as Default>::default(),`
pub open spec fn arm(x: ExpandV, v: Seq<char>, t: Target) -> Seq<EmitV> {
    splice(x.src) + seg(v) + fat_arrow() + match t {
        Target::Variant(d) => splice(x.dest) + seg(x.dest_shape.names[d as int]),
        Target::DestDefault => dest_default(x),
    } + punct(',')
}

/// The source variants, in the source schema's order.
pub open spec fn source_variants(x: ExpandV) -> Seq<Seq<char>> {
    x.collected[0].1.names
}

pub open spec fn arms_upto(x: ExpandV, ts: Seq<Target>, n: int) -> Seq<EmitV>
    decreases n,
{
    if n <= 0 {
        Seq::empty()
    } else {
        arms_upto(x, ts, n - 1) + arm(x, source_variants(x)[n - 1], ts[n - 1])
    }
}

/// The body for an enum destination: a `match` on the source, wrapped in
/// `Ok` unless infallible.
pub open spec fn arms_body(x: ExpandV, ts: Seq<Target>) -> Seq<EmitV> {
    let m = word("match"@) + word("src"@) + grouped(Delim::Brace, arms_upto(x, ts, ts.len() as int));
    if x.infallible {
        m
    } else {
        ok_of(m)
    }
}

// ── the item around a body ───────────────────────────────────────────────────

/// `src: Src`
pub open spec fn src_param(x: ExpandV) -> Seq<EmitV> {
    word("src"@) + punct(':') + splice(x.src)
}

/// `::core::result::Result<ty, ::magic_map::MappingError>`
pub open spec fn result_of(ty: Seq<EmitV>) -> Seq<EmitV> {
    seg("core"@) + seg("result"@) + seg("Result"@) + punct('<') + ty + punct(',') + seg("magic_map"@)
        + seg("MappingError"@) + punct('>')
}

/// `impl ::magic_map::TryMapFrom<Src> for Dest { fn try_map_from(src: Src) -> Result<Self, MappingError> { body } }`
pub open spec fn try_impl(x: ExpandV, body: Seq<EmitV>) -> Seq<EmitV> {
    word("impl"@) + seg("magic_map"@) + seg("TryMapFrom"@) + punct('<') + splice(x.src) + punct('>')
        + word("for"@) + splice(x.dest) + grouped(
        Delim::Brace,
        word("fn"@) + word("try_map_from"@) + grouped(Delim::Paren, src_param(x)) + arrow() + result_of(word("Self"@))
            + grouped(Delim::Brace, body),
    )
}

/// `impl ::magic_map::MapFrom<Src> for Dest { fn map_from(src: Src) -> Self { body } }`
pub open spec fn map_impl(x: ExpandV, body: Seq<EmitV>) -> Seq<EmitV> {
    word("impl"@) + seg("magic_map"@) + seg("MapFrom"@) + punct('<') + splice(x.src) + punct('>')
        + word("for"@) + splice(x.dest) + grouped(
        Delim::Brace,
        word("fn"@) + word("map_from"@) + grouped(Delim::Paren, src_param(x)) + arrow() + word("Self"@)
            + grouped(Delim::Brace, body),
    )
}

/// `Ok(<Dest as ::magic_map::MapFrom<Src>>::map_from(src))`: the
/// fallible half of an infallible impl.
pub open spec fn via_map_from(x: ExpandV) -> Seq<EmitV> {
    ok_of(
        punct('<') + splice(x.dest) + word("as"@) + seg("magic_map"@) + seg("MapFrom"@) + punct('<')
            + splice(x.src) + punct('>') + punct('>') + seg("map_from"@) + grouped(Delim::Paren, word("src"@)),
    )
}

/// The item a body stands in: `vis fn name(src: Src) -> Result<Dest, _>`
/// (or `-> Dest` when infallible) for the function form; for the impl form,
/// the `TryMapFrom` impl, or, when infallible, the `MapFrom` impl and a
/// `TryMapFrom` impl that defers to it.
pub open spec fn wrapped(x: ExpandV, body: Seq<EmitV>) -> Seq<EmitV> {
    match x.func {
        Some((vis, name)) => splice(vis) + word("fn"@) + word(name) + grouped(Delim::Paren, src_param(x)) + arrow() + (
        if x.infallible {
            splice(x.dest)
        } else {
            result_of(splice(x.dest))
        }) + grouped(Delim::Brace, body),
        None => if x.infallible {
            map_impl(x, body) + try_impl(x, via_map_from(x))
        } else {
            try_impl(x, body)
        },
    }
}

/// The opening of an impl of the funnel trait `tr` with method `m`, up to
/// the opening brace of the method's body.
pub open spec fn impl_head(x: ExpandV, tr: Seq<char>, m: Seq<char>, ret: Seq<EmitV>) -> Seq<EmitV> {
    word("impl"@) + seg("magic_map"@) + seg(tr) + punct('<') + splice(x.src) + punct('>')
        + word("for"@) + splice(x.dest) + seq![EmitV::Open(Delim::Brace)] + word("fn"@) + word(m)
        + grouped(Delim::Paren, src_param(x)) + arrow() + ret
}

/// What comes before a body's braces.
pub open spec fn head(x: ExpandV) -> Seq<EmitV> {
    match x.func {
        Some((vis, name)) => splice(vis) + word("fn"@) + word(name) + grouped(Delim::Paren, src_param(x)) + arrow() + (
        if x.infallible {
            splice(x.dest)
        } else {
            result_of(splice(x.dest))
        }),
        None => if x.infallible {
            impl_head(x, "MapFrom"@, "map_from"@, word("Self"@))
        } else {
            impl_head(x, "TryMapFrom"@, "try_map_from"@, result_of(word("Self"@)))
        },
    }
}

/// What comes after a body's braces.
pub open spec fn tail(x: ExpandV) -> Seq<EmitV> {
    match x.func {
        Some(_) => Seq::empty(),
        None => if x.infallible {
            seq![EmitV::Close] + try_impl(x, via_map_from(x))
        } else {
            seq![EmitV::Close]
        },
    }
}

proof fn lemma_wrapped_parts(x: ExpandV, body: Seq<EmitV>)
    ensures
        wrapped(x, body) == head(x) + grouped(Delim::Brace, body) + tail(x),
{
    let ts = result_of(word("Self"@));
    assert(try_impl(x, body) =~= impl_head(x, "TryMapFrom"@, "try_map_from"@, ts) + grouped(Delim::Brace, body)
        + seq![EmitV::Close]);
    assert(map_impl(x, body) =~= impl_head(x, "MapFrom"@, "map_from"@, word("Self"@)) + grouped(Delim::Brace, body)
        + seq![EmitV::Close]);
    assert(wrapped(x, body) =~= head(x) + grouped(Delim::Brace, body) + tail(x));
}

fn put_src_param(out: &mut Vec<Emit>, inp: &ExpandInput)
    ensures
        emitted(final(out)@) == emitted(old(out)@) + src_param(inp@),
{
    let ghost s0 = emitted(out@);
    put_word(out, "src");
    put_punct(out, ':');
    put_splice(out, &inp.src);
    assert(emitted(out@) =~= s0 + src_param(inp@));
}

/// `result_of` of `Self`, or of the destination.
fn put_result_of(out: &mut Vec<Emit>, inp: &ExpandInput, of_self: bool)
    ensures
        emitted(final(out)@) == emitted(old(out)@) + result_of(
            if of_self {
                word("Self"@)
            } else {
                splice(inp@.dest)
            },
        ),
{
    let ghost s0 = emitted(out@);
    put_seg(out, "core");
    put_seg(out, "result");
    put_seg(out, "Result");
    put_punct(out, '<');
    if of_self {
        put_word(out, "Self");
    } else {
        put_splice(out, &inp.dest);
    }
    put_punct(out, ',');
    put_seg(out, "magic_map");
    put_seg(out, "MappingError");
    put_punct(out, '>');
    assert(emitted(out@) =~= s0 + result_of(
        if of_self {
            word("Self"@)
        } else {
            splice(inp@.dest)
        },
    ));
}

#[verifier::spinoff_prover]
#[verifier::rlimit(40)]
fn put_impl_head(out: &mut Vec<Emit>, inp: &ExpandInput, fallible: bool)
    ensures
        emitted(final(out)@) == emitted(old(out)@) + (if fallible {
            impl_head(inp@, "TryMapFrom"@, "try_map_from"@, result_of(word("Self"@)))
        } else {
            impl_head(inp@, "MapFrom"@, "map_from"@, word("Self"@))
        }),
{
    let ghost s0 = emitted(out@);
    put_word(out, "impl");
    put_seg(out, "magic_map");
    if fallible {
        put_seg(out, "TryMapFrom");
    } else {
        put_seg(out, "MapFrom");
    }
    put_punct(out, '<');
    put_splice(out, &inp.src);
    put_punct(out, '>');
    put_word(out, "for");
    put_splice(out, &inp.dest);
    put_open(out, Delim::Brace);
    put_word(out, "fn");
    if fallible {
        put_word(out, "try_map_from");
    } else {
        put_word(out, "map_from");
    }
    let ghost s1 = emitted(out@);
    put_open(out, Delim::Paren);
    put_src_param(out, inp);
    put_close(out);
    assert(emitted(out@) =~= s1 + grouped(Delim::Paren, src_param(inp@)));
    put_arrow(out);
    if fallible {
        put_result_of(out, inp, true);
    } else {
        put_word(out, "Self");
    }
    assert(emitted(out@) =~= s0 + (if fallible {
        impl_head(inp@, "TryMapFrom"@, "try_map_from"@, result_of(word("Self"@)))
    } else {
        impl_head(inp@, "MapFrom"@, "map_from"@, word("Self"@))
    }));
}

fn put_via_map_from(out: &mut Vec<Emit>, inp: &ExpandInput)
    ensures
        emitted(final(out)@) == emitted(old(out)@) + via_map_from(inp@),
{
    let ghost s0 = emitted(out@);
    put_core_path(out, "result", "Result", "Ok");
    put_open(out, Delim::Paren);
    let ghost s1 = emitted(out@);
    put_punct(out, '<');
    put_splice(out, &inp.dest);
    put_word(out, "as");
    put_seg(out, "magic_map");
    put_seg(out, "MapFrom");
    put_punct(out, '<');
    put_splice(out, &inp.src);
    put_punct(out, '>');
    put_punct(out, '>');
    put_seg(out, "map_from");
    put_open(out, Delim::Paren);
    put_word(out, "src");
    put_close(out);
    let ghost x = inp@;
    assert(emitted(out@) =~= s1 + (punct('<') + splice(x.dest) + word("as"@) + seg("magic_map"@)
        + seg("MapFrom"@) + punct('<') + splice(x.src) + punct('>') + punct('>') + seg("map_from"@)
        + grouped(Delim::Paren, word("src"@))));
    put_close(out);
    assert(emitted(out@) =~= s0 + via_map_from(inp@));
}

fn put_head(out: &mut Vec<Emit>, inp: &ExpandInput)
    ensures
        emitted(final(out)@) == emitted(old(out)@) + head(inp@),
{
    let ghost s0 = emitted(out@);
    match &inp.func {
        Some(f) => {
            put_splice(out, &f.vis);
            put_word(out, "fn");
            put_name(out, &f.name);
            let ghost s1 = emitted(out@);
            put_open(out, Delim::Paren);
            put_src_param(out, inp);
            put_close(out);
            assert(emitted(out@) =~= s1 + grouped(Delim::Paren, src_param(inp@)));
            put_arrow(out);
            if inp.infallible {
                put_splice(out, &inp.dest);
            } else {
                put_result_of(out, inp, false);
            }
        },
        None => {
            put_impl_head(out, inp, !inp.infallible);
        },
    }
    assert(emitted(out@) =~= s0 + head(inp@));
}

fn put_tail(out: &mut Vec<Emit>, inp: &ExpandInput)
    ensures
        emitted(final(out)@) == emitted(old(out)@) + tail(inp@),
{
    let ghost s0 = emitted(out@);
    if inp.func.is_none() {
        put_close(out);
        if inp.infallible {
            let ghost s1 = emitted(out@);
            put_impl_head(out, inp, true);
            let ghost s2 = emitted(out@);
            put_open(out, Delim::Brace);
            put_via_map_from(out, inp);
            put_close(out);
            assert(emitted(out@) =~= s2 + grouped(Delim::Brace, via_map_from(inp@)));
            put_close(out);
            proof {
                lemma_wrapped_parts(inp@, via_map_from(inp@));
            }
            assert(try_impl(inp@, via_map_from(inp@)) =~= impl_head(inp@, "TryMapFrom"@, "try_map_from"@, result_of(word("Self"@)))
                + grouped(Delim::Brace, via_map_from(inp@)) + seq![EmitV::Close]);
            assert(emitted(out@) =~= s1 + try_impl(inp@, via_map_from(inp@)));
        }
    }
    assert(emitted(out@) =~= s0 + tail(inp@));
}

fn put_arm(out: &mut Vec<Emit>, inp: &ExpandInput, j: usize, t: Target)
    requires
        inp.collected@.len() > 0,
        j < inp.collected@[0].shape.names@.len(),
        t matches Target::Variant(d) ==> d < inp.dest_shape.names@.len(),
    ensures
        emitted(final(out)@) == emitted(old(out)@) + arm(inp@, source_variants(inp@)[j as int], t),
{
    let ghost s0 = emitted(out@);
    let ghost x = inp@;
    assert(source_variants(x)[j as int] == inp.collected@[0].shape.names@[j as int]@);
    put_splice(out, &inp.src);
    put_joint(out, ':');
    put_punct(out, ':');
    put_name(out, &inp.collected[0].shape.names[j]);
    put_joint(out, '=');
    put_punct(out, '>');
    match t {
        Target::Variant(d) => {
            put_splice(out, &inp.dest);
            put_joint(out, ':');
            put_punct(out, ':');
            put_name(out, &inp.dest_shape.names[d]);
            assert(x.dest_shape.names[d as int] == inp.dest_shape.names@[d as int]@);
        },
        Target::DestDefault => {
            put_dest_default(out, inp);
        },
    }
    put_punct(out, ',');
    assert(emitted(out@) =~= s0 + arm(x, source_variants(x)[j as int], t));
}

fn put_arms_body(out: &mut Vec<Emit>, inp: &ExpandInput, ts: &Vec<Target>)
    requires
        inp.collected@.len() > 0,
        ts@.len() <= inp.collected@[0].shape.names@.len(),
        forall|j: int| 0 <= j < ts@.len() ==> (#[trigger] ts@[j] matches Target::Variant(d) ==> d < inp.dest_shape.names@.len()),
    ensures
        emitted(final(out)@) == emitted(old(out)@) + arms_body(inp@, ts@),
{
    let ghost s0 = emitted(out@);
    let ghost x = inp@;
    if !inp.infallible {
        put_core_path(out, "result", "Result", "Ok");
        put_open(out, Delim::Paren);
    }
    let ghost s1 = emitted(out@);
    put_word(out, "match");
    put_word(out, "src");
    put_open(out, Delim::Brace);
    let ghost s2 = emitted(out@);
    let mut j: usize = 0;
    while j < ts.len()
        invariant
            j <= ts@.len(),
            x == inp@,
            inp.collected@.len() > 0,
            ts@.len() <= inp.collected@[0].shape.names@.len(),
            forall|j: int| 0 <= j < ts@.len() ==> (#[trigger] ts@[j] matches Target::Variant(d) ==> d < inp.dest_shape.names@.len()),
            emitted(out@) == s2 + arms_upto(x, ts@, j as int),
        decreases ts@.len() - j,
    {
        put_arm(out, inp, j, ts[j]);
        assert(emitted(out@) =~= s2 + arms_upto(x, ts@, j + 1));
        j += 1;
    }
    put_close(out);
    let ghost m = word("match"@) + word("src"@) + grouped(Delim::Brace, arms_upto(x, ts@, ts@.len() as int));
    assert(emitted(out@) =~= s1 + m);
    if !inp.infallible {
        put_close(out);
    }
    assert(emitted(out@) =~= s0 + arms_body(x, ts@));
}

// ── re-running through a schema ──────────────────────────────────────────────

/// The tokens that group path `g` leads to, from the top level inward.
pub open spec fn body_at(t: Seq<Tok>, g: Seq<usize>) -> Option<Seq<Tok>>
    decreases g.len(),
{
    if g.len() == 0 {
        Some(t)
    } else {
        match body_at(t, g.drop_last()) {
            Some(b) => if g.last() < b.len() && b[g.last() as int] is Group {
                Some(group_body(b[g.last() as int]))
            } else {
                None
            },
            None => None,
        }
    }
}

/// The run `s` with the token at `at` replaced by the identifier `name`.
pub open spec fn renamed(s: SpanV, at: int, name: Seq<char>) -> Seq<EmitV> {
    splice(SpanV { group: s.group, start: s.start, end: at }) + word(name) + splice(
        SpanV { group: s.group, start: at + 1, end: s.end },
    )
}

/// The path of the schema macro of the type path written in run `s`: its
/// last segment renamed to the schema's name. `None` when the run has no
/// last segment (or does not lie in the tokens).
pub open spec fn schema_path(t: Seq<Tok>, s: SpanV) -> Option<Seq<EmitV>> {
    match body_at(t, s.group) {
        Some(b) => if 0 <= s.start <= s.end <= b.len() {
            match last_segment(b.subrange(s.start, s.end)) {
                Some(k) => Some(renamed(s, s.start + k, schema_name(ident_text(b[s.start + k])))),
                None => None,
            }
        } else {
            None
        },
        None => None,
    }
}

/// The run of the source element whose schema is needed: the source itself,
/// or tuple element `i`.
pub open spec fn elem_span(x: ExpandV, i: usize) -> SpanV {
    match x.src_kind {
        SrcKindV::Single(_) => x.src,
        SrcKindV::Tuple(el) => el[i as int].0,
    }
}

/// `path::__magic_map_schema_T! { @for(i) <the whole input> }`
pub open spec fn chain_tokens(t: Seq<Tok>, x: ExpandV, i: usize) -> Option<Seq<EmitV>> {
    match schema_path(t, elem_span(x, i)) {
        Some(p) => Some(p + punct('!') + grouped(
            Delim::Brace,
            punct('@') + word("for"@) + grouped(Delim::Paren, seq![EmitV::Index(i)]) + splice(
                SpanV { group: Seq::empty(), start: 0, end: t.len() as int },
            ),
        )),
        None => None,
    }
}

// ── the whole expansion ──────────────────────────────────────────────────────

/// A plan whose positions all lie in the declaration it was made for.
pub open spec fn plan_fits(x: ExpandV, plan: PlanV) -> bool {
    match plan {
        PlanV::Chain(i) => x.src_kind matches SrcKindV::Tuple(el) ==> i < el.len(),
        PlanV::Arms(ts) => x.collected.len() > 0 && ts.len() <= source_variants(x).len() && forall|j: int|
            0 <= j < ts.len() ==> (#[trigger] ts[j] matches Target::Variant(d) ==> d < x.dest_shape.names.len()),
        PlanV::Fields(fs) => fs.len() == x.dest_shape.names.len() && forall|j: int|
            0 <= j < fs.len() ==> (#[trigger] fs[j] matches FieldPlan::Override(k) ==> k < x.overrides.len()),
    }
}

/// What a declaration with this plan expands to, given the declaration's
/// tokens `t`. `None` only when a schema is to be called through a source
/// element that names no type path.
pub open spec fn expansion_tokens(t: Seq<Tok>, x: ExpandV, plan: PlanV) -> Option<Seq<EmitV>> {
    match plan {
        PlanV::Chain(i) => chain_tokens(t, x, i),
        PlanV::Arms(ts) => Some(wrapped(x, arms_body(x, ts))),
        PlanV::Fields(fs) => Some(wrapped(x, fields_body(x, fs))),
    }
}

/// Every plan the planner makes fits its declaration, so it can be written
/// out.
pub proof fn law_plans_fit(inp: &ExpandInput, plan: PlanV)
    requires
        expansion(inp) == Ok::<PlanV, ExpandErrorV>(plan),
    ensures
        plan_fits(inp@, plan),
{
    let x = inp@;
    assert(x.dest_shape.names.len() == inp.dest_shape.names@.len());
    assert(x.overrides.len() == inp.overrides@.len());
    match plan {
        PlanV::Chain(i) => {
            assert(chain_step(inp) is Some) by {
                if chain_step(inp) is None {
                    if inp.dest_shape.is_enum {
                        assert(!(enum_expansion(inp) matches Ok(PlanV::Chain(_))));
                    } else {
                        assert(!(struct_expansion(inp) matches Ok(PlanV::Chain(_))));
                    }
                }
            }
            if let SrcKind::Tuple { elems } = inp.src_kind {
                pending(inp).index_of_first_ensures(true);
                assert(pending(inp).len() == elems@.len());
            }
        },
        PlanV::Arms(ts) => {
            law_arms_sound(inp, ts);
            assert(chain_step(inp) is None);
            assert(inp.collected@.len() > 0) by {
                if inp.collected@.len() == 0 {
                    assert(enum_expansion(inp) is Err);
                }
            }
            assert(source_variants(x) == src_variants(inp));
        },
        PlanV::Fields(fs) => {
            law_fields_sound(inp, fs);
            assert forall|j: int| 0 <= j < fs.len() implies (#[trigger] fs[j] matches FieldPlan::Override(k) ==> k < x.overrides.len()) by {}
        },
    }
}

/// Follows a group path; `None` when it leaves the tokens.
fn body_of<'a>(t: &'a Vec<Tok>, g: &Vec<usize>) -> (r: Option<&'a Vec<Tok>>)
    ensures
        match r {
            Some(b) => body_at(t@, g@) == Some(b@),
            None => body_at(t@, g@) is None,
        },
{
    let mut body: &Vec<Tok> = t;
    let mut i: usize = 0;
    while i < g.len()
        invariant
            i <= g@.len(),
            body_at(t@, g@.take(i as int)) == Some(body@),
        decreases g@.len() - i,
    {
        assert(g@.take(i + 1).drop_last() =~= g@.take(i as int));
        assert(g@.take(i + 1).last() == g@[i as int]);
        let k = g[i];
        if k >= body.len() {
            proof {
                lemma_body_none(t@, g@, i + 1);
            }
            return None;
        }
        match &body[k] {
            Tok::Group { body: inner, .. } => {
                body = inner;
            },
            _ => {
                proof {
                    lemma_body_none(t@, g@, i + 1);
                }
                return None;
            },
        }
        i += 1;
    }
    assert(g@.take(g@.len() as int) =~= g@);
    Some(body)
}

/// Once a path leaves the tokens, every longer path does.
proof fn lemma_body_none(t: Seq<Tok>, g: Seq<usize>, n: int)
    requires
        0 <= n <= g.len(),
        body_at(t, g.take(n)) is None,
    ensures
        body_at(t, g) is None,
    decreases g.len() - n,
{
    if n < g.len() {
        assert(g.take(n + 1).drop_last() =~= g.take(n));
        lemma_body_none(t, g, n + 1);
    } else {
        assert(g.take(n) =~= g);
    }
}

fn put_span(out: &mut Vec<Emit>, g: &Vec<usize>, start: usize, end: usize)
    ensures
        emitted(final(out)@) == emitted(old(out)@) + splice(SpanV { group: g@, start: start as int, end: end as int }),
{
    let s = TokSpan { group: g.clone(), start, end };
    put_splice(out, &s);
}

/// Writes the schema path of the type path in run `s`.
#[verifier::spinoff_prover]
#[verifier::rlimit(60)]
fn put_schema_path(out: &mut Vec<Emit>, t: &Vec<Tok>, s: &TokSpan) -> (ok: bool)
    ensures
        ok == schema_path(t@, s@) is Some,
        ok ==> emitted(final(out)@) == emitted(old(out)@) + schema_path(t@, s@)->Some_0,
{
    let body = match body_of(t, &s.group) {
        Some(b) => b,
        None => {
            return false;
        },
    };
    if !(s.start <= s.end && s.end <= body.len()) {
        return false;
    }
    let probe = MagicMapInput {
        infallible: false,
        func: None,
        src: TokSpan { group: Vec::new(), start: s.start, end: s.end },
        dest: TokSpan { group: Vec::new(), start: s.start, end: s.end },
        overrides: None,
    };
    let ghost b = body@;
    assert(body_at(t@, s@.group) == Some(b));
    match front(body, &probe) {
        None => {
            assert(last_segment(b.subrange(s.start as int, s.end as int)) is None);
            false
        },
        Some(plan) => {
            let ghost k = plan.schema_at - s.start;
            assert(last_segment(b.subrange(s.start as int, s.end as int)) == Some(k));
            assert(schema_path(t@, s@) == Some(renamed(s@, plan.schema_at as int, plan.schema@)));
            let ghost s0 = emitted(out@);
            put_span(out, &s.group, s.start, plan.schema_at);
            put_name(out, &plan.schema);
            put_span(out, &s.group, plan.schema_at + 1, s.end);
            assert(emitted(out@) =~= s0 + renamed(s@, plan.schema_at as int, plan.schema@));
            true
        },
    }
}

#[verifier::spinoff_prover]
#[verifier::rlimit(60)]
fn chain_emit(t: &Vec<Tok>, inp: &ExpandInput, i: usize) -> (r: Option<Vec<Emit>>)
    requires
        inp@.src_kind matches SrcKindV::Tuple(el) ==> i < el.len(),
    ensures
        match r {
            Some(v) => chain_tokens(t@, inp@, i) == Some(emitted(v@)),
            None => chain_tokens(t@, inp@, i) is None,
        },
{
    let es = match &inp.src_kind {
        SrcKind::Single { .. } => &inp.src,
        SrcKind::Tuple { elems } => &elems[i].span,
    };
    assert(es@ == elem_span(inp@, i));
    let mut out: Vec<Emit> = Vec::new();
    assert(emitted(out@) =~= Seq::<EmitV>::empty());
    if !put_schema_path(&mut out, t, es) {
        return None;
    }
    let ghost s1 = emitted(out@);
    put_punct(&mut out, '!');
    put_open(&mut out, Delim::Brace);
    let ghost s2 = emitted(out@);
    put_punct(&mut out, '@');
    put_word(&mut out, "for");
    put_open(&mut out, Delim::Paren);
    put(&mut out, Emit::Index(i));
    put_close(&mut out);
    let whole: Vec<usize> = Vec::new();
    put_span(&mut out, &whole, 0, t.len());
    let ghost inner = punct('@') + word("for"@) + grouped(Delim::Paren, seq![EmitV::Index(i)]) + splice(
        SpanV { group: Seq::empty(), start: 0, end: t@.len() as int },
    );
    assert(emitted(out@) =~= s2 + inner);
    put_close(&mut out);
    assert(emitted(out@) =~= s1 + punct('!') + grouped(Delim::Brace, inner));
    Some(out)
}

/// Writes out the expansion a plan stands for: the items that the
/// declaration expands to, or, for a plan that re-runs through a schema,
/// the schema macro's call. `None` when that schema is to be called through
/// a source element that names no type path.
pub fn emit_expansion(t: &Vec<Tok>, inp: &ExpandInput, plan: &Plan) -> (r: Option<Vec<Emit>>)
    requires
        plan_fits(inp@, plan@),
    ensures
        match r {
            Some(v) => expansion_tokens(t@, inp@, plan@) == Some(emitted(v@)),
            None => expansion_tokens(t@, inp@, plan@) is None,
        },
{
    let ghost x = inp@;
    assert(x.dest_shape.names.len() == inp.dest_shape.names@.len());
    assert(x.overrides.len() == inp.overrides@.len());
    match plan {
        Plan::Chain(i) => chain_emit(t, inp, *i),
        Plan::Arms(ts) => {
            assert(x.collected.len() == inp.collected@.len());
            assert(source_variants(x).len() == inp.collected@[0].shape.names@.len());
            let mut out: Vec<Emit> = Vec::new();
            assert(emitted(out@) =~= Seq::<EmitV>::empty());
            put_head(&mut out, inp);
            let ghost s1 = emitted(out@);
            put_open(&mut out, Delim::Brace);
            put_arms_body(&mut out, inp, ts);
            put_close(&mut out);
            assert(emitted(out@) =~= s1 + grouped(Delim::Brace, arms_body(x, ts@)));
            put_tail(&mut out, inp);
            proof {
                lemma_wrapped_parts(x, arms_body(x, ts@));
            }
            assert(emitted(out@) =~= wrapped(x, arms_body(x, ts@)));
            Some(out)
        },
        Plan::Fields(fs) => {
            let mut out: Vec<Emit> = Vec::new();
            assert(emitted(out@) =~= Seq::<EmitV>::empty());
            put_head(&mut out, inp);
            let ghost s1 = emitted(out@);
            put_open(&mut out, Delim::Brace);
            put_fields_body(&mut out, inp, fs);
            put_close(&mut out);
            assert(emitted(out@) =~= s1 + grouped(Delim::Brace, fields_body(x, fs@)));
            put_tail(&mut out, inp);
            proof {
                lemma_wrapped_parts(x, fields_body(x, fs@));
            }
            assert(emitted(out@) =~= wrapped(x, fields_body(x, fs@)));
            Some(out)
        },
    }
}

/// Plans a declaration and writes out its expansion: the planner's error,
/// or what the plan it makes expands to.
pub fn expand_to_tokens(t: &Vec<Tok>, inp: &ExpandInput) -> (r: Result<Option<Vec<Emit>>, ExpandError>)
    ensures
        match r {
            Err(e) => expansion(inp) == Err::<PlanV, ExpandErrorV>(error_view(e)),
            Ok(o) => expansion(inp) matches Ok(p) && match o {
                Some(v) => expansion_tokens(t@, inp@, p) == Some(emitted(v@)),
                None => expansion_tokens(t@, inp@, p) is None,
            },
        },
{
    match expand(inp) {
        Err(e) => Err(e),
        Ok(plan) => {
            proof {
                law_plans_fit(inp, plan@);
            }
            Ok(emit_expansion(t, inp, &plan))
        },
    }
}

// ── what the infallible forms write ──────────────────────────────────────────

/// No `?` in the run.
pub open spec fn no_question(s: Seq<EmitV>) -> bool {
    forall|i: int| 0 <= i < s.len() ==> !(#[trigger] s[i] matches EmitV::Punct('?', _))
}

broadcast proof fn lemma_no_question_add(a: Seq<EmitV>, b: Seq<EmitV>)
    requires
        no_question(a),
        no_question(b),
    ensures
        #[trigger] no_question(a + b),
{
    assert forall|i: int| 0 <= i < (a + b).len() implies !(#[trigger] (a + b)[i] matches EmitV::Punct('?', _)) by {
        if i >= a.len() {
            assert((a + b)[i] == b[i - a.len()]);
        }
    }
}

proof fn lemma_assigns_no_question(x: ExpandV, fs: Seq<FieldPlan>, n: int)
    requires
        x.infallible,
        !x.defaults,
    ensures
        no_question(assigns_upto(x, fs, n)),
    decreases n,
{
    broadcast use lemma_no_question_add;
    if n > 0 {
        lemma_assigns_no_question(x, fs, n - 1);
        let f = x.dest_shape.names[n - 1];
        let acc = src_access(f, fs[n - 1]);
        assert(no_question(acc));
        assert(no_question(converted(x, f, acc)));
        assert(no_question(assign(x, f, fs[n - 1])));
    }
}

proof fn lemma_lets_no_question(ls: Seq<SpanV>, n: int)
    ensures
        no_question(lets_upto(ls, n)),
    decreases n,
{
    broadcast use lemma_no_question_add;
    if n > 0 {
        lemma_lets_no_question(ls, n - 1);
    }
}

proof fn lemma_arms_no_question(x: ExpandV, ts: Seq<Target>, n: int)
    ensures
        no_question(arms_upto(x, ts, n)),
    decreases n,
{
    broadcast use lemma_no_question_add;
    if n > 0 {
        lemma_arms_no_question(x, ts, n - 1);
        assert(no_question(dest_default(x)));
        assert(no_question(arm(x, source_variants(x)[n - 1], ts[n - 1])));
    }
}

proof fn lemma_wrapped_no_question(x: ExpandV, body: Seq<EmitV>)
    requires
        no_question(body),
    ensures
        no_question(wrapped(x, body)),
{
    broadcast use lemma_no_question_add;
    assert(no_question(result_of(word("Self"@))));
    assert(no_question(result_of(splice(x.dest))));
    assert(no_question(src_param(x)));
    assert(no_question(via_map_from(x)));
    assert(no_question(grouped(Delim::Brace, body)));
    assert(no_question(head(x)));
    assert(no_question(impl_head(x, "TryMapFrom"@, "try_map_from"@, result_of(word("Self"@)))));
    assert(no_question(grouped(Delim::Brace, via_map_from(x))));
    assert(no_question(tail(x)));
    lemma_wrapped_parts(x, body);
}

proof fn lemma_fields_body_no_question(x: ExpandV, fs: Seq<FieldPlan>)
    requires
        x.infallible,
        !x.defaults,
    ensures
        no_question(fields_body(x, fs)),
{
    broadcast use lemma_no_question_add;
    lemma_assigns_no_question(x, fs, fs.len() as int);
    lemma_lets_no_question(x.lets, x.lets.len() as int);
    assert(no_question(trailer(fs)));
    assert(no_question(struct_value(x, fs)));
}

proof fn lemma_arms_body_no_question(x: ExpandV, ts: Seq<Target>)
    requires
        x.infallible,
    ensures
        no_question(arms_body(x, ts)),
{
    broadcast use lemma_no_question_add;
    lemma_arms_no_question(x, ts, ts.len() as int);
}

/// A mapping declared `infallible` is written without a single `?`: every
/// field goes through `MapFrom::map_from`, the match arms and the value are
/// not wrapped in anything fallible, and the `TryMapFrom` half of the impl
/// form only wraps the `MapFrom` result in `Ok`. (Spliced runs are the
/// declaration's own overrides and `let` bindings.)
pub proof fn law_infallible_writes_no_question_mark(t: Seq<Tok>, inp: &ExpandInput, plan: PlanV)
    requires
        inp.infallible,
        expansion(inp) == Ok::<PlanV, ExpandErrorV>(plan),
        !(plan is Chain),
    ensures
        expansion_tokens(t, inp@, plan) matches Some(out) && no_question(out),
{
    let x = inp@;
    match plan {
        PlanV::Fields(fs) => {
            assert(chain_step(inp) is None && !inp.dest_shape.is_enum) by {
                if chain_step(inp) is None && inp.dest_shape.is_enum {
                    assert(!(enum_expansion(inp) matches Ok(PlanV::Fields(_))));
                }
            }
            assert(!x.defaults);
            lemma_fields_body_no_question(x, fs);
            lemma_wrapped_no_question(x, fields_body(x, fs));
        },
        PlanV::Arms(ts) => {
            lemma_arms_body_no_question(x, ts);
            lemma_wrapped_no_question(x, arms_body(x, ts));
        },
        PlanV::Chain(_) => {},
    }
}

// ── what each override is written as ────────────────────────────────────────

/// `r` occurs in `s` as a contiguous run.
pub open spec fn has_run(s: Seq<EmitV>, r: Seq<EmitV>) -> bool {
    exists|p: int| 0 <= p && p + r.len() <= s.len() && #[trigger] s.subrange(p, p + r.len()) == r
}

broadcast proof fn lemma_run_in_sum(a: Seq<EmitV>, b: Seq<EmitV>, r: Seq<EmitV>)
    ensures
        (has_run(a, r) || has_run(b, r)) ==> #[trigger] has_run(a + b, r),
{
    if has_run(a, r) {
        let p = choose|p: int| 0 <= p && p + r.len() <= a.len() && #[trigger] a.subrange(p, p + r.len()) == r;
        assert((a + b).subrange(p, p + r.len()) =~= a.subrange(p, p + r.len()));
    } else if has_run(b, r) {
        let p = choose|p: int| 0 <= p && p + r.len() <= b.len() && #[trigger] b.subrange(p, p + r.len()) == r;
        assert((a + b).subrange(p + a.len(), p + a.len() + r.len()) =~= b.subrange(p, p + r.len()));
    }
}

proof fn lemma_run_self(r: Seq<EmitV>)
    ensures
        has_run(r, r),
{
    let p: int = 0;
    assert(r.subrange(p, p + r.len()) =~= r);
}

proof fn lemma_assign_in_assigns(x: ExpandV, fs: Seq<FieldPlan>, n: int, j: int, r: Seq<EmitV>)
    requires
        0 <= j < n,
        has_run(assign(x, x.dest_shape.names[j], fs[j]), r),
    ensures
        has_run(assigns_upto(x, fs, n), r),
    decreases n,
{
    broadcast use lemma_run_in_sum;
    if j < n - 1 {
        lemma_assign_in_assigns(x, fs, n - 1, j, r);
    }
    assert(has_run(assigns_upto(x, fs, n - 1) + assign(x, x.dest_shape.names[n - 1], fs[n - 1]), r));
}

/// Every overridden field is written as `field: <its override's tokens>`:
/// the override it is planned from is the one written for that very field,
/// and its expression tokens are spliced right after the field's name.
pub proof fn law_overrides_written_for_their_fields(
    t: Seq<Tok>,
    inp: &ExpandInput,
    fs: Seq<FieldPlan>,
    j: int,
    k: usize,
)
    requires
        expansion(inp) == Ok::<PlanV, ExpandErrorV>(PlanV::Fields(fs)),
        0 <= j < fs.len(),
        fs[j] == FieldPlan::Override(k),
    ensures
        k < inp@.overrides.len(),
        inp@.overrides[k as int].0 == inp@.dest_shape.names[j],
        expansion_tokens(t, inp@, PlanV::Fields(fs)) matches Some(out) && has_run(
            out,
            word(inp@.dest_shape.names[j]) + punct(':') + splice(inp@.overrides[k as int].1),
        ),
{
    broadcast use lemma_run_in_sum;
    let x = inp@;
    law_fields_sound(inp, fs);
    assert(override_names(inp)[k as int] == x.overrides[k as int].0);
    let f = x.dest_shape.names[j];
    let run = word(f) + punct(':') + splice(x.overrides[k as int].1);
    lemma_run_self(run);
    assert(assign(x, f, fs[j]) == run + punct(','));
    assert(has_run(assign(x, f, fs[j]), run));
    lemma_assign_in_assigns(x, fs, fs.len() as int, j, run);
    assert(has_run(struct_value(x, fs), run));
    assert(has_run(fields_body(x, fs), run));
    lemma_wrapped_parts(x, fields_body(x, fs));
    assert(has_run(wrapped(x, fields_body(x, fs)), run));
}

// ── the call-site front end ──────────────────────────────────────────────────

/// `@infallible` for a declaration marked `infallible`.
pub open spec fn marker(m: MagicMapV) -> Seq<EmitV> {
    if m.infallible {
        punct('@') + word("infallible"@)
    } else {
        Seq::empty()
    }
}

/// `@fn(vis name)` for the function form, `@impl` for the impl form.
pub open spec fn mode(m: MagicMapV) -> Seq<EmitV> {
    match m.func {
        Some((vis, name)) => punct('@') + word("fn"@) + grouped(Delim::Paren, splice(vis) + word(name)),
        None => punct('@') + word("impl"@),
    }
}

/// The body of the trailing `{ .. }`, when there is one.
pub open spec fn overrides_of(t: Seq<Tok>, m: MagicMapV) -> Seq<EmitV> {
    match m.overrides {
        Some(k) => if k < t.len() && t[k as int] is Group {
            splice(SpanV { group: seq![k], start: 0, end: group_body(t[k as int]).len() as int })
        } else {
            Seq::empty()
        },
        None => Seq::empty(),
    }
}

/// The call of the destination's schema macro that a `magic_map!`
/// declaration expands to: `path::__magic_map_schema_Dest! { [@infallible]
/// @impl|@fn(vis name) @src(Src) @dest(Dest) @overrides{ .. } }`. `None`
/// when the destination names no type path.
pub open spec fn front_call(t: Seq<Tok>, m: MagicMapV) -> Option<Seq<EmitV>> {
    match schema_path(t, m.dest) {
        Some(p) => Some(p + punct('!') + grouped(
            Delim::Brace,
            marker(m) + mode(m) + punct('@') + word("src"@) + grouped(Delim::Paren, splice(m.src)) + punct('@')
                + word("dest"@) + grouped(Delim::Paren, splice(m.dest)) + punct('@') + word("overrides"@)
                + grouped(Delim::Brace, overrides_of(t, m)),
        )),
        None => None,
    }
}

fn put_mode(out: &mut Vec<Emit>, m: &MagicMapInput)
    ensures
        emitted(final(out)@) == emitted(old(out)@) + marker(m@) + mode(m@),
{
    let ghost s0 = emitted(out@);
    if m.infallible {
        put_punct(out, '@');
        put_word(out, "infallible");
    }
    let ghost s1 = emitted(out@);
    assert(s1 == s0 + marker(m@));
    put_punct(out, '@');
    match &m.func {
        Some(f) => {
            put_word(out, "fn");
            let ghost s2 = emitted(out@);
            put_open(out, Delim::Paren);
            put_splice(out, &f.vis);
            put_name(out, &f.name);
            put_close(out);
            assert(emitted(out@) =~= s2 + grouped(Delim::Paren, splice(f.vis@) + word(f.name@)));
        },
        None => {
            put_word(out, "impl");
        },
    }
    assert(emitted(out@) =~= s1 + mode(m@));
}

fn put_overrides(out: &mut Vec<Emit>, t: &Vec<Tok>, m: &MagicMapInput)
    ensures
        emitted(final(out)@) == emitted(old(out)@) + overrides_of(t@, m@),
{
    let ghost s0 = emitted(out@);
    if let Some(k) = m.overrides {
        if k < t.len() {
            if let Tok::Group { body, .. } = &t[k] {
                let g: Vec<usize> = vec![k];
                assert(g@ =~= seq![k]);
                put_span(out, &g, 0, body.len());
            }
        }
    }
    assert(emitted(out@) =~= s0 + overrides_of(t@, m@));
}

/// Writes out what a `magic_map!` declaration expands to: the call of its
/// destination's schema macro. `None` when the destination names no type
/// path.
#[verifier::spinoff_prover]
#[verifier::rlimit(60)]
pub fn emit_front_call(t: &Vec<Tok>, m: &MagicMapInput) -> (r: Option<Vec<Emit>>)
    ensures
        match r {
            Some(v) => front_call(t@, m@) == Some(emitted(v@)),
            None => front_call(t@, m@) is None,
        },
{
    let mut out: Vec<Emit> = Vec::new();
    assert(emitted(out@) =~= Seq::<EmitV>::empty());
    if !put_schema_path(&mut out, t, &m.dest) {
        return None;
    }
    let ghost s1 = emitted(out@);
    put_punct(&mut out, '!');
    put_open(&mut out, Delim::Brace);
    let ghost s2 = emitted(out@);
    put_mode(&mut out, m);
    put_punct(&mut out, '@');
    put_word(&mut out, "src");
    put_open(&mut out, Delim::Paren);
    put_splice(&mut out, &m.src);
    put_close(&mut out);
    put_punct(&mut out, '@');
    put_word(&mut out, "dest");
    put_open(&mut out, Delim::Paren);
    put_splice(&mut out, &m.dest);
    put_close(&mut out);
    put_punct(&mut out, '@');
    put_word(&mut out, "overrides");
    let ghost s3 = emitted(out@);
    put_open(&mut out, Delim::Brace);
    put_overrides(&mut out, t, m);
    put_close(&mut out);
    assert(emitted(out@) =~= s3 + grouped(Delim::Brace, overrides_of(t@, m@)));
    let ghost inner = marker(m@) + mode(m@) + punct('@') + word("src"@) + grouped(Delim::Paren, splice(m@.src))
        + punct('@') + word("dest"@) + grouped(Delim::Paren, splice(m@.dest)) + punct('@') + word("overrides"@)
        + grouped(Delim::Brace, overrides_of(t@, m@));
    assert(emitted(out@) =~= s2 + inner);
    put_close(&mut out);
    assert(emitted(out@) =~= s1 + punct('!') + grouped(Delim::Brace, inner));
    Some(out)
}

// ── the derive ───────────────────────────────────────────────────────────────

/// The names of a schema, comma-separated, each declared one marked `*`.
pub open spec fn shape_names_upto(sh: ShapeV, n: int) -> Seq<EmitV>
    decreases n,
{
    if n <= 0 {
        Seq::empty()
    } else {
        shape_names_upto(sh, n - 1) + (if n > 1 {
            punct(',')
        } else {
            Seq::empty()
        }) + (if sh.declared.contains(sh.names[n - 1]) {
            punct('*')
        } else {
            Seq::empty()
        }) + word(sh.names[n - 1])
    }
}

/// `@struct [a, *b]` or `@enum [A, B]`
pub open spec fn shape_tokens(sh: ShapeV) -> Seq<EmitV> {
    punct('@') + word(
        if sh.is_enum {
            "enum"@
        } else {
            "struct"@
        },
    ) + grouped(Delim::Bracket, shape_names_upto(sh, sh.names.len() as int))
}

/// `#[name(arg)]`
pub open spec fn attribute(name: Seq<char>, arg: Seq<char>) -> Seq<EmitV> {
    punct('#') + grouped(Delim::Bracket, word(name) + grouped(Delim::Paren, word(arg)))
}

/// `($($rest:tt)*) => { ::magic_map::__magic_map_expand! { shape $($rest)* } };`
pub open spec fn schema_rule(sh: ShapeV) -> Seq<EmitV> {
    grouped(
        Delim::Paren,
        punct('$') + grouped(Delim::Paren, punct('$') + word("rest"@) + punct(':') + word("tt"@)) + punct('*'),
    ) + fat_arrow() + grouped(
        Delim::Brace,
        seg("magic_map"@) + seg("__magic_map_expand"@) + punct('!') + grouped(
            Delim::Brace,
            shape_tokens(sh) + punct('$') + grouped(Delim::Paren, punct('$') + word("rest"@)) + punct('*'),
        ),
    ) + punct(';')
}

/// What `#[derive(MagicMap)]` emits for a schema: the exported schema macro,
/// which forwards its input to the expander behind the schema, and the
/// module-scoped alias next to the type.
pub open spec fn schema_macro(sh: ShapeV, export_name: Seq<char>, schema_name: Seq<char>) -> Seq<EmitV> {
    attribute("doc"@, "hidden"@) + punct('#') + grouped(Delim::Bracket, word("macro_export"@)) + word("macro_rules"@)
        + punct('!') + word(export_name) + grouped(Delim::Brace, schema_rule(sh)) + attribute("doc"@, "hidden"@)
        + attribute("allow"@, "unused_imports"@) + word("pub"@) + word("use"@) + word(export_name) + word("as"@)
        + word(schema_name) + punct(';')
}

fn put_attribute(out: &mut Vec<Emit>, name: &str, arg: &str)
    ensures
        emitted(final(out)@) == emitted(old(out)@) + attribute(name@, arg@),
{
    let ghost s0 = emitted(out@);
    put_punct(out, '#');
    put_open(out, Delim::Bracket);
    put_word(out, name);
    put_open(out, Delim::Paren);
    put_word(out, arg);
    put_close(out);
    put_close(out);
    assert(emitted(out@) =~= s0 + attribute(name@, arg@));
}

fn put_shape(out: &mut Vec<Emit>, sh: &Shape)
    ensures
        emitted(final(out)@) == emitted(old(out)@) + shape_tokens(sh@),
{
    let ghost s0 = emitted(out@);
    let ghost v = sh@;
    put_punct(out, '@');
    if sh.is_enum {
        put_word(out, "enum");
    } else {
        put_word(out, "struct");
    }
    put_open(out, Delim::Bracket);
    let ghost s1 = emitted(out@);
    let mut j: usize = 0;
    while j < sh.names.len()
        invariant
            j <= sh.names@.len(),
            v == sh@,
            v.names.len() == sh.names@.len(),
            emitted(out@) == s1 + shape_names_upto(v, j as int),
        decreases sh.names@.len() - j,
    {
        let ghost before = emitted(out@);
        if j > 0 {
            put_punct(out, ',');
        }
        if has_name(&sh.declared, &sh.names[j]) {
            put_punct(out, '*');
        }
        put_name(out, &sh.names[j]);
        assert(v.names[j as int] == sh.names@[j as int]@);
        assert(emitted(out@) =~= s1 + shape_names_upto(v, j + 1));
        j += 1;
    }
    put_close(out);
    assert(emitted(out@) =~= s0 + shape_tokens(v));
}

fn put_schema_rule(out: &mut Vec<Emit>, sh: &Shape)
    ensures
        emitted(final(out)@) == emitted(old(out)@) + schema_rule(sh@),
{
    let ghost s0 = emitted(out@);
    put_open(out, Delim::Paren);
    put_punct(out, '$');
    put_open(out, Delim::Paren);
    put_punct(out, '$');
    put_word(out, "rest");
    put_punct(out, ':');
    put_word(out, "tt");
    put_close(out);
    put_punct(out, '*');
    put_close(out);
    put_joint(out, '=');
    put_punct(out, '>');
    let ghost s1 = emitted(out@);
    put_open(out, Delim::Brace);
    put_seg(out, "magic_map");
    put_seg(out, "__magic_map_expand");
    put_punct(out, '!');
    let ghost s2 = emitted(out@);
    put_open(out, Delim::Brace);
    put_shape(out, sh);
    put_punct(out, '$');
    put_open(out, Delim::Paren);
    put_punct(out, '$');
    put_word(out, "rest");
    put_close(out);
    put_punct(out, '*');
    put_close(out);
    assert(emitted(out@) =~= s2 + grouped(
        Delim::Brace,
        shape_tokens(sh@) + punct('$') + grouped(Delim::Paren, punct('$') + word("rest"@)) + punct('*'),
    ));
    put_close(out);
    put_punct(out, ';');
    assert(emitted(out@) =~= s0 + schema_rule(sh@));
}

/// Writes out what `#[derive(MagicMap)]` emits for a planned schema.
pub fn emit_schema_macro(d: &SchemaDecl) -> (r: Vec<Emit>)
    ensures
        emitted(r@) == schema_macro(d.shape@, d.export_name@, d.schema_name@),
{
    let mut out: Vec<Emit> = Vec::new();
    assert(emitted(out@) =~= Seq::<EmitV>::empty());
    put_attribute(&mut out, "doc", "hidden");
    put_punct(&mut out, '#');
    put_open(&mut out, Delim::Bracket);
    put_word(&mut out, "macro_export");
    put_close(&mut out);
    put_word(&mut out, "macro_rules");
    put_punct(&mut out, '!');
    put_name(&mut out, &d.export_name);
    let ghost s1 = emitted(out@);
    put_open(&mut out, Delim::Brace);
    put_schema_rule(&mut out, &d.shape);
    put_close(&mut out);
    assert(emitted(out@) =~= s1 + grouped(Delim::Brace, schema_rule(d.shape@)));
    put_attribute(&mut out, "doc", "hidden");
    put_attribute(&mut out, "allow", "unused_imports");
    put_word(&mut out, "pub");
    put_word(&mut out, "use");
    put_name(&mut out, &d.export_name);
    put_word(&mut out, "as");
    put_name(&mut out, &d.schema_name);
    put_punct(&mut out, ';');
    assert(emitted(out@) =~= schema_macro(d.shape@, d.export_name@, d.schema_name@));
    out
}

} // verus!
