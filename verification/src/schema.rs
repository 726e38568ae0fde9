//! `#[derive(MagicMap)]`: a content-free metadata derive. It publishes a
//! type's own field (or variant) names as a hidden schema macro next to the
//! type, and nothing else.
//!
//! Named-field structs and unit-only enums get a schema; other shapes are a
//! silent no-op, so the derive can be applied blanket-style. The crate-root
//! export name can be overridden with `#[magic_map(export = "UniqueName")]`
//! when two same-named types live in one crate.
use vstd::prelude::*;
use crate::front::{schema_name, schema_name_of, unraw, unraw_text};
use crate::rust_syntax::{lit_str, lit_str_text};
use crate::seqs::names_of;
use crate::shape::{Shape, ShapeV};
use crate::tokens::{Tok, eq_lit, is_ident, is_joint_punct, is_punct, is_word, joint_punct_is, punct_is, word_is};

verus! {

/// The path of an attribute: whether it starts with `::`, and its segments'
/// identifiers, in order.
pub struct AttrPath {
    pub global: bool,
    pub segments: Vec<String>,
}

/// The fields of a struct.
pub enum Fields {
    /// The field names, and, per field, the path of each of its attributes.
    Named(Vec<String>, Vec<Vec<AttrPath>>),
    Unnamed,
    Unit,
}

/// An enum variant: its name, and whether it carries no data.
pub struct Variant {
    pub name: String,
    pub unit: bool,
}

/// The body of a derive input.
pub enum Data {
    Struct(Fields),
    Enum(Vec<Variant>),
    Union,
}

/// An attribute on the derive input: its path, and its parenthesized
/// argument tokens when it has that form.
pub struct Attr {
    pub path: AttrPath,
    pub list: Option<Vec<Tok>>,
}

/// What the derive reads of a type.
pub struct DeriveInput {
    pub name: String,
    pub data: Data,
    pub attrs: Vec<Attr>,
}

/// What the derive emits: the schema it publishes, the crate-root export
/// name of the schema macro, and the module-scoped alias next to the type.
pub struct SchemaDecl {
    pub shape: Shape,
    pub export_name: String,
    pub schema_name: String,
}

/// Why a `#[magic_map(..)]` attribute was refused.
#[derive(Debug, PartialEq, Eq, Structural, Clone, Copy)]
pub enum DeriveError {
    /// A key other than `export`.
    ExpectedExport,
    /// Not `export = "UniqueName"`, or not a parenthesized list.
    MalformedAttr,
}

// ── the specification ────────────────────────────────────────────────────────

/// The path is the single identifier `w`, with no leading `::`.
pub open spec fn path_is(p: AttrPath, w: Seq<char>) -> bool {
    !p.global && p.segments@.len() == 1 && p.segments@[0]@ == w
}

/// One of the attributes has the path `default` (`#[default(..)]`,
/// `#[default = ..]`): the field declares its own default.
pub open spec fn declares_default(paths: Seq<AttrPath>) -> bool {
    exists|i: int| 0 <= i < paths.len() && path_is(#[trigger] paths[i], "default"@)
}

/// The names among `ns` whose field has a `default` attribute, in order.
pub open spec fn defaulted_names(ns: Seq<Seq<char>>, paths: Seq<Vec<AttrPath>>) -> Seq<Seq<char>>
    decreases ns.len(),
{
    if ns.len() == 0 {
        Seq::empty()
    } else {
        let rest = defaulted_names(ns.drop_last(), paths);
        let j = ns.len() - 1;
        if j < paths.len() && declares_default(paths[j]@) {
            rest.push(ns.last())
        } else {
            rest
        }
    }
}

/// The schema of a type, when its shape has one.
pub open spec fn shape_of(d: Data) -> Option<ShapeV> {
    match d {
        Data::Struct(Fields::Named(ns, fl)) => Some(
            ShapeV { is_enum: false, names: names_of(ns@), declared: defaulted_names(names_of(ns@), fl@) },
        ),
        Data::Struct(_) => None,
        Data::Enum(vs) => if forall|i: int| 0 <= i < vs@.len() ==> (#[trigger] vs@[i]).unit {
            Some(ShapeV { is_enum: true, names: vs@.map_values(|v: Variant| v.name@), declared: Seq::empty() })
        } else {
            None
        },
        Data::Union => None,
    }
}

/// The items of a `#[magic_map(..)]` argument list from `p`, with `cur`
/// the export name set so far: the last `export` wins.
pub open spec fn attr_items(b: Seq<Tok>, p: int, cur: Option<Seq<char>>) -> Result<Option<Seq<char>>, DeriveError>
    decreases b.len() - p,
{
    if p < 0 || p >= b.len() {
        Ok(cur)
    } else if !is_ident(b[p]) {
        Err(DeriveError::MalformedAttr)
    } else if !is_word(b[p], "export"@) || (p + 1 < b.len() && is_joint_punct(b[p + 1], ':')) {
        Err(DeriveError::ExpectedExport)
    } else if !(p + 2 < b.len() && is_punct(b[p + 1], '=') && b[p + 2] is Lit) {
        Err(DeriveError::MalformedAttr)
    } else {
        match lit_str_text(b[p + 2]->Lit_text@) {
            None => Err(DeriveError::MalformedAttr),
            Some(v) => if p + 3 == b.len() {
                Ok(Some(v))
            } else if !is_punct(b[p + 3], ',') {
                Err(DeriveError::MalformedAttr)
            } else {
                attr_items(b, p + 4, Some(v))
            },
        }
    }
}

/// The export name override the first `n` attributes set.
pub open spec fn export_upto(attrs: Seq<Attr>, n: int) -> Result<Option<Seq<char>>, DeriveError>
    decreases n,
{
    if n <= 0 {
        Ok(None)
    } else {
        match export_upto(attrs, n - 1) {
            Err(e) => Err(e),
            Ok(cur) => if !path_is(attrs[n - 1].path, "magic_map"@) {
                Ok(cur)
            } else {
                match attrs[n - 1].list {
                    None => Err(DeriveError::MalformedAttr),
                    Some(body) => attr_items(body@, 0, cur),
                }
            },
        }
    }
}

/// A refused attribute refuses the whole list.
proof fn lemma_export_err_sticks(attrs: Seq<Attr>, i: int, n: int, e: DeriveError)
    requires
        0 <= i <= n,
        export_upto(attrs, i) == Err::<Option<Seq<char>>, DeriveError>(e),
    ensures
        export_upto(attrs, n) == Err::<Option<Seq<char>>, DeriveError>(e),
    decreases n - i,
{
    if i < n {
        lemma_export_err_sticks(attrs, i, n - 1, e);
    }
}

pub open spec fn opt_view(o: Option<String>) -> Option<Seq<char>> {
    match o {
        Some(s) => Some(s@),
        None => None,
    }
}

pub open spec fn export_name(name: Seq<char>, over: Option<Seq<char>>) -> Seq<char> {
    "__magic_map_export_schema_"@ + match over {
        Some(u) => u,
        None => unraw(name),
    }
}

pub struct SchemaDeclV {
    pub shape: ShapeV,
    pub export_name: Seq<char>,
    pub schema_name: Seq<char>,
}

/// What the derive emits for a type.
pub open spec fn derive_spec(inp: &DeriveInput) -> Result<Option<SchemaDeclV>, DeriveError> {
    derive_parts_spec(inp.name@, inp.data, inp.attrs@)
}

/// What the derive emits for a type with this name, body and attributes.
pub open spec fn derive_parts_spec(name: Seq<char>, data: Data, attrs: Seq<Attr>) -> Result<Option<SchemaDeclV>, DeriveError> {
    match shape_of(data) {
        None => Ok(None),
        Some(sh) => match export_upto(attrs, attrs.len() as int) {
            Err(e) => Err(e),
            Ok(over) => Ok(Some(SchemaDeclV {
                shape: sh,
                export_name: export_name(name, over),
                schema_name: schema_name(name),
            })),
        },
    }
}

pub open spec fn decl_view(r: Result<Option<SchemaDecl>, DeriveError>) -> Result<Option<SchemaDeclV>, DeriveError> {
    match r {
        Ok(Some(d)) => Ok(Some(SchemaDeclV { shape: d.shape@, export_name: d.export_name@, schema_name: d.schema_name@ })),
        Ok(None) => Ok(None),
        Err(e) => Err(e),
    }
}

// ── the implementation ───────────────────────────────────────────────────────

fn clone_names(v: &Vec<String>) -> (r: Vec<String>)
    ensures
        names_of(r@) == names_of(v@),
{
    let mut r: Vec<String> = Vec::new();
    let mut i: usize = 0;
    while i < v.len()
        invariant
            i <= v@.len(),
            r@.len() == i,
            forall|k: int| 0 <= k < i ==> (#[trigger] r@[k])@ == v@[k]@,
        decreases v@.len() - i,
    {
        r.push(v[i].clone());
        i += 1;
    }
    assert(names_of(r@) =~= names_of(v@));
    r
}

/// The path is the single identifier `w`, with no leading `::`.
fn path_is_word(p: &AttrPath, w: &str) -> (r: bool)
    ensures
        r == path_is(*p, w@),
{
    !p.global && p.segments.len() == 1 && eq_lit(&p.segments[0], w)
}

fn has_default(v: &Vec<AttrPath>) -> (r: bool)
    ensures
        r == declares_default(v@),
{
    let mut i: usize = 0;
    while i < v.len()
        invariant
            i <= v.len(),
            forall|k: int| 0 <= k < i ==> !path_is(#[trigger] v@[k], "default"@),
        decreases v.len() - i,
    {
        if path_is_word(&v[i], "default") {
            return true;
        }
        i += 1;
    }
    false
}

/// The names of the fields that declare their own default.
fn declared_fields(ns: &Vec<String>, paths: &Vec<Vec<AttrPath>>) -> (r: Vec<String>)
    ensures
        names_of(r@) == defaulted_names(names_of(ns@), paths@),
{
    let mut r: Vec<String> = Vec::new();
    let mut i: usize = 0;
    while i < ns.len()
        invariant
            i <= ns@.len(),
            names_of(r@) == defaulted_names(names_of(ns@).take(i as int), paths@),
        decreases ns@.len() - i,
    {
        let ghost all = names_of(ns@);
        assert(all.take(i + 1).drop_last() =~= all.take(i as int));
        assert(all.take(i + 1).last() == ns@[i as int]@);
        if i < paths.len() && has_default(&paths[i]) {
            let ghost before = names_of(r@);
            r.push(ns[i].clone());
            assert(names_of(r@) =~= before.push(ns@[i as int]@));
        }
        i += 1;
    }
    assert(names_of(ns@).take(ns@.len() as int) =~= names_of(ns@));
    r
}

#[verifier::loop_isolation(false)]
fn read_shape_of(d: &Data) -> (r: Option<Shape>)
    ensures
        match r {
            Some(sh) => shape_of(*d) == Some(sh@),
            None => shape_of(*d) is None,
        },
{
    match d {
        Data::Struct(Fields::Named(ns, fl)) => Some(Shape { is_enum: false, names: clone_names(ns), declared: declared_fields(ns, fl) }),
        Data::Struct(_) => None,
        Data::Enum(vs) => {
            let mut names: Vec<String> = Vec::new();
            let mut i: usize = 0;
            while i < vs.len()
                invariant
                    i <= vs@.len(),
                    forall|j: int| 0 <= j < i ==> (#[trigger] vs@[j]).unit,
                    names@.len() == i,
                    forall|k: int| 0 <= k < i ==> (#[trigger] names@[k])@ == vs@[k].name@,
                decreases vs@.len() - i,
            {
                if !vs[i].unit {
                    return None;
                }
                names.push(vs[i].name.clone());
                i += 1;
            }
            assert(names_of(names@) =~= vs@.map_values(|v: Variant| v.name@));
            let declared: Vec<String> = Vec::new();
            assert(names_of(declared@) =~= Seq::<Seq<char>>::empty());
            Some(Shape { is_enum: true, names, declared })
        },
        Data::Union => None,
    }
}

#[verifier::loop_isolation(false)]
fn read_attr_items(b: &Vec<Tok>, init: Option<String>) -> (r: Result<Option<String>, DeriveError>)
    ensures
        match r {
            Ok(v) => attr_items(b@, 0, opt_view(init)) == Ok::<Option<Seq<char>>, DeriveError>(opt_view(v)),
            Err(e) => attr_items(b@, 0, opt_view(init)) == Err::<Option<Seq<char>>, DeriveError>(e),
        },
{
    let ghost start = opt_view(init);
    let mut cur = init;
    let n = b.len();
    let mut p: usize = 0;
    loop
        invariant
            n == b@.len(),
            p <= n,
            attr_items(b@, 0, start) == attr_items(b@, p as int, opt_view(cur)),
        decreases n - p,
    {
        if p == n {
            return Ok(cur);
        }
        let is_id = match &b[p] {
            Tok::Ident { .. } => true,
            _ => false,
        };
        if !is_id {
            return Err(DeriveError::MalformedAttr);
        }
        if !word_is(&b[p], "export") || (n - p > 1 && joint_punct_is(&b[p + 1], ':')) {
            return Err(DeriveError::ExpectedExport);
        }
        if !(n - p > 2 && punct_is(&b[p + 1], '=')) {
            return Err(DeriveError::MalformedAttr);
        }
        let text = match &b[p + 2] {
            Tok::Lit { text, .. } => text,
            _ => {
                return Err(DeriveError::MalformedAttr);
            },
        };
        let v = match lit_str(text.as_str()) {
            Some(v) => v,
            None => {
                return Err(DeriveError::MalformedAttr);
            },
        };
        if n - p == 3 {
            return Ok(Some(v));
        }
        if !punct_is(&b[p + 3], ',') {
            return Err(DeriveError::MalformedAttr);
        }
        cur = Some(v);
        p = p + 4;
    }
}

/// Plans what `#[derive(MagicMap)]` emits for a type.
#[verifier::loop_isolation(false)]
pub fn derive(inp: &DeriveInput) -> (r: Result<Option<SchemaDecl>, DeriveError>)
    ensures
        decl_view(r) == derive_spec(inp),
{
    let shape = match read_shape_of(&inp.data) {
        Some(sh) => sh,
        None => {
            return Ok(None);
        },
    };
    let mut over: Option<String> = None;
    let mut i: usize = 0;
    while i < inp.attrs.len()
        invariant
            i <= inp.attrs@.len(),
            export_upto(inp.attrs@, i as int) == Ok::<Option<Seq<char>>, DeriveError>(
                opt_view(over)),
        decreases inp.attrs@.len() - i,
    {
        let a = &inp.attrs[i];
        if path_is_word(&a.path, "magic_map") {
            match &a.list {
                None => {
                    proof {
                        lemma_export_err_sticks(inp.attrs@, i + 1, inp.attrs@.len() as int, DeriveError::MalformedAttr);
                    }
                    return Err(DeriveError::MalformedAttr);
                },
                Some(body) => {
                    match read_attr_items(body, over) {
                        Ok(v) => {
                            over = v;
                        },
                        Err(e) => {
                            proof {
                                lemma_export_err_sticks(inp.attrs@, i + 1, inp.attrs@.len() as int, e);
                            }
                            return Err(e);
                        },
                    }
                },
            }
        }
        i += 1;
    }
    let base = String::from_str("__magic_map_export_schema_");
    let export_name = match &over {
        Some(u) => base.concat(u.as_str()),
        None => {
            let plain = unraw_text(&inp.name);
            base.concat(plain.as_str())
        },
    };
    let schema_name = schema_name_of(&inp.name);
    Ok(Some(SchemaDecl { shape, export_name, schema_name }))
}

} // verus!
