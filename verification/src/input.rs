//! Reading a `magic_map!` declaration and the expander's input grammar
//! from token trees.
//!
//! Expander input, one pass:
//!
//! ```text
//! ( @struct|@enum [fields] @for(idx) )*  collected source element schemas
//! @struct|@enum [fields]                 destination schema (`*name` marks a
//!                                        field that declares its own default)
//! [@infallible] @impl | @fn(vis name)
//! @src(Type) @dest(Path) @overrides{ let ..; field: expr, Src => Dest, ..AnyDefault | ..DeclaredDefaults | ..Default::default() }
//! ```
use vstd::prelude::*;
use vstd::string::StrSliceExecFns;
use crate::seqs::names_of;
use crate::expand::{Collected, Element, ExpandInput, ExpandV, FnSig, Override, Rename, SrcKind, SrcKindV, src_kind_view};
use crate::shape::{Shape, ShapeV};
use crate::tokens::{eq_lit, 
    Delim, SpanV, Tok, TokSpan, group_body, ident_text, is_group, is_ident, is_plain_ident, is_punct,
    is_word, is_joint_punct, render_seq, render, punct_is, joint_punct_is, word_is, plain_ident,
    group_is, ident_string, char_string,
};
use crate::rust_syntax::{
    lit_usize_value, parses_as_expr, parses_as_path, parses_as_stmt, parses_as_type,
    parses_as_visibility, is_expr, is_path, is_stmt, is_type, is_visibility, lit_usize,
};

verus! {

/// Why a token stream is not a declaration.
#[derive(Debug, PartialEq, Eq, Structural, Clone, Copy)]
pub enum SyntaxError {
    /// Expected `@struct [names]` or `@enum [names]`.
    Shape,
    /// A malformed `@for(idx)` tag.
    ForIndex,
    /// Expected `@impl` or `@fn(vis name)`.
    Mode,
    /// Expected `@src(..)`, `@dest(..)` or `@overrides{..}`.
    Section,
    /// The source is not a type.
    SrcType,
    /// The destination is not a path.
    DestPath,
    /// Tokens after the end of the declaration.
    Trailing,
    /// A `let` binding that is not one statement ending in `;`.
    LetStmt,
    /// A `..` trailer other than `..Default::default()`, `..AnyDefault` or
    /// `..DeclaredDefaults`.
    OnlyDefaultTrailer,
    /// Something after the defaults trailer.
    TrailerNotLast,
    /// Expected a field or variant name.
    Field,
    /// Expected `:` or `=>` after a name.
    Colon,
    /// Expected an expression.
    Expr,
    /// Expected a destination variant name after `=>`.
    Variant,
    /// Expected `fn name:` after a visibility.
    FnHeader,
    /// Expected `=>` between source and destination.
    Arrow,
    /// The source is neither a type path, a borrowed type path, nor a non-empty tuple of types.
    SourceShape,
}

// ── name lists ───────────────────────────────────────────────────────────────

/// `name, *name, ...` with an optional trailing comma: the names, and those
/// of them marked `*` (fields that declare their own default).
pub open spec fn field_list(b: Seq<Tok>) -> Option<(Seq<Seq<char>>, Seq<Seq<char>>)>
    decreases b.len(),
{
    if b.len() == 0 {
        Some((Seq::empty(), Seq::empty()))
    } else {
        let star = is_punct(b[0], '*');
        let k: int = if star { 1 } else { 0 };
        if !(k < b.len() && is_plain_ident(b[k])) {
            None
        } else {
            let n = ident_text(b[k]);
            let d: Seq<Seq<char>> = if star { seq![n] } else { Seq::empty() };
            if b.len() == k + 1 {
                Some((seq![n], d))
            } else if !is_punct(b[k + 1], ',') {
                None
            } else {
                match field_list(b.skip(k + 2)) {
                    Some((ns, ds)) => Some((seq![n] + ns, d + ds)),
                    None => None,
                }
            }
        }
    }
}

pub fn parse_field_list(b: &Vec<Tok>) -> (r: Option<(Vec<String>, Vec<String>)>)
    ensures
        match r {
            Some((v, d)) => field_list(b@) == Some((names_of(v@), names_of(d@))),
            None => field_list(b@) is None,
        },
{
    let mut names: Vec<String> = Vec::new();
    let mut declared: Vec<String> = Vec::new();
    let mut i: usize = 0;
    assert(b@.skip(0) =~= b@);
    loop
        invariant
            i <= b@.len(),
            match field_list(b@.skip(i as int)) {
                Some((ns, ds)) => field_list(b@) == Some((names_of(names@) + ns, names_of(declared@) + ds)),
                None => field_list(b@) is None,
            },
        decreases b@.len() - i,
    {
        let ghost rest = b@.skip(i as int);
        if i == b.len() {
            assert(rest =~= Seq::<Tok>::empty());
            assert(names_of(names@) + Seq::<Seq<char>>::empty() =~= names_of(names@));
            assert(names_of(declared@) + Seq::<Seq<char>>::empty() =~= names_of(declared@));
            return Some((names, declared));
        }
        assert(rest[0] == b@[i as int]);
        let star = punct_is(&b[i], '*');
        let k: usize = if star { i + 1 } else { i };
        if !(k < b.len() && plain_ident(&b[k])) {
            assert(k < b.len() ==> rest[k - i] == b@[k as int]);
            return None;
        }
        assert(rest[k - i] == b@[k as int]);
        let name = ident_string(&b[k]);
        let ghost n = name@;
        let ghost d: Seq<Seq<char>> = if star { seq![n] } else { Seq::empty() };
        let ghost before_n = names_of(names@);
        let ghost before_d = names_of(declared@);
        if star {
            declared.push(name.clone());
        }
        names.push(name);
        assert(names_of(names@) =~= before_n + seq![n]);
        assert(names_of(declared@) =~= before_d + d);
        if k + 1 == b.len() {
            assert(rest.len() == k - i + 1);
            proof {
                assert(field_list(rest) == Some((seq![n], d)));
            }
            return Some((names, declared));
        }
        assert(rest[k - i + 1] == b@[k + 1]);
        if !punct_is(&b[k + 1], ',') {
            return None;
        }
        proof {
            assert(rest.skip(k - i + 2) =~= b@.skip(k + 2));
            match field_list(b@.skip(k + 2)) {
                Some((ns, ds)) => {
                    assert(field_list(rest) == Some((seq![n] + ns, d + ds)));
                    assert(before_n + (seq![n] + ns) =~= names_of(names@) + ns);
                    assert(before_d + (d + ds) =~= names_of(declared@) + ds);
                },
                None => {
                    assert(field_list(rest) is None);
                },
            }
        }
        i = k + 2;
    }
}

// ── the expander grammar, as a specification ─────────────────────────────────

/// `@kind [fields]` at position `p`: `kind` is any identifier, keywords
/// included; the schema is an enum's exactly when `kind` is `enum`.
pub open spec fn shape_at(t: Seq<Tok>, p: int) -> Option<ShapeV> {
    if 0 <= p && p + 3 <= t.len() && is_punct(t[p], '@') && is_ident(t[p + 1]) && is_group(t[p + 2], Delim::Bracket) {
        match field_list(group_body(t[p + 2])) {
            Some((ns, ds)) => Some(ShapeV { is_enum: ident_text(t[p + 1]) == "enum"@, names: ns, declared: ds }),
            None => None,
        }
    } else {
        None
    }
}

/// `@for` at position `q`.
pub open spec fn is_for_tag(t: Seq<Tok>, q: int) -> bool {
    0 <= q && q + 2 <= t.len() && is_punct(t[q], '@') && is_word(t[q + 1], "for"@)
}

/// The element position of `@for(idx)` at `q`.
pub open spec fn for_index(t: Seq<Tok>, q: int) -> Option<usize> {
    if 0 <= q && q + 3 <= t.len() && is_group(t[q + 2], Delim::Paren) && group_body(t[q + 2]).len() == 1
        && group_body(t[q + 2])[0] is Lit {
        lit_usize_value(group_body(t[q + 2])[0]->Lit_text@)
    } else {
        None
    }
}

/// The leading schemas from `p`: the tagged source element schemas, the
/// destination schema, and the position after it.
pub open spec fn shapes_from(t: Seq<Tok>, p: int) -> Result<(Seq<(usize, ShapeV)>, ShapeV, int), SyntaxError>
    decreases t.len() - p,
{
    match shape_at(t, p) {
        None => Err(SyntaxError::Shape),
        Some(sh) => if is_for_tag(t, p + 3) {
            match for_index(t, p + 3) {
                None => Err(SyntaxError::ForIndex),
                Some(i) => match shapes_from(t, p + 6) {
                    Ok((cs, d, q)) => Ok((seq![(i, sh)] + cs, d, q)),
                    Err(e) => Err(e),
                },
            }
        } else {
            Ok((Seq::empty(), sh, p + 3))
        },
    }
}

/// `@name(..)` (or `@name{..}`) at `p` with a non-keyword `name`.
pub open spec fn section_at(t: Seq<Tok>, p: int, d: Delim) -> bool {
    0 <= p && p + 3 <= t.len() && is_punct(t[p], '@') && is_plain_ident(t[p + 1]) && is_group(t[p + 2], d)
}

/// `vis name` of the function form.
pub open spec fn fn_sig_ok(b: Seq<Tok>) -> bool {
    b.len() >= 1 && is_plain_ident(b.last()) && parses_as_visibility(render_seq(b.drop_last()))
}

/// The first `;` at or after `q`.
pub open spec fn semi_from(b: Seq<Tok>, q: int) -> Option<int>
    decreases b.len() - q,
{
    if q < 0 || q >= b.len() {
        None
    } else if is_punct(b[q], ';') {
        Some(q)
    } else {
        semi_from(b, q + 1)
    }
}

/// Where the expression starting at `s` ends: the first `e` from the
/// starting point on that is the end of the block or a top-level `,` and
/// before which the tokens form a complete expression.
pub open spec fn expr_end(b: Seq<Tok>, s: int, e: int) -> Option<int>
    decreases b.len() + 1 - e,
{
    if e < s || s < 0 || e > b.len() {
        None
    } else if (e == b.len() || is_punct(b[e], ',')) && parses_as_expr(render_seq(b.subrange(s, e))) {
        Some(e)
    } else {
        expr_end(b, s, e + 1)
    }
}

pub proof fn lemma_semi_from(b: Seq<Tok>, q: int)
    ensures
        semi_from(b, q) matches Some(r) ==> q <= r < b.len() && is_punct(b[r], ';')
            && forall|k: int| q <= k < r ==> !is_punct(#[trigger] b[k], ';'),
        semi_from(b, q) is None && q >= 0 ==> forall|k: int| q <= k < b.len() ==> !is_punct(#[trigger] b[k], ';'),
    decreases b.len() - q,
{
    if 0 <= q < b.len() && !is_punct(b[q], ';') {
        lemma_semi_from(b, q + 1);
    }
}

pub proof fn lemma_expr_end(b: Seq<Tok>, s: int, e: int)
    ensures
        expr_end(b, s, e) matches Some(x) ==> 0 <= s <= e <= x <= b.len()
            && (x == b.len() || is_punct(b[x], ','))
            && parses_as_expr(render_seq(b.subrange(s, x)))
            && forall|k: int| e <= k < x && (#[trigger] is_punct(b[k], ',')) ==> !parses_as_expr(render_seq(b.subrange(s, k))),
    decreases b.len() + 1 - e,
{
    if 0 <= s <= e <= b.len() {
        if !((e == b.len() || is_punct(b[e], ',')) && parses_as_expr(render_seq(b.subrange(s, e)))) {
            lemma_expr_end(b, s, e + 1);
        }
    }
}

/// `text` without its spaces.
pub open spec fn strip_spaces(text: Seq<char>) -> Seq<char>
    decreases text.len(),
{
    if text.len() == 0 {
        Seq::empty()
    } else if text.last() == ' ' {
        strip_spaces(text.drop_last())
    } else {
        strip_spaces(text.drop_last()).push(text.last())
    }
}

/// A trailer under which any field may fall back to the destination's
/// `Default`: `..Default::default()`, or its newer spelling `..AnyDefault`.
pub open spec fn any_default_trailer(text: Seq<char>) -> bool {
    text == "Default::default()"@ || text == "AnyDefault"@
}

/// A defaults trailer: any default, or `..DeclaredDefaults`, under which
/// only fields that declare their own default may be left out.
pub open spec fn defaults_trailer(text: Seq<char>) -> bool {
    any_default_trailer(text) || text == "DeclaredDefaults"@
}

/// The items of an override block, from `p` on.
pub struct OverridesV {
    /// `field: expr`, with the expression's token range.
    pub overrides: Seq<(Seq<char>, int, int)>,
    /// `let ..;`, with the statement's token range (`;` included).
    pub lets: Seq<(int, int)>,
    /// `SrcVariant => DestVariant`.
    pub renames: Seq<(Seq<char>, Seq<char>)>,
    /// A defaults trailer (`..Default::default()`, `..AnyDefault` or
    /// `..DeclaredDefaults`).
    pub defaults: bool,
    /// The trailer is `..DeclaredDefaults`: only fields that declare their
    /// own default may be left out.
    pub declared: bool,
}

pub open spec fn no_items() -> OverridesV {
    OverridesV { overrides: Seq::empty(), lets: Seq::empty(), renames: Seq::empty(), defaults: false, declared: false }
}

pub open spec fn with_override(o: (Seq<char>, int, int), r: Result<OverridesV, SyntaxError>) -> Result<OverridesV, SyntaxError> {
    match r {
        Ok(v) => Ok(OverridesV { overrides: seq![o] + v.overrides, ..v }),
        Err(e) => Err(e),
    }
}

pub open spec fn with_let(l: (int, int), r: Result<OverridesV, SyntaxError>) -> Result<OverridesV, SyntaxError> {
    match r {
        Ok(v) => Ok(OverridesV { lets: seq![l] + v.lets, ..v }),
        Err(e) => Err(e),
    }
}

pub open spec fn with_rename(n: (Seq<char>, Seq<char>), r: Result<OverridesV, SyntaxError>) -> Result<OverridesV, SyntaxError> {
    match r {
        Ok(v) => Ok(OverridesV { renames: seq![n] + v.renames, ..v }),
        Err(e) => Err(e),
    }
}

/// An override block read from position `p`.
pub open spec fn overrides_from(b: Seq<Tok>, p: int) -> Result<OverridesV, SyntaxError>
    decreases b.len() - p,
{
    if p < 0 || p >= b.len() {
        Ok(no_items())
    } else if is_word(b[p], "let"@) {
        match semi_from(b, p) {
            None => Err(SyntaxError::LetStmt),
            Some(q) => if !parses_as_stmt(render_seq(b.subrange(p, q + 1))) {
                Err(SyntaxError::LetStmt)
            } else {
                proof {
                    lemma_semi_from(b, p);
                }
                with_let((p, q + 1), overrides_from(b, q + 1))
            },
        }
    } else if p + 1 < b.len() && is_joint_punct(b[p], '.') && is_punct(b[p + 1], '.') {
        match expr_end(b, p + 2, p + 2) {
            None => Err(SyntaxError::Expr),
            Some(e) => if !defaults_trailer(strip_spaces(render_seq(b.subrange(p + 2, e)))) {
                Err(SyntaxError::OnlyDefaultTrailer)
            } else if e != b.len() {
                Err(SyntaxError::TrailerNotLast)
            } else {
                Ok(
                    OverridesV {
                        defaults: true,
                        declared: strip_spaces(render_seq(b.subrange(p + 2, e))) == "DeclaredDefaults"@,
                        ..no_items()
                    },
                )
            },
        }
    } else if !is_plain_ident(b[p]) {
        Err(SyntaxError::Field)
    } else if p + 2 < b.len() && is_joint_punct(b[p + 1], '=') && is_punct(b[p + 2], '>') {
        if !(p + 3 < b.len() && is_plain_ident(b[p + 3])) {
            Err(SyntaxError::Variant)
        } else {
            let n = (ident_text(b[p]), ident_text(b[p + 3]));
            if p + 4 == b.len() {
                Ok(OverridesV { renames: seq![n], ..no_items() })
            } else if !is_punct(b[p + 4], ',') {
                Err(SyntaxError::Colon)
            } else {
                with_rename(n, overrides_from(b, p + 5))
            }
        }
    } else if !(p + 1 < b.len() && is_punct(b[p + 1], ':')) {
        Err(SyntaxError::Colon)
    } else {
        match expr_end(b, p + 2, p + 2) {
            None => Err(SyntaxError::Expr),
            Some(e) => {
                let o = (ident_text(b[p]), p + 2, e);
                if e == b.len() {
                    Ok(OverridesV { overrides: seq![o], ..no_items() })
                } else {
                    proof {
                        lemma_expr_end(b, p + 2, p + 2);
                    }
                    with_override(o, overrides_from(b, e + 1))
                }
            },
        }
    }
}


// ── source classification ────────────────────────────────────────────────────

/// How angle-bracket nesting changes at token `k` (`->` is an arrow).
pub open spec fn angle_delta(g: Seq<Tok>, k: int) -> int {
    if is_punct(g[k], '<') {
        1
    } else if is_punct(g[k], '>') && !(k > 0 && is_joint_punct(g[k - 1], '-')) {
        -1
    } else {
        0
    }
}

/// Angle-bracket nesting before token `i`.
pub open spec fn angle_depth(g: Seq<Tok>, i: int) -> int
    decreases i,
{
    if i <= 0 {
        0
    } else {
        angle_depth(g, i - 1) + angle_delta(g, i - 1)
    }
}

/// A `,` outside generic arguments.
pub open spec fn top_comma(g: Seq<Tok>, i: int) -> bool {
    is_punct(g[i], ',') && angle_depth(g, i) == 0
}

/// Whether a top-level `,` occurs at or after `i`.
pub open spec fn comma_from(g: Seq<Tok>, i: int) -> bool
    decreases g.len() - i,
{
    if i < 0 || i >= g.len() {
        false
    } else {
        top_comma(g, i) || comma_from(g, i + 1)
    }
}

/// The element ranges of a tuple body, scanning from `i` with the current
/// element starting at `s`; a trailing comma closes the last element.
pub open spec fn runs_from(g: Seq<Tok>, s: int, i: int) -> Seq<(int, int)>
    decreases g.len() - i,
{
    if i < 0 || i >= g.len() {
        if s < g.len() {
            seq![(s, g.len() as int)]
        } else {
            Seq::empty()
        }
    } else if top_comma(g, i) {
        seq![(s, i)] + runs_from(g, i + 1, i + 1)
    } else {
        runs_from(g, s, i + 1)
    }
}

/// A parenthesized type is a tuple when empty or when it has a top-level comma.
pub open spec fn is_tuple_body(g: Seq<Tok>) -> bool {
    g.len() == 0 || comma_from(g, 0)
}

pub open spec fn is_segment(t: Tok) -> bool {
    is_ident(t) && ident_text(t) != "_"@
}

/// `ident (:: ident)*` from `i` to the end.
pub open spec fn segments_from(s: Seq<Tok>, i: int) -> bool
    decreases s.len() - i,
{
    0 <= i < s.len() && is_segment(s[i]) && (i + 1 == s.len() || (i + 3 < s.len()
        && is_joint_punct(s[i + 1], ':') && is_punct(s[i + 2], ':') && segments_from(s, i + 3)))
}

/// A type path with no generic arguments and no qualified self.
pub open spec fn is_plain_path(s: Seq<Tok>) -> bool {
    if s.len() >= 2 && is_joint_punct(s[0], ':') && is_punct(s[1], ':') {
        segments_from(s, 2)
    } else {
        segments_from(s, 0)
    }
}

/// The built-in leaf types a tuple never opens.
pub open spec fn is_leaf_name(w: Seq<char>) -> bool {
    ||| w == "bool"@ ||| w == "char"@ ||| w == "i8"@ ||| w == "i16"@ ||| w == "i32"@
    ||| w == "i64"@ ||| w == "i128"@ ||| w == "isize"@ ||| w == "u8"@ ||| w == "u16"@
    ||| w == "u32"@ ||| w == "u64"@ ||| w == "u128"@ ||| w == "usize"@ ||| w == "f32"@
    ||| w == "f64"@ ||| w == "String"@ ||| w == "Uuid"@ ||| w == "Decimal"@
    ||| w == "NaiveDate"@ ||| w == "NaiveDateTime"@ ||| w == "NaiveTime"@ ||| w == "Value"@
}

/// An OPEN type: a plain non-generic path that is not a known leaf. Its
/// fields join the auto-match, so it must carry a schema. Everything else
/// (leaves, generic types, references, nested tuples) is opaque.
pub open spec fn is_open(s: Seq<Tok>) -> bool {
    is_plain_path(s) && !is_leaf_name(ident_text(s.last()))
}

/// The classification of a source type whose tokens sit in the group at
/// top-level position `g`.
pub open spec fn src_kind_of(sb: Seq<Tok>, g: usize) -> SrcKindV {
    if sb.len() == 1 && is_group(sb[0], Delim::Paren) && is_tuple_body(group_body(sb[0])) {
        let body = group_body(sb[0]);
        SrcKindV::Tuple(
            runs_from(body, 0, 0).map_values(
                |r: (int, int)| (SpanV { group: seq![g, 0usize], start: r.0, end: r.1 }, is_open(body.subrange(r.0, r.1))),
            ),
        )
    } else {
        SrcKindV::Single(is_open(sb))
    }
}

// ── the whole expander input ─────────────────────────────────────────────────

pub open spec fn span_in(g: Seq<usize>, s: int, e: int) -> SpanV {
    SpanV { group: g, start: s, end: e }
}

/// Whether an `@infallible` marker stands at `p`.
pub open spec fn infallible_at(t: Seq<Tok>, p: int) -> bool {
    0 <= p && p + 2 <= t.len() && is_punct(t[p], '@') && is_word(t[p + 1], "infallible"@)
}

pub open spec fn expand_input(t: Seq<Tok>) -> Result<ExpandV, SyntaxError> {
    match shapes_from(t, 0) {
        Err(e) => Err(e),
        Ok((cs, dest, p0)) => {
        let inf = infallible_at(t, p0);
        let p = if inf { p0 + 2 } else { p0 };
        if !(p + 2 <= t.len() && is_punct(t[p], '@') && is_ident(t[p + 1])) {
            Err(SyntaxError::Mode)
        } else {
            let is_fn = is_word(t[p + 1], "fn"@);
            if is_fn && !(p + 3 <= t.len() && is_group(t[p + 2], Delim::Paren) && fn_sig_ok(group_body(t[p + 2]))) {
                Err(SyntaxError::Mode)
            } else {
                let q = if is_fn { p + 3 } else { p + 2 };
                if !section_at(t, q, Delim::Paren) {
                    Err(SyntaxError::Section)
                } else if !parses_as_type(render_seq(group_body(t[q + 2]))) {
                    Err(SyntaxError::SrcType)
                } else if !section_at(t, q + 3, Delim::Paren) {
                    Err(SyntaxError::Section)
                } else if !parses_as_path(render_seq(group_body(t[q + 5]))) {
                    Err(SyntaxError::DestPath)
                } else if !section_at(t, q + 6, Delim::Brace) {
                    Err(SyntaxError::Section)
                } else {
                    match overrides_from(group_body(t[q + 8]), 0) {
                        Err(e) => Err(e),
                        Ok(ov) => if q + 9 != t.len() {
                            Err(SyntaxError::Trailing)
                        } else {
                            let og = seq![(q + 8) as usize];
                            let fb = group_body(t[p + 2]);
                            Ok(ExpandV {
                                collected: cs,
                                dest_shape: dest,
                                func: if is_fn {
                                    Some((span_in(seq![(p + 2) as usize], 0, fb.len() - 1), ident_text(fb.last())))
                                } else {
                                    None
                                },
                                src: span_in(seq![(q + 2) as usize], 0, group_body(t[q + 2]).len() as int),
                                src_kind: src_kind_of(group_body(t[q + 2]), (q + 2) as usize),
                                dest: span_in(seq![(q + 5) as usize], 0, group_body(t[q + 5]).len() as int),
                                overrides: ov.overrides.map_values(|o: (Seq<char>, int, int)| (o.0, span_in(og, o.1, o.2))),
                                lets: ov.lets.map_values(|l: (int, int)| span_in(og, l.0, l.1)),
                                renames: ov.renames,
                                defaults: ov.defaults,
                                declared: ov.declared,
                                infallible: inf,
                            })
                        },
                    }
                }
            }
        }
        },
    }
}


/// Where an accepted input's source type sits: the group at top-level
/// position `g`, whose body is classified.
pub proof fn lemma_src_group(t: Seq<Tok>) -> (g: usize)
    requires
        expand_input(t) is Ok,
        t.len() <= usize::MAX,
    ensures
        g < t.len(),
        expand_input(t)->Ok_0.src.group == seq![g],
        expand_input(t)->Ok_0.src_kind == src_kind_of(group_body(t[g as int]), g),
{
    let (cs, dest, p0) = shapes_from(t, 0)->Ok_0;
    let inf = infallible_at(t, p0);
    let p = if inf { p0 + 2 } else { p0 };
    let is_fn = is_word(t[p + 1], "fn"@);
    let q = if is_fn { p + 3 } else { p + 2 };
    assert(section_at(t, q, Delim::Paren));
    assert(q + 9 == t.len());
    let g = (q + 2) as usize;
    assert(g as int == q + 2);
    g
}

// ── reading the expander input ───────────────────────────────────────────────

/// The body of a group with delimiter `d`.
fn group_with(t: &Tok, d: Delim) -> (r: Option<&Vec<Tok>>)
    ensures
        r is Some <==> is_group(*t, d),
        r matches Some(b) ==> b@ == group_body(*t),
{
    match t {
        Tok::Group { delim, body, .. } => if *delim == d {
            Some(body)
        } else {
            None
        },
        _ => None,
    }
}

/// `@kind [names]` at `p`.
fn read_shape(t: &Vec<Tok>, p: usize) -> (r: Option<Shape>)
    ensures
        match r {
            Some(sh) => shape_at(t@, p as int) == Some(sh@),
            None => shape_at(t@, p as int) is None,
        },
{
    if p > t.len() || t.len() - p < 3 {
        return None;
    }
    if !(punct_is(&t[p], '@') && is_ident_tok(&t[p + 1])) {
        return None;
    }
    let body = match group_with(&t[p + 2], Delim::Bracket) {
        Some(b) => b,
        None => {
            return None;
        },
    };
    match parse_field_list(body) {
        Some((names, declared)) => {
            let is_enum = word_is(&t[p + 1], "enum");
            Some(Shape { is_enum, names, declared })
        },
        None => None,
    }
}

pub(crate) fn is_ident_tok(t: &Tok) -> (b: bool)
    ensures
        b == is_ident(*t),
{
    match t {
        Tok::Ident { .. } => true,
        _ => false,
    }
}

fn read_for_tag(t: &Vec<Tok>, q: usize) -> (b: bool)
    ensures
        b == is_for_tag(t@, q as int),
{
    q <= t.len() && t.len() - q >= 2 && punct_is(&t[q], '@') && word_is(&t[q + 1], "for")
}

fn read_for_index(t: &Vec<Tok>, q: usize) -> (r: Option<usize>)
    ensures
        r == for_index(t@, q as int),
{
    if q > t.len() || t.len() - q < 3 {
        return None;
    }
    let body = match group_with(&t[q + 2], Delim::Paren) {
        Some(b) => b,
        None => {
            return None;
        },
    };
    if body.len() != 1 {
        return None;
    }
    match &body[0] {
        Tok::Lit { text, .. } => lit_usize(text.as_str()),
        _ => None,
    }
}

pub open spec fn collected_view(cs: Seq<Collected>) -> Seq<(usize, ShapeV)> {
    cs.map_values(|c: Collected| (c.idx, c.shape@))
}

/// The leading schemas.
fn read_shapes(t: &Vec<Tok>) -> (r: Result<(Vec<Collected>, Shape, usize), SyntaxError>)
    ensures
        match r {
            Ok((cs, d, p)) => shapes_from(t@, 0) == Ok::<_, SyntaxError>((collected_view(cs@), d@, p as int)),
            Err(e) => shapes_from(t@, 0) == Err::<(Seq<(usize, ShapeV)>, ShapeV, int), SyntaxError>(e),
        },
{
    let mut cs: Vec<Collected> = Vec::new();
    let mut p: usize = 0;
    let n = t.len();
    loop
        invariant
            n == t@.len(),
            p <= t@.len(),
            match shapes_from(t@, p as int) {
                Ok((rest, d, q)) => shapes_from(t@, 0) == Ok::<_, SyntaxError>((collected_view(cs@) + rest, d, q)),
                Err(e) => shapes_from(t@, 0) == Err::<(Seq<(usize, ShapeV)>, ShapeV, int), SyntaxError>(e),
            },
        decreases t@.len() - p,
    {
        match read_shape(t, p) {
            None => {
                return Err(SyntaxError::Shape);
            },
            Some(sh) => {
                if read_for_tag(t, p + 3) {
                    match read_for_index(t, p + 3) {
                        None => {
                            return Err(SyntaxError::ForIndex);
                        },
                        Some(i) => {
                            let ghost before = collected_view(cs@);
                            let ghost shv = sh@;
                            cs.push(Collected { idx: i, shape: sh });
                            proof {
                                assert(collected_view(cs@) =~= before.push((i, shv)));
                                match shapes_from(t@, p + 6) {
                                    Ok((rest, d, q)) => {
                                        assert(before + (seq![(i, shv)] + rest) =~= collected_view(cs@) + rest);
                                    },
                                    Err(_) => {},
                                }
                            }
                            p = p + 6;
                        },
                    }
                } else {
                    assert(collected_view(cs@) + Seq::<(usize, ShapeV)>::empty() =~= collected_view(cs@));
                    return Ok((cs, sh, p + 3));
                }
            },
        }
    }
}


/// The first `;` at or after `q`.
fn find_semi(b: &Vec<Tok>, q: usize) -> (r: Option<usize>)
    requires
        q <= b@.len(),
    ensures
        match r {
            Some(x) => semi_from(b@, q as int) == Some(x as int),
            None => semi_from(b@, q as int) is None,
        },
{
    let mut i = q;
    while i < b.len()
        invariant
            q <= i <= b@.len(),
            semi_from(b@, q as int) == semi_from(b@, i as int),
        decreases b@.len() - i,
    {
        if punct_is(&b[i], ';') {
            return Some(i);
        }
        i += 1;
    }
    None
}

/// Where the expression starting at `s` ends.
fn find_expr_end(b: &Vec<Tok>, s: usize) -> (r: Option<usize>)
    requires
        s <= b@.len(),
    ensures
        match r {
            Some(x) => expr_end(b@, s as int, s as int) == Some(x as int),
            None => expr_end(b@, s as int, s as int) is None,
        },
{
    let mut e = s;
    loop
        invariant
            s <= e <= b@.len(),
            expr_end(b@, s as int, s as int) == expr_end(b@, s as int, e as int),
        decreases b@.len() - e,
    {
        let boundary = e == b.len() || punct_is(&b[e], ',');
        if boundary {
            let text = render(b, s, e);
            if is_expr(text.as_str()) {
                return Some(e);
            }
        }
        if e == b.len() {
            return None;
        }
        e += 1;
    }
}

/// Which defaults trailer `text` reads as once its spaces are removed:
/// `Some(true)` for `DeclaredDefaults`, `Some(false)` for any default.
fn trailer_kind(text: &String) -> (r: Option<bool>)
    ensures
        r is Some <==> defaults_trailer(strip_spaces(text@)),
        r == Some(true) <==> strip_spaces(text@) == "DeclaredDefaults"@,
{
    let n = text.as_str().unicode_len();
    let mut out = String::new();
    let mut i: usize = 0;
    while i < n
        invariant
            i <= n,
            n == text@.len(),
            out@ == strip_spaces(text@.take(i as int)),
        decreases n - i,
    {
        let c = text.as_str().get_char(i);
        assert(text@.take(i + 1).drop_last() =~= text@.take(i as int));
        if c != ' ' {
            let one = char_string(c);
            out.append(one.as_str());
        }
        i += 1;
    }
    assert(text@.take(n as int) =~= text@);
    let call = String::from_str("Default::default()");
    let any = String::from_str("AnyDefault");
    let declared = String::from_str("DeclaredDefaults");
    if out == declared {
        proof {
            reveal_strlit("DeclaredDefaults");
            reveal_strlit("Default::default()");
            reveal_strlit("AnyDefault");
        }
        assert("DeclaredDefaults"@ != "Default::default()"@);
        assert("DeclaredDefaults"@ != "AnyDefault"@);
        Some(true)
    } else if out == call || out == any {
        Some(false)
    } else {
        None
    }
}

pub open spec fn overrides_after(acc: OverridesV, r: Result<OverridesV, SyntaxError>) -> Result<OverridesV, SyntaxError> {
    match r {
        Ok(v) => Ok(OverridesV {
            overrides: acc.overrides + v.overrides,
            lets: acc.lets + v.lets,
            renames: acc.renames + v.renames,
            defaults: v.defaults,
            declared: v.declared,
        }),
        Err(e) => Err(e),
    }
}

fn span(g: usize, start: usize, end: usize) -> (r: TokSpan)
    ensures
        r@ == span_in(seq![g], start as int, end as int),
{
    let mut group: Vec<usize> = Vec::new();
    group.push(g);
    assert(group@ =~= seq![g]);
    TokSpan { group, start, end }
}

/// The items read so far, as exec values, match the ghost record.
pub open spec fn items_match(
    acc: OverridesV,
    g: usize,
    ovs: Seq<Override>,
    lets: Seq<TokSpan>,
    rens: Seq<Rename>,
) -> bool {
    &&& ovs.len() == acc.overrides.len()
    &&& forall|i: int| 0 <= i < ovs.len() ==> (#[trigger] ovs[i]).name@ == acc.overrides[i].0
        && ovs[i].expr@ == span_in(seq![g], acc.overrides[i].1, acc.overrides[i].2)
    &&& lets.len() == acc.lets.len()
    &&& forall|i: int| 0 <= i < lets.len() ==> (#[trigger] lets[i])@ == span_in(seq![g], acc.lets[i].0, acc.lets[i].1)
    &&& rens.len() == acc.renames.len()
    &&& forall|i: int| 0 <= i < rens.len() ==> (#[trigger] rens[i]).from@ == acc.renames[i].0
        && rens[i].to@ == acc.renames[i].1
}

/// The items of an override block whose group sits at top-level position `g`.
#[verifier::loop_isolation(false)]
#[verifier::rlimit(40)]
fn read_overrides(b: &Vec<Tok>, g: usize) -> (r: Result<(Vec<Override>, Vec<TokSpan>, Vec<Rename>, bool, bool), SyntaxError>)
    ensures
        match r {
            Ok((ovs, lets, rens, d, dd)) => overrides_from(b@, 0) matches Ok(v) && v.defaults == d && v.declared == dd
                && items_match(v, g, ovs@, lets@, rens@),
            Err(e) => overrides_from(b@, 0) == Err::<OverridesV, SyntaxError>(e),
        },
{
    let mut ovs: Vec<Override> = Vec::new();
    let mut lets: Vec<TokSpan> = Vec::new();
    let mut rens: Vec<Rename> = Vec::new();
    let ghost mut acc = no_items();
    let n = b.len();
    let mut p: usize = 0;
    proof {
        assert(overrides_after(acc, overrides_from(b@, 0)) == overrides_from(b@, 0)) by {
            match overrides_from(b@, 0) {
                Ok(v) => {
                    assert(Seq::<(Seq<char>, int, int)>::empty() + v.overrides =~= v.overrides);
                    assert(Seq::<(int, int)>::empty() + v.lets =~= v.lets);
                    assert(Seq::<(Seq<char>, Seq<char>)>::empty() + v.renames =~= v.renames);
                },
                Err(_) => {},
            }
        }
    }
    loop
        invariant
            n == b@.len(),
            p <= n,
            !acc.defaults,
            !acc.declared,
            items_match(acc, g, ovs@, lets@, rens@),
            overrides_from(b@, 0) == overrides_after(acc, overrides_from(b@, p as int)),
        decreases n - p,
    {
        if p == n {
            proof {
                assert(acc.overrides + Seq::empty() =~= acc.overrides);
                assert(acc.lets + Seq::empty() =~= acc.lets);
                assert(acc.renames + Seq::empty() =~= acc.renames);
                assert(overrides_from(b@, 0) == Ok::<OverridesV, SyntaxError>(acc));
            }
            return Ok((ovs, lets, rens, false, false));
        }
        if word_is(&b[p], "let") {
            match find_semi(b, p) {
                None => {
                    return Err(SyntaxError::LetStmt);
                },
                Some(q) => {
                    proof {
                        lemma_semi_from(b@, p as int);
                    }
                    let text = render(b, p, q + 1);
                    if !is_stmt(text.as_str()) {
                        return Err(SyntaxError::LetStmt);
                    }
                    let l = span(g, p, q + 1);
                    lets.push(l);
                    proof {
                        let old_acc = acc;
                        acc = OverridesV { lets: acc.lets.push((p as int, q + 1)), ..acc };
                        match overrides_from(b@, q + 1) {
                            Ok(v) => {
                                assert(old_acc.lets + (seq![(p as int, q + 1)] + v.lets) =~= acc.lets + v.lets);
                            },
                            Err(_) => {},
                        }
                    }
                    p = q + 1;
                },
            }
        } else if n - p > 1 && joint_punct_is(&b[p], '.') && punct_is(&b[p + 1], '.') {
            match find_expr_end(b, p + 2) {
                None => {
                    return Err(SyntaxError::Expr);
                },
                Some(e) => {
                    proof {
                        lemma_expr_end(b@, p + 2, p + 2);
                    }
                    let text = render(b, p + 2, e);
                    let declared = match trailer_kind(&text) {
                        Some(d) => d,
                        None => {
                            return Err(SyntaxError::OnlyDefaultTrailer);
                        },
                    };
                    if e != n {
                        return Err(SyntaxError::TrailerNotLast);
                    }
                    proof {
                        assert(acc.overrides + Seq::empty() =~= acc.overrides);
                        assert(acc.lets + Seq::empty() =~= acc.lets);
                        assert(acc.renames + Seq::empty() =~= acc.renames);
                        let v = OverridesV { defaults: true, declared, ..acc };
                        assert(overrides_from(b@, 0) == Ok::<OverridesV, SyntaxError>(v));
                        assert(items_match(v, g, ovs@, lets@, rens@));
                    }
                    return Ok((ovs, lets, rens, true, declared));
                },
            }
        } else if !plain_ident(&b[p]) {
            return Err(SyntaxError::Field);
        } else if n - p > 2 && joint_punct_is(&b[p + 1], '=') && punct_is(&b[p + 2], '>') {
            if !(n - p > 3 && plain_ident(&b[p + 3])) {
                return Err(SyntaxError::Variant);
            }
            let from = ident_string(&b[p]);
            let to = ident_string(&b[p + 3]);
            let ghost pair = (from@, to@);
            rens.push(Rename { from, to });
            let ghost old_acc = acc;
            proof {
                acc = OverridesV { renames: acc.renames.push(pair), ..acc };
            }
            if n - p == 4 {
                proof {
                    assert(old_acc.renames + seq![pair] =~= acc.renames);
                    assert(acc.overrides + Seq::empty() =~= acc.overrides);
                    assert(acc.lets + Seq::empty() =~= acc.lets);
                    assert(overrides_from(b@, 0) == Ok::<OverridesV, SyntaxError>(acc));
                }
                return Ok((ovs, lets, rens, false, false));
            }
            if !punct_is(&b[p + 4], ',') {
                return Err(SyntaxError::Colon);
            }
            proof {
                match overrides_from(b@, p + 5) {
                    Ok(v) => {
                        assert(old_acc.renames + (seq![pair] + v.renames) =~= acc.renames + v.renames);
                    },
                    Err(_) => {},
                }
            }
            p = p + 5;
        } else if !(n - p > 1 && punct_is(&b[p + 1], ':')) {
            return Err(SyntaxError::Colon);
        } else {
            match find_expr_end(b, p + 2) {
                None => {
                    return Err(SyntaxError::Expr);
                },
                Some(e) => {
                    proof {
                        lemma_expr_end(b@, p + 2, p + 2);
                    }
                    let name = ident_string(&b[p]);
                    let ghost o = (name@, p + 2, e as int);
                    ovs.push(Override { name, expr: span(g, p + 2, e) });
                    let ghost old_acc = acc;
                    proof {
                        acc = OverridesV { overrides: acc.overrides.push(o), ..acc };
                    }
                    if e == n {
                        proof {
                            assert(old_acc.overrides + seq![o] =~= acc.overrides);
                            assert(acc.lets + Seq::empty() =~= acc.lets);
                            assert(acc.renames + Seq::empty() =~= acc.renames);
                            assert(overrides_from(b@, 0) == Ok::<OverridesV, SyntaxError>(acc));
                        }
                        return Ok((ovs, lets, rens, false, false));
                    }
                    proof {
                        match overrides_from(b@, e + 1) {
                            Ok(v) => {
                                assert(old_acc.overrides + (seq![o] + v.overrides) =~= acc.overrides + v.overrides);
                            },
                            Err(_) => {},
                        }
                    }
                    p = e + 1;
                },
            }
        }
    }
}


fn leaf_name(w: &String) -> (b: bool)
    ensures
        b == is_leaf_name(w@),
{
    eq_lit(w, "bool") || eq_lit(w, "char") || eq_lit(w, "i8") || eq_lit(w, "i16") || eq_lit(w, "i32")
        || eq_lit(w, "i64") || eq_lit(w, "i128") || eq_lit(w, "isize") || eq_lit(w, "u8")
        || eq_lit(w, "u16") || eq_lit(w, "u32") || eq_lit(w, "u64") || eq_lit(w, "u128")
        || eq_lit(w, "usize") || eq_lit(w, "f32") || eq_lit(w, "f64") || eq_lit(w, "String")
        || eq_lit(w, "Uuid") || eq_lit(w, "Decimal") || eq_lit(w, "NaiveDate") || eq_lit(w, "NaiveDateTime")
        || eq_lit(w, "NaiveTime") || eq_lit(w, "Value")
}

fn segment_tok(t: &Tok) -> (b: bool)
    ensures
        b == is_segment(*t),
{
    match t {
        Tok::Ident { name, .. } => !eq_lit(name, "_"),
        _ => false,
    }
}

/// Whether `s[start..end]` is an open type.
fn open_range(s: &Vec<Tok>, start: usize, end: usize) -> (b: bool)
    requires
        start <= end <= s@.len(),
    ensures
        b == is_open(s@.subrange(start as int, end as int)),
{
    let ghost x = s@.subrange(start as int, end as int);
    let len = end - start;
    let mut i: usize = if len >= 2 && joint_punct_is(&s[start], ':') && punct_is(&s[start + 1], ':') {
        2
    } else {
        0
    };
    assert(is_plain_path(x) == segments_from(x, i as int));
    loop
        invariant
            x == s@.subrange(start as int, end as int),
            len == x.len(),
            start + len == end,
            end <= s@.len(),
            i <= len,
            is_plain_path(x) == segments_from(x, i as int),
        decreases len - i,
    {
        if i == len || !segment_tok(&s[start + i]) {
            return false;
        }
        if i + 1 == len {
            let last = match &s[start + i] {
                Tok::Ident { name, .. } => name,
                _ => {
                    return false;
                },
            };
            assert(x.last() == x[i as int]);
            return !leaf_name(last);
        }
        if !(len - i > 3 && joint_punct_is(&s[start + i + 1], ':') && punct_is(&s[start + i + 2], ':')) {
            return false;
        }
        i = i + 3;
    }
}

proof fn lemma_runs_step(g: Seq<Tok>, s: int, i: int)
    requires
        0 <= i < g.len(),
    ensures
        runs_from(g, s, i) == if top_comma(g, i) {
            seq![(s, i)] + runs_from(g, i + 1, i + 1)
        } else {
            runs_from(g, s, i + 1)
        },
{
}

proof fn lemma_comma_from_step(g: Seq<Tok>, i: int)
    requires
        0 <= i < g.len(),
    ensures
        comma_from(g, i) == (top_comma(g, i) || comma_from(g, i + 1)),
{
}

/// The classification of a source type held in the group at top-level
/// position `g`.
#[verifier::loop_isolation(false)]
fn classify_src(sb: &Vec<Tok>, g: usize) -> (r: SrcKind)
    ensures
        src_kind_view(r) == src_kind_of(sb@, g),
{
    if sb.len() == 1 {
        if let Some(body) = group_with(&sb[0], Delim::Paren) {
            // Split the body at top-level commas.
            let n = body.len();
            let ghost bv = body@;
            let mut runs: Vec<(usize, usize)> = Vec::new();
            let mut depth: i128 = 0;
            let mut start: usize = 0;
            let mut i: usize = 0;
            let mut any_comma = false;
            assert(bv == group_body(sb@[0]));
            while i < n
                invariant
                    n == bv.len(),
                    bv == body@,
                    start <= i <= n,
                    depth == angle_depth(bv, i as int),
                    -(i as int) <= depth <= i as int,
                    runs_from(bv, 0, 0) == runs@.map_values(|r: (usize, usize)| (r.0 as int, r.1 as int))
                        + runs_from(bv, start as int, i as int),
                    comma_from(bv, 0) == (any_comma || comma_from(bv, i as int)),
                    forall|k: int| 0 <= k < runs@.len() ==> (#[trigger] runs@[k]).0 <= runs@[k].1 <= i,
                decreases n - i,
            {
                proof {
                    lemma_runs_step(bv, start as int, i as int);
                    lemma_comma_from_step(bv, i as int);
                }
                let top = punct_is(&body[i], ',') && depth == 0;
                let ghost before = runs@.map_values(|r: (usize, usize)| (r.0 as int, r.1 as int));
                if top {
                    runs.push((start, i));
                    any_comma = true;
                    proof {
                        assert(runs@.map_values(|r: (usize, usize)| (r.0 as int, r.1 as int))
                            =~= before.push((start as int, i as int)));
                        assert(before + (seq![(start as int, i as int)] + runs_from(bv, i + 1, i + 1))
                            =~= runs@.map_values(|r: (usize, usize)| (r.0 as int, r.1 as int)) + runs_from(bv, i + 1, i + 1));
                    }
                    start = i + 1;
                }
                if punct_is(&body[i], '<') {
                    depth = depth + 1;
                } else if punct_is(&body[i], '>') && !(i > 0 && joint_punct_is(&body[i - 1], '-')) {
                    depth = depth - 1;
                }
                i += 1;
            }
            if n == 0 || any_comma {
                let ghost before = runs@.map_values(|r: (usize, usize)| (r.0 as int, r.1 as int));
                if start < n {
                    runs.push((start, n));
                    assert(runs@.map_values(|r: (usize, usize)| (r.0 as int, r.1 as int)) =~= before.push((start as int, n as int)));
                } else {
                    assert(before + Seq::<(int, int)>::empty() =~= before);
                }
                let ghost rs = runs_from(bv, 0, 0);
                assert(rs =~= runs@.map_values(|r: (usize, usize)| (r.0 as int, r.1 as int)));
                // One element per run.
                let mut elems: Vec<Element> = Vec::new();
                let mut k: usize = 0;
                while k < runs.len()
                    invariant
                        k <= runs@.len(),
                        rs.len() == runs@.len(),
                        forall|j: int| 0 <= j < runs@.len() ==> (#[trigger] runs@[j]).0 <= runs@[j].1 <= n,
                        elems@.len() == k,
                        forall|j: int| 0 <= j < k ==> (#[trigger] elems@[j]).span@ == span_in(seq![g, 0usize], rs[j].0, rs[j].1)
                            && elems@[j].open == is_open(bv.subrange(rs[j].0, rs[j].1)),
                    decreases runs@.len() - k,
                {
                    let (a, z) = runs[k];
                    let mut group: Vec<usize> = Vec::new();
                    group.push(g);
                    group.push(0);
                    assert(group@ =~= seq![g, 0usize]);
                    let open = open_range(body, a, z);
                    elems.push(Element { span: TokSpan { group, start: a, end: z }, open });
                    k += 1;
                }
                let r = SrcKind::Tuple { elems };
                assert(src_kind_view(r) matches SrcKindV::Tuple(es) && es =~= rs.map_values(
                    |r: (int, int)| (SpanV { group: seq![g, 0usize], start: r.0, end: r.1 }, is_open(bv.subrange(r.0, r.1))),
                ));
                return r;
            }
        }
    }
    let open = open_range(sb, 0, sb.len());
    assert(sb@.subrange(0, sb@.len() as int) =~= sb@);
    SrcKind::Single { open }
}


proof fn lemma_shapes_from_end(t: Seq<Tok>, p: int)
    ensures
        shapes_from(t, p) matches Ok((_, _, q)) ==> p < q <= t.len(),
    decreases t.len() - p,
{
    if let Some(sh) = shape_at(t, p) {
        if is_for_tag(t, p + 3) {
            if let Some(i) = for_index(t, p + 3) {
                lemma_shapes_from_end(t, p + 6);
            }
        }
    }
}

/// `@name(..)` / `@name{..}` at `p`: the group's body.
fn read_section(t: &Vec<Tok>, p: usize, d: Delim) -> (r: Option<&Vec<Tok>>)
    ensures
        r is Some <==> section_at(t@, p as int, d),
        r matches Some(b) ==> b@ == group_body(t@[p + 2]),
{
    if p > t.len() || t.len() - p < 3 || !punct_is(&t[p], '@') || !plain_ident(&t[p + 1]) {
        return None;
    }
    group_with(&t[p + 2], d)
}

/// Reads one pass of expander input.
#[verifier::rlimit(40)]
pub fn parse_expand_input(t: &Vec<Tok>) -> (r: Result<ExpandInput, SyntaxError>)
    ensures
        match r {
            Ok(inp) => expand_input(t@) == Ok::<ExpandV, SyntaxError>(inp@),
            Err(e) => expand_input(t@) == Err::<ExpandV, SyntaxError>(e),
        },
{
    let (collected, dest_shape, p) = match read_shapes(t) {
        Ok(x) => x,
        Err(e) => {
            return Err(e);
        },
    };
    proof {
        lemma_shapes_from_end(t@, 0);
    }
    let n = t.len();
    let infallible = n - p >= 2 && punct_is(&t[p], '@') && word_is(&t[p + 1], "infallible");
    let p = if infallible { p + 2 } else { p };
    if !(n - p >= 2 && punct_is(&t[p], '@') && is_ident_tok(&t[p + 1])) {
        return Err(SyntaxError::Mode);
    }
    let is_fn = word_is(&t[p + 1], "fn");
    let mut func: Option<FnSig> = None;
    let mut q = p + 2;
    if is_fn {
        if n - p < 3 {
            return Err(SyntaxError::Mode);
        }
        let fb = match group_with(&t[p + 2], Delim::Paren) {
            Some(b) => b,
            None => {
                return Err(SyntaxError::Mode);
            },
        };
        if fb.len() == 0 || !plain_ident(&fb[fb.len() - 1]) {
            return Err(SyntaxError::Mode);
        }
        let vis_text = render(fb, 0, fb.len() - 1);
        assert(fb@.subrange(0, fb@.len() - 1) =~= fb@.drop_last());
        if !is_visibility(vis_text.as_str()) {
            return Err(SyntaxError::Mode);
        }
        let name = ident_string(&fb[fb.len() - 1]);
        func = Some(FnSig { vis: span(p + 2, 0, fb.len() - 1), name });
        q = p + 3;
    }
    let sb = match read_section(t, q, Delim::Paren) {
        Some(b) => b,
        None => {
            return Err(SyntaxError::Section);
        },
    };
    let src_text = render(sb, 0, sb.len());
    assert(sb@.subrange(0, sb@.len() as int) =~= sb@);
    if !is_type(src_text.as_str()) {
        return Err(SyntaxError::SrcType);
    }
    let db = match read_section(t, q + 3, Delim::Paren) {
        Some(b) => b,
        None => {
            return Err(SyntaxError::Section);
        },
    };
    let dest_text = render(db, 0, db.len());
    assert(db@.subrange(0, db@.len() as int) =~= db@);
    if !is_path(dest_text.as_str()) {
        return Err(SyntaxError::DestPath);
    }
    let ob = match read_section(t, q + 6, Delim::Brace) {
        Some(b) => b,
        None => {
            return Err(SyntaxError::Section);
        },
    };
    let (overrides, lets, renames, defaults, declared) = match read_overrides(ob, q + 8) {
        Ok(x) => x,
        Err(e) => {
            return Err(e);
        },
    };
    if q + 9 != n {
        return Err(SyntaxError::Trailing);
    }
    let src_kind = classify_src(sb, q + 2);
    let inp = ExpandInput {
        collected,
        dest_shape,
        func,
        src: span(q + 2, 0, sb.len()),
        src_kind,
        dest: span(q + 5, 0, db.len()),
        overrides,
        lets,
        renames,
        defaults,
        declared,
        infallible,
    };
    proof {
        let ov = overrides_from(ob@, 0)->Ok_0;
        let og = seq![(q + 8) as usize];
        assert(inp@.overrides =~= ov.overrides.map_values(|o: (Seq<char>, int, int)| (o.0, span_in(og, o.1, o.2))));
        assert(inp@.lets =~= ov.lets.map_values(|l: (int, int)| span_in(og, l.0, l.1)));
        assert(inp@.renames =~= ov.renames);
    }
    Ok(inp)
}

} // verus!
