//! The call-site front end of `magic_map!`.
//!
//! A function-like macro cannot see the destination's fields, so the front
//! end only reads the declaration's outline and plans a call of the
//! destination's schema macro, whose name is the destination path with its
//! last segment prefixed by `__magic_map_schema_`:
//!
//! ```text
//! a::b::Dest!{..}  →  a::b::__magic_map_schema_Dest! { [@infallible] @impl|@fn(vis name) @src(Src) @dest(a::b::Dest) @overrides{ .. } }
//! ```
use vstd::prelude::*;
use vstd::string::StrSliceExecFns;
use crate::expand::FnSig;
use crate::input::{SyntaxError, angle_depth, angle_delta, span_in, is_ident_tok};
use crate::tokens::{
    Delim, SpanV, Tok, TokSpan, ident_text, is_group, is_ident, is_joint_punct, is_plain_ident, is_punct,
    is_word, render, render_seq, punct_is, joint_punct_is, word_is, plain_ident, ident_string, group_is,
};
use crate::rust_syntax::{
    parses_as_path, parses_as_type, parses_as_visibility, is_path, is_type, is_visibility, type_shape, type_shape_of,
    TypeShape,
};

verus! {

/// A parsed `magic_map!` declaration. Spans are top-level runs.
pub struct MagicMapInput {
    /// Declared `infallible`.
    pub infallible: bool,
    pub func: Option<FnSig>,
    pub src: TokSpan,
    pub dest: TokSpan,
    /// The body of the trailing `{ .. }`, when there is one: the position of
    /// the brace group.
    pub overrides: Option<usize>,
}

pub struct MagicMapV {
    pub infallible: bool,
    pub func: Option<(SpanV, Seq<char>)>,
    pub src: SpanV,
    pub dest: SpanV,
    pub overrides: Option<usize>,
}

impl View for MagicMapInput {
    type V = MagicMapV;

    open spec fn view(&self) -> MagicMapV {
        MagicMapV {
            infallible: self.infallible,
            func: match self.func {
                Some(f) => Some((f.vis@, f.name@)),
                None => None,
            },
            src: self.src@,
            dest: self.dest@,
            overrides: self.overrides,
        }
    }
}

// ── the specification ────────────────────────────────────────────────────────

/// The first top-level `fn` keyword.
pub open spec fn fn_from(t: Seq<Tok>, i: int) -> Option<int>
    decreases t.len() - i,
{
    if i < 0 || i >= t.len() {
        None
    } else if is_word(t[i], "fn"@) {
        Some(i)
    } else {
        fn_from(t, i + 1)
    }
}

/// The first `=>` at or after `i`.
pub open spec fn arrow_from(t: Seq<Tok>, i: int) -> Option<int>
    decreases t.len() - i,
{
    if i < 0 || i + 1 >= t.len() {
        None
    } else if is_joint_punct(t[i], '=') && is_punct(t[i + 1], '>') {
        Some(i)
    } else {
        arrow_from(t, i + 1)
    }
}

/// A source a mapping can read: a type path, a borrowed type path (read
/// without moving it), or a tuple with at least one element.
pub open spec fn source_shape_ok(k: TypeShape) -> bool {
    match k {
        TypeShape::Path => true,
        TypeShape::BorrowedPath => true,
        TypeShape::Tuple(n) => n > 0,
        TypeShape::Other => false,
    }
}

/// Whether the declaration opens with the `infallible` keyword: the word
/// followed by an identifier or a tuple, which tells it apart from a path
/// through something named `infallible`.
pub open spec fn infallible_lead(t: Seq<Tok>) -> bool {
    t.len() > 1 && is_word(t[0], "infallible"@) && (is_ident(t[1]) || is_group(t[1], Delim::Paren))
}

/// Where the source type starts and whether the function form was used,
/// for a declaration whose header starts at `b`.
pub open spec fn header(t: Seq<Tok>, b: int) -> Result<(Option<(SpanV, Seq<char>)>, int), SyntaxError> {
    if t.len() > b && (is_word(t[b], "pub"@) || is_word(t[b], "fn"@)) {
        match fn_from(t, b) {
            None => Err(SyntaxError::FnHeader),
            Some(f) => if !parses_as_visibility(render_seq(t.subrange(b, f))) {
                Err(SyntaxError::FnHeader)
            } else if !(f + 2 < t.len() && is_plain_ident(t[f + 1]) && is_punct(t[f + 2], ':')) {
                Err(SyntaxError::FnHeader)
            } else {
                Ok((Some((span_in(Seq::empty(), b, f), ident_text(t[f + 1]))), f + 3))
            },
        }
    } else {
        Ok((None, b))
    }
}

/// A `magic_map!` declaration.
pub open spec fn magic_map_input(t: Seq<Tok>) -> Result<MagicMapV, SyntaxError> {
    let infallible = infallible_lead(t);
    match header(t, if infallible { 1 } else { 0 }) {
        Err(e) => Err(e),
        Ok((func, s)) => match arrow_from(t, s) {
            None => Err(SyntaxError::Arrow),
            Some(a) => {
                let src = t.subrange(s, a);
                if !parses_as_type(render_seq(src)) {
                    Err(SyntaxError::SrcType)
                } else if !source_shape_ok(type_shape_of(render_seq(src))) {
                    Err(SyntaxError::SourceShape)
                } else {
                    let braced = t.len() > a + 2 && is_group(t.last(), Delim::Brace);
                    let dend = if braced { t.len() - 1 } else { t.len() as int };
                    if !parses_as_path(render_seq(t.subrange(a + 2, dend))) {
                        Err(SyntaxError::DestPath)
                    } else {
                        Ok(MagicMapV {
                            infallible,
                            func,
                            src: span_in(Seq::empty(), s, a),
                            dest: span_in(Seq::empty(), a + 2, dend),
                            overrides: if braced { Some((t.len() - 1) as usize) } else { None },
                        })
                    }
                }
            },
        },
    }
}


// ── naming the schema ────────────────────────────────────────────────────────

/// An identifier as it reads inside a generated name: without its `r#`.
pub open spec fn unraw(w: Seq<char>) -> Seq<char> {
    if w.len() >= 2 && w[0] == 'r' && w[1] == '#' {
        w.skip(2)
    } else {
        w
    }
}

/// The name of the schema macro of a type named `w`.
pub open spec fn schema_name(w: Seq<char>) -> Seq<char> {
    "__magic_map_schema_"@ + unraw(w)
}

/// `k` holds the identifier of a path segment: the first token, or an
/// identifier right after a `::` outside generic arguments.
pub open spec fn segment_start(d: Seq<Tok>, k: int) -> bool {
    0 <= k < d.len() && is_ident(d[k]) && angle_depth(d, k) == 0
        && (k == 0 || (k >= 2 && is_joint_punct(d[k - 2], ':') && is_punct(d[k - 1], ':')))
}

/// The position of the last segment's identifier.
pub open spec fn last_segment(d: Seq<Tok>) -> Option<int> {
    if exists|k: int| segment_start(d, k) {
        Some(choose|k: int| segment_start(d, k) && forall|j: int| k < j < d.len() ==> !segment_start(d, j))
    } else {
        None
    }
}

/// The front end's plan: the destination path with the token at
/// `schema_at` (a top-level position) renamed to `schema`.
pub struct FrontPlan {
    pub schema_at: usize,
    pub schema: String,
}

/// The text of `w` without a leading `r#`.
pub fn unraw_text(w: &String) -> (r: String)
    ensures
        r@ == unraw(w@),
{
    let n = w.as_str().unicode_len();
    if n >= 2 && w.as_str().get_char(0) == 'r' && w.as_str().get_char(1) == '#' {
        let rest = w.as_str().substring_char(2, n);
        String::from_str(rest)
    } else {
        w.clone()
    }
}

/// The schema macro name for a type named `w`.
pub fn schema_name_of(w: &String) -> (r: String)
    ensures
        r@ == schema_name(w@),
{
    let base = String::from_str("__magic_map_schema_");
    let tail = unraw_text(w);
    base.concat(tail.as_str())
}

/// Plans the front end's expansion of a parsed declaration.
pub fn front(t: &Vec<Tok>, inp: &MagicMapInput) -> (r: Option<FrontPlan>)
    requires
        inp.dest.start <= inp.dest.end <= t@.len(),
    ensures
        match r {
            Some(plan) => {
                let d = t@.subrange(inp.dest.start as int, inp.dest.end as int);
                &&& last_segment(d) == Some(plan.schema_at - inp.dest.start)
                &&& inp.dest.start <= plan.schema_at < inp.dest.end
                &&& plan.schema@ == schema_name(ident_text(t@[plan.schema_at as int]))
            },
            None => last_segment(t@.subrange(inp.dest.start as int, inp.dest.end as int)) is None,
        },
{
    let start = inp.dest.start;
    let end = inp.dest.end;
    let ghost d = t@.subrange(start as int, end as int);
    let mut depth: i128 = 0;
    let mut found: Option<usize> = None;
    let mut k: usize = start;
    while k < end
        invariant
            start <= k <= end <= t@.len(),
            d == t@.subrange(start as int, end as int),
            depth == angle_depth(d, k - start),
            -((k - start) as int) <= depth <= (k - start) as int,
            match found {
                Some(f) => start <= f < k && segment_start(d, f - start)
                    && forall|j: int| f - start < j < k - start ==> !segment_start(d, j),
                None => forall|j: int| 0 <= j < k - start ==> !segment_start(d, j),
            },
        decreases end - k,
    {
        let is_seg = match &t[k] {
            Tok::Ident { .. } => depth == 0 && (k == start || (k - start >= 2 && joint_punct_is(&t[k - 2], ':')
                && punct_is(&t[k - 1], ':'))),
            _ => false,
        };
        assert(d[k - start] == t@[k as int]);
        assert(k - start >= 2 ==> d[k - start - 2] == t@[k - 2] && d[k - start - 1] == t@[k - 1]);
        assert(is_seg == segment_start(d, k - start));
        if is_seg {
            found = Some(k);
        }
        if punct_is(&t[k], '<') {
            depth = depth + 1;
        } else if punct_is(&t[k], '>') && !(k > start && joint_punct_is(&t[k - 1], '-')) {
            depth = depth - 1;
        }
        assert(angle_depth(d, k - start + 1) == angle_depth(d, k - start) + angle_delta(d, k - start));
        k += 1;
    }
    match found {
        Some(f) => {
            let name = match &t[f] {
                Tok::Ident { name, .. } => name,
                _ => {
                    return None;
                },
            };
            let schema = schema_name_of(name);
            proof {
                let c = choose|c: int| segment_start(d, c) && forall|j: int| c < j < d.len() ==> !segment_start(d, j);
                assert(segment_start(d, f - start));
                if c < f - start {
                    assert(!segment_start(d, f - start));
                } else if c > f - start {
                    assert(!segment_start(d, c));
                }
            }
            Some(FrontPlan { schema_at: f, schema })
        },
        None => None,
    }
}


// ── reading the declaration ──────────────────────────────────────────────────

fn find_fn(t: &Vec<Tok>, b: usize) -> (r: Option<usize>)
    requires
        b <= t@.len(),
    ensures
        match r {
            Some(f) => fn_from(t@, b as int) == Some(f as int),
            None => fn_from(t@, b as int) is None,
        },
{
    let mut i: usize = b;
    while i < t.len()
        invariant
            b <= i <= t@.len(),
            fn_from(t@, b as int) == fn_from(t@, i as int),
        decreases t@.len() - i,
    {
        if word_is(&t[i], "fn") {
            return Some(i);
        }
        i += 1;
    }
    None
}

fn find_arrow(t: &Vec<Tok>, s: usize) -> (r: Option<usize>)
    requires
        s <= t@.len(),
    ensures
        match r {
            Some(a) => arrow_from(t@, s as int) == Some(a as int),
            None => arrow_from(t@, s as int) is None,
        },
{
    let mut i: usize = s;
    while i < t.len()
        invariant
            s <= i <= t@.len(),
            arrow_from(t@, s as int) == arrow_from(t@, i as int),
        decreases t@.len() - i,
    {
        if i + 1 < t.len() && joint_punct_is(&t[i], '=') && punct_is(&t[i + 1], '>') {
            return Some(i);
        }
        i += 1;
    }
    None
}

proof fn lemma_arrow_from(t: Seq<Tok>, i: int)
    ensures
        arrow_from(t, i) matches Some(a) ==> i <= a && a + 1 < t.len(),
    decreases t.len() - i,
{
    if 0 <= i && i + 1 < t.len() && !(is_joint_punct(t[i], '=') && is_punct(t[i + 1], '>')) {
        lemma_arrow_from(t, i + 1);
    }
}

proof fn lemma_fn_from(t: Seq<Tok>, i: int)
    ensures
        fn_from(t, i) matches Some(f) ==> i <= f < t.len(),
    decreases t.len() - i,
{
    if 0 <= i < t.len() && !is_word(t[i], "fn"@) {
        lemma_fn_from(t, i + 1);
    }
}

/// Reads a `magic_map!` declaration.
pub fn parse_magic_map_input(t: &Vec<Tok>) -> (r: Result<MagicMapInput, SyntaxError>)
    ensures
        match r {
            Ok(inp) => magic_map_input(t@) == Ok::<MagicMapV, SyntaxError>(inp@),
            Err(e) => magic_map_input(t@) == Err::<MagicMapV, SyntaxError>(e),
        },
{
    let n = t.len();
    let infallible = n > 1 && word_is(&t[0], "infallible") && (is_ident_tok(&t[1]) || group_is(
        &t[1],
        Delim::Paren,
    ));
    let b: usize = if infallible { 1 } else { 0 };
    let mut func: Option<FnSig> = None;
    let mut s: usize = b;
    if n > b && (word_is(&t[b], "pub") || word_is(&t[b], "fn")) {
        let f = match find_fn(t, b) {
            Some(f) => f,
            None => {
                return Err(SyntaxError::FnHeader);
            },
        };
        proof {
            lemma_fn_from(t@, b as int);
        }
        let vis_text = render(t, b, f);
        if !is_visibility(vis_text.as_str()) {
            return Err(SyntaxError::FnHeader);
        }
        if !(n - f > 2 && plain_ident(&t[f + 1]) && punct_is(&t[f + 2], ':')) {
            return Err(SyntaxError::FnHeader);
        }
        let name = ident_string(&t[f + 1]);
        let vis = TokSpan { group: Vec::new(), start: b, end: f };
        assert(vis.group@ =~= Seq::<usize>::empty());
        func = Some(FnSig { vis, name });
        s = f + 3;
    }
    let a = match find_arrow(t, s) {
        Some(a) => a,
        None => {
            return Err(SyntaxError::Arrow);
        },
    };
    proof {
        lemma_arrow_from(t@, s as int);
    }
    let src_text = render(t, s, a);
    if !is_type(src_text.as_str()) {
        return Err(SyntaxError::SrcType);
    }
    let shape = type_shape(src_text.as_str());
    let shape_ok = match shape {
        TypeShape::Path => true,
        TypeShape::BorrowedPath => true,
        TypeShape::Tuple(n) => n > 0,
        TypeShape::Other => false,
    };
    if !shape_ok {
        return Err(SyntaxError::SourceShape);
    }
    let braced = n > a + 2 && match &t[n - 1] {
        Tok::Group { delim, .. } => *delim == Delim::Brace,
        _ => false,
    };
    assert(n > 0 ==> t@.last() == t@[n - 1]);
    let dend = if braced { n - 1 } else { n };
    let dest_text = render(t, a + 2, dend);
    if !is_path(dest_text.as_str()) {
        return Err(SyntaxError::DestPath);
    }
    let src = TokSpan { group: Vec::new(), start: s, end: a };
    let dest = TokSpan { group: Vec::new(), start: a + 2, end: dend };
    assert(src.group@ =~= Seq::<usize>::empty());
    assert(dest.group@ =~= Seq::<usize>::empty());
    Ok(MagicMapInput { infallible, func, src, dest, overrides: if braced { Some(n - 1) } else { None } })
}

} // verus!
