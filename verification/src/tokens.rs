//! A token tree as the planners read it: identifiers, punctuation, literals
//! and delimited groups, each carrying the index of its span in the caller's
//! span table so that what the planners hand back can be rendered with the
//! spans the user wrote.
use vstd::prelude::*;

verus! {

/// The delimiter of a group.
#[derive(Debug, PartialEq, Eq, Structural, Clone, Copy)]
pub enum Delim {
    Paren,
    Bracket,
    Brace,
    Invisible,
}

/// One token tree.
#[derive(Debug)]
pub enum Tok {
    Ident { name: String, sid: usize },
    /// `joint` is set when the next character of the source is punctuation
    /// that belongs to the same operator (`=` in `=>`).
    Punct { ch: char, joint: bool, sid: usize },
    Lit { text: String, sid: usize },
    Group { delim: Delim, body: Vec<Tok>, sid: usize },
}

/// A run of tokens: the group reached by following `group` (positions of
/// groups, from the top level inward), and the half-open range
/// `start..end` of its body.
pub struct TokSpan {
    pub group: Vec<usize>,
    pub start: usize,
    pub end: usize,
}

/// A run of tokens as a mathematical value.
pub struct SpanV {
    pub group: Seq<usize>,
    pub start: int,
    pub end: int,
}

impl View for TokSpan {
    type V = SpanV;

    open spec fn view(&self) -> SpanV {
        SpanV { group: self.group@, start: self.start as int, end: self.end as int }
    }
}

// ── reading single tokens ────────────────────────────────────────────────────

pub open spec fn is_punct(t: Tok, c: char) -> bool {
    t matches Tok::Punct { ch, .. } && ch == c
}

pub open spec fn is_joint_punct(t: Tok, c: char) -> bool {
    t matches Tok::Punct { ch, joint, .. } && ch == c && joint
}

pub open spec fn is_ident(t: Tok) -> bool {
    t is Ident
}

pub open spec fn ident_text(t: Tok) -> Seq<char> {
    match t {
        Tok::Ident { name, .. } => name@,
        _ => Seq::empty(),
    }
}

pub open spec fn is_word(t: Tok, w: Seq<char>) -> bool {
    t matches Tok::Ident { name, .. } && name@ == w
}

pub open spec fn is_group(t: Tok, d: Delim) -> bool {
    t matches Tok::Group { delim, .. } && delim == d
}

pub open spec fn group_body(t: Tok) -> Seq<Tok> {
    match t {
        Tok::Group { body, .. } => body@,
        _ => Seq::empty(),
    }
}

/// The words the Rust parser will not take as an identifier.
pub open spec fn is_keyword(w: Seq<char>) -> bool {
    ||| w == "_"@ ||| w == "abstract"@ ||| w == "as"@ ||| w == "async"@ ||| w == "await"@
    ||| w == "become"@ ||| w == "box"@ ||| w == "break"@ ||| w == "const"@
    ||| w == "continue"@ ||| w == "crate"@ ||| w == "do"@ ||| w == "dyn"@ ||| w == "else"@
    ||| w == "enum"@ ||| w == "extern"@ ||| w == "false"@ ||| w == "final"@ ||| w == "fn"@
    ||| w == "for"@ ||| w == "if"@ ||| w == "impl"@ ||| w == "in"@ ||| w == "let"@
    ||| w == "loop"@ ||| w == "macro"@ ||| w == "match"@ ||| w == "mod"@ ||| w == "move"@
    ||| w == "mut"@ ||| w == "override"@ ||| w == "priv"@ ||| w == "pub"@ ||| w == "ref"@
    ||| w == "return"@ ||| w == "Self"@ ||| w == "self"@ ||| w == "static"@
    ||| w == "struct"@ ||| w == "super"@ ||| w == "trait"@ ||| w == "true"@ ||| w == "try"@
    ||| w == "type"@ ||| w == "typeof"@ ||| w == "unsafe"@ ||| w == "unsized"@
    ||| w == "use"@ ||| w == "virtual"@ ||| w == "where"@ ||| w == "while"@ ||| w == "yield"@
}

/// An identifier token that is not a keyword.
pub open spec fn is_plain_ident(t: Tok) -> bool {
    is_ident(t) && !is_keyword(ident_text(t))
}

/// Whether `s` spells `lit`.
pub fn eq_lit(s: &String, lit: &str) -> (b: bool)
    ensures
        b == (s@ == lit@),
{
    let other = String::from_str(lit);
    *s == other
}

pub fn keyword(w: &String) -> (b: bool)
    ensures
        b == is_keyword(w@),
{
    eq_lit(w, "_") || eq_lit(w, "abstract") || eq_lit(w, "as") || eq_lit(w, "async")
        || eq_lit(w, "await") || eq_lit(w, "become") || eq_lit(w, "box") || eq_lit(w, "break")
        || eq_lit(w, "const") || eq_lit(w, "continue") || eq_lit(w, "crate") || eq_lit(w, "do")
        || eq_lit(w, "dyn") || eq_lit(w, "else") || eq_lit(w, "enum") || eq_lit(w, "extern")
        || eq_lit(w, "false") || eq_lit(w, "final") || eq_lit(w, "fn") || eq_lit(w, "for")
        || eq_lit(w, "if") || eq_lit(w, "impl") || eq_lit(w, "in") || eq_lit(w, "let")
        || eq_lit(w, "loop") || eq_lit(w, "macro") || eq_lit(w, "match") || eq_lit(w, "mod")
        || eq_lit(w, "move") || eq_lit(w, "mut") || eq_lit(w, "override") || eq_lit(w, "priv")
        || eq_lit(w, "pub") || eq_lit(w, "ref") || eq_lit(w, "return") || eq_lit(w, "Self")
        || eq_lit(w, "self") || eq_lit(w, "static") || eq_lit(w, "struct") || eq_lit(w, "super")
        || eq_lit(w, "trait") || eq_lit(w, "true") || eq_lit(w, "try") || eq_lit(w, "type")
        || eq_lit(w, "typeof") || eq_lit(w, "unsafe") || eq_lit(w, "unsized") || eq_lit(w, "use")
        || eq_lit(w, "virtual") || eq_lit(w, "where") || eq_lit(w, "while") || eq_lit(w, "yield")
}

pub fn punct_is(t: &Tok, c: char) -> (b: bool)
    ensures
        b == is_punct(*t, c),
{
    match t {
        Tok::Punct { ch, .. } => *ch == c,
        _ => false,
    }
}

pub fn joint_punct_is(t: &Tok, c: char) -> (b: bool)
    ensures
        b == is_joint_punct(*t, c),
{
    match t {
        Tok::Punct { ch, joint, .. } => *ch == c && *joint,
        _ => false,
    }
}

pub fn word_is(t: &Tok, w: &str) -> (b: bool)
    ensures
        b == is_word(*t, w@),
{
    match t {
        Tok::Ident { name, .. } => eq_lit(name, w),
        _ => false,
    }
}

pub fn plain_ident(t: &Tok) -> (b: bool)
    ensures
        b == is_plain_ident(*t),
{
    match t {
        Tok::Ident { name, .. } => !keyword(name),
        _ => false,
    }
}

pub fn group_is(t: &Tok, d: Delim) -> (b: bool)
    ensures
        b == is_group(*t, d),
{
    match t {
        Tok::Group { delim, .. } => *delim == d,
        _ => false,
    }
}

/// The text of an identifier token.
pub fn ident_string(t: &Tok) -> (r: String)
    requires
        is_ident(*t),
    ensures
        r@ == ident_text(*t),
{
    match t {
        Tok::Ident { name, .. } => name.clone(),
        _ => String::new(),
    }
}


// ── rendering ────────────────────────────────────────────────────────────────

pub open spec fn open_text(d: Delim) -> Seq<char> {
    match d {
        Delim::Paren => seq!['('],
        Delim::Bracket => seq!['['],
        Delim::Brace => seq!['{'],
        Delim::Invisible => Seq::empty(),
    }
}

pub open spec fn close_text(d: Delim) -> Seq<char> {
    match d {
        Delim::Paren => seq![')'],
        Delim::Bracket => seq![']'],
        Delim::Brace => seq!['}'],
        Delim::Invisible => Seq::empty(),
    }
}

/// What a token sequence reads as in source text: each token's own text,
/// a space after every token but the last, except after punctuation joined
/// to the next token.
pub open spec fn render_seq(s: Seq<Tok>) -> Seq<char>
    decreases s,
{
    if s.len() == 0 {
        Seq::empty()
    } else {
        let head = match s[0] {
            Tok::Ident { name, .. } => name@,
            Tok::Punct { ch, .. } => seq![ch],
            Tok::Lit { text, .. } => text@,
            Tok::Group { delim, body, .. } => open_text(delim) + render_seq(body@) + close_text(delim),
        };
        let sep = if s.len() > 1 && !(s[0] matches Tok::Punct { joint: true, .. }) {
            seq![' ']
        } else {
            Seq::empty()
        };
        head + sep + render_seq(s.drop_first())
    }
}

/// The text of a single character.
#[verifier::external_body]
pub(crate) fn char_string(c: char) -> (r: String)
    ensures
        r@ == seq![c],
{
    c.to_string()
}

fn delim_open(d: Delim) -> (r: &'static str)
    ensures
        r@ == open_text(d),
{
    proof {
        reveal_strlit("(");
        reveal_strlit("[");
        reveal_strlit("{");
        reveal_strlit("");
    }
    match d {
        Delim::Paren => "(",
        Delim::Bracket => "[",
        Delim::Brace => "{",
        Delim::Invisible => "",
    }
}

fn delim_close(d: Delim) -> (r: &'static str)
    ensures
        r@ == close_text(d),
{
    proof {
        reveal_strlit(")");
        reveal_strlit("]");
        reveal_strlit("}");
        reveal_strlit("");
    }
    match d {
        Delim::Paren => ")",
        Delim::Bracket => "]",
        Delim::Brace => "}",
        Delim::Invisible => "",
    }
}

/// Renders `toks[start..end]` as source text.
pub fn render(toks: &Vec<Tok>, start: usize, end: usize) -> (r: String)
    requires
        start <= end <= toks@.len(),
    ensures
        r@ == render_seq(toks@.subrange(start as int, end as int)),
    decreases toks@,
{
    let mut out = String::new();
    let mut i = start;
    while i < end
        invariant
            start <= i <= end <= toks@.len(),
            render_seq(toks@.subrange(start as int, end as int)) == out@ + render_seq(
                toks@.subrange(i as int, end as int),
            ),
        decreases end - i,
    {
        let ghost rest = toks@.subrange(i as int, end as int);
        assert(rest.drop_first() =~= toks@.subrange(i + 1, end as int));
        assert(rest[0] == toks@[i as int]);
        let ghost before = out@;
        match &toks[i] {
            Tok::Ident { name, .. } => {
                out.append(name.as_str());
            },
            Tok::Punct { ch, .. } => {
                let c = char_string(*ch);
                out.append(c.as_str());
            },
            Tok::Lit { text, .. } => {
                out.append(text.as_str());
            },
            Tok::Group { delim, body, .. } => {
                assert(decreases_to!(toks@ => body@)) by {
                    assert(decreases_to!(toks@ => toks@[i as int]));
                };
                let inner = render(body, 0, body.len());
                assert(body@.subrange(0, body@.len() as int) =~= body@);
                out.append(delim_open(*delim));
                out.append(inner.as_str());
                out.append(delim_close(*delim));
            },
        }
        let sep = i + 1 < end && !joint_any(&toks[i]);
        if sep {
            proof {
                reveal_strlit(" ");
            }
            out.append(" ");
        }
        i += 1;
    }
    assert(toks@.subrange(end as int, end as int) =~= Seq::<Tok>::empty());
    out
}

/// Whether a token is punctuation joined to the next token.
fn joint_any(t: &Tok) -> (b: bool)
    ensures
        b == (*t matches Tok::Punct { joint: true, .. }),
{
    match t {
        Tok::Punct { joint, .. } => *joint,
        _ => false,
    }
}

} // verus!
