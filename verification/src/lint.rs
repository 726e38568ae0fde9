//! The conversion-impl lint: which `impl From/TryFrom/Into/TryInto` items
//! count as hand-written mappings, how an allowlist is read, and what a run
//! reports, and a file's impl items read from its text. Walking directories
//! and reading files stay with the caller.
use vstd::prelude::*;
use vstd::string::StrSliceExecFns;
use crate::text::{nat_text, push_nat};

verus! {

// ── the parts of an impl item the lint reads ─────────────────────────────────

/// A type, as far as naming it goes.
pub enum TypeModel {
    /// A path type; its name is its last segment.
    Path(PathModel),
    /// `&T` / `&mut T`: named by what it refers to.
    Reference(Box<TypeModel>),
    /// Any other type: it has no name.
    Other,
}

pub struct PathModel {
    pub segments: Vec<Segment>,
}

pub struct Segment {
    pub ident: String,
    pub args: SegmentArgs,
}

pub enum SegmentArgs {
    /// No arguments.
    Bare,
    /// `<..>` arguments, in order.
    Angle(Vec<GenericArg>),
    /// `(..) -> ..` arguments.
    Paren,
}

pub enum GenericArg {
    Type(TypeModel),
    /// A lifetime, const, binding or constraint.
    Other,
}

/// An `impl` item: the trait it implements, if any, the type it is for, and
/// the line of its `impl` keyword.
pub struct ImplModel {
    pub trait_path: Option<PathModel>,
    pub self_ty: TypeModel,
    pub line: usize,
}

/// The last path segment's identifier, which is how humans read the type.
pub open spec fn tail_of(p: PathModel) -> Option<Seq<char>> {
    if p.segments@.len() == 0 {
        None
    } else {
        Some(p.segments@.last().ident@)
    }
}

pub open spec fn type_ident_of(t: TypeModel) -> Option<Seq<char>>
    decreases t,
{
    match t {
        TypeModel::Path(p) => tail_of(p),
        TypeModel::Reference(inner) => type_ident_of(*inner),
        TypeModel::Other => None,
    }
}

/// The name of the first type argument, among `args`, that has one.
pub open spec fn first_type_name(args: Seq<GenericArg>) -> Option<Seq<char>>
    decreases args.len(),
{
    if args.len() == 0 {
        None
    } else {
        match args[0] {
            GenericArg::Type(t) => match type_ident_of(t) {
                Some(n) => Some(n),
                None => first_type_name(args.drop_first()),
            },
            GenericArg::Other => first_type_name(args.drop_first()),
        }
    }
}

/// The trait's first named generic argument (`From<THIS> for ...`).
pub open spec fn trait_arg_name_of(p: PathModel) -> Option<Seq<char>> {
    if p.segments@.len() == 0 {
        None
    } else {
        match p.segments@.last().args {
            SegmentArgs::Angle(args) => first_type_name(args@),
            _ => None,
        }
    }
}

/// A name that ends in `Error`.
pub open spec fn error_named(name: Option<Seq<char>>) -> bool {
    match name {
        Some(n) => n.len() >= 5 && n.subrange(n.len() - 5, n.len() as int) == seq!['E', 'r', 'r', 'o', 'r'],
        None => false,
    }
}

/// The last path segment's identifier.
pub fn tail(path: &PathModel) -> (r: Option<String>)
    ensures
        opt_view(r) == tail_of(*path),
{
    let n = path.segments.len();
    if n == 0 {
        None
    } else {
        Some(path.segments[n - 1].ident.clone())
    }
}

/// The view of an optional string.
pub open spec fn opt_view(o: Option<String>) -> Option<Seq<char>> {
    match o {
        Some(s) => Some(s@),
        None => None,
    }
}

/// A type's name: a path's last segment, through any references.
pub fn type_ident(ty: &TypeModel) -> (r: Option<String>)
    ensures
        opt_view(r) == type_ident_of(*ty),
    decreases ty,
{
    match ty {
        TypeModel::Path(p) => tail(p),
        TypeModel::Reference(inner) => type_ident(inner),
        TypeModel::Other => None,
    }
}

/// The trait's first generic argument that names a type (`From<THIS> for ...`).
#[verifier::loop_isolation(false)]
pub fn trait_arg_name(path: &PathModel) -> (r: Option<String>)
    ensures
        opt_view(r) == trait_arg_name_of(*path),
{
    let n = path.segments.len();
    if n == 0 {
        return None;
    }
    match &path.segments[n - 1].args {
        SegmentArgs::Angle(args) => {
            let mut i: usize = 0;
            assert(args@.skip(0) =~= args@);
            while i < args.len()
                invariant
                    i <= args.len(),
                    first_type_name(args@) == first_type_name(args@.skip(i as int)),
                decreases args.len() - i,
            {
                assert(args@.skip(i as int).drop_first() =~= args@.skip(i + 1));
                match &args[i] {
                    GenericArg::Type(t) => {
                        let name = type_ident(t);
                        if name.is_some() {
                            return name;
                        }
                    },
                    GenericArg::Other => {},
                }
                i += 1;
            }
            None
        },
        _ => None,
    }
}

/// Whether `name` ends in `Error`: such an impl converts errors, which is
/// how `?` bubbles between layers, not a data mapping.
pub fn is_error_name(name: &Option<String>) -> (r: bool)
    ensures
        r == error_named(opt_view(*name)),
{
    match name {
        Some(n) => {
            let len = n.as_str().unicode_len();
            if len < 5 {
                return false;
            }
            let tail = n.as_str().substring_char(len - 5, len);
            let owned = String::from_str(tail);
            proof {
                reveal_strlit("Error");
            }
            let expected = String::from_str("Error");
            assert("Error"@ =~= seq!['E', 'r', 'r', 'o', 'r']);
            owned == expected
        },
        None => false,
    }
}

// ── findings ─────────────────────────────────────────────────────────────────

/// `From`, `TryFrom`, `Into` or `TryInto`.
pub open spec fn conversion_trait(name: Seq<char>) -> bool {
    ||| name == seq!['F', 'r', 'o', 'm']
    ||| name == seq!['T', 'r', 'y', 'F', 'r', 'o', 'm']
    ||| name == seq!['I', 'n', 't', 'o']
    ||| name == seq!['T', 'r', 'y', 'I', 'n', 't', 'o']
}

/// A name, or `_` where there is none.
pub open spec fn name_or_blank(name: Option<Seq<char>>) -> Seq<char> {
    match name {
        Some(n) => n,
        None => seq!['_'],
    }
}

/// `impl {trait}<{source}> for {dest}`.
pub open spec fn signature_text(t: Seq<char>, source: Option<Seq<char>>, dest: Option<Seq<char>>) -> Seq<char> {
    seq!['i', 'm', 'p', 'l', ' '] + t + seq!['<'] + name_or_blank(source) + seq!['>', ' ', 'f', 'o', 'r', ' ']
        + name_or_blank(dest)
}

/// The rendered signature of an impl the lint flags, or `None` for an impl it
/// lets through: one of no conversion trait, or one where either side's type
/// name ends in `Error`.
pub open spec fn signature_of(item: ImplModel) -> Option<Seq<char>> {
    match item.trait_path {
        None => None,
        Some(tp) => match tail_of(tp) {
            None => None,
            Some(t) => {
                let source = trait_arg_name_of(tp);
                let dest = type_ident_of(item.self_ty);
                if conversion_trait(t) && !error_named(source) && !error_named(dest) {
                    Some(signature_text(t, source, dest))
                } else {
                    None
                }
            },
        },
    }
}

fn is_conversion_trait(name: &String) -> (r: bool)
    ensures
        r == conversion_trait(name@),
{
    proof {
        reveal_strlit("From");
        reveal_strlit("TryFrom");
        reveal_strlit("Into");
        reveal_strlit("TryInto");
    }
    assert("From"@ =~= seq!['F', 'r', 'o', 'm']);
    assert("TryFrom"@ =~= seq!['T', 'r', 'y', 'F', 'r', 'o', 'm']);
    assert("Into"@ =~= seq!['I', 'n', 't', 'o']);
    assert("TryInto"@ =~= seq!['T', 'r', 'y', 'I', 'n', 't', 'o']);
    *name == String::from_str("From") || *name == String::from_str("TryFrom") || *name == String::from_str(
        "Into",
    ) || *name == String::from_str("TryInto")
}

fn append_name_or_blank(out: &mut String, name: &Option<String>)
    ensures
        final(out)@ == old(out)@ + name_or_blank(opt_view(*name)),
{
    match name {
        Some(n) => out.append(n.as_str()),
        None => {
            proof {
                reveal_strlit("_");
            }
            out.append("_");
        },
    }
}

/// The signature the lint reports an impl under, if it flags it.
pub fn signature(item: &ImplModel) -> (r: Option<String>)
    ensures
        opt_view(r) == signature_of(*item),
{
    match &item.trait_path {
        None => None,
        Some(tp) => match tail(tp) {
            None => None,
            Some(t) => {
                let source = trait_arg_name(tp);
                let dest = type_ident(&item.self_ty);
                if is_conversion_trait(&t) && !is_error_name(&source) && !is_error_name(&dest) {
                    proof {
                        reveal_strlit("impl ");
                        reveal_strlit("<");
                        reveal_strlit("> for ");
                    }
                    let mut out = String::from_str("impl ");
                    out.append(t.as_str());
                    out.append("<");
                    append_name_or_blank(&mut out, &source);
                    out.append("> for ");
                    append_name_or_blank(&mut out, &dest);
                    assert(out@ =~= signature_text(t@, opt_view(source), opt_view(dest)));
                    Some(out)
                } else {
                    None
                }
            },
        },
    }
}

/// A flagged impl: where it is and what it is.
pub struct Finding {
    pub file: String,
    pub line: usize,
    pub signature: String,
}

pub struct FindingV {
    pub file: Seq<char>,
    pub line: nat,
    pub signature: Seq<char>,
}

impl View for Finding {
    type V = FindingV;

    open spec fn view(&self) -> FindingV {
        FindingV { file: self.file@, line: self.line as nat, signature: self.signature@ }
    }
}

pub open spec fn findings_view(v: Seq<Finding>) -> Seq<FindingV> {
    Seq::new(v.len(), |i: int| v[i]@)
}

/// The findings in one file, in the order its impls come.
pub open spec fn findings_of(file: Seq<char>, impls: Seq<ImplModel>) -> Seq<FindingV>
    decreases impls.len(),
{
    if impls.len() == 0 {
        Seq::empty()
    } else {
        let rest = findings_of(file, impls.drop_last());
        match signature_of(impls.last()) {
            Some(sig) => rest.push(FindingV { file, line: impls.last().line as nat, signature: sig }),
            None => rest,
        }
    }
}

/// Flags the conversion impls among a file's impl items.
pub fn find_conversions(file: &String, impls: &Vec<ImplModel>) -> (r: Vec<Finding>)
    ensures
        findings_view(r@) == findings_of(file@, impls@),
{
    let mut out: Vec<Finding> = Vec::new();
    let mut i: usize = 0;
    while i < impls.len()
        invariant
            i <= impls.len(),
            findings_view(out@) == findings_of(file@, impls@.take(i as int)),
        decreases impls.len() - i,
    {
        assert(impls@.take(i + 1).drop_last() =~= impls@.take(i as int));
        let sig = signature(&impls[i]);
        match sig {
            Some(s) => {
                let ghost before = out@;
                out.push(Finding { file: file.clone(), line: impls[i].line, signature: s });
                assert(findings_view(out@) =~= findings_view(before).push(out@.last()@));
            },
            None => {},
        }
        i += 1;
    }
    assert(impls@.take(impls.len() as int) =~= impls@);
    out
}

// ── text order (`String`'s `Ord`: code point by code point) ──────────────────

/// `a` sorts before `b`: at the first difference `a` has the smaller char, or
/// `a` is a proper prefix of `b`.
pub open spec fn text_before(a: Seq<char>, b: Seq<char>) -> bool
    decreases a.len(),
{
    if a.len() == 0 {
        b.len() > 0
    } else if b.len() == 0 {
        false
    } else if a[0] != b[0] {
        (a[0] as int) < (b[0] as int)
    } else {
        text_before(a.drop_first(), b.drop_first())
    }
}

pub proof fn lemma_text_before_irreflexive(a: Seq<char>)
    ensures
        !text_before(a, a),
    decreases a.len(),
{
    if a.len() > 0 {
        lemma_text_before_irreflexive(a.drop_first());
    }
}

pub proof fn lemma_text_before_transitive(a: Seq<char>, b: Seq<char>, c: Seq<char>)
    requires
        text_before(a, b),
        text_before(b, c),
    ensures
        text_before(a, c),
    decreases a.len(),
{
    if a.len() > 0 && b.len() > 0 && c.len() > 0 && a[0] == b[0] && b[0] == c[0] {
        lemma_text_before_transitive(a.drop_first(), b.drop_first(), c.drop_first());
    }
}

pub proof fn lemma_text_before_total(a: Seq<char>, b: Seq<char>)
    requires
        a != b,
    ensures
        text_before(a, b) || text_before(b, a),
    decreases a.len(),
{
    if a.len() == 0 && b.len() == 0 {
        assert(a =~= b);
    }
    if a.len() > 0 && b.len() > 0 && a[0] == b[0] {
        if a.drop_first() == b.drop_first() {
            assert(a =~= seq![a[0]] + a.drop_first());
            assert(b =~= seq![b[0]] + b.drop_first());
        }
        lemma_text_before_total(a.drop_first(), b.drop_first());
    }
}

pub proof fn lemma_text_before_asymmetric(a: Seq<char>, b: Seq<char>)
    requires
        text_before(a, b),
    ensures
        !text_before(b, a),
{
    if text_before(b, a) {
        lemma_text_before_transitive(a, b, a);
        lemma_text_before_irreflexive(a);
    }
}

/// Whether `a` sorts before `b`.
pub fn text_lt(a: &String, b: &String) -> (r: bool)
    ensures
        r == text_before(a@, b@),
{
    let la = a.as_str().unicode_len();
    let lb = b.as_str().unicode_len();
    let mut i: usize = 0;
    assert(a@.skip(0) =~= a@);
    assert(b@.skip(0) =~= b@);
    while i < la && i < lb
        invariant
            la == a@.len(),
            lb == b@.len(),
            i <= la,
            i <= lb,
            text_before(a@, b@) == text_before(a@.skip(i as int), b@.skip(i as int)),
        decreases la - i,
    {
        let ca = a.as_str().get_char(i);
        let cb = b.as_str().get_char(i);
        assert(a@.skip(i as int)[0] == ca);
        assert(b@.skip(i as int)[0] == cb);
        if ca != cb {
            return ca < cb;
        }
        assert(a@.skip(i as int).drop_first() =~= a@.skip(i + 1));
        assert(b@.skip(i as int).drop_first() =~= b@.skip(i + 1));
        i += 1;
    }
    i == la && i < lb
}

/// The views of a list of strings.
pub open spec fn texts_view(v: Seq<String>) -> Seq<Seq<char>> {
    Seq::new(v.len(), |i: int| v[i]@)
}

/// Strictly increasing: sorted, with nothing twice.
pub open spec fn strictly_sorted(v: Seq<Seq<char>>) -> bool {
    forall|i: int, j: int| 0 <= i < j < v.len() ==> text_before(#[trigger] v[i], #[trigger] v[j])
}

/// Adds `e` to a strictly sorted list, keeping it so; an entry already there
/// is not added twice.
pub fn insert_sorted(v: &mut Vec<String>, e: String)
    requires
        strictly_sorted(texts_view(old(v)@)),
    ensures
        strictly_sorted(texts_view(final(v)@)),
        texts_view(final(v)@).to_set() == texts_view(old(v)@).to_set().insert(e@),
{
    let ghost old_v = texts_view(v@);
    let mut p: usize = 0;
    while p < v.len() && text_lt(&v[p], &e)
        invariant
            p <= v.len(),
            v@ == old(v)@,
            forall|k: int| 0 <= k < p ==> text_before(#[trigger] texts_view(v@)[k], e@),
        decreases v.len() - p,
    {
        p += 1;
    }
    if p < v.len() && v[p] == e {
        assert(texts_view(v@)[p as int] == e@);
        assert(texts_view(v@).to_set().insert(e@) =~= texts_view(v@).to_set());
        return;
    }
    proof {
        if p < v.len() {
            assert(!text_before(texts_view(v@)[p as int], e@));
            assert(texts_view(v@)[p as int] != e@);
            lemma_text_before_total(texts_view(v@)[p as int], e@);
        }
    }
    let ghost ev = e@;
    v.insert(p, e);
    let ghost nv = texts_view(v@);
    assert(nv.len() == old_v.len() + 1);
    assert forall|k: int| 0 <= k < p implies nv[k] == old_v[k] by {
        assert(v@[k] == old(v)@[k]);
    }
    assert(nv[p as int] == ev);
    assert forall|k: int| p < k < nv.len() implies nv[k] == old_v[k - 1] by {
        assert(v@[k] == old(v)@[k - 1]);
    }
    assert(p < old_v.len() ==> text_before(ev, old_v[p as int]));
    assert forall|i: int, j: int| 0 <= i < j < nv.len() implies text_before(#[trigger] nv[i], #[trigger] nv[j]) by {
        if j < p {
        } else if i < p && j == p {
            assert(text_before(texts_view(old(v)@)[i], ev));
        } else if i < p && j > p {
            assert(text_before(texts_view(old(v)@)[i], ev));
            assert(nv[j] == old_v[j - 1]);
            if j - 1 > p {
                lemma_text_before_transitive(old_v[i], old_v[p as int], old_v[j - 1]);
            }
        } else if i == p {
            assert(nv[j] == old_v[j - 1]);
            if j - 1 > p {
                lemma_text_before_transitive(nv[i], old_v[p as int], old_v[j - 1]);
            }
        } else {
            assert(nv[i] == old_v[i - 1]);
            assert(nv[j] == old_v[j - 1]);
        }
    }
    assert forall|x: Seq<char>| nv.to_set().contains(x) <==> old_v.to_set().insert(e@).contains(x) by {
        if nv.to_set().contains(x) {
            let k = choose|k: int| 0 <= k < nv.len() && nv[k] == x;
            if k < p {
                assert(old_v[k] == x);
            } else if k > p {
                assert(old_v[k - 1] == x);
            }
        }
        if old_v.to_set().insert(e@).contains(x) && x != e@ {
            let k = choose|k: int| 0 <= k < old_v.len() && old_v[k] == x;
            if k < p {
                assert(nv[k] == x);
            } else {
                assert(nv[k + 1] == x);
            }
        }
        if x == e@ {
            assert(nv[p as int] == x);
        }
    }
    assert(nv.to_set() =~= old_v.to_set().insert(e@));
}

// ── the allowlist ────────────────────────────────────────────────────────────

/// Unicode `White_Space`, which is what `char::is_whitespace` tests.
pub open spec fn white_space(c: char) -> bool {
    let u = c as int;
    ||| 0x9 <= u <= 0xd
    ||| u == 0x20
    ||| u == 0x85
    ||| u == 0xa0
    ||| u == 0x1680
    ||| 0x2000 <= u <= 0x200a
    ||| u == 0x2028
    ||| u == 0x2029
    ||| u == 0x202f
    ||| u == 0x205f
    ||| u == 0x3000
}

pub open spec fn trim_start_of(s: Seq<char>) -> Seq<char>
    decreases s.len(),
{
    if s.len() > 0 && white_space(s[0]) {
        trim_start_of(s.drop_first())
    } else {
        s
    }
}

pub open spec fn trim_end_of(s: Seq<char>) -> Seq<char>
    decreases s.len(),
{
    if s.len() > 0 && white_space(s.last()) {
        trim_end_of(s.drop_last())
    } else {
        s
    }
}

/// `s` with leading and trailing whitespace removed.
pub open spec fn trimmed(s: Seq<char>) -> Seq<char> {
    trim_end_of(trim_start_of(s))
}

/// `str::trim`, whose documentation defines it as removing leading and
/// trailing characters with the Unicode `White_Space` property.
#[verifier::external_body]
fn trim_text(s: &str) -> (r: String)
    ensures
        r@ == trimmed(s@),
{
    s.trim().to_string()
}

/// The pieces of `s` between newlines, from the piece that starts at `start`
/// and has been read up to `i`.
pub open spec fn pieces_from(s: Seq<char>, start: int, i: int) -> Seq<Seq<char>>
    decreases s.len() - i,
{
    if i >= s.len() {
        seq![s.subrange(start, s.len() as int)]
    } else if s[i] == '\n' {
        seq![s.subrange(start, i)] + pieces_from(s, i + 1, i + 1)
    } else {
        pieces_from(s, start, i + 1)
    }
}

/// The lines of `s`.
pub open spec fn lines_of(s: Seq<char>) -> Seq<Seq<char>> {
    pieces_from(s, 0, 0)
}

/// What an allowlist line contributes: its trimmed text, unless that is empty
/// or a `#` comment.
pub open spec fn entry_of(line: Seq<char>) -> Option<Seq<char>> {
    let t = trimmed(line);
    if t.len() == 0 || t[0] == '#' {
        None
    } else {
        Some(t)
    }
}

/// The signatures an allowlist's text allows.
pub open spec fn allowed_by(text: Seq<char>) -> Set<Seq<char>> {
    Set::new(|e: Seq<char>| exists|k: int| 0 <= k < lines_of(text).len() && entry_of(#[trigger] lines_of(text)[k]) == Some(e))
}

fn entry_from(line: &str) -> (r: Option<String>)
    ensures
        opt_view(r) == entry_of(line@),
{
    let t = trim_text(line);
    let n = t.as_str().unicode_len();
    if n == 0 {
        return None;
    }
    if t.as_str().get_char(0) == '#' {
        return None;
    }
    Some(t)
}

/// Reads an allowlist: one rendered signature per line, surrounding
/// whitespace ignored, blank lines and `#` comments skipped. The result is
/// sorted, with each signature once.
pub fn parse_allowlist(text: &str) -> (r: Vec<String>)
    ensures
        strictly_sorted(texts_view(r@)),
        texts_view(r@).to_set() == allowed_by(text@),
{
    let ghost s = text@;
    let n = text.unicode_len();
    let mut out: Vec<String> = Vec::new();
    let mut start: usize = 0;
    let mut i: usize = 0;
    let ghost mut done: Seq<Seq<char>> = Seq::empty();
    while i < n
        invariant
            n == s.len(),
            s == text@,
            start <= i <= n,
            done + pieces_from(s, start as int, i as int) == lines_of(s),
            strictly_sorted(texts_view(out@)),
            texts_view(out@).to_set() == Set::new(
                |e: Seq<char>| exists|k: int| 0 <= k < done.len() && entry_of(#[trigger] done[k]) == Some(e),
            ),
        decreases n - i,
    {
        let c = text.get_char(i);
        if c == '\n' {
            let line = text.substring_char(start, i);
            let ghost old_set = texts_view(out@).to_set();
            let entry = entry_from(line);
            let ghost piece = s.subrange(start as int, i as int);
            match entry {
                Some(e) => {
                    insert_sorted(&mut out, e);
                },
                None => {},
            }
            proof {
                let nd = done.push(piece);
                assert(done + pieces_from(s, start as int, i as int) =~= nd + pieces_from(s, i + 1, i + 1));
                let goal = Set::new(
                    |e: Seq<char>| exists|k: int| 0 <= k < nd.len() && entry_of(#[trigger] nd[k]) == Some(e),
                );
                assert forall|x: Seq<char>| texts_view(out@).to_set().contains(x) <==> goal.contains(x) by {
                    if goal.contains(x) {
                        let k = choose|k: int| 0 <= k < nd.len() && entry_of(#[trigger] nd[k]) == Some(x);
                        if k < done.len() {
                            assert(nd[k] == done[k]);
                            assert(old_set.contains(x));
                        }
                    }
                    if texts_view(out@).to_set().contains(x) {
                        if old_set.contains(x) {
                            let k = choose|k: int| 0 <= k < done.len() && entry_of(#[trigger] done[k]) == Some(x);
                            assert(nd[k] == done[k]);
                        } else {
                            assert(nd[done.len() as int] == piece);
                        }
                    }
                }
                assert(texts_view(out@).to_set() =~= goal);
                done = nd;
            }
            start = i + 1;
        } else {
            proof {
                assert(pieces_from(s, start as int, i as int) == pieces_from(s, start as int, i + 1));
            }
        }
        i += 1;
    }
    let last = text.substring_char(start, n);
    let ghost old_set = texts_view(out@).to_set();
    let ghost piece = s.subrange(start as int, n as int);
    let entry = entry_from(last);
    match entry {
        Some(e) => {
            insert_sorted(&mut out, e);
        },
        None => {},
    }
    proof {
        let nd = done.push(piece);
        assert(nd =~= lines_of(s));
        assert forall|x: Seq<char>| texts_view(out@).to_set().contains(x) <==> allowed_by(s).contains(x) by {
            if allowed_by(s).contains(x) {
                let k = choose|k: int| 0 <= k < nd.len() && entry_of(#[trigger] nd[k]) == Some(x);
                if k < done.len() {
                    assert(nd[k] == done[k]);
                    assert(old_set.contains(x));
                }
            }
            if texts_view(out@).to_set().contains(x) {
                if old_set.contains(x) {
                    let k = choose|k: int| 0 <= k < done.len() && entry_of(#[trigger] done[k]) == Some(x);
                    assert(nd[k] == done[k]);
                } else {
                    assert(nd[done.len() as int] == piece);
                }
            }
        }
        assert(texts_view(out@).to_set() =~= allowed_by(s));
    }
    out
}

// ── the report ───────────────────────────────────────────────────────────────

/// What a run prints, and whether it fails.
pub struct LintReport {
    /// The lines to print, in order.
    pub lines: Vec<String>,
    /// How many findings no allowlist entry covers.
    pub violations: usize,
    /// How many allowlist entries no finding matched.
    pub stale: usize,
    /// The run fails when there is anything to fix.
    pub failed: bool,
}

pub open spec fn violation_line(f: FindingV) -> Seq<char> {
    f.file + ":"@ + nat_text(f.line) + ": "@ + f.signature + " \u{2014} declare it with magic_map! instead"@
}

pub open spec fn stale_line(entry: Seq<char>) -> Seq<char> {
    "stale allowlist entry (remove it): "@ + entry
}

pub open spec fn summary_line(violations: nat, stale: nat) -> Seq<char> {
    nat_text(violations) + " conversion impl(s) outside magic_map, "@ + nat_text(stale)
        + " stale allowlist entr(ies)"@
}

/// The findings that no allowlist entry covers, in order.
pub open spec fn violations_of(fs: Seq<FindingV>, allowed: Seq<Seq<char>>) -> Seq<FindingV>
    decreases fs.len(),
{
    if fs.len() == 0 {
        Seq::empty()
    } else {
        let rest = violations_of(fs.drop_last(), allowed);
        if allowed.contains(fs.last().signature) {
            rest
        } else {
            rest.push(fs.last())
        }
    }
}

/// Some finding carries `entry` as its signature.
pub open spec fn matched(fs: Seq<FindingV>, entry: Seq<char>) -> bool {
    exists|k: int| 0 <= k < fs.len() && (#[trigger] fs[k]).signature == entry
}

/// The allowlist entries that no finding matched, in allowlist order.
pub open spec fn stale_of(allowed: Seq<Seq<char>>, fs: Seq<FindingV>) -> Seq<Seq<char>>
    decreases allowed.len(),
{
    if allowed.len() == 0 {
        Seq::empty()
    } else {
        let rest = stale_of(allowed.drop_last(), fs);
        if matched(fs, allowed.last()) {
            rest
        } else {
            rest.push(allowed.last())
        }
    }
}

pub open spec fn violation_lines(vs: Seq<FindingV>) -> Seq<Seq<char>> {
    Seq::new(vs.len(), |i: int| violation_line(vs[i]))
}

pub open spec fn stale_lines(ss: Seq<Seq<char>>) -> Seq<Seq<char>> {
    Seq::new(ss.len(), |i: int| stale_line(ss[i]))
}

/// Everything a run prints: each uncovered finding, then each stale entry,
/// then a summary when there was either.
pub open spec fn report_lines(fs: Seq<FindingV>, allowed: Seq<Seq<char>>) -> Seq<Seq<char>> {
    let v = violations_of(fs, allowed);
    let st = stale_of(allowed, fs);
    violation_lines(v) + stale_lines(st) + if v.len() + st.len() > 0 {
        seq![summary_line(v.len(), st.len())]
    } else {
        Seq::empty()
    }
}

fn contains_text(v: &Vec<String>, x: &String) -> (r: bool)
    ensures
        r == texts_view(v@).contains(x@),
{
    let mut i: usize = 0;
    while i < v.len()
        invariant
            i <= v.len(),
            forall|k: int| 0 <= k < i ==> texts_view(v@)[k] != x@,
        decreases v.len() - i,
    {
        if v[i] == *x {
            assert(texts_view(v@)[i as int] == x@);
            return true;
        }
        i += 1;
    }
    false
}

fn any_signature(fs: &Vec<Finding>, entry: &String) -> (r: bool)
    ensures
        r == matched(findings_view(fs@), entry@),
{
    let ghost fv = findings_view(fs@);
    let mut i: usize = 0;
    while i < fs.len()
        invariant
            i <= fs.len(),
            fv == findings_view(fs@),
            forall|k: int| 0 <= k < i ==> (#[trigger] fv[k]).signature != entry@,
        decreases fs.len() - i,
    {
        if fs[i].signature == *entry {
            assert(fv[i as int].signature == entry@);
            return true;
        }
        i += 1;
    }
    false
}

fn render_violation(f: &Finding) -> (r: String)
    ensures
        r@ == violation_line(f@),
{
    let mut out = f.file.clone();
    out.append(":");
    push_nat(&mut out, f.line as u64);
    out.append(": ");
    out.append(f.signature.as_str());
    out.append(" \u{2014} declare it with magic_map! instead");
    out
}

fn render_stale(entry: &String) -> (r: String)
    ensures
        r@ == stale_line(entry@),
{
    let mut out = String::from_str("stale allowlist entry (remove it): ");
    out.append(entry.as_str());
    out
}

fn render_summary(violations: usize, stale: usize) -> (r: String)
    ensures
        r@ == summary_line(violations as nat, stale as nat),
{
    let mut out = String::new();
    push_nat(&mut out, violations as u64);
    out.append(" conversion impl(s) outside magic_map, ");
    push_nat(&mut out, stale as u64);
    out.append(" stale allowlist entr(ies)");
    out
}

/// Decides a run: every finding whose signature the allowlist does not hold
/// is a violation; every allowlist entry no finding matched is stale; the run
/// fails when there is at least one of either.
pub fn report(findings: &Vec<Finding>, allowed: &Vec<String>) -> (r: LintReport)
    ensures
        texts_view(r.lines@) == report_lines(findings_view(findings@), texts_view(allowed@)),
        r.violations == violations_of(findings_view(findings@), texts_view(allowed@)).len(),
        r.stale == stale_of(texts_view(allowed@), findings_view(findings@)).len(),
        r.failed == (r.violations + r.stale > 0),
{
    let ghost fv = findings_view(findings@);
    let ghost av = texts_view(allowed@);
    let mut lines: Vec<String> = Vec::new();
    let mut violations: usize = 0;
    let mut i: usize = 0;
    while i < findings.len()
        invariant
            i <= findings.len(),
            fv == findings_view(findings@),
            av == texts_view(allowed@),
            violations == lines.len(),
            violations <= i,
            texts_view(lines@) == violation_lines(violations_of(fv.take(i as int), av)),
            violations_of(fv.take(i as int), av).len() <= i,
        decreases findings.len() - i,
    {
        assert(fv.take(i + 1).drop_last() =~= fv.take(i as int));
        assert(fv.take(i + 1).last() == findings@[i as int]@);
        let ghost prev = violations_of(fv.take(i as int), av);
        if !contains_text(allowed, &findings[i].signature) {
            let line = render_violation(&findings[i]);
            let ghost before = texts_view(lines@);
            let ghost lv = line@;
            lines.push(line);
            violations += 1;
            assert(texts_view(lines@) =~= before.push(lv));
            assert(violations_of(fv.take(i + 1), av) == prev.push(findings@[i as int]@));
            assert(violation_lines(prev.push(findings@[i as int]@)) =~= violation_lines(prev).push(lv));
            assert(texts_view(lines@) =~= violation_lines(violations_of(fv.take(i + 1), av)));
        } else {
            assert(violations_of(fv.take(i + 1), av) == prev);
        }
        i += 1;
    }
    assert(fv.take(findings.len() as int) =~= fv);
    let ghost vlines = texts_view(lines@);
    let mut stale: usize = 0;
    let mut j: usize = 0;
    while j < allowed.len()
        invariant
            j <= allowed.len(),
            fv == findings_view(findings@),
            av == texts_view(allowed@),
            violations == violations_of(fv, av).len(),
            vlines == violation_lines(violations_of(fv, av)),
            lines.len() == violations + stale,
            texts_view(lines@) == vlines + stale_lines(stale_of(av.take(j as int), fv)),
            stale == stale_of(av.take(j as int), fv).len(),
            stale <= j,
        decreases allowed.len() - j,
    {
        assert(av.take(j + 1).drop_last() =~= av.take(j as int));
        assert(av.take(j + 1).last() == allowed@[j as int]@);
        let ghost prev = stale_of(av.take(j as int), fv);
        if !any_signature(findings, &allowed[j]) {
            let line = render_stale(&allowed[j]);
            let ghost before = texts_view(lines@);
            let ghost lv = line@;
            lines.push(line);
            stale += 1;
            assert(texts_view(lines@) =~= before.push(lv));
            assert(stale_of(av.take(j + 1), fv) == prev.push(allowed@[j as int]@));
            assert(stale_lines(prev.push(allowed@[j as int]@)) =~= stale_lines(prev).push(lv));
            assert(texts_view(lines@) =~= vlines + stale_lines(stale_of(av.take(j + 1), fv)));
        } else {
            assert(stale_lines(stale_of(av.take(j + 1), fv)) =~= stale_lines(stale_of(av.take(j as int), fv)));
        }
        j += 1;
    }
    assert(av.take(allowed.len() as int) =~= av);
    let failed = violations > 0 || stale > 0;
    if failed {
        let line = render_summary(violations, stale);
        let ghost before = texts_view(lines@);
        lines.push(line);
        assert(texts_view(lines@) =~= before + seq![summary_line(violations as nat, stale as nat)]);
    } else {
        assert(texts_view(lines@) =~= texts_view(lines@) + Seq::<Seq<char>>::empty());
    }
    LintReport { lines, violations, stale, failed }
}

// ── the command line and the walk ────────────────────────────────────────────

/// A run's inputs: the allowlist file, if any, and the paths to walk.
pub struct LintArgs {
    pub allow: Option<String>,
    pub roots: Vec<String>,
}

/// Reads arguments from `i` on: `--allow` takes the next argument as the
/// allowlist (and clears it when there is none); anything else is a path.
pub open spec fn args_from(
    args: Seq<Seq<char>>,
    i: int,
    allow: Option<Seq<char>>,
    roots: Seq<Seq<char>>,
) -> (Option<Seq<char>>, Seq<Seq<char>>)
    decreases args.len() - i,
{
    if i >= args.len() {
        (allow, roots)
    } else if args[i] == "--allow"@ {
        if i + 1 < args.len() {
            args_from(args, i + 2, Some(args[i + 1]), roots)
        } else {
            args_from(args, i + 1, None, roots)
        }
    } else {
        args_from(args, i + 1, allow, roots.push(args[i]))
    }
}

/// Reads the arguments after the program name. `None` when no path was
/// given: the run prints its usage instead.
pub fn parse_args(args: &Vec<String>) -> (r: Option<LintArgs>)
    ensures
        ({
            let (allow, roots) = args_from(texts_view(args@), 0, None, Seq::empty());
            match r {
                None => roots.len() == 0,
                Some(a) => roots.len() > 0 && opt_view(a.allow) == allow && texts_view(a.roots@) == roots,
            }
        }),
{
    let ghost av = texts_view(args@);
    let flag = String::from_str("--allow");
    let mut allow: Option<String> = None;
    let mut roots: Vec<String> = Vec::new();
    let mut i: usize = 0;
    assert(texts_view(roots@) =~= Seq::<Seq<char>>::empty());
    while i < args.len()
        invariant
            i <= args.len(),
            av == texts_view(args@),
            flag@ == "--allow"@,
            args_from(av, i as int, opt_view(allow), texts_view(roots@)) == args_from(
                av,
                0,
                None,
                Seq::empty(),
            ),
        decreases args.len() - i,
    {
        if args[i] == flag {
            if i + 1 < args.len() {
                allow = Some(args[i + 1].clone());
                i += 2;
            } else {
                allow = None;
                i += 1;
            }
        } else {
            let ghost before = texts_view(roots@);
            roots.push(args[i].clone());
            assert(texts_view(roots@) =~= before.push(av[i as int]));
            i += 1;
        }
    }
    if roots.len() == 0 {
        None
    } else {
        Some(LintArgs { allow, roots })
    }
}

/// What the walk does with a directory entry.
#[derive(Clone, Copy, Debug, PartialEq, Eq, Structural)]
pub enum EntryAction {
    /// A directory to read.
    Descend,
    /// A build-output directory, left alone.
    Skip,
    /// A Rust source file, to lint.
    Collect,
    /// Anything else.
    Ignore,
}

/// Build output (`target`) is skipped, every other directory is read, and
/// every `.rs` file is linted.
pub fn classify_entry(is_dir: bool, name: &Option<String>, extension: &Option<String>) -> (r: EntryAction)
    ensures
        r == (if is_dir {
            if opt_view(*name) == Some("target"@) {
                EntryAction::Skip
            } else {
                EntryAction::Descend
            }
        } else if opt_view(*extension) == Some("rs"@) {
            EntryAction::Collect
        } else {
            EntryAction::Ignore
        }),
{
    if is_dir {
        match name {
            Some(n) => {
                if *n == String::from_str("target") {
                    EntryAction::Skip
                } else {
                    EntryAction::Descend
                }
            },
            None => EntryAction::Descend,
        }
    } else {
        match extension {
            Some(e) => {
                if *e == String::from_str("rs") {
                    EntryAction::Collect
                } else {
                    EntryAction::Ignore
                }
            },
            None => EntryAction::Ignore,
        }
    }
}

// ── laws ─────────────────────────────────────────────────────────────────────

/// An impl where either side's type name ends in `Error` is never flagged:
/// error conversions are how `?` bubbles between layers.
pub proof fn law_error_conversions_pass(item: ImplModel)
    requires
        item.trait_path matches Some(tp) && (error_named(trait_arg_name_of(tp)) || error_named(
            type_ident_of(item.self_ty),
        )),
    ensures
        signature_of(item) is None,
{
}

/// Every `From`, `TryFrom`, `Into` or `TryInto` impl is flagged unless one
/// side's type name ends in `Error`: the finding's signature names the trait,
/// the trait's type argument and the implementing type.
pub proof fn law_conversion_impls_flagged(item: ImplModel, t: Seq<char>)
    requires
        item.trait_path matches Some(tp) && tail_of(tp) == Some(t),
        t == "From"@ || t == "TryFrom"@ || t == "Into"@ || t == "TryInto"@,
        !error_named(trait_arg_name_of(item.trait_path->Some_0)),
        !error_named(type_ident_of(item.self_ty)),
    ensures
        signature_of(item) == Some(
            signature_text(t, trait_arg_name_of(item.trait_path->Some_0), type_ident_of(item.self_ty)),
        ),
{
    reveal_strlit("From");
    reveal_strlit("TryFrom");
    reveal_strlit("Into");
    reveal_strlit("TryInto");
    assert("From"@ =~= seq!['F', 'r', 'o', 'm']);
    assert("TryFrom"@ =~= seq!['T', 'r', 'y', 'F', 'r', 'o', 'm']);
    assert("Into"@ =~= seq!['I', 'n', 't', 'o']);
    assert("TryInto"@ =~= seq!['T', 'r', 'y', 'I', 'n', 't', 'o']);
    assert(conversion_trait(t));
}

proof fn lemma_findings_hold(file: Seq<char>, impls: Seq<ImplModel>, i: int)
    requires
        0 <= i < impls.len(),
        signature_of(impls[i]) is Some,
    ensures
        exists|k: int|
            0 <= k < findings_of(file, impls).len() && #[trigger] findings_of(file, impls)[k] == (FindingV {
                file,
                line: impls[i].line as nat,
                signature: signature_of(impls[i])->Some_0,
            }),
    decreases impls.len(),
{
    let f = FindingV { file, line: impls[i].line as nat, signature: signature_of(impls[i])->Some_0 };
    let rest = findings_of(file, impls.drop_last());
    if i == impls.len() - 1 {
        assert(findings_of(file, impls)[rest.len() as int] == f);
    } else {
        lemma_findings_hold(file, impls.drop_last(), i);
        assert(impls.drop_last()[i] == impls[i]);
        let k = choose|k: int| 0 <= k < rest.len() && #[trigger] rest[k] == f;
        assert(findings_of(file, impls)[k] == f);
    }
}

/// A file's findings are its flagged impls, in file order: an impl of a
/// conversion trait whose sides are not errors gives a finding at its line,
/// with its signature.
pub proof fn law_lint_flags_each_conversion_impl(file: Seq<char>, impls: Seq<ImplModel>, i: int, t: Seq<char>)
    requires
        0 <= i < impls.len(),
        impls[i].trait_path matches Some(tp) && tail_of(tp) == Some(t),
        t == "From"@ || t == "TryFrom"@ || t == "Into"@ || t == "TryInto"@,
        !error_named(trait_arg_name_of(impls[i].trait_path->Some_0)),
        !error_named(type_ident_of(impls[i].self_ty)),
    ensures
        exists|k: int|
            0 <= k < findings_of(file, impls).len() && #[trigger] findings_of(file, impls)[k] == (FindingV {
                file,
                line: impls[i].line as nat,
                signature: signature_text(t, trait_arg_name_of(impls[i].trait_path->Some_0), type_ident_of(impls[i].self_ty)),
            }),
{
    law_conversion_impls_flagged(impls[i], t);
    lemma_findings_hold(file, impls, i);
}

/// Only `From`, `TryFrom`, `Into` and `TryInto` impls are flagged.
pub proof fn law_only_conversion_traits_flagged(item: ImplModel)
    requires
        signature_of(item) is Some,
    ensures
        item.trait_path matches Some(tp) && tail_of(tp) matches Some(t) && conversion_trait(t),
{
}

/// The violations are exactly the findings whose signature the allowlist does
/// not hold.
pub proof fn law_violations_are_the_uncovered_findings(fs: Seq<FindingV>, allowed: Seq<Seq<char>>)
    ensures
        forall|k: int| 0 <= k < violations_of(fs, allowed).len() ==> !allowed.contains(
            (#[trigger] violations_of(fs, allowed)[k]).signature,
        ),
        forall|k: int| 0 <= k < violations_of(fs, allowed).len() ==> fs.contains(
            #[trigger] violations_of(fs, allowed)[k],
        ),
        forall|k: int|
            0 <= k < fs.len() && !allowed.contains((#[trigger] fs[k]).signature) ==> violations_of(
                fs,
                allowed,
            ).contains(fs[k]),
    decreases fs.len(),
{
    if fs.len() > 0 {
        let rest = fs.drop_last();
        law_violations_are_the_uncovered_findings(rest, allowed);
        let v = violations_of(fs, allowed);
        let rv = violations_of(rest, allowed);
        assert forall|k: int| 0 <= k < v.len() implies fs.contains(#[trigger] v[k]) by {
            if k < rv.len() {
                assert(v[k] == rv[k]);
                let j = choose|j: int| 0 <= j < rest.len() && rest[j] == rv[k];
                assert(fs[j] == rest[j]);
            } else {
                assert(fs[fs.len() - 1] == v[k]);
            }
        }
        assert forall|k: int| 0 <= k < v.len() implies !allowed.contains((#[trigger] v[k]).signature) by {
            if k < rv.len() {
                assert(v[k] == rv[k]);
            }
        }
        assert forall|k: int| 0 <= k < fs.len() && !allowed.contains((#[trigger] fs[k]).signature) implies v.contains(
            fs[k],
        ) by {
            if k < fs.len() - 1 {
                assert(rest[k] == fs[k]);
                let j = choose|j: int| 0 <= j < rv.len() && rv[j] == fs[k];
                assert(v[j] == rv[j]);
            } else {
                assert(v[v.len() - 1] == fs[k]);
            }
        }
    }
}

/// The stale entries are exactly the allowlist entries that no finding
/// matched: a covered finding keeps its entry alive.
pub proof fn law_stale_entries_match_nothing(allowed: Seq<Seq<char>>, fs: Seq<FindingV>)
    ensures
        forall|x: Seq<char>| #[trigger] stale_of(allowed, fs).contains(x) <==> (allowed.contains(x) && !matched(fs, x)),
    decreases allowed.len(),
{
    if allowed.len() > 0 {
        let rest = allowed.drop_last();
        law_stale_entries_match_nothing(rest, fs);
        let st = stale_of(allowed, fs);
        let rs = stale_of(rest, fs);
        assert forall|x: Seq<char>| #[trigger] st.contains(x) <==> (allowed.contains(x) && !matched(fs, x)) by {
            if st.contains(x) {
                let j = choose|j: int| 0 <= j < st.len() && st[j] == x;
                if j < rs.len() {
                    assert(rs[j] == x);
                    assert(rs.contains(x));
                    let m = choose|m: int| 0 <= m < rest.len() && rest[m] == x;
                    assert(allowed[m] == x);
                } else {
                    assert(allowed[allowed.len() - 1] == x);
                }
            }
            if allowed.contains(x) && !matched(fs, x) {
                let m = choose|m: int| 0 <= m < allowed.len() && allowed[m] == x;
                if m < allowed.len() - 1 {
                    assert(rest[m] == x);
                    assert(rs.contains(x));
                    let j = choose|j: int| 0 <= j < rs.len() && rs[j] == x;
                    assert(st[j] == x);
                } else {
                    assert(st[st.len() - 1] == x);
                }
            }
        }
    }
}

/// A run fails exactly when some finding is not allowlisted or some
/// allowlist entry is stale.
pub proof fn law_run_fails_iff_something_to_fix(fs: Seq<FindingV>, allowed: Seq<Seq<char>>)
    ensures
        (violations_of(fs, allowed).len() + stale_of(allowed, fs).len() > 0) <==> (
        (exists|k: int| 0 <= k < fs.len() && !allowed.contains((#[trigger] fs[k]).signature))
            || (exists|m: int| 0 <= m < allowed.len() && !matched(fs, #[trigger] allowed[m]))),
{
    law_violations_are_the_uncovered_findings(fs, allowed);
    law_stale_entries_match_nothing(allowed, fs);
    let v = violations_of(fs, allowed);
    let st = stale_of(allowed, fs);
    if v.len() > 0 {
        assert(fs.contains(v[0]));
    }
    if st.len() > 0 {
        assert(st.contains(st[0]));
    }
    if exists|k: int| 0 <= k < fs.len() && !allowed.contains((#[trigger] fs[k]).signature) {
        let k = choose|k: int| 0 <= k < fs.len() && !allowed.contains((#[trigger] fs[k]).signature);
        assert(v.contains(fs[k]));
    }
    if exists|m: int| 0 <= m < allowed.len() && !matched(fs, #[trigger] allowed[m]) {
        let m = choose|m: int| 0 <= m < allowed.len() && !matched(fs, #[trigger] allowed[m]);
        assert(allowed.contains(allowed[m]));
        assert(st.contains(allowed[m]));
    }
}

/// Two strictly sorted lists with the same entries are the same list: what
/// an allowlist reads as depends only on the set of signatures it names, not
/// on their order or on repeats.
pub proof fn law_sorted_entries_are_canonical(a: Seq<Seq<char>>, b: Seq<Seq<char>>)
    requires
        strictly_sorted(a),
        strictly_sorted(b),
        a.to_set() == b.to_set(),
    ensures
        a == b,
    decreases a.len() + b.len(),
{
    if a.len() == 0 || b.len() == 0 {
        if a.len() > 0 {
            assert(a.to_set().contains(a[0]));
        }
        if b.len() > 0 {
            assert(b.to_set().contains(b[0]));
        }
        assert(a =~= b);
    } else {
        // The least entry comes first in both.
        assert(a.to_set().contains(a[0]));
        assert(b.to_set().contains(b[0]));
        let i = choose|i: int| 0 <= i < b.len() && b[i] == a[0];
        let j = choose|j: int| 0 <= j < a.len() && a[j] == b[0];
        if i > 0 {
            assert(text_before(b[0], b[i]));
            if j > 0 {
                assert(text_before(a[0], a[j]));
                lemma_text_before_asymmetric(b[0], a[0]);
            } else {
                lemma_text_before_irreflexive(b[0]);
            }
        }
        assert(a[0] == b[0]);
        let ta = a.drop_first();
        let tb = b.drop_first();
        assert(strictly_sorted(ta)) by {
            assert forall|x: int, y: int| 0 <= x < y < ta.len() implies text_before(#[trigger] ta[x], #[trigger] ta[y]) by {
                assert(ta[x] == a[x + 1] && ta[y] == a[y + 1]);
            }
        }
        assert(strictly_sorted(tb)) by {
            assert forall|x: int, y: int| 0 <= x < y < tb.len() implies text_before(#[trigger] tb[x], #[trigger] tb[y]) by {
                assert(tb[x] == b[x + 1] && tb[y] == b[y + 1]);
            }
        }
        assert forall|x: Seq<char>| ta.to_set().contains(x) <==> tb.to_set().contains(x) by {
            if ta.to_set().contains(x) {
                let p = choose|p: int| 0 <= p < ta.len() && ta[p] == x;
                assert(a[p + 1] == x);
                assert(text_before(a[0], a[p + 1]));
                assert(a.to_set().contains(x));
                assert(b.to_set().contains(x));
                let q = choose|q: int| 0 <= q < b.len() && b[q] == x;
                if q == 0 {
                    lemma_text_before_irreflexive(x);
                }
                assert(tb[q - 1] == x);
            }
            if tb.to_set().contains(x) {
                let p = choose|p: int| 0 <= p < tb.len() && tb[p] == x;
                assert(b[p + 1] == x);
                assert(text_before(b[0], b[p + 1]));
                assert(b.to_set().contains(x));
                assert(a.to_set().contains(x));
                let q = choose|q: int| 0 <= q < a.len() && a[q] == x;
                if q == 0 {
                    lemma_text_before_irreflexive(x);
                }
                assert(ta[q - 1] == x);
            }
        }
        assert(ta.to_set() =~= tb.to_set());
        law_sorted_entries_are_canonical(ta, tb);
        assert(a =~= seq![a[0]] + ta);
        assert(b =~= seq![b[0]] + tb);
    }
}

} // verus!
verus! {

// ── reading a file's impl items ──────────────────────────────────────────────

#[verifier::external_type_specification]
#[verifier::external_body]
pub struct ExItemImpl(syn::ItemImpl);

#[verifier::external_type_specification]
#[verifier::external_body]
pub struct ExSynPath(syn::Path);

#[verifier::external_type_specification]
#[verifier::external_body]
pub struct ExSynType(syn::Type);

#[verifier::external_type_specification]
#[verifier::external_body]
pub struct ExPathArguments(syn::PathArguments);

#[verifier::external_type_specification]
#[verifier::external_body]
pub struct ExGenericArgument(syn::GenericArgument);

/// The impl items `syn::parse_file` and `syn::visit` find in a file's text,
/// nested ones included, in visiting order; `None` when the text does not
/// parse as a file.
pub uninterp spec fn impls_in(source: Seq<char>) -> Option<Seq<ImplModel>>;

/// `syn::Path`, segment by segment.
#[verifier::external_body]
fn path_model(path: &syn::Path) -> PathModel {
    PathModel {
        segments: path.segments.iter().map(|s| Segment { ident: s.ident.to_string(), args: segment_args(&s.arguments) }).collect(),
    }
}

/// `syn::PathArguments`, variant by variant.
#[verifier::external_body]
fn segment_args(args: &syn::PathArguments) -> SegmentArgs {
    match args {
        syn::PathArguments::None => SegmentArgs::Bare,
        syn::PathArguments::AngleBracketed(a) => SegmentArgs::Angle(a.args.iter().map(|g| generic_arg(g)).collect()),
        syn::PathArguments::Parenthesized(_) => SegmentArgs::Paren,
    }
}

/// `syn::GenericArgument`: a type, or anything else.
#[verifier::external_body]
fn generic_arg(arg: &syn::GenericArgument) -> GenericArg {
    match arg {
        syn::GenericArgument::Type(t) => GenericArg::Type(type_model(t)),
        _ => GenericArg::Other,
    }
}

/// `syn::Type`: a path, a reference, or anything else.
#[verifier::external_body]
fn type_model(ty: &syn::Type) -> TypeModel {
    match ty {
        syn::Type::Path(p) => TypeModel::Path(path_model(&p.path)),
        syn::Type::Reference(r) => TypeModel::Reference(Box::new(type_model(&r.elem))),
        _ => TypeModel::Other,
    }
}

/// Collects a file's impl items while `syn::visit` walks it.
pub struct ImplCollector {
    pub impls: Vec<ImplModel>,
}

impl<'ast> syn::visit::Visit<'ast> for ImplCollector {
    /// Records the impl (its trait path, its type, the line of `impl`) and
    /// walks on into it.
    #[verifier::external_body]
    fn visit_item_impl(&mut self, item: &'ast syn::ItemImpl) {
        self.impls.push(ImplModel {
            trait_path: item.trait_.as_ref().map(|t| path_model(&t.1)),
            self_ty: type_model(&item.self_ty),
            line: item.impl_token.span.start().line,
        });
        syn::visit::visit_item_impl(self, item);
    }
}

/// `syn::parse_file`, then `syn::visit::Visit::visit_file`: the impl items of
/// a file's text, as `impls_in` names them.
#[verifier::external_body]
fn file_impls(source: &str) -> (r: Option<Vec<ImplModel>>)
    ensures
        match r {
            Some(v) => impls_in(source@) == Some(v@),
            None => impls_in(source@) is None,
        },
{
    match syn::parse_file(source) {
        Ok(file) => {
            let mut collector = ImplCollector { impls: Vec::new() };
            syn::visit::Visit::visit_file(&mut collector, &file);
            Some(collector.impls)
        },
        Err(_) => None,
    }
}

/// Lints one file's text: `None` when it does not parse (such a file is the
/// compiler's problem, not the lint's), else the conversion impls it holds,
/// in file order.
pub fn lint_source(file: &String, source: &str) -> (r: Option<Vec<Finding>>)
    ensures
        match impls_in(source@) {
            None => r is None,
            Some(impls) => r matches Some(f) && findings_view(f@) == findings_of(file@, impls),
        },
{
    match file_impls(source) {
        None => None,
        Some(impls) => Some(find_conversions(file, &impls)),
    }
}

} // verus!
