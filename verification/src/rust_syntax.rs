//! The Rust grammar itself belongs to `syn`: the declaration parser asks it
//! whether a run of tokens, rendered as source text, is a complete
//! expression, statement, type, path or visibility, what kind of type it is,
//! and what a literal's value is. Each answer is a function of the text alone.
use vstd::prelude::*;

verus! {

/// Whether `syn` parses the whole text as an expression.
pub uninterp spec fn parses_as_expr(text: Seq<char>) -> bool;

/// Whether `syn` parses the whole text as one statement.
pub uninterp spec fn parses_as_stmt(text: Seq<char>) -> bool;

/// Whether `syn` parses the whole text as a type.
pub uninterp spec fn parses_as_type(text: Seq<char>) -> bool;

/// Whether `syn` parses the whole text as a path.
pub uninterp spec fn parses_as_path(text: Seq<char>) -> bool;

/// Whether `syn` parses the whole text as a visibility (the empty text is
/// the inherited visibility).
pub uninterp spec fn parses_as_visibility(text: Seq<char>) -> bool;

/// What kind of type `syn` reads a text as.
#[derive(Debug, PartialEq, Eq, Structural, Clone, Copy)]
pub enum TypeShape {
    /// A type path, possibly qualified (`a::B<C>`, `<T as Tr>::X`).
    Path,
    /// A reference to a type path (`&a::B`, `&'a mut B`).
    BorrowedPath,
    /// A tuple, with its number of elements.
    Tuple(usize),
    /// Any other type, or text that is no type.
    Other,
}

/// The kind of type `syn` reads the whole text as.
pub uninterp spec fn type_shape_of(text: Seq<char>) -> TypeShape;

/// The value of an integer literal as `syn` reads it, when it fits a `usize`.
pub uninterp spec fn lit_usize_value(text: Seq<char>) -> Option<usize>;

/// The value of a string literal as `syn` reads it.
pub uninterp spec fn lit_str_text(text: Seq<char>) -> Option<Seq<char>>;

/// `syn::LitStr::value` of the literal `syn::parse_str` reads from the text:
/// claims only that the outcome is the named function of the text.
#[verifier::external_body]
pub(crate) fn lit_str(text: &str) -> (r: Option<String>)
    ensures
        match r {
            Some(v) => lit_str_text(text@) == Some(v@),
            None => lit_str_text(text@) is None,
        },
{
    match syn::parse_str::<syn::LitStr>(text) {
        Ok(lit) => Some(lit.value()),
        Err(_) => None,
    }
}

/// `syn::parse_str::<syn::Expr>`: claims only that the outcome is the named
/// function of the text.
#[verifier::external_body]
pub(crate) fn is_expr(text: &str) -> (r: bool)
    ensures
        r == parses_as_expr(text@),
{
    syn::parse_str::<syn::Expr>(text).is_ok()
}

/// `syn::parse_str::<syn::Stmt>`: claims only that the outcome is the named
/// function of the text.
#[verifier::external_body]
pub(crate) fn is_stmt(text: &str) -> (r: bool)
    ensures
        r == parses_as_stmt(text@),
{
    syn::parse_str::<syn::Stmt>(text).is_ok()
}

/// `syn::parse_str::<syn::Type>`: claims only that the outcome is the named
/// function of the text.
#[verifier::external_body]
pub(crate) fn is_type(text: &str) -> (r: bool)
    ensures
        r == parses_as_type(text@),
{
    syn::parse_str::<syn::Type>(text).is_ok()
}

/// `syn::parse_str::<syn::Path>`: claims only that the outcome is the named
/// function of the text.
#[verifier::external_body]
pub(crate) fn is_path(text: &str) -> (r: bool)
    ensures
        r == parses_as_path(text@),
{
    syn::parse_str::<syn::Path>(text).is_ok()
}

/// `syn::parse_str::<syn::Visibility>`: claims only that the outcome is the
/// named function of the text.
#[verifier::external_body]
pub(crate) fn is_visibility(text: &str) -> (r: bool)
    ensures
        r == parses_as_visibility(text@),
{
    syn::parse_str::<syn::Visibility>(text).is_ok()
}

/// `syn::LitInt::base10_parse::<usize>` of the literal `syn::parse_str`
/// reads from the text: claims only that the outcome is the named function
/// of the text.
#[verifier::external_body]
pub(crate) fn lit_usize(text: &str) -> (r: Option<usize>)
    ensures
        r == lit_usize_value(text@),
{
    match syn::parse_str::<syn::LitInt>(text) {
        Ok(lit) => match lit.base10_parse::<usize>() {
            Ok(v) => Some(v),
            Err(_) => None,
        },
        Err(_) => None,
    }
}

/// `syn::parse_str::<syn::Type>`, its variant told apart: a path, a
/// reference whose referent is a path, a tuple (with its element count), or
/// anything else.
#[verifier::external_body]
pub(crate) fn type_shape(text: &str) -> (r: TypeShape)
    ensures
        r == type_shape_of(text@),
{
    match syn::parse_str::<syn::Type>(text) {
        Ok(syn::Type::Path(_)) => TypeShape::Path,
        Ok(syn::Type::Reference(r)) => match *r.elem {
            syn::Type::Path(_) => TypeShape::BorrowedPath,
            _ => TypeShape::Other,
        },
        Ok(syn::Type::Tuple(t)) => TypeShape::Tuple(t.elems.len()),
        _ => TypeShape::Other,
    }
}

} // verus!
