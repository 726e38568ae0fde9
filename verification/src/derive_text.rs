//! `#[derive(MagicMap)]` from the text of the item it is applied to: `syn`
//! reads the item, the parts the derive needs are taken from it as plain
//! values, and the derive plans what to emit.
use vstd::prelude::*;
use crate::schema::{decl_view, derive_parts_spec, Attr, AttrPath, Data, DeriveError, DeriveInput, Fields, SchemaDecl, Variant};
use crate::tokens::{Delim, Tok};
use syn::DeriveInput as SynItem;
use syn::Fields as SynFields;

verus! {

#[verifier::external_type_specification]
#[verifier::external_body]
pub struct ExSynItem(SynItem);

#[verifier::external_type_specification]
#[verifier::external_body]
pub struct ExTokenStream(proc_macro2::TokenStream);

#[verifier::external_type_specification]
pub struct ExDelimiter(proc_macro2::Delimiter);

#[verifier::external_type_specification]
#[verifier::external_body]
pub struct ExSynFields(SynFields);

/// What `syn` reads of an item's text, as the derive needs it: the item's
/// name (as `Ident`'s `Display` writes it); its body (the field names of a
/// struct with the path of each attribute of each field, or the variants of
/// an enum with whether each is a unit variant); and its attributes (each
/// one's path, and its argument tokens, spans left out, when it has the
/// `#[path(..)]` form). A path is whether it starts with `::` and its
/// segments' identifiers as `Ident`'s `Display` writes them. `None` when the
/// text is not a struct, enum or union.
pub uninterp spec fn derive_item_of(text: Seq<char>) -> Option<(Seq<char>, Data, Seq<Attr>)>;

/// `syn::parse_str::<syn::DeriveInput>`, then the item's name, body and
/// attributes turned into the library's values, as `derive_item_of` names
/// them.
#[verifier::external_body]
fn read_derive_item(text: &str) -> (r: Option<(String, Data, Vec<Attr>)>)
    ensures
        match r {
            None => derive_item_of(text@) is None,
            Some((n, d, a)) => derive_item_of(text@) == Some((n@, d, a@)),
        },
{
    match syn::parse_str::<SynItem>(text) {
        Ok(item) => Some((item.ident.to_string(), derive_data(&item), derive_attrs(&item))),
        Err(_) => None,
    }
}

/// `syn::Data` of the item, field by field (with the path of each attribute
/// of each field) and variant by variant.
#[verifier::external_body]
fn derive_data(d: &SynItem) -> Data {
    match &d.data {
        syn::Data::Struct(s) => Data::Struct(struct_fields(&s.fields)),
        syn::Data::Enum(e) => Data::Enum(
            e.variants.iter().map(|v| Variant { name: v.ident.to_string(), unit: matches!(v.fields, syn::Fields::Unit) }).collect(),
        ),
        syn::Data::Union(_) => Data::Union,
    }
}

/// `syn::Fields`: named fields with the path of each of their attributes;
/// tuple fields; or none.
#[verifier::external_body]
fn struct_fields(fields: &SynFields) -> Fields {
    match fields {
        syn::Fields::Named(n) => Fields::Named(
            n.named.iter().map(|f| f.ident.as_ref().unwrap().to_string()).collect(),
            n.named.iter().map(|f| f.attrs.iter().map(|a| attr_path(a.path())).collect()).collect(),
        ),
        syn::Fields::Unnamed(_) => Fields::Unnamed,
        syn::Fields::Unit => Fields::Unit,
    }
}

/// `syn::Path` of an attribute: its leading `::` and its segments'
/// identifiers.
#[verifier::external_body]
fn attr_path(p: &syn::Path) -> AttrPath {
    AttrPath { global: p.leading_colon.is_some(), segments: p.segments.iter().map(|s| s.ident.to_string()).collect() }
}

/// `syn::Attribute::path` and `syn::Attribute::meta` of each attribute.
#[verifier::external_body]
fn derive_attrs(d: &SynItem) -> Vec<Attr> {
    d.attrs.iter().map(|a| Attr {
        path: attr_path(a.path()),
        list: match &a.meta {
            syn::Meta::List(l) => Some(token_trees(&l.tokens)),
            _ => None,
        },
    }).collect()
}

/// The delimiter of a group.
pub fn delim_of(d: proc_macro2::Delimiter) -> (r: Delim)
    ensures
        r == match d {
            proc_macro2::Delimiter::Parenthesis => Delim::Paren,
            proc_macro2::Delimiter::Brace => Delim::Brace,
            proc_macro2::Delimiter::Bracket => Delim::Bracket,
            proc_macro2::Delimiter::None => Delim::Invisible,
        },
{
    match d {
        proc_macro2::Delimiter::Parenthesis => Delim::Paren,
        proc_macro2::Delimiter::Brace => Delim::Brace,
        proc_macro2::Delimiter::Bracket => Delim::Bracket,
        proc_macro2::Delimiter::None => Delim::Invisible,
    }
}

/// `proc_macro2::TokenStream`'s token trees, each turned into the library's
/// token with span index 0.
#[verifier::external_body]
fn token_trees(ts: &proc_macro2::TokenStream) -> Vec<Tok> {
    ts.clone().into_iter().map(|tt| match tt {
        proc_macro2::TokenTree::Ident(i) => Tok::Ident { name: i.to_string(), sid: 0 },
        proc_macro2::TokenTree::Punct(p) => Tok::Punct { ch: p.as_char(), joint: p.spacing() == proc_macro2::Spacing::Joint, sid: 0 },
        proc_macro2::TokenTree::Literal(l) => Tok::Lit { text: l.to_string(), sid: 0 },
        proc_macro2::TokenTree::Group(g) => Tok::Group { delim: delim_of(g.delimiter()), body: token_trees(&g.stream()), sid: 0 },
    }).collect()
}

/// Plans `#[derive(MagicMap)]` for an item given as text: `None` when `syn`
/// does not read the text as a struct, enum or union; otherwise what the
/// derive plans for the item's name, body and attributes as `syn` reads them.
pub fn derive_from_text(text: &str) -> (r: Option<Result<Option<SchemaDecl>, DeriveError>>)
    ensures
        match derive_item_of(text@) {
            None => r is None,
            Some((name, data, attrs)) => r matches Some(x) && decl_view(x) == derive_parts_spec(name, data, attrs),
        },
{
    match read_derive_item(text) {
        None => None,
        Some((name, data, attrs)) => {
            let inp = DeriveInput { name, data, attrs };
            Some(crate::schema::derive(&inp))
        },
    }
}

} // verus!
