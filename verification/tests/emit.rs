//! The Rust each plan is written out as, rendered back to compiler tokens
//! and compared with the code it stands for.
use magic_map::emit::{emit_front_call, emit_schema_macro, expand_to_tokens, Emit};
use magic_map::expand::ExpandError;
use magic_map::front::parse_magic_map_input;
use magic_map::input::parse_expand_input;
use magic_map::schema::{Data, DeriveInput, Fields, Variant};
use magic_map::tokens::{Delim, Tok, TokSpan};
use proc_macro2::{Delimiter, Group, Ident, Literal, Punct, Spacing, Span, TokenStream, TokenTree};

fn convert(ts: TokenStream, out: &mut Vec<Tok>) {
    for tt in ts {
        let tok = match tt {
            TokenTree::Ident(i) => Tok::Ident { name: i.to_string(), sid: 0 },
            TokenTree::Punct(p) => Tok::Punct { ch: p.as_char(), joint: p.spacing() == Spacing::Joint, sid: 0 },
            TokenTree::Literal(l) => Tok::Lit { text: l.to_string(), sid: 0 },
            TokenTree::Group(g) => {
                let delim = match g.delimiter() {
                    Delimiter::Parenthesis => Delim::Paren,
                    Delimiter::Bracket => Delim::Bracket,
                    Delimiter::Brace => Delim::Brace,
                    Delimiter::None => Delim::Invisible,
                };
                let mut body = Vec::new();
                convert(g.stream(), &mut body);
                Tok::Group { delim, body, sid: 0 }
            }
        };
        out.push(tok);
    }
}

fn toks(text: &str) -> Vec<Tok> {
    let mut out = Vec::new();
    convert(text.parse().unwrap(), &mut out);
    out
}

fn delimiter(d: &Delim) -> Delimiter {
    match d {
        Delim::Paren => Delimiter::Parenthesis,
        Delim::Bracket => Delimiter::Bracket,
        Delim::Brace => Delimiter::Brace,
        Delim::Invisible => Delimiter::None,
    }
}

fn ident(name: &str) -> Ident {
    match name.strip_prefix("r#") {
        Some(raw) => Ident::new_raw(raw, Span::call_site()),
        None => Ident::new(name, Span::call_site()),
    }
}

fn back(toks: &[Tok]) -> TokenStream {
    toks.iter()
        .map(|t| -> TokenTree {
            match t {
                Tok::Ident { name, .. } => ident(name).into(),
                Tok::Punct { ch, joint, .. } => Punct::new(*ch, if *joint { Spacing::Joint } else { Spacing::Alone }).into(),
                Tok::Lit { text, .. } => text.parse::<Literal>().unwrap().into(),
                Tok::Group { delim, body, .. } => Group::new(delimiter(delim), back(body)).into(),
            }
        })
        .collect()
}

fn run(top: &[Tok], s: &TokSpan) -> TokenStream {
    let mut body = top;
    for &g in &s.group {
        match &body[g] {
            Tok::Group { body: inner, .. } => body = inner,
            other => panic!("not a group: {other:?}"),
        }
    }
    back(&body[s.start..s.end])
}

fn render(emits: Vec<Emit>, top: &[Tok]) -> String {
    let mut stack: Vec<(Delimiter, TokenStream)> = vec![(Delimiter::None, TokenStream::new())];
    for e in emits {
        let tree: TokenTree = match e {
            Emit::Open(d) => {
                stack.push((delimiter(&d), TokenStream::new()));
                continue;
            }
            Emit::Splice(s) => {
                stack.last_mut().unwrap().1.extend(run(top, &s));
                continue;
            }
            Emit::Close => {
                let (d, inner) = stack.pop().unwrap();
                Group::new(d, inner).into()
            }
            Emit::Word(w) => ident(&w).into(),
            Emit::Punct(ch, joint) => Punct::new(ch, if joint { Spacing::Joint } else { Spacing::Alone }).into(),
            Emit::Index(n) => Literal::usize_unsuffixed(n).into(),
        };
        stack.last_mut().unwrap().1.extend([tree]);
    }
    assert_eq!(stack.len(), 1, "every group is closed");
    stack.pop().unwrap().1.to_string()
}

/// The code as the compiler would tokenize it; punctuation that the
/// expansion writes apart is written apart here too.
fn code(text: &str) -> String {
    text.parse::<TokenStream>().unwrap().to_string()
}

fn expanded(decl: &str) -> String {
    let t = toks(decl);
    let inp = parse_expand_input(&t).unwrap();
    render(expand_to_tokens(&t, &inp).unwrap().unwrap(), &t)
}

#[test]
fn a_struct_mapping_converts_each_field_with_a_question_mark() {
    let out = expanded(
        "@struct [name, lives] @for(0) @struct [name, lives, tag] @impl @src(api::Req) @dest(db::Row) @overrides{ let t = 1; tag: t, }",
    );
    assert_eq!(
        out,
        code(
            "impl ::magic_map::TryMapFrom < api::Req > for db::Row { \
             fn try_map_from(src: api::Req) -> ::core::result::Result < Self, ::magic_map::MappingError > { \
             let t = 1; \
             ::core::result::Result::Ok(db::Row { \
             name: ::magic_map::TryMapFrom::try_map_from(src.name) ? , \
             lives: ::magic_map::TryMapFrom::try_map_from(src.lives) ? , \
             tag: t , }) } }"
        )
    );
}

#[test]
fn an_infallible_mapping_uses_map_from_and_derives_the_fallible_impl() {
    let out = expanded("@struct [name] @for(0) @struct [name] @infallible @impl @src(api::Req) @dest(db::Row) @overrides{}");
    assert_eq!(
        out,
        code(
            "impl ::magic_map::MapFrom < api::Req > for db::Row { \
             fn map_from(src: api::Req) -> Self { db::Row { name: ::magic_map::MapFrom::map_from(src.name) , } } } \
             impl ::magic_map::TryMapFrom < api::Req > for db::Row { \
             fn try_map_from(src: api::Req) -> ::core::result::Result < Self, ::magic_map::MappingError > { \
             ::core::result::Result::Ok(< db::Row as ::magic_map::MapFrom < api::Req > > ::map_from(src)) } }"
        )
    );
}

#[test]
fn the_function_form_maps_enums_with_a_default_for_unspecified() {
    let out = expanded(
        "@enum [Unspecified, Cat, BigCat] @for(0) @enum [Cat, Lion] @fn(pub species_to_db) @src(wire::Species) @dest(db::Species) @overrides{ BigCat => Lion, }",
    );
    assert_eq!(
        out,
        code(
            "pub fn species_to_db(src: wire::Species) -> ::core::result::Result < db::Species, ::magic_map::MappingError > { \
             ::core::result::Result::Ok(match src { \
             wire::Species::Unspecified => < db::Species as ::core::default::Default > ::default() , \
             wire::Species::Cat => db::Species::Cat , \
             wire::Species::BigCat => db::Species::Lion , }) }"
        )
    );
}

#[test]
fn a_defaults_trailer_resolves_fields_through_the_fallback_pair() {
    let out = expanded(
        "@struct [name] @for(0) @struct [name, status] @impl @src(api::Req) @dest(db::Row) @overrides{ ..Default::default() }",
    );
    assert_eq!(
        out,
        code(
            "impl ::magic_map::TryMapFrom < api::Req > for db::Row { \
             fn try_map_from(src: api::Req) -> ::core::result::Result < Self, ::magic_map::MappingError > { \
             let __magic_fb = < db::Row as ::core::default::Default > ::default() ; \
             ::core::result::Result::Ok(db::Row { \
             name: { use ::magic_map::{MapFieldOpt as _, MapFieldVal as _, MapFieldWrap as _} ; \
             (& mut & mut & mut ::magic_map::MapPair(::core::option::Option::Some(src.name) , \
             ::core::option::Option::Some(__magic_fb.name))) . map_field_or() ? } , \
             .. ::core::default::Default::default() }) } }"
        )
    );
}

#[test]
fn a_missing_schema_chains_through_the_element_that_needs_it() {
    let decl = "@struct [id, name] @impl @src((db::License, i64)) @dest(Card) @overrides{}";
    let t = toks(decl);
    let inp = parse_expand_input(&t).unwrap();
    let out = render(expand_to_tokens(&t, &inp).unwrap().unwrap(), &t);
    assert_eq!(out, code(&format!("db::__magic_map_schema_License ! {{ @ for(0) {decl} }}")));
}

#[test]
fn a_planning_error_is_handed_back() {
    let t = toks("@struct [a] @for(0) @struct [b] @impl @src(S) @dest(D) @overrides{ zz: 1, }");
    let inp = parse_expand_input(&t).unwrap();
    assert_eq!(expand_to_tokens(&t, &inp).err(), Some(ExpandError::UnknownField(0)));
}

#[test]
fn the_front_end_calls_the_destination_schema() {
    let t = toks("infallible pub fn to_dto: db::Status => dto::r#Status { Trial => Free, }");
    let m = parse_magic_map_input(&t).unwrap();
    let out = render(emit_front_call(&t, &m).unwrap(), &t);
    assert_eq!(
        out,
        code(
            "dto::__magic_map_schema_Status ! { @ infallible @ fn(pub to_dto) @ src(db::Status) @ dest(dto::r#Status) @ overrides{ Trial => Free, } }"
        )
    );
}

#[test]
fn the_derive_exports_a_schema_macro_and_an_alias() {
    let inp = DeriveInput {
        name: "Row".to_string(),
        data: Data::Struct(Fields::Named(vec!["id".to_string(), "status".to_string()], vec![vec![], vec![]])),
        attrs: vec![],
    };
    let mut decl = magic_map::schema::derive(&inp).unwrap().unwrap();
    decl.shape.declared = vec!["status".to_string()];
    let out = render(emit_schema_macro(&decl), &[]);
    assert_eq!(
        out,
        code(
            "#[doc(hidden)] #[macro_export] macro_rules ! __magic_map_export_schema_Row { \
             ($ ($ rest : tt) *) => { ::magic_map::__magic_map_expand ! { @ struct [id , * status] $ ($ rest) * } } ; } \
             #[doc(hidden)] #[allow(unused_imports)] pub use __magic_map_export_schema_Row as __magic_map_schema_Row ;"
        )
    );
    let unit = DeriveInput {
        name: "Kind".to_string(),
        data: Data::Enum(vec![Variant { name: "A".to_string(), unit: true }]),
        attrs: vec![],
    };
    let decl = magic_map::schema::derive(&unit).unwrap().unwrap();
    assert!(render(emit_schema_macro(&decl), &[]).contains(&code("@ enum [A]")));
}

#[test]
fn an_infallible_enum_mapping_is_written_without_a_question_mark() {
    let out = expanded(
        "@enum [Image, Document] @for(0) @enum [Image, Document] @infallible @impl @src(WireKind) @dest(DomainKind) @overrides{}",
    );
    assert!(!out.contains('?'));
    assert_eq!(
        out,
        code(
            "impl ::magic_map::MapFrom < WireKind > for DomainKind { \
             fn map_from(src: WireKind) -> Self { match src { \
             WireKind::Image => DomainKind::Image , WireKind::Document => DomainKind::Document , } } } \
             impl ::magic_map::TryMapFrom < WireKind > for DomainKind { \
             fn try_map_from(src: WireKind) -> ::core::result::Result < Self, ::magic_map::MappingError > { \
             ::core::result::Result::Ok(< DomainKind as ::magic_map::MapFrom < WireKind > > ::map_from(src)) } }"
        )
    );
}
