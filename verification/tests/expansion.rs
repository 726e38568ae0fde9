//! Declarations run through the planners the way the macros run them: the
//! front end reads the declaration, the schema macros prepend the shapes they
//! publish, and the expander plans what the declaration becomes.
use magic_map::expand::{expand, ExpandError, ExpandInput, FieldPlan, Plan, Target};
use magic_map::front::{front, parse_magic_map_input};
use magic_map::input::{parse_expand_input, SyntaxError};
use magic_map::tokens::{Delim, Tok};
use proc_macro2::{Delimiter, Spacing, TokenStream, TokenTree};

fn convert(ts: TokenStream, next: &mut usize, out: &mut Vec<Tok>) {
    for tt in ts {
        *next += 1;
        let sid = *next;
        let tok = match tt {
            TokenTree::Ident(i) => Tok::Ident { name: i.to_string(), sid },
            TokenTree::Punct(p) => Tok::Punct { ch: p.as_char(), joint: p.spacing() == Spacing::Joint, sid },
            TokenTree::Literal(l) => Tok::Lit { text: l.to_string(), sid },
            TokenTree::Group(g) => {
                let delim = match g.delimiter() {
                    Delimiter::Parenthesis => Delim::Paren,
                    Delimiter::Bracket => Delim::Bracket,
                    Delimiter::Brace => Delim::Brace,
                    Delimiter::None => Delim::Invisible,
                };
                let mut body = Vec::new();
                convert(g.stream(), next, &mut body);
                Tok::Group { delim, body, sid }
            }
        };
        out.push(tok);
    }
}

fn toks(text: &str) -> Vec<Tok> {
    let mut out = Vec::new();
    convert(text.parse().unwrap(), &mut 0, &mut out);
    out
}

fn pass(text: &str) -> ExpandInput {
    parse_expand_input(&toks(text)).unwrap()
}

/// Where each source variant goes, by name; `None` for the destination's default.
fn arms(plan: Plan, dest: &[&str]) -> Vec<Option<String>> {
    match plan {
        Plan::Arms(targets) => targets
            .iter()
            .map(|t| match t {
                Target::Variant(d) => Some(dest[*d].to_string()),
                Target::DestDefault => None,
            })
            .collect(),
        other => panic!("expected arms, got {other:?}"),
    }
}

fn image_of(plan: Plan, src: &[&str], dest: &[&str], variant: &str) -> Option<String> {
    let k = src.iter().position(|v| *v == variant).unwrap();
    arms(plan, dest)[k].clone()
}

const STATUS: [&str; 3] = ["Trial", "Active", "Suspended"];

#[test]
fn infallible_enum_form_needs_no_question_mark() {
    let decl = toks("infallible WireKind => DomainKind");
    let m = parse_magic_map_input(&decl).unwrap();
    assert!(m.infallible);
    assert!(m.func.is_none());
    let plan = front(&decl, &m).unwrap();
    assert_eq!(plan.schema, "__magic_map_schema_DomainKind");
    // The destination's schema prepends its variants; an enum mapping then
    // needs the source's variants too.
    let first = pass("@enum [Image, Document] @infallible @impl @src(WireKind) @dest(DomainKind) @overrides{}");
    assert!(first.infallible);
    assert!(matches!(expand(&first), Ok(Plan::Chain(0))));
    let second = pass(
        "@enum [Image, Document] @for(0) @enum [Image, Document] @infallible @impl @src(WireKind) @dest(DomainKind) @overrides{}",
    );
    let kinds = ["Image", "Document"];
    assert_eq!(image_of(expand(&second).unwrap(), &kinds, &kinds, "Document"), Some("Document".to_string()));
    assert_eq!(image_of(expand(&second).unwrap(), &kinds, &kinds, "Image"), Some("Image".to_string()));
}

#[test]
fn enum_impl_form_maps_both_directions() {
    let there = pass(
        "@enum [Trial, Active, Suspended] @for(0) @enum [Trial, Active, Suspended] @impl @src(db::Status) @dest(super::dtos::StatusDto) @overrides{}",
    );
    let dto = image_of(expand(&there).unwrap(), &STATUS, &STATUS, "Suspended").unwrap();
    assert_eq!(dto, "Suspended");
    let back = pass(
        "@enum [Trial, Active, Suspended] @for(0) @enum [Trial, Active, Suspended] @impl @src(super::dtos::StatusDto) @dest(db::Status) @overrides{}",
    );
    let again = image_of(expand(&back).unwrap(), &STATUS, &STATUS, &dto).unwrap();
    assert_eq!(again, "Suspended");
}

#[test]
fn fn_form_generates_a_plain_function() {
    let decl = toks("pub fn status_to_dto: db::Status => super::dtos::StatusDto");
    let m = parse_magic_map_input(&decl).unwrap();
    assert_eq!(m.func.as_ref().unwrap().name, "status_to_dto");
    let inp = pass(
        "@enum [Trial, Active, Suspended] @for(0) @enum [Trial, Active, Suspended] @fn(pub status_to_dto) @src(db::Status) @dest(super::dtos::StatusDto) @overrides{}",
    );
    assert_eq!(inp.func.as_ref().unwrap().name, "status_to_dto");
    assert_eq!(image_of(expand(&inp).unwrap(), &STATUS, &STATUS, "Trial"), Some("Trial".to_string()));
}

#[test]
fn enum_mappings() {
    let wire = ["Unspecified", "Cat", "Dog", "BigCat"];
    let db = ["Cat", "Dog", "Lion"];
    let inp = pass(
        "@enum [Unspecified, Cat, Dog, BigCat] @for(0) @enum [Cat, Dog, Lion] @fn(pub species_to_db) @src(wire::Species) @dest(db::Species) @overrides{ BigCat => Lion, }",
    );
    let plan = expand(&inp).unwrap();
    let images = arms(plan, &db);
    assert_eq!(images[3], Some("Lion".to_string())); // renamed
    assert_eq!(images[2], Some("Dog".to_string())); // same name
    assert_eq!(images[0], None); // zero variant → the destination's #[default] (Cat)
    assert_eq!(images[1], Some("Cat".to_string()));
    assert_eq!(wire.len(), images.len());
}

// ── further behaviour of the planners ────────────────────────────────────────

#[test]
fn struct_plan_pairs_fields_by_name_and_applies_overrides() {
    let inp = pass(
        "@struct [id, status, max_devices, devices_used, license_type] @impl @src(db::License) @dest(LicenseResponse) @overrides{ devices_used: 0, license_type: src.license_type == \"custom\", }",
    );
    match expand(&inp).unwrap() {
        Plan::Fields(f) => assert_eq!(
            f,
            vec![FieldPlan::Direct, FieldPlan::Direct, FieldPlan::Direct, FieldPlan::Override(0), FieldPlan::Override(1)]
        ),
        other => panic!("{other:?}"),
    }
}

#[test]
fn tuple_source_chains_through_open_elements_then_matches_fields() {
    let first = pass(
        "@struct [id, name, max_devices, comment] @impl @src((db::License, db::Owner, Option<String>)) @dest(LicenseCard) @overrides{ id: src.1.id, comment: src.2, }",
    );
    assert!(matches!(expand(&first), Ok(Plan::Chain(0))));
    let second = pass(
        "@struct [id, max_devices, status] @for(0) @struct [id, name, max_devices, comment] @impl @src((db::License, db::Owner, Option<String>)) @dest(LicenseCard) @overrides{ id: src.1.id, comment: src.2, }",
    );
    assert!(matches!(expand(&second), Ok(Plan::Chain(1))));
    let third = pass(
        "@struct [id, name] @for(1) @struct [id, max_devices, status] @for(0) @struct [id, name, max_devices, comment] @impl @src((db::License, db::Owner, Option<String>)) @dest(LicenseCard) @overrides{ id: src.1.id, comment: src.2, }",
    );
    match expand(&third).unwrap() {
        Plan::Fields(f) => assert_eq!(
            f,
            vec![FieldPlan::Override(0), FieldPlan::Element(1), FieldPlan::Element(0), FieldPlan::Override(1)]
        ),
        other => panic!("{other:?}"),
    }
}

#[test]
fn a_field_in_two_tuple_elements_is_ambiguous() {
    let inp = pass(
        "@struct [id, name] @for(1) @struct [id, max_devices] @for(0) @struct [id] @impl @src((db::License, db::Owner)) @dest(Card) @overrides{}",
    );
    assert_eq!(expand(&inp).unwrap_err(), ExpandError::AmbiguousField(0, vec![1, 0]));
}

#[test]
fn a_field_in_no_tuple_element_needs_an_override() {
    let inp = pass("@struct [id] @for(0) @struct [id, age] @impl @src((db::License, i64)) @dest(Card) @overrides{}");
    assert_eq!(expand(&inp).unwrap_err(), ExpandError::FieldNotInTuple(1));
}

#[test]
fn all_overridden_tuple_needs_no_schema() {
    let inp = pass("@struct [a, b] @impl @src((Left, Right)) @dest(Pair) @overrides{ a: 1, b: 2, }");
    match expand(&inp).unwrap() {
        Plan::Fields(f) => assert_eq!(f, vec![FieldPlan::Override(0), FieldPlan::Override(1)]),
        other => panic!("{other:?}"),
    }
}

#[test]
fn defaults_trailer_leaves_absent_fields_to_default() {
    let first = pass("@struct [name, lives, status] @impl @src(api::Req) @dest(db::Row) @overrides{ ..Default::default() }");
    assert!(inp_defaults(&first));
    assert!(matches!(expand(&first), Ok(Plan::Chain(0))));
    let second = pass(
        "@struct [name, lives, note] @for(0) @struct [name, lives, status] @impl @src(api::Req) @dest(db::Row) @overrides{ ..Default::default() }",
    );
    match expand(&second).unwrap() {
        Plan::Fields(f) => assert_eq!(f, vec![FieldPlan::Direct, FieldPlan::Direct, FieldPlan::Defaulted]),
        other => panic!("{other:?}"),
    }
}

fn inp_defaults(inp: &ExpandInput) -> bool {
    inp.defaults
}

#[test]
fn infallible_refuses_the_defaults_trailer() {
    let inp = pass(
        "@struct [name] @for(0) @struct [name, status] @infallible @impl @src(api::Req) @dest(db::Row) @overrides{ ..Default::default() }",
    );
    assert_eq!(expand(&inp).unwrap_err(), ExpandError::InfallibleDefaults);
}

#[test]
fn enum_errors_name_the_offending_rename_or_variant() {
    let unknown_src = pass(
        "@enum [A, B] @for(0) @enum [A, B] @impl @src(S) @dest(D) @overrides{ C => A, }",
    );
    assert_eq!(expand(&unknown_src).unwrap_err(), ExpandError::UnknownSourceVariant(0));
    let unknown_dest = pass(
        "@enum [A, B] @for(0) @enum [A, B] @impl @src(S) @dest(D) @overrides{ A => Z, }",
    );
    assert_eq!(expand(&unknown_dest).unwrap_err(), ExpandError::UnknownDestVariant(0));
    let unmatched = pass("@enum [A, B, C] @for(0) @enum [A, B] @impl @src(S) @dest(D) @overrides{}");
    assert_eq!(expand(&unmatched).unwrap_err(), ExpandError::UnmatchedVariant(2));
    let from_struct = pass("@struct [a] @for(0) @enum [A] @impl @src(S) @dest(D) @overrides{}");
    assert_eq!(expand(&from_struct).unwrap_err(), ExpandError::EnumNeedsEnumSource);
    let tuple = pass("@enum [A] @impl @src((S, T)) @dest(D) @overrides{}");
    assert!(matches!(expand(&tuple), Ok(Plan::Chain(0))));
    let tuple = pass("@enum [A] @for(1) @enum [A] @for(0) @enum [A] @impl @src((S, T)) @dest(D) @overrides{}");
    assert_eq!(expand(&tuple).unwrap_err(), ExpandError::EnumFromTuple);
    let overridden = pass("@enum [A] @for(0) @enum [A] @impl @src(S) @dest(D) @overrides{ a: 1, }");
    assert_eq!(expand(&overridden).unwrap_err(), ExpandError::EnumFieldOverride);
}

#[test]
fn struct_errors_name_the_offending_override() {
    let inp = pass("@struct [a, b] @impl @src(S) @dest(D) @overrides{ a: 1, c: 2, }");
    assert_eq!(expand(&inp).unwrap_err(), ExpandError::UnknownField(1));
    let renamed = pass("@struct [a] @impl @src(S) @dest(D) @overrides{ X => Y, }");
    assert_eq!(expand(&renamed).unwrap_err(), ExpandError::RenameOnStruct);
    let not_plain = pass("@enum [A] @impl @src(Vec<S>) @dest(D) @overrides{}");
    assert_eq!(expand(&not_plain).unwrap_err(), ExpandError::NeedsPlainSource);
}

#[test]
fn declarations_that_do_not_parse_say_why() {
    let no_arrow = toks("Src Dest");
    assert_eq!(parse_magic_map_input(&no_arrow).err(), Some(SyntaxError::Arrow));
    let bad_source = toks("[Src] => Dest");
    assert_eq!(parse_magic_map_input(&bad_source).err(), Some(SyntaxError::SourceShape));
    let bad_dest = toks("Src => Vec<>>");
    assert!(parse_magic_map_input(&bad_dest).is_err());
    let bad_header = toks("pub fn : Src => Dest");
    assert_eq!(parse_magic_map_input(&bad_header).err(), Some(SyntaxError::FnHeader));
    let trailing = parse_expand_input(&toks("@struct [a] @impl @src(S) @dest(D) @overrides{} extra"));
    assert_eq!(trailing.err(), Some(SyntaxError::Trailing));
    let bad_trailer = parse_expand_input(&toks("@struct [a] @impl @src(S) @dest(D) @overrides{ ..Other::new() }"));
    assert_eq!(bad_trailer.err(), Some(SyntaxError::OnlyDefaultTrailer));
}

#[test]
fn a_module_named_infallible_is_a_path_not_the_keyword() {
    let decl = toks("infallible::Src => Dest");
    let m = parse_magic_map_input(&decl).unwrap();
    assert!(!m.infallible);
    assert_eq!((m.src.start, m.src.end), (0, 4));
}

#[test]
fn front_renames_the_last_segment_of_the_destination() {
    let decl = toks("Src => a::b::Dest { x: 1 }");
    let m = parse_magic_map_input(&decl).unwrap();
    assert_eq!(m.overrides, Some(decl.len() - 1));
    let plan = front(&decl, &m).unwrap();
    assert_eq!(plan.schema, "__magic_map_schema_Dest");
    assert!(matches!(&decl[plan.schema_at], Tok::Ident { name, .. } if name == "Dest"));
}

#[test]
fn reference_source_maps_without_moving() {
    let decl = toks("infallible fn ref_dest: &Src => RefDest { name: src.name.clone(), count: src.count as u64, }");
    let m = parse_magic_map_input(&decl).unwrap();
    assert!(m.infallible);
    assert_eq!(m.func.as_ref().unwrap().name, "ref_dest");
    assert_eq!(m.src.end - m.src.start, 2);
    let inp = pass(
        "@struct [name, count] @infallible @fn(ref_dest) @src(&Src) @dest(RefDest) @overrides{ name: src.name.clone(), count: src.count as u64, }",
    );
    match expand(&inp).unwrap() {
        Plan::Fields(f) => assert_eq!(f, vec![FieldPlan::Override(0), FieldPlan::Override(1)]),
        other => panic!("{other:?}"),
    }
    assert!(parse_magic_map_input(&toks("&&Src => Dest")).is_err());
}

#[test]
fn leaf_tuple_elements_are_opaque() {
    let inp = pass(
        "@struct [id, day, at, clock, payload] @for(0) @struct [id, day, at, clock, payload] @impl @src((db::Row, chrono::NaiveDate, NaiveDateTime, NaiveTime, serde_json::Value)) @dest(Dto) @overrides{ day: src.1, at: src.2, clock: src.3, payload: src.4, }",
    );
    match expand(&inp).unwrap() {
        Plan::Fields(f) => assert_eq!(
            f,
            vec![FieldPlan::Element(0), FieldPlan::Override(0), FieldPlan::Override(1), FieldPlan::Override(2), FieldPlan::Override(3)]
        ),
        other => panic!("{other:?}"),
    }
}

#[test]
fn any_default_is_the_defaults_trailer_too() {
    let inp = pass(
        "@struct [name, lives, note] @for(0) @struct [name, lives, status] @impl @src(api::Req) @dest(db::Row) @overrides{ ..AnyDefault }",
    );
    assert!(inp.defaults);
    match expand(&inp).unwrap() {
        Plan::Fields(f) => assert_eq!(f, vec![FieldPlan::Direct, FieldPlan::Direct, FieldPlan::Defaulted]),
        other => panic!("{other:?}"),
    }
}

#[test]
fn declared_defaults_accepts_only_fields_that_declare_one() {
    // `status` is not on the wire and declares its own default: accepted.
    let ok = pass(
        "@struct [name, lives] @for(0) @struct [name, lives, *status] @impl @src(api::CreateCatRequest) @dest(db::CreateCat) @overrides{ ..DeclaredDefaults }",
    );
    assert!(ok.defaults && ok.declared);
    match expand(&ok).unwrap() {
        Plan::Fields(f) => assert_eq!(f, vec![FieldPlan::Direct, FieldPlan::Direct, FieldPlan::Defaulted]),
        other => panic!("{other:?}"),
    }
    // `note` declares nothing: refused, naming it.
    let missing = pass(
        "@struct [name] @for(0) @struct [name, note, *status] @impl @src(api::CreateCatRequest) @dest(db::CreateCat) @overrides{ ..DeclaredDefaults }",
    );
    assert_eq!(expand(&missing).unwrap_err(), ExpandError::UndeclaredDefaults(vec![1]));
    // Several such fields: every one is named, in field order.
    let several = pass(
        "@struct [name] @for(0) @struct [note, name, *status, memo] @impl @src(api::CreateCatRequest) @dest(db::CreateCat) @overrides{ ..DeclaredDefaults }",
    );
    assert_eq!(expand(&several).unwrap_err(), ExpandError::UndeclaredDefaults(vec![0, 3]));
    // The same mapping under `..AnyDefault` accepts it.
    let any = pass(
        "@struct [name] @for(0) @struct [name, note, *status] @impl @src(api::CreateCatRequest) @dest(db::CreateCat) @overrides{ ..AnyDefault }",
    );
    assert!(!any.declared);
    assert!(expand(&any).is_ok());
}
