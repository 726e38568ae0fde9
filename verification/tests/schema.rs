//! What `#[derive(MagicMap)]` publishes.
use magic_map::schema::{Attr, AttrPath, Data, DeriveError, DeriveInput, Fields, Variant};
use magic_map::derive_text::derive_from_text;
use magic_map::tokens::{Delim, Tok};

fn ident(name: &str) -> Tok {
    Tok::Ident { name: name.to_string(), sid: 0 }
}

fn path(segments: &[&str]) -> AttrPath {
    AttrPath { global: false, segments: segments.iter().map(|s| s.to_string()).collect() }
}

fn punct(ch: char) -> Tok {
    Tok::Punct { ch, joint: false, sid: 0 }
}

#[test]
fn a_named_struct_publishes_its_fields() {
    let inp = DeriveInput {
        name: "User".to_string(),
        data: Data::Struct(Fields::Named(vec!["id".to_string(), "name".to_string()], vec![vec![], vec![]])),
        attrs: vec![],
    };
    let decl = magic_map::schema::derive(&inp).unwrap().unwrap();
    assert!(!decl.shape.is_enum);
    assert_eq!(decl.shape.names, vec!["id".to_string(), "name".to_string()]);
    assert_eq!(decl.schema_name, "__magic_map_schema_User");
    assert_eq!(decl.export_name, "__magic_map_export_schema_User");
}

#[test]
fn unsupported_shapes_are_a_silent_no_op() {
    let tuple = DeriveInput { name: "T".to_string(), data: Data::Struct(Fields::Unnamed), attrs: vec![] };
    assert!(magic_map::schema::derive(&tuple).unwrap().is_none());
    let payload = DeriveInput {
        name: "E".to_string(),
        data: Data::Enum(vec![Variant { name: "A".to_string(), unit: true }, Variant { name: "B".to_string(), unit: false }]),
        attrs: vec![],
    };
    assert!(magic_map::schema::derive(&payload).unwrap().is_none());
    let union = DeriveInput { name: "U".to_string(), data: Data::Union, attrs: vec![] };
    assert!(magic_map::schema::derive(&union).unwrap().is_none());
}

#[test]
fn the_export_attribute_renames_only_the_export() {
    let attr = Attr { path: path(&["magic_map"]), list: Some(vec![ident("export"), punct('='), Tok::Lit { text: "\"WireSpecies\"".to_string(), sid: 0 }]) };
    let inp = DeriveInput {
        name: "Species".to_string(),
        data: Data::Enum(vec![Variant { name: "Cat".to_string(), unit: true }]),
        attrs: vec![attr],
    };
    let decl = magic_map::schema::derive(&inp).unwrap().unwrap();
    assert!(decl.shape.is_enum);
    assert_eq!(decl.export_name, "__magic_map_export_schema_WireSpecies");
    assert_eq!(decl.schema_name, "__magic_map_schema_Species");
}

#[test]
fn a_malformed_attribute_is_refused() {
    let other_key = Attr { path: path(&["magic_map"]), list: Some(vec![ident("rename"), punct('='), Tok::Lit { text: "\"X\"".to_string(), sid: 0 }]) };
    let inp = DeriveInput { name: "S".to_string(), data: Data::Struct(Fields::Named(vec![], vec![])), attrs: vec![other_key] };
    assert_eq!(magic_map::schema::derive(&inp).err(), Some(DeriveError::ExpectedExport));
    let bare = Attr { path: path(&["magic_map"]), list: None };
    let inp = DeriveInput { name: "S".to_string(), data: Data::Struct(Fields::Named(vec![], vec![])), attrs: vec![bare] };
    assert_eq!(magic_map::schema::derive(&inp).err(), Some(DeriveError::MalformedAttr));
    let _ = Delim::Paren;
}

#[test]
fn the_derive_reads_an_item_from_its_text() {
    let decl = derive_from_text("#[magic_map(export = \"WireSpecies\")] pub enum Species { Unspecified, Cat }")
        .unwrap()
        .unwrap()
        .unwrap();
    assert!(decl.shape.is_enum);
    assert_eq!(decl.shape.names, vec!["Unspecified".to_string(), "Cat".to_string()]);
    assert_eq!(decl.export_name, "__magic_map_export_schema_WireSpecies");
    let plain = derive_from_text("pub struct User { pub id: String, pub name: String }").unwrap().unwrap().unwrap();
    assert_eq!(plain.shape.names, vec!["id".to_string(), "name".to_string()]);
    assert!(derive_from_text("pub struct Pair(u8, u8);").unwrap().unwrap().is_none());
    assert!(derive_from_text("fn not_an_item() {}").is_none());
}

#[test]
fn fields_with_a_default_attribute_are_published_as_declared() {
    let decl = derive_from_text("pub struct CreateCat { pub name: String, #[default = \"new\"] pub status: String, #[serde(skip)] #[default(9)] pub lives: i32 }")
        .unwrap()
        .unwrap()
        .unwrap();
    assert_eq!(decl.shape.names, vec!["name".to_string(), "status".to_string(), "lives".to_string()]);
    assert_eq!(decl.shape.declared, vec!["status".to_string(), "lives".to_string()]);
}

#[test]
fn only_an_attribute_whose_path_is_magic_map_is_read() {
    let list = || Some(vec![ident("export"), punct('='), Tok::Lit { text: "\"Other\"".to_string(), sid: 0 }]);
    let others = vec![
        Attr { path: path(&["serde"]), list: Some(vec![ident("rename_all")]) },
        Attr { path: path(&["other", "magic_map"]), list: list() },
        Attr { path: AttrPath { global: true, segments: vec!["magic_map".to_string()] }, list: list() },
    ];
    let inp = DeriveInput { name: "S".to_string(), data: Data::Struct(Fields::Named(vec![], vec![])), attrs: others };
    let decl = magic_map::schema::derive(&inp).unwrap().unwrap();
    assert_eq!(decl.export_name, "__magic_map_export_schema_S");
}

#[test]
fn only_a_field_attribute_whose_path_is_default_declares_one() {
    let inp = DeriveInput {
        name: "Row".to_string(),
        data: Data::Struct(Fields::Named(
            vec!["a".to_string(), "b".to_string(), "c".to_string()],
            vec![vec![path(&["serde", "default"])], vec![path(&["doc"]), path(&["default"])], vec![path(&["defaults"])]],
        )),
        attrs: vec![],
    };
    let decl = magic_map::schema::derive(&inp).unwrap().unwrap();
    assert_eq!(decl.shape.declared, vec!["b".to_string()]);
    let text = derive_from_text("pub struct Row { #[serde(default)] pub a: u8, #[default(1)] pub b: u8 }").unwrap().unwrap().unwrap();
    assert_eq!(text.shape.declared, vec!["b".to_string()]);
}
