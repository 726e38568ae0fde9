//! The conversion-impl lint, on impl items written down as values.
use magic_map::lint::{
    classify_entry, find_conversions, lint_source, is_error_name, parse_allowlist, parse_args, report, signature, text_lt,
    trait_arg_name, EntryAction, Finding, GenericArg, ImplModel, PathModel, Segment, SegmentArgs, TypeModel,
};

fn seg(name: &str) -> Segment {
    Segment { ident: name.to_string(), args: SegmentArgs::Bare }
}

fn ty(path: &[&str]) -> TypeModel {
    TypeModel::Path(PathModel { segments: path.iter().map(|s| seg(s)).collect() })
}

fn conversion(trait_name: &str, source: TypeModel, dest: TypeModel, line: usize) -> ImplModel {
    let args = SegmentArgs::Angle(vec![GenericArg::Type(source)]);
    ImplModel {
        trait_path: Some(PathModel { segments: vec![seg("std"), seg("convert"), Segment { ident: trait_name.to_string(), args }] }),
        self_ty: dest,
        line,
    }
}

#[test]
fn a_from_impl_is_flagged_with_its_signature() {
    let item = conversion("From", ty(&["db", "User"]), ty(&["UserDto"]), 3);
    assert_eq!(signature(&item), Some("impl From<User> for UserDto".to_string()));
    let by_ref = conversion("TryFrom", TypeModel::Reference(Box::new(ty(&["Row"]))), TypeModel::Other, 4);
    assert_eq!(signature(&by_ref), Some("impl TryFrom<Row> for _".to_string()));
}

#[test]
fn error_conversions_and_other_traits_pass() {
    let err = conversion("From", ty(&["MappingError"]), ty(&["ApiError"]), 1);
    assert_eq!(signature(&err), None);
    let err_dest = conversion("Into", ty(&["Row"]), ty(&["DbError"]), 1);
    assert_eq!(signature(&err_dest), None);
    let other = conversion("Display", ty(&["Row"]), ty(&["Dto"]), 1);
    assert_eq!(signature(&other), None);
    let inherent = ImplModel { trait_path: None, self_ty: ty(&["Row"]), line: 1 };
    assert_eq!(signature(&inherent), None);
    assert!(is_error_name(&Some("ParseError".to_string())));
    assert!(!is_error_name(&Some("Errors".to_string())));
    assert!(!is_error_name(&None));
}

#[test]
fn the_first_named_type_argument_is_the_source() {
    let path = PathModel {
        segments: vec![Segment {
            ident: "From".to_string(),
            args: SegmentArgs::Angle(vec![GenericArg::Other, GenericArg::Type(TypeModel::Other), GenericArg::Type(ty(&["Row"]))]),
        }],
    };
    assert_eq!(trait_arg_name(&path), Some("Row".to_string()));
}

#[test]
fn findings_come_in_file_order() {
    let impls = vec![
        conversion("From", ty(&["A"]), ty(&["B"]), 10),
        conversion("From", ty(&["IoError"]), ty(&["B"]), 20),
        conversion("TryInto", ty(&["C"]), ty(&["D"]), 30),
    ];
    let found = find_conversions(&"src/lib.rs".to_string(), &impls);
    assert_eq!(found.len(), 2);
    assert_eq!((found[0].line, found[0].signature.as_str()), (10, "impl From<A> for B"));
    assert_eq!((found[1].line, found[1].signature.as_str()), (30, "impl TryInto<C> for D"));
}

#[test]
fn the_allowlist_is_trimmed_sorted_and_deduplicated() {
    let text = "  impl From<B> for C \n# a comment\n\nimpl From<A> for B\r\nimpl From<B> for C\n   # indented comment";
    assert_eq!(parse_allowlist(text), vec!["impl From<A> for B".to_string(), "impl From<B> for C".to_string()]);
    assert!(parse_allowlist("").is_empty());
    assert!(text_lt(&"impl A".to_string(), &"impl B".to_string()));
    assert!(!text_lt(&"same".to_string(), &"same".to_string()));
}

#[test]
fn a_run_reports_violations_stale_entries_and_a_summary() {
    let findings = vec![
        Finding { file: "a.rs".to_string(), line: 7, signature: "impl From<A> for B".to_string() },
        Finding { file: "b.rs".to_string(), line: 12, signature: "impl From<C> for D".to_string() },
    ];
    let allowed = vec!["impl From<A> for B".to_string(), "impl From<X> for Y".to_string()];
    let r = report(&findings, &allowed);
    assert_eq!(r.violations, 1);
    assert_eq!(r.stale, 1);
    assert!(r.failed);
    assert_eq!(
        r.lines,
        vec![
            "b.rs:12: impl From<C> for D \u{2014} declare it with magic_map! instead".to_string(),
            "stale allowlist entry (remove it): impl From<X> for Y".to_string(),
            "1 conversion impl(s) outside magic_map, 1 stale allowlist entr(ies)".to_string(),
        ]
    );
}

#[test]
fn a_clean_run_prints_nothing_and_passes() {
    let findings = vec![Finding { file: "a.rs".to_string(), line: 1, signature: "impl From<A> for B".to_string() }];
    let allowed = vec!["impl From<A> for B".to_string()];
    let r = report(&findings, &allowed);
    assert!(!r.failed);
    assert!(r.lines.is_empty());
}

#[test]
fn arguments_name_an_allowlist_and_paths() {
    let args: Vec<String> = ["--allow", "allow.txt", "src", "crates"].iter().map(|s| s.to_string()).collect();
    let a = parse_args(&args).unwrap();
    assert_eq!(a.allow.as_deref(), Some("allow.txt"));
    assert_eq!(a.roots, vec!["src".to_string(), "crates".to_string()]);
    let dangling: Vec<String> = ["src", "--allow"].iter().map(|s| s.to_string()).collect();
    assert_eq!(parse_args(&dangling).unwrap().allow, None);
    let none: Vec<String> = ["--allow", "allow.txt"].iter().map(|s| s.to_string()).collect();
    assert!(parse_args(&none).is_none());
}

#[test]
fn the_walk_skips_build_output_and_collects_rust_files() {
    assert_eq!(classify_entry(true, &Some("target".to_string()), &None), EntryAction::Skip);
    assert_eq!(classify_entry(true, &Some("src".to_string()), &None), EntryAction::Descend);
    assert_eq!(classify_entry(false, &Some("lib.rs".to_string()), &Some("rs".to_string())), EntryAction::Collect);
    assert_eq!(classify_entry(false, &Some("README.md".to_string()), &Some("md".to_string())), EntryAction::Ignore);
}

#[test]
fn a_file_is_linted_from_its_text() {
    let source = "use std::convert::TryFrom;\n\nimpl From<db::User> for UserDto {\n    fn from(u: db::User) -> Self { todo!() }\n}\n\nimpl From<MappingError> for ApiError {\n    fn from(e: MappingError) -> Self { todo!() }\n}\n\nfn helper() {\n    impl TryFrom<&Row> for Card {\n        type Error = ();\n        fn try_from(r: &Row) -> Result<Self, ()> { Err(()) }\n    }\n}\n";
    let found = lint_source(&"src/mappers.rs".to_string(), source).unwrap();
    assert_eq!(found.len(), 2);
    assert_eq!((found[0].line, found[0].signature.as_str()), (3, "impl From<User> for UserDto"));
    assert_eq!((found[1].line, found[1].signature.as_str()), (12, "impl TryFrom<Row> for Card"));
    assert_eq!(found[0].file, "src/mappers.rs");
    assert!(lint_source(&"bad.rs".to_string(), "fn (").is_none());
}
