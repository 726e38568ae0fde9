//! Sealed destinations and sparse patches, used from outside the crate that
//! owns them.
use magic_map::catalog::{OpenDto, SealedDto, SealedPatch};

#[test]
fn an_unsealed_type_is_unaffected() {
    // The control: still constructible by hand from here.
    let d = OpenDto { id: "x".into(), count: 2 };
    assert_eq!(d.count, 2);
}

#[test]
fn patch_starts_empty_and_chains_only_what_it_touches() {
    let p = SealedPatch::patch().count(7).note(Some("sold".into()));
    assert_eq!(p.count, 7);
    assert_eq!(p.note.as_deref(), Some("sold"));
    // Untouched fields keep the model's Default — the point of a sparse patch.
    assert_eq!(p.id, "");
}

#[test]
fn patch_is_empty_by_default() {
    assert_eq!(SealedPatch::patch(), SealedPatch::default());
}

#[test]
fn setters_are_last_write_wins() {
    let p = SealedPatch::patch().count(1).count(2);
    assert_eq!(p.count, 2);
}

#[test]
fn sealed_types_are_built_through_the_constructor() {
    let d = SealedDto::__magic_map_new_unchecked("x".into(), 2);
    assert_eq!(d.id, "x");
    assert_eq!(d.count, 2);
    assert_eq!(SealedDto::default().count, 0);
    let p = SealedPatch::__magic_map_new_unchecked("x".into(), 2, None);
    assert_eq!(p, SealedPatch::patch().id("x".into()).count(2));
}

#[test]
fn setters_on_different_fields_commute() {
    let a = SealedPatch::patch().id("k".into()).note(Some("n".into()));
    let b = SealedPatch::patch().note(Some("n".into())).id("k".into());
    assert_eq!(a, b);
    assert_eq!(a.count, 0);
}
