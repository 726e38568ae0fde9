//! The three field tiers of the defaults trailer, picked by receiver shape.
use magic_map::error::MappingError;
use magic_map::funnel::{MapFieldOpt as _, MapFieldVal as _, MapFieldWrap as _, MapPair};

#[test]
fn an_option_source_into_a_required_field_falls_back_to_the_default() {
    let lives: Result<i32, MappingError> = (&mut &mut &mut MapPair(Some(None::<i32>), Some(9i32))).map_field_or();
    assert_eq!(lives, Ok(9));
    let given: Result<i64, MappingError> = (&mut &mut &mut MapPair(Some(Some(3i32)), Some(9i64))).map_field_or();
    assert_eq!(given, Ok(3));
}

#[test]
fn option_into_option_stays_none() {
    let note: Result<Option<String>, MappingError> =
        (&mut &mut &mut MapPair(Some(None::<String>), Some(Some("fallback".to_string())))).map_field_or();
    assert_eq!(note, Ok(None));
}

#[test]
fn a_plain_source_into_an_option_field_is_wrapped() {
    let id: Result<Option<uuid::Uuid>, MappingError> = (&mut &mut &mut MapPair(
        Some("0195a8a2-1111-7000-a000-000000000001".to_string()),
        Some(None::<uuid::Uuid>),
    ))
        .map_field_or();
    assert_eq!(id.unwrap().unwrap().to_string(), "0195a8a2-1111-7000-a000-000000000001");
    let bad: Result<Option<uuid::Uuid>, MappingError> =
        (&mut &mut &mut MapPair(Some("not-a-uuid".to_string()), Some(None::<uuid::Uuid>))).map_field_or();
    assert_eq!(bad, Err(MappingError::InvalidUuid { field: "<uuid>" }));
}

#[test]
fn a_plain_field_funnels_directly() {
    let name: Result<String, MappingError> =
        (&mut &mut &mut MapPair(Some("Misifu".to_string()), Some(String::new()))).map_field_or();
    assert_eq!(name, Ok("Misifu".to_string()));
}

#[test]
fn defaults_trailer_unwraps_options_with_instance_fallback() {
    let mut p = MapPair(Some(None::<i32>), Some(15i32));
    let lives: Result<i32, MappingError> = (&mut &mut &mut p).map_field_or();
    assert_eq!(lives, Ok(15));
    assert!(p.0.is_none() && p.1.is_none());
    let mut q = MapPair(Some(Some(3i32)), Some(15i32));
    let given: Result<i32, MappingError> = (&mut &mut &mut q).map_field_or();
    assert_eq!(given, Ok(3));
    assert!(q.0.is_none());
    assert_eq!(q.1, Some(15));
}
