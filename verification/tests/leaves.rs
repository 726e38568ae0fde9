//! The built-in and catalogue leaves, through the funnel.
use chrono::TimeZone;
use magic_map::leaves::Instant;
use magic_map::catalog::{Celsius, Fahrenheit, Species};
use magic_map::error::MappingError;
use magic_map::funnel::{MapFrom, MapInto, TryMapFrom, TryMapInto};
use magic_map::unvalidated::maps_without_validating;

#[test]
fn identities_and_widenings_keep_the_value() {
    let v: i64 = 20i32.map_into();
    assert_eq!(v, 20);
    let w: u64 = <u64 as TryMapFrom<u8>>::try_map_from(205u8).unwrap();
    assert_eq!(w, 205);
    let n: i32 = i32::map_from(-7i8);
    assert_eq!(n, -7);
    let s: String = String::from("same").try_map_into().unwrap();
    assert_eq!(s, "same");
}

#[test]
fn option_none_stays_none_and_some_is_funnelled() {
    let none: Option<i64> = Option::<i32>::None.try_map_into().unwrap();
    assert_eq!(none, None);
    let some: Option<i64> = Some(5i32).map_into();
    assert_eq!(some, Some(5));
}

#[test]
fn vec_keeps_order_or_reports_the_first_failure() {
    let ok: Vec<i64> = vec![1i32, 2, 3].try_map_into().unwrap();
    assert_eq!(ok, vec![1, 2, 3]);
    let names: Vec<String> = vec![Species::Lion, Species::Cat].map_into();
    assert_eq!(names, vec!["Lion", "Cat"]);
    let parsed: Result<Vec<Species>, MappingError> =
        vec!["Cat".to_string(), "Liger".to_string(), "Tiger".to_string()].try_map_into();
    assert_eq!(parsed, Err(MappingError::Parse { field: "Species" }));
}

#[test]
fn uuid_leaves_parse_strictly_and_print_canonically() {
    let u: uuid::Uuid = "00000000-0000-0000-0000-000000000000".to_string().try_map_into().unwrap();
    assert_eq!(u, uuid::Uuid::nil());
    let braced: uuid::Uuid = "{67E55044-10B1-426F-9247-BB680E5FE0C8}".to_string().try_map_into().unwrap();
    let text: String = braced.map_into();
    assert_eq!(text, "67e55044-10b1-426f-9247-bb680e5fe0c8");
    let bad: Result<uuid::Uuid, MappingError> = "not-a-uuid".to_string().try_map_into();
    assert_eq!(bad, Err(MappingError::InvalidUuid { field: "<uuid>" }));
}

#[test]
fn decimal_and_date_leaves() {
    let d: rust_decimal::Decimal = "19.95".to_string().try_map_into().unwrap();
    assert_eq!(d, rust_decimal::Decimal::new(1995, 2));
    let back: String = d.map_into();
    assert_eq!(back, "19.95");
    let negative: String = rust_decimal::Decimal::new(-50, 2).try_map_into().unwrap();
    assert_eq!(negative, "-0.50");
    let far: String = chrono::NaiveDate::from_ymd_opt(10000, 12, 31).unwrap().map_into();
    assert_eq!(far, "+10000-12-31");
    let bad: Result<rust_decimal::Decimal, MappingError> = "nope".to_string().try_map_into();
    assert_eq!(bad, Err(MappingError::Parse { field: "<decimal>" }));
    let day: chrono::NaiveDate = "2026-08-09".to_string().try_map_into().unwrap();
    let text: String = day.map_into();
    assert_eq!(text, "2026-08-09");
    let bad_day: Result<chrono::NaiveDate, MappingError> = "2026-13-01".to_string().try_map_into();
    assert_eq!(bad_day, Err(MappingError::Parse { field: "NaiveDate" }));
}

#[test]
fn outside_errors_convert_for_question_marks_in_overrides() {
    let e = uuid::Uuid::parse_str("not-a-uuid").unwrap_err();
    assert_eq!(MappingError::from(e), MappingError::InvalidUuid { field: "<override>" });
    let e = "nope".parse::<chrono::NaiveDate>().unwrap_err();
    assert_eq!(MappingError::from(e), MappingError::Parse { field: "<override>" });
    let e = "nope".parse::<rust_decimal::Decimal>().unwrap_err();
    assert_eq!(MappingError::from(e), MappingError::Parse { field: "<override>" });
}

#[test]
fn custom_and_enum_leaves() {
    let f: String = Fahrenheit(72).try_map_into().unwrap();
    assert_eq!(f, "72F");
    let c: String = Celsius(-21).map_into();
    assert_eq!(c, "-21C");
    let lion: String = Species::Lion.map_into();
    assert_eq!(lion, "Lion");
    let cat: Species = "Cat".to_string().try_map_into().unwrap();
    assert_eq!(cat, Species::Cat);
    let same: Species = Species::Lion.map_into();
    assert_eq!(same, Species::Lion);
}

#[test]
fn mapping_errors_read_as_messages() {
    assert_eq!(MappingError::InvalidUuid { field: "id" }.message(), "invalid uuid in `id`");
    assert_eq!(MappingError::OutOfRange { field: "n" }.message(), "value out of range in `n`");
    assert_eq!(MappingError::Parse { field: "d" }.message(), "parse error in `d`");
    assert_eq!(MappingError::Missing { field: "m" }.message(), "missing value for `m`");
    assert_eq!(MappingError::Custom("boom".into()).message(), "boom");
}

#[test]
fn mapping_does_not_validate_without_the_feature() {
    let dto = maps_without_validating();
    assert_eq!(dto.name, "");
    assert_eq!(dto.email, "not-an-email");
}

#[test]
fn uuid_and_date_texts_map_back_to_the_same_value() {
    let nil: String = uuid::Uuid::nil().map_into();
    assert_eq!(nil, "00000000-0000-0000-0000-000000000000");
    let u = uuid::Uuid::parse_str("67e55044-10b1-426f-9247-bb680e5fe0c8").unwrap();
    let text: String = u.try_map_into().unwrap();
    let back: uuid::Uuid = text.try_map_into().unwrap();
    assert_eq!(back, u);
    let d = chrono::NaiveDate::from_ymd_opt(-44, 3, 15).unwrap();
    let text: String = d.map_into();
    assert_eq!(text, "-0044-03-15");
    let back: chrono::NaiveDate = text.try_map_into().unwrap();
    assert_eq!(back, d);
}

#[test]
fn datetime_leaves_use_rfc3339() {
    let at: Instant = "2024-01-15T10:30:00Z".to_string().try_map_into().unwrap();
    assert_eq!(at.utc, chrono::Utc.with_ymd_and_hms(2024, 1, 15, 10, 30, 0).unwrap());
    // An offset is taken to UTC.
    let shifted: Instant = "2024-01-15T12:30:00+02:00".to_string().try_map_into().unwrap();
    assert_eq!(shifted, at);
    let text: String = at.map_into();
    assert_eq!(text, "2024-01-15T10:30:00+00:00");
    let again: String = <String as TryMapFrom<Instant>>::try_map_from(shifted).unwrap();
    assert_eq!(again, "2024-01-15T10:30:00+00:00");
    let bad: Result<Instant, MappingError> = "2024-01-15 10:30".to_string().try_map_into();
    assert_eq!(bad, Err(MappingError::Parse { field: "<datetime>" }));
    let same = Instant { utc: chrono::Utc.with_ymd_and_hms(1999, 12, 31, 23, 59, 59).unwrap() };
    let kept: Instant = Instant::map_from(Instant { utc: same.utc });
    assert_eq!(kept, same);
}
