//! Leaf conversions for third-party types: identities for `Uuid`, `Decimal`,
//! the chrono date/time types and `serde_json::Value`, and the cross-type
//! leaves `String ↔ Uuid`, `String ↔ Decimal`, `String ↔ DateTime<Utc>`
//! (rfc3339) and `String ↔ NaiveDate` (ISO-8601). Each crossing is a call into the owning
//! crate; what is proved here is how its outcome becomes the mapping's result
//! or error.
use vstd::prelude::*;
use crate::error::MappingError;
use crate::funnel::{MapFrom, TryMapFrom};

verus! {

// ── the outside types ────────────────────────────────────────────────────────

#[verifier::external_type_specification]
#[verifier::external_body]
pub struct ExUuid(uuid::Uuid);

#[verifier::external_type_specification]
#[verifier::external_body]
pub struct ExUuidError(uuid::Error);

#[verifier::external_type_specification]
#[verifier::external_body]
pub struct ExDecimal(rust_decimal::Decimal);

#[verifier::external_type_specification]
#[verifier::external_body]
pub struct ExDecimalError(rust_decimal::Error);

#[verifier::external_type_specification]
#[verifier::external_body]
pub struct ExNaiveDate(chrono::NaiveDate);

#[verifier::external_type_specification]
#[verifier::external_body]
pub struct ExNaiveDateTime(chrono::NaiveDateTime);

#[verifier::external_type_specification]
#[verifier::external_body]
pub struct ExNaiveTime(chrono::NaiveTime);

#[verifier::external_type_specification]
#[verifier::external_body]
pub struct ExChronoParseError(chrono::ParseError);

#[verifier::external_type_specification]
#[verifier::external_body]
pub struct ExJsonValue(serde_json::Value);

// ── identities ───────────────────────────────────────────────────────────────

impl TryMapFrom<uuid::Uuid> for uuid::Uuid {
    open spec fn try_maps(src: uuid::Uuid, out: Result<uuid::Uuid, MappingError>) -> bool {
        out == Ok::<uuid::Uuid, MappingError>(src)
    }

    fn try_map_from(src: uuid::Uuid) -> (r: Result<uuid::Uuid, MappingError>) {
        Ok(src)
    }
}

impl MapFrom<uuid::Uuid> for uuid::Uuid {
    open spec fn maps(src: uuid::Uuid, out: uuid::Uuid) -> bool {
        out == src
    }

    fn map_from(src: uuid::Uuid) -> (r: uuid::Uuid) {
        src
    }
}

impl TryMapFrom<rust_decimal::Decimal> for rust_decimal::Decimal {
    open spec fn try_maps(src: rust_decimal::Decimal, out: Result<rust_decimal::Decimal, MappingError>) -> bool {
        out == Ok::<rust_decimal::Decimal, MappingError>(src)
    }

    fn try_map_from(src: rust_decimal::Decimal) -> (r: Result<rust_decimal::Decimal, MappingError>) {
        Ok(src)
    }
}

impl MapFrom<rust_decimal::Decimal> for rust_decimal::Decimal {
    open spec fn maps(src: rust_decimal::Decimal, out: rust_decimal::Decimal) -> bool {
        out == src
    }

    fn map_from(src: rust_decimal::Decimal) -> (r: rust_decimal::Decimal) {
        src
    }
}

impl TryMapFrom<chrono::NaiveDate> for chrono::NaiveDate {
    open spec fn try_maps(src: chrono::NaiveDate, out: Result<chrono::NaiveDate, MappingError>) -> bool {
        out == Ok::<chrono::NaiveDate, MappingError>(src)
    }

    fn try_map_from(src: chrono::NaiveDate) -> (r: Result<chrono::NaiveDate, MappingError>) {
        Ok(src)
    }
}

impl MapFrom<chrono::NaiveDate> for chrono::NaiveDate {
    open spec fn maps(src: chrono::NaiveDate, out: chrono::NaiveDate) -> bool {
        out == src
    }

    fn map_from(src: chrono::NaiveDate) -> (r: chrono::NaiveDate) {
        src
    }
}

impl TryMapFrom<chrono::NaiveDateTime> for chrono::NaiveDateTime {
    open spec fn try_maps(src: chrono::NaiveDateTime, out: Result<chrono::NaiveDateTime, MappingError>) -> bool {
        out == Ok::<chrono::NaiveDateTime, MappingError>(src)
    }

    fn try_map_from(src: chrono::NaiveDateTime) -> (r: Result<chrono::NaiveDateTime, MappingError>) {
        Ok(src)
    }
}

impl MapFrom<chrono::NaiveDateTime> for chrono::NaiveDateTime {
    open spec fn maps(src: chrono::NaiveDateTime, out: chrono::NaiveDateTime) -> bool {
        out == src
    }

    fn map_from(src: chrono::NaiveDateTime) -> (r: chrono::NaiveDateTime) {
        src
    }
}

impl TryMapFrom<chrono::NaiveTime> for chrono::NaiveTime {
    open spec fn try_maps(src: chrono::NaiveTime, out: Result<chrono::NaiveTime, MappingError>) -> bool {
        out == Ok::<chrono::NaiveTime, MappingError>(src)
    }

    fn try_map_from(src: chrono::NaiveTime) -> (r: Result<chrono::NaiveTime, MappingError>) {
        Ok(src)
    }
}

impl MapFrom<chrono::NaiveTime> for chrono::NaiveTime {
    open spec fn maps(src: chrono::NaiveTime, out: chrono::NaiveTime) -> bool {
        out == src
    }

    fn map_from(src: chrono::NaiveTime) -> (r: chrono::NaiveTime) {
        src
    }
}

impl TryMapFrom<serde_json::Value> for serde_json::Value {
    open spec fn try_maps(src: serde_json::Value, out: Result<serde_json::Value, MappingError>) -> bool {
        out == Ok::<serde_json::Value, MappingError>(src)
    }

    fn try_map_from(src: serde_json::Value) -> (r: Result<serde_json::Value, MappingError>) {
        Ok(src)
    }
}

impl MapFrom<serde_json::Value> for serde_json::Value {
    open spec fn maps(src: serde_json::Value, out: serde_json::Value) -> bool {
        out == src
    }

    fn map_from(src: serde_json::Value) -> (r: serde_json::Value) {
        src
    }
}

// ── String ↔ Uuid ─────────────────────────────────────────────────────────────

/// An ASCII hex digit, either case.
pub open spec fn hex_digit(c: char) -> bool {
    let u = c as int;
    ||| 0x30 <= u <= 0x39
    ||| 0x41 <= u <= 0x46
    ||| 0x61 <= u <= 0x66
}

/// A lowercase ASCII hex digit.
pub open spec fn lower_hex_digit(c: char) -> bool {
    let u = c as int;
    ||| 0x30 <= u <= 0x39
    ||| 0x61 <= u <= 0x66
}

/// Where the hyphenated form has its hyphens.
pub open spec fn hyphen_at(i: int) -> bool {
    i == 8 || i == 13 || i == 18 || i == 23
}

/// `xxxxxxxx-xxxx-xxxx-xxxx-xxxxxxxxxxxx`, hex digits of either case.
pub open spec fn hyphenated_text(s: Seq<char>) -> bool {
    &&& s.len() == 36
    &&& forall|i: int| 0 <= i < 36 ==> if hyphen_at(i) { s[i] == '-' } else { hex_digit(#[trigger] s[i]) }
}

/// `c` equals the lowercase `target`, ignoring ASCII case.
pub open spec fn ascii_ci_eq(c: char, target: char) -> bool {
    ||| c == target
    ||| (0x61 <= target as int <= 0x7a && c as int == target as int - 32)
}

/// `urn:uuid:`, in any ASCII case.
pub open spec fn urn_prefix(p: Seq<char>) -> bool {
    &&& p.len() == 9
    &&& forall|i: int| 0 <= i < 9 ==> ascii_ci_eq(#[trigger] p[i], "urn:uuid:"@[i])
}

/// The texts `Uuid::parse_str` accepts: the simple form (32 hex digits), the
/// hyphenated form, the hyphenated form in braces, and the URN form.
pub open spec fn uuid_text(s: Seq<char>) -> bool {
    ||| (s.len() == 32 && forall|i: int| 0 <= i < 32 ==> hex_digit(#[trigger] s[i]))
    ||| hyphenated_text(s)
    ||| (s.len() == 38 && s[0] == '{' && s[37] == '}' && hyphenated_text(s.subrange(1, 37)))
    ||| (s.len() == 45 && urn_prefix(s.take(9)) && hyphenated_text(s.skip(9)))
}

/// The form a `Uuid` displays as: hyphenated, lowercase.
pub open spec fn canonical_uuid_text(s: Seq<char>) -> bool {
    &&& s.len() == 36
    &&& forall|i: int| 0 <= i < 36 ==> if hyphen_at(i) { s[i] == '-' } else { lower_hex_digit(#[trigger] s[i]) }
}

/// The error a rejected uuid text maps to.
pub open spec fn uuid_leaf_error() -> MappingError {
    MappingError::InvalidUuid { field: "<uuid>" }
}

/// The `Uuid` that `Uuid::parse_str` reads from an accepted text.
pub uninterp spec fn uuid_of(text: Seq<char>) -> uuid::Uuid;

/// The text `Uuid`'s `Display` writes for a uuid.
pub uninterp spec fn uuid_display(u: uuid::Uuid) -> Seq<char>;

/// `uuid::Uuid::parse_str`: succeeds exactly on the simple, hyphenated,
/// braced and URN forms (hex digits of either case, the `urn:uuid:` prefix in
/// any case), with the uuid `uuid_of` names.
#[verifier::external_body]
fn parse_uuid(text: &str) -> (r: Result<uuid::Uuid, uuid::Error>)
    ensures
        r is Ok <==> uuid_text(text@),
        r matches Ok(u) ==> u == uuid_of(text@),
{
    uuid::Uuid::parse_str(text)
}

/// `Uuid`'s `Display`: the hyphenated lowercase form of the uuid's sixteen
/// bytes, which `Uuid::parse_str` decodes back to the same uuid.
#[verifier::external_body]
fn uuid_text_of(u: &uuid::Uuid) -> (r: String)
    ensures
        r@ == uuid_display(*u),
        canonical_uuid_text(r@),
        uuid_of(r@) == *u,
{
    u.to_string()
}

/// Strict: only a text `Uuid::parse_str` accepts maps; anything else is an
/// invalid-uuid error.
impl TryMapFrom<String> for uuid::Uuid {
    open spec fn try_maps(src: String, out: Result<uuid::Uuid, MappingError>) -> bool {
        if uuid_text(src@) {
            out == Ok::<uuid::Uuid, MappingError>(uuid_of(src@))
        } else {
            out == Err::<uuid::Uuid, MappingError>(uuid_leaf_error())
        }
    }

    fn try_map_from(src: String) -> (r: Result<uuid::Uuid, MappingError>) {
        match parse_uuid(src.as_str()) {
            Ok(u) => Ok(u),
            Err(_) => Err(MappingError::InvalidUuid { field: "<uuid>" }),
        }
    }
}

impl TryMapFrom<uuid::Uuid> for String {
    open spec fn try_maps(src: uuid::Uuid, out: Result<String, MappingError>) -> bool {
        out matches Ok(s) && s@ == uuid_display(src) && canonical_uuid_text(s@) && uuid_of(s@) == src
    }

    fn try_map_from(src: uuid::Uuid) -> (r: Result<String, MappingError>) {
        Ok(uuid_text_of(&src))
    }
}

impl MapFrom<uuid::Uuid> for String {
    open spec fn maps(src: uuid::Uuid, out: String) -> bool {
        out@ == uuid_display(src) && canonical_uuid_text(out@) && uuid_of(out@) == src
    }

    fn map_from(src: uuid::Uuid) -> (r: String) {
        uuid_text_of(&src)
    }
}

/// The text a `Uuid` maps to always maps back: the canonical form is one of
/// the forms the parse accepts.
pub proof fn law_uuid_text_maps_back(s: Seq<char>)
    requires
        canonical_uuid_text(s),
    ensures
        uuid_text(s),
{
    assert forall|i: int| 0 <= i < 36 implies if hyphen_at(i) { s[i] == '-' } else { hex_digit(#[trigger] s[i]) } by {
        if !hyphen_at(i) {
            assert(lower_hex_digit(s[i]));
        }
    }
}

/// A uuid mapped to text and back is the same uuid.
pub proof fn law_uuid_round_trip(u: uuid::Uuid, text: String, back: Result<uuid::Uuid, MappingError>)
    requires
        <String as MapFrom<uuid::Uuid>>::maps(u, text),
        <uuid::Uuid as TryMapFrom<String>>::try_maps(text, back),
    ensures
        back == Ok::<uuid::Uuid, MappingError>(u),
{
    law_uuid_text_maps_back(text@);
}

/// A bubbled `uuid::Error` becomes an invalid-uuid error; a conversion has no
/// field to name, so the field reads `<override>`.
impl From<uuid::Error> for MappingError {
    fn from(e: uuid::Error) -> (r: MappingError) {
        MappingError::InvalidUuid { field: "<override>" }
    }
}

impl vstd::std_specs::convert::FromSpecImpl<uuid::Error> for MappingError {
    open spec fn obeys_from_spec() -> bool {
        true
    }

    open spec fn from_spec(e: uuid::Error) -> MappingError {
        MappingError::InvalidUuid { field: "<override>" }
    }
}

// ── String ↔ Decimal ─────────────────────────────────────────────────────────

/// Whether `Decimal`'s `FromStr` accepts `text`.
pub uninterp spec fn decimal_text(text: Seq<char>) -> bool;

/// The error a rejected decimal text maps to.
pub open spec fn decimal_leaf_error() -> MappingError {
    MappingError::Parse { field: "<decimal>" }
}

/// The `Decimal` that `Decimal`'s `FromStr` reads from an accepted text.
pub uninterp spec fn decimal_of(text: Seq<char>) -> rust_decimal::Decimal;

/// The text `Decimal`'s `Display` writes for a value, with no precision asked.
pub uninterp spec fn decimal_display(d: rust_decimal::Decimal) -> Seq<char>;

/// `str::parse::<rust_decimal::Decimal>`: succeeds exactly when
/// `decimal_text` holds of the text, with the value `decimal_of` names.
#[verifier::external_body]
fn parse_decimal(text: &str) -> (r: Result<rust_decimal::Decimal, rust_decimal::Error>)
    ensures
        r is Ok <==> decimal_text(text@),
        r matches Ok(d) ==> d == decimal_of(text@),
{
    text.parse::<rust_decimal::Decimal>()
}

/// A run of one or more ASCII digits.
pub open spec fn ascii_digits(s: Seq<char>) -> bool {
    &&& s.len() > 0
    &&& forall|i: int| 0 <= i < s.len() ==> 0x30 <= #[trigger] s[i] as int <= 0x39
}

/// Digits, optionally followed by a `.` and more digits.
pub open spec fn unsigned_numeral(s: Seq<char>) -> bool {
    ||| ascii_digits(s)
    ||| exists|k: int| 0 < k < s.len() - 1 && s[k] == '.' && ascii_digits(#[trigger] s.take(k)) && ascii_digits(
        s.skip(k + 1),
    )
}

/// A plain decimal numeral: an optional `-`, digits, and an optional
/// fractional part (no exponent, no grouping).
pub open spec fn decimal_numeral(s: Seq<char>) -> bool {
    ||| unsigned_numeral(s)
    ||| (s.len() > 0 && s[0] == '-' && unsigned_numeral(s.drop_first()))
}

/// `Decimal`'s `Display` with no precision requested: the sign when the value
/// is negative, the whole digits (`0` when there are none), and, when the
/// scale is not zero, a `.` and exactly scale-many fractional digits.
#[verifier::external_body]
fn decimal_text_of(d: &rust_decimal::Decimal) -> (r: String)
    ensures
        r@ == decimal_display(*d),
        decimal_numeral(r@),
{
    d.to_string()
}

/// Strict: a text the decimal parser rejects is a parse error.
impl TryMapFrom<String> for rust_decimal::Decimal {
    open spec fn try_maps(src: String, out: Result<rust_decimal::Decimal, MappingError>) -> bool {
        if decimal_text(src@) {
            out == Ok::<rust_decimal::Decimal, MappingError>(decimal_of(src@))
        } else {
            out == Err::<rust_decimal::Decimal, MappingError>(decimal_leaf_error())
        }
    }

    fn try_map_from(src: String) -> (r: Result<rust_decimal::Decimal, MappingError>) {
        match parse_decimal(src.as_str()) {
            Ok(d) => Ok(d),
            Err(_) => Err(MappingError::Parse { field: "<decimal>" }),
        }
    }
}

impl TryMapFrom<rust_decimal::Decimal> for String {
    /// Displaying a decimal cannot fail; it gives a plain decimal numeral.
    open spec fn try_maps(src: rust_decimal::Decimal, out: Result<String, MappingError>) -> bool {
        out matches Ok(s) && s@ == decimal_display(src) && decimal_numeral(s@)
    }

    fn try_map_from(src: rust_decimal::Decimal) -> (r: Result<String, MappingError>) {
        Ok(decimal_text_of(&src))
    }
}

impl MapFrom<rust_decimal::Decimal> for String {
    open spec fn maps(src: rust_decimal::Decimal, out: String) -> bool {
        out@ == decimal_display(src) && decimal_numeral(out@)
    }

    fn map_from(src: rust_decimal::Decimal) -> (r: String) {
        decimal_text_of(&src)
    }
}

/// A bubbled `rust_decimal::Error` becomes a parse error with field
/// `<override>`.
impl From<rust_decimal::Error> for MappingError {
    fn from(e: rust_decimal::Error) -> (r: MappingError) {
        MappingError::Parse { field: "<override>" }
    }
}

impl vstd::std_specs::convert::FromSpecImpl<rust_decimal::Error> for MappingError {
    open spec fn obeys_from_spec() -> bool {
        true
    }

    open spec fn from_spec(e: rust_decimal::Error) -> MappingError {
        MappingError::Parse { field: "<override>" }
    }
}

// ── String ↔ NaiveDate ───────────────────────────────────────────────────────

/// Whether `NaiveDate`'s `FromStr` accepts `text`.
pub uninterp spec fn iso_date_text(text: Seq<char>) -> bool;

/// The error a rejected date text maps to: the type's name in the field.
pub open spec fn date_leaf_error() -> MappingError {
    MappingError::Parse { field: "NaiveDate" }
}

/// The date that `NaiveDate`'s `FromStr` reads from an accepted text.
pub uninterp spec fn date_of(text: Seq<char>) -> chrono::NaiveDate;

/// The text `NaiveDate`'s `Display` writes for a date.
pub uninterp spec fn date_display(d: chrono::NaiveDate) -> Seq<char>;

/// `str::parse::<chrono::NaiveDate>`: succeeds exactly when `iso_date_text`
/// holds of the text, with the date `date_of` names.
#[verifier::external_body]
fn parse_date(text: &str) -> (r: Result<chrono::NaiveDate, chrono::ParseError>)
    ensures
        r is Ok <==> iso_date_text(text@),
        r matches Ok(d) ==> d == date_of(text@),
{
    text.parse::<chrono::NaiveDate>()
}

/// The value of a two-digit ASCII number.
pub open spec fn two_digit_value(s: Seq<char>) -> int {
    (s[0] as int - 0x30) * 10 + (s[1] as int - 0x30)
}

/// The year part of an ISO-8601 date: four digits, or, for a year outside
/// `0..=9999`, a sign and at least four digits.
pub open spec fn iso_year(y: Seq<char>) -> bool {
    ||| (y.len() == 4 && ascii_digits(y))
    ||| (y.len() >= 5 && (y[0] == '+' || y[0] == '-') && ascii_digits(y.drop_first()))
}

/// `YYYY-MM-DD`: a year, then a two-digit month in `01..=12` and a two-digit
/// day in `01..=31`, separated by `-`.
pub open spec fn iso_date_display(s: Seq<char>) -> bool {
    let n = s.len() as int;
    &&& n >= 10
    &&& iso_year(s.take(n - 6))
    &&& s[n - 6] == '-'
    &&& s[n - 3] == '-'
    &&& ascii_digits(s.subrange(n - 5, n - 3))
    &&& ascii_digits(s.subrange(n - 2, n))
    &&& 1 <= two_digit_value(s.subrange(n - 5, n - 3)) <= 12
    &&& 1 <= two_digit_value(s.subrange(n - 2, n)) <= 31
}

/// `NaiveDate`'s `Display`: the year (four digits, or signed for a year
/// outside `0..=9999`), then `-MM-DD`. `FromStr` reads the same `%Y-%m-%d`
/// format, so the text parses back to the same date.
#[verifier::external_body]
fn date_text_of(d: &chrono::NaiveDate) -> (r: String)
    ensures
        r@ == date_display(*d),
        iso_date_display(r@),
        iso_date_text(r@),
        date_of(r@) == *d,
{
    d.to_string()
}

impl TryMapFrom<String> for chrono::NaiveDate {
    open spec fn try_maps(src: String, out: Result<chrono::NaiveDate, MappingError>) -> bool {
        if iso_date_text(src@) {
            out == Ok::<chrono::NaiveDate, MappingError>(date_of(src@))
        } else {
            out == Err::<chrono::NaiveDate, MappingError>(date_leaf_error())
        }
    }

    fn try_map_from(src: String) -> (r: Result<chrono::NaiveDate, MappingError>) {
        match parse_date(src.as_str()) {
            Ok(d) => Ok(d),
            Err(_) => Err(MappingError::Parse { field: "NaiveDate" }),
        }
    }
}

impl TryMapFrom<chrono::NaiveDate> for String {
    /// Displaying a date cannot fail; it gives the ISO-8601 form.
    open spec fn try_maps(src: chrono::NaiveDate, out: Result<String, MappingError>) -> bool {
        out matches Ok(s) && s@ == date_display(src) && iso_date_display(s@) && iso_date_text(s@)
            && date_of(s@) == src
    }

    fn try_map_from(src: chrono::NaiveDate) -> (r: Result<String, MappingError>) {
        Ok(date_text_of(&src))
    }
}

impl MapFrom<chrono::NaiveDate> for String {
    open spec fn maps(src: chrono::NaiveDate, out: String) -> bool {
        out@ == date_display(src) && iso_date_display(out@) && iso_date_text(out@) && date_of(out@) == src
    }

    fn map_from(src: chrono::NaiveDate) -> (r: String) {
        date_text_of(&src)
    }
}

/// A date mapped to text and back is the same date.
pub proof fn law_date_round_trip(d: chrono::NaiveDate, text: String, back: Result<chrono::NaiveDate, MappingError>)
    requires
        <String as MapFrom<chrono::NaiveDate>>::maps(d, text),
        <chrono::NaiveDate as TryMapFrom<String>>::try_maps(text, back),
    ensures
        back == Ok::<chrono::NaiveDate, MappingError>(d),
{
}

// ── String ↔ DateTime<Utc> ──────────────────────────────────────────────────

/// A UTC timestamp, `chrono::DateTime<chrono::Utc>`, carried as it is.
#[verifier::external_body]
#[derive(Debug, PartialEq, Eq)]
pub struct Instant {
    pub utc: chrono::DateTime<chrono::Utc>,
}

impl TryMapFrom<Instant> for Instant {
    open spec fn try_maps(src: Instant, out: Result<Instant, MappingError>) -> bool {
        out == Ok::<Instant, MappingError>(src)
    }

    fn try_map_from(src: Instant) -> (r: Result<Instant, MappingError>) {
        Ok(src)
    }
}

impl MapFrom<Instant> for Instant {
    open spec fn maps(src: Instant, out: Instant) -> bool {
        out == src
    }

    fn map_from(src: Instant) -> (r: Instant) {
        src
    }
}

/// Whether `DateTime::parse_from_rfc3339` accepts `text`.
pub uninterp spec fn rfc3339_text(text: Seq<char>) -> bool;

/// The instant that an accepted rfc3339 text names, taken to UTC.
pub uninterp spec fn instant_of(text: Seq<char>) -> Instant;

/// The text `DateTime::to_rfc3339` writes for an instant.
pub uninterp spec fn rfc3339_display(d: Instant) -> Seq<char>;

/// The error a rejected timestamp text maps to.
pub open spec fn datetime_leaf_error() -> MappingError {
    MappingError::Parse { field: "<datetime>" }
}

/// `DateTime::parse_from_rfc3339`, then `with_timezone(&Utc)`: succeeds
/// exactly when `rfc3339_text` holds of the text, with the instant
/// `instant_of` names.
#[verifier::external_body]
fn parse_instant(text: &str) -> (r: Result<Instant, chrono::ParseError>)
    ensures
        r is Ok <==> rfc3339_text(text@),
        r matches Ok(d) ==> d == instant_of(text@),
{
    match chrono::DateTime::parse_from_rfc3339(text) {
        Ok(d) => Ok(Instant { utc: d.with_timezone(&chrono::Utc) }),
        Err(e) => Err(e),
    }
}

/// `DateTime::to_rfc3339`: the text `rfc3339_display` names. Whether that
/// text parses back to the same instant is not stated: for a leap second
/// or a year outside `0..=9999` the source does not show it.
#[verifier::external_body]
fn instant_text(d: &Instant) -> (r: String)
    ensures
        r@ == rfc3339_display(*d),
{
    d.utc.to_rfc3339()
}

impl TryMapFrom<String> for Instant {
    /// The canonical wire format for timestamps is rfc3339.
    open spec fn try_maps(src: String, out: Result<Instant, MappingError>) -> bool {
        if rfc3339_text(src@) {
            out == Ok::<Instant, MappingError>(instant_of(src@))
        } else {
            out == Err::<Instant, MappingError>(datetime_leaf_error())
        }
    }

    fn try_map_from(src: String) -> (r: Result<Instant, MappingError>) {
        match parse_instant(src.as_str()) {
            Ok(d) => Ok(d),
            Err(_) => Err(MappingError::Parse { field: "<datetime>" }),
        }
    }
}

impl TryMapFrom<Instant> for String {
    /// Writing a timestamp cannot fail; it gives the rfc3339 form.
    open spec fn try_maps(src: Instant, out: Result<String, MappingError>) -> bool {
        out matches Ok(s) && s@ == rfc3339_display(src)
    }

    fn try_map_from(src: Instant) -> (r: Result<String, MappingError>) {
        Ok(instant_text(&src))
    }
}

impl MapFrom<Instant> for String {
    open spec fn maps(src: Instant, out: String) -> bool {
        out@ == rfc3339_display(src)
    }

    fn map_from(src: Instant) -> (r: String) {
        instant_text(&src)
    }
}

/// A bubbled `chrono::ParseError` becomes a parse error with field
/// `<override>`.
impl From<chrono::ParseError> for MappingError {
    fn from(e: chrono::ParseError) -> (r: MappingError) {
        MappingError::Parse { field: "<override>" }
    }
}

impl vstd::std_specs::convert::FromSpecImpl<chrono::ParseError> for MappingError {
    open spec fn obeys_from_spec() -> bool {
        true
    }

    open spec fn from_spec(e: chrono::ParseError) -> MappingError {
        MappingError::Parse { field: "<override>" }
    }
}

} // verus!
