//! A model catalogue that owns its own leaves: an enum that maps to itself, to
//! its name and back, two wire units with hand-written leaves, a model carrying
//! them, and sealed destinations that only a declared mapping (or the
//! deliberate constructor) can build.
use vstd::prelude::*;
use crate::error::MappingError;
use crate::funnel::{MapFrom, TryMapFrom};
use crate::text::{i64_text, int_text};

verus! {

// ── the enum leaf ────────────────────────────────────────────────────────────

#[derive(Clone, Copy, Debug, PartialEq, Eq, Structural)]
pub enum Species {
    Cat,
    Lion,
}

/// The name a `Species` displays as, and parses from.
pub open spec fn species_name(s: Species) -> Seq<char> {
    match s {
        Species::Cat => seq!['C', 'a', 't'],
        Species::Lion => seq!['L', 'i', 'o', 'n'],
    }
}

/// The `Species` whose name is `text`, if any.
pub open spec fn species_named(text: Seq<char>) -> Option<Species> {
    if text == species_name(Species::Cat) {
        Some(Species::Cat)
    } else if text == species_name(Species::Lion) {
        Some(Species::Lion)
    } else {
        None
    }
}

/// The error a failed `Species` parse reports.
pub open spec fn species_parse_error() -> MappingError {
    MappingError::Parse { field: "Species" }
}

impl Species {
    /// The variant's name: `Cat` or `Lion`.
    pub fn to_string(&self) -> (r: String)
        ensures
            r@ == species_name(*self),
    {
        proof {
            reveal_strlit("Cat");
            reveal_strlit("Lion");
        }
        match self {
            Species::Cat => String::from_str("Cat"),
            Species::Lion => String::from_str("Lion"),
        }
    }

    /// The variant named exactly `text`, case included.
    pub fn from_name(text: &str) -> (r: Option<Species>)
        ensures
            r == species_named(text@),
    {
        proof {
            reveal_strlit("Cat");
            reveal_strlit("Lion");
        }
        assert("Cat"@ =~= species_name(Species::Cat));
        assert("Lion"@ =~= species_name(Species::Lion));
        let owned = String::from_str(text);
        if owned == String::from_str("Cat") {
            Some(Species::Cat)
        } else if owned == String::from_str("Lion") {
            Some(Species::Lion)
        } else {
            None
        }
    }
}

impl TryMapFrom<Species> for Species {
    open spec fn try_maps(src: Species, out: Result<Species, MappingError>) -> bool {
        out == Ok::<Species, MappingError>(src)
    }

    fn try_map_from(src: Species) -> (r: Result<Species, MappingError>) {
        Ok(src)
    }
}

impl MapFrom<Species> for Species {
    open spec fn maps(src: Species, out: Species) -> bool {
        out == src
    }

    fn map_from(src: Species) -> (r: Species) {
        src
    }
}

impl TryMapFrom<Species> for String {
    open spec fn try_maps(src: Species, out: Result<String, MappingError>) -> bool {
        out matches Ok(s) && s@ == species_name(src)
    }

    fn try_map_from(src: Species) -> (r: Result<String, MappingError>) {
        Ok(src.to_string())
    }
}

impl MapFrom<Species> for String {
    open spec fn maps(src: Species, out: String) -> bool {
        out@ == species_name(src)
    }

    fn map_from(src: Species) -> (r: String) {
        src.to_string()
    }
}

impl TryMapFrom<String> for Species {
    /// Strict: only an exact variant name parses.
    open spec fn try_maps(src: String, out: Result<Species, MappingError>) -> bool {
        match species_named(src@) {
            Some(s) => out == Ok::<Species, MappingError>(s),
            None => out == Err::<Species, MappingError>(species_parse_error()),
        }
    }

    fn try_map_from(src: String) -> (r: Result<Species, MappingError>) {
        match Species::from_name(src.as_str()) {
            Some(s) => Ok(s),
            None => Err(MappingError::Parse { field: "Species" }),
        }
    }
}

/// A name read back gives the variant that wrote it.
pub proof fn law_species_name_round_trip(s: Species)
    ensures
        species_named(species_name(s)) == Some(s),
{
    assert(species_name(Species::Cat) != species_name(Species::Lion));
}

// ── wire units ───────────────────────────────────────────────────────────────

#[derive(Clone, Copy, Debug, PartialEq, Eq, Structural)]
pub struct Fahrenheit(pub i32);

#[derive(Clone, Copy, Debug, PartialEq, Eq, Structural)]
pub struct Celsius(pub i32);

/// `text` followed by a unit letter.
pub open spec fn with_unit(degrees: i32, unit: char) -> Seq<char> {
    int_text(degrees as int).push(unit)
}

/// A hand-written fallible leaf: `Fahrenheit(72)` becomes `"72F"`.
impl TryMapFrom<Fahrenheit> for String {
    open spec fn try_maps(src: Fahrenheit, out: Result<String, MappingError>) -> bool {
        out matches Ok(s) && s@ == with_unit(src.0, 'F')
    }

    fn try_map_from(src: Fahrenheit) -> (r: Result<String, MappingError>) {
        let mut s = i64_text(src.0 as i64);
        proof {
            reveal_strlit("F");
        }
        s.append("F");
        assert(s@ =~= with_unit(src.0, 'F'));
        Ok(s)
    }
}

/// A hand-written infallible leaf: `Celsius(21)` becomes `"21C"`.
impl MapFrom<Celsius> for String {
    open spec fn maps(src: Celsius, out: String) -> bool {
        out@ == with_unit(src.0, 'C')
    }

    fn map_from(src: Celsius) -> (r: String) {
        let mut s = i64_text(src.0 as i64);
        proof {
            reveal_strlit("C");
        }
        s.append("C");
        assert(s@ =~= with_unit(src.0, 'C'));
        s
    }
}

/// A model carrying both leaves, for a downstream mapper to convert.
pub struct Reading {
    pub species: Species,
    pub species_label: Species,
    pub temp: Fahrenheit,
}

// ── sealed destinations ──────────────────────────────────────────────────────

/// Sealed: no other crate can write a struct expression for this, so the only
/// way in is a declared mapping (which uses the hidden constructor) or the
/// deliberate, greppable call.
#[non_exhaustive]
#[derive(Debug, PartialEq)]
pub struct SealedDto {
    pub id: String,
    pub count: u64,
}

impl SealedDto {
    /// The all-fields constructor declared mappings build through.
    pub fn __magic_map_new_unchecked(id: String, count: u64) -> (r: SealedDto)
        ensures
            r.id == id,
            r.count == count,
    {
        SealedDto { id, count }
    }
}

impl Default for SealedDto {
    fn default() -> (r: SealedDto)
        ensures
            r.id@ == Seq::<char>::empty(),
            r.count == 0,
    {
        SealedDto { id: String::new(), count: 0 }
    }
}

/// The same shape, unsealed, as the control.
#[derive(Debug, PartialEq)]
pub struct OpenDto {
    pub id: String,
    pub count: u64,
}

impl Default for OpenDto {
    fn default() -> (r: OpenDto)
        ensures
            r.id@ == Seq::<char>::empty(),
            r.count == 0,
    {
        OpenDto { id: String::new(), count: 0 }
    }
}

/// A sealed sparse update: it starts from the model's `Default` and each
/// chained setter touches exactly its own field.
#[non_exhaustive]
#[derive(Debug, PartialEq)]
pub struct SealedPatch {
    pub id: String,
    pub count: u64,
    pub note: Option<String>,
}

/// What a patch holds.
pub struct PatchV {
    pub id: Seq<char>,
    pub count: u64,
    pub note: Option<Seq<char>>,
}

/// The view of an optional string.
pub open spec fn opt_text(o: Option<String>) -> Option<Seq<char>> {
    match o {
        Some(s) => Some(s@),
        None => None,
    }
}

impl View for SealedPatch {
    type V = PatchV;

    open spec fn view(&self) -> PatchV {
        PatchV { id: self.id@, count: self.count, note: opt_text(self.note) }
    }
}

impl PatchV {
    /// The patch nobody has touched: the model's `Default`.
    pub open spec fn empty() -> PatchV {
        PatchV { id: Seq::empty(), count: 0, note: None }
    }

    pub open spec fn with_id(self, id: Seq<char>) -> PatchV {
        PatchV { id, ..self }
    }

    pub open spec fn with_count(self, count: u64) -> PatchV {
        PatchV { count, ..self }
    }

    pub open spec fn with_note(self, note: Option<Seq<char>>) -> PatchV {
        PatchV { note, ..self }
    }
}

impl Default for SealedPatch {
    fn default() -> (r: SealedPatch)
        ensures
            r@ == PatchV::empty(),
    {
        SealedPatch { id: String::new(), count: 0, note: None }
    }
}

impl SealedPatch {
    /// The all-fields constructor declared mappings build through.
    pub fn __magic_map_new_unchecked(id: String, count: u64, note: Option<String>) -> (r: SealedPatch)
        ensures
            r.id == id,
            r.count == count,
            r.note == note,
    {
        SealedPatch { id, count, note }
    }

    /// An empty patch, to chain setters on.
    pub fn patch() -> (r: SealedPatch)
        ensures
            r@ == PatchV::empty(),
    {
        SealedPatch { id: String::new(), count: 0, note: None }
    }

    pub fn id(self, id: String) -> (r: SealedPatch)
        ensures
            r@ == self@.with_id(id@),
    {
        SealedPatch { id, ..self }
    }

    pub fn count(self, count: u64) -> (r: SealedPatch)
        ensures
            r@ == self@.with_count(count),
    {
        SealedPatch { count, ..self }
    }

    pub fn note(self, note: Option<String>) -> (r: SealedPatch)
        ensures
            r@ == self@.with_note(opt_text(note)),
    {
        SealedPatch { note, ..self }
    }
}

/// Setting a field twice keeps only the second value, whatever else the patch
/// holds.
pub proof fn law_patch_setters_last_write_wins(
    p: PatchV,
    i1: Seq<char>,
    i2: Seq<char>,
    c1: u64,
    c2: u64,
    n1: Option<Seq<char>>,
    n2: Option<Seq<char>>,
)
    ensures
        p.with_id(i1).with_id(i2) == p.with_id(i2),
        p.with_count(c1).with_count(c2) == p.with_count(c2),
        p.with_note(n1).with_note(n2) == p.with_note(n2),
{
}

/// Setters on different fields do not disturb each other: a chain touches
/// only the fields it names.
pub proof fn law_patch_setters_touch_one_field(p: PatchV, i: Seq<char>, c: u64, n: Option<Seq<char>>)
    ensures
        p.with_id(i).count == p.count && p.with_id(i).note == p.note,
        p.with_count(c).id == p.id && p.with_count(c).note == p.note,
        p.with_note(n).id == p.id && p.with_note(n).count == p.count,
        p.with_id(i).with_count(c) == p.with_count(c).with_id(i),
        p.with_count(c).with_note(n) == p.with_note(n).with_count(c),
        p.with_id(i).with_note(n) == p.with_note(n).with_id(i),
{
}

} // verus!
