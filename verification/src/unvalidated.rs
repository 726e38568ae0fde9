//! Mapping into a destination that carries validation constraints for its
//! own purposes: without validation switched on, the mapping only maps.
use vstd::prelude::*;
use crate::error::MappingError;
use crate::funnel::{TryMapFrom, TryMapInto};

verus! {

pub struct RawInput {
    pub name: String,
    pub email: String,
}

/// A destination whose fields carry constraints (a 1..=50 character name, an
/// email address) that this mapping does not check.
#[derive(Debug)]
pub struct ValidatedDto {
    pub name: String,
    pub email: String,
}

/// `RawInput => ValidatedDto`: both fields pair by name through the `String`
/// identity leaf.
impl TryMapFrom<RawInput> for ValidatedDto {
    open spec fn try_maps(src: RawInput, out: Result<ValidatedDto, MappingError>) -> bool {
        out matches Ok(d) && d.name == src.name && d.email == src.email
    }

    fn try_map_from(src: RawInput) -> (r: Result<ValidatedDto, MappingError>) {
        let name = match <String as TryMapFrom<String>>::try_map_from(src.name) {
            Ok(v) => v,
            Err(e) => return Err(e),
        };
        let email = match <String as TryMapFrom<String>>::try_map_from(src.email) {
            Ok(v) => v,
            Err(e) => return Err(e),
        };
        Ok(ValidatedDto { name, email })
    }
}

/// Mapping does not validate: input that breaks every constraint (an empty
/// name, an address that is not one) still maps, unchanged.
pub fn maps_without_validating() -> (r: ValidatedDto)
    ensures
        r.name@ == Seq::<char>::empty(),
        r.email@ == "not-an-email"@,
{
    let raw = RawInput { name: String::new(), email: String::from_str("not-an-email") };
    let mapped: Result<ValidatedDto, MappingError> = raw.try_map_into();
    match mapped {
        Ok(d) => d,
        Err(_) => {
            proof {
                assert(false);
            }
            ValidatedDto { name: String::new(), email: String::new() }
        },
    }
}

} // verus!
