//! Declaration-site, fallible struct/enum mapping.
//!
//! The runtime half (`error`, `funnel`, `leaves`, `text`) holds the error
//! type, the `TryMapFrom`/`MapFrom` funnel, and the leaf conversions that
//! generated mappings resolve their fields through. `catalog` and
//! `unvalidated` are model crates' worth of types that use it: an enum and two
//! wire units with their own leaves, sealed destinations with a sparse patch,
//! and a destination whose validation constraints a mapping leaves alone.
//!
//! The planning half (`tokens`, `rust_syntax`, `shape`, `input`, `front`,
//! `schema`, `derive_text`, `expand`, `expand_laws`, `emit`) decides what a
//! `magic_map!` declaration and a `#[derive(MagicMap)]` expand to: it reads
//! them as token trees (or, for the derive, as the item's text) and produces
//! a plan, or the error the declaration earns.
//!
//! `emit` writes out what a plan, a front-end declaration and a derived
//! schema expand to, as tokens.
//!
//! `lint` reads a file's impl items from its text and decides what the
//! conversion-impl lint flags and reports.
use vstd::prelude::*;

pub mod error;
pub mod funnel;
pub mod leaves;
pub mod text;
pub mod catalog;
pub mod unvalidated;
pub mod seqs;
pub mod tokens;
pub mod rust_syntax;
pub mod shape;
pub mod input;
pub mod front;
pub mod schema;
pub mod derive_text;
pub mod expand;
pub mod expand_laws;
pub mod emit;
pub mod lint;

pub use crate::error::MappingError;
pub use crate::funnel::{MapFieldOpt, MapFieldVal, MapFieldWrap, MapFrom, MapInto, MapPair, TryMapFrom, TryMapInto};

verus! {
}
