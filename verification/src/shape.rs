//! What a `MagicMap` schema publishes about a type: whether it is an enum,
//! its field (or variant) names in declaration order, and which fields
//! declare their own default.
use vstd::prelude::*;
use crate::seqs::names_of;

verus! {

/// A published schema: field names of a named-field struct, or variant
/// names of a unit-only enum, and the fields that carry `#[default(..)]`.
pub struct Shape {
    pub is_enum: bool,
    pub names: Vec<String>,
    pub declared: Vec<String>,
}

impl Shape {
    pub open spec fn name_seq(&self) -> Seq<Seq<char>> {
        names_of(self.names@)
    }

    pub open spec fn declared_seq(&self) -> Seq<Seq<char>> {
        names_of(self.declared@)
    }
}

/// A schema as a mathematical value.
pub struct ShapeV {
    pub is_enum: bool,
    pub names: Seq<Seq<char>>,
    pub declared: Seq<Seq<char>>,
}

impl View for Shape {
    type V = ShapeV;

    open spec fn view(&self) -> ShapeV {
        ShapeV { is_enum: self.is_enum, names: self.name_seq(), declared: self.declared_seq() }
    }
}

} // verus!
