//! Typed trait metadata: the record that distinguishes a trait's
//! definition from an implementation block, kept for the metadata store.

use vstd::prelude::*;
use vstd::string::*;

verus! {

/// Whether a record stands for a trait definition or an implementation.
#[derive(Debug, PartialEq, Eq, Structural, Clone, Copy)]
pub enum TraitMetadataType {
    Definition,
    Implementation,
}

/// The display name of a trait record type.
pub open spec fn trait_type_str(t: TraitMetadataType) -> Seq<char> {
    match t {
        TraitMetadataType::Definition => "Definition"@,
        TraitMetadataType::Implementation => "Implementation"@,
    }
}

impl TraitMetadataType {
    /// The display name of this record type.
    pub fn to_string(&self) -> (r: String)
        ensures
            r@ == trait_type_str(*self),
    {
        match self {
            TraitMetadataType::Definition => String::from_str("Definition"),
            TraitMetadataType::Implementation => String::from_str("Implementation"),
        }
    }
}

/// The record kept for one trait definition or implementation found in
/// the scanned sources.
#[derive(Debug, Clone, PartialEq)]
pub struct TraitMetadata {
    pub path: String,
    pub name: String,
    pub trait_type: TraitMetadataType,
    pub metadata_id: String,
    pub start_line_index: usize,
    pub end_line_index: usize,
}

impl TraitMetadata {
    /// Builds a typed trait record from its parts.  The identity is
    /// handed in by the caller that generated it.
    pub fn new(
        path: String,
        name: String,
        metadata_sub_type: TraitMetadataType,
        metadata_id: String,
        start_line_index: usize,
        end_line_index: usize,
    ) -> (r: Self)
        ensures
            r.path == path,
            r.name == name,
            r.trait_type == metadata_sub_type,
            r.metadata_id == metadata_id,
            r.start_line_index == start_line_index,
            r.end_line_index == end_line_index,
    {
        TraitMetadata {
            path,
            name,
            trait_type: metadata_sub_type,
            metadata_id,
            start_line_index,
            end_line_index,
        }
    }

    /// The name of this record.
    pub fn name(&self) -> (r: String)
        ensures
            r@ == self.name@,
    {
        self.name.clone()
    }

    /// The source path of this record.
    pub fn path(&self) -> (r: String)
        ensures
            r@ == self.path@,
    {
        self.path.clone()
    }

    /// The identity of this record.
    pub fn metadata_id(&self) -> (r: String)
        ensures
            r@ == self.metadata_id@,
    {
        self.metadata_id.clone()
    }

    /// The opening line of this record.
    pub fn start_line_index(&self) -> (r: usize)
        ensures
            r == self.start_line_index,
    {
        self.start_line_index
    }

    /// The closing line of this record.
    pub fn end_line_index(&self) -> (r: usize)
        ensures
            r == self.end_line_index,
    {
        self.end_line_index
    }

    /// Whether this record is a definition or an implementation.
    pub fn metadata_sub_type(&self) -> (r: TraitMetadataType)
        ensures
            r == self.trait_type,
    {
        self.trait_type
    }

    /// The display name of this record family.
    pub fn metadata_name() -> (r: String)
        ensures
            r@ == "Trait"@,
    {
        String::from_str("Trait")
    }
}

} // verus!
