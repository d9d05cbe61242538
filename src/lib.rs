//! Layout of a rectangular tile grid: a fresh identity for every cell,
//! a dense coordinate-to-identity storage, and the translation that centres
//! the whole grid on a reference point.

mod grid;
mod layout;

pub use grid::{
    CellCoordinate, CellIdentity, GridExtent, GridModel, GridStorage, cell_index,
    coordinate_of, coordinate_set, lemma_cell_index_bijective,
};
pub use layout::{
    CellSize, Dimension, GridError, PlacementTransform, ReferencePoint, centred_halves,
    check_dimensions, dimension_error, generate, generation_outcome, is_centred,
    lemma_generated_identities_unique, lemma_generated_storage_complete,
    lemma_generation_deterministic, lemma_regeneration_same_coordinates, placement_transform,
};
