use vstd::prelude::*;
use crate::grid::{
    GridExtent, GridStorage, cell_index, coordinate_of, coordinate_set,
    lemma_cell_index_bijective,
};

verus! {

/// Size of one cell, in whole world units.
#[derive(PartialEq, Eq, Structural, Clone, Copy, Debug)]
pub struct CellSize {
    pub width: u32,
    pub height: u32,
}

/// The point on which a grid is centred.
#[derive(PartialEq, Eq, Structural, Clone, Copy, Debug)]
pub struct ReferencePoint {
    pub x: i64,
    pub y: i64,
}

/// Translation that places a grid. `half_x` and `half_y` are in half world
/// units, so the centre of a span of odd length is exact; `z` is the stacking
/// depth, in world units.
#[derive(PartialEq, Eq, Structural, Clone, Copy, Debug)]
pub struct PlacementTransform {
    pub half_x: i128,
    pub half_y: i128,
    pub z: i64,
}

/// The input that a rejected generation names.
#[derive(PartialEq, Eq, Structural, Clone, Copy, Debug)]
pub enum Dimension {
    Columns,
    Rows,
    CellWidth,
    CellHeight,
}

#[derive(PartialEq, Eq, Structural, Clone, Copy, Debug)]
pub enum GridError {
    /// A count of cells or a cell size is zero.
    InvalidDimension(Dimension),
    /// `columns * rows` entries cannot be addressed on this machine.
    TooLarge,
}

/// Why `extent` and `size` cannot be laid out, checked in argument order;
/// `None` when they can.
pub open spec fn dimension_error(extent: GridExtent, size: CellSize) -> Option<GridError> {
    if extent.columns == 0 {
        Some(GridError::InvalidDimension(Dimension::Columns))
    } else if extent.rows == 0 {
        Some(GridError::InvalidDimension(Dimension::Rows))
    } else if size.width == 0 {
        Some(GridError::InvalidDimension(Dimension::CellWidth))
    } else if size.height == 0 {
        Some(GridError::InvalidDimension(Dimension::CellHeight))
    } else if extent.columns as nat * extent.rows as nat > usize::MAX {
        Some(GridError::TooLarge)
    } else {
        None
    }
}

/// Twice the translation along one axis that centres a span of `count` cells
/// of length `cell` on `reference`: `2 * (reference - count * cell / 2)`.
pub open spec fn centred_halves(reference: int, count: nat, cell: nat) -> int {
    2 * reference - count * cell
}

/// `t` moves the grid's bounding box, `columns * width` by `rows * height`,
/// so that its centre is `reference`, and lays it at `depth`.
pub open spec fn is_centred(
    t: PlacementTransform,
    extent: GridExtent,
    size: CellSize,
    reference: ReferencePoint,
    depth: i64,
) -> bool {
    &&& t.half_x == centred_halves(reference.x as int, extent.columns as nat, size.width as nat)
    &&& t.half_y == centred_halves(reference.y as int, extent.rows as nat, size.height as nat)
    &&& t.z == depth
}

/// What a call of `generate` may return: the error that the inputs call for,
/// or a fully populated storage of fresh, distinct identities together with
/// the centring transform.
pub open spec fn generation_outcome(
    extent: GridExtent,
    size: CellSize,
    reference: ReferencePoint,
    depth: i64,
    r: Result<(GridStorage, PlacementTransform), GridError>,
) -> bool {
    match r {
        Ok((storage, t)) => {
            &&& dimension_error(extent, size).is_none()
            &&& storage.wf()
            &&& storage@.columns == extent.columns
            &&& storage@.rows == extent.rows
            &&& storage@.freshly_allocated()
            &&& storage@.identities_distinct()
            &&& is_centred(t, extent, size, reference, depth)
        },
        Err(e) => dimension_error(extent, size) == Some(e),
    }
}

/// Rejects a zero count or size, and an extent too large to address.
pub fn check_dimensions(extent: GridExtent, size: CellSize) -> (r: Result<(), GridError>)
    ensures
        match dimension_error(extent, size) {
            Some(e) => r == Err::<(), GridError>(e),
            None => r == Ok::<(), GridError>(()),
        },
{
    if extent.columns == 0 {
        return Err(GridError::InvalidDimension(Dimension::Columns));
    }
    if extent.rows == 0 {
        return Err(GridError::InvalidDimension(Dimension::Rows));
    }
    if size.width == 0 {
        return Err(GridError::InvalidDimension(Dimension::CellWidth));
    }
    if size.height == 0 {
        return Err(GridError::InvalidDimension(Dimension::CellHeight));
    }
    proof {
        lemma_product_of_u32s(extent.columns as nat, extent.rows as nat);
    }
    let total: u64 = (extent.columns as u64) * (extent.rows as u64);
    if total > usize::MAX as u64 {
        return Err(GridError::TooLarge);
    }
    Ok(())
}

proof fn lemma_product_of_u32s(a: nat, b: nat)
    requires
        a <= u32::MAX,
        b <= u32::MAX,
    ensures
        a * b <= u64::MAX,
{
    assert(a * b <= u32::MAX as nat * u32::MAX as nat) by (nonlinear_arith)
        requires
            a <= u32::MAX,
            b <= u32::MAX,
    ;
}

/// Translation that centres the grid of `extent` cells of `size` on
/// `reference`, at stacking depth `depth`.
pub fn placement_transform(
    extent: GridExtent,
    size: CellSize,
    reference: ReferencePoint,
    depth: i64,
) -> (t: PlacementTransform)
    ensures
        is_centred(t, extent, size, reference, depth),
{
    proof {
        lemma_product_of_u32s(extent.columns as nat, size.width as nat);
        lemma_product_of_u32s(extent.rows as nat, size.height as nat);
    }
    let span_x: u64 = (extent.columns as u64) * (size.width as u64);
    let span_y: u64 = (extent.rows as u64) * (size.height as u64);
    let half_x: i128 = 2 * (reference.x as i128) - (span_x as i128);
    let half_y: i128 = 2 * (reference.y as i128) - (span_y as i128);
    PlacementTransform { half_x, half_y, z: depth }
}

/// Lays out a grid: one fresh identity for every coordinate of `extent`,
/// recorded in a dense storage, and the transform that centres the grid on
/// `reference` at depth `depth`. Nothing is allocated when the inputs are
/// rejected.
pub fn generate(
    extent: GridExtent,
    cell_size: CellSize,
    reference: ReferencePoint,
    depth: i64,
) -> (r: Result<(GridStorage, PlacementTransform), GridError>)
    ensures
        generation_outcome(extent, cell_size, reference, depth, r),
{
    match check_dimensions(extent, cell_size) {
        Err(e) => Err(e),
        Ok(()) => {
            let storage = GridStorage::populate(extent);
            let transform = placement_transform(extent, cell_size, reference, depth);
            Ok((storage, transform))
        },
    }
}

/// Completeness: a generated storage holds exactly `columns * rows` entries,
/// every coordinate of the extent has an identity, and each entry belongs to
/// exactly one coordinate.
pub proof fn lemma_generated_storage_complete(
    extent: GridExtent,
    size: CellSize,
    reference: ReferencePoint,
    depth: i64,
    storage: GridStorage,
    t: PlacementTransform,
)
    requires
        generation_outcome(extent, size, reference, depth, Ok((storage, t))),
    ensures
        storage@.cells.len() == extent.columns as nat * extent.rows as nat,
        storage@.coordinates() == coordinate_set(extent.columns as nat, extent.rows as nat),
        forall|c: nat, r: nat|
            #[trigger] storage@.coordinates().contains((c, r)) ==> storage@.identity_at(
                c,
                r,
            ).is_some(),
        forall|k: int|
            0 <= k < storage@.cells.len() ==> storage@.coordinates().contains(
                #[trigger] coordinate_of(storage@.columns, k as nat),
            ) && storage@.identity_at(
                coordinate_of(storage@.columns, k as nat).0,
                coordinate_of(storage@.columns, k as nat).1,
            ) == Some(storage@.cells[k]),
{
    lemma_cell_index_bijective(storage@.columns, storage@.rows);
}

/// Uniqueness: two different coordinates of a generated storage never hold
/// the same identity.
pub proof fn lemma_generated_identities_unique(
    extent: GridExtent,
    size: CellSize,
    reference: ReferencePoint,
    depth: i64,
    storage: GridStorage,
    t: PlacementTransform,
)
    requires
        generation_outcome(extent, size, reference, depth, Ok((storage, t))),
    ensures
        forall|c1: nat, r1: nat, c2: nat, r2: nat|
            storage@.contains(c1, r1) && storage@.contains(c2, r2) && (c1, r1) != (c2, r2)
                ==> #[trigger] storage@.identity_at(c1, r1) != #[trigger] storage@.identity_at(
                c2,
                r2,
            ),
{
    lemma_cell_index_bijective(storage@.columns, storage@.rows);
    assert forall|c1: nat, r1: nat, c2: nat, r2: nat|
        storage@.contains(c1, r1) && storage@.contains(c2, r2) && (c1, r1) != (c2, r2)
            implies #[trigger] storage@.identity_at(c1, r1) != #[trigger] storage@.identity_at(
            c2,
            r2,
        ) by {
        let i = cell_index(storage@.columns, c1, r1) as int;
        let j = cell_index(storage@.columns, c2, r2) as int;
        assert(i != j);
        assert(storage@.cells[i] != storage@.cells[j]);
    }
}

/// Determinism: two generations from the same inputs agree on whether they
/// succeed, on the error, and on the transform, to the last bit.
pub proof fn lemma_generation_deterministic(
    extent: GridExtent,
    size: CellSize,
    reference: ReferencePoint,
    depth: i64,
    first: Result<(GridStorage, PlacementTransform), GridError>,
    second: Result<(GridStorage, PlacementTransform), GridError>,
)
    requires
        generation_outcome(extent, size, reference, depth, first),
        generation_outcome(extent, size, reference, depth, second),
    ensures
        first is Ok <==> second is Ok,
        first is Err ==> first == second,
        first is Ok ==> first->Ok_0.1 == second->Ok_0.1,
{
}

/// Re-derivation: generating again from the same inputs covers the same set
/// of coordinates, whatever identities the new storage holds.
pub proof fn lemma_regeneration_same_coordinates(
    extent: GridExtent,
    size: CellSize,
    reference: ReferencePoint,
    depth: i64,
    first: Result<(GridStorage, PlacementTransform), GridError>,
    second: Result<(GridStorage, PlacementTransform), GridError>,
)
    requires
        generation_outcome(extent, size, reference, depth, first),
        generation_outcome(extent, size, reference, depth, second),
        first is Ok,
    ensures
        second is Ok,
        first->Ok_0.0@.coordinates() == second->Ok_0.0@.coordinates(),
        first->Ok_0.0@.cells.len() == second->Ok_0.0@.cells.len(),
{
}

} // verus!
