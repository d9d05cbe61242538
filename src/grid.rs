use vstd::prelude::*;
use vstd::arithmetic::div_mod::lemma_fundamental_div_mod_converse;

verus! {

/// Number of cells along each axis of a grid.
#[derive(PartialEq, Eq, Structural, Clone, Copy, Debug)]
pub struct GridExtent {
    pub columns: u32,
    pub rows: u32,
}

/// Integer (column, row) address of one cell.
#[derive(PartialEq, Eq, Structural, Clone, Copy, Debug, Hash)]
pub struct CellCoordinate {
    pub column: u32,
    pub row: u32,
}

/// Handle created for one cell when a grid is generated: a position in the
/// grid's arena of identities.
#[derive(PartialEq, Eq, Structural, Clone, Copy, Debug, Hash)]
pub struct CellIdentity {
    pub slot: usize,
}

/// Position of cell `(column, row)` in a row-major dense layout.
pub open spec fn cell_index(columns: nat, column: nat, row: nat) -> nat {
    row * columns + column
}

/// The cell that a row-major dense position stands for.
pub open spec fn coordinate_of(columns: nat, index: nat) -> (nat, nat) {
    ((index % columns) as nat, (index / columns) as nat)
}

/// Every coordinate of a `columns` by `rows` grid.
pub open spec fn coordinate_set(columns: nat, rows: nat) -> Set<(nat, nat)> {
    Set::new(|p: (nat, nat)| p.0 < columns && p.1 < rows)
}

/// The row-major layout is a bijection between the coordinates of the grid
/// and the dense positions `0 .. columns * rows`: each coordinate lands inside
/// the storage, each position stands for exactly one coordinate, and no two
/// coordinates share a position.
pub proof fn lemma_cell_index_bijective(columns: nat, rows: nat)
    ensures
        forall|c: nat, r: nat|
            c < columns && r < rows ==> #[trigger] cell_index(columns, c, r) < columns * rows
                && coordinate_of(columns, cell_index(columns, c, r)) == (c, r),
        forall|k: nat|
            k < columns * rows ==> coordinate_set(columns, rows).contains(
                #[trigger] coordinate_of(columns, k),
            ) && cell_index(columns, coordinate_of(columns, k).0, coordinate_of(columns, k).1)
                == k,
        forall|c1: nat, r1: nat, c2: nat, r2: nat|
            c1 < columns && r1 < rows && c2 < columns && r2 < rows && #[trigger] cell_index(
                columns,
                c1,
                r1,
            ) == #[trigger] cell_index(columns, c2, r2) ==> c1 == c2 && r1 == r2,
{
    assert forall|c: nat, r: nat|
        c < columns && r < rows implies #[trigger] cell_index(columns, c, r) < columns * rows
            && coordinate_of(columns, cell_index(columns, c, r)) == (c, r) by {
        lemma_cell_index_in_range(columns, rows, c, r);
        lemma_fundamental_div_mod_converse(
            cell_index(columns, c, r) as int,
            columns as int,
            r as int,
            c as int,
        );
    }
    assert forall|k: nat| k < columns * rows implies coordinate_set(columns, rows).contains(
        #[trigger] coordinate_of(columns, k),
    ) && cell_index(columns, coordinate_of(columns, k).0, coordinate_of(columns, k).1) == k by {
        lemma_position_decomposes(columns, rows, k);
    }
    assert forall|c1: nat, r1: nat, c2: nat, r2: nat|
        c1 < columns && r1 < rows && c2 < columns && r2 < rows && #[trigger] cell_index(
            columns,
            c1,
            r1,
        ) == #[trigger] cell_index(columns, c2, r2) implies c1 == c2 && r1 == r2 by {
        lemma_fundamental_div_mod_converse(
            cell_index(columns, c1, r1) as int,
            columns as int,
            r1 as int,
            c1 as int,
        );
        lemma_fundamental_div_mod_converse(
            cell_index(columns, c2, r2) as int,
            columns as int,
            r2 as int,
            c2 as int,
        );
    }
}

proof fn lemma_cell_index_in_range(columns: nat, rows: nat, c: nat, r: nat)
    requires
        c < columns,
        r < rows,
    ensures
        cell_index(columns, c, r) < columns * rows,
{
    assert(r * columns + c < columns * rows) by (nonlinear_arith)
        requires
            c < columns,
            r < rows,
    ;
}

proof fn lemma_position_decomposes(columns: nat, rows: nat, k: nat)
    requires
        k < columns * rows,
    ensures
        coordinate_of(columns, k).0 < columns,
        coordinate_of(columns, k).1 < rows,
        cell_index(columns, coordinate_of(columns, k).0, coordinate_of(columns, k).1) == k,
{
    assert(columns > 0) by (nonlinear_arith)
        requires
            k < columns * rows,
    ;
    let q = k as int / columns as int;
    let m = k as int % columns as int;
    assert(k == columns * q + m && 0 <= m < columns) by {
        vstd::arithmetic::div_mod::lemma_fundamental_div_mod(k as int, columns as int);
        vstd::arithmetic::div_mod::lemma_mod_bound(k as int, columns as int);
    }
    assert(0 <= q < rows) by (nonlinear_arith)
        requires
            k == columns * q + m,
            0 <= m < columns,
            k < columns * rows,
            columns > 0,
    ;
    assert(q * columns + m == k) by (nonlinear_arith)
        requires
            k == columns * q + m,
    ;
}

/// Mathematical picture of a grid storage: its extent and, in row-major
/// order, the identity recorded at each coordinate.
pub ghost struct GridModel {
    pub columns: nat,
    pub rows: nat,
    pub cells: Seq<CellIdentity>,
}

impl GridModel {
    /// Exactly one entry for each coordinate of the extent.
    pub open spec fn wf(self) -> bool {
        self.cells.len() == self.columns * self.rows
    }

    pub open spec fn contains(self, column: nat, row: nat) -> bool {
        column < self.columns && row < self.rows
    }

    /// The identity recorded at `(column, row)`, if that coordinate is part of
    /// the grid.
    pub open spec fn identity_at(self, column: nat, row: nat) -> Option<CellIdentity> {
        if self.contains(column, row) {
            Some(self.cells[cell_index(self.columns, column, row) as int])
        } else {
            None
        }
    }

    /// The coordinates that the storage covers.
    pub open spec fn coordinates(self) -> Set<(nat, nat)> {
        coordinate_set(self.columns, self.rows)
    }

    /// No identity is recorded at two coordinates.
    pub open spec fn identities_distinct(self) -> bool {
        forall|i: int, j: int|
            0 <= i < self.cells.len() && 0 <= j < self.cells.len() && i != j ==> #[trigger] self.cells[i]
                != #[trigger] self.cells[j]
    }

    /// Each coordinate holds a fresh identity: the one allocated for its own
    /// dense position.
    pub open spec fn freshly_allocated(self) -> bool {
        forall|i: int| 0 <= i < self.cells.len() ==> (#[trigger] self.cells[i]).slot == i
    }
}

/// Dense mapping from every coordinate of an extent to a cell identity.
/// The set of coordinates is fixed when the storage is built; the identity at
/// a coordinate may be replaced.
pub struct GridStorage {
    columns: u32,
    rows: u32,
    cells: Vec<CellIdentity>,
}

impl View for GridStorage {
    type V = GridModel;

    closed spec fn view(&self) -> GridModel {
        GridModel { columns: self.columns as nat, rows: self.rows as nat, cells: self.cells@ }
    }
}

impl GridStorage {
    /// The storage always covers its extent exactly.
    pub open spec fn wf(&self) -> bool {
        self@.wf() && self@.columns * self@.rows <= usize::MAX
    }

    /// Builds the storage of `extent`, allocating one fresh identity per
    /// coordinate.
    pub fn populate(extent: GridExtent) -> (r: GridStorage)
        requires
            extent.columns as nat * extent.rows as nat <= usize::MAX,
        ensures
            r.wf(),
            r@.columns == extent.columns,
            r@.rows == extent.rows,
            r@.freshly_allocated(),
            r@.identities_distinct(),
    {
        let columns = extent.columns;
        let rows = extent.rows;
        let total: usize = (columns as usize) * (rows as usize);
        let mut cells: Vec<CellIdentity> = Vec::with_capacity(total);
        let mut row: u32 = 0;
        while row < rows
            invariant
                row <= rows,
                columns as nat * rows as nat <= usize::MAX,
                cells.len() == row as nat * columns as nat,
                forall|i: int| 0 <= i < cells.len() ==> (#[trigger] cells@[i]).slot == i,
            decreases rows - row,
        {
            let mut column: u32 = 0;
            while column < columns
                invariant
                    row < rows,
                    column <= columns,
                    columns as nat * rows as nat <= usize::MAX,
                    cells.len() == row as nat * columns as nat + column,
                    forall|i: int| 0 <= i < cells.len() ==> (#[trigger] cells@[i]).slot == i,
                decreases columns - column,
            {
                proof {
                    assert(row as nat * columns as nat + column < columns as nat * rows as nat)
                        by (nonlinear_arith)
                        requires
                            row < rows,
                            column < columns,
                    ;
                }
                let slot = cells.len();
                cells.push(CellIdentity { slot });
                column = column + 1;
            }
            proof {
                assert(row as nat * columns as nat + columns as nat == (row as nat + 1)
                    * columns as nat) by (nonlinear_arith);
            }
            row = row + 1;
        }
        proof {
            assert(rows as nat * columns as nat == columns as nat * rows as nat)
                by (nonlinear_arith);
        }
        let r = GridStorage { columns, rows, cells };
        assert(r@.identities_distinct());
        r
    }

    pub fn columns(&self) -> (r: u32)
        ensures
            r == self@.columns,
    {
        self.columns
    }

    pub fn rows(&self) -> (r: u32)
        ensures
            r == self@.rows,
    {
        self.rows
    }

    /// Number of entries: one per coordinate.
    pub fn len(&self) -> (r: usize)
        requires
            self.wf(),
        ensures
            r == self@.columns * self@.rows,
    {
        self.cells.len()
    }

    fn index_of(&self, coordinate: CellCoordinate) -> (r: usize)
        requires
            self.wf(),
            self@.contains(coordinate.column as nat, coordinate.row as nat),
        ensures
            r == cell_index(self@.columns, coordinate.column as nat, coordinate.row as nat),
            r < self@.cells.len(),
    {
        proof {
            lemma_cell_index_in_range(
                self.columns as nat,
                self.rows as nat,
                coordinate.column as nat,
                coordinate.row as nat,
            );
        }
        (coordinate.row as usize) * (self.columns as usize) + (coordinate.column as usize)
    }

    /// The identity recorded at `coordinate`; `None` outside the extent.
    pub fn get(&self, coordinate: CellCoordinate) -> (r: Option<CellIdentity>)
        requires
            self.wf(),
        ensures
            r == self@.identity_at(coordinate.column as nat, coordinate.row as nat),
    {
        if coordinate.column < self.columns && coordinate.row < self.rows {
            let i = self.index_of(coordinate);
            Some(self.cells[i])
        } else {
            None
        }
    }

    /// Records `identity` at `coordinate`. Returns `false`, and changes
    /// nothing, when the coordinate lies outside the extent.
    pub fn set(&mut self, coordinate: CellCoordinate, identity: CellIdentity) -> (r: bool)
        requires
            old(self).wf(),
        ensures
            final(self).wf(),
            r == old(self)@.contains(coordinate.column as nat, coordinate.row as nat),
            final(self)@.columns == old(self)@.columns,
            final(self)@.rows == old(self)@.rows,
            r ==> final(self)@.cells == old(self)@.cells.update(
                cell_index(old(self)@.columns, coordinate.column as nat, coordinate.row as nat)
                    as int,
                identity,
            ),
            !r ==> final(self)@ == old(self)@,
    {
        if coordinate.column < self.columns && coordinate.row < self.rows {
            let i = self.index_of(coordinate);
            self.cells.set(i, identity);
            true
        } else {
            false
        }
    }

    /// The coordinate at dense position `index`, for walking the grid one
    /// cell at a time; `None` past the last cell.
    pub fn coordinate_at(&self, index: usize) -> (r: Option<CellCoordinate>)
        requires
            self.wf(),
        ensures
            index < self@.cells.len() ==> r.is_some() && (r.unwrap().column as nat, r.unwrap().row as nat)
                == coordinate_of(self@.columns, index as nat),
            index < self@.cells.len() ==> self@.coordinates().contains(
                (r.unwrap().column as nat, r.unwrap().row as nat),
            ),
            index >= self@.cells.len() ==> r.is_none(),
    {
        if index < self.cells.len() {
            proof {
                lemma_position_decomposes(self.columns as nat, self.rows as nat, index as nat);
            }
            let columns = self.columns as usize;
            let column = index % columns;
            let row = index / columns;
            Some(CellCoordinate { column: column as u32, row: row as u32 })
        } else {
            None
        }
    }

    /// Every coordinate of the storage, each once, in row-major order.
    pub fn coordinates(&self) -> (r: Vec<CellCoordinate>)
        requires
            self.wf(),
        ensures
            r.len() == self@.cells.len(),
            forall|k: int|
                0 <= k < r.len() ==> (#[trigger] r@[k].column as nat, r@[k].row as nat)
                    == coordinate_of(self@.columns, k as nat),
    {
        let total = self.cells.len();
        let mut out: Vec<CellCoordinate> = Vec::with_capacity(total);
        let mut k: usize = 0;
        while k < total
            invariant
                self.wf(),
                total == self@.cells.len(),
                k <= total,
                out.len() == k,
                forall|j: int|
                    0 <= j < k ==> (#[trigger] out@[j].column as nat, out@[j].row as nat)
                        == coordinate_of(self@.columns, j as nat),
            decreases total - k,
        {
            let c = self.coordinate_at(k);
            out.push(c.unwrap());
            k = k + 1;
        }
        out
    }
}

} // verus!
