use vstd::arithmetic::div_mod::{lemma_fundamental_div_mod, lemma_fundamental_div_mod_converse};
use crate::map::layout::{determine_tile, tile_layout, TileKind};
use vstd::prelude::*;

verus! {

/// Map coordinates of the `k`-th cell of a square map that spans
/// `-grid_size .. grid_size` on both axes, walked row by row.
pub open spec fn grid_cell(grid_size: int, k: int) -> (int, int) {
    (k / (2 * grid_size) - grid_size, k % (2 * grid_size) - grid_size)
}

/// Lists the map coordinates of every cell, `x` outer and `z` inner, each
/// from `-grid_size` up to `grid_size - 1`, as the map generator places them.
pub fn grid_coordinates(grid_size: usize) -> (cells: Vec<(i32, i32)>)
    requires
        2 * grid_size <= i32::MAX,
        4 * grid_size * grid_size <= usize::MAX,
    ensures
        cells@.len() == 4 * grid_size * grid_size,
        forall|k: int| 0 <= k < cells@.len() ==>
            (#[trigger] cells@[k]).0 == grid_cell(grid_size as int, k).0
            && cells@[k].1 == grid_cell(grid_size as int, k).1,
{
    let side: usize = grid_size * 2;
    let g: i32 = grid_size as i32;
    let mut cells: Vec<(i32, i32)> = Vec::new();
    let mut x: usize = 0;
    assert(side * side == 4 * grid_size * grid_size) by (nonlinear_arith)
        requires side == grid_size * 2;
    while x < side
        invariant
            side == 2 * grid_size,
            g == grid_size,
            side <= i32::MAX,
            side * side <= usize::MAX,
            x <= side,
            cells@.len() == x * side,
            forall|k: int| 0 <= k < cells@.len() ==>
                (#[trigger] cells@[k]).0 == grid_cell(grid_size as int, k).0
                && cells@[k].1 == grid_cell(grid_size as int, k).1,
        decreases side - x,
    {
        let mut z: usize = 0;
        assert(x * side + side <= side * side) by (nonlinear_arith)
            requires x < side;
        while z < side
            invariant
                side == 2 * grid_size,
                g == grid_size,
                side <= i32::MAX,
                x < side,
                z <= side,
                x * side + side <= side * side,
                side * side <= usize::MAX,
                cells@.len() == x * side + z,
                forall|k: int| 0 <= k < cells@.len() ==>
                    (#[trigger] cells@[k]).0 == grid_cell(grid_size as int, k).0
                    && cells@[k].1 == grid_cell(grid_size as int, k).1,
            decreases side - z,
        {
            let tx: i32 = x as i32 - g;
            let tz: i32 = z as i32 - g;
            proof {
                lemma_fundamental_div_mod_converse((x * side + z) as int, side as int, x as int, z as int);
            }
            cells.push((tx, tz));
            z = z + 1;
        }
        assert(cells@.len() == (x + 1) * side) by (nonlinear_arith)
            requires cells@.len() == x * side + side;
        x = x + 1;
    }
    cells
}

/// Every cell of the map appears exactly once among the first
/// `4 * grid_size * grid_size` positions of the walk.
pub proof fn lemma_grid_cells_unique(grid_size: int, tx: int, tz: int)
    requires
        grid_size > 0,
        -grid_size <= tx < grid_size,
        -grid_size <= tz < grid_size,
    ensures
        ({
            let k = (tx + grid_size) * (2 * grid_size) + (tz + grid_size);
            &&& 0 <= k < 4 * grid_size * grid_size
            &&& grid_cell(grid_size, k) == (tx, tz)
            &&& forall|k2: int| 0 <= k2 < 4 * grid_size * grid_size && grid_cell(grid_size, k2) == (tx, tz)
                ==> k2 == k
        }),
{
    let side = 2 * grid_size;
    let k = (tx + grid_size) * side + (tz + grid_size);
    lemma_fundamental_div_mod_converse(k, side, tx + grid_size, tz + grid_size);
    assert(0 <= k < 4 * grid_size * grid_size) by (nonlinear_arith)
        requires
            k == (tx + grid_size) * side + (tz + grid_size),
            side == 2 * grid_size,
            0 <= tx + grid_size < side,
            0 <= tz + grid_size < side,
    ;
    assert forall|k2: int| 0 <= k2 < 4 * grid_size * grid_size && grid_cell(grid_size, k2) == (tx, tz)
        implies k2 == k by {
        lemma_fundamental_div_mod(k2, side);
        assert(k2 == side * (tx + grid_size) + (tz + grid_size));
        assert(side * (tx + grid_size) == (tx + grid_size) * side) by (nonlinear_arith);
    }
}

/// Where a tile goes and which room it shows.
#[derive(Clone, Copy, Debug, PartialEq, Eq, Structural)]
pub struct TilePlan {
    pub x: i32,
    pub z: i32,
    pub kind: TileKind,
    /// Clockwise rotation in degrees.
    pub rotation: u32,
}

/// Room layout of a generated cell: cells left out by the generator are empty.
pub open spec fn cell_layout(cell: Option<[bool; 4]>) -> (TileKind, int) {
    match cell {
        Some(e) => tile_layout(e@),
        None => (TileKind::Empty, 0),
    }
}

/// Lays out the map from the generator's grid of cells, indexed `[x][z]` from
/// `0` to `2 * grid_size`: one tile per cell, walked as `grid_coordinates`
/// walks them, with the room that fits the cell's entrances.
pub fn plan_map(grid_size: usize, generated: &Vec<Vec<Option<[bool; 4]>>>) -> (plans: Vec<TilePlan>)
    requires
        2 * grid_size <= i32::MAX,
        4 * grid_size * grid_size <= usize::MAX,
        generated@.len() >= 2 * grid_size,
        forall|x: int| 0 <= x < 2 * grid_size ==> (#[trigger] generated@[x])@.len() >= 2 * grid_size,
    ensures
        plans@.len() == 4 * grid_size * grid_size,
        forall|k: int| 0 <= k < plans@.len() ==> {
            let x = k / (2 * grid_size as int);
            let z = k % (2 * grid_size as int);
            &&& (#[trigger] plans@[k]).x == grid_cell(grid_size as int, k).0
            &&& plans@[k].z == grid_cell(grid_size as int, k).1
            &&& plans@[k].kind == cell_layout(generated@[x]@[z]).0
            &&& plans@[k].rotation == 90 * cell_layout(generated@[x]@[z]).1
        },
{
    let cells = grid_coordinates(grid_size);
    let side: usize = grid_size * 2;
    let mut plans: Vec<TilePlan> = Vec::new();
    let mut k: usize = 0;
    while k < cells.len()
        invariant
            side == 2 * grid_size,
            cells@.len() == 4 * grid_size * grid_size,
            forall|j: int| 0 <= j < cells@.len() ==>
                (#[trigger] cells@[j]).0 == grid_cell(grid_size as int, j).0
                && cells@[j].1 == grid_cell(grid_size as int, j).1,
            generated@.len() >= 2 * grid_size,
            forall|x: int| 0 <= x < 2 * grid_size ==> (#[trigger] generated@[x])@.len() >= 2 * grid_size,
            k <= cells@.len(),
            plans@.len() == k,
            forall|j: int| 0 <= j < k ==> {
                let x = j / (2 * grid_size as int);
                let z = j % (2 * grid_size as int);
                &&& (#[trigger] plans@[j]).x == grid_cell(grid_size as int, j).0
                &&& plans@[j].z == grid_cell(grid_size as int, j).1
                &&& plans@[j].kind == cell_layout(generated@[x]@[z]).0
                &&& plans@[j].rotation == 90 * cell_layout(generated@[x]@[z]).1
            },
        decreases cells@.len() - k,
    {
        assert(grid_size > 0) by (nonlinear_arith)
            requires k < 4 * grid_size * grid_size;
        let x: usize = k / side;
        let z: usize = k % side;
        assert(x < side) by (nonlinear_arith)
            requires x == k / side, k < 4 * grid_size * grid_size, side == 2 * grid_size, side > 0;
        let (kind, rotation) = match generated[x][z] {
            Some(e) => determine_tile(&e),
            None => (TileKind::Empty, 0u32),
        };
        plans.push(TilePlan { x: cells[k].0, z: cells[k].1, kind, rotation });
        k = k + 1;
    }
    plans
}

} // verus!
