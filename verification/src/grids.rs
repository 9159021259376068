//! Triangles of a regular grid, two to a cell.
use vstd::prelude::*;

verus! {

/// A point of a grid.
#[derive(Debug, Clone, Copy, PartialEq, Eq, Structural)]
pub struct GridPoint {
    pub outer: usize,
    pub inner: usize,
}

/// A triangle between points of a grid.
#[derive(Debug, Clone, Copy, PartialEq, Eq, Structural)]
pub struct GridTriangle {
    pub a: GridPoint,
    pub b: GridPoint,
    pub c: GridPoint,
}

/// A point of a grid.
pub open spec fn point(outer: int, inner: int) -> GridPoint {
    GridPoint { outer: outer as usize, inner: inner as usize }
}

/// The two triangles of a cell; they share the diagonal.
pub open spec fn cell_triangle(outer: int, inner: int, second: bool) -> GridTriangle {
    if second {
        GridTriangle {
            a: point(outer, inner + 1),
            b: point(outer + 1, inner),
            c: point(outer + 1, inner + 1),
        }
    } else {
        GridTriangle {
            a: point(outer, inner),
            b: point(outer + 1, inner),
            c: point(outer, inner + 1),
        }
    }
}

/// The triangles of a row of cells.
pub open spec fn row_triangles(outer: int, n: nat) -> Seq<GridTriangle>
    decreases n,
{
    if n == 0 {
        Seq::empty()
    } else {
        row_triangles(outer, (n - 1) as nat).push(cell_triangle(outer, n - 1, false)).push(
            cell_triangle(outer, n - 1, true),
        )
    }
}

/// The triangles of the first `n` rows of cells.
pub open spec fn triangles(n: nat, inner_cells: nat) -> Seq<GridTriangle>
    decreases n,
{
    if n == 0 {
        Seq::empty()
    } else {
        triangles((n - 1) as nat, inner_cells) + row_triangles(n - 1, inner_cells)
    }
}

/// The triangles of a grid, row by row and cell by cell.
pub fn grid_triangles(outer_cells: usize, inner_cells: usize) -> (r: Vec<GridTriangle>)
    requires
        outer_cells < usize::MAX,
        inner_cells < usize::MAX,
    ensures
        r@ == triangles(outer_cells as nat, inner_cells as nat),
{
    let mut r: Vec<GridTriangle> = Vec::new();
    let mut outer: usize = 0;
    while outer < outer_cells
        invariant
            outer <= outer_cells < usize::MAX,
            inner_cells < usize::MAX,
            r@ == triangles(outer as nat, inner_cells as nat),
        decreases outer_cells - outer,
    {
        let ghost before = r@;
        let mut inner: usize = 0;
        proof {
            assert(before + row_triangles(outer as int, 0) =~= before);
        }
        while inner < inner_cells
            invariant
                outer < outer_cells < usize::MAX,
                inner <= inner_cells < usize::MAX,
                r@ == before + row_triangles(outer as int, inner as nat),
            decreases inner_cells - inner,
        {
            r.push(
                GridTriangle {
                    a: GridPoint { outer, inner },
                    b: GridPoint { outer: outer + 1, inner },
                    c: GridPoint { outer, inner: inner + 1 },
                },
            );
            r.push(
                GridTriangle {
                    a: GridPoint { outer, inner: inner + 1 },
                    b: GridPoint { outer: outer + 1, inner },
                    c: GridPoint { outer: outer + 1, inner: inner + 1 },
                },
            );
            inner += 1;
            proof {
                assert(r@ =~= before + row_triangles(outer as int, inner as nat));
            }
        }
        outer += 1;
    }
    r
}

proof fn lemma_row_length(outer: int, n: nat)
    ensures
        row_triangles(outer, n).len() == 2 * n,
    decreases n,
{
    if n > 0 {
        lemma_row_length(outer, (n - 1) as nat);
    }
}

/// A grid has two triangles for each cell.
pub proof fn law_two_triangles_to_a_cell(outer_cells: nat, inner_cells: nat)
    ensures
        triangles(outer_cells, inner_cells).len() == 2 * (outer_cells * inner_cells),
    decreases outer_cells,
{
    if outer_cells > 0 {
        law_two_triangles_to_a_cell((outer_cells - 1) as nat, inner_cells);
        lemma_row_length(outer_cells - 1, inner_cells);
        assert(outer_cells * inner_cells == (outer_cells - 1) * inner_cells + inner_cells)
            by (nonlinear_arith);
    } else {
        assert(0 * inner_cells == 0) by (nonlinear_arith);
    }
}

proof fn lemma_row_lies_inside(outer: int, n: nat, i: int)
    requires
        0 <= outer < usize::MAX,
        n < usize::MAX,
        0 <= i < row_triangles(outer, n).len(),
    ensures
        lies_inside(row_triangles(outer, n)[i], outer + 1, n as int),
    decreases n,
{
    if n > 0 && i < row_triangles(outer, (n - 1) as nat).len() {
        lemma_row_lies_inside(outer, (n - 1) as nat, i);
    }
}

/// The corners of a triangle are points of a grid with this many cells.
pub open spec fn lies_inside(triangle: GridTriangle, outer: int, inner: int) -> bool {
    &&& triangle.a.outer <= outer && triangle.a.inner <= inner
    &&& triangle.b.outer <= outer && triangle.b.inner <= inner
    &&& triangle.c.outer <= outer && triangle.c.inner <= inner
}

pub(crate) proof fn lemma_triangles_lie_inside(outer: nat, inner: nat, i: int)
    requires
        outer < usize::MAX,
        inner < usize::MAX,
        0 <= i < triangles(outer, inner).len(),
    ensures
        lies_inside(triangles(outer, inner)[i], outer as int, inner as int),
    decreases outer,
{
    if outer > 0 {
        let before = triangles((outer - 1) as nat, inner);
        if i < before.len() {
            lemma_triangles_lie_inside((outer - 1) as nat, inner, i);
        } else {
            lemma_row_lies_inside(outer - 1, inner, i - before.len());
        }
    }
}

proof fn lemma_row_at(outer: int, n: nat, inner: int)
    requires
        0 <= inner < n,
    ensures
        row_triangles(outer, n).len() == 2 * n,
        row_triangles(outer, n)[2 * inner] == cell_triangle(outer, inner, false),
        row_triangles(outer, n)[2 * inner + 1] == cell_triangle(outer, inner, true),
    decreases n,
{
    if n == 1 {
        assert(row_triangles(outer, 0).len() == 0);
    } else if inner < n - 1 {
        lemma_row_at(outer, (n - 1) as nat, inner);
    } else {
        lemma_row_at(outer, (n - 1) as nat, 0);
    }
}

/// A cell is cut along one diagonal: one triangle takes its first corner and the two beside it,
/// the other the far corner and the same two; cells come row by row.
pub proof fn law_cells_are_cut_in_two(outer_cells: nat, inner_cells: nat, outer: int, inner: int)
    requires
        0 <= outer < outer_cells < usize::MAX,
        0 <= inner < inner_cells < usize::MAX,
    ensures
        ({
            let cells = triangles(outer_cells, inner_cells);
            let at = 2 * (outer * inner_cells + inner);
            &&& 0 <= at
            &&& at + 1 < cells.len()
            &&& cells[at].a.outer == outer && cells[at].a.inner == inner
            &&& cells[at].b.outer == outer + 1 && cells[at].b.inner == inner
            &&& cells[at].c.outer == outer && cells[at].c.inner == inner + 1
            &&& cells[at + 1].a.outer == outer && cells[at + 1].a.inner == inner + 1
            &&& cells[at + 1].b.outer == outer + 1 && cells[at + 1].b.inner == inner
            &&& cells[at + 1].c.outer == outer + 1 && cells[at + 1].c.inner == inner + 1
        }),
    decreases outer_cells,
{
    let before = triangles((outer_cells - 1) as nat, inner_cells);
    let row = row_triangles(outer_cells - 1, inner_cells);
    law_two_triangles_to_a_cell((outer_cells - 1) as nat, inner_cells);
    lemma_row_at(outer_cells - 1, inner_cells, inner);
    assert(0 <= outer * inner_cells) by (nonlinear_arith)
        requires
            0 <= outer,
    ;
    let at = 2 * (outer * inner_cells + inner);
    if outer < outer_cells - 1 {
        law_cells_are_cut_in_two((outer_cells - 1) as nat, inner_cells, outer, inner);
        assert(triangles(outer_cells, inner_cells)[at] == before[at]);
        assert(triangles(outer_cells, inner_cells)[at + 1] == before[at + 1]);
    } else {
        assert(before.len() + 2 * inner == at);
        assert(triangles(outer_cells, inner_cells)[at] == row[2 * inner]);
        assert(triangles(outer_cells, inner_cells)[at + 1] == row[2 * inner + 1]);
    }
}

} // verus!
