use vstd::prelude::*;

use crate::direction::Direction;

verus! {

/// What a grid of tags looks like to a contract: rows of tags, each tag a
/// sequence of characters.
pub type GridView = Seq<Seq<Seq<char>>>;

/// The navigation grid: a matrix of pane tags that fixes which pane lies
/// next to which. Row 0 is the header row; rows may differ in length.
pub struct NavGrid {
    pub rows: Vec<Vec<String>>,
}

pub open spec fn rows_view(rows: Seq<Vec<String>>) -> GridView {
    rows.map_values(|r: Vec<String>| r@.map_values(|t: String| t@))
}

impl View for NavGrid {
    type V = GridView;

    open spec fn view(&self) -> GridView {
        rows_view(self.rows@)
    }
}

/// The grid's dimensions fit in machine words, as those of any grid built
/// from vectors do.
pub open spec fn bounded(g: GridView) -> bool {
    &&& g.len() <= usize::MAX
    &&& forall|y: int| 0 <= y < g.len() ==> #[trigger] g[y].len() <= usize::MAX
}

/// `c` (column, row) indexes a cell of `g`.
pub open spec fn valid_coo(g: GridView, c: (usize, usize)) -> bool {
    &&& c.1 < g.len()
    &&& c.0 < g[c.1 as int].len()
}

/// The edge of the grid stops a move in direction `d` from `c`.
pub open spec fn blocked(d: Direction, c: (usize, usize), g: GridView) -> bool {
    match d {
        Direction::Right => c.0 + 1 >= g[c.1 as int].len(),
        Direction::Left => c.0 == 0,
        Direction::Down => c.1 + 1 >= g.len(),
        Direction::Up => c.1 == 0,
    }
}

/// The cell one step from `c` in direction `d`, ignoring the grid's edges.
pub open spec fn neighbour(d: Direction, c: (usize, usize)) -> (int, int) {
    match d {
        Direction::Right => (c.0 + 1, c.1 as int),
        Direction::Left => (c.0 - 1, c.1 as int),
        Direction::Down => (c.0 as int, c.1 + 1),
        Direction::Up => (c.0 as int, c.1 - 1),
    }
}

/// The coordinate a move reaches: the neighbouring cell, or `c` itself where
/// the grid's edge blocks the move.
pub open spec fn step_spec(d: Direction, c: (usize, usize), g: GridView) -> (usize, usize) {
    if blocked(d, c, g) {
        c
    } else {
        (neighbour(d, c).0 as usize, neighbour(d, c).1 as usize)
    }
}

impl NavGrid {
    pub fn new(rows: Vec<Vec<String>>) -> (g: NavGrid)
        ensures
            g@ == rows_view(rows@),
    {
        NavGrid { rows }
    }

    pub fn row_count(&self) -> (n: usize)
        ensures
            n == self@.len(),
    {
        self.rows.len()
    }

    pub fn row_len(&self, y: usize) -> (n: usize)
        requires
            y < self@.len(),
        ensures
            n == self@[y as int].len(),
    {
        self.rows[y].len()
    }

    /// The tag in column `c.0` of row `c.1`.
    pub fn tag_at(&self, c: (usize, usize)) -> (t: &String)
        requires
            valid_coo(self@, c),
        ensures
            t@ == self@[c.1 as int][c.0 as int],
    {
        &self.rows[c.1][c.0]
    }
}

/// Computes the coordinate that a move in direction `d` from `c` reaches,
/// clamped at the grid's edges (no wrap-around).
pub fn step(d: Direction, c: (usize, usize), grid: &NavGrid) -> (r: (usize, usize))
    requires
        valid_coo(grid@, c),
    ensures
        r == step_spec(d, c, grid@),
{
    let (x, y) = c;
    match d {
        Direction::Right => if x < grid.row_len(y) - 1 {
            (x + 1, y)
        } else {
            c
        },
        Direction::Left => if x > 0 {
            (x - 1, y)
        } else {
            c
        },
        Direction::Down => if y < grid.row_count() - 1 {
            (x, y + 1)
        } else {
            c
        },
        Direction::Up => if y > 0 {
            (x, y - 1)
        } else {
            c
        },
    }
}

/// A move that the grid's edge blocks leaves the coordinate unchanged.
pub proof fn lemma_step_clamps_at_edge(d: Direction, c: (usize, usize), g: GridView)
    requires
        bounded(g),
        valid_coo(g, c),
        blocked(d, c, g),
    ensures
        step_spec(d, c, g) == c,
{
}

/// Away from the edge a move goes exactly one cell in its direction and stays
/// in the grid, and the opposite move brings it back.
pub proof fn lemma_step_interior_inverse(d: Direction, c: (usize, usize), g: GridView)
    requires
        bounded(g),
        valid_coo(g, c),
        !blocked(d, c, g),
    ensures
        step_spec(d, c, g) != c,
        step_spec(d, c, g).0 == neighbour(d, c).0,
        step_spec(d, c, g).1 == neighbour(d, c).1,
        step_spec(d, c, g).1 < g.len(),
        (d == Direction::Right || d == Direction::Left) ==> valid_coo(g, step_spec(d, c, g)),
        !blocked(d.opposite(), step_spec(d, c, g), g),
        step_spec(d.opposite(), step_spec(d, c, g), g) == c,
{
}

} // verus!
