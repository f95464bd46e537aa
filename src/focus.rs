use vstd::prelude::*;

use crate::direction::{direction_of_key, key_direction, Direction};
use crate::grid::{blocked, bounded, step, step_spec, valid_coo, GridView, NavGrid};
use crate::registry::{
    lemma_cleared, lemma_select_shows_only, lemma_selection_sets_own_index, lemma_shows_only_one, lemma_unselect_clears, PaneKind,
    Registry, RegistryView, Selector,
};

verus! {

/// The focus controller as contracts see it.
pub struct AppView {
    pub grid: GridView,
    pub panes: RegistryView,
    /// The focused cell, as (column, row).
    pub current: (usize, usize),
    /// The header cell that focus left when it last went down into the
    /// content rows.
    pub last_header: (usize, usize),
}

impl AppView {
    pub open spec fn tag_at(self, c: (usize, usize)) -> Seq<char> {
        self.grid[c.1 as int][c.0 as int]
    }

    /// The position in the registry of the pane in cell `c`.
    pub open spec fn pane_at(self, c: (usize, usize)) -> int {
        self.panes.index_of(self.tag_at(c))
    }

    /// The grid has a header row and content rows of one common length, no
    /// empty row, and only tags that the registry holds; the focused cell
    /// and the remembered header cell lie in the grid.
    pub open spec fn layout_ok(self) -> bool {
        &&& bounded(self.grid)
        &&& self.grid.len() >= 1
        &&& forall|y: int| 0 <= y < self.grid.len() ==> #[trigger] self.grid[y].len() >= 1
        &&& forall|y: int|
            1 <= y < self.grid.len() ==> #[trigger] self.grid[y].len() == self.grid[1].len()
        &&& forall|y: int, x: int|
            0 <= y < self.grid.len() && 0 <= x < self.grid[y].len() ==> self.panes.has(
                #[trigger] self.grid[y][x],
            )
        &&& valid_coo(self.grid, self.current)
        &&& self.last_header.1 == 0
        &&& self.last_header.0 < self.grid[0].len()
        &&& self.panes.wf()
    }

    /// A sound layout whose panes look as focus on the current cell calls
    /// for.
    pub open spec fn wf(self) -> bool {
        &&& self.layout_ok()
        &&& self.panes.shows_only(self.pane_at(self.current))
    }

    /// Where a move in direction `d` takes focus, and what the header memory
    /// becomes. Going up from the content rows into the header row restores
    /// the remembered header cell; going down from the header row remembers
    /// the cell left and enters the content row at its first column.
    pub open spec fn destination(self, d: Direction) -> ((usize, usize), (usize, usize)) {
        let n = step_spec(d, self.current, self.grid);
        if n == self.current {
            (self.current, self.last_header)
        } else if self.current.1 >= 1 && n.1 == 0 {
            (self.last_header, self.last_header)
        } else if self.current.1 == 0 && n.1 >= 1 {
            ((0usize, n.1), self.current)
        } else {
            (n, self.last_header)
        }
    }

    /// The state after a move in direction `d`: unchanged where the grid's
    /// edge blocks it; else the pane left is unselected, the pane reached is
    /// selected, and focus and header memory are those of `destination`.
    pub open spec fn moved(self, d: Direction) -> AppView {
        if step_spec(d, self.current, self.grid) == self.current {
            self
        } else {
            let (dest, last) = self.destination(d);
            AppView {
                panes: self.panes.mark_unselected(self.pane_at(self.current)).mark_selected(
                    self.pane_at(dest),
                ),
                current: dest,
                last_header: last,
                ..self
            }
        }
    }

    /// The state after the moves `ds`, in order.
    pub open spec fn after(self, ds: Seq<Direction>) -> AppView
        decreases ds.len(),
    {
        if ds.len() == 0 {
            self
        } else {
            self.moved(ds[0]).after(ds.drop_first())
        }
    }
}

/// The focus controller: the navigation grid, the pane registry, and the
/// focus state.
pub struct App {
    grid: NavGrid,
    registry: Registry,
    current: (usize, usize),
    last_header: (usize, usize),
}

impl View for App {
    type V = AppView;

    closed spec fn view(&self) -> AppView {
        AppView {
            grid: self.grid@,
            panes: self.registry@,
            current: self.current,
            last_header: self.last_header,
        }
    }
}

impl App {
    /// The standard screen: a header row with the two tabs of one tab strip,
    /// `tab1` and `tab2`, above a content row with two editable surfaces,
    /// `txt1` and `txt2`. Focus starts on `txt1`, and the header memory on
    /// `tab1`.
    pub fn new() -> (app: App)
        ensures
            app@.grid == seq![seq!["tab1"@, "tab2"@], seq!["txt1"@, "txt2"@]],
            app@.panes.tags == seq!["tab1"@, "tab2"@, "txt1"@, "txt2"@],
            app@.panes.kinds == seq![
                PaneKind::Selector { selector: 0, index: 0 },
                PaneKind::Selector { selector: 0, index: 1 },
                PaneKind::Editable { highlighted: true },
                PaneKind::Editable { highlighted: false },
            ],
            app@.panes.selectors == seq![Selector { active: 0, focused: false }],
            app@.current == (0usize, 1usize),
            app@.last_header == (0usize, 0usize),
            app@.wf(),
    {
        proof {
            reveal_strlit("tab1");
            reveal_strlit("tab2");
            reveal_strlit("txt1");
            reveal_strlit("txt2");
        }
        let mut registry = Registry::new();
        let tabs = registry.add_selector(0);
        let a = registry.add_pane("tab1".to_owned(), PaneKind::Selector { selector: tabs, index: 0 });
        assert(registry@.tags =~= seq!["tab1"@]);
        assert("tab1"@[3] != "tab2"@[3]);
        let b = registry.add_pane("tab2".to_owned(), PaneKind::Selector { selector: tabs, index: 1 });
        assert(registry@.tags =~= seq!["tab1"@, "tab2"@]);
        assert("tab1"@[1] != "txt1"@[1] && "tab2"@[1] != "txt1"@[1]);
        let c = registry.add_pane("txt1".to_owned(), PaneKind::Editable { highlighted: false });
        assert(registry@.tags =~= seq!["tab1"@, "tab2"@, "txt1"@]);
        assert("tab1"@[1] != "txt2"@[1] && "tab2"@[1] != "txt2"@[1] && "txt1"@[3] != "txt2"@[3]);
        let e = registry.add_pane("txt2".to_owned(), PaneKind::Editable { highlighted: false });
        assert(a && b && c && e);
        let grid = NavGrid::new(
            vec![
                vec!["tab1".to_owned(), "tab2".to_owned()],
                vec!["txt1".to_owned(), "txt2".to_owned()],
            ],
        );
        assert(grid@ =~~= seq![seq!["tab1"@, "tab2"@], seq!["txt1"@, "txt2"@]]);
        proof {
            let v = AppView { grid: grid@, panes: registry@, current: (0, 1), last_header: (0, 0) };
            assert(registry@.tags =~= seq!["tab1"@, "tab2"@, "txt1"@, "txt2"@]);
            assert(v.panes.tags[0] == v.grid[0][0] && v.panes.tags[1] == v.grid[0][1]);
            assert(v.panes.tags[2] == v.grid[1][0] && v.panes.tags[3] == v.grid[1][1]);
            assert forall|y: int, x: int|
                0 <= y < v.grid.len() && 0 <= x < v.grid[y].len() implies v.panes.has(
                #[trigger] v.grid[y][x]) by {
                assert(v.panes.tags[2 * y + x] == v.grid[y][x]);
            }
            assert(v.layout_ok());
        }
        let app = App::with_layout(grid, registry, (0, 1), (0, 0));
        app
    }

    /// Puts a controller together from a grid, a registry and a focus state,
    /// and gives the panes the appearance that focus on `current` calls for.
    pub fn with_layout(
        grid: NavGrid,
        registry: Registry,
        current: (usize, usize),
        last_header: (usize, usize),
    ) -> (app: App)
        requires
            (AppView { grid: grid@, panes: registry@, current, last_header }).layout_ok(),
        ensures
            app@ == (AppView {
                grid: grid@,
                panes: registry@.cleared().mark_selected(
                    (AppView { grid: grid@, panes: registry@, current, last_header }).pane_at(
                        current,
                    ),
                ),
                current,
                last_header,
            }),
            app@.wf(),
    {
        let ghost v = AppView { grid: grid@, panes: registry@, current, last_header };
        let mut registry = registry;
        proof {
            lemma_pane_at(v, current);
            lemma_cleared(v.panes);
        }
        registry.clear_marks();
        let i = registry.pane_index(grid.tag_at(current));
        registry.select(i);
        proof {
            lemma_select_shows_only(v.panes.cleared(), i as int);
            let w = AppView { panes: registry@, ..v };
            assert(w.pane_at(current) == i);
            assert forall|y: int, x: int|
                0 <= y < w.grid.len() && 0 <= x < w.grid[y].len() implies w.panes.has(
                #[trigger] w.grid[y][x]) by {
                assert(v.panes.has(v.grid[y][x]));
            }
        }
        App { grid, registry, current, last_header }
    }

    /// Moves focus one step in direction `d`: see `AppView::moved`.
    pub fn handle_direction(&mut self, d: Direction)
        requires
            old(self)@.wf(),
        ensures
            final(self)@ == old(self)@.moved(d),
            final(self)@.wf(),
    {
        let ghost v = self@;
        proof {
            lemma_move_preserves_wf(v, d);
        }
        let cur = self.current;
        let n = step(d, cur, &self.grid);
        if n.0 == cur.0 && n.1 == cur.1 {
            return;
        }
        let (dest, last) = if cur.1 >= 1 && n.1 == 0 {
            (self.last_header, self.last_header)
        } else if cur.1 == 0 && n.1 >= 1 {
            ((0, n.1), cur)
        } else {
            (n, self.last_header)
        };
        assert((dest, last) == v.destination(d));
        proof {
            lemma_pane_at(v, cur);
            lemma_pane_at(v, dest);
        }
        let p = self.registry.pane_index(self.grid.tag_at(cur));
        let q = self.registry.pane_index(self.grid.tag_at(dest));
        self.registry.unselect(p);
        self.registry.select(q);
        self.current = dest;
        self.last_header = last;
    }

    /// Handles a typed key: `h`, `j`, `k` and `l` move focus left, down, up
    /// and right; any other key changes nothing.
    pub fn input(&mut self, key: char)
        requires
            old(self)@.wf(),
        ensures
            final(self)@ == match key_direction(key) {
                Some(d) => old(self)@.moved(d),
                None => old(self)@,
            },
            final(self)@.wf(),
    {
        if let Some(d) = direction_of_key(key) {
            self.handle_direction(d);
        }
    }

    pub fn current(&self) -> (c: (usize, usize))
        ensures
            c == self@.current,
    {
        self.current
    }

    pub fn last_header(&self) -> (c: (usize, usize))
        ensures
            c == self@.last_header,
    {
        self.last_header
    }

    pub fn grid(&self) -> (g: &NavGrid)
        ensures
            g@ == self@.grid,
    {
        &self.grid
    }

    pub fn registry(&self) -> (r: &Registry)
        ensures
            r@ == self@.panes,
    {
        &self.registry
    }
}

proof fn lemma_pane_at(v: AppView, c: (usize, usize))
    requires
        v.layout_ok(),
        valid_coo(v.grid, c),
    ensures
        0 <= v.pane_at(c) < v.panes.len(),
        v.panes.tags[v.pane_at(c)] == v.tag_at(c),
{
    assert(v.panes.has(v.grid[c.1 as int][c.0 as int]));
}

/// Every move keeps the layout sound and the appearance in step with focus.
pub proof fn lemma_move_preserves_wf(v: AppView, d: Direction)
    requires
        v.wf(),
    ensures
        v.moved(d).wf(),
        v.moved(d).grid == v.grid,
        v.moved(d).panes.tags == v.panes.tags,
{
    let n = step_spec(d, v.current, v.grid);
    if n != v.current {
        let (dest, last) = v.destination(d);
        assert(v.grid[v.current.1 as int].len() <= usize::MAX);
        if v.current.1 >= 1 && v.current.1 + 1 < v.grid.len() {
            assert(v.grid[v.current.1 + 1].len() == v.grid[1].len());
        }
        if v.current.1 >= 2 {
            assert(v.grid[v.current.1 - 1].len() == v.grid[1].len());
        }
        assert(v.grid[v.current.1 as int].len() == v.grid[1].len() || v.current.1 == 0);
        if v.current.1 == 0 && n.1 >= 1 {
            assert(v.grid[1].len() >= 1);
        }
        assert(valid_coo(v.grid, dest));
        let p = v.pane_at(v.current);
        let q = v.pane_at(dest);
        lemma_pane_at(v, v.current);
        lemma_pane_at(v, dest);
        lemma_unselect_clears(v.panes, p);
        lemma_select_shows_only(v.panes.mark_unselected(p), q);
        let w = v.moved(d);
        assert(w.panes.tags == v.panes.tags);
        assert(w.pane_at(w.current) == q);
        assert forall|y: int, x: int|
            0 <= y < w.grid.len() && 0 <= x < w.grid[y].len() implies w.panes.has(
            #[trigger] w.grid[y][x]) by {
            assert(v.panes.has(v.grid[y][x]));
        }
    }
}

/// After any sequence of moves exactly one pane shows the selected
/// appearance: the pane in the focused cell.
pub proof fn lemma_moves_keep_one_selected(v: AppView, ds: Seq<Direction>)
    requires
        v.wf(),
    ensures
        v.after(ds).wf(),
        forall|i: int|
            0 <= i < v.after(ds).panes.len() ==> (v.after(ds).panes.is_selected(i) <==> v.after(
                ds,
            ).panes.tags[i] == v.after(ds).tag_at(v.after(ds).current)),
    decreases ds.len(),
{
    if ds.len() > 0 {
        lemma_move_preserves_wf(v, ds[0]);
        lemma_moves_keep_one_selected(v.moved(ds[0]), ds.drop_first());
    } else {
        let c = v.current;
        lemma_pane_at(v, c);
        lemma_shows_only_one(v.panes, v.pane_at(c));
    }
}

/// A move that the grid's edge blocks changes nothing: left from the first
/// column, right from a row's last column, up from the header row, down
/// from the last row.
pub proof fn lemma_blocked_move_is_noop(v: AppView, d: Direction)
    requires
        v.wf(),
        blocked(d, v.current, v.grid),
    ensures
        v.moved(d) == v,
{
}

/// When a move reaches a selector pane, that pane's selector now has the
/// pane's own option chosen; when it reaches an editable surface, no
/// selector's chosen option changes.
pub proof fn lemma_move_sets_selector_index(v: AppView, d: Direction)
    requires
        v.wf(),
    ensures
        match v.moved(d).panes.kinds[v.moved(d).pane_at(v.moved(d).current)] {
            PaneKind::Selector { selector, index } => v.moved(d).panes.selectors[selector as int].active
                == index,
            PaneKind::Editable { .. } => forall|s: int|
                0 <= s < v.panes.selectors.len() ==> (#[trigger] v.moved(d).panes.selectors[s]).active
                    == v.panes.selectors[s].active,
        },
{
    lemma_move_preserves_wf(v, d);
    let w = v.moved(d);
    if w != v {
        let p = v.pane_at(v.current);
        let q = v.pane_at(w.current);
        lemma_pane_at(v, v.current);
        lemma_pane_at(v, w.current);
        lemma_selection_sets_own_index(v.panes, p);
        lemma_selection_sets_own_index(v.panes.mark_unselected(p), q);
    }
}

/// Going down from a header cell and straight back up returns focus to that
/// same header cell.
pub proof fn lemma_header_round_trip(v: AppView)
    requires
        v.wf(),
        v.current.1 == 0,
        v.grid.len() >= 2,
    ensures
        v.moved(Direction::Down).current == (0usize, 1usize),
        v.moved(Direction::Down).last_header == v.current,
        v.moved(Direction::Down).moved(Direction::Up).current == v.current,
{
    lemma_move_preserves_wf(v, Direction::Down);
}

} // verus!
