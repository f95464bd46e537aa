use tui_app::direction::{direction_of_key, Direction};
use tui_app::focus::App;
use tui_app::grid::{step, NavGrid};
use tui_app::registry::{PaneKind, Registry, Selector};

fn grid_of(rows: &[&[&str]]) -> NavGrid {
    NavGrid::new(rows.iter().map(|r| r.iter().map(|t| t.to_string()).collect()).collect())
}

fn selected_tags(app: &App) -> Vec<String> {
    let reg = app.registry();
    (0..reg.len()).filter(|&i| reg.is_selected(i)).map(|i| reg.tag(i).clone()).collect()
}

fn focused_tag(app: &App) -> String {
    app.grid().tag_at(app.current()).clone()
}

#[test]
fn step_clamps_at_every_edge() {
    let g = grid_of(&[&["tab1", "tab2", "tab3"], &["txt1", "txt2"]]);
    assert_eq!(step(Direction::Left, (0, 0), &g), (0, 0));
    assert_eq!(step(Direction::Left, (0, 1), &g), (0, 1));
    assert_eq!(step(Direction::Right, (2, 0), &g), (2, 0));
    assert_eq!(step(Direction::Right, (1, 1), &g), (1, 1));
    assert_eq!(step(Direction::Up, (1, 0), &g), (1, 0));
    assert_eq!(step(Direction::Down, (0, 1), &g), (0, 1));
}

#[test]
fn step_moves_one_cell_and_back() {
    let g = grid_of(&[&["a", "b", "c"], &["d", "e", "f"], &["g", "h", "i"]]);
    assert_eq!(step(Direction::Right, (1, 1), &g), (2, 1));
    assert_eq!(step(Direction::Left, (1, 1), &g), (0, 1));
    assert_eq!(step(Direction::Up, (1, 1), &g), (1, 0));
    assert_eq!(step(Direction::Down, (1, 1), &g), (1, 2));
    assert_eq!(step(Direction::Right, step(Direction::Left, (1, 1), &g), &g), (1, 1));
    assert_eq!(step(Direction::Left, step(Direction::Right, (1, 1), &g), &g), (1, 1));
    assert_eq!(step(Direction::Down, step(Direction::Up, (1, 1), &g), &g), (1, 1));
    assert_eq!(step(Direction::Up, step(Direction::Down, (1, 1), &g), &g), (1, 1));
}

#[test]
fn step_uses_the_length_of_the_current_row() {
    let g = grid_of(&[&["a", "b", "c"], &["d"]]);
    assert_eq!(step(Direction::Right, (1, 0), &g), (2, 0));
    assert_eq!(step(Direction::Right, (0, 1), &g), (0, 1));
}

#[test]
fn keys_decode_to_directions() {
    assert_eq!(direction_of_key('l'), Some(Direction::Right));
    assert_eq!(direction_of_key('h'), Some(Direction::Left));
    assert_eq!(direction_of_key('k'), Some(Direction::Up));
    assert_eq!(direction_of_key('j'), Some(Direction::Down));
    assert_eq!(direction_of_key('x'), None);
    assert_eq!(direction_of_key('L'), None);
}

#[test]
fn new_screen_starts_on_first_surface() {
    let app = App::new();
    assert_eq!(app.current(), (0, 1));
    assert_eq!(app.last_header(), (0, 0));
    assert_eq!(focused_tag(&app), "txt1");
    assert_eq!(selected_tags(&app), vec!["txt1".to_string()]);
    let reg = app.registry();
    assert_eq!(reg.len(), 4);
    assert_eq!(reg.kind(0), PaneKind::Selector { selector: 0, index: 0 });
    assert_eq!(reg.kind(1), PaneKind::Selector { selector: 0, index: 1 });
    assert_eq!(reg.kind(2), PaneKind::Editable { highlighted: true });
    assert_eq!(reg.kind(3), PaneKind::Editable { highlighted: false });
    assert_eq!(reg.selector(0), Selector { active: 0, focused: false });
}

#[test]
fn up_from_content_restores_remembered_header_cell() {
    let mut app = App::new();
    app.handle_direction(Direction::Up);
    assert_eq!(app.current(), (0, 0));
    assert_eq!(focused_tag(&app), "tab1");
    app.handle_direction(Direction::Down);
    assert_eq!(app.current(), (0, 1));
    assert_eq!(app.last_header(), (0, 0));
}

#[test]
fn down_from_any_header_column_enters_first_content_column() {
    let mut app = App::new();
    app.handle_direction(Direction::Right);
    assert_eq!(app.current(), (1, 1));
    app.handle_direction(Direction::Up);
    assert_eq!(app.current(), (0, 0));
    app.handle_direction(Direction::Right);
    assert_eq!(app.current(), (1, 0));
    app.handle_direction(Direction::Down);
    assert_eq!(app.current(), (0, 1));
    assert_eq!(app.last_header(), (1, 0));
}

#[test]
fn header_round_trip_returns_to_same_tab() {
    let mut app = App::new();
    app.handle_direction(Direction::Up);
    app.handle_direction(Direction::Right);
    assert_eq!(app.current(), (1, 0));
    app.handle_direction(Direction::Down);
    assert_eq!(app.current(), (0, 1));
    app.handle_direction(Direction::Up);
    assert_eq!(app.current(), (1, 0));
    assert_eq!(focused_tag(&app), "tab2");
}

#[test]
fn blocked_moves_change_nothing() {
    let mut app = App::new();
    app.handle_direction(Direction::Left);
    assert_eq!(app.current(), (0, 1));
    app.handle_direction(Direction::Down);
    assert_eq!(app.current(), (0, 1));
    app.handle_direction(Direction::Right);
    app.handle_direction(Direction::Right);
    assert_eq!(app.current(), (1, 1));
    assert_eq!(selected_tags(&app), vec!["txt2".to_string()]);
    app.handle_direction(Direction::Up);
    app.handle_direction(Direction::Up);
    assert_eq!(app.current(), (0, 0));
    app.handle_direction(Direction::Left);
    assert_eq!(app.current(), (0, 0));
    app.handle_direction(Direction::Right);
    app.handle_direction(Direction::Right);
    assert_eq!(app.current(), (1, 0));
    assert_eq!(app.last_header(), (0, 0));
}

#[test]
fn exactly_the_focused_pane_is_selected_after_any_moves() {
    let mut app = App::new();
    let moves = [
        Direction::Up, Direction::Right, Direction::Right, Direction::Down, Direction::Right,
        Direction::Up, Direction::Left, Direction::Down, Direction::Down, Direction::Left,
        Direction::Up, Direction::Up,
    ];
    for d in moves {
        app.handle_direction(d);
        assert_eq!(selected_tags(&app), vec![focused_tag(&app)]);
    }
}

#[test]
fn selecting_a_tab_chooses_its_own_option() {
    let mut app = App::new();
    app.handle_direction(Direction::Up);
    assert_eq!(app.registry().selector(0), Selector { active: 0, focused: true });
    app.handle_direction(Direction::Right);
    assert_eq!(app.registry().selector(0), Selector { active: 1, focused: true });
    assert!(app.registry().is_selected(1));
    assert!(!app.registry().is_selected(0));
    app.handle_direction(Direction::Down);
    assert_eq!(app.registry().selector(0), Selector { active: 1, focused: false });
    app.handle_direction(Direction::Right);
    assert_eq!(app.registry().selector(0), Selector { active: 1, focused: false });
    assert_eq!(selected_tags(&app), vec!["txt2".to_string()]);
}

#[test]
fn input_moves_on_vi_keys_only() {
    let mut app = App::new();
    app.input('l');
    assert_eq!(app.current(), (1, 1));
    app.input('x');
    assert_eq!(app.current(), (1, 1));
    app.input('k');
    assert_eq!(app.current(), (0, 0));
    app.input('l');
    assert_eq!(app.current(), (1, 0));
    app.input('j');
    assert_eq!(app.current(), (0, 1));
    app.input('h');
    assert_eq!(app.current(), (0, 1));
}

#[test]
fn registry_refuses_duplicate_tags_and_options() {
    let mut reg = Registry::new();
    let s = reg.add_selector(0);
    assert_eq!(s, 0);
    assert!(reg.add_pane("a".to_string(), PaneKind::Selector { selector: 0, index: 0 }));
    assert!(!reg.add_pane("a".to_string(), PaneKind::Editable { highlighted: false }));
    assert!(!reg.add_pane("b".to_string(), PaneKind::Selector { selector: 0, index: 0 }));
    assert!(!reg.add_pane("b".to_string(), PaneKind::Selector { selector: 1, index: 0 }));
    assert!(reg.add_pane("b".to_string(), PaneKind::Selector { selector: 0, index: 1 }));
    assert_eq!(reg.len(), 2);
    assert_eq!(reg.find(&"b".to_string()), Some(1));
    assert_eq!(reg.find(&"c".to_string()), None);
}

#[test]
fn custom_layout_with_three_tabs_and_two_content_rows() {
    let mut reg = Registry::new();
    let s = reg.add_selector(2);
    for (i, t) in ["t0", "t1", "t2"].iter().enumerate() {
        assert!(reg.add_pane(t.to_string(), PaneKind::Selector { selector: s, index: i }));
    }
    for t in ["a", "b", "c", "d"] {
        assert!(reg.add_pane(t.to_string(), PaneKind::Editable { highlighted: true }));
    }
    let grid = grid_of(&[&["t0", "t1", "t2"], &["a", "b"], &["c", "d"]]);
    let mut app = App::with_layout(grid, reg, (1, 2), (2, 0));
    assert_eq!(selected_tags(&app), vec!["d".to_string()]);
    assert_eq!(app.registry().selector(0), Selector { active: 2, focused: false });
    app.handle_direction(Direction::Up);
    assert_eq!(app.current(), (1, 1));
    app.handle_direction(Direction::Up);
    assert_eq!(app.current(), (2, 0));
    assert_eq!(selected_tags(&app), vec!["t2".to_string()]);
    app.handle_direction(Direction::Left);
    assert_eq!(app.registry().selector(0), Selector { active: 1, focused: true });
    app.handle_direction(Direction::Down);
    assert_eq!(app.current(), (0, 1));
    assert_eq!(app.last_header(), (1, 0));
    app.handle_direction(Direction::Down);
    assert_eq!(app.current(), (0, 2));
    app.handle_direction(Direction::Down);
    assert_eq!(app.current(), (0, 2));
    assert_eq!(selected_tags(&app), vec!["c".to_string()]);
}

#[test]
fn clearing_marks_dims_everything() {
    let mut reg = Registry::new();
    reg.add_selector(1);
    reg.add_pane("t".to_string(), PaneKind::Selector { selector: 0, index: 1 });
    reg.add_pane("e".to_string(), PaneKind::Editable { highlighted: false });
    reg.select(0);
    reg.select(1);
    assert!(reg.is_selected(0) && reg.is_selected(1));
    reg.clear_marks();
    assert!(!reg.is_selected(0) && !reg.is_selected(1));
    assert_eq!(reg.selector(0), Selector { active: 1, focused: false });
    reg.unselect(1);
    assert_eq!(reg.kind(1), PaneKind::Editable { highlighted: false });
}
