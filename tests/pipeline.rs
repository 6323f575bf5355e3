use ascii_presenter::engine::Engine;
use ascii_presenter::objects::font::{glyph, text_width};
use ascii_presenter::objects::table::{table_add_column, table_remove_column, FRACTION_SCALE};
use ascii_presenter::objects::{Arrow, Group, HLine, Header, Label, Rect, Resolve, Table, TableCell};
use ascii_presenter::player::{Player, PlayerCommand, Redraw};
use ascii_presenter::renderer::Renderer;
use ascii_presenter::source::{Coordinate, FrameRange, Position, SceneObject, SourcePresentation};
use ascii_presenter::types::{Cell, Color, DrawOp, Frame, NamedColor, ResolvedScene, Style, TerminalContract};

fn at(v: u16) -> Coordinate {
    Coordinate::cells(v)
}

fn pos(x: u16, y: u16) -> Position {
    Position { x: at(x), y: at(y) }
}

fn frames(start: usize, end: usize) -> FrameRange {
    FrameRange { start, end }
}

fn plain() -> Style {
    Style::plain()
}

fn cells_of(ops: &[DrawOp]) -> Vec<(u16, u16, char)> {
    ops.iter().map(|o| (o.x, o.y, o.ch)).collect()
}

fn label(text: &str, w: u16, h: u16) -> Label {
    Label {
        text: text.to_string(),
        position: pos(0, 0),
        width: at(w),
        height: at(h),
        framed: false,
        frame_style: None,
        style: plain(),
        frames: frames(0, 1),
        z_order: 0,
    }
}

#[test]
fn animated_coordinate_clamps_and_interpolates() {
    let c = Coordinate::Animated { from: 10, to: 20, start_frame: 5, end_frame: 15 };
    for f in 0..=5 {
        assert_eq!(c.evaluate(f), 10);
    }
    for f in 15..30 {
        assert_eq!(c.evaluate(f), 20);
    }
    assert_eq!(c.evaluate(10), 15);
    assert_eq!(c.evaluate(6), 11);
}

#[test]
fn animated_coordinate_rounds_value_halves_up() {
    let up = Coordinate::Animated { from: 0, to: 1, start_frame: 0, end_frame: 2 };
    assert_eq!(up.evaluate(1), 1);
    let down = Coordinate::Animated { from: 1, to: 0, start_frame: 0, end_frame: 2 };
    assert_eq!(down.evaluate(1), 1);
    let fall = Coordinate::Animated { from: 11, to: 10, start_frame: 0, end_frame: 2 };
    assert_eq!(fall.evaluate(1), 11);
    let slow = Coordinate::Animated { from: 10, to: 7, start_frame: 0, end_frame: 4 };
    assert_eq!(slow.evaluate(1), 9);
    assert_eq!(slow.evaluate(2), 9);
    assert_eq!(slow.evaluate(3), 8);
    let back = Coordinate::Animated { from: 20, to: 10, start_frame: 0, end_frame: 3 };
    assert_eq!(back.evaluate(1), 17);
}

#[test]
fn empty_animation_span_yields_target() {
    let c = Coordinate::Animated { from: 3, to: 9, start_frame: 4, end_frame: 4 };
    assert_eq!(c.evaluate(0), 9);
    assert_eq!(c.evaluate(4), 9);
    assert_eq!(c.evaluate(100), 9);
}

#[test]
fn fixed_coordinate_floors() {
    assert_eq!(Coordinate::Fixed(5_999).evaluate(0), 5);
    assert_eq!(Coordinate::Fixed(0).evaluate(7), 0);
    assert_eq!(Coordinate::Fixed(u64::MAX).evaluate(0), u16::MAX);
}

#[test]
fn frame_range_is_half_open() {
    let r = frames(2, 4);
    assert!(!r.contains(1));
    assert!(r.contains(2));
    assert!(r.contains(3));
    assert!(!r.contains(4));
}

#[test]
fn label_wraps_hello_world_to_two_rows() {
    let l = label("Hello World", 5, 0);
    let mut ops = Vec::new();
    l.resolve(0, &mut ops);
    let mut expected = Vec::new();
    for (i, ch) in "Hello".chars().enumerate() {
        expected.push((i as u16, 0, ch));
    }
    for (i, ch) in "World".chars().enumerate() {
        expected.push((i as u16, 1, ch));
    }
    assert_eq!(cells_of(&ops), expected);
}

#[test]
fn label_list_items_hang_under_their_text() {
    let l = label("- aaa bbb", 6, 0);
    let mut ops = Vec::new();
    l.resolve(0, &mut ops);
    assert_eq!(
        cells_of(&ops),
        vec![(0, 0, '-'), (2, 0, 'a'), (3, 0, 'a'), (4, 0, 'a'), (2, 1, 'b'), (3, 1, 'b'), (4, 1, 'b')]
    );
    let n = label("12. xx yy", 7, 0);
    let mut ops = Vec::new();
    n.resolve(0, &mut ops);
    assert_eq!(
        cells_of(&ops),
        vec![(0, 0, '1'), (1, 0, '2'), (2, 0, '.'), (4, 0, 'x'), (5, 0, 'x'), (3, 1, 'y'), (4, 1, 'y')]
    );
}

#[test]
fn label_hard_breaks_long_words_and_truncates_height() {
    let l = label("abcdefgh\nxyz", 3, 2);
    let mut ops = Vec::new();
    l.resolve(0, &mut ops);
    assert_eq!(
        cells_of(&ops),
        vec![(0, 0, 'a'), (1, 0, 'b'), (2, 0, 'c'), (0, 1, 'd'), (1, 1, 'e'), (2, 1, 'f')]
    );
}

#[test]
fn label_background_fills_the_box() {
    let mut l = label("ab", 3, 2);
    l.style.bg = Some(Color::Named(NamedColor::Blue));
    let mut ops = Vec::new();
    l.resolve(0, &mut ops);
    assert_eq!(ops.len(), 6);
    assert_eq!(cells_of(&ops)[2], (2, 0, ' '));
    assert_eq!(cells_of(&ops)[5], (2, 1, ' '));
}

#[test]
fn label_without_width_keeps_lines_and_frames_them() {
    let mut l = label("ab\nc", 0, 0);
    l.position = pos(1, 1);
    l.framed = true;
    let mut ops = Vec::new();
    l.resolve(0, &mut ops);
    let cells = cells_of(&ops);
    assert_eq!(&cells[..3], &[(1, 1, 'a'), (2, 1, 'b'), (1, 2, 'c')]);
    assert_eq!(cells[3], (0, 0, '┌'));
    assert_eq!(cells[4], (3, 0, '┐'));
    assert_eq!(cells[5], (0, 3, '└'));
    assert_eq!(cells[6], (3, 3, '┘'));
    assert_eq!(cells.len(), 3 + 4 + 4 + 4);
}

#[test]
fn hline_emits_one_op_per_column() {
    let h = HLine {
        y: at(4),
        x_start: at(20),
        x_end: at(23),
        ch: '─',
        style: plain(),
        frames: frames(0, 1),
        z_order: 0,
    };
    let mut ops = Vec::new();
    h.resolve(0, &mut ops);
    assert_eq!(cells_of(&ops), vec![(20, 4, '─'), (21, 4, '─'), (22, 4, '─')]);
}

#[test]
fn object_outside_its_frames_draws_nothing() {
    let h = HLine {
        y: at(0),
        x_start: at(0),
        x_end: at(5),
        ch: '=',
        style: plain(),
        frames: frames(2, 3),
        z_order: 0,
    };
    let mut ops = Vec::new();
    h.resolve(1, &mut ops);
    h.resolve(3, &mut ops);
    assert!(ops.is_empty());
    h.resolve(2, &mut ops);
    assert_eq!(ops.len(), 5);
}

fn arrow(x1: u16, y1: u16, x2: u16, y2: u16, head: bool) -> Arrow {
    Arrow {
        x1: at(x1),
        y1: at(y1),
        x2: at(x2),
        y2: at(y2),
        head,
        head_ch: None,
        body_ch: None,
        style: plain(),
        frames: frames(0, 1),
        z_order: 0,
    }
}

#[test]
fn horizontal_arrow_ends_in_a_rightward_head() {
    let mut ops = Vec::new();
    arrow(0, 0, 3, 0, true).resolve(0, &mut ops);
    assert_eq!(cells_of(&ops), vec![(0, 0, '─'), (1, 0, '─'), (2, 0, '─'), (3, 0, '▶')]);
}

#[test]
fn arrow_without_head_and_single_point() {
    let mut ops = Vec::new();
    arrow(0, 2, 0, 0, false).resolve(0, &mut ops);
    assert_eq!(cells_of(&ops), vec![(0, 2, '│'), (0, 1, '│'), (0, 0, '│')]);
    let mut ops = Vec::new();
    arrow(4, 4, 4, 4, true).resolve(0, &mut ops);
    assert_eq!(cells_of(&ops), vec![(4, 4, '*')]);
}

#[test]
fn diagonal_arrows_bend_once() {
    let mut ops = Vec::new();
    arrow(0, 0, 3, 2, true).resolve(0, &mut ops);
    assert_eq!(
        cells_of(&ops),
        vec![(0, 0, '─'), (1, 0, '─'), (2, 0, '─'), (3, 0, '┐'), (3, 1, '│'), (3, 2, '▼')]
    );
    let mut ops = Vec::new();
    arrow(2, 3, 0, 0, true).resolve(0, &mut ops);
    assert_eq!(
        cells_of(&ops),
        vec![(2, 3, '│'), (2, 2, '│'), (2, 1, '│'), (2, 0, '┐'), (1, 0, '─'), (0, 0, '◀')]
    );
}

#[test]
fn custom_arrow_characters_rotate_within_their_family() {
    let mut a = arrow(0, 0, 0, 2, true);
    a.head_ch = Some('>');
    a.body_ch = Some('═');
    let mut ops = Vec::new();
    a.resolve(0, &mut ops);
    assert_eq!(cells_of(&ops), vec![(0, 0, '║'), (0, 1, '║'), (0, 2, 'v')]);
    let mut b = arrow(2, 0, 0, 0, true);
    b.head_ch = Some('★');
    let mut ops = Vec::new();
    b.resolve(0, &mut ops);
    assert_eq!(cells_of(&ops), vec![(2, 0, '─'), (1, 0, '─'), (0, 0, '★')]);
}

#[test]
fn rect_draws_border_and_clipped_title() {
    let r = Rect {
        position: pos(0, 0),
        width: at(6),
        height: at(3),
        style: plain(),
        frames: frames(0, 1),
        z_order: 1,
        title: Some("Title".to_string()),
    };
    let mut ops = Vec::new();
    r.resolve(0, &mut ops);
    let cells = cells_of(&ops);
    assert_eq!(&cells[..6], &[(0, 0, '┌'), (1, 0, '─'), (2, 0, '─'), (3, 0, '─'), (4, 0, '─'), (5, 0, '┐')]);
    assert_eq!(&cells[6..8], &[(0, 1, '│'), (5, 1, '│')]);
    assert_eq!(&cells[8..14], &[(0, 2, '└'), (1, 2, '─'), (2, 2, '─'), (3, 2, '─'), (4, 2, '─'), (5, 2, '┘')]);
    assert_eq!(&cells[14..], &[(2, 0, 'T'), (3, 0, 'i'), (4, 0, 't')]);
    assert_eq!(ops[14].z_order, 2);
}

#[test]
fn header_draws_glyph_pixels() {
    let h = Header {
        text: "i!".to_string(),
        position: pos(0, 0),
        style: plain(),
        frames: frames(0, 1),
        z_order: 0,
        ch: '#',
    };
    let mut ops = Vec::new();
    h.resolve(0, &mut ops);
    // 'I' is 3 columns: ###, " # " x3, ###  -> 3 + 1 + 1 + 1 + 3 pixels
    // '!' is 1 column at x = 4: rows 0, 1, 2 and 4.
    assert_eq!(ops.len(), 9 + 4);
    assert_eq!(cells_of(&ops)[9], (4, 0, '#'));
    assert_eq!(cells_of(&ops)[12], (4, 4, '#'));
}

#[test]
fn header_background_fills_blank_pixels_and_gaps() {
    let mut style = plain();
    style.bg = Some(Color::Rgb { r: 1, g: 2, b: 3 });
    let h = Header {
        text: ".".to_string(),
        position: pos(0, 0),
        style,
        frames: frames(0, 1),
        z_order: 0,
        ch: '█',
    };
    let mut ops = Vec::new();
    h.resolve(0, &mut ops);
    assert_eq!(ops.len(), 5 + 5);
    assert_eq!(ops[0].ch, ' ');
    assert_eq!(ops[0].style.fg, None);
    assert_eq!(ops[4].ch, '█');
}

#[test]
fn font_lookup_and_width() {
    assert!(glyph('A').is_some());
    assert!(glyph('a').is_none());
    assert!(glyph('~').is_none());
    assert_eq!(glyph('I').unwrap()[0], "###");
    assert_eq!(text_width(""), 0);
    assert_eq!(text_width("hi"), 9);
    assert_eq!(text_width("h~i"), 9);
    assert_eq!(text_width("~"), 0);
}

#[test]
fn group_draws_nothing() {
    let g = Group { members: vec![0, 1], frames: frames(0, 10), z_order: 3 };
    let mut ops = Vec::new();
    g.resolve(0, &mut ops);
    assert!(ops.is_empty());
}

fn cell(text: &str) -> TableCell {
    TableCell { content: text.to_string(), style: None }
}

fn table() -> Table {
    Table {
        position: pos(0, 0),
        width: at(9),
        height: at(0),
        col_widths: vec![FRACTION_SCALE / 2, FRACTION_SCALE / 2],
        rows: 2,
        cells: vec![vec![cell("ab"), cell("c")], vec![cell("d"), cell("ef gh")]],
        header_bold: true,
        borders: true,
        style: plain(),
        frames: frames(0, 1),
        z_order: 0,
    }
}

#[test]
fn table_layout_splits_available_columns() {
    let t = table();
    let (w, s) = t.layout(9);
    assert_eq!(w, vec![3, 3]);
    assert_eq!(s, vec![1, 5]);
    let (w, s) = t.layout(0);
    assert!(w.is_empty() && s.is_empty());
    let mut u = table();
    u.borders = false;
    u.col_widths = vec![FRACTION_SCALE / 3, FRACTION_SCALE / 3, FRACTION_SCALE / 3];
    let (w, s) = u.layout(10);
    assert_eq!(w, vec![3, 3, 4]);
    assert_eq!(s, vec![0, 3, 6]);
}

#[test]
fn table_rows_grow_with_wrapped_content() {
    let t = table();
    assert_eq!(t.row_pixel_range(0, 0), Some((1, 2)));
    assert_eq!(t.row_pixel_range(0, 1), Some((3, 5)));
    assert_eq!(t.row_pixel_range(0, 2), None);
    assert_eq!(t.col_pixel_range(0, 1), Some((5, 8)));
    assert_eq!(t.col_pixel_range(0, 2), None);
}

#[test]
fn table_draws_borders_then_cells() {
    let t = table();
    let mut ops = Vec::new();
    t.resolve(0, &mut ops);
    let contract = TerminalContract { width: 9, height: 6 };
    let scene = ResolvedScene { width: 9, height: 6, ops: ops.clone() };
    let p = Renderer::render(&[scene], contract);
    let grid = match &p.frames[0] {
        Frame::Full { cells } => cells.clone(),
        Frame::Diff { .. } => panic!("first frame must be full"),
    };
    let rows: Vec<String> = grid.iter().map(|r| r.iter().map(|c| c.ch).collect()).collect();
    assert_eq!(rows[0], "┌───┬───┐");
    assert_eq!(rows[1], "│ab │c  │");
    assert_eq!(rows[2], "├───┼───┤");
    assert_eq!(rows[3], "│d  │ef │");
    assert_eq!(rows[4], "│   │gh │");
    assert_eq!(rows[5], "└───┴───┘");
    assert!(grid[1][1].style.bold);
    assert!(!grid[3][1].style.bold);
}

#[test]
fn table_overlay_highlights_and_dims() {
    let t = table();
    let mut ops = Vec::new();
    t.resolve_with_editor_overlay(0, None, &[(1, 0)], Some((0, 1)), false, &mut ops);
    let d = ops.iter().find(|o| o.ch == 'd').unwrap();
    assert_eq!(d.style.fg, Some(Color::Named(NamedColor::Red)));
    let a = ops.iter().find(|o| o.ch == 'a').unwrap();
    assert!(a.style.dim);
    let cursor: Vec<_> = ops.iter().filter(|o| o.z_order == 100).collect();
    assert_eq!(cursor.len(), 3);
    assert_eq!((cursor[0].x, cursor[0].y), (5, 1));
}

#[test]
fn table_add_then_remove_column_restores_fractions() {
    let mut t = table();
    t.col_widths = vec![300_000_000, 700_000_000];
    let before = t.col_widths.clone();
    table_add_column(&mut t, 1);
    assert_eq!(t.col_widths.len(), 3);
    assert_eq!(t.col_widths[1], FRACTION_SCALE / 3);
    assert_eq!(t.cells[0].len(), 3);
    assert_eq!(t.cells[0][1].content, "");
    assert_eq!(t.cells[1][2].content, "ef gh");
    table_remove_column(&mut t, 1);
    assert_eq!(t.col_widths.len(), before.len());
    for (a, b) in t.col_widths.iter().zip(before.iter()) {
        assert!(b - a <= FRACTION_SCALE / 1_000_000, "{a} vs {b}");
    }
    assert_eq!(t.cells[1][1].content, "ef gh");
}

#[test]
fn removing_the_only_column_is_refused() {
    let mut t = table();
    t.col_widths = vec![FRACTION_SCALE];
    table_remove_column(&mut t, 0);
    assert_eq!(t.col_widths, vec![FRACTION_SCALE]);
    table_remove_column(&mut t, 5);
    assert_eq!(t.col_widths, vec![FRACTION_SCALE]);
}

#[test]
fn normalize_cells_makes_the_grid_rectangular() {
    let mut t = table();
    t.rows = 3;
    t.cells = vec![vec![cell("x")]];
    t.normalize_cells();
    assert_eq!(t.cells.len(), 3);
    assert!(t.cells.iter().all(|r| r.len() == 2));
    assert_eq!(t.cells[0][0].content, "x");
}

fn op(x: u16, y: u16, ch: char, z: i32) -> DrawOp {
    DrawOp { x, y, ch, style: plain(), z_order: z }
}

fn full_grid(p: &ascii_presenter::types::PlayablePresentation, i: usize) -> Vec<Vec<Cell>> {
    match &p.frames[i] {
        Frame::Full { cells } => cells.clone(),
        Frame::Diff { .. } => panic!("not a full frame"),
    }
}

#[test]
fn later_op_wins_on_equal_z_and_higher_z_wins_otherwise() {
    let contract = TerminalContract { width: 3, height: 1 };
    let scene = ResolvedScene {
        width: 3,
        height: 1,
        ops: vec![op(0, 0, 'a', 0), op(0, 0, 'b', 0), op(1, 0, 'c', 5), op(1, 0, 'd', 1), op(9, 9, 'z', 9)],
    };
    let p = Renderer::render(&[scene], contract);
    let g = full_grid(&p, 0);
    assert_eq!(g[0][0].ch, 'b');
    assert_eq!(g[0][1].ch, 'c');
    assert_eq!(g[0][2], Cell::blank());
}

#[test]
fn render_encodes_full_then_minimal_diffs() {
    let contract = TerminalContract { width: 4, height: 2 };
    let s0 = ResolvedScene { width: 4, height: 2, ops: vec![op(0, 0, 'x', 0)] };
    let s1 = ResolvedScene { width: 4, height: 2, ops: vec![op(0, 0, 'x', 0), op(3, 1, 'y', 0)] };
    let s2 = ResolvedScene { width: 4, height: 2, ops: vec![] };
    let p = Renderer::render(&[s0, s1, s2], contract);
    assert_eq!(p.frames.len(), 3);
    assert!(matches!(p.frames[0], Frame::Full { .. }));
    match &p.frames[1] {
        Frame::Diff { changes } => {
            assert_eq!(changes.len(), 1);
            assert_eq!((changes[0].x, changes[0].y, changes[0].cell.ch), (3, 1, 'y'));
        }
        Frame::Full { .. } => panic!("expected a diff"),
    }
    match &p.frames[2] {
        Frame::Diff { changes } => {
            assert_eq!(changes.len(), 2);
            assert_eq!((changes[0].x, changes[0].y), (0, 0));
            assert_eq!((changes[1].x, changes[1].y), (3, 1));
            assert_eq!(changes[1].cell, Cell::blank());
        }
        Frame::Full { .. } => panic!("expected a diff"),
    }
    assert!(p.markers.is_empty());
    let empty = Renderer::render(&[], contract);
    assert!(empty.frames.is_empty());
}

fn sample_source() -> SourcePresentation {
    SourcePresentation {
        width: 12,
        height: 4,
        frame_count: 4,
        objects: vec![
            SceneObject::Label(Label {
                text: "Hi there".to_string(),
                position: Position {
                    x: Coordinate::Animated { from: 0, to: 4, start_frame: 0, end_frame: 3 },
                    y: at(1),
                },
                width: at(0),
                height: at(0),
                framed: false,
                frame_style: None,
                style: plain(),
                frames: frames(0, 4),
                z_order: 0,
            }),
            SceneObject::HLine(HLine {
                y: at(3),
                x_start: at(0),
                x_end: at(12),
                ch: '─',
                style: plain(),
                frames: frames(1, 3),
                z_order: 1,
            }),
            SceneObject::Group(Group { members: vec![0, 1], frames: frames(0, 4), z_order: 0 }),
        ],
    }
}

#[test]
fn compile_is_deterministic() {
    let s = sample_source();
    let a = Engine::compile(&s);
    let b = Engine::compile(&s);
    assert_eq!(a.len(), 4);
    for (x, y) in a.iter().zip(b.iter()) {
        assert_eq!(x.ops, y.ops);
        assert_eq!((x.width, x.height), (12, 4));
    }
    assert_eq!(a[0].ops.len(), 7);
    assert_eq!(a[1].ops.len(), 7 + 12);
    assert_eq!(a[3].ops[0].x, 4);
}

#[test]
fn playback_of_diffs_matches_direct_rasterization() {
    let s = sample_source();
    let scenes = Engine::compile(&s);
    let contract = TerminalContract { width: s.width, height: s.height };
    let p = Renderer::render(&scenes, contract);
    let mut player = Player::new(p.clone());
    assert_eq!(player.start(), Redraw::Whole);
    for n in 0..scenes.len() {
        let direct = Renderer::render(&scenes[n..n + 1], contract);
        assert_eq!(player.grid(), &full_grid(&direct, 0));
        let r = player.handle(PlayerCommand::Next);
        if n + 1 < scenes.len() {
            assert_eq!(r, Redraw::Changes);
        } else {
            assert_eq!(r, Redraw::Nothing);
        }
    }
    assert_eq!(player.current_frame(), 3);
    assert_eq!(player.handle(PlayerCommand::Previous), Redraw::Whole);
    let direct = Renderer::render(&scenes[2..3], contract);
    assert_eq!(player.grid(), &full_grid(&direct, 0));
    assert_eq!(player.handle(PlayerCommand::First), Redraw::Whole);
    assert_eq!(player.current_frame(), 0);
    assert_eq!(player.handle(PlayerCommand::Last), Redraw::Whole);
    assert_eq!(player.current_frame(), 3);
    assert_eq!(player.handle(PlayerCommand::ToggleFullscreen), Redraw::Fullscreen);
    assert!(player.fullscreen());
}

#[test]
fn style_default_is_plain() {
    assert!(Style::plain().is_default());
    let mut s = Style::plain();
    s.dim = true;
    assert!(!s.is_default());
    assert_eq!(Style::default(), Style::plain());
    assert_eq!(Cell::default(), Cell::blank());
}
