use ascii_presenter::edit::{
    adjust_frames_after_delete, adjust_frames_after_insert, adjust_group_members_after_delete, delete_object,
    objects_on_frame, scene_object_frame_range, scene_object_type_name,
};
use ascii_presenter::objects::{Group, HLine};
use ascii_presenter::source::{Coordinate, FrameRange, SceneObject, SourcePresentation};
use ascii_presenter::types::Style;

fn line(start: usize, end: usize) -> SceneObject {
    SceneObject::HLine(HLine {
        y: Coordinate::Animated { from: 0, to: 4, start_frame: start, end_frame: end },
        x_start: Coordinate::cells(0),
        x_end: Coordinate::cells(3),
        ch: '-',
        style: Style::plain(),
        frames: FrameRange { start, end },
        z_order: 0,
    })
}

fn group(members: Vec<usize>) -> SceneObject {
    SceneObject::Group(Group { members, frames: FrameRange { start: 0, end: 9 }, z_order: 0 })
}

fn source() -> SourcePresentation {
    SourcePresentation { width: 10, height: 5, frame_count: 4, objects: vec![line(0, 2), line(2, 3), group(vec![0, 1, 3]), line(1, 4)] }
}

fn range_of(s: &SourcePresentation, i: usize) -> (usize, usize) {
    let r = scene_object_frame_range(&s.objects[i]);
    (r.start, r.end)
}

fn animation_of(s: &SourcePresentation, i: usize) -> (usize, usize) {
    match &s.objects[i] {
        SceneObject::HLine(h) => match h.y {
            Coordinate::Animated { start_frame, end_frame, .. } => (start_frame, end_frame),
            Coordinate::Fixed(_) => panic!("expected an animation"),
        },
        _ => panic!("expected a line"),
    }
}

#[test]
fn inserting_a_frame_moves_later_indices() {
    let mut s = source();
    adjust_frames_after_insert(&mut s, 1);
    assert_eq!(s.frame_count, 5);
    assert_eq!(range_of(&s, 0), (0, 3));
    assert_eq!(range_of(&s, 1), (3, 4));
    assert_eq!(range_of(&s, 3), (1, 5));
    assert_eq!(animation_of(&s, 1), (3, 4));
}

#[test]
fn deleting_a_frame_drops_emptied_objects() {
    let mut s = source();
    adjust_frames_after_delete(&mut s, 2);
    assert_eq!(s.frame_count, 3);
    assert_eq!(s.objects.len(), 3);
    assert_eq!(range_of(&s, 0), (0, 2));
    assert_eq!(range_of(&s, 2), (1, 3));
    assert_eq!(animation_of(&s, 2), (1, 3));
}

#[test]
fn deleting_an_object_renumbers_group_members() {
    let mut s = source();
    delete_object(&mut s, 1);
    assert_eq!(s.objects.len(), 3);
    match &s.objects[1] {
        SceneObject::Group(g) => assert_eq!(g.members, vec![0, 2]),
        _ => panic!("expected the group"),
    }
    let mut t = source();
    adjust_group_members_after_delete(&mut t, 0);
    match &t.objects[2] {
        SceneObject::Group(g) => assert_eq!(g.members, vec![0, 2]),
        _ => panic!("expected the group"),
    }
    let mut u = source();
    delete_object(&mut u, 9);
    assert_eq!(u.objects.len(), 4);
}

#[test]
fn objects_visible_on_a_frame() {
    let s = source();
    assert_eq!(objects_on_frame(&s, 0), vec![0, 2]);
    assert_eq!(objects_on_frame(&s, 2), vec![1, 2, 3]);
    assert_eq!(scene_object_type_name(&s.objects[2]), "Group");
    assert_eq!(scene_object_type_name(&s.objects[0]), "HLine");
}

use ascii_presenter::edit::group_bounds;
use ascii_presenter::objects::{Arrow, Rect};

#[test]
fn group_bounds_cover_live_members() {
    let rect = SceneObject::Rect(Rect {
        position: ascii_presenter::source::Position { x: Coordinate::Fixed(2_500), y: Coordinate::cells(1) },
        width: Coordinate::cells(4),
        height: Coordinate::cells(2),
        style: Style::plain(),
        frames: FrameRange { start: 0, end: 1 },
        z_order: 0,
        title: None,
    });
    let arrow = SceneObject::Arrow(Arrow {
        x1: Coordinate::cells(10),
        y1: Coordinate::cells(5),
        x2: Coordinate::cells(8),
        y2: Coordinate::cells(5),
        head: true,
        head_ch: None,
        body_ch: None,
        style: Style::plain(),
        frames: FrameRange { start: 0, end: 1 },
        z_order: 0,
    });
    let objects = vec![rect, arrow, group(vec![0, 1, 7])];
    // x from 2.5 to 10, y from 1 to 6 (the arrow counts one row).
    assert_eq!(group_bounds(&objects, 2), (2_500, 1_000, 7_500, 5_000));
    assert_eq!(group_bounds(&objects, 0), (0, 0, 0, 0));
    assert_eq!(group_bounds(&objects, 9), (0, 0, 0, 0));
    let lonely = vec![group(vec![4])];
    assert_eq!(group_bounds(&lonely, 0), (0, 0, 0, 0));
}

use ascii_presenter::edit::{move_group, move_object};

#[test]
fn moving_shifts_fixed_positions_only() {
    let mut l = line(0, 2);
    move_object(&mut l, -2, 3);
    match &l {
        SceneObject::HLine(h) => {
            assert_eq!(h.x_start, Coordinate::Fixed(0));
            assert_eq!(h.x_end, Coordinate::Fixed(1_000));
            assert_eq!(h.y, Coordinate::Animated { from: 0, to: 4, start_frame: 0, end_frame: 2 });
        }
        _ => panic!("expected a line"),
    }
    let mut objects = vec![line(0, 1), group(vec![0, 0, 5]), line(0, 1)];
    move_group(&mut objects, 1, 1, 0);
    match (&objects[0], &objects[2]) {
        (SceneObject::HLine(a), SceneObject::HLine(b)) => {
            assert_eq!(a.x_start, Coordinate::Fixed(2_000));
            assert_eq!(b.x_start, Coordinate::Fixed(0));
        }
        _ => panic!("expected lines"),
    }
}

use ascii_presenter::edit::{create_default, resize_object, shrink_object};

#[test]
fn new_objects_have_editor_defaults() {
    match create_default(0, 2, 5) {
        SceneObject::Label(l) => {
            assert_eq!(l.text, "New Label");
            assert_eq!((l.frames.start, l.frames.end), (2, 5));
        }
        _ => panic!("expected a label"),
    }
    match create_default(5, 0, 1) {
        SceneObject::Arrow(a) => {
            assert_eq!(a.x2.evaluate(0), 20);
            assert!(a.head);
        }
        _ => panic!("expected an arrow"),
    }
    assert!(matches!(create_default(4, 0, 1), SceneObject::Group(_)));
    assert!(matches!(create_default(3, 0, 1), SceneObject::Header(_)));
}

fn rect_at(x: u16, w: u16) -> SceneObject {
    SceneObject::Rect(Rect {
        position: ascii_presenter::source::Position { x: Coordinate::cells(x), y: Coordinate::cells(0) },
        width: Coordinate::cells(w),
        height: Coordinate::cells(3),
        style: Style::plain(),
        frames: FrameRange { start: 0, end: 1 },
        z_order: 0,
        title: None,
    })
}

fn rect_geometry(o: &SceneObject) -> (u16, u16, u16) {
    match o {
        SceneObject::Rect(r) => (r.position.x.evaluate(0), r.width.evaluate(0), r.height.evaluate(0)),
        _ => panic!("expected a rect"),
    }
}

#[test]
fn resizing_and_shrinking_rects() {
    let mut r = rect_at(5, 4);
    resize_object(&mut r, 2, 0);
    assert_eq!(rect_geometry(&r), (5, 6, 3));
    resize_object(&mut r, -2, 1);
    assert_eq!(rect_geometry(&r), (3, 8, 4));
    shrink_object(&mut r, 10, 0);
    assert_eq!(rect_geometry(&r), (3, 1, 4));
    shrink_object(&mut r, -1, 0);
    assert_eq!(rect_geometry(&r), (3, 1, 4));
    let mut s = rect_at(0, 5);
    shrink_object(&mut s, -2, -1);
    assert_eq!(rect_geometry(&s), (2, 3, 2));
}
