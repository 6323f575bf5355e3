//! Edits of a presentation as the editor makes them: inserting and deleting
//! frames, deleting objects (renumbering group members), new objects, moving
//! and resizing objects, and the bounding box of a group.
use vstd::prelude::*;
use crate::source::{Coordinate, FrameRange, Position, SceneObject, SourcePresentation, FIXED_SCALE};
use crate::objects::{Arrow, Group, HLine, Header, Label, Rect};
use crate::types::{Style, default_style};

verus! {

/// A frame index after a frame was inserted after `k`: later indices move
/// up by one (saturating).
pub open spec fn shift_up(v: usize, k: usize) -> usize {
    if v > k && v < usize::MAX {
        (v + 1) as usize
    } else {
        v
    }
}

/// A frame index after frame `d` was deleted: later indices move down by one.
pub open spec fn shift_down(v: usize, d: usize) -> usize {
    if v > d {
        (v - 1) as usize
    } else {
        v
    }
}

/// `c` with the frames of its animation moved up (`up`) or down around frame `k`.
pub open spec fn coord_shifted(c: Coordinate, up: bool, k: usize) -> Coordinate {
    match c {
        Coordinate::Fixed(v) => Coordinate::Fixed(v),
        Coordinate::Animated { from, to, start_frame, end_frame } => Coordinate::Animated {
            from,
            to,
            start_frame: if up { shift_up(start_frame, k) } else { shift_down(start_frame, k) },
            end_frame: if up { shift_up(end_frame, k) } else { shift_down(end_frame, k) },
        },
    }
}

/// `r` with both ends moved up (`up`) or down around frame `k`.
pub open spec fn range_shifted(r: FrameRange, up: bool, k: usize) -> FrameRange {
    FrameRange {
        start: if up { shift_up(r.start, k) } else { shift_down(r.start, k) },
        end: if up { shift_up(r.end, k) } else { shift_down(r.end, k) },
    }
}

/// `o` with, when `range`, its frame range moved, and, when `coords`, the
/// frames of its animated coordinates (up when `up`, else down, around `k`).
pub open spec fn object_shifted(o: SceneObject, up: bool, k: usize, range: bool, coords: bool) -> SceneObject {
    let fr = |r: FrameRange| if range { range_shifted(r, up, k) } else { r };
    let co = |c: Coordinate| if coords { coord_shifted(c, up, k) } else { c };
    match o {
        SceneObject::Label(l) => SceneObject::Label(crate::objects::Label {
            position: crate::source::Position { x: co(l.position.x), y: co(l.position.y) },
            width: co(l.width),
            height: co(l.height),
            frames: fr(l.frames),
            ..l
        }),
        SceneObject::HLine(h) => SceneObject::HLine(crate::objects::HLine {
            y: co(h.y),
            x_start: co(h.x_start),
            x_end: co(h.x_end),
            frames: fr(h.frames),
            ..h
        }),
        SceneObject::Rect(r) => SceneObject::Rect(crate::objects::Rect {
            position: crate::source::Position { x: co(r.position.x), y: co(r.position.y) },
            width: co(r.width),
            height: co(r.height),
            frames: fr(r.frames),
            ..r
        }),
        SceneObject::Header(h) => SceneObject::Header(crate::objects::Header {
            position: crate::source::Position { x: co(h.position.x), y: co(h.position.y) },
            frames: fr(h.frames),
            ..h
        }),
        SceneObject::Group(g) => SceneObject::Group(crate::objects::Group { frames: fr(g.frames), ..g }),
        SceneObject::Arrow(a) => SceneObject::Arrow(crate::objects::Arrow {
            x1: co(a.x1),
            y1: co(a.y1),
            x2: co(a.x2),
            y2: co(a.y2),
            frames: fr(a.frames),
            ..a
        }),
        SceneObject::Table(t) => SceneObject::Table(crate::objects::Table {
            position: crate::source::Position { x: co(t.position.x), y: co(t.position.y) },
            width: co(t.width),
            height: co(t.height),
            frames: fr(t.frames),
            ..t
        }),
    }
}

fn shift(v: usize, up: bool, k: usize) -> (r: usize)
    ensures
        r == if up { shift_up(v, k) } else { shift_down(v, k) },
{
    if up {
        if v > k && v < usize::MAX { v + 1 } else { v }
    } else {
        if v > k { v - 1 } else { v }
    }
}

fn shift_coord(c: Coordinate, up: bool, k: usize, on: bool) -> (r: Coordinate)
    ensures
        r == if on { coord_shifted(c, up, k) } else { c },
{
    if !on {
        return c;
    }
    match c {
        Coordinate::Fixed(v) => Coordinate::Fixed(v),
        Coordinate::Animated { from, to, start_frame, end_frame } => Coordinate::Animated {
            from,
            to,
            start_frame: shift(start_frame, up, k),
            end_frame: shift(end_frame, up, k),
        },
    }
}

fn shift_range(r: FrameRange, up: bool, k: usize, on: bool) -> (s: FrameRange)
    ensures
        s == if on { range_shifted(r, up, k) } else { r },
{
    if !on {
        return r;
    }
    FrameRange { start: shift(r.start, up, k), end: shift(r.end, up, k) }
}

fn shift_object(o: SceneObject, up: bool, k: usize, range: bool, coords: bool) -> (r: SceneObject)
    ensures
        r == object_shifted(o, up, k, range, coords),
{
    match o {
        SceneObject::Label(mut l) => {
            l.position.x = shift_coord(l.position.x, up, k, coords);
            l.position.y = shift_coord(l.position.y, up, k, coords);
            l.width = shift_coord(l.width, up, k, coords);
            l.height = shift_coord(l.height, up, k, coords);
            l.frames = shift_range(l.frames, up, k, range);
            SceneObject::Label(l)
        },
        SceneObject::HLine(mut h) => {
            h.y = shift_coord(h.y, up, k, coords);
            h.x_start = shift_coord(h.x_start, up, k, coords);
            h.x_end = shift_coord(h.x_end, up, k, coords);
            h.frames = shift_range(h.frames, up, k, range);
            SceneObject::HLine(h)
        },
        SceneObject::Rect(mut r) => {
            r.position.x = shift_coord(r.position.x, up, k, coords);
            r.position.y = shift_coord(r.position.y, up, k, coords);
            r.width = shift_coord(r.width, up, k, coords);
            r.height = shift_coord(r.height, up, k, coords);
            r.frames = shift_range(r.frames, up, k, range);
            SceneObject::Rect(r)
        },
        SceneObject::Header(mut h) => {
            h.position.x = shift_coord(h.position.x, up, k, coords);
            h.position.y = shift_coord(h.position.y, up, k, coords);
            h.frames = shift_range(h.frames, up, k, range);
            SceneObject::Header(h)
        },
        SceneObject::Group(mut g) => {
            g.frames = shift_range(g.frames, up, k, range);
            SceneObject::Group(g)
        },
        SceneObject::Arrow(mut a) => {
            a.x1 = shift_coord(a.x1, up, k, coords);
            a.y1 = shift_coord(a.y1, up, k, coords);
            a.x2 = shift_coord(a.x2, up, k, coords);
            a.y2 = shift_coord(a.y2, up, k, coords);
            a.frames = shift_range(a.frames, up, k, range);
            SceneObject::Arrow(a)
        },
        SceneObject::Table(mut t) => {
            t.position.x = shift_coord(t.position.x, up, k, coords);
            t.position.y = shift_coord(t.position.y, up, k, coords);
            t.width = shift_coord(t.width, up, k, coords);
            t.height = shift_coord(t.height, up, k, coords);
            t.frames = shift_range(t.frames, up, k, range);
            SceneObject::Table(t)
        },
    }
}

/// The frame range of an object.
pub fn scene_object_frame_range(obj: &SceneObject) -> (r: FrameRange)
    ensures
        r == obj.frame_range(),
{
    match obj {
        SceneObject::Label(l) => l.frames,
        SceneObject::HLine(h) => h.frames,
        SceneObject::Rect(r) => r.frames,
        SceneObject::Header(h) => h.frames,
        SceneObject::Group(g) => g.frames,
        SceneObject::Arrow(a) => a.frames,
        SceneObject::Table(t) => t.frames,
    }
}

/// The indices among the first `n` objects that are visible at `frame`, in order.
pub open spec fn visible_among(objs: Seq<SceneObject>, n: int, frame: int) -> Seq<usize>
    decreases n,
{
    if n <= 0 {
        Seq::empty()
    } else if objs[n - 1].frame_range().holds(frame) {
        visible_among(objs, n - 1, frame).push((n - 1) as usize)
    } else {
        visible_among(objs, n - 1, frame)
    }
}

/// The indices of the objects visible at `frame`, in order.
pub fn objects_on_frame(source: &SourcePresentation, frame: usize) -> (r: Vec<usize>)
    ensures
        r@ == visible_among(source.objects@, source.objects@.len() as int, frame as int),
{
    let mut r: Vec<usize> = Vec::new();
    let mut i: usize = 0;
    while i < source.objects.len()
        invariant
            i <= source.objects@.len(),
            r@ == visible_among(source.objects@, i as int, frame as int),
        decreases source.objects@.len() - i,
    {
        let fr = scene_object_frame_range(&source.objects[i]);
        if fr.contains(frame) {
            r.push(i);
        }
        i = i + 1;
    }
    r
}

/// Make room for a new frame after frame `inserted_after`: one frame more,
/// and every frame index beyond it, in frame ranges and animations, moves up
/// by one.
pub fn adjust_frames_after_insert(source: &mut SourcePresentation, inserted_after: usize)
    ensures
        final(source).width == old(source).width,
        final(source).height == old(source).height,
        final(source).frame_count == if old(source).frame_count < usize::MAX {
            old(source).frame_count + 1
        } else {
            old(source).frame_count as int
        },
        final(source).objects@ == old(source).objects@.map_values(|o: SceneObject| object_shifted(o, true, inserted_after, true, true)),
{
    if source.frame_count < usize::MAX {
        source.frame_count = source.frame_count + 1;
    }
    let mut rest: Vec<SceneObject> = Vec::new();
    std::mem::swap(&mut rest, &mut source.objects);
    let ghost orig = rest@;
    let mut out: Vec<SceneObject> = Vec::new();
    let mut taken: Vec<SceneObject> = Vec::new();
    let n = rest.len();
    let mut i: usize = 0;
    while i < n
        invariant
            n == orig.len(),
            i <= n,
            rest@ == orig.subrange(i as int, n as int),
            out@ == orig.subrange(0, i as int).map_values(|o: SceneObject| object_shifted(o, true, inserted_after, true, true)),
        decreases n - i,
    {
        let o = rest.remove(0);
        out.push(shift_object(o, true, inserted_after, true, true));
        i = i + 1;
        assert(rest@ =~= orig.subrange(i as int, n as int));
        assert(out@ =~= orig.subrange(0, i as int).map_values(|o: SceneObject| object_shifted(o, true, inserted_after, true, true)));
    }
    assert(orig.subrange(0, n as int) =~= orig);
    source.objects = out;
}

/// The objects among the first `n` whose frame range is not empty once
/// frame `d` is deleted, with their frames moved down.
pub open spec fn kept_after_delete(objs: Seq<SceneObject>, n: int, d: usize) -> Seq<SceneObject>
    decreases n,
{
    if n <= 0 {
        Seq::empty()
    } else {
        let r = range_shifted(objs[n - 1].frame_range(), false, d);
        if r.start < r.end {
            kept_after_delete(objs, n - 1, d).push(object_shifted(objs[n - 1], false, d, true, true))
        } else {
            kept_after_delete(objs, n - 1, d)
        }
    }
}

proof fn lemma_shift_keeps_range(o: SceneObject, up: bool, k: usize)
    ensures
        object_shifted(o, up, k, true, false).frame_range() == range_shifted(o.frame_range(), up, k),
        object_shifted(object_shifted(o, up, k, true, false), up, k, false, true) == object_shifted(o, up, k, true, true),
{
}

/// Remove frame `deleted`: one frame fewer (none below zero), every later
/// frame index moves down by one, and objects left with an empty frame range
/// are dropped.
pub fn adjust_frames_after_delete(source: &mut SourcePresentation, deleted: usize)
    ensures
        final(source).width == old(source).width,
        final(source).height == old(source).height,
        final(source).frame_count == if old(source).frame_count > 0 {
            old(source).frame_count - 1
        } else {
            0
        },
        final(source).objects@ == kept_after_delete(old(source).objects@, old(source).objects@.len() as int, deleted),
{
    if source.frame_count > 0 {
        source.frame_count = source.frame_count - 1;
    }
    let mut rest: Vec<SceneObject> = Vec::new();
    std::mem::swap(&mut rest, &mut source.objects);
    let ghost orig = rest@;
    let mut out: Vec<SceneObject> = Vec::new();
    let n = rest.len();
    let mut i: usize = 0;
    while i < n
        invariant
            n == orig.len(),
            i <= n,
            rest@ == orig.subrange(i as int, n as int),
            out@ == kept_after_delete(orig, i as int, deleted),
        decreases n - i,
    {
        let o = rest.remove(0);
        assert(o == orig[i as int]);
        let moved = shift_object(o, false, deleted, true, false);
        let fr = scene_object_frame_range(&moved);
        proof {
            lemma_shift_keeps_range(orig[i as int], false, deleted);
        }
        if fr.start < fr.end {
            out.push(shift_object(moved, false, deleted, false, true));
        }
        i = i + 1;
        assert(rest@ =~= orig.subrange(i as int, n as int));
    }
    source.objects = out;
}

/// Group members after object `removed` is deleted: references to it are
/// dropped and later indices move down by one.
pub open spec fn renumbered(ms: Seq<usize>, n: int, removed: usize) -> Seq<usize>
    decreases n,
{
    if n <= 0 {
        Seq::empty()
    } else if ms[n - 1] == removed {
        renumbered(ms, n - 1, removed)
    } else {
        renumbered(ms, n - 1, removed).push(if ms[n - 1] > removed { (ms[n - 1] - 1) as usize } else { ms[n - 1] })
    }
}

/// Whether `o1` is `o0` with its group members renumbered after object
/// `removed` was deleted; objects other than groups stay as they are.
pub open spec fn renumbered_object(o0: SceneObject, o1: SceneObject, removed: usize) -> bool {
    match (o0, o1) {
        (SceneObject::Group(g0), SceneObject::Group(g1)) => {
            &&& g1.frames == g0.frames
            &&& g1.z_order == g0.z_order
            &&& g1.members@ == renumbered(g0.members@, g0.members@.len() as int, removed)
        },
        (SceneObject::Group(_), _) => false,
        (o0, o1) => o1 == o0,
    }
}

/// Fix group member references after the object at `removed_idx` is deleted.
pub fn adjust_group_members_after_delete(source: &mut SourcePresentation, removed_idx: usize)
    ensures
        final(source).width == old(source).width,
        final(source).height == old(source).height,
        final(source).frame_count == old(source).frame_count,
        final(source).objects@.len() == old(source).objects@.len(),
        forall|i: int| 0 <= i < old(source).objects@.len() ==> renumbered_object(#[trigger] old(source).objects@[i], final(source).objects@[i], removed_idx),
{
    let mut rest: Vec<SceneObject> = Vec::new();
    std::mem::swap(&mut rest, &mut source.objects);
    let ghost orig = rest@;
    let mut out: Vec<SceneObject> = Vec::new();
    let n = rest.len();
    let mut i: usize = 0;
    while i < n
        invariant
            n == orig.len(),
            i <= n,
            rest@ == orig.subrange(i as int, n as int),
            out@.len() == i,
            forall|j: int| 0 <= j < i ==> renumbered_object(#[trigger] orig[j], out@[j], removed_idx),
        decreases n - i,
    {
        let o = rest.remove(0);
        assert(o == orig[i as int]);
        let fixed = match o {
            SceneObject::Group(g) => {
                let mut members: Vec<usize> = Vec::new();
                let mut k: usize = 0;
                while k < g.members.len()
                    invariant
                        k <= g.members@.len(),
                        members@ == renumbered(g.members@, k as int, removed_idx),
                    decreases g.members@.len() - k,
                {
                    let m = g.members[k];
                    if m != removed_idx {
                        members.push(if m > removed_idx { m - 1 } else { m });
                    }
                    k = k + 1;
                }
                SceneObject::Group(crate::objects::Group { members, frames: g.frames, z_order: g.z_order })
            },
            other => other,
        };
        out.push(fixed);
        i = i + 1;
        assert(rest@ =~= orig.subrange(i as int, n as int));
    }
    source.objects = out;
}

/// The type name of an object.
pub fn scene_object_type_name(obj: &SceneObject) -> (r: &'static str)
    ensures
        r@ == match obj {
            SceneObject::Label(_) => "Label"@,
            SceneObject::HLine(_) => "HLine"@,
            SceneObject::Rect(_) => "Rect"@,
            SceneObject::Header(_) => "Header"@,
            SceneObject::Group(_) => "Group"@,
            SceneObject::Arrow(_) => "Arrow"@,
            SceneObject::Table(_) => "Table"@,
        },
{
    match obj {
        SceneObject::Label(_) => "Label",
        SceneObject::HLine(_) => "HLine",
        SceneObject::Rect(_) => "Rect",
        SceneObject::Header(_) => "Header",
        SceneObject::Group(_) => "Group",
        SceneObject::Arrow(_) => "Arrow",
        SceneObject::Table(_) => "Table",
    }
}

/// Delete the object at `index` (nothing when there is none) and renumber the
/// group members that referred to the objects after it.
pub fn delete_object(source: &mut SourcePresentation, index: usize)
    ensures
        final(source).width == old(source).width,
        final(source).height == old(source).height,
        final(source).frame_count == old(source).frame_count,
        index >= old(source).objects@.len() ==> final(source).objects@ == old(source).objects@,
        index < old(source).objects@.len() ==> {
            &&& final(source).objects@.len() == old(source).objects@.len() - 1
            &&& forall|i: int| 0 <= i < final(source).objects@.len() ==> renumbered_object(
                #[trigger] old(source).objects@.remove(index as int)[i],
                final(source).objects@[i],
                index,
            )
        },
{
    if index < source.objects.len() {
        source.objects.remove(index);
        adjust_group_members_after_delete(source, index);
    }
}

/// The value of a coordinate in thousandths of a cell, ignoring animation:
/// a fixed value as it is, an animated one at its starting point.
pub open spec fn raw(c: Coordinate) -> int {
    match c {
        Coordinate::Fixed(v) => v as int,
        Coordinate::Animated { from, .. } => from as int * FIXED_SCALE as int,
    }
}

fn raw_of(c: &Coordinate) -> (r: u128)
    ensures
        r as int == raw(*c),
{
    match c {
        Coordinate::Fixed(v) => *v as u128,
        Coordinate::Animated { from, .. } => *from as u128 * 1000,
    }
}

/// `|a - b|`.
pub open spec fn dist(a: int, b: int) -> int {
    if a >= b {
        a - b
    } else {
        b - a
    }
}

/// The larger of `a` and `b`.
pub open spec fn max2(a: int, b: int) -> int {
    if a >= b {
        a
    } else {
        b
    }
}

/// The smaller of `a` and `b`.
pub open spec fn min2(a: int, b: int) -> int {
    if a <= b {
        a
    } else {
        b
    }
}

/// The top-left corner and extent of an object, in thousandths of a cell, as
/// a group sees it: (x, y, width, height). Headers and lines count one row;
/// groups nothing.
pub open spec fn footprint(o: SceneObject) -> (int, int, int, int) {
    let one = FIXED_SCALE as int;
    match o {
        SceneObject::Label(l) => (raw(l.position.x), raw(l.position.y), raw(l.width), raw(l.height)),
        SceneObject::HLine(h) => (raw(h.x_start), raw(h.y), max2(raw(h.x_end) - raw(h.x_start), 0), one),
        SceneObject::Rect(r) => (raw(r.position.x), raw(r.position.y), raw(r.width), raw(r.height)),
        SceneObject::Header(h) => (raw(h.position.x), raw(h.position.y), 0, one),
        SceneObject::Arrow(a) => (
            min2(raw(a.x1), raw(a.x2)),
            min2(raw(a.y1), raw(a.y2)),
            dist(raw(a.x2), raw(a.x1)),
            max2(dist(raw(a.y2), raw(a.y1)), one),
        ),
        SceneObject::Group(_) => (0, 0, 0, 0),
        SceneObject::Table(t) => (raw(t.position.x), raw(t.position.y), raw(t.width), max2(raw(t.height), one)),
    }
}

fn footprint_of(o: &SceneObject) -> (r: (u128, u128, u128, u128))
    ensures
        (r.0 as int, r.1 as int, r.2 as int, r.3 as int) == footprint(*o),
        r.0 <= u64::MAX * 1000,
        r.1 <= u64::MAX * 1000,
        r.2 <= u64::MAX * 1000,
        r.3 <= u64::MAX * 1000,
{
    let one = FIXED_SCALE as u128;
    match o {
        SceneObject::Label(l) => (raw_of(&l.position.x), raw_of(&l.position.y), raw_of(&l.width), raw_of(&l.height)),
        SceneObject::HLine(h) => {
            let a = raw_of(&h.x_start);
            let b = raw_of(&h.x_end);
            (a, raw_of(&h.y), if b > a { b - a } else { 0 }, one)
        },
        SceneObject::Rect(r) => (raw_of(&r.position.x), raw_of(&r.position.y), raw_of(&r.width), raw_of(&r.height)),
        SceneObject::Header(h) => (raw_of(&h.position.x), raw_of(&h.position.y), 0, one),
        SceneObject::Arrow(a) => {
            let x1 = raw_of(&a.x1);
            let x2 = raw_of(&a.x2);
            let y1 = raw_of(&a.y1);
            let y2 = raw_of(&a.y2);
            let dy = if y2 >= y1 { y2 - y1 } else { y1 - y2 };
            (
                if x1 <= x2 { x1 } else { x2 },
                if y1 <= y2 { y1 } else { y2 },
                if x2 >= x1 { x2 - x1 } else { x1 - x2 },
                if dy >= one { dy } else { one },
            )
        },
        SceneObject::Group(_) => (0, 0, 0, 0),
        SceneObject::Table(t) => {
            let h = raw_of(&t.height);
            (raw_of(&t.position.x), raw_of(&t.position.y), raw_of(&t.width), if h >= one { h } else { one })
        },
    }
}

/// Over the first `n` members that name an object: the least left and top
/// edges and the greatest right and bottom edges; `None` when there is none.
pub open spec fn members_extent(objs: Seq<SceneObject>, ms: Seq<usize>, n: int) -> Option<(int, int, int, int)>
    decreases n,
{
    if n <= 0 {
        None
    } else {
        let prev = members_extent(objs, ms, n - 1);
        let m = ms[n - 1] as int;
        if m >= objs.len() {
            prev
        } else {
            let (x, y, w, h) = footprint(objs[m]);
            match prev {
                None => Some((x, y, x + w, y + h)),
                Some((a, b, c, d)) => Some((min2(a, x), min2(b, y), max2(c, x + w), max2(d, y + h))),
            }
        }
    }
}

/// The bounding box (x, y, width, height) in thousandths of a cell of the
/// members of a group that name an object; zero when none does.
pub open spec fn bounds_of(objs: Seq<SceneObject>, ms: Seq<usize>) -> (int, int, int, int) {
    match members_extent(objs, ms, ms.len() as int) {
        None => (0, 0, 0, 0),
        Some((a, b, c, d)) => (a, b, max2(c - a, 0), max2(d - b, 0)),
    }
}

/// The bounding box of the group at `group_idx` (see `bounds_of`), computed
/// afresh from its members; zero when that object is not a group.
pub fn group_bounds(objects: &[SceneObject], group_idx: usize) -> (r: (u128, u128, u128, u128))
    ensures
        (r.0 as int, r.1 as int, r.2 as int, r.3 as int) == if group_idx < objects@.len() && objects@[group_idx as int] is Group {
            bounds_of(objects@, objects@[group_idx as int]->Group_0.members@)
        } else {
            (0, 0, 0, 0)
        },
{
    if group_idx >= objects.len() {
        return (0, 0, 0, 0);
    }
    match &objects[group_idx] {
        SceneObject::Group(g) => group_bounds_from_members(objects, &g.members),
        _ => (0, 0, 0, 0),
    }
}

fn group_bounds_from_members(objects: &[SceneObject], members: &Vec<usize>) -> (r: (u128, u128, u128, u128))
    ensures
        (r.0 as int, r.1 as int, r.2 as int, r.3 as int) == bounds_of(objects@, members@),
{
    let mut found = false;
    let mut a: u128 = 0;
    let mut b: u128 = 0;
    let mut c: u128 = 0;
    let mut d: u128 = 0;
    let mut k: usize = 0;
    while k < members.len()
        invariant
            k <= members@.len(),
            members_extent(objects@, members@, k as int) == if found {
                Some((a as int, b as int, c as int, d as int))
            } else {
                None::<(int, int, int, int)>
            },
            a <= u64::MAX * 1000,
            b <= u64::MAX * 1000,
            c <= u64::MAX * 2000,
            d <= u64::MAX * 2000,
        decreases members@.len() - k,
    {
        let m = members[k];
        if m < objects.len() {
            let (x, y, w, h) = footprint_of(&objects[m]);
            if !found {
                a = x;
                b = y;
                c = x + w;
                d = y + h;
                found = true;
            } else {
                if x < a {
                    a = x;
                }
                if y < b {
                    b = y;
                }
                if x + w > c {
                    c = x + w;
                }
                if y + h > d {
                    d = y + h;
                }
            }
        }
        k = k + 1;
    }
    if !found {
        return (0, 0, 0, 0);
    }
    (a, b, if c > a { c - a } else { 0 }, if d > b { d - b } else { 0 })
}

/// A fixed coordinate moved by `d` whole cells, not below zero (and
/// saturated at the top); animated coordinates stay as they are.
pub open spec fn nudged(c: Coordinate, d: i64) -> Coordinate {
    match c {
        Coordinate::Fixed(v) => {
            let w = v as int + d as int * FIXED_SCALE as int;
            Coordinate::Fixed(if w < 0 { 0 } else if w > u64::MAX { u64::MAX } else { w as u64 })
        },
        other => other,
    }
}

fn nudge(c: Coordinate, d: i64) -> (r: Coordinate)
    ensures
        r == nudged(c, d),
{
    match c {
        Coordinate::Fixed(v) => {
            let w: i128 = v as i128 + d as i128 * 1000;
            assert(FIXED_SCALE == 1000);
            Coordinate::Fixed(if w < 0 { 0 } else if w > u64::MAX as i128 { u64::MAX } else { w as u64 })
        },
        other => other,
    }
}

/// `o` moved by `(dx, dy)` cells: its fixed position coordinates shift, sizes
/// and animated coordinates stay; groups have no position of their own.
pub open spec fn object_moved(o: SceneObject, dx: i32, dy: i32) -> SceneObject {
    match o {
        SceneObject::Label(l) => SceneObject::Label(crate::objects::Label {
            position: crate::source::Position { x: nudged(l.position.x, dx as i64), y: nudged(l.position.y, dy as i64) },
            ..l
        }),
        SceneObject::HLine(h) => SceneObject::HLine(crate::objects::HLine {
            y: nudged(h.y, dy as i64),
            x_start: nudged(h.x_start, dx as i64),
            x_end: nudged(h.x_end, dx as i64),
            ..h
        }),
        SceneObject::Rect(r) => SceneObject::Rect(crate::objects::Rect {
            position: crate::source::Position { x: nudged(r.position.x, dx as i64), y: nudged(r.position.y, dy as i64) },
            ..r
        }),
        SceneObject::Header(h) => SceneObject::Header(crate::objects::Header {
            position: crate::source::Position { x: nudged(h.position.x, dx as i64), y: nudged(h.position.y, dy as i64) },
            ..h
        }),
        SceneObject::Group(g) => SceneObject::Group(g),
        SceneObject::Arrow(a) => SceneObject::Arrow(crate::objects::Arrow {
            x1: nudged(a.x1, dx as i64),
            y1: nudged(a.y1, dy as i64),
            x2: nudged(a.x2, dx as i64),
            y2: nudged(a.y2, dy as i64),
            ..a
        }),
        SceneObject::Table(t) => SceneObject::Table(crate::objects::Table {
            position: crate::source::Position { x: nudged(t.position.x, dx as i64), y: nudged(t.position.y, dy as i64) },
            ..t
        }),
    }
}

/// Move an object by `(dx, dy)` cells (see `object_moved`).
pub fn move_object(obj: &mut SceneObject, dx: i32, dy: i32)
    ensures
        *final(obj) == object_moved(*old(obj), dx, dy),
{
    match obj {
        SceneObject::Label(l) => {
            l.position.x = nudge(l.position.x, dx as i64);
            l.position.y = nudge(l.position.y, dy as i64);
        },
        SceneObject::HLine(h) => {
            h.y = nudge(h.y, dy as i64);
            h.x_start = nudge(h.x_start, dx as i64);
            h.x_end = nudge(h.x_end, dx as i64);
        },
        SceneObject::Rect(r) => {
            r.position.x = nudge(r.position.x, dx as i64);
            r.position.y = nudge(r.position.y, dy as i64);
        },
        SceneObject::Header(h) => {
            h.position.x = nudge(h.position.x, dx as i64);
            h.position.y = nudge(h.position.y, dy as i64);
        },
        SceneObject::Arrow(a) => {
            a.x1 = nudge(a.x1, dx as i64);
            a.y1 = nudge(a.y1, dy as i64);
            a.x2 = nudge(a.x2, dx as i64);
            a.y2 = nudge(a.y2, dy as i64);
        },
        SceneObject::Group(_) => {},
        SceneObject::Table(t) => {
            t.position.x = nudge(t.position.x, dx as i64);
            t.position.y = nudge(t.position.y, dy as i64);
        },
    }
}

/// The objects after moving, in order, each of the first `n` members that
/// names an object.
pub open spec fn members_moved(objs: Seq<SceneObject>, ms: Seq<usize>, n: int, dx: i32, dy: i32) -> Seq<SceneObject>
    decreases n,
{
    if n <= 0 {
        objs
    } else {
        let prev = members_moved(objs, ms, n - 1, dx, dy);
        let m = ms[n - 1] as int;
        if m < prev.len() {
            prev.update(m, object_moved(prev[m], dx, dy))
        } else {
            prev
        }
    }
}

proof fn lemma_members_moved_len(objs: Seq<SceneObject>, ms: Seq<usize>, n: int, dx: i32, dy: i32)
    ensures
        members_moved(objs, ms, n, dx, dy).len() == objs.len(),
    decreases n,
{
    if n > 0 {
        lemma_members_moved_len(objs, ms, n - 1, dx, dy);
    }
}

/// Move every member of the group at `group_idx` by `(dx, dy)` cells; nothing
/// when that object is not a group.
pub fn move_group(objects: &mut Vec<SceneObject>, group_idx: usize, dx: i32, dy: i32)
    ensures
        final(objects)@ == if group_idx < old(objects)@.len() && old(objects)@[group_idx as int] is Group {
            let ms = old(objects)@[group_idx as int]->Group_0.members@;
            members_moved(old(objects)@, ms, ms.len() as int, dx, dy)
        } else {
            old(objects)@
        },
{
    if group_idx >= objects.len() {
        return;
    }
    let mut members: Vec<usize> = Vec::new();
    match &objects[group_idx] {
        SceneObject::Group(g) => {
            let mut k: usize = 0;
            while k < g.members.len()
                invariant
                    k <= g.members@.len(),
                    members@ == g.members@.subrange(0, k as int),
                decreases g.members@.len() - k,
            {
                members.push(g.members[k]);
                k = k + 1;
                assert(members@ =~= g.members@.subrange(0, k as int));
            }
            assert(members@ =~= g.members@);
        },
        _ => {
            return;
        },
    }
    let ghost start = objects@;
    let mut k: usize = 0;
    while k < members.len()
        invariant
            k <= members@.len(),
            objects@ == members_moved(start, members@, k as int, dx, dy),
        decreases members@.len() - k,
    {
        proof {
            lemma_members_moved_len(start, members@, k as int, dx, dy);
        }
        let m = members[k];
        if m < objects.len() {
            move_object(&mut objects[m], dx, dy);
        }
        k = k + 1;
    }
}

/// A fixed coordinate at `v` whole cells.
pub open spec fn at_cells(v: int) -> Coordinate {
    Coordinate::Fixed((v * FIXED_SCALE as int) as u64)
}

/// Whether `o` is the new object of kind `type_index` (label, line,
/// rectangle, header, group, arrow) that the editor adds, visible from
/// `current_frame` to `frame_count`.
pub open spec fn is_new_object(o: SceneObject, type_index: usize, current_frame: usize, frame_count: usize) -> bool {
    let frames = FrameRange { start: current_frame, end: frame_count };
    let origin = Position { x: at_cells(0), y: at_cells(0) };
    match o {
        SceneObject::Label(l) => type_index == 0 && l.text@ == "New Label"@ && l.position == origin && l.width == at_cells(0)
            && l.height == at_cells(0) && !l.framed && l.frame_style is None && l.style == default_style()
            && l.frames == frames && l.z_order == 0,
        SceneObject::HLine(h) => type_index == 1 && h == (HLine {
            y: at_cells(0),
            x_start: at_cells(0),
            x_end: at_cells(20),
            ch: '─',
            style: default_style(),
            frames,
            z_order: 0,
        }),
        SceneObject::Rect(r) => type_index == 2 && r.position == origin && r.width == at_cells(10) && r.height == at_cells(5)
            && r.style == default_style() && r.frames == frames && r.z_order == 0 && r.title is None,
        SceneObject::Header(h) => type_index == 3 && h.text@ == "TITLE"@ && h.position == origin && h.style == default_style()
            && h.frames == frames && h.z_order == 0 && h.ch == '█',
        SceneObject::Group(g) => type_index == 4 && g.members@.len() == 0 && g.frames == frames && g.z_order == 0,
        SceneObject::Arrow(a) => type_index == 5 && a == (Arrow {
            x1: at_cells(5),
            y1: at_cells(5),
            x2: at_cells(20),
            y2: at_cells(5),
            head: true,
            head_ch: None,
            body_ch: None,
            style: default_style(),
            frames,
            z_order: 0,
        }),
        SceneObject::Table(_) => false,
    }
}

/// The object of kind `type_index` that the editor adds at `current_frame`.
pub fn create_default(type_index: usize, current_frame: usize, frame_count: usize) -> (r: SceneObject)
    requires
        type_index < 6,
    ensures
        is_new_object(r, type_index, current_frame, frame_count),
{
    let frames = FrameRange { start: current_frame, end: frame_count };
    let origin = Position { x: Coordinate::cells(0), y: Coordinate::cells(0) };
    match type_index {
        0 => SceneObject::Label(Label {
            text: String::from_str("New Label"),
            position: origin,
            width: Coordinate::cells(0),
            height: Coordinate::cells(0),
            framed: false,
            frame_style: None,
            style: Style::plain(),
            frames,
            z_order: 0,
        }),
        1 => SceneObject::HLine(HLine {
            y: Coordinate::cells(0),
            x_start: Coordinate::cells(0),
            x_end: Coordinate::cells(20),
            ch: '─',
            style: Style::plain(),
            frames,
            z_order: 0,
        }),
        2 => SceneObject::Rect(Rect {
            position: origin,
            width: Coordinate::cells(10),
            height: Coordinate::cells(5),
            style: Style::plain(),
            frames,
            z_order: 0,
            title: None,
        }),
        3 => SceneObject::Header(Header {
            text: String::from_str("TITLE"),
            position: origin,
            style: Style::plain(),
            frames,
            z_order: 0,
            ch: '█',
        }),
        4 => SceneObject::Group(Group { members: Vec::new(), frames, z_order: 0 }),
        _ => SceneObject::Arrow(Arrow {
            x1: Coordinate::cells(5),
            y1: Coordinate::cells(5),
            x2: Coordinate::cells(20),
            y2: Coordinate::cells(5),
            head: true,
            head_ch: None,
            body_ch: None,
            style: Style::plain(),
            frames,
            z_order: 0,
        }),
    }
}

/// A size and its matching position after one edge of an object is dragged
/// outward by `|d|` cells: the right or bottom edge when `d` is positive, the
/// left or top edge (moving the position back) when negative.
pub open spec fn drag_out(size: Coordinate, pos: Coordinate, d: i32) -> (Coordinate, Coordinate) {
    if d > 0 {
        (nudged(size, d as i64), pos)
    } else if d < 0 {
        (nudged(size, (-(d as i64)) as i64), nudged(pos, d as i64))
    } else {
        (size, pos)
    }
}

fn drag(size: Coordinate, pos: Coordinate, d: i32) -> (r: (Coordinate, Coordinate))
    ensures
        r == drag_out(size, pos, d),
{
    if d > 0 {
        (nudge(size, d as i64), pos)
    } else if d < 0 {
        (nudge(size, -(d as i64)), nudge(pos, d as i64))
    } else {
        (size, pos)
    }
}

/// `o` with an edge dragged outward by `dw` columns and `dh` rows (see
/// `drag_out`); a line's end or start moves; an arrow's end point moves by
/// `(dw, dh)`; headers and groups do not resize.
pub open spec fn object_resized(o: SceneObject, dw: i32, dh: i32) -> SceneObject {
    match o {
        SceneObject::Label(l) => {
            let (w, x) = drag_out(l.width, l.position.x, dw);
            let (h, y) = drag_out(l.height, l.position.y, dh);
            SceneObject::Label(Label { width: w, height: h, position: Position { x, y }, ..l })
        },
        SceneObject::Rect(r) => {
            let (w, x) = drag_out(r.width, r.position.x, dw);
            let (h, y) = drag_out(r.height, r.position.y, dh);
            SceneObject::Rect(Rect { width: w, height: h, position: Position { x, y }, ..r })
        },
        SceneObject::Table(t) => {
            let (w, x) = drag_out(t.width, t.position.x, dw);
            let (h, y) = drag_out(t.height, t.position.y, dh);
            SceneObject::Table(crate::objects::Table { width: w, height: h, position: Position { x, y }, ..t })
        },
        SceneObject::HLine(h) => if dw > 0 {
            SceneObject::HLine(HLine { x_end: nudged(h.x_end, dw as i64), ..h })
        } else if dw < 0 {
            SceneObject::HLine(HLine { x_start: nudged(h.x_start, dw as i64), ..h })
        } else {
            SceneObject::HLine(h)
        },
        SceneObject::Arrow(a) => SceneObject::Arrow(Arrow { x2: nudged(a.x2, dw as i64), y2: nudged(a.y2, dh as i64), ..a }),
        other => other,
    }
}

/// Grow an object by dragging an edge outward (see `object_resized`).
pub fn resize_object(obj: &mut SceneObject, dw: i32, dh: i32)
    ensures
        *final(obj) == object_resized(*old(obj), dw, dh),
{
    match obj {
        SceneObject::Label(l) => {
            let (w, x) = drag(l.width, l.position.x, dw);
            let (h, y) = drag(l.height, l.position.y, dh);
            l.width = w;
            l.height = h;
            l.position = Position { x, y };
        },
        SceneObject::Rect(r) => {
            let (w, x) = drag(r.width, r.position.x, dw);
            let (h, y) = drag(r.height, r.position.y, dh);
            r.width = w;
            r.height = h;
            r.position = Position { x, y };
        },
        SceneObject::Table(t) => {
            let (w, x) = drag(t.width, t.position.x, dw);
            let (h, y) = drag(t.height, t.position.y, dh);
            t.width = w;
            t.height = h;
            t.position = Position { x, y };
        },
        SceneObject::HLine(h) => {
            if dw > 0 {
                h.x_end = nudge(h.x_end, dw as i64);
            } else if dw < 0 {
                h.x_start = nudge(h.x_start, dw as i64);
            }
        },
        SceneObject::Arrow(a) => {
            a.x2 = nudge(a.x2, dw as i64);
            a.y2 = nudge(a.y2, dh as i64);
        },
        _ => {},
    }
}

/// The whole-cell value of a coordinate ignoring animation: a fixed value
/// floored, an animated one at its starting point.
pub open spec fn cells_of(c: Coordinate) -> int {
    match c {
        Coordinate::Fixed(v) => crate::source::fixed_value(v as int),
        Coordinate::Animated { from, .. } => from as int,
    }
}

fn cells_val(c: &Coordinate) -> (r: u16)
    ensures
        r as int == cells_of(*c),
{
    match c {
        Coordinate::Fixed(_) => c.evaluate(0),
        Coordinate::Animated { from, .. } => *from,
    }
}

/// A fixed size made `d` cells smaller, but not below `min` thousandths;
/// animated sizes stay.
pub open spec fn shrunk(c: Coordinate, d: int, min: int) -> Coordinate {
    match c {
        Coordinate::Fixed(v) => {
            let w = v as int - d * FIXED_SCALE as int;
            Coordinate::Fixed(if w < min { min as u64 } else { w as u64 })
        },
        other => other,
    }
}

fn shrink(c: Coordinate, d: i64, min: u64) -> (r: Coordinate)
    requires
        d >= 0,
    ensures
        r == shrunk(c, d as int, min as int),
{
    match c {
        Coordinate::Fixed(v) => {
            assert(FIXED_SCALE == 1000);
            let w: i128 = v as i128 - d as i128 * 1000;
            Coordinate::Fixed(if w < min as i128 { min } else { w as u64 })
        },
        other => other,
    }
}

/// A size pulled inward by `d` cells, not below `min` whole cells: from the
/// right or bottom when `d` is positive; from the left or top when negative,
/// moving the position forward, and only while the size is above `min`.
pub open spec fn pull_in(size: Coordinate, pos: Coordinate, d: i32, min: int) -> (Coordinate, Coordinate) {
    if d > 0 {
        (shrunk(size, d as int, min * FIXED_SCALE as int), pos)
    } else if d < 0 && cells_of(size) > min {
        (shrunk(size, -(d as int), min * FIXED_SCALE as int), nudged(pos, (-(d as i64)) as i64))
    } else {
        (size, pos)
    }
}

fn pull(size: Coordinate, pos: Coordinate, d: i32, min: u16) -> (r: (Coordinate, Coordinate))
    requires
        min <= 3,
    ensures
        r == pull_in(size, pos, d, min as int),
{
    let floor: u64 = min as u64 * 1000;
    assert(FIXED_SCALE == 1000);
    if d > 0 {
        (shrink(size, d as i64, floor), pos)
    } else if d < 0 && cells_val(&size) > min {
        (shrink(size, -(d as i64), floor), nudge(pos, -(d as i64)))
    } else {
        (size, pos)
    }
}

/// `o` with an edge pulled inward by `dw` columns and `dh` rows (see
/// `pull_in`; rectangles keep at least one cell, tables three columns); a
/// line's end moves back but stays right of its start, or its start moves
/// forward while it stays left of its end; an arrow's end point moves back
/// by `(dw, dh)`.
pub open spec fn object_shrunk(o: SceneObject, dw: i32, dh: i32) -> SceneObject {
    match o {
        SceneObject::Rect(r) => {
            let (w, x) = pull_in(r.width, r.position.x, dw, 1);
            let (h, y) = pull_in(r.height, r.position.y, dh, 1);
            SceneObject::Rect(Rect { width: w, height: h, position: Position { x, y }, ..r })
        },
        SceneObject::Label(l) => {
            let (w, x) = pull_in(l.width, l.position.x, dw, 0);
            let (h, y) = pull_in(l.height, l.position.y, dh, 0);
            SceneObject::Label(Label { width: w, height: h, position: Position { x, y }, ..l })
        },
        SceneObject::Table(t) => {
            let (w, x) = pull_in(t.width, t.position.x, dw, 3);
            let (h, y) = pull_in(t.height, t.position.y, dh, 0);
            SceneObject::Table(crate::objects::Table { width: w, height: h, position: Position { x, y }, ..t })
        },
        SceneObject::HLine(h) => {
            let xs = cells_of(h.x_start);
            let xe = cells_of(h.x_end);
            if dw > 0 && xe > xs {
                SceneObject::HLine(HLine { x_end: shrunk(h.x_end, dw as int, (xs + 1) * FIXED_SCALE as int), ..h })
            } else if dw < 0 && xs + (-(dw as int)) % 65536 < xe {
                SceneObject::HLine(HLine { x_start: nudged(h.x_start, ((-(dw as int)) % 65536) as i64), ..h })
            } else {
                SceneObject::HLine(h)
            }
        },
        SceneObject::Arrow(a) => SceneObject::Arrow(Arrow {
            x2: nudged(a.x2, (-(dw as i64)) as i64),
            y2: nudged(a.y2, (-(dh as i64)) as i64),
            ..a
        }),
        other => other,
    }
}

/// Shrink an object by pulling an edge inward (see `object_shrunk`).
pub fn shrink_object(obj: &mut SceneObject, dw: i32, dh: i32)
    ensures
        *final(obj) == object_shrunk(*old(obj), dw, dh),
{
    match obj {
        SceneObject::Rect(r) => {
            let (w, x) = pull(r.width, r.position.x, dw, 1);
            let (h, y) = pull(r.height, r.position.y, dh, 1);
            r.width = w;
            r.height = h;
            r.position = Position { x, y };
        },
        SceneObject::Label(l) => {
            let (w, x) = pull(l.width, l.position.x, dw, 0);
            let (h, y) = pull(l.height, l.position.y, dh, 0);
            l.width = w;
            l.height = h;
            l.position = Position { x, y };
        },
        SceneObject::Table(t) => {
            let (w, x) = pull(t.width, t.position.x, dw, 3);
            let (h, y) = pull(t.height, t.position.y, dh, 0);
            t.width = w;
            t.height = h;
            t.position = Position { x, y };
        },
        SceneObject::HLine(h) => {
            let xs = cells_val(&h.x_start);
            let xe = cells_val(&h.x_end);
            if dw > 0 && xe > xs {
                h.x_end = shrink(h.x_end, dw as i64, (xs as u64 + 1) * 1000);
            } else if dw < 0 {
                let delta = ((-(dw as i64)) % 65536) as u32;
                if (xs as u32) + delta < xe as u32 {
                    h.x_start = nudge(h.x_start, delta as i64);
                }
            }
        },
        SceneObject::Arrow(a) => {
            a.x2 = nudge(a.x2, -(dw as i64));
            a.y2 = nudge(a.y2, -(dh as i64));
        },
        _ => {},
    }
}

} // verus!
