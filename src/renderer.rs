//! The deterministic rasterizer and differ.
//!
//! Each scene is painted onto a fixed grid: at every cell the draw operation
//! with the greatest z-order wins, and among equal z-orders the one emitted
//! last. The first grid is stored whole; every later one as the cells that
//! changed since the grid before it.
use vstd::prelude::*;
use crate::types::{Cell, CellChange, DrawOp, Frame, PlayablePresentation, ResolvedScene, TerminalContract, blank_cell};

verus! {

/// The rows of a grid, each as a sequence of cells.
pub open spec fn grid_view(g: Seq<Vec<Cell>>) -> Seq<Seq<Cell>> {
    g.map_values(|row: Vec<Cell>| row@)
}

/// Whether `g` has exactly `h` rows of `w` cells.
pub open spec fn is_grid(g: Seq<Seq<Cell>>, w: int, h: int) -> bool {
    &&& g.len() == h
    &&& forall|y: int| 0 <= y < h ==> #[trigger] g[y].len() == w
}

/// Whether `op` paints the cell at column `x`, row `y`.
pub open spec fn targets(op: DrawOp, x: int, y: int) -> bool {
    op.x as int == x && op.y as int == y
}

/// Among the first `n` operations, the index of the one that shows at `(x, y)`:
/// a later operation replaces the current one when its z-order is at least as high.
pub open spec fn winner(ops: Seq<DrawOp>, n: nat, x: int, y: int) -> Option<int>
    decreases n,
{
    if n == 0 {
        None
    } else {
        let prev = winner(ops, (n - 1) as nat, x, y);
        let k = n - 1;
        if targets(ops[k], x, y) && (prev is None || ops[k].z_order >= ops[prev->0].z_order) {
            Some(k)
        } else {
            prev
        }
    }
}

/// The cell shown at `(x, y)` once all of `ops` are painted.
pub open spec fn painted(ops: Seq<DrawOp>, x: int, y: int) -> Cell {
    match winner(ops, ops.len(), x, y) {
        Some(k) => Cell { ch: ops[k].ch, style: ops[k].style },
        None => blank_cell(),
    }
}

/// The `w` by `h` grid that `ops` paint.
pub open spec fn raster(ops: Seq<DrawOp>, w: int, h: int) -> Seq<Seq<Cell>> {
    Seq::new(h as nat, |y: int| Seq::new(w as nat, |x: int| painted(ops, x, y)))
}

/// Whether change `a` lies before change `b` in row-major order.
pub open spec fn before(a: CellChange, b: CellChange) -> bool {
    a.y < b.y || (a.y == b.y && a.x < b.x)
}

/// Whether `changes` lists, in row-major order and once each, exactly the
/// cells in which `next` differs from `prev`, with their new contents.
pub open spec fn is_diff(prev: Seq<Seq<Cell>>, next: Seq<Seq<Cell>>, changes: Seq<CellChange>) -> bool {
    &&& forall|i: int| 0 <= i < changes.len() ==> {
        let c = #[trigger] changes[i];
        &&& (c.y as int) < next.len()
        &&& (c.x as int) < next[c.y as int].len()
        &&& prev[c.y as int][c.x as int] != next[c.y as int][c.x as int]
        &&& c.cell == next[c.y as int][c.x as int]
    }
    &&& forall|y: int, x: int|
        0 <= y < next.len() && 0 <= x < next[y].len() && #[trigger] prev[y][x] != next[y][x]
            ==> exists|i: int| 0 <= i < changes.len() && changes[i].x == x && changes[i].y == y
    &&& forall|i: int, j: int| 0 <= i < j < changes.len() ==> before(changes[i], changes[j])
}

/// Whether frame `f` stores the whole grid `g`.
pub open spec fn is_full_of(f: Frame, g: Seq<Seq<Cell>>) -> bool {
    match f {
        Frame::Full { cells } => grid_view(cells@) == g,
        Frame::Diff { .. } => false,
    }
}

/// Whether frame `f` stores the change from `prev` to `next`.
pub open spec fn is_diff_of(f: Frame, prev: Seq<Seq<Cell>>, next: Seq<Seq<Cell>>) -> bool {
    match f {
        Frame::Full { .. } => false,
        Frame::Diff { changes } => is_diff(prev, next, changes@),
    }
}

/// The grid of scene `i` under `contract`.
pub open spec fn scene_grid(scenes: Seq<ResolvedScene>, i: int, contract: TerminalContract) -> Seq<Seq<Cell>> {
    raster(scenes[i].ops@, contract.width as int, contract.height as int)
}

/// Whether `frames` encode the rasterized `scenes`: the first whole, each later
/// one as the diff against the grid before it.
pub open spec fn encodes(frames: Seq<Frame>, scenes: Seq<ResolvedScene>, contract: TerminalContract) -> bool {
    &&& frames.len() == scenes.len()
    &&& forall|i: int| 0 <= i < frames.len() ==> {
        if i == 0 {
            is_full_of(#[trigger] frames[i], scene_grid(scenes, 0, contract))
        } else {
            is_diff_of(frames[i], scene_grid(scenes, i - 1, contract), scene_grid(scenes, i, contract))
        }
    }
}

/// Among the first `n` operations, the one that shows at `(x, y)` targets that
/// cell, has the greatest z-order of all that do, and every later one that
/// targets it has a strictly lower z-order; no operation shows only where none
/// targets the cell.
pub proof fn lemma_winner_is_top(ops: Seq<DrawOp>, n: nat, x: int, y: int)
    requires
        n <= ops.len(),
    ensures
        winner(ops, n, x, y) is None <==> (forall|j: int| 0 <= j < n ==> !targets(#[trigger] ops[j], x, y)),
        winner(ops, n, x, y) matches Some(k) ==> {
            &&& 0 <= k < n
            &&& targets(ops[k], x, y)
            &&& forall|j: int| 0 <= j < n && #[trigger] targets(ops[j], x, y) ==> ops[j].z_order <= ops[k].z_order
            &&& forall|j: int| k < j < n && #[trigger] targets(ops[j], x, y) ==> ops[j].z_order < ops[k].z_order
        },
    decreases n,
{
    if n > 0 {
        lemma_winner_is_top(ops, (n - 1) as nat, x, y);
    }
}

/// Of two operations on the same cell with equal z-order, the earlier one
/// never shows: the later one, or one with a higher z-order, paints over it.
pub proof fn lemma_equal_z_later_wins(ops: Seq<DrawOp>, i: int, j: int, x: int, y: int)
    requires
        0 <= i < j < ops.len(),
        targets(ops[i], x, y),
        targets(ops[j], x, y),
        ops[i].z_order == ops[j].z_order,
    ensures
        winner(ops, ops.len(), x, y) is Some,
        winner(ops, ops.len(), x, y) != Some(i),
        winner(ops, ops.len(), x, y)->0 >= j || ops[winner(ops, ops.len(), x, y)->0].z_order > ops[j].z_order,
{
    lemma_winner_is_top(ops, ops.len(), x, y);
}

/// When exactly two operations paint an in-grid cell and they share a
/// z-order, the rasterized cell is the one emitted later.
pub proof fn lemma_later_of_two_wins(ops: Seq<DrawOp>, i: int, j: int, x: int, y: int, w: int, h: int)
    requires
        0 <= i < j < ops.len(),
        0 <= x < w,
        0 <= y < h,
        targets(ops[i], x, y),
        targets(ops[j], x, y),
        ops[i].z_order == ops[j].z_order,
        forall|k: int| 0 <= k < ops.len() && #[trigger] targets(ops[k], x, y) ==> k == i || k == j,
    ensures
        raster(ops, w, h)[y][x] == (Cell { ch: ops[j].ch, style: ops[j].style }),
{
    lemma_winner_is_top(ops, ops.len(), x, y);
    lemma_equal_z_later_wins(ops, i, j, x, y);
}

/// A `w` by `h` grid of blank cells.
pub fn blank_grid(w: usize, h: usize) -> (g: Vec<Vec<Cell>>)
    ensures
        grid_view(g@) == Seq::new(h as nat, |y: int| Seq::new(w as nat, |x: int| blank_cell())),
{
    let mut g: Vec<Vec<Cell>> = Vec::new();
    let mut y: usize = 0;
    while y < h
        invariant
            y <= h,
            g@.len() == y,
            forall|j: int| 0 <= j < y ==> (#[trigger] g@[j])@ == Seq::new(w as nat, |x: int| blank_cell()),
        decreases h - y,
    {
        let mut row: Vec<Cell> = Vec::new();
        let mut x: usize = 0;
        while x < w
            invariant
                x <= w,
                row@ == Seq::new(x as nat, |i: int| blank_cell()),
            decreases w - x,
        {
            row.push(Cell::blank());
            x = x + 1;
            assert(row@ =~= Seq::new(x as nat, |i: int| blank_cell()));
        }
        g.push(row);
        y = y + 1;
    }
    assert(grid_view(g@) =~= Seq::new(h as nat, |y: int| Seq::new(w as nat, |x: int| blank_cell())));
    g
}

/// Whether `c` occurs in `cs`.
pub open spec fn listed(cs: Seq<CellChange>, c: CellChange) -> bool {
    exists|i: int| 0 <= i < cs.len() && cs[i] == c
}

/// Whether `cs` is strictly increasing in row-major order.
pub open spec fn sorted(cs: Seq<CellChange>) -> bool {
    forall|i: int, j: int| 0 <= i < j < cs.len() ==> before(cs[i], cs[j])
}

/// Two strictly sorted change lists with the same members are equal.
proof fn lemma_sorted_same_members(a: Seq<CellChange>, b: Seq<CellChange>)
    requires
        sorted(a),
        sorted(b),
        forall|c: CellChange| #[trigger] listed(a, c) <==> listed(b, c),
    ensures
        a == b,
    decreases a.len() + b.len(),
{
    if a.len() == 0 || b.len() == 0 {
        if a.len() > 0 {
            assert(listed(a, a[0]));
        }
        if b.len() > 0 {
            assert(listed(b, b[0]));
            assert(listed(a, b[0]) == listed(b, b[0]));
        }
        assert(a =~= b);
    } else {
        assert(listed(a, a[0]));
        let j = choose|j: int| 0 <= j < b.len() && b[j] == a[0];
        assert(listed(b, b[0]));
        assert(listed(a, b[0]));
        let i = choose|i: int| 0 <= i < a.len() && a[i] == b[0];
        if j > 0 {
            assert(before(b[0], b[j]));
            if i > 0 {
                assert(before(a[0], a[i]));
            }
            assert(false);
        }
        assert(a[0] == b[0]);
        let ta = a.drop_first();
        let tb = b.drop_first();
        assert forall|c: CellChange| #[trigger] listed(ta, c) <==> listed(tb, c) by {
            if listed(ta, c) {
                let k = choose|k: int| 0 <= k < ta.len() && ta[k] == c;
                assert(a[k + 1] == c);
                assert(listed(a, c));
                assert(listed(b, c));
                let m = choose|m: int| 0 <= m < b.len() && b[m] == c;
                assert(before(a[0], a[k + 1]));
                assert(m != 0);
                assert(tb[m - 1] == c);
            }
            if listed(tb, c) {
                let k = choose|k: int| 0 <= k < tb.len() && tb[k] == c;
                assert(b[k + 1] == c);
                assert(listed(b, c));
                assert(listed(a, c));
                let m = choose|m: int| 0 <= m < a.len() && a[m] == c;
                assert(before(b[0], b[k + 1]));
                assert(m != 0);
                assert(ta[m - 1] == c);
            }
        }
        lemma_sorted_same_members(ta, tb);
        assert(a =~= seq![a[0]] + ta);
        assert(b =~= seq![b[0]] + tb);
    }
}

/// A diff between two grids is unique: it is determined by the grids alone.
pub proof fn lemma_diff_unique(prev: Seq<Seq<Cell>>, next: Seq<Seq<Cell>>, a: Seq<CellChange>, b: Seq<CellChange>)
    requires
        is_diff(prev, next, a),
        is_diff(prev, next, b),
    ensures
        a == b,
{
    assert forall|c: CellChange| #[trigger] listed(a, c) implies listed(b, c) by {
        let i = choose|i: int| 0 <= i < a.len() && a[i] == c;
        let (y, x) = (c.y as int, c.x as int);
        assert(prev[y][x] != next[y][x]);
        let j = choose|j: int| 0 <= j < b.len() && b[j].x == x && b[j].y == y;
        assert(b[j] == c);
    }
    assert forall|c: CellChange| #[trigger] listed(b, c) implies listed(a, c) by {
        let i = choose|i: int| 0 <= i < b.len() && b[i] == c;
        let (y, x) = (c.y as int, c.x as int);
        assert(prev[y][x] != next[y][x]);
        let j = choose|j: int| 0 <= j < a.len() && a[j].x == x && a[j].y == y;
        assert(a[j] == c);
    }
    lemma_sorted_same_members(a, b);
}

/// The frame sequence that encodes a list of scenes is unique: two encodings
/// of scenes with the same operations are equal frame by frame.
pub proof fn lemma_encoding_unique(f1: Seq<Frame>, f2: Seq<Frame>, s1: Seq<ResolvedScene>, s2: Seq<ResolvedScene>, contract: TerminalContract)
    requires
        encodes(f1, s1, contract),
        encodes(f2, s2, contract),
        s1.len() == s2.len(),
        forall|i: int| 0 <= i < s1.len() ==> (#[trigger] s1[i]).ops@ == s2[i].ops@,
    ensures
        f1.len() == f2.len(),
        forall|i: int| 0 <= i < f1.len() ==> same_frame(#[trigger] f1[i], f2[i]),
{
    assert forall|i: int| 0 <= i < f1.len() implies same_frame(#[trigger] f1[i], f2[i]) by {
        assert(s1[i].ops@ == s2[i].ops@);
        if i == 0 {
            assert(is_full_of(f1[0], scene_grid(s1, 0, contract)));
            assert(is_full_of(f2[0], scene_grid(s2, 0, contract)));
        } else {
            assert(s1[i - 1].ops@ == s2[i - 1].ops@);
            assert(is_diff_of(f1[i], scene_grid(s1, i - 1, contract), scene_grid(s1, i, contract)));
            assert(is_diff_of(f2[i], scene_grid(s2, i - 1, contract), scene_grid(s2, i, contract)));
            match (f1[i], f2[i]) {
                (Frame::Diff { changes: a }, Frame::Diff { changes: b }) => {
                    lemma_diff_unique(scene_grid(s1, i - 1, contract), scene_grid(s1, i, contract), a@, b@);
                },
                _ => {},
            }
        }
    }
}

/// Whether two frames hold the same content.
pub open spec fn same_frame(a: Frame, b: Frame) -> bool {
    match (a, b) {
        (Frame::Full { cells: x }, Frame::Full { cells: y }) => grid_view(x@) == grid_view(y@),
        (Frame::Diff { changes: x }, Frame::Diff { changes: y }) => x@ == y@,
        _ => false,
    }
}

/// The first frame of a rendered, non-empty presentation is stored whole.
pub proof fn lemma_first_frame_full(frames: Seq<Frame>, scenes: Seq<ResolvedScene>, contract: TerminalContract)
    requires
        encodes(frames, scenes, contract),
        scenes.len() > 0,
    ensures
        frames[0] is Full,
{
    assert(is_full_of(frames[0], scene_grid(scenes, 0, contract)));
}

/// The renderer: rasterizes scenes and encodes them as playable frames.
pub struct Renderer;

impl Renderer {
    /// Render resolved scenes into a playable presentation: the first frame is
    /// stored whole, every later one as its diff against the previous grid.
    pub fn render(scenes: &[ResolvedScene], contract: TerminalContract) -> (r: PlayablePresentation)
        ensures
            r.contract == contract,
            r.markers@.len() == 0,
            encodes(r.frames@, scenes@, contract),
    {
        let mut frames: Vec<Frame> = Vec::new();
        let mut prev: Vec<Vec<Cell>> = Vec::new();
        let mut i: usize = 0;
        while i < scenes.len()
            invariant
                i <= scenes@.len(),
                frames@.len() == i,
                encodes(frames@, scenes@.subrange(0, i as int), contract),
                i > 0 ==> grid_view(prev@) == scene_grid(scenes@, i - 1, contract),
            decreases scenes@.len() - i,
        {
            let grid = Self::rasterize(&scenes[i], &contract);
            let ghost g = scene_grid(scenes@, i as int, contract);
            proof {
                assert(grid_view(grid@).len() == grid@.len());
                assert forall|yy: int| 0 <= yy < grid@.len() implies (#[trigger] grid@[yy])@.len() == contract.width as int by {
                    assert(grid_view(grid@)[yy] == grid@[yy]@);
                }
                if i > 0 {
                    assert(grid_view(prev@).len() == prev@.len());
                    assert forall|yy: int| 0 <= yy < prev@.len() implies (#[trigger] prev@[yy])@.len() == contract.width as int by {
                        assert(grid_view(prev@)[yy] == prev@[yy]@);
                    }
                }
            }
            let frame = if i == 0 {
                Frame::Full { cells: copy_grid(&grid) }
            } else {
                Frame::Diff { changes: Self::diff(&prev, &grid) }
            };
            frames.push(frame);
            prev = grid;
            i = i + 1;
            assert forall|k: int| 0 <= k < i implies
                scene_grid(#[trigger] scenes@.subrange(0, i as int), k, contract)
                    == scene_grid(scenes@, k, contract) by {}
            assert forall|k: int| 0 <= k < i - 1 implies
                scene_grid(#[trigger] scenes@.subrange(0, i - 1), k, contract)
                    == scene_grid(scenes@, k, contract) by {}
        }
        assert(scenes@.subrange(0, i as int) =~= scenes@);
        PlayablePresentation { contract, frames, markers: Vec::new() }
    }

    /// Paint one scene onto a grid of the contract's size.
    pub fn rasterize(scene: &ResolvedScene, contract: &TerminalContract) -> (g: Vec<Vec<Cell>>)
        ensures
            grid_view(g@) == raster(scene.ops@, contract.width as int, contract.height as int),
    {
        let w = contract.width as usize;
        let h = contract.height as usize;
        let ops = &scene.ops;
        let mut top: Vec<Vec<Option<i32>>> = Vec::new();
        let mut y: usize = 0;
        while y < h
            invariant
                y <= h,
                top@.len() == y,
                forall|j: int| 0 <= j < y ==> (#[trigger] top@[j])@ == Seq::new(w as nat, |x: int| None::<i32>),
            decreases h - y,
        {
            let mut row: Vec<Option<i32>> = Vec::new();
            let mut x: usize = 0;
            while x < w
                invariant
                    x <= w,
                    row@ == Seq::new(x as nat, |i: int| None::<i32>),
                decreases w - x,
            {
                row.push(None);
                x = x + 1;
                assert(row@ =~= Seq::new(x as nat, |i: int| None::<i32>));
            }
            top.push(row);
            y = y + 1;
        }
        let mut grid = blank_grid(w, h);
        proof {
            assert(grid_view(grid@).len() == grid@.len());
            assert forall|yy: int| 0 <= yy < h implies (#[trigger] grid@[yy])@.len() == w by {
                assert(grid_view(grid@)[yy] == grid@[yy]@);
            }
            assert forall|yy: int, xx: int| 0 <= yy < h && 0 <= xx < w implies
                (#[trigger] grid@[yy]@[xx]) == blank_cell() by {
                assert(grid_view(grid@)[yy] == grid@[yy]@);
            }
        }
        let mut i: usize = 0;
        while i < ops.len()
            invariant
                i <= ops@.len(),
                grid@.len() == h,
                top@.len() == h,
                forall|yy: int| 0 <= yy < h ==> (#[trigger] grid@[yy])@.len() == w,
                forall|yy: int| 0 <= yy < h ==> (#[trigger] top@[yy])@.len() == w,
                forall|yy: int, xx: int| 0 <= yy < h && 0 <= xx < w ==> {
                    let win = winner(ops@, i as nat, xx, yy);
                    &&& (#[trigger] grid@[yy]@[xx]) == (match win {
                        Some(k) => Cell { ch: ops@[k].ch, style: ops@[k].style },
                        None => blank_cell(),
                    })
                    &&& top@[yy]@[xx] == (match win {
                        Some(k) => Some(ops@[k].z_order),
                        None => None,
                    })
                    &&& (win is Some ==> 0 <= win->0 < i)
                },
            decreases ops@.len() - i,
        {
            let op = ops[i];
            let ox = op.x as usize;
            let oy = op.y as usize;
            if ox < w && oy < h {
                let cur = top[oy][ox];
                let wins = match cur {
                    None => true,
                    Some(z) => op.z_order >= z,
                };
                if wins {
                    grid[oy][ox] = Cell { ch: op.ch, style: op.style };
                    top[oy][ox] = Some(op.z_order);
                }
            }
            i = i + 1;
        }
        assert(grid_view(grid@) =~= raster(ops@, w as int, h as int)) by {
            assert forall|yy: int| 0 <= yy < h implies grid_view(grid@)[yy] =~= raster(ops@, w as int, h as int)[yy] by {}
        }
        grid
    }

    /// The cells in which `next` differs from `prev`, in row-major order; the
    /// two grids have the same shape, addressable by `u16` coordinates.
    pub fn diff(prev: &Vec<Vec<Cell>>, next: &Vec<Vec<Cell>>) -> (changes: Vec<CellChange>)
        requires
            prev@.len() == next@.len(),
            next@.len() <= u16::MAX + 1,
            forall|y: int| 0 <= y < next@.len() ==> (#[trigger] prev@[y])@.len() == next@[y]@.len(),
            forall|y: int| 0 <= y < next@.len() ==> (#[trigger] next@[y])@.len() <= u16::MAX + 1,
        ensures
            is_diff(grid_view(prev@), grid_view(next@), changes@),
    {
        let ghost pv = grid_view(prev@);
        let ghost nv = grid_view(next@);
        let mut changes: Vec<CellChange> = Vec::new();
        let mut y: usize = 0;
        while y < next.len()
            invariant
                y <= next@.len(),
                prev@.len() == next@.len(),
                next@.len() <= u16::MAX + 1,
                pv == grid_view(prev@),
                nv == grid_view(next@),
                forall|yy: int| 0 <= yy < next@.len() ==> (#[trigger] prev@[yy])@.len() == next@[yy]@.len(),
                forall|yy: int| 0 <= yy < next@.len() ==> (#[trigger] next@[yy])@.len() <= u16::MAX + 1,
                forall|k: int| 0 <= k < changes@.len() ==> {
                    let c = #[trigger] changes@[k];
                    &&& (c.y as int) < y
                    &&& (c.x as int) < nv[c.y as int].len()
                    &&& pv[c.y as int][c.x as int] != nv[c.y as int][c.x as int]
                    &&& c.cell == nv[c.y as int][c.x as int]
                },
                forall|yy: int, xx: int|
                    0 <= yy < y && 0 <= xx < nv[yy].len() && #[trigger] pv[yy][xx] != nv[yy][xx]
                        ==> exists|k: int| 0 <= k < changes@.len() && changes@[k].x == xx && changes@[k].y == yy,
                forall|a: int, b: int| 0 <= a < b < changes@.len() ==> before(changes@[a], changes@[b]),
            decreases next@.len() - y,
        {
            let prow = &prev[y];
            let nrow = &next[y];
            let mut x: usize = 0;
            while x < nrow.len()
                invariant
                    y < next@.len(),
                    x <= nrow@.len(),
                    prev@.len() == next@.len(),
                    next@.len() <= u16::MAX + 1,
                    nrow@.len() <= u16::MAX + 1,
                    pv == grid_view(prev@),
                    nv == grid_view(next@),
                    *prow == prev@[y as int],
                    *nrow == next@[y as int],
                    prow@.len() == nrow@.len(),
                    forall|k: int| 0 <= k < changes@.len() ==> {
                        let c = #[trigger] changes@[k];
                        &&& ((c.y as int) < y || (c.y as int == y && (c.x as int) < x))
                        &&& (c.x as int) < nv[c.y as int].len()
                        &&& pv[c.y as int][c.x as int] != nv[c.y as int][c.x as int]
                        &&& c.cell == nv[c.y as int][c.x as int]
                    },
                    forall|yy: int, xx: int|
                        ((0 <= yy < y && 0 <= xx < nv[yy].len()) || (yy == y && 0 <= xx < x))
                            && #[trigger] pv[yy][xx] != nv[yy][xx]
                            ==> exists|k: int| 0 <= k < changes@.len() && changes@[k].x == xx && changes@[k].y == yy,
                    forall|a: int, b: int| 0 <= a < b < changes@.len() ==> before(changes@[a], changes@[b]),
                decreases nrow@.len() - x,
            {
                let pc = prow[x];
                let nc = nrow[x];
                if pc != nc {
                    let c = CellChange { x: x as u16, y: y as u16, cell: nc };
                    let ghost old_changes = changes@;
                    changes.push(c);
                    assert forall|yy: int, xx: int|
                        ((0 <= yy < y && 0 <= xx < nv[yy].len()) || (yy == y && 0 <= xx < x + 1))
                            && #[trigger] pv[yy][xx] != nv[yy][xx]
                            implies exists|k: int| 0 <= k < changes@.len() && changes@[k].x == xx && changes@[k].y == yy by {
                        if yy == y && xx == x {
                            assert(changes@[old_changes.len() as int] == c);
                        } else {
                            let k = choose|k: int| 0 <= k < old_changes.len() && old_changes[k].x == xx && old_changes[k].y == yy;
                            assert(changes@[k] == old_changes[k]);
                        }
                    }
                }
                x = x + 1;
            }
            y = y + 1;
        }
        changes
    }
}

/// A copy of a grid, cell for cell.
pub fn copy_grid(g: &Vec<Vec<Cell>>) -> (r: Vec<Vec<Cell>>)
        ensures
            grid_view(r@) == grid_view(g@),
    {
        let mut r: Vec<Vec<Cell>> = Vec::new();
        let mut y: usize = 0;
        while y < g.len()
            invariant
                y <= g@.len(),
                r@.len() == y,
                forall|j: int| 0 <= j < y ==> (#[trigger] r@[j])@ == g@[j]@,
            decreases g@.len() - y,
        {
            let src = &g[y];
            let mut row: Vec<Cell> = Vec::new();
            let mut x: usize = 0;
            while x < src.len()
                invariant
                    x <= src@.len(),
                    row@ == src@.subrange(0, x as int),
                decreases src@.len() - x,
            {
                row.push(src[x]);
                x = x + 1;
                assert(row@ =~= src@.subrange(0, x as int));
            }
            assert(row@ =~= src@);
            r.push(row);
            y = y + 1;
        }
        assert(grid_view(r@) =~= grid_view(g@));
        r
}

} // verus!
