//! Playback state: the grid shown for the current frame of a presentation,
//! and the navigation decisions of the playback loop.
use vstd::prelude::*;
use crate::types::{Cell, CellChange, Frame, PlayablePresentation, ResolvedScene, TerminalContract, blank_cell};
use crate::renderer::{blank_grid, copy_grid, encodes, grid_view, is_diff, is_diff_of, is_full_of, is_grid, scene_grid};

verus! {

/// `g` with cell change `c` applied; a change outside the grid is ignored.
pub open spec fn apply_change(g: Seq<Seq<Cell>>, c: CellChange) -> Seq<Seq<Cell>> {
    if (c.y as int) < g.len() && g.len() > 0 && (c.x as int) < g[0].len() && (c.x as int) < g[c.y as int].len() {
        g.update(c.y as int, g[c.y as int].update(c.x as int, c.cell))
    } else {
        g
    }
}

/// `g` with the first `n` of `cs` applied in order.
pub open spec fn apply_changes(g: Seq<Seq<Cell>>, cs: Seq<CellChange>, n: nat) -> Seq<Seq<Cell>>
    decreases n,
{
    if n == 0 {
        g
    } else {
        apply_change(apply_changes(g, cs, (n - 1) as nat), cs[n - 1])
    }
}

/// The grid after frame `f` is shown on grid `g`.
pub open spec fn apply_frame_to(g: Seq<Seq<Cell>>, f: Frame) -> Seq<Seq<Cell>> {
    match f {
        Frame::Full { cells } => grid_view(cells@),
        Frame::Diff { changes } => apply_changes(g, changes@, changes@.len()),
    }
}

/// The grid shown at frame `n`: a blank `w` by `h` grid with frames `0..=n` applied.
pub open spec fn playback(frames: Seq<Frame>, w: int, h: int, n: int) -> Seq<Seq<Cell>>
    decreases n + 1,
{
    if n < 0 {
        Seq::new(h as nat, |y: int| Seq::new(w as nat, |x: int| blank_cell()))
    } else {
        apply_frame_to(playback(frames, w, h, n - 1), frames[n])
    }
}

/// Applying the first `k` changes of a diff leaves a cell as it was unless
/// one of them names it, in which case it holds the new contents.
proof fn lemma_apply_prefix(prev: Seq<Seq<Cell>>, next: Seq<Seq<Cell>>, cs: Seq<CellChange>, w: int, h: int, k: nat)
    requires
        is_grid(prev, w, h),
        is_grid(next, w, h),
        h > 0,
        is_diff(prev, next, cs),
        k <= cs.len(),
    ensures
        is_grid(apply_changes(prev, cs, k), w, h),
        forall|y: int, x: int| 0 <= y < h && 0 <= x < w ==> #[trigger] apply_changes(prev, cs, k)[y][x] == if exists|i: int| 0 <= i < k && cs[i].x == x && cs[i].y == y {
            next[y][x]
        } else {
            prev[y][x]
        },
    decreases k,
{
    if k > 0 {
        lemma_apply_prefix(prev, next, cs, w, h, (k - 1) as nat);
        let g = apply_changes(prev, cs, (k - 1) as nat);
        let c = cs[k - 1];
        assert(apply_changes(prev, cs, k) == apply_change(g, c));
        assert forall|y: int, x: int| 0 <= y < h && 0 <= x < w implies #[trigger] apply_changes(prev, cs, k)[y][x] == if exists|i: int| 0 <= i < k && cs[i].x == x && cs[i].y == y {
            next[y][x]
        } else {
            prev[y][x]
        } by {
            if c.x == x && c.y == y {
                assert(0 <= k - 1 < k && cs[k - 1].x == x && cs[k - 1].y == y);
            } else if exists|i: int| 0 <= i < k && cs[i].x == x && cs[i].y == y {
                let i = choose|i: int| 0 <= i < k && cs[i].x == x && cs[i].y == y;
                assert(i < k - 1);
            }
        }
    }
}

/// Applying a diff of `prev` and `next` to `prev` yields `next`.
pub proof fn lemma_apply_diff(prev: Seq<Seq<Cell>>, next: Seq<Seq<Cell>>, cs: Seq<CellChange>, w: int, h: int)
    requires
        is_grid(prev, w, h),
        is_grid(next, w, h),
        is_diff(prev, next, cs),
    ensures
        apply_changes(prev, cs, cs.len()) == next,
{
    if h == 0 {
        assert(cs.len() == 0) by {
            if cs.len() > 0 {
                assert((cs[0].y as int) < next.len());
            }
        }
        assert(prev =~= next);
    } else {
        lemma_apply_prefix(prev, next, cs, w, h, cs.len());
        let g = apply_changes(prev, cs, cs.len());
        assert forall|y: int| 0 <= y < h implies #[trigger] g[y] =~= next[y] by {
            assert forall|x: int| 0 <= x < w implies g[y][x] == next[y][x] by {
                if prev[y][x] != next[y][x] {
                    assert(prev[y][x] != next[y][x]);
                }
            }
        }
        assert(g =~= next);
    }
}

/// Starting from a blank grid and applying the first frame and every diff up
/// to frame `n` gives exactly the grid of scene `n` rasterized on its own.
pub proof fn lemma_playback_matches_raster(frames: Seq<Frame>, scenes: Seq<ResolvedScene>, contract: TerminalContract, n: int)
    requires
        encodes(frames, scenes, contract),
        0 <= n < frames.len(),
    ensures
        playback(frames, contract.width as int, contract.height as int, n) == scene_grid(scenes, n, contract),
    decreases n,
{
    let w = contract.width as int;
    let h = contract.height as int;
    if n == 0 {
        assert(is_full_of(frames[0], scene_grid(scenes, 0, contract)));
    } else {
        lemma_playback_matches_raster(frames, scenes, contract, n - 1);
        let prev = scene_grid(scenes, n - 1, contract);
        let next = scene_grid(scenes, n, contract);
        assert(is_diff_of(frames[n], prev, next));
        lemma_raster_is_grid(scenes, n - 1, contract);
        lemma_raster_is_grid(scenes, n, contract);
        match frames[n] {
            Frame::Diff { changes } => {
                lemma_apply_diff(prev, next, changes@, w, h);
            },
            Frame::Full { .. } => {},
        }
    }
}

/// A request from the user during playback.
#[derive(Debug, Clone, Copy, PartialEq, Eq, Structural)]
pub enum PlayerCommand {
    Next,
    Previous,
    First,
    Last,
    ToggleFullscreen,
}

/// What the terminal must redraw after a command.
#[derive(Debug, Clone, Copy, PartialEq, Eq, Structural)]
pub enum Redraw {
    /// Nothing changed.
    Nothing,
    /// Only the cells listed by the current (diff) frame changed.
    Changes,
    /// The whole grid must be drawn again.
    Whole,
    /// The fullscreen flag flipped; the grid is unchanged.
    Fullscreen,
}

/// Playback state of a presentation: the current frame and its grid.
pub struct Player {
    presentation: PlayablePresentation,
    current_frame: usize,
    grid: Vec<Vec<Cell>>,
    fullscreen: bool,
}

impl Player {
    /// The frames being played.
    pub closed spec fn frames(&self) -> Seq<Frame> {
        self.presentation.frames@
    }

    /// The terminal size of the presentation.
    pub closed spec fn contract(&self) -> TerminalContract {
        self.presentation.contract
    }

    /// The grid currently shown.
    pub closed spec fn shown(&self) -> Seq<Seq<Cell>> {
        grid_view(self.grid@)
    }

    /// The index of the current frame.
    pub closed spec fn frame_index(&self) -> int {
        self.current_frame as int
    }

    /// Whether fullscreen display was requested.
    pub closed spec fn is_fullscreen(&self) -> bool {
        self.fullscreen
    }

    /// Whether the shown grid is the one of the current frame.
    pub open spec fn in_sync(&self) -> bool {
        &&& 0 <= self.frame_index() < self.frames().len()
        &&& self.shown() == playback(
            self.frames(),
            self.contract().width as int,
            self.contract().height as int,
            self.frame_index(),
        )
    }

    /// A player positioned before the first frame, showing a blank grid of the
    /// presentation's size.
    pub fn new(presentation: PlayablePresentation) -> (r: Player)
        ensures
            r.frames() == presentation.frames@,
            r.contract() == presentation.contract,
            r.frame_index() == 0,
            !r.is_fullscreen(),
            r.shown() == playback(presentation.frames@, presentation.contract.width as int, presentation.contract.height as int, -1),
    {
        let w = presentation.contract.width as usize;
        let h = presentation.contract.height as usize;
        let grid = blank_grid(w, h);
        Player { presentation, current_frame: 0, grid, fullscreen: false }
    }

    /// Show frame `index` on top of the current grid.
    fn apply_frame(&mut self, index: usize)
        requires
            index < old(self).frames().len(),
        ensures
            final(self).shown() == apply_frame_to(old(self).shown(), old(self).frames()[index as int]),
            final(self).frames() == old(self).frames(),
            final(self).contract() == old(self).contract(),
            final(self).frame_index() == old(self).frame_index(),
            final(self).is_fullscreen() == old(self).is_fullscreen(),
    {
        match &self.presentation.frames[index] {
            Frame::Full { cells } => {
                self.grid = copy_grid(cells);
            },
            Frame::Diff { changes } => {
                let ghost g0 = grid_view(self.grid@);
                let mut i: usize = 0;
                while i < changes.len()
                    invariant
                        i <= changes@.len(),
                        grid_view(self.grid@) == apply_changes(g0, changes@, i as nat),
                        self.presentation == old(self).presentation,
                        self.current_frame == old(self).current_frame,
                        self.fullscreen == old(self).fullscreen,
                        old(self).presentation.frames@[index as int] == (Frame::Diff { changes: *changes }),
                    decreases changes@.len() - i,
                {
                    let c = changes[i];
                    let ghost g = grid_view(self.grid@);
                    let x = c.x as usize;
                    let y = c.y as usize;
                    if y < self.grid.len() && self.grid.len() > 0 && x < self.grid[0].len() && x < self.grid[y].len() {
                        self.grid[y][x] = c.cell;
                        assert(grid_view(self.grid@) =~= apply_change(g, c));
                    }
                    i = i + 1;
                }
            },
        }
    }

    /// Rebuild the grid of frame `target` from a blank grid.
    fn rebuild_grid(&mut self, target: usize)
        requires
            target < old(self).frames().len(),
        ensures
            final(self).shown() == playback(old(self).frames(), old(self).contract().width as int, old(self).contract().height as int, target as int),
            final(self).frames() == old(self).frames(),
            final(self).contract() == old(self).contract(),
            final(self).frame_index() == old(self).frame_index(),
            final(self).is_fullscreen() == old(self).is_fullscreen(),
    {
        let w = self.presentation.contract.width as usize;
        let h = self.presentation.contract.height as usize;
        let n = self.presentation.frames.len();
        self.grid = blank_grid(w, h);
        let mut i: usize = 0;
        while i <= target
            invariant
                i <= target + 1,
                target < n,
                n == self.frames().len(),
                target < self.frames().len(),
                self.frames() == old(self).frames(),
                self.contract() == old(self).contract(),
                self.frame_index() == old(self).frame_index(),
                self.is_fullscreen() == old(self).is_fullscreen(),
                self.shown() == playback(self.frames(), w as int, h as int, i - 1),
            decreases target + 1 - i,
        {
            self.apply_frame(i);
            i = i + 1;
        }
    }

    /// Show the first frame, if there is one.
    pub fn start(&mut self) -> (r: Redraw)
        ensures
            final(self).frames() == old(self).frames(),
            final(self).contract() == old(self).contract(),
            final(self).is_fullscreen() == old(self).is_fullscreen(),
            old(self).frames().len() > 0 ==> final(self).in_sync() && final(self).frame_index() == 0 && r == Redraw::Whole,
            old(self).frames().len() == 0 ==> *final(self) == *old(self) && r == Redraw::Nothing,
    {
        if self.presentation.frames.len() == 0 {
            return Redraw::Nothing;
        }
        self.current_frame = 0;
        self.rebuild_grid(0);
        Redraw::Whole
    }

    /// Carry out a navigation command and say what must be redrawn.
    pub fn handle(&mut self, cmd: PlayerCommand) -> (r: Redraw)
        requires
            old(self).in_sync(),
        ensures
            final(self).in_sync(),
            final(self).frames() == old(self).frames(),
            final(self).contract() == old(self).contract(),
            final(self).frame_index() == (match cmd {
                PlayerCommand::Next => if old(self).frame_index() + 1 < old(self).frames().len() {
                    old(self).frame_index() + 1
                } else {
                    old(self).frame_index()
                },
                PlayerCommand::Previous => if old(self).frame_index() > 0 {
                    old(self).frame_index() - 1
                } else {
                    old(self).frame_index()
                },
                PlayerCommand::First => 0,
                PlayerCommand::Last => old(self).frames().len() - 1,
                PlayerCommand::ToggleFullscreen => old(self).frame_index(),
            }),
            final(self).is_fullscreen() == (if cmd == PlayerCommand::ToggleFullscreen {
                !old(self).is_fullscreen()
            } else {
                old(self).is_fullscreen()
            }),
            r == (match cmd {
                PlayerCommand::Next => if old(self).frame_index() + 1 < old(self).frames().len() {
                    Redraw::Changes
                } else {
                    Redraw::Nothing
                },
                PlayerCommand::Previous => if old(self).frame_index() > 0 {
                    Redraw::Whole
                } else {
                    Redraw::Nothing
                },
                PlayerCommand::First => Redraw::Whole,
                PlayerCommand::Last => Redraw::Whole,
                PlayerCommand::ToggleFullscreen => Redraw::Fullscreen,
            }),
    {
        let n = self.presentation.frames.len();
        match cmd {
            PlayerCommand::Next => {
                if self.current_frame + 1 < n {
                    self.current_frame = self.current_frame + 1;
                    self.apply_frame(self.current_frame);
                    Redraw::Changes
                } else {
                    Redraw::Nothing
                }
            },
            PlayerCommand::Previous => {
                if self.current_frame > 0 {
                    self.current_frame = self.current_frame - 1;
                    self.rebuild_grid(self.current_frame);
                    Redraw::Whole
                } else {
                    Redraw::Nothing
                }
            },
            PlayerCommand::First => {
                self.current_frame = 0;
                self.rebuild_grid(0);
                Redraw::Whole
            },
            PlayerCommand::Last => {
                self.current_frame = n - 1;
                self.rebuild_grid(n - 1);
                Redraw::Whole
            },
            PlayerCommand::ToggleFullscreen => {
                self.fullscreen = !self.fullscreen;
                Redraw::Fullscreen
            },
        }
    }

    /// The presentation being played.
    pub fn presentation(&self) -> (r: &PlayablePresentation)
        ensures
            r.frames@ == self.frames(),
            r.contract == self.contract(),
    {
        &self.presentation
    }

    /// The grid currently shown.
    pub fn grid(&self) -> (r: &Vec<Vec<Cell>>)
        ensures
            grid_view(r@) == self.shown(),
    {
        &self.grid
    }

    /// The index of the current frame.
    pub fn current_frame(&self) -> (r: usize)
        ensures
            r as int == self.frame_index(),
    {
        self.current_frame
    }

    /// Whether fullscreen display was requested.
    pub fn fullscreen(&self) -> (r: bool)
        ensures
            r == self.is_fullscreen(),
    {
        self.fullscreen
    }
}

proof fn lemma_raster_is_grid(scenes: Seq<ResolvedScene>, i: int, contract: TerminalContract)
    ensures
        is_grid(scene_grid(scenes, i, contract), contract.width as int, contract.height as int),
{
}

} // verus!
