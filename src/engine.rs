//! The compiler from an authored presentation to per-frame draw instructions.
use vstd::prelude::*;
use crate::types::{DrawOp, ResolvedScene};
use crate::source::{SceneObject, SourcePresentation};
use crate::objects::Resolve;
use crate::renderer::{encodes, lemma_encoding_unique, same_frame};
use crate::types::{Frame, TerminalContract};

verus! {

/// The draw operations of the first `n` objects at `frame`, in object order.
pub open spec fn objects_ops(objs: Seq<SceneObject>, n: int, frame: int) -> Seq<DrawOp>
    decreases n,
{
    if n <= 0 {
        Seq::empty()
    } else {
        objects_ops(objs, n - 1, frame) + objs[n - 1].drawn(frame)
    }
}

/// The draw operations of all objects at `frame`.
pub open spec fn frame_ops(objs: Seq<SceneObject>, frame: int) -> Seq<DrawOp> {
    objects_ops(objs, objs.len() as int, frame)
}

/// Whether `scenes` is the compilation of `source`: one scene per frame, each
/// holding every object's operations for that frame in object order.
pub open spec fn compiled(source: SourcePresentation, scenes: Seq<ResolvedScene>) -> bool {
    &&& scenes.len() == source.frame_count
    &&& forall|f: int| 0 <= f < scenes.len() ==> {
        &&& (#[trigger] scenes[f]).width == source.width
        &&& scenes[f].height == source.height
        &&& scenes[f].ops@ == frame_ops(source.objects@, f)
    }
}

/// The compiler.
pub struct Engine;

impl Engine {
    /// Compile a presentation into one resolved scene per frame.
    pub fn compile(source: &SourcePresentation) -> (r: Vec<ResolvedScene>)
        ensures
            compiled(*source, r@),
    {
        let mut scenes: Vec<ResolvedScene> = Vec::new();
        let mut f: usize = 0;
        while f < source.frame_count
            invariant
                f <= source.frame_count,
                scenes@.len() == f,
                forall|k: int| 0 <= k < f ==> {
                    &&& (#[trigger] scenes@[k]).width == source.width
                    &&& scenes@[k].height == source.height
                    &&& scenes@[k].ops@ == frame_ops(source.objects@, k)
                },
            decreases source.frame_count - f,
        {
            scenes.push(Self::resolve_frame(source, f));
            f = f + 1;
        }
        scenes
    }

    fn resolve_frame(source: &SourcePresentation, frame: usize) -> (r: ResolvedScene)
        ensures
            r.width == source.width,
            r.height == source.height,
            r.ops@ == frame_ops(source.objects@, frame as int),
    {
        let mut ops: Vec<DrawOp> = Vec::new();
        let mut i: usize = 0;
        while i < source.objects.len()
            invariant
                i <= source.objects@.len(),
                ops@ == objects_ops(source.objects@, i as int, frame as int),
            decreases source.objects@.len() - i,
        {
            source.objects[i].resolve(frame, &mut ops);
            i = i + 1;
        }
        ResolvedScene { width: source.width, height: source.height, ops }
    }
}

/// An object contributes nothing to a frame outside its frame range: the
/// operations of a frame are those of the objects visible in it.
pub proof fn lemma_frame_skips_hidden(objs: Seq<SceneObject>, n: int, frame: int, k: int)
    requires
        0 <= k < n <= objs.len(),
        !objs[k].frame_range().holds(frame),
    ensures
        objects_ops(objs, n, frame) == objects_ops(objs, k, frame) + objects_ops(objs.subrange(k + 1, objs.len() as int), n - k - 1, frame),
    decreases n,
{
    let rest = objs.subrange(k + 1, objs.len() as int);
    if n == k + 1 {
        assert(objects_ops(rest, 0, frame) =~= Seq::empty());
        assert(objs[k].drawn(frame) =~= Seq::empty());
        assert(objects_ops(objs, n, frame) =~= objects_ops(objs, k, frame) + objects_ops(rest, 0, frame));
    } else {
        lemma_frame_skips_hidden(objs, n - 1, frame, k);
        assert(rest[n - k - 2] == objs[n - 1]);
        assert(objects_ops(objs, n, frame) =~= objects_ops(objs, k, frame) + objects_ops(rest, n - k - 1, frame));
    }
}

/// Compiling and then rendering is a function of the source alone: two runs
/// on the same presentation give scenes with the same operations and frames
/// with the same contents.
pub proof fn lemma_pipeline_deterministic(
    source: SourcePresentation,
    scenes1: Seq<ResolvedScene>,
    scenes2: Seq<ResolvedScene>,
    frames1: Seq<Frame>,
    frames2: Seq<Frame>,
    contract: TerminalContract,
)
    requires
        compiled(source, scenes1),
        compiled(source, scenes2),
        encodes(frames1, scenes1, contract),
        encodes(frames2, scenes2, contract),
    ensures
        scenes1.len() == scenes2.len(),
        forall|i: int| 0 <= i < scenes1.len() ==> {
            &&& (#[trigger] scenes1[i]).ops@ == scenes2[i].ops@
            &&& scenes1[i].width == scenes2[i].width
            &&& scenes1[i].height == scenes2[i].height
        },
        frames1.len() == frames2.len(),
        forall|i: int| 0 <= i < frames1.len() ==> same_frame(#[trigger] frames1[i], frames2[i]),
{
    assert forall|i: int| 0 <= i < scenes1.len() implies (#[trigger] scenes1[i]).ops@ == scenes2[i].ops@ by {
        assert(scenes1[i].ops@ == frame_ops(source.objects@, i));
        assert(scenes2[i].ops@ == frame_ops(source.objects@, i));
    }
    lemma_encoding_unique(frames1, frames2, scenes1, scenes2, contract);
}

} // verus!
