use vstd::prelude::*;

verus! {

/// What the tracer does next with a light path.
#[derive(Clone, Copy, PartialEq, Eq, Structural, Debug)]
pub enum TraceStep {
    /// The bounce budget is spent: the path carries no light.
    Black,
    /// The ray left the scene: shade it with the sky.
    Sky,
    /// The ray hit a surface: scatter it and go on with one bounce fewer.
    Scatter,
}

/// The step taken with `remaining` bounces left, where `hit` tells whether
/// the ray met the scene. Without bounces left the scene is not consulted.
pub open spec fn step_for(remaining: nat, hit: bool) -> TraceStep {
    if remaining == 0 {
        TraceStep::Black
    } else if hit {
        TraceStep::Scatter
    } else {
        TraceStep::Sky
    }
}

/// How a path traced with `depth` bounces ends, and how many times it
/// scattered, when its successive rays meet the scene as `hits` says.
pub open spec fn path_end(depth: nat, hits: Seq<bool>) -> (TraceStep, nat)
    decreases depth,
{
    if depth == 0 || hits.len() == 0 {
        (step_for(depth, false), 0)
    } else if !hits[0] {
        (TraceStep::Sky, 0)
    } else {
        let rest = path_end((depth - 1) as nat, hits.drop_first());
        (rest.0, rest.1 + 1)
    }
}

/// The bounce budget of one light path.
pub struct Bounces {
    pub remaining: usize,
}

impl Bounces {
    /// A path that may scatter `max_bounces` times.
    pub fn new(max_bounces: usize) -> (r: Bounces)
        ensures
            r.remaining == max_bounces,
    {
        Bounces { remaining: max_bounces }
    }

    /// Whether the next ray of the path must be intersected with the scene.
    pub fn needs_intersection(&self) -> (r: bool)
        ensures
            r == (self.remaining > 0),
    {
        self.remaining > 0
    }

    /// Decides the next step of the path; a scatter spends one bounce.
    pub fn step(&mut self, hit: bool) -> (r: TraceStep)
        ensures
            r == step_for(old(self).remaining as nat, hit),
            r == TraceStep::Scatter ==> final(self).remaining == old(self).remaining - 1,
            r != TraceStep::Scatter ==> final(self).remaining == old(self).remaining,
    {
        if self.remaining == 0 {
            TraceStep::Black
        } else if hit {
            self.remaining = self.remaining - 1;
            TraceStep::Scatter
        } else {
            TraceStep::Sky
        }
    }
}

/// Depth is a hard cutoff: a path scatters at most `depth` times and ends
/// black or in the sky; it ends black exactly when each of its first `depth`
/// rays hits the scene, and a path of depth zero is black whatever the scene.
pub proof fn lemma_depth_cutoff(depth: nat, hits: Seq<bool>)
    requires
        hits.len() >= depth,
    ensures
        path_end(depth, hits).1 <= depth,
        path_end(depth, hits).0 != TraceStep::Scatter,
        path_end(depth, hits).0 == TraceStep::Black <==> (forall|k: int|
            0 <= k < depth ==> #[trigger] hits[k]),
        path_end(depth, hits).0 == TraceStep::Black ==> path_end(depth, hits).1 == depth,
        depth == 0 ==> path_end(depth, hits) == (TraceStep::Black, 0nat),
    decreases depth,
{
    if depth > 0 && hits[0] {
        let rest = hits.drop_first();
        lemma_depth_cutoff((depth - 1) as nat, rest);
        assert forall|k: int| 0 <= k < depth - 1 implies #[trigger] rest[k] == hits[k + 1] by {}
        if forall|k: int| 0 <= k < depth ==> #[trigger] hits[k] {
            assert forall|k: int| 0 <= k < depth - 1 implies #[trigger] rest[k] by {
                assert(hits[k + 1]);
            }
        }
        if forall|k: int| 0 <= k < depth - 1 ==> #[trigger] rest[k] {
            assert forall|k: int| 0 <= k < depth implies #[trigger] hits[k] by {
                if k > 0 {
                    assert(rest[k - 1]);
                }
            }
        }
    } else if depth > 0 {
        assert(!hits[0]);
    }
}

} // verus!
