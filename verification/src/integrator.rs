//! The bounce budget of one light path and the way the path ends.
//!
//! A path starts with a depth, the number of surface queries it may still make.
//! Each query reports a [`Bounce`]. A miss ends the path in the sky, an
//! absorption ends it in darkness, a scattering spends one unit of depth. A path
//! whose depth is spent is dark, whatever the scene holds.
//!
//! A surface query looks for the nearest hit along the ray from a little way
//! off its origin, so that a ray does not hit the surface it has just left, and
//! as far as the ray goes.

use vstd::prelude::*;
use crate::bits::{spec_rank, INFINITY};
use crate::hittable::{is_nearest, nearest_hit, nothing_hit, Hit, Roots};

verus! {

/// What one surface query did to the ray of a path.
#[derive(Clone, Copy, Debug, PartialEq, Eq, Structural)]
pub enum Bounce {
    /// The ray met no surface.
    Miss,
    /// The ray met a surface whose material swallowed it.
    Absorbed,
    /// The ray met a surface whose material sent it on.
    Scattered,
}

/// The light that a finished path carries, before the attenuations gathered
/// along the path are applied to it.
#[derive(Clone, Copy, Debug, PartialEq, Eq, Structural)]
pub enum Radiance {
    /// No light.
    Black,
    /// The background gradient in the direction of the last ray.
    Sky,
}

/// A light path: under way with some depth left, or finished.
#[derive(Clone, Copy, Debug, PartialEq, Eq, Structural)]
pub enum Trace {
    /// The next surface query is due; `depth` queries may still be made.
    Continue { depth: u32 },
    /// The path is finished and carries this light.
    Done(Radiance),
}

/// The bits of the smallest ray parameter at which a surface query takes a
/// hit: the single-precision number nearest to one thousandth.
pub const NEAREST: u32 = 0x3a83_126f;

/// The rank of [`NEAREST`].
pub const NEAREST_RANK: i64 = 0x3a83_126f;

/// The rank of positive infinity, the largest ray parameter.
pub const FARTHEST_RANK: i64 = 0x7f80_0000;

/// The light of a path of the given depth, as the recursive definition gives
/// it: `bounces` holds the outcomes of the surface queries in the order in which
/// they are made. `None` where the outcomes run out before the path ends.
pub open spec fn ray_outcome(depth: nat, bounces: Seq<Bounce>) -> Option<Radiance>
    decreases depth,
{
    if depth == 0 {
        Some(Radiance::Black)
    } else if bounces.len() == 0 {
        None
    } else {
        match bounces[0] {
            Bounce::Miss => Some(Radiance::Sky),
            Bounce::Absorbed => Some(Radiance::Black),
            Bounce::Scattered => ray_outcome((depth - 1) as nat, bounces.drop_first()),
        }
    }
}

impl Trace {
    /// The path that starts with `depth` queries to spend.
    pub open spec fn spec_start(depth: u32) -> Trace {
        if depth == 0 {
            Trace::Done(Radiance::Black)
        } else {
            Trace::Continue { depth }
        }
    }

    /// The path after one more surface query has reported `bounce`.
    pub open spec fn spec_advance(self, bounce: Bounce) -> Trace {
        match self {
            Trace::Done(light) => Trace::Done(light),
            Trace::Continue { depth } => if depth == 0 {
                Trace::Done(Radiance::Black)
            } else {
                match bounce {
                    Bounce::Miss => Trace::Done(Radiance::Sky),
                    Bounce::Absorbed => Trace::Done(Radiance::Black),
                    Bounce::Scattered => Trace::spec_start((depth - 1) as u32),
                }
            },
        }
    }

    /// The path after the surface queries have reported `bounces`, one after
    /// the other.
    pub open spec fn spec_run(self, bounces: Seq<Bounce>) -> Trace
        decreases bounces.len(),
    {
        if bounces.len() == 0 {
            self
        } else {
            self.spec_advance(bounces[0]).spec_run(bounces.drop_first())
        }
    }

    /// Whether the path is finished.
    pub open spec fn spec_is_done(self) -> bool {
        self is Done
    }

    /// Starts a path with `depth` queries to spend. With no depth the path is
    /// finished at once and dark: no surface is queried.
    pub fn start(depth: u32) -> (trace: Trace)
        ensures
            trace == Trace::spec_start(depth),
            depth == 0 ==> trace == Trace::Done(Radiance::Black),
    {
        if depth == 0 {
            Trace::Done(Radiance::Black)
        } else {
            Trace::Continue { depth }
        }
    }

    /// Takes the outcome of the surface query that was due. A finished path
    /// stays as it is.
    pub fn advance(self, bounce: Bounce) -> (trace: Trace)
        ensures
            trace == self.spec_advance(bounce),
    {
        match self {
            Trace::Done(light) => Trace::Done(light),
            Trace::Continue { depth } => {
                if depth == 0 {
                    Trace::Done(Radiance::Black)
                } else {
                    match bounce {
                        Bounce::Miss => Trace::Done(Radiance::Sky),
                        Bounce::Absorbed => Trace::Done(Radiance::Black),
                        Bounce::Scattered => Trace::start(depth - 1),
                    }
                }
            },
        }
    }

    /// Whether the path is finished.
    #[verifier::when_used_as_spec(spec_is_done)]
    pub fn is_done(self) -> (done: bool)
        ensures
            done == self.spec_is_done(),
    {
        match self {
            Trace::Done(_) => true,
            Trace::Continue { .. } => false,
        }
    }
}

/// The hit that a surface query finds: the nearest hit of the scene at a
/// parameter from [`NEAREST`] up to infinity. `candidates` holds, for each
/// sphere of the scene in order, the crossings of the ray's line with it.
pub fn surface_query(candidates: &Vec<Option<Roots>>) -> (found: Option<Hit>)
    ensures
        match found {
            Some(hit) => is_nearest(candidates@, NEAREST_RANK, FARTHEST_RANK, hit),
            None => nothing_hit(candidates@, NEAREST_RANK, FARTHEST_RANK),
        },
        found matches Some(hit) ==> NEAREST_RANK <= hit.t <= FARTHEST_RANK,
{
    nearest_hit(candidates, NEAREST_RANK, FARTHEST_RANK)
}

/// The ends of the range of a surface query are the ranks of one thousandth
/// and of infinity.
pub proof fn lemma_query_range()
    ensures
        NEAREST_RANK == spec_rank(NEAREST),
        FARTHEST_RANK == spec_rank(INFINITY),
{
}

/// A path with depth left whose first surface query misses ends in the sky,
/// whatever its depth and whatever any further query would report.
pub proof fn lemma_miss_sees_sky(depth: u32, rest: Seq<Bounce>)
    requires
        depth >= 1,
    ensures
        ray_outcome(depth as nat, seq![Bounce::Miss] + rest) == Some(Radiance::Sky),
        Trace::spec_start(depth).spec_advance(Bounce::Miss) == Trace::Done(Radiance::Sky),
        Trace::spec_start(depth).spec_run(seq![Bounce::Miss] + rest) == Trace::Done(Radiance::Sky),
{
    lemma_run_follows_recursion(depth, seq![Bounce::Miss] + rest);
}

/// A finished path stays finished: further outcomes do not change its light.
pub proof fn lemma_done_is_final(light: Radiance, bounces: Seq<Bounce>)
    ensures
        Trace::Done(light).spec_run(bounces) == Trace::Done(light),
    decreases bounces.len(),
{
    if bounces.len() > 0 {
        lemma_done_is_final(light, bounces.drop_first());
    }
}

/// A path of depth zero is dark, whatever the surface queries would have
/// reported: by the recursive definition and step by step alike.
pub proof fn lemma_zero_depth_is_black(bounces: Seq<Bounce>)
    ensures
        ray_outcome(0, bounces) == Some(Radiance::Black),
        Trace::spec_start(0).spec_run(bounces) == Trace::Done(Radiance::Black),
{
    lemma_done_is_final(Radiance::Black, bounces);
}

/// Stepping a path through its outcomes gives the light of the recursive
/// definition; where the definition still waits for an outcome, the stepped
/// path waits too.
pub proof fn lemma_run_follows_recursion(depth: u32, bounces: Seq<Bounce>)
    ensures
        match ray_outcome(depth as nat, bounces) {
            Some(light) => Trace::spec_start(depth).spec_run(bounces) == Trace::Done(light),
            None => Trace::spec_start(depth).spec_run(bounces) is Continue,
        },
    decreases depth,
{
    if depth == 0 {
        lemma_done_is_final(Radiance::Black, bounces);
    } else if bounces.len() > 0 {
        let rest = bounces.drop_first();
        match bounces[0] {
            Bounce::Miss => lemma_done_is_final(Radiance::Sky, rest),
            Bounce::Absorbed => lemma_done_is_final(Radiance::Black, rest),
            Bounce::Scattered => lemma_run_follows_recursion((depth - 1) as u32, rest),
        }
    }
}

/// The depth bounds the path: once as many outcomes as the depth are known the
/// path is finished, and outcomes beyond the first `depth` change nothing.
pub proof fn lemma_depth_bounds_path(depth: u32, bounces: Seq<Bounce>)
    requires
        bounces.len() >= depth,
    ensures
        ray_outcome(depth as nat, bounces) is Some,
        ray_outcome(depth as nat, bounces) == ray_outcome(
            depth as nat,
            bounces.take(depth as int),
        ),
        Trace::spec_start(depth).spec_run(bounces).spec_is_done(),
    decreases depth,
{
    lemma_run_follows_recursion(depth, bounces);
    if depth > 0 {
        assert(bounces.take(depth as int).drop_first() =~= bounces.drop_first().take(depth - 1));
        lemma_depth_bounds_path((depth - 1) as u32, bounces.drop_first());
    }
}

} // verus!
