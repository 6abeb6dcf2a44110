//! Which surface a ray meets first.
//!
//! The caller solves each sphere's quadratic and hands over the two ray
//! parameters at which the ray's line crosses the sphere, if it crosses at all.
//! A parameter is carried as a rank: an `i64` that grows with the parameter it
//! stands for, so that comparing ranks compares parameters; the ranks of
//! [`crate::bits`] are such. This module decides, on ranks alone, which crossing
//! of one sphere counts as its hit and which hit of a whole scene is the
//! nearest.

use vstd::prelude::*;
use crate::bits::{below_zero, is_number, rank, spec_below, spec_below_zero, spec_rank};

verus! {

/// The two crossings of a ray's line with one sphere, the nearer one first.
#[derive(Clone, Copy, Debug, PartialEq, Eq, Structural)]
pub struct Roots {
    near: i64,
    far: i64,
}

/// Which of the two crossings of a sphere a hit lies at.
#[derive(Clone, Copy, Debug, PartialEq, Eq, Structural)]
pub enum Root {
    /// The crossing with the smaller parameter.
    Near,
    /// The crossing with the larger parameter.
    Far,
}

/// A hit on one sphere: the crossing and its parameter.
#[derive(Clone, Copy, Debug, PartialEq, Eq, Structural)]
pub struct Crossing {
    pub root: Root,
    pub t: i64,
}

/// A hit in a scene: the position of the sphere in the scene, the crossing and
/// its parameter.
#[derive(Clone, Copy, Debug, PartialEq, Eq, Structural)]
pub struct Hit {
    pub object: usize,
    pub root: Root,
    pub t: i64,
}

/// Whether the parameter `t` lies in the range from `t_min` to `t_max`, both
/// ends included.
pub open spec fn in_range(t: i64, t_min: i64, t_max: i64) -> bool {
    t_min <= t <= t_max
}

/// The rank that bounds a range from below, from the bits of the lower end.
/// No parameter is below NaN, so an end that is NaN bounds nothing and stands
/// for the lowest rank there is.
pub open spec fn spec_range_start(bits: u32) -> i64 {
    if is_number(bits) {
        spec_rank(bits) as i64
    } else {
        i64::MIN
    }
}

/// The rank that bounds a range from above, from the bits of the upper end.
/// No parameter is above NaN, so an end that is NaN bounds nothing and stands
/// for the highest rank there is.
pub open spec fn spec_range_end(bits: u32) -> i64 {
    if is_number(bits) {
        spec_rank(bits) as i64
    } else {
        i64::MAX
    }
}

/// The rank that bounds a range from below, from the bits of the lower end.
#[verifier::when_used_as_spec(spec_range_start)]
pub fn range_start(bits: u32) -> (start: i64)
    ensures
        start == spec_range_start(bits),
{
    match rank(bits) {
        Some(r) => r,
        None => i64::MIN,
    }
}

/// The rank that bounds a range from above, from the bits of the upper end.
#[verifier::when_used_as_spec(spec_range_end)]
pub fn range_end(bits: u32) -> (end: i64)
    ensures
        end == spec_range_end(bits),
{
    match rank(bits) {
        Some(r) => r,
        None => i64::MAX,
    }
}

impl Roots {
    #[verifier::type_invariant]
    pub closed spec fn ordered(self) -> bool {
        self.near <= self.far
    }

    /// The smaller of the two parameters.
    pub closed spec fn spec_near(&self) -> i64 {
        self.near
    }

    /// The larger of the two parameters.
    pub closed spec fn spec_far(&self) -> i64 {
        self.far
    }

    /// The crossings at the parameters `first` and `second`, in either order.
    pub closed spec fn spec_new(first: i64, second: i64) -> Roots {
        if first <= second {
            Roots { near: first, far: second }
        } else {
            Roots { near: second, far: first }
        }
    }

    /// The crossings that a quadratic gives, from the bits of its discriminant
    /// and of its two roots: none where the discriminant is below zero, none
    /// where a root is NaN, else the crossings at the ranks of the roots.
    pub open spec fn spec_from_bits(discriminant: u32, first: u32, second: u32) -> Option<Roots> {
        if spec_below_zero(discriminant) || !is_number(first) || !is_number(second) {
            None
        } else {
            Some(Roots::spec_new(spec_rank(first) as i64, spec_rank(second) as i64))
        }
    }

    /// The hit of this sphere in the range from `t_min` to `t_max`: the near
    /// crossing where it lies in the range, else the far crossing where that
    /// one does, else none.
    pub open spec fn spec_hit(self, t_min: i64, t_max: i64) -> Option<Crossing> {
        if in_range(self.spec_near(), t_min, t_max) {
            Some(Crossing { root: Root::Near, t: self.spec_near() })
        } else if in_range(self.spec_far(), t_min, t_max) {
            Some(Crossing { root: Root::Far, t: self.spec_far() })
        } else {
            None
        }
    }

    /// The crossings at the parameters `first` and `second`, in either order.
    pub fn new(first: i64, second: i64) -> (roots: Roots)
        ensures
            roots == Roots::spec_new(first, second),
            roots.spec_near() == if first <= second { first } else { second },
            roots.spec_far() == if first <= second { second } else { first },
            roots.spec_near() <= roots.spec_far(),
    {
        if first <= second {
            Roots { near: first, far: second }
        } else {
            Roots { near: second, far: first }
        }
    }

    /// The crossings that the caller's quadratic gives, from the bits of its
    /// discriminant and of its two roots, the roots in either order. There are
    /// none where the discriminant is below zero, and none where a root is NaN.
    pub fn from_bits(discriminant: u32, first: u32, second: u32) -> (roots: Option<Roots>)
        ensures
            roots == Roots::spec_from_bits(discriminant, first, second),
            spec_below_zero(discriminant) ==> roots is None,
    {
        if below_zero(discriminant) {
            return None;
        }
        match (rank(first), rank(second)) {
            (Some(a), Some(b)) => Some(Roots::new(a, b)),
            _ => None,
        }
    }

    /// The smaller of the two parameters.
    #[verifier::when_used_as_spec(spec_near)]
    pub fn near(&self) -> (t: i64)
        ensures
            t == self.spec_near(),
            t <= self.spec_far(),
    {
        proof {
            use_type_invariant(self);
        }
        self.near
    }

    /// The larger of the two parameters.
    #[verifier::when_used_as_spec(spec_far)]
    pub fn far(&self) -> (t: i64)
        ensures
            t == self.spec_far(),
            self.spec_near() <= t,
    {
        proof {
            use_type_invariant(self);
        }
        self.far
    }

    /// The hit of this sphere in the range from `t_min` to `t_max`, both ends
    /// included. The near crossing is preferred; the far one is taken only
    /// where the near one lies outside the range.
    pub fn hit(&self, t_min: i64, t_max: i64) -> (found: Option<Crossing>)
        ensures
            found == self.spec_hit(t_min, t_max),
            self.spec_near() <= self.spec_far(),
    {
        proof {
            use_type_invariant(self);
        }
        let mut root = Root::Near;
        let mut t = self.near;
        if t < t_min || t > t_max {
            root = Root::Far;
            t = self.far;
            if t < t_min || t > t_max {
                return None;
            }
        }
        Some(Crossing { root, t })
    }
}

/// The hit of a sphere that the ray's line may miss altogether: a sphere
/// without crossings has no hit in any range.
pub open spec fn spec_sphere_hit(roots: Option<Roots>, t_min: i64, t_max: i64) -> Option<
    Crossing,
> {
    match roots {
        None => None,
        Some(r) => r.spec_hit(t_min, t_max),
    }
}

/// The hit of one sphere in the range from `t_min` to `t_max`. `roots` is
/// `None` where the ray's line does not cross the sphere; then there is no hit,
/// whatever the range.
pub fn sphere_hit(roots: &Option<Roots>, t_min: i64, t_max: i64) -> (found: Option<Crossing>)
    ensures
        found == spec_sphere_hit(*roots, t_min, t_max),
        roots is None ==> found is None,
        roots matches Some(r) ==> r.spec_near() <= r.spec_far(),
{
    match roots {
        None => None,
        Some(r) => r.hit(t_min, t_max),
    }
}

/// Whether no sphere of the scene is hit in the range from `t_min` to `t_max`.
pub open spec fn nothing_hit(candidates: Seq<Option<Roots>>, t_min: i64, t_max: i64) -> bool {
    forall|i: int|
        0 <= i < candidates.len() ==> (#[trigger] spec_sphere_hit(
            candidates[i],
            t_min,
            t_max,
        )) is None
}

/// Whether `hit` is the nearest hit of the scene in the range from `t_min` to
/// `t_max`: it is the hit of the sphere it names, no sphere has a hit with a
/// smaller parameter, and of the spheres whose hits share the smallest
/// parameter it names the last.
pub open spec fn is_nearest(
    candidates: Seq<Option<Roots>>,
    t_min: i64,
    t_max: i64,
    hit: Hit,
) -> bool {
    &&& hit.object < candidates.len()
    &&& spec_sphere_hit(candidates[hit.object as int], t_min, t_max) == Some(
        Crossing { root: hit.root, t: hit.t },
    )
    &&& forall|i: int|
        0 <= i < candidates.len() ==> match #[trigger] spec_sphere_hit(
            candidates[i],
            t_min,
            t_max,
        ) {
            Some(other) => hit.t <= other.t && (i > hit.object ==> hit.t < other.t),
            None => true,
        }
}

/// The nearest hit of a scene in the range from `t_min` to `t_max`, both ends
/// included. `candidates` holds, for each sphere of the scene in order, the
/// crossings of the ray's line with it, or `None` where there are none.
///
/// The spheres are taken in order and each is asked for a hit no farther than
/// the nearest one found so far. What comes out is the nearest hit that any
/// sphere has in the whole range.
pub fn nearest_hit(candidates: &Vec<Option<Roots>>, t_min: i64, t_max: i64) -> (found: Option<Hit>)
    ensures
        match found {
            Some(hit) => is_nearest(candidates@, t_min, t_max, hit),
            None => nothing_hit(candidates@, t_min, t_max),
        },
{
    let mut found: Option<Hit> = None;
    let mut closest = t_max;
    let mut k: usize = 0;
    while k < candidates.len()
        invariant
            k <= candidates.len(),
            closest <= t_max,
            match found {
                Some(hit) => is_nearest(candidates@.take(k as int), t_min, t_max, hit) && hit.t
                    == closest,
                None => nothing_hit(candidates@.take(k as int), t_min, t_max) && closest == t_max,
            },
        decreases candidates.len() - k,
    {
        if let Some(crossing) = sphere_hit(&candidates[k], t_min, closest) {
            closest = crossing.t;
            found = Some(Hit { object: k, root: crossing.root, t: crossing.t });
        }
        k += 1;
    }
    assert(candidates@.take(k as int) =~= candidates@);
    found
}

/// Lowering the upper end of the range takes hits away and changes none: the
/// hit in the lowered range is the hit in the whole range where that one is
/// not beyond the new end, and none otherwise.
pub proof fn lemma_tighter_bound(roots: Option<Roots>, t_min: i64, closest: i64, t_max: i64)
    requires
        closest <= t_max,
        roots matches Some(r) ==> r.spec_near() <= r.spec_far(),
    ensures
        spec_sphere_hit(roots, t_min, closest) == match spec_sphere_hit(roots, t_min, t_max) {
            Some(crossing) => if crossing.t <= closest {
                Some(crossing)
            } else {
                None
            },
            None => None,
        },
{
}

/// A scene has at most one nearest hit in a range.
pub proof fn lemma_nearest_is_unique(
    candidates: Seq<Option<Roots>>,
    t_min: i64,
    t_max: i64,
    one: Hit,
    other: Hit,
)
    requires
        is_nearest(candidates, t_min, t_max, one),
        is_nearest(candidates, t_min, t_max, other),
    ensures
        one == other,
{
}

/// A scene has a nearest hit in a range exactly where one of its spheres has a
/// hit there.
pub proof fn lemma_nearest_or_nothing(
    candidates: Seq<Option<Roots>>,
    t_min: i64,
    t_max: i64,
    hit: Hit,
)
    requires
        is_nearest(candidates, t_min, t_max, hit),
    ensures
        !nothing_hit(candidates, t_min, t_max),
{
}

/// What the crossings made of two parameters hold: the smaller parameter as
/// the near one, the larger as the far one.
pub proof fn lemma_new_orders(first: i64, second: i64)
    ensures
        Roots::spec_new(first, second).spec_near() == if first <= second {
            first
        } else {
            second
        },
        Roots::spec_new(first, second).spec_far() == if first <= second {
            second
        } else {
            first
        },
        Roots::spec_new(first, second).spec_near() <= Roots::spec_new(first, second).spec_far(),
{
}

/// A ray whose quadratic has a discriminant below zero misses the sphere: it
/// has no hit in any range, whatever stands in place of the roots.
pub proof fn lemma_negative_discriminant_never_hits(
    discriminant: u32,
    first: u32,
    second: u32,
    t_min: i64,
    t_max: i64,
)
    requires
        spec_below_zero(discriminant),
    ensures
        spec_sphere_hit(Roots::spec_from_bits(discriminant, first, second), t_min, t_max) is None,
{
}

/// A parameter lies in a range exactly where it is neither below the lower
/// end nor above the upper end, the ends given by their bits.
pub proof fn lemma_range_by_bits(t: u32, t_min: u32, t_max: u32)
    requires
        is_number(t),
    ensures
        in_range(spec_rank(t) as i64, spec_range_start(t_min), spec_range_end(t_max)) <==> (
        !spec_below(t, t_min) && !spec_below(t_max, t)),
{
}

} // verus!
