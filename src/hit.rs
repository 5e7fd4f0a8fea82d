use vstd::prelude::*;
use crate::order::{Key, rank_of_bits, is_nan_bits};

verus! {

/// The two roots of a sphere's intersection quadratic along a ray,
/// the nearer first.
#[derive(Clone, Copy, Debug, PartialEq, Eq, Structural)]
pub struct Roots {
    pub near: Key,
    pub far: Key,
}

/// Which of the two roots a hit was found at.
#[derive(Clone, Copy, Debug, PartialEq, Eq, Structural)]
pub enum RootChoice {
    Near,
    Far,
}

/// A hit found by a scan over the objects of a scene.
#[derive(Clone, Copy, Debug, PartialEq, Eq, Structural)]
pub struct Hit {
    /// Position of the object in the scene.
    pub index: usize,
    /// The root of that object the hit lies at.
    pub choice: RootChoice,
    /// The ray parameter of the hit.
    pub t: Key,
}

impl Roots {
    /// Both roots are numbers, and the near one is not past the far one.
    pub open spec fn wf(self) -> bool {
        self.near.wf() && self.far.wf() && self.near.rank <= self.far.rank
    }

    /// The roots with these bits, or `None` when the geometry is degenerate:
    /// a root is NaN, or the roots are out of order. A degenerate sphere is
    /// treated as one the ray does not hit.
    pub fn from_bits(near_bits: u32, far_bits: u32) -> (r: Option<Roots>)
        ensures
            r is None <==> (is_nan_bits(near_bits) || is_nan_bits(far_bits)
                || rank_of_bits(near_bits) > rank_of_bits(far_bits)),
            r matches Some(roots) ==> roots.wf() && roots.near.rank == rank_of_bits(near_bits)
                && roots.far.rank == rank_of_bits(far_bits),
    {
        match (Key::from_bits(near_bits), Key::from_bits(far_bits)) {
            (Some(near), Some(far)) => {
                if near.rank <= far.rank {
                    Some(Roots { near, far })
                } else {
                    None
                }
            },
            _ => None,
        }
    }
}

/// The root a sphere reports within `[lo, hi]`: the near one if it lies
/// there, else the far one if it does, else none.
pub open spec fn root_within(roots: Roots, lo: Key, hi: Key) -> Option<RootChoice> {
    if roots.near.within(lo, hi) {
        Some(RootChoice::Near)
    } else if roots.far.within(lo, hi) {
        Some(RootChoice::Far)
    } else {
        None
    }
}

/// The parameter of the chosen root.
pub open spec fn root_value(roots: Roots, choice: RootChoice) -> Key {
    match choice {
        RootChoice::Near => roots.near,
        RootChoice::Far => roots.far,
    }
}

/// The parameter at which an object (`None`: no real roots) is hit within `[lo, hi]`.
pub open spec fn hit_param(object: Option<Roots>, lo: Key, hi: Key) -> Option<int> {
    match object {
        Some(roots) => match root_within(roots, lo, hi) {
            Some(c) => Some(root_value(roots, c).rank as int),
            None => None,
        },
        None => None,
    }
}

/// Every object that has roots has well-formed ones.
pub open spec fn all_wf(objects: Seq<Option<Roots>>) -> bool {
    forall|j: int| 0 <= j < objects.len() ==> (#[trigger] objects[j] matches Some(r) ==> r.wf())
}

/// Some object of `objects` is hit within `[lo, hi]` at parameter `t`.
pub open spec fn hit_at(objects: Seq<Option<Roots>>, lo: Key, hi: Key, t: int) -> bool {
    exists|j: int| 0 <= j < objects.len() && #[trigger] hit_param(objects[j], lo, hi) == Some(t)
}

/// No object of `objects` is hit within `[lo, hi]` before parameter `t`.
pub open spec fn none_before(objects: Seq<Option<Roots>>, lo: Key, hi: Key, t: int) -> bool {
    forall|j: int| 0 <= j < objects.len() ==> match #[trigger] hit_param(objects[j], lo, hi) {
        Some(u) => t <= u,
        None => true,
    }
}

/// `t` is the parameter of the nearest hit among `objects` within `[lo, hi]`.
pub open spec fn is_nearest(objects: Seq<Option<Roots>>, lo: Key, hi: Key, t: int) -> bool {
    hit_at(objects, lo, hi, t) && none_before(objects, lo, hi, t)
}

/// Picks the root of a sphere that lies in `[t_min, t_max]`, trying the near
/// root first.
pub fn select_root(roots: Roots, t_min: Key, t_max: Key) -> (r: Option<RootChoice>)
    ensures
        r == root_within(roots, t_min, t_max),
{
    if t_min.rank <= roots.near.rank && roots.near.rank <= t_max.rank {
        Some(RootChoice::Near)
    } else if t_min.rank <= roots.far.rank && roots.far.rank <= t_max.rank {
        Some(RootChoice::Far)
    } else {
        None
    }
}

/// Shrinking the upper end of the interval to `mid` keeps a sphere's hit
/// exactly when that hit lies at or before `mid`.
proof fn lemma_root_within_shrunk(roots: Roots, lo: Key, mid: Key, hi: Key)
    requires
        roots.wf(),
        mid.rank <= hi.rank,
    ensures
        match root_within(roots, lo, hi) {
            Some(c) => if root_value(roots, c).rank <= mid.rank {
                root_within(roots, lo, mid) == Some(c)
            } else {
                root_within(roots, lo, mid) is None
            },
            None => root_within(roots, lo, mid) is None,
        },
{
}

/// Scans the objects of a scene for the nearest hit within `[t_min, t_max]`.
///
/// Each object is asked for a root within `[t_min, closest]`, where `closest`
/// starts at `t_max` and shrinks to each hit found. The result is the nearest
/// hit; of objects hit at that same parameter, the last one in the scene.
pub fn nearest_hit(objects: &Vec<Option<Roots>>, t_min: Key, t_max: Key) -> (r: Option<Hit>)
    requires
        all_wf(objects@),
    ensures
        r is None <==> forall|j: int| 0 <= j < objects@.len()
            ==> (#[trigger] hit_param(objects@[j], t_min, t_max)) is None,
        r matches Some(h) ==> {
            &&& h.index < objects@.len()
            &&& objects@[h.index as int] matches Some(roots)
                && root_within(roots, t_min, t_max) == Some(h.choice)
                && root_value(roots, h.choice) == h.t
            &&& is_nearest(objects@, t_min, t_max, h.t.rank as int)
            &&& forall|j: int| h.index < j < objects@.len()
                ==> (#[trigger] hit_param(objects@[j], t_min, t_max)) != Some(h.t.rank as int)
        },
{
    let mut found: Option<Hit> = None;
    let mut closest: Key = t_max;
    let mut i: usize = 0;
    while i < objects.len()
        invariant
            all_wf(objects@),
            i <= objects@.len(),
            closest.rank <= t_max.rank,
            found is None ==> closest == t_max && forall|j: int| 0 <= j < i
                ==> (#[trigger] hit_param(objects@[j], t_min, t_max)) is None,
            found matches Some(h) ==> {
                &&& h.index < i
                &&& closest == h.t
                &&& objects@[h.index as int] matches Some(roots)
                    && root_within(roots, t_min, t_max) == Some(h.choice)
                    && root_value(roots, h.choice) == h.t
                &&& hit_param(objects@[h.index as int], t_min, t_max) == Some(h.t.rank as int)
                &&& forall|j: int| 0 <= j < i ==> match #[trigger] hit_param(objects@[j], t_min, t_max) {
                    Some(u) => h.t.rank <= u,
                    None => true,
                }
                &&& forall|j: int| h.index < j < i
                    ==> (#[trigger] hit_param(objects@[j], t_min, t_max)) != Some(h.t.rank as int)
            },
        decreases objects@.len() - i,
    {
        if let Some(roots) = objects[i] {
            proof {
                lemma_root_within_shrunk(roots, t_min, closest, t_max);
            }
            if let Some(choice) = select_root(roots, t_min, closest) {
                let t = match choice {
                    RootChoice::Near => roots.near,
                    RootChoice::Far => roots.far,
                };
                found = Some(Hit { index: i, choice, t });
                closest = t;
            }
        }
        i = i + 1;
    }
    proof {
        if let Some(h) = found {
            assert(hit_param(objects@[h.index as int], t_min, t_max) == Some(h.t.rank as int));
        }
    }
    found
}

/// Which objects are hit, and where, does not depend on their order: two
/// scenes that hold the same objects, each as often, have the same nearest
/// hit parameter.
pub proof fn lemma_nearest_independent_of_order(
    a: Seq<Option<Roots>>,
    b: Seq<Option<Roots>>,
    lo: Key,
    hi: Key,
    t: int,
)
    requires
        a.to_multiset() == b.to_multiset(),
    ensures
        is_nearest(a, lo, hi, t) == is_nearest(b, lo, hi, t),
{
    lemma_hits_of_contained(a, b, lo, hi, t);
    lemma_hits_of_contained(b, a, lo, hi, t);
}

/// Of two scenes with the same objects, a hit in `a` is one in `b`, and no
/// hit in `b` before `t` means none in `a`.
proof fn lemma_hits_of_contained(a: Seq<Option<Roots>>, b: Seq<Option<Roots>>, lo: Key, hi: Key, t: int)
    requires
        a.to_multiset() == b.to_multiset(),
    ensures
        hit_at(a, lo, hi, t) ==> hit_at(b, lo, hi, t),
        none_before(b, lo, hi, t) ==> none_before(a, lo, hi, t),
{
    broadcast use vstd::seq_lib::group_to_multiset_ensures;
    assert forall|j: int| 0 <= j < a.len() implies exists|k: int|
        0 <= k < b.len() && #[trigger] b[k] == #[trigger] a[j] by {
        assert(a.contains(a[j]));
        assert(a.to_multiset().count(a[j]) > 0);
        assert(b.to_multiset().count(a[j]) > 0);
        assert(b.contains(a[j]));
    }
    if hit_at(a, lo, hi, t) {
        let j = choose|j: int| 0 <= j < a.len() && #[trigger] hit_param(a[j], lo, hi) == Some(t);
        let k = choose|k: int| 0 <= k < b.len() && b[k] == a[j];
        assert(hit_param(b[k], lo, hi) == Some(t));
    }
    if none_before(b, lo, hi, t) {
        assert forall|j: int| 0 <= j < a.len() implies match #[trigger] hit_param(a[j], lo, hi) {
            Some(u) => t <= u,
            None => true,
        } by {
            let k = choose|k: int| 0 <= k < b.len() && b[k] == a[j];
            assert(hit_param(b[k], lo, hi) == hit_param(a[j], lo, hi));
        }
    }
}

/// Whether a ray meets a surface from outside: `alignment` is the dot product
/// of the ray's direction with the surface's outward normal, and the ray comes
/// from outside exactly when it is negative. A NaN alignment counts as inside.
pub fn front_face(alignment: Option<Key>) -> (r: bool)
    ensures
        r == (alignment matches Some(d) && d.rank < 0),
{
    match alignment {
        Some(d) => d.rank < 0,
        None => false,
    }
}

/// The alignment of the ray with the normal a hit keeps, given the alignment
/// `d` with the outward normal: the outward normal is kept on the front face,
/// its negation otherwise, and negating a normal negates the dot product
/// (see `lemma_sign_flip_negates_rank`).
pub open spec fn kept_alignment(d: Key, front: bool) -> int {
    if front {
        d.rank as int
    } else {
        -d.rank
    }
}

/// The normal a hit keeps never points along the ray.
pub proof fn lemma_kept_normal_opposes_ray(d: Key, front: bool)
    requires
        front == (d.rank < 0),
    ensures
        kept_alignment(d, front) <= 0,
{
}

} // verus!
