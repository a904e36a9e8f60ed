//! The scene: the object collection, a background rule, and the optional
//! acceleration structure, with the single nearest-hit query. The fast path
//! through the hierarchy and the exhaustive path agree: the hierarchy is a
//! pruning optimization, never a semantic change.

use vstd::prelude::*;
use vstd::seq_lib::to_multiset_contains;
use crate::aabb::{spec_aabb_ordered, spec_slab_hit, Aabb};
use crate::bvh::{spec_bvh_pairs, spec_bvh_wf, spec_id_recorded, spec_pairs_carry, Bvh};
use crate::fixed::{spec_q_add, spec_q_div, spec_q_from, spec_q_sub, q_add, q_div, q_from, q_sub, SCALE};
use crate::hittable::{
    lemma_object_hit_props, lemma_object_hit_shrink, spec_object_box, spec_object_hit, Hittable,
};
use crate::interval::Interval;
use crate::ray::{Intersection, Ray};
use crate::vector::{spec_unit, spec_v_add, spec_v_scale, Color, Vec3};

verus! {

/// An ID for an object in a scene: its insertion position, starting at
/// zero, stable once objects stop being added.
#[derive(Debug, Clone, Copy, PartialEq, Eq, Structural)]
pub struct ObjectId(pub(crate) usize);

impl View for ObjectId {
    type V = int;

    /// An object id is modeled by its position.
    closed spec fn view(&self) -> int {
        self.0 as int
    }
}

/// The rule for the color seen where a ray leaves the scene: a constant, or
/// a vertical blend between two colors steered by the ray's direction.
#[derive(Debug, Clone, Copy, PartialEq, Eq, Structural)]
pub enum Background {
    /// The same color in every direction.
    Solid(Color),
    /// A blend from `bottom` (downward rays) to `top` (upward rays).
    Gradient { top: Color, bottom: Color },
}

/// The background color for a direction: for a gradient, the unit
/// direction's height is mapped from `[-1, 1]` to a blend weight.
pub open spec fn spec_background(bg: Background, dir: Vec3) -> Color {
    match bg {
        Background::Solid(c) => c,
        Background::Gradient { top, bottom } => {
            let a = crate::objects::sphere::spec_clamp_unit(
                spec_q_div(spec_q_add(spec_unit(dir).y, SCALE as i64), spec_q_from(2)),
            );
            spec_v_add(
                spec_v_scale(bottom, spec_q_sub(SCALE as i64, a)),
                spec_v_scale(top, a),
            )
        },
    }
}

/// Whether a background can only hand back non-negative colors.
pub open spec fn spec_background_nonneg(bg: Background) -> bool {
    match bg {
        Background::Solid(c) => crate::vector::spec_color_nonneg(c),
        Background::Gradient { top, bottom } => crate::vector::spec_color_nonneg(top)
            && crate::vector::spec_color_nonneg(bottom),
    }
}

/// A non-negative background yields a non-negative color for any direction:
/// the blend weight is clamped into the unit range, so both contributions
/// keep their sign.
pub proof fn lemma_background_nonneg(bg: Background, dir: Vec3)
    requires
        spec_background_nonneg(bg),
    ensures
        crate::vector::spec_color_nonneg(spec_background(bg, dir)),
{
    match bg {
        Background::Solid(_) => {},
        Background::Gradient { top, bottom } => {
            let a = crate::objects::sphere::spec_clamp_unit(
                spec_q_div(spec_q_add(spec_unit(dir).y, SCALE as i64), spec_q_from(2)),
            );
            crate::fixed::lemma_q_mul_nonneg(bottom.x, spec_q_sub(SCALE as i64, a));
            crate::fixed::lemma_q_mul_nonneg(bottom.y, spec_q_sub(SCALE as i64, a));
            crate::fixed::lemma_q_mul_nonneg(bottom.z, spec_q_sub(SCALE as i64, a));
            crate::fixed::lemma_q_mul_nonneg(top.x, a);
            crate::fixed::lemma_q_mul_nonneg(top.y, a);
            crate::fixed::lemma_q_mul_nonneg(top.z, a);
            crate::fixed::lemma_q_add_nonneg(
                crate::fixed::spec_q_mul(bottom.x, spec_q_sub(SCALE as i64, a)),
                crate::fixed::spec_q_mul(top.x, a),
            );
            crate::fixed::lemma_q_add_nonneg(
                crate::fixed::spec_q_mul(bottom.y, spec_q_sub(SCALE as i64, a)),
                crate::fixed::spec_q_mul(top.y, a),
            );
            crate::fixed::lemma_q_add_nonneg(
                crate::fixed::spec_q_mul(bottom.z, spec_q_sub(SCALE as i64, a)),
                crate::fixed::spec_q_mul(top.z, a),
            );
        },
    }
}

/// A scene containing objects to be rendered.
pub struct Scene {
    /// The objects in the scene.
    pub objects: Vec<Hittable>,
    /// The rule for the background color of the scene.
    pub background: Background,
    /// The hierarchy of bounding volumes for the scene, once built.
    pub bvh: Option<Bvh>,
}

/// No object reports a hit inside the interval.
pub open spec fn spec_no_hits(objs: Seq<Hittable>, ray: Ray, time: Interval) -> bool {
    forall|i: int|
        0 <= i < objs.len() ==> #[trigger] spec_object_hit(objs[i], ray, time) is None
}

/// Some object reports exactly this hit inside the interval.
pub open spec fn spec_some_hit_eq(
    objs: Seq<Hittable>,
    ray: Ray,
    time: Interval,
    h: Intersection,
) -> bool {
    exists|i: int|
        0 <= i < objs.len() && #[trigger] spec_object_hit(objs[i], ray, time) == Some(h)
}

/// No object reports a hit closer than the given distance.
pub open spec fn spec_no_closer(objs: Seq<Hittable>, ray: Ray, time: Interval, t: i64) -> bool {
    forall|i: int|
        0 <= i < objs.len() ==> (#[trigger] spec_object_hit(objs[i], ray, time) matches Some(g)
            ==> g.t >= t)
}

/// Any two objects' hits at the same distance are the same record, so a
/// nearest distance determines a unique intersection. Holds in particular
/// whenever at most one object attains each distance.
pub open spec fn spec_hits_tie_free(objs: Seq<Hittable>, ray: Ray, time: Interval) -> bool {
    forall|i: int, j: int|
        #![trigger spec_object_hit(objs[i], ray, time), spec_object_hit(objs[j], ray, time)]
        0 <= i < objs.len() && 0 <= j < objs.len() ==> (spec_object_hit(objs[i], ray, time)
            matches Some(g) ==> (spec_object_hit(objs[j], ray, time) matches Some(h) ==> (g.t
            == h.t ==> g == h)))
}

/// The exhaustive nearest-hit scan from object `j` on, carrying the best
/// hit so far and the correspondingly tightened interval end.
pub open spec fn spec_nearest_from(
    objs: Seq<Hittable>,
    j: int,
    ray: Ray,
    ts: i64,
    te: i64,
    best: Option<Intersection>,
) -> Option<Intersection>
    decreases objs.len() - j,
{
    if j < 0 || j >= objs.len() {
        best
    } else {
        match spec_object_hit(objs[j], ray, Interval { start: ts, end: te }) {
            Some(h) => spec_nearest_from(objs, j + 1, ray, ts, h.t, Some(h)),
            None => spec_nearest_from(objs, j + 1, ray, ts, te, best),
        }
    }
}

/// The nearest hit of the whole collection inside the interval.
pub open spec fn spec_scene_nearest(objs: Seq<Hittable>, ray: Ray, time: Interval) -> Option<
    Intersection,
> {
    spec_nearest_from(objs, 0, ray, time.start, time.end, None)
}

/// Every object whose exact test reports a hit inside the interval reports
/// a real bounding box that the ray's slab test meets: the documented
/// precondition for the hierarchy to prune soundly. An accurate, in-order
/// `bounding_box` gives it for free.
pub open spec fn spec_boxes_conservative(objs: Seq<Hittable>, ray: Ray, time: Interval) -> bool {
    forall|j: int|
        0 <= j < objs.len() && #[trigger] spec_object_hit(objs[j], ray, time) is Some ==> (
        spec_aabb_ordered(spec_object_box(objs[j])) && spec_slab_hit(
            spec_object_box(objs[j]),
            ray,
            time,
        ))
}

/// The (id, box) pair of every object, in insertion order.
spec fn spec_scene_pairs(objs: Seq<Hittable>) -> Seq<(ObjectId, Aabb)> {
    Seq::new(objs.len(), |i: int| (ObjectId(i as usize), spec_object_box(objs[i])))
}

/// The hierarchy, if present, was built over exactly the current objects'
/// bounding boxes.
pub closed spec fn spec_scene_bvh_ok(s: Scene) -> bool {
    match s.bvh {
        None => true,
        Some(b) => spec_bvh_wf(b) && spec_bvh_pairs(b) == spec_scene_pairs(
            s.objects@,
        ).to_multiset(),
    }
}

/// A member of the pair collection names a real object and carries that
/// object's box.
proof fn lemma_scene_pairs_member(objs: Seq<Hittable>, p: (ObjectId, Aabb))
    requires
        objs.len() <= usize::MAX,
        spec_scene_pairs(objs).to_multiset().contains(p),
    ensures
        0 <= p.0@ < objs.len(),
        p.1 == spec_object_box(objs[p.0@]),
    decreases 0int,
{
    to_multiset_contains(spec_scene_pairs(objs), p);
    let i = choose|i: int|
        0 <= i < spec_scene_pairs(objs).len() && spec_scene_pairs(objs)[i] == p;
    assert(p == (ObjectId(i as usize), spec_object_box(objs[i])));
}

/// Conversely, every object contributes its pair to the collection.
proof fn lemma_scene_pairs_index(objs: Seq<Hittable>, j: int)
    requires
        0 <= j < objs.len() <= usize::MAX,
    ensures
        spec_scene_pairs(objs).to_multiset().contains(
            (ObjectId(j as usize), spec_object_box(objs[j])),
        ),
{
    assert(spec_scene_pairs(objs)[j] == (ObjectId(j as usize), spec_object_box(objs[j])));
    assert(spec_scene_pairs(objs).contains((ObjectId(j as usize), spec_object_box(objs[j]))));
    to_multiset_contains(
        spec_scene_pairs(objs),
        (ObjectId(j as usize), spec_object_box(objs[j])),
    );
}

/// A hierarchy built over a scene's objects holds distinct pairs: the ids
/// are the insertion positions, no two alike. This discharges the premise
/// under which the hierarchy returns each candidate at most once.
pub proof fn lemma_scene_bvh_pairs_distinct(s: Scene, b: Bvh)
    requires
        spec_scene_bvh_ok(s),
        s.bvh == Some(b),
        s.objects@.len() <= usize::MAX,
    ensures
        crate::bvh::spec_pairs_ids_distinct(spec_bvh_pairs(b)),
{
    broadcast use vstd::multiset::group_multiset_axioms;

    let pairs = spec_scene_pairs(s.objects@);
    assert forall|p: (ObjectId, Aabb), q: (ObjectId, Aabb)|
        spec_bvh_pairs(b).contains(p) && spec_bvh_pairs(b).contains(q) && p.0 == q.0
        implies p == q by {
        lemma_scene_pairs_member(s.objects@, p);
        lemma_scene_pairs_member(s.objects@, q);
    }
    assert(pairs.no_duplicates()) by {
        assert forall|i: int, j: int| 0 <= i < j < pairs.len() implies pairs[i]
            != pairs[j] by {
            assert(pairs[i].0 == ObjectId(i as usize));
            assert(pairs[j].0 == ObjectId(j as usize));
        }
    }
    pairs.lemma_multiset_has_no_duplicates();
    assert forall|p: (ObjectId, Aabb)| #[trigger] spec_bvh_pairs(b).count(p) <= 1 by {
        if spec_bvh_pairs(b).count(p) > 0 {
            assert(pairs.to_multiset().contains(p));
        }
    }
}

/// What the exhaustive scan returns, characterized directly: nothing
/// exactly when no object hits, else a hit of some object than which no
/// object hits closer.
#[verifier::rlimit(100)]
proof fn lemma_nearest_from_char(
    objs: Seq<Hittable>,
    j: int,
    ray: Ray,
    ts: i64,
    te0: i64,
    te: i64,
    best: Option<Intersection>,
)
    requires
        0 <= j <= objs.len(),
        te <= te0,
        best is None ==> te == te0 && (forall|i: int|
            0 <= i < j ==> #[trigger] spec_object_hit(
                objs[i],
                ray,
                Interval { start: ts, end: te0 },
            ) is None),
        best matches Some(b) ==> b.t == te && ts < b.t < te0 && (exists|i: int|
            0 <= i < j && #[trigger] spec_object_hit(
                objs[i],
                ray,
                Interval { start: ts, end: te0 },
            ) == Some(b)) && (forall|i: int|
            0 <= i < j ==> (#[trigger] spec_object_hit(
                objs[i],
                ray,
                Interval { start: ts, end: te0 },
            ) matches Some(g) ==> g.t >= b.t)),
    ensures
        spec_nearest_from(objs, j, ray, ts, te, best) is None ==> spec_no_hits(
            objs,
            ray,
            Interval { start: ts, end: te0 },
        ),
        spec_nearest_from(objs, j, ray, ts, te, best) matches Some(h) ==> ts < h.t < te0
            && spec_some_hit_eq(objs, ray, Interval { start: ts, end: te0 }, h)
            && spec_no_closer(objs, ray, Interval { start: ts, end: te0 }, h.t),
    decreases objs.len() - j,
{
    let full = Interval { start: ts, end: te0 };
    if j == objs.len() {
    } else {
        let cur = spec_object_hit(objs[j], ray, Interval { start: ts, end: te });
        lemma_object_hit_shrink(objs[j], ray, full, te);
        lemma_object_hit_props(objs[j], ray, full);
        lemma_object_hit_props(objs[j], ray, Interval { start: ts, end: te });
        match cur {
            Some(h) => {
                assert(spec_object_hit(objs[j], ray, full) == Some(h));
                lemma_nearest_from_char(objs, j + 1, ray, ts, te0, h.t, Some(h));
            },
            None => {
                lemma_nearest_from_char(objs, j + 1, ray, ts, te0, te, best);
            },
        }
    }
}

/// What the nearest-hit scan means, stated directly: it returns nothing
/// exactly when no object hits inside the interval, and otherwise a hit of
/// some object, strictly inside the interval, than which no object hits
/// closer.
pub proof fn lemma_scene_nearest_characterized(objs: Seq<Hittable>, ray: Ray, time: Interval)
    ensures
        spec_scene_nearest(objs, ray, time) is None <==> spec_no_hits(objs, ray, time),
        spec_scene_nearest(objs, ray, time) matches Some(h) ==> time.start < h.t < time.end
            && spec_some_hit_eq(objs, ray, time, h) && spec_no_closer(objs, ray, time, h.t),
{
    lemma_nearest_from_char(objs, 0, ray, time.start, time.end, time.end, None);
    let r = spec_scene_nearest(objs, ray, time);
    if r is Some {
        let h = r->0;
        let i = choose|i: int|
            0 <= i < objs.len() && #[trigger] spec_object_hit(objs[i], ray, time) == Some(h);
    }
}

impl Scene {
    /// Creates a new scene with the given background.
    pub fn new(background: Background) -> (s: Scene)
        ensures
            s.objects@.len() == 0,
            s.background == background,
            s.bvh is None,
            spec_scene_bvh_ok(s),
    {
        Scene { objects: Vec::new(), background, bvh: None }
    }

    /// Adds an object to the scene, returning its id. A hierarchy built
    /// earlier is not invalidated: rebuilding after further additions is
    /// the caller's documented responsibility.
    pub fn add(&mut self, object: Hittable) -> (id: ObjectId)
        ensures
            id@ == old(self).objects@.len(),
            final(self).objects@ == old(self).objects@.push(object),
            final(self).background == old(self).background,
            final(self).bvh == old(self).bvh,
            old(self).bvh is None ==> spec_scene_bvh_ok(*final(self)),
    {
        let id = ObjectId(self.objects.len());
        self.objects.push(object);
        id
    }

    /// Get the background color of the scene for a direction.
    pub fn background(&self, dir: Vec3) -> (c: Color)
        ensures
            c == spec_background(self.background, dir),
    {
        match &self.background {
            Background::Solid(c) => *c,
            Background::Gradient { top, bottom } => {
                let a = crate::fixed::q_max(
                    crate::fixed::q_min(q_div(q_add(dir.unit().y, SCALE), q_from(2)), SCALE),
                    0,
                );
                bottom.scale(q_sub(SCALE, a)).add(top.scale(a))
            },
        }
    }

    /// Builds the bounding volume hierarchy for the scene, over the current
    /// objects' bounding boxes.
    pub fn build_bvh(&mut self)
        ensures
            final(self).objects@ == old(self).objects@,
            final(self).background == old(self).background,
            final(self).bvh is Some,
            spec_scene_bvh_ok(*final(self)),
    {
        // Collect bounding boxes for all objects
        let mut objects_with_bbs: Vec<(ObjectId, Aabb)> = Vec::new();
        let mut k: usize = 0;
        while k < self.objects.len()
            invariant
                k <= self.objects@.len(),
                objects_with_bbs@.len() == k,
                forall|j: int|
                    0 <= j < k ==> #[trigger] objects_with_bbs@[j] == (
                    ObjectId(j as usize),
                    spec_object_box(self.objects@[j]),
                ),
            decreases self.objects@.len() - k,
        {
            let bb = self.objects[k].bounding_box();
            objects_with_bbs.push((ObjectId(k), bb));
            k = k + 1;
        }
        proof {
            assert(objects_with_bbs@ =~= spec_scene_pairs(self.objects@));
        }

        // Construct the BVH from the bounding boxes
        self.bvh = Some(Bvh::new(objects_with_bbs));
    }

    /// Checks for the nearest intersection between the ray and the objects
    /// in the scene. With a built, current hierarchy the query is pruned by
    /// bounding boxes; otherwise every object is tested. Both paths return
    /// a hit of some object than which no object hits closer; when every
    /// hitting object reports a real, conservative box — the documented
    /// precondition of the accelerator — the pruned path returns a result
    /// with exactly the distance and point of the exhaustive scan.
    pub fn hit(&self, ray: &Ray, time: Interval) -> (r: Option<Intersection>)
        requires
            spec_scene_bvh_ok(*self),
        ensures
            self.bvh is None ==> r == spec_scene_nearest(self.objects@, *ray, time),
            r matches Some(h) ==> time.start < h.t < time.end && spec_some_hit_eq(
                self.objects@,
                *ray,
                time,
                h,
            ),
            spec_boxes_conservative(self.objects@, *ray, time) ==> {
                &&& r is Some <==> spec_scene_nearest(self.objects@, *ray, time) is Some
                &&& r matches Some(h) ==> (spec_scene_nearest(self.objects@, *ray, time)
                    matches Some(g) && h.t == g.t && h.point == g.point)
            },
            (spec_boxes_conservative(self.objects@, *ray, time) && spec_hits_tie_free(
                self.objects@,
                *ray,
                time,
            )) ==> r == spec_scene_nearest(self.objects@, *ray, time),
    {
        if self.bvh.is_some() {
            self.hit_fast(ray, time)
        } else {
            let r = self.hit_slow(ray, time);
            proof {
                lemma_nearest_from_char(
                    self.objects@,
                    0,
                    *ray,
                    time.start,
                    time.end,
                    time.end,
                    None,
                );
            }
            r
        }
    }

    /// Checks every object in the scene against a shrinking interval: each
    /// closer hit tightens the far end, so the scan ends at the nearest.
    fn hit_slow(&self, ray: &Ray, time: Interval) -> (r: Option<Intersection>)
        ensures
            r == spec_scene_nearest(self.objects@, *ray, time),
    {
        let mut closest: Option<Intersection> = None;
        let mut time = time;
        let ghost time0 = time;
        let mut i: usize = 0;

        // Check each object in the scene for intersections.
        while i < self.objects.len()
            invariant
                i <= self.objects@.len(),
                time.start == time0.start,
                spec_nearest_from(self.objects@, i as int, *ray, time0.start, time.end, closest)
                    == spec_scene_nearest(self.objects@, *ray, time0),
            decreases self.objects@.len() - i,
        {
            if let Some(intersection) = self.objects[i].hit(ray, time) {
                // Update the closest intersection.
                time.end = intersection.t;
                closest = Some(intersection);
            }
            i = i + 1;
        }

        closest
    }

    /// Obtains candidates from the hierarchy and tests only those, against
    /// the same shrinking interval: later candidates can only improve on
    /// the current best, whatever order they arrive in.
    #[verifier::rlimit(100)]
    fn hit_fast(&self, ray: &Ray, time: Interval) -> (r: Option<Intersection>)
        requires
            spec_scene_bvh_ok(*self),
            self.bvh is Some,
        ensures
            r matches Some(h) ==> time.start < h.t < time.end && spec_some_hit_eq(
                self.objects@,
                *ray,
                time,
                h,
            ),
            spec_boxes_conservative(self.objects@, *ray, time) ==> {
                &&& r is Some <==> spec_scene_nearest(self.objects@, *ray, time) is Some
                &&& r matches Some(h) ==> (spec_scene_nearest(self.objects@, *ray, time)
                    matches Some(g) && h.t == g.t && h.point == g.point)
            },
            (spec_boxes_conservative(self.objects@, *ray, time) && spec_hits_tie_free(
                self.objects@,
                *ray,
                time,
            )) ==> r == spec_scene_nearest(self.objects@, *ray, time),
    {
        let ghost objs = self.objects@;
        let ghost full = time;
        let ghost pairs = spec_scene_pairs(objs);
        let n = self.objects.len();
        proof {
            assert(objs.len() == n);
        }
        let bvh = match &self.bvh {
            Some(b) => b,
            None => {
                proof {
                    assert(false);
                }
                return None;
            },
        };

        proof {
            lemma_nearest_from_char(objs, 0, *ray, time.start, time.end, time.end, None);
        }

        // Get the objects that could be hit by the ray.
        let candidates = bvh.hit(ray, time);

        let ids = match candidates {
            Some(ids) => ids,
            None => {
                proof {
                    if spec_boxes_conservative(objs, *ray, full) {
                        // A hitting object's pair would have been recorded.
                        assert forall|j: int|
                            0 <= j < objs.len() implies #[trigger] spec_object_hit(
                            objs[j],
                            *ray,
                            full,
                        ) is None by {
                            if spec_object_hit(objs[j], *ray, full) is Some {
                                lemma_scene_pairs_index(objs, j);
                                assert(spec_bvh_pairs(*bvh).contains(
                                    (ObjectId(j as usize), spec_object_box(objs[j])),
                                ));
                            }
                        }
                        let nr = spec_scene_nearest(objs, *ray, full);
                        if nr is Some {
                            let g = nr->0;
                            let i = choose|i: int|
                                0 <= i < objs.len() && #[trigger] spec_object_hit(
                                    objs[i],
                                    *ray,
                                    full,
                                ) == Some(g);
                        }
                    }
                }
                return None;
            },
        };

        proof {
            assert forall|k: int| 0 <= k < ids@.len() implies 0 <= #[trigger] ids@[k]@
                < objs.len() by {
                assert(spec_pairs_carry(spec_bvh_pairs(*bvh), ids@[k]));
                let p = choose|p: (ObjectId, Aabb)|
                    #[trigger] spec_bvh_pairs(*bvh).contains(p) && p.0 == ids@[k];
                lemma_scene_pairs_member(objs, p);
            }
        }

        let mut closest: Option<Intersection> = None;
        let mut time = time;
        let mut i: usize = 0;

        // Check each possible object for intersections.
        while i < ids.len()
            invariant
                i <= ids@.len(),
                objs == self.objects@,
                time.start == full.start,
                forall|k: int| 0 <= k < ids@.len() ==> 0 <= #[trigger] ids@[k]@ < objs.len(),
                closest is None ==> time.end == full.end,
                closest matches Some(b) ==> time.end == b.t && full.start < b.t < full.end
                    && spec_some_hit_eq(objs, *ray, full, b),
                forall|k: int|
                    0 <= k < i ==> (#[trigger] spec_object_hit(objs[ids@[k]@], *ray, full)
                        matches Some(g) ==> g.t >= time.end),
            decreases ids@.len() - i,
        {
            let oid = ids[i];
            if let Some(intersection) = self.objects[oid.0].hit(ray, time) {
                proof {
                    lemma_object_hit_shrink(objs[oid@], *ray, full, time.end);
                    lemma_object_hit_props(objs[oid@], *ray, full);
                    assert(spec_object_hit(objs[oid@], *ray, full) == Some(intersection));
                }
                // Update the closest intersection.
                time.end = intersection.t;
                closest = Some(intersection);
            } else {
                proof {
                    lemma_object_hit_shrink(objs[oid@], *ray, full, time.end);
                }
            }
            i = i + 1;
        }

        proof {
            if spec_boxes_conservative(objs, *ray, full) {
                // Every object with a hit was recorded as a candidate, so
                // the loop's best is as close as any object's hit.
                assert forall|j: int|
                    0 <= j < objs.len() && #[trigger] spec_object_hit(objs[j], *ray, full)
                        is Some implies (spec_object_hit(objs[j], *ray, full) matches Some(g)
                    && g.t >= time.end) by {
                    lemma_scene_pairs_index(objs, j);
                    let pj = (ObjectId(j as usize), spec_object_box(objs[j]));
                    assert(spec_bvh_pairs(*bvh).contains(pj));
                    assert(spec_id_recorded(ids@, pj.0));
                    let k = choose|k: int| 0 <= k < ids@.len() && ids@[k] == pj.0;
                    assert(ids@[k]@ == j);
                }
                match closest {
                    Some(b) => {
                        assert(!spec_no_hits(objs, *ray, full));
                        let nr = spec_scene_nearest(objs, *ray, full);
                        if nr is Some {
                            let g = nr->0;
                            let jb = choose|i: int|
                                0 <= i < objs.len() && #[trigger] spec_object_hit(
                                    objs[i],
                                    *ray,
                                    full,
                                ) == Some(b);
                            let jg = choose|i: int|
                                0 <= i < objs.len() && #[trigger] spec_object_hit(
                                    objs[i],
                                    *ray,
                                    full,
                                ) == Some(g);
                            assert(b.t >= g.t);
                            assert(g.t >= time.end);
                            lemma_object_hit_props(objs[jb], *ray, full);
                            lemma_object_hit_props(objs[jg], *ray, full);
                            // With no distance tied between two distinct
                            // records, the nearest record itself is pinned.
                            if spec_hits_tie_free(objs, *ray, full) {
                                assert(b == g);
                            }
                        }
                    },
                    None => {
                        assert forall|j: int|
                            0 <= j < objs.len() implies #[trigger] spec_object_hit(
                            objs[j],
                            *ray,
                            full,
                        ) is None by {
                            if spec_object_hit(objs[j], *ray, full) matches Some(g) {
                                lemma_object_hit_props(objs[j], *ray, full);
                            }
                        }
                        let nr = spec_scene_nearest(objs, *ray, full);
                        if nr is Some {
                            let g = nr->0;
                            let i = choose|i: int|
                                0 <= i < objs.len() && #[trigger] spec_object_hit(
                                    objs[i],
                                    *ray,
                                    full,
                                ) == Some(g);
                        }
                    },
                }
            }
        }

        closest
    }
}

} // verus!
