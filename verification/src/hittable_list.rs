//! A scene: a list of spheres, searched one by one for the nearest hit.
use crate::fixed::{
    fx_add, fx_neg, fx_sqrt, fx_sub, lemma_fx_div_monotonic, lemma_fx_mul_square,
    lemma_fx_sqrt_nonnegative, Fixed,
};
use crate::hittable::{hit_model, HitModel, HitRecord, Hittable};
use crate::ray::{Ray, RayModel};
use crate::sphere::{
    far_root, near_root, sphere_discriminant, sphere_hit_spec, Sphere, SphereModel,
};
use crate::vec3::{v3_dot, v3_in_range, v3_length_squared, v3_sub};
use vstd::prelude::*;

verus! {

/// The upper end of the window in which the next object is searched: the
/// parameter of the nearest hit so far, or the caller's bound.
pub open spec fn window_end(best: Option<HitModel>, t_max: int) -> int {
    match best {
        Some(h) => h.t,
        None => t_max,
    }
}

/// The hit that a scan of `objs` in order ends with. Each object is asked
/// for a hit no farther than the nearest one of the objects before it, and
/// replaces that one when it has one.
pub open spec fn scan_spec(objs: Seq<SphereModel>, r: RayModel, t_min: int, t_max: int) -> Option<
    HitModel,
>
    decreases objs.len(),
{
    if objs.len() == 0 {
        None
    } else {
        let before = scan_spec(objs.drop_last(), r, t_min, t_max);
        match sphere_hit_spec(objs.last(), r, t_min, window_end(before, t_max)) {
            Some(h) => Some(h),
            None => before,
        }
    }
}

/// Whether `best` is the nearest of the hits that the objects of `objs` have
/// in `[t_min, t_max]`, each taken by itself: no hit where none of them has
/// one, else a hit of one of them that none of the others undercuts.
pub open spec fn is_nearest_hit(
    objs: Seq<SphereModel>,
    r: RayModel,
    t_min: int,
    t_max: int,
    best: Option<HitModel>,
) -> bool {
    match best {
        None => forall|i: int|
            0 <= i < objs.len() ==> sphere_hit_spec(#[trigger] objs[i], r, t_min, t_max) is None,
        Some(b) => {
            &&& exists|i: int|
                0 <= i < objs.len() && sphere_hit_spec(#[trigger] objs[i], r, t_min, t_max)
                    == Some(b)
            &&& forall|j: int|
                0 <= j < objs.len() ==> (sphere_hit_spec(#[trigger] objs[j], r, t_min, t_max)
                    matches Some(h) ==> b.t <= h.t)
        },
    }
}

/// The smaller root is not above the larger one.
pub proof fn lemma_roots_ordered(a: int, half_b: int, sqrtd: int)
    requires
        a >= 0,
        sqrtd >= 0,
    ensures
        near_root(a, half_b, sqrtd) <= far_root(a, half_b, sqrtd),
{
    lemma_fx_div_monotonic(fx_sub(fx_neg(half_b), sqrtd), fx_add(fx_neg(half_b), sqrtd), a);
}

/// What a sphere answers in a window that ends earlier: the same hit where
/// it still answers, and where it does not, its hit lay beyond the new end.
pub proof fn lemma_shorter_window(s: SphereModel, r: RayModel, t_min: int, closest: int, t_max: int)
    requires
        closest <= t_max,
    ensures
        sphere_hit_spec(s, r, t_min, closest) matches Some(h) ==> sphere_hit_spec(
            s,
            r,
            t_min,
            t_max,
        ) == Some(h) && t_min <= h.t <= closest,
        sphere_hit_spec(s, r, t_min, closest) is None ==> (sphere_hit_spec(s, r, t_min, t_max)
            matches Some(h) ==> closest < h.t),
{
    reveal(sphere_hit_spec);
    let a = v3_length_squared(r.direction);
    let discriminant = sphere_discriminant(s, r);
    lemma_fx_mul_square(r.direction.x);
    lemma_fx_mul_square(r.direction.y);
    lemma_fx_mul_square(r.direction.z);
    if discriminant >= 0 {
        let sqrtd = fx_sqrt(discriminant);
        assert(sqrtd >= 0) by {
            lemma_fx_sqrt_nonnegative(discriminant);
        }
        lemma_roots_ordered(a, v3_dot(v3_sub(r.origin, s.center), r.direction), sqrtd);
    }
}

/// A scan ends with the nearest hit, whatever the order of the objects.
pub proof fn lemma_scan_nearest(objs: Seq<SphereModel>, r: RayModel, t_min: int, t_max: int)
    ensures
        is_nearest_hit(objs, r, t_min, t_max, scan_spec(objs, r, t_min, t_max)),
        scan_spec(objs, r, t_min, t_max) matches Some(b) ==> t_min <= b.t <= t_max,
    decreases objs.len(),
{
    if objs.len() > 0 {
        let front = objs.drop_last();
        let before = scan_spec(front, r, t_min, t_max);
        let closest = window_end(before, t_max);
        let k = objs.len() - 1;
        lemma_scan_nearest(front, r, t_min, t_max);
        lemma_shorter_window(objs[k], r, t_min, closest, t_max);
        assert(forall|i: int| 0 <= i < k ==> front[i] == objs[i]);
        let after = scan_spec(objs, r, t_min, t_max);
        match sphere_hit_spec(objs[k], r, t_min, closest) {
            Some(h) => {
                assert(sphere_hit_spec(objs[k], r, t_min, t_max) == Some(h));
                assert forall|j: int| 0 <= j < objs.len() implies (sphere_hit_spec(
                    #[trigger] objs[j],
                    r,
                    t_min,
                    t_max,
                ) matches Some(hj) ==> h.t <= hj.t) by {
                    if j < k {
                        assert(front[j] == objs[j]);
                    }
                }
            },
            None => {
                match before {
                    Some(b) => {
                        let i = choose|i: int|
                            0 <= i < front.len() && sphere_hit_spec(
                                #[trigger] front[i],
                                r,
                                t_min,
                                t_max,
                            ) == Some(b);
                        assert(objs[i] == front[i]);
                        assert forall|j: int| 0 <= j < objs.len() implies (sphere_hit_spec(
                            #[trigger] objs[j],
                            r,
                            t_min,
                            t_max,
                        ) matches Some(hj) ==> b.t <= hj.t) by {
                            if j < k {
                                assert(front[j] == objs[j]);
                            }
                        }
                    },
                    None => {
                        assert forall|i: int| 0 <= i < objs.len() implies sphere_hit_spec(
                            #[trigger] objs[i],
                            r,
                            t_min,
                            t_max,
                        ) is None by {
                            if i < k {
                                assert(front[i] == objs[i]);
                            }
                        }
                    },
                }
            },
        }
    }
}

/// Where `best` is the nearest hit of the objects of `objs`, every object
/// of a rearrangement of them that has a hit has one no nearer than `best`,
/// and `best` is not missing.
proof fn lemma_nearest_carries_over(
    objs: Seq<SphereModel>,
    others: Seq<SphereModel>,
    r: RayModel,
    t_min: int,
    t_max: int,
    best: Option<HitModel>,
    j: int,
)
    requires
        objs.to_multiset() == others.to_multiset(),
        is_nearest_hit(objs, r, t_min, t_max, best),
        0 <= j < others.len(),
        sphere_hit_spec(others[j], r, t_min, t_max) is Some,
    ensures
        best matches Some(b) && b.t <= sphere_hit_spec(others[j], r, t_min, t_max).unwrap().t,
{
    objs.to_multiset_ensures();
    others.to_multiset_ensures();
    assert(others.contains(others[j]));
    assert(others.to_multiset().count(others[j]) > 0);
    assert(objs.to_multiset().count(others[j]) > 0);
    assert(objs.contains(others[j]));
    let i = choose|i: int| 0 <= i < objs.len() && objs[i] == others[j];
    assert(sphere_hit_spec(objs[i], r, t_min, t_max) is Some);
}

/// The parameter of the nearest hit does not depend on the order in which
/// the objects of the scene are searched: two scenes of the same objects
/// either both have no hit, or both have one at the same parameter.
pub proof fn lemma_scan_order_independent(
    first: Seq<SphereModel>,
    second: Seq<SphereModel>,
    r: RayModel,
    t_min: int,
    t_max: int,
)
    requires
        first.to_multiset() == second.to_multiset(),
    ensures
        match (scan_spec(first, r, t_min, t_max), scan_spec(second, r, t_min, t_max)) {
            (Some(a), Some(b)) => a.t == b.t,
            (None, None) => true,
            _ => false,
        },
{
    let a = scan_spec(first, r, t_min, t_max);
    let b = scan_spec(second, r, t_min, t_max);
    lemma_scan_nearest(first, r, t_min, t_max);
    lemma_scan_nearest(second, r, t_min, t_max);
    if let Some(hit) = a {
        let i = choose|i: int|
            0 <= i < first.len() && sphere_hit_spec(#[trigger] first[i], r, t_min, t_max) == Some(
                hit,
            );
        lemma_nearest_carries_over(second, first, r, t_min, t_max, b, i);
    }
    if let Some(hit) = b {
        let j = choose|j: int|
            0 <= j < second.len() && sphere_hit_spec(#[trigger] second[j], r, t_min, t_max)
                == Some(hit);
        lemma_nearest_carries_over(first, second, r, t_min, t_max, a, j);
    }
}

/// What a scan ends with is the hit of one of the objects: its material is
/// the material of that object, and its normal is a vector.
pub proof fn lemma_scan_hit_is_of_an_object(
    objs: Seq<SphereModel>,
    r: RayModel,
    t_min: int,
    t_max: int,
)
    ensures
        scan_spec(objs, r, t_min, t_max) matches Some(rec) ==> v3_in_range(rec.normal) && exists|
            i: int,
        |
            0 <= i < objs.len() && rec.material == (#[trigger] objs[i]).material,
{
    lemma_scan_nearest(objs, r, t_min, t_max);
    if let Some(rec) = scan_spec(objs, r, t_min, t_max) {
        let i = choose|i: int|
            0 <= i < objs.len() && sphere_hit_spec(#[trigger] objs[i], r, t_min, t_max) == Some(
                rec,
            );
        reveal(sphere_hit_spec);
        assert(rec.material == objs[i].material);
    }
}

/// The objects of a scene, in the order in which they are searched.
pub struct HittableList {
    pub objects: Vec<Sphere>,
}

impl HittableList {
    /// The models of the objects, in order.
    pub open spec fn models(&self) -> Seq<SphereModel> {
        Seq::new(self.objects@.len(), |i: int| self.objects@[i]@)
    }
}

impl Hittable for HittableList {
    open spec fn hit_spec(&self, r: RayModel, t_min: int, t_max: int) -> Option<HitModel> {
        scan_spec(self.models(), r, t_min, t_max)
    }

    fn hit(&self, r: &Ray, t_min: Fixed, t_max: Fixed) -> (rec: Option<HitRecord>)
        ensures
            hit_model(rec) == scan_spec(self.models(), r@, t_min@, t_max@),
            is_nearest_hit(self.models(), r@, t_min@, t_max@, hit_model(rec)),
    {
        let mut hit_record: Option<HitRecord> = None;
        let mut closest_so_far = t_max;
        let mut i: usize = 0;
        assert(self.models().take(0) =~= Seq::empty());
        while i < self.objects.len()
            invariant
                i <= self.objects.len(),
                hit_model(hit_record) == scan_spec(self.models().take(i as int), r@, t_min@, t_max@),
                closest_so_far@ == window_end(hit_model(hit_record), t_max@),
                hit_record matches Some(h) ==> t_min@ <= h@.t <= t_max@ && v3_dot(
                    r@.direction,
                    h@.normal,
                ) <= 0,
            decreases self.objects.len() - i,
        {
            proof {
                let next = self.models().take(i as int + 1);
                assert(next.drop_last() =~= self.models().take(i as int));
                assert(next.last() == self.objects@[i as int]@);
                lemma_scan_nearest(self.models().take(i as int), r@, t_min@, t_max@);
            }
            match self.objects[i].hit(r, t_min, closest_so_far) {
                Some(hit) => {
                    closest_so_far = hit.t;
                    hit_record = Some(hit);
                },
                None => {},
            }
            i += 1;
        }
        proof {
            assert(self.models().take(i as int) =~= self.models());
            lemma_scan_nearest(self.models(), r@, t_min@, t_max@);
        }
        hit_record
    }
}

} // verus!
