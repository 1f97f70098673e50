//! The scene: an ordered collection of spheres that itself satisfies the
//! intersection capability by closest-hit reduction.
//!
//! The search narrows the interval's upper end to the nearest hit found
//! so far, so later candidates can only be closer; the lemmas at the end
//! state the closest-hit guarantee the renderer depends on.

use crate::hit_record::{HitRecord, HitS, Hittable};
use crate::material::mat_albedo_ok;
use crate::interval::{Interval, IntervalS};
use crate::ray::{Ray, RayS};
use crate::sphere::{
    lemma_sphere_hit_yields, lemma_sphere_self_excluded, lemma_sphere_shrink, sp_yields,
    sphere_hit, Sphere, SphereS,
};
use vstd::prelude::*;

verus! {

/// The closest-hit fold over a scene: each sphere is queried with the
/// interval narrowed to the nearest hit among the spheres before it.
pub open spec fn list_hit(objs: Seq<SphereS>, ray: RayS, itv: IntervalS) -> Option<HitS>
    decreases objs.len(),
{
    if objs.len() == 0 {
        None
    } else {
        let prev = list_hit(objs.drop_last(), ray, itv);
        let bound = match prev {
            Some(h) => h.t,
            None => itv.max,
        };
        match sphere_hit(objs.last(), ray, IntervalS { min: itv.min, max: bound }) {
            Some(h) => Some(h),
            None => prev,
        }
    }
}

/// Every material in the scene has an attenuation color inside the
/// unit cube, so no bounce can amplify a channel.
pub open spec fn albedos_ok(world: Seq<SphereS>) -> bool {
    forall|i: int| 0 <= i < world.len() ==> mat_albedo_ok(#[trigger] world[i].material)
}

/// An ordered collection of spheres; order does not affect the result
/// (the closest hit wins).
pub struct HittableList {
    pub objects: Vec<Sphere>,
}

impl View for HittableList {
    type V = Seq<SphereS>;

    open spec fn view(&self) -> Seq<SphereS> {
        self.objects@.map_values(|s: Sphere| s@)
    }
}

impl HittableList {
    /// An empty scene.
    pub fn new() -> (r: Self)
        ensures
            r@ == Seq::<SphereS>::empty(),
    {
        let r = Self { objects: Vec::new() };
        proof {
            assert(r@ =~= Seq::<SphereS>::empty());
        }
        r
    }

    /// Append a primitive to the scene.
    pub fn push(&mut self, obj: Sphere)
        ensures
            final(self)@ == old(self)@.push(obj@),
    {
        self.objects.push(obj);
        proof {
            assert(self@ =~= old(self)@.push(obj@));
        }
    }
}

impl Hittable for HittableList {
    open spec fn hit_spec(&self, ray: RayS, itv: IntervalS) -> Option<HitS> {
        list_hit(self@, ray, itv)
    }

    fn hit(&self, ray: &Ray, interval: &Interval, hit_record: &mut HitRecord) -> (found: bool) {
        let mut tmp_record = HitRecord::new();
        let mut hit_anything = false;
        let mut closest = interval.max;
        let ghost objs = self@;
        let n = self.objects.len();
        let mut k: usize = 0;
        while k < n
            invariant
                k <= n,
                n == self.objects.len(),
                objs == self@,
                match list_hit(objs.take(k as int), ray@, interval@) {
                    Some(h) => hit_anything && tmp_record@ == h && closest@ == h.t,
                    None => !hit_anything && closest@ == interval@.max,
                },
            decreases n - k,
        {
            let obj = &self.objects[k];
            proof {
                assert(objs[k as int] == obj@);
                assert(objs.take(k as int + 1).drop_last() =~= objs.take(k as int));
                assert(objs.take(k as int + 1).last() == objs[k as int]);
            }
            if obj.hit(ray, &Interval::new_with_values(interval.min, closest), &mut tmp_record) {
                hit_anything = true;
                closest = tmp_record.t;
            }
            k = k + 1;
        }
        proof {
            assert(objs.take(n as int) =~= objs);
        }
        if hit_anything {
            *hit_record = tmp_record;
        }
        hit_anything
    }
}

/// The scene misses exactly when every sphere misses: the closest-hit
/// fold reports no intersection if and only if no sphere has an
/// admissible one in the queried interval.
#[verifier::rlimit(60)]
pub proof fn lemma_list_hit_none(objs: Seq<SphereS>, ray: RayS, itv: IntervalS)
    ensures
        (list_hit(objs, ray, itv) is None) <==> (forall|i: int|
            0 <= i < objs.len() ==> sphere_hit(#[trigger] objs[i], ray, itv) is None),
    decreases objs.len(),
{
    if objs.len() > 0 {
        let prefix = objs.drop_last();
        lemma_list_hit_none(prefix, ray, itv);
        assert(forall|i: int| 0 <= i < prefix.len() ==> prefix[i] == objs[i]);
        let prev = list_hit(prefix, ray, itv);
        if prev is None {
            assert(objs.last() == objs[objs.len() - 1]);
        } else {
            // The fold already found a hit in the prefix, so some sphere
            // has an admissible intersection in the full interval.
            let hp = prev->Some_0;
            lemma_list_hit_minimal(prefix, ray, itv);
            let wi = choose|i: int|
                0 <= i < prefix.len() && sp_yields(#[trigger] prefix[i], ray, itv.min, hp);
            assert(sphere_hit(objs[wi], ray, itv) is Some);
        }
    }
}

/// The closest-hit guarantee: a reported intersection lies strictly
/// inside the queried interval, is a genuine record of one of the
/// spheres, and no sphere intersects strictly nearer — so the record
/// (its material included) belongs to the sphere with the globally
/// minimal admissible parameter.
#[verifier::rlimit(60)]
pub proof fn lemma_list_hit_minimal(objs: Seq<SphereS>, ray: RayS, itv: IntervalS)
    requires
        list_hit(objs, ray, itv) is Some,
    ensures
        ({
            let h = list_hit(objs, ray, itv)->Some_0;
            &&& itv.min < h.t < itv.max
            &&& exists|i: int| 0 <= i < objs.len() && sp_yields(#[trigger] objs[i], ray, itv.min, h)
            &&& forall|i: int|
                0 <= i < objs.len() ==> sphere_hit(
                    #[trigger] objs[i],
                    ray,
                    IntervalS { min: itv.min, max: h.t },
                ) is None
        }),
    decreases objs.len(),
{
    let h = list_hit(objs, ray, itv)->Some_0;
    let prefix = objs.drop_last();
    let last = objs.last();
    assert(forall|i: int| 0 <= i < prefix.len() ==> prefix[i] == objs[i]);
    assert(last == objs[objs.len() - 1]);
    let prev = list_hit(prefix, ray, itv);
    let bound = match prev {
        Some(hp) => hp.t,
        None => itv.max,
    };
    let narrowed = IntervalS { min: itv.min, max: bound };
    match sphere_hit(last, ray, narrowed) {
        Some(hl) => {
            // The last sphere's hit is the result; everything before it
            // already had nothing nearer than `bound`, and `hl.t < bound`.
            lemma_sphere_hit_yields(last, ray, narrowed);
            lemma_sphere_self_excluded(last, ray, narrowed);
            if prev is Some {
                lemma_list_hit_minimal(prefix, ray, itv);
            } else {
                lemma_list_hit_none(prefix, ray, itv);
            }
            assert forall|i: int| 0 <= i < objs.len() implies sphere_hit(
                #[trigger] objs[i],
                ray,
                IntervalS { min: itv.min, max: h.t },
            ) is None by {
                if i < objs.len() - 1 {
                    assert(objs[i] == prefix[i]);
                    if prev is Some {
                        lemma_sphere_shrink(objs[i], ray, itv.min, bound, h.t);
                    } else {
                        lemma_sphere_shrink(objs[i], ray, itv.min, itv.max, h.t);
                    }
                } else {
                    assert(objs[i] == last);
                }
            }
            assert(sp_yields(objs[objs.len() - 1], ray, itv.min, h));
        },
        None => {
            // The result came from the prefix; the last sphere itself
            // had nothing nearer than the prefix's hit.
            lemma_list_hit_minimal(prefix, ray, itv);
            assert forall|i: int| 0 <= i < objs.len() implies sphere_hit(
                #[trigger] objs[i],
                ray,
                IntervalS { min: itv.min, max: h.t },
            ) is None by {
                if i < objs.len() - 1 {
                    assert(objs[i] == prefix[i]);
                } else {
                    assert(objs[i] == last);
                }
            }
            let wi = choose|i: int|
                0 <= i < prefix.len() && sp_yields(#[trigger] prefix[i], ray, itv.min, h);
            assert(sp_yields(objs[wi], ray, itv.min, h));
        },
    }
}

} // verus!
