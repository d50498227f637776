//! The iterated function system: an ordered, weighted set of transforms,
//! the cached sampling distribution over their weights, and the chaos-game
//! evaluator that deposits color energy into an accumulation image.

use vstd::prelude::*;
use crate::fixed::{SCALE, PARAM_LIMIT, POINT_LIMIT};
use crate::util::{Color, Point, Error, valid_color, valid_point};
use crate::transform::{
    Transform, same_kind, valid_transform, morph_spec, kinds_match, final_transform,
};
use crate::rng::{WeightedDist, wi_weights, sum_u64, new_weighted_index, sample_weighted,
    rand_below};
use crate::image::{Image, idx_spec, sat_add_spec, lemma_idx_bound};

verus! {

/// The weights of a sequence of transforms, in order, as sampling weights.
pub open spec fn weights_seq(s: Seq<Transform>) -> Seq<u64> {
    Seq::new(s.len(), |i: int| s[i].weight_spec() as u64)
}

/// The total weight of a sequence of transforms.
pub open spec fn total_of(s: Seq<Transform>) -> int
    decreases s.len(),
{
    if s.len() == 0 {
        0
    } else {
        total_of(s.drop_last()) + s.last().weight_spec()
    }
}

/// Two transform sequences are shape-compatible: equal length and the same
/// transform kind at every position.
pub open spec fn shape_compatible(a: Seq<Transform>, b: Seq<Transform>) -> bool {
    &&& a.len() == b.len()
    &&& forall|i: int| 0 <= i < a.len() ==> same_kind(a[i], b[i])
}

/// For valid transforms, the sampling weights sum to the total weight, and
/// the total is bracketed by the count and the count times the largest
/// weight.
proof fn lemma_total(s: Seq<Transform>)
    requires
        forall|i: int| 0 <= i < s.len() ==> valid_transform(#[trigger] s[i]),
    ensures
        sum_u64(weights_seq(s)) == total_of(s),
        s.len() <= total_of(s) <= s.len() * PARAM_LIMIT,
    decreases s.len(),
{
    if s.len() > 0 {
        lemma_total(s.drop_last());
        assert(weights_seq(s).drop_last() =~= weights_seq(s.drop_last()));
        assert(weights_seq(s).last() == s.last().weight_spec() as u64);
        assert((s.len() - 1) * PARAM_LIMIT + PARAM_LIMIT == s.len() * PARAM_LIMIT)
            by (nonlinear_arith);
    }
}

/// Removing an element takes exactly its weight out of the total.
proof fn lemma_total_remove(s: Seq<Transform>, i: int)
    requires
        0 <= i < s.len(),
    ensures
        total_of(s.remove(i)) == total_of(s) - s[i].weight_spec(),
    decreases s.len(),
{
    if i == s.len() - 1 {
        assert(s.remove(i) =~= s.drop_last());
    } else {
        assert(s.remove(i).drop_last() =~= s.drop_last().remove(i));
        lemma_total_remove(s.drop_last(), i);
    }
}

/// Appending an element adds exactly its weight to the total.
proof fn lemma_total_push(s: Seq<Transform>, t: Transform)
    ensures
        total_of(s.push(t)) == total_of(s) + t.weight_spec(),
{
    assert(s.push(t).drop_last() =~= s);
}

/// An iterated function system: an ordered list of transforms with their
/// cached total weight and the weighted sampling distribution that every
/// structural change rebuilds.
pub struct IFS {
    /// The transforms, in insertion order.
    pub transforms: Vec<Transform>,
    /// The number of transforms, kept alongside the vector.
    pub num_transforms: usize,
    /// The cached sum of all weights.
    pub total_weight: i64,
    /// The cached sampling distribution; absent exactly when the set is
    /// empty.
    pub distribution: Option<WeightedDist>,
}

impl IFS {
    /// The cached count and total match the transforms, every transform is
    /// valid, and the distribution reflects the current weights.
    pub open spec fn wf(self) -> bool {
        &&& self.num_transforms == self.transforms@.len()
        &&& forall|i: int|
            0 <= i < self.transforms@.len() ==> valid_transform(#[trigger] self.transforms@[i])
        &&& self.total_weight == total_of(self.transforms@)
        &&& match self.distribution {
            Some(d) => wi_weights(d) == weights_seq(self.transforms@)
                && self.transforms@.len() > 0,
            None => self.transforms@.len() == 0,
        }
    }

    /// An empty system.
    pub fn new() -> (r: IFS)
        ensures
            r.wf(),
            r.transforms@.len() == 0,
    {
        IFS { transforms: Vec::new(), num_transforms: 0, total_weight: 0, distribution: None }
    }

    /// The number of transforms.
    pub fn len(&self) -> (n: usize)
        requires
            self.wf(),
        ensures
            n == self.transforms@.len(),
    {
        self.num_transforms
    }

    /// Whether the system holds no transforms.
    pub fn is_empty(&self) -> (b: bool)
        requires
            self.wf(),
        ensures
            b == (self.transforms@.len() == 0),
    {
        self.num_transforms == 0
    }

    /// The transform at index `i`; an out-of-range index is an error.
    pub fn get_transform(&self, i: usize) -> (r: Result<Transform, Error>)
        requires
            self.wf(),
        ensures
            r is Ok <==> i < self.transforms@.len(),
            r is Ok ==> r->Ok_0 == self.transforms@[i as int],
            r is Err ==> r->Err_0 == Error::IndexOutOfRange,
    {
        if i < self.num_transforms {
            Ok(self.transforms[i])
        } else {
            Err(Error::IndexOutOfRange)
        }
    }

    /// Whether every transform of this system has the same kind as the
    /// transform at the same position of the other; values may differ.
    pub fn check_transforms_match(&self, other: &IFS) -> (r: bool)
        requires
            self.wf(),
            other.wf(),
        ensures
            r == shape_compatible(self.transforms@, other.transforms@),
    {
        if self.num_transforms != other.num_transforms {
            return false;
        }
        let n = self.num_transforms;
        let mut i: usize = 0;
        while i < n
            invariant
                self.wf(),
                other.wf(),
                n == self.transforms@.len(),
                n == other.transforms@.len(),
                i <= n,
                forall|j: int| 0 <= j < i ==> same_kind(self.transforms@[j], other.transforms@[j]),
            decreases n - i,
        {
            if !kinds_match(&self.transforms[i], &other.transforms[i]) {
                return false;
            }
            i = i + 1;
        }
        true
    }

    /// Rebuild the cached sampling distribution from the current weights.
    fn rebuild_distribution(&mut self)
        requires
            old(self).num_transforms == old(self).transforms@.len(),
            forall|i: int|
                0 <= i < old(self).transforms@.len() ==> valid_transform(
                    #[trigger] old(self).transforms@[i],
                ),
            old(self).total_weight == total_of(old(self).transforms@),
        ensures
            final(self).wf(),
            final(self).transforms == old(self).transforms,
            final(self).num_transforms == old(self).num_transforms,
            final(self).total_weight == old(self).total_weight,
    {
        proof {
            lemma_total(self.transforms@);
        }
        if self.num_transforms == 0 {
            self.distribution = None;
            return;
        }
        let n = self.num_transforms;
        let mut ws: Vec<u64> = Vec::new();
        let mut i: usize = 0;
        while i < n
            invariant
                n == self.transforms@.len(),
                forall|j: int|
                    0 <= j < self.transforms@.len() ==> valid_transform(
                        #[trigger] self.transforms@[j],
                    ),
                i <= n,
                ws@.len() == i,
                forall|j: int| 0 <= j < i ==> ws@[j] == self.transforms@[j].weight_spec() as u64,
            decreases n - i,
        {
            let w = self.transforms[i].get_weight();
            ws.push(w as u64);
            i = i + 1;
        }
        proof {
            assert(ws@ =~= weights_seq(self.transforms@));
            lemma_total(self.transforms@);
        }
        match new_weighted_index(&ws) {
            Some(d) => {
                self.distribution = Some(d);
            },
            None => {
                vstd::pervasive::unreached::<()>();
            },
        }
    }

    /// Append a transform, account its weight into the total, and rebuild
    /// the sampling distribution.
    pub fn add_transform(&mut self, transform: Transform)
        requires
            old(self).wf(),
            valid_transform(transform),
            old(self).total_weight + transform.weight_spec() <= i64::MAX,
        ensures
            final(self).wf(),
            final(self).transforms@ == old(self).transforms@.push(transform),
            final(self).total_weight == old(self).total_weight + transform.weight_spec(),
    {
        proof {
            lemma_total_push(self.transforms@, transform);
        }
        let w = transform.get_weight();
        self.total_weight = self.total_weight + w;
        self.transforms.push(transform);
        let n2 = self.transforms.len();
        self.num_transforms = n2;
        self.rebuild_distribution();
    }

    /// Remove the transform at `index` and rebuild the distribution; an
    /// out-of-range index is an error and changes nothing.
    pub fn delete_transform(&mut self, index: usize) -> (r: Result<(), Error>)
        requires
            old(self).wf(),
        ensures
            final(self).wf(),
            r is Ok <==> index < old(self).transforms@.len(),
            r is Ok ==> final(self).transforms@ == old(self).transforms@.remove(index as int),
            r is Err ==> r->Err_0 == Error::IndexOutOfRange && *final(self) == *old(self),
    {
        if index >= self.num_transforms {
            return Err(Error::IndexOutOfRange);
        }
        proof {
            lemma_total_remove(self.transforms@, index as int);
            lemma_total(self.transforms@);
            lemma_total(self.transforms@.remove(index as int));
            assert(forall|j: int|
                0 <= j < self.transforms@.remove(index as int).len() ==> valid_transform(
                    #[trigger] self.transforms@.remove(index as int)[j],
                ));
        }
        let w = self.transforms[index].get_weight();
        self.total_weight = self.total_weight - w;
        self.transforms.remove(index);
        self.num_transforms = self.num_transforms - 1;
        self.rebuild_distribution();
        Ok(())
    }

    /// Replace every transform by a fresh random transform of the same
    /// kind, and rebuild the weights and the distribution.
    pub fn randomize(&mut self, rng: &mut rand::rngs::StdRng)
        requires
            old(self).wf(),
            old(self).transforms@.len() * PARAM_LIMIT <= i64::MAX,
        ensures
            final(self).wf(),
            final(self).transforms@.len() == old(self).transforms@.len(),
            shape_compatible(old(self).transforms@, final(self).transforms@),
    {
        let n = self.num_transforms;
        let ghost orig = self.transforms@;
        let mut i: usize = 0;
        while i < n
            invariant
                n == self.transforms@.len(),
                self.num_transforms == n,
                self.transforms@.len() * PARAM_LIMIT <= i64::MAX,
                orig.len() == n,
                i <= n,
                forall|j: int|
                    0 <= j < self.transforms@.len() ==> valid_transform(
                        #[trigger] self.transforms@[j],
                    ),
                forall|j: int| 0 <= j < n ==> same_kind(orig[j], self.transforms@[j]),
            decreases n - i,
        {
            let fresh: Transform = match &self.transforms[i] {
                Transform::LinearTransform(_) => Transform::LinearTransform(
                    crate::transform::LinearTransform::random(rng),
                ),
                Transform::AffineTransform(_) => Transform::AffineTransform(
                    crate::transform::AffineTransform::random(rng),
                ),
                Transform::InverseJuliaTransform(_) => Transform::InverseJuliaTransform(
                    crate::transform::InverseJuliaTransform::random(rng),
                ),
                Transform::MoebiusTransform(_) => Transform::MoebiusTransform(
                    crate::transform::MoebiusTransform::random(rng),
                ),
            };
            self.transforms[i] = fresh;
            i = i + 1;
        }
        let mut total: i64 = 0;
        let mut k: usize = 0;
        proof {
            assert(self.transforms@.subrange(0, 0) =~= Seq::<Transform>::empty());
        }
        while k < n
            invariant
                n == self.transforms@.len(),
                self.num_transforms == n,
                self.transforms@.len() * PARAM_LIMIT <= i64::MAX,
                forall|j: int|
                    0 <= j < self.transforms@.len() ==> valid_transform(
                        #[trigger] self.transforms@[j],
                    ),
                forall|j: int| 0 <= j < n ==> same_kind(orig[j], self.transforms@[j]),
                orig.len() == n,
                k <= n,
                total == total_of(self.transforms@.subrange(0, k as int)),
                0 <= total <= k * PARAM_LIMIT,
            decreases n - k,
        {
            proof {
                lemma_total(self.transforms@.subrange(0, k as int));
                assert(self.transforms@.subrange(0, k as int + 1).drop_last()
                    =~= self.transforms@.subrange(0, k as int));
                assert((k as int) * PARAM_LIMIT + PARAM_LIMIT == (k as int + 1) * PARAM_LIMIT)
                    by (nonlinear_arith);
                assert((k as int + 1) * PARAM_LIMIT <= (n as int) * PARAM_LIMIT)
                    by (nonlinear_arith)
                    requires
                        k as int + 1 <= n as int,
                        PARAM_LIMIT > 0,
                ;
            }
            let w = self.transforms[k].get_weight();
            total = total + w;
            k = k + 1;
        }
        proof {
            assert(self.transforms@.subrange(0, n as int) =~= self.transforms@);
        }
        self.total_weight = total;
        self.rebuild_distribution();
    }

    /// Pick a transform at random, each with probability proportional to
    /// its weight. The choice is random; every outcome is one of the
    /// system's own transforms.
    pub fn choose_transform(&self, rng: &mut rand::rngs::StdRng) -> (r: &Transform)
        requires
            self.wf(),
            self.transforms@.len() > 0,
        ensures
            exists|i: int| 0 <= i < self.transforms@.len() && *r == self.transforms@[i],
            valid_transform(*r),
    {
        match &self.distribution {
            Some(d) => {
                let i = sample_weighted(d, rng);
                proof {
                    assert(wi_weights(*d).len() == self.transforms@.len());
                }
                let t = &self.transforms[i];
                proof {
                    assert(0 <= (i as int) < self.transforms@.len() && *t == self.transforms@[
                    i as int]);
                }
                t
            },
            None => vstd::pervasive::unreached(),
        }
    }

    /// Morph this system toward `other` by `pct`, element by element;
    /// fails with `InvalidShape` exactly when the two are not
    /// shape-compatible.
    pub fn morph(&self, other: &IFS, pct: i64) -> (r: Result<IFS, Error>)
        requires
            self.wf(),
            other.wf(),
            0 <= pct <= SCALE,
            self.transforms@.len() * PARAM_LIMIT <= i64::MAX,
        ensures
            r is Ok <==> shape_compatible(self.transforms@, other.transforms@),
            r is Ok ==> r->Ok_0.wf() && r->Ok_0.transforms@.len() == self.transforms@.len()
                && (forall|i: int|
                0 <= i < self.transforms@.len() ==> r->Ok_0.transforms@[i] == morph_spec(
                    self.transforms@[i],
                    other.transforms@[i],
                    pct as int,
                )),
            r is Err ==> r->Err_0 == Error::InvalidShape,
    {
        if !self.check_transforms_match(other) {
            return Err(Error::InvalidShape);
        }
        let n = self.num_transforms;
        let mut out = IFS::new();
        let mut i: usize = 0;
        while i < n
            invariant
                self.wf(),
                other.wf(),
                0 <= pct <= SCALE,
                shape_compatible(self.transforms@, other.transforms@),
                n == self.transforms@.len(),
                self.transforms@.len() * PARAM_LIMIT <= i64::MAX,
                i <= n,
                out.wf(),
                out.transforms@.len() == i,
                out.total_weight <= i * PARAM_LIMIT,
                forall|j: int|
                    0 <= j < i ==> out.transforms@[j] == morph_spec(
                        self.transforms@[j],
                        other.transforms@[j],
                        pct as int,
                    ),
            decreases n - i,
        {
            let t = match self.transforms[i].morph(other.transforms[i], pct) {
                Ok(t) => t,
                Err(_) => vstd::pervasive::unreached(),
            };
            proof {
                assert((i as int) * PARAM_LIMIT + PARAM_LIMIT == (i as int + 1) * PARAM_LIMIT)
                    by (nonlinear_arith);
                assert((i as int + 1) * PARAM_LIMIT <= (n as int) * PARAM_LIMIT)
                    by (nonlinear_arith)
                    requires
                        i as int + 1 <= n as int,
                        PARAM_LIMIT > 0,
                ;
            }
            out.add_transform(t);
            i = i + 1;
        }
        Ok(out)
    }
}

impl Default for IFS {
    /// The default system is empty.
    fn default() -> (r: IFS)
        ensures
            r.wf(),
            r.transforms@.len() == 0,
    {
        IFS::new()
    }
}

/// Where the point `(fx, fy)` lands on a `width` by `height` pixel grid:
/// the floor of `(f + 1) * size / 2` per axis. `None` when the pixel lies
/// outside the grid; such a deposit is dropped.
pub open spec fn project_spec(f: int, size: int) -> int {
    ((f + SCALE) * size) / (2 * SCALE)
}

/// Whether the projected pixel of `(fx, fy)` lies on the grid.
pub open spec fn project_ok(fx: int, fy: int, w: int, h: int) -> bool {
    &&& 0 <= project_spec(fx, w) < w
    &&& 0 <= project_spec(fy, h) < h
}

/// Project a point to pixel coordinates, dropping it when it falls outside
/// the grid.
pub fn project(fx: i64, fy: i64, width: usize, height: usize) -> (r: Option<(usize, usize)>)
    requires
        -POINT_LIMIT <= fx <= POINT_LIMIT,
        -POINT_LIMIT <= fy <= POINT_LIMIT,
    ensures
        r is Some <==> project_ok(fx as int, fy as int, width as int, height as int),
        r is Some ==> ((r->0).0 as int) == project_spec(fx as int, width as int) && ((r->0).1
            as int) == project_spec(fy as int, height as int),
{
    if fx < -SCALE || fy < -SCALE {
        proof {
            if fx < -SCALE {
                assert((fx as int + SCALE) * (width as int) <= 0) by (nonlinear_arith)
                    requires
                        fx as int + SCALE < 0,
                        width >= 0,
                ;
                if width > 0 {
                    assert((fx as int + SCALE) * (width as int) < 0) by (nonlinear_arith)
                        requires
                            fx as int + SCALE < 0,
                            width > 0,
                    ;
                    assert(project_spec(fx as int, width as int) < 0) by {
                        vstd::arithmetic::div_mod::lemma_div_is_ordered(
                            (fx as int + SCALE) * (width as int),
                            -1,
                            2 * SCALE,
                        );
                        assert((-1int) / (2 * SCALE as int) < 0) by (nonlinear_arith);
                    }
                } else {
                    assert((fx as int + SCALE) * (width as int) == 0) by (nonlinear_arith)
                        requires
                            width == 0,
                    ;
                    assert(0int / (2 * (SCALE as int)) == 0) by (nonlinear_arith);
                    assert(!(project_spec(fx as int, width as int) < width as int));
                }
            } else {
                assert((fy as int + SCALE) * (height as int) <= 0) by (nonlinear_arith)
                    requires
                        fy as int + SCALE < 0,
                        height >= 0,
                ;
                if height > 0 {
                    assert((fy as int + SCALE) * (height as int) < 0) by (nonlinear_arith)
                        requires
                            fy as int + SCALE < 0,
                            height > 0,
                    ;
                    assert(project_spec(fy as int, height as int) < 0) by {
                        vstd::arithmetic::div_mod::lemma_div_is_ordered(
                            (fy as int + SCALE) * (height as int),
                            -1,
                            2 * SCALE,
                        );
                        assert((-1int) / (2 * SCALE as int) < 0) by (nonlinear_arith);
                    }
                } else {
                    assert((fy as int + SCALE) * (height as int) == 0) by (nonlinear_arith)
                        requires
                            height == 0,
                    ;
                    assert(0int / (2 * (SCALE as int)) == 0) by (nonlinear_arith);
                    assert(!(project_spec(fy as int, height as int) < height as int));
                }
            }
        }
        return None;
    }
    proof {
        assert((fx as int + SCALE) * (width as int) <= u128::MAX as int) by (nonlinear_arith)
            requires
                0 <= fx as int + SCALE <= 2000000000000,
                0 <= width <= u64::MAX,
        ;
        assert((fy as int + SCALE) * (height as int) <= u128::MAX as int) by (nonlinear_arith)
            requires
                0 <= fy as int + SCALE <= 2000000000000,
                0 <= height <= u64::MAX,
        ;
    }
    let nx: u128 = ((fx + SCALE) as u128) * (width as u128);
    let ny: u128 = ((fy + SCALE) as u128) * (height as u128);
    let qx: u128 = nx / (2 * SCALE as u128);
    let qy: u128 = ny / (2 * SCALE as u128);
    proof {
        assert(qx == project_spec(fx as int, width as int));
        assert(qy == project_spec(fy as int, height as int));
    }
    if qx < width as u128 && qy < height as u128 {
        Some((qx as usize, qy as usize))
    } else {
        None
    }
}

impl IFS {
    /// Drive one point through `num_iterations` randomly chosen
    /// transforms, depositing the running color after each step; deposits
    /// whose point left the grid or degenerated numerically are dropped,
    /// and a degenerate point stays degenerate for the rest of the
    /// trajectory. Energy in the image only grows.
    fn single_point_evaluation(
        &self,
        image: &mut Image,
        num_iterations: usize,
        rng: &mut rand::rngs::StdRng,
    )
        requires
            self.wf(),
            self.transforms@.len() > 0,
            old(image).wf(),
        ensures
            final(image).wf(),
            final(image).width == old(image).width,
            final(image).height == old(image).height,
            forall|i: int|
                0 <= i < old(image).data@.len() ==> old(image).data@[i] <= final(image).data@[i],
    {
        let mut px: i64 = rand_below(rng, 2 * SCALE) - SCALE;
        let mut py: i64 = rand_below(rng, 2 * SCALE) - SCALE;
        let mut alive: bool = true;
        let mut color = Color { r: 0, g: 0, b: 0 };
        let mut it: usize = 0;
        while it < num_iterations
            invariant
                self.wf(),
                self.transforms@.len() > 0,
                image.wf(),
                image.width == old(image).width,
                image.height == old(image).height,
                image.data@.len() == old(image).data@.len(),
                forall|i: int|
                    0 <= i < old(image).data@.len() ==> old(image).data@[i]
                        <= image.data@[i],
                valid_color(color),
                alive ==> valid_point(Point { x: px, y: py }),
                it <= num_iterations,
            decreases num_iterations - it,
        {
            let t = *self.choose_transform(rng);
            if alive {
                match t.transform_point(Point { x: px, y: py }, rng) {
                    Some(p) => {
                        px = p.x;
                        py = p.y;
                    },
                    None => {
                        alive = false;
                    },
                }
            }
            color = t.transform_color(color);
            if alive {
                let (fx, fy) = final_transform(px, py);
                match project(fx, fy, image.width, image.height) {
                    Some((xp, yp)) => {
                        let ghost before = image.data@;
                        let ghost w = image.width as int;
                        image.add_radiance(xp, yp, color);
                        proof {
                            lemma_idx_bound(w, image.height as int, xp as int, yp as int);
                            let i0 = idx_spec(w, xp as int, yp as int, 0);
                            let i1 = idx_spec(w, xp as int, yp as int, 1);
                            let i2 = idx_spec(w, xp as int, yp as int, 2);
                            assert forall|i: int|
                                0 <= i < before.len() implies before[i]
                                <= image.data@[i] by {
                                if i == i2 {
                                    assert(image.data@[i] == sat_add_spec(
                                        before[i2],
                                        color.b as int,
                                    ));
                                } else if i == i1 {
                                    assert(image.data@[i] == sat_add_spec(
                                        before[i1],
                                        color.g as int,
                                    ));
                                } else if i == i0 {
                                    assert(image.data@[i] == sat_add_spec(
                                        before[i0],
                                        color.r as int,
                                    ));
                                } else {
                                    assert(image.data@[i] == before[i]);
                                }
                            }
                            assert forall|i: int|
                                0 <= i < old(image).data@.len() implies old(image).data@[i]
                                <= image.data@[i] by {
                                assert(old(image).data@[i] <= before[i]);
                                assert(before[i] <= image.data@[i]);
                            }
                        }
                    },
                    None => {},
                }
            }
            it = it + 1;
        }
    }

    /// Run `num_points` independent chaos-game trajectories of
    /// `num_iterations` steps each into the image. Energy in the image
    /// only grows; its dimensions do not change.
    pub fn evaluate(
        &self,
        image: &mut Image,
        num_points: usize,
        num_iterations: usize,
        rng: &mut rand::rngs::StdRng,
    )
        requires
            self.wf(),
            self.transforms@.len() > 0,
            old(image).wf(),
        ensures
            final(image).wf(),
            final(image).width == old(image).width,
            final(image).height == old(image).height,
            forall|i: int|
                0 <= i < old(image).data@.len() ==> old(image).data@[i] <= final(image).data@[i],
    {
        let mut p: usize = 0;
        while p < num_points
            invariant
                self.wf(),
                self.transforms@.len() > 0,
                image.wf(),
                image.width == old(image).width,
                image.height == old(image).height,
                image.data@.len() == old(image).data@.len(),
                forall|i: int|
                    0 <= i < old(image).data@.len() ==> old(image).data@[i]
                        <= image.data@[i],
                p <= num_points,
            decreases num_points - p,
        {
            let ghost prev = image.data@;
            self.single_point_evaluation(image, num_iterations, rng);
            proof {
                assert forall|i: int|
                    0 <= i < old(image).data@.len() implies old(image).data@[i]
                    <= image.data@[i] by {
                    assert(old(image).data@[i] <= prev[i]);
                    assert(prev[i] <= image.data@[i]);
                }
            }
            p = p + 1;
        }
    }
}

} // verus!
