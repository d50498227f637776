//! Animation sequences: a list of `n` iterated function systems and
//! `n - 1` per-pair step counts. A global step index locates the active
//! pair and the interpolation fraction within it; rendering morphs the
//! pair by that fraction and evaluates the morphed system into a fresh
//! image.

use vstd::prelude::*;
use crate::fixed::{SCALE, PARAM_LIMIT, tdiv};
use crate::util::Error;
use crate::ifs::{IFS, shape_compatible};
use crate::image::Image;

verus! {

/// The sum of the first `k` step counts.
pub open spec fn total_steps(sc: Seq<usize>, k: int) -> int
    decreases k,
{
    if k <= 0 {
        0
    } else {
        total_steps(sc, k - 1) + sc[k - 1]
    }
}

/// With positive step counts, the cumulative sums grow by at least one per
/// pair.
proof fn lemma_total_steps_mono(sc: Seq<usize>, k1: int, k2: int)
    requires
        0 <= k1 <= k2 <= sc.len(),
        forall|i: int| 0 <= i < sc.len() ==> #[trigger] sc[i] >= 1,
    ensures
        total_steps(sc, k1) + (k2 - k1) <= total_steps(sc, k2),
    decreases k2 - k1,
{
    if k1 < k2 {
        lemma_total_steps_mono(sc, k1, k2 - 1);
    }
}

/// An ordered list of systems with the step counts that cross each
/// adjacent pair.
pub struct AnimationSequence {
    /// The systems, in animation order.
    pub ifs_vec: Vec<IFS>,
    /// For each adjacent pair, how many interpolation steps cross it.
    pub step_counts: Vec<usize>,
}

impl AnimationSequence {
    /// One step count per adjacent pair, every count positive, every
    /// system well formed and nonempty, and the sums small enough for the
    /// step arithmetic.
    pub open spec fn wf(self) -> bool {
        &&& self.ifs_vec@.len() >= 1
        &&& self.step_counts@.len() == self.ifs_vec@.len() - 1
        &&& forall|i: int| 0 <= i < self.step_counts@.len() ==> #[trigger] self.step_counts@[i] >= 1
        &&& forall|i: int| 0 <= i < self.ifs_vec@.len() ==> (#[trigger] self.ifs_vec@[i]).wf()
        &&& forall|i: int|
            0 <= i < self.ifs_vec@.len() ==> (#[trigger] self.ifs_vec@[i]).transforms@.len() > 0
        &&& total_steps(self.step_counts@, self.step_counts@.len() as int) <= usize::MAX
        &&& forall|i: int|
            0 <= i < self.ifs_vec@.len() ==> (#[trigger] self.ifs_vec@[i]).transforms@.len()
                * PARAM_LIMIT <= i64::MAX
    }

    /// The total declared step count.
    pub open spec fn total(self) -> int {
        total_steps(self.step_counts@, self.step_counts@.len() as int)
    }

    /// The index of the pair a global step falls in: the unique `p` with
    /// `total_steps(p) < current_step <= total_steps(p + 1)`. A step past
    /// the total count is an error.
    pub fn determine_current_pair_index(&self, current_step: usize) -> (r: Result<usize, Error>)
        requires
            self.wf(),
            current_step >= 1,
        ensures
            r is Ok <==> current_step <= self.total(),
            r is Ok ==> (r->Ok_0 as int) < self.step_counts@.len() && total_steps(
                self.step_counts@,
                r->Ok_0 as int,
            ) < current_step <= total_steps(self.step_counts@, r->Ok_0 as int + 1),
            r is Err ==> r->Err_0 == Error::StepOverflow,
    {
        let n = self.step_counts.len();
        let mut pair_index: usize = 0;
        let mut accumulator: usize = 0;
        while accumulator < current_step
            invariant
                self.wf(),
                current_step >= 1,
                n == self.step_counts@.len(),
                pair_index <= n,
                accumulator == total_steps(self.step_counts@, pair_index as int),
                pair_index > 0 ==> total_steps(self.step_counts@, pair_index as int - 1)
                    < current_step,
            decreases n - pair_index,
        {
            if pair_index >= n {
                proof {
                    lemma_total_steps_mono(self.step_counts@, n as int, n as int);
                }
                return Err(Error::StepOverflow);
            }
            proof {
                lemma_total_steps_mono(self.step_counts@, pair_index as int + 1, n as int);
            }
            accumulator = accumulator + self.step_counts[pair_index];
            pair_index = pair_index + 1;
        }
        proof {
            lemma_total_steps_mono(self.step_counts@, pair_index as int, n as int);
        }
        Ok(pair_index - 1)
    }

    /// The interpolation fraction of a global step within its pair: the
    /// steps taken into the pair over the pair's step count, in fixed
    /// point.
    pub fn determine_current_pct(&self, current_step: usize, pair_index: usize) -> (r: i64)
        requires
            self.wf(),
            pair_index < self.step_counts@.len(),
            total_steps(self.step_counts@, pair_index as int) < current_step <= total_steps(
                self.step_counts@,
                pair_index as int + 1,
            ),
        ensures
            r as int == ((current_step - total_steps(self.step_counts@, pair_index as int))
                * SCALE) / (self.step_counts@[pair_index as int] as int),
            0 <= r <= SCALE,
    {
        let mut current_pair: usize = 0;
        let mut accumulator: usize = 0;
        while current_pair < pair_index
            invariant
                self.wf(),
                pair_index < self.step_counts@.len(),
                current_step <= total_steps(self.step_counts@, pair_index as int + 1),
                current_pair <= pair_index,
                accumulator == total_steps(self.step_counts@, current_pair as int),
            decreases pair_index - current_pair,
        {
            proof {
                lemma_total_steps_mono(
                    self.step_counts@,
                    current_pair as int + 1,
                    self.step_counts@.len() as int,
                );
                lemma_total_steps_mono(
                    self.step_counts@,
                    pair_index as int + 1,
                    self.step_counts@.len() as int,
                );
            }
            accumulator = accumulator + self.step_counts[current_pair];
            current_pair = current_pair + 1;
        }
        let this_pair_steps = current_step - accumulator;
        let count = self.step_counts[pair_index];
        proof {
            assert(total_steps(self.step_counts@, pair_index as int + 1) == total_steps(
                self.step_counts@,
                pair_index as int,
            ) + self.step_counts@[pair_index as int]);
            assert((this_pair_steps as int) * (SCALE as int) <= (count as int) * (SCALE as int))
                by (nonlinear_arith)
                requires
                    0 <= this_pair_steps <= count,
            ;
            assert(0 <= (this_pair_steps as int) * (SCALE as int)) by (nonlinear_arith)
                requires
                    this_pair_steps >= 0,
            ;
            vstd::arithmetic::div_mod::lemma_div_is_ordered(
                (this_pair_steps as int) * (SCALE as int),
                (count as int) * (SCALE as int),
                count as int,
            );
            vstd::arithmetic::div_mod::lemma_div_pos_is_pos(
                (this_pair_steps as int) * (SCALE as int),
                count as int,
            );
            assert(((count as int) * (SCALE as int)) / (count as int) == SCALE as int)
                by (nonlinear_arith)
                requires
                    count >= 1,
            ;
        }
        let num: u128 = (this_pair_steps as u128) * (SCALE as u128);
        let q: u128 = num / (count as u128);
        q as i64
    }

    /// Render the single frame at `current_step`: locate the pair, morph
    /// its first system toward its second by the step's fraction, and
    /// evaluate the morphed system into a fresh image. A step past the
    /// total count is a `StepOverflow`; a pair whose systems are not
    /// shape-compatible is an `InvalidShape`.
    pub fn animate_single_step(
        &self,
        width: usize,
        height: usize,
        num_iterations: usize,
        num_points: usize,
        current_step: usize,
        rng: &mut rand::rngs::StdRng,
    ) -> (r: Result<Image, Error>)
        requires
            self.wf(),
            current_step >= 1,
            (width * height) * 3 <= usize::MAX,
        ensures
            r is Ok ==> r->Ok_0.wf() && r->Ok_0.width == width && r->Ok_0.height == height,
            (r is Err && r->Err_0 == Error::StepOverflow) <==> current_step > self.total(),
            forall|p: int|
                (0 <= p < self.step_counts@.len() && #[trigger] total_steps(self.step_counts@, p)
                    < current_step <= total_steps(self.step_counts@, p + 1)) ==> (r is Ok
                    <==> shape_compatible(
                    self.ifs_vec@[p].transforms@,
                    self.ifs_vec@[p + 1].transforms@,
                )),
    {
        let pair_index = match self.determine_current_pair_index(current_step) {
            Ok(p) => p,
            Err(e) => {
                proof {
                    assert forall|p: int|
                        !(0 <= p < self.step_counts@.len() && #[trigger] total_steps(
                            self.step_counts@,
                            p,
                        ) < current_step <= total_steps(self.step_counts@, p + 1)) by {
                        if 0 <= p < self.step_counts@.len() {
                            lemma_total_steps_mono(
                                self.step_counts@,
                                p + 1,
                                self.step_counts@.len() as int,
                            );
                        }
                    }
                }
                return Err(e);
            },
        };
        proof {
            assert forall|p: int|
                (0 <= p < self.step_counts@.len() && #[trigger] total_steps(self.step_counts@, p)
                    < current_step <= total_steps(self.step_counts@, p + 1)) implies p
                == pair_index as int by {
                if p < pair_index as int {
                    lemma_total_steps_mono(self.step_counts@, p + 1, pair_index as int);
                } else if p > pair_index as int {
                    lemma_total_steps_mono(self.step_counts@, pair_index as int + 1, p);
                }
            }
        }
        let pct = self.determine_current_pct(current_step, pair_index);
        let nifs = self.ifs_vec.len();
        let start = &self.ifs_vec[pair_index];
        let end = &self.ifs_vec[pair_index + 1];
        let this_ifs = match start.morph(end, pct) {
            Ok(m) => m,
            Err(e) => {
                return Err(e);
            },
        };
        let mut this_image = Image::new(width, height);
        this_ifs.evaluate(&mut this_image, num_points, num_iterations, rng);
        Ok(this_image)
    }

    /// Render every step of every pair in order: for pair `i` the frames
    /// morph from its first system toward its second by `step / count` for
    /// `step` in `0 .. count`. Fails with `InvalidShape` exactly when some
    /// adjacent pair is not shape-compatible, before any rendering.
    pub fn animate(
        &self,
        width: usize,
        height: usize,
        num_iterations: usize,
        num_points: usize,
        rng: &mut rand::rngs::StdRng,
    ) -> (r: Result<Vec<Image>, Error>)
        requires
            self.wf(),
            (width * height) * 3 <= usize::MAX,
        ensures
            r is Ok <==> (forall|p: int|
                0 <= p < self.step_counts@.len() ==> shape_compatible(
                    (#[trigger] self.ifs_vec@[p]).transforms@,
                    self.ifs_vec@[p + 1].transforms@,
                )),
            r is Ok ==> r->Ok_0@.len() == self.total() && (forall|i: int|
                0 <= i < r->Ok_0@.len() ==> (#[trigger] r->Ok_0@[i]).wf() && r->Ok_0@[i].width
                    == width && r->Ok_0@[i].height == height),
            r is Err ==> r->Err_0 == Error::InvalidShape,
    {
        let npairs = self.step_counts.len();
        let mut p: usize = 0;
        while p < npairs
            invariant
                self.wf(),
                npairs == self.step_counts@.len(),
                p <= npairs,
                forall|j: int|
                    0 <= j < p ==> shape_compatible(
                        (#[trigger] self.ifs_vec@[j]).transforms@,
                        self.ifs_vec@[j + 1].transforms@,
                    ),
            decreases npairs - p,
        {
            if !self.ifs_vec[p].check_transforms_match(&self.ifs_vec[p + 1]) {
                return Err(Error::InvalidShape);
            }
            p = p + 1;
        }
        let mut images: Vec<Image> = Vec::new();
        let mut pair_index: usize = 0;
        while pair_index < npairs
            invariant
                self.wf(),
                (width * height) * 3 <= usize::MAX,
                npairs == self.step_counts@.len(),
                pair_index <= npairs,
                forall|j: int|
                    0 <= j < npairs ==> shape_compatible(
                        (#[trigger] self.ifs_vec@[j]).transforms@,
                        self.ifs_vec@[j + 1].transforms@,
                    ),
                images@.len() == total_steps(self.step_counts@, pair_index as int),
                forall|i: int|
                    0 <= i < images@.len() ==> (#[trigger] images@[i]).wf() && images@[i].width
                        == width && images@[i].height == height,
            decreases npairs - pair_index,
        {
            let num_steps_for_pair = self.step_counts[pair_index];
            let start = &self.ifs_vec[pair_index];
            let end = &self.ifs_vec[pair_index + 1];
            proof {
                lemma_total_steps_mono(self.step_counts@, pair_index as int + 1, npairs as int);
            }
            let mut step: usize = 0;
            while step < num_steps_for_pair
                invariant
                    self.wf(),
                    (width * height) * 3 <= usize::MAX,
                    npairs == self.step_counts@.len(),
                    pair_index < npairs,
                    num_steps_for_pair == self.step_counts@[pair_index as int],
                    start == &self.ifs_vec@[pair_index as int],
                    end == &self.ifs_vec@[pair_index as int + 1],
                    shape_compatible(start.transforms@, end.transforms@),
                    step <= num_steps_for_pair,
                    images@.len() == total_steps(self.step_counts@, pair_index as int) + step,
                    total_steps(self.step_counts@, pair_index as int + 1) <= usize::MAX,
                    forall|i: int|
                        0 <= i < images@.len() ==> (#[trigger] images@[i]).wf()
                            && images@[i].width == width && images@[i].height == height,
                decreases num_steps_for_pair - step,
            {
                proof {
                    assert((step as int) * (SCALE as int) < (num_steps_for_pair as int) * (
                    SCALE as int)) by (nonlinear_arith)
                        requires
                            0 <= step < num_steps_for_pair,
                    ;
                    assert(0 <= (step as int) * (SCALE as int)) by (nonlinear_arith)
                        requires
                            step >= 0,
                    ;
                    vstd::arithmetic::div_mod::lemma_div_is_ordered(
                        (step as int) * (SCALE as int),
                        (num_steps_for_pair as int) * (SCALE as int),
                        num_steps_for_pair as int,
                    );
                    vstd::arithmetic::div_mod::lemma_div_pos_is_pos(
                        (step as int) * (SCALE as int),
                        num_steps_for_pair as int,
                    );
                    assert(((num_steps_for_pair as int) * (SCALE as int)) / (
                    num_steps_for_pair as int) == SCALE as int) by (nonlinear_arith)
                        requires
                            num_steps_for_pair >= 1,
                    ;
                }
                let num: u128 = (step as u128) * (SCALE as u128);
                let pct: i64 = (num / (num_steps_for_pair as u128)) as i64;
                let this_ifs = match start.morph(end, pct) {
                    Ok(m) => m,
                    Err(_) => vstd::pervasive::unreached(),
                };
                let mut this_image = Image::new(width, height);
                this_ifs.evaluate(&mut this_image, num_points, num_iterations, rng);
                images.push(this_image);
                step = step + 1;
            }
            pair_index = pair_index + 1;
        }
        Ok(images)
    }
}

} // verus!
