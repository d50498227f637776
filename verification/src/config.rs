//! A fully resolved description of one render: image dimensions, the
//! evaluation budget, and the transforms to run.

use vstd::prelude::*;
use crate::fixed::PARAM_LIMIT;
use crate::transform::{Transform, valid_transform};
use crate::ifs::{IFS, total_of};
use crate::image::Image;

verus! {

/// Where and how large the rendered image is.
pub struct ImageSettings {
    /// How wide in pixels the generated image will be.
    pub width: u32,
    /// How tall in pixels the generated image will be.
    pub height: u32,
    /// Where to save the image.
    pub path: String,
}

/// How much work the evaluation performs.
#[derive(Copy, Clone)]
pub struct EvaluationSettings {
    /// How many iterations each point is evaluated for.
    pub num_iterations: u32,
    /// How many points are passed through the system.
    pub num_points: u32,
}

/// One render: the image settings, the evaluation settings and the
/// transforms.
pub struct Config {
    pub image_settings: ImageSettings,
    pub evaluation_settings: EvaluationSettings,
    pub transforms: Vec<Transform>,
}

impl Config {
    /// The dimensions are positive, the transforms valid and nonempty, and
    /// the sizes small enough for the machine's arithmetic.
    pub open spec fn runnable(self) -> bool {
        &&& self.image_settings.width >= 1
        &&& self.image_settings.height >= 1
        &&& ((self.image_settings.width as int) * (self.image_settings.height as int)) * 3
            <= usize::MAX
        &&& (self.evaluation_settings.num_points as int) * (
        self.evaluation_settings.num_iterations as int) <= usize::MAX
        &&& self.transforms@.len() > 0
        &&& forall|i: int|
            0 <= i < self.transforms@.len() ==> valid_transform(#[trigger] self.transforms@[i])
        &&& self.transforms@.len() * PARAM_LIMIT <= i64::MAX
    }

    /// Run the render this configuration describes: build the system from
    /// the transforms, evaluate it into a fresh accumulation image, and
    /// export the tone-mapped eight-bit pixels, normalized by the average
    /// number of deposits per pixel.
    pub fn run(&self, rng: &mut rand::rngs::StdRng) -> (r: Vec<u8>)
        requires
            self.runnable(),
        ensures
            r@.len() == ((self.image_settings.width as int) * (self.image_settings.height as int))
                * 3,
    {
        let mut ifs = IFS::new();
        let n = self.transforms.len();
        let mut i: usize = 0;
        while i < n
            invariant
                n == self.transforms@.len(),
                forall|j: int|
                    0 <= j < self.transforms@.len() ==> valid_transform(
                        #[trigger] self.transforms@[j],
                    ),
                self.transforms@.len() * PARAM_LIMIT <= i64::MAX,
                i <= n,
                ifs.wf(),
                ifs.transforms@.len() == i,
                ifs.total_weight <= i * PARAM_LIMIT,
            decreases n - i,
        {
            proof {
                assert((i as int) * PARAM_LIMIT + PARAM_LIMIT == (i as int + 1) * PARAM_LIMIT)
                    by (nonlinear_arith);
                assert((i as int + 1) * PARAM_LIMIT <= (n as int) * PARAM_LIMIT)
                    by (nonlinear_arith)
                    requires
                        i as int + 1 <= n as int,
                        PARAM_LIMIT > 0,
                ;
            }
            ifs.add_transform(self.transforms[i]);
            i = i + 1;
        }
        let width = self.image_settings.width as usize;
        let height = self.image_settings.height as usize;
        let num_points = self.evaluation_settings.num_points as usize;
        let num_iterations = self.evaluation_settings.num_iterations as usize;
        proof {
            assert((width as int) * (height as int) <= ((width as int) * (height as int)) * 3)
                by (nonlinear_arith);
            assert((num_points as int) * (num_iterations as int) <= usize::MAX);
        }
        let mut image = Image::new(width, height);
        ifs.evaluate(&mut image, num_points, num_iterations, rng);
        let denom = width * height;
        proof {
            assert(1 <= (width as int) * (height as int)) by (nonlinear_arith)
                requires
                    width >= 1,
                    height >= 1,
            ;
        }
        let budget = num_points * num_iterations;
        let per_pixel = budget / denom;
        let iterations = if per_pixel < 1 {
            1
        } else {
            per_pixel
        };
        image.export_pixels(iterations)
    }
}

} // verus!
