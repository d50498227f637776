//! A template names transform kinds without their parameters: generating
//! from it draws fresh random parameters for every named kind.

use vstd::prelude::*;
use crate::util::Error;
use crate::transform::{Transform, transform_from_str, valid_transform};
use crate::config::{Config, ImageSettings, EvaluationSettings};

verus! {

/// A name denotes one of the four transform kinds.
pub open spec fn known_name(n: Seq<char>) -> bool {
    ||| n == "LinearTransform"@
    ||| n == "AffineTransform"@
    ||| n == "MoebiusTransform"@
    ||| n == "InverseJuliaTransform"@
}

/// The transform is of the kind the name denotes.
pub open spec fn named_kind(t: Transform, n: Seq<char>) -> bool {
    &&& (n == "LinearTransform"@ ==> t is LinearTransform)
    &&& (n == "AffineTransform"@ ==> t is AffineTransform)
    &&& (n == "MoebiusTransform"@ ==> t is MoebiusTransform)
    &&& (n == "InverseJuliaTransform"@ ==> t is InverseJuliaTransform)
}

/// A render description whose transforms are given by kind name only.
pub struct Template {
    pub image_settings: ImageSettings,
    pub evaluation_settings: EvaluationSettings,
    pub random_transforms: Vec<String>,
}

impl Template {
    /// Draw a full configuration from the template: one fresh random
    /// transform per named kind, with the settings carried over. An
    /// unknown kind name is a construction error.
    pub fn generate(&self, rng: &mut rand::rngs::StdRng) -> (r: Result<Config, Error>)
        ensures
            r is Ok <==> (forall|i: int|
                0 <= i < self.random_transforms@.len() ==> known_name(
                    (#[trigger] self.random_transforms@[i])@,
                )),
            r is Ok ==> ({
                let c = r->Ok_0;
                &&& c.transforms@.len() == self.random_transforms@.len()
                &&& (forall|i: int|
                    0 <= i < c.transforms@.len() ==> valid_transform(#[trigger] c.transforms@[i])
                        && named_kind(c.transforms@[i], self.random_transforms@[i]@))
                &&& c.image_settings.width == self.image_settings.width
                &&& c.image_settings.height == self.image_settings.height
                &&& c.image_settings.path@ == self.image_settings.path@
                &&& c.evaluation_settings == self.evaluation_settings
            }),
            r is Err ==> r->Err_0 == Error::ConstructionError,
    {
        let n = self.random_transforms.len();
        let mut transforms: Vec<Transform> = Vec::new();
        let mut i: usize = 0;
        while i < n
            invariant
                n == self.random_transforms@.len(),
                i <= n,
                transforms@.len() == i,
                forall|j: int|
                    0 <= j < i ==> known_name((#[trigger] self.random_transforms@[j])@),
                forall|j: int|
                    0 <= j < i ==> valid_transform(#[trigger] transforms@[j]) && named_kind(
                        transforms@[j],
                        self.random_transforms@[j]@,
                    ),
            decreases n - i,
        {
            let t = match transform_from_str(&self.random_transforms[i], rng) {
                Ok(t) => t,
                Err(e) => {
                    return Err(e);
                },
            };
            transforms.push(t);
            i = i + 1;
        }
        Ok(
            Config {
                image_settings: ImageSettings {
                    width: self.image_settings.width,
                    height: self.image_settings.height,
                    path: self.image_settings.path.clone(),
                },
                evaluation_settings: self.evaluation_settings,
                transforms,
            },
        )
    }
}

} // verus!
