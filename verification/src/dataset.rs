//! Labelled examples, in the order in which they were added.

use crate::digit::digit_of;
use crate::digit::Digit;
use crate::image::Image;
use vstd::prelude::*;

verus! {

/// The number of examples that a new data set has room for.
pub const TRAINING_SIZE: usize = 8000;

/// Images with their labels: two sequences that grow together, so that the
/// label of an image stands at the image's own position.
#[derive(Clone, Debug)]
pub struct Dataset {
    images: Vec<Image>,
    labels: Vec<Digit>,
}

impl Dataset {
    /// The images, in the order in which they were added.
    pub closed spec fn spec_images(&self) -> Seq<Image> {
        self.images@
    }

    /// The labels, in the order in which they were added.
    pub closed spec fn spec_labels(&self) -> Seq<Digit> {
        self.labels@
    }

    /// Every image has its label: the two sequences are equally long.
    pub open spec fn wf(&self) -> bool {
        self.spec_images().len() == self.spec_labels().len()
    }

    /// A data set without examples.
    pub fn new() -> (dataset: Dataset)
        ensures
            dataset.wf(),
            dataset.spec_images() == Seq::<Image>::empty(),
            dataset.spec_labels() == Seq::<Digit>::empty(),
    {
        Dataset {
            images: Vec::with_capacity(TRAINING_SIZE),
            labels: Vec::with_capacity(TRAINING_SIZE),
        }
    }

    /// Appends an example: the image, and the digit that `label` stands for.
    pub fn add(&mut self, image: Image, label: u8)
        requires
            old(self).wf(),
            label <= 9,
        ensures
            final(self).wf(),
            final(self).spec_images() == old(self).spec_images().push(image),
            final(self).spec_labels() == old(self).spec_labels().push(digit_of(label as int)),
    {
        self.images.push(image);
        self.labels.push(Digit::try_from(label).expect("Label invalid"));
    }

    /// The number of examples.
    pub fn len(&self) -> (n: usize)
        ensures
            n == self.spec_images().len(),
            self.wf() ==> n == self.spec_labels().len(),
    {
        self.images.len()
    }

    /// The images, in the order in which they were added.
    pub fn images(&self) -> (images: &Vec<Image>)
        ensures
            images@ == self.spec_images(),
    {
        &self.images
    }

    /// The labels, in the order in which they were added.
    pub fn labels(&self) -> (labels: &Vec<Digit>)
        ensures
            labels@ == self.spec_labels(),
    {
        &self.labels
    }
}

} // verus!
