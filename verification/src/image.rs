//! A 28x28 grayscale picture.

use vstd::prelude::*;

verus! {

/// The number of pixels in a row of an image.
pub const WIDTH: usize = 28;

/// The number of rows of an image.
pub const HEIGHT: usize = 28;

/// The number of pixels of an image.
pub const PIXELS: usize = WIDTH * HEIGHT;

/// A picture of a handwritten digit: its pixels row by row, each an
/// intensity from 0 to 255.
///
/// An image starts without pixels, and is populated once whoever supplies
/// the picture has written all of them through `buffer`.
#[derive(Clone, Debug, PartialEq, Eq)]
pub struct Image {
    data: Vec<u8>,
}

impl View for Image {
    type V = Seq<u8>;

    closed spec fn view(&self) -> Seq<u8> {
        self.data@
    }
}

impl Image {
    /// Whether the image holds all of its pixels.
    pub open spec fn populated(&self) -> bool {
        self@.len() == PIXELS
    }

    /// An image without pixels, with room for all of them.
    pub fn new() -> (image: Image)
        ensures
            image@ == Seq::<u8>::empty(),
    {
        Image { data: Vec::with_capacity(WIDTH * HEIGHT) }
    }

    /// The storage of the pixels, for the supplier of the picture to fill.
    /// Whatever it holds when the borrow ends is the image.
    pub fn buffer(&mut self) -> (data: &mut Vec<u8>)
        ensures
            data@ == old(self)@,
            final(self)@ == final(data)@,
    {
        &mut self.data
    }

    /// The pixels, row by row.
    pub fn pixels(&self) -> (data: &Vec<u8>)
        ensures
            data@ == self@,
    {
        &self.data
    }

    /// Whether the image holds all of its pixels.
    pub fn is_populated(&self) -> (r: bool)
        ensures
            r == self.populated(),
    {
        self.data.len() == PIXELS
    }
}

} // verus!
