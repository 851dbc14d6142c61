//! A digit-image classifier: a three-layer feed-forward network over 28x28
//! grayscale images, and the training of its weights one example at a time.
//!
//! Numbers are held as IEEE-754 binary64 bit patterns (`u64`), so that every
//! decision the classifier takes is stated and proved over integers: which
//! probability is the greatest, what the rectifier lets pass, which weights
//! a pass may keep. The arithmetic on the numbers (the products of the
//! forward pass, the exponentials, the gradients) is handed in as functions
//! by the caller; the contracts say what is done with whatever they return.

pub mod dataset;
pub mod digit;
pub mod image;
pub mod matrix;
pub mod network;
pub mod scalar;
pub mod topology;
pub mod training;
