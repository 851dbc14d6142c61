//! The network: its weights, how they come to be, and the decisions of
//! inference.

use crate::dataset::Dataset;
use crate::digit::digit_of;
use crate::digit::Digit;
use crate::image::Image;
use crate::matrix::dimensions;
use crate::matrix::grid;
use crate::matrix::shaped;
use crate::matrix::store;
use crate::scalar::above;
use crate::scalar::greater;
use crate::scalar::is_nan;
use crate::scalar::nan;
use crate::scalar::rectified;
use crate::scalar::relu;
use crate::scalar::unit;
use crate::topology::blank;
use crate::topology::columns_of;
use crate::topology::grids;
use crate::topology::lemma_position_in_layer;
use crate::topology::offset_of;
use crate::topology::position;
use crate::topology::rows_of;
use crate::topology::well_shaped;
use crate::topology::CLASSES;
use crate::topology::LAYERS;
use crate::topology::WEIGHTS;
use crate::training::breaks;
use crate::training::passes;
use crate::training::Interrupted;
use crate::training::NeuralNetworkTraining;
use easy_ml::matrices::Matrix;
use vstd::prelude::*;

verus! {

/// A feed-forward network that classifies images of digits.
///
/// Its view is the cells of its three weight matrices: `network@[layer]`
/// holds the weights of a layer row by row.
#[derive(Clone, Debug)]
pub struct NeuralNetwork {
    weights: Vec<Matrix<u64>>,
}

impl View for NeuralNetwork {
    type V = Seq<Seq<Seq<u64>>>;

    closed spec fn view(&self) -> Seq<Seq<Seq<u64>>> {
        grids(self.weights@)
    }
}

/// Whether `index` is where the greatest of `scores` first stands: every
/// earlier score is strictly less, and no later score is greater.
pub open spec fn first_maximum(scores: Seq<u64>, index: int) -> bool {
    &&& 0 <= index < scores.len()
    &&& forall|earlier: int| 0 <= earlier < index ==> above(scores[index], #[trigger] scores[earlier])
    &&& forall|later: int| index < later < scores.len() ==> !above(#[trigger] scores[later], scores[index])
}

/// What the activation of `layer` makes of a weighted sum: the hidden layers
/// rectify it, the last layer hands it on as it is.
pub open spec fn activated(layer: int, sum: u64) -> u64 {
    if layer + 1 < LAYERS {
        rectified(sum)
    } else {
        sum
    }
}

/// Why probabilities lead to no digit.
#[derive(Clone, Copy, Debug, PartialEq, Eq, Structural)]
pub enum Unclassified {
    /// There is not one probability for each class.
    Count,
    /// One of the probabilities is not a number.
    NotANumber,
}

/// Whether `result` is the classification that `probabilities` lead to: the
/// digit at the first maximum of ten numbers, and else what is wrong.
pub open spec fn classifies(probabilities: Seq<u64>, result: Result<Digit, Unclassified>) -> bool {
    match result {
        Ok(digit) => probabilities.len() == CLASSES && (forall|class: int|
            0 <= class < CLASSES ==> !nan(#[trigger] probabilities[class])) && first_maximum(
            probabilities,
            digit.value(),
        ),
        Err(Unclassified::Count) => probabilities.len() != CLASSES,
        Err(Unclassified::NotANumber) => probabilities.len() == CLASSES && exists|class: int|
            0 <= class < CLASSES && nan(#[trigger] probabilities[class]),
    }
}

/// The classification that `probabilities` lead to: the digit whose
/// probability is the greatest. Where several are greatest together, the
/// first of them wins.
pub fn classification(probabilities: &Vec<u64>) -> (result: Result<Digit, Unclassified>)
    ensures
        classifies(probabilities@, result),
{
    if probabilities.len() != CLASSES {
        return Err(Unclassified::Count);
    }
    if is_nan(probabilities[0]) {
        return Err(Unclassified::NotANumber);
    }
    let mut best: u8 = 0;
    let mut class: u8 = 1;
    while (class as usize) < CLASSES
        invariant
            probabilities@.len() == CLASSES,
            1 <= class <= CLASSES,
            forall|earlier: int| 0 <= earlier < class ==> !nan(#[trigger] probabilities@[earlier]),
            first_maximum(probabilities@.take(class as int), best as int),
        decreases CLASSES - class,
    {
        if is_nan(probabilities[class as usize]) {
            return Err(Unclassified::NotANumber);
        }
        if greater(probabilities[class as usize], probabilities[best as usize]) {
            best = class;
        }
        class += 1;
    }
    assert(probabilities@.take(class as int) =~= probabilities@);
    Ok(Digit::try_from(best).expect("a class is a digit"))
}

/// The activation that follows the weighted sums of `layer`.
pub fn activate(layer: usize, sum: u64) -> (signal: u64)
    requires
        layer < LAYERS,
    ensures
        signal == activated(layer as int, sum),
{
    if layer + 1 < LAYERS {
        relu(sum)
    } else {
        sum
    }
}

impl NeuralNetwork {
    /// The network has its three layers, each of its own shape.
    pub open spec fn wf(&self) -> bool {
        well_shaped(self@)
    }

    /// A network whose weights are `draws`, taken in order: layer by layer
    /// and, within a layer, row by row. Each draw is a number of the unit
    /// interval, and each weight gets a draw of its own.
    pub fn new(draws: &Vec<u64>) -> (network: NeuralNetwork)
        requires
            draws@.len() == WEIGHTS,
            forall|n: int| 0 <= n < WEIGHTS ==> unit(#[trigger] draws@[n]),
        ensures
            network.wf(),
            forall|layer: int, row: int, column: int|
                0 <= layer < LAYERS && 0 <= row < rows_of(layer) && 0 <= column < columns_of(layer)
                    ==> #[trigger] network@[layer][row][column] == draws@[position(layer, row, column)]
                    && unit(network@[layer][row][column]),
    {
        let mut weights = blank();
        let mut n: usize = 0;
        let mut i: usize = 0;
        while i < weights.len()
            invariant
                i <= LAYERS,
                draws@.len() == WEIGHTS,
                well_shaped(grids(weights@)),
                n == offset_of(i as int),
                forall|layer: int, row: int, column: int|
                    0 <= layer < i && 0 <= row < rows_of(layer) && 0 <= column < columns_of(layer)
                        ==> #[trigger] grid(weights@[layer])[row][column] == draws@[position(
                        layer,
                        row,
                        column,
                    )],
            decreases LAYERS - i,
        {
            assert(shaped(grids(weights@)[i as int], rows_of(i as int), columns_of(i as int)));
            let (rows, columns) = dimensions(&weights[i]);
            assert(grid(weights@[i as int])[0].len() == columns);
            let ghost before = weights@;
            let mut j: usize = 0;
            while j < rows
                invariant
                    i < LAYERS,
                    j <= rows,
                    rows == rows_of(i as int),
                    columns == columns_of(i as int),
                    draws@.len() == WEIGHTS,
                    weights@.len() == LAYERS,
                    before.len() == LAYERS,
                    shaped(grid(weights@[i as int]), rows as int, columns as int),
                    n == position(i as int, j as int, 0),
                    forall|layer: int|
                        0 <= layer < LAYERS && layer != i ==> weights@[layer] == before[layer],
                    forall|row: int, column: int|
                        0 <= row < j && 0 <= column < columns ==> #[trigger] grid(
                            weights@[i as int],
                        )[row][column] == draws@[position(i as int, row, column)],
                decreases rows - j,
            {
                let mut k: usize = 0;
                while k < columns
                    invariant
                        i < LAYERS,
                        j < rows,
                        k <= columns,
                        rows == rows_of(i as int),
                        columns == columns_of(i as int),
                        draws@.len() == WEIGHTS,
                        weights@.len() == LAYERS,
                        before.len() == LAYERS,
                        shaped(grid(weights@[i as int]), rows as int, columns as int),
                        n == position(i as int, j as int, k as int),
                        forall|layer: int|
                            0 <= layer < LAYERS && layer != i ==> weights@[layer] == before[layer],
                        forall|row: int, column: int|
                            0 <= row < j && 0 <= column < columns ==> #[trigger] grid(
                                weights@[i as int],
                            )[row][column] == draws@[position(i as int, row, column)],
                        forall|column: int|
                            0 <= column < k ==> #[trigger] grid(weights@[i as int])[j as int][column]
                                == draws@[position(i as int, j as int, column)],
                    decreases columns - k,
                {
                    proof {
                        lemma_position_in_layer(i as int, j as int, k as int);
                    }
                    store(&mut weights[i], j, k, draws[n]);
                    n += 1;
                    k += 1;
                }
                proof {
                    assert(position(i as int, j as int, columns as int) == position(
                        i as int,
                        j + 1,
                        0,
                    )) by (nonlinear_arith)
                        requires
                            columns == columns_of(i as int),
                    ;
                }
                j += 1;
            }
            proof {
                lemma_position_in_layer(i as int, 0, 0);
                assert(position(i as int, rows as int, 0) == offset_of(i + 1)) by (nonlinear_arith)
                    requires
                        rows == rows_of(i as int),
                        offset_of(i + 1) == offset_of(i as int) + rows_of(i as int) * columns_of(
                            i as int,
                        ),
                ;
                assert forall|layer: int| 0 <= layer < LAYERS implies shaped(
                    #[trigger] grids(weights@)[layer],
                    rows_of(layer),
                    columns_of(layer),
                ) by {
                    if layer != i {
                        assert(grids(before)[layer] == grid(before[layer]));
                    }
                }
                assert forall|layer: int, row: int, column: int|
                    0 <= layer < i + 1 && 0 <= row < rows_of(layer) && 0 <= column < columns_of(
                        layer,
                    ) implies #[trigger] grid(weights@[layer])[row][column] == draws@[position(
                    layer,
                    row,
                    column,
                )] by {
                    if layer != i {
                        assert(weights@[layer] == before[layer]);
                    }
                }
            }
            i += 1;
        }
        NeuralNetwork { weights }
    }

    /// The number of layers.
    pub fn layers(&self) -> (count: usize)
        ensures
            count == self@.len(),
            self.wf() ==> count == LAYERS,
    {
        self.weights.len()
    }

    /// The weight matrices, one for each layer.
    pub fn weights(&self) -> (weights: &Vec<Matrix<u64>>)
        ensures
            grids(weights@) == self@,
    {
        &self.weights
    }

    /// The weight matrices, for a training session to write what it learned.
    pub(crate) fn weights_mut(&mut self) -> (weights: &mut Vec<Matrix<u64>>)
        ensures
            grids(weights@) == old(self)@,
            final(self)@ == grids(final(weights)@),
    {
        &mut self.weights
    }

    /// Classifies `image`: has `forward` work out the probability that the
    /// network gives to each class of the image, and gives the digit whose
    /// probability is the greatest, or says what is wrong with them.
    pub fn classify<F: Fn(&NeuralNetwork, &Image) -> Vec<u64>>(
        &self,
        image: &Image,
        forward: F,
    ) -> (result: Result<Digit, Unclassified>)
        requires
            self.wf(),
            image.populated(),
            forward.requires((self, image)),
        ensures
            exists|probabilities: Vec<u64>| #[trigger]
                forward.ensures((self, image), probabilities) && classifies(probabilities@, result),
    {
        let probabilities = forward(self, image);
        classification(&probabilities)
    }

    /// Trains the network by one pass over `training_data`, descending on
    /// each example in its turn with `descend`. The pass runs on a session of
    /// its own, whose weights the network takes when the pass is over. Where
    /// the pass breaks off, the network stays as it was.
    pub fn train<F: Fn(&NeuralNetworkTraining, &Image, Digit) -> Vec<Matrix<u64>>>(
        &mut self,
        training_data: &Dataset,
        descend: F,
    ) -> (result: Result<(), Interrupted>)
        requires
            old(self).wf(),
            training_data.wf(),
            forall|session: NeuralNetworkTraining, example: int|
                session.wf() && 0 <= example < training_data.spec_images().len()
                    ==> #[trigger] descend.requires(
                    (
                        &session,
                        &training_data.spec_images()[example],
                        training_data.spec_labels()[example],
                    ),
                ),
        ensures
            final(self).wf(),
            result is Ok ==> passes(
                descend,
                training_data,
                old(self)@,
                training_data.spec_images().len() as int,
                final(self)@,
            ),
            result matches Err(interrupted) ==> final(self)@ == old(self)@ && exists|
                end: Seq<Seq<Seq<u64>>>,
            | #[trigger] breaks(descend, training_data, old(self)@, interrupted, end),
            training_data.spec_images().len() == 0 ==> result is Ok && final(self)@ == old(self)@,
    {
        let mut training = NeuralNetworkTraining::from(&*self);
        match training.train(training_data, descend) {
            Ok(()) => {
                training.update(self);
                Ok(())
            },
            Err(interrupted) => Err(interrupted),
        }
    }
}

/// The classification is determined by the probabilities: two results that
/// both answer to the description are one result. So classifying the same
/// probabilities twice gives the same digit, or the same refusal.
pub proof fn lemma_classification_is_determined(
    probabilities: Seq<u64>,
    first: Result<Digit, Unclassified>,
    second: Result<Digit, Unclassified>,
)
    requires
        classifies(probabilities, first),
        classifies(probabilities, second),
    ensures
        first == second,
{
    if first is Ok && second is Ok {
        let i = first->Ok_0.value();
        let j = second->Ok_0.value();
        if i < j {
            assert(above(probabilities[j], probabilities[i]));
            assert(!above(probabilities[j], probabilities[i]));
        } else if j < i {
            assert(above(probabilities[i], probabilities[j]));
            assert(!above(probabilities[i], probabilities[j]));
        }
        assert(digit_of(i) == first->Ok_0);
        assert(digit_of(j) == second->Ok_0);
    }
}

/// Ten probabilities that are all numbers are never refused.
pub proof fn lemma_numbers_are_classified(probabilities: Seq<u64>, result: Result<Digit, Unclassified>)
    requires
        probabilities.len() == CLASSES,
        forall|class: int| 0 <= class < CLASSES ==> !nan(#[trigger] probabilities[class]),
        classifies(probabilities, result),
    ensures
        result is Ok,
{
}

} // verus!
