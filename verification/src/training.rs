//! A training session: a copy of the network's weights that is descended
//! one example at a time, and written back when the pass is over.
//!
//! The session runs the pass and keeps the weights. Working out the weights
//! that a descent on one example leads to (the forward pass, the loss
//! against the target, the gradients and the step against them) is
//! arithmetic on the numbers, and is handed to the session as a function.

use crate::dataset::Dataset;
use crate::digit::Digit;
use crate::image::Image;
use crate::network::NeuralNetwork;
use crate::scalar::ONE;
use crate::scalar::ZERO;
use crate::topology::all_numbers;
use crate::topology::blank;
use crate::topology::copy;
use crate::topology::grids;
use crate::topology::is_well_shaped;
use crate::topology::numbers;
use crate::topology::well_shaped;
use crate::topology::CLASSES;
use easy_ml::matrices::Matrix;
use vstd::prelude::*;

verus! {

/// What is wrong with weights that a session does not take.
#[derive(Clone, Copy, Debug, PartialEq, Eq, Structural)]
pub enum Fault {
    /// They are not three matrices of the network's shapes.
    Shape,
    /// One of them is not a number.
    NotANumber,
}

/// A pass that was broken off.
#[derive(Clone, Copy, Debug, PartialEq, Eq, Structural)]
pub struct Interrupted {
    /// The position of the example whose descent went wrong.
    pub example: usize,
    /// What was wrong with the weights it led to.
    pub fault: Fault,
}

/// The weights of a network while it is trained.
///
/// Its view is the cells of its weights, as that of the network.
#[derive(Clone, Debug)]
pub struct NeuralNetworkTraining {
    weights: Vec<Matrix<u64>>,
}

impl View for NeuralNetworkTraining {
    type V = Seq<Seq<Seq<u64>>>;

    closed spec fn view(&self) -> Seq<Seq<Seq<u64>>> {
        grids(self.weights@)
    }
}

/// The target for a label: one where the label's class stands, zero elsewhere.
pub open spec fn one_hot(label: Digit) -> Seq<u64> {
    Seq::new(
        CLASSES as nat,
        |class: int|
            if class == label.value() {
                ONE
            } else {
                ZERO
            },
    )
}

/// What is wrong with the cells of weights, if anything.
pub open spec fn fault_of(cells: Seq<Seq<Seq<u64>>>) -> Option<Fault> {
    if !well_shaped(cells) {
        Some(Fault::Shape)
    } else if !numbers(cells) {
        Some(Fault::NotANumber)
    } else {
        None
    }
}

/// Whether `descend`, started on a session with the weights `before` and on
/// the example at position `example`, may hand back `weights`.
pub open spec fn descends<F: Fn(&NeuralNetworkTraining, &Image, Digit) -> Vec<Matrix<u64>>>(
    descend: F,
    training_data: &Dataset,
    example: int,
    before: Seq<Seq<Seq<u64>>>,
    weights: Vec<Matrix<u64>>,
) -> bool {
    exists|session: NeuralNetworkTraining|
        session.wf() && session@ == before && #[trigger] descend.ensures(
            (&session, &training_data.spec_images()[example], training_data.spec_labels()[example]),
            weights,
        )
}

/// Whether the descent on the example at position `example` may lead from
/// the weights `before` to the weights `after`, which are without a fault.
pub open spec fn steps<F: Fn(&NeuralNetworkTraining, &Image, Digit) -> Vec<Matrix<u64>>>(
    descend: F,
    training_data: &Dataset,
    example: int,
    before: Seq<Seq<Seq<u64>>>,
    after: Seq<Seq<Seq<u64>>>,
) -> bool {
    exists|weights: Vec<Matrix<u64>>| #[trigger]
        descends(descend, training_data, example, before, weights) && fault_of(grids(weights@))
            is None && after == grids(weights@)
}

/// Whether a pass over the first `examples` examples may lead from the
/// weights `start` to the weights `end`: each example in its turn is
/// descended on from the weights that the one before it led to.
pub open spec fn passes<F: Fn(&NeuralNetworkTraining, &Image, Digit) -> Vec<Matrix<u64>>>(
    descend: F,
    training_data: &Dataset,
    start: Seq<Seq<Seq<u64>>>,
    examples: int,
    end: Seq<Seq<Seq<u64>>>,
) -> bool
    decreases examples,
{
    if examples <= 0 {
        end == start
    } else {
        exists|middle: Seq<Seq<Seq<u64>>>|
            passes(descend, training_data, start, examples - 1, middle) && #[trigger] steps(
                descend,
                training_data,
                examples - 1,
                middle,
                end,
            )
    }
}

/// Whether a pass from the weights `start` may break off as `interrupted`
/// says and leave the weights `end`: the examples before went well and led
/// to `end`, and the descent from there led to weights with the fault.
pub open spec fn breaks<F: Fn(&NeuralNetworkTraining, &Image, Digit) -> Vec<Matrix<u64>>>(
    descend: F,
    training_data: &Dataset,
    start: Seq<Seq<Seq<u64>>>,
    interrupted: Interrupted,
    end: Seq<Seq<Seq<u64>>>,
) -> bool {
    &&& interrupted.example < training_data.spec_images().len()
    &&& passes(descend, training_data, start, interrupted.example as int, end)
    &&& exists|weights: Vec<Matrix<u64>>| #[trigger]
        descends(descend, training_data, interrupted.example as int, end, weights) && fault_of(
            grids(weights@),
        ) == Some(interrupted.fault)
}

/// The target that the probabilities of an example with this label are held
/// against.
pub fn target(label: Digit) -> (target: Vec<u64>)
    ensures
        target@ == one_hot(label),
{
    let hot = label.to_u8();
    let mut target: Vec<u64> = Vec::new();
    let mut class: u8 = 0;
    while (class as usize) < CLASSES
        invariant
            class <= CLASSES,
            hot == label.value(),
            target@.len() == class,
            forall|earlier: int|
                0 <= earlier < class ==> #[trigger] target@[earlier] == if earlier == label.value() {
                    ONE
                } else {
                    ZERO
                },
        decreases CLASSES - class,
    {
        if class == hot {
            target.push(ONE);
        } else {
            target.push(ZERO);
        }
        class += 1;
    }
    assert(target@ =~= one_hot(label));
    target
}

impl NeuralNetworkTraining {
    /// The session holds three layers of weights, each of its own shape.
    pub open spec fn wf(&self) -> bool {
        well_shaped(self@)
    }

    /// A session with the weights of `configuration`.
    pub fn from(configuration: &NeuralNetwork) -> (training: NeuralNetworkTraining)
        requires
            configuration.wf(),
        ensures
            training.wf(),
            training@ == configuration@,
    {
        let mut weights = blank();
        copy(&mut weights, configuration.weights());
        NeuralNetworkTraining { weights }
    }

    /// Writes the weights of the session to `configuration`.
    pub fn update(&self, configuration: &mut NeuralNetwork)
        requires
            self.wf(),
            old(configuration).wf(),
        ensures
            final(configuration).wf(),
            final(configuration)@ == self@,
    {
        copy(configuration.weights_mut(), &self.weights);
    }

    /// The weights of the session, one matrix for each layer.
    pub fn weights(&self) -> (weights: &Vec<Matrix<u64>>)
        ensures
            grids(weights@) == self@,
    {
        &self.weights
    }

    /// Takes the weights that a descent led to as the weights of the
    /// session, unless there is a fault with them: then the session stays as
    /// it is.
    pub fn learn(&mut self, weights: Vec<Matrix<u64>>) -> (result: Result<(), Fault>)
        requires
            old(self).wf(),
        ensures
            final(self).wf(),
            fault_of(grids(weights@)) is None ==> result is Ok && final(self)@ == grids(weights@),
            fault_of(grids(weights@)) matches Some(fault) ==> result == Err::<(), Fault>(fault)
                && final(self)@ == old(self)@,
    {
        if !is_well_shaped(&weights) {
            Err(Fault::Shape)
        } else if !all_numbers(&weights) {
            Err(Fault::NotANumber)
        } else {
            self.weights = weights;
            Ok(())
        }
    }

    /// One pass over `training_data`: each example in its turn is descended
    /// on from the weights that the one before it led to. The pass breaks
    /// off at the first descent that leads to weights with a fault, and the
    /// session then keeps the weights it had before that descent.
    pub fn train<F: Fn(&NeuralNetworkTraining, &Image, Digit) -> Vec<Matrix<u64>>>(
        &mut self,
        training_data: &Dataset,
        descend: F,
    ) -> (result: Result<(), Interrupted>)
        requires
            old(self).wf(),
            training_data.wf(),
            forall|session: NeuralNetworkTraining, example: int|
                session.wf() && 0 <= example < training_data.spec_images().len()
                    ==> #[trigger] descend.requires(
                    (
                        &session,
                        &training_data.spec_images()[example],
                        training_data.spec_labels()[example],
                    ),
                ),
        ensures
            final(self).wf(),
            result is Ok ==> passes(
                descend,
                training_data,
                old(self)@,
                training_data.spec_images().len() as int,
                final(self)@,
            ),
            result matches Err(interrupted) ==> breaks(
                descend,
                training_data,
                old(self)@,
                interrupted,
                final(self)@,
            ),
            training_data.spec_images().len() == 0 ==> result is Ok && final(self)@ == old(self)@,
    {
        let examples = training_data.len();
        let mut example: usize = 0;
        while example < examples
            invariant
                example <= examples,
                examples == training_data.spec_images().len(),
                examples == training_data.spec_labels().len(),
                self.wf(),
                passes(descend, training_data, old(self)@, example as int, self@),
                forall|session: NeuralNetworkTraining, example: int|
                    session.wf() && 0 <= example < training_data.spec_images().len()
                        ==> #[trigger] descend.requires(
                        (
                            &session,
                            &training_data.spec_images()[example],
                            training_data.spec_labels()[example],
                        ),
                    ),
            decreases examples - example,
        {
            let ghost before = *self;
            let image = &training_data.images()[example];
            let label = training_data.labels()[example];
            let weights = descend(&*self, image, label);
            assert(descends(descend, training_data, example as int, before@, weights));
            let ghost handed = weights;
            match self.learn(weights) {
                Ok(()) => {},
                Err(fault) => {
                    assert(breaks(
                        descend,
                        training_data,
                        old(self)@,
                        Interrupted { example, fault },
                        self@,
                    )) by {
                        assert(descends(descend, training_data, example as int, self@, handed));
                    }
                    return Err(Interrupted { example, fault });
                },
            }
            example += 1;
            assert(steps(descend, training_data, example - 1, before@, self@));
        }
        Ok(())
    }
}

/// A pass over no examples leaves the weights as they are, whatever the
/// descent would do.
pub proof fn lemma_pass_over_nothing<F: Fn(&NeuralNetworkTraining, &Image, Digit) -> Vec<Matrix<u64>>>(
    descend: F,
    training_data: &Dataset,
    start: Seq<Seq<Seq<u64>>>,
    end: Seq<Seq<Seq<u64>>>,
)
    ensures
        passes(descend, training_data, start, 0, end) <==> end == start,
{
}

/// A pass keeps the shapes: where it starts from well-shaped weights, it
/// ends with well-shaped weights, however many examples it sees.
pub proof fn lemma_pass_keeps_shapes<F: Fn(&NeuralNetworkTraining, &Image, Digit) -> Vec<Matrix<u64>>>(
    descend: F,
    training_data: &Dataset,
    start: Seq<Seq<Seq<u64>>>,
    examples: int,
    end: Seq<Seq<Seq<u64>>>,
)
    requires
        well_shaped(start),
        passes(descend, training_data, start, examples, end),
    ensures
        well_shaped(end),
        examples > 0 ==> numbers(end),
{
    if examples > 0 {
        let middle = choose|middle: Seq<Seq<Seq<u64>>>|
            passes(descend, training_data, start, examples - 1, middle) && #[trigger] steps(
                descend,
                training_data,
                examples - 1,
                middle,
                end,
            );
        let weights = choose|weights: Vec<Matrix<u64>>| #[trigger]
            descends(descend, training_data, examples - 1, middle, weights) && fault_of(
                grids(weights@),
            ) is None && end == grids(weights@);
    }
}

} // verus!
