use easy_ml::differentiation::Record;
use easy_ml::differentiation::WengertList;
use easy_ml::linear_algebra::softmax;
use easy_ml::matrices::Matrix;
use easy_ml::numeric::extra::Ln;
use mnist::dataset::Dataset;
use mnist::digit::Digit;
use mnist::image::Image;
use mnist::network::activate;
use mnist::network::NeuralNetwork;
use mnist::scalar::ONE;
use mnist::topology::WEIGHTS;
use mnist::training::target;
use mnist::training::Fault;
use mnist::training::Interrupted;
use mnist::training::NeuralNetworkTraining;
use std::cell::RefCell;

fn small_draws() -> Vec<u64> {
    (0..WEIGHTS).map(|n| (((n * 7919) % 1000) as f64 / 100000.0).to_bits()).collect()
}

fn image_of(value: u8) -> Image {
    let mut image = Image::new();
    image.buffer().resize(784, value);
    image
}

fn probabilities(network: &NeuralNetwork, image: &Image) -> Vec<u64> {
    let pixels: Vec<f64> = image.pixels().iter().map(|pixel| *pixel as f64 / 255.0).collect();
    let mut signal = Matrix::from_flat_row_major((1, 784), pixels);
    for layer in 0..network.layers() {
        let weights: Matrix<f64> = network.weights()[layer].map(f64::from_bits);
        signal = (signal * &weights).map(|sum| f64::from_bits(activate(layer, sum.to_bits())));
    }
    softmax(signal.row_major_iter()).iter().map(|p| p.to_bits()).collect()
}

fn descend(rate: f64, training: &NeuralNetworkTraining, image: &Image, label: Digit) -> (f64, Vec<Matrix<u64>>) {
    let history = WengertList::new();
    let weights: Vec<Matrix<Record<f64>>> = training
        .weights()
        .iter()
        .map(|layer| layer.map(|weight| Record::variable(f64::from_bits(weight), &history)))
        .collect();
    let pixels: Vec<Record<f64>> =
        image.pixels().iter().map(|pixel| Record::constant(*pixel as f64 / 255.0)).collect();
    let mut signal = Matrix::from_flat_row_major((1, 784), pixels);
    for (layer, weights) in weights.iter().enumerate() {
        signal = (signal * weights).map(|sum| {
            let activated = activate(layer, sum.number.to_bits());
            if activated == sum.number.to_bits() {
                sum
            } else {
                Record::constant(f64::from_bits(activated))
            }
        });
    }
    let probabilities = softmax(signal.row_major_iter());
    let hot = target(label).iter().position(|class| *class == ONE).unwrap();
    let loss = -probabilities[hot].ln();
    let derivatives = loss.derivatives();
    let descended = weights
        .iter()
        .map(|layer| layer.map(|weight| (weight.number - rate * derivatives[&weight]).to_bits()))
        .collect();
    (loss.number, descended)
}

const RATE: f64 = 0.01;

#[test]
fn descending_on_one_example_lowers_its_loss_until_it_is_learned() {
    let mut dataset = Dataset::new();
    dataset.add(image_of(255), 3);
    let mut network = NeuralNetwork::new(&small_draws());
    let before = f64::from_bits(probabilities(&network, &image_of(255))[3]);
    assert!(before < 0.11);

    let losses: RefCell<Vec<f64>> = RefCell::new(Vec::new());
    let mut passes = 0;
    while f64::from_bits(probabilities(&network, &image_of(255))[3]) <= 0.9 {
        assert!(passes < 200);
        let result = network.train(&dataset, |training: &NeuralNetworkTraining, image: &Image, label: Digit| {
            let (loss, descended) = descend(RATE, training, image, label);
            losses.borrow_mut().push(loss);
            descended
        });
        assert_eq!(result, Ok(()));
        passes += 1;
    }
    let losses = losses.into_inner();
    assert_eq!(losses.len(), passes);
    assert!(passes >= 2);
    for pair in losses.windows(2) {
        assert!(pair[1] < pair[0]);
    }
    assert_eq!(network.classify(&image_of(255), probabilities), Ok(Digit::Three));
}

#[test]
fn the_first_loss_is_that_of_a_guess_among_ten() {
    let network = NeuralNetwork::new(&small_draws());
    let training = NeuralNetworkTraining::from(&network);
    let (loss, descended) = descend(RATE, &training, &image_of(255), Digit::Three);
    assert!((loss - 10.0f64.ln()).abs() < 0.05);
    assert_eq!(descended.len(), 3);
    // the weights towards the label grow, those towards another class shrink
    for row in 0..64 {
        let towards_label = f64::from_bits(descended[2].get(row, 3));
        let towards_other = f64::from_bits(descended[2].get(row, 4));
        assert!(towards_label > f64::from_bits(network.weights()[2].get(row, 3)));
        assert!(towards_other < f64::from_bits(network.weights()[2].get(row, 4)));
    }
}

#[test]
fn a_descent_that_leaves_the_numbers_breaks_the_pass_off() {
    // weights so heavy that the label's probability vanishes, its loss is
    // without bound and the gradients are not numbers
    let heavy: Vec<u64> = (0..WEIGHTS)
        .map(|n| if n >= 108544 && n % 10 == 4 { 0.0f64 } else { 0.999f64 }.to_bits())
        .collect();
    let mut dataset = Dataset::new();
    dataset.add(image_of(255), 0);
    let mut network = NeuralNetwork::new(&heavy);
    let result = network.train(&dataset, |training: &NeuralNetworkTraining, image: &Image, label: Digit| {
        descend(RATE, training, image, label).1
    });
    assert_eq!(result, Err(Interrupted { example: 0, fault: Fault::NotANumber }));
    let kept: Vec<u64> = network.weights().iter().flat_map(|layer| layer.row_major_iter()).collect();
    assert_eq!(kept, heavy);
}
