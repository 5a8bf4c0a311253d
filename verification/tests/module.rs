use ndarray::{Array, Array2, Axis};
use ndarray_rand::rand_distr::Normal;
use ndarray_rand::RandomExt;
use rstorch::module::safe_module::{Backward, Evaluation, Forward, Train};
use rstorch::loss::Loss;
use rstorch::model::BasicModel;
use rstorch::module::{Identity, Module, SafeModule, Sequential};
use rstorch::optim::Optimizer;

fn assert_array_eq(lhs: &Array2<f64>, rhs: &Array2<f64>) {
    if lhs.shape() != rhs.shape() {
        panic!(
            "Incompatible shape \n- a={:?} \n\n- b={:?}",
            lhs.shape(),
            rhs.shape()
        );
    }
    for (a, b) in lhs.iter().zip(rhs) {
        let diff = if a < b { b - a } else { a - b };
        if diff > 1e-6 {
            panic!("Not equal with tolerance={}\n- a={} \n\n- b={}", 1e-6, lhs, rhs);
        }
    }
}

fn rows(data: Vec<[f64; 2]>) -> Array2<f64> {
    Array2::from_shape_vec((data.len(), 2), data.concat()).unwrap()
}

#[derive(Debug, Default)]
struct ReLU {
    prev_input: Option<Array2<f64>>,
}

impl ReLU {
    fn new() -> Self {
        ReLU { prev_input: None }
    }
}

impl Module for ReLU {
    type Tensor = Array2<f64>;

    fn forward(&mut self, input: Array2<f64>) -> Array2<f64> {
        self.prev_input = Some(input.clone());
        input.mapv(|x| x.max(0.0))
    }

    fn backward(&mut self, gradient: Array2<f64>) -> Array2<f64> {
        gradient * self.prev_input.take().unwrap().mapv(|x| f64::from(x > 0.0))
    }

    fn train(&mut self) {}

    fn eval(&mut self) {}
}

#[derive(Debug)]
struct Linear {
    weight: Array2<f64>,
    bias: Array2<f64>,
    prev_input: Option<Array2<f64>>,
    training: bool,
}

impl Linear {
    fn new(input_size: usize, output_size: usize) -> Linear {
        let sigma = 1.0 / f64::sqrt(input_size as f64);
        Linear {
            weight: Array::random((output_size, input_size), Normal::new(0.0, sigma).unwrap()),
            bias: Array2::zeros((1, output_size)),
            prev_input: None,
            training: true,
        }
    }
}

impl Module for Linear {
    type Tensor = Array2<f64>;

    fn forward(&mut self, input: Array2<f64>) -> Array2<f64> {
        let mut x = input.dot(&self.weight.t());
        x += &self.bias;
        self.prev_input = Some(input);
        x
    }

    fn backward(&mut self, gradient: Array2<f64>) -> Array2<f64> {
        self.prev_input.take().unwrap();
        gradient.dot(&self.weight)
    }

    fn train(&mut self) {
        self.training = true;
    }

    fn eval(&mut self) {
        self.training = false;
    }
}

#[derive(Debug)]
enum Layer {
    Linear(Linear),
    ReLU(ReLU),
}

impl Module for Layer {
    type Tensor = Array2<f64>;

    fn forward(&mut self, input: Array2<f64>) -> Array2<f64> {
        match self {
            Layer::Linear(layer) => layer.forward(input),
            Layer::ReLU(layer) => layer.forward(input),
        }
    }

    fn backward(&mut self, gradient: Array2<f64>) -> Array2<f64> {
        match self {
            Layer::Linear(layer) => layer.backward(gradient),
            Layer::ReLU(layer) => layer.backward(gradient),
        }
    }

    fn train(&mut self) {
        match self {
            Layer::Linear(layer) => layer.train(),
            Layer::ReLU(layer) => layer.train(),
        }
    }

    fn eval(&mut self) {
        match self {
            Layer::Linear(layer) => layer.eval(),
            Layer::ReLU(layer) => layer.eval(),
        }
    }
}

/// Adds a fixed number going forward, doubles going backward, and keeps a
/// record of the calls it has seen.
struct Step {
    add: i64,
    calls: Vec<&'static str>,
}

impl Step {
    fn new(add: i64) -> Self {
        Step {
            add,
            calls: Vec::new(),
        }
    }
}

impl Module for Step {
    type Tensor = i64;

    fn forward(&mut self, input: i64) -> i64 {
        self.calls.push("forward");
        input * 10 + self.add
    }

    fn backward(&mut self, gradient: i64) -> i64 {
        self.calls.push("backward");
        gradient * 10 + self.add
    }

    fn train(&mut self) {
        self.calls.push("train");
    }

    fn eval(&mut self) {
        self.calls.push("eval");
    }
}

#[test]
fn identity_forward() {
    let mut module = Identity::new();
    let data = rows(vec![[1.0, 2.0], [3.0, 4.0], [5.0, 6.0]]);
    let result = module.forward(data.clone());

    assert_array_eq(&result, &data);
}

#[test]
fn identity_backward() {
    let mut module = Identity::new();
    let data = rows(vec![[1.0, 2.0], [3.0, 4.0], [5.0, 6.0]]);
    let result = module.backward(data.clone());

    assert_array_eq(&result, &data);
}

#[test]
fn safe_module_test_macro() {
    let _relu = SafeModule::new(ReLU::new());
    let _linear = SafeModule::new(Linear::new(10, 20));

    let _relu = SafeModule::new(ReLU::new());
    let _linear = SafeModule::new(Linear::new(10, 20));
}

#[test]
fn test_state() {
    let relu = SafeModule::new(ReLU::new());
    let (relu, _) = relu.forward(Array::ones((2, 3)));
    let (_relu, _) = relu.backward(Array::ones((2, 3)));
}

#[test]
fn test_mode() {
    let linear = SafeModule::new(Linear::new(10, 20));
    let linear = linear.eval();
    let _linear = linear.train();
}

#[test]
fn sequential_test_macro() {
    let _module = Sequential::new(vec![
        Layer::Linear(Linear::new(3, 10)),
        Layer::ReLU(ReLU::new()),
        Layer::Linear(Linear::new(10, 100)),
        Layer::ReLU(ReLU::new()),
        Layer::Linear(Linear::new(100, 2)),
    ]);

    let _module_2 = Sequential::new(vec![
        Layer::Linear(Linear::new(3, 10)),
        Layer::ReLU(ReLU::new()),
        Layer::Linear(Linear::new(10, 100)),
        Layer::ReLU(ReLU::new()),
        Layer::Linear(Linear::new(100, 2)),
    ]);
}

#[test]
fn sequential_runs_forward_in_order_and_backward_in_reverse() {
    let mut model = Sequential::new(vec![Step::new(1), Step::new(2), Step::new(3)]);
    // ((0 * 10 + 1) * 10 + 2) * 10 + 3
    assert_eq!(123, model.forward(0));
    // ((0 * 10 + 3) * 10 + 2) * 10 + 1
    assert_eq!(321, model.backward(0));
    model.eval();
    model.train();
    for i in (0..3).rev() {
        let layer = model.remove(i).unwrap();
        assert_eq!(vec!["forward", "backward", "eval", "train"], layer.calls);
    }
    assert!(model.is_empty());
    assert_eq!(5, model.forward(5));
    assert_eq!(7, model.backward(7));
}

#[test]
fn sequential_keeps_its_layers_in_order() {
    let mut model: Sequential<Step> = Sequential::new(Vec::new());
    assert!(model.is_empty());
    model.push(Step::new(1));
    model.push(Step::new(3));
    model.insert(1, Step::new(2));
    model.push_box(Box::new(Step::new(5)));
    model.insert_box(3, Box::new(Step::new(4)));
    assert_eq!(5, model.len());
    assert_eq!(12345, model.forward(0));
    assert!(model.remove(5).is_none());
    assert_eq!(5, model.len());
    assert_eq!(3, model.remove(2).unwrap().add);
    assert_eq!(4, model.len());
    assert_eq!(1245, model.forward(0));
    assert_eq!(5421, model.backward(0));
}

#[test]
fn sequential_of_real_layers() {
    let mut model = Sequential::new(vec![
        Layer::Linear(Linear::new(3, 5)),
        Layer::ReLU(ReLU::new()),
        Layer::Linear(Linear::new(5, 2)),
    ]);
    let output = model.forward(Array::ones((4, 3)));
    assert_eq!(&[4, 2], output.shape());
    let gradient = model.backward(Array::ones((4, 2)));
    assert_eq!(&[4, 3], gradient.shape());
    assert_eq!(4, gradient.len_of(Axis(0)));
}

#[test]
fn safe_module_hands_the_module_through_the_cycle() {
    let safe: SafeModule<Step, Forward, Train> = SafeModule::new(Step::new(7));
    let (safe, output): (SafeModule<Step, Backward, Train>, i64) = safe.forward(1);
    assert_eq!(17, output);
    let safe: SafeModule<Step, Backward, Evaluation> = safe.eval();
    let (safe, gradient): (SafeModule<Step, Forward, Evaluation>, i64) = safe.backward(2);
    assert_eq!(27, gradient);
    let safe: SafeModule<Step, Forward, Train> = safe.train();
    let module = safe.into_inner();
    assert_eq!(vec!["forward", "eval", "backward", "train"], module.calls);
}

#[test]
fn identity_in_a_sequence_changes_nothing() {
    let mut model = Sequential::new(vec![Identity::new(), Identity::new()]);
    assert_eq!(42, model.forward(42));
    assert_eq!(-3, model.backward(-3));
    model.train();
    model.eval();
    assert_eq!(2, model.len());
}

/// Measures the distance between prediction and truth and remembers it.
struct Distance {
    kept: Option<i64>,
    calls: Vec<&'static str>,
}

impl Loss for Distance {
    type Tensor = i64;
    type Value = u64;

    fn forward(&mut self, prediction: i64, truth: i64) -> u64 {
        self.calls.push("forward");
        self.kept = Some(prediction - truth);
        prediction.abs_diff(truth)
    }

    fn backward(&mut self) -> i64 {
        self.calls.push("backward");
        self.kept.take().unwrap()
    }
}

/// Adds what the module saw last to its step.
struct Nudge {
    steps: usize,
}

impl Optimizer<Step> for Nudge {
    fn step(&mut self, module: &mut Step) {
        self.steps += 1;
        module.calls.push("step");
        module.add += 1;
    }
}

#[test]
fn model_takes_the_parts_in_order() {
    let loss = Distance {
        kept: None,
        calls: Vec::new(),
    };
    let mut model = BasicModel::new(Step::new(3), loss, Nudge { steps: 0 });
    // 2 * 10 + 3
    assert_eq!(23, model.predict(2));
    model.step(2, 20);
    // the step has raised what the module adds by one
    assert_eq!(24, model.predict(2));
    model.step(1, 1);
    assert_eq!(25, model.predict(2));
}

#[test]
fn loss_and_optimizer_keep_their_order() {
    let mut module = Step::new(0);
    let mut loss = Distance {
        kept: None,
        calls: Vec::new(),
    };
    let mut optim = Nudge { steps: 0 };
    let prediction = module.forward(4);
    assert_eq!(40, prediction);
    assert_eq!(10, loss.forward(prediction, 50));
    let gradient = loss.backward();
    assert_eq!(-10, gradient);
    assert_eq!(-100, module.backward(gradient));
    optim.step(&mut module);
    assert_eq!(1, optim.steps);
    assert_eq!(vec!["forward", "backward", "step"], module.calls);
    assert_eq!(vec!["forward", "backward"], loss.calls);
}
