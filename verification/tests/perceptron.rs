use neural_net::fixed::Fx;
use neural_net::perceptron::Perceptron;

fn fx(v: f64) -> Fx {
    Fx::from_raw((v * 1e9).round() as i64)
}

fn to_f64(x: Fx) -> f64 {
    x.raw() as f64 / 1e9
}

#[test]
fn perceptron_learns_the_and_table() {
    let and_set = vec![(0, 0, 0), (1, 0, 0), (0, 1, 0), (1, 1, 1)];
    let mut perceptron = Perceptron::new(fx(0.1));
    perceptron.train(&and_set);
    assert!(to_f64(perceptron.predict(1, 1)) > 0.5);
    assert!(to_f64(perceptron.predict(0, 0)) < 0.5);
    assert!(to_f64(perceptron.predict(1, 0)) < 0.5);
    assert!(to_f64(perceptron.predict(0, 1)) < 0.5);
}

#[test]
fn perceptron_learns_the_or_table() {
    let or_set = vec![(0, 0, 0), (0, 1, 1), (1, 0, 1), (1, 1, 1)];
    let mut perceptron = Perceptron::new(fx(0.1));
    perceptron.train(&or_set);
    assert!(to_f64(perceptron.predict(0, 0)) < 0.5);
    assert!(to_f64(perceptron.predict(0, 1)) > 0.5);
    assert!(to_f64(perceptron.predict(1, 0)) > 0.5);
    assert!(to_f64(perceptron.predict(1, 1)) > 0.5);
}

#[test]
fn perceptron_learns_the_nand_table() {
    let nand_set = vec![(0, 0, 1), (0, 1, 1), (1, 0, 1), (1, 1, 0)];
    let mut perceptron = Perceptron::new(fx(0.1));
    perceptron.train(&nand_set);
    assert!(to_f64(perceptron.predict(0, 0)) > 0.5);
    assert!(to_f64(perceptron.predict(1, 1)) < 0.5);
}

#[test]
fn prediction_lies_strictly_inside_unit_interval() {
    let perceptron = Perceptron::new(fx(0.1));
    for (x, y) in [(0, 0), (1, 0), (0, 1), (1, 1), (-1000, 1000)] {
        let p = perceptron.predict(x, y);
        assert!(0 < p.raw() && p.raw() < 1_000_000_000);
    }
}
