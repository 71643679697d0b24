use neural_net::fixed::Fx;
use neural_net::neuron::Neuron;

fn fx(v: f64) -> Fx {
    Fx::from_raw((v * 1e9).round() as i64)
}

fn to_f64(x: Fx) -> f64 {
    x.raw() as f64 / 1e9
}

#[test]
fn get_incoming_value_test() {
    let neuron = Neuron::from_parts(fx(4.9), fx(0.0), Vec::new(), fx(0.0));

    assert_eq!(4.9, to_f64(neuron.get_incoming_value()));
}

#[test]
fn set_incoming_value_test() {
    let mut neuron = Neuron::from_parts(fx(4.9), fx(0.0), Vec::new(), fx(0.0));

    assert_eq!(4.9, to_f64(neuron.get_incoming_value()));

    neuron.set_incoming_value(fx(7.8));
    assert_eq!(7.8, to_f64(neuron.get_incoming_value()));
}

#[test]
fn get_activation_value_test() {
    let neuron = Neuron::from_parts(fx(3.2), fx(19.2), Vec::new(), fx(0.0));

    assert_eq!(19.2, to_f64(neuron.get_activation_value()));
}

#[test]
fn set_activation_value_test() {
    let mut neuron = Neuron::from_parts(fx(9.5), fx(4.1), Vec::new(), fx(0.0));

    assert_eq!(4.1, to_f64(neuron.get_activation_value()));

    neuron.set_activation_value(fx(8.9));

    assert_eq!(8.9, to_f64(neuron.get_activation_value()));
}

#[test]
fn set_weights_check_weights() {
    let mut neuron = Neuron::from_parts(fx(0.0), fx(0.0), Vec::new(), fx(0.0));

    let new_weights = vec![fx(1.0), fx(2.0), fx(3.0)];

    neuron.set_weights(&new_weights);
    assert_eq!(3, neuron.get_weights().len());
    assert_eq!(vec![fx(1.0), fx(2.0), fx(3.0)], neuron.get_weights());
}

#[test]
fn new_neuron_weight_num_check() {
    let neuron = Neuron::new(72);

    assert_eq!(72, neuron.get_weights().len());

    let neuron = Neuron::new(1);

    assert_eq!(1, neuron.get_weights().len());

    let neuron = Neuron::new(0);

    assert_eq!(0, neuron.get_weights().len());
}

#[test]
fn new_neuron_values_check() {
    let neuron = Neuron::new(4);

    assert_eq!(0.0, to_f64(neuron.get_activation_value()));
    assert_eq!(0.0, to_f64(neuron.get_incoming_value()));
}

#[test]
fn set_error_gradient_check() {
    let mut neuron = Neuron::new(10);

    neuron.set_error_gradient(fx(0.554));
    assert_eq!(0.554, to_f64(neuron.get_error_gradient()));
}

#[test]
fn get_error_gradient_check() {
    let mut neuron = Neuron::new(100);
    neuron.set_error_gradient(fx(9.21));
    assert_eq!(9.21, to_f64(neuron.get_error_gradient()));
}

#[test]
fn new_neuron_weights_in_unit_range() {
    let neuron = Neuron::new(100);
    for w in neuron.get_weights() {
        assert!(0 <= w.raw() && w.raw() < 1_000_000_000);
    }
}
