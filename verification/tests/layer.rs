use neural_net::fixed::Fx;
use neural_net::layer::Layer;

fn fx(v: f64) -> Fx {
    Fx::from_raw((v * 1e9).round() as i64)
}

fn to_f64(x: Fx) -> f64 {
    x.raw() as f64 / 1e9
}

fn truncate_to_3_decimal_places(val: f64) -> f64 {
    let scale = 1000.0;
    (val * scale).round() / scale
}

fn truncate_to_4_decimal_places(val: f64) -> f64 {
    let scale = 10_000.0;
    (val * scale).round() / scale
}

#[test]
fn layer_initialization_check() {
    let new_layer = Layer::new(5, 5);

    assert_eq!(5, new_layer.get_neurons().len());
    new_layer.get_neurons().iter().for_each(|neuron| assert_eq!(5, neuron.get_weights().len()));
}

#[test]
fn sigmoid_test() {
    let val1 = fx(0.0);
    let val2 = fx(0.5);
    let val3 = fx(1.0);

    assert_eq!(0.5, to_f64(Layer::sigmoid(val1)));
    assert_eq!(0.622, truncate_to_3_decimal_places(to_f64(Layer::sigmoid(val2))));
    assert_eq!(0.731, truncate_to_3_decimal_places(to_f64(Layer::sigmoid(val3))));
}

#[test]
fn sigmoid_derivative_test() {
    let val1 = Layer::sigmoid(fx(0.0));
    let val2 = Layer::sigmoid(fx(0.5));
    let val3 = Layer::sigmoid(fx(1.0));

    assert_eq!(0.5, truncate_to_3_decimal_places(to_f64(val1)));
    assert_eq!(0.622, truncate_to_3_decimal_places(to_f64(val2)));
    assert_eq!(0.731, truncate_to_3_decimal_places(to_f64(val3)));

    let sigmoid_derivative1 = Layer::sigmoid_derivative(fx(0.0));
    let sigmoid_derivative2 = Layer::sigmoid_derivative(fx(0.5));
    let sigmoid_derivative3 = Layer::sigmoid_derivative(fx(1.0));

    assert_eq!(0.25, truncate_to_3_decimal_places(to_f64(sigmoid_derivative1)));
    assert_eq!(0.235, truncate_to_3_decimal_places(to_f64(sigmoid_derivative2)));
    assert_eq!(0.197, truncate_to_3_decimal_places(to_f64(sigmoid_derivative3)));
}

#[test]
fn set_weights_explicitly_vec_len_error() {
    let mut layer = Layer::new(1, 4);

    let incorrect_len_vec = vec![
        vec![fx(1.0), fx(1.0), fx(1.0), fx(1.0)],
        vec![fx(2.0), fx(2.0), fx(2.0), fx(2.0)],
        vec![fx(3.0), fx(3.0), fx(3.0), fx(3.0)],
    ];

    let result = layer.set_neuron_weights_explicit(&incorrect_len_vec);

    assert_ne!(Ok(()), result);
    let err_msg = "Number of incoming weight vectors does not equal number of neurons. Expected 1, got 3";
    assert_eq!(err_msg, result.unwrap_err().message());
}

#[test]
fn set_weights_explicitly_weights_len_error() {
    let mut layer = Layer::new(2, 4);

    let incorrect_weight_len_vec = vec![
        vec![fx(1.0), fx(1.0), fx(1.0), fx(1.0), fx(2.0), fx(2.0)],
        vec![fx(2.0), fx(2.0), fx(2.0), fx(2.0), fx(2.0), fx(2.0)],
    ];

    let result = layer.set_neuron_weights_explicit(&incorrect_weight_len_vec);

    assert_ne!(Ok(()), result);
    let err_msg = "Number of neuron weights does not equal incoming weights. Expected 4, got 6";
    assert_eq!(err_msg, result.unwrap_err().message());
}

#[test]
fn set_weights_explicitly_correct_lens() {
    let mut layer = Layer::new(3, 5);

    let correct_vec = vec![
        vec![fx(1.0), fx(1.0), fx(1.0), fx(1.0), fx(1.0)],
        vec![fx(2.0), fx(2.0), fx(2.0), fx(2.0), fx(2.0)],
        vec![fx(3.0), fx(3.0), fx(3.0), fx(3.0), fx(3.0)],
    ];

    let result = layer.set_neuron_weights_explicit(&correct_vec);

    assert_eq!(Ok(()), result);
    assert_eq!(correct_vec[0], layer.get_neurons()[0].get_weights());
    assert_eq!(correct_vec[1], layer.get_neurons()[1].get_weights());
    assert_eq!(correct_vec[2], layer.get_neurons()[2].get_weights());
}

#[test]
fn feed_forward_input_to_hidden_layer_check() {
    let mut input_layer = Layer::new(2, 4);
    let mut hidden_layer = Layer::new(4, 1);
    input_layer.get_neurons_mut()[0].set_incoming_value(fx(0.6));
    input_layer.get_neurons_mut()[0].set_activation_value(fx(0.6));
    input_layer.get_neurons_mut()[1].set_incoming_value(fx(0.4));
    input_layer.get_neurons_mut()[1].set_activation_value(fx(0.4));

    let input_layer_weights = vec![
        vec![fx(0.15), fx(0.2), fx(0.25), fx(0.3)],
        vec![fx(0.35), fx(0.4), fx(0.45), fx(0.5)],
    ];

    let result = input_layer.set_neuron_weights_explicit(&input_layer_weights);
    assert_eq!(Ok(()), result);
    assert_eq!(input_layer_weights[0], input_layer.get_neurons()[0].get_weights());
    assert_eq!(input_layer_weights[1], input_layer.get_neurons()[1].get_weights());

    input_layer.feed_forward(&mut hidden_layer, fx(0.5));

    assert_eq!(0.730, truncate_to_3_decimal_places(to_f64(hidden_layer.get_neurons()[0].get_incoming_value())));
    assert_eq!(0.780, truncate_to_3_decimal_places(to_f64(hidden_layer.get_neurons()[1].get_incoming_value())));
    assert_eq!(0.830, truncate_to_3_decimal_places(to_f64(hidden_layer.get_neurons()[2].get_incoming_value())));
    assert_eq!(0.880, truncate_to_3_decimal_places(to_f64(hidden_layer.get_neurons()[3].get_incoming_value())));

    assert_eq!(0.675, truncate_to_3_decimal_places(to_f64(hidden_layer.get_neurons()[0].get_activation_value())));
    assert_eq!(0.686, truncate_to_3_decimal_places(to_f64(hidden_layer.get_neurons()[1].get_activation_value())));
    assert_eq!(0.696, truncate_to_3_decimal_places(to_f64(hidden_layer.get_neurons()[2].get_activation_value())));
    assert_eq!(0.707, truncate_to_3_decimal_places(to_f64(hidden_layer.get_neurons()[3].get_activation_value())));
}

#[test]
fn feed_forward_last_pass_hidden_layer_to_output() {
    let mut hidden_layer = Layer::new(4, 1);
    hidden_layer.get_neurons_mut()[0].set_incoming_value(fx(0.730));
    hidden_layer.get_neurons_mut()[0].set_activation_value(fx(0.675));
    hidden_layer.get_neurons_mut()[1].set_incoming_value(fx(0.780));
    hidden_layer.get_neurons_mut()[1].set_activation_value(fx(0.686));
    hidden_layer.get_neurons_mut()[2].set_incoming_value(fx(0.830));
    hidden_layer.get_neurons_mut()[2].set_activation_value(fx(0.696));
    hidden_layer.get_neurons_mut()[3].set_incoming_value(fx(0.880));
    hidden_layer.get_neurons_mut()[3].set_activation_value(fx(0.707));

    let hidden_layer_weights = vec![vec![fx(0.40)], vec![fx(0.45)], vec![fx(0.50)], vec![fx(0.55)]];

    let result = hidden_layer.set_neuron_weights_explicit(&hidden_layer_weights);

    assert_eq!(Ok(()), result);

    let mut output_layer = Layer::new(1, 0);

    hidden_layer.feed_forward(&mut output_layer, fx(0.5));

    assert_eq!(1.816, truncate_to_3_decimal_places(to_f64(output_layer.get_neurons()[0].get_incoming_value())));
    assert_eq!(0.860, truncate_to_3_decimal_places(to_f64(output_layer.get_neurons()[0].get_activation_value())));
}

#[test]
fn feed_forward_is_deterministic() {
    let weights = vec![vec![fx(0.15), fx(0.2)], vec![fx(0.35), fx(0.4)]];
    let mut outputs: Vec<(i64, i64)> = Vec::new();
    for _ in 0..2 {
        let mut input_layer = Layer::new(2, 2);
        let mut next_layer = Layer::new(2, 0);
        input_layer.set_neuron_values_explicit(vec![fx(0.6), fx(0.4)]).unwrap();
        input_layer.set_neuron_weights_explicit(&weights).unwrap();
        input_layer.feed_forward(&mut next_layer, fx(0.5));
        outputs.push((
            next_layer.get_neurons()[0].get_activation_value().raw(),
            next_layer.get_neurons()[1].get_activation_value().raw(),
        ));
    }
    assert_eq!(outputs[0], outputs[1]);
}

#[test]
fn set_default_neuron_values_test() {
    let mut layer = Layer::new(3, 0);

    layer.set_default_neuron_values(fx(0.5));

    layer.get_neurons().iter().for_each(|neuron| {
        assert_eq!(0.5, to_f64(neuron.get_activation_value()));
        assert_eq!(0.5, to_f64(neuron.get_incoming_value()));
    });

    layer.set_default_neuron_values(fx(9.0));

    layer.get_neurons().iter().for_each(|neuron| {
        assert_eq!(9.0, to_f64(neuron.get_activation_value()));
        assert_eq!(9.0, to_f64(neuron.get_incoming_value()));
    });
}

#[test]
fn set_neuron_error_gradients_check() {
    let mut layer = Layer::new(3, 0);
    layer.get_neurons_mut()[0].set_activation_value(fx(0.0));
    layer.get_neurons_mut()[1].set_activation_value(fx(0.0));
    layer.get_neurons_mut()[2].set_activation_value(fx(0.0));

    // activation * (1 - activation) vanishes at an activation of zero
    let error = fx(-4.0);
    layer.set_neuron_error_gradients(error);

    assert_eq!(0.0, to_f64(layer.get_neurons()[0].get_error_gradient()));
    assert_eq!(0.0, to_f64(layer.get_neurons()[1].get_error_gradient()));
    assert_eq!(0.0, to_f64(layer.get_neurons()[2].get_error_gradient()));
}

#[test]
fn set_neuron_error_gradients_uses_already_activated_values() {
    let mut layer = Layer::new(2, 0);
    layer.get_neurons_mut()[0].set_activation_value(fx(0.5));
    layer.get_neurons_mut()[1].set_activation_value(fx(1.0));

    layer.set_neuron_error_gradients(fx(-4.0));

    // 0.5 * (1 - 0.5) * -4 = -1; 1 * (1 - 1) * -4 = 0
    assert_eq!(-1.0, to_f64(layer.get_neurons()[0].get_error_gradient()));
    assert_eq!(0.0, to_f64(layer.get_neurons()[1].get_error_gradient()));
}

#[test]
fn set_neuron_values_explicit_incorrect_len() {
    let mut layer = Layer::new(3, 0);
    let incorrect_len_values = vec![fx(3.0), fx(4.0), fx(5.0), fx(6.0), fx(7.0)];

    let result = layer.set_neuron_values_explicit(incorrect_len_values);

    assert_ne!(Ok(()), result);
    assert_eq!(
        "Number of neurons does not equal the number of values given to the function. Expected 3, got 5",
        result.unwrap_err().message()
    );
}

#[test]
fn set_neuron_values_explicit_check() {
    let mut layer = Layer::new(3, 0);
    let correct_len_values = vec![fx(3.0), fx(4.0), fx(5.0)];

    let result = layer.set_neuron_values_explicit(correct_len_values);

    assert_eq!(Ok(()), result);

    assert_eq!(3.0, to_f64(layer.get_neurons()[0].get_activation_value()));
    assert_eq!(3.0, to_f64(layer.get_neurons()[0].get_incoming_value()));
    assert_eq!(4.0, to_f64(layer.get_neurons()[1].get_activation_value()));
    assert_eq!(4.0, to_f64(layer.get_neurons()[1].get_incoming_value()));
    assert_eq!(5.0, to_f64(layer.get_neurons()[2].get_activation_value()));
    assert_eq!(5.0, to_f64(layer.get_neurons()[2].get_incoming_value()));
}

#[test]
fn output_layer_back_propagation_test() {
    let mut output_layer = Layer::new(1, 0);
    let result = output_layer.set_neuron_values_explicit(vec![fx(0.75)]);
    assert_eq!(Ok(()), result);

    // corresponds to number of output neurons
    let expected_values = vec![fx(0.7)];

    // None because there is no next layer - the output is the last
    output_layer.back_propagate(&expected_values, fx(0.01), None);

    assert_eq!(-0.019, truncate_to_3_decimal_places(to_f64(output_layer.get_neurons()[0].get_error_gradient())));
}

#[test]
fn hidden_layer_back_propagation_test() {
    let mut hidden_layer = Layer::new(4, 1);
    let mut output_layer = Layer::new(1, 0);
    let result = output_layer.set_neuron_values_explicit(vec![fx(0.75)]);
    assert_eq!(Ok(()), result);

    let hidden_layer_values = vec![fx(0.6), fx(0.7), fx(0.8), fx(0.9)];
    let result = hidden_layer.set_neuron_values_explicit(hidden_layer_values);
    assert_eq!(Ok(()), result);

    let hidden_layer_initial_weights = vec![vec![fx(0.9)], vec![fx(0.1)], vec![fx(0.8)], vec![fx(0.2)]];
    let result = hidden_layer.set_neuron_weights_explicit(&hidden_layer_initial_weights);
    assert_eq!(Ok(()), result);

    let expected_values = vec![fx(0.7)];
    output_layer.back_propagate(&expected_values, fx(0.01), None);
    assert_eq!(-0.019, truncate_to_3_decimal_places(to_f64(output_layer.get_neurons()[0].get_error_gradient())));

    hidden_layer.back_propagate(&expected_values, fx(0.01), Some(&output_layer));

    assert_eq!(-0.0041, truncate_to_4_decimal_places(to_f64(hidden_layer.get_neurons()[0].get_error_gradient())));
    assert_eq!(-0.0004, truncate_to_4_decimal_places(to_f64(hidden_layer.get_neurons()[1].get_error_gradient())));
    assert_eq!(-0.0024, truncate_to_4_decimal_places(to_f64(hidden_layer.get_neurons()[2].get_error_gradient())));
    assert_eq!(-0.0003, truncate_to_4_decimal_places(to_f64(hidden_layer.get_neurons()[3].get_error_gradient())));

    assert_eq!(0.900, truncate_to_3_decimal_places(to_f64(hidden_layer.get_neurons()[0].get_weights()[0])));
    assert_eq!(0.100, truncate_to_3_decimal_places(to_f64(hidden_layer.get_neurons()[1].get_weights()[0])));
    assert_eq!(0.800, truncate_to_3_decimal_places(to_f64(hidden_layer.get_neurons()[2].get_weights()[0])));
    assert_eq!(0.200, truncate_to_3_decimal_places(to_f64(hidden_layer.get_neurons()[3].get_weights()[0])));
}

#[test]
fn update_weights_back_prop_check() {
    let mut layer = Layer::new(1, 2);
    layer.get_neurons_mut().iter_mut().for_each(|neuron| {
        neuron.set_error_gradient(fx(0.2));
        neuron.set_activation_value(fx(5.0));

        let weights = vec![fx(2.0), fx(4.0)];
        neuron.set_weights(&weights);
    });

    layer.update_weights_back_prop(fx(0.1));

    assert_eq!(2.1, to_f64(layer.get_neurons()[0].get_weights()[0]));
    assert_eq!(4.1, to_f64(layer.get_neurons()[0].get_weights()[1]));
}

#[test]
fn sigmoid_bounds_and_monotonicity() {
    // bounded inside (0, 1) even at the extreme representable arguments
    let lo = Layer::sigmoid(Fx::from_raw(i64::MIN));
    let hi = Layer::sigmoid(Fx::from_raw(i64::MAX));
    assert!(0.0 < to_f64(lo) && to_f64(lo) < 1.0);
    assert!(0.0 < to_f64(hi) && to_f64(hi) < 1.0);

    // increasing along a sweep of arguments
    let points = [-20.0, -4.0, -1.0, -0.25, 0.0, 0.25, 1.0, 4.0, 20.0];
    for pair in points.windows(2) {
        assert!(Layer::sigmoid(fx(pair[0])).raw() <= Layer::sigmoid(fx(pair[1])).raw());
    }
    assert!(Layer::sigmoid(fx(-1.0)).raw() < Layer::sigmoid(fx(1.0)).raw());
    assert_eq!(0.5, to_f64(Layer::sigmoid(fx(0.0))));
}

#[test]
fn sigmoid_derivative_already_activated_peak_and_zeros() {
    assert_eq!(0.25, to_f64(Layer::sigmoid_derivative_already_activated(fx(0.5))));
    assert_eq!(0.0, to_f64(Layer::sigmoid_derivative_already_activated(fx(0.0))));
    assert_eq!(0.0, to_f64(Layer::sigmoid_derivative_already_activated(fx(1.0))));
    for a in [0.1, 0.3, 0.42, 0.77, 0.99] {
        assert!(
            Layer::sigmoid_derivative_already_activated(fx(a)).raw()
                <= Layer::sigmoid_derivative_already_activated(fx(0.5)).raw()
        );
    }
}
