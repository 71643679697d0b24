use neural_net::fixed::Fx;
use neural_net::layer::Layer;
use neural_net::net::NeuralNet;

fn fx(v: f64) -> Fx {
    Fx::from_raw((v * 1e9).round() as i64)
}

fn to_f64(x: Fx) -> f64 {
    x.raw() as f64 / 1e9
}

#[test]
fn neural_net_initialization_check() {
    let neural_net = NeuralNet::new(3, 2, 5, 1, fx(0.1));

    assert_eq!(3, neural_net.get_layers().len());
    //input
    assert_eq!(2, neural_net.get_layers()[0].get_neurons().len());
    //hidden
    assert_eq!(5, neural_net.get_layers()[1].get_neurons().len());
    //output
    assert_eq!(1, neural_net.get_layers()[2].get_neurons().len());
    assert_eq!(0.1, to_f64(neural_net.get_learning_rate()));

    //input
    assert_eq!(5, neural_net.get_layers()[0].get_neurons()[0].get_weights().len());
    //hidden
    assert_eq!(1, neural_net.get_layers()[1].get_neurons()[0].get_weights().len());
    //output
    assert_eq!(0, neural_net.get_layers()[2].get_neurons()[0].get_weights().len());
}

#[test]
fn cost_function_test() {
    let mut output_layer = Layer::new(2, 0);
    output_layer.set_default_neuron_values(fx(0.5));
    let expected = fx(1.0);
    let cost = NeuralNet::cost_function(&output_layer, expected);

    assert_eq!(0.25, to_f64(cost));
    output_layer.set_default_neuron_values(fx(1.0));
    let expected = fx(4.0);
    let cost = NeuralNet::cost_function(&output_layer, expected);

    assert_eq!(9.0, to_f64(cost));
}

#[test]
fn cost_function_derivative_test() {
    let mut output_layer = Layer::new(2, 0);
    output_layer.set_default_neuron_values(fx(0.5));
    let expected = fx(1.0);
    let cost = NeuralNet::cost_function_derivative(&output_layer, expected);

    // two neurons, each (0.5 - 1.0) * sigmoid'(0.5), with sigmoid'
    // re-applying the logistic: sigmoid(0.5) * (1 - sigmoid(0.5))
    let deriv = Layer::sigmoid_derivative(fx(0.5));
    let per_neuron = fx(-0.5).mul(deriv);
    assert_eq!(per_neuron.add(per_neuron), cost);
}

#[test]
fn new_network_bias_in_unit_range() {
    let neural_net = NeuralNet::new(4, 2, 3, 1, fx(0.1));
    let bias = neural_net.get_bias().raw();
    assert!(0 <= bias && bias < 1_000_000_000);
}

#[test]
fn forward_reports_output_activation() {
    let mut neural_net = NeuralNet::new(3, 2, 4, 1, fx(0.1));
    let out = neural_net.forward(fx(0.5), fx(0.25));
    // the prediction is a logistic value, so it lies strictly inside (0, 1)
    assert!(0.0 < to_f64(out) && to_f64(out) < 1.0);
    let reported = neural_net.get_layers()[2].get_neurons()[0].get_activation_value();
    assert_eq!(out, reported);
}

#[test]
fn forward_matches_layer_by_layer_run() {
    // the same weights run through Layer::feed_forward by hand
    let mut neural_net = NeuralNet::new(3, 2, 2, 1, fx(0.5));
    let input_weights = vec![vec![fx(0.15), fx(0.2)], vec![fx(0.35), fx(0.4)]];
    let hidden_weights = vec![vec![fx(0.45)], vec![fx(0.55)]];
    {
        let layers = neural_net.get_layers_mut();
        layers[0].set_neuron_weights_explicit(&input_weights).unwrap();
        layers[1].set_neuron_weights_explicit(&hidden_weights).unwrap();
    }
    let bias = neural_net.get_bias();
    let out = neural_net.forward(fx(0.6), fx(0.4));

    let mut input_layer = Layer::new(2, 2);
    let mut hidden_layer = Layer::new(2, 1);
    let mut output_layer = Layer::new(1, 0);
    input_layer.set_neuron_values_explicit(vec![fx(0.6), fx(0.4)]).unwrap();
    input_layer.set_neuron_weights_explicit(&input_weights).unwrap();
    hidden_layer.set_neuron_weights_explicit(&hidden_weights).unwrap();
    input_layer.feed_forward(&mut hidden_layer, bias);
    hidden_layer.feed_forward(&mut output_layer, bias);

    assert_eq!(output_layer.get_neurons()[0].get_activation_value(), out);
}

#[test]
fn train_learns_the_and_table() {
    let and_set = vec![
        (fx(0.0), fx(0.0), fx(0.0)),
        (fx(1.0), fx(0.0), fx(0.0)),
        (fx(0.0), fx(1.0), fx(0.0)),
        (fx(1.0), fx(1.0), fx(1.0)),
    ];

    // fixed starting weights, so the run is reproducible up to the bias
    let mut neural_net = NeuralNet::new(3, 2, 2, 2, fx(0.5));
    {
        let layers = neural_net.get_layers_mut();
        layers[0]
            .set_neuron_weights_explicit(&vec![vec![fx(0.5), fx(0.9)], vec![fx(0.2), fx(0.8)]])
            .unwrap();
        layers[1]
            .set_neuron_weights_explicit(&vec![vec![fx(0.4), fx(0.6)], vec![fx(0.7), fx(0.1)]])
            .unwrap();
    }
    neural_net.train(&and_set, 2000);

    assert!(to_f64(neural_net.forward(fx(1.0), fx(1.0))) > 0.6);
    assert!(to_f64(neural_net.forward(fx(0.0), fx(0.0))) < 0.4);
    assert!(to_f64(neural_net.forward(fx(1.0), fx(0.0))) < 0.5);
    assert!(to_f64(neural_net.forward(fx(0.0), fx(1.0))) < 0.5);
}

#[test]
fn train_matches_layer_level_calls() {
    // one sample, one pass, against the same steps made through the
    // layer-level operations by hand
    let sample = (fx(0.25), fx(0.75), fx(1.0));
    let input_weights = vec![vec![fx(0.5), fx(0.9)], vec![fx(0.2), fx(0.8)]];
    let hidden_weights = vec![vec![fx(0.4), fx(0.6)], vec![fx(0.7), fx(0.1)]];

    let mut neural_net = NeuralNet::new(3, 2, 2, 2, fx(0.5));
    {
        let layers = neural_net.get_layers_mut();
        layers[0].set_neuron_weights_explicit(&input_weights).unwrap();
        layers[1].set_neuron_weights_explicit(&hidden_weights).unwrap();
    }
    let bias = neural_net.get_bias();
    let lr = neural_net.get_learning_rate();
    neural_net.train(&vec![sample], 1);

    let mut input_layer = Layer::new(2, 2);
    let mut hidden_layer = Layer::new(2, 2);
    let mut output_layer = Layer::new(2, 0);
    input_layer.set_neuron_weights_explicit(&input_weights).unwrap();
    hidden_layer.set_neuron_weights_explicit(&hidden_weights).unwrap();
    input_layer.set_neuron_values_explicit(vec![sample.0, sample.1]).unwrap();
    input_layer.feed_forward(&mut hidden_layer, bias);
    hidden_layer.feed_forward(&mut output_layer, bias);
    let expected = vec![sample.2];
    output_layer.back_propagate(&expected, lr, None);
    hidden_layer.back_propagate(&expected, lr, Some(&output_layer));
    input_layer.back_propagate(&expected, lr, Some(&hidden_layer));
    let trained_bias = bias.add(lr.mul(output_layer.get_neurons()[0].get_error_gradient()));

    let by_hand = [input_layer, hidden_layer, output_layer];
    for (k, layer) in by_hand.iter().enumerate() {
        let trained = &neural_net.get_layers()[k];
        for (n_hand, n_net) in layer.get_neurons().iter().zip(trained.get_neurons().iter()) {
            assert_eq!(n_hand.get_incoming_value(), n_net.get_incoming_value());
            assert_eq!(n_hand.get_activation_value(), n_net.get_activation_value());
            assert_eq!(n_hand.get_error_gradient(), n_net.get_error_gradient());
            assert_eq!(n_hand.get_weights(), n_net.get_weights());
        }
    }
    assert_eq!(trained_bias, neural_net.get_bias());
}
