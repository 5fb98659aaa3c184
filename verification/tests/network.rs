use recurrent_net::{nodes, Activations, Arithmetic, Edge, EvalError, Expr, Network, Node};

fn sigmoid(value: f64) -> f64 {
    1. / (1. + std::f64::consts::E.powf(-value))
}

fn floats() -> Arithmetic<
    f64,
    impl Fn(f64, f64) -> f64,
    impl Fn(f64, f64) -> f64,
    impl Fn(f64) -> f64,
> {
    Arithmetic {
        zero: 0.,
        plus: |total: f64, term: f64| total + term,
        times: |weight: f64, signal: f64| weight * signal,
        squash: sigmoid,
    }
}

fn scaled(weight: f64, signal: Expr<f64>) -> Expr<f64> {
    Expr::Scaled(weight, Box::new(signal))
}

fn sum(total: Expr<f64>, term: Expr<f64>) -> Expr<f64> {
    Expr::Sum(Box::new(total), Box::new(term))
}

fn squashed(total: Expr<f64>) -> Expr<f64> {
    Expr::Squashed(Box::new(total))
}

#[test]
fn test_simple_network() {
    let sensors = nodes(1);
    let outputs = nodes(1);
    let edges = vec![Edge::new(sensors[0], outputs[0], 1.)];
    let network = Network::new(sensors, outputs, edges);
    let previous_activations = &Activations::new();

    let (evaled, _) = network.eval(&vec![1.], previous_activations, &floats()).unwrap();

    assert_eq!(evaled[0], 1.);
}

#[test]
fn test_weight_of_two() {
    let sensors = nodes(1);
    let outputs = nodes(1);
    let edges = vec![Edge::new(sensors[0], outputs[0], 2.)];
    let network = Network::new(sensors, outputs, edges);
    let previous_activations = &Activations::new();

    let (evaled, _) = network.eval(&vec![1.], previous_activations, &floats()).unwrap();

    assert_eq!(evaled[0], 2.);
}

#[test]
fn test_hidden_node() {
    let sensors = nodes(1);
    let hiddens = nodes(1);
    let outputs = nodes(1);
    let edges = vec![
        Edge::new(sensors[0], hiddens[0], 1.),
        Edge::new(hiddens[0], outputs[0], 1.),
    ];
    let network = Network::new(sensors, outputs, edges);
    let previous_activations = &Activations::new();

    let (evaled, _) = network.eval(&vec![1.], previous_activations, &floats()).unwrap();

    assert!((evaled[0] - 0.73105).abs() < 0.00001);
}

#[test]
fn test_recurrence() {
    let sensors = nodes(1);
    let hiddens = nodes(1);
    let outputs = nodes(1);
    let edges = vec![
        Edge::new(sensors[0], hiddens[0], 1.),
        Edge::new(hiddens[0], hiddens[0], 1.),
        Edge::new(hiddens[0], outputs[0], 1.),
    ];

    let network = Network::new(sensors, outputs, edges);
    let mut previous_activations = Activations::new();
    previous_activations.insert(hiddens[0], 1.);

    let (evaled, _) = network.eval(&vec![1.], &previous_activations, &floats()).unwrap();

    assert!((evaled[0] - 0.88079).abs() < 0.00001);
}

#[test]
fn test_recurrence_with_remove_currently_calculating() {
    let sensors = nodes(1);
    let hiddens = nodes(1);
    let outputs = nodes(2);
    let edges = vec![
        Edge::new(sensors[0], hiddens[0], 1.),
        Edge::new(hiddens[0], hiddens[0], 1.),
        Edge::new(hiddens[0], outputs[0], 1.),
        Edge::new(hiddens[0], outputs[1], 1.),
    ];
    let network = Network::new(sensors, outputs, edges);
    let previous_activations = Activations::new();

    let (evaled, _) = network.eval(&vec![1.], &previous_activations, &floats()).unwrap();

    assert_eq!(evaled[0], evaled[1]);
}

#[test]
fn test_get_activations() {
    let sensors = nodes(1);
    let hiddens = nodes(1);
    let outputs = nodes(1);
    let edges = vec![
        Edge::new(sensors[0], hiddens[0], 1.),
        Edge::new(hiddens[0], outputs[0], 1.),
    ];
    let network = Network::new(sensors, outputs, edges);
    let previous_activations = &Activations::new();

    let (_, activations) = network.eval(&vec![1.], previous_activations, &floats()).unwrap();

    let activation = activations.get(&hiddens[0]);
    assert!(activation.is_some());
    assert!((activation.unwrap() - 0.73105).abs() < 0.00001);
}

#[test]
fn pass_through_is_weight_times_input() {
    let sensor = Node::new(10);
    let output = Node::new(20);
    let network = Network::new(vec![sensor], vec![output], vec![Edge::new(sensor, output, -3.5)]);

    let (resolved, recorded) = network.resolve(&vec![0.25], &Activations::new()).unwrap();
    assert_eq!(resolved, vec![sum(Expr::Zero, scaled(-3.5, Expr::Number(0.25)))]);
    assert!(recorded.get(&sensor).is_none());
    assert!(recorded.get(&output).is_none());

    let (evaled, activations) = network.eval(&vec![0.25], &Activations::new(), &floats()).unwrap();
    assert_eq!(evaled, vec![-0.875]);
    assert!(activations.get(&sensor).is_none());
    assert!(activations.get(&output).is_none());
}

#[test]
fn hidden_node_is_squashed_and_recorded() {
    let sensor = Node::new(0);
    let hidden = Node::new(1);
    let output = Node::new(2);
    let edges = vec![Edge::new(sensor, hidden, 1.), Edge::new(hidden, output, 1.)];
    let network = Network::new(vec![sensor], vec![output], edges);

    let (resolved, recorded) = network.resolve(&vec![1.], &Activations::new()).unwrap();
    let inner = squashed(sum(Expr::Zero, scaled(1., Expr::Number(1.))));
    assert_eq!(resolved, vec![sum(Expr::Zero, scaled(1., inner.clone()))]);
    assert_eq!(recorded.get(&hidden), Some(&inner));
    assert!(recorded.get(&sensor).is_none());
    assert!(recorded.get(&output).is_none());

    let (evaled, activations) = network.eval(&vec![1.], &Activations::new(), &floats()).unwrap();
    assert_eq!(evaled, vec![sigmoid(1.)]);
    assert_eq!(activations.get(&hidden), Some(&sigmoid(1.)));
    assert!(activations.get(&sensor).is_none());
    assert!(activations.get(&output).is_none());
}

#[test]
fn cycle_takes_the_previous_activation() {
    let sensor = Node::new(0);
    let hidden = Node::new(1);
    let output = Node::new(2);
    let edges = vec![
        Edge::new(sensor, hidden, 1.),
        Edge::new(hidden, hidden, 1.),
        Edge::new(hidden, output, 1.),
    ];
    let network = Network::new(vec![sensor], vec![output], edges);
    let mut previous_activations = Activations::new();
    previous_activations.insert(hidden, 1.);

    let (resolved, _) = network.resolve(&vec![1.], &previous_activations).unwrap();
    let fed = sum(sum(Expr::Zero, scaled(1., Expr::Number(1.))), scaled(1., Expr::Number(1.)));
    assert_eq!(resolved, vec![sum(Expr::Zero, scaled(1., squashed(fed)))]);

    let (evaled, _) = network.eval(&vec![1.], &previous_activations, &floats()).unwrap();
    assert_eq!(evaled, vec![sigmoid(2.)]);
}

#[test]
fn absent_previous_activation_counts_as_zero() {
    let sensor = Node::new(0);
    let hidden = Node::new(1);
    let output = Node::new(2);
    let looped = Network::new(
        vec![sensor],
        vec![output],
        vec![
            Edge::new(sensor, hidden, 1.),
            Edge::new(hidden, hidden, 1.),
            Edge::new(hidden, output, 1.),
        ],
    );
    let plain = Network::new(
        vec![sensor],
        vec![output],
        vec![Edge::new(sensor, hidden, 1.), Edge::new(hidden, output, 1.)],
    );

    let (resolved, _) = looped.resolve(&vec![1.], &Activations::new()).unwrap();
    let fed = sum(sum(Expr::Zero, scaled(1., Expr::Number(1.))), scaled(1., Expr::Zero));
    assert_eq!(resolved, vec![sum(Expr::Zero, scaled(1., squashed(fed)))]);

    let (with_loop, _) = looped.eval(&vec![1.], &Activations::new(), &floats()).unwrap();
    let (without_loop, _) = plain.eval(&vec![1.], &Activations::new(), &floats()).unwrap();
    assert_eq!(with_loop, without_loop);
    assert!((with_loop[0] - 0.73105).abs() < 0.00001);
}

#[test]
fn outputs_fed_alike_are_equal() {
    let sensor = Node::new(0);
    let hidden = Node::new(1);
    let first = Node::new(2);
    let second = Node::new(3);
    let edges = vec![
        Edge::new(sensor, hidden, 0.3),
        Edge::new(hidden, hidden, -1.7),
        Edge::new(hidden, first, 0.9),
        Edge::new(hidden, second, 0.9),
    ];
    let network = Network::new(vec![sensor], vec![first, second], edges);
    let mut previous_activations = Activations::new();
    previous_activations.insert(hidden, 0.4);

    let (resolved, _) = network.resolve(&vec![0.6], &previous_activations).unwrap();
    assert_eq!(resolved.len(), 2);
    assert_eq!(resolved[0], resolved[1]);

    let (evaled, _) = network.eval(&vec![0.6], &previous_activations, &floats()).unwrap();
    assert_eq!(evaled.len(), 2);
    assert_eq!(evaled[0].to_bits(), evaled[1].to_bits());
    assert_eq!(evaled[0], 0. + 0.9 * sigmoid((0. + 0.3 * 0.6) + -1.7 * 0.4));
}

#[test]
fn input_length_mismatch_is_reported() {
    let sensors = vec![Node::new(0), Node::new(1)];
    let output = Node::new(2);
    let edges = vec![Edge::new(sensors[0], output, 1.), Edge::new(sensors[1], output, 1.)];
    let network = Network::new(sensors, vec![output], edges);

    let short = network.eval(&vec![1.], &Activations::new(), &floats());
    assert_eq!(short.err(), Some(EvalError::InputLengthMismatch { expected: 2, found: 1 }));

    let long = network.eval(&vec![1., 2., 3.], &Activations::new(), &floats());
    assert_eq!(long.err(), Some(EvalError::InputLengthMismatch { expected: 2, found: 3 }));

    let unresolved = network.resolve(&vec![1.], &Activations::new());
    assert_eq!(unresolved.err(), Some(EvalError::InputLengthMismatch { expected: 2, found: 1 }));

    let (evaled, _) = network.eval(&vec![1., 2.], &Activations::new(), &floats()).unwrap();
    assert_eq!(evaled, vec![3.]);
}

#[test]
fn mismatch_is_reported_even_where_no_sensor_is_read() {
    let sensor = Node::new(0);
    let output = Node::new(1);
    let network: Network<f64> = Network::new(vec![sensor], vec![output], vec![]);

    let result = network.eval(&vec![], &Activations::new(), &floats());

    assert_eq!(result.err(), Some(EvalError::InputLengthMismatch { expected: 1, found: 0 }));
}

#[test]
fn node_without_incoming_edges_sums_to_zero() {
    let hidden = Node::new(1);
    let output = Node::new(2);
    let lonely = Node::new(3);
    let network = Network::new(vec![], vec![output, lonely], vec![Edge::new(hidden, output, 2.)]);

    let (resolved, recorded) = network.resolve(&vec![], &Activations::new()).unwrap();
    assert_eq!(resolved, vec![sum(Expr::Zero, scaled(2., squashed(Expr::Zero))), Expr::Zero]);
    assert_eq!(recorded.get(&hidden), Some(&squashed(Expr::Zero)));

    let (evaled, activations) = network.eval(&vec![], &Activations::new(), &floats()).unwrap();
    assert_eq!(evaled, vec![1., 0.]);
    assert_eq!(activations.get(&hidden), Some(&0.5));
}

#[test]
fn duplicate_edges_both_count() {
    let sensor = Node::new(0);
    let output = Node::new(1);
    let edges = vec![Edge::new(sensor, output, 0.5), Edge::new(sensor, output, 0.5)];
    let network = Network::new(vec![sensor], vec![output], edges);

    let (evaled, _) = network.eval(&vec![3.], &Activations::new(), &floats()).unwrap();

    assert_eq!(evaled, vec![3.]);
}

#[test]
fn edges_are_summed_in_order() {
    let sensors = vec![Node::new(0), Node::new(1), Node::new(2)];
    let output = Node::new(3);
    let other = Node::new(4);
    let edges = vec![
        Edge::new(sensors[2], output, 1.),
        Edge::new(sensors[0], other, 5.),
        Edge::new(sensors[0], output, 2.),
        Edge::new(sensors[1], output, 3.),
    ];
    let network = Network::new(sensors, vec![output], edges);

    let (resolved, _) = network.resolve(&vec![10., 20., 30.], &Activations::new()).unwrap();
    let expected = sum(
        sum(sum(Expr::Zero, scaled(1., Expr::Number(30.))), scaled(2., Expr::Number(10.))),
        scaled(3., Expr::Number(20.)),
    );
    assert_eq!(resolved, vec![expected]);

    let (evaled, _) = network.eval(&vec![10., 20., 30.], &Activations::new(), &floats()).unwrap();
    assert_eq!(evaled, vec![110.]);
}

#[test]
fn sensor_that_is_also_output_reads_its_input() {
    let both = Node::new(0);
    let sensor = Node::new(1);
    let network = Network::new(vec![sensor, both], vec![both], vec![Edge::new(sensor, both, 4.)]);

    let (resolved, recorded) = network.resolve(&vec![1., 7.], &Activations::new()).unwrap();

    assert_eq!(resolved, vec![Expr::Number(7.)]);
    assert!(recorded.get(&both).is_none());
}

#[test]
fn repeated_sensor_reads_its_first_position() {
    let sensor = Node::new(0);
    let output = Node::new(1);
    let network =
        Network::new(vec![sensor, sensor], vec![output], vec![Edge::new(sensor, output, 1.)]);

    let (evaled, _) = network.eval(&vec![5., 9.], &Activations::new(), &floats()).unwrap();

    assert_eq!(evaled, vec![5.]);
}

#[test]
fn output_on_a_cycle_takes_its_previous_value() {
    let sensor = Node::new(0);
    let output = Node::new(1);
    let edges = vec![Edge::new(sensor, output, 1.), Edge::new(output, output, 2.)];
    let network = Network::new(vec![sensor], vec![output], edges);
    let mut previous_activations = Activations::new();
    previous_activations.insert(output, 10.);

    let (evaled, activations) =
        network.eval(&vec![1.], &previous_activations, &floats()).unwrap();

    assert_eq!(evaled, vec![21.]);
    assert!(activations.get(&output).is_none());
}

#[test]
fn mutual_cycle_is_broken_where_it_closes() {
    let sensor = Node::new(0);
    let left = Node::new(1);
    let right = Node::new(2);
    let output = Node::new(3);
    let edges = vec![
        Edge::new(sensor, left, 1.),
        Edge::new(right, left, 1.),
        Edge::new(left, right, 1.),
        Edge::new(right, output, 1.),
    ];
    let network = Network::new(vec![sensor], vec![output], edges);
    let mut previous_activations = Activations::new();
    previous_activations.insert(left, 100.);
    previous_activations.insert(right, 0.5);

    let (resolved, recorded) = network.resolve(&vec![0.25], &previous_activations).unwrap();
    let left_value = squashed(sum(
        sum(Expr::Zero, scaled(1., Expr::Number(0.25))),
        scaled(1., Expr::Number(0.5)),
    ));
    let right_value = squashed(sum(Expr::Zero, scaled(1., left_value.clone())));
    assert_eq!(resolved, vec![sum(Expr::Zero, scaled(1., right_value.clone()))]);
    assert_eq!(recorded.get(&left), Some(&left_value));
    assert_eq!(recorded.get(&right), Some(&right_value));

    let (evaled, activations) =
        network.eval(&vec![0.25], &previous_activations, &floats()).unwrap();
    assert_eq!(evaled, vec![sigmoid(sigmoid(0.75))]);
    assert_eq!(activations.get(&left), Some(&sigmoid(0.75)));
    assert_eq!(activations.get(&right), Some(&sigmoid(sigmoid(0.75))));
}

#[test]
fn later_resolution_overwrites_the_record() {
    let hidden = Node::new(1);
    let first = Node::new(2);
    let second = Node::new(3);
    let edges = vec![
        Edge::new(second, hidden, 1.),
        Edge::new(hidden, first, 1.),
        Edge::new(hidden, second, 1.),
    ];
    let network = Network::new(vec![], vec![first, second], edges);
    let mut previous_activations = Activations::new();
    previous_activations.insert(second, 3.);

    let (resolved, recorded) = network.resolve(&vec![], &previous_activations).unwrap();

    let fed_by_output =
        squashed(sum(Expr::Zero, scaled(1., sum(Expr::Zero, scaled(1., Expr::Zero)))));
    let fed_by_previous = squashed(sum(Expr::Zero, scaled(1., Expr::Number(3.))));
    assert_eq!(resolved[0], sum(Expr::Zero, scaled(1., fed_by_output)));
    assert_eq!(resolved[1], sum(Expr::Zero, scaled(1., fed_by_previous.clone())));
    assert_eq!(recorded.get(&hidden), Some(&fed_by_previous));
}

#[test]
fn activations_feed_the_next_step() {
    let sensor = Node::new(0);
    let hidden = Node::new(1);
    let output = Node::new(2);
    let edges = vec![
        Edge::new(sensor, hidden, 1.),
        Edge::new(hidden, hidden, 1.),
        Edge::new(hidden, output, 1.),
    ];
    let network = Network::new(vec![sensor], vec![output], edges);

    let mut previous_activations = Activations::new();
    let mut expected = 0.;
    for _ in 0..3 {
        let (evaled, activations) =
            network.eval(&vec![1.], &previous_activations, &floats()).unwrap();
        expected = sigmoid(1. + expected);
        assert_eq!(evaled, vec![expected]);
        assert_eq!(activations.get(&hidden), Some(&expected));
        previous_activations = activations;
    }
}

#[test]
fn evaluation_is_repeatable() {
    let sensor = Node::new(0);
    let hidden = Node::new(1);
    let output = Node::new(2);
    let edges = vec![
        Edge::new(sensor, hidden, 0.1),
        Edge::new(hidden, hidden, 0.2),
        Edge::new(hidden, output, 0.3),
    ];
    let network = Network::new(vec![sensor], vec![output], edges);
    let mut previous_activations = Activations::new();
    previous_activations.insert(hidden, 0.7);

    let (once, _) = network.resolve(&vec![0.5], &previous_activations).unwrap();
    let (again, _) = network.resolve(&vec![0.5], &previous_activations).unwrap();
    assert_eq!(once, again);

    let (first, _) = network.eval(&vec![0.5], &previous_activations, &floats()).unwrap();
    let (second, _) = network.eval(&vec![0.5], &previous_activations, &floats()).unwrap();
    assert_eq!(first[0].to_bits(), second[0].to_bits());
}

#[test]
fn exclusive_or_network_answers_as_designed() {
    let sensors = vec![Node::new(0), Node::new(1), Node::new(2)];
    let output = Node::new(3);
    let many_ones = Node::new(4);
    let any_ones = Node::new(5);
    let softmax = Node::new(6);
    let edges = vec![
        Edge::new(sensors[0], many_ones, 6.),
        Edge::new(sensors[1], many_ones, 6.),
        Edge::new(sensors[2], many_ones, -8.),
        Edge::new(sensors[0], any_ones, 10.),
        Edge::new(sensors[1], any_ones, 10.),
        Edge::new(sensors[2], any_ones, -5.),
        Edge::new(many_ones, softmax, -15.),
        Edge::new(any_ones, softmax, 10.),
        Edge::new(sensors[2], softmax, -5.),
        Edge::new(softmax, output, 1.),
    ];
    let network = Network::new(sensors, vec![output], edges);

    let cases = vec![
        (vec![0., 0., 1.], false),
        (vec![0., 1., 1.], true),
        (vec![1., 0., 1.], true),
        (vec![1., 1., 1.], false),
    ];
    for (inputs, high) in cases {
        let (evaled, _) = network.eval(&inputs, &Activations::new(), &floats()).unwrap();
        assert_eq!(evaled[0] > 0.5, high);
        assert!(evaled[0] > 0. && evaled[0] < 1.);
    }
}

#[test]
fn network_keeps_what_it_was_made_of() {
    let sensors = vec![Node::new(4), Node::new(5)];
    let outputs = vec![Node::new(6)];
    let network = Network::new(sensors, outputs, vec![Edge::new(Node::new(4), Node::new(6), 1.5)]);

    assert_eq!(network.sensors(), &vec![Node::new(4), Node::new(5)]);
    assert_eq!(network.outputs(), &vec![Node::new(6)]);
    assert_eq!(network.edges(), &vec![Edge::new(Node::new(4), Node::new(6), 1.5)]);
    assert_eq!(network.edges()[0].source, Node::new(4));
    assert_eq!(network.edges()[0].destination, Node::new(6));
    assert_eq!(network.edges()[0].weight, 1.5);
}

#[test]
fn nodes_makes_as_many_as_asked() {
    assert_eq!(nodes(0).len(), 0);
    assert_eq!(nodes(1).len(), 1);
    assert_eq!(nodes(17).len(), 17);
}

#[test]
fn node_is_its_identifier() {
    assert_eq!(Node::new(7).index(), 7);
    assert_eq!(Node::new(7), Node::new(7));
    assert_ne!(Node::new(7), Node::new(8));
    assert_eq!(Node::new(usize::MAX).index(), usize::MAX);
    let drawn = Node::random();
    assert_eq!(Node::new(drawn.index()), drawn);
}

#[test]
fn activations_keep_the_last_value() {
    let mut activations = Activations::new();
    assert!(activations.get(&Node::new(1)).is_none());
    activations.insert(Node::new(1), 0.5);
    activations.insert(Node::new(2), 1.5);
    activations.insert(Node::new(1), 2.5);
    assert_eq!(activations.get(&Node::new(1)), Some(&2.5));
    assert_eq!(activations.get(&Node::new(2)), Some(&1.5));
    assert!(activations.get(&Node::new(3)).is_none());
}

#[test]
fn recorded_expressions_become_numbers() {
    let mut recorded = Activations::new();
    recorded.insert(Node::new(1), squashed(Expr::Number(1.)));
    recorded.insert(Node::new(2), sum(Expr::Number(2.), scaled(3., Expr::Number(4.))));
    recorded.insert(Node::new(3), Expr::Zero);

    let numbers = recorded.compute(&floats());

    assert_eq!(numbers.get(&Node::new(1)), Some(&sigmoid(1.)));
    assert_eq!(numbers.get(&Node::new(2)), Some(&14.));
    assert_eq!(numbers.get(&Node::new(3)), Some(&0.));
    assert!(numbers.get(&Node::new(4)).is_none());

    let nothing: Activations<Expr<f64>> = Activations::new();
    assert!(nothing.compute(&floats()).get(&Node::new(1)).is_none());
}

#[test]
fn compute_works_innermost_first_and_left_to_right() {
    let expr: Expr<i64> = Expr::Sum(
        Box::new(Expr::Sum(
            Box::new(Expr::Zero),
            Box::new(Expr::Scaled(3, Box::new(Expr::Number(4)))),
        )),
        Box::new(Expr::Scaled(5, Box::new(Expr::Squashed(Box::new(Expr::Number(6)))))),
    );
    let arithmetic = Arithmetic {
        zero: 100,
        plus: |total: i64, term: i64| total - term,
        times: |weight: i64, signal: i64| weight * 10 + signal,
        squash: |total: i64| -total,
    };

    assert_eq!(expr.compute(&arithmetic), (100 - 34) - (5 * 10 - 6));
}

#[test]
fn compute_of_each_form() {
    assert_eq!(Expr::Zero.compute(&floats()), 0.);
    assert_eq!(Expr::Number(-2.5).compute(&floats()), -2.5);
    assert_eq!(sum(Expr::Number(1.5), Expr::Number(2.)).compute(&floats()), 3.5);
    assert_eq!(scaled(1.5, Expr::Number(2.)).compute(&floats()), 3.);
    assert_eq!(squashed(Expr::Number(0.)).compute(&floats()), 0.5);
    assert!((squashed(Expr::Number(1.)).compute(&floats()) - 0.7310585786300049).abs() < 1e-12);
    assert!((squashed(Expr::Number(-2.)).compute(&floats()) - 0.11920292202211755).abs() < 1e-12);
}

#[test]
fn clone_of_an_expression_is_equal() {
    let expr = sum(squashed(Expr::Zero), scaled(2., squashed(Expr::Number(1.))));
    assert_eq!(expr.clone(), expr);
    assert_ne!(expr, Expr::Zero);
}
