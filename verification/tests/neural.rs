use neural_os::fixed::{sigmoid, Fixed, ONE_BITS};
use neural_os::neural::{NeuralScheduler, HIDDEN_SIZE, INPUT_SIZE, LEARNING_RATE_BITS, MOMENTUM_BITS};

fn from_f32(v: f32) -> Fixed {
    Fixed((v * 65536.0) as i32)
}

fn to_f32(x: Fixed) -> f32 {
    x.0 as f32 / 65536.0
}

fn fabs(x: f32) -> f32 {
    if x.is_sign_negative() {
        -x
    } else {
        x
    }
}

/// Inputs of a task with the given metrics, normalised as the scheduler does.
fn inputs(execution_time: u32, wait_time: u32, io_wait_count: u32) -> [Fixed; INPUT_SIZE] {
    [
        from_f32(execution_time as f32 / 1000.0),
        from_f32(wait_time as f32 / 1000.0),
        from_f32(0.0),
        from_f32(0.0),
        from_f32(io_wait_count as f32 / 100.0),
        from_f32(0.0),
        from_f32(0.0),
    ]
}

#[test]
fn sigmoid_is_bounded() {
    assert!(fabs(to_f32(sigmoid(from_f32(0.0))) - 0.5) < 0.02);
    assert!(to_f32(sigmoid(from_f32(20.0))) > 0.9);
    assert!(to_f32(sigmoid(from_f32(-20.0))) < 0.1);
}

#[test]
fn priority_stays_in_unit_interval() {
    let net = NeuralScheduler::new();
    let p = to_f32(net.predict_fixed(&inputs(900, 400, 0)));
    assert!((0.0..=1.0).contains(&p), "priority out of range: {}", p);
}

#[test]
fn weight_init_breaks_symmetry() {
    let net = NeuralScheduler::new();
    let w: Vec<f32> = net.output_weights.iter().map(|x| to_f32(*x)).collect();
    assert!(
        w.iter().any(|&x| fabs(x - w[0]) > 1e-4),
        "output weights are degenerate/symmetric: {:?}",
        w
    );
}

#[test]
fn training_reduces_error() {
    let mut net = NeuralScheduler::new();
    let x = inputs(500, 300, 4);
    let target = 0.9;
    let before = fabs(target - to_f32(net.predict_fixed(&x)));
    for _ in 0..2000 {
        net.learn_fixed(&x, from_f32(target));
    }
    let after = fabs(target - to_f32(net.predict_fixed(&x)));
    assert!(
        after < before,
        "SGD failed to reduce error: before={} after={}",
        before,
        after
    );
}

#[test]
fn initial_network_constants() {
    let net = NeuralScheduler::new();
    assert_eq!(net.learning_rate.0, LEARNING_RATE_BITS);
    assert_eq!(net.momentum.0, MOMENTUM_BITS);
    assert_eq!(net.output_bias.0, 0);
    for i in 0..HIDDEN_SIZE {
        assert_eq!(net.hidden_bias[i].0, 6553);
        assert_eq!(net.output_velocity[i].0, 0);
        for j in 0..INPUT_SIZE {
            assert_eq!(net.hidden_velocity[i][j].0, 0);
            // 0.5 +- 0.15
            let w = net.hidden_weights[i][j].0;
            assert!((32768 - 9831..=32768 + 9831).contains(&w));
        }
    }
}

#[test]
fn first_weights_follow_the_generator() {
    // seed' = seed * 1664525 + 1013904223 (mod 2^32), u = ((seed' >> 9) - 2^22) / 64
    let mut seed: u32 = 0x2545_f491;
    seed = seed.wrapping_mul(1_664_525).wrapping_add(1_013_904_223);
    let u = (((seed >> 9) as i64 - 4_194_304) / 64) as i32;
    let expected = 32768 + ((9830i64 * u as i64) >> 16) as i32;
    let net = NeuralScheduler::new();
    assert_eq!(net.hidden_weights[0][0].0, expected);
}

#[test]
fn learning_stops_at_the_target() {
    let mut net = NeuralScheduler::new();
    let x = inputs(100, 100, 1);
    let out = net.predict_fixed(&x);
    let before_w = net.output_weights;
    let before_h = net.hidden_weights;
    net.learn_fixed(&x, out);
    assert_eq!(net.output_weights, before_w);
    assert_eq!(net.hidden_weights, before_h);
}

#[test]
fn learning_moves_output_towards_target() {
    let mut net = NeuralScheduler::new();
    let x = inputs(500, 300, 4);
    let before = net.predict_fixed(&x).0;
    net.learn_fixed(&x, Fixed(ONE_BITS));
    let after = net.predict_fixed(&x).0;
    assert!(after >= before, "before={} after={}", before, after);
    assert_ne!(net.output_velocity, [Fixed(0); HIDDEN_SIZE]);
}

#[test]
fn reset_restores_initial_weights() {
    let mut net = NeuralScheduler::new();
    let fresh = NeuralScheduler::new();
    let x = inputs(500, 300, 4);
    for _ in 0..10 {
        net.learn_fixed(&x, Fixed(0));
    }
    assert_ne!(net.output_weights, fresh.output_weights);
    net.reset();
    assert_eq!(net.output_weights, fresh.output_weights);
    assert_eq!(net.hidden_weights, fresh.hidden_weights);
    assert_eq!(net.output_velocity, fresh.output_velocity);
}
