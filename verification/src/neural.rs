//! Multi-layer perceptron (7 inputs, 8 leaky-ReLU hidden units, 1 sigmoid
//! output) with online momentum SGD.
//!
//! Weights and activations are Q16.16 fixed point (`fixed::Fixed`), so the
//! scheduling hot path does not depend on floating point. Turning task
//! metrics into inputs, and outputs into `f32` for display, is left to the
//! caller.
use vstd::prelude::*;
use crate::fixed::{
    Fixed,
    HALF_BITS,
    ONE_BITS,
    clamp_i32,
    mul_bits,
    sat_abs,
    sigmoid,
    sigmoid_bits,
    sigmoid_derivative_bits,
    sigmoid_derivative_from_output,
    trunc_div,
};

verus! {

pub const HIDDEN_SIZE: usize = 8;

pub const INPUT_SIZE: usize = 7;

/// Seed of the weight-initialisation generator.
pub const INIT_SEED: u32 = 0x2545_f491;

/// 0.1, the initial hidden bias.
pub const INIT_BIAS_BITS: i32 = 6553;

/// 0.15, the spread of the initial hidden weights around 0.5.
pub const HIDDEN_SPREAD_BITS: i32 = 9830;

/// 0.3, the centre of the initial output weights.
pub const INIT_OUTPUT_BITS: i32 = 19660;

/// 0.1, the spread of the initial output weights around 0.3.
pub const OUTPUT_SPREAD_BITS: i32 = 6553;

/// 0.01, the learning rate.
pub const LEARNING_RATE_BITS: i32 = 655;

/// 0.9, the momentum.
pub const MOMENTUM_BITS: i32 = 58982;

/// 0.01, the slope of the leaky ReLU below zero.
pub const LEAK_BITS: i32 = 655;

/// Errors of at most this many raw units (65/65536 < 0.001) count as learnt.
pub const TOLERANCE_BITS: i32 = 66;

/// Why the network could not give a usable answer.
#[derive(Clone, Copy, PartialEq, Eq, Structural, Debug)]
pub enum NeuralError {
    /// The prediction came out as NaN or infinite.
    NonFiniteOutput,
    /// The training target was NaN or infinite.
    NonFiniteTarget,
}

#[derive(Clone, Copy, PartialEq, Eq, Structural, Debug)]
pub enum TaskClass {
    RealTime,
    Interactive,
    Batch,
}

/// One step of the linear congruential generator that breaks the symmetry
/// between neurons.
pub open spec fn lcg_next(s: u32) -> u32 {
    vstd::wrapping::u32_specs::wrapping_add(
        vstd::wrapping::u32_specs::wrapping_mul(s, 1_664_525),
        1_013_904_223,
    )
}

/// The generator's state after `n` steps.
pub open spec fn lcg_state(n: nat) -> u32
    decreases n,
{
    if n == 0 {
        INIT_SEED
    } else {
        lcg_next(lcg_state((n - 1) as nat))
    }
}

/// The value in [-1, 1) that state `s` stands for, `(s >> 9) / 2^22 - 1`,
/// in Q16.16 truncated toward zero.
pub open spec fn unit_bits(s: u32) -> i32 {
    trunc_div((s >> 9u32) as int - 4194304, 64) as i32
}

/// The `k`-th draw of the generator (from 0).
pub open spec fn draw(k: nat) -> i32 {
    unit_bits(lcg_state(k + 1))
}

/// Initial weight from input `j` to hidden unit `i`: 0.5 + 0.15 * draw.
pub open spec fn init_hidden_weight(i: int, j: int) -> i32 {
    clamp_i32(HALF_BITS + mul_bits(HIDDEN_SPREAD_BITS, draw((i * 8 + j) as nat)))
}

/// Initial weight from hidden unit `i` to the output: 0.3 + 0.1 * draw.
pub open spec fn init_output_weight(i: int) -> i32 {
    clamp_i32(INIT_OUTPUT_BITS + mul_bits(OUTPUT_SPREAD_BITS, draw((i * 8 + 7) as nat)))
}

/// Leaky ReLU on raw bits.
pub open spec fn relu_bits(x: i32) -> i32 {
    if x > 0 {
        x
    } else {
        mul_bits(x, LEAK_BITS)
    }
}

/// Derivative of the leaky ReLU on raw bits.
pub open spec fn relu_derivative_bits(x: i32) -> i32 {
    if x > 0 {
        ONE_BITS
    } else {
        LEAK_BITS
    }
}

/// `bias + sum of w[k] * x[k]` over the first `n` terms, each product and sum
/// in Q16.16 with saturating addition, taken in order.
pub open spec fn dot(bias: i32, w: Seq<Fixed>, x: Seq<Fixed>, n: nat) -> i32
    decreases n,
{
    if n == 0 {
        bias
    } else {
        clamp_i32(dot(bias, w, x, (n - 1) as nat) + mul_bits(w[n - 1].0, x[n - 1].0))
    }
}

/// Momentum step of one parameter: `v' = momentum * v + rate * grad`.
pub open spec fn velocity_step(v: i32, grad: i32) -> i32 {
    clamp_i32(mul_bits(MOMENTUM_BITS, v) + mul_bits(LEARNING_RATE_BITS, grad))
}

pub struct NeuralScheduler {
    pub hidden_weights: [[Fixed; INPUT_SIZE]; HIDDEN_SIZE],
    pub hidden_bias: [Fixed; HIDDEN_SIZE],
    pub output_weights: [Fixed; HIDDEN_SIZE],
    pub output_bias: Fixed,
    pub hidden_velocity: [[Fixed; INPUT_SIZE]; HIDDEN_SIZE],
    pub output_velocity: [Fixed; HIDDEN_SIZE],
    pub learning_rate: Fixed,
    pub momentum: Fixed,
}

/// Draws the next value of the generator in `seed`.
fn lcg_draw(seed: &mut u32) -> (r: Fixed)
    ensures
        *final(seed) == lcg_next(*old(seed)),
        r.0 == unit_bits(lcg_next(*old(seed))),
        -65536 <= r.0 < 65536,
{
    *seed = seed.wrapping_mul(1_664_525).wrapping_add(1_013_904_223);
    let s: i64 = (*seed >> 9u32) as i64;
    assert(*seed >> 9u32 < 8388608u32) by (bit_vector);
    let d: i64 = s - 4194304;
    let q: i64 = d / 64;
    Fixed(q as i32)
}

impl NeuralScheduler {
    /// The freshly initialised network (see `new`).
    pub open spec fn is_initial(&self) -> bool {
        &&& forall|i: int, j: int|
            0 <= i < HIDDEN_SIZE && 0 <= j < INPUT_SIZE ==> (#[trigger] self.hidden_weights[i][j]).0
                == init_hidden_weight(i, j)
        &&& forall|i: int|
            0 <= i < HIDDEN_SIZE ==> (#[trigger] self.output_weights[i]).0 == init_output_weight(i)
        &&& forall|i: int| 0 <= i < HIDDEN_SIZE ==> (#[trigger] self.hidden_bias[i]).0 == INIT_BIAS_BITS
        &&& self.output_bias.0 == 0
        &&& forall|i: int, j: int|
            0 <= i < HIDDEN_SIZE && 0 <= j < INPUT_SIZE ==> (#[trigger] self.hidden_velocity[i][j]).0
                == 0
        &&& forall|i: int| 0 <= i < HIDDEN_SIZE ==> (#[trigger] self.output_velocity[i]).0 == 0
        &&& self.learning_rate.0 == LEARNING_RATE_BITS
        &&& self.momentum.0 == MOMENTUM_BITS
    }

    /// Hidden weights 0.5 + 0.15 * u, output weights 0.3 + 0.1 * u, with u
    /// drawn in order (row by row, each row's output weight last) from a
    /// fixed-seed generator; biases 0.1 (hidden) and 0, velocities 0,
    /// learning rate 0.01, momentum 0.9.
    pub fn new() -> (n: NeuralScheduler)
        ensures
            n.is_initial(),
    {
        let zero = Fixed(0);
        let mut n = NeuralScheduler {
            hidden_weights: [[Fixed(HALF_BITS); INPUT_SIZE]; HIDDEN_SIZE],
            hidden_bias: [Fixed(INIT_BIAS_BITS); HIDDEN_SIZE],
            output_weights: [Fixed(INIT_OUTPUT_BITS); HIDDEN_SIZE],
            output_bias: zero,
            hidden_velocity: [[zero; INPUT_SIZE]; HIDDEN_SIZE],
            output_velocity: [zero; HIDDEN_SIZE],
            learning_rate: Fixed(LEARNING_RATE_BITS),
            momentum: Fixed(MOMENTUM_BITS),
        };
        let mut seed: u32 = INIT_SEED;
        let mut i: usize = 0;
        while i < HIDDEN_SIZE
            invariant
                0 <= i <= HIDDEN_SIZE,
                seed == lcg_state((i * 8) as nat),
                forall|a: int, b: int|
                    0 <= a < i && 0 <= b < INPUT_SIZE ==> (#[trigger] n.hidden_weights[a][b]).0
                        == init_hidden_weight(a, b),
                forall|a: int| 0 <= a < i ==> (#[trigger] n.output_weights[a]).0 == init_output_weight(a),
                forall|a: int| 0 <= a < HIDDEN_SIZE ==> (#[trigger] n.hidden_bias[a]).0 == INIT_BIAS_BITS,
                n.output_bias.0 == 0,
                forall|a: int, b: int|
                    0 <= a < HIDDEN_SIZE && 0 <= b < INPUT_SIZE ==> (#[trigger] n.hidden_velocity[a][b]).0
                        == 0,
                forall|a: int| 0 <= a < HIDDEN_SIZE ==> (#[trigger] n.output_velocity[a]).0 == 0,
                n.learning_rate.0 == LEARNING_RATE_BITS,
                n.momentum.0 == MOMENTUM_BITS,
            decreases HIDDEN_SIZE - i,
        {
            let mut row = n.hidden_weights[i];
            let mut j: usize = 0;
            while j < INPUT_SIZE
                invariant
                    0 <= i < HIDDEN_SIZE,
                    0 <= j <= INPUT_SIZE,
                    seed == lcg_state((i * 8 + j) as nat),
                    forall|b: int| 0 <= b < j ==> (#[trigger] row[b]).0 == init_hidden_weight(i as int, b),
                decreases INPUT_SIZE - j,
            {
                let u = lcg_draw(&mut seed);
                proof {
                    assert(lcg_state((i * 8 + j + 1) as nat) == lcg_next(lcg_state((i * 8 + j) as nat)));
                }
                row[j] = Fixed(HALF_BITS).saturating_add(Fixed(HIDDEN_SPREAD_BITS).wrapping_mul(u));
                j = j + 1;
            }
            n.hidden_weights[i] = row;
            let u = lcg_draw(&mut seed);
            proof {
                assert(lcg_state((i * 8 + 8) as nat) == lcg_next(lcg_state((i * 8 + 7) as nat)));
            }
            n.output_weights[i] = Fixed(INIT_OUTPUT_BITS).saturating_add(
                Fixed(OUTPUT_SPREAD_BITS).wrapping_mul(u),
            );
            i = i + 1;
        }
        n
    }

    /// Leaky ReLU: `x` above zero, `0.01 * x` otherwise.
    fn relu(x: Fixed) -> (r: Fixed)
        ensures
            r.0 == relu_bits(x.0),
    {
        if x.0 > 0 {
            x
        } else {
            x.wrapping_mul(Fixed(LEAK_BITS))
        }
    }

    fn relu_derivative(x: Fixed) -> (r: Fixed)
        ensures
            r.0 == relu_derivative_bits(x.0),
    {
        if x.0 > 0 {
            Fixed(ONE_BITS)
        } else {
            Fixed(LEAK_BITS)
        }
    }

    /// The pre-activation of hidden unit `i` on `inputs`.
    pub open spec fn hidden_sum(&self, inputs: Seq<Fixed>, i: int) -> i32 {
        dot(self.hidden_bias[i].0, self.hidden_weights[i]@, inputs, INPUT_SIZE as nat)
    }

    /// The pre-activation of the output on hidden activations `hidden`.
    pub open spec fn output_sum(&self, hidden: Seq<Fixed>) -> i32 {
        dot(self.output_bias.0, self.output_weights@, hidden, HIDDEN_SIZE as nat)
    }

    fn forward_hidden(&self, inputs: &[Fixed; INPUT_SIZE]) -> (h: [Fixed; HIDDEN_SIZE])
        ensures
            forall|i: int|
                0 <= i < HIDDEN_SIZE ==> (#[trigger] h[i]).0 == relu_bits(
                    self.hidden_sum(inputs@, i),
                ),
    {
        let mut hidden = [Fixed(0); HIDDEN_SIZE];
        let mut i: usize = 0;
        while i < HIDDEN_SIZE
            invariant
                0 <= i <= HIDDEN_SIZE,
                forall|a: int|
                    0 <= a < i ==> (#[trigger] hidden[a]).0 == relu_bits(self.hidden_sum(inputs@, a)),
            decreases HIDDEN_SIZE - i,
        {
            let mut z = self.hidden_bias[i];
            let mut j: usize = 0;
            while j < INPUT_SIZE
                invariant
                    0 <= i < HIDDEN_SIZE,
                    0 <= j <= INPUT_SIZE,
                    z.0 == dot(self.hidden_bias[i as int].0, self.hidden_weights[i as int]@, inputs@, j as nat),
                decreases INPUT_SIZE - j,
            {
                z = z.saturating_add(self.hidden_weights[i][j].wrapping_mul(inputs[j]));
                j = j + 1;
            }
            hidden[i] = Self::relu(z);
            i = i + 1;
        }
        hidden
    }

    fn forward_output(&self, hidden: &[Fixed; HIDDEN_SIZE]) -> (r: Fixed)
        ensures
            r.0 == sigmoid_bits(self.output_sum(hidden@)),
    {
        let mut z = self.output_bias;
        let mut i: usize = 0;
        while i < HIDDEN_SIZE
            invariant
                0 <= i <= HIDDEN_SIZE,
                z.0 == dot(self.output_bias.0, self.output_weights@, hidden@, i as nat),
            decreases HIDDEN_SIZE - i,
        {
            z = z.saturating_add(self.output_weights[i].wrapping_mul(hidden[i]));
            i = i + 1;
        }
        sigmoid(z)
    }

    /// The hidden activations on `inputs`.
    pub open spec fn hidden_spec(&self, inputs: Seq<Fixed>) -> Seq<Fixed> {
        Seq::new(HIDDEN_SIZE as nat, |i: int| Fixed(relu_bits(self.hidden_sum(inputs, i))))
    }

    /// The network's output on `inputs`, raw bits.
    pub open spec fn predict_spec(&self, inputs: Seq<Fixed>) -> i32 {
        sigmoid_bits(self.output_sum(self.hidden_spec(inputs)))
    }

    /// The predicted priority of a task whose normalised metrics are
    /// `inputs`; always within [0, 1].
    pub fn predict_fixed(&self, inputs: &[Fixed; INPUT_SIZE]) -> (r: Fixed)
        ensures
            r.0 == self.predict_spec(inputs@),
            0 <= r.0 <= ONE_BITS,
    {
        let hidden = self.forward_hidden(inputs);
        assert(hidden@ =~= self.hidden_spec(inputs@));
        proof {
            crate::fixed::law_sigmoid_bounded(self.output_sum(hidden@));
        }
        self.forward_output(&hidden)
    }

    /// The network after one SGD step towards `target` on `inputs` (see
    /// `learn_fixed`).
    pub open spec fn learnt(&self, n: NeuralScheduler, inputs: Seq<Fixed>, target: i32) -> bool {
        let hidden = self.hidden_spec(inputs);
        let out = self.predict_spec(inputs);
        let err = clamp_i32(target - out);
        let delta = mul_bits(err, sigmoid_derivative_bits(out));
        let m = self.momentum.0;
        let lr = self.learning_rate.0;
        if sat_abs(err) < TOLERANCE_BITS {
            n == *self
        } else {
            &&& n.learning_rate == self.learning_rate
            &&& n.momentum == self.momentum
            &&& forall|i: int|
                0 <= i < HIDDEN_SIZE ==> (#[trigger] n.output_velocity[i]).0 == clamp_i32(
                    mul_bits(m, self.output_velocity[i].0) + mul_bits(lr, mul_bits(delta, hidden[i].0)),
                )
            &&& forall|i: int|
                0 <= i < HIDDEN_SIZE ==> (#[trigger] n.output_weights[i]).0 == clamp_i32(
                    self.output_weights[i].0 + n.output_velocity[i].0,
                )
            &&& n.output_bias.0 == clamp_i32(self.output_bias.0 + mul_bits(lr, delta))
            &&& forall|i: int, j: int|
                0 <= i < HIDDEN_SIZE && 0 <= j < INPUT_SIZE ==> (#[trigger] n.hidden_velocity[i][j]).0
                    == clamp_i32(
                    mul_bits(m, self.hidden_velocity[i][j].0) + mul_bits(
                        lr,
                        mul_bits(self.hidden_delta(n, hidden, delta, i), inputs[j].0),
                    ),
                )
            &&& forall|i: int, j: int|
                0 <= i < HIDDEN_SIZE && 0 <= j < INPUT_SIZE ==> (#[trigger] n.hidden_weights[i][j]).0
                    == clamp_i32(self.hidden_weights[i][j].0 + n.hidden_velocity[i][j].0)
            &&& forall|i: int|
                0 <= i < HIDDEN_SIZE ==> (#[trigger] n.hidden_bias[i]).0 == clamp_i32(
                    self.hidden_bias[i].0 + mul_bits(lr, self.hidden_delta(n, hidden, delta, i)),
                )
        }
    }

    /// The error signal of hidden unit `i`, propagated back through the
    /// already updated output weight of `n`.
    pub open spec fn hidden_delta(
        &self,
        n: NeuralScheduler,
        hidden: Seq<Fixed>,
        delta: i32,
        i: int,
    ) -> i32 {
        mul_bits(mul_bits(delta, n.output_weights[i].0), relu_derivative_bits(hidden[i].0))
    }

    /// One step of momentum SGD on the squared error between the output on
    /// `inputs` and `target`. Nothing changes when the error is already
    /// below 0.001. The output layer is updated first; the hidden layer then
    /// back-propagates through the updated output weights.
    pub fn learn_fixed(&mut self, inputs: &[Fixed; INPUT_SIZE], target: Fixed)
        ensures
            old(self).learnt(*final(self), inputs@, target.0),
    {
        let hidden = self.forward_hidden(inputs);
        assert(hidden@ =~= self.hidden_spec(inputs@));
        let output = self.forward_output(&hidden);
        let output_error = target.saturating_sub(output);
        if output_error.abs().0 < TOLERANCE_BITS {
            return ;
        }
        let output_delta = output_error.wrapping_mul(sigmoid_derivative_from_output(output));
        let ghost s0 = *self;
        let mut i: usize = 0;
        while i < HIDDEN_SIZE
            invariant
                0 <= i <= HIDDEN_SIZE,
                self.learning_rate == s0.learning_rate,
                self.momentum == s0.momentum,
                self.output_bias == s0.output_bias,
                self.hidden_weights == s0.hidden_weights,
                self.hidden_velocity == s0.hidden_velocity,
                self.hidden_bias == s0.hidden_bias,
                forall|a: int|
                    0 <= a < i ==> (#[trigger] self.output_velocity[a]).0 == clamp_i32(
                        mul_bits(s0.momentum.0, s0.output_velocity[a].0) + mul_bits(
                            s0.learning_rate.0,
                            mul_bits(output_delta.0, hidden[a].0),
                        ),
                    ) && self.output_weights[a].0 == clamp_i32(
                        s0.output_weights[a].0 + self.output_velocity[a].0,
                    ),
                forall|a: int|
                    i <= a < HIDDEN_SIZE ==> (#[trigger] self.output_velocity[a]) == s0.output_velocity[a],
                forall|a: int|
                    i <= a < HIDDEN_SIZE ==> (#[trigger] self.output_weights[a]) == s0.output_weights[a],
            decreases HIDDEN_SIZE - i,
        {
            let grad = output_delta.wrapping_mul(hidden[i]);
            let v = self.momentum.wrapping_mul(self.output_velocity[i]).saturating_add(
                self.learning_rate.wrapping_mul(grad),
            );
            self.output_velocity[i] = v;
            self.output_weights[i] = self.output_weights[i].saturating_add(v);
            i = i + 1;
        }
        self.output_bias = self.output_bias.saturating_add(self.learning_rate.wrapping_mul(output_delta));
        let ghost s1 = *self;
        let mut i: usize = 0;
        while i < HIDDEN_SIZE
            invariant
                0 <= i <= HIDDEN_SIZE,
                self.learning_rate == s0.learning_rate,
                self.momentum == s0.momentum,
                self.output_bias == s1.output_bias,
                self.output_weights == s1.output_weights,
                self.output_velocity == s1.output_velocity,
                forall|a: int, b: int|
                    0 <= a < i && 0 <= b < INPUT_SIZE ==> (#[trigger] self.hidden_velocity[a][b]).0
                        == clamp_i32(
                        mul_bits(s0.momentum.0, s0.hidden_velocity[a][b].0) + mul_bits(
                            s0.learning_rate.0,
                            mul_bits(s0.hidden_delta(s1, hidden@, output_delta.0, a), inputs[b].0),
                        ),
                    ) && self.hidden_weights[a][b].0 == clamp_i32(
                        s0.hidden_weights[a][b].0 + self.hidden_velocity[a][b].0,
                    ),
                forall|a: int|
                    0 <= a < i ==> (#[trigger] self.hidden_bias[a]).0 == clamp_i32(
                        s0.hidden_bias[a].0 + mul_bits(
                            s0.learning_rate.0,
                            s0.hidden_delta(s1, hidden@, output_delta.0, a),
                        ),
                    ),
                forall|a: int|
                    i <= a < HIDDEN_SIZE ==> (#[trigger] self.hidden_velocity[a]) == s0.hidden_velocity[a],
                forall|a: int|
                    i <= a < HIDDEN_SIZE ==> (#[trigger] self.hidden_weights[a]) == s0.hidden_weights[a],
                forall|a: int|
                    i <= a < HIDDEN_SIZE ==> (#[trigger] self.hidden_bias[a]) == s0.hidden_bias[a],
            decreases HIDDEN_SIZE - i,
        {
            let hidden_delta = output_delta.wrapping_mul(self.output_weights[i]).wrapping_mul(
                Self::relu_derivative(hidden[i]),
            );
            let mut vrow = self.hidden_velocity[i];
            let mut wrow = self.hidden_weights[i];
            let mut j: usize = 0;
            while j < INPUT_SIZE
                invariant
                    0 <= i < HIDDEN_SIZE,
                    0 <= j <= INPUT_SIZE,
                    self.learning_rate == s0.learning_rate,
                    self.momentum == s0.momentum,
                    hidden_delta.0 == s0.hidden_delta(s1, hidden@, output_delta.0, i as int),
                    forall|b: int|
                        0 <= b < j ==> (#[trigger] vrow[b]).0 == clamp_i32(
                            mul_bits(s0.momentum.0, s0.hidden_velocity[i as int][b].0) + mul_bits(
                                s0.learning_rate.0,
                                mul_bits(hidden_delta.0, inputs[b].0),
                            ),
                        ) && wrow[b].0 == clamp_i32(s0.hidden_weights[i as int][b].0 + vrow[b].0),
                    forall|b: int|
                        j <= b < INPUT_SIZE ==> (#[trigger] vrow[b]) == s0.hidden_velocity[i as int][b],
                    forall|b: int|
                        j <= b < INPUT_SIZE ==> (#[trigger] wrow[b]) == s0.hidden_weights[i as int][b],
                decreases INPUT_SIZE - j,
            {
                let grad = hidden_delta.wrapping_mul(inputs[j]);
                let v = self.momentum.wrapping_mul(vrow[j]).saturating_add(
                    self.learning_rate.wrapping_mul(grad),
                );
                vrow[j] = v;
                wrow[j] = wrow[j].saturating_add(v);
                j = j + 1;
            }
            self.hidden_velocity[i] = vrow;
            self.hidden_weights[i] = wrow;
            self.hidden_bias[i] = self.hidden_bias[i].saturating_add(
                self.learning_rate.wrapping_mul(hidden_delta),
            );
            i = i + 1;
        }
        assert(s1.output_weights == self.output_weights);
    }

    /// Resets the network to its initial weights.
    pub fn reset(&mut self)
        ensures
            final(self).is_initial(),
    {
        *self = Self::new();
    }
}

/// A hidden unit's pre-activation on all-zero inputs is its bias.
proof fn lemma_dot_zero_inputs(b: i32, w: Seq<Fixed>, x: Seq<Fixed>, n: nat)
    requires
        n <= x.len(),
        forall|j: int| 0 <= j < x.len() ==> (#[trigger] x[j]).0 == 0,
    ensures
        dot(b, w, x, n) == b,
    decreases n,
{
    if n > 0 {
        lemma_dot_zero_inputs(b, w, x, (n - 1) as nat);
        assert(x[n - 1].0 == 0);
        assert(w[n - 1].0 as int * 0 == 0);
    }
}

/// The forward pass starts every hidden unit from its bias: on all-zero
/// inputs, hidden unit `i` receives exactly `hidden_bias[i]` and outputs
/// the leaky ReLU of it (the bias itself when the bias is positive).
pub proof fn law_hidden_unit_on_zero_inputs(n: NeuralScheduler, x: Seq<Fixed>, i: int)
    requires
        x.len() == INPUT_SIZE,
        forall|j: int| 0 <= j < INPUT_SIZE ==> (#[trigger] x[j]).0 == 0,
        0 <= i < HIDDEN_SIZE,
    ensures
        n.hidden_sum(x, i) == n.hidden_bias[i].0,
        n.hidden_bias[i].0 > 0 ==> n.hidden_spec(x)[i].0 == n.hidden_bias[i].0,
{
    lemma_dot_zero_inputs(n.hidden_bias[i].0, n.hidden_weights[i]@, x, INPUT_SIZE as nat);
}

/// On inputs that are zero but for 1.0 at position `j`, the running sum
/// over the first `n` terms is the bias, plus weight `j` once term `j` is in.
proof fn lemma_dot_unit_input(b: i32, w: Seq<Fixed>, x: Seq<Fixed>, j: int, n: nat)
    requires
        n <= x.len(),
        0 <= j < x.len(),
        x[j].0 == ONE_BITS,
        forall|k: int| 0 <= k < x.len() && k != j ==> (#[trigger] x[k]).0 == 0,
    ensures
        dot(b, w, x, n) == if n > j {
            clamp_i32(b + w[j].0)
        } else {
            b
        },
    decreases n,
{
    if n > 0 {
        lemma_dot_unit_input(b, w, x, j, (n - 1) as nat);
        if n - 1 == j {
            assert(w[j].0 as int * 65536 / 65536 == w[j].0) by (nonlinear_arith);
        } else {
            assert(w[n - 1].0 as int * 0 == 0);
        }
    }
}

/// Every input reaches every hidden unit through its own weight: on inputs
/// that are all zero but for 1.0 at position `j`, hidden unit `i` receives
/// `hidden_bias[i] + hidden_weights[i][j]` (saturating).
pub proof fn law_hidden_unit_on_unit_input(n: NeuralScheduler, x: Seq<Fixed>, i: int, j: int)
    requires
        x.len() == INPUT_SIZE,
        0 <= j < INPUT_SIZE,
        x[j].0 == ONE_BITS,
        forall|k: int| 0 <= k < INPUT_SIZE && k != j ==> (#[trigger] x[k]).0 == 0,
        0 <= i < HIDDEN_SIZE,
    ensures
        n.hidden_sum(x, i) == clamp_i32(n.hidden_bias[i].0 + n.hidden_weights[i][j].0),
{
    lemma_dot_unit_input(n.hidden_bias[i].0, n.hidden_weights[i]@, x, j, INPUT_SIZE as nat);
}

/// Every hidden unit reaches the output through its own weight, and the
/// output starts from its bias: on hidden activations that are all zero the
/// output's pre-activation is `output_bias`, and with 1.0 at unit `i` alone
/// it is `output_bias + output_weights[i]` (saturating).
pub proof fn law_output_sum_on_unit_hidden(n: NeuralScheduler, h: Seq<Fixed>, i: int)
    requires
        h.len() == HIDDEN_SIZE,
        0 <= i < HIDDEN_SIZE,
    ensures
        (forall|k: int| 0 <= k < HIDDEN_SIZE ==> (#[trigger] h[k]).0 == 0) ==> n.output_sum(h)
            == n.output_bias.0,
        (h[i].0 == ONE_BITS && forall|k: int|
            0 <= k < HIDDEN_SIZE && k != i ==> (#[trigger] h[k]).0 == 0) ==> n.output_sum(h)
            == clamp_i32(n.output_bias.0 + n.output_weights[i].0),
{
    if forall|k: int| 0 <= k < HIDDEN_SIZE ==> (#[trigger] h[k]).0 == 0 {
        lemma_dot_zero_inputs(n.output_bias.0, n.output_weights@, h, HIDDEN_SIZE as nat);
    }
    if h[i].0 == ONE_BITS && forall|k: int|
        0 <= k < HIDDEN_SIZE && k != i ==> (#[trigger] h[k]).0 == 0 {
        lemma_dot_unit_input(n.output_bias.0, n.output_weights@, h, i, HIDDEN_SIZE as nat);
    }
}

/// The hidden activation is a leaky ReLU of the pre-activation `s`: `s`
/// itself when positive, 0 at 0, and a negative value no lower than `s` when
/// `s` is negative (the leak keeps some signal below zero).
pub proof fn law_hidden_activation_is_leaky_relu(n: NeuralScheduler, x: Seq<Fixed>, i: int)
    requires
        0 <= i < HIDDEN_SIZE,
    ensures
        ({
            let s = n.hidden_sum(x, i);
            let h = n.hidden_spec(x)[i].0;
            &&& s > 0 ==> h == s
            &&& s == 0 ==> h == 0
            &&& s < 0 ==> s <= h < 0
        }),
{
    let s = n.hidden_sum(x, i);
    if s <= 0 {
        assert(s < 0 ==> s as int * 655 / 65536 < 0) by (nonlinear_arith)
            requires
                s <= 0,
        ;
        assert(s as int * 655 / 65536 >= s) by (nonlinear_arith)
            requires
                s <= 0,
        ;
    }
}

/// Every value the weight generator draws lies in [-1, 1).
proof fn lemma_unit_bits_range(s: u32)
    ensures
        -65536 <= unit_bits(s) < 65536,
{
    assert(s >> 9u32 < 8388608u32) by (bit_vector);
    let d = (s >> 9u32) as int - 4194304;
    assert(-4194304 <= d < 4194304);
    if d >= 0 {
        assert(d / 64 < 65536);
    } else {
        assert((-d) / 64 <= 65536);
    }
}

/// A sum of `n` products each within [lo, hi] (no saturation on the way).
proof fn lemma_dot_bounds(w: Seq<Fixed>, x: Seq<Fixed>, n: nat, lo: int, hi: int)
    requires
        0 <= lo <= hi,
        n <= 8,
        hi * 8 < i32::MAX,
        forall|k: int| 0 <= k < n ==> lo <= #[trigger] mul_bits(w[k].0, x[k].0) <= hi,
    ensures
        lo * n <= dot(0, w, x, n) <= hi * n,
    decreases n,
{
    if n > 0 {
        lemma_dot_bounds(w, x, (n - 1) as nat, lo, hi);
        assert(mul_bits(w[n - 1].0, x[n - 1].0) >= lo);
        assert(lo * (n - 1) + lo == lo * n) by (nonlinear_arith);
        assert(hi * (n - 1) + hi == hi * n) by (nonlinear_arith);
        assert(hi * n <= hi * 8) by (nonlinear_arith)
            requires
                n <= 8,
                hi >= 0,
        ;
    }
}

/// An initial output weight, 0.3 + 0.1 * draw, lies in [0.2, 0.4], so its
/// product with a hidden output of 0.1 lies in [1310, 2620] raw units.
proof fn lemma_init_output_term(i: int)
    requires
        0 <= i < HIDDEN_SIZE,
    ensures
        1310 <= mul_bits(init_output_weight(i), INIT_BIAS_BITS) <= 2620,
{
    let d = draw((i * 8 + 7) as nat);
    lemma_unit_bits_range(lcg_state((i * 8 + 7 + 1) as nat));
    assert(-6553 <= (6553 * d) / 65536 <= 6552) by (nonlinear_arith)
        requires
            -65536 <= d < 65536,
    ;
    let w = init_output_weight(i);
    assert(13107 <= w <= 26212);
    assert(1310 <= (w as int * 6553) / 65536 <= 2620) by (nonlinear_arith)
        requires
            13107 <= w <= 26212,
    ;
}

proof fn lemma_sigmoid_above_half(z: i32)
    requires
        z >= 4,
    ensures
        sigmoid_bits(z) > HALF_BITS,
{
    crate::fixed::law_sigmoid_monotone(4, z);
    assert(262144int / 65540int == 3) by (nonlinear_arith);
    assert(98304int / 65536int == 1) by (nonlinear_arith);
    assert(sigmoid_bits(4) == 32769);
}

/// A fresh network leans towards running a task it knows nothing about: on
/// all-zero metrics every hidden unit outputs its bias 0.1, the output
/// weights are positive (0.2 to 0.4), so the priority is strictly above 0.5.
pub proof fn law_fresh_network_predicts_above_half(n: NeuralScheduler, x: Seq<Fixed>)
    requires
        n.is_initial(),
        x.len() == INPUT_SIZE,
        forall|j: int| 0 <= j < INPUT_SIZE ==> (#[trigger] x[j]).0 == 0,
    ensures
        n.predict_spec(x) > HALF_BITS,
{
    let h = n.hidden_spec(x);
    assert forall|i: int|
        0 <= i < HIDDEN_SIZE implies 1310 <= #[trigger] mul_bits(
        n.output_weights@[i].0,
        h[i].0,
    ) <= 2620 by {
        law_hidden_unit_on_zero_inputs(n, x, i);
        lemma_init_output_term(i);
        assert(n.output_weights@[i].0 == init_output_weight(i));
    }
    lemma_dot_bounds(n.output_weights@, h, HIDDEN_SIZE as nat, 1310, 2620);
    lemma_sigmoid_above_half(n.output_sum(h));
}

/// What one learning step does, stated against the forward pass on
/// `inputs` (hidden activations `h`, output `out`): when the error
/// `target - out` is below the tolerance nothing changes; otherwise, with
/// `delta = (target - out) * out * (1 - out)`, output weight `i` moves by its
/// new velocity `momentum * v + rate * delta * h[i]`, the output bias by
/// `rate * delta`, and every hidden weight `(i, j)` by its new velocity
/// `momentum * v + rate * hd * inputs[j]`, where
/// `hd = delta * w_out'[i] * relu'(h[i])` is the error carried back through
/// the updated output weight `w_out'[i]`; hidden bias `i` moves by
/// `rate * hd`. All products are Q16.16, all sums saturate.
pub proof fn law_learning_step(
    a: NeuralScheduler,
    b: NeuralScheduler,
    inputs: Seq<Fixed>,
    target: i32,
    i: int,
    j: int,
)
    requires
        inputs.len() == INPUT_SIZE,
        a.learnt(b, inputs, target),
        0 <= i < HIDDEN_SIZE,
        0 <= j < INPUT_SIZE,
    ensures
        ({
            let h = a.hidden_spec(inputs);
            let out = a.predict_spec(inputs);
            let err = clamp_i32(target - out);
            let delta = mul_bits(err, mul_bits(out, clamp_i32(ONE_BITS - out)));
            let lr = a.learning_rate.0;
            let m = a.momentum.0;
            let slope = if h[i].0 > 0 { ONE_BITS } else { LEAK_BITS };
            let hd = mul_bits(mul_bits(delta, b.output_weights[i].0), slope);
            if sat_abs(err) < TOLERANCE_BITS {
                b == a
            } else {
                &&& b.output_velocity[i].0 == clamp_i32(
                    mul_bits(m, a.output_velocity[i].0) + mul_bits(lr, mul_bits(delta, h[i].0)),
                )
                &&& b.output_weights[i].0 == clamp_i32(a.output_weights[i].0 + b.output_velocity[i].0)
                &&& b.output_bias.0 == clamp_i32(a.output_bias.0 + mul_bits(lr, delta))
                &&& b.hidden_velocity[i][j].0 == clamp_i32(
                    mul_bits(m, a.hidden_velocity[i][j].0) + mul_bits(lr, mul_bits(hd, inputs[j].0)),
                )
                &&& b.hidden_weights[i][j].0 == clamp_i32(
                    a.hidden_weights[i][j].0 + b.hidden_velocity[i][j].0,
                )
                &&& b.hidden_bias[i].0 == clamp_i32(a.hidden_bias[i].0 + mul_bits(lr, hd))
                &&& b.learning_rate == a.learning_rate
                &&& b.momentum == a.momentum
            }
        }),
{
}

/// The error reaches the hidden layer: in a step whose error is at least the
/// tolerance, a hidden weight that was at rest (zero velocity) moves by
/// exactly its gradient step `rate * hd * inputs[j]` (see
/// `law_learning_step`), so it changes whenever that step is non-zero and
/// does not saturate.
pub proof fn law_hidden_weight_moves(
    a: NeuralScheduler,
    b: NeuralScheduler,
    inputs: Seq<Fixed>,
    target: i32,
    i: int,
    j: int,
)
    requires
        inputs.len() == INPUT_SIZE,
        a.learnt(b, inputs, target),
        0 <= i < HIDDEN_SIZE,
        0 <= j < INPUT_SIZE,
        sat_abs(clamp_i32(target - a.predict_spec(inputs))) >= TOLERANCE_BITS,
        a.hidden_velocity[i][j].0 == 0,
    ensures
        ({
            let h = a.hidden_spec(inputs);
            let out = a.predict_spec(inputs);
            let delta = mul_bits(
                clamp_i32(target - out),
                mul_bits(out, clamp_i32(ONE_BITS - out)),
            );
            let slope = if h[i].0 > 0 { ONE_BITS } else { LEAK_BITS };
            let hd = mul_bits(mul_bits(delta, b.output_weights[i].0), slope);
            let g = mul_bits(a.learning_rate.0, mul_bits(hd, inputs[j].0));
            &&& b.hidden_velocity[i][j].0 == g
            &&& (i32::MIN <= a.hidden_weights[i][j].0 + g <= i32::MAX ==> b.hidden_weights[i][j].0
                == a.hidden_weights[i][j].0 + g)
            &&& (g != 0 && i32::MIN <= a.hidden_weights[i][j].0 + g <= i32::MAX
                ==> b.hidden_weights[i][j].0 != a.hidden_weights[i][j].0)
        }),
{
    law_learning_step(a, b, inputs, target, i, j);
    assert(a.momentum.0 as int * 0 == 0);
}

} // verus!
