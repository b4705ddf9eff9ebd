//! Motor-driven color oscillation: a per-entity frequency drives a
//! sinusoidal hue, and clicking a motor button attaches or removes the
//! effect on the selected cells.
//!
//! Frequencies are in thousandths of a hertz, angles in microradians, and
//! the sine value is handed in as thousandths of its real value, so the
//! whole hue computation is exact integer arithmetic.

use vstd::prelude::*;
use crate::abs_of;
use vstd::arithmetic::div_mod::{
    lemma_add_mod_noop,
    lemma_div_is_ordered,
    lemma_fundamental_div_mod,
    lemma_mod_bound,
    lemma_small_mod,
};

verus! {

/// A full turn, two pi, in microradians.
pub const TWO_PI_MICRO: u64 = 6_283_185;

/// The oscillating-color effect attached to an entity.
#[derive(Clone, Copy, PartialEq, Eq, Structural, Debug)]
pub struct Motor {
    /// Oscillation frequency in thousandths of a hertz.
    pub freq: u32,
}

/// A clickable button that attaches its frequency to the selected cells.
#[derive(Clone, Copy, PartialEq, Eq, Structural, Debug)]
pub struct MotorButton {
    pub freq: u32,
}

/// An HSL color with an alpha channel, all components in thousandths
/// except the hue, which is in degrees.
#[derive(Clone, Copy, PartialEq, Eq, Structural, Debug)]
pub struct Hsla {
    pub hue: u32,
    pub saturation: u32,
    pub lightness: u32,
    pub alpha: u32,
}

/// The motor hue formula: the absolute sine value scaled to degrees,
/// wrapped into a circle. `sin_milli` is the sine of `time * freq` in
/// thousandths.
pub open spec fn hue_of_sin(sin_milli: int) -> int {
    (abs_of(sin_milli) * 360 / 1000) % 360
}

/// Whatever value the sine takes, the hue lies in `[0, 360)`.
pub proof fn lemma_hue_in_range(sin_milli: int)
    ensures
        0 <= hue_of_sin(sin_milli) < 360,
{
    lemma_mod_bound(abs_of(sin_milli) * 360 / 1000, 360);
}

/// Computes the motor hue in degrees from the sine of `time * freq`,
/// given in thousandths. The result always lies in `[0, 360)`.
pub fn motor_hue(sin_milli: i64) -> (r: u32)
    requires
        -1000 <= sin_milli <= 1000,
    ensures
        r == hue_of_sin(sin_milli as int),
        r < 360,
{
    let mag: u64 = if sin_milli >= 0 {
        sin_milli as u64
    } else {
        (-sin_milli) as u64
    };
    let scaled = mag * 360 / 1000;
    proof {
        lemma_div_is_ordered(mag as int * 360, 1000int * 360, 1000);
        if scaled < 360 {
            lemma_small_mod(scaled as nat, 360nat);
        } else {
            assert(scaled == 360);
            vstd::arithmetic::div_mod::lemma_mod_self_0(360);
        }
    }
    if scaled >= 360 {
        0
    } else {
        scaled as u32
    }
}

/// The saturation and lightness every motor color uses, in thousandths.
pub const MOTOR_SATURATION: u32 = 800;
pub const MOTOR_LIGHTNESS: u32 = 600;

/// The color a motor paints its entity with: the sine-driven hue at fixed
/// saturation and lightness.
pub fn motor_color(sin_milli: i64) -> (r: Hsla)
    requires
        -1000 <= sin_milli <= 1000,
    ensures
        r.hue == hue_of_sin(sin_milli as int),
        r.hue < 360,
        r.saturation == MOTOR_SATURATION,
        r.lightness == MOTOR_LIGHTNESS,
        r.alpha == 1000,
{
    let hue = motor_hue(sin_milli);
    Hsla { hue, saturation: MOTOR_SATURATION, lightness: MOTOR_LIGHTNESS, alpha: 1000 }
}

/// The phase a motor has reached at `time`: the product of time and
/// frequency, wrapped around a full turn. The hue depends on the time
/// only through this phase.
pub open spec fn motor_phase(time: int, freq: int) -> int {
    (time * freq) % (TWO_PI_MICRO as int)
}

/// Computes the wrapped motor phase.
pub fn motor_phase_at(time_micro: u64, freq_milli: u32) -> (r: u64)
    ensures
        r == motor_phase(time_micro as int, freq_milli as int),
        r < TWO_PI_MICRO,
{
    proof {
        assert(0 <= (time_micro as int) * (freq_milli as int) <= 0xFFFF_FFFF_FFFF_FFFFint
            * 0xFFFF_FFFFint) by (nonlinear_arith)
            requires
                0 <= time_micro <= 0xFFFF_FFFF_FFFF_FFFFint,
                0 <= freq_milli <= 0xFFFF_FFFFint,
        ;
        lemma_mod_bound((time_micro as int) * (freq_milli as int), TWO_PI_MICRO as int);
    }
    ((time_micro as u128) * (freq_milli as u128) % (TWO_PI_MICRO as u128)) as u64
}

/// The motor phase, and with it the hue, is periodic: any span `p` whose
/// product with the frequency is a whole number of turns brings the phase
/// back to where it was. In particular, when the frequency divides a full
/// turn, `p` can be the full turn over the frequency: the period
/// two-pi over freq.
pub proof fn lemma_motor_phase_periodic(time: int, freq: int, p: int)
    requires
        (p * freq) % (TWO_PI_MICRO as int) == 0,
    ensures
        motor_phase(time + p, freq) == motor_phase(time, freq),
{
    let m = TWO_PI_MICRO as int;
    assert((time + p) * freq == time * freq + p * freq) by (nonlinear_arith);
    lemma_add_mod_noop(time * freq, p * freq, m);
    lemma_mod_bound(time * freq, m);
    lemma_small_mod(((time * freq) % m) as nat, m as nat);
}

/// The concrete period: when the frequency divides a full turn exactly,
/// waiting two-pi over freq leaves the phase unchanged.
pub proof fn lemma_motor_period(time: int, freq: int)
    requires
        0 < freq,
        (TWO_PI_MICRO as int) % freq == 0,
    ensures
        motor_phase(time + (TWO_PI_MICRO as int) / freq, freq) == motor_phase(time, freq),
{
    let m = TWO_PI_MICRO as int;
    let p = m / freq;
    lemma_fundamental_div_mod(m, freq);
    assert(p * freq == m) by (nonlinear_arith)
        requires
            m == freq * (m / freq),
            p == m / freq,
    ;
    assert(m % m == 0) by {
        vstd::arithmetic::div_mod::lemma_mod_self_0(m);
    }
    lemma_motor_phase_periodic(time, freq, p);
}

/// One cell that may carry a motor.
#[derive(Clone, Copy, PartialEq, Eq, Structural, Debug)]
pub struct CellMotor {
    pub id: u64,
    pub motor: Option<Motor>,
}

/// What clicking a motor button does to the selected cells: a cell that
/// already runs a motor loses it, a cell without one starts running a
/// motor at the button's frequency.
pub fn click_on_motor(selected: &mut Vec<CellMotor>, button: MotorButton)
    ensures
        final(selected)@.len() == old(selected)@.len(),
        forall|i: int|
            0 <= i < old(selected)@.len() ==> #[trigger] final(selected)@[i] == (CellMotor {
                id: old(selected)@[i].id,
                motor: if old(selected)@[i].motor is Some {
                    None
                } else {
                    Some(Motor { freq: button.freq })
                },
            }),
{
    let ghost orig = selected@;
    let n = selected.len();
    let mut out: Vec<CellMotor> = Vec::new();
    let mut i: usize = 0;
    while i < n
        invariant
            n == orig.len(),
            selected@ == orig,
            i <= n,
            out@.len() == i,
            forall|j: int|
                0 <= j < i ==> #[trigger] out@[j] == (CellMotor {
                    id: orig[j].id,
                    motor: if orig[j].motor is Some {
                        None
                    } else {
                        Some(Motor { freq: button.freq })
                    },
                }),
        decreases n - i,
    {
        let c = selected[i];
        let motor = match c.motor {
            Some(_) => None,
            None => Some(Motor { freq: button.freq }),
        };
        out.push(CellMotor { id: c.id, motor });
        i += 1;
    }
    *selected = out;
}

/// The frequencies and base colors of the motor buttons the demo spawns:
/// a slow red, a medium green and a fast blue motor.
pub fn motor_button_configs() -> (r: Vec<(MotorButton, Hsla)>)
    ensures
        r@.len() == 3,
        r@[0].0.freq == 50 && r@[0].1.hue == 20,
        r@[1].0.freq == 150 && r@[1].1.hue == 120,
        r@[2].0.freq == 300 && r@[2].1.hue == 240,
        forall|i: int|
            0 <= i < 3 ==> (#[trigger] r@[i].1).saturation == 600 && r@[i].1.lightness == 200
                && r@[i].1.alpha == 1000,
{
    let mut r: Vec<(MotorButton, Hsla)> = Vec::new();
    r.push(
        (MotorButton { freq: 50 }, Hsla { hue: 20, saturation: 600, lightness: 200, alpha: 1000 }),
    );
    r.push(
        (
            MotorButton { freq: 150 },
            Hsla { hue: 120, saturation: 600, lightness: 200, alpha: 1000 },
        ),
    );
    r.push(
        (
            MotorButton { freq: 300 },
            Hsla { hue: 240, saturation: 600, lightness: 200, alpha: 1000 },
        ),
    );
    r
}

/// Where the motor buttons stand: a fixed margin from the left window
/// edge, spaced 120 pixels apart, all in thousandths of a pixel.
pub fn motor_button_position(window_w: u64, index: usize) -> (r: i64)
    requires
        window_w <= 4_000_000_000_000,
        index <= 1000,
    ensures
        r == -((window_w as int) / 2) + 100_000 + (index as int) * 120_000,
{
    let start_x: i64 = -((window_w / 2) as i64) + 100_000;
    start_x + (index as i64) * 120_000
}

} // verus!
