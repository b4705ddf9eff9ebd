//! The numeric uniform values fed to the fragment shaders each frame:
//! elapsed time, cursor position normalized into the quad, click state,
//! and the short-lived "liquid circles" the animated shader draws.
//!
//! Times are in milliseconds; normalized coordinates are thousandths.

use vstd::prelude::*;
use crate::Vec2Fx;
use crate::flock::scaled_ratio;

verus! {

/// A four-component uniform block, the integer model of one shader `vec4`.
#[derive(Clone, Copy, PartialEq, Eq, Structural, Debug)]
pub struct UniformVec4 {
    pub x: i64,
    pub y: i64,
    pub z: i64,
    pub w: i64,
}

/// At most this many liquid circles are kept.
pub const MAX_CIRCLES: usize = 1;

/// How long a liquid circle lives, in milliseconds.
pub const CIRCLE_TTL: u64 = 10_000;

/// One liquid circle: a normalized position, its birth time, and its
/// largest radius, all in thousandths.
#[derive(Clone, Copy, PartialEq, Eq, Structural, Debug)]
pub struct LiquidCircle {
    pub position_x: i64,
    pub position_y: i64,
    pub creation_time: u64,
    pub max_radius: u32,
}

/// The animated shader auto-spawns a circle in the first sixteen
/// milliseconds of every two-second window.
pub fn should_auto_add(time_ms: u64) -> (r: bool)
    ensures
        r == (time_ms % 2000 < 16),
{
    time_ms % 2000 < 16
}

/// Appends a circle and drops the oldest one when the cap is exceeded.
pub fn add_circle(circles: &mut Vec<LiquidCircle>, c: LiquidCircle)
    ensures
        final(circles)@ == if old(circles)@.len() < MAX_CIRCLES {
            old(circles)@.push(c)
        } else {
            old(circles)@.push(c).subrange(1, old(circles)@.len() as int + 1)
        },
{
    circles.push(c);
    if circles.len() > MAX_CIRCLES {
        circles.remove(0);
        proof {
            assert(circles@ =~= old(circles)@.push(c).subrange(1, old(circles)@.len() as int + 1));
        }
    }
}

/// The predicate that keeps a circle younger than its lifetime at `now`.
pub open spec fn fresh_at(now: u64) -> spec_fn(LiquidCircle) -> bool {
    |c: LiquidCircle| c.creation_time + CIRCLE_TTL > now
}

/// Drops every circle that has outlived its lifetime.
pub fn update_liquid_circles(circles: &mut Vec<LiquidCircle>, now_ms: u64)
    ensures
        final(circles)@ == old(circles)@.filter(fresh_at(now_ms)),
{
    let ghost orig = circles@;
    let n = circles.len();
    let mut out: Vec<LiquidCircle> = Vec::new();
    let mut i: usize = 0;
    proof {
        reveal(Seq::filter);
        assert(orig.take(0) =~= Seq::<LiquidCircle>::empty());
    }
    while i < n
        invariant
            n == orig.len(),
            circles@ == orig,
            i <= n,
            out@ == orig.take(i as int).filter(fresh_at(now_ms)),
        decreases n - i,
    {
        let c = circles[i];
        proof {
            reveal(Seq::filter);
            let t1 = orig.take(i as int + 1);
            assert(t1.drop_last() =~= orig.take(i as int));
            assert(t1.last() == orig[i as int]);
        }
        let keep = match c.creation_time.checked_add(CIRCLE_TTL) {
            Some(deadline) => deadline > now_ms,
            None => true,
        };
        if keep {
            out.push(c);
        }
        i += 1;
    }
    proof {
        assert(orig.take(orig.len() as int) =~= orig);
    }
    *circles = out;
}

/// The animated shader's uniform for one frame: elapsed time, and the most
/// recent circle's position and radius, or zeroes when no circle is alive.
pub fn update_shader_uniforms(time_ms: u64, circles: &Vec<LiquidCircle>) -> (r: UniformVec4)
    requires
        time_ms <= i64::MAX,
    ensures
        r.x == time_ms,
        circles@.len() > 0 ==> {
            &&& r.y == circles@.last().position_x
            &&& r.z == circles@.last().position_y
            &&& r.w == circles@.last().max_radius
        },
        circles@.len() == 0 ==> r.y == 0 && r.z == 0 && r.w == 0,
{
    if circles.len() > 0 {
        let latest = circles[circles.len() - 1];
        UniformVec4 {
            x: time_ms as i64,
            y: latest.position_x,
            z: latest.position_y,
            w: latest.max_radius as i64,
        }
    } else {
        UniformVec4 { x: time_ms as i64, y: 0, z: 0, w: 0 }
    }
}

/// A cursor coordinate normalized against a window size, in thousandths.
pub open spec fn normalized(v: int, size: int) -> int {
    v * 1000 / size
}

/// The drawing shader's two uniform blocks for one frame: time, whether
/// the button is down (one or zero), the cursor normalized into the
/// window with its vertical axis flipped, and the window resolution. A
/// missing cursor reads as the window's top-left corner.
pub fn drawing_uniforms(
    time_ms: u64,
    mouse_pressed: bool,
    cursor: Option<(u64, u64)>,
    window_w: u64,
    window_h: u64,
) -> (r: (UniformVec4, UniformVec4))
    requires
        time_ms <= i64::MAX,
        1 <= window_w <= 4_000_000_000_000,
        1 <= window_h <= 4_000_000_000_000,
        cursor matches Some(c) ==> c.0 <= 4_000_000_000_000 && c.1 <= 4_000_000_000_000,
    ensures
        r.0.x == time_ms,
        r.0.y == if mouse_pressed {
            1000int
        } else {
            0int
        },
        cursor matches Some(c) ==> {
            &&& r.0.z == normalized(c.0 as int, window_w as int)
            &&& r.0.w == 1000 - normalized(c.1 as int, window_h as int)
        },
        cursor is None ==> r.0.z == 0 && r.0.w == 1000,
        r.1.x == window_w && r.1.y == window_h && r.1.z == 0 && r.1.w == 0,
{
    let (mx, my) = match cursor {
        Some(c) => c,
        None => (0, 0),
    };
    let nx = (mx as u128) * 1000 / (window_w as u128);
    let ny = (my as u128) * 1000 / (window_h as u128);
    let pressed: i64 = if mouse_pressed {
        1000
    } else {
        0
    };
    (
        UniformVec4 { x: time_ms as i64, y: pressed, z: nx as i64, w: 1000 - ny as i64 },
        UniformVec4 { x: window_w as i64, y: window_h as i64, z: 0, w: 0 },
    )
}

/// The cursor normalized into a quad's local space, in thousandths: its
/// displacement from the quad's center over the quad's size, shifted by
/// one half so that the quad spans zero to one with the center at one
/// half.
pub fn quad_local_cursor(cursor: Vec2Fx, quad_center: Vec2Fx, quad_size: u64) -> (r: (i64, i64))
    requires
        -4_000_000_000_000 <= cursor.x <= 4_000_000_000_000,
        -4_000_000_000_000 <= cursor.y <= 4_000_000_000_000,
        -4_000_000_000_000 <= quad_center.x <= 4_000_000_000_000,
        -4_000_000_000_000 <= quad_center.y <= 4_000_000_000_000,
        1 <= quad_size <= 4_000_000_000_000,
    ensures
        r.0 == 500 + scaled_ratio(cursor.x - quad_center.x, 1000, quad_size as int),
        r.1 == 500 + scaled_ratio(cursor.y - quad_center.y, 1000, quad_size as int),
{
    let lx = local_component(cursor.x - quad_center.x, quad_size);
    let ly = local_component(cursor.y - quad_center.y, quad_size);
    (500 + lx, 500 + ly)
}

/// One axis of the quad-local normalization, rounded toward zero.
fn local_component(diff: i64, size: u64) -> (r: i64)
    requires
        1 <= size,
        -8_000_000_000_000 <= diff <= 8_000_000_000_000,
    ensures
        r == scaled_ratio(diff as int, 1000, size as int),
        -8_000_000_000_000_000 <= r <= 8_000_000_000_000_000,
{
    let mag: u128 = if diff >= 0 {
        diff as u128
    } else {
        (-(diff as i128)) as u128
    };
    let q = mag * 1000 / (size as u128);
    proof {
        assert((mag as int) * 1000 <= (size as int) * 8_000_000_000_000_000) by (nonlinear_arith)
            requires
                0 <= mag <= 8_000_000_000_000,
                size >= 1,
        ;
        vstd::arithmetic::div_mod::lemma_div_is_ordered(
            (mag as int) * 1000,
            (size as int) * 8_000_000_000_000_000,
            size as int,
        );
        vstd::arithmetic::div_mod::lemma_div_multiples_vanish(8_000_000_000_000_000, size as int);
        vstd::arithmetic::div_mod::lemma_div_pos_is_pos((mag as int) * 1000, size as int);
    }
    if diff >= 0 {
        q as i64
    } else {
        -(q as i64)
    }
}

/// The metaballs cursor uniform: the cursor normalized against the window,
/// or the window's center when the cursor is away.
pub fn metaballs_cursor(cursor: Option<(u64, u64)>, window_w: u64, window_h: u64) -> (r: (
    u64,
    u64,
))
    requires
        1 <= window_w <= 4_000_000_000_000,
        1 <= window_h <= 4_000_000_000_000,
        cursor matches Some(c) ==> c.0 <= 4_000_000_000_000 && c.1 <= 4_000_000_000_000,
    ensures
        cursor matches Some(c) ==> r.0 == normalized(c.0 as int, window_w as int) && r.1
            == normalized(c.1 as int, window_h as int),
        cursor is None ==> r.0 == 500 && r.1 == 500,
{
    match cursor {
        Some((mx, my)) => {
            let nx = ((mx as u128) * 1000 / (window_w as u128)) as u64;
            let ny = ((my as u128) * 1000 / (window_h as u128)) as u64;
            (nx, ny)
        },
        None => (500, 500),
    }
}

} // verus!
