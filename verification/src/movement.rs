//! The position update law of the server's simulation.

use vstd::prelude::*;
use crate::vector::Vec2;

verus! {

/// World units covered per second by a player whose direction has length one.
/// Every player moves at this speed.
pub const SPEED: i64 = 100;

/// Tick deltas are measured in microseconds.
pub const MICROS_PER_SECOND: i64 = 1_000_000;

/// The period of the server's tick loop, in microseconds: 64 ticks a second.
pub const TICK_MICROS: u32 = 15_625;

/// Steps travelled along one axis: `direction * SPEED * delta` seconds, rounded
/// toward zero so that opposite directions cover the same distance.
pub open spec fn travel(direction: int, delta_micros: int) -> int {
    if direction >= 0 {
        (direction * SPEED * delta_micros) / (MICROS_PER_SECOND as int)
    } else {
        -(((-direction) * SPEED * delta_micros) / (MICROS_PER_SECOND as int))
    }
}

/// The nearest representable coordinate.
pub open spec fn clamp(value: int) -> int {
    if value < i64::MIN {
        i64::MIN as int
    } else if value > i64::MAX {
        i64::MAX as int
    } else {
        value
    }
}

/// One axis of the update law: `position + direction * SPEED * delta`, held
/// inside the coordinate range.
pub open spec fn advance_axis(position: int, direction: int, delta_micros: int) -> int {
    clamp(position + travel(direction, delta_micros))
}

/// The update law on both axes.
pub open spec fn advance(position: Vec2, direction: Vec2, delta_micros: u32) -> Vec2 {
    Vec2 {
        x: advance_axis(position.x as int, direction.x as int, delta_micros as int) as i64,
        y: advance_axis(position.y as int, direction.y as int, delta_micros as int) as i64,
    }
}

/// The coordinate `value` can be represented.
pub open spec fn in_range(value: int) -> bool {
    i64::MIN <= value <= i64::MAX
}

/// The exact product `direction * SPEED * delta`, in steps times microseconds:
/// the travel of the update law before it is brought to whole steps.
pub open spec fn exact_travel(direction: int, delta_micros: int) -> int {
    direction * SPEED * delta_micros
}

/// Travel is the exact product brought to whole steps: it lies on the same
/// side of zero, falls short of it by less than one step, and mirrors when
/// the direction is mirrored.
pub proof fn lemma_travel_rounds_toward_zero(direction: int, delta_micros: int)
    requires
        0 <= delta_micros,
    ensures
        direction >= 0 ==> 0 <= exact_travel(direction, delta_micros) - travel(direction, delta_micros)
            * MICROS_PER_SECOND < MICROS_PER_SECOND,
        direction <= 0 ==> 0 <= travel(direction, delta_micros) * MICROS_PER_SECOND - exact_travel(
            direction,
            delta_micros,
        ) < MICROS_PER_SECOND,
        travel(-direction, delta_micros) == -travel(direction, delta_micros),
        exact_travel(direction, delta_micros) % (MICROS_PER_SECOND as int) == 0 ==> travel(
            direction,
            delta_micros,
        ) * MICROS_PER_SECOND == exact_travel(direction, delta_micros),
{
    let forward = direction * SPEED * delta_micros;
    let backward = (-direction) * SPEED * delta_micros;
    assert(backward == -forward) by (nonlinear_arith)
        requires
            forward == direction * SPEED * delta_micros,
            backward == (-direction) * SPEED * delta_micros,
    ;
}

/// Position update law, axis by axis. Where the target can be represented,
/// a tick moves a coordinate by `direction * SPEED * delta` seconds, short
/// of it by less than one step; where that product is a whole number of
/// steps, the law holds exactly: `position' = position + direction * SPEED * delta`.
pub proof fn lemma_position_update_law(position: int, direction: int, delta_micros: int)
    requires
        0 <= delta_micros,
        in_range(position + travel(direction, delta_micros)),
    ensures
        advance_axis(position, direction, delta_micros) == position + travel(direction, delta_micros),
        -MICROS_PER_SECOND < (advance_axis(position, direction, delta_micros) - position)
            * MICROS_PER_SECOND - exact_travel(direction, delta_micros) < MICROS_PER_SECOND,
        exact_travel(direction, delta_micros) % (MICROS_PER_SECOND as int) == 0 ==> (advance_axis(
            position,
            direction,
            delta_micros,
        ) - position) * MICROS_PER_SECOND == exact_travel(direction, delta_micros),
{
    lemma_travel_rounds_toward_zero(direction, delta_micros);
}

/// A player that stands still stays where it is.
pub proof fn lemma_rest_stays(position: Vec2, delta_micros: u32)
    ensures
        advance(position, Vec2::zero(), delta_micros) == position,
{
    assert(0 * SPEED * (delta_micros as int) == 0);
}

proof fn lemma_product_bound(magnitude: int, delta_micros: int)
    requires
        0 <= magnitude <= 0x8000_0000_0000_0000,
        0 <= delta_micros <= 0xffff_ffff,
    ensures
        0 <= magnitude * SPEED * delta_micros <= 0x8000_0000_0000_0000 * 100 * 0xffff_ffff,
{
    assert(0 <= (magnitude * SPEED) * delta_micros <= (0x8000_0000_0000_0000 * 100) * 0xffff_ffff)
        by (nonlinear_arith)
        requires
            0 <= magnitude * SPEED <= 0x8000_0000_0000_0000 * 100,
            0 <= delta_micros <= 0xffff_ffff,
    ;
}

fn step_axis(position: i64, direction: i64, delta_micros: u32) -> (moved: i64)
    ensures
        moved == advance_axis(position as int, direction as int, delta_micros as int),
{
    let wide: i128 = direction as i128;
    let magnitude: u128 = if wide < 0 { (-wide) as u128 } else { wide as u128 };
    proof {
        lemma_product_bound(magnitude as int, delta_micros as int);
    }
    let scaled: u128 = magnitude * 100 * (delta_micros as u128);
    let steps: i128 = (scaled / 1_000_000) as i128;
    let signed: i128 = if wide < 0 { -steps } else { steps };
    let target: i128 = position as i128 + signed;
    if target < i64::MIN as i128 {
        i64::MIN
    } else if target > i64::MAX as i128 {
        i64::MAX
    } else {
        target as i64
    }
}

/// The tick delta for a measured time: the elapsed microseconds, or the
/// longest delta there is where more time than that has passed.
pub fn tick_delta(elapsed_micros: u128) -> (delta_micros: u32)
    ensures
        delta_micros == if elapsed_micros <= u32::MAX {
            elapsed_micros
        } else {
            u32::MAX as u128
        },
{
    if elapsed_micros <= u32::MAX as u128 {
        elapsed_micros as u32
    } else {
        u32::MAX
    }
}

/// Moves `position` along `direction` for `delta_micros` microseconds.
/// The direction is applied as given, whatever its length.
pub fn integrate(position: Vec2, direction: Vec2, delta_micros: u32) -> (moved: Vec2)
    ensures
        moved == advance(position, direction, delta_micros),
{
    Vec2 {
        x: step_axis(position.x, direction.x, delta_micros),
        y: step_axis(position.y, direction.y, delta_micros),
    }
}

} // verus!
