//! The attitude controller: full torque toward the desired heading, full
//! counter-torque once the spin would carry past it, and a fine correction
//! within one tick of alignment.

use vstd::prelude::*;
use crate::numeric::magnitude;
use crate::config::Config;

verus! {

/// What the attitude controller asks of the body.
#[derive(Clone, Copy, Debug, PartialEq, Eq, Structural)]
pub enum AttitudeCommand {
    /// Apply this angular acceleration.
    Torque(i64),
    /// Correct this heading error directly.
    Correct(i64),
}

/// The body spins toward the target and could not stop before it: the time
/// to stop, `|spin| / max_torque`, is positive and at least the positive time
/// to the target, `diff / spin`.
pub open spec fn overshoots(diff: int, spin: int, max_torque: int) -> bool {
    &&& spin != 0
    &&& diff * spin > 0
    &&& spin * spin >= magnitude(diff) * max_torque
}

/// The body spins, and the time to the target, `diff / spin`, is below one tick.
pub open spec fn within_one_tick(diff: int, spin: int, tick: int) -> bool {
    &&& spin != 0
    &&& if spin > 0 {
        diff < tick * spin
    } else {
        diff > tick * spin
    }
}

/// `max_torque` with the sign of `diff`.
pub open spec fn toward(diff: int, max_torque: int) -> int {
    if diff > 0 {
        max_torque
    } else if diff < 0 {
        -max_torque
    } else {
        0
    }
}

/// The command for a heading error `diff` at angular velocity `spin`.
pub open spec fn steering(diff: int, spin: int, max_torque: int, tick: int) -> AttitudeCommand {
    if overshoots(diff, spin, max_torque) {
        AttitudeCommand::Torque(toward(-spin, max_torque) as i64)
    } else if within_one_tick(diff, spin, tick) {
        AttitudeCommand::Correct(diff as i64)
    } else {
        AttitudeCommand::Torque(toward(diff, max_torque) as i64)
    }
}

/// Decides the torque for a heading error `diff` at angular velocity `spin`.
pub fn steer(diff: i64, spin: i64, config: &Config) -> (r: AttitudeCommand)
    ensures
        r == steering(
            diff as int,
            spin as int,
            config@.max_angular_acceleration as int,
            config@.tick_length as int,
        ),
{
    let settings = config.settings();
    let torque: i64 = settings.max_angular_acceleration;
    let tick: i128 = settings.tick_length as i128;
    let d: i128 = diff as i128;
    let w: i128 = spin as i128;
    let size: i128 = if d < 0 { -d } else { d };
    proof {
        assert(w * w <= 0x8000_0000_0000_0000int * 0x8000_0000_0000_0000int) by (nonlinear_arith)
            requires
                -0x8000_0000_0000_0000 <= w <= 0x8000_0000_0000_0000,
        ;
        assert(w * w >= 0) by (nonlinear_arith);
        assert(0 <= size * torque <= 0x8000_0000_0000_0000int * 1_000_000_000_000int)
            by (nonlinear_arith)
            requires
                0 <= size <= 0x8000_0000_0000_0000,
                0 <= torque <= 1_000_000_000_000,
        ;
        assert(-(0x8000_0000_0000_0000int * 1_000_000_000_000int) <= tick * w
            <= 0x8000_0000_0000_0000int * 1_000_000_000_000int) by (nonlinear_arith)
            requires
                -0x8000_0000_0000_0000 <= w <= 0x8000_0000_0000_0000,
                0 <= tick <= 1_000_000_000_000,
        ;
        assert((d > 0 && w > 0 || d < 0 && w < 0) <==> d * w > 0) by (nonlinear_arith);
    }
    let same_way: bool = (d > 0 && w > 0) || (d < 0 && w < 0);
    if same_way && w * w >= size * torque as i128 {
        if spin > 0 {
            AttitudeCommand::Torque(-torque)
        } else {
            AttitudeCommand::Torque(torque)
        }
    } else if w != 0 && ((w > 0 && d < tick * w) || (w < 0 && d > tick * w)) {
        AttitudeCommand::Correct(diff)
    } else if diff > 0 {
        AttitudeCommand::Torque(torque)
    } else if diff < 0 {
        AttitudeCommand::Torque(-torque)
    } else {
        AttitudeCommand::Torque(0)
    }
}

/// A body at rest never brakes: any heading error commands full torque with
/// the sign of the error.
pub proof fn lemma_at_rest_turns_toward(diff: int, max_torque: int, tick: int)
    requires
        diff != 0,
        i64::MIN <= diff <= i64::MAX,
        0 < max_torque <= i64::MAX,
    ensures
        steering(diff, 0, max_torque, tick) == AttitudeCommand::Torque(
            toward(diff, max_torque) as i64,
        ),
        diff > 0 ==> steering(diff, 0, max_torque, tick) == AttitudeCommand::Torque(
            max_torque as i64,
        ),
        diff < 0 ==> steering(diff, 0, max_torque, tick) == AttitudeCommand::Torque(
            (-max_torque) as i64,
        ),
{
}

/// Braking always opposes the spin.
pub proof fn lemma_brake_opposes_spin(diff: int, spin: int, max_torque: int, tick: int)
    requires
        overshoots(diff, spin, max_torque),
        0 < max_torque <= i64::MAX,
    ensures
        spin > 0 ==> steering(diff, spin, max_torque, tick) == AttitudeCommand::Torque(
            (-max_torque) as i64,
        ),
        spin < 0 ==> steering(diff, spin, max_torque, tick) == AttitudeCommand::Torque(
            max_torque as i64,
        ),
{
}

} // verus!
