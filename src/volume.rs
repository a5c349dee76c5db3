//! The volume fader: a linear ramp of output-volume levels.
//!
//! A level is a volume in millionths of full scale.

use vstd::prelude::*;

verus! {

/// The level of full volume.
pub const VOLUME_FULL: u32 = 1_000_000;

/// The `k`-th of `steps` levels on the straight line from `from` to `to`,
/// rounded toward `from`; the last one is `to`.
pub open spec fn fade_level(from: u32, to: u32, steps: u32, k: int) -> int {
    if to >= from {
        from + (to - from) * k / (steps as int)
    } else {
        from - (from - to) * k / (steps as int)
    }
}

/// The levels to write, one per step, for a fade from `from` to `to` in
/// `steps` steps.
pub fn fade_volume(from: u32, to: u32, steps: u32) -> (r: Vec<u32>)
    ensures
        r@.len() == steps,
        forall|i: int| 0 <= i < steps ==> r@[i] == fade_level(from, to, steps, i + 1),
        steps > 0 ==> r@[steps - 1] == to,
{
    let mut r: Vec<u32> = Vec::new();
    let mut i: u32 = 0;
    while i < steps
        invariant
            0 <= i <= steps,
            r@.len() == i,
            forall|j: int| 0 <= j < i ==> r@[j] == fade_level(from, to, steps, j + 1),
        decreases steps - i,
    {
        let k: u32 = i + 1;
        let level: u32;
        if to >= from {
            let span: u64 = (to - from) as u64;
            assert(span * (k as u64) <= span * (steps as u64)) by (nonlinear_arith)
                requires k <= steps;
            assert(span * (steps as u64) <= 0xFFFF_FFFF * 0xFFFF_FFFF) by (nonlinear_arith)
                requires span <= 0xFFFF_FFFF, steps <= 0xFFFF_FFFF;
            let part: u64 = span * (k as u64) / (steps as u64);
            assert(part <= span) by (nonlinear_arith)
                requires part == span * k / (steps as int), k <= steps, steps > 0;
            level = from + part as u32;
        } else {
            let span: u64 = (from - to) as u64;
            assert(span * (k as u64) <= span * (steps as u64)) by (nonlinear_arith)
                requires k <= steps;
            assert(span * (steps as u64) <= 0xFFFF_FFFF * 0xFFFF_FFFF) by (nonlinear_arith)
                requires span <= 0xFFFF_FFFF, steps <= 0xFFFF_FFFF;
            let part: u64 = span * (k as u64) / (steps as u64);
            assert(part <= span) by (nonlinear_arith)
                requires part == span * k / (steps as int), k <= steps, steps > 0;
            level = from - part as u32;
        }
        r.push(level);
        i = k;
    }
    proof {
        if steps > 0 {
            let span: int = if to >= from { to - from } else { from - to };
            assert(span * steps / (steps as int) == span) by (nonlinear_arith)
                requires steps > 0;
        }
    }
    r
}

} // verus!
