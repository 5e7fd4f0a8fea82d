use vstd::prelude::*;

verus! {

/// What became of a ray sent into the scene.
#[derive(Clone, Copy, Debug, PartialEq, Eq, Structural)]
pub enum Outcome {
    /// It hit nothing.
    Miss,
    /// It hit a surface whose material scattered it.
    Scattered,
    /// It hit a surface whose material absorbed it.
    Absorbed,
}

/// What the radiance estimate of a ray does next.
#[derive(Clone, Copy, Debug, PartialEq, Eq, Structural)]
pub enum Step {
    /// The ray contributes black.
    Black,
    /// Send the ray into the scene and report the outcome.
    Trace,
    /// The ray contributes the background colour of its direction.
    Background,
    /// Follow the scattered ray with this depth, and tint what it brings by
    /// the material's attenuation.
    Follow(i32),
}

/// The step of the radiance estimate of a ray with `depth` bounces left,
/// before it is traced (`None`) or after (`Some`).
///
/// Without bounces left the ray is black, whatever the ray or the scene.
/// Each scattered ray is followed with one bounce fewer, so the estimate
/// ends after at most `depth` bounces.
pub fn ray_step(depth: i32, traced: Option<Outcome>) -> (r: Step)
    ensures
        depth <= 0 ==> r == Step::Black,
        depth > 0 ==> r == match traced {
            None => Step::Trace,
            Some(Outcome::Miss) => Step::Background,
            Some(Outcome::Scattered) => Step::Follow((depth - 1) as i32),
            Some(Outcome::Absorbed) => Step::Black,
        },
        r matches Step::Follow(next) ==> 0 <= next < depth,
{
    if depth <= 0 {
        return Step::Black;
    }
    match traced {
        None => Step::Trace,
        Some(Outcome::Miss) => Step::Background,
        Some(Outcome::Scattered) => Step::Follow(depth - 1),
        Some(Outcome::Absorbed) => Step::Black,
    }
}

} // verus!
