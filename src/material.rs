use vstd::prelude::*;
use crate::order::Key;

verus! {

/// The kinds of surface material.
#[derive(Clone, Copy, Debug, PartialEq, Eq, Structural)]
pub enum MaterialKind {
    /// Diffuse: scatters around the normal in a random direction.
    Lambertian,
    /// Specular: scatters by mirror reflection about the normal.
    Metal,
}

/// Whether a ray that hits a material scatters, or is absorbed.
///
/// `alignment` is the dot product of the scattered direction with the
/// normal at the hit. A diffuse surface always scatters; a metal one only
/// when the reflection leaves the surface (positive alignment).
pub fn scatters(kind: MaterialKind, alignment: Option<Key>) -> (r: bool)
    ensures
        kind == MaterialKind::Lambertian ==> r,
        kind == MaterialKind::Metal ==> r == (alignment matches Some(d) && d.rank > 0),
{
    match kind {
        MaterialKind::Lambertian => true,
        MaterialKind::Metal => match alignment {
            Some(d) => d.rank > 0,
            None => false,
        },
    }
}

} // verus!
