//! The static layers of the scene: the background picture and the terrain tiles.
//! Both only draw, so they hold no state of their own.
use vstd::prelude::*;

verus! {

pub struct BackgroundLayer {}

impl BackgroundLayer {
    pub fn new() -> (r: BackgroundLayer)
        ensures
            r == (BackgroundLayer {}),
    {
        BackgroundLayer {}
    }
}

pub struct Terrain {}

impl Terrain {
    pub fn new() -> (r: Terrain)
        ensures
            r == (Terrain {}),
    {
        Terrain {}
    }
}

/// Whether a terrain cell blocks movement: it holds a tile whose id is not zero.
pub fn is_solid_tile(id: Option<u32>) -> (r: bool)
    ensures
        r == (id matches Some(i) && i != 0),
{
    match id {
        Some(i) => i != 0,
        None => false,
    }
}

} // verus!
