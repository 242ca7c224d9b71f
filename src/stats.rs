use vstd::prelude::*;

verus! {

/// A world-level player: action points and movement speeds, the speeds in
/// micro-units per second.
#[derive(Clone, Copy, Debug, PartialEq, Eq, Structural)]
pub struct WorldPlayer {
    pub actions_points: usize,
    pub walk_speed: u64,
    pub sprinting_speed: u64,
}

impl WorldPlayer {
    /// Both speeds are positive.
    pub open spec fn wf(&self) -> bool {
        self.walk_speed > 0 && self.sprinting_speed > 0
    }
}

impl Default for WorldPlayer {
    /// Three action points, walking at `3.0` and sprinting at `4.5`.
    fn default() -> (r: WorldPlayer)
        ensures
            r.actions_points == 3,
            r.walk_speed == 3_000_000,
            r.sprinting_speed == 4_500_000,
            r.wf(),
    {
        WorldPlayer { actions_points: 3, walk_speed: 3_000_000, sprinting_speed: 4_500_000 }
    }
}

} // verus!
