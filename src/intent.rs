use vstd::prelude::*;
use crate::vector::{Vec3, ONE, bounded};

verus! {

/// A discrete movement command derived from input for one tick.
#[derive(Clone, Copy, Debug, PartialEq, Eq, Structural)]
pub enum MovementIntent {
    /// Stop horizontal motion.
    Idle,
    /// Walk along a horizontal unit direction.
    Move(Vec3),
    /// Sprint along a horizontal unit direction.
    Sprint(Vec3),
}

/// A direction carried by an intent has components within `[-ONE, ONE]`.
pub open spec fn intent_wf(i: MovementIntent) -> bool {
    match i {
        MovementIntent::Idle => true,
        MovementIntent::Move(d) => bounded(d, ONE as int),
        MovementIntent::Sprint(d) => bounded(d, ONE as int),
    }
}

/// The ordered intents of one tick, in emission order.
pub struct IntentQueue {
    intents: Vec<MovementIntent>,
}

impl View for IntentQueue {
    type V = Seq<MovementIntent>;

    closed spec fn view(&self) -> Seq<MovementIntent> {
        self.intents@
    }
}

impl IntentQueue {
    /// Every queued intent is well formed.
    pub open spec fn wf(&self) -> bool {
        forall|i: int| 0 <= i < self@.len() ==> #[trigger] intent_wf(self@[i])
    }

    pub fn new() -> (r: IntentQueue)
        ensures
            r@ == Seq::<MovementIntent>::empty(),
            r.wf(),
    {
        IntentQueue { intents: Vec::new() }
    }

    /// Appends `intent` after the ones already queued.
    pub fn push(&mut self, intent: MovementIntent)
        requires
            old(self).wf(),
            intent_wf(intent),
        ensures
            final(self)@ == old(self)@.push(intent),
            final(self).wf(),
    {
        self.intents.push(intent);
        proof {
            assert forall|i: int| 0 <= i < self@.len() implies #[trigger] intent_wf(self@[i]) by {
                if i < old(self)@.len() {
                    assert(self@[i] == old(self)@[i]);
                }
            }
        }
    }

    /// Discards every intent: the tick boundary.
    pub fn clear(&mut self)
        ensures
            final(self)@ == Seq::<MovementIntent>::empty(),
            final(self).wf(),
    {
        self.intents.clear();
    }

    pub fn len(&self) -> (r: usize)
        ensures
            r == self@.len(),
    {
        self.intents.len()
    }

    pub fn get(&self, i: usize) -> (r: MovementIntent)
        requires
            i < self@.len(),
        ensures
            r == self@[i as int],
    {
        self.intents[i]
    }
}

} // verus!
