use vstd::prelude::*;

verus! {

/// The pool an industry job occupies a slot in.
#[derive(Debug, Clone, Copy, PartialEq, Eq, Structural)]
pub enum IndustrySlot {
    Manufacturing,
    Reaction,
    Science,
}

impl IndustrySlot {
    /// The slot pool behind a catalog activity key, if any.
    pub open spec fn spec_from_activity_id(activity_id: i32) -> Option<IndustrySlot> {
        match activity_id {
            1i32 => Some(IndustrySlot::Manufacturing),
            3i32 => Some(IndustrySlot::Science),
            4i32 => Some(IndustrySlot::Science),
            5i32 => Some(IndustrySlot::Science),
            7i32 => Some(IndustrySlot::Science),
            8i32 => Some(IndustrySlot::Science),
            9i32 => Some(IndustrySlot::Reaction),
            11i32 => Some(IndustrySlot::Reaction),
            _ => None::<IndustrySlot>,
        }
    }

    /// Maps a catalog activity id onto its slot pool; unknown ids map to
    /// nothing.
    pub fn from_activity_id(activity_id: i32) -> (r: Option<IndustrySlot>)
        ensures
            r == IndustrySlot::spec_from_activity_id(activity_id),
    {
        match activity_id {
            1 => Some(IndustrySlot::Manufacturing),
            3 => Some(IndustrySlot::Science),
            4 => Some(IndustrySlot::Science),
            5 => Some(IndustrySlot::Science),
            7 => Some(IndustrySlot::Science),
            8 => Some(IndustrySlot::Science),
            9 => Some(IndustrySlot::Reaction),
            11 => Some(IndustrySlot::Reaction),
            _ => None,
        }
    }
}

/// How many slots of each pool are free (or, as a requirement, needed).
#[derive(Debug, Clone, PartialEq, Eq, Structural)]
pub struct IndustrySlots {
    pub manufacturing: usize,
    pub reaction: usize,
    pub science: usize,
}

impl IndustrySlots {
    pub open spec fn pool(self, slot: IndustrySlot) -> usize {
        match slot {
            IndustrySlot::Manufacturing => self.manufacturing,
            IndustrySlot::Reaction => self.reaction,
            IndustrySlot::Science => self.science,
        }
    }

    /// Takes one slot from the pool if one is free; reports whether it did.
    pub fn use_slot(&mut self, slot: IndustrySlot) -> (r: bool)
        ensures
            r == (old(self).pool(slot) > 0),
            r ==> final(self).pool(slot) == old(self).pool(slot) - 1,
            !r ==> *final(self) == *old(self),
            final(self).manufacturing == if r && slot == IndustrySlot::Manufacturing {
                old(self).manufacturing - 1
            } else {
                old(self).manufacturing as int
            },
            final(self).reaction == if r && slot == IndustrySlot::Reaction {
                old(self).reaction - 1
            } else {
                old(self).reaction as int
            },
            final(self).science == if r && slot == IndustrySlot::Science {
                old(self).science - 1
            } else {
                old(self).science as int
            },
    {
        match slot {
            IndustrySlot::Manufacturing => match self.manufacturing {
                0 => false,
                _ => {
                    self.manufacturing = self.manufacturing - 1;
                    true
                },
            },
            IndustrySlot::Reaction => match self.reaction {
                0 => false,
                _ => {
                    self.reaction = self.reaction - 1;
                    true
                },
            },
            IndustrySlot::Science => match self.science {
                0 => false,
                _ => {
                    self.science = self.science - 1;
                    true
                },
            },
        }
    }

    pub fn can_use_slot(&self, slot: IndustrySlot) -> (r: bool)
        ensures
            r == (self.pool(slot) > 0),
    {
        match slot {
            IndustrySlot::Manufacturing => self.manufacturing > 0,
            IndustrySlot::Reaction => self.reaction > 0,
            IndustrySlot::Science => self.science > 0,
        }
    }

    /// True when every pool holds at least what `slots` asks for.
    pub fn can_use_slots(&self, slots: &IndustrySlots) -> (r: bool)
        ensures
            r == (self.manufacturing >= slots.manufacturing && self.reaction >= slots.reaction
                && self.science >= slots.science),
    {
        self.manufacturing >= slots.manufacturing && self.reaction >= slots.reaction
            && self.science >= slots.science
    }

    /// Takes one slot from the pool; the pool must not be empty.
    pub fn use_slot_unwrap(&mut self, slot: IndustrySlot)
        requires
            old(self).pool(slot) > 0,
        ensures
            final(self).manufacturing == if slot == IndustrySlot::Manufacturing {
                old(self).manufacturing - 1
            } else {
                old(self).manufacturing as int
            },
            final(self).reaction == if slot == IndustrySlot::Reaction {
                old(self).reaction - 1
            } else {
                old(self).reaction as int
            },
            final(self).science == if slot == IndustrySlot::Science {
                old(self).science - 1
            } else {
                old(self).science as int
            },
    {
        let used = self.use_slot(slot);
        if !used {
            // unreachable under the precondition
            assert(false);
        }
    }

    pub fn available(&self, slot: IndustrySlot) -> (r: bool)
        ensures
            r == (self.pool(slot) > 0),
    {
        match slot {
            IndustrySlot::Manufacturing => match self.manufacturing {
                0 => false,
                _ => true,
            },
            IndustrySlot::Reaction => match self.reaction {
                0 => false,
                _ => true,
            },
            IndustrySlot::Science => match self.science {
                0 => false,
                _ => true,
            },
        }
    }

    /// The requirement of a single job in the given pool.
    pub fn from_slot(slot: IndustrySlot) -> (r: IndustrySlots)
        ensures
            r.pool(slot) == 1,
            r.manufacturing == if slot == IndustrySlot::Manufacturing { 1int } else { 0int },
            r.reaction == if slot == IndustrySlot::Reaction { 1int } else { 0int },
            r.science == if slot == IndustrySlot::Science { 1int } else { 0int },
    {
        match slot {
            IndustrySlot::Manufacturing => IndustrySlots {
                manufacturing: 1,
                reaction: 0,
                science: 0,
            },
            IndustrySlot::Reaction => IndustrySlots { manufacturing: 0, reaction: 1, science: 0 },
            IndustrySlot::Science => IndustrySlots { manufacturing: 0, reaction: 0, science: 1 },
        }
    }

    /// Pool-wise addition of another requirement.
    pub fn add(&mut self, slots: IndustrySlots)
        requires
            old(self).manufacturing + slots.manufacturing <= usize::MAX,
            old(self).reaction + slots.reaction <= usize::MAX,
            old(self).science + slots.science <= usize::MAX,
        ensures
            final(self).manufacturing == old(self).manufacturing + slots.manufacturing,
            final(self).reaction == old(self).reaction + slots.reaction,
            final(self).science == old(self).science + slots.science,
    {
        self.manufacturing = self.manufacturing + slots.manufacturing;
        self.reaction = self.reaction + slots.reaction;
        self.science = self.science + slots.science;
    }
}

} // verus!
