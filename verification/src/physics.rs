//! Classification of proximity reports from the physics collaborator.
//!
//! The physics engine owns the sensors; this module only classifies which
//! kind of contact a pair of sensors produces.  Melee sensors are symmetric
//! (both units gain a melee contact), while a firing-range sensor belongs to
//! the firing unit alone.

use vstd::prelude::*;

verus! {

use crate::EntityId;

/// The kind of sensor attached to a unit's body.
#[derive(Clone, Copy, Debug, PartialEq, Eq, Structural)]
pub enum ColliderType {
    Melee,
    FiringRange,
}

/// A classified proximity contact between two units.
#[derive(Clone, Copy, Debug)]
pub enum ContactType {
    UnitUnitMeleeEnter(EntityId, EntityId),
    UnitUnitMeleeExit(EntityId, EntityId),
    UnitFiringRangeEnter { range_of: EntityId, target: EntityId },
    UnitFiringRangeExit { range_of: EntityId, target: EntityId },
}

#[derive(Clone, Copy, Debug, PartialEq, Eq, Structural)]
pub enum EnterOrExit {
    Enter,
    Exit,
}

impl ContactType {
    pub open spec fn spec_enter_or_exit(self) -> EnterOrExit {
        match self {
            ContactType::UnitFiringRangeEnter { .. } => EnterOrExit::Enter,
            ContactType::UnitUnitMeleeEnter(..) => EnterOrExit::Enter,
            ContactType::UnitFiringRangeExit { .. } => EnterOrExit::Exit,
            ContactType::UnitUnitMeleeExit(..) => EnterOrExit::Exit,
        }
    }

    pub fn enter_or_exit(&self) -> (r: EnterOrExit)
        ensures
            r == self.spec_enter_or_exit(),
    {
        match self {
            ContactType::UnitFiringRangeEnter { .. } | ContactType::UnitUnitMeleeEnter(..) => {
                EnterOrExit::Enter
            }
            ContactType::UnitFiringRangeExit { .. } | ContactType::UnitUnitMeleeExit(..) => {
                EnterOrExit::Exit
            }
        }
    }
}

/// What contact, if any, a proximity report between the sensors of two
/// units produces.  Two overlapping melee sensors put each unit in the
/// other's melee range; a melee sensor inside a firing-range sensor puts
/// the melee unit in the range of the sensor's owner; two firing-range
/// sensors touching means nothing.
pub open spec fn spec_classify_contact(
    t1: ColliderType,
    t2: ColliderType,
    e1: EntityId,
    e2: EntityId,
    entering: bool,
) -> Option<ContactType> {
    match (t1, t2) {
        (ColliderType::Melee, ColliderType::Melee) => Some(
            if entering {
                ContactType::UnitUnitMeleeEnter(e1, e2)
            } else {
                ContactType::UnitUnitMeleeExit(e1, e2)
            },
        ),
        (ColliderType::Melee, ColliderType::FiringRange) => Some(
            if entering {
                ContactType::UnitFiringRangeEnter { range_of: e2, target: e1 }
            } else {
                ContactType::UnitFiringRangeExit { range_of: e2, target: e1 }
            },
        ),
        (ColliderType::FiringRange, ColliderType::Melee) => Some(
            if entering {
                ContactType::UnitFiringRangeEnter { range_of: e1, target: e2 }
            } else {
                ContactType::UnitFiringRangeExit { range_of: e1, target: e2 }
            },
        ),
        (ColliderType::FiringRange, ColliderType::FiringRange) => None,
    }
}

/// Classifies one proximity report.  The physics collaborator calls this for
/// every sensor pair whose status changed; `entering` is true when the pair
/// began intersecting and false when it became disjoint.
pub fn classify_contact(
    t1: ColliderType,
    t2: ColliderType,
    e1: EntityId,
    e2: EntityId,
    entering: bool,
) -> (r: Option<ContactType>)
    ensures
        r == spec_classify_contact(t1, t2, e1, e2, entering),
{
    match (t1, t2) {
        (ColliderType::Melee, ColliderType::Melee) => Some(
            if entering {
                ContactType::UnitUnitMeleeEnter(e1, e2)
            } else {
                ContactType::UnitUnitMeleeExit(e1, e2)
            },
        ),
        (ColliderType::Melee, ColliderType::FiringRange) => Some(
            if entering {
                ContactType::UnitFiringRangeEnter { range_of: e2, target: e1 }
            } else {
                ContactType::UnitFiringRangeExit { range_of: e2, target: e1 }
            },
        ),
        (ColliderType::FiringRange, ColliderType::Melee) => Some(
            if entering {
                ContactType::UnitFiringRangeEnter { range_of: e1, target: e2 }
            } else {
                ContactType::UnitFiringRangeExit { range_of: e1, target: e2 }
            },
        ),
        (ColliderType::FiringRange, ColliderType::FiringRange) => None,
    }
}

} // verus!
