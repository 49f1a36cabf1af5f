//! Treats and the consumption notifications they raise.
//!
//! A treat sits on a grid cell and is consumed when any chain segment's
//! discrete position matches that cell on a tick boundary. Consumption
//! raises a [`TreatEatenEvent`] carrying the treat's identity, which the
//! growth handler reuses as the identity of the new tail segment. Spawning
//! replacement treats at fresh cells is left to the caller.

use vstd::prelude::*;

use crate::chain::Chain;
use crate::chain::Segment;
use crate::chain::positions;
use crate::grid::GridVec;

verus! {

/// A consumable item on a grid cell.
#[derive(Clone, Copy, Debug, PartialEq, Eq, Structural)]
pub struct SnakeTreat {
    /// The treat's stable identity, reused for the segment it turns into.
    pub id: u64,
    /// The grid cell the treat occupies.
    pub position: GridVec,
}

/// A notification that a treat was consumed this frame.
#[derive(Clone, Copy, Debug, PartialEq, Eq, Structural)]
pub struct TreatEatenEvent {
    /// The identity of the consumed treat, to become the new tail segment.
    pub treat_entity: u64,
}

/// The notifications a frame raises: one event per treat whose cell some
/// segment occupies, in the treats' own order.
pub open spec fn eaten_events_spec(s: Seq<Segment>, treats: Seq<SnakeTreat>) -> Seq<
    TreatEatenEvent,
>
    decreases treats.len(),
{
    if treats.len() == 0 {
        Seq::empty()
    } else {
        let rest = eaten_events_spec(s, treats.drop_last());
        if positions(s).contains(treats.last().position) {
            rest.push(TreatEatenEvent { treat_entity: treats.last().id })
        } else {
            rest
        }
    }
}

/// Detects consumption on a tick boundary: raises one notification per
/// treat whose grid cell any chain segment occupies, in the treats' order.
pub fn collisions(chain: &Chain, treats: &Vec<SnakeTreat>) -> (events: Vec<TreatEatenEvent>)
    ensures
        events@ == eaten_events_spec(chain@, treats@),
{
    let mut events: Vec<TreatEatenEvent> = Vec::new();
    let m = treats.len();
    let mut j: usize = 0;
    while j < m
        invariant
            m == treats@.len(),
            0 <= j <= m,
            events@ == eaten_events_spec(chain@, treats@.take(j as int)),
        decreases m - j,
    {
        if chain.occupies(treats[j].position) {
            events.push(TreatEatenEvent { treat_entity: treats[j].id });
        }
        proof {
            assert(treats@.take(j + 1).drop_last() =~= treats@.take(j as int));
            assert(treats@.take(j + 1).last() == treats@[j as int]);
        }
        j += 1;
    }
    proof {
        assert(treats@.take(m as int) =~= treats@);
    }
    events
}

} // verus!
