//! The whole simulation, one frame at a time.
//!
//! A frame latches the input snapshot into the head's intent, accumulates
//! real time on the tick scheduler, runs the discrete chain propagation if
//! the scheduler fires, drains this frame's consumption notifications into
//! growth, and finally eases every segment's rendered position toward its
//! grid cell — in that order, so growth always observes a fully settled
//! topology and rendering is decoupled from the tick rate.

use vstd::prelude::*;

use crate::chain::Chain;
use crate::chain::Segment;
use crate::chain::grow_all_spec;
use crate::chain::head_step_fits;
use crate::chain::lemma_grow_all_len;
use crate::chain::step_spec;
use crate::grid::GridVec;
use crate::grid::is_dir_intent;
use crate::grid::zero_vec;
use crate::input::InputSnapshot;
use crate::input::latch_spec;
use crate::interp::DEFAULT_LERP_RATE;
use crate::interp::LerpRate;
use crate::interp::RenderPos;
use crate::interp::approach_spec;
use crate::interp::milli_of;
use crate::interp::render_in_range;
use crate::level::TreatEatenEvent;
use crate::timer::DEFAULT_MOVEMENT_INTERVAL_MS;
use crate::timer::MovementTimer;
use crate::timer::tick_elapsed;
use crate::timer::tick_fires;

verus! {

/// The chain with this frame's input latched into the head's intent.
pub open spec fn latched_seq(s: Seq<Segment>, input: InputSnapshot) -> Seq<Segment> {
    s.update(
        0,
        Segment {
            id: s[0].id,
            pos: s[0].pos,
            direction: latch_spec(input, s[0].pos, s[0].direction),
            link: s[0].link,
        },
    )
}

/// What one whole frame does to the chain: latch the input, propagate if
/// the scheduler fired, then apply the growth events in arrival order.
pub open spec fn frame_chain_spec(
    s: Seq<Segment>,
    input: InputSnapshot,
    fired: bool,
    ids: Seq<u64>,
) -> Seq<Segment> {
    let latched = latched_seq(s, input);
    let moved = if fired {
        step_spec(latched)
    } else {
        latched
    };
    grow_all_spec(moved, ids)
}

/// Whether the head sits strictly inside the coordinate range, so that any
/// unit step this frame could latch still fits the coordinate type.
pub open spec fn head_has_room(s: Seq<Segment>) -> bool {
    &&& i32::MIN < s[0].pos.position.x < i32::MAX
    &&& i32::MIN < s[0].pos.position.y < i32::MAX
}

/// The full simulation state: the chain, the tick scheduler, the
/// interpolation rate, and one rendered position per segment.
pub struct GameState {
    pub chain: Chain,
    pub timer: MovementTimer,
    pub lerp_rate: LerpRate,
    pub renders: Vec<RenderPos>,
}

impl GameState {
    /// Well-formedness: a well-formed chain, and one in-range rendered
    /// position per segment.
    pub open spec fn wf(self) -> bool {
        &&& self.chain.wf()
        &&& self.renders@.len() == self.chain@.len()
        &&& forall|k: int|
            0 <= k < self.renders@.len() ==> render_in_range(#[trigger] self.renders@[k])
    }

    /// A fresh game: a single segment resting on `start` with no intent,
    /// the default tick interval and interpolation rate, and its rendered
    /// position sitting exactly on `start`.
    pub fn new(id: u64, start: GridVec) -> (g: GameState)
        ensures
            g.wf(),
            g.chain@.len() == 1,
            g.chain@[0] == (Segment {
                id,
                pos: crate::grid::Position { position: start, prev_position: start },
                direction: zero_vec(),
                link: None,
            }),
            g.timer == (MovementTimer { interval_ms: DEFAULT_MOVEMENT_INTERVAL_MS, elapsed_ms: 0 }),
            g.lerp_rate.rate == DEFAULT_LERP_RATE,
            g.renders@.len() == 1,
            g.renders@[0].x == milli_of(start.x),
            g.renders@[0].y == milli_of(start.y),
    {
        let chain = Chain::new(id, start);
        let mut renders: Vec<RenderPos> = Vec::new();
        renders.push(RenderPos::from_cell(start));
        GameState {
            chain,
            timer: MovementTimer::new(DEFAULT_MOVEMENT_INTERVAL_MS),
            lerp_rate: LerpRate { rate: DEFAULT_LERP_RATE },
            renders,
        }
    }

    /// One frame: latch `input`, accumulate `delta_ms` on the scheduler,
    /// propagate the chain if it fired, splice in this frame's consumption
    /// notifications, and ease every rendered position toward its segment's
    /// cell. The notifications are cleared by the caller after this call
    /// consumes them, so each is applied at most once.
    pub fn advance_frame(&mut self, input: InputSnapshot, delta_ms: u32, events: &Vec<
        TreatEatenEvent,
    >)
        requires
            old(self).wf(),
            tick_fires(old(self).timer, delta_ms) ==> head_has_room(old(self).chain@),
        ensures
            final(self).wf(),
            final(self).timer.interval_ms == old(self).timer.interval_ms,
            final(self).timer.elapsed_ms == tick_elapsed(old(self).timer, delta_ms),
            final(self).lerp_rate == old(self).lerp_rate,
            final(self).chain@ == frame_chain_spec(
                old(self).chain@,
                input,
                tick_fires(old(self).timer, delta_ms),
                events@.map_values(|e: TreatEatenEvent| e.treat_entity),
            ),
            final(self).renders@.len() == final(self).chain@.len(),
            forall|k: int|
                0 <= k < old(self).renders@.len() ==> {
                    &&& (#[trigger] final(self).renders@[k]).x == approach_spec(
                        old(self).renders@[k].x as int,
                        milli_of(final(self).chain@[k].pos.position.x),
                        old(self).lerp_rate.rate * delta_ms,
                    )
                    &&& final(self).renders@[k].y == approach_spec(
                        old(self).renders@[k].y as int,
                        milli_of(final(self).chain@[k].pos.position.y),
                        old(self).lerp_rate.rate * delta_ms,
                    )
                },
            forall|k: int|
                old(self).renders@.len() <= k < final(self).renders@.len() ==> {
                    &&& (#[trigger] final(self).renders@[k]).x == milli_of(
                        final(self).chain@[k].pos.position.x,
                    )
                    &&& final(self).renders@[k].y == milli_of(
                        final(self).chain@[k].pos.position.y,
                    )
                },
    {
        let ghost orig = self.chain@;
        self.chain.apply_input(input);
        proof {
            assert(self.chain@ == latched_seq(orig, input));
        }
        let ghost latched = self.chain@;
        let fired = self.timer.tick(delta_ms);
        if fired {
            proof {
                assert(latched[0].pos == orig[0].pos);
                assert(is_dir_intent(latched[0].direction));
                assert(head_step_fits(latched));
            }
            self.chain.step();
        }
        let ghost moved = self.chain@;
        self.chain.grow_many(events);
        proof {
            lemma_grow_all_len(moved, events@.map_values(|e: TreatEatenEvent| e.treat_entity));
            assert(self.chain@.len() >= moved.len());
            assert(moved.len() == orig.len());
        }
        let ghost grown = self.chain@;
        let ghost old_count = self.renders@.len();
        let ghost timer_after = self.timer;

        // A rendered position for each segment spliced in this frame,
        // sitting exactly on its spawn cell.
        let n = self.chain.len();
        while self.renders.len() < n
            invariant
                n == grown.len(),
                grown == self.chain@,
                self.timer == timer_after,
                self.lerp_rate == old(self).lerp_rate,
                old_count == old(self).renders@.len(),
                old_count <= self.renders@.len() <= n,
                forall|k: int|
                    0 <= k < old_count ==> (#[trigger] self.renders@[k]) == old(self).renders@[k],
                forall|k: int|
                    old_count <= k < self.renders@.len() ==> {
                        &&& (#[trigger] self.renders@[k]).x == milli_of(
                            grown[k].pos.position.x,
                        )
                        &&& self.renders@[k].y == milli_of(grown[k].pos.position.y)
                        &&& render_in_range(self.renders@[k])
                    },
            decreases n - self.renders.len(),
        {
            let k = self.renders.len();
            let cell = self.chain.segments[k].pos.position;
            self.renders.push(RenderPos::from_cell(cell));
        }

        // Ease every rendered position toward its segment's current cell.
        let ghost started = self.renders@;
        let mut k: usize = 0;
        while k < n
            invariant
                n == grown.len(),
                grown == self.chain@,
                self.timer == timer_after,
                self.lerp_rate == old(self).lerp_rate,
                started.len() == n,
                self.renders@.len() == n,
                forall|j: int| 0 <= j < n ==> render_in_range(#[trigger] started[j]),
                forall|j: int|
                    k <= j < n ==> (#[trigger] self.renders@[j]) == started[j],
                forall|j: int|
                    0 <= j < k ==> {
                        &&& (#[trigger] self.renders@[j]).x == approach_spec(
                            started[j].x as int,
                            milli_of(grown[j].pos.position.x),
                            self.lerp_rate.rate * delta_ms,
                        )
                        &&& self.renders@[j].y == approach_spec(
                            started[j].y as int,
                            milli_of(grown[j].pos.position.y),
                            self.lerp_rate.rate * delta_ms,
                        )
                        &&& render_in_range(self.renders@[j])
                    },
            decreases n - k,
        {
            let cell = self.chain.segments[k].pos.position;
            let mut rp = self.renders[k];
            rp.interpolate(cell, self.lerp_rate, delta_ms);
            self.renders[k] = rp;
            k += 1;
        }
        proof {
            assert(forall|j: int|
                old_count <= j < n ==> approach_spec(
                    started[j].x as int,
                    milli_of(grown[j].pos.position.x),
                    old(self).lerp_rate.rate * delta_ms,
                ) == milli_of(grown[j].pos.position.x));
            assert(forall|j: int|
                old_count <= j < n ==> approach_spec(
                    started[j].y as int,
                    milli_of(grown[j].pos.position.y),
                    old(self).lerp_rate.rate * delta_ms,
                ) == milli_of(grown[j].pos.position.y));
        }
    }
}

} // verus!
