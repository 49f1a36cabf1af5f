//! The body chain: topology, tail-to-head propagation, and growth.
//!
//! Segments are held in tail-ward order: index 0 is the head, the last index
//! is the tail. Each segment's `link` names the identity of its tail-ward
//! neighbor, and the tail alone carries `link == None`, so the link relation
//! forms a single simple path from tail to head. On a tick the propagation
//! shifts every non-head segment onto its head-ward neighbor's pre-update
//! cell and then advances the head by its direction intent; growth splices a
//! new tail onto the cell the old tail just vacated.

use vstd::prelude::*;

use crate::grid::GridVec;
use crate::grid::Position;
use crate::grid::is_dir_intent;
use crate::grid::step_fits;
use crate::grid::zero_vec;
use crate::input::InputSnapshot;
use crate::input::latch_direction;
use crate::input::latch_spec;
use crate::level::TreatEatenEvent;

verus! {

/// One unit of the chain: its stable identity, its two grid cells, its
/// direction intent, and the identity of its tail-ward neighbor.
#[derive(Clone, Copy, Debug)]
pub struct Segment {
    /// Stable identity, unique within the chain.
    pub id: u64,
    /// Current and previous grid cell.
    pub pos: Position,
    /// Step delta for the next tick; zero on every segment but the head.
    pub direction: GridVec,
    /// Identity of the neighbor one step tail-ward; `None` marks the tail.
    pub link: Option<u64>,
}

/// The whole chain, head first, tail last.
pub struct Chain {
    pub segments: Vec<Segment>,
}

/// The link relation is a single simple path from tail to head: the tail
/// alone ends it with `None`, and every other segment names its tail-ward
/// neighbor, the one stored just behind it.
pub open spec fn links_form_path(s: Seq<Segment>) -> bool {
    &&& s.len() >= 1
    &&& s[s.len() - 1].link is None
    &&& forall|i: int| 0 <= i < s.len() - 1 ==> (#[trigger] s[i].link) == Some(s[i + 1].id)
}

/// No two segments share an identity.
pub open spec fn ids_distinct(s: Seq<Segment>) -> bool {
    forall|i: int, j: int| 0 <= i < j < s.len() ==> s[i].id != s[j].id
}

/// Only the head may hold a direction intent; every body segment's is zero.
pub open spec fn body_inert(s: Seq<Segment>) -> bool {
    forall|i: int| 1 <= i < s.len() ==> (#[trigger] s[i].direction) == zero_vec()
}

/// Well-formedness of a chain's segment sequence.
pub open spec fn wf_seq(s: Seq<Segment>) -> bool {
    &&& links_form_path(s)
    &&& ids_distinct(s)
    &&& body_inert(s)
    &&& is_dir_intent(s[0].direction)
}

/// Whether some segment carries the identity `id`.
pub open spec fn has_id(s: Seq<Segment>, id: u64) -> bool {
    exists|i: int| 0 <= i < s.len() && (#[trigger] s[i].id) == id
}

/// The grid cells the segments occupy, head first.
pub open spec fn positions(s: Seq<Segment>) -> Seq<GridVec> {
    s.map_values(|seg: Segment| seg.pos.position)
}

/// Whether advancing the head by its intent stays within the coordinate type.
pub open spec fn head_step_fits(s: Seq<Segment>) -> bool {
    s[0].direction == zero_vec() || step_fits(s[0].pos.position, s[0].direction)
}

/// The cell the head reaches by taking its direction intent.
pub open spec fn head_target(s: Seq<Segment>) -> GridVec {
    GridVec {
        x: (s[0].pos.position.x + s[0].direction.x) as i32,
        y: (s[0].pos.position.y + s[0].direction.y) as i32,
    }
}

/// A segment advanced by its own direction intent: it leaves its cell and
/// remembers it as the previous one.
pub open spec fn advanced(seg: Segment) -> Segment {
    Segment {
        id: seg.id,
        pos: Position {
            position: GridVec {
                x: (seg.pos.position.x + seg.direction.x) as i32,
                y: (seg.pos.position.y + seg.direction.y) as i32,
            },
            prev_position: seg.pos.position,
        },
        direction: seg.direction,
        link: seg.link,
    }
}

/// The tail-to-head shift: every non-head segment steps onto its head-ward
/// neighbor's pre-update cell and remembers its own; the head is untouched.
pub open spec fn shifted_seq(s: Seq<Segment>) -> Seq<Segment> {
    Seq::new(
        s.len(),
        |i: int|
            if i == 0 {
                s[0]
            } else {
                Segment {
                    id: s[i].id,
                    pos: Position {
                        position: s[i - 1].pos.position,
                        prev_position: s[i].pos.position,
                    },
                    direction: s[i].direction,
                    link: s[i].link,
                }
            },
    )
}

/// One whole discrete step: the tail-to-head shift, then every segment with
/// a nonzero direction intent (under well-formedness, only the head)
/// advances by it.
pub open spec fn step_spec(s: Seq<Segment>) -> Seq<Segment> {
    shifted_seq(s).map_values(
        |seg: Segment|
            if seg.direction == zero_vec() {
                seg
            } else {
                advanced(seg)
            },
    )
}

/// The new tail spliced in for a consumed treat of identity `id`: it takes
/// the cell the old tail came from, with no direction intent.
pub open spec fn spliced_tail(old_tail: Segment, id: u64) -> Segment {
    Segment {
        id,
        pos: Position {
            position: old_tail.pos.prev_position,
            prev_position: old_tail.pos.prev_position,
        },
        direction: zero_vec(),
        link: None,
    }
}

/// One growth event: an unknown identity extends the chain by one segment
/// rooted off the old tail; an identity already in the chain is ignored.
pub open spec fn grow_spec(s: Seq<Segment>, id: u64) -> Seq<Segment> {
    if has_id(s, id) {
        s
    } else {
        let old_tail = s[s.len() - 1];
        s.update(
            s.len() - 1,
            Segment {
                id: old_tail.id,
                pos: old_tail.pos,
                direction: old_tail.direction,
                link: Some(id),
            },
        ).push(spliced_tail(old_tail, id))
    }
}

/// Whether a queue of notifications names pairwise-distinct identities,
/// none of them already in the chain — true of any run, where each treat
/// exists once and is consumed at most once.
pub open spec fn events_fresh(s: Seq<Segment>, events: Seq<TreatEatenEvent>) -> bool {
    &&& forall|k: int|
        0 <= k < events.len() ==> !has_id(s, #[trigger] events[k].treat_entity)
    &&& forall|k: int, l: int|
        0 <= k < l < events.len() ==> events[k].treat_entity != events[l].treat_entity
}

/// A whole queue of growth events, applied in arrival order.
pub open spec fn grow_all_spec(s: Seq<Segment>, ids: Seq<u64>) -> Seq<Segment>
    decreases ids.len(),
{
    if ids.len() == 0 {
        s
    } else {
        grow_spec(grow_all_spec(s, ids.drop_last()), ids.last())
    }
}

/// Growth never removes segments: a queue of events can only lengthen the
/// chain.
pub proof fn lemma_grow_all_len(s: Seq<Segment>, ids: Seq<u64>)
    requires
        s.len() >= 1,
    ensures
        grow_all_spec(s, ids).len() >= s.len(),
    decreases ids.len(),
{
    if ids.len() > 0 {
        lemma_grow_all_len(s, ids.drop_last());
    }
}

/// The identities a queue of growth events leaves in the chain: the old
/// ones, plus every event identity that was not already present.
pub proof fn lemma_grow_all_ids(s: Seq<Segment>, ids: Seq<u64>, id: u64)
    requires
        s.len() >= 1,
    ensures
        has_id(grow_all_spec(s, ids), id) <==> has_id(s, id) || ids.contains(id),
    decreases ids.len(),
{
    if ids.len() > 0 {
        lemma_grow_all_ids(s, ids.drop_last(), id);
        lemma_grow_all_len(s, ids.drop_last());
        let before = grow_all_spec(s, ids.drop_last());
        let after = grow_spec(before, ids.last());
        if !has_id(before, ids.last()) {
            assert(after[after.len() - 1].id == ids.last());
            assert(forall|i: int| 0 <= i < before.len() ==> after[i].id == before[i].id);
            assert(has_id(after, id) ==> has_id(before, id) || id == ids.last()) by {
                if has_id(after, id) {
                    let i = choose|i: int| 0 <= i < after.len() && (#[trigger] after[i].id) == id;
                    if i < before.len() {
                        assert(before[i].id == id);
                        assert(has_id(before, id));
                    } else {
                        assert(i == after.len() - 1);
                        assert(id == ids.last());
                    }
                }
            }
            assert(has_id(before, id) ==> has_id(after, id)) by {
                if has_id(before, id) {
                    let i = choose|i: int|
                        0 <= i < before.len() && (#[trigger] before[i].id) == id;
                    assert(after[i].id == id);
                    assert(has_id(after, id));
                }
            }
            assert(id == ids.last() ==> has_id(after, id)) by {
                if id == ids.last() {
                    assert(after[after.len() - 1].id == id);
                    assert(has_id(after, id));
                }
            }
        }
        assert(ids.contains(id) <==> ids.drop_last().contains(id) || id == ids.last()) by {
            if ids.contains(id) {
                let i = choose|i: int| 0 <= i < ids.len() && ids[i] == id;
                if i < ids.len() - 1 {
                    assert(ids.drop_last()[i] == id);
                }
            }
            if ids.drop_last().contains(id) {
                let i = choose|i: int| 0 <= i < ids.len() - 1 && ids.drop_last()[i] == id;
                assert(ids[i] == id);
            }
            if id == ids.last() {
                assert(ids[ids.len() - 1] == id);
            }
        }
    }
}

/// Growth is monotonic: a queue of pairwise-distinct, previously unknown
/// identities grows the chain by exactly its length, one segment per
/// consumed treat, and removes nothing.
pub proof fn lemma_growth_monotonic(s: Seq<Segment>, ids: Seq<u64>)
    requires
        s.len() >= 1,
        forall|k: int| 0 <= k < ids.len() ==> !has_id(s, #[trigger] ids[k]),
        forall|k: int, l: int| 0 <= k < l < ids.len() ==> ids[k] != ids[l],
    ensures
        grow_all_spec(s, ids).len() == s.len() + ids.len(),
    decreases ids.len(),
{
    if ids.len() > 0 {
        let front = ids.drop_last();
        assert(forall|k: int| 0 <= k < front.len() ==> !has_id(s, #[trigger] front[k]));
        lemma_growth_monotonic(s, front);
        let before = grow_all_spec(s, front);
        lemma_grow_all_ids(s, front, ids.last());
        assert(!front.contains(ids.last())) by {
            if front.contains(ids.last()) {
                let i = choose|i: int| 0 <= i < front.len() && front[i] == ids.last();
                assert(ids[i] == ids[ids.len() - 1]);
            }
        }
        assert(!has_id(before, ids.last()));
    }
}

impl Chain {
    /// The chain's mathematical content: its segment sequence, head first.
    pub open spec fn view(self) -> Seq<Segment> {
        self.segments@
    }

    /// Well-formedness: the link path, distinct identities, an inert body,
    /// and a head intent that is zero or a unit delta.
    pub open spec fn wf(self) -> bool {
        wf_seq(self@)
    }

    /// The initial chain: a single segment, at once head and tail, resting
    /// on `start` with no direction intent.
    pub fn new(id: u64, start: GridVec) -> (c: Chain)
        ensures
            c.wf(),
            c@.len() == 1,
            c@[0] == (Segment {
                id,
                pos: Position { position: start, prev_position: start },
                direction: zero_vec(),
                link: None,
            }),
    {
        let seg = Segment {
            id,
            pos: Position { position: start, prev_position: start },
            direction: GridVec { x: 0, y: 0 },
            link: None,
        };
        let mut segments: Vec<Segment> = Vec::new();
        segments.push(seg);
        Chain { segments }
    }

    /// How many segments the chain holds.
    pub fn len(&self) -> (n: usize)
        ensures
            n == self@.len(),
    {
        self.segments.len()
    }

    /// The head segment.
    pub fn head(&self) -> (seg: Segment)
        requires
            self@.len() >= 1,
        ensures
            seg == self@[0],
    {
        self.segments[0]
    }

    /// The tail segment.
    pub fn tail(&self) -> (seg: Segment)
        requires
            self@.len() >= 1,
        ensures
            seg == self@[self@.len() - 1],
    {
        self.segments[self.segments.len() - 1]
    }

    /// Whether some segment carries the identity `id`.
    pub fn contains_id(&self, id: u64) -> (r: bool)
        ensures
            r == has_id(self@, id),
    {
        let n = self.segments.len();
        let mut i: usize = 0;
        while i < n
            invariant
                n == self@.len(),
                0 <= i <= n,
                forall|k: int| 0 <= k < i ==> (#[trigger] self@[k].id) != id,
            decreases n - i,
        {
            if self.segments[i].id == id {
                return true;
            }
            i += 1;
        }
        false
    }

    /// Whether some segment currently occupies the cell `cell`.
    pub fn occupies(&self, cell: GridVec) -> (r: bool)
        ensures
            r == positions(self@).contains(cell),
    {
        let n = self.segments.len();
        let mut i: usize = 0;
        while i < n
            invariant
                n == self@.len(),
                0 <= i <= n,
                forall|k: int| 0 <= k < i ==> (#[trigger] self@[k].pos.position) != cell,
            decreases n - i,
        {
            if self.segments[i].pos.position == cell {
                assert(positions(self@)[i as int] == cell);
                return true;
            }
            i += 1;
        }
        assert(forall|k: int| 0 <= k < n ==> positions(self@)[k] != cell);
        false
    }

    /// Latches this frame's input snapshot into the head's direction intent;
    /// everything else is untouched.
    pub fn apply_input(&mut self, input: InputSnapshot)
        requires
            old(self).wf(),
        ensures
            final(self).wf(),
            final(self)@ == old(self)@.update(
                0,
                Segment {
                    id: old(self)@[0].id,
                    pos: old(self)@[0].pos,
                    direction: latch_spec(input, old(self)@[0].pos, old(self)@[0].direction),
                    link: old(self)@[0].link,
                },
            ),
    {
        let mut head = self.segments[0];
        head.direction = latch_direction(input, &head.pos, head.direction);
        self.segments[0] = head;
        proof {
            let s = old(self)@;
            let t = self@;
            assert(t[t.len() - 1].link == s[s.len() - 1].link);
            assert(forall|i: int| 0 <= i < t.len() - 1 ==> (#[trigger] t[i].link) == Some(
                t[i + 1].id,
            ));
        }
    }

    /// One discrete step: the tail-to-head shift, then the head advances by
    /// its intent. Every non-head segment reads its neighbor's pre-update
    /// cell, so the whole step behaves as a simultaneous update.
    pub fn step(&mut self)
        requires
            old(self).wf(),
            head_step_fits(old(self)@),
        ensures
            final(self).wf(),
            final(self)@ == step_spec(old(self)@),
            final(self)@.len() == old(self)@.len(),
            forall|i: int|
                1 <= i < old(self)@.len() ==> (#[trigger] final(self)@[i]) == (Segment {
                    id: old(self)@[i].id,
                    pos: Position {
                        position: old(self)@[i - 1].pos.position,
                        prev_position: old(self)@[i].pos.position,
                    },
                    direction: old(self)@[i].direction,
                    link: old(self)@[i].link,
                }),
            old(self)@[0].direction == zero_vec() ==> final(self)@[0] == old(self)@[0],
            old(self)@[0].direction != zero_vec() ==> final(self)@[0] == (Segment {
                id: old(self)@[0].id,
                pos: Position {
                    position: head_target(old(self)@),
                    prev_position: old(self)@[0].pos.position,
                },
                direction: old(self)@[0].direction,
                link: old(self)@[0].link,
            }),
    {
        let ghost orig = self@;
        let n = self.segments.len();
        // Tail-to-head traversal: the segment at index i steps onto the cell
        // of its head-ward neighbor at index i - 1, which is processed later
        // and so still holds its pre-update cell.
        let mut i: usize = n - 1;
        while i >= 1
            invariant
                orig.len() == n,
                wf_seq(orig),
                0 <= i <= n - 1,
                self@.len() == n,
                forall|k: int| 0 <= k <= i ==> (#[trigger] self@[k]) == orig[k],
                forall|k: int| i < k < n ==> (#[trigger] self@[k]) == shifted_seq(orig)[k],
            decreases i,
        {
            let neighbor_cell = self.segments[i - 1].pos.position;
            let mut seg = self.segments[i];
            seg.pos.prev_position = seg.pos.position;
            seg.pos.position = neighbor_cell;
            self.segments[i] = seg;
            i -= 1;
        }
        let ghost mid = self@;
        proof {
            assert(mid =~= shifted_seq(orig));
        }
        // Apply the direction intents: under well-formedness only the head's
        // can be nonzero.
        let mut j: usize = 0;
        while j < n
            invariant
                orig.len() == n,
                wf_seq(orig),
                head_step_fits(orig),
                mid == shifted_seq(orig),
                self@.len() == n,
                forall|k: int|
                    0 <= k < j ==> (#[trigger] self@[k]) == (if mid[k].direction == zero_vec() {
                        mid[k]
                    } else {
                        advanced(mid[k])
                    }),
                forall|k: int| j <= k < n ==> (#[trigger] self@[k]) == mid[k],
            decreases n - j,
        {
            let seg = self.segments[j];
            if seg.direction.x != 0 || seg.direction.y != 0 {
                proof {
                    assert(mid[j as int].direction == orig[j as int].direction);
                    if j >= 1 {
                        assert(orig[j as int].direction == zero_vec());
                    }
                    assert(j == 0);
                    assert(step_fits(orig[0].pos.position, orig[0].direction));
                }
                let mut moved = seg;
                moved.pos.prev_position = moved.pos.position;
                moved.pos.position = GridVec {
                    x: moved.pos.position.x + seg.direction.x,
                    y: moved.pos.position.y + seg.direction.y,
                };
                self.segments[j] = moved;
                proof {
                    assert(self@[j as int] == advanced(mid[j as int]));
                }
            }
            j += 1;
        }
        proof {
            assert(self@ =~= step_spec(orig));
            let t = self@;
            assert(forall|k: int| 0 <= k < n ==> t[k].link == orig[k].link);
            assert(forall|k: int| 0 <= k < n ==> t[k].id == orig[k].id);
            assert(forall|k: int| 0 <= k < n ==> t[k].direction == orig[k].direction);
            assert(t[t.len() - 1].link is None);
            assert(forall|i2: int| 0 <= i2 < t.len() - 1 ==> (#[trigger] t[i2].link) == Some(
                t[i2 + 1].id,
            ));
        }
    }

    /// One growth event: splices a segment of the event's identity onto the
    /// cell the tail just vacated and re-roots the tail role there. An
    /// identity already in the chain is ignored, since a treat can be
    /// consumed only once.
    pub fn grow(&mut self, event: TreatEatenEvent)
        requires
            old(self).wf(),
        ensures
            final(self).wf(),
            final(self)@ == grow_spec(old(self)@, event.treat_entity),
            has_id(old(self)@, event.treat_entity) ==> final(self)@ == old(self)@,
            !has_id(old(self)@, event.treat_entity) ==> {
                &&& final(self)@.len() == old(self)@.len() + 1
                &&& final(self)@.last() == spliced_tail(
                    old(self)@.last(),
                    event.treat_entity,
                )
                &&& final(self)@[old(self)@.len() - 1].link == Some(event.treat_entity)
            },
    {
        if self.contains_id(event.treat_entity) {
            return;
        }
        let n = self.segments.len();
        let mut old_tail = self.segments[n - 1];
        let new_tail = Segment {
            id: event.treat_entity,
            pos: Position {
                position: old_tail.pos.prev_position,
                prev_position: old_tail.pos.prev_position,
            },
            direction: GridVec { x: 0, y: 0 },
            link: None,
        };
        old_tail.link = Some(event.treat_entity);
        self.segments[n - 1] = old_tail;
        self.segments.push(new_tail);
        proof {
            let s = old(self)@;
            let t = self@;
            assert(t == grow_spec(s, event.treat_entity));
            assert(t[t.len() - 1].link is None);
            assert(forall|i: int| 0 <= i < t.len() - 1 ==> (#[trigger] t[i].link) == Some(
                t[i + 1].id,
            ));
            assert(ids_distinct(t)) by {
                assert(forall|i: int| 0 <= i < s.len() ==> t[i].id == s[i].id);
            }
            assert(body_inert(t));
        }
    }

    /// Drains a queue of consumption notifications in arrival order, each
    /// extending the chain by one segment rooted off the previous new tail.
    /// Growth is monotonic: a queue of pairwise-distinct, previously unknown
    /// identities lengthens the chain by exactly the queue's length.
    pub fn grow_many(&mut self, events: &Vec<TreatEatenEvent>)
        requires
            old(self).wf(),
        ensures
            final(self).wf(),
            final(self)@ == grow_all_spec(
                old(self)@,
                events@.map_values(|e: TreatEatenEvent| e.treat_entity),
            ),
            events_fresh(old(self)@, events@) ==> final(self)@.len() == old(self)@.len()
                + events@.len(),
    {
        let ghost orig = self@;
        let ghost ids = events@.map_values(|e: TreatEatenEvent| e.treat_entity);
        let m = events.len();
        let mut j: usize = 0;
        while j < m
            invariant
                m == events@.len(),
                ids == events@.map_values(|e: TreatEatenEvent| e.treat_entity),
                0 <= j <= m,
                self.wf(),
                self@ == grow_all_spec(orig, ids.take(j as int)),
            decreases m - j,
        {
            self.grow(events[j]);
            proof {
                assert(ids.take(j + 1).drop_last() =~= ids.take(j as int));
                assert(ids.take(j + 1).last() == ids[j as int]);
            }
            j += 1;
        }
        proof {
            assert(ids.take(m as int) =~= ids);
            if events_fresh(orig, events@) {
                assert(forall|k: int| 0 <= k < ids.len() ==> !has_id(orig, #[trigger] ids[k]));
                assert(forall|k: int, l: int| 0 <= k < l < ids.len() ==> ids[k] != ids[l]);
                lemma_growth_monotonic(orig, ids);
            }
        }
    }
}

/// The link relation is a single simple path from tail to head: exactly one
/// segment, the stored tail, ends it with `None`, and every segment but the
/// head is linked from exactly one other, its head-ward neighbor — no
/// cycles, no orphans, for a chain of any length.
pub proof fn lemma_single_simple_path(s: Seq<Segment>)
    requires
        wf_seq(s),
    ensures
        forall|i: int| 0 <= i < s.len() ==> ((#[trigger] s[i].link) is None <==> i == s.len() - 1),
        forall|i: int, j: int|
            #![trigger s[j].link, s[i].id]
            0 <= i < s.len() && 0 <= j < s.len() && s[j].link == Some(s[i].id) ==> j == i - 1,
{
    assert forall|i: int, j: int|
        #![trigger s[j].link, s[i].id]
        0 <= i < s.len() && 0 <= j < s.len() && s[j].link == Some(s[i].id) implies j == i - 1 by {
        assert(j != s.len() - 1);
        assert(s[j].link == Some(s[j + 1].id));
        assert(s[j + 1].id == s[i].id);
        if j + 1 != i {
            assert(false);
        }
    }
}

/// One discrete step shifts the occupied cells by one cell along the chain:
/// head first, the cells afterward are the head's target followed by all the
/// old cells but the tail's, so as a multiset the old cells lose the tail's
/// and gain the head's target.
pub proof fn lemma_step_shifts_positions(s: Seq<Segment>)
    requires
        wf_seq(s),
        head_step_fits(s),
        s[0].direction != zero_vec(),
    ensures
        positions(step_spec(s)) == seq![head_target(s)] + positions(s).drop_last(),
        positions(step_spec(s)).to_multiset() == positions(s).to_multiset().remove(
            positions(s).last(),
        ).insert(head_target(s)),
{
    let before = positions(s);
    let after = positions(step_spec(s));
    assert(after =~= seq![head_target(s)] + before.drop_last());
    let shifted = seq![head_target(s)] + before.drop_last();
    assert(shifted.remove(0) =~= before.drop_last());
    assert(before.remove(before.len() - 1) =~= before.drop_last());
    shifted.to_multiset_ensures();
    before.to_multiset_ensures();
    assert(shifted.remove(0).to_multiset() =~= shifted.to_multiset().remove(shifted[0]));
    assert(before.remove(before.len() - 1).to_multiset() =~= before.to_multiset().remove(
        before[before.len() - 1],
    ));
    assert(shifted.to_multiset().remove(head_target(s)) =~= before.to_multiset().remove(
        before.last(),
    ));
    assert(shifted.to_multiset().contains(head_target(s))) by {
        assert(shifted[0] == head_target(s));
        assert(shifted.contains(head_target(s)));
    }
    assert(shifted.to_multiset() =~= before.to_multiset().remove(before.last()).insert(
        head_target(s),
    ));
}

} // verus!
