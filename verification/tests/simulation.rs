use snake_core::chain::Chain;
use snake_core::chain::Segment;
use snake_core::debug::DebugPlugin;
use snake_core::game::GameState;
use snake_core::grid::GridVec;
use snake_core::grid::Position;
use snake_core::input::InputSnapshot;
use snake_core::input::latch_direction;
use snake_core::interp::LerpRate;
use snake_core::interp::RenderPos;
use snake_core::level::SnakeTreat;
use snake_core::level::TreatEatenEvent;
use snake_core::level::collisions;
use snake_core::timer::MovementTimer;

fn cell(x: i32, y: i32) -> GridVec {
    GridVec::new(x, y)
}

fn no_keys() -> InputSnapshot {
    InputSnapshot { left: false, right: false, up: false, down: false }
}

/// A well-formed three-segment chain along the x axis, head first at
/// `(2, 0)` moving in `(1, 0)`, tail last at `(0, 0)`.
fn three_chain() -> Chain {
    Chain {
        segments: vec![
            Segment {
                id: 1,
                pos: Position { position: cell(2, 0), prev_position: cell(1, 0) },
                direction: cell(1, 0),
                link: Some(2),
            },
            Segment {
                id: 2,
                pos: Position { position: cell(1, 0), prev_position: cell(0, 0) },
                direction: cell(0, 0),
                link: Some(3),
            },
            Segment {
                id: 3,
                pos: Position { position: cell(0, 0), prev_position: cell(0, 0) },
                direction: cell(0, 0),
                link: None,
            },
        ],
    }
}

#[test]
fn timer_accumulates_without_firing() {
    let mut timer = MovementTimer::new(250);
    assert!(!timer.tick(100));
    assert_eq!(timer.elapsed_ms, 100);
    assert!(!timer.tick(100));
    assert_eq!(timer.elapsed_ms, 200);
}

#[test]
fn timer_fires_and_carries_remainder() {
    let mut timer = MovementTimer::new(250);
    assert!(!timer.tick(200));
    assert!(timer.tick(100));
    assert_eq!(timer.elapsed_ms, 50);
}

#[test]
fn timer_large_delta_fires_once_and_wraps() {
    let mut timer = MovementTimer::new(250);
    assert!(timer.tick(1000));
    assert_eq!(timer.elapsed_ms, 0);
    let mut timer = MovementTimer::new(250);
    assert!(timer.tick(640));
    assert_eq!(timer.elapsed_ms, 140);
}

#[test]
fn timer_zero_interval_fires_every_frame() {
    let mut timer = MovementTimer::new(0);
    assert!(timer.tick(0));
    assert!(timer.tick(7));
    assert_eq!(timer.elapsed_ms, 0);
}

#[test]
fn timer_retune_keeps_progress() {
    let mut timer = MovementTimer::new(250);
    assert!(!timer.tick(200));
    timer.set_interval(500);
    assert_eq!(timer.elapsed_ms, 200);
    assert!(!timer.tick(200));
    assert!(timer.tick(100));
}

#[test]
fn timer_retune_below_progress_fires_only_once() {
    let mut timer = MovementTimer::new(250);
    assert!(!timer.tick(200));
    // Dropping the interval below the accumulated 200 ms owes one fire,
    // not one per interval now covered.
    timer.set_interval(60);
    assert!(timer.tick(0));
    assert_eq!(timer.elapsed_ms, 20);
    assert!(!timer.tick(0));
}

#[test]
fn debug_surface_clamps_step_duration() {
    let mut timer = MovementTimer::new(250);
    DebugPlugin::set_step_duration(&mut timer, 400);
    assert_eq!(timer.interval_ms, 400);
    DebugPlugin::set_step_duration(&mut timer, 5000);
    assert_eq!(timer.interval_ms, 1000);
}

#[test]
fn debug_surface_clamps_lerp_rate() {
    let mut rate = LerpRate { rate: 5 };
    DebugPlugin::set_lerp_rate(&mut rate, 20);
    assert_eq!(rate.rate, 20);
    DebugPlugin::set_lerp_rate(&mut rate, 70000);
    assert_eq!(rate.rate, 1000);
}

#[test]
fn anti_reversal_rejects_opposite_and_takes_orthogonal() {
    // The head just stepped by (1, 0): position - prev_position = (1, 0).
    let p = Position { position: cell(3, 0), prev_position: cell(2, 0) };
    let current = cell(1, 0);

    // Requesting (-1, 0), the exact reverse, leaves the intent unchanged.
    let right_only = InputSnapshot { left: false, right: true, up: false, down: false };
    assert_eq!(latch_direction(right_only, &p, current), cell(1, 0));

    // Requesting (0, 1) changes it.
    let up_only = InputSnapshot { left: false, right: false, up: true, down: false };
    assert_eq!(latch_direction(up_only, &p, current), cell(0, 1));
}

#[test]
fn fresh_head_rejects_nothing() {
    // A freshly spawned head has not moved: both cells coincide.
    let p = Position { position: cell(0, 0), prev_position: cell(0, 0) };
    let right_only = InputSnapshot { left: false, right: true, up: false, down: false };
    assert_eq!(latch_direction(right_only, &p, cell(0, 0)), cell(-1, 0));
}

#[test]
fn held_keys_apply_in_fixed_priority_order() {
    // With every key held and nothing blocked, the last one applied in the
    // fixed order left, right, up, down wins: down.
    let p = Position { position: cell(0, 0), prev_position: cell(0, 0) };
    let all = InputSnapshot { left: true, right: true, up: true, down: true };
    assert_eq!(latch_direction(all, &p, cell(0, 0)), cell(0, -1));

    // A snake moving up blocks the reversing down key, so up wins instead.
    let moved_up = Position { position: cell(0, 1), prev_position: cell(0, 0) };
    assert_eq!(latch_direction(all, &moved_up, cell(0, 1)), cell(0, 1));
}

#[test]
fn step_shifts_cells_one_place_along_the_chain() {
    let mut chain = three_chain();
    chain.step();
    // The head advanced by its direction, every other segment took its
    // head-ward neighbor's old cell.
    assert_eq!(chain.segments[0].pos.position, cell(3, 0));
    assert_eq!(chain.segments[0].pos.prev_position, cell(2, 0));
    assert_eq!(chain.segments[1].pos.position, cell(2, 0));
    assert_eq!(chain.segments[1].pos.prev_position, cell(1, 0));
    assert_eq!(chain.segments[2].pos.position, cell(1, 0));
    assert_eq!(chain.segments[2].pos.prev_position, cell(0, 0));
    // The topology is untouched.
    assert_eq!(chain.segments[0].link, Some(2));
    assert_eq!(chain.segments[1].link, Some(3));
    assert_eq!(chain.segments[2].link, None);
}

#[test]
fn step_without_intent_still_shifts_the_body() {
    let mut chain = three_chain();
    chain.segments[0].direction = cell(0, 0);
    chain.step();
    // The head stays; the body still closes up behind it.
    assert_eq!(chain.segments[0].pos.position, cell(2, 0));
    assert_eq!(chain.segments[0].pos.prev_position, cell(1, 0));
    assert_eq!(chain.segments[1].pos.position, cell(2, 0));
    assert_eq!(chain.segments[2].pos.position, cell(1, 0));
}

#[test]
fn growth_splices_new_tail_on_vacated_cell() {
    let mut chain = three_chain();
    let before = chain.len();
    chain.grow(TreatEatenEvent { treat_entity: 9 });
    assert_eq!(chain.len(), before + 1);
    // The old tail now links to the new segment and lost the tail role.
    assert_eq!(chain.segments[2].link, Some(9));
    // The new tail rests on the cell the old tail just vacated.
    let tail = chain.tail();
    assert_eq!(tail.id, 9);
    assert_eq!(tail.pos.position, cell(0, 0));
    assert_eq!(tail.pos.prev_position, cell(0, 0));
    assert_eq!(tail.link, None);
    assert_eq!(tail.direction, cell(0, 0));
}

#[test]
fn growth_ignores_known_identity() {
    let mut chain = three_chain();
    chain.grow(TreatEatenEvent { treat_entity: 2 });
    assert_eq!(chain.len(), 3);
    assert_eq!(chain.segments[2].link, None);
}

#[test]
fn two_notifications_in_one_tick_chain_correctly() {
    let mut chain = three_chain();
    let events = vec![
        TreatEatenEvent { treat_entity: 10 },
        TreatEatenEvent { treat_entity: 11 },
    ];
    chain.grow_many(&events);
    // Chain length increased by exactly two.
    assert_eq!(chain.len(), 5);
    // The first new segment roots off the old tail, the second off the
    // first, not both off the same old tail.
    assert_eq!(chain.segments[2].link, Some(10));
    assert_eq!(chain.segments[3].id, 10);
    assert_eq!(chain.segments[3].link, Some(11));
    assert_eq!(chain.segments[4].id, 11);
    assert_eq!(chain.segments[4].link, None);
}

#[test]
fn collisions_raise_one_event_per_occupied_treat() {
    let chain = three_chain();
    let treats = vec![
        SnakeTreat { id: 7, position: cell(0, 0) },
        SnakeTreat { id: 8, position: cell(5, 5) },
        SnakeTreat { id: 9, position: cell(2, 0) },
    ];
    let events = collisions(&chain, &treats);
    assert_eq!(events.len(), 2);
    assert_eq!(events[0].treat_entity, 7);
    assert_eq!(events[1].treat_entity, 9);
}

#[test]
fn interpolation_moves_a_truncated_fraction() {
    // rate 5 per second over 100 ms moves half the remaining distance.
    let mut p = RenderPos { x: 0, y: 0 };
    p.interpolate(cell(1, 0), LerpRate { rate: 5 }, 100);
    assert_eq!(p.x, 500);
    assert_eq!(p.y, 0);
    p.interpolate(cell(1, 0), LerpRate { rate: 5 }, 100);
    assert_eq!(p.x, 750);
}

#[test]
fn interpolation_never_overshoots_and_strictly_approaches() {
    let mut p = RenderPos { x: 0, y: 0 };
    let mut last: i64 = 1000 - p.x;
    for _ in 0..200 {
        p.interpolate(cell(1, 0), LerpRate { rate: 5 }, 100);
        let dist: i64 = 1000 - p.x;
        assert!(dist >= 0, "overshot the target");
        if last > 0 {
            assert!(dist < last, "distance failed to shrink");
        }
        last = dist;
    }
    // The minimum step of one thousandth closes the gap entirely.
    assert_eq!(p.x, 1000);
}

#[test]
fn interpolation_snaps_on_whole_fraction() {
    // rate 10 per second over 100 ms is a whole fraction: snap to target.
    let mut p = RenderPos { x: -3000, y: 2000 };
    p.interpolate(cell(4, -1), LerpRate { rate: 10 }, 100);
    assert_eq!(p.x, 4000);
    assert_eq!(p.y, -1000);
}

#[test]
fn end_to_end_first_tick_and_growth() {
    // Chain of length 1 at (0, 0), the left key held (delta (1, 0) in the
    // local convention), the default 250 ms interval.
    let mut game = GameState::new(1, cell(0, 0));
    assert_eq!(game.timer.interval_ms, 250);
    let left = InputSnapshot { left: true, right: false, up: false, down: false };
    let no_events: Vec<TreatEatenEvent> = vec![];

    // One scheduled tick: head and tail coincide at (1, 0), coming from (0, 0).
    game.advance_frame(left, 250, &no_events);
    assert_eq!(game.chain.len(), 1);
    assert_eq!(game.chain.segments[0].pos.position, cell(1, 0));
    assert_eq!(game.chain.segments[0].pos.prev_position, cell(0, 0));

    // A consumption notification naming identity 42: length 2, the new
    // tail rests at (0, 0), the old tail links to it from (1, 0).
    let eaten = vec![TreatEatenEvent { treat_entity: 42 }];
    game.advance_frame(no_keys(), 0, &eaten);
    assert_eq!(game.chain.len(), 2);
    assert_eq!(game.chain.segments[0].pos.position, cell(1, 0));
    assert_eq!(game.chain.segments[0].link, Some(42));
    let tail = game.chain.tail();
    assert_eq!(tail.id, 42);
    assert_eq!(tail.pos.position, cell(0, 0));
    assert_eq!(tail.link, None);
    // The spliced segment's rendered position starts on its spawn cell.
    assert_eq!(game.renders.len(), 2);
    assert_eq!(game.renders[1].x, 0);
    assert_eq!(game.renders[1].y, 0);
}

#[test]
fn frame_without_fire_only_latches_and_eases() {
    let mut game = GameState::new(1, cell(0, 0));
    let up = InputSnapshot { left: false, right: false, up: true, down: false };
    let no_events: Vec<TreatEatenEvent> = vec![];
    game.advance_frame(up, 100, &no_events);
    // No tick fired: the cell is unchanged, the intent is latched.
    assert_eq!(game.chain.segments[0].pos.position, cell(0, 0));
    assert_eq!(game.chain.segments[0].direction, cell(0, 1));
    assert_eq!(game.timer.elapsed_ms, 100);
}
