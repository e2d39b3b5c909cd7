use rust_space_invader_game::invaders::{
    Direction, Invader, Invaders, FORMATION_COLUMNS, FORMATION_ROWS, MOVE_PERIOD_US,
};
use rust_space_invader_game::{NUM_COLUMNS, NUM_ROWS};

fn swarm(cells: &[(usize, usize)], direction: Direction) -> Invaders {
    let army: Vec<Invader> = cells.iter().map(|&(x, y)| Invader { x, y }).collect();
    Invaders::with_army(army, direction).unwrap()
}

fn cells(invaders: &Invaders) -> Vec<(usize, usize)> {
    invaders.army().iter().map(|invader| (invader.x, invader.y)).collect()
}

#[test]
fn formation_is_eighteen_columns_of_four() {
    let invaders = Invaders::new();
    assert_eq!(invaders.army().len(), FORMATION_COLUMNS * FORMATION_ROWS);
    assert_eq!(invaders.army().len(), 72);
    assert_eq!(invaders.direction(), Direction::Right);
    let mut expected = Vec::new();
    for x in 1..=18 {
        for y in 1..=4 {
            expected.push((2 * x, 2 * y));
        }
    }
    assert_eq!(cells(&invaders), expected);
    assert_eq!(invaders.army()[0], Invader { x: 2, y: 2 });
    assert_eq!(invaders.army()[71], Invader { x: 36, y: 8 });
    assert!(!invaders.all_killed());
    assert!(!invaders.reached_bottom());
}

#[test]
fn swarm_waits_until_the_period_is_over() {
    let mut invaders = swarm(&[(5, 3), (7, 3)], Direction::Right);
    assert!(!invaders.update(MOVE_PERIOD_US - 1));
    assert_eq!(cells(&invaders), vec![(5, 3), (7, 3)]);
    assert!(invaders.update(1));
    assert_eq!(cells(&invaders), vec![(6, 3), (8, 3)]);
    assert_eq!(invaders.direction(), Direction::Right);
}

#[test]
fn period_is_two_seconds() {
    assert_eq!(MOVE_PERIOD_US, 2_000_000);
}

#[test]
fn time_starts_again_with_a_move() {
    let mut invaders = swarm(&[(5, 3)], Direction::Left);
    assert!(invaders.update(5 * MOVE_PERIOD_US));
    assert_eq!(cells(&invaders), vec![(4, 3)]);
    assert!(!invaders.update(MOVE_PERIOD_US - 1));
    assert_eq!(cells(&invaders), vec![(4, 3)]);
    assert!(invaders.update(1));
    assert_eq!(cells(&invaders), vec![(3, 3)]);
}

#[test]
fn swarm_at_the_right_edge_turns_and_descends() {
    let mut invaders = swarm(&[(NUM_COLUMNS - 1, 3)], Direction::Right);
    assert!(invaders.update(MOVE_PERIOD_US));
    assert_eq!(cells(&invaders), vec![(NUM_COLUMNS - 1, 4)]);
    assert_eq!(invaders.direction(), Direction::Left);
    assert!(invaders.update(MOVE_PERIOD_US));
    assert_eq!(cells(&invaders), vec![(NUM_COLUMNS - 2, 4)]);
    assert_eq!(invaders.direction(), Direction::Left);
}

#[test]
fn swarm_at_the_left_edge_turns_and_descends() {
    let mut invaders = swarm(&[(0, 3), (4, 5)], Direction::Left);
    assert!(invaders.update(MOVE_PERIOD_US));
    assert_eq!(cells(&invaders), vec![(0, 4), (4, 6)]);
    assert_eq!(invaders.direction(), Direction::Right);
}

#[test]
fn edge_behind_the_swarm_does_not_stop_it() {
    let mut invaders = swarm(&[(0, 3), (4, 5)], Direction::Right);
    assert!(invaders.update(MOVE_PERIOD_US));
    assert_eq!(cells(&invaders), vec![(1, 3), (5, 5)]);
    assert_eq!(invaders.direction(), Direction::Right);
}

#[test]
fn whole_swarm_descends_when_one_invader_is_at_the_edge() {
    let mut invaders = swarm(&[(10, 2), (39, 6), (20, 4)], Direction::Right);
    assert!(invaders.update(MOVE_PERIOD_US));
    assert_eq!(cells(&invaders), vec![(10, 3), (39, 7), (20, 5)]);
}

#[test]
fn swarm_stays_in_the_grid_over_many_updates() {
    let mut invaders = Invaders::new();
    let mut moves = 0;
    for _ in 0..2_000 {
        if invaders.update(MOVE_PERIOD_US / 2 + 1) {
            moves += 1;
        }
        assert_eq!(invaders.army().len(), 72);
        for invader in invaders.army() {
            assert!(invader.x < NUM_COLUMNS);
            assert!(invader.y < NUM_ROWS);
        }
    }
    assert!(invaders.reached_bottom());
    assert!(moves > 0);
}

#[test]
fn formation_walks_to_the_edge_and_back() {
    let mut invaders = Invaders::new();
    for _ in 0..3 {
        assert!(invaders.update(MOVE_PERIOD_US));
    }
    assert_eq!(invaders.army()[71], Invader { x: 39, y: 8 });
    assert_eq!(invaders.army()[0], Invader { x: 5, y: 2 });
    assert!(invaders.update(MOVE_PERIOD_US));
    assert_eq!(invaders.army()[71], Invader { x: 39, y: 9 });
    assert_eq!(invaders.army()[0], Invader { x: 5, y: 3 });
    assert_eq!(invaders.direction(), Direction::Left);
}

#[test]
fn empty_swarm_is_all_killed() {
    let invaders = swarm(&[], Direction::Right);
    assert!(invaders.all_killed());
    assert!(!invaders.reached_bottom());
}

#[test]
fn empty_swarm_keeps_its_direction() {
    let mut invaders = swarm(&[], Direction::Left);
    assert!(invaders.update(MOVE_PERIOD_US));
    assert_eq!(invaders.direction(), Direction::Left);
    assert!(invaders.all_killed());
}

#[test]
fn invader_on_the_row_of_the_player_has_reached_the_bottom() {
    let invaders = swarm(&[(3, 2), (7, NUM_ROWS - 1)], Direction::Right);
    assert!(invaders.reached_bottom());
    assert!(!invaders.all_killed());
    let above = swarm(&[(3, 2), (7, NUM_ROWS - 2)], Direction::Right);
    assert!(!above.reached_bottom());
}

#[test]
fn swarm_on_the_bottom_row_rests() {
    let mut invaders = swarm(&[(39, NUM_ROWS - 1), (5, 4)], Direction::Right);
    assert!(!invaders.update(MOVE_PERIOD_US));
    assert!(!invaders.update(u64::MAX));
    assert_eq!(cells(&invaders), vec![(39, 19), (5, 4)]);
    assert_eq!(invaders.direction(), Direction::Right);
}

#[test]
fn descent_onto_the_bottom_row_is_the_last_move() {
    let mut invaders = swarm(&[(39, NUM_ROWS - 2)], Direction::Right);
    assert!(invaders.update(MOVE_PERIOD_US));
    assert_eq!(cells(&invaders), vec![(39, 19)]);
    assert!(invaders.reached_bottom());
    assert!(!invaders.update(MOVE_PERIOD_US));
    assert_eq!(cells(&invaders), vec![(39, 19)]);
}

#[test]
fn invader_outside_the_grid_is_refused() {
    assert!(Invaders::with_army(vec![Invader { x: NUM_COLUMNS, y: 0 }], Direction::Right).is_none());
    assert!(Invaders::with_army(vec![Invader { x: 0, y: NUM_ROWS }], Direction::Left).is_none());
    assert!(Invaders::with_army(
        vec![Invader { x: 1, y: 1 }, Invader { x: usize::MAX, y: usize::MAX }],
        Direction::Left
    )
    .is_none());
    assert!(Invaders::with_army(vec![Invader { x: 39, y: 19 }], Direction::Left).is_some());
}

#[test]
fn kill_removes_the_invader_in_the_cell() {
    let mut invaders = swarm(&[(5, 3), (7, 3), (9, 3)], Direction::Right);
    assert!(invaders.kill_invader_at(7, 3));
    assert_eq!(cells(&invaders), vec![(5, 3), (9, 3)]);
    assert!(!invaders.kill_invader_at(7, 3));
    assert!(!invaders.kill_invader_at(5, 4));
    assert_eq!(cells(&invaders), vec![(5, 3), (9, 3)]);
}

#[test]
fn kill_takes_one_invader_of_two_in_a_cell() {
    let mut invaders = swarm(&[(5, 3), (8, 8), (5, 3)], Direction::Right);
    assert!(invaders.kill_invader_at(5, 3));
    assert_eq!(cells(&invaders), vec![(8, 8), (5, 3)]);
    assert!(invaders.kill_invader_at(5, 3));
    assert_eq!(cells(&invaders), vec![(8, 8)]);
}

#[test]
fn kill_does_not_touch_direction_or_time() {
    let mut invaders = swarm(&[(5, 3), (7, 3)], Direction::Left);
    assert!(!invaders.update(MOVE_PERIOD_US - 1));
    assert!(invaders.kill_invader_at(5, 3));
    assert_eq!(invaders.direction(), Direction::Left);
    assert!(invaders.update(1));
    assert_eq!(cells(&invaders), vec![(6, 3)]);
}
