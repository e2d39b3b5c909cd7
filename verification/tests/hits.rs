use rust_space_invader_game::invaders::{Direction, Invader, Invaders};
use rust_space_invader_game::player::Player;
use rust_space_invader_game::shot::{Shot, SHOT_STEP_US};

fn swarm(cells: &[(usize, usize)]) -> Invaders {
    let army: Vec<Invader> = cells.iter().map(|&(x, y)| Invader { x, y }).collect();
    Invaders::with_army(army, Direction::Right).unwrap()
}

fn cells(invaders: &Invaders) -> Vec<(usize, usize)> {
    invaders.army().iter().map(|invader| (invader.x, invader.y)).collect()
}

/// A player whose ship is in column `x` with one shot at `(x, y)`.
fn player_with_shot_at(x: usize, y: usize) -> Player {
    let mut player = Player::new();
    while player.x() > x {
        player.move_left();
    }
    while player.x() < x {
        player.move_right();
    }
    assert!(player.shoot());
    player.update((18 - y) as u64 * SHOT_STEP_US);
    assert_eq!(player.shots()[0], Shot { x, y, since_step: 0 });
    player
}

#[test]
fn shot_and_invader_in_one_cell_are_both_removed() {
    let mut player = player_with_shot_at(5, 3);
    let mut invaders = swarm(&[(5, 3)]);
    assert!(player.detect_hits(&mut invaders));
    assert!(player.shots().is_empty());
    assert!(invaders.army().is_empty());
    assert!(invaders.all_killed());
}

#[test]
fn second_detection_is_a_no_op() {
    let mut player = player_with_shot_at(5, 3);
    let mut invaders = swarm(&[(5, 3), (6, 3), (5, 4)]);
    assert!(player.detect_hits(&mut invaders));
    assert_eq!(cells(&invaders), vec![(6, 3), (5, 4)]);
    assert!(player.shots().is_empty());
    assert!(!player.detect_hits(&mut invaders));
    assert_eq!(cells(&invaders), vec![(6, 3), (5, 4)]);
    assert!(player.shots().is_empty());
}

#[test]
fn shot_beside_an_invader_misses() {
    let mut player = player_with_shot_at(5, 3);
    let mut invaders = swarm(&[(5, 2), (5, 4), (4, 3), (6, 3)]);
    assert!(!player.detect_hits(&mut invaders));
    assert_eq!(player.shots().len(), 1);
    assert_eq!(player.shots()[0], Shot { x: 5, y: 3, since_step: 0 });
    assert_eq!(cells(&invaders), vec![(5, 2), (5, 4), (4, 3), (6, 3)]);
}

#[test]
fn all_hits_of_a_tick_are_resolved() {
    let mut player = Player::new();
    assert!(player.shoot());
    player.move_right();
    assert!(player.shoot());
    player.update(10 * SHOT_STEP_US);
    let mut invaders = swarm(&[(21, 8), (3, 3), (20, 8)]);
    assert!(player.detect_hits(&mut invaders));
    assert!(player.shots().is_empty());
    assert_eq!(cells(&invaders), vec![(3, 3)]);
}

#[test]
fn two_shots_do_not_take_the_same_invader() {
    let mut player = Player::new();
    assert!(player.shoot());
    assert!(player.shoot());
    player.update(10 * SHOT_STEP_US);
    assert_eq!(player.shots()[0], player.shots()[1]);
    let mut invaders = swarm(&[(20, 8), (1, 1)]);
    assert!(player.detect_hits(&mut invaders));
    assert_eq!(player.shots().len(), 1);
    assert_eq!(player.shots()[0], Shot { x: 20, y: 8, since_step: 0 });
    assert_eq!(cells(&invaders), vec![(1, 1)]);
    assert!(!player.detect_hits(&mut invaders));
    assert_eq!(player.shots().len(), 1);
    assert_eq!(cells(&invaders), vec![(1, 1)]);
}

#[test]
fn one_shot_takes_one_of_two_invaders_in_its_cell() {
    let mut player = player_with_shot_at(5, 3);
    let mut invaders = swarm(&[(5, 3), (9, 9), (5, 3)]);
    assert!(player.detect_hits(&mut invaders));
    assert!(player.shots().is_empty());
    assert_eq!(cells(&invaders), vec![(9, 9), (5, 3)]);
}

#[test]
fn hit_and_miss_in_one_tick() {
    let mut player = Player::new();
    assert!(player.shoot());
    player.update(4 * SHOT_STEP_US + 123);
    player.move_left();
    assert!(player.shoot());
    let mut invaders = swarm(&[(19, 18), (20, 15)]);
    assert!(player.detect_hits(&mut invaders));
    assert_eq!(player.shots().len(), 1);
    assert_eq!(player.shots()[0], Shot { x: 20, y: 14, since_step: 123 });
    assert_eq!(cells(&invaders), vec![(20, 15)]);
    assert_eq!(player.x(), 19);
}

#[test]
fn no_shot_no_hit() {
    let mut player = Player::new();
    let mut invaders = Invaders::new();
    assert!(!player.detect_hits(&mut invaders));
    assert_eq!(invaders.army().len(), 72);
}
